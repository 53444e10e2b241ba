use vstd::prelude::*;

use crate::lexer::token::{Token, TokenKind, TokenType};
use crate::parser::ast::{Arg, Expr, Formal, Symbol};

verus! {

/// A name with an optional value, as the grammar reads both the arguments
/// of a call and the formal parameters of a declaration.
#[derive(Debug)]
pub struct Param {
    pub symbol: Symbol,
    pub value_option: Option<Expr>,
}

/// Takes the arguments of a call from parameters that all carry a value.
pub fn as_args(params: Vec<Param>) -> (args: Vec<Arg>)
    requires
        forall|i: int| 0 <= i < params@.len() ==> (#[trigger] params@[i]).value_option is Some,
    ensures
        args@.len() == params@.len(),
        forall|i: int|
            0 <= i < params@.len() ==> #[trigger] args@[i] == as_arg_spec(params@[i]),
{
    let mut params = params;
    let ghost original = params@;
    let mut args: Vec<Arg> = Vec::new();
    while params.len() > 0
        invariant
            args@.len() + params@.len() == original.len(),
            params@ == original.skip(args@.len() as int),
            forall|i: int| 0 <= i < original.len() ==> (#[trigger] original[i]).value_option is Some,
            forall|i: int| 0 <= i < args@.len() ==> #[trigger] args@[i] == as_arg_spec(original[i]),
        decreases params@.len(),
    {
        let param = params.remove(0);
        assert(param == original[args@.len() as int]);
        args.push(as_arg(param));
        assert(params@ =~= original.skip(args@.len() as int));
    }
    args
}

/// The argument that a parameter with a value is.
pub open spec fn as_arg_spec(param: Param) -> Arg {
    Arg { name: param.symbol, value: param.value_option->0 }
}

/// The argument that a parameter is; it must carry a value.
fn as_arg(param: Param) -> (arg: Arg)
    requires
        param.value_option is Some,
    ensures
        arg == as_arg_spec(param),
{
    Arg { name: param.symbol, value: param.value_option.unwrap() }
}

/// Takes the formal parameters of a declaration from parameters, each with
/// its default value if it carries one.
pub fn as_formals(params: Vec<Param>) -> (formals: Vec<Formal>)
    ensures
        formals@.len() == params@.len(),
        forall|i: int|
            0 <= i < params@.len() ==> #[trigger] formals@[i] == (Formal {
                name: params@[i].symbol,
                default: params@[i].value_option,
            }),
{
    let mut params = params;
    let ghost original = params@;
    let mut formals: Vec<Formal> = Vec::new();
    while params.len() > 0
        invariant
            formals@.len() + params@.len() == original.len(),
            params@ == original.skip(formals@.len() as int),
            forall|i: int|
                0 <= i < formals@.len() ==> #[trigger] formals@[i] == (Formal {
                    name: original[i].symbol,
                    default: original[i].value_option,
                }),
        decreases params@.len(),
    {
        let param = params.remove(0);
        assert(param == original[formals@.len() as int]);
        formals.push(as_formal(param));
        assert(params@ =~= original.skip(formals@.len() as int));
    }
    formals
}

/// The formal parameter that a parameter is.
fn as_formal(param: Param) -> (formal: Formal)
    ensures
        formal == (Formal { name: param.symbol, default: param.value_option }),
{
    Formal { name: param.symbol, default: param.value_option }
}

/// The symbol that an identifier token names.  `descriptor` says what the
/// grammar was reading; the token must be an identifier.
pub fn as_symbol(ident: &Token, descriptor: &str) -> (symbol: Symbol)
    requires
        ident.token_type@ is Identifier,
    ensures
        symbol.name@ == ident.token_type@->Identifier_0,
        symbol.token == *ident,
{
    match &ident.token_type {
        TokenType::Identifier(name) => Symbol { name: name.clone(), token: ident.clone() },
        _ => {
            proof {
                assert(false);
            }
            Symbol { name: String::new(), token: ident.clone() }
        },
    }
}

/// A list made of its first element and the rest.
pub fn sequence<T>(head: T, tail: Vec<T>) -> (list: Vec<T>)
    ensures
        list@ == seq![head] + tail@,
{
    let mut list = Vec::new();
    list.push(head);
    let mut tail = tail;
    list.append(&mut tail);
    list
}

} // verus!

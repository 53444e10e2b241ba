use vstd::prelude::*;

use crate::lexer::token::{Token, TokenModel};

verus! {

/// A name as it stands in the source, with the token it was read from.
#[derive(Debug)]
pub struct Symbol {
    pub name: String,
    pub token: Token,
}

impl View for Symbol {
    type V = (Seq<char>, TokenModel);

    open spec fn view(&self) -> (Seq<char>, TokenModel) {
        (self.name@, self.token@)
    }
}

/// Something that can be assigned to.
#[derive(Debug)]
pub enum LValue {
    Variable { symbol: Symbol },
}

/// An expression.  A number keeps the text of its literal.
#[derive(Debug)]
#[allow(inconsistent_fields)]
pub enum Expr {
    Array { values: Vec<Expr>, token: Token },
    Call { call: FuncCall, token: Token },
    Grouping { value: Box<Expr>, token: Token },
    LValue { lvalue: LValue, token: Token },
    Negated { value: Box<Expr>, token: Token },
    Number { value: String, token: Token },
    Op { left: Box<Expr>, operator: Operator, right: Box<Expr>, token: Token },
    String { value: String, token: Token },
}

/// A named argument of a call.
#[derive(Debug)]
pub struct Arg {
    pub name: Symbol,
    pub value: Expr,
}

/// The binary operators.
#[derive(Debug, Clone, Copy, PartialEq, Eq)]
pub enum Operator {
    Plus,
    Minus,
    Times,
    Divide,
    LessThan,
    LessOrEquals,
    GreaterThan,
    GreaterOrEquals,
}

/// A statement of a program.
#[derive(Debug)]
pub enum Statement {
    FunctionCall(Box<FuncCall>),
    FunctionDecl(FuncDecl),
    Include(String),
    VariableDecl(VarDecl),
}

/// A call of a function with named arguments.
#[derive(Debug)]
pub struct FuncCall {
    pub func: Symbol,
    pub args: Vec<Arg>,
}

/// The declaration of a function.
#[derive(Debug)]
pub struct FuncDecl {
    pub name: Symbol,
    pub formals: Vec<Formal>,
    pub body: Vec<Statement>,
}

/// A formal parameter, with its default value if it has one.
#[derive(Debug)]
pub struct Formal {
    pub name: Symbol,
    pub default: Option<Expr>,
}

/// The declaration of a variable with its initial value.
#[derive(Debug)]
pub struct VarDecl {
    pub name: Symbol,
    pub init: Expr,
}

} // verus!

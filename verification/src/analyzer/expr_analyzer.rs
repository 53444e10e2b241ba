use vstd::prelude::*;

use crate::analyzer::analysis::{error_models, usage_models, uses_of, Analysis, AnalysisState};
use crate::analyzer::builtins::{fn_m, type_models};
use crate::analyzer::common::{lemma_resolution_typed, push_error, resolution, resolve_addr, resolve_type};
use crate::analyzer::function::{Function, ParamInfo};
use crate::analyzer::organic_type::{params_model, OrganicType, ParamModel, TypeModel};
use crate::analyzer::scope::Scope;
use crate::analyzer::tables::TokenSet;
use crate::errors::{AnalyzerErrorModel, AnalyzerErrorType, AnalyzerErrorTypeModel};
use crate::lexer::token::TokenModel;
use crate::parser::ast::{FuncCall, Symbol};

verus! {

/// What an analysis has found so far: its errors, and the tokens at which
/// each variable is used.
#[verifier::ext_equal]
pub struct Findings {
    pub errors: Seq<AnalyzerErrorModel>,
    pub usages: Map<(Seq<char>, u32), Set<TokenModel>>,
}

/// The findings recorded in an analysis.
pub open spec fn findings(analysis: &Analysis) -> Findings {
    Findings {
        errors: error_models(analysis.errors@),
        usages: usage_models(analysis.usages@),
    }
}

/// Where each name resolves in some scopes.
pub open spec fn resolver(scopes: Seq<Scope>) -> spec_fn(Seq<char>) -> Option<(Seq<char>, u32)> {
    |name: Seq<char>|
        match resolution(scopes, name) {
            Some(addr) => Some(addr@),
            None => None,
        }
}

/// The type expected of a name that is called with no arguments: a function
/// with no parameters whose result is not known.
pub open spec fn unknown_function() -> TypeModel {
    fn_m(Seq::empty(), TypeModel::Unknown)
}

/// What analyzing `call` adds to the findings, with names resolved by
/// `resolve` and variables typed by `types`: an unknown name is an error; a
/// name of a function is a use of it; any other name is a type mismatch.
pub open spec fn after_call(
    resolve: spec_fn(Seq<char>) -> Option<(Seq<char>, u32)>,
    types: Map<(Seq<char>, u32), TypeModel>,
    found: Findings,
    call: FuncCall,
) -> Findings {
    let token = call.func.token@;
    match resolve(call.func.name@) {
        None => Findings {
            errors: found.errors.push(
                AnalyzerErrorModel { typ: AnalyzerErrorTypeModel::NoSuchFn, offender: token },
            ),
            usages: found.usages,
        },
        Some(addr) => match types[addr] {
            TypeModel::Function(_) => Findings {
                errors: found.errors,
                usages: found.usages.insert(addr, uses_of(found.usages, addr).insert(token)),
            },
            got => Findings {
                errors: found.errors.push(
                    AnalyzerErrorModel {
                        typ: AnalyzerErrorTypeModel::TypeMismatch { expected: unknown_function(), got },
                        offender: token,
                    },
                ),
                usages: found.usages,
            },
        },
    }
}

/// The type of the value of `call`: what the called function returns, when
/// the name is that of a function.
pub open spec fn call_type(
    resolve: spec_fn(Seq<char>) -> Option<(Seq<char>, u32)>,
    types: Map<(Seq<char>, u32), TypeModel>,
    call: FuncCall,
) -> Option<TypeModel> {
    match resolve(call.func.name@) {
        Some(addr) => match types[addr] {
            TypeModel::Function(f) => Some(*f.return_type),
            _ => None,
        },
        None => None,
    }
}

/// Whether the analysis of `call` stays clear of the analysis of
/// expressions, which handles no expression yet: a name that resolves to
/// something other than a function is called with no arguments.
pub open spec fn call_is_supported(
    resolve: spec_fn(Seq<char>) -> Option<(Seq<char>, u32)>,
    types: Map<(Seq<char>, u32), TypeModel>,
    call: FuncCall,
) -> bool {
    resolve(call.func.name@) matches Some(addr) && !(types[addr] is Function) ==> call.args@.len()
        == 0
}

/// A call of a function is a use of it: after a call of a name that
/// resolves to a function, the uses recorded for its address are those
/// recorded before together with the call's token; the uses of every other
/// address and the errors stay as they were.
pub proof fn lemma_call_records_use(
    resolve: spec_fn(Seq<char>) -> Option<(Seq<char>, u32)>,
    types: Map<(Seq<char>, u32), TypeModel>,
    found: Findings,
    call: FuncCall,
)
    requires
        resolve(call.func.name@) is Some,
        types[resolve(call.func.name@)->0] is Function,
    ensures
        ({
            let addr = resolve(call.func.name@)->0;
            let after = after_call(resolve, types, found, call);
            &&& after.usages.contains_key(addr)
            &&& after.usages[addr] == uses_of(found.usages, addr).insert(call.func.token@)
            &&& found.usages.contains_key(addr) ==> found.usages[addr].subset_of(after.usages[addr])
            &&& after.usages[addr].contains(call.func.token@)
            &&& forall|other: (Seq<char>, u32)|
                other != addr ==> (#[trigger] after.usages.contains_key(other)
                    == found.usages.contains_key(other)) && (found.usages.contains_key(other)
                    ==> after.usages[other] == found.usages[other])
            &&& after.errors == found.errors
        }),
{
}

/// Analyzes a call statement: resolves the called name, records a use of it
/// or an error, and returns the type of the call's value where it has one.
pub fn crawl_function_call(state: &mut AnalysisState, fn_call: FuncCall) -> (result: Option<
    OrganicType,
>)
    requires
        old(state).wf(),
        call_is_supported(resolver(old(state).scopes@), type_models(old(state).vars@), fn_call),
    ensures
        final(state).wf(),
        findings(&final(state).analysis) == after_call(
            resolver(old(state).scopes@),
            type_models(old(state).vars@),
            findings(&old(state).analysis),
            fn_call,
        ),
        match result {
            Some(t) => call_type(resolver(old(state).scopes@), type_models(old(state).vars@), fn_call)
                == Some(t@),
            None => call_type(resolver(old(state).scopes@), type_models(old(state).vars@), fn_call) is None,
        },
        final(state).analysis.definitions == old(state).analysis.definitions,
        final(state).last_scope_addr == old(state).last_scope_addr,
        final(state).scopes == old(state).scopes,
        final(state).vars == old(state).vars,
{
    let ghost before = findings(&state.analysis);
    let ghost call = fn_call;
    let FuncCall { func: Symbol { name, token }, args } = fn_call;
    proof {
        lemma_resolution_typed(state, name@);
    }
    match resolve_addr(state, name.as_str()) {
        None => {
            push_error(state, token, AnalyzerErrorType::NoSuchFn);
            assert(findings(&state.analysis).errors =~= after_call(
                resolver(old(state).scopes@),
                type_models(old(state).vars@),
                before,
                call,
            ).errors);
            None
        },
        Some(addr) => {
            let typ = resolve_type(state, &addr);
            match typ {
                OrganicType::Function(func) => {
                    let ghost old_usages = state.analysis.usages@;
                    let mut uses = match state.analysis.usages.get(&addr) {
                        Some(set) => set.copy(),
                        None => TokenSet::new(),
                    };
                    uses.insert(token);
                    state.analysis.usages.insert(addr, uses);
                    assert(usage_models(state.analysis.usages@) =~= usage_models(old_usages).insert(
                        addr@,
                        uses_of(usage_models(old_usages), addr@).insert(call.func.token@),
                    ));
                    Some(func.return_type)
                },
                got => {
                    let params: Vec<ParamInfo> = Vec::new();
                    assert(params_model(params@) =~= Seq::<ParamModel>::empty());
                    let unknown = Function { params, return_type: OrganicType::Unknown };
                    assert(unknown.return_type@ == TypeModel::Unknown);
                    let expected = OrganicType::Function(Box::new(unknown));
                    assert(expected@ =~= unknown_function());
                    push_error(state, token, AnalyzerErrorType::TypeMismatch { expected, got });
                    assert(findings(&state.analysis).errors =~= after_call(
                        resolver(old(state).scopes@),
                        type_models(old(state).vars@),
                        before,
                        call,
                    ).errors);
                    None
                },
            }
        },
    }
}

} // verus!

use vstd::prelude::*;

use crate::analyzer::address::NamedVarAddress;
use crate::analyzer::analysis::AnalysisState;
use crate::analyzer::organic_type::{clone_type, OrganicType};
use crate::analyzer::scope::Scope;
use crate::errors::{AnalyzerError, AnalyzerErrorType};
use crate::lexer::token::Token;

verus! {

/// The address that `name` resolves to: its binding in the first of the
/// scopes that binds it, if any does.
pub open spec fn resolution(scopes: Seq<Scope>, name: Seq<char>) -> Option<NamedVarAddress>
    decreases scopes.len(),
{
    if scopes.len() == 0 {
        None
    } else if scopes[0].env.bindings@.contains_key(name) {
        Some(scopes[0].env.bindings@[name])
    } else {
        resolution(scopes.drop_first(), name)
    }
}

proof fn lemma_resolution_step(scopes: Seq<Scope>, i: int, name: Seq<char>)
    requires
        0 <= i < scopes.len(),
    ensures
        resolution(scopes.subrange(i, scopes.len() as int), name) == if scopes[i].env.bindings@.contains_key(
            name,
        ) {
            Some(scopes[i].env.bindings@[name])
        } else {
            resolution(scopes.subrange(i + 1, scopes.len() as int), name)
        },
{
    let rest = scopes.subrange(i, scopes.len() as int);
    assert(rest[0] == scopes[i]);
    assert(rest.drop_first() =~= scopes.subrange(i + 1, scopes.len() as int));
}

/// Where a name resolves, it resolves to a binding of one of the scopes.
pub proof fn lemma_resolution_bound(scopes: Seq<Scope>, name: Seq<char>)
    ensures
        resolution(scopes, name) matches Some(addr) ==> exists|i: int|
            0 <= i < scopes.len() && #[trigger] scopes[i].env.bindings@.contains_key(name)
                && scopes[i].env.bindings@[name] == addr,
    decreases scopes.len(),
{
    if scopes.len() > 0 && !scopes[0].env.bindings@.contains_key(name) {
        lemma_resolution_bound(scopes.drop_first(), name);
        if let Some(addr) = resolution(scopes, name) {
            let i = choose|i: int|
                0 <= i < scopes.drop_first().len() && #[trigger] scopes.drop_first()[i].env.bindings@.contains_key(name)
                    && scopes.drop_first()[i].env.bindings@[name] == addr;
            assert(scopes[i + 1] == scopes.drop_first()[i]);
        }
    } else if scopes.len() > 0 {
        assert(scopes[0].env.bindings@.contains_key(name));
    }
}

/// In a well-formed state, the variable that a name resolves to has a type.
pub proof fn lemma_resolution_typed(state: &AnalysisState, name: Seq<char>)
    requires
        state.wf(),
    ensures
        resolution(state.scopes@, name) matches Some(addr) ==> state.vars@.contains_key(addr@),
{
    lemma_resolution_bound(state.scopes@, name);
}

/// Bindings resolve: in a well-formed state (as the state every analysis
/// starts in is, and as every call and every run of statements keeps it),
/// each name resolves to an address that carries that name and whose type
/// is known, so that looking up the type of what a name resolves to never
/// fails.
pub proof fn lemma_bindings_resolve(state: &AnalysisState)
    requires
        state.wf(),
    ensures
        forall|name: Seq<char>|
            match #[trigger] resolution(state.scopes@, name) {
                Some(addr) => addr.name@ == name && state.vars@.contains_key(addr@),
                None => true,
            },
{
    assert forall|name: Seq<char>|
        match #[trigger] resolution(state.scopes@, name) {
            Some(addr) => addr.name@ == name && state.vars@.contains_key(addr@),
            None => true,
        } by {
        lemma_resolution_bound(state.scopes@, name);
    }
}

/// The address that `name` resolves to in the scopes of `state`, looked up
/// from the first scope on.
pub fn resolve_addr(state: &AnalysisState, name: &str) -> (addr: Option<NamedVarAddress>)
    ensures
        addr == resolution(state.scopes@, name@),
{
    let mut i: usize = 0;
    assert(state.scopes@.subrange(0, state.scopes@.len() as int) =~= state.scopes@);
    while i < state.scopes.len()
        invariant
            i <= state.scopes@.len(),
            resolution(state.scopes@, name@) == resolution(
                state.scopes@.subrange(i as int, state.scopes@.len() as int),
                name@,
            ),
        decreases state.scopes@.len() - i,
    {
        proof {
            lemma_resolution_step(state.scopes@, i as int, name@);
        }
        if let Some(addr) = state.scopes[i].env.bindings.get(name) {
            return Some(addr.clone());
        }
        i = i + 1;
    }
    None
}

/// The type of the variable at `addr`, which must be known.
pub fn resolve_type(state: &AnalysisState, addr: &NamedVarAddress) -> (typ: OrganicType)
    requires
        state.vars@.contains_key(addr@),
    ensures
        typ@ == state.vars@[addr@]@,
{
    match state.vars.get(addr) {
        Some(typ) => clone_type(typ),
        None => OrganicType::Unknown,
    }
}

/// Records an error of kind `typ` at `token`; nothing else changes.
pub fn push_error(state: &mut AnalysisState, token: Token, typ: AnalyzerErrorType)
    ensures
        final(state).analysis.errors@ == old(state).analysis.errors@.push(
            AnalyzerError { typ, offender: token },
        ),
        final(state).analysis.definitions == old(state).analysis.definitions,
        final(state).analysis.usages == old(state).analysis.usages,
        final(state).last_scope_addr == old(state).last_scope_addr,
        final(state).scopes == old(state).scopes,
        final(state).vars == old(state).vars,
{
    state.analysis.errors.push(AnalyzerError { typ, offender: token });
}

} // verus!

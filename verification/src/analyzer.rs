pub mod address;
pub mod analysis;
pub mod builtins;
pub mod common;
pub mod expr_analyzer;
pub mod function;
pub mod organic_type;
pub mod scope;
pub mod statement_analyzer;
pub mod tables;

use vstd::prelude::*;

use crate::analyzer::analysis::{Analysis, AnalysisState};
use crate::analyzer::builtins::{
    address_views, builtin_types, first_scope_bindings, in_first_scope, type_models,
};
use crate::analyzer::common::resolution;
use crate::analyzer::expr_analyzer::{findings, resolver, Findings};
use crate::analyzer::statement_analyzer::{after_statements, run, statement_is_supported};
use crate::parser::ast::Statement;

verus! {

/// Where each name resolves before the first statement: the names that a
/// program starts with, each in the first scope.
pub open spec fn builtin_resolver() -> spec_fn(Seq<char>) -> Option<(Seq<char>, u32)> {
    |name: Seq<char>|
        if builtin_types().contains_key(name) {
            Some((name, 0u32))
        } else {
            None
        }
}

/// Nothing found yet.
pub open spec fn no_findings() -> Findings {
    Findings { errors: Seq::empty(), usages: Map::empty() }
}

/// In the state before the first statement, names resolve to the names that
/// a program starts with, and nothing has been found.
pub proof fn lemma_initial_resolution(state: &AnalysisState)
    requires
        state.is_initial(),
    ensures
        resolver(state.scopes@) == builtin_resolver(),
        findings(&state.analysis) == no_findings(),
{
    let scopes = state.scopes@;
    let b = scopes[0].env.bindings@;
    assert forall|name: Seq<char>| #[trigger] resolver(scopes)(name) == builtin_resolver()(name) by {
        assert(scopes.drop_first().len() == 0);
        assert(resolution(scopes.drop_first(), name) is None);
        assert(address_views(b).contains_key(name) == b.contains_key(name));
        if b.contains_key(name) {
            assert(address_views(b)[name] == b[name]@);
        }
    }
    assert(resolver(scopes) =~= builtin_resolver());
    assert(findings(&state.analysis) =~= no_findings());
}

/// Analyzes a program: runs its statements from the state that every
/// program starts in, and returns what was found.
pub fn analyze(statements: Vec<Statement>) -> (analysis: Analysis)
    requires
        forall|i: int|
            0 <= i < statements@.len() ==> statement_is_supported(
                builtin_resolver(),
                in_first_scope(builtin_types()),
                #[trigger] statements@[i],
            ),
    ensures
        findings(&analysis) == after_statements(
            builtin_resolver(),
            in_first_scope(builtin_types()),
            no_findings(),
            statements@,
        ),
        analysis.definitions@ == Map::<(Seq<char>, u32), crate::lexer::token::Token>::empty(),
{
    let mut state = AnalysisState::default();
    proof {
        lemma_initial_resolution(&state);
    }
    run(&mut state, statements);
    state.analysis
}

} // verus!

use vstd::prelude::*;

use crate::analyzer::analysis::AnalysisState;
use crate::analyzer::builtins::type_models;
use crate::analyzer::expr_analyzer::{
    lemma_call_records_use, after_call, call_is_supported, crawl_function_call, findings, resolver, Findings,
};
use crate::analyzer::organic_type::TypeModel;
use crate::lexer::token::TokenModel;
use crate::parser::ast::{FuncCall, Statement};

verus! {

/// Whether a statement can be analyzed: it is a call that stays clear of
/// the analysis of expressions. (An include and a variable declaration are
/// not handled yet.)
pub open spec fn statement_is_supported(
    resolve: spec_fn(Seq<char>) -> Option<(Seq<char>, u32)>,
    types: Map<(Seq<char>, u32), TypeModel>,
    statement: Statement,
) -> bool {
    match statement {
        Statement::FunctionCall(call) => call_is_supported(resolve, types, *call),
        _ => false,
    }
}

/// What analyzing `statements` one after the other adds to the findings.
pub open spec fn after_statements(
    resolve: spec_fn(Seq<char>) -> Option<(Seq<char>, u32)>,
    types: Map<(Seq<char>, u32), TypeModel>,
    found: Findings,
    statements: Seq<Statement>,
) -> Findings
    decreases statements.len(),
{
    if statements.len() == 0 {
        found
    } else {
        let before = after_statements(resolve, types, found, statements.drop_last());
        match statements.last() {
            Statement::FunctionCall(call) => after_call(resolve, types, before, *call),
            _ => before,
        }
    }
}

/// Analyzing statements keeps every error found before, in order, and adds
/// at most one error per statement.
pub proof fn lemma_errors_accumulate(
    resolve: spec_fn(Seq<char>) -> Option<(Seq<char>, u32)>,
    types: Map<(Seq<char>, u32), TypeModel>,
    found: Findings,
    statements: Seq<Statement>,
)
    ensures
        found.errors.len() <= after_statements(resolve, types, found, statements).errors.len()
            <= found.errors.len() + statements.len(),
        forall|i: int|
            0 <= i < found.errors.len() ==> #[trigger] after_statements(
                resolve,
                types,
                found,
                statements,
            ).errors[i] == found.errors[i],
    decreases statements.len(),
{
    if statements.len() > 0 {
        lemma_errors_accumulate(resolve, types, found, statements.drop_last());
    }
}

/// Analyzing statements forgets no use: every variable used before is still
/// used, at least at the same tokens.
pub proof fn lemma_usages_grow(
    resolve: spec_fn(Seq<char>) -> Option<(Seq<char>, u32)>,
    types: Map<(Seq<char>, u32), TypeModel>,
    found: Findings,
    statements: Seq<Statement>,
)
    ensures
        forall|addr: (Seq<char>, u32)|
            #[trigger] found.usages.contains_key(addr) ==> {
                let after = after_statements(resolve, types, found, statements).usages;
                after.contains_key(addr) && found.usages[addr].subset_of(after[addr])
            },
    decreases statements.len(),
{
    if statements.len() > 0 {
        lemma_usages_grow(resolve, types, found, statements.drop_last());
        let before = after_statements(resolve, types, found, statements.drop_last());
        assert forall|addr: (Seq<char>, u32)| #[trigger] found.usages.contains_key(addr) implies {
            let after = after_statements(resolve, types, found, statements).usages;
            after.contains_key(addr) && found.usages[addr].subset_of(after[addr])
        } by {
            assert(before.usages.contains_key(addr));
            assert(found.usages[addr].subset_of(before.usages[addr]));
        }
    }
}

/// Statements fold in order: analyzing `a` and then `b` finds what
/// analyzing `a + b` finds, and analyzing no statement finds nothing new.
pub proof fn lemma_statements_fold(
    resolve: spec_fn(Seq<char>) -> Option<(Seq<char>, u32)>,
    types: Map<(Seq<char>, u32), TypeModel>,
    found: Findings,
    a: Seq<Statement>,
    b: Seq<Statement>,
)
    ensures
        after_statements(resolve, types, found, Seq::empty()) == found,
        after_statements(resolve, types, found, a + b) == after_statements(
            resolve,
            types,
            after_statements(resolve, types, found, a),
            b,
        ),
    decreases b.len(),
{
    if b.len() == 0 {
        assert(a + b =~= a);
    } else {
        lemma_statements_fold(resolve, types, found, a, b.drop_last());
        assert((a + b).drop_last() =~= a + b.drop_last());
        assert((a + b).last() == b.last());
    }
}

/// A call statement is a call: analyzing the statement alone finds what
/// analyzing the call finds.
pub proof fn lemma_call_statement(
    resolve: spec_fn(Seq<char>) -> Option<(Seq<char>, u32)>,
    types: Map<(Seq<char>, u32), TypeModel>,
    found: Findings,
    call: Box<FuncCall>,
)
    ensures
        after_statements(resolve, types, found, seq![Statement::FunctionCall(call)]) == after_call(
            resolve,
            types,
            found,
            *call,
        ),
{
    let one = seq![Statement::FunctionCall(call)];
    assert(one.drop_last() =~= Seq::<Statement>::empty());
    assert(after_statements(resolve, types, found, one.drop_last()) == found);
    assert(one.last() == Statement::FunctionCall(call));
}

/// Whether the usages `usages` hold the use that `statement` makes, if it
/// is a call of a name that resolves to a function.
pub open spec fn use_recorded(
    resolve: spec_fn(Seq<char>) -> Option<(Seq<char>, u32)>,
    types: Map<(Seq<char>, u32), TypeModel>,
    usages: Map<(Seq<char>, u32), Set<TokenModel>>,
    statement: Statement,
) -> bool {
    match statement {
        Statement::FunctionCall(call) => match resolve(call.func.name@) {
            Some(addr) => types[addr] is Function ==> usages.contains_key(addr) && usages[addr].contains(
                call.func.token@,
            ),
            None => true,
        },
        _ => true,
    }
}

/// No use is lost: after analyzing statements, every call among them of a
/// name that resolves to a function is recorded, at its token, among the
/// uses of that function's address, whatever calls came before or after it.
pub proof fn lemma_every_use_recorded(
    resolve: spec_fn(Seq<char>) -> Option<(Seq<char>, u32)>,
    types: Map<(Seq<char>, u32), TypeModel>,
    found: Findings,
    statements: Seq<Statement>,
)
    ensures
        forall|k: int|
            0 <= k < statements.len() ==> use_recorded(
                resolve,
                types,
                after_statements(resolve, types, found, statements).usages,
                #[trigger] statements[k],
            ),
    decreases statements.len(),
{
    if statements.len() > 0 {
        let prefix = statements.drop_last();
        lemma_every_use_recorded(resolve, types, found, prefix);
        let before = after_statements(resolve, types, found, prefix);
        let after = after_statements(resolve, types, found, statements);
        lemma_usages_grow(resolve, types, before, seq![statements.last()]);
        lemma_statements_fold(resolve, types, found, prefix, seq![statements.last()]);
        assert(prefix + seq![statements.last()] =~= statements);
        assert forall|k: int| 0 <= k < statements.len() implies use_recorded(
            resolve,
            types,
            after.usages,
            #[trigger] statements[k],
        ) by {
            if k < statements.len() - 1 {
                assert(statements[k] == prefix[k]);
                assert(use_recorded(resolve, types, before.usages, prefix[k]));
            } else {
                if let Statement::FunctionCall(call) = statements.last() {
                    lemma_call_statement(resolve, types, before, call);
                    if resolve(call.func.name@) is Some && types[resolve(call.func.name@)->0] is Function {
                        lemma_call_records_use(resolve, types, before, *call);
                    }
                }
            }
        }
    }
}

/// Analyzes the statements one after the other.
pub fn run(state: &mut AnalysisState, statements: Vec<Statement>)
    requires
        old(state).wf(),
        forall|i: int|
            0 <= i < statements@.len() ==> statement_is_supported(
                resolver(old(state).scopes@),
                type_models(old(state).vars@),
                #[trigger] statements@[i],
            ),
    ensures
        final(state).wf(),
        findings(&final(state).analysis) == after_statements(
            resolver(old(state).scopes@),
            type_models(old(state).vars@),
            findings(&old(state).analysis),
            statements@,
        ),
        final(state).analysis.definitions == old(state).analysis.definitions,
        final(state).last_scope_addr == old(state).last_scope_addr,
        final(state).scopes == old(state).scopes,
        final(state).vars == old(state).vars,
{
    let ghost all = statements@;
    let ghost start = findings(&state.analysis);
    assert(all.len() <= usize::MAX) by {
        assert(statements@.len() == statements.len());
    }
    let mut rest = statements;
    let mut done: usize = 0;
    while rest.len() > 0
        invariant
            state.wf(),
            done <= all.len(),
            all.len() <= usize::MAX,
            rest@ == all.skip(done as int),
            findings(&state.analysis) == after_statements(
                resolver(old(state).scopes@),
                type_models(old(state).vars@),
                start,
                all.take(done as int),
            ),
            forall|i: int|
                0 <= i < all.len() ==> statement_is_supported(
                    resolver(old(state).scopes@),
                    type_models(old(state).vars@),
                    #[trigger] all[i],
                ),
            state.analysis.definitions == old(state).analysis.definitions,
            state.last_scope_addr == old(state).last_scope_addr,
            state.scopes == old(state).scopes,
            state.vars == old(state).vars,
        decreases rest@.len(),
    {
        assert(done < all.len());
        let statement = rest.remove(0);
        proof {
            assert(statement == all[done as int]);
            assert(all.take(done + 1).drop_last() =~= all.take(done as int));
            assert(all.take(done + 1).last() == all[done as int]);
        }
        crawl_statement(state, statement);
        done = done + 1;
        assert(rest@ =~= all.skip(done as int));
    }
    assert(all.take(done as int) =~= all);
}

/// Analyzes one statement.
fn crawl_statement(state: &mut AnalysisState, statement: Statement)
    requires
        old(state).wf(),
        statement_is_supported(resolver(old(state).scopes@), type_models(old(state).vars@), statement),
    ensures
        final(state).wf(),
        findings(&final(state).analysis) == match statement {
            Statement::FunctionCall(call) => after_call(
                resolver(old(state).scopes@),
                type_models(old(state).vars@),
                findings(&old(state).analysis),
                *call,
            ),
            _ => findings(&old(state).analysis),
        },
        final(state).analysis.definitions == old(state).analysis.definitions,
        final(state).last_scope_addr == old(state).last_scope_addr,
        final(state).scopes == old(state).scopes,
        final(state).vars == old(state).vars,
{
    match statement {
        Statement::FunctionCall(fn_call) => {
            crawl_function_call(state, *fn_call);
        },
        _ => {},
    }
}

} // verus!

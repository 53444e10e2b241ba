use vstd::prelude::*;

use crate::analyzer::address::ScopeAddress;
use crate::analyzer::builtins::{
    address_views, builtin_types, first_scope_bindings, in_first_scope, initial_state, type_models,
};
use crate::analyzer::organic_type::{OrganicType, TypeModel};
use crate::analyzer::scope::{Env, Scope};
use crate::analyzer::tables::{AddressMap, TokenSet};
use crate::errors::{AnalyzerError, AnalyzerErrorModel};
use crate::lexer::token::{Token, TokenModel};

verus! {

/// What the analysis of a program found: where each variable is defined,
/// the errors, and the tokens at which each variable is used.
pub struct Analysis {
    pub definitions: AddressMap<Token>,
    pub errors: Vec<AnalyzerError>,
    pub usages: AddressMap<TokenSet>,
}

/// The models of the analyzer errors found so far.
pub open spec fn error_models(errors: Seq<AnalyzerError>) -> Seq<AnalyzerErrorModel> {
    errors.map_values(|e: AnalyzerError| e@)
}

/// The models of the usages found so far: the set of tokens at which each
/// variable is used.
pub open spec fn usage_models(usages: Map<(Seq<char>, u32), TokenSet>) -> Map<
    (Seq<char>, u32),
    Set<TokenModel>,
> {
    usages.map_values(|s: TokenSet| s@)
}

/// The tokens at which the variable at `addr` is used, as far as known.
pub open spec fn uses_of(usages: Map<(Seq<char>, u32), Set<TokenModel>>, addr: (Seq<char>, u32)) -> Set<
    TokenModel,
> {
    if usages.contains_key(addr) {
        usages[addr]
    } else {
        Set::empty()
    }
}

impl Default for Analysis {
    fn default() -> (analysis: Self)
        ensures
            analysis.definitions@ == Map::<(Seq<char>, u32), Token>::empty(),
            analysis.errors@ == Seq::<AnalyzerError>::empty(),
            analysis.usages@ == Map::<(Seq<char>, u32), TokenSet>::empty(),
    {
        Analysis { definitions: AddressMap::new(), errors: Vec::new(), usages: AddressMap::new() }
    }
}

/// The state of an analysis under way: what was found so far, the address of
/// the latest scope, the scopes (a name is looked up from the first scope
/// on) and the type of each variable.
pub struct AnalysisState {
    pub analysis: Analysis,
    pub last_scope_addr: ScopeAddress,
    pub scopes: Vec<Scope>,
    pub vars: AddressMap<OrganicType>,
}

impl AnalysisState {
    /// Every name bound in a scope leads to a variable of that name whose
    /// type is known.
    pub open spec fn wf(&self) -> bool {
        forall|i: int, name: Seq<char>|
            0 <= i < self.scopes@.len() && #[trigger] self.scopes@[i].env.bindings@.contains_key(name)
                ==> {
                &&& self.vars@.contains_key(self.scopes@[i].env.bindings@[name]@)
                &&& self.scopes@[i].env.bindings@[name].name@ == name
            }
    }

    /// The state of an analysis before its first statement: one scope, at
    /// address 0, holding the names that a program starts with.
    pub open spec fn is_initial(&self) -> bool {
        &&& self.analysis.definitions@ == Map::<(Seq<char>, u32), Token>::empty()
        &&& self.analysis.errors@ == Seq::<AnalyzerError>::empty()
        &&& self.analysis.usages@ == Map::<(Seq<char>, u32), TokenSet>::empty()
        &&& self.last_scope_addr.n == 0
        &&& self.scopes@.len() == 1
        &&& self.scopes@[0].address.n == 0
        &&& address_views(self.scopes@[0].env.bindings@) == first_scope_bindings(builtin_types())
        &&& type_models(self.vars@) == in_first_scope(builtin_types())
    }
}

impl Default for AnalysisState {
    fn default() -> (state: Self)
        ensures
            state.is_initial(),
            state.wf(),
    {
        let (bindings, vars) = initial_state();
        let state = AnalysisState {
            analysis: Analysis::default(),
            last_scope_addr: ScopeAddress { n: 0 },
            scopes: vec![Scope { env: Env { bindings }, address: ScopeAddress { n: 0 } }],
            vars,
        };
        assert forall|i: int, name: Seq<char>|
            0 <= i < state.scopes@.len() && #[trigger] state.scopes@[i].env.bindings@.contains_key(name)
                implies {
                &&& state.vars@.contains_key(state.scopes@[i].env.bindings@[name]@)
                &&& state.scopes@[i].env.bindings@[name].name@ == name
            } by {
            let b = state.scopes@[0].env.bindings@;
            assert(address_views(b).contains_key(name));
            assert(address_views(b)[name] == b[name]@);
            assert(in_first_scope(builtin_types()).contains_key((name, 0u32)));
            assert(type_models(state.vars@).contains_key((name, 0u32)));
        }
        state
    }
}

} // verus!

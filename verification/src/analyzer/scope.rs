use vstd::hash_map::StringHashMap;
use vstd::prelude::*;

use crate::analyzer::address::{NamedVarAddress, ScopeAddress};

verus! {

/// The names bound in a scope, each with the address of its variable.
pub struct Env {
    pub bindings: StringHashMap<NamedVarAddress>,
}

/// A scope: its bindings and its address.
pub struct Scope {
    pub env: Env,
    pub address: ScopeAddress,
}

} // verus!

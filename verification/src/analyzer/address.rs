use vstd::prelude::*;

verus! {

/// The address of a scope.
#[derive(Debug, Clone, Copy, PartialEq, Eq, Hash)]
pub struct ScopeAddress {
    pub n: u32,
}

/// The address of a named variable: its name and the scope it lives in.
#[derive(Debug, PartialEq, Eq, Hash)]
pub struct NamedVarAddress {
    pub name: String,
    pub scope_addr: ScopeAddress,
}

impl View for NamedVarAddress {
    type V = (Seq<char>, u32);

    open spec fn view(&self) -> (Seq<char>, u32) {
        (self.name@, self.scope_addr.n)
    }
}

impl Clone for NamedVarAddress {
    fn clone(&self) -> (copy: Self)
        ensures
            copy == *self,
    {
        NamedVarAddress { name: self.name.clone(), scope_addr: self.scope_addr }
    }
}

} // verus!

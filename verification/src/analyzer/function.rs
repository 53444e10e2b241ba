use vstd::prelude::*;

use crate::analyzer::organic_type::OrganicType;

verus! {

/// The type of a function: its parameters and what it returns.
#[derive(Debug)]
pub struct Function {
    pub params: Vec<ParamInfo>,
    pub return_type: OrganicType,
}

/// A parameter of a function type: its name, its type, and whether it has a
/// default value.
#[derive(Debug)]
pub struct ParamInfo(pub String, pub OrganicType, pub bool);

} // verus!

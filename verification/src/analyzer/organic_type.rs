use vstd::prelude::*;

use crate::analyzer::function::{Function, ParamInfo};

verus! {

/// The types of Organic values.
#[derive(Debug)]
pub enum OrganicType {
    AudioEffect,
    AudioSource,
    Boolean,
    Function(Box<Function>),
    List(Box<OrganicType>),
    Number,
    RandomArg,
    RoundArg,
    SequenceArg,
    String,
    Unknown,
}

/// The mathematical content of an [`OrganicType`].
#[verifier::ext_equal]
pub enum TypeModel {
    AudioEffect,
    AudioSource,
    Boolean,
    Function(FunctionModel),
    List(Box<TypeModel>),
    Number,
    RandomArg,
    RoundArg,
    SequenceArg,
    String,
    Unknown,
}

/// The mathematical content of a [`Function`] type.
#[verifier::ext_equal]
pub struct FunctionModel {
    pub params: Seq<ParamModel>,
    pub return_type: Box<TypeModel>,
}

/// The mathematical content of a [`ParamInfo`]: name, type, and whether
/// the parameter has a default.
#[verifier::ext_equal]
pub struct ParamModel {
    pub name: Seq<char>,
    pub typ: TypeModel,
    pub has_default: bool,
}

/// The model of a type.
pub open spec fn type_model(t: &OrganicType) -> TypeModel
    decreases t,
{
    match t {
        OrganicType::AudioEffect => TypeModel::AudioEffect,
        OrganicType::AudioSource => TypeModel::AudioSource,
        OrganicType::Boolean => TypeModel::Boolean,
        OrganicType::Function(f) => TypeModel::Function(
            FunctionModel {
                params: params_model(f.params@),
                return_type: Box::new(type_model(&f.return_type)),
            },
        ),
        OrganicType::List(item) => TypeModel::List(Box::new(type_model(item))),
        OrganicType::Number => TypeModel::Number,
        OrganicType::RandomArg => TypeModel::RandomArg,
        OrganicType::RoundArg => TypeModel::RoundArg,
        OrganicType::SequenceArg => TypeModel::SequenceArg,
        OrganicType::String => TypeModel::String,
        OrganicType::Unknown => TypeModel::Unknown,
    }
}

/// The models of some parameters.
pub open spec fn params_model(ps: Seq<ParamInfo>) -> Seq<ParamModel>
    decreases ps,
{
    if ps.len() == 0 {
        seq![]
    } else {
        let p = ps.last();
        params_model(ps.drop_last()).push(
            ParamModel { name: p.0@, typ: type_model(&p.1), has_default: p.2 },
        )
    }
}

/// The model of one parameter.
pub open spec fn param_model(p: ParamInfo) -> ParamModel {
    ParamModel { name: p.0@, typ: type_model(&p.1), has_default: p.2 }
}

impl View for OrganicType {
    type V = TypeModel;

    open spec fn view(&self) -> TypeModel {
        type_model(self)
    }
}

/// A copy of a type.
pub fn clone_type(t: &OrganicType) -> (copy: OrganicType)
    ensures
        copy@ == t@,
    decreases t,
{
    match t {
        OrganicType::AudioEffect => OrganicType::AudioEffect,
        OrganicType::AudioSource => OrganicType::AudioSource,
        OrganicType::Boolean => OrganicType::Boolean,
        OrganicType::Function(f) => OrganicType::Function(Box::new(clone_function(f))),
        OrganicType::List(item) => OrganicType::List(Box::new(clone_type(item))),
        OrganicType::Number => OrganicType::Number,
        OrganicType::RandomArg => OrganicType::RandomArg,
        OrganicType::RoundArg => OrganicType::RoundArg,
        OrganicType::SequenceArg => OrganicType::SequenceArg,
        OrganicType::String => OrganicType::String,
        OrganicType::Unknown => OrganicType::Unknown,
    }
}

/// A copy of a function type.
pub fn clone_function(f: &Function) -> (copy: Function)
    ensures
        params_model(copy.params@) == params_model(f.params@),
        copy.return_type@ == f.return_type@,
    decreases f,
{
    let mut params: Vec<ParamInfo> = Vec::new();
    let mut i: usize = 0;
    while i < f.params.len()
        invariant
            i <= f.params@.len(),
            params_model(params@) == params_model(f.params@.take(i as int)),
        decreases f.params@.len() - i,
    {
        let p = &f.params[i];
        assert(decreases_to!(f => f.params@[i as int].1));
        let copy = ParamInfo(p.0.clone(), clone_type(&p.1), p.2);
        let ghost before = params@;
        params.push(copy);
        assert(params@.drop_last() =~= before);
        assert(f.params@.take(i + 1).drop_last() =~= f.params@.take(i as int));
        i = i + 1;
    }
    assert(f.params@.take(i as int) =~= f.params@);
    Function { params, return_type: clone_type(&f.return_type) }
}

impl Clone for OrganicType {
    fn clone(&self) -> (copy: Self)
        ensures
            copy@ == self@,
    {
        clone_type(self)
    }
}

} // verus!

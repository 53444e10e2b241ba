use vstd::hash_map::StringHashMap;
use vstd::prelude::*;

use crate::analyzer::address::{NamedVarAddress, ScopeAddress};
use crate::analyzer::function::{Function, ParamInfo};
use crate::analyzer::organic_type::{
    clone_type, param_model, params_model, FunctionModel, OrganicType, ParamModel, TypeModel,
};
use crate::analyzer::tables::AddressMap;
use crate::text::push_char;

verus! {

/// The model of a parameter.
pub open spec fn param_m(name: Seq<char>, typ: TypeModel, has_default: bool) -> ParamModel {
    ParamModel { name, typ, has_default }
}

/// The model of a function type.
pub open spec fn fn_m(params: Seq<ParamModel>, return_type: TypeModel) -> TypeModel {
    TypeModel::Function(FunctionModel { params, return_type: Box::new(return_type) })
}

/// The model of a list type.
pub open spec fn list_m(item: TypeModel) -> TypeModel {
    TypeModel::List(Box::new(item))
}

/// The constants of the language and their types.
pub open spec fn builtin_constant_table() -> Seq<(Seq<char>, TypeModel)> {
    seq![
        ("backward"@, TypeModel::SequenceArg),
        ("down"@, TypeModel::RoundArg),
        ("e"@, TypeModel::Number),
        ("false"@, TypeModel::Boolean),
        ("forward"@, TypeModel::SequenceArg),
        ("linear"@, TypeModel::RandomArg),
        ("nearest"@, TypeModel::RoundArg),
        ("pi"@, TypeModel::Number),
        ("ping-pong"@, TypeModel::SequenceArg),
        ("shuffle"@, TypeModel::SequenceArg),
        ("step"@, TypeModel::RandomArg),
        ("tau"@, TypeModel::Number),
        ("true"@, TypeModel::Boolean),
        ("up"@, TypeModel::RoundArg),
    ]
}

/// The functions of the standard library and their types.
pub open spec fn builtin_function_table() -> Seq<(Seq<char>, TypeModel)> {
    seq![
        ("absolute"@, fn_m(seq![param_m("value"@, TypeModel::Number, false)], TypeModel::Number)),
        ("all"@, fn_m(seq![param_m("values"@, list_m(TypeModel::Boolean), false)], TypeModel::Boolean)),
        ("all-pass"@, fn_m(seq![param_m("feedback"@, TypeModel::Number, false), param_m("delay"@, TypeModel::Number, false), param_m("mix"@, TypeModel::Number, true)], TypeModel::AudioEffect)),
        ("any"@, fn_m(seq![param_m("values"@, list_m(TypeModel::Boolean), false)], TypeModel::Boolean)),
        ("comb"@, fn_m(seq![param_m("feedback"@, TypeModel::Number, false), param_m("delay"@, TypeModel::Number, false), param_m("mix"@, TypeModel::Number, true)], TypeModel::AudioEffect)),
        ("delay"@, fn_m(seq![param_m("feedback"@, TypeModel::Number, false), param_m("delay"@, TypeModel::Number, false), param_m("mix"@, TypeModel::Number, true)], TypeModel::AudioEffect)),
        ("effect-group"@, fn_m(seq![param_m("effects"@, list_m(TypeModel::AudioEffect), false), param_m("mix"@, TypeModel::Number, true)], TypeModel::AudioEffect)),
        ("granulate"@, fn_m(seq![param_m("shape"@, fn_m(seq![param_m("value"@, TypeModel::Number, false)], TypeModel::Number), true), param_m("length"@, TypeModel::Number, true), param_m("grains"@, TypeModel::Number, true), param_m("sample"@, TypeModel::String, false), param_m("effects"@, list_m(TypeModel::AudioEffect), true), param_m("pan"@, TypeModel::Number, true), param_m("volume"@, TypeModel::Number, true)], TypeModel::AudioSource)),
        ("group"@, fn_m(seq![param_m("sources"@, list_m(TypeModel::AudioSource), false), param_m("effects"@, list_m(TypeModel::AudioEffect), true), param_m("pan"@, TypeModel::Number, true), param_m("volume"@, TypeModel::Number, true)], TypeModel::AudioSource)),
        ("hold"@, fn_m(seq![param_m("length"@, TypeModel::Number, false), param_m("value"@, TypeModel::Number, false)], TypeModel::AudioEffect)),
        ("if"@, fn_m(seq![param_m("is-false"@, TypeModel::Number, false), param_m("is-true"@, TypeModel::Number, false), param_m("condition"@, TypeModel::Boolean, false)], TypeModel::Number)),
        ("lfo"@, fn_m(seq![param_m("length"@, TypeModel::Number, false), param_m("to"@, TypeModel::Number, false), param_m("from"@, TypeModel::Number, false)], TypeModel::AudioSource)),
        ("limit"@, fn_m(seq![param_m("max"@, TypeModel::Number, false), param_m("min"@, TypeModel::Number, false), param_m("value"@, TypeModel::Number, false)], TypeModel::Number)),
        ("low-pass"@, fn_m(seq![param_m("threshold"@, TypeModel::Number, false)], TypeModel::Number)),
        ("max"@, fn_m(seq![param_m("values"@, list_m(TypeModel::Number), false)], TypeModel::Number)),
        ("min"@, fn_m(seq![param_m("values"@, list_m(TypeModel::Number), false)], TypeModel::Number)),
        ("noise"@, fn_m(seq![param_m("effects"@, list_m(TypeModel::AudioEffect), true), param_m("pan"@, TypeModel::Number, true), param_m("volume"@, TypeModel::Number, true)], TypeModel::AudioSource)),
        ("none"@, fn_m(seq![param_m("values"@, list_m(TypeModel::Boolean), false)], TypeModel::Boolean)),
        ("oscillator"@, fn_m(seq![param_m("waveform"@, fn_m(seq![param_m("phase"@, TypeModel::Number, false)], TypeModel::Number), false), param_m("frequency"@, TypeModel::Number, false), param_m("effects"@, list_m(TypeModel::AudioEffect), true), param_m("pan"@, TypeModel::Number, true), param_m("volume"@, TypeModel::Number, true)], TypeModel::AudioSource)),
        ("random"@, fn_m(seq![param_m("type"@, TypeModel::RandomArg, true), param_m("length"@, TypeModel::Number, false), param_m("to"@, TypeModel::Number, false), param_m("from"@, TypeModel::Number, false)], TypeModel::AudioSource)),
        ("repeat"@, fn_m(seq![param_m("repeats"@, TypeModel::Number, true), param_m("value"@, TypeModel::Number, false)], TypeModel::AudioSource)),
        ("reverb"@, fn_m(seq![param_m("length"@, TypeModel::Number, false), param_m("mix"@, TypeModel::Number, true)], TypeModel::AudioEffect)),
        ("round"@, fn_m(seq![param_m("direction"@, TypeModel::RoundArg, true), param_m("step"@, TypeModel::Number, true), param_m("value"@, TypeModel::Number, false)], TypeModel::Number)),
        ("sample"@, fn_m(seq![param_m("file"@, TypeModel::String, false), param_m("effects"@, list_m(TypeModel::AudioEffect), true), param_m("pan"@, TypeModel::Number, true), param_m("volume"@, TypeModel::Number, true)], TypeModel::AudioSource)),
        ("saw"@, fn_m(seq![param_m("frequency"@, TypeModel::Number, false), param_m("effects"@, list_m(TypeModel::AudioEffect), true), param_m("pan"@, TypeModel::Number, true), param_m("volume"@, TypeModel::Number, true)], TypeModel::AudioSource)),
        ("sequence"@, fn_m(seq![param_m("order"@, TypeModel::SequenceArg, true), param_m("values"@, list_m(TypeModel::Number), false)], list_m(TypeModel::Number))),
        ("sine"@, fn_m(seq![param_m("frequency"@, TypeModel::Number, false), param_m("effects"@, list_m(TypeModel::AudioEffect), true), param_m("pan"@, TypeModel::Number, true), param_m("volume"@, TypeModel::Number, true)], TypeModel::AudioSource)),
        ("square"@, fn_m(seq![param_m("frequency"@, TypeModel::Number, false), param_m("effects"@, list_m(TypeModel::AudioEffect), true), param_m("pan"@, TypeModel::Number, true), param_m("volume"@, TypeModel::Number, true)], TypeModel::AudioSource)),
        ("sweep"@, fn_m(seq![param_m("length"@, TypeModel::Number, false), param_m("to"@, TypeModel::Number, false), param_m("from"@, TypeModel::Number, false)], TypeModel::AudioSource)),
        ("time"@, fn_m(Seq::<ParamModel>::empty(), TypeModel::Number)),
        ("triangle"@, fn_m(seq![param_m("frequency"@, TypeModel::Number, false), param_m("effects"@, list_m(TypeModel::AudioEffect), true), param_m("pan"@, TypeModel::Number, true), param_m("volume"@, TypeModel::Number, true)], TypeModel::AudioSource)),
        ("trigger"@, fn_m(seq![param_m("value"@, TypeModel::Number, false), param_m("condition"@, TypeModel::Boolean, false)], TypeModel::Number)),
    ]
}


/// The map that a table gives when its entries are put in one after the
/// other: where a name comes twice, the later entry holds.
pub open spec fn table_map(table: Seq<(Seq<char>, TypeModel)>) -> Map<Seq<char>, TypeModel>
    decreases table.len(),
{
    if table.len() == 0 {
        Map::empty()
    } else {
        table_map(table.drop_last()).insert(table.last().0, table.last().1)
    }
}

/// The letters of the notes.
pub open spec fn note_letters() -> Seq<char> {
    seq!['a', 'b', 'c', 'd', 'e', 'f', 'g']
}

/// The accidentals of the notes: flat, natural, sharp.
pub open spec fn accidentals() -> Seq<Seq<char>> {
    seq![seq!['f'], seq![], seq!['s']]
}

/// The octaves of the notes.
pub open spec fn octave_digits() -> Seq<char> {
    seq!['0', '1', '2', '3', '4', '5', '6', '7', '8', '9']
}

/// The `j`-th note name, counting through the letters, then the
/// accidentals, then the octaves: `af0`, `af1`, ..., `a0`, ..., `gs9`.
/// (`as5` is an A sharp in the fifth octave.)
pub open spec fn note_name(j: int) -> Seq<char> {
    seq![note_letters()[j / 30]] + accidentals()[(j % 30) / 10] + seq![octave_digits()[j % 10]]
}

/// The number of note names.
pub open spec fn note_count() -> int {
    210
}

/// One of the note names among the first `n`.
pub open spec fn is_note_before(name: Seq<char>, n: int) -> bool {
    exists|j: int| 0 <= j < n && name == #[trigger] note_name(j)
}

/// A note name.
pub open spec fn is_note(name: Seq<char>) -> bool {
    is_note_before(name, note_count())
}

/// The names that a program starts with, and their types: the constants,
/// then the functions of the standard library, then the notes, each a number.
pub open spec fn builtin_types() -> Map<Seq<char>, TypeModel> {
    table_map(builtin_constant_table() + builtin_function_table()).union_prefer_right(
        Map::new(|name: Seq<char>| is_note(name), |name: Seq<char>| TypeModel::Number),
    )
}

/// A map by name placed in the first scope.
pub open spec fn in_first_scope(m: Map<Seq<char>, TypeModel>) -> Map<(Seq<char>, u32), TypeModel> {
    Map::new(|k: (Seq<char>, u32)| k.1 == 0 && m.contains_key(k.0), |k: (Seq<char>, u32)| m[k.0])
}

/// The models of a map's types.
pub open spec fn type_models(m: Map<(Seq<char>, u32), OrganicType>) -> Map<(Seq<char>, u32), TypeModel> {
    m.map_values(|t: OrganicType| t@)
}

/// The views of a map's addresses.
pub open spec fn address_views(m: Map<Seq<char>, NamedVarAddress>) -> Map<Seq<char>, (Seq<char>, u32)> {
    m.map_values(|a: NamedVarAddress| a@)
}

/// The models of a table's entries.
pub open spec fn entry_models(table: Seq<(String, OrganicType)>) -> Seq<(Seq<char>, TypeModel)> {
    table.map_values(|e: (String, OrganicType)| (e.0@, e.1@))
}

fn owned(s: &str) -> (owned: String)
    ensures
        owned@ == s@,
{
    s.to_owned()
}

fn param(name: &str, typ: OrganicType, has_default: bool) -> (p: ParamInfo)
    ensures
        param_model(p) == param_m(name@, typ@, has_default),
{
    ParamInfo(owned(name), typ, has_default)
}

fn list_t(item: OrganicType) -> (t: OrganicType)
    ensures
        t@ == list_m(item@),
{
    OrganicType::List(Box::new(item))
}

fn no_params() -> (params: Vec<ParamInfo>)
    ensures
        params_model(params@) == Seq::<ParamModel>::empty(),
{
    Vec::new()
}

fn push_param(params: Vec<ParamInfo>, p: ParamInfo) -> (more: Vec<ParamInfo>)
    ensures
        params_model(more@) == params_model(params@).push(param_model(p)),
{
    let mut more = params;
    more.push(p);
    assert(more@.drop_last() =~= params@);
    more
}

fn function_t(params: Vec<ParamInfo>, return_type: OrganicType) -> (t: OrganicType)
    ensures
        t@ == fn_m(params_model(params@), return_type@),
{
    OrganicType::Function(Box::new(Function { params, return_type }))
}

/// The constants of the language, as a table.
fn constant_list() -> (table: Vec<(String, OrganicType)>)
    ensures
        entry_models(table@) == builtin_constant_table(),
{
    let table = vec![
        (owned("backward"), OrganicType::SequenceArg),
        (owned("down"), OrganicType::RoundArg),
        (owned("e"), OrganicType::Number),
        (owned("false"), OrganicType::Boolean),
        (owned("forward"), OrganicType::SequenceArg),
        (owned("linear"), OrganicType::RandomArg),
        (owned("nearest"), OrganicType::RoundArg),
        (owned("pi"), OrganicType::Number),
        (owned("ping-pong"), OrganicType::SequenceArg),
        (owned("shuffle"), OrganicType::SequenceArg),
        (owned("step"), OrganicType::RandomArg),
        (owned("tau"), OrganicType::Number),
        (owned("true"), OrganicType::Boolean),
        (owned("up"), OrganicType::RoundArg),
    ];
    assert(entry_models(table@) =~= builtin_constant_table());
    table
}

/// The functions of the standard library, as a table.
#[verifier::rlimit(60)]
fn function_list() -> (table: Vec<(String, OrganicType)>)
    ensures
        entry_models(table@) == builtin_function_table(),
{
    let mut table: Vec<(String, OrganicType)> = Vec::new();
    {
        let mut ps = no_params();
        ps = push_param(ps, param("value", OrganicType::Number, false));
        assert(params_model(ps@) == seq![param_m("value"@, TypeModel::Number, false)]);
        let t = function_t(ps, OrganicType::Number);
        table.push((owned("absolute"), t));
    }
    {
        let mut ps = no_params();
        ps = push_param(ps, param("values", list_t(OrganicType::Boolean), false));
        assert(params_model(ps@) == seq![param_m("values"@, list_m(TypeModel::Boolean), false)]);
        let t = function_t(ps, OrganicType::Boolean);
        table.push((owned("all"), t));
    }
    {
        let mut ps = no_params();
        ps = push_param(ps, param("feedback", OrganicType::Number, false));
        ps = push_param(ps, param("delay", OrganicType::Number, false));
        ps = push_param(ps, param("mix", OrganicType::Number, true));
        assert(params_model(ps@) == seq![param_m("feedback"@, TypeModel::Number, false), param_m("delay"@, TypeModel::Number, false), param_m("mix"@, TypeModel::Number, true)]);
        let t = function_t(ps, OrganicType::AudioEffect);
        table.push((owned("all-pass"), t));
    }
    {
        let mut ps = no_params();
        ps = push_param(ps, param("values", list_t(OrganicType::Boolean), false));
        assert(params_model(ps@) == seq![param_m("values"@, list_m(TypeModel::Boolean), false)]);
        let t = function_t(ps, OrganicType::Boolean);
        table.push((owned("any"), t));
    }
    {
        let mut ps = no_params();
        ps = push_param(ps, param("feedback", OrganicType::Number, false));
        ps = push_param(ps, param("delay", OrganicType::Number, false));
        ps = push_param(ps, param("mix", OrganicType::Number, true));
        assert(params_model(ps@) == seq![param_m("feedback"@, TypeModel::Number, false), param_m("delay"@, TypeModel::Number, false), param_m("mix"@, TypeModel::Number, true)]);
        let t = function_t(ps, OrganicType::AudioEffect);
        table.push((owned("comb"), t));
    }
    {
        let mut ps = no_params();
        ps = push_param(ps, param("feedback", OrganicType::Number, false));
        ps = push_param(ps, param("delay", OrganicType::Number, false));
        ps = push_param(ps, param("mix", OrganicType::Number, true));
        assert(params_model(ps@) == seq![param_m("feedback"@, TypeModel::Number, false), param_m("delay"@, TypeModel::Number, false), param_m("mix"@, TypeModel::Number, true)]);
        let t = function_t(ps, OrganicType::AudioEffect);
        table.push((owned("delay"), t));
    }
    {
        let mut ps = no_params();
        ps = push_param(ps, param("effects", list_t(OrganicType::AudioEffect), false));
        ps = push_param(ps, param("mix", OrganicType::Number, true));
        assert(params_model(ps@) == seq![param_m("effects"@, list_m(TypeModel::AudioEffect), false), param_m("mix"@, TypeModel::Number, true)]);
        let t = function_t(ps, OrganicType::AudioEffect);
        table.push((owned("effect-group"), t));
    }
    {
        let mut ps = no_params();
        let mut inner = no_params();
        inner = push_param(inner, param("value", OrganicType::Number, false));
        let inner_t = function_t(inner, OrganicType::Number);
        assert(inner_t@ == fn_m(seq![param_m("value"@, TypeModel::Number, false)], TypeModel::Number));
        ps = push_param(ps, param("shape", inner_t, true));
        ps = push_param(ps, param("length", OrganicType::Number, true));
        ps = push_param(ps, param("grains", OrganicType::Number, true));
        ps = push_param(ps, param("sample", OrganicType::String, false));
        ps = push_param(ps, param("effects", list_t(OrganicType::AudioEffect), true));
        ps = push_param(ps, param("pan", OrganicType::Number, true));
        ps = push_param(ps, param("volume", OrganicType::Number, true));
        assert(params_model(ps@) == seq![param_m("shape"@, fn_m(seq![param_m("value"@, TypeModel::Number, false)], TypeModel::Number), true), param_m("length"@, TypeModel::Number, true), param_m("grains"@, TypeModel::Number, true), param_m("sample"@, TypeModel::String, false), param_m("effects"@, list_m(TypeModel::AudioEffect), true), param_m("pan"@, TypeModel::Number, true), param_m("volume"@, TypeModel::Number, true)]);
        let t = function_t(ps, OrganicType::AudioSource);
        table.push((owned("granulate"), t));
    }
    {
        let mut ps = no_params();
        ps = push_param(ps, param("sources", list_t(OrganicType::AudioSource), false));
        ps = push_param(ps, param("effects", list_t(OrganicType::AudioEffect), true));
        ps = push_param(ps, param("pan", OrganicType::Number, true));
        ps = push_param(ps, param("volume", OrganicType::Number, true));
        assert(params_model(ps@) == seq![param_m("sources"@, list_m(TypeModel::AudioSource), false), param_m("effects"@, list_m(TypeModel::AudioEffect), true), param_m("pan"@, TypeModel::Number, true), param_m("volume"@, TypeModel::Number, true)]);
        let t = function_t(ps, OrganicType::AudioSource);
        table.push((owned("group"), t));
    }
    {
        let mut ps = no_params();
        ps = push_param(ps, param("length", OrganicType::Number, false));
        ps = push_param(ps, param("value", OrganicType::Number, false));
        assert(params_model(ps@) == seq![param_m("length"@, TypeModel::Number, false), param_m("value"@, TypeModel::Number, false)]);
        let t = function_t(ps, OrganicType::AudioEffect);
        table.push((owned("hold"), t));
    }
    {
        let mut ps = no_params();
        ps = push_param(ps, param("is-false", OrganicType::Number, false));
        ps = push_param(ps, param("is-true", OrganicType::Number, false));
        ps = push_param(ps, param("condition", OrganicType::Boolean, false));
        assert(params_model(ps@) == seq![param_m("is-false"@, TypeModel::Number, false), param_m("is-true"@, TypeModel::Number, false), param_m("condition"@, TypeModel::Boolean, false)]);
        let t = function_t(ps, OrganicType::Number);
        table.push((owned("if"), t));
    }
    {
        let mut ps = no_params();
        ps = push_param(ps, param("length", OrganicType::Number, false));
        ps = push_param(ps, param("to", OrganicType::Number, false));
        ps = push_param(ps, param("from", OrganicType::Number, false));
        assert(params_model(ps@) == seq![param_m("length"@, TypeModel::Number, false), param_m("to"@, TypeModel::Number, false), param_m("from"@, TypeModel::Number, false)]);
        let t = function_t(ps, OrganicType::AudioSource);
        table.push((owned("lfo"), t));
    }
    {
        let mut ps = no_params();
        ps = push_param(ps, param("max", OrganicType::Number, false));
        ps = push_param(ps, param("min", OrganicType::Number, false));
        ps = push_param(ps, param("value", OrganicType::Number, false));
        assert(params_model(ps@) == seq![param_m("max"@, TypeModel::Number, false), param_m("min"@, TypeModel::Number, false), param_m("value"@, TypeModel::Number, false)]);
        let t = function_t(ps, OrganicType::Number);
        table.push((owned("limit"), t));
    }
    {
        let mut ps = no_params();
        ps = push_param(ps, param("threshold", OrganicType::Number, false));
        assert(params_model(ps@) == seq![param_m("threshold"@, TypeModel::Number, false)]);
        let t = function_t(ps, OrganicType::Number);
        table.push((owned("low-pass"), t));
    }
    {
        let mut ps = no_params();
        ps = push_param(ps, param("values", list_t(OrganicType::Number), false));
        assert(params_model(ps@) == seq![param_m("values"@, list_m(TypeModel::Number), false)]);
        let t = function_t(ps, OrganicType::Number);
        table.push((owned("max"), t));
    }
    {
        let mut ps = no_params();
        ps = push_param(ps, param("values", list_t(OrganicType::Number), false));
        assert(params_model(ps@) == seq![param_m("values"@, list_m(TypeModel::Number), false)]);
        let t = function_t(ps, OrganicType::Number);
        table.push((owned("min"), t));
    }
    {
        let mut ps = no_params();
        ps = push_param(ps, param("effects", list_t(OrganicType::AudioEffect), true));
        ps = push_param(ps, param("pan", OrganicType::Number, true));
        ps = push_param(ps, param("volume", OrganicType::Number, true));
        assert(params_model(ps@) == seq![param_m("effects"@, list_m(TypeModel::AudioEffect), true), param_m("pan"@, TypeModel::Number, true), param_m("volume"@, TypeModel::Number, true)]);
        let t = function_t(ps, OrganicType::AudioSource);
        table.push((owned("noise"), t));
    }
    {
        let mut ps = no_params();
        ps = push_param(ps, param("values", list_t(OrganicType::Boolean), false));
        assert(params_model(ps@) == seq![param_m("values"@, list_m(TypeModel::Boolean), false)]);
        let t = function_t(ps, OrganicType::Boolean);
        table.push((owned("none"), t));
    }
    {
        let mut ps = no_params();
        let mut inner = no_params();
        inner = push_param(inner, param("phase", OrganicType::Number, false));
        let inner_t = function_t(inner, OrganicType::Number);
        assert(inner_t@ == fn_m(seq![param_m("phase"@, TypeModel::Number, false)], TypeModel::Number));
        ps = push_param(ps, param("waveform", inner_t, false));
        ps = push_param(ps, param("frequency", OrganicType::Number, false));
        ps = push_param(ps, param("effects", list_t(OrganicType::AudioEffect), true));
        ps = push_param(ps, param("pan", OrganicType::Number, true));
        ps = push_param(ps, param("volume", OrganicType::Number, true));
        assert(params_model(ps@) == seq![param_m("waveform"@, fn_m(seq![param_m("phase"@, TypeModel::Number, false)], TypeModel::Number), false), param_m("frequency"@, TypeModel::Number, false), param_m("effects"@, list_m(TypeModel::AudioEffect), true), param_m("pan"@, TypeModel::Number, true), param_m("volume"@, TypeModel::Number, true)]);
        let t = function_t(ps, OrganicType::AudioSource);
        table.push((owned("oscillator"), t));
    }
    {
        let mut ps = no_params();
        ps = push_param(ps, param("type", OrganicType::RandomArg, true));
        ps = push_param(ps, param("length", OrganicType::Number, false));
        ps = push_param(ps, param("to", OrganicType::Number, false));
        ps = push_param(ps, param("from", OrganicType::Number, false));
        assert(params_model(ps@) == seq![param_m("type"@, TypeModel::RandomArg, true), param_m("length"@, TypeModel::Number, false), param_m("to"@, TypeModel::Number, false), param_m("from"@, TypeModel::Number, false)]);
        let t = function_t(ps, OrganicType::AudioSource);
        table.push((owned("random"), t));
    }
    {
        let mut ps = no_params();
        ps = push_param(ps, param("repeats", OrganicType::Number, true));
        ps = push_param(ps, param("value", OrganicType::Number, false));
        assert(params_model(ps@) == seq![param_m("repeats"@, TypeModel::Number, true), param_m("value"@, TypeModel::Number, false)]);
        let t = function_t(ps, OrganicType::AudioSource);
        table.push((owned("repeat"), t));
    }
    {
        let mut ps = no_params();
        ps = push_param(ps, param("length", OrganicType::Number, false));
        ps = push_param(ps, param("mix", OrganicType::Number, true));
        assert(params_model(ps@) == seq![param_m("length"@, TypeModel::Number, false), param_m("mix"@, TypeModel::Number, true)]);
        let t = function_t(ps, OrganicType::AudioEffect);
        table.push((owned("reverb"), t));
    }
    {
        let mut ps = no_params();
        ps = push_param(ps, param("direction", OrganicType::RoundArg, true));
        ps = push_param(ps, param("step", OrganicType::Number, true));
        ps = push_param(ps, param("value", OrganicType::Number, false));
        assert(params_model(ps@) == seq![param_m("direction"@, TypeModel::RoundArg, true), param_m("step"@, TypeModel::Number, true), param_m("value"@, TypeModel::Number, false)]);
        let t = function_t(ps, OrganicType::Number);
        table.push((owned("round"), t));
    }
    {
        let mut ps = no_params();
        ps = push_param(ps, param("file", OrganicType::String, false));
        ps = push_param(ps, param("effects", list_t(OrganicType::AudioEffect), true));
        ps = push_param(ps, param("pan", OrganicType::Number, true));
        ps = push_param(ps, param("volume", OrganicType::Number, true));
        assert(params_model(ps@) == seq![param_m("file"@, TypeModel::String, false), param_m("effects"@, list_m(TypeModel::AudioEffect), true), param_m("pan"@, TypeModel::Number, true), param_m("volume"@, TypeModel::Number, true)]);
        let t = function_t(ps, OrganicType::AudioSource);
        table.push((owned("sample"), t));
    }
    {
        let mut ps = no_params();
        ps = push_param(ps, param("frequency", OrganicType::Number, false));
        ps = push_param(ps, param("effects", list_t(OrganicType::AudioEffect), true));
        ps = push_param(ps, param("pan", OrganicType::Number, true));
        ps = push_param(ps, param("volume", OrganicType::Number, true));
        assert(params_model(ps@) == seq![param_m("frequency"@, TypeModel::Number, false), param_m("effects"@, list_m(TypeModel::AudioEffect), true), param_m("pan"@, TypeModel::Number, true), param_m("volume"@, TypeModel::Number, true)]);
        let t = function_t(ps, OrganicType::AudioSource);
        table.push((owned("saw"), t));
    }
    {
        let mut ps = no_params();
        ps = push_param(ps, param("order", OrganicType::SequenceArg, true));
        ps = push_param(ps, param("values", list_t(OrganicType::Number), false));
        assert(params_model(ps@) == seq![param_m("order"@, TypeModel::SequenceArg, true), param_m("values"@, list_m(TypeModel::Number), false)]);
        let t = function_t(ps, list_t(OrganicType::Number));
        table.push((owned("sequence"), t));
    }
    {
        let mut ps = no_params();
        ps = push_param(ps, param("frequency", OrganicType::Number, false));
        ps = push_param(ps, param("effects", list_t(OrganicType::AudioEffect), true));
        ps = push_param(ps, param("pan", OrganicType::Number, true));
        ps = push_param(ps, param("volume", OrganicType::Number, true));
        assert(params_model(ps@) == seq![param_m("frequency"@, TypeModel::Number, false), param_m("effects"@, list_m(TypeModel::AudioEffect), true), param_m("pan"@, TypeModel::Number, true), param_m("volume"@, TypeModel::Number, true)]);
        let t = function_t(ps, OrganicType::AudioSource);
        table.push((owned("sine"), t));
    }
    {
        let mut ps = no_params();
        ps = push_param(ps, param("frequency", OrganicType::Number, false));
        ps = push_param(ps, param("effects", list_t(OrganicType::AudioEffect), true));
        ps = push_param(ps, param("pan", OrganicType::Number, true));
        ps = push_param(ps, param("volume", OrganicType::Number, true));
        assert(params_model(ps@) == seq![param_m("frequency"@, TypeModel::Number, false), param_m("effects"@, list_m(TypeModel::AudioEffect), true), param_m("pan"@, TypeModel::Number, true), param_m("volume"@, TypeModel::Number, true)]);
        let t = function_t(ps, OrganicType::AudioSource);
        table.push((owned("square"), t));
    }
    {
        let mut ps = no_params();
        ps = push_param(ps, param("length", OrganicType::Number, false));
        ps = push_param(ps, param("to", OrganicType::Number, false));
        ps = push_param(ps, param("from", OrganicType::Number, false));
        assert(params_model(ps@) == seq![param_m("length"@, TypeModel::Number, false), param_m("to"@, TypeModel::Number, false), param_m("from"@, TypeModel::Number, false)]);
        let t = function_t(ps, OrganicType::AudioSource);
        table.push((owned("sweep"), t));
    }
    {
        let mut ps = no_params();
        assert(params_model(ps@) == Seq::<ParamModel>::empty());
        let t = function_t(ps, OrganicType::Number);
        table.push((owned("time"), t));
    }
    {
        let mut ps = no_params();
        ps = push_param(ps, param("frequency", OrganicType::Number, false));
        ps = push_param(ps, param("effects", list_t(OrganicType::AudioEffect), true));
        ps = push_param(ps, param("pan", OrganicType::Number, true));
        ps = push_param(ps, param("volume", OrganicType::Number, true));
        assert(params_model(ps@) == seq![param_m("frequency"@, TypeModel::Number, false), param_m("effects"@, list_m(TypeModel::AudioEffect), true), param_m("pan"@, TypeModel::Number, true), param_m("volume"@, TypeModel::Number, true)]);
        let t = function_t(ps, OrganicType::AudioSource);
        table.push((owned("triangle"), t));
    }
    {
        let mut ps = no_params();
        ps = push_param(ps, param("value", OrganicType::Number, false));
        ps = push_param(ps, param("condition", OrganicType::Boolean, false));
        assert(params_model(ps@) == seq![param_m("value"@, TypeModel::Number, false), param_m("condition"@, TypeModel::Boolean, false)]);
        let t = function_t(ps, OrganicType::Number);
        table.push((owned("trigger"), t));
    }
    assert(entry_models(table@) =~= builtin_function_table());
    table
}

proof fn lemma_type_models_insert(
    m: Map<(Seq<char>, u32), OrganicType>,
    k: (Seq<char>, u32),
    t: OrganicType,
)
    ensures
        type_models(m.insert(k, t)) == type_models(m).insert(k, t@),
{
    assert(type_models(m.insert(k, t)) =~= type_models(m).insert(k, t@));
}

proof fn lemma_first_scope_insert(m: Map<Seq<char>, TypeModel>, name: Seq<char>, t: TypeModel)
    ensures
        in_first_scope(m.insert(name, t)) == in_first_scope(m).insert((name, 0u32), t),
{
    assert(in_first_scope(m.insert(name, t)) =~= in_first_scope(m).insert((name, 0u32), t));
}

/// The bindings of every name of `m` to its address in the first scope.
pub open spec fn first_scope_bindings(m: Map<Seq<char>, TypeModel>) -> Map<Seq<char>, (Seq<char>, u32)> {
    Map::new(|name: Seq<char>| m.contains_key(name), |name: Seq<char>| (name, 0u32))
}

proof fn lemma_bindings_insert(
    b: Map<Seq<char>, NamedVarAddress>,
    m: Map<Seq<char>, TypeModel>,
    name: Seq<char>,
    addr: NamedVarAddress,
    t: TypeModel,
)
    requires
        address_views(b) == first_scope_bindings(m),
        addr@ == (name, 0u32),
    ensures
        address_views(b.insert(name, addr)) == first_scope_bindings(m.insert(name, t)),
{
    let lhs = address_views(b.insert(name, addr));
    let rhs = first_scope_bindings(m.insert(name, t));
    assert forall|k: Seq<char>| #[trigger] lhs.contains_key(k) <==> rhs.contains_key(k) by {
        assert(lhs.contains_key(k) == b.insert(name, addr).contains_key(k));
        assert(rhs.contains_key(k) == m.insert(name, t).contains_key(k));
        assert(address_views(b).contains_key(k) == b.contains_key(k));
        assert(first_scope_bindings(m).contains_key(k) == m.contains_key(k));
    }
    assert forall|k: Seq<char>| lhs.contains_key(k) implies #[trigger] lhs[k] == rhs[k] by {
        if k != name {
            assert(address_views(b)[k] == first_scope_bindings(m)[k]);
        }
    }
    assert(lhs =~= rhs);
}

proof fn lemma_note_before_step(name: Seq<char>, j: int)
    requires
        0 <= j,
    ensures
        is_note_before(name, j + 1) <==> (is_note_before(name, j) || name == note_name(j)),
{
    if is_note_before(name, j + 1) {
        let k = choose|k: int| 0 <= k < j + 1 && name == #[trigger] note_name(k);
        if k < j {
            assert(is_note_before(name, j));
        }
    }
    if name == note_name(j) {
        assert(0 <= j < j + 1 && name == note_name(j));
    }
    if is_note_before(name, j) {
        let k = choose|k: int| 0 <= k < j && name == #[trigger] note_name(k);
        assert(0 <= k < j + 1 && name == note_name(k));
    }
}

/// The `j`-th note name.
fn note_string(j: usize) -> (name: String)
    requires
        j < note_count(),
    ensures
        name@ == note_name(j as int),
{
    let letters = ['a', 'b', 'c', 'd', 'e', 'f', 'g'];
    let digits = ['0', '1', '2', '3', '4', '5', '6', '7', '8', '9'];
    assert(letters@ =~= note_letters());
    assert(digits@ =~= octave_digits());
    let mut name = String::new();
    push_char(&mut name, letters[j / 30]);
    let accidental = (j % 30) / 10;
    let ghost after_letter = name@;
    if accidental == 0 {
        push_char(&mut name, 'f');
    } else if accidental == 2 {
        push_char(&mut name, 's');
    }
    let ghost after_accidental = name@;
    assert(after_accidental =~= after_letter + accidentals()[(j as int % 30) / 10]);
    push_char(&mut name, digits[j % 10]);
    assert(name@ =~= note_name(j as int));
    name
}



/// Every entry of a table is a function type, and no name of it ends in a
/// digit.
spec fn library_entry(entry: (Seq<char>, TypeModel)) -> bool {
    &&& entry.1 is Function
    &&& entry.0.len() > 0
    &&& !(48 <= (entry.0.last() as u32) && (entry.0.last() as u32) <= 57)
}

proof fn lemma_library_entries()
    ensures
        forall|i: int|
            0 <= i < builtin_function_table().len() ==> library_entry(
                #[trigger] builtin_function_table()[i],
            ),
{
    reveal_strlit("absolute");
    reveal_strlit("all");
    reveal_strlit("all-pass");
    reveal_strlit("any");
    reveal_strlit("comb");
    reveal_strlit("delay");
    reveal_strlit("effect-group");
    reveal_strlit("granulate");
    reveal_strlit("group");
    reveal_strlit("hold");
    reveal_strlit("if");
    reveal_strlit("lfo");
    reveal_strlit("limit");
    reveal_strlit("low-pass");
    reveal_strlit("max");
    reveal_strlit("min");
    reveal_strlit("noise");
    reveal_strlit("none");
    reveal_strlit("oscillator");
    reveal_strlit("random");
    reveal_strlit("repeat");
    reveal_strlit("reverb");
    reveal_strlit("round");
    reveal_strlit("sample");
    reveal_strlit("saw");
    reveal_strlit("sequence");
    reveal_strlit("sine");
    reveal_strlit("square");
    reveal_strlit("sweep");
    reveal_strlit("time");
    reveal_strlit("triangle");
    reveal_strlit("trigger");
    let t = builtin_function_table();
    assert(t.len() == 32);
    assert forall|i: int| 0 <= i < t.len() implies library_entry(#[trigger] t[i]) by {
        if i == 0 {
            assert(t[0].0 == "absolute"@);
        } else if i == 1 {
            assert(t[1].0 == "all"@);
        } else if i == 2 {
            assert(t[2].0 == "all-pass"@);
        } else if i == 3 {
            assert(t[3].0 == "any"@);
        } else if i == 4 {
            assert(t[4].0 == "comb"@);
        } else if i == 5 {
            assert(t[5].0 == "delay"@);
        } else if i == 6 {
            assert(t[6].0 == "effect-group"@);
        } else if i == 7 {
            assert(t[7].0 == "granulate"@);
        } else if i == 8 {
            assert(t[8].0 == "group"@);
        } else if i == 9 {
            assert(t[9].0 == "hold"@);
        } else if i == 10 {
            assert(t[10].0 == "if"@);
        } else if i == 11 {
            assert(t[11].0 == "lfo"@);
        } else if i == 12 {
            assert(t[12].0 == "limit"@);
        } else if i == 13 {
            assert(t[13].0 == "low-pass"@);
        } else if i == 14 {
            assert(t[14].0 == "max"@);
        } else if i == 15 {
            assert(t[15].0 == "min"@);
        } else if i == 16 {
            assert(t[16].0 == "noise"@);
        } else if i == 17 {
            assert(t[17].0 == "none"@);
        } else if i == 18 {
            assert(t[18].0 == "oscillator"@);
        } else if i == 19 {
            assert(t[19].0 == "random"@);
        } else if i == 20 {
            assert(t[20].0 == "repeat"@);
        } else if i == 21 {
            assert(t[21].0 == "reverb"@);
        } else if i == 22 {
            assert(t[22].0 == "round"@);
        } else if i == 23 {
            assert(t[23].0 == "sample"@);
        } else if i == 24 {
            assert(t[24].0 == "saw"@);
        } else if i == 25 {
            assert(t[25].0 == "sequence"@);
        } else if i == 26 {
            assert(t[26].0 == "sine"@);
        } else if i == 27 {
            assert(t[27].0 == "square"@);
        } else if i == 28 {
            assert(t[28].0 == "sweep"@);
        } else if i == 29 {
            assert(t[29].0 == "time"@);
        } else if i == 30 {
            assert(t[30].0 == "triangle"@);
        } else if i == 31 {
            assert(t[31].0 == "trigger"@);
        }
    }
}

/// A note name ends in the digit of its octave.
proof fn lemma_notes_end_in_digits(name: Seq<char>)
    requires
        is_note(name),
    ensures
        name.len() > 0,
        48 <= (name.last() as u32) <= 57,
{
    let j = choose|j: int| 0 <= j < note_count() && name == #[trigger] note_name(j);
    assert(octave_digits() =~= seq!['0', '1', '2', '3', '4', '5', '6', '7', '8', '9']);
    assert(name.last() == octave_digits()[j % 10]);
}

proof fn lemma_table_map_concat(a: Seq<(Seq<char>, TypeModel)>, b: Seq<(Seq<char>, TypeModel)>)
    ensures
        table_map(a + b) == table_map(a).union_prefer_right(table_map(b)),
    decreases b.len(),
{
    if b.len() == 0 {
        assert(a + b =~= a);
        assert(table_map(a).union_prefer_right(table_map(b)) =~= table_map(a));
    } else {
        lemma_table_map_concat(a, b.drop_last());
        assert((a + b).drop_last() =~= a + b.drop_last());
        assert((a + b).last() == b.last());
        assert(table_map(a + b) =~= table_map(a).union_prefer_right(table_map(b)));
    }
}

proof fn lemma_table_map_value(t: Seq<(Seq<char>, TypeModel)>, name: Seq<char>)
    ensures
        (exists|i: int| 0 <= i < t.len() && (#[trigger] t[i]).0 == name) ==> table_map(
            t,
        ).contains_key(name),
        table_map(t).contains_key(name) ==> exists|i: int|
            0 <= i < t.len() && (#[trigger] t[i]).0 == name && table_map(t)[name] == t[i].1,
    decreases t.len(),
{
    if t.len() > 0 {
        let p = t.drop_last();
        lemma_table_map_value(p, name);
        if exists|i: int| 0 <= i < t.len() && (#[trigger] t[i]).0 == name {
            let i = choose|i: int| 0 <= i < t.len() && (#[trigger] t[i]).0 == name;
            if i < p.len() {
                assert(p[i].0 == name);
            }
        }
        if table_map(t).contains_key(name) && t.last().0 != name {
            let i = choose|i: int|
                0 <= i < p.len() && (#[trigger] p[i]).0 == name && table_map(p)[name] == p[i].1;
            assert(t[i] == p[i]);
        }
        if t.last().0 == name {
            assert(t[t.len() - 1].0 == name);
        }
    }
}

/// Every function of the standard library is bound, among the names that a
/// program starts with, to a function type: the type of that name's entry
/// in the table of the standard library. (So calling one records a use and
/// is no type mismatch.)
pub proof fn lemma_library_functions_bound()
    ensures
        forall|i: int|
            0 <= i < builtin_function_table().len() ==> {
                let name = (#[trigger] builtin_function_table()[i]).0;
                &&& builtin_types().contains_key(name)
                &&& builtin_types()[name] is Function
                &&& builtin_types()[name] == table_map(builtin_function_table())[name]
            },
{
    let c = builtin_constant_table();
    let f = builtin_function_table();
    lemma_library_entries();
    lemma_table_map_concat(c, f);
    assert forall|i: int| 0 <= i < f.len() implies {
        let name = (#[trigger] f[i]).0;
        &&& builtin_types().contains_key(name)
        &&& builtin_types()[name] is Function
        &&& builtin_types()[name] == table_map(f)[name]
    } by {
        let name = f[i].0;
        lemma_table_map_value(f, name);
        assert(table_map(f).contains_key(name));
        let k = choose|k: int| 0 <= k < f.len() && (#[trigger] f[k]).0 == name && table_map(f)[name] == f[k].1;
        assert(library_entry(f[k]));
        assert(library_entry(f[i]));
        if is_note(name) {
            lemma_notes_end_in_digits(name);
        }
    }
}

/// The names that a program starts with, and where they live: each
/// constant, function of the standard library and note is bound in the
/// first scope (address 0), with its type.
pub fn initial_state() -> (state: (StringHashMap<NamedVarAddress>, AddressMap<OrganicType>))
    ensures
        address_views(state.0@) == first_scope_bindings(builtin_types()),
        type_models(state.1@) == in_first_scope(builtin_types()),
{
    let scope_addr = ScopeAddress { n: 0 };
    let mut vars: AddressMap<OrganicType> = AddressMap::new();
    let mut bindings: StringHashMap<NamedVarAddress> = StringHashMap::new();
    let mut table = constant_list();
    let mut functions = function_list();
    let ghost constants = table@;
    let ghost fs = functions@;
    table.append(&mut functions);
    assert(entry_models(table@) =~= builtin_constant_table() + builtin_function_table()) by {
        assert(table@ =~= constants + fs);
    }
    let ghost full = entry_models(table@);
    assert(type_models(vars@) =~= in_first_scope(table_map(full.take(0))));
    assert(address_views(bindings@) =~= first_scope_bindings(table_map(full.take(0))));
    let mut i: usize = 0;
    while i < table.len()
        invariant
            full == entry_models(table@),
            full == builtin_constant_table() + builtin_function_table(),
            i <= table@.len(),
            scope_addr.n == 0,
            type_models(vars@) == in_first_scope(table_map(full.take(i as int))),
            address_views(bindings@) == first_scope_bindings(table_map(full.take(i as int))),
        decreases table@.len() - i,
    {
        let entry = &table[i];
        let ghost before = table_map(full.take(i as int));
        let ghost old_vars = vars@;
        let ghost old_bindings = bindings@;
        let addr = NamedVarAddress { name: entry.0.clone(), scope_addr };
        let typ = clone_type(&entry.1);
        vars.insert(addr.clone(), typ);
        bindings.insert(entry.0.clone(), addr);
        proof {
            assert(full.take(i + 1).drop_last() =~= full.take(i as int));
            assert(full[i as int] == (entry.0@, entry.1@));
            assert(table_map(full.take(i + 1)) == before.insert(entry.0@, entry.1@));
            lemma_type_models_insert(old_vars, addr@, typ);
            lemma_first_scope_insert(before, entry.0@, entry.1@);
            lemma_bindings_insert(old_bindings, before, entry.0@, addr, entry.1@);
        }
        i = i + 1;
    }
    assert(full.take(i as int) =~= full);
    let ghost base = table_map(full);
    let ghost notes_so_far = |j: int|
        Map::new(|name: Seq<char>| is_note_before(name, j), |name: Seq<char>| TypeModel::Number);
    assert(base.union_prefer_right(notes_so_far(0)) =~= base);
    let mut j: usize = 0;
    while j < 210
        invariant
            j <= note_count(),
            scope_addr.n == 0,
            type_models(vars@) == in_first_scope(base.union_prefer_right(notes_so_far(j as int))),
            address_views(bindings@) == first_scope_bindings(
                base.union_prefer_right(notes_so_far(j as int)),
            ),
            notes_so_far == (|j: int|
                Map::new(|name: Seq<char>| is_note_before(name, j), |name: Seq<char>| TypeModel::Number)),
        decreases 210 - j,
    {
        let ghost before = base.union_prefer_right(notes_so_far(j as int));
        let ghost old_vars = vars@;
        let ghost old_bindings = bindings@;
        let name = note_string(j);
        let addr = NamedVarAddress { name: name.clone(), scope_addr };
        vars.insert(addr.clone(), OrganicType::Number);
        let ghost name_view = name@;
        bindings.insert(name, addr);
        proof {
            assert forall|n: Seq<char>| is_note_before(n, j + 1) <==> (is_note_before(n, j as int) || n == note_name(j as int)) by {
                lemma_note_before_step(n, j as int);
            }
            let m = base.union_prefer_right(notes_so_far(j + 1));
            assert(m =~= before.insert(name_view, TypeModel::Number));
            lemma_type_models_insert(old_vars, addr@, OrganicType::Number);
            lemma_first_scope_insert(before, name_view, TypeModel::Number);
            lemma_bindings_insert(old_bindings, before, name_view, addr, TypeModel::Number);
        }
        j = j + 1;
    }
    assert(base.union_prefer_right(notes_so_far(note_count())) =~= builtin_types());
    (bindings, vars)
}

} // verus!

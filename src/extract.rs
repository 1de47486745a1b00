//! Assembly of a handler's arguments from a request payload.

use vstd::prelude::*;
use crate::value::{
    Value, ValueKind, ValueModel, kind_of, kind_name, lookup, lookup_model, entries_model,
};
use crate::convert::{
    Arg, ArgModel, ConversionError, TypeTag, convert, convert_model, conversion_message, arg_tag,
};
use vstd::string::StringExecFns;

verus! {

/// A declared parameter of a handler: its name and its semantic type.
#[derive(Clone, Debug, PartialEq)]
pub struct ParameterSpec {
    pub name: String,
    pub tag: TypeTag,
}

/// Why the arguments of a handler could not be assembled from a payload.
#[derive(Debug, PartialEq)]
pub enum ExtractionError {
    /// A map payload has no entry for the named parameter.
    MissingParameter(String),
    /// The value for the named parameter has a variant that its type does not accept.
    TypeMismatch { name: String, expected: TypeTag, actual: ValueKind },
    /// The value for the named parameter overflows its type or cannot be deserialized.
    Conversion { name: String, error: ConversionError },
    /// A handler with several parameters received a payload that is not a map.
    NotAMap { actual: ValueKind },
}

/// How an extraction failure reads in a message.
pub open spec fn extraction_message(e: ExtractionError) -> Seq<char> {
    match e {
        ExtractionError::MissingParameter(name) => "missing parameter: "@ + name@,
        ExtractionError::TypeMismatch { name, expected, actual } => "parameter "@ + name@ + ": "@
            + conversion_message(ConversionError::TypeMismatch { expected, actual }),
        ExtractionError::Conversion { name, error } => "parameter "@ + name@ + ": "@
            + conversion_message(error),
        ExtractionError::NotAMap { actual } => "expected a map of named parameters, found "@
            + kind_name(actual),
    }
}

impl ExtractionError {
    pub fn message(&self) -> (r: String)
        ensures
            r@ == extraction_message(*self),
    {
        match self {
            ExtractionError::MissingParameter(name) => {
                let mut m = String::from_str("missing parameter: ");
                m.append(name.as_str());
                m
            },
            ExtractionError::TypeMismatch { name, expected, actual } => {
                let detail = ConversionError::TypeMismatch { expected: *expected, actual: *actual };
                let mut m = String::from_str("parameter ");
                m.append(name.as_str());
                m.append(": ");
                m.append(detail.message().as_str());
                m
            },
            ExtractionError::Conversion { name, error } => {
                let mut m = String::from_str("parameter ");
                m.append(name.as_str());
                m.append(": ");
                m.append(error.message().as_str());
                m
            },
            ExtractionError::NotAMap { actual } => {
                let mut m = String::from_str("expected a map of named parameters, found ");
                m.append(actual.name());
                m
            },
        }
    }
}

pub open spec fn named_error(name: String, e: ConversionError) -> ExtractionError {
    match e {
        ConversionError::TypeMismatch { expected, actual } => ExtractionError::TypeMismatch {
            name,
            expected,
            actual,
        },
        _ => ExtractionError::Conversion { name, error: e },
    }
}

pub open spec fn convert_named(p: ParameterSpec, v: ValueModel) -> Result<ArgModel, ExtractionError> {
    match convert_model(v, p.tag) {
        Ok(a) => Ok(a),
        Err(e) => Err(named_error(p.name, e)),
    }
}

/// The argument for `p`, looked up by name among a map's entries.
pub open spec fn extract_entry(p: ParameterSpec, entries: Seq<(Seq<char>, ValueModel)>) -> Result<
    ArgModel,
    ExtractionError,
> {
    match lookup_model(entries, p.name@) {
        None => Err(ExtractionError::MissingParameter(p.name)),
        Some(v) => convert_named(p, v),
    }
}

/// The argument of a handler with one parameter: the whole payload converted, or else,
/// for a map payload, the entry under the parameter's name.
pub open spec fn extract_single(p: ParameterSpec, payload: ValueModel) -> Result<ArgModel, ExtractionError> {
    match convert_model(payload, p.tag) {
        Ok(a) => Ok(a),
        Err(e) => match payload {
            ValueModel::Dict(entries) => extract_entry(p, entries),
            _ => Err(named_error(p.name, e)),
        },
    }
}

/// The arguments for `params`, each looked up by name; the first failure wins.
pub open spec fn extract_named(params: Seq<ParameterSpec>, entries: Seq<(Seq<char>, ValueModel)>) -> Result<
    Seq<ArgModel>,
    ExtractionError,
>
    decreases params.len(),
{
    if params.len() == 0 {
        Ok(Seq::empty())
    } else {
        match extract_named(params.drop_last(), entries) {
            Err(e) => Err(e),
            Ok(prev) => match extract_entry(params.last(), entries) {
                Err(e) => Err(e),
                Ok(a) => Ok(prev.push(a)),
            },
        }
    }
}

/// The arguments that a handler declaring `params` receives from `payload`.
pub open spec fn extract_model(params: Seq<ParameterSpec>, payload: ValueModel) -> Result<
    Seq<ArgModel>,
    ExtractionError,
> {
    if params.len() == 0 {
        Ok(Seq::empty())
    } else if params.len() == 1 {
        match extract_single(params[0], payload) {
            Ok(a) => Ok(seq![a]),
            Err(e) => Err(e),
        }
    } else {
        match payload {
            ValueModel::Dict(entries) => extract_named(params, entries),
            _ => Err(ExtractionError::NotAMap { actual: kind_of(payload) }),
        }
    }
}

pub open spec fn args_model(args: Seq<Arg>) -> Seq<ArgModel> {
    args.map_values(|a: Arg| a@)
}

pub open spec fn extract_result_model(r: Result<Vec<Arg>, ExtractionError>) -> Result<
    Seq<ArgModel>,
    ExtractionError,
> {
    match r {
        Ok(args) => Ok(args_model(args@)),
        Err(e) => Err(e),
    }
}

proof fn lemma_named_error_persists(
    params: Seq<ParameterSpec>,
    entries: Seq<(Seq<char>, ValueModel)>,
    k: int,
    n: int,
)
    requires
        0 <= k <= n <= params.len(),
        extract_named(params.take(k), entries) is Err,
    ensures
        extract_named(params.take(n), entries) == extract_named(params.take(k), entries),
    decreases n - k,
{
    if n > k {
        lemma_named_error_persists(params, entries, k, n - 1);
        assert(params.take(n).drop_last() =~= params.take(n - 1));
    }
}

fn name_error(name: String, e: ConversionError) -> (r: ExtractionError)
    ensures
        r == named_error(name, e),
{
    match e {
        ConversionError::TypeMismatch { expected, actual } => ExtractionError::TypeMismatch {
            name,
            expected,
            actual,
        },
        _ => ExtractionError::Conversion { name, error: e },
    }
}

fn extract_from_entries(p: &ParameterSpec, entries: &Vec<(String, Value)>) -> (r: Result<Arg, ExtractionError>)
    ensures
        match r {
            Ok(a) => extract_entry(*p, entries_model(entries@)) == Ok::<ArgModel, ExtractionError>(a@),
            Err(e) => extract_entry(*p, entries_model(entries@)) == Err::<ArgModel, ExtractionError>(e),
        },
{
    match lookup(entries, &p.name) {
        None => Err(ExtractionError::MissingParameter(p.name.clone())),
        Some(v) => match convert(v, p.tag) {
            Ok(a) => Ok(a),
            Err(e) => Err(name_error(p.name.clone(), e)),
        },
    }
}

/// The argument for a single declared parameter: the whole payload converted to its type,
/// or else, for a map payload, the entry under its name.
pub fn extract_parameter(params: &Value, p: &ParameterSpec) -> (r: Result<Arg, ExtractionError>)
    ensures
        match r {
            Ok(a) => extract_single(*p, params@) == Ok::<ArgModel, ExtractionError>(a@),
            Err(e) => extract_single(*p, params@) == Err::<ArgModel, ExtractionError>(e),
        },
{
    match convert(params, p.tag) {
        Ok(a) => Ok(a),
        Err(e) => match params {
            Value::Dict(entries) => extract_from_entries(p, entries),
            _ => Err(name_error(p.name.clone(), e)),
        },
    }
}

/// Assembles the arguments of a handler that declares `params` from a request payload.
///
/// With no parameters the payload is ignored. With one, the whole payload is converted, and
/// a map payload that does not convert supplies the entry under the parameter's name. With
/// several, the payload must be a map and each parameter is looked up by name.
pub fn extract(params: &Vec<ParameterSpec>, payload: &Value) -> (r: Result<Vec<Arg>, ExtractionError>)
    ensures
        extract_result_model(r) == extract_model(params@, payload@),
{
    if params.len() == 0 {
        proof {
            assert(args_model(Seq::<Arg>::empty()) =~= Seq::<ArgModel>::empty());
        }
        return Ok(Vec::new());
    }
    if params.len() == 1 {
        return match extract_parameter(payload, &params[0]) {
            Ok(a) => {
                let mut out: Vec<Arg> = Vec::new();
                out.push(a);
                proof {
                    assert(args_model(out@) =~= seq![out@[0]@]);
                }
                Ok(out)
            },
            Err(e) => Err(e),
        };
    }
    match payload {
        Value::Dict(entries) => {
            let ghost em = entries_model(entries@);
            let mut out: Vec<Arg> = Vec::new();
            let mut i: usize = 0;
            proof {
                assert(params@.take(0) =~= Seq::<ParameterSpec>::empty());
                assert(args_model(out@) =~= Seq::<ArgModel>::empty());
            }
            while i < params.len()
                invariant
                    i <= params.len(),
                    em == entries_model(entries@),
                    payload@ == ValueModel::Dict(em),
                    params.len() > 1,
                    extract_named(params@.take(i as int), em) == Ok::<Seq<ArgModel>, ExtractionError>(
                        args_model(out@),
                    ),
                decreases params.len() - i,
            {
                let p = &params[i];
                proof {
                    assert(params@.take(i as int + 1).drop_last() =~= params@.take(i as int));
                    assert(params@.take(i as int + 1).last() == params@[i as int]);
                }
                match extract_from_entries(p, entries) {
                    Ok(a) => {
                        proof {
                            assert(args_model(out@.push(a)) =~= args_model(out@).push(a@));
                        }
                        out.push(a);
                    },
                    Err(e) => {
                        proof {
                            let t = params@.take(i as int + 1);
                            assert(extract_entry(t.last(), em) == Err::<ArgModel, ExtractionError>(e));
                            assert(extract_named(t, em) == Err::<Seq<ArgModel>, ExtractionError>(e));
                            lemma_named_error_persists(params@, em, i as int + 1, params.len() as int);
                            assert(params@.take(params.len() as int) =~= params@);
                        }
                        return Err(e);
                    },
                }
                i = i + 1;
            }
            proof {
                assert(params@.take(params.len() as int) =~= params@);
            }
            Ok(out)
        },
        _ => Err(ExtractionError::NotAMap { actual: payload.kind() }),
    }
}

/// A handler without parameters accepts every payload, a null or an empty map among them,
/// and receives no arguments.
pub proof fn lemma_no_parameters(params: Seq<ParameterSpec>, payload: ValueModel)
    requires
        params.len() == 0,
    ensures
        extract_model(params, payload) == Ok::<Seq<ArgModel>, ExtractionError>(Seq::empty()),
{
}

/// A handler with one `Float64` parameter receives the same argument from a bare float and
/// from a map that holds the float under the parameter's name.
pub proof fn lemma_single_parameter_shape_agnostic(p: ParameterSpec, bits: u64)
    requires
        p.tag == TypeTag::Float64,
    ensures
        extract_model(seq![p], ValueModel::Float(bits)) == Ok::<Seq<ArgModel>, ExtractionError>(
            seq![ArgModel::Float64(crate::convert::Number::Float(bits))],
        ),
        extract_model(seq![p], ValueModel::Dict(seq![(p.name@, ValueModel::Float(bits))]))
            == extract_model(seq![p], ValueModel::Float(bits)),
{
    let entries = seq![(p.name@, ValueModel::Float(bits))];
    assert(lookup_model(entries, p.name@) == Some(ValueModel::Float(bits)));
}

/// A handler with several parameters fails on every payload that is not a map.
pub proof fn lemma_several_parameters_need_a_map(params: Seq<ParameterSpec>, payload: ValueModel)
    requires
        params.len() >= 2,
        !(payload is Dict),
    ensures
        extract_model(params, payload) == Err::<Seq<ArgModel>, ExtractionError>(
            ExtractionError::NotAMap { actual: kind_of(payload) },
        ),
{
}

proof fn lemma_named_prefix_ok(params: Seq<ParameterSpec>, entries: Seq<(Seq<char>, ValueModel)>, k: int)
    requires
        0 <= k <= params.len(),
        forall|j: int| 0 <= j < k ==> #[trigger] extract_entry(params[j], entries) is Ok,
    ensures
        extract_named(params.take(k), entries) is Ok,
    decreases k,
{
    if k > 0 {
        assert(params.take(k).drop_last() =~= params.take(k - 1));
        lemma_named_prefix_ok(params, entries, k - 1);
        assert(extract_entry(params[k - 1], entries) is Ok);
    }
}

/// When a map payload lacks the key of a parameter and every parameter before it is
/// extracted, extraction fails with `MissingParameter` naming exactly that parameter.
pub proof fn lemma_missing_parameter(
    params: Seq<ParameterSpec>,
    entries: Seq<(Seq<char>, ValueModel)>,
    k: int,
)
    requires
        params.len() >= 2 || (params.len() == 1 && !(params[0].tag is Struct)),
        0 <= k < params.len(),
        forall|j: int| 0 <= j < k ==> #[trigger] extract_entry(params[j], entries) is Ok,
        lookup_model(entries, params[k].name@) is None,
    ensures
        extract_model(params, ValueModel::Dict(entries)) == Err::<Seq<ArgModel>, ExtractionError>(
            ExtractionError::MissingParameter(params[k].name),
        ),
{
    if params.len() >= 2 {
        lemma_named_prefix_ok(params, entries, k);
        assert(params.take(k + 1).drop_last() =~= params.take(k));
        assert(params.take(k + 1).last() == params[k]);
        lemma_named_error_persists(params, entries, k + 1, params.len() as int);
        assert(params.take(params.len() as int) =~= params);
    }
}

/// The entry under `key` of a map payload, converted to the type of `default`; `default`
/// itself when the payload is not a map, has no such entry, or the entry does not convert.
pub open spec fn value_or_spec(payload: ValueModel, key: Seq<char>, default: ArgModel) -> ArgModel {
    match payload {
        ValueModel::Dict(entries) => match lookup_model(entries, key) {
            Some(v) => match convert_model(v, arg_tag(default)) {
                Ok(a) => a,
                Err(_) => default,
            },
            None => default,
        },
        _ => default,
    }
}

/// Reads the entry under `key` as a value of the type of `default`, falling back to `default`.
pub fn value_or(payload: &Value, key: &String, default: Arg) -> (r: Arg)
    ensures
        r@ == value_or_spec(payload@, key@, default@),
{
    match payload {
        Value::Dict(entries) => match lookup(entries, key) {
            Some(v) => match convert(v, default.tag()) {
                Ok(a) => a,
                Err(_) => default,
            },
            None => default,
        },
        _ => default,
    }
}

} // verus!

//! Conversion of payload values to the declared types of parameters.

use vstd::prelude::*;
use crate::value::{Value, ValueKind, ValueModel, kind_of, kind_name};
use vstd::string::StringExecFns;

verus! {

/// The semantic type of a declared parameter or return value.
#[derive(Clone, Copy, Debug, PartialEq, Eq, Structural)]
pub enum TypeTag {
    Int32,
    Int64,
    Float64,
    Bool,
    Str,
    /// A structured type, by the identifier under which its deserializer is registered.
    Struct(u64),
}

/// A number accepted where a `Float64` is declared: a float as its IEEE-754 bits,
/// or an integer that the receiving method widens to a float.
#[derive(Clone, Copy, Debug, PartialEq, Eq, Structural)]
pub enum Number {
    Float(u64),
    Int(i64),
}

/// A typed argument, extracted from a payload for one declared parameter.
#[derive(Debug, PartialEq)]
pub enum Arg {
    Int32(i32),
    Int64(i64),
    Float64(Number),
    Bool(bool),
    Str(String),
    /// The nested value that the deserializer registered for the type identifier receives.
    Struct(u64, Value),
}

pub ghost enum ArgModel {
    Int32(i32),
    Int64(i64),
    Float64(Number),
    Bool(bool),
    Str(Seq<char>),
    Struct(u64, ValueModel),
}

impl View for Arg {
    type V = ArgModel;

    open spec fn view(&self) -> ArgModel {
        match *self {
            Arg::Int32(n) => ArgModel::Int32(n),
            Arg::Int64(n) => ArgModel::Int64(n),
            Arg::Float64(x) => ArgModel::Float64(x),
            Arg::Bool(b) => ArgModel::Bool(b),
            Arg::Str(s) => ArgModel::Str(s@),
            Arg::Struct(t, v) => ArgModel::Struct(t, v@),
        }
    }
}

/// Why a value could not be converted to a declared type.
#[derive(Clone, Copy, Debug, PartialEq, Eq, Structural)]
pub enum ConversionError {
    /// The value has a variant that the type does not accept.
    TypeMismatch { expected: TypeTag, actual: ValueKind },
    /// An integer that does not fit the declared integer type.
    Overflow { expected: TypeTag },
    /// A value that cannot be handed to the deserializer of the structured type.
    Deserialize { type_id: u64, found: ValueKind },
}

pub open spec fn tag_name(t: TypeTag) -> Seq<char> {
    match t {
        TypeTag::Int32 => "Int32"@,
        TypeTag::Int64 => "Int64"@,
        TypeTag::Float64 => "Float64"@,
        TypeTag::Bool => "Bool"@,
        TypeTag::Str => "String"@,
        TypeTag::Struct(_) => "Struct"@,
    }
}

impl TypeTag {
    /// The name of the type in messages.
    pub fn name(&self) -> (r: &'static str)
        ensures
            r@ == tag_name(*self),
    {
        match self {
            TypeTag::Int32 => "Int32",
            TypeTag::Int64 => "Int64",
            TypeTag::Float64 => "Float64",
            TypeTag::Bool => "Bool",
            TypeTag::Str => "String",
            TypeTag::Struct(_) => "Struct",
        }
    }
}

/// How a conversion failure reads in a message.
pub open spec fn conversion_message(e: ConversionError) -> Seq<char> {
    match e {
        ConversionError::TypeMismatch { expected, actual } => "expected "@ + tag_name(expected)
            + ", found "@ + kind_name(actual),
        ConversionError::Overflow { expected } => "value out of range for "@ + tag_name(expected),
        ConversionError::Deserialize { found, .. } => "cannot deserialize a structured value from "@
            + kind_name(found),
    }
}

impl ConversionError {
    pub fn message(&self) -> (r: String)
        ensures
            r@ == conversion_message(*self),
    {
        match self {
            ConversionError::TypeMismatch { expected, actual } => {
                let mut m = String::from_str("expected ");
                m.append(expected.name());
                m.append(", found ");
                m.append(actual.name());
                m
            },
            ConversionError::Overflow { expected } => {
                let mut m = String::from_str("value out of range for ");
                m.append(expected.name());
                m
            },
            ConversionError::Deserialize { found, .. } => {
                let mut m = String::from_str("cannot deserialize a structured value from ");
                m.append(found.name());
                m
            },
        }
    }
}

pub open spec fn mismatch(tag: TypeTag, v: ValueModel) -> ConversionError {
    ConversionError::TypeMismatch { expected: tag, actual: kind_of(v) }
}

/// The conversion rules from a value to a declared type.
pub open spec fn convert_model(v: ValueModel, tag: TypeTag) -> Result<ArgModel, ConversionError> {
    match tag {
        TypeTag::Int32 => match v {
            ValueModel::Int(n) => if i32::MIN <= n <= i32::MAX {
                Ok(ArgModel::Int32(n as i32))
            } else {
                Err(ConversionError::Overflow { expected: tag })
            },
            _ => Err(mismatch(tag, v)),
        },
        TypeTag::Int64 => match v {
            ValueModel::Int(n) => Ok(ArgModel::Int64(n)),
            _ => Err(mismatch(tag, v)),
        },
        TypeTag::Float64 => match v {
            ValueModel::Float(b) => Ok(ArgModel::Float64(Number::Float(b))),
            ValueModel::Int(n) => Ok(ArgModel::Float64(Number::Int(n))),
            _ => Err(mismatch(tag, v)),
        },
        TypeTag::Bool => match v {
            ValueModel::Bool(b) => Ok(ArgModel::Bool(b)),
            _ => Err(mismatch(tag, v)),
        },
        TypeTag::Str => match v {
            ValueModel::Str(s) => Ok(ArgModel::Str(s)),
            _ => Err(mismatch(tag, v)),
        },
        TypeTag::Struct(t) => match v {
            ValueModel::Struct(u, _) => if u == t {
                Ok(ArgModel::Struct(t, v))
            } else {
                Err(ConversionError::Deserialize { type_id: t, found: kind_of(v) })
            },
            ValueModel::Dict(_) => Ok(ArgModel::Struct(t, v)),
            _ => Err(ConversionError::Deserialize { type_id: t, found: kind_of(v) }),
        },
    }
}

/// The value that carries an argument back into a payload.
pub open spec fn encode_model(a: ArgModel) -> ValueModel {
    match a {
        ArgModel::Int32(n) => ValueModel::Int(n as i64),
        ArgModel::Int64(n) => ValueModel::Int(n),
        ArgModel::Float64(Number::Float(b)) => ValueModel::Float(b),
        ArgModel::Float64(Number::Int(n)) => ValueModel::Int(n),
        ArgModel::Bool(b) => ValueModel::Bool(b),
        ArgModel::Str(s) => ValueModel::Str(s),
        ArgModel::Struct(_, v) => v,
    }
}

pub open spec fn convert_result_model(r: Result<Arg, ConversionError>) -> Result<ArgModel, ConversionError> {
    match r {
        Ok(a) => Ok(a@),
        Err(e) => Err(e),
    }
}

/// Converts a value to the declared type.
pub fn convert(v: &Value, tag: TypeTag) -> (r: Result<Arg, ConversionError>)
    ensures
        convert_result_model(r) == convert_model(v@, tag),
{
    match tag {
        TypeTag::Int32 => match v {
            Value::Int(n) => if i32::MIN as i64 <= *n && *n <= i32::MAX as i64 {
                Ok(Arg::Int32(*n as i32))
            } else {
                Err(ConversionError::Overflow { expected: tag })
            },
            _ => Err(ConversionError::TypeMismatch { expected: tag, actual: v.kind() }),
        },
        TypeTag::Int64 => match v {
            Value::Int(n) => Ok(Arg::Int64(*n)),
            _ => Err(ConversionError::TypeMismatch { expected: tag, actual: v.kind() }),
        },
        TypeTag::Float64 => match v {
            Value::Float(b) => Ok(Arg::Float64(Number::Float(*b))),
            Value::Int(n) => Ok(Arg::Float64(Number::Int(*n))),
            _ => Err(ConversionError::TypeMismatch { expected: tag, actual: v.kind() }),
        },
        TypeTag::Bool => match v {
            Value::Bool(b) => Ok(Arg::Bool(*b)),
            _ => Err(ConversionError::TypeMismatch { expected: tag, actual: v.kind() }),
        },
        TypeTag::Str => match v {
            Value::Str(s) => Ok(Arg::Str(s.clone())),
            _ => Err(ConversionError::TypeMismatch { expected: tag, actual: v.kind() }),
        },
        TypeTag::Struct(t) => match v {
            Value::Struct(u, _) => if *u == t {
                Ok(Arg::Struct(t, v.duplicate()))
            } else {
                Err(ConversionError::Deserialize { type_id: t, found: v.kind() })
            },
            Value::Dict(_) => Ok(Arg::Struct(t, v.duplicate())),
            _ => Err(ConversionError::Deserialize { type_id: t, found: v.kind() }),
        },
    }
}

/// The declared type that an argument belongs to.
pub open spec fn arg_tag(a: ArgModel) -> TypeTag {
    match a {
        ArgModel::Int32(_) => TypeTag::Int32,
        ArgModel::Int64(_) => TypeTag::Int64,
        ArgModel::Float64(_) => TypeTag::Float64,
        ArgModel::Bool(_) => TypeTag::Bool,
        ArgModel::Str(_) => TypeTag::Str,
        ArgModel::Struct(t, _) => TypeTag::Struct(t),
    }
}

impl Arg {
    pub fn tag(&self) -> (r: TypeTag)
        ensures
            r == arg_tag(self@),
    {
        match self {
            Arg::Int32(_) => TypeTag::Int32,
            Arg::Int64(_) => TypeTag::Int64,
            Arg::Float64(_) => TypeTag::Float64,
            Arg::Bool(_) => TypeTag::Bool,
            Arg::Str(_) => TypeTag::Str,
            Arg::Struct(t, _) => TypeTag::Struct(*t),
        }
    }

    /// The value that carries this argument (or a return value of the same type) in a payload.
    pub fn into_value(self) -> (r: Value)
        ensures
            r@ == encode_model(self@),
    {
        match self {
            Arg::Int32(n) => Value::Int(n as i64),
            Arg::Int64(n) => Value::Int(n),
            Arg::Float64(Number::Float(b)) => Value::Float(b),
            Arg::Float64(Number::Int(n)) => Value::Int(n),
            Arg::Bool(b) => Value::Bool(b),
            Arg::Str(s) => Value::Str(s),
            Arg::Struct(_, v) => v,
        }
    }
}

/// Converting a value and encoding the result gives a value that converts to the same
/// argument: every argument that conversion produces survives a trip through a payload.
pub proof fn lemma_convert_round_trip(v: ValueModel, tag: TypeTag)
    requires
        convert_model(v, tag) is Ok,
    ensures
        convert_model(encode_model(convert_model(v, tag)->Ok_0), tag) == convert_model(v, tag),
{
}

} // verus!

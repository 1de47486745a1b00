//! The payload value model: what requests, responses and events carry.

use vstd::prelude::*;

verus! {

/// A payload value: the universal container for requests, responses and events.
#[derive(Debug, PartialEq)]
pub enum Value {
    Null,
    Bool(bool),
    Int(i64),
    /// A float, held as its IEEE-754 bit pattern.
    Float(u64),
    Str(String),
    Bytes(Vec<u8>),
    List(Vec<Value>),
    /// Named entries; a well-formed map has unique keys.
    Dict(Vec<(String, Value)>),
    /// An opaque structured payload with the tag of its type.
    Struct(u64, Vec<u8>),
}

/// The mathematical model of a `Value`.
pub ghost enum ValueModel {
    Null,
    Bool(bool),
    Int(i64),
    Float(u64),
    Str(Seq<char>),
    Bytes(Seq<u8>),
    List(Seq<ValueModel>),
    Dict(Seq<(Seq<char>, ValueModel)>),
    Struct(u64, Seq<u8>),
}

/// The variant of a value, as reported in error messages.
#[derive(Clone, Copy, Debug, PartialEq, Eq, Structural)]
pub enum ValueKind {
    Null,
    Bool,
    Int,
    Float,
    Str,
    Bytes,
    List,
    Dict,
    Struct,
}

pub open spec fn kind_name(k: ValueKind) -> Seq<char> {
    match k {
        ValueKind::Null => "null"@,
        ValueKind::Bool => "bool"@,
        ValueKind::Int => "int"@,
        ValueKind::Float => "float"@,
        ValueKind::Str => "string"@,
        ValueKind::Bytes => "bytes"@,
        ValueKind::List => "list"@,
        ValueKind::Dict => "map"@,
        ValueKind::Struct => "struct"@,
    }
}

impl ValueKind {
    /// The name of the variant in messages.
    pub fn name(&self) -> (r: &'static str)
        ensures
            r@ == kind_name(*self),
    {
        match self {
            ValueKind::Null => "null",
            ValueKind::Bool => "bool",
            ValueKind::Int => "int",
            ValueKind::Float => "float",
            ValueKind::Str => "string",
            ValueKind::Bytes => "bytes",
            ValueKind::List => "list",
            ValueKind::Dict => "map",
            ValueKind::Struct => "struct",
        }
    }
}

pub open spec fn list_model(items: Seq<Value>) -> Seq<ValueModel>
    decreases items,
{
    if items.len() == 0 {
        Seq::empty()
    } else {
        list_model(items.drop_last()).push(value_model(items.last()))
    }
}

pub open spec fn entries_model(items: Seq<(String, Value)>) -> Seq<(Seq<char>, ValueModel)>
    decreases items,
{
    if items.len() == 0 {
        Seq::empty()
    } else {
        entries_model(items.drop_last()).push((items.last().0@, value_model(items.last().1)))
    }
}

pub open spec fn value_model(v: Value) -> ValueModel
    decreases v,
{
    match v {
        Value::Null => ValueModel::Null,
        Value::Bool(b) => ValueModel::Bool(b),
        Value::Int(n) => ValueModel::Int(n),
        Value::Float(b) => ValueModel::Float(b),
        Value::Str(s) => ValueModel::Str(s@),
        Value::Bytes(b) => ValueModel::Bytes(b@),
        Value::List(items) => ValueModel::List(list_model(items@)),
        Value::Dict(items) => ValueModel::Dict(entries_model(items@)),
        Value::Struct(t, p) => ValueModel::Struct(t, p@),
    }
}

impl View for Value {
    type V = ValueModel;

    open spec fn view(&self) -> ValueModel {
        value_model(*self)
    }
}

pub open spec fn kind_of(v: ValueModel) -> ValueKind {
    match v {
        ValueModel::Null => ValueKind::Null,
        ValueModel::Bool(_) => ValueKind::Bool,
        ValueModel::Int(_) => ValueKind::Int,
        ValueModel::Float(_) => ValueKind::Float,
        ValueModel::Str(_) => ValueKind::Str,
        ValueModel::Bytes(_) => ValueKind::Bytes,
        ValueModel::List(_) => ValueKind::List,
        ValueModel::Dict(_) => ValueKind::Dict,
        ValueModel::Struct(_, _) => ValueKind::Struct,
    }
}

/// The value of the first entry whose key is `key`.
pub open spec fn lookup_model(entries: Seq<(Seq<char>, ValueModel)>, key: Seq<char>) -> Option<ValueModel>
    decreases entries.len(),
{
    if entries.len() == 0 {
        None
    } else if entries[0].0 == key {
        Some(entries[0].1)
    } else {
        lookup_model(entries.drop_first(), key)
    }
}

pub proof fn lemma_entries_model(items: Seq<(String, Value)>)
    ensures
        entries_model(items).len() == items.len(),
        forall|i: int| 0 <= i < items.len() ==> #[trigger] entries_model(items)[i] == (items[i].0@, value_model(items[i].1)),
    decreases items.len(),
{
    if items.len() > 0 {
        lemma_entries_model(items.drop_last());
    }
}

impl Value {
    pub fn kind(&self) -> (r: ValueKind)
        ensures
            r == kind_of(self@),
    {
        match self {
            Value::Null => ValueKind::Null,
            Value::Bool(_) => ValueKind::Bool,
            Value::Int(_) => ValueKind::Int,
            Value::Float(_) => ValueKind::Float,
            Value::Str(_) => ValueKind::Str,
            Value::Bytes(_) => ValueKind::Bytes,
            Value::List(_) => ValueKind::List,
            Value::Dict(_) => ValueKind::Dict,
            Value::Struct(_, _) => ValueKind::Struct,
        }
    }

    /// A deep copy of the value.
    pub fn duplicate(&self) -> (r: Value)
        ensures
            r@ == self@,
        decreases self,
    {
        match self {
            Value::Null => Value::Null,
            Value::Bool(b) => Value::Bool(*b),
            Value::Int(n) => Value::Int(*n),
            Value::Float(b) => Value::Float(*b),
            Value::Str(s) => Value::Str(s.clone()),
            Value::Bytes(b) => Value::Bytes(b.clone()),
            Value::List(items) => {
                let mut out: Vec<Value> = Vec::new();
                let mut i: usize = 0;
                while i < items.len()
                    invariant
                        i <= items.len(),
                        list_model(out@) == list_model(items@.take(i as int)),
                        decreases_to!(*self => *items),
                    decreases items.len() - i,
                {
                    proof {
                        vstd::std_specs::vec::axiom_vec_index_decreases(*items, i as int);
                        assert(decreases_to!(*items => items[i as int]));
                    }
                    let c = items[i].duplicate();
                    proof {
                        assert(items@.take(i as int + 1).drop_last() =~= items@.take(i as int));
                        assert(out@.push(c).drop_last() =~= out@);
                    }
                    out.push(c);
                    i = i + 1;
                }
                assert(items@.take(items.len() as int) =~= items@);
                Value::List(out)
            },
            Value::Dict(items) => {
                let mut out: Vec<(String, Value)> = Vec::new();
                let mut i: usize = 0;
                while i < items.len()
                    invariant
                        i <= items.len(),
                        entries_model(out@) == entries_model(items@.take(i as int)),
                        decreases_to!(*self => *items),
                    decreases items.len() - i,
                {
                    let k = items[i].0.clone();
                    proof {
                        vstd::std_specs::vec::axiom_vec_index_decreases(*items, i as int);
                        assert(decreases_to!(*items => items[i as int]));
                    }
                    let c = items[i].1.duplicate();
                    proof {
                        assert(items@.take(i as int + 1).drop_last() =~= items@.take(i as int));
                        assert(out@.push((k, c)).drop_last() =~= out@);
                    }
                    out.push((k, c));
                    i = i + 1;
                }
                assert(items@.take(items.len() as int) =~= items@);
                Value::Dict(out)
            },
            Value::Struct(t, p) => Value::Struct(*t, p.clone()),
        }
    }
}

/// Finds the value stored under `key` in a map's entries (the first such entry).
pub fn lookup<'a>(entries: &'a Vec<(String, Value)>, key: &String) -> (r: Option<&'a Value>)
    ensures
        match r {
            Some(v) => lookup_model(entries_model(entries@), key@) == Some(v@),
            None => lookup_model(entries_model(entries@), key@) is None,
        },
{
    let ghost m = entries_model(entries@);
    proof {
        lemma_entries_model(entries@);
        assert(m.subrange(0, m.len() as int) =~= m);
    }
    let mut i: usize = 0;
    while i < entries.len()
        invariant
            i <= entries.len(),
            m == entries_model(entries@),
            m.len() == entries.len(),
            forall|j: int| 0 <= j < entries.len() ==> #[trigger] m[j] == (entries@[j].0@, value_model(entries@[j].1)),
            lookup_model(m, key@) == lookup_model(m.subrange(i as int, m.len() as int), key@),
        decreases entries.len() - i,
    {
        let ghost rest = m.subrange(i as int, m.len() as int);
        if entries[i].0 == *key {
            return Some(&entries[i].1);
        }
        proof {
            assert(rest.drop_first() =~= m.subrange(i as int + 1, m.len() as int));
        }
        i = i + 1;
    }
    None
}

} // verus!

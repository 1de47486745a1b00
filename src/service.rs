//! Service metadata and the names of types that a service registers.

use vstd::prelude::*;
use vstd::string::{StrSliceExecFns, StringExecFns};
use crate::text::{
    starts_with, replace_spec, trim_spec, split_spec, find_spec, lower_of, pieces_model,
    str_eq, has_prefix, replace_all, trim, split_on, find_char, to_lowercase,
    lemma_find_in_range,
};

verus! {

/// The type names that need no registration with a serializer.
pub open spec fn primitive_spec(t: Seq<char>) -> bool {
    ||| t == "i8"@
    ||| t == "i16"@
    ||| t == "i32"@
    ||| t == "i64"@
    ||| t == "i128"@
    ||| t == "isize"@
    ||| t == "u8"@
    ||| t == "u16"@
    ||| t == "u32"@
    ||| t == "u64"@
    ||| t == "u128"@
    ||| t == "usize"@
    ||| t == "f32"@
    ||| t == "f64"@
    ||| t == "bool"@
    ||| t == "char"@
    ||| t == "()"@
    ||| t == "String"@
}

/// Whether a type name is a primitive that needs no registration.
pub fn is_primitive_type(type_str: &str) -> (r: bool)
    ensures
        r == primitive_spec(type_str@),
{
    str_eq(type_str, "i8") || str_eq(type_str, "i16") || str_eq(type_str, "i32") || str_eq(
        type_str,
        "i64",
    ) || str_eq(type_str, "i128") || str_eq(type_str, "isize") || str_eq(type_str, "u8")
        || str_eq(type_str, "u16") || str_eq(type_str, "u32") || str_eq(type_str, "u64")
        || str_eq(type_str, "u128") || str_eq(type_str, "usize") || str_eq(type_str, "f32")
        || str_eq(type_str, "f64") || str_eq(type_str, "bool") || str_eq(type_str, "char")
        || str_eq(type_str, "()") || str_eq(type_str, "String")
}

/// A rendered type with the spaces that token printing adds around `<`, `>` and `,` removed.
pub open spec fn tidy_spec(s: Seq<char>) -> Seq<char> {
    replace_spec(replace_spec(replace_spec(s, " >"@, ">"@), "< "@, "<"@), " , "@, ", "@)
}

/// A type name without a leading reference.
pub open spec fn strip_ref_spec(s: Seq<char>) -> Seq<char> {
    if starts_with(s, "& "@) {
        s.skip(2)
    } else {
        s
    }
}

/// What stands between a generic's opening bracket, `k` characters in, and its last
/// character.
pub open spec fn generic_inner(f: Seq<char>, k: int) -> Seq<char> {
    f.subrange(k, f.len() - 1)
}

/// A map's key and value types, split at the first comma, are both primitive.
pub open spec fn primitive_pair(inner: Seq<char>) -> bool {
    match find_spec(inner, ',') {
        Some(c) => primitive_spec(trim_spec(inner.take(c))) && primitive_spec(
            trim_spec(inner.skip(c + 1)),
        ),
        None => false,
    }
}

/// The tidied name of a type that needs registration with a serializer, or `None` for a
/// primitive, and for a `Vec`, an `Option` or a `HashMap` of primitives.
pub open spec fn format_type_spec(type_str: Seq<char>) -> Option<Seq<char>> {
    let f = strip_ref_spec(tidy_spec(type_str));
    if primitive_spec(f) {
        None
    } else if starts_with(f, "Vec<"@) && f.len() > 4 && primitive_spec(generic_inner(f, 4)) {
        None
    } else if starts_with(f, "Option<"@) && f.len() > 7 && primitive_spec(generic_inner(f, 7)) {
        None
    } else if starts_with(f, "HashMap<"@) && f.len() > 8 && primitive_pair(generic_inner(f, 8)) {
        None
    } else {
        Some(f)
    }
}

fn generic_of_primitive(f: &str, k: usize) -> (r: bool)
    requires
        k > 0,
    ensures
        r == (f@.len() > k && primitive_spec(generic_inner(f@, k as int))),
{
    let n = f.unicode_len();
    if n <= k {
        return false;
    }
    is_primitive_type(f.substring_char(k, n - 1))
}

fn map_of_primitives(f: &str) -> (r: bool)
    ensures
        r == (f@.len() > 8 && primitive_pair(generic_inner(f@, 8))),
{
    let n = f.unicode_len();
    if n <= 8 {
        return false;
    }
    let inner = f.substring_char(8, n - 1);
    match find_char(inner, ',') {
        None => false,
        Some(c) => {
            proof {
                assert(find_spec(inner@, ',') == Some(c as int));
                lemma_find_in_range(inner@, ',');
            }
            let m = inner.unicode_len();
            let key = trim(inner.substring_char(0, c));
            let value = trim(inner.substring_char(c + 1, m));
            proof {
                assert(inner@.subrange(0, c as int) =~= inner@.take(c as int));
                assert(inner@.subrange(c + 1, m as int) =~= inner@.skip(c + 1));
            }
            is_primitive_type(key) && is_primitive_type(value)
        },
    }
}

/// Tidies a rendered type name and tells whether the type needs registration with a
/// serializer: `None` for a primitive, and for a `Vec`, an `Option` or a `HashMap` of
/// primitives; the tidied name otherwise.
pub fn format_type_string(type_str: &str) -> (r: Option<String>)
    ensures
        match r {
            Some(t) => format_type_spec(type_str@) == Some(t@),
            None => format_type_spec(type_str@) is None,
        },
{
    proof {
        reveal_strlit(" >");
        reveal_strlit("< ");
        reveal_strlit(" , ");
        reveal_strlit("& ");
    }
    let a = replace_all(type_str, " >", ">");
    let b = replace_all(a.as_str(), "< ", "<");
    let c = replace_all(b.as_str(), " , ", ", ");
    let formatted: String = if has_prefix(c.as_str(), "& ") {
        let n = c.as_str().unicode_len();
        let rest = c.as_str().substring_char(2, n);
        proof {
            assert(c@.subrange(2, n as int) =~= c@.skip(2));
        }
        rest.to_owned()
    } else {
        c
    };
    let f = formatted.as_str();
    if is_primitive_type(f) {
        None
    } else if has_prefix(f, "Vec<") && generic_of_primitive(f, 4) {
        None
    } else if has_prefix(f, "Option<") && generic_of_primitive(f, 7) {
        None
    } else if has_prefix(f, "HashMap<") && map_of_primitives(f) {
        None
    } else {
        Some(formatted)
    }
}

/// The text between the quotes of a quoted value.
pub open spec fn unquote_spec(v: Seq<char>) -> Option<Seq<char>> {
    if v.len() >= 2 && v[0] == '"' && v.last() == '"' {
        Some(v.subrange(1, v.len() - 1))
    } else {
        None
    }
}

/// A `key = "value"` piece of an attribute list, as a key and the unquoted value.
pub open spec fn parse_pair_spec(piece: Seq<char>) -> Option<(Seq<char>, Seq<char>)> {
    let parts = split_spec(piece, '=');
    if parts.len() == 2 {
        match unquote_spec(trim_spec(parts[1])) {
            Some(v) => Some((trim_spec(parts[0]), v)),
            None => None,
        }
    } else {
        None
    }
}

/// The well-formed pairs among the pieces, in order.
pub open spec fn attribute_pairs(pieces: Seq<Seq<char>>) -> Seq<(Seq<char>, Seq<char>)>
    decreases pieces.len(),
{
    if pieces.len() == 0 {
        Seq::empty()
    } else {
        let prev = attribute_pairs(pieces.drop_last());
        match parse_pair_spec(pieces.last()) {
            Some(p) => prev.push(p),
            None => prev,
        }
    }
}

/// The value given last for `key`.
pub open spec fn attribute_get(pairs: Seq<(Seq<char>, Seq<char>)>, key: Seq<char>) -> Option<Seq<char>>
    decreases pairs.len(),
{
    if pairs.len() == 0 {
        None
    } else if pairs.last().0 == key {
        Some(pairs.last().1)
    } else {
        attribute_get(pairs.drop_last(), key)
    }
}

pub open spec fn pairs_model(pairs: Seq<(String, String)>) -> Seq<(Seq<char>, Seq<char>)> {
    pairs.map_values(|p: (String, String)| (p.0@, p.1@))
}

/// The `name = "value"` settings of a service annotation; a later setting of a key
/// overrides an earlier one.
pub struct ServiceAttributes {
    pairs: Vec<(String, String)>,
}

impl ServiceAttributes {
    /// The settings in the order written.
    pub closed spec fn pairs(&self) -> Seq<(Seq<char>, Seq<char>)> {
        pairs_model(self.pairs@)
    }

    /// The value set for `key`, if any.
    pub fn get(&self, key: &str) -> (r: Option<String>)
        ensures
            match r {
                Some(v) => attribute_get(self.pairs(), key@) == Some(v@),
                None => attribute_get(self.pairs(), key@) is None,
            },
    {
        let mut i: usize = self.pairs.len();
        proof {
            assert(self.pairs@.take(i as int) =~= self.pairs@);
        }
        while i > 0
            invariant
                i <= self.pairs.len(),
                attribute_get(self.pairs(), key@) == attribute_get(
                    pairs_model(self.pairs@.take(i as int)),
                    key@,
                ),
            decreases i,
        {
            let ghost t = self.pairs@.take(i as int);
            proof {
                assert(pairs_model(t).drop_last() =~= pairs_model(self.pairs@.take(i - 1)));
                assert(pairs_model(t).last() == (self.pairs@[i - 1].0@, self.pairs@[i - 1].1@));
            }
            if str_eq(self.pairs[i - 1].0.as_str(), key) {
                return Some(self.pairs[i - 1].1.clone());
            }
            i = i - 1;
        }
        None
    }
}

fn parse_pair(piece: &str) -> (r: Option<(String, String)>)
    ensures
        match r {
            Some(p) => parse_pair_spec(piece@) == Some((p.0@, p.1@)),
            None => parse_pair_spec(piece@) is None,
        },
{
    let parts = split_on(piece, '=');
    proof {
        assert(pieces_model(parts@).len() == parts@.len());
    }
    if parts.len() != 2 {
        return None;
    }
    proof {
        assert(pieces_model(parts@)[0] == parts@[0]@);
        assert(pieces_model(parts@)[1] == parts@[1]@);
    }
    let key = trim(parts[0]);
    let value = trim(parts[1]);
    let n = value.unicode_len();
    if n >= 2 && value.get_char(0) == '"' && value.get_char(n - 1) == '"' {
        let inner = value.substring_char(1, n - 1);
        Some((key.to_owned(), inner.to_owned()))
    } else {
        None
    }
}

/// Parses the settings of a service annotation: comma-separated `key = "value"` pairs.
/// A piece that is not of that form is ignored.
pub fn extract_service_attributes(attr: &str) -> (r: ServiceAttributes)
    ensures
        r.pairs() == attribute_pairs(split_spec(attr@, ',')),
{
    let pieces = split_on(attr, ',');
    let ghost ps = split_spec(attr@, ',');
    let mut pairs: Vec<(String, String)> = Vec::new();
    let mut i: usize = 0;
    proof {
        assert(pieces_model(pieces@).len() == pieces@.len());
        assert(ps.take(0) =~= Seq::<Seq<char>>::empty());
        assert(pairs_model(pairs@) =~= Seq::<(Seq<char>, Seq<char>)>::empty());
    }
    while i < pieces.len()
        invariant
            i <= pieces.len(),
            ps == pieces_model(pieces@),
            ps.len() == pieces.len(),
            pairs_model(pairs@) == attribute_pairs(ps.take(i as int)),
        decreases pieces.len() - i,
    {
        proof {
            assert(ps.take(i + 1).drop_last() =~= ps.take(i as int));
            assert(ps.take(i + 1).last() == pieces@[i as int]@);
        }
        match parse_pair(pieces[i]) {
            Some(p) => {
                proof {
                    assert(pairs_model(pairs@.push(p)) =~= pairs_model(pairs@).push((p.0@, p.1@)));
                }
                pairs.push(p);
            },
            None => {},
        }
        i = i + 1;
    }
    proof {
        assert(ps.take(pieces.len() as int) =~= ps);
    }
    ServiceAttributes { pairs }
}

/// The identity of a service: what the runtime shows of it and where requests reach it.
pub trait ServiceInfo {
    fn service_name(&self) -> &str;

    fn service_path(&self) -> &str;

    fn service_description(&self) -> &str;

    fn service_version(&self) -> &str;
}

pub open spec fn descriptor_name(struct_name: Seq<char>, pairs: Seq<(Seq<char>, Seq<char>)>) -> Seq<char> {
    match attribute_get(pairs, "name"@) {
        Some(n) => n,
        None => struct_name,
    }
}

/// An explicit path; else the name given, in lower case with spaces as underscores; else
/// the type's name in lower case.
pub open spec fn descriptor_path(struct_name: Seq<char>, pairs: Seq<(Seq<char>, Seq<char>)>) -> Seq<char> {
    match attribute_get(pairs, "path"@) {
        Some(p) => p,
        None => match attribute_get(pairs, "name"@) {
            Some(n) => replace_spec(lower_of(n), " "@, "_"@),
            None => lower_of(struct_name),
        },
    }
}

pub open spec fn descriptor_description(struct_name: Seq<char>, pairs: Seq<(Seq<char>, Seq<char>)>) -> Seq<char> {
    match attribute_get(pairs, "description"@) {
        Some(d) => d,
        None => "Service generated by service macro: "@ + struct_name,
    }
}

pub open spec fn descriptor_version(pairs: Seq<(Seq<char>, Seq<char>)>) -> Seq<char> {
    match attribute_get(pairs, "version"@) {
        Some(v) => v,
        None => "1.0.0"@,
    }
}

/// The metadata of a service type, derived from its name and its annotation.
#[derive(Debug)]
pub struct ServiceDescriptor {
    pub name: String,
    pub path: String,
    pub description: String,
    pub version: String,
}

impl ServiceDescriptor {
    /// Derives the metadata of service type `struct_name` annotated with the settings `attr`.
    pub fn from_attributes(struct_name: &str, attr: &str) -> (r: Self)
        ensures
            ({
                let pairs = attribute_pairs(split_spec(attr@, ','));
                &&& r.name@ == descriptor_name(struct_name@, pairs)
                &&& r.path@ == descriptor_path(struct_name@, pairs)
                &&& r.description@ == descriptor_description(struct_name@, pairs)
                &&& r.version@ == descriptor_version(pairs)
            }),
    {
        let attrs = extract_service_attributes(attr);
        let name_attr = attrs.get("name");
        let name = match &name_attr {
            Some(n) => n.clone(),
            None => struct_name.to_owned(),
        };
        proof {
            reveal_strlit(" ");
        }
        let path = match attrs.get("path") {
            Some(p) => p,
            None => match &name_attr {
                Some(n) => {
                    let lower = to_lowercase(n.as_str());
                    replace_all(lower.as_str(), " ", "_")
                },
                None => to_lowercase(struct_name),
            },
        };
        let description = match attrs.get("description") {
            Some(d) => d,
            None => {
                let mut d = String::from_str("Service generated by service macro: ");
                d.append(struct_name);
                d
            },
        };
        let version = match attrs.get("version") {
            Some(v) => v,
            None => String::from_str("1.0.0"),
        };
        ServiceDescriptor { name, path, description, version }
    }

    pub fn name(&self) -> (r: &str)
        ensures
            r@ == self.name@,
    {
        self.name.as_str()
    }

    pub fn path(&self) -> (r: &str)
        ensures
            r@ == self.path@,
    {
        self.path.as_str()
    }

    pub fn description(&self) -> (r: &str)
        ensures
            r@ == self.description@,
    {
        self.description.as_str()
    }

    pub fn version(&self) -> (r: &str)
        ensures
            r@ == self.version@,
    {
        self.version.as_str()
    }
}

impl ServiceInfo for ServiceDescriptor {
    fn service_name(&self) -> &str {
        self.name.as_str()
    }

    fn service_path(&self) -> &str {
        self.path.as_str()
    }

    fn service_description(&self) -> &str {
        self.description.as_str()
    }

    fn service_version(&self) -> &str {
        self.version.as_str()
    }
}

} // verus!

//! What a handler method's signature and attributes declare.

use vstd::prelude::*;
use crate::convert::TypeTag;
use crate::types::names_model;
use crate::service::{tidy_spec, strip_ref_spec};
use crate::text::{
    ends_with, str_eq, replace_all, has_prefix, find_spec, find_char, find_sub_spec, find_sub,
    lemma_find_in_range, push_char,
};
use vstd::string::{StrSliceExecFns, StringExecFns};
use syn::parse::Parser;

verus! {

/// Whether a path, given by its segments, is the expected one.
pub fn path_matches(path: &Vec<String>, segments: &Vec<&str>) -> (r: bool)
    ensures
        r == (path@.len() == segments@.len() && forall|i: int|
            0 <= i < path@.len() ==> #[trigger] path@[i]@ == segments@[i]@),
{
    if path.len() != segments.len() {
        return false;
    }
    let mut i: usize = 0;
    while i < path.len()
        invariant
            i <= path.len(),
            path@.len() == segments@.len(),
            forall|j: int| 0 <= j < i ==> #[trigger] path@[j]@ == segments@[j]@,
        decreases path.len() - i,
    {
        if !str_eq(path[i].as_str(), segments[i]) {
            return false;
        }
        i = i + 1;
    }
    true
}

/// A method parameter that stands for the receiver or the request context, which the
/// dispatcher supplies itself rather than extracting it from the payload.
pub open spec fn context_parameter_spec(name: Seq<char>) -> bool {
    name == "self"@ || ends_with(name, "ctx"@)
}

pub fn is_context_parameter(name: &str) -> (r: bool)
    ensures
        r == context_parameter_spec(name@),
{
    proof {
        reveal_strlit("ctx");
    }
    if str_eq(name, "self") {
        return true;
    }
    let n = name.unicode_len();
    if n < 3 {
        return false;
    }
    let tail = name.substring_char(n - 3, n);
    proof {
        assert(name@.subrange(n - 3, n as int) =~= name@.skip(n - 3));
    }
    str_eq(tail, "ctx")
}

/// The semantic type of a declared Rust type, decided once when the handler is registered;
/// a type that is not one of the scalar types is structured, under `struct_id`.
pub open spec fn tag_for_type_spec(type_str: Seq<char>, struct_id: u64) -> TypeTag {
    let t = strip_ref_spec(tidy_spec(type_str));
    if t == "f64"@ || t == "f32"@ {
        TypeTag::Float64
    } else if t == "i32"@ {
        TypeTag::Int32
    } else if t == "i64"@ {
        TypeTag::Int64
    } else if t == "String"@ || t == "str"@ {
        TypeTag::Str
    } else if t == "bool"@ {
        TypeTag::Bool
    } else {
        TypeTag::Struct(struct_id)
    }
}

pub fn tag_for_type(type_str: &str, struct_id: u64) -> (r: TypeTag)
    ensures
        r == tag_for_type_spec(type_str@, struct_id),
{
    proof {
        reveal_strlit(" >");
        reveal_strlit("< ");
        reveal_strlit(" , ");
        reveal_strlit("& ");
    }
    let a = replace_all(type_str, " >", ">");
    let b = replace_all(a.as_str(), "< ", "<");
    let c = replace_all(b.as_str(), " , ", ", ");
    let n = c.as_str().unicode_len();
    let t: &str = if has_prefix(c.as_str(), "& ") {
        proof {
            assert(c@.subrange(2, n as int) =~= c@.skip(2));
        }
        c.as_str().substring_char(2, n)
    } else {
        c.as_str()
    };
    if str_eq(t, "f64") || str_eq(t, "f32") {
        TypeTag::Float64
    } else if str_eq(t, "i32") {
        TypeTag::Int32
    } else if str_eq(t, "i64") {
        TypeTag::Int64
    } else if str_eq(t, "String") || str_eq(t, "str") {
        TypeTag::Str
    } else if str_eq(t, "bool") {
        TypeTag::Bool
    } else {
        TypeTag::Struct(struct_id)
    }
}

/// The value of the first item of a comma-separated list of literals, when the text is such
/// a list and that item is a string literal.
pub uninterp spec fn first_literal_of(s: Seq<char>) -> Option<Seq<char>>;

/// Relies on syn's `Punctuated::<Lit, Comma>::parse_terminated`, run through
/// `Parser::parse_str`, and on `LitStr::value`: the outcome depends on the text alone.
#[verifier::external_body]
fn first_string_literal(attr: &str) -> (r: Option<String>)
    ensures
        match r {
            Some(v) => first_literal_of(attr@) == Some(v@),
            None => first_literal_of(attr@) is None,
        },
{
    let parser = syn::punctuated::Punctuated::<syn::Lit, syn::token::Comma>::parse_terminated;
    match parser.parse_str(attr) {
        Ok(list) => match list.first() {
            Some(syn::Lit::Str(s)) => Some(s.value()),
            _ => None,
        },
        Err(_) => None,
    }
}

/// The text between the quotes that follow `path =` in an attribute.
pub open spec fn quoted_path_spec(attr: Seq<char>) -> Option<Seq<char>> {
    match find_sub_spec(attr, "path"@) {
        None => None,
        Some(p) => {
            let start = p + 4;
            match find_spec(attr.skip(start), '=') {
                None => None,
                Some(e) => {
                    let eq = start + e + 1;
                    match find_spec(attr.skip(eq), '"') {
                        None => None,
                        Some(q) => {
                            let open = eq + q + 1;
                            match find_spec(attr.skip(open), '"') {
                                None => None,
                                Some(close) => Some(attr.subrange(open, open + close)),
                            }
                        },
                    }
                },
            }
        },
    }
}

/// The operation name and path of an action method named `fn_name` with attribute `attr`:
/// `path = "..."` sets the path; a leading string literal sets both; by default both are the
/// method's name.
pub open spec fn action_settings_spec(fn_name: Seq<char>, attr: Seq<char>) -> (Seq<char>, Seq<char>) {
    if attr.len() == 0 {
        (fn_name, fn_name)
    } else if find_sub_spec(attr, "path"@) is Some {
        match quoted_path_spec(attr) {
            Some(p) => (fn_name, p),
            None => (fn_name, fn_name),
        }
    } else {
        match first_literal_of(attr) {
            Some(v) => (v, v),
            None => (fn_name, fn_name),
        }
    }
}

/// Operation name and path of an action.
#[derive(Debug, PartialEq)]
pub struct ActionSettings {
    pub name: String,
    pub path: String,
}

fn after_char(s: &str, from: usize, c: char) -> (r: Option<usize>)
    requires
        from <= s@.len(),
    ensures
        match r {
            Some(i) => find_spec(s@.skip(from as int), c) == Some(i - from) && from <= i < s@.len()
                && s@[i as int] == c,
            None => find_spec(s@.skip(from as int), c) is None,
        },
{
    let n = s.unicode_len();
    let rest = s.substring_char(from, n);
    proof {
        assert(rest@ =~= s@.skip(from as int));
        lemma_find_in_range(rest@, c);
    }
    match find_char(rest, c) {
        Some(k) => Some(from + k),
        None => None,
    }
}

fn quoted_path(attr: &str) -> (r: Option<String>)
    ensures
        match r {
            Some(p) => quoted_path_spec(attr@) == Some(p@),
            None => quoted_path_spec(attr@) is None,
        },
{
    proof {
        reveal_strlit("path");
    }
    let n = attr.unicode_len();
    let p = match find_sub(attr, "path") {
        Some(p) => p,
        None => {
            return None;
        },
    };
    proof {
        lemma_find_sub_in_range(attr@, "path"@);
    }
    let start = p + 4;
    let e = match after_char(attr, start, '=') {
        Some(e) => e,
        None => {
            return None;
        },
    };
    let q = match after_char(attr, e + 1, '"') {
        Some(q) => q,
        None => {
            return None;
        },
    };
    let close = match after_char(attr, q + 1, '"') {
        Some(c) => c,
        None => {
            return None;
        },
    };
    Some(attr.substring_char(q + 1, close).to_owned())
}

proof fn lemma_find_sub_in_range(s: Seq<char>, pat: Seq<char>)
    ensures
        match find_sub_spec(s, pat) {
            Some(i) => 0 <= i && i + pat.len() <= s.len(),
            None => true,
        },
    decreases s.len(),
{
    if !crate::text::starts_with(s, pat) && s.len() > 0 {
        lemma_find_sub_in_range(s.skip(1), pat);
    }
}

impl ActionSettings {
    /// Reads the attribute of an action method named `fn_name`.
    pub fn parse(fn_name: &str, attr: &str) -> (r: Self)
        ensures
            (r.name@, r.path@) == action_settings_spec(fn_name@, attr@),
    {
        proof {
            reveal_strlit("path");
        }
        if attr.unicode_len() == 0 {
            return ActionSettings { name: fn_name.to_owned(), path: fn_name.to_owned() };
        }
        if find_sub(attr, "path").is_some() {
            match quoted_path(attr) {
                Some(p) => ActionSettings { name: fn_name.to_owned(), path: p },
                None => ActionSettings { name: fn_name.to_owned(), path: fn_name.to_owned() },
            }
        } else {
            match first_string_literal(attr) {
                Some(v) => {
                    let path = v.clone();
                    ActionSettings { name: v, path }
                },
                None => ActionSettings { name: fn_name.to_owned(), path: fn_name.to_owned() },
            }
        }
    }
}

/// The characters of identifiers generated for handlers.
pub open spec fn alphanumeric(c: char) -> bool {
    ('A' <= c <= 'Z') || ('a' <= c <= 'z') || ('0' <= c <= '9')
}

/// Relies on rand's `Alphanumeric` distribution, sampled from `thread_rng`: it yields one of
/// A-Z, a-z and 0-9. (`thread_rng` panics only when the operating system's generator cannot
/// be read to seed it.)
#[verifier::external_body]
fn random_alphanumeric() -> (r: char)
    ensures
        alphanumeric(r),
{
    rand::Rng::sample(&mut rand::thread_rng(), rand::distributions::Alphanumeric) as char
}

/// A fresh random identifier of ten letters and digits.
pub fn generate_unique_id() -> (r: String)
    ensures
        r@.len() == 10,
        forall|i: int| 0 <= i < 10 ==> alphanumeric(#[trigger] r@[i]),
{
    let mut id = String::new();
    let mut i: usize = 0;
    while i < 10
        invariant
            i <= 10,
            id@.len() == i,
            forall|k: int| 0 <= k < i ==> alphanumeric(#[trigger] id@[k]),
        decreases 10 - i,
    {
        let c = random_alphanumeric();
        push_char(&mut id, c);
        i = i + 1;
    }
    id
}

/// What the service macro makes of a method, by its attributes.
#[derive(Clone, Copy, Debug, PartialEq, Eq, Structural)]
pub enum MethodKind {
    Action,
    Subscription,
}

pub open spec fn has_attribute(attrs: Seq<Seq<char>>, name: Seq<char>) -> bool {
    exists|i: int| 0 <= i < attrs.len() && #[trigger] attrs[i] == name
}

/// An `action` attribute makes an action; else a `subscribe` attribute makes a subscription.
pub open spec fn method_kind_spec(attrs: Seq<Seq<char>>) -> Option<MethodKind> {
    if has_attribute(attrs, "action"@) {
        Some(MethodKind::Action)
    } else if has_attribute(attrs, "subscribe"@) {
        Some(MethodKind::Subscription)
    } else {
        None
    }
}

fn has_attribute_named(attrs: &Vec<String>, name: &str) -> (r: bool)
    ensures
        r == has_attribute(names_model(attrs@), name@),
{
    let ghost m = names_model(attrs@);
    let mut i: usize = 0;
    while i < attrs.len()
        invariant
            i <= attrs.len(),
            m == names_model(attrs@),
            m.len() == attrs.len(),
            forall|k: int| 0 <= k < i ==> m[k] != name@,
        decreases attrs.len() - i,
    {
        if str_eq(attrs[i].as_str(), name) {
            assert(m[i as int] == name@);
            return true;
        }
        i = i + 1;
    }
    false
}

/// The kind of a method whose attributes have the given names, if the service macro
/// registers it.
pub fn method_kind(attrs: &Vec<String>) -> (r: Option<MethodKind>)
    ensures
        r == method_kind_spec(names_model(attrs@)),
{
    if has_attribute_named(attrs, "action") {
        Some(MethodKind::Action)
    } else if has_attribute_named(attrs, "subscribe") {
        Some(MethodKind::Subscription)
    } else {
        None
    }
}

pub open spec fn registration_method_spec(kind: MethodKind, method: Seq<char>) -> Seq<char> {
    match kind {
        MethodKind::Action => "register_action_"@ + method,
        MethodKind::Subscription => "register_subscription_"@ + method,
    }
}

/// The name of the generated method that registers `method` with the runtime.
pub fn registration_method_name(kind: MethodKind, method: &str) -> (r: String)
    ensures
        r@ == registration_method_spec(kind, method@),
{
    let mut r = match kind {
        MethodKind::Action => String::from_str("register_action_"),
        MethodKind::Subscription => String::from_str("register_subscription_"),
    };
    r.append(method);
    r
}

} // verus!

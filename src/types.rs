//! The types a service's methods use, collected in sorted order.

use vstd::prelude::*;
use vstd::string::StrSliceExecFns;
use crate::service::{format_type_spec, format_type_string, tidy_spec, pairs_model};
use crate::text::{
    str_eq, starts_with, ends_with, find_spec, rfind_spec, trim_spec, has_prefix, find_char,
    rfind_char, trim, replace_all, lemma_find_in_range,
};

verus! {

/// `a` sorts before `b`: the order of `Ord` on strings, character code by character code.
pub open spec fn lex_lt(a: Seq<char>, b: Seq<char>) -> bool
    decreases a.len(),
{
    if a.len() == 0 {
        b.len() > 0
    } else if b.len() == 0 {
        false
    } else if a[0] != b[0] {
        (a[0] as int) < (b[0] as int)
    } else {
        lex_lt(a.skip(1), b.skip(1))
    }
}

pub proof fn lemma_lex_total(a: Seq<char>, b: Seq<char>)
    requires
        a != b,
    ensures
        lex_lt(a, b) || lex_lt(b, a),
    decreases a.len(),
{
    if a.len() > 0 && b.len() > 0 && a[0] == b[0] {
        if a.skip(1) == b.skip(1) {
            assert(a =~= seq![a[0]] + a.skip(1));
            assert(b =~= seq![b[0]] + b.skip(1));
        }
        lemma_lex_total(a.skip(1), b.skip(1));
    }
    if a.len() > 0 && b.len() > 0 && a[0] != b[0] {
        assert((a[0] as int) != (b[0] as int));
    }
    if a.len() == 0 && b.len() == 0 {
        assert(a =~= b);
    }
}

pub proof fn lemma_lex_transitive(a: Seq<char>, b: Seq<char>, c: Seq<char>)
    requires
        lex_lt(a, b),
        lex_lt(b, c),
    ensures
        lex_lt(a, c),
    decreases a.len(),
{
    if a.len() > 0 && b.len() > 0 && c.len() > 0 && a[0] == b[0] && b[0] == c[0] {
        lemma_lex_transitive(a.skip(1), b.skip(1), c.skip(1));
    }
}

/// Whether `a` sorts before `b`.
pub fn str_lt(a: &str, b: &str) -> (r: bool)
    ensures
        r == lex_lt(a@, b@),
{
    let n = a.unicode_len();
    let m = b.unicode_len();
    let mut i: usize = 0;
    proof {
        assert(a@.skip(0) =~= a@);
        assert(b@.skip(0) =~= b@);
    }
    while i < n && i < m && a.get_char(i) == b.get_char(i)
        invariant
            i <= n,
            i <= m,
            n == a@.len(),
            m == b@.len(),
            lex_lt(a@, b@) == lex_lt(a@.skip(i as int), b@.skip(i as int)),
        decreases n - i,
    {
        proof {
            assert(a@.skip(i as int).skip(1) =~= a@.skip(i + 1));
            assert(b@.skip(i as int).skip(1) =~= b@.skip(i + 1));
        }
        i = i + 1;
    }
    if i == n {
        i < m
    } else if i == m {
        false
    } else {
        (a.get_char(i) as u32) < (b.get_char(i) as u32)
    }
}

pub open spec fn names_model(v: Seq<String>) -> Seq<Seq<char>> {
    v.map_values(|s: String| s@)
}

/// Each name sorts before the next: the names are in order and distinct.
pub open spec fn strictly_sorted(s: Seq<Seq<char>>) -> bool {
    forall|i: int, j: int| 0 <= i < j < s.len() ==> lex_lt(#[trigger] s[i], #[trigger] s[j])
}

/// Adds `name` to a strictly sorted list unless it is there already.
fn insert_sorted(names: &mut Vec<String>, name: String)
    requires
        strictly_sorted(names_model(old(names)@)),
    ensures
        strictly_sorted(names_model(final(names)@)),
        names_model(final(names)@).to_set() == names_model(old(names)@).to_set().insert(name@),
{
    let ghost before = names_model(names@);
    let mut j: usize = 0;
    while j < names.len() && str_lt(names[j].as_str(), name.as_str())
        invariant
            j <= names.len(),
            before == names_model(names@),
            forall|k: int| 0 <= k < j ==> lex_lt(#[trigger] before[k], name@),
        decreases names.len() - j,
    {
        j = j + 1;
    }
    if j < names.len() && str_eq(names[j].as_str(), name.as_str()) {
        proof {
            assert(before[j as int] == name@);
            assert(before.to_set().insert(name@) =~= before.to_set());
        }
        return;
    }
    proof {
        if j < names.len() {
            lemma_lex_total(before[j as int], name@);
            assert(lex_lt(name@, before[j as int]));
        }
    }
    names.insert(j, name);
    proof {
        let after = names_model(names@);
        assert(after =~= before.insert(j as int, name@));
        assert forall|a: int, b: int| 0 <= a < b < after.len() implies lex_lt(
            #[trigger] after[a],
            #[trigger] after[b],
        ) by {
            if b < j {
            } else if a < j && b == j {
            } else if a < j && b > j {
                if b - 1 > j {
                    lemma_lex_transitive(name@, before[j as int], before[b - 1]);
                }
                lemma_lex_transitive(before[a], name@, before[b - 1]);
            } else if a == j {
                if b - 1 > j {
                    lemma_lex_transitive(name@, before[j as int], before[b - 1]);
                }
            } else {
            }
        }
        assert forall|t: Seq<char>| after.to_set().contains(t) <==> before.to_set().insert(name@).contains(t) by {
            if after.to_set().contains(t) {
                let k = choose|k: int| 0 <= k < after.len() && after[k] == t;
                if k < j {
                    assert(before[k] == t);
                } else if k > j {
                    assert(before[k - 1] == t);
                }
            }
            if before.to_set().contains(t) {
                let k = choose|k: int| 0 <= k < before.len() && before[k] == t;
                if k < j {
                    assert(after[k] == t);
                } else {
                    assert(after[k + 1] == t);
                }
            }
            if t == name@ {
                assert(after[j as int] == t);
            }
        }
        assert(after.to_set() =~= before.to_set().insert(name@));
    }
}

/// The types that a service named `struct_name` registers with its serializer: each type
/// used by its methods that `format_type_string` keeps, other than the service itself.
pub open spec fn registered_type_set(struct_name: Seq<char>, types: Seq<Seq<char>>) -> Set<Seq<char>> {
    Set::new(
        |t: Seq<char>|
            exists|i: int|
                0 <= i < types.len() && format_type_spec(#[trigger] types[i]) == Some(t) && t
                    != struct_name,
    )
}

pub open spec fn strs_model(v: Seq<&str>) -> Seq<Seq<char>> {
    v.map_values(|s: &str| s@)
}

/// The types that a service registers with its serializer, tidied, without repeats, in
/// sorted order.
pub fn registered_types(struct_name: &str, types: &Vec<&str>) -> (r: Vec<String>)
    ensures
        strictly_sorted(names_model(r@)),
        names_model(r@).to_set() == registered_type_set(struct_name@, strs_model(types@)),
{
    let ghost ts = strs_model(types@);
    let mut out: Vec<String> = Vec::new();
    let mut i: usize = 0;
    proof {
        assert(names_model(out@).to_set() =~= registered_type_set(struct_name@, ts.take(0)));
    }
    while i < types.len()
        invariant
            i <= types.len(),
            ts == strs_model(types@),
            strictly_sorted(names_model(out@)),
            names_model(out@).to_set() == registered_type_set(struct_name@, ts.take(i as int)),
        decreases types.len() - i,
    {
        let ghost prev = ts.take(i as int);
        let ghost next = ts.take(i + 1);
        proof {
            assert(next[i as int] == types@[i as int]@);
            assert forall|k: int| 0 <= k < i implies next[k] == prev[k] by {}
        }
        match format_type_string(types[i]) {
            Some(t) => {
                if !str_eq(t.as_str(), struct_name) {
                    let ghost tv = t@;
                    insert_sorted(&mut out, t);
                    proof {
                        assert forall|x: Seq<char>| registered_type_set(struct_name@, next).contains(x)
                            <==> registered_type_set(struct_name@, prev).insert(tv).contains(x) by {
                            if registered_type_set(struct_name@, next).contains(x) {
                                let k = choose|k: int| 0 <= k < next.len() && format_type_spec(#[trigger] next[k]) == Some(x) && x != struct_name@;
                                if k < i {
                                    assert(format_type_spec(prev[k]) == Some(x));
                                }
                            }
                            if registered_type_set(struct_name@, prev).contains(x) {
                                let k = choose|k: int| 0 <= k < prev.len() && format_type_spec(#[trigger] prev[k]) == Some(x) && x != struct_name@;
                                assert(format_type_spec(next[k]) == Some(x));
                            }
                            if x == tv {
                                assert(format_type_spec(next[i as int]) == Some(x));
                            }
                        }
                        assert(registered_type_set(struct_name@, next) =~= registered_type_set(
                            struct_name@,
                            prev,
                        ).insert(tv));
                    }
                } else {
                    proof {
                        lemma_same_types(struct_name@, ts, i as int);
                    }
                }
            },
            None => {
                proof {
                    lemma_same_types(struct_name@, ts, i as int);
                }
            },
        }
        i = i + 1;
    }
    proof {
        assert(ts.take(types.len() as int) =~= ts);
    }
    out
}

proof fn lemma_same_types(struct_name: Seq<char>, ts: Seq<Seq<char>>, i: int)
    requires
        0 <= i < ts.len(),
        format_type_spec(ts[i]) is None || format_type_spec(ts[i]) == Some(struct_name),
    ensures
        registered_type_set(struct_name, ts.take(i + 1)) == registered_type_set(struct_name, ts.take(i)),
{
    let prev = ts.take(i);
    let next = ts.take(i + 1);
    assert forall|x: Seq<char>| registered_type_set(struct_name, next).contains(x)
        <==> registered_type_set(struct_name, prev).contains(x) by {
        if registered_type_set(struct_name, next).contains(x) {
            let k = choose|k: int| 0 <= k < next.len() && format_type_spec(#[trigger] next[k]) == Some(x) && x != struct_name;
            assert(k != i);
            assert(format_type_spec(prev[k]) == Some(x));
        }
        if registered_type_set(struct_name, prev).contains(x) {
            let k = choose|k: int| 0 <= k < prev.len() && format_type_spec(#[trigger] prev[k]) == Some(x) && x != struct_name;
            assert(format_type_spec(next[k]) == Some(x));
        }
    }
    assert(registered_type_set(struct_name, next) =~= registered_type_set(struct_name, prev));
}

/// A method parameter that carries the request context rather than data.
pub open spec fn context_named(name: Seq<char>) -> bool {
    name == "ctx"@ || name == "context"@ || ends_with(name, "ctx"@)
}

/// The types of the parameters that carry data, in order.
pub open spec fn parameter_types_spec(params: Seq<(Seq<char>, Seq<char>)>) -> Seq<Seq<char>>
    decreases params.len(),
{
    if params.len() == 0 {
        Seq::empty()
    } else {
        let prev = parameter_types_spec(params.drop_last());
        if context_named(params.last().0) {
            prev
        } else {
            prev.push(params.last().1)
        }
    }
}

/// A success type worth registering.
pub open spec fn keeps_success(t: Seq<char>) -> bool {
    t.len() > 0 && t != "()"@
}

/// An error type worth registering: not a unit, not a generic `E`, not `anyhow::Error`.
pub open spec fn keeps_error(t: Seq<char>) -> bool {
    t.len() > 0 && t != "()"@ && t != "E"@ && !starts_with(t, "anyhow::Error"@) && !starts_with(
        t,
        "anyhow :: Error"@,
    )
}

/// The types named by a return type: a `Result`'s success type and its error type when
/// they are worth registering, or any other type itself.
pub open spec fn return_types_spec(return_type: Seq<char>) -> Seq<Seq<char>> {
    let clean = tidy_spec(return_type);
    if starts_with(clean, "Result<"@) || starts_with(clean, "Result <"@) {
        let start = match find_spec(clean, '<') {
            Some(i) => i + 1,
            None => 1,
        };
        let end = match rfind_spec(clean, '>') {
            Some(i) => i,
            None => clean.len() as int,
        };
        if start < end {
            let inner = clean.subrange(start, end);
            match find_spec(inner, ',') {
                Some(c) => {
                    let ok = trim_spec(inner.take(c));
                    let err = trim_spec(inner.skip(c + 1));
                    (if keeps_success(ok) {
                        seq![ok]
                    } else {
                        Seq::empty()
                    }) + (if keeps_error(err) {
                        seq![err]
                    } else {
                        Seq::empty()
                    })
                },
                None => if keeps_success(inner) {
                    seq![inner]
                } else {
                    Seq::empty()
                },
            }
        } else {
            Seq::empty()
        }
    } else {
        seq![clean]
    }
}

fn is_context_named(name: &str) -> (r: bool)
    ensures
        r == context_named(name@),
{
    proof {
        reveal_strlit("ctx");
    }
    if str_eq(name, "ctx") || str_eq(name, "context") {
        return true;
    }
    let n = name.unicode_len();
    if n < 3 {
        return false;
    }
    proof {
        assert(name@.subrange(n - 3, n as int) =~= name@.skip(n - 3));
    }
    str_eq(name.substring_char(n - 3, n), "ctx")
}

fn keeps_error_type(t: &str) -> (r: bool)
    ensures
        r == keeps_error(t@),
{
    t.unicode_len() > 0 && !str_eq(t, "()") && !str_eq(t, "E") && !has_prefix(t, "anyhow::Error")
        && !has_prefix(t, "anyhow :: Error")
}

fn return_types(return_type: &str) -> (r: Vec<String>)
    ensures
        names_model(r@) == return_types_spec(return_type@),
{
    proof {
        reveal_strlit(" >");
        reveal_strlit("< ");
        reveal_strlit(" , ");
    }
    let a = replace_all(return_type, " >", ">");
    let b = replace_all(a.as_str(), "< ", "<");
    let clean = replace_all(b.as_str(), " , ", ", ");
    let c = clean.as_str();
    let mut out: Vec<String> = Vec::new();
    if !(has_prefix(c, "Result<") || has_prefix(c, "Result <")) {
        out.push(clean);
        proof {
            assert(names_model(out@) =~= seq![c@]);
        }
        return out;
    }
    let n = c.unicode_len();
    proof {
        lemma_find_in_range(c@, '<');
    }
    let start: usize = match find_char(c, '<') {
        Some(i) => i + 1,
        None => 1,
    };
    let end: usize = match rfind_char(c, '>') {
        Some(i) => i,
        None => n,
    };
    if start >= end {
        proof {
            assert(names_model(out@) =~= Seq::<Seq<char>>::empty());
        }
        return out;
    }
    let inner = c.substring_char(start, end);
    proof {
        lemma_find_in_range(inner@, ',');
    }
    match find_char(inner, ',') {
        Some(k) => {
            let m = inner.unicode_len();
            let ok = trim(inner.substring_char(0, k));
            let err = trim(inner.substring_char(k + 1, m));
            proof {
                assert(inner@.subrange(0, k as int) =~= inner@.take(k as int));
                assert(inner@.subrange(k + 1, m as int) =~= inner@.skip(k + 1));
            }
            if ok.unicode_len() > 0 && !str_eq(ok, "()") {
                out.push(ok.to_owned());
            }
            if keeps_error_type(err) {
                out.push(err.to_owned());
            }
            proof {
                let e = Seq::<Seq<char>>::empty();
                let s1 = if keeps_success(ok@) { seq![ok@] } else { e };
                let s2 = if keeps_error(err@) { seq![err@] } else { e };
                assert(names_model(out@) =~= s1 + s2);
            }
        },
        None => {
            if inner.unicode_len() > 0 && !str_eq(inner, "()") {
                out.push(inner.to_owned());
            }
            proof {
                if keeps_success(inner@) {
                    assert(names_model(out@) =~= seq![inner@]);
                } else {
                    assert(names_model(out@) =~= Seq::<Seq<char>>::empty());
                }
            }
        },
    }
    out
}

/// The types a method uses: those of its data parameters, given as (name, rendered type)
/// pairs, then those named by its return type.
pub fn extract_types_from_method(params: &Vec<(String, String)>, return_type: Option<&str>) -> (r: Vec<String>)
    ensures
        names_model(r@) == parameter_types_spec(pairs_model(params@)) + match return_type {
            Some(t) => return_types_spec(t@),
            None => Seq::empty(),
        },
{
    let ghost ps = pairs_model(params@);
    let mut out: Vec<String> = Vec::new();
    let mut i: usize = 0;
    proof {
        assert(ps.take(0) =~= Seq::<(Seq<char>, Seq<char>)>::empty());
        assert(names_model(out@) =~= Seq::<Seq<char>>::empty());
    }
    while i < params.len()
        invariant
            i <= params.len(),
            ps == pairs_model(params@),
            names_model(out@) == parameter_types_spec(ps.take(i as int)),
        decreases params.len() - i,
    {
        proof {
            assert(ps.take(i + 1).drop_last() =~= ps.take(i as int));
            assert(ps.take(i + 1).last() == (params@[i as int].0@, params@[i as int].1@));
        }
        if !is_context_named(params[i].0.as_str()) {
            let t = params[i].1.clone();
            proof {
                assert(names_model(out@.push(t)) =~= names_model(out@).push(t@));
            }
            out.push(t);
        }
        i = i + 1;
    }
    proof {
        assert(ps.take(params.len() as int) =~= ps);
    }
    match return_type {
        Some(t) => {
            let rest = return_types(t);
            let ghost before = names_model(out@);
            let mut j: usize = 0;
            while j < rest.len()
                invariant
                    j <= rest.len(),
                    names_model(out@) == before + names_model(rest@).take(j as int),
                decreases rest.len() - j,
            {
                let s = rest[j].clone();
                proof {
                    let nr = names_model(rest@);
                    assert(names_model(out@.push(s)) =~= names_model(out@).push(s@));
                    assert(nr[j as int] == s@);
                    assert(nr.take(j + 1) =~= nr.take(j as int).push(nr[j as int]));
                    assert(names_model(out@.push(s)) =~= before + names_model(rest@).take(j + 1));
                }
                out.push(s);
                j = j + 1;
            }
            proof {
                assert(names_model(rest@).take(rest.len() as int) =~= names_model(rest@));
            }
            out
        },
        None => {
            proof {
                assert(names_model(out@) + Seq::<Seq<char>>::empty() =~= names_model(out@));
            }
            out
        },
    }
}

} // verus!

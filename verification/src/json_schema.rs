//! Normalizing the JSON schemas of tool arguments.
//!
//! Derived schemas carry keys the model does not need (`$schema`, `format`,
//! `assertionLine`, `default`), render optional fields as a `type` pair with
//! `"null"`, and list `null` among the values of optional enums. The
//! normalized schema drops those keys at every level, collapses such a
//! `type` pair to its non-null member and removes `null` from `enum`
//! arrays. At the root it also drops the struct's `title` and
//! `description`, and adds an empty `properties` object when there is none.

use vstd::prelude::*;
use crate::text::{str_eq, string_of};

verus! {

/// A JSON value. Object members keep their order; numbers keep their text.
#[derive(Debug)]
pub enum Json {
    Null,
    Bool(bool),
    Number(String),
    Str(String),
    Array(Vec<Json>),
    Object(Vec<(String, Json)>),
}

/// Whether the value is the JSON string `"null"`.
pub open spec fn is_null_text(v: Json) -> bool {
    v matches Json::Str(s) && s@ == "null"@
}

/// Keys dropped at every level.
pub open spec fn stripped_key(k: Seq<char>) -> bool {
    k == "$schema"@ || k == "format"@ || k == "assertionLine"@ || k == "default"@
}

/// Keys dropped at the root besides the stripped ones.
pub open spec fn root_only_key(k: Seq<char>) -> bool {
    k == "description"@ || k == "title"@
}

/// Whether a `type` array is a pair of one type and the string `"null"`.
pub open spec fn nullable_pair(xs: Seq<Json>) -> bool {
    xs.len() == 2 && (is_null_text(xs[0]) || is_null_text(xs[1])) && !(is_null_text(xs[0]) && is_null_text(xs[1]))
}

/// How many of the first `j` members are kept.
pub open spec fn kept_before(fs: Seq<(String, Json)>, j: int, root: bool) -> int
    decreases j,
{
    if j <= 0 {
        0
    } else {
        kept_before(fs, j - 1, root) + if dropped(fs[j - 1].0@, root) { 0int } else { 1int }
    }
}

/// Whether a member with key `k` is dropped.
pub open spec fn dropped(k: Seq<char>, root: bool) -> bool {
    stripped_key(k) || (root && root_only_key(k))
}

/// How many of the first `j` values are not JSON `null`.
pub open spec fn non_null_before(xs: Seq<Json>, j: int) -> int
    decreases j,
{
    if j <= 0 {
        0
    } else {
        non_null_before(xs, j - 1) + if xs[j - 1] is Null { 0int } else { 1int }
    }
}

/// Whether `b` is the normalized form of the value `a`.
pub open spec fn normalizes(a: Json, b: Json) -> bool
    decreases a, 0int,
{
    match a {
        Json::Array(xs) => b matches Json::Array(ys) && ys@.len() == xs@.len()
            && forall|i: int| 0 <= i < xs@.len() ==> normalizes(#[trigger] xs@[i], ys@[i]),
        Json::Object(fs) => b matches Json::Object(gs) && gs@.len() == kept_before(fs@, fs@.len() as int, false)
            && forall|j: int| 0 <= j < fs@.len() && !dropped((#[trigger] fs@[j]).0@, false) ==>
                gs@[kept_before(fs@, j, false)].0@ == fs@[j].0@
                && normalizes_member(fs@[j].0@, fs@[j].1, gs@[kept_before(fs@, j, false)].1),
        _ => b == a,
    }
}

/// Whether `y` is the normalized form of the member value `x` under the
/// key `k`: a nullable `type` pair collapses to its type, and an `enum`
/// array loses its `null` values.
pub open spec fn normalizes_member(k: Seq<char>, x: Json, y: Json) -> bool
    decreases x, 1int,
{
    if k == "type"@ && x is Array && nullable_pair(x->Array_0@) {
        let ts = x->Array_0@;
        normalizes(if !is_null_text(ts[0]) { ts[0] } else { ts[1] }, y)
    } else if k == "enum"@ && x is Array {
        let es = x->Array_0@;
        y matches Json::Array(ys) && ys@.len() == non_null_before(es, es.len() as int)
            && forall|m: int| 0 <= m < es.len() && !((#[trigger] es[m]) is Null) ==>
                normalizes(es[m], ys@[non_null_before(es, m)])
    } else {
        normalizes(x, y)
    }
}

/// Whether the members `gs` are the normalized kept members of `fs`, in
/// order.
#[verifier::opaque]
pub open spec fn members_normalize(fs: Seq<(String, Json)>, gs: Seq<(String, Json)>, root: bool) -> bool {
    forall|j: int| 0 <= j < fs.len() && !dropped((#[trigger] fs[j]).0@, root) ==>
        gs[kept_before(fs, j, root)].0@ == fs[j].0@
        && normalizes_member(fs[j].0@, fs[j].1, gs[kept_before(fs, j, root)].1)
}

/// Whether `b` is the normalized form of the schema `a`.
pub open spec fn normalizes_schema(a: Json, b: Json) -> bool {
    match a {
        Json::Object(fs) => b matches Json::Object(gs) && {
            let n = kept_before(fs@, fs@.len() as int, true);
            let add = !(exists|j: int| 0 <= j < fs@.len() && (#[trigger] fs@[j]).0@ == "properties"@);
            &&& gs@.len() == n + (if add { 1int } else { 0int })
            &&& members_normalize(fs@, gs@, true)
            &&& add ==> (gs@[n].0@ == "properties"@ && (gs@[n].1 matches Json::Object(e) && e@.len() == 0))
        },
        _ => normalizes(a, b),
    }
}

proof fn lemma_members_push(fs: Seq<(String, Json)>, gs: Seq<(String, Json)>, x: (String, Json), root: bool)
    requires
        members_normalize(fs, gs, root),
        gs.len() == kept_before(fs, fs.len() as int, root),
    ensures
        members_normalize(fs, gs.push(x), root),
{
    reveal(members_normalize);
    assert forall|j: int| 0 <= j < fs.len() && !dropped((#[trigger] fs[j]).0@, root) implies
        gs.push(x)[kept_before(fs, j, root)] === gs[kept_before(fs, j, root)] by {
        lemma_kept_before_grows(fs, j, fs.len() as int, root);
    }
}

fn is_null_text_exec(v: &Json) -> (r: bool)
    ensures
        r == is_null_text(*v),
{
    match v {
        Json::Str(s) => str_eq(s.as_str(), "null"),
        _ => false,
    }
}

fn dropped_exec(k: &String, root: bool) -> (r: bool)
    ensures
        r == dropped(k@, root),
{
    str_eq(k.as_str(), "$schema") || str_eq(k.as_str(), "format") || str_eq(k.as_str(), "assertionLine")
        || str_eq(k.as_str(), "default") || (root && (str_eq(k.as_str(), "description") || str_eq(k.as_str(), "title")))
}

proof fn lemma_kept_before_nonneg(fs: Seq<(String, Json)>, j: int, root: bool)
    ensures
        0 <= kept_before(fs, j, root),
    decreases j,
{
    if j > 0 {
        lemma_kept_before_nonneg(fs, j - 1, root);
    }
}

proof fn lemma_non_null_before_nonneg(xs: Seq<Json>, j: int)
    ensures
        0 <= non_null_before(xs, j),
    decreases j,
{
    if j > 0 {
        lemma_non_null_before_nonneg(xs, j - 1);
    }
}

proof fn lemma_kept_before_grows(fs: Seq<(String, Json)>, j: int, k: int, root: bool)
    requires
        0 <= j <= k,
    ensures
        0 <= kept_before(fs, j, root),
        kept_before(fs, j, root) <= kept_before(fs, k, root),
        j < k && !dropped(fs[j].0@, root) ==> kept_before(fs, j, root) < kept_before(fs, k, root),
    decreases k - j,
{
    lemma_kept_before_nonneg(fs, j, root);
    if j < k {
        lemma_kept_before_grows(fs, j, k - 1, root);
        if j < k - 1 && !dropped(fs[j].0@, root) {
            assert(kept_before(fs, j, root) < kept_before(fs, k - 1, root));
        }
    }
}

proof fn lemma_non_null_before_grows(xs: Seq<Json>, j: int, k: int)
    requires
        0 <= j <= k,
    ensures
        0 <= non_null_before(xs, j),
        non_null_before(xs, j) <= non_null_before(xs, k),
        j < k && !(xs[j] is Null) ==> non_null_before(xs, j) < non_null_before(xs, k),
    decreases k - j,
{
    lemma_non_null_before_nonneg(xs, j);
    if j < k {
        lemma_non_null_before_grows(xs, j, k - 1);
        if j < k - 1 && !(xs[j] is Null) {
            assert(non_null_before(xs, j) < non_null_before(xs, k - 1));
        }
    }
}

/// Normalize each value of an array.
fn normalize_all(xs: Vec<Json>) -> (ys: Vec<Json>)
    ensures
        ys@.len() == xs@.len(),
        forall|m: int| 0 <= m < xs@.len() ==> normalizes(#[trigger] xs@[m], ys@[m]),
    decreases xs, 0int,
{
    let ghost gxs = xs;
    let ghost orig = xs@;
    let n = xs.len();
    let mut rest = xs;
    let mut ys: Vec<Json> = Vec::new();
    let mut i: usize = 0;
    while rest.len() > 0
        invariant
            xs == gxs,
            gxs@ == orig,
            orig.len() == n,
            i <= n,
            rest@ == orig.subrange(i as int, n as int),
            rest@.len() == n - i,
            ys@.len() == i,
            forall|m: int| 0 <= m < i ==> normalizes(#[trigger] orig[m], ys@[m]),
        decreases rest@.len(),
    {
        let x = rest.remove(0);
        assert(x == orig[i as int]);
        proof {
            assert(decreases_to!(gxs => gxs@));
            assert(decreases_to!(gxs@ => gxs@[i as int]));
            assert(decreases_to!(gxs => x));
        }
        let y = normalize_value(x);
        ys.push(y);
        i += 1;
    }
    ys
}

/// Normalize the values of an array that are not JSON `null`, dropping
/// the `null`s.
fn normalize_non_null(xs: Vec<Json>) -> (ys: Vec<Json>)
    ensures
        ys@.len() == non_null_before(xs@, xs@.len() as int),
        forall|m: int| 0 <= m < xs@.len() && !((#[trigger] xs@[m]) is Null) ==>
            normalizes(xs@[m], ys@[non_null_before(xs@, m)]),
    decreases xs, 0int,
{
    let ghost gxs = xs;
    let ghost orig = xs@;
    let n = xs.len();
    let mut rest = xs;
    let mut ys: Vec<Json> = Vec::new();
    let mut i: usize = 0;
    while rest.len() > 0
        invariant
            xs == gxs,
            gxs@ == orig,
            orig.len() == n,
            i <= n,
            rest@ == orig.subrange(i as int, n as int),
            rest@.len() == n - i,
            ys@.len() == non_null_before(orig, i as int),
            forall|m: int| 0 <= m < i && !((#[trigger] orig[m]) is Null) ==>
                normalizes(orig[m], ys@[non_null_before(orig, m)]),
        decreases rest@.len(),
    {
        let x = rest.remove(0);
        assert(x == orig[i as int]);
        proof {
            assert(decreases_to!(gxs => gxs@));
            assert(decreases_to!(gxs@ => gxs@[i as int]));
            assert(decreases_to!(gxs => x));
        }
        let ghost before = ys@;
        let is_null = match &x {
            Json::Null => true,
            _ => false,
        };
        if !is_null {
            let y = normalize_value(x);
            assert(normalizes(orig[i as int], y));
            ys.push(y);
            assert(ys@[non_null_before(orig, i as int)] === y);
        }
        assert(forall|t: int| #![trigger ys@[t]] 0 <= t < before.len() ==> ys@[t] === before[t]);
        proof {
            assert(ys@.len() == non_null_before(orig, i as int + 1));
            assert forall|m: int| 0 <= m < i + 1 && !((#[trigger] orig[m]) is Null) implies
                normalizes(orig[m], ys@[non_null_before(orig, m)]) by {
                if m < i {
                    lemma_non_null_before_grows(orig, m, i as int);
                }
            }
        }
        i += 1;
    }
    ys
}

/// Normalize a value below the root of a schema.
fn normalize_value(v: Json) -> (r: Json)
    ensures
        normalizes(v, r),
    decreases v, 1int,
{
    let ghost gv = v;
    match v {
        Json::Array(xs) => {
            let ghost gxs = xs;
            proof {
                assert(decreases_to!(gv => gv->Array_0));
            }
            let ys = normalize_all(xs);
            let r = Json::Array(ys);
            assert(gv == Json::Array(gxs));
            assert(forall|i: int| 0 <= i < gxs@.len() ==> normalizes(#[trigger] gxs@[i], ys@[i]));
            assert(normalizes(gv, r));
            r
        },
        Json::Object(fs) => {
            let gs = normalize_members(fs, false, Ghost(gv));
            let r = Json::Object(gs);
            proof {
                reveal(members_normalize);
            }
            r
        },
        other => {
            assert(normalizes(gv, other));
            other
        },
    }
}

/// Normalize the members of an object, dropping those a level drops.
fn normalize_members(fs: Vec<(String, Json)>, root: bool, Ghost(parent): Ghost<Json>) -> (gs: Vec<(String, Json)>)
    requires
        parent == Json::Object(fs),
    ensures
        gs@.len() == kept_before(fs@, fs@.len() as int, root),
        members_normalize(fs@, gs@, root),
    decreases parent, 0int,
{
    let ghost gfs = fs;
    let ghost orig = fs@;
    let n = fs.len();
    let mut rest = fs;
    let mut gs: Vec<(String, Json)> = Vec::new();
    let mut i: usize = 0;
    while rest.len() > 0
        invariant
            fs == gfs,
            parent == Json::Object(gfs),
            gfs@ == orig,
            orig.len() == n,
            i <= n,
            rest@ == orig.subrange(i as int, n as int),
            rest@.len() == n - i,
            gs@.len() == kept_before(orig, i as int, root),
            forall|j: int| 0 <= j < i && !dropped((#[trigger] orig[j]).0@, root) ==>
                gs@[kept_before(orig, j, root)].0@ == orig[j].0@
                && normalizes_member(orig[j].0@, orig[j].1, gs@[kept_before(orig, j, root)].1),
        decreases rest@.len(),
    {
        let (k, x) = rest.remove(0);
        assert((k, x) == orig[i as int]);
        proof {
            assert(parent->Object_0 == gfs);
            assert(decreases_to!(parent => parent->Object_0));
            assert(decreases_to!(gfs => gfs@));
            assert(decreases_to!(gfs@ => gfs@[i as int]));
            assert(decreases_to!(gfs@[i as int] => gfs@[i as int].1));
            assert(decreases_to!(parent => x));
        }
        let ghost before = gs@;
        if !dropped_exec(&k, root) {
            let y = normalize_member(&k, x);
            gs.push((k, y));
        }
        assert(forall|t: int| #![trigger gs@[t]] 0 <= t < before.len() ==> gs@[t] === before[t]);
        proof {
            assert forall|j: int| 0 <= j < i + 1 && !dropped((#[trigger] orig[j]).0@, root) implies
                gs@[kept_before(orig, j, root)].0@ == orig[j].0@
                && normalizes_member(orig[j].0@, orig[j].1, gs@[kept_before(orig, j, root)].1) by {
                if j < i {
                    lemma_kept_before_grows(orig, j, i as int, root);
                }
            }
        }
        i += 1;
    }
    proof {
        reveal(members_normalize);
    }
    gs
}

/// Normalize the value of the member `k`.
fn normalize_member(k: &String, x: Json) -> (y: Json)
    ensures
        normalizes_member(k@, x, y),
    decreases x, 2int,
{
    let ghost gx = x;
    let is_type = str_eq(k.as_str(), "type");
    let is_enum = str_eq(k.as_str(), "enum");
    match x {
        Json::Array(mut ts) => {
            proof {
                assert(gx->Array_0 == ts);
                assert(decreases_to!(gx => gx->Array_0));
            }
            if is_type && ts.len() == 2 && (is_null_text_exec(&ts[0]) || is_null_text_exec(&ts[1]))
                && !(is_null_text_exec(&ts[0]) && is_null_text_exec(&ts[1])) {
                let ghost gts = ts;
                let first_is_null = is_null_text_exec(&ts[0]);
                let picked = if !first_is_null { ts.remove(0) } else { ts.remove(1) };
                proof {
                    assert(decreases_to!(gts => gts@));
                    assert(decreases_to!(gts@ => gts@[0]));
                    assert(decreases_to!(gts@ => gts@[1]));
                    assert(decreases_to!(gx => picked));
                }
                normalize_value(picked)
            } else if is_enum {
                let ys = normalize_non_null(ts);
                Json::Array(ys)
            } else {
                let ys = normalize_all(ts);
                let y = Json::Array(ys);
                assert(normalizes(gx, y));
                y
            }
        },
        other => normalize_value(other),
    }
}

/// Normalize a schema: drop the root's `title` and `description`, make sure
/// the root has `properties`, then normalize every level.
pub fn normalize_schema(schema: Json) -> (r: Json)
    ensures
        normalizes_schema(schema, r),
{
    let ghost gs0 = schema;
    match schema {
        Json::Object(fs) => {
            let mut has_properties = false;
            let mut i: usize = 0;
            while i < fs.len()
                invariant
                    i <= fs@.len(),
                    has_properties == exists|j: int| 0 <= j < i && (#[trigger] fs@[j]).0@ == "properties"@,
                decreases fs@.len() - i,
            {
                if str_eq(fs[i].0.as_str(), "properties") {
                    has_properties = true;
                }
                i += 1;
            }
            let ghost orig = fs@;
            let mut gs = normalize_members(fs, true, Ghost(gs0));
            let ghost before = gs@;
            if !has_properties {
                let p = (string_of("properties"), Json::Object(Vec::new()));
                proof {
                    lemma_members_push(orig, before, p, true);
                }
                gs.push(p);
            }
            Json::Object(gs)
        },
        other => normalize_value(other),
    }
}

} // verus!

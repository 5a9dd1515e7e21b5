//! Permission map for auto-approving proposed changes.
//!
//! A key names a `(target, operation)` pair where either side may be the
//! wildcard `*`. The wire form of a key is the flat string
//! `"target:operation"`.

use vstd::prelude::*;
use crate::labels::{
    ChangeOperation, TargetKind, UnknownLabel, operation_label, target_label, is_plain_label,
    lemma_operation_label_facts, lemma_target_label_facts,
};
use crate::text::{chars_of, find_char, string_from_range, string_of, append_str, occurs_in};

verus! {

/// Typed key for a permission entry. `None` means wildcard (`*`).
#[derive(Debug, Clone, Copy, PartialEq, Eq, Structural)]
pub struct PermissionKey {
    pub target: Option<TargetKind>,
    pub operation: Option<ChangeOperation>,
}

impl PermissionKey {
    pub fn new(target: Option<TargetKind>, operation: Option<ChangeOperation>) -> (k: Self)
        ensures
            k.target == target,
            k.operation == operation,
    {
        PermissionKey { target, operation }
    }

    /// Exact (non-wildcard) key for a `(target, operation)` pair.
    pub fn exact(target: TargetKind, operation: ChangeOperation) -> (k: Self)
        ensures
            k.target == Some(target),
            k.operation == Some(operation),
    {
        Self::new(Some(target), Some(operation))
    }

    /// The wire form `"target:operation"`, with `*` for a wildcard side.
    pub fn to_string(&self) -> (s: String)
        ensures
            s@ == key_text(*self),
    {
        let mut s = match self.target {
            Some(t) => string_of(t.as_str()),
            None => string_of("*"),
        };
        append_str(&mut s, ":");
        match self.operation {
            Some(o) => append_str(&mut s, o.as_str()),
            None => append_str(&mut s, "*"),
        }
        s
    }

    /// Parse the wire form `"target:operation"`.
    ///
    /// The text before the first `:` names the target and the rest names the
    /// operation; both must be non-empty, and each is `*` or a known label.
    pub fn from_str(s: &str) -> (r: Result<PermissionKey, PermissionKeyParseError>)
        ensures
            match r {
                Ok(k) => parse_key_spec(s@) == Ok::<PermissionKey, KeyErrorKind>(k),
                Err(PermissionKeyParseError::InvalidFormat(text)) =>
                    parse_key_spec(s@) == Err::<PermissionKey, KeyErrorKind>(KeyErrorKind::InvalidFormat) && text@ == s@,
                Err(PermissionKeyParseError::UnknownTarget(e)) =>
                    parse_key_spec(s@) == Err::<PermissionKey, KeyErrorKind>(KeyErrorKind::UnknownTarget)
                        && e.label@ == key_parts(s@).0,
                Err(PermissionKeyParseError::UnknownOperation(e)) =>
                    parse_key_spec(s@) == Err::<PermissionKey, KeyErrorKind>(KeyErrorKind::UnknownOperation)
                        && e.label@ == key_parts(s@).1,
            },
    {
        let chars = chars_of(s);
        let colon = find_char(&chars, ':');
        let target_str;
        let operation_str;
        match colon {
            Some(i) => {
                proof { lemma_first_colon_is(s@, i as int); }
                assert(i < chars.len());
                target_str = string_from_range(&chars, 0, i);
                operation_str = string_from_range(&chars, i + 1, chars.len());
            },
            None => {
                target_str = string_from_range(&chars, 0, chars.len());
                operation_str = String::new();
                assert(chars@.subrange(0, chars@.len() as int) =~= s@);
            },
        }
        assert(target_str@ == key_parts(s@).0);
        assert(operation_str@ == key_parts(s@).1);
        if target_str.unicode_len() == 0 || operation_str.unicode_len() == 0 {
            return Err(PermissionKeyParseError::InvalidFormat(string_of(s)));
        }
        let target = if crate::text::str_eq(target_str.as_str(), "*") {
            None
        } else {
            match TargetKind::from_str(target_str.as_str()) {
                Ok(t) => {
                    proof { lemma_target_label_facts(); }
                    Some(t)
                },
                Err(e) => {
                    return Err(PermissionKeyParseError::UnknownTarget(e));
                },
            }
        };
        let operation = if crate::text::str_eq(operation_str.as_str(), "*") {
            None
        } else {
            match ChangeOperation::from_str(operation_str.as_str()) {
                Ok(o) => {
                    proof { lemma_operation_label_facts(); }
                    Some(o)
                },
                Err(e) => {
                    return Err(PermissionKeyParseError::UnknownOperation(e));
                },
            }
        };
        Ok(PermissionKey { target, operation })
    }
}

/// Kinds of permission-key parse failure, as the contracts speak of them.
pub enum KeyErrorKind {
    InvalidFormat,
    UnknownTarget,
    UnknownOperation,
}

/// `i` is the first `:` of `s`.
proof fn lemma_first_colon_is(s: Seq<char>, i: int)
    requires
        0 <= i < s.len(),
        s[i] == ':',
        !occurs_in(s.subrange(0, i), ':'),
    ensures
        first_colon(s) == Some(i),
{
    assert(occurs_in(s, ':'));
    let j = choose|j: int| 0 <= j < s.len() && s[j] == ':' && !occurs_in(s.subrange(0, j), ':');
    if j < i {
        assert(s.subrange(0, i)[j] == ':');
    } else if i < j {
        assert(s.subrange(0, j)[i] == ':');
    }
}

/// Why a permission key failed to parse.
#[derive(Debug)]
pub enum PermissionKeyParseError {
    /// The text is not `target:operation` with both sides non-empty.
    InvalidFormat(String),
    /// The target side names no known target kind.
    UnknownTarget(UnknownLabel),
    /// The operation side names no known operation.
    UnknownOperation(UnknownLabel),
}

/// Wire text of one side of a key.
pub open spec fn side_text<T>(side: Option<T>, label: spec_fn(T) -> Seq<char>) -> Seq<char> {
    match side {
        Some(v) => label(v),
        None => "*"@,
    }
}

/// The wire form of a permission key.
pub open spec fn key_text(k: PermissionKey) -> Seq<char> {
    side_text(k.target, |t: TargetKind| target_label(t)) + ":"@
        + side_text(k.operation, |o: ChangeOperation| operation_label(o))
}

/// Index of the first `:` in `s`, if any.
pub open spec fn first_colon(s: Seq<char>) -> Option<int> {
    if occurs_in(s, ':') {
        Some(choose|i: int| 0 <= i < s.len() && s[i] == ':' && !occurs_in(s.subrange(0, i), ':'))
    } else {
        None
    }
}

/// The target and operation parts of a key text: split at the first `:`.
pub open spec fn key_parts(s: Seq<char>) -> (Seq<char>, Seq<char>) {
    match first_colon(s) {
        Some(i) => (s.subrange(0, i), s.subrange(i + 1, s.len() as int)),
        None => (s, Seq::empty()),
    }
}

/// The result of parsing `s` as a permission key.
pub open spec fn parse_key_spec(s: Seq<char>) -> Result<PermissionKey, KeyErrorKind> {
    let (t, o) = key_parts(s);
    if t.len() == 0 || o.len() == 0 {
        Err(KeyErrorKind::InvalidFormat)
    } else if t != "*"@ && (forall|k: TargetKind| target_label(k) != t) {
        Err(KeyErrorKind::UnknownTarget)
    } else if o != "*"@ && (forall|k: ChangeOperation| operation_label(k) != o) {
        Err(KeyErrorKind::UnknownOperation)
    } else {
        Ok(PermissionKey {
            target: if t == "*"@ { None } else { Some(choose|k: TargetKind| target_label(k) == t) },
            operation: if o == "*"@ { None } else { Some(choose|k: ChangeOperation| operation_label(k) == o) },
        })
    }
}


/// A wildcard side or a plain label has no `:` and is not empty.
proof fn lemma_side_text_no_colon(s: Seq<char>)
    requires
        s == "*"@ || is_plain_label(s),
    ensures
        s.len() > 0,
        !occurs_in(s, ':'),
        is_plain_label(s) ==> s != "*"@,
{
    reveal_strlit("*");
    if is_plain_label(s) {
        if occurs_in(s, ':') {
            let i = choose|i: int| 0 <= i < s.len() && s[i] == ':';
            assert(('a' <= s[i] <= 'z') || s[i] == '_');
        }
        if s == "*"@ {
            assert(('a' <= s[0] <= 'z') || s[0] == '_');
        }
    } else {
        assert(s =~= seq!['*']);
    }
}

/// Parsing the wire form of a key gives the key back.
pub proof fn lemma_key_text_round_trip(k: PermissionKey)
    ensures
        parse_key_spec(key_text(k)) == Ok::<PermissionKey, KeyErrorKind>(k),
{
    lemma_target_label_facts();
    lemma_operation_label_facts();
    reveal_strlit(":");
    let t = side_text(k.target, |x: TargetKind| target_label(x));
    let o = side_text(k.operation, |x: ChangeOperation| operation_label(x));
    lemma_side_text_no_colon(t);
    lemma_side_text_no_colon(o);
    let s = key_text(k);
    assert(s =~= t + seq![':'] + o);
    assert(s.subrange(0, t.len() as int) =~= t);
    assert(s.subrange(t.len() as int + 1, s.len() as int) =~= o);
    lemma_first_colon_is(s, t.len() as int);
    assert(key_parts(s) == (t, o));
    match k.target {
        Some(x) => {
            assert(target_label(x) == t);
        },
        None => {},
    }
    match k.operation {
        Some(x) => {
            assert(operation_label(x) == o);
        },
        None => {},
    }
}

/// Permission map for auto-approving proposed changes.
///
/// Each key occurs at most once; the map view sends a key to its configured
/// value.
#[derive(Debug)]
pub struct Permissions {
    allow: Vec<(PermissionKey, bool)>,
}

/// The keys of `entries` are pairwise distinct.
pub open spec fn distinct_keys(entries: Seq<(PermissionKey, bool)>) -> bool {
    forall|i: int, j: int| 0 <= i < j < entries.len() ==> #[trigger] entries[i].0 != #[trigger] entries[j].0
}

/// The key/value map held by `entries`.
pub open spec fn entries_map(entries: Seq<(PermissionKey, bool)>) -> Map<PermissionKey, bool> {
    Map::new(
        |k: PermissionKey| exists|i: int| 0 <= i < entries.len() && entries[i].0 == k,
        |k: PermissionKey| entries[choose|i: int| 0 <= i < entries.len() && entries[i].0 == k].1,
    )
}

impl View for Permissions {
    type V = Map<PermissionKey, bool>;

    closed spec fn view(&self) -> Map<PermissionKey, bool> {
        entries_map(self.allow@)
    }
}

/// The configured value for `(target, operation)`, checking the exact key,
/// then `target:*`, then `*:operation`, then `*:*`.
pub open spec fn resolve_spec(m: Map<PermissionKey, bool>, target: TargetKind, operation: ChangeOperation) -> Option<bool> {
    let k1 = PermissionKey { target: Some(target), operation: Some(operation) };
    let k2 = PermissionKey { target: Some(target), operation: None };
    let k3 = PermissionKey { target: None, operation: Some(operation) };
    let k4 = PermissionKey { target: None, operation: None };
    if m.contains_key(k1) {
        Some(m[k1])
    } else if m.contains_key(k2) {
        Some(m[k2])
    } else if m.contains_key(k3) {
        Some(m[k3])
    } else if m.contains_key(k4) {
        Some(m[k4])
    } else {
        None
    }
}

impl Permissions {
    #[verifier::type_invariant]
    spec fn inv(self) -> bool {
        distinct_keys(self.allow@)
    }

    /// The entries as `(key, allowed)` pairs.
    pub fn entries(&self) -> (r: &Vec<(PermissionKey, bool)>)
        ensures
            entries_map(r@) == self@,
            distinct_keys(r@),
    {
        proof { use_type_invariant(self); }
        &self.allow
    }

    fn lookup(&self, key: PermissionKey) -> (r: Option<bool>)
        ensures
            r == (if self@.contains_key(key) { Some(self@[key]) } else { None::<bool> }),
    {
        proof { use_type_invariant(self); }
        let mut i: usize = 0;
        while i < self.allow.len()
            invariant
                i <= self.allow@.len(),
                distinct_keys(self.allow@),
                forall|j: int| 0 <= j < i ==> self.allow@[j].0 != key,
            decreases self.allow@.len() - i,
        {
            if self.allow[i].0 == key {
                proof {
                    let c = choose|j: int| 0 <= j < self.allow@.len() && self.allow@[j].0 == key;
                    if c != i {
                        if c < i { assert(self.allow@[c].0 != self.allow@[i as int].0); }
                        else { assert(self.allow@[i as int].0 != self.allow@[c].0); }
                    }
                }
                return Some(self.allow[i].1);
            }
            i = i + 1;
        }
        None
    }

    /// Returns the explicitly configured value for a `(target, operation)`
    /// pair, checking wildcard patterns from most specific to least specific.
    pub fn resolve(&self, target: TargetKind, operation: ChangeOperation) -> (r: Option<bool>)
        ensures
            r == resolve_spec(self@, target, operation),
    {
        if let Some(allowed) = self.lookup(PermissionKey::exact(target, operation)) {
            return Some(allowed);
        }
        if let Some(allowed) = self.lookup(PermissionKey::new(Some(target), None)) {
            return Some(allowed);
        }
        if let Some(allowed) = self.lookup(PermissionKey::new(None, Some(operation))) {
            return Some(allowed);
        }
        if let Some(allowed) = self.lookup(PermissionKey::new(None, None)) {
            return Some(allowed);
        }
        None
    }

    /// Whether the pair is allowed; unconfigured pairs are not.
    pub fn is_allowed(&self, target: TargetKind, operation: ChangeOperation) -> (r: bool)
        ensures
            r == (resolve_spec(self@, target, operation) == Some(true)),
    {
        match self.resolve(target, operation) {
            Some(b) => b,
            None => false,
        }
    }

    /// Configure `target:operation` (either side may be a wildcard).
    pub fn set(&mut self, target: Option<TargetKind>, operation: Option<ChangeOperation>, allowed: bool)
        ensures
            final(self)@ == old(self)@.insert(PermissionKey { target, operation }, allowed),
    {
        proof { use_type_invariant(&*self); }
        let key = PermissionKey::new(target, operation);
        let ghost old_allow = self.allow@;
        let mut found: Option<usize> = None;
        let mut i: usize = 0;
        while i < self.allow.len()
            invariant_except_break
                found.is_none(),
            invariant
                i <= self.allow@.len(),
                self.allow@ == old_allow,
                distinct_keys(old_allow),
                forall|j: int| 0 <= j < i ==> self.allow@[j].0 != key,
            ensures
                self.allow@ == old_allow,
                match found {
                    Some(f) => f < old_allow.len() && old_allow[f as int].0 == key,
                    None => forall|j: int| 0 <= j < old_allow.len() ==> old_allow[j].0 != key,
                },
            decreases self.allow@.len() - i,
        {
            if self.allow[i].0 == key {
                found = Some(i);
                break;
            }
            i = i + 1;
        }
        let mut allow: Vec<(PermissionKey, bool)> = Vec::new();
        std::mem::swap(&mut allow, &mut self.allow);
        match found {
            Some(f) => {
                allow.set(f, (key, allowed));
                proof {
                    assert(distinct_keys(allow@)) by {
                        assert forall|a: int, b: int| 0 <= a < b < allow@.len() implies
                            #[trigger] allow@[a].0 != #[trigger] allow@[b].0 by {
                            assert(old_allow[a].0 != old_allow[b].0);
                        }
                    }
                    lemma_entries_map_update(old_allow, f as int, key, allowed);
                }
            },
            None => {
                allow.push((key, allowed));
                proof {
                    assert(distinct_keys(allow@)) by {
                        assert forall|a: int, b: int| 0 <= a < b < allow@.len() implies
                            #[trigger] allow@[a].0 != #[trigger] allow@[b].0 by {
                            if b < old_allow.len() {
                                assert(old_allow[a].0 != old_allow[b].0);
                            }
                        }
                    }
                    lemma_entries_map_push(old_allow, key, allowed);
                }
            },
        }
        self.allow = allow;
    }
}

impl Clone for Permissions {
    fn clone(&self) -> (r: Self)
        ensures
            r@ == self@,
    {
        proof { use_type_invariant(self); }
        let mut allow: Vec<(PermissionKey, bool)> = Vec::new();
        let mut i: usize = 0;
        while i < self.allow.len()
            invariant
                i <= self.allow@.len(),
                allow@ == self.allow@.subrange(0, i as int),
            decreases self.allow@.len() - i,
        {
            allow.push(self.allow[i]);
            i = i + 1;
            assert(allow@ =~= self.allow@.subrange(0, i as int));
        }
        assert(allow@ =~= self.allow@);
        Permissions { allow }
    }
}

impl Default for Permissions {
    fn default() -> (p: Self)
        ensures
            p@ == Map::<PermissionKey, bool>::empty(),
    {
        let p = Permissions { allow: Vec::new() };
        assert(p@ =~= Map::<PermissionKey, bool>::empty());
        p
    }
}

proof fn lemma_entries_map_update(entries: Seq<(PermissionKey, bool)>, i: int, key: PermissionKey, v: bool)
    requires
        distinct_keys(entries),
        0 <= i < entries.len(),
        entries[i].0 == key,
    ensures
        entries_map(entries.update(i, (key, v))) == entries_map(entries).insert(key, v),
{
    let e2 = entries.update(i, (key, v));
    let m1 = entries_map(e2);
    let m2 = entries_map(entries).insert(key, v);
    assert forall|k: PermissionKey| m1.contains_key(k) == m2.contains_key(k) by {
        if m2.contains_key(k) && k != key {
            let j = choose|j: int| 0 <= j < entries.len() && entries[j].0 == k;
            assert(e2[j].0 == k);
        }
        if k == key {
            assert(e2[i].0 == k);
        }
    }
    assert forall|k: PermissionKey| #[trigger] m1.contains_key(k) implies m1[k] == m2[k] by {
        let c = choose|j: int| 0 <= j < e2.len() && e2[j].0 == k;
        if k == key {
            if c != i {
                if c < i { assert(entries[c].0 != entries[i].0); } else { assert(entries[i].0 != entries[c].0); }
            }
        } else {
            assert(entries[c].0 == k);
            let d = choose|j: int| 0 <= j < entries.len() && entries[j].0 == k;
            if c != d {
                if c < d { assert(entries[c].0 != entries[d].0); } else { assert(entries[d].0 != entries[c].0); }
            }
        }
    }
    assert(m1 =~= m2);
}

proof fn lemma_entries_map_push(entries: Seq<(PermissionKey, bool)>, key: PermissionKey, v: bool)
    requires
        distinct_keys(entries),
        forall|j: int| 0 <= j < entries.len() ==> entries[j].0 != key,
    ensures
        entries_map(entries.push((key, v))) == entries_map(entries).insert(key, v),
{
    let e2 = entries.push((key, v));
    let m1 = entries_map(e2);
    let m2 = entries_map(entries).insert(key, v);
    assert forall|k: PermissionKey| m1.contains_key(k) == m2.contains_key(k) by {
        if m2.contains_key(k) && k != key {
            let j = choose|j: int| 0 <= j < entries.len() && entries[j].0 == k;
            assert(e2[j].0 == k);
        }
        if k == key {
            assert(e2[entries.len() as int].0 == k);
        }
        if m1.contains_key(k) && k != key {
            let j = choose|j: int| 0 <= j < e2.len() && e2[j].0 == k;
            assert(entries[j].0 == k);
        }
    }
    assert forall|k: PermissionKey| #[trigger] m1.contains_key(k) implies m1[k] == m2[k] by {
        let c = choose|j: int| 0 <= j < e2.len() && e2[j].0 == k;
        if k == key {
            assert(c == entries.len());
        } else {
            assert(entries[c].0 == k);
            let d = choose|j: int| 0 <= j < entries.len() && entries[j].0 == k;
            if c != d {
                if c < d { assert(entries[c].0 != entries[d].0); } else { assert(entries[d].0 != entries[c].0); }
            }
        }
    }
    assert(m1 =~= m2);
}

} // verus!

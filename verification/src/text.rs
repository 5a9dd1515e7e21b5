//! Character-level string helpers shared by the templates and parsers.
//!
//! Strings are reasoned about through their `Seq<char>` views; these helpers
//! move between `&str`, `String` and `Vec<char>` with exact contracts.

use vstd::prelude::*;
use vstd::string::*;

verus! {

/// `std::string::String::push`: appends one character.
#[verifier::external_body]
pub(crate) fn push_char(s: &mut String, c: char)
    ensures
        final(s)@ == old(s)@.push(c),
{
    s.push(c);
}

/// Whether `c` has the Unicode `White_Space` property, which is what
/// `char::is_whitespace` tests: U+0009..=U+000D, U+0020, U+0085, U+00A0,
/// U+1680, U+2000..=U+200A, U+2028, U+2029, U+202F, U+205F and U+3000.
pub open spec fn is_whitespace_char(c: char) -> bool {
    let u = c as u32;
    (0x9 <= u <= 0xD) || u == 0x20 || u == 0x85 || u == 0xA0 || u == 0x1680
        || (0x2000 <= u <= 0x200A) || u == 0x2028 || u == 0x2029 || u == 0x202F
        || u == 0x205F || u == 0x3000
}

/// Whether `c` is whitespace (the `White_Space` property).
pub fn char_is_whitespace(c: char) -> (r: bool)
    ensures
        r == is_whitespace_char(c),
{
    let u = c as u32;
    (0x9 <= u && u <= 0xD) || u == 0x20 || u == 0x85 || u == 0xA0 || u == 0x1680
        || (0x2000 <= u && u <= 0x200A) || u == 0x2028 || u == 0x2029 || u == 0x202F
        || u == 0x205F || u == 0x3000
}

/// Whether `c` is alphanumeric in the sense of `char::is_alphanumeric`.
pub uninterp spec fn is_alphanumeric_char(c: char) -> bool;

/// `char::is_alphanumeric`: true for characters of the Unicode `Alphabetic`
/// property or of a numeric general category. Beside the name, only these
/// facts are stated: ASCII letters and digits are alphanumeric; `_`, the
/// space and `:` are not.
#[verifier::external_body]
pub(crate) fn char_is_alphanumeric(c: char) -> (r: bool)
    ensures
        r == is_alphanumeric_char(c),
        ('a' <= c <= 'z' || 'A' <= c <= 'Z' || '0' <= c <= '9') ==> r,
        (c == '_' || c == ' ' || c == ':') ==> !r,
{
    c.is_alphanumeric()
}

/// The characters of `s`, in order.
pub fn chars_of(s: &str) -> (v: Vec<char>)
    ensures
        v@ == s@,
{
    let n = s.unicode_len();
    let mut v: Vec<char> = Vec::new();
    let mut i: usize = 0;
    while i < n
        invariant
            n == s@.len(),
            i <= n,
            v@ == s@.subrange(0, i as int),
        decreases n - i,
    {
        let c = s.get_char(i);
        v.push(c);
        i = i + 1;
        assert(v@ =~= s@.subrange(0, i as int));
    }
    assert(v@ =~= s@);
    v
}

/// A `String` holding exactly the characters `v[from..to]`.
pub fn string_from_range(v: &Vec<char>, from: usize, to: usize) -> (s: String)
    requires
        from <= to <= v@.len(),
    ensures
        s@ == v@.subrange(from as int, to as int),
{
    let mut s = String::new();
    let mut i = from;
    while i < to
        invariant
            from <= i <= to,
            to <= v@.len(),
            s@ == v@.subrange(from as int, i as int),
        decreases to - i,
    {
        push_char(&mut s, v[i]);
        i = i + 1;
        assert(s@ =~= v@.subrange(from as int, i as int));
    }
    s
}

/// A `String` holding exactly the characters of `v`.
pub fn string_from_chars(v: &Vec<char>) -> (s: String)
    ensures
        s@ == v@,
{
    let s = string_from_range(v, 0, v.len());
    assert(v@.subrange(0, v@.len() as int) =~= v@);
    s
}

/// A fresh `String` copy of `s`.
pub fn string_of(s: &str) -> (r: String)
    ensures
        r@ == s@,
{
    String::from_str(s)
}

/// Appends `t` to `s`.
pub fn append_str(s: &mut String, t: &str)
    ensures
        final(s)@ == old(s)@ + t@,
{
    s.append(t);
}

/// Whether two character sequences are equal.
pub fn chars_eq(a: &Vec<char>, b: &Vec<char>) -> (r: bool)
    ensures
        r == (a@ == b@),
{
    if a.len() != b.len() {
        return false;
    }
    let mut i: usize = 0;
    while i < a.len()
        invariant
            a@.len() == b@.len(),
            i <= a@.len(),
            forall|j: int| 0 <= j < i ==> a@[j] == b@[j],
        decreases a@.len() - i,
    {
        if a[i] != b[i] {
            return false;
        }
        i = i + 1;
    }
    assert(a@ =~= b@);
    true
}

/// Whether `s` equals the literal `lit`.
pub fn str_eq(s: &str, lit: &str) -> (r: bool)
    ensures
        r == (s@ == lit@),
{
    let a = chars_of(s);
    let b = chars_of(lit);
    chars_eq(&a, &b)
}

/// Whether the characters of `v[from..]` equal `lit`.
pub fn range_eq(v: &Vec<char>, from: usize, to: usize, lit: &Vec<char>) -> (r: bool)
    requires
        from <= to <= v@.len(),
    ensures
        r == (v@.subrange(from as int, to as int) == lit@),
{
    if to - from != lit.len() {
        return false;
    }
    let mut i: usize = 0;
    while i < lit.len()
        invariant
            to - from == lit@.len(),
            from <= to <= v@.len(),
            i <= lit@.len(),
            forall|j: int| 0 <= j < i ==> v@[from + j] == lit@[j],
        decreases lit@.len() - i,
    {
        if v[from + i] != lit[i] {
            assert(v@.subrange(from as int, to as int)[i as int] != lit@[i as int]);
            return false;
        }
        i = i + 1;
    }
    assert(v@.subrange(from as int, to as int) =~= lit@);
    true
}

/// Whether `c` occurs in `s[from..to]`.
pub open spec fn occurs_in(s: Seq<char>, c: char) -> bool {
    exists|i: int| 0 <= i < s.len() && s[i] == c
}

/// Index of the first occurrence of `c` in `v`, if any.
pub fn find_char(v: &Vec<char>, c: char) -> (r: Option<usize>)
    ensures
        match r {
            Some(i) => i < v@.len() && v@[i as int] == c && !occurs_in(v@.subrange(0, i as int), c),
            None => !occurs_in(v@, c),
        },
{
    let mut i: usize = 0;
    while i < v.len()
        invariant
            i <= v@.len(),
            forall|j: int| 0 <= j < i ==> v@[j] != c,
        decreases v@.len() - i,
    {
        if v[i] == c {
            return Some(i);
        }
        i = i + 1;
    }
    None
}

/// The decimal digits of a natural number, most significant first.
pub open spec fn nat_digits(n: nat) -> Seq<char>
    decreases n,
{
    if n < 10 {
        seq![digit_char(n)]
    } else {
        nat_digits(n / 10).push(digit_char(n % 10))
    }
}

/// The character of a single decimal digit.
pub open spec fn digit_char(d: nat) -> char {
    if d == 0 { '0' }
    else if d == 1 { '1' }
    else if d == 2 { '2' }
    else if d == 3 { '3' }
    else if d == 4 { '4' }
    else if d == 5 { '5' }
    else if d == 6 { '6' }
    else if d == 7 { '7' }
    else if d == 8 { '8' }
    else { '9' }
}

/// Decimal rendering of an integer, with a leading `-` for negatives.
pub open spec fn int_digits(i: int) -> Seq<char> {
    if i < 0 {
        seq!['-'] + nat_digits((-i) as nat)
    } else {
        nat_digits(i as nat)
    }
}

fn digit_of(d: u64) -> (c: char)
    requires
        d < 10,
    ensures
        c == digit_char(d as nat),
{
    if d == 0 { '0' }
    else if d == 1 { '1' }
    else if d == 2 { '2' }
    else if d == 3 { '3' }
    else if d == 4 { '4' }
    else if d == 5 { '5' }
    else if d == 6 { '6' }
    else if d == 7 { '7' }
    else if d == 8 { '8' }
    else { '9' }
}

/// Decimal rendering of an unsigned integer, as `u64::to_string` writes it.
pub fn u64_to_string(n: u64) -> (s: String)
    ensures
        s@ == nat_digits(n as nat),
    decreases n,
{
    if n < 10 {
        let mut s = String::new();
        push_char(&mut s, digit_of(n));
        assert(s@ =~= nat_digits(n as nat));
        s
    } else {
        let mut s = u64_to_string(n / 10);
        push_char(&mut s, digit_of(n % 10));
        s
    }
}

/// Decimal rendering of a signed integer, as `i64::to_string` writes it.
pub fn i64_to_string(i: i64) -> (s: String)
    ensures
        s@ == int_digits(i as int),
{
    if i < 0 {
        let magnitude: u64 = if i == i64::MIN {
            9223372036854775808u64
        } else {
            (-i) as u64
        };
        let digits = u64_to_string(magnitude);
        let mut s = String::new();
        push_char(&mut s, '-');
        append_str(&mut s, digits.as_str());
        assert(s@ =~= int_digits(i as int));
        s
    } else {
        u64_to_string(i as u64)
    }
}


/// First index at or after `a` whose character is not whitespace (or the
/// length).
pub open spec fn ws_end(s: Seq<char>, a: int) -> int
    decreases s.len() - a,
{
    if a < 0 || a >= s.len() || !is_whitespace_char(s[a]) {
        if a < 0 { 0 } else if a > s.len() { s.len() as int } else { a }
    } else {
        ws_end(s, a + 1)
    }
}

/// First index at or after `a` whose character is whitespace (or the
/// length).
pub open spec fn nonws_end(s: Seq<char>, a: int) -> int
    decreases s.len() - a,
{
    if a < 0 || a >= s.len() || is_whitespace_char(s[a]) {
        if a < 0 { 0 } else if a > s.len() { s.len() as int } else { a }
    } else {
        nonws_end(s, a + 1)
    }
}

/// `s` with its leading whitespace removed, as `str::trim_start` does.
pub open spec fn trim_start_spec(s: Seq<char>) -> Seq<char> {
    s.subrange(ws_end(s, 0), s.len() as int)
}

pub proof fn lemma_ws_end_at(s: Seq<char>, a: int, e: int)
    requires
        0 <= a <= e <= s.len(),
        forall|i: int| a <= i < e ==> is_whitespace_char(#[trigger] s[i]),
        e == s.len() || !is_whitespace_char(s[e]),
    ensures
        ws_end(s, a) == e,
    decreases e - a,
{
    if a < e {
        lemma_ws_end_at(s, a + 1, e);
    }
}

pub proof fn lemma_nonws_end_at(s: Seq<char>, a: int, e: int)
    requires
        0 <= a <= e <= s.len(),
        forall|i: int| a <= i < e ==> !is_whitespace_char(#[trigger] s[i]),
        e == s.len() || is_whitespace_char(s[e]),
    ensures
        nonws_end(s, a) == e,
    decreases e - a,
{
    if a < e {
        lemma_nonws_end_at(s, a + 1, e);
    }
}

/// Index of the first non-whitespace character at or after `from`.
pub fn skip_ws(v: &Vec<char>, from: usize) -> (r: usize)
    requires
        from <= v@.len(),
    ensures
        r == ws_end(v@, from as int),
        from <= r <= v@.len(),
{
    let mut i = from;
    while i < v.len() && char_is_whitespace(v[i])
        invariant
            from <= i <= v@.len(),
            forall|j: int| from <= j < i ==> is_whitespace_char(#[trigger] v@[j]),
        decreases v@.len() - i,
    {
        i = i + 1;
    }
    proof { lemma_ws_end_at(v@, from as int, i as int); }
    i
}

/// Index of the first whitespace character at or after `from`.
pub fn skip_nonws(v: &Vec<char>, from: usize) -> (r: usize)
    requires
        from <= v@.len(),
    ensures
        r == nonws_end(v@, from as int),
        from <= r <= v@.len(),
{
    let mut i = from;
    while i < v.len() && !char_is_whitespace(v[i])
        invariant
            from <= i <= v@.len(),
            forall|j: int| from <= j < i ==> !is_whitespace_char(#[trigger] v@[j]),
        decreases v@.len() - i,
    {
        i = i + 1;
    }
    proof { lemma_nonws_end_at(v@, from as int, i as int); }
    i
}

/// The text `str::to_lowercase` gives for `s`: the Unicode lowercase
/// mapping of each character, except that a capital sigma at the end of a
/// word becomes the final form `ς`.
pub uninterp spec fn lowercase(s: Seq<char>) -> Seq<char>;

/// `str::to_lowercase`. The result is named; it depends on the text alone.
#[verifier::external_body]
pub(crate) fn to_lowercase(s: &str) -> (r: String)
    ensures
        r@ == lowercase(s@),
{
    s.to_lowercase()
}

pub proof fn lemma_ws_end_bounds(s: Seq<char>, a: int)
    requires
        0 <= a <= s.len(),
    ensures
        a <= ws_end(s, a) <= s.len(),
        ws_end(s, a) < s.len() ==> !is_whitespace_char(s[ws_end(s, a)]),
    decreases s.len() - a,
{
    if a < s.len() && is_whitespace_char(s[a]) {
        lemma_ws_end_bounds(s, a + 1);
    }
}

pub proof fn lemma_nonws_end_bounds(s: Seq<char>, a: int)
    requires
        0 <= a <= s.len(),
    ensures
        a <= nonws_end(s, a) <= s.len(),
        a < s.len() && !is_whitespace_char(s[a]) ==> a < nonws_end(s, a),
    decreases s.len() - a,
{
    if a < s.len() && !is_whitespace_char(s[a]) {
        lemma_nonws_end_bounds(s, a + 1);
    }
}

/// The whitespace-separated words of `s` from index `a` on, as
/// `str::split_whitespace` yields them.
pub open spec fn words_from(s: Seq<char>, a: int) -> Seq<Seq<char>>
    decreases s.len() - a,
{
    if a < 0 || a >= s.len() {
        Seq::empty()
    } else {
        let b = ws_end(s, a);
        if b >= s.len() {
            Seq::empty()
        } else {
            proof {
                lemma_ws_end_bounds(s, a);
                lemma_nonws_end_bounds(s, b);
            }
            let e = nonws_end(s, b);
            seq![s.subrange(b, e)] + words_from(s, e)
        }
    }
}

pub open spec fn string_views(v: Seq<String>) -> Seq<Seq<char>> {
    v.map_values(|x: String| x@)
}

/// The whitespace-separated words of `s`.
pub fn split_words(s: &str) -> (r: Vec<String>)
    ensures
        string_views(r@) == words_from(s@, 0),
{
    let v = chars_of(s);
    let n = v.len();
    let mut out: Vec<String> = Vec::new();
    let mut i: usize = 0;
    while i < n
        invariant
            v@ == s@,
            n == v@.len(),
            i <= n,
            string_views(out@) + words_from(v@, i as int) == words_from(v@, 0),
        decreases n - i,
    {
        let b = skip_ws(&v, i);
        if b == n {
            assert(words_from(v@, i as int) =~= Seq::<Seq<char>>::empty());
            assert(words_from(v@, n as int) =~= Seq::<Seq<char>>::empty());
            i = n;
        } else {
            proof {
                lemma_ws_end_bounds(v@, i as int);
            }
            let e = skip_nonws(&v, b);
            let w = string_from_range(&v, b, e);
            let ghost before = string_views(out@);
            out.push(w);
            proof {
                assert(string_views(out@) =~= before.push(v@.subrange(b as int, e as int)));
                assert(words_from(v@, i as int) == seq![v@.subrange(b as int, e as int)] + words_from(v@, e as int));
                assert(string_views(out@) + words_from(v@, e as int) =~= before + words_from(v@, i as int));
            }
            i = e;
        }
    }
    assert(words_from(v@, n as int) =~= Seq::<Seq<char>>::empty());
    assert(string_views(out@) + words_from(v@, n as int) =~= string_views(out@));
    out
}

/// Index just past the last non-whitespace character before `b`, or 0.
pub open spec fn ws_start_back(s: Seq<char>, b: int) -> int
    decreases b,
{
    if b <= 0 {
        0
    } else if b > s.len() {
        s.len() as int
    } else if !is_whitespace_char(s[b - 1]) {
        b
    } else {
        ws_start_back(s, b - 1)
    }
}

/// `s` without its leading and trailing whitespace, as `str::trim` gives.
pub open spec fn trim_spec(s: Seq<char>) -> Seq<char> {
    let a = ws_end(s, 0);
    if a >= s.len() {
        Seq::empty()
    } else {
        s.subrange(a, ws_start_back(s, s.len() as int))
    }
}

/// The text without its leading and trailing whitespace.
pub fn trim_text(s: &str) -> (r: String)
    ensures
        r@ == trim_spec(s@),
{
    let v = chars_of(s);
    let n = v.len();
    let a = skip_ws(&v, 0);
    if a == n {
        return String::new();
    }
    proof {
        lemma_ws_end_bounds(v@, 0);
    }
    let mut b = n;
    while char_is_whitespace(v[b - 1])
        invariant
            v@ == s@,
            n == v@.len(),
            a < b <= n,
            a == ws_end(v@, 0),
            !is_whitespace_char(v@[a as int]),
            ws_start_back(v@, n as int) == ws_start_back(v@, b as int),
        decreases b,
    {
        b = b - 1;
    }
    string_from_range(&v, a, b)
}

} // verus!

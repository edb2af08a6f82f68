//! Character-level text helpers with exact specifications.
//!
//! Strings are handled through their character sequences (`s@`).  The
//! helpers here are the building blocks that the rest of the library uses to
//! state and implement prefix/suffix tests, trimming and decimal rendering.
use vstd::prelude::*;
use vstd::utf8::*;
use vstd::string::StringSliceAdditionalSpecFns;

verus! {

// ─── Specifications ────────────────────────────────────────────────────────

/// `p` is a prefix of `s`.
pub open spec fn starts_with(s: Seq<char>, p: Seq<char>) -> bool {
    p.len() <= s.len() && s.take(p.len() as int) == p
}

/// `p` is a suffix of `s`.
pub open spec fn ends_with(s: Seq<char>, p: Seq<char>) -> bool {
    p.len() <= s.len() && s.skip(s.len() - p.len()) == p
}

/// `p` occurs in `s` starting at position `i`.
pub open spec fn occurs_at(s: Seq<char>, p: Seq<char>, i: int) -> bool {
    0 <= i && i + p.len() <= s.len() && s.subrange(i, i + p.len()) == p
}

/// `p` occurs somewhere in `s` (the empty sequence occurs everywhere).
pub open spec fn contains(s: Seq<char>, p: Seq<char>) -> bool {
    exists|i: int| occurs_at(s, p, i)
}

/// `s` with every leading copy of the non-empty `p` removed (as `str::trim_start_matches`).
pub open spec fn trim_start_matches(s: Seq<char>, p: Seq<char>) -> Seq<char>
    decreases s.len(),
{
    if p.len() > 0 && starts_with(s, p) {
        trim_start_matches(s.skip(p.len() as int), p)
    } else {
        s
    }
}

/// `s` with every trailing copy of the non-empty `p` removed (as `str::trim_end_matches`).
pub open spec fn trim_end_matches(s: Seq<char>, p: Seq<char>) -> Seq<char>
    decreases s.len(),
{
    if p.len() > 0 && ends_with(s, p) {
        trim_end_matches(s.take(s.len() - p.len()), p)
    } else {
        s
    }
}

/// Unicode `White_Space`, the property that `char::is_whitespace` tests.
pub open spec fn is_ws(c: char) -> bool {
    c == '\t' || c == '\n' || c == '\x0B' || c == '\x0C' || c == '\r' || c == ' '
        || c == '\u{85}' || c == '\u{A0}' || c == '\u{1680}'
        || ('\u{2000}' <= c && c <= '\u{200A}')
        || c == '\u{2028}' || c == '\u{2029}' || c == '\u{202F}' || c == '\u{205F}'
        || c == '\u{3000}'
}

/// Number of leading whitespace characters of `s`.
pub open spec fn lead_ws(s: Seq<char>) -> nat
    decreases s.len(),
{
    if s.len() > 0 && is_ws(s[0]) {
        1 + lead_ws(s.skip(1))
    } else {
        0
    }
}

/// Number of trailing whitespace characters of `s`.
pub open spec fn trail_ws(s: Seq<char>) -> nat
    decreases s.len(),
{
    if s.len() > 0 && is_ws(s.last()) {
        1 + trail_ws(s.drop_last())
    } else {
        0
    }
}

/// `s` without leading and trailing whitespace (as `str::trim`).
pub open spec fn trim(s: Seq<char>) -> Seq<char> {
    let a = lead_ws(s);
    if a == s.len() {
        Seq::empty()
    } else {
        s.subrange(a as int, s.len() - trail_ws(s))
    }
}

/// The ASCII decimal digit for `d < 10`.
pub open spec fn digit_char(d: nat) -> char {
    if d == 0 { '0' } else if d == 1 { '1' } else if d == 2 { '2' } else if d == 3 { '3' }
    else if d == 4 { '4' } else if d == 5 { '5' } else if d == 6 { '6' } else if d == 7 { '7' }
    else if d == 8 { '8' } else { '9' }
}

/// Decimal rendering of `n`, without leading zeros (as `Display` for unsigned integers).
pub open spec fn dec(n: nat) -> Seq<char>
    decreases n,
{
    if n < 10 {
        seq![digit_char(n)]
    } else {
        dec(n / 10).push(digit_char(n % 10))
    }
}

/// Decimal rendering of a signed integer (as `Display` for signed integers).
pub open spec fn dec_int(n: int) -> Seq<char> {
    if n < 0 { seq!['-'] + dec((-n) as nat) } else { dec(n as nat) }
}

pub open spec fn is_digit(c: char) -> bool {
    '0' <= c && c <= '9'
}

pub open spec fn digit_value(c: char) -> nat {
    (c as u32 - '0' as u32) as nat
}

/// The value of a sequence of decimal digits.
pub open spec fn digits_value(s: Seq<char>) -> nat
    decreases s.len(),
{
    if s.len() == 0 {
        0
    } else {
        digits_value(s.drop_last()) * 10 + digit_value(s.last())
    }
}

pub open spec fn all_digits(s: Seq<char>) -> bool {
    forall|i: int| 0 <= i < s.len() ==> is_digit(#[trigger] s[i])
}

/// What `str::parse::<usize>` gives for a string of decimal digits: the value when it
/// fits in `usize`, nothing otherwise (also nothing for the empty string and for any
/// non-digit; a leading `+` never reaches this library).
pub open spec fn parse_usize(s: Seq<char>) -> Option<usize> {
    if s.len() > 0 && all_digits(s) && digits_value(s) <= usize::MAX {
        Some(digits_value(s) as usize)
    } else {
        None
    }
}

/// Concatenation of `parts`, each followed by nothing and separated by `sep` (as `join`).
pub open spec fn join(parts: Seq<Seq<char>>, sep: Seq<char>) -> Seq<char>
    decreases parts.len(),
{
    if parts.len() == 0 {
        Seq::empty()
    } else if parts.len() == 1 {
        parts[0]
    } else {
        join(parts.drop_last(), sep) + sep + parts.last()
    }
}

// ─── Conversions ───────────────────────────────────────────────────────────

/// The characters of `s`, in order.
pub fn chars_of(s: &str) -> (v: Vec<char>)
    ensures
        v@ == s@,
{
    let mut v: Vec<char> = Vec::new();
    for c in it: s.chars()
        invariant
            v@ == it.seq().take(it.index() as int),
            it.seq() == s@,
    {
        v.push(c);
    }
    v
}

/// `String` holding exactly the characters of `v`.
/// Trusted: `String::from_iter` over `&char` collects the characters in order.
#[verifier::external_body]
pub(crate) fn string_from_chars(v: &[char]) -> (s: String)
    ensures
        s@ == v@,
{
    String::from_iter(v.iter())
}

/// A fresh `String` equal to `s`.
pub fn owned(s: &str) -> (r: String)
    ensures
        r@ == s@,
{
    s.to_owned()
}

/// `a` followed by `b`.
pub fn cat(a: &str, b: &str) -> (r: String)
    ensures
        r@ == a@ + b@,
{
    let mut r = a.to_owned();
    r.append(b);
    r
}

/// `a`, `b` and `c` in turn.
pub fn cat3(a: &str, b: &str, c: &str) -> (r: String)
    ensures
        r@ == a@ + b@ + c@,
{
    let mut r = a.to_owned();
    r.append(b);
    r.append(c);
    r
}

/// The parts of `parts` separated by `sep`.
pub fn join_strings(parts: &Vec<String>, sep: &str) -> (r: String)
    ensures
        r@ == join(parts@.map_values(|p: String| p@), sep@),
{
    let ghost views = parts@.map_values(|p: String| p@);
    let mut r = String::new();
    let mut i: usize = 0;
    while i < parts.len()
        invariant
            i <= parts.len(),
            views == parts@.map_values(|p: String| p@),
            r@ == join(views.take(i as int), sep@),
        decreases parts.len() - i,
    {
        if i > 0 {
            r.append(sep);
        }
        r.append(parts[i].as_str());
        assert(views.take(i + 1).drop_last() == views.take(i as int));
        i = i + 1;
    }
    assert(views.take(parts.len() as int) == views);
    r
}

// ─── Tests on sequences ────────────────────────────────────────────────────

/// Does `s` start with `p`?
pub fn has_prefix(s: &[char], p: &[char]) -> (b: bool)
    ensures
        b == starts_with(s@, p@),
{
    if p.len() > s.len() {
        return false;
    }
    let mut i: usize = 0;
    while i < p.len()
        invariant
            i <= p.len(),
            p.len() <= s.len(),
            forall|j: int| 0 <= j < i ==> s@[j] == p@[j],
        decreases p.len() - i,
    {
        if s[i] != p[i] {
            assert(s@.take(p@.len() as int)[i as int] != p@[i as int]);
            return false;
        }
        i = i + 1;
    }
    assert(s@.take(p@.len() as int) =~= p@);
    true
}

/// Does `p` occur in `s` at position `at`?
pub fn matches_at(s: &[char], p: &[char], at: usize) -> (b: bool)
    ensures
        b == occurs_at(s@, p@, at as int),
{
    if at > s.len() || p.len() > s.len() - at {
        return false;
    }
    let mut i: usize = 0;
    while i < p.len()
        invariant
            i <= p.len(),
            at + p.len() <= s.len(),
            forall|j: int| 0 <= j < i ==> s@[at + j] == p@[j],
        decreases p.len() - i,
    {
        if s[at + i] != p[i] {
            assert(s@.subrange(at as int, at + p@.len())[i as int] != p@[i as int]);
            return false;
        }
        i = i + 1;
    }
    assert(s@.subrange(at as int, at + p@.len()) =~= p@);
    true
}

/// Does `s` end with `p`?
pub fn has_suffix(s: &[char], p: &[char]) -> (b: bool)
    ensures
        b == ends_with(s@, p@),
{
    if p.len() > s.len() {
        return false;
    }
    let b = matches_at(s, p, s.len() - p.len());
    assert(s@.subrange(s@.len() - p@.len(), s@.len() as int) == s@.skip(s@.len() - p@.len()));
    b
}

/// First position at which `p` occurs in `s`, if any.
pub fn find(s: &[char], p: &[char]) -> (r: Option<usize>)
    ensures
        match r {
            Some(i) => occurs_at(s@, p@, i as int) && forall|j: int|
                0 <= j < i ==> !occurs_at(s@, p@, j),
            None => !contains(s@, p@),
        },
{
    if p.len() > s.len() {
        assert forall|j: int| !occurs_at(s@, p@, j) by {}
        return None;
    }
    let last = s.len() - p.len();
    let mut i: usize = 0;
    loop
        invariant
            p.len() <= s.len(),
            last == s.len() - p.len(),
            i <= last,
            forall|j: int| 0 <= j < i ==> !occurs_at(s@, p@, j),
        ensures
            forall|j: int| 0 <= j <= last ==> !occurs_at(s@, p@, j),
        decreases last - i,
    {
        if matches_at(s, p, i) {
            return Some(i);
        }
        if i == last {
            break;
        }
        i = i + 1;
    }
    assert forall|j: int| !occurs_at(s@, p@, j) by {
        if 0 <= j && j + p@.len() <= s@.len() {
            assert(j <= last);
        }
    }
    None
}

/// Does `p` occur in `s`?
pub fn has_sub(s: &[char], p: &[char]) -> (b: bool)
    ensures
        b == contains(s@, p@),
{
    match find(s, p) {
        Some(_) => true,
        None => false,
    }
}

/// Does `c` occur in `s`?
pub fn has_char(s: &[char], c: char) -> (b: bool)
    ensures
        b == s@.contains(c),
{
    let mut i: usize = 0;
    while i < s.len()
        invariant
            i <= s.len(),
            forall|j: int| 0 <= j < i ==> s@[j] != c,
        decreases s.len() - i,
    {
        if s[i] == c {
            return true;
        }
        i = i + 1;
    }
    false
}

/// `&str` forms of the tests above.
pub fn str_starts_with(s: &str, p: &str) -> (b: bool)
    ensures
        b == starts_with(s@, p@),
{
    let sv = chars_of(s);
    let pv = chars_of(p);
    has_prefix(sv.as_slice(), pv.as_slice())
}

pub fn str_ends_with(s: &str, p: &str) -> (b: bool)
    ensures
        b == ends_with(s@, p@),
{
    let sv = chars_of(s);
    let pv = chars_of(p);
    has_suffix(sv.as_slice(), pv.as_slice())
}

pub fn str_contains(s: &str, p: &str) -> (b: bool)
    ensures
        b == contains(s@, p@),
{
    let sv = chars_of(s);
    let pv = chars_of(p);
    has_sub(sv.as_slice(), pv.as_slice())
}

pub fn str_eq(a: &str, b: &str) -> (r: bool)
    ensures
        r == (a@ == b@),
{
    let av = chars_of(a);
    let bv = chars_of(b);
    if av.len() != bv.len() {
        return false;
    }
    let r = has_prefix(av.as_slice(), bv.as_slice());
    assert(r ==> av@.take(bv@.len() as int) =~= av@);
    assert(av@ == bv@ ==> av@.take(bv@.len() as int) =~= bv@);
    r
}

// ─── Trimming ──────────────────────────────────────────────────────────────

proof fn lemma_trim_start_step(s: Seq<char>, p: Seq<char>, k: int)
    requires
        p.len() > 0,
        0 <= k <= s.len(),
        starts_with(s.skip(k), p),
    ensures
        trim_start_matches(s.skip(k), p) == trim_start_matches(s.skip(k + p.len()), p),
{
    assert(s.skip(k).skip(p.len() as int) =~= s.skip(k + p.len()));
}

/// `s` with every leading copy of `p` removed.
pub fn trim_start(s: &[char], p: &[char]) -> (r: Vec<char>)
    ensures
        r@ == trim_start_matches(s@, p@),
{
    if p.len() == 0 {
        return slice_range(s, 0, s.len());
    }
    let mut k: usize = 0;
    assert(s@.skip(0) =~= s@);
    while k <= s.len() && matches_at(s, p, k)
        invariant
            k <= s.len(),
            p.len() > 0,
            trim_start_matches(s@.skip(k as int), p@) == trim_start_matches(s@, p@),
        decreases s.len() - k,
    {
        assert(s@.skip(k as int).take(p@.len() as int) =~= s@.subrange(k as int, k + p@.len()));
        proof {
            lemma_trim_start_step(s@, p@, k as int);
        }
        k = k + p.len();
    }
    if k <= s.len() {
        assert(!starts_with(s@.skip(k as int), p@)) by {
            if starts_with(s@.skip(k as int), p@) {
                assert(s@.skip(k as int).take(p@.len() as int) =~= s@.subrange(k as int, k + p@.len()));
            }
        }
    }
    let r = slice_from(s, k);
    r
}

/// `s[k..]` (empty when `k` is past the end).
pub fn slice_from(s: &[char], k: usize) -> (r: Vec<char>)
    ensures
        k <= s.len() ==> r@ == s@.skip(k as int),
        k > s.len() ==> r@ == Seq::<char>::empty(),
{
    if k > s.len() {
        let r: Vec<char> = Vec::new();
        assert(r@ =~= Seq::<char>::empty());
        r
    } else {
        let r = slice_range(s, k, s.len());
        assert(s@.subrange(k as int, s@.len() as int) =~= s@.skip(k as int));
        r
    }
}

/// `s[a..b]` for `a <= b <= s.len()`.
pub fn slice_range(s: &[char], a: usize, b: usize) -> (r: Vec<char>)
    requires
        a <= b <= s.len(),
    ensures
        r@ == s@.subrange(a as int, b as int),
{
    let mut r: Vec<char> = Vec::new();
    let mut i = a;
    while i < b
        invariant
            a <= i <= b <= s.len(),
            r@ == s@.subrange(a as int, i as int),
        decreases b - i,
    {
        r.push(s[i]);
        assert(s@.subrange(a as int, i + 1) =~= s@.subrange(a as int, i as int).push(s@[i as int]));
        i = i + 1;
    }
    r
}

proof fn lemma_trim_end_step(s: Seq<char>, p: Seq<char>, k: int)
    requires
        p.len() > 0,
        0 <= k <= s.len(),
        ends_with(s.take(k), p),
    ensures
        trim_end_matches(s.take(k), p) == trim_end_matches(s.take(k - p.len()), p),
{
    assert(s.take(k).take(k - p.len()) =~= s.take(k - p.len()));
}

/// `s` with every trailing copy of `p` removed.
pub fn trim_end(s: &[char], p: &[char]) -> (r: Vec<char>)
    ensures
        r@ == trim_end_matches(s@, p@),
{
    if p.len() == 0 {
        return slice_range(s, 0, s.len());
    }
    let mut k: usize = s.len();
    assert(s@.take(s@.len() as int) =~= s@);
    while k >= p.len() && matches_at(s, p, k - p.len())
        invariant
            k <= s.len(),
            p.len() > 0,
            trim_end_matches(s@.take(k as int), p@) == trim_end_matches(s@, p@),
        decreases k,
    {
        assert(s@.take(k as int).skip(k - p@.len()) =~= s@.subrange(k - p@.len(), k as int));
        proof {
            lemma_trim_end_step(s@, p@, k as int);
        }
        k = k - p.len();
    }
    assert(!ends_with(s@.take(k as int), p@)) by {
        if ends_with(s@.take(k as int), p@) {
            assert(s@.take(k as int).skip(k - p@.len()) =~= s@.subrange(k - p@.len(), k as int));
        }
    }
    slice_range(s, 0, k)
}

/// `&str` form of `trim_start`.
pub fn str_trim_start_matches(s: &str, p: &str) -> (r: String)
    ensures
        r@ == trim_start_matches(s@, p@),
{
    let sv = chars_of(s);
    let pv = chars_of(p);
    let rv = trim_start(sv.as_slice(), pv.as_slice());
    string_from_chars(rv.as_slice())
}

/// `&str` form of `trim_end`.
pub fn str_trim_end_matches(s: &str, p: &str) -> (r: String)
    ensures
        r@ == trim_end_matches(s@, p@),
{
    let sv = chars_of(s);
    let pv = chars_of(p);
    let rv = trim_end(sv.as_slice(), pv.as_slice());
    string_from_chars(rv.as_slice())
}

/// Is `c` whitespace in the sense of `char::is_whitespace`?
pub fn char_is_ws(c: char) -> (b: bool)
    ensures
        b == is_ws(c),
{
    c == '\t' || c == '\n' || c == '\x0B' || c == '\x0C' || c == '\r' || c == ' '
        || c == '\u{85}' || c == '\u{A0}' || c == '\u{1680}'
        || ('\u{2000}' <= c && c <= '\u{200A}')
        || c == '\u{2028}' || c == '\u{2029}' || c == '\u{202F}' || c == '\u{205F}'
        || c == '\u{3000}'
}

proof fn lemma_lead_ws_bound(s: Seq<char>)
    ensures
        lead_ws(s) <= s.len(),
        forall|j: int| 0 <= j < lead_ws(s) ==> is_ws(#[trigger] s[j]),
        lead_ws(s) < s.len() ==> !is_ws(s[lead_ws(s) as int]),
    decreases s.len(),
{
    if s.len() > 0 && is_ws(s[0]) {
        lemma_lead_ws_bound(s.skip(1));
        assert forall|j: int| 0 <= j < lead_ws(s) implies is_ws(#[trigger] s[j]) by {
            if j > 0 {
                assert(s[j] == s.skip(1)[j - 1]);
            }
        }
    }
}

proof fn lemma_lead_ws_char(s: Seq<char>, k: nat)
    requires
        k <= s.len(),
        forall|j: int| 0 <= j < k ==> is_ws(#[trigger] s[j]),
        k < s.len() ==> !is_ws(s[k as int]),
    ensures
        lead_ws(s) == k,
    decreases k,
{
    if k > 0 {
        assert forall|j: int| 0 <= j < k - 1 implies is_ws(#[trigger] s.skip(1)[j]) by {
            assert(s.skip(1)[j] == s[j + 1]);
        }
        if (k - 1) < s.skip(1).len() {
            assert(s.skip(1)[k - 1] == s[k as int]);
        }
        lemma_lead_ws_char(s.skip(1), (k - 1) as nat);
    }
}

proof fn lemma_trail_ws_char(s: Seq<char>, k: nat)
    requires
        k <= s.len(),
        forall|j: int| s.len() - k <= j < s.len() ==> is_ws(#[trigger] s[j]),
        k < s.len() ==> !is_ws(s[s.len() - k - 1]),
    ensures
        trail_ws(s) == k,
    decreases k,
{
    if k > 0 {
        let d = s.drop_last();
        assert forall|j: int| d.len() - (k - 1) <= j < d.len() implies is_ws(#[trigger] d[j]) by {
            assert(d[j] == s[j]);
        }
        if (k - 1) < d.len() {
            assert(d[d.len() - (k - 1) - 1] == s[s.len() - k - 1]);
        }
        lemma_trail_ws_char(d, (k - 1) as nat);
    }
}

/// `s` without surrounding whitespace.
pub fn trim_ws(s: &[char]) -> (r: Vec<char>)
    ensures
        r@ == trim(s@),
{
    let mut a: usize = 0;
    while a < s.len() && char_is_ws(s[a])
        invariant
            a <= s.len(),
            forall|j: int| 0 <= j < a ==> is_ws(#[trigger] s@[j]),
        decreases s.len() - a,
    {
        a = a + 1;
    }
    proof {
        lemma_lead_ws_char(s@, a as nat);
    }
    if a == s.len() {
        let r: Vec<char> = Vec::new();
        assert(r@ =~= trim(s@));
        return r;
    }
    let mut b: usize = s.len();
    while b > a && char_is_ws(s[b - 1])
        invariant
            a < s.len(),
            a <= b <= s.len(),
            !is_ws(s@[a as int]),
            forall|j: int| b <= j < s.len() ==> is_ws(#[trigger] s@[j]),
        decreases b,
    {
        b = b - 1;
    }
    proof {
        if b == a {
            assert(false);
        }
        lemma_trail_ws_char(s@, (s.len() - b) as nat);
    }
    slice_range(s, a, b)
}

/// `&str` form of `trim_ws`.
pub fn str_trim(s: &str) -> (r: String)
    ensures
        r@ == trim(s@),
{
    let sv = chars_of(s);
    let rv = trim_ws(sv.as_slice());
    string_from_chars(rv.as_slice())
}

/// What `str::parse::<usize>` gives: an optional `+`, then one or more ASCII digits whose value
/// fits in `usize`.
pub open spec fn std_parse_usize(s: Seq<char>) -> Option<usize> {
    if s.len() > 0 && s[0] == '+' {
        parse_usize(s.skip(1))
    } else {
        parse_usize(s)
    }
}

fn all_ascii_digits(s: &[char]) -> (b: bool)
    ensures
        b == all_digits(s@),
{
    let mut i: usize = 0;
    while i < s.len()
        invariant
            i <= s.len(),
            forall|j: int| 0 <= j < i ==> is_digit(#[trigger] s@[j]),
        decreases s.len() - i,
    {
        if !(s[i] >= '0' && s[i] <= '9') {
            return false;
        }
        i = i + 1;
    }
    true
}

/// `str::parse::<usize>`, with `None` in place of the error.
pub fn parse_usize_str(s: &str) -> (r: Option<usize>)
    ensures
        r == std_parse_usize(s@),
{
    let v = chars_of(s);
    let body = if v.len() > 0 && v[0] == '+' { slice_from(v.as_slice(), 1) } else { slice_from(v.as_slice(), 0) };
    proof {
        assert(v@.skip(0) =~= v@);
    }
    if all_ascii_digits(body.as_slice()) {
        parse_digits(body.as_slice())
    } else {
        None
    }
}

// ─── Lines and columns ─────────────────────────────────────────────────────

pub open spec fn strip_cr(line: Seq<char>) -> Seq<char> {
    if line.len() > 0 && line.last() == '\r' {
        line.drop_last()
    } else {
        line
    }
}

/// The lines of `s[i..]` as `str::lines` yields them, `cur` being the part of the current line
/// already read: lines end at '\n' (a '\r' just before it is dropped), and a last line is only
/// yielded when it is not empty.
pub open spec fn lines_from(s: Seq<char>, i: int, cur: Seq<char>) -> Seq<Seq<char>>
    decreases s.len() - i,
{
    if i >= s.len() {
        if cur.len() > 0 {
            seq![cur]
        } else {
            Seq::empty()
        }
    } else if s[i] == '\n' {
        seq![strip_cr(cur)] + lines_from(s, i + 1, Seq::empty())
    } else {
        lines_from(s, i + 1, cur.push(s[i]))
    }
}

/// The lines of `s`, as `str::lines` yields them.
pub open spec fn text_lines(s: Seq<char>) -> Seq<Seq<char>> {
    lines_from(s, 0, Seq::empty())
}

/// The lines of `s`, as `str::lines` yields them.
pub fn lines_of(s: &str) -> (r: Vec<String>)
    ensures
        r@.map_values(|l: String| l@) == text_lines(s@),
{
    let v = chars_of(s);
    let mut out: Vec<String> = Vec::new();
    let mut cur: Vec<char> = Vec::new();
    let mut i: usize = 0;
    while i < v.len()
        invariant
            i <= v.len(),
            v@ == s@,
            out@.map_values(|l: String| l@) + lines_from(v@, i as int, cur@) == text_lines(s@),
        decreases v.len() - i,
    {
        let ghost done = out@.map_values(|l: String| l@);
        if v[i] == '\n' {
            let line = if cur.len() > 0 && cur[cur.len() - 1] == '\r' {
                slice_range(cur.as_slice(), 0, cur.len() - 1)
            } else {
                slice_range(cur.as_slice(), 0, cur.len())
            };
            proof {
                assert(cur@.take(cur@.len() as int) =~= cur@);
                assert(line@ =~= strip_cr(cur@));
                assert(lines_from(v@, i as int, cur@) == seq![strip_cr(cur@)] + lines_from(v@, i + 1, Seq::empty()));
            }
            out.push(string_from_chars(line.as_slice()));
            cur = Vec::new();
            proof {
                assert(out@.map_values(|l: String| l@) =~= done.push(line@));
                assert(done.push(line@) + lines_from(v@, i + 1, cur@) =~= done + (seq![line@] + lines_from(
                    v@,
                    i + 1,
                    Seq::empty(),
                )));
            }
        } else {
            proof {
                assert(lines_from(v@, i as int, cur@) == lines_from(v@, i + 1, cur@.push(v@[i as int])));
            }
            cur.push(v[i]);
        }
        i = i + 1;
    }
    let ghost done = out@.map_values(|l: String| l@);
    if cur.len() > 0 {
        out.push(string_from_chars(cur.as_slice()));
        proof {
            assert(out@.map_values(|l: String| l@) =~= done + seq![cur@]);
        }
    } else {
        proof {
            assert(done + lines_from(v@, i as int, cur@) =~= done);
        }
    }
    out
}

/// `n` in decimal, right-aligned in a field of `width` characters (as `{:>width}`).
pub open spec fn pad_left(t: Seq<char>, width: nat) -> Seq<char> {
    if t.len() >= width {
        t
    } else {
        Seq::new((width - t.len()) as nat, |i: int| ' ') + t
    }
}

/// `n` in decimal, right-aligned in four columns.
pub fn right4(n: u64) -> (r: String)
    ensures
        r@ == pad_left(dec(n as nat), 4),
{
    let d = dec_chars(n);
    let mut v: Vec<char> = Vec::new();
    let mut k: usize = d.len();
    while k < 4
        invariant
            d.len() <= k <= 4 || (k == d.len() && d.len() > 4),
            v@ == Seq::new((k - d.len()) as nat, |i: int| ' '),
        decreases 4 - k,
    {
        v.push(' ');
        k = k + 1;
        proof {
            assert(v@ =~= Seq::new((k - d.len()) as nat, |i: int| ' '));
        }
    }
    let mut j: usize = 0;
    let ghost pad = v@;
    while j < d.len()
        invariant
            j <= d.len(),
            v@ == pad + d@.take(j as int),
        decreases d.len() - j,
    {
        v.push(d[j]);
        j = j + 1;
        proof {
            assert(v@ =~= pad + d@.take(j as int));
        }
    }
    proof {
        assert(d@.take(d@.len() as int) =~= d@);
        if d@.len() >= 4 {
            assert(pad =~= Seq::<char>::empty());
            assert(v@ =~= d@);
        }
    }
    string_from_chars(v.as_slice())
}

// ─── Sequence steps ────────────────────────────────────────────────────────

/// Mapping a sequence extended by one element.
pub proof fn lemma_map_push<A, B>(s: Seq<A>, x: A, f: spec_fn(A) -> B)
    ensures
        s.push(x).map_values(f) == s.map_values(f).push(f(x)),
{
    assert(s.push(x).map_values(f) =~= s.map_values(f).push(f(x)));
}

/// The prefix of length `i + 1` is the prefix of length `i` and element `i`.
pub proof fn lemma_take_step<A>(s: Seq<A>, i: int)
    requires
        0 <= i < s.len(),
    ensures
        s.take(i + 1) == s.take(i).push(s[i]),
        s.take(i + 1).drop_last() == s.take(i),
        s.take(i + 1).last() == s[i],
{
    assert(s.take(i + 1) =~= s.take(i).push(s[i]));
}

// ─── Prefixes ──────────────────────────────────────────────────────────────

/// The first `n` characters of `s` (all of `s` when it is shorter).
pub fn char_prefix(s: &str, n: usize) -> (r: String)
    ensures
        r@ == s@.take(if n < s@.len() { n as int } else { s@.len() as int }),
{
    let v = chars_of(s);
    let k = if n < v.len() { n } else { v.len() };
    let w = slice_range(v.as_slice(), 0, k);
    string_from_chars(w.as_slice())
}

/// Length in bytes of the UTF-8 form of `s`, as `str::len` reports it.
pub open spec fn blen(s: Seq<char>) -> usize {
    encode_utf8(s).len() as usize
}

/// The characters of the first `n` bytes of `s`.
pub open spec fn byte_cut(s: Seq<char>, n: int) -> Seq<char> {
    decode_utf8(encode_utf8(s).subrange(0, n))
}

/// The first `n` bytes of `s`, where byte `n` starts a character (as `&s[..n]`).
pub fn byte_prefix(s: &str, n: usize) -> (r: String)
    requires
        is_char_boundary(s.spec_bytes(), n as int),
    ensures
        encode_utf8(r@) == encode_utf8(s@).subrange(0, n as int),
        r@ == byte_cut(s@, n as int),
{
    let (a, _b) = s.split_at(n);
    let r = a.to_owned();
    proof {
        encode_utf8_decode_utf8(r@);
    }
    r
}

// ─── Numbers ───────────────────────────────────────────────────────────────

pub fn digit_to_char(d: u64) -> (c: char)
    requires
        d < 10,
    ensures
        c == digit_char(d as nat),
{
    if d == 0 { '0' } else if d == 1 { '1' } else if d == 2 { '2' } else if d == 3 { '3' }
    else if d == 4 { '4' } else if d == 5 { '5' } else if d == 6 { '6' } else if d == 7 { '7' }
    else if d == 8 { '8' } else { '9' }
}

/// Characters of the decimal rendering of `n`.
pub fn dec_chars(n: u64) -> (v: Vec<char>)
    ensures
        v@ == dec(n as nat),
    decreases n,
{
    if n < 10 {
        let mut v: Vec<char> = Vec::new();
        v.push(digit_to_char(n));
        assert(v@ =~= seq![digit_char(n as nat)]);
        v
    } else {
        let mut v = dec_chars(n / 10);
        v.push(digit_to_char(n % 10));
        v
    }
}

/// Decimal rendering of `n`, as `n.to_string()`.
pub fn u64_to_string(n: u64) -> (s: String)
    ensures
        s@ == dec(n as nat),
{
    let v = dec_chars(n);
    string_from_chars(v.as_slice())
}

/// Decimal rendering of a signed `n`, as `n.to_string()`.
pub fn i64_to_string(n: i64) -> (s: String)
    ensures
        s@ == dec_int(n as int),
{
    if n < 0 {
        let m: u64 = if n == i64::MIN { 9223372036854775808u64 } else { (-n) as u64 };
        let v = dec_chars(m);
        let mut w: Vec<char> = Vec::new();
        w.push('-');
        let mut i: usize = 0;
        while i < v.len()
            invariant
                i <= v.len(),
                w@ == seq!['-'] + v@.take(i as int),
            decreases v.len() - i,
        {
            w.push(v[i]);
            assert(v@.take(i + 1) =~= v@.take(i as int).push(v@[i as int]));
            i = i + 1;
        }
        assert(v@.take(v@.len() as int) =~= v@);
        string_from_chars(w.as_slice())
    } else {
        u64_to_string(n as u64)
    }
}

/// Parse a decimal digit string into a `usize`, as `str::parse::<usize>` does for such strings.
pub fn parse_digits(s: &[char]) -> (r: Option<usize>)
    requires
        all_digits(s@),
    ensures
        r == parse_usize(s@),
{
    if s.len() == 0 {
        return None;
    }
    let mut acc: usize = 0;
    let mut i: usize = 0;
    while i < s.len()
        invariant
            i <= s.len(),
            all_digits(s@),
            acc as nat == digits_value(s@.take(i as int)),
        decreases s.len() - i,
    {
        let d = (s[i] as u32 - '0' as u32) as usize;
        assert(s@.take(i + 1).drop_last() =~= s@.take(i as int));
        if acc > (usize::MAX - d) / 10 {
            proof {
                lemma_digits_value_grows(s@, (i + 1) as nat);
            }
            return None;
        }
        acc = acc * 10 + d;
        i = i + 1;
    }
    assert(s@.take(s@.len() as int) =~= s@);
    Some(acc)
}

proof fn lemma_digits_value_prefix(s: Seq<char>, k: nat)
    requires
        k <= s.len(),
        all_digits(s),
    ensures
        digits_value(s.take(k as int)) <= digits_value(s),
    decreases s.len() - k,
{
    if k < s.len() {
        lemma_digits_value_prefix(s, k + 1);
        assert(s.take((k + 1) as int).drop_last() =~= s.take(k as int));
    } else {
        assert(s.take(k as int) =~= s);
    }
}

proof fn lemma_digits_value_grows(s: Seq<char>, k: nat)
    requires
        0 < k <= s.len(),
        all_digits(s),
        digits_value(s.take(k as int)) > usize::MAX,
    ensures
        digits_value(s) > usize::MAX,
{
    lemma_digits_value_prefix(s, k);
}

// ─── String lists ──────────────────────────────────────────────────────────

pub open spec fn strings_view(v: Seq<String>) -> Seq<Seq<char>> {
    v.map_values(|s: String| s@)
}

pub open spec fn opt_string_view(o: Option<String>) -> Option<Seq<char>> {
    match o {
        Some(s) => Some(s@),
        None => None,
    }
}

/// Appends the strings of `more` to `out`.
pub fn append_lines(out: &mut Vec<String>, more: Vec<String>)
    ensures
        strings_view(final(out)@) == strings_view(old(out)@) + strings_view(more@),
{
    let ghost start = strings_view(out@);
    let mut i: usize = 0;
    while i < more.len()
        invariant
            i <= more.len(),
            strings_view(out@) == start + strings_view(more@.take(i as int)),
        decreases more.len() - i,
    {
        let s = more[i].clone();
        let ghost before = out@;
        let ghost sg = s;
        out.push(s);
        proof {
            lemma_take_step(more@, i as int);
            lemma_map_push(before, sg, |s: String| s@);
            lemma_map_push(more@.take(i as int), more@[i as int], |s: String| s@);
            assert(strings_view(out@) =~= start + strings_view(more@.take(i + 1)));
        }
        i = i + 1;
    }
    proof {
        assert(more@.take(more@.len() as int) =~= more@);
    }
}

/// Appends one string to `out`.
pub fn push_line(out: &mut Vec<String>, s: String)
    ensures
        strings_view(final(out)@) == strings_view(old(out)@).push(s@),
{
    let ghost before = out@;
    let ghost sg = s;
    out.push(s);
    proof {
        lemma_map_push(before, sg, |s: String| s@);
    }
}

// ─── Searching for a character ─────────────────────────────────────────────

/// The first position at or after `i` where `s` holds `c`; `s.len()` when there is none.
pub open spec fn idx_of(s: Seq<char>, c: char, i: int) -> int
    decreases s.len() - i,
{
    if i >= s.len() {
        s.len() as int
    } else if s[i] == c {
        i
    } else {
        idx_of(s, c, i + 1)
    }
}

pub proof fn lemma_idx_of_bounds(s: Seq<char>, c: char, i: int)
    requires
        0 <= i <= s.len(),
    ensures
        i <= idx_of(s, c, i) <= s.len(),
        idx_of(s, c, i) < s.len() ==> s[idx_of(s, c, i)] == c,
        forall|j: int| i <= j < idx_of(s, c, i) ==> s[j] != c,
    decreases s.len() - i,
{
    if i < s.len() && s[i] != c {
        lemma_idx_of_bounds(s, c, i + 1);
    }
}

/// The first position at or after `from` where `s` holds `c` (see `idx_of`).
pub fn find_char(s: &[char], c: char, from: usize) -> (r: usize)
    requires
        from <= s@.len(),
    ensures
        r == idx_of(s@, c, from as int),
        from <= r <= s@.len(),
        r < s@.len() ==> s@[r as int] == c,
        forall|j: int| from <= j < r ==> s@[j] != c,
{
    let mut i = from;
    while i < s.len()
        invariant
            from <= i <= s.len(),
            idx_of(s@, c, from as int) == idx_of(s@, c, i as int),
            forall|j: int| from <= j < i ==> s@[j] != c,
        decreases s.len() - i,
    {
        if s[i] == c {
            return i;
        }
        i = i + 1;
    }
    i
}

/// The texts among an array's items.
pub open spec fn present_texts(items: Seq<Option<String>>) -> Seq<Seq<char>>
    decreases items.len(),
{
    if items.len() == 0 {
        Seq::empty()
    } else {
        present_texts(items.drop_last()) + match items.last() {
            Some(t) => seq![t@],
            None => Seq::empty(),
        }
    }
}

/// The pieces of `s[start..]` between the occurrences of `c`, as `str::split` yields them.
pub open spec fn split_from(s: Seq<char>, c: char, start: int) -> Seq<Seq<char>>
    decreases s.len() - start,
{
    if start < 0 || start > s.len() {
        Seq::empty()
    } else {
        let i = idx_of(s, c, start);
        if i >= s.len() {
            seq![s.subrange(start, s.len() as int)]
        } else {
            proof {
                lemma_idx_of_bounds(s, c, start);
            }
            seq![s.subrange(start, i)] + split_from(s, c, i + 1)
        }
    }
}

/// The pieces of `s` between the occurrences of `c` (see `split_from`).
pub fn split_char(s: &str, c: char) -> (r: Vec<String>)
    ensures
        strings_view(r@) == split_from(s@, c, 0),
{
    let v = chars_of(s);
    let mut out: Vec<String> = Vec::new();
    let mut start: usize = 0;
    loop
        invariant
            start <= v.len(),
            v@ == s@,
            strings_view(out@) + split_from(v@, c, start as int) == split_from(v@, c, 0),
        decreases v.len() - start,
    {
        let i = find_char(v.as_slice(), c, start);
        let piece = slice_range(v.as_slice(), start, i);
        proof {
            assert(piece@ =~= v@.subrange(start as int, i as int));
        }
        let ghost before = strings_view(out@);
        push_line(&mut out, string_from_chars(piece.as_slice()));
        if i >= v.len() {
            proof {
                assert(split_from(v@, c, start as int) == seq![v@.subrange(start as int, v@.len() as int)]);
                assert(strings_view(out@) =~= before + split_from(v@, c, start as int));
            }
            return out;
        }
        proof {
            assert(split_from(v@, c, start as int) == seq![v@.subrange(start as int, i as int)] + split_from(v@, c, i + 1));
            assert(strings_view(out@) + split_from(v@, c, i + 1) =~= before + split_from(v@, c, start as int));
        }
        start = i + 1;
    }
}

/// The given strings, owned.
pub fn string_list(items: &[&str]) -> (r: Vec<String>)
    ensures
        strings_view(r@) == items@.map_values(|s: &str| s@),
{
    let mut out: Vec<String> = Vec::new();
    let mut i: usize = 0;
    while i < items.len()
        invariant
            i <= items.len(),
            strings_view(out@) == items@.take(i as int).map_values(|s: &str| s@),
        decreases items.len() - i,
    {
        push_line(&mut out, owned(items[i]));
        proof {
            lemma_take_step(items@, i as int);
            lemma_map_push(items@.take(i as int), items@[i as int], |s: &str| s@);
        }
        i = i + 1;
    }
    proof {
        assert(items@.take(items@.len() as int) =~= items@);
    }
    out
}


// ─── Letter case and replacement ───────────────────────────────────────────

/// `c` with an ASCII lower-case letter made upper-case.
pub open spec fn upper_char(c: char) -> char {
    if 'a' <= c && c <= 'z' {
        ((c as u32) - 32) as char
    } else {
        c
    }
}

pub fn ascii_upper(c: char) -> (r: char)
    ensures
        r == upper_char(c),
{
    if 'a' <= c && c <= 'z' {
        let n: u8 = c as u8;
        (n - 32) as char
    } else {
        c
    }
}

/// `s` with every ASCII lower-case letter made upper-case.
pub open spec fn upper(s: Seq<char>) -> Seq<char> {
    s.map_values(|c: char| upper_char(c))
}

/// `c` with an ASCII upper-case letter made lower-case.
pub open spec fn lower_char(c: char) -> char {
    if 'A' <= c && c <= 'Z' {
        ((c as u32) + 32) as char
    } else {
        c
    }
}

/// `s` with every ASCII upper-case letter made lower-case.
pub open spec fn lower(s: Seq<char>) -> Seq<char> {
    s.map_values(|c: char| lower_char(c))
}

/// Every character of `s` is ASCII.
pub open spec fn is_ascii_text(s: Seq<char>) -> bool {
    forall|i: int| 0 <= i < s.len() ==> (#[trigger] s[i] as u32) < 128
}

pub fn str_upper(s: &str) -> (r: String)
    ensures
        r@ == upper(s@),
{
    let v = chars_of(s);
    let mut out: Vec<char> = Vec::new();
    let mut i: usize = 0;
    while i < v.len()
        invariant
            i <= v.len(),
            v@ == s@,
            out@ == upper(v@.take(i as int)),
        decreases v.len() - i,
    {
        proof {
            assert(v@.take(i + 1) =~= v@.take(i as int).push(v@[i as int]));
            assert(upper(v@.take(i + 1)) =~= upper(v@.take(i as int)).push(upper_char(v@[i as int])));
        }
        out.push(ascii_upper(v[i]));
        i = i + 1;
    }
    assert(v@.take(v@.len() as int) =~= v@);
    string_from_chars(out.as_slice())
}

/// `s` with its first character made upper-case.
pub open spec fn capitalized(s: Seq<char>) -> Seq<char> {
    if s.len() == 0 {
        s
    } else {
        seq![upper_char(s[0])] + s.skip(1)
    }
}

pub fn str_capitalized(s: &str) -> (r: String)
    ensures
        r@ == capitalized(s@),
{
    let v = chars_of(s);
    if v.len() == 0 {
        return owned(s);
    }
    let mut out: Vec<char> = Vec::new();
    out.push(ascii_upper(v[0]));
    let mut i: usize = 1;
    while i < v.len()
        invariant
            1 <= i <= v.len(),
            v@ == s@,
            out@ == seq![upper_char(v@[0])] + v@.subrange(1, i as int),
        decreases v.len() - i,
    {
        proof {
            assert(v@.subrange(1, i + 1) =~= v@.subrange(1, i as int).push(v@[i as int]));
        }
        out.push(v[i]);
        i = i + 1;
    }
    assert(v@.subrange(1, v@.len() as int) =~= v@.skip(1));
    string_from_chars(out.as_slice())
}

/// `s` with each occurrence of `pat` (taken from the left, without overlap) replaced by `rep`.
pub open spec fn replace_all(s: Seq<char>, pat: Seq<char>, rep: Seq<char>) -> Seq<char>
    decreases s.len(),
{
    if s.len() == 0 || pat.len() == 0 {
        s
    } else if starts_with(s, pat) {
        rep + replace_all(s.skip(pat.len() as int), pat, rep)
    } else {
        seq![s[0]] + replace_all(s.skip(1), pat, rep)
    }
}

pub fn str_replace_all(s: &str, pat: &str, rep: &str) -> (r: String)
    requires
        pat@.len() > 0,
    ensures
        r@ == replace_all(s@, pat@, rep@),
{
    let v = chars_of(s);
    let p = chars_of(pat);
    let w = chars_of(rep);
    let mut out: Vec<char> = Vec::new();
    let mut i: usize = 0;
    assert(v@.skip(0) =~= v@);
    while i < v.len()
        invariant
            i <= v.len(),
            v@ == s@,
            p@ == pat@,
            w@ == rep@,
            p@.len() > 0,
            out@ + replace_all(v@.skip(i as int), p@, w@) == replace_all(v@, p@, w@),
        decreases v.len() - i,
    {
        let ghost t = v@.skip(i as int);
        if matches_at(v.as_slice(), p.as_slice(), i) {
            proof {
                assert(t.take(p@.len() as int) =~= v@.subrange(i as int, i + p@.len()));
                assert(t.skip(p@.len() as int) =~= v@.skip(i + p@.len()));
                assert(out@ + w@ + replace_all(v@.skip(i + p@.len()), p@, w@) =~= out@ + replace_all(t, p@, w@));
            }
            let mut k: usize = 0;
            let ghost o0 = out@;
            while k < w.len()
                invariant
                    k <= w.len(),
                    out@ == o0 + w@.take(k as int),
                decreases w.len() - k,
            {
                proof {
                    assert(w@.take(k + 1) =~= w@.take(k as int).push(w@[k as int]));
                }
                out.push(w[k]);
                k = k + 1;
            }
            assert(w@.take(w@.len() as int) =~= w@);
            i = i + p.len();
        } else {
            proof {
                if p@.len() <= t.len() {
                    assert(t.take(p@.len() as int) =~= v@.subrange(i as int, i + p@.len()));
                }
                assert(t.skip(1) =~= v@.skip(i + 1));
                assert(t[0] == v@[i as int]);
                assert(out@.push(v@[i as int]) + replace_all(v@.skip(i + 1), p@, w@) =~= out@ + replace_all(t, p@, w@));
            }
            out.push(v[i]);
            i = i + 1;
        }
    }
    proof {
        assert(v@.skip(v@.len() as int) =~= Seq::<char>::empty());
        assert(out@ + Seq::<char>::empty() =~= out@);
    }
    string_from_chars(out.as_slice())
}

} // verus!

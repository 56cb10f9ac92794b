//! Character-level text operations with their meaning stated over `Seq<char>`.
//!
//! Strings are handled as sequences of Unicode scalar values. Each operation
//! here has the meaning of the `str` method of the same name in Rust's
//! standard library.
use vstd::prelude::*;

verus! {

/// Unicode `White_Space` property, as used by `char::is_whitespace`.
pub open spec fn is_whitespace(c: char) -> bool {
    ||| ('\u{9}' <= c && c <= '\u{d}')
    ||| c == ' '
    ||| c == '\u{85}'
    ||| c == '\u{a0}'
    ||| c == '\u{1680}'
    ||| ('\u{2000}' <= c && c <= '\u{200a}')
    ||| c == '\u{2028}'
    ||| c == '\u{2029}'
    ||| c == '\u{202f}'
    ||| c == '\u{205f}'
    ||| c == '\u{3000}'
}

/// What a trim removes: whitespace, or one given character.
#[derive(Clone, Copy, Debug, PartialEq, Eq, Structural)]
pub enum Strip {
    Whitespace,
    Char(char),
}

pub open spec fn strips(m: Strip, c: char) -> bool {
    match m {
        Strip::Whitespace => is_whitespace(c),
        Strip::Char(d) => c == d,
    }
}

/// `s` without its leading characters that `m` removes.
pub open spec fn trim_start_by(s: Seq<char>, m: Strip) -> Seq<char>
    decreases s.len(),
{
    if s.len() > 0 && strips(m, s[0]) {
        trim_start_by(s.drop_first(), m)
    } else {
        s
    }
}

/// `s` without its trailing characters that `m` removes.
pub open spec fn trim_end_by(s: Seq<char>, m: Strip) -> Seq<char>
    decreases s.len(),
{
    if s.len() > 0 && strips(m, s.last()) {
        trim_end_by(s.drop_last(), m)
    } else {
        s
    }
}

/// `str::trim`: leading and trailing whitespace removed.
pub open spec fn trim(s: Seq<char>) -> Seq<char> {
    trim_end_by(trim_start_by(s, Strip::Whitespace), Strip::Whitespace)
}

/// `str::trim_start_matches` with a non-empty string pattern: every leading
/// repetition of `p` removed.
pub open spec fn trim_start_pattern(s: Seq<char>, p: Seq<char>) -> Seq<char>
    decreases s.len(),
{
    if p.len() > 0 && p.is_prefix_of(s) {
        trim_start_pattern(s.skip(p.len() as int), p)
    } else {
        s
    }
}

/// `str::trim_end_matches` with a non-empty string pattern: every trailing
/// repetition of `p` removed.
pub open spec fn trim_end_pattern(s: Seq<char>, p: Seq<char>) -> Seq<char>
    decreases s.len(),
{
    if p.len() > 0 && p.is_suffix_of(s) {
        trim_end_pattern(s.take(s.len() - p.len()), p)
    } else {
        s
    }
}

/// `str::starts_with` with a string pattern.
pub open spec fn starts_with(s: Seq<char>, p: Seq<char>) -> bool {
    p.is_prefix_of(s)
}

/// `p` occurs in `s` starting at index `i`.
pub open spec fn occurs_at(s: Seq<char>, p: Seq<char>, i: int) -> bool {
    0 <= i && i + p.len() <= s.len() && s.subrange(i, i + p.len()) == p
}

/// `str::contains` with a string pattern.
pub open spec fn contains(s: Seq<char>, p: Seq<char>) -> bool {
    exists|i: int| occurs_at(s, p, i)
}

/// The index at which the first `"::"` at or after `i` starts, or the length
/// of `s` when there is none.
pub open spec fn separator_index(s: Seq<char>, i: int) -> int
    decreases s.len() - i,
{
    if i < 0 || i + 1 >= s.len() {
        s.len() as int
    } else if s[i] == ':' && s[i + 1] == ':' {
        i
    } else {
        separator_index(s, i + 1)
    }
}

/// `s.split("::").next()`: the text before the first `"::"`, or all of `s`.
pub open spec fn first_segment(s: Seq<char>) -> Seq<char> {
    s.take(separator_index(s, 0))
}

// ---------------------------------------------------------------------------
// Executable operations
// ---------------------------------------------------------------------------

/// The characters of `s`, in order.
pub fn chars_of(s: &str) -> (r: Vec<char>)
    ensures
        r@ == s@,
{
    let mut r: Vec<char> = Vec::new();
    for c in it: s.chars()
        invariant
            it.seq() == s@,
            r@ == it.seq().take(it.index() as int),
    {
        r.push(c);
    }
    r
}

/// Wraps `String::push`, which appends one character to a string.
#[verifier::external_body]
fn push_char(s: &mut String, c: char)
    ensures
        final(s)@ == old(s)@.push(c),
{
    s.push(c);
}

/// A string holding `v[lo..hi]`.
pub fn string_from(v: &Vec<char>, lo: usize, hi: usize) -> (r: String)
    requires
        lo <= hi <= v.len(),
    ensures
        r@ == v@.subrange(lo as int, hi as int),
{
    let mut r = String::new();
    let mut i = lo;
    while i < hi
        invariant
            lo <= i <= hi <= v.len(),
            r@ == v@.subrange(lo as int, i as int),
        decreases hi - i,
    {
        push_char(&mut r, v[i]);
        assert(v@.subrange(lo as int, i + 1) == v@.subrange(lo as int, i as int).push(v@[i as int]));
        i = i + 1;
    }
    r
}

/// A string holding all of `v`.
pub fn string_of(v: &Vec<char>) -> (r: String)
    ensures
        r@ == v@,
{
    let r = string_from(v, 0, v.len());
    assert(v@.subrange(0, v@.len() as int) == v@);
    r
}

/// A copy of `s`.
pub fn copy_string(s: &String) -> (r: String)
    ensures
        r@ == s@,
{
    s.clone()
}

/// A copy of an optional string.
pub fn copy_opt_string(s: &Option<String>) -> (r: Option<String>)
    ensures
        r == *s,
{
    match s {
        Some(t) => Some(t.clone()),
        None => None,
    }
}

/// `char::is_whitespace`.
pub fn is_whitespace_char(c: char) -> (r: bool)
    ensures
        r == is_whitespace(c),
{
    ('\u{9}' <= c && c <= '\u{d}') || c == ' ' || c == '\u{85}' || c == '\u{a0}' || c
        == '\u{1680}' || ('\u{2000}' <= c && c <= '\u{200a}') || c == '\u{2028}' || c
        == '\u{2029}' || c == '\u{202f}' || c == '\u{205f}' || c == '\u{3000}'
}

fn strips_char(m: Strip, c: char) -> (r: bool)
    ensures
        r == strips(m, c),
{
    match m {
        Strip::Whitespace => is_whitespace_char(c),
        Strip::Char(d) => c == d,
    }
}

/// Bounds of `v` after removing what `m` strips at the start.
fn start_bound(v: &Vec<char>, lo: usize, hi: usize, m: Strip) -> (r: usize)
    requires
        lo <= hi <= v.len(),
    ensures
        lo <= r <= hi,
        v@.subrange(r as int, hi as int) == trim_start_by(v@.subrange(lo as int, hi as int), m),
{
    let mut i = lo;
    while i < hi && strips_char(m, v[i])
        invariant
            lo <= i <= hi <= v.len(),
            trim_start_by(v@.subrange(i as int, hi as int), m) == trim_start_by(
                v@.subrange(lo as int, hi as int),
                m,
            ),
        decreases hi - i,
    {
        assert(v@.subrange(i as int, hi as int).drop_first() == v@.subrange(i + 1, hi as int));
        i = i + 1;
    }
    i
}

/// Bounds of `v[lo..hi]` after removing what `m` strips at the end.
fn end_bound(v: &Vec<char>, lo: usize, hi: usize, m: Strip) -> (r: usize)
    requires
        lo <= hi <= v.len(),
    ensures
        lo <= r <= hi,
        v@.subrange(lo as int, r as int) == trim_end_by(v@.subrange(lo as int, hi as int), m),
{
    let mut j = hi;
    while j > lo && strips_char(m, v[j - 1])
        invariant
            lo <= j <= hi <= v.len(),
            trim_end_by(v@.subrange(lo as int, j as int), m) == trim_end_by(
                v@.subrange(lo as int, hi as int),
                m,
            ),
        decreases j - lo,
    {
        assert(v@.subrange(lo as int, j as int).drop_last() == v@.subrange(lo as int, j - 1));
        j = j - 1;
    }
    j
}

/// `str::trim` on a character vector.
pub fn trim_chars(v: &Vec<char>) -> (r: Vec<char>)
    ensures
        r@ == trim(v@),
{
    assert(v@.subrange(0, v@.len() as int) == v@);
    let lo = start_bound(v, 0, v.len(), Strip::Whitespace);
    let hi = end_bound(v, lo, v.len(), Strip::Whitespace);
    let mut r: Vec<char> = Vec::new();
    let mut i = lo;
    while i < hi
        invariant
            lo <= i <= hi <= v.len(),
            r@ == v@.subrange(lo as int, i as int),
        decreases hi - i,
    {
        r.push(v[i]);
        assert(v@.subrange(lo as int, i + 1) == v@.subrange(lo as int, i as int).push(v@[i as int]));
        i = i + 1;
    }
    r
}

/// `str::trim`.
pub fn trim_str(s: &str) -> (r: String)
    ensures
        r@ == trim(s@),
{
    let v = chars_of(s);
    let t = trim_chars(&v);
    string_of(&t)
}

/// `s.trim().trim_start_matches(c).trim_end_matches(c)` for a character `c`.
pub fn trim_then_strip_char(s: &str, c: char) -> (r: String)
    ensures
        r@ == trim_end_by(trim_start_by(trim(s@), Strip::Char(c)), Strip::Char(c)),
{
    let v0 = chars_of(s);
    let v = trim_chars(&v0);
    assert(v@.subrange(0, v@.len() as int) == v@);
    let lo = start_bound(&v, 0, v.len(), Strip::Char(c));
    let hi = end_bound(&v, lo, v.len(), Strip::Char(c));
    string_from(&v, lo, hi)
}

/// Whether `p` occurs in `s` at index `i`.
pub fn occurs_at_exec(s: &Vec<char>, p: &Vec<char>, i: usize) -> (r: bool)
    ensures
        r == occurs_at(s@, p@, i as int),
{
    if i > s.len() || p.len() > s.len() - i {
        return false;
    }
    let mut k: usize = 0;
    while k < p.len()
        invariant
            i + p.len() <= s.len(),
            k <= p.len(),
            forall|j: int| 0 <= j < k ==> s@[i + j] == p@[j],
        decreases p.len() - k,
    {
        if s[i + k] != p[k] {
            assert(s@.subrange(i as int, i + p.len())[k as int] != p@[k as int]);
            return false;
        }
        k = k + 1;
    }
    assert(s@.subrange(i as int, i + p.len()) == p@);
    true
}

/// `str::starts_with`.
pub fn starts_with_exec(s: &Vec<char>, p: &Vec<char>) -> (r: bool)
    ensures
        r == starts_with(s@, p@),
{
    occurs_at_exec(s, p, 0)
}

/// `str::contains`.
pub fn contains_exec(s: &Vec<char>, p: &Vec<char>) -> (r: bool)
    ensures
        r == contains(s@, p@),
{
    if p.len() > s.len() {
        assert forall|i: int| !occurs_at(s@, p@, i) by {}
        return false;
    }
    let last = s.len() - p.len();
    let mut i: usize = 0;
    while i <= last
        invariant
            last == s.len() - p.len(),
            forall|j: int| 0 <= j < i ==> !occurs_at(s@, p@, j),
        decreases last + 1 - i,
    {
        if occurs_at_exec(s, p, i) {
            return true;
        }
        if i == last {
            assert forall|j: int| !occurs_at(s@, p@, j) by {
                if 0 <= j && j + p@.len() <= s@.len() {
                    assert(j <= i);
                }
            }
            return false;
        }
        i = i + 1;
    }
    false
}

/// Whether two character vectors are equal.
pub fn chars_eq(a: &Vec<char>, b: &Vec<char>) -> (r: bool)
    ensures
        r == (a@ == b@),
{
    if a.len() != b.len() {
        return false;
    }
    let r = occurs_at_exec(a, b, 0);
    proof {
        if r {
            assert(a@.subrange(0, b@.len() as int) == a@);
        } else {
            assert(a@.subrange(0, b@.len() as int) == a@);
        }
    }
    r
}

/// Whether `s` equals the text `lit`.
pub fn str_eq(s: &str, lit: &str) -> (r: bool)
    ensures
        r == (s@ == lit@),
{
    let a = chars_of(s);
    let b = chars_of(lit);
    chars_eq(&a, &b)
}

/// `s.split("::").next()` as a character vector.
pub fn first_segment_exec(s: &Vec<char>) -> (r: Vec<char>)
    ensures
        r@ == first_segment(s@),
{
    let mut i: usize = 0;
    let mut found = false;
    while !found && i < s.len() && i + 1 < s.len()
        invariant
            i <= s.len(),
            found ==> separator_index(s@, 0) == i,
            !found ==> separator_index(s@, i as int) == separator_index(s@, 0),
        decreases s.len() - i, if found { 0int } else { 1int },
    {
        if s[i] == ':' && s[i + 1] == ':' {
            found = true;
        } else {
            i = i + 1;
        }
    }
    let end: usize = if found { i } else { s.len() };
    let mut r: Vec<char> = Vec::new();
    let mut k: usize = 0;
    while k < end
        invariant
            k <= end <= s.len(),
            r@ == s@.take(k as int),
        decreases end - k,
    {
        r.push(s[k]);
        assert(s@.take(k + 1) == s@.take(k as int).push(s@[k as int]));
        k = k + 1;
    }
    r
}

/// The view of an optional string.
pub open spec fn opt_string_view(s: Option<String>) -> Option<Seq<char>> {
    match s {
        Some(t) => Some(t@),
        None => None,
    }
}

/// What `str::to_lowercase` returns for a text: its Unicode lowercase
/// mapping, which depends on the text alone.
pub uninterp spec fn lowercase(s: Seq<char>) -> Seq<char>;

/// Wraps `str::to_lowercase`.
#[verifier::external_body]
pub(crate) fn to_lowercase(s: &str) -> (r: String)
    ensures
        r@ == lowercase(s@),
{
    s.to_lowercase()
}

/// What `String::from_utf8_lossy` decodes a byte sequence to: its UTF-8
/// text, with each invalid sequence replaced by U+FFFD; it depends on the
/// bytes alone.
pub uninterp spec fn utf8_lossy(bytes: Seq<u8>) -> Seq<char>;

/// Whether every byte is ASCII.
pub open spec fn all_ascii(bytes: Seq<u8>) -> bool {
    forall|i: int| 0 <= i < bytes.len() ==> bytes[i] < 0x80u8
}

/// Wraps `String::from_utf8_lossy`, taking the decoded text as an owned
/// string. ASCII bytes are valid UTF-8 and decode one character per byte.
#[verifier::external_body]
pub(crate) fn decode_utf8_lossy(bytes: &[u8]) -> (r: String)
    ensures
        r@ == utf8_lossy(bytes@),
        all_ascii(bytes@) ==> r@ == bytes@.map_values(|b: u8| b as char),
{
    String::from_utf8_lossy(bytes).into_owned()
}

/// Start of `v[lo..hi]` after every leading repetition of `p` is removed.
fn pattern_start_bound(v: &Vec<char>, lo: usize, hi: usize, p: &Vec<char>) -> (r: usize)
    requires
        lo <= hi <= v.len(),
    ensures
        lo <= r <= hi,
        v@.subrange(r as int, hi as int) == trim_start_pattern(v@.subrange(lo as int, hi as int), p@),
{
    if p.len() == 0 {
        return lo;
    }
    let mut i = lo;
    while p.len() <= hi - i && occurs_at_exec(v, p, i)
        invariant
            lo <= i <= hi <= v.len(),
            p.len() > 0,
            trim_start_pattern(v@.subrange(i as int, hi as int), p@) == trim_start_pattern(
                v@.subrange(lo as int, hi as int),
                p@,
            ),
        decreases hi - i,
    {
        let ghost w = v@.subrange(i as int, hi as int);
        assert(w.subrange(0, p@.len() as int) == v@.subrange(i as int, i + p@.len()));
        assert(w.skip(p@.len() as int) == v@.subrange(i + p@.len(), hi as int));
        i = i + p.len();
    }
    proof {
        let w = v@.subrange(i as int, hi as int);
        if p@.len() <= w.len() && p@.is_prefix_of(w) {
            assert(w.subrange(0, p@.len() as int) == v@.subrange(i as int, i + p@.len()));
            assert(occurs_at(v@, p@, i as int));
        }
    }
    i
}

/// End of `v[lo..hi]` after every trailing repetition of `p` is removed.
fn pattern_end_bound(v: &Vec<char>, lo: usize, hi: usize, p: &Vec<char>) -> (r: usize)
    requires
        lo <= hi <= v.len(),
    ensures
        lo <= r <= hi,
        v@.subrange(lo as int, r as int) == trim_end_pattern(v@.subrange(lo as int, hi as int), p@),
{
    if p.len() == 0 {
        return hi;
    }
    let mut j = hi;
    while p.len() <= j - lo && occurs_at_exec(v, p, j - p.len())
        invariant
            lo <= j <= hi <= v.len(),
            p.len() > 0,
            trim_end_pattern(v@.subrange(lo as int, j as int), p@) == trim_end_pattern(
                v@.subrange(lo as int, hi as int),
                p@,
            ),
        decreases j - lo,
    {
        let ghost w = v@.subrange(lo as int, j as int);
        assert(w.subrange(w.len() - p@.len(), w.len() as int) == v@.subrange(
            j - p@.len(),
            j as int,
        ));
        assert(w.take(w.len() - p@.len()) == v@.subrange(lo as int, j - p@.len()));
        j = j - p.len();
    }
    proof {
        let w = v@.subrange(lo as int, j as int);
        if p@.len() <= w.len() && p@.is_suffix_of(w) {
            assert(w.subrange(w.len() - p@.len(), w.len() as int) == v@.subrange(
                j - p@.len(),
                j as int,
            ));
            assert(occurs_at(v@, p@, j - p@.len()));
        }
    }
    j
}

/// `s.trim().trim_start_matches(open).trim_end_matches(close)` for string
/// patterns.
pub fn trim_then_strip_patterns(s: &str, open: &str, close: &str) -> (r: String)
    ensures
        r@ == trim_end_pattern(trim_start_pattern(trim(s@), open@), close@),
{
    let v0 = chars_of(s);
    let v = trim_chars(&v0);
    let o = chars_of(open);
    let c = chars_of(close);
    assert(v@.subrange(0, v@.len() as int) == v@);
    let lo = pattern_start_bound(&v, 0, v.len(), &o);
    let hi = pattern_end_bound(&v, lo, v.len(), &c);
    string_from(&v, lo, hi)
}

/// Trimming at the start leaves a suffix that does not start with what it
/// removes.
pub proof fn lemma_trim_start_by(s: Seq<char>, m: Strip)
    ensures
        trim_start_by(s, m).len() <= s.len(),
        trim_start_by(s, m) == s.skip(s.len() - trim_start_by(s, m).len()),
        trim_start_by(s, m).len() == 0 || !strips(m, trim_start_by(s, m)[0]),
    decreases s.len(),
{
    if s.len() > 0 && strips(m, s[0]) {
        lemma_trim_start_by(s.drop_first(), m);
        let r = trim_start_by(s, m);
        assert(s.drop_first().skip(s.drop_first().len() - r.len()) == s.skip(s.len() - r.len()));
    } else {
        assert(s.skip(0) == s);
    }
}

/// Trimming at the end leaves a prefix that does not end with what it
/// removes.
pub proof fn lemma_trim_end_by(s: Seq<char>, m: Strip)
    ensures
        trim_end_by(s, m).len() <= s.len(),
        trim_end_by(s, m) == s.take(trim_end_by(s, m).len() as int),
        trim_end_by(s, m).len() == 0 || !strips(m, trim_end_by(s, m).last()),
    decreases s.len(),
{
    if s.len() > 0 && strips(m, s.last()) {
        lemma_trim_end_by(s.drop_last(), m);
        let r = trim_end_by(s, m);
        assert(s.drop_last().take(r.len() as int) == s.take(r.len() as int));
    } else {
        assert(s.take(s.len() as int) == s);
    }
}

/// `str::trim` leaves no whitespace at either end.
pub proof fn lemma_trim_has_no_outer_whitespace(s: Seq<char>)
    ensures
        trim(s).len() == 0 || (!is_whitespace(trim(s)[0]) && !is_whitespace(trim(s).last())),
{
    let a = trim_start_by(s, Strip::Whitespace);
    lemma_trim_start_by(s, Strip::Whitespace);
    lemma_trim_end_by(a, Strip::Whitespace);
    let r = trim(s);
    if r.len() > 0 {
        assert(r[0] == a[0]);
    }
}

/// Stripping a character at both ends of a text leaves none of it at either
/// end.
pub proof fn lemma_strip_char_both_ends(s: Seq<char>, c: char)
    ensures
        ({
            let r = trim_end_by(trim_start_by(s, Strip::Char(c)), Strip::Char(c));
            r.len() == 0 || (r[0] != c && r.last() != c)
        }),
{
    let a = trim_start_by(s, Strip::Char(c));
    lemma_trim_start_by(s, Strip::Char(c));
    lemma_trim_end_by(a, Strip::Char(c));
    let r = trim_end_by(a, Strip::Char(c));
    if r.len() > 0 {
        assert(r[0] == a[0]);
    }
}

/// Removing leading repetitions of a non-empty pattern leaves a suffix that
/// does not start with it.
pub proof fn lemma_trim_start_pattern(s: Seq<char>, p: Seq<char>)
    requires
        p.len() > 0,
    ensures
        trim_start_pattern(s, p).len() <= s.len(),
        !p.is_prefix_of(trim_start_pattern(s, p)),
    decreases s.len(),
{
    if p.is_prefix_of(s) {
        lemma_trim_start_pattern(s.skip(p.len() as int), p);
    }
}

/// Removing trailing repetitions of a non-empty pattern leaves a prefix that
/// does not end with it.
pub proof fn lemma_trim_end_pattern(s: Seq<char>, p: Seq<char>)
    requires
        p.len() > 0,
    ensures
        trim_end_pattern(s, p) == s.take(trim_end_pattern(s, p).len() as int),
        trim_end_pattern(s, p).len() <= s.len(),
        !p.is_suffix_of(trim_end_pattern(s, p)),
    decreases s.len(),
{
    if p.is_suffix_of(s) {
        let t = s.take(s.len() - p.len());
        lemma_trim_end_pattern(t, p);
        let r = trim_end_pattern(s, p);
        assert(t.take(r.len() as int) == s.take(r.len() as int));
    } else {
        assert(s.take(s.len() as int) == s);
    }
}

} // verus!

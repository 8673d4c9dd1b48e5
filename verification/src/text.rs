//! Text as a sequence of characters.
//!
//! Everything in this crate that looks inside a string does so by
//! character, never by byte. This module holds the conversions between
//! `String` and `Vec<char>` and the searches the rest is built on.

use vstd::prelude::*;

verus! {

/// `String::push`: the character is appended to the string.
pub assume_specification[ String::push ](s: &mut String, c: char)
    ensures
        final(s)@ == old(s)@.push(c),
;

/// The characters of a string, in order.
pub fn chars_of(s: &str) -> (v: Vec<char>)
    ensures
        v@ == s@,
{
    let mut v: Vec<char> = Vec::new();
    for c in it: s.chars()
        invariant
            it.seq() == s@,
            v@ == s@.take(it.index()),
    {
        v.push(c);
    }
    v
}

/// The string made of the characters `v[lo..hi]`.
pub fn string_range(v: &[char], lo: usize, hi: usize) -> (s: String)
    requires
        lo <= hi <= v@.len(),
    ensures
        s@ == v@.subrange(lo as int, hi as int),
{
    let mut s = String::new();
    let mut i: usize = lo;
    while i < hi
        invariant
            lo <= i <= hi <= v@.len(),
            s@ == v@.subrange(lo as int, i as int),
        decreases hi - i,
    {
        s.push(v[i]);
        i += 1;
    }
    s
}

/// The string made of the characters of `v`.
pub fn string_of(v: &[char]) -> (s: String)
    ensures
        s@ == v@,
{
    let s = string_range(v, 0, v.len());
    assert(v@.subrange(0, v@.len() as int) =~= v@);
    s
}

/// Whether two strings hold the same characters.
pub fn same_text(a: &str, b: &str) -> (r: bool)
    ensures
        r == (a@ == b@),
{
    let x = a.to_owned();
    let y = b.to_owned();
    x == y
}

// ---------------------------------------------------------------------
// Characters
// ---------------------------------------------------------------------

/// The characters with the Unicode `White_Space` property.
pub open spec fn is_white(c: char) -> bool {
    ||| '\u{9}' <= c <= '\u{d}'
    ||| c == ' '
    ||| c == '\u{85}'
    ||| c == '\u{a0}'
    ||| c == '\u{1680}'
    ||| '\u{2000}' <= c <= '\u{200a}'
    ||| c == '\u{2028}'
    ||| c == '\u{2029}'
    ||| c == '\u{202f}'
    ||| c == '\u{205f}'
    ||| c == '\u{3000}'
}

/// Whether a character is whitespace.
pub fn is_whitespace(c: char) -> (r: bool)
    ensures
        r == is_white(c),
{
    ('\u{9}' <= c && c <= '\u{d}') || c == ' ' || c == '\u{85}' || c == '\u{a0}' || c == '\u{1680}'
        || ('\u{2000}' <= c && c <= '\u{200a}') || c == '\u{2028}' || c == '\u{2029}' || c
        == '\u{202f}' || c == '\u{205f}' || c == '\u{3000}'
}

/// The lower-case form of an ASCII capital; every other character is itself.
pub open spec fn ascii_lower(c: char) -> char {
    if 'A' <= c <= 'Z' {
        (c as u32 + 32) as char
    } else {
        c
    }
}

/// `ascii_lower` of every character.
pub open spec fn ascii_lower_all(s: Seq<char>) -> Seq<char> {
    s.map_values(|c: char| ascii_lower(c))
}

/// The lower-case form of an ASCII capital.
pub fn lower_ascii(c: char) -> (r: char)
    ensures
        r == ascii_lower(c),
{
    if 'A' <= c && c <= 'Z' {
        (c as u8 + 32) as char
    } else {
        c
    }
}

/// A string with its ASCII capitals lowered.
pub fn to_ascii_lowercase(s: &str) -> (r: String)
    ensures
        r@ == ascii_lower_all(s@),
{
    let mut out = String::new();
    for c in it: s.chars()
        invariant
            it.seq() == s@,
            out@ == ascii_lower_all(s@.take(it.index())),
    {
        proof {
            assert(s@.take(it.index() + 1) =~= s@.take(it.index()).push(c));
        }
        out.push(lower_ascii(c));
        assert(out@ =~= ascii_lower_all(s@.take(it.index() + 1)));
    }
    assert(s@.take(s@.len() as int) =~= s@);
    out
}

/// Whether two strings differ at most in the case of ASCII letters.
pub open spec fn same_ignoring_case(a: Seq<char>, b: Seq<char>) -> bool {
    ascii_lower_all(a) == ascii_lower_all(b)
}

/// Whether two strings differ at most in the case of ASCII letters.
pub fn eq_ignore_ascii_case(a: &str, b: &str) -> (r: bool)
    ensures
        r == same_ignoring_case(a@, b@),
{
    let x = to_ascii_lowercase(a);
    let y = to_ascii_lowercase(b);
    x == y
}

/// The name of `str::to_lowercase` applied to the characters of a string.
pub uninterp spec fn unicode_lower(s: Seq<char>) -> Seq<char>;

/// `str::to_lowercase`: the lower-case equivalent of a whole string by the
/// Unicode `Lowercase` mapping. The contract only names the result.
#[verifier::external_body]
pub(crate) fn to_lowercase(s: &str) -> (r: String)
    ensures
        r@ == unicode_lower(s@),
{
    s.to_lowercase()
}

// ---------------------------------------------------------------------
// Searching and trimming
// ---------------------------------------------------------------------

/// `p` stands in `s` at position `i`.
pub open spec fn matches_at(s: Seq<char>, p: Seq<char>, i: int) -> bool {
    0 <= i && i + p.len() <= s.len() && s.subrange(i, i + p.len()) == p
}

/// `p` occurs somewhere in `s`.
pub open spec fn occurs(s: Seq<char>, p: Seq<char>) -> bool {
    exists|i: int| #[trigger] matches_at(s, p, i)
}

/// Whether the characters `p` stand in `s` at position `i`.
pub fn at(s: &[char], p: &[char], i: usize) -> (r: bool)
    ensures
        r == matches_at(s@, p@, i as int),
{
    if i > s.len() || p.len() > s.len() - i {
        return false;
    }
    let mut k: usize = 0;
    while k < p.len()
        invariant
            i + p.len() <= s.len(),
            k <= p@.len(),
            forall|j: int| 0 <= j < k ==> s@[i + j] == p@[j],
        decreases p@.len() - k,
    {
        if s[i + k] != p[k] {
            proof {
                assert(s@.subrange(i as int, i + p@.len())[k as int] == s@[i + k]);
            }
            return false;
        }
        k += 1;
    }
    assert(s@.subrange(i as int, i + p@.len()) =~= p@);
    true
}

/// Whether `s` begins with `p`.
pub fn starts_with(s: &str, p: &str) -> (r: bool)
    ensures
        r == matches_at(s@, p@, 0),
{
    let a = chars_of(s);
    let b = chars_of(p);
    at(&a, &b, 0)
}

/// Whether `p` occurs in `s`.
pub fn contains(s: &str, p: &str) -> (r: bool)
    ensures
        r == occurs(s@, p@),
{
    let a = chars_of(s);
    let b = chars_of(p);
    let mut i: usize = 0;
    while i < a.len()
        invariant
            a@ == s@,
            b@ == p@,
            i <= a@.len(),
            forall|j: int| 0 <= j < i ==> !#[trigger] matches_at(s@, p@, j),
        decreases a@.len() - i,
    {
        if at(&a, &b, i) {
            return true;
        }
        i += 1;
    }
    let r = at(&a, &b, i);
    proof {
        if occurs(s@, p@) {
            let j = choose|j: int| matches_at(s@, p@, j);
            assert(j == i);
        }
    }
    r
}

/// `s` without the whitespace it begins with.
pub open spec fn trim_start_of(s: Seq<char>) -> Seq<char>
    decreases s.len(),
{
    if s.len() > 0 && is_white(s[0]) {
        trim_start_of(s.drop_first())
    } else {
        s
    }
}

/// `s` without the whitespace it ends with.
pub open spec fn trim_end_of(s: Seq<char>) -> Seq<char>
    decreases s.len(),
{
    if s.len() > 0 && is_white(s.last()) {
        trim_end_of(s.drop_last())
    } else {
        s
    }
}

/// `s` without the whitespace at either end.
pub open spec fn trim_of(s: Seq<char>) -> Seq<char> {
    trim_end_of(trim_start_of(s))
}

/// The position of the first character that is not whitespace.
pub fn skip_white(v: &[char]) -> (i: usize)
    ensures
        i <= v@.len(),
        v@.subrange(i as int, v@.len() as int) == trim_start_of(v@),
        forall|j: int| 0 <= j < i ==> is_white(#[trigger] v@[j]),
        i < v@.len() ==> !is_white(v@[i as int]),
{
    let mut i: usize = 0;
    assert(v@.subrange(0, v@.len() as int) =~= v@);
    while i < v.len() && is_whitespace(v[i])
        invariant
            i <= v@.len(),
            trim_start_of(v@.subrange(i as int, v@.len() as int)) == trim_start_of(v@),
            forall|j: int| 0 <= j < i ==> is_white(#[trigger] v@[j]),
        decreases v@.len() - i,
    {
        assert(v@.subrange(i as int, v@.len() as int).drop_first() =~= v@.subrange(
            i + 1,
            v@.len() as int,
        ));
        i += 1;
    }
    i
}

/// The position after the last character of `v[lo..]` that is not whitespace.
pub fn end_of_text(v: &[char], lo: usize) -> (hi: usize)
    requires
        lo <= v@.len(),
    ensures
        lo <= hi <= v@.len(),
        v@.subrange(lo as int, hi as int) == trim_end_of(v@.subrange(lo as int, v@.len() as int)),
{
    let mut hi: usize = v.len();
    while hi > lo && is_whitespace(v[hi - 1])
        invariant
            lo <= hi <= v@.len(),
            trim_end_of(v@.subrange(lo as int, hi as int)) == trim_end_of(
                v@.subrange(lo as int, v@.len() as int),
            ),
        decreases hi,
    {
        assert(v@.subrange(lo as int, hi as int).drop_last() =~= v@.subrange(lo as int, hi - 1));
        hi -= 1;
    }
    hi
}

/// A string without the whitespace it begins with.
pub fn trim_start(s: &str) -> (r: String)
    ensures
        r@ == trim_start_of(s@),
{
    let v = chars_of(s);
    let lo: usize = skip_white(&v);
    string_range(&v, lo, v.len())
}

/// A string without the whitespace it ends with.
pub fn trim_end(s: &str) -> (r: String)
    ensures
        r@ == trim_end_of(s@),
{
    let v = chars_of(s);
    let hi: usize = end_of_text(&v, 0);
    assert(v@.subrange(0, v@.len() as int) =~= v@);
    string_range(&v, 0, hi)
}

/// A string without the whitespace at either end.
pub fn trim(s: &str) -> (r: String)
    ensures
        r@ == trim_of(s@),
{
    let v = chars_of(s);
    let lo: usize = skip_white(&v);
    let hi: usize = end_of_text(&v, lo);
    string_range(&v, lo, hi)
}

/// The position of the first `c` at or after `lo`, or the length of `v`.
pub fn position_from(v: &[char], lo: usize, c: char) -> (i: usize)
    requires
        lo <= v@.len(),
    ensures
        lo <= i <= v@.len(),
        forall|j: int| lo <= j < i ==> v@[j] != c,
        i < v@.len() ==> v@[i as int] == c,
{
    let mut i: usize = lo;
    while i < v.len() && v[i] != c
        invariant
            lo <= i <= v@.len(),
            forall|j: int| lo <= j < i ==> v@[j] != c,
        decreases v@.len() - i,
    {
        i += 1;
    }
    i
}

// ---------------------------------------------------------------------
// Building
// ---------------------------------------------------------------------

/// Two strings, one after the other.
pub fn cat(a: &str, b: &str) -> (r: String)
    ensures
        r@ == a@ + b@,
{
    let mut r = a.to_owned();
    r.append(b);
    r
}

/// Three strings, one after the other.
pub fn cat3(a: &str, b: &str, c: &str) -> (r: String)
    ensures
        r@ == a@ + b@ + c@,
{
    let mut r = a.to_owned();
    r.append(b);
    r.append(c);
    r
}

/// Four strings, one after the other.
pub fn cat4(a: &str, b: &str, c: &str, d: &str) -> (r: String)
    ensures
        r@ == a@ + b@ + c@ + d@,
{
    let mut r = cat3(a, b, c);
    r.append(d);
    r
}

/// Five strings, one after the other.
pub fn cat5(a: &str, b: &str, c: &str, d: &str, e: &str) -> (r: String)
    ensures
        r@ == a@ + b@ + c@ + d@ + e@,
{
    let mut r = cat4(a, b, c, d);
    r.append(e);
    r
}

/// `n` times the character `c`.
pub open spec fn repeated(c: char, n: nat) -> Seq<char> {
    Seq::new(n, |i: int| c)
}

/// `n` times the character `c`.
pub fn repeat(c: char, n: usize) -> (r: String)
    ensures
        r@ == repeated(c, n as nat),
{
    let mut r = String::new();
    let mut i: usize = 0;
    while i < n
        invariant
            i <= n,
            r@ == repeated(c, i as nat),
        decreases n - i,
    {
        r.push(c);
        i += 1;
        assert(r@ =~= repeated(c, i as nat));
    }
    r
}

/// The decimal numeral of `n`, without leading zeros.
pub open spec fn decimal(n: nat) -> Seq<char>
    decreases n,
{
    if n < 10 {
        seq![digit(n)]
    } else {
        decimal(n / 10).push(digit(n % 10))
    }
}

/// The decimal digit of a number below ten.
pub open spec fn digit(n: nat) -> char {
    ('0' as u32 + n) as char
}

/// The decimal numeral of `n`.
pub fn numeral(n: usize) -> (r: String)
    ensures
        r@ == decimal(n as nat),
    decreases n,
{
    let last: u8 = (n % 10) as u8;
    let c = ('0' as u8 + last) as char;
    if n < 10 {
        let mut r = String::new();
        r.push(c);
        assert(r@ =~= seq![digit(n as nat)]);
        r
    } else {
        let mut r = numeral(n / 10);
        r.push(c);
        r
    }
}

/// The first `n` characters of `s`, or all of them if there are fewer.
pub open spec fn prefix(s: Seq<char>, n: int) -> Seq<char> {
    if n < s.len() {
        s.take(n)
    } else {
        s
    }
}

/// A string without its last character; an empty one stays empty.
pub open spec fn shortened(s: Seq<char>) -> Seq<char> {
    if s.len() == 0 {
        s
    } else {
        s.drop_last()
    }
}

/// A string without its last character.
pub fn drop_last_char(s: &str) -> (r: String)
    ensures
        r@ == shortened(s@),
{
    let v = chars_of(s);
    if v.len() == 0 {
        return String::new();
    }
    let r = string_range(&v, 0, v.len() - 1);
    assert(v@.subrange(0, v@.len() - 1) =~= v@.drop_last());
    r
}

/// An optional string as a value.
pub open spec fn opt_text(s: Option<String>) -> Option<Seq<char>> {
    match s {
        Some(t) => Some(t@),
        None => None,
    }
}

/// `s` followed by as many spaces as bring it to `n` characters.
pub open spec fn padded(s: Seq<char>, n: int) -> Seq<char> {
    if s.len() < n {
        s + repeated(' ', (n - s.len()) as nat)
    } else {
        s
    }
}

/// A string filled up with spaces to `n` characters.
pub fn pad_right(s: &str, n: usize) -> (r: String)
    ensures
        r@ == padded(s@, n as int),
{
    let len: usize = s.unicode_len();
    let mut r = s.to_owned();
    if len < n {
        let fill = repeat(' ', n - len);
        r.append(fill.as_str());
    }
    r
}

/// The views of a list of strings.
pub open spec fn texts(v: Seq<String>) -> Seq<Seq<char>> {
    v.map_values(|s: String| s@)
}

/// The strings of a list with `sep` between each two of them.
pub open spec fn joined(v: Seq<Seq<char>>, sep: Seq<char>) -> Seq<char>
    decreases v.len(),
{
    if v.len() == 0 {
        Seq::empty()
    } else if v.len() == 1 {
        v[0]
    } else {
        joined(v.drop_last(), sep) + sep + v.last()
    }
}

/// The first `n` strings of a list with `sep` between each two of them.
pub fn join_first(v: &[String], n: usize, sep: &str) -> (r: String)
    requires
        n <= v@.len(),
    ensures
        r@ == joined(texts(v@).take(n as int), sep@),
{
    let mut r = String::new();
    let mut i: usize = 0;
    while i < n
        invariant
            i <= n <= v@.len(),
            r@ == joined(texts(v@).take(i as int), sep@),
        decreases n - i,
    {
        let ghost t = texts(v@).take(i + 1);
        assert(t.drop_last() =~= texts(v@).take(i as int));
        if i > 0 {
            r.append(sep);
        }
        r.append(v[i].as_str());
        i += 1;
        proof {
            if i == 1 {
                assert(r@ =~= t[0]);
            }
        }
    }
    r
}

/// Text order: by the first character that differs, the shorter first.
pub open spec fn text_before(a: Seq<char>, b: Seq<char>) -> bool
    decreases a.len(),
{
    if b.len() == 0 {
        false
    } else if a.len() == 0 {
        true
    } else if a[0] != b[0] {
        a[0] < b[0]
    } else {
        text_before(a.drop_first(), b.drop_first())
    }
}

/// Whether `a` comes before `b` in text order.
pub fn comes_before(a: &str, b: &str) -> (r: bool)
    ensures
        r == text_before(a@, b@),
{
    let x = chars_of(a);
    let y = chars_of(b);
    let mut i: usize = 0;
    assert(x@.subrange(0, x@.len() as int) =~= x@);
    assert(y@.subrange(0, y@.len() as int) =~= y@);
    while i < x.len() && i < y.len() && x[i] == y[i]
        invariant
            i <= x@.len(),
            i <= y@.len(),
            text_before(x@, y@) == text_before(
                x@.subrange(i as int, x@.len() as int),
                y@.subrange(i as int, y@.len() as int),
            ),
        decreases x@.len() - i,
    {
        assert(x@.subrange(i as int, x@.len() as int).drop_first() =~= x@.subrange(
            i + 1,
            x@.len() as int,
        ));
        assert(y@.subrange(i as int, y@.len() as int).drop_first() =~= y@.subrange(
            i + 1,
            y@.len() as int,
        ));
        i += 1;
    }
    if i == y.len() {
        false
    } else if i == x.len() {
        true
    } else {
        x[i] < y[i]
    }
}

// ---------------------------------------------------------------------
// Splitting
// ---------------------------------------------------------------------

/// The position of the first `c` in `s`, or its length.
pub open spec fn index_of(s: Seq<char>, c: char) -> int
    decreases s.len(),
{
    if s.len() == 0 || s[0] == c {
        0
    } else {
        1 + index_of(s.drop_first(), c)
    }
}

proof fn lemma_index_of(s: Seq<char>, c: char, i: int)
    requires
        0 <= i <= s.len(),
        forall|j: int| 0 <= j < i ==> s[j] != c,
        i < s.len() ==> s[i] == c,
    ensures
        index_of(s, c) == i,
    decreases s.len(),
{
    if i > 0 {
        let t = s.drop_first();
        assert forall|j: int| 0 <= j < i - 1 implies t[j] != c by {
            assert(t[j] == s[j + 1]);
        }
        lemma_index_of(t, c, i - 1);
    }
}

pub proof fn lemma_index_of_bounds(s: Seq<char>, c: char)
    ensures
        0 <= index_of(s, c) <= s.len(),
    decreases s.len(),
{
    if s.len() > 0 {
        lemma_index_of_bounds(s.drop_first(), c);
    }
}

/// A line without the carriage return at its end.
pub open spec fn without_return(s: Seq<char>) -> Seq<char> {
    if s.len() > 0 && s.last() == '\r' {
        s.drop_last()
    } else {
        s
    }
}

/// The lines of a text: each ends at a line feed, with the carriage return
/// before it if there is one, or at the end of the text.
pub open spec fn lines_of(s: Seq<char>) -> Seq<Seq<char>>
    decreases s.len(),
    via lines_of_decreases
{
    if s.len() == 0 {
        Seq::empty()
    } else {
        let i = index_of(s, '\n');
        if i >= s.len() {
            seq![s]
        } else {
            seq![without_return(s.take(i))] + lines_of(s.skip(i + 1))
        }
    }
}

#[via_fn]
proof fn lines_of_decreases(s: Seq<char>) {
    lemma_index_of_bounds(s, '\n');
}

/// The lines of a text.
pub fn split_lines(s: &str) -> (r: Vec<String>)
    ensures
        texts(r@) == lines_of(s@),
{
    let v = chars_of(s);
    let mut r: Vec<String> = Vec::new();
    let mut lo: usize = 0;
    assert(v@.skip(0) =~= v@);
    assert(texts(r@) + lines_of(v@) =~= lines_of(v@));
    while lo < v.len()
        invariant
            lo <= v@.len(),
            v@ == s@,
            texts(r@) + lines_of(v@.skip(lo as int)) == lines_of(s@),
        decreases v@.len() - lo,
    {
        let ghost rest = v@.skip(lo as int);
        let ghost before = r@;
        let i: usize = position_from(&v, lo, '\n');
        proof {
            assert forall|j: int| 0 <= j < i - lo implies rest[j] != '\n' by {
                assert(rest[j] == v@[lo + j]);
            }
            lemma_index_of(rest, '\n', i - lo);
        }
        if i == v.len() {
            let line = string_range(&v, lo, i);
            assert(line@ =~= rest);
            r.push(line);
            lo = i;
            assert(texts(r@) =~= texts(before) + seq![rest]);
            assert(lines_of(v@.skip(lo as int)) =~= Seq::empty());
            assert(texts(r@) + lines_of(v@.skip(lo as int)) =~= texts(before) + lines_of(rest));
        } else {
            let hi: usize = if i > lo && v[i - 1] == '\r' {
                i - 1
            } else {
                i
            };
            let line = string_range(&v, lo, hi);
            assert(rest.take(i - lo) =~= v@.subrange(lo as int, i as int));
            assert(line@ =~= without_return(rest.take(i - lo)));
            assert(rest.skip(i - lo + 1) =~= v@.skip(i + 1));
            r.push(line);
            lo = i + 1;
            assert(texts(r@) =~= texts(before).push(line@));
            assert(texts(r@) + lines_of(v@.skip(lo as int)) =~= texts(before) + lines_of(rest));
        }
    }
    assert(lines_of(v@.skip(lo as int)) =~= Seq::empty());
    assert(texts(r@) + lines_of(v@.skip(lo as int)) =~= texts(r@));
    r
}

/// What stands before the first `c` and what behind it.
pub open spec fn split_at_char(s: Seq<char>, c: char) -> Option<(Seq<char>, Seq<char>)> {
    let i = index_of(s, c);
    if i >= s.len() {
        None
    } else {
        Some((s.take(i), s.skip(i + 1)))
    }
}

/// Two optional strings as a value.
pub open spec fn opt_pair(p: Option<(String, String)>) -> Option<(Seq<char>, Seq<char>)> {
    match p {
        Some((a, b)) => Some((a@, b@)),
        None => None,
    }
}

/// What stands before the first `c` and what behind it.
pub fn split_once(s: &str, c: char) -> (r: Option<(String, String)>)
    ensures
        opt_pair(r) == split_at_char(s@, c),
{
    let v = chars_of(s);
    let i: usize = position_from(&v, 0, c);
    proof {
        lemma_index_of(s@, c, i as int);
    }
    if i == v.len() {
        return None;
    }
    let a = string_range(&v, 0, i);
    let b = string_range(&v, i + 1, v.len());
    assert(a@ =~= s@.take(i as int));
    assert(b@ =~= s@.skip(i + 1));
    Some((a, b))
}

/// The number of characters at the front of `s` that are no white space.
pub open spec fn word_len(s: Seq<char>) -> int
    decreases s.len(),
{
    if s.len() == 0 || is_white(s[0]) {
        0
    } else {
        1 + word_len(s.drop_first())
    }
}

pub proof fn lemma_word_len(s: Seq<char>)
    ensures
        0 <= word_len(s) <= s.len(),
    decreases s.len(),
{
    if s.len() > 0 {
        lemma_word_len(s.drop_first());
    }
}

/// The words of a text, as white space parts them.
pub open spec fn words_of(s: Seq<char>) -> Seq<Seq<char>>
    decreases s.len(),
    via words_of_decreases
{
    if s.len() == 0 {
        Seq::empty()
    } else if is_white(s[0]) {
        words_of(s.drop_first())
    } else {
        seq![s.take(word_len(s))] + words_of(s.skip(word_len(s)))
    }
}

#[via_fn]
proof fn words_of_decreases(s: Seq<char>) {
    lemma_word_len(s);
    if s.len() > 0 && !is_white(s[0]) {
        lemma_word_len(s.drop_first());
    }
}

proof fn lemma_word_end(s: Seq<char>, i: int)
    requires
        0 <= i <= s.len(),
        forall|j: int| 0 <= j < i ==> !is_white(#[trigger] s[j]),
        i < s.len() ==> is_white(s[i]),
    ensures
        word_len(s) == i,
    decreases s.len(),
{
    if i > 0 {
        let t = s.drop_first();
        assert forall|j: int| 0 <= j < i - 1 implies !is_white(#[trigger] t[j]) by {
            assert(t[j] == s[j + 1]);
        }
        lemma_word_end(t, i - 1);
    }
}

/// The words of a text.
pub fn split_words(s: &str) -> (r: Vec<String>)
    ensures
        texts(r@) == words_of(s@),
{
    let v = chars_of(s);
    let mut r: Vec<String> = Vec::new();
    let mut lo: usize = 0;
    assert(v@.skip(0) =~= v@);
    assert(texts(r@) + words_of(v@) =~= words_of(v@));
    while lo < v.len()
        invariant
            lo <= v@.len(),
            v@ == s@,
            texts(r@) + words_of(v@.skip(lo as int)) == words_of(s@),
        decreases v@.len() - lo,
    {
        let ghost rest = v@.skip(lo as int);
        if is_whitespace(v[lo]) {
            assert(rest.drop_first() =~= v@.skip(lo + 1));
            lo += 1;
        } else {
            let ghost before = r@;
            let mut hi: usize = lo;
            while hi < v.len() && !is_whitespace(v[hi])
                invariant
                    lo <= hi <= v@.len(),
                    forall|j: int| lo <= j < hi ==> !is_white(#[trigger] v@[j]),
                decreases v@.len() - hi,
            {
                hi += 1;
            }
            proof {
                assert forall|j: int| 0 <= j < hi - lo implies !is_white(#[trigger] rest[j]) by {
                    assert(rest[j] == v@[lo + j]);
                }
                lemma_word_end(rest, hi - lo);
                if hi == lo {
                    assert(is_white(v@[lo as int]));
                }
            }
            let w = string_range(&v, lo, hi);
            assert(w@ =~= rest.take(hi - lo));
            assert(rest.skip(hi - lo) =~= v@.skip(hi as int));
            r.push(w);
            assert(texts(r@) =~= texts(before).push(w@));
            lo = hi;
            assert(texts(r@) + words_of(v@.skip(lo as int)) =~= texts(before) + words_of(rest));
        }
    }
    assert(words_of(v@.skip(lo as int)) =~= Seq::empty());
    assert(texts(r@) + words_of(v@.skip(lo as int)) =~= texts(r@));
    r
}

// ---------------------------------------------------------------------
// Laws
// ---------------------------------------------------------------------

/// Text order is decided by the first character that differs; where none does,
/// the shorter text comes first.
pub proof fn law_the_first_difference_decides(a: Seq<char>, b: Seq<char>, i: int)
    requires
        0 <= i <= a.len(),
        i <= b.len(),
        forall|j: int| 0 <= j < i ==> a[j] == b[j],
        i < a.len() && i < b.len() ==> a[i] != b[i],
    ensures
        text_before(a, b) <==> (if i < a.len() && i < b.len() {
            a[i] < b[i]
        } else {
            a.len() < b.len()
        }) && (i == a.len() || i == b.len() || a[i] < b[i]),
    decreases i,
{
    if i > 0 {
        let x = a.drop_first();
        let y = b.drop_first();
        assert forall|j: int| 0 <= j < i - 1 implies x[j] == y[j] by {
            assert(a[j + 1] == b[j + 1]);
        }
        assert(a[0] == b[0]);
        law_the_first_difference_decides(x, y, i - 1);
    }
}

/// Trimming takes away whitespace at both ends, all of it, and nothing else.
pub proof fn law_trimming_takes_whitespace_alone(s: Seq<char>)
    ensures
        exists|a: int, b: int|
            #![trigger s.subrange(a, b)]
            0 <= a <= b <= s.len() && trim_of(s) == s.subrange(a, b) && (forall|j: int|
                0 <= j < a ==> is_white(#[trigger] s[j])) && (forall|j: int|
                b <= j < s.len() ==> is_white(#[trigger] s[j])),
        trim_of(s).len() > 0 ==> !is_white(trim_of(s)[0]) && !is_white(trim_of(s).last()),
{
    let a = lemma_trim_start(s);
    let t = trim_start_of(s);
    let k = lemma_trim_end(t);
    let b = a + k;
    assert(trim_of(s) =~= s.subrange(a, b));
    assert forall|j: int| b <= j < s.len() implies is_white(#[trigger] s[j]) by {
        assert(t[j - a] == s[j]);
    }
    if trim_of(s).len() > 0 {
        assert(trim_of(s)[0] == t[0]);
    }
}

proof fn lemma_trim_start(s: Seq<char>) -> (a: int)
    ensures
        0 <= a <= s.len(),
        trim_start_of(s) == s.skip(a),
        forall|j: int| 0 <= j < a ==> is_white(#[trigger] s[j]),
        a < s.len() ==> !is_white(s[a]),
    decreases s.len(),
{
    if s.len() > 0 && is_white(s[0]) {
        let r = s.drop_first();
        let a = lemma_trim_start(r);
        assert(r.skip(a) =~= s.skip(a + 1));
        assert forall|j: int| 0 <= j < a + 1 implies is_white(#[trigger] s[j]) by {
            if j > 0 {
                assert(r[j - 1] == s[j]);
            }
        }
        a + 1
    } else {
        assert(s.skip(0) =~= s);
        0
    }
}

proof fn lemma_trim_end(s: Seq<char>) -> (b: int)
    ensures
        0 <= b <= s.len(),
        trim_end_of(s) == s.take(b),
        forall|j: int| b <= j < s.len() ==> is_white(#[trigger] s[j]),
        b > 0 ==> !is_white(s[b - 1]),
    decreases s.len(),
{
    if s.len() > 0 && is_white(s.last()) {
        let r = s.drop_last();
        let b = lemma_trim_end(r);
        assert(r.take(b) =~= s.take(b));
        assert forall|j: int| b <= j < s.len() implies is_white(#[trigger] s[j]) by {
            if j < r.len() {
                assert(r[j] == s[j]);
            }
        }
        b
    } else {
        assert(s.take(s.len() as int) =~= s);
        s.len() as int
    }
}

/// The number that a numeral stands for.
pub open spec fn number_of(s: Seq<char>) -> int
    decreases s.len(),
{
    if s.len() == 0 {
        0
    } else {
        10 * number_of(s.drop_last()) + (s.last() as u32 - '0' as u32)
    }
}

/// A numeral stands for its number, in digits, and begins with no nought but
/// that of nought.
pub proof fn law_numerals_stand_for_their_number(n: nat)
    ensures
        number_of(decimal(n)) == n,
        decimal(n).len() > 0,
        forall|j: int| 0 <= j < decimal(n).len() ==> '0' <= #[trigger] decimal(n)[j] <= '9',
        n > 0 ==> decimal(n)[0] != '0',
    decreases n,
{
    reveal_with_fuel(number_of, 2);
    let c = digit(n % 10);
    assert('0' as u32 + n % 10 <= 57);
    assert(c as u32 == '0' as u32 + n % 10);
    if n >= 10 {
        law_numerals_stand_for_their_number(n / 10);
        assert(decimal(n).drop_last() =~= decimal(n / 10));
        assert forall|j: int| 0 <= j < decimal(n).len() implies '0' <= #[trigger] decimal(n)[j]
            <= '9' by {
            if j < decimal(n / 10).len() {
                assert(decimal(n)[j] == decimal(n / 10)[j]);
            }
        }
        assert(decimal(n)[0] == decimal(n / 10)[0]);
    } else {
        assert(decimal(n) =~= seq![digit(n)]);
        assert(decimal(n).drop_last() =~= Seq::<char>::empty());
    }
}

/// Splitting at a character takes the first one out and nothing else.
pub proof fn law_splitting_takes_out_the_first(s: Seq<char>, c: char)
    ensures
        match split_at_char(s, c) {
            Some((a, b)) => s == a + seq![c] + b && !a.contains(c),
            None => !s.contains(c),
        },
{
    lemma_first_index(s, c);
    let i = index_of(s, c);
    if i < s.len() {
        assert(s =~= s.take(i) + seq![c] + s.skip(i + 1));
        let a = s.take(i);
        if a.contains(c) {
            let j = choose|j: int| 0 <= j < a.len() && a[j] == c;
            assert(s[j] == c);
        }
    }
}

proof fn lemma_first_index(s: Seq<char>, c: char)
    ensures
        0 <= index_of(s, c) <= s.len(),
        forall|j: int| 0 <= j < index_of(s, c) ==> #[trigger] s[j] != c,
        index_of(s, c) < s.len() ==> s[index_of(s, c)] == c,
    decreases s.len(),
{
    if s.len() > 0 && s[0] != c {
        let t = s.drop_first();
        lemma_first_index(t, c);
        assert forall|j: int| 0 <= j < index_of(s, c) implies #[trigger] s[j] != c by {
            if j > 0 {
                assert(t[j - 1] == s[j]);
            }
        }
    }
}

/// No line holds a line feed, and a text without carriage returns is its lines
/// with a line feed between each two, and one at its end if it ends in one.
pub proof fn law_lines_make_up_the_text(s: Seq<char>)
    ensures
        forall|i: int, j: int|
            0 <= i < lines_of(s).len() && 0 <= j < lines_of(s)[i].len()
                ==> #[trigger] lines_of(s)[i][j] != '\n',
        !s.contains('\r') ==> unlined(lines_of(s)) == (if s.len() > 0 && s.last() != '\n' {
            s.push('\n')
        } else {
            s
        }),
    decreases s.len(),
{
    lemma_first_index(s, '\n');
    let i = index_of(s, '\n');
    let l = lines_of(s);
    if s.len() == 0 {
        assert(unlined(l) =~= s);
    } else if i >= s.len() {
        assert(l[0] == s);
        assert(unlined(seq![s].drop_first()) =~= Seq::<char>::empty()) by {
            assert(seq![s].drop_first() =~= Seq::<Seq<char>>::empty());
        }
        assert(unlined(l) =~= s.push('\n'));
    } else {
        let first = without_return(s.take(i));
        let rest = s.skip(i + 1);
        law_lines_make_up_the_text(rest);
        assert(l =~= seq![first] + lines_of(rest));
        assert(l.drop_first() =~= lines_of(rest));
        assert forall|a: int, j: int|
            0 <= a < l.len() && 0 <= j < l[a].len() implies #[trigger] l[a][j] != '\n' by {
            if a == 0 {
                assert(first[j] == s[j]);
            } else {
                assert(l[a] == lines_of(rest)[a - 1]);
                assert(lines_of(rest)[a - 1][j] != '\n');
            }
        }
        if !s.contains('\r') {
            assert forall|j: int| 0 <= j < rest.len() implies rest[j] != '\r' by {
                assert(rest[j] == s[i + 1 + j]);
            }
            assert(!rest.contains('\r'));
            if i > 0 {
                assert(s[i - 1] != '\r');
                assert(s.take(i).last() == s[i - 1]);
            }
            assert(first =~= s.take(i));
            if rest.len() > 0 {
                assert(rest.last() == s.last());
            }
            assert(unlined(l) =~= s.take(i).push('\n') + unlined(lines_of(rest)));
            assert(s =~= s.take(i).push('\n') + rest);
            assert(s.push('\n') =~= s.take(i).push('\n') + rest.push('\n'));
        }
    }
}

/// Lines as a text, each with a line feed behind it.
pub open spec fn unlined(v: Seq<Seq<char>>) -> Seq<char>
    decreases v.len(),
{
    if v.len() == 0 {
        Seq::empty()
    } else {
        v[0].push('\n') + unlined(v.drop_first())
    }
}

/// Words are not empty and hold no whitespace.
pub proof fn law_words_hold_no_whitespace(s: Seq<char>)
    ensures
        forall|i: int| 0 <= i < words_of(s).len() ==> (#[trigger] words_of(s)[i]).len() > 0,
        forall|i: int, j: int|
            0 <= i < words_of(s).len() && 0 <= j < words_of(s)[i].len() ==> !is_white(
                #[trigger] words_of(s)[i][j],
            ),
        unblanked(s) == concatenated(words_of(s)),
    decreases s.len(),
{
    if s.len() > 0 {
        if is_white(s[0]) {
            law_words_hold_no_whitespace(s.drop_first());
        } else {
            lemma_word_len(s);
            lemma_word_is_a_word(s);
            let n = word_len(s);
            let rest = s.skip(n);
            law_words_hold_no_whitespace(rest);
            let w = words_of(s);
            assert(w =~= seq![s.take(n)] + words_of(rest));
            assert(w.drop_first() =~= words_of(rest));
            assert forall|i: int| 0 <= i < w.len() implies (#[trigger] w[i]).len() > 0 by {
                if i > 0 {
                    assert(w[i] == words_of(rest)[i - 1]);
                }
            }
            assert forall|i: int, j: int|
                0 <= i < w.len() && 0 <= j < w[i].len() implies !is_white(
                #[trigger] w[i][j],
            ) by {
                if i == 0 {
                    assert(w[0][j] == s[j]);
                } else {
                    assert(w[i] == words_of(rest)[i - 1]);
                    assert(!is_white(words_of(rest)[i - 1][j]));
                }
            }
            lemma_unblanked(s, n);
        }
    } else {
        assert(unblanked(s) =~= concatenated(words_of(s)));
    }
}

/// A text without its whitespace.
pub open spec fn unblanked(s: Seq<char>) -> Seq<char>
    decreases s.len(),
{
    if s.len() == 0 {
        s
    } else if is_white(s[0]) {
        unblanked(s.drop_first())
    } else {
        seq![s[0]] + unblanked(s.drop_first())
    }
}

/// Texts one behind the other.
pub open spec fn concatenated(v: Seq<Seq<char>>) -> Seq<char>
    decreases v.len(),
{
    if v.len() == 0 {
        Seq::empty()
    } else {
        v[0] + concatenated(v.drop_first())
    }
}

proof fn lemma_word_is_a_word(s: Seq<char>)
    ensures
        s.len() > 0 && !is_white(s[0]) ==> word_len(s) > 0,
        forall|j: int| 0 <= j < word_len(s) ==> !is_white(#[trigger] s[j]),
    decreases s.len(),
{
    if s.len() > 0 && !is_white(s[0]) {
        let t = s.drop_first();
        lemma_word_len(t);
        lemma_word_is_a_word(t);
        assert forall|j: int| 0 <= j < word_len(s) implies !is_white(#[trigger] s[j]) by {
            if j > 0 {
                assert(t[j - 1] == s[j]);
            }
        }
    }
}

proof fn lemma_unblanked(s: Seq<char>, n: int)
    requires
        0 <= n <= s.len(),
        forall|j: int| 0 <= j < n ==> !is_white(#[trigger] s[j]),
    ensures
        unblanked(s) == s.take(n) + unblanked(s.skip(n)),
    decreases n,
{
    if n > 0 {
        let t = s.drop_first();
        assert forall|j: int| 0 <= j < n - 1 implies !is_white(#[trigger] t[j]) by {
            assert(t[j] == s[j + 1]);
        }
        lemma_unblanked(t, n - 1);
        assert(!is_white(s[0]));
        assert(t.skip(n - 1) =~= s.skip(n));
        assert(s.take(n) =~= seq![s[0]] + t.take(n - 1));
        assert(unblanked(s) =~= s.take(n) + unblanked(s.skip(n)));
    } else {
        assert(s.skip(0) =~= s);
        assert(unblanked(s) =~= s.take(0) + unblanked(s));
    }
}

/// A text is split at the first of the characters it is split at.
pub proof fn law_texts_are_split_where_they_were_joined(a: Seq<char>, c: char, b: Seq<char>)
    requires
        !a.contains(c),
    ensures
        split_at_char(a + seq![c] + b, c) == Some((a, b)),
        split_at_char(a, c) is None,
{
    let s = a + seq![c] + b;
    lemma_first_index(s, c);
    lemma_first_index(a, c);
    let i = index_of(s, c);
    if i < a.len() {
        assert(a[i] == c);
    }
    if i > a.len() {
        assert(s[a.len() as int] == c);
    }
    let k = index_of(a, c);
    if k < a.len() {
        assert(a[k] == c);
    }
    assert(s.take(i) =~= a);
    assert(s.skip(i + 1) =~= b);
}

/// A line in front of a text is its first line.
pub proof fn law_a_line_comes_off(line: Seq<char>, rest: Seq<char>)
    requires
        !line.contains('\n'),
        !line.contains('\r'),
    ensures
        lines_of(line + seq!['\n'] + rest) == seq![line] + lines_of(rest),
        line.len() > 0 ==> lines_of(line) == seq![line],
{
    law_texts_are_split_where_they_were_joined(line, '\n', rest);
    let s = line + seq!['\n'] + rest;
    lemma_first_index(s, '\n');
    lemma_first_index(line, '\n');
    let i = index_of(s, '\n');
    assert(s.take(i) == line);
    assert(s.skip(i + 1) == rest);
    if line.len() > 0 {
        assert(line.contains(line.last()));
    }
    assert(without_return(line) == line);
}

} // verus!

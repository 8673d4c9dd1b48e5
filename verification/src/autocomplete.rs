//! The inline completion popup: what opens it, how its candidates are
//! ranked, and what accepting one writes.

use crate::edit_buffer::{EditBuffer, EditView};
use crate::text::{
    cat3, comes_before, is_white, is_whitespace, same_text, string_range, text_before, texts,
    to_lowercase, unicode_lower,
};
use vstd::prelude::*;

verus! {

/// What a popup completes.
#[derive(Clone, Copy, PartialEq, Eq, Structural, Debug)]
pub enum AutocompleteKind {
    /// `[[page`
    PageRef,
    /// `#tag`
    Tag,
    /// `((block`
    BlockRef,
    /// `/command`
    SlashCommand,
    /// `@person`
    Mention,
    /// `:emoji`
    Emoji,
}

// ---------------------------------------------------------------------
// Triggers
// ---------------------------------------------------------------------

/// The name of `char::is_alphanumeric`.
pub uninterp spec fn is_alnum(c: char) -> bool;

/// `char::is_alphanumeric`: whether a character is a letter or a number by
/// the Unicode tables. The contract only names the result.
pub assume_specification[ char::is_alphanumeric ](c: char) -> (r: bool)
    ensures
        r == is_alnum(c),
;

/// A token starts at `k`: the text does, or whitespace stands before it.
pub open spec fn starts_word(s: Seq<char>, k: int) -> bool {
    k == 0 || is_white(s[k - 1])
}

/// The last position in `lo..hi` at which `stop` holds.
pub open spec fn last_stop(s: Seq<char>, lo: int, hi: int, stop: spec_fn(Seq<char>, int) -> bool) -> Option<
    int,
>
    decreases hi - lo,
{
    if hi <= lo {
        None
    } else if stop(s, hi - 1) {
        Some(hi - 1)
    } else {
        last_stop(s, lo, hi - 1, stop)
    }
}

/// What ends the search for an `@`: the sign itself, a line break, or a
/// bracket.
pub open spec fn stops_mention(s: Seq<char>, k: int) -> bool {
    s[k] == '@' || s[k] == '\n' || s[k] == '[' || s[k] == ']' || s[k] == '(' || s[k] == ')'
}

/// What ends the search for any other trigger: the second `[` or `(` of a
/// pair, a `#`, `/` or `:`, whitespace, or a closing bracket.
pub open spec fn stops_token(s: Seq<char>, k: int) -> bool {
    ||| s[k] == '[' && k >= 1 && s[k - 1] == '['
    ||| s[k] == '(' && k >= 1 && s[k - 1] == '('
    ||| s[k] == '#'
    ||| s[k] == '/'
    ||| s[k] == ':'
    ||| is_white(s[k])
    ||| s[k] == ']'
}

/// A character of a tag.
pub open spec fn is_tag_char(c: char) -> bool {
    is_alnum(c) || c == '-' || c == '_' || c == '/'
}

/// A character of a command name.
pub open spec fn is_command_char(c: char) -> bool {
    'a' <= c <= 'z' || '0' <= c <= '9' || c == '-'
}

/// A character of an emoji shortcode.
pub open spec fn is_shortcode_char(c: char) -> bool {
    'a' <= c <= 'z' || '0' <= c <= '9' || c == '_' || c == '+' || c == '-'
}

/// How far back a trigger is looked for.
pub const LOOKBACK: usize = 64;

/// The first position in which a trigger for `cursor` is looked for.
pub open spec fn lookback_from(cursor: int) -> int {
    if cursor > LOOKBACK {
        cursor - LOOKBACK
    } else {
        0
    }
}

/// The mention being typed at `cursor`: a word-initial `@` not farther back
/// than [`LOOKBACK`], with no line break or bracket behind it. Spaces
/// are part of the name.
pub open spec fn mention_at(s: Seq<char>, cursor: int) -> Option<Seq<char>> {
    match last_stop(s, lookback_from(cursor), cursor, |t: Seq<char>, k: int| stops_mention(t, k)) {
        Some(k) if s[k] == '@' && starts_word(s, k) => Some(s.subrange(k + 1, cursor)),
        _ => None,
    }
}

/// The page, block, tag, command or emoji being typed at `cursor`, begun not
/// farther back than [`LOOKBACK`].
pub open spec fn token_at(s: Seq<char>, cursor: int) -> Option<(AutocompleteKind, Seq<char>)> {
    match last_stop(s, lookback_from(cursor), cursor, |t: Seq<char>, k: int| stops_token(t, k)) {
        None => None,
        Some(k) => {
            let q = s.subrange(k + 1, cursor);
            if s[k] == '[' && k >= 1 && s[k - 1] == '[' {
                Some((AutocompleteKind::PageRef, q))
            } else if s[k] == '(' && k >= 1 && s[k - 1] == '(' {
                if q.contains(')') {
                    None
                } else {
                    Some((AutocompleteKind::BlockRef, q))
                }
            } else if s[k] == '#' {
                if starts_word(s, k) && forall|i: int|
                    0 <= i < q.len() ==> is_tag_char(#[trigger] q[i]) {
                    Some((AutocompleteKind::Tag, q))
                } else {
                    None
                }
            } else if s[k] == '/' {
                if starts_word(s, k) && forall|i: int|
                    0 <= i < q.len() ==> is_command_char(#[trigger] q[i]) {
                    Some((AutocompleteKind::SlashCommand, q))
                } else {
                    None
                }
            } else if s[k] == ':' {
                if starts_word(s, k) && q.len() > 0 && 'a' <= q[0] <= 'z' && forall|i: int|
                    0 <= i < q.len() ==> is_shortcode_char(#[trigger] q[i]) {
                    Some((AutocompleteKind::Emoji, q))
                } else {
                    None
                }
            } else {
                None
            }
        },
    }
}

/// The trigger that is open at `cursor`, with the query behind it.
pub open spec fn trigger_at(s: Seq<char>, cursor: int) -> Option<(AutocompleteKind, Seq<char>)> {
    match mention_at(s, cursor) {
        Some(q) => Some((AutocompleteKind::Mention, q)),
        None => token_at(s, cursor),
    }
}

/// A trigger as a value.
pub open spec fn trigger_view(t: Option<(AutocompleteKind, String)>) -> Option<
    (AutocompleteKind, Seq<char>),
> {
    match t {
        Some((k, q)) => Some((k, q@)),
        None => None,
    }
}

fn word_initial(chars: &[char], k: usize) -> (r: bool)
    requires
        k < chars@.len(),
    ensures
        r == starts_word(chars@, k as int),
{
    k == 0 || is_whitespace(chars[k - 1])
}

fn lookback_start(cursor: usize) -> (lo: usize)
    ensures
        lo == lookback_from(cursor as int),
        lo <= cursor,
{
    if cursor > LOOKBACK {
        cursor - LOOKBACK
    } else {
        0
    }
}

fn mention_start(chars: &[char], cursor: usize) -> (r: Option<usize>)
    requires
        cursor <= chars@.len(),
    ensures
        match r {
            Some(j) => j <= cursor && mention_at(chars@, cursor as int) == Some(
                chars@.subrange(j as int, cursor as int),
            ),
            None => mention_at(chars@, cursor as int) is None,
        },
{
    let lo: usize = lookback_start(cursor);
    let ghost stop = |t: Seq<char>, k: int| stops_mention(t, k);
    let mut j: usize = cursor;
    while j > lo
        invariant
            lo <= j <= cursor <= chars@.len(),
            stop == (|t: Seq<char>, k: int| stops_mention(t, k)),
            last_stop(chars@, lo as int, cursor as int, stop) == last_stop(
                chars@,
                lo as int,
                j as int,
                stop,
            ),
            lo == lookback_from(cursor as int),
        decreases j,
    {
        let c = chars[j - 1];
        if c == '@' {
            if word_initial(chars, j - 1) {
                return Some(j);
            }
            return None;
        }
        if c == '\n' || c == '[' || c == ']' || c == '(' || c == ')' {
            return None;
        }
        j -= 1;
    }
    None
}

fn all_tag_chars(chars: &[char], lo: usize, hi: usize) -> (r: bool)
    requires
        lo <= hi <= chars@.len(),
    ensures
        r == (forall|i: int|
            0 <= i < hi - lo ==> is_tag_char(
                #[trigger] chars@.subrange(lo as int, hi as int)[i],
            )),
{
    let ghost q = chars@.subrange(lo as int, hi as int);
    let mut i: usize = lo;
    while i < hi
        invariant
            lo <= i <= hi <= chars@.len(),
            q == chars@.subrange(lo as int, hi as int),
            forall|j: int| 0 <= j < i - lo ==> is_tag_char(#[trigger] q[j]),
        decreases hi - i,
    {
        let c = chars[i];
        if !(c.is_alphanumeric() || c == '-' || c == '_' || c == '/') {
            assert(!is_tag_char(q[i - lo]));
            return false;
        }
        i += 1;
    }
    true
}

fn all_command_chars(chars: &[char], lo: usize, hi: usize) -> (r: bool)
    requires
        lo <= hi <= chars@.len(),
    ensures
        r == (forall|i: int|
            0 <= i < hi - lo ==> is_command_char(
                #[trigger] chars@.subrange(lo as int, hi as int)[i],
            )),
{
    let ghost q = chars@.subrange(lo as int, hi as int);
    let mut i: usize = lo;
    while i < hi
        invariant
            lo <= i <= hi <= chars@.len(),
            q == chars@.subrange(lo as int, hi as int),
            forall|j: int| 0 <= j < i - lo ==> is_command_char(#[trigger] q[j]),
        decreases hi - i,
    {
        let c = chars[i];
        if !(('a' <= c && c <= 'z') || ('0' <= c && c <= '9') || c == '-') {
            assert(!is_command_char(q[i - lo]));
            return false;
        }
        i += 1;
    }
    true
}

/// Whether a character may stand in an emoji shortcode.
pub fn is_valid_shortcode_char(c: char) -> (r: bool)
    ensures
        r == is_shortcode_char(c),
{
    ('a' <= c && c <= 'z') || ('0' <= c && c <= '9') || c == '_' || c == '+' || c == '-'
}

fn all_shortcode_chars(chars: &[char], lo: usize, hi: usize) -> (r: bool)
    requires
        lo <= hi <= chars@.len(),
    ensures
        r == (forall|i: int|
            0 <= i < hi - lo ==> is_shortcode_char(
                #[trigger] chars@.subrange(lo as int, hi as int)[i],
            )),
{
    let ghost q = chars@.subrange(lo as int, hi as int);
    let mut i: usize = lo;
    while i < hi
        invariant
            lo <= i <= hi <= chars@.len(),
            q == chars@.subrange(lo as int, hi as int),
            forall|j: int| 0 <= j < i - lo ==> is_shortcode_char(#[trigger] q[j]),
        decreases hi - i,
    {
        if !is_valid_shortcode_char(chars[i]) {
            assert(!is_shortcode_char(q[i - lo]));
            return false;
        }
        i += 1;
    }
    true
}

fn has_char(chars: &[char], lo: usize, hi: usize, c: char) -> (r: bool)
    requires
        lo <= hi <= chars@.len(),
    ensures
        r == chars@.subrange(lo as int, hi as int).contains(c),
{
    let ghost q = chars@.subrange(lo as int, hi as int);
    let mut i: usize = lo;
    while i < hi
        invariant
            lo <= i <= hi <= chars@.len(),
            q == chars@.subrange(lo as int, hi as int),
            forall|j: int| 0 <= j < i - lo ==> q[j] != c,
        decreases hi - i,
    {
        if chars[i] == c {
            assert(q[i - lo] == c);
            return true;
        }
        i += 1;
    }
    false
}

/// Looks at most [`LOOKBACK`] characters back from `cursor` for an open `[[`, `((`, `#`, `/`, `@` or `:`
/// and the query typed after it.
pub fn detect_trigger(chars: &[char], cursor: usize) -> (t: Option<(AutocompleteKind, String)>)
    requires
        cursor <= chars@.len(),
    ensures
        trigger_view(t) == trigger_at(chars@, cursor as int),
{
    if let Some(j) = mention_start(chars, cursor) {
        return Some((AutocompleteKind::Mention, string_range(chars, j, cursor)));
    }
    let lo: usize = lookback_start(cursor);
    let ghost stop = |t: Seq<char>, k: int| stops_token(t, k);
    let mut i: usize = cursor;
    while i > lo
        invariant
            lo <= i <= cursor <= chars@.len(),
            lo == lookback_from(cursor as int),
            stop == (|t: Seq<char>, k: int| stops_token(t, k)),
            mention_at(chars@, cursor as int) is None,
            last_stop(chars@, lo as int, cursor as int, stop) == last_stop(
                chars@,
                lo as int,
                i as int,
                stop,
            ),
        decreases i,
    {
        let prev = chars[i - 1];
        if prev == '[' && i >= 2 && chars[i - 2] == '[' {
            return Some((AutocompleteKind::PageRef, string_range(chars, i, cursor)));
        }
        if prev == '(' && i >= 2 && chars[i - 2] == '(' {
            if has_char(chars, i, cursor, ')') {
                return None;
            }
            return Some((AutocompleteKind::BlockRef, string_range(chars, i, cursor)));
        }
        if prev == '#' {
            if !word_initial(chars, i - 1) || !all_tag_chars(chars, i, cursor) {
                return None;
            }
            return Some((AutocompleteKind::Tag, string_range(chars, i, cursor)));
        }
        if prev == '/' {
            if !word_initial(chars, i - 1) || !all_command_chars(chars, i, cursor) {
                return None;
            }
            return Some((AutocompleteKind::SlashCommand, string_range(chars, i, cursor)));
        }
        if prev == ':' {
            if !word_initial(chars, i - 1) || i == cursor {
                return None;
            }
            let first = chars[i];
            assert(first == chars@.subrange(i as int, cursor as int)[0]);
            if !('a' <= first && first <= 'z') || !all_shortcode_chars(chars, i, cursor) {
                return None;
            }
            return Some((AutocompleteKind::Emoji, string_range(chars, i, cursor)));
        }
        if is_whitespace(prev) || prev == ']' {
            return None;
        }
        i -= 1;
    }
    None
}

proof fn lemma_last_stop(
    s: Seq<char>,
    lo: int,
    hi: int,
    stop: spec_fn(Seq<char>, int) -> bool,
    j: int,
)
    requires
        lo <= j < hi,
    ensures
        last_stop(s, lo, hi, stop) matches Some(k) ==> lo <= k < hi && stop(s, k),
        last_stop(s, lo, hi, stop) matches Some(k) ==> k < j ==> !stop(s, j),
        last_stop(s, lo, hi, stop) is None ==> !stop(s, j),
    decreases hi - lo,
{
    if !stop(s, hi - 1) {
        if j < hi - 1 {
            lemma_last_stop(s, lo, hi - 1, stop, j);
        } else if lo < hi - 1 {
            lemma_last_stop(s, lo, hi - 1, stop, lo);
        }
    }
}

/// The text between an open page, block, tag, command or emoji trigger and
/// the cursor holds no whitespace: a space closes every token but a
/// mention.
pub proof fn law_a_space_closes_the_token(s: Seq<char>, cursor: int)
    requires
        0 <= cursor <= s.len(),
    ensures
        token_at(s, cursor) matches Some(t) ==> forall|i: int|
            0 <= i < t.1.len() ==> !is_white(#[trigger] t.1[i]) && t.1[i] != ']',
{
    let stop = |t: Seq<char>, k: int| stops_token(t, k);
    if let Some(t) = token_at(s, cursor) {
        let lo = lookback_from(cursor);
        let k = last_stop(s, lo, cursor, stop)->0;
        let q = t.1;
        lemma_last_stop(s, lo, cursor, stop, lo);
        assert forall|i: int| 0 <= i < q.len() implies !is_white(#[trigger] q[i]) && q[i]
            != ']' by {
            lemma_last_stop(s, lo, cursor, stop, k + 1 + i);
            assert(q[i] == s[k + 1 + i]);
        }
    }
}

/// A trigger is not looked for far back: what has been typed behind it is
/// shorter than [`LOOKBACK`].
pub proof fn law_lookback_is_short(s: Seq<char>, cursor: int)
    requires
        0 <= cursor <= s.len(),
    ensures
        trigger_at(s, cursor) matches Some(t) ==> t.1.len() < LOOKBACK,
{
    let lo = lookback_from(cursor);
    let mention = |t: Seq<char>, k: int| stops_mention(t, k);
    let token = |t: Seq<char>, k: int| stops_token(t, k);
    if lo < cursor {
        lemma_last_stop(s, lo, cursor, mention, lo);
        lemma_last_stop(s, lo, cursor, token, lo);
    }
}

// ---------------------------------------------------------------------
// Ranking
// ---------------------------------------------------------------------

/// A name and how well it matches the query.
#[derive(Debug)]
pub struct Scored {
    pub score: i32,
    pub name: String,
}

/// A scored name as a value.
pub ghost struct ScoredValue {
    pub score: int,
    pub name: Seq<char>,
}

impl View for Scored {
    type V = ScoredValue;

    open spec fn view(&self) -> ScoredValue {
        ScoredValue { score: self.score as int, name: self.name@ }
    }
}

/// Scored names as values.
pub open spec fn scored_view(v: Seq<Scored>) -> Seq<ScoredValue> {
    v.map_values(|s: Scored| s@)
}

/// How many candidates a popup shows.
pub const POPUP_MAX: usize = 8;

/// `a` is listed before `b`: the better score first, then by name.
pub open spec fn ranks_before(a: ScoredValue, b: ScoredValue) -> bool {
    a.score > b.score || (a.score == b.score && text_before(a.name, b.name))
}

/// A ranking with one more name, before the first that it ranks before.
pub open spec fn ranked_in(r: Seq<ScoredValue>, x: ScoredValue) -> Seq<ScoredValue>
    decreases r.len(),
{
    if r.len() == 0 {
        seq![x]
    } else if ranks_before(x, r[0]) {
        seq![x] + r
    } else {
        seq![r[0]] + ranked_in(r.drop_first(), x)
    }
}

/// The names in the order they are listed.
pub open spec fn ranked(v: Seq<ScoredValue>) -> Seq<ScoredValue>
    decreases v.len(),
{
    if v.len() == 0 {
        v
    } else {
        ranked_in(ranked(v.drop_last()), v.last())
    }
}

/// The names of the best candidates.
pub open spec fn best_names(v: Seq<ScoredValue>) -> Seq<Seq<char>> {
    let r = ranked(v);
    (if r.len() > POPUP_MAX {
        r.take(POPUP_MAX as int)
    } else {
        r
    }).map_values(|s: ScoredValue| s.name)
}

fn before(a: &Scored, b: &Scored) -> (r: bool)
    ensures
        r == ranks_before(a@, b@),
{
    a.score > b.score || (a.score == b.score && comes_before(a.name.as_str(), b.name.as_str()))
}

proof fn lemma_ranked_in(r: Seq<ScoredValue>, x: ScoredValue, i: int)
    requires
        0 <= i <= r.len(),
        forall|j: int| 0 <= j < i ==> !ranks_before(x, #[trigger] r[j]),
        i < r.len() ==> ranks_before(x, r[i]),
    ensures
        ranked_in(r, x) == r.insert(i, x),
    decreases r.len(),
{
    if r.len() == 0 {
        assert(r.insert(0, x) =~= seq![x]);
    } else if i == 0 {
        assert(r.insert(0, x) =~= seq![x] + r);
    } else {
        assert(!ranks_before(x, r[0]));
        lemma_ranked_in(r.drop_first(), x, i - 1);
        assert(r.insert(i, x) =~= seq![r[0]] + r.drop_first().insert(i - 1, x));
    }
}

fn insert_ranked(r: &mut Vec<Scored>, x: Scored)
    ensures
        scored_view(final(r)@) == ranked_in(scored_view(old(r)@), x@),
{
    let mut i: usize = 0;
    while i < r.len() && !before(&x, &r[i])
        invariant
            i <= r@.len(),
            r@ == old(r)@,
            forall|j: int| 0 <= j < i ==> !ranks_before(x@, #[trigger] scored_view(r@)[j]),
        decreases r@.len() - i,
    {
        i += 1;
    }
    proof {
        lemma_ranked_in(scored_view(r@), x@, i as int);
    }
    r.insert(i, x);
    assert(scored_view(r@) =~= scored_view(old(r)@).insert(i as int, x@));
}

/// The names of the best candidates, the best first.
pub fn rank_candidates(scored: Vec<Scored>) -> (names: Vec<String>)
    ensures
        texts(names@) == best_names(scored_view(scored@)),
        names@.len() <= POPUP_MAX,
{
    let mut r: Vec<Scored> = Vec::new();
    let mut i: usize = 0;
    assert(scored_view(r@) =~= Seq::empty());
    while i < scored.len()
        invariant
            i <= scored@.len(),
            scored_view(r@) == ranked(scored_view(scored@).take(i as int)),
        decreases scored@.len() - i,
    {
        let x = Scored { score: scored[i].score, name: scored[i].name.clone() };
        assert(x@ == scored_view(scored@)[i as int]);
        assert(scored_view(scored@).take(i + 1).drop_last() =~= scored_view(scored@).take(
            i as int,
        ));
        insert_ranked(&mut r, x);
        i += 1;
    }
    assert(scored_view(scored@).take(i as int) =~= scored_view(scored@));
    let n: usize = if r.len() > POPUP_MAX {
        POPUP_MAX
    } else {
        r.len()
    };
    let ghost all = ranked(scored_view(scored@));
    let mut names: Vec<String> = Vec::new();
    let mut k: usize = 0;
    while k < n
        invariant
            k <= n <= r@.len(),
            names@.len() == k,
            scored_view(r@) == all,
            texts(names@) == all.take(k as int).map_values(|s: ScoredValue| s.name),
        decreases n - k,
    {
        assert(all[k as int] == r@[k as int]@);
        let ghost was = names@;
        names.push(r[k].name.clone());
        k += 1;
        assert(texts(names@) =~= texts(was).push(all[k - 1].name));
        assert(all.take(k as int) =~= all.take(k - 1).push(all[k - 1]));
        assert(texts(names@) =~= all.take(k as int).map_values(|s: ScoredValue| s.name));
    }
    proof {
        if all.len() <= POPUP_MAX {
            assert(all.take(n as int) =~= all);
        }
    }
    names
}

/// Names of which none matches better than another.
pub open spec fn evened(v: Seq<ScoredValue>) -> Seq<ScoredValue> {
    v.map_values(|s: ScoredValue| ScoredValue { score: 0, name: s.name })
}

/// The persons that are ranked for a query: without one, none is better than
/// another.
pub open spec fn persons(v: Seq<ScoredValue>, q: Seq<char>) -> Seq<ScoredValue> {
    if q.len() == 0 {
        evened(v)
    } else {
        v
    }
}

/// The names offered for a mention: the best matches, or for no query the
/// first ones by name, and behind them the query itself, to make a new person
/// of, unless it names one.
pub open spec fn mention_names(v: Seq<ScoredValue>, q: Seq<char>) -> Seq<Seq<char>> {
    let names = best_names(persons(v, q));
    if q.len() > 0 && !names_person(v, q) {
        names.push(q)
    } else {
        names
    }
}

/// A query is the name of a person, whatever its case.
pub open spec fn names_person(v: Seq<ScoredValue>, q: Seq<char>) -> bool {
    exists|i: int| 0 <= i < v.len() && unicode_lower((#[trigger] v[i]).name) == unicode_lower(q)
}

fn is_person(scored: &Vec<Scored>, q: &str) -> (r: bool)
    ensures
        r == names_person(scored_view(scored@), q@),
{
    let ghost v = scored_view(scored@);
    let lower = to_lowercase(q);
    let mut i: usize = 0;
    while i < scored.len()
        invariant
            i <= scored@.len(),
            v == scored_view(scored@),
            lower@ == unicode_lower(q@),
            forall|j: int|
                0 <= j < i ==> unicode_lower((#[trigger] v[j]).name) != unicode_lower(q@),
        decreases scored@.len() - i,
    {
        let l = to_lowercase(scored[i].name.as_str());
        assert(v[i as int] == scored@[i as int]@);
        if same_text(l.as_str(), lower.as_str()) {
            return true;
        }
        i += 1;
    }
    false
}

fn make_even(scored: Vec<Scored>) -> (r: Vec<Scored>)
    ensures
        scored_view(r@) == evened(scored_view(scored@)),
{
    let ghost want = evened(scored_view(scored@));
    let mut r: Vec<Scored> = Vec::new();
    let mut i: usize = 0;
    assert(scored_view(r@) =~= want.take(0));
    while i < scored.len()
        invariant
            i <= scored@.len(),
            want == evened(scored_view(scored@)),
            scored_view(r@) == want.take(i as int),
        decreases scored@.len() - i,
    {
        let ghost was = scored_view(r@);
        let s = Scored { score: 0, name: scored[i].name.clone() };
        assert(s@ == want[i as int]);
        r.push(s);
        i += 1;
        assert(scored_view(r@) =~= was.push(s@));
        assert(scored_view(r@) =~= want.take(i as int));
    }
    assert(want.take(i as int) =~= want);
    r
}

/// The names offered for a mention. `scored` are the persons that match the
/// query, or all of them where there is none.
pub fn candidates_for_mention(scored: Vec<Scored>, q: &str) -> (names: Vec<String>)
    ensures
        texts(names@) == mention_names(scored_view(scored@), q@),
{
    if q.is_empty() {
        return rank_candidates(make_even(scored));
    }
    let known = is_person(&scored, q);
    let mut names = rank_candidates(scored);
    if !known {
        let ghost was = names@;
        names.push(q.to_owned());
        assert(texts(names@) =~= texts(was).push(q@));
    }
    names
}

/// A list without the names that stand in it before.
pub open spec fn first_uses(v: Seq<Seq<char>>) -> Seq<Seq<char>>
    decreases v.len(),
{
    if v.len() == 0 {
        v
    } else {
        let r = first_uses(v.drop_last());
        if r.contains(v.last()) {
            r
        } else {
            r.push(v.last())
        }
    }
}

/// The names of all commands: the built-in ones, and behind them those of
/// the plugins and their buttons, each once.
pub open spec fn command_names(
    builtin: Seq<Seq<char>>,
    plugin: Seq<Seq<char>>,
) -> Seq<Seq<char>> {
    builtin + first_uses(plugin)
}

fn holds(v: &Vec<String>, lo: usize, name: &str) -> (r: bool)
    requires
        lo <= v@.len(),
    ensures
        r == texts(v@).skip(lo as int).contains(name@),
{
    let mut i: usize = lo;
    while i < v.len()
        invariant
            lo <= i <= v@.len(),
            forall|j: int| lo <= j < i ==> (#[trigger] v@[j])@ != name@,
        decreases v@.len() - i,
    {
        if same_text(v[i].as_str(), name) {
            assert(texts(v@).skip(lo as int)[i - lo] == name@);
            return true;
        }
        i += 1;
    }
    proof {
        let t = texts(v@).skip(lo as int);
        if t.contains(name@) {
            let k = choose|k: int| 0 <= k < t.len() && t[k] == name@;
            assert(v@[lo + k]@ == name@);
        }
    }
    false
}

/// The names of all commands, the built-in ones first.
pub fn slash_names(builtin: &Vec<String>, plugin: &Vec<String>) -> (names: Vec<String>)
    ensures
        texts(names@) == command_names(texts(builtin@), texts(plugin@)),
{
    let mut names: Vec<String> = crate::state::copy_strings(builtin);
    let lo: usize = names.len();
    let mut i: usize = 0;
    assert(texts(names@) =~= texts(builtin@) + first_uses(texts(plugin@).take(0)));
    while i < plugin.len()
        invariant
            i <= plugin@.len(),
            lo == builtin@.len(),
            lo <= names@.len(),
            texts(names@) == texts(builtin@) + first_uses(texts(plugin@).take(i as int)),
        decreases plugin@.len() - i,
    {
        let ghost t = texts(plugin@).take(i + 1);
        let ghost seen = first_uses(texts(plugin@).take(i as int));
        assert(t.drop_last() =~= texts(plugin@).take(i as int));
        assert(t.last() == plugin@[i as int]@);
        assert(texts(names@).skip(lo as int) =~= seen);
        if !holds(&names, lo, plugin[i].as_str()) {
            let ghost was = names@;
            names.push(plugin[i].clone());
            assert(texts(names@) =~= texts(was).push(plugin@[i as int]@));
            assert(texts(names@) =~= texts(builtin@) + seen.push(plugin@[i as int]@));
        }
        i += 1;
    }
    assert(texts(plugin@).take(i as int) =~= texts(plugin@));
    names
}

/// The commands offered for a query: all of them for none, and the best
/// matches for one.
pub open spec fn slash_candidates(
    all: Seq<Seq<char>>,
    scored: Seq<ScoredValue>,
    q: Seq<char>,
) -> Seq<Seq<char>> {
    if q.len() == 0 {
        all
    } else {
        best_names(scored)
    }
}

/// The commands offered for a query.
pub fn candidates_for_slash(all: Vec<String>, scored: Vec<Scored>, q: &str) -> (names: Vec<String>)
    ensures
        texts(names@) == slash_candidates(texts(all@), scored_view(scored@), q@),
{
    if q.is_empty() {
        all
    } else {
        rank_candidates(scored)
    }
}

/// A block that can be referred to.
#[derive(Debug)]
pub struct BlockHandle {
    pub id: u128,
    pub handle: String,
}

/// A block that can be referred to, as a value.
pub ghost struct HandleValue {
    pub id: u128,
    pub handle: Seq<char>,
}

impl View for BlockHandle {
    type V = HandleValue;

    open spec fn view(&self) -> HandleValue {
        HandleValue { id: self.id, handle: self.handle@ }
    }
}

/// Blocks that can be referred to, as values.
pub open spec fn handles_view(v: Seq<BlockHandle>) -> Seq<HandleValue> {
    v.map_values(|b: BlockHandle| b@)
}

/// Blocks from the newest to the oldest, with one more at its place.
pub open spec fn newest_in(r: Seq<HandleValue>, x: HandleValue) -> Seq<HandleValue>
    decreases r.len(),
{
    if r.len() == 0 {
        seq![x]
    } else if x.id > r[0].id {
        seq![x] + r
    } else {
        seq![r[0]] + newest_in(r.drop_first(), x)
    }
}

/// Blocks from the newest to the oldest.
pub open spec fn newest_first(v: Seq<HandleValue>) -> Seq<HandleValue>
    decreases v.len(),
{
    if v.len() == 0 {
        v
    } else {
        newest_in(newest_first(v.drop_last()), v.last())
    }
}

/// The handles offered for a block: the newest blocks for no query, and what
/// was found for one.
pub open spec fn block_candidates(
    blocks: Seq<HandleValue>,
    found: Seq<Seq<char>>,
    q: Seq<char>,
) -> Seq<Seq<char>> {
    if q.len() == 0 {
        let r = newest_first(blocks);
        (if r.len() > POPUP_MAX {
            r.take(POPUP_MAX as int)
        } else {
            r
        }).map_values(|b: HandleValue| b.handle)
    } else {
        found
    }
}

proof fn lemma_newest_in(r: Seq<HandleValue>, x: HandleValue, i: int)
    requires
        0 <= i <= r.len(),
        forall|j: int| 0 <= j < i ==> x.id <= (#[trigger] r[j]).id,
        i < r.len() ==> x.id > r[i].id,
    ensures
        newest_in(r, x) == r.insert(i, x),
    decreases r.len(),
{
    if r.len() == 0 {
        assert(r.insert(0, x) =~= seq![x]);
    } else if i == 0 {
        assert(r.insert(0, x) =~= seq![x] + r);
    } else {
        assert(x.id <= r[0].id);
        lemma_newest_in(r.drop_first(), x, i - 1);
        assert(r.insert(i, x) =~= seq![r[0]] + r.drop_first().insert(i - 1, x));
    }
}

fn insert_newest(r: &mut Vec<BlockHandle>, x: BlockHandle)
    ensures
        handles_view(final(r)@) == newest_in(handles_view(old(r)@), x@),
{
    let mut i: usize = 0;
    while i < r.len() && x.id <= r[i].id
        invariant
            i <= r@.len(),
            r@ == old(r)@,
            forall|j: int| 0 <= j < i ==> x.id <= (#[trigger] handles_view(r@)[j]).id,
        decreases r@.len() - i,
    {
        i += 1;
    }
    proof {
        lemma_newest_in(handles_view(r@), x@, i as int);
    }
    r.insert(i, x);
    assert(handles_view(r@) =~= handles_view(old(r)@).insert(i as int, x@));
}

/// The handles offered for a block.
pub fn candidates_for_blockref(blocks: &Vec<BlockHandle>, found: Vec<String>, q: &str) -> (r: Vec<
    String,
>)
    ensures
        texts(r@) == block_candidates(handles_view(blocks@), texts(found@), q@),
{
    if !q.is_empty() {
        return found;
    }
    let mut sorted: Vec<BlockHandle> = Vec::new();
    let mut i: usize = 0;
    assert(handles_view(sorted@) =~= Seq::empty());
    while i < blocks.len()
        invariant
            i <= blocks@.len(),
            handles_view(sorted@) == newest_first(handles_view(blocks@).take(i as int)),
        decreases blocks@.len() - i,
    {
        let x = BlockHandle { id: blocks[i].id, handle: blocks[i].handle.clone() };
        assert(x@ == handles_view(blocks@)[i as int]);
        assert(handles_view(blocks@).take(i + 1).drop_last() =~= handles_view(blocks@).take(
            i as int,
        ));
        insert_newest(&mut sorted, x);
        i += 1;
    }
    assert(handles_view(blocks@).take(i as int) =~= handles_view(blocks@));
    let n: usize = if sorted.len() > POPUP_MAX {
        POPUP_MAX
    } else {
        sorted.len()
    };
    let ghost all = newest_first(handles_view(blocks@));
    let mut r: Vec<String> = Vec::new();
    let mut k: usize = 0;
    while k < n
        invariant
            k <= n <= sorted@.len(),
            r@.len() == k,
            handles_view(sorted@) == all,
            texts(r@) == all.take(k as int).map_values(|b: HandleValue| b.handle),
        decreases n - k,
    {
        assert(all[k as int] == sorted@[k as int]@);
        let ghost was = r@;
        r.push(sorted[k].handle.clone());
        k += 1;
        assert(texts(r@) =~= texts(was).push(all[k - 1].handle));
        assert(all.take(k as int) =~= all.take(k - 1).push(all[k - 1]));
        assert(texts(r@) =~= all.take(k as int).map_values(|b: HandleValue| b.handle));
    }
    proof {
        if all.len() <= POPUP_MAX {
            assert(all.take(n as int) =~= all);
        }
    }
    r
}

/// The shortcodes offered for an emoji: none before something was typed.
pub fn candidates_for_emoji(found: Vec<String>, q: &str) -> (r: Vec<String>)
    ensures
        texts(r@) == if q@.len() == 0 {
            Seq::empty()
        } else {
            texts(found@)
        },
{
    if q.is_empty() {
        let r: Vec<String> = Vec::new();
        assert(texts(r@) =~= Seq::empty());
        r
    } else {
        found
    }
}

// ---------------------------------------------------------------------
// Accepting
// ---------------------------------------------------------------------

/// What accepting a candidate writes.
pub open spec fn token(kind: AutocompleteKind, choice: Seq<char>) -> Seq<char> {
    match kind {
        AutocompleteKind::PageRef => "[["@ + choice + "]]"@,
        AutocompleteKind::BlockRef => "(("@ + choice + "))"@,
        AutocompleteKind::Tag => "#"@ + choice,
        AutocompleteKind::Mention => "[[@"@ + choice + "]]"@,
        AutocompleteKind::Emoji => ":"@ + choice + ":"@,
        AutocompleteKind::SlashCommand => Seq::empty(),
    }
}

/// The number of characters of a trigger without its query.
pub open spec fn opener_len(kind: AutocompleteKind) -> int {
    match kind {
        AutocompleteKind::PageRef | AutocompleteKind::BlockRef => 2,
        _ => 1,
    }
}

/// The edit after a candidate was accepted: the trigger and its query are
/// replaced.
pub open spec fn accepted(
    e: EditView,
    kind: AutocompleteKind,
    query: Seq<char>,
    choice: Seq<char>,
) -> EditView {
    e.without_before(opener_len(kind) + query.len()).with_inserted(token(kind, choice))
}

/// What accepting a candidate writes.
pub fn token_text(kind: AutocompleteKind, choice: &str) -> (r: String)
    ensures
        r@ == token(kind, choice@),
{
    match kind {
        AutocompleteKind::PageRef => cat3("[[", choice, "]]"),
        AutocompleteKind::BlockRef => cat3("((", choice, "))"),
        AutocompleteKind::Tag => crate::text::cat("#", choice),
        AutocompleteKind::Mention => cat3("[[@", choice, "]]"),
        AutocompleteKind::Emoji => cat3(":", choice, ":"),
        AutocompleteKind::SlashCommand => String::new(),
    }
}

/// Replaces the trigger and its query by the accepted candidate.
pub fn accept_into(buffer: &mut EditBuffer, kind: AutocompleteKind, query: &str, choice: &str)
    requires
        old(buffer)@.wf(),
        old(buffer)@.chars.len() + token(kind, choice@).len() <= usize::MAX,
    ensures
        final(buffer)@ == accepted(old(buffer)@, kind, query@, choice@),
        final(buffer)@.wf(),
{
    let open: usize = match kind {
        AutocompleteKind::PageRef => 2,
        AutocompleteKind::BlockRef => 2,
        _ => 1,
    };
    let n: usize = query.unicode_len().saturating_add(open);
    buffer.delete_back_by(n);
    let t = token_text(kind, choice);
    buffer.insert_str(t.as_str());
}

// ---------------------------------------------------------------------
// Laws
// ---------------------------------------------------------------------

proof fn lemma_ranked_in_multiset(r: Seq<ScoredValue>, x: ScoredValue)
    ensures
        ranked_in(r, x).to_multiset() == r.to_multiset().insert(x),
    decreases r.len(),
{
    broadcast use vstd::seq_lib::group_to_multiset_ensures;

    if r.len() == 0 {
        assert(seq![x] =~= r.push(x));
    } else if ranks_before(x, r[0]) {
        assert(seq![x] + r =~= r.insert(0, x));
        vstd::seq_lib::to_multiset_insert(r, 0, x);
    } else {
        lemma_ranked_in_multiset(r.drop_first(), x);
        let t = ranked_in(r.drop_first(), x);
        assert(seq![r[0]] + t =~= t.insert(0, r[0]));
        vstd::seq_lib::to_multiset_insert(t, 0, r[0]);
        assert(r =~= r.drop_first().insert(0, r[0]));
        vstd::seq_lib::to_multiset_insert(r.drop_first(), 0, r[0]);
        assert(ranked_in(r, x).to_multiset() =~= r.to_multiset().insert(x));
    }
}

/// Ranking keeps every name.
pub proof fn law_ranking_is_a_permutation(v: Seq<ScoredValue>)
    ensures
        ranked(v).to_multiset() == v.to_multiset(),
    decreases v.len(),
{
    broadcast use vstd::seq_lib::group_to_multiset_ensures;

    if v.len() > 0 {
        law_ranking_is_a_permutation(v.drop_last());
        lemma_ranked_in_multiset(ranked(v.drop_last()), v.last());
        assert(v =~= v.drop_last().push(v.last()));
    }
}

/// Text order is transitive and asymmetric, and so is its reverse.
pub proof fn lemma_text_order(a: Seq<char>, b: Seq<char>, c: Seq<char>)
    ensures
        text_before(a, b) && text_before(b, c) ==> text_before(a, c),
        !text_before(b, a) && !text_before(c, b) ==> !text_before(c, a),
        !(text_before(a, b) && text_before(b, a)),
    decreases a.len() + b.len() + c.len(),
{
    if a.len() > 0 && b.len() > 0 && c.len() > 0 {
        lemma_text_order(a.drop_first(), b.drop_first(), c.drop_first());
    }
    if a.len() > 0 && b.len() > 0 {
        lemma_text_order(a.drop_first(), b.drop_first(), Seq::empty());
    }
}

/// No name of a ranking should stand before an earlier one.
pub open spec fn in_rank_order(r: Seq<ScoredValue>) -> bool {
    forall|i: int, j: int| 0 <= i < j < r.len() ==> !ranks_before(#[trigger] r[j], #[trigger] r[i])
}

proof fn lemma_rank_order(a: ScoredValue, b: ScoredValue, c: ScoredValue)
    ensures
        !ranks_before(b, a) && !ranks_before(c, b) ==> !ranks_before(c, a),
        !(ranks_before(a, b) && ranks_before(b, a)),
{
    lemma_text_order(a.name, b.name, c.name);
}

proof fn lemma_ranked_in_order(r: Seq<ScoredValue>, x: ScoredValue)
    requires
        in_rank_order(r),
    ensures
        in_rank_order(ranked_in(r, x)),
        forall|y: ScoredValue|
            ranked_in(r, x).contains(y) ==> y == x || #[trigger] r.contains(y),
    decreases r.len(),
{
    let t = ranked_in(r, x);
    if r.len() == 0 {
        assert(forall|y: ScoredValue| t.contains(y) ==> y == x);
    } else if ranks_before(x, r[0]) {
        assert forall|i: int, j: int| 0 <= i < j < t.len() implies !ranks_before(
            #[trigger] t[j],
            #[trigger] t[i],
        ) by {
            if i == 0 {
                lemma_rank_order(x, r[0], t[j]);
                assert(t[j] == r[j - 1]);
                if j > 1 {
                    assert(!ranks_before(r[j - 1], r[0]));
                }
                lemma_rank_order(x, r[0], x);
                lemma_rank_order(x, r[0], r[j - 1]);
            } else {
                assert(t[i] == r[i - 1] && t[j] == r[j - 1]);
            }
        }
        assert forall|y: ScoredValue| t.contains(y) implies y == x || #[trigger] r.contains(y) by {
            let k = choose|k: int| 0 <= k < t.len() && t[k] == y;
            if k > 0 {
                assert(r[k - 1] == y);
            }
        }
    } else {
        let d = r.drop_first();
        assert(in_rank_order(d)) by {
            assert forall|i: int, j: int| 0 <= i < j < d.len() implies !ranks_before(
                #[trigger] d[j],
                #[trigger] d[i],
            ) by {
                assert(d[i] == r[i + 1] && d[j] == r[j + 1]);
            }
        }
        lemma_ranked_in_order(d, x);
        let u = ranked_in(d, x);
        assert forall|i: int, j: int| 0 <= i < j < t.len() implies !ranks_before(
            #[trigger] t[j],
            #[trigger] t[i],
        ) by {
            assert(t[j] == u[j - 1]);
            if i == 0 {
                assert(u.contains(u[j - 1]));
                if u[j - 1] != x {
                    assert(d.contains(u[j - 1]));
                    let k = choose|k: int| 0 <= k < d.len() && d[k] == u[j - 1];
                    assert(r[k + 1] == u[j - 1]);
                    assert(!ranks_before(r[k + 1], r[0]));
                }
            } else {
                assert(t[i] == u[i - 1]);
            }
        }
        assert forall|y: ScoredValue| t.contains(y) implies y == x || #[trigger] r.contains(y) by {
            let k = choose|k: int| 0 <= k < t.len() && t[k] == y;
            if k == 0 {
                assert(r[0] == y);
            } else {
                assert(u[k - 1] == y);
                assert(u.contains(y));
                if y != x {
                    assert(d.contains(y));
                    let m = choose|m: int| 0 <= m < d.len() && d[m] == y;
                    assert(r[m + 1] == y);
                }
            }
        }
    }
}

/// A ranking lists better scores first, and names of one score in text
/// order.
pub proof fn law_ranking_is_in_order(v: Seq<ScoredValue>)
    ensures
        in_rank_order(ranked(v)),
    decreases v.len(),
{
    if v.len() > 0 {
        law_ranking_is_in_order(v.drop_last());
        lemma_ranked_in_order(ranked(v.drop_last()), v.last());
    }
}

/// Once a query is typed, the mention popup is never empty.
pub proof fn law_mention_always_offers(v: Seq<ScoredValue>, q: Seq<char>)
    requires
        q.len() > 0,
    ensures
        mention_names(v, q).len() > 0,
{
    broadcast use vstd::seq_lib::group_to_multiset_ensures;

    law_ranking_is_a_permutation(v);
    assert(ranked(v).to_multiset().len() == v.to_multiset().len());
}

/// What is typed to open a popup.
pub open spec fn opener(kind: AutocompleteKind) -> Seq<char> {
    match kind {
        AutocompleteKind::PageRef => "[["@,
        AutocompleteKind::BlockRef => "(("@,
        AutocompleteKind::Tag => "#"@,
        AutocompleteKind::SlashCommand => "/"@,
        AutocompleteKind::Mention => "@"@,
        AutocompleteKind::Emoji => ":"@,
    }
}

/// What closes the reference that is written for a choice.
pub open spec fn closer(kind: AutocompleteKind) -> Seq<char> {
    match kind {
        AutocompleteKind::PageRef | AutocompleteKind::Mention => "]]"@,
        AutocompleteKind::BlockRef => "))"@,
        AutocompleteKind::Emoji => ":"@,
        AutocompleteKind::Tag | AutocompleteKind::SlashCommand => Seq::empty(),
    }
}

/// A trigger that is found stands right before the caret: its opener, and
/// behind it the query.
pub proof fn law_the_trigger_ends_at_the_caret(s: Seq<char>, cursor: int)
    requires
        0 <= cursor <= s.len(),
    ensures
        trigger_at(s, cursor) matches Some(t) ==> {
            let p = cursor - opener(t.0).len() - t.1.len();
            0 <= p && s.subrange(p, cursor) == opener(t.0) + t.1
        },
{
    reveal_strlit("[[");
    reveal_strlit("((");
    reveal_strlit("#");
    reveal_strlit("/");
    reveal_strlit("@");
    reveal_strlit(":");
    let lo = lookback_from(cursor);
    let mention = |t: Seq<char>, k: int| stops_mention(t, k);
    let other = |t: Seq<char>, k: int| stops_token(t, k);
    if lo < cursor {
        lemma_last_stop(s, lo, cursor, mention, lo);
        lemma_last_stop(s, lo, cursor, other, lo);
    }
    if let Some(t) = trigger_at(s, cursor) {
        let p = cursor - opener(t.0).len() - t.1.len();
        assert(s.subrange(p, cursor) =~= opener(t.0) + t.1);
    }
}

/// Only `[[` and `((` open a popup within a word; what the others open begins
/// a word.
pub proof fn law_other_triggers_begin_a_word(s: Seq<char>, cursor: int)
    requires
        0 <= cursor <= s.len(),
    ensures
        trigger_at(s, cursor) matches Some(t) ==> {
            let p = cursor - opener(t.0).len() - t.1.len();
            t.0 == AutocompleteKind::PageRef || t.0 == AutocompleteKind::BlockRef || p == 0
                || is_white(s[p - 1])
        },
{
    reveal_strlit("#");
    reveal_strlit("/");
    reveal_strlit("@");
    reveal_strlit(":");
    let lo = lookback_from(cursor);
    let mention = |t: Seq<char>, k: int| stops_mention(t, k);
    let other = |t: Seq<char>, k: int| stops_token(t, k);
    if lo < cursor {
        lemma_last_stop(s, lo, cursor, mention, lo);
        lemma_last_stop(s, lo, cursor, other, lo);
    }
}

/// Behind a `[[` or a `((`, what is typed is a query as long as it holds
/// nothing that ends it.
pub proof fn law_brackets_open_a_popup(s: Seq<char>, p: int, cursor: int)
    requires
        2 <= p <= cursor <= s.len(),
        cursor < p + LOOKBACK,
        s[p - 1] == s[p - 2],
        s[p - 1] == '[' || s[p - 1] == '(',
        forall|j: int|
            p <= j < cursor ==> !is_white(#[trigger] s[j]) && s[j] != '[' && s[j] != ']' && s[j]
                != '(' && s[j] != ')' && s[j] != '#' && s[j] != '/' && s[j] != ':' && s[j] != '@',
    ensures
        trigger_at(s, cursor) == Some(
            (
                if s[p - 1] == '[' {
                    AutocompleteKind::PageRef
                } else {
                    AutocompleteKind::BlockRef
                },
                s.subrange(p, cursor),
            ),
        ),
{
    let lo = lookback_from(cursor);
    let mention = |t: Seq<char>, k: int| stops_mention(t, k);
    let other = |t: Seq<char>, k: int| stops_token(t, k);
    lemma_stop_is(s, lo, cursor, mention, p - 1);
    lemma_stop_is(s, lo, cursor, other, p - 1);
    let q = s.subrange(p, cursor);
    assert(forall|j: int| 0 <= j < q.len() ==> q[j] == s[p + j]);
}

/// A word that begins with `#`, `/`, `@` or `:` is a query as long as it holds
/// nothing but lower-case letters, unless it is part of a name begun by an
/// `@`.
pub proof fn law_word_signs_open_a_popup(s: Seq<char>, p: int, cursor: int, kind: AutocompleteKind)
    requires
        1 <= p < cursor <= s.len(),
        cursor < p + LOOKBACK,
        p == 1 || is_white(s[p - 2]),
        kind == AutocompleteKind::Tag ==> s[p - 1] == '#',
        kind == AutocompleteKind::SlashCommand ==> s[p - 1] == '/',
        kind == AutocompleteKind::Mention ==> s[p - 1] == '@',
        kind == AutocompleteKind::Emoji ==> s[p - 1] == ':',
        kind != AutocompleteKind::PageRef && kind != AutocompleteKind::BlockRef,
        forall|j: int|
            p <= j < cursor ==> 'a' <= #[trigger] s[j] <= 'z' && !is_white(s[j]) && is_alnum(s[j]),
        kind == AutocompleteKind::Mention || forall|j: int| 0 <= j < p ==> s[j] != '@',
    ensures
        trigger_at(s, cursor) == Some((kind, s.subrange(p, cursor))),
{
    let lo = lookback_from(cursor);
    let mention = |t: Seq<char>, k: int| stops_mention(t, k);
    let other = |t: Seq<char>, k: int| stops_token(t, k);
    let q = s.subrange(p, cursor);
    assert(forall|j: int| 0 <= j < q.len() ==> q[j] == s[p + j]);
    if kind == AutocompleteKind::Mention {
        lemma_stop_is(s, lo, cursor, mention, p - 1);
    } else {
        lemma_stop_is(s, lo, cursor, other, p - 1);
        lemma_last_stop(s, lo, cursor, mention, lo);
        assert forall|i: int| 0 <= i < q.len() implies is_tag_char(#[trigger] q[i])
            && is_command_char(q[i]) && is_shortcode_char(q[i]) by {
            assert(q[i] == s[p + i]);
        }
    }
}

proof fn lemma_stop_is(
    s: Seq<char>,
    lo: int,
    hi: int,
    stop: spec_fn(Seq<char>, int) -> bool,
    k: int,
)
    requires
        lo <= k < hi,
        stop(s, k),
        forall|j: int| k < j < hi ==> !#[trigger] stop(s, j),
    ensures
        last_stop(s, lo, hi, stop) == Some(k),
    decreases hi - lo,
{
    if k < hi - 1 {
        assert(!stop(s, hi - 1));
        lemma_stop_is(s, lo, hi - 1, stop, k);
    }
}

/// Accepting a choice puts the reference to it in the place of the trigger
/// that was found, opener and query: `[[page]]`, `((block))`, `#tag`,
/// `[[@person]]` or `:emoji:`. A command leaves nothing. What stands before
/// the trigger and behind the caret stays, and the caret is behind what was
/// written.
pub proof fn law_accepting_replaces_the_trigger(e: EditView, choice: Seq<char>)
    requires
        e.wf(),
    ensures
        trigger_at(e.chars, e.cursor) matches Some((kind, query)) ==> {
            let p = e.cursor - opener(kind).len() - query.len();
            let written = if kind == AutocompleteKind::SlashCommand {
                Seq::empty()
            } else if kind == AutocompleteKind::Mention {
                "[["@ + opener(kind) + choice + closer(kind)
            } else {
                opener(kind) + choice + closer(kind)
            };
            let r = accepted(e, kind, query, choice);
            &&& 0 <= p
            &&& e.chars.subrange(p, e.cursor) == opener(kind) + query
            &&& r.chars == e.chars.take(p) + written + e.chars.skip(e.cursor)
            &&& r.cursor == p + written.len()
        },
{
    law_the_trigger_ends_at_the_caret(e.chars, e.cursor);
    if let Some((kind, query)) = trigger_at(e.chars, e.cursor) {
        reveal_strlit("[[");
        reveal_strlit("((");
        reveal_strlit("#");
        reveal_strlit("/");
        reveal_strlit("@");
        reveal_strlit("[[@");
        reveal_strlit(":");
        let p = e.cursor - opener(kind).len() - query.len();
        let written = if kind == AutocompleteKind::SlashCommand {
            Seq::empty()
        } else if kind == AutocompleteKind::Mention {
            "[["@ + opener(kind) + choice + closer(kind)
        } else {
            opener(kind) + choice + closer(kind)
        };
        assert(token(kind, choice) =~= written);
        let r = accepted(e, kind, query, choice);
        let w = e.without_before(opener(kind).len() + query.len() as int);
        assert(w.chars.take(p) =~= e.chars.take(p));
        assert(w.chars.skip(p) =~= e.chars.skip(e.cursor));
        assert(r.chars =~= e.chars.take(p) + written + e.chars.skip(e.cursor));
    }
}

/// A popup offers the best candidates, as many as it shows: a better score
/// comes before a worse one, names of one score come in text order, and what is
/// left out is no better than what is offered.
pub proof fn law_the_best_are_offered(v: Seq<ScoredValue>)
    ensures
        ranked(v).len() == v.len(),
        best_names(v).len() == (if v.len() > 8 {
            8
        } else {
            v.len()
        }),
        forall|i: int|
            0 <= i < best_names(v).len() ==> #[trigger] best_names(v)[i] == ranked(v)[i].name,
        forall|i: int, j: int|
            #![trigger ranked(v)[i], ranked(v)[j]]
            0 <= i < j < v.len() ==> ranked(v)[i].score >= ranked(v)[j].score && (ranked(v)[i].score
                == ranked(v)[j].score ==> !text_before(ranked(v)[j].name, ranked(v)[i].name)),
{
    broadcast use vstd::seq_lib::group_to_multiset_ensures;

    law_ranking_is_a_permutation(v);
    law_ranking_is_in_order(v);
    let r = ranked(v);
    assert(r.to_multiset().len() == v.to_multiset().len());
    assert forall|i: int, j: int|
        #![trigger r[i], r[j]]
        0 <= i < j < v.len() implies r[i].score >= r[j].score && (r[i].score == r[j].score
        ==> !text_before(r[j].name, r[i].name)) by {
        assert(!ranks_before(r[j], r[i]));
    }
}

/// Behind the persons that match, the name being typed is offered for a new
/// person, as it is typed, unless a person has it. Without a name, the persons
/// come in text order.
pub proof fn law_a_new_person_is_offered_last(v: Seq<ScoredValue>, q: Seq<char>)
    ensures
        q.len() > 0 && !(exists|i: int|
            0 <= i < v.len() && unicode_lower((#[trigger] v[i]).name) == unicode_lower(q))
            ==> mention_names(v, q).last() == q && mention_names(v, q).drop_last() == best_names(v),
        q.len() > 0 && (exists|i: int|
            0 <= i < v.len() && unicode_lower((#[trigger] v[i]).name) == unicode_lower(q))
            ==> mention_names(v, q) == best_names(v),
        q.len() == 0 ==> forall|i: int, j: int|
            #![trigger mention_names(v, q)[i], mention_names(v, q)[j]]
            0 <= i < j < mention_names(v, q).len() ==> !text_before(
                mention_names(v, q)[j],
                mention_names(v, q)[i],
            ),
{
    if q.len() > 0 {
        if !names_person(v, q) {
            assert(best_names(v).push(q).drop_last() =~= best_names(v));
        }
    } else {
        let e = evened(v);
        law_the_best_are_offered(e);
        lemma_even_scores(v);
        let m = mention_names(v, q);
        assert forall|i: int, j: int|
            #![trigger m[i], m[j]]
            0 <= i < j < m.len() implies !text_before(m[j], m[i]) by {
            assert(m[i] == ranked(e)[i].name);
            assert(m[j] == ranked(e)[j].name);
        }
    }
}

proof fn lemma_even_scores(v: Seq<ScoredValue>)
    ensures
        forall|i: int| 0 <= i < ranked(evened(v)).len() ==> (#[trigger] ranked(evened(v))[i]).score
            == 0,
{
    broadcast use vstd::seq_lib::group_to_multiset_ensures;

    let e = evened(v);
    let r = ranked(e);
    law_ranking_is_a_permutation(e);
    assert forall|i: int| 0 <= i < r.len() implies (#[trigger] r[i]).score == 0 by {
        assert(r.contains(r[i]));
        assert(r.to_multiset().count(r[i]) > 0);
        assert(e.to_multiset().count(r[i]) > 0);
        assert(e.contains(r[i]));
        let k = choose|k: int| 0 <= k < e.len() && e[k] == r[i];
    }
}

/// The blocks offered before anything is typed are the newest, the newest
/// first.
pub proof fn law_the_newest_blocks_are_offered(blocks: Seq<HandleValue>, found: Seq<Seq<char>>)
    ensures
        newest_first(blocks).len() == blocks.len(),
        newest_first(blocks).to_multiset() == blocks.to_multiset(),
        forall|i: int, j: int|
            #![trigger newest_first(blocks)[i], newest_first(blocks)[j]]
            0 <= i < j < blocks.len() ==> newest_first(blocks)[i].id >= newest_first(
                blocks,
            )[j].id,
        block_candidates(blocks, found, Seq::empty()).len() == (if blocks.len() > 8 {
            8
        } else {
            blocks.len()
        }),
        forall|i: int|
            0 <= i < block_candidates(blocks, found, Seq::empty()).len()
                ==> #[trigger] block_candidates(blocks, found, Seq::empty())[i] == newest_first(
                blocks,
            )[i].handle,
    decreases blocks.len(),
{
    broadcast use vstd::seq_lib::group_to_multiset_ensures;

    if blocks.len() > 0 {
        let d = blocks.drop_last();
        let x = blocks.last();
        law_the_newest_blocks_are_offered(d, found);
        lemma_newest_in_order(newest_first(d), x);
        assert(blocks =~= d.push(x));
    }
}

proof fn lemma_newest_in_order(r: Seq<HandleValue>, x: HandleValue)
    requires
        forall|i: int, j: int|
            #![trigger r[i], r[j]]
            0 <= i < j < r.len() ==> r[i].id >= r[j].id,
    ensures
        newest_in(r, x).len() == r.len() + 1,
        newest_in(r, x).to_multiset() == r.to_multiset().insert(x),
        forall|i: int, j: int|
            #![trigger newest_in(r, x)[i], newest_in(r, x)[j]]
            0 <= i < j < newest_in(r, x).len() ==> newest_in(r, x)[i].id >= newest_in(r, x)[j].id,
        forall|i: int|
            0 <= i < newest_in(r, x).len() ==> (#[trigger] newest_in(r, x)[i]).id <= x.id || (
            r.len() > 0 && newest_in(r, x)[i].id <= r[0].id),
    decreases r.len(),
{
    broadcast use vstd::seq_lib::group_to_multiset_ensures;

    let t = newest_in(r, x);
    if r.len() == 0 {
        assert(seq![x] =~= r.push(x));
    } else if x.id > r[0].id {
        assert(seq![x] + r =~= r.insert(0, x));
        vstd::seq_lib::to_multiset_insert(r, 0, x);
    } else {
        let d = r.drop_first();
        assert forall|i: int, j: int|
            #![trigger d[i], d[j]]
            0 <= i < j < d.len() implies d[i].id >= d[j].id by {
            assert(d[i] == r[i + 1] && d[j] == r[j + 1]);
        }
        lemma_newest_in_order(d, x);
        let u = newest_in(d, x);
        assert(t =~= u.insert(0, r[0]));
        vstd::seq_lib::to_multiset_insert(u, 0, r[0]);
        assert(r =~= d.insert(0, r[0]));
        vstd::seq_lib::to_multiset_insert(d, 0, r[0]);
        assert(t.to_multiset() =~= r.to_multiset().insert(x));
        if d.len() > 0 {
            assert(d[0] == r[1]);
        }
        assert forall|i: int, j: int|
            #![trigger t[i], t[j]]
            0 <= i < j < t.len() implies t[i].id >= t[j].id by {
            assert(t[j] == u[j - 1]);
            if i > 0 {
                assert(t[i] == u[i - 1]);
            }
        }
        assert forall|i: int| 0 <= i < t.len() implies (#[trigger] t[i]).id <= x.id || t[i].id
            <= r[0].id by {
            if i > 0 {
                assert(t[i] == u[i - 1]);
            }
        }
    }
}

/// The built-in commands come first, then those of the plugins, each of them
/// once, and none is left out.
pub proof fn law_commands_are_listed_once(builtin: Seq<Seq<char>>, plugin: Seq<Seq<char>>)
    ensures
        command_names(builtin, plugin).take(builtin.len() as int) == builtin,
        command_names(builtin, plugin).skip(builtin.len() as int).no_duplicates(),
        forall|n: Seq<char>|
            command_names(builtin, plugin).skip(builtin.len() as int).contains(n)
                <==> #[trigger] plugin.contains(n),
{
    lemma_first_uses(plugin);
    assert(command_names(builtin, plugin).take(builtin.len() as int) =~= builtin);
    assert(command_names(builtin, plugin).skip(builtin.len() as int) =~= first_uses(plugin));
}

proof fn lemma_first_uses(v: Seq<Seq<char>>)
    ensures
        first_uses(v).no_duplicates(),
        forall|n: Seq<char>| first_uses(v).contains(n) <==> #[trigger] v.contains(n),
    decreases v.len(),
{
    if v.len() > 0 {
        let d = v.drop_last();
        let r = first_uses(d);
        let u = first_uses(v);
        lemma_first_uses(d);
        assert forall|n: Seq<char>| u.contains(n) <==> #[trigger] v.contains(n) by {
            if v.contains(n) {
                let i = choose|i: int| 0 <= i < v.len() && v[i] == n;
                if i < d.len() {
                    assert(d[i] == n);
                    assert(d.contains(n));
                    let k = choose|k: int| 0 <= k < r.len() && r[k] == n;
                    assert(u[k] == n);
                } else if r.contains(n) {
                } else {
                    assert(u[r.len() as int] == n);
                }
            }
            if u.contains(n) {
                let i = choose|i: int| 0 <= i < u.len() && u[i] == n;
                if i < r.len() {
                    assert(r[i] == n);
                    assert(r.contains(n));
                    assert(d.contains(n));
                    let k = choose|k: int| 0 <= k < d.len() && d[k] == n;
                    assert(v[k] == n);
                } else {
                    assert(v[v.len() - 1] == n);
                }
            }
        }
    }
}

} // verus!

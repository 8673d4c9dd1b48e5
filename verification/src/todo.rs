//! Task markers and quotes at the front of a block's text.

use crate::edit_buffer::{EditBuffer, EditView};
use crate::text::{at, cat3, chars_of, matches_at, string_range};
use vstd::prelude::*;

verus! {

/// The state of a task.
#[derive(Clone, Copy, PartialEq, Eq, Structural, Debug)]
pub enum TodoState {
    Todo,
    Doing,
    Done,
}

/// What a marker at the front of a text stands for, and its length.
pub open spec fn marker_at_front(s: Seq<char>) -> Option<(TodoState, int)> {
    if matches_at(s, "TODO "@, 0) {
        Some((TodoState::Todo, 5))
    } else if matches_at(s, "DOING "@, 0) {
        Some((TodoState::Doing, 6))
    } else if matches_at(s, "DONE "@, 0) {
        Some((TodoState::Done, 5))
    } else if matches_at(s, "[ ] "@, 0) {
        Some((TodoState::Todo, 4))
    } else if matches_at(s, "[x] "@, 0) {
        Some((TodoState::Done, 4))
    } else {
        None
    }
}

/// A text is quoted.
pub open spec fn quoted(s: Seq<char>) -> bool {
    matches_at(s, "> "@, 0)
}

/// A block's text taken apart: its task state, whether it is quoted, and
/// the text behind both markers.
pub ghost struct Prefixes {
    pub todo: Option<TodoState>,
    pub quoted: bool,
    pub body: Seq<char>,
}

/// The markers of a text, in either order. At most one of each is a marker:
/// a second quote sign is text.
pub open spec fn prefixes_of(s: Seq<char>) -> Prefixes {
    if quoted(s) {
        let r = s.skip(2);
        match marker_at_front(r) {
            Some((t, n)) => Prefixes { todo: Some(t), quoted: true, body: r.skip(n) },
            None => Prefixes { todo: None, quoted: true, body: r },
        }
    } else {
        match marker_at_front(s) {
            Some((t, n)) => {
                let r = s.skip(n);
                if quoted(r) {
                    Prefixes { todo: Some(t), quoted: true, body: r.skip(2) }
                } else {
                    Prefixes { todo: Some(t), quoted: false, body: r }
                }
            },
            None => Prefixes { todo: None, quoted: false, body: s },
        }
    }
}

/// The marker a state is written with.
pub open spec fn marker(t: Option<TodoState>) -> Seq<char> {
    match t {
        None => Seq::empty(),
        Some(TodoState::Todo) => "TODO "@,
        Some(TodoState::Doing) => "DOING "@,
        Some(TodoState::Done) => "DONE "@,
    }
}

/// The state after a state.
pub open spec fn next_state(t: Option<TodoState>) -> Option<TodoState> {
    match t {
        None => Some(TodoState::Todo),
        Some(TodoState::Todo) => Some(TodoState::Doing),
        Some(TodoState::Doing) => Some(TodoState::Done),
        Some(TodoState::Done) => None,
    }
}

/// How a quote is written.
pub open spec fn quote_sign(q: bool) -> Seq<char> {
    if q {
        "> "@
    } else {
        Seq::empty()
    }
}

/// The text with the next task state: none, then to do, doing and done. The
/// marker comes before the quote sign.
pub open spec fn cycled(s: Seq<char>) -> Seq<char> {
    let p = prefixes_of(s);
    marker(next_state(p.todo)) + quote_sign(p.quoted) + p.body
}

fn front_marker(v: &Vec<char>, lo: usize) -> (r: Option<(TodoState, usize)>)
    requires
        lo <= v@.len(),
    ensures
        match r {
            Some((t, n)) => marker_at_front(v@.skip(lo as int)) == Some((t, n as int)) && lo + n
                <= v@.len() && n <= 6,
            None => marker_at_front(v@.skip(lo as int)) is None,
        },
{
    proof {
        reveal_strlit("TODO ");
        reveal_strlit("DOING ");
        reveal_strlit("DONE ");
        reveal_strlit("[ ] ");
        reveal_strlit("[x] ");
    }
    if stands_at(v, lo, "TODO ") {
        Some((TodoState::Todo, 5))
    } else if stands_at(v, lo, "DOING ") {
        Some((TodoState::Doing, 6))
    } else if stands_at(v, lo, "DONE ") {
        Some((TodoState::Done, 5))
    } else if stands_at(v, lo, "[ ] ") {
        Some((TodoState::Todo, 4))
    } else if stands_at(v, lo, "[x] ") {
        Some((TodoState::Done, 4))
    } else {
        None
    }
}

fn stands_at(v: &Vec<char>, lo: usize, p: &str) -> (r: bool)
    requires
        lo <= v@.len(),
    ensures
        r == matches_at(v@.skip(lo as int), p@, 0),
        r ==> lo + p@.len() <= v@.len(),
{
    let pc = chars_of(p);
    let r = at(v, &pc, lo);
    proof {
        if lo + p@.len() <= v@.len() {
            assert(v@.skip(lo as int).subrange(0, p@.len() as int) =~= v@.subrange(
                lo as int,
                lo + p@.len(),
            ));
        }
    }
    r
}

/// Takes the quote sign and the task marker off a block's text, in either
/// order. Returns the state, whether it is quoted, and where the body
/// starts.
fn prefix_parts(v: &Vec<char>) -> (r: (Option<TodoState>, bool, usize))
    ensures
        r.2 <= v@.len(),
        prefixes_of(v@) == (Prefixes { todo: r.0, quoted: r.1, body: v@.skip(r.2 as int) }),
{
    proof {
        reveal_strlit("> ");
        assert(v@.skip(0) =~= v@);
    }
    if stands_at(v, 0, "> ") {
        match front_marker(v, 2) {
            Some((t, n)) => {
                assert(v@.skip(2).skip(n as int) =~= v@.skip(2 + n));
                (Some(t), true, 2 + n)
            },
            None => (None, true, 2),
        }
    } else {
        match front_marker(v, 0) {
            Some((t, n)) => {
                if stands_at(v, n, "> ") {
                    assert(v@.skip(n as int).skip(2) =~= v@.skip(n + 2));
                    (Some(t), true, n + 2)
                } else {
                    (Some(t), false, n)
                }
            },
            None => (None, false, 0),
        }
    }
}

/// Takes the quote sign off a block's text.
pub fn split_quote_prefix(text: &str) -> (r: (bool, String))
    ensures
        r.0 == quoted(text@),
        r.1@ == (if quoted(text@) {
            text@.skip(2)
        } else {
            text@
        }),
{
    let v = chars_of(text);
    proof {
        reveal_strlit("> ");
        assert(v@.skip(0) =~= v@);
    }
    if stands_at(&v, 0, "> ") {
        (true, string_range(&v, 2, v.len()))
    } else {
        assert(v@.subrange(0, v@.len() as int) =~= v@);
        (false, string_range(&v, 0, v.len()))
    }
}

/// Takes the quote sign and the task marker off a block's text, in either
/// order.
pub fn split_block_prefixes(text: &str) -> (r: (Option<TodoState>, bool, String))
    ensures
        prefixes_of(text@) == (Prefixes { todo: r.0, quoted: r.1, body: r.2@ }),
{
    let v = chars_of(text);
    let (t, q, lo) = prefix_parts(&v);
    (t, q, string_range(&v, lo, v.len()))
}

fn marker_text(t: Option<TodoState>) -> (r: &'static str)
    ensures
        r@ == marker(t),
{
    match t {
        None => {
            proof {
                reveal_strlit("");
                assert(""@ =~= Seq::empty());
            }
            ""
        },
        Some(TodoState::Todo) => "TODO ",
        Some(TodoState::Doing) => "DOING ",
        Some(TodoState::Done) => "DONE ",
    }
}

fn state_after(t: Option<TodoState>) -> (r: Option<TodoState>)
    ensures
        r == next_state(t),
{
    match t {
        None => Some(TodoState::Todo),
        Some(TodoState::Todo) => Some(TodoState::Doing),
        Some(TodoState::Doing) => Some(TodoState::Done),
        Some(TodoState::Done) => None,
    }
}

/// The text with the next task state.
pub fn cycle_todo_state(text: &str) -> (r: String)
    ensures
        r@ == cycled(text@),
{
    let (t, q, body) = split_block_prefixes(text);
    let sign = if q {
        "> "
    } else {
        proof {
            reveal_strlit("");
            assert(""@ =~= Seq::empty());
        }
        ""
    };
    cat3(marker_text(state_after(t)), sign, body.as_str())
}

/// The number of characters two texts have in common at their ends.
pub open spec fn common_suffix(a: Seq<char>, b: Seq<char>) -> int
    decreases a.len(),
{
    if a.len() > 0 && b.len() > 0 && a.last() == b.last() {
        1 + common_suffix(a.drop_last(), b.drop_last())
    } else {
        0
    }
}

/// The edit with the next task state. A caret in the common end of the old
/// and the new text follows its character; one before that stays in its
/// column as far as the new front goes.
pub open spec fn cycled_edit(e: EditView) -> EditView {
    let next = cycled(e.chars);
    let k = common_suffix(e.chars, next);
    let old_front = e.chars.len() - k;
    let new_front = next.len() - k;
    EditView {
        chars: next,
        cursor: if e.cursor >= old_front {
            e.cursor - old_front + new_front
        } else if e.cursor < new_front {
            e.cursor
        } else {
            new_front
        },
    }
}

fn suffix_in_common(a: &Vec<char>, b: &Vec<char>) -> (k: usize)
    ensures
        k == common_suffix(a@, b@),
        k <= a@.len(),
        k <= b@.len(),
{
    let mut k: usize = 0;
    assert(a@.take(a@.len() as int) =~= a@);
    assert(b@.take(b@.len() as int) =~= b@);
    while k < a.len() && k < b.len() && a[a.len() - 1 - k] == b[b.len() - 1 - k]
        invariant
            k <= a@.len(),
            k <= b@.len(),
            common_suffix(a@, b@) == k + common_suffix(
                a@.take(a@.len() - k),
                b@.take(b@.len() - k),
            ),
        decreases a@.len() - k,
    {
        assert(a@.take(a@.len() - k).drop_last() =~= a@.take(a@.len() - k - 1));
        assert(b@.take(b@.len() - k).drop_last() =~= b@.take(b@.len() - k - 1));
        k += 1;
    }
    k
}

/// Gives the text being edited the next task state and keeps the caret on
/// the character it stands on.
pub fn cycle_todo_inline(buffer: &mut EditBuffer)
    requires
        old(buffer)@.wf(),
    ensures
        final(buffer)@ == cycled_edit(old(buffer)@),
        final(buffer)@.wf(),
{
    let current = buffer.as_string();
    let next = cycle_todo_state(current.as_str());
    let next_chars = chars_of(next.as_str());
    let k: usize = suffix_in_common(&buffer.chars, &next_chars);
    let old_front: usize = buffer.chars.len() - k;
    let new_front: usize = next_chars.len() - k;
    let len: usize = next_chars.len();
    buffer.chars = next_chars;
    if buffer.cursor >= old_front {
        let into: usize = buffer.cursor - old_front;
        assert(into + new_front <= len);
        buffer.cursor = into + new_front;
    } else if buffer.cursor > new_front {
        buffer.cursor = new_front;
    }
}

// ---------------------------------------------------------------------
// Laws
// ---------------------------------------------------------------------

/// `s` bears no task marker, before or behind a quote sign.
pub open spec fn unmarked(s: Seq<char>) -> bool {
    prefixes_of(s).todo is None
}

proof fn lemma_marked(s: Seq<char>, t: TodoState)
    requires
        unmarked(s),
    ensures
        prefixes_of(marker(Some(t)) + s).todo == Some(t),
        quote_sign(prefixes_of(marker(Some(t)) + s).quoted) + prefixes_of(
            marker(Some(t)) + s,
        ).body == s,
        quote_sign(prefixes_of(s).quoted) + prefixes_of(s).body == s,
{
    reveal_strlit("TODO ");
    reveal_strlit("DOING ");
    reveal_strlit("DONE ");
    reveal_strlit("[ ] ");
    reveal_strlit("[x] ");
    reveal_strlit("> ");
    let m = marker(Some(t));
    let w = m + s;
    assert(!quoted(w)) by {
        assert(w[0] == m[0]);
        if quoted(w) {
            assert(w.subrange(0, 2)[0] == '>');
        }
    }
    assert(w.subrange(0, m.len() as int) =~= m);
    assert(w.skip(m.len() as int) =~= s);
    if matches_at(w, "TODO "@, 0) {
        assert(w.subrange(0, 5)[0] == 'T');
    }
    if matches_at(w, "DOING "@, 0) {
        assert(w.subrange(0, 6)[0] == 'D' && w.subrange(0, 6)[2] == 'I');
    }
    if t != TodoState::Todo {
        assert(w[0] == 'D');
        assert(t == TodoState::Done ==> w[2] == 'N');
    }
    if quoted(s) {
        assert(s.subrange(0, 2) =~= "> "@);
        assert("> "@ + s.skip(2) =~= s);
    } else {
        assert(Seq::<char>::empty() + s =~= s);
    }
}

proof fn lemma_suffix_of(a: Seq<char>, b: Seq<char>, s: Seq<char>)
    ensures
        common_suffix(a + s, b + s) == s.len() + common_suffix(a, b),
    decreases s.len(),
{
    if s.len() == 0 {
        assert(a + s =~= a);
        assert(b + s =~= b);
    } else {
        assert((a + s).drop_last() =~= a + s.drop_last());
        assert((b + s).drop_last() =~= b + s.drop_last());
        lemma_suffix_of(a, b, s.drop_last());
    }
}

proof fn lemma_cycle_step(s: Seq<char>, t: Option<TodoState>)
    requires
        unmarked(s),
    ensures
        cycled(marker(t) + s) == marker(next_state(t)) + s,
{
    match t {
        None => {
            lemma_marked(s, TodoState::Todo);
            assert(marker(t) + s =~= s);
            assert(marker(next_state(t)) + quote_sign(prefixes_of(s).quoted) + prefixes_of(s).body
                =~= marker(next_state(t)) + (quote_sign(prefixes_of(s).quoted) + prefixes_of(
                s,
            ).body));
        },
        Some(u) => {
            lemma_marked(s, u);
            let p = prefixes_of(marker(t) + s);
            assert(marker(next_state(t)) + quote_sign(p.quoted) + p.body =~= marker(next_state(t))
                + (quote_sign(p.quoted) + p.body));
        },
    }
}

/// Four steps through the task states lead back to an unmarked text.
pub proof fn law_four_cycles_are_none(s: Seq<char>)
    requires
        unmarked(s),
    ensures
        cycled(cycled(cycled(cycled(s)))) == s,
{
    lemma_cycle_step(s, None);
    lemma_cycle_step(s, Some(TodoState::Todo));
    lemma_cycle_step(s, Some(TodoState::Doing));
    lemma_cycle_step(s, Some(TodoState::Done));
    assert(marker(None) + s =~= s);
}

/// The caret comes home too: after four steps the edit is as it was.
pub proof fn law_four_cycles_keep_the_caret(e: EditView)
    requires
        e.wf(),
        unmarked(e.chars),
    ensures
        cycled_edit(cycled_edit(cycled_edit(cycled_edit(e)))) == e,
{
    let s = e.chars;
    reveal_strlit("TODO ");
    reveal_strlit("DOING ");
    reveal_strlit("DONE ");
    lemma_cycle_step(s, None);
    lemma_cycle_step(s, Some(TodoState::Todo));
    lemma_cycle_step(s, Some(TodoState::Doing));
    lemma_cycle_step(s, Some(TodoState::Done));
    assert(marker(None) + s =~= s);
    lemma_suffix_of(marker(None), "TODO "@, s);
    lemma_suffix_of("TODO "@, "DOING "@, s);
    lemma_suffix_of("DOING "@, "DONE "@, s);
    lemma_suffix_of("DONE "@, marker(None), s);
    assert(common_suffix("TODO "@, "DOING "@) == 1) by {
        reveal_with_fuel(common_suffix, 3);
        assert("TODO "@.drop_last().last() == 'O');
        assert("DOING "@.drop_last().last() == 'G');
    }
    assert(common_suffix("DOING "@, "DONE "@) == 1) by {
        reveal_with_fuel(common_suffix, 3);
        assert("DOING "@.drop_last().last() == 'G');
        assert("DONE "@.drop_last().last() == 'E');
    }
}

/// A text without a marker becomes a task, then one that is being done, then
/// one that is done, and then a text without a marker again. Boxes are read as
/// the words for them.
pub proof fn law_the_states_follow_each_other(s: Seq<char>)
    requires
        unmarked(s),
    ensures
        cycled(s) == "TODO "@ + s,
        cycled("TODO "@ + s) == "DOING "@ + s,
        cycled("DOING "@ + s) == "DONE "@ + s,
        cycled("DONE "@ + s) == s,
        cycled("[ ] "@ + s) == "DOING "@ + s,
        cycled("[x] "@ + s) == s,
{
    lemma_cycle_step(s, None);
    lemma_cycle_step(s, Some(TodoState::Todo));
    lemma_cycle_step(s, Some(TodoState::Doing));
    lemma_cycle_step(s, Some(TodoState::Done));
    assert(marker(None) + s =~= s);
    lemma_marked(s, TodoState::Todo);
    reveal_strlit("TODO ");
    reveal_strlit("DOING ");
    reveal_strlit("DONE ");
    reveal_strlit("[ ] ");
    reveal_strlit("[x] ");
    reveal_strlit("> ");
    assert("[ ] "@[1] != "[x] "@[1]);
    lemma_boxed(s, "[ ] "@);
    lemma_boxed(s, "[x] "@);
    let p = prefixes_of("[ ] "@ + s);
    assert(marker(Some(TodoState::Doing)) + quote_sign(p.quoted) + p.body =~= "DOING "@ + (
    quote_sign(p.quoted) + p.body));
    let q = prefixes_of("[x] "@ + s);
    assert(marker(None) + quote_sign(q.quoted) + q.body =~= quote_sign(q.quoted) + q.body);
}

proof fn lemma_boxed(s: Seq<char>, m: Seq<char>)
    requires
        unmarked(s),
        m == "[ ] "@ || m == "[x] "@,
    ensures
        prefixes_of(m + s).todo == Some(
            if m == "[ ] "@ {
                TodoState::Todo
            } else {
                TodoState::Done
            },
        ),
        quote_sign(prefixes_of(m + s).quoted) + prefixes_of(m + s).body == s,
{
    reveal_strlit("TODO ");
    reveal_strlit("DOING ");
    reveal_strlit("DONE ");
    reveal_strlit("[ ] ");
    reveal_strlit("[x] ");
    reveal_strlit("> ");
    let w = m + s;
    assert(w[0] == '[');
    assert("[ ] "@[1] == ' ' && "[x] "@[1] == 'x');
    assert(!quoted(w)) by {
        if quoted(w) {
            assert(w.subrange(0, 2)[0] == '>');
        }
    }
    if matches_at(w, "TODO "@, 0) {
        assert(w.subrange(0, 5)[0] == 'T');
    }
    if matches_at(w, "DOING "@, 0) {
        assert(w.subrange(0, 6)[0] == 'D');
    }
    if matches_at(w, "DONE "@, 0) {
        assert(w.subrange(0, 5)[0] == 'D');
    }
    assert(w.subrange(0, 4) =~= m);
    assert(w.skip(4) =~= s);
    if quoted(s) {
        assert(s.subrange(0, 2) =~= "> "@);
        assert("> "@ + s.skip(2) =~= s);
    } else {
        assert(Seq::<char>::empty() + s =~= s);
    }
}

/// A quoted task is read in either order of its marks, and written with the
/// marker before the quote sign.
pub proof fn law_marks_are_read_in_either_order(s: Seq<char>, t: TodoState)
    requires
        unmarked(s),
        !quoted(s),
    ensures
        prefixes_of("> "@ + marker(Some(t)) + s) == (Prefixes {
            todo: Some(t),
            quoted: true,
            body: s,
        }),
        prefixes_of(marker(Some(t)) + ("> "@ + s)) == (Prefixes {
            todo: Some(t),
            quoted: true,
            body: s,
        }),
        cycled("> "@ + marker(Some(t)) + s) == cycled(marker(Some(t)) + ("> "@ + s)),
{
    reveal_strlit("> ");
    reveal_strlit("TODO ");
    reveal_strlit("DOING ");
    reveal_strlit("DONE ");
    reveal_strlit("[ ] ");
    reveal_strlit("[x] ");
    let m = marker(Some(t));
    let a = "> "@ + m + s;
    assert(a.subrange(0, 2) =~= "> "@);
    assert(a.skip(2) =~= m + s);
    lemma_marked(s, t);
    let q = "> "@ + s;
    assert(q.subrange(0, 2) =~= "> "@);
    assert(q.skip(2) =~= s);
    assert(unmarked(q));
    lemma_marked(q, t);
    let w = m + q;
    let p = prefixes_of(w);
    assert(w.skip(m.len() as int) =~= q);
    lemma_front(s, t);
    lemma_front(q, t);
    assert(p.body =~= s);
    assert((m + s).skip(m.len() as int) =~= s);
}

proof fn lemma_front(s: Seq<char>, t: TodoState)
    ensures
        marker_at_front(marker(Some(t)) + s) == Some((t, marker(Some(t)).len() as int)),
        !quoted(marker(Some(t)) + s),
{
    reveal_strlit("> ");
    reveal_strlit("TODO ");
    reveal_strlit("DOING ");
    reveal_strlit("DONE ");
    let m = marker(Some(t));
    let w = m + s;
    assert(w.subrange(0, m.len() as int) =~= m);
    assert(w[0] == m[0]);
    if quoted(w) {
        assert(w.subrange(0, 2)[0] == '>');
    }
    if t != TodoState::Todo {
        assert(w[0] == 'D');
        assert(w[2] == m[2]);
        if matches_at(w, "TODO "@, 0) {
            assert(w.subrange(0, 5)[0] == 'T');
        }
        if t == TodoState::Done && matches_at(w, "DOING "@, 0) {
            assert(w.subrange(0, 6)[2] == 'I');
        }
    }
}

} // verus!

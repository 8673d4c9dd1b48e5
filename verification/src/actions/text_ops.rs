//! Vim-style edits of a block's text in Normal mode.
//!
//! Each remembers the page for undo and marks it as changed, unless it
//! changes nothing. They edit the outline only: a row of the backlinks is
//! another page's block, and is left alone.

use crate::actions::nav::current_text;
use crate::listing::{
    law_depth_is_the_length_of_the_path, law_listing_is_the_outline,
    law_writing_a_block_changes_no_other, listed_all, Entry,
};
use crate::outline::{
    count, law_every_block_has_a_path, law_replaced_block_is_found, node_at_path_mut, path_at,
    path_for_index, preorder_all, replaced, NodeView,
};
use crate::state::{edited, snapshot_of, snapshots_view, App, Focus, InsertCursor, PageValue};
use crate::text::{cat3, chars_of, string_of};
use vstd::prelude::*;

verus! {

/// A text edit: the new text and cursor, or nothing if nothing changes.
pub ghost struct TextChange {
    pub text: Seq<char>,
    pub cursor: int,
}

/// The cursor within the text.
pub open spec fn clamped_col(app: App) -> int {
    if app.cursor_col <= current_text(app).len() {
        app.cursor_col as int
    } else {
        current_text(app).len() as int
    }
}

/// The page with another text in the block under the cursor.
pub open spec fn with_text(app: App, text: Seq<char>) -> PageValue {
    let v = app.blocks();
    let path = path_at(v, app.selected as int)->0;
    let node = preorder_all(v)[app.selected as int];
    PageValue { blocks: replaced(v, path, NodeView { text, ..node }), ..app.page@ }
}

/// `new` is `old` after a text edit. Without a block under the cursor, and
/// in the backlinks, nothing happens.
pub open spec fn text_edited(old: App, new: App, change: Option<TextChange>) -> bool {
    if old.focus is Backlink || old.selected >= count(old.blocks()) {
        new == old
    } else {
        match change {
            None => new == App { cursor_col: clamped_col(old) as usize, ..old },
            Some(c) => {
                &&& edited(old, new)
                &&& new == App {
                    page: new.page,
                    undo: new.undo,
                    redo: new.redo,
                    dirty_since: new.dirty_since,
                    cursor_col: new.cursor_col,
                    ..old
                }
                &&& new.page@ == with_text(old, c.text)
                &&& new.cursor_col == (if c.cursor <= c.text.len() {
                    c.cursor
                } else {
                    c.text.len() as int
                })
            },
        }
    }
}

/// Without the character at the cursor; the cursor does not stay behind
/// the end.
pub open spec fn char_deleted(s: Seq<char>, c: int) -> Option<TextChange> {
    if c >= s.len() {
        None
    } else {
        Some(
            TextChange {
                text: s.remove(c),
                cursor: if c > 0 && c >= s.len() - 1 {
                    c - 1
                } else {
                    c
                },
            },
        )
    }
}

/// Without the character before the cursor.
pub open spec fn char_before_deleted(s: Seq<char>, c: int) -> Option<TextChange> {
    if c == 0 {
        None
    } else {
        Some(TextChange { text: s.remove(c - 1), cursor: c - 1 })
    }
}

/// Without the text from the cursor on.
pub open spec fn tail_deleted(s: Seq<char>, c: int) -> Option<TextChange> {
    if c >= s.len() {
        None
    } else {
        Some(TextChange { text: s.take(c), cursor: c })
    }
}

/// Without the text.
pub open spec fn all_deleted(s: Seq<char>, c: int) -> Option<TextChange> {
    if s.len() == 0 && c == 0 {
        None
    } else {
        Some(TextChange { text: Seq::empty(), cursor: 0 })
    }
}

/// With another character at the cursor.
pub open spec fn char_replaced(s: Seq<char>, c: int, ch: char) -> Option<TextChange> {
    if c >= s.len() {
        None
    } else {
        Some(TextChange { text: s.update(c, ch), cursor: c })
    }
}

/// The name of `char::is_uppercase`.
pub uninterp spec fn is_upper(c: char) -> bool;

/// `char::is_uppercase`, which the Unicode tables define. The contract only
/// names the result.
pub assume_specification[ char::is_uppercase ](c: char) -> (r: bool)
    ensures
        r == is_upper(c),
;

/// The name of `char::is_lowercase`.
pub uninterp spec fn is_lower(c: char) -> bool;

/// `char::is_lowercase`, which the Unicode tables define. The contract only
/// names the result.
pub assume_specification[ char::is_lowercase ](c: char) -> (r: bool)
    ensures
        r == is_lower(c),
;

/// The name of the first character of `char::to_lowercase`.
pub uninterp spec fn lower_of(c: char) -> char;

/// `char::to_lowercase`, of which the first character is taken. The
/// contract only names the result.
#[verifier::external_body]
fn first_lower(c: char) -> (r: char)
    ensures
        r == lower_of(c),
{
    c.to_lowercase().next().unwrap_or(c)
}

/// The name of the first character of `char::to_uppercase`.
pub uninterp spec fn upper_of(c: char) -> char;

/// `char::to_uppercase`, of which the first character is taken. The
/// contract only names the result.
#[verifier::external_body]
fn first_upper(c: char) -> (r: char)
    ensures
        r == upper_of(c),
{
    c.to_uppercase().next().unwrap_or(c)
}

/// A character in the other case.
pub open spec fn other_case(c: char) -> char {
    if is_upper(c) {
        lower_of(c)
    } else if is_lower(c) {
        upper_of(c)
    } else {
        c
    }
}

/// A character in the other case.
pub fn swap_case(c: char) -> (r: char)
    ensures
        r == other_case(c),
{
    if c.is_uppercase() {
        first_lower(c)
    } else if c.is_lowercase() {
        first_upper(c)
    } else {
        c
    }
}

/// With the character at the cursor in the other case, and the cursor
/// behind it.
pub open spec fn case_toggled(s: Seq<char>, c: int) -> Option<TextChange> {
    if c >= s.len() {
        None
    } else {
        Some(TextChange { text: s.update(c, other_case(s[c])), cursor: c + 1 })
    }
}

/// The first `ch` at or after `from`.
pub open spec fn first_from(s: Seq<char>, from: int, ch: char) -> Option<int>
    decreases s.len() - from,
{
    if from < 0 || from >= s.len() {
        None
    } else if s[from] == ch {
        Some(from)
    } else {
        first_from(s, from + 1, ch)
    }
}

/// The last `ch` before `end`.
pub open spec fn last_before(s: Seq<char>, end: int, ch: char) -> Option<int>
    decreases end,
{
    if end <= 0 || end > s.len() {
        None
    } else if s[end - 1] == ch {
        Some(end - 1)
    } else {
        last_before(s, end - 1, ch)
    }
}

/// What is said when a character is not found.
pub open spec fn not_found(ch: char) -> Seq<char> {
    "'"@ + seq![ch] + "' not found"@
}

/// `new` is `old` with the cursor on the character that was found, if any.
pub open spec fn char_searched(old: App, new: App, ch: char, found: Option<int>) -> bool {
    match found {
        Some(i) => new == (App { cursor_col: i as usize, ..old }),
        None => {
            &&& new == (App { status: new.status, ..old })
            &&& new.status@ == not_found(ch)
        },
    }
}

fn not_found_message(ch: char) -> (r: String)
    ensures
        r@ == not_found(ch),
{
    let mut one = String::new();
    one.push(ch);
    assert(one@ =~= seq![ch]);
    cat3("'", one.as_str(), "' not found")
}

impl App {
    /// The characters of the block under the cursor and the cursor within
    /// them, if it is a block of the outline.
    fn editable_text(&self) -> (r: Option<(Vec<char>, usize)>)
        requires
            self.wf(),
        ensures
            match r {
                Some((s, c)) => {
                    &&& self.focus is Outline
                    &&& self.selected < count(self.blocks())
                    &&& s@ == current_text(*self)
                    &&& c == clamped_col(*self)
                    &&& c <= s@.len()
                },
                None => self.focus is Backlink || self.selected >= count(self.blocks()),
            },
    {
        if let Focus::Backlink { .. } = &self.focus {
            return None;
        }
        if path_for_index(&self.page.blocks, self.selected).is_none() {
            return None;
        }
        let text = self.current_block_text();
        let chars = chars_of(text.as_str());
        let c: usize = if self.cursor_col <= chars.len() {
            self.cursor_col
        } else {
            chars.len()
        };
        Some((chars, c))
    }

    /// Writes a changed text into the block under the cursor.
    fn write_text(&mut self, chars: Vec<char>, cursor: usize)
        requires
            old(self).wf(),
            old(self).focus is Outline,
            old(self).selected < count(old(self).blocks()),
        ensures
            text_edited(
                *old(self),
                *final(self),
                Some(TextChange { text: chars@, cursor: cursor as int }),
            ),
            final(self).wf(),
    {
        self.snapshot_for_undo();
        let ghost v = self.blocks();
        proof {
            law_every_block_has_a_path(v, self.selected as int);
        }
        let text = string_of(&chars);
        if let Some(path) = path_for_index(&self.page.blocks, self.selected) {
            proof {
                let n = preorder_all(v)[self.selected as int];
                law_replaced_block_is_found(v, path@, NodeView { text: chars@, ..n });
            }
            if let Some(node) = node_at_path_mut(&mut self.page.blocks, &path) {
                node.text = text;
            }
        }
        self.cursor_col = if cursor <= chars.len() {
            cursor
        } else {
            chars.len()
        };
        self.save();
    }

    /// Applies an edit that changes nothing: the cursor is brought into the
    /// text.
    fn keep_text(&mut self, cursor: usize)
        requires
            old(self).wf(),
        ensures
            *final(self) == (App { cursor_col: cursor, ..*old(self) }),
            final(self).wf(),
    {
        self.cursor_col = cursor;
    }

    /// `x`: deletes the character under the cursor.
    pub fn delete_char_under_cursor(&mut self)
        requires
            old(self).wf(),
        ensures
            text_edited(
                *old(self),
                *final(self),
                char_deleted(current_text(*old(self)), clamped_col(*old(self))),
            ),
            final(self).wf(),
    {
        if let Some((s, c)) = self.editable_text() {
            if c >= s.len() {
                self.keep_text(c);
                return;
            }
            let mut s = s;
            s.remove(c);
            let d: usize = if c > 0 && c >= s.len() {
                c - 1
            } else {
                c
            };
            self.write_text(s, d);
        }
    }

    /// `X`: deletes the character before the cursor.
    pub fn delete_char_before_cursor(&mut self)
        requires
            old(self).wf(),
        ensures
            text_edited(
                *old(self),
                *final(self),
                char_before_deleted(current_text(*old(self)), clamped_col(*old(self))),
            ),
            final(self).wf(),
    {
        if let Some((s, c)) = self.editable_text() {
            if c == 0 {
                self.keep_text(c);
                return;
            }
            let mut s = s;
            s.remove(c - 1);
            self.write_text(s, c - 1);
        }
    }

    /// `D`: deletes from the cursor to the end of the block.
    pub fn delete_to_end_of_block(&mut self)
        requires
            old(self).wf(),
        ensures
            text_edited(
                *old(self),
                *final(self),
                tail_deleted(current_text(*old(self)), clamped_col(*old(self))),
            ),
            final(self).wf(),
    {
        if let Some((s, c)) = self.editable_text() {
            if c >= s.len() {
                self.keep_text(c);
                return;
            }
            let mut s = s;
            s.truncate(c);
            assert(s@ =~= current_text(*self).take(c as int));
            self.write_text(s, c);
        }
    }

    /// `C`: deletes to the end of the block. Insert mode follows.
    pub fn change_to_end_of_block(&mut self) -> (r: InsertCursor)
        requires
            old(self).wf(),
        ensures
            text_edited(
                *old(self),
                *final(self),
                tail_deleted(current_text(*old(self)), clamped_col(*old(self))),
            ),
            r == InsertCursor::AtCursor,
            final(self).wf(),
    {
        self.delete_to_end_of_block();
        InsertCursor::AtCursor
    }

    /// `S`: clears the block. Insert mode follows.
    pub fn substitute_block(&mut self) -> (r: InsertCursor)
        requires
            old(self).wf(),
        ensures
            text_edited(
                *old(self),
                *final(self),
                all_deleted(current_text(*old(self)), clamped_col(*old(self))),
            ),
            r == InsertCursor::Start,
            final(self).wf(),
    {
        if let Some((s, c)) = self.editable_text() {
            if s.len() == 0 && c == 0 {
                self.keep_text(c);
            } else {
                let empty: Vec<char> = Vec::new();
                assert(empty@ =~= Seq::empty());
                self.write_text(empty, 0);
            }
        }
        InsertCursor::Start
    }

    /// `s`: deletes the character under the cursor. Insert mode follows.
    pub fn substitute_char(&mut self) -> (r: InsertCursor)
        requires
            old(self).wf(),
        ensures
            text_edited(
                *old(self),
                *final(self),
                char_deleted(current_text(*old(self)), clamped_col(*old(self))),
            ),
            r == InsertCursor::AtCursor,
            final(self).wf(),
    {
        self.delete_char_under_cursor();
        InsertCursor::AtCursor
    }

    /// `A`: puts the cursor behind the end of the block. Insert mode
    /// follows.
    pub fn enter_insert_at_end(&mut self) -> (r: InsertCursor)
        requires
            old(self).wf(),
        ensures
            *final(self) == (App { cursor_col: final(self).cursor_col, ..*old(self) }),
            final(self).cursor_col == current_text(*old(self)).len(),
            r == InsertCursor::AtCursor,
    {
        self.cursor_to_end();
        InsertCursor::AtCursor
    }

    /// `r`: replaces the character under the cursor.
    pub fn replace_char_under_cursor(&mut self, ch: char)
        requires
            old(self).wf(),
        ensures
            text_edited(
                *old(self),
                *final(self),
                char_replaced(current_text(*old(self)), clamped_col(*old(self)), ch),
            ),
            final(self).wf(),
    {
        if let Some((s, c)) = self.editable_text() {
            if c >= s.len() {
                self.keep_text(c);
                return;
            }
            let mut s = s;
            s.set(c, ch);
            self.write_text(s, c);
        }
    }

    /// `~`: changes the case of the character under the cursor and moves
    /// past it.
    pub fn toggle_case_under_cursor(&mut self)
        requires
            old(self).wf(),
        ensures
            text_edited(
                *old(self),
                *final(self),
                case_toggled(current_text(*old(self)), clamped_col(*old(self))),
            ),
            final(self).wf(),
    {
        if let Some((s, c)) = self.editable_text() {
            if c >= s.len() {
                self.keep_text(c);
                return;
            }
            let mut s = s;
            let ch = swap_case(s[c]);
            s.set(c, ch);
            self.write_text(s, c + 1);
        }
    }

    /// `f`: moves the cursor to the next `ch` in the block.
    pub fn find_char_forward(&mut self, ch: char)
        requires
            old(self).wf(),
        ensures
            char_searched(
                *old(self),
                *final(self),
                ch,
                first_from(current_text(*old(self)), old(self).cursor_col + 1, ch),
            ),
    {
        let text = self.current_block_text();
        let s = chars_of(text.as_str());
        if self.cursor_col < s.len() {
            let from: usize = self.cursor_col + 1;
            let mut i: usize = from;
            while i < s.len()
                invariant
                    from <= i <= s@.len(),
                    first_from(s@, from as int, ch) == first_from(s@, i as int, ch),
                    s@ == current_text(*old(self)),
                    from == old(self).cursor_col + 1,
                    *self == *old(self),
                decreases s@.len() - i,
            {
                if s[i] == ch {
                    self.cursor_col = i;
                    return;
                }
                i += 1;
            }
        }
        self.status = not_found_message(ch);
    }

    /// `F`: moves the cursor to the `ch` before it in the block.
    pub fn find_char_backward(&mut self, ch: char)
        requires
            old(self).wf(),
        ensures
            char_searched(
                *old(self),
                *final(self),
                ch,
                last_before(current_text(*old(self)), clamped_col(*old(self)), ch),
            ),
    {
        let text = self.current_block_text();
        let s = chars_of(text.as_str());
        let end: usize = if self.cursor_col <= s.len() {
            self.cursor_col
        } else {
            s.len()
        };
        let mut i: usize = end;
        while i > 0
            invariant
                i <= end <= s@.len(),
                last_before(s@, end as int, ch) == last_before(s@, i as int, ch),
                s@ == current_text(*old(self)),
                end == clamped_col(*old(self)),
                *self == *old(self),
            decreases i,
        {
            if s[i - 1] == ch {
                self.cursor_col = i - 1;
                return;
            }
            i -= 1;
        }
        self.status = not_found_message(ch);
    }
}

/// What is written into the block under the cursor is what is then read
/// from it.
pub proof fn law_written_text_is_read(old: App, new: App, change: TextChange)
    requires
        old.wf(),
        old.focus is Outline,
        old.selected < count(old.blocks()),
        text_edited(old, new, Some(change)),
    ensures
        current_text(new) == change.text,
        count(new.blocks()) == count(old.blocks()),
{
    let v = old.blocks();
    let k = old.selected as int;
    law_every_block_has_a_path(v, k);
    let p = path_at(v, k)->0;
    let n = NodeView { text: change.text, ..preorder_all(v)[k] };
    law_replaced_block_is_found(v, p, n);
    let w = new.blocks();
    assert(w == replaced(v, p, n));
    law_every_block_has_a_path(w, k);
    crate::outline::lemma_path_at(w, p, k);
}

/// Replacing a character twice is replacing it by the second.
pub proof fn law_replace_is_last_write(s: Seq<char>, c: int, a: char, b: char)
    requires
        0 <= c < s.len(),
    ensures
        ({
            let once = char_replaced(s, c, a)->0;
            char_replaced(once.text, once.cursor, b) == char_replaced(s, c, b)
        }),
{
    assert(s.update(c, a).update(c, b) =~= s.update(c, b));
}

/// A text edit touches one block: the block under the cursor has the new text
/// and keeps its properties, and every other block reads as it did and stands
/// as deep. The cursor ends up within the text, and the page as it was can be
/// had back.
pub proof fn law_text_edits_touch_one_block(old: App, new: App, change: TextChange)
    requires
        old.wf(),
        old.focus is Outline,
        old.selected < count(old.blocks()),
        change.cursor >= 0,
        text_edited(old, new, Some(change)),
    ensures
        ({
            let k = old.selected as int;
            let before = listed_all(old.blocks(), 0);
            let after = listed_all(new.blocks(), 0);
            &&& after.len() == before.len()
            &&& 0 <= k < before.len()
            &&& after[k] == Entry { text: change.text, ..before[k] }
            &&& forall|j: int|
                #![trigger after[j]]
                0 <= j < before.len() && j != k ==> after[j] == before[j]
        }),
        new.page@.properties == old.page@.properties,
        new.selected == old.selected,
        new.cursor_col <= change.text.len(),
        change.cursor <= change.text.len() ==> new.cursor_col == change.cursor,
        new.undo@.len() > 0,
        new.undo@.last()@.page == old.page@,
        new.undo@.last()@.cursor_col == old.cursor_col,
{
    let v = old.blocks();
    let k = old.selected as int;
    law_every_block_has_a_path(v, k);
    law_listing_is_the_outline(v, 0);
    let p = path_at(v, k)->0;
    let n = NodeView { text: change.text, ..preorder_all(v)[k] };
    law_writing_a_block_changes_no_other(v, p, n, 0);
    law_depth_is_the_length_of_the_path(v, p, 0);
    assert(new.blocks() == replaced(v, p, n));
    let u = snapshots_view(new.undo@);
    assert(u.last() == snapshot_of(old));
    assert(u.last() == new.undo@.last()@);
}

/// The cursor is where it was, if the text reaches so far, and else at the
/// end of the text.
pub proof fn law_the_cursor_is_within_the_text(app: App)
    ensures
        0 <= clamped_col(app) <= current_text(app).len(),
        app.cursor_col <= current_text(app).len() ==> clamped_col(app) == app.cursor_col,
        app.cursor_col > current_text(app).len() ==> clamped_col(app) == current_text(app).len(),
{
}

/// `x` takes out the character under the cursor and no other. The cursor
/// stays on what follows, or goes back onto the last character.
pub proof fn law_x_deletes_under_the_cursor(s: Seq<char>, c: int)
    requires
        0 <= c <= s.len(),
    ensures
        char_deleted(s, c) is None <==> c == s.len(),
        char_deleted(s, c) matches Some(t) ==> {
            &&& t.text == s.take(c) + s.skip(c + 1)
            &&& c < t.text.len() ==> t.cursor == c
            &&& c == t.text.len() ==> t.cursor == (if c > 0 {
                c - 1
            } else {
                0
            })
        },
{
    if c < s.len() {
        assert(s.remove(c) =~= s.take(c) + s.skip(c + 1));
    }
}

/// `X` takes out the character before the cursor and no other, and the cursor
/// goes with what follows. It deletes what `x` deletes one column to the left.
pub proof fn law_shift_x_deletes_before_the_cursor(s: Seq<char>, c: int)
    requires
        0 <= c <= s.len(),
    ensures
        char_before_deleted(s, c) is None <==> c == 0,
        char_before_deleted(s, c) matches Some(t) ==> {
            &&& t.text == s.take(c - 1) + s.skip(c)
            &&& t.cursor == c - 1
            &&& char_deleted(s, c - 1) is Some
            &&& t.text == char_deleted(s, c - 1)->0.text
        },
{
    if c > 0 {
        assert(s.remove(c - 1) =~= s.take(c - 1) + s.skip(c));
    }
}

/// `D` and `C` keep what is before the cursor and nothing else, and the
/// cursor stays.
pub proof fn law_shift_d_keeps_what_is_before(s: Seq<char>, c: int)
    requires
        0 <= c <= s.len(),
    ensures
        tail_deleted(s, c) is None <==> c == s.len(),
        tail_deleted(s, c) matches Some(t) ==> {
            &&& t.text.len() == c
            &&& t.text + s.skip(c) == s
            &&& t.cursor == c
        },
{
    if c < s.len() {
        assert(s.take(c) + s.skip(c) =~= s);
    }
}

/// `S` leaves nothing, and the cursor at the start.
pub proof fn law_shift_s_leaves_nothing(s: Seq<char>, c: int)
    requires
        0 <= c <= s.len(),
    ensures
        all_deleted(s, c) is None <==> s.len() == 0,
        all_deleted(s, c) matches Some(t) ==> t.text.len() == 0 && t.cursor == 0,
{
}

/// `r` and `~` change the character under the cursor and no other: `r` into
/// the one typed, and the cursor stays; `~` into the other case, and the
/// cursor goes on to the next.
pub proof fn law_r_and_tilde_change_one_character(s: Seq<char>, c: int, ch: char)
    requires
        0 <= c <= s.len(),
    ensures
        char_replaced(s, c, ch) is None <==> c == s.len(),
        case_toggled(s, c) is None <==> c == s.len(),
        char_replaced(s, c, ch) matches Some(t) ==> {
            &&& t.text == s.take(c) + seq![ch] + s.skip(c + 1)
            &&& t.cursor == c
        },
        case_toggled(s, c) matches Some(t) ==> {
            &&& t.text.len() == s.len()
            &&& forall|j: int| 0 <= j < s.len() && j != c ==> t.text[j] == s[j]
            &&& is_upper(s[c]) ==> t.text[c] == lower_of(s[c])
            &&& !is_upper(s[c]) && is_lower(s[c]) ==> t.text[c] == upper_of(s[c])
            &&& !is_upper(s[c]) && !is_lower(s[c]) ==> t.text[c] == s[c]
            &&& t.cursor == c + 1
        },
{
    if c < s.len() {
        assert(s.update(c, ch) =~= s.take(c) + seq![ch] + s.skip(c + 1));
    }
}

/// `f` finds the nearest character behind the cursor and `F` the nearest
/// before it; where they find none, there is none.
pub proof fn law_characters_are_found_nearest_first(s: Seq<char>, c: int, ch: char)
    requires
        0 <= c <= s.len(),
    ensures
        match first_from(s, c + 1, ch) {
            Some(i) => c < i < s.len() && s[i] == ch && forall|j: int| c < j < i ==> s[j] != ch,
            None => forall|j: int| c < j < s.len() ==> s[j] != ch,
        },
        match last_before(s, c, ch) {
            Some(i) => 0 <= i < c && s[i] == ch && forall|j: int| i < j < c ==> s[j] != ch,
            None => forall|j: int| 0 <= j < c ==> s[j] != ch,
        },
{
    lemma_first_from(s, c + 1, ch);
    lemma_last_before(s, c, ch);
}

proof fn lemma_first_from(s: Seq<char>, from: int, ch: char)
    requires
        0 <= from,
    ensures
        match first_from(s, from, ch) {
            Some(i) => from <= i < s.len() && s[i] == ch && forall|j: int|
                from <= j < i ==> s[j] != ch,
            None => forall|j: int| from <= j < s.len() ==> s[j] != ch,
        },
    decreases s.len() - from,
{
    if from < s.len() && s[from] != ch {
        lemma_first_from(s, from + 1, ch);
    }
}

proof fn lemma_last_before(s: Seq<char>, end: int, ch: char)
    requires
        0 <= end <= s.len(),
    ensures
        match last_before(s, end, ch) {
            Some(i) => 0 <= i < end && s[i] == ch && forall|j: int| i < j < end ==> s[j] != ch,
            None => forall|j: int| 0 <= j < end ==> s[j] != ch,
        },
    decreases end,
{
    if end > 0 && s[end - 1] != ch {
        lemma_last_before(s, end - 1, ch);
    }
}

} // verus!

//! What the actions of Normal mode do to the editor.

use crate::actions::metadata::{pin_toggled_in, todo_toggled};
use crate::actions::nav::{
    begins_word, centered_scroll, column_moved, current_text, cursor_of, ends_word,
    law_b_goes_to_the_word_before, law_e_goes_to_the_end_of_a_word, law_w_goes_to_the_next_word,
    moved, same_but_cursor, word_end_from, word_left_from, word_looked_up, word_right_from,
};
use crate::actions::pages::{screen_opened, ScreenValue};
use crate::actions::properties::properties_asked;
use crate::actions::reminders::{block_snooze, remind_written, DEFAULT_RULE, NAG_PRESET};
use crate::actions::text_ops::{
    all_deleted, case_toggled, char_before_deleted, char_deleted, char_replaced, char_searched,
    clamped_col, first_from, last_before, law_characters_are_found_nearest_first,
    law_r_and_tilde_change_one_character, law_shift_d_keeps_what_is_before,
    law_shift_s_leaves_nothing, law_shift_x_deletes_before_the_cursor, law_written_text_is_read,
    law_x_deletes_under_the_cursor, tail_deleted, text_edited, TextChange,
};
use crate::actions::visual::reselected;
use crate::actions::zoom::{zoomed_in, zoomed_out};
use crate::dates::is_day;
use crate::effect::Effect;
use crate::input::normal::{key_action, op_action, Action};
use crate::keys::{plain_key, KeyCode};
use crate::outline::count;
use crate::state::{App, InsertCursor, Mode, PendingInputOp};
use vstd::prelude::*;

verus! {

/// What is left to do after an action.
#[derive(Debug)]
pub enum Outcome {
    /// Nothing.
    Done,
    /// Leave the editor.
    Quit,
    /// Enter Insert mode.
    Insert(InsertCursor),
    /// Read the page of the screen.
    Load,
    /// Keep the order of the backlinks in the configuration.
    KeepOrder,
    /// Search the workspace for a word.
    Search { word: String, forward: bool },
    /// Change the task state of a block of the backlinks.
    BacklinkTodo { idx: usize, sub_path: Vec<usize> },
    /// Do what is asked for.
    Ask(Effect),
    /// Do the action, which needs more than the editor has.
    Outside(Action),
}

// ---------------------------------------------------------------------
// The text of a block
// ---------------------------------------------------------------------

/// What an action does to a text, and where it enters Insert mode then.
pub open spec fn text_action(a: Action, text: Seq<char>, col: int) -> Option<
    (Option<TextChange>, Option<InsertCursor>),
> {
    match a {
        Action::ReplaceChar(c) => Some((char_replaced(text, col, c), None)),
        Action::DeleteChar => Some((char_deleted(text, col), None)),
        Action::DeleteCharBefore => Some((char_before_deleted(text, col), None)),
        Action::DeleteToEnd => Some((tail_deleted(text, col), None)),
        Action::ChangeToEnd => Some((tail_deleted(text, col), Some(InsertCursor::AtCursor))),
        Action::SubstituteBlock => Some((all_deleted(text, col), Some(InsertCursor::Start))),
        Action::SubstituteChar => Some((char_deleted(text, col), Some(InsertCursor::AtCursor))),
        Action::ToggleCase => Some((case_toggled(text, col), None)),
        _ => None,
    }
}

/// What entering Insert mode leaves to do.
pub open spec fn then_insert(r: Outcome, c: Option<InsertCursor>) -> bool {
    match c {
        Some(c) => r == Outcome::Insert(c),
        None => r is Done,
    }
}

/// `new` is `old` after an action on the text of a block.
pub open spec fn text_performed(old: App, new: App, a: Action, r: Outcome) -> bool {
    match text_action(a, current_text(old), clamped_col(old)) {
        Some((change, c)) => text_edited(old, new, change) && then_insert(r, c),
        None => new == old && r == Outcome::Outside(a),
    }
}

// ---------------------------------------------------------------------
// Moving
// ---------------------------------------------------------------------

/// `new` is `old` with the cursor in another column.
pub open spec fn column_set(old: App, new: App, col: int) -> bool {
    new == (App { cursor_col: new.cursor_col, ..old }) && new.cursor_col == col
}

/// `new` is `old` after a move.
pub open spec fn move_performed(old: App, new: App, a: Action, r: Outcome) -> bool {
    let text = current_text(old);
    let col = old.cursor_col as int;
    match a {
        Action::MoveSelection(n) => {
            &&& same_but_cursor(old, new)
            &&& cursor_of(new) == moved(old, n as int)
            &&& r is Done
        },
        Action::MoveColumn(n) => column_set(old, new, column_moved(old, n as int)) && r is Done,
        Action::ColumnHome => column_set(old, new, 0) && r is Done,
        Action::ColumnEnd => column_set(old, new, text.len() as int) && r is Done,
        Action::EnterInsertAtEnd => {
            &&& column_set(old, new, text.len() as int)
            &&& r == Outcome::Insert(InsertCursor::AtCursor)
        },
        Action::WordLeft => column_set(old, new, word_left_from(text, col)) && r is Done,
        Action::WordRight => column_set(old, new, word_right_from(text, col)) && r is Done,
        Action::WordEnd => column_set(old, new, word_end_from(text, col)) && r is Done,
        Action::FindCharForward(c) => {
            char_searched(old, new, c, first_from(text, col + 1, c)) && r is Done
        },
        Action::FindCharBackward(c) => {
            char_searched(old, new, c, last_before(text, clamped_col(old), c)) && r is Done
        },
        Action::CenterViewport => {
            &&& new == (App { scroll_y: new.scroll_y, ..old })
            &&& new.scroll_y == centered_scroll(old)
            &&& r is Done
        },
        Action::EnterVisual => {
            new == (App { mode: Mode::Visual { anchor: old.selected }, ..old }) && r is Done
        },
        Action::ReselectVisual => reselected(old, new) && r is Done,
        Action::ZoomIn => zoomed_in(old, new) && r is Done,
        Action::ZoomOut => zoomed_out(old, new) && r is Done,
        _ => new == old && r == Outcome::Outside(a),
    }
}

// ---------------------------------------------------------------------
// Pages, blocks and reminders
// ---------------------------------------------------------------------

/// The day that a number of days leads to: from the journal on the screen,
/// or from today.
pub open spec fn shifted_day(app: App, days: int, today: int) -> int {
    days + match app.screen@ {
        ScreenValue::Journal(d) => d,
        ScreenValue::Page(_) => today,
    }
}

/// `new` is `old` after another action.
pub open spec fn page_performed(old: App, new: App, a: Action, today: int, r: Outcome) -> bool {
    match a {
        Action::Nothing => new == old && r is Done,
        Action::Quit => new == old && r is Quit,
        Action::EnterInsert(c) => new == old && r == Outcome::Insert(c),
        Action::GoToday => screen_opened(old, new, ScreenValue::Journal(today)) && r is Load,
        Action::ShiftJournal(n) => {
            let day = shifted_day(old, n as int, today);
            screen_opened(old, new, ScreenValue::Journal(day)) && r is Load
        },
        Action::TogglePinned => pin_toggled_in(old, new) && r is Done,
        Action::ToggleBacklinksOrder => {
            &&& new == (App { backlinks_newest_first: !old.backlinks_newest_first, ..old })
            &&& r is KeepOrder
        },
        Action::ToggleTodo => match r {
            Outcome::BacklinkTodo { idx, sub_path } => todo_toggled(
                old,
                new,
                Some((idx, sub_path)),
            ),
            _ => todo_toggled(old, new, None) && r is Done,
        },
        Action::SearchWord { forward } => match r {
            Outcome::Search { word, forward: f } => {
                word_looked_up(old, new, Some(word@)) && f == forward
            },
            _ => word_looked_up(old, new, None) && r is Done,
        },
        Action::InsertRemind => remind_written(old, new, DEFAULT_RULE@, false) && r is Done,
        Action::InsertRemindNag => remind_written(old, new, NAG_PRESET@, true) && r is Done,
        Action::SnoozeBlock => {
            &&& new == old
            &&& r matches Outcome::Ask(e) && e@ == block_snooze(old)
        },
        Action::OpenProperties => r matches Outcome::Ask(e) && properties_asked(old, new, e@),
        _ => new == old && r == Outcome::Outside(a),
    }
}

/// An action is one on text.
pub open spec fn edits_text(a: Action) -> bool {
    text_action(a, Seq::empty(), 0) is Some
}

/// An action is a move.
pub open spec fn moves(a: Action) -> bool {
    match a {
        Action::MoveSelection(_)
        | Action::MoveColumn(_)
        | Action::ColumnHome
        | Action::ColumnEnd
        | Action::EnterInsertAtEnd
        | Action::WordLeft
        | Action::WordRight
        | Action::WordEnd
        | Action::FindCharForward(_)
        | Action::FindCharBackward(_)
        | Action::CenterViewport
        | Action::EnterVisual
        | Action::ReselectVisual
        | Action::ZoomIn
        | Action::ZoomOut => true,
        _ => false,
    }
}

/// `new` is `old` after an action, and `r` is left to do.
pub open spec fn performed(old: App, new: App, a: Action, today: int, r: Outcome) -> bool {
    if edits_text(a) {
        text_performed(old, new, a, r)
    } else if moves(a) {
        move_performed(old, new, a, r)
    } else {
        page_performed(old, new, a, today, r)
    }
}

/// What the actions need: a cursor in the text to walk back from, a row that
/// can be counted, and a day that can be shown.
pub open spec fn performable(app: App, a: Action, today: int) -> bool {
    &&& app.wf()
    &&& match a {
        Action::MoveSelection(n) => app.selected < usize::MAX && n > i32::MIN,
        Action::WordLeft => app.cursor_col <= current_text(app).len(),
        Action::CenterViewport => app.selected <= i32::MAX,
        Action::ShiftJournal(n) => {
            let day = shifted_day(app, n as int, today);
            is_day(day) && i32::MIN <= day <= i32::MAX
        },
        _ => true,
    }
}

impl App {
    /// Does an action on the text of a block.
    fn perform_on_text(&mut self, a: Action) -> (r: Outcome)
        requires
            old(self).wf(),
            edits_text(a),
        ensures
            text_performed(*old(self), *final(self), a, r),
            final(self).wf(),
    {
        match a {
            Action::ReplaceChar(c) => self.replace_char_under_cursor(c),
            Action::DeleteChar => self.delete_char_under_cursor(),
            Action::DeleteCharBefore => self.delete_char_before_cursor(),
            Action::DeleteToEnd => self.delete_to_end_of_block(),
            Action::ChangeToEnd => {
                return Outcome::Insert(self.change_to_end_of_block());
            },
            Action::SubstituteBlock => {
                return Outcome::Insert(self.substitute_block());
            },
            Action::SubstituteChar => {
                return Outcome::Insert(self.substitute_char());
            },
            Action::ToggleCase => self.toggle_case_under_cursor(),
            _ => {
                return Outcome::Outside(a);
            },
        }
        Outcome::Done
    }

    /// Does a move.
    fn perform_move(&mut self, a: Action) -> (r: Outcome)
        requires
            performable(*old(self), a, 0),
            moves(a),
        ensures
            move_performed(*old(self), *final(self), a, r),
            final(self).wf(),
    {
        match a {
            Action::MoveSelection(n) => self.move_selection(n),
            Action::MoveColumn(n) => self.move_cursor_col(n),
            Action::ColumnHome => self.cursor_to_home(),
            Action::ColumnEnd => self.cursor_to_end(),
            Action::EnterInsertAtEnd => {
                return Outcome::Insert(self.enter_insert_at_end());
            },
            Action::WordLeft => self.cursor_word_left(),
            Action::WordRight => self.cursor_word_right(),
            Action::WordEnd => self.cursor_word_end(),
            Action::FindCharForward(c) => self.find_char_forward(c),
            Action::FindCharBackward(c) => self.find_char_backward(c),
            Action::CenterViewport => self.center_viewport_on_selection(),
            Action::EnterVisual => self.enter_visual(),
            Action::ReselectVisual => self.reselect_last_visual(),
            Action::ZoomIn => self.zoom_in_on_selected(),
            Action::ZoomOut => self.zoom_out(),
            _ => {
                return Outcome::Outside(a);
            },
        }
        Outcome::Done
    }

    /// Does another action.
    fn perform_on_page(&mut self, a: Action, today: i32) -> (r: Outcome)
        requires
            performable(*old(self), a, today as int),
        ensures
            page_performed(*old(self), *final(self), a, today as int, r),
            final(self).wf(),
    {
        match a {
            Action::Nothing => Outcome::Done,
            Action::Quit => Outcome::Quit,
            Action::EnterInsert(c) => Outcome::Insert(c),
            Action::GoToday => {
                self.go_today(today);
                Outcome::Load
            },
            Action::ShiftJournal(n) => {
                self.shift_journal(n, today);
                Outcome::Load
            },
            Action::TogglePinned => {
                self.toggle_pinned();
                Outcome::Done
            },
            Action::ToggleBacklinksOrder => {
                self.toggle_backlinks_order();
                Outcome::KeepOrder
            },
            Action::ToggleTodo => match self.toggle_todo() {
                Some((idx, sub_path)) => Outcome::BacklinkTodo { idx, sub_path },
                None => Outcome::Done,
            },
            Action::SearchWord { forward } => match self.search_word_under_cursor() {
                Some(word) => Outcome::Search { word, forward },
                None => Outcome::Done,
            },
            Action::InsertRemind => {
                self.insert_remind();
                Outcome::Done
            },
            Action::InsertRemindNag => {
                self.insert_remind_nag();
                Outcome::Done
            },
            Action::SnoozeBlock => Outcome::Ask(self.snooze_selected_block()),
            Action::OpenProperties => Outcome::Ask(self.open_properties()),
            _ => Outcome::Outside(a),
        }
    }

    /// Does an action of Normal mode, as far as the editor can by itself.
    pub fn perform(&mut self, a: Action, today: i32) -> (r: Outcome)
        requires
            performable(*old(self), a, today as int),
        ensures
            performed(*old(self), *final(self), a, today as int, r),
            final(self).wf(),
    {
        match a {
            Action::ReplaceChar(_)
            | Action::DeleteChar
            | Action::DeleteCharBefore
            | Action::DeleteToEnd
            | Action::ChangeToEnd
            | Action::SubstituteBlock
            | Action::SubstituteChar
            | Action::ToggleCase => self.perform_on_text(a),
            Action::MoveSelection(_)
            | Action::MoveColumn(_)
            | Action::ColumnHome
            | Action::ColumnEnd
            | Action::EnterInsertAtEnd
            | Action::WordLeft
            | Action::WordRight
            | Action::WordEnd
            | Action::FindCharForward(_)
            | Action::FindCharBackward(_)
            | Action::CenterViewport
            | Action::EnterVisual
            | Action::ReselectVisual
            | Action::ZoomIn
            | Action::ZoomOut => self.perform_move(a),
            _ => self.perform_on_page(a, today),
        }
    }
}

// ---------------------------------------------------------------------
// Laws
// ---------------------------------------------------------------------

/// What the keys that edit a text make of it, for a key by itself: `x` and `s`
/// take out the character under the cursor, `X` the one before it, `D` and `C`
/// all from the cursor on, `S` everything, and `~` changes the one character
/// under the cursor. `s`, `C` and `S` go on to Insert mode.
pub proof fn law_keys_edit_the_text(
    old: App,
    new: App,
    c: char,
    height: u16,
    sidebar: bool,
    today: int,
    r: Outcome,
)
    requires
        old.wf(),
        old.focus is Outline,
        old.selected < count(old.blocks()),
        performed(old, new, key_action(plain_key(KeyCode::Char(c)), height, sidebar), today, r),
    ensures
        ({
            let s = current_text(old);
            let col = clamped_col(old);
            let t = current_text(new);
            &&& (c == 'x' || c == 's') && col < s.len() ==> t == s.take(col) + s.skip(col + 1)
            &&& c == 'X' && col > 0 ==> t == s.take(col - 1) + s.skip(col) && new.cursor_col == col
                - 1
            &&& c == 'D' || c == 'C' ==> t == s.take(col)
            &&& c == 'S' ==> t.len() == 0
            &&& c == '~' && col < s.len() ==> t.len() == s.len() && t.take(col) == s.take(col)
                && t.skip(col + 1) == s.skip(col + 1) && new.cursor_col == col + 1
            &&& c == 's' || c == 'C' ==> r == Outcome::Insert(InsertCursor::AtCursor)
            &&& c == 'S' ==> r == Outcome::Insert(InsertCursor::Start)
            &&& c == 'x' || c == 'X' || c == 'D' || c == '~' ==> r is Done
        }),
{
    let a = key_action(plain_key(KeyCode::Char(c)), height, sidebar);
    let s = current_text(old);
    let col = clamped_col(old);
    law_x_deletes_under_the_cursor(s, col);
    law_shift_x_deletes_before_the_cursor(s, col);
    law_shift_d_keeps_what_is_before(s, col);
    law_shift_s_leaves_nothing(s, col);
    law_r_and_tilde_change_one_character(s, col, ' ');
    if c == 'x' || c == 's' || c == 'X' || c == 'D' || c == 'C' || c == 'S' || c == '~' {
        let (change, _) = text_action(a, s, col)->0;
        match change {
            Some(t) => {
                law_written_text_is_read(old, new, t);
                if c == 'D' || c == 'C' {
                    assert(t.text + s.skip(col) == s);
                    assert(t.text =~= s.take(col));
                }
                if c == '~' {
                    assert(t.text.take(col) =~= s.take(col));
                    assert(t.text.skip(col + 1) =~= s.skip(col + 1));
                }
            },
            None => {
                assert(current_text(new) == s);
                assert(s.take(s.len() as int) =~= s);
            },
        }
    }
}

/// `r` puts the character that is typed next in the place of the one under the
/// cursor, and changes no other.
pub proof fn law_r_replaces_one_character(
    old: App,
    new: App,
    ch: char,
    today: int,
    r: Outcome,
)
    requires
        old.wf(),
        old.focus is Outline,
        old.selected < count(old.blocks()),
        clamped_col(old) < current_text(old).len(),
        performed(old, new, op_action(PendingInputOp::ReplaceChar, ch), today, r),
    ensures
        current_text(new) == current_text(old).take(clamped_col(old)) + seq![ch] + current_text(
            old,
        ).skip(clamped_col(old) + 1),
        new.cursor_col == clamped_col(old),
        r is Done,
{
    let s = current_text(old);
    let col = clamped_col(old);
    law_r_and_tilde_change_one_character(s, col, ch);
    law_written_text_is_read(old, new, char_replaced(s, col, ch)->0);
}

/// `f` moves the cursor on to the nearest such character and `F` back to it;
/// neither changes the page.
pub proof fn law_f_finds_the_nearest_character(
    old: App,
    new: App,
    ch: char,
    today: int,
    r: Outcome,
)
    requires
        old.cursor_col <= current_text(old).len() <= usize::MAX,
    ensures
        performed(old, new, op_action(PendingInputOp::FindCharForward, ch), today, r) ==> {
            let s = current_text(old);
            &&& new.page == old.page
            &&& new.cursor_col == old.cursor_col || (old.cursor_col < new.cursor_col < s.len()
                && s[new.cursor_col as int] == ch && forall|j: int|
                old.cursor_col < j < new.cursor_col ==> s[j] != ch)
            &&& new.cursor_col == old.cursor_col ==> forall|j: int|
                old.cursor_col < j < s.len() ==> s[j] != ch
        },
        performed(old, new, op_action(PendingInputOp::FindCharBackward, ch), today, r) ==> {
            let s = current_text(old);
            &&& new.page == old.page
            &&& new.cursor_col == old.cursor_col || (new.cursor_col < old.cursor_col
                && s[new.cursor_col as int] == ch && forall|j: int|
                new.cursor_col < j < old.cursor_col ==> s[j] != ch)
            &&& new.cursor_col == old.cursor_col ==> forall|j: int|
                0 <= j < old.cursor_col ==> s[j] != ch
        },
{
    law_characters_are_found_nearest_first(current_text(old), old.cursor_col as int, ch);
}

/// `]` goes to the journal of the next day and `[` to that of the day before,
/// from the journal on the screen or from today, and `t` goes to that of
/// today. Each puts the cursor at the top and has the page read.
pub proof fn law_journal_keys_go_from_day_to_day(
    old: App,
    new: App,
    c: char,
    height: u16,
    sidebar: bool,
    today: int,
    r: Outcome,
)
    requires
        c == '[' || c == ']' || c == 't',
        performed(old, new, key_action(plain_key(KeyCode::Char(c)), height, sidebar), today, r),
    ensures
        r is Load,
        new.selected == 0 && new.cursor_col == 0,
        ({
            let from = match old.screen@ {
                ScreenValue::Journal(d) => d,
                ScreenValue::Page(_) => today,
            };
            &&& c == ']' ==> new.screen@ == ScreenValue::Journal(from + 1)
            &&& c == '[' ==> new.screen@ == ScreenValue::Journal(from - 1)
            &&& c == 't' ==> new.screen@ == ScreenValue::Journal(today)
        }),
{
}

/// Keys that move the cursor leave the page as it is: `0` and Home go to the
/// start of the text, `$` and End behind it, `h` and `l` one to the left and
/// right, `j` and `k` one block down and up.
pub proof fn law_keys_move_the_cursor(
    old: App,
    new: App,
    c: char,
    height: u16,
    sidebar: bool,
    today: int,
    r: Outcome,
)
    requires
        old.cursor_col <= current_text(old).len(),
        c == '0' || c == '$' || c == 'h' || c == 'l' || c == 'j' || c == 'k' || c == 'w' || c
            == 'b' || c == 'e',
        performed(old, new, key_action(plain_key(KeyCode::Char(c)), height, sidebar), today, r),
    ensures
        new.page == old.page,
        r is Done,
        c == '0' ==> new.cursor_col == 0,
        c == '$' ==> new.cursor_col == current_text(old).len(),
        c == 'h' ==> new.cursor_col == (if old.cursor_col > 0 {
            old.cursor_col - 1
        } else {
            0
        }),
        c == 'l' ==> new.cursor_col == (if old.cursor_col < current_text(old).len() {
            old.cursor_col + 1
        } else {
            old.cursor_col as int
        }),
        c == 'j' ==> cursor_of(new) == moved(old, 1),
        c == 'k' ==> cursor_of(new) == moved(old, -1),
        c == 'w' ==> new.cursor_col >= old.cursor_col,
        c == 'e' ==> new.cursor_col >= old.cursor_col,
        c == 'b' ==> new.cursor_col <= old.cursor_col,
        c == 'w' && new.cursor_col < current_text(old).len() && old.cursor_col < new.cursor_col
            ==> begins_word(current_text(old), new.cursor_col as int),
        c == 'b' && new.cursor_col > 0 ==> begins_word(current_text(old), new.cursor_col as int),
        c == 'e' && new.cursor_col < current_text(old).len() - 1 ==> ends_word(
            current_text(old),
            new.cursor_col as int,
        ),
{
    let s = current_text(old);
    let col = old.cursor_col as int;
    law_w_goes_to_the_next_word(s, col);
    law_b_goes_to_the_word_before(s, col);
    if col < s.len() {
        law_e_goes_to_the_end_of_a_word(s, col);
    }
}

/// What moves the cursor or the view leaves the page, and what can be taken
/// back, as they are.
pub proof fn law_moves_leave_the_page_alone(old: App, new: App, a: Action, r: Outcome)
    requires
        move_performed(old, new, a, r),
    ensures
        new.page == old.page,
        new.undo == old.undo,
        new.dirty_since == old.dirty_since,
        a == Action::EnterVisual ==> new.mode == (Mode::Visual { anchor: old.selected })
            && new.selected == old.selected,
        a == Action::EnterInsertAtEnd ==> new.cursor_col == current_text(old).len() && r
            == Outcome::Insert(InsertCursor::AtCursor),
{
}

} // verus!

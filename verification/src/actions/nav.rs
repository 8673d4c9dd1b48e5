//! Moving between blocks and inside a block's text.

use crate::actions::zoom::window;
use crate::outline::{
    count, flat_count, index_for_path, index_of, law_every_block_has_a_path, lemma_index_in_range,
    node_at, node_at_path, nodes_view, path_at, path_for_index, preorder_all, NodeView,
    OutlineNode,
};
use crate::state::{App, Focus};
use crate::text::{chars_of, is_white, is_whitespace, opt_text, string_range};
use vstd::prelude::*;

verus! {

/// Where the cursor is, as a value.
pub ghost enum FocusValue {
    Outline,
    Backlink { idx: int, sub_path: Seq<usize> },
}

impl View for Focus {
    type V = FocusValue;

    open spec fn view(&self) -> FocusValue {
        match self {
            Focus::Outline => FocusValue::Outline,
            Focus::Backlink { idx, sub_path } => FocusValue::Backlink {
                idx: *idx as int,
                sub_path: sub_path@,
            },
        }
    }
}

/// The cursor, as a value.
pub ghost struct Cursor {
    pub selected: int,
    pub col: int,
    pub focus: FocusValue,
}

/// The cursor of the editor.
pub open spec fn cursor_of(app: App) -> Cursor {
    Cursor { selected: app.selected as int, col: app.cursor_col as int, focus: app.focus@ }
}

/// A folded block hides the block at a flat index.
pub open spec fn hidden(app: App, i: int) -> bool {
    0 <= i < app.hidden_by_collapse@.len() && app.hidden_by_collapse@[i]
}

/// The first shown block in `from..end`.
pub open spec fn next_shown(app: App, from: int, end: int) -> Option<int>
    decreases end - from,
{
    if from >= end {
        None
    } else if hidden(app, from) {
        next_shown(app, from + 1, end)
    } else {
        Some(from)
    }
}

/// The last shown block in `start..=from`.
pub open spec fn prev_shown(app: App, from: int, start: int) -> Option<int>
    decreases from - start + 1,
{
    if from < start {
        None
    } else if hidden(app, from) {
        prev_shown(app, from - 1, start)
    } else {
        Some(from)
    }
}

/// There is a backlink to move to.
pub open spec fn navigable(app: App) -> bool {
    app.show_backlinks && app.backlinks@.len() > 0
}

/// The place of a path below a block, the block itself being the first. A
/// path that leads nowhere counts as the block.
pub open spec fn place_below(n: NodeView, sub: Seq<usize>) -> int {
    if sub.len() == 0 {
        0
    } else {
        match index_of(n.children, sub) {
            Some(k) => k + 1,
            None => 0,
        }
    }
}

/// The path to a place below a block.
pub open spec fn path_below(n: NodeView, k: int) -> Seq<usize> {
    if k <= 0 {
        Seq::empty()
    } else {
        match path_at(n.children, k - 1) {
            Some(p) => p,
            None => Seq::empty(),
        }
    }
}

/// One step down through the outline and on into the backlinks. There is
/// none at the bottom, and none out of the block zoomed into.
pub open spec fn forward(app: App, c: Cursor) -> Option<Cursor> {
    match c.focus {
        FocusValue::Outline => match next_shown(app, c.selected + 1, window(app).1) {
            Some(i) => Some(Cursor { selected: i, col: 0, ..c }),
            None => if app.zoom_stack@.len() == 0 && navigable(app) {
                Some(
                    Cursor {
                        col: 0,
                        focus: FocusValue::Backlink { idx: 0, sub_path: Seq::empty() },
                        ..c
                    },
                )
            } else {
                None
            },
        },
        FocusValue::Backlink { idx, sub_path } => if idx >= app.backlinks@.len() {
            None
        } else {
            let n = app.backlinks@[idx].source_block@;
            let k = place_below(n, sub_path);
            if k < count(n.children) {
                Some(
                    Cursor {
                        col: 0,
                        focus: FocusValue::Backlink { idx, sub_path: path_below(n, k + 1) },
                        ..c
                    },
                )
            } else if idx + 1 < app.backlinks@.len() {
                Some(
                    Cursor {
                        col: 0,
                        focus: FocusValue::Backlink { idx: idx + 1, sub_path: Seq::empty() },
                        ..c
                    },
                )
            } else {
                None
            }
        },
    }
}

/// One step up, from the backlinks back into the outline.
pub open spec fn backward(app: App, c: Cursor) -> Option<Cursor> {
    match c.focus {
        FocusValue::Outline => {
            let start = window(app).0;
            if c.selected <= start {
                None
            } else {
                match prev_shown(app, c.selected - 1, start) {
                    Some(i) => Some(Cursor { selected: i, col: 0, ..c }),
                    None => None,
                }
            }
        },
        FocusValue::Backlink { idx, sub_path } => if idx >= app.backlinks@.len() {
            None
        } else {
            let n = app.backlinks@[idx].source_block@;
            let k = place_below(n, sub_path);
            if k > 0 {
                Some(
                    Cursor {
                        col: 0,
                        focus: FocusValue::Backlink { idx, sub_path: path_below(n, k - 1) },
                        ..c
                    },
                )
            } else if idx > 0 {
                let above = app.backlinks@[idx - 1].source_block@;
                Some(
                    Cursor {
                        col: 0,
                        focus: FocusValue::Backlink {
                            idx: idx - 1,
                            sub_path: path_below(above, count(above.children) as int),
                        },
                        ..c
                    },
                )
            } else {
                Some(
                    Cursor {
                        selected: if app.flat_len > 0 {
                            app.flat_len - 1
                        } else {
                            0
                        },
                        col: 0,
                        focus: FocusValue::Outline,
                    },
                )
            }
        },
    }
}

/// `n` steps down, or as many as there are.
pub open spec fn forward_by(app: App, c: Cursor, n: int) -> Cursor
    decreases n,
{
    if n <= 0 {
        c
    } else {
        match forward(app, c) {
            Some(d) => forward_by(app, d, n - 1),
            None => c,
        }
    }
}

/// `n` steps up, or as many as there are.
pub open spec fn backward_by(app: App, c: Cursor, n: int) -> Cursor
    decreases n,
{
    if n <= 0 {
        c
    } else {
        match backward(app, c) {
            Some(d) => backward_by(app, d, n - 1),
            None => c,
        }
    }
}

/// Where a move by `delta` blocks leads.
pub open spec fn moved(app: App, delta: int) -> Cursor {
    let c = cursor_of(app);
    if app.flat_len == 0 && app.focus is Outline {
        Cursor { selected: 0, col: 0, ..c }
    } else if delta > 0 {
        forward_by(app, c, delta)
    } else {
        backward_by(app, c, -delta)
    }
}

/// Two states that differ at most in the cursor.
pub open spec fn same_but_cursor(a: App, b: App) -> bool {
    b == App { selected: b.selected, cursor_col: b.cursor_col, focus: b.focus, ..a }
}

impl App {
    fn is_hidden(&self, i: usize) -> (r: bool)
        ensures
            r == hidden(*self, i as int),
    {
        i < self.hidden_by_collapse.len() && self.hidden_by_collapse[i]
    }

    /// Moves the cursor by one block down. Returns whether it moved.
    pub fn step_forward(&mut self) -> (r: bool)
        requires
            old(self).wf(),
            old(self).selected < usize::MAX,
        ensures
            same_but_cursor(*old(self), *final(self)),
            match forward(*old(self), cursor_of(*old(self))) {
                Some(c) => r && cursor_of(*final(self)) == c,
                None => !r && *final(self) == *old(self),
            },
            final(self).selected < usize::MAX,
    {
        match &self.focus {
            Focus::Outline => {
                let (_, end) = self.zoom_root_window();
                let mut next: usize = self.selected + 1;
                while next < end && self.is_hidden(next)
                    invariant
                        next_shown(*self, self.selected + 1, end as int) == next_shown(
                            *self,
                            next as int,
                            end as int,
                        ),
                    decreases end - next,
                {
                    next += 1;
                }
                if next < end {
                    self.selected = next;
                    self.cursor_col = 0;
                    return true;
                }
                if self.zoom_stack.len() == 0 && self.backlinks_navigable() {
                    let sub_path: Vec<usize> = Vec::new();
                    assert(sub_path@ =~= Seq::empty());
                    self.focus = Focus::Backlink { idx: 0, sub_path };
                    self.cursor_col = 0;
                    return true;
                }
                false
            },
            Focus::Backlink { idx, sub_path } => {
                let idx: usize = *idx;
                if idx >= self.backlinks.len() {
                    return false;
                }
                let block = &self.backlinks[idx].source_block;
                let (k, n) = place_in(block, sub_path);
                let new: Focus;
                if k < n {
                    new = Focus::Backlink { idx, sub_path: path_to(block, k + 1) };
                } else if idx < self.backlinks.len() - 1 {
                    let top: Vec<usize> = Vec::new();
                    assert(top@ =~= Seq::empty());
                    new = Focus::Backlink { idx: idx + 1, sub_path: top };
                } else {
                    return false;
                }
                self.focus = new;
                self.cursor_col = 0;
                true
            },
        }
    }

    /// Moves the cursor by one block up. Returns whether it moved.
    pub fn step_backward(&mut self) -> (r: bool)
        requires
            old(self).wf(),
            old(self).selected < usize::MAX,
        ensures
            same_but_cursor(*old(self), *final(self)),
            match backward(*old(self), cursor_of(*old(self))) {
                Some(c) => r && cursor_of(*final(self)) == c,
                None => !r && *final(self) == *old(self),
            },
            final(self).selected < usize::MAX,
    {
        match &self.focus {
            Focus::Outline => {
                let (start, _) = self.zoom_root_window();
                if self.selected <= start {
                    return false;
                }
                let mut prev: usize = self.selected - 1;
                while prev > start && self.is_hidden(prev)
                    invariant
                        start <= prev < self.selected,
                        prev_shown(*self, self.selected - 1, start as int) == prev_shown(
                            *self,
                            prev as int,
                            start as int,
                        ),
                    decreases prev,
                {
                    prev -= 1;
                }
                if self.is_hidden(prev) {
                    assert(prev_shown(*self, prev - 1, start as int) is None);
                    return false;
                }
                self.selected = prev;
                self.cursor_col = 0;
                true
            },
            Focus::Backlink { idx, sub_path } => {
                let idx: usize = *idx;
                if idx >= self.backlinks.len() {
                    return false;
                }
                let block = &self.backlinks[idx].source_block;
                let (k, _) = place_in(block, sub_path);
                if k > 0 {
                    let path = path_to(block, k - 1);
                    self.focus = Focus::Backlink { idx, sub_path: path };
                } else if idx > 0 {
                    let above = &self.backlinks[idx - 1].source_block;
                    proof {
                        assert(above@.children == nodes_view(above.children@));
                    }
                    let n: usize = flat_count(&above.children);
                    let path = path_to(above, n);
                    self.focus = Focus::Backlink { idx: idx - 1, sub_path: path };
                } else {
                    self.focus = Focus::Outline;
                    self.selected = if self.flat_len > 0 {
                        self.flat_len - 1
                    } else {
                        0
                    };
                }
                self.cursor_col = 0;
                true
            },
        }
    }

    /// Moves the cursor by `delta` blocks, down if it is positive.
    pub fn move_selection(&mut self, delta: i32)
        requires
            old(self).wf(),
            old(self).selected < usize::MAX,
            delta > i32::MIN,
        ensures
            same_but_cursor(*old(self), *final(self)),
            cursor_of(*final(self)) == moved(*old(self), delta as int),
            final(self).selected < usize::MAX,
    {
        if self.flat_len == 0 {
            if let Focus::Outline = self.focus {
                self.selected = 0;
                self.cursor_col = 0;
                return;
            }
        }
        if delta > 0 {
            let mut left: i32 = delta;
            while left > 0
                invariant
                    0 <= left <= delta,
                    delta > 0,
                    !(old(self).flat_len == 0 && old(self).focus is Outline),
                    old(self).wf(),
                    self.wf(),
                    self.selected < usize::MAX,
                    same_but_cursor(*old(self), *self),
                    forward_by(*old(self), cursor_of(*old(self)), delta as int) == forward_by(
                        *old(self),
                        cursor_of(*self),
                        left as int,
                    ),
                decreases left,
            {
                proof {
                    lemma_forward_reads(*old(self), *self, cursor_of(*self));
                }
                if !self.step_forward() {
                    return;
                }
                left -= 1;
            }
        } else {
            let mut left: i32 = -delta;
            while left > 0
                invariant
                    0 <= left <= -delta,
                    delta <= 0,
                    !(old(self).flat_len == 0 && old(self).focus is Outline),
                    old(self).wf(),
                    self.wf(),
                    self.selected < usize::MAX,
                    same_but_cursor(*old(self), *self),
                    backward_by(*old(self), cursor_of(*old(self)), -delta) == backward_by(
                        *old(self),
                        cursor_of(*self),
                        left as int,
                    ),
                decreases left,
            {
                proof {
                    lemma_forward_reads(*old(self), *self, cursor_of(*self));
                }
                if !self.step_backward() {
                    return;
                }
                left -= 1;
            }
        }
    }

    /// Whether there is a backlink to move to.
    pub fn backlinks_navigable(&self) -> (r: bool)
        ensures
            r == navigable(*self),
    {
        self.show_backlinks && self.backlinks.len() > 0
    }
}

/// The place of a path below a block, and the number of blocks below it.
fn place_in(block: &OutlineNode, sub: &Vec<usize>) -> (r: (usize, usize))
    requires
        count(block@.children) < usize::MAX,
    ensures
        r.0 == place_below(block@, sub@),
        r.1 == count(block@.children),
        r.0 <= r.1,
{
    proof {
        assert(block@.children == nodes_view(block.children@));
        lemma_index_in_range(block@.children, sub@);
    }
    let n: usize = flat_count(&block.children);
    let k: usize = if sub.len() == 0 {
        0
    } else {
        match index_for_path(&block.children, sub) {
            Some(k) => k + 1,
            None => 0,
        }
    };
    (k, n)
}

/// The path to a place below a block.
fn path_to(block: &OutlineNode, k: usize) -> (p: Vec<usize>)
    requires
        count(block@.children) < usize::MAX,
    ensures
        p@ == path_below(block@, k as int),
{
    proof {
        assert(block@.children == nodes_view(block.children@));
    }
    if k == 0 {
        let p: Vec<usize> = Vec::new();
        assert(p@ =~= Seq::empty());
        return p;
    }
    match path_for_index(&block.children, k - 1) {
        Some(p) => p,
        None => {
            let p: Vec<usize> = Vec::new();
            assert(p@ =~= Seq::empty());
            p
        },
    }
}

/// A step depends on nothing but the cursor that a move changes.
proof fn lemma_forward_reads(a: App, b: App, c: Cursor)
    requires
        same_but_cursor(a, b),
    ensures
        forward(a, c) == forward(b, c),
        backward(a, c) == backward(b, c),
{
    assert(window(a) == window(b));
    let end = window(a).1;
    let start = window(a).0;
    lemma_shown_reads(a, b, c.selected + 1, end);
    lemma_shown_up_reads(a, b, c.selected - 1, start);
}

proof fn lemma_shown_reads(a: App, b: App, from: int, end: int)
    requires
        a.hidden_by_collapse == b.hidden_by_collapse,
    ensures
        next_shown(a, from, end) == next_shown(b, from, end),
    decreases end - from,
{
    if from < end {
        lemma_shown_reads(a, b, from + 1, end);
    }
}

proof fn lemma_shown_up_reads(a: App, b: App, from: int, start: int)
    requires
        a.hidden_by_collapse == b.hidden_by_collapse,
    ensures
        prev_shown(a, from, start) == prev_shown(b, from, start),
    decreases from - start + 1,
{
    if from >= start {
        lemma_shown_up_reads(a, b, from - 1, start);
    }
}

// ---------------------------------------------------------------------
// The text under the cursor
// ---------------------------------------------------------------------

/// A block, or one below it.
pub open spec fn block_below(n: NodeView, sub: Seq<usize>) -> Option<NodeView> {
    if sub.len() == 0 {
        Some(n)
    } else {
        node_at(n.children, sub)
    }
}

/// The text of the block under the cursor; empty if there is none.
pub open spec fn current_text(app: App) -> Seq<char> {
    match app.focus {
        Focus::Outline => if app.selected < count(app.blocks()) {
            preorder_all(app.blocks())[app.selected as int].text
        } else {
            Seq::empty()
        },
        Focus::Backlink { idx, sub_path } => if idx < app.backlinks@.len() {
            match block_below(app.backlinks@[idx as int].source_block@, sub_path@) {
                Some(n) => n.text,
                None => Seq::empty(),
            }
        } else {
            Seq::empty()
        },
    }
}

/// The position before `i` reached by going back over characters that are,
/// or are not, whitespace.
pub open spec fn back_over(s: Seq<char>, i: int, white: bool) -> int
    decreases i,
{
    if i > 0 && i <= s.len() && is_white(s[i - 1]) == white {
        back_over(s, i - 1, white)
    } else {
        i
    }
}

/// The position from `i` on reached by going over characters that are, or
/// are not, whitespace.
pub open spec fn on_over(s: Seq<char>, i: int, white: bool) -> int
    decreases s.len() - i,
{
    if 0 <= i < s.len() && is_white(s[i]) == white {
        on_over(s, i + 1, white)
    } else {
        i
    }
}

fn go_back(s: &Vec<char>, i: usize, white: bool) -> (r: usize)
    requires
        i <= s@.len(),
    ensures
        r == back_over(s@, i as int, white),
        r <= i,
{
    let mut r: usize = i;
    while r > 0 && is_whitespace(s[r - 1]) == white
        invariant
            r <= i <= s@.len(),
            back_over(s@, i as int, white) == back_over(s@, r as int, white),
        decreases r,
    {
        r -= 1;
    }
    r
}

fn go_on(s: &Vec<char>, i: usize, white: bool) -> (r: usize)
    ensures
        r == on_over(s@, i as int, white),
        i <= r,
        i <= s@.len() ==> r <= s@.len(),
{
    let mut r: usize = i;
    while r < s.len() && is_whitespace(s[r]) == white
        invariant
            i <= r,
            i <= s@.len() ==> r <= s@.len(),
            on_over(s@, i as int, white) == on_over(s@, r as int, white),
        decreases s@.len() - r,
    {
        r += 1;
    }
    r
}

/// The word that holds a position: the run of characters around it that are
/// no whitespace. A position past the end is the last one.
pub open spec fn word_at(s: Seq<char>, cursor: int) -> Option<Seq<char>> {
    let pos = if cursor < s.len() {
        cursor
    } else {
        s.len() - 1
    };
    if s.len() == 0 || is_white(s[pos]) {
        None
    } else {
        Some(s.subrange(back_over(s, pos, false), on_over(s, pos, false)))
    }
}

/// The word under `cursor`, or nothing on whitespace and in an empty text.
pub fn word_under_cursor(text: &str, cursor: usize) -> (r: Option<String>)
    ensures
        match r {
            Some(w) => word_at(text@, cursor as int) == Some(w@),
            None => word_at(text@, cursor as int) is None,
        },
{
    let chars = chars_of(text);
    if chars.len() == 0 {
        return None;
    }
    let pos: usize = if cursor < chars.len() {
        cursor
    } else {
        chars.len() - 1
    };
    if is_whitespace(chars[pos]) {
        return None;
    }
    let start: usize = go_back(&chars, pos, false);
    let end: usize = go_on(&chars, pos, false);
    Some(string_range(&chars, start, end))
}

/// Where the word before the column begins.
pub open spec fn word_left_from(s: Seq<char>, col: int) -> int {
    back_over(s, back_over(s, col, true), false)
}

/// Where the word behind the column begins.
pub open spec fn word_right_from(s: Seq<char>, col: int) -> int {
    on_over(s, on_over(s, col, false), true)
}

/// The column `delta` to the right, within the text.
pub open spec fn column_moved(app: App, delta: int) -> int {
    let max = current_text(app).len();
    let next = app.cursor_col + delta;
    if next < 0 {
        0
    } else if next > max {
        max as int
    } else {
        next
    }
}

/// The scroll that has the selected block in the middle.
pub open spec fn centered_scroll(app: App) -> int {
    let half = (if app.viewport_height > 0 {
        app.viewport_height as int
    } else {
        1
    }) / 2;
    if app.selected < half {
        0
    } else {
        (app.selected - half) % 65536
    }
}

/// `new` is `old` after the word under the cursor was looked up.
pub open spec fn word_looked_up(old: App, new: App, word: Option<Seq<char>>) -> bool {
    &&& word == word_at(current_text(old), old.cursor_col as int)
    &&& match word {
        Some(_) => new == old,
        None => {
            &&& new == (App { status: new.status, ..old })
            &&& new.status@ == "no word under cursor"@
        },
    }
}

/// Where the cursor ends up when it goes to the end of a word: on the last
/// character of the next word that ends behind it. At the end of the text it
/// stays.
pub open spec fn word_end_from(s: Seq<char>, col: int) -> int {
    if col >= s.len() {
        col
    } else {
        on_over(s, on_over(s, col + 1, true), false) - 1
    }
}

impl App {
    /// The text of the block under the cursor.
    pub fn current_block_text(&self) -> (r: String)
        requires
            self.wf(),
        ensures
            r@ == current_text(*self),
    {
        match &self.focus {
            Focus::Outline => {
                proof {
                    law_every_block_has_a_path(self.blocks(), self.selected as int);
                }
                match path_for_index(&self.page.blocks, self.selected) {
                    Some(path) => match node_at_path(&self.page.blocks, &path) {
                        Some(n) => n.text.clone(),
                        None => String::new(),
                    },
                    None => String::new(),
                }
            },
            Focus::Backlink { idx, sub_path } => {
                if *idx >= self.backlinks.len() {
                    return String::new();
                }
                let block = &self.backlinks[*idx].source_block;
                proof {
                    assert(block@.children == nodes_view(block.children@));
                }
                if sub_path.len() == 0 {
                    return block.text.clone();
                }
                match node_at_path(&block.children, sub_path) {
                    Some(n) => n.text.clone(),
                    None => String::new(),
                }
            },
        }
    }

    /// The number of characters of the block under the cursor.
    pub fn current_block_char_count(&self) -> (n: usize)
        requires
            self.wf(),
        ensures
            n == current_text(*self).len(),
    {
        let text = self.current_block_text();
        text.as_str().unicode_len()
    }

    /// Moves the cursor by `delta` characters, within the text.
    pub fn move_cursor_col(&mut self, delta: i32)
        requires
            old(self).wf(),
        ensures
            *final(self) == (App { cursor_col: final(self).cursor_col, ..*old(self) }),
            final(self).cursor_col == column_moved(*old(self), delta as int),
    {
        let max: usize = self.current_block_char_count();
        let next: i128 = self.cursor_col as i128 + delta as i128;
        self.cursor_col = if next < 0 {
            0
        } else if next > max as i128 {
            max
        } else {
            next as usize
        };
    }

    /// Moves the cursor to the start of the text.
    pub fn cursor_to_home(&mut self)
        ensures
            *final(self) == (App { cursor_col: 0, ..*old(self) }),
    {
        self.cursor_col = 0;
    }

    /// Moves the cursor behind the end of the text.
    pub fn cursor_to_end(&mut self)
        requires
            old(self).wf(),
        ensures
            *final(self) == (App { cursor_col: final(self).cursor_col, ..*old(self) }),
            final(self).cursor_col == current_text(*old(self)).len(),
    {
        self.cursor_col = self.current_block_char_count();
    }

    /// Moves the cursor to the start of the word, or of the one before.
    pub fn cursor_word_left(&mut self)
        requires
            old(self).wf(),
            old(self).cursor_col <= current_text(*old(self)).len(),
        ensures
            *final(self) == (App { cursor_col: final(self).cursor_col, ..*old(self) }),
            final(self).cursor_col == word_left_from(
                current_text(*old(self)),
                old(self).cursor_col as int,
            ),
    {
        let text = self.current_block_text();
        let chars = chars_of(text.as_str());
        let i: usize = go_back(&chars, self.cursor_col, true);
        self.cursor_col = go_back(&chars, i, false);
    }

    /// Moves the cursor to the start of the next word.
    pub fn cursor_word_right(&mut self)
        requires
            old(self).wf(),
        ensures
            *final(self) == (App { cursor_col: final(self).cursor_col, ..*old(self) }),
            final(self).cursor_col == word_right_from(
                current_text(*old(self)),
                old(self).cursor_col as int,
            ),
    {
        let text = self.current_block_text();
        let chars = chars_of(text.as_str());
        let i: usize = go_on(&chars, self.cursor_col, false);
        self.cursor_col = go_on(&chars, i, true);
    }

    /// Moves the cursor to the last character of the word, or of the next
    /// one when it is there already. At the end of the block it stays.
    pub fn cursor_word_end(&mut self)
        requires
            old(self).wf(),
        ensures
            *final(self) == (App { cursor_col: final(self).cursor_col, ..*old(self) }),
            final(self).cursor_col == word_end_from(
                current_text(*old(self)),
                old(self).cursor_col as int,
            ),
    {
        let text = self.current_block_text();
        let chars = chars_of(text.as_str());
        if self.cursor_col >= chars.len() {
            return;
        }
        let mut i: usize = go_on(&chars, self.cursor_col + 1, true);
        i = go_on(&chars, i, false);
        self.cursor_col = i - 1;
    }

    /// The word under the cursor, to be searched for. Reports it where there
    /// is none.
    pub fn search_word_under_cursor(&mut self) -> (r: Option<String>)
        requires
            old(self).wf(),
        ensures
            word_looked_up(*old(self), *final(self), opt_text(r)),
    {
        let text = self.current_block_text();
        match word_under_cursor(text.as_str(), self.cursor_col) {
            Some(w) => Some(w),
            None => {
                self.status = "no word under cursor".to_owned();
                None
            },
        }
    }

    /// Scrolls so that the block under the cursor is in the middle.
    pub fn center_viewport_on_selection(&mut self)
        requires
            old(self).selected <= i32::MAX,
        ensures
            *final(self) == (App { scroll_y: final(self).scroll_y, ..*old(self) }),
            final(self).scroll_y == centered_scroll(*old(self)),
    {
        let vp: usize = if self.viewport_height > 0 {
            self.viewport_height as usize
        } else {
            1
        };
        self.scroll_y = if self.selected < vp / 2 {
            0
        } else {
            ((self.selected - vp / 2) % 65536) as u16
        };
    }
}

// ---------------------------------------------------------------------
// Laws
// ---------------------------------------------------------------------

proof fn lemma_next_shown_range(app: App, from: int, end: int)
    ensures
        next_shown(app, from, end) matches Some(i) ==> from <= i < end && !hidden(app, i),
    decreases end - from,
{
    if from < end && hidden(app, from) {
        lemma_next_shown_range(app, from + 1, end);
    }
}

proof fn lemma_prev_shown_range(app: App, from: int, start: int)
    ensures
        prev_shown(app, from, start) matches Some(i) ==> start <= i <= from && !hidden(app, i),
    decreases from - start + 1,
{
    if from >= start && hidden(app, from) {
        lemma_prev_shown_range(app, from - 1, start);
    }
}

/// While a block is zoomed into, moving never leaves it: the cursor stays
/// in the outline, between that block and the last one below it.
pub proof fn law_zoom_confines_moves(app: App, c: Cursor, n: int)
    requires
        app.zoom_stack@.len() > 0,
        c.focus is Outline,
        window(app).0 <= c.selected < window(app).1,
    ensures
        ({
            let d = forward_by(app, c, n);
            d.focus is Outline && window(app).0 <= d.selected < window(app).1
        }),
        ({
            let d = backward_by(app, c, n);
            d.focus is Outline && window(app).0 <= d.selected < window(app).1
        }),
    decreases n,
{
    if n > 0 {
        lemma_next_shown_range(app, c.selected + 1, window(app).1);
        lemma_prev_shown_range(app, c.selected - 1, window(app).0);
        if let Some(d) = forward(app, c) {
            law_zoom_confines_moves(app, d, n - 1);
        }
        if let Some(d) = backward(app, c) {
            law_zoom_confines_moves(app, d, n - 1);
        }
    }
}

proof fn lemma_steps_stay(app: App, c: Cursor, n: int)
    requires
        app.zoom_stack@.len() > 0 ==> c.focus is Outline,
        window(app).0 <= c.selected < window(app).1,
    ensures
        ({
            let d = forward_by(app, c, n);
            &&& window(app).0 <= d.selected < window(app).1
            &&& app.zoom_stack@.len() > 0 ==> d.focus is Outline
        }),
        c.focus is Outline ==> ({
            let d = backward_by(app, c, n);
            d.focus is Outline && window(app).0 <= d.selected < window(app).1
        }),
    decreases n,
{
    if n > 0 {
        lemma_next_shown_range(app, c.selected + 1, window(app).1);
        lemma_prev_shown_range(app, c.selected - 1, window(app).0);
        if let Some(d) = forward(app, c) {
            lemma_steps_stay(app, d, n - 1);
        }
        if c.focus is Outline {
            if let Some(d) = backward(app, c) {
                lemma_steps_stay(app, d, n - 1);
            }
        }
    }
}

/// A move from a block that is shown leaves the page as it is and the
/// selection on a block that is shown: of the block zoomed into, or of the
/// page. A page that holds blocks has to be counted.
pub proof fn law_moves_stay_in_the_window(old: App, new: App, delta: int)
    requires
        old.focus is Outline,
        old.flat_len == 0 ==> count(old.blocks()) == 0,
        window(old).0 <= old.selected < window(old).1,
        same_but_cursor(old, new),
        cursor_of(new) == moved(old, delta),
    ensures
        window(new) == window(old),
        window(old).0 <= new.selected < window(old).1,
        new.page == old.page,
        old.zoom_stack@.len() > 0 ==> new.focus is Outline,
        delta <= 0 ==> new.focus is Outline,
{
    if let Some(p) = crate::actions::zoom::zoom_root(old) {
        lemma_index_in_range(old.blocks(), p);
    }
    lemma_steps_stay(old, cursor_of(old), delta);
    lemma_steps_stay(old, cursor_of(old), -delta);
}

/// A move in the outline lands on a block that is not folded away.
pub proof fn law_moves_skip_folded_blocks(app: App, c: Cursor)
    requires
        c.focus is Outline,
    ensures
        forward(app, c) matches Some(d) ==> (d.focus is Outline ==> !hidden(app, d.selected)),
        backward(app, c) matches Some(d) ==> !hidden(app, d.selected),
{
    lemma_next_shown_range(app, c.selected + 1, window(app).1);
    lemma_prev_shown_range(app, c.selected - 1, window(app).0);
}

proof fn lemma_next_shown(app: App, from: int, end: int)
    ensures
        match next_shown(app, from, end) {
            Some(i) => from <= i < end && !hidden(app, i) && forall|j: int|
                from <= j < i ==> #[trigger] hidden(app, j),
            None => forall|j: int| from <= j < end ==> #[trigger] hidden(app, j),
        },
    decreases end - from,
{
    if from < end && hidden(app, from) {
        lemma_next_shown(app, from + 1, end);
    }
}

proof fn lemma_prev_shown(app: App, from: int, start: int)
    ensures
        match prev_shown(app, from, start) {
            Some(i) => start <= i <= from && !hidden(app, i) && forall|j: int|
                i < j <= from ==> #[trigger] hidden(app, j),
            None => forall|j: int| start <= j <= from ==> #[trigger] hidden(app, j),
        },
    decreases from - start + 1,
{
    if from >= start && hidden(app, from) {
        lemma_prev_shown(app, from - 1, start);
    }
}

/// A step in the outline goes to the nearest block that is not folded away,
/// down or up, within what is shown. It leaves no such block out, and there is
/// no step only where there is no such block.
pub proof fn law_steps_go_to_the_nearest_block(app: App, c: Cursor)
    requires
        c.focus is Outline,
    ensures
        match forward(app, c) {
            Some(d) => {
                &&& d.col == 0
                &&& d.focus is Outline ==> c.selected < d.selected < window(app).1 && !hidden(
                    app,
                    d.selected,
                ) && forall|j: int| c.selected < j < d.selected ==> #[trigger] hidden(app, j)
                &&& d.focus is Backlink ==> app.zoom_stack@.len() == 0 && navigable(app)
                    && d.selected == c.selected && forall|j: int|
                    c.selected < j < window(app).1 ==> #[trigger] hidden(app, j)
            },
            None => (app.zoom_stack@.len() > 0 || !navigable(app)) && forall|j: int|
                c.selected < j < window(app).1 ==> #[trigger] hidden(app, j),
        },
        match backward(app, c) {
            Some(d) => d.col == 0 && d.focus is Outline && window(app).0 <= d.selected < c.selected
                && !hidden(app, d.selected) && forall|j: int|
                d.selected < j < c.selected ==> #[trigger] hidden(app, j),
            None => forall|j: int| window(app).0 <= j < c.selected ==> #[trigger] hidden(app, j),
        },
{
    lemma_next_shown(app, c.selected + 1, window(app).1);
    lemma_prev_shown(app, c.selected - 1, window(app).0);
}

/// In the outline, a step up undoes a step down, and a step down undoes a
/// step up.
pub proof fn law_steps_in_the_outline_undo_each_other(app: App, c: Cursor, d: Cursor)
    requires
        c.focus is Outline,
        d.focus is Outline,
        window(app).0 <= c.selected < window(app).1,
        !hidden(app, c.selected),
    ensures
        forward(app, c) == Some(d) ==> backward(app, d) == Some(Cursor { col: 0, ..c }),
        backward(app, c) == Some(d) ==> forward(app, d) == Some(Cursor { col: 0, ..c }),
{
    lemma_next_shown(app, c.selected + 1, window(app).1);
    lemma_prev_shown(app, c.selected - 1, window(app).0);
    lemma_prev_shown(app, d.selected - 1, window(app).0);
    lemma_next_shown(app, d.selected + 1, window(app).1);
}

/// The first step into the backlinks is undone by a step up: the cursor is on
/// the last block of the page again, where it came from. Stepping down from
/// there leads to the first backlink.
pub proof fn law_the_way_into_the_backlinks_leads_back(app: App, c: Cursor, d: Cursor)
    requires
        c.focus is Outline,
        0 <= c.selected < app.flat_len,
        forall|j: int| c.selected < j < app.flat_len ==> !#[trigger] hidden(app, j),
        forward(app, c) == Some(d),
        d.focus is Backlink,
    ensures
        c.selected == app.flat_len - 1,
        d.focus == (FocusValue::Backlink { idx: 0, sub_path: Seq::empty() }),
        backward(app, d) == Some(Cursor { col: 0, ..c }),
        forward(app, backward(app, d)->0) == Some(d),
{
    lemma_next_shown(app, c.selected + 1, window(app).1);
    if c.selected + 1 < app.flat_len {
        assert(!hidden(app, c.selected + 1));
    }
}

/// From the first backlink, a step up leads to the last block of the page,
/// wherever the cursor was in the outline.
pub proof fn law_above_the_backlinks_is_the_last_block(app: App, c: Cursor)
    requires
        c.focus == (FocusValue::Backlink { idx: 0, sub_path: Seq::empty() }),
        app.backlinks@.len() > 0,
        app.flat_len > 0,
    ensures
        backward(app, c) == Some(
            Cursor { selected: app.flat_len - 1, col: 0, focus: FocusValue::Outline },
        ),
{
}

/// The cursor is on a block of the backlinks.
pub open spec fn on_backlink(app: App, c: Cursor) -> bool {
    match c.focus {
        FocusValue::Outline => false,
        FocusValue::Backlink { idx, sub_path } => {
            &&& 0 <= idx < app.backlinks@.len()
            &&& sub_path.len() == 0 || node_at(
                app.backlinks@[idx].source_block@.children,
                sub_path,
            ) is Some
        },
    }
}

proof fn lemma_places(n: NodeView, sub: Seq<usize>, k: int)
    requires
        count(n.children) < usize::MAX,
        sub.len() == 0 || node_at(n.children, sub) is Some,
        0 <= k <= count(n.children),
    ensures
        0 <= place_below(n, sub) <= count(n.children),
        path_below(n, place_below(n, sub)) == sub,
        place_below(n, path_below(n, k)) == k,
        path_below(n, k).len() == 0 || node_at(n.children, path_below(n, k)) is Some,
{
    lemma_index_in_range(n.children, sub);
    if sub.len() > 0 {
        let j = index_of(n.children, sub)->0;
        crate::outline::lemma_path_at(n.children, sub, j);
    } else {
        assert(path_below(n, 0) =~= sub);
    }
    if k > 0 {
        law_every_block_has_a_path(n.children, k - 1);
        let p = path_at(n.children, k - 1)->0;
        lemma_index_in_range(n.children, p);
    }
}

/// Within the backlinks, a step up undoes a step down and a step down undoes
/// a step up, from block to block and from one backlink to the next.
pub proof fn law_steps_in_the_backlinks_undo_each_other(app: App, c: Cursor, d: Cursor)
    requires
        app.wf(),
        on_backlink(app, c),
        d.focus is Backlink,
    ensures
        forward(app, c) == Some(d) ==> on_backlink(app, d) && backward(app, d) == Some(
            Cursor { col: 0, ..c },
        ),
        backward(app, c) == Some(d) ==> on_backlink(app, d) && forward(app, d) == Some(
            Cursor { col: 0, ..c },
        ),
{
    let idx = c.focus->idx;
    let sub = c.focus->sub_path;
    let n = app.backlinks@[idx].source_block@;
    let k = place_below(n, sub);
    lemma_places(n, sub, 0);
    if k < count(n.children) {
        lemma_places(n, sub, k + 1);
    }
    if k > 0 {
        lemma_places(n, sub, k - 1);
    }
    if idx + 1 < app.backlinks@.len() {
        let below = app.backlinks@[idx + 1].source_block@;
        lemma_places(below, Seq::empty(), 0);
    }
    if idx > 0 {
        let above = app.backlinks@[idx - 1].source_block@;
        lemma_places(above, Seq::empty(), count(above.children) as int);
        assert(path_below(n, 0) =~= Seq::empty());
    }
}

/// Steps add up: so many steps and then so many more are as many as both
/// together.
pub proof fn law_steps_add_up(app: App, c: Cursor, m: int, n: int)
    requires
        0 <= m,
        0 <= n,
    ensures
        forward_by(app, c, m + n) == forward_by(app, forward_by(app, c, m), n),
        backward_by(app, c, m + n) == backward_by(app, backward_by(app, c, m), n),
        forward_by(app, c, 1) == (match forward(app, c) {
            Some(d) => d,
            None => c,
        }),
        backward_by(app, c, 1) == (match backward(app, c) {
            Some(d) => d,
            None => c,
        }),
    decreases m,
{
    reveal_with_fuel(forward_by, 2);
    reveal_with_fuel(backward_by, 2);
    if m > 0 {
        match forward(app, c) {
            Some(d) => law_steps_add_up(app, d, m - 1, n),
            None => lemma_no_steps(app, c, n),
        }
        match backward(app, c) {
            Some(d) => law_steps_add_up(app, d, m - 1, n),
            None => lemma_no_steps(app, c, n),
        }
    }
}

proof fn lemma_no_steps(app: App, c: Cursor, n: int)
    ensures
        forward(app, c) is None ==> forward_by(app, c, n) == c,
        backward(app, c) is None ==> backward_by(app, c, n) == c,
{
}

/// A move by so many blocks is so many steps: down for a positive number, up
/// for a negative one, and none for nought. On a page without blocks the
/// cursor goes to the start.
pub proof fn law_a_move_is_so_many_steps(app: App, n: int)
    requires
        app.flat_len > 0 || app.focus is Backlink,
    ensures
        n > 0 ==> moved(app, n) == forward_by(app, cursor_of(app), n),
        n < 0 ==> moved(app, n) == backward_by(app, cursor_of(app), -n),
        moved(app, 0) == cursor_of(app),
        moved(app, 1) == (match forward(app, cursor_of(app)) {
            Some(d) => d,
            None => cursor_of(app),
        }),
        moved(app, -1) == (match backward(app, cursor_of(app)) {
            Some(d) => d,
            None => cursor_of(app),
        }),
{
    law_steps_add_up(app, cursor_of(app), 0, 0);
}

/// The text under the cursor is that of the block that the flat index counts
/// to, or of the block of the backlink that the cursor is on.
pub proof fn law_the_text_is_that_of_the_block(app: App)
    requires
        app.wf(),
    ensures
        app.focus is Outline ==> (path_at(app.blocks(), app.selected as int) matches Some(p)
            ==> node_at(app.blocks(), p) is Some && current_text(app) == node_at(
            app.blocks(),
            p,
        )->0.text),
        app.focus matches Focus::Backlink { idx, sub_path } ==> idx < app.backlinks@.len() ==> {
            let n = app.backlinks@[idx as int].source_block@;
            &&& sub_path@.len() == 0 ==> current_text(app) == n.text
            &&& node_at(n.children, sub_path@) matches Some(m) ==> current_text(app) == m.text
        },
{
    law_every_block_has_a_path(app.blocks(), app.selected as int);
}

/// A word begins at a position.
pub open spec fn begins_word(s: Seq<char>, j: int) -> bool {
    0 <= j < s.len() && !is_white(s[j]) && (j == 0 || is_white(s[j - 1]))
}

/// A word ends with the character at a position.
pub open spec fn ends_word(s: Seq<char>, j: int) -> bool {
    0 <= j < s.len() && !is_white(s[j]) && (j == s.len() - 1 || is_white(s[j + 1]))
}

proof fn lemma_on_over(s: Seq<char>, i: int, white: bool)
    requires
        0 <= i <= s.len(),
    ensures
        i <= on_over(s, i, white) <= s.len(),
        forall|j: int| i <= j < on_over(s, i, white) ==> is_white(#[trigger] s[j]) == white,
        on_over(s, i, white) < s.len() ==> is_white(s[on_over(s, i, white)]) != white,
    decreases s.len() - i,
{
    if i < s.len() && is_white(s[i]) == white {
        lemma_on_over(s, i + 1, white);
    }
}

proof fn lemma_back_over(s: Seq<char>, i: int, white: bool)
    requires
        0 <= i <= s.len(),
    ensures
        0 <= back_over(s, i, white) <= i,
        forall|j: int| back_over(s, i, white) <= j < i ==> is_white(#[trigger] s[j]) == white,
        back_over(s, i, white) > 0 ==> is_white(s[back_over(s, i, white) - 1]) != white,
    decreases i,
{
    if i > 0 && is_white(s[i - 1]) == white {
        lemma_back_over(s, i - 1, white);
    }
}

/// `w` goes to where the next word begins, or behind the text where there is
/// none.
pub proof fn law_w_goes_to_the_next_word(s: Seq<char>, col: int)
    requires
        0 <= col <= s.len(),
    ensures
        ({
            let r = word_right_from(s, col);
            &&& col <= r <= s.len()
            &&& r < s.len() ==> begins_word(s, r) || r == col
            &&& col < s.len() ==> r > col
            &&& forall|j: int| col < j < r ==> !#[trigger] begins_word(s, j)
        }),
{
    let m = on_over(s, col, false);
    lemma_on_over(s, col, false);
    lemma_on_over(s, m, true);
    let r = word_right_from(s, col);
    assert forall|j: int| col < j < r implies !#[trigger] begins_word(s, j) by {
        if j < m {
            assert(is_white(s[j - 1]) == false);
        } else {
            assert(is_white(s[j]));
        }
    }
}

/// `b` goes to where the word before begins, or to the start of the text
/// where there is none.
pub proof fn law_b_goes_to_the_word_before(s: Seq<char>, col: int)
    requires
        0 <= col <= s.len(),
    ensures
        ({
            let r = word_left_from(s, col);
            &&& 0 <= r <= col
            &&& r > 0 ==> begins_word(s, r)
            &&& col > 0 ==> r < col
            &&& forall|j: int| r < j < col ==> !#[trigger] begins_word(s, j)
        }),
{
    let m = back_over(s, col, true);
    lemma_back_over(s, col, true);
    lemma_back_over(s, m, false);
    let r = word_left_from(s, col);
    assert forall|j: int| r < j < col implies !#[trigger] begins_word(s, j) by {
        if j < m {
            assert(is_white(s[j - 1]) == false);
        } else {
            assert(is_white(s[j]));
        }
    }
    if r > 0 {
        assert(is_white(s[r - 1]));
        assert(m > 0);
        assert(r < m);
        assert(is_white(s[r]) == false);
    }
}

/// `e` goes to where the next word ends, or to the last character where none
/// does.
pub proof fn law_e_goes_to_the_end_of_a_word(s: Seq<char>, col: int)
    requires
        0 <= col < s.len(),
    ensures
        ({
            let r = word_end_from(s, col);
            &&& col <= r < s.len()
            &&& r < s.len() - 1 ==> r > col && ends_word(s, r)
            &&& forall|j: int| col < j < r ==> !#[trigger] ends_word(s, j)
        }),
{
    let m = on_over(s, col + 1, true);
    lemma_on_over(s, col + 1, true);
    lemma_on_over(s, m, false);
    let r = word_end_from(s, col);
    assert forall|j: int| col < j < r implies !#[trigger] ends_word(s, j) by {
        if j < m {
            assert(is_white(s[j]));
        } else {
            assert(is_white(s[j + 1]) == false);
        }
    }
    if r < s.len() - 1 {
        assert(is_white(s[r + 1]));
        assert(m < s.len());
        assert(is_white(s[r]) == false);
    }
}

/// The word under the cursor is the whole word: no blank in it, and nothing
/// but blanks or the ends of the text around it.
pub proof fn law_the_word_is_whole(s: Seq<char>, cursor: int)
    requires
        0 <= cursor,
        s.len() > 0,
    ensures
        ({
            let pos = if cursor < s.len() {
                cursor
            } else {
                s.len() - 1
            };
            match word_at(s, cursor) {
                None => is_white(s[pos]),
                Some(w) => exists|a: int|
                    #![trigger begins_word(s, a)]
                    begins_word(s, a) && a <= pos < a + w.len() <= s.len() && w == s.subrange(
                        a,
                        a + w.len(),
                    ) && ends_word(s, a + w.len() - 1) && forall|j: int|
                        a <= j < a + w.len() ==> !is_white(#[trigger] s[j]),
            }
        }),
{
    let pos = if cursor < s.len() {
        cursor
    } else {
        s.len() - 1
    };
    lemma_back_over(s, pos, false);
    lemma_on_over(s, pos, false);
    if !is_white(s[pos]) {
        let a = back_over(s, pos, false);
        let b = on_over(s, pos, false);
        let w = s.subrange(a, b);
        assert(is_white(s[a]) == false);
        assert(is_white(s[b - 1]) == false);
        assert(begins_word(s, a));
        assert(w.len() == b - a);
        assert(ends_word(s, b - 1));
        assert forall|j: int| a <= j < a + w.len() implies !is_white(#[trigger] s[j]) by {}
    }
}

/// A move within the text goes by as many characters as it says, and never
/// leaves the text; a move back undoes it.
pub proof fn law_columns_stay_in_the_text(app: App, delta: int)
    requires
        app.cursor_col <= current_text(app).len(),
    ensures
        0 <= column_moved(app, delta) <= current_text(app).len(),
        0 <= app.cursor_col + delta <= current_text(app).len() ==> column_moved(app, delta)
            == app.cursor_col + delta,
        app.cursor_col + delta < 0 ==> column_moved(app, delta) == 0,
        app.cursor_col + delta > current_text(app).len() ==> column_moved(app, delta)
            == current_text(app).len(),
{
}

/// Centring puts as many rows above the selected block as below it, or as
/// many as there are.
pub proof fn law_centring_halves_the_view(app: App)
    requires
        app.selected < 65536,
        app.viewport_height > 0,
    ensures
        centered_scroll(app) <= app.selected,
        app.selected < app.viewport_height / 2 ==> centered_scroll(app) == 0,
        app.selected >= app.viewport_height / 2 ==> app.selected - centered_scroll(app)
            == app.viewport_height / 2,
{
}

} // verus!

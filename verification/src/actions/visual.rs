//! Visual mode: acting on a range of blocks at once.

use crate::listing::{
    beside, deeper, law_deleting_takes_out_the_subtree, law_indenting_is_one_level_deeper,
    law_indents_and_outdents_count, law_listing_is_the_outline,
    law_moving_down_is_the_sibling_moving_up, law_moving_up_passes_the_sibling,
    law_outdented_block_follows_its_parent, listed_all, total_depth,
};
use crate::outline::{
    count, delete_at_path, deleted, flat_count, indent_at_path, indented,
    law_edits_keep_count, law_every_block_has_a_path, leads_to, lemma_count_take, lemma_path_at,
    move_down_at_path, move_up_at_path, moved_down, moved_up, node_at, nodes_view,
    outdent_at_path, outdented, path_at, path_for_index, sibling_count, siblings_of, swapped,
    NodeView, OutlineNode,
};
use crate::state::{edited, App, Mode, PageValue};
use vstd::prelude::*;

verus! {

/// The flat indices of the selected blocks, the first and the last.
pub open spec fn range_of(app: App) -> Option<(int, int)> {
    match app.mode {
        Mode::Visual { anchor } => Some(
            if anchor <= app.selected {
                (anchor as int, app.selected as int)
            } else {
                (app.selected as int, anchor as int)
            },
        ),
        _ => None,
    }
}

/// What a range operation does to one block.
#[derive(Clone, Copy, PartialEq, Eq, Structural, Debug)]
pub enum BlockEdit {
    Delete,
    Indent,
    Outdent,
    MoveUp,
    MoveDown,
}

/// The outline after an edit of the block at a path.
pub open spec fn edited_at(v: Seq<NodeView>, op: BlockEdit, p: Seq<usize>) -> Seq<NodeView> {
    match op {
        BlockEdit::Delete => deleted(v, p),
        BlockEdit::Indent => indented(v, p),
        BlockEdit::Outdent => outdented(v, p),
        BlockEdit::MoveUp => moved_up(v, p),
        BlockEdit::MoveDown => moved_down(v, p),
    }
}

/// The outline after an edit of the block with a flat index, if there is
/// one.
pub open spec fn edited_index(v: Seq<NodeView>, op: BlockEdit, i: int) -> Seq<NodeView> {
    match path_at(v, i) {
        Some(p) => edited_at(v, op, p),
        None => v,
    }
}

/// The blocks `lo..=hi` edited from the first to the last.
pub open spec fn edited_up_to(v: Seq<NodeView>, op: BlockEdit, lo: int, hi: int) -> Seq<NodeView>
    decreases hi - lo + 1,
{
    if lo > hi {
        v
    } else {
        edited_up_to(edited_index(v, op, lo), op, lo + 1, hi)
    }
}

/// The blocks `lo..=hi` edited from the last to the first.
pub open spec fn edited_down_to(v: Seq<NodeView>, op: BlockEdit, lo: int, hi: int) -> Seq<NodeView>
    decreases hi - lo + 1,
{
    if lo > hi {
        v
    } else {
        edited_down_to(edited_index(v, op, hi), op, lo, hi - 1)
    }
}

proof fn lemma_edit_count(v: Seq<NodeView>, op: BlockEdit, i: int)
    requires
        count(v) <= usize::MAX,
    ensures
        count(edited_index(v, op, i)) <= count(v),
        op != BlockEdit::Delete ==> count(edited_index(v, op, i)) == count(v),
{
    law_every_block_has_a_path(v, i);
    if let Some(p) = path_at(v, i) {
        law_edits_keep_count(v, p);
    }
}

/// Edits the block with a flat index.
fn edit_index(nodes: &mut Vec<OutlineNode>, op: BlockEdit, i: usize)
    requires
        count(nodes_view(old(nodes)@)) <= usize::MAX,
    ensures
        nodes_view(final(nodes)@) == edited_index(nodes_view(old(nodes)@), op, i as int),
        count(nodes_view(final(nodes)@)) <= count(nodes_view(old(nodes)@)),
{
    proof {
        lemma_edit_count(nodes_view(nodes@), op, i as int);
    }
    if let Some(path) = path_for_index(nodes, i) {
        match op {
            BlockEdit::Delete => {
                delete_at_path(nodes, &path);
            },
            BlockEdit::Indent => {
                indent_at_path(nodes, &path);
            },
            BlockEdit::Outdent => {
                outdent_at_path(nodes, &path);
            },
            BlockEdit::MoveUp => {
                move_up_at_path(nodes, &path);
            },
            BlockEdit::MoveDown => {
                move_down_at_path(nodes, &path);
            },
        }
    }
}

fn edit_up_to(nodes: &mut Vec<OutlineNode>, op: BlockEdit, lo: usize, hi: usize)
    requires
        lo <= hi,
        count(nodes_view(old(nodes)@)) <= usize::MAX,
    ensures
        nodes_view(final(nodes)@) == edited_up_to(
            nodes_view(old(nodes)@),
            op,
            lo as int,
            hi as int,
        ),
        count(nodes_view(final(nodes)@)) <= count(nodes_view(old(nodes)@)),
{
    let mut i: usize = lo;
    while i < hi
        invariant
            lo <= i <= hi,
            count(nodes_view(nodes@)) <= count(nodes_view(old(nodes)@)) <= usize::MAX,
            edited_up_to(nodes_view(old(nodes)@), op, lo as int, hi as int) == edited_up_to(
                nodes_view(nodes@),
                op,
                i as int,
                hi as int,
            ),
        decreases hi - i,
    {
        edit_index(nodes, op, i);
        i += 1;
    }
    let ghost last = nodes_view(nodes@);
    edit_index(nodes, op, hi);
    proof {
        reveal_with_fuel(edited_up_to, 2);
        assert(edited_up_to(last, op, hi as int, hi as int) == nodes_view(nodes@));
    }
}

fn edit_down_to(nodes: &mut Vec<OutlineNode>, op: BlockEdit, lo: usize, hi: usize)
    requires
        lo <= hi,
        count(nodes_view(old(nodes)@)) <= usize::MAX,
    ensures
        nodes_view(final(nodes)@) == edited_down_to(
            nodes_view(old(nodes)@),
            op,
            lo as int,
            hi as int,
        ),
        count(nodes_view(final(nodes)@)) <= count(nodes_view(old(nodes)@)),
{
    let mut i: usize = hi;
    while i > lo
        invariant
            lo <= i <= hi,
            count(nodes_view(nodes@)) <= count(nodes_view(old(nodes)@)) <= usize::MAX,
            edited_down_to(nodes_view(old(nodes)@), op, lo as int, hi as int) == edited_down_to(
                nodes_view(nodes@),
                op,
                lo as int,
                i as int,
            ),
        decreases i,
    {
        edit_index(nodes, op, i);
        i -= 1;
    }
    let ghost last = nodes_view(nodes@);
    edit_index(nodes, op, lo);
    proof {
        reveal_with_fuel(edited_down_to, 2);
        assert(edited_down_to(last, op, lo as int, lo as int) == nodes_view(nodes@));
    }
}

proof fn lemma_up_to_count(v: Seq<NodeView>, op: BlockEdit, lo: int, hi: int)
    requires
        count(v) <= usize::MAX,
        op != BlockEdit::Delete,
    ensures
        count(edited_up_to(v, op, lo, hi)) == count(v),
        count(edited_down_to(v, op, lo, hi)) == count(v),
    decreases hi - lo + 1,
{
    if lo <= hi {
        lemma_edit_count(v, op, lo);
        lemma_edit_count(v, op, hi);
        lemma_up_to_count(edited_index(v, op, lo), op, lo + 1, hi);
        lemma_up_to_count(edited_index(v, op, hi), op, lo, hi - 1);
    }
}

/// The last of `n` flat indices, or the first if there is none.
pub open spec fn last_index(n: int) -> int {
    if n > 0 {
        n - 1
    } else {
        0
    }
}

/// The smaller of two numbers.
pub open spec fn least(a: int, b: int) -> int {
    if a < b {
        a
    } else {
        b
    }
}

/// The block at a path has a sibling below it.
pub open spec fn has_sibling_below(v: Seq<NodeView>, p: Seq<usize>) -> bool {
    node_at(v, p) is Some && p.last() + 1 < siblings_of(v, p).len()
}

/// The page after a range of blocks was edited in Visual mode.
pub open spec fn range_edited(old: App, new: App, blocks: Seq<NodeView>) -> bool {
    &&& edited(old, new)
    &&& new.page@ == PageValue { blocks, ..old.page@ }
    &&& new.status == old.status
    &&& new.cursor_col == old.cursor_col
}

/// `new` is `old` with the selected blocks one further up, and the selection
/// with them, if the first of them has a sibling above it.
pub open spec fn range_moved_up(old: App, new: App) -> bool {
    match range_of(old) {
        None => new == old,
        Some((lo, hi)) => match path_at(old.blocks(), lo) {
            Some(p) if p.last() != 0 => {
                &&& range_edited(
                    old,
                    new,
                    edited_up_to(old.blocks(), BlockEdit::MoveUp, lo, hi),
                )
                &&& new.mode == (Mode::Visual { anchor: last_index(lo) as usize })
                &&& new.selected == last_index(hi)
                &&& new.last_visual == old.last_visual
            },
            _ => new == old,
        },
    }
}

/// `new` is `old` with the selected blocks one further down, and the
/// selection with them, if the last of them has a sibling below it.
pub open spec fn range_moved_down(old: App, new: App) -> bool {
    match range_of(old) {
        None => new == old,
        Some((lo, hi)) => match path_at(old.blocks(), hi) {
            Some(p) if has_sibling_below(old.blocks(), p) => {
                let max = last_index(count(old.blocks()) as int);
                &&& range_edited(
                    old,
                    new,
                    edited_down_to(old.blocks(), BlockEdit::MoveDown, lo, hi),
                )
                &&& new.mode == (Mode::Visual { anchor: least(lo + 1, max) as usize })
                &&& new.selected == least(hi + 1, max)
                &&& new.last_visual == old.last_visual
            },
            _ => new == old,
        },
    }
}

/// `new` is `old` with the range that was last selected, as far as the page
/// still reaches.
pub open spec fn reselected(old: App, new: App) -> bool {
    match old.last_visual {
        None => {
            &&& new == (App { status: new.status, ..old })
            &&& new.status@ == "no previous selection"@
        },
        Some((lo, hi)) => {
            let max = last_index(old.flat_len as int);
            new == (App {
                mode: Mode::Visual { anchor: least(lo as int, max) as usize },
                selected: least(hi as int, max) as usize,
                ..old
            })
        },
    }
}

impl App {
    /// Starts Visual mode at the cursor.
    pub fn enter_visual(&mut self)
        ensures
            *final(self) == (App { mode: Mode::Visual { anchor: old(self).selected }, ..*old(self) }),
    {
        self.mode = Mode::Visual { anchor: self.selected };
    }

    /// Selects the range that was selected last, as far as the page goes.
    pub fn reselect_last_visual(&mut self)
        ensures
            reselected(*old(self), *final(self)),
    {
        match self.last_visual {
            None => {
                self.status = "no previous selection".to_owned();
            },
            Some((lo, hi)) => {
                let max: usize = if self.flat_len > 0 {
                    self.flat_len - 1
                } else {
                    0
                };
                self.mode = Mode::Visual {
                    anchor: if lo < max {
                        lo
                    } else {
                        max
                    },
                };
                self.selected = if hi < max {
                    hi
                } else {
                    max
                };
            },
        }
    }

    /// Remembers the selected range.
    pub fn remember_visual_range(&mut self)
        ensures
            *final(self) == (App {
                last_visual: match range_of(*old(self)) {
                    Some((lo, hi)) => Some((lo as usize, hi as usize)),
                    None => old(self).last_visual,
                },
                ..*old(self)
            }),
    {
        if let Some(range) = self.visual_range() {
            self.last_visual = Some(range);
        }
    }

    /// Goes back to Normal mode.
    pub fn exit_visual(&mut self)
        ensures
            *final(self) == (App {
                last_visual: match range_of(*old(self)) {
                    Some((lo, hi)) => Some((lo as usize, hi as usize)),
                    None => old(self).last_visual,
                },
                mode: Mode::Normal,
                ..*old(self)
            }),
    {
        self.remember_visual_range();
        self.mode = Mode::Normal;
    }

    /// The flat indices of the first and the last selected block.
    pub fn visual_range(&self) -> (r: Option<(usize, usize)>)
        ensures
            match r {
                Some((lo, hi)) => range_of(*self) == Some((lo as int, hi as int)) && lo <= hi,
                None => range_of(*self) is None,
            },
    {
        if let Mode::Visual { anchor } = &self.mode {
            if *anchor <= self.selected {
                Some((*anchor, self.selected))
            } else {
                Some((self.selected, *anchor))
            }
        } else {
            None
        }
    }

    /// Deletes the selected blocks and goes back to Normal mode.
    pub fn delete_visual_range(&mut self)
        requires
            old(self).wf(),
        ensures
            match range_of(*old(self)) {
                None => *final(self) == *old(self),
                Some((lo, hi)) => {
                    let blocks = edited_down_to(old(self).blocks(), BlockEdit::Delete, lo, hi);
                    &&& range_edited(*old(self), *final(self), blocks)
                    &&& final(self).mode is Normal
                    &&& final(self).selected == least(lo, last_index(count(blocks) as int))
                    &&& final(self).last_visual == Some((lo as usize, hi as usize))
                },
            },
            final(self).wf(),
    {
        let (lo, hi) = match self.visual_range() {
            Some(r) => r,
            None => {
                return;
            },
        };
        self.snapshot_for_undo();
        self.remember_visual_range();
        edit_down_to(&mut self.page.blocks, BlockEdit::Delete, lo, hi);
        self.mode = Mode::Normal;
        let n: usize = flat_count(&self.page.blocks);
        let max: usize = if n > 0 {
            n - 1
        } else {
            0
        };
        self.selected = if lo < max {
            lo
        } else {
            max
        };
        self.save();
    }

    /// Indents the selected blocks, those that can be.
    pub fn indent_visual_range(&mut self)
        requires
            old(self).wf(),
        ensures
            match range_of(*old(self)) {
                None => *final(self) == *old(self),
                Some((lo, hi)) => {
                    &&& range_edited(
                        *old(self),
                        *final(self),
                        edited_up_to(old(self).blocks(), BlockEdit::Indent, lo, hi),
                    )
                    &&& final(self).mode == old(self).mode
                    &&& final(self).selected == old(self).selected
                    &&& final(self).last_visual == old(self).last_visual
                },
            },
            final(self).wf(),
    {
        let (lo, hi) = match self.visual_range() {
            Some(r) => r,
            None => {
                return;
            },
        };
        self.snapshot_for_undo();
        edit_up_to(&mut self.page.blocks, BlockEdit::Indent, lo, hi);
        self.save();
    }

    /// Outdents the selected blocks, those that can be.
    pub fn outdent_visual_range(&mut self)
        requires
            old(self).wf(),
        ensures
            match range_of(*old(self)) {
                None => *final(self) == *old(self),
                Some((lo, hi)) => {
                    &&& range_edited(
                        *old(self),
                        *final(self),
                        edited_up_to(old(self).blocks(), BlockEdit::Outdent, lo, hi),
                    )
                    &&& final(self).mode == old(self).mode
                    &&& final(self).selected == old(self).selected
                    &&& final(self).last_visual == old(self).last_visual
                },
            },
            final(self).wf(),
    {
        let (lo, hi) = match self.visual_range() {
            Some(r) => r,
            None => {
                return;
            },
        };
        self.snapshot_for_undo();
        edit_up_to(&mut self.page.blocks, BlockEdit::Outdent, lo, hi);
        self.save();
    }

    /// Whether the block at a path has a sibling below it.
    pub fn has_next_sibling(&self, path: &[usize]) -> (r: bool)
        ensures
            r == has_sibling_below(self.blocks(), path@),
    {
        match sibling_count(&self.page.blocks, path) {
            Some(n) => path.len() > 0 && n > 0 && path[path.len() - 1] < n - 1,
            None => false,
        }
    }

    /// Moves the selected blocks up by one, and the selection with them.
    /// Nothing happens if the first of them has no sibling above it.
    pub fn move_up_visual_range(&mut self)
        requires
            old(self).wf(),
        ensures
            range_moved_up(*old(self), *final(self)),
            final(self).wf(),
    {
        let (lo, hi) = match self.visual_range() {
            Some(r) => r,
            None => {
                return;
            },
        };
        let lead = match path_for_index(&self.page.blocks, lo) {
            Some(p) => p,
            None => {
                return;
            },
        };
        proof {
            crate::outline::lemma_index_in_range(self.blocks(), lead@);
        }
        if lead[lead.len() - 1] == 0 {
            return;
        }
        self.snapshot_for_undo();
        edit_up_to(&mut self.page.blocks, BlockEdit::MoveUp, lo, hi);
        self.mode = Mode::Visual {
            anchor: if lo > 0 {
                lo - 1
            } else {
                0
            },
        };
        self.selected = if hi > 0 {
            hi - 1
        } else {
            0
        };
        self.save();
    }

    /// Moves the selected blocks down by one, and the selection with them.
    /// Nothing happens if the last of them has no sibling below it.
    pub fn move_down_visual_range(&mut self)
        requires
            old(self).wf(),
        ensures
            range_moved_down(*old(self), *final(self)),
            final(self).wf(),
    {
        let (lo, hi) = match self.visual_range() {
            Some(r) => r,
            None => {
                return;
            },
        };
        let trail = match path_for_index(&self.page.blocks, hi) {
            Some(p) => p,
            None => {
                return;
            },
        };
        if !self.has_next_sibling(&trail) {
            return;
        }
        self.snapshot_for_undo();
        proof {
            lemma_up_to_count(self.blocks(), BlockEdit::MoveDown, lo as int, hi as int);
        }
        edit_down_to(&mut self.page.blocks, BlockEdit::MoveDown, lo, hi);
        let n: usize = flat_count(&self.page.blocks);
        let max: usize = if n > 0 {
            n - 1
        } else {
            0
        };
        self.mode = Mode::Visual {
            anchor: if lo < max {
                lo + 1
            } else {
                max
            },
        };
        self.selected = if hi < max {
            hi + 1
        } else {
            max
        };
        self.save();
    }
}

// ---------------------------------------------------------------------
// Laws
// ---------------------------------------------------------------------

/// Indenting, outdenting and moving a range of blocks lose none and make
/// none.
pub proof fn law_range_edits_keep_count(v: Seq<NodeView>, op: BlockEdit, lo: int, hi: int)
    requires
        count(v) <= usize::MAX,
        op != BlockEdit::Delete,
    ensures
        count(edited_up_to(v, op, lo, hi)) == count(v),
        count(edited_down_to(v, op, lo, hi)) == count(v),
{
    lemma_up_to_count(v, op, lo, hi);
}

/// Indenting a range of blocks moves no text: the page reads the same.
pub proof fn law_range_indent_keeps_order(v: Seq<NodeView>, lo: int, hi: int)
    ensures
        crate::outline::text_rows_all(edited_up_to(v, BlockEdit::Indent, lo, hi))
            == crate::outline::text_rows_all(v),
    decreases hi - lo + 1,
{
    if lo <= hi {
        if let Some(p) = path_at(v, lo) {
            crate::outline::law_indent_keeps_order(v, p);
        }
        law_range_indent_keeps_order(edited_index(v, BlockEdit::Indent, lo), lo + 1, hi);
    }
}

/// None of the blocks has any below it.
pub open spec fn all_leaves(v: Seq<NodeView>) -> bool {
    forall|i: int| 0 <= i < v.len() ==> (#[trigger] v[i]).children.len() == 0
}

/// The blocks with the one above `lo..=hi` placed below them.
pub open spec fn slid_up(v: Seq<NodeView>, lo: int, hi: int) -> Seq<NodeView> {
    v.remove(lo - 1).insert(hi, v[lo - 1])
}

/// The blocks with the one below `lo..=hi` placed above them.
pub open spec fn slid_down(v: Seq<NodeView>, lo: int, hi: int) -> Seq<NodeView> {
    v.remove(hi + 1).insert(lo, v[hi + 1])
}

proof fn lemma_leaf_count(v: Seq<NodeView>)
    requires
        all_leaves(v),
    ensures
        count(v) == v.len(),
    decreases v.len(),
{
    if v.len() > 0 {
        let n = v.len() - 1;
        assert forall|i: int| 0 <= i < n implies (#[trigger] v.take(n)[i]).children.len()
            == 0 by {
            assert(v.take(n)[i] == v[i]);
        }
        assert(v.take(n) =~= v.drop_last());
        lemma_leaf_count(v.take(n));
        lemma_count_take(v, n);
        assert(v.take(v.len() as int) =~= v);
        assert(v[n].children.len() == 0);
    }
}

proof fn lemma_leaf_path(v: Seq<NodeView>, i: int)
    requires
        all_leaves(v),
        v.len() <= usize::MAX,
        0 <= i < v.len(),
    ensures
        path_at(v, i) == Some(seq![i as usize]),
        node_at(v, seq![i as usize]) is Some,
        siblings_of(v, seq![i as usize]) == v,
{
    assert forall|j: int| 0 <= j < i implies (#[trigger] v.take(i)[j]).children.len() == 0 by {
        assert(v.take(i)[j] == v[j]);
    }
    lemma_leaf_count(v.take(i));
    let p = seq![i as usize];
    assert(leads_to(v, p, i));
    lemma_path_at(v, p, i);
}

proof fn lemma_leaves_swapped(v: Seq<NodeView>, i: int)
    requires
        all_leaves(v),
        0 <= i < v.len() - 1,
    ensures
        all_leaves(swapped(v, i)),
{
    let w = swapped(v, i);
    assert forall|j: int| 0 <= j < w.len() implies (#[trigger] w[j]).children.len() == 0 by {
        assert(v[i].children.len() == 0 && v[i + 1].children.len() == 0);
        assert(v[j].children.len() == 0);
    }
}

/// Moving leaves up one after the other places the block above below them.
proof fn lemma_leaves_slide_up(v: Seq<NodeView>, lo: int, hi: int)
    requires
        all_leaves(v),
        v.len() <= usize::MAX,
        1 <= lo <= hi + 1,
        hi < v.len(),
    ensures
        edited_up_to(v, BlockEdit::MoveUp, lo, hi) == slid_up(v, lo, hi),
        all_leaves(slid_up(v, lo, hi)),
    decreases hi - lo + 1,
{
    let r = slid_up(v, lo, hi);
    if lo > hi {
        assert(r =~= v);
    } else {
        lemma_leaf_path(v, lo);
        let w = swapped(v, lo - 1);
        assert(edited_index(v, BlockEdit::MoveUp, lo) == w);
        lemma_leaves_swapped(v, lo - 1);
        lemma_leaves_slide_up(w, lo + 1, hi);
        assert(w.remove(lo) =~= v.remove(lo - 1));
        assert(slid_up(w, lo + 1, hi) =~= r);
    }
}

/// Moving leaves down, the last one first, places the block below above them.
proof fn lemma_leaves_slide_down(v: Seq<NodeView>, lo: int, hi: int)
    requires
        all_leaves(v),
        v.len() <= usize::MAX,
        0 <= lo <= hi + 1,
        hi + 1 < v.len(),
    ensures
        edited_down_to(v, BlockEdit::MoveDown, lo, hi) == slid_down(v, lo, hi),
    decreases hi - lo + 1,
{
    let r = slid_down(v, lo, hi);
    if lo > hi {
        assert(r =~= v);
    } else {
        lemma_leaf_path(v, hi);
        let w = swapped(v, hi);
        assert(edited_index(v, BlockEdit::MoveDown, hi) == w);
        lemma_leaves_swapped(v, hi);
        lemma_leaves_slide_down(w, lo, hi - 1);
        assert(w.remove(hi) =~= v.remove(hi + 1));
        assert(slid_down(w, lo, hi - 1) =~= r);
    }
}

/// Where no block has any below it, moving a range up moves only the block
/// above it, to below the range. Moving the range down again restores the
/// page.
pub proof fn law_leaves_slide_and_return(v: Seq<NodeView>, lo: int, hi: int)
    requires
        all_leaves(v),
        v.len() <= usize::MAX,
        1 <= lo <= hi < v.len(),
    ensures
        edited_up_to(v, BlockEdit::MoveUp, lo, hi) == slid_up(v, lo, hi),
        edited_down_to(slid_up(v, lo, hi), BlockEdit::MoveDown, lo - 1, hi - 1) == v,
{
    lemma_leaves_slide_up(v, lo, hi);
    let w = slid_up(v, lo, hi);
    lemma_leaves_slide_down(w, lo - 1, hi - 1);
    assert(slid_down(w, lo - 1, hi - 1) =~= v);
}

/// Where no block has any below it, moving the selected range up and then
/// down restores the page and the range.
pub proof fn law_range_move_down_undoes_move_up(a: App, b: App, c: App, lo: int, hi: int)
    requires
        a.wf(),
        all_leaves(a.blocks()),
        range_of(a) == Some((lo, hi)),
        1 <= lo <= hi < a.blocks().len(),
        range_moved_up(a, b),
        range_moved_down(b, c),
    ensures
        b.blocks() == slid_up(a.blocks(), lo, hi),
        range_of(b) == Some((lo - 1, hi - 1)),
        c.page@ == a.page@,
        range_of(c) == Some((lo, hi)),
{
    let v = a.blocks();
    lemma_leaf_count(v);
    lemma_leaf_path(v, lo);
    law_leaves_slide_and_return(v, lo, hi);
    lemma_leaves_slide_up(v, lo, hi);
    let w = b.blocks();
    assert(w == slid_up(v, lo, hi));
    lemma_leaf_count(w);
    lemma_leaf_path(w, hi - 1);
    assert(has_sibling_below(w, seq![(hi - 1) as usize]));
    assert(c.blocks() == v);
}

/// Where no block has any below it, a range that holds the first block does
/// not move up, and one that holds the last does not move down: nothing
/// changes, nor is there anything to undo.
pub proof fn law_ranges_stop_at_the_ends(a: App, b: App, lo: int, hi: int)
    requires
        a.wf(),
        all_leaves(a.blocks()),
        range_of(a) == Some((lo, hi)),
        0 <= lo <= hi < a.blocks().len(),
    ensures
        lo == 0 && range_moved_up(a, b) ==> b == a,
        hi == a.blocks().len() - 1 && range_moved_down(a, b) ==> b == a,
{
    lemma_leaf_count(a.blocks());
    lemma_leaf_path(a.blocks(), lo);
    lemma_leaf_path(a.blocks(), hi);
}

/// A range is edited one part after the other.
pub proof fn law_ranges_are_edited_in_parts(
    v: Seq<NodeView>,
    op: BlockEdit,
    lo: int,
    mid: int,
    hi: int,
)
    requires
        lo <= mid <= hi,
    ensures
        edited_up_to(v, op, lo, hi) == edited_up_to(
            edited_up_to(v, op, lo, mid),
            op,
            mid + 1,
            hi,
        ),
        edited_down_to(v, op, lo, hi) == edited_down_to(
            edited_down_to(v, op, mid, hi),
            op,
            lo,
            mid - 1,
        ),
    decreases hi - lo,
{
    reveal_with_fuel(edited_up_to, 2);
    reveal_with_fuel(edited_down_to, 2);
    if lo < mid {
        law_ranges_are_edited_in_parts(edited_index(v, op, lo), op, lo + 1, mid, hi);
    }
    if mid < hi {
        law_ranges_are_edited_in_parts(edited_index(v, op, hi), op, lo, mid, hi - 1);
    }
}

/// A range of one block is that block: deleted, a level deeper below the
/// sibling above, right behind its parent, or past a sibling.
pub proof fn law_a_range_of_one_is_the_block(v: Seq<NodeView>, k: int, p: Seq<usize>)
    requires
        count(v) <= usize::MAX,
        path_at(v, k) == Some(p),
    ensures
        ({
            let l = listed_all(v, 0);
            let n = node_at(v, p)->0;
            let m = 1 + count(n.children);
            &&& node_at(v, p) is Some
            &&& listed_all(edited_down_to(v, BlockEdit::Delete, k, k), 0) == l.take(k) + l.skip(
                k + m,
            )
            &&& p.last() > 0 ==> listed_all(edited_up_to(v, BlockEdit::Indent, k, k), 0) == l.take(
                k,
            ) + deeper(l.subrange(k, k + m), 1) + l.skip(k + m)
            &&& p.len() >= 2 ==> {
                let w = edited_up_to(v, BlockEdit::Outdent, k, k);
                let parent = p.drop_last();
                &&& node_at(w, beside(parent, parent.last() + 1)) == Some(n)
                &&& node_at(w, parent) == Some(
                    NodeView {
                        children: node_at(v, parent)->0.children.remove(p.last() as int),
                        ..node_at(v, parent)->0
                    },
                )
            }
            &&& p.last() > 0 ==> {
                let w = edited_up_to(v, BlockEdit::MoveUp, k, k);
                let up = k - 1 - count(siblings_of(v, p)[p.last() - 1].children);
                listed_all(w, 0) == l.take(up) + l.subrange(k, k + m) + l.subrange(up, k) + l.skip(
                    k + m,
                )
            }
            &&& has_sibling_below(v, p) ==> edited_down_to(v, BlockEdit::MoveDown, k, k)
                == edited_at(v, BlockEdit::MoveUp, beside(p, p.last() + 1))
        }),
{
    reveal_with_fuel(edited_up_to, 2);
    reveal_with_fuel(edited_down_to, 2);
    law_every_block_has_a_path(v, k);
    lemma_fits(v, p);
    law_deleting_takes_out_the_subtree(v, p, 0);
    if p.last() > 0 {
        law_indenting_is_one_level_deeper(v, p, 0);
        law_moving_up_passes_the_sibling(v, p, 0);
        lemma_sibling(v, p, p.last() - 1);
    }
    if p.len() >= 2 {
        crate::outline::lemma_parent(v, p);
        lemma_fits(v, p.drop_last());
        law_outdented_block_follows_its_parent(v, p);
    }
    if has_sibling_below(v, p) {
        law_moving_down_is_the_sibling_moving_up(v, p);
    }
}

/// The list that a block stands in is no longer than the outline.
proof fn lemma_fits(v: Seq<NodeView>, p: Seq<usize>)
    requires
        node_at(v, p) is Some,
    ensures
        p.last() < siblings_of(v, p).len() <= count(v),
    decreases p.len(),
{
    crate::outline::lemma_among_siblings(v, p);
    crate::outline::lemma_count_bounds(v);
    if p.len() > 1 {
        let i = p[0] as int;
        lemma_fits(v[i].children, p.drop_first());
        lemma_count_take(v, i);
        crate::outline::lemma_count_mono(v, i + 1, v.len() as int);
        assert(p.drop_first().last() == p.last());
    }
}

proof fn lemma_sibling(v: Seq<NodeView>, p: Seq<usize>, at: int)
    requires
        node_at(v, p) is Some,
        0 <= at < siblings_of(v, p).len(),
        at <= usize::MAX,
    ensures
        node_at(v, beside(p, at)) == Some(siblings_of(v, p)[at]),
    decreases p.len(),
{
    if p.len() > 1 {
        assert(beside(p, at).drop_first() =~= beside(p.drop_first(), at));
        lemma_sibling(v[p[0] as int].children, p.drop_first(), at);
    }
}

/// Deleting a range takes out all of its blocks and what is below the last
/// of them, and leaves what stands before and behind as it is.
pub proof fn law_a_deleted_range_is_gone(v: Seq<NodeView>, lo: int, hi: int)
    requires
        count(v) <= usize::MAX,
        0 <= lo <= hi < count(v),
    ensures
        exists|end: int|
            hi < end <= count(v) && #[trigger] listed_all(v, 0).skip(end).len() + lo == count(
                edited_down_to(v, BlockEdit::Delete, lo, hi),
            ) && listed_all(edited_down_to(v, BlockEdit::Delete, lo, hi), 0) == listed_all(
                v,
                0,
            ).take(lo) + listed_all(v, 0).skip(end),
{
    let end = lemma_range_gone(v, lo, hi);
    let w = edited_down_to(v, BlockEdit::Delete, lo, hi);
    law_listing_is_the_outline(v, 0);
    law_listing_is_the_outline(w, 0);
    assert(listed_all(v, 0).skip(end).len() + lo == count(w));
}

proof fn lemma_range_gone(v: Seq<NodeView>, lo: int, hi: int) -> (end: int)
    requires
        count(v) <= usize::MAX,
        0 <= lo <= hi + 1 <= count(v),
    ensures
        hi < end <= count(v),
        listed_all(edited_down_to(v, BlockEdit::Delete, lo, hi), 0) == listed_all(v, 0).take(lo)
            + listed_all(v, 0).skip(end),
    decreases hi - lo + 1,
{
    let l = listed_all(v, 0);
    law_listing_is_the_outline(v, 0);
    if lo > hi {
        assert(l =~= l.take(lo) + l.skip(hi + 1));
        hi + 1
    } else {
        law_every_block_has_a_path(v, hi);
        let p = path_at(v, hi)->0;
        let m = crate::outline::preorder(node_at(v, p)->0).len();
        let w = edited_index(v, BlockEdit::Delete, hi);
        law_deleting_takes_out_the_subtree(v, p, 0);
        law_edits_keep_count(v, p);
        law_listing_is_the_outline(w, 0);
        assert(listed_all(w, 0) == l.take(hi) + l.skip(hi + m));
        assert(hi + m <= l.len());
        let e = lemma_range_gone(w, lo, hi - 1);
        let end = e + m;
        assert(listed_all(w, 0).take(lo) =~= l.take(lo));
        assert(listed_all(w, 0).skip(e) =~= l.skip(end));
        end as int
    }
}

/// Outdenting a range leaves the page alone only where none of its blocks
/// has a parent, and else the page is less deep. Indenting a range leaves it
/// alone only where none of its blocks has a sibling above it, and else it is
/// deeper.
pub proof fn law_ranges_change_their_depth(v: Seq<NodeView>, lo: int, hi: int, k: int)
    requires
        count(v) <= usize::MAX,
        0 <= lo <= k <= hi < count(v),
    ensures
        ({
            let now = total_depth(listed_all(v, 0));
            let less = total_depth(listed_all(edited_up_to(v, BlockEdit::Outdent, lo, hi), 0));
            let more = total_depth(listed_all(edited_up_to(v, BlockEdit::Indent, lo, hi), 0));
            &&& path_at(v, k) is Some
            &&& less <= now <= more
            &&& path_at(v, k)->0.len() >= 2 ==> less < now
            &&& path_at(v, k)->0.last() > 0 ==> now < more
        }),
    decreases hi - lo + 1,
{
    law_every_block_has_a_path(v, k);
    law_every_block_has_a_path(v, lo);
    let p = path_at(v, lo)->0;
    let out = edited_index(v, BlockEdit::Outdent, lo);
    let ind = edited_index(v, BlockEdit::Indent, lo);
    law_indents_and_outdents_count(v, p, 0);
    law_edits_keep_count(v, p);
    lemma_depth_goes_one_way(out, lo + 1, hi);
    lemma_depth_goes_one_way(ind, lo + 1, hi);
    if k > lo {
        if p.len() < 2 {
            assert(out == v);
            law_ranges_change_their_depth(v, lo + 1, hi, k);
        }
        if p.last() == 0 {
            assert(ind == v);
            law_ranges_change_their_depth(v, lo + 1, hi, k);
        }
    }
}

proof fn lemma_depth_goes_one_way(v: Seq<NodeView>, lo: int, hi: int)
    requires
        count(v) <= usize::MAX,
    ensures
        total_depth(listed_all(edited_up_to(v, BlockEdit::Outdent, lo, hi), 0)) <= total_depth(
            listed_all(v, 0),
        ),
        total_depth(listed_all(v, 0)) <= total_depth(
            listed_all(edited_up_to(v, BlockEdit::Indent, lo, hi), 0),
        ),
    decreases hi - lo + 1,
{
    if lo <= hi {
        law_every_block_has_a_path(v, lo);
        if let Some(p) = path_at(v, lo) {
            law_indents_and_outdents_count(v, p, 0);
            law_edits_keep_count(v, p);
        }
        lemma_depth_goes_one_way(edited_index(v, BlockEdit::Outdent, lo), lo + 1, hi);
        lemma_depth_goes_one_way(edited_index(v, BlockEdit::Indent, lo), lo + 1, hi);
    }
}

/// The range goes from the lower end to the upper, whichever end the cursor
/// is on, and the block under the cursor is one of its ends.
pub proof fn law_the_range_is_ordered(app: App)
    ensures
        range_of(app) is Some <==> app.mode is Visual,
        range_of(app) matches Some(r) ==> {
            &&& r.0 <= r.1
            &&& (r.0 == app.selected && r.1 == app.mode->anchor) || (r.1 == app.selected && r.0
                == app.mode->anchor)
        },
{
}

/// A remembered range is selected again as it was, if the page still holds
/// it.
pub proof fn law_a_remembered_range_comes_back(a: App, b: App, lo: int, hi: int)
    requires
        range_of(a) == Some((lo, hi)),
        hi < a.flat_len,
        reselected(
            App { last_visual: Some((lo as usize, hi as usize)), mode: Mode::Normal, ..a },
            b,
        ),
    ensures
        range_of(b) == Some((lo, hi)),
        b.page == a.page,
{
}

} // verus!

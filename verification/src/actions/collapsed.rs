//! Folded blocks, and the blocks that they hide.

use crate::outline::{
    count, index_of, lemma_index_in_range, node_at, nodes_view, preorder, NodeView, OutlineNode,
};
use crate::state::App;
use std::collections::HashSet;
use vstd::prelude::*;

verus! {

/// The block with a flat index is folded.
pub open spec fn folded_at(ids: Seq<u128>, collapsed: Set<u128>, flat: int) -> bool {
    0 <= flat < ids.len() && collapsed.contains(ids[flat])
}

/// Which of a block and all below it are hidden, where the block has a flat
/// index and is hidden or not: what is below a folded block is, and what is
/// below a hidden one.
pub open spec fn hidden_from(
    n: NodeView,
    flat: int,
    hidden: bool,
    ids: Seq<u128>,
    collapsed: Set<u128>,
) -> Seq<bool>
    decreases n, 0nat,
{
    seq![hidden] + hidden_all(
        n.children,
        flat + 1,
        hidden || folded_at(ids, collapsed, flat),
        ids,
        collapsed,
    )
}

/// Which of some blocks and all below them are hidden.
pub open spec fn hidden_all(
    v: Seq<NodeView>,
    flat: int,
    hidden: bool,
    ids: Seq<u128>,
    collapsed: Set<u128>,
) -> Seq<bool>
    decreases v, 1nat,
{
    if v.len() == 0 {
        Seq::empty()
    } else {
        hidden_all(v.drop_last(), flat, hidden, ids, collapsed) + hidden_from(
            v.last(),
            flat + count(v.drop_last()),
            hidden,
            ids,
            collapsed,
        )
    }
}

/// For each block of the page, whether a folded block hides it.
pub open spec fn hidden_blocks(app: App) -> Seq<bool> {
    hidden_all(app.blocks(), 0, false, app.id_by_flat@, app.collapsed@)
}

fn push_hidden(
    b: &OutlineNode,
    hidden: bool,
    ids: &Vec<u128>,
    collapsed: &HashSet<u128>,
    out: &mut Vec<bool>,
)
    ensures
        final(out)@ == old(out)@ + hidden_from(
            b@,
            old(out)@.len() as int,
            hidden,
            ids@,
            collapsed@,
        ),
    decreases b, 0nat,
{
    let ghost was = out@;
    let flat: usize = out.len();
    let folded = flat < ids.len() && collapsed.contains(&ids[flat]);
    out.push(hidden);
    push_all_hidden(&b.children, hidden || folded, ids, collapsed, out);
    assert(out@ =~= was + hidden_from(b@, was.len() as int, hidden, ids@, collapsed@));
}

fn push_all_hidden(
    blocks: &Vec<OutlineNode>,
    hidden: bool,
    ids: &Vec<u128>,
    collapsed: &HashSet<u128>,
    out: &mut Vec<bool>,
)
    ensures
        final(out)@ == old(out)@ + hidden_all(
            nodes_view(blocks@),
            old(out)@.len() as int,
            hidden,
            ids@,
            collapsed@,
        ),
    decreases blocks, 1nat,
{
    let ghost was = out@;
    let ghost k = out@.len() as int;
    let ghost v = nodes_view(blocks@);
    let mut i: usize = 0;
    assert(out@ =~= was + hidden_all(v.take(0), k, hidden, ids@, collapsed@));
    while i < blocks.len()
        invariant
            i <= blocks@.len(),
            v == nodes_view(blocks@),
            v.len() == blocks@.len(),
            k == was.len(),
            out@ == was + hidden_all(v.take(i as int), k, hidden, ids@, collapsed@),
        decreases blocks@.len() - i,
    {
        let ghost t = v.take(i + 1);
        assert(v[i as int] == blocks@[i as int]@);
        assert(t.drop_last() =~= v.take(i as int));
        assert(t.last() == blocks@[i as int]@);
        proof {
            lemma_hidden_count(v.take(i as int), k, hidden, ids@, collapsed@);
        }
        push_hidden(&blocks[i], hidden, ids, collapsed, out);
        i += 1;
        assert(out@ =~= was + hidden_all(t, k, hidden, ids@, collapsed@));
    }
    assert(v.take(i as int) =~= v);
}

/// There is an answer for each block.
pub proof fn lemma_hidden_count(
    v: Seq<NodeView>,
    flat: int,
    hidden: bool,
    ids: Seq<u128>,
    collapsed: Set<u128>,
)
    ensures
        hidden_all(v, flat, hidden, ids, collapsed).len() == count(v),
        hidden ==> forall|i: int|
            0 <= i < count(v) ==> #[trigger] hidden_all(v, flat, hidden, ids, collapsed)[i],
    decreases v, 1nat,
{
    if v.len() > 0 {
        lemma_hidden_count(v.drop_last(), flat, hidden, ids, collapsed);
        lemma_hidden_count_from(
            v.last(),
            flat + count(v.drop_last()),
            hidden,
            ids,
            collapsed,
        );
    }
}

proof fn lemma_hidden_count_from(
    n: NodeView,
    flat: int,
    hidden: bool,
    ids: Seq<u128>,
    collapsed: Set<u128>,
)
    ensures
        hidden_from(n, flat, hidden, ids, collapsed).len() == preorder(n).len(),
        hidden ==> forall|i: int|
            0 <= i < preorder(n).len() ==> #[trigger] hidden_from(
                n,
                flat,
                hidden,
                ids,
                collapsed,
            )[i],
    decreases n, 0nat,
{
    lemma_hidden_count(
        n.children,
        flat + 1,
        hidden || folded_at(ids, collapsed, flat),
        ids,
        collapsed,
    );
}

impl App {
    /// Finds out which blocks are hidden by folded ones.
    pub fn recompute_hidden_by_collapse(&mut self)
        ensures
            *final(self) == (App {
                hidden_by_collapse: final(self).hidden_by_collapse,
                ..*old(self)
            }),
            final(self).hidden_by_collapse@ == hidden_blocks(*old(self)),
    {
        let mut out: Vec<bool> = Vec::new();
        push_all_hidden(&self.page.blocks, false, &self.id_by_flat, &self.collapsed, &mut out);
        assert(out@ =~= hidden_blocks(*self));
        self.hidden_by_collapse = out;
    }
}

// ---------------------------------------------------------------------
// Laws
// ---------------------------------------------------------------------

/// A block on the way to another is folded.
pub open spec fn folded_above(
    v: Seq<NodeView>,
    p: Seq<usize>,
    flat: int,
    ids: Seq<u128>,
    collapsed: Set<u128>,
) -> bool {
    exists|d: int|
        0 < d < p.len() && folded_at(
            ids,
            collapsed,
            flat + (#[trigger] index_of(v, p.take(d)))->0,
        )
}

/// A block is hidden if and only if a block that it is below is folded: its
/// own fold does not hide it, nor does that of any other block.
pub proof fn law_folded_parents_hide(
    v: Seq<NodeView>,
    p: Seq<usize>,
    flat: int,
    hidden: bool,
    ids: Seq<u128>,
    collapsed: Set<u128>,
)
    requires
        node_at(v, p) is Some,
    ensures
        index_of(v, p) is Some,
        hidden_all(v, flat, hidden, ids, collapsed)[index_of(v, p)->0] == (hidden || folded_above(
            v,
            p,
            flat,
            ids,
            collapsed,
        )),
    decreases p.len(),
{
    lemma_index_in_range(v, p);
    let i = p[0] as int;
    let k = index_of(v, p)->0;
    let c = count(v.take(i)) as int;
    lemma_hidden_block(v, i, k, flat, hidden, ids, collapsed);
    let h = hidden_from(v[i], flat + c, hidden, ids, collapsed);
    if p.len() == 1 {
        assert(k == c);
        assert(!folded_above(v, p, flat, ids, collapsed));
    } else {
        let below = v[i].children;
        let rest = p.drop_first();
        let inner = hidden || folded_at(ids, collapsed, flat + c);
        lemma_index_in_range(below, rest);
        law_folded_parents_hide(below, rest, flat + c + 1, inner, ids, collapsed);
        lemma_hidden_count(below, flat + c + 1, inner, ids, collapsed);
        assert(h[k - c] == hidden_all(below, flat + c + 1, inner, ids, collapsed)[k - c - 1]);
        assert(p.take(1) =~= seq![p[0]]);
        assert(index_of(v, p.take(1)) == Some(c));
        if folded_above(below, rest, flat + c + 1, ids, collapsed) {
            let d = choose|d: int|
                0 < d < rest.len() && folded_at(
                    ids,
                    collapsed,
                    flat + c + 1 + (#[trigger] index_of(below, rest.take(d)))->0,
                );
            lemma_index_of_prefix(v, p, d);
        }
        if folded_above(v, p, flat, ids, collapsed) {
            let d = choose|d: int|
                0 < d < p.len() && folded_at(
                    ids,
                    collapsed,
                    flat + (#[trigger] index_of(v, p.take(d)))->0,
                );
            if d > 1 {
                lemma_index_of_prefix(v, p, d - 1);
            }
        }
    }
}

proof fn lemma_index_of_prefix(v: Seq<NodeView>, p: Seq<usize>, d: int)
    requires
        node_at(v, p) is Some,
        0 < d < p.len() - 1,
    ensures
        index_of(v[p[0] as int].children, p.drop_first().take(d)) is Some,
        index_of(v, p.take(d + 1)) == Some(
            count(v.take(p[0] as int)) + 1 + index_of(
                v[p[0] as int].children,
                p.drop_first().take(d),
            )->0,
        ),
{
    assert(p.take(d + 1).drop_first() =~= p.drop_first().take(d));
    lemma_prefix_there(v[p[0] as int].children, p.drop_first(), d);
    lemma_index_in_range(v[p[0] as int].children, p.drop_first().take(d));
}

proof fn lemma_prefix_there(v: Seq<NodeView>, p: Seq<usize>, d: int)
    requires
        node_at(v, p) is Some,
        0 < d <= p.len(),
    ensures
        node_at(v, p.take(d)) is Some,
    decreases p.len(),
{
    if d > 1 {
        lemma_prefix_there(v[p[0] as int].children, p.drop_first(), d - 1);
        assert(p.take(d).drop_first() =~= p.drop_first().take(d - 1));
    }
}

proof fn lemma_hidden_block(
    v: Seq<NodeView>,
    i: int,
    k: int,
    flat: int,
    hidden: bool,
    ids: Seq<u128>,
    collapsed: Set<u128>,
)
    requires
        0 <= i < v.len(),
        count(v.take(i)) <= k < count(v.take(i + 1)),
    ensures
        hidden_all(v, flat, hidden, ids, collapsed)[k] == hidden_from(
            v[i],
            flat + count(v.take(i)),
            hidden,
            ids,
            collapsed,
        )[k - count(v.take(i))],
    decreases v.len(),
{
    let u = v.drop_last();
    lemma_hidden_count(u, flat, hidden, ids, collapsed);
    let a = hidden_all(u, flat, hidden, ids, collapsed);
    let b = hidden_from(v.last(), flat + count(u), hidden, ids, collapsed);
    lemma_hidden_count_from(v.last(), flat + count(u), hidden, ids, collapsed);
    assert(hidden_all(v, flat, hidden, ids, collapsed) == a + b);
    if i == v.len() - 1 {
        assert(v.take(i) =~= u);
        crate::outline::lemma_count_take(v, i);
        assert((a + b)[k] == b[k - a.len()]);
    } else {
        assert(u.take(i) =~= v.take(i));
        assert(u.take(i + 1) =~= v.take(i + 1));
        crate::outline::lemma_count_mono(u, i + 1, u.len() as int);
        assert(u.take(u.len() as int) =~= u);
        lemma_hidden_block(u, i, k, flat, hidden, ids, collapsed);
        assert((a + b)[k] == a[k]);
    }
}

} // verus!

//! The outline: blocks with text, properties and children.
//!
//! A block is found either by its path, the child indices from the top of
//! the page down to it, or by its flat index, its place in the order in
//! which an expanded page lists its blocks from top to bottom.

use vstd::prelude::*;

verus! {

/// A block.
#[derive(Debug)]
pub struct OutlineNode {
    pub text: String,
    pub children: Vec<OutlineNode>,
    pub properties: Vec<(String, String)>,
}

/// A block as a value.
pub ghost struct NodeView {
    pub text: Seq<char>,
    pub children: Seq<NodeView>,
    pub properties: Seq<(Seq<char>, Seq<char>)>,
}

/// Properties as values.
pub open spec fn pairs(v: Seq<(String, String)>) -> Seq<(Seq<char>, Seq<char>)> {
    v.map_values(|p: (String, String)| pair(p))
}

/// A property as a value.
pub open spec fn pair(p: (String, String)) -> (Seq<char>, Seq<char>) {
    (p.0@, p.1@)
}

/// A block as a value.
pub open spec fn node_view(n: OutlineNode) -> NodeView
    decreases n,
{
    NodeView {
        text: n.text@,
        children: nodes_view(n.children@),
        properties: pairs(n.properties@),
    }
}

/// Blocks as values.
pub open spec fn nodes_view(v: Seq<OutlineNode>) -> Seq<NodeView>
    decreases v,
{
    Seq::new(
        v.len(),
        |i: int|
            if 0 <= i < v.len() {
                node_view(v[i])
            } else {
                arbitrary()
            },
    )
}

impl View for OutlineNode {
    type V = NodeView;

    open spec fn view(&self) -> NodeView {
        node_view(*self)
    }
}

/// A block and all below it, in display order.
pub open spec fn preorder(n: NodeView) -> Seq<NodeView>
    decreases n, 0nat,
{
    seq![n] + preorder_all(n.children)
}

/// Blocks and all below them, in display order.
pub open spec fn preorder_all(v: Seq<NodeView>) -> Seq<NodeView>
    decreases v, 1nat,
{
    if v.len() == 0 {
        Seq::empty()
    } else {
        preorder_all(v.drop_last()) + preorder(v.last())
    }
}

/// The number of blocks in a list, with all below them.
pub open spec fn count(v: Seq<NodeView>) -> nat {
    preorder_all(v).len()
}

/// The block at a path.
pub open spec fn node_at(v: Seq<NodeView>, path: Seq<usize>) -> Option<NodeView>
    decreases path.len(),
{
    if path.len() == 0 || path[0] >= v.len() {
        None
    } else if path.len() == 1 {
        Some(v[path[0] as int])
    } else {
        node_at(v[path[0] as int].children, path.drop_first())
    }
}

/// The flat index of the block at a path.
pub open spec fn index_of(v: Seq<NodeView>, path: Seq<usize>) -> Option<int>
    decreases path.len(),
{
    if path.len() == 0 || path[0] >= v.len() {
        None
    } else {
        let before = count(v.take(path[0] as int)) as int;
        if path.len() == 1 {
            Some(before)
        } else {
            match index_of(v[path[0] as int].children, path.drop_first()) {
                Some(k) => Some(before + 1 + k),
                None => None,
            }
        }
    }
}

/// A path leads to a flat index.
pub open spec fn leads_to(v: Seq<NodeView>, path: Seq<usize>, i: int) -> bool {
    index_of(v, path) == Some(i)
}

/// The path of the block with a flat index.
pub open spec fn path_at(v: Seq<NodeView>, i: int) -> Option<Seq<usize>> {
    if exists|p: Seq<usize>| leads_to(v, p, i) {
        Some(choose|p: Seq<usize>| leads_to(v, p, i))
    } else {
        None
    }
}

/// The outline with another block in place of the one at a path.
pub open spec fn replaced(v: Seq<NodeView>, path: Seq<usize>, n: NodeView) -> Seq<NodeView>
    decreases path.len(),
{
    if path.len() == 0 || path[0] >= v.len() {
        v
    } else {
        let i = path[0] as int;
        if path.len() == 1 {
            v.update(i, n)
        } else {
            v.update(
                i,
                NodeView { children: replaced(v[i].children, path.drop_first(), n), ..v[i] },
            )
        }
    }
}

// ---------------------------------------------------------------------
// Paths and flat indices
// ---------------------------------------------------------------------

pub proof fn lemma_count_take(v: Seq<NodeView>, i: int)
    requires
        0 <= i < v.len(),
    ensures
        count(v.take(i + 1)) == count(v.take(i)) + preorder(v[i]).len(),
        preorder(v[i]).len() == 1 + count(v[i].children),
{
    assert(v.take(i + 1).drop_last() =~= v.take(i));
}

pub proof fn lemma_count_mono(v: Seq<NodeView>, i: int, j: int)
    requires
        0 <= i <= j <= v.len(),
    ensures
        count(v.take(i)) <= count(v.take(j)) <= count(v),
        i < j ==> count(v.take(i)) < count(v.take(j)),
    decreases v.len() - i,
{
    assert(v.take(v.len() as int) =~= v);
    if i < v.len() {
        lemma_count_take(v, i);
        if i < j {
            lemma_count_mono(v, i + 1, j);
        } else {
            lemma_count_mono(v, i + 1, v.len() as int);
        }
    }
}

/// A path that leads somewhere leads inside the outline.
pub proof fn lemma_index_in_range(v: Seq<NodeView>, path: Seq<usize>)
    ensures
        index_of(v, path) matches Some(k) ==> {
            let i = path[0] as int;
            &&& path.len() > 0 && i < v.len()
            &&& count(v.take(i)) <= k < count(v.take(i + 1))
            &&& 0 <= k < count(v)
        },
        index_of(v, path) is Some <==> node_at(v, path) is Some,
    decreases path.len(),
{
    if path.len() > 0 && path[0] < v.len() {
        let i = path[0] as int;
        lemma_count_take(v, i);
        lemma_count_mono(v, i, i + 1);
        lemma_count_mono(v, i + 1, i + 1);
        if path.len() > 1 {
            lemma_index_in_range(v[i].children, path.drop_first());
        }
    }
}

/// Two paths that lead to one flat index are the same path.
pub proof fn law_paths_are_unique(v: Seq<NodeView>, p: Seq<usize>, q: Seq<usize>)
    requires
        index_of(v, p) is Some,
        index_of(v, p) == index_of(v, q),
    ensures
        p == q,
    decreases p.len(),
{
    lemma_index_in_range(v, p);
    lemma_index_in_range(v, q);
    let i = p[0] as int;
    let j = q[0] as int;
    if i < j {
        lemma_count_mono(v, i + 1, j);
    } else if j < i {
        lemma_count_mono(v, j + 1, i);
    }
    assert(i == j);
    if p.len() > 1 {
        lemma_index_in_range(v[i].children, p.drop_first());
    }
    if q.len() > 1 {
        lemma_index_in_range(v[i].children, q.drop_first());
    }
    if p.len() > 1 && q.len() > 1 {
        law_paths_are_unique(v[i].children, p.drop_first(), q.drop_first());
        assert(p =~= seq![p[0]] + p.drop_first());
        assert(q =~= seq![q[0]] + q.drop_first());
    } else {
        assert(p =~= seq![p[0]]);
        assert(q =~= seq![q[0]]);
    }
}

/// The path at a flat index is the one path that leads there.
pub proof fn lemma_path_at(v: Seq<NodeView>, p: Seq<usize>, i: int)
    requires
        leads_to(v, p, i),
    ensures
        path_at(v, i) == Some(p),
{
    let q = choose|q: Seq<usize>| leads_to(v, q, i);
    law_paths_are_unique(v, p, q);
}

/// The block of a list that a flat index falls on.
pub proof fn lemma_flat_block(v: Seq<NodeView>, i: int, k: int)
    requires
        0 <= i < v.len(),
        count(v.take(i)) <= k < count(v.take(i + 1)),
    ensures
        k < count(v),
        preorder_all(v)[k] == preorder(v[i])[k - count(v.take(i))],
    decreases v.len() - i,
{
    lemma_flat_prefix(v, i + 1, k);
    assert(v.take(i + 1).drop_last() =~= v.take(i));
}

proof fn lemma_flat_prefix(v: Seq<NodeView>, j: int, k: int)
    requires
        0 <= j <= v.len(),
        0 <= k < count(v.take(j)),
    ensures
        k < count(v),
        preorder_all(v)[k] == preorder_all(v.take(j))[k],
    decreases v.len() - j,
{
    if j == v.len() {
        assert(v.take(j) =~= v);
    } else {
        assert(v.take(j + 1).drop_last() =~= v.take(j));
        lemma_flat_prefix(v, j + 1, k);
    }
}

/// The block at a path is the one its flat index counts to.
pub proof fn law_paths_find_the_counted_block(v: Seq<NodeView>, p: Seq<usize>, k: int)
    requires
        leads_to(v, p, k),
    ensures
        0 <= k < count(v),
        node_at(v, p) == Some(preorder_all(v)[k]),
    decreases p.len(),
{
    lemma_index_in_range(v, p);
    let i = p[0] as int;
    lemma_flat_block(v, i, k);
    if p.len() > 1 {
        let below = v[i].children;
        lemma_index_in_range(below, p.drop_first());
        law_paths_find_the_counted_block(below, p.drop_first(), k - count(v.take(i)) - 1);
    }
}

/// Every flat index below the count has a path, and no other has.
pub proof fn law_every_block_has_a_path(v: Seq<NodeView>, k: int)
    requires
        count(v) <= usize::MAX,
    ensures
        path_at(v, k) is Some <==> 0 <= k < count(v),
        path_at(v, k) matches Some(p) ==> leads_to(v, p, k) && node_at(v, p) == Some(
            preorder_all(v)[k],
        ),
{
    if 0 <= k < count(v) {
        let p = lemma_find_path(v, k);
        lemma_path_at(v, p, k);
    }
    if let Some(p) = path_at(v, k) {
        assert(leads_to(v, p, k));
        lemma_index_in_range(v, p);
        law_paths_find_the_counted_block(v, p, k);
    }
}

proof fn lemma_find_slot(v: Seq<NodeView>, k: int) -> (i: int)
    requires
        0 <= k < count(v),
    ensures
        0 <= i < v.len(),
        count(v.take(i)) <= k < count(v.take(i + 1)),
    decreases v.len(),
{
    let n = v.len() - 1;
    assert(v.take(v.len() as int) =~= v);
    lemma_count_take(v, n);
    if count(v.take(n)) <= k {
        n
    } else {
        let i = lemma_find_slot(v.take(n), k);
        assert(v.take(n).take(i) =~= v.take(i));
        assert(v.take(n).take(i + 1) =~= v.take(i + 1));
        i
    }
}

/// There are at least as many blocks as top-level blocks, and fewer below
/// each of those.
pub proof fn lemma_count_bounds(v: Seq<NodeView>)
    ensures
        v.len() <= count(v),
        forall|i: int| 0 <= i < v.len() ==> count((#[trigger] v[i]).children) < count(v),
    decreases v.len(),
{
    if v.len() > 0 {
        let n = v.len() - 1;
        lemma_count_bounds(v.drop_last());
        assert(v.take(v.len() as int) =~= v);
        assert(v.take(n) =~= v.drop_last());
        lemma_count_take(v, n);
        assert forall|i: int| 0 <= i < v.len() implies count((#[trigger] v[i]).children) < count(
            v,
        ) by {
            if i < n {
                assert(v.drop_last()[i] == v[i]);
            }
        }
    }
}

proof fn lemma_find_path(v: Seq<NodeView>, k: int) -> (p: Seq<usize>)
    requires
        0 <= k < count(v) <= usize::MAX,
    ensures
        leads_to(v, p, k),
    decreases v,
{
    let i = lemma_find_slot(v, k);
    lemma_count_take(v, i);
    lemma_count_bounds(v);
    let first = i as usize;
    let off = k - count(v.take(i));
    if off == 0 {
        seq![first]
    } else {
        let rest = lemma_find_path(v[i].children, off - 1);
        let p = seq![first] + rest;
        lemma_index_in_range(v[i].children, rest);
        assert(p.drop_first() =~= rest);
        p
    }
}

// ---------------------------------------------------------------------
// Finding
// ---------------------------------------------------------------------

proof fn lemma_nodes_view(v: Seq<OutlineNode>)
    ensures
        nodes_view(v).len() == v.len(),
        forall|i: int| 0 <= i < v.len() ==> #[trigger] nodes_view(v)[i] == node_view(v[i]),
{
}

/// The number of blocks in a list, with all below them.
pub fn flat_count(nodes: &Vec<OutlineNode>) -> (n: usize)
    requires
        count(nodes_view(nodes@)) <= usize::MAX,
    ensures
        n == count(nodes_view(nodes@)),
    decreases nodes,
{
    let ghost v = nodes_view(nodes@);
    let mut n: usize = 0;
    let mut i: usize = 0;
    while i < nodes.len()
        invariant
            i <= nodes@.len(),
            v == nodes_view(nodes@),
            count(v) <= usize::MAX,
            n == count(v.take(i as int)),
        decreases nodes@.len() - i,
    {
        proof {
            lemma_nodes_view(nodes@);
            lemma_count_take(v, i as int);
            lemma_count_mono(v, i + 1, i + 1);
            lemma_count_bounds(v);
        }
        n += 1 + flat_count(&nodes[i].children);
        i += 1;
    }
    assert(v.take(i as int) =~= v);
    n
}

/// The path of the block with a flat index.
pub fn path_for_index(nodes: &Vec<OutlineNode>, index: usize) -> (r: Option<Vec<usize>>)
    requires
        count(nodes_view(nodes@)) <= usize::MAX,
    ensures
        match r {
            Some(p) => path_at(nodes_view(nodes@), index as int) == Some(p@) && leads_to(
                nodes_view(nodes@),
                p@,
                index as int,
            ),
            None => path_at(nodes_view(nodes@), index as int) is None,
        },
        r is Some <==> index < count(nodes_view(nodes@)),
    decreases nodes,
{
    let ghost v = nodes_view(nodes@);
    let mut off: usize = 0;
    let mut i: usize = 0;
    while i < nodes.len()
        invariant
            i <= nodes@.len(),
            v == nodes_view(nodes@),
            count(v) <= usize::MAX,
            off == count(v.take(i as int)),
            off <= index,
        decreases nodes@.len() - i,
    {
        proof {
            lemma_nodes_view(nodes@);
            lemma_count_take(v, i as int);
            lemma_count_mono(v, i + 1, i + 1);
            lemma_count_bounds(v);
        }
        if index == off {
            let mut p: Vec<usize> = Vec::new();
            p.push(i);
            proof {
                assert(p@ =~= seq![i]);
                lemma_path_at(v, p@, index as int);
            }
            return Some(p);
        }
        let below: usize = flat_count(&nodes[i].children);
        if index - off <= below {
            match path_for_index(&nodes[i].children, index - off - 1) {
                Some(rest) => {
                    let mut p = rest;
                    p.insert(0, i);
                    proof {
                        assert(p@.drop_first() =~= rest@);
                        lemma_index_in_range(v[i as int].children, rest@);
                        assert(leads_to(v, p@, index as int));
                        lemma_path_at(v, p@, index as int);
                    }
                    return Some(p);
                },
                None => {
                    return None;
                },
            }
        }
        off += 1 + below;
        i += 1;
    }
    assert(v.take(i as int) =~= v);
    proof {
        law_every_block_has_a_path(v, index as int);
    }
    None
}

/// The flat index of the block at a path.
pub fn index_for_path(nodes: &Vec<OutlineNode>, path: &[usize]) -> (r: Option<usize>)
    requires
        count(nodes_view(nodes@)) <= usize::MAX,
    ensures
        match r {
            Some(k) => index_of(nodes_view(nodes@), path@) == Some(k as int),
            None => index_of(nodes_view(nodes@), path@) is None,
        },
{
    index_below(nodes, path, 0)
}

fn index_below(nodes: &Vec<OutlineNode>, path: &[usize], d: usize) -> (r: Option<usize>)
    requires
        d <= path@.len(),
        count(nodes_view(nodes@)) <= usize::MAX,
    ensures
        match r {
            Some(k) => index_of(nodes_view(nodes@), path@.skip(d as int)) == Some(k as int),
            None => index_of(nodes_view(nodes@), path@.skip(d as int)) is None,
        },
        d == 0 ==> path@.skip(d as int) == path@,
    decreases path@.len() - d,
{
    let ghost v = nodes_view(nodes@);
    let ghost rest = path@.skip(d as int);
    proof {
        lemma_nodes_view(nodes@);
        assert(d == 0 ==> rest =~= path@);
    }
    if d == path.len() || path[d] >= nodes.len() {
        return None;
    }
    let mut before: usize = 0;
    let mut i: usize = 0;
    while i < path[d]
        invariant
            d < path@.len(),
            i <= path@[d as int] < nodes@.len(),
            v == nodes_view(nodes@),
            count(v) <= usize::MAX,
            before == count(v.take(i as int)),
        decreases path@[d as int] - i,
    {
        proof {
            lemma_nodes_view(nodes@);
            lemma_count_take(v, i as int);
            lemma_count_mono(v, i + 1, i + 1);
            lemma_count_bounds(v);
        }
        before += 1 + flat_count(&nodes[i].children);
        i += 1;
    }
    proof {
        lemma_count_take(v, i as int);
        lemma_count_mono(v, i + 1, i + 1);
        lemma_count_bounds(v);
        assert(rest.drop_first() =~= path@.skip(d + 1));
    }
    if d + 1 == path.len() {
        return Some(before);
    }
    match index_below(&nodes[i].children, path, d + 1) {
        Some(k) => {
            proof {
                lemma_index_in_range(v[i as int].children, path@.skip(d + 1));
            }
            Some(before + 1 + k)
        },
        None => None,
    }
}

/// The block at a path.
pub fn node_at_path<'a>(nodes: &'a Vec<OutlineNode>, path: &[usize]) -> (r: Option<&'a OutlineNode>)
    ensures
        match r {
            Some(n) => node_at(nodes_view(nodes@), path@) == Some(n@),
            None => node_at(nodes_view(nodes@), path@) is None,
        },
{
    assert(path@.skip(0) =~= path@);
    node_below(nodes, path, 0)
}

fn node_below<'a>(nodes: &'a Vec<OutlineNode>, path: &[usize], d: usize) -> (r: Option<
    &'a OutlineNode,
>)
    requires
        d <= path@.len(),
    ensures
        match r {
            Some(n) => node_at(nodes_view(nodes@), path@.skip(d as int)) == Some(n@),
            None => node_at(nodes_view(nodes@), path@.skip(d as int)) is None,
        },
    decreases path@.len() - d,
{
    let ghost rest = path@.skip(d as int);
    proof {
        lemma_nodes_view(nodes@);
    }
    if d == path.len() || path[d] >= nodes.len() {
        return None;
    }
    if d + 1 == path.len() {
        return Some(&nodes[path[d]]);
    }
    assert(rest.drop_first() =~= path@.skip(d + 1));
    node_below(&nodes[path[d]].children, path, d + 1)
}

/// The block at a path, to be changed in place.
pub fn node_at_path_mut<'a>(nodes: &'a mut Vec<OutlineNode>, path: &[usize]) -> (r: Option<
    &'a mut OutlineNode,
>)
    ensures
        match r {
            Some(n) => node_at(nodes_view(old(nodes)@), path@) == Some(n@) && nodes_view(
                final(nodes)@,
            ) == replaced(nodes_view(old(nodes)@), path@, final(n)@),
            None => node_at(nodes_view(old(nodes)@), path@) is None && nodes_view(final(nodes)@)
                == nodes_view(old(nodes)@),
        },
{
    assert(path@.skip(0) =~= path@);
    node_below_mut(nodes, path, 0)
}

fn node_below_mut<'a>(nodes: &'a mut Vec<OutlineNode>, path: &[usize], d: usize) -> (r: Option<
    &'a mut OutlineNode,
>)
    requires
        d <= path@.len(),
    ensures
        match r {
            Some(n) => node_at(nodes_view(old(nodes)@), path@.skip(d as int)) == Some(n@)
                && nodes_view(final(nodes)@) == replaced(
                nodes_view(old(nodes)@),
                path@.skip(d as int),
                final(n)@,
            ),
            None => node_at(nodes_view(old(nodes)@), path@.skip(d as int)) is None
                && nodes_view(final(nodes)@) == nodes_view(old(nodes)@),
        },
    decreases path@.len() - d,
{
    let ghost rest = path@.skip(d as int);
    let ghost v = nodes@;
    proof {
        lemma_nodes_view(nodes@);
        assert(d < path@.len() ==> rest.drop_first() =~= path@.skip(d + 1));
    }
    if d == path.len() || path[d] >= nodes.len() {
        return None;
    }
    let i: usize = path[d];
    if d + 1 == path.len() {
        let r = &mut nodes[i];
        proof {
            lemma_update_view(v, i as int, *final(r));
        }
        return Some(r);
    }
    let n = &mut nodes[i];
    proof {
        lemma_update_view(v, i as int, *final(n));
    }
    assert(nodes_view(v).update(i as int, node_view(v[i as int])) =~= nodes_view(v));
    node_below_mut(&mut n.children, path, d + 1)
}

proof fn lemma_update_view(v: Seq<OutlineNode>, i: int, n: OutlineNode)
    requires
        0 <= i < v.len(),
    ensures
        nodes_view(v.update(i, n)) == nodes_view(v).update(i, node_view(n)),
{
    lemma_nodes_view(v);
    lemma_nodes_view(v.update(i, n));
    assert(nodes_view(v.update(i, n)) =~= nodes_view(v).update(i, node_view(n)));
}

// ---------------------------------------------------------------------
// Moving blocks
// ---------------------------------------------------------------------

/// The list that the block at a path stands in.
pub open spec fn siblings_of(v: Seq<NodeView>, path: Seq<usize>) -> Seq<NodeView>
    decreases path.len(),
{
    if path.len() <= 1 || path[0] >= v.len() {
        v
    } else {
        siblings_of(v[path[0] as int].children, path.drop_first())
    }
}

/// The outline with another list in place of the one that the block at a
/// path stands in.
pub open spec fn with_siblings(
    v: Seq<NodeView>,
    path: Seq<usize>,
    s: Seq<NodeView>,
) -> Seq<NodeView>
    decreases path.len(),
{
    if path.len() <= 1 || path[0] >= v.len() {
        s
    } else {
        let i = path[0] as int;
        v.update(
            i,
            NodeView { children: with_siblings(v[i].children, path.drop_first(), s), ..v[i] },
        )
    }
}

/// The outline without the block at a path and all below it.
pub open spec fn deleted(v: Seq<NodeView>, path: Seq<usize>) -> Seq<NodeView> {
    if node_at(v, path) is Some {
        with_siblings(v, path, siblings_of(v, path).remove(path.last() as int))
    } else {
        v
    }
}

/// A list with two neighbours in each other's place.
pub open spec fn swapped(s: Seq<NodeView>, i: int) -> Seq<NodeView> {
    s.update(i, s[i + 1]).update(i + 1, s[i])
}

/// The outline with the block at a path before the sibling above it.
pub open spec fn moved_up(v: Seq<NodeView>, path: Seq<usize>) -> Seq<NodeView> {
    if node_at(v, path) is Some && path.last() > 0 {
        with_siblings(v, path, swapped(siblings_of(v, path), path.last() - 1))
    } else {
        v
    }
}

/// The outline with the block at a path after the sibling below it.
pub open spec fn moved_down(v: Seq<NodeView>, path: Seq<usize>) -> Seq<NodeView> {
    if node_at(v, path) is Some && path.last() + 1 < siblings_of(v, path).len() {
        with_siblings(v, path, swapped(siblings_of(v, path), path.last() as int))
    } else {
        v
    }
}

/// A list with the block at `i` made the last child of the one above it.
pub open spec fn nested(s: Seq<NodeView>, i: int) -> Seq<NodeView> {
    s.remove(i).update(i - 1, NodeView { children: s[i - 1].children.push(s[i]), ..s[i - 1] })
}

/// The outline with the block at a path made the last child of the sibling
/// above it.
pub open spec fn indented(v: Seq<NodeView>, path: Seq<usize>) -> Seq<NodeView> {
    if node_at(v, path) is Some && path.last() > 0 {
        with_siblings(v, path, nested(siblings_of(v, path), path.last() as int))
    } else {
        v
    }
}

/// A list with the child `j` of the block at `i` placed after that block.
pub open spec fn unnested(s: Seq<NodeView>, i: int, j: int) -> Seq<NodeView> {
    s.update(i, NodeView { children: s[i].children.remove(j), ..s[i] }).insert(
        i + 1,
        s[i].children[j],
    )
}

/// The outline with the block at a path placed after its parent.
pub open spec fn outdented(v: Seq<NodeView>, path: Seq<usize>) -> Seq<NodeView> {
    if node_at(v, path) is Some && path.len() >= 2 {
        let parent = path.drop_last();
        with_siblings(
            v,
            parent,
            unnested(siblings_of(v, parent), parent.last() as int, path.last() as int),
        )
    } else {
        v
    }
}

/// The list that the block at a path stands in, to be changed in place.
fn siblings_mut<'a>(nodes: &'a mut Vec<OutlineNode>, path: &[usize]) -> (r: Option<
    &'a mut Vec<OutlineNode>,
>)
    ensures
        match r {
            Some(s) => {
                &&& node_at(nodes_view(old(nodes)@), path@) is Some
                &&& path@.len() > 0
                &&& path@.last() < s@.len()
                &&& nodes_view(s@) == siblings_of(nodes_view(old(nodes)@), path@)
                &&& nodes_view(final(nodes)@) == with_siblings(
                    nodes_view(old(nodes)@),
                    path@,
                    nodes_view(final(s)@),
                )
            },
            None => node_at(nodes_view(old(nodes)@), path@) is None && nodes_view(final(nodes)@)
                == nodes_view(old(nodes)@),
        },
{
    assert(path@.skip(0) =~= path@);
    siblings_below(nodes, path, 0)
}

fn siblings_below<'a>(nodes: &'a mut Vec<OutlineNode>, path: &[usize], d: usize) -> (r: Option<
    &'a mut Vec<OutlineNode>,
>)
    requires
        d <= path@.len(),
    ensures
        match r {
            Some(s) => {
                &&& node_at(nodes_view(old(nodes)@), path@.skip(d as int)) is Some
                &&& path@.len() > 0
                &&& path@.last() < s@.len()
                &&& nodes_view(s@) == siblings_of(nodes_view(old(nodes)@), path@.skip(d as int))
                &&& nodes_view(final(nodes)@) == with_siblings(
                    nodes_view(old(nodes)@),
                    path@.skip(d as int),
                    nodes_view(final(s)@),
                )
            },
            None => node_at(nodes_view(old(nodes)@), path@.skip(d as int)) is None && nodes_view(
                final(nodes)@,
            ) == nodes_view(old(nodes)@),
        },
    decreases path@.len() - d,
{
    let ghost rest = path@.skip(d as int);
    let ghost v = nodes@;
    proof {
        lemma_nodes_view(nodes@);
        assert(d < path@.len() ==> rest.drop_first() =~= path@.skip(d + 1));
    }
    if d == path.len() || path[d] >= nodes.len() {
        return None;
    }
    let i: usize = path[d];
    if d + 1 == path.len() {
        return Some(nodes);
    }
    let n = &mut nodes[i];
    proof {
        lemma_update_view(v, i as int, *final(n));
        assert(nodes_view(v).update(i as int, node_view(v[i as int])) =~= nodes_view(v));
    }
    siblings_below(&mut n.children, path, d + 1)
}

proof fn lemma_view_remove(v: Seq<OutlineNode>, i: int)
    requires
        0 <= i < v.len(),
    ensures
        nodes_view(v.remove(i)) == nodes_view(v).remove(i),
{
    lemma_nodes_view(v);
    lemma_nodes_view(v.remove(i));
    assert(nodes_view(v.remove(i)) =~= nodes_view(v).remove(i));
}

proof fn lemma_view_insert(v: Seq<OutlineNode>, i: int, n: OutlineNode)
    requires
        0 <= i <= v.len(),
    ensures
        nodes_view(v.insert(i, n)) == nodes_view(v).insert(i, node_view(n)),
{
    lemma_nodes_view(v);
    lemma_nodes_view(v.insert(i, n));
    assert(nodes_view(v.insert(i, n)) =~= nodes_view(v).insert(i, node_view(n)));
}

/// Deletes the block at a path with all below it.
pub fn delete_at_path(nodes: &mut Vec<OutlineNode>, path: &[usize])
    ensures
        nodes_view(final(nodes)@) == deleted(nodes_view(old(nodes)@), path@),
{
    if let Some(s) = siblings_mut(nodes, path) {
        let i: usize = path[path.len() - 1];
        proof {
            lemma_view_remove(s@, i as int);
        }
        s.remove(i);
    }
}

/// Swaps the block at `i` with the one below it.
fn swap_siblings(s: &mut Vec<OutlineNode>, i: usize)
    requires
        i + 1 < old(s)@.len(),
    ensures
        nodes_view(final(s)@) == swapped(nodes_view(old(s)@), i as int),
{
    let len: usize = s.len();
    assert(i + 1 < len);
    proof {
        lemma_view_remove(s@, i as int);
    }
    let n = s.remove(i);
    proof {
        lemma_view_insert(s@, i + 1, n);
        lemma_nodes_view(old(s)@);
    }
    s.insert(i + 1, n);
    assert(nodes_view(s@) =~= swapped(nodes_view(old(s)@), i as int));
}

/// Moves the block at a path before the sibling above it. Returns whether
/// there is one.
pub fn move_up_at_path(nodes: &mut Vec<OutlineNode>, path: &[usize]) -> (moved: bool)
    ensures
        nodes_view(final(nodes)@) == moved_up(nodes_view(old(nodes)@), path@),
        moved == (node_at(nodes_view(old(nodes)@), path@) is Some && path@.last() > 0),
{
    if path.len() == 0 || path[path.len() - 1] == 0 {
        return false;
    }
    match siblings_mut(nodes, path) {
        Some(s) => {
            swap_siblings(s, path[path.len() - 1] - 1);
            true
        },
        None => false,
    }
}

/// The number of siblings of the block at a path, itself counted, if there
/// is such a block.
pub fn sibling_count(nodes: &Vec<OutlineNode>, path: &[usize]) -> (n: Option<usize>)
    ensures
        match n {
            Some(k) => node_at(nodes_view(nodes@), path@) is Some && k == siblings_of(
                nodes_view(nodes@),
                path@,
            ).len(),
            None => node_at(nodes_view(nodes@), path@) is None,
        },
{
    assert(path@.skip(0) =~= path@);
    sibling_count_below(nodes, path, 0)
}

fn sibling_count_below(nodes: &Vec<OutlineNode>, path: &[usize], d: usize) -> (n: Option<usize>)
    requires
        d <= path@.len(),
    ensures
        match n {
            Some(k) => node_at(nodes_view(nodes@), path@.skip(d as int)) is Some && k
                == siblings_of(nodes_view(nodes@), path@.skip(d as int)).len(),
            None => node_at(nodes_view(nodes@), path@.skip(d as int)) is None,
        },
    decreases path@.len() - d,
{
    proof {
        lemma_nodes_view(nodes@);
        assert(d < path@.len() ==> path@.skip(d as int).drop_first() =~= path@.skip(d + 1));
    }
    if d == path.len() || path[d] >= nodes.len() {
        return None;
    }
    if d + 1 == path.len() {
        return Some(nodes.len());
    }
    sibling_count_below(&nodes[path[d]].children, path, d + 1)
}

/// Moves the block at a path after the sibling below it. Returns whether
/// there is one.
pub fn move_down_at_path(nodes: &mut Vec<OutlineNode>, path: &[usize]) -> (moved: bool)
    ensures
        nodes_view(final(nodes)@) == moved_down(nodes_view(old(nodes)@), path@),
        moved == (node_at(nodes_view(old(nodes)@), path@) is Some && path@.last() + 1
            < siblings_of(nodes_view(old(nodes)@), path@).len()),
{
    match sibling_count(nodes, path) {
        Some(n) => {
            if path.len() == 0 || n == 0 || path[path.len() - 1] >= n - 1 {
                return false;
            }
        },
        None => {
            return false;
        },
    }
    match siblings_mut(nodes, path) {
        Some(s) => {
            proof {
                lemma_nodes_view(s@);
            }
            swap_siblings(s, path[path.len() - 1]);
            true
        },
        None => false,
    }
}

/// Makes the block at a path the last child of the sibling above it.
/// Returns whether there is one.
pub fn indent_at_path(nodes: &mut Vec<OutlineNode>, path: &[usize]) -> (moved: bool)
    ensures
        nodes_view(final(nodes)@) == indented(nodes_view(old(nodes)@), path@),
        moved == (node_at(nodes_view(old(nodes)@), path@) is Some && path@.last() > 0),
{
    if path.len() == 0 || path[path.len() - 1] == 0 {
        return false;
    }
    match siblings_mut(nodes, path) {
        Some(s) => {
            nest(s, path[path.len() - 1]);
            true
        },
        None => false,
    }
}

fn nest(s: &mut Vec<OutlineNode>, i: usize)
    requires
        0 < i < old(s)@.len(),
    ensures
        nodes_view(final(s)@) == nested(nodes_view(old(s)@), i as int),
{
    proof {
        lemma_view_remove(s@, i as int);
        lemma_nodes_view(s@);
    }
    let n = s.remove(i);
    let ghost mid = s@;
    let above = &mut s[i - 1];
    proof {
        lemma_update_view(mid, i - 1, *final(above));
        lemma_view_insert(above.children@, above.children@.len() as int, n);
        assert(above.children@.insert(above.children@.len() as int, n) =~= above.children@.push(n));
        lemma_nodes_view(above.children@);
        assert(nodes_view(above.children@).insert(above.children@.len() as int, node_view(n))
            =~= nodes_view(above.children@).push(node_view(n)));
    }
    above.children.push(n);
}

/// Places the block at a path after its parent. Returns whether it has one.
pub fn outdent_at_path(nodes: &mut Vec<OutlineNode>, path: &[usize]) -> (moved: bool)
    ensures
        nodes_view(final(nodes)@) == outdented(nodes_view(old(nodes)@), path@),
        moved == (node_at(nodes_view(old(nodes)@), path@) is Some && path@.len() >= 2),
{
    if path.len() < 2 {
        return false;
    }
    if node_at_path(nodes, path).is_none() {
        return false;
    }
    let mut parent: Vec<usize> = Vec::new();
    let mut k: usize = 0;
    while k < path.len() - 1
        invariant
            k + 1 <= path.len(),
            parent@ == path@.take(k as int),
        decreases path@.len() - k,
    {
        parent.push(path[k]);
        k += 1;
        assert(parent@ =~= path@.take(k as int));
    }
    assert(parent@ =~= path@.drop_last());
    proof {
        lemma_parent(nodes_view(nodes@), path@);
    }
    let j: usize = path[path.len() - 1];
    match siblings_mut(nodes, &parent) {
        Some(s) => {
            let i: usize = parent[parent.len() - 1];
            unnest(s, i, j);
            true
        },
        None => false,
    }
}

/// The parent of a block that is there is there, with that child.
pub proof fn lemma_parent(v: Seq<NodeView>, path: Seq<usize>)
    requires
        path.len() >= 2,
        node_at(v, path) is Some,
    ensures
        node_at(v, path.drop_last()) is Some,
        path.last() < node_at(v, path.drop_last())->0.children.len(),
        siblings_of(v, path.drop_last())[path.drop_last().last() as int] == node_at(
            v,
            path.drop_last(),
        )->0,
        path.drop_last().last() < siblings_of(v, path.drop_last()).len(),
    decreases path.len(),
{
    let below = v[path[0] as int].children;
    reveal_with_fuel(node_at, 3);
    if path.len() > 2 {
        lemma_parent(below, path.drop_first());
        assert(path.drop_first().drop_last() =~= path.drop_last().drop_first());
        assert(path.drop_first().last() == path.last());
    } else {
        assert(path.drop_last() =~= seq![path[0]]);
        assert(path.drop_first() =~= seq![path[1]]);
    }
}

fn unnest(s: &mut Vec<OutlineNode>, i: usize, j: usize)
    requires
        i < old(s)@.len(),
        j < nodes_view(old(s)@)[i as int].children.len(),
    ensures
        nodes_view(final(s)@) == unnested(nodes_view(old(s)@), i as int, j as int),
{
    let ghost v = s@;
    let len: usize = s.len();
    assert(i < len);
    proof {
        lemma_nodes_view(v);
        lemma_nodes_view(v[i as int].children@);
    }
    let parent = &mut s[i];
    proof {
        lemma_update_view(v, i as int, *final(parent));
        lemma_view_remove(parent.children@, j as int);
    }
    let n = parent.children.remove(j);
    proof {
        lemma_view_insert(s@, i + 1, n);
    }
    s.insert(i + 1, n);
}

/// A copy of a block with all below it.
pub fn copy_node(n: &OutlineNode) -> (c: OutlineNode)
    ensures
        c@ == n@,
    decreases n,
{
    OutlineNode {
        text: n.text.clone(),
        children: copy_nodes(&n.children),
        properties: copy_pairs(&n.properties),
    }
}

/// A copy of a list of blocks with all below them.
pub fn copy_nodes(nodes: &Vec<OutlineNode>) -> (c: Vec<OutlineNode>)
    ensures
        nodes_view(c@) == nodes_view(nodes@),
    decreases nodes,
{
    let mut c: Vec<OutlineNode> = Vec::new();
    let mut i: usize = 0;
    while i < nodes.len()
        invariant
            i <= nodes@.len(),
            c@.len() == i,
            forall|j: int| 0 <= j < i ==> node_view(#[trigger] c@[j]) == node_view(nodes@[j]),
        decreases nodes@.len() - i,
    {
        c.push(copy_node(&nodes[i]));
        i += 1;
    }
    proof {
        lemma_nodes_view(c@);
        lemma_nodes_view(nodes@);
        assert(nodes_view(c@) =~= nodes_view(nodes@));
    }
    c
}

/// A copy of a list of properties.
pub fn copy_pairs(v: &Vec<(String, String)>) -> (c: Vec<(String, String)>)
    ensures
        pairs(c@) == pairs(v@),
{
    let mut c: Vec<(String, String)> = Vec::new();
    let mut i: usize = 0;
    while i < v.len()
        invariant
            i <= v@.len(),
            c@.len() == i,
            pairs(c@) == pairs(v@).take(i as int),
        decreases v@.len() - i,
    {
        c.push((v[i].0.clone(), v[i].1.clone()));
        i += 1;
        assert(pair(c@[i - 1]) == pair(v@[i - 1]));
        assert(pairs(c@) =~= pairs(v@).take(i as int));
    }
    assert(pairs(v@).take(i as int) =~= pairs(v@));
    c
}

// ---------------------------------------------------------------------
// Laws
// ---------------------------------------------------------------------

/// Two lists together hold what each of them holds.
pub proof fn lemma_count_concat(a: Seq<NodeView>, b: Seq<NodeView>)
    ensures
        count(a + b) == count(a) + count(b),
    decreases b.len(),
{
    if b.len() == 0 {
        assert(a + b =~= a);
    } else {
        assert((a + b).drop_last() =~= a + b.drop_last());
        lemma_count_concat(a, b.drop_last());
    }
}

/// A list of one block holds that block and all below it.
pub proof fn lemma_count_one(n: NodeView)
    ensures
        count(seq![n]) == 1 + count(n.children),
{
    assert(seq![n].drop_last() =~= Seq::<NodeView>::empty());
    assert(preorder_all(seq![n].drop_last()) =~= Seq::<NodeView>::empty());
    assert(seq![n].last() == n);
    assert(preorder_all(seq![n]) =~= preorder(n));
}

proof fn lemma_count_around(a: Seq<NodeView>, n: NodeView, b: Seq<NodeView>)
    ensures
        count(a + seq![n] + b) == count(a) + 1 + count(n.children) + count(b),
{
    lemma_count_concat(a + seq![n], b);
    lemma_count_concat(a, seq![n]);
    lemma_count_one(n);
}

proof fn lemma_count_update(v: Seq<NodeView>, i: int, n: NodeView)
    requires
        0 <= i < v.len(),
    ensures
        count(v.update(i, n)) == count(v) - count(v[i].children) + count(n.children),
{
    assert(v =~= v.take(i) + seq![v[i]] + v.skip(i + 1));
    assert(v.update(i, n) =~= v.take(i) + seq![n] + v.skip(i + 1));
    lemma_count_around(v.take(i), v[i], v.skip(i + 1));
    lemma_count_around(v.take(i), n, v.skip(i + 1));
}

proof fn lemma_count_remove(v: Seq<NodeView>, i: int)
    requires
        0 <= i < v.len(),
    ensures
        count(v.remove(i)) == count(v) - 1 - count(v[i].children),
{
    assert(v =~= v.take(i) + seq![v[i]] + v.skip(i + 1));
    assert(v.remove(i) =~= v.take(i) + v.skip(i + 1));
    lemma_count_around(v.take(i), v[i], v.skip(i + 1));
    lemma_count_concat(v.take(i), v.skip(i + 1));
}

proof fn lemma_count_insert(v: Seq<NodeView>, i: int, n: NodeView)
    requires
        0 <= i <= v.len(),
    ensures
        count(v.insert(i, n)) == count(v) + 1 + count(n.children),
{
    assert(v =~= v.take(i) + v.skip(i));
    assert(v.insert(i, n) =~= v.take(i) + seq![n] + v.skip(i));
    lemma_count_around(v.take(i), n, v.skip(i));
    lemma_count_concat(v.take(i), v.skip(i));
}

proof fn lemma_count_siblings(v: Seq<NodeView>, path: Seq<usize>, s: Seq<NodeView>)
    requires
        node_at(v, path) is Some,
    ensures
        count(with_siblings(v, path, s)) == count(v) - count(siblings_of(v, path)) + count(s),
    decreases path.len(),
{
    if path.len() > 1 {
        let i = path[0] as int;
        lemma_count_siblings(v[i].children, path.drop_first(), s);
        lemma_count_update(
            v,
            i,
            NodeView { children: with_siblings(v[i].children, path.drop_first(), s), ..v[i] },
        );
    }
}

/// The block at a path is its place in its list of siblings.
pub proof fn lemma_among_siblings(v: Seq<NodeView>, path: Seq<usize>)
    requires
        node_at(v, path) is Some,
    ensures
        path.last() < siblings_of(v, path).len(),
        siblings_of(v, path)[path.last() as int] == node_at(v, path)->0,
    decreases path.len(),
{
    if path.len() > 1 {
        lemma_among_siblings(v[path[0] as int].children, path.drop_first());
        assert(path.drop_first().last() == path.last());
    }
}

/// Moving, indenting and outdenting a block lose none and make none, and
/// deleting one loses it and all below it.
pub proof fn law_edits_keep_count(v: Seq<NodeView>, path: Seq<usize>)
    requires
        node_at(v, path) is Some,
    ensures
        count(moved_up(v, path)) == count(v),
        count(moved_down(v, path)) == count(v),
        count(indented(v, path)) == count(v),
        count(outdented(v, path)) == count(v),
        count(deleted(v, path)) == count(v) - 1 - count(node_at(v, path)->0.children),
{
    lemma_among_siblings(v, path);
    let s = siblings_of(v, path);
    let i = path.last() as int;
    lemma_count_remove(s, i);
    lemma_count_siblings(v, path, s.remove(i));
    if i > 0 {
        let t = swapped(s, i - 1);
        lemma_count_swapped(s, i - 1);
        lemma_count_siblings(v, path, t);
        let above = NodeView { children: s[i - 1].children.push(s[i]), ..s[i - 1] };
        lemma_count_update(s.remove(i), i - 1, above);
        assert(above.children =~= s[i - 1].children + seq![s[i]] + Seq::empty());
        lemma_count_around(s[i - 1].children, s[i], Seq::empty());
        lemma_count_siblings(v, path, nested(s, i));
    }
    if i + 1 < s.len() {
        lemma_count_swapped(s, i);
        lemma_count_siblings(v, path, swapped(s, i));
    }
    if path.len() >= 2 {
        let parent = path.drop_last();
        lemma_parent(v, path);
        let ps = siblings_of(v, parent);
        let pi = parent.last() as int;
        let thin = NodeView { children: ps[pi].children.remove(i), ..ps[pi] };
        lemma_count_remove(ps[pi].children, i);
        lemma_count_update(ps, pi, thin);
        lemma_count_insert(ps.update(pi, thin), pi + 1, ps[pi].children[i]);
        lemma_count_siblings(v, parent, unnested(ps, pi, i));
    }
}

proof fn lemma_count_swapped(s: Seq<NodeView>, i: int)
    requires
        0 <= i,
        i + 1 < s.len(),
    ensures
        count(swapped(s, i)) == count(s),
{
    lemma_count_update(s, i, s[i + 1]);
    lemma_count_update(s.update(i, s[i + 1]), i + 1, s[i]);
}

/// The texts of a block and all below it, in display order.
pub open spec fn text_rows(n: NodeView) -> Seq<Seq<char>>
    decreases n, 0nat,
{
    seq![n.text] + text_rows_all(n.children)
}

/// The texts of blocks and all below them, in display order.
pub open spec fn text_rows_all(v: Seq<NodeView>) -> Seq<Seq<char>>
    decreases v, 1nat,
{
    if v.len() == 0 {
        Seq::empty()
    } else {
        text_rows_all(v.drop_last()) + text_rows(v.last())
    }
}

proof fn lemma_rows_concat(a: Seq<NodeView>, b: Seq<NodeView>)
    ensures
        text_rows_all(a + b) == text_rows_all(a) + text_rows_all(b),
    decreases b.len(),
{
    if b.len() == 0 {
        assert(a + b =~= a);
        assert(text_rows_all(a) + text_rows_all(b) =~= text_rows_all(a));
    } else {
        assert((a + b).drop_last() =~= a + b.drop_last());
        lemma_rows_concat(a, b.drop_last());
        assert(text_rows_all(a) + (text_rows_all(b.drop_last()) + text_rows(b.last())) =~= (
        text_rows_all(a) + text_rows_all(b.drop_last())) + text_rows(b.last()));
    }
}

proof fn lemma_rows_around(a: Seq<NodeView>, n: NodeView, b: Seq<NodeView>)
    ensures
        text_rows_all(a + seq![n] + b) == text_rows_all(a) + text_rows(n) + text_rows_all(b),
{
    lemma_rows_concat(a + seq![n], b);
    lemma_rows_concat(a, seq![n]);
    assert(seq![n].drop_last() =~= Seq::<NodeView>::empty());
    assert(text_rows_all(seq![n].drop_last()) =~= Seq::<Seq<char>>::empty());
    assert(text_rows_all(seq![n]) =~= text_rows(n));
}

proof fn lemma_rows_siblings(v: Seq<NodeView>, path: Seq<usize>, s: Seq<NodeView>)
    requires
        node_at(v, path) is Some,
        text_rows_all(s) == text_rows_all(siblings_of(v, path)),
    ensures
        text_rows_all(with_siblings(v, path, s)) == text_rows_all(v),
    decreases path.len(),
{
    if path.len() > 1 {
        let i = path[0] as int;
        lemma_rows_siblings(v[i].children, path.drop_first(), s);
        let n = NodeView {
            children: with_siblings(v[i].children, path.drop_first(), s),
            ..v[i]
        };
        assert(v =~= v.take(i) + seq![v[i]] + v.skip(i + 1));
        assert(v.update(i, n) =~= v.take(i) + seq![n] + v.skip(i + 1));
        lemma_rows_around(v.take(i), v[i], v.skip(i + 1));
        lemma_rows_around(v.take(i), n, v.skip(i + 1));
    }
}

/// Indenting a block moves no text: the page reads the same from top to
/// bottom, so that every block keeps its flat index.
pub proof fn law_indent_keeps_order(v: Seq<NodeView>, path: Seq<usize>)
    ensures
        text_rows_all(indented(v, path)) == text_rows_all(v),
{
    if node_at(v, path) is Some && path.last() > 0 {
        lemma_among_siblings(v, path);
        let s = siblings_of(v, path);
        let i = path.last() as int;
        let a = s.take(i - 1);
        let b = s.skip(i + 1);
        let p = s[i - 1];
        let n = s[i];
        let q = NodeView { children: p.children.push(n), ..p };
        assert(s =~= (a + seq![p]) + seq![n] + b);
        assert(nested(s, i) =~= a + seq![q] + b);
        lemma_rows_around(a + seq![p], n, b);
        lemma_rows_around(a, p, Seq::empty());
        assert(a + seq![p] + Seq::<NodeView>::empty() =~= a + seq![p]);
        lemma_rows_around(a, q, b);
        assert(p.children.push(n) =~= p.children + seq![n] + Seq::<NodeView>::empty());
        lemma_rows_around(p.children, n, Seq::empty());
        assert(text_rows_all(nested(s, i)) =~= text_rows_all(s));
        lemma_rows_siblings(v, path, nested(s, i));
    }
}

/// Moving a block up and then down again puts it back.
pub proof fn law_move_down_undoes_move_up(v: Seq<NodeView>, path: Seq<usize>, back: Seq<usize>)
    requires
        node_at(v, path) is Some,
        path.last() > 0,
        back == path.update(path.len() - 1, (path.last() - 1) as usize),
    ensures
        moved_down(moved_up(v, path), back) == v,
    decreases path.len(),
{
    lemma_among_siblings(v, path);
    let w = moved_up(v, path);
    if path.len() == 1 {
        assert(back.len() == 1);
        assert(moved_down(w, back) =~= v);
    } else {
        let i = path[0] as int;
        let below = v[i].children;
        let rest = path.drop_first();
        assert(rest.last() == path.last());
        assert(back.drop_first() =~= rest.update(rest.len() - 1, (rest.last() - 1) as usize));
        law_move_down_undoes_move_up(below, rest, back.drop_first());
        let up = moved_up(below, rest);
        assert(w == v.update(i, NodeView { children: up, ..v[i] }));
        lemma_moved_siblings(below, rest, back.drop_first());
        assert(back.last() == back.drop_first().last());
        assert(moved_down(w, back) =~= w.update(
            i,
            NodeView { children: moved_down(up, back.drop_first()), ..w[i] },
        ));
        assert(moved_down(w, back) =~= v);
    }
}

/// After a move up the sibling above stands where the block stood.
proof fn lemma_moved_siblings(v: Seq<NodeView>, path: Seq<usize>, back: Seq<usize>)
    requires
        node_at(v, path) is Some,
        path.last() > 0,
        back == path.update(path.len() - 1, (path.last() - 1) as usize),
    ensures
        node_at(moved_up(v, path), back) is Some,
        siblings_of(moved_up(v, path), back) == swapped(siblings_of(v, path), path.last() - 1),
        back.last() + 1 < siblings_of(moved_up(v, path), back).len(),
    decreases path.len(),
{
    lemma_among_siblings(v, path);
    if path.len() > 1 {
        let i = path[0] as int;
        let rest = path.drop_first();
        assert(rest.last() == path.last());
        assert(back.drop_first() =~= rest.update(rest.len() - 1, (rest.last() - 1) as usize));
        lemma_moved_siblings(v[i].children, rest, back.drop_first());
        assert(moved_up(v, path)[i].children == moved_up(v[i].children, rest));
    }
}

/// A block put in place of another is found where the other was, and with
/// the same children it changes no count.
pub proof fn law_replaced_block_is_found(v: Seq<NodeView>, path: Seq<usize>, n: NodeView)
    requires
        node_at(v, path) is Some,
    ensures
        node_at(replaced(v, path, n), path) == Some(n),
        index_of(replaced(v, path, n), path) == index_of(v, path),
        n.children == node_at(v, path)->0.children ==> count(replaced(v, path, n)) == count(v),
    decreases path.len(),
{
    let i = path[0] as int;
    let w = replaced(v, path, n);
    assert(w.take(i) =~= v.take(i));
    if path.len() == 1 {
        lemma_count_update(v, i, n);
    } else {
        law_replaced_block_is_found(v[i].children, path.drop_first(), n);
        lemma_count_update(
            v,
            i,
            NodeView { children: replaced(v[i].children, path.drop_first(), n), ..v[i] },
        );
    }
}

/// A block put in place of itself leaves the outline as it is.
pub proof fn law_replacing_by_itself_changes_nothing(v: Seq<NodeView>, path: Seq<usize>)
    requires
        node_at(v, path) is Some,
    ensures
        replaced(v, path, node_at(v, path)->0) == v,
    decreases path.len(),
{
    if path.len() > 1 {
        law_replacing_by_itself_changes_nothing(v[path[0] as int].children, path.drop_first());
    }
    assert(replaced(v, path, node_at(v, path)->0) =~= v);
}

} // verus!

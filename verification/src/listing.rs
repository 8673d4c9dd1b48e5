//! An outline read from top to bottom, and what the edits of blocks do to
//! what is read.

use crate::outline::{
    count, deleted, index_of, indented, lemma_among_siblings, lemma_count_concat, lemma_count_one,
    lemma_index_in_range, lemma_parent, moved_down, moved_up, nested, node_at, outdented, preorder,
    preorder_all, replaced, siblings_of, swapped, unnested, with_siblings, NodeView,
};
use vstd::prelude::*;

verus! {

/// A block as it is read: how deep it stands, and what it says.
pub ghost struct Entry {
    pub depth: int,
    pub text: Seq<char>,
    pub properties: Seq<(Seq<char>, Seq<char>)>,
}

/// A block and all below it, from top to bottom.
pub open spec fn listed(n: NodeView, depth: int) -> Seq<Entry>
    decreases n, 0nat,
{
    seq![Entry { depth, text: n.text, properties: n.properties }] + listed_all(
        n.children,
        depth + 1,
    )
}

/// Blocks and all below them, from top to bottom.
pub open spec fn listed_all(v: Seq<NodeView>, depth: int) -> Seq<Entry>
    decreases v, 1nat,
{
    if v.len() == 0 {
        Seq::empty()
    } else {
        listed_all(v.drop_last(), depth) + listed(v.last(), depth)
    }
}

/// A listing, `by` levels deeper.
pub open spec fn deeper(l: Seq<Entry>, by: int) -> Seq<Entry> {
    l.map_values(|e: Entry| Entry { depth: e.depth + by, ..e })
}

/// The path of a sibling.
pub open spec fn beside(path: Seq<usize>, at: int) -> Seq<usize> {
    path.update(path.len() - 1, at as usize)
}

// ---------------------------------------------------------------------
// Listings
// ---------------------------------------------------------------------

/// Every block is listed once, in the order of the flat indices.
pub proof fn law_listing_is_the_outline(v: Seq<NodeView>, depth: int)
    ensures
        listed_all(v, depth).len() == count(v),
        forall|k: int|
            #![trigger listed_all(v, depth)[k]]
            0 <= k < count(v) ==> listed_all(v, depth)[k].text == preorder_all(v)[k].text
                && listed_all(v, depth)[k].properties == preorder_all(v)[k].properties,
    decreases v, 1nat,
{
    if v.len() > 0 {
        law_listing_is_the_outline(v.drop_last(), depth);
        lemma_block_listed(v.last(), depth);
        let a = listed_all(v.drop_last(), depth);
        assert forall|k: int|
            #![trigger listed_all(v, depth)[k]]
            0 <= k < count(v) implies listed_all(v, depth)[k].text == preorder_all(v)[k].text
            && listed_all(v, depth)[k].properties == preorder_all(v)[k].properties by {
            if k < a.len() {
                assert(listed_all(v, depth)[k] == a[k]);
            } else {
                assert(listed_all(v, depth)[k] == listed(v.last(), depth)[k - a.len()]);
            }
        }
    }
}

proof fn lemma_block_listed(n: NodeView, depth: int)
    ensures
        listed(n, depth).len() == preorder(n).len(),
        forall|k: int|
            #![trigger listed(n, depth)[k]]
            0 <= k < preorder(n).len() ==> listed(n, depth)[k].text == preorder(n)[k].text
                && listed(n, depth)[k].properties == preorder(n)[k].properties,
    decreases n, 0nat,
{
    law_listing_is_the_outline(n.children, depth + 1);
    assert forall|k: int|
        #![trigger listed(n, depth)[k]]
        0 <= k < preorder(n).len() implies listed(n, depth)[k].text == preorder(n)[k].text
        && listed(n, depth)[k].properties == preorder(n)[k].properties by {
        if k > 0 {
            assert(listed(n, depth)[k] == listed_all(n.children, depth + 1)[k - 1]);
        }
    }
}

proof fn lemma_listed_deeper(v: Seq<NodeView>, depth: int, by: int)
    ensures
        listed_all(v, depth + by) == deeper(listed_all(v, depth), by),
    decreases v, 1nat,
{
    if v.len() > 0 {
        lemma_listed_deeper(v.drop_last(), depth, by);
        lemma_block_deeper(v.last(), depth, by);
    }
    assert(listed_all(v, depth + by) =~= deeper(listed_all(v, depth), by));
}

proof fn lemma_block_deeper(n: NodeView, depth: int, by: int)
    ensures
        listed(n, depth + by) == deeper(listed(n, depth), by),
    decreases n, 0nat,
{
    lemma_listed_deeper(n.children, depth + 1, by);
    assert(depth + by + 1 == depth + 1 + by);
    assert(listed(n, depth + by) =~= deeper(listed(n, depth), by));
}

proof fn lemma_listed_add(a: Seq<NodeView>, b: Seq<NodeView>, depth: int)
    ensures
        listed_all(a + b, depth) == listed_all(a, depth) + listed_all(b, depth),
    decreases b.len(),
{
    if b.len() == 0 {
        assert(a + b =~= a);
    } else {
        assert((a + b).drop_last() =~= a + b.drop_last());
        lemma_listed_add(a, b.drop_last(), depth);
    }
    assert(listed_all(a + b, depth) =~= listed_all(a, depth) + listed_all(b, depth));
}

proof fn lemma_listed_one(n: NodeView, depth: int)
    ensures
        listed_all(seq![n], depth) == listed(n, depth),
{
    assert(seq![n].drop_last() =~= Seq::<NodeView>::empty());
    assert(seq![n].last() == n);
    assert(listed_all(seq![n].drop_last(), depth) =~= Seq::<Entry>::empty());
    assert(listed_all(seq![n], depth) =~= listed(n, depth));
}

proof fn lemma_listed_around(a: Seq<NodeView>, n: NodeView, b: Seq<NodeView>, depth: int)
    ensures
        listed_all(a + seq![n] + b, depth) == listed_all(a, depth) + listed(n, depth) + listed_all(
            b,
            depth,
        ),
{
    lemma_listed_add(a + seq![n], b, depth);
    lemma_listed_add(a, seq![n], depth);
    lemma_listed_one(n, depth);
}

/// What is read before the list that the block at a path stands in.
spec fn before(v: Seq<NodeView>, path: Seq<usize>, depth: int) -> Seq<Entry>
    decreases path.len(),
{
    if path.len() <= 1 {
        Seq::empty()
    } else {
        let n = v[path[0] as int];
        listed_all(v.take(path[0] as int), depth) + seq![
            Entry { depth, text: n.text, properties: n.properties },
        ] + before(n.children, path.drop_first(), depth + 1)
    }
}

/// What is read behind the list that the block at a path stands in.
spec fn behind(v: Seq<NodeView>, path: Seq<usize>, depth: int) -> Seq<Entry>
    decreases path.len(),
{
    if path.len() <= 1 {
        Seq::empty()
    } else {
        let n = v[path[0] as int];
        behind(n.children, path.drop_first(), depth + 1) + listed_all(
            v.skip(path[0] as int + 1),
            depth,
        )
    }
}

proof fn lemma_listed_siblings(v: Seq<NodeView>, path: Seq<usize>, s: Seq<NodeView>, depth: int)
    requires
        node_at(v, path) is Some,
    ensures
        listed_all(with_siblings(v, path, s), depth) == before(v, path, depth) + listed_all(
            s,
            depth + path.len() - 1,
        ) + behind(v, path, depth),
    decreases path.len(),
{
    if path.len() > 1 {
        let i = path[0] as int;
        let rest = path.drop_first();
        let below = v[i].children;
        lemma_listed_siblings(below, rest, s, depth + 1);
        assert(depth + 1 + rest.len() - 1 == depth + path.len() - 1);
        let n = NodeView { children: with_siblings(below, rest, s), ..v[i] };
        let w = with_siblings(v, path, s);
        assert(w =~= v.take(i) + seq![n] + v.skip(i + 1));
        lemma_listed_around(v.take(i), n, v.skip(i + 1), depth);
    }
    assert(listed_all(with_siblings(v, path, s), depth) =~= before(v, path, depth) + listed_all(
        s,
        depth + path.len() - 1,
    ) + behind(v, path, depth));
}

proof fn lemma_own_siblings(v: Seq<NodeView>, path: Seq<usize>)
    requires
        node_at(v, path) is Some,
    ensures
        with_siblings(v, path, siblings_of(v, path)) == v,
    decreases path.len(),
{
    if path.len() > 1 {
        lemma_own_siblings(v[path[0] as int].children, path.drop_first());
        assert(with_siblings(v, path, siblings_of(v, path)) =~= v);
    }
}

proof fn lemma_listed_index(v: Seq<NodeView>, path: Seq<usize>, depth: int)
    requires
        node_at(v, path) is Some,
    ensures
        index_of(v, path) == Some(
            before(v, path, depth).len() + count(
                siblings_of(v, path).take(path.last() as int),
            ) as int,
        ),
    decreases path.len(),
{
    if path.len() > 1 {
        let i = path[0] as int;
        lemma_listed_index(v[i].children, path.drop_first(), depth + 1);
        assert(path.drop_first().last() == path.last());
        law_listing_is_the_outline(v.take(i), depth);
    }
}

/// What is read before a block and the blocks below it, they themselves, and
/// what is read behind them.
proof fn lemma_listed_block(v: Seq<NodeView>, path: Seq<usize>, depth: int)
    requires
        node_at(v, path) is Some,
    ensures
        ({
            let l = listed_all(v, depth);
            let s = siblings_of(v, path);
            let i = path.last() as int;
            let d = depth + path.len() - 1;
            let k = index_of(v, path)->0;
            let m = preorder(node_at(v, path)->0).len() as int;
            &&& index_of(v, path) is Some
            &&& 0 <= k
            &&& k + m <= l.len()
            &&& 0 <= i < s.len()
            &&& s[i] == node_at(v, path)->0
            &&& l.take(k) == before(v, path, depth) + listed_all(s.take(i), d)
            &&& l.subrange(k, k + m) == listed(s[i], d)
            &&& l.skip(k + m) == listed_all(s.skip(i + 1), d) + behind(v, path, depth)
        }),
{
    let l = listed_all(v, depth);
    let s = siblings_of(v, path);
    let i = path.last() as int;
    let d = depth + path.len() - 1;
    let k = index_of(v, path)->0;
    let n = node_at(v, path)->0;
    let m = preorder(n).len() as int;
    lemma_among_siblings(v, path);
    lemma_own_siblings(v, path);
    lemma_listed_siblings(v, path, s, depth);
    lemma_listed_index(v, path, depth);
    law_listing_is_the_outline(s.take(i), d);
    lemma_block_listed(n, d);
    assert(s =~= s.take(i) + seq![n] + s.skip(i + 1));
    lemma_listed_around(s.take(i), n, s.skip(i + 1), d);
    let a = before(v, path, depth) + listed_all(s.take(i), d);
    let b = listed_all(s.skip(i + 1), d) + behind(v, path, depth);
    assert(l =~= a + listed(n, d) + b);
    assert(l.take(k) =~= a);
    assert(l.subrange(k, k + m) =~= listed(n, d));
    assert(l.skip(k + m) =~= b);
}

// ---------------------------------------------------------------------
// Laws
// ---------------------------------------------------------------------

/// A block is listed as deep as its path is long.
pub proof fn law_depth_is_the_length_of_the_path(v: Seq<NodeView>, path: Seq<usize>, depth: int)
    requires
        node_at(v, path) is Some,
    ensures
        index_of(v, path) is Some,
        listed_all(v, depth)[index_of(v, path)->0].depth == depth + path.len() - 1,
{
    lemma_listed_block(v, path, depth);
    let l = listed_all(v, depth);
    let k = index_of(v, path)->0;
    let n = node_at(v, path)->0;
    let m = preorder(n).len() as int;
    assert(l[k] == l.subrange(k, k + m)[0]);
}

/// Deleting a block takes it and all below it out, and leaves every other
/// block as deep as it was and in its order.
pub proof fn law_deleting_takes_out_the_subtree(v: Seq<NodeView>, path: Seq<usize>, depth: int)
    requires
        node_at(v, path) is Some,
    ensures
        ({
            let l = listed_all(v, depth);
            let k = index_of(v, path)->0;
            let m = preorder(node_at(v, path)->0).len();
            listed_all(deleted(v, path), depth) == l.take(k) + l.skip(k + m)
        }),
{
    lemma_listed_block(v, path, depth);
    let s = siblings_of(v, path);
    let i = path.last() as int;
    let d = depth + path.len() - 1;
    assert(s.remove(i) =~= s.take(i) + s.skip(i + 1));
    lemma_listed_siblings(v, path, s.remove(i), depth);
    lemma_listed_add(s.take(i), s.skip(i + 1), d);
    let l = listed_all(v, depth);
    let k = index_of(v, path)->0;
    let m = preorder(node_at(v, path)->0).len();
    assert(listed_all(deleted(v, path), depth) =~= l.take(k) + l.skip(k + m));
}

/// Indenting a block that has a sibling above it puts it and all below it one
/// level deeper, and changes nothing else.
pub proof fn law_indenting_is_one_level_deeper(v: Seq<NodeView>, path: Seq<usize>, depth: int)
    requires
        node_at(v, path) is Some,
        path.last() > 0,
    ensures
        ({
            let l = listed_all(v, depth);
            let k = index_of(v, path)->0;
            let m = preorder(node_at(v, path)->0).len();
            listed_all(indented(v, path), depth) == l.take(k) + deeper(l.subrange(k, k + m), 1)
                + l.skip(k + m)
        }),
{
    lemma_listed_block(v, path, depth);
    let s = siblings_of(v, path);
    let i = path.last() as int;
    let d = depth + path.len() - 1;
    let a = s.take(i - 1);
    let b = s.skip(i + 1);
    let p = s[i - 1];
    let n = s[i];
    let q = NodeView { children: p.children.push(n), ..p };
    lemma_listed_siblings(v, path, nested(s, i), depth);
    assert(nested(s, i) =~= a + seq![q] + b);
    lemma_listed_around(a, q, b, d);
    assert(p.children.push(n) =~= p.children + seq![n]);
    lemma_listed_add(p.children, seq![n], d + 1);
    lemma_listed_one(n, d + 1);
    lemma_block_deeper(n, d, 1);
    assert(s.take(i) =~= a + seq![p]);
    lemma_listed_add(a, seq![p], d);
    lemma_listed_one(p, d);
    let l = listed_all(v, depth);
    let k = index_of(v, path)->0;
    let m = preorder(node_at(v, path)->0).len();
    assert(listed_all(indented(v, path), depth) =~= l.take(k) + deeper(l.subrange(k, k + m), 1)
        + l.skip(k + m));
}

/// Outdenting a block that has a parent puts it and all below it one level
/// less deep, behind all else that is below the parent, and changes nothing
/// else.
pub proof fn law_outdenting_is_one_level_less_deep(v: Seq<NodeView>, path: Seq<usize>, depth: int)
    requires
        node_at(v, path) is Some,
        path.len() >= 2,
    ensures
        node_at(v, path.drop_last()) is Some,
        ({
            let l = listed_all(v, depth);
            let parent = path.drop_last();
            let k = index_of(v, path)->0;
            let m = preorder(node_at(v, path)->0).len();
            let end = index_of(v, parent)->0 + preorder(node_at(v, parent)->0).len();
            &&& k + m <= end <= l.len()
            &&& listed_all(outdented(v, path), depth) == l.take(k) + l.subrange(k + m, end)
                + deeper(l.subrange(k, k + m), -1) + l.skip(end)
        }),
{
    let parent = path.drop_last();
    lemma_parent(v, path);
    lemma_listed_block(v, parent, depth);
    let s = siblings_of(v, parent);
    let i = parent.last() as int;
    let j = path.last() as int;
    let d = depth + parent.len() - 1;
    let p = s[i];
    let n = p.children[j];
    let ca = p.children.take(j);
    let cb = p.children.skip(j + 1);
    lemma_child(v, path);
    lemma_unnested_listed(v, parent, j, depth);
    lemma_family_listed(p, j, d);
    lemma_block_deeper(n, d + 1, -1);
    assert(d + 1 + (-1) == d);
    let l = listed_all(v, depth);
    let k0 = index_of(v, parent)->0;
    let end = k0 + preorder(p).len();
    lemma_block_listed(n, d + 1);
    lemma_block_listed(p, d);
    law_listing_is_the_outline(ca, d + 1);
    lemma_child_index(v, path);
    let row = seq![Entry { depth: d, text: p.text, properties: p.properties }];
    lemma_parts(
        l,
        k0,
        end as int,
        row + listed_all(ca, d + 1),
        listed(n, d + 1),
        listed_all(cb, d + 1),
    );
    let k = index_of(v, path)->0;
    let m = preorder(n).len();
    assert(k == k0 + 1 + count(ca));
    assert(listed_all(outdented(v, path), depth) =~= l.take(k) + l.subrange(k + m, end as int)
        + deeper(l.subrange(k, k + m), -1) + l.skip(end as int));
}

proof fn lemma_parts(
    l: Seq<Entry>,
    k0: int,
    end: int,
    a: Seq<Entry>,
    b: Seq<Entry>,
    c: Seq<Entry>,
)
    requires
        0 <= k0 <= end <= l.len(),
        l.subrange(k0, end) == a + b + c,
    ensures
        ({
            let k = k0 + a.len();
            let m = b.len();
            &&& k + m <= end
            &&& l.take(k) == l.take(k0) + a
            &&& l.subrange(k, k + m) == b
            &&& l.subrange(k + m, end) == c
        }),
{
    let own = l.subrange(k0, end);
    let k = k0 + a.len();
    let m = b.len();
    assert(own.len() == a.len() + b.len() + c.len());
    assert forall|j: int| k0 <= j < end implies l[j] == own[j - k0] by {}
    assert(l.take(k) =~= l.take(k0) + a);
    assert(l.subrange(k, k + m) =~= b);
    assert(l.subrange(k + m, end) =~= c);
}

/// A block is read, then its children before one of them, that one, and
/// those behind it.
proof fn lemma_family_listed(p: NodeView, j: int, d: int)
    requires
        0 <= j < p.children.len(),
    ensures
        listed(p, d) == seq![Entry { depth: d, text: p.text, properties: p.properties }]
            + listed_all(p.children.take(j), d + 1) + listed(p.children[j], d + 1) + listed_all(
            p.children.skip(j + 1),
            d + 1,
        ),
{
    let ca = p.children.take(j);
    let cb = p.children.skip(j + 1);
    let n = p.children[j];
    assert(p.children =~= ca + seq![n] + cb);
    lemma_listed_around(ca, n, cb, d + 1);
    assert(listed(p, d) =~= seq![Entry { depth: d, text: p.text, properties: p.properties }]
        + listed_all(ca, d + 1) + listed(n, d + 1) + listed_all(cb, d + 1));
}

proof fn lemma_unnested_listed(v: Seq<NodeView>, parent: Seq<usize>, j: int, depth: int)
    requires
        node_at(v, parent) is Some,
        0 <= j < node_at(v, parent)->0.children.len(),
    ensures
        ({
            let l = listed_all(v, depth);
            let p = node_at(v, parent)->0;
            let d = depth + parent.len() - 1;
            let k0 = index_of(v, parent)->0;
            let s = siblings_of(v, parent);
            let w = with_siblings(v, parent, unnested(s, parent.last() as int, j));
            listed_all(w, depth) == l.take(k0) + (seq![
                Entry { depth: d, text: p.text, properties: p.properties },
            ] + listed_all(p.children.take(j), d + 1) + listed_all(p.children.skip(j + 1), d + 1))
                + listed(p.children[j], d) + l.skip(k0 + preorder(p).len())
        }),
{
    lemma_listed_block(v, parent, depth);
    let s = siblings_of(v, parent);
    let i = parent.last() as int;
    let d = depth + parent.len() - 1;
    let p = s[i];
    let n = p.children[j];
    let thin = NodeView { children: p.children.remove(j), ..p };
    let t = unnested(s, i, j);
    lemma_listed_siblings(v, parent, t, depth);
    assert(t =~= (s.take(i) + seq![thin]) + seq![n] + s.skip(i + 1));
    lemma_listed_around(s.take(i) + seq![thin], n, s.skip(i + 1), d);
    lemma_listed_add(s.take(i), seq![thin], d);
    lemma_listed_one(thin, d);
    let ca = p.children.take(j);
    let cb = p.children.skip(j + 1);
    assert(p.children.remove(j) =~= ca + cb);
    lemma_listed_add(ca, cb, d + 1);
    let row = seq![Entry { depth: d, text: p.text, properties: p.properties }];
    assert(listed(thin, d) =~= row + listed_all(ca, d + 1) + listed_all(cb, d + 1));
    let l = listed_all(v, depth);
    let k0 = index_of(v, parent)->0;
    assert(listed_all(with_siblings(v, parent, t), depth) =~= l.take(k0) + (row + listed_all(
        ca,
        d + 1,
    ) + listed_all(cb, d + 1)) + listed(n, d) + l.skip(k0 + preorder(p).len()));
}

/// A block is its place among the children of its parent.
proof fn lemma_child(v: Seq<NodeView>, path: Seq<usize>)
    requires
        node_at(v, path) is Some,
        path.len() >= 2,
    ensures
        node_at(v, path.drop_last()) is Some,
        path.last() < node_at(v, path.drop_last())->0.children.len(),
        node_at(v, path.drop_last())->0.children[path.last() as int] == node_at(v, path)->0,
    decreases path.len(),
{
    let below = v[path[0] as int].children;
    reveal_with_fuel(node_at, 3);
    if path.len() > 2 {
        lemma_child(below, path.drop_first());
        assert(path.drop_first().drop_last() =~= path.drop_last().drop_first());
        assert(path.drop_first().last() == path.last());
    } else {
        assert(path.drop_last() =~= seq![path[0]]);
        assert(path.drop_first() =~= seq![path[1]]);
    }
}

proof fn lemma_child_index(v: Seq<NodeView>, path: Seq<usize>)
    requires
        node_at(v, path) is Some,
        path.len() >= 2,
    ensures
        index_of(v, path) is Some,
        index_of(v, path.drop_last()) is Some,
        index_of(v, path)->0 == index_of(v, path.drop_last())->0 + 1 + count(
            node_at(v, path.drop_last())->0.children.take(path.last() as int),
        ),
    decreases path.len(),
{
    lemma_child(v, path);
    lemma_index_in_range(v, path);
    lemma_index_in_range(v, path.drop_last());
    let below = v[path[0] as int].children;
    reveal_with_fuel(node_at, 3);
    reveal_with_fuel(index_of, 3);
    if path.len() > 2 {
        lemma_child_index(below, path.drop_first());
        assert(path.drop_first().drop_last() =~= path.drop_last().drop_first());
        assert(path.drop_first().last() == path.last());
    } else {
        assert(path.drop_last() =~= seq![path[0]]);
        assert(path.drop_first() =~= seq![path[1]]);
    }
}

/// Moving a block up puts it and all below it before the sibling above and
/// all below that, and changes nothing else.
pub proof fn law_moving_up_passes_the_sibling(v: Seq<NodeView>, path: Seq<usize>, depth: int)
    requires
        node_at(v, path) is Some,
        path.last() > 0,
    ensures
        node_at(v, beside(path, path.last() - 1)) is Some,
        ({
            let l = listed_all(v, depth);
            let k = index_of(v, path)->0;
            let m = preorder(node_at(v, path)->0).len();
            let up = index_of(v, beside(path, path.last() - 1))->0;
            &&& 0 <= up <= k
            &&& up + preorder(node_at(v, beside(path, path.last() - 1))->0).len() == k
            &&& listed_all(moved_up(v, path), depth) == l.take(up) + l.subrange(k, k + m)
                + l.subrange(up, k) + l.skip(k + m)
        }),
{
    let s = siblings_of(v, path);
    let i = path.last() as int;
    let d = depth + path.len() - 1;
    let q = beside(path, i - 1);
    lemma_among_siblings(v, path);
    lemma_beside(v, path, i - 1);
    lemma_listed_block(v, path, depth);
    lemma_listed_block(v, q, depth);
    let t = swapped(s, i - 1);
    lemma_listed_siblings(v, path, t, depth);
    let a = s.take(i - 1);
    let b = s.skip(i + 1);
    assert(t =~= (a + seq![s[i]]) + seq![s[i - 1]] + b);
    lemma_listed_around(a + seq![s[i]], s[i - 1], b, d);
    lemma_listed_add(a, seq![s[i]], d);
    lemma_listed_one(s[i], d);
    assert(s.take(i) =~= a + seq![s[i - 1]]);
    lemma_count_concat(a, seq![s[i - 1]]);
    lemma_count_one(s[i - 1]);
    lemma_listed_index(v, path, depth);
    lemma_listed_index(v, q, depth);
    lemma_before_beside(v, path, i - 1, depth);
    let l = listed_all(v, depth);
    let k = index_of(v, path)->0;
    let m = preorder(s[i]).len();
    let up = index_of(v, q)->0;
    assert(l.subrange(up, k) == listed(s[i - 1], d));
    assert(listed_all(moved_up(v, path), depth) =~= l.take(up) + l.subrange(k, k + m)
        + l.subrange(up, k) + l.skip(k + m));
}

proof fn lemma_beside(v: Seq<NodeView>, path: Seq<usize>, at: int)
    requires
        node_at(v, path) is Some,
        0 <= at < siblings_of(v, path).len(),
        at <= usize::MAX,
    ensures
        node_at(v, beside(path, at)) == Some(siblings_of(v, path)[at]),
        siblings_of(v, beside(path, at)) == siblings_of(v, path),
        beside(path, at).last() == at,
        beside(path, at).len() == path.len(),
    decreases path.len(),
{
    let q = beside(path, at);
    if path.len() > 1 {
        assert(q.drop_first() =~= beside(path.drop_first(), at));
        lemma_beside(v[path[0] as int].children, path.drop_first(), at);
    }
}

proof fn lemma_before_beside(v: Seq<NodeView>, path: Seq<usize>, at: int, depth: int)
    requires
        node_at(v, path) is Some,
    ensures
        before(v, beside(path, at), depth) == before(v, path, depth),
        behind(v, beside(path, at), depth) == behind(v, path, depth),
    decreases path.len(),
{
    if path.len() > 1 {
        assert(beside(path, at).drop_first() =~= beside(path.drop_first(), at));
        lemma_before_beside(v[path[0] as int].children, path.drop_first(), at, depth + 1);
    }
}

/// Moving a block down is moving the sibling below it up.
pub proof fn law_moving_down_is_the_sibling_moving_up(v: Seq<NodeView>, path: Seq<usize>)
    requires
        node_at(v, path) is Some,
        path.last() + 1 < siblings_of(v, path).len() <= usize::MAX,
    ensures
        node_at(v, beside(path, path.last() + 1)) is Some,
        moved_down(v, path) == moved_up(v, beside(path, path.last() + 1)),
{
    let i = path.last() as int;
    let q = beside(path, i + 1);
    lemma_beside(v, path, i + 1);
    lemma_with_beside(v, path, i + 1, swapped(siblings_of(v, path), i));
}

proof fn lemma_with_beside(v: Seq<NodeView>, path: Seq<usize>, at: int, s: Seq<NodeView>)
    requires
        node_at(v, path) is Some,
    ensures
        with_siblings(v, beside(path, at), s) == with_siblings(v, path, s),
    decreases path.len(),
{
    if path.len() > 1 {
        assert(beside(path, at).drop_first() =~= beside(path.drop_first(), at));
        lemma_with_beside(v[path[0] as int].children, path.drop_first(), at, s);
    }
}

/// A list put in place of another is found there, and can be put in place
/// again.
proof fn lemma_written_siblings(
    v: Seq<NodeView>,
    path: Seq<usize>,
    s: Seq<NodeView>,
    t: Seq<NodeView>,
    at: int,
)
    requires
        node_at(v, path) is Some,
        0 <= at < s.len(),
        at <= usize::MAX,
    ensures
        node_at(with_siblings(v, path, s), beside(path, at)) == Some(s[at]),
        siblings_of(with_siblings(v, path, s), beside(path, at)) == s,
        with_siblings(with_siblings(v, path, s), beside(path, at), t) == with_siblings(v, path, t),
    decreases path.len(),
{
    let w = with_siblings(v, path, s);
    if path.len() > 1 {
        let i = path[0] as int;
        assert(beside(path, at).drop_first() =~= beside(path.drop_first(), at));
        lemma_written_siblings(v[i].children, path.drop_first(), s, t, at);
        assert(with_siblings(w, beside(path, at), t) =~= with_siblings(v, path, t));
    }
}

/// An outdented block stands right behind its former parent, with all that
/// was below it, and the parent has lost it and nothing else.
pub proof fn law_outdented_block_follows_its_parent(v: Seq<NodeView>, path: Seq<usize>)
    requires
        node_at(v, path) is Some,
        path.len() >= 2,
        path.drop_last().last() < usize::MAX,
    ensures
        ({
            let parent = path.drop_last();
            let place = beside(parent, parent.last() + 1);
            let w = outdented(v, path);
            &&& place.len() == path.len() - 1
            &&& node_at(w, place) == node_at(v, path)
            &&& node_at(w, parent) == Some(
                NodeView {
                    children: node_at(v, parent)->0.children.remove(path.last() as int),
                    ..node_at(v, parent)->0
                },
            )
        }),
{
    let parent = path.drop_last();
    lemma_parent(v, path);
    lemma_child(v, path);
    lemma_among_siblings(v, parent);
    let s = siblings_of(v, parent);
    let i = parent.last() as int;
    let t = unnested(s, i, path.last() as int);
    lemma_written_siblings(v, parent, t, t, i + 1);
    lemma_written_siblings(v, parent, t, t, i);
    assert(beside(parent, i) =~= parent);
}

/// An indented block is the last child of the sibling that was above it.
pub proof fn law_indented_block_is_the_last_child(v: Seq<NodeView>, path: Seq<usize>)
    requires
        node_at(v, path) is Some,
        path.last() > 0,
    ensures
        ({
            let above = beside(path, path.last() - 1);
            &&& node_at(v, above) is Some
            &&& node_at(indented(v, path), above) == Some(
                NodeView {
                    children: node_at(v, above)->0.children.push(node_at(v, path)->0),
                    ..node_at(v, above)->0
                },
            )
        }),
{
    lemma_among_siblings(v, path);
    let s = siblings_of(v, path);
    let i = path.last() as int;
    lemma_beside(v, path, i - 1);
    lemma_written_siblings(v, path, nested(s, i), s, i - 1);
}

proof fn lemma_node_below(v: Seq<NodeView>, path: Seq<usize>, j: usize)
    requires
        node_at(v, path) is Some,
        j < node_at(v, path)->0.children.len(),
    ensures
        node_at(v, path.push(j)) == Some(node_at(v, path)->0.children[j as int]),
    decreases path.len(),
{
    reveal_with_fuel(node_at, 3);
    if path.len() > 1 {
        lemma_node_below(v[path[0] as int].children, path.drop_first(), j);
        assert(path.push(j).drop_first() =~= path.drop_first().push(j));
    } else {
        assert(path.push(j).drop_first() =~= seq![j]);
    }
}

/// Outdenting undoes indenting.
pub proof fn law_outdent_undoes_indent(v: Seq<NodeView>, path: Seq<usize>, back: Seq<usize>)
    requires
        node_at(v, path) is Some,
        path.last() > 0,
        ({
            let above = beside(path, path.last() - 1);
            let j = node_at(v, above)->0.children.len();
            j <= usize::MAX && back == above.push(j as usize)
        }),
    ensures
        node_at(indented(v, path), back) == node_at(v, path),
        outdented(indented(v, path), back) == v,
{
    lemma_among_siblings(v, path);
    let s = siblings_of(v, path);
    let i = path.last() as int;
    let above = beside(path, i - 1);
    lemma_beside(v, path, i - 1);
    let t = nested(s, i);
    let w = indented(v, path);
    lemma_written_siblings(v, path, t, s, i - 1);
    let j = s[i - 1].children.len();
    lemma_node_below(w, above, j as usize);
    assert(back.drop_last() =~= above);
    assert(unnested(t, i - 1, j as int) =~= s) by {
        assert(t[i - 1].children.remove(j as int) =~= s[i - 1].children);
    }
    lemma_own_siblings(v, path);
}

/// The blocks that are not touched by writing a block anew read as before,
/// and stand as deep.
pub proof fn law_writing_a_block_changes_no_other(
    v: Seq<NodeView>,
    path: Seq<usize>,
    n: NodeView,
    depth: int,
)
    requires
        node_at(v, path) is Some,
        n.children == node_at(v, path)->0.children,
    ensures
        index_of(v, path) is Some,
        listed_all(replaced(v, path, n), depth) == listed_all(v, depth).update(
            index_of(v, path)->0,
            Entry { depth: depth + path.len() - 1, text: n.text, properties: n.properties },
        ),
{
    lemma_listed_block(v, path, depth);
    let s = siblings_of(v, path);
    let i = path.last() as int;
    let d = depth + path.len() - 1;
    let t = s.update(i, n);
    lemma_replaced_siblings(v, path, n);
    lemma_listed_siblings(v, path, t, depth);
    assert(t =~= s.take(i) + seq![n] + s.skip(i + 1));
    lemma_listed_around(s.take(i), n, s.skip(i + 1), d);
    let l = listed_all(v, depth);
    let k = index_of(v, path)->0;
    let m = preorder(s[i]).len() as int;
    assert(l =~= l.take(k) + l.subrange(k, k + m) + l.skip(k + m));
    assert(listed_all(replaced(v, path, n), depth) =~= l.update(
        k,
        Entry { depth: d, text: n.text, properties: n.properties },
    ));
}

proof fn lemma_replaced_siblings(v: Seq<NodeView>, path: Seq<usize>, n: NodeView)
    requires
        node_at(v, path) is Some,
    ensures
        replaced(v, path, n) == with_siblings(
            v,
            path,
            siblings_of(v, path).update(path.last() as int, n),
        ),
    decreases path.len(),
{
    if path.len() > 1 {
        lemma_replaced_siblings(v[path[0] as int].children, path.drop_first(), n);
        assert(path.drop_first().last() == path.last());
    }
}

/// How deep the blocks of a listing stand, all together.
pub open spec fn total_depth(l: Seq<Entry>) -> int
    decreases l.len(),
{
    if l.len() == 0 {
        0
    } else {
        total_depth(l.drop_last()) + l.last().depth
    }
}

proof fn lemma_total_add(a: Seq<Entry>, b: Seq<Entry>)
    ensures
        total_depth(a + b) == total_depth(a) + total_depth(b),
    decreases b.len(),
{
    if b.len() == 0 {
        assert(a + b =~= a);
    } else {
        assert((a + b).drop_last() =~= a + b.drop_last());
        lemma_total_add(a, b.drop_last());
    }
}

proof fn lemma_total_deeper(l: Seq<Entry>, by: int)
    ensures
        by == 1 ==> total_depth(deeper(l, by)) == total_depth(l) + l.len(),
        by == -1 ==> total_depth(deeper(l, by)) == total_depth(l) - l.len(),
    decreases l.len(),
{
    if l.len() > 0 {
        assert(deeper(l, by).drop_last() =~= deeper(l.drop_last(), by));
        lemma_total_deeper(l.drop_last(), by);
    }
}

/// Indenting adds one level for each block that it takes along, and outdenting
/// takes one away.
pub proof fn law_indents_and_outdents_count(v: Seq<NodeView>, path: Seq<usize>, depth: int)
    requires
        node_at(v, path) is Some,
    ensures
        ({
            let now = total_depth(listed_all(v, depth));
            let m = preorder(node_at(v, path)->0).len();
            &&& m > 0
            &&& total_depth(listed_all(indented(v, path), depth)) == now + (if path.last() > 0 {
                m as int
            } else {
                0
            })
            &&& total_depth(listed_all(outdented(v, path), depth)) == now - (if path.len() >= 2 {
                m as int
            } else {
                0
            })
        }),
{
    let l = listed_all(v, depth);
    let n = node_at(v, path)->0;
    let m = preorder(n).len() as int;
    lemma_listed_block(v, path, depth);
    let k = index_of(v, path)->0;
    let own = l.subrange(k, k + m);
    if path.last() > 0 {
        law_indenting_is_one_level_deeper(v, path, depth);
        assert(l =~= l.take(k) + own + l.skip(k + m));
        lemma_total_add(l.take(k) + own, l.skip(k + m));
        lemma_total_add(l.take(k), own);
        lemma_total_add(l.take(k) + deeper(own, 1), l.skip(k + m));
        lemma_total_add(l.take(k), deeper(own, 1));
        lemma_total_deeper(own, 1);
    }
    if path.len() >= 2 {
        law_outdenting_is_one_level_less_deep(v, path, depth);
        let parent = path.drop_last();
        let end = index_of(v, parent)->0 + preorder(node_at(v, parent)->0).len();
        let mid = l.subrange(k + m, end);
        assert(l =~= l.take(k) + own + mid + l.skip(end));
        lemma_total_add(l.take(k) + own + mid, l.skip(end));
        lemma_total_add(l.take(k) + own, mid);
        lemma_total_add(l.take(k), own);
        lemma_total_add(l.take(k) + mid + deeper(own, -1), l.skip(end));
        lemma_total_add(l.take(k) + mid, deeper(own, -1));
        lemma_total_add(l.take(k), mid);
        lemma_total_deeper(own, -1);
    }
}

} // verus!

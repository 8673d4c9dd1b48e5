//! Zooming into a block.
//!
//! While a block is zoomed into, only it and what is below it are drawn
//! and walked through. The zoom is a window on the page: the page itself
//! and the flat indices of its blocks stay what they are.

use crate::outline::{
    count, flat_count, index_for_path, index_of, law_every_block_has_a_path, lemma_index_in_range,
    node_at, node_at_path, path_at, path_for_index, NodeView, OutlineNode,
};
use crate::state::App;
use crate::text::{
    cat, chars_of, end_of_text, position_from, prefix, skip_white, string_range, texts, trim_of,
};
use vstd::prelude::*;

verus! {

/// Paths as values.
pub open spec fn paths_view(v: Seq<Vec<usize>>) -> Seq<Seq<usize>> {
    v.map_values(|p: Vec<usize>| p@)
}

/// The path of the block zoomed into.
pub open spec fn zoom_root(app: App) -> Option<Seq<usize>> {
    if app.zoom_stack@.len() > 0 {
        Some(app.zoom_stack@.last()@)
    } else {
        None
    }
}

/// The flat indices that are shown: the block zoomed into and all below it,
/// or the whole page when there is none.
pub open spec fn window(app: App) -> (int, int) {
    match zoom_root(app) {
        Some(p) => match (index_of(app.blocks(), p), node_at(app.blocks(), p)) {
            (Some(start), Some(n)) => (start, start + 1 + count(n.children)),
            _ => (0, app.flat_len as int),
        },
        None => (0, app.flat_len as int),
    }
}

/// The length of a label in the breadcrumb.
pub const CRUMB_MAX: usize = 24;

/// A text up to its first line break.
pub open spec fn first_line(s: Seq<char>) -> Seq<char>
    decreases s.len(),
{
    if s.len() == 0 || s[0] == '\n' {
        Seq::empty()
    } else {
        seq![s[0]] + first_line(s.drop_first())
    }
}

/// The label of a block in the breadcrumb: its first line, clipped.
pub open spec fn crumb(text: Seq<char>) -> Seq<char> {
    let line = trim_of(first_line(text));
    if line.len() == 0 {
        "·"@
    } else if line.len() > CRUMB_MAX {
        line.take(CRUMB_MAX as int) + "…"@
    } else {
        line
    }
}

/// The labels of the blocks at the first `d` prefixes of a path.
pub open spec fn crumbs(v: Seq<NodeView>, path: Seq<usize>, d: int) -> Seq<Seq<char>>
    decreases d,
{
    if d <= 0 {
        Seq::empty()
    } else {
        match node_at(v, path.take(d)) {
            Some(n) => crumbs(v, path, d - 1).push(crumb(n.text)),
            None => crumbs(v, path, d - 1),
        }
    }
}

/// The labels of the blocks on the way to the one zoomed into.
pub open spec fn zoom_crumbs(app: App) -> Seq<Seq<char>> {
    match zoom_root(app) {
        Some(p) => crumbs(app.blocks(), p, p.len() as int),
        None => Seq::empty(),
    }
}

/// Whether two paths are the same.
pub fn same_path(a: &Vec<usize>, b: &Vec<usize>) -> (r: bool)
    ensures
        r == (a@ == b@),
{
    if a.len() != b.len() {
        return false;
    }
    let mut i: usize = 0;
    while i < a.len()
        invariant
            i <= a@.len(),
            a@.len() == b@.len(),
            forall|j: int| 0 <= j < i ==> a@[j] == b@[j],
        decreases a@.len() - i,
    {
        if a[i] != b[i] {
            return false;
        }
        i += 1;
    }
    assert(a@ =~= b@);
    true
}

proof fn lemma_first_line(s: Seq<char>, k: int)
    requires
        0 <= k <= s.len(),
        forall|j: int| 0 <= j < k ==> s[j] != '\n',
        k < s.len() ==> s[k] == '\n',
    ensures
        first_line(s) == s.take(k),
    decreases s.len(),
{
    if k > 0 {
        lemma_first_line(s.drop_first(), k - 1);
        assert(s.take(k) =~= seq![s[0]] + s.drop_first().take(k - 1));
    } else {
        assert(s.take(k) =~= Seq::<char>::empty());
    }
}

/// The label of a block in the breadcrumb.
pub fn crumb_label(text: &str) -> (r: String)
    ensures
        r@ == crumb(text@),
{
    let chars = chars_of(text);
    let k: usize = position_from(&chars, 0, '\n');
    proof {
        lemma_first_line(text@, k as int);
    }
    let line = string_range(&chars, 0, k);
    assert(line@ =~= text@.take(k as int));
    let lc = chars_of(line.as_str());
    let lo: usize = skip_white(&lc);
    let hi: usize = end_of_text(&lc, lo);
    if lo == hi {
        "·".to_owned()
    } else if hi - lo > CRUMB_MAX {
        let head = string_range(&lc, lo, lo + CRUMB_MAX);
        assert(head@ =~= trim_of(first_line(text@)).take(CRUMB_MAX as int));
        cat(head.as_str(), "…")
    } else {
        string_range(&lc, lo, hi)
    }
}

/// `new` is `old` zoomed into the selected block, unless it is the one that
/// is zoomed into already.
pub open spec fn zoomed_in(old: App, new: App) -> bool {
    match path_at(old.blocks(), old.selected as int) {
        Some(p) if zoom_root(old) != Some(p) => {
            &&& new == (App {
                zoom_stack: new.zoom_stack,
                status: new.status,
                cursor_col: 0,
                ..old
            })
            &&& paths_view(new.zoom_stack@) == paths_view(old.zoom_stack@).push(p)
            &&& new.status@ == "zoomed in"@
        },
        _ => new == old,
    }
}

/// `new` is `old` zoomed out by a level: the cursor is on the block that is
/// then zoomed into, or on the first one of the page.
pub open spec fn zoomed_out(old: App, new: App) -> bool {
    if old.zoom_stack@.len() == 0 {
        new == old
    } else {
        &&& new == (App {
            zoom_stack: new.zoom_stack,
            status: new.status,
            selected: new.selected,
            cursor_col: 0,
            ..old
        })
        &&& paths_view(new.zoom_stack@) == paths_view(old.zoom_stack@).drop_last()
        &&& new.status@ == "zoomed out"@
        &&& new.selected == (match zoom_root(new) {
            Some(p) => match index_of(old.blocks(), p) {
                Some(i) => i,
                None => 0,
            },
            None => 0,
        })
    }
}

impl App {
    /// Zooms into the block under the cursor. A leaf is as good as any; the
    /// block already zoomed into is left alone.
    pub fn zoom_in_on_selected(&mut self)
        requires
            old(self).wf(),
        ensures
            zoomed_in(*old(self), *final(self)),
    {
        let path = match path_for_index(&self.page.blocks, self.selected) {
            Some(p) => p,
            None => {
                return;
            },
        };
        let depth: usize = self.zoom_stack.len();
        if depth > 0 && same_path(&self.zoom_stack[depth - 1], &path) {
            return;
        }
        let ghost before = self.zoom_stack@;
        self.zoom_stack.push(path);
        assert(paths_view(self.zoom_stack@) =~= paths_view(before).push(path@));
        if let Some(i) = self.zoom_root_index() {
            self.selected = i;
        }
        self.cursor_col = 0;
        self.status = "zoomed in".to_owned();
    }

    /// Zooms out by one level, onto the block that is then zoomed into or
    /// the top of the page.
    pub fn zoom_out(&mut self)
        requires
            old(self).wf(),
        ensures
            zoomed_out(*old(self), *final(self)),
    {
        let ghost before = self.zoom_stack@;
        if self.zoom_stack.len() == 0 {
            return;
        }
        self.zoom_stack.pop();
        assert(paths_view(self.zoom_stack@) =~= paths_view(before).drop_last());
        self.selected = match self.zoom_root_index() {
            Some(i) => i,
            None => 0,
        };
        self.cursor_col = 0;
        self.status = "zoomed out".to_owned();
    }

    /// The flat index of the block zoomed into, if there is one and it is
    /// still there.
    pub fn zoom_root_index(&self) -> (r: Option<usize>)
        requires
            self.wf(),
        ensures
            match zoom_root(*self) {
                Some(p) => match r {
                    Some(i) => index_of(self.blocks(), p) == Some(i as int),
                    None => index_of(self.blocks(), p) is None,
                },
                None => r is None,
            },
    {
        let depth: usize = self.zoom_stack.len();
        if depth == 0 {
            return None;
        }
        index_for_path(&self.page.blocks, &self.zoom_stack[depth - 1])
    }

    /// The block zoomed into and its flat index.
    pub fn zoom_root_node(&self) -> (r: Option<(&OutlineNode, usize)>)
        requires
            self.wf(),
        ensures
            match zoom_root(*self) {
                Some(p) => match r {
                    Some((n, i)) => node_at(self.blocks(), p) == Some(n@) && index_of(
                        self.blocks(),
                        p,
                    ) == Some(i as int),
                    None => node_at(self.blocks(), p) is None,
                },
                None => r is None,
            },
    {
        let depth: usize = self.zoom_stack.len();
        if depth == 0 {
            return None;
        }
        proof {
            lemma_index_in_range(self.blocks(), self.zoom_stack@.last()@);
        }
        let path = &self.zoom_stack[depth - 1];
        match node_at_path(&self.page.blocks, path) {
            Some(n) => match index_for_path(&self.page.blocks, path) {
                Some(i) => Some((n, i)),
                None => None,
            },
            None => None,
        }
    }

    /// The flat indices that are shown, from the first to behind the last.
    pub fn zoom_root_window(&self) -> (w: (usize, usize))
        requires
            self.wf(),
        ensures
            (w.0 as int, w.1 as int) == window(*self),
    {
        proof {
            if zoom_root(*self) is Some {
                let p = self.zoom_stack@.last()@;
                lemma_subtree_in_page(self.blocks(), p);
                lemma_index_in_range(self.blocks(), p);
            }
        }
        match self.zoom_root_node() {
            Some((node, start)) => {
                proof {
                    assert(node@.children == crate::outline::nodes_view(node.children@));
                }
                (start, start + 1 + flat_count(&node.children))
            },
            None => (0, self.flat_len),
        }
    }

    /// The labels of the blocks on the way to the one zoomed into, the
    /// outermost first.
    pub fn zoom_breadcrumb(&self) -> (r: Vec<String>)
        ensures
            texts(r@) == zoom_crumbs(*self),
    {
        let mut r: Vec<String> = Vec::new();
        let depth: usize = self.zoom_stack.len();
        assert(texts(r@) =~= Seq::empty());
        if depth == 0 {
            return r;
        }
        let path = &self.zoom_stack[depth - 1];
        let mut prefix: Vec<usize> = Vec::new();
        let mut d: usize = 0;
        while d < path.len()
            invariant
                d <= path@.len(),
                prefix@ == path@.take(d as int),
                texts(r@) == crumbs(self.blocks(), path@, d as int),
            decreases path@.len() - d,
        {
            prefix.push(path[d]);
            d += 1;
            assert(prefix@ =~= path@.take(d as int));
            if let Some(node) = node_at_path(&self.page.blocks, &prefix) {
                let label = crumb_label(node.text.as_str());
                let ghost before = r@;
                r.push(label);
                assert(texts(r@) =~= texts(before).push(label@));
            }
        }
        r
    }
}

/// A block and all below it lie within the page.
pub proof fn lemma_subtree_in_page(v: Seq<NodeView>, path: Seq<usize>)
    ensures
        index_of(v, path) matches Some(k) ==> node_at(v, path) matches Some(n) && k + 1 + count(
            n.children,
        ) <= count(v),
    decreases path.len(),
{
    lemma_index_in_range(v, path);
    if path.len() > 0 && path[0] < v.len() {
        let i = path[0] as int;
        crate::outline::lemma_count_take(v, i);
        crate::outline::lemma_count_mono(v, i + 1, i + 1);
        if path.len() > 1 {
            lemma_subtree_in_page(v[i].children, path.drop_first());
        }
    }
}

/// Zooming into a block shows it: the window starts at its flat index, and
/// the cursor stays on it.
pub proof fn law_zoom_shows_the_block(app: App, zoomed: App, p: Seq<usize>)
    requires
        app.wf(),
        path_at(app.blocks(), app.selected as int) == Some(p),
        zoomed.blocks() == app.blocks(),
        zoom_root(zoomed) == Some(p),
    ensures
        window(zoomed).0 == app.selected,
        window(zoomed).0 < window(zoomed).1 <= count(app.blocks()),
{
    law_every_block_has_a_path(app.blocks(), app.selected as int);
    lemma_subtree_in_page(app.blocks(), p);
}

/// Zooming in has the selected block as the root of what is shown, and
/// changes neither the page nor the selection; zooming out again leads to what
/// was shown before.
pub proof fn law_zooming_out_undoes_zooming_in(a: App, b: App, c: App)
    requires
        a.wf(),
        a.selected < count(a.blocks()),
        zoom_root(a) != path_at(a.blocks(), a.selected as int),
        zoomed_in(a, b),
        zoomed_out(b, c),
    ensures
        zoom_root(b) == path_at(a.blocks(), a.selected as int),
        b.page == a.page && b.selected == a.selected,
        window(b).0 == a.selected,
        b.zoom_stack@.len() == a.zoom_stack@.len() + 1,
        paths_view(c.zoom_stack@) == paths_view(a.zoom_stack@),
        c.page == a.page,
        window(c) == window(a),
        a.zoom_stack@.len() == 0 ==> c.selected == 0,
{
    law_every_block_has_a_path(a.blocks(), a.selected as int);
    let p = path_at(a.blocks(), a.selected as int)->0;
    assert(paths_view(b.zoom_stack@).last() == p);
    assert(b.zoom_stack@.last()@ == p);
    assert(paths_view(c.zoom_stack@) =~= paths_view(a.zoom_stack@));
    if a.zoom_stack@.len() > 0 {
        assert(paths_view(a.zoom_stack@).last() == a.zoom_stack@.last()@);
        assert(paths_view(c.zoom_stack@).last() == c.zoom_stack@.last()@);
    }
    law_zoom_shows_the_block(a, b, p);
}

/// Zooming out puts the cursor on the block that is then zoomed into, so that
/// it is in sight.
pub proof fn law_zooming_out_keeps_the_cursor_in_sight(a: App, b: App)
    requires
        a.zoom_stack@.len() > 0,
        zoomed_out(a, b),
        zoom_root(b) matches Some(p) ==> index_of(b.blocks(), p) is Some,
    ensures
        b.selected == window(b).0,
        b.cursor_col == 0,
        b.page == a.page,
{
    if let Some(p) = zoom_root(b) {
        lemma_index_in_range(b.blocks(), p);
    }
}

/// A label of the breadcrumb is short and in one line, and a short line is
/// its own label.
pub proof fn law_crumbs_are_short(text: Seq<char>)
    ensures
        1 <= crumb(text).len() <= CRUMB_MAX + 1,
        forall|j: int| 0 <= j < first_line(text).len() ==> #[trigger] first_line(text)[j] != '\n',
        first_line(text).len() <= text.len() && first_line(text) == text.take(
            first_line(text).len() as int,
        ),
        first_line(text).len() < text.len() ==> text[first_line(text).len() as int] == '\n',
        0 < trim_of(first_line(text)).len() <= CRUMB_MAX ==> crumb(text) == trim_of(
            first_line(text),
        ),
        trim_of(first_line(text)).len() > CRUMB_MAX ==> crumb(text).take(CRUMB_MAX as int)
            == trim_of(first_line(text)).take(CRUMB_MAX as int),
    decreases text.len(),
{
    reveal_strlit("·");
    reveal_strlit("…");
    lemma_first_line_is_prefix(text);
    let line = trim_of(first_line(text));
    if line.len() > CRUMB_MAX {
        assert(crumb(text).take(CRUMB_MAX as int) =~= line.take(CRUMB_MAX as int));
    }
}

proof fn lemma_first_line_is_prefix(s: Seq<char>)
    ensures
        forall|j: int| 0 <= j < first_line(s).len() ==> #[trigger] first_line(s)[j] != '\n',
        first_line(s).len() <= s.len() && first_line(s) == s.take(first_line(s).len() as int),
        first_line(s).len() < s.len() ==> s[first_line(s).len() as int] == '\n',
    decreases s.len(),
{
    if s.len() > 0 && s[0] != '\n' {
        lemma_first_line_is_prefix(s.drop_first());
        let r = first_line(s.drop_first());
        let l = first_line(s);
        assert(l =~= s.take(l.len() as int));
        assert forall|j: int| 0 <= j < l.len() implies #[trigger] l[j] != '\n' by {
            if j > 0 {
                assert(l[j] == r[j - 1]);
            }
        }
    } else {
        assert(first_line(s) =~= s.take(0));
    }
}

/// The breadcrumb has a label for each block on the way to the one zoomed
/// into, and ends with that one.
pub proof fn law_the_breadcrumb_leads_to_the_block(app: App)
    requires
        zoom_root(app) is Some,
        node_at(app.blocks(), zoom_root(app)->0) is Some,
    ensures
        zoom_crumbs(app).len() == zoom_root(app)->0.len(),
        zoom_crumbs(app).len() > 0,
        zoom_crumbs(app).last() == crumb(node_at(app.blocks(), zoom_root(app)->0)->0.text),
{
    let p = zoom_root(app)->0;
    assert(p.take(p.len() as int) =~= p);
    lemma_crumbs(app.blocks(), p, p.len() as int);
}

proof fn lemma_crumbs(v: Seq<NodeView>, p: Seq<usize>, d: int)
    requires
        node_at(v, p) is Some,
        0 <= d <= p.len(),
    ensures
        crumbs(v, p, d).len() == d,
        d > 0 ==> node_at(v, p.take(d)) is Some,
    decreases d,
{
    if d > 0 {
        lemma_crumbs(v, p, d - 1);
        lemma_prefix_is_there(v, p, d);
    }
}

proof fn lemma_prefix_is_there(v: Seq<NodeView>, p: Seq<usize>, d: int)
    requires
        node_at(v, p) is Some,
        0 < d <= p.len(),
    ensures
        node_at(v, p.take(d)) is Some,
    decreases p.len(),
{
    if d > 1 {
        lemma_prefix_is_there(v[p[0] as int].children, p.drop_first(), d - 1);
        assert(p.take(d).drop_first() =~= p.drop_first().take(d - 1));
    }
}

} // verus!

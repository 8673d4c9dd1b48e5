//! Properties of blocks and of the page, the pin, and the task state.

use crate::listing::{
    law_depth_is_the_length_of_the_path, law_listing_is_the_outline,
    law_writing_a_block_changes_no_other, listed_all, Entry,
};
use crate::outline::{
    count, law_every_block_has_a_path, law_replaced_block_is_found,
    law_replacing_by_itself_changes_nothing, lemma_path_at, node_at_path, node_at_path_mut, pair,
    pairs, path_at, path_for_index, preorder_all, replaced, NodeView,
};
use crate::state::{
    dirty_mark, edited, snapshot_of, snapshots_view, toasts_view, App, Focus, PageValue,
    PropertyScope, Screen, ToastKind, ToastValue, TOAST_MS,
};
use crate::text::{
    ascii_lower_all, cat3, cat4, eq_ignore_ascii_case, same_ignoring_case, same_text,
    to_ascii_lowercase, trim, trim_of,
};
use crate::todo::{cycle_todo_state, cycled};
use vstd::prelude::*;

verus! {

/// Two keys name one property: on a block whatever their case, on the page
/// only if they are the same.
pub open spec fn same_key(a: Seq<char>, b: Seq<char>, exact: bool) -> bool {
    if exact {
        a == b
    } else {
        same_ignoring_case(a, b)
    }
}

/// The first property with a key.
pub open spec fn first_with_key(
    props: Seq<(Seq<char>, Seq<char>)>,
    key: Seq<char>,
    exact: bool,
) -> Option<int>
    decreases props.len(),
{
    if props.len() == 0 {
        None
    } else {
        match first_with_key(props.drop_last(), key, exact) {
            Some(i) => Some(i),
            None => if same_key(props.last().0, key, exact) {
                Some(props.len() - 1)
            } else {
                None
            },
        }
    }
}

/// The value of a property.
pub open spec fn property(
    props: Seq<(Seq<char>, Seq<char>)>,
    key: Seq<char>,
    exact: bool,
) -> Option<Seq<char>> {
    match first_with_key(props, key, exact) {
        Some(i) => Some(props[i].1),
        None => None,
    }
}

/// The properties without those of a key.
pub open spec fn without_key(
    props: Seq<(Seq<char>, Seq<char>)>,
    key: Seq<char>,
    exact: bool,
) -> Seq<(Seq<char>, Seq<char>)>
    decreases props.len(),
{
    if props.len() == 0 {
        props
    } else if same_key(props.last().0, key, exact) {
        without_key(props.drop_last(), key, exact)
    } else {
        without_key(props.drop_last(), key, exact).push(props.last())
    }
}

/// The properties with a value set: in place of the first one with the key,
/// or behind all others. An empty value takes the property away.
pub open spec fn with_property(
    props: Seq<(Seq<char>, Seq<char>)>,
    key: Seq<char>,
    value: Seq<char>,
    exact: bool,
) -> Seq<(Seq<char>, Seq<char>)> {
    if value.len() == 0 {
        without_key(props, key, exact)
    } else {
        match first_with_key(props, key, exact) {
            Some(i) => props.update(i, (props[i].0, value)),
            None => props.push((key, value)),
        }
    }
}

fn key_matches(a: &str, b: &str, exact: bool) -> (r: bool)
    ensures
        r == same_key(a@, b@, exact),
{
    if exact {
        same_text(a, b)
    } else {
        eq_ignore_ascii_case(a, b)
    }
}

proof fn lemma_pairs_take(v: Seq<(String, String)>, i: int)
    requires
        0 <= i < v.len(),
    ensures
        pairs(v).take(i + 1).drop_last() == pairs(v).take(i),
        pairs(v).take(i + 1).last() == pair(v[i]),
        pairs(v)[i] == pair(v[i]),
{
    assert(pairs(v).take(i + 1).drop_last() =~= pairs(v).take(i));
}

proof fn lemma_first_with_key_stays(
    props: Seq<(Seq<char>, Seq<char>)>,
    key: Seq<char>,
    exact: bool,
    i: int,
)
    requires
        0 <= i <= props.len(),
        first_with_key(props.take(i), key, exact) is Some,
    ensures
        first_with_key(props, key, exact) == first_with_key(props.take(i), key, exact),
    decreases props.len() - i,
{
    if i == props.len() {
        assert(props.take(i) =~= props);
    } else {
        assert(props.take(i + 1).drop_last() =~= props.take(i));
        lemma_first_with_key_stays(props, key, exact, i + 1);
    }
}

/// The first property with a key.
pub fn find_key(v: &Vec<(String, String)>, key: &str, exact: bool) -> (r: Option<usize>)
    ensures
        match r {
            Some(i) => first_with_key(pairs(v@), key@, exact) == Some(i as int) && i < v@.len(),
            None => first_with_key(pairs(v@), key@, exact) is None,
        },
{
    let mut i: usize = 0;
    while i < v.len()
        invariant
            i <= v@.len(),
            first_with_key(pairs(v@).take(i as int), key@, exact) is None,
        decreases v@.len() - i,
    {
        proof {
            lemma_pairs_take(v@, i as int);
        }
        if key_matches(v[i].0.as_str(), key, exact) {
            proof {
                assert(first_with_key(pairs(v@).take(i + 1), key@, exact) == Some(i as int));
                lemma_first_with_key_stays(pairs(v@), key@, exact, i + 1);
            }
            return Some(i);
        }
        i += 1;
    }
    assert(pairs(v@).take(i as int) =~= pairs(v@));
    None
}

/// Takes away the properties of a key.
pub fn remove_key(v: &mut Vec<(String, String)>, key: &str, exact: bool)
    ensures
        pairs(final(v)@) == without_key(pairs(old(v)@), key@, exact),
{
    let mut out: Vec<(String, String)> = Vec::new();
    let mut i: usize = 0;
    assert(pairs(out@) =~= Seq::empty());
    while i < v.len()
        invariant
            i <= v@.len(),
            v@ == old(v)@,
            pairs(out@) == without_key(pairs(v@).take(i as int), key@, exact),
        decreases v@.len() - i,
    {
        proof {
            lemma_pairs_take(v@, i as int);
        }
        if !key_matches(v[i].0.as_str(), key, exact) {
            let p = (v[i].0.clone(), v[i].1.clone());
            let ghost before = out@;
            out.push(p);
            assert(pair(p) == pair(v@[i as int]));
            assert(pairs(out@) =~= pairs(before).push(pair(p)));
        }
        i += 1;
    }
    assert(pairs(v@).take(i as int) =~= pairs(v@));
    *v = out;
}

/// What setting a property did.
#[derive(Clone, Copy, PartialEq, Eq, Structural, Debug)]
pub enum PropertyChange {
    Removed,
    Replaced,
    Added,
}

/// What setting a property does.
pub open spec fn property_change(
    props: Seq<(Seq<char>, Seq<char>)>,
    key: Seq<char>,
    value: Seq<char>,
    exact: bool,
) -> PropertyChange {
    if value.len() == 0 {
        PropertyChange::Removed
    } else if first_with_key(props, key, exact) is Some {
        PropertyChange::Replaced
    } else {
        PropertyChange::Added
    }
}

/// Sets a property, or takes it away if the value is empty.
pub fn set_property(v: &mut Vec<(String, String)>, key: &str, value: &str, exact: bool) -> (r:
    PropertyChange)
    ensures
        pairs(final(v)@) == with_property(pairs(old(v)@), key@, value@, exact),
        r == property_change(pairs(old(v)@), key@, value@, exact),
{
    if value.is_empty() {
        remove_key(v, key, exact);
        return PropertyChange::Removed;
    }
    match find_key(v, key, exact) {
        Some(i) => {
            let p = (v[i].0.clone(), value.to_owned());
            v.set(i, p);
            assert(pairs(v@) =~= pairs(old(v)@).update(i as int, pair(p)));
            PropertyChange::Replaced
        },
        None => {
            let p = (key.to_owned(), value.to_owned());
            v.push(p);
            assert(pairs(v@) =~= pairs(old(v)@).push(pair(p)));
            PropertyChange::Added
        },
    }
}

/// What the status line says of a change to a block's property.
pub open spec fn change_status(
    c: PropertyChange,
    page: bool,
    key: Seq<char>,
    value: Seq<char>,
) -> Seq<char> {
    match c {
        PropertyChange::Removed => (if page {
            "removed page property `"@
        } else {
            "removed property `"@
        }) + key + "`"@,
        PropertyChange::Replaced => (if page {
            "set page "@
        } else {
            "set "@
        }) + key + " = "@ + value,
        PropertyChange::Added => (if page {
            "added page "@
        } else {
            "added "@
        }) + key + " = "@ + value,
    }
}

fn change_message(c: PropertyChange, page: bool, key: &str, value: &str) -> (r: String)
    ensures
        r@ == change_status(c, page, key@, value@),
{
    match c {
        PropertyChange::Removed => cat3(
            if page {
                "removed page property `"
            } else {
                "removed property `"
            },
            key,
            "`",
        ),
        PropertyChange::Replaced => cat4(
            if page {
                "set page "
            } else {
                "set "
            },
            key,
            " = ",
            value,
        ),
        PropertyChange::Added => cat4(
            if page {
                "added page "
            } else {
                "added "
            },
            key,
            " = ",
            value,
        ),
    }
}

/// The properties of the block under the cursor.
pub open spec fn block_properties(app: App) -> Seq<(Seq<char>, Seq<char>)> {
    if app.selected < count(app.blocks()) {
        preorder_all(app.blocks())[app.selected as int].properties
    } else {
        Seq::empty()
    }
}

/// The page with another block under the cursor.
pub open spec fn with_block(app: App, n: NodeView) -> PageValue {
    let v = app.blocks();
    PageValue {
        blocks: replaced(v, path_at(v, app.selected as int)->0, n),
        ..app.page@
    }
}

/// `new` has the page, the status line and the undo history of `old` after a
/// property of the block under the cursor, or of the page, was set there.
pub open spec fn property_written(
    old: App,
    new: App,
    scope: PropertyScope,
    key: Seq<char>,
    value: Seq<char>,
) -> bool {
    if scope == PropertyScope::Block && old.selected >= count(old.blocks()) {
        &&& new.page == old.page
        &&& new.undo == old.undo
        &&& new.redo == old.redo
        &&& new.dirty_since == old.dirty_since
        &&& new.status@ == "no block selected"@
    } else {
        let page = scope == PropertyScope::Page;
        let props = if page {
            old.page@.properties
        } else {
            block_properties(old)
        };
        &&& snapshots_view(new.undo@) == snapshots_view(old.undo@).push(snapshot_of(old))
        &&& new.redo@.len() == 0
        &&& new.dirty_since == Some(dirty_mark(old))
        &&& new.status@ == change_status(
            property_change(props, key, value, page),
            page,
            key,
            value,
        )
        &&& new.page@ == if page {
            PageValue { properties: with_property(props, key, value, true), ..old.page@ }
        } else {
            with_block(
                old,
                NodeView {
                    properties: with_property(props, key, value, false),
                    ..preorder_all(old.blocks())[old.selected as int]
                },
            )
        }
    }
}

/// The two differ at most in the page, the status line and the undo history.
pub open spec fn same_but_page(old: App, new: App) -> bool {
    new == App {
        page: new.page,
        status: new.status,
        undo: new.undo,
        redo: new.redo,
        dirty_since: new.dirty_since,
        ..old
    }
}

/// The values of a property that pin a page.
pub open spec fn truthy(value: Seq<char>) -> bool {
    let v = ascii_lower_all(trim_of(value));
    v == "true"@ || v == "yes"@ || v == "1"@ || v == "on"@
}

/// A page is pinned: some `pinned` property says so.
pub open spec fn pinned(props: Seq<(Seq<char>, Seq<char>)>) -> bool {
    exists|i: int|
        0 <= i < props.len() && #[trigger] props[i].0 == "pinned"@ && truthy(props[i].1)
}

fn is_truthy(value: &str) -> (r: bool)
    ensures
        r == truthy(value@),
{
    let t = trim(value);
    let v = to_ascii_lowercase(t.as_str());
    same_text(v.as_str(), "true") || same_text(v.as_str(), "yes") || same_text(v.as_str(), "1")
        || same_text(v.as_str(), "on")
}

fn is_pinned(v: &Vec<(String, String)>) -> (r: bool)
    ensures
        r == pinned(pairs(v@)),
{
    let mut i: usize = 0;
    while i < v.len()
        invariant
            i <= v@.len(),
            forall|j: int|
                0 <= j < i ==> !(#[trigger] pairs(v@)[j].0 == "pinned"@ && truthy(
                    pairs(v@)[j].1,
                )),
        decreases v@.len() - i,
    {
        assert(pairs(v@)[i as int] == pair(v@[i as int]));
        if same_text(v[i].0.as_str(), "pinned") && is_truthy(v[i].1.as_str()) {
            assert(pairs(v@)[i as int].0 == "pinned"@);
            return true;
        }
        i += 1;
    }
    false
}

/// The properties of a page after its pin was toggled.
pub open spec fn pin_toggled(props: Seq<(Seq<char>, Seq<char>)>) -> Seq<(Seq<char>, Seq<char>)> {
    if pinned(props) {
        without_key(props, "pinned"@, true)
    } else {
        without_key(props, "pinned"@, true).push(("pinned"@, "true"@))
    }
}

/// `new` is `old` with the block under the cursor in its next task state. A
/// block of the backlinks is left to whoever can write its page.
pub open spec fn todo_toggled(old: App, new: App, r: Option<(usize, Vec<usize>)>) -> bool {
    match old.focus {
        Focus::Backlink { idx, sub_path } => {
            &&& new == old
            &&& r matches Some((i, p)) && i == idx && p@ == sub_path@
        },
        Focus::Outline => {
            &&& r is None
            &&& if old.selected >= count(old.blocks()) {
                new == old
            } else {
                let n = preorder_all(old.blocks())[old.selected as int];
                &&& edited(old, new)
                &&& new == (App {
                    page: new.page,
                    undo: new.undo,
                    redo: new.redo,
                    dirty_since: new.dirty_since,
                    ..old
                })
                &&& new.page@ == with_block(old, NodeView { text: cycled(n.text), ..n })
            }
        },
    }
}

/// `new` is `old` after the pin was toggled. A journal cannot be pinned.
pub open spec fn pin_toggled_in(old: App, new: App) -> bool {
    if old.screen is Journal {
        &&& new == (App { toasts: new.toasts, ..old })
        &&& toasts_view(new.toasts@) == toasts_view(old.toasts@).push(
            ToastValue {
                kind: ToastKind::Warning,
                message: "can't pin a journal page"@,
                born_ms: old.now_ms,
                ttl_ms: TOAST_MS,
            },
        )
    } else {
        let was = pinned(old.page@.properties);
        &&& new == (App {
            page: new.page,
            undo: new.undo,
            redo: new.redo,
            dirty_since: Some(dirty_mark(old)),
            toasts: new.toasts,
            ..old
        })
        &&& snapshots_view(new.undo@) == snapshots_view(old.undo@).push(
            snapshot_of(old),
        )
        &&& new.redo@.len() == 0
        &&& new.page@ == (PageValue {
            properties: pin_toggled(old.page@.properties),
            ..old.page@
        })
        &&& toasts_view(new.toasts@) == toasts_view(old.toasts@).push(
            ToastValue {
                kind: if was {
                    ToastKind::Info
                } else {
                    ToastKind::Success
                },
                message: if was {
                    "unpinned"@
                } else {
                    "pinned"@
                },
                born_ms: old.now_ms,
                ttl_ms: TOAST_MS,
            },
        )
    }
}

impl App {
    /// Sets a property of the block under the cursor; an empty value takes
    /// it away. The key is matched whatever its case.
    pub fn set_property_on_current_block(&mut self, key: &str, value: &str)
        requires
            old(self).wf(),
        ensures
            property_written(*old(self), *final(self), PropertyScope::Block, key@, value@),
            same_but_page(*old(self), *final(self)),
            final(self).wf(),
    {
        let ghost v = self.blocks();
        proof {
            law_every_block_has_a_path(v, self.selected as int);
        }
        let path = match path_for_index(&self.page.blocks, self.selected) {
            Some(p) => p,
            None => {
                self.status = "no block selected".to_owned();
                return;
            },
        };
        self.snapshot_for_undo();
        proof {
            let n = preorder_all(v)[self.selected as int];
            law_replaced_block_is_found(
                v,
                path@,
                NodeView { properties: with_property(n.properties, key@, value@, false), ..n },
            );
        }
        if let Some(node) = node_at_path_mut(&mut self.page.blocks, &path) {
            let c = set_property(&mut node.properties, key, value, false);
            self.status = change_message(c, false, key, value);
        }
        self.save();
    }

    /// The value of a property of the block under the cursor. The key is
    /// matched whatever its case.
    pub fn property_on_current_block(&self, key: &str) -> (r: Option<String>)
        requires
            self.wf(),
        ensures
            match r {
                Some(v) => property(block_properties(*self), key@, false) == Some(v@),
                None => property(block_properties(*self), key@, false) is None,
            },
    {
        proof {
            law_every_block_has_a_path(self.blocks(), self.selected as int);
        }
        match path_for_index(&self.page.blocks, self.selected) {
            Some(path) => match node_at_path(&self.page.blocks, &path) {
                Some(node) => match find_key(&node.properties, key, false) {
                    Some(i) => {
                        assert(pairs(node.properties@)[i as int] == pair(
                            node.properties@[i as int],
                        ));
                        Some(node.properties[i].1.clone())
                    },
                    None => None,
                },
                None => None,
            },
            None => None,
        }
    }

    /// Sets a property of the page; an empty value takes it away. The key is
    /// matched exactly.
    pub fn set_property_on_page(&mut self, key: &str, value: &str)
        requires
            old(self).wf(),
        ensures
            property_written(*old(self), *final(self), PropertyScope::Page, key@, value@),
            same_but_page(*old(self), *final(self)),
            final(self).wf(),
    {
        self.snapshot_for_undo();
        let c = set_property(&mut self.page.properties, key, value, true);
        self.status = change_message(c, true, key, value);
        self.save();
    }

    /// Pins the page, or takes the pin away. A journal cannot be pinned.
    pub fn toggle_pinned(&mut self)
        requires
            old(self).wf(),
        ensures
            pin_toggled_in(*old(self), *final(self)),
            final(self).wf(),
    {
        if let Screen::Journal(_) = &self.screen {
            self.toast(ToastKind::Warning, "can't pin a journal page");
            return;
        }
        self.snapshot_for_undo();
        let was = is_pinned(&self.page.properties);
        remove_key(&mut self.page.properties, "pinned", true);
        if was {
            self.save();
            self.toast(ToastKind::Info, "unpinned");
        } else {
            let ghost before = self.page.properties@;
            let p = ("pinned".to_owned(), "true".to_owned());
            self.page.properties.push(p);
            assert(pairs(self.page.properties@) =~= pairs(before).push(pair(p)));
            self.save();
            self.toast(ToastKind::Success, "pinned");
        }
    }

    /// Gives the block under the cursor the next task state. In the
    /// backlinks the block is another page's: its place is returned, for
    /// the change to be made there.
    pub fn toggle_todo(&mut self) -> (r: Option<(usize, Vec<usize>)>)
        requires
            old(self).wf(),
        ensures
            todo_toggled(*old(self), *final(self), r),
            final(self).wf(),
    {
        if let Focus::Backlink { idx, sub_path } = &self.focus {
            let mut p: Vec<usize> = Vec::new();
            let mut i: usize = 0;
            while i < sub_path.len()
                invariant
                    i <= sub_path@.len(),
                    p@ == sub_path@.take(i as int),
                decreases sub_path@.len() - i,
            {
                p.push(sub_path[i]);
                i += 1;
                assert(p@ =~= sub_path@.take(i as int));
            }
            assert(p@ =~= sub_path@);
            return Some((*idx, p));
        }
        let ghost v = self.blocks();
        proof {
            law_every_block_has_a_path(v, self.selected as int);
        }
        let path = match path_for_index(&self.page.blocks, self.selected) {
            Some(p) => p,
            None => {
                return None;
            },
        };
        self.snapshot_for_undo();
        proof {
            let n = preorder_all(v)[self.selected as int];
            law_replaced_block_is_found(v, path@, NodeView { text: cycled(n.text), ..n });
        }
        if let Some(node) = node_at_path_mut(&mut self.page.blocks, &path) {
            node.text = cycle_todo_state(node.text.as_str());
        }
        self.save();
        None
    }
}

// ---------------------------------------------------------------------
// Laws
// ---------------------------------------------------------------------

proof fn lemma_first_with_key(
    props: Seq<(Seq<char>, Seq<char>)>,
    key: Seq<char>,
    exact: bool,
)
    ensures
        match first_with_key(props, key, exact) {
            Some(i) => 0 <= i < props.len() && same_key(props[i].0, key, exact) && forall|j: int|
                0 <= j < i ==> !same_key(#[trigger] props[j].0, key, exact),
            None => forall|j: int|
                0 <= j < props.len() ==> !same_key(#[trigger] props[j].0, key, exact),
        },
    decreases props.len(),
{
    if props.len() > 0 {
        let p = props.drop_last();
        lemma_first_with_key(p, key, exact);
        assert(forall|j: int| 0 <= j < p.len() ==> p[j] == props[j]);
    }
}

proof fn lemma_without_key(props: Seq<(Seq<char>, Seq<char>)>, key: Seq<char>, exact: bool)
    ensures
        first_with_key(without_key(props, key, exact), key, exact) is None,
        forall|k: Seq<char>|
            !#[trigger] same_key(k, key, exact) ==> property(
                without_key(props, key, exact),
                k,
                exact,
            ) == property(props, k, exact),
    decreases props.len(),
{
    if props.len() > 0 {
        let p = props.drop_last();
        let last = props.last();
        let w = without_key(p, key, exact);
        lemma_without_key(p, key, exact);
        if !same_key(last.0, key, exact) {
            assert(w.push(last).drop_last() =~= w);
            assert forall|k: Seq<char>| !#[trigger] same_key(k, key, exact) implies property(
                w.push(last),
                k,
                exact,
            ) == property(props, k, exact) by {
                lemma_first_with_key(w, k, exact);
                lemma_first_with_key(p, k, exact);
            }
        } else {
            assert forall|k: Seq<char>| !#[trigger] same_key(k, key, exact) implies property(
                w,
                k,
                exact,
            ) == property(props, k, exact) by {
                lemma_first_with_key(p, k, exact);
                assert(!same_key(last.0, k, exact));
            }
        }
    }
}

/// A property that was set is read back under its key, whatever the case
/// that the reader matches keys with.
pub proof fn law_set_property_is_read(
    props: Seq<(Seq<char>, Seq<char>)>,
    key: Seq<char>,
    value: Seq<char>,
    exact: bool,
    read: Seq<char>,
)
    requires
        value.len() > 0,
        same_key(read, key, exact),
    ensures
        property(with_property(props, key, value, exact), read, exact) == Some(value),
{
    let q = with_property(props, key, value, exact);
    lemma_first_with_key(props, key, exact);
    lemma_first_with_key(q, read, exact);
    match first_with_key(props, key, exact) {
        Some(i) => {
            assert(forall|j: int| 0 <= j < q.len() ==> q[j].0 == props[j].0);
            assert(same_key(q[i].0, read, exact));
        },
        None => {
            assert(same_key(q[props.len() as int].0, read, exact));
            assert(forall|j: int| 0 <= j < props.len() ==> q[j] == props[j]);
        },
    }
}

/// Setting an empty value takes the property away, however often it was there:
/// no pair with the key is left, and it is read under no spelling of the key.
pub proof fn law_empty_value_deletes(
    props: Seq<(Seq<char>, Seq<char>)>,
    key: Seq<char>,
    exact: bool,
)
    ensures
        ({
            let q = with_property(props, key, Seq::empty(), exact);
            &&& forall|j: int| 0 <= j < q.len() ==> !same_key(#[trigger] q[j].0, key, exact)
            &&& forall|read: Seq<char>| #[trigger]
                same_key(read, key, exact) ==> property(q, read, exact) is None
        }),
{
    let q = without_key(props, key, exact);
    lemma_without_key(props, key, exact);
    lemma_first_with_key(q, key, exact);
    assert forall|read: Seq<char>| #[trigger] same_key(read, key, exact) implies property(
        q,
        read,
        exact,
    ) is None by {
        lemma_first_with_key(q, read, exact);
    }
}

/// Setting a property adds a pair if and only if there was none with the key.
pub proof fn law_a_property_is_added_once(
    props: Seq<(Seq<char>, Seq<char>)>,
    key: Seq<char>,
    value: Seq<char>,
    exact: bool,
)
    requires
        value.len() > 0,
    ensures
        with_property(props, key, value, exact).len() == props.len() + if first_with_key(
            props,
            key,
            exact,
        ) is None {
            1int
        } else {
            0int
        },
        first_with_key(props, key, exact) is None <==> !exists|j: int|
            0 <= j < props.len() && same_key(#[trigger] props[j].0, key, exact),
{
    lemma_first_with_key(props, key, exact);
}

proof fn lemma_nothing_to_remove(
    props: Seq<(Seq<char>, Seq<char>)>,
    key: Seq<char>,
    exact: bool,
)
    requires
        first_with_key(props, key, exact) is None,
    ensures
        without_key(props, key, exact) == props,
    decreases props.len(),
{
    if props.len() > 0 {
        lemma_nothing_to_remove(props.drop_last(), key, exact);
        assert(props.drop_last().push(props.last()) =~= props);
    }
}

/// Setting a property twice is setting it once, and deleting it twice is
/// deleting it once.
pub proof fn law_setting_twice_is_setting_once(
    props: Seq<(Seq<char>, Seq<char>)>,
    key: Seq<char>,
    value: Seq<char>,
    exact: bool,
)
    ensures
        with_property(with_property(props, key, value, exact), key, value, exact)
            == with_property(props, key, value, exact),
{
    let q = with_property(props, key, value, exact);
    if value.len() == 0 {
        lemma_without_key(props, key, exact);
        lemma_nothing_to_remove(q, key, exact);
    } else {
        lemma_first_with_key(props, key, exact);
        lemma_first_with_key(q, key, exact);
        match first_with_key(props, key, exact) {
            Some(i) => {
                assert(forall|j: int| 0 <= j < q.len() ==> q[j].0 == props[j].0);
                assert(same_key(q[i].0, key, exact));
                assert(first_with_key(q, key, exact) == Some(i));
                assert(q.update(i, (q[i].0, value)) =~= q);
            },
            None => {
                let n = props.len() as int;
                assert(forall|j: int| 0 <= j < n ==> q[j] == props[j]);
                assert(same_key(q[n].0, key, exact));
                assert(first_with_key(q, key, exact) == Some(n));
                assert(q.update(n, (q[n].0, value)) =~= q);
            },
        }
    }
}

proof fn lemma_without_updated(
    props: Seq<(Seq<char>, Seq<char>)>,
    key: Seq<char>,
    exact: bool,
    i: int,
    p: (Seq<char>, Seq<char>),
)
    requires
        0 <= i < props.len(),
        same_key(props[i].0, key, exact),
        same_key(p.0, key, exact),
    ensures
        without_key(props.update(i, p), key, exact) == without_key(props, key, exact),
    decreases props.len(),
{
    let q = props.update(i, p);
    if i == props.len() - 1 {
        assert(q.drop_last() =~= props.drop_last());
    } else {
        assert(q.drop_last() =~= props.drop_last().update(i, p));
        lemma_without_updated(props.drop_last(), key, exact, i, p);
    }
}

/// The pairs with other keys keep their keys, their values and their order
/// when a property is set or deleted.
pub proof fn law_other_pairs_keep_their_order(
    props: Seq<(Seq<char>, Seq<char>)>,
    key: Seq<char>,
    value: Seq<char>,
    exact: bool,
)
    ensures
        without_key(with_property(props, key, value, exact), key, exact) == without_key(
            props,
            key,
            exact,
        ),
{
    let q = with_property(props, key, value, exact);
    if value.len() == 0 {
        lemma_without_key(props, key, exact);
        lemma_nothing_to_remove(q, key, exact);
    } else {
        lemma_first_with_key(props, key, exact);
        match first_with_key(props, key, exact) {
            Some(i) => {
                lemma_without_updated(props, key, exact, i, (props[i].0, value));
            },
            None => {
                assert(q.drop_last() =~= props);
            },
        }
    }
}

/// Setting or deleting a property leaves all others as they are.
pub proof fn law_other_properties_stay(
    props: Seq<(Seq<char>, Seq<char>)>,
    key: Seq<char>,
    value: Seq<char>,
    exact: bool,
    other: Seq<char>,
)
    requires
        !same_key(other, key, exact),
    ensures
        property(with_property(props, key, value, exact), other, exact) == property(
            props,
            other,
            exact,
        ),
{
    let q = with_property(props, key, value, exact);
    lemma_without_key(props, key, exact);
    lemma_first_with_key(props, key, exact);
    lemma_first_with_key(props, other, exact);
    lemma_first_with_key(q, other, exact);
    if value.len() > 0 {
        match first_with_key(props, key, exact) {
            Some(i) => {
                assert(forall|j: int| 0 <= j < q.len() ==> q[j].0 == props[j].0);
            },
            None => {
                assert(q.drop_last() =~= props);
            },
        }
    }
}

/// The block under the cursor has the properties that were written to it.
pub proof fn law_written_property_is_on_the_block(
    old: App,
    new: App,
    key: Seq<char>,
    value: Seq<char>,
)
    requires
        old.wf(),
        old.selected < count(old.blocks()),
        property_written(old, new, PropertyScope::Block, key, value),
        new.selected == old.selected,
    ensures
        block_properties(new) == with_property(block_properties(old), key, value, false),
        count(new.blocks()) == count(old.blocks()),
        path_at(new.blocks(), new.selected as int) == path_at(
            old.blocks(),
            old.selected as int,
        ),
{
    let v = old.blocks();
    let k = old.selected as int;
    law_every_block_has_a_path(v, k);
    let p = path_at(v, k)->0;
    let n = NodeView {
        properties: with_property(block_properties(old), key, value, false),
        ..preorder_all(v)[k]
    };
    law_replaced_block_is_found(v, p, n);
    let w = new.blocks();
    assert(w == replaced(v, p, n));
    law_every_block_has_a_path(w, k);
    lemma_path_at(w, p, k);
}

/// Writing a property again leaves the page as it is, wherever it was
/// written.
pub proof fn law_writing_a_property_again_changes_nothing(
    first: App,
    second: App,
    third: App,
    scope: PropertyScope,
    key: Seq<char>,
    value: Seq<char>,
)
    requires
        first.wf(),
        second.wf(),
        property_written(first, second, scope, key, value),
        same_but_page(first, second),
        property_written(second, third, scope, key, value),
    ensures
        third.page@ == second.page@,
{
    if scope == PropertyScope::Page {
        law_setting_twice_is_setting_once(first.page@.properties, key, value, true);
    } else if first.selected < count(first.blocks()) {
        let w = second.blocks();
        let k = second.selected as int;
        law_written_property_is_on_the_block(first, second, key, value);
        law_setting_twice_is_setting_once(block_properties(first), key, value, false);
        law_every_block_has_a_path(w, k);
        law_replacing_by_itself_changes_nothing(w, path_at(w, k)->0);
    }
}

/// Toggling the pin changes whether the page is pinned.
pub proof fn law_pin_toggles(props: Seq<(Seq<char>, Seq<char>)>)
    ensures
        pinned(pin_toggled(props)) == !pinned(props),
{
    let w = without_key(props, "pinned"@, true);
    lemma_without_key(props, "pinned"@, true);
    lemma_first_with_key(w, "pinned"@, true);
    if !pinned(props) {
        let q = pin_toggled(props);
        assert(q[w.len() as int].0 == "pinned"@);
        reveal_strlit("true");
        assert(trim_of("true"@) == "true"@) by {
            reveal_with_fuel(crate::text::trim_start_of, 2);
            reveal_with_fuel(crate::text::trim_end_of, 2);
        }
        assert(ascii_lower_all("true"@) =~= "true"@);
    }
}

/// Changing the task state writes the next state into the block under the
/// cursor and leaves every other block as it is, and the page as it was can be
/// had back.
pub proof fn law_toggling_a_task_touches_one_block(old: App, new: App)
    requires
        old.wf(),
        old.focus is Outline,
        old.selected < count(old.blocks()),
        todo_toggled(old, new, None),
    ensures
        ({
            let k = old.selected as int;
            let before = listed_all(old.blocks(), 0);
            let after = listed_all(new.blocks(), 0);
            &&& 0 <= k < before.len()
            &&& after == before.update(k, Entry { text: cycled(before[k].text), ..before[k] })
        }),
        new.page@.properties == old.page@.properties,
        new.selected == old.selected && new.cursor_col == old.cursor_col,
        new.undo@.len() > 0 && new.undo@.last()@.page == old.page@,
        new.dirty_since is Some,
{
    let v = old.blocks();
    let k = old.selected as int;
    let b = preorder_all(v)[k];
    let n = NodeView { text: cycled(b.text), ..b };
    law_every_block_has_a_path(v, k);
    let p = path_at(v, k)->0;
    law_listing_is_the_outline(v, 0);
    law_writing_a_block_changes_no_other(v, p, n, 0);
    law_depth_is_the_length_of_the_path(v, p, 0);
    let u = snapshots_view(new.undo@);
    assert(u.last() == snapshot_of(old));
    assert(u.last() == new.undo@.last()@);
}

/// Writing a property of a block touches no other block, and no text.
pub proof fn law_writing_a_property_touches_one_block(
    old: App,
    new: App,
    key: Seq<char>,
    value: Seq<char>,
)
    requires
        old.wf(),
        old.selected < count(old.blocks()),
        property_written(old, new, PropertyScope::Block, key, value),
    ensures
        ({
            let k = old.selected as int;
            let before = listed_all(old.blocks(), 0);
            let after = listed_all(new.blocks(), 0);
            &&& 0 <= k < before.len() && after.len() == before.len()
            &&& after[k].text == before[k].text && after[k].depth == before[k].depth
            &&& forall|j: int|
                #![trigger after[j]]
                0 <= j < before.len() && j != k ==> after[j] == before[j]
        }),
        new.page@.properties == old.page@.properties,
        new.undo@.len() > 0 && new.undo@.last()@.page == old.page@,
{
    let v = old.blocks();
    let k = old.selected as int;
    let b = preorder_all(v)[k];
    let n = NodeView {
        properties: with_property(block_properties(old), key, value, false),
        ..b
    };
    law_every_block_has_a_path(v, k);
    let p = path_at(v, k)->0;
    law_listing_is_the_outline(v, 0);
    law_writing_a_block_changes_no_other(v, p, n, 0);
    law_depth_is_the_length_of_the_path(v, p, 0);
    let u = snapshots_view(new.undo@);
    assert(u.last() == snapshot_of(old));
    assert(u.last() == new.undo@.last()@);
}

/// Writing a property of the page leaves the blocks as they are.
pub proof fn law_page_properties_touch_no_block(
    old: App,
    new: App,
    key: Seq<char>,
    value: Seq<char>,
)
    requires
        property_written(old, new, PropertyScope::Page, key, value),
    ensures
        new.blocks() == old.blocks(),
        value.len() > 0 ==> property(new.page@.properties, key, true) == Some(value),
        value.len() == 0 ==> property(new.page@.properties, key, true) is None,
        new.undo@.len() > 0 && new.undo@.last()@.page == old.page@,
{
    let props = old.page@.properties;
    if value.len() > 0 {
        law_set_property_is_read(props, key, value, true, key);
    } else {
        law_empty_value_deletes(props, key, true);
        assert(value =~= Seq::empty());
        assert(same_key(key, key, true));
    }
    let u = snapshots_view(new.undo@);
    assert(u.last() == snapshot_of(old));
    assert(u.last() == new.undo@.last()@);
}

/// What is said of a property that was written tells whether it was there.
pub proof fn law_the_change_is_named(
    props: Seq<(Seq<char>, Seq<char>)>,
    key: Seq<char>,
    value: Seq<char>,
    exact: bool,
)
    ensures
        property_change(props, key, value, exact) is Removed <==> value.len() == 0,
        property_change(props, key, value, exact) is Added <==> value.len() > 0 && !exists|j: int|
            0 <= j < props.len() && same_key(#[trigger] props[j].0, key, exact),
{
    lemma_first_with_key(props, key, exact);
}

/// The first property with a key has that key, and none before it has; its
/// value is the value of the property.
pub proof fn law_the_first_with_a_key_has_it(
    props: Seq<(Seq<char>, Seq<char>)>,
    key: Seq<char>,
    exact: bool,
)
    ensures
        match first_with_key(props, key, exact) {
            Some(i) => {
                &&& 0 <= i < props.len()
                &&& same_key(props[i].0, key, exact)
                &&& forall|j: int| 0 <= j < i ==> !same_key(#[trigger] props[j].0, key, exact)
                &&& property(props, key, exact) == Some(props[i].1)
            },
            None => property(props, key, exact) is None && forall|j: int|
                0 <= j < props.len() ==> !same_key(#[trigger] props[j].0, key, exact),
        },
{
    lemma_first_with_key(props, key, exact);
}

/// Pinning a page is undone by pinning it again, touches none of its blocks and
/// can be taken back; a journal is not pinned.
pub proof fn law_pages_are_pinned_and_journals_are_not(old: App, new: App)
    requires
        pin_toggled_in(old, new),
    ensures
        old.screen is Journal ==> new.page == old.page && new.undo == old.undo,
        old.screen is Page ==> pinned(new.page@.properties) == !pinned(old.page@.properties)
            && new.page@.blocks == old.page@.blocks && new.undo@.len() == old.undo@.len() + 1
            && new.undo@.last()@.page == old.page@,
        new.toasts@.len() == old.toasts@.len() + 1,
{
    assert(toasts_view(new.toasts@).len() == toasts_view(old.toasts@).len() + 1);
    if old.screen is Page {
        law_pin_toggles(old.page@.properties);
        let a = snapshots_view(new.undo@);
        assert(a.len() == snapshots_view(old.undo@).len() + 1);
        assert(a[a.len() - 1] == snapshot_of(old));
        assert(a[a.len() - 1] == new.undo@[new.undo@.len() - 1]@);
    }
}

/// What counts as yes does so in either case of letters, with blanks around
/// it.
pub proof fn law_what_counts_as_yes(value: Seq<char>)
    ensures
        truthy(value) <==> (ascii_lower_all(trim_of(value)) == "true"@ || ascii_lower_all(
            trim_of(value),
        ) == "yes"@ || ascii_lower_all(trim_of(value)) == "1"@ || ascii_lower_all(trim_of(value))
            == "on"@),
        pinned(seq![("pinned"@, value)]) == truthy(value),
        !pinned(Seq::empty()),
{
    let v = seq![("pinned"@, value)];
    assert(v[0].0 == "pinned"@);
}

} // verus!

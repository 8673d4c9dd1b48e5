//! Pages nested below the page shown. Looking them up is slow, so they are
//! remembered until something changes.

use crate::state::{App, NamespaceChild, NamespaceRows};
use crate::text::{opt_text, same_text};
use vstd::prelude::*;

verus! {

/// A nested page as a value.
pub ghost struct ChildValue {
    pub depth: int,
    pub label: Seq<char>,
    pub icon: Option<Seq<char>>,
}

impl View for NamespaceChild {
    type V = ChildValue;

    open spec fn view(&self) -> ChildValue {
        ChildValue {
            depth: self.depth as int,
            label: self.label@,
            icon: opt_text(self.icon),
        }
    }
}

/// Nested pages as values.
pub open spec fn children_view(v: Seq<NamespaceChild>) -> Seq<ChildValue> {
    v.map_values(|c: NamespaceChild| c@)
}

/// The nested pages that are remembered for a slug.
pub open spec fn remembered(app: App, slug: Seq<char>) -> Option<Seq<ChildValue>> {
    match app.namespace_children {
        Some(n) => if n.slug@ == slug {
            Some(children_view(n.rows@))
        } else {
            None
        },
        None => None,
    }
}

/// A copy of nested pages.
pub fn copy_children(v: &Vec<NamespaceChild>) -> (c: Vec<NamespaceChild>)
    ensures
        children_view(c@) == children_view(v@),
{
    let mut c: Vec<NamespaceChild> = Vec::new();
    let mut i: usize = 0;
    assert(children_view(c@) =~= children_view(v@).take(0));
    while i < v.len()
        invariant
            i <= v@.len(),
            children_view(c@) == children_view(v@).take(i as int),
        decreases v@.len() - i,
    {
        let icon = match &v[i].icon {
            Some(s) => Some(s.clone()),
            None => None,
        };
        let x = NamespaceChild { depth: v[i].depth, label: v[i].label.clone(), icon };
        let ghost was = c@;
        c.push(x);
        assert(x@ == children_view(v@)[i as int]);
        assert(children_view(c@) =~= children_view(was).push(x@));
        i += 1;
        assert(children_view(c@) =~= children_view(v@).take(i as int));
    }
    assert(children_view(v@).take(i as int) =~= children_view(v@));
    c
}

impl App {
    /// The nested pages that are remembered for a slug; where there are none,
    /// they have to be looked up.
    pub fn namespace_children_for(&self, slug: &str) -> (r: Option<Vec<NamespaceChild>>)
        ensures
            match r {
                Some(v) => remembered(*self, slug@) == Some(children_view(v@)),
                None => remembered(*self, slug@) is None,
            },
    {
        match &self.namespace_children {
            Some(n) => {
                if same_text(n.slug.as_str(), slug) {
                    Some(copy_children(&n.rows))
                } else {
                    None
                }
            },
            None => None,
        }
    }

    /// Remembers the nested pages of a slug.
    pub fn remember_namespace_children(&mut self, slug: &str, rows: &Vec<NamespaceChild>)
        ensures
            *final(self) == (App {
                namespace_children: final(self).namespace_children,
                ..*old(self)
            }),
            remembered(*final(self), slug@) == Some(children_view(rows@)),
            forall|other: Seq<char>| other != slug@ ==> #[trigger] remembered(*final(self), other)
                is None,
    {
        self.namespace_children =
        Some(NamespaceRows { slug: slug.to_owned(), rows: copy_children(rows) });
    }

    /// Forgets the nested pages: a page, or its title, has changed.
    pub fn invalidate_namespace_children(&mut self)
        ensures
            *final(self) == (App { namespace_children: None, ..*old(self) }),
            forall|slug: Seq<char>| #[trigger] remembered(*final(self), slug) is None,
    {
        self.namespace_children = None;
    }
}

} // verus!

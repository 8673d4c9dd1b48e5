//! The order in which the command palette lists commands.

use crate::state::SlashCommand;
use crate::text::{matches_at, same_text, starts_with};
use vstd::prelude::*;

verus! {

/// A group of commands.
#[derive(Clone, Copy, PartialEq, Eq, Structural, Debug)]
pub enum Category {
    Actions,
    Navigation,
    Search,
    Settings,
    Dates,
}

/// The title of a group.
pub open spec fn category_title(c: Category) -> &'static str {
    match c {
        Category::Actions => "Actions",
        Category::Navigation => "Navigation",
        Category::Search => "Search",
        Category::Settings => "Settings",
        Category::Dates => "Dates & time",
    }
}

/// The group of a command, by its name.
pub open spec fn category_of(n: Seq<char>) -> Category {
    if matches_at(n, "date"@, 0) || matches_at(n, "time"@, 0) || matches_at(n, "iso"@, 0)
        || matches_at(n, "week"@, 0) || n == "stamp"@ || n == "dt"@ || n == "dtm"@ || n
        == "dy"@ {
        Category::Dates
    } else if n == "search"@ || n == "find"@ {
        Category::Search
    } else if n == "theme"@ || n == "set"@ || n == "config"@ {
        Category::Settings
    } else if n == "open"@ || n == "switch"@ || n == "quit"@ || n == "q"@ {
        Category::Navigation
    } else {
        Category::Actions
    }
}

/// The place of a group: what is used most comes first, and the long list of
/// dates last.
pub open spec fn category_rank(c: Category) -> int {
    match c {
        Category::Actions => 0,
        Category::Navigation => 1,
        Category::Search => 2,
        Category::Settings => 3,
        Category::Dates => 4,
    }
}

impl Category {
    /// The title of a group.
    pub fn title(self) -> (t: &'static str)
        ensures
            t == category_title(self),
    {
        match self {
            Category::Actions => "Actions",
            Category::Navigation => "Navigation",
            Category::Search => "Search",
            Category::Settings => "Settings",
            Category::Dates => "Dates & time",
        }
    }
}

/// The group of a command, by its name.
pub fn category_for(n: &str) -> (c: Category)
    ensures
        c == category_of(n@),
{
    if starts_with(n, "date") || starts_with(n, "time") || starts_with(n, "iso") || starts_with(
        n,
        "week",
    ) || same_text(n, "stamp") || same_text(n, "dt") || same_text(n, "dtm") || same_text(n, "dy") {
        Category::Dates
    } else if same_text(n, "search") || same_text(n, "find") {
        Category::Search
    } else if same_text(n, "theme") || same_text(n, "set") || same_text(n, "config") {
        Category::Settings
    } else if same_text(n, "open") || same_text(n, "switch") || same_text(n, "quit") || same_text(
        n,
        "q",
    ) {
        Category::Navigation
    } else {
        Category::Actions
    }
}

/// The place of a group.
pub fn category_order(c: Category) -> (r: u8)
    ensures
        r == category_rank(c),
{
    match c {
        Category::Actions => 0,
        Category::Navigation => 1,
        Category::Search => 2,
        Category::Settings => 3,
        Category::Dates => 4,
    }
}

/// The groups of a list of commands.
pub open spec fn categories(v: Seq<SlashCommand>) -> Seq<Category> {
    v.map_values(|c: SlashCommand| category_of(c.name@))
}

/// The places in a list at which a group stands.
pub open spec fn places(cats: Seq<Category>, c: Category) -> Seq<usize>
    decreases cats.len(),
{
    if cats.len() == 0 {
        Seq::empty()
    } else {
        let r = places(cats.drop_last(), c);
        if cats.last() == c {
            r.push((cats.len() - 1) as usize)
        } else {
            r
        }
    }
}

/// The places of a list in the order in which they are shown: group by
/// group, and in each group as the list has them.
pub open spec fn shown_order(cats: Seq<Category>) -> Seq<usize> {
    places(cats, Category::Actions) + places(cats, Category::Navigation) + places(
        cats,
        Category::Search,
    ) + places(cats, Category::Settings) + places(cats, Category::Dates)
}

fn push_places(v: &[SlashCommand], c: Category, out: &mut Vec<usize>)
    ensures
        final(out)@ == old(out)@ + places(categories(v@), c),
{
    let ghost cats = categories(v@);
    let ghost before = out@;
    let mut i: usize = 0;
    assert(before + places(cats.take(0), c) =~= before);
    while i < v.len()
        invariant
            i <= v@.len(),
            cats == categories(v@),
            out@ == before + places(cats.take(i as int), c),
        decreases v@.len() - i,
    {
        assert(cats.take(i + 1).drop_last() =~= cats.take(i as int));
        assert(cats.take(i + 1).last() == category_of(v@[i as int].name@));
        if category_for(v[i].name.as_str()) == c {
            out.push(i);
        }
        i += 1;
        assert(out@ =~= before + places(cats.take(i as int), c));
    }
    assert(cats.take(i as int) =~= cats);
}

/// The places of the candidates in the order in which they are shown.
pub fn visual_order(candidates: &[SlashCommand]) -> (order: Vec<usize>)
    ensures
        order@ == shown_order(categories(candidates@)),
{
    let mut order: Vec<usize> = Vec::new();
    push_places(candidates, Category::Actions, &mut order);
    push_places(candidates, Category::Navigation, &mut order);
    push_places(candidates, Category::Search, &mut order);
    push_places(candidates, Category::Settings, &mut order);
    push_places(candidates, Category::Dates, &mut order);
    assert(order@ =~= shown_order(categories(candidates@)));
    order
}

// ---------------------------------------------------------------------
// Walking the palette
// ---------------------------------------------------------------------

/// The place of `x` in a list, or its length.
pub open spec fn place_in(order: Seq<usize>, x: usize) -> int
    decreases order.len(),
{
    if order.len() == 0 || order[0] == x {
        0
    } else {
        1 + place_in(order.drop_first(), x)
    }
}

/// The next row down from a selected one, in the order shown; the last stays.
pub open spec fn next_shown_row(order: Seq<usize>, selected: usize) -> usize {
    let p = place_in(order, selected);
    if p + 1 < order.len() {
        order[p + 1]
    } else {
        selected
    }
}

/// The next row up from a selected one, in the order shown; the first stays.
pub open spec fn prev_shown_row(order: Seq<usize>, selected: usize) -> usize {
    let p = place_in(order, selected);
    if 0 < p < order.len() {
        order[p - 1]
    } else {
        selected
    }
}

proof fn lemma_place_in(order: Seq<usize>, x: usize, i: int)
    requires
        0 <= i <= order.len(),
        forall|j: int| 0 <= j < i ==> order[j] != x,
        i < order.len() ==> order[i] == x,
    ensures
        place_in(order, x) == i,
    decreases order.len(),
{
    if i > 0 {
        let t = order.drop_first();
        assert forall|j: int| 0 <= j < i - 1 implies t[j] != x by {
            assert(t[j] == order[j + 1]);
        }
        lemma_place_in(t, x, i - 1);
    }
}

fn find_place(order: &Vec<usize>, x: usize) -> (i: usize)
    ensures
        i == place_in(order@, x),
        i <= order@.len(),
{
    let mut i: usize = 0;
    while i < order.len() && order[i] != x
        invariant
            i <= order@.len(),
            forall|j: int| 0 <= j < i ==> order@[j] != x,
        decreases order@.len() - i,
    {
        i += 1;
    }
    proof {
        lemma_place_in(order@, x, i as int);
    }
    i
}

/// The next row down from the selected one.
pub fn row_below(candidates: &[SlashCommand], selected: usize) -> (r: usize)
    ensures
        r == next_shown_row(shown_order(categories(candidates@)), selected),
{
    let order = visual_order(candidates);
    let p: usize = find_place(&order, selected);
    if p < order.len() && p + 1 < order.len() {
        order[p + 1]
    } else {
        selected
    }
}

/// The next row up from the selected one.
pub fn row_above(candidates: &[SlashCommand], selected: usize) -> (r: usize)
    ensures
        r == prev_shown_row(shown_order(categories(candidates@)), selected),
{
    let order = visual_order(candidates);
    let p: usize = find_place(&order, selected);
    if 0 < p && p < order.len() {
        order[p - 1]
    } else {
        selected
    }
}

// ---------------------------------------------------------------------
// Laws
// ---------------------------------------------------------------------

proof fn lemma_places(cats: Seq<Category>, c: Category)
    requires
        cats.len() <= usize::MAX,
    ensures
        forall|i: int|
            0 <= i < places(cats, c).len() ==> (#[trigger] places(cats, c)[i]) < cats.len()
                && cats[places(cats, c)[i] as int] == c,
        forall|i: int, j: int|
            0 <= i < j < places(cats, c).len() ==> (#[trigger] places(cats, c)[i])
                < #[trigger] places(cats, c)[j],
        forall|k: int|
            0 <= k < cats.len() && #[trigger] cats[k] == c ==> places(cats, c).contains(
                k as usize,
            ),
    decreases cats.len(),
{
    if cats.len() > 0 {
        let d = cats.drop_last();
        lemma_places(d, c);
        let p = places(d, c);
        let q = places(cats, c);
        assert forall|i: int| 0 <= i < q.len() implies (#[trigger] q[i]) < cats.len()
            && cats[q[i] as int] == c by {
            if i < p.len() {
                assert(q[i] == p[i]);
                assert(d[p[i] as int] == cats[p[i] as int]);
            }
        }
        assert forall|i: int, j: int| 0 <= i < j < q.len() implies (#[trigger] q[i])
            < #[trigger] q[j] by {
            assert(q[i] == p[i]);
            if j < p.len() {
                assert(q[j] == p[j]);
            }
        }
        assert forall|k: int| 0 <= k < cats.len() && #[trigger] cats[k] == c implies q.contains(
            k as usize,
        ) by {
            if k < d.len() {
                assert(d[k] == c);
                let m = choose|m: int| 0 <= m < p.len() && p[m] == k as usize;
                assert(q[m] == k as usize);
            } else {
                assert(q[q.len() - 1] == k as usize);
            }
        }
    }
}

/// Every candidate is shown, in its group: groups follow one another by
/// their rank, and each group keeps the order of the list.
pub proof fn law_palette_is_grouped(cats: Seq<Category>)
    requires
        cats.len() <= usize::MAX,
    ensures
        forall|k: int|
            0 <= k < cats.len() ==> shown_order(cats).contains(#[trigger] (k as usize)),
        forall|i: int|
            0 <= i < shown_order(cats).len() ==> (#[trigger] shown_order(cats)[i]) < cats.len(),
        forall|i: int, j: int|
            0 <= i < j < shown_order(cats).len() ==> {
                let a = #[trigger] shown_order(cats)[i];
                let b = #[trigger] shown_order(cats)[j];
                let ra = category_rank(cats[a as int]);
                let rb = category_rank(cats[b as int]);
                ra < rb || (ra == rb && a < b)
            },
{
    lemma_places(cats, Category::Actions);
    lemma_places(cats, Category::Navigation);
    lemma_places(cats, Category::Search);
    lemma_places(cats, Category::Settings);
    lemma_places(cats, Category::Dates);
    let p0 = places(cats, Category::Actions);
    let p1 = places(cats, Category::Navigation);
    let p2 = places(cats, Category::Search);
    let p3 = places(cats, Category::Settings);
    let p4 = places(cats, Category::Dates);
    let n1 = p0.len();
    let n2 = n1 + p1.len();
    let n3 = n2 + p2.len();
    let n4 = n3 + p3.len();
    let s = shown_order(cats);
    assert forall|i: int| 0 <= i < s.len() implies #[trigger] s[i] == (if i < n1 {
        p0[i]
    } else if i < n2 {
        p1[i - n1]
    } else if i < n3 {
        p2[i - n2]
    } else if i < n4 {
        p3[i - n3]
    } else {
        p4[i - n4]
    }) by {}
    assert forall|k: int| 0 <= k < cats.len() implies s.contains(#[trigger] (k as usize)) by {
        let c = cats[k];
        let p = places(cats, c);
        let m = choose|m: int| 0 <= m < p.len() && p[m] == k as usize;
        assert(p.contains(k as usize));
        match c {
            Category::Actions => assert(s[m] == k as usize),
            Category::Navigation => assert(s[n1 + m] == k as usize),
            Category::Search => assert(s[n2 + m] == k as usize),
            Category::Settings => assert(s[n3 + m] == k as usize),
            Category::Dates => assert(s[n4 + m] == k as usize),
        }
    }
}

/// A step on in the palette is undone by a step back, and each goes to the row
/// beside the selected one.
pub proof fn law_the_palette_steps_both_ways(order: Seq<usize>, i: int)
    requires
        order.no_duplicates(),
        0 <= i < order.len(),
    ensures
        i + 1 < order.len() ==> next_shown_row(order, order[i]) == order[i + 1] && prev_shown_row(
            order,
            order[i + 1],
        ) == order[i],
        i + 1 == order.len() ==> next_shown_row(order, order[i]) == order[i],
        i == 0 ==> prev_shown_row(order, order[i]) == order[i],
{
    lemma_place_in(order, order[i], i);
    if i + 1 < order.len() {
        lemma_place_in(order, order[i + 1], i + 1);
    }
}

/// Commands for dates and times stand in their group, whatever follows the word
/// they begin with.
pub proof fn law_dates_stand_together(rest: Seq<char>)
    ensures
        category_of("date"@ + rest) == Category::Dates,
        category_of("time"@ + rest) == Category::Dates,
        category_of("week"@ + rest) == Category::Dates,
        category_of("iso"@ + rest) == Category::Dates,
{
    assert(("date"@ + rest).subrange(0, "date"@.len() as int) =~= "date"@);
    assert(("time"@ + rest).subrange(0, "time"@.len() as int) =~= "time"@);
    assert(("week"@ + rest).subrange(0, "week"@.len() as int) =~= "week"@);
    assert(("iso"@ + rest).subrange(0, "iso"@.len() as int) =~= "iso"@);
    assert(matches_at("date"@ + rest, "date"@, 0));
    assert(matches_at("time"@ + rest, "time"@, 0));
    assert(matches_at("week"@ + rest, "week"@, 0));
    assert(matches_at("iso"@ + rest, "iso"@, 0));
}

} // verus!

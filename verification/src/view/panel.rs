//! Panels: what is painted, and where.

use crate::style::{lemma_lines_push, lines_view, no_style, Line, Rect, Span, SpanView, Style};
use vstd::prelude::*;

verus! {

/// A share of an area.
#[derive(Clone, Copy, PartialEq, Eq, Structural, Debug)]
pub enum Part {
    Length(u16),
    Min(u16),
    Percentage(u16),
}

/// What fills a panel.
#[derive(Debug)]
pub enum Body {
    /// Rows, scrolled down by `down` and to the right by `across`. Long rows
    /// are folded if `wrap` says so, and set flush right if `flush_right` does.
    Rows { lines: Vec<Line>, down: u16, across: u16, wrap: bool, flush_right: bool },
    /// Items, one of which may be chosen. The list scrolls to it by itself.
    Items { items: Vec<Line>, chosen: Option<usize>, highlight: Style },
    /// Tabs, one of which is open.
    Tabs { titles: Vec<Line>, open: usize, highlight: Style, divider: Span },
    /// A bar that shows how far the rows beside it are scrolled.
    Scrollbar { total: usize, shown: usize, at: usize, thumb: Style },
    /// Nothing but the frame.
    Blank,
    /// What was there before is cleared.
    Clear,
}

/// A frame, and its title.
#[derive(Debug)]
pub struct Border {
    pub style: Style,
    pub title: Option<Span>,
}

/// An area of the screen and what is painted there.
#[derive(Debug)]
pub struct Panel {
    pub area: Rect,
    pub border: Option<Border>,
    pub style: Style,
    pub body: Body,
}

/// What fills a panel, as a value.
pub ghost enum BodyView {
    Rows { lines: Seq<Seq<SpanView>>, down: u16, across: u16, wrap: bool, flush_right: bool },
    Items { items: Seq<Seq<SpanView>>, chosen: Option<usize>, highlight: Style },
    Tabs { titles: Seq<Seq<SpanView>>, open: usize, highlight: Style, divider: SpanView },
    Scrollbar { total: usize, shown: usize, at: usize, thumb: Style },
    Blank,
    Clear,
}

/// A panel as a value.
pub ghost struct PanelView {
    pub area: Rect,
    pub border: Option<(Style, Option<SpanView>)>,
    pub style: Style,
    pub body: BodyView,
}

impl View for Body {
    type V = BodyView;

    open spec fn view(&self) -> BodyView {
        match self {
            Body::Rows { lines, down, across, wrap, flush_right } => BodyView::Rows {
                lines: lines_view(lines@),
                down: *down,
                across: *across,
                wrap: *wrap,
                flush_right: *flush_right,
            },
            Body::Items { items, chosen, highlight } => BodyView::Items {
                items: lines_view(items@),
                chosen: *chosen,
                highlight: *highlight,
            },
            Body::Tabs { titles, open, highlight, divider } => BodyView::Tabs {
                titles: lines_view(titles@),
                open: *open,
                highlight: *highlight,
                divider: divider@,
            },
            Body::Scrollbar { total, shown, at, thumb } => BodyView::Scrollbar {
                total: *total,
                shown: *shown,
                at: *at,
                thumb: *thumb,
            },
            Body::Blank => BodyView::Blank,
            Body::Clear => BodyView::Clear,
        }
    }
}

impl View for Panel {
    type V = PanelView;

    open spec fn view(&self) -> PanelView {
        PanelView {
            area: self.area,
            border: match self.border {
                Some(b) => Some(
                    (
                        b.style,
                        match b.title {
                            Some(t) => Some(t@),
                            None => None,
                        },
                    ),
                ),
                None => None,
            },
            style: self.style,
            body: self.body@,
        }
    }
}

/// Panels as values.
pub open spec fn panels_view(v: Seq<Panel>) -> Seq<PanelView> {
    v.map_values(|p: Panel| p@)
}

/// Pushing a panel pushes its value.
pub broadcast proof fn lemma_panels_push(v: Seq<Panel>, p: Panel)
    ensures
        #[trigger] panels_view(v.push(p)) == panels_view(v).push(p@),
{
    assert(panels_view(v.push(p)) =~= panels_view(v).push(p@));
}

/// An area cleared for what is painted next.
pub open spec fn cleared(area: Rect) -> PanelView {
    PanelView { area, border: None, style: no_style(), body: BodyView::Clear }
}

/// Rows that start at the top.
pub open spec fn rows_body(lines: Seq<Seq<SpanView>>, wrap: bool) -> BodyView {
    BodyView::Rows { lines, down: 0, across: 0, wrap, flush_right: false }
}

/// Rows scrolled down.
pub open spec fn scrolled_body(lines: Seq<Seq<SpanView>>, down: u16) -> BodyView {
    BodyView::Rows { lines, down, across: 0, wrap: false, flush_right: false }
}

/// Items, none of which is chosen.
pub open spec fn items_body(items: Seq<Seq<SpanView>>, highlight: Style) -> BodyView {
    BodyView::Items { items, chosen: None, highlight }
}

/// A panel with a frame.
pub open spec fn framed(
    area: Rect,
    border: Style,
    title: Option<SpanView>,
    style: Style,
    body: BodyView,
) -> PanelView {
    PanelView { area, border: Some((border, title)), style, body }
}

impl Body {
    /// Rows that start at the top.
    pub fn rows(lines: Vec<Line>, wrap: bool) -> (b: Body)
        ensures
            b@ == rows_body(lines_view(lines@), wrap),
    {
        Body::Rows { lines, down: 0, across: 0, wrap, flush_right: false }
    }

    /// Rows scrolled down.
    pub fn scrolled(lines: Vec<Line>, down: u16) -> (b: Body)
        ensures
            b@ == scrolled_body(lines_view(lines@), down),
    {
        Body::Rows { lines, down, across: 0, wrap: false, flush_right: false }
    }

    /// One row.
    pub fn row(line: Line) -> (b: Body)
        ensures
            b@ == rows_body(seq![line@], false),
    {
        let mut lines: Vec<Line> = Vec::new();
        proof {
            lemma_lines_push(lines@, line);
        }
        lines.push(line);
        assert(lines_view(lines@) =~= seq![line@]);
        Body::rows(lines, false)
    }

    /// Items, none of which is chosen.
    pub fn items(items: Vec<Line>, highlight: Style) -> (b: Body)
        ensures
            b@ == items_body(lines_view(items@), highlight),
    {
        Body::Items { items, chosen: None, highlight }
    }
}

impl Panel {
    /// A panel with a frame and a title.
    pub fn titled(
        area: Rect,
            border: Style,
        title: Span,
        style: Style,
        body: Body,
    ) -> (p: Panel)
        ensures
            p@ == framed(area, border, Some(title@), style, body@),
    {
        Panel { area, border: Some(Border { style: border, title: Some(title) }), style, body }
    }

    /// A panel with a frame.
    pub fn framed(area: Rect, border: Style, style: Style, body: Body) -> (p: Panel)
        ensures
            p@ == framed(area, border, None, style, body@),
    {
        Panel { area, border: Some(Border { style: border, title: None }), style, body }
    }

    /// An area cleared for what is painted next.
    pub fn cleared(area: Rect) -> (p: Panel)
        ensures
            p@ == cleared(area),
    {
        Panel { area, border: None, style: Style::new(), body: Body::Clear }
    }

    /// A panel without a frame.
    pub fn bare(area: Rect, style: Style, body: Body) -> (p: Panel)
        ensures
            p@ == (PanelView { area, border: None, style, body: body@ }),
    {
        Panel { area, border: None, style, body }
    }
}

// ---------------------------------------------------------------------
// Areas
// ---------------------------------------------------------------------

/// An area ends where coordinates can still be written.
pub open spec fn on_screen(r: Rect) -> bool {
    r.x + r.width <= u16::MAX && r.y + r.height <= u16::MAX
}

/// The part of an area that goes to lengths.
pub open spec fn lengths(parts: Seq<Part>) -> int
    decreases parts.len(),
{
    if parts.len() == 0 {
        0
    } else {
        lengths(parts.drop_last()) + (match parts.last() {
            Part::Length(n) => n as int,
            _ => 0,
        })
    }
}

/// All parts are lengths but for one, which takes what they leave, and there
/// is room for them all in `size` cells.
pub open spec fn all_fit(parts: Seq<Part>, size: int) -> bool {
    exists|m: int|
        {
            &&& 0 <= m < parts.len()
            &&& #[trigger] parts[m] matches Part::Min(n) && lengths(parts) + n <= size
            &&& forall|i: int| 0 <= i < parts.len() && i != m ==> parts[i] is Length
        }
}

/// The size of a part of `size` cells, where all parts fit.
pub open spec fn share(part: Part, parts: Seq<Part>, size: int) -> int {
    match part {
        Part::Length(n) => n as int,
        _ => size - lengths(parts),
    }
}

/// Where the part behind the first `n` starts.
pub open spec fn offset(parts: Seq<Part>, n: int, size: int) -> int
    decreases n,
{
    if n <= 0 {
        0
    } else {
        offset(parts, n - 1, size) + share(parts[n - 1], parts, size)
    }
}

/// Areas that lie below each other, each as wide as the whole, and as high
/// as their parts ask for where all of them fit.
pub open spec fn stacked(area: Rect, parts: Seq<Part>, r: Seq<Rect>) -> bool {
    &&& r.len() == parts.len()
    &&& forall|i: int|
        0 <= i < r.len() ==> (#[trigger] r[i]).x == area.x && r[i].width == area.width
    &&& on_screen(area) && all_fit(parts, area.height as int) ==> forall|i: int|
        0 <= i < r.len() ==> (#[trigger] r[i]).height == share(parts[i], parts, area.height as int)
            && r[i].y == area.y + offset(parts, i, area.height as int)
}

/// Areas that lie beside each other, each as high as the whole, and as wide
/// as their parts ask for where all of them fit.
pub open spec fn side_by_side(area: Rect, parts: Seq<Part>, r: Seq<Rect>) -> bool {
    &&& r.len() == parts.len()
    &&& forall|i: int|
        0 <= i < r.len() ==> (#[trigger] r[i]).y == area.y && r[i].height == area.height
    &&& on_screen(area) && all_fit(parts, area.width as int) ==> forall|i: int|
        0 <= i < r.len() ==> (#[trigger] r[i]).width == share(parts[i], parts, area.width as int)
            && r[i].x == area.x + offset(parts, i, area.width as int)
}

/// Calls `ratatui::layout::Layout::split`. There is one area for each part,
/// which keeps the extent of the whole across the split. Where all parts are
/// lengths but for one minimum, and all fit, each length is met, the minimum
/// grows into what is left, and the areas follow each other. In all other
/// cases nothing is said of where the areas begin and end: the solver weighs
/// the parts against each other.
#[verifier::external_body]
fn split(area: Rect, vertical: bool, parts: &[Part]) -> (r: Vec<Rect>)
    ensures
        vertical ==> stacked(area, parts@, r@),
        !vertical ==> side_by_side(area, parts@, r@),
{
    let whole = ratatui::layout::Rect { x: area.x, y: area.y, width: area.width, height: area.height };
    let direction = match vertical {
        true => ratatui::layout::Direction::Vertical,
        false => ratatui::layout::Direction::Horizontal,
    };
    let constraints = parts.iter().map(|p| match *p {
        Part::Length(n) => ratatui::layout::Constraint::Length(n),
        Part::Min(n) => ratatui::layout::Constraint::Min(n),
        Part::Percentage(n) => ratatui::layout::Constraint::Percentage(n),
    });
    let rects = ratatui::layout::Layout::new(direction, constraints).split(whole);
    rects.iter().map(|q| Rect { x: q.x, y: q.y, width: q.width, height: q.height }).collect()
}

/// Areas below each other.
pub fn split_rows(area: Rect, parts: &[Part]) -> (r: Vec<Rect>)
    ensures
        stacked(area, parts@, r@),
{
    split(area, true, parts)
}

/// Areas beside each other.
pub fn split_columns(area: Rect, parts: &[Part]) -> (r: Vec<Rect>)
    ensures
        side_by_side(area, parts@, r@),
{
    split(area, false, parts)
}

/// The coordinate behind a border, unless there is nothing behind it.
pub open spec fn behind_border(at: u16, size: u16) -> u16 {
    if size == 0 || at == u16::MAX {
        at
    } else {
        (at + 1) as u16
    }
}

/// A size without the border on both sides.
pub open spec fn without_border(size: u16) -> u16 {
    if size < 2 {
        0
    } else {
        (size - 2) as u16
    }
}

/// The area inside a frame.
pub open spec fn inner_area(area: Rect) -> Rect {
    Rect {
        x: behind_border(area.x, area.width),
        y: behind_border(area.y, area.height),
        width: without_border(area.width),
        height: without_border(area.height),
    }
}

/// The area inside a frame.
pub fn inside(area: Rect) -> (r: Rect)
    ensures
        r == inner_area(area),
{
    Rect {
        x: if area.width == 0 {
            area.x
        } else {
            area.x.saturating_add(1)
        },
        y: if area.height == 0 {
            area.y
        } else {
            area.y.saturating_add(1)
        },
        width: area.width.saturating_sub(2),
        height: area.height.saturating_sub(2),
    }
}

// ---------------------------------------------------------------------
// Laws
// ---------------------------------------------------------------------

proof fn lemma_offset(parts: Seq<Part>, n: int, size: int)
    requires
        0 <= n <= parts.len(),
        forall|i: int| 0 <= i < n ==> parts[i] is Length,
    ensures
        offset(parts, n, size) == lengths(parts.take(n)),
    decreases n,
{
    if n > 0 {
        lemma_offset(parts, n - 1, size);
        assert(parts.take(n).drop_last() =~= parts.take(n - 1));
    } else {
        assert(parts.take(0) =~= Seq::<Part>::empty());
    }
}

/// Where all parts fit, they lie one behind the other and fill the room.
pub proof fn law_parts_fill_the_room(parts: Seq<Part>, size: int)
    requires
        all_fit(parts, size),
    ensures
        offset(parts, parts.len() as int, size) == size,
        offset(parts, 0, size) == 0,
        forall|i: int|
            0 <= i < parts.len() ==> #[trigger] offset(parts, i + 1, size) == offset(parts, i, size)
                + share(parts[i], parts, size),
{
    let m = choose|m: int|
        {
            &&& 0 <= m < parts.len()
            &&& #[trigger] parts[m] matches Part::Min(n) && lengths(parts) + n <= size
            &&& forall|i: int| 0 <= i < parts.len() && i != m ==> parts[i] is Length
        };
    lemma_offset(parts, m, size);
    lemma_offset_behind(parts, m, parts.len() as int, size);
    assert(parts.take(parts.len() as int) =~= parts);
}

proof fn lemma_offset_behind(parts: Seq<Part>, m: int, n: int, size: int)
    requires
        0 <= m < n <= parts.len(),
        parts[m] is Min,
        forall|i: int| 0 <= i < parts.len() && i != m ==> parts[i] is Length,
    ensures
        offset(parts, n, size) == lengths(parts.take(n)) + size - lengths(parts),
    decreases n,
{
    assert(parts.take(n).drop_last() =~= parts.take(n - 1));
    if n - 1 == m {
        lemma_offset(parts, m, size);
    } else {
        lemma_offset_behind(parts, m, n - 1, size);
    }
}

/// Inside a border there is one cell less on each side.
pub proof fn law_the_inside_is_within_the_border(area: Rect)
    requires
        on_screen(area),
        area.width >= 2,
        area.height >= 2,
    ensures
        inner_area(area).x == area.x + 1 && inner_area(area).y == area.y + 1,
        inner_area(area).x + inner_area(area).width + 1 == area.x + area.width,
        inner_area(area).y + inner_area(area).height + 1 == area.y + area.height,
{
}

} // verus!

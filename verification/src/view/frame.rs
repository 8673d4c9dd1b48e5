//! The frame as a whole: where everything goes, how far the outline is
//! scrolled, and what is drawn over what.

use crate::actions::namespace::children_view;
use crate::actions::pages::PageEntry;
use crate::actions::zoom::zoom_crumbs;
use crate::outline::count;
use crate::state::{App, Focus, NamespaceChild};
use crate::style::{lines_view, no_style, span, Line, Rect, Span, SpanView, Style};
use crate::theme::Theme;
use crate::view::chrome::{
    bar_panels, breadcrumb, chip_spans, chips, left_segments, left_spans, path_spans, place_footer,
    place_header, right_segments, right_spans, screen_ok, Chips,
};
use crate::view::namespace::{levels_ok, nested_rows, render_nested_pages};
use crate::view::outline::{
    law_the_selected_row_is_where_the_block_starts, outline_lines, outline_starts, render_outline,
    selected_line, starts_view, BlockInput,
};
use crate::view::overlays::panels2;
use crate::view::panel::{
    cleared, framed, inner_area, inside, lemma_panels_push, panels_view, scrolled_body,
    side_by_side, split_columns, split_rows, stacked, Body, BodyView, Panel, PanelView, Part,
};
use crate::view::sidebar::SIDEBAR_WIDTH;
use vstd::prelude::*;

verus! {

// ---------------------------------------------------------------------
// Scrolling
// ---------------------------------------------------------------------

/// How far the outline is scrolled so that a row is in sight: not at all if
/// it is, else just far enough.
pub open spec fn pulled_to(scroll: u16, row: Option<usize>, height: u16) -> int {
    match row {
        Some(r) => {
            let sel = r as u16;
            if sel < scroll {
                sel as int
            } else if height > 0 && sel >= scroll + height {
                sel + 1 - height
            } else {
                scroll as int
            }
        },
        None => scroll as int,
    }
}

/// How far `total` rows are scrolled in a view of `height` rows: not beyond
/// the last of them.
pub open spec fn held_back(scroll: int, total: usize, height: u16) -> int {
    let t = total as u16;
    if t > height {
        if scroll > t - height {
            t - height
        } else {
            scroll
        }
    } else {
        0
    }
}

/// How far the outline is scrolled once `total` rows have been drawn in a
/// view of `height` rows with the selected block in `row`.
pub open spec fn scrolled_to(scroll: u16, row: Option<usize>, total: usize, height: u16) -> int {
    held_back(pulled_to(scroll, row, height), total, height)
}

impl App {
    /// Scrolls the outline so that the selected block is in sight.
    pub fn scroll_into_view(&mut self, row: Option<usize>, total: usize, height: u16)
        ensures
            *final(self) == (App {
                viewport_height: height,
                scroll_y: scrolled_to(old(self).scroll_y, row, total, height) as u16,
                ..*old(self)
            }),
    {
        self.viewport_height = height;
        if let Some(r) = row {
            let sel: u16 = r as u16;
            if sel < self.scroll_y {
                self.scroll_y = sel;
            } else if height > 0 && sel - self.scroll_y >= height {
                self.scroll_y = sel - (height - 1);
            }
        }
        let t: u16 = total as u16;
        if t > height {
            if self.scroll_y > t - height {
                self.scroll_y = t - height;
            }
        } else {
            self.scroll_y = 0;
        }
    }
}

// ---------------------------------------------------------------------
// Areas
// ---------------------------------------------------------------------

/// Where the parts of the frame go.
#[derive(Clone, Copy, PartialEq, Eq, Structural, Debug)]
pub struct FrameAreas {
    pub header: Rect,
    pub header_left: Rect,
    pub header_right: Rect,
    pub banner: Rect,
    pub sidebar: Option<Rect>,
    pub body: Rect,
    pub footer: Rect,
    pub footer_left: Rect,
    pub footer_right: Rect,
}

/// The parts of the frame from top to bottom.
pub open spec fn frame_parts(banner: u16) -> Seq<Part> {
    seq![Part::Length(3), Part::Length(banner), Part::Min(5), Part::Length(3)]
}

/// The parts of a bar: what is set flush right gets the room it needs.
pub open spec fn bar_parts(right: u16) -> Seq<Part> {
    seq![Part::Min(20), Part::Length(right)]
}

/// The parts of the middle while the sidebar is open.
pub open spec fn sidebar_and_body() -> Seq<Part> {
    seq![Part::Length(SIDEBAR_WIDTH), Part::Min(20)]
}

/// Where the parts of the frame go, given the rows and the columns that were
/// found.
pub open spec fn areas_from(
    rows: Seq<Rect>,
    header: Seq<Rect>,
    middle: Option<Seq<Rect>>,
    footer: Seq<Rect>,
) -> FrameAreas {
    FrameAreas {
        header: rows[0],
        header_left: header[0],
        header_right: header[1],
        banner: rows[1],
        sidebar: match middle {
            Some(m) => Some(m[0]),
            None => None,
        },
        body: match middle {
            Some(m) => m[1],
            None => rows[2],
        },
        footer: rows[3],
        footer_left: footer[0],
        footer_right: footer[1],
    }
}

/// The columns of the middle: two while the sidebar is open.
pub open spec fn middle_ok(area: Rect, show_sidebar: bool, middle: Option<Seq<Rect>>) -> bool {
    match middle {
        Some(m) => show_sidebar && side_by_side(area, sidebar_and_body(), m),
        None => !show_sidebar,
    }
}

fn split_bar(area: Rect, right: u16) -> (r: Vec<Rect>)
    ensures
        r@.len() == 2,
        side_by_side(inner_area(area), bar_parts(right), r@),
{
    let parts = [Part::Min(20), Part::Length(right)];
    assert(parts@ =~= bar_parts(right));
    split_columns(inside(area), &parts)
}

/// Finds the areas of the frame. `banner`, `chips` and `right` are the room
/// that the warnings, the chips and the right half of the footer need.
pub fn lay_out(area: Rect, banner: u16, show_sidebar: bool, chips: u16, right: u16) -> (r: FrameAreas)
    ensures
        exists|rows: Seq<Rect>, header: Seq<Rect>, middle: Option<Seq<Rect>>, footer: Seq<Rect>|
            {
                &&& #[trigger] stacked(area, frame_parts(banner), rows)
                &&& #[trigger] side_by_side(inner_area(rows[0]), bar_parts(chips), header)
                &&& #[trigger] middle_ok(rows[2], show_sidebar, middle)
                &&& #[trigger] side_by_side(inner_area(rows[3]), bar_parts(right), footer)
                &&& r == areas_from(rows, header, middle, footer)
            },
{
    let parts = [Part::Length(3), Part::Length(banner), Part::Min(5), Part::Length(3)];
    assert(parts@ =~= frame_parts(banner));
    let rows = split_rows(area, &parts);
    let h = split_bar(rows[0], chips);
    let f = split_bar(rows[3], right);
    assert(stacked(area, frame_parts(banner), rows@));
    assert(side_by_side(inner_area(rows@[0]), bar_parts(chips), h@));
    assert(side_by_side(inner_area(rows@[3]), bar_parts(right), f@));
    if show_sidebar {
        let parts = [Part::Length(SIDEBAR_WIDTH), Part::Min(20)];
        assert(parts@ =~= sidebar_and_body());
        let m = split_columns(rows[2], &parts);
        let r = FrameAreas {
            header: rows[0],
            header_left: h[0],
            header_right: h[1],
            banner: rows[1],
            sidebar: Some(m[0]),
            body: m[1],
            footer: rows[3],
            footer_left: f[0],
            footer_right: f[1],
        };
        assert(middle_ok(rows@[2], show_sidebar, Some(m@)));
        assert(r == areas_from(rows@, h@, Some(m@), f@));
        r
    } else {
        let r = FrameAreas {
            header: rows[0],
            header_left: h[0],
            header_right: h[1],
            banner: rows[1],
            sidebar: None,
            body: rows[2],
            footer: rows[3],
            footer_left: f[0],
            footer_right: f[1],
        };
        assert(middle_ok(rows@[2], show_sidebar, None));
        assert(r == areas_from(rows@, h@, None, f@));
        r
    }
}

// ---------------------------------------------------------------------
// The middle of the frame
// ---------------------------------------------------------------------

/// What the frame shows that the editor does not hold: the name of the
/// workspace, what the index knows of the page, the chips and the time, the
/// hint of the mode, the blocks taken apart, the rows of the backlinks and
/// the one that is selected among them, and the pages nested below.
#[derive(Debug)]
pub struct FrameInput {
    pub workspace: Option<String>,
    pub entry: Option<PageEntry>,
    pub chips: Chips,
    pub millis: u64,
    pub backlinks: usize,
    pub hint: String,
    pub clock: String,
    pub blocks: Vec<BlockInput>,
    pub backlink_lines: Vec<Line>,
    pub backlink_row: Option<usize>,
    pub nested: Vec<NamespaceChild>,
}

/// What the frame shows fits the editor: each block has been taken apart,
/// and the selected backlink is among those drawn.
pub open spec fn input_ok(app: App, input: FrameInput) -> bool {
    &&& app.wf()
    &&& screen_ok(app.screen)
    &&& count(app.blocks()) <= input.blocks@.len()
    &&& levels_ok(input.nested@)
    &&& input.backlink_row matches Some(r) ==> r < input.backlink_lines@.len()
}

/// The columns for text in an area with a frame.
pub open spec fn text_columns(area: Rect) -> u16 {
    inner_area(area).width
}

/// All rows below each other: the outline, the backlinks, and the pages
/// nested below.
pub open spec fn middle_rows(app: App, input: FrameInput, width: u16) -> Seq<Seq<SpanView>> {
    outline_lines(app, input.blocks@, width as int) + lines_view(input.backlink_lines@)
        + nested_rows(children_view(input.nested@), width, app.theme, app.icons)
}

/// The row that is selected: in the outline or in the backlinks, wherever
/// the focus is.
pub open spec fn focused_row(app: App, input: FrameInput, width: u16) -> Option<int> {
    match app.focus {
        Focus::Outline => selected_line(
            outline_starts(app, input.blocks@, width as int),
            app,
        ),
        Focus::Backlink { .. } => match input.backlink_row {
            Some(r) => Some(outline_lines(app, input.blocks@, width as int).len() + r),
            None => None,
        },
    }
}

/// The rows in their frame, scrolled, and beside them a bar that shows how
/// far, unless all of them are in sight.
pub open spec fn body_panels(
    area: Rect,
    rows: Seq<Seq<SpanView>>,
    scroll: u16,
    theme: Theme,
) -> Seq<PanelView> {
    let total = rows.len() as u16;
    let height = inner_area(area).height;
    seq![
        framed(
            area,
            theme.border,
            Some(span("Outline"@, no_style())),
            no_style(),
            scrolled_body(rows, scroll),
        ),
    ] + (if total > height && height > 0 {
        seq![
            PanelView {
                area,
                border: None,
                style: theme.dim,
                body: BodyView::Scrollbar {
                    total: total as usize,
                    shown: height as usize,
                    at: scroll as usize,
                    thumb: theme.heading,
                },
            },
        ]
    } else {
        Seq::empty()
    })
}

/// The frame as it is drawn: its panels, for each block its first row and
/// its flat index, and how many rows the outline took.
#[derive(Debug)]
pub struct DrawnFrame {
    pub panels: Vec<Panel>,
    pub starts: Vec<(usize, usize)>,
    pub outline_rows: usize,
}

fn append_lines(to: &mut Vec<Line>, from: Vec<Line>)
    ensures
        lines_view(final(to)@) == lines_view(old(to)@) + lines_view(from@),
        final(to)@.len() == old(to)@.len() + from@.len(),
{
    let mut rest = from;
    to.append(&mut rest);
    assert(lines_view(to@) =~= lines_view(old(to)@) + lines_view(from@));
}

fn append_panels(to: &mut Vec<Panel>, from: Vec<Panel>)
    ensures
        panels_view(final(to)@) == panels_view(old(to)@) + panels_view(from@),
{
    let mut rest = from;
    to.append(&mut rest);
    assert(panels_view(to@) =~= panels_view(old(to)@) + panels_view(from@));
}

fn place_body(area: Rect, lines: Vec<Line>, scroll: u16, theme: &Theme) -> (r: Vec<Panel>)
    ensures
        panels_view(r@) == body_panels(area, lines_view(lines@), scroll, *theme),
{
    let ghost rows = lines_view(lines@);
    assert(rows.len() == lines@.len());
    let total: u16 = lines.len() as u16;
    let height: u16 = inside(area).height;
    let p = Panel::titled(
        area,
        theme.border,
        Span::raw("Outline"),
        Style::new(),
        Body::scrolled(lines, scroll),
    );
    let mut r: Vec<Panel> = Vec::new();
    proof {
        lemma_panels_push(r@, p);
    }
    r.push(p);
    if total > height && height > 0 {
        let bar = Panel::bare(
            area,
            theme.dim,
            Body::Scrollbar {
                total: total as usize,
                shown: height as usize,
                at: scroll as usize,
                thumb: theme.heading,
            },
        );
        proof {
            lemma_panels_push(r@, bar);
        }
        r.push(bar);
    }
    assert(panels_view(r@) =~= body_panels(area, rows, scroll, *theme));
    r
}

/// The header, the middle and the footer.
pub open spec fn frame_panels(
    app: App,
    areas: FrameAreas,
    input: FrameInput,
    scroll: u16,
    crumbs: Seq<Seq<char>>,
) -> Seq<PanelView> {
    let width = text_columns(areas.body);
    bar_panels(
        areas.header,
        areas.header_left,
        areas.header_right,
        Some(span(" outl · "@ + app.theme.name@ + " "@, app.theme.hint)),
        path_spans(input.workspace, app.screen, input.entry, crumbs, app.theme, app.icons),
        chip_spans(input.chips, input.millis as int, app.icons),
        app.theme,
    ) + body_panels(areas.body, middle_rows(app, input, width), scroll, app.theme) + bar_panels(
        areas.footer,
        areas.footer_left,
        areas.footer_right,
        None,
        left_spans(
            app.mode,
            input.workspace,
            input.backlinks,
            input.hint@,
            app.status@,
            app.theme,
            app.icons,
        ),
        right_spans(
            input.clock@,
            app.last_saved_ms is Some,
            app.status@,
            app.theme,
            app.icons,
        ),
        app.theme,
    )
}

/// How far the frame is scrolled.
pub open spec fn frame_scroll(app: App, areas: FrameAreas, input: FrameInput) -> u16 {
    let width = text_columns(areas.body);
    scrolled_to(
        app.scroll_y,
        match focused_row(app, input, width) {
            Some(r) => Some(r as usize),
            None => None,
        },
        middle_rows(app, input, width).len() as usize,
        inner_area(areas.body).height,
    ) as u16
}

/// Draws the header, the middle and the footer, and scrolls the outline so
/// that what is selected is in sight.
pub fn render_main(app: &mut App, areas: &FrameAreas, input: FrameInput) -> (r: DrawnFrame)
    requires
        input_ok(*old(app), input),
    ensures
        *final(app) == (App {
            viewport_height: inner_area(areas.body).height,
            scroll_y: frame_scroll(*old(app), *areas, input),
            ..*old(app)
        }),
        panels_view(r.panels@) == frame_panels(
            *old(app),
            *areas,
            input,
            frame_scroll(*old(app), *areas, input),
            zoom_crumbs(*old(app)),
        ),
        starts_view(r.starts@) == outline_starts(
            *old(app),
            input.blocks@,
            text_columns(areas.body) as int,
        ),
        r.outline_rows == outline_lines(
            *old(app),
            input.blocks@,
            text_columns(areas.body) as int,
        ).len(),
{
    let inner = inside(areas.body);
    let width: u16 = inner.width;
    let crumbs = app.zoom_breadcrumb();
    let path = breadcrumb(
        &input.workspace,
        &app.screen,
        &input.entry,
        &crumbs,
        &app.theme,
        &app.icons,
    );
    let chip_row = chips(&input.chips, input.millis, &app.icons);
    let left = left_segments(
        &app.mode,
        &input.workspace,
        input.backlinks,
        input.hint.as_str(),
        app.status.as_str(),
        &app.theme,
        &app.icons,
    );
    let right = right_segments(
        input.clock.as_str(),
        app.last_saved_ms.is_some(),
        app.status.as_str(),
        &app.theme,
        &app.icons,
    );
    let drawn = render_outline(app, &input.blocks, width);
    let outline_rows: usize = drawn.lines.len();
    assert(lines_view(drawn.lines@).len() == outline_rows);
    let nested = render_nested_pages(&input.nested, width, &app.theme, &app.icons);
    let mut lines = drawn.lines;
    append_lines(&mut lines, input.backlink_lines);
    append_lines(&mut lines, nested);
    assert(lines.len() <= usize::MAX);
    let row: Option<usize> = match app.focus {
        Focus::Outline => drawn.selected_line,
        Focus::Backlink { .. } => match input.backlink_row {
            Some(n) => Some(outline_rows + n),
            None => None,
        },
    };
    let total: usize = lines.len();
    assert(lines_view(lines@).len() == total);
    app.scroll_into_view(row, total, inner.height);
    let mut panels = place_header(
        areas.header,
        areas.header_left,
        areas.header_right,
        path,
        chip_row,
        &app.theme,
    );
    let body = place_body(areas.body, lines, app.scroll_y, &app.theme);
    append_panels(&mut panels, body);
    let footer = place_footer(
        areas.footer,
        areas.footer_left,
        areas.footer_right,
        left,
        right,
        &app.theme,
    );
    append_panels(&mut panels, footer);
    DrawnFrame { panels, starts: drawn.starts, outline_rows }
}

// ---------------------------------------------------------------------
// What is drawn over what
// ---------------------------------------------------------------------

/// A layer of the screen.
#[derive(Clone, Copy, PartialEq, Eq, Structural, Debug)]
pub enum Layer {
    /// The empty screen in the colours of the theme.
    Canvas,
    /// The header, the sidebar, the outline and the footer.
    Main,
    /// The overlay that is open.
    Overlay,
    /// The completion popup.
    Completion,
    Help,
    Toasts,
}

/// A layer, if it is there.
pub open spec fn layer_if(there: bool, l: Layer) -> Seq<Layer> {
    if there {
        seq![l]
    } else {
        Seq::empty()
    }
}

/// The layers of the screen, from the lowest to the highest.
pub open spec fn layers_of(app: App) -> Seq<Layer> {
    seq![Layer::Canvas, Layer::Main] + layer_if(app.overlay is Some, Layer::Overlay) + layer_if(
        app.autocomplete is Some,
        Layer::Completion,
    ) + layer_if(app.show_help, Layer::Help) + seq![Layer::Toasts]
}

/// The empty screen: what was there is cleared, so that nothing of a longer
/// page is left, and painted in the colours of the theme.
pub open spec fn canvas_panels(full: Rect, theme: Theme) -> Seq<PanelView> {
    seq![
        cleared(full),
        PanelView {
            area: full,
            border: None,
            style: Style { fg: Some(theme.foreground), bg: Some(theme.background), ..no_style() },
            body: BodyView::Blank,
        },
    ]
}

/// The empty screen.
pub fn render_canvas(full: Rect, theme: &Theme) -> (r: Vec<Panel>)
    ensures
        panels_view(r@) == canvas_panels(full, *theme),
{
    panels2(
        Panel::cleared(full),
        Panel::bare(
            full,
            Style::new().fg(theme.foreground).bg(theme.background),
            Body::Blank,
        ),
    )
}

impl App {
    /// The layers of the screen, from the lowest to the highest.
    pub fn layers(&self) -> (r: Vec<Layer>)
        ensures
            r@ == layers_of(*self),
    {
        let mut r: Vec<Layer> = Vec::new();
        r.push(Layer::Canvas);
        r.push(Layer::Main);
        if self.overlay.is_some() {
            r.push(Layer::Overlay);
        }
        if self.autocomplete.is_some() {
            r.push(Layer::Completion);
        }
        if self.show_help {
            r.push(Layer::Help);
        }
        r.push(Layer::Toasts);
        assert(r@ =~= layers_of(*self));
        r
    }
}

// ---------------------------------------------------------------------
// Laws
// ---------------------------------------------------------------------

/// Once the outline has been scrolled, the selected row is in sight, as long
/// as all rows can be counted.
pub proof fn law_selection_is_in_sight(scroll: u16, row: usize, total: usize, height: u16)
    requires
        row < total <= u16::MAX,
        height > 0,
    ensures
        ({
            let s = scrolled_to(scroll, Some(row), total, height);
            0 <= s <= row < s + height
        }),
{
}

/// Scrolling to where the outline already is does not move it.
pub proof fn law_scrolling_is_idempotent(
    scroll: u16,
    row: Option<usize>,
    total: usize,
    height: u16,
)
    requires
        total <= u16::MAX,
        row matches Some(r) ==> r < total,
    ensures
        ({
            let s = scrolled_to(scroll, row, total, height);
            scrolled_to(s as u16, row, total, height) == s
        }),
{
}

/// What lies over something is drawn after it: the page on its ground, then the
/// overlay, the completions and the help, and the toasts over all.
pub proof fn law_layers_lie_in_order(app: App)
    ensures
        layers_of(app)[0] == Layer::Canvas,
        layers_of(app)[1] == Layer::Main,
        layers_of(app).last() == Layer::Toasts,
        layers_of(app).contains(Layer::Overlay) <==> app.overlay is Some,
        layers_of(app).contains(Layer::Completion) <==> app.autocomplete is Some,
        layers_of(app).contains(Layer::Help) <==> app.show_help,
        app.show_help ==> layers_of(app)[layers_of(app).len() - 2] == Layer::Help,
        app.overlay is Some ==> layers_of(app)[2] == Layer::Overlay,
{
    let l = layers_of(app);
    if app.overlay is Some {
        assert(l[2] == Layer::Overlay);
    }
    if app.autocomplete is Some {
        assert(l[if app.overlay is Some {
            3
        } else {
            2
        }] == Layer::Completion);
    }
    if app.show_help {
        assert(l[l.len() - 2] == Layer::Help);
    }
}

/// The view moves no more than it has to: it stays where the row is in sight,
/// and never leaves room unused below the last row.
pub proof fn law_the_view_moves_no_more_than_it_has_to(
    scroll: u16,
    row: usize,
    total: usize,
    height: u16,
)
    requires
        row < total <= u16::MAX,
        height > 0,
    ensures
        ({
            let s = scrolled_to(scroll, Some(row), total, height);
            &&& scroll <= row < scroll + height && scroll + height <= total ==> s == scroll
            &&& row < scroll && row + height <= total ==> s == row
            &&& row >= scroll + height ==> s == row + 1 - height
            &&& total <= height ==> s == 0
            &&& total > height ==> s + height <= total
        }),
{
}

/// The rows of the page come first, then those of the backlinks, then the
/// nested pages, and a bar shows where one is if not all are in sight.
pub proof fn law_the_body_holds_all_rows(
    app: App,
    input: FrameInput,
    width: u16,
    area: Rect,
    scroll: u16,
)
    ensures
        ({
            let rows = middle_rows(app, input, width);
            let own = outline_lines(app, input.blocks@, width as int);
            let links = lines_view(input.backlink_lines@);
            &&& rows.take(own.len() as int) == own
            &&& rows.subrange(own.len() as int, (own.len() + links.len()) as int) == links
            &&& rows.skip((own.len() + links.len()) as int) == nested_rows(
                children_view(input.nested@),
                width,
                app.theme,
                app.icons,
            )
            &&& rows.len() <= u16::MAX ==> (body_panels(area, rows, scroll, app.theme).len() == 2
                <==> rows.len() > inner_area(area).height > 0)
        }),
{
    let rows = middle_rows(app, input, width);
    let own = outline_lines(app, input.blocks@, width as int);
    let links = lines_view(input.backlink_lines@);
    assert(rows.take(own.len() as int) =~= own);
    assert(rows.subrange(own.len() as int, (own.len() + links.len()) as int) =~= links);
    assert(rows.skip((own.len() + links.len()) as int) =~= nested_rows(
        children_view(input.nested@),
        width,
        app.theme,
        app.icons,
    ));
}

/// The row the view follows is that of the block under the cursor, or of the
/// backlink where the cursor is there.
pub proof fn law_the_view_follows_the_cursor(app: App, input: FrameInput, width: u16)
    requires
        input_ok(app, input),
    ensures
        app.focus matches Focus::Backlink { .. } ==> (input.backlink_row matches Some(r)
            ==> focused_row(app, input, width) is Some && middle_rows(
            app,
            input,
            width,
        )[focused_row(app, input, width)->0] == input.backlink_lines@[r as int]@),
        app.focus is Outline ==> (focused_row(app, input, width) matches Some(r)
            ==> outline_starts(app, input.blocks@, width as int).contains(
            (r, app.selected as int),
        )),
{
    if app.focus is Outline {
        law_the_selected_row_is_where_the_block_starts(
            outline_starts(app, input.blocks@, width as int),
            app,
        );
    } else if input.backlink_row is Some {
        let own = outline_lines(app, input.blocks@, width as int);
        let links = lines_view(input.backlink_lines@);
        let r = input.backlink_row->0 as int;
        assert(links[r] == input.backlink_lines@[r]@);
        assert(middle_rows(app, input, width)[own.len() + r] == links[r]);
    }
}

} // verus!

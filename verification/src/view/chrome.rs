//! The header and the footer.

use crate::actions::pages::PageEntry;
use crate::dates::{date_text, format_date, is_day, LONG_PATTERN};
use crate::icons::IconSet;
use crate::paths::{file_stem, stem_of};
use crate::state::{Mode, Screen};
use crate::style::{
    lemma_spans_push, no_style, span, spans_view, Color, Line, Rect, Span, SpanView, Style,
};
use crate::text::{cat, cat3, cat4, cat5, decimal, numeral, opt_text, texts};
use crate::theme::Theme;
use crate::view::overlays::{one_row, panels3};
use crate::view::panel::{
    framed, panels_view, rows_body, Body, BodyView, Panel, PanelView,
};
use crate::view::wrap::{text_width, width_of_text};
use vstd::prelude::*;

verus! {

fn push_span(out: &mut Vec<Span>, text: &str, style: Style)
    ensures
        spans_view(final(out)@) == spans_view(old(out)@).push(span(text@, style)),
{
    broadcast use lemma_spans_push;

    out.push(Span::styled(text, style));
}

// ---------------------------------------------------------------------
// The header
// ---------------------------------------------------------------------

/// The name of the workspace.
pub open spec fn workspace_label(name: Option<String>) -> Seq<char> {
    match name {
        Some(n) => n@,
        None => "workspace"@,
    }
}

fn label_of_workspace(name: &Option<String>) -> (r: &str)
    ensures
        r@ == workspace_label(*name),
{
    match name {
        Some(n) => n.as_str(),
        None => "workspace",
    }
}

/// The icon of what is shown.
pub open spec fn screen_icon(screen: Screen, entry: Option<PageEntry>, icons: IconSet) -> Option<
    Seq<char>,
> {
    match screen {
        Screen::Journal(_) => Some(icons.calendar@),
        Screen::Page(_) => match entry {
            Some(e) => opt_text(e.icon),
            None => None,
        },
    }
}

/// The title of what is shown: the day of a journal, the title of a page, or
/// the name of its file while the index does not know it.
pub open spec fn screen_title(screen: Screen, entry: Option<PageEntry>) -> Seq<char> {
    match screen {
        Screen::Journal(day) => "Journal · "@ + date_text(day as int, LONG_PATTERN@)->0,
        Screen::Page(path) => match entry {
            Some(e) => e.title@,
            None => match stem_of(path@) {
                Some(s) => s,
                None => "?"@,
            },
        },
    }
}

/// What is shown has a date, if it is a journal.
pub open spec fn screen_ok(screen: Screen) -> bool {
    screen matches Screen::Journal(day) ==> is_day(day as int)
}

/// The icon and the title of what is shown.
pub fn view_icon_and_title(screen: &Screen, entry: &Option<PageEntry>, icons: &IconSet) -> (r: (
    Option<String>,
    String,
))
    requires
        screen_ok(*screen),
    ensures
        opt_text(r.0) == screen_icon(*screen, *entry, *icons),
        r.1@ == screen_title(*screen, *entry),
{
    match screen {
        Screen::Journal(day) => {
            let t = match format_date(*day, LONG_PATTERN) {
                Some(t) => t,
                None => String::new(),
            };
            (Some(icons.calendar.to_owned()), cat("Journal · ", t.as_str()))
        },
        Screen::Page(path) => match entry {
            Some(e) => (
                match &e.icon {
                    Some(i) => Some(i.clone()),
                    None => None,
                },
                e.title.clone(),
            ),
            None => {
                let stem = match file_stem(path.as_str()) {
                    Some(s) => s,
                    None => "?".to_owned(),
                };
                (None, stem)
            },
        },
    }
}

/// The separator between the steps of the path.
pub open spec fn step_span(theme: Theme) -> SpanView {
    span(" ▸ "@, theme.dim)
}

/// The steps to the block zoomed into.
pub open spec fn crumb_spans(crumbs: Seq<Seq<char>>, theme: Theme) -> Seq<SpanView>
    decreases crumbs.len(),
{
    if crumbs.len() == 0 {
        Seq::empty()
    } else {
        crumb_spans(crumbs.drop_last(), theme).push(step_span(theme)).push(
            span(crumbs.last(), theme.hint),
        )
    }
}

/// The path to what is shown.
pub open spec fn path_spans(
    workspace: Option<String>,
    screen: Screen,
    entry: Option<PageEntry>,
    crumbs: Seq<Seq<char>>,
    theme: Theme,
    icons: IconSet,
) -> Seq<SpanView> {
    seq![
        span(" outl"@, Style { bold: true, ..theme.heading }),
        step_span(theme),
        span(workspace_label(workspace), theme.hint),
        step_span(theme),
    ] + (match screen_icon(screen, entry, icons) {
        Some(i) => seq![span(i + " "@, no_style())],
        None => Seq::empty(),
    }) + seq![span(screen_title(screen, entry), theme.heading)] + crumb_spans(crumbs, theme)
}

/// The path to what is shown, down to the block zoomed into.
pub fn breadcrumb(
    workspace: &Option<String>,
    screen: &Screen,
    entry: &Option<PageEntry>,
    crumbs: &Vec<String>,
    theme: &Theme,
    icons: &IconSet,
) -> (l: Line)
    requires
        screen_ok(*screen),
    ensures
        l@ == path_spans(*workspace, *screen, *entry, texts(crumbs@), *theme, *icons),
{
    let (icon, title) = view_icon_and_title(screen, entry, icons);
    let mut spans: Vec<Span> = Vec::new();
    assert(spans_view(spans@) =~= Seq::empty());
    push_span(&mut spans, " outl", theme.heading.bold());
    push_span(&mut spans, " ▸ ", theme.dim);
    push_span(&mut spans, label_of_workspace(workspace), theme.hint);
    push_span(&mut spans, " ▸ ", theme.dim);
    if let Some(i) = &icon {
        let t = cat(i.as_str(), " ");
        push_span(&mut spans, t.as_str(), Style::new());
    }
    push_span(&mut spans, title.as_str(), theme.heading);
    let ghost head = spans_view(spans@);
    let ghost all = texts(crumbs@);
    let mut i: usize = 0;
    assert(head + crumb_spans(all.take(0), *theme) =~= head);
    while i < crumbs.len()
        invariant
            i <= crumbs@.len(),
            all == texts(crumbs@),
            spans_view(spans@) == head + crumb_spans(all.take(i as int), *theme),
        decreases crumbs@.len() - i,
    {
        assert(all.take(i + 1).drop_last() =~= all.take(i as int));
        assert(all.take(i + 1).last() == crumbs@[i as int]@);
        push_span(&mut spans, " ▸ ", theme.dim);
        push_span(&mut spans, crumbs[i].as_str(), theme.hint);
        i += 1;
        assert(spans_view(spans@) =~= head + crumb_spans(all.take(i as int), *theme));
    }
    assert(all.take(i as int) =~= all);
    let l = Line { spans };
    assert(l@ =~= path_spans(*workspace, *screen, *entry, texts(crumbs@), *theme, *icons));
    l
}

/// How long ago something was.
pub open spec fn age_text(secs: int) -> Seq<char> {
    if secs <= 2 {
        "just now"@
    } else if secs < 60 {
        decimal(secs as nat) + "s ago"@
    } else if secs < 3600 {
        decimal((secs / 60) as nat) + "m ago"@
    } else {
        decimal((secs / 3600) as nat) + "h ago"@
    }
}

/// How long ago something was.
pub fn format_age(secs: usize) -> (r: String)
    ensures
        r@ == age_text(secs as int),
{
    if secs <= 2 {
        "just now".to_owned()
    } else if secs < 60 {
        let n = numeral(secs);
        cat(n.as_str(), "s ago")
    } else if secs < 3600 {
        let n = numeral(secs / 60);
        cat(n.as_str(), "m ago")
    } else {
        let n = numeral(secs / 3600);
        cat(n.as_str(), "h ago")
    }
}

/// The frames of the throbber.
pub open spec fn throbber_frames() -> Seq<char> {
    seq!['⠋', '⠙', '⠹', '⠸', '⠼', '⠴', '⠦', '⠧', '⠇', '⠏']
}

/// The frame of the throbber at a time in milliseconds: each lasts a tenth
/// of a second.
pub open spec fn frame_at(millis: int) -> char {
    throbber_frames()[(millis / 100) % 10]
}

/// The frame of the throbber at a time in milliseconds.
pub fn throbber_frame(millis: u64) -> (c: char)
    ensures
        c == frame_at(millis as int),
{
    let frames = ['⠋', '⠙', '⠹', '⠸', '⠼', '⠴', '⠦', '⠧', '⠇', '⠏'];
    assert(frames@ =~= throbber_frames());
    let i: usize = ((millis / 100) % 10) as usize;
    frames[i]
}

/// A chip in a colour.
pub open spec fn chip_style(fg: Color) -> Style {
    Style { fg: Some(fg), bg: Some(Color::DarkGray), ..no_style() }
}

fn style_of_chip(fg: Color) -> (s: Style)
    ensures
        s == chip_style(fg),
{
    Style::new().bg(Color::DarkGray).fg(fg)
}

/// A chip and the gap behind it.
pub open spec fn chip(text: Seq<char>, style: Style) -> Seq<SpanView> {
    seq![span(text, style), span(" "@, no_style())]
}

/// What the chips report: whether the index is being built, how many tasks
/// are done of how many, whether a block is edited, and how many seconds ago
/// the page was written.
#[derive(Clone, Copy, Debug)]
pub struct Chips {
    pub indexing: bool,
    pub done: usize,
    pub total: usize,
    pub editing: bool,
    pub saved_secs: Option<usize>,
}

/// The chips at a time in milliseconds.
pub open spec fn chip_spans(c: Chips, millis: int, icons: IconSet) -> Seq<SpanView> {
    (if c.indexing {
        chip(
            " "@ + seq![frame_at(millis)] + " indexing "@,
            Style { bold: true, ..chip_style(Color::LightCyan) },
        )
    } else {
        Seq::empty()
    }) + (if c.total > 0 {
        chip(
            " "@ + icons.todo_chip@ + " "@ + decimal(c.done as nat) + ("/"@ + decimal(
                c.total as nat,
            ) + " "@),
            Style {
                bold: true,
                ..chip_style(
                    if c.done == c.total {
                        Color::LightGreen
                    } else {
                        Color::LightYellow
                    },
                )
            },
        )
    } else {
        Seq::empty()
    }) + (if c.editing {
        chip(
            " "@ + icons.editing@ + " editing "@,
            Style { bold: true, ..chip_style(Color::LightMagenta) },
        )
    } else {
        Seq::empty()
    }) + (match c.saved_secs {
        Some(secs) => chip(
            " "@ + icons.freshness@ + " "@ + (age_text(secs as int) + " "@),
            chip_style(Color::Gray),
        ),
        None => Seq::empty(),
    })
}

fn push_chip(out: &mut Vec<Span>, text: &str, style: Style)
    ensures
        spans_view(final(out)@) == spans_view(old(out)@) + chip(text@, style),
{
    push_span(out, text, style);
    push_span(out, " ", Style::new());
    assert(spans_view(out@) =~= spans_view(old(out)@) + chip(text@, style));
}

/// The chips of the header.
pub fn chips(c: &Chips, millis: u64, icons: &IconSet) -> (l: Line)
    ensures
        l@ == chip_spans(*c, millis as int, *icons),
{
    let mut spans: Vec<Span> = Vec::new();
    assert(spans_view(spans@) =~= Seq::empty());
    if c.indexing {
        let mut frame = String::new();
        frame.push(throbber_frame(millis));
        assert(frame@ =~= seq![frame_at(millis as int)]);
        let t = cat3(" ", frame.as_str(), " indexing ");
        push_chip(&mut spans, t.as_str(), style_of_chip(Color::LightCyan).bold());
    }
    if c.total > 0 {
        let done = numeral(c.done);
        let total = numeral(c.total);
        let end = cat3("/", total.as_str(), " ");
        let t = cat5(" ", icons.todo_chip, " ", done.as_str(), end.as_str());
        let color = if c.done == c.total {
            Color::LightGreen
        } else {
            Color::LightYellow
        };
        push_chip(&mut spans, t.as_str(), style_of_chip(color).bold());
    }
    if c.editing {
        let t = cat3(" ", icons.editing, " editing ");
        push_chip(&mut spans, t.as_str(), style_of_chip(Color::LightMagenta).bold());
    }
    if let Some(secs) = c.saved_secs {
        let age = format_age(secs);
        let end = cat(age.as_str(), " ");
        let t = cat4(" ", icons.freshness, " ", end.as_str());
        push_chip(&mut spans, t.as_str(), style_of_chip(Color::Gray));
    }
    let l = Line { spans };
    assert(l@ =~= chip_spans(*c, millis as int, *icons));
    l
}

/// How many columns are set aside for the chips.
pub open spec fn chips_room(c: Chips) -> int {
    (if c.indexing {
        13int
    } else {
        0
    }) + (if c.total > 0 {
        14int
    } else {
        0
    }) + (if c.editing {
        12int
    } else {
        0
    }) + (if c.saved_secs is Some {
        14int
    } else {
        0
    })
}

/// How many columns are set aside for the chips.
pub fn chips_width(c: &Chips) -> (w: u16)
    ensures
        w == chips_room(*c),
        w <= 70,
{
    let mut w: u16 = 0;
    if c.indexing {
        w += 13;
    }
    if c.total > 0 {
        w += 14;
    }
    if c.editing {
        w += 12;
    }
    if c.saved_secs.is_some() {
        w += 14;
    }
    w
}

// ---------------------------------------------------------------------
// The footer
// ---------------------------------------------------------------------

/// The name of a mode.
pub open spec fn mode_label(mode: Mode) -> &'static str {
    match mode {
        Mode::Normal => " NORMAL ",
        Mode::Insert { .. } => " INSERT ",
        Mode::Visual { .. } => " VISUAL ",
    }
}

/// The style of a mode.
pub open spec fn mode_style(mode: Mode, theme: Theme) -> Style {
    match mode {
        Mode::Normal => theme.status_normal,
        Mode::Insert { .. } => theme.status_insert,
        Mode::Visual { .. } => theme.status_visual,
    }
}

/// How many backlinks there are.
pub open spec fn backlinks_text(n: usize, icons: IconSet) -> Seq<char> {
    " "@ + icons.backlinks@ + " "@ + decimal(n as nat) + (" backlink"@ + (if n == 1 {
        ""@
    } else {
        "s"@
    }) + " "@)
}

/// The left half of the footer: the mode, the workspace, the backlinks, a
/// hint, and the last message.
pub open spec fn left_spans(
    mode: Mode,
    workspace: Option<String>,
    backlinks: usize,
    hint: Seq<char>,
    status: Seq<char>,
    theme: Theme,
    icons: IconSet,
) -> Seq<SpanView> {
    seq![
        span(mode_label(mode)@, Style { bold: true, ..mode_style(mode, theme) }),
        span(" "@, Style { bg: Some(Color::DarkGray), ..no_style() }),
        span(
            " "@ + icons.workspace@ + " "@ + (workspace_label(workspace) + " "@),
            chip_style(Color::Gray),
        ),
        span(" "@, no_style()),
    ] + (if backlinks > 0 {
        chip(backlinks_text(backlinks, icons), chip_style(Color::LightCyan))
    } else {
        Seq::empty()
    }) + seq![span(hint, theme.hint)] + (if status.len() > 0 {
        seq![span("  "@, no_style()), span(status, theme.status_message)]
    } else {
        Seq::empty()
    })
}

/// The left half of the footer.
pub fn left_segments(
    mode: &Mode,
    workspace: &Option<String>,
    backlinks: usize,
    hint: &str,
    status: &str,
    theme: &Theme,
    icons: &IconSet,
) -> (l: Line)
    ensures
        l@ == left_spans(*mode, *workspace, backlinks, hint@, status@, *theme, *icons),
{
    let (label, style) = match mode {
        Mode::Normal => (" NORMAL ", theme.status_normal),
        Mode::Insert { .. } => (" INSERT ", theme.status_insert),
        Mode::Visual { .. } => (" VISUAL ", theme.status_visual),
    };
    let mut spans: Vec<Span> = Vec::new();
    assert(spans_view(spans@) =~= Seq::empty());
    push_span(&mut spans, label, style.bold());
    push_span(&mut spans, " ", Style::new().bg(Color::DarkGray));
    let name = cat(label_of_workspace(workspace), " ");
    let t = cat4(" ", icons.workspace, " ", name.as_str());
    push_span(&mut spans, t.as_str(), style_of_chip(Color::Gray));
    push_span(&mut spans, " ", Style::new());
    if backlinks > 0 {
        let n = numeral(backlinks);
        let end = cat3(
            " backlink",
            if backlinks == 1 {
                ""
            } else {
                "s"
            },
            " ",
        );
        let t = cat5(" ", icons.backlinks, " ", n.as_str(), end.as_str());
        push_chip(&mut spans, t.as_str(), style_of_chip(Color::LightCyan));
    }
    push_span(&mut spans, hint, theme.hint);
    if !status.is_empty() {
        push_span(&mut spans, "  ", Style::new());
        push_span(&mut spans, status, theme.status_message);
    }
    let l = Line { spans };
    assert(l@ =~= left_spans(*mode, *workspace, backlinks, hint@, status@, *theme, *icons));
    l
}

/// Whether the page has been written.
pub open spec fn saved_text(saved: bool, status: Seq<char>, icons: IconSet) -> Seq<char> {
    if !saved {
        " ○ "@
    } else if status.len() == 0 {
        " "@ + icons.save@ + " saved "@
    } else {
        " "@ + icons.save@ + " "@
    }
}

/// The right half of the footer: the time, whether the page has been
/// written, and where the help is.
pub open spec fn right_spans(
    clock: Seq<char>,
    saved: bool,
    status: Seq<char>,
    theme: Theme,
    icons: IconSet,
) -> Seq<SpanView> {
    seq![
        span(" "@ + icons.clock@ + " "@ + (clock + " "@), chip_style(Color::Gray)),
        span(" "@, no_style()),
        span(saved_text(saved, status, icons), chip_style(Color::LightGreen)),
        span(" "@, no_style()),
        span(" ? help "@, theme.hint),
    ]
}

/// The right half of the footer. `clock` is the time of day.
pub fn right_segments(clock: &str, saved: bool, status: &str, theme: &Theme, icons: &IconSet) -> (l:
    Line)
    ensures
        l@ == right_spans(clock@, saved, status@, *theme, *icons),
{
    let mut spans: Vec<Span> = Vec::new();
    assert(spans_view(spans@) =~= Seq::empty());
    let end = cat(clock, " ");
    let t = cat4(" ", icons.clock, " ", end.as_str());
    push_span(&mut spans, t.as_str(), style_of_chip(Color::Gray));
    push_span(&mut spans, " ", Style::new());
    let s = if !saved {
        " ○ ".to_owned()
    } else if status.is_empty() {
        cat3(" ", icons.save, " saved ")
    } else {
        cat3(" ", icons.save, " ")
    };
    push_span(&mut spans, s.as_str(), style_of_chip(Color::LightGreen));
    push_span(&mut spans, " ", Style::new());
    push_span(&mut spans, " ? help ", theme.hint);
    let l = Line { spans };
    assert(l@ =~= right_spans(clock@, saved, status@, *theme, *icons));
    l
}

/// Two numbers together, as far as they can be counted.
pub open spec fn together(a: int, b: int) -> int {
    if a + b > usize::MAX {
        usize::MAX as int
    } else {
        a + b
    }
}

/// How many columns are set aside for the right half of the footer.
pub open spec fn right_room(icons: IconSet) -> int {
    together(
        together(
            together(
                width_of_text(" "@ + icons.clock@ + " 00:00 "@) as int,
                width_of_text(" "@ + icons.save@ + " saved "@) as int,
            ),
            width_of_text(" ? help "@) as int,
        ),
        2,
    )
}

/// How many columns are set aside for the right half of the footer.
pub fn right_segments_width(icons: &IconSet) -> (w: u16)
    ensures
        w == right_room(*icons) as u16,
{
    let clock = cat3(" ", icons.clock, " 00:00 ");
    let saved = cat3(" ", icons.save, " saved ");
    let w: usize = text_width(clock.as_str()).saturating_add(
        text_width(saved.as_str()),
    ).saturating_add(text_width(" ? help ")).saturating_add(2);
    w as u16
}

// ---------------------------------------------------------------------
// Panels
// ---------------------------------------------------------------------

/// A row set flush right.
pub open spec fn flush_right_body(row: Seq<SpanView>) -> BodyView {
    BodyView::Rows { lines: seq![row], down: 0, across: 0, wrap: false, flush_right: true }
}

fn make_flush_right(l: Line) -> (b: Body)
    ensures
        b@ == flush_right_body(l@),
{
    Body::Rows { lines: one_row(l), down: 0, across: 0, wrap: false, flush_right: true }
}

/// A framed bar with a row on the left and one flush right.
pub open spec fn bar_panels(
    area: Rect,
    left: Rect,
    right: Rect,
    title: Option<SpanView>,
    left_row: Seq<SpanView>,
    right_row: Seq<SpanView>,
    theme: Theme,
) -> Seq<PanelView> {
    seq![
        framed(area, theme.border, title, no_style(), BodyView::Blank),
        PanelView {
            area: left,
            border: None,
            style: no_style(),
            body: rows_body(seq![left_row], false),
        },
        PanelView {
            area: right,
            border: None,
            style: no_style(),
            body: flush_right_body(right_row),
        },
    ]
}

/// The header in areas that have been found for it.
pub fn place_header(
    area: Rect,
    left: Rect,
    right: Rect,
    path: Line,
    chips: Line,
    theme: &Theme,
) -> (r: Vec<Panel>)
    ensures
        panels_view(r@) == bar_panels(
            area,
            left,
            right,
            Some(span(" outl · "@ + theme.name@ + " "@, theme.hint)),
            path@,
            chips@,
            *theme,
        ),
{
    let title = cat3(" outl · ", theme.name, " ");
    panels3(
        Panel::titled(
            area,
            theme.border,
            Span::styled(title.as_str(), theme.hint),
            Style::new(),
            Body::Blank,
        ),
        Panel::bare(left, Style::new(), Body::row(path)),
        Panel::bare(right, Style::new(), make_flush_right(chips)),
    )
}

/// The footer in areas that have been found for it.
pub fn place_footer(
    area: Rect,
    left: Rect,
    right: Rect,
    left_row: Line,
    right_row: Line,
    theme: &Theme,
) -> (r: Vec<Panel>)
    ensures
        panels_view(r@) == bar_panels(area, left, right, None, left_row@, right_row@, *theme),
{
    panels3(
        Panel::framed(area, theme.border, Style::new(), Body::Blank),
        Panel::bare(left, Style::new(), Body::row(left_row)),
        Panel::bare(right, Style::new(), make_flush_right(right_row)),
    )
}

// ---------------------------------------------------------------------
// Laws
// ---------------------------------------------------------------------

/// The throbber turns once a second.
pub proof fn law_throbber_turns_once_a_second(millis: int)
    requires
        millis >= 0,
    ensures
        frame_at(millis + 1000) == frame_at(millis),
{
    assert((millis + 1000) / 100 == millis / 100 + 10);
}

/// Ages are counted in the largest unit that has passed.
pub proof fn law_ages_are_counted(n: int, k: int)
    requires
        n >= 1,
        k >= 0,
    ensures
        3 <= n < 60 ==> age_text(n) == decimal(n as nat) + "s ago"@,
        n < 60 && k < 60 ==> age_text(60 * n + k) == decimal(n as nat) + "m ago"@,
        k < 3600 ==> age_text(3600 * n + k) == decimal(n as nat) + "h ago"@,
        k < 3 ==> age_text(k) == "just now"@,
{
    assert(k < 60 ==> (60 * n + k) / 60 == n);
    assert(k < 3600 ==> (3600 * n + k) / 3600 == n);
}

/// The throbber shows another frame every tenth of a second.
pub proof fn law_the_throbber_moves(millis: int)
    requires
        millis >= 0,
    ensures
        frame_at(millis + 100) != frame_at(millis),
{
    let a = (millis / 100) % 10;
    assert((millis + 100) / 100 == millis / 100 + 1);
    assert((millis + 100) / 100 % 10 == (if a == 9 {
        0
    } else {
        a + 1
    }));
}

/// Each step of the way to the zoomed block is shown, in order, behind an
/// arrow.
pub proof fn law_every_crumb_is_shown(crumbs: Seq<Seq<char>>, theme: Theme, i: int)
    requires
        0 <= i < crumbs.len(),
    ensures
        crumb_spans(crumbs, theme).len() == 2 * crumbs.len(),
        crumb_spans(crumbs, theme)[2 * i].text == " ▸ "@,
        crumb_spans(crumbs, theme)[2 * i + 1].text == crumbs[i],
    decreases crumbs.len(),
{
    reveal_with_fuel(crumb_spans, 2);
    let d = crumbs.drop_last();
    if d.len() > 0 {
        law_every_crumb_is_shown(
            d,
            theme,
            if i < d.len() {
                i
            } else {
                0
            },
        );
    }
}

/// The footer begins with the mode and ends with the message, or with the hint
/// where there is none.
pub proof fn law_the_footer_says_what_is_up(
    mode: Mode,
    workspace: Option<String>,
    backlinks: usize,
    hint: Seq<char>,
    status: Seq<char>,
    theme: Theme,
    icons: IconSet,
)
    ensures
        ({
            let r = left_spans(mode, workspace, backlinks, hint, status, theme, icons);
            &&& r[0].text == mode_label(mode)@
            &&& status.len() > 0 ==> r.last().text == status && r[r.len() - 3].text == hint
            &&& status.len() == 0 ==> r.last().text == hint
            &&& r.len() == 5 + (if backlinks > 0 {
                2int
            } else {
                0
            }) + (if status.len() > 0 {
                2int
            } else {
                0
            })
            &&& backlinks > 0 ==> r[4].text == backlinks_text(backlinks, icons)
        }),
        mode is Normal ==> mode_label(mode)@ == " NORMAL "@,
        mode is Insert ==> mode_label(mode)@ == " INSERT "@,
        mode is Visual ==> mode_label(mode)@ == " VISUAL "@,
        mode is Normal ==> mode_style(mode, theme) == theme.status_normal,
        mode is Insert ==> mode_style(mode, theme) == theme.status_insert,
        mode is Visual ==> mode_style(mode, theme) == theme.status_visual,
{
}

/// There is a chip for each thing that there is to say, and all tasks done
/// look other than some left.
pub proof fn law_chips_say_what_there_is(c: Chips, millis: int, icons: IconSet)
    ensures
        chip_spans(c, millis, icons).len() == (if c.indexing {
            2int
        } else {
            0
        }) + (if c.total > 0 {
            2int
        } else {
            0
        }) + (if c.editing {
            2int
        } else {
            0
        }) + (if c.saved_secs is Some {
            2int
        } else {
            0
        }),
        !c.indexing && c.total > 0 ==> chip_spans(c, millis, icons)[0].text == " "@
            + icons.todo_chip@ + " "@ + decimal(c.done as nat) + ("/"@ + decimal(c.total as nat)
            + " "@) && chip_spans(c, millis, icons)[0].style.fg == Some(
            if c.done == c.total {
                Color::LightGreen
            } else {
                Color::LightYellow
            },
        ),
        chips_room(c) >= 6 * chip_spans(c, millis, icons).len(),
{
}

/// The header names the workspace, the page and each block zoomed into, in this
/// order.
pub proof fn law_the_header_names_the_page(
    workspace: Option<String>,
    screen: Screen,
    entry: Option<PageEntry>,
    crumbs: Seq<Seq<char>>,
    theme: Theme,
    icons: IconSet,
)
    ensures
        ({
            let r = path_spans(workspace, screen, entry, crumbs, theme, icons);
            let n = r.len() - crumb_spans(crumbs, theme).len();
            &&& r[0].text == " outl"@
            &&& workspace matches Some(w) ==> r[2].text == w@
            &&& r[n - 1].text == screen_title(screen, entry)
            &&& r.skip(n) == crumb_spans(crumbs, theme)
            &&& n == (if screen is Journal || (entry is Some && entry->0.icon is Some) {
                6int
            } else {
                5
            })
            &&& screen is Page && entry is Some ==> r[n - 1].text == entry->0.title@
            &&& screen is Page && entry is Some && entry->0.icon is Some ==> r[4].text
                == entry->0.icon->0@ + " "@
        }),
{
    let r = path_spans(workspace, screen, entry, crumbs, theme, icons);
    let n = r.len() - crumb_spans(crumbs, theme).len();
    assert(r.skip(n) =~= crumb_spans(crumbs, theme));
}

/// The right of the footer shows the time, whether the page is written, and
/// where the help is.
pub proof fn law_the_footer_shows_the_time(
    clock: Seq<char>,
    saved: bool,
    status: Seq<char>,
    theme: Theme,
    icons: IconSet,
)
    ensures
        right_spans(clock, saved, status, theme, icons)[0].text == " "@ + icons.clock@ + " "@ + (
        clock + " "@),
        right_spans(clock, saved, status, theme, icons)[2].text == (if !saved {
            " ○ "@
        } else if status.len() > 0 {
            " "@ + icons.save@ + " "@
        } else {
            " "@ + icons.save@ + " saved "@
        }),
        right_spans(clock, saved, status, theme, icons).last().text == " ? help "@,
        backlinks_text(1, icons) == " "@ + icons.backlinks@ + " "@ + decimal(1) + (" backlink"@
            + ""@ + " "@),
        forall|n: usize|
            n != 1 ==> #[trigger] backlinks_text(n, icons) == " "@ + icons.backlinks@ + " "@
                + decimal(n as nat) + (" backlink"@ + "s"@ + " "@),
{
}

} // verus!

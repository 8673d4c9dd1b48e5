//! The help popup.

use crate::icons::IconSet;
use crate::style::{
    lines_view, no_style, span, Color, Line, Rect, Span, SpanView, Style,
};
use crate::text::{cat, cat3, cat5, decimal, numeral};
use crate::theme::{popup_style_of, Theme};
use crate::view::overlays::{at_most, margin, panels3, push_row};
use crate::view::panel::{cleared, framed, panels_view, stacked, Body, BodyView, Panel, PanelView};
use crate::view::overlays::{split_typing_and_list, typing_and_list};
use crate::view::slash::framed_rows;
use vstd::prelude::*;

verus! {

/// A row of the help.
#[derive(Clone, Copy, Debug)]
pub enum HelpRow {
    /// A heading.
    Head(&'static str),
    /// Text.
    Text(&'static str),
    /// What the fold markers mean.
    FoldLegend,
    /// Text behind the icon of the calendar.
    Calendar(&'static str),
    /// Text behind the icon of pinned pages.
    Star(&'static str),
    /// Text behind the icon of recent pages.
    History(&'static str),
    /// The name of the theme.
    ThemeName,
}

/// A row of the help as it is drawn.
pub open spec fn help_line(r: HelpRow, theme: Theme, icons: IconSet) -> Seq<SpanView> {
    match r {
        HelpRow::Head(t) => seq![span(t@, theme.help_title)],
        HelpRow::Text(t) => seq![span(t@, no_style())],
        HelpRow::FoldLegend => seq![span(icons.fold_legend@, no_style())],
        HelpRow::Calendar(t) => seq![span("  "@ + icons.calendar@ + t@, no_style())],
        HelpRow::Star(t) => seq![span("  "@ + icons.star@ + t@, no_style())],
        HelpRow::History(t) => seq![span("  "@ + icons.history@ + t@, no_style())],
        HelpRow::ThemeName => seq![span("theme: "@ + theme.name@, theme.dim)],
    }
}

/// Rows of the help as they are drawn.
pub open spec fn help_lines(v: Seq<HelpRow>, theme: Theme, icons: IconSet) -> Seq<Seq<SpanView>> {
    v.map_values(|r: HelpRow| help_line(r, theme, icons))
}

fn make_help_row(r: HelpRow, theme: &Theme, icons: &IconSet) -> (l: Line)
    ensures
        l@ == help_line(r, *theme, *icons),
{
    match r {
        HelpRow::Head(t) => Line::styled(t, theme.help_title),
        HelpRow::Text(t) => Line::raw(t),
        HelpRow::FoldLegend => Line::raw(icons.fold_legend),
        HelpRow::Calendar(t) => {
            let s = cat3("  ", icons.calendar, t);
            Line::raw(s.as_str())
        },
        HelpRow::Star(t) => {
            let s = cat3("  ", icons.star, t);
            Line::raw(s.as_str())
        },
        HelpRow::History(t) => {
            let s = cat3("  ", icons.history, t);
            Line::raw(s.as_str())
        },
        HelpRow::ThemeName => {
            let s = cat("theme: ", theme.name);
            Line::styled(s.as_str(), theme.dim)
        },
    }
}

fn push_help(rows: &[HelpRow], theme: &Theme, icons: &IconSet, out: &mut Vec<Line>)
    ensures
        lines_view(final(out)@) == lines_view(old(out)@) + help_lines(rows@, *theme, *icons),
{
    let ghost want = help_lines(rows@, *theme, *icons);
    let ghost before = lines_view(out@);
    let mut i: usize = 0;
    assert(before + want.take(0) =~= before);
    while i < rows.len()
        invariant
            i <= rows@.len(),
            want == help_lines(rows@, *theme, *icons),
            lines_view(out@) == before + want.take(i as int),
        decreases rows@.len() - i,
    {
        let l = make_help_row(rows[i], theme, icons);
        assert(l@ == want[i as int]);
        push_row(out, l);
        i += 1;
        assert(lines_view(out@) =~= before + want.take(i as int));
    }
    assert(want.take(i as int) =~= want);
}

/// The tabs of the help.
pub const HELP_TABS: [&'static str; 6] = [
    "Normal",
    "Insert",
    "Visual",
    "Sidebar",
    "Overlays",
    "Dates",
];

/// The help on the tab `Normal`.
pub open spec fn normal_help() -> Seq<HelpRow> {
    seq![
        HelpRow::Head("Editing"),
        HelpRow::Text("  i           edit current block"),
        HelpRow::Text("  I           edit, cursor at start of block"),
        HelpRow::Text("  o / O       new block below / above"),
        HelpRow::Text("  Tab / S-Tab indent / outdent"),
        HelpRow::Text("  K / J       move block up / down (Alt+↑/↓ too)"),
        HelpRow::Text("  dd          delete block"),
        HelpRow::Text("  yy / p / P  yank · paste after · paste before"),
        HelpRow::Text("  Ctrl+T      cycle TODO / DOING / DONE / none"),
        HelpRow::Text("  c           fold / unfold the selected block"),
        HelpRow::FoldLegend,
        HelpRow::Text("  u / Ctrl+R  undo / redo"),
        HelpRow::Text("  g P         toggle pinned:: on this page (chord)"),
        HelpRow::Text(""),
        HelpRow::Head("Navigation"),
        HelpRow::Text("  j/k ↑↓      move between blocks"),
        HelpRow::Text("  PgDn/PgUp   one viewport"),
        HelpRow::Text("  Ctrl+D / U  half-page"),
        HelpRow::Text("  g g / G     first / last block"),
        HelpRow::Text("  h/l ←→      cursor inside the current block"),
        HelpRow::Text("  w / b       next / previous word"),
        HelpRow::Text("  0 / $       start / end of block"),
        HelpRow::Text("  Enter       open [[ref]] / #tag / journal under cursor"),
        HelpRow::Text(""),
        HelpRow::Head("Journal & workspace"),
        HelpRow::Text("  t           today's journal"),
        HelpRow::Text("  [ / ]       previous / next journal"),
        HelpRow::Text("  g j         jump to today"),
        HelpRow::Text("  g x         run code block under cursor (also `:run`)"),
        HelpRow::Text("  Ctrl+S      force save"),
        HelpRow::Text("  Ctrl+L      reload workspace from disk"),
        HelpRow::Text("  B           toggle inline backlinks"),
        HelpRow::Text("  \\           toggle left sidebar (opens with focus on Pinned)"),
        HelpRow::Text("  q q         quit (chord)"),
        HelpRow::Text(""),
        HelpRow::Head("Properties (key:: value)"),
        HelpRow::Text("  g p         open the property editor for this block"),
        HelpRow::Text("              j/k move · Enter edit · o add · dd delete"),
        HelpRow::Text("              p switches between block and page properties"),
        HelpRow::Text("              Tab completes the key from the workspace"),
        HelpRow::Text("              [[ picks a page in the value, # a tag"),
        HelpRow::Text("  :prop <key> <value>        set / clear on the block"),
        HelpRow::Text("  :prop-page <key> <value>   set / clear on the page"),
        HelpRow::Text(""),
        HelpRow::Head("Reminders"),
        HelpRow::Text("  g r         add remind:: to this block"),
        HelpRow::Text("  g R         nag me (now every 1h until DONE)"),
        HelpRow::Text("  g n         open the reminders list"),
        HelpRow::Text("  g s         snooze this block 1h (every device)"),
        HelpRow::Text("  :prop remind <rule>   edit or clear the rule"),
    ]
}

/// The help on the tab `Insert`.
pub open spec fn insert_help() -> Seq<HelpRow> {
    seq![
        HelpRow::Head("Commit / cancel"),
        HelpRow::Text("  Esc         commit (write buffer → AST → disk)"),
        HelpRow::Text("  Enter       commit + new block below"),
        HelpRow::Text(""),
        HelpRow::Head("Block ops (stay in Insert)"),
        HelpRow::Text("  Tab / S-Tab indent / outdent"),
        HelpRow::Text("  Ctrl+T      cycle TODO / DOING / DONE / none"),
        HelpRow::Text(""),
        HelpRow::Head("Text editing"),
        HelpRow::Text("  chars       insert at cursor"),
        HelpRow::Text("  Backspace   delete previous (deletes block if empty)"),
        HelpRow::Text("  arrows/home/end   move cursor"),
        HelpRow::Text("  ( [ {       auto-pair with matching close"),
        HelpRow::Text(""),
        HelpRow::Head("Autocomplete"),
        HelpRow::Text("  [[          page-ref picker"),
        HelpRow::Text("  #           tag picker"),
        HelpRow::Text("  /           slash command picker"),
    ]
}

/// The help on the tab `Visual`.
pub open spec fn visual_help() -> Seq<HelpRow> {
    seq![
        HelpRow::Head("Selection"),
        HelpRow::Text("  V           enter Visual (Normal mode)"),
        HelpRow::Text("  j / k       extend selection"),
        HelpRow::Text("  Esc         cancel"),
        HelpRow::Text(""),
        HelpRow::Head("Batch ops on the range"),
        HelpRow::Text("  d / x       delete selected blocks"),
        HelpRow::Text("  y           yank selected blocks"),
        HelpRow::Text("  Tab / S-Tab indent / outdent the range"),
    ]
}

/// The help on the tab `Sidebar`.
pub open spec fn sidebar_help() -> Seq<HelpRow> {
    seq![
        HelpRow::Head("Open / close"),
        HelpRow::Text("  \\           toggle sidebar (opens with focus on Pinned)"),
        HelpRow::Text("  Esc         return focus to the outline (sidebar stays open)"),
        HelpRow::Text(""),
        HelpRow::Head("Inside the sidebar"),
        HelpRow::Text("  j / k ↑↓    move between items in the focused section"),
        HelpRow::Text("  g / G       first / last item"),
        HelpRow::Text("  Tab / S-Tab cycle sections (Pinned → Recent → Calendar)"),
        HelpRow::Text("  Enter       open the highlighted page or journal"),
        HelpRow::Text(""),
        HelpRow::Head("Sections"),
        HelpRow::Calendar(" Calendar  current month — journals marked with ●"),
        HelpRow::Star(" Pinned    pages with `pinned:: true` property"),
        HelpRow::Text("              (toggle with `g P` chord in Normal, or `/pin`)"),
        HelpRow::History(" Recent    pages opened this session (LRU, cap 20)"),
    ]
}

/// The help on the tab `Overlays`.
pub open spec fn overlays_help() -> Seq<HelpRow> {
    seq![
        HelpRow::Head("Open"),
        HelpRow::Text("  Ctrl+P      quick switcher (pages + journals, with preview)"),
        HelpRow::Text("  /           slash command menu (Notion-style)"),
        HelpRow::Text("  :           vim-style palette (same registry as /)"),
        HelpRow::Text("  ?           toggle this help"),
        HelpRow::Text(""),
        HelpRow::Head("Inside an overlay"),
        HelpRow::Text("  ↑↓ j k      navigate candidates"),
        HelpRow::Text("  Enter       accept / run / open"),
        HelpRow::Text("  Esc         dismiss"),
        HelpRow::Text(""),
        HelpRow::Head("Search hits"),
        HelpRow::Text("  n / N       next / previous hit (after `/` is closed)"),
    ]
}

/// The help on the tab `Dates`.
pub open spec fn dates_help() -> Seq<HelpRow> {
    seq![
        HelpRow::Head("Insert-mode slash commands"),
        HelpRow::Text("  /date-today          [[YYYY-MM-DD]]  (also /dt, /dtm, /dy)"),
        HelpRow::Text("  /date-next-monday    next Monday's journal ref"),
        HelpRow::Text("                       (one alias per weekday)"),
        HelpRow::Text("  /date +3d            offset: +Nd, -Nw, +Nm  or absolute YYYY-MM-DD"),
        HelpRow::Text("  /time-now            HH:MM, plain (no brackets)"),
        HelpRow::Text("  /datetime-now        [[YYYY-MM-DD]] HH:MM  (alias /stamp)"),
        HelpRow::Text("  /iso-date-today      YYYY-MM-DD, no brackets (for `due::` etc)"),
        HelpRow::Text("  /week-num            #YYYY-Www  (ISO week as a tag)"),
        HelpRow::Text(""),
        HelpRow::ThemeName,
    ]
}

fn push_normal_help(out: &mut Vec<Line>, theme: &Theme, icons: &IconSet)
    ensures
        lines_view(final(out)@) == lines_view(old(out)@) + help_lines(normal_help(), *theme, *icons),
{
    let rows = [
        HelpRow::Head("Editing"),
        HelpRow::Text("  i           edit current block"),
        HelpRow::Text("  I           edit, cursor at start of block"),
        HelpRow::Text("  o / O       new block below / above"),
        HelpRow::Text("  Tab / S-Tab indent / outdent"),
        HelpRow::Text("  K / J       move block up / down (Alt+↑/↓ too)"),
        HelpRow::Text("  dd          delete block"),
        HelpRow::Text("  yy / p / P  yank · paste after · paste before"),
        HelpRow::Text("  Ctrl+T      cycle TODO / DOING / DONE / none"),
        HelpRow::Text("  c           fold / unfold the selected block"),
        HelpRow::FoldLegend,
        HelpRow::Text("  u / Ctrl+R  undo / redo"),
        HelpRow::Text("  g P         toggle pinned:: on this page (chord)"),
        HelpRow::Text(""),
        HelpRow::Head("Navigation"),
        HelpRow::Text("  j/k ↑↓      move between blocks"),
        HelpRow::Text("  PgDn/PgUp   one viewport"),
        HelpRow::Text("  Ctrl+D / U  half-page"),
        HelpRow::Text("  g g / G     first / last block"),
        HelpRow::Text("  h/l ←→      cursor inside the current block"),
        HelpRow::Text("  w / b       next / previous word"),
        HelpRow::Text("  0 / $       start / end of block"),
        HelpRow::Text("  Enter       open [[ref]] / #tag / journal under cursor"),
        HelpRow::Text(""),
        HelpRow::Head("Journal & workspace"),
        HelpRow::Text("  t           today's journal"),
        HelpRow::Text("  [ / ]       previous / next journal"),
        HelpRow::Text("  g j         jump to today"),
        HelpRow::Text("  g x         run code block under cursor (also `:run`)"),
        HelpRow::Text("  Ctrl+S      force save"),
        HelpRow::Text("  Ctrl+L      reload workspace from disk"),
        HelpRow::Text("  B           toggle inline backlinks"),
        HelpRow::Text("  \\           toggle left sidebar (opens with focus on Pinned)"),
        HelpRow::Text("  q q         quit (chord)"),
        HelpRow::Text(""),
        HelpRow::Head("Properties (key:: value)"),
        HelpRow::Text("  g p         open the property editor for this block"),
        HelpRow::Text("              j/k move · Enter edit · o add · dd delete"),
        HelpRow::Text("              p switches between block and page properties"),
        HelpRow::Text("              Tab completes the key from the workspace"),
        HelpRow::Text("              [[ picks a page in the value, # a tag"),
        HelpRow::Text("  :prop <key> <value>        set / clear on the block"),
        HelpRow::Text("  :prop-page <key> <value>   set / clear on the page"),
        HelpRow::Text(""),
        HelpRow::Head("Reminders"),
        HelpRow::Text("  g r         add remind:: to this block"),
        HelpRow::Text("  g R         nag me (now every 1h until DONE)"),
        HelpRow::Text("  g n         open the reminders list"),
        HelpRow::Text("  g s         snooze this block 1h (every device)"),
        HelpRow::Text("  :prop remind <rule>   edit or clear the rule"),
    ];
    assert(rows@ =~= normal_help());
    push_help(&rows, theme, icons, out);
}

fn push_insert_help(out: &mut Vec<Line>, theme: &Theme, icons: &IconSet)
    ensures
        lines_view(final(out)@) == lines_view(old(out)@) + help_lines(insert_help(), *theme, *icons),
{
    let rows = [
        HelpRow::Head("Commit / cancel"),
        HelpRow::Text("  Esc         commit (write buffer → AST → disk)"),
        HelpRow::Text("  Enter       commit + new block below"),
        HelpRow::Text(""),
        HelpRow::Head("Block ops (stay in Insert)"),
        HelpRow::Text("  Tab / S-Tab indent / outdent"),
        HelpRow::Text("  Ctrl+T      cycle TODO / DOING / DONE / none"),
        HelpRow::Text(""),
        HelpRow::Head("Text editing"),
        HelpRow::Text("  chars       insert at cursor"),
        HelpRow::Text("  Backspace   delete previous (deletes block if empty)"),
        HelpRow::Text("  arrows/home/end   move cursor"),
        HelpRow::Text("  ( [ {       auto-pair with matching close"),
        HelpRow::Text(""),
        HelpRow::Head("Autocomplete"),
        HelpRow::Text("  [[          page-ref picker"),
        HelpRow::Text("  #           tag picker"),
        HelpRow::Text("  /           slash command picker"),
    ];
    assert(rows@ =~= insert_help());
    push_help(&rows, theme, icons, out);
}

fn push_visual_help(out: &mut Vec<Line>, theme: &Theme, icons: &IconSet)
    ensures
        lines_view(final(out)@) == lines_view(old(out)@) + help_lines(visual_help(), *theme, *icons),
{
    let rows = [
        HelpRow::Head("Selection"),
        HelpRow::Text("  V           enter Visual (Normal mode)"),
        HelpRow::Text("  j / k       extend selection"),
        HelpRow::Text("  Esc         cancel"),
        HelpRow::Text(""),
        HelpRow::Head("Batch ops on the range"),
        HelpRow::Text("  d / x       delete selected blocks"),
        HelpRow::Text("  y           yank selected blocks"),
        HelpRow::Text("  Tab / S-Tab indent / outdent the range"),
    ];
    assert(rows@ =~= visual_help());
    push_help(&rows, theme, icons, out);
}

fn push_sidebar_help(out: &mut Vec<Line>, theme: &Theme, icons: &IconSet)
    ensures
        lines_view(final(out)@) == lines_view(old(out)@) + help_lines(sidebar_help(), *theme, *icons),
{
    let rows = [
        HelpRow::Head("Open / close"),
        HelpRow::Text("  \\           toggle sidebar (opens with focus on Pinned)"),
        HelpRow::Text("  Esc         return focus to the outline (sidebar stays open)"),
        HelpRow::Text(""),
        HelpRow::Head("Inside the sidebar"),
        HelpRow::Text("  j / k ↑↓    move between items in the focused section"),
        HelpRow::Text("  g / G       first / last item"),
        HelpRow::Text("  Tab / S-Tab cycle sections (Pinned → Recent → Calendar)"),
        HelpRow::Text("  Enter       open the highlighted page or journal"),
        HelpRow::Text(""),
        HelpRow::Head("Sections"),
        HelpRow::Calendar(" Calendar  current month — journals marked with ●"),
        HelpRow::Star(" Pinned    pages with `pinned:: true` property"),
        HelpRow::Text("              (toggle with `g P` chord in Normal, or `/pin`)"),
        HelpRow::History(" Recent    pages opened this session (LRU, cap 20)"),
    ];
    assert(rows@ =~= sidebar_help());
    push_help(&rows, theme, icons, out);
}

fn push_overlays_help(out: &mut Vec<Line>, theme: &Theme, icons: &IconSet)
    ensures
        lines_view(final(out)@) == lines_view(old(out)@) + help_lines(overlays_help(), *theme, *icons),
{
    let rows = [
        HelpRow::Head("Open"),
        HelpRow::Text("  Ctrl+P      quick switcher (pages + journals, with preview)"),
        HelpRow::Text("  /           slash command menu (Notion-style)"),
        HelpRow::Text("  :           vim-style palette (same registry as /)"),
        HelpRow::Text("  ?           toggle this help"),
        HelpRow::Text(""),
        HelpRow::Head("Inside an overlay"),
        HelpRow::Text("  ↑↓ j k      navigate candidates"),
        HelpRow::Text("  Enter       accept / run / open"),
        HelpRow::Text("  Esc         dismiss"),
        HelpRow::Text(""),
        HelpRow::Head("Search hits"),
        HelpRow::Text("  n / N       next / previous hit (after `/` is closed)"),
    ];
    assert(rows@ =~= overlays_help());
    push_help(&rows, theme, icons, out);
}

fn push_dates_help(out: &mut Vec<Line>, theme: &Theme, icons: &IconSet)
    ensures
        lines_view(final(out)@) == lines_view(old(out)@) + help_lines(dates_help(), *theme, *icons),
{
    let rows = [
        HelpRow::Head("Insert-mode slash commands"),
        HelpRow::Text("  /date-today          [[YYYY-MM-DD]]  (also /dt, /dtm, /dy)"),
        HelpRow::Text("  /date-next-monday    next Monday's journal ref"),
        HelpRow::Text("                       (one alias per weekday)"),
        HelpRow::Text("  /date +3d            offset: +Nd, -Nw, +Nm  or absolute YYYY-MM-DD"),
        HelpRow::Text("  /time-now            HH:MM, plain (no brackets)"),
        HelpRow::Text("  /datetime-now        [[YYYY-MM-DD]] HH:MM  (alias /stamp)"),
        HelpRow::Text("  /iso-date-today      YYYY-MM-DD, no brackets (for `due::` etc)"),
        HelpRow::Text("  /week-num            #YYYY-Www  (ISO week as a tag)"),
        HelpRow::Text(""),
        HelpRow::ThemeName,
    ];
    assert(rows@ =~= dates_help());
    push_help(&rows, theme, icons, out);
}

/// The help on a tab; a note that there is none where there is no such tab.
pub open spec fn help_of(tab: int) -> Seq<HelpRow> {
    if tab == 1 {
        insert_help()
    } else if tab == 2 {
        visual_help()
    } else if tab == 3 {
        sidebar_help()
    } else if tab == 4 {
        overlays_help()
    } else if tab == 5 {
        dates_help()
    } else if tab == 0 {
        normal_help()
    } else {
        seq![HelpRow::Text("  (no content for this tab)")]
    }
}

/// The help on a tab.
pub fn help_tab_body(tab: usize, theme: &Theme, icons: &IconSet) -> (r: Vec<Line>)
    ensures
        lines_view(r@) == help_lines(help_of(tab as int), *theme, *icons),
        r@.len() <= 100,
{
    let mut r: Vec<Line> = Vec::new();
    if tab == 1 {
        push_insert_help(&mut r, theme, icons);
    } else if tab == 2 {
        push_visual_help(&mut r, theme, icons);
    } else if tab == 3 {
        push_sidebar_help(&mut r, theme, icons);
    } else if tab == 4 {
        push_overlays_help(&mut r, theme, icons);
    } else if tab == 5 {
        push_dates_help(&mut r, theme, icons);
    } else if tab == 0 {
        push_normal_help(&mut r, theme, icons);
    } else {
        let rows = [HelpRow::Text("  (no content for this tab)")];
        assert(rows@ =~= help_of(tab as int));
        push_help(&rows, theme, icons, &mut r);
    }
    assert(lines_view(r@) =~= help_lines(help_of(tab as int), *theme, *icons));
    assert(lines_view(r@).len() == r@.len());
    r
}

// ---------------------------------------------------------------------
// The popup
// ---------------------------------------------------------------------

/// The tab that is open.
pub open spec fn open_tab(help_tab: usize) -> int {
    at_most(help_tab as int, 5)
}

/// The area of the help: in the middle, `popup_w` columns wide.
pub open spec fn help_area(full: Rect, popup_w: u16) -> Rect {
    let h = at_most(
        if full.height < 2 {
            0
        } else {
            full.height - 2
        },
        28,
    ) as u16;
    Rect {
        x: margin(full.width, popup_w) as u16,
        y: margin(full.height, h) as u16,
        width: popup_w,
        height: h,
    }
}

/// How far help of `total` rows can be scrolled in a view of `height` rows.
pub open spec fn last_scroll(total: int, height: int) -> int {
    if total < height {
        0
    } else {
        total - height
    }
}

/// The title of a tab. Where there is more than fits it says how far it is
/// scrolled.
pub open spec fn help_title(tab: int, scroll: int, total: int, height: int) -> Seq<char> {
    if total > height {
        " "@ + HELP_TABS@[tab]@ + " · ↕ "@ + decimal((scroll + 1) as nat) + ("/"@ + decimal(
            (last_scroll(total, height) + 1) as nat,
        ) + " "@)
    } else {
        " "@ + HELP_TABS@[tab]@ + " "@
    }
}

/// The titles of the tabs.
pub open spec fn tab_titles() -> Seq<Seq<SpanView>> {
    HELP_TABS@.map_values(|t: &'static str| seq![span(" "@ + t@ + " "@, no_style())])
}

/// The style of the tabs that are not open.
pub open spec fn tab_style(theme: Theme) -> Style {
    Style {
        fg: Some(
            match theme.dim.fg {
                Some(c) => c,
                None => Color::Gray,
            },
        ),
        ..popup_style_of(theme)
    }
}

/// The help popup.
pub open spec fn help_panels(
    area: Rect,
    top: Rect,
    bottom: Rect,
    help_tab: usize,
    help_scroll: u16,
    theme: Theme,
    icons: IconSet,
) -> Seq<PanelView> {
    let tab = open_tab(help_tab);
    let rows = help_lines(help_of(tab), theme, icons);
    let height = framed_rows(bottom.height);
    let scroll = at_most(help_scroll as int, last_scroll(rows.len() as int, height));
    seq![
        cleared(area),
        framed(
            top,
            theme.border,
            Some(
                span(
                    " Help · h/l tabs · j/k scroll · PgUp/PgDn page · g/G top/end · ? close "@,
                    theme.help_title,
                ),
            ),
            tab_style(theme),
            BodyView::Tabs {
                titles: tab_titles(),
                open: tab as usize,
                highlight: theme.list_selected,
                divider: span("│"@, theme.dim),
            },
        ),
        framed(
            bottom,
            theme.heading,
            Some(
                span(help_title(tab, scroll, rows.len() as int, height), theme.help_title),
            ),
            popup_style_of(theme),
            BodyView::Rows {
                lines: rows,
                down: scroll as u16,
                across: 0,
                wrap: true,
                flush_right: false,
            },
        ),
    ]
}

fn make_tab_titles() -> (r: Vec<Line>)
    ensures
        lines_view(r@) == tab_titles(),
{
    let ghost want = tab_titles();
    let mut r: Vec<Line> = Vec::new();
    let mut i: usize = 0;
    assert(lines_view(r@) =~= want.take(0));
    while i < 6
        invariant
            i <= 6,
            want == tab_titles(),
            lines_view(r@) == want.take(i as int),
        decreases 6 - i,
    {
        let t = cat3(" ", HELP_TABS[i], " ");
        let l = Line::raw(t.as_str());
        assert(l@ == want[i as int]);
        push_row(&mut r, l);
        i += 1;
        assert(lines_view(r@) =~= want.take(i as int));
    }
    assert(want.take(6) =~= want);
    r
}

/// The help popup in areas that have been found for it.
pub fn place_help(
    area: Rect,
    top: Rect,
    bottom: Rect,
    help_tab: usize,
    help_scroll: u16,
    theme: &Theme,
    icons: &IconSet,
) -> (r: Vec<Panel>)
    ensures
        panels_view(r@) == help_panels(
            area,
            top,
            bottom,
            help_tab,
            help_scroll,
            *theme,
            *icons,
        ),
{
    let tab: usize = if help_tab < 5 {
        help_tab
    } else {
        5
    };
    let body = help_tab_body(tab, theme, icons);
    let total: u16 = body.len() as u16;
    assert(lines_view(body@).len() == total);
    let height: u16 = bottom.height.saturating_sub(2);
    let last: u16 = total.saturating_sub(height);
    let scroll: u16 = if help_scroll < last {
        help_scroll
    } else {
        last
    };
    let title = if total > height {
        let at = numeral(scroll as usize + 1);
        let of = numeral(last as usize + 1);
        let end = cat3("/", of.as_str(), " ");
        cat5(" ", HELP_TABS[tab], " · ↕ ", at.as_str(), end.as_str())
    } else {
        cat3(" ", HELP_TABS[tab], " ")
    };
    let idle = match theme.dim.fg {
        Some(c) => theme.popup_style().fg(c),
        None => theme.popup_style().fg(Color::Gray),
    };
    panels3(
        Panel::cleared(area),
        Panel::titled(
            top,
            theme.border,
            Span::styled(
                " Help · h/l tabs · j/k scroll · PgUp/PgDn page · g/G top/end · ? close ",
                theme.help_title,
            ),
            idle,
            Body::Tabs {
                titles: make_tab_titles(),
                open: tab,
                highlight: theme.list_selected,
                divider: Span::styled("│", theme.dim),
            },
        ),
        Panel::titled(
            bottom,
            theme.heading,
            Span::styled(title.as_str(), theme.help_title),
            theme.popup_style(),
            Body::Rows { lines: body, down: scroll, across: 0, wrap: true, flush_right: false },
        ),
    )
}

/// The help popup, `popup_w` columns wide.
pub fn render_help_popup(
    full: Rect,
    popup_w: u16,
    help_tab: usize,
    help_scroll: u16,
    theme: &Theme,
    icons: &IconSet,
) -> (r: Vec<Panel>)
    ensures
        exists|rows: Seq<Rect>|
            {
                &&& #[trigger] stacked(help_area(full, popup_w), typing_and_list(), rows)
                &&& panels_view(r@) == help_panels(
                    help_area(full, popup_w),
                    rows[0],
                    rows[1],
                    help_tab,
                    help_scroll,
                    *theme,
                    *icons,
                )
            },
{
    let room: u16 = full.height.saturating_sub(2);
    let popup_h: u16 = if room < 28 {
        room
    } else {
        28
    };
    let area = Rect {
        x: full.width.saturating_sub(popup_w) / 2,
        y: full.height.saturating_sub(popup_h) / 2,
        width: popup_w,
        height: popup_h,
    };
    assert(area == help_area(full, popup_w));
    let rows = split_typing_and_list(area);
    let r = place_help(area, rows[0], rows[1], help_tab, help_scroll, theme, icons);
    assert(stacked(help_area(full, popup_w), typing_and_list(), rows@));
    r
}

// ---------------------------------------------------------------------
// Laws
// ---------------------------------------------------------------------

/// Each tab of the help has something to say under a heading, and each row is
/// drawn.
pub proof fn law_every_tab_has_help(tab: int, theme: Theme, icons: IconSet)
    requires
        0 <= tab < HELP_TABS@.len(),
    ensures
        help_of(tab).len() >= 9,
        help_of(tab)[0] is Head,
        help_lines(help_of(tab), theme, icons).len() == help_of(tab).len(),
        forall|i: int|
            0 <= i < help_of(tab).len() ==> (#[trigger] help_lines(
                help_of(tab),
                theme,
                icons,
            )[i]).len() == 1,
{
}

/// The tab that is open is one that there is, and the help scrolls as far as
/// its last row.
pub proof fn law_the_help_stays_in_its_rows(tab: usize, scroll: int, total: int, height: int)
    requires
        0 <= scroll,
        0 <= height,
        0 <= total,
    ensures
        0 <= open_tab(tab) < HELP_TABS@.len(),
        tab < HELP_TABS@.len() ==> open_tab(tab) == tab,
        total <= height ==> last_scroll(total, height) == 0,
        total > height ==> last_scroll(total, height) + height == total,
        at_most(scroll, last_scroll(total, height)) <= scroll,
        scroll <= last_scroll(total, height) ==> at_most(scroll, last_scroll(total, height))
            == scroll,
{
}

/// The help stands in the middle of the screen.
pub proof fn law_the_help_stands_in_the_middle(full: Rect, popup_w: u16)
    requires
        popup_w <= full.width,
    ensures
        0 <= full.width - (2 * help_area(full, popup_w).x + popup_w) <= 1,
        0 <= full.height - (2 * help_area(full, popup_w).y + help_area(full, popup_w).height) <= 1,
        help_area(full, popup_w).height <= 28,
        full.height >= 30 ==> help_area(full, popup_w).height == 28,
        2 <= full.height < 30 ==> help_area(full, popup_w).height == full.height - 2,
{
}

/// The tabs are named in their order, and the title of the help says which is
/// open and, where not all is in sight, how far it is scrolled.
pub proof fn law_tabs_are_named(tab: int, scroll: int, total: int, height: int)
    requires
        0 <= tab < HELP_TABS@.len(),
        0 <= scroll,
    ensures
        tab_titles().len() == HELP_TABS@.len(),
        tab_titles()[tab][0].text == " "@ + HELP_TABS@[tab]@ + " "@,
        total <= height ==> help_title(tab, scroll, total, height) == " "@ + HELP_TABS@[tab]@
            + " "@,
        total > height ==> help_title(tab, scroll, total, height) == " "@ + HELP_TABS@[tab]@
            + " · ↕ "@ + decimal((scroll + 1) as nat) + ("/"@ + decimal(
            (total - height + 1) as nat,
        ) + " "@),
{
}

} // verus!

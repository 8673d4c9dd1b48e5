//! What is drawn over the outline: the switcher, the search, the command
//! palette and the other popups.

use crate::autocomplete::{closer, opener, AutocompleteKind};
use crate::icons::IconSet;
use crate::state::{
    AutocompleteState, CommandState, ErrorState, QuickSwitchState, SearchHit, SearchState,
    SwitchKind,
};
use crate::style::{
    centered, centered_rect, lemma_lines_push, lines_view, no_style, row_text, span, Line, Rect,
    Span, SpanView, Style,
};
use crate::text::{
    cat, cat3, cat4, chars_of, contains, decimal, is_white, is_whitespace, lines_of, matches_at,
    numeral, occurs, repeated, split_lines, starts_with, string_range, texts, trim_start,
    trim_start_of,
};
use crate::theme::{popup_style_of, Theme};
use crate::view::inline::lemma_row_text_one;
use crate::view::panel::{
    cleared, framed, items_body, lemma_panels_push, on_screen, panels_view, rows_body,
    side_by_side, split_columns, split_rows, stacked, Body, Panel, PanelView, Part,
};
use vstd::prelude::*;

verus! {

/// The style of a row of a list.
pub open spec fn choice_style(chosen: bool, theme: Theme) -> Style {
    if chosen {
        theme.list_selected
    } else {
        no_style()
    }
}

/// The style of a row of a list.
pub fn style_of_choice(chosen: bool, theme: &Theme) -> (s: Style)
    ensures
        s == choice_style(chosen, *theme),
{
    if chosen {
        theme.list_selected
    } else {
        Style::new()
    }
}

/// Appends a row.
pub fn push_row(lines: &mut Vec<Line>, line: Line)
    ensures
        lines_view(final(lines)@) == lines_view(old(lines)@).push(line@),
{
    proof {
        lemma_lines_push(lines@, line);
    }
    lines.push(line);
}

/// Two panels.
pub fn panels2(a: Panel, b: Panel) -> (v: Vec<Panel>)
    ensures
        panels_view(v@) == seq![a@, b@],
{
    broadcast use lemma_panels_push;

    let mut v: Vec<Panel> = Vec::new();
    v.push(a);
    v.push(b);
    assert(panels_view(v@) =~= seq![a@, b@]);
    v
}

/// Three panels.
pub fn panels3(a: Panel, b: Panel, c: Panel) -> (v: Vec<Panel>)
    ensures
        panels_view(v@) == seq![a@, b@, c@],
{
    broadcast use lemma_panels_push;

    let mut v: Vec<Panel> = Vec::new();
    v.push(a);
    v.push(b);
    v.push(c);
    assert(panels_view(v@) =~= seq![a@, b@, c@]);
    v
}

// ---------------------------------------------------------------------
// The line that is typed into
// ---------------------------------------------------------------------

/// A prompt, what has been typed, and the caret.
pub open spec fn typed_row(prompt: Seq<char>, typed: Seq<char>, theme: Theme) -> Seq<SpanView> {
    seq![span(prompt, theme.help_title), span(typed, no_style()), span("▏"@, theme.cursor_caret)]
}

/// A titled panel with a line that is typed into.
pub open spec fn typing_panel(
    area: Rect,
    prompt: Seq<char>,
    typed: Seq<char>,
    title: Seq<char>,
    theme: Theme,
) -> PanelView {
    framed(
        area,
        theme.border,
        Some(span(title, theme.help_title)),
        popup_style_of(theme),
        rows_body(seq![typed_row(prompt, typed, theme)], false),
    )
}

/// A prompt, what has been typed, and the caret.
pub fn make_typed_row(prompt: &str, typed: &str, theme: &Theme) -> (l: Line)
    ensures
        l@ == typed_row(prompt@, typed@, *theme),
{
    Line::of3(
        Span::styled(prompt, theme.help_title),
        Span::raw(typed),
        Span::styled("▏", theme.cursor_caret),
    )
}

/// A titled panel with a line that is typed into.
pub fn make_typing_panel(area: Rect, prompt: &str, typed: &str, title: &str, theme: &Theme) -> (p: Panel)
    ensures
        p@ == typing_panel(area, prompt@, typed@, title@, *theme),
{
    Panel::titled(
        area,
        theme.border,
        Span::styled(title, theme.help_title),
        theme.popup_style(),
        Body::row(make_typed_row(prompt, typed, theme)),
    )
}

// ---------------------------------------------------------------------
// Completion
// ---------------------------------------------------------------------

/// What is known of a candidate: the icon of its page, the text of its
/// block, what its command does, or its glyph.
#[derive(Debug)]
pub struct CandidateInfo {
    pub icon: Option<String>,
    pub text: Option<String>,
    pub description: String,
    pub needs_args: bool,
    pub glyph: Option<String>,
}

/// How many rows the popup has for `n` candidates, with its frame.
pub open spec fn popup_height(n: int) -> int {
    if n + 2 < 10 {
        n + 2
    } else {
        10
    }
}

/// How wide the popup is on a screen of `width` columns.
pub open spec fn popup_width(width: int) -> int {
    if width < 4 {
        0
    } else if width - 4 < 36 {
        width - 4
    } else {
        36
    }
}

/// Where something of a size starts so that it ends `2` cells before the
/// end; at the start if there is no room.
pub open spec fn from_end(start: int, size: int, own: int) -> int {
    if size < own + 2 {
        start
    } else {
        start + size - (own + 2)
    }
}

/// The area of the popup: in the corner at the bottom right.
pub open spec fn popup_area(full: Rect, n: int) -> Rect {
    let w = popup_width(full.width as int);
    let h = popup_height(n);
    Rect {
        x: from_end(full.x as int, full.width as int, w) as u16,
        y: from_end(full.y as int, full.height as int, h) as u16,
        width: w as u16,
        height: h as u16,
    }
}

/// The title of the popup: what has been typed, as it is written.
pub open spec fn popup_title(kind: AutocompleteKind, query: Seq<char>) -> Seq<char> {
    match kind {
        AutocompleteKind::PageRef => "[["@ + query + "]]"@,
        AutocompleteKind::Tag => "#"@ + query,
        AutocompleteKind::BlockRef => "(("@ + query + "))"@,
        AutocompleteKind::SlashCommand => "/"@ + query,
        AutocompleteKind::Mention => "@"@ + query,
        AutocompleteKind::Emoji => ":"@ + query,
    }
}

/// The suffix of a command that takes arguments.
pub open spec fn args_suffix(needs_args: bool) -> Seq<char> {
    if needs_args {
        " …"@
    } else {
        ""@
    }
}

/// The row of a candidate.
pub open spec fn candidate_row(
    kind: AutocompleteKind,
    c: Seq<char>,
    info: CandidateInfo,
    style: Style,
    theme: Theme,
) -> Seq<SpanView> {
    match kind {
        AutocompleteKind::PageRef | AutocompleteKind::Tag | AutocompleteKind::Mention => seq![
            span(
                match info.icon {
                    Some(i) => i@ + " "@ + c,
                    None => c,
                },
                style,
            ),
        ],
        AutocompleteKind::BlockRef => seq![
            span(
                match info.text {
                    Some(t) => t@,
                    None => c,
                },
                style,
            ),
            span("  "@ + c, theme.dim),
        ],
        AutocompleteKind::SlashCommand => seq![
            span(c + args_suffix(info.needs_args) + "  "@, style),
            span(info.description@, theme.dim),
        ],
        AutocompleteKind::Emoji => seq![
            span(
                (match info.glyph {
                    Some(g) => g@,
                    None => ""@,
                }) + "  "@,
                style,
            ),
            span(":"@ + c + ":"@, theme.dim),
        ],
    }
}

/// The rows of the candidates.
pub open spec fn candidate_rows(
    ac: AutocompleteState,
    infos: Seq<CandidateInfo>,
    theme: Theme,
) -> Seq<Seq<SpanView>> {
    Seq::new(
        ac.candidates@.len(),
        |i: int|
            candidate_row(
                ac.kind,
                ac.candidates@[i]@,
                infos[i],
                choice_style(i == ac.selected, theme),
                theme,
            ),
    )
}

/// The popup with the candidates.
pub open spec fn completion_panels(
    full: Rect,
    ac: AutocompleteState,
    infos: Seq<CandidateInfo>,
    theme: Theme,
) -> Seq<PanelView> {
    let n = ac.candidates@.len() as int;
    if n == 0 {
        Seq::empty()
    } else {
        seq![
            cleared(popup_area(full, n)),
            framed(
                popup_area(full, n),
                theme.border,
                Some(span(popup_title(ac.kind, ac.query@), theme.help_title)),
                popup_style_of(theme),
                items_body(candidate_rows(ac, infos, theme), no_style()),
            ),
        ]
    }
}

fn make_candidate(
    kind: AutocompleteKind,
    c: &str,
    info: &CandidateInfo,
    style: Style,
    theme: &Theme,
) -> (l: Line)
    ensures
        l@ == candidate_row(kind, c@, *info, style, *theme),
{
    match kind {
        AutocompleteKind::PageRef | AutocompleteKind::Tag | AutocompleteKind::Mention => {
            let label = match &info.icon {
                Some(i) => cat3(i.as_str(), " ", c),
                None => c.to_owned(),
            };
            Line::styled(label.as_str(), style)
        },
        AutocompleteKind::BlockRef => {
            let handle = cat("  ", c);
            let text = match &info.text {
                Some(t) => t.as_str(),
                None => c,
            };
            Line::of2(Span::styled(text, style), Span::styled(handle.as_str(), theme.dim))
        },
        AutocompleteKind::SlashCommand => {
            let suffix = if info.needs_args {
                " …"
            } else {
                ""
            };
            let label = cat3(c, suffix, "  ");
            Line::of2(
                Span::styled(label.as_str(), style),
                Span::styled(info.description.as_str(), theme.dim),
            )
        },
        AutocompleteKind::Emoji => {
            let glyph = match &info.glyph {
                Some(g) => g.as_str(),
                None => "",
            };
            let label = cat(glyph, "  ");
            let code = cat3(":", c, ":");
            Line::of2(Span::styled(label.as_str(), style), Span::styled(code.as_str(), theme.dim))
        },
    }
}

fn make_popup_title(kind: AutocompleteKind, query: &str) -> (t: String)
    ensures
        t@ == popup_title(kind, query@),
{
    match kind {
        AutocompleteKind::PageRef => cat3("[[", query, "]]"),
        AutocompleteKind::Tag => cat("#", query),
        AutocompleteKind::BlockRef => cat3("((", query, "))"),
        AutocompleteKind::SlashCommand => cat("/", query),
        AutocompleteKind::Mention => cat("@", query),
        AutocompleteKind::Emoji => cat(":", query),
    }
}

/// The popup with the candidates that complete what is being typed. `infos`
/// says what is known of each of them.
pub fn render_autocomplete(
    full: Rect,
    ac: &AutocompleteState,
    infos: &Vec<CandidateInfo>,
    theme: &Theme,
) -> (r: Vec<Panel>)
    requires
        on_screen(full),
        infos@.len() == ac.candidates@.len(),
        ac.candidates@.len() + 2 <= u16::MAX,
    ensures
        panels_view(r@) == completion_panels(full, *ac, infos@, *theme),
{
    if ac.candidates.len() == 0 {
        let r: Vec<Panel> = Vec::new();
        assert(panels_view(r@) =~= Seq::empty());
        return r;
    }
    let rows: u16 = ac.candidates.len() as u16 + 2;
    let height: u16 = if rows < 10 {
        rows
    } else {
        10
    };
    let room: u16 = full.width.saturating_sub(4);
    let width: u16 = if room < 36 {
        room
    } else {
        36
    };
    let area = Rect {
        x: full.x + full.width.saturating_sub(width + 2),
        y: full.y + full.height.saturating_sub(height + 2),
        width,
        height,
    };
    assert(area == popup_area(full, ac.candidates@.len() as int));
    let mut items: Vec<Line> = Vec::new();
    let ghost want = candidate_rows(*ac, infos@, *theme);
    let mut i: usize = 0;
    assert(lines_view(items@) =~= want.take(0));
    while i < ac.candidates.len()
        invariant
            i <= ac.candidates@.len(),
            infos@.len() == ac.candidates@.len(),
            want == candidate_rows(*ac, infos@, *theme),
            lines_view(items@) == want.take(i as int),
        decreases ac.candidates@.len() - i,
    {
        let l = make_candidate(
            ac.kind,
            ac.candidates[i].as_str(),
            &infos[i],
            style_of_choice(i == ac.selected, theme),
            theme,
        );
        assert(l@ == want[i as int]);
        push_row(&mut items, l);
        i += 1;
        assert(lines_view(items@) =~= want.take(i as int));
    }
    assert(want.take(i as int) =~= want);
    let title = make_popup_title(ac.kind, ac.query.as_str());
    panels2(
        Panel::cleared(area),
        Panel::titled(
            area,
            theme.border,
            Span::styled(title.as_str(), theme.help_title),
            theme.popup_style(),
            Body::items(items, Style::new()),
        ),
    )
}

// ---------------------------------------------------------------------
// The quick switcher
// ---------------------------------------------------------------------

/// The icon of a row of the switcher, and a space.
pub open spec fn switch_icon(kind: SwitchKind, icons: IconSet) -> Seq<char> {
    match kind {
        SwitchKind::Page => icons.file@ + " "@,
        SwitchKind::Journal => icons.calendar@ + " "@,
    }
}

/// The rows of the switcher.
pub open spec fn switch_rows(qs: QuickSwitchState, theme: Theme, icons: IconSet) -> Seq<
    Seq<SpanView>,
> {
    Seq::new(
        qs.candidates@.len(),
        |i: int|
            seq![
                span(switch_icon(qs.candidates@[i].kind, icons), no_style()),
                span(qs.candidates@[i].label@, choice_style(i == qs.selected, theme)),
            ],
    )
}

/// What is known of the page that is previewed.
#[derive(Debug)]
pub enum Preview {
    NotIndexed,
    Unreadable,
    Text(String),
}

/// How many bytes a character takes up.
pub open spec fn utf8_size(c: char) -> nat {
    let n = c as u32;
    if n < 0x80 {
        1
    } else if n < 0x800 {
        2
    } else if n < 0x10000 {
        3
    } else {
        4
    }
}

/// How many bytes the white space at the front of a text takes up.
pub open spec fn indent_bytes(s: Seq<char>) -> nat
    decreases s.len(),
{
    if s.len() == 0 || !is_white(s[0]) {
        0
    } else {
        utf8_size(s[0]) + indent_bytes(s.skip(1))
    }
}

/// A line of a page as it is previewed: a bullet for a block, and properties
/// dimmed.
pub open spec fn preview_row(line: Seq<char>, theme: Theme) -> Seq<SpanView> {
    let t = trim_start_of(line);
    if t.len() == 0 {
        seq![span(""@, no_style())]
    } else if matches_at(t, "- "@, 0) {
        seq![
            span(repeated(' ', indent_bytes(line)), no_style()),
            span("• "@, theme.bullet),
            span(t.skip(2), no_style()),
        ]
    } else if occurs(t, "::"@) {
        seq![span(line, theme.dim)]
    } else {
        seq![span(line, no_style())]
    }
}

/// The smaller of two.
pub open spec fn at_most(n: int, max: int) -> int {
    if n < max {
        n
    } else {
        max
    }
}

/// The first `max` lines of a page as they are previewed.
pub open spec fn preview_rows(text: Seq<char>, max: int, theme: Theme) -> Seq<Seq<SpanView>> {
    let lines = lines_of(text);
    let n = at_most(lines.len() as int, max);
    if n == 0 {
        seq![seq![span("  (empty page)"@, theme.dim)]]
    } else {
        Seq::new(n as nat, |i: int| preview_row(lines[i], theme))
    }
}

/// What is shown of the page that is previewed, in an area of a height.
pub open spec fn preview_body(preview: Preview, height: u16, theme: Theme) -> Seq<Seq<SpanView>> {
    match preview {
        Preview::Text(t) => preview_rows(
            t@,
            if height < 2 {
                0
            } else {
                height - 2
            },
            theme,
        ),
        Preview::Unreadable => seq![seq![span("  (couldn't read file)"@, theme.dim)]],
        Preview::NotIndexed => seq![seq![span("  (not yet indexed)"@, theme.dim)]],
    }
}

/// The preview beside the switcher.
pub open spec fn preview_panel(
    area: Rect,
    qs: QuickSwitchState,
    preview: Preview,
    theme: Theme,
    icons: IconSet,
) -> PanelView {
    if qs.selected < qs.candidates@.len() {
        let c = qs.candidates@[qs.selected as int];
        framed(
            area,
            theme.border,
            Some(
                span(
                    " "@ + switch_icon(c.kind, icons) + c.label@ + " "@,
                    theme.help_title,
                ),
            ),
            popup_style_of(theme),
            rows_body(preview_body(preview, area.height, theme), true),
        )
    } else {
        framed(
            area,
            theme.border,
            Some(span(" preview "@, theme.help_title)),
            popup_style_of(theme),
            rows_body(seq![seq![span("  (type to search)"@, theme.dim)]], false),
        )
    }
}

/// The switcher: the line that is typed into, the list, and the preview.
pub open spec fn switch_panels(
    area: Rect,
    top: Rect,
    left: Rect,
    right: Rect,
    qs: QuickSwitchState,
    preview: Preview,
    theme: Theme,
    icons: IconSet,
) -> Seq<PanelView> {
    seq![
        cleared(area),
        typing_panel(top, " › "@, qs.query@, "Quick Switcher"@, theme),
        framed(
            left,
            theme.border,
            Some(
                span(
                    decimal(qs.candidates@.len()) + " matches  ↑↓ Enter Esc"@,
                    no_style(),
                ),
            ),
            popup_style_of(theme),
            items_body(switch_rows(qs, theme, icons), no_style()),
        ),
        preview_panel(right, qs, preview, theme, icons),
    ]
}

fn push_blanks(r: &mut String, c: char)
    ensures
        final(r)@ == old(r)@ + repeated(' ', utf8_size(c)),
{
    let n: u32 = c as u32;
    r.push(' ');
    if n >= 0x80 {
        r.push(' ');
    }
    if n >= 0x800 {
        r.push(' ');
    }
    if n >= 0x10000 {
        r.push(' ');
    }
    assert(r@ =~= old(r)@ + repeated(' ', utf8_size(c)));
}

fn blank_indent(v: &Vec<char>) -> (r: String)
    ensures
        r@ == repeated(' ', indent_bytes(v@)),
{
    let mut r = String::new();
    let mut i: usize = 0;
    assert(v@.skip(0) =~= v@);
    assert(r@ + repeated(' ', indent_bytes(v@)) =~= repeated(' ', indent_bytes(v@)));
    while i < v.len() && is_whitespace(v[i])
        invariant
            i <= v@.len(),
            r@ + repeated(' ', indent_bytes(v@.skip(i as int))) == repeated(' ', indent_bytes(v@)),
        decreases v@.len() - i,
    {
        let ghost rest = v@.skip(i as int);
        assert(rest[0] == v@[i as int]);
        assert(rest.skip(1) =~= v@.skip(i + 1));
        assert(repeated(' ', utf8_size(rest[0])) + repeated(' ', indent_bytes(rest.skip(1)))
            =~= repeated(' ', indent_bytes(rest)));
        let ghost was = r@;
        push_blanks(&mut r, v[i]);
        assert(was + (repeated(' ', utf8_size(rest[0])) + repeated(' ', indent_bytes(rest.skip(1))))
            =~= r@ + repeated(' ', indent_bytes(rest.skip(1))));
        i += 1;
    }
    if i < v.len() {
        assert(v@.skip(i as int)[0] == v@[i as int]);
    }
    assert(indent_bytes(v@.skip(i as int)) == 0);
    assert(r@ + repeated(' ', 0) =~= r@);
    r
}

fn make_preview_row(line: &str, theme: &Theme) -> (l: Line)
    ensures
        l@ == preview_row(line@, *theme),
{
    let t = trim_start(line);
    if t.as_str().is_empty() {
        return Line::raw("");
    }
    if starts_with(t.as_str(), "- ") {
        proof {
            reveal_strlit("- ");
        }
        let v = chars_of(line);
        let indent = blank_indent(&v);
        let tv = chars_of(t.as_str());
        let rest = string_range(&tv, 2, tv.len());
        assert(rest@ =~= t@.skip(2));
        return Line::of3(
            Span::raw(indent.as_str()),
            Span::styled("• ", theme.bullet),
            Span::raw(rest.as_str()),
        );
    }
    if contains(t.as_str(), "::") {
        Line::styled(line, theme.dim)
    } else {
        Line::raw(line)
    }
}

/// One row alone.
pub fn one_row(line: Line) -> (v: Vec<Line>)
    ensures
        lines_view(v@) == seq![line@],
{
    let mut v: Vec<Line> = Vec::new();
    push_row(&mut v, line);
    assert(lines_view(v@) =~= seq![line@]);
    v
}

/// The first `max` lines of a page as they are previewed.
pub fn preview_lines(text: &str, max: usize, theme: &Theme) -> (r: Vec<Line>)
    ensures
        lines_view(r@) == preview_rows(text@, max as int, *theme),
{
    let lines = split_lines(text);
    let ghost all = lines_of(text@);
    let n: usize = if lines.len() < max {
        lines.len()
    } else {
        max
    };
    assert(all.len() == lines@.len());
    if n == 0 {
        return one_row(Line::styled("  (empty page)", theme.dim));
    }
    let ghost want = preview_rows(text@, max as int, *theme);
    let mut r: Vec<Line> = Vec::new();
    let mut i: usize = 0;
    assert(lines_view(r@) =~= want.take(0));
    while i < n
        invariant
            i <= n <= lines@.len(),
            all == texts(lines@),
            want == Seq::new(n as nat, |j: int| preview_row(all[j], *theme)),
            lines_view(r@) == want.take(i as int),
        decreases n - i,
    {
        assert(all[i as int] == lines@[i as int]@);
        let l = make_preview_row(lines[i].as_str(), theme);
        assert(l@ == want[i as int]);
        push_row(&mut r, l);
        i += 1;
        assert(lines_view(r@) =~= want.take(i as int));
    }
    assert(want.take(i as int) =~= want);
    r
}

fn make_switch_icon(kind: SwitchKind, icons: &IconSet) -> (r: String)
    ensures
        r@ == switch_icon(kind, *icons),
{
    match kind {
        SwitchKind::Page => cat(icons.file, " "),
        SwitchKind::Journal => cat(icons.calendar, " "),
    }
}

/// The preview of the page that is highlighted in the switcher.
pub fn render_preview_pane(
    area: Rect,
    qs: &QuickSwitchState,
    preview: &Preview,
    theme: &Theme,
    icons: &IconSet,
) -> (p: Panel)
    ensures
        p@ == preview_panel(area, *qs, *preview, *theme, *icons),
{
    if qs.selected >= qs.candidates.len() {
        return Panel::titled(
            area,
            theme.border,
            Span::styled(" preview ", theme.help_title),
            theme.popup_style(),
            Body::row(Line::styled("  (type to search)", theme.dim)),
        );
    }
    let c = &qs.candidates[qs.selected];
    let body = match preview {
        Preview::Text(t) => preview_lines(
            t.as_str(),
            area.height.saturating_sub(2) as usize,
            theme,
        ),
        Preview::Unreadable => one_row(Line::styled("  (couldn't read file)", theme.dim)),
        Preview::NotIndexed => one_row(Line::styled("  (not yet indexed)", theme.dim)),
    };
    let icon = make_switch_icon(c.kind, icons);
    let title = cat4(" ", icon.as_str(), c.label.as_str(), " ");
    Panel::titled(
        area,
        theme.border,
        Span::styled(title.as_str(), theme.help_title),
        theme.popup_style(),
        Body::rows(body, true),
    )
}

/// The switcher in areas that have been found for it.
pub fn place_quick_switch(
    area: Rect,
    top: Rect,
    left: Rect,
    right: Rect,
    qs: &QuickSwitchState,
    preview: &Preview,
    theme: &Theme,
    icons: &IconSet,
) -> (r: Vec<Panel>)
    ensures
        panels_view(r@) == switch_panels(area, top, left, right, *qs, *preview, *theme, *icons),
{
    let ghost want = switch_rows(*qs, *theme, *icons);
    let mut items: Vec<Line> = Vec::new();
    let mut i: usize = 0;
    assert(lines_view(items@) =~= want.take(0));
    while i < qs.candidates.len()
        invariant
            i <= qs.candidates@.len(),
            want == switch_rows(*qs, *theme, *icons),
            lines_view(items@) == want.take(i as int),
        decreases qs.candidates@.len() - i,
    {
        let c = &qs.candidates[i];
        let icon = make_switch_icon(c.kind, icons);
        let l = Line::of2(
            Span::raw(icon.as_str()),
            Span::styled(c.label.as_str(), style_of_choice(i == qs.selected, theme)),
        );
        assert(l@ == want[i as int]);
        push_row(&mut items, l);
        i += 1;
        assert(lines_view(items@) =~= want.take(i as int));
    }
    assert(want.take(i as int) =~= want);
    let n = numeral(qs.candidates.len());
    let title = cat(n.as_str(), " matches  ↑↓ Enter Esc");
    let mut r = panels3(
        Panel::cleared(area),
        make_typing_panel(top, " › ", qs.query.as_str(), "Quick Switcher", theme),
        Panel::titled(
            left,
            theme.border,
            Span::raw(title.as_str()),
            theme.popup_style(),
            Body::items(items, Style::new()),
        ),
    );
    let p = render_preview_pane(right, qs, preview, theme, icons);
    proof {
        lemma_panels_push(r@, p);
    }
    r.push(p);
    assert(panels_view(r@) =~= switch_panels(
        area,
        top,
        left,
        right,
        *qs,
        *preview,
        *theme,
        *icons,
    ));
    r
}

/// The parts of a popup with a line that is typed into and a list below it.
pub open spec fn typing_and_list() -> Seq<Part> {
    seq![Part::Length(3), Part::Min(3)]
}

/// The parts of a list with a preview beside it.
pub open spec fn list_and_preview() -> Seq<Part> {
    seq![Part::Percentage(40), Part::Percentage(60)]
}

/// The areas of a line that is typed into and of a list below it.
pub fn split_typing_and_list(area: Rect) -> (rows: Vec<Rect>)
    ensures
        rows@.len() == 2,
        stacked(area, typing_and_list(), rows@),
{
    let parts = [Part::Length(3), Part::Min(3)];
    assert(parts@ =~= typing_and_list());
    split_rows(area, &parts)
}

/// The quick switcher.
pub fn render_quick_switch(
    full: Rect,
    qs: &QuickSwitchState,
    preview: &Preview,
    theme: &Theme,
    icons: &IconSet,
) -> (r: Vec<Panel>)
    requires
        on_screen(full),
    ensures
        exists|rows: Seq<Rect>, cols: Seq<Rect>|
            {
                &&& #[trigger] stacked(centered(full, 80, 70), typing_and_list(), rows)
                &&& #[trigger] side_by_side(rows[1], list_and_preview(), cols)
                &&& panels_view(r@) == switch_panels(
                    centered(full, 80, 70),
                    rows[0],
                    cols[0],
                    cols[1],
                    *qs,
                    *preview,
                    *theme,
                    *icons,
                )
            },
{
    let area = centered_rect(full, 80, 70);
    let rows = split_typing_and_list(area);
    let parts = [Part::Percentage(40), Part::Percentage(60)];
    assert(parts@ =~= list_and_preview());
    let cols = split_columns(rows[1], &parts);
    let r = place_quick_switch(area, rows[0], cols[0], cols[1], qs, preview, theme, icons);
    assert(stacked(centered(full, 80, 70), typing_and_list(), rows@));
    assert(side_by_side(rows@[1], list_and_preview(), cols@));
    r
}

// ---------------------------------------------------------------------
// Search, the command line, errors
// ---------------------------------------------------------------------

/// The row of a hit.
pub open spec fn hit_row(h: SearchHit, style: Style, theme: Theme) -> Seq<SpanView> {
    let icon = match h.page_icon {
        Some(i) => i@ + " "@,
        None => ""@,
    };
    seq![
        span(" "@ + icon + h.page_label@ + " · "@, theme.dim),
        span(h.snippet@, style),
    ]
}

/// The rows of the hits.
pub open spec fn hit_rows(s: SearchState, theme: Theme) -> Seq<Seq<SpanView>> {
    Seq::new(
        s.hits@.len(),
        |i: int| hit_row(s.hits@[i], choice_style(i == s.selected, theme), theme),
    )
}

/// The search: the line that is typed into, and the hits.
pub open spec fn search_panels(area: Rect, top: Rect, bottom: Rect, s: SearchState, theme: Theme) -> Seq<
    PanelView,
> {
    seq![
        cleared(area),
        typing_panel(top, " / "@, s.query@, "Search"@, theme),
        framed(
            bottom,
            theme.border,
            Some(
                span(
                    decimal(s.hits@.len()) + " hits  ↑↓ navigate · Enter jump · Esc cancel"@,
                    no_style(),
                ),
            ),
            popup_style_of(theme),
            rows_body(hit_rows(s, theme), true),
        ),
    ]
}

/// The search in areas that have been found for it.
pub fn place_search(area: Rect, top: Rect, bottom: Rect, s: &SearchState, theme: &Theme) -> (r: Vec<
    Panel,
>)
    ensures
        panels_view(r@) == search_panels(area, top, bottom, *s, *theme),
{
    let ghost want = hit_rows(*s, *theme);
    let mut lines: Vec<Line> = Vec::new();
    let mut i: usize = 0;
    assert(lines_view(lines@) =~= want.take(0));
    while i < s.hits.len()
        invariant
            i <= s.hits@.len(),
            want == hit_rows(*s, *theme),
            lines_view(lines@) == want.take(i as int),
        decreases s.hits@.len() - i,
    {
        let h = &s.hits[i];
        let icon = match &h.page_icon {
            Some(i) => cat(i.as_str(), " "),
            None => "".to_owned(),
        };
        let label = cat4(" ", icon.as_str(), h.page_label.as_str(), " · ");
        let l = Line::of2(
            Span::styled(label.as_str(), theme.dim),
            Span::styled(h.snippet.as_str(), style_of_choice(i == s.selected, theme)),
        );
        assert(l@ == want[i as int]);
        push_row(&mut lines, l);
        i += 1;
        assert(lines_view(lines@) =~= want.take(i as int));
    }
    assert(want.take(i as int) =~= want);
    let n = numeral(s.hits.len());
    let title = cat(n.as_str(), " hits  ↑↓ navigate · Enter jump · Esc cancel");
    panels3(
        Panel::cleared(area),
        make_typing_panel(top, " / ", s.query.as_str(), "Search", theme),
        Panel::titled(
            bottom,
            theme.border,
            Span::raw(title.as_str()),
            theme.popup_style(),
            Body::rows(lines, true),
        ),
    )
}

/// The search.
pub fn render_search_overlay(full: Rect, s: &SearchState, theme: &Theme) -> (r: Vec<Panel>)
    requires
        on_screen(full),
    ensures
        exists|rows: Seq<Rect>|
            {
                &&& #[trigger] stacked(centered(full, 75, 70), typing_and_list(), rows)
                &&& panels_view(r@) == search_panels(
                    centered(full, 75, 70),
                    rows[0],
                    rows[1],
                    *s,
                    *theme,
                )
            },
{
    let area = centered_rect(full, 75, 70);
    let rows = split_typing_and_list(area);
    let r = place_search(area, rows[0], rows[1], s, theme);
    assert(stacked(centered(full, 75, 70), typing_and_list(), rows@));
    r
}

/// The area of the command line: the last three rows.
pub open spec fn command_area(full: Rect) -> Rect {
    Rect {
        x: full.x,
        y: if full.height < 3 {
            full.y
        } else {
            (full.y + full.height - 3) as u16
        },
        width: full.width,
        height: 3,
    }
}

/// The command line.
pub fn render_command_bar(full: Rect, c: &CommandState, theme: &Theme) -> (r: Vec<Panel>)
    requires
        on_screen(full),
    ensures
        panels_view(r@) == seq![
            cleared(command_area(full)),
            framed(
                command_area(full),
                theme.border,
                None,
                popup_style_of(*theme),
                rows_body(seq![typed_row(" : "@, c.buffer@, *theme)], false),
            ),
        ],
{
    let area = Rect {
        x: full.x,
        y: full.y + full.height.saturating_sub(3),
        width: full.width,
        height: 3,
    };
    assert(area == command_area(full));
    panels2(
        Panel::cleared(area),
        Panel::framed(
            area,
            theme.border,
            theme.popup_style(),
            Body::row(make_typed_row(" : ", c.buffer.as_str(), theme)),
        ),
    )
}

/// The half of what is left.
pub open spec fn margin(size: u16, own: u16) -> int {
    if size < own {
        0
    } else {
        (size - own) / 2
    }
}

/// How high an error is: its lines and what goes around them, but not more
/// than `max_h`.
pub open spec fn error_height(body: Seq<char>, max_h: u16) -> int {
    let n = lines_of(body).len() as int;
    at_most(
        (if n == 0 {
            1
        } else {
            n
        }) + 4,
        max_h as int,
    )
}

/// The area of an error: in the middle, `popup_w` columns wide.
pub open spec fn error_area(full: Rect, popup_w: u16, max_h: u16, body: Seq<char>) -> Rect {
    let h = error_height(body, max_h) as u16;
    Rect {
        x: margin(full.width, popup_w) as u16,
        y: margin(full.height, h) as u16,
        width: popup_w,
        height: h,
    }
}

/// The rows of a text.
pub open spec fn plain_rows(body: Seq<char>) -> Seq<Seq<SpanView>> {
    Seq::new(lines_of(body).len(), |i: int| seq![span(lines_of(body)[i], no_style())])
}

/// An error that has to be dismissed. `popup_w` and `max_h` are how wide and
/// how high it may be.
pub fn render_error_overlay(
    full: Rect,
    popup_w: u16,
    max_h: u16,
    err: &ErrorState,
    theme: &Theme,
) -> (r: Vec<Panel>)
    requires
        lines_of(err.body@).len() + 4 <= u16::MAX,
    ensures
        panels_view(r@) == seq![
            cleared(error_area(full, popup_w, max_h, err.body@)),
            framed(
                error_area(full, popup_w, max_h, err.body@),
                theme.status_message,
                Some(
                    span(
                        " ✕ "@ + err.title@ + " · press any key to dismiss "@,
                        theme.status_message,
                    ),
                ),
                popup_style_of(*theme),
                rows_body(plain_rows(err.body@), true),
            ),
        ],
{
    let body = split_lines(err.body.as_str());
    let ghost all = lines_of(err.body@);
    assert(all.len() == body@.len());
    let n: u16 = if body.len() == 0 {
        1
    } else {
        body.len() as u16
    };
    let popup_h: u16 = if n + 4 < max_h {
        n + 4
    } else {
        max_h
    };
    let area = Rect {
        x: full.width.saturating_sub(popup_w) / 2,
        y: full.height.saturating_sub(popup_h) / 2,
        width: popup_w,
        height: popup_h,
    };
    assert(area == error_area(full, popup_w, max_h, err.body@));
    let ghost want = plain_rows(err.body@);
    let mut lines: Vec<Line> = Vec::new();
    let mut i: usize = 0;
    assert(lines_view(lines@) =~= want.take(0));
    while i < body.len()
        invariant
            i <= body@.len(),
            all == texts(body@),
            want.len() == body@.len(),
            forall|j: int|
                0 <= j < body@.len() ==> #[trigger] want[j] == seq![span(all[j], no_style())],
            lines_view(lines@) == want.take(i as int),
        decreases body@.len() - i,
    {
        assert(all[i as int] == body@[i as int]@);
        let l = Line::raw(body[i].as_str());
        assert(l@ == want[i as int]);
        push_row(&mut lines, l);
        i += 1;
        assert(lines_view(lines@) =~= want.take(i as int));
    }
    assert(want.take(i as int) =~= want);
    let title = cat3(" ✕ ", err.title.as_str(), " · press any key to dismiss ");
    panels2(
        Panel::cleared(area),
        Panel::titled(
            area,
            theme.status_message,
            Span::styled(title.as_str(), theme.status_message),
            theme.popup_style(),
            Body::rows(lines, true),
        ),
    )
}

// ---------------------------------------------------------------------
// Laws
// ---------------------------------------------------------------------

/// The popup of completions stands at the lower right, on the screen, with a
/// row for each candidate as far as ten rows reach, and names what is typed as
/// it is typed.
pub proof fn law_the_popup_is_on_the_screen(full: Rect, n: int)
    requires
        on_screen(full),
        full.width >= 4,
        full.height >= 12,
        n >= 1,
    ensures
        popup_area(full, n).x >= full.x && popup_area(full, n).y >= full.y,
        popup_area(full, n).x + popup_area(full, n).width + 2 == full.x + full.width
            || popup_area(full, n).x == full.x,
        popup_area(full, n).x + popup_area(full, n).width <= full.x + full.width,
        popup_area(full, n).y + popup_area(full, n).height + 2 == full.y + full.height,
        popup_area(full, n).width <= 36,
        n <= 8 ==> popup_area(full, n).height == n + 2,
        n > 8 ==> popup_area(full, n).height == 10,
{
}

/// The popup is titled by what was typed to open it.
pub proof fn law_the_title_is_what_was_typed(kind: AutocompleteKind, query: Seq<char>)
    ensures
        popup_title(kind, query).take((opener(kind) + query).len() as int) == opener(kind) + query,
        kind == AutocompleteKind::PageRef || kind == AutocompleteKind::BlockRef ==> popup_title(
            kind,
            query,
        ) == opener(kind) + query + closer(kind),
        kind != AutocompleteKind::PageRef && kind != AutocompleteKind::BlockRef ==> popup_title(
            kind,
            query,
        ) == opener(kind) + query,
{
    reveal_strlit("[[");
    reveal_strlit("((");
    reveal_strlit("#");
    reveal_strlit("/");
    reveal_strlit("@");
    reveal_strlit(":");
    reveal_strlit("]]");
    reveal_strlit("))");
    if kind == AutocompleteKind::PageRef || kind == AutocompleteKind::BlockRef {
        assert(popup_title(kind, query) =~= opener(kind) + query + closer(kind));
    } else {
        assert(popup_title(kind, query) =~= opener(kind) + query);
    }
    assert(popup_title(kind, query).take((opener(kind) + query).len() as int) =~= opener(kind)
        + query);
}

/// Each candidate has its row, in order, and the selected one alone stands out.
pub proof fn law_candidates_are_listed_in_order(
    ac: AutocompleteState,
    infos: Seq<CandidateInfo>,
    theme: Theme,
    i: int,
)
    requires
        0 <= i < ac.candidates@.len(),
    ensures
        candidate_rows(ac, infos, theme).len() == ac.candidates@.len(),
        ({
            let r = candidate_rows(ac, infos, theme)[i];
            let c = ac.candidates@[i]@;
            &&& r[0].style == (if i == ac.selected {
                theme.list_selected
            } else {
                no_style()
            })
            &&& (ac.kind == AutocompleteKind::PageRef || ac.kind == AutocompleteKind::Tag || ac.kind
                == AutocompleteKind::Mention) && infos[i].icon is None ==> r[0].text == c
            &&& ac.kind == AutocompleteKind::BlockRef ==> r[1].text == "  "@ + c && (
            infos[i].text matches Some(t) ==> r[0].text == t@)
            &&& ac.kind == AutocompleteKind::SlashCommand ==> r[0].text.take(c.len() as int) == c
                && r[1].text == infos[i].description@
            &&& ac.kind == AutocompleteKind::Emoji ==> r[1].text == ":"@ + c + ":"@
        }),
{
    let r = candidate_rows(ac, infos, theme)[i];
    let c = ac.candidates@[i]@;
    if ac.kind == AutocompleteKind::SlashCommand {
        assert(r[0].text.take(c.len() as int) =~= c);
    }
}

/// The command line stands at the foot of the screen.
pub proof fn law_the_command_line_is_at_the_foot(full: Rect)
    requires
        on_screen(full),
        full.height >= 3,
    ensures
        command_area(full).y + command_area(full).height == full.y + full.height,
        command_area(full).x == full.x && command_area(full).width == full.width,
        command_area(full).height == 3,
{
}

/// An error stands in the middle, with its lines, and no higher than there is
/// room.
pub proof fn law_an_error_stands_in_the_middle(
    full: Rect,
    popup_w: u16,
    max_h: u16,
    body: Seq<char>,
)
    requires
        popup_w <= full.width,
        max_h <= full.height,
    ensures
        ({
            let a = error_area(full, popup_w, max_h, body);
            &&& 0 <= full.width - (2 * a.x + a.width) <= 1
            &&& 0 <= full.height - (2 * a.y + a.height) <= 1
            &&& a.height <= max_h
            &&& lines_of(body).len() + 4 <= max_h && body.len() > 0 ==> a.height >= lines_of(
                body,
            ).len() + 4
        }),
        plain_rows(body).len() == lines_of(body).len(),
        forall|i: int|
            0 <= i < lines_of(body).len() ==> row_text(#[trigger] plain_rows(body)[i]) == lines_of(
                body,
            )[i],
{
    assert forall|i: int| 0 <= i < lines_of(body).len() implies row_text(
        #[trigger] plain_rows(body)[i],
    ) == lines_of(body)[i] by {
        lemma_row_text_one(span(lines_of(body)[i], no_style()));
    }
}

/// A preview shows the lines of the page from the first on, as many as there is
/// room for, bullets for the outline's marks.
pub proof fn law_a_preview_shows_the_first_lines(text: Seq<char>, max: int, theme: Theme, i: int)
    requires
        0 <= i < max,
        i < lines_of(text).len(),
    ensures
        preview_rows(text, max, theme).len() == (if lines_of(text).len() < max {
            lines_of(text).len() as int
        } else {
            max
        }),
        preview_rows(text, max, theme)[i] == preview_row(lines_of(text)[i], theme),
        ({
            let line = lines_of(text)[i];
            let t = trim_start_of(line);
            let r = preview_row(line, theme);
            &&& matches_at(t, "- "@, 0) ==> r.len() == 3 && r[1].text == "• "@ && r[2].text
                == t.skip(2)
            &&& t.len() > 0 && !matches_at(t, "- "@, 0) ==> row_text(r) == line
        }),
{
    reveal_strlit("- ");
    let line = lines_of(text)[i];
    lemma_row_text_one(span(line, theme.dim));
    lemma_row_text_one(span(line, no_style()));
}

/// Each hit and each candidate of the switcher has its row, in order, and the
/// selected one alone stands out.
pub proof fn law_hits_are_listed_in_order(
    s: SearchState,
    qs: QuickSwitchState,
    theme: Theme,
    icons: IconSet,
)
    ensures
        hit_rows(s, theme).len() == s.hits@.len(),
        forall|i: int|
            0 <= i < s.hits@.len() ==> (#[trigger] hit_rows(s, theme)[i])[1] == span(
                s.hits@[i].snippet@,
                if i == s.selected {
                    theme.list_selected
                } else {
                    no_style()
                },
            ),
        switch_rows(qs, theme, icons).len() == qs.candidates@.len(),
        forall|i: int|
            0 <= i < qs.candidates@.len() ==> (#[trigger] switch_rows(qs, theme, icons)[i])[1]
                == span(
                qs.candidates@[i].label@,
                if i == qs.selected {
                    theme.list_selected
                } else {
                    no_style()
                },
            ),
{
}

} // verus!

//! The properties of a block or a page as they are drawn.

use crate::state::{PropertiesState, PropertyEdit, PropertyField, PropertyScope};
use crate::style::{
    centered, centered_rect, lines_view, no_style, span, Line, Rect, Span, SpanView, Style,
};
use crate::text::{
    cat, cat3, cat5, decimal, eq_ignore_ascii_case, join_first, joined, numeral,
    same_ignoring_case, texts,
};
use crate::theme::{popup_style_of, Theme};
use crate::view::overlays::{panels3, push_row};
use crate::view::panel::{
    cleared, framed, on_screen, panels_view, scrolled_body, stacked, Body, Panel, PanelView,
};
use crate::view::settings::{
    help_line, list_and_help, list_scroll, make_help_line, scroll_of_list, split_list_and_help,
};
use crate::view::slash::empty_row;
use vstd::prelude::*;

verus! {

/// How many keys are offered at a time.
pub const KEY_HINT_LIMIT: usize = 6;

/// The keys that can be completed to: the first of them, and how many more
/// there are.
pub open spec fn hint_of(keys: Seq<Seq<char>>) -> Seq<char> {
    if keys.len() == 0 {
        "(no matching key — type a new one)"@
    } else if keys.len() > KEY_HINT_LIMIT {
        joined(keys.take(KEY_HINT_LIMIT as int), "  "@) + "  +"@ + decimal(
            (keys.len() - KEY_HINT_LIMIT) as nat,
        )
    } else {
        joined(keys, "  "@)
    }
}

/// The keys that can be completed to, as they are offered.
pub fn key_hint(matches: &[String]) -> (r: String)
    ensures
        r@ == hint_of(texts(matches@)),
{
    if matches.len() == 0 {
        return "(no matching key — type a new one)".to_owned();
    }
    if matches.len() > KEY_HINT_LIMIT {
        let head = join_first(matches, KEY_HINT_LIMIT, "  ");
        let more = numeral(matches.len() - KEY_HINT_LIMIT);
        cat3(head.as_str(), "  +", more.as_str())
    } else {
        let head = join_first(matches, matches.len(), "  ");
        assert(texts(matches@).take(matches@.len() as int) =~= texts(matches@));
        head
    }
}

/// What properties are those of.
pub open spec fn scope_name(scope: PropertyScope) -> &'static str {
    match scope {
        PropertyScope::Block => "block",
        PropertyScope::Page => "page",
    }
}

/// What properties can be switched to.
pub open spec fn other_scope_name(scope: PropertyScope) -> &'static str {
    match scope {
        PropertyScope::Block => "page",
        PropertyScope::Page => "block",
    }
}

impl PropertyScope {
    /// What properties are those of.
    pub fn label(self) -> (r: &'static str)
        ensures
            r == scope_name(self),
    {
        match self {
            PropertyScope::Block => "block",
            PropertyScope::Page => "page",
        }
    }
}

/// The property with a key is being edited.
pub open spec fn edits_key(editing: Option<PropertyEdit>, key: Seq<char>) -> bool {
    match editing {
        Some(e) => match e.original_key {
            Some(k) => same_ignoring_case(k@, key),
            None => false,
        },
        None => false,
    }
}

/// The row of a property.
pub open spec fn listed_row(
    key: Seq<char>,
    value: Seq<char>,
    selected: bool,
    editing: Option<PropertyEdit>,
    theme: Theme,
) -> Seq<SpanView> {
    let here = edits_key(editing, key);
    let marked = here || (selected && editing is None);
    let style = if marked {
        theme.help_title
    } else {
        no_style()
    };
    seq![
        span(
            (if marked {
                "❯ "@
            } else {
                "  "@
            }) + key,
            style,
        ),
        span(":: "@, theme.dim),
        span(
            if here {
                editing->0.value@ + "▏"@
            } else {
                value
            },
            style,
        ),
    ]
}

/// The rows of the properties, or a row that says that there are none.
pub open spec fn listed_rows(s: PropertiesState, theme: Theme) -> Seq<Seq<SpanView>> {
    if s.rows@.len() == 0 {
        seq![
            seq![
                span(
                    "  no "@ + scope_name(s.scope)@ + " properties yet — `o` adds one"@,
                    theme.dim,
                ),
            ],
        ]
    } else {
        Seq::new(
            s.rows@.len(),
            |i: int|
                listed_row(s.rows@[i].0@, s.rows@[i].1@, i == s.selected, s.editing, theme),
        )
    }
}

/// The rows of a property that is being added: its key, and while that is
/// typed the keys that can be completed to; then its value.
pub open spec fn added_rows(editing: Option<PropertyEdit>, theme: Theme) -> Seq<Seq<SpanView>> {
    match editing {
        Some(e) => if e.original_key is Some {
            Seq::empty()
        } else {
            match e.field {
                PropertyField::Key => seq![
                    empty_row(),
                    seq![
                        span("❯ "@ + e.key@ + "▏"@, theme.help_title),
                        span(":: "@, theme.dim),
                        span(""@, theme.help_title),
                    ],
                    seq![span("    Tab: "@ + hint_of(texts(e.key_matches@)), theme.dim)],
                ],
                PropertyField::Value => seq![
                    empty_row(),
                    seq![
                        span("  "@ + e.key@, theme.help_title),
                        span(":: "@, theme.dim),
                        span(e.value@ + "▏"@, theme.help_title),
                    ],
                ],
            }
        },
        None => Seq::empty(),
    }
}

/// The line below the properties.
pub open spec fn properties_help(s: PropertiesState) -> Seq<char> {
    match s.message {
        Some(m) => m@,
        None => match s.editing {
            Some(e) => match e.field {
                PropertyField::Key => "Tab complete key · Enter → value · Esc cancel"@,
                PropertyField::Value => "`[[` picks a page · `#` a tag · Enter save · Esc cancel"@,
            },
            None => "j/k move · Enter edit · o add · dd delete · p page/block · q close"@,
        },
    }
}

/// The properties overlay.
pub open spec fn properties_panels(
    area: Rect,
    top: Rect,
    bottom: Rect,
    s: PropertiesState,
    theme: Theme,
) -> Seq<PanelView> {
    seq![
        cleared(area),
        framed(
            top,
            theme.border,
            Some(
                span(
                    " Properties · "@ + scope_name(s.scope)@ + " — `p` switches to "@
                        + other_scope_name(s.scope)@ + " "@,
                    theme.help_title,
                ),
            ),
            popup_style_of(theme),
            scrolled_body(
                listed_rows(s, theme) + added_rows(s.editing, theme),
                list_scroll(s.selected),
            ),
        ),
        help_line(bottom, properties_help(s), theme),
    ]
}

fn make_listed_row(
    key: &str,
    value: &str,
    selected: bool,
    editing: &Option<PropertyEdit>,
    theme: &Theme,
) -> (l: Line)
    ensures
        l@ == listed_row(key@, value@, selected, *editing, *theme),
{
    let edited: Option<String> = match editing {
        Some(e) => match &e.original_key {
            Some(k) => if eq_ignore_ascii_case(k.as_str(), key) {
                Some(cat(e.value.as_str(), "▏"))
            } else {
                None
            },
            None => None,
        },
        None => None,
    };
    let marked = edited.is_some() || (selected && editing.is_none());
    let style = if marked {
        theme.help_title
    } else {
        Style::new()
    };
    let label = cat(
        if marked {
            "❯ "
        } else {
            "  "
        },
        key,
    );
    let shown = match &edited {
        Some(t) => t.as_str(),
        None => value,
    };
    Line::of3(
        Span::styled(label.as_str(), style),
        Span::styled(":: ", theme.dim),
        Span::styled(shown, style),
    )
}

fn push_added(editing: &Option<PropertyEdit>, theme: &Theme, lines: &mut Vec<Line>)
    ensures
        lines_view(final(lines)@) == lines_view(old(lines)@) + added_rows(*editing, *theme),
{
    let ghost before = lines_view(lines@);
    if let Some(e) = editing {
        if e.original_key.is_none() {
            push_row(lines, Line::raw(""));
            match e.field {
                PropertyField::Key => {
                    let key = cat3("❯ ", e.key.as_str(), "▏");
                    push_row(
                        lines,
                        Line::of3(
                            Span::styled(key.as_str(), theme.help_title),
                            Span::styled(":: ", theme.dim),
                            Span::styled("", theme.help_title),
                        ),
                    );
                    let hint = key_hint(&e.key_matches);
                    let tab = cat("    Tab: ", hint.as_str());
                    push_row(lines, Line::styled(tab.as_str(), theme.dim));
                },
                PropertyField::Value => {
                    let key = cat("  ", e.key.as_str());
                    let value = cat(e.value.as_str(), "▏");
                    push_row(
                        lines,
                        Line::of3(
                            Span::styled(key.as_str(), theme.help_title),
                            Span::styled(":: ", theme.dim),
                            Span::styled(value.as_str(), theme.help_title),
                        ),
                    );
                },
            }
        }
    }
    assert(lines_view(lines@) =~= before + added_rows(*editing, *theme));
}

fn make_listed(s: &PropertiesState, theme: &Theme) -> (lines: Vec<Line>)
    ensures
        lines_view(lines@) == listed_rows(*s, *theme),
{
    let mut lines: Vec<Line> = Vec::new();
    if s.rows.len() == 0 {
        let t = cat3("  no ", s.scope.label(), " properties yet — `o` adds one");
        push_row(&mut lines, Line::styled(t.as_str(), theme.dim));
        assert(lines_view(lines@) =~= listed_rows(*s, *theme));
        return lines;
    }
    let ghost want = listed_rows(*s, *theme);
    let mut i: usize = 0;
    assert(lines_view(lines@) =~= want.take(0));
    while i < s.rows.len()
        invariant
            i <= s.rows@.len(),
            s.rows@.len() > 0,
            want == listed_rows(*s, *theme),
            lines_view(lines@) == want.take(i as int),
        decreases s.rows@.len() - i,
    {
        let l = make_listed_row(
            s.rows[i].0.as_str(),
            s.rows[i].1.as_str(),
            i == s.selected,
            &s.editing,
            theme,
        );
        assert(l@ == want[i as int]);
        push_row(&mut lines, l);
        i += 1;
        assert(lines_view(lines@) =~= want.take(i as int));
    }
    assert(want.take(i as int) =~= want);
    lines
}

/// The properties overlay in areas that have been found for it.
pub fn place_properties(area: Rect, top: Rect, bottom: Rect, s: &PropertiesState, theme: &Theme) -> (r:
    Vec<Panel>)
    ensures
        panels_view(r@) == properties_panels(area, top, bottom, *s, *theme),
{
    let mut lines = make_listed(s, theme);
    push_added(&s.editing, theme, &mut lines);
    let other = match s.scope {
        PropertyScope::Block => "page",
        PropertyScope::Page => "block",
    };
    let title = cat5(" Properties · ", s.scope.label(), " — `p` switches to ", other, " ");
    let help = match &s.message {
        Some(m) => m.as_str(),
        None => match &s.editing {
            Some(e) => match e.field {
                PropertyField::Key => "Tab complete key · Enter → value · Esc cancel",
                PropertyField::Value => "`[[` picks a page · `#` a tag · Enter save · Esc cancel",
            },
            None => "j/k move · Enter edit · o add · dd delete · p page/block · q close",
        },
    };
    panels3(
        Panel::cleared(area),
        Panel::titled(
            top,
            theme.border,
            Span::styled(title.as_str(), theme.help_title),
            theme.popup_style(),
            Body::scrolled(lines, scroll_of_list(s.selected)),
        ),
        make_help_line(bottom, help, theme),
    )
}

/// The properties overlay.
pub fn render_properties(full: Rect, s: &PropertiesState, theme: &Theme) -> (r: Vec<Panel>)
    requires
        on_screen(full),
    ensures
        exists|rows: Seq<Rect>|
            {
                &&& #[trigger] stacked(centered(full, 68, 56), list_and_help(), rows)
                &&& panels_view(r@) == properties_panels(
                    centered(full, 68, 56),
                    rows[0],
                    rows[1],
                    *s,
                    *theme,
                )
            },
{
    let area = centered_rect(full, 68, 56);
    let rows = split_list_and_help(area);
    let r = place_properties(area, rows[0], rows[1], s, theme);
    assert(stacked(centered(full, 68, 56), list_and_help(), rows@));
    r
}

// ---------------------------------------------------------------------
// Laws
// ---------------------------------------------------------------------

/// Each property has its row, in order: its key and its value. The mark stands
/// at the one selected, and while one is edited at that one.
pub proof fn law_every_property_has_a_row(s: PropertiesState, theme: Theme, i: int)
    requires
        0 <= i < s.rows@.len(),
    ensures
        listed_rows(s, theme).len() == s.rows@.len(),
        ({
            let r = listed_rows(s, theme)[i];
            &&& r[0].text.skip(2) == s.rows@[i].0@
            &&& r[1].text == ":: "@
            &&& s.editing is None ==> r[2].text == s.rows@[i].1@
            &&& s.editing is None ==> (r[0].text[0] == '❯' <==> i == s.selected)
            &&& s.editing is Some && s.editing->0.original_key is None ==> r[0].text[0] != '❯'
                && r[2].text == s.rows@[i].1@
        }),
{
    reveal_strlit("❯ ");
    reveal_strlit("  ");
    let r = listed_rows(s, theme)[i];
    assert(r[0].text.skip(2) =~= s.rows@[i].0@);
}

/// Of the keys that match, the first six are named and the others counted.
pub proof fn law_some_keys_are_named(keys: Seq<Seq<char>>)
    requires
        keys.len() > 0,
    ensures
        keys.len() <= 6 ==> hint_of(keys) == joined(keys, "  "@),
        keys.len() > 6 ==> hint_of(keys) == joined(keys.take(6), "  "@) + "  +"@ + decimal(
            (keys.len() - 6) as nat,
        ),
        forall|s: PropertyScope| scope_name(s)@ != #[trigger] other_scope_name(s)@,
{
    reveal_strlit("block");
    reveal_strlit("page");
    assert("block"@.len() != "page"@.len());
}

} // verus!

//! The settings of the plugins.

use crate::actions::plugins::{as_typed, value_to_input};
use crate::state::{PluginSettingsEntry, PluginSettingsState, SettingField, SettingKind};
use crate::style::{
    centered, centered_rect, lines_view, no_style, span, Line, Rect, Span, SpanView, Style,
};
use crate::text::{cat, cat3, cat5, chars_of, opt_text, repeat, repeated};
use crate::theme::{popup_style_of, Theme};
use crate::view::overlays::{panels3, push_row};
use crate::view::panel::{
    cleared, framed, on_screen, panels_view, rows_body, scrolled_body, split_rows, stacked, Body,
    Panel, PanelView, Part,
};
use crate::view::slash::empty_row;
use vstd::prelude::*;

verus! {

/// The name of a type of setting.
pub open spec fn kind_name(kind: SettingKind) -> &'static str {
    match kind {
        SettingKind::Text => "string",
        SettingKind::Number => "number",
        SettingKind::Boolean => "boolean",
    }
}

/// What is shown of the value of a setting. A secret is never shown: while
/// it is typed there is a dot for each character, and else only whether it
/// is set.
pub open spec fn shown_value(f: SettingField, typed: Option<Seq<char>>) -> Seq<char> {
    match typed {
        Some(t) => (if f.secret {
            repeated('•', t.len())
        } else {
            t
        }) + "▏"@,
        None => if f.secret {
            if f.is_set {
                "set"@
            } else {
                "not set"@
            }
        } else {
            match f.value {
                Some(v) => as_typed(v@),
                None => match f.default {
                    Some(d) => "("@ + as_typed(d@) + ")"@,
                    None => "(unset)"@,
                },
            }
        },
    }
}

/// The row of a setting. `typed` is what has been typed while it is edited.
pub open spec fn setting_row(
    f: SettingField,
    selected: bool,
    typed: Option<Seq<char>>,
    theme: Theme,
) -> Seq<SpanView> {
    seq![
        span(
            (if selected {
                "❯ "@
            } else {
                "  "@
            }) + f.key@ + "  ["@ + kind_name(f.kind)@ + ("]  "@ + shown_value(
                f,
                if selected {
                    typed
                } else {
                    None
                },
            )),
            if selected {
                theme.help_title
            } else {
                no_style()
            },
        ),
    ]
}

/// The rows of the settings of a plugin, the first of which is the one at
/// `first` over all plugins.
pub open spec fn field_rows(
    fields: Seq<SettingField>,
    first: int,
    ps: PluginSettingsState,
    theme: Theme,
) -> Seq<Seq<SpanView>> {
    Seq::new(
        fields.len(),
        |j: int|
            setting_row(fields[j], first + j == ps.selected, opt_text(ps.editing), theme),
    )
}

/// The rows of the plugins: the name of each, its settings, and an empty
/// row.
pub open spec fn entry_rows(
    entries: Seq<PluginSettingsEntry>,
    ps: PluginSettingsState,
    theme: Theme,
) -> Seq<Seq<SpanView>>
    decreases entries.len(),
{
    if entries.len() == 0 {
        Seq::empty()
    } else {
        let d = entries.drop_last();
        let e = entries.last();
        (entry_rows(d, ps, theme).push(
            seq![span(" "@ + e.plugin_id@ + " "@, theme.help_title)],
        ) + field_rows(e.fields@, field_count(d), ps, theme)).push(empty_row())
    }
}

/// How many settings plugins have together.
pub open spec fn field_count(entries: Seq<PluginSettingsEntry>) -> int
    decreases entries.len(),
{
    if entries.len() == 0 {
        0
    } else {
        field_count(entries.drop_last()) + entries.last().fields@.len()
    }
}

/// The line below the settings.
pub open spec fn settings_help(ps: PluginSettingsState) -> Seq<char> {
    match ps.message {
        Some(m) => m@,
        None => if ps.editing is Some {
            "Enter save · Esc cancel"@
        } else {
            "↑↓ move · Enter edit/toggle · Esc close"@
        },
    }
}

/// How far a list is scrolled so that the selected row is in sight.
pub open spec fn list_scroll(selected: usize) -> u16 {
    if selected > 8 {
        (selected - 8) as u16
    } else {
        0
    }
}

/// The parts of a popup with a list and two lines of help below it.
pub open spec fn list_and_help() -> Seq<Part> {
    seq![Part::Min(3), Part::Length(2)]
}

/// The settings of the plugins.
pub open spec fn settings_panels(
    area: Rect,
    top: Rect,
    bottom: Rect,
    ps: PluginSettingsState,
    theme: Theme,
) -> Seq<PanelView> {
    seq![
        cleared(area),
        framed(
            top,
            theme.border,
            Some(span(" Plugin settings "@, theme.help_title)),
            popup_style_of(theme),
            scrolled_body(entry_rows(ps.entries@, ps, theme), list_scroll(ps.selected)),
        ),
        help_line(bottom, settings_help(ps), theme),
    ]
}

/// A line of help.
pub open spec fn help_line(area: Rect, help: Seq<char>, theme: Theme) -> PanelView {
    PanelView {
        area,
        border: None,
        style: popup_style_of(theme),
        body: rows_body(seq![seq![span(" "@ + help, no_style())]], false),
    }
}

/// A line of help.
pub fn make_help_line(area: Rect, help: &str, theme: &Theme) -> (p: Panel)
    ensures
        p@ == help_line(area, help@, *theme),
{
    let t = cat(" ", help);
    Panel::bare(area, theme.popup_style(), Body::row(Line::raw(t.as_str())))
}

/// How far a list is scrolled so that the selected row is in sight.
pub fn scroll_of_list(selected: usize) -> (r: u16)
    ensures
        r == list_scroll(selected),
{
    if selected > 8 {
        (selected - 8) as u16
    } else {
        0
    }
}

/// The areas of a list and of the help below it.
pub fn split_list_and_help(area: Rect) -> (rows: Vec<Rect>)
    ensures
        rows@.len() == 2,
        stacked(area, list_and_help(), rows@),
{
    let parts = [Part::Min(3), Part::Length(2)];
    assert(parts@ =~= list_and_help());
    split_rows(area, &parts)
}

fn make_value(f: &SettingField, typed: &Option<String>) -> (r: String)
    ensures
        r@ == shown_value(*f, opt_text(*typed)),
{
    match typed {
        Some(t) => {
            if f.secret {
                let v = chars_of(t.as_str());
                let dots = repeat('•', v.len());
                cat(dots.as_str(), "▏")
            } else {
                cat(t.as_str(), "▏")
            }
        },
        None => {
            if f.secret {
                if f.is_set {
                    "set".to_owned()
                } else {
                    "not set".to_owned()
                }
            } else {
                match &f.value {
                    Some(v) => value_to_input(v.as_str()),
                    None => match &f.default {
                        Some(d) => {
                            let t = value_to_input(d.as_str());
                            cat3("(", t.as_str(), ")")
                        },
                        None => "(unset)".to_owned(),
                    },
                }
            }
        },
    }
}

fn make_setting_row(f: &SettingField, selected: bool, typed: &Option<String>, theme: &Theme) -> (l:
    Line)
    ensures
        l@ == setting_row(*f, selected, opt_text(*typed), *theme),
{
    let kind = match f.kind {
        SettingKind::Text => "string",
        SettingKind::Number => "number",
        SettingKind::Boolean => "boolean",
    };
    let value = if selected {
        make_value(f, typed)
    } else {
        make_value(f, &None)
    };
    let prefix = if selected {
        "❯ "
    } else {
        "  "
    };
    let end = cat("]  ", value.as_str());
    let label = cat5(prefix, f.key.as_str(), "  [", kind, end.as_str());
    let style = if selected {
        theme.help_title
    } else {
        Style::new()
    };
    Line::styled(label.as_str(), style)
}

fn push_fields(
    fields: &Vec<SettingField>,
    first: usize,
    ps: &PluginSettingsState,
    theme: &Theme,
    lines: &mut Vec<Line>,
)
    requires
        first + fields@.len() <= usize::MAX,
    ensures
        lines_view(final(lines)@) == lines_view(old(lines)@) + field_rows(
            fields@,
            first as int,
            *ps,
            *theme,
        ),
{
    let ghost want = field_rows(fields@, first as int, *ps, *theme);
    let ghost before = lines_view(lines@);
    let mut j: usize = 0;
    assert(before + want.take(0) =~= before);
    while j < fields.len()
        invariant
            j <= fields@.len(),
            first + fields@.len() <= usize::MAX,
            want == field_rows(fields@, first as int, *ps, *theme),
            lines_view(lines@) == before + want.take(j as int),
        decreases fields@.len() - j,
    {
        let l = make_setting_row(&fields[j], first + j == ps.selected, &ps.editing, theme);
        assert(l@ == want[j as int]);
        push_row(lines, l);
        j += 1;
        assert(lines_view(lines@) =~= before + want.take(j as int));
    }
    assert(want.take(j as int) =~= want);
}

proof fn lemma_field_count_grows(entries: Seq<PluginSettingsEntry>, i: int)
    requires
        0 <= i <= entries.len(),
    ensures
        0 <= field_count(entries.take(i)) <= field_count(entries),
    decreases entries.len(),
{
    if i < entries.len() {
        lemma_field_count_grows(entries.drop_last(), i);
        assert(entries.drop_last().take(i) =~= entries.take(i));
    } else {
        assert(entries.take(i) =~= entries);
        if i > 0 {
            lemma_field_count_grows(entries.drop_last(), i - 1);
            assert(entries.drop_last().take(i - 1) =~= entries.drop_last());
        }
    }
}

/// The settings of the plugins in areas that have been found for them.
pub fn place_plugin_settings(
    area: Rect,
    top: Rect,
    bottom: Rect,
    ps: &PluginSettingsState,
    theme: &Theme,
) -> (r: Vec<Panel>)
    requires
        field_count(ps.entries@) <= usize::MAX,
    ensures
        panels_view(r@) == settings_panels(area, top, bottom, *ps, *theme),
{
    let mut lines: Vec<Line> = Vec::new();
    let mut first: usize = 0;
    let mut i: usize = 0;
    assert(lines_view(lines@) =~= Seq::empty());
    while i < ps.entries.len()
        invariant
            i <= ps.entries@.len(),
            field_count(ps.entries@) <= usize::MAX,
            first == field_count(ps.entries@.take(i as int)),
            lines_view(lines@) == entry_rows(ps.entries@.take(i as int), *ps, *theme),
        decreases ps.entries@.len() - i,
    {
        let ghost t = ps.entries@.take(i + 1);
        assert(t.drop_last() =~= ps.entries@.take(i as int));
        assert(t.last() == ps.entries@[i as int]);
        proof {
            lemma_field_count_grows(ps.entries@, i + 1);
        }
        let e = &ps.entries[i];
        let title = cat3(" ", e.plugin_id.as_str(), " ");
        push_row(&mut lines, Line::styled(title.as_str(), theme.help_title));
        push_fields(&e.fields, first, ps, theme, &mut lines);
        push_row(&mut lines, Line::raw(""));
        first += e.fields.len();
        i += 1;
    }
    assert(ps.entries@.take(i as int) =~= ps.entries@);
    let help = match &ps.message {
        Some(m) => m.as_str(),
        None => if ps.editing.is_some() {
            "Enter save · Esc cancel"
        } else {
            "↑↓ move · Enter edit/toggle · Esc close"
        },
    };
    panels3(
        Panel::cleared(area),
        Panel::titled(
            top,
            theme.border,
            Span::styled(" Plugin settings ", theme.help_title),
            theme.popup_style(),
            Body::scrolled(lines, scroll_of_list(ps.selected)),
        ),
        make_help_line(bottom, help, theme),
    )
}

/// The settings of the plugins.
pub fn render_plugin_settings(full: Rect, ps: &PluginSettingsState, theme: &Theme) -> (r: Vec<
    Panel,
>)
    requires
        on_screen(full),
        field_count(ps.entries@) <= usize::MAX,
    ensures
        exists|rows: Seq<Rect>|
            {
                &&& #[trigger] stacked(centered(full, 72, 62), list_and_help(), rows)
                &&& panels_view(r@) == settings_panels(
                    centered(full, 72, 62),
                    rows[0],
                    rows[1],
                    *ps,
                    *theme,
                )
            },
{
    let area = centered_rect(full, 72, 62);
    let rows = split_list_and_help(area);
    let r = place_plugin_settings(area, rows[0], rows[1], ps, theme);
    assert(stacked(centered(full, 72, 62), list_and_help(), rows@));
    r
}

// ---------------------------------------------------------------------
// Laws
// ---------------------------------------------------------------------

/// What is shown of a secret depends on nothing but whether it is set and,
/// while it is typed, on how much has been typed: two secrets that agree in
/// that look the same.
pub proof fn law_secrets_are_not_shown(
    f: SettingField,
    g: SettingField,
    t: Option<Seq<char>>,
    u: Option<Seq<char>>,
)
    requires
        f.secret && g.secret,
        f.is_set == g.is_set,
        t is Some <==> u is Some,
        t is Some ==> t->0.len() == u->0.len(),
    ensures
        shown_value(f, t) == shown_value(g, u),
{
}

/// Each setting stands below the name of its plugin, in order, and the one
/// under the cursor is the one marked.
pub proof fn law_settings_stand_below_their_plugin(
    entries: Seq<PluginSettingsEntry>,
    ps: PluginSettingsState,
    theme: Theme,
    e: int,
    f: int,
)
    requires
        0 <= e < entries.len(),
        0 <= f < entries[e].fields@.len(),
    ensures
        entry_rows(entries, ps, theme).len() == field_count(entries) + 2 * entries.len(),
        entry_rows(entries, ps, theme)[field_count(entries.take(e)) + 2 * e][0].text == " "@
            + entries[e].plugin_id@ + " "@,
        entry_rows(entries, ps, theme)[field_count(entries.take(e)) + 2 * e + 1 + f] == setting_row(
            entries[e].fields@[f],
            field_count(entries.take(e)) + f == ps.selected,
            opt_text(ps.editing),
            theme,
        ),
    decreases entries.len(),
{
    lemma_entry_rows(entries, ps, theme);
    let d = entries.drop_last();
    lemma_entry_rows(d, ps, theme);
    if e < d.len() {
        assert(d[e] == entries[e]);
        assert(d.take(e) =~= entries.take(e));
        law_settings_stand_below_their_plugin(d, ps, theme, e, f);
        lemma_fields_before(d, e);
    } else {
        assert(entries.take(e) =~= d);
    }
}

proof fn lemma_entry_rows(
    entries: Seq<PluginSettingsEntry>,
    ps: PluginSettingsState,
    theme: Theme,
)
    ensures
        entry_rows(entries, ps, theme).len() == field_count(entries) + 2 * entries.len(),
        field_count(entries) >= 0,
    decreases entries.len(),
{
    if entries.len() > 0 {
        lemma_entry_rows(entries.drop_last(), ps, theme);
    }
}

proof fn lemma_fields_before(entries: Seq<PluginSettingsEntry>, e: int)
    requires
        0 <= e < entries.len(),
    ensures
        0 <= field_count(entries.take(e)),
        field_count(entries.take(e)) + entries[e].fields@.len() <= field_count(entries),
    decreases entries.len(),
{
    let d = entries.drop_last();
    if e < d.len() {
        assert(d.take(e) =~= entries.take(e));
        assert(d[e] == entries[e]);
        lemma_fields_before(d, e);
    } else {
        assert(entries.take(e) =~= d);
        lemma_fields_count(d);
    }
}

proof fn lemma_fields_count(entries: Seq<PluginSettingsEntry>)
    ensures
        field_count(entries) >= 0,
    decreases entries.len(),
{
    if entries.len() > 0 {
        lemma_fields_count(entries.drop_last());
    }
}

/// A setting shows its own value before the default, and the mark stands at the
/// one selected alone.
pub proof fn law_own_values_come_first(f: SettingField, selected: bool, theme: Theme)
    ensures
        !f.secret && f.value is Some ==> shown_value(f, None) == as_typed(f.value->0@),
        !f.secret && f.value is None && f.default is Some ==> shown_value(f, None) == "("@
            + as_typed(f.default->0@) + ")"@,
        f.secret ==> shown_value(f, None) == (if f.is_set {
            "set"@
        } else {
            "not set"@
        }),
        (setting_row(f, selected, None, theme)[0].text[0] == '❯') <==> selected,
{
    reveal_strlit("❯ ");
    reveal_strlit("  ");
}

/// A list scrolls so that the row under the cursor is among the first nine.
pub proof fn law_lists_follow_the_cursor(selected: usize)
    requires
        selected <= u16::MAX,
    ensures
        list_scroll(selected) <= selected,
        selected - list_scroll(selected) <= 8,
        selected <= 8 ==> list_scroll(selected) == 0,
        selected > 8 ==> selected - list_scroll(selected) == 8,
{
}

} // verus!

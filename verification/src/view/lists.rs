//! The template picker and the list of reminders.

use crate::icons::IconSet;
use crate::state::{ReminderRow, RemindersState, TemplateEntry, TemplatePickerState};
use crate::style::{
    centered, centered_rect, lines_view, no_style, span, Line, Rect, Span, SpanView, Style,
};
use crate::text::{
    cat, cat3, cat5, chars_of, matches_at, pad_right, padded, string_range,
};
use crate::theme::{popup_style_of, Theme};
use crate::view::overlays::{
    make_typing_panel, panels2, panels3, push_row, split_typing_and_list, typing_and_list,
    typing_panel,
};
use crate::view::panel::{
    cleared, framed, on_screen, panels_view, stacked, Body, BodyView, Panel, PanelView,
};
use vstd::prelude::*;

verus! {

/// A text cut to `max` characters; the last of them says that it was.
pub open spec fn clipped(s: Seq<char>, max: int) -> Seq<char> {
    if s.len() <= max {
        s
    } else {
        s.take(
            if max < 1 {
                0
            } else {
                max - 1
            },
        ).push('…')
    }
}

/// A text cut to `max` characters; the last of them says that it was.
pub fn truncate(s: &str, max: usize) -> (r: String)
    ensures
        r@ == clipped(s@, max as int),
{
    let v = chars_of(s);
    if v.len() <= max {
        return s.to_owned();
    }
    let keep: usize = max.saturating_sub(1);
    let mut r = string_range(&v, 0, keep);
    assert(r@ =~= s@.take(keep as int));
    r.push('…');
    r
}

/// Rows moved to the left so that the selected one is among the first.
pub open spec fn shifted_body(lines: Seq<Seq<SpanView>>, selected: usize) -> BodyView {
    BodyView::Rows {
        lines,
        down: 0,
        across: if selected > 5 {
            (selected - 5) as u16
        } else {
            0
        },
        wrap: false,
        flush_right: false,
    }
}

fn make_shifted(lines: Vec<Line>, selected: usize) -> (b: Body)
    ensures
        b@ == shifted_body(lines_view(lines@), selected),
{
    let across: u16 = if selected > 5 {
        (selected - 5) as u16
    } else {
        0
    };
    Body::Rows { lines, down: 0, across, wrap: false, flush_right: false }
}

// ---------------------------------------------------------------------
// Templates
// ---------------------------------------------------------------------

/// The row of a template.
pub open spec fn template_row(t: TemplateEntry, chosen: bool, theme: Theme, icons: IconSet) -> Seq<
    SpanView,
> {
    let icon = if t.params@.len() == 0 {
        icons.file@
    } else {
        icons.bolt@
    };
    seq![
        span(
            " "@ + icon + " "@ + padded(t.name@, 20) + (" "@ + t.slug@),
            if chosen {
                theme.help_title
            } else {
                no_style()
            },
        ),
    ]
}

/// The rows of the templates that match. A place at which there is no
/// template is passed over.
pub open spec fn template_rows(
    filtered: Seq<usize>,
    tp: TemplatePickerState,
    theme: Theme,
    icons: IconSet,
) -> Seq<Seq<SpanView>>
    decreases filtered.len(),
{
    if filtered.len() == 0 {
        Seq::empty()
    } else {
        let r = template_rows(filtered.drop_last(), tp, theme, icons);
        if filtered.last() < tp.all@.len() {
            r.push(
                template_row(
                    tp.all@[filtered.last() as int],
                    filtered.len() - 1 == tp.selected,
                    theme,
                    icons,
                ),
            )
        } else {
            r
        }
    }
}

/// What the picker lists: the templates that match, or that there are none.
pub open spec fn picker_rows(tp: TemplatePickerState, theme: Theme, icons: IconSet) -> Seq<
    Seq<SpanView>,
> {
    let rows = template_rows(tp.filtered@, tp, theme, icons);
    if rows.len() == 0 {
        seq![
            seq![
                span(
                    " No templates found. Add `template:: name` to a page."@,
                    theme.help_title,
                ),
            ],
        ]
    } else {
        rows
    }
}

/// The template picker.
pub open spec fn picker_panels(
    area: Rect,
    top: Rect,
    bottom: Rect,
    tp: TemplatePickerState,
    theme: Theme,
    icons: IconSet,
) -> Seq<PanelView> {
    seq![
        cleared(area),
        typing_panel(top, " "@ + icons.clipboard@ + " "@, tp.query@, " Templates "@, theme),
        framed(
            bottom,
            theme.border,
            None,
            popup_style_of(theme),
            shifted_body(picker_rows(tp, theme, icons), tp.selected),
        ),
    ]
}

fn make_template_row(t: &TemplateEntry, chosen: bool, theme: &Theme, icons: &IconSet) -> (l: Line)
    ensures
        l@ == template_row(*t, chosen, *theme, *icons),
{
    let icon = if t.params.len() == 0 {
        icons.file
    } else {
        icons.bolt
    };
    let name = pad_right(t.name.as_str(), 20);
    let slug = cat(" ", t.slug.as_str());
    let label = cat5(" ", icon, " ", name.as_str(), slug.as_str());
    let style = if chosen {
        theme.help_title
    } else {
        Style::new()
    };
    Line::styled(label.as_str(), style)
}

/// The template picker in areas that have been found for it.
pub fn place_template_picker(
    area: Rect,
    top: Rect,
    bottom: Rect,
    tp: &TemplatePickerState,
    theme: &Theme,
    icons: &IconSet,
) -> (r: Vec<Panel>)
    ensures
        panels_view(r@) == picker_panels(area, top, bottom, *tp, *theme, *icons),
{
    let mut lines: Vec<Line> = Vec::new();
    let mut i: usize = 0;
    assert(lines_view(lines@) =~= Seq::empty());
    while i < tp.filtered.len()
        invariant
            i <= tp.filtered@.len(),
            lines_view(lines@) == template_rows(
                tp.filtered@.take(i as int),
                *tp,
                *theme,
                *icons,
            ),
        decreases tp.filtered@.len() - i,
    {
        assert(tp.filtered@.take(i + 1).drop_last() =~= tp.filtered@.take(i as int));
        assert(tp.filtered@.take(i + 1).last() == tp.filtered@[i as int]);
        let at: usize = tp.filtered[i];
        if at < tp.all.len() {
            push_row(&mut lines, make_template_row(&tp.all[at], i == tp.selected, theme, icons));
        }
        i += 1;
    }
    assert(tp.filtered@.take(i as int) =~= tp.filtered@);
    assert(lines_view(lines@).len() == lines@.len());
    if lines.len() == 0 {
        push_row(
            &mut lines,
            Line::styled(
                " No templates found. Add `template:: name` to a page.",
                theme.help_title,
            ),
        );
    }
    assert(lines_view(lines@) =~= picker_rows(*tp, *theme, *icons));
    let prompt = cat3(" ", icons.clipboard, " ");
    panels3(
        Panel::cleared(area),
        make_typing_panel(top, prompt.as_str(), tp.query.as_str(), " Templates ", theme),
        Panel::framed(bottom, theme.border, theme.popup_style(), make_shifted(lines, tp.selected)),
    )
}

/// The template picker.
pub fn render_template_picker(
    full: Rect,
    tp: &TemplatePickerState,
    theme: &Theme,
    icons: &IconSet,
) -> (r: Vec<Panel>)
    requires
        on_screen(full),
    ensures
        exists|rows: Seq<Rect>|
            {
                &&& #[trigger] stacked(centered(full, 60, 50), typing_and_list(), rows)
                &&& panels_view(r@) == picker_panels(
                    centered(full, 60, 50),
                    rows[0],
                    rows[1],
                    *tp,
                    *theme,
                    *icons,
                )
            },
{
    let area = centered_rect(full, 60, 50);
    let rows = split_typing_and_list(area);
    let r = place_template_picker(area, rows[0], rows[1], tp, theme, icons);
    assert(stacked(centered(full, 60, 50), typing_and_list(), rows@));
    r
}

// ---------------------------------------------------------------------
// Reminders
// ---------------------------------------------------------------------

/// The row of a reminder: when it fires next, its block, its rule, and
/// whether it is put off.
pub open spec fn reminder_row(
    r: ReminderRow,
    chosen: bool,
    theme: Theme,
    icons: IconSet,
) -> Seq<SpanView> {
    let when = match r.next_fire {
        Some(t) => t.shown(),
        None => "—"@,
    };
    let snoozed = if r.snoozed {
        " "@ + icons.snooze@
    } else {
        ""@
    };
    seq![
        span(
            " "@ + padded(when, 18) + " "@ + padded(clipped(r.text@, 34), 34) + (" "@
                + r.rule_text@ + snoozed),
            if chosen {
                theme.help_title
            } else if r.done {
                theme.dim
            } else {
                no_style()
            },
        ),
    ]
}

/// What the list of reminders shows.
pub open spec fn reminder_rows(s: RemindersState, theme: Theme, icons: IconSet) -> Seq<
    Seq<SpanView>,
> {
    if s.all@.len() == 0 {
        seq![
            seq![
                span(" No reminders. Press `g r` on a block to add one."@, theme.help_title),
            ],
        ]
    } else {
        Seq::new(
            s.all@.len(),
            |i: int| reminder_row(s.all@[i], i == s.selected, theme, icons),
        )
    }
}

fn make_reminder_row(r: &ReminderRow, chosen: bool, theme: &Theme, icons: &IconSet) -> (l: Line)
    ensures
        l@ == reminder_row(*r, chosen, *theme, *icons),
{
    let when = match &r.next_fire {
        Some(t) => pad_right(t.text().as_str(), 18),
        None => pad_right("—", 18),
    };
    let snoozed = if r.snoozed {
        cat(" ", icons.snooze)
    } else {
        "".to_owned()
    };
    let cut = truncate(r.text.as_str(), 34);
    let text = pad_right(cut.as_str(), 34);
    let end = cat3(" ", r.rule_text.as_str(), snoozed.as_str());
    let label = cat5(" ", when.as_str(), " ", text.as_str(), end.as_str());
    let style = if chosen {
        theme.help_title
    } else if r.done {
        theme.dim
    } else {
        Style::new()
    };
    Line::styled(label.as_str(), style)
}

/// The list of reminders.
pub fn render_reminders(full: Rect, s: &RemindersState, theme: &Theme, icons: &IconSet) -> (r: Vec<
    Panel,
>)
    requires
        on_screen(full),
    ensures
        panels_view(r@) == seq![
            cleared(centered(full, 72, 60)),
            framed(
                centered(full, 72, 60),
                theme.border,
                Some(
                    span(
                        " Reminders — Enter open · s 1h · t tomorrow · w next week · Esc close "@,
                        theme.help_title,
                    ),
                ),
                popup_style_of(*theme),
                shifted_body(reminder_rows(*s, *theme, *icons), s.selected),
            ),
        ],
{
    let area = centered_rect(full, 72, 60);
    let ghost want = reminder_rows(*s, *theme, *icons);
    let mut lines: Vec<Line> = Vec::new();
    let mut i: usize = 0;
    assert(lines_view(lines@) =~= want.take(0));
    while i < s.all.len()
        invariant
            i <= s.all@.len(),
            s.all@.len() > 0 ==> want == reminder_rows(*s, *theme, *icons),
            lines_view(lines@) == want.take(i as int),
        decreases s.all@.len() - i,
    {
        let l = make_reminder_row(&s.all[i], i == s.selected, theme, icons);
        assert(l@ == want[i as int]);
        push_row(&mut lines, l);
        i += 1;
        assert(lines_view(lines@) =~= want.take(i as int));
    }
    if lines.len() == 0 {
        assert(s.all@.len() == 0) by {
            assert(lines_view(lines@).len() == lines@.len());
        }
        push_row(
            &mut lines,
            Line::styled(" No reminders. Press `g r` on a block to add one.", theme.help_title),
        );
    }
    assert(lines_view(lines@) =~= want);
    panels2(
        Panel::cleared(area),
        Panel::titled(
            area,
            theme.border,
            Span::styled(
                " Reminders — Enter open · s 1h · t tomorrow · w next week · Esc close ",
                theme.help_title,
            ),
            theme.popup_style(),
            make_shifted(lines, s.selected),
        ),
    )
}

// ---------------------------------------------------------------------
// Laws
// ---------------------------------------------------------------------

/// A text that is too long is cut to its room and ends in a sign for that; one
/// that is not is shown whole.
pub proof fn law_long_texts_are_cut(s: Seq<char>, max: int)
    requires
        max >= 1,
    ensures
        clipped(s, max).len() <= max,
        s.len() <= max ==> clipped(s, max) == s,
        s.len() > max ==> clipped(s, max).len() == max && clipped(s, max).last() == '…'
            && clipped(s, max).drop_last() == s.take(max - 1),
        padded(clipped(s, max), max).len() == max,
        padded(clipped(s, max), max).take(clipped(s, max).len() as int) == clipped(s, max),
{
    if s.len() > max {
        assert(clipped(s, max).drop_last() =~= s.take(max - 1));
    }
    let c = clipped(s, max);
    assert(padded(c, max).take(c.len() as int) =~= c);
}

/// Each template that is left over has its row, in order, and the selected one
/// stands out.
pub proof fn law_every_template_has_a_row(
    filtered: Seq<usize>,
    tp: TemplatePickerState,
    theme: Theme,
    icons: IconSet,
)
    requires
        forall|i: int| 0 <= i < filtered.len() ==> #[trigger] filtered[i] < tp.all@.len(),
    ensures
        template_rows(filtered, tp, theme, icons).len() == filtered.len(),
        forall|i: int|
            0 <= i < filtered.len() ==> #[trigger] template_rows(filtered, tp, theme, icons)[i]
                == template_row(tp.all@[filtered[i] as int], i == tp.selected, theme, icons),
    decreases filtered.len(),
{
    if filtered.len() > 0 {
        let d = filtered.drop_last();
        assert forall|i: int| 0 <= i < d.len() implies #[trigger] d[i] < tp.all@.len() by {
            assert(d[i] == filtered[i]);
        }
        law_every_template_has_a_row(d, tp, theme, icons);
    }
}

/// Each reminder has its row, in order, with its rule behind its text.
pub proof fn law_every_reminder_has_a_row(s: RemindersState, theme: Theme, icons: IconSet, i: int)
    requires
        0 <= i < s.all@.len(),
    ensures
        reminder_rows(s, theme, icons).len() == s.all@.len(),
        reminder_rows(s, theme, icons)[i] == reminder_row(
            s.all@[i],
            i == s.selected,
            theme,
            icons,
        ),
        ({
            let t = reminder_rows(s, theme, icons)[i][0].text;
            let rule = s.all@[i].rule_text@;
            &&& s.all@[i].next_fire is None ==> matches_at(t, rule, 55)
            &&& s.all@[i].next_fire is None && !s.all@[i].snoozed ==> t.len() == 55 + rule.len()
            &&& s.all@[i].next_fire is None && s.all@[i].snoozed ==> t.len() > 55 + rule.len()
        }),
{
    reveal_strlit(" ");
    reveal_strlit("");
    reveal_strlit("—");
    law_long_texts_are_cut(s.all@[i].text@, 34);
    let t = reminder_rows(s, theme, icons)[i][0].text;
    let rule = s.all@[i].rule_text@;
    if s.all@[i].next_fire is None {
        assert(padded("—"@, 18).len() == 18);
        assert(t.subrange(55, 55 + rule.len() as int) =~= rule);
    }
}

} // verus!

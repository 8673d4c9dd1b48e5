//! The command palette as it is drawn.

use crate::icons::{glyph_of_category, glyph_of_command, IconSet};
use crate::state::{SlashCommand, SlashState};
use crate::style::{
    centered, centered_rect, lines_view, no_style, span, Line, Rect, Span, SpanView, Style,
};
use crate::text::{cat, cat3, cat5, decimal, numeral};
use crate::theme::{popup_style_of, Theme};
use crate::view::overlays::{
    args_suffix, choice_style, make_typing_panel, panels3, push_row, split_typing_and_list,
    style_of_choice, typing_and_list, typing_panel,
};
use crate::view::palette::{
    categories, category_for, category_of, category_title, law_palette_is_grouped, shown_order,
    visual_order, Category,
};
use crate::view::panel::{
    cleared, framed, on_screen, panels_view, scrolled_body, stacked, Body, Panel, PanelView,
};
use vstd::prelude::*;

verus! {

/// The palette drawn so far: its rows, the row of the selected command, and
/// the group of the last command.
pub ghost struct Painted {
    pub lines: Seq<Seq<SpanView>>,
    pub row: Option<int>,
    pub group: Option<Category>,
}

/// An empty row.
pub open spec fn empty_row() -> Seq<SpanView> {
    seq![span(""@, no_style())]
}

/// The title of a group.
pub open spec fn group_row(c: Category, theme: Theme, icons: IconSet) -> Seq<SpanView> {
    let title = category_title(c)@;
    seq![span(" "@ + glyph_of_category(icons, title)@ + " "@ + title + " "@, theme.help_title)]
}

/// The row of a command.
pub open spec fn command_row(c: SlashCommand, style: Style, theme: Theme, icons: IconSet) -> Seq<
    SpanView,
> {
    seq![
        span(
            "   "@ + glyph_of_command(icons, c.name@)@ + "  "@ + c.name@ + (args_suffix(
                c.needs_args,
            ) + "  "@),
            style,
        ),
        span(c.description@, theme.dim),
    ]
}

/// The rows that come between a command and the one before: none in the same
/// group, else the title of the group, with an empty row above it unless it
/// is the first.
pub open spec fn group_rows(
    before: Option<Category>,
    c: Category,
    theme: Theme,
    icons: IconSet,
) -> Seq<Seq<SpanView>> {
    match before {
        Some(b) => if b == c {
            Seq::empty()
        } else {
            seq![empty_row(), group_row(c, theme, icons)]
        },
        None => seq![group_row(c, theme, icons)],
    }
}

/// The palette, drawn in an order.
pub open spec fn painted(
    order: Seq<usize>,
    candidates: Seq<SlashCommand>,
    selected: usize,
    theme: Theme,
    icons: IconSet,
) -> Painted
    decreases order.len(),
{
    if order.len() == 0 {
        Painted { lines: Seq::empty(), row: None, group: None }
    } else {
        let p = painted(order.drop_last(), candidates, selected, theme, icons);
        let at = order.last();
        let c = candidates[at as int];
        let group = category_of(c.name@);
        let above = p.lines + group_rows(p.group, group, theme, icons);
        Painted {
            lines: above.push(
                command_row(c, choice_style(at == selected, theme), theme, icons),
            ),
            row: if at == selected {
                Some(above.len() as int)
            } else {
                p.row
            },
            group: Some(group),
        }
    }
}

/// The rows of the palette.
pub open spec fn palette_rows(s: SlashState, theme: Theme, icons: IconSet) -> Seq<Seq<SpanView>> {
    let p = painted(
        shown_order(categories(s.candidates@)),
        s.candidates@,
        s.selected,
        theme,
        icons,
    );
    if p.group is Some {
        p.lines.push(empty_row())
    } else {
        p.lines
    }
}

/// The row of the selected command.
pub open spec fn palette_row(s: SlashState, theme: Theme, icons: IconSet) -> Option<int> {
    painted(
        shown_order(categories(s.candidates@)),
        s.candidates@,
        s.selected,
        theme,
        icons,
    ).row
}

/// How far `total` rows are scrolled in a view of `height` rows so that a
/// row is in sight: just far enough.
pub open spec fn scroll_to(row: Option<int>, total: int, height: int) -> int {
    match row {
        Some(r) => if height > 0 && r >= height {
            let last = if total < height {
                0
            } else {
                total - height
            };
            if r + 1 - height < last {
                r + 1 - height
            } else {
                last
            }
        } else {
            0
        },
        None => 0,
    }
}

/// The rows inside a frame of a height.
pub open spec fn framed_rows(height: u16) -> int {
    if height < 2 {
        0
    } else {
        height - 2
    }
}

/// The palette: the line that is typed into, and the commands.
pub open spec fn palette_panels(
    area: Rect,
    top: Rect,
    bottom: Rect,
    s: SlashState,
    theme: Theme,
    icons: IconSet,
) -> Seq<PanelView> {
    let rows = palette_rows(s, theme, icons);
    seq![
        cleared(area),
        typing_panel(top, " / "@, s.query@, " Command palette "@, theme),
        framed(
            bottom,
            theme.border,
            Some(
                span(
                    " "@ + decimal(s.candidates@.len()) + " commands · ↑↓ Enter Esc "@,
                    no_style(),
                ),
            ),
            popup_style_of(theme),
            scrolled_body(
                rows,
                scroll_to(
                    palette_row(s, theme, icons),
                    rows.len() as int,
                    framed_rows(bottom.height),
                ) as u16,
            ),
        ),
    ]
}

fn make_group_row(c: Category, theme: &Theme, icons: &IconSet) -> (l: Line)
    ensures
        l@ == group_row(c, *theme, *icons),
{
    let title = c.title();
    let t = cat5(" ", icons.category_glyph(title), " ", title, " ");
    Line::styled(t.as_str(), theme.help_title)
}

fn make_command_row(c: &SlashCommand, style: Style, theme: &Theme, icons: &IconSet) -> (l: Line)
    ensures
        l@ == command_row(*c, style, *theme, *icons),
{
    let suffix = if c.needs_args {
        " …"
    } else {
        ""
    };
    let end = cat(suffix, "  ");
    let t = cat5(
        "   ",
        icons.command_glyph(c.name.as_str()),
        "  ",
        c.name.as_str(),
        end.as_str(),
    );
    Line::of2(Span::styled(t.as_str(), style), Span::styled(c.description.as_str(), theme.dim))
}

/// The rows of the palette and the row of the selected command.
pub fn paint_palette(s: &SlashState, theme: &Theme, icons: &IconSet) -> (r: (
    Vec<Line>,
    Option<usize>,
))
    ensures
        lines_view(r.0@) == palette_rows(*s, *theme, *icons),
        match r.1 {
            Some(row) => palette_row(*s, *theme, *icons) == Some(row as int),
            None => palette_row(*s, *theme, *icons) is None,
        },
{
    let order = visual_order(&s.candidates);
    let ghost cats = categories(s.candidates@);
    assert(cats.len() == s.candidates.len());
    proof {
        law_palette_is_grouped(cats);
    }
    let mut lines: Vec<Line> = Vec::new();
    let mut row: Option<usize> = None;
    let mut group: Option<Category> = None;
    let mut i: usize = 0;
    assert(lines_view(lines@) =~= Seq::empty());
    while i < order.len()
        invariant
            i <= order@.len(),
            order@ == shown_order(cats),
            cats.len() == s.candidates@.len(),
            forall|j: int| 0 <= j < order@.len() ==> (#[trigger] order@[j]) < cats.len(),
            ({
                let p = painted(
                    order@.take(i as int),
                    s.candidates@,
                    s.selected,
                    *theme,
                    *icons,
                );
                &&& lines_view(lines@) == p.lines
                &&& group == p.group
                &&& match row {
                    Some(r) => p.row == Some(r as int),
                    None => p.row is None,
                }
            }),
        decreases order@.len() - i,
    {
        assert(order@.take(i + 1).drop_last() =~= order@.take(i as int));
        assert(order@.take(i + 1).last() == order@[i as int]);
        let at: usize = order[i];
        let c = &s.candidates[at];
        let cat = category_for(c.name.as_str());
        let ghost before = lines_view(lines@);
        match group {
            Some(g) => {
                if g != cat {
                    push_row(&mut lines, Line::raw(""));
                    push_row(&mut lines, make_group_row(cat, theme, icons));
                }
            },
            None => {
                push_row(&mut lines, make_group_row(cat, theme, icons));
            },
        }
        assert(lines_view(lines@) =~= before + group_rows(group, cat, *theme, *icons));
        group = Some(cat);
        assert(lines_view(lines@).len() == lines@.len());
        if at == s.selected {
            row = Some(lines.len());
        }
        let l = make_command_row(c, style_of_choice(at == s.selected, theme), theme, icons);
        push_row(&mut lines, l);
        i += 1;
    }
    assert(order@.take(i as int) =~= order@);
    if group.is_some() {
        push_row(&mut lines, Line::raw(""));
    }
    (lines, row)
}

/// The palette in areas that have been found for it.
pub fn place_slash(
    area: Rect,
    top: Rect,
    bottom: Rect,
    s: &SlashState,
    theme: &Theme,
    icons: &IconSet,
) -> (r: Vec<Panel>)
    ensures
        panels_view(r@) == palette_panels(area, top, bottom, *s, *theme, *icons),
{
    let (lines, row) = paint_palette(s, theme, icons);
    let total: usize = lines.len();
    assert(lines_view(lines@).len() == total);
    let height: usize = bottom.height.saturating_sub(2) as usize;
    let scroll: usize = match row {
        Some(r) => {
            if height > 0 && r >= height {
                let last: usize = total.saturating_sub(height);
                if r - height < last && r - height + 1 < last {
                    r - height + 1
                } else {
                    last
                }
            } else {
                0
            }
        },
        None => 0,
    };
    assert(scroll == scroll_to(
        palette_row(*s, *theme, *icons),
        total as int,
        framed_rows(bottom.height),
    ));
    let n = numeral(s.candidates.len());
    let title = cat3(" ", n.as_str(), " commands · ↑↓ Enter Esc ");
    panels3(
        Panel::cleared(area),
        make_typing_panel(top, " / ", s.query.as_str(), " Command palette ", theme),
        Panel::titled(
            bottom,
            theme.border,
            Span::raw(title.as_str()),
            theme.popup_style(),
            Body::scrolled(lines, scroll as u16),
        ),
    )
}

/// The command palette.
pub fn render_slash_overlay(full: Rect, s: &SlashState, theme: &Theme, icons: &IconSet) -> (r: Vec<
    Panel,
>)
    requires
        on_screen(full),
    ensures
        exists|rows: Seq<Rect>|
            {
                &&& #[trigger] stacked(centered(full, 65, 65), typing_and_list(), rows)
                &&& panels_view(r@) == palette_panels(
                    centered(full, 65, 65),
                    rows[0],
                    rows[1],
                    *s,
                    *theme,
                    *icons,
                )
            },
{
    let area = centered_rect(full, 65, 65);
    let rows = split_typing_and_list(area);
    let r = place_slash(area, rows[0], rows[1], s, theme, icons);
    assert(stacked(centered(full, 65, 65), typing_and_list(), rows@));
    r
}

// ---------------------------------------------------------------------
// Laws
// ---------------------------------------------------------------------

/// The row that is scrolled to is in sight, however many rows there are.
pub proof fn law_scrolled_row_is_in_sight(row: int, total: int, height: int)
    requires
        0 <= row < total,
        height > 0,
    ensures
        scroll_to(Some(row), total, height) <= row < scroll_to(Some(row), total, height) + height,
        row < height ==> scroll_to(Some(row), total, height) == 0,
{
}

/// The row of the selected command is a row of the palette, and it is that
/// of the command.
pub proof fn law_selected_row_is_the_command(
    order: Seq<usize>,
    candidates: Seq<SlashCommand>,
    selected: usize,
    theme: Theme,
    icons: IconSet,
)
    ensures
        ({
            let p = painted(order, candidates, selected, theme, icons);
            &&& p.row is Some <==> order.contains(selected)
            &&& p.row matches Some(r) ==> 0 <= r < p.lines.len() && p.lines[r] == command_row(
                candidates[selected as int],
                choice_style(true, theme),
                theme,
                icons,
            )
        }),
    decreases order.len(),
{
    if order.len() > 0 {
        let d = order.drop_last();
        law_selected_row_is_the_command(d, candidates, selected, theme, icons);
        assert(order[order.len() - 1] == order.last());
        if order.last() != selected {
            if d.contains(selected) {
                let m = choose|m: int| 0 <= m < d.len() && d[m] == selected;
                assert(order[m] == selected);
            }
            if order.contains(selected) {
                let m = choose|m: int| 0 <= m < order.len() && order[m] == selected;
                assert(d[m] == selected);
            }
        }
    }
}

/// Every command has its row in the palette, and the rows stand in the order
/// of the commands.
pub proof fn law_every_command_has_a_row(
    order: Seq<usize>,
    candidates: Seq<SlashCommand>,
    selected: usize,
    theme: Theme,
    icons: IconSet,
    i: int,
) -> (r: int)
    requires
        0 <= i < order.len(),
    ensures
        0 <= r < painted(order, candidates, selected, theme, icons).lines.len(),
        painted(order, candidates, selected, theme, icons).lines[r] == command_row(
            candidates[order[i] as int],
            choice_style(order[i] == selected, theme),
            theme,
            icons,
        ),
        painted(order.take(i), candidates, selected, theme, icons).lines.len() <= r,
        i + 1 == order.len() ==> r + 1 == painted(
            order,
            candidates,
            selected,
            theme,
            icons,
        ).lines.len(),
    decreases order.len(),
{
    let d = order.drop_last();
    let n = painted(order, candidates, selected, theme, icons).lines.len();
    if i < d.len() {
        let r = law_every_command_has_a_row(d, candidates, selected, theme, icons, i);
        assert(d.take(i) =~= order.take(i));
        assert(d[i] == order[i]);
        r
    } else {
        assert(order.take(i) =~= d);
        n - 1
    }
}

/// A heading stands before the first command of each group, with an empty row
/// before it if it is not the first.
pub proof fn law_groups_have_headings(
    order: Seq<usize>,
    candidates: Seq<SlashCommand>,
    selected: usize,
    theme: Theme,
    icons: IconSet,
)
    requires
        order.len() > 0,
    ensures
        ({
            let lines = painted(order, candidates, selected, theme, icons).lines;
            let n = lines.len();
            let group = category_of(candidates[order.last() as int].name@);
            &&& order.len() == 1 ==> n == 2 && lines[0] == group_row(group, theme, icons)
            &&& order.len() > 1 && category_of(
                candidates[order[order.len() - 2] as int].name@,
            ) != group ==> n >= 3 && lines[n - 2] == group_row(group, theme, icons) && lines[n - 3]
                == empty_row()
            &&& order.len() > 1 && category_of(
                candidates[order[order.len() - 2] as int].name@,
            ) == group ==> lines.drop_last() == painted(
                order.drop_last(),
                candidates,
                selected,
                theme,
                icons,
            ).lines
        }),
{
    let d = order.drop_last();
    let p = painted(d, candidates, selected, theme, icons);
    let lines = painted(order, candidates, selected, theme, icons).lines;
    let group = category_of(candidates[order.last() as int].name@);
    if order.len() == 1 {
        assert(d =~= Seq::<usize>::empty());
    } else {
        assert(d.last() == order[order.len() - 2]);
        assert(p.group == Some(category_of(candidates[d.last() as int].name@)));
        if p.group == Some(group) {
            assert(p.lines + Seq::<Seq<SpanView>>::empty() =~= p.lines);
            assert(lines.drop_last() =~= p.lines);
        }
    }
}

} // verus!

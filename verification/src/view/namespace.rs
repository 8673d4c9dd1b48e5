//! The pages nested below the page shown.

use crate::actions::namespace::{children_view, ChildValue};
use crate::icons::IconSet;
use crate::state::NamespaceChild;
use crate::style::{lines_view, no_style, span, Line, Span, SpanView, Style};
use crate::text::{cat3, decimal, numeral, repeat, repeated};
use crate::theme::Theme;
use crate::view::overlays::push_row;
use crate::view::slash::empty_row;
use vstd::prelude::*;

verus! {

/// The row of a nested page: two blanks for each level below the first.
pub open spec fn nested_row(c: ChildValue, theme: Theme, icons: IconSet) -> Seq<SpanView> {
    seq![
        span(
            repeated(' ', (1 + (c.depth - 1) * 2) as nat) + (match c.icon {
                Some(i) => i,
                None => icons.file@,
            }) + "  "@,
            theme.dim,
        ),
        span(c.label, Style { fg: Some(theme.foreground), ..no_style() }),
    ]
}

/// The section of the nested pages; there is none where nothing is nested.
pub open spec fn nested_rows(v: Seq<ChildValue>, inner_width: u16, theme: Theme, icons: IconSet) -> Seq<
    Seq<SpanView>,
> {
    if v.len() == 0 {
        Seq::empty()
    } else {
        seq![
            empty_row(),
            seq![
                span(
                    repeated(
                        '─',
                        if inner_width == 0 {
                            1
                        } else {
                            inner_width as nat
                        },
                    ),
                    theme.border,
                ),
            ],
            seq![
                span(" Nested pages · "@ + decimal(v.len()) + "  "@, theme.heading),
                span("(open with the picker: ^P)"@, theme.dim),
            ],
            empty_row(),
        ] + v.map_values(|c: ChildValue| nested_row(c, theme, icons))
    }
}

/// The levels of nested pages can be drawn: they count from one.
pub open spec fn levels_ok(v: Seq<NamespaceChild>) -> bool {
    forall|i: int| 0 <= i < v.len() ==> 1 <= (#[trigger] v[i]).depth <= usize::MAX / 2
}

/// The section of the nested pages in a pane of `inner_width` columns.
pub fn render_nested_pages(
    children: &Vec<NamespaceChild>,
    inner_width: u16,
    theme: &Theme,
    icons: &IconSet,
) -> (r: Vec<Line>)
    requires
        levels_ok(children@),
    ensures
        lines_view(r@) == nested_rows(children_view(children@), inner_width, *theme, *icons),
{
    let mut r: Vec<Line> = Vec::new();
    let ghost v = children_view(children@);
    assert(v.len() == children@.len());
    if children.len() == 0 {
        assert(lines_view(r@) =~= Seq::empty());
        return r;
    }
    push_row(&mut r, Line::raw(""));
    let rule = repeat(
        '─',
        if inner_width == 0 {
            1
        } else {
            inner_width as usize
        },
    );
    push_row(&mut r, Line::styled(rule.as_str(), theme.border));
    let n = numeral(children.len());
    let title = cat3(" Nested pages · ", n.as_str(), "  ");
    push_row(
        &mut r,
        Line::of2(
            Span::styled(title.as_str(), theme.heading),
            Span::styled("(open with the picker: ^P)", theme.dim),
        ),
    );
    push_row(&mut r, Line::raw(""));
    let ghost head = lines_view(r@);
    let ghost want = v.map_values(|c: ChildValue| nested_row(c, *theme, *icons));
    let mut i: usize = 0;
    assert(head + want.take(0) =~= head);
    while i < children.len()
        invariant
            i <= children@.len(),
            levels_ok(children@),
            v == children_view(children@),
            want == v.map_values(|c: ChildValue| nested_row(c, *theme, *icons)),
            lines_view(r@) == head + want.take(i as int),
        decreases children@.len() - i,
    {
        let c = &children[i];
        assert(v[i as int] == c@);
        assert(1 <= children@[i as int].depth <= usize::MAX / 2);
        let indent = repeat(' ', 1 + (c.depth - 1) * 2);
        let icon = match &c.icon {
            Some(s) => s.as_str(),
            None => icons.file,
        };
        let lead = cat3(indent.as_str(), icon, "  ");
        let l = Line::of2(
            Span::styled(lead.as_str(), theme.dim),
            Span::styled(c.label.as_str(), Style::new().fg(theme.foreground)),
        );
        assert(l@ == want[i as int]);
        push_row(&mut r, l);
        i += 1;
        assert(lines_view(r@) =~= head + want.take(i as int));
    }
    assert(want.take(i as int) =~= want);
    assert(lines_view(r@) =~= nested_rows(v, inner_width, *theme, *icons));
    r
}

/// Each nested page has its row, in order, below a heading that counts them,
/// and each level is two columns further in.
pub proof fn law_nested_pages_are_stepped_in(
    v: Seq<ChildValue>,
    inner_width: u16,
    theme: Theme,
    icons: IconSet,
    i: int,
)
    requires
        0 <= i < v.len(),
        v[i].depth >= 1,
    ensures
        ({
            let rows = nested_rows(v, inner_width, theme, icons);
            &&& rows.len() == 4 + v.len()
            &&& rows[4 + i][1].text == v[i].label
            &&& rows[4 + i][0].text.take(2 * v[i].depth - 1) == repeated(
                ' ',
                (2 * v[i].depth - 1) as nat,
            )
            &&& v[i].icon matches Some(icon) ==> rows[4 + i][0].text.len() == 2 * v[i].depth + 1
                + icon.len()
        }),
        nested_rows(Seq::empty(), inner_width, theme, icons).len() == 0,
{
    reveal_strlit("  ");
    let rows = nested_rows(v, inner_width, theme, icons);
    let t = rows[4 + i][0].text;
    assert(t.take(2 * v[i].depth - 1) =~= repeated(' ', (2 * v[i].depth - 1) as nat));
}

} // verus!

//! Row chrome: everything a block draws around its own text.

use crate::icons::{glyph_of_property, IconSet};
use crate::style::{
    lemma_spans_push, lines_view, no_style, span, spans_view, Line, Span, SpanView,
};
use crate::text::cat;
use crate::theme::Theme;
use crate::view::wrap::{laid_out, push_wrapped};
use vstd::prelude::*;

verus! {

/// The fold indicator before the bullet of a block.
#[derive(Clone, Copy, PartialEq, Eq, Structural, Debug)]
pub enum FoldMarker {
    /// No children.
    Leaf,
    /// Children that are shown.
    Expanded,
    /// Children that are folded away.
    Collapsed,
}

/// The mark before the bullet of a block that runs when its page opens.
pub const AUTO_RUN_GLYPH: &'static str = "⚡";

/// Blanks in place of that mark, as wide as it is.
pub const AUTO_RUN_PAD: &'static str = "  ";

/// A rail for each block above.
pub open spec fn rails(indent: nat, theme: Theme) -> Seq<SpanView> {
    Seq::new(indent, |i: int| span("│ "@, theme.dim))
}

/// Blanks as wide as the fold slot, the mark of a block that runs by itself
/// and the bullet.
pub open spec fn body_indent(has_auto_run: bool) -> Seq<SpanView> {
    if has_auto_run {
        seq![span("    "@, no_style()), span(AUTO_RUN_PAD@, no_style())]
    } else {
        seq![span("    "@, no_style())]
    }
}

/// What stands before a property in its row.
pub open spec fn property_head(key: Seq<char>, has_auto_run: bool, icons: IconSet) -> Seq<SpanView> {
    match glyph_of_property(icons, key) {
        Some(g) => body_indent(has_auto_run).push(span(g@ + " "@, no_style())),
        None => body_indent(has_auto_run),
    }
}

/// A property and its value.
pub open spec fn property_spans(key: Seq<char>, value: Seq<char>, theme: Theme) -> Seq<SpanView> {
    seq![span(key + ":: "@, theme.property_key), span(value, theme.property_value)]
}

/// The rows of a property.
pub open spec fn property_rows(
    indent: nat,
    key: Seq<char>,
    value: Seq<char>,
    has_auto_run: bool,
    theme: Theme,
    icons: IconSet,
    text_width: int,
) -> Seq<Seq<SpanView>> {
    laid_out(
        rails(indent, theme),
        property_head(key, has_auto_run, icons),
        property_spans(key, value, theme),
        text_width,
        None,
    )
}

/// The rails before a row.
pub fn make_rails(indent: usize, theme: &Theme) -> (v: Vec<Span>)
    ensures
        spans_view(v@) == rails(indent as nat, *theme),
{
    let mut v: Vec<Span> = Vec::new();
    let mut i: usize = 0;
    assert(spans_view(v@) =~= rails(0, *theme));
    while i < indent
        invariant
            i <= indent,
            spans_view(v@) == rails(i as nat, *theme),
        decreases indent - i,
    {
        let rail = Span::styled("│ ", theme.dim);
        proof {
            lemma_spans_push(v@, rail);
        }
        v.push(rail);
        assert(rails(i as nat + 1, *theme) =~= rails(i as nat, *theme).push(rail@));
        i += 1;
    }
    v
}

/// Pads a row to the column in which the text of its block starts.
pub fn push_body_indent(spans: &mut Vec<Span>, has_auto_run: bool)
    ensures
        spans_view(final(spans)@) == spans_view(old(spans)@) + body_indent(has_auto_run),
{
    broadcast use lemma_spans_push;

    spans.push(Span::raw("    "));
    if has_auto_run {
        spans.push(Span::raw(AUTO_RUN_PAD));
    }
    assert(spans_view(spans@) =~= spans_view(old(spans)@) + body_indent(has_auto_run));
}

/// A property and its value.
pub fn make_property(key: &str, value: &str, theme: &Theme) -> (v: Vec<Span>)
    ensures
        spans_view(v@) == property_spans(key@, value@, *theme),
{
    broadcast use lemma_spans_push;

    let mut v: Vec<Span> = Vec::new();
    let label = cat(key, ":: ");
    v.push(Span::styled(label.as_str(), theme.property_key));
    v.push(Span::styled(value, theme.property_value));
    assert(spans_view(v@) =~= property_spans(key@, value@, *theme));
    v
}

/// Appends the row of a property, below the block that has it.
pub fn push_property_row(
    indent: usize,
    key: &str,
    value: &str,
    has_auto_run: bool,
    theme: &Theme,
    icons: &IconSet,
    out: &mut Vec<Line>,
    text_width: u16,
)
    ensures
        lines_view(final(out)@) == lines_view(old(out)@) + property_rows(
            indent as nat,
            key@,
            value@,
            has_auto_run,
            *theme,
            *icons,
            text_width as int,
        ),
{
    broadcast use lemma_spans_push;

    let guides = make_rails(indent, theme);
    let mut head: Vec<Span> = Vec::new();
    push_body_indent(&mut head, has_auto_run);
    assert(spans_view(head@) =~= body_indent(has_auto_run));
    if let Some(glyph) = icons.property_glyph(key) {
        let g = cat(glyph, " ");
        head.push(Span::raw(g.as_str()));
    }
    assert(spans_view(head@) =~= property_head(key@, has_auto_run, *icons));
    push_wrapped(guides, head, make_property(key, value, theme), text_width, None, out);
}

/// A property is drawn as its key and its value, behind the sign of the key if
/// it has one, and as far in as the text of its block.
pub proof fn law_properties_stand_below_the_text(
    key: Seq<char>,
    value: Seq<char>,
    has_auto_run: bool,
    theme: Theme,
    icons: IconSet,
)
    ensures
        property_spans(key, value, theme)[0].text == key + ":: "@,
        property_spans(key, value, theme)[1].text == value,
        property_head(key, has_auto_run, icons)[0].text == "    "@,
        glyph_of_property(icons, key) matches Some(g) ==> property_head(
            key,
            has_auto_run,
            icons,
        ).last().text == g@ + " "@,
        glyph_of_property(icons, key) is None ==> property_head(key, has_auto_run, icons)
            == body_indent(has_auto_run),
        body_indent(true).len() == body_indent(false).len() + 1,
{
}

} // verus!

//! Embedded blocks: what a block that is nothing but a reference to another
//! draws below itself.

use crate::icons::IconSet;
use crate::style::{lemma_spans_push, lines_view, no_style, span, spans_view, Line, Span, SpanView};
use crate::text::{trim, trim_of};
use crate::theme::Theme;
use crate::view::inline::{
    block_pretty, render_pretty_block_text, toks_pretty, EmbedNode, InlineTok,
};
use crate::view::row_chrome::{make_rails, rails};
use crate::view::wrap::{laid_out, lemma_columns_of_spans, push_wrapped};
use vstd::prelude::*;

verus! {

/// How many levels are drawn below an embedded block.
pub const EMBED_MAX_DEPTH: u32 = 4;

/// A piece is blank text.
pub open spec fn is_blank(t: InlineTok) -> bool {
    t matches InlineTok::Plain(s) && trim_of(s@).len() == 0
}

/// The pieces that are not blank text.
pub open spec fn solid(v: Seq<InlineTok>) -> Seq<InlineTok>
    decreases v.len(),
{
    if v.len() == 0 {
        v
    } else if is_blank(v.last()) {
        solid(v.drop_last())
    } else {
        solid(v.drop_last()).push(v.last())
    }
}

/// A text is one embedded block, and blanks around it.
pub open spec fn is_sole_embed(v: Seq<InlineTok>) -> bool {
    solid(v).len() == 1 && solid(v)[0] is Embed
}

/// The handle of a text that is one embedded block.
pub open spec fn sole_handle(v: Seq<InlineTok>) -> Option<Seq<char>> {
    if is_sole_embed(v) {
        match solid(v)[0] {
            InlineTok::Embed { handle, .. } => Some(handle@),
            _ => None,
        }
    } else {
        None
    }
}

/// What stands below a text that is one embedded block.
pub open spec fn sole_children(v: Seq<InlineTok>) -> Seq<EmbedNode> {
    if is_sole_embed(v) {
        match solid(v)[0] {
            InlineTok::Embed { shown: Some(e), .. } => e.children@,
            _ => Seq::empty(),
        }
    } else {
        Seq::empty()
    }
}

proof fn lemma_solid_grows(v: Seq<InlineTok>, i: int)
    requires
        0 <= i <= v.len(),
    ensures
        solid(v.take(i)).len() <= solid(v).len(),
        forall|j: int|
            0 <= j < solid(v.take(i)).len() ==> #[trigger] solid(v.take(i))[j] == solid(v)[j],
    decreases v.len(),
{
    if i < v.len() {
        lemma_solid_grows(v.drop_last(), i);
        assert(v.drop_last().take(i) =~= v.take(i));
    } else {
        assert(v.take(i) =~= v);
    }
}

/// The embedded block that a text is, if it is one and nothing else.
pub fn sole_embed(v: &[InlineTok]) -> (r: Option<&InlineTok>)
    ensures
        match r {
            Some(t) => is_sole_embed(v@) && *t == solid(v@)[0],
            None => !is_sole_embed(v@),
        },
{
    let mut at: Option<usize> = None;
    let mut i: usize = 0;
    while i < v.len()
        invariant
            i <= v@.len(),
            match at {
                Some(k) => k < i && is_sole_embed(v@.take(i as int)) && v@[k as int] == solid(
                    v@.take(i as int),
                )[0],
                None => solid(v@.take(i as int)).len() == 0,
            },
        decreases v@.len() - i,
    {
        assert(v@.take(i + 1).drop_last() =~= v@.take(i as int));
        assert(v@.take(i + 1).last() == v@[i as int]);
        let blank = match &v[i] {
            InlineTok::Plain(s) => {
                let t = trim(s.as_str());
                t.as_str().is_empty()
            },
            _ => false,
        };
        if !blank {
            let embed = match &v[i] {
                InlineTok::Embed { .. } => true,
                _ => false,
            };
            proof {
                lemma_solid_grows(v@, i + 1);
                let s = solid(v@.take(i + 1));
                assert(s[s.len() - 1] == v@[i as int]);
            }
            if !embed || at.is_some() {
                return None;
            }
            at = Some(i);
        }
        i += 1;
    }
    assert(v@.take(i as int) =~= v@);
    match at {
        Some(k) => Some(&v[k]),
        None => None,
    }
}

/// The handle of a text that is one embedded block, and blanks around it.
pub fn embed_only_handle(v: &[InlineTok]) -> (r: Option<String>)
    ensures
        match r {
            Some(h) => sole_handle(v@) == Some(h@),
            None => sole_handle(v@) is None,
        },
{
    match sole_embed(v) {
        Some(InlineTok::Embed { handle, .. }) => Some(handle.clone()),
        _ => None,
    }
}

/// What stands before a row below an embedded block: the rails of the block
/// that embeds it, and two blanks for each level and one more.
pub open spec fn embed_guides(outer_indent: nat, depth: nat, theme: Theme) -> Seq<SpanView> {
    rails(outer_indent, theme) + Seq::new(depth + 1, |i: int| span("  "@, no_style()))
}

/// The rows below an embedded block.
pub open spec fn embed_rows(
    v: Seq<EmbedNode>,
    outer_indent: nat,
    depth: nat,
    theme: Theme,
    icons: IconSet,
    text_width: int,
) -> Seq<Seq<SpanView>>
    decreases v,
{
    if depth > EMBED_MAX_DEPTH || v.len() == 0 {
        Seq::empty()
    } else {
        let last = v.last();
        embed_rows(v.drop_last(), outer_indent, depth, theme, icons, text_width) + laid_out(
            embed_guides(outer_indent, depth, theme),
            seq![span("↳ "@, theme.dim)],
            block_pretty(last.text@, toks_pretty(last.body@, theme, icons), theme),
            text_width,
            None,
        ) + embed_rows(last.children@, outer_indent, depth + 1, theme, icons, text_width)
    }
}

fn make_embed_guides(outer_indent: usize, depth: u32, theme: &Theme) -> (v: Vec<Span>)
    requires
        depth <= EMBED_MAX_DEPTH,
    ensures
        spans_view(v@) == embed_guides(outer_indent as nat, depth as nat, *theme),
{
    let mut v = make_rails(outer_indent, theme);
    let ghost r = spans_view(v@);
    let mut i: u32 = 0;
    assert(r + Seq::new(0, |j: int| span("  "@, no_style())) =~= r);
    while i < depth + 1
        invariant
            i <= depth + 1,
            depth <= EMBED_MAX_DEPTH,
            spans_view(v@) == r + Seq::new(i as nat, |j: int| span("  "@, no_style())),
        decreases depth + 1 - i,
    {
        let s = Span::raw("  ");
        proof {
            lemma_spans_push(v@, s);
        }
        v.push(s);
        assert(Seq::new(i as nat + 1, |j: int| span("  "@, no_style())) =~= Seq::new(
            i as nat,
            |j: int| span("  "@, no_style()),
        ).push(s@));
        i += 1;
        assert(spans_view(v@) =~= r + Seq::new(i as nat, |j: int| span("  "@, no_style())));
    }
    v
}

/// Appends the rows below an embedded block. They are only drawn: the cursor
/// passes over them.
pub fn emit_embedded_children(
    children: &Vec<EmbedNode>,
    outer_indent: usize,
    depth: u32,
    theme: &Theme,
    icons: &IconSet,
    out: &mut Vec<Line>,
    text_width: u16,
)
    ensures
        lines_view(final(out)@) == lines_view(old(out)@) + embed_rows(
            children@,
            outer_indent as nat,
            depth as nat,
            *theme,
            *icons,
            text_width as int,
        ),
    decreases children,
{
    let ghost before = lines_view(out@);
    let ghost o = outer_indent as nat;
    let ghost w = text_width as int;
    if depth > EMBED_MAX_DEPTH {
        assert(embed_rows(children@, o, depth as nat, *theme, *icons, w) =~= Seq::empty());
        assert(before + Seq::<Seq<SpanView>>::empty() =~= before);
        return;
    }
    let mut i: usize = 0;
    assert(before + embed_rows(children@.take(0), o, depth as nat, *theme, *icons, w) =~= before);
    while i < children.len()
        invariant
            i <= children@.len(),
            depth <= EMBED_MAX_DEPTH,
            o == outer_indent,
            w == text_width,
            lines_view(out@) == before + embed_rows(
                children@.take(i as int),
                o,
                depth as nat,
                *theme,
                *icons,
                w,
            ),
        decreases children@.len() - i,
    {
        let child = &children[i];
        let ghost t = children@.take(i + 1);
        assert(t.drop_last() =~= children@.take(i as int));
        assert(t.last() == *child);
        let guides = make_embed_guides(outer_indent, depth, theme);
        let mut head: Vec<Span> = Vec::new();
        let arrow = Span::styled("↳ ", theme.dim);
        proof {
            lemma_spans_push(head@, arrow);
        }
        head.push(arrow);
        assert(spans_view(head@) =~= seq![span("↳ "@, theme.dim)]);
        let content = render_pretty_block_text(child.text.as_str(), &child.body, theme, icons);
        push_wrapped(guides, head, content, text_width, None, out);
        emit_embedded_children(&child.children, outer_indent, depth + 1, theme, icons, out, text_width);
        assert(lines_view(out@) =~= before + embed_rows(t, o, depth as nat, *theme, *icons, w));
        i += 1;
    }
    assert(children@.take(i as int) =~= children@);
}

/// What is more than blanks.
pub open spec fn not_blank() -> spec_fn(InlineTok) -> bool {
    |t: InlineTok| !(t matches InlineTok::Plain(s) && trim_of(s@).len() == 0)
}

proof fn lemma_solid_is_not_blank(v: Seq<InlineTok>)
    ensures
        solid(v) == v.filter(not_blank()),
    decreases v.len(),
{
    reveal(Seq::filter);
    if v.len() > 0 {
        lemma_solid_is_not_blank(v.drop_last());
    }
}

/// A block is drawn as what it embeds if it holds one embed and blanks only.
pub proof fn law_a_sole_embed_stands_alone(v: Seq<InlineTok>)
    ensures
        sole_handle(v) is Some <==> v.filter(not_blank()).len() == 1 && v.filter(not_blank())[0]
            is Embed,
        sole_handle(v) matches Some(h) ==> v.filter(not_blank())[0]->Embed_handle@ == h,
        sole_handle(v) is None ==> sole_children(v).len() == 0,
{
    lemma_solid_is_not_blank(v);
}

/// Embedded rows stand below the rails of the block that embeds them, one step
/// further in for each level, and end at the fifth.
pub proof fn law_embedded_rows_are_stepped_in(
    v: Seq<EmbedNode>,
    outer_indent: nat,
    depth: nat,
    theme: Theme,
    icons: IconSet,
    text_width: int,
)
    ensures
        forall|r: int|
            0 <= r < embed_rows(v, outer_indent, depth, theme, icons, text_width).len()
                ==> begins_stepped(
                #[trigger] embed_rows(v, outer_indent, depth, theme, icons, text_width)[r],
                outer_indent,
                depth,
                theme,
            ),
        depth > 4 ==> embed_rows(v, outer_indent, depth, theme, icons, text_width).len() == 0,
    decreases v,
{
    if depth <= 4 && v.len() > 0 {
        let last = v.last();
        let guides = embed_guides(outer_indent, depth, theme);
        let content = block_pretty(last.text@, toks_pretty(last.body@, theme, icons), theme);
        let a = embed_rows(v.drop_last(), outer_indent, depth, theme, icons, text_width);
        let b = laid_out(guides, seq![span("↳ "@, theme.dim)], content, text_width, None);
        let c = embed_rows(last.children@, outer_indent, depth + 1, theme, icons, text_width);
        law_embedded_rows_are_stepped_in(
            v.drop_last(),
            outer_indent,
            depth,
            theme,
            icons,
            text_width,
        );
        law_embedded_rows_are_stepped_in(
            last.children@,
            outer_indent,
            depth + 1,
            theme,
            icons,
            text_width,
        );
        let all = embed_rows(v, outer_indent, depth, theme, icons, text_width);
        assert(all =~= a + b + c);
        assert forall|r: int| 0 <= r < all.len() implies begins_stepped(
            #[trigger] all[r],
            outer_indent,
            depth,
            theme,
        ) by {
            if r < a.len() {
                assert(all[r] == a[r]);
            } else if r < a.len() + b.len() {
                let row = b[r - a.len()];
                assert(all[r] == row);
                assert forall|i: int| 0 <= i < guides.len() implies #[trigger] row[i]
                    == guides[i] by {}
            } else {
                assert(all[r] == c[r - a.len() - b.len()]);
            }
        }
    }
}

/// A row begins with so many rails and one step more than the depth.
pub open spec fn begins_stepped(
    row: Seq<SpanView>,
    outer_indent: nat,
    depth: nat,
    theme: Theme,
) -> bool {
    &&& row.len() > outer_indent + depth
    &&& forall|i: int| 0 <= i < outer_indent ==> #[trigger] row[i] == span("│ "@, theme.dim)
    &&& forall|i: int|
        outer_indent <= i <= outer_indent + depth ==> (#[trigger] row[i]).text == "  "@
}

/// How many blocks are embedded, down to the last level that is drawn.
pub open spec fn embedded(v: Seq<EmbedNode>, depth: nat) -> nat
    decreases v,
{
    if depth > 4 || v.len() == 0 {
        0
    } else {
        embedded(v.drop_last(), depth) + 1 + embedded(v.last().children@, depth + 1)
    }
}

/// Where no row is wrapped, each embedded block has one row, the last of them
/// behind all others and before what is below it.
pub proof fn law_every_embedded_block_has_a_row(
    v: Seq<EmbedNode>,
    outer_indent: nat,
    depth: nat,
    theme: Theme,
    icons: IconSet,
    text_width: int,
)
    requires
        text_width <= 0,
    ensures
        embed_rows(v, outer_indent, depth, theme, icons, text_width).len() == embedded(v, depth),
        depth <= 4 && v.len() > 0 ==> embed_rows(
            v,
            outer_indent,
            depth,
            theme,
            icons,
            text_width,
        )[embedded(v.drop_last(), depth) as int] == embed_guides(outer_indent, depth, theme)
            + seq![span("↳ "@, theme.dim)] + block_pretty(
            v.last().text@,
            toks_pretty(v.last().body@, theme, icons),
            theme,
        ),
    decreases v,
{
    if depth <= 4 && v.len() > 0 {
        let guides = embed_guides(outer_indent, depth, theme);
        let head = seq![span("↳ "@, theme.dim)];
        law_every_embedded_block_has_a_row(
            v.drop_last(),
            outer_indent,
            depth,
            theme,
            icons,
            text_width,
        );
        law_every_embedded_block_has_a_row(
            v.last().children@,
            outer_indent,
            depth + 1,
            theme,
            icons,
            text_width,
        );
        lemma_columns_of_spans(guides);
        lemma_columns_of_spans(head);
    }
}

} // verus!

//! The text of a block as spans: for reading, without its marks, and under
//! the cursor, with all of them.

use crate::icons::IconSet;
use crate::paths::{file_name, last_part};
use crate::style::{
    extend_spans, lemma_spans_push, no_style, patched, row_text, span, spans_view, Span, SpanView,
    Style,
};
use crate::text::{cat, cat3};
use crate::theme::Theme;
use crate::todo::{prefixes_of, quoted, split_block_prefixes, split_quote_prefix, TodoState};
use vstd::prelude::*;

verus! {

/// A piece of a block's text. What it refers to has been looked up.
#[derive(Debug)]
pub enum InlineTok {
    Plain(String),
    /// `[[name]]`, with the icon of the page.
    PageRef { name: String, icon: Option<String> },
    /// `#name`, with the icon of the page.
    Tag { name: String, icon: Option<String> },
    /// `**inner**`
    Bold { inner: String },
    /// `*inner*` or `_inner_`
    Italic { inner: String, marker: char },
    /// `~~inner~~`
    Strike { inner: String },
    /// `==inner==`
    Highlight { inner: String },
    /// `` `inner` ``
    Code { inner: String },
    /// `[text](url)`
    Link { text: String, url: String },
    /// `![alt](url)`; the file may be one that is no image.
    Image { alt: String, url: String, is_image: bool },
    /// `((handle))`, with the block it stands for.
    BlockRef { handle: String, cited: Option<Cited> },
    /// `!((handle))`, with the block it stands for.
    Embed { handle: String, shown: Option<Embedded> },
    /// `:shortcode:`, with its glyph.
    Emoji { shortcode: String, glyph: Option<String> },
}

/// A block that is referred to.
#[derive(Debug)]
pub struct Cited {
    /// The icon of its page.
    pub icon: Option<String>,
    pub text: String,
}

/// A block that is shown in place of a reference to it.
#[derive(Debug)]
pub struct Embedded {
    /// The icon of its page.
    pub icon: Option<String>,
    pub text: String,
    /// The pieces of its text behind the task and quote marks.
    pub body: Vec<InlineTok>,
    /// The blocks below it.
    pub children: Vec<EmbedNode>,
}

/// A block below an embedded one.
#[derive(Debug)]
pub struct EmbedNode {
    pub text: String,
    /// The pieces of its text behind the task and quote marks.
    pub body: Vec<InlineTok>,
    pub children: Vec<EmbedNode>,
}

// ---------------------------------------------------------------------
// For reading
// ---------------------------------------------------------------------

/// An icon and a space before a name.
pub open spec fn icon_span(icon: Option<String>, theme: Theme) -> Seq<SpanView> {
    match icon {
        Some(i) => seq![span(i@ + " "@, theme.dim)],
        None => Seq::empty(),
    }
}

/// A piece as it is read, with no block shown inside another.
pub open spec fn tok_flat(t: InlineTok, theme: Theme, icons: IconSet) -> Seq<SpanView> {
    match t {
        InlineTok::Plain(s) => seq![span(s@, no_style())],
        InlineTok::PageRef { name, icon } => icon_span(icon, theme).push(
            span(name@, theme.ref_link),
        ),
        InlineTok::Tag { name, icon } => icon_span(icon, theme).push(
            span("#"@ + name@, theme.tag_link),
        ),
        InlineTok::Bold { inner } => seq![span(inner@, theme.bold)],
        InlineTok::Italic { inner, .. } => seq![span(inner@, theme.italic)],
        InlineTok::Strike { inner } => seq![span(inner@, theme.strike)],
        InlineTok::Highlight { inner } => seq![span(inner@, theme.highlight)],
        InlineTok::Code { inner } => seq![span(inner@, theme.code)],
        InlineTok::Link { text, .. } => seq![span(text@, theme.md_link)],
        InlineTok::Image { alt, url, is_image } => seq![
            span(
                (if is_image {
                    icons.image@
                } else {
                    icons.file@
                }) + " "@ + (if alt@.len() == 0 {
                    file_name(url@)
                } else {
                    alt@
                }),
                theme.md_link,
            ),
        ],
        InlineTok::BlockRef { handle, cited } => match cited {
            Some(c) => icon_span(c.icon, theme).push(span(c.text@, theme.ref_link)),
            None => seq![span("(("@ + handle@ + "))"@, theme.dim)],
        },
        InlineTok::Emoji { shortcode, glyph } => match glyph {
            Some(g) => seq![span(g@, no_style())],
            None => seq![span(":"@ + shortcode@ + ":"@, no_style())],
        },
        InlineTok::Embed { handle, .. } => seq![span("!(("@ + handle@ + "))"@, theme.dim)],
    }
}

/// Pieces as they are read, with no block shown inside another.
pub open spec fn toks_flat(v: Seq<InlineTok>, theme: Theme, icons: IconSet) -> Seq<SpanView>
    decreases v.len(),
{
    if v.len() == 0 {
        Seq::empty()
    } else {
        toks_flat(v.drop_last(), theme, icons) + tok_flat(v.last(), theme, icons)
    }
}

/// Spans with a style over theirs.
pub open spec fn restyled(v: Seq<SpanView>, over: Style) -> Seq<SpanView> {
    v.map_values(|s: SpanView| span(s.text, patched(s.style, over)))
}

/// The text of a block as it is read: a bar for a quote, a box for a task,
/// and the rest of it, which a finished task dims.
pub open spec fn block_pretty(text: Seq<char>, body: Seq<SpanView>, theme: Theme) -> Seq<SpanView> {
    let p = prefixes_of(text);
    (if p.quoted {
        seq![span("│ "@, theme.dim)]
    } else {
        Seq::empty()
    }) + (match p.todo {
        Some(TodoState::Todo) => seq![span("☐ "@, theme.todo_open)] + body,
        Some(TodoState::Doing) => seq![span("◐ "@, theme.todo_open)] + body,
        Some(TodoState::Done) => seq![span("☑ "@, theme.todo_done)] + restyled(
            body,
            theme.todo_done_body,
        ),
        None => body,
    })
}

/// A piece as it is read. An embedded block is shown in its place; what that
/// block embeds is not.
pub open spec fn tok_pretty(t: InlineTok, theme: Theme, icons: IconSet) -> Seq<SpanView> {
    match t {
        InlineTok::Embed { shown, .. } => match shown {
            Some(e) => icon_span(e.icon, theme).push(span("↳ "@, theme.dim)) + block_pretty(
                e.text@,
                toks_flat(e.body@, theme, icons),
                theme,
            ),
            None => tok_flat(t, theme, icons),
        },
        _ => tok_flat(t, theme, icons),
    }
}

/// Pieces as they are read.
pub open spec fn toks_pretty(v: Seq<InlineTok>, theme: Theme, icons: IconSet) -> Seq<SpanView>
    decreases v.len(),
{
    if v.len() == 0 {
        Seq::empty()
    } else {
        toks_pretty(v.drop_last(), theme, icons) + tok_pretty(v.last(), theme, icons)
    }
}

fn push_icon(icon: &Option<String>, theme: &Theme, out: &mut Vec<Span>)
    ensures
        spans_view(final(out)@) == spans_view(old(out)@) + icon_span(*icon, *theme),
{
    broadcast use lemma_spans_push;

    if let Some(i) = icon {
        let t = cat(i.as_str(), " ");
        out.push(Span::styled(t.as_str(), theme.dim));
    }
    assert(spans_view(out@) =~= spans_view(old(out)@) + icon_span(*icon, *theme));
}

fn push_span(out: &mut Vec<Span>, text: &str, style: Style)
    ensures
        spans_view(final(out)@) == spans_view(old(out)@).push(span(text@, style)),
{
    broadcast use lemma_spans_push;

    out.push(Span::styled(text, style));
}

fn push_flat(t: &InlineTok, theme: &Theme, icons: &IconSet, out: &mut Vec<Span>)
    ensures
        spans_view(final(out)@) == spans_view(old(out)@) + tok_flat(*t, *theme, *icons),
{
    let ghost before = spans_view(out@);
    match t {
        InlineTok::Plain(s) => {
            push_span(out, s.as_str(), Style::new());
        },
        InlineTok::PageRef { name, icon } => {
            push_icon(icon, theme, out);
            push_span(out, name.as_str(), theme.ref_link);
        },
        InlineTok::Tag { name, icon } => {
            push_icon(icon, theme, out);
            let l = cat("#", name.as_str());
            push_span(out, l.as_str(), theme.tag_link);
        },
        InlineTok::Bold { inner } => {
            push_span(out, inner.as_str(), theme.bold);
        },
        InlineTok::Italic { inner, .. } => {
            push_span(out, inner.as_str(), theme.italic);
        },
        InlineTok::Strike { inner } => {
            push_span(out, inner.as_str(), theme.strike);
        },
        InlineTok::Highlight { inner } => {
            push_span(out, inner.as_str(), theme.highlight);
        },
        InlineTok::Code { inner } => {
            push_span(out, inner.as_str(), theme.code);
        },
        InlineTok::Link { text, .. } => {
            push_span(out, text.as_str(), theme.md_link);
        },
        InlineTok::Image { alt, url, is_image } => {
            let label = if alt.as_str().is_empty() {
                last_part(url.as_str())
            } else {
                alt.clone()
            };
            let l = cat3(
                if *is_image {
                    icons.image
                } else {
                    icons.file
                },
                " ",
                label.as_str(),
            );
            push_span(out, l.as_str(), theme.md_link);
        },
        InlineTok::BlockRef { handle, cited } => match cited {
            Some(c) => {
                push_icon(&c.icon, theme, out);
                push_span(out, c.text.as_str(), theme.ref_link);
            },
            None => {
                let l = cat3("((", handle.as_str(), "))");
                push_span(out, l.as_str(), theme.dim);
            },
        },
        InlineTok::Emoji { shortcode, glyph } => match glyph {
            Some(g) => {
                push_span(out, g.as_str(), Style::new());
            },
            None => {
                let l = cat3(":", shortcode.as_str(), ":");
                push_span(out, l.as_str(), Style::new());
            },
        },
        InlineTok::Embed { handle, .. } => {
            let l = cat3("!((", handle.as_str(), "))");
            push_span(out, l.as_str(), theme.dim);
        },
    }
    assert(spans_view(out@) =~= before + tok_flat(*t, *theme, *icons));
}

fn flat_spans(v: &[InlineTok], theme: &Theme, icons: &IconSet) -> (out: Vec<Span>)
    ensures
        spans_view(out@) == toks_flat(v@, *theme, *icons),
{
    let mut out: Vec<Span> = Vec::new();
    let mut i: usize = 0;
    assert(spans_view(out@) =~= Seq::empty());
    while i < v.len()
        invariant
            i <= v@.len(),
            spans_view(out@) == toks_flat(v@.take(i as int), *theme, *icons),
        decreases v@.len() - i,
    {
        assert(v@.take(i + 1).drop_last() =~= v@.take(i as int));
        push_flat(&v[i], theme, icons, &mut out);
        i += 1;
    }
    assert(v@.take(i as int) =~= v@);
    out
}

fn push_restyled(v: &Vec<Span>, over: Style, out: &mut Vec<Span>)
    ensures
        spans_view(final(out)@) == spans_view(old(out)@) + restyled(spans_view(v@), over),
{
    let ghost before = spans_view(out@);
    let ghost want = restyled(spans_view(v@), over);
    let mut i: usize = 0;
    assert(before + want.take(0) =~= before);
    while i < v.len()
        invariant
            i <= v@.len(),
            want == restyled(spans_view(v@), over),
            spans_view(out@) == before + want.take(i as int),
        decreases v@.len() - i,
    {
        assert(want[i as int] == span(v@[i as int]@.text, patched(v@[i as int]@.style, over)));
        push_span(out, v[i].text.as_str(), v[i].style.patch(over));
        i += 1;
        assert(spans_view(out@) =~= before + want.take(i as int));
    }
    assert(want.take(i as int) =~= want);
}

fn push_block_pretty(text: &str, body: &Vec<Span>, theme: &Theme, out: &mut Vec<Span>)
    ensures
        spans_view(final(out)@) == spans_view(old(out)@) + block_pretty(
            text@,
            spans_view(body@),
            *theme,
        ),
{
    let ghost before = spans_view(out@);
    let (todo, quoted, _) = split_block_prefixes(text);
    if quoted {
        push_span(out, "│ ", theme.dim);
    }
    match todo {
        Some(TodoState::Todo) => {
            push_span(out, "☐ ", theme.todo_open);
            extend_spans(out, body);
        },
        Some(TodoState::Doing) => {
            push_span(out, "◐ ", theme.todo_open);
            extend_spans(out, body);
        },
        Some(TodoState::Done) => {
            push_span(out, "☑ ", theme.todo_done);
            push_restyled(body, theme.todo_done_body, out);
        },
        None => {
            extend_spans(out, body);
        },
    }
    assert(spans_view(out@) =~= before + block_pretty(text@, spans_view(body@), *theme));
}

fn push_pretty(t: &InlineTok, theme: &Theme, icons: &IconSet, out: &mut Vec<Span>)
    ensures
        spans_view(final(out)@) == spans_view(old(out)@) + tok_pretty(*t, *theme, *icons),
{
    let ghost before = spans_view(out@);
    match t {
        InlineTok::Embed { shown, .. } => match shown {
            Some(e) => {
                push_icon(&e.icon, theme, out);
                push_span(out, "↳ ", theme.dim);
                let body = flat_spans(&e.body, theme, icons);
                push_block_pretty(e.text.as_str(), &body, theme, out);
            },
            None => {
                push_flat(t, theme, icons, out);
            },
        },
        _ => {
            push_flat(t, theme, icons, out);
        },
    }
    assert(spans_view(out@) =~= before + tok_pretty(*t, *theme, *icons));
}

/// Pieces of text as they are read: without their marks, and with the icons
/// of the pages they refer to.
pub fn render_markdown_inline(v: &[InlineTok], theme: &Theme, icons: &IconSet) -> (out: Vec<Span>)
    ensures
        spans_view(out@) == toks_pretty(v@, *theme, *icons),
{
    let mut out: Vec<Span> = Vec::new();
    let mut i: usize = 0;
    assert(spans_view(out@) =~= Seq::empty());
    while i < v.len()
        invariant
            i <= v@.len(),
            spans_view(out@) == toks_pretty(v@.take(i as int), *theme, *icons),
        decreases v@.len() - i,
    {
        assert(v@.take(i + 1).drop_last() =~= v@.take(i as int));
        push_pretty(&v[i], theme, icons, &mut out);
        i += 1;
    }
    assert(v@.take(i as int) =~= v@);
    out
}

/// The text of a block as it is read. `body` are the pieces of the text
/// behind its task and quote marks.
pub fn render_pretty_block_text(
    text: &str,
    body: &[InlineTok],
    theme: &Theme,
    icons: &IconSet,
) -> (out: Vec<Span>)
    ensures
        spans_view(out@) == block_pretty(text@, toks_pretty(body@, *theme, *icons), *theme),
{
    let spans = render_markdown_inline(body, theme, icons);
    let mut out: Vec<Span> = Vec::new();
    let ghost before = spans_view(out@);
    push_block_pretty(text, &spans, theme, &mut out);
    assert(before =~= Seq::empty());
    assert(spans_view(out@) =~= block_pretty(text@, toks_pretty(body@, *theme, *icons), *theme));
    out
}

// ---------------------------------------------------------------------
// Under the cursor
// ---------------------------------------------------------------------

/// A piece with its marks dimmed around it.
pub open spec fn marked(
    open: Seq<char>,
    inner: Seq<char>,
    close: Seq<char>,
    dim: Style,
    style: Style,
) -> Seq<SpanView> {
    seq![span(open, dim), span(inner, style), span(close, dim)]
}

/// A piece with all its marks.
pub open spec fn tok_raw(t: InlineTok, theme: Theme) -> Seq<SpanView> {
    let dim = theme.dim;
    match t {
        InlineTok::Plain(s) => seq![span(s@, no_style())],
        InlineTok::PageRef { name, .. } => seq![span("[["@ + name@ + "]]"@, theme.ref_link)],
        InlineTok::Tag { name, .. } => seq![span("#"@ + name@, theme.tag_link)],
        InlineTok::Bold { inner } => marked("**"@, inner@, "**"@, dim, theme.bold),
        InlineTok::Italic { inner, marker } => marked(
            seq![marker],
            inner@,
            seq![marker],
            dim,
            theme.italic,
        ),
        InlineTok::Strike { inner } => marked("~~"@, inner@, "~~"@, dim, theme.strike),
        InlineTok::Highlight { inner } => marked("=="@, inner@, "=="@, dim, theme.highlight),
        InlineTok::Code { inner } => marked("`"@, inner@, "`"@, dim, theme.code),
        InlineTok::Link { text, url } => marked(
            "["@,
            text@,
            "]("@ + url@ + ")"@,
            dim,
            theme.md_link,
        ),
        InlineTok::Image { alt, url, .. } => marked(
            "!["@,
            alt@,
            "]("@ + url@ + ")"@,
            dim,
            theme.md_link,
        ),
        InlineTok::BlockRef { handle, .. } => marked("(("@, handle@, "))"@, dim, theme.ref_link),
        InlineTok::Embed { handle, .. } => marked("!(("@, handle@, "))"@, dim, theme.ref_link),
        InlineTok::Emoji { shortcode, .. } => marked(
            ":"@,
            shortcode@,
            ":"@,
            dim,
            no_style(),
        ),
    }
}

/// Pieces with all their marks.
pub open spec fn toks_raw(v: Seq<InlineTok>, theme: Theme) -> Seq<SpanView>
    decreases v.len(),
{
    if v.len() == 0 {
        Seq::empty()
    } else {
        toks_raw(v.drop_last(), theme) + tok_raw(v.last(), theme)
    }
}

/// A text behind the quote sign at its front.
pub open spec fn behind_quote(text: Seq<char>) -> Seq<char> {
    if quoted(text) {
        text.skip(2)
    } else {
        text
    }
}

/// A text with all its marks. `v` are the pieces behind its quote sign.
pub open spec fn text_raw(text: Seq<char>, v: Seq<InlineTok>, theme: Theme) -> Seq<SpanView> {
    (if quoted(text) {
        seq![span("> "@, theme.dim)]
    } else {
        Seq::empty()
    }) + toks_raw(v, theme)
}

fn push_marked(
    open: &str,
    inner: &str,
    close: &str,
    dim: Style,
    style: Style,
    out: &mut Vec<Span>,
)
    ensures
        spans_view(final(out)@) == spans_view(old(out)@) + marked(
            open@,
            inner@,
            close@,
            dim,
            style,
        ),
{
    push_span(out, open, dim);
    push_span(out, inner, style);
    push_span(out, close, dim);
    assert(spans_view(out@) =~= spans_view(old(out)@) + marked(open@, inner@, close@, dim, style));
}

fn push_raw(t: &InlineTok, theme: &Theme, out: &mut Vec<Span>)
    ensures
        spans_view(final(out)@) == spans_view(old(out)@) + tok_raw(*t, *theme),
{
    let ghost before = spans_view(out@);
    let dim = theme.dim;
    match t {
        InlineTok::Plain(s) => {
            push_span(out, s.as_str(), Style::new());
        },
        InlineTok::PageRef { name, .. } => {
            let l = cat3("[[", name.as_str(), "]]");
            push_span(out, l.as_str(), theme.ref_link);
        },
        InlineTok::Tag { name, .. } => {
            let l = cat("#", name.as_str());
            push_span(out, l.as_str(), theme.tag_link);
        },
        InlineTok::Bold { inner } => {
            push_marked("**", inner.as_str(), "**", dim, theme.bold, out);
        },
        InlineTok::Italic { inner, marker } => {
            let mut m = String::new();
            m.push(*marker);
            assert(m@ =~= seq![*marker]);
            push_marked(m.as_str(), inner.as_str(), m.as_str(), dim, theme.italic, out);
        },
        InlineTok::Strike { inner } => {
            push_marked("~~", inner.as_str(), "~~", dim, theme.strike, out);
        },
        InlineTok::Highlight { inner } => {
            push_marked("==", inner.as_str(), "==", dim, theme.highlight, out);
        },
        InlineTok::Code { inner } => {
            push_marked("`", inner.as_str(), "`", dim, theme.code, out);
        },
        InlineTok::Link { text, url } => {
            let close = cat3("](", url.as_str(), ")");
            push_marked("[", text.as_str(), close.as_str(), dim, theme.md_link, out);
        },
        InlineTok::Image { alt, url, .. } => {
            let close = cat3("](", url.as_str(), ")");
            push_marked("![", alt.as_str(), close.as_str(), dim, theme.md_link, out);
        },
        InlineTok::BlockRef { handle, .. } => {
            push_marked("((", handle.as_str(), "))", dim, theme.ref_link, out);
        },
        InlineTok::Embed { handle, .. } => {
            push_marked("!((", handle.as_str(), "))", dim, theme.ref_link, out);
        },
        InlineTok::Emoji { shortcode, .. } => {
            push_marked(":", shortcode.as_str(), ":", dim, Style::new(), out);
        },
    }
    assert(spans_view(out@) =~= before + tok_raw(*t, *theme));
}

/// A text with all its marks, which are dimmed, so that a column on the
/// screen is a column of the text. `v` are the pieces of the text behind a
/// quote sign at its front.
pub fn highlight_inline(text: &str, v: &[InlineTok], theme: &Theme) -> (out: Vec<Span>)
    ensures
        spans_view(out@) == text_raw(text@, v@, *theme),
{
    let mut out: Vec<Span> = Vec::new();
    assert(spans_view(out@) =~= Seq::empty());
    let (quoted_here, _) = split_quote_prefix(text);
    if quoted_here {
        push_span(&mut out, "> ", theme.dim);
    }
    let ghost head = spans_view(out@);
    let mut i: usize = 0;
    assert(head + toks_raw(v@.take(0), *theme) =~= head);
    while i < v.len()
        invariant
            i <= v@.len(),
            spans_view(out@) == head + toks_raw(v@.take(i as int), *theme),
        decreases v@.len() - i,
    {
        assert(v@.take(i + 1).drop_last() =~= v@.take(i as int));
        push_raw(&v[i], theme, &mut out);
        i += 1;
        assert(spans_view(out@) =~= head + toks_raw(v@.take(i as int), *theme));
    }
    assert(v@.take(i as int) =~= v@);
    assert(spans_view(out@) =~= text_raw(text@, v@, *theme));
    out
}

// ---------------------------------------------------------------------
// Laws
// ---------------------------------------------------------------------

/// A piece as it is written.
pub open spec fn tok_source(t: InlineTok) -> Seq<char> {
    match t {
        InlineTok::Plain(s) => s@,
        InlineTok::PageRef { name, .. } => "[["@ + name@ + "]]"@,
        InlineTok::Tag { name, .. } => "#"@ + name@,
        InlineTok::Bold { inner } => "**"@ + inner@ + "**"@,
        InlineTok::Italic { inner, marker } => seq![marker] + inner@ + seq![marker],
        InlineTok::Strike { inner } => "~~"@ + inner@ + "~~"@,
        InlineTok::Highlight { inner } => "=="@ + inner@ + "=="@,
        InlineTok::Code { inner } => "`"@ + inner@ + "`"@,
        InlineTok::Link { text, url } => "["@ + text@ + "]("@ + url@ + ")"@,
        InlineTok::Image { alt, url, .. } => "!["@ + alt@ + "]("@ + url@ + ")"@,
        InlineTok::BlockRef { handle, .. } => "(("@ + handle@ + "))"@,
        InlineTok::Embed { handle, .. } => "!(("@ + handle@ + "))"@,
        InlineTok::Emoji { shortcode, .. } => ":"@ + shortcode@ + ":"@,
    }
}

/// Pieces as they are written.
pub open spec fn toks_source(v: Seq<InlineTok>) -> Seq<char>
    decreases v.len(),
{
    if v.len() == 0 {
        Seq::empty()
    } else {
        toks_source(v.drop_last()) + tok_source(v.last())
    }
}

/// The text of two rows, one after the other, is that of both.
pub proof fn lemma_row_text_add(a: Seq<SpanView>, b: Seq<SpanView>)
    ensures
        row_text(a + b) == row_text(a) + row_text(b),
    decreases b.len(),
{
    if b.len() == 0 {
        assert(a + b =~= a);
        assert(row_text(a) + Seq::<char>::empty() =~= row_text(a));
    } else {
        assert((a + b).drop_last() =~= a + b.drop_last());
        assert((a + b).last() == b.last());
        lemma_row_text_add(a, b.drop_last());
        assert((row_text(a) + row_text(b.drop_last())) + b.last().text =~= row_text(a) + (row_text(
            b.drop_last(),
        ) + b.last().text));
    }
}

/// The text of a row of one span.
pub proof fn lemma_row_text_one(s: SpanView)
    ensures
        row_text(seq![s]) == s.text,
{
    reveal_with_fuel(row_text, 2);
    assert(seq![s].drop_last() =~= Seq::empty());
    assert(Seq::<char>::empty() + s.text =~= s.text);
}

proof fn lemma_marked_text(
    open: Seq<char>,
    inner: Seq<char>,
    close: Seq<char>,
    dim: Style,
    style: Style,
)
    ensures
        row_text(marked(open, inner, close, dim, style)) == open + inner + close,
{
    let m = marked(open, inner, close, dim, style);
    assert(m =~= seq![span(open, dim)] + seq![span(inner, style)] + seq![span(close, dim)]);
    lemma_row_text_one(span(open, dim));
    lemma_row_text_one(span(inner, style));
    lemma_row_text_one(span(close, dim));
    lemma_row_text_add(seq![span(open, dim)], seq![span(inner, style)]);
    lemma_row_text_add(
        seq![span(open, dim)] + seq![span(inner, style)],
        seq![span(close, dim)],
    );
}

proof fn lemma_tok_raw_text(t: InlineTok, theme: Theme)
    ensures
        row_text(tok_raw(t, theme)) == tok_source(t),
{
    let dim = theme.dim;
    match t {
        InlineTok::Plain(s) => lemma_row_text_one(span(s@, no_style())),
        InlineTok::PageRef { name, .. } => lemma_row_text_one(
            span("[["@ + name@ + "]]"@, theme.ref_link),
        ),
        InlineTok::Tag { name, .. } => lemma_row_text_one(span("#"@ + name@, theme.tag_link)),
        InlineTok::Bold { inner } => lemma_marked_text("**"@, inner@, "**"@, dim, theme.bold),
        InlineTok::Italic { inner, marker } => lemma_marked_text(
            seq![marker],
            inner@,
            seq![marker],
            dim,
            theme.italic,
        ),
        InlineTok::Strike { inner } => lemma_marked_text("~~"@, inner@, "~~"@, dim, theme.strike),
        InlineTok::Highlight { inner } => lemma_marked_text(
            "=="@,
            inner@,
            "=="@,
            dim,
            theme.highlight,
        ),
        InlineTok::Code { inner } => lemma_marked_text("`"@, inner@, "`"@, dim, theme.code),
        InlineTok::Link { text, url } => {
            lemma_marked_text("["@, text@, "]("@ + url@ + ")"@, dim, theme.md_link);
            assert("["@ + text@ + ("]("@ + url@ + ")"@) =~= "["@ + text@ + "]("@ + url@ + ")"@);
        },
        InlineTok::Image { alt, url, .. } => {
            lemma_marked_text("!["@, alt@, "]("@ + url@ + ")"@, dim, theme.md_link);
            assert("!["@ + alt@ + ("]("@ + url@ + ")"@) =~= "!["@ + alt@ + "]("@ + url@ + ")"@);
        },
        InlineTok::BlockRef { handle, .. } => lemma_marked_text(
            "(("@,
            handle@,
            "))"@,
            dim,
            theme.ref_link,
        ),
        InlineTok::Embed { handle, .. } => lemma_marked_text(
            "!(("@,
            handle@,
            "))"@,
            dim,
            theme.ref_link,
        ),
        InlineTok::Emoji { shortcode, .. } => lemma_marked_text(
            ":"@,
            shortcode@,
            ":"@,
            dim,
            no_style(),
        ),
    }
}

proof fn lemma_toks_raw_text(v: Seq<InlineTok>, theme: Theme)
    ensures
        row_text(toks_raw(v, theme)) == toks_source(v),
    decreases v.len(),
{
    if v.len() > 0 {
        lemma_toks_raw_text(v.drop_last(), theme);
        lemma_tok_raw_text(v.last(), theme);
        lemma_row_text_add(toks_raw(v.drop_last(), theme), tok_raw(v.last(), theme));
    }
}

/// Under the cursor a text shows exactly as it is written: no character is
/// added, dropped or moved.
pub proof fn law_raw_text_is_the_source(text: Seq<char>, v: Seq<InlineTok>, theme: Theme)
    requires
        toks_source(v) == behind_quote(text),
    ensures
        row_text(text_raw(text, v, theme)) == text,
{
    lemma_toks_raw_text(v, theme);
    if quoted(text) {
        reveal_strlit("> ");
        lemma_row_text_one(span("> "@, theme.dim));
        lemma_row_text_add(seq![span("> "@, theme.dim)], toks_raw(v, theme));
        assert("> "@ + text.skip(2) =~= text);
    } else {
        assert(text_raw(text, v, theme) =~= toks_raw(v, theme));
    }
}

/// A block shows its quote and its state in front of its text.
pub proof fn law_states_are_drawn(text: Seq<char>, body: Seq<SpanView>, theme: Theme)
    ensures
        row_text(block_pretty(text, body, theme)) == (if prefixes_of(text).quoted {
            "│ "@
        } else {
            ""@
        }) + (match prefixes_of(text).todo {
            Some(TodoState::Todo) => "☐ "@,
            Some(TodoState::Doing) => "◐ "@,
            Some(TodoState::Done) => "☑ "@,
            None => ""@,
        }) + row_text(body),
        prefixes_of(text).todo == Some(TodoState::Done) ==> forall|i: int|
            0 <= i < block_pretty(text, body, theme).len() && i + body.len() >= block_pretty(
                text,
                body,
                theme,
            ).len() && theme.todo_done_body.crossed_out ==> (#[trigger] block_pretty(
                text,
                body,
                theme,
            )[i]).style.crossed_out,
{
    reveal_strlit("");
    let p = prefixes_of(text);
    lemma_restyled_text(body, theme.todo_done_body);
    let quote = seq![span("│ "@, theme.dim)];
    lemma_row_text_one(span("│ "@, theme.dim));
    let rest = match p.todo {
        Some(TodoState::Todo) => seq![span("☐ "@, theme.todo_open)] + body,
        Some(TodoState::Doing) => seq![span("◐ "@, theme.todo_open)] + body,
        Some(TodoState::Done) => seq![span("☑ "@, theme.todo_done)] + restyled(
            body,
            theme.todo_done_body,
        ),
        None => body,
    };
    lemma_row_text_one(span("☐ "@, theme.todo_open));
    lemma_row_text_one(span("◐ "@, theme.todo_open));
    lemma_row_text_one(span("☑ "@, theme.todo_done));
    lemma_row_text_add(seq![span("☐ "@, theme.todo_open)], body);
    lemma_row_text_add(seq![span("◐ "@, theme.todo_open)], body);
    lemma_row_text_add(
        seq![span("☑ "@, theme.todo_done)],
        restyled(body, theme.todo_done_body),
    );
    lemma_row_text_add(quote, rest);
    let r = block_pretty(text, body, theme);
    if p.quoted {
        assert(r =~= quote + rest);
    } else {
        assert(r =~= rest);
    }
    assert(row_text(r) =~= (if p.quoted {
        "│ "@
    } else {
        ""@
    }) + (match p.todo {
        Some(TodoState::Todo) => "☐ "@,
        Some(TodoState::Doing) => "◐ "@,
        Some(TodoState::Done) => "☑ "@,
        None => ""@,
    }) + row_text(body));
}

proof fn lemma_restyled_text(v: Seq<SpanView>, over: Style)
    ensures
        row_text(restyled(v, over)) == row_text(v),
    decreases v.len(),
{
    if v.len() > 0 {
        lemma_restyled_text(v.drop_last(), over);
        assert(restyled(v, over).drop_last() =~= restyled(v.drop_last(), over));
    }
}

/// Text that is read shows what the marks stand around, without them; what
/// refers to something that is not there shows as it was typed.
pub proof fn law_marks_are_left_out(t: InlineTok, theme: Theme, icons: IconSet)
    ensures
        t matches InlineTok::Bold { inner } ==> row_text(tok_flat(t, theme, icons)) == inner@,
        t matches InlineTok::Italic { inner, .. } ==> row_text(tok_flat(t, theme, icons)) == inner@,
        t matches InlineTok::Strike { inner } ==> row_text(tok_flat(t, theme, icons)) == inner@,
        t matches InlineTok::Highlight { inner } ==> row_text(tok_flat(t, theme, icons)) == inner@,
        t matches InlineTok::Code { inner } ==> row_text(tok_flat(t, theme, icons)) == inner@,
        t matches InlineTok::Link { text, .. } ==> row_text(tok_flat(t, theme, icons)) == text@,
        t matches InlineTok::Plain(s) ==> row_text(tok_flat(t, theme, icons)) == s@,
        t matches InlineTok::Tag { name, icon: None } ==> row_text(tok_flat(t, theme, icons)) == "#"@
            + name@,
        t matches InlineTok::PageRef { name, icon: None } ==> row_text(tok_flat(t, theme, icons))
            == name@,
        t matches InlineTok::BlockRef { cited: None, .. } ==> row_text(tok_flat(t, theme, icons))
            == tok_source(t),
        t matches InlineTok::Emoji { glyph: None, .. } ==> row_text(tok_flat(t, theme, icons))
            == tok_source(t),
        t is Embed ==> row_text(tok_flat(t, theme, icons)) == tok_source(t),
{
    let r = tok_flat(t, theme, icons);
    if r.len() == 1 {
        lemma_row_text_one(r[0]);
        assert(r =~= seq![r[0]]);
    }
}

/// Tokens are drawn one behind the other.
pub proof fn law_tokens_are_drawn_in_order(
    a: Seq<InlineTok>,
    b: Seq<InlineTok>,
    theme: Theme,
    icons: IconSet,
)
    ensures
        toks_pretty(a + b, theme, icons) == toks_pretty(a, theme, icons) + toks_pretty(
            b,
            theme,
            icons,
        ),
        toks_flat(a + b, theme, icons) == toks_flat(a, theme, icons) + toks_flat(b, theme, icons),
        toks_raw(a + b, theme) == toks_raw(a, theme) + toks_raw(b, theme),
    decreases b.len(),
{
    if b.len() == 0 {
        assert(a + b =~= a);
        assert(toks_pretty(a, theme, icons) + toks_pretty(b, theme, icons) =~= toks_pretty(
            a,
            theme,
            icons,
        ));
        assert(toks_flat(a, theme, icons) + toks_flat(b, theme, icons) =~= toks_flat(
            a,
            theme,
            icons,
        ));
        assert(toks_raw(a, theme) + toks_raw(b, theme) =~= toks_raw(a, theme));
    } else {
        law_tokens_are_drawn_in_order(a, b.drop_last(), theme, icons);
        assert((a + b).drop_last() =~= a + b.drop_last());
        assert((a + b).last() == b.last());
        assert(toks_pretty(a + b, theme, icons) =~= toks_pretty(a, theme, icons) + toks_pretty(
            b,
            theme,
            icons,
        ));
        assert(toks_flat(a + b, theme, icons) =~= toks_flat(a, theme, icons) + toks_flat(
            b,
            theme,
            icons,
        ));
        assert(toks_raw(a + b, theme) =~= toks_raw(a, theme) + toks_raw(b, theme));
    }
}

} // verus!

//! The outline as lines: the blocks of the page with their bullets, their
//! properties and the cursor.

use crate::actions::collapsed::{
    folded_at, hidden_all, hidden_from, lemma_hidden_count,
};
use crate::actions::exec::{has_auto_run, marked_auto_run};
use crate::actions::plugins::{cache_view, transform_of, transformed};
use crate::actions::visual::range_of;
use crate::actions::zoom::{same_path, zoom_root};
use crate::icons::{fold_marker_span, icons_of, IconSet, TuiIconStyle};
use crate::listing::{law_listing_is_the_outline, listed, listed_all, Entry};
use crate::outline::{
    count, flat_count, index_of, lemma_count_mono, lemma_count_take, node_at, nodes_view, pairs,
    path_at, path_for_index, preorder, NodeView, OutlineNode,
};
use crate::state::{App, Focus, Mode};
use crate::style::{
    extend_spans, lemma_lines_push, lemma_spans_push, lines_view, no_style, row_text, span,
    spans_view, Line, Span, SpanView, Style,
};
use crate::text::{chars_of, matches_at, starts_with, string_range, trim_start, trim_start_of};
use crate::theme::{caret_on_char, Theme};
use crate::view::embed::{
    embed_guides, emit_embedded_children, embed_rows, sole_children, sole_embed, EMBED_MAX_DEPTH,
};
use crate::view::inline::{
    behind_quote, block_pretty, highlight_inline, law_raw_text_is_the_source, lemma_row_text_add,
    lemma_row_text_one, render_markdown_inline, render_pretty_block_text, text_raw, toks_pretty,
    toks_source, EmbedNode, InlineTok,
};
use crate::view::row_chrome::{
    body_indent, make_property, make_rails, property_head, property_rows, property_spans, push_body_indent,
    push_property_row, rails, FoldMarker, AUTO_RUN_GLYPH,
};
use crate::view::wrap::{laid_out, push_wrapped, spans_columns};
use vstd::prelude::*;

verus! {

// ---------------------------------------------------------------------
// One row of a block
// ---------------------------------------------------------------------

/// How the cursor is drawn: before a character, or on it.
#[derive(Clone, Copy, PartialEq, Eq, Structural, Debug)]
pub enum CursorStyle {
    Caret,
    Block,
}

/// What a row of a block is.
#[derive(Clone, Copy, PartialEq, Eq, Structural, Debug)]
pub enum BlockRowKind {
    Bullet,
    Continuation,
    CodeFenceMarker,
    CodeFenceBody,
}

/// The cursor in a row, and the pieces of the text on both sides of the
/// character it is on, each behind a quote sign at its front.
#[derive(Debug)]
pub struct RowCursor {
    pub col: usize,
    pub left: Vec<InlineTok>,
    pub rest: Vec<InlineTok>,
}

/// A row of a block.
#[derive(Debug)]
pub struct BlockRow {
    pub kind: BlockRowKind,
    pub text: String,
    /// The pieces of the text.
    pub toks: Vec<InlineTok>,
    /// The pieces of the text behind its task and quote marks.
    pub body: Vec<InlineTok>,
    pub cursor: Option<RowCursor>,
}

/// The style of the character the cursor is on.
pub open spec fn mark_style(style: CursorStyle, theme: Theme) -> Style {
    match style {
        CursorStyle::Caret => caret_on_char(theme),
        CursorStyle::Block => theme.cursor_block,
    }
}

/// The style of the cursor behind the last character.
pub open spec fn end_style(style: CursorStyle, theme: Theme) -> Style {
    match style {
        CursorStyle::Caret => theme.cursor_caret,
        CursorStyle::Block => theme.cursor_block,
    }
}

/// A row with the cursor in it: the character it is on is marked; behind the
/// last one, a bar is drawn.
pub open spec fn cursor_spans(
    text: Seq<char>,
    col: int,
    left: Seq<InlineTok>,
    rest: Seq<InlineTok>,
    style: CursorStyle,
    theme: Theme,
) -> Seq<SpanView> {
    if col < text.len() {
        text_raw(text.take(col), left, theme).push(
            span(seq![text[col]], mark_style(style, theme)),
        ) + text_raw(text.skip(col + 1), rest, theme)
    } else {
        text_raw(text, left, theme).push(span("▏"@, end_style(style, theme)))
    }
}

/// Appends a row with the cursor in it.
pub fn emit_row_with_cursor(
    text: &str,
    cursor: &RowCursor,
    style: CursorStyle,
    theme: &Theme,
    spans: &mut Vec<Span>,
)
    ensures
        spans_view(final(spans)@) == spans_view(old(spans)@) + cursor_spans(
            text@,
            cursor.col as int,
            cursor.left@,
            cursor.rest@,
            style,
            *theme,
        ),
{
    let ghost before = spans_view(spans@);
    let v = chars_of(text);
    let mark = match style {
        CursorStyle::Caret => theme.cursor_caret_on_char(),
        CursorStyle::Block => theme.cursor_block,
    };
    if cursor.col < v.len() {
        let left = string_range(&v, 0, cursor.col);
        assert(left@ =~= text@.take(cursor.col as int));
        let l = highlight_inline(left.as_str(), &cursor.left, theme);
        extend_spans(spans, &l);
        let on = string_range(&v, cursor.col, cursor.col + 1);
        assert(on@ =~= seq![text@[cursor.col as int]]);
        let s = Span::styled(on.as_str(), mark);
        proof {
            lemma_spans_push(spans@, s);
        }
        spans.push(s);
        let rest = string_range(&v, cursor.col + 1, v.len());
        assert(rest@ =~= text@.skip(cursor.col + 1));
        let r = highlight_inline(rest.as_str(), &cursor.rest, theme);
        extend_spans(spans, &r);
    } else {
        let l = highlight_inline(text, &cursor.left, theme);
        extend_spans(spans, &l);
        let end = match style {
            CursorStyle::Caret => theme.cursor_caret,
            CursorStyle::Block => theme.cursor_block,
        };
        let s = Span::styled("▏", end);
        proof {
            lemma_spans_push(spans@, s);
        }
        spans.push(s);
    }
    assert(spans_view(spans@) =~= before + cursor_spans(
        text@,
        cursor.col as int,
        cursor.left@,
        cursor.rest@,
        style,
        *theme,
    ));
}

/// What stands before the text in a row of a block.
pub open spec fn row_head(
    kind: BlockRowKind,
    fold: FoldMarker,
    has_auto_run: bool,
    bullet: Style,
    theme: Theme,
    icons: IconSet,
) -> Seq<SpanView> {
    if kind == BlockRowKind::Bullet {
        if has_auto_run {
            seq![
                fold_marker_span(icons, fold, theme),
                span(AUTO_RUN_GLYPH@, theme.hint),
                span("- "@, bullet),
            ]
        } else {
            seq![fold_marker_span(icons, fold, theme), span("- "@, bullet)]
        }
    } else {
        body_indent(has_auto_run)
    }
}

/// The text of a row opens a block of code.
pub open spec fn opens_fence(text: Seq<char>) -> bool {
    matches_at(trim_start_of(text), "```"@, 0)
}

/// The text of a row. `style` is that of the cursor where the block has one;
/// a block without is shown for reading, and if it is `alone` in its row,
/// with its task and quote marks drawn.
pub open spec fn row_content(
    row: BlockRow,
    style: Option<CursorStyle>,
    alone: bool,
    theme: Theme,
    icons: IconSet,
) -> Seq<SpanView> {
    let pretty = style is None;
    match (row.cursor, style) {
        (Some(c), Some(s)) => cursor_spans(row.text@, c.col as int, c.left@, c.rest@, s, theme),
        _ => if pretty && row.kind == BlockRowKind::Bullet && opens_fence(row.text@) {
            seq![span(row.text@, theme.dim)]
        } else if pretty && row.kind == BlockRowKind::CodeFenceMarker {
            seq![span(row.text@, theme.dim)]
        } else if pretty && row.kind == BlockRowKind::CodeFenceBody {
            seq![span(row.text@, theme.code)]
        } else if pretty && alone && row.kind == BlockRowKind::Bullet {
            block_pretty(row.text@, toks_pretty(row.body@, theme, icons), theme)
        } else {
            toks_pretty(row.toks@, theme, icons)
        },
    }
}

/// The style of the cursor cell in a row, if the row has one.
pub open spec fn row_mark(row: BlockRow, style: Option<CursorStyle>, theme: Theme) -> Option<Style> {
    match (row.cursor, style) {
        (Some(_), Some(s)) => Some(mark_style(s, theme)),
        _ => None,
    }
}

fn make_row_head(
    kind: BlockRowKind,
    fold: FoldMarker,
    has_auto_run: bool,
    bullet: Style,
    theme: &Theme,
    icons: &IconSet,
) -> (head: Vec<Span>)
    ensures
        spans_view(head@) == row_head(kind, fold, has_auto_run, bullet, *theme, *icons),
{
    broadcast use lemma_spans_push;

    let mut head: Vec<Span> = Vec::new();
    assert(spans_view(head@) =~= Seq::empty());
    if kind == BlockRowKind::Bullet {
        head.push(icons.fold_span(fold, theme));
        if has_auto_run {
            head.push(Span::styled(AUTO_RUN_GLYPH, theme.hint));
        }
        head.push(Span::styled("- ", bullet));
    } else {
        push_body_indent(&mut head, has_auto_run);
    }
    assert(spans_view(head@) =~= row_head(kind, fold, has_auto_run, bullet, *theme, *icons));
    head
}

fn one_span(text: &str, style: Style) -> (v: Vec<Span>)
    ensures
        spans_view(v@) == seq![span(text@, style)],
{
    let mut v: Vec<Span> = Vec::new();
    let s = Span::styled(text, style);
    proof {
        lemma_spans_push(v@, s);
    }
    v.push(s);
    assert(spans_view(v@) =~= seq![span(text@, style)]);
    v
}

fn make_row_content(
    row: &BlockRow,
    style: Option<CursorStyle>,
    alone: bool,
    theme: &Theme,
    icons: &IconSet,
) -> (content: Vec<Span>)
    ensures
        spans_view(content@) == row_content(*row, style, alone, *theme, *icons),
{
    if let (Some(c), Some(s)) = (&row.cursor, style) {
        let mut content: Vec<Span> = Vec::new();
        assert(spans_view(content@) =~= Seq::empty());
        emit_row_with_cursor(row.text.as_str(), c, s, theme, &mut content);
        assert(spans_view(content@) =~= row_content(*row, style, alone, *theme, *icons));
        return content;
    }
    let pretty = style.is_none();
    if pretty && row.kind == BlockRowKind::Bullet {
        let t = trim_start(row.text.as_str());
        if starts_with(t.as_str(), "```") {
            return one_span(row.text.as_str(), theme.dim);
        }
    }
    if pretty && row.kind == BlockRowKind::CodeFenceMarker {
        one_span(row.text.as_str(), theme.dim)
    } else if pretty && row.kind == BlockRowKind::CodeFenceBody {
        one_span(row.text.as_str(), theme.code)
    } else if pretty && alone && row.kind == BlockRowKind::Bullet {
        render_pretty_block_text(row.text.as_str(), &row.body, theme, icons)
    } else {
        render_markdown_inline(&row.toks, theme, icons)
    }
}

// ---------------------------------------------------------------------
// The rows of a block
// ---------------------------------------------------------------------

/// The rows of the text of a block.
pub open spec fn text_lines(
    rows: Seq<BlockRow>,
    alone: bool,
    indent: nat,
    bullet: Style,
    style: Option<CursorStyle>,
    has_auto_run: bool,
    fold: FoldMarker,
    theme: Theme,
    icons: IconSet,
    text_width: int,
) -> Seq<Seq<SpanView>>
    decreases rows.len(),
{
    if rows.len() == 0 {
        Seq::empty()
    } else {
        let row = rows.last();
        text_lines(
            rows.drop_last(),
            alone,
            indent,
            bullet,
            style,
            has_auto_run,
            fold,
            theme,
            icons,
            text_width,
        ) + laid_out(
            rails(indent, theme),
            row_head(row.kind, fold, has_auto_run, bullet, theme, icons),
            row_content(row, style, alone, theme, icons),
            text_width,
            row_mark(row, style, theme),
        )
    }
}

/// Appends the rows of the text of a block.
pub fn emit_block_lines(
    indent: usize,
    bullet_style: Style,
    rows: &Vec<BlockRow>,
    style: Option<CursorStyle>,
    has_auto_run: bool,
    fold: FoldMarker,
    theme: &Theme,
    icons: &IconSet,
    out: &mut Vec<Line>,
    text_width: u16,
)
    ensures
        lines_view(final(out)@) == lines_view(old(out)@) + text_lines(
            rows@,
            rows@.len() == 1,
            indent as nat,
            bullet_style,
            style,
            has_auto_run,
            fold,
            *theme,
            *icons,
            text_width as int,
        ),
{
    let ghost before = lines_view(out@);
    let alone = rows.len() == 1;
    let mut i: usize = 0;
    assert(before + text_lines(
        rows@.take(0),
        alone,
        indent as nat,
        bullet_style,
        style,
        has_auto_run,
        fold,
        *theme,
        *icons,
        text_width as int,
    ) =~= before);
    while i < rows.len()
        invariant
            i <= rows@.len(),
            lines_view(out@) == before + text_lines(
                rows@.take(i as int),
                alone,
                indent as nat,
                bullet_style,
                style,
                has_auto_run,
                fold,
                *theme,
                *icons,
                text_width as int,
            ),
        decreases rows@.len() - i,
    {
        let row = &rows[i];
        let ghost t = rows@.take(i + 1);
        assert(t.drop_last() =~= rows@.take(i as int));
        assert(t.last() == *row);
        let guides = make_rails(indent, theme);
        let head = make_row_head(row.kind, fold, has_auto_run, bullet_style, theme, icons);
        let content = make_row_content(row, style, alone, theme, icons);
        let mark = match (&row.cursor, style) {
            (Some(_), Some(CursorStyle::Caret)) => Some(theme.cursor_caret_on_char()),
            (Some(_), Some(CursorStyle::Block)) => Some(theme.cursor_block),
            _ => None,
        };
        assert(mark == row_mark(*row, style, *theme));
        push_wrapped(guides, head, content, text_width, mark, out);
        i += 1;
        assert(lines_view(out@) =~= before + text_lines(
            t,
            alone,
            indent as nat,
            bullet_style,
            style,
            has_auto_run,
            fold,
            *theme,
            *icons,
            text_width as int,
        ));
    }
    assert(rows@.take(i as int) =~= rows@);
}

/// The rows of the properties of a block.
pub open spec fn property_lines(
    v: Seq<(Seq<char>, Seq<char>)>,
    indent: nat,
    has_auto_run: bool,
    theme: Theme,
    icons: IconSet,
    text_width: int,
) -> Seq<Seq<SpanView>>
    decreases v.len(),
{
    if v.len() == 0 {
        Seq::empty()
    } else {
        property_lines(v.drop_last(), indent, has_auto_run, theme, icons, text_width)
            + property_rows(
            indent,
            v.last().0,
            v.last().1,
            has_auto_run,
            theme,
            icons,
            text_width,
        )
    }
}

fn emit_properties(
    v: &Vec<(String, String)>,
    indent: usize,
    has_auto_run: bool,
    theme: &Theme,
    icons: &IconSet,
    out: &mut Vec<Line>,
    text_width: u16,
)
    ensures
        lines_view(final(out)@) == lines_view(old(out)@) + property_lines(
            pairs(v@),
            indent as nat,
            has_auto_run,
            *theme,
            *icons,
            text_width as int,
        ),
{
    let ghost before = lines_view(out@);
    let ghost n = indent as nat;
    let ghost w = text_width as int;
    let mut i: usize = 0;
    assert(before + property_lines(pairs(v@).take(0), n, has_auto_run, *theme, *icons, w)
        =~= before);
    while i < v.len()
        invariant
            i <= v@.len(),
            n == indent,
            w == text_width,
            lines_view(out@) == before + property_lines(
                pairs(v@).take(i as int),
                n,
                has_auto_run,
                *theme,
                *icons,
                w,
            ),
        decreases v@.len() - i,
    {
        let ghost t = pairs(v@).take(i + 1);
        assert(t.drop_last() =~= pairs(v@).take(i as int));
        push_property_row(
            indent,
            v[i].0.as_str(),
            v[i].1.as_str(),
            has_auto_run,
            theme,
            icons,
            out,
            text_width,
        );
        assert(t.last() == (v@[i as int].0@, v@[i as int].1@));
        i += 1;
        assert(lines_view(out@) =~= before + property_lines(t, n, has_auto_run, *theme, *icons, w));
    }
    assert(pairs(v@).take(i as int) =~= pairs(v@));
}

// ---------------------------------------------------------------------
// How a block is shown
// ---------------------------------------------------------------------

/// Which text of a block is shown, and with which cursor.
#[derive(Debug)]
pub enum RenderMode {
    /// The block is being edited: its text so far, with the caret.
    Editing { text: String, cursor_char: usize },
    /// The block is selected: its text, with the cursor.
    NormalCursor { text: String, cursor_char: usize },
    /// The text is read.
    Pretty { text: String },
    /// What a plugin made of the text is read.
    Transformed { content: String },
}

/// How a block is shown, as a value.
pub ghost struct Shown {
    pub text: Seq<char>,
    /// The cursor, and the character it is on.
    pub cursor: Option<(CursorStyle, usize)>,
    /// A plugin made the text.
    pub transformed: bool,
}

impl View for RenderMode {
    type V = Shown;

    open spec fn view(&self) -> Shown {
        match self {
            RenderMode::Editing { text, cursor_char } => Shown {
                text: text@,
                cursor: Some((CursorStyle::Caret, *cursor_char)),
                transformed: false,
            },
            RenderMode::NormalCursor { text, cursor_char } => Shown {
                text: text@,
                cursor: Some((CursorStyle::Block, *cursor_char)),
                transformed: false,
            },
            RenderMode::Pretty { text } => Shown {
                text: text@,
                cursor: None,
                transformed: false,
            },
            RenderMode::Transformed { content } => Shown {
                text: content@,
                cursor: None,
                transformed: true,
            },
        }
    }
}

impl RenderMode {
    /// How the cursor is drawn, if there is one.
    pub fn cursor_style(&self) -> (r: Option<CursorStyle>)
        ensures
            r == (match self@.cursor {
                Some((s, _)) => Some(s),
                None => None,
            }),
    {
        match self {
            RenderMode::Editing { .. } => Some(CursorStyle::Caret),
            RenderMode::NormalCursor { .. } => Some(CursorStyle::Block),
            _ => None,
        }
    }
}

/// The block with a flat index is the selected one.
pub open spec fn selected_here(app: App, flat: int) -> bool {
    app.focus is Outline && flat == app.selected
}

/// The block with a flat index is being edited.
pub open spec fn editing_here(app: App, flat: int) -> bool {
    app.focus is Outline && (match app.mode {
        Mode::Insert { block_path, .. } => path_at(app.blocks(), flat) == Some(block_path@),
        _ => false,
    })
}

/// The block with a flat index is in the selected range.
pub open spec fn in_range_here(app: App, flat: int) -> bool {
    app.focus is Outline && (match range_of(app) {
        Some((lo, hi)) => lo <= flat <= hi,
        None => false,
    })
}

/// The identifier of the block with a flat index.
pub open spec fn id_at(app: App, flat: int) -> Option<u128> {
    if 0 <= flat < app.id_by_flat@.len() {
        Some(app.id_by_flat@[flat])
    } else {
        None
    }
}

/// What a plugin last made of the block with a flat index.
pub open spec fn made_here(app: App, flat: int) -> Option<Seq<char>> {
    match id_at(app, flat) {
        Some(id) => transformed(cache_view(app.transform_cache@), id),
        None => None,
    }
}

/// How the block with a flat index is shown. The cursor comes before what a
/// plugin made of the block, so that what is edited is what is written.
pub open spec fn shown_as(app: App, flat: int, text: Seq<char>) -> Shown {
    if editing_here(app, flat) {
        match app.mode {
            Mode::Insert { buffer, .. } => Shown {
                text: buffer@.chars,
                cursor: Some((CursorStyle::Caret, buffer.cursor)),
                transformed: false,
            },
            _ => Shown { text, cursor: None, transformed: false },
        }
    } else if selected_here(app, flat) && app.mode is Normal {
        Shown {
            text,
            cursor: Some((CursorStyle::Block, app.cursor_col)),
            transformed: false,
        }
    } else {
        match made_here(app, flat) {
            Some(content) => Shown { text: content, cursor: None, transformed: true },
            None => Shown { text, cursor: None, transformed: false },
        }
    }
}

/// The cursor that the block with a flat index is drawn with.
pub open spec fn style_here(app: App, flat: int, text: Seq<char>) -> Option<CursorStyle> {
    match shown_as(app, flat, text).cursor {
        Some((s, _)) => Some(s),
        None => None,
    }
}

/// The style of the bullet of the block with a flat index.
pub open spec fn bullet_here(app: App, flat: int) -> Style {
    if selected_here(app, flat) || in_range_here(app, flat) {
        app.theme.selected_bullet
    } else {
        app.theme.bullet
    }
}

/// The block with a flat index is folded.
pub open spec fn folded_here(app: App, flat: int) -> bool {
    folded_at(app.id_by_flat@, app.collapsed@, flat)
}

/// The fold marker of a block.
pub open spec fn fold_of(has_children: bool, folded: bool) -> FoldMarker {
    if !has_children {
        FoldMarker::Leaf
    } else if folded {
        FoldMarker::Collapsed
    } else {
        FoldMarker::Expanded
    }
}

impl App {
    fn on_outline(&self) -> (r: bool)
        ensures
            r == (self.focus is Outline),
    {
        match self.focus {
            Focus::Outline => true,
            _ => false,
        }
    }

    fn edits(&self, flat: usize) -> (r: bool)
        requires
            self.wf(),
        ensures
            r == editing_here(*self, flat as int),
    {
        if !self.on_outline() {
            return false;
        }
        match &self.mode {
            Mode::Insert { block_path, .. } => match path_for_index(&self.page.blocks, flat) {
                Some(p) => same_path(&p, block_path),
                None => false,
            },
            _ => false,
        }
    }

    fn bullet_style(&self, flat: usize) -> (r: Style)
        ensures
            r == bullet_here(*self, flat as int),
    {
        if !self.on_outline() {
            return self.theme.bullet;
        }
        let in_range = match self.visual_range() {
            Some((lo, hi)) => lo <= flat && flat <= hi,
            None => false,
        };
        if flat == self.selected || in_range {
            self.theme.selected_bullet
        } else {
            self.theme.bullet
        }
    }

    fn folded(&self, flat: usize) -> (r: bool)
        ensures
            r == folded_here(*self, flat as int),
    {
        flat < self.id_by_flat.len() && self.collapsed.contains(&self.id_by_flat[flat])
    }

    /// How the block with a flat index is shown, given its text.
    pub fn render_mode(&self, flat: usize, text: &str) -> (r: RenderMode)
        requires
            self.wf(),
        ensures
            r@ == shown_as(*self, flat as int, text@),
    {
        if self.edits(flat) {
            if let Mode::Insert { buffer, .. } = &self.mode {
                return RenderMode::Editing {
                    text: buffer.as_string(),
                    cursor_char: buffer.cursor,
                };
            }
        }
        let normal = match self.mode {
            Mode::Normal => true,
            _ => false,
        };
        if self.on_outline() && flat == self.selected && normal {
            return RenderMode::NormalCursor {
                text: text.to_owned(),
                cursor_char: self.cursor_col,
            };
        }
        if flat < self.id_by_flat.len() {
            if let Some(content) = transform_of(&self.transform_cache, self.id_by_flat[flat]) {
                return RenderMode::Transformed { content };
            }
        }
        RenderMode::Pretty { text: text.to_owned() }
    }
}

// ---------------------------------------------------------------------
// The outline
// ---------------------------------------------------------------------

/// A block taken apart for drawing: the rows of the text it is shown with,
/// and the pieces of its own text.
#[derive(Debug)]
pub struct BlockInput {
    pub rows: Vec<BlockRow>,
    pub toks: Vec<InlineTok>,
}

/// The rows of one block: its text, its properties, and what it embeds.
pub open spec fn own_lines(
    n: NodeView,
    indent: nat,
    flat: int,
    app: App,
    inputs: Seq<BlockInput>,
    text_width: int,
) -> Seq<Seq<SpanView>> {
    let input = inputs[flat];
    let auto = has_auto_run(n.properties);
    text_lines(
        input.rows@,
        input.rows@.len() == 1,
        indent,
        bullet_here(app, flat),
        style_here(app, flat, n.text),
        auto,
        fold_of(n.children.len() > 0, folded_here(app, flat)),
        app.theme,
        app.icons,
        text_width,
    ) + property_lines(n.properties, indent, auto, app.theme, app.icons, text_width) + embed_rows(
        sole_children(input.toks@),
        indent,
        1,
        app.theme,
        app.icons,
        text_width,
    )
}

/// The rows of a block and of all below it that is not folded away. `flat`
/// is the flat index of the block.
pub open spec fn block_lines(
    n: NodeView,
    indent: nat,
    flat: int,
    app: App,
    inputs: Seq<BlockInput>,
    text_width: int,
) -> Seq<Seq<SpanView>>
    decreases n, 0nat,
{
    own_lines(n, indent, flat, app, inputs, text_width) + (if folded_here(app, flat) {
        Seq::empty()
    } else {
        all_lines(n.children, indent + 1, flat + 1, app, inputs, text_width)
    })
}

/// The rows of blocks. A folded block takes up its flat indices all the
/// same.
pub open spec fn all_lines(
    v: Seq<NodeView>,
    indent: nat,
    flat: int,
    app: App,
    inputs: Seq<BlockInput>,
    text_width: int,
) -> Seq<Seq<SpanView>>
    decreases v, 1nat,
{
    if v.len() == 0 {
        Seq::empty()
    } else {
        all_lines(v.drop_last(), indent, flat, app, inputs, text_width) + block_lines(
            v.last(),
            indent,
            flat + count(v.drop_last()),
            app,
            inputs,
            text_width,
        )
    }
}

/// Where the blocks start: the first row of each, from row `at` on, and its
/// flat index.
pub open spec fn block_starts(
    n: NodeView,
    indent: nat,
    flat: int,
    at: int,
    app: App,
    inputs: Seq<BlockInput>,
    text_width: int,
) -> Seq<(int, int)>
    decreases n, 0nat,
{
    seq![(at, flat)] + (if folded_here(app, flat) {
        Seq::empty()
    } else {
        all_starts(
            n.children,
            indent + 1,
            flat + 1,
            at + own_lines(n, indent, flat, app, inputs, text_width).len(),
            app,
            inputs,
            text_width,
        )
    })
}

/// Where blocks start.
pub open spec fn all_starts(
    v: Seq<NodeView>,
    indent: nat,
    flat: int,
    at: int,
    app: App,
    inputs: Seq<BlockInput>,
    text_width: int,
) -> Seq<(int, int)>
    decreases v, 1nat,
{
    if v.len() == 0 {
        Seq::empty()
    } else {
        all_starts(v.drop_last(), indent, flat, at, app, inputs, text_width) + block_starts(
            v.last(),
            indent,
            flat + count(v.drop_last()),
            at + all_lines(v.drop_last(), indent, flat, app, inputs, text_width).len(),
            app,
            inputs,
            text_width,
        )
    }
}

/// Starts as values.
pub open spec fn starts_view(v: Seq<(usize, usize)>) -> Seq<(int, int)> {
    v.map_values(|p: (usize, usize)| (p.0 as int, p.1 as int))
}

proof fn lemma_starts_push(v: Seq<(usize, usize)>, p: (usize, usize))
    ensures
        starts_view(v.push(p)) == starts_view(v).push((p.0 as int, p.1 as int)),
{
    assert(starts_view(v.push(p)) =~= starts_view(v).push((p.0 as int, p.1 as int)));
}

/// The rows of a block are its own and then those below it.
proof fn lemma_block_lines(
    before: Seq<Seq<SpanView>>,
    n: NodeView,
    indent: nat,
    flat: int,
    app: App,
    inputs: Seq<BlockInput>,
    text_width: int,
)
    ensures
        ({
            let own = own_lines(n, indent, flat, app, inputs, text_width);
            let all = before + block_lines(n, indent, flat, app, inputs, text_width);
            if folded_here(app, flat) {
                all == before + own
            } else {
                all == before + own + all_lines(
                    n.children,
                    indent + 1,
                    flat + 1,
                    app,
                    inputs,
                    text_width,
                )
            }
        }),
{
    let own = own_lines(n, indent, flat, app, inputs, text_width);
    let all = before + block_lines(n, indent, flat, app, inputs, text_width);
    if folded_here(app, flat) {
        assert(all =~= before + own);
    } else {
        let below = all_lines(n.children, indent + 1, flat + 1, app, inputs, text_width);
        assert(all =~= before + own + below);
    }
}

/// A block starts before those below it.
proof fn lemma_block_starts(
    before: Seq<(int, int)>,
    n: NodeView,
    indent: nat,
    flat: int,
    at: int,
    app: App,
    inputs: Seq<BlockInput>,
    text_width: int,
)
    ensures
        ({
            let all = before + block_starts(n, indent, flat, at, app, inputs, text_width);
            if folded_here(app, flat) {
                all == before.push((at, flat))
            } else {
                all == before.push((at, flat)) + all_starts(
                    n.children,
                    indent + 1,
                    flat + 1,
                    at + own_lines(n, indent, flat, app, inputs, text_width).len(),
                    app,
                    inputs,
                    text_width,
                )
            }
        }),
{
    let all = before + block_starts(n, indent, flat, at, app, inputs, text_width);
    if folded_here(app, flat) {
        assert(all =~= before.push((at, flat)));
    } else {
        let below = all_starts(
            n.children,
            indent + 1,
            flat + 1,
            at + own_lines(n, indent, flat, app, inputs, text_width).len(),
            app,
            inputs,
            text_width,
        );
        assert(all =~= before.push((at, flat)) + below);
    }
}

/// The rows of blocks are those of all but the last, and then its own.
proof fn lemma_all_lines(
    before: Seq<Seq<SpanView>>,
    v: Seq<NodeView>,
    indent: nat,
    flat: int,
    app: App,
    inputs: Seq<BlockInput>,
    text_width: int,
)
    ensures
        ({
            let all = before + all_lines(v, indent, flat, app, inputs, text_width);
            if v.len() == 0 {
                all == before
            } else {
                all == before + all_lines(v.drop_last(), indent, flat, app, inputs, text_width)
                    + block_lines(
                    v.last(),
                    indent,
                    flat + count(v.drop_last()),
                    app,
                    inputs,
                    text_width,
                )
            }
        }),
{
    let all = before + all_lines(v, indent, flat, app, inputs, text_width);
    if v.len() == 0 {
        assert(all =~= before);
    } else {
        let most = all_lines(v.drop_last(), indent, flat, app, inputs, text_width);
        let last = block_lines(
            v.last(),
            indent,
            flat + count(v.drop_last()),
            app,
            inputs,
            text_width,
        );
        assert(all =~= before + most + last);
    }
}

/// All blocks but the last start before it.
proof fn lemma_all_starts(
    before: Seq<(int, int)>,
    v: Seq<NodeView>,
    indent: nat,
    flat: int,
    at: int,
    app: App,
    inputs: Seq<BlockInput>,
    text_width: int,
)
    ensures
        ({
            let all = before + all_starts(v, indent, flat, at, app, inputs, text_width);
            if v.len() == 0 {
                all == before
            } else {
                all == before + all_starts(
                    v.drop_last(),
                    indent,
                    flat,
                    at,
                    app,
                    inputs,
                    text_width,
                ) + block_starts(
                    v.last(),
                    indent,
                    flat + count(v.drop_last()),
                    at + all_lines(v.drop_last(), indent, flat, app, inputs, text_width).len(),
                    app,
                    inputs,
                    text_width,
                )
            }
        }),
{
    let all = before + all_starts(v, indent, flat, at, app, inputs, text_width);
    if v.len() == 0 {
        assert(all =~= before);
    } else {
        let most = all_starts(v.drop_last(), indent, flat, at, app, inputs, text_width);
        let last = block_starts(
            v.last(),
            indent,
            flat + count(v.drop_last()),
            at + all_lines(v.drop_last(), indent, flat, app, inputs, text_width).len(),
            app,
            inputs,
            text_width,
        );
        assert(all =~= before + most + last);
    }
}

/// A single block is drawn as a list of one.
proof fn lemma_one_block(
    n: NodeView,
    indent: nat,
    flat: int,
    at: int,
    app: App,
    inputs: Seq<BlockInput>,
    text_width: int,
)
    ensures
        all_lines(seq![n], indent, flat, app, inputs, text_width) == block_lines(
            n,
            indent,
            flat,
            app,
            inputs,
            text_width,
        ),
        all_starts(seq![n], indent, flat, at, app, inputs, text_width) == block_starts(
            n,
            indent,
            flat,
            at,
            app,
            inputs,
            text_width,
        ),
{
    let v = seq![n];
    let e = v.drop_last();
    assert(e =~= Seq::<NodeView>::empty());
    assert(count(e) == 0);
    let lines = block_lines(n, indent, flat, app, inputs, text_width);
    let starts = block_starts(n, indent, flat, at, app, inputs, text_width);
    assert(all_lines(e, indent, flat, app, inputs, text_width) + lines =~= lines);
    assert(all_starts(e, indent, flat, at, app, inputs, text_width) + starts =~= starts);
}

fn emit_own(
    b: &OutlineNode,
    indent: usize,
    flat: usize,
    app: &App,
    inputs: &Vec<BlockInput>,
    out: &mut Vec<Line>,
    text_width: u16,
)
    requires
        app.wf(),
        flat < inputs@.len(),
    ensures
        lines_view(final(out)@) == lines_view(old(out)@) + own_lines(
            b@,
            indent as nat,
            flat as int,
            *app,
            inputs@,
            text_width as int,
        ),
{
    let ghost before = lines_view(out@);
    assert(b@.children.len() == b.children@.len());
    let input = &inputs[flat];
    let mode = app.render_mode(flat, b.text.as_str());
    let auto = marked_auto_run(&b.properties);
    let fold = if b.children.len() == 0 {
        FoldMarker::Leaf
    } else if app.folded(flat) {
        FoldMarker::Collapsed
    } else {
        FoldMarker::Expanded
    };
    emit_block_lines(
        indent,
        app.bullet_style(flat),
        &input.rows,
        mode.cursor_style(),
        auto,
        fold,
        &app.theme,
        &app.icons,
        out,
        text_width,
    );
    emit_properties(&b.properties, indent, auto, &app.theme, &app.icons, out, text_width);
    let ghost so_far = lines_view(out@);
    match sole_embed(&input.toks) {
        Some(InlineTok::Embed { shown: Some(e), .. }) => {
            emit_embedded_children(
                &e.children,
                indent,
                1,
                &app.theme,
                &app.icons,
                out,
                text_width,
            );
        },
        _ => {
            assert(sole_children(input.toks@) =~= Seq::empty());
            assert(so_far + Seq::<Seq<SpanView>>::empty() =~= so_far);
        },
    }
    assert(lines_view(out@) =~= before + own_lines(
        b@,
        indent as nat,
        flat as int,
        *app,
        inputs@,
        text_width as int,
    ));
}

/// Appends the rows of a block and of all below it that is not folded away,
/// and where each of them starts. `flat` is the flat index of the block.
/// Returns the flat index behind the block and all below it.
pub fn render_block(
    b: &OutlineNode,
    indent: usize,
    flat: usize,
    app: &App,
    inputs: &Vec<BlockInput>,
    out: &mut Vec<Line>,
    starts: &mut Vec<(usize, usize)>,
    text_width: u16,
) -> (next: usize)
    requires
        app.wf(),
        flat + preorder(b@).len() <= inputs@.len(),
        indent + preorder(b@).len() <= usize::MAX,
    ensures
        next == flat + preorder(b@).len(),
        lines_view(final(out)@) == lines_view(old(out)@) + block_lines(
            b@,
            indent as nat,
            flat as int,
            *app,
            inputs@,
            text_width as int,
        ),
        starts_view(final(starts)@) == starts_view(old(starts)@) + block_starts(
            b@,
            indent as nat,
            flat as int,
            old(out)@.len() as int,
            *app,
            inputs@,
            text_width as int,
        ),
    decreases b, 0nat,
{
    proof {
        let n = indent as nat;
        let k = flat as int;
        let w = text_width as int;
        lemma_starts_push(starts@, (out.len(), flat));
        lemma_block_lines(lines_view(out@), b@, n, k, *app, inputs@, w);
        lemma_block_starts(
            starts_view(starts@),
            b@,
            n,
            k,
            out@.len() as int,
            *app,
            inputs@,
            w,
        );
    }
    starts.push((out.len(), flat));
    emit_own(b, indent, flat, app, inputs, out, text_width);
    assert(lines_view(out@).len() == out@.len());
    assert(inputs.len() <= usize::MAX);
    if app.folded(flat) {
        flat + 1 + flat_count(&b.children)
    } else {
        render_blocks(
            &b.children,
            indent + 1,
            flat + 1,
            app,
            inputs,
            out,
            starts,
            text_width,
        )
    }
}

/// Appends the rows of blocks and where they start.
pub fn render_blocks(
    blocks: &Vec<OutlineNode>,
    indent: usize,
    flat: usize,
    app: &App,
    inputs: &Vec<BlockInput>,
    out: &mut Vec<Line>,
    starts: &mut Vec<(usize, usize)>,
    text_width: u16,
) -> (next: usize)
    requires
        app.wf(),
        flat + count(nodes_view(blocks@)) <= inputs@.len(),
        indent + count(nodes_view(blocks@)) <= usize::MAX,
    ensures
        next == flat + count(nodes_view(blocks@)),
        lines_view(final(out)@) == lines_view(old(out)@) + all_lines(
            nodes_view(blocks@),
            indent as nat,
            flat as int,
            *app,
            inputs@,
            text_width as int,
        ),
        starts_view(final(starts)@) == starts_view(old(starts)@) + all_starts(
            nodes_view(blocks@),
            indent as nat,
            flat as int,
            old(out)@.len() as int,
            *app,
            inputs@,
            text_width as int,
        ),
    decreases blocks, 1nat,
{
    let ghost lines0 = lines_view(out@);
    let ghost starts0 = starts_view(starts@);
    let ghost v = nodes_view(blocks@);
    let ghost n = indent as nat;
    let ghost k = flat as int;
    let ghost w = text_width as int;
    let ghost at = out@.len() as int;
    let mut next: usize = flat;
    let mut i: usize = 0;
    assert(count(v.take(0)) == 0);
    assert(lines0.len() == at);
    proof {
        lemma_all_lines(lines0, v.take(0), n, k, *app, inputs@, w);
        lemma_all_starts(starts0, v.take(0), n, k, at, *app, inputs@, w);
    }
    while i < blocks.len()
        invariant
            i <= blocks@.len(),
            v == nodes_view(blocks@),
            v.len() == blocks@.len(),
            n == indent,
            k == flat,
            w == text_width,
            at == lines0.len(),
            app.wf(),
            flat + count(v) <= inputs@.len(),
            indent + count(v) <= usize::MAX,
            next == flat + count(v.take(i as int)),
            lines_view(out@) == lines0 + all_lines(v.take(i as int), n, k, *app, inputs@, w),
            starts_view(starts@) == starts0 + all_starts(
                v.take(i as int),
                n,
                k,
                at,
                *app,
                inputs@,
                w,
            ),
        decreases blocks@.len() - i,
    {
        let ghost t = v.take(i + 1);
        assert(v[i as int] == blocks@[i as int]@);
        assert(t.drop_last() =~= v.take(i as int));
        assert(t.last() == blocks@[i as int]@);
        proof {
            lemma_count_take(v, i as int);
            lemma_count_mono(v, i + 1, v.len() as int);
            lemma_all_lines(lines0, t, n, k, *app, inputs@, w);
            lemma_all_starts(starts0, t, n, k, at, *app, inputs@, w);
        }
        assert(out@.len() == lines_view(out@).len());
        next = render_block(&blocks[i], indent, next, app, inputs, out, starts, text_width);
        i += 1;
    }
    assert(v.take(i as int) =~= v);
    next
}

/// The rows of the properties of the page.
pub open spec fn page_lines(v: Seq<(Seq<char>, Seq<char>)>, theme: Theme) -> Seq<Seq<SpanView>> {
    v.map_values(|p: (Seq<char>, Seq<char>)| property_spans(p.0, p.1, theme))
}

/// What is drawn above the blocks: the properties of the page, and an empty
/// row below them.
pub open spec fn top_lines(app: App) -> Seq<Seq<SpanView>> {
    let props = page_lines(pairs(app.page.properties@), app.theme);
    if app.page.properties@.len() > 0 && app.page.blocks@.len() > 0 {
        props.push(seq![span(""@, no_style())])
    } else {
        props
    }
}

/// The blocks that are drawn and the flat index of the first of them: those
/// of the page, or the one zoomed into.
pub open spec fn drawn_blocks(app: App) -> (Seq<NodeView>, int) {
    match zoom_root(app) {
        Some(p) => match (node_at(app.blocks(), p), index_of(app.blocks(), p)) {
            (Some(n), Some(i)) => (seq![n], i),
            _ => (app.blocks(), 0),
        },
        None => (app.blocks(), 0),
    }
}

/// The rows of the outline.
pub open spec fn outline_lines(app: App, inputs: Seq<BlockInput>, text_width: int) -> Seq<
    Seq<SpanView>,
> {
    let (v, flat) = drawn_blocks(app);
    top_lines(app) + all_lines(v, 0, flat, app, inputs, text_width)
}

/// Where the blocks of the outline start.
pub open spec fn outline_starts(app: App, inputs: Seq<BlockInput>, text_width: int) -> Seq<
    (int, int),
> {
    let (v, flat) = drawn_blocks(app);
    all_starts(v, 0, flat, top_lines(app).len() as int, app, inputs, text_width)
}

/// The row in which the selected block starts.
pub open spec fn selected_line(starts: Seq<(int, int)>, app: App) -> Option<int>
    decreases starts.len(),
{
    if starts.len() == 0 {
        None
    } else if selected_here(app, starts[0].1) {
        Some(starts[0].0)
    } else {
        selected_line(starts.skip(1), app)
    }
}

/// The outline as it is drawn: its rows, the row in which the selected block
/// starts, and for each block its first row and its flat index.
#[derive(Debug)]
pub struct DrawnOutline {
    pub lines: Vec<Line>,
    pub selected_line: Option<usize>,
    pub starts: Vec<(usize, usize)>,
}

fn find_selected(starts: &Vec<(usize, usize)>, app: &App) -> (r: Option<usize>)
    ensures
        match r {
            Some(l) => selected_line(starts_view(starts@), *app) == Some(l as int),
            None => selected_line(starts_view(starts@), *app) is None,
        },
{
    let ghost v = starts_view(starts@);
    let on = app.on_outline();
    let mut i: usize = 0;
    assert(v.skip(0) =~= v);
    while i < starts.len()
        invariant
            i <= starts@.len(),
            v == starts_view(starts@),
            on == (app.focus is Outline),
            selected_line(v.skip(i as int), *app) == selected_line(v, *app),
        decreases starts@.len() - i,
    {
        assert(v.skip(i as int)[0] == (starts@[i as int].0 as int, starts@[i as int].1 as int));
        assert(v.skip(i as int).skip(1) =~= v.skip(i + 1));
        if on && starts[i].1 == app.selected {
            return Some(starts[i].0);
        }
        i += 1;
    }
    None
}

/// Draws what is above the blocks.
fn render_top(app: &App) -> (lines: Vec<Line>)
    ensures
        lines_view(lines@) == top_lines(*app),
{
    let mut lines: Vec<Line> = Vec::new();
    let mut i: usize = 0;
    let ghost props = page_lines(pairs(app.page.properties@), app.theme);
    assert(lines_view(lines@) =~= props.take(0));
    while i < app.page.properties.len()
        invariant
            i <= app.page.properties@.len(),
            props == page_lines(pairs(app.page.properties@), app.theme),
            lines_view(lines@) == props.take(i as int),
        decreases app.page.properties@.len() - i,
    {
        let p = &app.page.properties[i];
        assert(pairs(app.page.properties@)[i as int] == (p.0@, p.1@));
        assert(props[i as int] == property_spans(p.0@, p.1@, app.theme));
        let line = Line { spans: make_property(p.0.as_str(), p.1.as_str(), &app.theme) };
        proof {
            lemma_lines_push(lines@, line);
        }
        lines.push(line);
        i += 1;
        assert(lines_view(lines@) =~= props.take(i as int));
    }
    assert(props.take(i as int) =~= props);
    if app.page.properties.len() > 0 && app.page.blocks.len() > 0 {
        let line = Line::raw("");
        proof {
            lemma_lines_push(lines@, line);
        }
        lines.push(line);
        assert(line@ =~= seq![span(""@, no_style())]);
    }
    assert(lines_view(lines@) =~= top_lines(*app));
    lines
}

/// Draws the outline into a pane of `text_width` columns; in one of no
/// columns nothing is wrapped. `inputs` holds the blocks of the page taken
/// apart, by their flat indices.
pub fn render_outline(app: &App, inputs: &Vec<BlockInput>, text_width: u16) -> (r: DrawnOutline)
    requires
        app.wf(),
        count(app.blocks()) <= inputs@.len(),
    ensures
        lines_view(r.lines@) == outline_lines(*app, inputs@, text_width as int),
        starts_view(r.starts@) == outline_starts(*app, inputs@, text_width as int),
        match r.selected_line {
            Some(l) => selected_line(
                outline_starts(*app, inputs@, text_width as int),
                *app,
            ) == Some(l as int),
            None => selected_line(
                outline_starts(*app, inputs@, text_width as int),
                *app,
            ) is None,
        },
{
    let mut lines: Vec<Line> = render_top(app);
    let mut starts: Vec<(usize, usize)> = Vec::new();
    assert(lines_view(lines@).len() == lines@.len());
    let ghost at = lines@.len() as int;
    let ghost (v, flat) = drawn_blocks(*app);
    let ghost below = all_starts(v, 0, flat, at, *app, inputs@, text_width as int);
    assert(starts_view(starts@) + below =~= below);
    match app.zoom_root_node() {
        Some((root, root_index)) => {
            proof {
                lemma_node_fits(app.blocks(), app.zoom_stack@.last()@);
                lemma_one_block(root@, 0, flat, at, *app, inputs@, text_width as int);
            }
            render_block(root, 0, root_index, app, inputs, &mut lines, &mut starts, text_width);
        },
        None => {
            render_blocks(
                &app.page.blocks,
                0,
                0,
                app,
                inputs,
                &mut lines,
                &mut starts,
                text_width,
            );
        },
    }
    let selected_line = find_selected(&starts, app);
    DrawnOutline { lines, selected_line, starts }
}

/// A block and all below it lie within the blocks of the page.
proof fn lemma_node_fits(v: Seq<NodeView>, path: Seq<usize>)
    ensures
        node_at(v, path) is Some == index_of(v, path) is Some,
        index_of(v, path) matches Some(i) ==> 0 <= i && i + preorder(
            node_at(v, path)->0,
        ).len() <= count(v),
    decreases path.len(),
{
    if path.len() > 0 && path[0] < v.len() {
        let i = path[0] as int;
        lemma_count_take(v, i);
        lemma_count_mono(v, i + 1, v.len() as int);
        if path.len() > 1 {
            lemma_node_fits(v[i].children, path.drop_first());
        }
    }
}

// ---------------------------------------------------------------------
// Laws
// ---------------------------------------------------------------------

/// The caret costs no column: as long as it is on a character, the row reads
/// as the text does, whatever the cursor looks like.
pub proof fn law_the_caret_costs_no_column(
    text: Seq<char>,
    col: int,
    left: Seq<InlineTok>,
    rest: Seq<InlineTok>,
    style: CursorStyle,
    theme: Theme,
)
    requires
        0 <= col < text.len(),
        toks_source(left) == behind_quote(text.take(col)),
        toks_source(rest) == behind_quote(text.skip(col + 1)),
    ensures
        row_text(cursor_spans(text, col, left, rest, style, theme)) == text,
{
    let a = text_raw(text.take(col), left, theme);
    let m = span(seq![text[col]], mark_style(style, theme));
    let b = text_raw(text.skip(col + 1), rest, theme);
    law_raw_text_is_the_source(text.take(col), left, theme);
    law_raw_text_is_the_source(text.skip(col + 1), rest, theme);
    lemma_row_text_one(m);
    assert(a.push(m) =~= a + seq![m]);
    lemma_row_text_add(a, seq![m]);
    lemma_row_text_add(a.push(m), b);
    assert(text.take(col) + seq![text[col]] + text.skip(col + 1) =~= text);
}

/// Blocks start in the order of their flat indices, each of them once, and
/// never above the one before.
pub proof fn law_starts_are_in_order(
    v: Seq<NodeView>,
    indent: nat,
    flat: int,
    at: int,
    app: App,
    inputs: Seq<BlockInput>,
    text_width: int,
)
    ensures
        in_order(
            all_starts(v, indent, flat, at, app, inputs, text_width),
            at,
            at + all_lines(v, indent, flat, app, inputs, text_width).len(),
            flat,
            flat + count(v),
        ),
    decreases v, 1nat,
{
    if v.len() > 0 {
        let u = v.drop_last();
        let k = flat + count(u);
        let mid = at + all_lines(u, indent, flat, app, inputs, text_width).len();
        law_starts_are_in_order(u, indent, flat, at, app, inputs, text_width);
        lemma_block_starts_in_order(v.last(), indent, k, mid, app, inputs, text_width);
    }
}

/// Starts from row `lo` up to row `hi`, for the flat indices from `first` to
/// before `end`: neither goes back, and no index comes twice.
pub open spec fn in_order(starts: Seq<(int, int)>, lo: int, hi: int, first: int, end: int) -> bool {
    &&& forall|i: int|
        #![trigger starts[i]]
        0 <= i < starts.len() ==> lo <= starts[i].0 <= hi && first <= starts[i].1 < end
    &&& forall|i: int, j: int|
        #![trigger starts[i], starts[j]]
        0 <= i < j < starts.len() ==> starts[i].0 <= starts[j].0 && starts[i].1 < starts[j].1
}

proof fn lemma_block_starts_in_order(
    n: NodeView,
    indent: nat,
    flat: int,
    at: int,
    app: App,
    inputs: Seq<BlockInput>,
    text_width: int,
)
    ensures
        in_order(
            block_starts(n, indent, flat, at, app, inputs, text_width),
            at,
            at + block_lines(n, indent, flat, app, inputs, text_width).len(),
            flat,
            flat + preorder(n).len(),
        ),
    decreases n, 0nat,
{
    if !folded_here(app, flat) {
        law_starts_are_in_order(
            n.children,
            indent + 1,
            flat + 1,
            at + own_lines(n, indent, flat, app, inputs, text_width).len(),
            app,
            inputs,
            text_width,
        );
    }
}

/// A block has a start among these.
pub open spec fn starts_at(starts: Seq<(int, int)>, flat: int) -> bool {
    exists|k: int| 0 <= k < starts.len() && (#[trigger] starts[k]).1 == flat
}

/// What is drawn and what can be walked to agree: a block is drawn if and
/// only if no folded block hides it.
pub proof fn law_hidden_blocks_are_not_drawn(
    v: Seq<NodeView>,
    indent: nat,
    flat: int,
    at: int,
    app: App,
    inputs: Seq<BlockInput>,
    text_width: int,
    i: int,
)
    requires
        flat <= i < flat + count(v),
    ensures
        starts_at(all_starts(v, indent, flat, at, app, inputs, text_width), i) == !hidden_all(
            v,
            flat,
            false,
            app.id_by_flat@,
            app.collapsed@,
        )[i - flat],
    decreases v, 1nat,
{
    if v.len() > 0 {
        let u = v.drop_last();
        let k = flat + count(u);
        let mid = at + all_lines(u, indent, flat, app, inputs, text_width).len();
        let a = all_starts(u, indent, flat, at, app, inputs, text_width);
        let b = block_starts(v.last(), indent, k, mid, app, inputs, text_width);
        law_starts_are_in_order(u, indent, flat, at, app, inputs, text_width);
        lemma_block_starts_in_order(v.last(), indent, k, mid, app, inputs, text_width);
        lemma_hidden_count(u, flat, false, app.id_by_flat@, app.collapsed@);
        lemma_starts_of_both(a, b, i);
        assert(all_starts(v, indent, flat, at, app, inputs, text_width) == a + b);
        let hu = hidden_all(u, flat, false, app.id_by_flat@, app.collapsed@);
        let hn = hidden_from(v.last(), k, false, app.id_by_flat@, app.collapsed@);
        assert(hidden_all(v, flat, false, app.id_by_flat@, app.collapsed@) == hu + hn);
        assert(count(v) == count(u) + preorder(v.last()).len());
        if i < k {
            law_hidden_blocks_are_not_drawn(u, indent, flat, at, app, inputs, text_width, i);
            assert((hu + hn)[i - flat] == hu[i - flat]);
        } else {
            lemma_hidden_count(v, flat, false, app.id_by_flat@, app.collapsed@);
            assert((hu + hn)[i - flat] == hn[i - k]);
            lemma_block_is_drawn(v.last(), indent, k, mid, app, inputs, text_width, i);
        }
    }
}

proof fn lemma_starts_of_both(a: Seq<(int, int)>, b: Seq<(int, int)>, i: int)
    ensures
        starts_at(a + b, i) == (starts_at(a, i) || starts_at(b, i)),
{
    if starts_at(a, i) {
        let k = choose|k: int| 0 <= k < a.len() && (#[trigger] a[k]).1 == i;
        assert((a + b)[k] == a[k]);
    }
    if starts_at(b, i) {
        let k = choose|k: int| 0 <= k < b.len() && (#[trigger] b[k]).1 == i;
        assert((a + b)[a.len() + k] == b[k]);
    }
    if starts_at(a + b, i) {
        let k = choose|k: int| 0 <= k < (a + b).len() && (#[trigger] (a + b)[k]).1 == i;
        if k < a.len() {
            assert(a[k] == (a + b)[k]);
        } else {
            assert(b[k - a.len()] == (a + b)[k]);
        }
    }
}

proof fn lemma_block_is_drawn(
    n: NodeView,
    indent: nat,
    flat: int,
    at: int,
    app: App,
    inputs: Seq<BlockInput>,
    text_width: int,
    i: int,
)
    requires
        flat <= i < flat + preorder(n).len(),
    ensures
        starts_at(block_starts(n, indent, flat, at, app, inputs, text_width), i)
            == !hidden_from(n, flat, false, app.id_by_flat@, app.collapsed@)[i - flat],
    decreases n, 0nat,
{
    let mine = seq![(at, flat)];
    let folded = folded_here(app, flat);
    let below = at + own_lines(n, indent, flat, app, inputs, text_width).len();
    let rest = if folded {
        Seq::empty()
    } else {
        all_starts(n.children, indent + 1, flat + 1, below, app, inputs, text_width)
    };
    assert(block_starts(n, indent, flat, at, app, inputs, text_width) =~= mine + rest);
    lemma_starts_of_both(mine, rest, i);
    lemma_hidden_count(n.children, flat + 1, folded, app.id_by_flat@, app.collapsed@);
    if i == flat {
        assert(mine[0].1 == i);
    } else if !folded {
        law_hidden_blocks_are_not_drawn(
            n.children,
            indent + 1,
            flat + 1,
            below,
            app,
            inputs,
            text_width,
            i,
        );
    }
}

/// A row begins with so many rails, and no more.
pub open spec fn railed(row: Seq<SpanView>, depth: int, theme: Theme) -> bool {
    &&& 0 <= depth < row.len()
    &&& forall|i: int| 0 <= i < depth ==> #[trigger] row[i] == span("│ "@, theme.dim)
    &&& row[depth].text != "│ "@
}

/// All of the rows begin with so many rails, and no more.
pub open spec fn all_railed(rows: Seq<Seq<SpanView>>, depth: int, theme: Theme) -> bool {
    forall|r: int| 0 <= r < rows.len() ==> railed(#[trigger] rows[r], depth, theme)
}

proof fn lemma_all_railed_add(
    a: Seq<Seq<SpanView>>,
    b: Seq<Seq<SpanView>>,
    depth: int,
    theme: Theme,
)
    requires
        all_railed(a, depth, theme),
        all_railed(b, depth, theme),
    ensures
        all_railed(a + b, depth, theme),
{
    let c = a + b;
    assert forall|r: int| 0 <= r < c.len() implies railed(#[trigger] c[r], depth, theme) by {
        if r < a.len() {
            assert(c[r] == a[r]);
        } else {
            assert(c[r] == b[r - a.len()]);
        }
    }
}

proof fn lemma_laid_out_railed(
    depth: nat,
    more: Seq<SpanView>,
    head: Seq<SpanView>,
    content: Seq<SpanView>,
    text_width: int,
    cursor: Option<Style>,
    theme: Theme,
)
    requires
        head.len() > 0,
        head[0].text != "│ "@,
        more.len() > 0 ==> more[0].text != "│ "@,
    ensures
        all_railed(
            laid_out(rails(depth, theme) + more, head, content, text_width, cursor),
            depth as int,
            theme,
        ),
{
    let guides = rails(depth, theme) + more;
    let rows = laid_out(guides, head, content, text_width, cursor);
    let pad = span(crate::text::repeated(' ', spans_columns(head) as nat), no_style());
    reveal_strlit("│ ");
    assert("│ "@[0] == '│');
    assert(pad.text != "│ "@) by {
        if pad.text.len() > 0 {
            assert(pad.text[0] == ' ');
        }
    }
    assert forall|r: int| 0 <= r < rows.len() implies railed(
        #[trigger] rows[r],
        depth as int,
        theme,
    ) by {
        let row = rows[r];
        assert forall|j: int| 0 <= j < depth implies #[trigger] row[j] == span(
            "│ "@,
            theme.dim,
        ) by {
            assert(row[j] == guides[j]);
        }
        if more.len() > 0 {
            assert(row[depth as int] == more[0]);
        } else {
            assert(row[depth as int] == head[0] || row[depth as int] == pad);
        }
    }
}

proof fn lemma_heads_are_no_rails(icons: IconSet, style: TuiIconStyle, fold: FoldMarker, theme: Theme)
    requires
        icons == icons_of(style),
    ensures
        fold_marker_span(icons, fold, theme).text != "│ "@,
        "    "@ != "│ "@,
        "  "@ != "│ "@,
        "↳ "@ != "│ "@,
{
    reveal_strlit("│ ");
    reveal_strlit("  ");
    reveal_strlit("    ");
    reveal_strlit("↳ ");
    reveal_strlit("▼ ");
    reveal_strlit("▶ ");
    reveal_strlit("\u{f078} ");
    reveal_strlit("\u{f054} ");
    assert("│ "@[0] == '│');
    assert("  "@[0] == ' ');
    assert("    "@[0] == ' ');
    assert("↳ "@[0] == '↳');
    assert("▼ "@[0] == '▼');
    assert("▶ "@[0] == '▶');
    assert("\u{f078} "@[0] == '\u{f078}');
    assert("\u{f054} "@[0] == '\u{f054}');
}

proof fn lemma_text_railed(
    rows: Seq<BlockRow>,
    alone: bool,
    indent: nat,
    bullet: Style,
    style: Option<CursorStyle>,
    auto: bool,
    fold: FoldMarker,
    theme: Theme,
    icons: IconSet,
    text_width: int,
    look: TuiIconStyle,
)
    requires
        icons == icons_of(look),
    ensures
        all_railed(
            text_lines(
                rows,
                alone,
                indent,
                bullet,
                style,
                auto,
                fold,
                theme,
                icons,
                text_width,
            ),
            indent as int,
            theme,
        ),
    decreases rows.len(),
{
    if rows.len() > 0 {
        let row = rows.last();
        let before = text_lines(
            rows.drop_last(),
            alone,
            indent,
            bullet,
            style,
            auto,
            fold,
            theme,
            icons,
            text_width,
        );
        lemma_text_railed(
            rows.drop_last(),
            alone,
            indent,
            bullet,
            style,
            auto,
            fold,
            theme,
            icons,
            text_width,
            look,
        );
        lemma_heads_are_no_rails(icons, look, fold, theme);
        let head = row_head(row.kind, fold, auto, bullet, theme, icons);
        let content = row_content(row, style, alone, theme, icons);
        let mark = row_mark(row, style, theme);
        assert(rails(indent, theme) + Seq::<SpanView>::empty() =~= rails(indent, theme));
        lemma_laid_out_railed(indent, Seq::empty(), head, content, text_width, mark, theme);
        lemma_all_railed_add(
            before,
            laid_out(rails(indent, theme), head, content, text_width, mark),
            indent as int,
            theme,
        );
    }
}

proof fn lemma_properties_railed(
    v: Seq<(Seq<char>, Seq<char>)>,
    indent: nat,
    auto: bool,
    theme: Theme,
    icons: IconSet,
    text_width: int,
    look: TuiIconStyle,
)
    requires
        icons == icons_of(look),
    ensures
        all_railed(
            property_lines(v, indent, auto, theme, icons, text_width),
            indent as int,
            theme,
        ),
    decreases v.len(),
{
    if v.len() > 0 {
        let key = v.last().0;
        let value = v.last().1;
        lemma_properties_railed(v.drop_last(), indent, auto, theme, icons, text_width, look);
        lemma_heads_are_no_rails(icons, look, FoldMarker::Leaf, theme);
        assert(rails(indent, theme) + Seq::<SpanView>::empty() =~= rails(indent, theme));
        lemma_laid_out_railed(
            indent,
            Seq::empty(),
            property_head(key, auto, icons),
            property_spans(key, value, theme),
            text_width,
            None,
            theme,
        );
        lemma_all_railed_add(
            property_lines(v.drop_last(), indent, auto, theme, icons, text_width),
            property_rows(indent, key, value, auto, theme, icons, text_width),
            indent as int,
            theme,
        );
    }
}

proof fn lemma_embed_railed(
    v: Seq<EmbedNode>,
    indent: nat,
    depth: nat,
    theme: Theme,
    icons: IconSet,
    text_width: int,
    look: TuiIconStyle,
)
    requires
        icons == icons_of(look),
    ensures
        all_railed(
            embed_rows(v, indent, depth, theme, icons, text_width),
            indent as int,
            theme,
        ),
    decreases v,
{
    if depth <= EMBED_MAX_DEPTH && v.len() > 0 {
        let last = v.last();
        let more = Seq::new(depth + 1, |i: int| span("  "@, no_style()));
        let content = block_pretty(last.text@, toks_pretty(last.body@, theme, icons), theme);
        let own = laid_out(
            embed_guides(indent, depth, theme),
            seq![span("↳ "@, theme.dim)],
            content,
            text_width,
            None,
        );
        lemma_embed_railed(v.drop_last(), indent, depth, theme, icons, text_width, look);
        lemma_embed_railed(last.children@, indent, depth + 1, theme, icons, text_width, look);
        lemma_heads_are_no_rails(icons, look, FoldMarker::Leaf, theme);
        lemma_laid_out_railed(
            indent,
            more,
            seq![span("↳ "@, theme.dim)],
            content,
            text_width,
            None,
            theme,
        );
        lemma_all_railed_add(
            embed_rows(v.drop_last(), indent, depth, theme, icons, text_width),
            own,
            indent as int,
            theme,
        );
        lemma_all_railed_add(
            embed_rows(v.drop_last(), indent, depth, theme, icons, text_width) + own,
            embed_rows(last.children@, indent, depth + 1, theme, icons, text_width),
            indent as int,
            theme,
        );
    }
}

/// Each row of a block, of its text, its properties and what it embeds,
/// begins with one rail for each block above it and no more.
pub proof fn law_rows_show_their_depth(
    n: NodeView,
    indent: nat,
    flat: int,
    app: App,
    inputs: Seq<BlockInput>,
    text_width: int,
    look: TuiIconStyle,
)
    requires
        app.icons == icons_of(look),
    ensures
        all_railed(
            own_lines(n, indent, flat, app, inputs, text_width),
            indent as int,
            app.theme,
        ),
{
    let input = inputs[flat];
    let auto = has_auto_run(n.properties);
    let alone = input.rows@.len() == 1;
    let bullet = bullet_here(app, flat);
    let style = style_here(app, flat, n.text);
    let fold = fold_of(n.children.len() > 0, folded_here(app, flat));
    let theme = app.theme;
    let icons = app.icons;
    lemma_text_railed(
        input.rows@,
        alone,
        indent,
        bullet,
        style,
        auto,
        fold,
        theme,
        icons,
        text_width,
        look,
    );
    lemma_properties_railed(n.properties, indent, auto, theme, icons, text_width, look);
    lemma_embed_railed(sole_children(input.toks@), indent, 1, theme, icons, text_width, look);
    let a = text_lines(
        input.rows@,
        alone,
        indent,
        bullet,
        style,
        auto,
        fold,
        theme,
        icons,
        text_width,
    );
    let b = property_lines(n.properties, indent, auto, theme, icons, text_width);
    lemma_all_railed_add(a, b, indent as int, theme);
    lemma_all_railed_add(
        a + b,
        embed_rows(sole_children(input.toks@), indent, 1, theme, icons, text_width),
        indent as int,
        theme,
    );
}

/// A row is one of the block whose start is number `k`: the last that starts
/// at or above it. It begins with as many rails as that block is deep.
pub open spec fn row_of_start(
    rows: Seq<Seq<SpanView>>,
    starts: Seq<(int, int)>,
    entries: Seq<Entry>,
    at: int,
    flat: int,
    theme: Theme,
    r: int,
    k: int,
) -> bool {
    &&& 0 <= k < starts.len()
    &&& starts[k].0 <= at + r
    &&& k + 1 < starts.len() ==> at + r < starts[k + 1].0
    &&& 0 <= starts[k].1 - flat < entries.len()
    &&& railed(rows[r], entries[starts[k].1 - flat].depth, theme)
}

/// The tree shows: every row that is drawn, of a block and of those below it,
/// begins with exactly as many rails as its block stands deep below the first
/// that are drawn. So a child is drawn one rail to the right of its parent.
pub proof fn law_the_tree_shows(
    v: Seq<NodeView>,
    indent: nat,
    flat: int,
    at: int,
    app: App,
    inputs: Seq<BlockInput>,
    text_width: int,
    look: TuiIconStyle,
    r: int,
)
    requires
        app.icons == icons_of(look),
        0 <= r < all_lines(v, indent, flat, app, inputs, text_width).len(),
    ensures
        exists|k: int| #[trigger]
            row_of_start(
                all_lines(v, indent, flat, app, inputs, text_width),
                all_starts(v, indent, flat, at, app, inputs, text_width),
                listed_all(v, indent as int),
                at,
                flat,
                app.theme,
                r,
                k,
            ),
    decreases v, 1nat,
{
    if v.len() > 0 {
        let u = v.drop_last();
        let rows_u = all_lines(u, indent, flat, app, inputs, text_width);
        let starts_u = all_starts(u, indent, flat, at, app, inputs, text_width);
        let list_u = listed_all(u, indent as int);
        let mid = at + rows_u.len();
        let kf = flat + count(u);
        let rows_n = block_lines(v.last(), indent, kf, app, inputs, text_width);
        let starts_n = block_starts(v.last(), indent, kf, mid, app, inputs, text_width);
        let list_n = listed(v.last(), indent as int);
        let rows = all_lines(v, indent, flat, app, inputs, text_width);
        let starts = all_starts(v, indent, flat, at, app, inputs, text_width);
        let list = listed_all(v, indent as int);
        law_listing_is_the_outline(u, indent as int);
        assert(rows == rows_u + rows_n);
        assert(starts == starts_u + starts_n);
        assert(list == list_u + list_n);
        if r < rows_u.len() {
            law_the_tree_shows(u, indent, flat, at, app, inputs, text_width, look, r);
            let k = choose|k: int| #[trigger]
                row_of_start(rows_u, starts_u, list_u, at, flat, app.theme, r, k);
            assert(starts[k] == starts_u[k]);
            assert(starts_n[0] == (mid, kf));
            assert(rows[r] == rows_u[r]);
            if k + 1 < starts_u.len() {
                assert(starts[k + 1] == starts_u[k + 1]);
            } else {
                assert(starts[k + 1] == starts_n[0]);
            }
            assert(list[starts[k].1 - flat] == list_u[starts[k].1 - flat]);
            assert(row_of_start(rows, starts, list, at, flat, app.theme, r, k));
        } else {
            let q = r - rows_u.len();
            lemma_block_tree_shows(
                v.last(),
                indent,
                kf,
                mid,
                app,
                inputs,
                text_width,
                look,
                q,
            );
            let j = choose|j: int| #[trigger]
                row_of_start(rows_n, starts_n, list_n, mid, kf, app.theme, q, j);
            let k = starts_u.len() + j;
            assert(starts[k] == starts_n[j]);
            assert(rows[r] == rows_n[q]);
            if j + 1 < starts_n.len() {
                assert(starts[k + 1] == starts_n[j + 1]);
            }
            assert(list[starts[k].1 - flat] == list_n[starts_n[j].1 - kf]);
            assert(row_of_start(rows, starts, list, at, flat, app.theme, r, k));
        }
    }
}

proof fn lemma_block_tree_shows(
    n: NodeView,
    indent: nat,
    flat: int,
    at: int,
    app: App,
    inputs: Seq<BlockInput>,
    text_width: int,
    look: TuiIconStyle,
    r: int,
)
    requires
        app.icons == icons_of(look),
        0 <= r < block_lines(n, indent, flat, app, inputs, text_width).len(),
    ensures
        exists|k: int| #[trigger]
            row_of_start(
                block_lines(n, indent, flat, app, inputs, text_width),
                block_starts(n, indent, flat, at, app, inputs, text_width),
                listed(n, indent as int),
                at,
                flat,
                app.theme,
                r,
                k,
            ),
    decreases n, 0nat,
{
    let own = own_lines(n, indent, flat, app, inputs, text_width);
    let rows = block_lines(n, indent, flat, app, inputs, text_width);
    let starts = block_starts(n, indent, flat, at, app, inputs, text_width);
    let list = listed(n, indent as int);
    let below = at + own.len();
    assert(starts[0] == (at, flat));
    assert(list[0].depth == indent);
    law_starts_are_in_order(n.children, indent + 1, flat + 1, below, app, inputs, text_width);
    let starts_c = all_starts(n.children, indent + 1, flat + 1, below, app, inputs, text_width);
    if r < own.len() {
        law_rows_show_their_depth(n, indent, flat, app, inputs, text_width, look);
        assert(rows[r] == own[r]);
        if starts.len() > 1 {
            assert(starts[1] == starts_c[0]);
        }
        assert(row_of_start(rows, starts, list, at, flat, app.theme, r, 0));
    } else {
        let q = r - own.len();
        let rows_c = all_lines(n.children, indent + 1, flat + 1, app, inputs, text_width);
        let list_c = listed_all(n.children, indent as int + 1);
        law_the_tree_shows(
            n.children,
            indent + 1,
            flat + 1,
            below,
            app,
            inputs,
            text_width,
            look,
            q,
        );
        let j = choose|j: int| #[trigger]
            row_of_start(rows_c, starts_c, list_c, below, flat + 1, app.theme, q, j);
        let k = j + 1;
        assert(starts[k] == starts_c[j]);
        assert(rows[r] == rows_c[q]);
        if j + 1 < starts_c.len() {
            assert(starts[k + 1] == starts_c[j + 1]);
        }
        assert(list[starts[k].1 - flat] == list_c[starts_c[j].1 - (flat + 1)]);
        assert(row_of_start(rows, starts, list, at, flat, app.theme, r, k));
    }
}

/// The tree shows on the page: every row below the properties of the page
/// begins with as many rails as its block stands deep below the page, or below
/// the block zoomed into.
pub proof fn law_the_page_shows_its_tree(
    app: App,
    inputs: Seq<BlockInput>,
    text_width: int,
    look: TuiIconStyle,
    r: int,
)
    requires
        app.icons == icons_of(look),
        top_lines(app).len() <= r < outline_lines(app, inputs, text_width).len(),
    ensures
        exists|k: int| #[trigger]
            row_of_start(
                outline_lines(app, inputs, text_width),
                outline_starts(app, inputs, text_width),
                listed_all(drawn_blocks(app).0, 0),
                0,
                drawn_blocks(app).1,
                app.theme,
                r,
                k,
            ),
{
    let (v, flat) = drawn_blocks(app);
    let top = top_lines(app);
    let q = r - top.len();
    let at = top.len() as int;
    let rows = all_lines(v, 0, flat, app, inputs, text_width);
    let starts = all_starts(v, 0, flat, at, app, inputs, text_width);
    let list = listed_all(v, 0);
    law_the_tree_shows(v, 0, flat, at, app, inputs, text_width, look, q);
    let k = choose|k: int| #[trigger]
        row_of_start(rows, starts, list, at, flat, app.theme, q, k);
    assert(outline_lines(app, inputs, text_width)[r] == rows[q]);
    assert(row_of_start(
        outline_lines(app, inputs, text_width),
        outline_starts(app, inputs, text_width),
        list,
        0,
        flat,
        app.theme,
        r,
        k,
    ));
}

/// What is drawn is the page, or the block zoomed into with all below it, from
/// its flat index on.
pub proof fn law_the_zoomed_block_is_drawn(app: App)
    ensures
        app.zoom_stack@.len() == 0 ==> drawn_blocks(app) == (app.blocks(), 0int),
        app.zoom_stack@.len() > 0 ==> (node_at(app.blocks(), app.zoom_stack@.last()@) matches Some(
            n,
        ) ==> drawn_blocks(app).0 == seq![n] && Some(drawn_blocks(app).1) == index_of(
            app.blocks(),
            app.zoom_stack@.last()@,
        )),
{
    if app.zoom_stack@.len() > 0 {
        lemma_node_fits(app.blocks(), app.zoom_stack@.last()@);
    }
}

/// The first row of a block has, behind its rails, the marker that says
/// whether there are blocks below it and whether they are folded away, the
/// mark of a block that runs by itself, and the bullet, which is lit if the
/// block is the selected one or in the selected range.
pub proof fn law_the_first_row_has_the_bullet(
    n: NodeView,
    indent: nat,
    flat: int,
    app: App,
    inputs: Seq<BlockInput>,
)
    requires
        inputs[flat].rows@.len() > 0,
        inputs[flat].rows@[0].kind == BlockRowKind::Bullet,
    ensures
        ({
            let rows = own_lines(n, indent, flat, app, inputs, 0);
            let d = indent as int;
            let auto = exists|i: int|
                0 <= i < n.properties.len() && #[trigger] n.properties[i].0 == "auto-run"@;
            let lit = app.focus is Outline && (flat == app.selected || (app.mode matches Mode::Visual {
                anchor,
            } && (anchor <= flat <= app.selected || app.selected <= flat <= anchor)));
            let bullet = span(
                "- "@,
                if lit {
                    app.theme.selected_bullet
                } else {
                    app.theme.bullet
                },
            );
            &&& rows.len() > 0
            &&& rows[0].len() > d + 1
            &&& rows[0][d].text == (if n.children.len() == 0 {
                "  "@
            } else if folded_here(app, flat) {
                app.icons.fold_closed@
            } else {
                app.icons.fold_open@
            })
            &&& if auto {
                rows[0].len() > d + 2 && rows[0][d + 1] == span("⚡"@, app.theme.hint)
                    && rows[0][d + 2] == bullet
            } else {
                rows[0][d + 1] == bullet
            }
        }),
{
    let input = inputs[flat];
    let auto = has_auto_run(n.properties);
    let alone = input.rows@.len() == 1;
    let style = style_here(app, flat, n.text);
    let fold = fold_of(n.children.len() > 0, folded_here(app, flat));
    let bullet = bullet_here(app, flat);
    lemma_unwrapped_rows(
        input.rows@,
        alone,
        indent,
        bullet,
        style,
        auto,
        fold,
        app.theme,
        app.icons,
    );
    let rows = own_lines(n, indent, flat, app, inputs, 0);
    let t = text_lines(
        input.rows@,
        alone,
        indent,
        bullet,
        style,
        auto,
        fold,
        app.theme,
        app.icons,
        0,
    );
    assert(rows[0] == t[0]);
    let row = input.rows@[0];
    let head = row_head(row.kind, fold, auto, bullet, app.theme, app.icons);
    let content = row_content(row, style, alone, app.theme, app.icons);
    let g = rails(indent, app.theme);
    assert(rows[0] == g + head + content);
    assert(rows[0][indent as int] == head[0]);
    assert(rows[0][indent as int + 1] == head[1]);
    if auto {
        assert(rows[0][indent as int + 2] == head[2]);
    }
}

/// Where nothing is wrapped, there is a row for each row of the text.
proof fn lemma_unwrapped_rows(
    rows: Seq<BlockRow>,
    alone: bool,
    indent: nat,
    bullet: Style,
    style: Option<CursorStyle>,
    auto: bool,
    fold: FoldMarker,
    theme: Theme,
    icons: IconSet,
)
    ensures
        ({
            let l = text_lines(
                rows,
                alone,
                indent,
                bullet,
                style,
                auto,
                fold,
                theme,
                icons,
                0,
            );
            &&& l.len() == rows.len()
            &&& forall|j: int|
                #![trigger l[j]]
                0 <= j < rows.len() ==> l[j] == rails(indent, theme) + row_head(
                    rows[j].kind,
                    fold,
                    auto,
                    bullet,
                    theme,
                    icons,
                ) + row_content(rows[j], style, alone, theme, icons)
        }),
    decreases rows.len(),
{
    if rows.len() > 0 {
        lemma_unwrapped_rows(
            rows.drop_last(),
            alone,
            indent,
            bullet,
            style,
            auto,
            fold,
            theme,
            icons,
        );
        let row = rows.last();
        let head = row_head(row.kind, fold, auto, bullet, theme, icons);
        crate::view::wrap::lemma_columns_of_spans(rails(indent, theme));
        crate::view::wrap::lemma_columns_of_spans(head);
    }
}

/// The properties of a block are drawn below its text, one row each where
/// nothing is wrapped, in their order, each with its key and its value.
pub proof fn law_properties_are_drawn_in_order(
    v: Seq<(Seq<char>, Seq<char>)>,
    indent: nat,
    auto: bool,
    theme: Theme,
    icons: IconSet,
    j: int,
)
    requires
        0 <= j < v.len(),
    ensures
        ({
            let l = property_lines(v, indent, auto, theme, icons, 0);
            &&& l.len() == v.len()
            &&& l[j].len() >= 2
            &&& l[j].last().text == v[j].1
            &&& l[j][l[j].len() - 2].text == v[j].0 + ":: "@
        }),
    decreases v.len(),
{
    let last = v.last();
    let head = property_head(last.0, auto, icons);
    crate::view::wrap::lemma_columns_of_spans(rails(indent, theme));
    crate::view::wrap::lemma_columns_of_spans(head);
    let u = property_lines(v.drop_last(), indent, auto, theme, icons, 0);
    let l = property_lines(v, indent, auto, theme, icons, 0);
    if v.len() > 1 {
        law_properties_are_drawn_in_order(v.drop_last(), indent, auto, theme, icons, 0);
    }
    assert(u.len() == v.len() - 1);
    if j < v.len() - 1 {
        law_properties_are_drawn_in_order(v.drop_last(), indent, auto, theme, icons, j);
        assert(l[j] == u[j]);
    } else {
        assert(l[j] == rails(indent, theme) + head + property_spans(last.0, last.1, theme));
    }
}

/// The cursor is shown in the block that is edited, or under the cursor in the
/// outline, and nowhere else; what is edited shows what is typed, and what was
/// made of a block shows where there is no cursor.
pub proof fn law_one_block_has_the_cursor(app: App, flat: int, text: Seq<char>)
    ensures
        style_here(app, flat, text) is Some <==> app.focus is Outline && ((app.mode matches Mode::Insert {
            block_path,
            ..
        } && path_at(app.blocks(), flat) == Some(block_path@)) || (app.mode is Normal && flat
            == app.selected)),
        app.mode matches Mode::Insert { buffer, .. } ==> (style_here(app, flat, text) is Some
            ==> shown_as(app, flat, text).text == buffer@.chars && shown_as(app, flat, text).cursor
            == Some((CursorStyle::Caret, buffer.cursor))),
        app.mode is Normal && style_here(app, flat, text) is Some ==> shown_as(app, flat, text).text
            == text && shown_as(app, flat, text).cursor == Some(
            (CursorStyle::Block, app.cursor_col),
        ),
        style_here(app, flat, text) is None ==> shown_as(app, flat, text).text == (if 0 <= flat
            < app.id_by_flat@.len() && app.transform_cache@.contains_key(app.id_by_flat@[flat]) {
            app.transform_cache@[app.id_by_flat@[flat]]@
        } else {
            text
        }),
{
}

/// The row of the selected block is where it starts, and is known wherever the
/// block is drawn.
pub proof fn law_the_selected_row_is_where_the_block_starts(starts: Seq<(int, int)>, app: App)
    ensures
        selected_line(starts, app) matches Some(r) ==> app.focus is Outline && starts.contains(
            (r, app.selected as int),
        ),
        selected_line(starts, app) is None <==> !(app.focus is Outline) || !starts_at(
            starts,
            app.selected as int,
        ),
    decreases starts.len(),
{
    if starts.len() > 0 {
        let s = starts.skip(1);
        law_the_selected_row_is_where_the_block_starts(s, app);
        if selected_here(app, starts[0].1) {
            assert(starts[0] == (starts[0].0, app.selected as int));
        } else {
            if selected_line(s, app) is Some {
                let r = selected_line(s, app)->0;
                let k = choose|k: int| 0 <= k < s.len() && s[k] == (r, app.selected as int);
                assert(starts[k + 1] == (r, app.selected as int));
            }
            if starts_at(starts, app.selected as int) {
                let k = choose|k: int|
                    0 <= k < starts.len() && (#[trigger] starts[k]).1 == app.selected as int;
                if k > 0 {
                    assert(s[k - 1] == starts[k]);
                }
            }
            if starts_at(s, app.selected as int) {
                let k = choose|k: int|
                    0 <= k < s.len() && (#[trigger] s[k]).1 == app.selected as int;
                assert(starts[k + 1] == s[k]);
            }
        }
    }
}

/// The properties of the page come first, in order, with an empty row below
/// them if blocks follow.
pub proof fn law_page_properties_come_first(app: App, i: int)
    requires
        0 <= i < app.page.properties@.len(),
    ensures
        top_lines(app).len() == app.page.properties@.len() + (if app.page.blocks@.len() > 0 {
            1int
        } else {
            0
        }),
        top_lines(app)[i][0].text == app.page.properties@[i].0@ + ":: "@,
        top_lines(app)[i][1].text == app.page.properties@[i].1@,
{
    assert(pairs(app.page.properties@)[i] == (
        app.page.properties@[i].0@,
        app.page.properties@[i].1@,
    ));
}

/// Code is drawn as it is written, and a block with the cursor in it as it is
/// typed.
pub proof fn law_code_is_drawn_as_written(
    row: BlockRow,
    style: Option<CursorStyle>,
    alone: bool,
    theme: Theme,
    icons: IconSet,
)
    ensures
        style is None && (row.kind == BlockRowKind::CodeFenceMarker || row.kind
            == BlockRowKind::CodeFenceBody) ==> row_text(
            row_content(row, style, alone, theme, icons),
        ) == row.text@,
        style is None && row.kind == BlockRowKind::CodeFenceBody ==> row_content(
            row,
            style,
            alone,
            theme,
            icons,
        )[0].style == theme.code,
        style is Some && row.cursor is Some ==> row_content(row, style, alone, theme, icons)
            == cursor_spans(
            row.text@,
            row.cursor->0.col as int,
            row.cursor->0.left@,
            row.cursor->0.rest@,
            style->0,
            theme,
        ),
{
    lemma_row_text_one(span(row.text@, theme.dim));
    lemma_row_text_one(span(row.text@, theme.code));
}

} // verus!

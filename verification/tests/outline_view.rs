//! How blocks are drawn: inline marks, wrapping, the cursor, properties and
//! embeds.

use outl_tui::edit_buffer::EditBuffer;
use outl_tui::icons::{IconSet, TuiIconStyle};
use outl_tui::outline::OutlineNode;
use outl_tui::state::{App, Mode, Screen};
use outl_tui::style::{Line, Span, Style};
use outl_tui::theme::{outl, Palette, Palettes, Theme};
use outl_tui::view::embed::{embed_only_handle, emit_embedded_children};
use outl_tui::view::inline::{
    highlight_inline, render_markdown_inline, render_pretty_block_text, EmbedNode, Embedded,
    InlineTok,
};
use outl_tui::view::outline::{
    emit_block_lines, render_block, render_outline, BlockInput, BlockRow, BlockRowKind,
    CursorStyle, RowCursor,
};
use outl_tui::view::row_chrome::{FoldMarker, AUTO_RUN_GLYPH, AUTO_RUN_PAD};
use outl_tui::view::wrap::{push_wrapped, wrap_spans};
use std::collections::HashSet;
use unicode_width::UnicodeWidthStr;

// ---------------------------------------------------------------------
// Fixtures
// ---------------------------------------------------------------------

/// A palette whose colours are all different.
fn palette() -> Palette {
    let n = std::cell::Cell::new(0u8);
    let next = || {
        n.set(n.get() + 1);
        format!("#{:02x}{:02x}{:02x}", 1, n.get(), 255 - n.get())
    };
    Palette {
        bg: next(),
        fg: next(),
        fg_dimmer: next(),
        selected_bullet_fg: next(),
        selected_bullet_bg: next(),
        cursor_block_fg: next(),
        cursor_block_bg: next(),
        cursor_caret_fg: next(),
        ref_link_fg: next(),
        tag_link_fg: next(),
        md_link_fg: next(),
        bold_fg: next(),
        italic_fg: next(),
        strike_fg: next(),
        highlight_bg: next(),
        highlight_fg: next(),
        code_fg: next(),
        todo_open_fg: next(),
        todo_done_fg: next(),
        todo_done_body_fg: next(),
        property_key_fg: next(),
        property_value_fg: next(),
        heading_fg: next(),
        dim_fg: next(),
        border: next(),
        hint: next(),
        status_normal_fg: next(),
        status_normal_bg: next(),
        status_insert_fg: next(),
        status_insert_bg: next(),
        status_visual_fg: next(),
        status_visual_bg: next(),
        status_message_fg: next(),
        help_title_fg: next(),
        bg_elev: next(),
        list_selected_fg: next(),
        list_selected_bg: next(),
    }
}

fn theme() -> Theme {
    outl(&Palettes {
        outl: palette(),
        outl_light: palette(),
        logseq_light: palette(),
        dracula: palette(),
        solarized_dark: palette(),
        nord: palette(),
        monokai: palette(),
    })
}

fn icons() -> IconSet {
    IconSet::new(TuiIconStyle::Emoji)
}

fn test_app() -> App {
    App::new(Screen::Journal(739_004), theme(), TuiIconStyle::Emoji, 0)
}

fn plain(s: &str) -> InlineTok {
    InlineTok::Plain(s.to_string())
}

/// The pieces of a text without marks.
fn pieces(s: &str) -> Vec<InlineTok> {
    if s.is_empty() {
        vec![]
    } else {
        vec![plain(s)]
    }
}

fn line_text(line: &Line) -> String {
    line.spans.iter().map(|s| s.text.as_str()).collect()
}

fn joined(spans: &[Span]) -> String {
    spans.iter().map(|s| s.text.as_str()).collect()
}

/// A block of one row, with the cursor at a column.
fn row(text: &str, cursor: Option<usize>) -> BlockRow {
    let chars: Vec<char> = text.chars().collect();
    BlockRow {
        kind: BlockRowKind::Bullet,
        text: text.to_string(),
        toks: pieces(text),
        body: pieces(text),
        cursor: cursor.map(|col| {
            let cut = |a: usize, b: usize| chars[a..b].iter().collect::<String>();
            let n = chars.len();
            if col < n {
                RowCursor { col, left: pieces(&cut(0, col)), rest: pieces(&cut(col + 1, n)) }
            } else {
                RowCursor { col, left: pieces(text), rest: vec![] }
            }
        }),
    }
}

/// A block at indent 0 with a leaf bullet and no auto-run.
fn render_block_lines(
    text: &str,
    cursor: Option<(CursorStyle, usize)>,
    width: u16,
) -> Vec<Line> {
    let t = theme();
    let mut out = Vec::new();
    emit_block_lines(
        0,
        t.bullet,
        &vec![row(text, cursor.map(|c| c.1))],
        cursor.map(|c| c.0),
        false,
        FoldMarker::Leaf,
        &t,
        &icons(),
        &mut out,
        width,
    );
    out
}

fn editing(text: &str, col: usize, width: u16) -> Vec<Line> {
    render_block_lines(text, Some((CursorStyle::Caret, col)), width)
}

fn normal(text: &str, col: usize, width: u16) -> Vec<Line> {
    render_block_lines(text, Some((CursorStyle::Block, col)), width)
}

fn cells_in(out: &[Line], style: Style) -> usize {
    out.iter().flat_map(|l| &l.spans).filter(|s| s.style == style).count()
}

/// 43 cells of prose that cannot fit in 16.
const LONG: &str = "the quick brown fox jumps over the lazy dog";

// ---------------------------------------------------------------------
// Inline marks
// ---------------------------------------------------------------------

fn brave() -> Vec<InlineTok> {
    vec![plain("a "), InlineTok::Bold { inner: "brave".to_string() }, plain(" soul")]
}

#[test]
fn pretty_render_strips_bold_markers() {
    let spans = render_markdown_inline(&brave(), &theme(), &icons());
    for s in &spans {
        assert!(!s.text.contains("**"), "found ** in {:?}", s.text);
    }
    assert!(spans.iter().any(|s| s.text == "brave"));
}

#[test]
fn pretty_render_strips_page_ref_brackets() {
    let v = vec![
        plain("see "),
        InlineTok::PageRef { name: "Avelino".to_string(), icon: None },
        plain(" today"),
    ];
    let spans = render_markdown_inline(&v, &theme(), &icons());
    for s in &spans {
        assert!(!s.text.contains("[["));
        assert!(!s.text.contains("]]"));
    }
    assert!(spans.iter().any(|s| s.text == "Avelino"));
}

#[test]
fn raw_render_keeps_delimiters() {
    let spans = highlight_inline("a **brave** soul", &brave(), &theme());
    assert_eq!(joined(&spans), "a **brave** soul");
}

#[test]
fn raw_render_multibyte_does_not_panic() {
    let a = "isso parece que está";
    assert_eq!(joined(&highlight_inline(a, &pieces(a), &theme())), a);
    let v = vec![
        plain("veja "),
        InlineTok::PageRef { name: "orçamento".to_string(), icon: None },
        plain(" e "),
        InlineTok::Tag { name: "ação".to_string(), icon: None },
    ];
    assert_eq!(
        joined(&highlight_inline("veja [[orçamento]] e #ação", &v, &theme())),
        "veja [[orçamento]] e #ação"
    );
    let _ = render_markdown_inline(&pieces(a), &theme(), &icons());
}

#[test]
fn pretty_render_emits_quote_bar_first() {
    let spans = render_pretty_block_text("> hello", &pieces("hello"), &theme(), &icons());
    assert!(spans.first().map(|s| s.text.starts_with('│')).unwrap_or(false));
}

#[test]
fn pretty_render_composes_quote_and_todo() {
    let spans =
        render_pretty_block_text("> TODO ship it", &pieces("ship it"), &theme(), &icons());
    assert!(spans.first().map(|s| s.text.starts_with('│')).unwrap_or(false));
    assert!(spans.iter().any(|s| s.text.contains('☐')));
}

#[test]
fn pretty_render_accepts_todo_before_quote() {
    let spans =
        render_pretty_block_text("TODO > ship it", &pieces("ship it"), &theme(), &icons());
    assert!(spans.first().map(|s| s.text.starts_with('│')).unwrap_or(false));
    assert!(spans.iter().any(|s| s.text.contains('☐')));
    assert!(!spans.iter().any(|s| s.text.contains('>')));
}

fn image(alt: &str, url: &str, is_image: bool) -> Vec<InlineTok> {
    vec![InlineTok::Image { alt: alt.to_string(), url: url.to_string(), is_image }]
}

#[test]
fn image_pretty_shows_glyph_raw_keeps_source() {
    let source = "![cover](assets/x.png)";
    let cover = image("cover", "assets/x.png", true);
    let pretty = render_pretty_block_text(source, &cover, &theme(), &icons());
    assert!(pretty.iter().any(|s| s.text.contains('🖼')));
    let doc = image("doc", "assets/x.pdf", false);
    let pretty_doc =
        render_pretty_block_text("![doc](assets/x.pdf)", &doc, &theme(), &icons());
    assert!(pretty_doc.iter().any(|s| s.text.contains('📄')));
    assert_eq!(joined(&highlight_inline(source, &cover, &theme())), source);
}

#[test]
fn pretty_render_skips_bar_for_plain_text() {
    let spans = render_pretty_block_text("plain body", &pieces("plain body"), &theme(), &icons());
    assert!(!spans.first().map(|s| s.text.starts_with('│')).unwrap_or(false));
}

#[test]
fn every_mark_is_read_without_its_delimiters() {
    let s = |x: &str| x.to_string();
    let v = vec![
        InlineTok::Italic { inner: s("i"), marker: '_' },
        InlineTok::Strike { inner: s("s") },
        InlineTok::Highlight { inner: s("h") },
        InlineTok::Code { inner: s("c") },
        InlineTok::Link { text: s("t"), url: s("u") },
        InlineTok::Tag { name: s("g"), icon: None },
        InlineTok::Emoji { shortcode: s("smile"), glyph: Some(s("😄")) },
    ];
    assert_eq!(joined(&render_markdown_inline(&v, &theme(), &icons())), "ishct#g😄");
    let raw = "_i_~~s~~==h==`c`[t](u)#g:smile:";
    assert_eq!(joined(&highlight_inline(raw, &v, &theme())), raw);
}

// ---------------------------------------------------------------------
// Wrapping
// ---------------------------------------------------------------------

fn wrapped(spans: &[Span], max: usize, cursor: Option<Style>) -> Vec<String> {
    wrap_spans(spans, max, cursor).iter().map(line_text).collect()
}

#[test]
fn wrap_breaks_on_the_last_space_within_width() {
    assert_eq!(
        wrapped(&[Span::raw("the quick brown fox")], 10, None),
        vec!["the quick", "brown fox"]
    );
}

#[test]
fn wrap_hard_breaks_a_word_longer_than_width() {
    assert_eq!(
        wrapped(&[Span::raw("supercalifragilistic")], 5, None),
        vec!["super", "calif", "ragil", "istic"]
    );
}

#[test]
fn wrap_preserves_per_span_style_across_a_break() {
    let bold = Style::default().bold();
    let rows = wrap_spans(&[Span::raw("aaaa "), Span::styled("BBBB", bold)], 4, None);
    assert_eq!(rows.len(), 2);
    assert_eq!(line_text(&rows[0]), "aaaa");
    assert_eq!(line_text(&rows[1]), "BBBB");
    assert_eq!(rows[1].spans[0].style, bold);
}

#[test]
fn wrap_keeps_a_trailing_space_the_cursor_is_on() {
    let caret = Style::default().underlined();
    let content = [Span::raw("the quick"), Span::styled(" ", caret), Span::raw("brown")];
    let rows = wrapped(&content, 12, Some(caret));
    assert_eq!(rows[0], "the quick ");
    assert_eq!(rows[1], "brown");
    let rows = wrapped(&content, 12, None);
    assert_eq!(rows[0], "the quick");
}

#[test]
fn wrap_carries_an_overflowing_cursor_space_to_the_next_row() {
    let caret = Style::default().underlined();
    let content = [Span::raw("aaaa"), Span::styled(" ", caret), Span::raw("bb")];
    assert_eq!(wrapped(&content, 4, Some(caret)), vec!["aaaa", " bb"]);
    assert_eq!(wrapped(&content, 4, None), vec!["aaaa", "bb"]);
}

#[test]
fn wrap_counts_wide_glyphs_as_two_cells() {
    assert_eq!(wrapped(&[Span::raw("你好世界")], 5, None), vec!["你好", "世界"]);
}

fn push(text: &str, width: u16) -> Vec<Line> {
    let mut out = Vec::new();
    push_wrapped(
        vec![],
        vec![Span::raw("- ")],
        vec![Span::raw(text)],
        width,
        None,
        &mut out,
    );
    out
}

#[test]
fn push_wrapped_keeps_short_content_on_one_line() {
    let out = push("short", 80);
    assert_eq!(out.len(), 1);
    assert_eq!(line_text(&out[0]), "- short");
}

#[test]
fn push_wrapped_reindents_continuations_under_the_text() {
    let out = push("alpha bravo charlie", 8);
    assert!(out.len() >= 2);
    assert_eq!(line_text(&out[0]), "- alpha");
    assert!(line_text(&out[1]).starts_with("  "));
    assert_eq!(line_text(&out[1]), "  bravo");
}

#[test]
fn push_wrapped_zero_width_never_wraps() {
    assert_eq!(push("a very long line that would otherwise wrap", 0).len(), 1);
}

// ---------------------------------------------------------------------
// The cursor
// ---------------------------------------------------------------------

#[test]
fn outline_normal_cursor_block_wraps_to_pane_width() {
    assert!(normal(LONG, 0, 16).len() > 1);
}

#[test]
fn outline_block_cursor_survives_the_wrap_break() {
    let out = normal(LONG, LONG.len() - 3, 16);
    assert!(out.len() > 1);
    assert_eq!(cells_in(&out, theme().cursor_block), 1);
}

#[test]
fn outline_short_cursor_block_stays_one_line() {
    assert_eq!(normal("short", 0, 80).len(), 1);
}

#[test]
fn tests_normal_cursor_block_wraps_to_pane_width() {
    assert!(normal(LONG, 0, 16).len() > 1);
}

#[test]
fn tests_editing_block_wraps_and_keeps_the_caret() {
    let out = editing(LONG, 0, 16);
    assert!(out.len() > 1);
    assert_eq!(cells_in(&out, theme().cursor_caret_on_char()), 1, "caret lost after wrap");
}

#[test]
fn tests_block_cursor_survives_the_wrap_break() {
    let out = normal(LONG, LONG.len() - 3, 16);
    assert!(out.len() > 1);
    assert_eq!(cells_in(&out, theme().cursor_block), 1);
}

#[test]
fn the_insert_caret_costs_no_column() {
    let text = "the quick brown fox";
    let bare = render_block_lines(text, None, 0);
    let expected = line_text(&bare[0]).width();
    for cursor_char in 0..text.chars().count() {
        let out = editing(text, cursor_char, 0);
        assert_eq!(out.len(), 1);
        assert_eq!(line_text(&out[0]).width(), expected, "caret at char {cursor_char}");
    }
}

#[test]
fn the_insert_caret_marks_the_char_it_sits_before() {
    let out = editing("abc", 1, 0);
    let t = theme();
    let marked: Vec<&Span> =
        out[0].spans.iter().filter(|s| s.style == t.cursor_caret_on_char()).collect();
    assert_eq!(marked.len(), 1, "caret must mark exactly one cell");
    assert_eq!(marked[0].text, "b");
}

#[test]
fn the_insert_caret_past_the_end_still_draws_a_glyph() {
    assert!(line_text(&editing("abc", 3, 0)[0]).ends_with('▏'));
}

#[test]
fn the_caret_survives_a_wrap_break_at_every_column() {
    let t = theme();
    for style in [CursorStyle::Caret, CursorStyle::Block] {
        for cursor_char in 0..LONG.chars().count() {
            let out = render_block_lines(LONG, Some((style, cursor_char)), 16);
            let cells = cells_in(&out, t.cursor_caret_on_char()) + cells_in(&out, t.cursor_block);
            assert_eq!(cells, 1, "cursor at char {cursor_char} is not on screen");
        }
    }
}

#[test]
fn tests_short_cursor_block_stays_one_line() {
    assert_eq!(normal("short", 0, 80).len(), 1);
}

fn leaf(text: &str) -> OutlineNode {
    OutlineNode { text: text.to_string(), children: vec![], properties: vec![] }
}

fn page_of_long() -> App {
    let mut app = test_app();
    app.page.blocks = vec![leaf(LONG)];
    app.selected = 0;
    app.cursor_col = 0;
    app.mode = Mode::Normal;
    app
}

#[test]
fn outline_selected_block_wraps_through_render_outline() {
    let app = page_of_long();
    let inputs = vec![BlockInput { rows: vec![row(LONG, Some(0))], toks: pieces(LONG) }];
    let drawn = render_outline(&app, &inputs, 20);
    assert_eq!(drawn.selected_line, Some(0));
    assert!(drawn.lines.len() > 1);
    assert!(line_text(&drawn.lines[0]).contains("- "));
    assert!(line_text(&drawn.lines[1]).starts_with("  "));
}

#[test]
fn tests_selected_block_wraps_through_render_outline() {
    let app = page_of_long();
    let inputs = vec![BlockInput { rows: vec![row(LONG, Some(0))], toks: pieces(LONG) }];
    let drawn = render_outline(&app, &inputs, 20);
    assert_eq!(drawn.selected_line, Some(0));
    assert!(drawn.lines.len() > 1);
    assert!(line_text(&drawn.lines[0]).contains("- "));
    let second = line_text(&drawn.lines[1]);
    let pad = second.len() - second.trim_start_matches(' ').len();
    assert_eq!(pad, 4, "continuation pad off the bullet column: {second:?}");
}

#[test]
fn a_block_being_edited_shows_the_text_so_far() {
    let mut app = page_of_long();
    app.mode =
        Mode::Insert { buffer: EditBuffer::from_text("draft"), block_path: vec![0] };
    let inputs = vec![BlockInput { rows: vec![row("draft", Some(5))], toks: pieces("draft") }];
    let drawn = render_outline(&app, &inputs, 40);
    assert_eq!(drawn.lines.len(), 1);
    assert!(line_text(&drawn.lines[0]).ends_with("draft▏"));
}

// ---------------------------------------------------------------------
// Properties, folds and embeds
// ---------------------------------------------------------------------

#[test]
fn a_property_row_starts_in_its_blocks_text_column() {
    let mut app = test_app();
    app.selected = 99;
    let scope = "Define the scope";
    let block = |key: &str, children: Vec<OutlineNode>| OutlineNode {
        text: scope.to_string(),
        properties: vec![(key.to_string(), "x".to_string())],
        children,
    };
    let child = block("priority", vec![]);
    let cases = [
        ("leaf", block("priority", vec![]), "priority:: "),
        ("parent ▼", block("priority", vec![child]), "priority:: "),
        ("auto-run ⚡", block("auto-run", vec![]), "▶ auto-run:: "),
    ];
    for (shape, node, token) in cases {
        let input = || BlockInput { rows: vec![row(scope, None)], toks: pieces(scope) };
        let inputs = vec![input(), input()];
        let mut out = Vec::new();
        render_block(&node, 1, 0, &app, &inputs, &mut out, &mut Vec::new(), 0);
        let column_of = |line: &Line, token: &str| {
            let text = line_text(line);
            let at =
                text.find(token).unwrap_or_else(|| panic!("{shape}: no {token:?} in {text:?}"));
            text[..at].width()
        };
        assert_eq!(column_of(&out[1], token), column_of(&out[0], scope), "{shape}");
    }
}

#[test]
fn the_auto_run_pad_matches_the_glyph() {
    assert_eq!(AUTO_RUN_PAD.width(), AUTO_RUN_GLYPH.width());
}

#[test]
fn folded_children_are_not_drawn() {
    let mut app = test_app();
    let mut a = leaf("a");
    a.children = vec![leaf("a1")];
    app.page.blocks = vec![a, leaf("b")];
    app.id_by_flat = vec![1, 2, 3];
    let inputs: Vec<BlockInput> = ["a", "a1", "b"]
        .iter()
        .map(|t| BlockInput { rows: vec![row(t, Some(0))], toks: pieces(t) })
        .collect();
    let open = render_outline(&app, &inputs, 0);
    assert_eq!(open.starts, vec![(0, 0), (1, 1), (2, 2)]);
    app.collapsed = HashSet::from([1]);
    let folded = render_outline(&app, &inputs, 0);
    assert_eq!(folded.lines.len(), 2);
    assert_eq!(folded.starts, vec![(0, 0), (1, 2)]);
    assert!(line_text(&folded.lines[0]).contains('▶'));
}

fn embed(handle: &str) -> InlineTok {
    InlineTok::Embed { handle: handle.to_string(), shown: None }
}

#[test]
fn embed_embed_only_handle_detects_bare_token() {
    assert_eq!(embed_only_handle(&[embed("blk-r6s4a1")]).as_deref(), Some("blk-r6s4a1"));
}

#[test]
fn embed_embed_only_handle_ignores_surrounding_whitespace() {
    assert_eq!(
        embed_only_handle(&[plain("  "), embed("blk-r6s4a1"), plain("  ")]).as_deref(),
        Some("blk-r6s4a1")
    );
}

#[test]
fn embed_embed_only_handle_rejects_mixed_text() {
    assert_eq!(
        embed_only_handle(&[plain("see "), embed("blk-r6s4a1"), plain(" context")]),
        None
    );
}

fn block_ref(handle: &str) -> InlineTok {
    InlineTok::BlockRef { handle: handle.to_string(), cited: None }
}

#[test]
fn embed_embed_only_handle_rejects_inline_ref() {
    assert_eq!(embed_only_handle(&[block_ref("blk-r6s4a1")]), None);
}

#[test]
fn embed_embed_only_handle_rejects_two_embeds_on_one_block() {
    assert_eq!(
        embed_only_handle(&[embed("blk-aaaaaa"), plain(" "), embed("blk-bbbbbb")]),
        None
    );
}

#[test]
fn outline_embed_only_handle_detects_bare_token() {
    assert_eq!(embed_only_handle(&[embed("blk-r6s4a1")]).as_deref(), Some("blk-r6s4a1"));
}

#[test]
fn outline_embed_only_handle_ignores_surrounding_whitespace() {
    assert_eq!(
        embed_only_handle(&[plain("  "), embed("blk-r6s4a1"), plain("  ")]).as_deref(),
        Some("blk-r6s4a1")
    );
}

#[test]
fn outline_embed_only_handle_rejects_mixed_text() {
    assert_eq!(
        embed_only_handle(&[plain("see "), embed("blk-r6s4a1"), plain(" context")]),
        None
    );
}

#[test]
fn outline_embed_only_handle_rejects_inline_ref() {
    assert_eq!(embed_only_handle(&[block_ref("blk-r6s4a1")]), None);
}

#[test]
fn outline_embed_only_handle_rejects_two_embeds_on_one_block() {
    assert_eq!(
        embed_only_handle(&[embed("blk-aaaaaa"), plain(" "), embed("blk-bbbbbb")]),
        None
    );
}

/// A chain of `depth` blocks below each other.
fn chain(depth: usize) -> Vec<EmbedNode> {
    if depth == 0 {
        vec![]
    } else {
        let text = format!("level {depth}");
        vec![EmbedNode { body: pieces(&text), text, children: chain(depth - 1) }]
    }
}

#[test]
fn embedded_children_stop_at_a_depth() {
    let mut out = Vec::new();
    emit_embedded_children(&chain(9), 0, 0, &theme(), &icons(), &mut out, 0);
    assert!(out.len() < 9);
    assert!(line_text(&out[0]).ends_with("level 9"));
    assert!(line_text(&out[1]).ends_with("level 8"));
}

#[test]
fn a_block_of_one_embed_shows_what_it_embeds() {
    let mut app = test_app();
    app.page.blocks = vec![leaf("first"), leaf("!((blk-r6s4a1))")];
    let shown = Embedded {
        icon: None,
        text: "TODO the source".to_string(),
        body: pieces("the source"),
        children: chain(1),
    };
    let tok =
        || vec![InlineTok::Embed { handle: "blk-r6s4a1".to_string(), shown: None }];
    let embedding = BlockRow {
        kind: BlockRowKind::Bullet,
        text: "!((blk-r6s4a1))".to_string(),
        toks: tok(),
        body: vec![InlineTok::Embed { handle: "blk-r6s4a1".to_string(), shown: Some(shown) }],
        cursor: None,
    };
    let shown = Embedded {
        icon: None,
        text: "TODO the source".to_string(),
        body: pieces("the source"),
        children: chain(1),
    };
    let inputs = vec![
        BlockInput { rows: vec![row("first", Some(0))], toks: pieces("first") },
        BlockInput {
            rows: vec![embedding],
            toks: vec![InlineTok::Embed {
                handle: "blk-r6s4a1".to_string(),
                shown: Some(shown),
            }],
        },
    ];
    let drawn = render_outline(&app, &inputs, 0);
    assert!(line_text(&drawn.lines[1]).contains("the source"));
    assert!(line_text(&drawn.lines[2]).ends_with("level 1"));
}

#[test]
fn wrapped_rows_start_flush() {
    for max in 1..12 {
        for text in wrapped(&[Span::raw("aa bbbb c ddddddd ee")], max, None) {
            assert!(!text.is_empty() && !text.starts_with(' '), "{max}: {text:?}");
        }
    }
}

//! Task markers, quotes, completion triggers and the operations on the text
//! of a block.

use outl_tui::actions::loading::ReadResult;
use outl_tui::actions::nav::word_under_cursor;
use outl_tui::autocomplete::{
    accept_into, candidates_for_emoji, candidates_for_mention, candidates_for_slash,
    detect_trigger, rank_candidates, slash_names, token_text, AutocompleteKind, Scored,
};
use outl_tui::edit_buffer::EditBuffer;
use outl_tui::icons::TuiIconStyle;
use outl_tui::outline::OutlineNode;
use outl_tui::state::{App, Focus, Mode, ParsedPage, Screen};
use outl_tui::theme::default_dark;
use outl_tui::todo::{cycle_todo_inline, cycle_todo_state, split_block_prefixes, TodoState};

fn fresh_app() -> App {
    App::new(Screen::Journal(739_000), default_dark(), TuiIconStyle::Emoji, 0)
}

fn leaf(text: &str) -> OutlineNode {
    OutlineNode { text: text.to_string(), children: vec![], properties: vec![] }
}

fn seed_single_block(app: &mut App, text: &str) {
    app.page.blocks.clear();
    app.page.blocks.push(leaf(text));
    app.flat_len = 1;
    app.selected = 0;
}

fn chars(s: &str) -> Vec<char> {
    s.chars().collect()
}

// ---------------------------------------------------------------------
// Triggers
// ---------------------------------------------------------------------

#[test]
fn detect_trigger_mention_at_buffer_start() {
    let v = chars("@av");
    assert_eq!(detect_trigger(&v, v.len()), Some((AutocompleteKind::Mention, "av".to_string())));
}

#[test]
fn detect_trigger_mention_after_whitespace() {
    let v = chars("hi @av");
    assert_eq!(detect_trigger(&v, v.len()), Some((AutocompleteKind::Mention, "av".to_string())));
}

#[test]
fn detect_trigger_mention_keeps_spaces_in_query() {
    let v = chars("@Thiago Av");
    assert_eq!(
        detect_trigger(&v, v.len()),
        Some((AutocompleteKind::Mention, "Thiago Av".to_string()))
    );
}

#[test]
fn detect_trigger_mention_ignores_mid_word_at() {
    let v = chars("a@b");
    let trigger = detect_trigger(&v, v.len());
    assert!(!matches!(trigger, Some((AutocompleteKind::Mention, _))));
}

#[test]
fn detect_trigger_mention_stops_at_brackets() {
    let v = chars("@x [[av");
    assert_eq!(detect_trigger(&v, v.len()), Some((AutocompleteKind::PageRef, "av".to_string())));
}

#[test]
fn detect_trigger_finds_page_ref() {
    let v = chars("see [[Av");
    let t = detect_trigger(&v, v.len()).unwrap();
    assert_eq!(t.0, AutocompleteKind::PageRef);
    assert_eq!(t.1, "Av");
}

#[test]
fn detect_trigger_finds_tag_at_word_start() {
    let v = chars("urgent #ta");
    let t = detect_trigger(&v, v.len()).unwrap();
    assert_eq!(t.0, AutocompleteKind::Tag);
    assert_eq!(t.1, "ta");
}

#[test]
fn detect_trigger_skips_hash_inside_word() {
    let v = chars("foo#ba");
    assert!(detect_trigger(&v, v.len()).is_none());
}

#[test]
fn detect_trigger_closes_on_space() {
    let v = chars("see [[Av today");
    assert!(detect_trigger(&v, v.len()).is_none());
}

#[test]
fn detect_trigger_closes_when_brackets_closed() {
    let v = chars("see [[Avelino]]a");
    assert!(detect_trigger(&v, v.len()).is_none());
}

#[test]
fn triggers_of_the_other_kinds() {
    let v = chars("see ((blk");
    assert_eq!(detect_trigger(&v, v.len()), Some((AutocompleteKind::BlockRef, "blk".to_string())));
    let v = chars("/dat");
    assert_eq!(
        detect_trigger(&v, v.len()),
        Some((AutocompleteKind::SlashCommand, "dat".to_string()))
    );
    let v = chars("hi :smi");
    assert_eq!(detect_trigger(&v, v.len()), Some((AutocompleteKind::Emoji, "smi".to_string())));
    assert_eq!(detect_trigger(&[], 0), None);
    let v = chars("#ação");
    assert_eq!(detect_trigger(&v, v.len()), Some((AutocompleteKind::Tag, "ação".to_string())));
    let v = chars("#a.b");
    assert_eq!(detect_trigger(&v, v.len()), None);
    let v = chars("14:00");
    assert_eq!(detect_trigger(&v, v.len()), None);
}

// ---------------------------------------------------------------------
// Candidates
// ---------------------------------------------------------------------

fn scored(v: &[(i32, &str)]) -> Vec<Scored> {
    v.iter().map(|(s, n)| Scored { score: *s, name: n.to_string() }).collect()
}

#[test]
fn candidates_are_ranked_by_score_and_then_by_name() {
    assert_eq!(
        rank_candidates(scored(&[(1, "b"), (5, "c"), (1, "a"), (7, "z")])),
        vec!["z", "c", "a", "b"]
    );
    let many: Vec<Scored> =
        (0..12).map(|i| Scored { score: i, name: format!("n{i}") }).collect();
    let names = rank_candidates(many);
    assert_eq!(names.len(), 8);
    assert_eq!(names[0], "n11");
}

#[test]
fn a_mention_is_always_offered_once_it_is_typed() {
    assert_eq!(candidates_for_mention(scored(&[]), "Ana"), vec!["Ana"]);
    assert!(candidates_for_mention(scored(&[]), "").is_empty());
    assert_eq!(candidates_for_mention(scored(&[(1, "Zoe"), (0, "Ana")]), ""), ["Ana", "Zoe"]);
    assert_eq!(candidates_for_mention(scored(&[(5, "Áine")]), "áine"), ["Áine"]);
    let many: Vec<(i32, &str)> =
        ["Ana A", "Ana B", "Ana C", "Ana D", "Ana E", "Ana F", "Ana G", "Ana H", "ana"]
            .iter()
            .map(|n| (if *n == "ana" { 1 } else { 9 }, *n))
            .collect();
    assert_eq!(candidates_for_mention(scored(&many), "Ana").len(), 8);
    assert_eq!(candidates_for_mention(scored(&many), "An").last().unwrap(), "An");
}

#[test]
fn slash_commands_of_plugins_come_behind_the_own_ones() {
    let own = vec!["run".to_string(), "pin".to_string()];
    let plugin = vec!["mark".to_string(), "flag".to_string(), "mark".to_string()];
    let all = slash_names(&own, &plugin);
    assert_eq!(all, ["run", "pin", "mark", "flag"]);
    let shown = candidates_for_slash(all.clone(), scored(&[]), "");
    assert_eq!(shown.first(), all.first());
}

#[test]
fn emoji_need_a_query() {
    assert!(candidates_for_emoji(vec!["smile".to_string()], "").is_empty());
    assert_eq!(candidates_for_emoji(vec!["smile".to_string()], "smi"), vec!["smile"]);
}

#[test]
fn accepting_a_candidate_keeps_the_rest_of_the_text() {
    assert_eq!(token_text(AutocompleteKind::PageRef, "Avelino"), "[[Avelino]]");
    let mut b = EditBuffer::from_text("see [[Av today");
    b.cursor = 8;
    accept_into(&mut b, AutocompleteKind::PageRef, "Av", "Avelino");
    assert_eq!(b.as_string(), "see [[Avelino]] today");
    assert_eq!(b.cursor, 15);
}

// ---------------------------------------------------------------------
// Tasks and quotes
// ---------------------------------------------------------------------

#[test]
fn cycle_todo_state_cycles_none_todo_doing_done_none() {
    assert_eq!(cycle_todo_state("buy milk"), "TODO buy milk");
    assert_eq!(cycle_todo_state("TODO buy milk"), "DOING buy milk");
    assert_eq!(cycle_todo_state("DOING buy milk"), "DONE buy milk");
    assert_eq!(cycle_todo_state("DONE buy milk"), "buy milk");
    assert_eq!(cycle_todo_state(""), "TODO ");
    assert_eq!(cycle_todo_state("TODOlist"), "TODO TODOlist");
    assert_eq!(cycle_todo_state("DONErama"), "TODO DONErama");
}

#[test]
fn cycle_todo_inline_adds_prefix_and_shifts_cursor() {
    let mut buf = EditBuffer::from_text("buy milk");
    let original_cursor = buf.cursor;
    cycle_todo_inline(&mut buf);
    assert_eq!(buf.as_string(), "TODO buy milk");
    assert_eq!(buf.cursor, original_cursor + 5);
}

#[test]
fn cycle_todo_inline_todo_to_doing_shifts_cursor_by_one() {
    let mut buf = EditBuffer::from_text("TODO buy milk");
    buf.cursor = 7;
    cycle_todo_inline(&mut buf);
    assert_eq!(buf.as_string(), "DOING buy milk");
    assert_eq!(buf.cursor, 8);
    assert_eq!(buf.chars[buf.cursor], 'y');
}

#[test]
fn cycle_todo_inline_doing_to_done_shifts_cursor_back() {
    let mut buf = EditBuffer::from_text("DOING buy milk");
    buf.cursor = 8;
    cycle_todo_inline(&mut buf);
    assert_eq!(buf.as_string(), "DONE buy milk");
    assert_eq!(buf.cursor, 7);
    assert_eq!(buf.chars[buf.cursor], 'y');
}

#[test]
fn cycle_todo_inline_done_strips_prefix_and_shifts_cursor() {
    let mut buf = EditBuffer::from_text("DONE buy milk");
    buf.cursor = 8;
    cycle_todo_inline(&mut buf);
    assert_eq!(buf.as_string(), "buy milk");
    assert_eq!(buf.cursor, 3);
}

#[test]
fn cycle_todo_inline_cursor_in_prefix_clamps_to_zero() {
    let mut buf = EditBuffer::from_text("DONE buy");
    buf.cursor = 2;
    cycle_todo_inline(&mut buf);
    assert_eq!(buf.as_string(), "buy");
    assert_eq!(buf.cursor, 0);
}

#[test]
fn cycle_todo_inline_keeps_a_caret_at_column_zero() {
    let mut buf = EditBuffer::from_text("TODO buy milk");
    buf.cursor = 0;
    cycle_todo_inline(&mut buf);
    assert_eq!(buf.as_string(), "DOING buy milk");
    assert_eq!(buf.cursor, 0);
}

#[test]
fn cycle_todo_inline_keeps_a_caret_inside_the_marker_at_its_column() {
    let mut buf = EditBuffer::from_text("TODO buy milk");
    buf.cursor = 3;
    cycle_todo_inline(&mut buf);
    assert_eq!(buf.as_string(), "DOING buy milk");
    assert_eq!(buf.cursor, 3);
}

#[test]
fn cycle_todo_inline_handles_short_strings() {
    let mut buf = EditBuffer::from_text("TODOlist");
    let cur = buf.cursor;
    cycle_todo_inline(&mut buf);
    assert_eq!(buf.as_string(), "TODO TODOlist");
    assert_eq!(buf.cursor, cur + 5);
}

#[test]
fn cycle_todo_inline_follows_the_caret_through_a_legacy_quote_shape() {
    let mut buf = EditBuffer::from_text("> DOING foo");
    buf.cursor = 8;
    cycle_todo_inline(&mut buf);
    assert_eq!(buf.as_string(), "DONE > foo");
    assert_eq!(buf.chars[buf.cursor], 'f');
}

#[test]
fn cycle_todo_inline_four_calls_returns_to_original() {
    let mut buf = EditBuffer::from_text("milk");
    let original = buf.as_string();
    let original_cursor = buf.cursor;
    cycle_todo_inline(&mut buf);
    cycle_todo_inline(&mut buf);
    cycle_todo_inline(&mut buf);
    cycle_todo_inline(&mut buf);
    assert_eq!(buf.as_string(), original);
    assert_eq!(buf.cursor, original_cursor);
}

#[test]
fn split_block_prefixes_recognises_both_orders() {
    let todo = Some(TodoState::Todo);
    let doing = Some(TodoState::Doing);
    let done = Some(TodoState::Done);
    let foo = || "foo".to_string();
    assert_eq!(split_block_prefixes("> TODO foo"), (todo, true, foo()));
    assert_eq!(split_block_prefixes("TODO > foo"), (todo, true, foo()));
    assert_eq!(split_block_prefixes("DOING > foo"), (doing, true, foo()));
    assert_eq!(split_block_prefixes("> DOING foo"), (doing, true, foo()));
    assert_eq!(split_block_prefixes("DONE > foo"), (done, true, foo()));
    assert_eq!(split_block_prefixes("> DONE foo"), (done, true, foo()));
    assert_eq!(split_block_prefixes("> foo"), (None, true, foo()));
    assert_eq!(split_block_prefixes("TODO foo"), (todo, false, foo()));
    assert_eq!(split_block_prefixes("DOING foo"), (doing, false, foo()));
    assert_eq!(split_block_prefixes("> [ ] foo"), (todo, true, foo()));
    assert_eq!(split_block_prefixes("[x] foo"), (done, false, foo()));
    assert_eq!(split_block_prefixes("foo"), (None, false, foo()));
    assert_eq!(split_block_prefixes("> > foo"), (None, true, "> foo".to_string()));
}

// ---------------------------------------------------------------------
// Words and characters
// ---------------------------------------------------------------------

#[test]
fn returns_word_under_cursor() {
    assert_eq!(word_under_cursor("hello world", 2), Some("hello".to_string()));
    assert_eq!(word_under_cursor("hello world", 6), Some("world".to_string()));
}

#[test]
fn returns_none_on_whitespace_or_empty() {
    assert_eq!(word_under_cursor("hello world", 5), None);
    assert_eq!(word_under_cursor("", 0), None);
    assert_eq!(word_under_cursor("   ", 1), None);
}

#[test]
fn clamps_past_end() {
    assert_eq!(word_under_cursor("hello", 99), Some("hello".to_string()));
}

#[test]
fn searching_needs_a_word_under_the_cursor() {
    let mut app = fresh_app();
    seed_single_block(&mut app, "hello world");
    app.cursor_col = 7;
    assert_eq!(app.search_word_under_cursor(), Some("world".to_string()));
    assert_eq!(app.status, "");
    app.cursor_col = 5;
    assert_eq!(app.search_word_under_cursor(), None);
    assert_eq!(app.status, "no word under cursor");
}

#[test]
fn delete_char_under_cursor_removes_and_clamps() {
    let mut app = fresh_app();
    seed_single_block(&mut app, "abcd");
    app.cursor_col = 3;
    app.delete_char_under_cursor();
    assert_eq!(app.current_block_text(), "abc");
    assert_eq!(app.cursor_col, 2);
}

#[test]
fn delete_char_before_cursor_at_zero_is_noop() {
    let mut app = fresh_app();
    seed_single_block(&mut app, "abc");
    app.cursor_col = 0;
    app.delete_char_before_cursor();
    assert_eq!(app.current_block_text(), "abc");
    assert_eq!(app.cursor_col, 0);
}

#[test]
fn delete_to_end_of_block_truncates() {
    let mut app = fresh_app();
    seed_single_block(&mut app, "hello world");
    app.cursor_col = 5;
    app.delete_to_end_of_block();
    assert_eq!(app.current_block_text(), "hello");
    assert_eq!(app.cursor_col, 5);
}

#[test]
fn substitute_block_clears_and_resets_cursor() {
    let mut app = fresh_app();
    seed_single_block(&mut app, "old text");
    app.cursor_col = 3;
    app.substitute_block();
    assert_eq!(app.current_block_text(), "");
    assert_eq!(app.cursor_col, 0);
}

#[test]
fn replace_char_under_cursor_swaps_char() {
    let mut app = fresh_app();
    seed_single_block(&mut app, "hello");
    app.cursor_col = 1;
    app.replace_char_under_cursor('a');
    assert_eq!(app.current_block_text(), "hallo");
    assert_eq!(app.cursor_col, 1);
}

#[test]
fn replace_char_on_empty_block_is_noop() {
    let mut app = fresh_app();
    seed_single_block(&mut app, "");
    app.cursor_col = 0;
    app.replace_char_under_cursor('z');
    assert_eq!(app.current_block_text(), "");
}

#[test]
fn the_last_replacement_counts() {
    let mut app = fresh_app();
    seed_single_block(&mut app, "hello");
    app.cursor_col = 1;
    app.replace_char_under_cursor('x');
    app.replace_char_under_cursor('a');
    assert_eq!(app.current_block_text(), "hallo");
}

#[test]
fn toggle_case_under_cursor_swaps_and_advances() {
    let mut app = fresh_app();
    seed_single_block(&mut app, "hello");
    app.cursor_col = 0;
    app.toggle_case_under_cursor();
    assert_eq!(app.current_block_text(), "Hello");
    assert_eq!(app.cursor_col, 1);
    app.toggle_case_under_cursor();
    assert_eq!(app.current_block_text(), "HEllo");
    assert_eq!(app.cursor_col, 2);
}

#[test]
fn case_is_toggled_beyond_ascii_too() {
    let mut app = fresh_app();
    seed_single_block(&mut app, "çÁ");
    app.cursor_col = 0;
    app.toggle_case_under_cursor();
    app.toggle_case_under_cursor();
    assert_eq!(app.current_block_text(), "Çá");
}

#[test]
fn cursor_word_end_lands_on_last_char_of_word() {
    let mut app = fresh_app();
    seed_single_block(&mut app, "hello world today");
    app.cursor_col = 0;
    app.cursor_word_end();
    assert_eq!(app.cursor_col, 4);
    app.cursor_word_end();
    assert_eq!(app.cursor_col, 10);
    app.cursor_word_end();
    assert_eq!(app.cursor_col, 16);
}

#[test]
fn words_are_walked_both_ways() {
    let mut app = fresh_app();
    seed_single_block(&mut app, "one  two");
    app.cursor_word_right();
    assert_eq!(app.cursor_col, 5);
    app.cursor_word_left();
    assert_eq!(app.cursor_col, 0);
    app.cursor_to_end();
    assert_eq!(app.cursor_col, 8);
    app.cursor_to_home();
    app.move_cursor_col(-3);
    assert_eq!(app.cursor_col, 0);
    app.move_cursor_col(99);
    assert_eq!(app.cursor_col, 8);
}

#[test]
fn find_char_forward_lands_on_match() {
    let mut app = fresh_app();
    seed_single_block(&mut app, "find a char");
    app.cursor_col = 0;
    app.find_char_forward('a');
    assert_eq!(app.cursor_col, 5);
}

#[test]
fn find_char_forward_skips_cursor_position() {
    let mut app = fresh_app();
    seed_single_block(&mut app, "axbxcx");
    app.cursor_col = 1;
    app.find_char_forward('x');
    assert_eq!(app.cursor_col, 3);
    app.find_char_forward('x');
    assert_eq!(app.cursor_col, 5);
}

#[test]
fn find_char_backward_lands_on_match() {
    let mut app = fresh_app();
    seed_single_block(&mut app, "find a char");
    app.cursor_col = 10;
    app.find_char_backward('a');
    assert_eq!(app.cursor_col, 9);
    app.find_char_backward('a');
    assert_eq!(app.cursor_col, 5);
}

// ---------------------------------------------------------------------
// Ranges and zoom
// ---------------------------------------------------------------------

fn app_with_range(anchor: usize, selected: usize) -> App {
    let mut app = fresh_app();
    app.page.blocks = vec![leaf("a"), leaf("b"), leaf("c"), leaf("d")];
    app.flat_len = 4;
    app.selected = selected;
    app.mode = Mode::Visual { anchor };
    app
}

fn texts(app: &App) -> Vec<String> {
    app.page.blocks.iter().map(|b| b.text.clone()).collect()
}

#[test]
fn move_up_slides_the_whole_range_past_the_block_above() {
    let mut app = app_with_range(1, 2);
    app.move_up_visual_range();
    assert_eq!(texts(&app), ["b", "c", "a", "d"]);
    assert_eq!(app.visual_range(), Some((0, 1)));
}

#[test]
fn move_down_slides_the_whole_range_past_the_block_below() {
    let mut app = app_with_range(1, 2);
    app.move_down_visual_range();
    assert_eq!(texts(&app), ["a", "d", "b", "c"]);
    assert_eq!(app.visual_range(), Some((2, 3)));
}

#[test]
fn move_up_is_a_no_op_when_the_range_is_already_at_the_top() {
    let mut app = app_with_range(0, 1);
    app.move_up_visual_range();
    assert_eq!(texts(&app), ["a", "b", "c", "d"]);
    assert_eq!(app.visual_range(), Some((0, 1)));
    assert!(app.undo.is_empty());
}

#[test]
fn move_down_is_a_no_op_when_the_range_is_already_at_the_bottom() {
    let mut app = app_with_range(2, 3);
    app.move_down_visual_range();
    assert_eq!(texts(&app), ["a", "b", "c", "d"]);
    assert_eq!(app.visual_range(), Some((2, 3)));
    assert!(app.undo.is_empty());
}

#[test]
fn a_range_is_deleted_as_a_whole_and_remembered() {
    let mut app = app_with_range(1, 2);
    app.delete_visual_range();
    assert_eq!(texts(&app), ["a", "d"]);
    assert_eq!(app.undo.len(), 1);
    assert!(matches!(app.mode, Mode::Normal));
}

#[test]
fn a_range_is_indented_in_place() {
    let mut app = app_with_range(1, 2);
    app.indent_visual_range();
    assert_eq!(texts(&app), ["a", "d"]);
    let below: Vec<&str> =
        app.page.blocks[0].children.iter().map(|b| b.text.as_str()).collect();
    assert_eq!(below, ["b", "c"]);
    app.mode = Mode::Visual { anchor: 1 };
    app.selected = 2;
    app.outdent_visual_range();
    let all: usize = app.page.blocks.iter().map(|b| 1 + b.children.len()).sum();
    assert_eq!(all, 4);
}

/// `a` with `a1` and `a2` below it, and `b` with `b1`.
fn seed_nested(app: &mut App) {
    let mut a = leaf("a");
    a.children = vec![leaf("a1"), leaf("a2")];
    let mut b = leaf("b");
    b.children = vec![leaf("b1")];
    app.page.blocks = vec![a, b];
    app.flat_len = 5;
    app.selected = 0;
}

#[test]
fn zoom_in_pushes_path_and_moves_selection_to_root() {
    let mut app = fresh_app();
    seed_nested(&mut app);
    app.selected = 3;
    app.zoom_in_on_selected();
    assert_eq!(app.zoom_stack, vec![vec![1]]);
    assert_eq!(app.selected, 3);
    assert_eq!(app.zoom_root_window(), (3, 5));
}

#[test]
fn zoom_in_on_leaf_is_allowed() {
    let mut app = fresh_app();
    seed_nested(&mut app);
    app.selected = 1;
    app.zoom_in_on_selected();
    assert_eq!(app.zoom_stack, vec![vec![0, 0]]);
    assert_eq!(app.zoom_root_window(), (1, 2));
}

#[test]
fn zoom_out_pops_back_to_whole_page() {
    let mut app = fresh_app();
    seed_nested(&mut app);
    app.selected = 0;
    app.zoom_in_on_selected();
    assert!(!app.zoom_stack.is_empty());
    app.zoom_out();
    assert!(app.zoom_stack.is_empty());
    assert_eq!(app.zoom_root_window(), (0, 5));
}

#[test]
fn zoom_out_at_page_root_is_noop() {
    let mut app = fresh_app();
    seed_nested(&mut app);
    app.zoom_out();
    assert!(app.zoom_stack.is_empty());
}

#[test]
fn navigation_is_confined_to_the_zoomed_subtree() {
    let mut app = fresh_app();
    seed_nested(&mut app);
    app.selected = 0;
    app.zoom_in_on_selected();
    app.move_selection(1);
    assert_eq!(app.selected, 1);
    app.move_selection(1);
    assert_eq!(app.selected, 2);
    app.move_selection(1);
    assert_eq!(app.selected, 2);
    app.move_selection(-5);
    assert_eq!(app.selected, 0);
}

#[test]
fn zoom_root_node_returns_focused_subtree() {
    let mut app = fresh_app();
    seed_nested(&mut app);
    app.selected = 0;
    app.zoom_in_on_selected();
    let (node, index) = app.zoom_root_node().expect("zoomed");
    assert_eq!(node.text, "a");
    assert_eq!(index, 0);
}

#[test]
fn breadcrumb_walks_ancestors_down_to_root() {
    let mut app = fresh_app();
    seed_nested(&mut app);
    app.selected = 2;
    app.zoom_in_on_selected();
    assert_eq!(app.zoom_breadcrumb(), vec!["a".to_string(), "a2".to_string()]);
}

#[test]
fn zoom_resets_on_view_change() {
    let mut app = fresh_app();
    seed_nested(&mut app);
    app.selected = 0;
    app.zoom_in_on_selected();
    assert!(!app.zoom_stack.is_empty());
    app.go_today(739_001);
    app.load_current(
        ReadResult::Page(ParsedPage::empty()),
        "journals/2024-04-30.md",
        &vec![],
    );
    assert!(app.zoom_stack.is_empty());
}

#[test]
fn zoom_in_twice_on_same_block_does_not_double_push() {
    let mut app = fresh_app();
    seed_nested(&mut app);
    app.selected = 0;
    app.zoom_in_on_selected();
    app.zoom_in_on_selected();
    assert_eq!(app.zoom_stack.len(), 1);
}

#[test]
fn stale_zoom_path_falls_back_to_whole_page_window() {
    let mut app = fresh_app();
    seed_nested(&mut app);
    app.zoom_stack.push(vec![9]);
    assert_eq!(app.zoom_root_window(), (0, app.flat_len));
    assert!(app.zoom_root_node().is_none());
}

#[test]
fn moves_pass_over_folded_blocks() {
    let mut app = fresh_app();
    seed_nested(&mut app);
    app.hidden_by_collapse = vec![false, true, true, false, false];
    app.move_selection(1);
    assert_eq!(app.selected, 3);
    app.move_selection(-1);
    assert_eq!(app.selected, 0);
    assert!(matches!(app.focus, Focus::Outline));
}

#[test]
fn triggers_are_not_looked_for_far_back() {
    for opener in ["[[", "((", "#", "/", ":", "@"] {
        let near: Vec<char> = format!("{opener}{}", "a".repeat(63)).chars().collect();
        let (_, query) = detect_trigger(&near, near.len()).unwrap();
        assert_eq!(query, "a".repeat(63));
        let far: Vec<char> = format!("{opener}{}", "a".repeat(64)).chars().collect();
        assert_eq!(detect_trigger(&far, far.len()), None);
    }
    let v: Vec<char> = format!("[[{}", "a".repeat(70)).chars().collect();
    assert_eq!(detect_trigger(&v, 72), None);
}

#[test]
fn the_end_of_a_word_is_not_behind_the_cursor() {
    let mut app = fresh_app();
    seed_single_block(&mut app, "one two");
    for (from, to) in [(0, 2), (2, 6), (6, 6), (7, 7), (9, 9)] {
        app.cursor_col = from;
        app.cursor_word_end();
        assert_eq!(app.cursor_col, to, "from {from}");
    }
}

#[test]
fn a_range_slides_up_and_returns() {
    for (lo, hi) in [(1, 1), (1, 2), (1, 3), (2, 3), (3, 3)] {
        let mut app = app_with_range(lo, hi);
        let before = texts(&app);
        let mut slid = before.clone();
        let above = slid.remove(lo - 1);
        slid.insert(hi, above);
        app.move_up_visual_range();
        assert_eq!(texts(&app), slid);
        assert_eq!(app.visual_range(), Some((lo - 1, hi - 1)));
        app.move_down_visual_range();
        assert_eq!(texts(&app), before);
        assert_eq!(app.visual_range(), Some((lo, hi)));
    }
}

#[test]
fn moves_stay_on_the_page() {
    let mut app = fresh_app();
    seed_nested(&mut app);
    let n = app.flat_len;
    app.move_selection(100);
    assert_eq!(app.selected, n - 1);
    app.move_selection(-100);
    assert_eq!(app.selected, 0);
}

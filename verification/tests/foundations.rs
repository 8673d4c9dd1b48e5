//! Texts, paths, dates, edits and the tree of blocks.

use outl_tui::actions::text_ops::swap_case;
use outl_tui::dates::{
    civil_of, clock_text, days_in_month, format_date, parse_date, weekday_of, Civil, Moment,
    ISO_PATTERN,
};
use outl_tui::edit_buffer::EditBuffer;
use outl_tui::outline::{
    copy_nodes, delete_at_path, flat_count, indent_at_path, index_for_path, move_down_at_path,
    move_up_at_path, node_at_path, outdent_at_path, path_for_index, OutlineNode,
};
use outl_tui::paths::{file_stem, join_path, last_part, parent_dir_name};
use outl_tui::style::{Span, Style};
use outl_tui::text::{
    comes_before, contains, eq_ignore_ascii_case, join_first, numeral, pad_right, repeat,
    split_lines, split_once, split_words, starts_with, trim,
};
use outl_tui::view::wrap::{flatten, rebuild_spans, spans_width, wrap_spans};

// ---------------------------------------------------------------------
// Texts
// ---------------------------------------------------------------------

#[test]
fn texts_are_taken_apart_as_std_does() {
    for t in ["", "  a b  ", "\u{3000}x\n", "abc", "\t"] {
        assert_eq!(trim(t), t.trim());
        assert_eq!(split_words(t), t.split_whitespace().collect::<Vec<_>>());
    }
    for t in ["", "a", "a\n", "a\nb", "a\r\nb\n\nc", "\n"] {
        assert_eq!(split_lines(t), t.lines().collect::<Vec<_>>(), "{t:?}");
    }
    assert_eq!(split_once("a=b=c", '='), Some(("a".to_string(), "b=c".to_string())));
    assert_eq!(split_once("abc", '='), None);
    assert!(starts_with("abc", "ab"));
    assert!(contains("abc", "bc"));
    assert!(!contains("abc", "cb"));
    assert!(eq_ignore_ascii_case("ReMind", "remind"));
    assert!(!eq_ignore_ascii_case("É", "é"));
    assert_eq!(numeral(0), "0");
    assert_eq!(numeral(12345), "12345");
    assert_eq!(pad_right("ab", 4), "ab  ");
    assert_eq!(repeat('x', 3), "xxx");
    let v: Vec<String> = ["a", "b", "c"].iter().map(|s| s.to_string()).collect();
    assert_eq!(join_first(&v, 2, ", "), "a, b");
    assert!(comes_before("a", "ab"));
    assert!(!comes_before("b", "ab"));
}

#[test]
fn case_is_swapped_by_the_unicode_tables() {
    assert_eq!(swap_case('a'), 'A');
    assert_eq!(swap_case('A'), 'a');
    assert_eq!(swap_case('ç'), 'Ç');
    assert_eq!(swap_case('Ω'), 'ω');
    assert_eq!(swap_case('1'), '1');
}

// ---------------------------------------------------------------------
// Widths
// ---------------------------------------------------------------------

#[test]
fn widths_are_those_of_the_terminal() {
    assert_eq!(spans_width(&[Span::raw("ab"), Span::raw("你")]), 4);
    let rows = wrap_spans(&[Span::raw("ab\u{301}c")], 2, None);
    assert_eq!(rows.len(), 2);
    assert_eq!(rows[0].spans[0].text, "ab\u{301}");
}

#[test]
fn spans_are_put_together_again() {
    let bold = Style::default().bold();
    let spans = [Span::raw("ab"), Span::styled("cd", bold), Span::raw("e")];
    let again = rebuild_spans(&flatten(&spans));
    assert_eq!(again.len(), 3);
    assert_eq!(again[1].text, "cd");
    assert_eq!(again[1].style, bold);
}

#[test]
fn wrapping_keeps_every_word() {
    let text = "some words, and alongerwordthanfits";
    for max in 1..20 {
        let rows = wrap_spans(&[Span::raw(text)], max, None);
        let all: String =
            rows.iter().flat_map(|l| l.spans.iter().map(|s| s.text.as_str())).collect();
        let kept = |s: &str| s.chars().filter(|c| *c != ' ').collect::<String>();
        assert_eq!(kept(&all), kept(text));
        assert!(rows.iter().all(|l| spans_width(&l.spans) <= max));
    }
}

// ---------------------------------------------------------------------
// Paths and dates
// ---------------------------------------------------------------------

#[test]
fn paths_are_joined_and_taken_apart() {
    assert_eq!(join_path("/ws/pages", "a.md"), "/ws/pages/a.md");
    assert_eq!(join_path("/ws/", "a.md"), "/ws/a.md");
    assert_eq!(file_stem("/ws/pages/a.b.md").as_deref(), Some("a.b"));
    assert_eq!(last_part("/ws/pages/a.b.md"), "a.b.md");
    assert_eq!(last_part("a.md"), "a.md");
    assert_eq!(last_part("/ws/"), "");
    assert_eq!(file_stem("/ws/pages/.hidden").as_deref(), Some(".hidden"));
    assert_eq!(parent_dir_name("/ws/journals/2024-04-28.md"), "journals");
}

#[test]
fn days_are_dates() {
    assert_eq!(civil_of(739_004), Some(Civil { year: 2024, month: 4, day: 28 }));
    assert_eq!(civil_of(1), Some(Civil { year: 1, month: 1, day: 1 }));
    assert_eq!(civil_of(i32::MAX), None);
    assert_eq!(weekday_of(739_004), 6);
    assert_eq!(weekday_of(1), 0);
    assert_eq!(days_in_month(2024, 2), 29);
    assert_eq!(days_in_month(1900, 2), 28);
    assert_eq!(days_in_month(2000, 2), 29);
    assert_eq!(days_in_month(262_142, 11), 30);
    assert_eq!(days_in_month(262_142, 10), 31);
    assert_eq!(days_in_month(262_142, 12), 30);
    assert_eq!(days_in_month(262_143, 1), 30);
    assert_eq!(days_in_month(-262_143, 1), 31);
    assert_eq!(days_in_month(-262_144, 12), 30);
    assert_eq!(days_in_month(i32::MAX, 12), 30);
    assert_eq!(format_date(739_004, ISO_PATTERN).as_deref(), Some("2024-04-28"));
    assert_eq!(format_date(i32::MIN, ISO_PATTERN), None);
    assert_eq!(parse_date("2024-04-28"), Some(739_004));
    assert_eq!(parse_date("2024-02-30"), None);
    assert_eq!(parse_date("notes"), None);
}

#[test]
fn a_written_day_names_itself() {
    for day in [1, 59, 60, 146_097, 719_163, 739_004, 3_652_059] {
        let text = format_date(day, ISO_PATTERN).unwrap();
        assert_eq!(parse_date(&text), Some(day), "{text}");
    }
}

// ---------------------------------------------------------------------
// Edits
// ---------------------------------------------------------------------

#[test]
fn what_is_typed_can_be_deleted_again() {
    let mut b = EditBuffer::from_text("héllo");
    b.cursor = 2;
    b.insert_str("çã");
    assert_eq!(b.as_string(), "héçãllo");
    assert_eq!(b.cursor, 4);
    b.delete_back_by(2);
    assert_eq!(b.as_string(), "héllo");
    assert_eq!(b.cursor, 2);
    b.delete_back();
    b.delete_back();
    b.delete_back();
    assert_eq!(b.as_string(), "llo");
    assert_eq!(b.cursor, 0);
}

// ---------------------------------------------------------------------
// The tree
// ---------------------------------------------------------------------

fn node(text: &str, children: Vec<OutlineNode>) -> OutlineNode {
    OutlineNode { text: text.to_string(), children, properties: vec![] }
}

fn tree() -> Vec<OutlineNode> {
    vec![
        node("a", vec![node("a1", vec![node("a1x", vec![])]), node("a2", vec![])]),
        node("b", vec![]),
    ]
}

/// The page from top to bottom, each text with its depth.
fn read(v: &[OutlineNode], depth: usize) -> Vec<String> {
    let mut out = vec![];
    for n in v {
        out.push(format!("{}{}", "-".repeat(depth), n.text));
        out.extend(read(&n.children, depth + 1));
    }
    out
}

#[test]
fn paths_and_flat_indices_go_together() {
    let t = tree();
    assert_eq!(flat_count(&t), 5);
    let names = ["a", "a1", "a1x", "a2", "b"];
    for (i, name) in names.iter().enumerate() {
        let path = path_for_index(&t, i).unwrap();
        assert_eq!(node_at_path(&t, &path).unwrap().text, *name);
        assert_eq!(index_for_path(&t, &path), Some(i));
    }
    assert_eq!(path_for_index(&t, 5), None);
    assert_eq!(index_for_path(&t, &[2]), None);
    assert!(node_at_path(&t, &[]).is_none());
    assert_eq!(read(&copy_nodes(&t), 0), read(&t, 0));
}

#[test]
fn blocks_are_moved_and_lost_only_where_asked() {
    let mut t = tree();
    assert!(indent_at_path(&mut t, &[1]));
    assert_eq!(read(&t, 0), ["a", "-a1", "--a1x", "-a2", "-b"]);
    assert!(!indent_at_path(&mut t, &[0]));
    assert!(outdent_at_path(&mut t, &[0, 2]));
    assert_eq!(read(&t, 0), ["a", "-a1", "--a1x", "-a2", "b"]);
    assert!(move_up_at_path(&mut t, &[1]));
    assert_eq!(read(&t, 0), ["b", "a", "-a1", "--a1x", "-a2"]);
    assert!(move_down_at_path(&mut t, &[0]));
    assert_eq!(read(&t, 0), ["a", "-a1", "--a1x", "-a2", "b"]);
    assert!(!move_up_at_path(&mut t, &[0]));
    assert!(!move_down_at_path(&mut t, &[1]));
    assert_eq!(flat_count(&t), 5);
    delete_at_path(&mut t, &[0, 0]);
    assert_eq!(read(&t, 0), ["a", "-a2", "b"]);
}

#[test]
fn moments_are_written_short() {
    let text = |day, hour, minute| Moment::new(day, hour, minute).map(|m| m.text());
    assert_eq!(text(739_004, 23, 59).as_deref(), Some("Sun 28 Apr 23:59"));
    assert_eq!(text(739_009, 0, 0).as_deref(), Some("Fri 03 May 00:00"));
    assert_eq!(text(739_004, 24, 0), None);
    assert_eq!(text(739_004, 0, 60), None);
    assert_eq!(text(i32::MAX, 0, 0), None);
    assert_eq!(clock_text(9, 5), "09:05");
    assert_eq!(clock_text(23, 40), "23:40");
}

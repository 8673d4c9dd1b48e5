//! What is drawn around and over the outline.

use outl_tui::autocomplete::AutocompleteKind;
use outl_tui::dates::Moment;
use outl_tui::icons::{IconSet, TuiIconStyle};
use outl_tui::outline::OutlineNode;
use outl_tui::state::{
    App, AutocompleteState, CommandState, ErrorState, Mode, NamespaceChild, Overlay,
    PluginSettingsEntry, PluginSettingsState, PropertiesState, PropertyScope, QuickSwitchState, ReminderRow,
    RemindersState, Screen, SearchHit, SearchState, SettingField, SettingKind, SidebarSection,
    SlashCommand, SlashState, SwitchCandidate, SwitchKind, TemplateEntry, TemplatePickerState,
    Toast, ToastKind,
};
use outl_tui::style::{centered_rect, Line, Rect};
use outl_tui::theme::{default_dark, Theme};
use outl_tui::view::chrome::{
    breadcrumb, chips, chips_width, format_age, left_segments, right_segments,
    right_segments_width, throbber_frame, Chips,
};
use outl_tui::view::frame::{lay_out, render_canvas, render_main, FrameInput, Layer};
use outl_tui::view::help::{help_tab_body, render_help_popup, HELP_TABS};
use outl_tui::view::inline::InlineTok;
use outl_tui::view::lists::{render_reminders, render_template_picker, truncate};
use outl_tui::view::namespace::render_nested_pages;
use outl_tui::view::outline::{BlockInput, BlockRow, BlockRowKind, RowCursor};
use outl_tui::view::overlays::{
    preview_lines, render_autocomplete, render_command_bar, render_error_overlay,
    render_quick_switch, render_search_overlay, CandidateInfo, Preview,
};
use outl_tui::view::palette::{category_for, row_above, row_below, visual_order, Category};
use outl_tui::view::panel::{inside, split_columns, split_rows, Body, Panel, Part};
use outl_tui::view::properties::{key_hint, render_properties, KEY_HINT_LIMIT};
use outl_tui::view::settings::render_plugin_settings;
use outl_tui::view::sidebar::{
    calendar_lines, journals_of_month, render_pinned, render_recent, render_sidebar, PinnedPage,
    RecentEntry,
};
use outl_tui::view::slash::{paint_palette, render_slash_overlay};
use outl_tui::view::toasts::{label_for, render_toasts};

// ---------------------------------------------------------------------
// Fixtures
// ---------------------------------------------------------------------

const FULL: Rect = Rect { x: 0, y: 0, width: 100, height: 40 };

fn theme() -> Theme {
    default_dark()
}

fn icons() -> IconSet {
    IconSet::new(TuiIconStyle::Emoji)
}

fn s(x: &str) -> String {
    x.to_string()
}

fn line_text(line: &Line) -> String {
    line.spans.iter().map(|s| s.text.as_str()).collect()
}

/// The rows or items of a panel.
fn rows_of(p: &Panel) -> Vec<String> {
    match &p.body {
        Body::Rows { lines, .. } => lines.iter().map(line_text).collect(),
        Body::Items { items, .. } => items.iter().map(line_text).collect(),
        Body::Tabs { titles, .. } => titles.iter().map(line_text).collect(),
        _ => vec![],
    }
}

fn title_of(p: &Panel) -> String {
    match &p.border {
        Some(b) => b.title.as_ref().map(|t| t.text.clone()).unwrap_or_default(),
        None => String::new(),
    }
}

/// Everything that panels say, row by row.
fn shown(panels: &[Panel]) -> String {
    let mut out = String::new();
    for p in panels {
        out.push_str(&title_of(p));
        out.push('\n');
        for r in rows_of(p) {
            out.push_str(&r);
            out.push('\n');
        }
    }
    out
}

// ---------------------------------------------------------------------
// The help
// ---------------------------------------------------------------------

fn normal_help() -> String {
    help_tab_body(0, &theme(), &icons()).iter().map(line_text).collect::<Vec<_>>().join("\n")
}

#[test]
fn every_reminder_chord_is_listed() {
    let help = normal_help();
    for chord in ["g r", "g R", "g n", "g s"] {
        assert!(help.contains(chord), "`{chord}` works but isn't in the help");
    }
}

#[test]
fn the_property_editor_and_its_keys_are_listed() {
    let help = normal_help();
    for chord in ["g p", "g P", "dd delete", "Tab completes"] {
        assert!(help.contains(chord), "`{chord}` works but isn't in the help");
    }
}

#[test]
fn the_help_says_how_to_edit_a_rule() {
    assert!(normal_help().contains(":prop remind"));
}

#[test]
fn the_first_tab_is_the_one_these_chords_live_on() {
    assert_eq!(HELP_TABS.first().copied(), Some("Normal"));
}

#[test]
fn every_tab_has_a_body_and_the_popup_shows_the_open_one() {
    for tab in 0..HELP_TABS.len() {
        assert!(help_tab_body(tab, &theme(), &icons()).len() > 2);
    }
    let none = help_tab_body(9, &theme(), &icons());
    assert_eq!(line_text(&none[0]), "  (no content for this tab)");
    let panels = render_help_popup(FULL, 80, 1, 0, &theme(), &icons());
    assert!(panels.iter().any(|p| matches!(p.body, Body::Tabs { open: 1, .. })));
    let body = line_text(&help_tab_body(1, &theme(), &icons())[1]);
    assert!(shown(&panels).contains(&body));
}

// ---------------------------------------------------------------------
// Properties, settings
// ---------------------------------------------------------------------

#[test]
fn an_empty_catalogue_says_so_instead_of_rendering_a_blank_strip() {
    assert!(key_hint(&[]).contains("no matching key"));
}

#[test]
fn the_strip_keeps_the_catalogue_order() {
    let keys = vec![s("related"), s("icon")];
    assert_eq!(key_hint(&keys), "related  icon");
}

#[test]
fn a_long_catalogue_is_truncated_with_a_count() {
    let keys: Vec<String> = (0..KEY_HINT_LIMIT + 3).map(|i| format!("k{i}")).collect();
    let hint = key_hint(&keys);
    assert!(hint.ends_with("+3"), "got {hint}");
    assert!(!hint.contains("k7"), "past the limit must not render");
}

#[test]
fn the_properties_are_listed_with_their_values() {
    let p = PropertiesState {
        scope: PropertyScope::Block,
        rows: vec![(s("status"), s("draft"))],
        selected: 0,
        editing: None,
        pending_delete: false,
        message: None,
        known_keys: vec![],
    };
    let all = shown(&render_properties(FULL, &p, &theme()));
    assert!(all.contains("status"));
    assert!(all.contains("draft"));
}

fn setting(secret: bool, value: &str) -> SettingField {
    SettingField {
        key: s("token"),
        kind: SettingKind::Text,
        secret,
        is_set: true,
        value: Some(format!("\"{value}\"")),
        default: None,
    }
}

fn settings(secret: bool, value: &str) -> String {
    let ps = PluginSettingsState {
        entries: vec![PluginSettingsEntry {
            plugin_id: s("run.avelino.kb"),
            fields: vec![setting(secret, value)],
        }],
        rows: vec![(0, 0)],
        selected: 0,
        editing: None,
        message: None,
    };
    shown(&render_plugin_settings(FULL, &ps, &theme()))
}

#[test]
fn secrets_are_not_shown() {
    assert!(settings(false, "hunter").contains("hunter"));
    assert!(!settings(true, "hunter").contains("hunter"));
    assert_eq!(settings(true, "hunter"), settings(true, "another"));
}

// ---------------------------------------------------------------------
// The command palette
// ---------------------------------------------------------------------

fn command(name: &str) -> SlashCommand {
    SlashCommand { name: s(name), description: s("does it"), needs_args: false }
}

#[test]
fn the_palette_is_grouped_and_walked_as_it_is_shown() {
    let c = vec![command("date-today"), command("run"), command("theme"), command("pin")];
    assert_eq!(category_for("date-today"), Category::Dates);
    let order = visual_order(&c);
    let mut sorted = order.clone();
    sorted.sort();
    assert_eq!(sorted, vec![0, 1, 2, 3]);
    assert_eq!(*order.last().unwrap(), 0);
    assert_eq!(row_below(&c, order[0]), order[1]);
    assert_eq!(row_above(&c, order[1]), order[0]);
    let state = SlashState { query: s(""), candidates: c, selected: 2 };
    let (lines, row) = paint_palette(&state, &theme(), &icons());
    assert!(line_text(&lines[row.unwrap()]).contains("theme"));
    let all = shown(&render_slash_overlay(FULL, &state, &theme(), &icons()));
    assert!(all.contains("date-today"));
}

// ---------------------------------------------------------------------
// Other overlays
// ---------------------------------------------------------------------

fn info() -> CandidateInfo {
    CandidateInfo { icon: None, text: None, description: s(""), needs_args: false, glyph: None }
}

#[test]
fn the_completion_popup_stands_in_the_corner() {
    let ac = AutocompleteState {
        kind: AutocompleteKind::PageRef,
        query: s("Av"),
        candidates: vec![s("Avelino"), s("Avocado")],
        selected: 1,
    };
    let panels = render_autocomplete(FULL, &ac, &vec![info(), info()], &theme());
    assert_eq!(panels[1].area, Rect { x: 62, y: 34, width: 36, height: 4 });
    assert!(rows_of(&panels[1])[0].contains("Avelino"));
    let none = AutocompleteState {
        kind: AutocompleteKind::Tag,
        query: s(""),
        candidates: vec![],
        selected: 0,
    };
    assert!(render_autocomplete(FULL, &none, &vec![], &theme()).is_empty());
}

#[test]
fn the_quick_switcher_shows_its_rows_and_a_preview() {
    let qs = QuickSwitchState {
        query: s("no"),
        candidates: vec![SwitchCandidate {
            kind: SwitchKind::Page,
            key: s("notes"),
            label: s("Notes"),
        }],
        selected: 0,
    };
    let preview = Preview::Text(s("- first line\n- second line"));
    let all = shown(&render_quick_switch(FULL, &qs, &preview, &theme(), &icons()));
    assert!(all.contains("Notes"));
    assert!(all.contains("first line"));
    assert_eq!(preview_lines("", 4, &theme()).len(), 1);
    assert_eq!(preview_lines("a\nb\nc", 2, &theme()).len(), 2);
}

#[test]
fn the_search_and_the_command_line_show_what_is_typed() {
    let search = SearchState {
        query: s("needle"),
        hits: vec![SearchHit { page_label: s("Hay"), page_icon: None, snippet: s("a needle") }],
        selected: 0,
    };
    let all = shown(&render_search_overlay(FULL, &search, &theme()));
    assert!(all.contains("needle"));
    assert!(all.contains("Hay"));
    let bar = render_command_bar(FULL, &CommandState { buffer: s("prop a b") }, &theme());
    assert!(shown(&bar).contains("prop a b"));
}

#[test]
fn an_error_is_as_high_as_its_text() {
    let err = ErrorState { title: s("run failed"), body: s("one\ntwo") };
    let panels = render_error_overlay(FULL, 70, 30, &err, &theme());
    assert_eq!(panels[1].area, Rect { x: 15, y: 17, width: 70, height: 6 });
    assert_eq!(rows_of(&panels[1]), vec!["one", "two"]);
    assert_eq!(title_of(&panels[1]), " ✕ run failed · press any key to dismiss ");
}

#[test]
fn templates_and_reminders_are_listed() {
    let tp = TemplatePickerState {
        query: s(""),
        all: vec![TemplateEntry { name: s("daily"), slug: s("t-daily"), params: vec![s("day")] }],
        filtered: vec![0],
        selected: 0,
    };
    assert!(shown(&render_template_picker(FULL, &tp, &theme(), &icons())).contains("daily"));
    let mut r = RemindersState {
        all: vec![ReminderRow {
            block_id: 1,
            page_slug: s("notes"),
            text: s("call the bank"),
            rule_text: s("9am"),
            next_fire: Moment::new(738_643, 9, 5),
            snoozed: true,
            done: false,
        }],
        selected: 0,
    };
    let all = shown(&render_reminders(FULL, &r, &theme(), &icons()));
    assert!(all.contains(" Wed 03 May 09:05   call the bank"));
    assert!(all.contains("💤"));
    r.all.clear();
    let none = shown(&render_reminders(FULL, &r, &theme(), &icons()));
    assert!(none.contains(" No reminders. Press `g r` on a block to add one."));
    assert_eq!(truncate("abcdef", 4), "abc…");
    assert_eq!(truncate("abcd", 4), "abcd");
}

fn toast(kind: ToastKind, message: &str) -> Toast {
    Toast { kind, message: s(message), born_ms: 0, ttl_ms: 2500 }
}

#[test]
fn the_newest_toast_stands_lowest() {
    let v = vec![toast(ToastKind::Info, "old"), toast(ToastKind::Error, "new")];
    let panels = render_toasts(FULL, &v, &theme(), &icons());
    assert_eq!(panels.len(), 4);
    assert!(shown(&panels[0..2]).contains("new"));
    assert!(shown(&panels[2..4]).contains("old"));
    assert!(panels[3].area.y + panels[3].area.height <= panels[1].area.y);
    let narrow = Rect { x: 0, y: 0, width: 14, height: 40 };
    assert!(render_toasts(narrow, &v, &theme(), &icons()).is_empty());
    assert_ne!(label_for(ToastKind::Info), label_for(ToastKind::Error));
}

// ---------------------------------------------------------------------
// The sidebar
// ---------------------------------------------------------------------

#[test]
fn the_calendar_shows_the_month_of_the_day() {
    // the 28th of April 2024, a Sunday
    let lines = calendar_lines(739_004, 739_004, &vec![false; 31], &theme()).unwrap();
    let rows: Vec<String> = lines.iter().map(line_text).collect();
    assert_eq!(rows[0], "Mo Tu We Th Fr Sa Su");
    assert_eq!(rows[1], "· 1· 2· 3· 4· 5· 6· 7");
    assert_eq!(rows[4], "·22·23·24·25·26·27◉28");
    assert_eq!(rows[5], "·29·30");
    assert_eq!(rows.len(), 6);
    assert!(calendar_lines(i32::MAX, 0, &vec![], &theme()).is_none());
}

#[test]
fn pinned_pages_are_sorted_by_their_titles() {
    let page = |t: &str| PinnedPage { title: s(t), icon: None };
    let p = render_pinned(
        FULL,
        &vec![page("beta"), page("Alpha"), page("Árvore"), page("árabe")],
        None,
        0,
        &theme(),
        &icons(),
    );
    let rows = rows_of(&p).join("\n");
    let at = |t: &str| rows.find(t).unwrap_or_else(|| panic!("{t} in {rows}"));
    assert!(at("Alpha") < at("beta"));
    assert!(at("árabe") < at("Árvore"));
}

#[test]
fn recent_pages_are_named_by_their_entries() {
    let paths = vec![s("/ws/pages/notes.md"), s("/ws/journals/2024-04-28.md")];
    let entries = vec![
        Some(RecentEntry { title: s("My notes"), icon: None, is_journal: false }),
        None,
    ];
    let p = render_recent(FULL, &paths, &entries, Some(SidebarSection::Recent), 1, &theme(), &icons());
    let rows = rows_of(&p).join("\n");
    assert!(rows.contains("My notes"));
    assert!(rows.contains("2024-04-28"));
    let all = render_sidebar(
        Rect { x: 0, y: 0, width: 24, height: 40 },
        &Screen::Journal(739_004),
        739_004,
        &vec![true; 31],
        &vec![],
        &paths,
        &entries,
        None,
        0,
        &theme(),
        &icons(),
    );
    assert!(shown(&all).contains("Apr 2024") || shown(&all).contains("April 2024"));
}

// ---------------------------------------------------------------------
// Header, footer and the frame
// ---------------------------------------------------------------------

fn chip_state() -> Chips {
    Chips { indexing: true, done: 1, total: 3, editing: true, saved_secs: Some(125) }
}

#[test]
fn chips_say_what_goes_on() {
    let text = line_text(&chips(&chip_state(), 1000, &icons()));
    assert!(text.contains("⠋ indexing"));
    assert!(text.contains("☑ 1/3"));
    assert!(text.contains("● editing"));
    assert!(text.contains("⟳ 2m ago"));
    assert_eq!(chips_width(&chip_state()), 53);
    assert_eq!(format_age(2), "just now");
    assert_eq!(format_age(59), "59s ago");
    assert_eq!(format_age(7200), "2h ago");
    assert_eq!(throbber_frame(0), throbber_frame(1000));
    assert_ne!(throbber_frame(0), throbber_frame(100));
}

#[test]
fn the_header_and_the_footer_say_where_one_is() {
    let path = breadcrumb(
        &Some(s("home")),
        &Screen::Journal(739_004),
        &None,
        &vec![s("a"), s("a2")],
        &theme(),
        &icons(),
    );
    let text = line_text(&path);
    assert!(text.starts_with(" outl ▸ home ▸ 📅 "));
    assert!(text.contains("2024-04-28"));
    assert!(text.ends_with(" ▸ a ▸ a2"));
    let left = left_segments(
        &Mode::Visual { anchor: 0 },
        &None,
        1,
        "hint",
        "status",
        &theme(),
        &icons(),
    );
    let text = line_text(&left);
    assert!(text.starts_with(" VISUAL "));
    assert!(text.contains("1 backlink "));
    assert!(text.ends_with("status"));
    let right = line_text(&right_segments("12:34", true, "", &theme(), &icons()));
    assert!(right.contains("12:34"));
    assert!(right_segments_width(&icons()) > 0);
}

#[test]
fn nested_pages_are_indented_by_their_depth() {
    let child = |depth: usize, label: &str| NamespaceChild { depth, label: s(label), icon: None };
    let rows = render_nested_pages(&vec![child(1, "a"), child(2, "b")], 10, &theme(), &icons());
    assert_eq!(rows.len(), 6);
    assert_eq!(line_text(&rows[4]), " 📄  a");
    assert_eq!(line_text(&rows[5]), "   📄  b");
    assert!(render_nested_pages(&vec![], 10, &theme(), &icons()).is_empty());
}

#[test]
fn areas_are_split_by_lengths() {
    let parts = [Part::Length(3), Part::Min(5), Part::Length(1)];
    let rows = split_rows(FULL, &parts);
    assert_eq!(
        rows,
        vec![
            Rect { x: 0, y: 0, width: 100, height: 3 },
            Rect { x: 0, y: 3, width: 100, height: 36 },
            Rect { x: 0, y: 39, width: 100, height: 1 },
        ]
    );
    let columns = split_columns(FULL, &[Part::Percentage(40), Part::Percentage(60)]);
    assert_eq!(columns.len(), 2);
    assert_eq!(columns[0].width, 40);
    assert_eq!(inside(rows[0]), Rect { x: 1, y: 1, width: 98, height: 1 });
    assert_eq!(centered_rect(FULL, 50, 50), Rect { x: 25, y: 10, width: 50, height: 20 });
}

fn block_input(text: &str) -> BlockInput {
    let toks = || vec![InlineTok::Plain(s(text))];
    BlockInput {
        rows: vec![BlockRow {
            kind: BlockRowKind::Bullet,
            text: s(text),
            toks: toks(),
            body: toks(),
            cursor: Some(RowCursor {
                col: 0,
                left: vec![],
                rest: vec![InlineTok::Plain(text.chars().skip(1).collect())],
            }),
        }],
        toks: toks(),
    }
}

#[test]
fn the_selected_block_is_scrolled_into_sight() {
    let mut app = App::new(Screen::Journal(739_004), theme(), TuiIconStyle::Emoji, 0);
    for i in 0..60 {
        app.page.blocks.push(OutlineNode {
            text: format!("block {i}"),
            children: vec![],
            properties: vec![],
        });
    }
    app.selected = 50;
    let chip = Chips { indexing: false, done: 0, total: 0, editing: false, saved_secs: None };
    let areas = lay_out(FULL, 0, true, chips_width(&chip), right_segments_width(&icons()));
    assert_eq!(areas.sidebar.map(|r| r.width), Some(24));
    assert_eq!(areas.header.height, 3);
    assert_eq!(areas.footer.y + areas.footer.height, 40);
    let input = || FrameInput {
        workspace: Some(s("home")),
        entry: None,
        chips: Chips { indexing: false, done: 0, total: 0, editing: false, saved_secs: None },
        millis: 0,
        backlinks: 0,
        hint: s(""),
        clock: s("12:34"),
        blocks: (0..60).map(|i| block_input(&format!("block {i}"))).collect(),
        backlink_lines: vec![],
        backlink_row: None,
        nested: vec![],
    };
    let drawn = render_main(&mut app, &areas, input());
    assert_eq!(drawn.outline_rows, 60);
    assert_eq!(drawn.starts.len(), 60);
    let height = app.viewport_height;
    assert_eq!(height, inside(areas.body).height);
    assert!(app.scroll_y <= 50 && 50 < app.scroll_y + height);
    let before = app.scroll_y;
    render_main(&mut app, &areas, input());
    assert_eq!(app.scroll_y, before);
    assert!(shown(&drawn.panels).contains("block 50"));
}

#[test]
fn toasts_are_drawn_over_everything() {
    let mut app = App::new(Screen::Journal(739_004), theme(), TuiIconStyle::Emoji, 0);
    assert_eq!(app.layers(), vec![Layer::Canvas, Layer::Main, Layer::Toasts]);
    app.show_help = true;
    app.overlay = Some(Overlay::Command(CommandState { buffer: s("") }));
    assert_eq!(
        app.layers(),
        vec![Layer::Canvas, Layer::Main, Layer::Overlay, Layer::Help, Layer::Toasts]
    );
    let canvas = render_canvas(FULL, &theme());
    assert!(matches!(canvas[0].body, Body::Clear));
    assert_eq!(canvas[1].style.bg, Some(theme().background));
}

#[test]
fn days_with_a_journal_are_marked() {
    let names = vec![s("2024-04-28"), s("2024-04-01"), s("2024-05-01"), s("notes")];
    let days = journals_of_month(739_004, &names);
    assert_eq!(days.len(), 30);
    let marked: Vec<usize> = (0..30).filter(|k| days[*k]).collect();
    assert_eq!(marked, vec![0, 27]);
    assert!(journals_of_month(i32::MAX, &names).is_empty());
}

//! What commands, links, plugins, properties, reminders and files do to the
//! editor.

use outl_tui::actions::exec::{
    block_flat_is_auto_run_lang, decide_gx, is_safe_external_url, GxAction,
    RunReport,
};
use outl_tui::actions::loading::ReadResult;
use outl_tui::actions::metadata::set_property;
use outl_tui::actions::pages::BlockPlace;
use outl_tui::actions::plugins::{
    collect_transform_jobs, fence_lang_and_body, find_plugin_command, resolve_transformer,
    transform_of, value_to_input, PluginCommand, Transformed, Transformer,
};
use outl_tui::actions::properties::{apply_value_completion, key_completions};
use outl_tui::actions::reminders::osc9_sequence;
use outl_tui::autocomplete::{candidates_for_slash, slash_names, AutocompleteKind, Scored};
use outl_tui::commands::{
    parse_kv, split_property_args, PinCommand, PropBlockCommand, PropPageCommand,
    TemplateCommand, TemplateStep,
};
use outl_tui::edit_buffer::EditBuffer;
use outl_tui::effect::Effect;
use outl_tui::icons::TuiIconStyle;
use outl_tui::outline::OutlineNode;
use outl_tui::state::{App, Mode, Overlay, ParsedPage, Screen, ToastKind};
use outl_tui::theme::default_dark;
use std::collections::HashSet;

const TODAY: i32 = 739_004;

fn fresh_app() -> App {
    App::new(Screen::Journal(TODAY), default_dark(), TuiIconStyle::Emoji, 0)
}

fn node(text: &str) -> OutlineNode {
    OutlineNode { text: text.to_string(), children: vec![], properties: vec![] }
}

fn seed_single_block(app: &mut App, text: &str) {
    app.page.blocks.clear();
    app.page.blocks.push(node(text));
    app.flat_len = 1;
    app.selected = 0;
}

fn pair(a: &str, b: &str) -> (String, String) {
    (a.to_string(), b.to_string())
}

// ---------------------------------------------------------------------
// Commands
// ---------------------------------------------------------------------

/// Runs `:prop` with its arguments, the key and value taken apart as the
/// command line takes them apart.
fn run_prop(app: &mut App, args: &str) {
    let (key, value) = split_property_args(args);
    PropBlockCommand.execute(app, &key, &value, None);
}

#[test]
fn a_rule_with_spaces_is_not_truncated_at_the_first_word() {
    let mut app = fresh_app();
    seed_single_block(&mut app, "ship it");
    run_prop(&mut app, "remind 3pm every 1h until DONE");
    assert_eq!(
        app.property_on_current_block("remind").as_deref(),
        Some("3pm every 1h until DONE")
    );
}

#[test]
fn an_empty_value_is_the_delete_path() {
    let mut app = fresh_app();
    seed_single_block(&mut app, "ship it");
    run_prop(&mut app, "remind 9am");
    run_prop(&mut app, "remind");
    assert_eq!(app.property_on_current_block("remind"), None);
    assert!(app.page.blocks[0].properties.is_empty());
}

#[test]
fn a_differently_cased_key_is_replaced_not_duplicated() {
    let mut app = fresh_app();
    seed_single_block(&mut app, "ship it");
    app.page.blocks[0].properties.push(pair("Remind", "9am"));
    run_prop(&mut app, "remind 3pm");
    assert_eq!(app.page.blocks[0].properties.len(), 1);
    assert_eq!(app.property_on_current_block("REMIND").as_deref(), Some("3pm"));
}

#[test]
fn a_differently_cased_key_is_deleted_too() {
    let mut app = fresh_app();
    seed_single_block(&mut app, "ship it");
    app.page.blocks[0].properties.push(pair("Remind", "9am"));
    run_prop(&mut app, "remind");
    assert!(app.page.blocks[0].properties.is_empty());
}

#[test]
fn a_refused_property_is_not_written() {
    let mut app = fresh_app();
    seed_single_block(&mut app, "ship it");
    PropBlockCommand.execute(&mut app, "remind", "never", Some("no such rule"));
    assert!(app.page.blocks[0].properties.is_empty());
    assert!(app.dirty_since.is_none());
}

#[test]
fn page_properties_and_the_pin_are_written_to_the_page() {
    let mut app = fresh_app();
    seed_single_block(&mut app, "ship it");
    PropPageCommand.execute(&mut app, "icon", "x", None);
    assert_eq!(app.page.properties, vec![pair("icon", "x")]);
    PinCommand.execute(&mut app);
    assert_eq!(app.page.properties, vec![pair("icon", "x")], "journals are not pinned");
    app.screen = Screen::Page("/ws/pages/notes.md".to_string());
    PinCommand.execute(&mut app);
    assert_eq!(app.page.properties, vec![pair("icon", "x"), pair("pinned", "true")]);
    PinCommand.execute(&mut app);
    assert_eq!(app.page.properties, vec![pair("icon", "x")]);
}

#[test]
fn commands_name_themselves() {
    assert_eq!(PropBlockCommand.name(), "prop-block");
    assert_eq!(PropBlockCommand.alias(), "prop");
    assert_eq!(PropPageCommand.name(), "prop-page");
    assert_eq!(PinCommand.name(), "pin");
    assert_eq!(TemplateCommand.name(), "template");
    assert!(PropBlockCommand.needs_args());
    assert!(!PinCommand.needs_args());
    assert!(!TemplateCommand.description().is_empty());
}

#[test]
fn callable_template_without_params_is_not_deep_copied() {
    let mut app = fresh_app();
    seed_single_block(&mut app, "here");
    let step = TemplateCommand.execute(&mut app, "calc", &vec!["calc".to_string()], true);
    match step {
        TemplateStep::Call { name, params } => {
            assert_eq!(name, "calc");
            assert!(params.is_empty());
        }
        other => panic!("expected the code to be run, got {other:?}"),
    }
    assert!(app.page.blocks[0].children.is_empty());
}

#[test]
fn the_other_steps_of_the_template_command() {
    let mut app = fresh_app();
    let known = vec!["daily".to_string()];
    assert!(matches!(TemplateCommand.execute(&mut app, "  ", &known, false), TemplateStep::Pick));
    assert!(matches!(
        TemplateCommand.execute(&mut app, "weekly", &known, false),
        TemplateStep::NotFound
    ));
    assert_eq!(app.status, "template `weekly` not found");
    assert!(matches!(
        TemplateCommand.execute(&mut app, "daily", &known, false),
        TemplateStep::Instantiate { name } if name == "daily"
    ));
    match TemplateCommand.execute(&mut app, "daily a=1 b = 2", &known, true) {
        TemplateStep::Call { params, .. } => assert_eq!(params, vec![pair("a", "1")]),
        other => panic!("{other:?}"),
    }
    assert_eq!(parse_kv("x=1 =2 y= z"), vec![pair("x", "1"), pair("y", "")]);
}

// ---------------------------------------------------------------------
// Links and code
// ---------------------------------------------------------------------

#[test]
fn code_block_runs_even_with_a_link_in_it() {
    assert!(matches!(decide_gx(true, Some("https://example.com".to_string())), GxAction::Run));
}

#[test]
fn non_code_block_opens_link_under_cursor() {
    match decide_gx(false, Some("https://outl.app".to_string())) {
        GxAction::OpenLink(url) => assert_eq!(url, "https://outl.app"),
        other => panic!("{other:?}"),
    }
}

#[test]
fn plain_block_with_no_link_does_nothing() {
    assert!(matches!(decide_gx(false, None), GxAction::Nothing));
}

#[test]
fn cursor_off_the_link_does_nothing() {
    let mut app = fresh_app();
    seed_single_block(&mut app, "tail [x](https://y.z)");
    app.cursor_col = 1;
    assert!(matches!(app.run_current_block(false, None, false), GxAction::Nothing));
}

#[test]
fn scheme_guard_allows_web_and_mail_only() {
    assert!(is_safe_external_url("https://outl.app"));
    assert!(is_safe_external_url("http://outl.app"));
    assert!(is_safe_external_url("HTTPS://OUTL.APP"));
    assert!(is_safe_external_url("mailto:a@b.c"));
    assert!(!is_safe_external_url("file:///etc/passwd"));
    assert!(!is_safe_external_url("javascript:alert(1)"));
    assert!(!is_safe_external_url("outl.app"));
}

#[test]
fn only_the_languages_that_ask_for_it_run_by_themselves() {
    let fences = vec![Some("lisp".to_string()), None];
    let langs = vec!["lisp".to_string()];
    assert!(block_flat_is_auto_run_lang(&fences, &langs, 0));
    assert!(!block_flat_is_auto_run_lang(&fences, &langs, 1));
    assert!(!block_flat_is_auto_run_lang(&fences, &langs, 7));
}

// ---------------------------------------------------------------------
// Plugins
// ---------------------------------------------------------------------

#[test]
fn fence_lang_and_body_extracts_raw_lang_and_body() {
    let (lang, body) = fence_lang_and_body("```rs\nlet x = 1;\nlet y = 2;\n```").unwrap();
    assert_eq!(lang, "rs");
    assert_eq!(body, "let x = 1;\nlet y = 2;");
}

#[test]
fn fence_lang_and_body_keeps_custom_lang() {
    let (lang, body) = fence_lang_and_body("```mermaid\ngraph TD;\nA-->B;\n```").unwrap();
    assert_eq!(lang, "mermaid");
    assert_eq!(body, "graph TD;\nA-->B;");
}

#[test]
fn fence_lang_and_body_tolerates_surrounding_whitespace() {
    let (lang, body) = fence_lang_and_body("  ```python\nprint(1)\n```  ").unwrap();
    assert_eq!(lang, "python");
    assert_eq!(body, "print(1)");
}

#[test]
fn fence_lang_and_body_rejects_bare_fence_without_lang() {
    assert!(fence_lang_and_body("```\nplain\n```").is_none());
}

#[test]
fn fence_lang_and_body_rejects_unclosed_fence() {
    assert!(fence_lang_and_body("```rust\nlet x = 1;").is_none());
}

#[test]
fn fence_lang_and_body_rejects_non_fence_text() {
    assert!(fence_lang_and_body("just some prose").is_none());
}

#[test]
fn resolve_transformer_prefers_raw_then_canonical() {
    let langs = vec![pair("mermaid", "p.diagram"), pair("rust", "p.fmt")];
    let aliases = vec![pair("rs", "rust"), pair("py", "python")];
    assert_eq!(
        resolve_transformer("mermaid", &langs, &aliases),
        Some(pair("mermaid", "p.diagram"))
    );
    assert_eq!(resolve_transformer("rs", &langs, &aliases), Some(pair("rust", "p.fmt")));
    assert_eq!(resolve_transformer("python", &langs, &aliases), None);
}

#[test]
fn collect_jobs_keys_by_flat_dfs_id_and_filters_by_lang() {
    let mut root0 = node("prose");
    root0.children.push(node("```mermaid\ngraph TD;\n```"));
    let root2 = node("```lua\nbar()\n```");
    let blocks = vec![root0, root2];
    let ids = vec![10, 11, 12];
    let langs = vec![pair("mermaid", "run.avelino.diagram")];
    let jobs = collect_transform_jobs(&blocks, &ids, &langs, &vec![]);
    assert_eq!(jobs.len(), 1);
    assert_eq!(jobs[0].block_id, ids[1]);
    assert_eq!(jobs[0].plugin_id, "run.avelino.diagram");
    assert_eq!(jobs[0].lang, "mermaid");
    assert_eq!(jobs[0].body, "graph TD;");
}

#[test]
fn collect_jobs_empty_when_no_langs() {
    let blocks = vec![node("```rust\nx\n```")];
    let jobs = collect_transform_jobs(&blocks, &vec![1], &vec![], &vec![]);
    assert!(jobs.is_empty());
}

fn upcase() -> Vec<Transformer> {
    vec![Transformer {
        lang: "upcase".to_string(),
        plugin_id: "run.avelino.upcase".to_string(),
        kind: "text".to_string(),
    }]
}

/// What a plugin that upper-cases code answers to the jobs of the page.
fn answers(app: &App) -> Vec<Transformed> {
    app.transform_jobs(&upcase(), &vec![])
        .iter()
        .map(|j| Transformed {
            block_id: j.block_id,
            kind: "text".to_string(),
            content: j.body.to_uppercase(),
        })
        .collect()
}

#[test]
fn recompute_transforms_caches_text_transformer_output() {
    let mut app = fresh_app();
    let id = 7;
    app.page.blocks = vec![node("```upcase\nhello world\n```")];
    app.id_by_flat = vec![id];
    let made = answers(&app);
    app.recompute_transforms(&made);
    assert_eq!(transform_of(&app.transform_cache, id).as_deref(), Some("HELLO WORLD"));
}

#[test]
fn recompute_transforms_ignores_fences_with_no_transformer() {
    let mut app = fresh_app();
    app.page.blocks = vec![node("```rust\nlet x = 1;\n```")];
    app.id_by_flat = vec![7];
    let made = answers(&app);
    app.recompute_transforms(&made);
    assert!(app.transform_cache.is_empty());
}

#[test]
fn settings_show_strings_without_their_quotes() {
    assert_eq!(value_to_input("\"a \\\"b\\\"\""), "a \"b\"");
    assert_eq!(value_to_input("12"), "12");
    assert_eq!(value_to_input("true"), "true");
}

// ---------------------------------------------------------------------
// Properties
// ---------------------------------------------------------------------

fn known() -> Vec<String> {
    ["related", "icon", "work", "status", "page-ref"].iter().map(|s| s.to_string()).collect()
}

#[test]
fn an_empty_query_offers_the_whole_catalogue_in_frequency_order() {
    assert_eq!(key_completions(&known(), ""), known());
}

#[test]
fn prefix_matches_come_before_substring_matches() {
    assert_eq!(
        key_completions(&known(), "re"),
        vec!["related".to_string(), "page-ref".to_string()]
    );
}

#[test]
fn completion_is_case_insensitive_like_the_parser() {
    let catalogue = vec!["Remind".to_string()];
    assert_eq!(key_completions(&catalogue, "rem"), vec!["Remind"]);
}

#[test]
fn a_query_matching_nothing_completes_to_nothing() {
    assert!(key_completions(&known(), "zzz").is_empty());
}

#[test]
fn accepting_a_page_replaces_the_open_trigger_not_the_whole_value() {
    assert_eq!(
        apply_value_completion("see [[Av", AutocompleteKind::PageRef, "Av", "Avelino"),
        "see [[Avelino]]"
    );
}

#[test]
fn accepting_a_tag_closes_it_without_brackets() {
    assert_eq!(apply_value_completion("#wo", AutocompleteKind::Tag, "wo", "work"), "#work");
}

#[test]
fn a_multibyte_value_is_cut_by_chars_not_bytes() {
    assert_eq!(
        apply_value_completion("orçamento [[Av", AutocompleteKind::PageRef, "Av", "Avelino"),
        "orçamento [[Avelino]]"
    );
}

#[test]
fn a_trigger_the_field_does_not_honour_leaves_the_value_alone() {
    assert_eq!(apply_value_completion("14:00", AutocompleteKind::Emoji, "00", "smile"), "14:00");
}

#[test]
fn a_written_property_is_read_back_and_leaves_the_others() {
    let mut v = vec![pair("icon", "x"), pair("Status", "draft")];
    set_property(&mut v, "status", "done", false);
    assert_eq!(v.len(), 2);
    assert!(v.contains(&pair("icon", "x")));
    assert!(v.iter().any(|(k, w)| k.eq_ignore_ascii_case("status") && w == "done"));
    set_property(&mut v, "status", "", false);
    assert_eq!(v, vec![pair("icon", "x")]);
}

#[test]
fn a_property_is_added_once_and_the_others_keep_their_order() {
    let before = vec![pair("icon", "x"), pair("Due", "mon"), pair("area", "home")];
    let mut v = before.clone();
    set_property(&mut v, "status", "done", false);
    assert_eq!(v.len(), 4);
    assert_eq!(v[..3], before[..]);
    let once = v.clone();
    set_property(&mut v, "status", "done", false);
    assert_eq!(v, once);
    set_property(&mut v, "due", "tue", false);
    assert_eq!(v.len(), 4);
    assert_eq!(v[1], pair("Due", "tue"));
    set_property(&mut v, "DUE", "", false);
    assert_eq!(v, vec![pair("icon", "x"), pair("area", "home"), pair("status", "done")]);
    let gone = v.clone();
    set_property(&mut v, "DUE", "", false);
    assert_eq!(v, gone);
}

#[test]
fn every_pair_of_a_key_is_deleted_but_only_the_first_is_set() {
    let mut v = vec![pair("a", "1"), pair("A", "2"), pair("b", "3")];
    set_property(&mut v, "a", "9", false);
    assert_eq!(v, vec![pair("a", "9"), pair("A", "2"), pair("b", "3")]);
    set_property(&mut v, "a", "", false);
    assert_eq!(v, vec![pair("b", "3")]);
}

#[test]
fn writing_a_property_again_leaves_the_page_as_it_is() {
    let mut app = fresh_app();
    seed_single_block(&mut app, "call the bank");
    run_prop(&mut app, "remind 9am");
    let block = app.page.blocks[0].properties.clone();
    run_prop(&mut app, "remind 9am");
    assert_eq!(app.page.blocks[0].properties, block);
    app.set_property_on_page("icon", "x");
    let page = app.page.properties.clone();
    app.set_property_on_page("icon", "x");
    assert_eq!(app.page.properties, page);
}

// ---------------------------------------------------------------------
// Reminders
// ---------------------------------------------------------------------

#[test]
fn wraps_the_body_in_osc9_and_bel() {
    assert_eq!(osc9_sequence("outl · call the bank"), "\u{1b}]9;outl · call the bank\u{7}");
}

#[test]
fn strips_terminators_so_a_block_cannot_truncate_the_sequence() {
    let seq = osc9_sequence("before\u{7}after\u{1b}end");
    assert_eq!(seq, "\u{1b}]9;beforeafterend\u{7}");
    assert_eq!(seq.matches('\u{7}').count(), 1, "exactly one BEL, the terminator");
    assert_eq!(seq.matches('\u{1b}').count(), 1, "exactly one ESC, the introducer");
}

#[test]
fn an_empty_body_is_still_a_well_formed_sequence() {
    assert_eq!(osc9_sequence(""), "\u{1b}]9;\u{7}");
}

#[test]
fn the_presets_write_a_rule() {
    let mut app = fresh_app();
    seed_single_block(&mut app, "call the bank");
    app.insert_remind();
    assert!(app.property_on_current_block("remind").is_some());
    let first = app.property_on_current_block("remind");
    app.page.blocks[0].properties.clear();
    app.insert_remind_nag();
    assert_ne!(app.property_on_current_block("remind"), first);
}

// ---------------------------------------------------------------------
// Reading and writing pages
// ---------------------------------------------------------------------

fn page(blocks: Vec<OutlineNode>, warnings: Vec<String>) -> ReadResult {
    ReadResult::Page(ParsedPage { properties: vec![], blocks, warnings })
}

#[test]
fn boot_stamps_the_warning_chip_with_the_configured_icon_set() {
    let mut app =
        App::new(Screen::Journal(TODAY), default_dark(), TuiIconStyle::NerdFont, 0);
    app.load_current(
        page(vec![], vec!["a line outside the outline dialect".to_string()]),
        "journals/today.md",
        &vec![],
    );
    assert!(!app.parse_warnings.is_empty(), "fixture must warn");
    assert_eq!(app.icons.warning, "\u{f071}");
    let nerd_chip = format!("{} ", app.icons.warning);
    assert!(app.status.starts_with(&nerd_chip));
    app.load_current(
        page(vec![node("back inside the dialect")], vec![]),
        "journals/today.md",
        &vec![(1, false)],
    );
    assert!(app.parse_warnings.is_empty());
    assert_eq!(app.status, "", "the chip must clear on the next load");
}

#[test]
fn a_page_that_cannot_be_read_is_never_written() {
    let mut app = fresh_app();
    app.load_current(
        ReadResult::Failed("permission denied".to_string()),
        "journals/today.md",
        &vec![],
    );
    assert!(app.load_failed);
    assert!(app.page.blocks.is_empty());
    assert!(!app.may_persist());
}

#[test]
fn save_marks_dirty_without_touching_disk() {
    let mut app = fresh_app();
    seed_single_block(&mut app, "coalesced body");
    app.save();
    assert!(app.has_pending_save(), "save() must set the dirty mark");
    assert_eq!(app.last_saved_ms, None);
}

#[test]
fn flush_persists_then_is_idempotent() {
    let mut app = fresh_app();
    seed_single_block(&mut app, "flush me to disk");
    app.save();
    assert!(app.flush_pending_save(), "the page is to be written");
    assert!(!app.has_pending_save(), "flush clears the dirty mark");
    assert!(!app.flush_pending_save());
    assert!(!app.has_pending_save());
}

#[test]
fn navigation_flushes_before_reparsing_from_disk() {
    let mut app = fresh_app();
    seed_single_block(&mut app, "must survive nav");
    app.save();
    assert!(app.has_pending_save());
    assert!(app.flush_pending_save());
    let written = page(vec![node(&app.page.blocks[0].text)], vec![]);
    app.load_current(written, "journals/today.md", &vec![(1, false)]);
    assert!(!app.has_pending_save(), "nav drained the pending save");
    assert!(app.page.blocks.iter().any(|b| b.text == "must survive nav"));
}

#[test]
fn an_edit_is_written_once_the_keyboard_rests() {
    let mut app = fresh_app();
    assert!(!app.flush_now(false));
    app.save();
    assert!(app.flush_now(false));
    assert!(!app.flush_now(true));
    app.now_ms = 60_000;
    assert_eq!(app.pending_save_age(), Some(60_000));
    assert!(app.flush_now(true));
}

#[test]
fn open_by_slug_uses_the_literal_stem() {
    let mut app = fresh_app();
    let slug = "ai-memory~abc~sessions%2Fdef.md";
    let seed = app.open_page_by_slug("/ws", slug, true);
    assert_eq!(seed, None, "a page on disk is not made again");
    assert_eq!(
        app.current_path("/ws").as_deref(),
        Some("/ws/pages/ai-memory~abc~sessions%2Fdef.md.md")
    );
}

#[test]
fn open_by_name_still_slugifies() {
    let mut app = fresh_app();
    let seed = app.open_page_slug("/ws", "my-fancy-page", "My Fancy Page", false);
    assert!(seed.is_some(), "a new page starts with its title");
    assert!(seed.unwrap().contains("My Fancy Page"));
    assert_eq!(app.current_path("/ws").as_deref(), Some("/ws/pages/my-fancy-page.md"));
}

#[test]
fn journals_are_files_of_their_days() {
    let mut app = fresh_app();
    app.go_today(TODAY);
    assert_eq!(app.current_path("/ws").as_deref(), Some("/ws/journals/2024-04-28.md"));
    assert_eq!(app.current_slug("/ws"), "2024-04-28");
    app.shift_journal(3, TODAY);
    assert_eq!(app.current_path("/ws").as_deref(), Some("/ws/journals/2024-05-01.md"));
}

#[test]
fn the_file_of_a_journal_is_opened_as_a_journal() {
    let mut app = fresh_app();
    let place = Some(BlockPlace {
        source_path: "/ws/journals/2024-05-01.md".to_string(),
        block_path: vec![0],
    });
    assert!(app.open_block_ref("blk-r6s4a1", &place));
    assert!(matches!(app.screen, Screen::Journal(d) if d == TODAY + 3));
    let place = Some(BlockPlace {
        source_path: "/ws/pages/2024-05-01.md".to_string(),
        block_path: vec![0],
    });
    assert!(app.open_block_ref("blk-r6s4a1", &place));
    assert!(matches!(&app.screen, Screen::Page(p) if p == "/ws/pages/2024-05-01.md"));
    assert!(!app.open_block_ref("blk-gone", &None));
    assert!(!app.status.is_empty());
}

#[test]
fn the_recent_pages_are_few_and_distinct() {
    let mut app = fresh_app();
    for i in 0..25 {
        app.touch_recent(&format!("p{i}"));
    }
    app.touch_recent("p24");
    app.touch_recent("p20");
    assert_eq!(app.recent_paths.len(), 20);
    assert_eq!(app.recent_paths[0], "p20");
    assert_eq!(app.recent_paths[1], "p24");
    assert_eq!(app.recent_paths.iter().filter(|p| *p == "p20").count(), 1);
}

#[test]
fn toasts_leave_in_time() {
    let mut app = fresh_app();
    app.toast(ToastKind::Info, "one");
    app.toast_for(ToastKind::Error, "two", 9000);
    app.now_ms = 2500;
    app.prune_toasts();
    assert_eq!(app.toasts.len(), 1);
    assert_eq!(app.toasts[0].message, "two");
}

#[test]
fn dev_plugin_command_shows_in_inline_slash_autocomplete() {
    let command = PluginCommand {
        plugin_id: "run.avelino.hello".to_string(),
        command_id: "say-hi".to_string(),
    };
    let all = slash_names(&vec!["run".to_string()], &vec![command.command_id.clone()]);
    let scored = all
        .iter()
        .filter(|n| n.starts_with("say"))
        .map(|n| Scored { score: 1, name: n.clone() })
        .collect();
    let cands = candidates_for_slash(all, scored, "say");
    assert!(cands.iter().any(|c| c == "say-hi"));
    let commands = vec![command];
    assert_eq!(
        find_plugin_command(&commands, &vec![], "say-hi"),
        Some(pair("run.avelino.hello", "say-hi"))
    );
    assert_eq!(find_plugin_command(&commands, &vec![], "not-a-command"), None);
}

#[test]
fn a_template_says_what_came_of_it() {
    let mut app = fresh_app();
    assert!(!app.template_target(true, true));
    assert_eq!(app.status, "template: no selected block");
    seed_single_block(&mut app, "here");
    assert!(!app.template_target(false, true));
    assert!(!app.template_target(true, false));
    assert_eq!(app.status, "template: could not resolve selected block");
    assert!(app.template_target(true, true));
    app.template_instantiated("daily", 1, None, None);
    assert_eq!(app.status, "instantiated template `daily` (1 block)");
    app.template_instantiated("daily", 2, Some("the file holds what no op has seen"), None);
    assert_eq!(
        app.status,
        "instantiated template `daily` (2 blocks), but the file holds what no op has seen"
    );
    app.template_instantiated("daily", 0, None, Some("no such template"));
    assert_eq!(app.status, "template failed: no such template");
    app.mode = Mode::Insert { buffer: EditBuffer::from_text("new"), block_path: vec![0] };
    assert!(app.commit_saves(true, "old"));
    assert!(!app.commit_saves(true, "new"));
    assert!(!app.commit_saves(false, "old"));
}

#[test]
fn folded_blocks_hide_what_is_below_them() {
    let mut app = fresh_app();
    let mut a = node("a");
    let mut a1 = node("a1");
    a1.children = vec![node("a1x")];
    a.children = vec![a1, node("a2")];
    let sidecar = vec![(10, false), (11, true), (12, false), (13, false), (14, true)];
    app.load_current(page(vec![a, node("b")], vec![]), "pages/a.md", &sidecar);
    assert_eq!(app.id_by_flat, vec![10, 11, 12, 13, 14]);
    assert_eq!(app.collapsed, HashSet::from([11, 14]));
    assert_eq!(app.hidden_by_collapse, vec![false, false, true, false, false]);
    app.collapsed = HashSet::from([10]);
    app.recompute_hidden_by_collapse();
    assert_eq!(app.hidden_by_collapse, vec![false, true, true, true, false]);
}

#[test]
fn a_run_is_reported() {
    let mut app = fresh_app();
    app.code_ran(&RunReport::Ran { language: "python".to_string(), millis: 12 });
    assert_eq!(app.status, "ran python in 12ms");
    assert!(app.overlay.is_none());
    app.code_ran(&RunReport::Failed {
        language: "python".to_string(),
        error: "no such name".to_string(),
    });
    match &app.overlay {
        Some(Overlay::Error(e)) => {
            assert_eq!(e.title, "python runtime error");
            assert_eq!(e.body, "no such name");
        }
        other => panic!("expected an error, got {other:?}"),
    }
    app.code_ran(&RunReport::NotRun { error: "no runtime".to_string() });
    match &app.overlay {
        Some(Overlay::Error(e)) => {
            assert_eq!(e.title, "run failed");
            assert_eq!(e.body, "no runtime");
        }
        other => panic!("expected an error, got {other:?}"),
    }
    assert_eq!(app.status, "ran python in 12ms");
    app.call_ran("weekly", 3, None);
    assert_eq!(app.status, "ran call:weekly (3ms)");
    app.call_ran("weekly", 3, Some("no template"));
    assert_eq!(app.status, "call: no template");
}

#[test]
fn a_code_block_stands_alone() {
    assert!(fence_lang_and_body("```rs\nlet x = 1;\n```\nand some prose").is_none());
    assert!(fence_lang_and_body("see:\n```rs\nlet x = 1;\n```").is_none());
    assert!(fence_lang_and_body("```rs\na\n```\n```rs\nb\n```").is_none());
    let (lang, body) = fence_lang_and_body("```rs\n```\n\n").unwrap();
    assert_eq!((lang.as_str(), body.as_str()), ("rs", ""));
}

#[test]
fn the_last_answer_for_a_block_is_shown() {
    let mut app = fresh_app();
    let answer = |content: &str, kind: &str| Transformed {
        block_id: 7,
        kind: kind.to_string(),
        content: content.to_string(),
    };
    app.recompute_transforms(&vec![
        answer("one", "text"),
        answer("two", "text"),
        answer("three", "rich"),
    ]);
    assert_eq!(transform_of(&app.transform_cache, 7).as_deref(), Some("two"));
    assert_eq!(transform_of(&app.transform_cache, 8), None);
}

#[test]
fn only_a_block_with_a_rule_is_snoozed() {
    let mut app = fresh_app();
    seed_single_block(&mut app, "call the bank");
    app.id_by_flat = vec![7];
    assert!(matches!(app.snooze_selected_block(), Effect::Nothing));
    assert!(app.toasts.is_empty());
    run_prop(&mut app, "Remind 9am");
    let asked = app.snooze_selected_block();
    assert!(matches!(asked, Effect::SnoozeReminder { block_id: 7, preset: 0 }));
}

#[test]
fn files_from_outside_wait_for_the_end_of_an_edit() {
    let mut app = fresh_app();
    assert!(!app.poll_orphan_md_updates(0));
    assert!(app.poll_orphan_md_updates(2));
    assert!(app.files_taken_in(1));
    assert!(!app.files_taken_in(0));
    app.mode = Mode::Visual { anchor: 0 };
    assert!(app.poll_orphan_md_updates(2));
}

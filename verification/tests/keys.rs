//! Keys: Normal mode, overlays, the bindings of plugins, and where a key
//! goes.

use outl_tui::autocomplete::AutocompleteKind;
use outl_tui::edit_buffer::EditBuffer;
use outl_tui::effect::Effect;
use outl_tui::event_loop::{EventLoop, Reply, Request, Stage};
use outl_tui::icons::TuiIconStyle;
use outl_tui::input::normal::{handle_normal_key, Action, NormalOutcome};
use outl_tui::input::overlay::handle_overlay_key;
use outl_tui::input::perform::Outcome;
use outl_tui::input::plugin_chord::PluginBinding;
use outl_tui::keys::{KeyCode, KeyEvent};
use outl_tui::outline::OutlineNode;
use outl_tui::runtime::{poll_timeout, route_key, Route};
use outl_tui::state::{
    App, CommandState, InsertCursor, Mode, Overlay, PropertiesState, PropertyField,
    PropertyScope, Screen,
};
use outl_tui::theme::default_dark;

fn fresh_app() -> App {
    let mut app = App::new(Screen::Journal(739_000), default_dark(), TuiIconStyle::Emoji, 0);
    app.page.blocks.push(OutlineNode {
        text: "ship it".to_string(),
        children: vec![],
        properties: vec![],
    });
    app.flat_len = 1;
    app
}

/// A key in Normal mode, with no plugins.
fn act(app: &mut App, key: KeyEvent) -> Action {
    match handle_normal_key(app, key, None, &vec![]) {
        NormalOutcome::Act(a) => a,
        other => panic!("{other:?}"),
    }
}

fn ch(c: char) -> KeyEvent {
    KeyEvent::plain(KeyCode::Char(c))
}

/// What `g` and another key do.
fn after_g(c: char) -> Action {
    let mut app = fresh_app();
    assert_eq!(act(&mut app, ch('g')), Action::Nothing);
    act(&mut app, ch(c))
}

#[test]
fn g_r_still_means_insert_remind() {
    assert_eq!(after_g('r'), Action::InsertRemind);
}

#[test]
fn g_shift_r_still_means_the_nag_preset() {
    assert_eq!(after_g('R'), Action::InsertRemindNag);
}

#[test]
fn g_n_still_opens_the_reminders_overlay() {
    assert_eq!(after_g('n'), Action::OpenReminders);
}

#[test]
fn g_s_still_snoozes_the_selected_block() {
    assert_eq!(after_g('s'), Action::SnoozeBlock);
}

#[test]
fn g_p_opens_the_property_editor() {
    assert_eq!(after_g('p'), Action::OpenProperties);
}

#[test]
fn g_shift_p_is_the_pin_toggle_that_g_p_displaced() {
    assert_eq!(after_g('P'), Action::TogglePinned);
}

#[test]
fn ctrl_p_is_still_the_quick_switcher_not_properties() {
    let mut app = fresh_app();
    assert_eq!(act(&mut app, KeyEvent::ctrl(KeyCode::Char('p'))), Action::OpenQuickSwitch);
}

#[test]
fn ctrl_r_is_still_redo_not_reminders() {
    let mut app = fresh_app();
    assert_eq!(act(&mut app, KeyEvent::ctrl(KeyCode::Char('r'))), Action::Redo);
}

#[test]
fn one_key_never_leaves_the_editor() {
    for c in ' '..='~' {
        let mut app = fresh_app();
        assert_ne!(act(&mut app, ch(c)), Action::Quit, "{c}");
    }
}

#[test]
fn the_help_takes_every_key() {
    let mut app = fresh_app();
    app.show_help = true;
    assert_eq!(act(&mut app, ch('d')), Action::Nothing);
    assert_eq!(act(&mut app, KeyEvent::plain(KeyCode::Tab)), Action::Nothing);
    assert_eq!(app.help_tab, 1);
    assert_eq!(app.page.blocks.len(), 1);
    assert!(app.pending_chord.is_none());
}

#[test]
fn a_key_waits_for_its_character() {
    let mut app = fresh_app();
    assert_eq!(act(&mut app, ch('r')), Action::Nothing);
    assert_eq!(act(&mut app, ch('x')), Action::ReplaceChar('x'));
    assert_eq!(act(&mut app, ch('f')), Action::Nothing);
    assert_eq!(act(&mut app, ch('j')), Action::FindCharForward('j'));
    assert_eq!(act(&mut app, ch('j')), Action::MoveSelection(1));
}

#[test]
fn keys_that_stand_alone_take_no_modifier() {
    let held = |c: char| KeyEvent { other: true, ..ch(c) };
    let mut app = fresh_app();
    assert_eq!(act(&mut app, ch('p')), Action::PasteFormatted);
    assert_eq!(act(&mut app, held('p')), Action::Nothing);
    assert_eq!(act(&mut app, ch('P')), Action::PastePlain);
    assert_eq!(act(&mut app, KeyEvent { shift: true, ..ch('P') }), Action::PastePlain);
    assert_eq!(act(&mut app, held('P')), Action::Nothing);
    assert_eq!(act(&mut app, ch('e')), Action::WordEnd);
    assert_eq!(act(&mut app, held('e')), Action::Nothing);
    assert_eq!(act(&mut app, KeyEvent::alt(KeyCode::Char('e'))), Action::Nothing);
    for c in ['r', 'f'] {
        assert_eq!(act(&mut app, held(c)), Action::Nothing);
        assert_eq!(app.pending_input_op, None);
    }
    let ctrl_held = KeyEvent { other: true, ..KeyEvent::ctrl(KeyCode::Char('r')) };
    assert_eq!(act(&mut app, ctrl_held), Action::Redo);
    assert_eq!(act(&mut app, held('j')), Action::MoveSelection(1));
}

#[test]
fn d_d_deletes_and_d_j_does_not() {
    let mut app = fresh_app();
    assert_eq!(act(&mut app, ch('d')), Action::Nothing);
    assert_eq!(act(&mut app, ch('d')), Action::DeleteBlock);
    assert_eq!(act(&mut app, ch('d')), Action::Nothing);
    assert_ne!(act(&mut app, ch('j')), Action::DeleteBlock);
}

// ---------------------------------------------------------------------
// The properties overlay
// ---------------------------------------------------------------------

/// Names of pages that the workspace has.
const PAGES: [&str; 2] = ["Avelino", "Zeta"];

/// Does what an effect asks for, with a workspace of those pages.
fn serve(app: &mut App, effect: Effect) {
    match effect {
        Effect::Candidates { kind, query } => {
            let found = PAGES
                .iter()
                .filter(|p| p.starts_with(query.as_str()))
                .map(|p| p.to_string())
                .collect();
            app.offer_candidates(kind, query, found, true);
        }
        Effect::OpenProperties { scope } => app.open_properties_scope(scope, 0),
        _ => {}
    }
}

fn press(app: &mut App, code: KeyCode) {
    let effect = handle_overlay_key(app, KeyEvent::plain(code));
    serve(app, effect);
}

fn type_str(app: &mut App, text: &str) {
    for c in text.chars() {
        press(app, KeyCode::Char(c));
    }
}

fn open_properties(app: &mut App) {
    let effect = app.open_properties();
    serve(app, effect);
}

fn state(app: &App) -> &PropertiesState {
    match &app.overlay {
        Some(Overlay::Properties(p)) => p,
        other => panic!("expected the properties overlay, got {other:?}"),
    }
}

#[test]
fn o_then_a_key_and_a_value_writes_the_property() {
    let mut app = fresh_app();
    open_properties(&mut app);
    press(&mut app, KeyCode::Char('o'));
    type_str(&mut app, "status");
    press(&mut app, KeyCode::Enter);
    type_str(&mut app, "shipped");
    press(&mut app, KeyCode::Enter);
    assert_eq!(app.property_on_current_block("status").as_deref(), Some("shipped"));
    assert_eq!(state(&app).rows, vec![("status".to_string(), "shipped".to_string())]);
}

#[test]
fn tab_completes_the_key_from_what_the_workspace_already_uses() {
    let mut app = fresh_app();
    open_properties(&mut app);
    press(&mut app, KeyCode::Char('o'));
    if let Some(Overlay::Properties(ref mut p)) = app.overlay {
        p.known_keys = vec!["related".to_string(), "remind".to_string()];
        if let Some(edit) = p.editing.as_mut() {
            edit.key_matches = p.known_keys.clone();
        }
    }
    press(&mut app, KeyCode::Tab);
    assert_eq!(state(&app).editing.as_ref().unwrap().key, "related");
    press(&mut app, KeyCode::Tab);
    assert_eq!(state(&app).editing.as_ref().unwrap().key, "remind");
}

#[test]
fn enter_on_a_row_edits_the_value_and_leaves_the_key_alone() {
    let mut app = fresh_app();
    app.set_property_on_current_block("status", "draft");
    open_properties(&mut app);
    press(&mut app, KeyCode::Enter);
    assert_eq!(state(&app).editing.as_ref().unwrap().field, PropertyField::Value);
    for _ in 0..5 {
        press(&mut app, KeyCode::Backspace);
    }
    type_str(&mut app, "shipped");
    press(&mut app, KeyCode::Enter);
    assert_eq!(app.property_on_current_block("status").as_deref(), Some("shipped"));
    assert_eq!(app.page.blocks[0].properties.len(), 1);
}

#[test]
fn dd_deletes_the_highlighted_property_and_a_single_d_does_not() {
    let mut app = fresh_app();
    app.set_property_on_current_block("status", "draft");
    open_properties(&mut app);
    press(&mut app, KeyCode::Char('d'));
    assert_eq!(app.property_on_current_block("status").as_deref(), Some("draft"));
    press(&mut app, KeyCode::Char('d'));
    assert_eq!(app.property_on_current_block("status"), None);
    assert!(state(&app).rows.is_empty());
}

#[test]
fn moving_the_cursor_disarms_a_pending_delete() {
    let mut app = fresh_app();
    app.set_property_on_current_block("status", "draft");
    app.set_property_on_current_block("icon", "🚀");
    open_properties(&mut app);
    press(&mut app, KeyCode::Char('d'));
    press(&mut app, KeyCode::Char('j'));
    press(&mut app, KeyCode::Char('d'));
    assert_eq!(app.page.blocks[0].properties.len(), 2, "nothing deleted");
}

#[test]
fn p_switches_to_the_pages_properties_and_writes_there() {
    let mut app = fresh_app();
    open_properties(&mut app);
    press(&mut app, KeyCode::Char('p'));
    assert_eq!(state(&app).scope, PropertyScope::Page);
    press(&mut app, KeyCode::Char('o'));
    type_str(&mut app, "icon");
    press(&mut app, KeyCode::Enter);
    type_str(&mut app, "🚀");
    press(&mut app, KeyCode::Enter);
    assert!(app.page.properties.iter().any(|(k, v)| k == "icon" && v == "🚀"));
    assert!(app.page.blocks[0].properties.is_empty());
}

#[test]
fn a_structural_page_key_is_refused_not_written() {
    let mut app = fresh_app();
    open_properties(&mut app);
    press(&mut app, KeyCode::Char('p'));
    press(&mut app, KeyCode::Char('o'));
    type_str(&mut app, "page-slug");
    press(&mut app, KeyCode::Enter);
    let s = state(&app);
    assert_eq!(s.editing.as_ref().unwrap().field, PropertyField::Key);
    assert!(s.message.as_deref().unwrap_or("").contains("defines the page"));
    assert!(app.page.properties.iter().all(|(k, _)| k != "page-slug"));
}

#[test]
fn a_key_with_no_value_typed_yet_is_refused_rather_than_written_empty() {
    let mut app = fresh_app();
    open_properties(&mut app);
    press(&mut app, KeyCode::Char('o'));
    press(&mut app, KeyCode::Enter);
    assert_eq!(state(&app).editing.as_ref().unwrap().field, PropertyField::Key);
    assert!(state(&app).message.as_deref().unwrap_or("").contains("cannot be empty"));
}

#[test]
fn two_open_brackets_in_the_value_fire_the_page_picker() {
    let mut app = fresh_app();
    open_properties(&mut app);
    press(&mut app, KeyCode::Char('o'));
    type_str(&mut app, "related");
    press(&mut app, KeyCode::Enter);
    type_str(&mut app, "[[Ave");
    let ac = app.autocomplete.as_ref().expect("the popup opens");
    assert_eq!(ac.kind, AutocompleteKind::PageRef);
    assert!(ac.candidates.iter().any(|c| c == "Avelino"));
    press(&mut app, KeyCode::Tab);
    assert!(app.autocomplete.is_none());
    assert_eq!(state(&app).editing.as_ref().unwrap().value, "[[Avelino]]");
}

#[test]
fn closing_the_overlay_takes_the_autocomplete_popup_with_it() {
    let mut app = fresh_app();
    open_properties(&mut app);
    press(&mut app, KeyCode::Char('o'));
    type_str(&mut app, "related");
    press(&mut app, KeyCode::Enter);
    type_str(&mut app, "[[Ave");
    assert!(app.autocomplete.is_some());
    press(&mut app, KeyCode::Esc);
    assert!(app.autocomplete.is_none());
    press(&mut app, KeyCode::Esc);
    assert!(state(&app).editing.is_none());
    press(&mut app, KeyCode::Esc);
    assert!(app.overlay.is_none());
    assert!(app.autocomplete.is_none());
}

#[test]
fn the_command_line_is_typed_and_run() {
    let mut app = fresh_app();
    app.overlay = Some(Overlay::Command(CommandState { buffer: String::new() }));
    type_str(&mut app, "pix");
    press(&mut app, KeyCode::Backspace);
    press(&mut app, KeyCode::Char('n'));
    let effect = handle_overlay_key(&mut app, KeyEvent::plain(KeyCode::Enter));
    assert!(matches!(effect, Effect::RunCommand { line } if line == "pin"));
    assert!(app.overlay.is_none());
}

// ---------------------------------------------------------------------
// Plugins
// ---------------------------------------------------------------------

fn binding(chord: Vec<KeyEvent>) -> Vec<PluginBinding> {
    vec![PluginBinding {
        plugin_id: "run.avelino.kb".to_string(),
        command_id: "mark".to_string(),
        chord,
    }]
}

/// The command that a key runs.
fn fired(app: &mut App, key: KeyEvent, bindings: &Vec<PluginBinding>) -> Option<String> {
    match handle_normal_key(app, key, Some(key), bindings) {
        NormalOutcome::Plugin { plugin_id, command_id } => {
            Some(format!("{plugin_id}/{command_id}"))
        }
        NormalOutcome::Act(_) => None,
    }
}

fn ctrl_g() -> KeyEvent {
    KeyEvent::ctrl(KeyCode::Char('g'))
}

#[test]
fn single_chord_plugin_binding_fires() {
    let mut app = fresh_app();
    let b = binding(vec![ctrl_g()]);
    assert_eq!(fired(&mut app, ctrl_g(), &b).as_deref(), Some("run.avelino.kb/mark"));
}

#[test]
fn function_keys_are_free_for_plugins() {
    let mut app = fresh_app();
    let b = binding(vec![KeyEvent::plain(KeyCode::F(5))]);
    let f5 = KeyEvent::plain(KeyCode::F(5));
    let f6 = KeyEvent::plain(KeyCode::F(6));
    assert_eq!(fired(&mut app, f6, &b), None);
    assert_eq!(fired(&mut app, f5, &b).as_deref(), Some("run.avelino.kb/mark"));
}

#[test]
fn a_key_that_bindings_cannot_spell_drops_the_pending_chord() {
    let mut app = fresh_app();
    let b = binding(vec![ctrl_g(), ch('a')]);
    assert_eq!(fired(&mut app, ctrl_g(), &b), None);
    assert!(app.pending_plugin_chord.is_some());
    let _ = handle_normal_key(&mut app, KeyEvent::plain(KeyCode::Other), None, &b);
    assert!(app.pending_plugin_chord.is_none());
}

#[test]
fn two_chord_plugin_binding_fires_on_completion() {
    let mut app = fresh_app();
    let b = binding(vec![ctrl_g(), ch('a')]);
    assert_eq!(fired(&mut app, ctrl_g(), &b), None);
    assert!(app.pending_plugin_chord.is_some());
    assert_eq!(fired(&mut app, ch('a'), &b).as_deref(), Some("run.avelino.kb/mark"));
    assert!(app.pending_plugin_chord.is_none());
}

#[test]
fn native_chord_is_not_stolen_as_a_plugin_prefix() {
    let mut app = fresh_app();
    let ctrl_t = KeyEvent::ctrl(KeyCode::Char('t'));
    let b = binding(vec![ctrl_t, ch('a')]);
    assert_eq!(fired(&mut app, ctrl_t, &b), None);
    assert!(app.pending_plugin_chord.is_none());
}

#[test]
fn plugin_never_shadows_a_native_chord() {
    let mut app = fresh_app();
    let b = binding(vec![ch('j')]);
    match handle_normal_key(&mut app, ch('j'), Some(ch('j')), &b) {
        NormalOutcome::Act(a) => assert_eq!(a, Action::MoveSelection(1)),
        other => panic!("{other:?}"),
    }
}

#[test]
fn abandoned_two_chord_prefix_falls_through_to_native() {
    let mut app = fresh_app();
    let b = binding(vec![ctrl_g(), ch('a')]);
    assert_eq!(fired(&mut app, ctrl_g(), &b), None);
    assert!(app.pending_plugin_chord.is_some());
    match handle_normal_key(&mut app, ch('k'), Some(ch('k')), &b) {
        NormalOutcome::Act(a) => assert_eq!(a, Action::MoveSelection(-1)),
        other => panic!("{other:?}"),
    }
    assert!(app.pending_plugin_chord.is_none());
}

#[test]
fn no_plugins_leaves_native_handling_untouched() {
    let mut app = fresh_app();
    match handle_normal_key(&mut app, ch('j'), Some(ch('j')), &vec![]) {
        NormalOutcome::Act(a) => assert_eq!(a, Action::MoveSelection(1)),
        other => panic!("{other:?}"),
    }
}

// ---------------------------------------------------------------------
// Where a key goes
// ---------------------------------------------------------------------

#[test]
fn ctrl_c_leaves_from_everywhere() {
    let ctrl_c = KeyEvent::ctrl(KeyCode::Char('c'));
    let mut app = fresh_app();
    assert!(matches!(route_key(&mut app, ctrl_c), Route::Quit { commit: false }));
    app.show_help = true;
    assert!(matches!(route_key(&mut app, ctrl_c), Route::Quit { .. }));
    app.show_help = false;
    app.overlay = Some(Overlay::Command(CommandState { buffer: String::new() }));
    assert!(matches!(route_key(&mut app, ctrl_c), Route::Quit { .. }));
}

#[test]
fn keys_go_to_what_is_on_top() {
    let mut app = fresh_app();
    assert!(matches!(route_key(&mut app, ch('j')), Route::Normal));
    assert!(matches!(
        route_key(&mut app, KeyEvent::ctrl(KeyCode::Char('s'))),
        Route::Save { commit: false }
    ));
    app.overlay = Some(Overlay::Command(CommandState { buffer: String::new() }));
    assert!(matches!(route_key(&mut app, ch('j')), Route::Overlay));
    app.overlay = None;
    app.enter_visual();
    assert!(matches!(route_key(&mut app, ch('j')), Route::Visual));
    assert_ne!(poll_timeout(true), poll_timeout(false));
}

// ---------------------------------------------------------------------
// What the actions do
// ---------------------------------------------------------------------

const TODAY: i32 = 739_004;

#[test]
fn keys_edit_the_block_under_the_cursor() {
    let mut app = fresh_app();
    let a = act(&mut app, ch('x'));
    assert!(matches!(app.perform(a, TODAY), Outcome::Done));
    assert_eq!(app.current_block_text(), "hip it");
    let a = act(&mut app, ch('C'));
    assert!(matches!(app.perform(a, TODAY), Outcome::Insert(InsertCursor::AtCursor)));
    assert_eq!(app.current_block_text(), "");
    assert!(app.dirty_since.is_some());
    assert_eq!(app.undo.len(), 2);
}

#[test]
fn keys_move_the_cursor() {
    let mut app = fresh_app();
    for (c, col) in [('$', 7), ('b', 5), ('0', 0), ('w', 5), ('h', 4)] {
        let a = act(&mut app, ch(c));
        assert!(matches!(app.perform(a, TODAY), Outcome::Done));
        assert_eq!(app.cursor_col, col, "{c}");
    }
    let a = act(&mut app, ch('A'));
    assert!(matches!(app.perform(a, TODAY), Outcome::Insert(InsertCursor::AtCursor)));
    assert_eq!(app.cursor_col, 7);
}

#[test]
fn keys_open_journals_and_toggle_tasks() {
    let mut app = fresh_app();
    let a = act(&mut app, ch(']'));
    assert!(matches!(app.perform(a, TODAY), Outcome::Load));
    assert!(matches!(app.screen, Screen::Journal(739_001)));
    let a = act(&mut app, ch('t'));
    assert!(matches!(app.perform(a, TODAY), Outcome::Load));
    assert!(matches!(app.screen, Screen::Journal(TODAY)));
    let a = act(&mut app, KeyEvent::ctrl(KeyCode::Char('t')));
    assert!(matches!(app.perform(a, TODAY), Outcome::Done));
    assert_eq!(app.current_block_text(), "TODO ship it");
    let a = after_g('p');
    assert!(matches!(
        app.perform(a, TODAY),
        Outcome::Ask(Effect::OpenProperties { scope: PropertyScope::Block })
    ));
    assert!(matches!(app.perform(Action::Undo, TODAY), Outcome::Outside(Action::Undo)));
    let word = app.perform(Action::SearchWord { forward: true }, TODAY);
    assert!(matches!(word, Outcome::Search { word, forward: true } if word == "TODO"));
}

// ---------------------------------------------------------------------
// The loop
// ---------------------------------------------------------------------

/// What the loop asks for until it waits.
fn turn(l: &mut EventLoop, app: &mut App, first: Reply) -> Vec<Request> {
    let mut asked = vec![l.step(app, first, false)];
    while !matches!(asked.last(), Some(Request::Wait { .. } | Request::Leave)) {
        let r = l.step(app, Reply::Done, false);
        asked.push(r);
    }
    asked
}

#[test]
fn a_turn_takes_in_the_news_before_it_draws() {
    let mut l = EventLoop::new();
    let mut app = fresh_app();
    assert_eq!(
        turn(&mut l, &mut app, Reply::Done),
        vec![
            Request::PollIndex,
            Request::PollBacklinkIndex,
            Request::PollPeers,
            Request::PollFiles,
            Request::Remind,
            Request::Draw,
            Request::Wait { ms: 750 },
        ]
    );
    app.save();
    let asked = turn(&mut l, &mut app, Reply::Nothing);
    assert_eq!(asked[0], Request::CheckDisk);
    assert_eq!(
        asked[7..],
        [Request::PeekInput, Request::Persist, Request::Wait { ms: 750 }]
    );
    assert!(app.dirty_since.is_none());
}

#[test]
fn an_edit_waits_for_keys_but_not_for_long() {
    let mut l = EventLoop::new();
    let mut app = fresh_app();
    app.save();
    let mut r = l.step(&mut app, Reply::Done, true);
    while r != Request::PeekInput {
        r = l.step(&mut app, Reply::Done, true);
    }
    assert_eq!(l.step(&mut app, Reply::InputWaits, true), Request::Wait { ms: 16 });
    assert!(app.dirty_since.is_some());
    app.now_ms = 600;
    l.stage = Stage::Peeked;
    assert_eq!(l.step(&mut app, Reply::InputWaits, true), Request::Persist);
}

#[test]
fn a_key_is_handed_on_once_the_page_is_up_to_date() {
    let mut l = EventLoop::new();
    let mut app = fresh_app();
    turn(&mut l, &mut app, Reply::Done);
    let asked = turn(&mut l, &mut app, Reply::Pressed { key: ch('j') });
    assert_eq!(asked[0], Request::CheckDisk);
    assert_eq!(asked[1], Request::NormalKey { key: ch('j') });
    assert_eq!(asked[2], Request::RunHooks);
    assert_eq!(asked[3], Request::PollIndex);
    let asked = turn(&mut l, &mut app, Reply::Pasted);
    assert_eq!(asked[0..2], [Request::CheckDisk, Request::Paste]);
    let asked = turn(&mut l, &mut app, Reply::MouseUsed);
    assert_eq!(asked[0..2], [Request::Mouse, Request::PollIndex]);
}

#[test]
fn quitting_never_drops_an_edit() {
    let mut l = EventLoop::new();
    let mut app = fresh_app();
    turn(&mut l, &mut app, Reply::Done);
    app.save();
    let ctrl_c = KeyEvent::ctrl(KeyCode::Char('c'));
    let asked = turn(&mut l, &mut app, Reply::Pressed { key: ctrl_c });
    assert_eq!(asked, vec![Request::CheckDisk, Request::Persist, Request::Leave]);
    let mut l = EventLoop::new();
    turn(&mut l, &mut app, Reply::Done);
    l.step(&mut app, Reply::Pressed { key: ch('q') }, false);
    assert_eq!(l.step(&mut app, Reply::Done, false), Request::NormalKey { key: ch('q') });
    app.save();
    assert_eq!(l.step(&mut app, Reply::Quits, false), Request::Persist);
    assert_eq!(l.step(&mut app, Reply::Done, false), Request::Leave);
}

#[test]
fn saving_and_refreshing_are_reported() {
    let mut l = EventLoop::new();
    let mut app = fresh_app();
    turn(&mut l, &mut app, Reply::Done);
    let ctrl_s = KeyEvent::ctrl(KeyCode::Char('s'));
    let asked = turn(&mut l, &mut app, Reply::Pressed { key: ctrl_s });
    assert_eq!(asked[0..2], [Request::CheckDisk, Request::Persist]);
    assert_eq!(app.toasts.last().map(|t| t.message.as_str()), Some("saved"));
    let ctrl_l = KeyEvent::ctrl(KeyCode::Char('l'));
    let asked = turn(&mut l, &mut app, Reply::Pressed { key: ctrl_l });
    assert_eq!(asked[1], Request::RefreshWorkspace);
    assert_eq!(app.status, "refreshed");
    app.mode = Mode::Insert { buffer: EditBuffer::from_text("x"), block_path: vec![0] };
    let asked = turn(&mut l, &mut app, Reply::Pressed { key: ctrl_s });
    assert_eq!(asked[1], Request::CommitInsert);
}

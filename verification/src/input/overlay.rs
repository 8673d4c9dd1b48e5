//! Keys while an overlay is open: all of them go to it.

use crate::actions::plugins::{
    edit_seed, is_switch, selected_field, settings_of, switched, write_ask, write_begun,
    SettingsValue,
};
use crate::actions::properties::{
    choice_taken, edit_begun, edit_written, key_completed, key_confirmed, moved_cursor, new_begun,
    opened, overlay_became, popped, props_of, pushed, same_but_overlay, selected_deleted,
    PropsValue,
};
use crate::actions::reminders::{reminders_of, RemindersValue};
use crate::effect::{Effect, EffectValue};
use crate::keys::{KeyCode, KeyEvent};
use crate::state::{
    App, AutocompleteState, CommandState, Overlay, PropertyField, PropertyScope,
    QuickSwitchState, SearchState, SlashState, TemplatePickerState,
};
use crate::text::{drop_last_char, shortened};
use crate::view::palette::{
    categories, next_shown_row, prev_shown_row, row_above, row_below, shown_order,
};
use vstd::prelude::*;

verus! {

/// What a key does in a list with a query.
pub enum PickerKey {
    Close,
    Accept,
    Up,
    Down,
    Erase,
    Type(char),
    Ignore,
}

/// What a key does in a list with a query.
pub open spec fn picker_key_of(code: KeyCode) -> PickerKey {
    match code {
        KeyCode::Esc => PickerKey::Close,
        KeyCode::Enter => PickerKey::Accept,
        KeyCode::Up => PickerKey::Up,
        KeyCode::Down => PickerKey::Down,
        KeyCode::Backspace => PickerKey::Erase,
        KeyCode::Char(c) => PickerKey::Type(c),
        _ => PickerKey::Ignore,
    }
}

/// What a key does in a list with a query.
pub fn picker_key(code: KeyCode) -> (r: PickerKey)
    ensures
        r == picker_key_of(code),
{
    match code {
        KeyCode::Esc => PickerKey::Close,
        KeyCode::Enter => PickerKey::Accept,
        KeyCode::Up => PickerKey::Up,
        KeyCode::Down => PickerKey::Down,
        KeyCode::Backspace => PickerKey::Erase,
        KeyCode::Char(c) => PickerKey::Type(c),
        _ => PickerKey::Ignore,
    }
}

/// One row up; the first stays.
pub open spec fn row_up(selected: usize) -> usize {
    if selected > 0 {
        (selected - 1) as usize
    } else {
        0
    }
}

/// One row down; the last stays.
pub open spec fn row_down(selected: usize, len: nat) -> usize {
    if selected + 1 < len {
        (selected + 1) as usize
    } else {
        selected
    }
}

fn up(selected: usize) -> (r: usize)
    ensures
        r == row_up(selected),
{
    if selected > 0 {
        selected - 1
    } else {
        0
    }
}

fn down(selected: usize, len: usize) -> (r: usize)
    ensures
        r == row_down(selected, len as nat),
{
    if selected < len && selected + 1 < len {
        selected + 1
    } else {
        selected
    }
}

/// A key in the quick switcher `q`.
pub open spec fn quick_switch_stepped(
    old: App,
    new: App,
    q: QuickSwitchState,
    code: KeyCode,
    r: EffectValue,
) -> bool {
    match picker_key_of(code) {
        PickerKey::Close => new == (App { overlay: None, ..old }) && r == EffectValue::Nothing,
        PickerKey::Accept => new == old && r == EffectValue::AcceptQuickSwitch,
        PickerKey::Up => {
            &&& new == App {
                overlay: Some(
                    Overlay::QuickSwitch(QuickSwitchState { selected: row_up(q.selected), ..q }),
                ),
                ..old
            }
            &&& r == EffectValue::Nothing
        },
        PickerKey::Down => {
            &&& new == App {
                overlay: Some(
                    Overlay::QuickSwitch(
                        QuickSwitchState {
                            selected: row_down(q.selected, q.candidates@.len()),
                            ..q
                        },
                    ),
                ),
                ..old
            }
            &&& r == EffectValue::Nothing
        },
        PickerKey::Erase => {
            &&& new == App { overlay: new.overlay, ..old }
            &&& new.overlay matches Some(Overlay::QuickSwitch(n))
            &&& n == QuickSwitchState { query: n.query, ..q }
            &&& n.query@ == shortened(q.query@)
            &&& r == EffectValue::RefreshQuickSwitch
        },
        PickerKey::Type(c) => {
            &&& new == App { overlay: new.overlay, ..old }
            &&& new.overlay matches Some(Overlay::QuickSwitch(n))
            &&& n == QuickSwitchState { query: n.query, ..q }
            &&& n.query@ == q.query@.push(c)
            &&& r == EffectValue::RefreshQuickSwitch
        },
        PickerKey::Ignore => new == old && r == EffectValue::Nothing,
    }
}

fn handle_quick_switch_key(app: &mut App, key: KeyEvent) -> (r: Effect)
    requires
        old(app).overlay matches Some(Overlay::QuickSwitch(_)),
    ensures
        quick_switch_stepped(
            *old(app),
            *final(app),
            old(app).overlay->0->QuickSwitch_0,
            key.code,
            r@,
        ),
{
    match picker_key(key.code) {
        PickerKey::Close => {
            app.overlay = None;
        },
        PickerKey::Accept => {
            return Effect::AcceptQuickSwitch;
        },
        PickerKey::Up => {
            if let Some(Overlay::QuickSwitch(q)) = &mut app.overlay {
                q.selected = up(q.selected);
            }
        },
        PickerKey::Down => {
            if let Some(Overlay::QuickSwitch(q)) = &mut app.overlay {
                q.selected = down(q.selected, q.candidates.len());
            }
        },
        PickerKey::Erase => {
            if let Some(Overlay::QuickSwitch(q)) = &mut app.overlay {
                q.query = drop_last_char(q.query.as_str());
            }
            return Effect::RefreshQuickSwitch;
        },
        PickerKey::Type(c) => {
            if let Some(Overlay::QuickSwitch(q)) = &mut app.overlay {
                q.query.push(c);
            }
            return Effect::RefreshQuickSwitch;
        },
        PickerKey::Ignore => {},
    }
    Effect::Nothing
}

/// A key in the search `s`.
pub open spec fn search_stepped(
    old: App,
    new: App,
    s: SearchState,
    code: KeyCode,
    r: EffectValue,
) -> bool {
    match picker_key_of(code) {
        PickerKey::Close => new == (App { overlay: None, ..old }) && r == EffectValue::Nothing,
        PickerKey::Accept => new == old && r == EffectValue::AcceptSearch,
        PickerKey::Up => {
            &&& new == App {
                overlay: Some(
                    Overlay::Search(SearchState { selected: row_up(s.selected), ..s }),
                ),
                ..old
            }
            &&& r == EffectValue::Nothing
        },
        PickerKey::Down => {
            &&& new == App {
                overlay: Some(
                    Overlay::Search(
                        SearchState { selected: row_down(s.selected, s.hits@.len()), ..s },
                    ),
                ),
                ..old
            }
            &&& r == EffectValue::Nothing
        },
        PickerKey::Erase => {
            &&& new == App { overlay: new.overlay, ..old }
            &&& new.overlay matches Some(Overlay::Search(n))
            &&& n == SearchState { query: n.query, ..s }
            &&& n.query@ == shortened(s.query@)
            &&& r == EffectValue::RefreshSearch
        },
        PickerKey::Type(c) => {
            &&& new == App { overlay: new.overlay, ..old }
            &&& new.overlay matches Some(Overlay::Search(n))
            &&& n == SearchState { query: n.query, ..s }
            &&& n.query@ == s.query@.push(c)
            &&& r == EffectValue::RefreshSearch
        },
        PickerKey::Ignore => new == old && r == EffectValue::Nothing,
    }
}

fn handle_search_overlay_key(app: &mut App, key: KeyEvent) -> (r: Effect)
    requires
        old(app).overlay matches Some(Overlay::Search(_)),
    ensures
        search_stepped(*old(app), *final(app), old(app).overlay->0->Search_0, key.code, r@),
{
    match picker_key(key.code) {
        PickerKey::Close => {
            app.overlay = None;
        },
        PickerKey::Accept => {
            return Effect::AcceptSearch;
        },
        PickerKey::Up => {
            if let Some(Overlay::Search(s)) = &mut app.overlay {
                s.selected = up(s.selected);
            }
        },
        PickerKey::Down => {
            if let Some(Overlay::Search(s)) = &mut app.overlay {
                s.selected = down(s.selected, s.hits.len());
            }
        },
        PickerKey::Erase => {
            if let Some(Overlay::Search(s)) = &mut app.overlay {
                s.query = drop_last_char(s.query.as_str());
            }
            return Effect::RefreshSearch;
        },
        PickerKey::Type(c) => {
            if let Some(Overlay::Search(s)) = &mut app.overlay {
                s.query.push(c);
            }
            return Effect::RefreshSearch;
        },
        PickerKey::Ignore => {},
    }
    Effect::Nothing
}

/// A key in the command line `s`.
pub open spec fn command_stepped(
    old: App,
    new: App,
    s: CommandState,
    code: KeyCode,
    r: EffectValue,
) -> bool {
    match picker_key_of(code) {
        PickerKey::Close => new == (App { overlay: None, ..old }) && r == EffectValue::Nothing,
        PickerKey::Accept => {
            &&& new == App { overlay: None, ..old }
            &&& r == EffectValue::RunCommand { line: s.buffer@ }
        },
        PickerKey::Erase => {
            &&& new == App { overlay: new.overlay, ..old }
            &&& new.overlay matches Some(Overlay::Command(n))
            &&& n.buffer@ == shortened(s.buffer@)
            &&& r == EffectValue::Nothing
        },
        PickerKey::Type(c) => {
            &&& new == App { overlay: new.overlay, ..old }
            &&& new.overlay matches Some(Overlay::Command(n))
            &&& n.buffer@ == s.buffer@.push(c)
            &&& r == EffectValue::Nothing
        },
        _ => new == old && r == EffectValue::Nothing,
    }
}

fn handle_command_overlay_key(app: &mut App, key: KeyEvent) -> (r: Effect)
    requires
        old(app).overlay matches Some(Overlay::Command(_)),
    ensures
        command_stepped(*old(app), *final(app), old(app).overlay->0->Command_0, key.code, r@),
{
    match picker_key(key.code) {
        PickerKey::Close => {
            app.overlay = None;
        },
        PickerKey::Accept => {
            let line = match &app.overlay {
                Some(Overlay::Command(s)) => s.buffer.clone(),
                _ => String::new(),
            };
            app.overlay = None;
            return Effect::RunCommand { line };
        },
        PickerKey::Erase => {
            if let Some(Overlay::Command(s)) = &mut app.overlay {
                s.buffer = drop_last_char(s.buffer.as_str());
            }
        },
        PickerKey::Type(c) => {
            if let Some(Overlay::Command(s)) = &mut app.overlay {
                s.buffer.push(c);
            }
        },
        _ => {},
    }
    Effect::Nothing
}

/// A key in the command palette `s`. It is walked in the order shown.
pub open spec fn slash_stepped(
    old: App,
    new: App,
    s: SlashState,
    code: KeyCode,
    r: EffectValue,
) -> bool {
    let order = shown_order(categories(s.candidates@));
    match picker_key_of(code) {
        PickerKey::Close => new == (App { overlay: None, ..old }) && r == EffectValue::Nothing,
        PickerKey::Accept => new == old && r == EffectValue::AcceptSlash,
        PickerKey::Up => {
            &&& new == App {
                overlay: Some(
                    Overlay::Slash(
                        SlashState { selected: prev_shown_row(order, s.selected), ..s },
                    ),
                ),
                ..old
            }
            &&& r == EffectValue::Nothing
        },
        PickerKey::Down => {
            &&& new == App {
                overlay: Some(
                    Overlay::Slash(
                        SlashState { selected: next_shown_row(order, s.selected), ..s },
                    ),
                ),
                ..old
            }
            &&& r == EffectValue::Nothing
        },
        PickerKey::Erase => {
            &&& new == App { overlay: new.overlay, ..old }
            &&& new.overlay matches Some(Overlay::Slash(n))
            &&& n == SlashState { query: n.query, ..s }
            &&& n.query@ == shortened(s.query@)
            &&& r == EffectValue::RefreshSlash
        },
        PickerKey::Type(c) => {
            &&& new == App { overlay: new.overlay, ..old }
            &&& new.overlay matches Some(Overlay::Slash(n))
            &&& n == SlashState { query: n.query, ..s }
            &&& n.query@ == s.query@.push(c)
            &&& r == EffectValue::RefreshSlash
        },
        PickerKey::Ignore => new == old && r == EffectValue::Nothing,
    }
}

fn handle_slash_overlay_key(app: &mut App, key: KeyEvent) -> (r: Effect)
    requires
        old(app).overlay matches Some(Overlay::Slash(_)),
    ensures
        slash_stepped(*old(app), *final(app), old(app).overlay->0->Slash_0, key.code, r@),
{
    match picker_key(key.code) {
        PickerKey::Close => {
            app.overlay = None;
        },
        PickerKey::Accept => {
            return Effect::AcceptSlash;
        },
        PickerKey::Up => {
            if let Some(Overlay::Slash(s)) = &mut app.overlay {
                s.selected = row_above(&s.candidates, s.selected);
            }
        },
        PickerKey::Down => {
            if let Some(Overlay::Slash(s)) = &mut app.overlay {
                s.selected = row_below(&s.candidates, s.selected);
            }
        },
        PickerKey::Erase => {
            if let Some(Overlay::Slash(s)) = &mut app.overlay {
                s.query = drop_last_char(s.query.as_str());
            }
            return Effect::RefreshSlash;
        },
        PickerKey::Type(c) => {
            if let Some(Overlay::Slash(s)) = &mut app.overlay {
                s.query.push(c);
            }
            return Effect::RefreshSlash;
        },
        PickerKey::Ignore => {},
    }
    Effect::Nothing
}

/// A key in the template picker `t`.
pub open spec fn templates_stepped(
    old: App,
    new: App,
    t: TemplatePickerState,
    code: KeyCode,
    r: EffectValue,
) -> bool {
    match picker_key_of(code) {
        PickerKey::Close => new == (App { overlay: None, ..old }) && r == EffectValue::Nothing,
        PickerKey::Accept => new == old && r == EffectValue::AcceptTemplate,
        PickerKey::Up => {
            &&& new == App {
                overlay: Some(
                    Overlay::TemplatePicker(
                        TemplatePickerState { selected: row_up(t.selected), ..t },
                    ),
                ),
                ..old
            }
            &&& r == EffectValue::Nothing
        },
        PickerKey::Down => {
            &&& new == App {
                overlay: Some(
                    Overlay::TemplatePicker(
                        TemplatePickerState {
                            selected: row_down(t.selected, t.filtered@.len()),
                            ..t
                        },
                    ),
                ),
                ..old
            }
            &&& r == EffectValue::Nothing
        },
        PickerKey::Erase => {
            &&& new == App { overlay: new.overlay, ..old }
            &&& new.overlay matches Some(Overlay::TemplatePicker(n))
            &&& n == TemplatePickerState { query: n.query, ..t }
            &&& n.query@ == shortened(t.query@)
            &&& r == EffectValue::RefreshTemplates
        },
        PickerKey::Type(c) => {
            &&& new == App { overlay: new.overlay, ..old }
            &&& new.overlay matches Some(Overlay::TemplatePicker(n))
            &&& n == TemplatePickerState { query: n.query, ..t }
            &&& n.query@ == t.query@.push(c)
            &&& r == EffectValue::RefreshTemplates
        },
        PickerKey::Ignore => new == old && r == EffectValue::Nothing,
    }
}

fn handle_template_picker_key(app: &mut App, key: KeyEvent) -> (r: Effect)
    requires
        old(app).overlay matches Some(Overlay::TemplatePicker(_)),
    ensures
        templates_stepped(
            *old(app),
            *final(app),
            old(app).overlay->0->TemplatePicker_0,
            key.code,
            r@,
        ),
{
    match picker_key(key.code) {
        PickerKey::Close => {
            app.overlay = None;
        },
        PickerKey::Accept => {
            return Effect::AcceptTemplate;
        },
        PickerKey::Up => {
            if let Some(Overlay::TemplatePicker(t)) = &mut app.overlay {
                t.selected = up(t.selected);
            }
        },
        PickerKey::Down => {
            if let Some(Overlay::TemplatePicker(t)) = &mut app.overlay {
                t.selected = down(t.selected, t.filtered.len());
            }
        },
        PickerKey::Erase => {
            if let Some(Overlay::TemplatePicker(t)) = &mut app.overlay {
                t.query = drop_last_char(t.query.as_str());
            }
            return Effect::RefreshTemplates;
        },
        PickerKey::Type(c) => {
            if let Some(Overlay::TemplatePicker(t)) = &mut app.overlay {
                t.query.push(c);
            }
            return Effect::RefreshTemplates;
        },
        PickerKey::Ignore => {},
    }
    Effect::Nothing
}

/// The preset by which a key of the reminders list puts a reminder off.
pub open spec fn snooze_of(code: KeyCode) -> Option<int> {
    match code {
        KeyCode::Char('s') => Some(0),
        KeyCode::Char('t') => Some(1),
        KeyCode::Char('w') => Some(2),
        _ => None,
    }
}

/// How far a key of a list moves its cursor: the arrows, and `j` and `k`.
pub open spec fn list_move(code: KeyCode) -> Option<int> {
    match code {
        KeyCode::Up => Some(-1),
        KeyCode::Char('k') => Some(-1),
        KeyCode::Down => Some(1),
        KeyCode::Char('j') => Some(1),
        _ => None,
    }
}

/// `Esc` and `q` close a list.
pub open spec fn closes_list(code: KeyCode) -> bool {
    code == KeyCode::Esc || code == KeyCode::Char('q')
}

/// A cursor moved in a list of `len` rows; it stops at both ends.
pub open spec fn moved_in(selected: int, delta: int, len: nat) -> int {
    if len == 0 {
        selected
    } else if selected + delta < 0 {
        0
    } else if selected + delta >= len {
        len - 1
    } else {
        selected + delta
    }
}

/// A key in the reminders list `v`.
pub open spec fn reminders_stepped(
    old: App,
    new: App,
    v: RemindersValue,
    code: KeyCode,
    r: EffectValue,
) -> bool {
    let row = 0 <= v.selected < v.all.len();
    if closes_list(code) {
        new == (App { overlay: None, ..old }) && r == EffectValue::Nothing
    } else if code == KeyCode::Enter {
        if row {
            &&& new == App { overlay: None, ..old }
            &&& r == EffectValue::OpenReminder { slug: v.all[v.selected].page_slug@ }
        } else {
            new == old && r == EffectValue::Nothing
        }
    } else if snooze_of(code) is Some {
        &&& new == old
        &&& r == if row {
            EffectValue::SnoozeReminder {
                block_id: v.all[v.selected].block_id,
                preset: snooze_of(code)->0,
            }
        } else {
            EffectValue::Nothing
        }
    } else {
        &&& r == EffectValue::Nothing
        &&& match list_move(code) {
            Some(d) => {
                &&& new == App { overlay: new.overlay, ..old }
                &&& reminders_of(new.overlay) == Some(
                    RemindersValue { selected: moved_in(v.selected, d, v.all.len()), ..v },
                )
            },
            None => new == old,
        }
    }
}

fn handle_reminders_key(app: &mut App, key: KeyEvent) -> (r: Effect)
    requires
        old(app).overlay matches Some(Overlay::Reminders(_)),
    ensures
        reminders_stepped(
            *old(app),
            *final(app),
            reminders_of(old(app).overlay)->0,
            key.code,
            r@,
        ),
{
    match key.code {
        KeyCode::Esc | KeyCode::Char('q') => {
            app.overlay = None;
        },
        KeyCode::Enter => {
            return app.open_selected_reminder();
        },
        KeyCode::Char('s') => {
            return app.snooze_selected_reminder(0);
        },
        KeyCode::Char('t') => {
            return app.snooze_selected_reminder(1);
        },
        KeyCode::Char('w') => {
            return app.snooze_selected_reminder(2);
        },
        KeyCode::Up | KeyCode::Char('k') => {
            app.move_reminders_cursor(-1);
        },
        KeyCode::Down | KeyCode::Char('j') => {
            app.move_reminders_cursor(1);
        },
        _ => {},
    }
    Effect::Nothing
}

/// Ctrl+C.
pub open spec fn is_quit(key: KeyEvent) -> bool {
    key.ctrl && key.code == KeyCode::Char('c')
}

/// A key that walks the completion popup.
pub open spec fn popup_key(code: KeyCode) -> bool {
    code == KeyCode::Esc || code == KeyCode::Enter || code == KeyCode::Tab || code == KeyCode::Up
        || code == KeyCode::Down
}

/// A key in the properties list `p` while nothing is being edited.
pub open spec fn properties_list_stepped(
    old: App,
    new: App,
    p: PropsValue,
    code: KeyCode,
    r: EffectValue,
) -> bool {
    if closes_list(code) {
        new == (App { overlay: None, autocomplete: None, ..old }) && r == EffectValue::Nothing
    } else if code == KeyCode::Enter {
        if p.selected < p.rows.len() {
            overlay_became(old, new, edit_begun(p), r)
        } else {
            &&& new == App { overlay: new.overlay, ..old }
            &&& props_of(new.overlay) == Some(edit_begun(p))
            &&& r == EffectValue::Nothing
        }
    } else {
        &&& r == EffectValue::Nothing
        &&& if code == KeyCode::Char('o') {
            &&& new == App { overlay: new.overlay, ..old }
            &&& props_of(new.overlay) == Some(new_begun(p))
        } else if code == KeyCode::Char('d') {
            if p.pending_delete {
                selected_deleted(old, new, p)
            } else {
                &&& new == App { overlay: new.overlay, ..old }
                &&& props_of(new.overlay) == Some(
                    PropsValue {
                        pending_delete: true,
                        message: Some("d again to delete"@),
                        ..p
                    },
                )
            }
        } else if code == KeyCode::Char('p') {
            &&& same_but_overlay(old, new)
            &&& new.autocomplete is None
            &&& props_of(new.overlay) == Some(
                opened(
                    old,
                    if p.scope == PropertyScope::Block {
                        PropertyScope::Page
                    } else {
                        PropertyScope::Block
                    },
                    0,
                ),
            )
        } else {
            match list_move(code) {
                Some(d) => {
                    &&& new == App { overlay: new.overlay, ..old }
                    &&& props_of(new.overlay) == Some(moved_cursor(p, d))
                },
                None => new == old,
            }
        }
    }
}

/// A key in the properties overlay `p` while the completion popup `a` is
/// open.
pub open spec fn popup_stepped(
    old: App,
    new: App,
    p: PropsValue,
    a: AutocompleteState,
    code: KeyCode,
    r: EffectValue,
) -> bool {
    &&& r == EffectValue::Nothing
    &&& match code {
        KeyCode::Esc => new == (App { autocomplete: None, ..old }),
        KeyCode::Up => new == (App {
            autocomplete: Some(AutocompleteState { selected: row_up(a.selected), ..a }),
            ..old
        }),
        KeyCode::Down => new == (App {
            autocomplete: Some(
                AutocompleteState { selected: row_down(a.selected, a.candidates@.len()), ..a },
            ),
            ..old
        }),
        _ => {
            &&& same_but_overlay(old, new)
            &&& new.autocomplete is None
            &&& props_of(new.overlay) == Some(choice_taken(p, a@))
        },
    }
}

/// A key in the properties overlay `p` while a property is being edited and
/// no popup takes it.
pub open spec fn properties_edit_stepped(
    old: App,
    new: App,
    p: PropsValue,
    key: KeyEvent,
    r: EffectValue,
) -> bool {
    let e = p.editing->0;
    match key.code {
        KeyCode::Esc => {
            &&& same_but_overlay(old, new)
            &&& new.autocomplete is None
            &&& props_of(new.overlay) == Some(PropsValue { editing: None, message: None, ..p })
            &&& r == EffectValue::Nothing
        },
        KeyCode::Enter => if e.field == PropertyField::Value {
            edit_written(old, new, p, e) && r == EffectValue::Nothing
        } else if key_confirmed(p).message is None {
            overlay_became(old, new, key_confirmed(p), r)
        } else {
            &&& new == App { overlay: new.overlay, ..old }
            &&& props_of(new.overlay) == Some(key_confirmed(p))
            &&& r == EffectValue::Nothing
        },
        KeyCode::Tab => {
            &&& new == App { overlay: new.overlay, ..old }
            &&& props_of(new.overlay) == Some(key_completed(p))
            &&& r == EffectValue::Nothing
        },
        KeyCode::Backspace => overlay_became(old, new, popped(p), r),
        KeyCode::Char(c) => if key.ctrl {
            new == old && r == EffectValue::Nothing
        } else {
            overlay_became(old, new, pushed(p, c), r)
        },
        _ => new == old && r == EffectValue::Nothing,
    }
}

/// A key in the properties overlay `p`.
pub open spec fn properties_stepped(
    old: App,
    new: App,
    p: PropsValue,
    key: KeyEvent,
    r: EffectValue,
) -> bool {
    if is_quit(key) {
        new == old && r == EffectValue::Quit
    } else if p.editing is None {
        properties_list_stepped(old, new, p, key.code, r)
    } else if old.autocomplete is Some && popup_key(key.code) {
        popup_stepped(old, new, p, old.autocomplete->0, key.code, r)
    } else {
        properties_edit_stepped(old, new, p, key, r)
    }
}

fn quits(key: KeyEvent) -> (r: bool)
    ensures
        r == is_quit(key),
{
    key.ctrl && key.code == KeyCode::Char('c')
}

fn handle_property_list(app: &mut App, key: KeyEvent) -> (r: Effect)
    requires
        old(app).wf(),
        old(app).overlay matches Some(Overlay::Properties(p)) && p.editing is None,
    ensures
        properties_list_stepped(
            *old(app),
            *final(app),
            props_of(old(app).overlay)->0,
            key.code,
            r@,
        ),
        final(app).wf(),
{
    match key.code {
        KeyCode::Esc | KeyCode::Char('q') => {
            app.close_properties();
        },
        KeyCode::Up | KeyCode::Char('k') => {
            app.properties_move(-1);
        },
        KeyCode::Down | KeyCode::Char('j') => {
            app.properties_move(1);
        },
        KeyCode::Enter => {
            return app.properties_begin_edit();
        },
        KeyCode::Char('o') => {
            app.properties_begin_new();
        },
        KeyCode::Char('d') => {
            app.properties_pending_delete();
        },
        KeyCode::Char('p') => {
            app.toggle_properties_scope();
        },
        _ => {},
    }
    Effect::Nothing
}

fn handle_property_popup(app: &mut App, key: KeyEvent) -> (r: Effect)
    requires
        old(app).wf(),
        old(app).overlay matches Some(Overlay::Properties(p)) && p.editing is Some,
        old(app).autocomplete is Some,
        popup_key(key.code),
    ensures
        popup_stepped(
            *old(app),
            *final(app),
            props_of(old(app).overlay)->0,
            old(app).autocomplete->0,
            key.code,
            r@,
        ),
        final(app).wf(),
{
    match key.code {
        KeyCode::Enter | KeyCode::Tab => {
            app.accept_property_value_completion();
        },
        KeyCode::Up => {
            if let Some(a) = &mut app.autocomplete {
                a.selected = up(a.selected);
            }
        },
        KeyCode::Down => {
            if let Some(a) = &mut app.autocomplete {
                a.selected = down(a.selected, a.candidates.len());
            }
        },
        _ => {
            app.autocomplete = None;
        },
    }
    Effect::Nothing
}

fn handle_property_edit(app: &mut App, key: KeyEvent) -> (r: Effect)
    requires
        old(app).wf(),
        old(app).overlay matches Some(Overlay::Properties(p)) && p.editing is Some,
    ensures
        properties_edit_stepped(*old(app), *final(app), props_of(old(app).overlay)->0, key, r@),
        final(app).wf(),
{
    match key.code {
        KeyCode::Esc => {
            app.properties_cancel_edit();
            Effect::Nothing
        },
        KeyCode::Enter => app.properties_advance_or_commit(),
        KeyCode::Tab => {
            app.properties_complete_key();
            Effect::Nothing
        },
        KeyCode::Backspace => app.properties_edit_backspace(),
        KeyCode::Char(c) => {
            if key.ctrl {
                Effect::Nothing
            } else {
                app.properties_edit_push(c)
            }
        },
        _ => Effect::Nothing,
    }
}

fn walks_popup(code: KeyCode) -> (r: bool)
    ensures
        r == popup_key(code),
{
    match code {
        KeyCode::Esc | KeyCode::Enter | KeyCode::Tab | KeyCode::Up | KeyCode::Down => true,
        _ => false,
    }
}

fn handle_properties_key(app: &mut App, key: KeyEvent) -> (r: Effect)
    requires
        old(app).wf(),
        old(app).overlay matches Some(Overlay::Properties(_)),
    ensures
        properties_stepped(*old(app), *final(app), props_of(old(app).overlay)->0, key, r@),
        final(app).wf(),
{
    if quits(key) {
        return Effect::Quit;
    }
    let editing = match &app.overlay {
        Some(Overlay::Properties(p)) => p.editing.is_some(),
        _ => false,
    };
    if !editing {
        handle_property_list(app, key)
    } else if app.autocomplete.is_some() && walks_popup(key.code) {
        handle_property_popup(app, key)
    } else {
        handle_property_edit(app, key)
    }
}

/// A key in the plugin settings `s`.
pub open spec fn settings_stepped(
    old: App,
    new: App,
    s: SettingsValue,
    key: KeyEvent,
    r: EffectValue,
) -> bool {
    if is_quit(key) {
        new == old && r == EffectValue::Quit
    } else if s.editing is Some {
        let t = s.editing->0;
        &&& new == App { overlay: new.overlay, ..old }
        &&& match key.code {
            KeyCode::Esc => {
                &&& settings_of(new.overlay) == Some(SettingsValue { editing: None, ..s })
                &&& r == EffectValue::Nothing
            },
            KeyCode::Enter => match selected_field(s) {
                Some((e, f)) => {
                    &&& settings_of(new.overlay) == Some(
                        SettingsValue { editing: None, ..write_begun(s, e, f, t) },
                    )
                    &&& r == write_ask(s, e, f, t)
                },
                None => settings_of(new.overlay) == Some(s) && r == EffectValue::Nothing,
            },
            KeyCode::Backspace => {
                &&& settings_of(new.overlay) == Some(
                    SettingsValue { editing: Some(shortened(t)), ..s },
                )
                &&& r == EffectValue::Nothing
            },
            KeyCode::Char(c) => {
                &&& settings_of(new.overlay) == if key.ctrl {
                    Some(s)
                } else {
                    Some(SettingsValue { editing: Some(t.push(c)), ..s })
                }
                &&& r == EffectValue::Nothing
            },
            _ => settings_of(new.overlay) == Some(s) && r == EffectValue::Nothing,
        }
    } else {
        match key.code {
            KeyCode::Esc => new == (App { overlay: None, ..old }) && r == EffectValue::Nothing,
            KeyCode::Enter => {
                &&& new == App { overlay: new.overlay, ..old }
                &&& match selected_field(s) {
                    Some((e, f)) => {
                        let field = s.entries[e as int].fields[f as int];
                        if is_switch(field) {
                            &&& r == write_ask(s, e, f, switched(field))
                            &&& settings_of(new.overlay) == Some(
                                write_begun(s, e, f, switched(field)),
                            )
                        } else {
                            &&& r == EffectValue::Nothing
                            &&& settings_of(new.overlay) == Some(
                                SettingsValue {
                                    editing: Some(edit_seed(field)),
                                    message: None,
                                    ..s
                                },
                            )
                        }
                    },
                    None => settings_of(new.overlay) == Some(s) && r == EffectValue::Nothing,
                }
            },
            KeyCode::Up => {
                &&& new == App { overlay: new.overlay, ..old }
                &&& settings_of(new.overlay) == Some(
                    SettingsValue { selected: moved_in(s.selected, -1, s.rows.len()), ..s },
                )
                &&& r == EffectValue::Nothing
            },
            KeyCode::Down => {
                &&& new == App { overlay: new.overlay, ..old }
                &&& settings_of(new.overlay) == Some(
                    SettingsValue { selected: moved_in(s.selected, 1, s.rows.len()), ..s },
                )
                &&& r == EffectValue::Nothing
            },
            _ => new == old && r == EffectValue::Nothing,
        }
    }
}

fn handle_plugin_settings_key(app: &mut App, key: KeyEvent) -> (r: Effect)
    requires
        old(app).overlay matches Some(Overlay::PluginSettings(_)),
    ensures
        settings_stepped(*old(app), *final(app), settings_of(old(app).overlay)->0, key, r@),
{
    if quits(key) {
        return Effect::Quit;
    }
    let editing = match &app.overlay {
        Some(Overlay::PluginSettings(s)) => s.editing.is_some(),
        _ => false,
    };
    if editing {
        match key.code {
            KeyCode::Esc => {
                app.plugin_settings_cancel_edit();
            },
            KeyCode::Enter => {
                return app.plugin_settings_commit_edit();
            },
            KeyCode::Backspace => {
                app.plugin_settings_edit_backspace();
            },
            KeyCode::Char(c) => {
                if !key.ctrl {
                    app.plugin_settings_edit_push(c);
                }
            },
            _ => {},
        }
    } else {
        match key.code {
            KeyCode::Esc => {
                app.overlay = None;
            },
            KeyCode::Up => {
                app.plugin_settings_move(-1);
            },
            KeyCode::Down => {
                app.plugin_settings_move(1);
            },
            KeyCode::Enter => {
                return app.plugin_settings_activate();
            },
            _ => {},
        }
    }
    Effect::Nothing
}

/// A key while an overlay is open.
pub open spec fn overlay_stepped(old: App, new: App, key: KeyEvent, r: EffectValue) -> bool {
    match old.overlay {
        Some(Overlay::QuickSwitch(q)) => quick_switch_stepped(old, new, q, key.code, r),
        Some(Overlay::Search(s)) => search_stepped(old, new, s, key.code, r),
        Some(Overlay::Command(s)) => command_stepped(old, new, s, key.code, r),
        Some(Overlay::Slash(s)) => slash_stepped(old, new, s, key.code, r),
        Some(Overlay::TemplatePicker(t)) => templates_stepped(old, new, t, key.code, r),
        Some(Overlay::Reminders(v)) => reminders_stepped(
            old,
            new,
            reminders_of(old.overlay)->0,
            key.code,
            r,
        ),
        Some(Overlay::PluginSettings(s)) => settings_stepped(old, new, s@, key, r),
        Some(Overlay::Properties(p)) => properties_stepped(old, new, p@, key, r),
        Some(Overlay::Error(_)) => if is_quit(key) {
            new == old && r == EffectValue::Quit
        } else {
            new == (App { overlay: None, ..old }) && r == EffectValue::Nothing
        },
        None => new == old && r == EffectValue::Nothing,
    }
}

/// Hands a key to the overlay that is open. An error is closed by any key.
pub fn handle_overlay_key(app: &mut App, key: KeyEvent) -> (r: Effect)
    requires
        old(app).wf(),
    ensures
        overlay_stepped(*old(app), *final(app), key, r@),
        final(app).wf(),
{
    match &app.overlay {
        Some(Overlay::QuickSwitch(_)) => handle_quick_switch_key(app, key),
        Some(Overlay::Search(_)) => handle_search_overlay_key(app, key),
        Some(Overlay::Command(_)) => handle_command_overlay_key(app, key),
        Some(Overlay::Slash(_)) => handle_slash_overlay_key(app, key),
        Some(Overlay::TemplatePicker(_)) => handle_template_picker_key(app, key),
        Some(Overlay::Reminders(_)) => handle_reminders_key(app, key),
        Some(Overlay::PluginSettings(_)) => handle_plugin_settings_key(app, key),
        Some(Overlay::Properties(_)) => handle_properties_key(app, key),
        Some(Overlay::Error(_)) => {
            if quits(key) {
                Effect::Quit
            } else {
                app.overlay = None;
                Effect::Nothing
            }
        },
        None => Effect::Nothing,
    }
}

// ---------------------------------------------------------------------
// Laws
// ---------------------------------------------------------------------

/// In the list of properties only a `d` right after a `d` changes the page:
/// any other key leaves it as it is, and moving takes the first `d` back.
pub proof fn law_only_a_second_d_deletes(
    old: App,
    new: App,
    p: PropsValue,
    code: KeyCode,
    r: EffectValue,
)
    requires
        properties_list_stepped(old, new, p, code, r),
        !(code == KeyCode::Char('d') && p.pending_delete),
    ensures
        new.page == old.page,
        new.undo == old.undo,
        list_move(code) is Some && !closes_list(code) ==> (props_of(new.overlay) matches Some(q)
            && !q.pending_delete),
{
}

/// Rows are stepped through one by one, a step back undoes a step on, and the
/// first and the last row end the list.
pub proof fn law_rows_step_both_ways(selected: usize, len: nat)
    requires
        selected < len <= usize::MAX,
    ensures
        selected + 1 < len ==> row_down(selected, len) == selected + 1 && row_up(
            row_down(selected, len),
        ) == selected,
        selected > 0 ==> row_up(selected) == selected - 1 && row_down(row_up(selected), len)
            == selected,
        row_up(selected) < len && row_down(selected, len) < len,
        selected + 1 == len ==> row_down(selected, len) == selected,
        row_up(0) == 0,
{
}

/// In a list the letters do what the arrows do, and a step stays in the list.
pub proof fn law_lists_step_both_ways(selected: int, len: nat)
    requires
        0 <= selected < len,
    ensures
        list_move(KeyCode::Char('j')) == Some(1int) && list_move(KeyCode::Down) == Some(1int),
        list_move(KeyCode::Char('k')) == Some(-1int) && list_move(KeyCode::Up) == Some(-1int),
        0 <= moved_in(selected, 1, len) < len && 0 <= moved_in(selected, -1, len) < len,
        selected + 1 < len ==> moved_in(moved_in(selected, 1, len), -1, len) == selected,
        selected > 0 ==> moved_in(moved_in(selected, -1, len), 1, len) == selected,
        moved_in(selected, 1, len) >= selected && moved_in(selected, -1, len) <= selected,
        selected + 1 < len ==> moved_in(selected, 1, len) != selected,
{
}

/// Erasing takes back the character typed last, in every field that is typed
/// into.
pub proof fn law_erasing_takes_typing_back(a: App, b: App, c: App, ch: char, key: KeyEvent, back: KeyEvent, r: EffectValue, s: EffectValue)
    requires
        key.code == KeyCode::Char(ch),
        back.code == KeyCode::Backspace,
        overlay_stepped(a, b, key, r),
        overlay_stepped(b, c, back, s),
    ensures
        a.overlay matches Some(Overlay::QuickSwitch(q)) ==> (c.overlay matches Some(
            Overlay::QuickSwitch(n),
        ) && n.query@ == q.query@ && n.selected == q.selected && n.candidates == q.candidates),
        a.overlay matches Some(Overlay::Search(q)) ==> (c.overlay matches Some(Overlay::Search(n))
            && n.query@ == q.query@ && n.selected == q.selected && n.hits == q.hits),
        a.overlay matches Some(Overlay::Slash(q)) ==> (c.overlay matches Some(Overlay::Slash(n))
            && n.query@ == q.query@ && n.selected == q.selected && n.candidates == q.candidates),
        a.overlay matches Some(Overlay::TemplatePicker(q)) ==> (c.overlay matches Some(
            Overlay::TemplatePicker(n),
        ) && n.query@ == q.query@ && n.selected == q.selected && n.filtered == q.filtered),
        a.overlay matches Some(Overlay::Command(q)) ==> (c.overlay matches Some(
            Overlay::Command(n),
        ) && n.buffer@ == q.buffer@),
{
    match a.overlay {
        Some(Overlay::QuickSwitch(q)) => {
            assert(q.query@.push(ch).drop_last() =~= q.query@);
        },
        Some(Overlay::Search(q)) => {
            assert(q.query@.push(ch).drop_last() =~= q.query@);
        },
        Some(Overlay::Slash(q)) => {
            assert(q.query@.push(ch).drop_last() =~= q.query@);
        },
        Some(Overlay::TemplatePicker(q)) => {
            assert(q.query@.push(ch).drop_last() =~= q.query@);
        },
        Some(Overlay::Command(q)) => {
            assert(q.buffer@.push(ch).drop_last() =~= q.buffer@);
        },
        _ => {},
    }
}

/// Escape closes what lies over the page, or first the field that is edited in
/// it.
pub proof fn law_escape_closes(old: App, new: App, key: KeyEvent, r: EffectValue)
    requires
        key.code == KeyCode::Esc,
        overlay_stepped(old, new, key, r),
    ensures
        r == EffectValue::Nothing,
        new.page == old.page,
        !(old.overlay matches Some(Overlay::PluginSettings(s)) && s@.editing is Some) && !(
        old.overlay matches Some(Overlay::Properties(p)) && p@.editing is Some)
            ==> new.overlay is None,
        (old.overlay matches Some(Overlay::PluginSettings(s)) && s@.editing is Some) ==> (
        settings_of(new.overlay) matches Some(t) && t.editing is None),
        (old.overlay matches Some(Overlay::Properties(p)) && p@.editing is Some
            && old.autocomplete is None) ==> (props_of(new.overlay) matches Some(q)
            && q.editing is None),
{
}

/// But for the editor of properties, nothing that lies over the page changes
/// it, nor what can be taken back.
pub proof fn law_overlays_leave_the_page_alone(old: App, new: App, key: KeyEvent, r: EffectValue)
    requires
        overlay_stepped(old, new, key, r),
        !(old.overlay matches Some(Overlay::Properties(_))),
    ensures
        new.page == old.page,
        new.undo == old.undo,
        new.selected == old.selected,
        new.mode == old.mode,
        new.dirty_since == old.dirty_since,
{
}

/// Enter asks for what is chosen or typed, and other keys do not.
pub proof fn law_enter_accepts(old: App, new: App, key: KeyEvent, r: EffectValue)
    requires
        overlay_stepped(old, new, key, r),
    ensures
        (old.overlay matches Some(Overlay::QuickSwitch(_))) ==> (r
            == EffectValue::AcceptQuickSwitch <==> key.code == KeyCode::Enter),
        (old.overlay matches Some(Overlay::Search(_))) ==> (r == EffectValue::AcceptSearch
            <==> key.code == KeyCode::Enter),
        (old.overlay matches Some(Overlay::Slash(_))) ==> (r == EffectValue::AcceptSlash
            <==> key.code == KeyCode::Enter),
        (old.overlay matches Some(Overlay::TemplatePicker(_))) ==> (r
            == EffectValue::AcceptTemplate <==> key.code == KeyCode::Enter),
        old.overlay matches Some(Overlay::Command(c)) ==> (r is RunCommand <==> key.code
            == KeyCode::Enter) && (key.code == KeyCode::Enter ==> r
            == (EffectValue::RunCommand { line: c.buffer@ }) && new.overlay is None),
{
}

/// In the list of reminders a key is meant for the one under the cursor, and
/// the three times to put it off by have a key each.
pub proof fn law_the_chosen_reminder_is_meant(
    old: App,
    new: App,
    v: RemindersValue,
    code: KeyCode,
    r: EffectValue,
)
    requires
        reminders_stepped(old, new, v, code, r),
        0 <= v.selected < v.all.len(),
    ensures
        r matches EffectValue::OpenReminder { slug } ==> slug == v.all[v.selected].page_slug@
            && code == KeyCode::Enter && new.overlay is None,
        r matches EffectValue::SnoozeReminder { block_id, preset } ==> block_id
            == v.all[v.selected].block_id && 0 <= preset < 3 && new == old,
        code == KeyCode::Enter ==> r is OpenReminder,
        code == KeyCode::Char('s') || code == KeyCode::Char('t') || code == KeyCode::Char('w')
            ==> r is SnoozeReminder,
        snooze_of(KeyCode::Char('s')) == Some(0int) && snooze_of(KeyCode::Char('t')) == Some(1int)
            && snooze_of(KeyCode::Char('w')) == Some(2int),
{
}

/// One key goes between the properties of the block and of the page, and back.
pub proof fn law_p_changes_the_scope(
    old: App,
    new: App,
    p: PropsValue,
    r: EffectValue,
)
    requires
        properties_list_stepped(old, new, p, KeyCode::Char('p'), r),
    ensures
        props_of(new.overlay) matches Some(q) && q.scope != p.scope && q.selected == 0,
        new.page == old.page,
{
}

} // verus!

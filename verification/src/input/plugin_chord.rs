//! Key bindings of plugins. They apply in Normal mode only, and never to a
//! key that the editor itself uses there.

use crate::input::normal::{armed_chord, armed_op, key_action, Action};
use crate::keys::{KeyCode, KeyEvent};
use crate::state::App;
use vstd::prelude::*;

verus! {

/// A plugin's binding: one chord, or two in a row, for a command.
#[derive(Debug)]
pub struct PluginBinding {
    pub plugin_id: String,
    pub command_id: String,
    pub chord: Vec<KeyEvent>,
}

/// What the bindings of plugins make of a key.
#[derive(Debug)]
pub enum PluginStep {
    /// Nothing: the key is the editor's.
    Pass,
    /// It is the first chord of a binding of two.
    Armed,
    /// It runs a command.
    Fire { plugin_id: String, command_id: String },
}

/// What the bindings of plugins make of a key, as a value: the binding that
/// it runs is given by its place.
pub ghost enum PluginStepValue {
    Pass,
    Armed,
    Fire(int),
}

/// Letters that the editor uses with Ctrl.
pub open spec fn native_ctrl(c: char) -> bool {
    c == 't' || c == 'd' || c == 'u' || c == 'r' || c == 'p' || c == 'b' || c == 'e' || c == 'o'
        || c == 'T' || c == 'D' || c == 'U' || c == 'R' || c == 'P' || c == 'B' || c == 'E' || c
        == 'O'
}

/// Characters that the editor uses by themselves.
pub open spec fn native_char(c: char) -> bool {
    c == 'q' || c == 'Z' || c == '?' || c == 't' || c == '[' || c == ']' || c == 'g' || c == 'z'
        || c == 'd' || c == 'y' || c == 'c' || c == 'p' || c == 'P' || c == 'i' || c == 'I' || c
        == 'a' || c == 'A' || c == 'o' || c == 'O' || c == 'x' || c == 'X' || c == 'D' || c == 'C'
        || c == 'S' || c == 's' || c == 'r' || c == 'f' || c == 'F' || c == '~' || c == 'Y' || c
        == 'e' || c == '*' || c == '#' || c == 'j' || c == 'k' || c == 'J' || c == 'K' || c == 'G'
        || c == 'h' || c == 'l' || c == '0' || c == '$' || c == 'b' || c == 'B' || c == 'w' || c
        == 'u' || c == 'n' || c == 'N' || c == 'V' || c == '/' || c == ':' || c == 'E'
}

/// The editor itself uses this key in Normal mode. With Ctrl or Alt it uses
/// only those it says; all others are free for plugins.
pub open spec fn is_native(key: KeyEvent) -> bool {
    if key.ctrl {
        match key.code {
            KeyCode::Char(c) => native_ctrl(c),
            KeyCode::Enter => true,
            _ => false,
        }
    } else if key.alt {
        key.code == KeyCode::Up || key.code == KeyCode::Down
    } else {
        match key.code {
            KeyCode::Char(c) => native_char(c),
            KeyCode::Enter => true,
            KeyCode::Tab => true,
            KeyCode::BackTab => true,
            KeyCode::Up => true,
            KeyCode::Down => true,
            KeyCode::Left => true,
            KeyCode::Right => true,
            KeyCode::PageUp => true,
            KeyCode::PageDown => true,
            KeyCode::Home => true,
            KeyCode::End => true,
            _ => false,
        }
    }
}

/// Whether the editor itself uses this key in Normal mode.
pub fn native_normal_chord(key: KeyEvent) -> (r: bool)
    ensures
        r == is_native(key),
{
    if key.ctrl {
        match key.code {
            KeyCode::Char(
                't' | 'd' | 'u' | 'r' | 'p' | 'b' | 'e' | 'o' | 'T' | 'D' | 'U' | 'R' | 'P' | 'B'
                | 'E' | 'O',
            ) => true,
            KeyCode::Enter => true,
            _ => false,
        }
    } else if key.alt {
        match key.code {
            KeyCode::Up | KeyCode::Down => true,
            _ => false,
        }
    } else {
        match key.code {
            KeyCode::Char(
                'q' | 'Z' | '?' | 't' | '[' | ']' | 'g' | 'z' | 'd' | 'y' | 'c' | 'p' | 'P' | 'i'
                | 'I' | 'a' | 'A' | 'o' | 'O' | 'x' | 'X' | 'D' | 'C' | 'S' | 's' | 'r' | 'f'
                | 'F' | '~' | 'Y' | 'e' | '*' | '#' | 'j' | 'k' | 'J' | 'K' | 'G' | 'h' | 'l'
                | '0' | '$' | 'b' | 'B' | 'w' | 'u' | 'n' | 'N' | 'V' | '/' | ':' | 'E',
            ) => true,
            KeyCode::Enter | KeyCode::Tab | KeyCode::BackTab | KeyCode::Up | KeyCode::Down
            | KeyCode::Left | KeyCode::Right | KeyCode::PageUp | KeyCode::PageDown
            | KeyCode::Home | KeyCode::End => true,
            _ => false,
        }
    }
}

/// A binding is made of exactly these chords.
pub open spec fn bound_to(b: PluginBinding, chord: Seq<KeyEvent>) -> bool {
    b.chord@ == chord
}

/// The first binding made of exactly these chords, at or after `k`.
pub open spec fn first_bound(v: Seq<PluginBinding>, chord: Seq<KeyEvent>, k: int) -> Option<int>
    decreases v.len() - k,
{
    if k >= v.len() {
        None
    } else if bound_to(v[k], chord) {
        Some(k)
    } else {
        first_bound(v, chord, k + 1)
    }
}

/// Some binding of two chords begins with this one.
pub open spec fn begins_pair(v: Seq<PluginBinding>, chord: KeyEvent) -> bool {
    exists|k: int|
        0 <= k < v.len() && (#[trigger] v[k]).chord@.len() == 2 && v[k].chord@[0] == chord
}

/// What the bindings of plugins make of a key. `chord` is the key as bindings
/// spell it, where they can. A binding of two chords that this key completes
/// comes first; else the editor's own keys are not theirs.
pub open spec fn plugin_step(
    pending: Option<KeyEvent>,
    key: KeyEvent,
    chord: Option<KeyEvent>,
    v: Seq<PluginBinding>,
) -> PluginStepValue {
    match chord {
        None => PluginStepValue::Pass,
        Some(this) => {
            let completed = match pending {
                Some(first) => first_bound(v, seq![first, this], 0),
                None => None,
            };
            match completed {
                Some(k) => PluginStepValue::Fire(k),
                None => if is_native(key) {
                    PluginStepValue::Pass
                } else {
                    match first_bound(v, seq![this], 0) {
                        Some(k) => PluginStepValue::Fire(k),
                        None => if begins_pair(v, this) {
                            PluginStepValue::Armed
                        } else {
                            PluginStepValue::Pass
                        },
                    }
                },
            }
        },
    }
}

/// A step as a value.
pub open spec fn step_is(r: PluginStep, s: PluginStepValue, v: Seq<PluginBinding>) -> bool {
    match s {
        PluginStepValue::Pass => r is Pass,
        PluginStepValue::Armed => r is Armed,
        PluginStepValue::Fire(k) => {
            &&& r matches PluginStep::Fire { plugin_id, command_id }
            &&& plugin_id@ == v[k].plugin_id@
            &&& command_id@ == v[k].command_id@
        },
    }
}

fn find_pair(v: &Vec<PluginBinding>, first: KeyEvent, second: KeyEvent) -> (r: Option<usize>)
    ensures
        match r {
            Some(k) => k < v@.len() && first_bound(v@, seq![first, second], 0) == Some(k as int),
            None => first_bound(v@, seq![first, second], 0) is None,
        },
{
    let mut k: usize = 0;
    while k < v.len()
        invariant
            k <= v@.len(),
            first_bound(v@, seq![first, second], 0) == first_bound(
                v@,
                seq![first, second],
                k as int,
            ),
        decreases v@.len() - k,
    {
        let c = &v[k].chord;
        if c.len() == 2 && c[0] == first && c[1] == second {
            assert(c@ =~= seq![first, second]);
            return Some(k);
        }
        k += 1;
    }
    None
}

fn find_single(v: &Vec<PluginBinding>, chord: KeyEvent) -> (r: Option<usize>)
    ensures
        match r {
            Some(k) => k < v@.len() && first_bound(v@, seq![chord], 0) == Some(k as int),
            None => first_bound(v@, seq![chord], 0) is None,
        },
{
    let mut k: usize = 0;
    while k < v.len()
        invariant
            k <= v@.len(),
            first_bound(v@, seq![chord], 0) == first_bound(v@, seq![chord], k as int),
        decreases v@.len() - k,
    {
        let c = &v[k].chord;
        if c.len() == 1 && c[0] == chord {
            assert(c@ =~= seq![chord]);
            return Some(k);
        }
        k += 1;
    }
    None
}

fn opens_pair(v: &Vec<PluginBinding>, chord: KeyEvent) -> (r: bool)
    ensures
        r == begins_pair(v@, chord),
{
    let mut k: usize = 0;
    while k < v.len()
        invariant
            k <= v@.len(),
            forall|j: int|
                0 <= j < k ==> !((#[trigger] v@[j]).chord@.len() == 2 && v@[j].chord@[0] == chord),
        decreases v@.len() - k,
    {
        if v[k].chord.len() == 2 && v[k].chord[0] == chord {
            return true;
        }
        k += 1;
    }
    false
}

/// Hands a key to the bindings of plugins. A first chord that was waiting is
/// forgotten, unless this key is the first of another pair.
pub fn try_plugin_binding(
    app: &mut App,
    key: KeyEvent,
    chord: Option<KeyEvent>,
    bindings: &Vec<PluginBinding>,
) -> (r: PluginStep)
    ensures
        step_is(
            r,
            plugin_step(old(app).pending_plugin_chord, key, chord, bindings@),
            bindings@,
        ),
        if r is Armed {
            &&& *final(app) == (App {
                pending_plugin_chord: chord,
                status: final(app).status,
                ..*old(app)
            })
            &&& final(app).status@ == "plugin chord…"@
        } else {
            *final(app) == (App { pending_plugin_chord: None, ..*old(app) })
        },
{
    let pending = app.pending_plugin_chord;
    app.pending_plugin_chord = None;
    let this = match chord {
        Some(c) => c,
        None => {
            return PluginStep::Pass;
        },
    };
    if let Some(first) = pending {
        if let Some(k) = find_pair(bindings, first, this) {
            return PluginStep::Fire {
                plugin_id: bindings[k].plugin_id.clone(),
                command_id: bindings[k].command_id.clone(),
            };
        }
    }
    if native_normal_chord(key) {
        return PluginStep::Pass;
    }
    if let Some(k) = find_single(bindings, this) {
        return PluginStep::Fire {
            plugin_id: bindings[k].plugin_id.clone(),
            command_id: bindings[k].command_id.clone(),
        };
    }
    if opens_pair(bindings, this) {
        app.pending_plugin_chord = Some(this);
        app.status = "plugin chord…".to_owned();
        return PluginStep::Armed;
    }
    PluginStep::Pass
}

/// A key that the editor uses is never taken by a plugin, unless the user has
/// begun one of its bindings of two chords.
pub proof fn law_plugins_never_shadow(
    key: KeyEvent,
    chord: Option<KeyEvent>,
    v: Seq<PluginBinding>,
)
    requires
        is_native(key),
    ensures
        plugin_step(None, key, chord, v) == PluginStepValue::Pass,
{
}

/// A key that completes no binding still does what it does by itself.
pub proof fn law_abandoned_prefix_falls_through(
    first: KeyEvent,
    key: KeyEvent,
    this: KeyEvent,
    v: Seq<PluginBinding>,
)
    requires
        first_bound(v, seq![first, this], 0) is None,
    ensures
        plugin_step(Some(first), key, Some(this), v) == plugin_step(None, key, Some(this), v),
{
}

proof fn lemma_first_bound(v: Seq<PluginBinding>, chord: Seq<KeyEvent>, k: int)
    requires
        0 <= k <= v.len(),
    ensures
        match first_bound(v, chord, k) {
            Some(i) => k <= i < v.len() && v[i].chord@ == chord && forall|j: int|
                k <= j < i ==> (#[trigger] v[j]).chord@ != chord,
            None => forall|j: int| k <= j < v.len() ==> (#[trigger] v[j]).chord@ != chord,
        },
    decreases v.len() - k,
{
    if k < v.len() {
        lemma_first_bound(v, chord, k + 1);
    }
}

/// What fires is bound to the key, or to the key that waits and this one, and
/// is the first that is bound so.
pub proof fn law_a_binding_fires_on_its_keys(
    pending: Option<KeyEvent>,
    key: KeyEvent,
    this: KeyEvent,
    v: Seq<PluginBinding>,
)
    ensures
        match plugin_step(pending, key, Some(this), v) {
            PluginStepValue::Fire(k) => {
                &&& 0 <= k < v.len()
                &&& v[k].chord@ == seq![this] || (pending is Some && v[k].chord@ == seq![
                    pending->0,
                    this,
                ])
                &&& forall|j: int| 0 <= j < k ==> (#[trigger] v[j]).chord@ != v[k].chord@
            },
            PluginStepValue::Armed => exists|j: int|
                0 <= j < v.len() && (#[trigger] v[j]).chord@.len() == 2 && v[j].chord@[0] == this,
            PluginStepValue::Pass => true,
        },
{
    lemma_first_bound(v, seq![this], 0);
    if pending is Some {
        lemma_first_bound(v, seq![pending->0, this], 0);
    }
}

/// Two keys that are bound fire after each other; one that is bound fires at
/// once, unless it has a meaning of its own; and the first of two waits.
pub proof fn law_bound_keys_fire(
    first: KeyEvent,
    key: KeyEvent,
    this: KeyEvent,
    v: Seq<PluginBinding>,
    k: int,
)
    requires
        0 <= k < v.len(),
    ensures
        v[k].chord@ == seq![first, this] ==> plugin_step(Some(first), key, Some(this), v) is Fire,
        v[k].chord@ == seq![this] && !is_native(key) ==> plugin_step(None, key, Some(this), v)
            is Fire,
        v[k].chord@.len() == 2 && v[k].chord@[0] == this && !is_native(key) ==> plugin_step(
            None,
            key,
            Some(this),
            v,
        ) != PluginStepValue::Pass,
{
    lemma_first_bound(v, seq![this], 0);
    lemma_first_bound(v, seq![first, this], 0);
}

/// Every key that means something in the page is kept from the plugins.
pub proof fn law_keys_with_a_meaning_are_kept(key: KeyEvent, height: u16, sidebar: bool)
    requires
        !key.alt,
        !key.ctrl,
        key_action(key, height, sidebar) != Action::Nothing || armed_chord(key) is Some || armed_op(
            key,
        ) is Some || key.code == KeyCode::Char('?'),
    ensures
        is_native(key),
{
}

/// A key with control that means something else than without it is kept from
/// the plugins.
pub proof fn law_control_keys_with_a_meaning_are_kept(key: KeyEvent, height: u16, sidebar: bool)
    requires
        key.ctrl,
        key_action(key, height, sidebar) != key_action(
            KeyEvent { ctrl: false, ..key },
            height,
            sidebar,
        ),
    ensures
        is_native(key),
{
}

} // verus!

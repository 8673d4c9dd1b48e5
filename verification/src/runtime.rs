//! Starting the editor, and what its loop does with each key.

use crate::icons::TuiIconStyle;
use crate::keys::{KeyCode, KeyEvent};
use crate::state::{fresh, toast_value, toasts_view, App, Mode, Screen, ToastKind};
use crate::text::{cat3, opt_text, same_text};
use crate::theme::{by_name, default_theme, norm_name, preset_of, theme_of, Palettes, Preset, Theme};
use vstd::prelude::*;

verus! {

// ---------------------------------------------------------------------
// Starting
// ---------------------------------------------------------------------

/// The string that a configuration has at a key of a section.
pub uninterp spec fn config_entry(text: Seq<char>, section: Seq<char>, key: Seq<char>) -> Option<
    Seq<char>,
>;

/// `toml::from_str` into a `toml::Value`, and `get` and `as_str` on it: the
/// string at a key of a section. A text that is no TOML, or has something
/// else there, has none.
#[verifier::external_body]
fn config_string(text: &str, section: &str, key: &str) -> (r: Option<String>)
    ensures
        opt_text(r) == config_entry(text@, section@, key@),
{
    let v = toml::from_str::<toml::Value>(text).ok()?;
    Some(v.get(section)?.get(key)?.as_str()?.to_string())
}

/// The theme of a name.
pub open spec fn theme_named(name: Option<Seq<char>>, all: Palettes) -> Option<Theme> {
    match name {
        Some(n) => match preset_of(norm_name(n)) {
            Some(p) => Some(theme_of(p, all)),
            None => None,
        },
        None => None,
    }
}

/// The first of three themes that there is, or the default one.
pub open spec fn first_theme(
    a: Option<Theme>,
    b: Option<Theme>,
    c: Option<Theme>,
    all: Palettes,
) -> Theme {
    match a {
        Some(t) => t,
        None => match b {
            Some(t) => t,
            None => match c {
                Some(t) => t,
                None => theme_of(Preset::Outl, all),
            },
        },
    }
}

/// The theme for the names that may choose one: that of the command line,
/// that of the workspace, and that of the user. A name that no theme has is
/// passed over.
pub fn choose_theme(
    over: Option<&str>,
    workspace: Option<&str>,
    global: &str,
    all: &Palettes,
) -> (t: Theme)
    ensures
        t == first_theme(
            theme_named(
                match over {
                    Some(n) => Some(n@),
                    None => None,
                },
                *all,
            ),
            theme_named(
                match workspace {
                    Some(n) => Some(n@),
                    None => None,
                },
                *all,
            ),
            theme_named(Some(global@), *all),
            *all,
        ),
{
    if let Some(n) = over {
        if let Some(t) = by_name(n, all) {
            return t;
        }
    }
    if let Some(n) = workspace {
        if let Some(t) = by_name(n, all) {
            return t;
        }
    }
    if let Some(t) = by_name(global, all) {
        return t;
    }
    default_theme(all)
}

/// The theme for a workspace with this configuration.
pub open spec fn resolved_theme(
    over: Option<Seq<char>>,
    config: Seq<char>,
    global: Seq<char>,
    all: Palettes,
) -> Theme {
    first_theme(
        theme_named(over, all),
        theme_named(config_entry(config, "theme"@, "preset"@), all),
        theme_named(Some(global), all),
        all,
    )
}

/// The theme for a workspace with this configuration.
pub fn resolve_theme(over: Option<&str>, config: &str, global: &str, all: &Palettes) -> (t: Theme)
    ensures
        t == resolved_theme(
            match over {
                Some(n) => Some(n@),
                None => None,
            },
            config@,
            global@,
            *all,
        ),
{
    let preset = config_string(config, "theme", "preset");
    match &preset {
        Some(p) => choose_theme(over, Some(p.as_str()), global, all),
        None => choose_theme(over, None, global, all),
    }
}

/// A workspace is shared unless its configuration names a storage other than
/// the one that can be.
pub open spec fn is_shared(storage: Option<Seq<char>>) -> bool {
    match storage {
        Some(s) => s == "jsonl"@,
        None => true,
    }
}

/// Whether a workspace with this configuration is shared.
pub fn shared_workspace(config: &str) -> (r: bool)
    ensures
        r == is_shared(config_entry(config@, "workspace"@, "storage"@)),
{
    match config_string(config, "workspace", "storage") {
        Some(s) => same_text(s.as_str(), "jsonl"),
        None => true,
    }
}

/// What the editor is started with.
pub struct Boot {
    pub root: String,
    /// There is a terminal to draw on.
    pub is_tty: bool,
    /// There is a workspace at the root.
    pub has_workspace: bool,
    /// The configuration of the workspace; a file that cannot be read is
    /// empty.
    pub config: String,
    /// The theme that the user chose for all workspaces.
    pub global_preset: String,
    pub icon_style: TuiIconStyle,
    pub backlinks_newest_first: bool,
    pub palettes: Palettes,
    pub today: i32,
    pub now_ms: u64,
}

/// Why the editor does not start.
#[derive(Debug)]
pub enum StartError {
    NotATerminal,
    NoWorkspace { root: String },
}

/// What is said of it.
pub open spec fn start_message(e: StartError) -> Seq<char> {
    match e {
        StartError::NotATerminal => {
            "outl-tui requires an interactive terminal (stdout is not a TTY)"@
        },
        StartError::NoWorkspace { root } => "no outl workspace at "@ + root@
            + " — run `outl init` first"@,
    }
}

impl StartError {
    /// What is said of it.
    pub fn message(&self) -> (r: String)
        ensures
            r@ == start_message(*self),
    {
        match self {
            StartError::NotATerminal => {
                "outl-tui requires an interactive terminal (stdout is not a TTY)".to_owned()
            },
            StartError::NoWorkspace { root } => cat3(
                "no outl workspace at ",
                root.as_str(),
                " — run `outl init` first",
            ),
        }
    }
}

/// An editor that has been started.
pub struct Session {
    pub app: App,
    /// Peers write to the workspace too.
    pub shared: bool,
}

/// `r` is what starting gives: an editor on today's journal, or the first
/// reason why there is none.
pub open spec fn started(boot: Boot, over: Option<Seq<char>>, r: Result<Session, StartError>) -> bool {
    if !boot.is_tty {
        r matches Err(StartError::NotATerminal)
    } else if !boot.has_workspace {
        r matches Err(StartError::NoWorkspace { root }) && root@ == boot.root@
    } else {
        &&& r matches Ok(s)
        &&& s.shared == is_shared(config_entry(boot.config@, "workspace"@, "storage"@))
        &&& fresh(
            s.app,
            Screen::Journal(boot.today),
            resolved_theme(over, boot.config@, boot.global_preset@, boot.palettes),
            boot.icon_style,
            boot.now_ms,
        )
        &&& s.app.backlinks_newest_first == boot.backlinks_newest_first
        &&& s.app.wf()
    }
}

/// Starts the editor, with the theme that the configuration chooses.
pub fn run(boot: Boot) -> (r: Result<Session, StartError>)
    ensures
        started(boot, None, r),
{
    run_with_theme_override(boot, None)
}

/// Starts the editor, with a theme named on the command line.
pub fn run_with_theme_override(boot: Boot, over: Option<&str>) -> (r: Result<Session, StartError>)
    ensures
        started(
            boot,
            match over {
                Some(n) => Some(n@),
                None => None,
            },
            r,
        ),
{
    if !boot.is_tty {
        return Err(StartError::NotATerminal);
    }
    if !boot.has_workspace {
        return Err(StartError::NoWorkspace { root: boot.root });
    }
    let theme = resolve_theme(
        over,
        boot.config.as_str(),
        boot.global_preset.as_str(),
        &boot.palettes,
    );
    let shared = shared_workspace(boot.config.as_str());
    let mut app = App::new(Screen::Journal(boot.today), theme, boot.icon_style, boot.now_ms);
    app.backlinks_newest_first = boot.backlinks_newest_first;
    Ok(Session { app, shared })
}

// ---------------------------------------------------------------------
// The loop
// ---------------------------------------------------------------------

/// How long the loop waits for a key, in milliseconds.
pub const POLL_INTERVAL_MS: u64 = 750;

/// How long it waits while an index is being built.
pub const POLL_INTERVAL_PENDING_INDEX_MS: u64 = 16;

/// How long the loop waits for a key.
pub open spec fn wait_for(index_pending: bool) -> u64 {
    if index_pending {
        POLL_INTERVAL_PENDING_INDEX_MS
    } else {
        POLL_INTERVAL_MS
    }
}

/// How long the loop waits for a key.
pub fn poll_timeout(index_pending: bool) -> (ms: u64)
    ensures
        ms == wait_for(index_pending),
{
    if index_pending {
        POLL_INTERVAL_PENDING_INDEX_MS
    } else {
        POLL_INTERVAL_MS
    }
}

/// Where a key goes.
#[derive(Clone, Copy, PartialEq, Eq, Structural, Debug)]
pub enum Route {
    /// The editor is left: the edit is committed, if there is one, and
    /// written.
    Quit { commit: bool },
    /// The key closed the help.
    HelpClosed,
    /// The page is written now: the edit is committed, or else the page
    /// marked as changed.
    Save { commit: bool },
    /// The workspace is read again, after the edit is committed.
    Refresh { commit: bool },
    Overlay,
    Normal,
    Insert,
    Visual,
}

/// Ctrl with a letter.
pub open spec fn ctrl_letter(key: KeyEvent, c: char) -> bool {
    key.ctrl && key.code == KeyCode::Char(c)
}

/// A key that closes the help.
pub open spec fn closes_help(code: KeyCode) -> bool {
    code == KeyCode::Esc || code == KeyCode::Char('?') || code == KeyCode::Char('q')
}

/// Where a key goes: some keys do the same everywhere; else an overlay takes
/// it, and then the mode.
pub open spec fn route_of(app: App, key: KeyEvent) -> Route {
    let editing = app.mode is Insert;
    if ctrl_letter(key, 'c') {
        Route::Quit { commit: editing }
    } else if app.show_help && closes_help(key.code) {
        Route::HelpClosed
    } else if ctrl_letter(key, 's') {
        Route::Save { commit: editing }
    } else if ctrl_letter(key, 'l') {
        Route::Refresh { commit: editing }
    } else if app.overlay is Some {
        Route::Overlay
    } else {
        match app.mode {
            Mode::Normal => Route::Normal,
            Mode::Insert { .. } => Route::Insert,
            Mode::Visual { .. } => Route::Visual,
        }
    }
}

/// Where a key goes. Closing the help is done here.
pub fn route_key(app: &mut App, key: KeyEvent) -> (r: Route)
    ensures
        r == route_of(*old(app), key),
        *final(app) == if r == Route::HelpClosed {
            App { show_help: false, help_scroll: 0, ..*old(app) }
        } else {
            *old(app)
        },
{
    let editing = match &app.mode {
        Mode::Insert { .. } => true,
        _ => false,
    };
    if key.ctrl && key.code == KeyCode::Char('c') {
        return Route::Quit { commit: editing };
    }
    if app.show_help {
        match key.code {
            KeyCode::Esc | KeyCode::Char('?') | KeyCode::Char('q') => {
                app.show_help = false;
                app.help_scroll = 0;
                return Route::HelpClosed;
            },
            _ => {},
        }
    }
    if key.ctrl && key.code == KeyCode::Char('s') {
        return Route::Save { commit: editing };
    }
    if key.ctrl && key.code == KeyCode::Char('l') {
        return Route::Refresh { commit: editing };
    }
    if app.overlay.is_some() {
        return Route::Overlay;
    }
    match &app.mode {
        Mode::Normal => Route::Normal,
        Mode::Insert { .. } => Route::Insert,
        Mode::Visual { .. } => Route::Visual,
    }
}

impl App {
    /// Says that the page was written.
    pub fn saved(&mut self)
        ensures
            *final(self) == (App { toasts: final(self).toasts, ..*old(self) }),
            toasts_view(final(self).toasts@) == toasts_view(old(self).toasts@).push(
                toast_value(*old(self), ToastKind::Success, "saved"@),
            ),
    {
        self.toast(ToastKind::Success, "saved");
    }

    /// Says that the workspace was read again.
    pub fn refreshed(&mut self)
        ensures
            *final(self) == (App { status: final(self).status, ..*old(self) }),
            final(self).status@ == "refreshed"@,
    {
        self.status = "refreshed".to_owned();
    }
}

// ---------------------------------------------------------------------
// Laws
// ---------------------------------------------------------------------

/// The theme named on the command line wins, whatever is configured.
pub proof fn law_override_wins(
    over: Seq<char>,
    config: Seq<char>,
    global: Seq<char>,
    all: Palettes,
)
    requires
        preset_of(norm_name(over)) is Some,
    ensures
        resolved_theme(Some(over), config, global, all) == theme_of(
            preset_of(norm_name(over))->0,
            all,
        ),
{
}

/// Names that no theme has change nothing: with three of them the default
/// theme is shown.
pub proof fn law_unknown_names_are_passed_over(
    over: Seq<char>,
    config: Seq<char>,
    global: Seq<char>,
    all: Palettes,
)
    requires
        preset_of(norm_name(over)) is None,
    ensures
        resolved_theme(Some(over), config, global, all) == resolved_theme(
            None,
            config,
            global,
            all,
        ),
        theme_named(config_entry(config, "theme"@, "preset"@), all) is None && preset_of(
            norm_name(global),
        ) is None ==> resolved_theme(Some(over), config, global, all) == theme_of(
            Preset::Outl,
            all,
        ),
{
}

/// Ctrl+C leaves the editor from everywhere.
pub proof fn law_ctrl_c_always_quits(app: App, key: KeyEvent)
    requires
        key.ctrl,
        key.code == KeyCode::Char('c'),
    ensures
        route_of(app, key) == (Route::Quit { commit: app.mode is Insert }),
{
}

/// An overlay takes the keys before the mode does, and the mode gets the rest;
/// saving and refreshing work everywhere, and the help closes by its keys.
pub proof fn law_keys_go_where_they_are_due(app: App, key: KeyEvent)
    requires
        !(key.ctrl && (key.code == KeyCode::Char('c') || key.code == KeyCode::Char('s') || key.code
            == KeyCode::Char('l'))),
        !(app.show_help && (key.code == KeyCode::Esc || key.code == KeyCode::Char('?') || key.code
            == KeyCode::Char('q'))),
    ensures
        app.overlay is Some ==> route_of(app, key) == Route::Overlay,
        app.overlay is None && app.mode is Normal ==> route_of(app, key) == Route::Normal,
        app.overlay is None && app.mode is Insert ==> route_of(app, key) == Route::Insert,
        app.overlay is None && app.mode is Visual ==> route_of(app, key) == Route::Visual,
{
}

/// Saving and refreshing finish what is typed first, whatever lies over the
/// page.
pub proof fn law_saving_works_everywhere(app: App, key: KeyEvent)
    requires
        key.ctrl,
    ensures
        key.code == KeyCode::Char('s') ==> route_of(app, key) == (Route::Save {
            commit: app.mode is Insert,
        }),
        key.code == KeyCode::Char('l') ==> route_of(app, key) == (Route::Refresh {
            commit: app.mode is Insert,
        }),
{
}

/// The help closes by escape, by the key that opened it and by `q`, and only
/// where it is shown.
pub proof fn law_the_help_closes(app: App, key: KeyEvent)
    ensures
        route_of(app, key) == Route::HelpClosed <==> app.show_help && (key.code == KeyCode::Esc
            || key.code == KeyCode::Char('?') || key.code == KeyCode::Char('q')),
{
}

/// The theme of the workspace comes before that of the user, and the default
/// comes last.
pub proof fn law_the_workspace_theme_comes_first(config: Seq<char>, global: Seq<char>, all: Palettes)
    ensures
        config_entry(config, "theme"@, "preset"@) is Some && preset_of(
            norm_name(config_entry(config, "theme"@, "preset"@)->0),
        ) is Some ==> resolved_theme(None, config, global, all) == theme_of(
            preset_of(norm_name(config_entry(config, "theme"@, "preset"@)->0))->0,
            all,
        ),
        config_entry(config, "theme"@, "preset"@) is None && preset_of(norm_name(global)) is Some
            ==> resolved_theme(None, config, global, all) == theme_of(
            preset_of(norm_name(global))->0,
            all,
        ),
{
}

/// The loop waits less while an index is being built.
pub proof fn law_waits_are_short_while_indexing()
    ensures
        wait_for(true) == 16,
        wait_for(false) == 750,
        is_shared(None),
        is_shared(Some("jsonl"@)),
        forall|s: Seq<char>| s != "jsonl"@ ==> !#[trigger] is_shared(Some(s)),
{
}

} // verus!

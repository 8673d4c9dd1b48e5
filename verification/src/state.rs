//! The state of the editor.

use crate::autocomplete::AutocompleteKind;
use crate::dates::Moment;
use crate::edit_buffer::EditBuffer;
use crate::icons::{icons_of, IconSet, TuiIconStyle};
use crate::keys::KeyEvent;
use crate::outline::{
    copy_nodes, copy_pairs, count, nodes_view, pairs, NodeView, OutlineNode,
};
use crate::text::texts;
use crate::theme::Theme;
use std::collections::{HashMap, HashSet};
use vstd::prelude::*;

verus! {

// ---------------------------------------------------------------------
// The page
// ---------------------------------------------------------------------

/// A page as it was read: its properties, its blocks, and the lines that
/// are no outline.
#[derive(Debug)]
pub struct ParsedPage {
    pub properties: Vec<(String, String)>,
    pub blocks: Vec<OutlineNode>,
    pub warnings: Vec<String>,
}

/// A page as a value.
pub ghost struct PageValue {
    pub properties: Seq<(Seq<char>, Seq<char>)>,
    pub blocks: Seq<NodeView>,
    pub warnings: Seq<Seq<char>>,
}

impl View for ParsedPage {
    type V = PageValue;

    open spec fn view(&self) -> PageValue {
        PageValue {
            properties: pairs(self.properties@),
            blocks: nodes_view(self.blocks@),
            warnings: texts(self.warnings@),
        }
    }
}

/// A copy of a list of strings.
pub fn copy_strings(v: &Vec<String>) -> (c: Vec<String>)
    ensures
        texts(c@) == texts(v@),
        c@.len() == v@.len(),
{
    let mut c: Vec<String> = Vec::new();
    let mut i: usize = 0;
    while i < v.len()
        invariant
            i <= v@.len(),
            c@.len() == i,
            texts(c@) == texts(v@).take(i as int),
        decreases v@.len() - i,
    {
        c.push(v[i].clone());
        i += 1;
        assert(texts(c@) =~= texts(v@).take(i as int));
    }
    assert(texts(v@).take(i as int) =~= texts(v@));
    c
}

impl ParsedPage {
    /// A page with nothing on it.
    pub fn empty() -> (p: ParsedPage)
        ensures
            p@ == (PageValue {
                properties: Seq::empty(),
                blocks: Seq::empty(),
                warnings: Seq::empty(),
            }),
    {
        let p = ParsedPage { properties: Vec::new(), blocks: Vec::new(), warnings: Vec::new() };
        assert(p@.properties =~= Seq::empty());
        assert(p@.blocks =~= Seq::empty());
        assert(p@.warnings =~= Seq::empty());
        p
    }

    /// The same page again.
    pub fn copy(&self) -> (p: ParsedPage)
        ensures
            p@ == self@,
    {
        ParsedPage {
            properties: copy_pairs(&self.properties),
            blocks: copy_nodes(&self.blocks),
            warnings: copy_strings(&self.warnings),
        }
    }
}

/// What the editor shows: a day's journal or a page.
#[derive(Debug)]
pub enum Screen {
    /// The journal of a day, given as days since the common era began.
    Journal(i32),
    /// The page at a path.
    Page(String),
}

/// Where the cursor is: in the outline, or in the backlinks below it.
#[derive(Debug)]
pub enum Focus {
    Outline,
    Backlink { idx: usize, sub_path: Vec<usize> },
}

/// A block of another page that refers to this one.
#[derive(Debug)]
pub struct Backlink {
    pub source_slug: String,
    pub source_block: OutlineNode,
}

/// The editing mode.
#[derive(Debug)]
pub enum Mode {
    Normal,
    /// The block at `block_path` is being edited.
    Insert { buffer: EditBuffer, block_path: Vec<usize> },
    /// A range of blocks is selected, from `anchor` to the cursor.
    Visual { anchor: usize },
}

/// Where Insert mode puts the caret.
#[derive(Clone, Copy, PartialEq, Eq, Structural, Debug)]
pub enum InsertCursor {
    AtCursor,
    Start,
    AfterCursor,
}

/// A key that waits for a character.
#[derive(Clone, Copy, PartialEq, Eq, Structural, Debug)]
pub enum PendingInputOp {
    ReplaceChar,
    FindCharForward,
    FindCharBackward,
}

// ---------------------------------------------------------------------
// Toasts
// ---------------------------------------------------------------------

/// What a toast reports.
#[derive(Clone, Copy, PartialEq, Eq, Structural, Debug)]
pub enum ToastKind {
    Success,
    Info,
    Warning,
    Error,
}

/// A transient message.
#[derive(Debug)]
pub struct Toast {
    pub kind: ToastKind,
    pub message: String,
    /// When it was raised, in milliseconds.
    pub born_ms: u64,
    /// How long it stays, in milliseconds.
    pub ttl_ms: u64,
}

/// How long a toast stays unless it says otherwise.
pub const TOAST_MS: u64 = 2500;

/// A toast as a value.
pub ghost struct ToastValue {
    pub kind: ToastKind,
    pub message: Seq<char>,
    pub born_ms: u64,
    pub ttl_ms: u64,
}

/// A toast raised now, that stays as long as toasts do.
pub open spec fn toast_value(app: App, kind: ToastKind, message: Seq<char>) -> ToastValue {
    ToastValue { kind, message, born_ms: app.now_ms, ttl_ms: TOAST_MS }
}

impl View for Toast {
    type V = ToastValue;

    open spec fn view(&self) -> ToastValue {
        ToastValue {
            kind: self.kind,
            message: self.message@,
            born_ms: self.born_ms,
            ttl_ms: self.ttl_ms,
        }
    }
}

/// Toasts as values.
pub open spec fn toasts_view(v: Seq<Toast>) -> Seq<ToastValue> {
    v.map_values(|t: Toast| t@)
}

/// The toasts that have not stayed long enough yet.
pub open spec fn live_toasts(v: Seq<ToastValue>, now_ms: u64) -> Seq<ToastValue>
    decreases v.len(),
{
    if v.len() == 0 {
        v
    } else {
        let r = live_toasts(v.drop_last(), now_ms);
        if now_ms - v.last().born_ms < v.last().ttl_ms {
            r.push(v.last())
        } else {
            r
        }
    }
}

// ---------------------------------------------------------------------
// Undo
// ---------------------------------------------------------------------

/// What an undo goes back to.
#[derive(Debug)]
pub struct Snapshot {
    pub page: ParsedPage,
    pub selected: usize,
    pub cursor_col: usize,
}

/// A snapshot as a value.
pub ghost struct SnapshotValue {
    pub page: PageValue,
    pub selected: usize,
    pub cursor_col: usize,
}

impl View for Snapshot {
    type V = SnapshotValue;

    open spec fn view(&self) -> SnapshotValue {
        SnapshotValue { page: self.page@, selected: self.selected, cursor_col: self.cursor_col }
    }
}

/// Snapshots as values.
pub open spec fn snapshots_view(v: Seq<Snapshot>) -> Seq<SnapshotValue> {
    v.map_values(|s: Snapshot| s@)
}

// ---------------------------------------------------------------------
// Overlays
// ---------------------------------------------------------------------

/// The completion popup.
#[derive(Debug)]
pub struct AutocompleteState {
    pub kind: AutocompleteKind,
    pub query: String,
    pub candidates: Vec<String>,
    pub selected: usize,
}

/// Whose properties are listed.
#[derive(Clone, Copy, PartialEq, Eq, Structural, Debug)]
pub enum PropertyScope {
    Block,
    Page,
}

/// Which half of a property is being edited.
#[derive(Clone, Copy, PartialEq, Eq, Structural, Debug)]
pub enum PropertyField {
    Key,
    Value,
}

/// A property being edited.
#[derive(Debug)]
pub struct PropertyEdit {
    pub field: PropertyField,
    pub key: String,
    pub value: String,
    /// The key the edit started from; a new property has none.
    pub original_key: Option<String>,
    /// The keys that `Tab` walks through.
    pub key_matches: Vec<String>,
    /// The next of them.
    pub key_match_idx: usize,
}

/// The properties overlay.
#[derive(Debug)]
pub struct PropertiesState {
    pub scope: PropertyScope,
    pub rows: Vec<(String, String)>,
    pub selected: usize,
    pub editing: Option<PropertyEdit>,
    /// The first `d` of `d d` has been pressed.
    pub pending_delete: bool,
    pub message: Option<String>,
    /// The keys the workspace uses, the most used first.
    pub known_keys: Vec<String>,
}

/// What a quick-switcher row opens.
#[derive(Clone, Copy, PartialEq, Eq, Structural, Debug)]
pub enum SwitchKind {
    Page,
    Journal,
}

/// A row of the quick switcher.
#[derive(Debug)]
pub struct SwitchCandidate {
    pub kind: SwitchKind,
    pub key: String,
    pub label: String,
}

/// The quick switcher.
#[derive(Debug)]
pub struct QuickSwitchState {
    pub query: String,
    pub candidates: Vec<SwitchCandidate>,
    pub selected: usize,
}

/// A hit of the workspace search.
#[derive(Debug)]
pub struct SearchHit {
    pub page_label: String,
    pub page_icon: Option<String>,
    pub snippet: String,
}

/// The workspace search.
#[derive(Debug)]
pub struct SearchState {
    pub query: String,
    pub hits: Vec<SearchHit>,
    pub selected: usize,
}

/// The `:` command line.
#[derive(Debug)]
pub struct CommandState {
    pub buffer: String,
}

/// A row of the command palette.
#[derive(Debug)]
pub struct SlashCommand {
    pub name: String,
    pub description: String,
    pub needs_args: bool,
}

/// The command palette.
#[derive(Debug)]
pub struct SlashState {
    pub query: String,
    pub candidates: Vec<SlashCommand>,
    pub selected: usize,
}

/// A template.
#[derive(Debug)]
pub struct TemplateEntry {
    pub name: String,
    pub slug: String,
    pub params: Vec<String>,
}

/// The template picker: all templates, and which of them match.
#[derive(Debug)]
pub struct TemplatePickerState {
    pub query: String,
    pub all: Vec<TemplateEntry>,
    pub filtered: Vec<usize>,
    pub selected: usize,
}

/// A reminder as the list shows it.
#[derive(Debug)]
pub struct ReminderRow {
    pub block_id: u128,
    pub page_slug: String,
    pub text: String,
    pub rule_text: String,
    /// When it fires next; a finished rule has none.
    pub next_fire: Option<Moment>,
    pub snoozed: bool,
    pub done: bool,
}

/// The reminders list.
#[derive(Debug)]
pub struct RemindersState {
    pub all: Vec<ReminderRow>,
    pub selected: usize,
}

/// The type of a plugin setting.
#[derive(Clone, Copy, PartialEq, Eq, Structural, Debug)]
pub enum SettingKind {
    Text,
    Number,
    Boolean,
}

/// A setting of a plugin. Values are JSON text.
#[derive(Debug)]
pub struct SettingField {
    pub key: String,
    pub kind: SettingKind,
    pub secret: bool,
    pub is_set: bool,
    pub value: Option<String>,
    pub default: Option<String>,
}

/// The settings of one plugin.
#[derive(Debug)]
pub struct PluginSettingsEntry {
    pub plugin_id: String,
    pub fields: Vec<SettingField>,
}

/// The plugin settings overlay.
#[derive(Debug)]
pub struct PluginSettingsState {
    pub entries: Vec<PluginSettingsEntry>,
    /// For each row, its entry and its field in that entry.
    pub rows: Vec<(usize, usize)>,
    pub selected: usize,
    pub editing: Option<String>,
    pub message: Option<String>,
}

/// A modal error.
#[derive(Debug)]
pub struct ErrorState {
    pub title: String,
    pub body: String,
}

/// A page nested below another: how far below, and its name there.
#[derive(Debug)]
pub struct NamespaceChild {
    pub depth: usize,
    pub label: String,
    pub icon: Option<String>,
}

/// The pages nested below the page of a slug.
#[derive(Debug)]
pub struct NamespaceRows {
    pub slug: String,
    pub rows: Vec<NamespaceChild>,
}

/// A section of the sidebar.
#[derive(Clone, Copy, PartialEq, Eq, Structural, Debug)]
pub enum SidebarSection {
    Calendar,
    Pinned,
    Recent,
}

/// What is drawn over the outline and takes its keys.
#[derive(Debug)]
pub enum Overlay {
    QuickSwitch(QuickSwitchState),
    Search(SearchState),
    Command(CommandState),
    Slash(SlashState),
    TemplatePicker(TemplatePickerState),
    Reminders(RemindersState),
    PluginSettings(PluginSettingsState),
    Properties(PropertiesState),
    Error(ErrorState),
}

// ---------------------------------------------------------------------
// The editor
// ---------------------------------------------------------------------

/// The state of the editor. What the disk, the operation log, the plugins
/// and the terminal hold reaches it as plain values.
#[derive(Debug)]
pub struct App {
    pub screen: Screen,
    pub page: ParsedPage,
    /// The number of blocks when the page was last counted.
    pub flat_len: usize,
    /// The flat index of the block under the cursor.
    pub selected: usize,
    pub cursor_col: usize,
    pub mode: Mode,
    pub focus: Focus,
    pub overlay: Option<Overlay>,
    pub autocomplete: Option<AutocompleteState>,
    pub status: String,
    pub toasts: Vec<Toast>,
    pub undo: Vec<Snapshot>,
    pub redo: Vec<Snapshot>,
    /// The present time in milliseconds.
    pub now_ms: u64,
    /// Since when an edit waits to be written.
    pub dirty_since: Option<u64>,
    /// When the page was last written or read.
    pub last_saved_ms: Option<u64>,
    /// The page on the screen could not be read.
    pub load_failed: bool,
    pub parse_warnings: Vec<String>,
    /// A peer's edit waits for the end of Insert mode.
    pub pending_reload: bool,
    /// The paths of the blocks zoomed into, the innermost last.
    pub zoom_stack: Vec<Vec<usize>>,
    /// The identifiers of the folded blocks.
    pub collapsed: HashSet<u128>,
    /// For each flat index, whether a folded block hides it.
    pub hidden_by_collapse: Vec<bool>,
    pub show_backlinks: bool,
    pub backlinks: Vec<Backlink>,
    pub last_visual: Option<(usize, usize)>,
    pub viewport_height: u16,
    pub scroll_y: u16,
    /// The property keys the workspace uses, the most used first.
    pub known_keys: Vec<String>,
    /// For each flat index, the identifier of the block.
    pub id_by_flat: Vec<u128>,
    /// What plugins made of code blocks, by the identifier of the block.
    pub transform_cache: HashMap<u128, String>,
    /// When reminders were last looked for.
    pub last_reminder_sweep: Option<u64>,
    /// The paths opened in this session, the latest first.
    pub recent_paths: Vec<String>,
    pub show_help: bool,
    pub help_tab: usize,
    pub help_scroll: u16,
    pub pending_chord: Option<char>,
    pub pending_input_op: Option<PendingInputOp>,
    /// The first chord of a plugin's binding, waiting for the second.
    pub pending_plugin_chord: Option<KeyEvent>,
    pub show_sidebar: bool,
    /// The section of the sidebar that takes the keys.
    pub sidebar_focus: Option<SidebarSection>,
    pub sidebar_cursor: usize,
    /// The page whose deletion waits to be confirmed.
    pub pending_sidebar_delete: Option<String>,
    pub backlinks_newest_first: bool,
    /// The nested pages that were last looked up.
    pub namespace_children: Option<NamespaceRows>,
    pub icons: IconSet,
    pub theme: Theme,
}

/// `app` is an editor before the first page is read, whichever way its
/// backlinks are ordered.
pub open spec fn fresh(
    app: App,
    screen: Screen,
    theme: Theme,
    icon_style: TuiIconStyle,
    now_ms: u64,
) -> bool {
    &&& app.screen == screen
    &&& app.theme == theme
    &&& app.icons == icons_of(icon_style)
    &&& app.now_ms == now_ms
    &&& app.page@ == (PageValue {
        properties: Seq::empty(),
        blocks: Seq::empty(),
        warnings: Seq::empty(),
    })
    &&& app.flat_len == 0 && app.selected == 0 && app.cursor_col == 0
    &&& app.mode is Normal && app.focus is Outline
    &&& app.overlay is None && app.autocomplete is None
    &&& app.status@ == Seq::<char>::empty()
    &&& app.toasts@.len() == 0 && app.undo@.len() == 0 && app.redo@.len() == 0
    &&& app.dirty_since is None && app.last_saved_ms is None
    &&& !app.load_failed && !app.pending_reload
    &&& app.parse_warnings@.len() == 0
    &&& app.zoom_stack@.len() == 0 && app.hidden_by_collapse@.len() == 0
    &&& app.collapsed@ == Set::<u128>::empty()
    &&& app.show_backlinks && app.backlinks@.len() == 0
    &&& app.last_visual is None
    &&& app.viewport_height == 0 && app.scroll_y == 0
    &&& app.known_keys@.len() == 0 && app.recent_paths@.len() == 0
    &&& app.id_by_flat@.len() == 0
    &&& app.transform_cache@ == Map::<u128, String>::empty()
    &&& app.last_reminder_sweep is None
    &&& !app.show_help && app.help_tab == 0 && app.help_scroll == 0
    &&& app.pending_chord is None && app.pending_input_op is None
    &&& app.pending_plugin_chord is None
    &&& !app.show_sidebar && app.sidebar_focus is None && app.sidebar_cursor == 0
    &&& app.pending_sidebar_delete is None
    &&& app.namespace_children is None
}

impl App {
    /// The blocks of the page as values.
    pub open spec fn blocks(&self) -> Seq<NodeView> {
        nodes_view(self.page.blocks@)
    }

    /// The page, and every block in the backlinks, can be counted.
    pub open spec fn wf(&self) -> bool {
        &&& count(self.blocks()) <= usize::MAX
        &&& forall|i: int|
            0 <= i < self.backlinks@.len() ==> count(
                (#[trigger] self.backlinks@[i]).source_block@.children,
            ) < usize::MAX
    }

    /// The editor before the first page is read.
    pub fn new(screen: Screen, theme: Theme, icon_style: TuiIconStyle, now_ms: u64) -> (app: App)
        ensures
            fresh(app, screen, theme, icon_style, now_ms),
            app.backlinks_newest_first,
            app.wf(),
    {
        let app = App {
            screen,
            page: ParsedPage::empty(),
            flat_len: 0,
            selected: 0,
            cursor_col: 0,
            mode: Mode::Normal,
            focus: Focus::Outline,
            overlay: None,
            autocomplete: None,
            status: String::new(),
            toasts: Vec::new(),
            undo: Vec::new(),
            redo: Vec::new(),
            now_ms,
            dirty_since: None,
            last_saved_ms: None,
            load_failed: false,
            parse_warnings: Vec::new(),
            pending_reload: false,
            zoom_stack: Vec::new(),
            collapsed: HashSet::new(),
            hidden_by_collapse: Vec::new(),
            show_backlinks: true,
            backlinks: Vec::new(),
            last_visual: None,
            viewport_height: 0,
            scroll_y: 0,
            known_keys: Vec::new(),
            id_by_flat: Vec::new(),
            transform_cache: HashMap::new(),
            last_reminder_sweep: None,
            recent_paths: Vec::new(),
            show_help: false,
            help_tab: 0,
            help_scroll: 0,
            pending_chord: None,
            pending_input_op: None,
            pending_plugin_chord: None,
            show_sidebar: false,
            sidebar_focus: None,
            sidebar_cursor: 0,
            pending_sidebar_delete: None,
            backlinks_newest_first: true,
            namespace_children: None,
            icons: IconSet::new(icon_style),
            theme,
        };
        assert(count(app.blocks()) == 0);
        app
    }

    /// Raises a toast.
    pub fn toast(&mut self, kind: ToastKind, message: &str)
        ensures
            *final(self) == (App { toasts: final(self).toasts, ..*old(self) }),
            toasts_view(final(self).toasts@) == toasts_view(old(self).toasts@).push(
                toast_value(*old(self), kind, message@),
            ),
    {
        self.toast_for(kind, message, TOAST_MS);
    }

    /// Raises a toast that stays for `ttl_ms` milliseconds.
    pub fn toast_for(&mut self, kind: ToastKind, message: &str, ttl_ms: u64)
        ensures
            *final(self) == (App { toasts: final(self).toasts, ..*old(self) }),
            toasts_view(final(self).toasts@) == toasts_view(old(self).toasts@).push(
                ToastValue { kind, message: message@, born_ms: old(self).now_ms, ttl_ms },
            ),
    {
        let t = Toast { kind, message: message.to_owned(), born_ms: self.now_ms, ttl_ms };
        self.toasts.push(t);
        assert(toasts_view(self.toasts@) =~= toasts_view(old(self).toasts@).push(t@));
    }

    /// Takes away the toasts that have stayed long enough.
    pub fn prune_toasts(&mut self)
        ensures
            *final(self) == (App { toasts: final(self).toasts, ..*old(self) }),
            toasts_view(final(self).toasts@) == live_toasts(
                toasts_view(old(self).toasts@),
                old(self).now_ms,
            ),
    {
        let mut kept: Vec<Toast> = Vec::new();
        let mut i: usize = 0;
        assert(toasts_view(kept@) =~= Seq::empty());
        while i < self.toasts.len()
            invariant
                i <= self.toasts@.len(),
                *self == *old(self),
                toasts_view(kept@) == live_toasts(
                    toasts_view(self.toasts@).take(i as int),
                    self.now_ms,
                ),
            decreases self.toasts@.len() - i,
        {
            let t = &self.toasts[i];
            let ghost all = toasts_view(self.toasts@).take(i + 1);
            assert(all.drop_last() =~= toasts_view(self.toasts@).take(i as int));
            assert(all.last() == t@);
            if self.now_ms < t.born_ms || self.now_ms - t.born_ms < t.ttl_ms {
                let c = Toast {
                    kind: t.kind,
                    message: t.message.clone(),
                    born_ms: t.born_ms,
                    ttl_ms: t.ttl_ms,
                };
                let ghost was = kept@;
                kept.push(c);
                assert(toasts_view(kept@) =~= toasts_view(was).push(c@));
            }
            i += 1;
        }
        assert(toasts_view(self.toasts@).take(i as int) =~= toasts_view(self.toasts@));
        self.toasts = kept;
    }

    /// Remembers the page as it is for undo. What was undone can then no
    /// longer be redone.
    pub fn snapshot_for_undo(&mut self)
        ensures
            *final(self) == (App {
                undo: final(self).undo,
                redo: final(self).redo,
                ..*old(self)
            }),
            snapshots_view(final(self).undo@) == snapshots_view(old(self).undo@).push(
                snapshot_of(*old(self)),
            ),
            final(self).redo@.len() == 0,
    {
        let s = Snapshot {
            page: self.page.copy(),
            selected: self.selected,
            cursor_col: self.cursor_col,
        };
        self.undo.push(s);
        self.redo.clear();
        assert(snapshots_view(self.undo@) =~= snapshots_view(old(self).undo@).push(s@));
    }
}

/// The page and the cursor as they are now.
pub open spec fn snapshot_of(app: App) -> SnapshotValue {
    SnapshotValue { page: app.page@, selected: app.selected, cursor_col: app.cursor_col }
}

/// `new` is `old` after an edit of the page was begun: the page as it was is
/// remembered for undo, and the edit waits to be written. Apart from that
/// the two differ at most in the fields that an edit may change.
pub open spec fn edited(old: App, new: App) -> bool {
    &&& new == App {
        page: new.page,
        selected: new.selected,
        cursor_col: new.cursor_col,
        mode: new.mode,
        status: new.status,
        last_visual: new.last_visual,
        undo: new.undo,
        redo: new.redo,
        dirty_since: new.dirty_since,
        ..old
    }
    &&& snapshots_view(new.undo@) == snapshots_view(old.undo@).push(snapshot_of(old))
    &&& new.redo@.len() == 0
    &&& new.dirty_since == Some(dirty_mark(old))
}

/// Since when an edit waits to be written, once one does.
pub open spec fn dirty_mark(app: App) -> u64 {
    match app.dirty_since {
        Some(t) => t,
        None => app.now_ms,
    }
}

// ---------------------------------------------------------------------
// Laws
// ---------------------------------------------------------------------

/// Toasts that are still shown.
pub open spec fn still_shown(now_ms: u64) -> spec_fn(ToastValue) -> bool {
    |t: ToastValue| now_ms < t.born_ms + t.ttl_ms
}

/// A toast is shown for its time and then goes; the others stay in order.
pub proof fn law_toasts_go_in_time(v: Seq<ToastValue>, now_ms: u64)
    ensures
        live_toasts(v, now_ms) == v.filter(still_shown(now_ms)),
    decreases v.len(),
{
    reveal(Seq::filter);
    if v.len() > 0 {
        law_toasts_go_in_time(v.drop_last(), now_ms);
    }
}

/// A new toast is shown, for two and a half seconds.
pub proof fn law_a_toast_lives_a_while(app: App, kind: ToastKind, message: Seq<char>, now_ms: u64)
    requires
        app.now_ms <= now_ms,
    ensures
        live_toasts(seq![toast_value(app, kind, message)], now_ms) == (if now_ms < app.now_ms
            + 2500 {
            seq![toast_value(app, kind, message)]
        } else {
            Seq::empty()
        }),
        toast_value(app, kind, message).message == message,
        toast_value(app, kind, message).kind == kind,
{
    let t = toast_value(app, kind, message);
    assert(seq![t].drop_last() =~= Seq::<ToastValue>::empty());
    assert(seq![t].last() == t);
    assert(live_toasts(seq![t].drop_last(), now_ms) =~= Seq::empty());
    if now_ms < app.now_ms + 2500 {
        assert(live_toasts(seq![t], now_ms) =~= seq![t]);
    }
}

/// An edit can be taken back to what was there, drops what was taken back
/// before, and waits to be written from the first edit on.
pub proof fn law_edits_are_remembered(old: App, new: App)
    requires
        edited(old, new),
    ensures
        new.undo@.len() == old.undo@.len() + 1,
        new.undo@.last()@.page == old.page@,
        new.undo@.last()@.selected == old.selected,
        new.undo@.last()@.cursor_col == old.cursor_col,
        new.redo@.len() == 0,
        old.dirty_since is Some ==> new.dirty_since == old.dirty_since,
        old.dirty_since is None ==> new.dirty_since == Some(old.now_ms),
{
    let a = snapshots_view(new.undo@);
    let b = snapshots_view(old.undo@);
    assert(a.len() == b.len() + 1);
    assert(a[a.len() - 1] == snapshot_of(old));
    assert(a[a.len() - 1] == new.undo@[new.undo@.len() - 1]@);
}

} // verus!

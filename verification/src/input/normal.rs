//! Keys in Normal mode.

use crate::input::plugin_chord::{
    plugin_step, try_plugin_binding, PluginBinding, PluginStep, PluginStepValue,
};
use crate::keys::{plain_key, KeyCode, KeyEvent};
use crate::state::{App, InsertCursor, PendingInputOp};
use vstd::prelude::*;

verus! {

/// What a key of Normal mode does.
#[derive(Clone, Copy, PartialEq, Eq, Structural, Debug)]
pub enum Action {
    Nothing,
    Quit,
    // the sidebar
    SidebarConfirmDelete,
    SidebarMove(i32),
    SidebarCycle { forward: bool },
    SidebarActivate,
    SidebarDelete,
    SidebarBlur,
    SidebarClose,
    SidebarOpen,
    // keys that take a character
    ReplaceChar(char),
    FindCharForward(char),
    FindCharBackward(char),
    // pages
    GoToday,
    ShiftJournal(i32),
    TogglePinned,
    DeletePage,
    ToggleBacklinksOrder,
    // blocks
    DeleteBlock,
    RunBlock,
    OpenProperties,
    InsertRemind,
    InsertRemindNag,
    SnoozeBlock,
    YankBlock,
    YankRef,
    ToggleTodo,
    ToggleCollapse,
    FoldAll,
    UnfoldAll,
    Indent,
    Outdent,
    MoveBlockUp,
    MoveBlockDown,
    CreateBelow,
    CreateAbove,
    PasteFormatted,
    PastePlain,
    ZoomIn,
    ZoomOut,
    // text
    OpenOrInsert,
    EnterInsert(InsertCursor),
    EnterInsertAtEnd,
    DeleteChar,
    DeleteCharBefore,
    DeleteToEnd,
    ChangeToEnd,
    SubstituteBlock,
    SubstituteChar,
    ToggleCase,
    // moving
    MoveSelection(i32),
    MoveColumn(i32),
    ColumnHome,
    ColumnEnd,
    WordLeft,
    WordRight,
    WordEnd,
    CenterViewport,
    EnterVisual,
    ReselectVisual,
    // searching
    SearchWord { forward: bool },
    SearchNext,
    SearchPrev,
    // history
    Undo,
    Redo,
    // overlays
    OpenReminders,
    OpenQuickSwitch,
    OpenSlash,
    OpenCommand,
}

/// One step up, or to the left.
pub const BACK: i32 = -1;

/// Further down than any block.
pub const FAR_DOWN: i32 = 1073741823;

/// Further up than any block.
pub const FAR_UP: i32 = -1073741824;

/// The number of tabs in the help.
pub const HELP_TAB_COUNT: usize = 6;

/// Where the help scrolls to for its end; what draws it stops there.
pub const HELP_END: u16 = 32767;

/// How far a page key scrolls the help.
pub const HELP_PAGE: u16 = 10;

// ---------------------------------------------------------------------
// The help
// ---------------------------------------------------------------------

/// `a + b`, as far as it can be shown.
pub open spec fn scrolled_down(a: u16, b: u16) -> u16 {
    if a + b > u16::MAX {
        u16::MAX
    } else {
        (a + b) as u16
    }
}

/// `a - b`, or the top.
pub open spec fn scrolled_up(a: u16, b: u16) -> u16 {
    if a < b {
        0
    } else {
        (a - b) as u16
    }
}

/// A key while the help is open. Keys that it does not know do nothing.
pub open spec fn help_stepped(app: App, code: KeyCode) -> App {
    match code {
        KeyCode::Char('h') | KeyCode::Left => App {
            help_tab: if app.help_tab == 0 {
                (HELP_TAB_COUNT - 1) as usize
            } else {
                (app.help_tab - 1) as usize
            },
            help_scroll: 0,
            ..app
        },
        KeyCode::Char('l') | KeyCode::Right | KeyCode::Tab => App {
            help_tab: ((app.help_tab + 1) % HELP_TAB_COUNT as int) as usize,
            help_scroll: 0,
            ..app
        },
        KeyCode::Char('j') | KeyCode::Down => App {
            help_scroll: scrolled_down(app.help_scroll, 1),
            ..app
        },
        KeyCode::Char('k') | KeyCode::Up => App {
            help_scroll: scrolled_up(app.help_scroll, 1),
            ..app
        },
        KeyCode::PageDown => App { help_scroll: scrolled_down(app.help_scroll, HELP_PAGE), ..app },
        KeyCode::PageUp => App { help_scroll: scrolled_up(app.help_scroll, HELP_PAGE), ..app },
        KeyCode::Char('g') | KeyCode::Home => App { help_scroll: 0, ..app },
        KeyCode::Char('G') | KeyCode::End => App { help_scroll: HELP_END, ..app },
        KeyCode::Char('?') | KeyCode::Esc | KeyCode::Char('q') => App {
            show_help: false,
            help_scroll: 0,
            ..app
        },
        _ => app,
    }
}

fn handle_help_key(app: &mut App, code: KeyCode)
    requires
        old(app).help_tab < usize::MAX,
    ensures
        *final(app) == help_stepped(*old(app), code),
{
    match code {
        KeyCode::Char('h') | KeyCode::Left => {
            app.help_tab =
            if app.help_tab == 0 {
                HELP_TAB_COUNT - 1
            } else {
                app.help_tab - 1
            };
            app.help_scroll = 0;
        },
        KeyCode::Char('l') | KeyCode::Right | KeyCode::Tab => {
            app.help_tab = (app.help_tab + 1) % HELP_TAB_COUNT;
            app.help_scroll = 0;
        },
        KeyCode::Char('j') | KeyCode::Down => {
            app.help_scroll = app.help_scroll.saturating_add(1);
        },
        KeyCode::Char('k') | KeyCode::Up => {
            app.help_scroll = app.help_scroll.saturating_sub(1);
        },
        KeyCode::PageDown => {
            app.help_scroll = app.help_scroll.saturating_add(HELP_PAGE);
        },
        KeyCode::PageUp => {
            app.help_scroll = app.help_scroll.saturating_sub(HELP_PAGE);
        },
        KeyCode::Char('g') | KeyCode::Home => {
            app.help_scroll = 0;
        },
        KeyCode::Char('G') | KeyCode::End => {
            app.help_scroll = HELP_END;
        },
        KeyCode::Char('?') | KeyCode::Esc | KeyCode::Char('q') => {
            app.show_help = false;
            app.help_scroll = 0;
        },
        _ => {},
    }
}

// ---------------------------------------------------------------------
// The sidebar
// ---------------------------------------------------------------------

/// What a key does while the sidebar has the keys; other keys go on to the
/// outline.
pub open spec fn sidebar_action(key: KeyEvent) -> Option<Action> {
    match key.code {
        KeyCode::Char('j') | KeyCode::Down => Some(Action::SidebarMove(1)),
        KeyCode::Char('k') | KeyCode::Up => Some(Action::SidebarMove(BACK)),
        KeyCode::Char('g') => Some(Action::Nothing),
        KeyCode::Char('G') => Some(Action::SidebarMove(FAR_DOWN)),
        KeyCode::Tab => Some(Action::SidebarCycle { forward: true }),
        KeyCode::BackTab => Some(Action::SidebarCycle { forward: false }),
        KeyCode::Enter => Some(Action::SidebarActivate),
        KeyCode::Char('d') => Some(Action::SidebarDelete),
        KeyCode::Esc => Some(Action::SidebarBlur),
        KeyCode::Char('e') | KeyCode::Char('E') => if key.ctrl {
            Some(Action::SidebarClose)
        } else {
            None
        },
        _ => None,
    }
}

fn sidebar_key(key: KeyEvent) -> (r: Option<Action>)
    ensures
        r == sidebar_action(key),
{
    match key.code {
        KeyCode::Char('j') | KeyCode::Down => Some(Action::SidebarMove(1)),
        KeyCode::Char('k') | KeyCode::Up => Some(Action::SidebarMove(BACK)),
        KeyCode::Char('g') => Some(Action::Nothing),
        KeyCode::Char('G') => Some(Action::SidebarMove(FAR_DOWN)),
        KeyCode::Tab => Some(Action::SidebarCycle { forward: true }),
        KeyCode::BackTab => Some(Action::SidebarCycle { forward: false }),
        KeyCode::Enter => Some(Action::SidebarActivate),
        KeyCode::Char('d') => Some(Action::SidebarDelete),
        KeyCode::Esc => Some(Action::SidebarBlur),
        KeyCode::Char('e') | KeyCode::Char('E') => {
            if key.ctrl {
                Some(Action::SidebarClose)
            } else {
                None
            }
        },
        _ => None,
    }
}

/// The answer to whether a page is to be deleted: anything but yes is no.
pub open spec fn says_yes(code: KeyCode) -> bool {
    code == KeyCode::Char('y') || code == KeyCode::Char('Y')
}

// ---------------------------------------------------------------------
// Chords and single keys
// ---------------------------------------------------------------------

/// What two keys in a row do.
pub open spec fn chord_action(first: char, code: KeyCode) -> Option<Action> {
    match (first, code) {
        ('d', KeyCode::Char('d')) => Some(Action::DeleteBlock),
        ('g', KeyCode::Char('j')) => Some(Action::GoToday),
        ('g', KeyCode::Char('x')) => Some(Action::RunBlock),
        ('g', KeyCode::Char('g')) => Some(Action::MoveSelection(FAR_UP)),
        ('g', KeyCode::Char('p')) => Some(Action::OpenProperties),
        ('g', KeyCode::Char('P')) => Some(Action::TogglePinned),
        ('g', KeyCode::Char('d')) => Some(Action::DeletePage),
        ('g', KeyCode::Char('r')) => Some(Action::InsertRemind),
        ('g', KeyCode::Char('R')) => Some(Action::InsertRemindNag),
        ('g', KeyCode::Char('s')) => Some(Action::SnoozeBlock),
        ('g', KeyCode::Char('n')) => Some(Action::OpenReminders),
        ('y', KeyCode::Char('y')) => Some(Action::YankBlock),
        ('y', KeyCode::Char('r')) => Some(Action::YankRef),
        ('q', KeyCode::Char('q')) => Some(Action::Quit),
        ('Z', KeyCode::Char('Z')) => Some(Action::Quit),
        ('g', KeyCode::Char('v')) => Some(Action::ReselectVisual),
        ('z', KeyCode::Char('R')) => Some(Action::UnfoldAll),
        ('z', KeyCode::Char('M')) => Some(Action::FoldAll),
        ('z', KeyCode::Char('z')) => Some(Action::CenterViewport),
        ('z', KeyCode::Char('i')) => Some(Action::ZoomIn),
        ('z', KeyCode::Char('o')) => Some(Action::ZoomOut),
        _ => None,
    }
}

fn chord_key(first: char, code: KeyCode) -> (r: Option<Action>)
    ensures
        r == chord_action(first, code),
{
    match (first, code) {
        ('d', KeyCode::Char('d')) => Some(Action::DeleteBlock),
        ('g', KeyCode::Char('j')) => Some(Action::GoToday),
        ('g', KeyCode::Char('x')) => Some(Action::RunBlock),
        ('g', KeyCode::Char('g')) => Some(Action::MoveSelection(FAR_UP)),
        ('g', KeyCode::Char('p')) => Some(Action::OpenProperties),
        ('g', KeyCode::Char('P')) => Some(Action::TogglePinned),
        ('g', KeyCode::Char('d')) => Some(Action::DeletePage),
        ('g', KeyCode::Char('r')) => Some(Action::InsertRemind),
        ('g', KeyCode::Char('R')) => Some(Action::InsertRemindNag),
        ('g', KeyCode::Char('s')) => Some(Action::SnoozeBlock),
        ('g', KeyCode::Char('n')) => Some(Action::OpenReminders),
        ('y', KeyCode::Char('y')) => Some(Action::YankBlock),
        ('y', KeyCode::Char('r')) => Some(Action::YankRef),
        ('q', KeyCode::Char('q')) => Some(Action::Quit),
        ('Z', KeyCode::Char('Z')) => Some(Action::Quit),
        ('g', KeyCode::Char('v')) => Some(Action::ReselectVisual),
        ('z', KeyCode::Char('R')) => Some(Action::UnfoldAll),
        ('z', KeyCode::Char('M')) => Some(Action::FoldAll),
        ('z', KeyCode::Char('z')) => Some(Action::CenterViewport),
        ('z', KeyCode::Char('i')) => Some(Action::ZoomIn),
        ('z', KeyCode::Char('o')) => Some(Action::ZoomOut),
        _ => None,
    }
}

/// A key without modifiers.
pub open spec fn bare(key: KeyEvent) -> bool {
    !key.ctrl && !key.alt && !key.shift && !key.other
}

/// Half a screen.
pub open spec fn half_page(height: u16) -> i32 {
    if height < 2 {
        1
    } else {
        (height / 2) as i32
    }
}

/// A screen.
pub open spec fn full_page(height: u16) -> i32 {
    if height < 1 {
        1
    } else {
        height as i32
    }
}

/// What a key by itself does at once. Keys that only arm something, or switch
/// something on the screen, do nothing else.
pub open spec fn key_action(key: KeyEvent, height: u16, sidebar: bool) -> Action {
    match key.code {
        KeyCode::Char(c) => if key.ctrl && c == 't' {
            Action::ToggleTodo
        } else if c == 't' {
            Action::GoToday
        } else if c == '[' {
            Action::ShiftJournal(BACK)
        } else if c == ']' {
            Action::ShiftJournal(1)
        } else if key.ctrl && c == 'd' {
            Action::MoveSelection(half_page(height))
        } else if key.ctrl && c == 'u' {
            Action::MoveSelection((-half_page(height)) as i32)
        } else if c == 'c' {
            Action::ToggleCollapse
        } else if c == 'p' {
            if bare(key) {
                Action::PasteFormatted
            } else if key.ctrl {
                Action::OpenQuickSwitch
            } else {
                Action::Nothing
            }
        } else if c == 'P' {
            if !key.ctrl && !key.alt && !key.other {
                Action::PastePlain
            } else {
                Action::Nothing
            }
        } else if c == 'i' {
            Action::EnterInsert(InsertCursor::AtCursor)
        } else if c == 'I' {
            Action::EnterInsert(InsertCursor::Start)
        } else if c == 'a' {
            Action::EnterInsert(InsertCursor::AfterCursor)
        } else if c == 'A' {
            Action::EnterInsertAtEnd
        } else if key.ctrl && (c == 'o' || c == 'O') {
            Action::ToggleBacklinksOrder
        } else if c == 'o' {
            Action::CreateBelow
        } else if c == 'O' {
            Action::CreateAbove
        } else if c == 'x' {
            Action::DeleteChar
        } else if c == 'X' {
            Action::DeleteCharBefore
        } else if c == 'D' {
            Action::DeleteToEnd
        } else if c == 'C' {
            Action::ChangeToEnd
        } else if c == 'S' {
            Action::SubstituteBlock
        } else if c == 's' {
            Action::SubstituteChar
        } else if c == 'r' {
            if key.ctrl {
                Action::Redo
            } else {
                Action::Nothing
            }
        } else if c == '~' {
            Action::ToggleCase
        } else if c == 'Y' {
            Action::YankBlock
        } else if c == 'e' && bare(key) {
            Action::WordEnd
        } else if c == '*' {
            Action::SearchWord { forward: true }
        } else if c == '#' {
            Action::SearchWord { forward: false }
        } else if c == 'j' {
            Action::MoveSelection(1)
        } else if c == 'k' {
            Action::MoveSelection(BACK)
        } else if c == 'G' {
            Action::MoveSelection(FAR_DOWN)
        } else if c == 'h' {
            Action::MoveColumn(BACK)
        } else if c == 'l' {
            Action::MoveColumn(1)
        } else if c == '0' {
            Action::ColumnHome
        } else if c == '$' {
            Action::ColumnEnd
        } else if key.ctrl && (c == 'b' || c == 'B') {
            Action::Nothing
        } else if key.ctrl && (c == 'e' || c == 'E') {
            if sidebar {
                Action::SidebarClose
            } else {
                Action::SidebarOpen
            }
        } else if c == 'w' {
            Action::WordRight
        } else if c == 'b' {
            Action::WordLeft
        } else if c == 'K' {
            Action::MoveBlockUp
        } else if c == 'J' {
            Action::MoveBlockDown
        } else if c == 'u' {
            Action::Undo
        } else if c == '/' {
            Action::OpenSlash
        } else if c == ':' {
            Action::OpenCommand
        } else if c == 'n' {
            Action::SearchNext
        } else if c == 'N' {
            Action::SearchPrev
        } else if c == 'V' {
            Action::EnterVisual
        } else {
            Action::Nothing
        },
        KeyCode::Tab => Action::Indent,
        KeyCode::BackTab => Action::Outdent,
        KeyCode::Enter => if key.ctrl {
            Action::ToggleTodo
        } else {
            Action::OpenOrInsert
        },
        KeyCode::Up => if key.alt {
            Action::MoveBlockUp
        } else {
            Action::MoveSelection(BACK)
        },
        KeyCode::Down => if key.alt {
            Action::MoveBlockDown
        } else {
            Action::MoveSelection(1)
        },
        KeyCode::PageDown => Action::MoveSelection(full_page(height)),
        KeyCode::PageUp => Action::MoveSelection((-full_page(height)) as i32),
        KeyCode::Left => Action::MoveColumn(BACK),
        KeyCode::Right => Action::MoveColumn(1),
        KeyCode::Home => Action::ColumnHome,
        KeyCode::End => Action::ColumnEnd,
        _ => Action::Nothing,
    }
}

/// The first of two keys that this key is.
pub open spec fn armed_chord(key: KeyEvent) -> Option<char> {
    match key.code {
        KeyCode::Char('q') => Some('q'),
        KeyCode::Char('Z') => Some('Z'),
        KeyCode::Char('g') => Some('g'),
        KeyCode::Char('z') => Some('z'),
        KeyCode::Char('y') => Some('y'),
        KeyCode::Char('d') => if key.ctrl {
            None
        } else {
            Some('d')
        },
        _ => None,
    }
}

/// What waits for a character after this key.
pub open spec fn armed_op(key: KeyEvent) -> Option<PendingInputOp> {
    match key.code {
        KeyCode::Char('r') => if bare(key) {
            Some(PendingInputOp::ReplaceChar)
        } else {
            None
        },
        KeyCode::Char('f') => if bare(key) {
            Some(PendingInputOp::FindCharForward)
        } else {
            None
        },
        KeyCode::Char('F') => Some(PendingInputOp::FindCharBackward),
        _ => None,
    }
}

/// What the status line says after this key, if it says something.
pub open spec fn key_status(key: KeyEvent) -> Option<&'static str> {
    match key.code {
        KeyCode::Char('q') => Some("press q again to quit"),
        KeyCode::Char('Z') => Some("press Z again to save and quit"),
        KeyCode::Char('z') => Some("z…"),
        KeyCode::Char('r') => if bare(key) {
            Some("r… (replace)")
        } else {
            None
        },
        KeyCode::Char('f') => if bare(key) {
            Some("f… (find →)")
        } else {
            None
        },
        KeyCode::Char('F') => Some("F… (find ←)"),
        _ => None,
    }
}

/// `new` is `old` after a key by itself, apart from what its action does.
pub open spec fn key_stepped(old: App, new: App, key: KeyEvent) -> bool {
    let backlinks = key.ctrl && (key.code == KeyCode::Char('b') || key.code == KeyCode::Char(
        'B',
    ));
    &&& new == App {
        status: new.status,
        pending_chord: match armed_chord(key) {
            Some(c) => Some(c),
            None => old.pending_chord,
        },
        pending_input_op: match armed_op(key) {
            Some(o) => Some(o),
            None => old.pending_input_op,
        },
        show_help: if key.code == KeyCode::Char('?') {
            !old.show_help
        } else {
            old.show_help
        },
        show_backlinks: if backlinks {
            !old.show_backlinks
        } else {
            old.show_backlinks
        },
        ..old
    }
    &&& match key_status(key) {
        Some(s) => new.status@ == s@,
        None => new.status == old.status,
    }
}

fn is_bare(key: KeyEvent) -> (r: bool)
    ensures
        r == bare(key),
{
    !key.ctrl && !key.alt && !key.shift && !key.other
}

fn action_of_key(key: KeyEvent, height: u16, sidebar: bool) -> (r: Action)
    ensures
        r == key_action(key, height, sidebar),
{
    let half: i32 = if height < 2 {
        1
    } else {
        (height / 2) as i32
    };
    let full: i32 = if height < 1 {
        1
    } else {
        height as i32
    };
    match key.code {
        KeyCode::Char(c) => if key.ctrl && c == 't' {
            Action::ToggleTodo
        } else if c == 't' {
            Action::GoToday
        } else if c == '[' {
            Action::ShiftJournal(BACK)
        } else if c == ']' {
            Action::ShiftJournal(1)
        } else if key.ctrl && c == 'd' {
            Action::MoveSelection(half)
        } else if key.ctrl && c == 'u' {
            Action::MoveSelection(-half)
        } else if c == 'c' {
            Action::ToggleCollapse
        } else if c == 'p' {
            if is_bare(key) {
                Action::PasteFormatted
            } else if key.ctrl {
                Action::OpenQuickSwitch
            } else {
                Action::Nothing
            }
        } else if c == 'P' {
            if !key.ctrl && !key.alt && !key.other {
                Action::PastePlain
            } else {
                Action::Nothing
            }
        } else if c == 'i' {
            Action::EnterInsert(InsertCursor::AtCursor)
        } else if c == 'I' {
            Action::EnterInsert(InsertCursor::Start)
        } else if c == 'a' {
            Action::EnterInsert(InsertCursor::AfterCursor)
        } else if c == 'A' {
            Action::EnterInsertAtEnd
        } else if key.ctrl && (c == 'o' || c == 'O') {
            Action::ToggleBacklinksOrder
        } else if c == 'o' {
            Action::CreateBelow
        } else if c == 'O' {
            Action::CreateAbove
        } else if c == 'x' {
            Action::DeleteChar
        } else if c == 'X' {
            Action::DeleteCharBefore
        } else if c == 'D' {
            Action::DeleteToEnd
        } else if c == 'C' {
            Action::ChangeToEnd
        } else if c == 'S' {
            Action::SubstituteBlock
        } else if c == 's' {
            Action::SubstituteChar
        } else if c == 'r' {
            if key.ctrl {
                Action::Redo
            } else {
                Action::Nothing
            }
        } else if c == '~' {
            Action::ToggleCase
        } else if c == 'Y' {
            Action::YankBlock
        } else if c == 'e' && is_bare(key) {
            Action::WordEnd
        } else if c == '*' {
            Action::SearchWord { forward: true }
        } else if c == '#' {
            Action::SearchWord { forward: false }
        } else if c == 'j' {
            Action::MoveSelection(1)
        } else if c == 'k' {
            Action::MoveSelection(BACK)
        } else if c == 'G' {
            Action::MoveSelection(FAR_DOWN)
        } else if c == 'h' {
            Action::MoveColumn(BACK)
        } else if c == 'l' {
            Action::MoveColumn(1)
        } else if c == '0' {
            Action::ColumnHome
        } else if c == '$' {
            Action::ColumnEnd
        } else if key.ctrl && (c == 'b' || c == 'B') {
            Action::Nothing
        } else if key.ctrl && (c == 'e' || c == 'E') {
            if sidebar {
                Action::SidebarClose
            } else {
                Action::SidebarOpen
            }
        } else if c == 'w' {
            Action::WordRight
        } else if c == 'b' {
            Action::WordLeft
        } else if c == 'K' {
            Action::MoveBlockUp
        } else if c == 'J' {
            Action::MoveBlockDown
        } else if c == 'u' {
            Action::Undo
        } else if c == '/' {
            Action::OpenSlash
        } else if c == ':' {
            Action::OpenCommand
        } else if c == 'n' {
            Action::SearchNext
        } else if c == 'N' {
            Action::SearchPrev
        } else if c == 'V' {
            Action::EnterVisual
        } else {
            Action::Nothing
        },
        KeyCode::Tab => Action::Indent,
        KeyCode::BackTab => Action::Outdent,
        KeyCode::Enter => if key.ctrl {
            Action::ToggleTodo
        } else {
            Action::OpenOrInsert
        },
        KeyCode::Up => if key.alt {
            Action::MoveBlockUp
        } else {
            Action::MoveSelection(BACK)
        },
        KeyCode::Down => if key.alt {
            Action::MoveBlockDown
        } else {
            Action::MoveSelection(1)
        },
        KeyCode::PageDown => Action::MoveSelection(full),
        KeyCode::PageUp => Action::MoveSelection(-full),
        KeyCode::Left => Action::MoveColumn(BACK),
        KeyCode::Right => Action::MoveColumn(1),
        KeyCode::Home => Action::ColumnHome,
        KeyCode::End => Action::ColumnEnd,
        _ => Action::Nothing,
    }
}

fn arm_key(app: &mut App, key: KeyEvent)
    ensures
        key_stepped(*old(app), *final(app), key),
{
    match key.code {
        KeyCode::Char('q') => {
            app.pending_chord = Some('q');
            app.status = "press q again to quit".to_owned();
        },
        KeyCode::Char('Z') => {
            app.pending_chord = Some('Z');
            app.status = "press Z again to save and quit".to_owned();
        },
        KeyCode::Char('?') => {
            app.show_help = !app.show_help;
        },
        KeyCode::Char('g') => {
            app.pending_chord = Some('g');
        },
        KeyCode::Char('z') => {
            app.pending_chord = Some('z');
            app.status = "z…".to_owned();
        },
        KeyCode::Char('d') => {
            if !key.ctrl {
                app.pending_chord = Some('d');
            }
        },
        KeyCode::Char('y') => {
            app.pending_chord = Some('y');
        },
        KeyCode::Char('r') => {
            if is_bare(key) {
                app.pending_input_op = Some(PendingInputOp::ReplaceChar);
                app.status = "r… (replace)".to_owned();
            }
        },
        KeyCode::Char('f') => {
            if is_bare(key) {
                app.pending_input_op = Some(PendingInputOp::FindCharForward);
                app.status = "f… (find →)".to_owned();
            }
        },
        KeyCode::Char('F') => {
            app.pending_input_op = Some(PendingInputOp::FindCharBackward);
            app.status = "F… (find ←)".to_owned();
        },
        KeyCode::Char('b') | KeyCode::Char('B') => {
            if key.ctrl {
                app.show_backlinks = !app.show_backlinks;
            }
        },
        _ => {},
    }
}

fn handle_key(app: &mut App, key: KeyEvent) -> (r: Action)
    ensures
        r == key_action(key, old(app).viewport_height, old(app).show_sidebar),
        key_stepped(*old(app), *final(app), key),
{
    let r = action_of_key(key, app.viewport_height, app.show_sidebar);
    arm_key(app, key);
    r
}

// ---------------------------------------------------------------------
// All together
// ---------------------------------------------------------------------

/// What came of a key of Normal mode.
#[derive(Debug)]
pub enum NormalOutcome {
    /// A plugin's command is to be run.
    Plugin { plugin_id: String, command_id: String },
    /// An action of the editor is to be done.
    Act(Action),
}

/// Plugins get the key first: nothing else waits for it.
pub open spec fn free_for_plugins(app: App) -> bool {
    !app.show_help && app.sidebar_focus is None && app.pending_input_op is None
        && app.pending_chord is None
}

/// What a character does that some earlier key waits for.
pub open spec fn op_action(op: PendingInputOp, c: char) -> Action {
    match op {
        PendingInputOp::ReplaceChar => Action::ReplaceChar(c),
        PendingInputOp::FindCharForward => Action::FindCharForward(c),
        PendingInputOp::FindCharBackward => Action::FindCharBackward(c),
    }
}

/// `new` is `old` after a key that no plugin took, and `r` what it does: the
/// help comes first, then the sidebar, then what waits for a character, then
/// what waits for the second key of a chord, then the key by itself.
pub open spec fn editor_stepped(old: App, new: App, key: KeyEvent, r: Action) -> bool {
    if old.show_help {
        new == help_stepped(old, key.code) && r == Action::Nothing
    } else if old.pending_sidebar_delete is Some {
        if says_yes(key.code) {
            new == old && r == Action::SidebarConfirmDelete
        } else {
            &&& new == App { pending_sidebar_delete: None, status: new.status, ..old }
            &&& new.status@ == Seq::<char>::empty()
            &&& r == Action::Nothing
        }
    } else if old.sidebar_focus is Some && sidebar_action(key) is Some {
        &&& r == sidebar_action(key)->0
        &&& new == App {
            sidebar_cursor: if key.code == KeyCode::Char('g') {
                0
            } else {
                old.sidebar_cursor
            },
            ..old
        }
    } else if old.pending_input_op is Some {
        match key.code {
            KeyCode::Char(c) => {
                &&& new == App { pending_input_op: None, ..old }
                &&& r == op_action(old.pending_input_op->0, c)
            },
            _ => {
                &&& new == App { pending_input_op: None, status: new.status, ..old }
                &&& new.status@ == Seq::<char>::empty()
                &&& r == Action::Nothing
            },
        }
    } else if old.pending_chord is Some && chord_action(old.pending_chord->0, key.code) is Some {
        &&& new == App { pending_chord: None, ..old }
        &&& r == chord_action(old.pending_chord->0, key.code)->0
    } else {
        &&& key_stepped(App { pending_chord: None, ..old }, new, key)
        &&& r == key_action(key, old.viewport_height, old.show_sidebar)
    }
}

/// `new` is `old` after a key of Normal mode, and `r` what is to be done.
pub open spec fn normal_stepped(
    old: App,
    new: App,
    key: KeyEvent,
    chord: Option<KeyEvent>,
    bindings: Seq<PluginBinding>,
    r: NormalOutcome,
) -> bool {
    let step = plugin_step(old.pending_plugin_chord, key, chord, bindings);
    if !free_for_plugins(old) {
        r matches NormalOutcome::Act(a) && editor_stepped(old, new, key, a)
    } else {
        match step {
            PluginStepValue::Fire(k) => {
                &&& r matches NormalOutcome::Plugin { plugin_id, command_id }
                &&& plugin_id@ == bindings[k].plugin_id@
                &&& command_id@ == bindings[k].command_id@
                &&& new == App { pending_plugin_chord: None, ..old }
            },
            PluginStepValue::Armed => {
                &&& r == NormalOutcome::Act(Action::Nothing)
                &&& new == App { pending_plugin_chord: chord, status: new.status, ..old }
                &&& new.status@ == "plugin chord…"@
            },
            PluginStepValue::Pass => {
                &&& r matches NormalOutcome::Act(a)
                &&& editor_stepped(App { pending_plugin_chord: None, ..old }, new, key, a)
            },
        }
    }
}

fn handle_editor_key(app: &mut App, key: KeyEvent) -> (r: Action)
    requires
        old(app).help_tab < usize::MAX,
    ensures
        editor_stepped(*old(app), *final(app), key, r),
{
    if app.show_help {
        handle_help_key(app, key.code);
        return Action::Nothing;
    }
    if app.pending_sidebar_delete.is_some() {
        match key.code {
            KeyCode::Char('y') | KeyCode::Char('Y') => {
                return Action::SidebarConfirmDelete;
            },
            _ => {
                app.pending_sidebar_delete = None;
                app.status = String::new();
                return Action::Nothing;
            },
        }
    }
    if app.sidebar_focus.is_some() {
        if let Some(a) = sidebar_key(key) {
            if key.code == KeyCode::Char('g') {
                app.sidebar_cursor = 0;
            }
            return a;
        }
    }
    if let Some(op) = app.pending_input_op {
        app.pending_input_op = None;
        return match key.code {
            KeyCode::Char(c) => match op {
                PendingInputOp::ReplaceChar => Action::ReplaceChar(c),
                PendingInputOp::FindCharForward => Action::FindCharForward(c),
                PendingInputOp::FindCharBackward => Action::FindCharBackward(c),
            },
            _ => {
                app.status = String::new();
                Action::Nothing
            },
        };
    }
    if let Some(first) = app.pending_chord {
        app.pending_chord = None;
        if let Some(a) = chord_key(first, key.code) {
            return a;
        }
    }
    handle_key(app, key)
}

/// A key of Normal mode: what it changes at once, and what is to be done.
/// `chord` is the key as the bindings of plugins spell it.
pub fn handle_normal_key(
    app: &mut App,
    key: KeyEvent,
    chord: Option<KeyEvent>,
    bindings: &Vec<PluginBinding>,
) -> (r: NormalOutcome)
    requires
        old(app).help_tab < usize::MAX,
    ensures
        normal_stepped(*old(app), *final(app), key, chord, bindings@, r),
{
    if !app.show_help && app.sidebar_focus.is_none() && app.pending_input_op.is_none()
        && app.pending_chord.is_none() {
        match try_plugin_binding(app, key, chord, bindings) {
            PluginStep::Fire { plugin_id, command_id } => {
                return NormalOutcome::Plugin { plugin_id, command_id };
            },
            PluginStep::Armed => {
                return NormalOutcome::Act(Action::Nothing);
            },
            PluginStep::Pass => {},
        }
    }
    NormalOutcome::Act(handle_editor_key(app, key))
}

// ---------------------------------------------------------------------
// Laws
// ---------------------------------------------------------------------

/// While the help is open, a key changes nothing but the help.
pub proof fn law_help_swallows_keys(old: App, new: App, key: KeyEvent, r: Action)
    requires
        old.show_help,
        editor_stepped(old, new, key, r),
    ensures
        r == Action::Nothing,
        new == (App {
            show_help: new.show_help,
            help_tab: new.help_tab,
            help_scroll: new.help_scroll,
            ..old
        }),
{
}

/// The editor is never left by a single key, nor by any key while the
/// sidebar, the help or an earlier key takes it.
pub proof fn law_one_key_never_quits(old: App, new: App, key: KeyEvent, r: Action)
    requires
        editor_stepped(old, new, key, r),
        r == Action::Quit,
    ensures
        old.pending_chord == Some('q') || old.pending_chord == Some('Z'),
        key.code == KeyCode::Char(old.pending_chord->0),
{
}

/// The arrow keys, Home and End do what `h`, `j`, `k`, `l`, `0` and `$` do, and
/// with Alt they drag the block as `J` and `K` do.
pub proof fn law_arrows_do_what_letters_do(height: u16, sidebar: bool)
    ensures
        ({
            let bare_key = |code: KeyCode| key_action(plain_key(code), height, sidebar);
            let alt = |code: KeyCode|
                key_action(KeyEvent { alt: true, ..plain_key(code) }, height, sidebar);
            &&& bare_key(KeyCode::Up) == bare_key(KeyCode::Char('k'))
            &&& bare_key(KeyCode::Char('k')) == Action::MoveSelection((-1) as i32)
            &&& bare_key(KeyCode::Down) == bare_key(KeyCode::Char('j'))
            &&& bare_key(KeyCode::Char('j')) == Action::MoveSelection(1)
            &&& bare_key(KeyCode::Left) == bare_key(KeyCode::Char('h'))
            &&& bare_key(KeyCode::Char('h')) == Action::MoveColumn((-1) as i32)
            &&& bare_key(KeyCode::Right) == bare_key(KeyCode::Char('l'))
            &&& bare_key(KeyCode::Char('l')) == Action::MoveColumn(1)
            &&& bare_key(KeyCode::Home) == bare_key(KeyCode::Char('0'))
            &&& bare_key(KeyCode::Char('0')) == Action::ColumnHome
            &&& bare_key(KeyCode::End) == bare_key(KeyCode::Char('$'))
            &&& bare_key(KeyCode::Char('$')) == Action::ColumnEnd
            &&& alt(KeyCode::Up) == bare_key(KeyCode::Char('K'))
            &&& bare_key(KeyCode::Char('K')) == Action::MoveBlockUp
            &&& alt(KeyCode::Down) == bare_key(KeyCode::Char('J'))
            &&& bare_key(KeyCode::Char('J')) == Action::MoveBlockDown
        }),
{
}

/// The keys that page go by a screen, with Ctrl by half of one, at least by a
/// block, and as far up as down.
pub proof fn law_paging_goes_both_ways(height: u16, sidebar: bool)
    ensures
        ({
            let down = key_action(plain_key(KeyCode::PageDown), height, sidebar);
            let up = key_action(plain_key(KeyCode::PageUp), height, sidebar);
            let ctrl = |c: char|
                key_action(
                    KeyEvent { ctrl: true, ..plain_key(KeyCode::Char(c)) },
                    height,
                    sidebar,
                );
            &&& down matches Action::MoveSelection(n) && n >= 1 && n >= height && (height >= 1
                ==> n == height) && up == Action::MoveSelection((-n) as i32)
            &&& ctrl('d') matches Action::MoveSelection(n) && n >= 1 && (height >= 2 ==> n == height
                / 2) && ctrl('u') == Action::MoveSelection((-n) as i32)
        }),
{
}

/// The second key of a chord decides only behind its first key: with any other
/// key armed, or none, nothing is deleted, folded or yanked by it, and the
/// editor is left by no first key.
pub proof fn law_chords_need_their_first_key(first: char, code: KeyCode)
    ensures
        chord_action(first, code) == Some(Action::DeleteBlock) ==> first == 'd',
        chord_action(first, code) == Some(Action::Quit) ==> (first == 'q' || first == 'Z') && code
            == KeyCode::Char(first),
        chord_action(first, code) == Some(Action::YankBlock) ==> first == 'y',
        chord_action(first, code) == Some(Action::DeletePage) ==> first == 'g',
        chord_action(first, code) == Some(Action::FoldAll) || chord_action(first, code) == Some(
            Action::UnfoldAll,
        ) ==> first == 'z',
{
}

/// The help turns from tab to tab in a ring: one tab on and one back is the
/// same tab, and a new tab begins at its top.
pub proof fn law_help_tabs_are_a_ring(app: App)
    requires
        app.help_tab < HELP_TAB_COUNT,
    ensures
        ({
            let on = help_stepped(app, KeyCode::Right);
            let back = help_stepped(app, KeyCode::Left);
            &&& on.help_tab < HELP_TAB_COUNT && back.help_tab < HELP_TAB_COUNT
            &&& on.help_tab != app.help_tab
            &&& help_stepped(on, KeyCode::Left).help_tab == app.help_tab
            &&& help_stepped(back, KeyCode::Right).help_tab == app.help_tab
            &&& on.help_scroll == 0 && back.help_scroll == 0
            &&& help_stepped(app, KeyCode::Tab) == on
            &&& help_stepped(app, KeyCode::Char('l')) == on
            &&& help_stepped(app, KeyCode::Char('h')) == back
        }),
{
}

/// In the help, a step down undoes a step up and a page down a page up, as far
/// as there is room, and Home is the top.
pub proof fn law_help_scrolls_both_ways(app: App)
    requires
        HELP_PAGE <= app.help_scroll < u16::MAX - HELP_PAGE,
    ensures
        help_stepped(app, KeyCode::Down).help_scroll == app.help_scroll + 1,
        help_stepped(help_stepped(app, KeyCode::Down), KeyCode::Up) == app,
        help_stepped(help_stepped(app, KeyCode::PageDown), KeyCode::PageUp) == app,
        help_stepped(app, KeyCode::PageDown).help_scroll > help_stepped(
            app,
            KeyCode::Down,
        ).help_scroll,
        help_stepped(app, KeyCode::Home).help_scroll == 0,
        help_stepped(app, KeyCode::Esc).show_help == false,
{
}

/// What waits for a character is done with the one that is typed, whatever it
/// is, and then nothing waits; any other key drops it.
pub proof fn law_one_character_is_waited_for(old: App, new: App, key: KeyEvent, r: Action)
    requires
        !old.show_help,
        old.pending_sidebar_delete is None,
        old.sidebar_focus is None,
        old.pending_input_op is Some,
        editor_stepped(old, new, key, r),
    ensures
        new.pending_input_op is None,
        new.page == old.page,
        key.code matches KeyCode::Char(c) ==> match old.pending_input_op->0 {
            PendingInputOp::ReplaceChar => r == Action::ReplaceChar(c),
            PendingInputOp::FindCharForward => r == Action::FindCharForward(c),
            PendingInputOp::FindCharBackward => r == Action::FindCharBackward(c),
        },
        !(key.code is Char) ==> r == Action::Nothing,
{
}

/// A page is deleted only by a yes: every other key takes the question back
/// and does nothing else.
pub proof fn law_only_a_yes_deletes_a_page(old: App, new: App, key: KeyEvent, r: Action)
    requires
        !old.show_help,
        old.pending_sidebar_delete is Some,
        editor_stepped(old, new, key, r),
    ensures
        r == Action::SidebarConfirmDelete <==> key.code == KeyCode::Char('y') || key.code
            == KeyCode::Char('Y'),
        r != Action::SidebarConfirmDelete ==> r == Action::Nothing && new.pending_sidebar_delete
            is None,
        new.page == old.page,
{
}

/// `r`, `f` and `F` wait for a character, `d`, `g`, `y`, `z`, `q` and `Z` for
/// a second key, and none of them does anything yet.
pub proof fn law_first_keys_only_wait(old: App, new: App, c: char)
    requires
        c == 'r' || c == 'f' || c == 'F' || c == 'd' || c == 'g' || c == 'y' || c == 'z' || c
            == 'q' || c == 'Z',
        key_stepped(old, new, plain_key(KeyCode::Char(c))),
    ensures
        key_action(plain_key(KeyCode::Char(c)), old.viewport_height, old.show_sidebar)
            == Action::Nothing,
        new.page == old.page,
        c == 'r' ==> new.pending_input_op == Some(PendingInputOp::ReplaceChar),
        c == 'f' ==> new.pending_input_op == Some(PendingInputOp::FindCharForward),
        c == 'F' ==> new.pending_input_op == Some(PendingInputOp::FindCharBackward),
        c == 'd' || c == 'g' || c == 'y' || c == 'z' || c == 'q' || c == 'Z'
            ==> new.pending_chord == Some(c),
{
}

/// The keys do what the help says of them, whatever the height of the view.
pub proof fn law_keys_do_what_the_help_says(key: KeyEvent, height: u16, sidebar: bool)
    requires
        !key.alt,
        !key.shift,
        !key.other,
    ensures
        !key.ctrl && key.code == KeyCode::Char('i') ==> key_action(key, height, sidebar)
            == Action::EnterInsert(InsertCursor::AtCursor),
        !key.ctrl && key.code == KeyCode::Char('I') ==> key_action(key, height, sidebar)
            == Action::EnterInsert(InsertCursor::Start),
        !key.ctrl && key.code == KeyCode::Char('a') ==> key_action(key, height, sidebar)
            == Action::EnterInsert(InsertCursor::AfterCursor),
        !key.ctrl && key.code == KeyCode::Char('A') ==> key_action(key, height, sidebar)
            == Action::EnterInsertAtEnd,
        !key.ctrl && key.code == KeyCode::Char('o') ==> key_action(key, height, sidebar)
            == Action::CreateBelow,
        !key.ctrl && key.code == KeyCode::Char('O') ==> key_action(key, height, sidebar)
            == Action::CreateAbove,
        !key.ctrl && key.code == KeyCode::Char('K') ==> key_action(key, height, sidebar)
            == Action::MoveBlockUp,
        !key.ctrl && key.code == KeyCode::Char('J') ==> key_action(key, height, sidebar)
            == Action::MoveBlockDown,
        !key.ctrl && key.code == KeyCode::Char('p') ==> key_action(key, height, sidebar)
            == Action::PasteFormatted,
        !key.ctrl && key.code == KeyCode::Char('P') ==> key_action(key, height, sidebar)
            == Action::PastePlain,
        !key.ctrl && key.code == KeyCode::Char('c') ==> key_action(key, height, sidebar)
            == Action::ToggleCollapse,
        !key.ctrl && key.code == KeyCode::Char('u') ==> key_action(key, height, sidebar)
            == Action::Undo,
        !key.ctrl && key.code == KeyCode::Char('t') ==> key_action(key, height, sidebar)
            == Action::GoToday,
        !key.ctrl && key.code == KeyCode::Char('/') ==> key_action(key, height, sidebar)
            == Action::OpenSlash,
        !key.ctrl && key.code == KeyCode::Char(':') ==> key_action(key, height, sidebar)
            == Action::OpenCommand,
        !key.ctrl && key.code == KeyCode::Char('n') ==> key_action(key, height, sidebar)
            == Action::SearchNext,
        !key.ctrl && key.code == KeyCode::Char('N') ==> key_action(key, height, sidebar)
            == Action::SearchPrev,
        !key.ctrl && key.code == KeyCode::Char('V') ==> key_action(key, height, sidebar)
            == Action::EnterVisual,
        !key.ctrl && key.code == KeyCode::Char('Y') ==> key_action(key, height, sidebar)
            == Action::YankBlock,
        !key.ctrl && key.code == KeyCode::Char('*') ==> key_action(key, height, sidebar)
            == (Action::SearchWord { forward: true }),
        !key.ctrl && key.code == KeyCode::Char('#') ==> key_action(key, height, sidebar)
            == (Action::SearchWord { forward: false }),
        !key.ctrl && key.code == KeyCode::Char('G') ==> key_action(key, height, sidebar)
            == Action::MoveSelection(FAR_DOWN),
        key.code == KeyCode::Tab ==> key_action(key, height, sidebar) == Action::Indent,
        key.code == KeyCode::BackTab ==> key_action(key, height, sidebar) == Action::Outdent,
        key.code == KeyCode::Enter ==> key_action(key, height, sidebar) == (if key.ctrl {
            Action::ToggleTodo
        } else {
            Action::OpenOrInsert
        }),
        key.ctrl && key.code == KeyCode::Char('t') ==> key_action(key, height, sidebar)
            == Action::ToggleTodo,
        key.ctrl && key.code == KeyCode::Char('r') ==> key_action(key, height, sidebar)
            == Action::Redo,
        key.ctrl && key.code == KeyCode::Char('p') ==> key_action(key, height, sidebar)
            == Action::OpenQuickSwitch,
        key.ctrl && key.code == KeyCode::Char('e') ==> key_action(key, height, sidebar) == (
        if sidebar {
            Action::SidebarClose
        } else {
            Action::SidebarOpen
        }),
{
}

/// Two keys after each other do what the help says of them, and others do
/// nothing together.
pub proof fn law_chords_do_what_the_help_says(first: char, c: char)
    ensures
        first == 'd' && c == 'd' ==> chord_action(first, KeyCode::Char(c)) == Some(
            Action::DeleteBlock,
        ),
        first == 'g' && c == 'j' ==> chord_action(first, KeyCode::Char(c)) == Some(
            Action::GoToday,
        ),
        first == 'g' && c == 'x' ==> chord_action(first, KeyCode::Char(c)) == Some(
            Action::RunBlock,
        ),
        first == 'g' && c == 'p' ==> chord_action(first, KeyCode::Char(c)) == Some(
            Action::OpenProperties,
        ),
        first == 'g' && c == 'P' ==> chord_action(first, KeyCode::Char(c)) == Some(
            Action::TogglePinned,
        ),
        first == 'g' && c == 'd' ==> chord_action(first, KeyCode::Char(c)) == Some(
            Action::DeletePage,
        ),
        first == 'g' && c == 'r' ==> chord_action(first, KeyCode::Char(c)) == Some(
            Action::InsertRemind,
        ),
        first == 'g' && c == 'R' ==> chord_action(first, KeyCode::Char(c)) == Some(
            Action::InsertRemindNag,
        ),
        first == 'g' && c == 's' ==> chord_action(first, KeyCode::Char(c)) == Some(
            Action::SnoozeBlock,
        ),
        first == 'g' && c == 'n' ==> chord_action(first, KeyCode::Char(c)) == Some(
            Action::OpenReminders,
        ),
        first == 'y' && c == 'y' ==> chord_action(first, KeyCode::Char(c)) == Some(
            Action::YankBlock,
        ),
        first == 'y' && c == 'r' ==> chord_action(first, KeyCode::Char(c)) == Some(
            Action::YankRef,
        ),
        first == 'q' && c == 'q' ==> chord_action(first, KeyCode::Char(c)) == Some(
            Action::Quit,
        ),
        first == 'Z' && c == 'Z' ==> chord_action(first, KeyCode::Char(c)) == Some(
            Action::Quit,
        ),
        first == 'g' && c == 'v' ==> chord_action(first, KeyCode::Char(c)) == Some(
            Action::ReselectVisual,
        ),
        first == 'z' && c == 'R' ==> chord_action(first, KeyCode::Char(c)) == Some(
            Action::UnfoldAll,
        ),
        first == 'z' && c == 'M' ==> chord_action(first, KeyCode::Char(c)) == Some(
            Action::FoldAll,
        ),
        first == 'z' && c == 'z' ==> chord_action(first, KeyCode::Char(c)) == Some(
            Action::CenterViewport,
        ),
        first == 'z' && c == 'i' ==> chord_action(first, KeyCode::Char(c)) == Some(
            Action::ZoomIn,
        ),
        first == 'z' && c == 'o' ==> chord_action(first, KeyCode::Char(c)) == Some(
            Action::ZoomOut,
        ),
        first == 'g' && c == 'g' ==> chord_action(first, KeyCode::Char(c)) == Some(
            Action::MoveSelection(FAR_UP),
        ),
        first != 'd' && first != 'g' && first != 'y' && first != 'q' && first != 'Z' && first != 'z'
            ==> chord_action(first, KeyCode::Char(c)) is None,
{
}

/// In the sidebar the keys go through its pages and sections, and nothing is
/// deleted before it is asked for.
pub proof fn law_the_sidebar_has_its_keys(key: KeyEvent)
    ensures
        key.code == KeyCode::Char('j') || key.code == KeyCode::Down ==> sidebar_action(key) == Some(
            Action::SidebarMove(1),
        ),
        key.code == KeyCode::Char('k') || key.code == KeyCode::Up ==> sidebar_action(key) == Some(
            Action::SidebarMove((-1) as i32),
        ),
        key.code == KeyCode::Tab ==> sidebar_action(key) == Some(
            Action::SidebarCycle { forward: true },
        ),
        key.code == KeyCode::BackTab ==> sidebar_action(key) == Some(
            Action::SidebarCycle { forward: false },
        ),
        key.code == KeyCode::Enter ==> sidebar_action(key) == Some(Action::SidebarActivate),
        key.code == KeyCode::Esc ==> sidebar_action(key) == Some(Action::SidebarBlur),
        sidebar_action(key) == Some(Action::SidebarDelete) <==> key.code == KeyCode::Char('d'),
        sidebar_action(key) != Some(Action::SidebarConfirmDelete),
{
}

/// A plugin gets a key only where nothing of the page waits for it, and then
/// the page does nothing with it.
pub proof fn law_plugins_get_keys_that_are_free(
    old: App,
    new: App,
    key: KeyEvent,
    chord: Option<KeyEvent>,
    bindings: Seq<PluginBinding>,
    r: NormalOutcome,
)
    requires
        normal_stepped(old, new, key, chord, bindings, r),
    ensures
        r is Plugin ==> !old.show_help && old.sidebar_focus is None && old.pending_input_op is None
            && old.pending_chord is None && new.page == old.page && new.selected == old.selected
            && new.pending_plugin_chord is None,
        old.show_help || old.sidebar_focus is Some || old.pending_input_op is Some
            || old.pending_chord is Some ==> r is Act,
{
}

} // verus!

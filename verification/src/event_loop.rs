//! The loop that drives the editor: what is done next, by what was done last
//! and what came of it.

use crate::actions::persistence::{waited, MAX_SAVE_DEFER_MS};
use crate::keys::KeyEvent;
use crate::runtime::{poll_timeout, route_key, route_of, wait_for, Route};
use crate::state::{live_toasts, toast_value, toasts_view, App, ToastKind};
use vstd::prelude::*;

verus! {

/// What the loop asks for.
#[derive(Clone, Copy, PartialEq, Eq, Structural, Debug)]
pub enum Request {
    /// Take in the index of the workspace, if it has been built.
    PollIndex,
    /// Take in the index of the backlinks, if it has been built.
    PollBacklinkIndex,
    /// Take in what peers wrote.
    PollPeers,
    /// Take in files that others wrote.
    PollFiles,
    /// Notify of the reminders that are due.
    Remind,
    Draw,
    /// See whether a key waits.
    PeekInput,
    /// Write the page.
    Persist,
    /// Wait for something to happen, for so many milliseconds.
    Wait { ms: u64 },
    /// Read the page again if it was changed on disk.
    CheckDisk,
    /// Paste what was pasted.
    Paste,
    /// Handle the mouse.
    Mouse,
    /// Put the edited text into the page.
    CommitInsert,
    /// Read the workspace again.
    RefreshWorkspace,
    /// Hand the key to the overlay.
    OverlayKey { key: KeyEvent },
    /// Hand the key to Normal mode.
    NormalKey { key: KeyEvent },
    /// Hand the key to Insert mode.
    InsertKey { key: KeyEvent },
    /// Hand the key to Visual mode.
    VisualKey { key: KeyEvent },
    /// Let plugins see what the key changed.
    RunHooks,
    /// Leave the editor.
    Leave,
}

/// What came of a request.
#[derive(Clone, Copy, PartialEq, Eq, Structural, Debug)]
pub enum Reply {
    /// It was done.
    Done,
    /// It was done, and the key leaves the editor.
    Quits,
    /// A key waits.
    InputWaits,
    /// Nothing happened in time.
    Nothing,
    /// A key was pressed.
    Pressed { key: KeyEvent },
    /// Something was pasted.
    Pasted,
    /// The mouse was used.
    MouseUsed,
    /// Something happened that is of no concern.
    Other,
}

/// Where the loop is.
#[derive(Clone, Copy, PartialEq, Eq, Structural, Debug)]
pub enum Stage {
    /// A turn begins.
    Turn,
    IndexPolled,
    BacklinkIndexPolled,
    PeersPolled,
    FilesPolled,
    Reminded,
    Drawn,
    Peeked,
    /// The pending edit was written.
    Flushed,
    Waited,
    /// The page is up to date, for the key that was pressed.
    Synced { pressed: KeyEvent },
    /// The page is up to date, for what was pasted.
    SyncedToPaste,
    CommittedToLeave,
    CommittedToSave,
    CommittedToRefresh,
    Refreshed,
    /// The page was written because the user said so.
    Saved,
    /// The overlay had the key.
    OverlayDone,
    /// The mode had the key.
    ModeDone,
    /// The pending edit was written, and nothing is left to do.
    Leaving,
    Left,
}

/// The loop.
#[derive(Debug)]
pub struct EventLoop {
    pub stage: Stage,
}

/// Leaving: a pending edit is written first.
pub open spec fn leave(dirty: bool) -> (Stage, Request) {
    if dirty {
        (Stage::Leaving, Request::Persist)
    } else {
        (Stage::Left, Request::Leave)
    }
}

/// What is done with a key that goes somewhere.
pub open spec fn routed(app: App, route: Route, pressed: KeyEvent) -> (Stage, Request) {
    match route {
        Route::Quit { commit } => if commit {
            (Stage::CommittedToLeave, Request::CommitInsert)
        } else {
            leave(app.dirty_since is Some)
        },
        Route::HelpClosed => (Stage::IndexPolled, Request::PollIndex),
        Route::Save { commit } => if commit {
            (Stage::CommittedToSave, Request::CommitInsert)
        } else {
            (Stage::Saved, Request::Persist)
        },
        Route::Refresh { commit } => if commit {
            (Stage::CommittedToRefresh, Request::CommitInsert)
        } else {
            (Stage::Refreshed, Request::RefreshWorkspace)
        },
        Route::Overlay => (Stage::OverlayDone, Request::OverlayKey { key: pressed }),
        Route::Normal => (Stage::ModeDone, Request::NormalKey { key: pressed }),
        Route::Insert => (Stage::ModeDone, Request::InsertKey { key: pressed }),
        Route::Visual => (Stage::ModeDone, Request::VisualKey { key: pressed }),
    }
}

/// Whether the pending edit is written before the loop waits.
pub open spec fn flushes(app: App, reply: Reply) -> bool {
    waited(app) matches Some(age) && (age >= MAX_SAVE_DEFER_MS || reply != Reply::InputWaits)
}

/// What is done next.
pub open spec fn next(stage: Stage, app: App, reply: Reply, index_pending: bool) -> (
    Stage,
    Request,
) {
    let turn = (Stage::IndexPolled, Request::PollIndex);
    let wait = (Stage::Waited, Request::Wait { ms: wait_for(index_pending) });
    let dirty = app.dirty_since is Some;
    match stage {
        Stage::Turn => turn,
        Stage::IndexPolled => (Stage::BacklinkIndexPolled, Request::PollBacklinkIndex),
        Stage::BacklinkIndexPolled => (Stage::PeersPolled, Request::PollPeers),
        Stage::PeersPolled => (Stage::FilesPolled, Request::PollFiles),
        Stage::FilesPolled => (Stage::Reminded, Request::Remind),
        Stage::Reminded => (Stage::Drawn, Request::Draw),
        Stage::Drawn => if dirty {
            (Stage::Peeked, Request::PeekInput)
        } else {
            wait
        },
        Stage::Peeked => if flushes(app, reply) {
            (Stage::Flushed, Request::Persist)
        } else {
            wait
        },
        Stage::Flushed => wait,
        Stage::Waited => match reply {
            Reply::Nothing => (Stage::Turn, Request::CheckDisk),
            Reply::Pressed { key } => (Stage::Synced { pressed: key }, Request::CheckDisk),
            Reply::Pasted => (Stage::SyncedToPaste, Request::CheckDisk),
            Reply::MouseUsed => (Stage::Turn, Request::Mouse),
            _ => turn,
        },
        Stage::SyncedToPaste => (Stage::Turn, Request::Paste),
        Stage::Synced { pressed } => routed(app, route_of(app, pressed), pressed),
        Stage::CommittedToLeave => leave(dirty),
        Stage::CommittedToSave => if dirty {
            (Stage::Saved, Request::Persist)
        } else {
            turn
        },
        Stage::CommittedToRefresh => (Stage::Refreshed, Request::RefreshWorkspace),
        Stage::Refreshed => turn,
        Stage::Saved => turn,
        Stage::OverlayDone => if reply == Reply::Quits {
            leave(dirty)
        } else {
            turn
        },
        Stage::ModeDone => if reply == Reply::Quits {
            leave(dirty)
        } else {
            (Stage::Turn, Request::RunHooks)
        },
        Stage::Leaving => (Stage::Left, Request::Leave),
        Stage::Left => (Stage::Left, Request::Leave),
    }
}

/// `new` is `app` after a toast that the page was written.
pub open spec fn said_saved(app: App, new: App) -> bool {
    &&& new == (App { toasts: new.toasts, ..app })
    &&& toasts_view(new.toasts@) == toasts_view(app.toasts@).push(
        toast_value(app, ToastKind::Success, "saved"@),
    )
}

/// `new` is `app` without a pending edit.
pub open spec fn flushed(app: App, new: App) -> bool {
    new == (App { dirty_since: None, ..app })
}

/// What a step does to the editor: old toasts leave before it is drawn, a
/// page that is to be written has no pending edit any more, and what the user
/// asked for is reported.
pub open spec fn edited_by(stage: Stage, app: App, reply: Reply, new: App) -> bool {
    match stage {
        Stage::Reminded => {
            &&& new == (App { toasts: new.toasts, ..app })
            &&& toasts_view(new.toasts@) == live_toasts(toasts_view(app.toasts@), app.now_ms)
        },
        Stage::Peeked => if flushes(app, reply) {
            flushed(app, new)
        } else {
            new == app
        },
        Stage::Synced { pressed } => match route_of(app, pressed) {
            Route::Quit { commit: false } => flushed(app, new),
            Route::Save { commit: false } => flushed(app, new),
            Route::HelpClosed => new == (App { show_help: false, help_scroll: 0, ..app }),
            _ => new == app,
        },
        Stage::CommittedToLeave => flushed(app, new),
        Stage::CommittedToSave => if app.dirty_since is Some {
            flushed(app, new)
        } else {
            said_saved(app, new)
        },
        Stage::Saved => said_saved(app, new),
        Stage::Refreshed => {
            new == (App { status: new.status, ..app }) && new.status@ == "refreshed"@
        },
        Stage::OverlayDone | Stage::ModeDone => if reply == Reply::Quits {
            flushed(app, new)
        } else {
            new == app
        },
        _ => new == app,
    }
}

/// Leaves the editor.
fn make_leave(app: &mut App) -> (r: (Stage, Request))
    ensures
        r == leave(old(app).dirty_since is Some),
        *final(app) == (App { dirty_since: None, ..*old(app) }),
{
    if app.flush_pending_save() {
        (Stage::Leaving, Request::Persist)
    } else {
        (Stage::Left, Request::Leave)
    }
}

/// Sends a key where it goes.
fn make_routed(app: &mut App, pressed: KeyEvent) -> (r: (Stage, Request))
    ensures
        r == routed(*old(app), route_of(*old(app), pressed), pressed),
        edited_by(Stage::Synced { pressed }, *old(app), Reply::Done, *final(app)),
{
    match route_key(app, pressed) {
        Route::Quit { commit } => if commit {
            (Stage::CommittedToLeave, Request::CommitInsert)
        } else {
            make_leave(app)
        },
        Route::HelpClosed => (Stage::IndexPolled, Request::PollIndex),
        Route::Save { commit } => if commit {
            (Stage::CommittedToSave, Request::CommitInsert)
        } else {
            app.save();
            let _ = app.flush_pending_save();
            (Stage::Saved, Request::Persist)
        },
        Route::Refresh { commit } => if commit {
            (Stage::CommittedToRefresh, Request::CommitInsert)
        } else {
            (Stage::Refreshed, Request::RefreshWorkspace)
        },
        Route::Overlay => (Stage::OverlayDone, Request::OverlayKey { key: pressed }),
        Route::Normal => (Stage::ModeDone, Request::NormalKey { key: pressed }),
        Route::Insert => (Stage::ModeDone, Request::InsertKey { key: pressed }),
        Route::Visual => (Stage::ModeDone, Request::VisualKey { key: pressed }),
    }
}

impl EventLoop {
    /// The loop before its first turn.
    pub fn new() -> (l: EventLoop)
        ensures
            l.stage == Stage::Turn,
    {
        EventLoop { stage: Stage::Turn }
    }

    /// What is done next.
    pub fn step(&mut self, app: &mut App, reply: Reply, index_pending: bool) -> (r: Request)
        ensures
            (final(self).stage, r) == next(old(self).stage, *old(app), reply, index_pending),
            edited_by(old(self).stage, *old(app), reply, *final(app)),
    {
        let turn = (Stage::IndexPolled, Request::PollIndex);
        let wait = (Stage::Waited, Request::Wait { ms: poll_timeout(index_pending) });
        let (stage, r) = match self.stage {
            Stage::Turn => turn,
            Stage::IndexPolled => (Stage::BacklinkIndexPolled, Request::PollBacklinkIndex),
            Stage::BacklinkIndexPolled => (Stage::PeersPolled, Request::PollPeers),
            Stage::PeersPolled => (Stage::FilesPolled, Request::PollFiles),
            Stage::FilesPolled => (Stage::Reminded, Request::Remind),
            Stage::Reminded => {
                app.prune_toasts();
                (Stage::Drawn, Request::Draw)
            },
            Stage::Drawn => if app.has_pending_save() {
                (Stage::Peeked, Request::PeekInput)
            } else {
                wait
            },
            Stage::Peeked => if app.flush_now(reply == Reply::InputWaits) {
                let _ = app.flush_pending_save();
                (Stage::Flushed, Request::Persist)
            } else {
                wait
            },
            Stage::Flushed => wait,
            Stage::Waited => match reply {
                Reply::Nothing => (Stage::Turn, Request::CheckDisk),
                Reply::Pressed { key } => (Stage::Synced { pressed: key }, Request::CheckDisk),
                Reply::Pasted => (Stage::SyncedToPaste, Request::CheckDisk),
                Reply::MouseUsed => (Stage::Turn, Request::Mouse),
                _ => turn,
            },
            Stage::SyncedToPaste => (Stage::Turn, Request::Paste),
            Stage::Synced { pressed } => make_routed(app, pressed),
            Stage::CommittedToLeave => make_leave(app),
            Stage::CommittedToSave => if app.flush_pending_save() {
                (Stage::Saved, Request::Persist)
            } else {
                app.saved();
                turn
            },
            Stage::CommittedToRefresh => (Stage::Refreshed, Request::RefreshWorkspace),
            Stage::Refreshed => {
                app.refreshed();
                turn
            },
            Stage::Saved => {
                app.saved();
                turn
            },
            Stage::OverlayDone => if reply == Reply::Quits {
                make_leave(app)
            } else {
                turn
            },
            Stage::ModeDone => if reply == Reply::Quits {
                make_leave(app)
            } else {
                (Stage::Turn, Request::RunHooks)
            },
            Stage::Leaving => (Stage::Left, Request::Leave),
            Stage::Left => (Stage::Left, Request::Leave),
        };
        self.stage = stage;
        r
    }
}

// ---------------------------------------------------------------------
// Laws
// ---------------------------------------------------------------------

/// Leaving never drops an edit: the editor is left only when no edit is
/// pending, or right after the page was written.
pub proof fn law_leaving_writes_first(stage: Stage, app: App, reply: Reply, index_pending: bool)
    requires
        stage != Stage::Left,
        next(stage, app, reply, index_pending).1 == Request::Leave,
    ensures
        stage == Stage::Leaving || app.dirty_since is None,
        forall|before: Stage, a: App, r: Reply, p: bool|
            (#[trigger] next(before, a, r, p)).0 == Stage::Leaving ==> next(before, a, r, p).1
                == Request::Persist,
{
}

/// A key acts on the page as it is on disk: it is handed on only right after
/// the page was checked.
pub proof fn law_keys_meet_the_disk(stage: Stage, app: App, reply: Reply, index_pending: bool)
    requires
        match next(stage, app, reply, index_pending).1 {
            Request::OverlayKey { .. } => true,
            Request::NormalKey { .. } => true,
            Request::InsertKey { .. } => true,
            Request::VisualKey { .. } => true,
            _ => false,
        },
    ensures
        stage is Synced,
        forall|before: Stage, a: App, r: Reply, p: bool|
            (#[trigger] next(before, a, r, p)).0 is Synced ==> next(before, a, r, p).1
                == Request::CheckDisk,
{
}

/// However fast keys come, an edit is not put off for longer than
/// `MAX_SAVE_DEFER_MS`: once it has waited for so long, it is written before
/// the loop waits for the next key.
pub proof fn law_edits_are_not_put_off(app: App, reply: Reply, again: Reply, index_pending: bool)
    requires
        waited(app) matches Some(age) && age >= MAX_SAVE_DEFER_MS,
    ensures
        next(Stage::Drawn, app, reply, index_pending) == (Stage::Peeked, Request::PeekInput),
        next(Stage::Peeked, app, again, index_pending) == (Stage::Flushed, Request::Persist),
{
}

/// An edit that waits is written when it is counted as written, and only then.
pub proof fn law_no_edit_is_dropped(
    stage: Stage,
    app: App,
    reply: Reply,
    new: App,
    index_pending: bool,
)
    requires
        edited_by(stage, app, reply, new),
        app.dirty_since is Some,
    ensures
        new.dirty_since is None <==> next(stage, app, reply, index_pending).1 == Request::Persist
            && stage != Stage::Saved,
        new.page == app.page,
        new.undo == app.undo,
{
}

/// Each turn polls the indices, the peers and the files, looks for reminders
/// and draws, in this order.
pub proof fn law_a_turn_polls_and_draws(
    app: App,
    a: Reply,
    b: Reply,
    c: Reply,
    d: Reply,
    e: Reply,
    f: Reply,
    p: bool,
)
    ensures
        ({
            let s1 = next(Stage::Turn, app, a, p);
            let s2 = next(s1.0, app, b, p);
            let s3 = next(s2.0, app, c, p);
            let s4 = next(s3.0, app, d, p);
            let s5 = next(s4.0, app, e, p);
            let s6 = next(s5.0, app, f, p);
            &&& s1.1 == Request::PollIndex
            &&& s2.1 == Request::PollBacklinkIndex
            &&& s3.1 == Request::PollPeers
            &&& s4.1 == Request::PollFiles
            &&& s5.1 == Request::Remind
            &&& s6.1 == Request::Draw
        }),
{
}

/// What the user does is answered: a key goes where the mode and the overlay
/// send it, a paste and the mouse are handled, and the loop turns again.
pub proof fn law_input_is_answered(app: App, key: KeyEvent, a: Reply, b: Reply, p: bool)
    requires
        a != Reply::Quits,
    ensures
        ({
            let s = next(Stage::Waited, app, Reply::Pressed { key }, p);
            let t = next(s.0, app, b, p);
            &&& route_of(app, key) == Route::Normal ==> t.1 == Request::NormalKey { key }
            &&& route_of(app, key) == Route::Insert ==> t.1 == Request::InsertKey { key }
            &&& route_of(app, key) == Route::Visual ==> t.1 == Request::VisualKey { key }
            &&& route_of(app, key) == Route::Overlay ==> t.1 == Request::OverlayKey { key }
            &&& route_of(app, key) is Save && app.dirty_since is Some ==> t.1 == Request::Persist
                || t.1 == Request::CommitInsert
            &&& route_of(app, key) is Refresh ==> t.1 == Request::RefreshWorkspace || next(
                t.0,
                app,
                a,
                p,
            ).1 == Request::RefreshWorkspace
            &&& route_of(app, key) == Route::Normal || route_of(app, key) == Route::Insert
                || route_of(app, key) == Route::Visual ==> next(t.0, app, a, p) == (
                Stage::Turn,
                Request::RunHooks,
            )
        }),
        next(next(Stage::Waited, app, Reply::Pasted, p).0, app, b, p) == (
            Stage::Turn,
            Request::Paste,
        ),
        next(Stage::Waited, app, Reply::MouseUsed, p) == (Stage::Turn, Request::Mouse),
        next(Stage::Waited, app, Reply::Nothing, p).0 == Stage::Turn,
{
}

} // verus!

//! Writing the page. Edits only mark it; it is written once nothing else
//! waits, and before anything reads it back.

use crate::outline::{
    count, flat_count, lemma_count_concat, lemma_count_one, nodes_view, preorder, preorder_all,
    NodeView, OutlineNode,
};
use crate::state::{
    dirty_mark, toast_value, toasts_view, App, Mode, PageValue, ToastKind,
};
use crate::text::cat;
use vstd::prelude::*;

verus! {

/// For how long an edit may wait to be written, in milliseconds.
pub const MAX_SAVE_DEFER_MS: u64 = 600;

/// For how long an edit has waited.
pub open spec fn waited(app: App) -> Option<u64> {
    match app.dirty_since {
        Some(t) => Some(
            (if t <= app.now_ms {
                app.now_ms - t
            } else {
                0
            }) as u64,
        ),
        None => None,
    }
}

/// A block with nothing in it.
pub open spec fn empty_block() -> NodeView {
    NodeView { text: Seq::empty(), children: Seq::empty(), properties: Seq::empty() }
}

/// The blocks that a page keeps: at least an empty one.
pub open spec fn kept_blocks(v: Seq<NodeView>) -> Seq<NodeView> {
    if count(v) == 0 {
        v.push(empty_block())
    } else {
        v
    }
}

proof fn lemma_one_block(v: Seq<NodeView>)
    requires
        count(v) == 0,
    ensures
        count(v.push(empty_block())) == 1,
{
    let w = v.push(empty_block());
    assert(w.drop_last() =~= v);
    assert(preorder_all(w) == preorder_all(v) + preorder(empty_block()));
    assert(preorder(empty_block()) == seq![empty_block()] + preorder_all(
        empty_block().children,
    ));
    assert(preorder_all(empty_block().children).len() == 0);
}

fn new_block() -> (n: OutlineNode)
    ensures
        n@ == empty_block(),
{
    let n = OutlineNode { text: String::new(), children: Vec::new(), properties: Vec::new() };
    assert(n@.children =~= Seq::empty());
    assert(n@.properties =~= Seq::empty());
    n
}

fn keep_a_block(blocks: &mut Vec<OutlineNode>) -> (added: bool)
    requires
        count(nodes_view(old(blocks)@)) <= usize::MAX,
    ensures
        nodes_view(final(blocks)@) == kept_blocks(nodes_view(old(blocks)@)),
        added == (count(nodes_view(old(blocks)@)) == 0),
        0 < count(nodes_view(final(blocks)@)) <= usize::MAX,
{
    let ghost v = nodes_view(blocks@);
    if flat_count(blocks) > 0 {
        return false;
    }
    let n = new_block();
    blocks.push(n);
    proof {
        assert(nodes_view(blocks@) =~= v.push(empty_block()));
        lemma_one_block(v);
    }
    true
}

impl App {
    /// Marks the page as changed. It is written later.
    pub fn save(&mut self)
        ensures
            *final(self) == (App { dirty_since: Some(dirty_mark(*old(self))), ..*old(self) }),
    {
        if self.dirty_since.is_none() {
            self.dirty_since = Some(self.now_ms);
        }
    }

    /// Whether an edit waits to be written.
    pub fn has_pending_save(&self) -> (r: bool)
        ensures
            r == (self.dirty_since is Some),
    {
        self.dirty_since.is_some()
    }

    /// For how long an edit has waited to be written, in milliseconds.
    pub fn pending_save_age(&self) -> (r: Option<u64>)
        ensures
            r == waited(*self),
    {
        match self.dirty_since {
            Some(t) => Some(
                if t <= self.now_ms {
                    self.now_ms - t
                } else {
                    0
                },
            ),
            None => None,
        }
    }

    /// Whether an edit is to be written now: it has waited for too long, or no
    /// key waits.
    pub fn flush_now(&self, input_waiting: bool) -> (r: bool)
        ensures
            r == match waited(*self) {
                Some(age) => age >= MAX_SAVE_DEFER_MS || !input_waiting,
                None => false,
            },
    {
        match self.pending_save_age() {
            Some(age) => age >= MAX_SAVE_DEFER_MS || !input_waiting,
            None => false,
        }
    }

    /// Takes the mark away; the page is to be written if there was one.
    pub fn flush_pending_save(&mut self) -> (write: bool)
        ensures
            write == (old(self).dirty_since is Some),
            *final(self) == (App { dirty_since: None, ..*old(self) }),
    {
        let write = self.dirty_since.is_some();
        self.dirty_since = None;
        write
    }

    /// Whether the page may be written: one that could not be read may not,
    /// since that would replace what is on disk.
    pub fn may_persist(&mut self) -> (r: bool)
        ensures
            r == !old(self).load_failed,
            if r {
                *final(self) == *old(self)
            } else {
                &&& *final(self) == (App { toasts: final(self).toasts, ..*old(self) })
                &&& toasts_view(final(self).toasts@) == toasts_view(old(self).toasts@).push(
                    toast_value(
                        *old(self),
                        ToastKind::Error,
                        "not saving: this page could not be read from disk"@,
                    ),
                )
            },
    {
        if self.load_failed {
            self.toast(
                ToastKind::Error,
                "not saving: this page could not be read from disk",
            );
            return false;
        }
        true
    }

    /// Says that the page could not be written.
    pub fn write_failed(&mut self, why: &str)
        ensures
            *final(self) == (App { toasts: final(self).toasts, ..*old(self) }),
            toasts_view(final(self).toasts@) == toasts_view(old(self).toasts@).push(
                toast_value(*old(self), ToastKind::Error, "save failed: "@ + why@),
            ),
    {
        let m = cat("save failed: ", why);
        self.toast(ToastKind::Error, m.as_str());
    }

    /// What follows from having written the page: the status line is cleared,
    /// or a toast says why the edit did not reach the operation log. A page
    /// without a block gets an empty one, and is then to be written again. The
    /// cursor stays on a block.
    pub fn persisted(&mut self, failure: Option<&str>) -> (rewrite: bool)
        requires
            old(self).wf(),
        ensures
            *final(self) == (App {
                page: final(self).page,
                status: final(self).status,
                toasts: final(self).toasts,
                flat_len: final(self).flat_len,
                selected: final(self).selected,
                last_saved_ms: Some(old(self).now_ms),
                ..*old(self)
            }),
            match failure {
                Some(e) => {
                    &&& final(self).status == old(self).status
                    &&& toasts_view(final(self).toasts@) == toasts_view(old(self).toasts@).push(
                        toast_value(
                            *old(self),
                            ToastKind::Error,
                            "reconcile failed: "@ + e@,
                        ),
                    )
                },
                None => {
                    &&& final(self).status@ == Seq::<char>::empty()
                    &&& final(self).toasts == old(self).toasts
                },
            },
            final(self).page@ == (PageValue {
                blocks: kept_blocks(old(self).blocks()),
                ..old(self).page@
            }),
            rewrite == (count(old(self).blocks()) == 0),
            final(self).flat_len == count(final(self).blocks()) && final(self).flat_len > 0,
            final(self).selected == if old(self).selected < final(self).flat_len {
                old(self).selected
            } else {
                (final(self).flat_len - 1) as usize
            },
            final(self).wf(),
    {
        match failure {
            Some(e) => {
                let m = cat("reconcile failed: ", e);
                self.toast(ToastKind::Error, m.as_str());
            },
            None => {
                self.status = String::new();
            },
        }
        let rewrite = keep_a_block(&mut self.page.blocks);
        self.flat_len = flat_count(&self.page.blocks);
        if self.selected >= self.flat_len {
            self.selected = self.flat_len - 1;
        }
        self.last_saved_ms = Some(self.now_ms);
        rewrite
    }

    /// Says how writing another page went: it was not written, it did not
    /// reach the operation log, or all is well.
    pub fn other_page_saved(&mut self, write_failure: Option<&str>, log_failure: Option<&str>) -> (
    saved: bool)
        ensures
            *final(self) == (App { status: final(self).status, ..*old(self) }),
            saved == (write_failure is None && log_failure is None),
            final(self).status@ == match (write_failure, log_failure) {
                (Some(e), _) => "save (source) failed: "@ + e@,
                (None, Some(e)) => "reconcile (source) failed: "@ + e@,
                (None, None) => Seq::empty(),
            },
    {
        match write_failure {
            Some(e) => {
                self.status = cat("save (source) failed: ", e);
                return false;
            },
            None => {},
        }
        match log_failure {
            Some(e) => {
                self.status = cat("reconcile (source) failed: ", e);
                return false;
            },
            None => {},
        }
        self.status = String::new();
        true
    }
}

// ---------------------------------------------------------------------
// Peers
// ---------------------------------------------------------------------

/// What came of setting up the exchange with peers.
#[derive(Debug)]
pub enum TransportOutcome {
    Ready,
    EndpointBusy(String),
    Disabled,
    Failed(String),
}

impl App {
    /// Says what came of setting up the exchange with peers. Only a shared
    /// workspace has one; the result is whether it is there.
    pub fn wire_sync_transport(&mut self, shared: bool, outcome: &TransportOutcome) -> (r: bool)
        ensures
            r == (shared && *outcome is Ready),
            if !shared {
                *final(self) == *old(self)
            } else {
                match *outcome {
                    TransportOutcome::Ready => {
                        &&& *final(self) == (App { status: final(self).status, ..*old(self) })
                        &&& final(self).status@ == "iroh sync enabled"@
                    },
                    TransportOutcome::EndpointBusy(why) => {
                        &&& *final(self) == (App { status: final(self).status, ..*old(self) })
                        &&& final(self).status@ == "iroh sync off here: "@ + why@
                    },
                    TransportOutcome::Disabled => *final(self) == *old(self),
                    TransportOutcome::Failed(e) => {
                        &&& *final(self) == (App { toasts: final(self).toasts, ..*old(self) })
                        &&& toasts_view(final(self).toasts@) == toasts_view(
                            old(self).toasts@,
                        ).push(
                            toast_value(
                                *old(self),
                                ToastKind::Warning,
                                "iroh sync unavailable, using filesystem sync: "@ + e@,
                            ),
                        )
                    },
                }
            },
    {
        if !shared {
            return false;
        }
        match outcome {
            TransportOutcome::Ready => {
                self.status = "iroh sync enabled".to_owned();
                true
            },
            TransportOutcome::EndpointBusy(why) => {
                self.status = cat("iroh sync off here: ", why.as_str());
                false
            },
            TransportOutcome::Disabled => false,
            TransportOutcome::Failed(e) => {
                let m = cat("iroh sync unavailable, using filesystem sync: ", e.as_str());
                self.toast(ToastKind::Warning, m.as_str());
                false
            },
        }
    }

    /// Whether the workspace is to be read again because a peer wrote to it.
    /// While a block is being edited it is not: the edit would be lost, so the
    /// reading waits for its end.
    pub fn poll_jsonl_updates(&mut self, signalled: bool) -> (reload: bool)
        ensures
            reload == (signalled && !(old(self).mode is Insert)),
            *final(self) == if signalled && old(self).mode is Insert {
                App { pending_reload: true, ..*old(self) }
            } else {
                *old(self)
            },
    {
        if !signalled {
            return false;
        }
        if let Mode::Insert { .. } = &self.mode {
            self.pending_reload = true;
            return false;
        }
        true
    }

    /// Whether files that were written from outside are to be taken in now:
    /// while a block is being edited they are not; they will be found again.
    pub fn poll_orphan_md_updates(&self, found: usize) -> (take_in: bool)
        ensures
            take_in == (found > 0 && !(self.mode is Insert)),
    {
        if found == 0 {
            return false;
        }
        match &self.mode {
            Mode::Insert { .. } => false,
            _ => true,
        }
    }

    /// Whether taking in files from outside changed anything, so that the
    /// indices are to be built anew.
    pub fn files_taken_in(&self, reconciled: usize) -> (rebuild: bool)
        ensures
            rebuild == (reconciled > 0),
    {
        reconciled > 0
    }
}

// ---------------------------------------------------------------------
// Laws
// ---------------------------------------------------------------------

/// A page whose edit was just written has nothing to write, so writing again
/// changes nothing.
pub proof fn law_flush_is_idempotent(a: App, b: App, c: App)
    requires
        b == (App { dirty_since: None, ..a }),
        c == (App { dirty_since: None, ..b }),
    ensures
        waited(b) is None,
        c == b,
{
}

/// An edit has waited for the time between it and now, and nothing waits where
/// there is none.
pub proof fn law_waiting_is_time_passed(app: App, later: App, t: u64)
    requires
        app.dirty_since == Some(t),
        later.dirty_since == app.dirty_since,
        t <= app.now_ms <= later.now_ms,
    ensures
        waited(app) is Some && waited(later) is Some,
        t + waited(app)->0 == app.now_ms,
        waited(later)->0 - waited(app)->0 == later.now_ms - app.now_ms,
{
}

/// A page that is written has a block, and none of its own is lost.
pub proof fn law_a_page_keeps_a_block(v: Seq<NodeView>)
    ensures
        count(kept_blocks(v)) > 0,
        kept_blocks(v).take(v.len() as int) == v,
        count(kept_blocks(v)) <= count(v) + 1,
        count(v) > 0 ==> kept_blocks(v) == v,
        count(v) == 0 ==> kept_blocks(v).last().text.len() == 0,
{
    assert(v.take(v.len() as int) =~= v);
    let k = kept_blocks(v);
    if count(v) == 0 {
        assert(k =~= v + seq![empty_block()]);
        lemma_count_concat(v, seq![empty_block()]);
        lemma_count_one(empty_block());
        assert(preorder_all(Seq::<NodeView>::empty()) =~= Seq::<NodeView>::empty());
        assert(k.drop_last() =~= v);
        assert(k.take(v.len() as int) =~= v);
    }
}

} // verus!

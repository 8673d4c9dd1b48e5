//! Reminders: writing a rule, listing what is scheduled, and what is shown
//! when one comes due.

use crate::actions::metadata::{
    block_properties, law_written_property_is_on_the_block, law_set_property_is_read, property,
    property_written,
};
use crate::effect::{Effect, EffectValue};
use crate::icons::REMIND_KEY;
use crate::outline::count;
use crate::state::{
    toast_value, toasts_view, App, Focus, Mode, Overlay, ReminderRow, RemindersState, ToastKind,
    ToastValue,
};
use crate::text::{cat, cat3, chars_of, texts};
use vstd::prelude::*;

verus! {

/// The rule behind `g R`: remind until the block is done.
pub const NAG_PRESET: &'static str = "now every 1h until DONE";

/// The rule that `g r` starts with.
pub const DEFAULT_RULE: &'static str = "9am";

/// How often due reminders are looked for, in milliseconds.
pub const REMINDER_SWEEP_MS: u64 = 20000;

/// How long the toast of a reminder stays, in milliseconds.
pub const REMINDER_TOAST_MS: u64 = 10000;

/// The number of presets by which a reminder can be put off.
pub const SNOOZE_PRESETS: usize = 3;

// ---------------------------------------------------------------------
// The notification
// ---------------------------------------------------------------------

/// A text without the two characters that would end a notification early.
pub open spec fn without_controls(s: Seq<char>) -> Seq<char>
    decreases s.len(),
{
    if s.len() == 0 {
        s
    } else {
        let r = without_controls(s.drop_last());
        if s.last() == '\u{7}' || s.last() == '\u{1b}' {
            r
        } else {
            r.push(s.last())
        }
    }
}

/// The escape sequence that makes a terminal show a notification.
pub open spec fn osc9(s: Seq<char>) -> Seq<char> {
    seq!['\u{1b}', ']', '9', ';'] + without_controls(s) + seq!['\u{7}']
}

/// The escape sequence that makes a terminal show a notification.
pub fn osc9_sequence(text: &str) -> (r: String)
    ensures
        r@ == osc9(text@),
{
    let v = chars_of(text);
    let mut r = String::new();
    r.push('\u{1b}');
    r.push(']');
    r.push('9');
    r.push(';');
    let ghost head = seq!['\u{1b}', ']', '9', ';'];
    let mut i: usize = 0;
    assert(r@ =~= head + without_controls(v@.take(0)));
    while i < v.len()
        invariant
            i <= v@.len(),
            r@ == head + without_controls(v@.take(i as int)),
        decreases v@.len() - i,
    {
        assert(v@.take(i + 1).drop_last() =~= v@.take(i as int));
        if v[i] != '\u{7}' && v[i] != '\u{1b}' {
            r.push(v[i]);
        }
        i += 1;
        assert(r@ =~= head + without_controls(v@.take(i as int)));
    }
    assert(v@.take(i as int) =~= v@);
    r.push('\u{7}');
    assert(r@ =~= osc9(text@));
    r
}

proof fn lemma_without_controls(s: Seq<char>)
    ensures
        forall|i: int|
            0 <= i < without_controls(s).len() ==> #[trigger] without_controls(s)[i] != '\u{7}'
                && without_controls(s)[i] != '\u{1b}',
    decreases s.len(),
{
    if s.len() > 0 {
        lemma_without_controls(s.drop_last());
        let r = without_controls(s.drop_last());
        assert forall|i: int| 0 <= i < without_controls(s).len() implies #[trigger] without_controls(
            s,
        )[i] != '\u{7}' && without_controls(s)[i] != '\u{1b}' by {
            if i < r.len() {
                assert(without_controls(s)[i] == r[i]);
            }
        }
    }
}

/// A notification begins with the only escape in it and ends with the only
/// bell, whatever the text holds.
pub proof fn law_notification_is_well_formed(s: Seq<char>)
    ensures
        forall|i: int|
            0 <= i < osc9(s).len() ==> ((#[trigger] osc9(s)[i] == '\u{1b}') == (i == 0)) && ((osc9(
                s,
            )[i] == '\u{7}') == (i == osc9(s).len() - 1)),
{
    lemma_without_controls(s);
    let w = without_controls(s);
    assert forall|i: int| 0 <= i < osc9(s).len() implies ((#[trigger] osc9(s)[i] == '\u{1b}') == (i
        == 0)) && ((osc9(s)[i] == '\u{7}') == (i == osc9(s).len() - 1)) by {
        if 4 <= i < osc9(s).len() - 1 {
            assert(osc9(s)[i] == w[i - 4]);
        }
    }
}

// ---------------------------------------------------------------------
// Rules
// ---------------------------------------------------------------------

/// Keys that act on the block under the cursor are taken.
pub open spec fn on_block(app: App) -> bool {
    app.focus is Outline && app.mode is Normal
}

/// What is asked for to put off the reminder of the block under the cursor:
/// nothing, where the block has no rule.
pub open spec fn block_snooze(app: App) -> EffectValue {
    if !on_block(app) || app.selected >= app.id_by_flat@.len() || property(
        block_properties(app),
        REMIND_KEY@,
        false,
    ) is None {
        EffectValue::Nothing
    } else {
        EffectValue::SnoozeReminder {
            block_id: app.id_by_flat@[app.selected as int],
            preset: 0,
        }
    }
}

/// `new` is `old` after a rule was written to the block under the cursor.
/// One that is there already is only reported, unless it is to be replaced.
pub open spec fn remind_written(old: App, new: App, rule: Seq<char>, overwrite: bool) -> bool {
    let existing = property(block_properties(old), REMIND_KEY@, false);
    if !on_block(old) {
        new == old
    } else if !overwrite && existing is Some {
        &&& new == App { toasts: new.toasts, ..old }
        &&& toasts_view(new.toasts@) == toasts_view(old.toasts@).push(
            toast_value(old, ToastKind::Info, "already reminding: "@ + existing->0),
        )
    } else {
        &&& new == App {
            page: new.page,
            status: new.status,
            undo: new.undo,
            redo: new.redo,
            dirty_since: new.dirty_since,
            toasts: new.toasts,
            ..old
        }
        &&& property_written(
            old,
            new,
            crate::state::PropertyScope::Block,
            REMIND_KEY@,
            rule,
        )
        &&& toasts_view(new.toasts@) == toasts_view(old.toasts@).push(
            toast_value(
                old,
                ToastKind::Info,
                "remind:: "@ + rule + " — edit with :prop remind <rule>"@,
            ),
        )
    }
}

/// A reminder that came due.
#[derive(Debug)]
pub struct DueReminder {
    /// The text of the block without its markup.
    pub plain_text: String,
    pub page_title: String,
}

/// What a due reminder says: the block's text, or its page where the block
/// has none.
pub open spec fn due_body(r: DueReminder) -> Seq<char> {
    if r.plain_text@.len() == 0 {
        r.page_title@
    } else {
        r.plain_text@
    }
}

/// The toast of a due reminder.
pub open spec fn due_toast(app: App, r: DueReminder) -> ToastValue {
    ToastValue {
        kind: ToastKind::Warning,
        message: app.icons.bell@ + " "@ + due_body(r),
        born_ms: app.now_ms,
        ttl_ms: REMINDER_TOAST_MS,
    }
}

/// The notification of a due reminder.
pub open spec fn due_notification(r: DueReminder) -> Seq<char> {
    osc9("outl · "@ + due_body(r))
}

/// Due reminders are looked for now: not while a block is being edited, and
/// not too soon after the last time.
pub open spec fn sweep_due(app: App) -> bool {
    &&& !(app.mode is Insert)
    &&& match app.last_reminder_sweep {
        Some(t) => app.now_ms - t >= REMINDER_SWEEP_MS,
        None => true,
    }
}

/// A row of the reminders list as a value.
pub ghost struct RemindersValue {
    pub all: Seq<ReminderRow>,
    pub selected: int,
}

/// The reminders list, if that is what is open.
pub open spec fn reminders_of(overlay: Option<Overlay>) -> Option<RemindersValue> {
    match overlay {
        Some(Overlay::Reminders(r)) => Some(
            RemindersValue { all: r.all@, selected: r.selected as int },
        ),
        _ => None,
    }
}

impl App {
    fn in_outline(&self) -> (r: bool)
        ensures
            r == on_block(*self),
    {
        let outline = match &self.focus {
            Focus::Outline => true,
            _ => false,
        };
        let normal = match &self.mode {
            Mode::Normal => true,
            _ => false,
        };
        outline && normal
    }

    fn write_remind(&mut self, rule: &str, overwrite: bool)
        requires
            old(self).wf(),
        ensures
            remind_written(*old(self), *final(self), rule@, overwrite),
            final(self).wf(),
    {
        if !self.in_outline() {
            return;
        }
        if !overwrite {
            if let Some(existing) = self.property_on_current_block(REMIND_KEY) {
                let m = cat("already reminding: ", existing.as_str());
                self.toast(ToastKind::Info, m.as_str());
                return;
            }
        }
        self.set_property_on_current_block(REMIND_KEY, rule);
        let m = cat3("remind:: ", rule, " — edit with :prop remind <rule>");
        self.toast(ToastKind::Info, m.as_str());
    }

    /// `g r`: starts a rule on the block under the cursor. A block with a rule
    /// keeps it.
    pub fn insert_remind(&mut self)
        requires
            old(self).wf(),
        ensures
            remind_written(*old(self), *final(self), DEFAULT_RULE@, false),
            final(self).wf(),
    {
        self.write_remind(DEFAULT_RULE, false);
    }

    /// `g R`: reminds of the block under the cursor until it is done, whatever
    /// rule it had.
    pub fn insert_remind_nag(&mut self)
        requires
            old(self).wf(),
        ensures
            remind_written(*old(self), *final(self), NAG_PRESET@, true),
            final(self).wf(),
    {
        self.write_remind(NAG_PRESET, true);
    }

    /// Whether to look for due reminders now; if so, the time is noted.
    pub fn reminder_sweep_due(&mut self) -> (r: bool)
        ensures
            r == sweep_due(*old(self)),
            *final(self) == if r {
                App { last_reminder_sweep: Some(old(self).now_ms), ..*old(self) }
            } else {
                *old(self)
            },
    {
        if let Mode::Insert { .. } = &self.mode {
            return false;
        }
        if let Some(t) = self.last_reminder_sweep {
            if self.now_ms < t || self.now_ms - t < REMINDER_SWEEP_MS {
                return false;
            }
        }
        self.last_reminder_sweep = Some(self.now_ms);
        true
    }

    /// Raises a toast for each due reminder, and gives the notifications to be
    /// sent to the terminal. Where reminders are off there are none.
    pub fn deliver_due_reminders(&mut self, enabled: bool, due: &Vec<DueReminder>) -> (sent: Vec<
        String,
    >)
        ensures
            *final(self) == (App { toasts: final(self).toasts, ..*old(self) }),
            if enabled {
                &&& toasts_view(final(self).toasts@) == toasts_view(old(self).toasts@)
                    + due@.map_values(|r: DueReminder| due_toast(*old(self), r))
                &&& texts(sent@) == due@.map_values(|r: DueReminder| due_notification(r))
            } else {
                &&& final(self).toasts == old(self).toasts
                &&& sent@.len() == 0
            },
    {
        let mut sent: Vec<String> = Vec::new();
        if !enabled {
            return sent;
        }
        let ghost t0 = toasts_view(self.toasts@);
        let ghost ts = due@.map_values(|r: DueReminder| due_toast(*old(self), r));
        let ghost ns = due@.map_values(|r: DueReminder| due_notification(r));
        let mut i: usize = 0;
        assert(t0 + ts.take(0) =~= t0);
        assert(texts(sent@) =~= ns.take(0));
        while i < due.len()
            invariant
                i <= due@.len(),
                *self == (App { toasts: self.toasts, ..*old(self) }),
                ts == due@.map_values(|r: DueReminder| due_toast(*old(self), r)),
                ns == due@.map_values(|r: DueReminder| due_notification(r)),
                toasts_view(self.toasts@) == t0 + ts.take(i as int),
                texts(sent@) == ns.take(i as int),
            decreases due@.len() - i,
        {
            let r = &due[i];
            let body = if r.plain_text.as_str().is_empty() {
                r.page_title.clone()
            } else {
                r.plain_text.clone()
            };
            assert(body@ == due_body(*r));
            let text = cat("outl · ", body.as_str());
            let ghost before = sent@;
            let n = osc9_sequence(text.as_str());
            assert(ns[i as int] == n@);
            sent.push(n);
            assert(texts(sent@) =~= texts(before).push(n@));
            let m = cat3(self.icons.bell, " ", body.as_str());
            assert(ts[i as int] == due_toast(*old(self), *r));
            self.toast_for(ToastKind::Warning, m.as_str(), REMINDER_TOAST_MS);
            i += 1;
            assert(t0 + ts.take(i as int) =~= (t0 + ts.take(i - 1)).push(ts[i - 1]));
            assert(texts(sent@) =~= ns.take(i as int));
        }
        assert(ts.take(i as int) =~= ts);
        assert(ns.take(i as int) =~= ns);
        sent
    }

    /// Opens the reminders list, with the cursor at `want` or on the last row.
    pub fn show_reminders(&mut self, all: Vec<ReminderRow>, want: usize)
        ensures
            *final(self) == (App { overlay: final(self).overlay, ..*old(self) }),
            reminders_of(final(self).overlay) == Some(
                RemindersValue {
                    all: all@,
                    selected: if want < all@.len() {
                        want as int
                    } else if all@.len() > 0 {
                        all@.len() - 1
                    } else {
                        0
                    },
                },
            ),
    {
        let selected: usize = if want < all.len() {
            want
        } else if all.len() > 0 {
            all.len() - 1
        } else {
            0
        };
        self.overlay = Some(Overlay::Reminders(RemindersState { all, selected }));
    }

    /// `g n`: opens the reminders list on its first row.
    pub fn open_reminders(&mut self, all: Vec<ReminderRow>)
        ensures
            *final(self) == (App { overlay: final(self).overlay, ..*old(self) }),
            reminders_of(final(self).overlay) == Some(
                RemindersValue { all: all@, selected: 0 },
            ),
    {
        self.show_reminders(all, 0);
    }

    /// Shows what is scheduled now, with the cursor where it was.
    pub fn refresh_reminders(&mut self, all: Vec<ReminderRow>)
        ensures
            match reminders_of(old(self).overlay) {
                Some(r) => {
                    &&& *final(self) == (App { overlay: final(self).overlay, ..*old(self) })
                    &&& reminders_of(final(self).overlay) == Some(
                        RemindersValue {
                            all: all@,
                            selected: if r.selected < all@.len() {
                                r.selected
                            } else if all@.len() > 0 {
                                all@.len() - 1
                            } else {
                                0
                            },
                        },
                    )
                },
                None => *final(self) == *old(self),
            },
    {
        let want: usize = match &self.overlay {
            Some(Overlay::Reminders(r)) => r.selected,
            _ => {
                return;
            },
        };
        self.show_reminders(all, want);
    }

    /// Moves the cursor in the reminders list; it stops at both ends.
    pub fn move_reminders_cursor(&mut self, delta: i32)
        ensures
            match reminders_of(old(self).overlay) {
                Some(r) => {
                    &&& *final(self) == (App { overlay: final(self).overlay, ..*old(self) })
                    &&& reminders_of(final(self).overlay) == Some(
                        RemindersValue {
                            selected: if r.all.len() == 0 {
                                r.selected
                            } else if r.selected + delta < 0 {
                                0
                            } else if r.selected + delta >= r.all.len() {
                                r.all.len() - 1
                            } else {
                                r.selected + delta
                            },
                            ..r
                        },
                    )
                },
                None => *final(self) == *old(self),
            },
    {
        if let Some(Overlay::Reminders(r)) = &mut self.overlay {
            if r.all.len() == 0 {
                return;
            }
            let last: usize = r.all.len() - 1;
            let at: i128 = r.selected as i128 + delta as i128;
            r.selected =
            if at < 0 {
                0
            } else if at > last as i128 {
                last
            } else {
                at as usize
            };
        }
    }

    /// `g s`: puts the reminder of the block under the cursor off by an hour.
    /// Silent where the block has no rule.
    pub fn snooze_selected_block(&self) -> (r: Effect)
        requires
            self.wf(),
        ensures
            r@ == block_snooze(*self),
    {
        if !self.in_outline() || self.selected >= self.id_by_flat.len() {
            return Effect::Nothing;
        }
        let block_id = self.id_by_flat[self.selected];
        if self.property_on_current_block(REMIND_KEY).is_none() {
            return Effect::Nothing;
        }
        Effect::SnoozeReminder { block_id, preset: 0 }
    }

    /// Puts the highlighted reminder off by one of the presets.
    pub fn snooze_selected_reminder(&self, which: usize) -> (r: Effect)
        ensures
            r@ == match reminders_of(self.overlay) {
                Some(v) => if v.selected < v.all.len() && which < SNOOZE_PRESETS {
                    EffectValue::SnoozeReminder {
                        block_id: v.all[v.selected].block_id,
                        preset: which as int,
                    }
                } else {
                    EffectValue::Nothing
                },
                None => EffectValue::Nothing,
            },
    {
        match &self.overlay {
            Some(Overlay::Reminders(v)) => {
                if v.selected < v.all.len() && which < SNOOZE_PRESETS {
                    Effect::SnoozeReminder { block_id: v.all[v.selected].block_id, preset: which }
                } else {
                    Effect::Nothing
                }
            },
            _ => Effect::Nothing,
        }
    }

    /// Reports how putting a reminder off went: the preset's label, or why it
    /// failed.
    pub fn reminder_snoozed(&mut self, label: &str, failure: Option<&str>)
        ensures
            *final(self) == (App { toasts: final(self).toasts, ..*old(self) }),
            toasts_view(final(self).toasts@) == toasts_view(old(self).toasts@).push(
                match failure {
                    Some(e) => toast_value(
                        *old(self),
                        ToastKind::Error,
                        "could not snooze — "@ + e@,
                    ),
                    None => toast_value(
                        *old(self),
                        ToastKind::Info,
                        "snoozed: "@ + label@ + " (every device)"@,
                    ),
                },
            ),
    {
        match failure {
            Some(e) => {
                let m = cat("could not snooze — ", e);
                self.toast(ToastKind::Error, m.as_str());
            },
            None => {
                let m = cat3("snoozed: ", label, " (every device)");
                self.toast(ToastKind::Info, m.as_str());
            },
        }
    }

    /// `Enter`: closes the list to open the page of the highlighted reminder.
    pub fn open_selected_reminder(&mut self) -> (r: Effect)
        ensures
            match reminders_of(old(self).overlay) {
                Some(v) => if v.selected < v.all.len() {
                    &&& *final(self) == (App { overlay: None, ..*old(self) })
                    &&& r@ == (EffectValue::OpenReminder {
                        slug: v.all[v.selected].page_slug@,
                    })
                } else {
                    &&& *final(self) == *old(self)
                    &&& r@ == EffectValue::Nothing
                },
                None => *final(self) == *old(self) && r@ == EffectValue::Nothing,
            },
    {
        let slug = match &self.overlay {
            Some(Overlay::Reminders(v)) => {
                if v.selected < v.all.len() {
                    v.all[v.selected].page_slug.clone()
                } else {
                    return Effect::Nothing;
                }
            },
            _ => {
                return Effect::Nothing;
            },
        };
        self.overlay = None;
        Effect::OpenReminder { slug }
    }

    /// Reports that the page of a reminder could not be opened.
    pub fn reminder_not_opened(&mut self, slug: &str, why: &str)
        ensures
            *final(self) == (App { toasts: final(self).toasts, ..*old(self) }),
            toasts_view(final(self).toasts@) == toasts_view(old(self).toasts@).push(
                toast_value(
                    *old(self),
                    ToastKind::Error,
                    "could not open "@ + slug@ + " — "@ + why@,
                ),
            ),
    {
        let m = crate::text::cat4("could not open ", slug, " — ", why);
        self.toast(ToastKind::Error, m.as_str());
    }
}

/// Characters that may stand in a notification.
pub open spec fn harmless() -> spec_fn(char) -> bool {
    |c: char| c != '\u{7}' && c != '\u{1b}'
}

/// A notification shows its text, without the characters that would end it.
pub proof fn law_the_notification_shows_the_text(s: Seq<char>)
    ensures
        osc9(s).len() == s.filter(harmless()).len() + 5,
        osc9(s).subrange(4, osc9(s).len() - 1) == s.filter(harmless()),
        osc9(s).take(4) == seq!['\u{1b}', ']', '9', ';'],
{
    lemma_without_is_harmless(s);
    assert(osc9(s).subrange(4, osc9(s).len() - 1) =~= without_controls(s));
    assert(osc9(s).take(4) =~= seq!['\u{1b}', ']', '9', ';']);
}

proof fn lemma_without_is_harmless(s: Seq<char>)
    ensures
        without_controls(s) == s.filter(harmless()),
    decreases s.len(),
{
    reveal(Seq::filter);
    if s.len() > 0 {
        lemma_without_is_harmless(s.drop_last());
    }
}

/// Reminders are looked for at once, then every twenty seconds, and not while
/// text is typed.
pub proof fn law_reminders_are_looked_for(app: App, t: u64)
    ensures
        app.mode is Insert ==> !sweep_due(app),
        !(app.mode is Insert) && app.last_reminder_sweep is None ==> sweep_due(app),
        !(app.mode is Insert) && app.last_reminder_sweep == Some(t) ==> (sweep_due(app)
            <==> app.now_ms >= t + 20000),
{
}

/// A rule is written on the block under the cursor, over another only where
/// that is asked for; else the block keeps the rule it has.
pub proof fn law_a_rule_is_not_lost(old: App, new: App, rule: Seq<char>, overwrite: bool)
    requires
        old.wf(),
        remind_written(old, new, rule, overwrite),
        old.selected < count(old.blocks()),
        on_block(old),
    ensures
        rule.len() > 0 && (overwrite || property(block_properties(old), REMIND_KEY@, false)
            is None) ==> property(
            block_properties(new),
            REMIND_KEY@,
            false,
        ) == Some(rule),
        !overwrite && property(block_properties(old), REMIND_KEY@, false) is Some ==> new.page
            == old.page && new.undo == old.undo,
        new.toasts@.len() == old.toasts@.len() + 1,
{
    assert(toasts_view(new.toasts@).len() == toasts_view(old.toasts@).len() + 1);
    if rule.len() > 0 && (overwrite || property(block_properties(old), REMIND_KEY@, false)
        is None) {
        law_written_property_is_on_the_block(old, new, REMIND_KEY@, rule);
        law_set_property_is_read(block_properties(old), REMIND_KEY@, rule, false, REMIND_KEY@);
    }
}

/// A reminder shows the text of its block, or the title of the page where the
/// block has none, for ten seconds.
pub proof fn law_a_reminder_says_what_is_due(app: App, r: DueReminder)
    ensures
        r.plain_text@.len() > 0 ==> due_toast(app, r).message == app.icons.bell@ + " "@
            + r.plain_text@ && due_notification(r) == osc9("outl · "@ + r.plain_text@),
        r.plain_text@.len() == 0 ==> due_toast(app, r).message == app.icons.bell@ + " "@
            + r.page_title@ && due_notification(r) == osc9("outl · "@ + r.page_title@),
        due_toast(app, r).kind == ToastKind::Warning,
        due_toast(app, r).born_ms == app.now_ms,
        due_toast(app, r).ttl_ms == 10000,
{
}

/// What is put off is the reminder of the block under the cursor, if it has
/// one.
pub proof fn law_the_block_under_the_cursor_is_put_off(app: App)
    ensures
        block_snooze(app) != EffectValue::Nothing <==> app.focus is Outline && app.mode is Normal
            && app.selected < app.id_by_flat@.len() && property(
            block_properties(app),
            "remind"@,
            false,
        ) is Some,
        block_snooze(app) matches EffectValue::SnoozeReminder { block_id, preset } ==> block_id
            == app.id_by_flat@[app.selected as int] && preset == 0,
{
}

} // verus!

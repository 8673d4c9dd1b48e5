//! The completion popup while a block is being edited.

use crate::actions::properties::{popup_of, PopupValue};
use crate::autocomplete::{
    accept_into, accepted, detect_trigger, opener_len, token, trigger_at, AutocompleteKind,
};
use crate::edit_buffer::EditView;
use crate::effect::{Effect, EffectValue};
use crate::state::{App, AutocompleteState, CommandState, Mode, Overlay};
use crate::text::{cat, texts};
use vstd::prelude::*;

verus! {

/// The text being edited, if one is.
pub open spec fn edit_of(mode: Mode) -> Option<EditView> {
    match mode {
        Mode::Insert { buffer, .. } => Some(buffer@),
        _ => None,
    }
}

/// The trigger before the caret of the text being edited.
pub open spec fn open_trigger(mode: Mode) -> Option<(AutocompleteKind, Seq<char>)> {
    match edit_of(mode) {
        Some(e) => trigger_at(e.chars, e.cursor),
        None => None,
    }
}

/// An empty popup is shown for pages, tags and blocks, but for nothing else,
/// and not in the properties overlay.
pub open spec fn shows_empty(kind: AutocompleteKind, in_properties: bool) -> bool {
    !in_properties && (kind == AutocompleteKind::PageRef || kind == AutocompleteKind::Tag || kind
        == AutocompleteKind::BlockRef)
}

/// What is to be done once a candidate was accepted.
#[derive(Debug)]
pub enum Accepted {
    /// Nothing more.
    Done,
    /// The page of a person is to be made, if there is none.
    Person(String),
    /// A command is to be run.
    Command(String),
}

/// The edit mode with another text.
pub open spec fn mode_with(old: Mode, new: Mode, e: EditView) -> bool {
    match (old, new) {
        (
            Mode::Insert { block_path: p, .. },
            Mode::Insert { buffer, block_path: q },
        ) => q == p && buffer@ == e,
        _ => false,
    }
}

impl App {
    /// Asks for the candidates of the trigger before the caret. The popup is
    /// closed until they come.
    pub fn maybe_update_autocomplete(&mut self) -> (r: Effect)
        requires
            edit_of(old(self).mode) matches Some(e) ==> e.wf(),
        ensures
            *final(self) == (App { autocomplete: None, ..*old(self) }),
            r@ == match open_trigger(old(self).mode) {
                Some((kind, query)) => EffectValue::Candidates { kind, query },
                None => EffectValue::Nothing,
            },
    {
        self.autocomplete = None;
        match &self.mode {
            Mode::Insert { buffer, .. } => match detect_trigger(&buffer.chars, buffer.cursor) {
                Some((kind, query)) => Effect::Candidates { kind, query },
                None => Effect::Nothing,
            },
            _ => Effect::Nothing,
        }
    }

    /// Opens the popup with the candidates that were asked for.
    pub fn offer_candidates(
        &mut self,
        kind: AutocompleteKind,
        query: String,
        candidates: Vec<String>,
        in_properties: bool,
    )
        ensures
            *final(self) == (App { autocomplete: final(self).autocomplete, ..*old(self) }),
            popup_of(final(self).autocomplete) == if candidates@.len() == 0 && !shows_empty(
                kind,
                in_properties,
            ) {
                None
            } else {
                Some(
                    PopupValue {
                        kind,
                        query: query@,
                        candidates: texts(candidates@),
                        selected: 0,
                    },
                )
            },
    {
        let keep_empty = !in_properties && (kind == AutocompleteKind::PageRef || kind
            == AutocompleteKind::Tag || kind == AutocompleteKind::BlockRef);
        if candidates.len() == 0 && !keep_empty {
            self.autocomplete = None;
            return;
        }
        self.autocomplete = Some(AutocompleteState { kind, query, candidates, selected: 0 });
    }

    /// Accepts the highlighted candidate: it takes the place of the trigger
    /// and the query. A command leaves nothing there, and is run.
    pub fn accept_autocomplete(&mut self) -> (r: Accepted)
        requires
            edit_of(old(self).mode) matches Some(e) ==> e.wf(),
            (edit_of(old(self).mode) matches Some(e) ==> (popup_of(old(self).autocomplete) matches Some(
                a,
            ) ==> (a.selected < a.candidates.len() ==> e.chars.len() + token(
                a.kind,
                a.candidates[a.selected],
            ).len() <= usize::MAX))),
        ensures
            match popup_of(old(self).autocomplete) {
                None => *final(self) == *old(self) && r is Done,
                Some(a) => {
                    &&& *final(self) == (App {
                        autocomplete: None,
                        mode: final(self).mode,
                        ..*old(self)
                    })
                    &&& if a.selected >= a.candidates.len() {
                        final(self).mode == old(self).mode && r is Done
                    } else {
                        let choice = a.candidates[a.selected];
                        &&& match edit_of(old(self).mode) {
                            Some(e) => mode_with(
                                old(self).mode,
                                final(self).mode,
                                accepted(e, a.kind, a.query, choice),
                            ),
                            None => final(self).mode == old(self).mode,
                        }
                        &&& match a.kind {
                            AutocompleteKind::SlashCommand => r matches Accepted::Command(c) && c@
                                == choice,
                            AutocompleteKind::Mention => if edit_of(old(self).mode) is Some {
                                r matches Accepted::Person(c) && c@ == choice
                            } else {
                                r is Done
                            },
                            _ => r is Done,
                        }
                    }
                },
            },
    {
        let taken = self.autocomplete.take();
        let a = match taken {
            Some(a) => a,
            None => {
                return Accepted::Done;
            },
        };
        if a.selected >= a.candidates.len() {
            return Accepted::Done;
        }
        assert(texts(a.candidates@)[a.selected as int] == a.candidates@[a.selected as int]@);
        let choice = a.candidates[a.selected].clone();
        let mut editing = false;
        if let Mode::Insert { buffer, .. } = &mut self.mode {
            editing = true;
            accept_into(buffer, a.kind, a.query.as_str(), choice.as_str());
        }
        match a.kind {
            AutocompleteKind::SlashCommand => Accepted::Command(choice),
            AutocompleteKind::Mention => {
                if editing {
                    Accepted::Person(choice)
                } else {
                    Accepted::Done
                }
            },
            _ => Accepted::Done,
        }
    }

    /// Says why the page of a person is not there: it could not be made, or
    /// not be written.
    pub fn person_not_created(&mut self, name: &str, in_log: bool, why: &str)
        ensures
            *final(self) == (App { status: final(self).status, ..*old(self) }),
            final(self).status@ == "create person "@ + name@ + (if in_log {
                ": md projection failed: "@
            } else {
                " failed: "@
            }) + why@,
    {
        self.status =
        crate::text::cat4(
            "create person ",
            name,
            if in_log {
                ": md projection failed: "
            } else {
                " failed: "
            },
            why,
        );
    }
}

/// A built-in command as far as accepting it goes.
#[derive(Clone, Copy, PartialEq, Eq, Structural, Debug)]
pub struct CommandTraits {
    /// It inserts text at the caret.
    pub inserts_inline: bool,
    pub needs_args: bool,
}

/// How an accepted command is run.
#[derive(Debug)]
pub enum SlashRun {
    /// As a plugin's.
    Plugin { plugin_id: String, command_id: String },
    /// Not at all: there is none.
    Unknown,
    /// Later: its arguments are typed first.
    AskArgs,
    /// Now.
    Dispatch,
}

/// The edit is committed before the command runs, unless the command inserts
/// text into it.
pub open spec fn commits_first(builtin: Option<CommandTraits>) -> bool {
    match builtin {
        Some(t) => !t.inserts_inline,
        None => true,
    }
}

/// Whether the edit is committed before the command runs.
pub fn slash_commits_first(builtin: Option<CommandTraits>) -> (r: bool)
    ensures
        r == commits_first(builtin),
{
    match builtin {
        Some(t) => !t.inserts_inline,
        None => true,
    }
}

impl App {
    /// Runs an accepted command, once its trigger is gone from the text: one
    /// that is not built in is a plugin's, and one that needs arguments opens
    /// the command line with its name.
    pub fn accept_slash_inline(
        &mut self,
        choice: &str,
        builtin: Option<CommandTraits>,
        plugin: Option<(String, String)>,
    ) -> (r: SlashRun)
        ensures
            match builtin {
                Some(t) => if t.needs_args {
                    &&& r is AskArgs
                    &&& *final(self) == (App { overlay: final(self).overlay, ..*old(self) })
                    &&& final(self).overlay matches Some(Overlay::Command(c))
                    &&& c.buffer@ == choice@ + " "@
                } else {
                    r is Dispatch && *final(self) == *old(self)
                },
                None => match plugin {
                    Some((p, c)) => {
                        &&& r == (SlashRun::Plugin { plugin_id: p, command_id: c })
                        &&& *final(self) == *old(self)
                    },
                    None => {
                        &&& r is Unknown
                        &&& *final(self) == (App { status: final(self).status, ..*old(self) })
                        &&& final(self).status@ == "unknown command: "@ + choice@
                    },
                },
            },
    {
        match builtin {
            Some(t) => {
                if t.needs_args {
                    self.overlay =
                    Some(Overlay::Command(CommandState { buffer: cat(choice, " ") }));
                    SlashRun::AskArgs
                } else {
                    SlashRun::Dispatch
                }
            },
            None => match plugin {
                Some((plugin_id, command_id)) => SlashRun::Plugin { plugin_id, command_id },
                None => {
                    self.status = cat("unknown command: ", choice);
                    SlashRun::Unknown
                },
            },
        }
    }
}

impl App {
    /// Says that an accepted command failed.
    pub fn slash_failed(&mut self, choice: &str, why: &str)
        ensures
            *final(self) == (App { status: final(self).status, ..*old(self) }),
            final(self).status@ == "/"@ + choice@ + " failed: "@ + why@,
    {
        self.status = crate::text::cat4("/", choice, " failed: ", why);
    }
}

// ---------------------------------------------------------------------
// Laws
// ---------------------------------------------------------------------

/// Accepting a candidate right behind its trigger leaves the text before the
/// trigger and the text behind the caret as they are.
pub proof fn law_accepting_keeps_the_rest(
    e: EditView,
    kind: AutocompleteKind,
    query: Seq<char>,
    choice: Seq<char>,
)
    requires
        e.wf(),
        opener_len(kind) + query.len() <= e.cursor,
    ensures
        accepted(e, kind, query, choice).chars == e.chars.take(
            e.cursor - opener_len(kind) - query.len(),
        ) + token(kind, choice) + e.chars.skip(e.cursor),
{
    let n = opener_len(kind) + query.len();
    let w = e.without_before(n);
    let head = e.chars.take(e.cursor - n);
    assert(w.chars.take(w.cursor) =~= head);
    assert(w.chars.skip(w.cursor) =~= e.chars.skip(e.cursor));
}

/// Completions are for text that is typed: elsewhere nothing opens a popup, and
/// in a value a popup without candidates is not shown.
pub proof fn law_popups_belong_to_typed_text(mode: Mode, kind: AutocompleteKind)
    ensures
        !(mode is Insert) ==> open_trigger(mode) is None,
        mode matches Mode::Insert { buffer, .. } ==> open_trigger(mode) == trigger_at(
            buffer@.chars,
            buffer@.cursor,
        ),
        !shows_empty(kind, true),
        shows_empty(kind, false) <==> kind != AutocompleteKind::SlashCommand && kind
            != AutocompleteKind::Mention && kind != AutocompleteKind::Emoji,
        commits_first(None),
        forall|t: CommandTraits| #[trigger] commits_first(Some(t)) == !t.inserts_inline,
{
}

} // verus!

//! The properties overlay: list, edit, add and delete the properties of the
//! block under the cursor, or of the page.

use crate::actions::metadata::{
    block_properties, find_key, first_with_key, law_empty_value_deletes, law_set_property_is_read,
    law_the_first_with_a_key_has_it, law_written_property_is_on_the_block, property,
    property_written, same_but_page, same_key,
};
use crate::autocomplete::{
    detect_trigger, law_the_trigger_ends_at_the_caret, opener, trigger_at, AutocompleteKind,
};
use crate::effect::{Effect, EffectValue};
use crate::outline::{
    copy_pairs, count, law_every_block_has_a_path, node_at_path, pair, pairs, path_for_index,
};
use crate::state::{
    copy_strings, toast_value, toasts_view, App, AutocompleteState, Focus, Mode, Overlay,
    PropertiesState, PropertyEdit, PropertyField, PropertyScope, ToastKind,
};
use crate::text::{
    cat, cat3, chars_of, contains, drop_last_char, matches_at, occurs, opt_text, same_text,
    shortened, starts_with, string_range, texts, to_lowercase, trim, trim_of, unicode_lower,
};
use vstd::prelude::*;

verus! {

// ---------------------------------------------------------------------
// Completion
// ---------------------------------------------------------------------

/// The keys that begin with `q`, or those that only hold it.
pub open spec fn matching_keys(known: Seq<Seq<char>>, q: Seq<char>, at_front: bool) -> Seq<
    Seq<char>,
>
    decreases known.len(),
{
    if known.len() == 0 {
        known
    } else {
        let r = matching_keys(known.drop_last(), q, at_front);
        let k = unicode_lower(known.last());
        let front = matches_at(k, q, 0);
        if (at_front && front) || (!at_front && !front && occurs(k, q)) {
            r.push(known.last())
        } else {
            r
        }
    }
}

/// The keys offered for what has been typed: those that begin with it, then
/// those that hold it elsewhere, each group in the order of the catalogue.
pub open spec fn completions(known: Seq<Seq<char>>, query: Seq<char>) -> Seq<Seq<char>> {
    if query.len() == 0 {
        known
    } else {
        matching_keys(known, unicode_lower(query), true) + matching_keys(
            known,
            unicode_lower(query),
            false,
        )
    }
}

/// The keys offered for what has been typed.
pub fn key_completions(known: &Vec<String>, query: &str) -> (r: Vec<String>)
    ensures
        texts(r@) == completions(texts(known@), query@),
{
    if query.is_empty() {
        return copy_strings(known);
    }
    let q = to_lowercase(query);
    let mut front: Vec<String> = Vec::new();
    let mut rest: Vec<String> = Vec::new();
    let mut i: usize = 0;
    assert(texts(front@) =~= Seq::empty());
    assert(texts(rest@) =~= Seq::empty());
    while i < known.len()
        invariant
            i <= known@.len(),
            q@ == unicode_lower(query@),
            texts(front@) == matching_keys(texts(known@).take(i as int), q@, true),
            texts(rest@) == matching_keys(texts(known@).take(i as int), q@, false),
        decreases known@.len() - i,
    {
        let ghost t = texts(known@).take(i + 1);
        let ghost front0 = front@;
        let ghost rest0 = rest@;
        assert(t.drop_last() =~= texts(known@).take(i as int));
        assert(t.last() == known@[i as int]@);
        let lower = to_lowercase(known[i].as_str());
        if starts_with(lower.as_str(), q.as_str()) {
            front.push(known[i].clone());
            assert(texts(front@) =~= texts(front0).push(known@[i as int]@));
        } else if contains(lower.as_str(), q.as_str()) {
            rest.push(known[i].clone());
            assert(texts(rest@) =~= texts(rest0).push(known@[i as int]@));
        }
        i += 1;
    }
    assert(texts(known@).take(i as int) =~= texts(known@));
    let ghost f = front@;
    let mut j: usize = 0;
    while j < rest.len()
        invariant
            j <= rest@.len(),
            texts(front@) == texts(f) + texts(rest@).take(j as int),
        decreases rest@.len() - j,
    {
        let ghost was = front@;
        front.push(rest[j].clone());
        assert(texts(front@) =~= texts(was).push(rest@[j as int]@));
        j += 1;
        assert(texts(front@) =~= texts(f) + texts(rest@).take(j as int));
    }
    assert(texts(rest@).take(j as int) =~= texts(rest@));
    front
}

/// A value with its open trigger, at the end, replaced by the choice. Only
/// pages and tags are completed in a value.
pub open spec fn completed_value(
    value: Seq<char>,
    kind: AutocompleteKind,
    query: Seq<char>,
    choice: Seq<char>,
) -> Seq<char> {
    match kind {
        AutocompleteKind::PageRef => cut_end(value, 2int + query.len()) + ("[["@ + choice + "]]"@),
        AutocompleteKind::Tag => cut_end(value, 1int + query.len()) + ("#"@ + choice),
        _ => value,
    }
}

/// A string without its last `n` characters.
pub open spec fn cut_end(s: Seq<char>, n: int) -> Seq<char> {
    if n >= s.len() {
        Seq::empty()
    } else {
        s.take(s.len() - n)
    }
}

fn without_end(s: &str, n: usize) -> (r: String)
    ensures
        r@ == cut_end(s@, n as int),
        s@.len() <= usize::MAX,
{
    let v = chars_of(s);
    assert(v.len() == s@.len());
    if n >= v.len() {
        return String::new();
    }
    let r = string_range(&v, 0, v.len() - n);
    assert(v@.subrange(0, v@.len() - n) =~= v@.take(v@.len() - n));
    r
}

/// Replaces the open `[[` or `#` at the end of a value by the choice.
pub fn apply_value_completion(
    value: &str,
    kind: AutocompleteKind,
    query: &str,
    choice: &str,
) -> (r: String)
    ensures
        r@ == completed_value(value@, kind, query@, choice@),
{
    let n: usize = query.unicode_len();
    match kind {
        AutocompleteKind::PageRef => {
            let kept = without_end(value, n.saturating_add(2));
            let token = cat3("[[", choice, "]]");
            cat(kept.as_str(), token.as_str())
        },
        AutocompleteKind::Tag => {
            let kept = without_end(value, n.saturating_add(1));
            let token = cat("#", choice);
            cat(kept.as_str(), token.as_str())
        },
        _ => value.to_owned(),
    }
}

// ---------------------------------------------------------------------
// The overlay as a value
// ---------------------------------------------------------------------

/// A property being edited, as a value.
pub ghost struct EditValue {
    pub field: PropertyField,
    pub key: Seq<char>,
    pub value: Seq<char>,
    pub original_key: Option<Seq<char>>,
    pub key_matches: Seq<Seq<char>>,
    pub key_match_idx: int,
}

impl View for PropertyEdit {
    type V = EditValue;

    open spec fn view(&self) -> EditValue {
        EditValue {
            field: self.field,
            key: self.key@,
            value: self.value@,
            original_key: opt_text(self.original_key),
            key_matches: texts(self.key_matches@),
            key_match_idx: self.key_match_idx as int,
        }
    }
}

/// The properties overlay as a value.
pub ghost struct PropsValue {
    pub scope: PropertyScope,
    pub rows: Seq<(Seq<char>, Seq<char>)>,
    pub selected: int,
    pub editing: Option<EditValue>,
    pub pending_delete: bool,
    pub message: Option<Seq<char>>,
    pub known_keys: Seq<Seq<char>>,
}

impl View for PropertiesState {
    type V = PropsValue;

    open spec fn view(&self) -> PropsValue {
        PropsValue {
            scope: self.scope,
            rows: pairs(self.rows@),
            selected: self.selected as int,
            editing: match self.editing {
                Some(e) => Some(e@),
                None => None,
            },
            pending_delete: self.pending_delete,
            message: opt_text(self.message),
            known_keys: texts(self.known_keys@),
        }
    }
}

/// The properties overlay, if that is what is open.
pub open spec fn props_of(overlay: Option<Overlay>) -> Option<PropsValue> {
    match overlay {
        Some(Overlay::Properties(p)) => Some(p@),
        _ => None,
    }
}

/// The completion popup as a value.
pub ghost struct PopupValue {
    pub kind: AutocompleteKind,
    pub query: Seq<char>,
    pub candidates: Seq<Seq<char>>,
    pub selected: int,
}

impl View for AutocompleteState {
    type V = PopupValue;

    open spec fn view(&self) -> PopupValue {
        PopupValue {
            kind: self.kind,
            query: self.query@,
            candidates: texts(self.candidates@),
            selected: self.selected as int,
        }
    }
}

/// The completion popup, if it is open.
pub open spec fn popup_of(a: Option<AutocompleteState>) -> Option<PopupValue> {
    match a {
        Some(p) => Some(p@),
        None => None,
    }
}

/// The keys that make a page what it is.
pub open spec fn defines_page(key: Seq<char>) -> bool {
    key == "page-slug"@ || key == "page-kind"@
}

/// Properties without those that make a page what it is.
pub open spec fn own_properties(props: Seq<(Seq<char>, Seq<char>)>) -> Seq<
    (Seq<char>, Seq<char>),
>
    decreases props.len(),
{
    if props.len() == 0 {
        props
    } else if defines_page(props.last().0) {
        own_properties(props.drop_last())
    } else {
        own_properties(props.drop_last()).push(props.last())
    }
}

/// The properties listed for a scope.
pub open spec fn rows_for(app: App, scope: PropertyScope) -> Seq<(Seq<char>, Seq<char>)> {
    match scope {
        PropertyScope::Block => block_properties(app),
        PropertyScope::Page => own_properties(app.page@.properties),
    }
}

/// The overlay as it opens for a scope, with the cursor at `want` or on the
/// last row before it.
pub open spec fn opened(app: App, scope: PropertyScope, want: int) -> PropsValue {
    let rows = rows_for(app, scope);
    PropsValue {
        scope,
        rows,
        selected: if want < rows.len() {
            want
        } else if rows.len() > 0 {
            rows.len() - 1
        } else {
            0
        },
        editing: None,
        pending_delete: false,
        message: None,
        known_keys: texts(app.known_keys@),
    }
}

/// The trigger that is open at the end of the value being edited. Only pages
/// and tags are looked up there.
pub open spec fn value_trigger(p: PropsValue) -> Option<(AutocompleteKind, Seq<char>)> {
    match p.editing {
        Some(e) => if e.field == PropertyField::Value {
            match trigger_at(e.value, e.value.len() as int) {
                Some((k, q)) => if k == AutocompleteKind::PageRef || k == AutocompleteKind::Tag {
                    Some((k, q))
                } else {
                    None
                },
                None => None,
            }
        } else {
            None
        },
        None => None,
    }
}

/// What has to be looked up for the value being edited.
pub open spec fn value_ask(p: PropsValue) -> EffectValue {
    match value_trigger(p) {
        Some((kind, query)) => EffectValue::Candidates { kind, query },
        None => EffectValue::Nothing,
    }
}

// ---------------------------------------------------------------------
// Steps on the overlay alone
// ---------------------------------------------------------------------

/// The overlay with its cursor moved. It stops at both ends, and a delete
/// that was begun is off.
pub open spec fn moved_cursor(p: PropsValue, delta: int) -> PropsValue {
    PropsValue {
        pending_delete: false,
        selected: if p.rows.len() == 0 {
            p.selected
        } else if p.selected + delta < 0 {
            0
        } else if p.selected + delta >= p.rows.len() {
            p.rows.len() - 1
        } else {
            p.selected + delta
        },
        ..p
    }
}

/// The overlay with the value of the highlighted property being edited.
pub open spec fn edit_begun(p: PropsValue) -> PropsValue {
    if p.selected < p.rows.len() {
        PropsValue {
            pending_delete: false,
            message: None,
            editing: Some(
                EditValue {
                    field: PropertyField::Value,
                    key: p.rows[p.selected].0,
                    value: p.rows[p.selected].1,
                    original_key: Some(p.rows[p.selected].0),
                    key_matches: Seq::empty(),
                    key_match_idx: 0,
                },
            ),
            ..p
        }
    } else {
        PropsValue {
            message: Some("nothing to edit — press `o` to add a property"@),
            ..p
        }
    }
}

/// The overlay with a new property being typed, its key first.
pub open spec fn new_begun(p: PropsValue) -> PropsValue {
    PropsValue {
        pending_delete: false,
        message: None,
        editing: Some(
            EditValue {
                field: PropertyField::Key,
                key: Seq::empty(),
                value: Seq::empty(),
                original_key: None,
                key_matches: p.known_keys,
                key_match_idx: 0,
            },
        ),
        ..p
    }
}

/// The overlay after the key of the edit was confirmed: the value is next,
/// unless the key is blank or makes the page what it is.
pub open spec fn key_confirmed(p: PropsValue) -> PropsValue {
    match p.editing {
        Some(e) => {
            let key = trim_of(e.key);
            if key.len() == 0 {
                PropsValue { message: Some("a property key cannot be empty"@), ..p }
            } else if defines_page(key) {
                PropsValue {
                    message: Some("`"@ + key + "` defines the page, it is not a property"@),
                    ..p
                }
            } else {
                PropsValue {
                    message: None,
                    editing: Some(EditValue { key, field: PropertyField::Value, ..e }),
                    ..p
                }
            }
        },
        None => p,
    }
}

/// The overlay after the text being typed became `s`. In the key, the
/// matches start over.
pub open spec fn retyped(p: PropsValue, e: EditValue, s: Seq<char>) -> PropsValue {
    PropsValue {
        editing: Some(
            match e.field {
                PropertyField::Key => EditValue {
                    key: s,
                    key_matches: completions(p.known_keys, s),
                    key_match_idx: 0,
                    ..e
                },
                PropertyField::Value => EditValue { value: s, ..e },
            },
        ),
        ..p
    }
}

/// The text being typed.
pub open spec fn typed(e: EditValue) -> Seq<char> {
    match e.field {
        PropertyField::Key => e.key,
        PropertyField::Value => e.value,
    }
}

/// The overlay with one more character typed.
pub open spec fn pushed(p: PropsValue, c: char) -> PropsValue {
    match p.editing {
        Some(e) => retyped(p, e, typed(e).push(c)),
        None => p,
    }
}

/// The overlay with the last character typed taken back.
pub open spec fn popped(p: PropsValue) -> PropsValue {
    match p.editing {
        Some(e) => retyped(p, e, shortened(typed(e))),
        None => p,
    }
}

/// The overlay with the next matching key taken. The matches stay those of
/// what was typed.
pub open spec fn key_completed(p: PropsValue) -> PropsValue {
    match p.editing {
        Some(e) => if e.field == PropertyField::Key && e.key_matches.len() > 0 {
            let n = e.key_matches.len() as int;
            let i = e.key_match_idx % n;
            PropsValue {
                editing: Some(
                    EditValue { key: e.key_matches[i], key_match_idx: (i + 1) % n, ..e },
                ),
                ..p
            }
        } else {
            p
        },
        None => p,
    }
}

/// The overlay with a choice written into the value being edited.
pub open spec fn choice_taken(p: PropsValue, a: PopupValue) -> PropsValue {
    match p.editing {
        Some(e) => if a.selected < a.candidates.len() {
            PropsValue {
                editing: Some(
                    EditValue {
                        value: completed_value(
                            e.value,
                            a.kind,
                            a.query,
                            a.candidates[a.selected],
                        ),
                        ..e
                    },
                ),
                ..p
            }
        } else {
            p
        },
        None => p,
    }
}

/// The message that a property is gone.
pub open spec fn deleted_message(key: Seq<char>) -> Seq<char> {
    "deleted `"@ + key + "`"@
}

/// The message that an edit was written.
pub open spec fn written_message(key: Seq<char>, value: Seq<char>) -> Seq<char> {
    if value.len() == 0 {
        deleted_message(key)
    } else {
        key + " = "@ + value
    }
}

fn is_page_model_key(key: &str) -> (r: bool)
    ensures
        r == defines_page(key@),
{
    same_text(key, "page-slug") || same_text(key, "page-kind")
}

impl PropertiesState {
    fn step(&mut self, delta: i32)
        ensures
            final(self)@ == moved_cursor(old(self)@, delta as int),
    {
        self.pending_delete = false;
        if self.rows.len() == 0 {
            return;
        }
        let last: usize = self.rows.len() - 1;
        let at: i128 = self.selected as i128 + delta as i128;
        self.selected =
        if at < 0 {
            0
        } else if at > last as i128 {
            last
        } else {
            at as usize
        };
    }

    fn begin_edit(&mut self)
        ensures
            final(self)@ == edit_begun(old(self)@),
    {
        if self.selected >= self.rows.len() {
            self.message = Some("nothing to edit — press `o` to add a property".to_owned());
            return;
        }
        let key = self.rows[self.selected].0.clone();
        let value = self.rows[self.selected].1.clone();
        assert(pairs(self.rows@)[self.selected as int] == pair(self.rows@[self.selected as int]));
        let original = key.clone();
        self.pending_delete = false;
        self.message = None;
        let e = PropertyEdit {
            field: PropertyField::Value,
            key,
            value,
            original_key: Some(original),
            key_matches: Vec::new(),
            key_match_idx: 0,
        };
        assert(e@.key_matches =~= Seq::empty());
        self.editing = Some(e);
    }

    fn begin_new(&mut self)
        ensures
            final(self)@ == new_begun(old(self)@),
    {
        self.pending_delete = false;
        self.message = None;
        self.editing = Some(
            PropertyEdit {
                field: PropertyField::Key,
                key: String::new(),
                value: String::new(),
                original_key: None,
                key_matches: copy_strings(&self.known_keys),
                key_match_idx: 0,
            },
        );
    }

    fn confirm_key(&mut self)
        ensures
            final(self)@ == key_confirmed(old(self)@),
    {
        if let Some(e) = &mut self.editing {
            let key = trim(e.key.as_str());
            if key.as_str().is_empty() {
                self.message = Some("a property key cannot be empty".to_owned());
                return;
            }
            if is_page_model_key(key.as_str()) {
                self.message = Some(
                    cat3("`", key.as_str(), "` defines the page, it is not a property"),
                );
                return;
            }
            e.key = key;
            e.field = PropertyField::Value;
            self.message = None;
        }
    }

    fn push(&mut self, c: char)
        ensures
            final(self)@ == pushed(old(self)@, c),
    {
        if let Some(e) = &mut self.editing {
            match e.field {
                PropertyField::Key => {
                    e.key.push(c);
                    e.key_matches = key_completions(&self.known_keys, e.key.as_str());
                    e.key_match_idx = 0;
                },
                PropertyField::Value => {
                    e.value.push(c);
                },
            }
        }
    }

    fn pop(&mut self)
        ensures
            final(self)@ == popped(old(self)@),
    {
        if let Some(e) = &mut self.editing {
            match e.field {
                PropertyField::Key => {
                    e.key = drop_last_char(e.key.as_str());
                    e.key_matches = key_completions(&self.known_keys, e.key.as_str());
                    e.key_match_idx = 0;
                },
                PropertyField::Value => {
                    e.value = drop_last_char(e.value.as_str());
                },
            }
        }
    }

    fn complete_key(&mut self)
        ensures
            final(self)@ == key_completed(old(self)@),
    {
        if let Some(e) = &mut self.editing {
            let n: usize = e.key_matches.len();
            if e.field != PropertyField::Key || n == 0 {
                return;
            }
            let i: usize = e.key_match_idx % n;
            assert(texts(e.key_matches@)[i as int] == e.key_matches@[i as int]@);
            e.key = e.key_matches[i].clone();
            e.key_match_idx =
            if i + 1 == n {
                0
            } else {
                i + 1
            };
            assert((i + 1) % (n as int) == e.key_match_idx) by {
                if i + 1 == n {
                    assert((n as int) % (n as int) == 0) by (nonlinear_arith)
                        requires
                            n > 0,
                    ;
                } else {
                    assert((i + 1) % (n as int) == i + 1) by (nonlinear_arith)
                        requires
                            0 <= i + 1 < n,
                    ;
                }
            }
        }
    }

    fn take_choice(&mut self, a: &AutocompleteState)
        ensures
            final(self)@ == choice_taken(old(self)@, a@),
    {
        if a.selected >= a.candidates.len() {
            return;
        }
        assert(texts(a.candidates@)[a.selected as int] == a.candidates@[a.selected as int]@);
        if let Some(e) = &mut self.editing {
            e.value = apply_value_completion(
                e.value.as_str(),
                a.kind,
                a.query.as_str(),
                a.candidates[a.selected].as_str(),
            );
        }
    }

    /// The trigger open at the end of the value being edited.
    pub fn trigger(&self) -> (r: Option<(AutocompleteKind, String)>)
        ensures
            crate::autocomplete::trigger_view(r) == value_trigger(self@),
    {
        match &self.editing {
            Some(e) => {
                if e.field == PropertyField::Key {
                    return None;
                }
                let v = chars_of(e.value.as_str());
                match detect_trigger(&v, v.len()) {
                    Some((k, q)) => {
                        if k == AutocompleteKind::PageRef || k == AutocompleteKind::Tag {
                            Some((k, q))
                        } else {
                            None
                        }
                    },
                    None => None,
                }
            },
            None => None,
        }
    }
}

// ---------------------------------------------------------------------
// The overlay in the editor
// ---------------------------------------------------------------------

/// The two differ at most in what is drawn over the outline.
pub open spec fn same_but_overlay(old: App, new: App) -> bool {
    new == App { overlay: new.overlay, autocomplete: new.autocomplete, ..old }
}

/// The two differ at most in the page, its history, and what is drawn over
/// the outline.
pub open spec fn same_but_page_and_overlay(old: App, new: App) -> bool {
    new == App {
        page: new.page,
        status: new.status,
        undo: new.undo,
        redo: new.redo,
        dirty_since: new.dirty_since,
        overlay: new.overlay,
        autocomplete: new.autocomplete,
        ..old
    }
}

/// `new` shows the overlay `p` in place of the one in `old`, with nothing
/// else changed, and `r` asks for the candidates of the value being edited.
pub open spec fn overlay_became(old: App, new: App, p: PropsValue, r: EffectValue) -> bool {
    &&& same_but_overlay(old, new)
    &&& new.autocomplete is None
    &&& props_of(new.overlay) == Some(p)
    &&& r == value_ask(p)
}

/// The highlighted property of `old` was deleted in `new`.
pub open spec fn selected_deleted(old: App, new: App, p: PropsValue) -> bool {
    if p.selected < p.rows.len() {
        let key = p.rows[p.selected].0;
        &&& same_but_page_and_overlay(old, new)
        &&& property_written(old, new, p.scope, key, Seq::empty())
        &&& new.autocomplete is None
        &&& props_of(new.overlay) == Some(
            PropsValue {
                message: Some(deleted_message(key)),
                ..opened(new, p.scope, p.selected)
            },
        )
    } else {
        &&& new == App { overlay: new.overlay, ..old }
        &&& props_of(new.overlay) == Some(
            PropsValue { pending_delete: false, message: Some("nothing to delete"@), ..p },
        )
    }
}

/// The edit of `old` was written in `new`; the cursor is on what was
/// written. An edit without a key is not.
pub open spec fn edit_written(old: App, new: App, p: PropsValue, e: EditValue) -> bool {
    let key = trim_of(e.key);
    let value = trim_of(e.value);
    &&& new.autocomplete is None
    &&& if key.len() == 0 {
        &&& same_but_overlay(old, new)
        &&& props_of(new.overlay) == Some(
            PropsValue { message: Some("a property key cannot be empty"@), ..p },
        )
    } else {
        let at = first_with_key(rows_for(new, p.scope), key, false);
        &&& same_but_page_and_overlay(old, new)
        &&& property_written(old, new, p.scope, key, value)
        &&& props_of(new.overlay) == Some(
            PropsValue {
                message: Some(written_message(key, value)),
                ..opened(
                    new,
                    p.scope,
                    match at {
                        Some(i) => i,
                        None => 0,
                    },
                )
            },
        )
    }
}

fn own_rows(v: &Vec<(String, String)>) -> (r: Vec<(String, String)>)
    ensures
        pairs(r@) == own_properties(pairs(v@)),
{
    let mut r: Vec<(String, String)> = Vec::new();
    let mut i: usize = 0;
    assert(pairs(r@) =~= Seq::empty());
    while i < v.len()
        invariant
            i <= v@.len(),
            pairs(r@) == own_properties(pairs(v@).take(i as int)),
        decreases v@.len() - i,
    {
        let ghost t = pairs(v@).take(i + 1);
        assert(t.drop_last() =~= pairs(v@).take(i as int));
        assert(t.last() == pair(v@[i as int]));
        if !is_page_model_key(v[i].0.as_str()) {
            let ghost was = r@;
            let p = (v[i].0.clone(), v[i].1.clone());
            r.push(p);
            assert(pair(p) == pair(v@[i as int]));
            assert(pairs(r@) =~= pairs(was).push(pair(p)));
        }
        i += 1;
    }
    assert(pairs(v@).take(i as int) =~= pairs(v@));
    r
}

/// `new` is `old` after the properties were asked for, which need a block of
/// the outline.
pub open spec fn properties_asked(old: App, new: App, asked: EffectValue) -> bool {
    if old.focus is Outline && old.mode is Normal {
        &&& new == old
        &&& asked == (EffectValue::OpenProperties { scope: PropertyScope::Block })
    } else {
        &&& new == (App { toasts: new.toasts, ..old })
        &&& toasts_view(new.toasts@) == toasts_view(old.toasts@).push(
            toast_value(
                old,
                ToastKind::Info,
                "properties need a block in the outline — press Esc first"@,
            ),
        )
        &&& asked == EffectValue::Nothing
    }
}

impl App {
    /// `g p`: asks for the properties of the block under the cursor. Outside
    /// the outline, and in another mode, a toast says why there are none.
    pub fn open_properties(&mut self) -> (r: Effect)
        ensures
            properties_asked(*old(self), *final(self), r@),
    {
        let in_outline = match &self.focus {
            Focus::Outline => true,
            _ => false,
        };
        let in_normal = match &self.mode {
            Mode::Normal => true,
            _ => false,
        };
        if in_outline && in_normal {
            Effect::OpenProperties { scope: PropertyScope::Block }
        } else {
            self.toast(
                ToastKind::Info,
                "properties need a block in the outline — press Esc first",
            );
            Effect::Nothing
        }
    }

    /// The properties listed for a scope.
    pub fn property_rows(&self, scope: PropertyScope) -> (r: Vec<(String, String)>)
        requires
            self.wf(),
        ensures
            pairs(r@) == rows_for(*self, scope),
    {
        match scope {
            PropertyScope::Block => {
                proof {
                    law_every_block_has_a_path(self.blocks(), self.selected as int);
                }
                if let Some(path) = path_for_index(&self.page.blocks, self.selected) {
                    if let Some(node) = node_at_path(&self.page.blocks, &path) {
                        return copy_pairs(&node.properties);
                    }
                }
                let r: Vec<(String, String)> = Vec::new();
                assert(pairs(r@) =~= Seq::empty());
                r
            },
            PropertyScope::Page => own_rows(&self.page.properties),
        }
    }

    /// Opens the overlay for a scope, with the cursor at `want`, or on the
    /// last row where there are fewer.
    pub fn open_properties_scope(&mut self, scope: PropertyScope, want: usize)
        requires
            old(self).wf(),
        ensures
            same_but_overlay(*old(self), *final(self)),
            final(self).autocomplete is None,
            props_of(final(self).overlay) == Some(opened(*old(self), scope, want as int)),
            final(self).wf(),
    {
        let rows = self.property_rows(scope);
        let selected: usize = if want < rows.len() {
            want
        } else if rows.len() > 0 {
            rows.len() - 1
        } else {
            0
        };
        self.autocomplete = None;
        self.overlay =
        Some(
            Overlay::Properties(
                PropertiesState {
                    scope,
                    rows,
                    selected,
                    editing: None,
                    pending_delete: false,
                    message: None,
                    known_keys: copy_strings(&self.known_keys),
                },
            ),
        );
    }

    /// `p`: from the properties of the block to those of the page, and back.
    pub fn toggle_properties_scope(&mut self)
        requires
            old(self).wf(),
        ensures
            match props_of(old(self).overlay) {
                Some(p) => {
                    &&& same_but_overlay(*old(self), *final(self))
                    &&& final(self).autocomplete is None
                    &&& props_of(final(self).overlay) == Some(
                        opened(
                            *old(self),
                            if p.scope == PropertyScope::Block {
                                PropertyScope::Page
                            } else {
                                PropertyScope::Block
                            },
                            0,
                        ),
                    )
                },
                None => *final(self) == *old(self),
            },
            final(self).wf(),
    {
        let next = match &self.overlay {
            Some(Overlay::Properties(p)) => match p.scope {
                PropertyScope::Block => PropertyScope::Page,
                PropertyScope::Page => PropertyScope::Block,
            },
            _ => {
                return;
            },
        };
        self.open_properties_scope(next, 0);
    }

    /// Asks for the candidates of the value being edited. The popup is
    /// closed until they come.
    pub fn refresh_property_value_completion(&mut self) -> (r: Effect)
        ensures
            *final(self) == (App { autocomplete: None, ..*old(self) }),
            r@ == match props_of(old(self).overlay) {
                Some(p) => value_ask(p),
                None => EffectValue::Nothing,
            },
    {
        self.autocomplete = None;
        match &self.overlay {
            Some(Overlay::Properties(p)) => match p.trigger() {
                Some((kind, query)) => Effect::Candidates { kind, query },
                None => Effect::Nothing,
            },
            _ => Effect::Nothing,
        }
    }

    /// Moves the cursor in the list.
    pub fn properties_move(&mut self, delta: i32)
        ensures
            match props_of(old(self).overlay) {
                Some(p) => {
                    &&& *final(self) == (App { overlay: final(self).overlay, ..*old(self) })
                    &&& props_of(final(self).overlay) == Some(moved_cursor(p, delta as int))
                },
                None => *final(self) == *old(self),
            },
    {
        if let Some(Overlay::Properties(p)) = &mut self.overlay {
            p.step(delta);
        }
    }

    /// `Enter` on a row: edits that property's value. The key stays.
    pub fn properties_begin_edit(&mut self) -> (r: Effect)
        ensures
            match props_of(old(self).overlay) {
                Some(p) => if p.selected < p.rows.len() {
                    overlay_became(*old(self), *final(self), edit_begun(p), r@)
                } else {
                    &&& *final(self) == (App { overlay: final(self).overlay, ..*old(self) })
                    &&& props_of(final(self).overlay) == Some(edit_begun(p))
                    &&& r@ == EffectValue::Nothing
                },
                None => *final(self) == *old(self) && r@ == EffectValue::Nothing,
            },
    {
        if let Some(Overlay::Properties(p)) = &mut self.overlay {
            let begun = p.selected < p.rows.len();
            p.begin_edit();
            if begun {
                return self.refresh_property_value_completion();
            }
        }
        Effect::Nothing
    }

    /// `o`: starts a new property, its key first.
    pub fn properties_begin_new(&mut self)
        ensures
            match props_of(old(self).overlay) {
                Some(p) => {
                    &&& *final(self) == (App { overlay: final(self).overlay, ..*old(self) })
                    &&& props_of(final(self).overlay) == Some(new_begun(p))
                },
                None => *final(self) == *old(self),
            },
    {
        if let Some(Overlay::Properties(p)) = &mut self.overlay {
            p.begin_new();
        }
    }

    fn write_property(&mut self, scope: PropertyScope, key: &str, value: &str)
        requires
            old(self).wf(),
        ensures
            property_written(*old(self), *final(self), scope, key@, value@),
            same_but_page(*old(self), *final(self)),
            final(self).wf(),
    {
        match scope {
            PropertyScope::Block => self.set_property_on_current_block(key, value),
            PropertyScope::Page => self.set_property_on_page(key, value),
        }
    }

    fn set_properties_message(&mut self, message: String)
        ensures
            match props_of(old(self).overlay) {
                Some(p) => {
                    &&& *final(self) == (App { overlay: final(self).overlay, ..*old(self) })
                    &&& props_of(final(self).overlay) == Some(
                        PropsValue { message: Some(message@), ..p },
                    )
                },
                None => *final(self) == *old(self),
            },
    {
        if let Some(Overlay::Properties(p)) = &mut self.overlay {
            p.message = Some(message);
        }
    }

    /// `d d`: deletes the highlighted property.
    pub fn properties_delete_selected(&mut self)
        requires
            old(self).wf(),
        ensures
            match props_of(old(self).overlay) {
                Some(p) => selected_deleted(*old(self), *final(self), p),
                None => *final(self) == *old(self),
            },
            final(self).wf(),
    {
        let (scope, want, key) = match &self.overlay {
            Some(Overlay::Properties(p)) => {
                if p.selected < p.rows.len() {
                    assert(pairs(p.rows@)[p.selected as int] == pair(p.rows@[p.selected as int]));
                    (p.scope, p.selected, Some(p.rows[p.selected].0.clone()))
                } else {
                    (p.scope, p.selected, None)
                }
            },
            _ => {
                return;
            },
        };
        match key {
            Some(key) => {
                let nothing = String::new();
                self.write_property(scope, key.as_str(), nothing.as_str());
                self.open_properties_scope(scope, want);
                self.set_properties_message(cat3("deleted `", key.as_str(), "`"));
            },
            None => {
                if let Some(Overlay::Properties(p)) = &mut self.overlay {
                    p.pending_delete = false;
                    p.message = Some("nothing to delete".to_owned());
                }
            },
        }
    }

    /// `Esc` while editing: drops what was typed.
    pub fn properties_cancel_edit(&mut self)
        ensures
            same_but_overlay(*old(self), *final(self)),
            final(self).autocomplete is None,
            match props_of(old(self).overlay) {
                Some(p) => props_of(final(self).overlay) == Some(
                    PropsValue { editing: None, message: None, ..p },
                ),
                None => final(self).overlay == old(self).overlay,
            },
    {
        self.autocomplete = None;
        if let Some(Overlay::Properties(p)) = &mut self.overlay {
            p.editing = None;
            p.message = None;
        }
    }

    /// Leaves the key for the value, where the key can be one.
    pub fn properties_confirm_key(&mut self) -> (r: Effect)
        ensures
            match props_of(old(self).overlay) {
                Some(p) => if p.editing is Some && key_confirmed(p).message is None {
                    overlay_became(*old(self), *final(self), key_confirmed(p), r@)
                } else {
                    &&& *final(self) == (App { overlay: final(self).overlay, ..*old(self) })
                    &&& props_of(final(self).overlay) == Some(key_confirmed(p))
                    &&& r@ == EffectValue::Nothing
                },
                None => *final(self) == *old(self) && r@ == EffectValue::Nothing,
            },
    {
        if let Some(Overlay::Properties(p)) = &mut self.overlay {
            let editing = p.editing.is_some();
            p.confirm_key();
            if editing && p.message.is_none() {
                return self.refresh_property_value_completion();
            }
        }
        Effect::Nothing
    }

    /// Writes the edit, and lists the properties as they are then.
    pub fn properties_commit_edit(&mut self)
        requires
            old(self).wf(),
        ensures
            match props_of(old(self).overlay) {
                Some(p) => match p.editing {
                    Some(e) => edit_written(*old(self), *final(self), p, e),
                    None => *final(self) == (App { autocomplete: None, ..*old(self) }),
                },
                None => *final(self) == (App { autocomplete: None, ..*old(self) }),
            },
            final(self).wf(),
    {
        self.autocomplete = None;
        let (scope, key, value) = match &self.overlay {
            Some(Overlay::Properties(p)) => match &p.editing {
                Some(e) => (p.scope, trim(e.key.as_str()), trim(e.value.as_str())),
                None => {
                    return;
                },
            },
            _ => {
                return;
            },
        };
        if key.as_str().is_empty() {
            self.set_properties_message("a property key cannot be empty".to_owned());
            return;
        }
        self.write_property(scope, key.as_str(), value.as_str());
        let rows = self.property_rows(scope);
        let want: usize = match find_key(&rows, key.as_str(), false) {
            Some(i) => i,
            None => 0,
        };
        self.open_properties_scope(scope, want);
        let message = if value.as_str().is_empty() {
            cat3("deleted `", key.as_str(), "`")
        } else {
            cat3(key.as_str(), " = ", value.as_str())
        };
        self.set_properties_message(message);
    }

    /// `Enter` while editing: from the key to the value, and from there to
    /// the page.
    pub fn properties_advance_or_commit(&mut self) -> (r: Effect)
        requires
            old(self).wf(),
        ensures
            match props_of(old(self).overlay) {
                Some(p) => match p.editing {
                    Some(e) => if e.field == PropertyField::Value {
                        &&& edit_written(*old(self), *final(self), p, e)
                        &&& r@ == EffectValue::Nothing
                    } else if key_confirmed(p).message is None {
                        overlay_became(*old(self), *final(self), key_confirmed(p), r@)
                    } else {
                        &&& *final(self) == (App { overlay: final(self).overlay, ..*old(self) })
                        &&& props_of(final(self).overlay) == Some(key_confirmed(p))
                        &&& r@ == EffectValue::Nothing
                    },
                    None => *final(self) == *old(self) && r@ == EffectValue::Nothing,
                },
                None => *final(self) == *old(self) && r@ == EffectValue::Nothing,
            },
            final(self).wf(),
    {
        let field = match &self.overlay {
            Some(Overlay::Properties(p)) => match &p.editing {
                Some(e) => Some(e.field),
                None => None,
            },
            _ => None,
        };
        match field {
            Some(PropertyField::Key) => self.properties_confirm_key(),
            Some(PropertyField::Value) => {
                self.properties_commit_edit();
                Effect::Nothing
            },
            None => Effect::Nothing,
        }
    }

    /// A character typed into the edit.
    pub fn properties_edit_push(&mut self, c: char) -> (r: Effect)
        ensures
            match props_of(old(self).overlay) {
                Some(p) => if p.editing is Some {
                    overlay_became(*old(self), *final(self), pushed(p, c), r@)
                } else {
                    &&& *final(self) == *old(self)
                    &&& r@ == EffectValue::Nothing
                },
                None => *final(self) == *old(self) && r@ == EffectValue::Nothing,
            },
    {
        if let Some(Overlay::Properties(p)) = &mut self.overlay {
            if p.editing.is_some() {
                p.push(c);
                return self.refresh_property_value_completion();
            }
        }
        Effect::Nothing
    }

    /// `Backspace` in the edit.
    pub fn properties_edit_backspace(&mut self) -> (r: Effect)
        ensures
            match props_of(old(self).overlay) {
                Some(p) => if p.editing is Some {
                    overlay_became(*old(self), *final(self), popped(p), r@)
                } else {
                    &&& *final(self) == *old(self)
                    &&& r@ == EffectValue::Nothing
                },
                None => *final(self) == *old(self) && r@ == EffectValue::Nothing,
            },
    {
        if let Some(Overlay::Properties(p)) = &mut self.overlay {
            if p.editing.is_some() {
                p.pop();
                return self.refresh_property_value_completion();
            }
        }
        Effect::Nothing
    }

    /// `Tab` in the key: takes the next matching key.
    pub fn properties_complete_key(&mut self)
        ensures
            match props_of(old(self).overlay) {
                Some(p) => {
                    &&& *final(self) == (App { overlay: final(self).overlay, ..*old(self) })
                    &&& props_of(final(self).overlay) == Some(key_completed(p))
                },
                None => *final(self) == *old(self),
            },
    {
        if let Some(Overlay::Properties(p)) = &mut self.overlay {
            p.complete_key();
        }
    }

    /// Writes the highlighted page or tag into the value being edited.
    pub fn accept_property_value_completion(&mut self)
        ensures
            same_but_overlay(*old(self), *final(self)),
            final(self).autocomplete is None,
            match props_of(old(self).overlay) {
                Some(p) => props_of(final(self).overlay) == Some(
                    match popup_of(old(self).autocomplete) {
                        Some(a) => choice_taken(p, a),
                        None => p,
                    },
                ),
                None => final(self).overlay == old(self).overlay,
            },
    {
        let taken = self.autocomplete.take();
        if let Some(a) = taken {
            if let Some(Overlay::Properties(p)) = &mut self.overlay {
                p.take_choice(&a);
            }
        }
    }

    /// Closes the overlay, and the popup with it.
    pub fn close_properties(&mut self)
        ensures
            *final(self) == (App { overlay: None, autocomplete: None, ..*old(self) }),
    {
        self.autocomplete = None;
        self.overlay = None;
    }

    /// `d`: the first one only arms, the second deletes.
    pub fn properties_pending_delete(&mut self)
        requires
            old(self).wf(),
        ensures
            match props_of(old(self).overlay) {
                Some(p) => if p.pending_delete {
                    selected_deleted(*old(self), *final(self), p)
                } else {
                    &&& *final(self) == (App { overlay: final(self).overlay, ..*old(self) })
                    &&& props_of(final(self).overlay) == Some(
                        PropsValue {
                            pending_delete: true,
                            message: Some("d again to delete"@),
                            ..p
                        },
                    )
                },
                None => *final(self) == *old(self),
            },
            final(self).wf(),
    {
        let fire = match &self.overlay {
            Some(Overlay::Properties(p)) => p.pending_delete,
            _ => {
                return;
            },
        };
        if fire {
            self.properties_delete_selected();
        } else if let Some(Overlay::Properties(p)) = &mut self.overlay {
            p.pending_delete = true;
            p.message = Some("d again to delete".to_owned());
        }
    }
}

// ---------------------------------------------------------------------
// Laws
// ---------------------------------------------------------------------

proof fn lemma_matching(known: Seq<Seq<char>>, q: Seq<char>, at_front: bool, k: Seq<char>)
    ensures
        matching_keys(known, q, at_front).contains(k) <==> known.contains(k) && (if at_front {
            matches_at(unicode_lower(k), q, 0)
        } else {
            !matches_at(unicode_lower(k), q, 0) && occurs(unicode_lower(k), q)
        }),
    decreases known.len(),
{
    let m = matching_keys(known, q, at_front);
    if known.len() > 0 {
        let d = known.drop_last();
        let r = matching_keys(d, q, at_front);
        lemma_matching(d, q, at_front, k);
        assert(known =~= d.push(known.last()));
        if known.contains(k) {
            let i = choose|i: int| 0 <= i < known.len() && known[i] == k;
            if i < d.len() {
                assert(d[i] == k);
            }
        }
        if d.contains(k) {
            let i = choose|i: int| 0 <= i < d.len() && d[i] == k;
            assert(known[i] == k);
        }
        if m.contains(k) {
            let i = choose|i: int| 0 <= i < m.len() && m[i] == k;
            if i < r.len() {
                assert(r[i] == k);
            } else {
                assert(known[known.len() - 1] == k);
            }
        }
        if r.contains(k) {
            let i = choose|i: int| 0 <= i < r.len() && r[i] == k;
            assert(m[i] == k);
        }
        if k == known.last() && m.len() > r.len() {
            assert(m[r.len() as int] == k);
        }
    }
}

/// The keys that are offered are those that hold what has been typed, whatever
/// the case, and all of them; those that begin with it come before those that
/// hold it elsewhere. Before anything is typed, all are offered.
pub proof fn law_completions_hold_what_was_typed(
    known: Seq<Seq<char>>,
    query: Seq<char>,
    k: Seq<char>,
)
    ensures
        query.len() == 0 ==> completions(known, query) == known,
        query.len() > 0 ==> (completions(known, query).contains(k) <==> known.contains(k)
            && occurs(unicode_lower(k), unicode_lower(query))),
        query.len() > 0 ==> exists|n: int|
            0 <= n <= completions(known, query).len() && (forall|i: int|
                0 <= i < n ==> matches_at(
                    unicode_lower(#[trigger] completions(known, query)[i]),
                    unicode_lower(query),
                    0,
                )) && #[trigger] completions(known, query).skip(n).len() >= 0 && (forall|i: int|
                n <= i < completions(known, query).len() ==> !matches_at(
                    unicode_lower(#[trigger] completions(known, query)[i]),
                    unicode_lower(query),
                    0,
                )),
{
    if query.len() > 0 {
        let q = unicode_lower(query);
        let a = matching_keys(known, q, true);
        let b = matching_keys(known, q, false);
        let c = completions(known, query);
        lemma_matching(known, q, true, k);
        lemma_matching(known, q, false, k);
        if a.contains(k) {
            let i = choose|i: int| 0 <= i < a.len() && a[i] == k;
            assert(c[i] == k);
        }
        if b.contains(k) {
            let i = choose|i: int| 0 <= i < b.len() && b[i] == k;
            assert(c[a.len() + i] == k);
        }
        if c.contains(k) {
            let i = choose|i: int| 0 <= i < c.len() && c[i] == k;
            if i < a.len() {
                assert(a[i] == k);
            } else {
                assert(b[i - a.len()] == k);
            }
        }
        let n = a.len() as int;
        assert forall|i: int| 0 <= i < n implies matches_at(
            unicode_lower(#[trigger] c[i]),
            q,
            0,
        ) by {
            lemma_matching(known, q, true, c[i]);
            assert(a[i] == c[i]);
        }
        assert forall|i: int| n <= i < c.len() implies !matches_at(
            unicode_lower(#[trigger] c[i]),
            q,
            0,
        ) by {
            lemma_matching(known, q, false, c[i]);
            assert(b[i - n] == c[i]);
        }
        assert(c.skip(n).len() >= 0);
    }
}

/// A page or a tag that is taken for a value replaces what was typed of it at
/// the end, opener and query, and nothing before it.
pub proof fn law_a_choice_replaces_the_end_of_the_value(value: Seq<char>, choice: Seq<char>)
    ensures
        trigger_at(value, value.len() as int) matches Some((kind, query)) ==> {
            let p = value.len() - opener(kind).len() - query.len();
            &&& 0 <= p
            &&& value.skip(p) == opener(kind) + query
            &&& kind == AutocompleteKind::PageRef ==> completed_value(value, kind, query, choice)
                == value.take(p) + ("[["@ + choice + "]]"@)
            &&& kind == AutocompleteKind::Tag ==> completed_value(value, kind, query, choice)
                == value.take(p) + ("#"@ + choice)
            &&& kind != AutocompleteKind::PageRef && kind != AutocompleteKind::Tag
                ==> completed_value(value, kind, query, choice) == value
        },
{
    reveal_strlit("[[");
    reveal_strlit("#");
    law_the_trigger_ends_at_the_caret(value, value.len() as int);
    if let Some((kind, query)) = trigger_at(value, value.len() as int) {
        let p = value.len() - opener(kind).len() - query.len();
        assert(value.skip(p) =~= value.subrange(p, value.len() as int));
        assert(value.take(0) =~= Seq::<char>::empty());
    }
}

/// The cursor of the overlay stays on a row, goes as far as it is moved, and
/// comes back when it is moved back.
pub proof fn law_the_overlay_cursor_stays_on_a_row(p: PropsValue, delta: int)
    requires
        0 <= p.selected < p.rows.len(),
    ensures
        0 <= moved_cursor(p, delta).selected < p.rows.len(),
        0 <= p.selected + delta < p.rows.len() ==> moved_cursor(p, delta).selected == p.selected
            + delta && moved_cursor(moved_cursor(p, delta), -delta).selected == p.selected,
        p.selected + delta < 0 ==> moved_cursor(p, delta).selected == 0,
        p.selected + delta >= p.rows.len() ==> moved_cursor(p, delta).selected == p.rows.len() - 1,
        moved_cursor(p, delta).rows == p.rows && !moved_cursor(p, delta).pending_delete,
{
}

/// Taking back undoes typing: the text is what it was, in the field that is
/// being typed in, and the other field is not touched.
pub proof fn law_taking_back_undoes_typing(p: PropsValue, e: EditValue, c: char)
    requires
        p.editing == Some(e),
    ensures
        pushed(p, c).editing is Some && popped(pushed(p, c)).editing is Some,
        typed(pushed(p, c).editing->0) == typed(e).push(c),
        typed(popped(pushed(p, c)).editing->0) == typed(e),
        e.field == PropertyField::Key ==> pushed(p, c).editing->0.value == e.value
            && pushed(p, c).editing->0.key == e.key.push(c),
        e.field == PropertyField::Value ==> pushed(p, c).editing->0.key == e.key
            && pushed(p, c).editing->0.value == e.value.push(c),
        pushed(p, c).rows == p.rows && pushed(p, c).selected == p.selected,
{
    assert(typed(e).push(c).drop_last() =~= typed(e));
}

/// Tab goes through the matching keys one after the other and begins again
/// behind the last.
pub proof fn law_tab_goes_through_the_matches(p: PropsValue, e: EditValue)
    requires
        p.editing == Some(e),
        e.field == PropertyField::Key,
        e.key_matches.len() > 0,
        0 <= e.key_match_idx < e.key_matches.len(),
    ensures
        ({
            let f = key_completed(p).editing->0;
            let g = key_completed(key_completed(p)).editing->0;
            let n = e.key_matches.len() as int;
            &&& key_completed(p).editing is Some && key_completed(key_completed(p)).editing is Some
            &&& f.key == e.key_matches[e.key_match_idx]
            &&& f.key_matches == e.key_matches
            &&& e.key_match_idx + 1 < n ==> g.key == e.key_matches[e.key_match_idx + 1]
            &&& e.key_match_idx + 1 == n ==> g.key == e.key_matches[0]
        }),
{
    let n = e.key_matches.len() as int;
    vstd::arithmetic::div_mod::lemma_small_mod(e.key_match_idx as nat, n as nat);
    if e.key_match_idx + 1 < n {
        vstd::arithmetic::div_mod::lemma_small_mod((e.key_match_idx + 1) as nat, n as nat);
    } else {
        vstd::arithmetic::div_mod::lemma_mod_self_0(n);
        vstd::arithmetic::div_mod::lemma_small_mod(0, n as nat);
    }
}

/// What was typed is written: the property is read back from the block, the
/// overlay lists the properties of the block as they are now, and its cursor
/// is on the one that was written.
pub proof fn law_a_written_edit_is_listed(old: App, new: App, p: PropsValue, e: EditValue)
    requires
        old.wf(),
        old.selected < count(old.blocks()),
        p.scope == PropertyScope::Block,
        edit_written(old, new, p, e),
        trim_of(e.key).len() > 0,
        trim_of(e.value).len() > 0,
    ensures
        ({
            let o = props_of(new.overlay)->0;
            &&& props_of(new.overlay) is Some
            &&& o.rows == block_properties(new)
            &&& property(block_properties(new), trim_of(e.key), false) == Some(trim_of(e.value))
            &&& 0 <= o.selected < o.rows.len()
            &&& o.rows[o.selected].1 == trim_of(e.value)
            &&& o.editing is None
        }),
{
    let key = trim_of(e.key);
    let value = trim_of(e.value);
    law_written_property_is_on_the_block(old, new, key, value);
    law_set_property_is_read(block_properties(old), key, value, false, key);
    law_the_first_with_a_key_has_it(block_properties(new), key, false);
}

/// A property that was deleted twice over is gone from the block and from the
/// list.
pub proof fn law_a_deleted_property_is_gone(old: App, new: App, p: PropsValue)
    requires
        old.wf(),
        old.selected < count(old.blocks()),
        p.scope == PropertyScope::Block,
        0 <= p.selected < p.rows.len(),
        selected_deleted(old, new, p),
    ensures
        props_of(new.overlay) is Some,
        props_of(new.overlay)->0.rows == block_properties(new),
        forall|j: int|
            0 <= j < block_properties(new).len() ==> !same_key(
                #[trigger] block_properties(new)[j].0,
                p.rows[p.selected].0,
                false,
            ),
{
    let key = p.rows[p.selected].0;
    law_written_property_is_on_the_block(old, new, key, Seq::empty());
    law_empty_value_deletes(block_properties(old), key, false);
}

/// The keys that make a page what it is are not listed, all others are, in
/// their order.
pub proof fn law_the_page_is_not_listed_as_its_property(props: Seq<(Seq<char>, Seq<char>)>)
    ensures
        forall|j: int|
            0 <= j < own_properties(props).len() ==> (#[trigger] own_properties(props)[j]).0
                != "page-slug"@ && own_properties(props)[j].0 != "page-kind"@,
        (forall|j: int|
            0 <= j < props.len() ==> (#[trigger] props[j]).0 != "page-slug"@ && props[j].0
                != "page-kind"@) ==> own_properties(props) == props,
    decreases props.len(),
{
    if props.len() > 0 {
        let d = props.drop_last();
        law_the_page_is_not_listed_as_its_property(d);
        let r = own_properties(d);
        let o = own_properties(props);
        assert forall|j: int| 0 <= j < o.len() implies (#[trigger] o[j]).0 != "page-slug"@ && o[j].0
            != "page-kind"@ by {
            if j < r.len() {
                assert(o[j] == r[j]);
            }
        }
        if forall|j: int|
            0 <= j < props.len() ==> (#[trigger] props[j]).0 != "page-slug"@ && props[j].0
                != "page-kind"@ {
            assert forall|j: int| 0 <= j < d.len() implies (#[trigger] d[j]).0 != "page-slug"@
                && d[j].0 != "page-kind"@ by {
                assert(d[j] == props[j]);
            }
            assert(props[props.len() - 1].0 != "page-slug"@);
            assert(d.push(props.last()) =~= props);
        }
    }
}

/// The overlay opens on the row that is asked for, or on the last one.
pub proof fn law_the_overlay_opens_on_a_row(app: App, scope: PropertyScope, want: int)
    requires
        0 <= want,
    ensures
        opened(app, scope, want).scope == scope,
        opened(app, scope, want).rows.len() > 0 ==> 0 <= opened(app, scope, want).selected
            < opened(app, scope, want).rows.len(),
        want < opened(app, scope, want).rows.len() ==> opened(app, scope, want).selected == want,
        scope == PropertyScope::Block ==> opened(app, scope, want).rows == block_properties(app),
{
}

/// Editing a property begins with its value, under its key; a new one begins
/// with an empty key.
pub proof fn law_editing_begins_with_what_is_there(p: PropsValue)
    ensures
        0 <= p.selected < p.rows.len() ==> edit_begun(p).editing is Some
            && edit_begun(p).editing->0.value == p.rows[p.selected].1
            && edit_begun(p).editing->0.key == p.rows[p.selected].0
            && edit_begun(p).editing->0.original_key == Some(p.rows[p.selected].0)
            && edit_begun(p).editing->0.field == PropertyField::Value,
        p.selected >= p.rows.len() ==> edit_begun(p).editing == p.editing
            && edit_begun(p).message is Some,
        new_begun(p).editing is Some && new_begun(p).editing->0.key.len() == 0
            && new_begun(p).editing->0.value.len() == 0 && new_begun(p).editing->0.original_key
            is None && new_begun(p).editing->0.field == PropertyField::Key,
        edit_begun(p).rows == p.rows && new_begun(p).rows == p.rows,
        edit_begun(p).scope == p.scope && new_begun(p).scope == p.scope,
{
}

/// A key is taken without the blanks around it, unless nothing is left of it or
/// it defines the page; then the key is still to be typed, and the reason shown.
pub proof fn law_a_key_is_confirmed_or_refused(p: PropsValue, e: EditValue)
    requires
        p.editing == Some(e),
        e.field == PropertyField::Key,
    ensures
        trim_of(e.key).len() > 0 && !defines_page(trim_of(e.key)) ==> key_confirmed(p).editing
            == Some(EditValue { key: trim_of(e.key), field: PropertyField::Value, ..e })
            && key_confirmed(p).message is None,
        trim_of(e.key).len() == 0 || defines_page(trim_of(e.key)) ==> key_confirmed(p).editing
            == Some(e) && key_confirmed(p).message is Some,
        key_confirmed(p).rows == p.rows,
{
}

/// Pages and tags are offered for the end of a value, and nothing for a key.
pub proof fn law_values_are_completed(p: PropsValue)
    ensures
        match value_trigger(p) {
            Some((kind, query)) => {
                &&& p.editing is Some && p.editing->0.field == PropertyField::Value
                &&& kind == AutocompleteKind::PageRef || kind == AutocompleteKind::Tag
                &&& trigger_at(p.editing->0.value, p.editing->0.value.len() as int) == Some(
                    (kind, query),
                )
                &&& value_ask(p) == (EffectValue::Candidates { kind, query })
            },
            None => {
                &&& value_ask(p) == EffectValue::Nothing
                &&& p.editing is Some && p.editing->0.field == PropertyField::Value ==> match trigger_at(
                    p.editing->0.value,
                    p.editing->0.value.len() as int,
                ) {
                    Some((k, _)) => k != AutocompleteKind::PageRef && k != AutocompleteKind::Tag,
                    None => true,
                }
            },
        },
{
}

/// The candidate under the cursor is the one that is taken, and only the value
/// changes.
pub proof fn law_the_chosen_candidate_is_taken(p: PropsValue, a: PopupValue, e: EditValue)
    requires
        p.editing == Some(e),
        0 <= a.selected < a.candidates.len(),
    ensures
        choice_taken(p, a) == (PropsValue {
            editing: Some(
                EditValue {
                    value: completed_value(e.value, a.kind, a.query, a.candidates[a.selected]),
                    ..e
                },
            ),
            ..p
        }),
{
}

/// The properties of a block are opened from the outline, while no text is
/// edited; elsewhere it is said why not.
pub proof fn law_properties_need_a_block(old: App, new: App, asked: EffectValue)
    requires
        properties_asked(old, new, asked),
    ensures
        asked == EffectValue::Nothing <==> !(old.focus is Outline && old.mode is Normal),
        asked != EffectValue::Nothing ==> new == old && asked == (EffectValue::OpenProperties {
            scope: PropertyScope::Block,
        }),
        asked == EffectValue::Nothing ==> new.toasts@.len() == old.toasts@.len() + 1 && new.page
            == old.page,
{
    if asked == EffectValue::Nothing {
        assert(toasts_view(new.toasts@).len() == toasts_view(old.toasts@).len() + 1);
    }
}

} // verus!

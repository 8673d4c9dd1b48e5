//! Commands of the palette and of the command line.

use crate::actions::metadata::{property_written, same_but_page};
use crate::outline::pairs;
use crate::state::{App, PropertyScope};
use crate::text::{
    cat3, law_texts_are_split_where_they_were_joined, same_text, split_at_char, split_once,
    split_words, texts, trim, trim_of, words_of,
};
use vstd::prelude::*;

verus! {

/// The key and the value of a property command: the first word, and the rest
/// without the space around it.
pub open spec fn property_args(args: Seq<char>) -> (Seq<char>, Seq<char>) {
    match split_at_char(args, ' ') {
        Some((k, v)) => (k, trim_of(v)),
        None => (args, trim_of(Seq::empty())),
    }
}

/// The key and the value of a property command.
pub fn split_property_args(args: &str) -> (r: (String, String))
    ensures
        (r.0@, r.1@) == property_args(args@),
{
    match split_once(args, ' ') {
        Some((k, v)) => {
            let value = trim(v.as_str());
            (k, value)
        },
        None => {
            let nothing = String::new();
            let value = trim(nothing.as_str());
            (args.to_owned(), value)
        },
    }
}

/// `new` is `old` after a property command: a key that is refused is not
/// written, and the status line says why.
pub open spec fn property_command_ran(
    old: App,
    new: App,
    scope: PropertyScope,
    key: Seq<char>,
    value: Seq<char>,
    refused: Option<&str>,
) -> bool {
    match refused {
        Some(why) => new == (App { status: new.status, ..old }) && new.status@ == why@,
        None => same_but_page(old, new) && property_written(old, new, scope, key, value),
    }
}

/// Sets a property of the block under the cursor.
pub struct PropBlockCommand;

impl PropBlockCommand {
    pub fn name(&self) -> (r: &'static str)
        ensures
            r == "prop-block",
    {
        "prop-block"
    }

    pub fn description(&self) -> (r: &'static str)
        ensures
            r == "Set a property on the current block — `prop-block <key> <value>` (empty value deletes)",
    {
        "Set a property on the current block — `prop-block <key> <value>` (empty value deletes)"
    }

    pub fn needs_args(&self) -> (r: bool)
        ensures
            r,
    {
        true
    }

    /// The other name of the command: a property is a block's unless it is
    /// said otherwise.
    pub fn alias(&self) -> (r: &'static str)
        ensures
            r == "prop",
    {
        "prop"
    }

    /// Sets the property. `key` is the key in the form in which keys are
    /// stored, and `refused` says why it cannot be one.
    pub fn execute(&self, app: &mut App, key: &str, value: &str, refused: Option<&str>)
        requires
            old(app).wf(),
        ensures
            property_command_ran(
                *old(app),
                *final(app),
                PropertyScope::Block,
                key@,
                value@,
                refused,
            ),
            final(app).wf(),
    {
        match refused {
            Some(why) => {
                app.status = why.to_owned();
            },
            None => {
                app.set_property_on_current_block(key, value);
            },
        }
    }
}

/// Sets a property of the page.
pub struct PropPageCommand;

impl PropPageCommand {
    pub fn name(&self) -> (r: &'static str)
        ensures
            r == "prop-page",
    {
        "prop-page"
    }

    pub fn description(&self) -> (r: &'static str)
        ensures
            r == "Set a property on the page itself (`title::`, `icon::`, …) — `prop-page <key> <value>`",
    {
        "Set a property on the page itself (`title::`, `icon::`, …) — `prop-page <key> <value>`"
    }

    pub fn needs_args(&self) -> (r: bool)
        ensures
            r,
    {
        true
    }

    /// Sets the property. `key` is the key in the form in which keys are
    /// stored, and `refused` says why it cannot be one.
    pub fn execute(&self, app: &mut App, key: &str, value: &str, refused: Option<&str>)
        requires
            old(app).wf(),
        ensures
            property_command_ran(
                *old(app),
                *final(app),
                PropertyScope::Page,
                key@,
                value@,
                refused,
            ),
            final(app).wf(),
    {
        match refused {
            Some(why) => {
                app.status = why.to_owned();
            },
            None => {
                app.set_property_on_page(key, value);
            },
        }
    }
}

/// Pins the page, or takes the pin away.
pub struct PinCommand;

impl PinCommand {
    pub fn name(&self) -> (r: &'static str)
        ensures
            r == "pin",
    {
        "pin"
    }

    pub fn description(&self) -> (r: &'static str)
        ensures
            r == "Toggle pinned:: on the current page (shows in sidebar Pinned)",
    {
        "Toggle pinned:: on the current page (shows in sidebar Pinned)"
    }

    pub fn needs_args(&self) -> (r: bool)
        ensures
            !r,
    {
        false
    }

    /// The other name of the command.
    pub fn alias(&self) -> (r: &'static str)
        ensures
            r == "pinned",
    {
        "pinned"
    }

    /// Pins the page, or takes the pin away.
    pub fn execute(&self, app: &mut App)
        requires
            old(app).wf(),
        ensures
            crate::actions::metadata::pin_toggled_in(*old(app), *final(app)),
            final(app).wf(),
    {
        app.toggle_pinned();
    }
}

/// Uses a template.
pub struct TemplateCommand;

/// What the template command does.
#[derive(Debug)]
pub enum TemplateStep {
    /// Lists the templates.
    Pick,
    /// There is no such template.
    NotFound,
    /// Runs the template's code with parameters.
    Call { name: String, params: Vec<(String, String)> },
    /// Puts the template's blocks below the block under the cursor.
    Instantiate { name: String },
}

/// A parameter: a word with a `=` behind its name.
pub open spec fn parameter(word: Seq<char>) -> Option<(Seq<char>, Seq<char>)> {
    match split_at_char(word, '=') {
        Some((k, v)) => if trim_of(k).len() == 0 {
            None
        } else {
            Some((trim_of(k), trim_of(v)))
        },
        None => None,
    }
}

/// The parameters among words.
pub open spec fn parameters(words: Seq<Seq<char>>) -> Seq<(Seq<char>, Seq<char>)>
    decreases words.len(),
{
    if words.len() == 0 {
        Seq::empty()
    } else {
        let r = parameters(words.drop_last());
        match parameter(words.last()) {
            Some(p) => r.push(p),
            None => r,
        }
    }
}

/// The parameters of a command line, `name=value` each.
pub fn parse_kv(s: &str) -> (r: Vec<(String, String)>)
    ensures
        pairs(r@) == parameters(words_of(s@)),
{
    let words = split_words(s);
    let ghost ws = texts(words@);
    let mut r: Vec<(String, String)> = Vec::new();
    let mut i: usize = 0;
    assert(pairs(r@) =~= Seq::empty());
    while i < words.len()
        invariant
            i <= words@.len(),
            ws == texts(words@),
            pairs(r@) == parameters(ws.take(i as int)),
        decreases words@.len() - i,
    {
        assert(ws.take(i + 1).drop_last() =~= ws.take(i as int));
        assert(ws.take(i + 1).last() == words@[i as int]@);
        if let Some((k, v)) = split_once(words[i].as_str(), '=') {
            let key = trim(k.as_str());
            if !key.as_str().is_empty() {
                let p = (key, trim(v.as_str()));
                let ghost was = r@;
                r.push(p);
                assert(pairs(r@) =~= pairs(was).push(crate::outline::pair(p)));
            }
        }
        i += 1;
    }
    assert(ws.take(i as int) =~= ws);
    r
}

/// The name of the template and its parameters.
pub open spec fn template_args(args: Seq<char>) -> (Seq<char>, Seq<(Seq<char>, Seq<char>)>) {
    match split_at_char(args, ' ') {
        Some((n, rest)) => (trim_of(n), parameters(words_of(rest))),
        None => (args, Seq::empty()),
    }
}

/// The name of the template that a command line is for, if it names one.
pub open spec fn template_named(args: Seq<char>) -> Option<Seq<char>> {
    let a = trim_of(args);
    if a.len() == 0 {
        None
    } else {
        Some(template_args(a).0)
    }
}

impl TemplateCommand {
    pub fn name(&self) -> (r: &'static str)
        ensures
            r == "template",
    {
        "template"
    }

    pub fn description(&self) -> (r: &'static str)
        ensures
            r == "Pick a template, or `template <name> key=value …`",
    {
        "Pick a template, or `template <name> key=value …`"
    }

    pub fn needs_args(&self) -> (r: bool)
        ensures
            !r,
    {
        false
    }

    /// The other name of the command.
    pub fn alias(&self) -> (r: &'static str)
        ensures
            r == "tpl",
    {
        "tpl"
    }

    /// The name of the template that a command line is for, if it names one.
    pub fn template_name(&self, args: &str) -> (r: Option<String>)
        ensures
            crate::text::opt_text(r) == template_named(args@),
    {
        let a = trim(args);
        if a.as_str().is_empty() {
            return None;
        }
        match split_once(a.as_str(), ' ') {
            Some((n, _)) => Some(trim(n.as_str())),
            None => Some(a),
        }
    }

    /// What a command line does. `templates` are the names of the templates;
    /// `callable` says that the named one holds code that can be run: it is
    /// then run, whether it declares parameters or not.
    pub fn execute(&self, app: &mut App, args: &str, templates: &Vec<String>, callable: bool) -> (r:
        TemplateStep)
        ensures
            match template_named(args@) {
                None => *final(app) == *old(app) && r is Pick,
                Some(name) => if !texts(templates@).contains(name) {
                    &&& *final(app) == (App { status: final(app).status, ..*old(app) })
                    &&& final(app).status@ == "template `"@ + name + "` not found"@
                    &&& r is NotFound
                } else {
                    &&& *final(app) == *old(app)
                    &&& if callable {
                        &&& r matches TemplateStep::Call { name: n, params }
                        &&& n@ == name
                        &&& pairs(params@) == template_args(trim_of(args@)).1
                    } else {
                        r matches TemplateStep::Instantiate { name: n } && n@ == name
                    }
                },
            },
    {
        let a = trim(args);
        if a.as_str().is_empty() {
            return TemplateStep::Pick;
        }
        let (name, params) = match split_once(a.as_str(), ' ') {
            Some((n, rest)) => (trim(n.as_str()), parse_kv(rest.as_str())),
            None => {
                let none: Vec<(String, String)> = Vec::new();
                assert(pairs(none@) =~= Seq::empty());
                (a.clone(), none)
            },
        };
        let mut known = false;
        let mut i: usize = 0;
        while i < templates.len()
            invariant
                i <= templates@.len(),
                known == exists|j: int| 0 <= j < i && #[trigger] texts(templates@)[j] == name@,
            decreases templates@.len() - i,
        {
            assert(texts(templates@)[i as int] == templates@[i as int]@);
            if same_text(templates[i].as_str(), name.as_str()) {
                known = true;
            }
            i += 1;
        }
        assert(known == texts(templates@).contains(name@));
        if !known {
            app.status = cat3("template `", name.as_str(), "` not found");
            return TemplateStep::NotFound;
        }
        if callable {
            TemplateStep::Call { name, params }
        } else {
            TemplateStep::Instantiate { name }
        }
    }
}

// ---------------------------------------------------------------------
// Laws
// ---------------------------------------------------------------------

/// The key of a property ends at the first space, and the value is what
/// follows, without the whitespace around it.
pub proof fn law_the_key_comes_first(key: Seq<char>, value: Seq<char>)
    requires
        !key.contains(' '),
    ensures
        property_args(key + seq![' '] + value).0 == key,
        property_args(key + seq![' '] + value).1 == trim_of(value),
        property_args(key).0 == key,
        property_args(key).1.len() == 0,
{
    law_texts_are_split_where_they_were_joined(key, ' ', value);
}

/// The name of a template ends at the first space; what follows are its
/// parameters.
pub proof fn law_the_template_comes_first(name: Seq<char>, rest: Seq<char>)
    requires
        !name.contains(' '),
    ensures
        template_args(name + seq![' '] + rest).0 == trim_of(name),
        template_args(name + seq![' '] + rest).1 == parameters(words_of(rest)),
        template_args(name).0 == name,
        template_args(name).1.len() == 0,
{
    law_texts_are_split_where_they_were_joined(name, ' ', rest);
}

/// A parameter is a key, a sign and a value, which may hold the sign again; a
/// word without a key is none.
pub proof fn law_parameters_have_a_key(key: Seq<char>, value: Seq<char>)
    requires
        !key.contains('='),
    ensures
        trim_of(key).len() > 0 ==> parameter(key + seq!['='] + value) == Some(
            (trim_of(key), trim_of(value)),
        ),
        trim_of(key).len() == 0 ==> parameter(key + seq!['='] + value) is None,
        parameter(key) is None,
{
    law_texts_are_split_where_they_were_joined(key, '=', value);
}

/// Parameters come in the order of the words, and words that are none are
/// passed over.
pub proof fn law_parameters_come_in_order(a: Seq<Seq<char>>, b: Seq<Seq<char>>)
    ensures
        parameters(a + b) == parameters(a) + parameters(b),
        forall|w: Seq<char>|
            #[trigger] parameters(seq![w]) == (match parameter(w) {
                Some(p) => seq![p],
                None => Seq::empty(),
            }),
    decreases b.len(),
{
    assert forall|w: Seq<char>|
        #[trigger] parameters(seq![w]) == (match parameter(w) {
            Some(p) => seq![p],
            None => Seq::empty(),
        }) by {
        assert(seq![w].drop_last() =~= Seq::<Seq<char>>::empty());
        assert(parameters(Seq::<Seq<char>>::empty()) =~= Seq::empty());
        assert(seq![w].last() == w);
        if parameter(w) is Some {
            assert(parameters(seq![w]) =~= seq![parameter(w)->0]);
        }
    }
    if b.len() == 0 {
        assert(a + b =~= a);
        assert(parameters(a) + parameters(b) =~= parameters(a));
    } else {
        law_parameters_come_in_order(a, b.drop_last());
        assert((a + b).drop_last() =~= a + b.drop_last());
        assert((a + b).last() == b.last());
        assert(parameters(a + b) =~= parameters(a) + parameters(b));
    }
}

/// A template is named by the first word, and none by blanks.
pub proof fn law_a_template_is_named(args: Seq<char>, name: Seq<char>, rest: Seq<char>)
    ensures
        trim_of(args).len() == 0 ==> template_named(args) is None,
        trim_of(args) == name + seq![' '] + rest && !name.contains(' ') ==> template_named(args)
            == Some(trim_of(name)),
        trim_of(args) == name && name.len() > 0 && !name.contains(' ') ==> template_named(args)
            == Some(name),
{
    if !name.contains(' ') {
        law_the_template_comes_first(name, rest);
    }
}

/// A property that is refused is not written, and it is said why.
pub proof fn law_refused_properties_are_not_written(
    old: App,
    new: App,
    scope: PropertyScope,
    key: Seq<char>,
    value: Seq<char>,
    why: &str,
)
    requires
        property_command_ran(old, new, scope, key, value, Some(why)),
    ensures
        new.page == old.page,
        new.undo == old.undo,
        new.status@ == why@,
{
}

} // verus!

//! Running code blocks and opening links.

use crate::actions::completion::edit_of;
use crate::outline::{
    count, lemma_count_mono, lemma_count_take, node_view, nodes_view, pair, pairs, preorder,
    preorder_all, NodeView, OutlineNode,
};
use crate::state::{App, ErrorState, Mode, Overlay};
use crate::text::{
    ascii_lower_all, cat, cat3, cat4, cat5, decimal, law_texts_are_split_where_they_were_joined,
    numeral, opt_text, same_text, split_at_char, split_once, texts, to_ascii_lowercase,
};
use vstd::prelude::*;

verus! {

// ---------------------------------------------------------------------
// Links
// ---------------------------------------------------------------------

/// A link that may be opened outside: of the web, or a mail address.
pub open spec fn is_safe_url(url: Seq<char>) -> bool {
    match split_at_char(url, ':') {
        Some((scheme, _)) => {
            let s = ascii_lower_all(scheme);
            s == "http"@ || s == "https"@ || s == "mailto"@
        },
        None => false,
    }
}

/// Whether a link may be opened outside.
pub fn is_safe_external_url(url: &str) -> (r: bool)
    ensures
        r == is_safe_url(url@),
{
    match split_once(url, ':') {
        Some((scheme, _)) => {
            let s = to_ascii_lowercase(scheme.as_str());
            same_text(s.as_str(), "http") || same_text(s.as_str(), "https") || same_text(
                s.as_str(),
                "mailto",
            )
        },
        None => false,
    }
}

/// What `g x` does.
#[derive(Debug)]
pub enum GxAction {
    /// Runs the code block.
    Run,
    /// Opens the link under the cursor.
    OpenLink(String),
    Nothing,
}

/// What `g x` does on a block: code is run, whatever links it holds; else the
/// link under the cursor is opened.
pub fn decide_gx(is_code: bool, link: Option<String>) -> (r: GxAction)
    ensures
        r == (if is_code {
            GxAction::Run
        } else {
            match link {
                Some(url) => GxAction::OpenLink(url),
                None => GxAction::Nothing,
            }
        }),
{
    if is_code {
        GxAction::Run
    } else {
        match link {
            Some(url) => GxAction::OpenLink(url),
            None => GxAction::Nothing,
        }
    }
}

/// How a link is opened.
#[derive(Clone, Copy, PartialEq, Eq, Structural, Debug)]
pub enum LinkStep {
    /// As a file of the workspace.
    Asset,
    /// Outside.
    Web,
    /// Not at all.
    Refused,
}

/// What came of looking for a file of the workspace.
#[derive(Debug)]
pub enum AssetResult {
    Found(String),
    Missing,
    Refused(String),
}

/// How running a code block went.
#[derive(Debug)]
pub enum RunReport {
    Ran { language: String, millis: usize },
    Failed { language: String, error: String },
    NotRun { error: String },
}

/// `new` is `old` with an error shown over it.
pub open spec fn error_shown(old: App, new: App, title: Seq<char>, body: Seq<char>) -> bool {
    &&& new == (App { overlay: new.overlay, ..old })
    &&& new.overlay matches Some(Overlay::Error(e)) && e.title@ == title && e.body@ == body
}

impl App {
    /// Shows an error until a key is pressed.
    pub fn show_error(&mut self, title: &str, body: &str)
        ensures
            error_shown(*old(self), *final(self), title@, body@),
    {
        self.overlay =
        Some(Overlay::Error(ErrorState { title: title.to_owned(), body: body.to_owned() }));
    }

    /// `g x` on the block under the cursor. `auto_runs` says that the block's
    /// code runs by itself.
    pub fn run_current_block(&mut self, is_code: bool, link: Option<String>, auto_runs: bool) -> (r:
        GxAction)
        ensures
            *final(self) == (App { status: final(self).status, ..*old(self) }),
            if is_code {
                if auto_runs {
                    &&& r is Nothing
                    &&& final(self).status@
                        == "query blocks auto-run — no manual execution needed"@
                } else {
                    &&& r is Run
                    &&& final(self).status == old(self).status
                }
            } else {
                match link {
                    Some(url) => {
                        &&& r == GxAction::OpenLink(url)
                        &&& final(self).status == old(self).status
                    },
                    None => {
                        &&& r is Nothing
                        &&& final(self).status@ == "no code block or link under cursor"@
                    },
                }
            },
    {
        match decide_gx(is_code, link) {
            GxAction::OpenLink(url) => GxAction::OpenLink(url),
            GxAction::Nothing => {
                self.status = "no code block or link under cursor".to_owned();
                GxAction::Nothing
            },
            GxAction::Run => {
                if auto_runs {
                    self.status =
                    "query blocks auto-run — no manual execution needed".to_owned();
                    GxAction::Nothing
                } else {
                    GxAction::Run
                }
            },
        }
    }

    /// How a link is opened: a file of the workspace as such, and anything
    /// else only if it is of the web or a mail address.
    pub fn open_external_url(&mut self, url: &str, is_asset: bool) -> (r: LinkStep)
        ensures
            *final(self) == (App { status: final(self).status, ..*old(self) }),
            r == (if is_asset {
                LinkStep::Asset
            } else if is_safe_url(url@) {
                LinkStep::Web
            } else {
                LinkStep::Refused
            }),
            if r == LinkStep::Refused {
                final(self).status@ == "refused to open non-web link: "@ + url@
            } else {
                final(self).status == old(self).status
            },
    {
        if is_asset {
            return LinkStep::Asset;
        }
        if !is_safe_external_url(url) {
            self.status = cat("refused to open non-web link: ", url);
            return LinkStep::Refused;
        }
        LinkStep::Web
    }

    /// Says how opening something outside went.
    pub fn link_opened(&mut self, what: &str, failure: Option<&str>)
        ensures
            match failure {
                Some(e) => {
                    &&& *final(self) == (App { overlay: final(self).overlay, ..*old(self) })
                    &&& final(self).overlay matches Some(Overlay::Error(x))
                    &&& x.title@ == "open failed"@
                    &&& x.body@ == e@
                },
                None => {
                    &&& *final(self) == (App { status: final(self).status, ..*old(self) })
                    &&& final(self).status@ == "opened "@ + what@
                },
            },
    {
        match failure {
            Some(e) => {
                self.show_error("open failed", e);
            },
            None => {
                self.status = cat("opened ", what);
            },
        }
    }

    /// What to open for a file of the workspace; where there is nothing, the
    /// status line says why.
    pub fn open_asset(&mut self, url: &str, found: &AssetResult) -> (path: Option<String>)
        ensures
            *final(self) == (App { status: final(self).status, ..*old(self) }),
            match *found {
                AssetResult::Found(p) => {
                    &&& opt_text(path) == Some(p@)
                    &&& final(self).status == old(self).status
                },
                AssetResult::Missing => {
                    &&& path is None
                    &&& final(self).status@ == "asset not found on this device yet: "@ + url@
                },
                AssetResult::Refused(e) => {
                    &&& path is None
                    &&& final(self).status@ == "refused to open asset: "@ + e@
                },
            },
    {
        match found {
            AssetResult::Found(p) => Some(p.clone()),
            AssetResult::Missing => {
                self.status = cat("asset not found on this device yet: ", url);
                None
            },
            AssetResult::Refused(e) => {
                self.status = cat("refused to open asset: ", e.as_str());
                None
            },
        }
    }
}

// ---------------------------------------------------------------------
// Blocks that run by themselves
// ---------------------------------------------------------------------

/// The block has a property that makes it run by itself.
pub open spec fn has_auto_run(props: Seq<(Seq<char>, Seq<char>)>) -> bool {
    exists|i: int| 0 <= i < props.len() && #[trigger] props[i].0 == "auto-run"@
}

/// The language of the block at a flat index is one of those that run by
/// themselves. `fences` holds the language of each code block.
pub open spec fn runs_by_language(
    fences: Seq<Option<String>>,
    langs: Seq<Seq<char>>,
    i: int,
) -> bool {
    0 <= i < fences.len() && match fences[i] {
        Some(l) => langs.contains(l@),
        None => false,
    }
}

/// The flat indices of the blocks that run by themselves, the first block
/// being number `start`.
pub open spec fn auto_run_targets(
    blocks: Seq<NodeView>,
    start: int,
    fences: Seq<Option<String>>,
    langs: Seq<Seq<char>>,
) -> Seq<int>
    decreases blocks.len(),
{
    if blocks.len() == 0 {
        Seq::empty()
    } else {
        let r = auto_run_targets(blocks.drop_last(), start, fences, langs);
        let i = start + blocks.len() - 1;
        if has_auto_run(blocks.last().properties) || runs_by_language(fences, langs, i) {
            r.push(i)
        } else {
            r
        }
    }
}

/// Flat indices as numbers.
pub open spec fn as_ints(v: Seq<usize>) -> Seq<int> {
    v.map_values(|i: usize| i as int)
}

/// A block is marked to run when its page opens.
pub fn marked_auto_run(v: &Vec<(String, String)>) -> (r: bool)
    ensures
        r == has_auto_run(pairs(v@)),
{
    let mut i: usize = 0;
    while i < v.len()
        invariant
            i <= v@.len(),
            forall|j: int| 0 <= j < i ==> #[trigger] pairs(v@)[j].0 != "auto-run"@,
        decreases v@.len() - i,
    {
        assert(pairs(v@)[i as int] == pair(v@[i as int]));
        if same_text(v[i].0.as_str(), "auto-run") {
            assert(pairs(v@)[i as int].0 == "auto-run"@);
            return true;
        }
        i += 1;
    }
    false
}

/// Whether the language of the block at a flat index makes it run by itself.
pub fn block_flat_is_auto_run_lang(
    fences: &Vec<Option<String>>,
    langs: &Vec<String>,
    i: usize,
) -> (r: bool)
    ensures
        r == runs_by_language(fences@, texts(langs@), i as int),
{
    if i >= fences.len() {
        return false;
    }
    match &fences[i] {
        Some(l) => {
            let mut k: usize = 0;
            while k < langs.len()
                invariant
                    k <= langs@.len(),
                    i < fences@.len(),
                    fences@[i as int] == Some(*l),
                    forall|j: int| 0 <= j < k ==> #[trigger] texts(langs@)[j] != l@,
                decreases langs@.len() - k,
            {
                assert(texts(langs@)[k as int] == langs@[k as int]@);
                if same_text(langs[k].as_str(), l.as_str()) {
                    return true;
                }
                k += 1;
            }
            assert(!texts(langs@).contains(l@)) by {
                if texts(langs@).contains(l@) {
                    let j = choose|j: int| 0 <= j < texts(langs@).len() && texts(langs@)[j] == l@;
                    assert(texts(langs@)[j] != l@);
                }
            }
            false
        },
        None => false,
    }
}

proof fn lemma_targets_split(
    a: Seq<NodeView>,
    b: Seq<NodeView>,
    start: int,
    fences: Seq<Option<String>>,
    langs: Seq<Seq<char>>,
)
    ensures
        auto_run_targets(a + b, start, fences, langs) == auto_run_targets(a, start, fences, langs)
            + auto_run_targets(b, start + a.len(), fences, langs),
    decreases b.len(),
{
    let x = auto_run_targets(a, start, fences, langs);
    if b.len() == 0 {
        assert(a + b =~= a);
        assert(x + Seq::<int>::empty() =~= x);
    } else {
        assert((a + b).drop_last() =~= a + b.drop_last());
        assert((a + b).last() == b.last());
        lemma_targets_split(a, b.drop_last(), start, fences, langs);
        let y = auto_run_targets(b.drop_last(), start + a.len(), fences, langs);
        let i = start + (a + b).len() - 1;
        assert((x + y).push(i) =~= x + y.push(i));
    }
}

fn collect_targets(
    blocks: &Vec<OutlineNode>,
    start: usize,
    fences: &Vec<Option<String>>,
    langs: &Vec<String>,
    out: &mut Vec<usize>,
) -> (next: usize)
    requires
        start + count(nodes_view(blocks@)) <= usize::MAX,
    ensures
        next == start + count(nodes_view(blocks@)),
        as_ints(final(out)@) == as_ints(old(out)@) + auto_run_targets(
            preorder_all(nodes_view(blocks@)),
            start as int,
            fences@,
            texts(langs@),
        ),
    decreases blocks,
{
    let ghost v = nodes_view(blocks@);
    let ghost l = texts(langs@);
    let ghost before = as_ints(out@);
    let mut at: usize = start;
    let mut i: usize = 0;
    assert(v.take(0) =~= Seq::empty());
    assert(before + Seq::<int>::empty() =~= before);
    while i < blocks.len()
        invariant
            i <= blocks.len(),
            v == nodes_view(blocks@),
            l == texts(langs@),
            start + count(v) <= usize::MAX,
            at == start + count(v.take(i as int)),
            as_ints(out@) == before + auto_run_targets(
                preorder_all(v.take(i as int)),
                start as int,
                fences@,
                l,
            ),
        decreases blocks.len() - i,
    {
        let b = &blocks[i];
        let ghost n = node_view(blocks@[i as int]);
        let ghost done = preorder_all(v.take(i as int));
        proof {
            lemma_count_take(v, i as int);
            lemma_count_mono(v, i + 1, i + 1);
            assert(v[i as int] == n);
            assert(v.take(i + 1).drop_last() =~= v.take(i as int));
            assert(v.take(i + 1).last() == n);
            assert(preorder_all(v.take(i + 1)) == done + preorder(n));
            lemma_targets_split(done, preorder(n), start as int, fences@, l);
            assert(preorder(n) =~= seq![n] + preorder_all(n.children));
            lemma_targets_split(seq![n], preorder_all(n.children), at as int, fences@, l);
            reveal_with_fuel(auto_run_targets, 2);
            assert(seq![n].drop_last() =~= Seq::empty());
        }
        let ghost o0 = out@;
        if marked_auto_run(&b.properties) || block_flat_is_auto_run_lang(fences, langs, at) {
            out.push(at);
            assert(as_ints(out@) =~= as_ints(o0).push(at as int));
        }
        assert(as_ints(out@) =~= as_ints(o0) + auto_run_targets(seq![n], at as int, fences@, l));
        at = collect_targets(&b.children, at + 1, fences, langs, out);
        i += 1;
        assert(as_ints(out@) =~= before + auto_run_targets(
            preorder_all(v.take(i as int)),
            start as int,
            fences@,
            l,
        ));
    }
    assert(v.take(i as int) =~= v);
    at
}

/// The flat indices of the blocks that run by themselves.
pub fn collect_auto_run_targets(
    blocks: &Vec<OutlineNode>,
    fences: &Vec<Option<String>>,
    langs: &Vec<String>,
) -> (out: Vec<usize>)
    requires
        count(nodes_view(blocks@)) <= usize::MAX,
    ensures
        as_ints(out@) == auto_run_targets(
            preorder_all(nodes_view(blocks@)),
            0,
            fences@,
            texts(langs@),
        ),
{
    let mut out: Vec<usize> = Vec::new();
    let ghost o0 = out@;
    let _ = collect_targets(blocks, 0, fences, langs, &mut out);
    assert(as_ints(o0) =~= Seq::empty());
    assert(as_ints(out@) =~= auto_run_targets(
        preorder_all(nodes_view(blocks@)),
        0,
        fences@,
        texts(langs@),
    ));
    out
}

/// A runtime for code blocks.
#[derive(Debug)]
pub struct Runtime {
    pub language: String,
    pub auto_run: bool,
}

/// The languages whose code runs by itself.
pub open spec fn auto_languages(v: Seq<Runtime>) -> Seq<Seq<char>>
    decreases v.len(),
{
    if v.len() == 0 {
        Seq::empty()
    } else {
        let r = auto_languages(v.drop_last());
        if v.last().auto_run {
            r.push(v.last().language@)
        } else {
            r
        }
    }
}

/// The languages whose code runs by itself.
pub fn collect_auto_run_langs(runtimes: &Vec<Runtime>) -> (r: Vec<String>)
    ensures
        texts(r@) == auto_languages(runtimes@),
{
    let mut r: Vec<String> = Vec::new();
    let mut i: usize = 0;
    assert(texts(r@) =~= Seq::empty());
    while i < runtimes.len()
        invariant
            i <= runtimes@.len(),
            texts(r@) == auto_languages(runtimes@.take(i as int)),
        decreases runtimes@.len() - i,
    {
        assert(runtimes@.take(i + 1).drop_last() =~= runtimes@.take(i as int));
        if runtimes[i].auto_run {
            let ghost was = r@;
            r.push(runtimes[i].language.clone());
            assert(texts(r@) =~= texts(was).push(runtimes@[i as int].language@));
        }
        i += 1;
    }
    assert(runtimes@.take(i as int) =~= runtimes@);
    r
}

// ---------------------------------------------------------------------
// Reports
// ---------------------------------------------------------------------

impl App {
    /// Says how running a code block went: how long it took, what error it
    /// ended with, or why it could not be run.
    pub fn code_ran(&mut self, report: &RunReport)
        ensures
            match report {
                RunReport::Ran { language, millis } => {
                    &&& *final(self) == (App { status: final(self).status, ..*old(self) })
                    &&& final(self).status@ == "ran "@ + language@ + " in "@ + decimal(
                        *millis as nat,
                    ) + "ms"@
                },
                RunReport::Failed { language, error } => error_shown(
                    *old(self),
                    *final(self),
                    language@ + " runtime error"@,
                    error@,
                ),
                RunReport::NotRun { error } => error_shown(
                    *old(self),
                    *final(self),
                    "run failed"@,
                    error@,
                ),
            },
    {
        match report {
            RunReport::Ran { language, millis } => {
                let n = numeral(*millis);
                self.status = cat5("ran ", language.as_str(), " in ", n.as_str(), "ms");
            },
            RunReport::Failed { language, error } => {
                let title = cat(language.as_str(), " runtime error");
                self.show_error(title.as_str(), error.as_str());
            },
            RunReport::NotRun { error } => {
                self.show_error("run failed", error.as_str());
            },
        }
    }

    /// Says how running a `call:` block went.
    pub fn call_ran(&mut self, name: &str, millis: usize, failure: Option<&str>)
        ensures
            *final(self) == (App { status: final(self).status, ..*old(self) }),
            final(self).status@ == match failure {
                Some(e) => "call: "@ + e@,
                None => "ran call:"@ + name@ + " ("@ + decimal(millis as nat) + "ms)"@,
            },
    {
        match failure {
            Some(e) => {
                self.status = cat("call: ", e);
            },
            None => {
                let n = numeral(millis);
                self.status = cat5("ran call:", name, " (", n.as_str(), "ms)");
            },
        }
    }

    /// Says that a block that runs by itself could not.
    pub fn auto_run_skipped(&mut self, index: usize, why: &str)
        ensures
            *final(self) == (App { status: final(self).status, ..*old(self) }),
            final(self).status@ == "auto-run skipped block "@ + decimal(index as nat) + ": "@
                + why@,
    {
        let n = numeral(index);
        self.status = cat4("auto-run skipped block ", n.as_str(), ": ", why);
    }

    /// Says how many blocks ran by themselves; if any did, the page is to be
    /// read again first.
    pub fn auto_ran(&mut self, ran: usize)
        ensures
            *final(self) == (App { status: final(self).status, ..*old(self) }),
            if ran == 0 {
                final(self).status == old(self).status
            } else {
                final(self).status@ == "auto-ran "@ + decimal(ran as nat) + (if ran == 1 {
                    " block"@
                } else {
                    " blocks"@
                })
            },
    {
        if ran > 0 {
            let n = numeral(ran);
            self.status =
            cat3(
                "auto-ran ",
                n.as_str(),
                if ran == 1 {
                    " block"
                } else {
                    " blocks"
                },
            );
        }
    }

    /// Whether putting the edited text into the page marks the page as
    /// changed: it is a block of the page, and its text is another than
    /// `original`.
    pub fn commit_saves(&self, on_page: bool, original: &str) -> (r: bool)
        ensures
            r == (on_page && match edit_of(self.mode) {
                Some(e) => e.chars != original@,
                None => false,
            }),
    {
        match &self.mode {
            Mode::Insert { buffer, .. } => {
                let text = buffer.as_string();
                on_page && !same_text(text.as_str(), original)
            },
            _ => false,
        }
    }

    /// Whether a template can be put below the block under the cursor; the
    /// status line says what is missing if it cannot.
    pub fn template_target(&mut self, page_known: bool, block_known: bool) -> (r: bool)
        requires
            old(self).wf(),
        ensures
            *final(self) == (App { status: final(self).status, ..*old(self) }),
            r == (old(self).selected < count(old(self).blocks()) && page_known && block_known),
            if r {
                final(self).status == old(self).status
            } else {
                final(self).status@ == if old(self).selected >= count(old(self).blocks()) {
                    "template: no selected block"@
                } else if !page_known {
                    "template: current page not in workspace"@
                } else {
                    "template: could not resolve selected block"@
                }
            },
    {
        if self.selected >= crate::outline::flat_count(&self.page.blocks) {
            self.status = "template: no selected block".to_owned();
            false
        } else if !page_known {
            self.status = "template: current page not in workspace".to_owned();
            false
        } else if !block_known {
            self.status = "template: could not resolve selected block".to_owned();
            false
        } else {
            true
        }
    }

    /// Says how many blocks a template brought, or why it brought none.
    pub fn template_instantiated(
        &mut self,
        name: &str,
        blocks: usize,
        warning: Option<&str>,
        failure: Option<&str>,
    )
        ensures
            match failure {
                Some(e) => {
                    &&& *final(self) == (App { status: final(self).status, ..*old(self) })
                    &&& final(self).status@ == "template failed: "@ + e@
                },
                None => {
                    &&& *final(self) == (App {
                        status: final(self).status,
                        pending_chord: None,
                        ..*old(self)
                    })
                    &&& final(self).status@ == "instantiated template `"@ + name@ + "` ("@ + decimal(
                        blocks as nat,
                    ) + (if blocks == 1 {
                        " block)"@
                    } else {
                        " blocks)"@
                    }) + (match warning {
                        Some(w) => ", but "@ + w@,
                        None => Seq::empty(),
                    })
                },
            },
    {
        match failure {
            Some(e) => {
                self.status = cat("template failed: ", e);
            },
            None => {
                self.pending_chord = None;
                let n = numeral(blocks);
                let head = cat4("instantiated template `", name, "` (", n.as_str());
                let tail = match warning {
                    Some(w) => cat(", but ", w),
                    None => String::new(),
                };
                self.status =
                cat3(
                    head.as_str(),
                    if blocks == 1 {
                        " block)"
                    } else {
                        " blocks)"
                    },
                    tail.as_str(),
                );
            },
        }
    }

    /// Says how running a template went.
    pub fn template_ran(&mut self, name: &str, millis: usize, failure: Option<&str>)
        ensures
            *final(self) == (App { status: final(self).status, ..*old(self) }),
            final(self).status@ == match failure {
                Some(e) => "template: "@ + e@,
                None => "ran template `"@ + name@ + "` ("@ + decimal(millis as nat) + "ms)"@,
            },
    {
        match failure {
            Some(e) => {
                self.status = cat("template: ", e);
            },
            None => {
                let n = numeral(millis);
                self.status = cat5("ran template `", name, "` (", n.as_str(), "ms)");
            },
        }
    }
}

// ---------------------------------------------------------------------
// Laws
// ---------------------------------------------------------------------

/// A link is opened outside if what stands before its first colon is a scheme
/// of the web or of mail, in either case of letters, and never without a colon.
pub proof fn law_only_web_and_mail_links_open(scheme: Seq<char>, rest: Seq<char>)
    requires
        !scheme.contains(':'),
    ensures
        is_safe_url(scheme + seq![':'] + rest) <==> (ascii_lower_all(scheme) == "http"@
            || ascii_lower_all(scheme) == "https"@ || ascii_lower_all(scheme) == "mailto"@),
        !is_safe_url(scheme),
{
    law_texts_are_split_where_they_were_joined(scheme, ':', rest);
}

/// The block at a flat index carries the mark, or is code in one of the
/// languages.
pub open spec fn is_due(
    b: NodeView,
    i: int,
    fences: Seq<Option<String>>,
    langs: Seq<Seq<char>>,
) -> bool {
    ||| exists|k: int| 0 <= k < b.properties.len() && #[trigger] b.properties[k].0 == "auto-run"@
    ||| 0 <= i < fences.len() && fences[i] is Some && langs.contains(fences[i]->0@)
}

/// The blocks that run by themselves are those marked so and those in one of
/// the languages, each once, in display order.
pub proof fn law_what_runs_by_itself(
    blocks: Seq<NodeView>,
    start: int,
    fences: Seq<Option<String>>,
    langs: Seq<Seq<char>>,
)
    ensures
        forall|i: int|
            #[trigger] auto_run_targets(blocks, start, fences, langs).contains(i) <==> start <= i
                < start + blocks.len() && is_due(blocks[i - start], i, fences, langs),
        forall|a: int, b: int|
            0 <= a < b < auto_run_targets(blocks, start, fences, langs).len()
                ==> #[trigger] auto_run_targets(blocks, start, fences, langs)[a]
                < #[trigger] auto_run_targets(blocks, start, fences, langs)[b],
    decreases blocks.len(),
{
    let t = auto_run_targets(blocks, start, fences, langs);
    if blocks.len() > 0 {
        let d = blocks.drop_last();
        law_what_runs_by_itself(d, start, fences, langs);
        let r = auto_run_targets(d, start, fences, langs);
        let n = start + blocks.len() - 1;
        assert(blocks.last() == blocks[n - start]);
        assert forall|i: int| #[trigger] t.contains(i) <==> start <= i < start + blocks.len()
            && is_due(blocks[i - start], i, fences, langs) by {
            if start <= i < n {
                assert(d[i - start] == blocks[i - start]);
            }
            if r.contains(i) {
                let k = choose|k: int| 0 <= k < r.len() && r[k] == i;
                assert(t[k] == i);
            }
            if t.contains(i) {
                let k = choose|k: int| 0 <= k < t.len() && t[k] == i;
                if k < r.len() {
                    assert(r[k] == i);
                    assert(r.contains(i));
                }
            }
            if i == n && t.len() > r.len() {
                assert(t[r.len() as int] == n);
            }
        }
        assert forall|a: int, b: int| 0 <= a < b < t.len() implies #[trigger] t[a]
            < #[trigger] t[b] by {
            assert(t[a] == r[a]);
            assert(r.contains(r[a]));
            if b < r.len() {
                assert(t[b] == r[b]);
            }
        }
    }
}

/// The languages that run by themselves are those of the runtimes that say so.
pub proof fn law_languages_run_where_runtimes_say_so(v: Seq<Runtime>, lang: Seq<char>)
    ensures
        auto_languages(v).contains(lang) <==> exists|i: int|
            0 <= i < v.len() && (#[trigger] v[i]).auto_run && v[i].language@ == lang,
    decreases v.len(),
{
    if v.len() > 0 {
        let d = v.drop_last();
        let r = auto_languages(d);
        let t = auto_languages(v);
        law_languages_run_where_runtimes_say_so(d, lang);
        assert(v[v.len() - 1] == v.last());
        if r.contains(lang) {
            let k = choose|k: int| 0 <= k < r.len() && r[k] == lang;
            assert(t[k] == lang);
            let i = choose|i: int|
                0 <= i < d.len() && (#[trigger] d[i]).auto_run && d[i].language@ == lang;
            assert(v[i] == d[i]);
        } else {
            if t.contains(lang) {
                let k = choose|k: int| 0 <= k < t.len() && t[k] == lang;
                if k < r.len() {
                    assert(r[k] == lang);
                }
            }
            if exists|i: int| 0 <= i < v.len() && (#[trigger] v[i]).auto_run && v[i].language@
                == lang {
                let i = choose|i: int|
                    0 <= i < v.len() && (#[trigger] v[i]).auto_run && v[i].language@ == lang;
                if i < d.len() {
                    assert(d[i] == v[i]);
                } else {
                    assert(t[r.len() as int] == lang);
                }
            }
        }
    }
}

} // verus!

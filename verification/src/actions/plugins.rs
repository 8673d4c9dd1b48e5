//! What the editor does for plugins: code blocks they transform, commands
//! they contribute, and the overlay with their settings.

use crate::effect::{Effect, EffectValue};
use crate::outline::{
    count, node_view, nodes_view, preorder, preorder_all, NodeView,
    OutlineNode,
};
use crate::state::{
    toast_value, toasts_view, App, Mode, Overlay, PluginSettingsEntry, PluginSettingsState,
    SettingField, SettingKind, ToastKind, ToastValue,
};
use crate::text::{
    cat, cat4, decimal, drop_last_char, join_first, joined, law_a_line_comes_off, lines_of,
    matches_at, numeral, opt_text, same_text, shortened, split_lines, starts_with, texts, trim,
    trim_of, trim_start, trim_start_of, unlined,
};
use std::collections::HashMap;
use vstd::prelude::*;

verus! {

// ---------------------------------------------------------------------
// Code blocks
// ---------------------------------------------------------------------

/// A line that opens or closes a code block.
pub open spec fn is_fence(line: Seq<char>) -> bool {
    matches_at(trim_start_of(line), "```"@, 0)
}

/// The first fence at or after line `k`.
pub open spec fn next_fence(lines: Seq<Seq<char>>, k: int) -> Option<int>
    decreases lines.len() - k,
{
    if k >= lines.len() {
        None
    } else if is_fence(lines[k]) {
        Some(k)
    } else {
        next_fence(lines, k + 1)
    }
}

/// The language and the body of a text that is one closed code block with a
/// language, and nothing else.
pub open spec fn fenced(text: Seq<char>) -> Option<(Seq<char>, Seq<char>)> {
    let lines = lines_of(trim_of(text));
    if lines.len() == 0 || !is_fence(lines[0]) {
        None
    } else {
        let lang = trim_of(trim_start_of(lines[0]).skip(3));
        if lang.len() == 0 {
            None
        } else {
            match next_fence(lines, 1) {
                Some(k) if k == lines.len() - 1 => Some(
                    (lang, joined(lines.subrange(1, k), "\n"@)),
                ),
                _ => None,
            }
        }
    }
}

fn opens_fence(line: &str) -> (r: bool)
    ensures
        r == is_fence(line@),
{
    let t = trim_start(line);
    starts_with(t.as_str(), "```")
}

/// The language and the body of a text that is one closed code block with a
/// language, and nothing else.
pub fn fence_lang_and_body(text: &str) -> (r: Option<(String, String)>)
    ensures
        crate::text::opt_pair(r) == fenced(text@),
{
    let trimmed = trim(text);
    let lines = split_lines(trimmed.as_str());
    let ghost ls = texts(lines@);
    if lines.len() == 0 {
        return None;
    }
    assert(ls[0] == lines@[0]@);
    if !opens_fence(lines[0].as_str()) {
        return None;
    }
    let first = trim_start(lines[0].as_str());
    let v = crate::text::chars_of(first.as_str());
    proof {
        reveal_strlit("```");
    }
    let after = crate::text::string_range(&v, 3, v.len());
    assert(after@ =~= trim_start_of(ls[0]).skip(3));
    let lang = trim(after.as_str());
    if lang.as_str().is_empty() {
        return None;
    }
    let mut body: Vec<String> = Vec::new();
    let mut k: usize = 1;
    assert(texts(body@) =~= ls.subrange(1, 1));
    while k < lines.len() && !opens_fence(lines[k].as_str())
        invariant
            1 <= k <= lines.len(),
            ls == texts(lines@),
            texts(body@) == ls.subrange(1, k as int),
            next_fence(ls, 1) == next_fence(ls, k as int),
        decreases lines.len() - k,
    {
        let ghost was = body@;
        body.push(lines[k].clone());
        assert(ls[k as int] == lines@[k as int]@);
        assert(texts(body@) =~= texts(was).push(ls[k as int]));
        k += 1;
        assert(texts(body@) =~= ls.subrange(1, k as int));
    }
    if k == lines.len() {
        return None;
    }
    assert(ls[k as int] == lines@[k as int]@);
    if k + 1 != lines.len() {
        return None;
    }
    let joined_body = join_first(&body, body.len(), "\n");
    assert(texts(body@).take(body@.len() as int) =~= texts(body@));
    Some((lang, joined_body))
}

/// The last value that stands beside a key.
pub open spec fn last_with(v: Seq<(Seq<char>, Seq<char>)>, key: Seq<char>) -> Option<Seq<char>>
    decreases v.len(),
{
    if v.len() == 0 {
        None
    } else if v.last().0 == key {
        Some(v.last().1)
    } else {
        last_with(v.drop_last(), key)
    }
}

fn look_up(v: &Vec<(String, String)>, key: &str) -> (r: Option<String>)
    ensures
        opt_text(r) == last_with(crate::outline::pairs(v@), key@),
{
    let ghost p = crate::outline::pairs(v@);
    let mut i: usize = v.len();
    assert(p.take(i as int) =~= p);
    while i > 0
        invariant
            i <= v@.len(),
            p == crate::outline::pairs(v@),
            last_with(p, key@) == last_with(p.take(i as int), key@),
        decreases i,
    {
        i -= 1;
        assert(p.take(i + 1).drop_last() =~= p.take(i as int));
        assert(p.take(i + 1).last() == crate::outline::pair(v@[i as int]));
        if same_text(v[i].0.as_str(), key) {
            return Some(v[i].1.clone());
        }
    }
    None
}

/// The language under which a transformer is registered for a fence, and its
/// plugin: the fence's own language, or else the one that it is an alias of.
pub open spec fn transformer_for(
    lang: Seq<char>,
    langs: Seq<(Seq<char>, Seq<char>)>,
    aliases: Seq<(Seq<char>, Seq<char>)>,
) -> Option<(Seq<char>, Seq<char>)> {
    match last_with(langs, lang) {
        Some(p) => Some((lang, p)),
        None => match last_with(aliases, lang) {
            Some(canon) => match last_with(langs, canon) {
                Some(p) => Some((canon, p)),
                None => None,
            },
            None => None,
        },
    }
}

/// The transformer for the language of a fence: `langs` maps languages to
/// plugins, `aliases` maps other spellings to the language they stand for.
pub fn resolve_transformer(
    lang: &str,
    langs: &Vec<(String, String)>,
    aliases: &Vec<(String, String)>,
) -> (r: Option<(String, String)>)
    ensures
        crate::text::opt_pair(r) == transformer_for(
            lang@,
            crate::outline::pairs(langs@),
            crate::outline::pairs(aliases@),
        ),
{
    if let Some(p) = look_up(langs, lang) {
        return Some((lang.to_owned(), p));
    }
    match look_up(aliases, lang) {
        Some(canon) => match look_up(langs, canon.as_str()) {
            Some(p) => Some((canon, p)),
            None => None,
        },
        None => None,
    }
}

/// A code block that a plugin is to transform.
#[derive(Debug)]
pub struct TransformJob {
    pub block_id: u128,
    pub plugin_id: String,
    pub lang: String,
    pub body: String,
}

/// A job as a value.
pub ghost struct JobValue {
    pub block_id: u128,
    pub plugin_id: Seq<char>,
    pub lang: Seq<char>,
    pub body: Seq<char>,
}

impl View for TransformJob {
    type V = JobValue;

    open spec fn view(&self) -> JobValue {
        JobValue {
            block_id: self.block_id,
            plugin_id: self.plugin_id@,
            lang: self.lang@,
            body: self.body@,
        }
    }
}

/// Jobs as values.
pub open spec fn jobs_view(v: Seq<TransformJob>) -> Seq<JobValue> {
    v.map_values(|j: TransformJob| j@)
}

/// The job of a block: it has an identifier, and is a code block whose
/// language some plugin transforms.
pub open spec fn job_of(
    n: NodeView,
    id: Option<u128>,
    langs: Seq<(Seq<char>, Seq<char>)>,
    aliases: Seq<(Seq<char>, Seq<char>)>,
) -> Option<JobValue> {
    match (id, fenced(n.text)) {
        (Some(block_id), Some((raw, body))) => match transformer_for(raw, langs, aliases) {
            Some((lang, plugin_id)) => Some(JobValue { block_id, plugin_id, lang, body }),
            None => None,
        },
        _ => None,
    }
}

/// The identifier of the block at a flat index.
pub open spec fn id_at(ids: Seq<u128>, i: int) -> Option<u128> {
    if 0 <= i < ids.len() {
        Some(ids[i])
    } else {
        None
    }
}

/// The jobs of a page, from its blocks in the order in which they are
/// numbered, the first of them being number `start`.
pub open spec fn jobs_of(
    blocks: Seq<NodeView>,
    start: int,
    ids: Seq<u128>,
    langs: Seq<(Seq<char>, Seq<char>)>,
    aliases: Seq<(Seq<char>, Seq<char>)>,
) -> Seq<JobValue>
    decreases blocks.len(),
{
    if blocks.len() == 0 {
        Seq::empty()
    } else {
        let r = jobs_of(blocks.drop_last(), start, ids, langs, aliases);
        match job_of(
            blocks.last(),
            id_at(ids, start + blocks.len() - 1),
            langs,
            aliases,
        ) {
            Some(j) => r.push(j),
            None => r,
        }
    }
}

proof fn lemma_jobs_split(
    a: Seq<NodeView>,
    b: Seq<NodeView>,
    start: int,
    ids: Seq<u128>,
    langs: Seq<(Seq<char>, Seq<char>)>,
    aliases: Seq<(Seq<char>, Seq<char>)>,
)
    ensures
        jobs_of(a + b, start, ids, langs, aliases) == jobs_of(a, start, ids, langs, aliases)
            + jobs_of(b, start + a.len(), ids, langs, aliases),
    decreases b.len(),
{
    if b.len() == 0 {
        assert(a + b =~= a);
        assert(jobs_of(a, start, ids, langs, aliases) + Seq::<JobValue>::empty() =~= jobs_of(
            a,
            start,
            ids,
            langs,
            aliases,
        ));
    } else {
        assert((a + b).drop_last() =~= a + b.drop_last());
        assert((a + b).last() == b.last());
        lemma_jobs_split(a, b.drop_last(), start, ids, langs, aliases);
        let x = jobs_of(a, start, ids, langs, aliases);
        let y = jobs_of(b.drop_last(), start + a.len(), ids, langs, aliases);
        match job_of(
            b.last(),
            id_at(ids, start + (a + b).len() - 1),
            langs,
            aliases,
        ) {
            Some(j) => {
                assert((x + y).push(j) =~= x + y.push(j));
            },
            None => {},
        }
    }
}

fn collect_from(
    blocks: &Vec<OutlineNode>,
    start: usize,
    ids: &Vec<u128>,
    langs: &Vec<(String, String)>,
    aliases: &Vec<(String, String)>,
    jobs: &mut Vec<TransformJob>,
) -> (next: usize)
    requires
        start + count(nodes_view(blocks@)) <= usize::MAX,
    ensures
        next == start + count(nodes_view(blocks@)),
        jobs_view(final(jobs)@) == jobs_view(old(jobs)@) + jobs_of(
            preorder_all(nodes_view(blocks@)),
            start as int,
            ids@,
            crate::outline::pairs(langs@),
            crate::outline::pairs(aliases@),
        ),
    decreases blocks,
{
    let ghost v = nodes_view(blocks@);
    let ghost l = crate::outline::pairs(langs@);
    let ghost a = crate::outline::pairs(aliases@);
    let ghost before = jobs_view(jobs@);
    let mut at: usize = start;
    let mut i: usize = 0;
    assert(v.take(0) =~= Seq::empty());
    assert(before + Seq::<JobValue>::empty() =~= before);
    while i < blocks.len()
        invariant
            i <= blocks.len(),
            v == nodes_view(blocks@),
            l == crate::outline::pairs(langs@),
            a == crate::outline::pairs(aliases@),
            start + count(v) <= usize::MAX,
            at == start + count(v.take(i as int)),
            jobs_view(jobs@) == before + jobs_of(
                preorder_all(v.take(i as int)),
                start as int,
                ids@,
                l,
                a,
            ),
        decreases blocks.len() - i,
    {
        let b = &blocks[i];
        let ghost n = node_view(blocks@[i as int]);
        let ghost done = preorder_all(v.take(i as int));
        proof {
            crate::outline::lemma_count_take(v, i as int);
            crate::outline::lemma_count_mono(v, i + 1, i + 1);
            assert(v[i as int] == n);
            assert(v.take(i + 1).drop_last() =~= v.take(i as int));
            assert(v.take(i + 1).last() == n);
            assert(preorder_all(v.take(i + 1)) == done + preorder(n));
            lemma_jobs_split(done, preorder(n), start as int, ids@, l, a);
            assert(preorder(n) =~= seq![n] + preorder_all(n.children));
            lemma_jobs_split(seq![n], preorder_all(n.children), at as int, ids@, l, a);
            reveal_with_fuel(jobs_of, 2);
            assert(seq![n].drop_last() =~= Seq::empty());
        }
        let ghost j0 = jobs@;
        if at < ids.len() {
            if let Some((raw, body)) = fence_lang_and_body(b.text.as_str()) {
                if let Some((lang, plugin_id)) = resolve_transformer(raw.as_str(), langs, aliases) {
                    let job = TransformJob { block_id: ids[at], plugin_id, lang, body };
                    jobs.push(job);
                    assert(jobs_view(jobs@) =~= jobs_view(j0).push(job@));
                }
            }
        }
        assert(jobs_view(jobs@) =~= jobs_view(j0) + jobs_of(seq![n], at as int, ids@, l, a));
        let ghost j1 = jobs@;
        at = collect_from(&b.children, at + 1, ids, langs, aliases, jobs);
        i += 1;
        assert(jobs_view(jobs@) =~= before + jobs_of(
            preorder_all(v.take(i as int)),
            start as int,
            ids@,
            l,
            a,
        ));
    }
    assert(v.take(i as int) =~= v);
    at
}

/// The code blocks of a page that plugins transform.
pub fn collect_transform_jobs(
    blocks: &Vec<OutlineNode>,
    ids: &Vec<u128>,
    langs: &Vec<(String, String)>,
    aliases: &Vec<(String, String)>,
) -> (jobs: Vec<TransformJob>)
    requires
        count(nodes_view(blocks@)) <= usize::MAX,
    ensures
        jobs_view(jobs@) == jobs_of(
            preorder_all(nodes_view(blocks@)),
            0,
            ids@,
            crate::outline::pairs(langs@),
            crate::outline::pairs(aliases@),
        ),
{
    let mut jobs: Vec<TransformJob> = Vec::new();
    let ghost j0 = jobs@;
    let _ = collect_from(blocks, 0, ids, langs, aliases, &mut jobs);
    assert(jobs_view(j0) =~= Seq::empty());
    assert(jobs_view(jobs@) =~= jobs_of(
        preorder_all(nodes_view(blocks@)),
        0,
        ids@,
        crate::outline::pairs(langs@),
        crate::outline::pairs(aliases@),
    ));
    jobs
}

/// A transformer that a plugin registered.
#[derive(Debug)]
pub struct Transformer {
    pub lang: String,
    pub plugin_id: String,
    pub kind: String,
}

/// The languages of the transformers that give text, with their plugins.
pub open spec fn text_langs(v: Seq<Transformer>) -> Seq<(Seq<char>, Seq<char>)>
    decreases v.len(),
{
    if v.len() == 0 {
        Seq::empty()
    } else {
        let r = text_langs(v.drop_last());
        if v.last().kind@ == "text"@ {
            r.push((v.last().lang@, v.last().plugin_id@))
        } else {
            r
        }
    }
}

fn langs_of(v: &Vec<Transformer>) -> (r: Vec<(String, String)>)
    ensures
        crate::outline::pairs(r@) == text_langs(v@),
{
    let mut r: Vec<(String, String)> = Vec::new();
    let mut i: usize = 0;
    assert(crate::outline::pairs(r@) =~= Seq::empty());
    while i < v.len()
        invariant
            i <= v@.len(),
            crate::outline::pairs(r@) == text_langs(v@.take(i as int)),
        decreases v@.len() - i,
    {
        assert(v@.take(i + 1).drop_last() =~= v@.take(i as int));
        if same_text(v[i].kind.as_str(), "text") {
            let ghost was = r@;
            let p = (v[i].lang.clone(), v[i].plugin_id.clone());
            r.push(p);
            assert(crate::outline::pairs(r@) =~= crate::outline::pairs(was).push(
                crate::outline::pair(p),
            ));
        }
        i += 1;
    }
    assert(v@.take(i as int) =~= v@);
    r
}

/// What a plugin answered to a job.
#[derive(Debug)]
pub struct Transformed {
    pub block_id: u128,
    pub kind: String,
    pub content: String,
}

/// The answers that are text, by the block, the last one if there are
/// several.
pub open spec fn text_answers(v: Seq<Transformed>) -> Map<u128, Seq<char>>
    decreases v.len(),
{
    if v.len() == 0 {
        Map::empty()
    } else {
        let r = text_answers(v.drop_last());
        if v.last().kind@ == "text"@ {
            r.insert(v.last().block_id, v.last().content@)
        } else {
            r
        }
    }
}

/// The transformed blocks as values.
pub open spec fn cache_view(m: Map<u128, String>) -> Map<u128, Seq<char>> {
    m.map_values(|s: String| s@)
}

/// What a plugin made of a block.
pub open spec fn transformed(m: Map<u128, Seq<char>>, id: u128) -> Option<Seq<char>> {
    if m.contains_key(id) {
        Some(m[id])
    } else {
        None
    }
}

/// What a plugin made of a block.
pub fn transform_of(m: &HashMap<u128, String>, id: u128) -> (r: Option<String>)
    ensures
        opt_text(r) == transformed(cache_view(m@), id),
{
    match m.get(&id) {
        Some(s) => Some(s.clone()),
        None => None,
    }
}

// ---------------------------------------------------------------------
// Commands
// ---------------------------------------------------------------------

/// A command that a plugin contributes.
#[derive(Debug)]
pub struct PluginCommand {
    pub plugin_id: String,
    pub command_id: String,
}

/// The first command with an identifier.
pub open spec fn first_command(v: Seq<PluginCommand>, id: Seq<char>, k: int) -> Option<int>
    decreases v.len() - k,
{
    if k >= v.len() {
        None
    } else if v[k].command_id@ == id {
        Some(k)
    } else {
        first_command(v, id, k + 1)
    }
}

/// The plugin and the command that an identifier stands for: a command first,
/// else a button.
pub open spec fn command_for(
    commands: Seq<PluginCommand>,
    buttons: Seq<PluginCommand>,
    id: Seq<char>,
) -> Option<(Seq<char>, Seq<char>)> {
    match first_command(commands, id, 0) {
        Some(k) => Some((commands[k].plugin_id@, commands[k].command_id@)),
        None => match first_command(buttons, id, 0) {
            Some(k) => Some((buttons[k].plugin_id@, buttons[k].command_id@)),
            None => None,
        },
    }
}

fn find_command(v: &Vec<PluginCommand>, id: &str) -> (r: Option<usize>)
    ensures
        match r {
            Some(i) => i < v@.len() && first_command(v@, id@, 0) == Some(i as int),
            None => first_command(v@, id@, 0) is None,
        },
{
    let mut i: usize = 0;
    while i < v.len()
        invariant
            i <= v@.len(),
            first_command(v@, id@, 0) == first_command(v@, id@, i as int),
        decreases v@.len() - i,
    {
        if same_text(v[i].command_id.as_str(), id) {
            return Some(i);
        }
        i += 1;
    }
    None
}

/// The plugin and the command that an identifier of the menu stands for.
pub fn find_plugin_command(
    commands: &Vec<PluginCommand>,
    buttons: &Vec<PluginCommand>,
    id: &str,
) -> (r: Option<(String, String)>)
    ensures
        crate::text::opt_pair(r) == command_for(commands@, buttons@, id@),
{
    match find_command(commands, id) {
        Some(i) => Some((commands[i].plugin_id.clone(), commands[i].command_id.clone())),
        None => match find_command(buttons, id) {
            Some(i) => Some((buttons[i].plugin_id.clone(), buttons[i].command_id.clone())),
            None => None,
        },
    }
}

/// The toasts for what a plugin reported: its notes, then its errors.
pub open spec fn run_toasts(app: App, notes: Seq<Seq<char>>, errors: Seq<Seq<char>>) -> Seq<
    ToastValue,
> {
    notes.map_values(|n: Seq<char>| toast_value(app, ToastKind::Info, n)) + errors.map_values(
        |e: Seq<char>| toast_value(app, ToastKind::Error, "plugin: "@ + e),
    )
}

/// What a plugin can contribute here.
#[derive(Clone, Copy, PartialEq, Eq, Structural, Debug)]
pub enum Capability {
    SlashCommand,
    OpHook,
    Keybinding,
    ContentTransformerText,
    ToolbarButton,
}

/// What plugins can contribute to a terminal: everything but HTML.
pub fn client_capabilities() -> (r: Vec<Capability>)
    ensures
        r@ == seq![
            Capability::SlashCommand,
            Capability::OpHook,
            Capability::Keybinding,
            Capability::ContentTransformerText,
            Capability::ToolbarButton,
        ],
{
    vec![
        Capability::SlashCommand,
        Capability::OpHook,
        Capability::Keybinding,
        Capability::ContentTransformerText,
        Capability::ToolbarButton,
    ]
}

impl App {
    /// The code blocks of the page that plugins are to transform.
    pub fn transform_jobs(
        &self,
        transformers: &Vec<Transformer>,
        aliases: &Vec<(String, String)>,
    ) -> (jobs: Vec<TransformJob>)
        requires
            self.wf(),
        ensures
            jobs_view(jobs@) == jobs_of(
                preorder_all(self.blocks()),
                0,
                self.id_by_flat@,
                text_langs(transformers@),
                crate::outline::pairs(aliases@),
            ),
    {
        let langs = langs_of(transformers);
        collect_transform_jobs(&self.page.blocks, &self.id_by_flat, &langs, aliases)
    }

    /// Remembers what plugins made of the code blocks. Only text can be
    /// shown here.
    pub fn recompute_transforms(&mut self, answers: &Vec<Transformed>)
        ensures
            *final(self) == (App { transform_cache: final(self).transform_cache, ..*old(self) }),
            cache_view(final(self).transform_cache@) == text_answers(answers@),
    {
        let mut cache: HashMap<u128, String> = HashMap::new();
        let mut i: usize = 0;
        assert(cache_view(cache@) =~= text_answers(answers@.take(0)));
        while i < answers.len()
            invariant
                i <= answers@.len(),
                *self == *old(self),
                cache_view(cache@) == text_answers(answers@.take(i as int)),
            decreases answers@.len() - i,
        {
            assert(answers@.take(i + 1).drop_last() =~= answers@.take(i as int));
            if same_text(answers[i].kind.as_str(), "text") {
                let ghost was = cache@;
                let content = answers[i].content.clone();
                cache.insert(answers[i].block_id, content);
                assert(cache_view(cache@) =~= cache_view(was).insert(
                    answers@[i as int].block_id,
                    content@,
                ));
            }
            i += 1;
        }
        assert(answers@.take(i as int) =~= answers@);
        self.transform_cache = cache;
    }

    /// Reports how many plugins could not be loaded.
    pub fn plugins_loaded(&mut self, failed: usize)
        ensures
            *final(self) == (App { toasts: final(self).toasts, ..*old(self) }),
            toasts_view(final(self).toasts@) == if failed == 0 {
                toasts_view(old(self).toasts@)
            } else {
                toasts_view(old(self).toasts@).push(
                    toast_value(
                        *old(self),
                        ToastKind::Warning,
                        decimal(failed as nat) + " plugin(s) failed to load"@,
                    ),
                )
            },
    {
        if failed > 0 {
            let n = numeral(failed);
            let m = cat(n.as_str(), " plugin(s) failed to load");
            self.toast(ToastKind::Warning, m.as_str());
        }
    }

    /// Whether plugins may be told of edits now: while a block is being
    /// edited they are not, since what they change would be lost to it.
    pub fn hooks_allowed(&self) -> (r: bool)
        ensures
            r == !(self.mode is Insert),
    {
        match &self.mode {
            Mode::Insert { .. } => false,
            _ => true,
        }
    }

    /// Shows what a plugin reported.
    pub fn surface_plugin_run(&mut self, notes: &Vec<String>, errors: &Vec<String>)
        ensures
            *final(self) == (App { toasts: final(self).toasts, ..*old(self) }),
            toasts_view(final(self).toasts@) == toasts_view(old(self).toasts@) + run_toasts(
                *old(self),
                texts(notes@),
                texts(errors@),
            ),
    {
        let ghost t0 = toasts_view(self.toasts@);
        let ghost ns = texts(notes@).map_values(
            |n: Seq<char>| toast_value(*old(self), ToastKind::Info, n),
        );
        let ghost es = texts(errors@).map_values(
            |e: Seq<char>| toast_value(*old(self), ToastKind::Error, "plugin: "@ + e),
        );
        let mut i: usize = 0;
        assert(t0 + ns.take(0) =~= t0);
        while i < notes.len()
            invariant
                i <= notes@.len(),
                *self == (App { toasts: self.toasts, ..*old(self) }),
                ns == texts(notes@).map_values(
                    |n: Seq<char>| toast_value(*old(self), ToastKind::Info, n),
                ),
                toasts_view(self.toasts@) == t0 + ns.take(i as int),
            decreases notes@.len() - i,
        {
            assert(ns[i as int] == toast_value(*old(self), ToastKind::Info, notes@[i as int]@));
            self.toast(ToastKind::Info, notes[i].as_str());
            i += 1;
            assert(t0 + ns.take(i as int) =~= (t0 + ns.take(i - 1)).push(ns[i - 1]));
        }
        assert(ns.take(i as int) =~= ns);
        let mut k: usize = 0;
        assert(t0 + ns + es.take(0) =~= t0 + ns);
        while k < errors.len()
            invariant
                k <= errors@.len(),
                *self == (App { toasts: self.toasts, ..*old(self) }),
                es == texts(errors@).map_values(
                    |e: Seq<char>| toast_value(*old(self), ToastKind::Error, "plugin: "@ + e),
                ),
                toasts_view(self.toasts@) == t0 + ns + es.take(k as int),
            decreases errors@.len() - k,
        {
            let m = cat("plugin: ", errors[k].as_str());
            assert(es[k as int] == toast_value(
                *old(self),
                ToastKind::Error,
                "plugin: "@ + errors@[k as int]@,
            ));
            self.toast(ToastKind::Error, m.as_str());
            k += 1;
            assert(t0 + ns + es.take(k as int) =~= (t0 + ns + es.take(k - 1)).push(es[k - 1]));
        }
        assert(es.take(k as int) =~= es);
        assert(t0 + ns + es =~= t0 + (ns + es));
    }

    /// Shows what a plugin's command reported, or why it failed. The page has
    /// to be read again if the command changed the workspace.
    pub fn plugin_command_ran(
        &mut self,
        applied: usize,
        notes: &Vec<String>,
        errors: &Vec<String>,
        failure: Option<&str>,
    ) -> (reread: bool)
        ensures
            *final(self) == (App { toasts: final(self).toasts, ..*old(self) }),
            match failure {
                Some(e) => {
                    &&& !reread
                    &&& toasts_view(final(self).toasts@) == toasts_view(old(self).toasts@).push(
                        toast_value(
                            *old(self),
                            ToastKind::Error,
                            "plugin command failed: "@ + e@,
                        ),
                    )
                },
                None => {
                    &&& reread == (applied > 0)
                    &&& toasts_view(final(self).toasts@) == toasts_view(old(self).toasts@)
                        + run_toasts(*old(self), texts(notes@), texts(errors@))
                },
            },
    {
        match failure {
            Some(e) => {
                let m = cat("plugin command failed: ", e);
                self.toast(ToastKind::Error, m.as_str());
                false
            },
            None => {
                self.surface_plugin_run(notes, errors);
                applied > 0
            },
        }
    }
}

// ---------------------------------------------------------------------
// Settings
// ---------------------------------------------------------------------

/// The string that a JSON text holds, if it is the JSON of a string.
pub uninterp spec fn json_string(text: Seq<char>) -> Option<Seq<char>>;

/// `serde_json::from_str` into a `String`: the string that the text is the
/// JSON of, and nothing if it is the JSON of something else or of nothing.
#[verifier::external_body]
fn parse_json_string(text: &str) -> (r: Option<String>)
    ensures
        opt_text(r) == json_string(text@),
{
    serde_json::from_str::<String>(text).ok()
}

/// A setting's value as it is shown and typed: a string without its quotes,
/// anything else as its JSON.
pub open spec fn as_typed(json: Seq<char>) -> Seq<char> {
    match json_string(json) {
        Some(s) => s,
        None => json,
    }
}

/// A setting's value as it is shown and typed.
pub fn value_to_input(json: &str) -> (r: String)
    ensures
        r@ == as_typed(json@),
{
    match parse_json_string(json) {
        Some(s) => s,
        None => json.to_owned(),
    }
}

/// A setting as a value.
pub ghost struct FieldValue {
    pub key: Seq<char>,
    pub kind: SettingKind,
    pub secret: bool,
    pub is_set: bool,
    pub value: Option<Seq<char>>,
    pub default: Option<Seq<char>>,
}

impl View for SettingField {
    type V = FieldValue;

    open spec fn view(&self) -> FieldValue {
        FieldValue {
            key: self.key@,
            kind: self.kind,
            secret: self.secret,
            is_set: self.is_set,
            value: opt_text(self.value),
            default: opt_text(self.default),
        }
    }
}

/// Settings as values.
pub open spec fn fields_view(v: Seq<SettingField>) -> Seq<FieldValue> {
    v.map_values(|f: SettingField| f@)
}

/// The settings of a plugin as a value.
pub ghost struct EntryValue {
    pub plugin_id: Seq<char>,
    pub fields: Seq<FieldValue>,
}

impl View for PluginSettingsEntry {
    type V = EntryValue;

    open spec fn view(&self) -> EntryValue {
        EntryValue { plugin_id: self.plugin_id@, fields: fields_view(self.fields@) }
    }
}

/// The settings of all plugins as values.
pub open spec fn entries_view(v: Seq<PluginSettingsEntry>) -> Seq<EntryValue> {
    v.map_values(|e: PluginSettingsEntry| e@)
}

/// The settings overlay as a value.
pub ghost struct SettingsValue {
    pub entries: Seq<EntryValue>,
    pub rows: Seq<(usize, usize)>,
    pub selected: int,
    pub editing: Option<Seq<char>>,
    pub message: Option<Seq<char>>,
}

impl View for PluginSettingsState {
    type V = SettingsValue;

    open spec fn view(&self) -> SettingsValue {
        SettingsValue {
            entries: entries_view(self.entries@),
            rows: self.rows@,
            selected: self.selected as int,
            editing: opt_text(self.editing),
            message: opt_text(self.message),
        }
    }
}

/// The settings overlay, if that is what is open.
pub open spec fn settings_of(overlay: Option<Overlay>) -> Option<SettingsValue> {
    match overlay {
        Some(Overlay::PluginSettings(s)) => Some(s@),
        _ => None,
    }
}

/// A row for each setting of each plugin.
pub open spec fn setting_rows(entries: Seq<EntryValue>) -> Seq<(usize, usize)>
    decreases entries.len(),
{
    if entries.len() == 0 {
        Seq::empty()
    } else {
        setting_rows(entries.drop_last()) + Seq::new(
            entries.last().fields.len(),
            |f: int| ((entries.len() - 1) as usize, f as usize),
        )
    }
}

/// The setting under the cursor, with its place.
pub open spec fn selected_field(s: SettingsValue) -> Option<(usize, usize)> {
    if s.selected < s.rows.len() {
        let (e, f) = s.rows[s.selected];
        if e < s.entries.len() && f < s.entries[e as int].fields.len() {
            Some((e, f))
        } else {
            None
        }
    } else {
        None
    }
}

/// What writing a setting asks for: a secret cannot be empty.
pub open spec fn write_ask(s: SettingsValue, e: usize, f: usize, raw: Seq<char>) -> EffectValue {
    let entry = s.entries[e as int];
    let field = entry.fields[f as int];
    if field.secret && raw.len() == 0 {
        EffectValue::DescribeSettings { entry: e as int, plugin_id: entry.plugin_id }
    } else {
        EffectValue::WriteSetting {
            entry: e as int,
            plugin_id: entry.plugin_id,
            key: field.key,
            secret: field.secret,
            value: raw,
        }
    }
}

/// The overlay while a setting is written.
pub open spec fn write_begun(s: SettingsValue, e: usize, f: usize, raw: Seq<char>) -> SettingsValue {
    if s.entries[e as int].fields[f as int].secret && raw.len() == 0 {
        SettingsValue { message: Some("empty value — nothing stored"@), ..s }
    } else {
        s
    }
}

/// What stands in the edit line when a setting is opened.
pub open spec fn edit_seed(f: FieldValue) -> Seq<char> {
    match f.value {
        Some(v) => if f.secret {
            Seq::empty()
        } else {
            as_typed(v)
        },
        None => Seq::empty(),
    }
}

/// A setting that is switched rather than typed.
pub open spec fn is_switch(f: FieldValue) -> bool {
    !f.secret && f.kind == SettingKind::Boolean
}

/// The other position of a switch.
pub open spec fn switched(f: FieldValue) -> Seq<char> {
    if f.value == Some("true"@) {
        "false"@
    } else {
        "true"@
    }
}

impl PluginSettingsState {
    fn field_at(&self) -> (r: Option<(usize, usize)>)
        ensures
            r == selected_field(self@),
            r matches Some((e, f)) ==> e < self.entries@.len() && f
                < self.entries@[e as int].fields@.len(),
    {
        if self.selected >= self.rows.len() {
            return None;
        }
        let (e, f) = self.rows[self.selected];
        if e < self.entries.len() {
            assert(self@.entries[e as int] == self.entries@[e as int]@);
            if f < self.entries[e].fields.len() {
                return Some((e, f));
            }
        }
        None
    }

    fn begin_write(&mut self, e: usize, f: usize, raw: &str) -> (r: Effect)
        requires
            e < old(self).entries@.len(),
            f < old(self).entries@[e as int].fields@.len(),
        ensures
            final(self)@ == write_begun(old(self)@, e, f, raw@),
            r@ == write_ask(old(self)@, e, f, raw@),
    {
        let entry = &self.entries[e];
        let field = &entry.fields[f];
        assert(self@.entries[e as int] == entry@);
        assert(entry@.fields[f as int] == field@);
        let plugin_id = entry.plugin_id.clone();
        if field.secret && raw.is_empty() {
            self.message = Some("empty value — nothing stored".to_owned());
            Effect::DescribeSettings { entry: e, plugin_id }
        } else {
            Effect::WriteSetting {
                entry: e,
                plugin_id,
                key: field.key.clone(),
                secret: field.secret,
                value: raw.to_owned(),
            }
        }
    }
}

fn rows_of(entries: &Vec<PluginSettingsEntry>) -> (rows: Vec<(usize, usize)>)
    ensures
        rows@ == setting_rows(entries_view(entries@)),
{
    let ghost v = entries_view(entries@);
    let mut rows: Vec<(usize, usize)> = Vec::new();
    let mut e: usize = 0;
    while e < entries.len()
        invariant
            e <= entries@.len(),
            v == entries_view(entries@),
            rows@ == setting_rows(v.take(e as int)),
        decreases entries@.len() - e,
    {
        let ghost before = rows@;
        let n: usize = entries[e].fields.len();
        let mut f: usize = 0;
        while f < n
            invariant
                f <= n,
                rows@ == before + Seq::new(f as nat, |k: int| (e, k as usize)),
            decreases n - f,
        {
            rows.push((e, f));
            f += 1;
            assert(rows@ =~= before + Seq::new(f as nat, |k: int| (e, k as usize)));
        }
        assert(v.take(e + 1).drop_last() =~= v.take(e as int));
        assert(v.take(e + 1).last() == entries@[e as int]@);
        assert(rows@ =~= setting_rows(v.take(e + 1)));
        e += 1;
    }
    assert(v.take(e as int) =~= v);
    rows
}

impl App {
    /// Lists the settings of plugins; `entries` are those that have any.
    pub fn open_plugin_settings(&mut self, entries: Vec<PluginSettingsEntry>)
        ensures
            if entries@.len() == 0 {
                &&& *final(self) == (App { status: final(self).status, ..*old(self) })
                &&& final(self).status@ == "No configurable plugins installed"@
            } else {
                &&& *final(self) == (App { overlay: final(self).overlay, ..*old(self) })
                &&& settings_of(final(self).overlay) == Some(
                    SettingsValue {
                        entries: entries_view(entries@),
                        rows: setting_rows(entries_view(entries@)),
                        selected: 0,
                        editing: None,
                        message: None,
                    },
                )
            },
    {
        if entries.len() == 0 {
            self.status = "No configurable plugins installed".to_owned();
            return;
        }
        let rows = rows_of(&entries);
        self.overlay =
        Some(
            Overlay::PluginSettings(
                PluginSettingsState { entries, rows, selected: 0, editing: None, message: None },
            ),
        );
    }

    /// Moves the cursor; it stops at both ends, and stays while editing.
    pub fn plugin_settings_move(&mut self, delta: i32)
        ensures
            match settings_of(old(self).overlay) {
                Some(s) => {
                    &&& *final(self) == (App { overlay: final(self).overlay, ..*old(self) })
                    &&& settings_of(final(self).overlay) == Some(
                        SettingsValue {
                            selected: if s.editing is Some || s.rows.len() == 0 {
                                s.selected
                            } else if s.selected + delta < 0 {
                                0
                            } else if s.selected + delta >= s.rows.len() {
                                s.rows.len() - 1
                            } else {
                                s.selected + delta
                            },
                            ..s
                        },
                    )
                },
                None => *final(self) == *old(self),
            },
    {
        if let Some(Overlay::PluginSettings(s)) = &mut self.overlay {
            if s.editing.is_some() || s.rows.len() == 0 {
                return;
            }
            let last: usize = s.rows.len() - 1;
            let at: i128 = s.selected as i128 + delta as i128;
            s.selected =
            if at < 0 {
                0
            } else if at > last as i128 {
                last
            } else {
                at as usize
            };
        }
    }

    /// `Enter` on a setting: a switch is switched, anything else opens in the
    /// edit line, a secret without its value.
    pub fn plugin_settings_activate(&mut self) -> (r: Effect)
        ensures
            match settings_of(old(self).overlay) {
                Some(s) => {
                    &&& *final(self) == (App { overlay: final(self).overlay, ..*old(self) })
                    &&& match selected_field(s) {
                        Some((e, f)) => {
                            let field = s.entries[e as int].fields[f as int];
                            if is_switch(field) {
                                &&& r@ == write_ask(s, e, f, switched(field))
                                &&& settings_of(final(self).overlay) == Some(
                                    write_begun(s, e, f, switched(field)),
                                )
                            } else {
                                &&& r@ == EffectValue::Nothing
                                &&& settings_of(final(self).overlay) == Some(
                                    SettingsValue {
                                        editing: Some(edit_seed(field)),
                                        message: None,
                                        ..s
                                    },
                                )
                            }
                        },
                        None => settings_of(final(self).overlay) == Some(s) && r@
                            == EffectValue::Nothing,
                    }
                },
                None => *final(self) == *old(self) && r@ == EffectValue::Nothing,
            },
    {
        if let Some(Overlay::PluginSettings(s)) = &mut self.overlay {
            if let Some((e, f)) = s.field_at() {
                let field = &s.entries[e].fields[f];
                assert(s@.entries[e as int] == s.entries@[e as int]@);
                assert(s.entries@[e as int]@.fields[f as int] == field@);
                if !field.secret && field.kind == SettingKind::Boolean {
                    let on = match &field.value {
                        Some(v) => same_text(v.as_str(), "true"),
                        None => false,
                    };
                    return s.begin_write(
                        e,
                        f,
                        if on {
                            "false"
                        } else {
                            "true"
                        },
                    );
                }
                let seed = match &field.value {
                    Some(v) => {
                        if field.secret {
                            String::new()
                        } else {
                            value_to_input(v.as_str())
                        }
                    },
                    None => String::new(),
                };
                s.editing = Some(seed);
                s.message = None;
            }
        }
        Effect::Nothing
    }

    /// A character typed into the edit line.
    pub fn plugin_settings_edit_push(&mut self, c: char)
        ensures
            match settings_of(old(self).overlay) {
                Some(s) => {
                    &&& *final(self) == (App { overlay: final(self).overlay, ..*old(self) })
                    &&& settings_of(final(self).overlay) == Some(
                        SettingsValue {
                            editing: match s.editing {
                                Some(t) => Some(t.push(c)),
                                None => None,
                            },
                            ..s
                        },
                    )
                },
                None => *final(self) == *old(self),
            },
    {
        if let Some(Overlay::PluginSettings(s)) = &mut self.overlay {
            if let Some(t) = &mut s.editing {
                t.push(c);
            }
        }
    }

    /// `Backspace` in the edit line.
    pub fn plugin_settings_edit_backspace(&mut self)
        ensures
            match settings_of(old(self).overlay) {
                Some(s) => {
                    &&& *final(self) == (App { overlay: final(self).overlay, ..*old(self) })
                    &&& settings_of(final(self).overlay) == Some(
                        SettingsValue {
                            editing: match s.editing {
                                Some(t) => Some(shortened(t)),
                                None => None,
                            },
                            ..s
                        },
                    )
                },
                None => *final(self) == *old(self),
            },
    {
        if let Some(Overlay::PluginSettings(s)) = &mut self.overlay {
            if let Some(t) = &mut s.editing {
                *t = drop_last_char(t.as_str());
            }
        }
    }

    /// `Esc` in the edit line.
    pub fn plugin_settings_cancel_edit(&mut self)
        ensures
            match settings_of(old(self).overlay) {
                Some(s) => {
                    &&& *final(self) == (App { overlay: final(self).overlay, ..*old(self) })
                    &&& settings_of(final(self).overlay) == Some(
                        SettingsValue { editing: None, ..s },
                    )
                },
                None => *final(self) == *old(self),
            },
    {
        if let Some(Overlay::PluginSettings(s)) = &mut self.overlay {
            s.editing = None;
        }
    }

    /// `Enter` in the edit line: writes what was typed to the setting.
    pub fn plugin_settings_commit_edit(&mut self) -> (r: Effect)
        ensures
            match settings_of(old(self).overlay) {
                Some(s) => {
                    &&& *final(self) == (App { overlay: final(self).overlay, ..*old(self) })
                    &&& match (s.editing, selected_field(s)) {
                        (Some(t), Some((e, f))) => {
                            &&& r@ == write_ask(s, e, f, t)
                            &&& settings_of(final(self).overlay) == Some(
                                SettingsValue { editing: None, ..write_begun(s, e, f, t) },
                            )
                        },
                        _ => settings_of(final(self).overlay) == Some(s) && r@
                            == EffectValue::Nothing,
                    }
                },
                None => *final(self) == *old(self) && r@ == EffectValue::Nothing,
            },
    {
        if let Some(Overlay::PluginSettings(s)) = &mut self.overlay {
            let typed = match &s.editing {
                Some(t) => t.clone(),
                None => {
                    return Effect::Nothing;
                },
            };
            if let Some((e, f)) = s.field_at() {
                let r = s.begin_write(e, f, typed.as_str());
                s.editing = None;
                return r;
            }
        }
        Effect::Nothing
    }

    /// Shows the settings of a plugin as they are now, if they could be
    /// looked up.
    pub fn plugin_settings_described(&mut self, entry: usize, fields: Option<Vec<SettingField>>)
        ensures
            match settings_of(old(self).overlay) {
                Some(s) => {
                    &&& *final(self) == (App { overlay: final(self).overlay, ..*old(self) })
                    &&& settings_of(final(self).overlay) == Some(described(s, entry, fields))
                },
                None => *final(self) == *old(self),
            },
    {
        if let Some(Overlay::PluginSettings(s)) = &mut self.overlay {
            if let Some(fields) = fields {
                if entry < s.entries.len() {
                    let ghost before = s.entries@;
                    let plugin_id = s.entries[entry].plugin_id.clone();
                    let e = PluginSettingsEntry { plugin_id, fields };
                    s.entries.set(entry, e);
                    assert(entries_view(s.entries@) =~= entries_view(before).update(
                        entry as int,
                        e@,
                    ));
                    assert(entries_view(before)[entry as int] == before[entry as int]@);
                }
            }
        }
    }

    /// Shows how writing a setting went.
    pub fn plugin_setting_written(
        &mut self,
        entry: usize,
        plugin_id: &str,
        key: &str,
        failure: Option<&str>,
        fields: Option<Vec<SettingField>>,
    )
        ensures
            match settings_of(old(self).overlay) {
                Some(s) => {
                    &&& *final(self) == (App { overlay: final(self).overlay, ..*old(self) })
                    &&& settings_of(final(self).overlay) == Some(
                        SettingsValue {
                            message: Some(
                                match failure {
                                    Some(e) => e@,
                                    None => "saved "@ + plugin_id@ + "/"@ + key@,
                                },
                            ),
                            ..described(s, entry, fields)
                        },
                    )
                },
                None => *final(self) == *old(self),
            },
    {
        self.plugin_settings_described(entry, fields);
        if let Some(Overlay::PluginSettings(s)) = &mut self.overlay {
            s.message =
            Some(
                match failure {
                    Some(e) => e.to_owned(),
                    None => cat4("saved ", plugin_id, "/", key),
                },
            );
        }
    }
}

/// The overlay with the settings of one plugin looked up again.
pub open spec fn described(
    s: SettingsValue,
    entry: usize,
    fields: Option<Vec<SettingField>>,
) -> SettingsValue {
    match fields {
        Some(f) => if entry < s.entries.len() {
            SettingsValue {
                entries: s.entries.update(
                    entry as int,
                    EntryValue { fields: fields_view(f@), ..s.entries[entry as int] },
                ),
                ..s
            }
        } else {
            s
        },
        None => s,
    }
}

// ---------------------------------------------------------------------
// Laws
// ---------------------------------------------------------------------

proof fn lemma_next_fence(lines: Seq<Seq<char>>, k: int, m: int)
    requires
        0 <= k <= m < lines.len(),
        forall|j: int| k <= j < m ==> !is_fence(#[trigger] lines[j]),
        is_fence(lines[m]),
    ensures
        next_fence(lines, k) == Some(m),
    decreases m - k,
{
    if k < m {
        assert(!is_fence(lines[k]));
        lemma_next_fence(lines, k + 1, m);
    }
}

proof fn lemma_no_fence(lines: Seq<Seq<char>>, k: int)
    requires
        0 <= k <= lines.len(),
        forall|j: int| k <= j < lines.len() ==> !is_fence(#[trigger] lines[j]),
    ensures
        next_fence(lines, k) is None,
    decreases lines.len() - k,
{
    if k < lines.len() {
        assert(!is_fence(lines[k]));
        lemma_no_fence(lines, k + 1);
    }
}

proof fn lemma_lines_of_unlined(lines: Seq<Seq<char>>, end: Seq<char>)
    requires
        forall|i: int|
            0 <= i < lines.len() ==> !(#[trigger] lines[i]).contains('\n') && !lines[i].contains(
                '\r',
            ),
        end.len() > 0,
        !end.contains('\n'),
        !end.contains('\r'),
    ensures
        lines_of(unlined(lines) + end) == lines.push(end),
    decreases lines.len(),
{
    if lines.len() == 0 {
        law_a_line_comes_off(end, Seq::empty());
        assert(unlined(lines) + end =~= end);
        assert(lines.push(end) =~= seq![end]);
    } else {
        let d = lines.drop_first();
        assert forall|i: int| 0 <= i < d.len() implies !(#[trigger] d[i]).contains('\n')
            && !d[i].contains('\r') by {
            assert(d[i] == lines[i + 1]);
        }
        lemma_lines_of_unlined(d, end);
        assert(!lines[0].contains('\n') && !lines[0].contains('\r'));
        law_a_line_comes_off(lines[0], unlined(d) + end);
        assert(unlined(lines) + end =~= lines[0] + seq!['\n'] + (unlined(d) + end));
        assert(lines.push(end) =~= seq![lines[0]] + d.push(end));
    }
}

/// Code between two fences is the lines between them, in the language behind
/// the first.
pub proof fn law_fenced_code_is_what_the_fences_hold(lang: Seq<char>, lines: Seq<Seq<char>>)
    requires
        lang.len() > 0,
        trim_of(lang) == lang,
        !lang.contains('\n'),
        !lang.contains('\r'),
        forall|i: int|
            0 <= i < lines.len() ==> !is_fence(#[trigger] lines[i]) && !lines[i].contains('\n')
                && !lines[i].contains('\r'),
    ensures
        fenced("```"@ + lang + seq!['\n'] + (unlined(lines) + "```"@)) == Some(
            (lang, joined(lines, "\n"@)),
        ),
{
    reveal_strlit("```");
    let head = "```"@ + lang;
    let end = "```"@;
    let s = head + seq!['\n'] + (unlined(lines) + end);
    assert(s[0] == '`' && s.last() == '`');
    assert(trim_of(s) == s);
    assert(!head.contains('\n') && !head.contains('\r')) by {
        assert forall|j: int| 0 <= j < head.len() implies head[j] != '\n' && head[j] != '\r' by {
            if j >= 3 {
                assert(head[j] == lang[j - 3]);
                assert(lang.contains(lang[j - 3]));
            }
        }
    }
    assert(!end.contains('\n') && !end.contains('\r'));
    lemma_lines_of_unlined(lines, end);
    law_a_line_comes_off(head, unlined(lines) + end);
    let all = lines_of(s);
    assert(all =~= seq![head] + lines.push(end));
    assert(head[0] == '`');
    assert(head.subrange(0, 3) =~= "```"@);
    assert(is_fence(head));
    assert(head.skip(3) =~= lang);
    assert(end.subrange(0, 3) =~= end);
    assert(is_fence(end));
    let k = all.len() - 1;
    assert forall|j: int| 1 <= j < k implies !is_fence(#[trigger] all[j]) by {
        assert(all[j] == lines[j - 1]);
    }
    lemma_next_fence(all, 1, k);
    assert(all.subrange(1, k) =~= lines);
}

/// Code that no fence closes is no code.
pub proof fn law_open_fences_hold_nothing(text: Seq<char>)
    requires
        forall|j: int|
            1 <= j < lines_of(trim_of(text)).len() ==> !is_fence(
                #[trigger] lines_of(trim_of(text))[j],
            ),
    ensures
        fenced(text) is None,
{
    let lines = lines_of(trim_of(text));
    if lines.len() > 0 {
        lemma_no_fence(lines, 1);
    }
}

/// Of several entries under one key the last one holds, and there is one
/// exactly where the key occurs.
pub proof fn law_the_last_entry_holds(v: Seq<(Seq<char>, Seq<char>)>, key: Seq<char>)
    ensures
        last_with(v, key) is None <==> forall|i: int|
            0 <= i < v.len() ==> (#[trigger] v[i]).0 != key,
        last_with(v, key) is Some ==> exists|i: int|
            0 <= i < v.len() && #[trigger] v[i] == (key, last_with(v, key)->0) && forall|j: int|
                i < j < v.len() ==> (#[trigger] v[j]).0 != key,
    decreases v.len(),
{
    if v.len() > 0 {
        let d = v.drop_last();
        let n = v.len() - 1;
        law_the_last_entry_holds(d, key);
        if v.last().0 == key {
            assert(v[n] == (key, last_with(v, key)->0));
        } else {
            assert(forall|i: int| 0 <= i < n ==> #[trigger] v[i] == d[i]);
            if last_with(d, key) is Some {
                let i = choose|i: int|
                    0 <= i < d.len() && #[trigger] d[i] == (key, last_with(d, key)->0)
                        && forall|j: int| i < j < d.len() ==> (#[trigger] d[j]).0 != key;
                assert(v[i] == (key, last_with(v, key)->0));
                assert forall|j: int| i < j < v.len() implies (#[trigger] v[j]).0 != key by {
                    if j < n {
                        assert(v[j] == d[j]);
                    }
                }
            } else {
                assert forall|i: int| 0 <= i < v.len() implies (#[trigger] v[i]).0 != key by {
                    if i < n {
                        assert(d[i].0 != key);
                    }
                }
            }
        }
    }
}

/// A language is run by the plugin that offers it, under its own name before
/// any other, and else under the name that an alias gives it.
pub proof fn law_a_language_finds_its_plugin(
    lang: Seq<char>,
    langs: Seq<(Seq<char>, Seq<char>)>,
    aliases: Seq<(Seq<char>, Seq<char>)>,
)
    ensures
        match transformer_for(lang, langs, aliases) {
            Some((name, plugin)) => {
                &&& langs.contains((name, plugin))
                &&& name == lang || aliases.contains((lang, name))
                &&& name != lang ==> forall|i: int|
                    0 <= i < langs.len() ==> (#[trigger] langs[i]).0 != lang
            },
            None => forall|i: int| 0 <= i < langs.len() ==> (#[trigger] langs[i]).0 != lang,
        },
{
    law_the_last_entry_holds(langs, lang);
    law_the_last_entry_holds(aliases, lang);
    if last_with(aliases, lang) is Some {
        law_the_last_entry_holds(langs, last_with(aliases, lang)->0);
    }
}

/// Each job is one block's, in display order: it carries the identifier of the
/// block and the code in it.
pub proof fn law_jobs_belong_to_blocks(
    blocks: Seq<NodeView>,
    start: int,
    ids: Seq<u128>,
    langs: Seq<(Seq<char>, Seq<char>)>,
    aliases: Seq<(Seq<char>, Seq<char>)>,
    k: int,
)
    requires
        0 <= k < blocks.len(),
    ensures
        jobs_of(blocks, start, ids, langs, aliases) == jobs_of(
            blocks.take(k),
            start,
            ids,
            langs,
            aliases,
        ) + (if 0 <= start + k < ids.len() && fenced(blocks[k].text) is Some && transformer_for(
            (fenced(blocks[k].text)->0).0,
            langs,
            aliases,
        ) is Some {
            seq![
                JobValue {
                    block_id: ids[start + k],
                    lang: (transformer_for((fenced(blocks[k].text)->0).0, langs, aliases)->0).0,
                    plugin_id: (transformer_for((fenced(blocks[k].text)->0).0, langs, aliases)->0).1,
                    body: (fenced(blocks[k].text)->0).1,
                },
            ]
        } else {
            Seq::empty()
        }) + jobs_of(blocks.skip(k + 1), start + k + 1, ids, langs, aliases),
{
    let a = blocks.take(k);
    let b = seq![blocks[k]];
    let c = blocks.skip(k + 1);
    assert(blocks =~= a + b + c);
    lemma_jobs_split(a + b, c, start, ids, langs, aliases);
    lemma_jobs_split(a, b, start, ids, langs, aliases);
    assert(b.drop_last() =~= Seq::<NodeView>::empty());
    assert(jobs_of(b.drop_last(), start + k, ids, langs, aliases) =~= Seq::empty());
    assert(b.last() == blocks[k]);
    assert(start + k + b.len() - 1 == start + k);
    let j = job_of(blocks[k], id_at(ids, start + k), langs, aliases);
    if j is Some {
        assert(jobs_of(b, start + k, ids, langs, aliases) =~= seq![j->0]);
    } else {
        assert(jobs_of(b, start + k, ids, langs, aliases) =~= Seq::empty());
    }
}

/// The answer kept for a block is the last one that is text.
pub proof fn law_the_last_text_is_kept(v: Seq<Transformed>, id: u128)
    ensures
        text_answers(v).contains_key(id) <==> exists|i: int|
            0 <= i < v.len() && (#[trigger] v[i]).block_id == id && v[i].kind@ == "text"@,
        text_answers(v).contains_key(id) ==> exists|i: int|
            0 <= i < v.len() && (#[trigger] v[i]).block_id == id && v[i].kind@ == "text"@
                && v[i].content@ == text_answers(v)[id] && forall|j: int|
                i < j < v.len() && (#[trigger] v[j]).block_id == id ==> v[j].kind@ != "text"@,
    decreases v.len(),
{
    if v.len() > 0 {
        let d = v.drop_last();
        let n = v.len() - 1;
        law_the_last_text_is_kept(d, id);
        assert(v[n] == v.last());
        assert(forall|i: int| 0 <= i < n ==> #[trigger] v[i] == d[i]);
        if v.last().kind@ == "text"@ && v.last().block_id == id {
        } else if text_answers(d).contains_key(id) {
            let i = choose|i: int|
                0 <= i < d.len() && (#[trigger] d[i]).block_id == id && d[i].kind@ == "text"@
                    && d[i].content@ == text_answers(d)[id] && forall|j: int|
                    i < j < d.len() && (#[trigger] d[j]).block_id == id ==> d[j].kind@ != "text"@;
            assert(v[i] == d[i]);
            assert forall|j: int|
                i < j < v.len() && (#[trigger] v[j]).block_id == id implies v[j].kind@
                != "text"@ by {
                if j < n {
                    assert(v[j] == d[j]);
                }
            }
        } else {
            assert forall|i: int| 0 <= i < v.len() && (#[trigger] v[i]).block_id == id implies v[i].kind@
                != "text"@ by {
                if i < n {
                    assert(v[i] == d[i]);
                    assert(d[i].kind@ != "text"@);
                }
            }
        }
    }
}

proof fn lemma_first_command(v: Seq<PluginCommand>, id: Seq<char>, k: int)
    requires
        0 <= k <= v.len(),
    ensures
        match first_command(v, id, k) {
            Some(i) => k <= i < v.len() && v[i].command_id@ == id && forall|j: int|
                k <= j < i ==> (#[trigger] v[j]).command_id@ != id,
            None => forall|j: int| k <= j < v.len() ==> (#[trigger] v[j]).command_id@ != id,
        },
    decreases v.len() - k,
{
    if k < v.len() {
        lemma_first_command(v, id, k + 1);
    }
}

/// A command is run by the plugin that registered it first, among the commands
/// before the buttons.
pub proof fn law_the_first_registered_runs(
    commands: Seq<PluginCommand>,
    buttons: Seq<PluginCommand>,
    id: Seq<char>,
)
    ensures
        match command_for(commands, buttons, id) {
            Some((plugin, command)) => command == id && exists|i: int|
                0 <= i < (commands + buttons).len() && (#[trigger] (commands + buttons)[i]).command_id@
                    == id && (commands + buttons)[i].plugin_id@ == plugin && forall|j: int|
                    0 <= j < i ==> (#[trigger] (commands + buttons)[j]).command_id@ != id,
            None => forall|j: int|
                0 <= j < (commands + buttons).len() ==> (#[trigger] (commands
                    + buttons)[j]).command_id@ != id,
        },
{
    let all = commands + buttons;
    lemma_first_command(commands, id, 0);
    lemma_first_command(buttons, id, 0);
    match first_command(commands, id, 0) {
        Some(i) => {
            assert(all[i] == commands[i]);
            assert forall|j: int| 0 <= j < i implies (#[trigger] all[j]).command_id@ != id by {
                assert(all[j] == commands[j]);
            }
        },
        None => {
            match first_command(buttons, id, 0) {
                Some(i) => {
                    let k = commands.len() + i;
                    assert(all[k] == buttons[i]);
                    assert forall|j: int| 0 <= j < k implies (#[trigger] all[j]).command_id@
                        != id by {
                        if j < commands.len() {
                            assert(all[j] == commands[j]);
                        } else {
                            assert(all[j] == buttons[j - commands.len()]);
                        }
                    }
                },
                None => {
                    assert forall|j: int| 0 <= j < all.len() implies (#[trigger] all[j]).command_id@
                        != id by {
                        if j < commands.len() {
                            assert(all[j] == commands[j]);
                        } else {
                            assert(all[j] == buttons[j - commands.len()]);
                        }
                    }
                },
            }
        },
    }
}

/// The settings list has a row for each field of each plugin, in their order.
pub proof fn law_every_field_has_a_row(entries: Seq<EntryValue>)
    requires
        entries.len() <= usize::MAX,
        forall|i: int| 0 <= i < entries.len() ==> (#[trigger] entries[i]).fields.len() <= usize::MAX,
    ensures
        forall|i: int|
            0 <= i < setting_rows(entries).len() ==> (#[trigger] setting_rows(entries)[i]).0
                < entries.len() && setting_rows(entries)[i].1 < entries[setting_rows(
                entries,
            )[i].0 as int].fields.len(),
        forall|i: int, j: int|
            #![trigger setting_rows(entries)[i], setting_rows(entries)[j]]
            0 <= i < j < setting_rows(entries).len() ==> setting_rows(entries)[i].0 < setting_rows(
                entries,
            )[j].0 || (setting_rows(entries)[i].0 == setting_rows(entries)[j].0 && setting_rows(
                entries,
            )[i].1 < setting_rows(entries)[j].1),
        forall|e: usize, f: usize|
            e < entries.len() && f < entries[e as int].fields.len() ==> #[trigger] setting_rows(
                entries,
            ).contains((e, f)),
    decreases entries.len(),
{
    if entries.len() > 0 {
        let d = entries.drop_last();
        assert forall|i: int| 0 <= i < d.len() implies (#[trigger] d[i]).fields.len()
            <= usize::MAX by {
            assert(d[i] == entries[i]);
        }
        law_every_field_has_a_row(d);
        let r = setting_rows(d);
        let s = setting_rows(entries);
        let n = entries.len() - 1;
        assert(entries[n] == entries.last());
        assert forall|i: int| 0 <= i < s.len() implies (#[trigger] s[i]).0 < entries.len() && s[i].1
            < entries[s[i].0 as int].fields.len() by {
            if i < r.len() {
                assert(s[i] == r[i]);
            } else {
                assert(s[i] == (n as usize, (i - r.len()) as usize));
            }
        }
        assert forall|i: int, j: int|
            #![trigger s[i], s[j]]
            0 <= i < j < s.len() implies s[i].0 < s[j].0 || (s[i].0 == s[j].0 && s[i].1
            < s[j].1) by {
            if j < r.len() {
                assert(s[i] == r[i] && s[j] == r[j]);
            } else {
                assert(s[j] == (n as usize, (j - r.len()) as usize));
                if i < r.len() {
                    assert(s[i] == r[i]);
                } else {
                    assert(s[i] == (n as usize, (i - r.len()) as usize));
                }
            }
        }
        assert forall|e: usize, f: usize|
            e < entries.len() && f < entries[e as int].fields.len() implies #[trigger] s.contains(
            (e, f),
        ) by {
            if e < n {
                assert(d[e as int] == entries[e as int]);
                assert(r.contains((e, f)));
                let k = choose|k: int| 0 <= k < r.len() && r[k] == (e, f);
                assert(s[k] == (e, f));
            } else {
                assert(s[r.len() + f] == (e, f));
            }
        }
    }
}

/// What is typed is written under the key of the field, but for an empty
/// secret, which leaves the stored one alone.
pub proof fn law_settings_are_written_as_typed(
    s: SettingsValue,
    e: usize,
    f: usize,
    raw: Seq<char>,
)
    requires
        e < s.entries.len(),
        f < s.entries[e as int].fields.len(),
    ensures
        !s.entries[e as int].fields[f as int].secret || raw.len() > 0 ==> write_ask(s, e, f, raw)
            == (EffectValue::WriteSetting {
            entry: e as int,
            plugin_id: s.entries[e as int].plugin_id,
            key: s.entries[e as int].fields[f as int].key,
            secret: s.entries[e as int].fields[f as int].secret,
            value: raw,
        }) && write_begun(s, e, f, raw) == s,
        s.entries[e as int].fields[f as int].secret && raw.len() == 0 ==> !(write_ask(s, e, f, raw)
            is WriteSetting) && write_begun(s, e, f, raw).message is Some,
{
}

/// Switching goes from on to off and from anything else to on, and twice is
/// back again; a secret is never shown to be edited.
pub proof fn law_switches_go_both_ways(f: FieldValue)
    ensures
        switched(FieldValue { value: Some("true"@), ..f }) == "false"@,
        switched(FieldValue { value: Some("false"@), ..f }) == "true"@,
        switched(FieldValue { value: None, ..f }) == "true"@,
        f.secret ==> !is_switch(f) && edit_seed(f).len() == 0,
        !f.secret && f.value is Some && json_string(f.value->0) is None ==> edit_seed(f)
            == f.value->0,
        !f.secret && f.value is Some && json_string(f.value->0) is Some ==> edit_seed(f)
            == json_string(f.value->0)->0,
        f.value is None ==> edit_seed(f).len() == 0,
{
    reveal_strlit("true");
    reveal_strlit("false");
    assert("true"@.len() != "false"@.len());
}

/// The transformers that give text are those that say so.
pub proof fn law_text_transformers_say_so(v: Seq<Transformer>, lang: Seq<char>, plugin: Seq<char>)
    ensures
        text_langs(v).contains((lang, plugin)) <==> exists|i: int|
            0 <= i < v.len() && (#[trigger] v[i]).kind@ == "text"@ && v[i].lang@ == lang
                && v[i].plugin_id@ == plugin,
    decreases v.len(),
{
    if v.len() > 0 {
        let d = v.drop_last();
        let r = text_langs(d);
        let t = text_langs(v);
        law_text_transformers_say_so(d, lang, plugin);
        assert(v[v.len() - 1] == v.last());
        if r.contains((lang, plugin)) {
            let k = choose|k: int| 0 <= k < r.len() && r[k] == (lang, plugin);
            assert(t[k] == (lang, plugin));
            let i = choose|i: int|
                0 <= i < d.len() && (#[trigger] d[i]).kind@ == "text"@ && d[i].lang@ == lang
                    && d[i].plugin_id@ == plugin;
            assert(v[i] == d[i]);
        } else {
            if t.contains((lang, plugin)) {
                let k = choose|k: int| 0 <= k < t.len() && t[k] == (lang, plugin);
                if k < r.len() {
                    assert(r[k] == (lang, plugin));
                }
            }
            if exists|i: int|
                0 <= i < v.len() && (#[trigger] v[i]).kind@ == "text"@ && v[i].lang@ == lang
                    && v[i].plugin_id@ == plugin {
                let i = choose|i: int|
                    0 <= i < v.len() && (#[trigger] v[i]).kind@ == "text"@ && v[i].lang@ == lang
                        && v[i].plugin_id@ == plugin;
                if i < d.len() {
                    assert(d[i] == v[i]);
                } else {
                    assert(t[r.len() as int] == (lang, plugin));
                }
            }
        }
    }
}

/// What a plugin says is shown before what went wrong, each once and in order.
pub proof fn law_what_a_plugin_says_is_shown(
    app: App,
    notes: Seq<Seq<char>>,
    errors: Seq<Seq<char>>,
    i: int,
)
    requires
        0 <= i < notes.len() + errors.len(),
    ensures
        run_toasts(app, notes, errors).len() == notes.len() + errors.len(),
        i < notes.len() ==> run_toasts(app, notes, errors)[i].message == notes[i] && run_toasts(
            app,
            notes,
            errors,
        )[i].kind == ToastKind::Info,
        i >= notes.len() ==> run_toasts(app, notes, errors)[i].message == "plugin: "@ + errors[i
            - notes.len()] && run_toasts(app, notes, errors)[i].kind == ToastKind::Error,
{
}

/// The field under the cursor is that of its row, and describing a plugin again
/// changes its own fields alone.
pub proof fn law_a_row_is_its_field(
    s: SettingsValue,
    entry: usize,
    fields: Vec<SettingField>,
)
    ensures
        selected_field(s) matches Some((e, f)) ==> s.selected < s.rows.len() && s.rows[s.selected]
            == (e, f) && e < s.entries.len() && f < s.entries[e as int].fields.len(),
        described(s, entry, Some(fields)).entries.len() == s.entries.len(),
        forall|i: int|
            0 <= i < s.entries.len() && i != entry ==> #[trigger] described(
                s,
                entry,
                Some(fields),
            ).entries[i] == s.entries[i],
        entry < s.entries.len() ==> described(s, entry, Some(fields)).entries[entry as int].fields
            == fields_view(fields@) && described(
            s,
            entry,
            Some(fields),
        ).entries[entry as int].plugin_id == s.entries[entry as int].plugin_id,
        described(s, entry, None) == s,
{
}

} // verus!

//! What follows from reading a page: everything that belonged to the page
//! shown before is put away.

use crate::actions::collapsed::hidden_blocks;
use crate::autocomplete::lemma_text_order;
use crate::outline::{count, flat_count};
use crate::paths::{behind_last, file_name, last_part, stem_of};
use crate::state::{
    copy_strings, toast_value, toasts_view, App, Focus, PageValue, ParsedPage, ToastKind,
};
use crate::text::{
    cat, cat3, cat5, chars_of, comes_before, contains, decimal, matches_at, numeral, occurs,
    same_text, starts_with, string_range, text_before, texts,
};
use std::collections::HashSet;
use vstd::prelude::*;

verus! {

// ---------------------------------------------------------------------
// Recent pages
// ---------------------------------------------------------------------

/// How many pages the list of recent ones holds.
pub const RECENT_MAX: usize = 20;

/// A list without one of its texts.
pub open spec fn without_text(v: Seq<Seq<char>>, t: Seq<char>) -> Seq<Seq<char>>
    decreases v.len(),
{
    if v.len() == 0 {
        v
    } else {
        let r = without_text(v.drop_last(), t);
        if v.last() == t {
            r
        } else {
            r.push(v.last())
        }
    }
}

/// The recent pages after one more was opened: it comes first, once.
pub open spec fn touched(v: Seq<Seq<char>>, path: Seq<char>) -> Seq<Seq<char>> {
    let r = seq![path] + without_text(v, path);
    if r.len() > RECENT_MAX {
        r.take(RECENT_MAX as int)
    } else {
        r
    }
}

proof fn lemma_without_text(v: Seq<Seq<char>>, t: Seq<char>)
    ensures
        !without_text(v, t).contains(t),
        forall|x: Seq<char>| #[trigger] without_text(v, t).contains(x) ==> v.contains(x),
        v.no_duplicates() ==> without_text(v, t).no_duplicates(),
    decreases v.len(),
{
    if v.len() > 0 {
        let d = v.drop_last();
        lemma_without_text(d, t);
        let r = without_text(d, t);
        let w = without_text(v, t);
        assert forall|x: Seq<char>| #[trigger] w.contains(x) implies v.contains(x) by {
            let i = choose|i: int| 0 <= i < w.len() && w[i] == x;
            if i < r.len() {
                assert(r[i] == x);
                assert(r.contains(x));
                let k = choose|k: int| 0 <= k < d.len() && d[k] == x;
                assert(v[k] == x);
            } else {
                assert(v[v.len() - 1] == x);
            }
        }
        if v.last() != t {
            assert(!w.contains(t)) by {
                if w.contains(t) {
                    let i = choose|i: int| 0 <= i < w.len() && w[i] == t;
                    assert(r[i] == t);
                    assert(r.contains(t));
                }
            }
        }
        if v.no_duplicates() {
            assert(d.no_duplicates());
            assert forall|i: int, j: int| 0 <= i < w.len() && 0 <= j < w.len() && i != j implies w[i]
                != w[j] by {
                if i < r.len() && j < r.len() {
                    assert(r[i] != r[j]);
                } else {
                    let k = if i < r.len() {
                        i
                    } else {
                        j
                    };
                    assert(r.contains(r[k]));
                    let m = choose|m: int| 0 <= m < d.len() && d[m] == r[k];
                    assert(v[m] != v[v.len() - 1]);
                }
            }
        }
    }
}

/// The page opened last comes first in the recent ones, no page occurs twice,
/// and there are at most as many as the list holds.
pub proof fn law_recent_pages(v: Seq<Seq<char>>, path: Seq<char>)
    requires
        v.no_duplicates(),
    ensures
        touched(v, path).len() >= 1 && touched(v, path)[0] == path,
        touched(v, path).len() <= RECENT_MAX,
        touched(v, path).no_duplicates(),
{
    lemma_without_text(v, path);
    let w = without_text(v, path);
    let r = seq![path] + w;
    assert forall|i: int, j: int| 0 <= i < r.len() && 0 <= j < r.len() && i != j implies r[i]
        != r[j] by {
        if i > 0 && j > 0 {
            assert(w[i - 1] != w[j - 1]);
        } else if i > 0 {
            assert(w.contains(w[i - 1]));
        } else {
            assert(w.contains(w[j - 1]));
        }
    }
}

// ---------------------------------------------------------------------
// The warning chip
// ---------------------------------------------------------------------

/// The status line holds the chip that warns of lines that are no outline.
pub open spec fn is_chip(status: Seq<char>, warning: Seq<char>) -> bool {
    matches_at(status, warning + " "@, 0) && occurs(status, "outside outl dialect"@)
}

/// The chip that warns of lines that are no outline.
pub open spec fn chip(warning: Seq<char>, n: nat) -> Seq<char> {
    warning + " "@ + decimal(n)
        + " line(s) outside outl dialect — preserved (open :warnings to see)"@
}

/// The status line after a page with `n` such lines was read: the chip comes
/// and goes, and other messages stay.
pub open spec fn status_after_load(status: Seq<char>, warning: Seq<char>, n: nat) -> Seq<char> {
    if n == 0 {
        if is_chip(status, warning) {
            Seq::empty()
        } else {
            status
        }
    } else if status.len() == 0 || is_chip(status, warning) {
        chip(warning, n)
    } else {
        status
    }
}

fn chip_status(status: &str, warning: &str, n: usize) -> (r: String)
    ensures
        r@ == status_after_load(status@, warning@, n as nat),
{
    let marker = cat(warning, " ");
    let ours = starts_with(status, marker.as_str()) && contains(status, "outside outl dialect");
    if n == 0 {
        if ours {
            String::new()
        } else {
            status.to_owned()
        }
    } else if status.is_empty() || ours {
        let k = numeral(n);
        cat3(
            marker.as_str(),
            k.as_str(),
            " line(s) outside outl dialect — preserved (open :warnings to see)",
        )
    } else {
        status.to_owned()
    }
}

// ---------------------------------------------------------------------
// Reading
// ---------------------------------------------------------------------

/// What came of reading the file of a page.
#[derive(Debug)]
pub enum ReadResult {
    /// The page in it, or an empty one where there is no file yet.
    Page(ParsedPage),
    /// It is there, but could not be read.
    Failed(String),
}

/// The page that is shown after a read.
pub open spec fn page_read(r: ReadResult) -> PageValue {
    match r {
        ReadResult::Page(p) => p@,
        ReadResult::Failed(_) => PageValue {
            properties: Seq::empty(),
            blocks: Seq::empty(),
            warnings: Seq::empty(),
        },
    }
}

/// The identifiers of blocks.
pub open spec fn ids_of(sidecar: Seq<(u128, bool)>) -> Seq<u128> {
    sidecar.map_values(|b: (u128, bool)| b.0)
}

/// The identifiers of folded blocks.
pub open spec fn folded_ids(sidecar: Seq<(u128, bool)>) -> Set<u128>
    decreases sidecar.len(),
{
    if sidecar.len() == 0 {
        Set::empty()
    } else if sidecar.last().1 {
        folded_ids(sidecar.drop_last()).insert(sidecar.last().0)
    } else {
        folded_ids(sidecar.drop_last())
    }
}

/// The identifiers of blocks, and those of the folded ones.
fn split_sidecar(sidecar: &Vec<(u128, bool)>) -> (r: (Vec<u128>, HashSet<u128>))
    ensures
        r.0@ == ids_of(sidecar@),
        r.1@ == folded_ids(sidecar@),
{
    let mut ids: Vec<u128> = Vec::new();
    let mut folded: HashSet<u128> = HashSet::new();
    let mut i: usize = 0;
    while i < sidecar.len()
        invariant
            i <= sidecar@.len(),
            ids@ == ids_of(sidecar@.take(i as int)),
            folded@ == folded_ids(sidecar@.take(i as int)),
        decreases sidecar@.len() - i,
    {
        assert(sidecar@.take(i + 1).drop_last() =~= sidecar@.take(i as int));
        ids.push(sidecar[i].0);
        if sidecar[i].1 {
            folded.insert(sidecar[i].0);
        }
        i += 1;
        assert(ids@ =~= ids_of(sidecar@.take(i as int)));
    }
    assert(sidecar@.take(i as int) =~= sidecar@);
    (ids, folded)
}

/// The two differ at most in what belongs to the page shown.
pub open spec fn same_but_loaded(old: App, new: App) -> bool {
    new == App {
        page: new.page,
        load_failed: new.load_failed,
        toasts: new.toasts,
        parse_warnings: new.parse_warnings,
        status: new.status,
        flat_len: new.flat_len,
        selected: new.selected,
        focus: new.focus,
        zoom_stack: new.zoom_stack,
        id_by_flat: new.id_by_flat,
        collapsed: new.collapsed,
        hidden_by_collapse: new.hidden_by_collapse,
        last_saved_ms: new.last_saved_ms,
        recent_paths: new.recent_paths,
        ..old
    }
}

impl App {
    /// Puts a page at the front of the recent ones.
    pub fn touch_recent(&mut self, path: &str)
        ensures
            *final(self) == (App { recent_paths: final(self).recent_paths, ..*old(self) }),
            texts(final(self).recent_paths@) == touched(texts(old(self).recent_paths@), path@),
    {
        let ghost v = texts(self.recent_paths@);
        let mut r: Vec<String> = Vec::new();
        r.push(path.to_owned());
        let mut i: usize = 0;
        assert(texts(r@) =~= seq![path@] + without_text(v.take(0), path@));
        while i < self.recent_paths.len()
            invariant
                i <= self.recent_paths@.len(),
                *self == *old(self),
                v == texts(self.recent_paths@),
                texts(r@) == seq![path@] + without_text(v.take(i as int), path@),
            decreases self.recent_paths@.len() - i,
        {
            let ghost was = r@;
            assert(v.take(i + 1).drop_last() =~= v.take(i as int));
            assert(v.take(i + 1).last() == self.recent_paths@[i as int]@);
            if !same_text(self.recent_paths[i].as_str(), path) {
                let c = self.recent_paths[i].clone();
                r.push(c);
                assert(texts(r@) =~= texts(was).push(c@));
            }
            i += 1;
            assert(texts(r@) =~= seq![path@] + without_text(v.take(i as int), path@));
        }
        assert(v.take(i as int) =~= v);
        let ghost all = texts(r@);
        while r.len() > RECENT_MAX
            invariant
                *self == *old(self),
                r@.len() <= all.len(),
                all.len() <= RECENT_MAX ==> r@.len() == all.len(),
                all.len() > RECENT_MAX ==> r@.len() >= RECENT_MAX,
                texts(r@) == all.take(r@.len() as int),
            decreases r@.len(),
        {
            let _ = r.pop();
            assert(texts(r@) =~= all.take(r@.len() as int));
        }
        assert(all.take(all.len() as int) =~= all);
        self.recent_paths = r;
    }

    /// Takes in what was read of the page shown: the cursor goes to a block
    /// that is there, and the focus and the zoom to what the new page has.
    /// `sidecar` lists the identifiers of its blocks in display order, each
    /// with whether the block is folded. A page that could not be read is
    /// empty, and cannot be written. An edit that waits to be written has to
    /// be written first: it would be lost here.
    pub fn load_current(
        &mut self,
        read: ReadResult,
        path: &str,
        sidecar: &Vec<(u128, bool)>,
    )
        requires
            old(self).wf(),
            old(self).dirty_since is None,
            count(page_read(read).blocks) <= usize::MAX,
        ensures
            same_but_loaded(*old(self), *final(self)),
            final(self).page@ == page_read(read),
            final(self).load_failed == (read is Failed),
            toasts_view(final(self).toasts@) == match read {
                ReadResult::Page(_) => toasts_view(old(self).toasts@),
                ReadResult::Failed(e) => toasts_view(old(self).toasts@).push(
                    toast_value(
                        *old(self),
                        ToastKind::Error,
                        "cannot read "@ + path@ + ": "@ + e@ + " — editing disabled"@,
                    ),
                ),
            },
            texts(final(self).parse_warnings@) == page_read(read).warnings,
            final(self).status@ == status_after_load(
                old(self).status@,
                old(self).icons.warning@,
                page_read(read).warnings.len(),
            ),
            final(self).flat_len == count(page_read(read).blocks),
            final(self).selected == if old(self).selected < final(self).flat_len {
                old(self).selected
            } else if final(self).flat_len > 0 {
                (final(self).flat_len - 1) as usize
            } else {
                0
            },
            final(self).focus is Outline,
            final(self).zoom_stack@.len() == 0,
            final(self).id_by_flat@ == ids_of(sidecar@),
            final(self).collapsed@ == folded_ids(sidecar@),
            final(self).hidden_by_collapse@ == hidden_blocks(*final(self)),
            final(self).last_saved_ms == Some(old(self).now_ms),
            texts(final(self).recent_paths@) == touched(texts(old(self).recent_paths@), path@),
            final(self).wf(),
    {
        let ghost r0 = read;
        let page = match read {
            ReadResult::Page(p) => {
                self.load_failed = false;
                p
            },
            ReadResult::Failed(e) => {
                self.load_failed = true;
                let m = cat5("cannot read ", path, ": ", e.as_str(), " — editing disabled");
                self.toast(ToastKind::Error, m.as_str());
                ParsedPage::empty()
            },
        };
        assert(page@ == page_read(r0));
        self.page = page;
        self.parse_warnings = copy_strings(&self.page.warnings);
        self.status =
        chip_status(self.status.as_str(), self.icons.warning, self.parse_warnings.len());
        self.flat_len = flat_count(&self.page.blocks);
        if self.selected >= self.flat_len {
            self.selected =
            if self.flat_len > 0 {
                self.flat_len - 1
            } else {
                0
            };
        }
        self.focus = Focus::Outline;
        self.zoom_stack = Vec::new();
        let (ids, collapsed) = split_sidecar(sidecar);
        self.id_by_flat = ids;
        self.collapsed = collapsed;
        self.recompute_hidden_by_collapse();
        self.last_saved_ms = Some(self.now_ms);
        self.touch_recent(path);
    }

    /// Says how many pages that shared one slug were brought together, or why
    /// that failed.
    pub fn roots_repaired(&mut self, merged: usize, failure: Option<&str>)
        ensures
            *final(self) == (App { status: final(self).status, ..*old(self) }),
            match failure {
                Some(e) => final(self).status@ == "duplicate-root repair failed: "@ + e@,
                None => if merged == 0 {
                    final(self).status == old(self).status
                } else {
                    final(self).status@ == "repaired "@ + decimal(merged as nat)
                        + " duplicate page root(s)"@
                },
            },
    {
        match failure {
            Some(e) => {
                self.status = cat("duplicate-root repair failed: ", e);
            },
            None => {
                if merged > 0 {
                    let n = numeral(merged);
                    self.status = cat3("repaired ", n.as_str(), " duplicate page root(s)");
                }
            },
        }
    }
}

// ---------------------------------------------------------------------
// The list of pages
// ---------------------------------------------------------------------

/// A file of the directory of pages.
#[derive(Debug)]
pub struct FileEntry {
    pub path: String,
    pub is_file: bool,
}

/// The file is a page: its extension is `md`, and it is not hidden.
pub open spec fn is_page_file(f: FileEntry) -> bool {
    let name = file_name(f.path@);
    &&& f.is_file
    &&& name.len() > 3
    &&& name.skip(name.len() - 3) == ".md"@
    &&& name[0] != '.'
}

/// Texts in text order, with one more at its place.
pub open spec fn sorted_in(v: Seq<Seq<char>>, t: Seq<char>) -> Seq<Seq<char>>
    decreases v.len(),
{
    if v.len() == 0 {
        seq![t]
    } else if text_before(t, v[0]) {
        seq![t] + v
    } else {
        seq![v[0]] + sorted_in(v.drop_first(), t)
    }
}

/// The pages of a directory, in text order.
pub open spec fn pages_in(v: Seq<FileEntry>) -> Seq<Seq<char>>
    decreases v.len(),
{
    if v.len() == 0 {
        Seq::empty()
    } else {
        let r = pages_in(v.drop_last());
        if is_page_file(v.last()) {
            sorted_in(r, v.last().path@)
        } else {
            r
        }
    }
}

fn page_file(f: &FileEntry) -> (r: bool)
    ensures
        r == is_page_file(*f),
{
    let v = chars_of(last_part(f.path.as_str()).as_str());
    let n: usize = v.len();
    if !f.is_file || n <= 3 || v[0] == '.' {
        return false;
    }
    proof {
        reveal_strlit(".md");
    }
    let end = string_range(&v, n - 3, n);
    assert(end@ =~= file_name(f.path@).skip(n - 3));
    same_text(end.as_str(), ".md")
}

proof fn lemma_sorted_in(v: Seq<Seq<char>>, t: Seq<char>, i: int)
    requires
        0 <= i <= v.len(),
        forall|j: int| 0 <= j < i ==> !text_before(t, #[trigger] v[j]),
        i < v.len() ==> text_before(t, v[i]),
    ensures
        sorted_in(v, t) == v.insert(i, t),
    decreases v.len(),
{
    if v.len() == 0 {
        assert(v.insert(0, t) =~= seq![t]);
    } else if i == 0 {
        assert(v.insert(0, t) =~= seq![t] + v);
    } else {
        assert(!text_before(t, v[0]));
        lemma_sorted_in(v.drop_first(), t, i - 1);
        assert(v.insert(i, t) =~= seq![v[0]] + v.drop_first().insert(i - 1, t));
    }
}

/// The pages of a directory, in text order.
pub fn page_list(entries: &Vec<FileEntry>) -> (r: Vec<String>)
    ensures
        texts(r@) == pages_in(entries@),
{
    let mut r: Vec<String> = Vec::new();
    let mut i: usize = 0;
    assert(texts(r@) =~= Seq::empty());
    while i < entries.len()
        invariant
            i <= entries@.len(),
            texts(r@) == pages_in(entries@.take(i as int)),
        decreases entries@.len() - i,
    {
        assert(entries@.take(i + 1).drop_last() =~= entries@.take(i as int));
        if page_file(&entries[i]) {
            let p = entries[i].path.clone();
            let ghost was = r@;
            let mut k: usize = 0;
            while k < r.len() && !comes_before(p.as_str(), r[k].as_str())
                invariant
                    k <= r@.len(),
                    r@ == was,
                    forall|j: int| 0 <= j < k ==> !text_before(p@, #[trigger] texts(r@)[j]),
                decreases r@.len() - k,
            {
                k += 1;
            }
            proof {
                lemma_sorted_in(texts(was), p@, k as int);
            }
            r.insert(k, p);
            assert(texts(r@) =~= texts(was).insert(k as int, p@));
        }
        i += 1;
    }
    assert(entries@.take(i as int) =~= entries@);
    r
}

// ---------------------------------------------------------------------
// Laws
// ---------------------------------------------------------------------

/// Texts other than one.
pub open spec fn other_than(t: Seq<char>) -> spec_fn(Seq<char>) -> bool {
    |x: Seq<char>| x != t
}

proof fn lemma_without_is_the_others(v: Seq<Seq<char>>, t: Seq<char>)
    ensures
        without_text(v, t) == v.filter(other_than(t)),
    decreases v.len(),
{
    reveal(Seq::filter);
    if v.len() > 0 {
        lemma_without_is_the_others(v.drop_last(), t);
    }
}

/// Opening a page puts it before the other recent ones, which keep their
/// order, and of which only the last fall off the list.
pub proof fn law_recent_pages_keep_their_order(v: Seq<Seq<char>>, path: Seq<char>)
    ensures
        touched(v, path) == (seq![path] + v.filter(other_than(path))).take(
            if v.filter(other_than(path)).len() >= 20 {
                20
            } else {
                1 + v.filter(other_than(path)).len() as int
            },
        ),
{
    lemma_without_is_the_others(v, path);
    let all = seq![path] + v.filter(other_than(path));
    assert(all.take(all.len() as int) =~= all);
}

/// The chip comes where nothing else is said, follows the number of lines,
/// goes with the last of them, and drives no other message away.
pub proof fn law_the_chip_comes_and_goes(status: Seq<char>, warning: Seq<char>, n: nat, m: nat)
    requires
        n > 0,
    ensures
        matches_at(chip(warning, n), warning + " "@ + decimal(n) + " line(s) "@, 0),
        status_after_load(Seq::empty(), warning, n) == chip(warning, n),
        status_after_load(Seq::empty(), warning, 0).len() == 0,
        status_after_load(chip(warning, n), warning, m) == (if m == 0 {
            Seq::empty()
        } else {
            chip(warning, m)
        }),
        status.len() > 0 && !matches_at(status, warning + " "@, 0) ==> status_after_load(
            status,
            warning,
            m,
        ) == status,
        !occurs(status, "outside outl dialect"@) && status.len() > 0 ==> status_after_load(
            status,
            warning,
            m,
        ) == status,
{
    reveal_strlit(" ");
    reveal_strlit(" line(s) ");
    reveal_strlit("outside outl dialect");
    reveal_strlit(" line(s) outside outl dialect — preserved (open :warnings to see)");
    let c = chip(warning, n);
    let a = warning + " "@;
    let b = a + decimal(n);
    assert(c.subrange(0, a.len() as int) =~= a);
    assert(c.subrange(0, b.len() as int + 9) =~= b + " line(s) "@);
    let k = b.len() as int + 9;
    assert(c.subrange(k, k + 20) =~= "outside outl dialect"@);
    assert(matches_at(c, "outside outl dialect"@, k));
    assert(is_chip(c, warning));
    let none = Seq::<char>::empty();
    if is_chip(none, warning) {
        assert(matches_at(none, a, 0));
    }
}

/// The folded blocks are those listed as folded.
pub proof fn law_the_folded_are_listed_so(sidecar: Seq<(u128, bool)>, id: u128)
    ensures
        folded_ids(sidecar).contains(id) <==> exists|i: int|
            0 <= i < sidecar.len() && #[trigger] sidecar[i] == (id, true),
        ids_of(sidecar).len() == sidecar.len(),
        forall|i: int| 0 <= i < sidecar.len() ==> #[trigger] ids_of(sidecar)[i] == sidecar[i].0,
    decreases sidecar.len(),
{
    if sidecar.len() > 0 {
        let d = sidecar.drop_last();
        law_the_folded_are_listed_so(d, id);
        if folded_ids(d).contains(id) {
            let i = choose|i: int| 0 <= i < d.len() && #[trigger] d[i] == (id, true);
            assert(sidecar[i] == (id, true));
        }
        if exists|i: int| 0 <= i < sidecar.len() && #[trigger] sidecar[i] == (id, true) {
            let i = choose|i: int| 0 <= i < sidecar.len() && #[trigger] sidecar[i] == (id, true);
            if i < d.len() {
                assert(d[i] == (id, true));
            } else {
                assert(sidecar.last() == (id, true));
            }
        }
        if folded_ids(sidecar).contains(id) && !folded_ids(d).contains(id) {
            assert(sidecar[sidecar.len() - 1] == (id, true));
        }
    }
}

/// A page is a file whose name is a stem that does not begin with a dot, and
/// the extension.
pub proof fn law_pages_are_visible_notes(f: FileEntry)
    ensures
        is_page_file(f) <==> f.is_file && stem_of(f.path@) is Some && stem_of(f.path@)->0.len() > 0
            && stem_of(f.path@)->0[0] != '.' && file_name(f.path@) == stem_of(f.path@)->0 + ".md"@,
{
    reveal_strlit(".md");
    reveal_with_fuel(behind_last, 4);
    let name = file_name(f.path@);
    let n = name.len() as int;
    if is_page_file(f) {
        let end = name.skip(n - 3);
        assert(end[0] == name[n - 3] && end[1] == name[n - 2] && end[2] == name[n - 1]);
        assert(behind_last(name, '.', n) == n - 2);
        assert(stem_of(f.path@) == Some(name.take(n - 3)));
        assert(name =~= name.take(n - 3) + ".md"@);
    } else if f.is_file && stem_of(f.path@) is Some && stem_of(f.path@)->0.len() > 0
        && stem_of(f.path@)->0[0] != '.' && name == stem_of(f.path@)->0 + ".md"@ {
        assert(name.skip(n - 3) =~= ".md"@);
    }
}

/// No text of a list comes before an earlier one.
pub open spec fn in_text_order(v: Seq<Seq<char>>) -> bool {
    forall|i: int, j: int| 0 <= i < j < v.len() ==> !text_before(#[trigger] v[j], #[trigger] v[i])
}

proof fn lemma_sorted_in_order(v: Seq<Seq<char>>, t: Seq<char>)
    requires
        in_text_order(v),
    ensures
        in_text_order(sorted_in(v, t)),
        sorted_in(v, t).len() == v.len() + 1,
        forall|y: Seq<char>|
            #[trigger] sorted_in(v, t).contains(y) <==> y == t || v.contains(y),
    decreases v.len(),
{
    let s = sorted_in(v, t);
    if v.len() == 0 {
        assert(s[0] == t);
    } else if text_before(t, v[0]) {
        assert forall|i: int, j: int| 0 <= i < j < s.len() implies !text_before(
            #[trigger] s[j],
            #[trigger] s[i],
        ) by {
            assert(s[j] == v[j - 1]);
            if i == 0 {
                if j > 1 {
                    assert(!text_before(v[j - 1], v[0]));
                }
                lemma_text_order(t, v[0], t);
                lemma_text_order(t, v[0], v[j - 1]);
                lemma_text_order(v[j - 1], t, v[0]);
            } else {
                assert(s[i] == v[i - 1]);
            }
        }
        assert forall|y: Seq<char>| #[trigger] s.contains(y) <==> y == t || v.contains(y) by {
            if s.contains(y) {
                let k = choose|k: int| 0 <= k < s.len() && s[k] == y;
                if k > 0 {
                    assert(v[k - 1] == y);
                }
            }
            if v.contains(y) {
                let k = choose|k: int| 0 <= k < v.len() && v[k] == y;
                assert(s[k + 1] == y);
            }
            assert(s[0] == t);
        }
    } else {
        let d = v.drop_first();
        assert forall|i: int, j: int| 0 <= i < j < d.len() implies !text_before(
            #[trigger] d[j],
            #[trigger] d[i],
        ) by {
            assert(d[i] == v[i + 1] && d[j] == v[j + 1]);
        }
        lemma_sorted_in_order(d, t);
        let u = sorted_in(d, t);
        assert forall|y: Seq<char>| #[trigger] s.contains(y) <==> y == t || v.contains(y) by {
            if s.contains(y) {
                let k = choose|k: int| 0 <= k < s.len() && s[k] == y;
                if k > 0 {
                    assert(u[k - 1] == y);
                    assert(u.contains(y));
                    if d.contains(y) {
                        let m = choose|m: int| 0 <= m < d.len() && d[m] == y;
                        assert(v[m + 1] == y);
                    }
                } else {
                    assert(v[0] == y);
                }
            }
            if y == t || v.contains(y) {
                if v.contains(y) {
                    let m = choose|m: int| 0 <= m < v.len() && v[m] == y;
                    if m > 0 {
                        assert(d[m - 1] == y);
                        assert(d.contains(y));
                    } else {
                        assert(s[0] == y);
                    }
                }
                if u.contains(y) {
                    let k = choose|k: int| 0 <= k < u.len() && u[k] == y;
                    assert(s[k + 1] == y);
                }
            }
        }
        assert forall|i: int, j: int| 0 <= i < j < s.len() implies !text_before(
            #[trigger] s[j],
            #[trigger] s[i],
        ) by {
            assert(s[j] == u[j - 1]);
            if i == 0 {
                assert(u.contains(u[j - 1]));
                if u[j - 1] != t {
                    let k = choose|k: int| 0 <= k < d.len() && d[k] == u[j - 1];
                    assert(v[k + 1] == u[j - 1]);
                    assert(!text_before(v[k + 1], v[0]));
                }
            } else {
                assert(s[i] == u[i - 1]);
            }
        }
    }
}

/// The list of pages holds each page of the directory and nothing else, in text
/// order.
pub proof fn law_the_list_holds_every_page(v: Seq<FileEntry>)
    ensures
        in_text_order(pages_in(v)),
        forall|p: Seq<char>|
            #[trigger] pages_in(v).contains(p) <==> exists|i: int|
                0 <= i < v.len() && is_page_file(#[trigger] v[i]) && v[i].path@ == p,
        pages_in(v).len() <= v.len(),
    decreases v.len(),
{
    if v.len() > 0 {
        let d = v.drop_last();
        law_the_list_holds_every_page(d);
        let r = pages_in(d);
        if is_page_file(v.last()) {
            lemma_sorted_in_order(r, v.last().path@);
        }
        assert forall|p: Seq<char>|
            #[trigger] pages_in(v).contains(p) <==> exists|i: int|
                0 <= i < v.len() && is_page_file(#[trigger] v[i]) && v[i].path@ == p by {
            if r.contains(p) {
                let i = choose|i: int|
                    0 <= i < d.len() && is_page_file(#[trigger] d[i]) && d[i].path@ == p;
                assert(v[i] == d[i]);
            }
            if is_page_file(v.last()) && v.last().path@ == p {
                assert(v[v.len() - 1] == v.last());
            }
            if exists|i: int|
                0 <= i < v.len() && is_page_file(#[trigger] v[i]) && v[i].path@ == p {
                let i = choose|i: int|
                    0 <= i < v.len() && is_page_file(#[trigger] v[i]) && v[i].path@ == p;
                if i < d.len() {
                    assert(d[i] == v[i]);
                    assert(r.contains(p));
                }
            }
        }
    }
}

} // verus!

//! File paths as text, with `/` between their parts.

use crate::text::{cat, chars_of, opt_text, string_range};
use vstd::prelude::*;

verus! {

/// A name in a directory.
pub open spec fn joined_path(dir: Seq<char>, name: Seq<char>) -> Seq<char> {
    if dir.len() == 0 || dir.last() == '/' {
        dir + name
    } else {
        dir + "/"@ + name
    }
}

/// A name in a directory.
pub fn join_path(dir: &str, name: &str) -> (r: String)
    ensures
        r@ == joined_path(dir@, name@),
{
    let v = chars_of(dir);
    if v.len() == 0 || v[v.len() - 1] == '/' {
        cat(dir, name)
    } else {
        crate::text::cat3(dir, "/", name)
    }
}

/// The place behind the last `c` before `hi`, or 0.
pub open spec fn behind_last(s: Seq<char>, c: char, hi: int) -> int
    decreases hi,
{
    if hi <= 0 {
        0
    } else if s[hi - 1] == c {
        hi
    } else {
        behind_last(s, c, hi - 1)
    }
}

fn last_behind(v: &[char], c: char, hi: usize) -> (i: usize)
    requires
        hi <= v@.len(),
    ensures
        i == behind_last(v@, c, hi as int),
        i <= hi,
{
    let mut i: usize = hi;
    while i > 0 && v[i - 1] != c
        invariant
            i <= hi <= v@.len(),
            behind_last(v@, c, hi as int) == behind_last(v@, c, i as int),
        decreases i,
    {
        i -= 1;
    }
    i
}

/// The last part of a path.
pub open spec fn file_name(p: Seq<char>) -> Seq<char> {
    p.skip(behind_last(p, '/', p.len() as int))
}

/// The last part of a path.
pub fn last_part(p: &str) -> (r: String)
    ensures
        r@ == file_name(p@),
{
    let v = chars_of(p);
    let lo: usize = last_behind(&v, '/', v.len());
    let r = string_range(&v, lo, v.len());
    assert(r@ =~= file_name(p@));
    r
}

/// The name of a file without its extension. A name that begins with its only
/// dot has none, and neither an empty name nor `..` names a file.
pub open spec fn stem_of(p: Seq<char>) -> Option<Seq<char>> {
    let name = file_name(p);
    let dot = behind_last(name, '.', name.len() as int);
    if name.len() == 0 || name == seq!['.', '.'] {
        None
    } else if dot <= 1 {
        Some(name)
    } else {
        Some(name.take(dot - 1))
    }
}

/// The name of a file without its extension.
pub fn file_stem(p: &str) -> (r: Option<String>)
    ensures
        opt_text(r) == stem_of(p@),
{
    let name = chars_of(last_part(p).as_str());
    if name.len() == 0 {
        return None;
    }
    if name.len() == 2 && name[0] == '.' && name[1] == '.' {
        assert(name@ =~= seq!['.', '.']);
        return None;
    }
    let dot: usize = last_behind(&name, '.', name.len());
    if dot <= 1 {
        let r = string_range(&name, 0, name.len());
        assert(r@ =~= name@);
        Some(r)
    } else {
        let r = string_range(&name, 0, dot - 1);
        assert(r@ =~= name@.take(dot - 1));
        Some(r)
    }
}

/// The name of the directory that a file is in.
pub open spec fn parent_name(p: Seq<char>) -> Seq<char> {
    let slash = behind_last(p, '/', p.len() as int);
    if slash == 0 {
        Seq::empty()
    } else {
        file_name(p.take(slash - 1))
    }
}

/// The name of the directory that a file is in.
pub fn parent_dir_name(p: &str) -> (r: String)
    ensures
        r@ == parent_name(p@),
{
    let v = chars_of(p);
    let slash: usize = last_behind(&v, '/', v.len());
    if slash == 0 {
        return String::new();
    }
    let dir = string_range(&v, 0, slash - 1);
    assert(dir@ =~= p@.take(slash - 1));
    last_part(dir.as_str())
}

proof fn lemma_behind_last(s: Seq<char>, c: char, hi: int)
    requires
        0 <= hi <= s.len(),
    ensures
        0 <= behind_last(s, c, hi) <= hi,
        forall|j: int| behind_last(s, c, hi) <= j < hi ==> s[j] != c,
        behind_last(s, c, hi) > 0 ==> s[behind_last(s, c, hi) - 1] == c,
    decreases hi,
{
    if hi > 0 {
        lemma_behind_last(s, c, hi - 1);
    }
}

/// The stem of a file in a directory is its name, where the name holds no
/// slash and no dot.
pub proof fn law_stem_of_joined(dir: Seq<char>, stem: Seq<char>)
    requires
        stem.len() > 0,
        forall|j: int| 0 <= j < stem.len() ==> stem[j] != '/' && stem[j] != '.',
    ensures
        stem_of(joined_path(dir, stem + ".md"@)) == Some(stem),
{
    reveal_strlit(".md");
    reveal_strlit("/");
    let name = stem + ".md"@;
    let p = joined_path(dir, name);
    let at = p.len() - name.len();
    assert(p.skip(at) =~= name);
    assert forall|j: int| 0 <= j < name.len() implies name[j] != '/' by {
        if j >= stem.len() {
            assert(name[j] == ".md"@[j - stem.len()]);
        }
    }
    assert(behind_last(p, '/', p.len() as int) == at) by {
        lemma_behind_last(p, '/', p.len() as int);
        let b = behind_last(p, '/', p.len() as int);
        if b > at {
            assert(p[b - 1] == name[b - 1 - at]);
        }
        if b < at {
            assert(p[at - 1] == '/');
        }
    }
    assert(file_name(p) == name);
    let dot = behind_last(name, '.', name.len() as int);
    lemma_behind_last(name, '.', name.len() as int);
    assert(name[stem.len() as int] == '.');
    assert(name[stem.len() + 1int] == 'm');
    assert(name[stem.len() + 2int] == 'd');
    assert(dot == stem.len() + 1);
    assert(name != seq!['.', '.']);
    assert(name.take(dot - 1) =~= stem);
}

/// The directory of a file is the one it was joined to, where the name holds
/// no slash.
pub proof fn law_parent_of_joined(root: Seq<char>, dir: Seq<char>, name: Seq<char>)
    requires
        dir.len() > 0,
        forall|j: int| 0 <= j < dir.len() ==> dir[j] != '/',
        forall|j: int| 0 <= j < name.len() ==> name[j] != '/',
    ensures
        parent_name(joined_path(joined_path(root, dir), name)) == dir,
{
    reveal_strlit("/");
    let d = joined_path(root, dir);
    let p = joined_path(d, name);
    let at = d.len() - dir.len();
    assert(d.skip(at) =~= dir);
    assert(d.last() == dir.last());
    assert(d.last() != '/');
    assert(p =~= d.push('/') + name);
    lemma_behind_last(p, '/', p.len() as int);
    let slash = behind_last(p, '/', p.len() as int);
    assert(p[d.len() as int] == '/');
    if slash > d.len() + 1 {
        assert(p[slash - 1] == name[slash - 1 - (d.len() + 1)]);
    }
    assert(slash == d.len() + 1);
    assert(p.take(slash - 1) =~= d);
    lemma_behind_last(d, '/', d.len() as int);
    let b = behind_last(d, '/', d.len() as int);
    if b > at {
        assert(d[b - 1] == dir[b - 1 - at]);
    }
    if b < at {
        assert(d[at - 1] == '/');
    }
}

/// A path is a directory and a name without a slash, which is what follows the
/// last slash.
pub proof fn law_the_name_follows_the_last_slash(p: Seq<char>, dir: Seq<char>, name: Seq<char>)
    requires
        !name.contains('/'),
    ensures
        file_name(name) == name,
        file_name(dir + seq!['/'] + name) == name,
        parent_name(dir + seq!['/'] + name) == file_name(dir),
        parent_name(name).len() == 0,
        !file_name(p).contains('/'),
{
    let s = dir + seq!['/'] + name;
    lemma_behind_last(s, '/', s.len() as int);
    lemma_behind_last(name, '/', name.len() as int);
    lemma_behind_last(p, '/', p.len() as int);
    let k = behind_last(s, '/', s.len() as int);
    assert(s[dir.len() as int] == '/');
    if k > dir.len() + 1 {
        assert(name[k - 1 - dir.len() - 1] == '/');
    }
    assert(k == dir.len() + 1);
    assert(s.skip(k) =~= name);
    assert(s.take(k - 1) =~= dir);
    let m = behind_last(name, '/', name.len() as int);
    if m > 0 {
        assert(name[m - 1] == '/');
    }
    assert(name.skip(0) =~= name);
    let q = behind_last(p, '/', p.len() as int);
    if p.skip(q).contains('/') {
        let j = choose|j: int| 0 <= j < p.skip(q).len() && p.skip(q)[j] == '/';
        assert(p[q + j] == '/');
    }
}

} // verus!

//! The line being edited: its characters and the insertion point.

use crate::text::{chars_of, string_of};
use vstd::prelude::*;

verus! {

/// The characters of the edit in progress and the caret between them.
#[derive(Debug)]
pub struct EditBuffer {
    pub chars: Vec<char>,
    pub cursor: usize,
}

/// An edit as a value.
pub ghost struct EditView {
    pub chars: Seq<char>,
    pub cursor: int,
}

impl View for EditBuffer {
    type V = EditView;

    open spec fn view(&self) -> EditView {
        EditView { chars: self.chars@, cursor: self.cursor as int }
    }
}

impl EditView {
    /// The caret stands within the text or at its end.
    pub open spec fn wf(self) -> bool {
        0 <= self.cursor <= self.chars.len()
    }

    /// Without the `n` characters before the caret, or as many as there are.
    pub open spec fn without_before(self, n: int) -> EditView {
        let k = if n < self.cursor {
            n
        } else {
            self.cursor
        };
        EditView {
            chars: self.chars.take(self.cursor - k) + self.chars.skip(self.cursor),
            cursor: self.cursor - k,
        }
    }

    /// With `s` inserted at the caret, which ends up behind it.
    pub open spec fn with_inserted(self, s: Seq<char>) -> EditView {
        EditView {
            chars: self.chars.take(self.cursor) + s + self.chars.skip(self.cursor),
            cursor: self.cursor + s.len(),
        }
    }
}

impl EditBuffer {
    /// An edit of `text` with the caret at its end.
    pub fn from_text(text: &str) -> (b: EditBuffer)
        ensures
            b@ == (EditView { chars: text@, cursor: text@.len() as int }),
            b@.wf(),
    {
        let chars = chars_of(text);
        let cursor: usize = chars.len();
        EditBuffer { chars, cursor }
    }

    /// The text of the edit.
    pub fn as_string(&self) -> (s: String)
        ensures
            s@ == self@.chars,
    {
        string_of(&self.chars)
    }

    /// Deletes the character before the caret.
    pub fn delete_back(&mut self)
        requires
            old(self)@.wf(),
        ensures
            final(self)@ == old(self)@.without_before(1),
            final(self)@.wf(),
    {
        if self.cursor > 0 {
            self.chars.remove(self.cursor - 1);
            self.cursor -= 1;
        }
        assert(self@.chars =~= old(self)@.without_before(1).chars);
    }

    /// Deletes `n` characters before the caret.
    pub fn delete_back_by(&mut self, n: usize)
        requires
            old(self)@.wf(),
        ensures
            final(self)@ == old(self)@.without_before(n as int),
            final(self)@.wf(),
    {
        let mut i: usize = 0;
        assert(self@.chars =~= old(self)@.without_before(0).chars);
        while i < n
            invariant
                i <= n,
                old(self)@.wf(),
                self@.wf(),
                self@ == old(self)@.without_before(i as int),
            decreases n - i,
        {
            self.delete_back();
            i += 1;
            assert(self@.chars =~= old(self)@.without_before(i as int).chars);
        }
    }

    /// Inserts a text at the caret.
    pub fn insert_str(&mut self, s: &str)
        requires
            old(self)@.wf(),
            old(self)@.chars.len() + s@.len() <= usize::MAX,
        ensures
            final(self)@ == old(self)@.with_inserted(s@),
            final(self)@.wf(),
    {
        let new = chars_of(s);
        let mut k: usize = 0;
        assert(self@.chars =~= old(self)@.with_inserted(s@.take(0)).chars);
        while k < new.len()
            invariant
                k <= new@.len(),
                new@ == s@,
                old(self)@.wf(),
                old(self)@.chars.len() + s@.len() <= usize::MAX,
                self@ == old(self)@.with_inserted(s@.take(k as int)),
            decreases new@.len() - k,
        {
            self.chars.insert(self.cursor, new[k]);
            self.cursor += 1;
            k += 1;
            assert(self@.chars =~= old(self)@.with_inserted(s@.take(k as int)).chars);
        }
        assert(s@.take(k as int) =~= s@);
    }
}

/// What is inserted can be deleted again: the edit is as it was.
pub proof fn law_delete_undoes_insert(e: EditView, s: Seq<char>)
    requires
        e.wf(),
    ensures
        e.with_inserted(s).without_before(s.len() as int) == e,
{
    let f = e.with_inserted(s).without_before(s.len() as int);
    assert(f.chars =~= e.chars);
}

/// Deleting takes away what stands before the cursor and leaves what stands
/// behind it; typing leaves both and puts the cursor behind what was typed.
pub proof fn law_edits_happen_before_the_cursor(e: EditView, n: int, s: Seq<char>)
    requires
        e.wf(),
        n >= 0,
    ensures
        e.without_before(n).wf() && e.with_inserted(s).wf(),
        e.without_before(n).chars.skip(e.without_before(n).cursor) == e.chars.skip(e.cursor),
        e.without_before(n).chars.take(e.without_before(n).cursor) == e.chars.take(
            if n < e.cursor {
                e.cursor - n
            } else {
                0
            },
        ),
        e.with_inserted(s).chars.skip(e.with_inserted(s).cursor) == e.chars.skip(e.cursor),
        e.with_inserted(s).chars.take(e.with_inserted(s).cursor) == e.chars.take(e.cursor) + s,
{
    let d = e.without_before(n);
    let i = e.with_inserted(s);
    assert(d.chars.skip(d.cursor) =~= e.chars.skip(e.cursor));
    assert(d.chars.take(d.cursor) =~= e.chars.take(d.cursor));
    assert(i.chars.skip(i.cursor) =~= e.chars.skip(e.cursor));
    assert(i.chars.take(i.cursor) =~= e.chars.take(e.cursor) + s);
}

} // verus!

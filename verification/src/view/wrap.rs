//! Width-aware word wrapping of styled spans for the outline.
//!
//! A row that runs past the pane would vanish off its right edge, and a
//! wrap that happens after layout would put the scroll offset out of step
//! with the rows. So rows are wrapped up front. Wrapping happens after the
//! inline markup has become styled spans: a break never turns a `**bold**`
//! token back into literal asterisks.

use crate::style::{
    extend_spans, lemma_lines_push, lemma_spans_push, lines_view, no_style, span, spans_view, Line,
    Span, SpanView, Style,
};
use crate::text::{chars_of, repeat, repeated, string_of};
use vstd::prelude::*;

verus! {

// ---------------------------------------------------------------------
// Display widths
// ---------------------------------------------------------------------

/// The name of `UnicodeWidthChar::width` of a character.
pub uninterp spec fn width_of_char(c: char) -> Option<usize>;

/// `UnicodeWidthChar::width` of the `unicode-width` crate: the columns a
/// character takes, or nothing for a control character. Printable ASCII
/// takes one, and no character takes more than three.
#[verifier::external_body]
fn char_width(c: char) -> (w: Option<usize>)
    ensures
        w == width_of_char(c),
        ' ' <= c < '\u{7f}' ==> w == Some(1usize),
        c < ' ' || '\u{7f}' <= c < '\u{a0}' ==> w is None,
        w matches Some(n) ==> n <= 3,
{
    unicode_width::UnicodeWidthChar::width(c)
}

/// The name of `UnicodeWidthStr::width` of a string.
pub uninterp spec fn width_of_text(s: Seq<char>) -> nat;

/// `UnicodeWidthStr::width` of the `unicode-width` crate: the columns a
/// string takes. A string of printable ASCII takes one column a character.
#[verifier::external_body]
pub(crate) fn text_width(s: &str) -> (w: usize)
    ensures
        w == width_of_text(s@),
        (forall|i: int| 0 <= i < s@.len() ==> ' ' <= #[trigger] s@[i] < '\u{7f}') ==> w
            == s@.len(),
{
    unicode_width::UnicodeWidthStr::width(s)
}

/// The columns a character adds to a row; a control character adds none.
pub open spec fn columns(c: char) -> int {
    match width_of_char(c) {
        Some(n) => n as int,
        None => 0,
    }
}

fn columns_of(c: char) -> (w: usize)
    ensures
        w == columns(c),
        w <= 3,
        c == ' ' ==> w == 1,
{
    match char_width(c) {
        Some(n) => n,
        None => 0,
    }
}

/// The columns of a sequence of spans, up to the largest `usize`.
pub open spec fn spans_columns(spans: Seq<SpanView>) -> int
    decreases spans.len(),
{
    if spans.len() == 0 {
        0
    } else {
        capped(spans_columns(spans.drop_last()) + width_of_text(spans.last().text))
    }
}

/// `n`, or the largest `usize` if that is smaller.
pub open spec fn capped(n: int) -> int {
    if n > usize::MAX {
        usize::MAX as int
    } else {
        n
    }
}

/// Spans take no less than no columns.
pub proof fn lemma_columns_of_spans(spans: Seq<SpanView>)
    ensures
        0 <= spans_columns(spans) <= usize::MAX,
    decreases spans.len(),
{
    if spans.len() > 0 {
        lemma_columns_of_spans(spans.drop_last());
    }
}

/// The columns of a sequence of spans.
pub fn spans_width(spans: &[Span]) -> (w: usize)
    ensures
        w == spans_columns(spans_view(spans@)),
{
    let mut w: usize = 0;
    let mut i: usize = 0;
    while i < spans.len()
        invariant
            i <= spans@.len(),
            w == spans_columns(spans_view(spans@).take(i as int)),
        decreases spans@.len() - i,
    {
        assert(spans_view(spans@).take(i + 1).drop_last() =~= spans_view(spans@).take(i as int));
        w = w.saturating_add(text_width(spans[i].text.as_str()));
        i += 1;
    }
    assert(spans_view(spans@).take(i as int) =~= spans_view(spans@));
    w
}

// ---------------------------------------------------------------------
// Cells
// ---------------------------------------------------------------------

/// A character with the style it is painted in.
#[derive(Clone, Copy, PartialEq, Eq, Structural, Debug)]
pub struct Cell {
    pub ch: char,
    pub style: Style,
}

/// The cell of a character in a style.
pub open spec fn cell(ch: char, style: Style) -> Cell {
    Cell { ch, style }
}

/// The cells of a text in one style.
pub open spec fn cells_in(text: Seq<char>, style: Style) -> Seq<Cell> {
    text.map_values(|c: char| cell(c, style))
}

/// The cells of one span.
pub open spec fn cells_of_span(s: SpanView) -> Seq<Cell> {
    cells_in(s.text, s.style)
}

proof fn lemma_span_cells(s: SpanView)
    ensures
        cells_of_span(s).len() == s.text.len(),
        forall|i: int|
            0 <= i < s.text.len() ==> #[trigger] cells_of_span(s)[i] == (Cell {
                ch: s.text[i],
                style: s.style,
            }),
{
}

/// The cells of a sequence of spans.
pub open spec fn cells_of(spans: Seq<SpanView>) -> Seq<Cell>
    decreases spans.len(),
{
    if spans.len() == 0 {
        Seq::empty()
    } else {
        cells_of(spans.drop_last()) + cells_of_span(spans.last())
    }
}

/// The cells of a sequence of spans, so that a break can fall anywhere
/// while each character keeps its style.
pub fn flatten(spans: &[Span]) -> (cells: Vec<Cell>)
    ensures
        cells@ == cells_of(spans_view(spans@)),
{
    let mut cells: Vec<Cell> = Vec::new();
    let mut i: usize = 0;
    while i < spans.len()
        invariant
            i <= spans@.len(),
            cells@ == cells_of(spans_view(spans@).take(i as int)),
        decreases spans@.len() - i,
    {
        let chars = chars_of(spans[i].text.as_str());
        let style = spans[i].style;
        let ghost before = cells@;
        let ghost sv = spans_view(spans@)[i as int];
        proof {
            lemma_span_cells(sv);
        }
        let mut k: usize = 0;
        while k < chars.len()
            invariant
                cells_of_span(sv).len() == sv.text.len(),
                forall|i: int|
                    0 <= i < sv.text.len() ==> #[trigger] cells_of_span(sv)[i] == (Cell {
                        ch: sv.text[i],
                        style: sv.style,
                    }),
                k <= chars@.len(),
                chars@ == sv.text,
                style == sv.style,
                cells@ == before + cells_of_span(sv).take(k as int),
            decreases chars@.len() - k,
        {
            assert(cells_of_span(sv)[k as int] == cell(chars@[k as int], style));
            assert(cells_of_span(sv).take(k + 1) =~= cells_of_span(sv).take(k as int).push(
                cell(chars@[k as int], style),
            ));
            cells.push(Cell { ch: chars[k], style });
            k += 1;
            assert(cells@ =~= before + cells_of_span(sv).take(k as int));
        }
        assert(cells_of_span(sv).take(k as int) =~= cells_of_span(sv));
        assert(spans_view(spans@).take(i + 1).drop_last() =~= spans_view(spans@).take(i as int));
        i += 1;
    }
    assert(spans_view(spans@).take(i as int) =~= spans_view(spans@));
    cells
}

/// Cells joined into the fewest spans: neighbours of one style share one.
pub open spec fn coalesced(cells: Seq<Cell>) -> Seq<SpanView>
    decreases cells.len(),
{
    if cells.len() == 0 {
        Seq::empty()
    } else {
        let rest = coalesced(cells.drop_last());
        let c = cells.last();
        if rest.len() > 0 && rest.last().style == c.style {
            rest.drop_last().push(span(rest.last().text.push(c.ch), c.style))
        } else {
            rest.push(span(seq![c.ch], c.style))
        }
    }
}

/// Cells joined into the fewest spans.
pub fn rebuild_spans(cells: &[Cell]) -> (spans: Vec<Span>)
    ensures
        spans_view(spans@) == coalesced(cells@),
{
    let mut spans: Vec<Span> = Vec::new();
    let mut buf: Vec<char> = Vec::new();
    let mut i: usize = 0;
    while i < cells.len()
        invariant
            i <= cells@.len(),
            i == 0 ==> spans@.len() == 0 && buf@.len() == 0,
            i > 0 ==> coalesced(cells@.take(i as int)) == spans_view(spans@).push(
                span(buf@, cells@[i - 1].style),
            ),
        decreases cells@.len() - i,
    {
        let c = cells[i];
        let ghost done = cells@.take(i as int);
        assert(cells@.take(i + 1).drop_last() =~= done);
        if i > 0 && cells[i - 1].style == c.style {
            proof {
                let r = coalesced(done);
                assert(r.drop_last() =~= spans_view(spans@));
            }
            buf.push(c.ch);
        } else {
            if i > 0 {
                let text = string_of(&buf);
                let s = Span { text, style: cells[i - 1].style };
                proof {
                    lemma_spans_push(spans@, s);
                }
                spans.push(s);
            }
            buf = Vec::new();
            buf.push(c.ch);
            assert(buf@ =~= seq![c.ch]);
            proof {
                assert(spans_view(spans@) =~= coalesced(done));
            }
        }
        i += 1;
    }
    if i > 0 {
        let text = string_of(&buf);
        let s = Span { text, style: cells[i - 1].style };
        proof {
            lemma_spans_push(spans@, s);
        }
        spans.push(s);
    }
    assert(cells@.take(i as int) =~= cells@);
    assert(spans_view(spans@) =~= coalesced(cells@));
    spans
}

// ---------------------------------------------------------------------
// Wrapping
// ---------------------------------------------------------------------

/// The cell the cursor is painted on.
pub open spec fn is_cursor(cell: Cell, cursor: Option<Style>) -> bool {
    cursor == Some(cell.style)
}

/// Whether this is the cell the cursor is painted on.
pub fn carries_cursor(cell: Cell, cursor: Option<Style>) -> (r: bool)
    ensures
        r == is_cursor(cell, cursor),
{
    match cursor {
        Some(style) => cell.style == style,
        None => false,
    }
}

/// A space that separates words: one the cursor is on is not a separator.
pub open spec fn is_separator(cell: Cell, cursor: Option<Style>) -> bool {
    cell.ch == ' ' && !is_cursor(cell, cursor)
}

/// Cells without the separators they end with.
pub open spec fn trimmed(cells: Seq<Cell>, cursor: Option<Style>) -> Seq<Cell>
    decreases cells.len(),
{
    if cells.len() > 0 && is_separator(cells.last(), cursor) {
        trimmed(cells.drop_last(), cursor)
    } else {
        cells
    }
}

/// The columns of a sequence of cells.
pub open spec fn cells_columns(cells: Seq<Cell>) -> int
    decreases cells.len(),
{
    if cells.len() == 0 {
        0
    } else {
        cells_columns(cells.drop_last()) + columns(cells.last().ch)
    }
}

/// The rows that are full, the row being filled, and the columns counted
/// against that row.
pub ghost struct Filling {
    pub rows: Seq<Seq<Cell>>,
    pub cur: Seq<Cell>,
    pub width: int,
}

/// A space goes on the row if it fits. If not, the row is full: a
/// separator is dropped, and a space under the cursor opens the next row.
pub open spec fn place_space(f: Filling, cell: Cell, max: int, cursor: Option<Style>) -> Filling {
    let w = columns(cell.ch);
    if f.width + w <= max {
        Filling { cur: f.cur.push(cell), width: f.width + w, ..f }
    } else if is_cursor(cell, cursor) {
        Filling { rows: f.rows.push(f.cur), cur: seq![cell], width: w }
    } else {
        Filling { rows: f.rows.push(f.cur), cur: Seq::empty(), width: 0 }
    }
}

/// The row closed without the separators it ends with; no empty row is
/// closed, and then the columns counted against it stay counted.
pub open spec fn closed_row(f: Filling, cursor: Option<Style>) -> Filling {
    let t = trimmed(f.cur, cursor);
    if t.len() > 0 {
        Filling { rows: f.rows.push(t), cur: Seq::empty(), width: 0 }
    } else {
        Filling { cur: t, ..f }
    }
}

/// A word too long for a row, broken at the edge of each row.
pub open spec fn broken(f: Filling, word: Seq<Cell>, max: int) -> Filling
    decreases word.len(),
{
    if word.len() == 0 {
        f
    } else {
        let w = columns(word[0].ch);
        let g = if f.width + w > max && f.cur.len() > 0 {
            Filling { rows: f.rows.push(f.cur), cur: Seq::empty(), width: 0 }
        } else {
            f
        };
        broken(
            Filling { cur: g.cur.push(word[0]), width: g.width + w, ..g },
            word.drop_first(),
            max,
        )
    }
}

/// A word goes on the row if it fits, else on a row of its own if it fits
/// there, and else it is broken.
pub open spec fn place_word(
    f: Filling,
    word: Seq<Cell>,
    max: int,
    cursor: Option<Style>,
) -> Filling {
    let w = cells_columns(word);
    if f.width + w <= max {
        Filling { cur: f.cur + word, width: f.width + w, ..f }
    } else if w <= max {
        Filling { cur: word, width: w, ..closed_row(f, cursor) }
    } else {
        broken(closed_row(f, cursor), word, max)
    }
}

/// The number of cells before the first space.
pub open spec fn word_len(cells: Seq<Cell>) -> nat
    decreases cells.len(),
{
    if cells.len() == 0 || cells[0].ch == ' ' {
        0
    } else {
        1 + word_len(cells.drop_first())
    }
}

proof fn lemma_word_len(cells: Seq<Cell>)
    ensures
        word_len(cells) <= cells.len(),
        cells.len() > 0 && cells[0].ch != ' ' ==> word_len(cells) > 0,
    decreases cells.len(),
{
    if cells.len() > 0 && cells[0].ch != ' ' {
        lemma_word_len(cells.drop_first());
    }
}

/// Spaces and words placed one after the other.
pub open spec fn filled(f: Filling, cells: Seq<Cell>, max: int, cursor: Option<Style>) -> Filling
    decreases cells.len(),
{
    if cells.len() == 0 {
        f
    } else if cells[0].ch == ' ' {
        filled(place_space(f, cells[0], max, cursor), cells.drop_first(), max, cursor)
    } else {
        let n = word_len(cells);
        if 0 < n <= cells.len() {
            filled(
                place_word(f, cells.take(n as int), max, cursor),
                cells.skip(n as int),
                max,
                cursor,
            )
        } else {
            f
        }
    }
}

/// Nothing placed yet.
pub open spec fn nothing() -> Filling {
    Filling { rows: Seq::empty(), cur: Seq::empty(), width: 0 }
}

/// The rows of a greedy word wrap at `max` columns.
pub open spec fn wrapped(cells: Seq<Cell>, max: int, cursor: Option<Style>) -> Seq<Seq<Cell>> {
    closed_row(filled(nothing(), cells, max, cursor), cursor).rows
}

/// The cells of a list of rows.
pub open spec fn rows_view(v: Seq<Vec<Cell>>) -> Seq<Seq<Cell>> {
    v.map_values(|r: Vec<Cell>| r@)
}

proof fn lemma_rows_push(v: Seq<Vec<Cell>>, r: Vec<Cell>)
    ensures
        rows_view(v.push(r)) == rows_view(v).push(r@),
{
    assert(rows_view(v.push(r)) =~= rows_view(v).push(r@));
}

/// Drops the separators a row ends with. A space the cursor is on is no
/// separator: trimming stops there, or the cursor would leave the screen.
pub fn trim_trailing_spaces(cells: &mut Vec<Cell>, cursor: Option<Style>)
    ensures
        final(cells)@ == trimmed(old(cells)@, cursor),
{
    while cells.len() > 0 && cells[cells.len() - 1].ch == ' ' && !carries_cursor(
        cells[cells.len() - 1],
        cursor,
    )
        invariant
            trimmed(cells@, cursor) == trimmed(old(cells)@, cursor),
        decreases cells@.len(),
    {
        cells.pop();
    }
}

/// The rows so far, while they are being filled.
struct Fill {
    rows: Vec<Vec<Cell>>,
    cur: Vec<Cell>,
    width: usize,
}

impl Fill {
    spec fn value(self) -> Filling {
        Filling { rows: rows_view(self.rows@), cur: self.cur@, width: self.width as int }
    }

    /// The columns counted against the row exceed it by one wide character
    /// at most, and only when such a character ends it.
    spec fn fits(self, max: usize, cursor: Option<Style>) -> bool {
        &&& self.width <= max + 3
        &&& self.cur@.len() == 0 || is_separator(self.cur@.last(), cursor) ==> self.width <= max
    }

    fn break_row(&mut self)
        ensures
            final(self).value() == (Filling {
                rows: old(self).value().rows.push(old(self).value().cur),
                cur: Seq::empty(),
                width: 0,
            }),
    {
        let mut row: Vec<Cell> = Vec::new();
        std::mem::swap(&mut row, &mut self.cur);
        proof {
            lemma_rows_push(self.rows@, row);
        }
        self.rows.push(row);
        self.width = 0;
    }

    fn space(&mut self, cell: Cell, max: usize, cursor: Option<Style>)
        requires
            max + 3 <= usize::MAX,
            cell.ch == ' ',
            old(self).fits(max, cursor),
        ensures
            final(self).value() == place_space(old(self).value(), cell, max as int, cursor),
            final(self).fits(max, cursor),
    {
        let w: usize = columns_of(cell.ch);
        if w <= max && self.width <= max - w {
            self.cur.push(cell);
            self.width += w;
        } else if carries_cursor(cell, cursor) {
            self.break_row();
            self.cur.push(cell);
            self.width = w;
            assert(self.cur@ =~= seq![cell]);
        } else {
            self.break_row();
        }
    }

    fn close_row(&mut self, max: usize, cursor: Option<Style>)
        requires
            old(self).fits(max, cursor),
        ensures
            final(self).value() == closed_row(old(self).value(), cursor),
            final(self).width <= max,
            final(self).cur@.len() == 0,
    {
        trim_trailing_spaces(&mut self.cur, cursor);
        if self.cur.len() > 0 {
            self.break_row();
        }
    }

    fn break_word(&mut self, word: &Vec<Cell>, max: usize, cursor: Option<Style>)
        requires
            max + 3 <= usize::MAX,
            old(self).fits(max, cursor),
            forall|i: int| 0 <= i < word@.len() ==> (#[trigger] word@[i]).ch != ' ',
        ensures
            final(self).value() == broken(old(self).value(), word@, max as int),
            final(self).fits(max, cursor),
    {
        let mut k: usize = 0;
        assert(word@.skip(0) =~= word@);
        while k < word.len()
            invariant
                k <= word@.len(),
                max + 3 <= usize::MAX,
                self.fits(max, cursor),
                forall|i: int| 0 <= i < word@.len() ==> (#[trigger] word@[i]).ch != ' ',
                broken(old(self).value(), word@, max as int) == broken(
                    self.value(),
                    word@.skip(k as int),
                    max as int,
                ),
            decreases word@.len() - k,
        {
            let cell = word[k];
            let w: usize = columns_of(cell.ch);
            assert(word@.skip(k as int)[0] == cell);
            assert(word@.skip(k as int).drop_first() =~= word@.skip(k + 1));
            let over = w > max || self.width > max - w;
            if over && self.cur.len() > 0 {
                self.break_row();
            }
            self.cur.push(cell);
            self.width += w;
            k += 1;
        }
        assert(word@.skip(k as int).len() == 0);
    }

    fn word(&mut self, word: Vec<Cell>, max: usize, cursor: Option<Style>)
        requires
            max + 3 <= usize::MAX,
            old(self).fits(max, cursor),
            word@.len() > 0,
            forall|i: int| 0 <= i < word@.len() ==> (#[trigger] word@[i]).ch != ' ',
        ensures
            final(self).value() == place_word(old(self).value(), word@, max as int, cursor),
            final(self).fits(max, cursor),
    {
        let mut word = word;
        let w: usize = word_columns(&word);
        if w <= max && self.width <= max - w {
            self.cur.append(&mut word);
            self.width += w;
        } else if w <= max {
            self.close_row(max, cursor);
            self.cur = word;
            self.width = w;
        } else {
            self.close_row(max, cursor);
            self.break_word(&word, max, cursor);
        }
    }
}

proof fn lemma_columns_nonnegative(cells: Seq<Cell>)
    ensures
        cells_columns(cells) >= 0,
    decreases cells.len(),
{
    if cells.len() > 0 {
        lemma_columns_nonnegative(cells.drop_last());
    }
}

/// The columns of a word, up to the largest `usize`.
fn word_columns(word: &Vec<Cell>) -> (w: usize)
    ensures
        w == capped(cells_columns(word@)),
{
    let mut w: usize = 0;
    let mut i: usize = 0;
    while i < word.len()
        invariant
            i <= word@.len(),
            w == capped(cells_columns(word@.take(i as int))),
        decreases word@.len() - i,
    {
        assert(word@.take(i + 1).drop_last() =~= word@.take(i as int));
        proof {
            lemma_columns_nonnegative(word@.take(i as int));
        }
        w = w.saturating_add(columns_of(word[i].ch));
        i += 1;
    }
    assert(word@.take(i as int) =~= word@);
    w
}

/// The end of the word that starts at `i`, and the word itself.
fn take_word(cells: &Vec<Cell>, i: usize) -> (r: (usize, Vec<Cell>))
    requires
        i < cells@.len(),
        cells@[i as int].ch != ' ',
    ensures
        i < r.0 <= cells@.len(),
        r.0 == i + word_len(cells@.skip(i as int)),
        r.1@ == cells@.skip(i as int).take(r.0 - i),
        forall|j: int| 0 <= j < r.1@.len() ==> (#[trigger] r.1@[j]).ch != ' ',
{
    let mut word: Vec<Cell> = Vec::new();
    let mut k: usize = i;
    while k < cells.len() && cells[k].ch != ' '
        invariant
            i <= k <= cells@.len(),
            word@ == cells@.subrange(i as int, k as int),
            word_len(cells@.skip(i as int)) == (k - i) + word_len(cells@.skip(k as int)),
            forall|j: int| 0 <= j < word@.len() ==> (#[trigger] word@[j]).ch != ' ',
        decreases cells@.len() - k,
    {
        assert(cells@.skip(k as int).drop_first() =~= cells@.skip(k + 1));
        word.push(cells[k]);
        k += 1;
        assert(word@ =~= cells@.subrange(i as int, k as int));
    }
    assert(word_len(cells@.skip(k as int)) == 0);
    proof {
        lemma_word_len(cells@.skip(i as int));
    }
    assert(word@ =~= cells@.skip(i as int).take(k - i));
    (k, word)
}

/// Greedy word wrap of cells into rows no wider than `max` columns.
///
/// A word is a run of cells that are not spaces. The spaces between words
/// are separators, which a row neither ends nor begins with: those at a
/// break are dropped. A word longer than `max` is broken at the edge.
pub fn wrap_cells(cells: &Vec<Cell>, max: usize, cursor: Option<Style>) -> (rows: Vec<Vec<Cell>>)
    requires
        max + 3 <= usize::MAX,
    ensures
        rows_view(rows@) == wrapped(cells@, max as int, cursor),
{
    let mut f = Fill { rows: Vec::new(), cur: Vec::new(), width: 0 };
    let mut i: usize = 0;
    assert(rows_view(f.rows@) =~= Seq::<Seq<Cell>>::empty());
    assert(cells@.skip(0) =~= cells@);
    while i < cells.len()
        invariant
            i <= cells@.len(),
            max + 3 <= usize::MAX,
            f.fits(max, cursor),
            filled(nothing(), cells@, max as int, cursor) == filled(
                f.value(),
                cells@.skip(i as int),
                max as int,
                cursor,
            ),
        decreases cells@.len() - i,
    {
        let cell = cells[i];
        assert(cells@.skip(i as int)[0] == cell);
        if cell.ch == ' ' {
            assert(cells@.skip(i as int).drop_first() =~= cells@.skip(i + 1));
            f.space(cell, max, cursor);
            i += 1;
        } else {
            let (end, word) = take_word(cells, i);
            assert(cells@.skip(i as int).skip(end - i) =~= cells@.skip(end as int));
            f.word(word, max, cursor);
            i = end;
        }
    }
    assert(cells@.skip(i as int).len() == 0);
    f.close_row(max, cursor);
    f.rows
}

/// The rows of a wrap, as spans.
pub open spec fn wrapped_spans(
    spans: Seq<SpanView>,
    max: int,
    cursor: Option<Style>,
) -> Seq<Seq<SpanView>> {
    wrapped(cells_of(spans), max, cursor).map_values(|row: Seq<Cell>| coalesced(row))
}

/// Greedy word wrap of spans into rows no wider than `max` columns.
pub fn wrap_spans(spans: &[Span], max: usize, cursor: Option<Style>) -> (rows: Vec<Line>)
    requires
        max + 3 <= usize::MAX,
    ensures
        lines_view(rows@) == wrapped_spans(spans_view(spans@), max as int, cursor),
{
    let cells = flatten(spans);
    let wrapped_rows = wrap_cells(&cells, max, cursor);
    let ghost all = wrapped(cells@, max as int, cursor);
    let mut rows: Vec<Line> = Vec::new();
    let mut i: usize = 0;
    while i < wrapped_rows.len()
        invariant
            i <= wrapped_rows@.len(),
            rows_view(wrapped_rows@) == all,
            lines_view(rows@) == all.take(i as int).map_values(|row: Seq<Cell>| coalesced(row)),
        decreases wrapped_rows@.len() - i,
    {
        let line = Line { spans: rebuild_spans(&wrapped_rows[i]) };
        assert(line@ == coalesced(all[i as int]));
        proof {
            lemma_lines_push(rows@, line);
        }
        rows.push(line);
        i += 1;
        assert(lines_view(rows@) =~= all.take(i as int).map_values(
            |row: Seq<Cell>| coalesced(row),
        ));
    }
    assert(all.take(i as int) =~= all);
    rows
}

/// The rows of `guides + head + content` in a pane of `text_width` columns.
///
/// The first row carries the head. The others carry blanks of the same
/// width in its place, so that wrapped text stays in its column. A pane of
/// no columns, or one that the prefix fills, is not wrapped to.
pub open spec fn laid_out(
    guides: Seq<SpanView>,
    head: Seq<SpanView>,
    content: Seq<SpanView>,
    text_width: int,
    cursor: Option<Style>,
) -> Seq<Seq<SpanView>> {
    let head_w = spans_columns(head);
    let prefix_w = capped(spans_columns(guides) + head_w);
    let avail = text_width - prefix_w;
    if avail <= 0 || spans_columns(content) <= avail {
        seq![guides + head + content]
    } else {
        let rows = wrapped_spans(content, avail, cursor);
        Seq::new(
            rows.len(),
            |i: int|
                if i == 0 {
                    guides + head + rows[i]
                } else {
                    guides.push(span(repeated(' ', head_w as nat), no_style())) + rows[i]
                },
        )
    }
}

/// Appends the rows of `guides + head + content`, with `content` wrapped
/// at `text_width` columns.
///
/// `cursor` is the style the cursor cell was painted with, when the row
/// carries one: the wrap may drop a separating space at a break, but not
/// the space the cursor is on.
pub fn push_wrapped(
    guides: Vec<Span>,
    head: Vec<Span>,
    content: Vec<Span>,
    text_width: u16,
    cursor: Option<Style>,
    out: &mut Vec<Line>,
)
    ensures
        lines_view(final(out)@) == lines_view(old(out)@) + laid_out(
            spans_view(guides@),
            spans_view(head@),
            spans_view(content@),
            text_width as int,
            cursor,
        ),
{
    let head_w: usize = spans_width(&head);
    let prefix_w: usize = spans_width(&guides).saturating_add(head_w);
    let avail: usize = (text_width as usize).saturating_sub(prefix_w);
    let content_w: usize = spans_width(&content);
    let ghost g = spans_view(guides@);
    let ghost h = spans_view(head@);
    let ghost c = spans_view(content@);
    if avail == 0 || content_w <= avail {
        let mut spans = guides;
        extend_spans(&mut spans, &head);
        extend_spans(&mut spans, &content);
        let line = Line { spans };
        proof {
            lemma_lines_push(out@, line);
        }
        out.push(line);
        assert(lines_view(out@) =~= lines_view(old(out)@) + laid_out(g, h, c, text_width as int, cursor));
        return;
    }
    let pad = repeat(' ', head_w);
    let rows = wrap_spans(&content, avail, cursor);
    let ghost want = laid_out(g, h, c, text_width as int, cursor);
    let mut i: usize = 0;
    while i < rows.len()
        invariant
            i <= rows@.len(),
            g == spans_view(guides@),
            h == spans_view(head@),
            pad@ == repeated(' ', head_w as nat),
            want.len() == rows@.len(),
            forall|j: int|
                0 <= j < rows@.len() ==> #[trigger] want[j] == (if j == 0 {
                    g + h + lines_view(rows@)[j]
                } else {
                    g.push(span(repeated(' ', head_w as nat), no_style())) + lines_view(rows@)[j]
                }),
            lines_view(out@) == lines_view(old(out)@) + want.take(i as int),
        decreases rows@.len() - i,
    {
        let mut spans: Vec<Span> = Vec::new();
        extend_spans(&mut spans, &guides);
        assert(spans_view(spans@) =~= g);
        if i == 0 {
            extend_spans(&mut spans, &head);
        } else {
            let blank = Span::raw(pad.as_str());
            proof {
                lemma_spans_push(spans@, blank);
            }
            spans.push(blank);
        }
        extend_spans(&mut spans, &rows[i].spans);
        let line = Line { spans };
        assert(line@ == want[i as int]);
        proof {
            lemma_lines_push(out@, line);
        }
        out.push(line);
        i += 1;
        assert(lines_view(out@) =~= lines_view(old(out)@) + want.take(i as int));
    }
    assert(want.take(i as int) =~= want);
}

// ---------------------------------------------------------------------
// Laws
// ---------------------------------------------------------------------

/// The cells that are not separators.
pub open spec fn kept(cells: Seq<Cell>, cursor: Option<Style>) -> Seq<Cell>
    decreases cells.len(),
{
    if cells.len() == 0 {
        Seq::empty()
    } else if is_separator(cells.last(), cursor) {
        kept(cells.drop_last(), cursor)
    } else {
        kept(cells.drop_last(), cursor).push(cells.last())
    }
}

/// The cells of all rows, one row after the other.
pub open spec fn rows_joined(rows: Seq<Seq<Cell>>) -> Seq<Cell>
    decreases rows.len(),
{
    if rows.len() == 0 {
        Seq::empty()
    } else {
        rows_joined(rows.drop_last()) + rows.last()
    }
}

proof fn lemma_kept_add(a: Seq<Cell>, b: Seq<Cell>, cursor: Option<Style>)
    ensures
        kept(a + b, cursor) == kept(a, cursor) + kept(b, cursor),
    decreases b.len(),
{
    if b.len() == 0 {
        assert(a + b =~= a);
        assert(kept(a, cursor) + kept(b, cursor) =~= kept(a, cursor));
    } else {
        assert((a + b).drop_last() =~= a + b.drop_last());
        lemma_kept_add(a, b.drop_last(), cursor);
        if !is_separator(b.last(), cursor) {
            assert(kept(a, cursor) + kept(b.drop_last(), cursor).push(b.last()) =~= (kept(a, cursor)
                + kept(b.drop_last(), cursor)).push(b.last()));
        }
    }
}

proof fn lemma_kept_trimmed(cells: Seq<Cell>, cursor: Option<Style>)
    ensures
        kept(trimmed(cells, cursor), cursor) == kept(cells, cursor),
    decreases cells.len(),
{
    if cells.len() > 0 && is_separator(cells.last(), cursor) {
        lemma_kept_trimmed(cells.drop_last(), cursor);
    }
}

/// All cells placed so far.
spec fn placed(f: Filling) -> Seq<Cell> {
    rows_joined(f.rows) + f.cur
}

proof fn lemma_joined_push(rows: Seq<Seq<Cell>>, row: Seq<Cell>)
    ensures
        rows_joined(rows.push(row)) == rows_joined(rows) + row,
{
    assert(rows.push(row).drop_last() =~= rows);
}

proof fn lemma_close_keeps(f: Filling, cursor: Option<Style>)
    ensures
        kept(placed(closed_row(f, cursor)), cursor) == kept(placed(f), cursor),
        kept(rows_joined(closed_row(f, cursor).rows), cursor) == kept(placed(f), cursor),
        closed_row(f, cursor).cur.len() == 0,
{
    let t = trimmed(f.cur, cursor);
    lemma_kept_trimmed(f.cur, cursor);
    lemma_kept_add(rows_joined(f.rows), f.cur, cursor);
    lemma_kept_add(rows_joined(f.rows), t, cursor);
    let g = closed_row(f, cursor);
    if t.len() > 0 {
        lemma_joined_push(f.rows, t);
        assert(placed(g) =~= rows_joined(f.rows) + t);
    } else {
        assert(placed(g) =~= rows_joined(g.rows));
    }
    assert(placed(g) =~= rows_joined(g.rows));
}

proof fn lemma_broken_keeps(f: Filling, word: Seq<Cell>, max: int)
    ensures
        placed(broken(f, word, max)) == placed(f) + word,
    decreases word.len(),
{
    if word.len() == 0 {
        assert(placed(f) + word =~= placed(f));
    } else {
        let w = columns(word[0].ch);
        let over = f.width + w > max && f.cur.len() > 0;
        let g = if over {
            Filling { rows: f.rows.push(f.cur), cur: Seq::empty(), width: 0 }
        } else {
            f
        };
        lemma_joined_push(f.rows, f.cur);
        assert(placed(g) =~= placed(f));
        let h = Filling { cur: g.cur.push(word[0]), width: g.width + w, ..g };
        assert(placed(h) =~= placed(f).push(word[0]));
        lemma_broken_keeps(h, word.drop_first(), max);
        assert(placed(f).push(word[0]) + word.drop_first() =~= placed(f) + word);
    }
}

proof fn lemma_filled_keeps(f: Filling, cells: Seq<Cell>, max: int, cursor: Option<Style>)
    ensures
        kept(placed(filled(f, cells, max, cursor)), cursor) == kept(placed(f), cursor) + kept(
            cells,
            cursor,
        ),
    decreases cells.len(),
{
    if cells.len() == 0 {
        assert(kept(placed(f), cursor) + kept(cells, cursor) =~= kept(placed(f), cursor));
    } else if cells[0].ch == ' ' {
        let c = cells[0];
        let g = place_space(f, c, max, cursor);
        lemma_filled_keeps(g, cells.drop_first(), max, cursor);
        lemma_joined_push(f.rows, f.cur);
        lemma_kept_add(placed(f), seq![c], cursor);
        assert(seq![c].drop_last() =~= Seq::<Cell>::empty());
        assert(cells =~= seq![c] + cells.drop_first());
        lemma_kept_add(seq![c], cells.drop_first(), cursor);
        assert(kept(placed(g), cursor) =~= kept(placed(f), cursor) + kept(seq![c], cursor)) by {
            if f.width + columns(c.ch) <= max || is_cursor(c, cursor) {
                assert(placed(g) =~= placed(f) + seq![c]);
            } else {
                assert(placed(g) =~= placed(f));
                assert(kept(seq![c].drop_last(), cursor) =~= Seq::<Cell>::empty());
                assert(kept(seq![c], cursor) =~= Seq::<Cell>::empty());
            }
        }
        assert(kept(placed(f), cursor) + kept(seq![c], cursor) + kept(cells.drop_first(), cursor)
            =~= kept(placed(f), cursor) + (kept(seq![c], cursor) + kept(
            cells.drop_first(),
            cursor,
        )));
    } else {
        lemma_word_len(cells);
        let n = word_len(cells) as int;
        let word = cells.take(n);
        let g = place_word(f, word, max, cursor);
        lemma_filled_keeps(g, cells.skip(n), max, cursor);
        assert(cells =~= word + cells.skip(n));
        lemma_kept_add(word, cells.skip(n), cursor);
        lemma_kept_add(placed(f), word, cursor);
        assert(kept(placed(g), cursor) =~= kept(placed(f), cursor) + kept(word, cursor)) by {
            let w = cells_columns(word);
            let k = closed_row(f, cursor);
            lemma_close_keeps(f, cursor);
            lemma_kept_add(placed(k), word, cursor);
            if f.width + w <= max {
                assert(placed(g) =~= placed(f) + word);
            } else if w <= max {
                assert(placed(g) =~= placed(k) + word);
            } else {
                lemma_broken_keeps(k, word, max);
            }
        }
        assert(kept(placed(f), cursor) + kept(word, cursor) + kept(cells.skip(n), cursor) =~= kept(
            placed(f),
            cursor,
        ) + (kept(word, cursor) + kept(cells.skip(n), cursor)));
    }
}

/// Wrapping loses nothing but separators and reorders nothing: the cells
/// of the rows that are no separators are those of the text.
pub proof fn law_wrap_keeps_text(cells: Seq<Cell>, max: int, cursor: Option<Style>)
    ensures
        kept(rows_joined(wrapped(cells, max, cursor)), cursor) == kept(cells, cursor),
{
    let f = filled(nothing(), cells, max, cursor);
    lemma_filled_keeps(nothing(), cells, max, cursor);
    lemma_close_keeps(f, cursor);
    assert(placed(nothing()) =~= Seq::<Cell>::empty());
    assert(kept(placed(nothing()), cursor) + kept(cells, cursor) =~= kept(cells, cursor));
}

proof fn lemma_kept_contains(cells: Seq<Cell>, i: int, cursor: Option<Style>)
    requires
        0 <= i < cells.len(),
        !is_separator(cells[i], cursor),
    ensures
        exists|j: int| 0 <= j < kept(cells, cursor).len() && kept(cells, cursor)[j] == cells[i],
    decreases cells.len(),
{
    let k = kept(cells, cursor);
    if i == cells.len() - 1 {
        assert(k[k.len() - 1] == cells[i]);
    } else {
        lemma_kept_contains(cells.drop_last(), i, cursor);
        let p = kept(cells.drop_last(), cursor);
        let j = choose|j: int| 0 <= j < p.len() && p[j] == cells.drop_last()[i];
        assert(k[j] == cells[i]);
    }
}

proof fn lemma_kept_from(cells: Seq<Cell>, j: int, cursor: Option<Style>)
    requires
        0 <= j < kept(cells, cursor).len(),
    ensures
        exists|i: int| 0 <= i < cells.len() && cells[i] == kept(cells, cursor)[j],
    decreases cells.len(),
{
    let k = kept(cells, cursor);
    let p = kept(cells.drop_last(), cursor);
    if j < p.len() {
        lemma_kept_from(cells.drop_last(), j, cursor);
        let i = choose|i: int| 0 <= i < cells.drop_last().len() && cells.drop_last()[i] == p[j];
        assert(cells[i] == k[j]);
    } else {
        assert(cells[cells.len() - 1] == k[j]);
    }
}

proof fn lemma_joined_from(rows: Seq<Seq<Cell>>, i: int)
    requires
        0 <= i < rows_joined(rows).len(),
    ensures
        exists|r: int, c: int|
            0 <= r < rows.len() && 0 <= c < rows[r].len() && #[trigger] rows[r][c]
                == rows_joined(rows)[i],
    decreases rows.len(),
{
    let p = rows_joined(rows.drop_last());
    if i < p.len() {
        lemma_joined_from(rows.drop_last(), i);
        let (r, c) = choose|r: int, c: int|
            0 <= r < rows.drop_last().len() && 0 <= c < rows.drop_last()[r].len()
                && #[trigger] rows.drop_last()[r][c] == p[i];
        assert(rows[r][c] == rows_joined(rows)[i]);
    } else {
        assert(rows[rows.len() - 1][i - p.len()] == rows_joined(rows)[i]);
    }
}

/// The cursor is never wrapped off the screen: if a cell of the text
/// carries it, a cell of some row does.
pub proof fn law_cursor_survives_wrapping(cells: Seq<Cell>, at: int, max: int, cursor: Option<Style>)
    requires
        0 <= at < cells.len(),
        is_cursor(cells[at], cursor),
    ensures
        exists|r: int, c: int|
            0 <= r < wrapped(cells, max, cursor).len() && 0 <= c < wrapped(
                cells,
                max,
                cursor,
            )[r].len() && #[trigger] wrapped(cells, max, cursor)[r][c] == cells[at],
{
    let rows = wrapped(cells, max, cursor);
    law_wrap_keeps_text(cells, max, cursor);
    lemma_kept_contains(cells, at, cursor);
    let k = kept(cells, cursor);
    let j = choose|j: int| 0 <= j < k.len() && k[j] == cells[at];
    lemma_kept_from(rows_joined(rows), j, cursor);
    let i = choose|i: int|
        0 <= i < rows_joined(rows).len() && rows_joined(rows)[i] == kept(rows_joined(rows), cursor)[j];
    lemma_joined_from(rows, i);
}

/// No row is wider than `max`, and what is counted against the row being
/// filled is at least its width.
spec fn within(f: Filling, max: int) -> bool {
    &&& forall|r: int| 0 <= r < f.rows.len() ==> cells_columns(#[trigger] f.rows[r]) <= max
    &&& cells_columns(f.cur) <= max
    &&& cells_columns(f.cur) <= f.width
}

proof fn lemma_trimmed_columns(cells: Seq<Cell>, cursor: Option<Style>)
    ensures
        0 <= cells_columns(trimmed(cells, cursor)) <= cells_columns(cells),
    decreases cells.len(),
{
    lemma_columns_nonnegative(cells);
    if cells.len() > 0 && is_separator(cells.last(), cursor) {
        lemma_trimmed_columns(cells.drop_last(), cursor);
    }
}

proof fn lemma_columns_add(a: Seq<Cell>, b: Seq<Cell>)
    ensures
        cells_columns(a + b) == cells_columns(a) + cells_columns(b),
    decreases b.len(),
{
    if b.len() == 0 {
        assert(a + b =~= a);
    } else {
        assert((a + b).drop_last() =~= a + b.drop_last());
        lemma_columns_add(a, b.drop_last());
    }
}

proof fn lemma_close_within(f: Filling, max: int, cursor: Option<Style>)
    requires
        0 <= max,
        within(f, max),
    ensures
        within(closed_row(f, cursor), max),
        closed_row(f, cursor).cur.len() == 0,
{
    lemma_trimmed_columns(f.cur, cursor);
    lemma_columns_nonnegative(f.cur);
}

proof fn lemma_broken_within(f: Filling, word: Seq<Cell>, max: int)
    requires
        0 <= max,
        within(f, max),
        forall|i: int| 0 <= i < word.len() ==> columns((#[trigger] word[i]).ch) <= max,
    ensures
        within(broken(f, word, max), max),
    decreases word.len(),
{
    if word.len() > 0 {
        let w = columns(word[0].ch);
        let over = f.width + w > max && f.cur.len() > 0;
        let g = if over {
            Filling { rows: f.rows.push(f.cur), cur: Seq::empty(), width: 0 }
        } else {
            f
        };
        let h = Filling { cur: g.cur.push(word[0]), width: g.width + w, ..g };
        assert(g.cur.push(word[0]).drop_last() =~= g.cur);
        assert(cells_columns(h.cur) == cells_columns(g.cur) + w);
        assert(within(h, max)) by {
            assert forall|r: int| 0 <= r < h.rows.len() implies cells_columns(
                #[trigger] h.rows[r],
            ) <= max by {
                if over && r == f.rows.len() {
                    assert(h.rows[r] == f.cur);
                } else {
                    assert(h.rows[r] == f.rows[r]);
                }
            }
        }
        lemma_broken_within(h, word.drop_first(), max);
    }
}

proof fn lemma_filled_within(f: Filling, cells: Seq<Cell>, max: int, cursor: Option<Style>)
    requires
        0 <= max,
        within(f, max),
        forall|i: int| 0 <= i < cells.len() ==> columns((#[trigger] cells[i]).ch) <= max,
    ensures
        within(filled(f, cells, max, cursor), max),
    decreases cells.len(),
{
    if cells.len() == 0 {
    } else if cells[0].ch == ' ' {
        let c = cells[0];
        let g = place_space(f, c, max, cursor);
        assert(f.cur.push(c).drop_last() =~= f.cur);
        assert(seq![c].drop_last() =~= Seq::<Cell>::empty());
        assert(cells_columns(seq![c]) == columns(c.ch)) by {
            reveal_with_fuel(cells_columns, 2);
        }
        lemma_filled_within(g, cells.drop_first(), max, cursor);
    } else {
        lemma_word_len(cells);
        let n = word_len(cells) as int;
        let word = cells.take(n);
        let k = closed_row(f, cursor);
        lemma_close_within(f, max, cursor);
        lemma_columns_add(f.cur, word);
        lemma_columns_nonnegative(word);
        if f.width + cells_columns(word) > max && cells_columns(word) > max {
            lemma_broken_within(k, word, max);
        }
        lemma_filled_within(place_word(f, word, max, cursor), cells.skip(n), max, cursor);
    }
}

/// No row is wider than `max`, as long as no single character is.
pub proof fn law_rows_fit(cells: Seq<Cell>, max: int, cursor: Option<Style>, r: int)
    requires
        0 <= max,
        forall|i: int| 0 <= i < cells.len() ==> columns((#[trigger] cells[i]).ch) <= max,
        0 <= r < wrapped(cells, max, cursor).len(),
    ensures
        cells_columns(wrapped(cells, max, cursor)[r]) <= max,
{
    lemma_filled_within(nothing(), cells, max, cursor);
    lemma_close_within(filled(nothing(), cells, max, cursor), max, cursor);
}

/// A row that holds something, and does not begin with a separator.
pub open spec fn starts_flush(row: Seq<Cell>, cursor: Option<Style>) -> bool {
    row.len() > 0 && !is_separator(row[0], cursor)
}

/// Every row starts flush, and so does the one being filled once it holds
/// something.
spec fn flush(f: Filling, cursor: Option<Style>) -> bool {
    &&& forall|r: int| 0 <= r < f.rows.len() ==> starts_flush(#[trigger] f.rows[r], cursor)
    &&& f.cur.len() > 0 ==> starts_flush(f.cur, cursor)
}

proof fn lemma_word_has_no_space(cells: Seq<Cell>, i: int)
    requires
        0 <= i < word_len(cells),
    ensures
        i < cells.len(),
        cells[i].ch != ' ',
    decreases cells.len(),
{
    if i > 0 {
        lemma_word_has_no_space(cells.drop_first(), i - 1);
    }
}

proof fn lemma_trimmed_flush(cells: Seq<Cell>, cursor: Option<Style>)
    ensures
        starts_flush(cells, cursor) ==> starts_flush(trimmed(cells, cursor), cursor),
        cells.len() == 0 ==> trimmed(cells, cursor).len() == 0,
    decreases cells.len(),
{
    if cells.len() > 1 && is_separator(cells.last(), cursor) {
        lemma_trimmed_flush(cells.drop_last(), cursor);
    }
}

proof fn lemma_close_flush(f: Filling, cursor: Option<Style>)
    requires
        flush(f, cursor),
    ensures
        flush(closed_row(f, cursor), cursor),
        closed_row(f, cursor).cur.len() == 0,
{
    lemma_trimmed_flush(f.cur, cursor);
}

proof fn lemma_broken_flush(f: Filling, word: Seq<Cell>, max: int, cursor: Option<Style>)
    requires
        flush(f, cursor),
        forall|i: int| 0 <= i < word.len() ==> (#[trigger] word[i]).ch != ' ',
    ensures
        flush(broken(f, word, max), cursor),
        word.len() > 0 ==> broken(f, word, max).cur.len() > 0,
        word.len() == 0 ==> broken(f, word, max) == f,
    decreases word.len(),
{
    if word.len() > 0 {
        let w = columns(word[0].ch);
        let g = if f.width + w > max && f.cur.len() > 0 {
            Filling { rows: f.rows.push(f.cur), cur: Seq::empty(), width: 0 }
        } else {
            f
        };
        assert(flush(g, cursor));
        let h = Filling { cur: g.cur.push(word[0]), width: g.width + w, ..g };
        assert(flush(h, cursor));
        lemma_broken_flush(h, word.drop_first(), max, cursor);
    }
}

proof fn lemma_filled_flush(f: Filling, cells: Seq<Cell>, max: int, cursor: Option<Style>)
    requires
        flush(f, cursor),
        cells.len() > 0 && cells[0].ch == ' ' ==> f.cur.len() > 0,
        forall|i: int|
            0 <= i < cells.len() - 1 ==> (#[trigger] cells[i]).ch != ' ' || cells[i + 1].ch != ' ',
    ensures
        flush(filled(f, cells, max, cursor), cursor),
    decreases cells.len(),
{
    if cells.len() == 0 {
    } else if cells[0].ch == ' ' {
        let g = place_space(f, cells[0], max, cursor);
        let rest = cells.drop_first();
        assert(flush(g, cursor));
        if rest.len() > 0 {
            assert(cells[0].ch != ' ' || cells[1].ch != ' ');
        }
        assert forall|i: int| 0 <= i < rest.len() - 1 implies (#[trigger] rest[i]).ch != ' '
            || rest[i + 1].ch != ' ' by {
            assert(cells[i + 1].ch != ' ' || cells[i + 2].ch != ' ');
        }
        lemma_filled_flush(g, rest, max, cursor);
    } else {
        lemma_word_len(cells);
        let n = word_len(cells) as int;
        let word = cells.take(n);
        let rest = cells.skip(n);
        assert forall|i: int| 0 <= i < word.len() implies (#[trigger] word[i]).ch != ' ' by {
            lemma_word_has_no_space(cells, i);
        }
        let k = closed_row(f, cursor);
        lemma_close_flush(f, cursor);
        lemma_broken_flush(k, word, max, cursor);
        let g = place_word(f, word, max, cursor);
        assert(word[0].ch != ' ');
        assert(g.cur.len() > 0);
        assert(flush(g, cursor)) by {
            if f.width + cells_columns(word) <= max {
                assert((f.cur + word)[0] == if f.cur.len() > 0 {
                    f.cur[0]
                } else {
                    word[0]
                });
            }
        }
        assert forall|i: int| 0 <= i < rest.len() - 1 implies (#[trigger] rest[i]).ch != ' '
            || rest[i + 1].ch != ' ' by {
            assert(cells[n + i].ch != ' ' || cells[n + i + 1].ch != ' ');
        }
        lemma_filled_flush(g, rest, max, cursor);
    }
}

/// Wrapped text never leads with a stray blank: where single spaces stand
/// between words, every row begins with a word, or with the space that the
/// cursor is on.
pub proof fn law_rows_start_flush(cells: Seq<Cell>, max: int, cursor: Option<Style>, r: int)
    requires
        cells.len() > 0 ==> cells[0].ch != ' ',
        forall|i: int|
            0 <= i < cells.len() - 1 ==> (#[trigger] cells[i]).ch != ' ' || cells[i + 1].ch != ' ',
        0 <= r < wrapped(cells, max, cursor).len(),
    ensures
        starts_flush(wrapped(cells, max, cursor)[r], cursor),
{
    lemma_filled_flush(nothing(), cells, max, cursor);
    lemma_close_flush(filled(nothing(), cells, max, cursor), cursor);
}

/// Joining cells into spans and taking the spans apart gives the cells
/// back: a wrapped row keeps the style of each of its characters.
pub proof fn law_coalescing_keeps_cells(cells: Seq<Cell>)
    ensures
        cells_of(coalesced(cells)) == cells,
    decreases cells.len(),
{
    if cells.len() > 0 {
        let rest = coalesced(cells.drop_last());
        let c = cells.last();
        law_coalescing_keeps_cells(cells.drop_last());
        if rest.len() > 0 && rest.last().style == c.style {
            let last = span(rest.last().text.push(c.ch), c.style);
            lemma_span_cells(last);
            lemma_span_cells(rest.last());
            assert(rest.drop_last().push(last).drop_last() =~= rest.drop_last());
            assert(cells_of_span(last) =~= cells_of_span(rest.last()).push(c));
            assert(cells =~= cells.drop_last().push(c));
            assert(cells_of(rest.drop_last()) + cells_of_span(rest.last()).push(c) =~= cells_of(
                rest,
            ).push(c));
        } else {
            let last = span(seq![c.ch], c.style);
            assert(rest.push(last).drop_last() =~= rest);
            assert(cells_of_span(last) =~= seq![c]);
            assert(cells_of(rest) + seq![c] =~= cells);
        }
    }
}

proof fn lemma_filled_fits(f: Filling, cells: Seq<Cell>, max: int, cursor: Option<Style>)
    requires
        f.width + cells_columns(cells) <= max,
    ensures
        filled(f, cells, max, cursor) == (Filling {
            rows: f.rows,
            cur: f.cur + cells,
            width: f.width + cells_columns(cells),
        }),
    decreases cells.len(),
{
    if cells.len() == 0 {
        assert(f.cur + cells =~= f.cur);
    } else if cells[0].ch == ' ' {
        let one = cells.take(1);
        let rest = cells.drop_first();
        assert(cells =~= one + rest);
        assert(one.drop_last() =~= Seq::<Cell>::empty());
        assert(cells_columns(one.drop_last()) == 0);
        lemma_columns_add(one, rest);
        lemma_columns_nonnegative(rest);
        let g = Filling {
            cur: f.cur.push(cells[0]),
            width: f.width + columns(cells[0].ch),
            ..f
        };
        assert(place_space(f, cells[0], max, cursor) == g);
        lemma_filled_fits(g, rest, max, cursor);
        assert(g.cur + rest =~= f.cur + cells);
    } else {
        lemma_word_len(cells);
        let n = word_len(cells) as int;
        let a = cells.take(n);
        let b = cells.skip(n);
        assert(cells =~= a + b);
        lemma_columns_add(a, b);
        lemma_columns_nonnegative(b);
        let g = Filling { cur: f.cur + a, width: f.width + cells_columns(a), ..f };
        lemma_filled_fits(g, b, max, cursor);
        assert(g.cur + b =~= f.cur + cells);
    }
}

/// Text that fits stands in one row.
pub proof fn law_what_fits_is_one_row(cells: Seq<Cell>, max: int, cursor: Option<Style>)
    requires
        cells_columns(cells) <= max,
    ensures
        wrapped(cells, max, cursor) == (if trimmed(cells, cursor).len() > 0 {
            seq![trimmed(cells, cursor)]
        } else {
            Seq::empty()
        }),
{
    lemma_filled_fits(nothing(), cells, max, cursor);
    assert(Seq::<Cell>::empty() + cells =~= cells);
    if trimmed(cells, cursor).len() > 0 {
        assert(wrapped(cells, max, cursor) =~= seq![trimmed(cells, cursor)]);
    }
}

/// Cells of a word, of one column each.
pub open spec fn narrow_word(cells: Seq<Cell>) -> bool {
    forall|i: int|
        0 <= i < cells.len() ==> (#[trigger] cells[i]).ch != ' ' && columns(cells[i].ch) == 1
}

proof fn lemma_narrow(cells: Seq<Cell>)
    requires
        narrow_word(cells),
    ensures
        cells_columns(cells) == cells.len(),
        word_len(cells) == cells.len(),
    decreases cells.len(),
{
    if cells.len() > 0 {
        let d = cells.drop_last();
        assert forall|i: int| 0 <= i < d.len() implies (#[trigger] d[i]).ch != ' ' && columns(d[i].ch)
            == 1 by {
            assert(d[i] == cells[i]);
        }
        lemma_narrow(d);
        assert(cells.last() == cells[cells.len() - 1]);
        let e = cells.drop_first();
        assert forall|i: int| 0 <= i < e.len() implies (#[trigger] e[i]).ch != ' ' && columns(e[i].ch)
            == 1 by {
            assert(e[i] == cells[i + 1]);
        }
        lemma_narrow(e);
        assert(cells[0].ch != ' ');
    }
}

proof fn lemma_broken_fits(f: Filling, word: Seq<Cell>, max: int)
    requires
        narrow_word(word),
        f.width == f.cur.len(),
        f.cur.len() + word.len() <= max,
    ensures
        broken(f, word, max) == (Filling {
            cur: f.cur + word,
            width: f.width + word.len(),
            ..f
        }),
    decreases word.len(),
{
    if word.len() == 0 {
        assert(f.cur + word =~= f.cur);
    } else {
        let d = word.drop_first();
        assert forall|i: int| 0 <= i < d.len() implies (#[trigger] d[i]).ch != ' ' && columns(d[i].ch)
            == 1 by {
            assert(d[i] == word[i + 1]);
        }
        assert(columns(word[0].ch) == 1);
        let g = Filling { cur: f.cur.push(word[0]), width: f.width + 1, ..f };
        lemma_broken_fits(g, d, max);
        assert(g.cur + d =~= f.cur + word);
    }
}

proof fn lemma_broken_row(f: Filling, word: Seq<Cell>, max: int)
    requires
        narrow_word(word),
        max >= 1,
        f.width == f.cur.len() <= max,
        f.cur.len() + word.len() > max,
    ensures
        broken(f, word, max) == broken(
            Filling {
                rows: f.rows.push(f.cur + word.take(max - f.cur.len())),
                cur: Seq::empty(),
                width: 0,
            },
            word.skip(max - f.cur.len()),
            max,
        ),
    decreases word.len(),
{
    let n = max - f.cur.len();
    assert(columns(word[0].ch) == 1);
    if n == 0 {
        assert(f.cur + word.take(0) =~= f.cur);
        assert(word.skip(0) =~= word);
    } else {
        let d = word.drop_first();
        assert forall|i: int| 0 <= i < d.len() implies (#[trigger] d[i]).ch != ' ' && columns(d[i].ch)
            == 1 by {
            assert(d[i] == word[i + 1]);
        }
        let g = Filling { cur: f.cur.push(word[0]), width: f.width + 1, ..f };
        lemma_broken_row(g, d, max);
        assert(g.cur + d.take(n - 1) =~= f.cur + word.take(n));
        assert(d.skip(n - 1) =~= word.skip(n));
    }
}

proof fn lemma_broken_below(rows: Seq<Seq<Cell>>, f: Filling, word: Seq<Cell>, max: int)
    ensures
        broken(Filling { rows: rows + f.rows, ..f }, word, max) == (Filling {
            rows: rows + broken(f, word, max).rows,
            ..broken(f, word, max)
        }),
    decreases word.len(),
{
    if word.len() > 0 {
        let w = columns(word[0].ch);
        let g = if f.width + w > max && f.cur.len() > 0 {
            Filling { rows: f.rows.push(f.cur), cur: Seq::empty(), width: 0 }
        } else {
            f
        };
        assert((rows + f.rows).push(f.cur) =~= rows + f.rows.push(f.cur));
        lemma_broken_below(
            rows,
            Filling { cur: g.cur.push(word[0]), width: g.width + w, ..g },
            word.drop_first(),
            max,
        );
    }
}

proof fn lemma_filled_word(cells: Seq<Cell>, max: int, cursor: Option<Style>)
    requires
        max >= 1,
        cells.len() > 0,
        narrow_word(cells),
    ensures
        filled(nothing(), cells, max, cursor) == broken(nothing(), cells, max),
{
    lemma_narrow(cells);
    let n = word_len(cells) as int;
    assert(cells.take(n) =~= cells);
    assert(cells.skip(n) =~= Seq::<Cell>::empty());
    assert(cells[0].ch != ' ');
    let f = place_word(nothing(), cells, max, cursor);
    assert(filled(f, Seq::<Cell>::empty(), max, cursor) == f);
    assert(filled(nothing(), cells, max, cursor) == f);
    assert(trimmed(Seq::<Cell>::empty(), cursor) =~= Seq::<Cell>::empty());
    assert(closed_row(nothing(), cursor) == nothing());
    if cells.len() <= max {
        lemma_broken_fits(nothing(), cells, max);
    }
}

/// A word that is too long fills a row, and goes on in the next as if it began
/// there.
pub proof fn law_long_words_fill_their_rows(cells: Seq<Cell>, max: int, cursor: Option<Style>)
    requires
        max >= 1,
        narrow_word(cells),
        cells.len() > max,
    ensures
        wrapped(cells, max, cursor) == seq![cells.take(max)] + wrapped(
            cells.skip(max),
            max,
            cursor,
        ),
{
    let rest = cells.skip(max);
    assert forall|i: int| 0 <= i < rest.len() implies (#[trigger] rest[i]).ch != ' ' && columns(
        rest[i].ch,
    ) == 1 by {
        assert(rest[i] == cells[i + max]);
    }
    lemma_filled_word(cells, max, cursor);
    lemma_filled_word(rest, max, cursor);
    lemma_broken_row(nothing(), cells, max);
    let first = seq![cells.take(max)];
    assert(Seq::<Seq<Cell>>::empty().push(Seq::<Cell>::empty() + cells.take(max)) =~= first
        + Seq::<Seq<Cell>>::empty());
    assert(Seq::<Cell>::empty() + cells.take(max) =~= cells.take(max));
    lemma_broken_below(first, nothing(), rest, max);
    let f = broken(nothing(), rest, max);
    let g = Filling { rows: first + f.rows, ..f };
    assert(filled(nothing(), cells, max, cursor) == g);
    assert((first + f.rows).push(trimmed(f.cur, cursor)) =~= first + f.rows.push(
        trimmed(f.cur, cursor),
    ));
}

/// The rows of one text line up: all stand behind the same rails, the first
/// behind its head, and the others behind as many blanks as the head is wide.
pub proof fn law_continued_rows_line_up(
    guides: Seq<SpanView>,
    head: Seq<SpanView>,
    content: Seq<SpanView>,
    text_width: int,
    cursor: Option<Style>,
    i: int,
)
    requires
        0 <= i < laid_out(guides, head, content, text_width, cursor).len(),
    ensures
        ({
            let row = laid_out(guides, head, content, text_width, cursor)[i];
            &&& row.take(guides.len() as int) == guides
            &&& i == 0 ==> row.take((guides.len() + head.len()) as int) == guides + head
            &&& i > 0 ==> row[guides.len() as int] == span(
                repeated(' ', spans_columns(head) as nat),
                no_style(),
            )
        }),
{
    let row = laid_out(guides, head, content, text_width, cursor)[i];
    assert(row.take(guides.len() as int) =~= guides);
    if i == 0 {
        assert(row.take((guides.len() + head.len()) as int) =~= guides + head);
    }
}

} // verus!

//! What the renderer paints: styled spans of text, and lines of them.

use vstd::prelude::*;

verus! {

/// A terminal colour.
#[derive(Clone, Copy, PartialEq, Eq, Structural, Debug)]
pub enum Color {
    /// The terminal's own colour.
    Reset,
    Black,
    Red,
    Green,
    Yellow,
    Blue,
    Magenta,
    Cyan,
    Gray,
    DarkGray,
    LightRed,
    LightGreen,
    LightYellow,
    LightMagenta,
    LightCyan,
    White,
    /// Red, green and blue.
    Rgb(u8, u8, u8),
}

/// Colours and modifiers. An absent colour is inherited.
#[derive(Clone, Copy, PartialEq, Eq, Structural, Debug)]
pub struct Style {
    pub fg: Option<Color>,
    pub bg: Option<Color>,
    pub bold: bool,
    pub italic: bool,
    pub underlined: bool,
    pub crossed_out: bool,
}

/// The style that inherits everything.
pub open spec fn no_style() -> Style {
    Style {
        fg: None,
        bg: None,
        bold: false,
        italic: false,
        underlined: false,
        crossed_out: false,
    }
}

impl Style {
    /// The style that inherits everything.
    pub fn new() -> (s: Style)
        ensures
            s == no_style(),
    {
        Style {
            fg: None,
            bg: None,
            bold: false,
            italic: false,
            underlined: false,
            crossed_out: false,
        }
    }

    /// With foreground `c`.
    pub fn fg(self, c: Color) -> (s: Style)
        ensures
            s == (Style { fg: Some(c), ..self }),
    {
        Style { fg: Some(c), ..self }
    }

    /// With background `c`.
    pub fn bg(self, c: Color) -> (s: Style)
        ensures
            s == (Style { bg: Some(c), ..self }),
    {
        Style { bg: Some(c), ..self }
    }

    /// In bold.
    pub fn bold(self) -> (s: Style)
        ensures
            s == (Style { bold: true, ..self }),
    {
        Style { bold: true, ..self }
    }

    /// In italics.
    pub fn italic(self) -> (s: Style)
        ensures
            s == (Style { italic: true, ..self }),
    {
        Style { italic: true, ..self }
    }

    /// Underlined.
    pub fn underlined(self) -> (s: Style)
        ensures
            s == (Style { underlined: true, ..self }),
    {
        Style { underlined: true, ..self }
    }

    /// Struck through.
    pub fn crossed_out(self) -> (s: Style)
        ensures
            s == (Style { crossed_out: true, ..self }),
    {
        Style { crossed_out: true, ..self }
    }
}

impl Style {
    /// This style with another over it.
    pub fn patch(self, over: Style) -> (s: Style)
        ensures
            s == patched(self, over),
    {
        Style {
            fg: match over.fg {
                Some(c) => Some(c),
                None => self.fg,
            },
            bg: match over.bg {
                Some(c) => Some(c),
                None => self.bg,
            },
            bold: self.bold || over.bold,
            italic: self.italic || over.italic,
            underlined: self.underlined || over.underlined,
            crossed_out: self.crossed_out || over.crossed_out,
        }
    }
}

impl Default for Style {
    fn default() -> (s: Style)
        ensures
            s == no_style(),
    {
        Style::new()
    }
}

/// A style over another: its colours where it has any, and the marks of both.
pub open spec fn patched(under: Style, over: Style) -> Style {
    Style {
        fg: match over.fg {
            Some(c) => Some(c),
            None => under.fg,
        },
        bg: match over.bg {
            Some(c) => Some(c),
            None => under.bg,
        },
        bold: under.bold || over.bold,
        italic: under.italic || over.italic,
        underlined: under.underlined || over.underlined,
        crossed_out: under.crossed_out || over.crossed_out,
    }
}

/// A run of text in one style.
#[derive(Debug)]
pub struct Span {
    pub text: String,
    pub style: Style,
}

/// A run of text in one style, as a value.
pub ghost struct SpanView {
    pub text: Seq<char>,
    pub style: Style,
}

impl View for Span {
    type V = SpanView;

    open spec fn view(&self) -> SpanView {
        SpanView { text: self.text@, style: self.style }
    }
}

/// A span of text in a style, as a value.
pub open spec fn span(text: Seq<char>, style: Style) -> SpanView {
    SpanView { text, style }
}

/// The values of a list of spans.
pub open spec fn spans_view(v: Seq<Span>) -> Seq<SpanView> {
    v.map_values(|s: Span| s@)
}

impl Span {
    /// Text in a style.
    pub fn styled(text: &str, style: Style) -> (s: Span)
        ensures
            s@ == span(text@, style),
    {
        Span { text: text.to_owned(), style }
    }

    /// Text in the inherited style.
    pub fn raw(text: &str) -> (s: Span)
        ensures
            s@ == span(text@, no_style()),
    {
        Span::styled(text, Style::new())
    }

    /// The same span again.
    pub fn copy(&self) -> (s: Span)
        ensures
            s@ == self@,
    {
        Span { text: self.text.clone(), style: self.style }
    }
}

/// One row of the screen.
#[derive(Debug)]
pub struct Line {
    pub spans: Vec<Span>,
}

impl View for Line {
    type V = Seq<SpanView>;

    open spec fn view(&self) -> Seq<SpanView> {
        spans_view(self.spans@)
    }
}

/// The values of a list of lines.
pub open spec fn lines_view(v: Seq<Line>) -> Seq<Seq<SpanView>> {
    v.map_values(|l: Line| l@)
}

impl Line {
    /// A row with one span.
    pub fn of(s: Span) -> (l: Line)
        ensures
            l@ == seq![s@],
    {
        let mut spans: Vec<Span> = Vec::new();
        spans.push(s);
        let l = Line { spans };
        assert(l@ =~= seq![s@]);
        l
    }

    /// A row of plain text.
    pub fn raw(text: &str) -> (l: Line)
        ensures
            l@ == seq![span(text@, no_style())],
    {
        Line::of(Span::raw(text))
    }

    /// A row of text in one style.
    pub fn styled(text: &str, style: Style) -> (l: Line)
        ensures
            l@ == seq![span(text@, style)],
    {
        Line::of(Span::styled(text, style))
    }

    /// A row of two spans.
    pub fn of2(a: Span, b: Span) -> (l: Line)
        ensures
            l@ == seq![a@, b@],
    {
        let mut spans: Vec<Span> = Vec::new();
        spans.push(a);
        spans.push(b);
        let l = Line { spans };
        assert(l@ =~= seq![a@, b@]);
        l
    }

    /// A row of three spans.
    pub fn of3(a: Span, b: Span, c: Span) -> (l: Line)
        ensures
            l@ == seq![a@, b@, c@],
    {
        let mut spans: Vec<Span> = Vec::new();
        spans.push(a);
        spans.push(b);
        spans.push(c);
        let l = Line { spans };
        assert(l@ =~= seq![a@, b@, c@]);
        l
    }
}

/// The text of a row, without its styles.
pub open spec fn row_text(row: Seq<SpanView>) -> Seq<char>
    decreases row.len(),
{
    if row.len() == 0 {
        Seq::empty()
    } else {
        row_text(row.drop_last()) + row.last().text
    }
}

/// The text of a row, without its styles.
pub fn line_text(spans: &[Span]) -> (r: String)
    ensures
        r@ == row_text(spans_view(spans@)),
{
    let mut r = String::new();
    let mut i: usize = 0;
    while i < spans.len()
        invariant
            i <= spans@.len(),
            r@ == row_text(spans_view(spans@).take(i as int)),
        decreases spans@.len() - i,
    {
        r.append(spans[i].text.as_str());
        assert(spans_view(spans@).take(i + 1).drop_last() =~= spans_view(spans@).take(i as int));
        i += 1;
    }
    assert(spans_view(spans@).take(i as int) =~= spans_view(spans@));
    r
}

/// Pushing a span pushes its value.
pub broadcast proof fn lemma_spans_push(v: Seq<Span>, s: Span)
    ensures
        #[trigger] spans_view(v.push(s)) == spans_view(v).push(s@),
{
    assert(spans_view(v.push(s)) =~= spans_view(v).push(s@));
}

/// Pushing a line pushes its value.
pub broadcast proof fn lemma_lines_push(v: Seq<Line>, l: Line)
    ensures
        #[trigger] lines_view(v.push(l)) == lines_view(v).push(l@),
{
    assert(lines_view(v.push(l)) =~= lines_view(v).push(l@));
}

/// Copies of all the spans of `from`, appended to `to`.
pub fn extend_spans(to: &mut Vec<Span>, from: &[Span])
    ensures
        spans_view(final(to)@) == spans_view(old(to)@) + spans_view(from@),
{
    let mut i: usize = 0;
    while i < from.len()
        invariant
            i <= from@.len(),
            spans_view(to@) == spans_view(old(to)@) + spans_view(from@).take(i as int),
        decreases from@.len() - i,
    {
        let s = from[i].copy();
        proof {
            lemma_spans_push(to@, s);
        }
        to.push(s);
        i += 1;
        assert(spans_view(to@) =~= spans_view(old(to)@) + spans_view(from@).take(i as int));
    }
    assert(spans_view(from@).take(i as int) =~= spans_view(from@));
}

/// An area of the screen, in cells.
#[derive(Clone, Copy, PartialEq, Eq, Structural, Debug)]
pub struct Rect {
    pub x: u16,
    pub y: u16,
    pub width: u16,
    pub height: u16,
}

/// The area of `w_pct` by `h_pct` percent of `full`, in its middle.
pub open spec fn centered(full: Rect, w_pct: int, h_pct: int) -> Rect {
    let w = full.width as int * w_pct / 100;
    let h = full.height as int * h_pct / 100;
    Rect {
        x: (full.x + (full.width - w) / 2) as u16,
        y: (full.y + (full.height - h) / 2) as u16,
        width: w as u16,
        height: h as u16,
    }
}

/// The area of `w_pct` by `h_pct` percent of `full`, in its middle.
pub fn centered_rect(full: Rect, w_pct: u16, h_pct: u16) -> (r: Rect)
    requires
        w_pct <= 100,
        h_pct <= 100,
        full.x + full.width <= u16::MAX,
        full.y + full.height <= u16::MAX,
    ensures
        r == centered(full, w_pct as int, h_pct as int),
        full.x <= r.x && r.x + r.width <= full.x + full.width,
        full.y <= r.y && r.y + r.height <= full.y + full.height,
{
    assert(full.width as int * w_pct as int / 100 <= full.width) by (nonlinear_arith)
        requires
            w_pct <= 100,
    ;
    assert(full.height as int * h_pct as int / 100 <= full.height) by (nonlinear_arith)
        requires
            h_pct <= 100,
    ;
    assert(0 <= full.width as int * w_pct as int <= 0xffff * 100) by (nonlinear_arith)
        requires
            w_pct <= 100,
            full.width <= 0xffff,
    ;
    assert(0 <= full.height as int * h_pct as int <= 0xffff * 100) by (nonlinear_arith)
        requires
            h_pct <= 100,
            full.height <= 0xffff,
    ;
    let w: u16 = (full.width as u32 * w_pct as u32 / 100) as u16;
    let h: u16 = (full.height as u32 * h_pct as u32 / 100) as u16;
    Rect {
        x: full.x + (full.width - w) / 2,
        y: full.y + (full.height - h) / 2,
        width: w,
        height: h,
    }
}

// ---------------------------------------------------------------------
// Laws
// ---------------------------------------------------------------------

/// A style laid over another shows where it says something, and what is under
/// it shows elsewhere; nothing over or under a style leaves it as it is.
pub proof fn law_styles_lie_over_each_other(under: Style, over: Style, more: Style)
    ensures
        patched(under, no_style()) == under,
        patched(no_style(), over) == over,
        patched(patched(under, over), more) == patched(under, patched(over, more)),
        patched(under, over).fg == (if over.fg is Some {
            over.fg
        } else {
            under.fg
        }),
        patched(under, over).bg == (if over.bg is Some {
            over.bg
        } else {
            under.bg
        }),
        over.bold || under.bold <==> patched(under, over).bold,
        over.italic || under.italic <==> patched(under, over).italic,
        over.underlined || under.underlined <==> patched(under, over).underlined,
        over.crossed_out || under.crossed_out <==> patched(under, over).crossed_out,
{
}

/// What is centred takes its part of the room, with the same margin on both
/// sides, but for one cell.
pub proof fn law_what_is_centred_has_even_margins(full: Rect, w: int, h: int)
    requires
        0 <= w <= 100,
        0 <= h <= 100,
        full.x + full.width <= u16::MAX,
        full.y + full.height <= u16::MAX,
    ensures
        ({
            let c = centered(full, w, h);
            &&& c.width == full.width * w / 100
            &&& c.height == full.height * h / 100
            &&& c.x >= full.x && c.y >= full.y
            &&& 0 <= (full.x + full.width) - (c.x + c.width) - (c.x - full.x) <= 1
            &&& 0 <= (full.y + full.height) - (c.y + c.height) - (c.y - full.y) <= 1
        }),
{
    assert(0 <= full.width * w / 100 <= full.width) by (nonlinear_arith)
        requires
            0 <= w <= 100,
    ;
    assert(0 <= full.height * h / 100 <= full.height) by (nonlinear_arith)
        requires
            0 <= h <= 100,
    ;
}

} // verus!

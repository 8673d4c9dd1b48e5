//! The sidebar: a month, the pinned pages and the recent ones.

use crate::autocomplete::lemma_text_order;
use crate::dates::{
    civil_of, date_text, days_from_monday, law_a_day_has_one_date, days_in_month, format_date,
    is_civil, is_day, shown_days, weekday_of, ISO_PATTERN, MONTH_PATTERN,
};
use crate::icons::IconSet;
use crate::paths::{file_stem, stem_of};
use crate::state::{Screen, SidebarSection};
use crate::style::{
    lemma_spans_push, lines_view, no_style, span, spans_view, Line, Rect, Span, SpanView, Style,
};
use crate::text::{
    cat, cat3, cat4, comes_before, decimal, numeral, opt_text, same_text, text_before, texts,
    to_lowercase, unicode_lower,
};
use crate::theme::Theme;
use crate::view::overlays::{at_most, panels3, push_row};
use crate::view::panel::{
    framed, panels_view, rows_body, split_rows, stacked, Body, BodyView, Panel, PanelView, Part,
};
use vstd::prelude::*;

verus! {

/// How wide the sidebar is.
pub const SIDEBAR_WIDTH: u16 = 24;

/// The style of the frame of a section.
pub open spec fn section_border(focused: bool, theme: Theme) -> Style {
    if focused {
        theme.heading
    } else {
        theme.border
    }
}

fn border_of(focused: bool, theme: &Theme) -> (s: Style)
    ensures
        s == section_border(focused, *theme),
{
    if focused {
        theme.heading
    } else {
        theme.border
    }
}

/// A section has the focus.
pub open spec fn has_focus(focus: Option<SidebarSection>, section: SidebarSection) -> bool {
    focus == Some(section)
}

fn focused_on(focus: Option<SidebarSection>, section: SidebarSection) -> (r: bool)
    ensures
        r == has_focus(focus, section),
{
    match focus {
        Some(s) => s == section,
        None => false,
    }
}

// ---------------------------------------------------------------------
// The month
// ---------------------------------------------------------------------

/// A day of the month, in two places.
pub open spec fn day_number(day: int) -> Seq<char> {
    if day < 10 {
        " "@ + decimal(day as nat)
    } else {
        decimal(day as nat)
    }
}

/// A day of the month as it is drawn.
pub open spec fn day_cell(
    day: int,
    is_today: bool,
    is_viewed: bool,
    has_journal: bool,
    theme: Theme,
) -> SpanView {
    span(
        (if is_today {
            "◉"@
        } else if has_journal {
            "●"@
        } else {
            "·"@
        }) + day_number(day),
        if is_today {
            Style { bold: true, ..theme.heading }
        } else if is_viewed {
            theme.selected_bullet
        } else if has_journal {
            theme.ref_link
        } else {
            theme.dim
        },
    )
}

/// The cells of a month of `n` days that starts `offset` days after a
/// Monday. `first` is the number of its first day, and `journals` says which
/// of its days have a journal.
pub open spec fn month_cells(
    offset: int,
    n: int,
    first: int,
    viewing: int,
    today: int,
    journals: Seq<bool>,
    theme: Theme,
) -> Seq<SpanView> {
    Seq::new(
        (offset + n) as nat,
        |i: int|
            if i < offset {
                span("   "@, no_style())
            } else {
                let k = i - offset;
                day_cell(
                    k + 1,
                    first + k == today,
                    first + k == viewing,
                    k < journals.len() && journals[k],
                    theme,
                )
            },
    )
}

/// Cells in rows of seven.
pub open spec fn weeks(cells: Seq<SpanView>) -> Seq<Seq<SpanView>> {
    Seq::new(
        ((cells.len() + 6) / 7) as nat,
        |w: int| cells.subrange(7 * w, at_most(7 * w + 7, cells.len() as int)),
    )
}

/// The rows of the month a day is in. `y`, `m` and `d` are its date.
pub open spec fn month_rows(
    viewing: int,
    y: int,
    m: int,
    d: int,
    today: int,
    journals: Seq<bool>,
    theme: Theme,
) -> Seq<Seq<SpanView>> {
    let first = viewing - d + 1;
    seq![seq![span("Mo Tu We Th Fr Sa Su"@, theme.dim)]] + weeks(
        month_cells(
            days_from_monday(first),
            shown_days(y, m),
            first,
            viewing,
            today,
            journals,
            theme,
        ),
    )
}

/// The day whose month is shown: that of the journal, or today.
pub open spec fn viewed_day(screen: Screen, today: i32) -> i32 {
    match screen {
        Screen::Journal(day) => day,
        Screen::Page(_) => today,
    }
}

fn make_day_cell(
    day: usize,
    is_today: bool,
    is_viewed: bool,
    has_journal: bool,
    theme: &Theme,
) -> (s: Span)
    ensures
        s@ == day_cell(day as int, is_today, is_viewed, has_journal, *theme),
{
    let n = numeral(day);
    let number = if day < 10 {
        cat(" ", n.as_str())
    } else {
        n
    };
    let mark = if is_today {
        "◉"
    } else if has_journal {
        "●"
    } else {
        "·"
    };
    let style = if is_today {
        theme.heading.bold()
    } else if is_viewed {
        theme.selected_bullet
    } else if has_journal {
        theme.ref_link
    } else {
        theme.dim
    };
    let text = cat(mark, number.as_str());
    Span::styled(text.as_str(), style)
}

fn make_cells(
    offset: usize,
    n: usize,
    first: i64,
    viewing: i64,
    today: i64,
    journals: &Vec<bool>,
    theme: &Theme,
) -> (v: Vec<Span>)
    requires
        offset <= 6,
        n <= 31,
        -0x1_0000_0000 <= first <= 0x1_0000_0000,
    ensures
        spans_view(v@) == month_cells(
            offset as int,
            n as int,
            first as int,
            viewing as int,
            today as int,
            journals@,
            *theme,
        ),
{
    let ghost want = month_cells(
        offset as int,
        n as int,
        first as int,
        viewing as int,
        today as int,
        journals@,
        *theme,
    );
    let mut v: Vec<Span> = Vec::new();
    let mut i: usize = 0;
    assert(spans_view(v@) =~= want.take(0));
    while i < offset + n
        invariant
            offset <= 6,
            n <= 31,
            i <= offset + n,
            -0x1_0000_0000 <= first <= 0x1_0000_0000,
            want == month_cells(
                offset as int,
                n as int,
                first as int,
                viewing as int,
                today as int,
                journals@,
                *theme,
            ),
            spans_view(v@) == want.take(i as int),
        decreases offset + n - i,
    {
        let s = if i < offset {
            Span::raw("   ")
        } else {
            let k: usize = i - offset;
            let date: i64 = first + k as i64;
            make_day_cell(
                k + 1,
                date == today,
                date == viewing,
                k < journals.len() && journals[k],
                theme,
            )
        };
        assert(s@ == want[i as int]);
        proof {
            lemma_spans_push(v@, s);
        }
        v.push(s);
        i += 1;
        assert(spans_view(v@) =~= want.take(i as int));
    }
    assert(want.take(i as int) =~= want);
    v
}

fn push_weeks(cells: &Vec<Span>, lines: &mut Vec<Line>)
    requires
        cells@.len() <= 37,
    ensures
        lines_view(final(lines)@) == lines_view(old(lines)@) + weeks(spans_view(cells@)),
{
    let ghost all = spans_view(cells@);
    let ghost want = weeks(all);
    let ghost before = lines_view(lines@);
    let n: usize = cells.len();
    let mut w: usize = 0;
    assert(before + want.take(0) =~= before);
    while 7 * w < n
        invariant
            n == cells@.len(),
            n <= 37,
            w <= 6,
            w <= want.len(),
            all == spans_view(cells@),
            want == weeks(all),
            all.len() == n,
            lines_view(lines@) == before + want.take(w as int),
        decreases n - w,
    {
        let lo: usize = 7 * w;
        let hi: usize = if lo + 7 < n {
            lo + 7
        } else {
            n
        };
        let mut row: Vec<Span> = Vec::new();
        let mut i: usize = lo;
        assert(spans_view(row@) =~= all.subrange(lo as int, lo as int));
        while i < hi
            invariant
                lo <= i <= hi <= cells@.len(),
                all == spans_view(cells@),
                spans_view(row@) == all.subrange(lo as int, i as int),
            decreases hi - i,
        {
            let s = cells[i].copy();
            proof {
                lemma_spans_push(row@, s);
            }
            row.push(s);
            i += 1;
            assert(spans_view(row@) =~= all.subrange(lo as int, i as int));
        }
        let l = Line { spans: row };
        assert(l@ == want[w as int]);
        push_row(lines, l);
        w += 1;
        assert(lines_view(lines@) =~= before + want.take(w as int));
    }
    assert(want.take(w as int) =~= want);
}

/// Which of the `n` days from `first` on have a journal: those whose date is
/// among the names of the journals.
pub open spec fn journal_days(first: int, n: int, names: Seq<Seq<char>>) -> Seq<bool> {
    Seq::new(
        n as nat,
        |k: int|
            match date_text(first + k, ISO_PATTERN@) {
                Some(date) => names.contains(date),
                None => false,
            },
    )
}

fn holds(names: &Vec<String>, name: &str) -> (r: bool)
    ensures
        r == texts(names@).contains(name@),
{
    let mut i: usize = 0;
    while i < names.len()
        invariant
            i <= names@.len(),
            forall|j: int| 0 <= j < i ==> (#[trigger] names@[j])@ != name@,
        decreases names@.len() - i,
    {
        if same_text(names[i].as_str(), name) {
            assert(texts(names@)[i as int] == name@);
            return true;
        }
        i += 1;
    }
    proof {
        let t = texts(names@);
        if t.contains(name@) {
            let k = choose|k: int| 0 <= k < t.len() && t[k] == name@;
            assert(names@[k]@ == name@);
        }
    }
    false
}

/// Which days of the month of a day have a journal. `names` are the names of
/// the journals. A day that cannot be shown has no month.
pub fn journals_of_month(viewing: i32, names: &Vec<String>) -> (r: Vec<bool>)
    ensures
        !is_day(viewing as int) ==> r@.len() == 0,
        is_day(viewing as int) ==> forall|y: int, m: int, d: int| #[trigger]
            is_civil(viewing as int, y, m, d) ==> r@ == journal_days(
                viewing - d + 1,
                shown_days(y, m),
                texts(names@),
            ),
{
    let mut r: Vec<bool> = Vec::new();
    if let Some(c) = civil_of(viewing) {
        let first: i32 = viewing - c.day as i32 + 1;
        let n: u32 = days_in_month(c.year, c.month);
        let ghost want = journal_days(first as int, n as int, texts(names@));
        let mut k: u32 = 0;
        assert(r@ =~= want.take(0));
        while k < n
            invariant
                k <= n <= 31,
                first <= viewing,
                is_day(viewing as int),
                want == journal_days(first as int, n as int, texts(names@)),
                r@ == want.take(k as int),
            decreases n - k,
        {
            let marked = match format_date(first + k as i32, ISO_PATTERN) {
                Some(date) => holds(names, date.as_str()),
                None => false,
            };
            assert(marked == want[k as int]);
            r.push(marked);
            k += 1;
            assert(r@ =~= want.take(k as int));
        }
        assert(r@ =~= want);
        proof {
            assert forall|y: int, m: int, d: int| #[trigger]
                is_civil(viewing as int, y, m, d) implies r@ == journal_days(
                viewing - d + 1,
                shown_days(y, m),
                texts(names@),
            ) by {
                law_a_day_has_one_date(
                    viewing as int,
                    y,
                    m,
                    d,
                    c.year as int,
                    c.month as int,
                    c.day as int,
                );
            }
        }
    }
    r
}

/// The month of a day. `journals` says which of its days have a journal. A
/// day that cannot be shown has no month.
pub fn calendar_lines(
    viewing: i32,
    today: i32,
    journals: &Vec<bool>,
    theme: &Theme,
) -> (r: Option<Vec<Line>>)
    ensures
        r is Some == is_day(viewing as int),
        r matches Some(lines) ==> forall|y: int, m: int, d: int| #[trigger]
            is_civil(viewing as int, y, m, d) ==> lines_view(lines@) == month_rows(
                viewing as int,
                y,
                m,
                d,
                today as int,
                journals@,
                *theme,
            ),
{
    match civil_of(viewing) {
        Some(c) => {
            let first: i32 = viewing - c.day as i32 + 1;
            let offset: usize = weekday_of(first);
            let n: usize = days_in_month(c.year, c.month) as usize;
            let cells = make_cells(
                offset,
                n,
                first as i64,
                viewing as i64,
                today as i64,
                journals,
                theme,
            );
            assert(spans_view(cells@).len() == cells@.len());
            let mut lines: Vec<Line> = Vec::new();
            push_row(&mut lines, Line::styled("Mo Tu We Th Fr Sa Su", theme.dim));
            assert(lines_view(lines@) =~= seq![seq![span("Mo Tu We Th Fr Sa Su"@, theme.dim)]]);
            push_weeks(&cells, &mut lines);
            proof {
                assert forall|y: int, m: int, d: int| #[trigger]
                    is_civil(viewing as int, y, m, d) implies lines_view(lines@) == month_rows(
                    viewing as int,
                    y,
                    m,
                    d,
                    today as int,
                    journals@,
                    *theme,
                ) by {
                    law_a_day_has_one_date(
                        viewing as int,
                        y,
                        m,
                        d,
                        c.year as int,
                        c.month as int,
                        c.day as int,
                    );
                }
            }
            Some(lines)
        },
        None => None,
    }
}

/// The month of a day as a panel.
pub open spec fn calendar_panel(
    area: Rect,
    viewing: int,
    y: int,
    m: int,
    d: int,
    today: int,
    journals: Seq<bool>,
    focused: bool,
    theme: Theme,
    icons: IconSet,
) -> PanelView {
    framed(
        area,
        section_border(focused, theme),
        Some(
            span(
                " "@ + icons.calendar@ + " "@ + (date_text(viewing, MONTH_PATTERN@)->0 + " "@),
                theme.hint,
            ),
        ),
        no_style(),
        rows_body(month_rows(viewing, y, m, d, today, journals, theme), false),
    )
}

/// The month that is shown. `journals` says which of its days have a
/// journal.
pub fn render_calendar(
    area: Rect,
    screen: &Screen,
    today: i32,
    journals: &Vec<bool>,
    focus: Option<SidebarSection>,
    theme: &Theme,
    icons: &IconSet,
) -> (p: Panel)
    requires
        is_day(viewed_day(*screen, today) as int),
    ensures
        forall|y: int, m: int, d: int| #[trigger]
            is_civil(viewed_day(*screen, today) as int, y, m, d) ==> p@ == calendar_panel(
                area,
                viewed_day(*screen, today) as int,
                y,
                m,
                d,
                today as int,
                journals@,
                has_focus(focus, SidebarSection::Calendar),
                *theme,
                *icons,
            ),
{
    let viewing: i32 = match screen {
        Screen::Journal(day) => *day,
        Screen::Page(_) => today,
    };
    let lines = match calendar_lines(viewing, today, journals, theme) {
        Some(l) => l,
        None => Vec::new(),
    };
    let month = match format_date(viewing, MONTH_PATTERN) {
        Some(t) => t,
        None => String::new(),
    };
    let end = cat(month.as_str(), " ");
    let title = cat4(" ", icons.calendar, " ", end.as_str());
    Panel::titled(
        area,
        border_of(focused_on(focus, SidebarSection::Calendar), theme),
        Span::styled(title.as_str(), theme.hint),
        Style::new(),
        Body::rows(lines, false),
    )
}

// ---------------------------------------------------------------------
// Pinned pages
// ---------------------------------------------------------------------

/// A pinned page.
#[derive(Debug)]
pub struct PinnedPage {
    pub title: String,
    pub icon: Option<String>,
}

/// A pinned page as a value.
pub ghost struct PinnedValue {
    pub title: Seq<char>,
    pub icon: Option<Seq<char>>,
}

impl View for PinnedPage {
    type V = PinnedValue;

    open spec fn view(&self) -> PinnedValue {
        PinnedValue { title: self.title@, icon: opt_text(self.icon) }
    }
}

/// Pinned pages as values.
pub open spec fn pinned_view(v: Seq<PinnedPage>) -> Seq<PinnedValue> {
    v.map_values(|p: PinnedPage| p@)
}

/// A pinned page comes before another: its title does, whatever their case.
pub open spec fn pinned_before(a: PinnedValue, b: PinnedValue) -> bool {
    text_before(unicode_lower(a.title), unicode_lower(b.title))
}

/// The place of one more page: behind all that it does not come before.
pub open spec fn pinned_place(r: Seq<PinnedValue>, x: PinnedValue) -> int
    decreases r.len(),
{
    if r.len() == 0 || pinned_before(x, r[0]) {
        0
    } else {
        1 + pinned_place(r.skip(1), x)
    }
}

/// Pinned pages in the order in which they are listed. Those with the same
/// title stay in the order they came in.
pub open spec fn pinned_order(v: Seq<PinnedValue>) -> Seq<PinnedValue>
    decreases v.len(),
{
    if v.len() == 0 {
        v
    } else {
        let r = pinned_order(v.drop_last());
        r.insert(pinned_place(r, v.last()), v.last())
    }
}

/// The row of a pinned page.
pub open spec fn pinned_row(p: PinnedValue, icons: IconSet) -> Seq<SpanView> {
    seq![
        span(
            " "@ + (match p.icon {
                Some(i) => i,
                None => icons.file@,
            }) + " "@ + p.title,
            no_style(),
        ),
    ]
}

/// The rows of the pinned pages.
pub open spec fn pinned_rows(v: Seq<PinnedValue>, icons: IconSet) -> Seq<Seq<SpanView>> {
    pinned_order(v).map_values(|p: PinnedValue| pinned_row(p, icons))
}

/// A list of a section, in which the row under the cursor is chosen while
/// the section has the focus. An empty one says why.
pub open spec fn section_panel(
    area: Rect,
    title: Seq<char>,
    rows: Seq<Seq<SpanView>>,
    empty: Seq<char>,
    focused: bool,
    cursor: usize,
    theme: Theme,
) -> PanelView {
    framed(
        area,
        section_border(focused, theme),
        Some(span(title, theme.hint)),
        no_style(),
        if rows.len() == 0 {
            rows_body(seq![seq![span(empty, theme.dim)]], false)
        } else {
            BodyView::Items {
                items: rows,
                chosen: if focused {
                    Some(cursor)
                } else {
                    None
                },
                highlight: theme.list_selected,
            }
        },
    )
}

fn make_section(
    area: Rect,
    title: &str,
    rows: Vec<Line>,
    empty: &str,
    focused: bool,
    cursor: usize,
    theme: &Theme,
) -> (p: Panel)
    ensures
        p@ == section_panel(
            area,
            title@,
            lines_view(rows@),
            empty@,
            focused,
            cursor,
            *theme,
        ),
{
    assert(lines_view(rows@).len() == rows@.len());
    let body = if rows.len() == 0 {
        Body::row(Line::styled(empty, theme.dim))
    } else {
        Body::Items {
            items: rows,
            chosen: if focused {
                Some(cursor)
            } else {
                None
            },
            highlight: theme.list_selected,
        }
    };
    Panel::titled(
        area,
        border_of(focused, theme),
        Span::styled(title, theme.hint),
        Style::new(),
        body,
    )
}

proof fn lemma_pinned_place(r: Seq<PinnedValue>, x: PinnedValue, i: int)
    requires
        0 <= i <= r.len(),
        forall|j: int| 0 <= j < i ==> !pinned_before(x, #[trigger] r[j]),
        i < r.len() ==> pinned_before(x, r[i]),
    ensures
        pinned_place(r, x) == i,
    decreases r.len(),
{
    if i > 0 {
        let t = r.skip(1);
        assert forall|j: int| 0 <= j < i - 1 implies !pinned_before(x, #[trigger] t[j]) by {
            assert(t[j] == r[j + 1]);
        }
        assert(!pinned_before(x, r[0]));
        lemma_pinned_place(t, x, i - 1);
    }
}

fn sort_pinned(v: &Vec<PinnedPage>) -> (r: Vec<PinnedPage>)
    ensures
        pinned_view(r@) == pinned_order(pinned_view(v@)),
{
    let ghost all = pinned_view(v@);
    let mut r: Vec<PinnedPage> = Vec::new();
    let mut i: usize = 0;
    assert(pinned_view(r@) =~= all.take(0));
    while i < v.len()
        invariant
            i <= v@.len(),
            all == pinned_view(v@),
            pinned_view(r@) == pinned_order(all.take(i as int)),
        decreases v@.len() - i,
    {
        let ghost t = all.take(i + 1);
        assert(t.drop_last() =~= all.take(i as int));
        assert(t.last() == v@[i as int]@);
        let key = to_lowercase(v[i].title.as_str());
        let ghost so_far = pinned_view(r@);
        let mut k: usize = 0;
        let mut found = false;
        while k < r.len() && !found
            invariant
                k <= r@.len(),
                i < v@.len(),
                so_far == pinned_view(r@),
                key@ == unicode_lower(v@[i as int]@.title),
                forall|j: int|
                    0 <= j < k ==> !pinned_before(v@[i as int]@, #[trigger] so_far[j]),
                found ==> k < r@.len() && pinned_before(v@[i as int]@, so_far[k as int]),
            decreases r@.len() - k + (if found {
                0int
            } else {
                1
            }),
        {
            assert(so_far[k as int] == r@[k as int]@);
            let other = to_lowercase(r[k].title.as_str());
            if comes_before(key.as_str(), other.as_str()) {
                found = true;
            } else {
                k += 1;
            }
        }
        proof {
            lemma_pinned_place(so_far, v@[i as int]@, k as int);
        }
        let c = PinnedPage {
            title: v[i].title.clone(),
            icon: match &v[i].icon {
                Some(s) => Some(s.clone()),
                None => None,
            },
        };
        assert(c@ == v@[i as int]@);
        let ghost was = r@;
        r.insert(k, c);
        assert(pinned_view(r@) =~= so_far.insert(k as int, c@));
        i += 1;
    }
    assert(all.take(i as int) =~= all);
    r
}

/// The pinned pages.
pub fn render_pinned(
    area: Rect,
    pinned: &Vec<PinnedPage>,
    focus: Option<SidebarSection>,
    cursor: usize,
    theme: &Theme,
    icons: &IconSet,
) -> (p: Panel)
    ensures
        p@ == section_panel(
            area,
            " "@ + icons.star@ + " Pinned "@,
            pinned_rows(pinned_view(pinned@), *icons),
            " (pin pages with pinned:: true)"@,
            has_focus(focus, SidebarSection::Pinned),
            cursor,
            *theme,
        ),
{
    let sorted = sort_pinned(pinned);
    let ghost want = pinned_rows(pinned_view(pinned@), *icons);
    let mut rows: Vec<Line> = Vec::new();
    let mut i: usize = 0;
    assert(lines_view(rows@) =~= want.take(0));
    while i < sorted.len()
        invariant
            i <= sorted@.len(),
            pinned_view(sorted@) == pinned_order(pinned_view(pinned@)),
            want == pinned_rows(pinned_view(pinned@), *icons),
            lines_view(rows@) == want.take(i as int),
        decreases sorted@.len() - i,
    {
        assert(pinned_view(sorted@)[i as int] == sorted@[i as int]@);
        let icon = match &sorted[i].icon {
            Some(s) => s.as_str(),
            None => icons.file,
        };
        let t = cat4(" ", icon, " ", sorted[i].title.as_str());
        let l = Line::raw(t.as_str());
        assert(l@ == want[i as int]);
        push_row(&mut rows, l);
        i += 1;
        assert(lines_view(rows@) =~= want.take(i as int));
    }
    assert(pinned_view(sorted@).len() == sorted@.len());
    assert(want.take(i as int) =~= want);
    let title = cat3(" ", icons.star, " Pinned ");
    make_section(
        area,
        title.as_str(),
        rows,
        " (pin pages with pinned:: true)",
        focused_on(focus, SidebarSection::Pinned),
        cursor,
        theme,
    )
}

// ---------------------------------------------------------------------
// Recent pages
// ---------------------------------------------------------------------

/// How many recent pages are listed.
pub const RECENT_SHOWN: usize = 20;

/// What the index knows of a recent page.
#[derive(Debug)]
pub struct RecentEntry {
    pub title: String,
    pub icon: Option<String>,
    pub is_journal: bool,
}

/// The row of a recent page: its icon and its title, or the name of its file
/// if the index does not know it.
pub open spec fn recent_row(path: Seq<char>, entry: Option<RecentEntry>, icons: IconSet) -> Seq<
    SpanView,
> {
    let text = match entry {
        Some(e) => if e.is_journal {
            " "@ + icons.calendar@ + " "@ + e.title@
        } else {
            " "@ + (match e.icon {
                Some(i) => i@,
                None => icons.file@,
            }) + " "@ + e.title@
        },
        None => " "@ + icons.file@ + " "@ + (match stem_of(path) {
            Some(s) => s,
            None => "?"@,
        }),
    };
    seq![span(text, no_style())]
}

/// The rows of the recent pages.
pub open spec fn recent_rows(
    paths: Seq<String>,
    entries: Seq<Option<RecentEntry>>,
    icons: IconSet,
) -> Seq<Seq<SpanView>> {
    Seq::new(
        at_most(paths.len() as int, RECENT_SHOWN as int) as nat,
        |i: int| recent_row(paths[i]@, entries[i], icons),
    )
}

fn make_recent_row(path: &str, entry: &Option<RecentEntry>, icons: &IconSet) -> (l: Line)
    ensures
        l@ == recent_row(path@, *entry, *icons),
{
    let text = match entry {
        Some(e) => if e.is_journal {
            cat4(" ", icons.calendar, " ", e.title.as_str())
        } else {
            let icon = match &e.icon {
                Some(i) => i.as_str(),
                None => icons.file,
            };
            cat4(" ", icon, " ", e.title.as_str())
        },
        None => {
            let stem = match file_stem(path) {
                Some(s) => s,
                None => "?".to_owned(),
            };
            cat4(" ", icons.file, " ", stem.as_str())
        },
    };
    Line::raw(text.as_str())
}

/// The recent pages. `entries` says what the index knows of each.
pub fn render_recent(
    area: Rect,
    paths: &Vec<String>,
    entries: &Vec<Option<RecentEntry>>,
    focus: Option<SidebarSection>,
    cursor: usize,
    theme: &Theme,
    icons: &IconSet,
) -> (p: Panel)
    requires
        entries@.len() == paths@.len(),
    ensures
        p@ == section_panel(
            area,
            " "@ + icons.history@ + " Recent "@,
            recent_rows(paths@, entries@, *icons),
            " (opened pages show here)"@,
            has_focus(focus, SidebarSection::Recent),
            cursor,
            *theme,
        ),
{
    let ghost want = recent_rows(paths@, entries@, *icons);
    let n: usize = if paths.len() < RECENT_SHOWN {
        paths.len()
    } else {
        RECENT_SHOWN
    };
    let mut rows: Vec<Line> = Vec::new();
    let mut i: usize = 0;
    assert(lines_view(rows@) =~= want.take(0));
    while i < n
        invariant
            i <= n <= paths@.len(),
            n == want.len(),
            entries@.len() == paths@.len(),
            want == recent_rows(paths@, entries@, *icons),
            lines_view(rows@) == want.take(i as int),
        decreases n - i,
    {
        let l = make_recent_row(paths[i].as_str(), &entries[i], icons);
        assert(l@ == want[i as int]);
        push_row(&mut rows, l);
        i += 1;
        assert(lines_view(rows@) =~= want.take(i as int));
    }
    assert(want.take(i as int) =~= want);
    let title = cat3(" ", icons.history, " Recent ");
    make_section(
        area,
        title.as_str(),
        rows,
        " (opened pages show here)",
        focused_on(focus, SidebarSection::Recent),
        cursor,
        theme,
    )
}

/// The parts of the sidebar.
pub open spec fn sidebar_parts() -> Seq<Part> {
    seq![Part::Length(11), Part::Length(7), Part::Min(5)]
}

/// The sidebar.
pub fn render_sidebar(
    area: Rect,
    screen: &Screen,
    today: i32,
    journals: &Vec<bool>,
    pinned: &Vec<PinnedPage>,
    paths: &Vec<String>,
    entries: &Vec<Option<RecentEntry>>,
    focus: Option<SidebarSection>,
    cursor: usize,
    theme: &Theme,
    icons: &IconSet,
) -> (r: Vec<Panel>)
    requires
        is_day(viewed_day(*screen, today) as int),
        entries@.len() == paths@.len(),
    ensures
        exists|rows: Seq<Rect>|
            {
                &&& #[trigger] stacked(area, sidebar_parts(), rows)
                &&& panels_view(r@).len() == 3
                &&& forall|y: int, m: int, d: int| #[trigger]
                    is_civil(viewed_day(*screen, today) as int, y, m, d) ==> panels_view(r@)[0]
                        == calendar_panel(
                        rows[0],
                        viewed_day(*screen, today) as int,
                        y,
                        m,
                        d,
                        today as int,
                        journals@,
                        has_focus(focus, SidebarSection::Calendar),
                        *theme,
                        *icons,
                    )
                &&& panels_view(r@)[1] == section_panel(
                    rows[1],
                    " "@ + icons.star@ + " Pinned "@,
                    pinned_rows(pinned_view(pinned@), *icons),
                    " (pin pages with pinned:: true)"@,
                    has_focus(focus, SidebarSection::Pinned),
                    cursor,
                    *theme,
                )
                &&& panels_view(r@)[2] == section_panel(
                    rows[2],
                    " "@ + icons.history@ + " Recent "@,
                    recent_rows(paths@, entries@, *icons),
                    " (opened pages show here)"@,
                    has_focus(focus, SidebarSection::Recent),
                    cursor,
                    *theme,
                )
            },
{
    let parts = [Part::Length(11), Part::Length(7), Part::Min(5)];
    assert(parts@ =~= sidebar_parts());
    let rows = split_rows(area, &parts);
    assert(stacked(area, sidebar_parts(), rows@));
    let c = render_calendar(rows[0], screen, today, journals, focus, theme, icons);
    let p = render_pinned(rows[1], pinned, focus, cursor, theme, icons);
    let q = render_recent(rows[2], paths, entries, focus, cursor, theme, icons);
    let r = panels3(c, p, q);
    assert(panels_view(r@)[0] == c@);
    r
}

// ---------------------------------------------------------------------
// Laws
// ---------------------------------------------------------------------

/// Pages are in the order of their titles.
pub open spec fn in_title_order(r: Seq<PinnedValue>) -> bool {
    forall|i: int, j: int|
        0 <= i < j < r.len() ==> !pinned_before(#[trigger] r[j], #[trigger] r[i])
}

proof fn lemma_place_splits(r: Seq<PinnedValue>, x: PinnedValue)
    ensures
        0 <= pinned_place(r, x) <= r.len(),
        forall|j: int| 0 <= j < pinned_place(r, x) ==> !pinned_before(x, #[trigger] r[j]),
        pinned_place(r, x) < r.len() ==> pinned_before(x, r[pinned_place(r, x)]),
    decreases r.len(),
{
    if r.len() > 0 && !pinned_before(x, r[0]) {
        let t = r.skip(1);
        lemma_place_splits(t, x);
        let k = pinned_place(t, x);
        assert forall|j: int| 0 <= j < k + 1 implies !pinned_before(x, #[trigger] r[j]) by {
            if j > 0 {
                assert(t[j - 1] == r[j]);
            }
        }
        if k < t.len() {
            assert(t[k] == r[k + 1]);
        }
    }
}

/// The pinned pages are listed by their titles, without regard to case, and
/// every one of them is listed once.
pub proof fn law_pinned_pages_are_sorted(v: Seq<PinnedValue>)
    ensures
        in_title_order(pinned_order(v)),
        pinned_order(v).to_multiset() == v.to_multiset(),
    decreases v.len(),
{
    if v.len() > 0 {
        let d = v.drop_last();
        let x = v.last();
        law_pinned_pages_are_sorted(d);
        let r = pinned_order(d);
        let k = pinned_place(r, x);
        lemma_place_splits(r, x);
        let t = r.insert(k, x);
        assert forall|i: int, j: int| 0 <= i < j < t.len() implies !pinned_before(
            #[trigger] t[j],
            #[trigger] t[i],
        ) by {
            if i == k {
                let y = r[j - 1];
                let first = r[k];
                lemma_text_order(
                    unicode_lower(x.title),
                    unicode_lower(first.title),
                    unicode_lower(y.title),
                );
                lemma_text_order(
                    unicode_lower(x.title),
                    unicode_lower(first.title),
                    unicode_lower(x.title),
                );
                if j - 1 > k {
                    assert(!pinned_before(r[j - 1], r[k]));
                }
            } else if j == k {
                assert(t[i] == r[i]);
            }
        }
        vstd::seq_lib::to_multiset_insert(r, k, x);
        vstd::seq_lib::to_multiset_build(d, x);
        assert(v =~= d.push(x));
    }
}

/// Each day of the month stands under its day of the week, a week below the
/// same day of the week before.
pub proof fn law_days_stand_under_their_weekday(
    viewing: int,
    y: int,
    m: int,
    d: int,
    today: int,
    journals: Seq<bool>,
    theme: Theme,
    k: int,
)
    requires
        0 <= k < shown_days(y, m),
    ensures
        ({
            let first = viewing - d + 1;
            let at = days_from_monday(first) + k;
            let rows = month_rows(viewing, y, m, d, today, journals, theme);
            &&& 1 + at / 7 < rows.len()
            &&& at % 7 < rows[1 + at / 7].len()
            &&& rows[1 + at / 7][at % 7] == day_cell(
                k + 1,
                first + k == today,
                k + 1 == d,
                k < journals.len() && journals[k],
                theme,
            )
            &&& at % 7 == days_from_monday(first + k)
        }),
{
    let first = viewing - d + 1;
    let off = days_from_monday(first);
    let n = shown_days(y, m);
    let at = off + k;
    let cells = month_cells(off, n, first, viewing, today, journals, theme);
    let w = at / 7;
    let c = at % 7;
    assert(cells.len() == off + n);
    assert(at == 7 * w + c);
    assert(w < (cells.len() + 6) / 7);
    assert(weeks(cells)[w] == cells.subrange(7 * w, at_most(7 * w + 7, cells.len() as int)));
    assert(weeks(cells)[w][c] == cells[at]);
    assert(month_rows(viewing, y, m, d, today, journals, theme)[1 + w] == weeks(cells)[w]);
    assert((first - 1 + k) % 7 == ((first - 1) % 7 + k) % 7);
}

/// A day is shown by its number, in three columns, with a sign for today and
/// for a day that has a journal.
pub proof fn law_days_are_numbered(
    day: int,
    is_today: bool,
    is_viewed: bool,
    has_journal: bool,
    theme: Theme,
)
    requires
        1 <= day <= 31,
    ensures
        ({
            let t = day_cell(day, is_today, is_viewed, has_journal, theme).text;
            &&& t.len() == 3
            &&& t.skip(1) == (if day < 10 {
                " "@ + decimal(day as nat)
            } else {
                decimal(day as nat)
            })
            &&& is_today ==> t[0] == '◉'
            &&& !is_today && has_journal ==> t[0] == '●'
            &&& !is_today && !has_journal ==> t[0] == '·'
        }),
{
    reveal_strlit("◉");
    reveal_strlit("●");
    reveal_strlit("·");
    reveal_strlit(" ");
    reveal_with_fuel(decimal, 3);
    let t = day_cell(day, is_today, is_viewed, has_journal, theme).text;
    assert(decimal(day as nat).len() == (if day < 10 {
        1int
    } else {
        2
    }));
    assert(t.skip(1) =~= day_number(day));
}

/// The recent pages are listed in their order, at most twenty of them, and the
/// calendar shows the month of the journal on the screen, or of today.
pub proof fn law_recent_pages_are_listed_in_order(
    paths: Seq<String>,
    entries: Seq<Option<RecentEntry>>,
    icons: IconSet,
)
    ensures
        recent_rows(paths, entries, icons).len() == (if paths.len() < 20 {
            paths.len()
        } else {
            20
        }),
        forall|i: int|
            0 <= i < recent_rows(paths, entries, icons).len() ==> #[trigger] recent_rows(
                paths,
                entries,
                icons,
            )[i] == recent_row(paths[i]@, entries[i], icons),
        forall|day: i32, today: i32| #[trigger] viewed_day(Screen::Journal(day), today) == day,
        forall|p: String, today: i32| #[trigger] viewed_day(Screen::Page(p), today) == today,
{
}

/// Each pinned page has its row, in the order of the titles, with its own sign
/// or that of a file before its title; and a day has a journal where its file
/// is listed.
pub proof fn law_pinned_pages_have_rows(v: Seq<PinnedValue>, icons: IconSet, i: int)
    requires
        0 <= i < pinned_order(v).len(),
    ensures
        pinned_rows(v, icons).len() == pinned_order(v).len(),
        pinned_rows(v, icons)[i][0].text == " "@ + (match pinned_order(v)[i].icon {
            Some(sign) => sign,
            None => icons.file@,
        }) + " "@ + pinned_order(v)[i].title,
        forall|first: int, n: int, names: Seq<Seq<char>>, k: int|
            0 <= k < n ==> #[trigger] journal_days(first, n, names)[k] == (date_text(
                first + k,
                ISO_PATTERN@,
            ) is Some && names.contains(date_text(first + k, ISO_PATTERN@)->0)),
{
}

} // verus!

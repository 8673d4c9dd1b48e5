//! The stack of toasts.

use crate::icons::IconSet;
use crate::state::{toasts_view, Toast, ToastKind, ToastValue};
use crate::style::{no_style, span, Color, Line, Rect, Span, Style};
use crate::text::cat3;
use crate::theme::{popup_style_of, Theme};
use crate::view::overlays::from_end;
use crate::view::panel::{
    cleared, framed, lemma_panels_push, on_screen, panels_view, rows_body, Body, Panel, PanelView,
};
use vstd::prelude::*;

verus! {

/// How high a toast is, with its frame.
pub const TOAST_HEIGHT: u16 = 3;

/// How many rows are kept free below the toasts.
pub const BOTTOM_GAP: u16 = 4;

/// The name of what a toast reports.
pub open spec fn toast_label(kind: ToastKind) -> &'static str {
    match kind {
        ToastKind::Success => "ok",
        ToastKind::Info => "info",
        ToastKind::Warning => "warn",
        ToastKind::Error => "error",
    }
}

/// The icon of what a toast reports.
pub open spec fn toast_icon(kind: ToastKind, icons: IconSet) -> &'static str {
    match kind {
        ToastKind::Success => icons.success,
        ToastKind::Info => icons.info,
        ToastKind::Warning => icons.warning,
        ToastKind::Error => icons.error,
    }
}

/// The colour of what a toast reports.
pub open spec fn toast_color(kind: ToastKind) -> Color {
    match kind {
        ToastKind::Success => Color::LightGreen,
        ToastKind::Info => Color::LightCyan,
        ToastKind::Warning => Color::LightYellow,
        ToastKind::Error => Color::LightRed,
    }
}

/// The name of what a toast reports.
pub fn label_for(kind: ToastKind) -> (r: &'static str)
    ensures
        r == toast_label(kind),
{
    match kind {
        ToastKind::Success => "ok",
        ToastKind::Info => "info",
        ToastKind::Warning => "warn",
        ToastKind::Error => "error",
    }
}

/// The icon and the colour of what a toast reports.
pub fn icon_and_color(kind: ToastKind, icons: &IconSet) -> (r: (&'static str, Color))
    ensures
        r == (toast_icon(kind, *icons), toast_color(kind)),
{
    match kind {
        ToastKind::Success => (icons.success, Color::LightGreen),
        ToastKind::Info => (icons.info, Color::LightCyan),
        ToastKind::Warning => (icons.warning, Color::LightYellow),
        ToastKind::Error => (icons.error, Color::LightRed),
    }
}

/// How wide toasts are on a screen of `width` columns.
pub open spec fn toast_width(width: u16) -> int {
    if width < 4 {
        0
    } else if width - 4 < 50 {
        width - 4
    } else {
        50
    }
}

/// The area of the toast in a row.
pub open spec fn toast_area(full: Rect, y: int) -> Rect {
    let w = toast_width(full.width);
    Rect {
        x: from_end(full.x as int, full.width as int, w) as u16,
        y: y as u16,
        width: w as u16,
        height: TOAST_HEIGHT,
    }
}

/// A toast as it is drawn.
pub open spec fn toast_card(t: ToastValue, area: Rect, theme: Theme, icons: IconSet) -> PanelView {
    let accent = Style { fg: Some(toast_color(t.kind)), ..no_style() };
    let strong = Style { bold: true, ..accent };
    framed(
        area,
        accent,
        Some(span(" "@ + toast_label(t.kind)@ + " "@, strong)),
        popup_style_of(theme),
        rows_body(
            seq![
                seq![
                    span(" "@ + toast_icon(t.kind, icons)@ + " "@, strong),
                    span(t.message, no_style()),
                ],
            ],
            false,
        ),
    )
}

/// The row of the first toast.
pub open spec fn first_toast(full: Rect) -> int {
    if full.height < BOTTOM_GAP + TOAST_HEIGHT {
        full.y as int
    } else {
        full.y + full.height - (BOTTOM_GAP + TOAST_HEIGHT)
    }
}

/// Toasts from a row upwards, the newest first, as long as there is room.
pub open spec fn toast_stack(
    toasts: Seq<ToastValue>,
    y: int,
    full: Rect,
    theme: Theme,
    icons: IconSet,
) -> Seq<PanelView>
    decreases toasts.len(),
{
    if toasts.len() == 0 || y < full.y + 2 {
        Seq::empty()
    } else {
        let area = toast_area(full, y);
        seq![cleared(area), toast_card(toasts.last(), area, theme, icons)] + toast_stack(
            toasts.drop_last(),
            if y < TOAST_HEIGHT {
                0
            } else {
                y - TOAST_HEIGHT
            },
            full,
            theme,
            icons,
        )
    }
}

/// The toasts as they are drawn; in a sliver of a screen none is.
pub open spec fn toast_panels(
    toasts: Seq<ToastValue>,
    full: Rect,
    theme: Theme,
    icons: IconSet,
) -> Seq<PanelView> {
    if toast_width(full.width) < 12 {
        Seq::empty()
    } else {
        toast_stack(toasts, first_toast(full), full, theme, icons)
    }
}

fn make_card(t: &Toast, area: Rect, theme: &Theme, icons: &IconSet) -> (p: Panel)
    ensures
        p@ == toast_card(t@, area, *theme, *icons),
{
    let (icon, color) = icon_and_color(t.kind, icons);
    let accent = Style::new().fg(color);
    let strong = Style::new().fg(color).bold();
    let title = cat3(" ", label_for(t.kind), " ");
    let mark = cat3(" ", icon, " ");
    Panel::titled(
        area,
        accent,
        Span::styled(title.as_str(), strong),
        theme.popup_style(),
        Body::row(Line::of2(Span::styled(mark.as_str(), strong), Span::raw(t.message.as_str()))),
    )
}

/// The toasts, in the corner at the bottom right: the newest at the bottom,
/// and the others above it.
pub fn render_toasts(full: Rect, toasts: &Vec<Toast>, theme: &Theme, icons: &IconSet) -> (r: Vec<
    Panel,
>)
    requires
        on_screen(full),
        full.y + 2 <= u16::MAX,
    ensures
        panels_view(r@) == toast_panels(toasts_view(toasts@), full, *theme, *icons),
{
    let mut r: Vec<Panel> = Vec::new();
    assert(panels_view(r@) =~= Seq::empty());
    let room: u16 = full.width.saturating_sub(4);
    let width: u16 = if room < 50 {
        room
    } else {
        50
    };
    if width < 12 {
        return r;
    }
    let ghost all = toasts_view(toasts@);
    let ghost want = toast_panels(all, full, *theme, *icons);
    let x: u16 = full.x + full.width.saturating_sub(width + 2);
    let mut y: u16 = full.y + full.height.saturating_sub(BOTTOM_GAP + TOAST_HEIGHT);
    let mut n: usize = toasts.len();
    assert(all.take(n as int) =~= all);
    assert(panels_view(r@) + toast_stack(all, y as int, full, *theme, *icons) =~= want);
    while n > 0 && y >= full.y + 2
        invariant
            n <= toasts@.len(),
            full.y + 2 <= u16::MAX,
            all == toasts_view(toasts@),
            x == from_end(full.x as int, full.width as int, width as int),
            width == toast_width(full.width),
            panels_view(r@) + toast_stack(all.take(n as int), y as int, full, *theme, *icons)
                == want,
        decreases n,
    {
        let ghost t = all.take(n as int);
        let ghost was = panels_view(r@);
        assert(t.drop_last() =~= all.take(n - 1));
        assert(t.last() == toasts@[n - 1]@);
        let area = Rect { x, y, width, height: TOAST_HEIGHT };
        assert(area == toast_area(full, y as int));
        let c = Panel::cleared(area);
        proof {
            lemma_panels_push(r@, c);
        }
        r.push(c);
        let card = make_card(&toasts[n - 1], area, theme, icons);
        proof {
            lemma_panels_push(r@, card);
        }
        r.push(card);
        y = y.saturating_sub(TOAST_HEIGHT);
        n -= 1;
        assert(panels_view(r@) + toast_stack(all.take(n as int), y as int, full, *theme, *icons)
            =~= want);
    }
    assert(toast_stack(all.take(n as int), y as int, full, *theme, *icons) =~= Seq::empty());
    assert(panels_view(r@) =~= want);
    r
}

// ---------------------------------------------------------------------
// Laws
// ---------------------------------------------------------------------

/// Toasts leave the two rows at the top and those at the bottom free, and
/// each stands clear above the one that is newer. Every toast is two panels:
/// one clears its area, the other is its card.
pub proof fn law_toasts_stay_in_their_place(
    toasts: Seq<ToastValue>,
    full: Rect,
    theme: Theme,
    icons: IconSet,
)
    requires
        on_screen(full),
    ensures
        ({
            let r = toast_panels(toasts, full, theme, icons);
            &&& forall|i: int|
                0 <= i < r.len() ==> full.y + 2 <= (#[trigger] r[i]).area.y && r[i].area.y
                    + r[i].area.height + BOTTOM_GAP <= full.y + full.height
            &&& forall|i: int, j: int|
                0 <= i < j < r.len() && i / 2 < j / 2 ==> (#[trigger] r[j]).area.y
                    + r[j].area.height <= (#[trigger] r[i]).area.y
        }),
{
    lemma_stack(toasts, first_toast(full), full, theme, icons);
}

proof fn lemma_stack(toasts: Seq<ToastValue>, y: int, full: Rect, theme: Theme, icons: IconSet)
    requires
        0 <= y <= u16::MAX,
    ensures
        ({
            let r = toast_stack(toasts, y, full, theme, icons);
            &&& forall|i: int|
                0 <= i < r.len() ==> full.y + 2 <= (#[trigger] r[i]).area.y <= y
                    && r[i].area.height == TOAST_HEIGHT
            &&& forall|i: int, j: int|
                0 <= i < j < r.len() && i / 2 < j / 2 ==> (#[trigger] r[j]).area.y
                    + TOAST_HEIGHT <= (#[trigger] r[i]).area.y
        }),
    decreases toasts.len(),
{
    if toasts.len() > 0 && y >= full.y + 2 {
        let next = if y < TOAST_HEIGHT {
            0
        } else {
            y - TOAST_HEIGHT
        };
        lemma_stack(toasts.drop_last(), next, full, theme, icons);
        let r = toast_stack(toasts, y, full, theme, icons);
        let s = toast_stack(toasts.drop_last(), next, full, theme, icons);
        assert(r.len() == s.len() + 2);
        assert forall|i: int| 2 <= i < r.len() implies #[trigger] r[i] == s[i - 2] by {}
        assert(r[0].area.y == y && r[1].area.y == y);
    }
}

/// The newest toast is the lowest, at the lower right of the screen, and each
/// kind looks other than the others.
pub proof fn law_the_newest_toast_is_lowest(
    toasts: Seq<ToastValue>,
    full: Rect,
    theme: Theme,
    icons: IconSet,
)
    requires
        on_screen(full),
        full.width >= 16,
        full.height >= 9,
        toasts.len() > 0,
    ensures
        ({
            let r = toast_panels(toasts, full, theme, icons);
            &&& r.len() >= 2
            &&& r[1] == toast_card(toasts.last(), r[1].area, theme, icons)
            &&& r[0].area == r[1].area
            &&& r[1].area.x + r[1].area.width + 2 == full.x + full.width
            &&& r[1].area.y + r[1].area.height + 4 == full.y + full.height
            &&& r[1].area.width <= 50
            &&& r[1].area.height == 3
        }),
{
}

/// Each kind of toast has a name and a colour of its own.
pub proof fn law_kinds_of_toasts_differ(a: ToastKind, b: ToastKind)
    requires
        a != b,
    ensures
        toast_label(a)@ != toast_label(b)@,
        toast_color(a) != toast_color(b),
{
    reveal_strlit("ok");
    reveal_strlit("info");
    reveal_strlit("warn");
    reveal_strlit("error");
    assert("ok"@.len() == 2 && "info"@.len() == 4 && "warn"@.len() == 4 && "error"@.len() == 5);
    assert("info"@[0] == 'i' && "warn"@[0] == 'w');
}

} // verus!

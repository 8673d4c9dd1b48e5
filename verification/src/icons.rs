//! The glyphs of the interface's own chrome.
//!
//! Emoji is the default because it works with ordinary terminal fonts.
//! Nerd Font glyphs are opt-in. Task checkboxes, calendar day dots,
//! scrollbar symbols and plain geometric separators are the same in both.

use crate::style::{no_style, span, Span, SpanView};
use crate::text::{ascii_lower_all, matches_at, same_text, starts_with, to_ascii_lowercase};
use crate::theme::Theme;
use crate::view::row_chrome::FoldMarker;
use vstd::prelude::*;

verus! {

/// Which set of glyphs to draw.
#[derive(Clone, Copy, PartialEq, Eq, Structural, Debug)]
pub enum TuiIconStyle {
    Emoji,
    NerdFont,
}

impl Default for TuiIconStyle {
    fn default() -> (s: TuiIconStyle)
        ensures
            s == TuiIconStyle::Emoji,
    {
        TuiIconStyle::Emoji
    }
}

/// One glyph for each thing the interface draws an icon for.
#[derive(Clone, Copy, Debug)]
pub struct IconSet {
    pub calendar: &'static str,
    pub week: &'static str,
    pub file: &'static str,
    pub image: &'static str,
    pub clock: &'static str,
    pub stamp: &'static str,
    pub star: &'static str,
    pub history: &'static str,
    pub bolt: &'static str,
    pub search: &'static str,
    pub cog: &'static str,
    pub paint_brush: &'static str,
    pub warning: &'static str,
    /// Toast accents — one per `ToastKind` arm, so the four states do
    /// not drift between Emoji and Nerd Font.
    pub success: &'static str,
    pub info: &'static str,
    pub error: &'static str,
    pub save: &'static str,
    pub clipboard: &'static str,
    /// Snoozed-reminder chip in the reminders overlay.
    pub snooze: &'static str,
    pub hashtag: &'static str,
    pub bell: &'static str,
    pub play: &'static str,
    /// TODO-progress header chip (`nf-fa-check-square-o`).
    pub todo_chip: &'static str,
    /// Insert-mode footer chip (`nf-fa-circle`).
    pub editing: &'static str,
    /// "saved Ns ago" freshness chip (`nf-fa-refresh`).
    pub freshness: &'static str,
    /// Workspace-name footer chip (`nf-fa-circle-thin`).
    pub workspace: &'static str,
    /// Backlink-count footer chip (`nf-fa-link`).
    pub backlinks: &'static str,
    /// Fold marker before an expanded parent; carries its own padding
    /// space so columns stay flush (`nf-fa-chevron-down`).
    pub fold_open: &'static str,
    /// Fold marker before a collapsed parent (`nf-fa-chevron-right`).
    pub fold_closed: &'static str,
    /// Help-overlay legend line explaining the two fold markers.
    pub fold_legend: &'static str,
}

/// The emoji set.
pub open spec fn emoji_icons() -> IconSet {
    IconSet {
        calendar: "📅",
        week: "📆",
        file: "📄",
        image: "🖼",
        clock: "🕐",
        stamp: "🕒",
        star: "⭐",
        history: "🕘",
        bolt: "⚡",
        search: "🔎",
        cog: "⚙",
        paint_brush: "🎨",
        warning: "⚠",
        success: "✓",
        info: "ℹ",
        error: "✕",
        save: "💾",
        clipboard: "📋",
        snooze: "💤",
        hashtag: "🔢",
        bell: "⏰",
        play: "▶",
        todo_chip: "☑",
        editing: "●",
        freshness: "⟳",
        workspace: "◌",
        backlinks: "⇇",
        fold_open: "▼ ",
        fold_closed: "▶ ",
        fold_legend: "              (▼ expanded · ▶ collapsed · synced via op log)",
    }
}

/// The Nerd Font set.
pub open spec fn nerd_font_icons() -> IconSet {
    IconSet {
        calendar: "\u{f073}",
        week: "\u{f073}",
        file: "\u{f016}",
        image: "\u{f03e}",
        clock: "\u{f017}",
        stamp: "\u{f017}",
        star: "\u{f005}",
        history: "\u{f1da}",
        bolt: "\u{f0e7}",
        search: "\u{f002}",
        cog: "\u{f013}",
        paint_brush: "\u{f07c0}",
        warning: "\u{f071}",
        success: "\u{f00c}",
        info: "\u{f05a}",
        error: "\u{f00d}",
        save: "\u{f0c7}",
        clipboard: "\u{f0ea}",
        snooze: "\u{f1f6}",
        hashtag: "\u{f292}",
        bell: "\u{f0f3}",
        play: "\u{f04b}",
        todo_chip: "\u{f046}",
        editing: "\u{f111}",
        freshness: "\u{f021}",
        workspace: "\u{f1db}",
        backlinks: "\u{f0c1}",
        fold_open: "\u{f078} ",
        fold_closed: "\u{f054} ",
        fold_legend: "              (\u{f078} expanded · \u{f054} collapsed · synced via op log)",
    }
}

/// The set of a style.
pub open spec fn icons_of(style: TuiIconStyle) -> IconSet {
    match style {
        TuiIconStyle::Emoji => emoji_icons(),
        TuiIconStyle::NerdFont => nerd_font_icons(),
    }
}

/// The key of a reminder property.
pub const REMIND_KEY: &'static str = "remind";

/// The glyph of a property key that has a meaning of its own.
pub open spec fn glyph_of_property(icons: IconSet, key: Seq<char>) -> Option<&'static str> {
    let k = ascii_lower_all(key);
    if k == "remind"@ {
        Some(icons.bell)
    } else if k == "auto-run"@ {
        Some(icons.play)
    } else if k == "template"@ {
        Some(icons.clipboard)
    } else {
        None
    }
}

/// The glyph of a command category.
pub open spec fn glyph_of_category(icons: IconSet, category: Seq<char>) -> &'static str {
    if category == "Actions"@ {
        icons.bolt
    } else if category == "Navigation"@ {
        "↪"
    } else if category == "Search"@ {
        icons.search
    } else if category == "Settings"@ {
        icons.cog
    } else if category == "Dates & time"@ {
        icons.calendar
    } else {
        "•"
    }
}

/// The glyph of a command.
pub open spec fn glyph_of_command(icons: IconSet, name: Seq<char>) -> &'static str {
    if name == "run"@ {
        icons.play
    } else if name == "prop"@ {
        "≡"
    } else if name == "search"@ || name == "find"@ {
        icons.search
    } else if name == "theme"@ {
        icons.paint_brush
    } else if name == "open"@ || name == "switch"@ {
        "↪"
    } else if name == "quit"@ || name == "q"@ {
        "✕"
    } else if matches_at(name, "date"@, 0) || name == "dt"@ || name == "dy"@ || name == "dtm"@ {
        icons.calendar
    } else if matches_at(name, "time"@, 0) {
        icons.clock
    } else if matches_at(name, "iso"@, 0) {
        icons.hashtag
    } else if matches_at(name, "week"@, 0) {
        icons.week
    } else if name == "stamp"@ {
        icons.stamp
    } else {
        "·"
    }
}

/// The fold marker before a bullet; a leaf keeps the two-cell gap.
pub open spec fn fold_marker_span(icons: IconSet, marker: FoldMarker, theme: Theme) -> SpanView {
    match marker {
        FoldMarker::Leaf => span("  "@, no_style()),
        FoldMarker::Expanded => span(icons.fold_open@, theme.dim),
        FoldMarker::Collapsed => span(icons.fold_closed@, theme.hint),
    }
}

impl IconSet {
    /// The set of a style.
    pub fn new(style: TuiIconStyle) -> (icons: IconSet)
        ensures
            icons == icons_of(style),
    {
        match style {
            TuiIconStyle::Emoji => IconSet::emoji(),
            TuiIconStyle::NerdFont => IconSet::nerd_font(),
        }
    }

    /// The glyph of a property key that has a meaning of its own.
    pub fn property_glyph(&self, key: &str) -> (g: Option<&'static str>)
        ensures
            g == glyph_of_property(*self, key@),
    {
        let k = to_ascii_lowercase(key);
        if same_text(k.as_str(), "remind") {
            Some(self.bell)
        } else if same_text(k.as_str(), "auto-run") {
            Some(self.play)
        } else if same_text(k.as_str(), "template") {
            Some(self.clipboard)
        } else {
            None
        }
    }

    /// The glyph of a command category.
    pub fn category_glyph(&self, category: &str) -> (g: &'static str)
        ensures
            g == glyph_of_category(*self, category@),
    {
        if same_text(category, "Actions") {
            self.bolt
        } else if same_text(category, "Navigation") {
            "↪"
        } else if same_text(category, "Search") {
            self.search
        } else if same_text(category, "Settings") {
            self.cog
        } else if same_text(category, "Dates & time") {
            self.calendar
        } else {
            "•"
        }
    }

    /// The fold marker before a bullet, glyph and colour together.
    pub fn fold_span(&self, marker: FoldMarker, theme: &Theme) -> (s: Span)
        ensures
            s@ == fold_marker_span(*self, marker, *theme),
    {
        match marker {
            FoldMarker::Leaf => Span::raw("  "),
            FoldMarker::Expanded => Span::styled(self.fold_open, theme.dim),
            FoldMarker::Collapsed => Span::styled(self.fold_closed, theme.hint),
        }
    }

    /// The glyph of a command.
    pub fn command_glyph(&self, name: &str) -> (g: &'static str)
        ensures
            g == glyph_of_command(*self, name@),
    {
        if same_text(name, "run") {
            self.play
        } else if same_text(name, "prop") {
            "≡"
        } else if same_text(name, "search") || same_text(name, "find") {
            self.search
        } else if same_text(name, "theme") {
            self.paint_brush
        } else if same_text(name, "open") || same_text(name, "switch") {
            "↪"
        } else if same_text(name, "quit") || same_text(name, "q") {
            "✕"
        } else if starts_with(name, "date") || same_text(name, "dt") || same_text(name, "dy")
            || same_text(name, "dtm") {
            self.calendar
        } else if starts_with(name, "time") {
            self.clock
        } else if starts_with(name, "iso") {
            self.hashtag
        } else if starts_with(name, "week") {
            self.week
        } else if same_text(name, "stamp") {
            self.stamp
        } else {
            "·"
        }
    }

    /// The emoji set.
    pub fn emoji() -> (icons: IconSet)
        ensures
            icons == emoji_icons(),
    {
        IconSet {
            calendar: "📅",
            week: "📆",
            file: "📄",
            image: "🖼",
            clock: "🕐",
            stamp: "🕒",
            star: "⭐",
            history: "🕘",
            bolt: "⚡",
            search: "🔎",
            cog: "⚙",
            paint_brush: "🎨",
            warning: "⚠",
            success: "✓",
            info: "ℹ",
            error: "✕",
            save: "💾",
            clipboard: "📋",
            snooze: "💤",
            hashtag: "🔢",
            bell: "⏰",
            play: "▶",
            todo_chip: "☑",
            editing: "●",
            freshness: "⟳",
            workspace: "◌",
            backlinks: "⇇",
            fold_open: "▼ ",
            fold_closed: "▶ ",
            fold_legend: "              (▼ expanded · ▶ collapsed · synced via op log)",
        }
    }

    /// The Nerd Font set.
    pub fn nerd_font() -> (icons: IconSet)
        ensures
            icons == nerd_font_icons(),
    {
        IconSet {
            calendar: "\u{f073}",
            week: "\u{f073}",
            file: "\u{f016}",
            image: "\u{f03e}",
            clock: "\u{f017}",
            stamp: "\u{f017}",
            star: "\u{f005}",
            history: "\u{f1da}",
            bolt: "\u{f0e7}",
            search: "\u{f002}",
            cog: "\u{f013}",
            paint_brush: "\u{f07c0}",
            warning: "\u{f071}",
            success: "\u{f00c}",
            info: "\u{f05a}",
            error: "\u{f00d}",
            save: "\u{f0c7}",
            clipboard: "\u{f0ea}",
            snooze: "\u{f1f6}",
            hashtag: "\u{f292}",
            bell: "\u{f0f3}",
            play: "\u{f04b}",
            todo_chip: "\u{f046}",
            editing: "\u{f111}",
            freshness: "\u{f021}",
            workspace: "\u{f1db}",
            backlinks: "\u{f0c1}",
            fold_open: "\u{f078} ",
            fold_closed: "\u{f054} ",
            fold_legend: "              (\u{f078} expanded · \u{f054} collapsed · synced via op log)",
        }
    }
}

impl Default for IconSet {
    fn default() -> (icons: IconSet)
        ensures
            icons == emoji_icons(),
    {
        IconSet::new(TuiIconStyle::Emoji)
    }
}

// ---------------------------------------------------------------------
// Laws
// ---------------------------------------------------------------------

/// A property has the sign of its key, in either case of letters, and most have
/// none.
pub proof fn law_properties_have_their_signs(icons: IconSet, key: Seq<char>)
    ensures
        ascii_lower_all(key) == "remind"@ ==> glyph_of_property(icons, key) == Some(icons.bell),
        ascii_lower_all(key) == "auto-run"@ ==> glyph_of_property(icons, key) == Some(icons.play),
        ascii_lower_all(key) == "template"@ ==> glyph_of_property(icons, key) == Some(
            icons.clipboard,
        ),
        glyph_of_property(icons, key) is Some ==> ascii_lower_all(key) == "remind"@
            || ascii_lower_all(key) == "auto-run"@ || ascii_lower_all(key) == "template"@,
{
    reveal_strlit("remind");
    reveal_strlit("auto-run");
    reveal_strlit("template");
    assert("remind"@.len() == 6);
    assert("auto-run"@[0] == 'a' && "template"@[0] == 't' && "remind"@[0] == 'r');
}

/// A block shows whether it is folded, and nothing where there is nothing to
/// fold.
pub proof fn law_folds_have_their_signs(icons: IconSet, theme: Theme)
    ensures
        fold_marker_span(icons, FoldMarker::Expanded, theme).text == icons.fold_open@,
        fold_marker_span(icons, FoldMarker::Collapsed, theme).text == icons.fold_closed@,
        fold_marker_span(icons, FoldMarker::Leaf, theme).text == "  "@,
        icons_of(TuiIconStyle::Emoji).fold_open@ != icons_of(TuiIconStyle::Emoji).fold_closed@,
        icons_of(TuiIconStyle::NerdFont).fold_open@ != icons_of(
            TuiIconStyle::NerdFont,
        ).fold_closed@,
{
    reveal_strlit("▼ ");
    reveal_strlit("▶ ");
    reveal_strlit("\u{f078} ");
    reveal_strlit("\u{f054} ");
    assert("▼ "@[0] == '▼' && "▶ "@[0] == '▶');
    assert("\u{f078} "@[0] == '\u{f078}' && "\u{f054} "@[0] == '\u{f054}');
}

} // verus!

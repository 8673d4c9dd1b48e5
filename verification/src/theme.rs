//! The colours and modifiers of every surface the interface paints.
//!
//! A [`Theme`] gives each surface a name, so that no screen refers to a
//! colour of its own. The presets differ in hues only: the modifiers are
//! the same formula over a [`Palette`] for all but the two that use the
//! terminal's sixteen colours.

use crate::style::{no_style, Color, Style};
use crate::text::{ascii_lower, chars_of, lower_ascii, same_text};
use vstd::prelude::*;

verus! {

/// The hues of a preset, each as `#rrggbb`.
#[derive(Debug)]
pub struct Palette {
    pub bg: String,
    pub fg: String,
    pub fg_dimmer: String,
    pub selected_bullet_fg: String,
    pub selected_bullet_bg: String,
    pub cursor_block_fg: String,
    pub cursor_block_bg: String,
    pub cursor_caret_fg: String,
    pub ref_link_fg: String,
    pub tag_link_fg: String,
    pub md_link_fg: String,
    pub bold_fg: String,
    pub italic_fg: String,
    pub strike_fg: String,
    pub highlight_bg: String,
    pub highlight_fg: String,
    pub code_fg: String,
    pub todo_open_fg: String,
    pub todo_done_fg: String,
    pub todo_done_body_fg: String,
    pub property_key_fg: String,
    pub property_value_fg: String,
    pub heading_fg: String,
    pub dim_fg: String,
    pub border: String,
    pub hint: String,
    pub status_normal_fg: String,
    pub status_normal_bg: String,
    pub status_insert_fg: String,
    pub status_insert_bg: String,
    pub status_visual_fg: String,
    pub status_visual_bg: String,
    pub status_message_fg: String,
    pub help_title_fg: String,
    pub bg_elev: String,
    pub list_selected_fg: String,
    pub list_selected_bg: String,
}

/// The palettes of the presets that are made from one.
#[derive(Debug)]
pub struct Palettes {
    pub outl: Palette,
    pub outl_light: Palette,
    pub logseq_light: Palette,
    pub dracula: Palette,
    pub solarized_dark: Palette,
    pub nord: Palette,
    pub monokai: Palette,
}

/// The value of a hexadecimal digit.
pub open spec fn hex_digit(c: char) -> Option<u8> {
    if '0' <= c <= '9' {
        Some((c as u8 - '0' as u8) as u8)
    } else if 'a' <= c <= 'f' {
        Some((c as u8 - 'a' as u8 + 10) as u8)
    } else if 'A' <= c <= 'F' {
        Some((c as u8 - 'A' as u8 + 10) as u8)
    } else {
        None
    }
}

/// The byte written by two hexadecimal digits.
pub open spec fn hex_pair(a: char, b: char) -> Option<u8> {
    match (hex_digit(a), hex_digit(b)) {
        (Some(x), Some(y)) => Some((x * 16 + y) as u8),
        _ => None,
    }
}

/// The red, green and blue of `#rrggbb`; nothing else is a colour.
pub open spec fn hex_rgb(s: Seq<char>) -> Option<(u8, u8, u8)> {
    if s.len() == 7 && s[0] == '#' {
        match (hex_pair(s[1], s[2]), hex_pair(s[3], s[4]), hex_pair(s[5], s[6])) {
            (Some(r), Some(g), Some(b)) => Some((r, g, b)),
            _ => None,
        }
    } else {
        None
    }
}

/// The colour of a palette entry; malformed text is the terminal's own
/// colour, so that a bad entry never keeps the interface from starting.
pub open spec fn color_of_hex(s: Seq<char>) -> Color {
    match hex_rgb(s) {
        Some((r, g, b)) => Color::Rgb(r, g, b),
        None => Color::Reset,
    }
}

fn digit_value(c: char) -> (d: Option<u8>)
    ensures
        d == hex_digit(c),
        d matches Some(x) ==> x < 16,
{
    if '0' <= c && c <= '9' {
        Some(c as u8 - '0' as u8)
    } else if 'a' <= c && c <= 'f' {
        Some(c as u8 - 'a' as u8 + 10)
    } else if 'A' <= c && c <= 'F' {
        Some(c as u8 - 'A' as u8 + 10)
    } else {
        None
    }
}

fn pair_value(a: char, b: char) -> (d: Option<u8>)
    ensures
        d == hex_pair(a, b),
{
    match (digit_value(a), digit_value(b)) {
        (Some(x), Some(y)) => Some(x * 16 + y),
        _ => None,
    }
}

/// The red, green and blue of `#rrggbb`.
pub fn parse_hex(s: &str) -> (c: Option<(u8, u8, u8)>)
    ensures
        c == hex_rgb(s@),
{
    let v = chars_of(s);
    if v.len() == 7 && v[0] == '#' {
        match (pair_value(v[1], v[2]), pair_value(v[3], v[4]), pair_value(v[5], v[6])) {
            (Some(r), Some(g), Some(b)) => Some((r, g, b)),
            _ => None,
        }
    } else {
        None
    }
}

/// The colour of a palette entry.
pub fn hex_to_color(s: &str) -> (c: Color)
    ensures
        c == color_of_hex(s@),
{
    match parse_hex(s) {
        Some((r, g, b)) => Color::Rgb(r, g, b),
        None => Color::Reset,
    }
}

/// All styled surfaces.
#[derive(Clone, Copy, Debug)]
pub struct Theme {
    /// User-visible preset name.
    pub name: &'static str,
    /// Background of the alternate screen.
    pub background: Color,
    /// Base body-text color painted across the canvas together with
    /// `background`. `Color::Reset` on the ANSI presets
    /// (`default-dark`, `light`) so the terminal's own colors show
    /// through; a concrete RGB on every palette-derived preset so a
    /// light theme stays readable on a dark terminal (and vice
    /// versa).
    pub foreground: Color,

    // --- bullets / outline ---
    /// Plain `-` bullet when not selected.
    pub bullet: Style,
    /// Bullet of the currently selected block.
    pub selected_bullet: Style,
    /// Single-char block cursor (vim style) in Normal mode.
    pub cursor_block: Style,
    /// Thin caret used at end-of-line and in Insert mode.
    pub cursor_caret: Style,

    // --- inline tokens (consumed by render_markdown_inline / highlight_inline) ---
    /// `[[page]]` references (pretty: name only; raw: with brackets).
    pub ref_link: Style,
    /// `#tag` references.
    pub tag_link: Style,
    /// `[text](url)` standard markdown link (text only in pretty mode).
    pub md_link: Style,
    /// `**bold**` inner text.
    pub bold: Style,
    /// `*italic*` / `_italic_` inner text.
    pub italic: Style,
    /// `~~strike~~` inner text.
    pub strike: Style,
    /// `==highlight==` inner text (Roam `^^highlight^^` on import).
    pub highlight: Style,
    /// `` `code` `` inner text.
    pub code: Style,
    /// Style for unfinished `TODO` prefix on a block.
    pub todo_open: Style,
    /// Style for finished `DONE` prefix on a block.
    pub todo_done: Style,
    /// Body text of a TODO block (carries `dim` for DONE).
    pub todo_done_body: Style,

    // --- structural surfaces ---
    /// `key:: value` property lines (the key part).
    pub property_key: Style,
    /// `key:: value` property lines (the value part).
    pub property_value: Style,
    /// Page heading shown in the main header.
    pub heading: Style,
    /// Dim, used for delimiters in raw render (`**`, `~~`, etc).
    pub dim: Style,

    // --- chrome ---
    /// Borders around panels.
    pub border: Style,
    /// Hint line in the footer.
    pub hint: Style,
    /// Mode badge in Normal mode.
    pub status_normal: Style,
    /// Mode badge in Insert mode.
    pub status_insert: Style,
    /// Mode badge in Visual mode.
    pub status_visual: Style,
    /// Transient status messages (saved, error...).
    pub status_message: Style,
    /// Section titles in the help popup.
    pub help_title: Style,
    /// Popup background (quick switcher, command palette, help).
    pub popup_bg: Color,

    // --- accent rails ---
    /// Highlight bar when an item is selected in a list popup.
    pub list_selected: Style,
}

/// The theme of a name over a palette.
pub open spec fn themed(name: &'static str, p: Palette) -> Theme {
    Theme {
        name,
        background: color_of_hex(p.bg@),
        foreground: color_of_hex(p.fg@),
        bullet: Style { fg: Some(color_of_hex(p.fg_dimmer@)), ..no_style() },
        selected_bullet: Style { fg: Some(color_of_hex(p.selected_bullet_fg@)), bg: Some(color_of_hex(p.selected_bullet_bg@)), bold: true, ..no_style() },
        cursor_block: Style { fg: Some(color_of_hex(p.cursor_block_fg@)), bg: Some(color_of_hex(p.cursor_block_bg@)), bold: true, ..no_style() },
        cursor_caret: Style { fg: Some(color_of_hex(p.cursor_caret_fg@)), bold: true, ..no_style() },
        ref_link: Style { fg: Some(color_of_hex(p.ref_link_fg@)), underlined: true, ..no_style() },
        tag_link: Style { fg: Some(color_of_hex(p.tag_link_fg@)), underlined: true, ..no_style() },
        md_link: Style { fg: Some(color_of_hex(p.md_link_fg@)), underlined: true, ..no_style() },
        bold: Style { fg: Some(color_of_hex(p.bold_fg@)), bold: true, ..no_style() },
        italic: Style { fg: Some(color_of_hex(p.italic_fg@)), italic: true, ..no_style() },
        strike: Style { fg: Some(color_of_hex(p.strike_fg@)), crossed_out: true, ..no_style() },
        highlight: Style { fg: Some(color_of_hex(p.highlight_fg@)), bg: Some(color_of_hex(p.highlight_bg@)), ..no_style() },
        code: Style { fg: Some(color_of_hex(p.code_fg@)), ..no_style() },
        todo_open: Style { fg: Some(color_of_hex(p.todo_open_fg@)), bold: true, ..no_style() },
        todo_done: Style { fg: Some(color_of_hex(p.todo_done_fg@)), bold: true, ..no_style() },
        todo_done_body: Style { fg: Some(color_of_hex(p.todo_done_body_fg@)), crossed_out: true, ..no_style() },
        property_key: Style { fg: Some(color_of_hex(p.property_key_fg@)), ..no_style() },
        property_value: Style { fg: Some(color_of_hex(p.property_value_fg@)), ..no_style() },
        heading: Style { fg: Some(color_of_hex(p.heading_fg@)), bold: true, ..no_style() },
        dim: Style { fg: Some(color_of_hex(p.dim_fg@)), ..no_style() },
        border: Style { fg: Some(color_of_hex(p.border@)), ..no_style() },
        hint: Style { fg: Some(color_of_hex(p.hint@)), ..no_style() },
        status_normal: Style { fg: Some(color_of_hex(p.status_normal_fg@)), bg: Some(color_of_hex(p.status_normal_bg@)), bold: true, ..no_style() },
        status_insert: Style { fg: Some(color_of_hex(p.status_insert_fg@)), bg: Some(color_of_hex(p.status_insert_bg@)), bold: true, ..no_style() },
        status_visual: Style { fg: Some(color_of_hex(p.status_visual_fg@)), bg: Some(color_of_hex(p.status_visual_bg@)), bold: true, ..no_style() },
        status_message: Style { fg: Some(color_of_hex(p.status_message_fg@)), ..no_style() },
        help_title: Style { fg: Some(color_of_hex(p.help_title_fg@)), bold: true, ..no_style() },
        popup_bg: color_of_hex(p.bg_elev@),
        list_selected: Style { fg: Some(color_of_hex(p.list_selected_fg@)), bg: Some(color_of_hex(p.list_selected_bg@)), bold: true, ..no_style() },
    }
}

/// The theme of a name over a palette.
pub fn theme_from_palette(name: &'static str, p: &Palette) -> (t: Theme)
    ensures
        t == themed(name, *p),
{
    Theme {
        name,
        background: hex_to_color(p.bg.as_str()),
        foreground: hex_to_color(p.fg.as_str()),
        bullet: Style::new().fg(hex_to_color(p.fg_dimmer.as_str())),
        selected_bullet: Style::new().fg(hex_to_color(p.selected_bullet_fg.as_str())).bg(hex_to_color(p.selected_bullet_bg.as_str())).bold(),
        cursor_block: Style::new().fg(hex_to_color(p.cursor_block_fg.as_str())).bg(hex_to_color(p.cursor_block_bg.as_str())).bold(),
        cursor_caret: Style::new().fg(hex_to_color(p.cursor_caret_fg.as_str())).bold(),
        ref_link: Style::new().fg(hex_to_color(p.ref_link_fg.as_str())).underlined(),
        tag_link: Style::new().fg(hex_to_color(p.tag_link_fg.as_str())).underlined(),
        md_link: Style::new().fg(hex_to_color(p.md_link_fg.as_str())).underlined(),
        bold: Style::new().fg(hex_to_color(p.bold_fg.as_str())).bold(),
        italic: Style::new().fg(hex_to_color(p.italic_fg.as_str())).italic(),
        strike: Style::new().fg(hex_to_color(p.strike_fg.as_str())).crossed_out(),
        highlight: Style::new().fg(hex_to_color(p.highlight_fg.as_str())).bg(hex_to_color(p.highlight_bg.as_str())),
        code: Style::new().fg(hex_to_color(p.code_fg.as_str())),
        todo_open: Style::new().fg(hex_to_color(p.todo_open_fg.as_str())).bold(),
        todo_done: Style::new().fg(hex_to_color(p.todo_done_fg.as_str())).bold(),
        todo_done_body: Style::new().fg(hex_to_color(p.todo_done_body_fg.as_str())).crossed_out(),
        property_key: Style::new().fg(hex_to_color(p.property_key_fg.as_str())),
        property_value: Style::new().fg(hex_to_color(p.property_value_fg.as_str())),
        heading: Style::new().fg(hex_to_color(p.heading_fg.as_str())).bold(),
        dim: Style::new().fg(hex_to_color(p.dim_fg.as_str())),
        border: Style::new().fg(hex_to_color(p.border.as_str())),
        hint: Style::new().fg(hex_to_color(p.hint.as_str())),
        status_normal: Style::new().fg(hex_to_color(p.status_normal_fg.as_str())).bg(hex_to_color(p.status_normal_bg.as_str())).bold(),
        status_insert: Style::new().fg(hex_to_color(p.status_insert_fg.as_str())).bg(hex_to_color(p.status_insert_bg.as_str())).bold(),
        status_visual: Style::new().fg(hex_to_color(p.status_visual_fg.as_str())).bg(hex_to_color(p.status_visual_bg.as_str())).bold(),
        status_message: Style::new().fg(hex_to_color(p.status_message_fg.as_str())),
        help_title: Style::new().fg(hex_to_color(p.help_title_fg.as_str())).bold(),
        popup_bg: hex_to_color(p.bg_elev.as_str()),
        list_selected: Style::new().fg(hex_to_color(p.list_selected_fg.as_str())).bg(hex_to_color(p.list_selected_bg.as_str())).bold(),
    }
}

impl Theme {
    /// The base of popups and toasts: the raised background under the
    /// theme's own text colour, so that plain text on it stays readable
    /// whatever the terminal's default is.
    pub fn popup_style(&self) -> (s: Style)
        ensures
            s == popup_style_of(*self),
    {
        Style::new().fg(self.foreground).bg(self.popup_bg)
    }

    /// The insertion point on the character it stands before: the caret's
    /// style, underlined, so that it takes no column of its own.
    pub fn cursor_caret_on_char(&self) -> (s: Style)
        ensures
            s == caret_on_char(*self),
    {
        self.cursor_caret.underlined()
    }
}

/// The base style of popups and toasts.
pub open spec fn popup_style_of(t: Theme) -> Style {
    Style { fg: Some(t.foreground), bg: Some(t.popup_bg), ..no_style() }
}

/// The style of the character the insertion point stands before.
pub open spec fn caret_on_char(t: Theme) -> Style {
    Style { underlined: true, ..t.cursor_caret }
}

/// The presets.
#[derive(Clone, Copy, PartialEq, Eq, Structural, Debug)]
pub enum Preset {
    Outl,
    OutlLight,
    DefaultDark,
    Light,
    LogseqLight,
    Dracula,
    SolarizedDark,
    Nord,
    Monokai,
}

/// The name a preset is listed under.
pub open spec fn preset_name(p: Preset) -> &'static str {
    match p {
        Preset::Outl => "outl",
        Preset::OutlLight => "outl-light",
        Preset::DefaultDark => "default-dark",
        Preset::Light => "light",
        Preset::LogseqLight => "logseq-light",
        Preset::Dracula => "dracula",
        Preset::SolarizedDark => "solarized-dark",
        Preset::Nord => "nord",
        Preset::Monokai => "monokai",
    }
}

/// The names of the presets, in the order users see them.
pub const PRESETS: [&'static str; 9] = [
    "outl",
    "outl-light",
    "default-dark",
    "light",
    "logseq-light",
    "dracula",
    "solarized-dark",
    "nord",
    "monokai",
];

/// A character of a preset name as it is compared: ASCII letters without
/// case, and underscores and spaces as dashes.
pub open spec fn norm_char(c: char) -> char {
    if c == '_' || c == ' ' {
        '-'
    } else {
        ascii_lower(c)
    }
}

/// A preset name as it is compared.
pub open spec fn norm_name(name: Seq<char>) -> Seq<char> {
    name.map_values(|c: char| norm_char(c))
}

/// The preset a normalised name stands for.
pub open spec fn preset_of(norm: Seq<char>) -> Option<Preset> {
    if norm == "outl"@ || norm == "default"@ {
        Some(Preset::Outl)
    } else if norm == "default-dark"@ || norm == "dark"@ {
        Some(Preset::DefaultDark)
    } else if norm == "light"@ {
        Some(Preset::Light)
    } else if norm == "logseq-light"@ || norm == "logseq"@ {
        Some(Preset::LogseqLight)
    } else if norm == "dracula"@ {
        Some(Preset::Dracula)
    } else if norm == "solarized-dark"@ || norm == "solarized"@ {
        Some(Preset::SolarizedDark)
    } else if norm == "nord"@ {
        Some(Preset::Nord)
    } else if norm == "monokai"@ {
        Some(Preset::Monokai)
    } else if norm == "outl-light"@ {
        Some(Preset::OutlLight)
    } else {
        None
    }
}

/// The theme of a preset.
pub open spec fn theme_of(p: Preset, all: Palettes) -> Theme {
    match p {
        Preset::Outl => themed("outl", all.outl),
        Preset::OutlLight => themed("outl-light", all.outl_light),
        Preset::DefaultDark => default_dark_theme(),
        Preset::Light => light_theme(),
        Preset::LogseqLight => themed("logseq-light", all.logseq_light),
        Preset::Dracula => themed("dracula", all.dracula),
        Preset::SolarizedDark => themed("solarized-dark", all.solarized_dark),
        Preset::Nord => themed("nord", all.nord),
        Preset::Monokai => themed("monokai", all.monokai),
    }
}

/// The theme that a name stands for.
pub open spec fn theme_named(name: Seq<char>, all: Palettes) -> Option<Theme> {
    match preset_of(norm_name(name)) {
        Some(p) => Some(theme_of(p, all)),
        None => None,
    }
}

/// A preset name as it is compared.
pub fn normalize(name: &str) -> (norm: String)
    ensures
        norm@ == norm_name(name@),
{
    let mut norm = String::new();
    for c in it: name.chars()
        invariant
            it.seq() == name@,
            norm@ == norm_name(name@.take(it.index())),
    {
        let d = if c == '_' || c == ' ' {
            '-'
        } else {
            lower_ascii(c)
        };
        norm.push(d);
        assert(name@.take(it.index() + 1) =~= name@.take(it.index()).push(c));
        assert(norm@ =~= norm_name(name@.take(it.index() + 1)));
    }
    assert(name@.take(name@.len() as int) =~= name@);
    norm
}

/// The preset a name stands for. Case does not matter, and dashes,
/// underscores and spaces are interchangeable.
pub fn preset_by_name(name: &str) -> (p: Option<Preset>)
    ensures
        p == preset_of(norm_name(name@)),
{
    let owned = normalize(name);
    let norm = owned.as_str();
    if same_text(norm, "outl") || same_text(norm, "default") {
        Some(Preset::Outl)
    } else if same_text(norm, "default-dark") || same_text(norm, "dark") {
        Some(Preset::DefaultDark)
    } else if same_text(norm, "light") {
        Some(Preset::Light)
    } else if same_text(norm, "logseq-light") || same_text(norm, "logseq") {
        Some(Preset::LogseqLight)
    } else if same_text(norm, "dracula") {
        Some(Preset::Dracula)
    } else if same_text(norm, "solarized-dark") || same_text(norm, "solarized") {
        Some(Preset::SolarizedDark)
    } else if same_text(norm, "nord") {
        Some(Preset::Nord)
    } else if same_text(norm, "monokai") {
        Some(Preset::Monokai)
    } else if same_text(norm, "outl-light") {
        Some(Preset::OutlLight)
    } else {
        None
    }
}

/// The theme of a preset name.
pub fn by_name(name: &str, all: &Palettes) -> (t: Option<Theme>)
    ensures
        t == theme_named(name@, *all),
{
    match preset_by_name(name) {
        Some(Preset::Outl) => Some(outl(all)),
        Some(Preset::OutlLight) => Some(outl_light(all)),
        Some(Preset::DefaultDark) => Some(default_dark()),
        Some(Preset::Light) => Some(light()),
        Some(Preset::LogseqLight) => Some(logseq_light(all)),
        Some(Preset::Dracula) => Some(dracula(all)),
        Some(Preset::SolarizedDark) => Some(solarized_dark(all)),
        Some(Preset::Nord) => Some(nord(all)),
        Some(Preset::Monokai) => Some(monokai(all)),
        None => None,
    }
}

/// The theme when nothing is configured.
pub fn default_theme(all: &Palettes) -> (t: Theme)
    ensures
        t == theme_of(Preset::Outl, *all),
{
    outl(all)
}

/// The brand palette; the default theme.
pub fn outl(all: &Palettes) -> (t: Theme)
    ensures
        t == theme_of(Preset::Outl, *all),
{
    theme_from_palette("outl", &all.outl)
}

/// The light counterpart of the brand palette.
pub fn outl_light(all: &Palettes) -> (t: Theme)
    ensures
        t == theme_of(Preset::OutlLight, *all),
{
    theme_from_palette("outl-light", &all.outl_light)
}

/// Blues on a white canvas.
pub fn logseq_light(all: &Palettes) -> (t: Theme)
    ensures
        t == theme_of(Preset::LogseqLight, *all),
{
    theme_from_palette("logseq-light", &all.logseq_light)
}

/// Dracula.
pub fn dracula(all: &Palettes) -> (t: Theme)
    ensures
        t == theme_of(Preset::Dracula, *all),
{
    theme_from_palette("dracula", &all.dracula)
}

/// Solarized Dark.
pub fn solarized_dark(all: &Palettes) -> (t: Theme)
    ensures
        t == theme_of(Preset::SolarizedDark, *all),
{
    theme_from_palette("solarized-dark", &all.solarized_dark)
}

/// Nord.
pub fn nord(all: &Palettes) -> (t: Theme)
    ensures
        t == theme_of(Preset::Nord, *all),
{
    theme_from_palette("nord", &all.nord)
}

/// Monokai.
pub fn monokai(all: &Palettes) -> (t: Theme)
    ensures
        t == theme_of(Preset::Monokai, *all),
{
    theme_from_palette("monokai", &all.monokai)
}

/// The terminal's sixteen colours on dark.
pub open spec fn default_dark_theme() -> Theme {
    Theme {
        name: "default-dark",
        background: Color::Reset,
        foreground: Color::Reset,
        bullet: Style { fg: Some(Color::DarkGray), ..no_style() },
        selected_bullet: Style { fg: Some(Color::Black), bg: Some(Color::Cyan), bold: true, ..no_style() },
        cursor_block: Style { fg: Some(Color::Black), bg: Some(Color::White), bold: true, ..no_style() },
        cursor_caret: Style { fg: Some(Color::White), bold: true, ..no_style() },
        ref_link: Style { fg: Some(Color::Cyan), underlined: true, ..no_style() },
        tag_link: Style { fg: Some(Color::Magenta), underlined: true, ..no_style() },
        md_link: Style { fg: Some(Color::Blue), underlined: true, ..no_style() },
        bold: Style { bold: true, ..no_style() },
        italic: Style { italic: true, ..no_style() },
        strike: Style { crossed_out: true, ..no_style() },
        highlight: Style { fg: Some(Color::Black), bg: Some(Color::Yellow), ..no_style() },
        code: Style { fg: Some(Color::Green), ..no_style() },
        todo_open: Style { fg: Some(Color::Yellow), bold: true, ..no_style() },
        todo_done: Style { fg: Some(Color::Green), bold: true, ..no_style() },
        todo_done_body: Style { fg: Some(Color::DarkGray), crossed_out: true, ..no_style() },
        property_key: Style { fg: Some(Color::DarkGray), ..no_style() },
        property_value: Style { fg: Some(Color::Gray), ..no_style() },
        heading: Style { bold: true, ..no_style() },
        dim: Style { fg: Some(Color::DarkGray), ..no_style() },
        border: Style { fg: Some(Color::DarkGray), ..no_style() },
        hint: Style { fg: Some(Color::Gray), ..no_style() },
        status_normal: Style { fg: Some(Color::Black), bg: Some(Color::Cyan), bold: true, ..no_style() },
        status_insert: Style { fg: Some(Color::Black), bg: Some(Color::Green), bold: true, ..no_style() },
        status_visual: Style { fg: Some(Color::Black), bg: Some(Color::Magenta), bold: true, ..no_style() },
        status_message: Style { fg: Some(Color::Yellow), ..no_style() },
        help_title: Style { fg: Some(Color::Yellow), bold: true, ..no_style() },
        popup_bg: Color::Black,
        list_selected: Style { fg: Some(Color::Black), bg: Some(Color::Cyan), bold: true, ..no_style() },
    }
}

/// The terminal's sixteen colours on dark.
pub fn default_dark() -> (t: Theme)
    ensures
        t == default_dark_theme(),
{
    Theme {
        name: "default-dark",
        background: Color::Reset,
        foreground: Color::Reset,
        bullet: Style::new().fg(Color::DarkGray),
        selected_bullet: Style::new().fg(Color::Black).bg(Color::Cyan).bold(),
        cursor_block: Style::new().fg(Color::Black).bg(Color::White).bold(),
        cursor_caret: Style::new().fg(Color::White).bold(),
        ref_link: Style::new().fg(Color::Cyan).underlined(),
        tag_link: Style::new().fg(Color::Magenta).underlined(),
        md_link: Style::new().fg(Color::Blue).underlined(),
        bold: Style::new().bold(),
        italic: Style::new().italic(),
        strike: Style::new().crossed_out(),
        highlight: Style::new().fg(Color::Black).bg(Color::Yellow),
        code: Style::new().fg(Color::Green),
        todo_open: Style::new().fg(Color::Yellow).bold(),
        todo_done: Style::new().fg(Color::Green).bold(),
        todo_done_body: Style::new().fg(Color::DarkGray).crossed_out(),
        property_key: Style::new().fg(Color::DarkGray),
        property_value: Style::new().fg(Color::Gray),
        heading: Style::new().bold(),
        dim: Style::new().fg(Color::DarkGray),
        border: Style::new().fg(Color::DarkGray),
        hint: Style::new().fg(Color::Gray),
        status_normal: Style::new().fg(Color::Black).bg(Color::Cyan).bold(),
        status_insert: Style::new().fg(Color::Black).bg(Color::Green).bold(),
        status_visual: Style::new().fg(Color::Black).bg(Color::Magenta).bold(),
        status_message: Style::new().fg(Color::Yellow),
        help_title: Style::new().fg(Color::Yellow).bold(),
        popup_bg: Color::Black,
        list_selected: Style::new().fg(Color::Black).bg(Color::Cyan).bold(),
    }
}

/// The terminal's sixteen colours on light.
pub open spec fn light_theme() -> Theme {
    Theme {
        name: "light",
        background: Color::Reset,
        foreground: Color::Reset,
        bullet: Style { fg: Some(Color::Gray), ..no_style() },
        selected_bullet: Style { fg: Some(Color::White), bg: Some(Color::Blue), bold: true, ..no_style() },
        cursor_block: Style { fg: Some(Color::White), bg: Some(Color::Black), bold: true, ..no_style() },
        cursor_caret: Style { fg: Some(Color::Black), bold: true, ..no_style() },
        ref_link: Style { fg: Some(Color::Blue), underlined: true, ..no_style() },
        tag_link: Style { fg: Some(Color::Red), underlined: true, ..no_style() },
        md_link: Style { fg: Some(Color::Blue), underlined: true, ..no_style() },
        bold: Style { fg: Some(Color::Black), bold: true, ..no_style() },
        italic: Style { fg: Some(Color::Black), italic: true, ..no_style() },
        strike: Style { crossed_out: true, ..no_style() },
        highlight: Style { fg: Some(Color::Black), bg: Some(Color::Yellow), ..no_style() },
        code: Style { fg: Some(Color::Magenta), ..no_style() },
        todo_open: Style { fg: Some(Color::Red), bold: true, ..no_style() },
        todo_done: Style { fg: Some(Color::Green), bold: true, ..no_style() },
        todo_done_body: Style { fg: Some(Color::Gray), crossed_out: true, ..no_style() },
        property_key: Style { fg: Some(Color::Gray), ..no_style() },
        property_value: Style { fg: Some(Color::DarkGray), ..no_style() },
        heading: Style { fg: Some(Color::Black), bold: true, ..no_style() },
        dim: Style { fg: Some(Color::Gray), ..no_style() },
        border: Style { fg: Some(Color::Gray), ..no_style() },
        hint: Style { fg: Some(Color::DarkGray), ..no_style() },
        status_normal: Style { fg: Some(Color::White), bg: Some(Color::Blue), bold: true, ..no_style() },
        status_insert: Style { fg: Some(Color::White), bg: Some(Color::Green), bold: true, ..no_style() },
        status_visual: Style { fg: Some(Color::White), bg: Some(Color::Magenta), bold: true, ..no_style() },
        status_message: Style { fg: Some(Color::Yellow), ..no_style() },
        help_title: Style { fg: Some(Color::Blue), bold: true, ..no_style() },
        popup_bg: Color::White,
        list_selected: Style { fg: Some(Color::White), bg: Some(Color::Blue), bold: true, ..no_style() },
    }
}

/// The terminal's sixteen colours on light.
pub fn light() -> (t: Theme)
    ensures
        t == light_theme(),
{
    Theme {
        name: "light",
        background: Color::Reset,
        foreground: Color::Reset,
        bullet: Style::new().fg(Color::Gray),
        selected_bullet: Style::new().fg(Color::White).bg(Color::Blue).bold(),
        cursor_block: Style::new().fg(Color::White).bg(Color::Black).bold(),
        cursor_caret: Style::new().fg(Color::Black).bold(),
        ref_link: Style::new().fg(Color::Blue).underlined(),
        tag_link: Style::new().fg(Color::Red).underlined(),
        md_link: Style::new().fg(Color::Blue).underlined(),
        bold: Style::new().fg(Color::Black).bold(),
        italic: Style::new().fg(Color::Black).italic(),
        strike: Style::new().crossed_out(),
        highlight: Style::new().fg(Color::Black).bg(Color::Yellow),
        code: Style::new().fg(Color::Magenta),
        todo_open: Style::new().fg(Color::Red).bold(),
        todo_done: Style::new().fg(Color::Green).bold(),
        todo_done_body: Style::new().fg(Color::Gray).crossed_out(),
        property_key: Style::new().fg(Color::Gray),
        property_value: Style::new().fg(Color::DarkGray),
        heading: Style::new().fg(Color::Black).bold(),
        dim: Style::new().fg(Color::Gray),
        border: Style::new().fg(Color::Gray),
        hint: Style::new().fg(Color::DarkGray),
        status_normal: Style::new().fg(Color::White).bg(Color::Blue).bold(),
        status_insert: Style::new().fg(Color::White).bg(Color::Green).bold(),
        status_visual: Style::new().fg(Color::White).bg(Color::Magenta).bold(),
        status_message: Style::new().fg(Color::Yellow),
        help_title: Style::new().fg(Color::Blue).bold(),
        popup_bg: Color::White,
        list_selected: Style::new().fg(Color::White).bg(Color::Blue).bold(),
    }
}

/// A name of small letters and dashes is its own normal form.
proof fn lemma_plain_name(s: Seq<char>)
    requires
        forall|i: int| 0 <= i < s.len() ==> ('a' <= #[trigger] s[i] <= 'z' || s[i] == '-'),
    ensures
        norm_name(s) == s,
{
    assert(norm_name(s) =~= s);
}

proof fn lemma_name_of_outl()
    ensures
        preset_of(norm_name("outl"@)) == Some(Preset::Outl),
{
    reveal_strlit("outl");
    lemma_plain_name("outl"@);
}

proof fn lemma_name_of_outl_light()
    ensures
        preset_of(norm_name("outl-light"@)) == Some(Preset::OutlLight),
{
    reveal_strlit("outl-light");
    lemma_plain_name("outl-light"@);
    assert("outl-light"@ != "outl"@) by {
        reveal_strlit("outl");
        assert("outl-light"@.len() != "outl"@.len());
    }
    assert("outl-light"@ != "default"@) by {
        reveal_strlit("default");
        assert("outl-light"@.len() != "default"@.len());
    }
    assert("outl-light"@ != "default-dark"@) by {
        reveal_strlit("default-dark");
        assert("outl-light"@.len() != "default-dark"@.len());
    }
    assert("outl-light"@ != "dark"@) by {
        reveal_strlit("dark");
        assert("outl-light"@.len() != "dark"@.len());
    }
    assert("outl-light"@ != "light"@) by {
        reveal_strlit("light");
        assert("outl-light"@.len() != "light"@.len());
    }
    assert("outl-light"@ != "logseq-light"@) by {
        reveal_strlit("logseq-light");
        assert("outl-light"@.len() != "logseq-light"@.len());
    }
    assert("outl-light"@ != "logseq"@) by {
        reveal_strlit("logseq");
        assert("outl-light"@.len() != "logseq"@.len());
    }
    assert("outl-light"@ != "dracula"@) by {
        reveal_strlit("dracula");
        assert("outl-light"@.len() != "dracula"@.len());
    }
    assert("outl-light"@ != "solarized-dark"@) by {
        reveal_strlit("solarized-dark");
        assert("outl-light"@.len() != "solarized-dark"@.len());
    }
    assert("outl-light"@ != "solarized"@) by {
        reveal_strlit("solarized");
        assert("outl-light"@.len() != "solarized"@.len());
    }
    assert("outl-light"@ != "nord"@) by {
        reveal_strlit("nord");
        assert("outl-light"@.len() != "nord"@.len());
    }
    assert("outl-light"@ != "monokai"@) by {
        reveal_strlit("monokai");
        assert("outl-light"@.len() != "monokai"@.len());
    }
}

proof fn lemma_name_of_default_dark()
    ensures
        preset_of(norm_name("default-dark"@)) == Some(Preset::DefaultDark),
{
    reveal_strlit("default-dark");
    lemma_plain_name("default-dark"@);
    assert("default-dark"@ != "outl"@) by {
        reveal_strlit("outl");
        assert("default-dark"@.len() != "outl"@.len());
    }
    assert("default-dark"@ != "default"@) by {
        reveal_strlit("default");
        assert("default-dark"@.len() != "default"@.len());
    }
}

proof fn lemma_name_of_light()
    ensures
        preset_of(norm_name("light"@)) == Some(Preset::Light),
{
    reveal_strlit("light");
    lemma_plain_name("light"@);
    assert("light"@ != "outl"@) by {
        reveal_strlit("outl");
        assert("light"@.len() != "outl"@.len());
    }
    assert("light"@ != "default"@) by {
        reveal_strlit("default");
        assert("light"@.len() != "default"@.len());
    }
    assert("light"@ != "default-dark"@) by {
        reveal_strlit("default-dark");
        assert("light"@.len() != "default-dark"@.len());
    }
    assert("light"@ != "dark"@) by {
        reveal_strlit("dark");
        assert("light"@.len() != "dark"@.len());
    }
}

proof fn lemma_name_of_logseq_light()
    ensures
        preset_of(norm_name("logseq-light"@)) == Some(Preset::LogseqLight),
{
    reveal_strlit("logseq-light");
    lemma_plain_name("logseq-light"@);
    assert("logseq-light"@ != "outl"@) by {
        reveal_strlit("outl");
        assert("logseq-light"@.len() != "outl"@.len());
    }
    assert("logseq-light"@ != "default"@) by {
        reveal_strlit("default");
        assert("logseq-light"@.len() != "default"@.len());
    }
    assert("logseq-light"@ != "default-dark"@) by {
        reveal_strlit("default-dark");
        assert("logseq-light"@[0] != "default-dark"@[0]);
    }
    assert("logseq-light"@ != "dark"@) by {
        reveal_strlit("dark");
        assert("logseq-light"@.len() != "dark"@.len());
    }
    assert("logseq-light"@ != "light"@) by {
        reveal_strlit("light");
        assert("logseq-light"@.len() != "light"@.len());
    }
}

proof fn lemma_name_of_dracula()
    ensures
        preset_of(norm_name("dracula"@)) == Some(Preset::Dracula),
{
    reveal_strlit("dracula");
    lemma_plain_name("dracula"@);
    assert("dracula"@ != "outl"@) by {
        reveal_strlit("outl");
        assert("dracula"@.len() != "outl"@.len());
    }
    assert("dracula"@ != "default"@) by {
        reveal_strlit("default");
        assert("dracula"@[1] != "default"@[1]);
    }
    assert("dracula"@ != "default-dark"@) by {
        reveal_strlit("default-dark");
        assert("dracula"@.len() != "default-dark"@.len());
    }
    assert("dracula"@ != "dark"@) by {
        reveal_strlit("dark");
        assert("dracula"@.len() != "dark"@.len());
    }
    assert("dracula"@ != "light"@) by {
        reveal_strlit("light");
        assert("dracula"@.len() != "light"@.len());
    }
    assert("dracula"@ != "logseq-light"@) by {
        reveal_strlit("logseq-light");
        assert("dracula"@.len() != "logseq-light"@.len());
    }
    assert("dracula"@ != "logseq"@) by {
        reveal_strlit("logseq");
        assert("dracula"@.len() != "logseq"@.len());
    }
}

proof fn lemma_name_of_solarized_dark()
    ensures
        preset_of(norm_name("solarized-dark"@)) == Some(Preset::SolarizedDark),
{
    reveal_strlit("solarized-dark");
    lemma_plain_name("solarized-dark"@);
    assert("solarized-dark"@ != "outl"@) by {
        reveal_strlit("outl");
        assert("solarized-dark"@.len() != "outl"@.len());
    }
    assert("solarized-dark"@ != "default"@) by {
        reveal_strlit("default");
        assert("solarized-dark"@.len() != "default"@.len());
    }
    assert("solarized-dark"@ != "default-dark"@) by {
        reveal_strlit("default-dark");
        assert("solarized-dark"@.len() != "default-dark"@.len());
    }
    assert("solarized-dark"@ != "dark"@) by {
        reveal_strlit("dark");
        assert("solarized-dark"@.len() != "dark"@.len());
    }
    assert("solarized-dark"@ != "light"@) by {
        reveal_strlit("light");
        assert("solarized-dark"@.len() != "light"@.len());
    }
    assert("solarized-dark"@ != "logseq-light"@) by {
        reveal_strlit("logseq-light");
        assert("solarized-dark"@.len() != "logseq-light"@.len());
    }
    assert("solarized-dark"@ != "logseq"@) by {
        reveal_strlit("logseq");
        assert("solarized-dark"@.len() != "logseq"@.len());
    }
    assert("solarized-dark"@ != "dracula"@) by {
        reveal_strlit("dracula");
        assert("solarized-dark"@.len() != "dracula"@.len());
    }
}

proof fn lemma_name_of_nord()
    ensures
        preset_of(norm_name("nord"@)) == Some(Preset::Nord),
{
    reveal_strlit("nord");
    lemma_plain_name("nord"@);
    assert("nord"@ != "outl"@) by {
        reveal_strlit("outl");
        assert("nord"@[0] != "outl"@[0]);
    }
    assert("nord"@ != "default"@) by {
        reveal_strlit("default");
        assert("nord"@.len() != "default"@.len());
    }
    assert("nord"@ != "default-dark"@) by {
        reveal_strlit("default-dark");
        assert("nord"@.len() != "default-dark"@.len());
    }
    assert("nord"@ != "dark"@) by {
        reveal_strlit("dark");
        assert("nord"@[0] != "dark"@[0]);
    }
    assert("nord"@ != "light"@) by {
        reveal_strlit("light");
        assert("nord"@.len() != "light"@.len());
    }
    assert("nord"@ != "logseq-light"@) by {
        reveal_strlit("logseq-light");
        assert("nord"@.len() != "logseq-light"@.len());
    }
    assert("nord"@ != "logseq"@) by {
        reveal_strlit("logseq");
        assert("nord"@.len() != "logseq"@.len());
    }
    assert("nord"@ != "dracula"@) by {
        reveal_strlit("dracula");
        assert("nord"@.len() != "dracula"@.len());
    }
    assert("nord"@ != "solarized-dark"@) by {
        reveal_strlit("solarized-dark");
        assert("nord"@.len() != "solarized-dark"@.len());
    }
    assert("nord"@ != "solarized"@) by {
        reveal_strlit("solarized");
        assert("nord"@.len() != "solarized"@.len());
    }
}

proof fn lemma_name_of_monokai()
    ensures
        preset_of(norm_name("monokai"@)) == Some(Preset::Monokai),
{
    reveal_strlit("monokai");
    lemma_plain_name("monokai"@);
    assert("monokai"@ != "outl"@) by {
        reveal_strlit("outl");
        assert("monokai"@.len() != "outl"@.len());
    }
    assert("monokai"@ != "default"@) by {
        reveal_strlit("default");
        assert("monokai"@[0] != "default"@[0]);
    }
    assert("monokai"@ != "default-dark"@) by {
        reveal_strlit("default-dark");
        assert("monokai"@.len() != "default-dark"@.len());
    }
    assert("monokai"@ != "dark"@) by {
        reveal_strlit("dark");
        assert("monokai"@.len() != "dark"@.len());
    }
    assert("monokai"@ != "light"@) by {
        reveal_strlit("light");
        assert("monokai"@.len() != "light"@.len());
    }
    assert("monokai"@ != "logseq-light"@) by {
        reveal_strlit("logseq-light");
        assert("monokai"@.len() != "logseq-light"@.len());
    }
    assert("monokai"@ != "logseq"@) by {
        reveal_strlit("logseq");
        assert("monokai"@.len() != "logseq"@.len());
    }
    assert("monokai"@ != "dracula"@) by {
        reveal_strlit("dracula");
        assert("monokai"@[0] != "dracula"@[0]);
    }
    assert("monokai"@ != "solarized-dark"@) by {
        reveal_strlit("solarized-dark");
        assert("monokai"@.len() != "solarized-dark"@.len());
    }
    assert("monokai"@ != "solarized"@) by {
        reveal_strlit("solarized");
        assert("monokai"@.len() != "solarized"@.len());
    }
    assert("monokai"@ != "nord"@) by {
        reveal_strlit("nord");
        assert("monokai"@.len() != "nord"@.len());
    }
}

/// Every preset's name stands for it, and its theme carries that name.
pub proof fn law_preset_names(p: Preset, all: Palettes)
    ensures
        preset_of(norm_name(preset_name(p)@)) == Some(p),
        theme_of(p, all).name == preset_name(p),
{
    match p {
        Preset::Outl => lemma_name_of_outl(),
        Preset::OutlLight => lemma_name_of_outl_light(),
        Preset::DefaultDark => lemma_name_of_default_dark(),
        Preset::Light => lemma_name_of_light(),
        Preset::LogseqLight => lemma_name_of_logseq_light(),
        Preset::Dracula => lemma_name_of_dracula(),
        Preset::SolarizedDark => lemma_name_of_solarized_dark(),
        Preset::Nord => lemma_name_of_nord(),
        Preset::Monokai => lemma_name_of_monokai(),
    }
}

/// Every name in the list of presets is found, and its theme carries it.
pub proof fn law_listed_presets_are_found(k: int, all: Palettes)
    requires
        0 <= k < PRESETS@.len(),
    ensures
        theme_named(PRESETS@[k]@, all) matches Some(t) && t.name == PRESETS@[k],
{
    let p = if k == 0 {
        Preset::Outl
    } else if k == 1 {
        Preset::OutlLight
    } else if k == 2 {
        Preset::DefaultDark
    } else if k == 3 {
        Preset::Light
    } else if k == 4 {
        Preset::LogseqLight
    } else if k == 5 {
        Preset::Dracula
    } else if k == 6 {
        Preset::SolarizedDark
    } else if k == 7 {
        Preset::Nord
    } else {
        Preset::Monokai
    };
    assert(PRESETS@[k] == preset_name(p));
    law_preset_names(p, all);
}

/// A theme is found whatever the case of its name, and whether dashes,
/// underscores or spaces stand in it: names that are compared alike stand for
/// one theme.
pub proof fn law_lookup_ignores_case_and_separators(a: Seq<char>, b: Seq<char>, all: Palettes)
    requires
        a.len() == b.len(),
        forall|i: int| 0 <= i < a.len() ==> norm_char(#[trigger] a[i]) == norm_char(b[i]),
    ensures
        norm_name(a) == norm_name(b),
        theme_named(a, all) == theme_named(b, all),
{
    assert(norm_name(a) =~= norm_name(b));
}

/// The value of a hexadecimal digit, counted from `0` or from the letter of ten
/// in either case.
pub proof fn law_hexadecimal_digits_count_up(c: char)
    ensures
        '0' <= c <= '9' ==> hex_digit(c) is Some && hex_digit(c)->0 + '0' as u32 == c as u32,
        'a' <= c <= 'f' ==> hex_digit(c) is Some && hex_digit(c)->0 + 'a' as u32 == c as u32 + 10,
        'A' <= c <= 'F' ==> hex_digit(c) is Some && hex_digit(c)->0 + 'A' as u32 == c as u32 + 10,
        hex_digit(c) is Some ==> hex_digit(c)->0 < 16,
        hex_digit(c) is None <==> !('0' <= c <= '9' || 'a' <= c <= 'f' || 'A' <= c <= 'F'),
{
}

/// A colour is three pairs of digits behind the sign, red first, and what is
/// none of that is no colour of the palette's.
pub proof fn law_colours_are_read_in_pairs(s: Seq<char>)
    ensures
        s.len() == 7 && s[0] == '#' && (forall|i: int|
            1 <= i < 7 ==> hex_digit(#[trigger] s[i]) is Some) ==> color_of_hex(s) is Rgb
            && color_of_hex(s)->Rgb_0 == 16 * hex_digit(s[1])->0 + hex_digit(s[2])->0
            && color_of_hex(s)->Rgb_1 == 16 * hex_digit(s[3])->0 + hex_digit(s[4])->0
            && color_of_hex(s)->Rgb_2 == 16 * hex_digit(s[5])->0 + hex_digit(s[6])->0,
        s.len() != 7 || s[0] != '#' || (exists|i: int|
            1 <= i < 7 && hex_digit(#[trigger] s[i]) is None) ==> color_of_hex(s) == Color::Reset,
{
    if s.len() == 7 {
        law_hexadecimal_digits_count_up(s[1]);
        law_hexadecimal_digits_count_up(s[2]);
        law_hexadecimal_digits_count_up(s[3]);
        law_hexadecimal_digits_count_up(s[4]);
        law_hexadecimal_digits_count_up(s[5]);
        law_hexadecimal_digits_count_up(s[6]);
    }
}

/// In the themes of the terminal's own colours, what stands on a ground of its
/// own has another colour than the ground.
pub proof fn law_marked_text_is_readable()
    ensures
        ({
            let t = default_dark_theme();
            &&& t.selected_bullet.fg != t.selected_bullet.bg
            &&& t.cursor_block.fg != t.cursor_block.bg
            &&& t.highlight.fg != t.highlight.bg
            &&& t.status_normal.fg != t.status_normal.bg
            &&& t.status_insert.fg != t.status_insert.bg
            &&& t.status_visual.fg != t.status_visual.bg
            &&& t.list_selected.fg != t.list_selected.bg
            &&& t.status_normal.bg != t.status_insert.bg
            &&& t.status_insert.bg != t.status_visual.bg
            &&& t.status_visual.bg != t.status_normal.bg
        }),
        ({
            let t = light_theme();
            &&& t.selected_bullet.fg != t.selected_bullet.bg
            &&& t.cursor_block.fg != t.cursor_block.bg
            &&& t.highlight.fg != t.highlight.bg
            &&& t.status_normal.fg != t.status_normal.bg
            &&& t.status_insert.fg != t.status_insert.bg
            &&& t.status_visual.fg != t.status_visual.bg
            &&& t.list_selected.fg != t.list_selected.bg
            &&& t.status_normal.bg != t.status_insert.bg
            &&& t.status_insert.bg != t.status_visual.bg
            &&& t.status_visual.bg != t.status_normal.bg
        }),
{
}

/// Each part of a theme has the colours that the palette gives it.
pub proof fn law_a_theme_has_the_colours_of_its_palette(name: &'static str, p: Palette)
    ensures
        themed(name, p).background == color_of_hex(p.bg@),
        themed(name, p).foreground == color_of_hex(p.fg@),
        themed(name, p).bullet.fg == Some(color_of_hex(p.fg_dimmer@)),
        themed(name, p).bullet.bg == None::<Color>,
        themed(name, p).selected_bullet.fg == Some(color_of_hex(p.selected_bullet_fg@)),
        themed(name, p).selected_bullet.bg == Some(color_of_hex(p.selected_bullet_bg@)),
        themed(name, p).cursor_block.fg == Some(color_of_hex(p.cursor_block_fg@)),
        themed(name, p).cursor_block.bg == Some(color_of_hex(p.cursor_block_bg@)),
        themed(name, p).cursor_caret.fg == Some(color_of_hex(p.cursor_caret_fg@)),
        themed(name, p).cursor_caret.bg == None::<Color>,
        themed(name, p).ref_link.fg == Some(color_of_hex(p.ref_link_fg@)),
        themed(name, p).ref_link.bg == None::<Color>,
        themed(name, p).tag_link.fg == Some(color_of_hex(p.tag_link_fg@)),
        themed(name, p).tag_link.bg == None::<Color>,
        themed(name, p).md_link.fg == Some(color_of_hex(p.md_link_fg@)),
        themed(name, p).md_link.bg == None::<Color>,
        themed(name, p).bold.fg == Some(color_of_hex(p.bold_fg@)),
        themed(name, p).bold.bg == None::<Color>,
        themed(name, p).italic.fg == Some(color_of_hex(p.italic_fg@)),
        themed(name, p).italic.bg == None::<Color>,
        themed(name, p).strike.fg == Some(color_of_hex(p.strike_fg@)),
        themed(name, p).strike.bg == None::<Color>,
        themed(name, p).highlight.fg == Some(color_of_hex(p.highlight_fg@)),
        themed(name, p).highlight.bg == Some(color_of_hex(p.highlight_bg@)),
        themed(name, p).code.fg == Some(color_of_hex(p.code_fg@)),
        themed(name, p).code.bg == None::<Color>,
        themed(name, p).todo_open.fg == Some(color_of_hex(p.todo_open_fg@)),
        themed(name, p).todo_open.bg == None::<Color>,
        themed(name, p).todo_done.fg == Some(color_of_hex(p.todo_done_fg@)),
        themed(name, p).todo_done.bg == None::<Color>,
        themed(name, p).todo_done_body.fg == Some(color_of_hex(p.todo_done_body_fg@)),
        themed(name, p).todo_done_body.bg == None::<Color>,
        themed(name, p).property_key.fg == Some(color_of_hex(p.property_key_fg@)),
        themed(name, p).property_key.bg == None::<Color>,
        themed(name, p).property_value.fg == Some(color_of_hex(p.property_value_fg@)),
        themed(name, p).property_value.bg == None::<Color>,
        themed(name, p).heading.fg == Some(color_of_hex(p.heading_fg@)),
        themed(name, p).heading.bg == None::<Color>,
        themed(name, p).dim.fg == Some(color_of_hex(p.dim_fg@)),
        themed(name, p).dim.bg == None::<Color>,
        themed(name, p).border.fg == Some(color_of_hex(p.border@)),
        themed(name, p).border.bg == None::<Color>,
        themed(name, p).hint.fg == Some(color_of_hex(p.hint@)),
        themed(name, p).hint.bg == None::<Color>,
        themed(name, p).status_normal.fg == Some(color_of_hex(p.status_normal_fg@)),
        themed(name, p).status_normal.bg == Some(color_of_hex(p.status_normal_bg@)),
        themed(name, p).status_insert.fg == Some(color_of_hex(p.status_insert_fg@)),
        themed(name, p).status_insert.bg == Some(color_of_hex(p.status_insert_bg@)),
        themed(name, p).status_visual.fg == Some(color_of_hex(p.status_visual_fg@)),
        themed(name, p).status_visual.bg == Some(color_of_hex(p.status_visual_bg@)),
        themed(name, p).status_message.fg == Some(color_of_hex(p.status_message_fg@)),
        themed(name, p).status_message.bg == None::<Color>,
        themed(name, p).help_title.fg == Some(color_of_hex(p.help_title_fg@)),
        themed(name, p).help_title.bg == None::<Color>,
        themed(name, p).popup_bg == color_of_hex(p.bg_elev@),
        themed(name, p).list_selected.fg == Some(color_of_hex(p.list_selected_fg@)),
        themed(name, p).list_selected.bg == Some(color_of_hex(p.list_selected_bg@)),
{
}

} // verus!

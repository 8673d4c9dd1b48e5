//! Themes and icons.

use outl_tui::icons::{IconSet, TuiIconStyle};
use outl_tui::runtime::{
    choose_theme, resolve_theme, run, run_with_theme_override, shared_workspace, Boot,
    StartError,
};
use outl_tui::state::Screen;
use outl_tui::style::Color;
use outl_tui::theme::{
    by_name, default_dark, default_theme, hex_to_color, light, Palette, Palettes, PRESETS,
};

/// A palette whose colours are all different.
fn palette(seed: u8) -> Palette {
    let n = std::cell::Cell::new(0u8);
    let next = || {
        n.set(n.get() + 1);
        format!("#{:02x}{:02x}{:02x}", seed, n.get(), 255 - n.get())
    };
    Palette {
        bg: next(),
        fg: next(),
        fg_dimmer: next(),
        selected_bullet_fg: next(),
        selected_bullet_bg: next(),
        cursor_block_fg: next(),
        cursor_block_bg: next(),
        cursor_caret_fg: next(),
        ref_link_fg: next(),
        tag_link_fg: next(),
        md_link_fg: next(),
        bold_fg: next(),
        italic_fg: next(),
        strike_fg: next(),
        highlight_bg: next(),
        highlight_fg: next(),
        code_fg: next(),
        todo_open_fg: next(),
        todo_done_fg: next(),
        todo_done_body_fg: next(),
        property_key_fg: next(),
        property_value_fg: next(),
        heading_fg: next(),
        dim_fg: next(),
        border: next(),
        hint: next(),
        status_normal_fg: next(),
        status_normal_bg: next(),
        status_insert_fg: next(),
        status_insert_bg: next(),
        status_visual_fg: next(),
        status_visual_bg: next(),
        status_message_fg: next(),
        help_title_fg: next(),
        bg_elev: next(),
        list_selected_fg: next(),
        list_selected_bg: next(),
    }
}

fn palettes() -> Palettes {
    Palettes {
        outl: palette(1),
        outl_light: palette(2),
        logseq_light: palette(3),
        dracula: palette(4),
        solarized_dark: palette(5),
        nord: palette(6),
        monokai: palette(7),
    }
}

#[test]
fn every_listed_preset_resolves() {
    for name in PRESETS {
        assert!(by_name(name, &palettes()).is_some(), "preset {name} should resolve");
    }
}

#[test]
fn lookup_is_case_and_separator_insensitive() {
    let all = palettes();
    assert!(by_name("Dracula", &all).is_some());
    assert!(by_name("DRACULA", &all).is_some());
    assert!(by_name("solarized_dark", &all).is_some());
    assert!(by_name("Solarized Dark", &all).is_some());
    assert!(by_name("default-dark", &all).is_some());
}

#[test]
fn unknown_preset_returns_none() {
    assert!(by_name("vampire", &palettes()).is_none());
    assert!(by_name("", &palettes()).is_none());
    assert!(by_name("", &palettes()).is_none());
}

#[test]
fn theme_name_matches_preset_id() {
    for name in PRESETS {
        let t = by_name(name, &palettes()).unwrap();
        assert_eq!(t.name, name);
    }
}

#[test]
fn every_theme_preset_provides_complete_palette() {
    for name in PRESETS {
        let t = by_name(name, &palettes()).unwrap();
        assert_eq!(t.name, name);
    }
}

#[test]
fn colours_come_from_the_palette_of_the_preset() {
    let all = palettes();
    let t = by_name("nord", &all).unwrap();
    assert_eq!(t.background, Color::Rgb(6, 1, 254));
    assert_eq!(t.foreground, Color::Rgb(6, 2, 253));
    assert_eq!(default_theme(&all).name, "outl");
    assert_eq!(hex_to_color("#0a0B0c"), Color::Rgb(10, 11, 12));
    assert_eq!(hex_to_color("0a0b0c"), Color::Reset);
    assert_eq!(hex_to_color("#12345"), Color::Reset);
    assert_eq!(default_dark().name, "default-dark");
    assert_eq!(light().name, "light");
}

// ---------------------------------------------------------------------
// Choosing a theme, starting
// ---------------------------------------------------------------------

const CONFIG: &str = "[theme]\npreset = \"nord\"\n\n[workspace]\nstorage = \"jsonl\"\n";

#[test]
fn the_override_wins_over_the_workspace_and_that_over_the_user() {
    let all = palettes();
    assert_eq!(resolve_theme(Some("dracula"), CONFIG, "monokai", &all).name, "dracula");
    assert_eq!(resolve_theme(None, CONFIG, "monokai", &all).name, "nord");
    assert_eq!(resolve_theme(None, "", "monokai", &all).name, "monokai");
    assert_eq!(resolve_theme(Some("vampire"), CONFIG, "monokai", &all).name, "nord");
    assert_eq!(resolve_theme(None, "theme = [", "vampire", &all).name, "outl");
    assert_eq!(choose_theme(None, Some("light"), "nord", &all).name, "light");
}

fn boot() -> Boot {
    Boot {
        root: "/ws".to_string(),
        is_tty: true,
        has_workspace: true,
        config: CONFIG.to_string(),
        global_preset: "monokai".to_string(),
        icon_style: TuiIconStyle::NerdFont,
        backlinks_newest_first: true,
        palettes: palettes(),
        today: 739_004,
        now_ms: 5,
    }
}

#[test]
fn the_editor_starts_on_the_journal_of_the_day() {
    let session = run(boot()).unwrap_or_else(|_| panic!("it starts"));
    assert!(matches!(session.app.screen, Screen::Journal(739_004)));
    assert_eq!(session.app.theme.name, "nord");
    assert_eq!(session.app.icons.calendar, "\u{f073}");
    assert!(session.app.backlinks_newest_first);
    assert!(session.shared);
    assert!(shared_workspace(CONFIG));
    assert!(shared_workspace("[workspace]\n"));
    assert!(!shared_workspace("[workspace]\nstorage = \"sqlite\"\n"));
    let session = run_with_theme_override(boot(), Some("light"));
    assert!(matches!(session, Ok(s) if s.app.theme.name == "light"));
}

#[test]
fn the_editor_does_not_start_without_a_terminal_or_a_workspace() {
    let none = run(Boot { is_tty: false, ..boot() });
    assert!(matches!(none, Err(StartError::NotATerminal)));
    match run(Boot { has_workspace: false, ..boot() }) {
        Err(e) => {
            assert!(matches!(&e, StartError::NoWorkspace { root } if root == "/ws"));
            assert!(e.message().contains("/ws"));
        }
        Ok(_) => panic!("there is no workspace"),
    }
}

// ---------------------------------------------------------------------
// Icons
// ---------------------------------------------------------------------

#[test]
fn emoji_is_the_default_and_contains_no_private_use_glyphs() {
    let icons = IconSet::default();
    assert_eq!(icons.calendar, "📅");
    assert!(icons.file.chars().all(|ch| !(0xE000..=0xF8FF).contains(&(ch as u32))));
}

#[test]
fn nerd_font_is_explicit() {
    let icons = IconSet::new(TuiIconStyle::NerdFont);
    assert_eq!(icons.calendar, "\u{f073}");
    assert!(icons.calendar.chars().any(|ch| (0xE000..=0xF8FF).contains(&(ch as u32))));
}

fn in_some_pua(ch: char) -> bool {
    let cp = ch as u32;
    (0xE000..=0xF8FF).contains(&cp)
        || (0xF0000..=0xFFFFD).contains(&cp)
        || (0x100000..=0x10FFFD).contains(&cp)
}

#[test]
fn nerd_font_uses_only_pua_glyphs() {
    let nerd = IconSet::new(TuiIconStyle::NerdFont);
    for glyph in [
        nerd.calendar,
        nerd.week,
        nerd.file,
        nerd.image,
        nerd.clock,
        nerd.stamp,
        nerd.star,
        nerd.history,
        nerd.bolt,
        nerd.search,
        nerd.cog,
        nerd.paint_brush,
        nerd.warning,
        nerd.success,
        nerd.info,
        nerd.error,
        nerd.save,
        nerd.clipboard,
        nerd.snooze,
        nerd.hashtag,
        nerd.bell,
        nerd.play,
        nerd.todo_chip,
        nerd.editing,
        nerd.freshness,
        nerd.workspace,
        nerd.backlinks,
        nerd.fold_open,
        nerd.fold_closed,
    ] {
        assert!(
            glyph.chars().all(|ch| ch == ' ' || in_some_pua(ch)),
            "nerd glyph must be PUA-only (or a padding space): {glyph:?}"
        );
    }
}

#[test]
fn play_routes_through_the_icon_set() {
    let emoji = IconSet::new(TuiIconStyle::Emoji);
    assert_eq!(emoji.property_glyph("auto-run"), Some("▶"));
    assert_eq!(emoji.command_glyph("run"), "▶");
    let nerd = IconSet::new(TuiIconStyle::NerdFont);
    assert_eq!(nerd.property_glyph("auto-run"), Some("\u{f04b}"));
    assert_eq!(nerd.command_glyph("run"), "\u{f04b}");
}

#[test]
fn emoji_preserves_the_pre_iconset_glyphs() {
    let emoji = IconSet::new(TuiIconStyle::Emoji);
    assert_eq!(emoji.calendar, "📅");
    assert_eq!(emoji.week, "📆");
    assert_eq!(emoji.file, "📄");
    assert_eq!(emoji.image, "🖼");
    assert_eq!(emoji.clock, "🕐");
    assert_eq!(emoji.stamp, "🕒");
    assert_eq!(emoji.star, "⭐");
    assert_eq!(emoji.history, "🕘");
    assert_eq!(emoji.bolt, "⚡");
    assert_eq!(emoji.search, "🔎");
    assert_eq!(emoji.cog, "⚙");
    assert_eq!(emoji.paint_brush, "🎨");
    assert_eq!(emoji.warning, "⚠");
    assert_eq!(emoji.success, "✓");
    assert_eq!(emoji.info, "ℹ");
    assert_eq!(emoji.error, "✕");
    assert_eq!(emoji.save, "💾");
    assert_eq!(emoji.clipboard, "📋");
    assert_eq!(emoji.snooze, "💤");
    assert_eq!(emoji.hashtag, "🔢");
    assert_eq!(emoji.bell, "⏰");
    assert_eq!(emoji.play, "▶");
    assert_eq!(emoji.todo_chip, "☑");
    assert_eq!(emoji.editing, "●");
    assert_eq!(emoji.freshness, "⟳");
    assert_eq!(emoji.workspace, "◌");
    assert_eq!(emoji.backlinks, "⇇");
    assert_eq!(emoji.fold_open, "▼ ");
    assert_eq!(emoji.fold_closed, "▶ ");
    assert_eq!(
        emoji.fold_legend,
        "              (▼ expanded · ▶ collapsed · synced via op log)"
    );

    assert_eq!(emoji.property_glyph("remind"), Some("⏰"));
    assert_eq!(emoji.property_glyph("auto-run"), Some("▶"));
    assert_eq!(emoji.property_glyph("template"), Some("📋"));
    assert_eq!(emoji.property_glyph("pinned"), None);

    assert_eq!(emoji.category_glyph("Actions"), "⚡");
    assert_eq!(emoji.category_glyph("Navigation"), "↪");
    assert_eq!(emoji.category_glyph("Search"), "🔎");
    assert_eq!(emoji.category_glyph("Settings"), "⚙");
    assert_eq!(emoji.category_glyph("Dates & time"), "📅");
    assert_eq!(emoji.category_glyph("Other"), "•");

    assert_eq!(emoji.command_glyph("run"), "▶");
    assert_eq!(emoji.command_glyph("prop"), "≡");
    assert_eq!(emoji.command_glyph("search"), "🔎");
    assert_eq!(emoji.command_glyph("find"), "🔎");
    assert_eq!(emoji.command_glyph("theme"), "🎨");
    assert_eq!(emoji.command_glyph("open"), "↪");
    assert_eq!(emoji.command_glyph("switch"), "↪");
    assert_eq!(emoji.command_glyph("quit"), "✕");
    assert_eq!(emoji.command_glyph("q"), "✕");
    assert_eq!(emoji.command_glyph("date-today"), "📅");
    assert_eq!(emoji.command_glyph("dt"), "📅");
    assert_eq!(emoji.command_glyph("dy"), "📅");
    assert_eq!(emoji.command_glyph("dtm"), "📅");
    assert_eq!(emoji.command_glyph("time-now"), "🕐");
    assert_eq!(emoji.command_glyph("iso-date-today"), "🔢");
    assert_eq!(emoji.command_glyph("week"), "📆");
    assert_eq!(emoji.command_glyph("week-tag"), "📆");
    assert_eq!(emoji.command_glyph("stamp"), "🕒");
    assert_eq!(emoji.command_glyph("anything-else"), "·");
}

#[test]
fn chrome_and_fold_glyphs_route_through_the_set() {
    let nerd = IconSet::new(TuiIconStyle::NerdFont);
    for glyph in [
        nerd.todo_chip,
        nerd.editing,
        nerd.freshness,
        nerd.workspace,
        nerd.backlinks,
        nerd.fold_open,
        nerd.fold_closed,
    ] {
        assert!(
            glyph.chars().all(|ch| ch == ' ' || (0xE000..=0xF8FF).contains(&(ch as u32))),
            "nerd chip must be PUA-only: {glyph:?}"
        );
    }
    assert!(nerd.fold_legend.contains('\u{f078}'));
    assert!(nerd.fold_legend.contains('\u{f054}'));
}

#[test]
fn every_preset_is_found_under_its_name() {
    let all = palettes();
    for name in PRESETS {
        assert_eq!(by_name(name, &all).unwrap().name, name);
        let loud = name.to_uppercase().replace('-', "_");
        assert_eq!(by_name(&loud, &all).unwrap().name, name);
    }
    assert_eq!(by_name("Solarized Dark", &all).unwrap().name, "solarized-dark");
}

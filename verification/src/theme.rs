//! Color themes: semantic color slots, palette families and the
//! dark / light / auto mode, plus the config-string parsers for them.
//!
//! The terminal front end reads `$COLORFGBG` itself and hands the result to
//! [`background_is_light`]; every choice that depends on the terminal
//! background takes that resolved flag as `background_light`.

use vstd::prelude::*;
use crate::text::{is_white_space, trim_start_seq, trim_end_seq, after_sep, before_sep, find_sep, parse_u32_spec, str_chars, str_parse_u32, string_from_chars, ascii_lower_seq, owned, str_eq, str_to_ascii_lowercase, str_trim, trim_seq};

verus! {

/// A 24-bit RGB color.
#[derive(Debug, Clone, Copy, PartialEq, Eq, Structural)]
pub struct Rgb {
    pub r: u8,
    pub g: u8,
    pub b: u8,
}

/// The color a `0xRRGGBB` literal denotes.
pub open spec fn hex_spec(c: u32) -> Rgb {
    Rgb { r: ((c / 65536) % 256) as u8, g: ((c / 256) % 256) as u8, b: (c % 256) as u8 }
}

/// Build a color from a `0xRRGGBB` literal.
fn hex(c: u32) -> (r: Rgb)
    ensures
        r == hex_spec(c),
{
    Rgb { r: ((c / 65536) % 256) as u8, g: ((c / 256) % 256) as u8, b: (c % 256) as u8 }
}

/// A set of semantic color slots covering everything the view paints.
#[derive(Debug, Clone, Copy, PartialEq, Eq, Structural)]
pub struct Theme {
    /// `+` line prefix on Add lines.
    pub add: Rgb,
    /// `-` line prefix on Delete lines.
    pub delete: Rgb,
    /// Word-level emphasis color for changed words on Add lines.
    pub word_add: Rgb,
    /// Word-level emphasis color for changed words on Delete lines.
    pub word_del: Rgb,
    /// Dimmed text: meta, line-number gutter, normal-mode indicator.
    pub dim: Rgb,
    /// File header line.
    pub file_header: Rgb,
    /// Hunk header line.
    pub hunk_header: Rgb,
    /// Foreground of the selected stream row.
    pub selection_fg: Rgb,
    /// Background highlight of the selected stream row.
    pub selection_bg: Rgb,
    /// Foreground of the active search match.
    pub match_active_fg: Rgb,
    /// Background highlight of the active search match.
    pub match_active_bg: Rgb,
    /// Background of inactive search matches.
    pub match_inactive_bg: Rgb,
    /// Background of the cursor row.
    pub cursor_bg: Rgb,
    /// Status-bar text color when editing a query/filter.
    pub edit_mode_fg: Rgb,
    /// Status-bar background.
    pub status_bg: Rgb,
    /// Agent annotation text.
    pub note: Rgb,
    /// Foreground that stays readable on top of a solid accent fill.
    pub on_accent: Rgb,
}

/// A theme given as seventeen `0xRRGGBB` literals, slot by slot in
/// declaration order.
pub open spec fn theme_of(
    add: u32, delete: u32, word_add: u32, word_del: u32, dim: u32, file_header: u32,
    hunk_header: u32, selection_fg: u32, selection_bg: u32, match_active_fg: u32,
    match_active_bg: u32, match_inactive_bg: u32, cursor_bg: u32, edit_mode_fg: u32,
    status_bg: u32, note: u32, on_accent: u32,
) -> Theme {
    Theme {
        add: hex_spec(add),
        delete: hex_spec(delete),
        word_add: hex_spec(word_add),
        word_del: hex_spec(word_del),
        dim: hex_spec(dim),
        file_header: hex_spec(file_header),
        hunk_header: hex_spec(hunk_header),
        selection_fg: hex_spec(selection_fg),
        selection_bg: hex_spec(selection_bg),
        match_active_fg: hex_spec(match_active_fg),
        match_active_bg: hex_spec(match_active_bg),
        match_inactive_bg: hex_spec(match_inactive_bg),
        cursor_bg: hex_spec(cursor_bg),
        edit_mode_fg: hex_spec(edit_mode_fg),
        status_bg: hex_spec(status_bg),
        note: hex_spec(note),
        on_accent: hex_spec(on_accent),
    }
}

#[allow(clippy::too_many_arguments)]
fn build_theme(
    add: u32, delete: u32, word_add: u32, word_del: u32, dim: u32, file_header: u32,
    hunk_header: u32, selection_fg: u32, selection_bg: u32, match_active_fg: u32,
    match_active_bg: u32, match_inactive_bg: u32, cursor_bg: u32, edit_mode_fg: u32,
    status_bg: u32, note: u32, on_accent: u32,
) -> (t: Theme)
    ensures
        t == theme_of(
            add, delete, word_add, word_del, dim, file_header, hunk_header, selection_fg,
            selection_bg, match_active_fg, match_active_bg, match_inactive_bg, cursor_bg,
            edit_mode_fg, status_bg, note, on_accent,
        ),
{
    Theme {
        add: hex(add),
        delete: hex(delete),
        word_add: hex(word_add),
        word_del: hex(word_del),
        dim: hex(dim),
        file_header: hex(file_header),
        hunk_header: hex(hunk_header),
        selection_fg: hex(selection_fg),
        selection_bg: hex(selection_bg),
        match_active_fg: hex(match_active_fg),
        match_active_bg: hex(match_active_bg),
        match_inactive_bg: hex(match_inactive_bg),
        cursor_bg: hex(cursor_bg),
        edit_mode_fg: hex(edit_mode_fg),
        status_bg: hex(status_bg),
        note: hex(note),
        on_accent: hex(on_accent),
    }
}

/// Flexoki dark: 400-level accents on a black background.
pub open spec fn flexoki_dark() -> Theme {
    theme_of(
        0x879A39, 0xD14D41, 0xA0AF54, 0xE8705F, 0x878580, 0xCE5D97, 0x4385BE, 0xFFFCF0,
        0x575653, 0x100F0F, 0xDFB431, 0x403E3C, 0x575653, 0xDA702C, 0x282726, 0x3AA99F,
        0x100F0F,
    )
}

/// Flexoki light: 600-level accents on a paper background.
pub open spec fn flexoki_light() -> Theme {
    theme_of(
        0x66800B, 0xAF3029, 0x879A39, 0xD14D41, 0x6F6E69, 0xA02F6F, 0x205EA6, 0x100F0F,
        0xCECDC3, 0x100F0F, 0xDFB431, 0xCECDC3, 0xB7B5AC, 0xBC5215, 0xE6E4D9, 0x24837B,
        0xFFFCF0,
    )
}

/// Catppuccin Mocha (dark).
pub open spec fn catppuccin_mocha_spec() -> Theme {
    theme_of(
        0xA6E3A1, 0xF38BA8, 0xA6E3A1, 0xF38BA8, 0x6C7086, 0xCBA6F7, 0x89B4FA, 0xCDD6F4,
        0x45475A, 0x11111B, 0xF9E2AF, 0x313244, 0x45475A, 0xFAB387, 0x181825, 0x94E2D5,
        0x11111B,
    )
}

/// Catppuccin Latte (light).
pub open spec fn catppuccin_latte_spec() -> Theme {
    theme_of(
        0x40A02B, 0xD20F39, 0x40A02B, 0xD20F39, 0x6C6F85, 0x8839EF, 0x1E66F5, 0x4C4F69,
        0xBCC0CC, 0x4C4F69, 0xDF8E1D, 0xCCD0DA, 0xBCC0CC, 0xFE640B, 0xE6E9EF, 0x179299,
        0xFFFFFF,
    )
}

/// Gruvbox Dark.
pub open spec fn gruvbox_dark_spec() -> Theme {
    theme_of(
        0xB8BB26, 0xFB4934, 0xB8BB26, 0xFB4934, 0xA89984, 0xD3869B, 0x83A598, 0xEBDBB2,
        0x504945, 0x282828, 0xFABD2F, 0x3C3836, 0x504945, 0xFE8019, 0x3C3836, 0x8EC07C,
        0x282828,
    )
}

/// Nord.
pub open spec fn nord_spec() -> Theme {
    theme_of(
        0xA3BE8C, 0xBF616A, 0xA3BE8C, 0xBF616A, 0x4C566A, 0xB48EAD, 0x81A1C1, 0xECEFF4,
        0x434C5E, 0x2E3440, 0xEBCB8B, 0x3B4252, 0x434C5E, 0xD08770, 0x3B4252, 0x88C0D0,
        0x2E3440,
    )
}

/// Tokyo Night.
pub open spec fn tokyonight_spec() -> Theme {
    theme_of(
        0x9ECE6A, 0xF7768E, 0x9ECE6A, 0xF7768E, 0x565F89, 0xBB9AF7, 0x7AA2F7, 0xC0CAF5,
        0x292E42, 0x1A1B26, 0xE0AF68, 0x414868, 0x292E42, 0xFF9E64, 0x16161E, 0x7DCFFF,
        0x1A1B26,
    )
}

impl Theme {
    /// Flexoki dark variant, tuned for a black terminal background.
    pub fn dark() -> (t: Self)
        ensures
            t == flexoki_dark(),
    {
        build_theme(
            0x879A39, 0xD14D41, 0xA0AF54, 0xE8705F, 0x878580, 0xCE5D97, 0x4385BE, 0xFFFCF0,
            0x575653, 0x100F0F, 0xDFB431, 0x403E3C, 0x575653, 0xDA702C, 0x282726, 0x3AA99F,
            0x100F0F,
        )
    }

    /// Flexoki light variant, tuned for a paper terminal background.
    pub fn light() -> (t: Self)
        ensures
            t == flexoki_light(),
    {
        build_theme(
            0x66800B, 0xAF3029, 0x879A39, 0xD14D41, 0x6F6E69, 0xA02F6F, 0x205EA6, 0x100F0F,
            0xCECDC3, 0x100F0F, 0xDFB431, 0xCECDC3, 0xB7B5AC, 0xBC5215, 0xE6E4D9, 0x24837B,
            0xFFFCF0,
        )
    }

    /// Catppuccin Mocha: dark, pastel-on-cold.
    pub fn catppuccin_mocha() -> (t: Self)
        ensures
            t == catppuccin_mocha_spec(),
    {
        build_theme(
            0xA6E3A1, 0xF38BA8, 0xA6E3A1, 0xF38BA8, 0x6C7086, 0xCBA6F7, 0x89B4FA, 0xCDD6F4,
            0x45475A, 0x11111B, 0xF9E2AF, 0x313244, 0x45475A, 0xFAB387, 0x181825, 0x94E2D5,
            0x11111B,
        )
    }

    /// Catppuccin Latte: the light sibling of Mocha.
    pub fn catppuccin_latte() -> (t: Self)
        ensures
            t == catppuccin_latte_spec(),
    {
        build_theme(
            0x40A02B, 0xD20F39, 0x40A02B, 0xD20F39, 0x6C6F85, 0x8839EF, 0x1E66F5, 0x4C4F69,
            0xBCC0CC, 0x4C4F69, 0xDF8E1D, 0xCCD0DA, 0xBCC0CC, 0xFE640B, 0xE6E9EF, 0x179299,
            0xFFFFFF,
        )
    }

    /// Gruvbox Dark: warm, earthy retro.
    pub fn gruvbox_dark() -> (t: Self)
        ensures
            t == gruvbox_dark_spec(),
    {
        build_theme(
            0xB8BB26, 0xFB4934, 0xB8BB26, 0xFB4934, 0xA89984, 0xD3869B, 0x83A598, 0xEBDBB2,
            0x504945, 0x282828, 0xFABD2F, 0x3C3836, 0x504945, 0xFE8019, 0x3C3836, 0x8EC07C,
            0x282828,
        )
    }

    /// Nord: cool, arctic-blue.
    pub fn nord() -> (t: Self)
        ensures
            t == nord_spec(),
    {
        build_theme(
            0xA3BE8C, 0xBF616A, 0xA3BE8C, 0xBF616A, 0x4C566A, 0xB48EAD, 0x81A1C1, 0xECEFF4,
            0x434C5E, 0x2E3440, 0xEBCB8B, 0x3B4252, 0x434C5E, 0xD08770, 0x3B4252, 0x88C0D0,
            0x2E3440,
        )
    }

    /// Tokyo Night: deep blue night city.
    pub fn tokyonight() -> (t: Self)
        ensures
            t == tokyonight_spec(),
    {
        build_theme(
            0x9ECE6A, 0xF7768E, 0x9ECE6A, 0xF7768E, 0x565F89, 0xBB9AF7, 0x7AA2F7, 0xC0CAF5,
            0x292E42, 0x1A1B26, 0xE0AF68, 0x414868, 0x292E42, 0xFF9E64, 0x16161E, 0x7DCFFF,
            0x1A1B26,
        )
    }
}

/// A curated chrome palette family.
#[derive(Debug, Clone, Copy, PartialEq, Eq, Structural)]
pub enum Palette {
    Flexoki,
    Catppuccin,
    Gruvbox,
    Nord,
    TokyoNight,
}

/// The user's theme choice. `Auto` follows the terminal background. A new
/// session starts in `Light` (the `theme` setting defaults to `"light"`).
#[derive(Debug, Clone, Copy, PartialEq, Eq, Structural)]
pub enum ThemeMode {
    /// Dark variant.
    Dark,
    /// Light variant (the default).
    Light,
    /// Follow the terminal background; dark when it cannot be told.
    Auto,
}

impl Default for Palette {
    fn default() -> (p: Self)
        ensures
            p == Palette::Flexoki,
    {
        Palette::Flexoki
    }
}

impl Default for ThemeMode {
    fn default() -> (m: Self)
        ensures
            m == ThemeMode::Light,
    {
        ThemeMode::Light
    }
}

/// Whether `mode` picks a light variant, given what the terminal background
/// looks like.
pub open spec fn mode_is_light(mode: ThemeMode, background_light: bool) -> bool {
    match mode {
        ThemeMode::Dark => false,
        ThemeMode::Light => true,
        ThemeMode::Auto => background_light,
    }
}

pub open spec fn palette_cycle(p: Palette) -> Palette {
    match p {
        Palette::Flexoki => Palette::Catppuccin,
        Palette::Catppuccin => Palette::Gruvbox,
        Palette::Gruvbox => Palette::Nord,
        Palette::Nord => Palette::TokyoNight,
        Palette::TokyoNight => Palette::Flexoki,
    }
}

pub open spec fn palette_name(p: Palette) -> Seq<char> {
    match p {
        Palette::Flexoki => "flexoki"@,
        Palette::Catppuccin => "catppuccin"@,
        Palette::Gruvbox => "gruvbox"@,
        Palette::Nord => "nord"@,
        Palette::TokyoNight => "tokyonight"@,
    }
}

/// The preset name shown for a family in its dark or light variant.
pub open spec fn preset_name_spec(p: Palette, light: bool) -> Seq<char> {
    match p {
        Palette::Flexoki => if light { "flexoki-light"@ } else { "flexoki"@ },
        Palette::Catppuccin => if light { "catppuccin-latte"@ } else { "catppuccin-mocha"@ },
        Palette::Gruvbox => "gruvbox-dark"@,
        Palette::Nord => "nord"@,
        Palette::TokyoNight => "tokyonight"@,
    }
}

/// The concrete theme of a family in its dark or light variant; families
/// without a light variant keep their dark one.
pub open spec fn palette_theme(p: Palette, light: bool) -> Theme {
    match p {
        Palette::Flexoki => if light { flexoki_light() } else { flexoki_dark() },
        Palette::Catppuccin => if light { catppuccin_latte_spec() } else { catppuccin_mocha_spec() },
        Palette::Gruvbox => gruvbox_dark_spec(),
        Palette::Nord => nord_spec(),
        Palette::TokyoNight => tokyonight_spec(),
    }
}

/// The syntect syntax theme closest to a family's dark or light variant.
pub open spec fn palette_syntect_name(p: Palette, light: bool) -> Seq<char> {
    match p {
        Palette::Flexoki => if light { "base16-ocean.light"@ } else { "base16-ocean.dark"@ },
        Palette::Catppuccin => if light { "InspiredGitHub"@ } else { "base16-mocha.dark"@ },
        Palette::Gruvbox => "base16-eighties.dark"@,
        Palette::Nord => "base16-ocean.dark"@,
        Palette::TokyoNight => "base16-ocean.dark"@,
    }
}

impl Palette {
    /// Cycler order for `T`: Flexoki → Catppuccin → Gruvbox → Nord →
    /// Tokyo Night → Flexoki.
    pub fn cycle(self) -> (p: Self)
        ensures
            p == palette_cycle(self),
    {
        match self {
            Palette::Flexoki => Palette::Catppuccin,
            Palette::Catppuccin => Palette::Gruvbox,
            Palette::Gruvbox => Palette::Nord,
            Palette::Nord => Palette::TokyoNight,
            Palette::TokyoNight => Palette::Flexoki,
        }
    }

    /// Short family name (status line, parse input).
    pub fn name(self) -> (s: &'static str)
        ensures
            s@ == palette_name(self),
    {
        match self {
            Palette::Flexoki => "flexoki",
            Palette::Catppuccin => "catppuccin",
            Palette::Gruvbox => "gruvbox",
            Palette::Nord => "nord",
            Palette::TokyoNight => "tokyonight",
        }
    }

    /// The full preset name shown in the status line, e.g.
    /// `catppuccin-mocha`. The mode picks the family's variant; families
    /// without a light variant keep their dark one in light mode.
    pub fn preset_name(self, mode: ThemeMode, background_light: bool) -> (s: String)
        ensures
            s@ == preset_name_spec(self, mode_is_light(mode, background_light)),
    {
        let light = mode_light(mode, background_light);
        match self {
            Palette::Flexoki => if light { owned("flexoki-light") } else { owned("flexoki") },
            Palette::Catppuccin => if light {
                owned("catppuccin-latte")
            } else {
                owned("catppuccin-mocha")
            },
            Palette::Gruvbox => owned("gruvbox-dark"),
            Palette::Nord => owned("nord"),
            Palette::TokyoNight => owned("tokyonight"),
        }
    }

    /// Resolve the family + mode to a concrete [`Theme`].
    pub fn theme(self, mode: ThemeMode, background_light: bool) -> (t: Theme)
        ensures
            t == palette_theme(self, mode_is_light(mode, background_light)),
    {
        let light = mode_light(mode, background_light);
        match self {
            Palette::Flexoki => if light { Theme::light() } else { Theme::dark() },
            Palette::Catppuccin => if light {
                Theme::catppuccin_latte()
            } else {
                Theme::catppuccin_mocha()
            },
            Palette::Gruvbox => Theme::gruvbox_dark(),
            Palette::Nord => Theme::nord(),
            Palette::TokyoNight => Theme::tokyonight(),
        }
    }

    /// The closest syntect syntax theme for this family + mode.
    pub fn syntect_theme_name(self, mode: ThemeMode, background_light: bool) -> (s: &'static str)
        ensures
            s@ == palette_syntect_name(self, mode_is_light(mode, background_light)),
    {
        let light = mode_light(mode, background_light);
        match self {
            Palette::Flexoki => if light { "base16-ocean.light" } else { "base16-ocean.dark" },
            Palette::Catppuccin => if light { "InspiredGitHub" } else { "base16-mocha.dark" },
            Palette::Gruvbox => "base16-eighties.dark",
            Palette::Nord => "base16-ocean.dark",
            Palette::TokyoNight => "base16-ocean.dark",
        }
    }
}

fn mode_light(mode: ThemeMode, background_light: bool) -> (b: bool)
    ensures
        b == mode_is_light(mode, background_light),
{
    match mode {
        ThemeMode::Dark => false,
        ThemeMode::Light => true,
        ThemeMode::Auto => background_light,
    }
}

/// The (palette, mode) a lower-cased, trimmed `theme = "…"` token names, if
/// it is one of the understood tokens.
pub open spec fn theme_token(t: Seq<char>) -> Option<(Palette, ThemeMode)> {
    if t == "dark"@ {
        Some((Palette::Flexoki, ThemeMode::Dark))
    } else if t == "light"@ {
        Some((Palette::Flexoki, ThemeMode::Light))
    } else if t == "auto"@ {
        Some((Palette::Flexoki, ThemeMode::Auto))
    } else if t == "flexoki"@ || t == "flexoki-dark"@ {
        Some((Palette::Flexoki, ThemeMode::Dark))
    } else if t == "flexoki-light"@ {
        Some((Palette::Flexoki, ThemeMode::Light))
    } else if t == "catppuccin"@ || t == "catppuccin-mocha"@ {
        Some((Palette::Catppuccin, ThemeMode::Dark))
    } else if t == "catppuccin-latte"@ {
        Some((Palette::Catppuccin, ThemeMode::Light))
    } else if t == "gruvbox"@ || t == "gruvbox-dark"@ {
        Some((Palette::Gruvbox, ThemeMode::Dark))
    } else if t == "nord"@ {
        Some((Palette::Nord, ThemeMode::Dark))
    } else if t == "tokyonight"@ || t == "tokyonight-night"@ {
        Some((Palette::TokyoNight, ThemeMode::Dark))
    } else {
        None
    }
}

/// The normalized form of a config value: trimmed, ASCII lower-cased.
pub open spec fn normalize_token(s: Seq<char>) -> Seq<char> {
    ascii_lower_seq(trim_seq(s))
}

/// What `parse_theme` yields for a config value: the named (palette, mode),
/// or Flexoki dark for anything it does not understand.
pub open spec fn parse_theme_spec(s: Seq<char>) -> (Palette, ThemeMode) {
    match theme_token(normalize_token(s)) {
        Some(pm) => pm,
        None => (Palette::Flexoki, ThemeMode::Dark),
    }
}

fn token_lookup(t: &str) -> (r: Option<(Palette, ThemeMode)>)
    ensures
        r == theme_token(t@),
{
    if str_eq(t, "dark") {
        Some((Palette::Flexoki, ThemeMode::Dark))
    } else if str_eq(t, "light") {
        Some((Palette::Flexoki, ThemeMode::Light))
    } else if str_eq(t, "auto") {
        Some((Palette::Flexoki, ThemeMode::Auto))
    } else if str_eq(t, "flexoki") || str_eq(t, "flexoki-dark") {
        Some((Palette::Flexoki, ThemeMode::Dark))
    } else if str_eq(t, "flexoki-light") {
        Some((Palette::Flexoki, ThemeMode::Light))
    } else if str_eq(t, "catppuccin") || str_eq(t, "catppuccin-mocha") {
        Some((Palette::Catppuccin, ThemeMode::Dark))
    } else if str_eq(t, "catppuccin-latte") {
        Some((Palette::Catppuccin, ThemeMode::Light))
    } else if str_eq(t, "gruvbox") || str_eq(t, "gruvbox-dark") {
        Some((Palette::Gruvbox, ThemeMode::Dark))
    } else if str_eq(t, "nord") {
        Some((Palette::Nord, ThemeMode::Dark))
    } else if str_eq(t, "tokyonight") || str_eq(t, "tokyonight-night") {
        Some((Palette::TokyoNight, ThemeMode::Dark))
    } else {
        None
    }
}

/// Parse a `theme = "…"` config value into (palette, mode). Accepts preset
/// names, the light variants of those families, and the legacy mode names
/// (`dark`/`light`/`auto`, Flexoki). Unknown values fall back to Flexoki dark,
/// so a typo never breaks the TUI.
pub fn parse_theme(s: &str) -> (r: (Palette, ThemeMode))
    ensures
        r == parse_theme_spec(s@),
{
    let lower = str_to_ascii_lowercase(str_trim(s));
    match token_lookup(lower.as_str()) {
        Some(pm) => pm,
        None => (Palette::Flexoki, ThemeMode::Dark),
    }
}

/// True when `s` is a token [`parse_theme`] understands.
pub fn theme_known(s: &str) -> (r: bool)
    ensures
        r == theme_token(normalize_token(s@)).is_some(),
{
    let lower = str_to_ascii_lowercase(str_trim(s));
    token_lookup(lower.as_str()).is_some()
}

pub open spec fn mode_cycle(m: ThemeMode) -> ThemeMode {
    match m {
        ThemeMode::Dark => ThemeMode::Light,
        ThemeMode::Light => ThemeMode::Auto,
        ThemeMode::Auto => ThemeMode::Dark,
    }
}

pub open spec fn mode_name(m: ThemeMode) -> Seq<char> {
    match m {
        ThemeMode::Dark => "dark"@,
        ThemeMode::Light => "light"@,
        ThemeMode::Auto => "auto"@,
    }
}

/// What `ThemeMode::parse` yields for a config value.
pub open spec fn parse_mode_spec(s: Seq<char>) -> ThemeMode {
    let t = normalize_token(s);
    if t == "light"@ {
        ThemeMode::Light
    } else if t == "auto"@ {
        ThemeMode::Auto
    } else {
        ThemeMode::Dark
    }
}

impl ThemeMode {
    /// Cycler order: Dark → Light → Auto → Dark.
    pub fn cycle(self) -> (m: Self)
        ensures
            m == mode_cycle(self),
    {
        match self {
            ThemeMode::Dark => ThemeMode::Light,
            ThemeMode::Light => ThemeMode::Auto,
            ThemeMode::Auto => ThemeMode::Dark,
        }
    }

    /// Lowercase name for the status line.
    pub fn name(self) -> (s: &'static str)
        ensures
            s@ == mode_name(self),
    {
        match self {
            ThemeMode::Dark => "dark",
            ThemeMode::Light => "light",
            ThemeMode::Auto => "auto",
        }
    }

    /// Resolve this mode to a concrete Flexoki [`Theme`].
    pub fn to_theme(self, background_light: bool) -> (t: Theme)
        ensures
            t == palette_theme(Palette::Flexoki, mode_is_light(self, background_light)),
    {
        match self {
            ThemeMode::Dark => Theme::dark(),
            ThemeMode::Light => Theme::light(),
            ThemeMode::Auto => resolve_auto(background_light),
        }
    }

    /// The syntect theme name that matches this mode:
    /// `"base16-ocean.dark"` for dark backgrounds, `"base16-ocean.light"`
    /// for light ones.
    pub fn syntect_theme_name(self, background_light: bool) -> (s: &'static str)
        ensures
            s@ == palette_syntect_name(Palette::Flexoki, mode_is_light(self, background_light)),
    {
        match self {
            ThemeMode::Dark => "base16-ocean.dark",
            ThemeMode::Light => "base16-ocean.light",
            ThemeMode::Auto => if background_light {
                "base16-ocean.light"
            } else {
                "base16-ocean.dark"
            },
        }
    }

    /// Parse a config string (`"dark"` / `"light"` / `"auto"`) into a mode.
    /// Unknown / empty values fall back to [`ThemeMode::Dark`].
    pub fn parse(s: &str) -> (m: Self)
        ensures
            m == parse_mode_spec(s@),
    {
        let lower = str_to_ascii_lowercase(str_trim(s));
        if str_eq(lower.as_str(), "light") {
            ThemeMode::Light
        } else if str_eq(lower.as_str(), "auto") {
            ThemeMode::Auto
        } else {
            ThemeMode::Dark
        }
    }
}

/// The Flexoki theme for the terminal background: light on a light
/// background, dark otherwise.
pub fn resolve_auto(background_light: bool) -> (t: Theme)
    ensures
        t == palette_theme(Palette::Flexoki, background_light),
{
    if background_light {
        Theme::light()
    } else {
        Theme::dark()
    }
}

} // verus!

verus! {

/// The background field of a `$COLORFGBG` value (`"fg;bg"`, possibly with
/// further `;`-separated fields).
pub open spec fn colorfgbg_background(v: Seq<char>) -> Option<Seq<char>> {
    match after_sep(v, ';') {
        Some(rest) => Some(before_sep(rest, ';')),
        None => None,
    }
}

/// Whether a `$COLORFGBG` value describes a light background: its second
/// field is an ANSI color index of at least 7.
pub open spec fn background_is_light_spec(colorfgbg: Option<Seq<char>>) -> bool {
    match colorfgbg {
        None => false,
        Some(v) => match colorfgbg_background(v) {
            None => false,
            Some(bg) => match parse_u32_spec(bg) {
                Some(n) => n >= 7,
                None => false,
            },
        },
    }
}

/// Decide from the value of `$COLORFGBG` (`None` when unset or not valid
/// Unicode) whether the terminal background looks light. The format is
/// `"fg;bg"` (some terminals append `";default"`); a background index of 7
/// or more means light.
pub fn background_is_light(colorfgbg: Option<&str>) -> (b: bool)
    ensures
        b == background_is_light_spec(
            match colorfgbg {
                Some(v) => Some(v@),
                None => None,
            },
        ),
{
    let v = match colorfgbg {
        Some(v) => v,
        None => return false,
    };
    let chars = str_chars(v);
    proof {
        assert(chars@.skip(0) =~= chars@);
    }
    let i = find_sep(&chars, 0, ';');
    if i == chars.len() {
        return false;
    }
    let j = find_sep(&chars, i + 1, ';');
    let mut field: Vec<char> = Vec::new();
    let mut k = i + 1;
    while k < j
        invariant
            i + 1 <= k <= j <= chars.len(),
            field@ == chars@.subrange(i + 1, k as int),
        decreases j - k,
    {
        field.push(chars[k]);
        proof {
            assert(field@ =~= chars@.subrange(i + 1, k + 1));
        }
        k = k + 1;
    }
    let field_str = string_from_chars(&field);
    match str_parse_u32(field_str.as_str()) {
        Some(n) => n >= 7,
        None => false,
    }
}

} // verus!

verus! {

/// Whether a family ships a light variant of its own.
pub open spec fn has_light_variant(p: Palette) -> bool {
    p == Palette::Flexoki || p == Palette::Catppuccin
}

/// A plain config token: lower-case ASCII letters, digits, `-` and `.`.
pub open spec fn is_plain_token(s: Seq<char>) -> bool {
    s.len() > 0 && forall|i: int|
        0 <= i < s.len() ==> ('a' <= #[trigger] s[i] <= 'z' || s[i] == '-' || s[i] == '.' || (
        '0' <= s[i] <= '9'))
}

proof fn lemma_plain_token_normalizes_to_itself(s: Seq<char>)
    requires
        is_plain_token(s),
    ensures
        normalize_token(s) == s,
{
    assert(!is_white_space(s[0]));
    assert(trim_start_seq(s) == s);
    assert(!is_white_space(s.last()));
    assert(trim_end_seq(s) == s);
    assert(ascii_lower_seq(s) =~= s);
}

/// Cycling the palette family (`T`) visits all five families and returns to
/// the start after five steps.
pub proof fn law_palette_cycle_wraps(p: Palette)
    ensures
        palette_cycle(palette_cycle(palette_cycle(palette_cycle(palette_cycle(p))))) == p,
        p != palette_cycle(p),
        p != palette_cycle(palette_cycle(p)),
        p != palette_cycle(palette_cycle(palette_cycle(p))),
        p != palette_cycle(palette_cycle(palette_cycle(palette_cycle(p)))),
        palette_cycle(p) != palette_cycle(palette_cycle(p)),
        palette_cycle(p) != palette_cycle(palette_cycle(palette_cycle(p))),
        palette_cycle(p) != palette_cycle(palette_cycle(palette_cycle(palette_cycle(p)))),
        palette_cycle(palette_cycle(p)) != palette_cycle(palette_cycle(palette_cycle(p))),
        palette_cycle(palette_cycle(p)) != palette_cycle(
            palette_cycle(palette_cycle(palette_cycle(p))),
        ),
        palette_cycle(palette_cycle(palette_cycle(p))) != palette_cycle(
            palette_cycle(palette_cycle(palette_cycle(p))),
        ),
{
}

/// Cycling the theme mode (`t`) goes Dark → Light → Auto → Dark.
pub proof fn law_mode_cycle_wraps(m: ThemeMode)
    ensures
        mode_cycle(mode_cycle(mode_cycle(m))) == m,
        mode_cycle(m) != m,
        mode_cycle(mode_cycle(m)) != m,
        mode_cycle(ThemeMode::Dark) == ThemeMode::Light,
        mode_cycle(ThemeMode::Light) == ThemeMode::Auto,
{
}

/// A preset name shown in the status line parses back to its family, and to
/// the light mode exactly when the family has a light variant and it was
/// the one shown. So every preset name is a known theme token.
pub proof fn law_preset_name_parses_back(p: Palette, light: bool)
    ensures
        parse_theme_spec(preset_name_spec(p, light)) == (p, if light && has_light_variant(p) {
            ThemeMode::Light
        } else {
            ThemeMode::Dark
        }),
        theme_token(normalize_token(preset_name_spec(p, light))).is_some(),
{
    reveal_strlit("dark");
    reveal_strlit("light");
    reveal_strlit("auto");
    reveal_strlit("flexoki");
    reveal_strlit("flexoki-dark");
    reveal_strlit("flexoki-light");
    reveal_strlit("catppuccin");
    reveal_strlit("catppuccin-mocha");
    reveal_strlit("catppuccin-latte");
    reveal_strlit("gruvbox");
    reveal_strlit("gruvbox-dark");
    reveal_strlit("nord");
    reveal_strlit("tokyonight");
    reveal_strlit("tokyonight-night");
    let name = preset_name_spec(p, light);
    assert(is_plain_token(name));
    lemma_plain_token_normalizes_to_itself(name);
}

/// A mode's own name parses back to that mode.
pub proof fn law_mode_name_parses_back(m: ThemeMode)
    ensures
        parse_mode_spec(mode_name(m)) == m,
{
    reveal_strlit("dark");
    reveal_strlit("light");
    reveal_strlit("auto");
    assert(is_plain_token(mode_name(m)));
    lemma_plain_token_normalizes_to_itself(mode_name(m));
}

/// A value `theme_known` rejects parses to the default (Flexoki dark): a
/// typo never breaks the TUI.
pub proof fn law_unknown_theme_falls_back(s: Seq<char>)
    requires
        !theme_token(normalize_token(s)).is_some(),
    ensures
        parse_theme_spec(s) == (Palette::Flexoki, ThemeMode::Dark),
{
}

/// Every family picks one of syntect's built-in themes.
pub proof fn law_syntect_name_is_builtin(p: Palette, light: bool)
    ensures
        ({
            let n = palette_syntect_name(p, light);
            n == "base16-ocean.dark"@ || n == "base16-ocean.light"@ || n == "base16-mocha.dark"@
                || n == "base16-eighties.dark"@ || n == "InspiredGitHub"@
        }),
{
}

/// `auto` on a background that cannot be told light resolves like `dark`.
pub proof fn law_auto_defaults_to_dark(p: Palette)
    ensures
        palette_theme(p, mode_is_light(ThemeMode::Auto, false)) == palette_theme(
            p,
            mode_is_light(ThemeMode::Dark, false),
        ),
        background_is_light_spec(None) == false,
{
}

} // verus!

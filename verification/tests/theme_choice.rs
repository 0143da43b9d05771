use next_hunk::theme::{
    background_is_light, parse_theme, resolve_auto, theme_known, Palette, Theme, ThemeMode,
};

#[test]
fn theme_known_covers_every_parse_theme_token() {
    for s in [
        "dark",
        "light",
        "auto",
        "flexoki",
        "flexoki-dark",
        "flexoki-light",
        "catppuccin",
        "catppuccin-mocha",
        "catppuccin-latte",
        "gruvbox",
        "gruvbox-dark",
        "nord",
        "tokyonight",
        "tokyonight-night",
        " Flexoki ",
    ] {
        assert!(theme_known(s), "{s} should be known");
    }
    for s in ["", "banana", "cattpuccin", "flexoki-darkk"] {
        assert!(!theme_known(s), "{s} should be unknown");
    }
}

#[test]
fn parse_theme_accepts_presets_and_legacy_modes() {
    assert_eq!(parse_theme("catppuccin-mocha"), (Palette::Catppuccin, ThemeMode::Dark));
    assert_eq!(parse_theme("Catppuccin-Latte"), (Palette::Catppuccin, ThemeMode::Light));
    assert_eq!(parse_theme("gruvbox-dark"), (Palette::Gruvbox, ThemeMode::Dark));
    assert_eq!(parse_theme("nord"), (Palette::Nord, ThemeMode::Dark));
    assert_eq!(parse_theme("tokyonight"), (Palette::TokyoNight, ThemeMode::Dark));
    assert_eq!(parse_theme("flexoki"), (Palette::Flexoki, ThemeMode::Dark));
    assert_eq!(parse_theme("dark"), (Palette::Flexoki, ThemeMode::Dark));
    assert_eq!(parse_theme("auto"), (Palette::Flexoki, ThemeMode::Auto));
    assert_eq!(parse_theme("banana"), (Palette::Flexoki, ThemeMode::Dark));
}

#[test]
fn palette_cycle_wraps_through_all_families() {
    let mut p = Palette::Flexoki;
    let mut seen = vec![p.name()];
    for _ in 0..5 {
        p = p.cycle();
        seen.push(p.name());
    }
    assert_eq!(seen, vec!["flexoki", "catppuccin", "gruvbox", "nord", "tokyonight", "flexoki"]);
}

#[test]
fn preset_palettes_are_distinct_from_flexoki() {
    let base = Theme::dark();
    for (name, t) in [
        ("catppuccin-mocha", Theme::catppuccin_mocha()),
        ("gruvbox-dark", Theme::gruvbox_dark()),
        ("nord", Theme::nord()),
        ("tokyonight", Theme::tokyonight()),
    ] {
        assert_ne!(t.file_header, base.file_header, "{name} header differs");
        assert_ne!(t.status_bg, base.status_bg, "{name} status bg differs");
        assert_ne!(t.add, base.add, "{name} add color differs");
    }
    assert_ne!(Theme::catppuccin_latte().status_bg, Theme::light().status_bg);
}

#[test]
fn catppuccin_mode_resolves_to_its_own_variants() {
    let mocha = Palette::Catppuccin.theme(ThemeMode::Dark, false);
    let latte = Palette::Catppuccin.theme(ThemeMode::Light, false);
    assert_eq!(mocha.status_bg, Theme::catppuccin_mocha().status_bg);
    assert_eq!(latte.status_bg, Theme::catppuccin_latte().status_bg);
    assert_eq!(Palette::Nord.theme(ThemeMode::Light, false).status_bg, Theme::nord().status_bg);
}

#[test]
fn preset_names_read_like_config_values() {
    assert_eq!(Palette::Catppuccin.preset_name(ThemeMode::Dark, false), "catppuccin-mocha");
    assert_eq!(Palette::Catppuccin.preset_name(ThemeMode::Light, false), "catppuccin-latte");
    assert_eq!(Palette::Flexoki.preset_name(ThemeMode::Dark, false), "flexoki");
    assert_eq!(Palette::Nord.preset_name(ThemeMode::Dark, false), "nord");
    for (p, m) in [
        (Palette::Flexoki, ThemeMode::Dark),
        (Palette::Catppuccin, ThemeMode::Dark),
        (Palette::Catppuccin, ThemeMode::Light),
        (Palette::Gruvbox, ThemeMode::Dark),
        (Palette::Nord, ThemeMode::Dark),
        (Palette::TokyoNight, ThemeMode::Dark),
    ] {
        let name = p.preset_name(m, false);
        assert_eq!(parse_theme(&name), (p, m), "round-trip {name}");
    }
}

#[test]
fn syntect_names_are_valid_builtin_selections() {
    for p in [
        Palette::Flexoki,
        Palette::Catppuccin,
        Palette::Gruvbox,
        Palette::Nord,
        Palette::TokyoNight,
    ] {
        for m in [ThemeMode::Dark, ThemeMode::Light] {
            let name = p.syntect_theme_name(m, false);
            assert!(
                [
                    "base16-ocean.dark",
                    "base16-ocean.light",
                    "base16-mocha.dark",
                    "base16-eighties.dark",
                    "InspiredGitHub"
                ]
                .contains(&name),
                "unexpected syntect pick {name} for {} {m:?}",
                p.name()
            );
        }
    }
}

#[test]
fn dark_and_light_palettes_differ() {
    let d = Theme::dark();
    let l = Theme::light();
    assert_ne!(d.file_header, l.file_header);
    assert_ne!(d.hunk_header, l.hunk_header);
    assert_ne!(d.status_bg, l.status_bg);
    assert_ne!(d.word_add, l.word_add);
    assert_ne!(d.match_inactive_bg, l.match_inactive_bg);
}

fn channel(v: u8) -> f64 {
    let v = f64::from(v) / 255.0;
    if v <= 0.03928 {
        v / 12.92
    } else {
        ((v + 0.055) / 1.055).powf(2.4)
    }
}

fn contrast(a: next_hunk::theme::Rgb, b: next_hunk::theme::Rgb) -> f64 {
    let lum = |c: next_hunk::theme::Rgb| {
        0.2126 * channel(c.r) + 0.7152 * channel(c.g) + 0.0722 * channel(c.b)
    };
    let (la, lb) = (lum(a), lum(b));
    let (hi, lo) = if la > lb { (la, lb) } else { (lb, la) };
    (hi + 0.05) / (lo + 0.05)
}

#[test]
fn on_accent_reads_over_every_accent_fill() {
    for (name, t) in [
        ("flexoki-dark", Theme::dark()),
        ("flexoki-light", Theme::light()),
        ("catppuccin-mocha", Theme::catppuccin_mocha()),
        ("catppuccin-latte", Theme::catppuccin_latte()),
        ("gruvbox-dark", Theme::gruvbox_dark()),
        ("nord", Theme::nord()),
        ("tokyonight", Theme::tokyonight()),
    ] {
        for (slot, bg) in [("add", t.add), ("delete", t.delete), ("hunk_header", t.hunk_header)] {
            let ratio = contrast(t.on_accent, bg);
            assert!(ratio >= 3.0, "{name}: on_accent over {slot} = {ratio:.2}");
        }
        let gold = contrast(t.match_active_fg, t.match_active_bg);
        assert!(gold >= 3.0, "{name}: match fg over gold = {gold:.2}");
    }
}

#[test]
fn mode_cycle_order() {
    assert_eq!(ThemeMode::Dark.cycle(), ThemeMode::Light);
    assert_eq!(ThemeMode::Light.cycle(), ThemeMode::Auto);
    assert_eq!(ThemeMode::Auto.cycle(), ThemeMode::Dark);
}

#[test]
fn mode_names() {
    assert_eq!(ThemeMode::Dark.name(), "dark");
    assert_eq!(ThemeMode::Light.name(), "light");
    assert_eq!(ThemeMode::Auto.name(), "auto");
}

#[test]
fn parse_known_and_unknown() {
    assert_eq!(ThemeMode::parse("dark"), ThemeMode::Dark);
    assert_eq!(ThemeMode::parse("Light"), ThemeMode::Light);
    assert_eq!(ThemeMode::parse("AUTO"), ThemeMode::Auto);
    assert_eq!(ThemeMode::parse("nonsense"), ThemeMode::Dark);
    assert_eq!(ThemeMode::parse(""), ThemeMode::Dark);
    assert_eq!(ThemeMode::parse("  auto "), ThemeMode::Auto);
}

#[test]
fn to_theme_resolves_each_mode() {
    assert_eq!(ThemeMode::Dark.to_theme(false).add, Theme::dark().add);
    assert_eq!(ThemeMode::Light.to_theme(false).add, Theme::light().add);
    assert_eq!(ThemeMode::Auto.to_theme(true).add, Theme::light().add);
    assert_eq!(ThemeMode::Auto.to_theme(false).add, Theme::dark().add);
}

#[test]
fn background_is_light_when_bg_index_high() {
    assert!(background_is_light(Some("0;15")));
    assert!(background_is_light(Some("15;7")));
}

#[test]
fn background_is_dark_when_bg_index_low() {
    assert!(!background_is_light(Some("7;0")));
    assert!(!background_is_light(Some("0;6")));
}

#[test]
fn background_is_dark_when_unset() {
    assert!(!background_is_light(None));
}

#[test]
fn background_is_dark_when_malformed() {
    assert!(!background_is_light(Some("not a number")));
    assert!(!background_is_light(Some("0;abc")));
    assert!(background_is_light(Some("0;7;default")));
}

#[test]
fn resolve_auto_follows_env() {
    assert_eq!(resolve_auto(background_is_light(Some("0;15"))).add, Theme::light().add);
    assert_eq!(resolve_auto(background_is_light(Some("0;0"))).add, Theme::dark().add);
    assert_eq!(resolve_auto(background_is_light(None)).add, Theme::dark().add);
}

#[test]
fn syntect_theme_name_dark() {
    assert_eq!(ThemeMode::Dark.syntect_theme_name(false), "base16-ocean.dark");
}

#[test]
fn syntect_theme_name_light() {
    assert_eq!(ThemeMode::Light.syntect_theme_name(false), "base16-ocean.light");
}

#[test]
fn syntect_theme_name_auto_follows_bg() {
    assert_eq!(
        ThemeMode::Auto.syntect_theme_name(background_is_light(Some("0;15"))),
        "base16-ocean.light"
    );
    assert_eq!(
        ThemeMode::Auto.syntect_theme_name(background_is_light(Some("0;0"))),
        "base16-ocean.dark"
    );
}

#[test]
fn auto_mode_follows_the_background_for_presets() {
    assert_eq!(Palette::Catppuccin.preset_name(ThemeMode::Auto, true), "catppuccin-latte");
    assert_eq!(Palette::Catppuccin.preset_name(ThemeMode::Auto, false), "catppuccin-mocha");
    assert_eq!(Palette::Flexoki.preset_name(ThemeMode::Light, false), "flexoki-light");
}

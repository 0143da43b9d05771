use next_hunk::keymap::{
    all_actions, Action, KeyCode, KeyPress, KeySpec, Keymap, OverrideValue,
};

fn key(code: KeyCode) -> KeyPress {
    KeyPress { code, ctrl: false }
}

fn ctrl(c: char) -> KeyPress {
    KeyPress { code: KeyCode::Char(c), ctrl: true }
}

fn table(entries: &[(&str, OverrideValue)]) -> Vec<(String, OverrideValue)> {
    entries.iter().map(|(k, v)| (k.to_string(), v.clone())).collect()
}

fn s(v: &str) -> OverrideValue {
    OverrideValue::Str(v.to_string())
}

#[test]
fn defaults_match_the_builtin_keys() {
    let km = Keymap::default_map();
    assert_eq!(km.lookup(&key(KeyCode::Char('j'))), Some(Action::CursorDown));
    assert_eq!(km.lookup(&key(KeyCode::Down)), Some(Action::CursorDown));
    assert_eq!(km.lookup(&key(KeyCode::Char('q'))), Some(Action::Quit));
    assert_eq!(km.lookup(&key(KeyCode::Esc)), Some(Action::Cancel));
    assert_eq!(km.lookup(&key(KeyCode::Tab)), Some(Action::NextFile));
    assert_eq!(km.lookup(&key(KeyCode::Char(' '))), Some(Action::NextHunk));
    assert_eq!(km.lookup(&ctrl('d')), Some(Action::HalfPageDown));
    assert_eq!(km.lookup(&ctrl('f')), Some(Action::PageForward));
    assert_eq!(km.lookup(&key(KeyCode::Char('?'))), Some(Action::Help));
    assert_eq!(km.lookup(&key(KeyCode::Char(']'))), None);
    assert!(km.arms_prefix(']'));
    assert!(km.arms_prefix('z'));
    assert!(!km.arms_prefix('x'));
    assert_eq!(km.lookup_sequence(']', &key(KeyCode::Char('h'))), Some(Action::NextHunk));
    assert_eq!(km.lookup_sequence('z', &key(KeyCode::Char('c'))), Some(Action::FoldFile));
    assert_eq!(
        km.lookup_sequence('z', &key(KeyCode::Char('x'))),
        Some(Action::ToggleContextCollapse)
    );
    assert_eq!(km.lookup_sequence('z', &key(KeyCode::Char('w'))), Some(Action::ToggleWrap));
}

#[test]
fn half_page_defaults_cover_the_three_builtin_keys() {
    let km = Keymap::default_map();
    assert_eq!(km.lookup(&key(KeyCode::Char('J'))), Some(Action::HalfPageDown));
    assert_eq!(km.lookup(&key(KeyCode::PageDown)), Some(Action::HalfPageDown));
    assert_eq!(km.lookup(&ctrl('d')), Some(Action::HalfPageDown));
    assert_eq!(km.lookup(&key(KeyCode::Char('K'))), Some(Action::HalfPageUp));
    assert_eq!(km.lookup(&key(KeyCode::PageUp)), Some(Action::HalfPageUp));
    assert_eq!(km.lookup(&ctrl('u')), Some(Action::HalfPageUp));
}

#[test]
fn spec_parse_round_trip() {
    assert_eq!(
        KeySpec::parse("q"),
        Some(KeySpec { prefix: None, ctrl: false, code: KeyCode::Char('q') })
    );
    assert_eq!(
        KeySpec::parse("ctrl-d"),
        Some(KeySpec { prefix: None, ctrl: true, code: KeyCode::Char('d') })
    );
    assert_eq!(
        KeySpec::parse("]h"),
        Some(KeySpec { prefix: Some(']'), ctrl: false, code: KeyCode::Char('h') })
    );
    assert_eq!(
        KeySpec::parse("pageup"),
        Some(KeySpec { prefix: None, ctrl: false, code: KeyCode::PageUp })
    );
    assert_eq!(KeySpec::parse(""), None);
    assert_eq!(KeySpec::parse("nope"), None);
    assert_eq!(KeySpec::parse("ctrl-xy"), None);
}

#[test]
fn overrides_remap_and_unbind() {
    let cfg = table(&[("quit", s("Q")), ("help", OverrideValue::Bool(false))]);
    let (km, warns) = Keymap::with_overrides(&cfg);
    assert!(warns.is_empty(), "{warns:?}");
    assert_eq!(km.lookup(&key(KeyCode::Char('Q'))), Some(Action::Quit));
    assert_eq!(km.lookup(&key(KeyCode::Char('q'))), None);
    assert_eq!(km.lookup(&key(KeyCode::Char('?'))), None, "help unbound");
    assert!(km.keys_for(Action::Help).is_empty());
}

#[test]
fn override_replaces_not_merges() {
    let cfg = table(&[("next_file", s("N"))]);
    let (km, _) = Keymap::with_overrides(&cfg);
    assert_eq!(km.lookup(&key(KeyCode::Char('N'))), Some(Action::NextFile));
    assert_eq!(km.lookup(&key(KeyCode::Tab)), None);
    assert_eq!(km.lookup(&key(KeyCode::Char('l'))), None);
}

#[test]
fn conflicting_overrides_warn_and_first_in_order_wins() {
    let cfg = table(&[
        ("quit", OverrideValue::Array(vec![Some("q".to_string())])),
        ("help", s("q")),
    ]);
    let (km, warns) = Keymap::with_overrides(&cfg);
    assert_eq!(warns.len(), 1, "{warns:?}");
    assert_eq!(km.lookup(&key(KeyCode::Char('q'))), Some(Action::Help));
}

#[test]
fn override_steals_a_default_key_with_warning() {
    let cfg = table(&[("help", s("j"))]);
    let (km, warns) = Keymap::with_overrides(&cfg);
    assert!(warns.iter().any(|w| w.contains("takes `j` from `cursor_down`")), "{warns:?}");
    assert_eq!(km.lookup(&key(KeyCode::Char('j'))), Some(Action::Help));
    assert_eq!(km.lookup(&key(KeyCode::Down)), Some(Action::CursorDown));
}

#[test]
fn unknown_action_and_bad_spec_warn() {
    let cfg = table(&[("teleport", s("x")), ("search", s("nope"))]);
    let (_km, warns) = Keymap::with_overrides(&cfg);
    assert!(warns.iter().any(|w| w.contains("teleport")), "{warns:?}");
    assert!(warns.iter().any(|w| w.contains("search")), "{warns:?}");
}

#[test]
fn remap_sequence_works() {
    let cfg = table(&[("next_hunk", s("]j"))]);
    let (km, _) = Keymap::with_overrides(&cfg);
    assert_eq!(km.lookup_sequence(']', &key(KeyCode::Char('j'))), Some(Action::NextHunk));
    assert_eq!(km.lookup_sequence(']', &key(KeyCode::Char('h'))), None);
    assert_eq!(km.lookup(&key(KeyCode::Char(' '))), None);
}

#[test]
fn keys_for_lists_custom_keys_after_defaults() {
    let cfg = table(&[(
        "cursor_down",
        OverrideValue::Array(vec![Some("j".to_string()), Some("ctrl-n".to_string())]),
    )]);
    let (km, _) = Keymap::with_overrides(&cfg);
    let keys = km.keys_for(Action::CursorDown);
    assert_eq!(keys, vec!["j".to_string(), "ctrl-n".to_string()]);
}

#[test]
fn warnings_name_each_problem_exactly() {
    let cfg = table(&[
        ("quit", OverrideValue::Other("Integer(5)".to_string())),
        ("search", OverrideValue::Array(vec![None, Some("nope".to_string())])),
        ("teleport", s("x")),
    ]);
    let (km, warns) = Keymap::with_overrides(&cfg);
    assert_eq!(
        warns,
        vec![
            "keybindings.search: cannot parse key `nope` — ignored".to_string(),
            "keybindings.search: no valid keys — keeping defaults".to_string(),
            "keybindings.quit: expected key list or false, got Integer(5) — ignored".to_string(),
            "keybindings.teleport: unknown action — ignored".to_string(),
        ]
    );
    // a bad config never bricks the defaults
    assert_eq!(km.lookup(&key(KeyCode::Char('q'))), Some(Action::Quit));
    assert_eq!(km.lookup(&key(KeyCode::Char('/'))), Some(Action::Search));
}

#[test]
fn true_keeps_the_default_keys() {
    let cfg = table(&[("quit", OverrideValue::Bool(true))]);
    let (km, warns) = Keymap::with_overrides(&cfg);
    assert!(warns.is_empty(), "{warns:?}");
    assert_eq!(km.lookup(&key(KeyCode::Char('q'))), Some(Action::Quit));
}

#[test]
fn keys_for_sorts_extra_keys_after_defaults() {
    let cfg = table(&[(
        "search",
        OverrideValue::Array(vec![Some("s".to_string()), Some("/".to_string()), Some("F3".to_string())]),
    )]);
    let (km, _) = Keymap::with_overrides(&cfg);
    assert_eq!(km.keys_for(Action::Search), vec!["/", "f3", "s"]);
    assert_eq!(Keymap::default_map().keys_for(Action::CursorDown), vec!["j", "down"]);
}

#[test]
fn display_renders_specs_for_humans() {
    assert_eq!(KeySpec::parse("space").unwrap().display(), "SPC");
    assert_eq!(KeySpec::parse("ctrl-d").unwrap().display(), "ctrl-d");
    assert_eq!(KeySpec::parse("]h").unwrap().display(), "]h");
    assert_eq!(KeySpec::parse("PgDn").unwrap().display(), "pagedown");
    assert_eq!(KeySpec::parse("f12").unwrap().display(), "f12");
}

#[test]
fn actions_have_stable_names_and_descriptions() {
    let all = all_actions();
    assert_eq!(all.len(), 38);
    assert_eq!(all[0], Action::CursorDown);
    assert_eq!(Action::ToggleIgnoreWhitespace.name(), "toggle_ignore_whitespace");
    assert_eq!(Action::Quit.describe(), "quit (clears an active search first)");
    assert_eq!(Action::NextFile.default_specs(), vec!["tab", "l", "right"]);
}

#[test]
fn action_names_are_distinct_snake_case_keys() {
    let all = all_actions();
    for (i, a) in all.iter().enumerate() {
        let n = a.name();
        assert!(!n.is_empty());
        assert!(n.chars().all(|c| c.is_ascii_lowercase() || c == '_'), "{n}");
        for b in &all[i + 1..] {
            assert_ne!(n, b.name());
        }
    }
    assert_eq!(Action::Quit.name(), "quit");
    assert_eq!(Action::CursorDown.name(), "cursor_down");
    assert_eq!(Action::NextHunk.name(), "next_hunk");
}

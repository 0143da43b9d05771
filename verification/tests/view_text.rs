use next_hunk::keymap::{Action, Keymap, OverrideValue};
use next_hunk::theme::Theme;
use next_hunk::view::{
    expand_tabs, file_stats_tail, help_overlay_lines, help_rows, map_raw_range,
    overlay_runs_with_range, short_path, status_path, toggle_state, tone_overlay,
    truncate_tail_width, truncate_to_width, ChangeKind, HelpRow, HelpStyle, ToggleFlags,
};
use unicode_width::UnicodeWidthStr;

#[test]
fn file_stats_tail_both_sides() {
    let (plus, minus) = file_stats_tail(12, 3);
    assert_eq!(plus, "+12");
    assert_eq!(minus, "−3");
}

#[test]
fn file_stats_tail_add_only() {
    let (plus, minus) = file_stats_tail(5, 0);
    assert_eq!(plus, "+5");
    assert_eq!(minus, "");
}

#[test]
fn file_stats_tail_delete_only() {
    let (plus, minus) = file_stats_tail(0, 7);
    assert_eq!(plus, "");
    assert_eq!(minus, "−7");
}

#[test]
fn file_stats_tail_no_changes() {
    let (plus, minus) = file_stats_tail(0, 0);
    assert_eq!(plus, "");
    assert_eq!(minus, "");
}

#[test]
fn status_path_short_path_unchanged() {
    assert_eq!(status_path("a.rs", 20), "a.rs");
    assert_eq!(status_path("src/mod.rs", 20), "src/mod.rs");
}

#[test]
fn status_path_keeps_basename_when_too_long() {
    let p = "very/deeply/nested/module/path/file.rs";
    assert_eq!(status_path(p, 16), "…/file.rs");
}

#[test]
fn status_path_basename_too_long_keeps_tail() {
    let p = "src/some/really/long/basename_that_exceeds.rs";
    assert_eq!(status_path(p, 10), "…xceeds.rs");
}

#[test]
fn status_path_no_separator_uses_tail() {
    assert_eq!(status_path("abcdefghij", 5), "…ghij");
}

#[test]
fn status_path_zero_budget_returns_unchanged() {
    assert_eq!(status_path("a.rs", 0), "a.rs");
}

#[test]
fn truncate_to_width_unchanged_when_fits() {
    assert_eq!(truncate_to_width("abc", 10), "abc");
    assert_eq!(truncate_to_width("abc", 3), "abc");
}

#[test]
fn truncate_to_width_appends_ellipsis_on_overflow() {
    assert_eq!(truncate_to_width("abcdef", 4), "abc…");
    assert_eq!(truncate_to_width("abcdefg", 3), "ab…");
}

#[test]
fn truncate_to_width_zero_width_returns_empty() {
    assert_eq!(truncate_to_width("abc", 0), "");
}

#[test]
fn truncate_to_width_measures_display_columns_not_chars() {
    let out = truncate_to_width("你好世界", 6);
    assert_eq!(out, "你好…");
    assert!(out.width() <= 6, "truncated text must fit its budget");
    assert_eq!(truncate_to_width("你好", 4), "你好");
    let out = truncate_to_width("e\u{301}xample", 3);
    assert!(out.width() <= 3);
}

#[test]
fn short_path_prefers_basename_and_stays_in_budget() {
    assert_eq!(short_path("a/b/c/some_file.rs", 16), "…/some_file.rs");
    let out = short_path("a/b/c/功能测试功能测试功能测试.rs", 10);
    assert!(out.width() <= 10, "{out:?}");
    assert!(out.starts_with('…'), "{out:?}");
}

#[test]
fn short_path_is_char_boundary_safe_on_non_ascii() {
    let p = "功能测试文件名非常长的中文文件名";
    let out = short_path(p, 24);
    assert!(out.width() <= 24, "{out:?}");
    assert!(out.starts_with('…'), "{out:?}");
}

#[test]
fn status_path_is_width_aware_for_cjk() {
    let p = "功能测试文件名超长超长超长.rs";
    let out = status_path(p, 16);
    assert!(out.width() <= 16, "{out:?}");
}

#[test]
fn short_path_tail_truncates_the_basename_only() {
    // the basename alone is kept, not the whole path
    assert_eq!(short_path("dir/abcdefghijkl", 6), "…hijkl");
    assert_eq!(short_path("abcdefghij", 5), "…ghij");
    assert_eq!(short_path("a.rs", 0), "a.rs");
}

#[test]
fn truncate_tail_width_keeps_the_trailing_columns() {
    assert_eq!(truncate_tail_width("abcdef", 4), "…def");
    assert_eq!(truncate_tail_width("abcdef", 1), "…");
    assert_eq!(truncate_tail_width("abcdef", 0), "…");
    assert_eq!(truncate_tail_width("ab你好", 4), "…好");
}

#[test]
fn tabs_expand_to_configured_width() {
    assert_eq!(expand_tabs("\tx", 4), "    x");
    assert_eq!(expand_tabs("ab\tc", 4), "ab  c");
    assert_eq!(expand_tabs("abcd\te", 4), "abcd    e");
    assert_eq!(expand_tabs("no tabs", 4), "no tabs");
    assert_eq!(expand_tabs("\t", 0), "\t");
}

#[test]
fn raw_ranges_map_onto_expanded_columns() {
    // a mark on the raw tab (chars 1..2) covers the 4 expanded columns
    assert_eq!(map_raw_range("\tnew", 4, 1, 2), (1, 5));
    assert_eq!(map_raw_range("\tnew", 4, 2, 5), (5, 8));
    // ends past the line clamp to its end
    assert_eq!(map_raw_range("\tab", 4, 1, 99), (1, 7));
    // no tab: unchanged
    assert_eq!(map_raw_range("abc", 4, 2, 3), (2, 3));
}

#[test]
fn change_kind_classifies_from_paths() {
    assert_eq!(ChangeKind::from_file(None, Some("a.rs")), ChangeKind::Added);
    assert_eq!(ChangeKind::from_file(Some("/dev/null"), Some("a.rs")), ChangeKind::Added);
    assert_eq!(ChangeKind::from_file(Some("a.rs"), Some("/dev/null")), ChangeKind::Deleted);
    assert_eq!(ChangeKind::from_file(Some("a.rs"), Some("b.rs")), ChangeKind::Renamed);
    assert_eq!(ChangeKind::from_file(Some("a.rs"), Some("a.rs")), ChangeKind::Modified);
    assert_eq!(ChangeKind::from_file(None, None), ChangeKind::Modified);
    assert_eq!(ChangeKind::Added.letter(), 'A');
    assert_eq!(ChangeKind::Modified.letter(), 'M');
    assert_eq!(ChangeKind::Deleted.letter(), 'D');
    assert_eq!(ChangeKind::Renamed.letter(), 'R');
}

fn mask(pieces: &[((), bool, String)]) -> String {
    let mut out = String::new();
    for (_, marked, text) in pieces {
        for _ in text.chars() {
            out.push(if *marked { '#' } else { '.' });
        }
    }
    out
}

#[test]
fn overlay_marks_exact_char_range() {
    let runs = vec![((), "let x = 1;".to_string())];
    let out = overlay_runs_with_range(&runs, 5, 10);
    assert_eq!(mask(&out), "....#####.");
    let text: String = out.iter().map(|(_, _, t)| t.clone()).collect();
    assert_eq!(text, "let x = 1;");
}

#[test]
fn overlay_splits_across_syntax_runs() {
    let runs = vec![(1u8, "abc".to_string()), (2u8, "def".to_string())];
    let out = overlay_runs_with_range(&runs, 2, 5);
    let m: String = out
        .iter()
        .flat_map(|(_, marked, t)| t.chars().map(move |_| if *marked { '#' } else { '.' }))
        .collect();
    assert_eq!(m, ".###..");
    assert_eq!(out[0].0, 1);
    assert_eq!(out[out.len() - 1].0, 2);
}

#[test]
fn overlay_out_of_range_and_empty_marks_are_noops() {
    let runs = vec![((), "abc".to_string())];
    assert_eq!(mask(&overlay_runs_with_range(&runs, 9, 12)), "...");
    assert_eq!(mask(&overlay_runs_with_range(&runs, 2, 2)), "...");
}

#[test]
fn tone_overlay_maps_tones_to_theme_slots() {
    let t = Theme::dark();
    assert_eq!(tone_overlay(&t, "danger"), (t.delete, t.on_accent));
    assert_eq!(tone_overlay(&t, "info"), (t.hunk_header, t.on_accent));
    assert_eq!(tone_overlay(&t, "accent"), (t.add, t.on_accent));
    assert_eq!(tone_overlay(&t, "warning"), (t.match_active_bg, t.match_active_fg));
    assert_eq!(tone_overlay(&t, "??"), (t.match_active_bg, t.match_active_fg));
}

fn flags() -> ToggleFlags {
    ToggleFlags {
        highlight_on: true,
        line_numbers_on: false,
        word_diff_on: true,
        ignore_ws: false,
        wrap_on: false,
        collapse_on: true,
        show_rail: true,
    }
}

#[test]
fn toggle_state_reports_live_flags() {
    let f = flags();
    assert_eq!(toggle_state(&f, Action::ToggleHighlight), Some("on"));
    assert_eq!(toggle_state(&f, Action::ToggleLineNumbers), Some("off"));
    assert_eq!(toggle_state(&f, Action::ToggleRail), Some("on"));
    assert_eq!(toggle_state(&f, Action::CycleLayout), None);
}

#[test]
fn help_rows_reflect_the_live_keymap() {
    let km = Keymap::default_map();
    let rows = help_rows(
        &km,
        &flags(),
        &[
            HelpRow::Action(Action::ToggleHighlight),
            HelpRow::Pair(Action::CursorDown, Action::CursorUp, "cursor down / up one row"),
            HelpRow::Static("1-9", "jump to the Nth file"),
        ],
    );
    assert_eq!(
        rows,
        vec![
            ("H".to_string(), "toggle syntax highlighting (on)".to_string()),
            ("j / down / k / up".to_string(), "cursor down / up one row".to_string()),
            ("1-9".to_string(), "jump to the Nth file".to_string()),
        ]
    );
    let cfg = vec![("help".to_string(), OverrideValue::Bool(false))];
    let (km, _) = Keymap::with_overrides(&cfg);
    assert!(help_rows(&km, &flags(), &[HelpRow::Action(Action::Help)]).is_empty());
}

#[test]
fn help_overlay_lays_out_sections() {
    let km = Keymap::default_map();
    let lines = help_overlay_lines(&km, &flags());
    assert_eq!(lines[0], vec![(HelpStyle::Head, " Navigation".to_string())]);
    assert_eq!(
        lines[1],
        vec![
            (HelpStyle::Key, format!("  {:<24} ", "j / down / k / up")),
            (HelpStyle::Dim, "cursor down / up one row".to_string()),
        ]
    );
    let last = lines.last().unwrap();
    assert_eq!(
        last,
        &vec![(
            HelpStyle::Hint,
            " j/k scroll · ? / Esc / q / Enter / Space  dismiss this help".to_string()
        )]
    );
    assert!(lines[lines.len() - 2].is_empty());
}

#[test]
fn help_overlay_puts_long_key_lists_on_their_own_row() {
    let cfg = vec![(
        "quit".to_string(),
        OverrideValue::Array(
            ["a1", "b2", "c3", "d4", "e5", "f6", "g7", "h8", "i9"]
                .iter()
                .map(|s| Some(s.to_string()))
                .collect(),
        ),
    )];
    let (km, _) = Keymap::with_overrides(&cfg);
    let lines = help_overlay_lines(&km, &flags());
    let keys = "a1 / b2 / c3 / d4 / e5 / f6 / g7 / h8 / i9";
    let i = lines
        .iter()
        .position(|l| l == &vec![(HelpStyle::Key, format!("  {keys}"))])
        .expect("long key list on its own row");
    assert_eq!(
        lines[i + 1],
        vec![
            (HelpStyle::Plain, " ".repeat(27)),
            (HelpStyle::Dim, "quit (clears an active search first)".to_string()),
        ]
    );
}

use next_hunk::app::{InputMode, Search, Viewport};
use next_hunk::keymap::{Keymap, OverrideValue};
use next_hunk::view::{
    help_or_prompt, hint_line_text, rail_row, rail_title, refine_with_word_regions, ChangeKind,
};

fn search(query: &str, matches: Vec<usize>, current: usize) -> Search {
    Search { query: query.to_string(), matches, current, active: true }
}

#[test]
fn hint_line_uses_live_first_keys() {
    let km = Keymap::default_map();
    let line = hint_line_text(&km, true);
    assert_eq!(
        line,
        " a accept · r reject · u undecided · ]h/[h hunk · j/k cursor · c note · / search · ? help · q quit "
    );
    let cfg = vec![("quit".to_string(), OverrideValue::Bool(false))];
    let (km, _) = Keymap::with_overrides(&cfg);
    let line = hint_line_text(&km, true);
    assert!(line.ends_with("· ? help · quit quit "), "{line}");
}

#[test]
fn hint_line_normal_mode_starts_with_navigation() {
    let km = Keymap::default_map();
    let line = hint_line_text(&km, false);
    assert!(line.starts_with(" j/k cursor · J/K half-page · g/G top/bottom · ]h/[h hunk · }/{ note · c note here · zc/zo fold · zx ctx · tab file · b rail · / search · f filter · o open · H hl · # lines · w word · W ws · zw wrap · t theme · ? help · q quit "), "{line}");
}

#[test]
fn prompt_shows_caret_and_live_match_feedback() {
    let km = Keymap::default_map();
    let s = search("foo", vec![3, 9], 1);
    let line = help_or_prompt(InputMode::Search, &s, "", "", 2, &km, false, 200);
    assert_eq!(line, "/fo▌o  (Enter confirm · Esc cancel · Ctrl-U/W edit · match 2/2)");
    let s = search("zz", vec![], 0);
    let line = help_or_prompt(InputMode::Search, &s, "", "", 99, &km, false, 200);
    assert_eq!(line, "/zz▌  (Enter confirm · Esc cancel · Ctrl-U/W edit · no match)");
    let s = search("  ", vec![], 0);
    let line = help_or_prompt(InputMode::Search, &s, "", "", 0, &km, false, 200);
    assert_eq!(line, "/▌    (Enter confirm · Esc cancel · Ctrl-U/W edit)");
}

#[test]
fn prompt_for_filter_and_note() {
    let km = Keymap::default_map();
    let s = Search::default();
    assert_eq!(
        help_or_prompt(InputMode::Filter, &s, "src", "", 3, &km, false, 200),
        "filter: src▌  (path substring · Enter confirm · Esc cancel · Ctrl-U/W edit)"
    );
    assert_eq!(
        help_or_prompt(InputMode::Note, &s, "", "héllo", 1, &km, false, 200),
        "note: h▌éllo  (anchored to the cursor row · Enter save · Esc cancel · Ctrl-U/W edit)"
    );
}

#[test]
fn help_line_truncates_with_ellipsis_on_narrow_terminal() {
    let km = Keymap::default_map();
    let s = Search::default();
    let line = help_or_prompt(InputMode::Normal, &s, "", "", 0, &km, false, 20);
    assert_eq!(line.chars().count(), 20);
    assert!(line.ends_with('…'));
    assert_eq!(line, " j/k cursor · J/K h…");
}

#[test]
fn refine_flags_changed_regions_across_runs() {
    let runs = vec![(1u8, "let x".to_string()), (2u8, " = 1;".to_string())];
    let regions = vec![
        (false, "let ".to_string()),
        (true, "x = 1".to_string()),
        (false, ";".to_string()),
    ];
    let out = refine_with_word_regions(&runs, &regions);
    assert_eq!(
        out,
        vec![
            (1, false, "let ".to_string()),
            (1, true, "x".to_string()),
            (2, true, " = 1".to_string()),
            (2, false, ";".to_string()),
        ]
    );
}

#[test]
fn refine_falls_back_when_regions_fall_short() {
    let runs = vec![(7u8, "abcdef".to_string())];
    let regions = vec![(true, "abc".to_string())];
    let out = refine_with_word_regions(&runs, &regions);
    assert_eq!(out, vec![(7, false, "abcdef".to_string())]);
}

fn vp(scroll_y: usize, cursor_v: usize, viewport_height: usize, virtual_len: usize) -> Viewport {
    Viewport { scroll_y, cursor_v, viewport_height, virtual_len }
}

#[test]
fn viewport_scroll_clamps_and_drags_the_cursor() {
    let mut v = vp(0, 0, 10, 100);
    assert_eq!(v.max_scroll(), 90);
    v.scroll_by(5);
    assert_eq!((v.scroll_y, v.cursor_v), (5, 5));
    v.scroll_by(1000);
    assert_eq!((v.scroll_y, v.cursor_v), (90, 90));
    v.scroll_by(-3);
    assert_eq!((v.scroll_y, v.cursor_v), (87, 90));
    v.scroll_by(-1000);
    assert_eq!((v.scroll_y, v.cursor_v), (0, 9));
}

#[test]
fn viewport_set_cursor_scrolls_minimally() {
    let mut v = vp(10, 12, 10, 100);
    v.set_cursor(15);
    assert_eq!((v.scroll_y, v.cursor_v), (10, 15));
    v.set_cursor(25);
    assert_eq!((v.scroll_y, v.cursor_v), (16, 25));
    v.set_cursor(3);
    assert_eq!((v.scroll_y, v.cursor_v), (3, 3));
    v.set_cursor(99);
    assert_eq!((v.scroll_y, v.cursor_v), (90, 99));
}

#[test]
fn viewport_move_cursor_stays_in_the_stream() {
    let mut v = vp(0, 0, 5, 8);
    v.move_cursor(-4);
    assert_eq!(v.cursor_v, 0);
    v.move_cursor(6);
    assert_eq!((v.scroll_y, v.cursor_v), (2, 6));
    v.move_cursor(100);
    assert_eq!((v.scroll_y, v.cursor_v), (3, 7));
}

#[test]
fn rail_row_right_aligns_the_tally() {
    let r = rail_row(0, ChangeKind::Modified, 12, 3, 0, "src/main.rs", 30, false);
    assert_eq!(r.head, " 1. ");
    assert_eq!(r.chip, "M ");
    assert_eq!(r.chevron, "▾ ");
    assert_eq!(r.path, "src/main.rs");
    assert_eq!(r.plus, "+12");
    assert_eq!(r.minus, "−3");
    assert_eq!(r.badge, "");
    assert_eq!(r.pad, Some(3));
}

#[test]
fn rail_row_cuts_the_path_to_what_the_tally_and_badge_leave() {
    let r = rail_row(7, ChangeKind::Added, 5, 0, 2, "crates/very/long/path/to/file_name.rs", 24, true);
    assert_eq!(r.head, " 8. ");
    assert_eq!(r.chip, "A ");
    assert_eq!(r.chevron, "▸ ");
    assert_eq!(r.path, "…name.rs");
    assert_eq!(r.plus, "+5");
    assert_eq!(r.minus, "");
    assert_eq!(r.badge, "💬2");
    assert_eq!(r.pad, Some(0));
}

#[test]
fn rail_row_without_tally_has_no_padding_and_a_wide_budget() {
    let r = rail_row(2, ChangeKind::Renamed, 0, 0, 0, "a/b/c/d/e/f/g/h/i/j/k/l/m/n/o.rs", 80, false);
    assert_eq!(r.pad, None);
    assert_eq!(r.path, "…/o.rs");
}

#[test]
fn rail_title_counts_only_under_a_filter() {
    assert_eq!(rail_title("", 3, 9), "Files");
    assert_eq!(rail_title("   ", 3, 9), "Files");
    assert_eq!(rail_title("src", 3, 9), "Files (3/9)");
}

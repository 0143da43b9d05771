use next_hunk::app::{Decision, HunkId, InputMode, Search, ToastKind, Viewport};
use next_hunk::keys::{NormalCommand, Step};
use next_hunk::normal::{apply_normal_command, LayoutMode, NormalAction, ReviewState};
use next_hunk::session::selections;
use next_hunk::theme::{Palette, ThemeMode};

/// A review whose rows are laid out as the given files' headers and hunk
/// headers say: `files` are (path, header row), `hunks` are (row, id).
fn state(rows: usize, height: usize, files: &[(&str, usize)], hunks: &[(usize, usize, usize)]) -> ReviewState {
    let mut row_files = vec![None; rows];
    for (i, (_, start)) in files.iter().enumerate() {
        for r in *start..rows {
            row_files[r] = Some(i);
        }
    }
    ReviewState {
        viewport: Viewport { scroll_y: 0, cursor_v: 0, viewport_height: height, virtual_len: rows },
        row_files,
        file_starts: files.iter().map(|(_, s)| *s).collect(),
        paths: files.iter().map(|(p, _)| p.to_string()).collect(),
        hunk_rows: hunks.iter().map(|(r, f, h)| (*r, HunkId { file_idx: *f, hunk_idx: *h })).collect(),
        note_rows: Vec::new(),
        last_hunk_jump: None,
        last_note_jump: None,
        folded: Vec::new(),
        collapse_on: true,
        selected_file: 0,
        search: Search { query: String::new(), matches: Vec::new(), current: 0, active: false },
        path_filter: String::new(),
        highlight_on: true,
        line_numbers_on: true,
        word_diff_on: true,
        ignore_ws: false,
        show_rail: true,
        layout: LayoutMode::Unified,
        theme_mode: ThemeMode::default(),
        palette: Palette::Flexoki,
        background_light: false,
        decisions: Vec::new(),
        select_mode: false,
        show_help: false,
        should_quit: false,
        mode: InputMode::Normal,
        status: None,
    }
}

fn two_file_app() -> ReviewState {
    state(8, 4, &[("a.rs", 0), ("b.rs", 4)], &[(1, 0, 0), (5, 1, 0)])
}

fn three_file_app() -> ReviewState {
    state(12, 6, &[("a.rs", 0), ("b.rs", 4), ("c/c.rs", 8)], &[(1, 0, 0), (5, 1, 0), (9, 2, 0)])
}

fn multi_hunk_app() -> ReviewState {
    state(16, 1, &[("a.rs", 0), ("b.rs", 9)], &[(1, 0, 0), (5, 0, 1), (10, 1, 0), (13, 1, 1)])
}

fn status(s: &ReviewState) -> (ToastKind, String) {
    s.status.clone().unwrap()
}

fn files_of(s: &ReviewState) -> Vec<(String, usize)> {
    vec![("a.rs".to_string(), 2), ("b.rs".to_string(), 2)]
        .into_iter()
        .take(s.paths.len())
        .collect()
}

#[test]
fn quit_on_q() {
    let mut app = two_file_app();
    apply_normal_command(&mut app, NormalCommand::QuitOrClearSearch);
    assert!(app.should_quit);
}

#[test]
fn quit_on_esc_when_no_search() {
    let mut app = two_file_app();
    apply_normal_command(&mut app, NormalCommand::QuitOrClearSearch);
    assert!(app.should_quit);
}

#[test]
fn esc_clears_active_search() {
    let mut app = two_file_app();
    app.search = Search { query: "value".into(), matches: vec![2, 6], current: 0, active: true };
    apply_normal_command(&mut app, NormalCommand::QuitOrClearSearch);
    assert!(!app.search.active);
    assert!(app.search.query.is_empty() && app.search.matches.is_empty());
    assert!(!app.should_quit, "Esc should clear search, not quit");
    assert_eq!(status(&app), (ToastKind::Success, "search cleared".to_string()));
}

#[test]
fn toggle_highlight_flips_state() {
    let mut app = two_file_app();
    let a = apply_normal_command(&mut app, NormalCommand::ToggleHighlight);
    assert!(!app.highlight_on);
    assert_eq!(a, NormalAction::DropHighlightCache);
    assert_eq!(status(&app), (ToastKind::Info, "highlight off".to_string()));
    let a = apply_normal_command(&mut app, NormalCommand::ToggleHighlight);
    assert!(app.highlight_on);
    assert_eq!(a, NormalAction::Nothing);
    assert_eq!(status(&app), (ToastKind::Success, "highlight on".to_string()));
}

#[test]
fn toggle_line_numbers() {
    let mut app = two_file_app();
    assert!(app.line_numbers_on, "line numbers on by default");
    apply_normal_command(&mut app, NormalCommand::ToggleLineNumbers);
    assert!(!app.line_numbers_on);
    apply_normal_command(&mut app, NormalCommand::ToggleLineNumbers);
    assert!(app.line_numbers_on);
}

#[test]
fn toggle_word_diff() {
    let mut app = two_file_app();
    assert!(app.word_diff_on, "word diff on by default");
    apply_normal_command(&mut app, NormalCommand::ToggleWordDiff);
    assert!(!app.word_diff_on);
    apply_normal_command(&mut app, NormalCommand::ToggleWordDiff);
    assert!(app.word_diff_on);
}

#[test]
fn b_toggles_show_rail() {
    let mut app = two_file_app();
    assert!(app.show_rail, "rail shown by default");
    apply_normal_command(&mut app, NormalCommand::ToggleRail);
    assert!(!app.show_rail);
    assert!(status(&app).1.contains("rail hidden"));
    apply_normal_command(&mut app, NormalCommand::ToggleRail);
    assert!(app.show_rail);
    assert!(status(&app).1.contains("rail shown"));
}

#[test]
fn ignore_ws_toggle_asks_for_new_rows() {
    let mut app = two_file_app();
    let a = apply_normal_command(&mut app, NormalCommand::ToggleIgnoreWs);
    assert!(app.ignore_ws);
    assert_eq!(a, NormalAction::RebuildRows);
    assert!(status(&app).1.contains("ignore-whitespace on"));
    apply_normal_command(&mut app, NormalCommand::ToggleIgnoreWs);
    assert_eq!(status(&app), (ToastKind::Info, "ignore-whitespace off".to_string()));
}

#[test]
fn question_toggles_help_overlay() {
    let mut app = two_file_app();
    assert!(!app.show_help, "help hidden by default");
    apply_normal_command(&mut app, NormalCommand::ToggleHelp);
    assert!(app.show_help);
    apply_normal_command(&mut app, NormalCommand::ToggleHelp);
    assert!(!app.show_help);
}

#[test]
fn layout_cycles_unified_split_stack() {
    let mut app = two_file_app();
    let a = apply_normal_command(&mut app, NormalCommand::CycleLayout);
    assert_eq!(app.layout, LayoutMode::Split);
    assert_eq!(a, NormalAction::RebuildRows);
    assert_eq!(status(&app), (ToastKind::Success, "layout: split".to_string()));
    apply_normal_command(&mut app, NormalCommand::CycleLayout);
    assert_eq!(app.layout, LayoutMode::Stack);
    apply_normal_command(&mut app, NormalCommand::CycleLayout);
    assert_eq!(app.layout, LayoutMode::Unified);
    assert_eq!(status(&app).1, "layout: unified");
    app.layout = LayoutMode::Auto;
    apply_normal_command(&mut app, NormalCommand::CycleLayout);
    assert_eq!(app.layout, LayoutMode::Unified);
}

#[test]
fn shift_t_cycles_the_palette_and_reloads_the_theme() {
    let mut app = two_file_app();
    assert_eq!(app.palette, Palette::Flexoki);
    app.theme_mode = ThemeMode::Dark;
    let a = apply_normal_command(&mut app, NormalCommand::CyclePalette);
    assert_eq!(app.palette, Palette::Catppuccin);
    assert_eq!(a, NormalAction::ApplyTheme);
    assert!(status(&app).1.contains("catppuccin-mocha"), "status should name the preset: {}", status(&app).1);
    assert_eq!(status(&app).1, "theme: catppuccin-mocha (dark)");
    for _ in 0..4 {
        apply_normal_command(&mut app, NormalCommand::CyclePalette);
    }
    assert_eq!(app.palette, Palette::Flexoki);
}

#[test]
fn t_cycles_mode_within_the_current_palette() {
    let mut app = two_file_app();
    app.palette = Palette::Catppuccin;
    app.theme_mode = ThemeMode::Dark;
    apply_normal_command(&mut app, NormalCommand::CycleThemeMode);
    assert_eq!(app.theme_mode, ThemeMode::Light);
    assert!(status(&app).1.contains("catppuccin-latte"));
    assert_eq!(status(&app), (ToastKind::Info, "theme: catppuccin-latte (light)".to_string()));
}

#[test]
fn begin_search_and_filter_open_their_prompts() {
    let mut app = two_file_app();
    app.search.query = "old".into();
    apply_normal_command(&mut app, NormalCommand::BeginSearch);
    assert_eq!(app.mode, InputMode::Search);
    assert!(app.search.query.is_empty());
    assert_eq!(status(&app).1, "search: ");
    app.mode = InputMode::Normal;
    app.path_filter = "src".into();
    apply_normal_command(&mut app, NormalCommand::BeginFilter);
    assert_eq!(app.mode, InputMode::Filter);
    assert!(app.path_filter.is_empty());
    assert_eq!(status(&app).1, "filter: ");
}

#[test]
fn number_key_jumps_to_nth_file() {
    let mut app = three_file_app();
    apply_normal_command(&mut app, NormalCommand::NthFile(3));
    assert_eq!(app.selected_file, 2);
    assert_eq!(app.paths[app.selected_file], "c/c.rs");
    assert_eq!(app.viewport.scroll_y, 6);
    assert_eq!(app.viewport.cursor_v, 8);
    assert_eq!(status(&app), (ToastKind::Info, "→ c/c.rs".to_string()));
}

#[test]
fn number_key_out_of_range_is_noop() {
    let mut app = three_file_app();
    let before = (app.selected_file, app.viewport.scroll_y);
    apply_normal_command(&mut app, NormalCommand::NthFile(9));
    assert_eq!(app.selected_file, before.0);
    assert_eq!(app.viewport.scroll_y, before.1);
    assert!(app.status.is_none());
}

#[test]
fn ctrl_d_scrolls_half_page_down() {
    let mut app = three_file_app();
    apply_normal_command(&mut app, NormalCommand::Move(Step::HalfDown));
    assert_eq!(app.viewport.cursor_v, 3);
    assert_eq!(app.viewport.scroll_y, 0, "cursor stays in view, viewport does not move");
    apply_normal_command(&mut app, NormalCommand::Move(Step::HalfDown));
    assert_eq!(app.viewport.cursor_v, 6);
    assert_eq!(app.viewport.scroll_y, 1, "view follows once the cursor leaves it");
    assert_eq!(app.selected_file, 1, "the cursor row's file is selected");
}

#[test]
fn ctrl_u_scrolls_half_page_up() {
    let mut app = three_file_app();
    app.viewport.cursor_v = 5;
    apply_normal_command(&mut app, NormalCommand::Move(Step::HalfUp));
    assert_eq!(app.viewport.cursor_v, 2);
    assert_eq!(app.viewport.scroll_y, 0, "view follows the cursor up to the top edge");
}

#[test]
fn ctrl_f_scrolls_full_page_down() {
    let mut app = three_file_app();
    app.viewport.viewport_height = 4;
    apply_normal_command(&mut app, NormalCommand::Move(Step::PageDown));
    assert_eq!(app.viewport.cursor_v, 4);
    assert_eq!(app.viewport.scroll_y, 1, "view follows the cursor to the bottom edge");
}

#[test]
fn ctrl_b_scrolls_full_page_up() {
    let mut app = three_file_app();
    app.viewport.viewport_height = 4;
    app.viewport.cursor_v = 9;
    app.viewport.scroll_y = 6;
    apply_normal_command(&mut app, NormalCommand::Move(Step::PageUp));
    assert_eq!(app.viewport.cursor_v, 5);
    assert_eq!(app.viewport.scroll_y, 5, "view follows the cursor up");
}

#[test]
fn ctrl_d_clamps_at_max_scroll() {
    let mut app = three_file_app();
    apply_normal_command(&mut app, NormalCommand::Bottom);
    apply_normal_command(&mut app, NormalCommand::Move(Step::HalfDown));
    assert_eq!(app.viewport.scroll_y, 6);
    assert_eq!(app.viewport.cursor_v, 11, "cursor clamps at the last row");
}

#[test]
fn top_and_bottom() {
    let mut app = three_file_app();
    apply_normal_command(&mut app, NormalCommand::Bottom);
    assert_eq!(app.viewport.scroll_y, 6);
    assert_eq!(app.selected_file, 2);
    apply_normal_command(&mut app, NormalCommand::Top);
    assert_eq!(app.viewport.scroll_y, 0);
    assert_eq!(app.viewport.cursor_v, 0);
    assert_eq!(app.selected_file, 0);
}

#[test]
fn select_accept_marks_current_hunk() {
    let mut app = multi_hunk_app();
    app.select_mode = true;
    app.viewport.scroll_y = 1;
    apply_normal_command(&mut app, NormalCommand::Decide(Decision::Accept));
    assert_eq!(app.decisions, vec![(HunkId { file_idx: 0, hunk_idx: 0 }, Decision::Accept)]);
    // And it advances to the next hunk (a.rs hunk1 @ row 5).
    assert_eq!(app.viewport.scroll_y, 5);
    assert_eq!(status(&app), (ToastKind::Info, "Accept — a.rs".to_string()));
}

#[test]
fn select_reject_then_accept_accumulates() {
    let mut app = multi_hunk_app();
    app.select_mode = true;
    app.viewport.scroll_y = 1;
    apply_normal_command(&mut app, NormalCommand::Decide(Decision::Reject)); // → hunk1 @ 5
    apply_normal_command(&mut app, NormalCommand::Decide(Decision::Accept));
    let s = selections(&files_of(&app), &app.decisions);
    assert_eq!(s.accepted, vec!["a.rs:h2".to_string()]);
    assert_eq!(s.rejected, vec!["a.rs:h1".to_string()]);
}

#[test]
fn select_undecided_resets_prior_decision() {
    let mut app = multi_hunk_app();
    app.select_mode = true;
    app.viewport.scroll_y = 1;
    apply_normal_command(&mut app, NormalCommand::Decide(Decision::Accept));
    app.viewport.scroll_y = 1;
    apply_normal_command(&mut app, NormalCommand::Decide(Decision::Undecided));
    assert_eq!(app.decisions.len(), 1, "the entry is overwritten, not added");
    let s = selections(&files_of(&app), &app.decisions);
    assert!(s.accepted.is_empty());
    assert!(s.undecided.contains(&"a.rs:h1".to_string()));
}

#[test]
fn decide_without_a_hunk_in_view_reports_it() {
    let mut app = multi_hunk_app();
    app.viewport.scroll_y = 2;
    let a = apply_normal_command(&mut app, NormalCommand::Decide(Decision::Accept));
    assert_eq!(a, NormalAction::Nothing);
    assert!(app.decisions.is_empty());
    assert_eq!(status(&app), (ToastKind::Error, "no hunk in view".to_string()));
}

#[test]
fn note_and_editor_commands_are_left_to_the_front_end() {
    let mut app = two_file_app();
    assert_eq!(apply_normal_command(&mut app, NormalCommand::BeginNote), NormalAction::BeginNote);
    assert_eq!(apply_normal_command(&mut app, NormalCommand::OpenEditor), NormalAction::OpenEditor);
    assert_eq!(apply_normal_command(&mut app, NormalCommand::Arm('z')), NormalAction::Nothing);
    assert_eq!(status(&app), (ToastKind::Info, "z".to_string()));
}

#[test]
fn two_presses_of_a_toggle_restore_every_toggle() {
    for cmd in [
        NormalCommand::ToggleHighlight,
        NormalCommand::ToggleLineNumbers,
        NormalCommand::ToggleWordDiff,
        NormalCommand::ToggleIgnoreWs,
        NormalCommand::ToggleRail,
    ] {
        let mut app = two_file_app();
        let before = (app.highlight_on, app.line_numbers_on, app.word_diff_on, app.ignore_ws, app.show_rail);
        apply_normal_command(&mut app, cmd);
        apply_normal_command(&mut app, cmd);
        assert_eq!((app.highlight_on, app.line_numbers_on, app.word_diff_on, app.ignore_ws, app.show_rail), before);
    }
}

#[test]
fn t_key_cycles_theme_mode_and_status() {
    let mut app = two_file_app();
    // The default theme is Light (Flexoki paper).
    assert_eq!(app.theme_mode, ThemeMode::Light);
    apply_normal_command(&mut app, NormalCommand::CycleThemeMode);
    assert_eq!(app.theme_mode, ThemeMode::Auto);
    assert!(status(&app).1.contains("auto"));
    apply_normal_command(&mut app, NormalCommand::CycleThemeMode);
    assert_eq!(app.theme_mode, ThemeMode::Dark);
    assert!(status(&app).1.contains("dark"));
    apply_normal_command(&mut app, NormalCommand::CycleThemeMode);
    assert_eq!(app.theme_mode, ThemeMode::Light);
    assert!(status(&app).1.contains("light"));
}

#[test]
fn scroll_clamps_at_bottom() {
    let mut app = two_file_app();
    apply_normal_command(&mut app, NormalCommand::Bottom);
    let max = app.viewport.max_scroll();
    assert_eq!(app.viewport.scroll_y, max);
    apply_normal_command(&mut app, NormalCommand::Move(Step::Down));
    assert_eq!(app.viewport.scroll_y, max);
}

#[test]
fn tab_cycles_to_next_file() {
    let mut app = two_file_app();
    assert_eq!(app.selected_file, 0);
    apply_normal_command(&mut app, NormalCommand::NextFile);
    assert_eq!(app.selected_file, 1);
    assert_eq!(app.paths[app.selected_file], "b.rs");
    apply_normal_command(&mut app, NormalCommand::NextFile);
    assert_eq!(app.selected_file, 0);
    assert_eq!(app.paths[app.selected_file], "a.rs");
}

#[test]
fn backtab_cycles_to_prev_file() {
    let mut app = two_file_app();
    apply_normal_command(&mut app, NormalCommand::PrevFile);
    assert_eq!(app.selected_file, 1);
    assert_eq!(status(&app), (ToastKind::Info, "← b.rs".to_string()));
}

#[test]
fn right_left_navigate_files() {
    let mut app = two_file_app();
    apply_normal_command(&mut app, NormalCommand::NextFile);
    assert_eq!(app.selected_file, 1);
    apply_normal_command(&mut app, NormalCommand::PrevFile);
    assert_eq!(app.selected_file, 0);
}

#[test]
fn scroll_syncs_selected_file() {
    let mut app = two_file_app();
    let f1_start = app.file_starts[1];
    while app.viewport.scroll_y < f1_start {
        apply_normal_command(&mut app, NormalCommand::Move(Step::Down));
    }
    assert_eq!(app.selected_file, 1);
}

#[test]
fn page_up_down_syncs_selected_file() {
    let mut app = two_file_app();
    apply_normal_command(&mut app, NormalCommand::Move(Step::HalfDown));
    assert_eq!(app.viewport.cursor_v, 2);
    assert_eq!(app.viewport.scroll_y, 0);
    apply_normal_command(&mut app, NormalCommand::Move(Step::HalfDown));
    assert_eq!(app.viewport.cursor_v, 4);
    assert_eq!(app.viewport.scroll_y, 1, "view should follow once the cursor hits the bottom edge");
    assert_eq!(app.selected_file, 1, "cursor on b.rs should sync the rail");
    apply_normal_command(&mut app, NormalCommand::Move(Step::HalfUp));
    assert_eq!(app.viewport.cursor_v, 2);
    apply_normal_command(&mut app, NormalCommand::Move(Step::HalfUp));
    assert_eq!(app.viewport.cursor_v, 0);
    assert_eq!(app.viewport.scroll_y, 0);
    assert_eq!(app.selected_file, 0, "PageUp should sync back to file 0");
}

#[test]
fn hunk_jumps_wrap_and_name_the_hunk() {
    let mut app = multi_hunk_app();
    apply_normal_command(&mut app, NormalCommand::NextHunk);
    assert_eq!(app.viewport.scroll_y, 1);
    assert_eq!(status(&app), (ToastKind::Info, "→ hunk @ a.rs:h1".to_string()));
    apply_normal_command(&mut app, NormalCommand::NextHunk);
    assert_eq!(app.viewport.scroll_y, 5);
    apply_normal_command(&mut app, NormalCommand::PrevHunk);
    assert_eq!(app.viewport.scroll_y, 1);
    assert_eq!(status(&app), (ToastKind::Info, "← hunk @ a.rs:h1".to_string()));
    apply_normal_command(&mut app, NormalCommand::PrevHunk);
    assert_eq!(app.viewport.scroll_y, 13, "wraps to the last hunk");
    assert_eq!(app.selected_file, 1);
}

#[test]
fn no_hunks_to_jump_to() {
    let mut app = state(4, 2, &[("a.rs", 0)], &[]);
    apply_normal_command(&mut app, NormalCommand::NextHunk);
    assert_eq!(status(&app), (ToastKind::Error, "no hunks to jump to".to_string()));
}

#[test]
fn note_jumps_count_the_notes() {
    let mut app = multi_hunk_app();
    apply_normal_command(&mut app, NormalCommand::NextNote);
    assert_eq!(status(&app), (ToastKind::Info, "no notes in this diff".to_string()));
    app.note_rows = vec![3, 12];
    apply_normal_command(&mut app, NormalCommand::NextNote);
    assert_eq!(app.viewport.scroll_y, 3);
    assert_eq!(status(&app), (ToastKind::Info, "💬 note 1/2".to_string()));
    apply_normal_command(&mut app, NormalCommand::NextNote);
    assert_eq!(app.viewport.scroll_y, 12);
    assert_eq!(status(&app), (ToastKind::Info, "💬 note 2/2".to_string()));
}

#[test]
fn n_with_no_active_search_gives_hint_status() {
    let mut app = two_file_app();
    apply_normal_command(&mut app, NormalCommand::NextMatch);
    assert_eq!(status(&app), (ToastKind::Error, "no search active (press / to search)".to_string()));
}

#[test]
fn n_with_active_search_no_matches_gives_status() {
    let mut app = two_file_app();
    app.search = Search { query: "zzz".into(), matches: Vec::new(), current: 0, active: true };
    apply_normal_command(&mut app, NormalCommand::NextMatch);
    assert_eq!(status(&app), (ToastKind::Error, "no matches for \"zzz\"".to_string()));
}

#[test]
fn search_n_cycles_and_wraps() {
    let mut app = two_file_app();
    app.search = Search { query: "value".into(), matches: vec![3, 7], current: 0, active: true };
    apply_normal_command(&mut app, NormalCommand::NextMatch);
    assert_eq!(app.search.current, 1);
    assert_eq!(app.viewport.cursor_v, 7);
    assert_eq!(status(&app), (ToastKind::Info, "match 2/2: \"value\"".to_string()));
    apply_normal_command(&mut app, NormalCommand::NextMatch);
    assert_eq!(app.search.current, 0);
    apply_normal_command(&mut app, NormalCommand::PrevMatch);
    assert_eq!(app.search.current, 1);
}

#[test]
fn zc_then_zo_restores_full_view() {
    let mut app = two_file_app();
    let a = apply_normal_command(&mut app, NormalCommand::FoldCurrent);
    assert_eq!(a, NormalAction::RebuildRows);
    assert_eq!(app.folded, vec![0]);
    assert_eq!(status(&app), (ToastKind::Info, "▼ a.rs (folded)".to_string()));
    apply_normal_command(&mut app, NormalCommand::FoldCurrent);
    assert_eq!(status(&app), (ToastKind::Error, "already folded: a.rs".to_string()));
    apply_normal_command(&mut app, NormalCommand::UnfoldCurrent);
    assert!(app.folded.is_empty());
    assert_eq!(status(&app), (ToastKind::Success, "▶ a.rs (unfolded)".to_string()));
    apply_normal_command(&mut app, NormalCommand::UnfoldCurrent);
    assert_eq!(status(&app), (ToastKind::Error, "not folded: a.rs".to_string()));
}

#[test]
fn zx_toggles_collapse() {
    let mut app = two_file_app();
    let a = apply_normal_command(&mut app, NormalCommand::ToggleCollapse);
    assert!(!app.collapse_on);
    assert_eq!(a, NormalAction::RebuildRows);
    assert_eq!(status(&app), (ToastKind::Info, "context collapse off".to_string()));
}

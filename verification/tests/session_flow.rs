use next_hunk::app::{Decision, FocusTarget, HunkId, InputMode, Toast, ToastKind};
use next_hunk::keymap::{KeyCode, KeyPress};
use next_hunk::keys::{edit_prompt, PromptEdit};
use next_hunk::normal::{LayoutMode, ReviewState};
use next_hunk::reload::carry_over;
use next_hunk::review_start::{apply_focus, finalize_search, focus_row, new_review, reload_review, Reparsed};
use next_hunk::session::{filter_outcome, selections, visible_files, FileRows, FilterOutcome};
use next_hunk::theme::{Palette, ThemeMode};

fn key(code: KeyCode) -> KeyPress {
    KeyPress { code, ctrl: false }
}

fn ctrl(c: char) -> KeyPress {
    KeyPress { code: KeyCode::Char(c), ctrl: true }
}

fn type_text(text: &mut String, s: &str) {
    for c in s.chars() {
        assert_eq!(edit_prompt(text, key(KeyCode::Char(c))), PromptEdit::Edited);
    }
}

/// `a.rs`: header 0, hunks at 1 and 5 (new lines 1, 2 at rows 2, 4; 5, 6 at
/// rows 6, 8); `b.rs`: header 9, hunks at 10 and 13 (new lines 1 at 12, 3
/// at 15).
fn multi_hunk_rows() -> (Vec<FileRows>, Vec<usize>) {
    let files = vec![
        FileRows { path: "a.rs".into(), hunk_rows: vec![1, 5], new_line_rows: vec![(1, 2), (2, 4), (5, 6), (6, 8)] },
        FileRows { path: "b.rs".into(), hunk_rows: vec![10, 13], new_line_rows: vec![(1, 12), (3, 15)] },
    ];
    (files, vec![0, 9])
}

fn multi_hunk_app() -> ReviewState {
    let mut row_files = vec![Some(0); 9];
    row_files.extend(vec![Some(1); 7]);
    let hunks = vec![
        (1, HunkId { file_idx: 0, hunk_idx: 0 }),
        (5, HunkId { file_idx: 0, hunk_idx: 1 }),
        (10, HunkId { file_idx: 1, hunk_idx: 0 }),
        (13, HunkId { file_idx: 1, hunk_idx: 1 }),
    ];
    let mut s = new_review(
        row_files,
        vec![0, 9],
        vec!["a.rs".into(), "b.rs".into()],
        hunks,
        Vec::new(),
        ThemeMode::default(),
        false,
    );
    s.viewport.viewport_height = 1;
    s
}

fn status(s: &ReviewState) -> (ToastKind, String) {
    s.status.clone().unwrap()
}

#[test]
fn new_session_defaults() {
    let app = multi_hunk_app();
    assert!(app.highlight_on);
    assert!(!app.ignore_ws);
    assert!(app.line_numbers_on && app.word_diff_on && app.show_rail && app.collapse_on);
    assert_eq!(app.theme_mode, ThemeMode::Light, "a new session starts light");
    assert_eq!(app.palette, Palette::Flexoki);
    assert_eq!(app.layout, LayoutMode::Unified);
    assert_eq!(app.mode, InputMode::Normal);
    assert_eq!((app.viewport.scroll_y, app.viewport.cursor_v, app.selected_file), (0, 0, 0));
    assert!(app.decisions.is_empty() && app.folded.is_empty());
}

#[test]
fn initial_status_mentions_fold_keys() {
    let app = multi_hunk_app();
    let (kind, text) = status(&app);
    assert_eq!(kind, ToastKind::Info);
    assert!(text.starts_with("2 file(s)"), "{text}");
    assert!(text.contains("zc/zo"), "{text}");
    let empty = new_review(Vec::new(), Vec::new(), Vec::new(), Vec::new(), Vec::new(), ThemeMode::Dark, false);
    assert_eq!(status(&empty).1, "empty diff");
}

#[test]
fn apply_focus_to_file_line() {
    let (files, starts) = multi_hunk_rows();
    let mut app = multi_hunk_app();
    let target = FocusTarget::FileLine("a.rs".into(), 2);
    let row = focus_row(&files, &starts, &target);
    assert_eq!(row, Some(4));
    apply_focus(&mut app, row, &target);
    assert_eq!(app.viewport.scroll_y, 4);
    assert_eq!(app.selected_file, 0);
    assert!(status(&app).1.contains("focus"));
    assert_eq!(status(&app), (ToastKind::Info, "📍 focus: a.rs:2".to_string()));
}

#[test]
fn apply_focus_to_hunk_ordinal() {
    let (files, starts) = multi_hunk_rows();
    let mut app = multi_hunk_app();
    let target = FocusTarget::FileHunk("b.rs".into(), 2);
    let row = focus_row(&files, &starts, &target);
    apply_focus(&mut app, row, &target);
    assert_eq!(app.viewport.scroll_y, 13);
    assert_eq!(app.selected_file, 1);
}

#[test]
fn apply_focus_to_file_start() {
    let (files, starts) = multi_hunk_rows();
    let mut app = multi_hunk_app();
    let target = FocusTarget::File("b.rs".into());
    let row = focus_row(&files, &starts, &target);
    apply_focus(&mut app, row, &target);
    assert_eq!(app.viewport.scroll_y, 9);
    assert_eq!(app.selected_file, 1);
}

#[test]
fn apply_focus_unknown_path_falls_back_gracefully() {
    let (files, starts) = multi_hunk_rows();
    let mut app = multi_hunk_app();
    let target = FocusTarget::File("missing.rs".into());
    let row = focus_row(&files, &starts, &target);
    assert_eq!(row, None);
    apply_focus(&mut app, row, &target);
    assert_eq!(app.viewport.scroll_y, 0);
    assert!(status(&app).1.contains("not found"));
    assert_eq!(status(&app).0, ToastKind::Error);
}

#[test]
fn search_finds_matches_and_jumps() {
    let mut app = multi_hunk_app();
    let mut rows: Vec<Option<String>> = vec![None; 16];
    rows[4] = Some("new1 Value".into());
    rows[12] = Some("bar value".into());
    app.search.query = "value".into();
    finalize_search(&mut app, &rows);
    assert!(app.search.active);
    assert_eq!(app.search.matches, vec![4, 12]);
    assert_eq!(app.viewport.scroll_y, 4);
    assert_eq!(status(&app), (ToastKind::Info, "match 1/2: \"value\"".to_string()));
}

#[test]
fn search_no_matches() {
    let mut app = multi_hunk_app();
    let rows: Vec<Option<String>> = vec![Some("foo".into()); 16];
    app.search.query = "nope".into();
    finalize_search(&mut app, &rows);
    assert!(app.search.matches.is_empty());
    assert_eq!(status(&app), (ToastKind::Error, "no matches for \"nope\"".to_string()));
    app.search.query = "   ".into();
    finalize_search(&mut app, &rows);
    assert!(!app.search.active);
    assert_eq!(status(&app), (ToastKind::Error, "search empty".to_string()));
}

#[test]
fn search_ctrl_u_clears_query() {
    let mut query = String::new();
    type_text(&mut query, "hello world");
    assert_eq!(query, "hello world");
    edit_prompt(&mut query, ctrl('u'));
    assert!(query.is_empty());
}

#[test]
fn filter_ctrl_u_clears_filter() {
    let mut filter = String::new();
    type_text(&mut filter, "src/mod");
    assert_eq!(filter, "src/mod");
    edit_prompt(&mut filter, ctrl('u'));
    assert!(filter.is_empty());
}

#[test]
fn path_filter_narrows_files() {
    let paths = vec!["a.rs".to_string(), "b.rs".to_string()];
    assert_eq!(visible_files(&paths, "").len(), 2);
    let mut filter = String::new();
    type_text(&mut filter, "b.rs");
    assert_eq!(edit_prompt(&mut filter, key(KeyCode::Enter)), PromptEdit::Submit);
    assert_eq!(visible_files(&paths, &filter), vec![1]);
    // selected jumped to the matching file
    assert_eq!(filter_outcome(&paths, 0, &filter), FilterOutcome::Select(1));
}

#[test]
fn path_filter_no_match_keeps_filter() {
    let paths = vec!["a.rs".to_string(), "b.rs".to_string()];
    assert!(visible_files(&paths, "zzz").is_empty());
    assert_eq!(filter_outcome(&paths, 0, "zzz"), FilterOutcome::NoMatch);
}

#[test]
fn filter_esc_clears() {
    let paths = vec!["a.rs".to_string(), "b.rs".to_string()];
    let mut filter = String::new();
    type_text(&mut filter, "a");
    assert_eq!(edit_prompt(&mut filter, key(KeyCode::Esc)), PromptEdit::Cancel);
    assert!(filter.is_empty());
    assert_eq!(visible_files(&paths, &filter).len(), 2);
}

fn two_by_two() -> Vec<(String, usize)> {
    vec![("a.rs".to_string(), 2), ("b.rs".to_string(), 2)]
}

#[test]
fn selections_empty_when_no_decisions() {
    let s = selections(&two_by_two(), &Vec::new());
    assert!(s.accepted.is_empty());
    assert!(s.rejected.is_empty());
    assert_eq!(s.undecided.len(), 4);
    assert!(s.undecided.contains(&"a.rs:h1".to_string()));
    assert!(s.undecided.contains(&"b.rs:h2".to_string()));
}

#[test]
fn selections_buckets_by_decision() {
    let ds = vec![
        (HunkId { file_idx: 0, hunk_idx: 0 }, Decision::Accept),
        (HunkId { file_idx: 1, hunk_idx: 1 }, Decision::Reject),
    ];
    let s = selections(&two_by_two(), &ds);
    assert_eq!(s.accepted, vec!["a.rs:h1".to_string()]);
    assert_eq!(s.rejected, vec!["b.rs:h2".to_string()]);
    assert_eq!(s.undecided.len(), 2);
}

#[test]
fn reload_preserves_decisions_by_path() {
    let old_paths = vec!["a.rs".to_string(), "b.rs".to_string()];
    let new_files = vec![("a.rs".to_string(), 1), ("b.rs".to_string(), 1)];
    let ds = vec![
        (HunkId { file_idx: 0, hunk_idx: 0 }, Decision::Accept),
        (HunkId { file_idx: 1, hunk_idx: 0 }, Decision::Reject),
    ];
    let c = carry_over(&old_paths, "a.rs", &new_files, &ds, &Vec::new());
    assert_eq!(c.decisions.len(), 2, "both decisions should survive reload");
    let s = selections(&new_files, &c.decisions);
    assert!(s.accepted.contains(&"a.rs:h1".to_string()));
    assert!(s.rejected.contains(&"b.rs:h1".to_string()));
}

#[test]
fn reload_drops_decisions_for_removed_hunks() {
    let old_paths = vec!["a.rs".to_string(), "b.rs".to_string()];
    let new_files = vec![("a.rs".to_string(), 2), ("b.rs".to_string(), 1)];
    let ds = vec![
        (HunkId { file_idx: 0, hunk_idx: 0 }, Decision::Accept),
        (HunkId { file_idx: 0, hunk_idx: 1 }, Decision::Reject),
        (HunkId { file_idx: 1, hunk_idx: 1 }, Decision::Accept),
    ];
    let c = carry_over(&old_paths, "a.rs", &new_files, &ds, &Vec::new());
    let s = selections(&new_files, &c.decisions);
    assert!(s.accepted.contains(&"a.rs:h1".to_string()));
    assert!(s.rejected.contains(&"a.rs:h2".to_string()));
    assert!(!s.accepted.contains(&"b.rs:h2".to_string()));
    assert!(!s.undecided.contains(&"b.rs:h2".to_string()));
}

#[test]
fn reload_preserves_folded_by_path() {
    let old_paths = vec!["a.rs".to_string(), "b.rs".to_string()];
    let new_files = vec![("a.rs".to_string(), 1), ("b.rs".to_string(), 1)];
    let c = carry_over(&old_paths, "a.rs", &new_files, &Vec::new(), &vec![1]);
    assert!(c.folded.contains(&1), "fold for b.rs should survive reload");
}

#[test]
fn expire_status_clears_a_past_toast_but_not_sticky() {
    let sticky = Toast::sticky("2 file(s)".to_string());
    assert!(!sticky.expired(), "sticky toast never expires");
    assert!(!sticky.expired_after(1_000_000));
    let fresh = Toast::stamped("search: foo".to_string());
    assert!(!fresh.expired(), "fresh toast not yet expired");
    assert!(fresh.expired_after(1_000_000), "a toast past its lifetime expires");
}

fn reparsed_b_only() -> Reparsed {
    // The new review keeps only b.rs (one hunk at row 1, a note at row 2).
    Reparsed {
        row_files: vec![Some(0); 4],
        file_starts: vec![0],
        files: vec![("b.rs".to_string(), 1)],
        hunk_rows: vec![(1, HunkId { file_idx: 0, hunk_idx: 0 })],
        note_rows: vec![2],
        row_texts: vec![None, None, Some("bar value".into()), None],
    }
}

#[test]
fn reload_of_blank_text_keeps_the_review() {
    let mut app = multi_hunk_app();
    reload_review(&mut app, true, Err("unused".into()));
    assert_eq!(app.paths.len(), 2);
    assert_eq!(status(&app), (ToastKind::Info, "reloaded (empty diff)".to_string()));
}

#[test]
fn reload_keeps_old_review_on_parse_failure() {
    let mut app = multi_hunk_app();
    reload_review(&mut app, false, Err("bad hunk header".into()));
    assert_eq!(app.paths, vec!["a.rs".to_string(), "b.rs".to_string()]);
    assert_eq!(status(&app), (ToastKind::Error, "reload failed: bad hunk header".to_string()));
}

#[test]
fn reload_carries_selection_decisions_and_search() {
    let mut app = multi_hunk_app();
    app.selected_file = 1;
    app.viewport.scroll_y = 13;
    app.viewport.cursor_v = 13;
    app.decisions = vec![
        (HunkId { file_idx: 0, hunk_idx: 0 }, Decision::Accept),
        (HunkId { file_idx: 1, hunk_idx: 0 }, Decision::Reject),
    ];
    app.folded = vec![1];
    app.last_hunk_jump = Some(13);
    app.search.query = "value".into();
    app.search.active = true;
    reload_review(&mut app, false, Ok(reparsed_b_only()));
    assert_eq!(app.paths, vec!["b.rs".to_string()]);
    assert_eq!(app.selected_file, 0, "b.rs followed by path");
    assert_eq!(app.decisions, vec![(HunkId { file_idx: 0, hunk_idx: 0 }, Decision::Reject)]);
    assert_eq!(app.folded, vec![0]);
    assert_eq!(app.last_hunk_jump, None);
    assert_eq!(app.search.matches, vec![2], "the search runs again");
    assert_eq!(app.viewport.cursor_v, 2);
    assert!(app.viewport.scroll_y <= 3);
    assert_eq!(status(&app), (ToastKind::Success, "reloaded (1 files)".to_string()));
}

#[test]
fn reload_clamps_scroll_to_new_bounds() {
    let mut app = multi_hunk_app();
    app.viewport.scroll_y = 15;
    app.viewport.cursor_v = 15;
    reload_review(&mut app, false, Ok(reparsed_b_only()));
    assert_eq!(app.viewport.virtual_len, 4);
    assert_eq!(app.viewport.scroll_y, 3);
    assert_eq!(app.viewport.cursor_v, 3);
}

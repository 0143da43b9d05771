use next_hunk::app::{Decision, HunkId, NoteTarget};
use next_hunk::session::{
    annotated_rows, decision_mark, filter_outcome, jump_anchor, note_jump, selections, user_note,
    visible_files, FilterOutcome,
};

fn strings(v: &[&str]) -> Vec<String> {
    v.iter().map(|s| s.to_string()).collect()
}

#[test]
fn a_blank_filter_shows_every_file() {
    let paths = strings(&["src/a.rs", "README.md", "src/B.rs"]);
    assert_eq!(visible_files(&paths, ""), vec![0, 1, 2]);
    assert_eq!(visible_files(&paths, "   "), vec![0, 1, 2]);
}

#[test]
fn the_filter_matches_paths_case_insensitively() {
    let paths = strings(&["src/a.rs", "README.md", "src/B.rs"]);
    assert_eq!(visible_files(&paths, "SRC"), vec![0, 2]);
    assert_eq!(visible_files(&paths, "b.rs"), vec![2]);
    assert_eq!(visible_files(&paths, "zzz"), Vec::<usize>::new());
}

#[test]
fn annotated_rows_are_sorted_and_unique() {
    let resolved = vec![Some(30), None, Some(4), Some(30), Some(12), None, Some(4)];
    assert_eq!(annotated_rows(&resolved), vec![4, 12, 30]);
    assert_eq!(annotated_rows(&vec![None, None]), Vec::<usize>::new());
}

#[test]
fn note_jumps_wrap_around_both_ends() {
    let rows = vec![4, 12, 30];
    assert_eq!(note_jump(&rows, 0, true), Some((4, 1)));
    assert_eq!(note_jump(&rows, 12, true), Some((30, 3)));
    assert_eq!(note_jump(&rows, 30, true), Some((4, 1)));
    assert_eq!(note_jump(&rows, 12, false), Some((4, 1)));
    assert_eq!(note_jump(&rows, 4, false), Some((30, 3)));
    assert_eq!(note_jump(&rows, 20, false), Some((12, 2)));
    assert_eq!(note_jump(&Vec::new(), 20, false), None);
}

#[test]
fn every_hunk_lands_in_one_bucket() {
    let files = vec![("src/a.rs".to_string(), 2), ("b.rs".to_string(), 0), ("c.rs".to_string(), 3)];
    let decisions = vec![
        (HunkId { file_idx: 0, hunk_idx: 1 }, Decision::Accept),
        (HunkId { file_idx: 2, hunk_idx: 0 }, Decision::Reject),
        (HunkId { file_idx: 2, hunk_idx: 2 }, Decision::Accept),
        (HunkId { file_idx: 2, hunk_idx: 0 }, Decision::Accept),
    ];
    let s = selections(&files, &decisions);
    assert_eq!(s.accepted, strings(&["src/a.rs:h2", "c.rs:h3"]));
    assert_eq!(s.rejected, strings(&["c.rs:h1"]));
    assert_eq!(s.undecided, strings(&["src/a.rs:h1", "c.rs:h2"]));
}

#[test]
fn a_saved_note_is_trimmed_and_mirrored_as_a_user_comment() {
    let target = NoteTarget::Line { path: "src/a.rs".to_string(), line: 7 };
    let (c, n) = user_note(&target, "  looks off  ", 2).unwrap();
    assert_eq!(c.id, "user:3");
    assert_eq!(c.file, "src/a.rs");
    assert_eq!(c.line, Some(7));
    assert_eq!(c.hunk, None);
    assert_eq!(c.text, "looks off");
    assert_eq!(n.text, "looks off");
    assert_eq!(n.target, target);
}

#[test]
fn a_blank_note_is_discarded() {
    assert!(user_note(&NoteTarget::Banner, "   ", 0).is_none());
    let (c, _) = user_note(&NoteTarget::Hunk { path: "b.rs".to_string(), hunk: 2 }, "x", 0).unwrap();
    assert_eq!((c.id.as_str(), c.file.as_str(), c.line, c.hunk), ("user:1", "b.rs", None, Some(2)));
    let (c, _) = user_note(&NoteTarget::Banner, "y", 9).unwrap();
    assert_eq!((c.id.as_str(), c.file.as_str()), ("user:10", ""));
}

#[test]
fn decision_marks_show_the_ruling() {
    assert_eq!(decision_mark(Decision::Accept), "[✓] ");
    assert_eq!(decision_mark(Decision::Reject), "[✗] ");
    assert_eq!(decision_mark(Decision::Undecided), "[?] ");
}

#[test]
fn applying_the_filter_keeps_or_moves_the_selection() {
    let paths = strings(&["src/a.rs", "README.md", "src/B.rs"]);
    assert_eq!(filter_outcome(&paths, 1, "  "), FilterOutcome::Cleared);
    assert_eq!(filter_outcome(&paths, 2, "src"), FilterOutcome::Keep);
    assert_eq!(filter_outcome(&paths, 1, "SRC"), FilterOutcome::Select(0));
    assert_eq!(filter_outcome(&paths, 1, "nothing"), FilterOutcome::NoMatch);
}

#[test]
fn jumps_search_from_the_last_jump_while_it_is_on_screen() {
    assert_eq!(jump_anchor(Some((40, 12)), 30, 10, 5), 40);
    assert_eq!(jump_anchor(Some((40, 15)), 30, 10, 5), 30);
    assert_eq!(jump_anchor(Some((40, 9)), 30, 10, 5), 30);
    assert_eq!(jump_anchor(None, 30, 10, 5), 30);
}

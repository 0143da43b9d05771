use next_hunk::app::{CommentEntry, Note, NoteTarget};
use next_hunk::server::{batch_error, comment_clear, comment_rm, drop_agent_notes, highlight_range_error};

fn entry(id: &str, file: &str) -> CommentEntry {
    CommentEntry { id: id.to_string(), file: file.to_string(), text: "t".to_string(), line: Some(1), hunk: None }
}

fn ids(v: &[CommentEntry]) -> Vec<&str> {
    v.iter().map(|c| c.id.as_str()).collect()
}

#[test]
fn clear_takes_agent_comments_and_human_notes_only_with_all() {
    let mut cs = vec![entry("c0", "a.rs"), entry("user:1", "a.rs"), entry("c1", "b.rs")];
    let removed = comment_clear(&mut cs, None, false);
    assert_eq!(removed, vec!["c0".to_string(), "c1".to_string()]);
    assert_eq!(ids(&cs), vec!["user:1"]);
}

#[test]
fn clear_with_a_file_keeps_other_files() {
    let mut cs = vec![entry("c0", "a.rs"), entry("user:1", "a.rs"), entry("c1", "b.rs")];
    let removed = comment_clear(&mut cs, Some("a.rs"), true);
    assert_eq!(removed, vec!["c0".to_string(), "user:1".to_string()]);
    assert_eq!(ids(&cs), vec!["c1"]);
    let removed = comment_clear(&mut cs, Some("zzz"), true);
    assert!(removed.is_empty());
    assert_eq!(ids(&cs), vec!["c1"]);
}

#[test]
fn rm_removes_by_id_and_reports_a_miss() {
    let mut cs = vec![entry("c0", "a.rs"), entry("c1", "b.rs")];
    assert!(comment_rm(&mut cs, "c1"));
    assert_eq!(ids(&cs), vec!["c0"]);
    assert!(!comment_rm(&mut cs, "c9"));
    assert_eq!(ids(&cs), vec!["c0"]);
}

#[test]
fn an_agent_comments_note_goes_by_its_id_prefix() {
    let note = |t: &str| Note { target: NoteTarget::Banner, text: t.to_string() };
    let mut ns = vec![note("c0: hi"), note("c01: x"), note("plain")];
    drop_agent_notes(&mut ns, "c0");
    let texts: Vec<&str> = ns.iter().map(|n| n.text.as_str()).collect();
    assert_eq!(texts, vec!["c01: x", "plain"]);
}

#[test]
fn a_batch_is_checked_before_anything_is_applied() {
    let ok = vec![("a.rs".to_string(), Some(2), Some(3)), ("a.rs".to_string(), None, Some(0))];
    assert_eq!(batch_error(&ok), None);
    let unknown = vec![("a.rs".to_string(), Some(2), Some(3)), ("b.rs".to_string(), None, None)];
    assert_eq!(batch_error(&unknown), Some("comment 2 targets unknown file `b.rs`".to_string()));
    let out_of_range = vec![("a.rs".to_string(), Some(4), Some(3))];
    assert_eq!(
        batch_error(&out_of_range),
        Some("comment 1: `a.rs` has 3 hunk(s); hunk 4 is out of range".to_string())
    );
    let zero = vec![("a.rs".to_string(), Some(0), Some(3))];
    assert_eq!(
        batch_error(&zero),
        Some("comment 1: `a.rs` has 3 hunk(s); hunk 0 is out of range".to_string())
    );
}

#[test]
fn a_mark_range_must_run_forward_from_one() {
    assert_eq!(
        highlight_range_error(0, 5),
        Some("highlight range must satisfy 1 <= start < end (got 0..5)".to_string())
    );
    assert!(highlight_range_error(3, 3).is_some());
    assert_eq!(highlight_range_error(1, 2), None);
}

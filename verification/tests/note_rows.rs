use next_hunk::app::NoteTarget;
use next_hunk::session::{note_stream_row, FileRows};

/// `a.rs`: header row 0, hunk header row 1, `-old` row 2, `+new` (new line 1)
/// row 3; `b.rs`: header row 4, hunks at rows 5 and 8.
fn sample() -> Vec<FileRows> {
    vec![
        FileRows { path: "a.rs".into(), hunk_rows: vec![1], new_line_rows: vec![(1, 3)] },
        FileRows { path: "b.rs".into(), hunk_rows: vec![5, 8], new_line_rows: vec![(1, 7), (4, 10)] },
    ]
}

#[test]
fn note_for_unknown_target_is_dropped() {
    let files = sample();
    let t = NoteTarget::Line { path: "missing.rs".into(), line: 1 };
    assert_eq!(note_stream_row(&files, &t), None);
}

#[test]
fn line_notes_land_on_their_new_side_line() {
    let files = sample();
    assert_eq!(note_stream_row(&files, &NoteTarget::Line { path: "a.rs".into(), line: 1 }), Some(3));
    assert_eq!(note_stream_row(&files, &NoteTarget::Line { path: "b.rs".into(), line: 4 }), Some(10));
    assert_eq!(note_stream_row(&files, &NoteTarget::Line { path: "b.rs".into(), line: 2 }), None);
}

#[test]
fn hunk_notes_use_one_based_ordinals() {
    let files = sample();
    assert_eq!(note_stream_row(&files, &NoteTarget::Hunk { path: "b.rs".into(), hunk: 2 }), Some(8));
    assert_eq!(note_stream_row(&files, &NoteTarget::Hunk { path: "b.rs".into(), hunk: 1 }), Some(5));
    assert_eq!(note_stream_row(&files, &NoteTarget::Hunk { path: "b.rs".into(), hunk: 0 }), Some(5));
    assert_eq!(note_stream_row(&files, &NoteTarget::Hunk { path: "b.rs".into(), hunk: 3 }), None);
}

#[test]
fn banner_notes_have_no_row() {
    assert_eq!(note_stream_row(&sample(), &NoteTarget::Banner), None);
}

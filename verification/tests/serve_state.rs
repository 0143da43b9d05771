use next_hunk::app::{Decision, FocusTarget, HunkId, Note, NoteTarget, ToastKind};
use next_hunk::serve::{apply_server_command, ServeState};
use next_hunk::server::{BatchComment, ServerCommand, ServerReply};
use next_hunk::session::user_note;

fn sample() -> ServeState {
    ServeState {
        files: vec![("a.rs".to_string(), 1)],
        repo_root: "/tmp/demo".to_string(),
        comments: Vec::new(),
        notes: Vec::new(),
        user_notes: Vec::new(),
        applied: Vec::new(),
        highlights: Vec::new(),
        focus: None,
        refocus: false,
        next_comment: 0,
        status: None,
        decisions: Vec::new(),
    }
}

fn add_human_note(s: &mut ServeState, draft: &str, seq: usize) {
    let target = NoteTarget::Line { path: "a.rs".to_string(), line: 1 };
    let (c, n) = user_note(&target, draft, seq).unwrap();
    s.user_notes.push((c.id.clone(), n.clone()));
    s.notes.push(n);
    s.comments.push(c);
}

fn status_text(s: &ServeState) -> String {
    s.status.as_ref().map(|(_, t)| t.clone()).unwrap_or_default()
}

#[test]
fn comment_rm_user_note_also_removes_the_note_row() {
    let mut app = sample();
    add_human_note(&mut app, "stale", 0);
    assert_eq!(app.notes.len(), 1);
    assert_eq!(app.comments[0].id, "user:1");
    apply_server_command(&mut app, ServerCommand::CommentRm { id: "user:1".into() });
    assert!(app.comments.iter().all(|c| c.id != "user:1"), "comment removed");
    assert!(app.notes.is_empty(), "paired note row removed too");
    assert!(app.user_notes.is_empty());
}

#[test]
fn comment_rm_of_an_unknown_id_is_an_error() {
    let mut app = sample();
    let reply = apply_server_command(&mut app, ServerCommand::CommentRm { id: "c9".into() });
    assert_eq!(reply, ServerReply::Error("comment c9 not found".to_string()));
}

#[test]
fn comment_add_renders_note_immediately_and_focuses() {
    let mut app = sample();
    match apply_server_command(
        &mut app,
        ServerCommand::CommentAdd {
            file: "a.rs".into(),
            text: "live note".into(),
            line: Some(1),
            hunk: None,
            focus: true,
        },
    ) {
        ServerReply::CommentAdded { id } => {
            assert!(!id.is_empty());
            assert_eq!(id, "c0");
        }
        other => panic!("expected CommentAdded, got {other:?}"),
    }
    assert_eq!(app.notes.len(), 1, "comment add renders its note live");
    assert!(app.notes[0].text.contains("live note"));
    assert_eq!(app.notes[0].text, "c0: live note");
    assert_eq!(app.comments.len(), 1);
    assert_eq!(app.focus, Some(FocusTarget::FileLine("a.rs".into(), 1)));
    assert!(app.refocus);
    assert_eq!(app.next_comment, 1);
    assert_eq!(status_text(&app), "comment c0 added by agent");
}

#[test]
fn comment_batch_validates_atomically() {
    let mut app = sample();
    let reply = apply_server_command(
        &mut app,
        ServerCommand::CommentApplyBatch {
            comments: vec![
                BatchComment { file: "a.rs".into(), text: "ok".into(), line: Some(1), hunk: None },
                BatchComment { file: "nope.rs".into(), text: "bad".into(), line: None, hunk: None },
            ],
            focus: false,
        },
    );
    match reply {
        ServerReply::Error(msg) => assert!(msg.contains("nope.rs"), "error names the file: {msg}"),
        other => panic!("expected Error, got {other:?}"),
    }
    assert!(app.comments.is_empty(), "rejected batch must not mutate");
    assert!(app.notes.is_empty(), "rejected batch must not mutate");
    let reply = apply_server_command(
        &mut app,
        ServerCommand::CommentApplyBatch {
            comments: vec![BatchComment { file: "a.rs".into(), text: "bad hunk".into(), line: None, hunk: Some(7) }],
            focus: false,
        },
    );
    assert!(matches!(reply, ServerReply::Error(_)));
    let reply = apply_server_command(
        &mut app,
        ServerCommand::CommentApplyBatch {
            comments: vec![
                BatchComment { file: "a.rs".into(), text: "one".into(), line: Some(1), hunk: None },
                BatchComment { file: "a.rs".into(), text: "two".into(), line: None, hunk: Some(1) },
            ],
            focus: false,
        },
    );
    assert!(matches!(reply, ServerReply::Ack));
    assert_eq!(app.comments.len(), 2);
    assert_eq!(app.notes.len(), 2);
}

#[test]
fn batch_errors_name_the_item_and_the_range() {
    let mut app = sample();
    let reply = apply_server_command(
        &mut app,
        ServerCommand::CommentApplyBatch {
            comments: vec![BatchComment { file: "a.rs".into(), text: "x".into(), line: None, hunk: Some(7) }],
            focus: true,
        },
    );
    assert_eq!(
        reply,
        ServerReply::Error("comment 1: `a.rs` has 1 hunk(s); hunk 7 is out of range".to_string())
    );
    assert_eq!(app.next_comment, 0);
    assert_eq!(app.focus, None);
}

#[test]
fn batch_numbers_ids_and_focuses_the_first() {
    let mut app = sample();
    app.next_comment = 5;
    let reply = apply_server_command(
        &mut app,
        ServerCommand::CommentApplyBatch {
            comments: vec![
                BatchComment { file: "a.rs".into(), text: "one".into(), line: Some(2), hunk: None },
                BatchComment { file: "a.rs".into(), text: "two".into(), line: None, hunk: Some(1) },
            ],
            focus: true,
        },
    );
    assert_eq!(reply, ServerReply::Ack);
    let ids: Vec<&str> = app.comments.iter().map(|c| c.id.as_str()).collect();
    assert_eq!(ids, vec!["c5", "c6"]);
    assert_eq!(app.notes[1].text, "c6: two");
    assert_eq!(app.notes[1].target, NoteTarget::Hunk { path: "a.rs".into(), hunk: 1 });
    assert_eq!(app.focus, Some(FocusTarget::FileLine("a.rs".into(), 2)));
    assert_eq!(app.next_comment, 7);
    assert_eq!(app.applied, vec!["c5".to_string(), "c6".to_string()]);
    assert_eq!(status_text(&app), "2 comments applied by agent");
}

#[test]
fn comment_clear_scopes_and_removes_paired_notes() {
    let mut app = sample();
    apply_server_command(
        &mut app,
        ServerCommand::CommentAdd {
            file: "a.rs".into(),
            text: "agent says".into(),
            line: Some(1),
            hunk: None,
            focus: false,
        },
    );
    add_human_note(&mut app, "human says", 0);
    assert_eq!(app.comments.len(), 2);
    assert_eq!(app.notes.len(), 2);
    match apply_server_command(&mut app, ServerCommand::CommentClear { file: None, all: false }) {
        ServerReply::CommentCleared { removed } => assert_eq!(removed, 1),
        other => panic!("expected CommentCleared, got {other:?}"),
    }
    assert_eq!(app.comments.len(), 1, "human note survives default clear");
    assert_eq!(app.notes.len(), 1, "its rendered note survives too");
    assert_eq!(app.comments[0].id, "user:1");
    match apply_server_command(&mut app, ServerCommand::CommentClear { file: None, all: true }) {
        ServerReply::CommentCleared { removed } => assert_eq!(removed, 1),
        other => panic!("expected CommentCleared, got {other:?}"),
    }
    assert!(app.comments.is_empty());
    assert!(app.notes.is_empty());
    let reply = apply_server_command(&mut app, ServerCommand::CommentClear { file: None, all: true });
    assert_eq!(reply, ServerReply::Error("no comments matched".to_string()));
}

#[test]
fn highlight_add_validates_and_stores_marks() {
    let mut app = sample();
    match apply_server_command(
        &mut app,
        ServerCommand::HighlightAdd {
            file: "ghost.rs".into(),
            line: 1,
            start: 1,
            end: 4,
            tone: "warning".into(),
            focus: false,
        },
    ) {
        ServerReply::Error(message) => assert!(message.contains("ghost.rs"), "{message}"),
        other => panic!("expected Error, got {other:?}"),
    }
    match apply_server_command(
        &mut app,
        ServerCommand::HighlightAdd {
            file: "a.rs".into(),
            line: 1,
            start: 4,
            end: 4,
            tone: "warning".into(),
            focus: false,
        },
    ) {
        ServerReply::Error(message) => assert!(message.contains("start"), "{message}"),
        other => panic!("expected Error, got {other:?}"),
    }
    assert!(app.highlights.is_empty(), "rejected marks are not stored");
    match apply_server_command(
        &mut app,
        ServerCommand::HighlightAdd {
            file: "a.rs".into(),
            line: 1,
            start: 1,
            end: 3,
            tone: String::new(),
            focus: true,
        },
    ) {
        ServerReply::Ack => {}
        other => panic!("expected Ok, got {other:?}"),
    }
    assert_eq!(app.highlights.len(), 1);
    assert_eq!(app.highlights[0].tone, "warning", "empty tone defaults");
    assert_eq!(app.highlights[0].id, "hl0");
    assert_eq!(app.focus, Some(FocusTarget::FileLine("a.rs".into(), 1)), "focus moved to the marked line");
    match apply_server_command(&mut app, ServerCommand::HighlightList) {
        ServerReply::HighlightList { marks } => assert_eq!(marks.len(), 1),
        other => panic!("expected HighlightList, got {other:?}"),
    }
    match apply_server_command(&mut app, ServerCommand::HighlightClear { file: None }) {
        ServerReply::HighlightCleared { removed } => assert_eq!(removed, 1),
        other => panic!("expected HighlightCleared, got {other:?}"),
    }
    assert!(app.highlights.is_empty());
    let reply = apply_server_command(&mut app, ServerCommand::HighlightClear { file: None });
    assert_eq!(reply, ServerReply::Error("no marks matched".to_string()));
}

#[test]
fn comment_apply_is_idempotent_per_comment() {
    let mut app = sample();
    app.comments.push(next_hunk::app::CommentEntry {
        id: "c1".into(),
        file: "a.rs".into(),
        text: "check this".into(),
        line: Some(1),
        hunk: None,
    });
    apply_server_command(&mut app, ServerCommand::CommentApply);
    assert_eq!(app.notes.len(), 1, "first apply converts the comment");
    assert_eq!(status_text(&app), "comments applied (1 new)");
    apply_server_command(&mut app, ServerCommand::CommentApply);
    assert_eq!(app.notes.len(), 1, "re-running apply must not duplicate note rows");
    assert_eq!(status_text(&app), "comments applied (0 new)");
    assert!(!app.notes[0].text.contains("💬"), "renderer supplies the 💬 glyph; the note text must not carry one");
    assert!(app.notes[0].text.contains("c1"), "note text keeps the comment id for `comment rm` correlation");
}

#[test]
fn push_appends_notes_and_replaces_focus() {
    let mut app = sample();
    let note = Note { target: NoteTarget::Banner, text: "hello".into() };
    let reply = apply_server_command(
        &mut app,
        ServerCommand::Push { focus: Some(FocusTarget::File("a.rs".into())), notes: vec![note.clone()] },
    );
    assert_eq!(reply, ServerReply::Ack);
    assert_eq!(app.notes, vec![note]);
    assert_eq!(app.focus, Some(FocusTarget::File("a.rs".into())));
    assert_eq!(app.status, Some((ToastKind::Info, "pushed by agent".to_string())));
}

#[test]
fn info_and_decisions_report_the_session() {
    let mut app = sample();
    app.decisions.push((HunkId { file_idx: 0, hunk_idx: 0 }, Decision::Accept));
    let reply = apply_server_command(&mut app, ServerCommand::Info);
    assert_eq!(reply, ServerReply::Info { repo_path: "/tmp/demo".into(), file_count: 1 });
    match apply_server_command(&mut app, ServerCommand::Decision) {
        ServerReply::Decisions(s) => {
            assert_eq!(s.accepted, vec!["a.rs:h1".to_string()]);
            assert!(s.rejected.is_empty() && s.undecided.is_empty());
        }
        other => panic!("expected Decisions, got {other:?}"),
    }
}

#[test]
fn navigate_records_the_target() {
    let mut app = sample();
    let reply = apply_server_command(&mut app, ServerCommand::Navigate { target: FocusTarget::FileHunk("a.rs".into(), 1) });
    assert_eq!(reply, ServerReply::Ack);
    assert_eq!(app.focus, Some(FocusTarget::FileHunk("a.rs".into(), 1)));
    assert!(app.refocus);
}

#[test]
fn highlight_ids_count_up_from_hl0() {
    let mut app = sample();
    for _ in 0..3 {
        let reply = apply_server_command(
            &mut app,
            ServerCommand::HighlightAdd {
                file: "a.rs".into(),
                line: 2,
                start: 1,
                end: 2,
                tone: "info".into(),
                focus: false,
            },
        );
        assert_eq!(reply, ServerReply::Ack);
    }
    let ids: Vec<&str> = app.highlights.iter().map(|m| m.id.as_str()).collect();
    assert_eq!(ids, vec!["hl0", "hl1", "hl2"]);
    assert_eq!(app.highlights[2].tone, "info");
}

#[test]
fn comment_clear_by_file_keeps_other_files() {
    let mut app = sample();
    app.files.push(("b.rs".to_string(), 2));
    for f in ["a.rs", "b.rs"] {
        apply_server_command(
            &mut app,
            ServerCommand::CommentAdd { file: f.into(), text: "x".into(), line: None, hunk: None, focus: false },
        );
    }
    let reply = apply_server_command(&mut app, ServerCommand::CommentClear { file: Some("b.rs".into()), all: false });
    assert_eq!(reply, ServerReply::CommentCleared { removed: 1 });
    assert_eq!(app.comments.len(), 1);
    assert_eq!(app.comments[0].file, "a.rs");
    assert_eq!(app.notes.len(), 1);
    assert_eq!(app.notes[0].text, "c0: x");
    assert_eq!(status_text(&app), "cleared 1 comment(s)");
}

use next_hunk::app::{
    drop_last_word, editor_argv, focus_display, CommentEntry, FocusTarget, Note, NoteTarget,
    ReviewOptions, Search, Toast, ToastKind,
};
use next_hunk::server::{comment_focus_target, comment_note, ServerCommand, ServerReply};

#[test]
fn toast_from_str_defaults_to_info_and_is_stamped() {
    let t: Toast = "no matches".into();
    assert_eq!(t.kind, ToastKind::Info);
    assert!(t.set_at.is_some(), "non-sticky toast is stamped now");
    assert_eq!(t.message, "no matches");
}

#[test]
fn toast_contains_delegates_to_message() {
    let t: Toast = "reloaded (3 files)".into();
    assert!(t.contains("reloaded"));
    assert!(!t.contains("failed"));
    assert!(!t.is_empty());
    assert!(Toast::default().is_empty());
}

#[test]
fn toast_kind_ttl_error_outlasts_info() {
    assert!(ToastKind::Error.ttl_secs() > ToastKind::Info.ttl_secs());
    assert_eq!(ToastKind::Info.ttl_secs(), ToastKind::Success.ttl_secs());
}

#[test]
fn drop_last_word_removes_trailing_word_and_ws() {
    let mut s = String::from("foo bar baz");
    drop_last_word(&mut s);
    assert_eq!(s, "foo bar");
}

#[test]
fn drop_last_word_clears_all_when_only_ws_and_word() {
    let mut s = String::from("   onlyword");
    drop_last_word(&mut s);
    assert_eq!(s, "");
}

#[test]
fn drop_last_word_handles_trailing_whitespace() {
    let mut s = String::from("foo bar   ");
    drop_last_word(&mut s);
    assert_eq!(s, "foo");
}

#[test]
fn drop_last_word_on_empty_is_noop() {
    let mut s = String::new();
    drop_last_word(&mut s);
    assert!(s.is_empty());
}

#[test]
fn drop_last_word_is_char_aware() {
    let mut s = String::from("héllo wörld");
    drop_last_word(&mut s);
    assert_eq!(s, "héllo");
}

#[test]
fn sticky_toast_is_not_stamped_and_never_expires() {
    let t = Toast::sticky("press ? for help".to_string());
    assert!(t.set_at.is_none());
    assert_eq!(t.kind, ToastKind::Info);
    assert!(!t.expired_after(1_000_000));
    assert!(!t.expired());
}

#[test]
fn stamped_toast_expires_after_its_ttl() {
    let t = Toast::stamped("saved".to_string());
    let ttl = t.kind.ttl_secs();
    assert!(!t.expired_after(ttl - 1));
    assert!(t.expired_after(ttl));
    assert!(!t.expired(), "a fresh toast has not expired");
}

#[test]
fn search_clear_resets_everything() {
    let mut s = Search::default();
    s.query = "foo".to_string();
    s.matches = vec![1, 2, 3];
    s.current = 2;
    s.active = true;
    s.clear();
    assert!(s.query.is_empty());
    assert!(s.matches.is_empty());
    assert_eq!(s.current, 0);
    assert!(!s.active);
}

#[test]
fn focus_display_formats_each_target() {
    assert_eq!(focus_display(&FocusTarget::File("a.rs".into())), "a.rs");
    assert_eq!(focus_display(&FocusTarget::FileLine("a.rs".into(), 42)), "a.rs:42");
    assert_eq!(focus_display(&FocusTarget::FileHunk("a.rs".into(), 3)), "a.rs:h3");
}

#[test]
fn review_options_default_is_empty() {
    let o = ReviewOptions::default();
    assert!(o.focus.is_none());
    assert!(o.notes.is_empty());
    assert!(!o.select_mode);
    assert!(o.session_mode.is_empty());
    assert!(o.session_title.is_empty());
    assert!(!o.watch);
}

#[test]
fn editor_argv_prefers_editor_then_visual_then_vi() {
    assert_eq!(editor_argv(Some("nvim"), Some("code"), 7), vec!["nvim", "+7"]);
    assert_eq!(editor_argv(Some("  "), Some("code -w"), 12), vec!["code", "-w", "+12"]);
    assert_eq!(editor_argv(None, None, 1), vec!["vi", "+1"]);
    assert_eq!(editor_argv(Some(""), Some(" \t"), 3), vec!["vi", "+3"]);
}

#[test]
fn editor_argv_splits_on_any_whitespace() {
    assert_eq!(
        editor_argv(Some("  emacs\t-nw  --quick "), None, 100),
        vec!["emacs", "-nw", "--quick", "+100"]
    );
}

fn entry(hunk: Option<usize>, line: Option<u32>) -> CommentEntry {
    CommentEntry {
        id: "c3".into(),
        file: "src/lib.rs".into(),
        text: "please check".into(),
        line,
        hunk,
    }
}

#[test]
fn comment_note_attaches_to_hunk_then_line_then_banner() {
    let n = comment_note(&entry(Some(2), Some(9)));
    assert_eq!(n.target, NoteTarget::Hunk { path: "src/lib.rs".into(), hunk: 2 });
    assert_eq!(n.text, "c3: please check");
    let n = comment_note(&entry(None, Some(9)));
    assert_eq!(n.target, NoteTarget::Line { path: "src/lib.rs".into(), line: 9 });
    let n = comment_note(&entry(None, None));
    assert_eq!(n.target, NoteTarget::Banner);
    assert_eq!(n.text, "c3: please check");
}

#[test]
fn comment_focus_target_refines_by_hunk_then_line() {
    assert_eq!(
        comment_focus_target(&entry(Some(2), Some(9))),
        FocusTarget::FileHunk("src/lib.rs".into(), 2)
    );
    assert_eq!(
        comment_focus_target(&entry(None, Some(9))),
        FocusTarget::FileLine("src/lib.rs".into(), 9)
    );
    assert_eq!(comment_focus_target(&entry(None, None)), FocusTarget::File("src/lib.rs".into()));
}

#[test]
fn protocol_messages_compare_by_value() {
    let push = ServerCommand::Push {
        focus: None,
        notes: vec![Note { target: NoteTarget::Banner, text: "hi".into() }],
    };
    assert_eq!(push.clone(), push);
    assert_ne!(push, ServerCommand::Decision);
    let info = ServerReply::Info { repo_path: "/tmp/repo".into(), file_count: 3 };
    assert_eq!(info.clone(), info);
    assert_ne!(ServerReply::Ack, ServerReply::Error("x".into()));
}

use next_hunk::app::{CommentEntry, Note, NoteTarget, Selections};
use next_hunk::export::{
    both_paths, build_report, emit_report, path_with_ext, to_markdown, ExportOnQuit, ReviewReport,
};

fn selections(accepted: &[&str], rejected: &[&str], undecided: &[&str]) -> Selections {
    Selections {
        accepted: accepted.iter().map(|s| s.to_string()).collect(),
        rejected: rejected.iter().map(|s| s.to_string()).collect(),
        undecided: undecided.iter().map(|s| s.to_string()).collect(),
    }
}

fn comment(id: &str, file: &str, text: &str, line: Option<u32>) -> CommentEntry {
    CommentEntry {
        id: id.to_string(),
        file: file.to_string(),
        text: text.to_string(),
        line,
        hunk: None,
    }
}

#[test]
fn build_report_combines_decisions_comments_and_notes() {
    let sels = selections(&["a.rs:h1"], &["b.rs:h1"], &["a.rs:h2"]);
    let comments = vec![comment("c0", "a.rs", "session comment", Some(3))];
    let notes = vec![
        Note { target: NoteTarget::Banner, text: "banner summary".into() },
        Note {
            target: NoteTarget::Line { path: "b.rs".into(), line: 7 },
            text: "agent line note".into(),
        },
        Note {
            target: NoteTarget::Hunk { path: "b.rs".into(), hunk: 2 },
            text: "agent hunk note".into(),
        },
    ];
    let report = build_report(&sels, &comments, &notes, &[]);
    assert_eq!(report.accepted, vec!["a.rs:h1"]);
    assert_eq!(report.rejected, vec!["b.rs:h1"]);
    assert_eq!(report.undecided, vec!["a.rs:h2"]);
    assert_eq!(report.banner.as_deref(), Some("banner summary"));
    assert_eq!(report.comments.len(), 3);
    assert_eq!(report.comments[0].id, "c0");
    assert_eq!(report.comments[1].id, "note-0");
    assert_eq!(report.comments[1].line, Some(7));
    assert_eq!(report.comments[2].id, "note-1");
    assert_eq!(report.comments[2].hunk, Some(2));
}

#[test]
fn build_report_dedupes_human_notes_already_in_comments() {
    let human = Note {
        target: NoteTarget::Line { path: "a.rs".into(), line: 42 },
        text: "looks wrong".into(),
    };
    let user_notes = vec![human.clone()];
    let comments = vec![comment("user:1", "a.rs", "looks wrong", Some(42))];
    let notes = vec![
        human,
        Note {
            target: NoteTarget::Line { path: "b.rs".into(), line: 2 },
            text: "agent note".into(),
        },
    ];
    let report = build_report(&selections(&[], &[], &[]), &comments, &notes, &user_notes);
    let ids: Vec<&str> = report.comments.iter().map(|c| c.id.as_str()).collect();
    assert_eq!(ids, vec!["user:1", "note-0"]);
    assert_eq!(report.comments[0].text, "looks wrong");
    assert_eq!(report.comments[1].file, "b.rs");
}

#[test]
fn build_report_skips_empty_banner() {
    let report = build_report(
        &selections(&[], &[], &[]),
        &[],
        &[Note { target: NoteTarget::Banner, text: String::new() }],
        &[],
    );
    assert_eq!(report.banner, None);
}

#[test]
fn build_report_joins_several_banners() {
    let report = build_report(
        &selections(&[], &[], &[]),
        &[],
        &[
            Note { target: NoteTarget::Banner, text: "one".into() },
            Note { target: NoteTarget::Banner, text: String::new() },
            Note { target: NoteTarget::Banner, text: "two".into() },
        ],
        &[],
    );
    assert_eq!(report.banner.as_deref(), Some("one; two"));
}

#[test]
fn build_report_mirror_absorbs_only_one_copy() {
    let human = Note {
        target: NoteTarget::Hunk { path: "a.rs".into(), hunk: 1 },
        text: "same".into(),
    };
    let report = build_report(
        &selections(&[], &[], &[]),
        &[],
        &[human.clone(), human.clone()],
        &[human],
    );
    assert_eq!(report.comments.len(), 1);
    assert_eq!(report.comments[0].id, "note-0");
    assert_eq!(report.comments[0].hunk, Some(1));
}

#[test]
fn as_selections_copies_the_decision_buckets() {
    let report = build_report(&selections(&["x"], &["y"], &["z"]), &[], &[], &[]);
    let s = report.as_selections();
    assert_eq!(s.accepted, vec!["x"]);
    assert_eq!(s.rejected, vec!["y"]);
    assert_eq!(s.undecided, vec!["z"]);
}

#[test]
fn markdown_report_renders_decisions_and_comments() {
    let report = ReviewReport {
        accepted: vec!["a.rs:h1".into()],
        rejected: vec![],
        undecided: vec!["a.rs:h2".into(), "b.rs:h1".into()],
        comments: vec![
            comment("user:1", "a.rs", "looks wrong", Some(42)),
            comment("note-0", "b.rs", "check this", None),
        ],
        banner: Some("Auth refactor".into()),
    };
    let md = to_markdown(&report);
    assert!(md.starts_with("# next-hunk review report\n"));
    assert!(md.contains("## Banner\n\nAuth refactor"));
    assert!(md.contains("### Accepted\n\n- `a.rs:h1`\n"));
    assert!(md.contains("### Rejected\n\n_(none)_\n"));
    assert!(md.contains("- `a.rs:h2`\n- `b.rs:h1`\n"));
    assert!(md.contains("### `user:1` — a.rs:42\n\n> looks wrong"));
    assert!(md.contains("### `note-0` — b.rs\n\n> check this"));
}

#[test]
fn markdown_body_is_blockquoted_and_multi_line_safe() {
    let report = ReviewReport {
        banner: None,
        comments: vec![
            CommentEntry {
                id: "c1".into(),
                file: "a.rs".into(),
                text: "line one\n# looks like a heading\nline three".into(),
                line: Some(1),
                hunk: None,
            },
            CommentEntry {
                id: "c2".into(),
                file: String::new(),
                text: String::new(),
                line: None,
                hunk: None,
            },
        ],
        accepted: vec![],
        rejected: vec![],
        undecided: vec![],
    };
    let md = to_markdown(&report);
    assert!(md.contains("> line one\n> # looks like a heading\n> line three"));
    assert!(!md.contains("\n# looks like a heading"));
    assert!(md.contains("### `c2` — banner\n\n"));
}

#[test]
fn markdown_report_without_banner_or_comments() {
    let report = ReviewReport {
        accepted: vec![],
        rejected: vec![],
        undecided: vec![],
        comments: vec![],
        banner: None,
    };
    let md = to_markdown(&report);
    assert!(!md.contains("## Banner"));
    assert!(md.contains("## Comments\n\n_(none)_\n"));
}

#[test]
fn markdown_names_hunk_comments_by_hunk() {
    let report = ReviewReport {
        accepted: vec![],
        rejected: vec![],
        undecided: vec![],
        comments: vec![CommentEntry {
            id: "c9".into(),
            file: "x.rs".into(),
            text: "a\r\nb".into(),
            line: None,
            hunk: Some(4),
        }],
        banner: None,
    };
    let md = to_markdown(&report);
    assert!(md.contains("### `c9` — x.rs:h4\n\n> a\n> b\n"), "{md}");
}

#[test]
fn emit_none_select_prints_legacy_json_only() {
    let sel = "{\"accepted\":[\"a.rs:h1\"],\"rejected\":[],\"undecided\":[]}";
    let writes = emit_report(ExportOnQuit::Nothing, true, None, sel, "{\"full\":1}", "# md\n");
    assert_eq!(writes, vec![(None, format!("{sel}\n"))]);
    let writes = emit_report(ExportOnQuit::Nothing, false, None, sel, "{\"full\":1}", "# md\n");
    assert!(writes.is_empty());
}

#[test]
fn emit_writes_files_with_extension_handling() {
    let json = "{\"accepted\":[\"a.rs:h1\"]}";
    let md = "# next-hunk review report\n";
    let w = emit_report(ExportOnQuit::Json, false, Some("/tmp/x/report.json"), "", json, md);
    assert_eq!(w, vec![(Some("/tmp/x/report.json".to_string()), format!("{json}\n"))]);
    let w = emit_report(ExportOnQuit::Markdown, false, Some("/tmp/x/report"), "", json, md);
    assert_eq!(w, vec![(Some("/tmp/x/report.md".to_string()), md.to_string())]);
    let w = emit_report(ExportOnQuit::Both, false, Some("/tmp/x/report2.json"), "", json, md);
    assert_eq!(
        w,
        vec![
            (Some("/tmp/x/report2.json".to_string()), format!("{json}\n")),
            (Some("/tmp/x/report2.md".to_string()), md.to_string()),
        ]
    );
}

#[test]
fn emit_both_to_stdout_separates_json_and_markdown() {
    let w = emit_report(ExportOnQuit::Both, true, None, "sel", "{}", "# md\n");
    assert_eq!(w, vec![(None, "{}\n---\n# md\n".to_string())]);
    let w = emit_report(ExportOnQuit::Json, true, None, "sel", "{}", "# md\n");
    assert_eq!(w, vec![(None, "{}\n".to_string())]);
}

#[test]
fn path_with_ext_keeps_or_replaces_extension() {
    assert_eq!(path_with_ext("out/r.JSON", "json"), "out/r.JSON");
    assert_eq!(path_with_ext("out/r.markdown", "md"), "out/r.markdown");
    assert_eq!(path_with_ext("out/r.txt", "md"), "out/r.md");
    assert_eq!(path_with_ext("out/r", "json"), "out/r.json");
}

#[test]
fn both_paths_share_the_stem() {
    assert_eq!(
        both_paths("out/report.json"),
        ("out/report.json".to_string(), "out/report.md".to_string())
    );
    assert_eq!(both_paths("report"), ("report.json".to_string(), "report.md".to_string()));
}

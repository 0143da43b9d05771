use next_hunk::marks::{clear_highlights, line_marks, new_highlight_mark, HighlightMark};

fn mark(id: &str, file: &str, line: u32, start: usize, end: usize, tone: &str) -> HighlightMark {
    HighlightMark {
        id: id.to_string(),
        file: file.to_string(),
        line,
        start,
        end,
        tone: tone.to_string(),
    }
}

fn marks() -> Vec<HighlightMark> {
    vec![
        mark("hl0", "a.rs", 3, 2, 5, "danger"),
        mark("hl1", "b.rs", 3, 1, 2, "info"),
        mark("hl2", "a.rs", 3, 1, 2, "accent"),
        mark("hl3", "a.rs", 4, 1, 9, "warning"),
    ]
}

#[test]
fn only_the_marks_of_this_line_are_painted_in_order() {
    let got = line_marks(&marks(), "a.rs", Some(3), None, 4);
    assert_eq!(got, vec![(2, 5, "danger".to_string()), (1, 2, "accent".to_string())]);
    assert!(line_marks(&marks(), "a.rs", None, None, 4).is_empty());
}

#[test]
fn mark_ranges_follow_the_tab_expansion() {
    let m = vec![mark("hl0", "a.rs", 1, 2, 3, "info")];
    assert_eq!(line_marks(&m, "a.rs", Some(1), Some("\tx"), 4), vec![(5, 6, "info".to_string())]);
    assert_eq!(line_marks(&m, "a.rs", Some(1), Some("ab"), 4), vec![(2, 3, "info".to_string())]);
}

#[test]
fn a_new_mark_is_validated_and_defaults_to_warning() {
    let m = new_highlight_mark("a.rs".to_string(), 7, 1, 4, String::new(), 2).unwrap();
    assert_eq!((m.id.as_str(), m.tone.as_str(), m.line, m.start, m.end), ("hl2", "warning", 7, 1, 4));
    let m = new_highlight_mark("a.rs".to_string(), 7, 1, 4, "danger".to_string(), 0).unwrap();
    assert_eq!(m.tone, "danger");
    let e = new_highlight_mark("a.rs".to_string(), 7, 4, 4, String::new(), 0).unwrap_err();
    assert_eq!(e, "highlight range must satisfy 1 <= start < end (got 4..4)");
}

#[test]
fn clearing_by_file_keeps_the_other_files_marks() {
    let mut m = marks();
    assert_eq!(clear_highlights(&mut m, Some("a.rs")), 3);
    let ids: Vec<&str> = m.iter().map(|x| x.id.as_str()).collect();
    assert_eq!(ids, vec!["hl1"]);
    assert_eq!(clear_highlights(&mut m, Some("zzz")), 0);
    assert_eq!(clear_highlights(&mut m, None), 1);
    assert!(m.is_empty());
}

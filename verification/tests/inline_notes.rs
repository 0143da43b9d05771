use next_hunk::inline_notes::{inline_note, note_fallback};

fn strings(v: &[&str]) -> Vec<String> {
    v.iter().map(|s| s.to_string()).collect()
}

#[test]
fn a_note_that_fits_ends_at_the_right_edge() {
    let got = inline_note(&strings(&["+", "let x = 1;"]), &strings(&["check this"]), 40);
    assert_eq!(got, Some((15, " 💬 check this".to_string())));
}

#[test]
fn several_notes_are_joined_with_a_middle_dot() {
    let got = inline_note(&strings(&["+"]), &strings(&["a", "b"]), 20);
    assert_eq!(got, Some((10, " 💬 a · b".to_string())));
}

#[test]
fn a_note_needs_one_blank_column_of_separation() {
    let line = strings(&["xxxxxxxxxx"]);
    let notes = strings(&["check this"]);
    assert_eq!(inline_note(&line, &notes, 24), None);
    assert_eq!(inline_note(&line, &notes, 25), Some((1, " 💬 check this".to_string())));
}

#[test]
fn notes_that_do_not_fit_go_on_rows_below_and_the_tint_stretches() {
    let (fill, rows) = note_fallback(&strings(&["+", "code"]), &strings(&["n1", "n2"]), Some(10));
    assert_eq!(fill, Some(5));
    assert_eq!(rows, strings(&["  ╰─ 💬 n1", "  ╰─ 💬 n2"]));
    let (fill, rows) = note_fallback(&strings(&["+", "code"]), &strings(&[]), None);
    assert_eq!(fill, None);
    assert!(rows.is_empty());
    let (fill, _) = note_fallback(&strings(&["+", "code"]), &strings(&[]), Some(3));
    assert_eq!(fill, None);
}

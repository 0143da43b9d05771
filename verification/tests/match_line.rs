use next_hunk::match_line::{current_match_pieces, match_ranges, split_at_ranges};

fn runs(parts: &[(u8, &str)]) -> Vec<(u8, String)> {
    parts.iter().map(|(s, t)| (*s, t.to_string())).collect()
}

fn pieces(parts: &[(u8, bool, &str)]) -> Vec<(u8, bool, String)> {
    parts.iter().map(|(s, f, t)| (*s, *f, t.to_string())).collect()
}

#[test]
fn current_match_is_found_case_insensitively_in_every_run() {
    let line = runs(&[(1, "let foo"), (2, " = Foo;")]);
    let got = current_match_pieces(&line, "FOO");
    assert_eq!(
        got,
        Some(pieces(&[
            (1, false, "let "),
            (1, true, "foo"),
            (2, false, " = "),
            (2, true, "Foo"),
            (2, false, ";"),
        ]))
    );
}

#[test]
fn a_match_across_two_runs_keeps_each_runs_style() {
    let line = runs(&[(1, "fo"), (2, "obar")]);
    let got = current_match_pieces(&line, "foo");
    assert_eq!(got, Some(pieces(&[(1, true, "fo"), (2, true, "o"), (2, false, "bar")])));
}

#[test]
fn empty_needle_paints_the_whole_row() {
    let line = runs(&[(1, "anything")]);
    assert_eq!(current_match_pieces(&line, ""), None);
}

#[test]
fn no_match_paints_the_whole_row() {
    let line = runs(&[(1, "alpha"), (2, "beta")]);
    assert_eq!(current_match_pieces(&line, "gamma"), None);
}

#[test]
fn matches_do_not_overlap() {
    let hay: Vec<char> = "aaaa".chars().collect();
    let needle: Vec<char> = "aa".chars().collect();
    assert_eq!(match_ranges(&hay, &needle, 4), vec![(0, 2), (2, 4)]);
    let hay3: Vec<char> = "aaa".chars().collect();
    assert_eq!(match_ranges(&hay3, &needle, 3), vec![(0, 2)]);
}

#[test]
fn the_scan_stops_once_a_match_reaches_the_limit() {
    let hay: Vec<char> = "abab".chars().collect();
    let needle: Vec<char> = "ab".chars().collect();
    assert_eq!(match_ranges(&hay, &needle, 2), vec![(0, 2)]);
    assert_eq!(match_ranges(&hay, &needle, 4), vec![(0, 2), (2, 4)]);
}

#[test]
fn split_at_ranges_merges_adjacent_ranges_into_one_piece() {
    let line = runs(&[(7, "abcdef")]);
    let got = split_at_ranges(&line, &vec![(1, 2), (2, 4)]);
    assert_eq!(got, pieces(&[(7, false, "a"), (7, true, "bcd"), (7, false, "ef")]));
}

#[test]
fn split_at_ranges_drops_empty_runs_and_keeps_the_text() {
    let line = runs(&[(1, ""), (2, "xyz"), (3, ""), (4, "w")]);
    let got = split_at_ranges(&line, &vec![(2, 4)]);
    assert_eq!(got, pieces(&[(2, false, "xy"), (2, true, "z"), (4, true, "w")]));
    let text: String = got.iter().map(|(_, _, t)| t.as_str()).collect();
    assert_eq!(text, "xyzw");
}

use next_hunk::file_header::{file_header, HeaderStyle};
use next_hunk::view::ChangeKind;

fn texts(v: &[(HeaderStyle, String)]) -> Vec<(HeaderStyle, &str)> {
    v.iter().map(|(s, t)| (*s, t.as_str())).collect()
}

#[test]
fn the_tally_is_right_aligned_by_the_rule() {
    let h = file_header("src/main.rs", None, ChangeKind::Modified, 12, 3, 60, 8, 2);
    let rule = "─".repeat(20);
    assert_eq!(
        texts(&h),
        vec![
            (HeaderStyle::Rule, "─── "),
            (HeaderStyle::Chip(ChangeKind::Modified), "M"),
            (HeaderStyle::Path, " src/main.rs "),
            (HeaderStyle::Rule, rule.as_str()),
            (HeaderStyle::Gap, " "),
            (HeaderStyle::Plus, "+12 "),
            (HeaderStyle::PlusBar, "████████"),
            (HeaderStyle::Gap, " "),
            (HeaderStyle::MinusBar, "██"),
            (HeaderStyle::Minus, " −3"),
        ]
    );
}

#[test]
fn a_rename_shows_where_it_came_from_and_no_tally_without_changes() {
    let h = file_header("new.rs", Some("old.rs"), ChangeKind::Renamed, 0, 0, 80, 0, 0);
    assert_eq!(
        texts(&h),
        vec![
            (HeaderStyle::Rule, "─── "),
            (HeaderStyle::Chip(ChangeKind::Renamed), "R"),
            (HeaderStyle::Path, " new.rs "),
            (HeaderStyle::Origin, " (from old.rs)"),
            (HeaderStyle::Rule, "───"),
        ]
    );
}

#[test]
fn a_narrow_pane_keeps_two_rule_cells_and_delete_only_tally() {
    let h = file_header("a.rs", Some("a.rs"), ChangeKind::Modified, 0, 5, 10, 0, 10);
    assert_eq!(
        texts(&h),
        vec![
            (HeaderStyle::Rule, "─── "),
            (HeaderStyle::Chip(ChangeKind::Modified), "M"),
            (HeaderStyle::Path, " a.rs "),
            (HeaderStyle::Rule, "──"),
            (HeaderStyle::Gap, " "),
            (HeaderStyle::MinusBar, "██████████"),
            (HeaderStyle::Minus, " −5"),
        ]
    );
}

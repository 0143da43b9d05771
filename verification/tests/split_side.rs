use next_hunk::split_side::{
    clip_side, empty_side, line_number_gutter, side_gutter, split_column_width, unchanged_marker,
};

fn runs(parts: &[(u8, &str)]) -> Vec<(u8, String)> {
    parts.iter().map(|(s, t)| (*s, t.to_string())).collect()
}

fn chunks(parts: &[(u8, &str)]) -> Vec<(u8, String)> {
    runs(parts)
}

#[test]
fn a_long_line_is_cut_at_the_column_width() {
    let r = clip_side(&runs(&[(1, "hello"), (2, " world")]), "hello world", 8);
    assert_eq!(r.chunks, chunks(&[(1, "hello"), (2, " wo")]));
    assert!(!r.ellipsis);
    assert_eq!(r.pad, 0);
}

#[test]
fn a_short_line_is_padded_to_the_width() {
    let r = clip_side(&runs(&[(1, "hello"), (2, " world")]), "hello world", 20);
    assert_eq!(r.chunks, chunks(&[(1, "hello"), (2, " world")]));
    assert!(!r.ellipsis);
    assert_eq!(r.pad, 9);
}

#[test]
fn a_wide_character_that_does_not_fit_leaves_room_for_the_ellipsis() {
    let r = clip_side(&runs(&[(1, "ab"), (2, "漢x")]), "ab漢x", 3);
    assert_eq!(r.chunks, chunks(&[(1, "ab")]));
    assert!(r.ellipsis);
    assert_eq!(r.pad, 0);
}

#[test]
fn the_next_run_goes_on_from_the_same_column() {
    let r = clip_side(&runs(&[(1, "a漢"), (2, "b")]), "a漢b", 2);
    assert_eq!(r.chunks, chunks(&[(1, "a"), (2, "b")]));
    assert!(!r.ellipsis);
    assert_eq!(r.pad, 0);
}

#[test]
fn a_zero_width_side_keeps_nothing() {
    let r = clip_side(&runs(&[(1, "abc")]), "abc", 0);
    assert!(r.chunks.is_empty());
    assert!(!r.ellipsis);
    assert_eq!(r.pad, 0);
}

#[test]
fn side_gutter_right_aligns_in_five_columns() {
    assert_eq!(side_gutter(Some(42)), "   42 ");
    assert_eq!(side_gutter(Some(123456)), "123456 ");
    assert_eq!(side_gutter(None), "      ");
}

#[test]
fn an_empty_side_is_blank_across_gutter_sign_and_code() {
    assert_eq!(empty_side(3), " ".repeat(10));
}

#[test]
fn split_columns_leave_room_for_gutters_signs_and_divider() {
    assert_eq!(split_column_width(120), 51);
    assert_eq!(split_column_width(17), 0);
    assert_eq!(split_column_width(10), 0);
    assert_eq!(split_column_width(80), 31);
}

#[test]
fn the_unified_gutter_right_aligns_both_numbers() {
    assert_eq!(line_number_gutter(Some(7), Some(12)), "     7    12 ");
    assert_eq!(line_number_gutter(None, Some(123456)), "       123456 ");
    assert_eq!(unchanged_marker(14), "  ··· 14 unchanged lines ···");
}

use next_hunk::view::change_bar_split;

/// The front end's split: the insert share rounded to whole cells, then the
/// library's clamping.
fn change_bar_cells(inserts: u64, deletes: u64, total: usize) -> (usize, usize) {
    let total_n = inserts + deletes;
    if total_n == 0 {
        return (0, 0);
    }
    let rounded = ((inserts as f64 / total_n as f64) * total as f64).round() as usize;
    change_bar_split(inserts, deletes, total, rounded)
}

#[test]
fn change_bar_cells_split_proportionally() {
    assert_eq!(change_bar_cells(1, 4, 10), (2, 8));
    assert_eq!(change_bar_cells(3, 0, 10), (10, 0));
    assert_eq!(change_bar_cells(0, 3, 10), (0, 10));
    assert_eq!(change_bar_cells(0, 0, 10), (0, 0));
    // tiny counts still show one cell per nonzero side
    assert_eq!(change_bar_cells(1, 100, 10), (1, 9));
}

#[test]
fn change_bar_split_clamps_the_rounded_share() {
    assert_eq!(change_bar_split(5, 5, 10, 5), (5, 5));
    assert_eq!(change_bar_split(9, 1, 10, 10), (9, 1), "a delete keeps its cell");
    assert_eq!(change_bar_split(1, 9, 10, 0), (1, 9), "an insert keeps its cell");
    assert_eq!(change_bar_split(2, 2, 1, 1), (1, 1), "each nonzero side shows even past the width");
    assert_eq!(change_bar_split(0, 0, 10, 7), (0, 0));
}

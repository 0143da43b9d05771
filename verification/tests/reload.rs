use next_hunk::app::{Decision, HunkId};
use next_hunk::reload::carry_over;

fn strings(v: &[&str]) -> Vec<String> {
    v.iter().map(|s| s.to_string()).collect()
}

fn id(f: usize, h: usize) -> HunkId {
    HunkId { file_idx: f, hunk_idx: h }
}

#[test]
fn the_place_follows_files_by_path_across_a_reload() {
    let old = strings(&["a.rs", "b.rs", "c.rs"]);
    let new = vec![("c.rs".to_string(), 1), ("b.rs".to_string(), 3), ("d.rs".to_string(), 2)];
    let decisions = vec![
        (id(1, 2), Decision::Accept),
        (id(0, 0), Decision::Reject),
        (id(2, 1), Decision::Reject),
        (id(2, 0), Decision::Accept),
        (id(9, 0), Decision::Accept),
    ];
    let folded = vec![2, 0, 1];
    let r = carry_over(&old, "b.rs", &new, &decisions, &folded);
    assert_eq!(r.selected, 1);
    assert_eq!(r.decisions, vec![(id(1, 2), Decision::Accept), (id(0, 0), Decision::Accept)]);
    assert_eq!(r.folded, vec![0, 1]);
}

#[test]
fn a_vanished_selection_falls_back_to_the_first_file() {
    let old = strings(&["a.rs"]);
    let new = vec![("z.rs".to_string(), 1)];
    let r = carry_over(&old, "a.rs", &new, &vec![], &vec![0]);
    assert_eq!(r.selected, 0);
    assert!(r.decisions.is_empty());
    assert!(r.folded.is_empty());
}

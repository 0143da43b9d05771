use next_hunk::stack_plan::{stack_plan, LineKind, StackItem, StackRow};

#[test]
fn each_file_gets_an_old_block_then_a_new_block() {
    let rows = vec![
        (0, StackRow::FileHeader),
        (0, StackRow::HunkHeader),
        (0, StackRow::Line(LineKind::Context)),
        (0, StackRow::Line(LineKind::Delete)),
        (0, StackRow::Line(LineKind::Add)),
        (0, StackRow::Unchanged),
        (1, StackRow::FileHeader),
        (1, StackRow::Line(LineKind::Add)),
    ];
    assert_eq!(
        stack_plan(&rows),
        vec![
            StackItem::Title(0),
            StackItem::OldLabel,
            StackItem::Row(2),
            StackItem::Row(3),
            StackItem::Unchanged(5),
            StackItem::NewLabel,
            StackItem::Row(2),
            StackItem::Row(4),
            StackItem::Title(1),
            StackItem::OldLabel,
            StackItem::NewLabel,
            StackItem::Row(7),
        ]
    );
}

#[test]
fn a_file_header_between_rows_of_one_file_does_not_split_its_group() {
    let rows = vec![
        (3, StackRow::Line(LineKind::Meta)),
        (4, StackRow::FileHeader),
        (3, StackRow::Pair),
    ];
    assert_eq!(
        stack_plan(&rows),
        vec![StackItem::Title(3), StackItem::OldLabel, StackItem::Row(0), StackItem::NewLabel, StackItem::Row(0)]
    );
}

#[test]
fn no_rows_no_lines() {
    assert!(stack_plan(&Vec::new()).is_empty());
}

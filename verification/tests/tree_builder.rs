use kam::tree::builder::flatten;
use kam::tree::record::{FlattenedItem, TaskRecord};

fn builder_record(id: i64, parent: Option<i64>) -> TaskRecord {
    TaskRecord { id, name: format!("task {id}"), complete: false, parent }
}

fn builder_depths(items: &[FlattenedItem]) -> Vec<u128> {
    items.iter().map(|item| item.depth).collect()
}

#[test]
fn root_child_root_gives_depths_0_2_0_and_an_empty_stack() {
    let records = vec![builder_record(1, None), builder_record(2, Some(1)), builder_record(3, None)];
    let mut stack = Vec::new();
    let items = flatten(&records, &mut stack, 2);
    assert_eq!(builder_depths(&items), vec![0, 2, 0]);
    assert!(stack.is_empty());
}

#[test]
fn chain_of_three_gives_depths_0_2_4() {
    let records =
        vec![builder_record(1, None), builder_record(2, Some(1)), builder_record(3, Some(2))];
    let mut stack = Vec::new();
    let items = flatten(&records, &mut stack, 2);
    assert_eq!(builder_depths(&items), vec![0, 2, 4]);
    assert_eq!(stack, vec![1, 2]);
}

#[test]
fn flatten_keeps_length_order_and_fields() {
    let records = vec![
        TaskRecord { id: 10, name: "write".to_string(), complete: false, parent: None },
        TaskRecord { id: 4, name: "read".to_string(), complete: true, parent: Some(10) },
        TaskRecord { id: 7, name: String::new(), complete: false, parent: Some(10) },
    ];
    let mut stack = Vec::new();
    let items = flatten(&records, &mut stack, 3);
    assert_eq!(items.len(), records.len());
    for (item, record) in items.iter().zip(records.iter()) {
        assert_eq!(item.id, record.id);
        assert_eq!(item.content, record.name.as_str());
        assert_eq!(item.complete, record.complete);
    }
    assert_eq!(builder_depths(&items), vec![0, 3, 3]);
}

#[test]
fn flatten_of_no_records_leaves_the_stack_alone() {
    let records: Vec<TaskRecord> = Vec::new();
    let mut stack = vec![5, 6];
    let items = flatten(&records, &mut stack, 2);
    assert!(items.is_empty());
    assert_eq!(stack, vec![5, 6]);
}

#[test]
fn every_depth_is_a_multiple_of_the_indent_unit() {
    let records = vec![
        builder_record(1, Some(9)),
        builder_record(2, Some(1)),
        builder_record(3, Some(2)),
        builder_record(4, Some(1)),
        builder_record(5, None),
        builder_record(6, Some(5)),
    ];
    let mut stack = vec![40, 41];
    let items = flatten(&records, &mut stack, 7);
    assert_eq!(builder_depths(&items), vec![21, 28, 35, 28, 0, 7]);
    for item in &items {
        assert_eq!(item.depth % 7, 0);
    }
}

#[test]
fn a_root_clears_whatever_the_stack_held() {
    let records = vec![builder_record(1, None), builder_record(2, Some(77))];
    let mut stack = vec![3, 4, 5];
    let items = flatten(&records, &mut stack, 4);
    assert_eq!(builder_depths(&items), vec![0, 4]);
    assert_eq!(stack, vec![77]);
}

#[test]
fn two_roots_in_a_row_both_have_depth_zero() {
    let records = vec![builder_record(1, None), builder_record(2, None)];
    let mut stack = vec![9];
    let items = flatten(&records, &mut stack, 2);
    assert_eq!(builder_depths(&items), vec![0, 0]);
    assert!(stack.is_empty());
}

#[test]
fn a_parent_on_the_stack_cuts_the_stack_behind_it() {
    let records = vec![
        builder_record(2, Some(1)),
        builder_record(3, Some(2)),
        builder_record(4, Some(3)),
        builder_record(5, Some(1)),
    ];
    let mut stack = Vec::new();
    let items = flatten(&records, &mut stack, 1);
    assert_eq!(builder_depths(&items), vec![1, 2, 3, 1]);
    assert_eq!(stack, vec![1]);
}

#[test]
fn an_unknown_parent_is_pushed_without_validation() {
    let records = vec![builder_record(1, None), builder_record(2, Some(1)), builder_record(3, Some(99))];
    let mut stack = Vec::new();
    let items = flatten(&records, &mut stack, 2);
    assert_eq!(builder_depths(&items), vec![0, 2, 4]);
    assert_eq!(stack, vec![1, 99]);
}

#[test]
fn the_first_of_two_equal_ids_on_the_stack_is_the_one_found() {
    let records = vec![builder_record(1, Some(7))];
    let mut stack = vec![7, 8, 7];
    let items = flatten(&records, &mut stack, 2);
    assert_eq!(builder_depths(&items), vec![2]);
    assert_eq!(stack, vec![7]);
}

#[test]
fn the_stack_carries_over_from_one_call_to_the_next() {
    let records = vec![builder_record(1, Some(1)), builder_record(2, None), builder_record(3, Some(5))];
    let mut stack = Vec::new();
    let first = builder_depths(&flatten(&records, &mut stack, 2));
    assert_eq!(first, vec![2, 0, 2]);
    assert_eq!(stack, vec![5]);
    let second = builder_depths(&flatten(&records, &mut stack, 2));
    assert_eq!(second, vec![4, 0, 2]);
    assert_eq!(stack, vec![5]);
}

#[test]
fn records_that_open_with_a_root_look_the_same_on_any_stack() {
    let records = vec![builder_record(1, None), builder_record(2, Some(1)), builder_record(3, Some(2))];
    let mut empty = Vec::new();
    let mut full = vec![2, 1, 3];
    let one = builder_depths(&flatten(&records, &mut empty, 2));
    let other = builder_depths(&flatten(&records, &mut full, 2));
    assert_eq!(one, other);
    assert_eq!(empty, full);
}

#[test]
fn an_indent_unit_of_zero_gives_depth_zero_everywhere() {
    let records = vec![builder_record(1, Some(3)), builder_record(2, Some(4))];
    let mut stack = Vec::new();
    let items = flatten(&records, &mut stack, 0);
    assert_eq!(builder_depths(&items), vec![0, 0]);
    assert_eq!(stack, vec![3, 4]);
}

#[test]
fn depths_past_the_range_of_usize_are_exact() {
    let records = vec![builder_record(1, Some(8)), builder_record(2, Some(9))];
    let mut stack = Vec::new();
    let items = flatten(&records, &mut stack, usize::MAX);
    assert_eq!(builder_depths(&items), vec![usize::MAX as u128, 2 * (usize::MAX as u128)]);
    assert_eq!(items[1].depth % (usize::MAX as u128), 0);
}

use raytrace::application::bvh::{child_ranges, partition_range};

#[test]
fn partition_exchanges_left_items_with_lowest_waiting_right_items() {
    let mut items: Vec<u32> = vec![0, 1, 2, 3, 4, 5];
    let mut centers: Vec<char> = vec!['a', 'b', 'c', 'd', 'e', 'f'];
    let goes_left = vec![false, true, false, false, true, true];
    let last_left = partition_range(&mut items, &mut centers, &goes_left, 0, 6);
    assert_eq!(items, vec![1, 0, 4, 5, 2, 3]);
    assert_eq!(centers, vec!['b', 'a', 'e', 'f', 'c', 'd']);
    assert_eq!(last_left, 3);
}

#[test]
fn partition_leaves_the_outside_alone() {
    let mut items: Vec<u32> = vec![9, 9, 0, 1, 2, 8];
    let mut centers: Vec<u32> = vec![9, 9, 0, 1, 2, 8];
    let goes_left = vec![false, false, true];
    let last_left = partition_range(&mut items, &mut centers, &goes_left, 2, 5);
    assert_eq!(items, vec![9, 9, 2, 1, 0, 8]);
    assert_eq!(centers, items);
    assert_eq!(last_left, 2);
}

#[test]
fn partition_with_only_left_items_keeps_the_order() {
    let mut items: Vec<u32> = vec![0, 1, 2];
    let mut centers: Vec<u32> = vec![0, 1, 2];
    let last_left = partition_range(&mut items, &mut centers, &vec![true, true, true], 0, 3);
    assert_eq!(items, vec![0, 1, 2]);
    assert_eq!(last_left, 2);
}

#[test]
fn partition_of_an_empty_range() {
    let mut items: Vec<u32> = vec![7];
    let mut centers: Vec<u32> = vec![7];
    assert_eq!(partition_range(&mut items, &mut centers, &vec![], 1, 1), 1);
    assert_eq!(items, vec![7]);
}

#[test]
fn child_ranges_split_at_the_last_left_item() {
    assert_eq!(child_ranges(0, 6, 3), (Some((0, 3)), Some((3, 3))));
    assert_eq!(child_ranges(2, 3, 2), (None, Some((2, 3))));
    assert_eq!(child_ranges(4, 0, 4), (None, None));
    assert_eq!(child_ranges(1, 5, 5), (Some((1, 4)), Some((5, 1))));
}

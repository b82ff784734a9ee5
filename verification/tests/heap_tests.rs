use raytrace::utils::{generate_random_id, EntityCount, MinHeap};

#[test]
fn new_heap_is_empty() {
    let mut h: MinHeap<u64> = MinHeap::new();
    assert!(h.is_empty());
    assert_eq!(h.len(), 0);
    assert_eq!(h.peek(), None);
    assert_eq!(h.pop(), None);
}

#[test]
fn pops_come_out_smallest_first() {
    let mut h: MinHeap<usize> = MinHeap::new();
    for x in [5usize, 3, 8, 1, 9, 3, 7, 0, 12, 4] {
        h.push(x);
    }
    assert_eq!(h.len(), 10);
    assert_eq!(h.peek(), Some(&0));
    let mut out = Vec::new();
    while let Some(x) = h.pop() {
        out.push(x);
    }
    assert_eq!(out, vec![0, 1, 3, 3, 4, 5, 7, 8, 9, 12]);
    assert!(h.is_empty());
}

#[test]
fn peek_matches_pop() {
    let mut h: MinHeap<i32> = MinHeap::new();
    h.push(-4);
    h.push(10);
    h.push(-7);
    let seen = *h.peek().unwrap();
    assert_eq!(h.pop(), Some(seen));
    assert_eq!(seen, -7);
    assert_eq!(h.len(), 2);
}

#[test]
fn single_item_comes_back() {
    let mut h: MinHeap<u8> = MinHeap::new();
    h.push(42);
    assert_eq!(h.pop(), Some(42));
    assert_eq!(h.pop(), None);
}

#[test]
fn interleaved_pushes_and_pops() {
    let mut h: MinHeap<u32> = MinHeap::new();
    h.push(6);
    h.push(2);
    assert_eq!(h.pop(), Some(2));
    h.push(1);
    h.push(9);
    assert_eq!(h.pop(), Some(1));
    assert_eq!(h.pop(), Some(6));
    assert_eq!(h.pop(), Some(9));
    assert!(h.is_empty());
}

#[test]
fn heap_of_strings() {
    let mut h: MinHeap<String> = MinHeap::new();
    h.push("pear".to_string());
    h.push("apple".to_string());
    h.push("fig".to_string());
    assert_eq!(h.pop().as_deref(), Some("apple"));
    assert_eq!(h.pop().as_deref(), Some("fig"));
    assert_eq!(h.pop().as_deref(), Some("pear"));
}

#[test]
fn entity_count_holds_count() {
    let c = EntityCount { count: 3 };
    let d = c;
    assert_eq!(d.count, 3);
}

#[test]
fn random_ids_are_u32() {
    let a = generate_random_id();
    let b = generate_random_id();
    let _ = (a, b);
}

#[test]
fn peek_and_pop_agree_with_equal_items() {
    let mut h: MinHeap<(u8, u8)> = MinHeap::new();
    h.push((3, 1));
    h.push((1, 9));
    h.push((1, 9));
    h.push((2, 0));
    while !h.is_empty() {
        let seen = *h.peek().unwrap();
        assert_eq!(h.pop(), Some(seen));
    }
    assert_eq!(h.peek(), None);
}

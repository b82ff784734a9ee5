use raytrace::rendering::needs_larger_buffer;

#[test]
fn buffer_is_large_enough_when_sizes_match() {
    assert!(!needs_larger_buffer(4, 48, 192));
}

#[test]
fn buffer_is_too_small_by_one_item() {
    assert!(needs_larger_buffer(5, 48, 192));
}

#[test]
fn empty_list_never_needs_a_larger_buffer() {
    assert!(!needs_larger_buffer(0, 48, 0));
}

#[test]
fn larger_buffer_than_needed_is_kept() {
    assert!(!needs_larger_buffer(2, 48, 1000));
}

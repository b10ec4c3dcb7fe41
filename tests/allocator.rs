use inert::allocator::{cut, get_overlap, subtract_rect};
use inert::mjpeg::find_marker;
use inert::{ItemAllocator, Rectangle};

fn rect(x: usize, y: usize, width: usize, height: usize) -> Rectangle {
    Rectangle { x, y, width, height }
}

#[test]
fn overlap_of_rectangles() {
    assert_eq!(get_overlap(&rect(0, 0, 10, 10), &rect(5, 5, 10, 10)), Some(rect(5, 5, 5, 5)));
    assert_eq!(get_overlap(&rect(0, 0, 10, 10), &rect(10, 0, 5, 5)), None);
    assert_eq!(get_overlap(&rect(0, 0, 10, 10), &rect(2, 3, 1, 1)), Some(rect(2, 3, 1, 1)));
}

#[test]
fn subtract_middle_leaves_four_pieces() {
    let pieces = subtract_rect(&rect(0, 0, 10, 10), &rect(3, 3, 4, 4));
    assert_eq!(
        pieces,
        vec![rect(0, 0, 10, 3), rect(0, 7, 10, 3), rect(0, 3, 3, 4), rect(7, 3, 3, 4)]
    );
    let area: usize = pieces.iter().map(|r| r.width * r.height).sum();
    assert_eq!(area, 100 - 16);
}

#[test]
fn subtract_corner_and_whole() {
    assert_eq!(
        subtract_rect(&rect(0, 0, 10, 10), &rect(0, 0, 4, 4)),
        vec![rect(0, 4, 10, 6), rect(4, 0, 6, 4)]
    );
    assert_eq!(subtract_rect(&rect(0, 0, 10, 10), &rect(0, 0, 10, 10)), vec![]);
}

#[test]
fn allocate_takes_first_free_corner() {
    let mut alloc = ItemAllocator::new(&[], 100, 100);
    assert_eq!(alloc.allocate(15, 15), Some(rect(0, 0, 15, 15)));
    assert_eq!(alloc.free_list(), vec![rect(0, 15, 100, 85), rect(15, 0, 85, 15)]);
    assert_eq!(alloc.allocate(15, 15), Some(rect(0, 15, 15, 15)));
}

#[test]
fn allocate_rejects_what_does_not_fit() {
    let mut alloc = ItemAllocator::new(&[], 100, 100);
    assert_eq!(alloc.allocate(0, 5), None);
    assert_eq!(alloc.allocate(101, 1), None);
    assert_eq!(alloc.free_list(), vec![rect(0, 0, 100, 100)]);
    assert_eq!(alloc.allocate(100, 100), Some(rect(0, 0, 100, 100)));
    assert_eq!(alloc.free_list(), vec![]);
    assert_eq!(alloc.allocate(1, 1), None);
}

#[test]
fn deallocate_returns_space() {
    let mut alloc = ItemAllocator::new(&[], 20, 20);
    let slot = alloc.allocate(20, 20).unwrap();
    assert_eq!(alloc.allocate(5, 5), None);
    alloc.deallocate(slot);
    assert_eq!(alloc.free_list(), vec![rect(0, 0, 20, 20)]);
    assert_eq!(alloc.allocate(5, 5), Some(rect(0, 0, 5, 5)));
}

#[test]
fn allocate_spans_adjacent_free_rectangles() {
    let mut alloc = ItemAllocator::new(&[], 0, 0);
    alloc.deallocate(rect(0, 0, 5, 10));
    alloc.deallocate(rect(5, 0, 5, 10));
    assert_eq!(alloc.allocate(8, 2), Some(rect(0, 0, 8, 2)));
}

#[test]
fn marker_search() {
    assert_eq!(find_marker(&[1, 0xFF, 0xD8, 2], &[0xFF, 0xD8]), Some(1));
    assert_eq!(find_marker(&[0xFF, 0xD9, 0xFF, 0xD9], &[0xFF, 0xD9]), Some(0));
    assert_eq!(find_marker(&[0xFF, 0xD8], &[0xFF, 0xD9]), None);
    assert_eq!(find_marker(&[0xFF], &[0xFF, 0xD9]), None);
    assert_eq!(find_marker(&[], &[0xFF]), None);
}

#[test]
fn occupied_slots_are_not_free() {
    let mut alloc = ItemAllocator::new(&[rect(0, 0, 15, 15)], 100, 100);
    assert_eq!(alloc.free_list(), vec![rect(0, 15, 100, 85), rect(15, 0, 85, 15)]);
    assert_eq!(alloc.allocate(15, 15), Some(rect(0, 15, 15, 15)));
}

#[test]
fn occupied_slots_leave_distant_space_alone() {
    // The second slot meets only the lower band left by the first.
    let alloc = ItemAllocator::new(&[rect(0, 0, 10, 10), rect(50, 50, 10, 10)], 100, 100);
    assert_eq!(
        alloc.free_list(),
        vec![
            rect(0, 10, 100, 40),
            rect(0, 60, 100, 40),
            rect(0, 50, 50, 10),
            rect(60, 50, 40, 10),
            rect(10, 0, 90, 10),
        ]
    );
}

#[test]
fn subtract_missing_rectangle_keeps_it() {
    assert_eq!(subtract_rect(&rect(0, 0, 10, 10), &rect(20, 20, 5, 5)), vec![rect(0, 0, 10, 10)]);
    assert_eq!(subtract_rect(&rect(0, 0, 0, 10), &rect(20, 20, 5, 5)), vec![]);
}

#[test]
fn cut_through_several_rectangles() {
    let free = vec![rect(0, 0, 10, 10), rect(10, 0, 10, 10), rect(30, 0, 5, 5)];
    assert_eq!(
        cut(&free, &rect(5, 0, 10, 10)),
        vec![rect(0, 0, 5, 10), rect(15, 0, 5, 10), rect(30, 0, 5, 5)]
    );
}

#[test]
fn overlapping_free_space_is_not_handed_out_twice() {
    let mut alloc = ItemAllocator::new(&[], 0, 0);
    alloc.deallocate(rect(0, 0, 10, 10));
    alloc.deallocate(rect(0, 0, 10, 10));
    let a = alloc.allocate(10, 10);
    assert_eq!(a, Some(rect(0, 0, 10, 10)));
    assert_eq!(alloc.allocate(1, 1), None);
}

use vtrace::voxel::common::{ranges_contain, Color};

#[test]
fn color_new_keeps_the_channels() {
    let c = Color::new(1, 2, 3, 4);
    assert_eq!((c.r, c.g, c.b, c.a), (1, 2, 3, 4));
}

#[test]
fn color_from_uint_reads_red_from_the_lowest_byte() {
    let c = Color::from_uint(0x04030201);
    assert_eq!((c.r, c.g, c.b, c.a), (1, 2, 3, 4));
    let c = Color::from_uint(0xFF0000AA);
    assert_eq!((c.r, c.g, c.b, c.a), (0xAA, 0, 0, 0xFF));
}

#[test]
fn color_from_uint_edges() {
    assert!(Color::from_uint(0) == Color::new(0, 0, 0, 0));
    assert!(Color::from_uint(u32::MAX) == Color::new(255, 255, 255, 255));
    assert!(Color::from_uint(0x0000FF00) == Color::new(0, 255, 0, 0));
    assert!(Color::from_uint(0x00FF0000) == Color::new(0, 0, 255, 0));
}

#[test]
fn color_default_is_transparent_black() {
    assert!(Color::default() == Color::new(0, 0, 0, 0));
    assert!(Color::default() != Color::new(0, 0, 0, 255));
}

#[test]
fn ranges_contain_checks_each_range() {
    assert!(ranges_contain((-2, 2), (0, 1), (5, 7), -2, 0, 6));
    assert!(!ranges_contain((-2, 2), (0, 1), (5, 7), 2, 0, 6));
    assert!(!ranges_contain((-2, 2), (0, 1), (5, 7), 0, 1, 6));
    assert!(!ranges_contain((-2, 2), (0, 1), (5, 7), 0, 0, 4));
    assert!(!ranges_contain((3, 3), (0, 1), (0, 1), 3, 0, 0));
}

use pixterm::canvas::Canvas;

#[test]
fn test_new_canvas() {
    let canvas = Canvas::new();
    assert_eq!(canvas.get_pixel(0, 0), None);
    assert_eq!(canvas.get_pixel(1000, 1000), None);
    assert!(canvas.is_empty());
}

#[test]
fn test_set_get_pixel() {
    let mut canvas = Canvas::new();
    canvas.set_pixel(5, 3, Some((255, 0, 0)));
    assert_eq!(canvas.get_pixel(5, 3), Some((255, 0, 0)));
    assert!(!canvas.is_empty());
    canvas.set_pixel(5, 3, None);
    assert_eq!(canvas.get_pixel(5, 3), None);
    assert!(canvas.is_empty());
}

#[test]
fn test_infinite_coords() {
    let mut canvas = Canvas::new();
    canvas.set_pixel(0, 0, Some((255, 0, 0)));
    canvas.set_pixel(10000, 20000, Some((0, 255, 0)));
    canvas.set_pixel(u16::MAX, u16::MAX, Some((0, 0, 255)));
    assert_eq!(canvas.get_pixel(0, 0), Some((255, 0, 0)));
    assert_eq!(canvas.get_pixel(10000, 20000), Some((0, 255, 0)));
    assert_eq!(canvas.get_pixel(u16::MAX, u16::MAX), Some((0, 0, 255)));
}

#[test]
fn test_bounding_box() {
    let mut canvas = Canvas::new();
    assert_eq!(canvas.bounding_box(), None);
    canvas.set_pixel(5, 10, Some((255, 0, 0)));
    canvas.set_pixel(20, 3, Some((0, 255, 0)));
    assert_eq!(canvas.bounding_box(), Some((5, 3, 20, 10)));
}

#[test]
fn canvas_test_clear() {
    let mut canvas = Canvas::new();
    canvas.set_pixel(0, 0, Some((255, 0, 0)));
    canvas.set_pixel(3, 3, Some((0, 255, 0)));
    canvas.clear();
    assert_eq!(canvas.get_pixel(0, 0), None);
    assert_eq!(canvas.get_pixel(3, 3), None);
    assert!(canvas.is_empty());
}

#[test]
fn set_leaves_other_pixels_alone() {
    let mut canvas = Canvas::new();
    canvas.set_pixel(1, 2, Some((1, 2, 3)));
    canvas.set_pixel(2, 1, Some((4, 5, 6)));
    canvas.set_pixel(1, 2, Some((7, 8, 9)));
    assert_eq!(canvas.get_pixel(1, 2), Some((7, 8, 9)));
    assert_eq!(canvas.get_pixel(2, 1), Some((4, 5, 6)));
}

#[test]
fn bounding_box_single_pixel_and_extremes() {
    let mut canvas = Canvas::new();
    canvas.set_pixel(7, 9, Some((1, 1, 1)));
    assert_eq!(canvas.bounding_box(), Some((7, 9, 7, 9)));
    canvas.set_pixel(0, u16::MAX, Some((1, 1, 1)));
    canvas.set_pixel(u16::MAX, 0, Some((1, 1, 1)));
    assert_eq!(canvas.bounding_box(), Some((0, 0, u16::MAX, u16::MAX)));
}

#[test]
fn pixels_map_uses_packed_keys() {
    let mut canvas = Canvas::new();
    canvas.set_pixel(2, 3, Some((9, 8, 7)));
    let map = canvas.pixels();
    assert_eq!(map.len(), 1);
    assert_eq!(map.get(&(2 * 65536 + 3)), Some(&(9, 8, 7)));
}

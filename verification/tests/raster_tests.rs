use henon::canvas::{DARK, LIT};
use henon::config::ConfigError;
use henon::raster::SuperBuffer;

fn lit_positions(buffer: &SuperBuffer) -> Vec<usize> {
    buffer
        .cells()
        .iter()
        .enumerate()
        .filter(|(_, &c)| c == LIT)
        .map(|(i, _)| i)
        .collect()
}

#[test]
fn intensities_are_the_extremes() {
    assert_eq!(DARK, 0);
    assert_eq!(LIT, 255);
}

#[test]
fn new_canvas_is_dark() {
    let buffer = SuperBuffer::new(7, 3).unwrap();
    assert_eq!(buffer.width(), 7);
    assert_eq!(buffer.height(), 3);
    assert_eq!(buffer.cells().len(), 21);
    assert!(buffer.cells().iter().all(|&c| c == 0));
}

#[test]
fn new_refuses_a_zero_side() {
    assert!(matches!(SuperBuffer::new(0, 3), Err(ConfigError::ZeroDimension)));
    assert!(matches!(SuperBuffer::new(3, 0), Err(ConfigError::ZeroDimension)));
    assert!(matches!(SuperBuffer::new(0, 0), Err(ConfigError::ZeroDimension)));
}

#[test]
fn new_refuses_more_cells_than_an_allocation_holds() {
    assert!(matches!(SuperBuffer::new(u32::MAX, u32::MAX), Err(ConfigError::TooLarge)));
}

#[test]
fn for_output_scales_by_the_factor() {
    let buffer = SuperBuffer::for_output(10, 6, 4).unwrap();
    assert_eq!(buffer.width(), 40);
    assert_eq!(buffer.height(), 24);
    assert_eq!(buffer.cells().len(), 960);
    assert!(buffer.cells().iter().all(|&c| c == 0));
}

#[test]
fn for_output_reports_the_refusals() {
    assert!(matches!(SuperBuffer::for_output(0, 6, 4), Err(ConfigError::ZeroDimension)));
    assert!(matches!(SuperBuffer::for_output(10, 0, 4), Err(ConfigError::ZeroDimension)));
    assert!(matches!(SuperBuffer::for_output(10, 6, 0), Err(ConfigError::ZeroDimension)));
    assert!(matches!(SuperBuffer::for_output(0x4000_0000, 1, 4), Err(ConfigError::TooLarge)));
    assert!(matches!(SuperBuffer::for_output(u32::MAX, u32::MAX, 1), Err(ConfigError::TooLarge)));
}

#[test]
fn plot_lights_the_cell_of_the_pixel() {
    let mut buffer = SuperBuffer::new(4, 3).unwrap();
    buffer.plot(1, 2);
    assert_eq!(lit_positions(&buffer), vec![2 * 4 + 1]);
    assert_eq!(buffer.cells()[9], 255);
    assert!(buffer.is_lit(1, 2));
    assert!(!buffer.is_lit(2, 1));
}

#[test]
fn plot_reaches_every_corner() {
    let mut buffer = SuperBuffer::new(4, 3).unwrap();
    buffer.plot(0, 0);
    buffer.plot(3, 0);
    buffer.plot(0, 2);
    buffer.plot(3, 2);
    assert_eq!(lit_positions(&buffer), vec![0, 3, 8, 11]);
}

#[test]
fn plot_drops_points_off_the_canvas() {
    let mut buffer = SuperBuffer::new(4, 3).unwrap();
    buffer.plot(4, 0);
    buffer.plot(0, 3);
    buffer.plot(-1, 0);
    buffer.plot(0, -1);
    buffer.plot(-1, -1);
    buffer.plot(4, 3);
    buffer.plot(i64::MAX, 1);
    buffer.plot(1, i64::MAX);
    buffer.plot(i64::MIN, 1);
    buffer.plot(1, i64::MIN);
    buffer.plot(1 << 32, 0);
    buffer.plot(0, 1 << 32);
    assert!(buffer.cells().iter().all(|&c| c == 0));
}

#[test]
fn a_column_past_the_row_end_does_not_wrap_into_the_next_row() {
    let mut buffer = SuperBuffer::new(4, 3).unwrap();
    buffer.plot(5, 0);
    assert!(buffer.cells().iter().all(|&c| c == 0));
    assert!(!buffer.is_lit(1, 1));
}

#[test]
fn is_lit_is_false_off_the_canvas() {
    let mut buffer = SuperBuffer::new(2, 2).unwrap();
    buffer.plot_all(&[(0, 0), (1, 0), (0, 1), (1, 1)]);
    assert!(buffer.is_lit(1, 1));
    assert!(!buffer.is_lit(2, 1));
    assert!(!buffer.is_lit(1, 2));
    assert!(!buffer.is_lit(-1, 0));
    assert!(!buffer.is_lit(0, -1));
}

#[test]
fn plotting_a_pixel_again_changes_nothing() {
    let mut once = SuperBuffer::new(5, 5).unwrap();
    once.plot(2, 3);
    let mut many = SuperBuffer::new(5, 5).unwrap();
    for _ in 0..100 {
        many.plot(2, 3);
    }
    assert_eq!(once.cells(), many.cells());
    assert_eq!(many.cells()[3 * 5 + 2], 255);
    assert_eq!(lit_positions(&many).len(), 1);
}

#[test]
fn two_points_on_one_pixel_in_either_order() {
    let mut first = SuperBuffer::new(5, 5).unwrap();
    first.plot_all(&[(1, 1), (4, 2), (1, 1)]);
    let mut second = SuperBuffer::new(5, 5).unwrap();
    second.plot_all(&[(1, 1), (1, 1), (4, 2)]);
    assert_eq!(first.cells(), second.cells());
    assert_eq!(first.cells()[1 * 5 + 1], 255);
    assert_eq!(second.cells()[1 * 5 + 1], 255);
}

#[test]
fn the_order_of_the_points_does_not_matter() {
    let points: Vec<(i64, i64)> = vec![(0, 0), (3, 1), (2, 2), (9, 9), (-4, 1), (3, 1), (1, 3)];
    let mut reversed = points.clone();
    reversed.reverse();
    let mut rotated = points.clone();
    rotated.rotate_left(3);
    let mut a = SuperBuffer::new(4, 4).unwrap();
    a.plot_all(&points);
    let mut b = SuperBuffer::new(4, 4).unwrap();
    b.plot_all(&reversed);
    let mut c = SuperBuffer::new(4, 4).unwrap();
    c.plot_all(&rotated);
    assert_eq!(a.cells(), b.cells());
    assert_eq!(a.cells(), c.cells());
    assert_eq!(lit_positions(&a), vec![0, 7, 10, 13]);
}

#[test]
fn rasterizing_twice_into_separate_buffers_gives_equal_buffers() {
    let points: Vec<(i64, i64)> = (0..200).map(|i| ((i * 7) % 13 - 1, (i * 5) % 11 - 1)).collect();
    let mut a = SuperBuffer::new(11, 9).unwrap();
    a.plot_all(&points);
    let mut b = SuperBuffer::new(11, 9).unwrap();
    b.plot_all(&points);
    assert_eq!(a.cells(), b.cells());
    assert!(a.cells().iter().any(|&c| c == 255));
}

#[test]
fn rasterizing_again_onto_the_same_buffer_changes_nothing() {
    let points: Vec<(i64, i64)> = (0..50).map(|i| (i % 6, (i * 3) % 7)).collect();
    let mut buffer = SuperBuffer::new(6, 6).unwrap();
    buffer.plot_all(&points);
    let once: Vec<u8> = buffer.cells().to_vec();
    buffer.plot_all(&points);
    assert_eq!(buffer.cells(), &once[..]);
}

#[test]
fn plot_all_is_plot_point_by_point() {
    let points: Vec<(i64, i64)> = vec![(2, 0), (7, 7), (0, 2), (-1, 1), (1, 1)];
    let mut all = SuperBuffer::new(3, 3).unwrap();
    all.plot_all(&points);
    let mut each = SuperBuffer::new(3, 3).unwrap();
    for &(x, y) in &points {
        each.plot(x, y);
    }
    assert_eq!(all.cells(), each.cells());
    assert_eq!(all.cells(), &[0, 0, 255, 0, 255, 0, 255, 0, 0][..]);
}

#[test]
fn plot_all_in_two_parts_is_plot_all_of_the_whole() {
    let points: Vec<(i64, i64)> = (0..40).map(|i| ((i * 3) % 8, (i * 5) % 9 - 2)).collect();
    let mut whole = SuperBuffer::new(8, 5).unwrap();
    whole.plot_all(&points);
    let mut parts = SuperBuffer::new(8, 5).unwrap();
    parts.plot_all(&points[..17]);
    parts.plot_all(&points[17..]);
    assert_eq!(whole.cells(), parts.cells());
}

#[test]
fn an_empty_trajectory_leaves_the_canvas_dark() {
    let mut buffer = SuperBuffer::new(8, 8).unwrap();
    buffer.plot_all(&[]);
    assert!(buffer.cells().iter().all(|&c| c == 0));
}

#[test]
fn a_trajectory_off_the_canvas_leaves_it_dark() {
    let mut buffer = SuperBuffer::new(8, 8).unwrap();
    buffer.plot_all(&[(8, 0), (0, 8), (-1, -1), (100, 100), (i64::MIN, i64::MAX)]);
    assert!(buffer.cells().iter().all(|&c| c == 0));
}

#[test]
fn every_cell_is_dark_or_lit() {
    let points: Vec<(i64, i64)> = (0..500).map(|i| ((i * 17) % 23 - 2, (i * 13) % 19 - 2)).collect();
    let mut buffer = SuperBuffer::new(20, 15).unwrap();
    buffer.plot_all(&points);
    assert!(buffer.cells().iter().all(|&c| c == 0 || c == 255));
    for y in 0..15i64 {
        for x in 0..20i64 {
            assert_eq!(buffer.is_lit(x, y), points.contains(&(x, y)));
        }
    }
}

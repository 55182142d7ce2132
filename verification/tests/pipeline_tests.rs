use henon::encode::encode_png;
use henon::raster::SuperBuffer;
use henon::resample::resize_image;
use image::{DynamicImage, ImageFormat};

const MIN_X: f64 = -1.2846632612345517;
const MAX_X: f64 = 1.2729723934315698;
const MIN_Y: f64 = -0.38539897837036546;
const MAX_Y: f64 = 0.3818917180294709;

fn trajectory_pixels(
    a: f64,
    b: f64,
    x0: f64,
    y0: f64,
    n: u32,
    super_width: u32,
    super_height: u32,
) -> Vec<(i64, i64)> {
    let range_x = MAX_X - MIN_X;
    let range_y = MAX_Y - MIN_Y;
    let scale = (0.9 * super_width as f64 / range_x).min(0.9 * super_height as f64 / range_y);
    let offset_x = ((super_width as f64 - scale * range_x) / 2.0).max(0.0);
    let offset_y = ((super_height as f64 - scale * range_y) / 2.0).max(0.0);
    let mut points = Vec::new();
    let (mut x, mut y) = (x0, y0);
    for _ in 0..=n {
        let px = ((x - MIN_X) * scale + offset_x).round();
        let py = ((y - MIN_Y) * scale + offset_y).round();
        if px.is_finite() && py.is_finite() {
            points.push((px as i64, py as i64));
        }
        let next = (1.0 - a * x * x + y, b * x);
        x = next.0;
        y = next.1;
    }
    points
}

fn render(a: f64, n: u32, width: u32, height: u32, factor: u32) -> (SuperBuffer, Vec<u8>) {
    let mut buffer = SuperBuffer::for_output(width, height, factor).unwrap();
    let points = trajectory_pixels(a, 0.3, 0.0, 0.0, n, buffer.width(), buffer.height());
    buffer.plot_all(&points);
    let image = resize_image(&buffer, width, height).unwrap();
    let stream = encode_png(&image).unwrap();
    (buffer, stream)
}

fn decode(stream: &[u8]) -> DynamicImage {
    image::load_from_memory_with_format(stream, ImageFormat::Png).unwrap()
}

#[test]
fn a_thousand_iterations_on_a_hundred_square() {
    let (buffer, stream) = render(1.4, 1000, 100, 100, 1);
    let decoded = decode(&stream);
    assert_eq!(decoded.width(), 100);
    assert_eq!(decoded.height(), 100);
    assert!(decoded.as_bytes().iter().any(|&p| p != 0));
    assert_eq!(decoded.as_bytes(), buffer.cells());
}

#[test]
fn the_start_of_the_trajectory_is_on_the_canvas() {
    let buffer = render(1.4, 1000, 100, 100, 1).0;
    let scale = (90.0 / (MAX_X - MIN_X)).min(90.0 / (MAX_Y - MIN_Y));
    let offset_x = (100.0 - scale * (MAX_X - MIN_X)) / 2.0;
    let offset_y = (100.0 - scale * (MAX_Y - MIN_Y)) / 2.0;
    let px = ((0.0 - MIN_X) * scale + offset_x).round() as i64;
    let py = ((0.0 - MIN_Y) * scale + offset_y).round() as i64;
    assert!(buffer.is_lit(px, py));
    let px1 = ((1.0 - MIN_X) * scale + offset_x).round() as i64;
    assert!(buffer.is_lit(px1, py));
}

#[test]
fn the_output_size_does_not_depend_on_the_factor() {
    for factor in [1u32, 2, 3, 4] {
        let (buffer, stream) = render(1.4, 2000, 64, 48, factor);
        assert_eq!(buffer.width(), 64 * factor);
        assert_eq!(buffer.height(), 48 * factor);
        let decoded = decode(&stream);
        assert_eq!((decoded.width(), decoded.height()), (64, 48));
        assert!(decoded.as_bytes().iter().any(|&p| p != 0));
    }
}

#[test]
fn a_diverging_trajectory_is_dropped_without_a_fault() {
    let mut buffer = SuperBuffer::for_output(50, 50, 2).unwrap();
    let points = trajectory_pixels(5.0, 0.3, 0.0, 0.0, 500, 100, 100);
    buffer.plot_all(&points);
    assert!(buffer.cells().iter().all(|&c| c == 0 || c == 255));
    let image = resize_image(&buffer, 50, 50).unwrap();
    let decoded = decode(&encode_png(&image).unwrap());
    assert_eq!((decoded.width(), decoded.height()), (50, 50));
}

#[test]
fn rendering_twice_gives_the_same_file() {
    let first = render(1.4, 3000, 80, 60, 2).1;
    let second = render(1.4, 3000, 80, 60, 2).1;
    assert_eq!(first, second);
}

#[test]
fn five_parameter_values_give_five_images() {
    let steps = 5u32;
    let intervals = henon::config::sweep_intervals(steps).unwrap();
    let start = 1.4 - 0.1 / 2.0;
    let step_size = 0.1 / intervals as f64;
    let mut names: Vec<String> = Vec::new();
    for i in 0..steps {
        let a = start + step_size * i as f64;
        let stream = render(a, 1000, 100, 100, 1).1;
        let decoded = decode(&stream);
        assert_eq!((decoded.width(), decoded.height()), (100, 100));
        names.push(henon::naming::series_file_name(
            &format!("{a:.6}"),
            &format!("{:.6}", 0.3),
            "0",
            "0",
            1000,
            100,
            100,
            1,
            i,
        ));
    }
    names.sort();
    names.dedup();
    assert_eq!(names.len(), 5);
}

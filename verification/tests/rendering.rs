use mandelbrot::escape_time;
use mandelbrot::index_to_pixel;
use mandelbrot::pixel_count;
use mandelbrot::pixel_shade;
use mandelbrot::EscapeStep;
use num::Complex;

#[test]
fn buffer_length() {
    assert_eq!(pixel_count(10, 10), Some(100));
    assert_eq!(pixel_count(1000, 750), Some(750000));
    assert_eq!(pixel_count(0, 7), Some(0));
    assert_eq!(pixel_count(usize::MAX, 2), None);
}

#[test]
fn index_encodes_row_major_coordinates() {
    assert_eq!(index_to_pixel(0, 10), (0, 0));
    assert_eq!(index_to_pixel(7, 10), (7, 0));
    assert_eq!(index_to_pixel(57, 10), (7, 5));
    assert_eq!(index_to_pixel(99, 10), (9, 9));
}

#[test]
fn shade_of_each_outcome() {
    assert_eq!(pixel_shade(None), 0);
    assert_eq!(pixel_shade(Some(0)), 255);
    assert_eq!(pixel_shade(Some(1)), 254);
    assert_eq!(pixel_shade(Some(254)), 1);
    assert_eq!(pixel_shade(Some(255)), 0);
}

struct Point(Complex<f64>);

impl EscapeStep for Point {
    fn start() -> Self {
        Point(Complex { re: 0.0, im: 0.0 })
    }

    fn diverged(&self) -> bool {
        self.0.norm_sqr() > 4.0
    }

    fn advance(&self, c: &Self) -> Self {
        Point(self.0 * self.0 + c.0)
    }
}

fn pixel_to_point(
    bounds: (usize, usize),
    pixel: (usize, usize),
    upper_left: Complex<f64>,
    lower_right: Complex<f64>,
) -> Complex<f64> {
    let width = lower_right.re - upper_left.re;
    let height = upper_left.im - lower_right.im;
    Complex {
        re: upper_left.re + pixel.0 as f64 * width / bounds.0 as f64,
        im: upper_left.im - pixel.1 as f64 * height / bounds.1 as f64,
    }
}

fn render(bounds: (usize, usize), upper_left: Complex<f64>, lower_right: Complex<f64>) -> Vec<u8> {
    assert!(pixel_count(bounds.0, bounds.1).is_some());
    mandelbrot::render(bounds.0, bounds.1, |id| {
        let pixel = index_to_pixel(id, bounds.0);
        let point = pixel_to_point(bounds, pixel, upper_left, lower_right);
        pixel_shade(escape_time(Point(point), 255))
    })
}

#[test]
fn corner_pixel_maps_to_upper_left() {
    let upper_left = Complex { re: -1.0, im: 1.0 };
    let lower_right = Complex { re: 1.0, im: -1.0 };
    let p = pixel_to_point((100, 100), (0, 0), upper_left, lower_right);
    assert_eq!(p, upper_left);
    let q = pixel_to_point((100, 100), (100, 100), upper_left, lower_right);
    assert_eq!(q, lower_right);
}

#[test]
fn parallel_render_is_deterministic() {
    let bounds = (10usize, 10usize);
    let upper_left = Complex { re: -1.0, im: -1.0 };
    let lower_right = Complex { re: 1.0, im: 1.0 };
    let first = render(bounds, upper_left, lower_right);
    let second = render(bounds, upper_left, lower_right);
    assert_eq!(first.len(), 100);
    assert_eq!(first, second);
}

#[test]
fn bounded_points_render_black_and_escaping_points_bright() {
    let bounds = (10usize, 10usize);
    let upper_left = Complex { re: -1.0, im: -1.0 };
    let lower_right = Complex { re: 1.0, im: 1.0 };
    let pixels = render(bounds, upper_left, lower_right);
    // The center of the viewport sits well inside the Mandelbrot set.
    assert_eq!(pixels[5 * 10 + 5], 0);
    // The corners sit well outside it.
    assert_ne!(pixels[0], 0);
    assert_ne!(pixels[9], 0);
    assert_ne!(pixels[90], 0);
    assert_ne!(pixels[99], 0);
}

use std::cell::RefCell;
use std::rc::Rc;

use smart_leds_matrix::buffer::PixelBuffer;
use smart_leds_matrix::color::scale_channel;
use smart_leds_matrix::layout::{Layout, Rectangular, RowLayout};
use smart_leds_matrix::{ColorTransport, Pixel, Point, Rgb, Size, SmartLedMatrix};

/// Records every frame it is handed; fails while `fail` is set.
#[derive(Clone)]
struct Recorder {
    frames: Rc<RefCell<Vec<Vec<Rgb>>>>,
    fail: Rc<RefCell<bool>>,
}

impl Recorder {
    fn new() -> Recorder {
        Recorder { frames: Rc::new(RefCell::new(Vec::new())), fail: Rc::new(RefCell::new(false)) }
    }

    fn last(&self) -> Vec<Rgb> {
        self.frames.borrow().last().cloned().unwrap()
    }
}

#[derive(Debug, PartialEq)]
struct BusError;

impl ColorTransport for Recorder {
    type Error = BusError;

    fn write(&mut self, colors: &[Rgb]) -> Result<(), BusError> {
        self.frames.borrow_mut().push(colors.to_vec());
        if *self.fail.borrow() {
            Err(BusError)
        } else {
            Ok(())
        }
    }
}

fn row_layout(rows: &[u32]) -> RowLayout {
    RowLayout::new(rows.to_vec()).unwrap()
}

fn white() -> Rgb {
    Rgb::new(255, 255, 255)
}

fn black() -> Rgb {
    Rgb::new(0, 0, 0)
}

fn all_points(size: Size) -> Vec<Point> {
    let mut points = Vec::new();
    for y in -2..size.height as i32 + 2 {
        for x in -2..size.width as i32 + 2 {
            points.push(Point::new(x, y));
        }
    }
    points
}

fn assert_injective_and_bounded<L: Layout>(layout: &L) {
    let size = layout.size();
    let mut seen = Vec::new();
    for p in all_points(size) {
        let inside = p.x >= 0 && p.y >= 0 && (p.x as u32) < size.width && (p.y as u32) < size.height;
        match layout.map(p) {
            Some(i) => {
                assert!(inside, "{:?} lies outside the canvas but maps to {}", p, i);
                assert!(!seen.contains(&i), "index {} is mapped twice", i);
                seen.push(i);
            }
            None => {}
        }
    }
}

#[test]
fn identity_layout_is_injective_and_bounded() {
    let layout = Rectangular::new(8, 8);
    assert_injective_and_bounded(&layout);
    for y in 0..8 {
        for x in 0..8 {
            assert_eq!(layout.map(Point::new(x, y)), Some((y * 8 + x) as usize));
        }
    }
}

#[test]
fn invert_y_layout_is_injective_and_bounded() {
    let layout = Rectangular::new_invert_y(8, 4);
    assert_injective_and_bounded(&layout);
    assert_eq!(layout.map(Point::new(0, 0)), Some(24));
    assert_eq!(layout.map(Point::new(7, 0)), Some(31));
    assert_eq!(layout.map(Point::new(0, 3)), Some(0));
    assert_eq!(layout.map(Point::new(5, 2)), Some(13));
}

#[test]
fn row_layout_is_injective_and_bounded() {
    let layout = row_layout(&[3, 4, 5]);
    assert_eq!(layout.size(), Size::new(5, 3));
    assert_injective_and_bounded(&layout);
    assert_eq!(layout.map(Point::new(2, 0)), Some(2));
    assert_eq!(layout.map(Point::new(3, 0)), None);
    assert_eq!(layout.map(Point::new(3, 1)), Some(6));
    assert_eq!(layout.map(Point::new(4, 2)), Some(11));
    assert_eq!(layout.map(Point::new(0, 3)), None);
}

#[test]
fn row_layout_of_no_rows_maps_nothing() {
    let layout = row_layout(&[]);
    assert_eq!(layout.size(), Size::new(0, 0));
    assert_eq!(layout.map(Point::new(0, 0)), None);
}

#[test]
fn layouts_reject_far_positions() {
    let rect = Rectangular::new(8, 8);
    let rows = row_layout(&[3, 4, 5]);
    for p in [
        Point::new(i32::MIN, 0),
        Point::new(0, i32::MIN),
        Point::new(i32::MAX, 0),
        Point::new(0, i32::MAX),
        Point::new(-1, -1),
    ] {
        assert_eq!(rect.map(p), None);
        assert_eq!(Rectangular::new_invert_y(8, 8).map(p), None);
        assert_eq!(rows.map(p), None);
    }
}

#[test]
fn rectangular_reports_its_size() {
    assert_eq!(Rectangular::new(7, 3).size(), Size::new(7, 3));
    assert_eq!(Rectangular::new_invert_y(2, 9).size(), Size::new(2, 9));
}

#[test]
fn draw_outside_canvas_changes_nothing() {
    let recorder = Recorder::new();
    let mut matrix = SmartLedMatrix::<_, _, 64>::new(recorder.clone(), Rectangular::new(8, 8));
    let pixels = [
        Pixel(Point::new(-1, 0), white()),
        Pixel(Point::new(8, 0), white()),
        Pixel(Point::new(0, 8), white()),
        Pixel(Point::new(0, -1), white()),
        Pixel(Point::new(i32::MAX, i32::MIN), white()),
    ];
    matrix.draw_iter(&pixels);
    assert_eq!(matrix.frame(), vec![black(); 64]);
}

#[test]
fn layout_index_past_the_buffer_is_dropped() {
    let recorder = Recorder::new();
    // The layout addresses 16 LEDs; the strip has 8.
    let mut matrix = SmartLedMatrix::<_, _, 8>::new(recorder.clone(), Rectangular::new(4, 4));
    matrix.draw_pixel(Pixel(Point::new(0, 3), white()));
    matrix.draw_pixel(Pixel(Point::new(3, 1), white()));
    let mut expected = vec![black(); 8];
    expected[7] = white();
    assert_eq!(matrix.frame(), expected);
}

#[test]
fn last_write_wins_within_one_draw() {
    let recorder = Recorder::new();
    let mut matrix = SmartLedMatrix::<_, _, 64>::new(recorder.clone(), Rectangular::new(8, 8));
    let red = Rgb::new(255, 0, 0);
    let blue = Rgb::new(0, 0, 255);
    matrix.draw_iter(&[
        Pixel(Point::new(2, 1), red),
        Pixel(Point::new(3, 1), red),
        Pixel(Point::new(2, 1), blue),
    ]);
    let cells = matrix.content();
    assert_eq!(cells[10], blue);
    assert_eq!(cells[11], red);
}

#[test]
fn last_write_wins_across_draws() {
    let recorder = Recorder::new();
    let mut matrix = SmartLedMatrix::<_, _, 12>::new(recorder.clone(), row_layout(&[3, 4, 5]));
    let red = Rgb::new(255, 0, 0);
    let green = Rgb::new(0, 255, 0);
    matrix.draw_iter(&[Pixel(Point::new(1, 1), red)]);
    matrix.draw_iter(&[Pixel(Point::new(1, 1), green), Pixel(Point::new(0, 0), red)]);
    let frame = matrix.frame();
    assert_eq!(frame[4], green);
    assert_eq!(frame[0], red);
}

#[test]
fn brightness_truncates_toward_zero() {
    assert_eq!(scale_channel(255, 10), 10);
    assert_eq!(scale_channel(254, 1), 0);
    assert_eq!(scale_channel(200, 100), 78);
    assert_eq!(scale_channel(128, 128), 64);
    assert_eq!(scale_channel(255, 255), 255);
    assert_eq!(scale_channel(100, 255), 100);
    assert_eq!(scale_channel(255, 0), 0);
    assert_eq!(Rgb::new(255, 128, 1).scaled(128), Rgb::new(128, 64, 0));
}

#[test]
fn flush_sends_scaled_frame_and_keeps_cells() {
    let recorder = Recorder::new();
    let mut matrix = SmartLedMatrix::<_, _, 4>::new(recorder.clone(), Rectangular::new(2, 2));
    matrix.draw_iter(&[
        Pixel(Point::new(0, 0), Rgb::new(255, 255, 255)),
        Pixel(Point::new(1, 1), Rgb::new(200, 100, 50)),
    ]);
    matrix.set_brightness(10);
    assert_eq!(matrix.flush(), Ok(()));
    assert_eq!(
        recorder.last(),
        vec![Rgb::new(10, 10, 10), black(), black(), Rgb::new(7, 3, 1)]
    );
    // Brightness applies at flush time: raising it resends the drawn colors.
    matrix.set_brightness(255);
    assert_eq!(matrix.flush(), Ok(()));
    assert_eq!(
        recorder.last(),
        vec![Rgb::new(255, 255, 255), black(), black(), Rgb::new(200, 100, 50)]
    );
    assert_eq!(recorder.frames.borrow().len(), 2);
}

#[test]
fn zero_brightness_sends_black() {
    let recorder = Recorder::new();
    let mut matrix = SmartLedMatrix::<_, _, 4>::new(recorder.clone(), Rectangular::new(2, 2));
    matrix.draw_iter(&[Pixel(Point::new(1, 0), white())]);
    matrix.set_brightness(0);
    matrix.flush().unwrap();
    assert_eq!(recorder.last(), vec![black(); 4]);
}

#[test]
fn failed_flush_reports_error_and_keeps_buffer() {
    let recorder = Recorder::new();
    let mut matrix = SmartLedMatrix::<_, _, 4>::new(recorder.clone(), Rectangular::new(2, 2));
    matrix.draw_iter(&[Pixel(Point::new(1, 0), white())]);
    let before = matrix.frame();
    let cells = matrix.content().to_vec();
    *recorder.fail.borrow_mut() = true;
    assert_eq!(matrix.flush(), Err(BusError));
    assert_eq!(matrix.content(), &cells[..]);
    assert_eq!(matrix.frame(), before);
    *recorder.fail.borrow_mut() = false;
    assert_eq!(matrix.flush(), Ok(()));
    assert_eq!(recorder.last(), before);
    assert_eq!(recorder.frames.borrow().len(), 2);
}

#[test]
fn new_matrix_is_black_at_full_brightness() {
    let recorder = Recorder::new();
    let mut matrix = SmartLedMatrix::<_, _, 6>::new(recorder.clone(), Rectangular::new(3, 2));
    assert_eq!(matrix.brightness(), 255);
    assert_eq!(matrix.size(), Size::new(3, 2));
    assert!(recorder.frames.borrow().is_empty());
    matrix.flush().unwrap();
    assert_eq!(recorder.last(), vec![black(); 6]);
}

#[test]
fn identity_end_to_end() {
    let recorder = Recorder::new();
    let mut matrix = SmartLedMatrix::<_, _, 64>::new(recorder.clone(), Rectangular::new(8, 8));
    let mut pixels = Vec::new();
    for y in 0..8 {
        for x in 0..8 {
            let color = if x == 0 && y == 0 { white() } else { black() };
            pixels.push(Pixel(Point::new(x, y), color));
        }
    }
    matrix.draw_iter(&pixels);
    matrix.flush().unwrap();
    let mut expected = vec![black(); 64];
    expected[0] = white();
    assert_eq!(recorder.last(), expected);
}

#[test]
fn invert_y_end_to_end() {
    let recorder = Recorder::new();
    let mut matrix =
        SmartLedMatrix::<_, _, 64>::new(recorder.clone(), Rectangular::new_invert_y(8, 8));
    let mut pixels = Vec::new();
    for y in 0..8 {
        for x in 0..8 {
            let color = if x == 0 && y == 0 { white() } else { black() };
            pixels.push(Pixel(Point::new(x, y), color));
        }
    }
    matrix.draw_iter(&pixels);
    matrix.flush().unwrap();
    let mut expected = vec![black(); 64];
    expected[56] = white();
    assert_eq!(recorder.last(), expected);
}

#[test]
fn row_layout_vertical_line() {
    let recorder = Recorder::new();
    let mut matrix = SmartLedMatrix::<_, _, 12>::new(recorder.clone(), row_layout(&[3, 4, 5]));
    let color = Rgb::new(1, 2, 3);
    let line: Vec<Pixel> = (0..3).map(|y| Pixel(Point::new(0, y), color)).collect();
    matrix.draw_iter(&line);
    matrix.flush().unwrap();
    let frame = recorder.last();
    for i in 0..12 {
        if i == 0 || i == 3 || i == 7 {
            assert_eq!(frame[i], color);
        } else {
            assert_eq!(frame[i], black());
        }
    }
}

#[test]
fn pixel_buffer_basics() {
    let mut buffer = PixelBuffer::new(3);
    assert_eq!(buffer.len(), 3);
    assert_eq!(buffer.as_slice(), &[black(); 3]);
    buffer.set(1, white());
    assert_eq!(buffer.get(1), Some(white()));
    assert_eq!(buffer.get(0), Some(black()));
    assert_eq!(buffer.get(3), None);
    assert_eq!(buffer.as_slice(), &[black(), white(), black()]);
    assert_eq!(PixelBuffer::new(0).len(), 0);
}

use rs_tracer::canvas::Canvas;

const BLACK: (f64, f64, f64) = (0.0, 0.0, 0.0);
const RED: (f64, f64, f64) = (1.0, 0.0, 0.0);

#[test]
fn pixels_in_a_canvas_are_initialised_black() {
    let c = Canvas::new(10, 20, BLACK);
    assert_eq!(c.w(), 10);
    assert_eq!(c.h(), 20);
    assert_eq!(c.pixels().len(), 200);
    for p in c.pixels() {
        assert_eq!(*p, BLACK);
    }
}

#[test]
fn writing_pixels_to_a_canvas() {
    let mut c = Canvas::new(10, 20, BLACK);
    c.set(2, 3, RED);
    assert_eq!(c.pixels()[2 * 10 + 3], RED);
}

#[test]
fn written_pixel_reads_back_and_others_stay_black() {
    let mut c = Canvas::new(10, 20, BLACK);
    c.set(2, 3, RED);
    assert_eq!(c.get(2, 3), RED);
    assert_eq!(c.row(2)[3], RED);
    for r in 0..20 {
        for col in 0..10 {
            if r != 2 || col != 3 {
                assert_eq!(c.get(r, col), BLACK);
            }
        }
    }
}

#[test]
fn rows_are_contiguous_in_row_major_order() {
    let mut c = Canvas::new(3, 2, 0u32);
    for r in 0..2 {
        for col in 0..3 {
            c.set(r, col, (r * 10 + col) as u32);
        }
    }
    assert_eq!(c.pixels().clone(), vec![0, 1, 2, 10, 11, 12]);
    assert_eq!(c.row(0), &[0, 1, 2]);
    assert_eq!(c.row(1), &[10, 11, 12]);
}

#[test]
fn writing_the_last_cell() {
    let mut c = Canvas::new(4, 5, 0u8);
    c.set(4, 3, 9);
    assert_eq!(c.pixels()[19], 9);
    assert_eq!(c.row(4), &[0, 0, 0, 9]);
}

#[test]
fn zero_width_canvas_is_empty() {
    let c = Canvas::new(0, 5, BLACK);
    assert_eq!(c.w(), 0);
    assert_eq!(c.h(), 5);
    assert!(c.pixels().is_empty());
    assert!(c.row(4).is_empty());
}

#[test]
fn zero_height_canvas_is_empty() {
    let c = Canvas::new(7, 0, BLACK);
    assert_eq!(c.w(), 7);
    assert_eq!(c.h(), 0);
    assert!(c.pixels().is_empty());
}


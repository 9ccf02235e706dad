use ray_tracer::camera::render;
use ray_tracer::canvas::Canvas;
use ray_tracer::color::{clamp, RGB};
use ray_tracer::key::{from_bits, to_bits};

/// A real channel value, cut off to the range from zero to one and scaled
/// to a byte.
fn channel(value: f64) -> u8 {
    let key = from_bits(value.to_bits()).expect("a number");
    let clamped = f64::from_bits(to_bits(clamp(key)).expect("the key of a number"));
    (clamped * 255.0).round() as u8
}

/// A colour given by real channels.
fn rgb(red: f64, green: f64, blue: f64) -> RGB {
    RGB::new(channel(red), channel(green), channel(blue))
}

#[test]
fn creating_a_canvas() {
    let canvas = Canvas::new(10, 20);
    let black = rgb(0.0, 0.0, 0.0);

    assert_eq!(canvas.width(), 10);
    assert_eq!(canvas.height(), 20);

    canvas.for_each(|x, y| assert_eq!(canvas.get(x, y), &black));
}

#[test]
fn writing_pixels_to_a_canvas() {
    let mut c = Canvas::new(10, 20);
    let red = rgb(1.0, 0.0, 0.0);

    c.set(2, 3, &red);

    assert_eq!(c.get(2, 3), &red)
}

#[test]
fn constructing_the_ppm_header() {
    let c = Canvas::new(5, 3);
    let ppm = c.to_ppm();
    let mut lines = ppm.lines();

    assert_eq!(lines.next(), Some("P3"));
    assert_eq!(lines.next(), Some("5 3"));
    assert_eq!(lines.next(), Some("255"));
}

#[test]
fn constructing_the_ppm_pixel_data() {
    let mut c = Canvas::new(5, 3);
    let c1 = rgb(1.5, 0.0, 0.0);
    let c2 = rgb(0.0, 0.5, 0.0);
    let c3 = rgb(-0.5, 0.0, 1.0);

    c.set(0, 0, &c1);
    c.set(2, 1, &c2);
    c.set(4, 2, &c3);

    let ppm = c.to_ppm();
    let mut lines = ppm.lines().skip(3);

    assert_eq!(lines.next(), Some("255 0 0 0 0 0 0 0 0 0 0 0 0 0 0"));
    assert_eq!(lines.next(), Some("0 0 0 0 0 0 0 128 0 0 0 0 0 0 0"));
    assert_eq!(lines.next(), Some("0 0 0 0 0 0 0 0 0 0 0 0 0 0 255"));
    assert_eq!(lines.next(), None);
}

#[test]
fn splitting_long_lines_in_ppm_files() {
    let color = rgb(1.0, 0.8, 0.6);
    let canvas = Canvas::new_with_color(10, 2, color);

    let ppm = canvas.to_ppm();
    let mut lines = ppm.lines().skip(3);

    assert_eq!(
        lines.next(),
        Some("255 204 153 255 204 153 255 204 153 255 204 153 255 204 153 255 204")
    );
    assert_eq!(
        lines.next(),
        Some("153 255 204 153 255 204 153 255 204 153 255 204 153")
    );
    assert_eq!(
        lines.next(),
        Some("255 204 153 255 204 153 255 204 153 255 204 153 255 204 153 255 204")
    );
    assert_eq!(
        lines.next(),
        Some("153 255 204 153 255 204 153 255 204 153 255 204 153")
    );
    assert_eq!(lines.next(), None);
}

#[test]
fn ppm_files_are_terminated_by_a_newline_character() {
    let c = Canvas::new(5, 3);
    let ppm = c.to_ppm();

    assert!(ppm.ends_with('\n'));
}

#[test]
fn the_whole_ppm_text_of_a_small_canvas() {
    let mut c = Canvas::new(2, 2);
    c.set(0, 0, &RGB::new(1, 20, 255));
    c.set(1, 1, &RGB::new(9, 10, 100));

    assert_eq!(c.to_ppm(), "P3\n2 2\n255\n1 20 255 0 0 0\n0 0 0 9 10 100\n");
}

#[test]
fn the_ppm_text_of_an_empty_canvas_is_its_header() {
    assert_eq!(Canvas::new(0, 0).to_ppm(), "P3\n0 0\n255\n");
    assert_eq!(Canvas::new(0, 7).to_ppm(), "P3\n0 7\n255\n");
    assert_eq!(Canvas::new(12, 0).to_ppm(), "P3\n12 0\n255\n");
}

#[test]
fn no_line_of_a_ppm_file_is_longer_than_70_characters() {
    let mut canvas = Canvas::new(23, 4);
    for y in 0..4 {
        for x in 0..23 {
            let v: u8 = (x * 11 + y * 7) as u8;
            canvas.set(x, y, &RGB::new(v, 255 - v, v / 3));
        }
    }
    let ppm = canvas.to_ppm();
    assert!(ppm.lines().all(|line| line.len() <= 70));
    let values: Vec<u8> = ppm
        .lines()
        .skip(3)
        .flat_map(|line| line.split(' '))
        .map(|word| word.parse().unwrap())
        .collect();
    assert_eq!(values.len(), 23 * 4 * 3);
    assert_eq!(values[0], 0);
    assert_eq!(values[1], 255);
    assert_eq!(values[3 * 23], 7);
}

#[test]
fn a_line_is_broken_before_the_value_that_would_reach_70_characters() {
    // seventeen three-digit values are 67 characters; an eighteenth would
    // bring the line to 71
    let canvas = Canvas::new_with_color(6, 1, RGB::new(100, 100, 100));
    let ppm = canvas.to_ppm();
    let lines: Vec<&str> = ppm.lines().skip(3).collect();
    assert_eq!(lines.len(), 2);
    assert_eq!(lines[0].len(), 67);
    assert_eq!(lines[1], "100");

    // 34 one-digit values are 67 characters, the 35th brings the line to 69
    // and stays, the 36th would bring it to 71
    let canvas = Canvas::new_with_color(12, 1, RGB::new(7, 7, 7));
    let ppm = canvas.to_ppm();
    let lines: Vec<&str> = ppm.lines().skip(3).collect();
    assert_eq!(lines.len(), 2);
    assert_eq!(lines[0].len(), 69);
    assert_eq!(lines[1], "7");
}

#[test]
fn pixels_are_stored_row_by_row() {
    let mut c = Canvas::new_with_color(3, 2, 0u32);
    c.set(0, 0, &10);
    c.set(2, 0, &12);
    c.set(0, 1, &20);
    c.set(2, 1, &22);

    assert_eq!(*c.get(0, 0), 10);
    assert_eq!(*c.get(1, 0), 0);
    assert_eq!(*c.get(2, 0), 12);
    assert_eq!(*c.get(0, 1), 20);
    assert_eq!(*c.get(2, 1), 22);
    // a column past the end of a row is the start of the next row
    assert_eq!(*c.get(3, 0), 20);
    assert_eq!(c.width(), 3);
    assert_eq!(c.height(), 2);
}

#[test]
fn setting_a_pixel_relative_to_the_centre() {
    let mut c = Canvas::new_with_color(10, 8, 0u8);
    c.set_center(0, 0, &1);
    c.set_center(2, 3, &2);

    assert_eq!(*c.get(5, 4), 1);
    assert_eq!(*c.get(7, 1), 2);
    let mut count: usize = 0;
    for y in 0..8 {
        for x in 0..10 {
            if *c.get(x, y) != 0 {
                count += 1;
            }
        }
    }
    assert_eq!(count, 2);
}

#[test]
fn for_each_visits_every_pixel_once_row_by_row() {
    let c = Canvas::new_with_color(3, 2, 0u8);
    let seen = std::cell::RefCell::new(Vec::new());
    c.for_each(|x, y| seen.borrow_mut().push((x, y)));
    assert_eq!(seen.into_inner(), vec![(0, 0), (1, 0), (2, 0), (0, 1), (1, 1), (2, 1)]);
}

#[test]
fn a_canvas_over_given_pixels() {
    let c = Canvas::from_pixels(2, 3, vec![1, 2, 3, 4, 5, 6]);
    assert_eq!(*c.get(0, 0), 1);
    assert_eq!(*c.get(1, 0), 2);
    assert_eq!(*c.get(0, 2), 5);
    assert_eq!(*c.get(1, 2), 6);
}

#[test]
fn rendering_fills_every_pixel_from_its_own_coordinates() {
    let image = render(4, 3, |x, y| 10 * y + x);
    assert_eq!(image.width(), 4);
    assert_eq!(image.height(), 3);
    for y in 0..3 {
        for x in 0..4 {
            assert_eq!(*image.get(x, y), 10 * y + x);
        }
    }
}

#[test]
fn rendering_asks_for_each_pixel_once_in_row_order() {
    let asked = std::cell::RefCell::new(Vec::new());
    let image = render(2, 2, |x, y| {
        asked.borrow_mut().push((x, y));
        RGB::new(x as u8, y as u8, 0)
    });
    assert_eq!(asked.into_inner(), vec![(0, 0), (1, 0), (0, 1), (1, 1)]);
    assert_eq!(image.to_ppm(), "P3\n2 2\n255\n0 0 0 1 0 0\n0 1 0 1 1 0\n");
}

#[test]
fn rendering_an_empty_image() {
    let image = render(0, 5, |_, _| 1u8);
    assert_eq!(image.width(), 0);
    assert_eq!(image.height(), 5);
}

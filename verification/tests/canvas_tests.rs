use ppm_canvas::canvas::{ppm_join, ppm_space_index, ppm_split, Canvas, CanvasRow};
use ppm_canvas::color::Color;
use substring::Substring;

#[test]
fn test_ppm_space_index() {
    let s = "123 456 789\n";
    assert_eq!(ppm_space_index(s, 6), 3);
}

#[test]
fn test_ppm_split() {
    let s = "123 456 789";
    assert_eq!(s.substring(3, 4), " ");
    assert_eq!(ppm_split(s, 6), ["123".to_string(), "456 789".to_string()]);
}

#[test]
fn test_ppm_join_long() {
    let strs = vec![
        String::from("123"),
        String::from("456"),
        String::from("789"),
    ];
    assert_eq!(ppm_join(&strs, 6), String::from("123\n456 789"));
}

#[test]
fn test_ppm_split_short() {
    let s = "123 456 789";
    assert_eq!(ppm_split(s, 20), ["123 456 789".to_string(), "".to_string()]);
}

#[test]
fn split_round_trip() {
    let s = "255 204 153 255 204 153 255 204 153 255 204 153 255 204 153 255 204 153";
    let parts = ppm_split(s, 69);
    assert!(parts[0].len() <= 69);
    assert!(!parts[0].contains('\n') && !parts[1].contains('\n'));
    let rejoined = format!("{} {}", parts[0], parts[1]);
    assert_eq!(rejoined, s);
}

#[test]
fn create_a_canvas() {
    let c = Canvas::new(10, 20);
    assert_eq!(c.width(), 10);
    assert_eq!(c.height(), 20);
    for y in 0..20 {
        for x in 0..10 {
            assert_eq!(c.pixel_at(x, y), Color::new(0, 0, 0));
        }
    }
}

#[test]
fn write_pixel_to_canvas() {
    let red = Color::new(1_000_000, 0, 0);
    let mut c = Canvas::new(10, 20);
    c.write_pixel(2, 3, red);
    assert_eq!(c.pixel_at(2, 3), Color::new(1_000_000, 0, 0));
}

#[test]
fn write_pixel_returns_previous() {
    let mut c = Canvas::new(2, 2);
    let red = Color::new(1_000_000, 0, 0);
    let prev = c.write_pixel(0, 0, red);
    assert_eq!(prev, Color::new(0, 0, 0));
    let prev2 = c.write_pixel(0, 0, Color::new(0, 1_000_000, 0));
    assert_eq!(prev2, red);
}

#[test]
fn other_cells_stay_black() {
    let mut c = Canvas::new(3, 3);
    c.write_pixel(1, 1, Color::new(1_000_000, 0, 0));
    for y in 0..3 {
        for x in 0..3 {
            if (x, y) != (1, 1) {
                assert_eq!(c.pixel_at(x, y), Color::new(0, 0, 0));
            }
        }
    }
}

#[test]
fn ppm_header() {
    let c = Canvas::new(5, 3);
    let ppm = c.canvas_to_ppm();
    assert_eq!(ppm.lines().nth(0).unwrap(), "P3");
    assert_eq!(ppm.lines().nth(1).unwrap(), "5 3");
    assert_eq!(ppm.lines().nth(2).unwrap(), "255");
}

#[test]
fn ppm_pixels() {
    let mut canvas = Canvas::new(5, 3);
    let c1 = Color::new(1_500_000, 0, 0);
    let c2 = Color::new(0, 500_000, 0);
    let c3 = Color::new(-500_000, 0, 1_000_000);
    canvas.write_pixel(0, 0, c1);
    canvas.write_pixel(2, 1, c2);
    canvas.write_pixel(4, 2, c3);
    let ppm = canvas.canvas_to_ppm();
    assert_eq!(ppm.lines().nth(3).unwrap(), "255 0 0 0 0 0 0 0 0 0 0 0 0 0 0");
    assert_eq!(ppm.lines().nth(4).unwrap(), "0 0 0 0 0 0 0 128 0 0 0 0 0 0 0");
    assert_eq!(ppm.lines().nth(5).unwrap(), "0 0 0 0 0 0 0 0 0 0 0 0 0 0 255");
}

#[test]
fn split_ppm_lines() {
    let mut canvas = Canvas::new(10, 20);
    for i in 0..20 {
        for j in 0..10 {
            canvas.write_pixel(j as usize, i as usize, Color::new(1_000_000, 800_000, 600_000));
        }
    }
    let ppm = canvas.canvas_to_ppm();
    assert_eq!(
        ppm.lines().nth(3).unwrap(),
        "255 204 153 255 204 153 255 204 153 255 204 153 255 204 153 255 204"
    );
    assert_eq!(
        ppm.lines().nth(4).unwrap(),
        "153 255 204 153 255 204 153 255 204 153 255 204 153"
    );
    assert_eq!(
        ppm.lines().nth(5).unwrap(),
        "255 204 153 255 204 153 255 204 153 255 204 153 255 204 153 255 204"
    );
    assert_eq!(
        ppm.lines().nth(6).unwrap(),
        "153 255 204 153 255 204 153 255 204 153 255 204 153"
    );
}

#[test]
fn wrapped_lines_reconstruct_rows() {
    let mut canvas = Canvas::new(10, 20);
    for y in 0..20 {
        for x in 0..10 {
            canvas.write_pixel(x, y, Color::new(1_000_000, 800_000, 600_000));
        }
    }
    let ppm = canvas.canvas_to_ppm();
    let lines: Vec<&str> = ppm.lines().collect();
    assert_eq!(lines.len(), 3 + 2 * 20);
    let expected = "255 204 153 255 204 153 255 204 153 255 204 153 255 204 153 \
                    255 204 153 255 204 153 255 204 153 255 204 153 255 204 153";
    for y in 0..20 {
        let first = lines[3 + 2 * y];
        let second = lines[4 + 2 * y];
        assert!(first.len() <= 70);
        assert!(second.len() <= 70);
        let rejoined = format!("{} {}", first, second);
        assert_eq!(rejoined.split(' ').count(), 30);
        assert_eq!(rejoined, expected);
    }
}

#[test]
fn single_row_ppm() {
    let row = CanvasRow::new(4, Color::new(1_000_000, 800_000, 600_000));
    assert_eq!(row.ppm(), "255 204 153 255 204 153 255 204 153 255 204 153");
}

#[test]
fn smallest_canvas_document() {
    let c = Canvas::new(1, 1);
    assert_eq!(c.canvas_to_ppm(), "P3\n1 1\n255\n0 0 0\n");
}

#[test]
fn ppm_trailing_newline() {
    let canvas = Canvas::new(5, 3);
    let ppm = canvas.canvas_to_ppm();
    assert_eq!(ppm.chars().last().unwrap(), '\n');
}

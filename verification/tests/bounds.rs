use reaper_svg::bounds::{detect_reaper_bounds, erase_bounds, parse_bound_side, Bounds, Edge};
use reaper_svg::pixel::Marker;
use resvg::tiny_skia::{Pixmap, PremultipliedColorU8};

const YELLOW: (u8, u8, u8, u8) = (255, 255, 0, 255);
const PINK: (u8, u8, u8, u8) = (255, 0, 255, 255);
const CLEAR: (u8, u8, u8, u8) = (0, 0, 0, 0);
const GREY: (u8, u8, u8, u8) = (90, 90, 90, 255);

fn set(pixmap: &mut Pixmap, x: u32, y: u32, c: (u8, u8, u8, u8)) {
    let width = pixmap.width();
    pixmap.pixels_mut()[(y * width + x) as usize] =
        PremultipliedColorU8::from_rgba(c.0, c.1, c.2, c.3).unwrap();
}

fn get(pixmap: &Pixmap, x: u32, y: u32) -> (u8, u8, u8, u8) {
    let p = pixmap.pixel(x, y).unwrap();
    (p.red(), p.green(), p.blue(), p.alpha())
}

fn filled(width: u32, height: u32, c: (u8, u8, u8, u8)) -> Pixmap {
    let mut pixmap = Pixmap::new(width, height).unwrap();
    for y in 0..height {
        for x in 0..width {
            set(&mut pixmap, x, y, c);
        }
    }
    pixmap
}

/// A pixmap with a grey inside and clear edge strips, onto which the four
/// marker runs are drawn from the corners they start at.
fn bordered(width: u32, height: u32, c: (u8, u8, u8, u8), l: u32, r: u32, t: u32, b: u32) -> Pixmap {
    let mut pixmap = filled(width, height, GREY);
    for x in 0..width {
        set(&mut pixmap, x, 0, CLEAR);
        set(&mut pixmap, x, height - 1, CLEAR);
    }
    for y in 0..height {
        set(&mut pixmap, 0, y, CLEAR);
        set(&mut pixmap, width - 1, y, CLEAR);
    }
    for i in 0..=l {
        set(&mut pixmap, i, 0, c);
    }
    for i in 0..=t {
        set(&mut pixmap, 0, i, c);
    }
    for i in 0..=r {
        set(&mut pixmap, width - 1 - i, height - 1, c);
    }
    for i in 0..=b {
        set(&mut pixmap, width - 1, height - 1 - i, c);
    }
    pixmap
}

#[test]
fn no_pixmap_is_empty() {
    // An image without pixels cannot be made, so there is none to scan.
    assert!(Pixmap::new(0, 0).is_none());
    assert!(Pixmap::new(0, 7).is_none());
    assert!(Pixmap::new(7, 0).is_none());
}

#[test]
fn detects_yellow_bounds_on_each_side() {
    let pixmap = bordered(12, 9, YELLOW, 3, 1, 2, 4);
    assert_eq!(
        detect_reaper_bounds(&pixmap),
        Some((Bounds { l: 3, r: 1, t: 2, b: 4 }, Bounds::default()))
    );
}

#[test]
fn detects_pink_bounds_on_each_side() {
    let pixmap = bordered(12, 9, PINK, 5, 0, 6, 1);
    assert_eq!(
        detect_reaper_bounds(&pixmap),
        Some((Bounds::default(), Bounds { l: 5, r: 0, t: 6, b: 1 }))
    );
}

#[test]
fn each_edge_maps_to_its_field() {
    let pixmap = bordered(12, 9, YELLOW, 3, 1, 2, 4);
    assert_eq!(parse_bound_side(&pixmap, Edge::Left), Some((3, 0)));
    assert_eq!(parse_bound_side(&pixmap, Edge::Top), Some((2, 0)));
    assert_eq!(parse_bound_side(&pixmap, Edge::Right), Some((1, 0)));
    assert_eq!(parse_bound_side(&pixmap, Edge::Bottom), Some((4, 0)));
}

#[test]
fn a_full_yellow_frame_is_clamped_on_every_side() {
    let mut pixmap = filled(10, 10, GREY);
    for i in 0..10 {
        set(&mut pixmap, i, 0, YELLOW);
        set(&mut pixmap, i, 9, YELLOW);
        set(&mut pixmap, 0, i, YELLOW);
        set(&mut pixmap, 9, i, YELLOW);
    }
    assert_eq!(
        detect_reaper_bounds(&pixmap),
        Some((Bounds { l: 8, r: 8, t: 8, b: 8 }, Bounds::default()))
    );
}

#[test]
fn the_inside_is_not_looked_at() {
    let mut pixmap = bordered(8, 8, YELLOW, 2, 2, 2, 2);
    set(&mut pixmap, 3, 3, PINK);
    set(&mut pixmap, 4, 4, YELLOW);
    set(&mut pixmap, 5, 2, (1, 2, 3, 4));
    assert_eq!(
        detect_reaper_bounds(&pixmap),
        Some((Bounds { l: 2, r: 2, t: 2, b: 2 }, Bounds::default()))
    );
}

#[test]
fn one_bad_edge_fails_the_whole_detection() {
    let good = bordered(8, 8, YELLOW, 2, 2, 2, 2);
    assert!(detect_reaper_bounds(&good).is_some());

    let mut other_on_top = bordered(8, 8, YELLOW, 2, 2, 2, 2);
    set(&mut other_on_top, 5, 0, GREY);
    assert_eq!(detect_reaper_bounds(&other_on_top), None);

    let mut other_on_left = bordered(8, 8, YELLOW, 2, 2, 2, 2);
    set(&mut other_on_left, 0, 5, GREY);
    assert_eq!(detect_reaper_bounds(&other_on_left), None);

    let mut other_on_bottom = bordered(8, 8, YELLOW, 2, 2, 2, 2);
    set(&mut other_on_bottom, 2, 7, GREY);
    assert_eq!(detect_reaper_bounds(&other_on_bottom), None);

    let mut other_on_right = bordered(8, 8, YELLOW, 2, 2, 2, 2);
    set(&mut other_on_right, 7, 2, GREY);
    assert_eq!(detect_reaper_bounds(&other_on_right), None);

    let mut marker_after_gap = bordered(8, 8, YELLOW, 2, 2, 2, 2);
    set(&mut marker_after_gap, 5, 0, YELLOW);
    assert_eq!(detect_reaper_bounds(&marker_after_gap), None);
}

#[test]
fn an_image_without_a_frame_has_no_bounds() {
    assert_eq!(detect_reaper_bounds(&filled(8, 8, GREY)), None);
    assert_eq!(detect_reaper_bounds(&filled(8, 8, CLEAR)), None);
    assert_eq!(detect_reaper_bounds(&Pixmap::new(5, 5).unwrap()), None);
}

#[test]
fn an_image_under_three_pixels_has_no_bounds() {
    assert_eq!(detect_reaper_bounds(&filled(2, 2, YELLOW)), None);
    assert_eq!(detect_reaper_bounds(&filled(2, 9, YELLOW)), None);
    assert_eq!(detect_reaper_bounds(&filled(9, 2, YELLOW)), None);
    assert_eq!(detect_reaper_bounds(&filled(1, 1, YELLOW)), None);
    assert_eq!(
        detect_reaper_bounds(&filled(3, 3, YELLOW)),
        Some((Bounds { l: 1, r: 1, t: 1, b: 1 }, Bounds::default()))
    );
}

#[test]
fn paint_draws_one_more_pixel_than_each_width() {
    let mut pixmap = filled(7, 6, GREY);
    Bounds { l: 2, r: 1, t: 3, b: 0 }.paint(&mut pixmap, Marker::Yellow);
    for y in 0..6 {
        for x in 0..7 {
            let top = y == 0 && x <= 2;
            let left = x == 0 && y <= 3;
            let bottom = y == 5 && x >= 7 - 2;
            let right = x == 6 && y >= 6 - 1;
            let expected = if top || left || bottom || right { YELLOW } else { GREY };
            assert_eq!(get(&pixmap, x, y), expected, "at ({x}, {y})");
        }
    }
}

#[test]
fn paint_in_pink() {
    let mut pixmap = Pixmap::new(5, 5).unwrap();
    Bounds { l: 1, r: 0, t: 0, b: 0 }.paint(&mut pixmap, Marker::Pink);
    assert_eq!(get(&pixmap, 0, 0), PINK);
    assert_eq!(get(&pixmap, 1, 0), PINK);
    assert_eq!(get(&pixmap, 2, 0), CLEAR);
    assert_eq!(get(&pixmap, 0, 1), CLEAR);
    assert_eq!(get(&pixmap, 4, 4), PINK);
    assert_eq!(get(&pixmap, 3, 4), CLEAR);
    assert_eq!(get(&pixmap, 4, 3), CLEAR);
}

#[test]
fn paint_of_empty_bounds_changes_nothing() {
    let mut pixmap = filled(6, 6, GREY);
    let before = pixmap.clone();
    Bounds::default().paint(&mut pixmap, Marker::Yellow);
    assert!(pixmap == before);
}

#[test]
fn paint_stops_at_the_edge_of_the_image() {
    let mut pixmap = filled(4, 3, GREY);
    Bounds { l: 100, r: u32::MAX, t: 7, b: 3 }.paint(&mut pixmap, Marker::Yellow);
    for y in 0..3 {
        for x in 0..4 {
            let on_edge = x == 0 || y == 0 || x == 3 || y == 2;
            let expected = if on_edge { YELLOW } else { GREY };
            assert_eq!(get(&pixmap, x, y), expected, "at ({x}, {y})");
        }
    }
}

#[test]
fn paint_on_a_very_wide_image() {
    let mut pixmap = Pixmap::new(9000, 4).unwrap();
    Bounds { l: 8500, r: 2, t: 1, b: 1 }.paint(&mut pixmap, Marker::Yellow);
    assert_eq!(pixmap.width(), 9000);
    assert_eq!(pixmap.height(), 4);
    assert_eq!(get(&pixmap, 0, 0), YELLOW);
    assert_eq!(get(&pixmap, 8999, 3), YELLOW);
    assert_eq!(get(&pixmap, 4000, 2), CLEAR);
}

#[test]
fn erase_clears_the_four_edge_strips() {
    let mut pixmap = filled(6, 5, GREY);
    set(&mut pixmap, 0, 0, YELLOW);
    set(&mut pixmap, 5, 4, PINK);
    erase_bounds(&mut pixmap);
    for y in 0..5 {
        for x in 0..6 {
            let on_edge = x == 0 || y == 0 || x == 5 || y == 4;
            let expected = if on_edge { CLEAR } else { GREY };
            assert_eq!(get(&pixmap, x, y), expected, "at ({x}, {y})");
        }
    }
}

#[test]
fn erase_a_single_pixel_image() {
    let mut pixmap = filled(1, 1, GREY);
    erase_bounds(&mut pixmap);
    assert_eq!(get(&pixmap, 0, 0), CLEAR);
}

#[test]
fn painted_bounds_are_detected_again() {
    let bounds = Bounds { l: 4, r: 2, t: 0, b: 3 };
    let mut pixmap = filled(9, 8, GREY);
    erase_bounds(&mut pixmap);
    bounds.paint(&mut pixmap, Marker::Yellow);
    assert_eq!(detect_reaper_bounds(&pixmap), Some((bounds, Bounds::default())));

    let mut pixmap = filled(9, 8, GREY);
    erase_bounds(&mut pixmap);
    bounds.paint(&mut pixmap, Marker::Pink);
    assert_eq!(detect_reaper_bounds(&pixmap), Some((Bounds::default(), bounds)));
}

use recolor::color::{Pixel, Rgb};
use recolor::grid::ImageGrid;

fn px(red: u8, green: u8, blue: u8, alpha: u8) -> Pixel {
    Pixel { red, green, blue, alpha }
}

#[test]
fn pixel_constructors() {
    assert_eq!(Pixel::new(1, 2, 3, 4), px(1, 2, 3, 4));
    assert_eq!(Rgb::new(1, 2, 3), Rgb { red: 1, green: 2, blue: 3 });
    assert_eq!(px(1, 2, 3, 4).recolored(Rgb::new(9, 8, 7)), px(9, 8, 7, 4));
    assert_eq!(px(1, 2, 3, 0).recolored(Rgb::new(9, 8, 7)), px(9, 8, 7, 0));
}

#[test]
fn grid_keeps_its_pixels_in_rows() {
    let pixels = vec![
        px(1, 0, 0, 255),
        px(2, 0, 0, 255),
        px(3, 0, 0, 255),
        px(4, 0, 0, 255),
        px(5, 0, 0, 255),
        px(6, 0, 0, 255),
    ];
    let grid = ImageGrid::from_pixels(3, 2, &pixels).unwrap();
    assert_eq!(grid.width(), 3);
    assert_eq!(grid.height(), 2);
    assert_eq!(grid.dimensions(), (3, 2));
    assert_eq!(grid.pixel(0, 0), Some(px(1, 0, 0, 255)));
    assert_eq!(grid.pixel(2, 0), Some(px(3, 0, 0, 255)));
    assert_eq!(grid.pixel(0, 1), Some(px(4, 0, 0, 255)));
    assert_eq!(grid.pixel(2, 1), Some(px(6, 0, 0, 255)));
    assert_eq!(grid.to_pixels(), pixels);
}

#[test]
fn grid_has_no_pixel_outside() {
    let pixels = vec![px(1, 2, 3, 4), px(5, 6, 7, 8)];
    let grid = ImageGrid::from_pixels(2, 1, &pixels).unwrap();
    assert_eq!(grid.pixel(2, 0), None);
    assert_eq!(grid.pixel(0, 1), None);
    assert_eq!(grid.pixel(u32::MAX, u32::MAX), None);
    assert_eq!(grid.pixel(1, 0), Some(px(5, 6, 7, 8)));
}

#[test]
fn grid_wants_width_times_height_pixels() {
    let pixels = vec![px(0, 0, 0, 0); 5];
    assert!(ImageGrid::from_pixels(2, 3, &pixels).is_none());
    assert!(ImageGrid::from_pixels(5, 0, &pixels).is_none());
    assert!(ImageGrid::from_pixels(1, 4, &pixels).is_none());
    assert!(ImageGrid::from_pixels(5, 1, &pixels).is_some());
    assert!(ImageGrid::from_pixels(1, 5, &pixels).is_some());
}

#[test]
fn grid_may_be_empty() {
    let none: Vec<Pixel> = Vec::new();
    let grid = ImageGrid::from_pixels(0, 0, &none).unwrap();
    assert_eq!(grid.dimensions(), (0, 0));
    assert_eq!(grid.to_pixels(), none);
    let flat = ImageGrid::from_pixels(7, 0, &none).unwrap();
    assert_eq!(flat.dimensions(), (7, 0));
    assert_eq!(flat.pixel(0, 0), None);
    let thin = ImageGrid::from_pixels(0, 7, &none).unwrap();
    assert_eq!(thin.dimensions(), (0, 7));
    assert_eq!(thin.to_pixels(), none);
}

#[test]
fn grid_too_large_to_allocate_is_refused() {
    let none: Vec<Pixel> = Vec::new();
    assert!(ImageGrid::from_pixels(u32::MAX, u32::MAX, &none).is_none());
    assert!(ImageGrid::from_pixels(u32::MAX, 1, &none).is_none());
}

#[test]
fn grid_keeps_all_four_channels() {
    let pixels = vec![px(10, 20, 30, 40), px(255, 254, 253, 252), px(0, 0, 0, 0), px(0, 1, 0, 1)];
    let grid = ImageGrid::from_pixels(2, 2, &pixels).unwrap();
    assert_eq!(grid.to_pixels(), pixels);
    assert_eq!(grid.pixel(1, 0), Some(px(255, 254, 253, 252)));
    assert_eq!(grid.pixel(1, 1), Some(px(0, 1, 0, 1)));
}

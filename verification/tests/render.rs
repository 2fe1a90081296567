use recolor::color::Pixel;
use recolor::format::{require_rgba8, PixelFormat, RecolorError};
use recolor::render::{hex_string, preview_line, swatch, PREVIEW_LIMIT};

fn tint(red: u8, green: u8, blue: u8, alpha: u8) -> Pixel {
    Pixel { red, green, blue, alpha }
}

#[test]
fn hex_string_is_lower_case_with_two_digits_each() {
    assert_eq!(hex_string(tint(255, 0, 255, 255)), "#ff00ff");
    assert_eq!(hex_string(tint(0, 0, 0, 0)), "#000000");
    assert_eq!(hex_string(tint(1, 10, 16, 3)), "#010a10");
    assert_eq!(hex_string(tint(0xab, 0xcd, 0xef, 0x12)), "#abcdef");
    assert_eq!(hex_string(tint(9, 99, 159, 0)), "#09639f");
}

#[test]
fn hex_string_is_that_of_std() {
    for value in 0..=255u8 {
        let color = tint(value, 255 - value, value / 2, 7);
        let expected = format!("#{:02x}{:02x}{:02x}", color.red, color.green, color.blue);
        assert_eq!(hex_string(color), expected);
    }
}

#[test]
fn swatch_is_four_blanks_on_the_color() {
    assert_eq!(swatch(tint(255, 0, 0, 255)), "\u{1b}[48;2;255;0;0m    \u{1b}[49m");
    assert_eq!(swatch(tint(0, 10, 100, 0)), "\u{1b}[48;2;0;10;100m    \u{1b}[49m");
    assert_eq!(swatch(tint(9, 99, 199, 1)), "\u{1b}[48;2;9;99;199m    \u{1b}[49m");
}

#[test]
fn preview_shows_color_swatch_and_locations() {
    let line = preview_line(tint(255, 0, 0, 255), &vec![(0, 0), (1, 0)]);
    assert_eq!(
        line,
        "Color: #ff0000 \u{1b}[48;2;255;0;0m    \u{1b}[49m at locations: [(0, 0), (1, 0)]..."
    );
}

#[test]
fn preview_of_one_location() {
    let line = preview_line(tint(0, 255, 0, 255), &vec![(0, 1)]);
    assert_eq!(line, "Color: #00ff00 \u{1b}[48;2;0;255;0m    \u{1b}[49m at locations: [(0, 1)]...");
}

#[test]
fn preview_of_no_location() {
    let line = preview_line(tint(1, 2, 3, 4), &Vec::new());
    assert_eq!(line, "Color: #010203 \u{1b}[48;2;1;2;3m    \u{1b}[49m at locations: []...");
}

#[test]
fn preview_shows_ten_locations_at_most() {
    assert_eq!(PREVIEW_LIMIT, 10);
    let mut locations: Vec<(u32, u32)> = Vec::new();
    for k in 0..25u32 {
        locations.push((k, 100 + k));
    }
    let color = tint(16, 32, 48, 255);
    let shown = format!("{:?}", &locations[..10]);
    let expected =
        format!("Color: #102030 \u{1b}[48;2;16;32;48m    \u{1b}[49m at locations: {}...", shown);
    assert_eq!(preview_line(color, &locations), expected);
    let ten: Vec<(u32, u32)> = locations[..10].to_vec();
    assert_eq!(preview_line(color, &ten), expected);
    let eleven: Vec<(u32, u32)> = locations[..11].to_vec();
    assert_eq!(preview_line(color, &eleven), expected);
    let nine: Vec<(u32, u32)> = locations[..9].to_vec();
    assert!(preview_line(color, &nine).ends_with("(8, 108)]..."));
}

#[test]
fn preview_writes_numbers_in_decimal() {
    let locations = vec![(0, 9), (10, 99), (100, 1000), (4294967295, 1234567890)];
    let line = preview_line(tint(0, 0, 0, 1), &locations);
    assert!(line.ends_with(
        " at locations: [(0, 9), (10, 99), (100, 1000), (4294967295, 1234567890)]..."
    ));
}

#[test]
fn only_rgba8_is_accepted() {
    assert_eq!(require_rgba8(PixelFormat::Rgba8), Ok(()));
    let others = [
        PixelFormat::L8,
        PixelFormat::La8,
        PixelFormat::Rgb8,
        PixelFormat::L16,
        PixelFormat::La16,
        PixelFormat::Rgb16,
        PixelFormat::Rgba16,
        PixelFormat::Rgb32F,
        PixelFormat::Rgba32F,
        PixelFormat::Other,
    ];
    for format in others {
        assert_eq!(require_rgba8(format), Err(RecolorError::UnsupportedPixelFormat));
    }
}

#[test]
fn formats_are_reported_by_name() {
    assert_eq!(PixelFormat::L8.name(), "L8");
    assert_eq!(PixelFormat::La8.name(), "La8");
    assert_eq!(PixelFormat::Rgb8.name(), "Rgb8");
    assert_eq!(PixelFormat::Rgba8.name(), "Rgba8");
    assert_eq!(PixelFormat::L16.name(), "L16");
    assert_eq!(PixelFormat::La16.name(), "La16");
    assert_eq!(PixelFormat::Rgb16.name(), "Rgb16");
    assert_eq!(PixelFormat::Rgba16.name(), "Rgba16");
    assert_eq!(PixelFormat::Rgb32F.name(), "Rgb32F");
    assert_eq!(PixelFormat::Rgba32F.name(), "Rgba32F");
    assert_eq!(PixelFormat::Other.name(), "unknown");
    assert_eq!(PixelFormat::L8.report(), "Image is encoded as: L8");
    assert_eq!(PixelFormat::Rgba32F.report(), "Image is encoded as: Rgba32F");
}

#[test]
fn each_error_has_its_message() {
    assert_eq!(RecolorError::SourceNotFound.message(), "Failed to open image file");
    assert_eq!(RecolorError::DecodeFailure.message(), "Failed to decode image");
    assert_eq!(
        RecolorError::UnsupportedPixelFormat.message(),
        "Unsupported color type for recoloring"
    );
    assert_eq!(RecolorError::InputStreamFailure.message(), "Failed to read line");
    assert_eq!(RecolorError::OutputWriteFailure.message(), "Failed to save recolored image");
    assert_eq!(RecolorError::MalformedColorInput.message(), "Not a color in hex format");
}

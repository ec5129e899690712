use aarty::{
    convert_image_to_ascii, ANSIColor, Config, Rgba, Sympols, TextImage, ToTextImage, COLORS,
    REVERSE,
};
use aarty::impl_image::IntegerImage;
use image::RgbaImage;

fn rgba8(buf: RgbaImage) -> IntegerImage {
    IntegerImage::new(image::DynamicImage::ImageRgba8(buf)).expect("the samples are integers")
}

fn two_by_one() -> IntegerImage {
    let mut buf = RgbaImage::new(2, 1);
    buf.put_pixel(0, 0, image::Rgba([0, 0, 0, 255]));
    buf.put_pixel(1, 0, image::Rgba([255, 255, 255, 255]));
    rgba8(buf)
}

#[test]
fn brightest_pixel_is_clamped_to_last_symbol() {
    let ramp = Sympols::new(vec![' ', '.', '#']);
    let pixel = Rgba::new(255, 255, 255, 255);
    assert_eq!(ramp.sym_and_index(&pixel), ('#', 2));
}

#[test]
fn black_pixel_maps_to_first_symbol() {
    let ramp = Sympols::new(vec![' ', '.', '#']);
    let pixel = Rgba::new(0, 0, 0, 255);
    assert_eq!(ramp.sym_and_index(&pixel), (' ', 0));
}

#[test]
fn plain_two_by_one_image_streams_two_glyphs_and_a_newline() {
    let cfg = Config { sympols: Sympols::new(vec![' ', '#']), background: None, flags: 0 };
    let mut out: Vec<u8> = Vec::new();
    convert_image_to_ascii(&cfg, &two_by_one(), &mut out).unwrap();
    assert_eq!(out, b" #\n".to_vec());
}

#[test]
fn reversed_fragment_swaps_background_and_foreground() {
    let cfg = Config {
        sympols: Sympols::new(vec![' ', '#']),
        background: Some(ANSIColor::new(232, 209, 204)),
        flags: COLORS | REVERSE,
    };
    let mut buf = RgbaImage::new(1, 1);
    buf.put_pixel(0, 0, image::Rgba([10, 20, 30, 255]));
    let mut out: Vec<u8> = Vec::new();
    convert_image_to_ascii(&cfg, &rgba8(buf), &mut out).unwrap();
    assert_eq!(
        String::from_utf8(out).unwrap(),
        "\u{1b}[48;2;10;20;30m\u{1b}[38;2;232;209;204m \u{1b}[0m\u{1b}[0m\n"
    );
}

#[test]
fn buffered_rendering_equals_streamed_output() {
    let cfg = Config {
        sympols: Sympols::new(vec![' ', '.', '#']),
        background: Some(ANSIColor::new(1, 2, 3)),
        flags: COLORS,
    };
    let image = two_by_one();
    let mut out: Vec<u8> = Vec::new();
    convert_image_to_ascii(&cfg, &image, &mut out).unwrap();
    let text: TextImage = image.to_text(cfg.clone());
    assert_eq!(text.to_string().into_bytes(), out);
    assert_eq!(text.to_string(), text.to_string());
}

fn one_pixel(r: u8, g: u8, b: u8, a: u8) -> IntegerImage {
    let mut buf = RgbaImage::new(1, 1);
    buf.put_pixel(0, 0, image::Rgba([r, g, b, a]));
    rgba8(buf)
}

fn stream(cfg: &Config, image: &IntegerImage) -> String {
    let mut out: Vec<u8> = Vec::new();
    convert_image_to_ascii(cfg, image, &mut out).unwrap();
    String::from_utf8(out).unwrap()
}

#[test]
fn plain_output_has_no_escape_sequence() {
    let cfg = Config {
        sympols: Sympols::new(vec![' ', '#']),
        background: Some(ANSIColor::new(1, 2, 3)),
        flags: REVERSE,
    };
    let text = stream(&cfg, &two_by_one());
    assert_eq!(text, " #\n");
    assert!(!text.contains('\u{1b}'));
}

#[test]
fn background_is_announced_once_and_closed_at_the_end() {
    let cfg = Config {
        sympols: Sympols::new(vec![' ', '#']),
        background: Some(ANSIColor::new(1, 2, 3)),
        flags: 0,
    };
    assert_eq!(stream(&cfg, &two_by_one()), "\u{1b}[48;2;1;2;3m #\n\u{1b}[0m");
    let empty = rgba8(RgbaImage::new(0, 0));
    assert_eq!(stream(&cfg, &empty), "\u{1b}[48;2;1;2;3m\u{1b}[0m");
}

#[test]
fn colored_fragment_has_one_reset_for_each_color() {
    let with_background = Config {
        sympols: Sympols::new(vec![' ', '#']),
        background: Some(ANSIColor::new(1, 2, 3)),
        flags: COLORS,
    };
    assert_eq!(
        stream(&with_background, &one_pixel(200, 200, 200, 255)),
        "\u{1b}[48;2;1;2;3m\u{1b}[48;2;1;2;3m\u{1b}[38;2;200;200;200m#\u{1b}[0m\u{1b}[0m\n\u{1b}[0m"
    );
    let without = Config { sympols: Sympols::new(vec![' ', '#']), background: None, flags: COLORS };
    assert_eq!(
        stream(&without, &one_pixel(200, 200, 200, 255)),
        "\u{1b}[38;2;200;200;200m#\u{1b}[0m\n"
    );
    let reversed =
        Config { sympols: Sympols::new(vec![' ', '#']), background: None, flags: COLORS | REVERSE };
    assert_eq!(
        stream(&reversed, &one_pixel(200, 200, 200, 255)),
        "\u{1b}[48;2;200;200;200m#\u{1b}[0m\n"
    );
}

#[test]
fn transparent_pixel_has_no_color_escape_but_its_reset() {
    let cfg = Config { sympols: Sympols::new(vec![' ', '#']), background: None, flags: COLORS };
    assert_eq!(stream(&cfg, &one_pixel(200, 200, 200, 119)), " \u{1b}[0m\n");
}

#[test]
fn empty_ramp_still_emits_colors() {
    let cfg = Config {
        sympols: Sympols::empty(),
        background: Some(ANSIColor::new(9, 8, 7)),
        flags: COLORS | REVERSE,
    };
    assert_eq!(
        stream(&cfg, &one_pixel(5, 6, 7, 255)),
        "\u{1b}[48;2;5;6;7m\u{1b}[38;2;9;8;7m \u{1b}[0m\u{1b}[0m\n"
    );
}

#[test]
fn conversion_appends_to_what_the_buffer_holds() {
    let cfg = Config { sympols: Sympols::new(vec![' ', '#']), background: None, flags: 0 };
    let mut out: Vec<u8> = b">".to_vec();
    convert_image_to_ascii(&cfg, &two_by_one(), &mut out).unwrap();
    assert_eq!(out, b"> #\n".to_vec());
}

#[test]
fn glyphs_are_written_as_utf8() {
    let cfg = Config { sympols: Sympols::new(vec!['░', '█']), background: None, flags: 0 };
    assert_eq!(stream(&cfg, &two_by_one()), "░█\n");
}

#[test]
fn fragment_of_a_pixel_and_its_colors() {
    let cfg = Config {
        sympols: Sympols::new(vec![' ', '.', '#']),
        background: Some(ANSIColor::new(232, 209, 204)),
        flags: COLORS | REVERSE,
    };
    let info = aarty::convert::fragment_of(&cfg, Rgba::new(10, 20, 30, 255));
    assert_eq!(info.sym, ' ');
    assert_eq!(info.sym_index, 0);
    assert_eq!(info.fg, ANSIColor::new(10, 20, 30));
    let (bc, fc) = aarty::convert::fragment_colors(&cfg, &info);
    assert_eq!(bc, Some(ANSIColor::new(10, 20, 30)));
    assert_eq!(fc, Some(ANSIColor::new(232, 209, 204)));
    let plain = Config { flags: COLORS, ..cfg.clone() };
    let (bc, fc) = aarty::convert::fragment_colors(&plain, &info);
    assert_eq!(bc, Some(ANSIColor::new(232, 209, 204)));
    assert_eq!(fc, Some(ANSIColor::new(10, 20, 30)));
    let bare = Config { background: None, ..cfg };
    let (bc, fc) = aarty::convert::fragment_colors(&bare, &info);
    assert_eq!(bc, Some(ANSIColor::new(10, 20, 30)));
    assert_eq!(fc, None);
}

#[test]
fn ramp_beyond_the_scale_converts_black_images_only() {
    let long = Sympols::new((0..300).map(|i| char::from_u32(0x100 + i).unwrap()).collect());
    let first = long.get(0);
    let cfg = Config { sympols: long, background: None, flags: 0 };
    let black = rgba8(RgbaImage::new(2, 2));
    assert!(aarty::convert::convertible(&cfg, &black));
    assert_eq!(stream(&cfg, &black), format!("{first}{first}\n{first}{first}\n"));
    assert!(!aarty::convert::convertible(&cfg, &two_by_one()));
    let short = Config { sympols: Sympols::new(vec![' ', '#']), background: None, flags: 0 };
    assert!(aarty::convert::convertible(&short, &two_by_one()));
    let empty = rgba8(RgbaImage::new(0, 0));
    assert!(aarty::convert::convertible(&cfg, &empty));
}

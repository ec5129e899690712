use aarty::args::{Arguments, Mode, OutputMethod};
use aarty::ascii_processor::{
    ascii_elements, character_defined, character_for, generate_ascii, intent, samples_defined,
    try_generate_ascii, Element,
};
use aarty::text::{glyphs, same_text};
use aarty::Rgba;
use aarty::impl_image::IntegerImage;
use image::RgbaImage;

fn rgba8(buf: RgbaImage) -> IntegerImage {
    IntegerImage::new(image::DynamicImage::ImageRgba8(buf)).expect("the samples are integers")
}

const DEFAULT: &str = " .,-~!;:=*&%$@#";

fn gradient(width: u32, height: u32) -> IntegerImage {
    let mut buf = RgbaImage::new(width, height);
    for y in 0..height {
        for x in 0..width {
            let v = ((x + y * width) * 10) as u8;
            buf.put_pixel(x, y, image::Rgba([v, v, v, 255]));
        }
    }
    rgba8(buf)
}

#[test]
fn intensity_is_the_sum_of_the_thirds() {
    assert_eq!(intent(Rgba::new(255, 255, 255, 255)), 255);
    assert_eq!(intent(Rgba::new(2, 2, 2, 255)), 0);
    assert_eq!(intent(Rgba::new(100, 150, 200, 1)), 33 + 50 + 66);
    assert_eq!(intent(Rgba::new(100, 150, 200, 0)), 0);
}

#[test]
fn symbol_is_the_intensity_over_the_step() {
    let characters = glyphs(DEFAULT);
    assert_eq!(characters.len(), 15);
    // the step is 39 - 15 = 24; 149 / 24 = 6
    assert_eq!(
        character_for(Rgba::new(100, 150, 200, 255), &characters, Mode::NormalAscii),
        Element::Glyph { ch: ';', color: None }
    );
    assert_eq!(
        character_for(Rgba::new(100, 150, 200, 255), &characters, Mode::Colored),
        Element::Glyph { ch: ';', color: Some((100, 150, 200)) }
    );
    // 255 / 24 = 10
    assert_eq!(
        character_for(Rgba::new(255, 255, 255, 255), &characters, Mode::NormalAscii),
        Element::Glyph { ch: '&', color: None }
    );
}

#[test]
fn symbol_is_defined_where_the_index_falls_among_the_symbols() {
    let white = Rgba::new(255, 255, 255, 255);
    let black = Rgba::new(0, 0, 0, 255);
    assert!(!character_defined(black, 6));
    // 7 symbols: the step is 32, and 255 / 32 = 7 is no index
    assert!(character_defined(black, 7));
    assert!(character_defined(Rgba::new(222, 222, 222, 255), 7));
    assert!(!character_defined(white, 7));
    assert!(character_defined(white, 9));
    assert!(character_defined(white, 30));
    // 32 symbols: the step is 7, and 255 / 7 = 36
    assert!(!character_defined(white, 32));
    // 38 symbols: the step is 1, and the intensity itself is the index
    assert!(!character_defined(white, 38));
    assert!(character_defined(Rgba::new(37, 37, 37, 255), 38));
    assert!(!character_defined(Rgba::new(114, 114, 114, 255), 38));
    // no step is left for 39 symbols and more
    assert!(!character_defined(black, 39));
    assert!(!character_defined(black, 255));
    // the step is taken from the low byte of the number of symbols
    assert!(character_defined(white, 256 + 15));
}

#[test]
fn elements_sample_the_grid() {
    let characters = glyphs(DEFAULT);
    let image = gradient(5, 5);
    let at = |x: u32, y: u32| {
        character_for(
            Rgba::new(((x + y * 5) * 10) as u8, ((x + y * 5) * 10) as u8, ((x + y * 5) * 10) as u8, 255),
            &characters,
            Mode::NormalAscii,
        )
    };
    assert_eq!(
        ascii_elements(&image, &characters, Mode::NormalAscii, 2),
        vec![
            at(0, 0),
            at(2, 0),
            at(4, 0),
            Element::Break,
            at(0, 4),
            at(2, 4),
            at(4, 4),
            Element::Break
        ]
    );
    assert_eq!(ascii_elements(&image, &characters, Mode::NormalAscii, 1).len(), 3 * 6);
    assert_eq!(ascii_elements(&gradient(0, 3), &characters, Mode::Colored, 1), vec![
        Element::Break,
        Element::Break
    ]);
}

#[test]
fn plain_art_is_the_symbols_and_line_feeds() {
    let args = Arguments {
        mode: Mode::NormalAscii,
        output_method: OutputMethod::Stdout,
        image: "".into(),
        characters: DEFAULT.into(),
        scale: 1,
        width: None,
        background: None,
        output: "".into(),
    };
    // rows 0 and 2 are drawn; the intensities are 0, 9, 18 and 60, 69, 78
    assert_eq!(generate_ascii(&gradient(3, 3), &args), "   \n,,-\n");
    let wide = Arguments { width: Some(1), ..args };
    // the scale is 3 / 1
    assert_eq!(generate_ascii(&gradient(3, 3), &wide), " \n");
}

#[test]
fn glyphs_of_a_text() {
    assert_eq!(glyphs("a░b"), vec!['a', '░', 'b']);
    assert_eq!(glyphs(""), Vec::<char>::new());
}

#[test]
fn texts_are_compared_glyph_by_glyph() {
    assert!(same_text("", ""));
    assert!(same_text("a░b", "a░b"));
    assert!(!same_text("a░b", "a░c"));
    assert!(!same_text("a░b", "a░"));
    assert!(!same_text("ab", "abc"));
}

fn arguments(characters: &str, scale: u32, width: Option<u32>) -> Arguments {
    Arguments {
        mode: Mode::NormalAscii,
        output_method: OutputMethod::Stdout,
        image: "".into(),
        characters: characters.into(),
        scale,
        width,
        background: None,
        output: "".into(),
    }
}

#[test]
fn only_the_drawn_pixels_need_a_symbol() {
    // seven symbols have none for an intensity of 224 and more
    let mut buf = RgbaImage::new(2, 2);
    buf.put_pixel(1, 1, image::Rgba([255, 255, 255, 255]));
    let image = rgba8(buf);
    // at the scale 1 the rows 0, 2, .. are drawn: the white pixel is not
    assert!(samples_defined(&image, 7, 1));
    let mut buf = RgbaImage::new(2, 2);
    buf.put_pixel(1, 0, image::Rgba([255, 255, 255, 255]));
    let image = rgba8(buf);
    assert!(!samples_defined(&image, 7, 1));
    // at the scale 2 the columns 0, 2, .. are drawn
    assert!(samples_defined(&image, 7, 2));
    assert!(samples_defined(&image, 15, 1));
}

#[test]
fn art_is_refused_where_it_cannot_be_drawn() {
    let image = gradient(3, 3);
    assert_eq!(
        try_generate_ascii(&image, &arguments(DEFAULT, 1, None)),
        Some("   \n,,-\n".to_string())
    );
    // a wanted width of 0, a scale of 0, a scale whose double is too large
    assert_eq!(try_generate_ascii(&image, &arguments(DEFAULT, 1, Some(0))), None);
    assert_eq!(try_generate_ascii(&image, &arguments(DEFAULT, 0, None)), None);
    assert_eq!(try_generate_ascii(&image, &arguments(DEFAULT, 1, Some(4))), None);
    assert_eq!(try_generate_ascii(&image, &arguments(DEFAULT, 1 << 31, None)), None);
    assert_eq!(
        try_generate_ascii(&image, &arguments(DEFAULT, u32::MAX / 2, None)),
        Some(" \n".to_string())
    );
    // too few symbols
    assert_eq!(try_generate_ascii(&image, &arguments(" .:", 1, None)), None);
}

/// Whether `piece` is what a terminal is given for `symbol` with the colors
/// of the codes: the symbol alone; the symbol before the reset sequence; or
/// the symbol between the escape sequence of the codes and the reset
/// sequence, where the foreground has its code in true color or the code of
/// one of the sixteen colors.
fn is_painted(piece: &str, symbol: char, bg: &str, fg: Option<&str>) -> bool {
    let sixteen: Vec<String> = (30..38).chain(90..98).map(|code| code.to_string()).collect();
    let mut styles: Vec<String> = Vec::new();
    match fg {
        None => styles.push(bg.to_string()),
        Some(truecolor) => {
            let join = if bg.is_empty() { "" } else { ";" };
            styles.push(format!("{bg}{join}{truecolor}"));
            for code in &sixteen {
                styles.push(format!("{bg}{join}{code}"));
            }
        }
    }
    piece == symbol.to_string()
        || piece == format!("{symbol}\u{1b}[0m")
        || styles.iter().any(|style| piece == format!("\u{1b}[{style}m{symbol}\u{1b}[0m"))
}

#[test]
fn colored_art_frames_each_symbol_with_its_colors_or_leaves_it_alone() {
    let mut buf = RgbaImage::new(1, 1);
    buf.put_pixel(0, 0, image::Rgba([100, 150, 200, 255]));
    let image = rgba8(buf);
    // the color of the pixel
    let mut args = arguments(DEFAULT, 1, None);
    args.mode = Mode::Colored;
    let art = generate_ascii(&image, &args);
    let piece = art.strip_suffix('\n').expect("the row ends with a line feed");
    assert!(is_painted(piece, ';', "", Some("38;2;100;150;200")));
    // a background alone: blue has the code 44
    let mut args = arguments(DEFAULT, 1, None);
    args.background = Some("blue".to_string());
    let art = generate_ascii(&image, &args);
    let piece = art.strip_suffix('\n').expect("the row ends with a line feed");
    assert!(is_painted(piece, ';', "44", None));
    // a name that names no color gives white, with the code 47
    args.background = Some("no color".to_string());
    let art = generate_ascii(&image, &args);
    let piece = art.strip_suffix('\n').expect("the row ends with a line feed");
    assert!(is_painted(piece, ';', "47", None));
    // both: the background comes first
    args.mode = Mode::Colored;
    args.background = Some("Blue".to_string());
    let art = generate_ascii(&image, &args);
    let piece = art.strip_suffix('\n').expect("the row ends with a line feed");
    assert!(is_painted(piece, ';', "44", Some("38;2;100;150;200")));
    // without color and background the symbol stands alone
    assert_eq!(generate_ascii(&image, &arguments(DEFAULT, 1, None)), ";\n");
}

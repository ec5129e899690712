use aarty::{
    convert_image_to_ascii, ANSIColor, Config, Fragment, FragmentInfo, FragmentWriter,
    IndexdFragment, PixelImage, SinkError, Sympols, TextImage, ToTextImage, COLORS, REVERSE,
};
use aarty::impl_image::IntegerImage;
use image::{DynamicImage, GrayImage, RgbImage, RgbaImage};

fn rgba8(buf: RgbaImage) -> IntegerImage {
    IntegerImage::new(image::DynamicImage::ImageRgba8(buf)).expect("the samples are integers")
}

fn rgb8(buf: RgbImage) -> IntegerImage {
    IntegerImage::new(image::DynamicImage::ImageRgb8(buf)).expect("the samples are integers")
}

fn luma8(buf: GrayImage) -> IntegerImage {
    IntegerImage::new(image::DynamicImage::ImageLuma8(buf)).expect("the samples are integers")
}

fn abc() -> Sympols {
    Sympols::new(vec!['a', 'b', 'c', 'd'])
}

fn plain_config() -> Config {
    Config { sympols: abc(), background: None, flags: 0 }
}

fn sample() -> IntegerImage {
    let mut buf = RgbaImage::new(3, 2);
    buf.put_pixel(0, 0, image::Rgba([0, 0, 0, 255]));
    buf.put_pixel(1, 0, image::Rgba([90, 90, 90, 255]));
    buf.put_pixel(2, 0, image::Rgba([255, 255, 255, 255]));
    buf.put_pixel(0, 1, image::Rgba([10, 200, 30, 255]));
    buf.put_pixel(1, 1, image::Rgba([60, 60, 60, 50]));
    buf.put_pixel(2, 1, image::Rgba([130, 140, 150, 120]));
    rgba8(buf)
}

fn filled(indices: &[u8], row_len: u32) -> TextImage {
    let mut t = TextImage::new(plain_config(), row_len, 1);
    for (i, idx) in indices.iter().enumerate() {
        t.insert(i, IndexdFragment::new(*idx));
    }
    t
}

#[test]
fn new_image_is_empty() {
    let t = TextImage::new(plain_config(), 3, 2);
    assert!(t.is_empty());
    assert_eq!(t.len(), 0);
    assert_eq!(t.row_len, 3);
    assert_eq!(t.config, plain_config());
    assert_eq!(t.to_string(), "");
    assert_eq!(t.get(0), None);
    assert_eq!(t.fragment_at(0, 0), None);
}

#[test]
fn complete_rows_end_with_a_line_feed() {
    assert_eq!(filled(&[0, 1, 2, 3], 2).to_string(), "ab\ncd\n");
    assert_eq!(filled(&[0, 1, 2, 3], 4).to_string(), "abcd\n");
    assert_eq!(filled(&[0, 1, 2, 3], 1).to_string(), "a\nb\nc\nd\n");
}

#[test]
fn incomplete_last_row_has_no_line_feed() {
    assert_eq!(filled(&[0, 1, 2], 2).to_string(), "ab\nc");
    assert_eq!(filled(&[0, 1, 2], 5).to_string(), "abc");
}

#[test]
fn row_length_zero_gives_one_run_of_cells() {
    assert_eq!(filled(&[3, 2, 1], 0).to_string(), "dcb");
}

#[test]
fn insertion_shifts_the_later_fragments() {
    let mut t = filled(&[0, 3], 2);
    t.insert(1, IndexdFragment::new(2));
    assert_eq!(t.len(), 3);
    assert_eq!(t.to_string(), "ac\nd");
    t.insert(3, IndexdFragment::new_with_foreground(1, ANSIColor::new(1, 2, 3)));
    assert_eq!(t.to_string(), "ac\ndb\n");
    assert_eq!(t.get(3), Some(Fragment::new_with_foueground('b', ANSIColor::new(1, 2, 3))));
    assert_eq!(t.get(4), None);
}

#[test]
fn coordinates_address_column_x_of_row_y() {
    // rows of 2: "ab" and "cd"
    let mut t = filled(&[0, 1, 2, 3], 2);
    assert_eq!(t.fragment_at(0, 0).map(|f| f.sym()), Some('a'));
    assert_eq!(t.fragment_at(1, 0).map(|f| f.sym()), Some('b'));
    assert_eq!(t.fragment_at(0, 1).map(|f| f.sym()), Some('c'));
    assert_eq!(t.fragment_at(1, 1).map(|f| f.sym()), Some('d'));
    assert_eq!(t.fragment_at(0, 2), None);
    assert_eq!(t.fragment_at(4, 0), None);
    assert_eq!(t.fragment_at(u32::MAX, u32::MAX), None);
    assert_eq!(t.fragment_at_unchecked(1, 1).sym(), 'd');
    assert_eq!(t.fragment_at_unchecked(0, 1).sym(), 'c');
    assert_eq!(t.get_unchecked(2).sym(), 'c');
    // column 1 of row 0 is the index 1
    t.put(1, 0, IndexdFragment::new(3));
    assert_eq!(t.to_string(), "ad\nbc\nd");
    // column 1 of row 2 is the index 5, behind the last fragment
    t.put(1, 2, IndexdFragment::new(0));
    assert_eq!(t.to_string(), "ad\nbc\nda\n");
}

#[test]
fn coordinates_of_a_converted_image_are_those_of_its_pixels() {
    let image = sample();
    let cfg = Config {
        sympols: abc(),
        background: Some(ANSIColor::new(1, 2, 3)),
        flags: COLORS,
    };
    let text = image.to_text(cfg.clone());
    let (w, h) = PixelImage::dimensions(&image);
    assert_eq!((text.row_len(), text.len()), (3, 6));
    assert_eq!(text.config(), &cfg);
    for y in 0..h {
        for x in 0..w {
            let pixel = PixelImage::get_pixel(&image, x, y);
            let fragment = text.fragment_at(x, y).expect("the pixel has a fragment");
            assert_eq!(Some(fragment.clone()), text.get((y * w + x) as usize));
            assert_eq!(fragment.sym(), cfg.sympols.sym_and_index(&pixel).0);
            assert_eq!(fragment.foreground(), &ANSIColor::from(pixel));
        }
    }
    assert_eq!(text.fragment_at(w, 0).map(|f| f.sym()), text.get(w as usize).map(|f| f.sym()));
    assert_eq!(text.fragment_at(0, h), None);
    // on an image of 2 by 1 the pixel (1, 0) has a fragment
    let wide = rgba8(RgbaImage::new(2, 1)).to_text(plain_config());
    assert!(wide.fragment_at(1, 0).is_some());
    assert_eq!(wide.fragment_at(0, 1), None);
}

#[test]
fn fragments_carry_glyph_and_color() {
    let f = Fragment::new('x');
    assert_eq!(f.sym(), 'x');
    assert!(f.foreground().is_transparent());
    let g = f.with_foreground(ANSIColor::new(4, 5, 6));
    assert_eq!(g.sym(), 'x');
    assert_eq!(g.foreground(), &ANSIColor::new(4, 5, 6));
    assert_eq!(g, Fragment::new_with_foueground('x', ANSIColor::new(4, 5, 6)));
    let info = FragmentInfo { sym: 'q', sym_index: 7, fg: ANSIColor::new(7, 8, 9) };
    assert_eq!(
        Fragment::from(info.clone()),
        Fragment::new_with_foueground('q', ANSIColor::new(7, 8, 9))
    );
    assert_eq!(g.clone(), g);
}

#[test]
fn compact_fragments() {
    let f = IndexdFragment::new(3);
    assert_eq!(f.sym_index, 3);
    assert!(f.fg.is_transparent());
    let g = f.with_foreground(ANSIColor::new(1, 1, 1));
    assert_eq!(g, IndexdFragment::new_with_foreground(3, ANSIColor::new(1, 1, 1)));
    let info = FragmentInfo { sym: 'q', sym_index: 7, fg: ANSIColor::new(7, 8, 9) };
    assert_eq!(
        IndexdFragment::from(info),
        IndexdFragment::new_with_foreground(7, ANSIColor::new(7, 8, 9))
    );
    // the conversion keeps the low byte of the index
    let wide = FragmentInfo { sym: 'q', sym_index: 0x1_02, fg: ANSIColor::transparent() };
    assert_eq!(IndexdFragment::from(wide), IndexdFragment::new(2));
    assert_eq!(g.clone(), g);
}

#[test]
fn sink_refuses_an_index_beyond_a_byte() {
    let mut t = TextImage::new(plain_config(), 2, 1);
    let fits = FragmentInfo { sym: 'a', sym_index: 255, fg: ANSIColor::transparent() };
    let wide = FragmentInfo { sym: 'a', sym_index: 256, fg: ANSIColor::transparent() };
    assert_eq!(t.write_fragment(fits.clone()), Ok(()));
    assert_eq!(t.write_fragment(wide.clone()), Err(SinkError::SymbolIndex(256)));
    assert_eq!(t.write_colored_fragment(wide, None, None), Err(SinkError::SymbolIndex(256)));
    assert_eq!(t.write_colored_fragment(fits, None, None), Ok(()));
    assert_eq!(t.len(), 2);
}

#[test]
fn sink_keeps_fragments_and_drops_the_rest() {
    let mut t = TextImage::new(plain_config(), 2, 1);
    assert_eq!(t.background(&ANSIColor::new(1, 2, 3)), Ok(true));
    assert_eq!(t.write_bytes(b"\n"), Ok(()));
    assert!(t.is_empty());
    let info = FragmentInfo { sym: 'z', sym_index: 1, fg: ANSIColor::new(9, 9, 9) };
    let bc = ANSIColor::new(1, 1, 1);
    assert_eq!(t.write_colored_fragment(info, Some(&bc), None), Ok(()));
    assert_eq!(t.len(), 1);
    // the glyph comes from the image's own ramp, the color from the fragment
    assert_eq!(t.get(0), Some(Fragment::new_with_foueground('b', ANSIColor::new(9, 9, 9))));
}

#[test]
fn to_text_holds_one_fragment_for_each_pixel() {
    let t = sample().to_text(plain_config());
    assert_eq!(t.len(), 6);
    assert_eq!(t.row_len, 3);
    // brightness 0, 90, 255, 80, 50 % 60 = 50, 140 over the step 255 / 4 = 63
    assert_eq!(t.to_string(), "abd\nbac\n");
    assert_eq!(t.get(4), Some(Fragment::new('a')));
    assert_eq!(t.get(3), Some(Fragment::new_with_foueground('b', ANSIColor::new(10, 200, 30))));
    assert_eq!(t.clone(), t);
}

fn configs() -> Vec<Config> {
    let mut all = Vec::new();
    for flags in [0u8, COLORS, REVERSE, COLORS | REVERSE] {
        for background in [None, Some(ANSIColor::new(232, 209, 204)), Some(ANSIColor::transparent())]
        {
            for sympols in [abc(), Sympols::empty(), Sympols::new(vec!['#'])] {
                all.push(Config { sympols, background: background.clone(), flags });
            }
        }
    }
    all
}

fn streamed(cfg: &Config, image: &IntegerImage) -> Vec<u8> {
    let mut out = Vec::new();
    convert_image_to_ascii(cfg, image, &mut out).unwrap();
    out
}

#[test]
fn rendering_equals_the_streamed_bytes() {
    let images = [
        sample(),
        rgba8(RgbaImage::new(0, 0)),
        rgba8(RgbaImage::new(4, 0)),
        rgb8(RgbImage::from_pixel(2, 3, image::Rgb([200, 100, 50]))),
        luma8(GrayImage::from_pixel(1, 1, image::Luma([77]))),
    ];
    for cfg in configs() {
        for image in &images {
            let text = image.to_text(cfg.clone());
            assert_eq!(text.to_string().into_bytes(), streamed(&cfg, image));
        }
    }
}

#[test]
fn rendering_twice_gives_the_same_text() {
    for cfg in configs() {
        let text = sample().to_text(cfg);
        let first = text.to_string();
        let second = text.to_string();
        assert_eq!(first, second);
    }
}

#[test]
fn image_without_columns_streams_its_row_breaks() {
    // a text image keeps no count of empty rows, so the two differ here
    let image = rgba8(RgbaImage::new(0, 3));
    assert_eq!(streamed(&plain_config(), &image), b"\n\n\n".to_vec());
    assert_eq!(image.to_text(plain_config()).to_string(), "");
}

#[test]
fn decoded_images_are_read_as_rgba() {
    let rgb = rgb8(RgbImage::from_pixel(2, 3, image::Rgb([200, 100, 50])));
    assert_eq!(PixelImage::dimensions(&rgb), (2, 3));
    assert_eq!(PixelImage::get_pixel(&rgb, 1, 2), aarty::Rgba::new(200, 100, 50, 255));
    let gray = luma8(GrayImage::from_pixel(5, 1, image::Luma([77])));
    assert_eq!(PixelImage::dimensions(&gray), (5, 1));
    assert_eq!(PixelImage::get_pixel(&gray, 4, 0), aarty::Rgba::new(77, 77, 77, 255));
    let picture = sample();
    assert_eq!(PixelImage::get_pixel(&picture, 1, 1), aarty::Rgba::new(60, 60, 60, 50));
    assert_eq!(PixelImage::get_pixel(&picture, 0, 1), aarty::Rgba::new(10, 200, 30, 255));
}

#[test]
fn image_is_well_formed_if_every_index_has_a_glyph() {
    assert!(filled(&[0, 1, 2, 3], 2).is_well_formed());
    assert!(!filled(&[0, 4], 2).is_well_formed());
    assert!(TextImage::new(plain_config(), 2, 2).is_well_formed());
    let mut blank = TextImage::new(
        Config { sympols: Sympols::empty(), background: None, flags: 0 },
        2,
        1,
    );
    blank.insert(0, IndexdFragment::new(200));
    assert!(blank.is_well_formed());
    assert_eq!(blank.to_string(), " ");
    for cfg in configs() {
        assert!(sample().to_text(cfg).is_well_formed());
    }
}

#[test]
fn colors_of_the_image_crate() {
    assert_eq!(ANSIColor::from(image::Rgb([1u8, 20, 255])), ANSIColor::new(1, 20, 255));
    assert_eq!(ANSIColor::from(image::Rgb([0u8, 0, 0])), ANSIColor::new(0, 0, 0));
}

#[test]
fn compact_fragments_are_handed_out_as_stored() {
    let t = sample().to_text(plain_config());
    assert_eq!(t.compact(3), Some(IndexdFragment::new_with_foreground(1, ANSIColor::new(10, 200, 30))));
    assert_eq!(t.compact(4), Some(IndexdFragment::new(0)));
    assert_eq!(t.compact(6), None);
}

#[test]
fn images_with_integer_samples_are_sources_of_pixels() {
    let integer = [
        DynamicImage::new_luma8(2, 1),
        DynamicImage::new_luma_a8(2, 1),
        DynamicImage::new_rgb8(2, 1),
        DynamicImage::new_rgba8(2, 1),
        DynamicImage::new_luma16(2, 1),
        DynamicImage::new_luma_a16(2, 1),
        DynamicImage::new_rgb16(2, 1),
        DynamicImage::new_rgba16(2, 1),
    ];
    for image in integer {
        let source = IntegerImage::new(image.clone()).expect("the samples are integers");
        assert_eq!(source.image(), &image);
        assert_eq!(PixelImage::dimensions(&source), (2, 1));
        assert_eq!(source.into_image(), image);
    }
    assert_eq!(IntegerImage::new(DynamicImage::new_rgb32f(2, 1)), None);
    assert_eq!(IntegerImage::new(DynamicImage::new_rgba32f(2, 1)), None);
    // a sample that is no number is where reading such an image would fail
    let mut buf = image::Rgba32FImage::new(1, 1);
    buf.put_pixel(0, 0, image::Rgba([f32::NAN, 0.0, 0.0, 1.0]));
    assert_eq!(IntegerImage::new(DynamicImage::ImageRgba32F(buf)), None);
}

#[test]
fn samples_of_sixteen_bits_are_read_as_eight() {
    let mut buf = image::ImageBuffer::<image::Rgba<u16>, Vec<u16>>::new(1, 1);
    buf.put_pixel(0, 0, image::Rgba([65535, 257, 128, 0]));
    let source = IntegerImage::new(DynamicImage::ImageRgba16(buf)).expect("integers");
    assert_eq!(PixelImage::get_pixel(&source, 0, 0), aarty::Rgba::new(255, 1, 0, 0));
}

use aarty::{ANSIColor, Config, Rgba, Sympols, COLORS, EMPTY_CHAR, REVERSE};

fn ramp(n: usize) -> Sympols {
    Sympols::new((0..n).map(|i| char::from_u32(0x100 + i as u32).unwrap()).collect())
}

#[test]
fn index_stays_inside_the_ramp() {
    for n in 1..=255usize {
        let r = ramp(n);
        for v in [0u8, 1, 3, 60, 85, 127, 128, 254, 255] {
            for a in [0u8, 50, 119, 120, 255] {
                let idx = r.sym_index(&Rgba::new(v, v / 2, 255 - v, a));
                assert!(idx < n);
            }
        }
    }
}

#[test]
fn empty_ramp_gives_the_blank_glyph_and_index_zero() {
    let r = Sympols::empty();
    assert!(r.is_empty());
    assert_eq!(r.len(), 0);
    for v in [0u8, 17, 200, 255] {
        for a in [0u8, 119, 120, 255] {
            assert_eq!(r.sym_and_index(&Rgba::new(v, 255 - v, v, a)), (EMPTY_CHAR, 0));
        }
    }
    assert_eq!(r.get(7), ' ');
}

#[test]
fn black_pixel_gives_index_zero_whatever_the_alpha() {
    for n in [1usize, 2, 3, 11, 255] {
        let r = ramp(n);
        for a in [0u8, 1, 50, 119, 120, 255] {
            assert_eq!(r.sym_index(&Rgba::new(0, 0, 0, a)), 0);
        }
    }
}

#[test]
fn index_is_the_brightness_over_the_step() {
    // (100 + 150 + 200) / 3 = 150, 255 / 11 = 23, 150 / 23 = 6
    let r = Sympols::new(vec![' ', '.', ',', '-', '~', '!', '*', '%', '$', '@', '#']);
    assert_eq!(r.len(), 11);
    assert_eq!(r.sym_and_index(&Rgba::new(100, 150, 200, 255)), ('*', 6));
    // the mean truncates: (1 + 1 + 0) / 3 = 0
    assert_eq!(r.sym_index(&Rgba::new(1, 1, 0, 255)), 0);
    // (254 + 255 + 255) / 3 = 254, 254 / 23 = 11, clamped to 10
    assert_eq!(r.sym_and_index(&Rgba::new(254, 255, 255, 255)), ('#', 10));
}

#[test]
fn low_alpha_takes_the_brightness_modulo() {
    // the brightness is 60; under the threshold it becomes 50 % 60 = 50;
    // 255 / 15 = 17, 50 / 17 = 2 where 60 / 17 would be 3
    let r = ramp(15);
    assert_eq!(r.sym_index(&Rgba::new(60, 60, 60, 50)), 2);
    assert_eq!(r.sym_index(&Rgba::new(60, 60, 60, 120)), 3);
    // 119 % 60 = 59, 59 / 17 = 3
    assert_eq!(r.sym_index(&Rgba::new(60, 60, 60, 119)), 3);
    // 0 % 60 = 0
    assert_eq!(r.sym_index(&Rgba::new(60, 60, 60, 0)), 0);
    let three = Sympols::new(vec![' ', '.', '#']);
    assert_eq!(three.sym_and_index(&Rgba::new(60, 60, 60, 50)), (' ', 0));
    assert!(ANSIColor::from(Rgba::new(60, 60, 60, 50)).is_transparent());
}

#[test]
fn ramp_accessors() {
    let r = Sympols::new(vec!['a', 'b', 'c']);
    assert_eq!(r.len(), 3);
    assert!(!r.is_empty());
    assert_eq!(r.get(0), 'a');
    assert_eq!(r.get(2), 'c');
    assert_eq!(r.clone(), r);
}

#[test]
fn color_bodies_and_escapes() {
    let c = ANSIColor::new(1, 20, 255);
    assert!(!c.is_transparent());
    assert_eq!(c.as_foreground(), "\u{1b}[38;2;1;20;255m");
    assert_eq!(c.as_background(), "\u{1b}[48;2;1;20;255m");
    assert_eq!(c.to_string(), "\u{1b}[38;2;1;20;255m");
    assert_eq!(ANSIColor::new(0, 9, 10).as_foreground(), "\u{1b}[38;2;0;9;10m");
    assert_eq!(ANSIColor::new(99, 100, 199).as_background(), "\u{1b}[48;2;99;100;199m");
    assert_eq!(ANSIColor::from((232, 209, 204)), ANSIColor::new(232, 209, 204));
    assert_eq!(c.clone(), c);
}

#[test]
fn transparent_color_has_no_escape() {
    let t = ANSIColor::transparent();
    assert!(t.is_transparent());
    assert_eq!(t.as_foreground(), "");
    assert_eq!(t.as_background(), "");
    let mut s = String::from("x");
    t.push_background(&mut s);
    t.push_foreground(&mut s);
    assert_eq!(s, "x");
}

#[test]
fn color_of_a_pixel_depends_on_the_alpha_threshold() {
    assert_eq!(ANSIColor::from(Rgba::new(1, 2, 3, 120)), ANSIColor::new(1, 2, 3));
    assert_eq!(ANSIColor::from(Rgba::new(1, 2, 3, 255)), ANSIColor::new(1, 2, 3));
    assert_eq!(ANSIColor::from(Rgba::new(1, 2, 3, 119)), ANSIColor::transparent());
    assert_eq!(ANSIColor::from(Rgba::new(1, 2, 3, 0)), ANSIColor::transparent());
}

#[test]
fn flags() {
    let cfg = |flags: u8| Config { sympols: Sympols::empty(), background: None, flags };
    assert!(!cfg(0).use_colors() && !cfg(0).reversed());
    assert!(cfg(COLORS).use_colors() && !cfg(COLORS).reversed());
    assert!(!cfg(REVERSE).use_colors() && cfg(REVERSE).reversed());
    assert!(cfg(COLORS | REVERSE).use_colors() && cfg(COLORS | REVERSE).reversed());
    assert!(cfg(0xff).use_colors() && cfg(0xfc).use_colors() == false);
}

#[test]
fn buffer_size_hint() {
    let plain = Config { sympols: Sympols::empty(), background: None, flags: 0 };
    let colored = Config { sympols: Sympols::empty(), background: None, flags: COLORS };
    assert_eq!(plain.calc_buf_size(10, 20), 200);
    assert_eq!(colored.calc_buf_size(10, 20), 200 * 162);
    assert_eq!(plain.calc_buf_size(0, 20), 0);
    assert_eq!(colored.calc_buf_size(7, 0), 0);
}

#[test]
fn buffer_size_hint_grows_with_the_image() {
    for flags in [0u8, COLORS, REVERSE, COLORS | REVERSE] {
        let cfg = Config { sympols: Sympols::empty(), background: None, flags };
        let mut last = 0;
        for w in 0..20u32 {
            assert!(cfg.calc_buf_size(w, 5) >= last);
            last = cfg.calc_buf_size(w, 5);
            assert!(cfg.calc_buf_size(w, 6) >= cfg.calc_buf_size(w, 5));
            assert!(cfg.calc_buf_size(w + 1, 6) >= cfg.calc_buf_size(w, 5));
        }
    }
}

#[test]
fn checked_size_hint_is_the_hint_where_it_fits() {
    let plain = Config { sympols: Sympols::empty(), background: None, flags: 0 };
    let colored = Config { sympols: Sympols::empty(), background: None, flags: COLORS };
    assert_eq!(plain.checked_buf_size(10, 20), Some(200));
    assert_eq!(colored.checked_buf_size(10, 20), Some(32400));
    assert_eq!(colored.checked_buf_size(0, u32::MAX), Some(0));
    let cells = u32::MAX as u128 * u32::MAX as u128;
    assert_eq!(
        plain.checked_buf_size(u32::MAX, u32::MAX),
        usize::try_from(cells).ok()
    );
    assert_eq!(
        colored.checked_buf_size(u32::MAX, u32::MAX),
        usize::try_from(cells * 162).ok()
    );
}

#[test]
fn black_pixel_gives_index_zero_on_ramps_of_any_length() {
    for n in [256usize, 257, 1000] {
        let r = ramp(n);
        for a in [0u8, 50, 119, 120, 255] {
            assert_eq!(r.sym_index(&Rgba::new(0, 0, 0, a)), 0);
            assert_eq!(r.sym_and_index(&Rgba::new(1, 1, 0, a)), (r.get(0), 0));
        }
    }
}

#[test]
fn ramps_from_glyphs() {
    let glyphs = vec![' ', '.', '#'];
    assert_eq!(Sympols::from(glyphs.clone()), Sympols::new(glyphs.clone()));
    assert_eq!(Sympols::from(glyphs.as_slice()), Sympols::new(glyphs));
    let none: &[char] = &[];
    assert_eq!(Sympols::from(none), Sympols::empty());
}

#[test]
fn color_from_its_body() {
    for (r, g, b) in [(0u8, 0u8, 0u8), (1, 20, 255), (255, 255, 255), (9, 10, 99), (100, 7, 0)] {
        let color = ANSIColor::new(r, g, b);
        assert_eq!(color.body(), format!("{r};{g};{b}"));
        assert_eq!(ANSIColor::from_body(color.body()), Some(color));
    }
    assert_eq!(ANSIColor::transparent().body(), "");
    assert_eq!(ANSIColor::from_body(""), Some(ANSIColor::transparent()));
    assert_eq!(ANSIColor::from_body("1;2;3").map(|c| c.as_foreground()), Some("\u{1b}[38;2;1;2;3m".to_string()));
    for body in [
        "1;2", "1;2;3;4", "1;2;", ";2;3", "1;;3", "256;0;0", "0;0;256", "01;2;3", "1;2;03",
        "+1;2;3", "1; 2;3", "a;b;c", "1,2,3", ";", ";;", "1;2;3 ", "1;2;3m",
    ] {
        assert_eq!(ANSIColor::from_body(body), None);
    }
}

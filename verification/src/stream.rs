//! The text that a conversion puts on a byte stream.

use vstd::prelude::*;
use vstd::utf8::encode_utf8;

use crate::config::ConfigView;
use crate::convert::{
    lemma_absorb_concat, lemma_absorb_push, spec_absorb_all, spec_close_bytes, spec_closing,
    spec_convertible, spec_fragment, spec_fragment_colors, spec_instructions, spec_opening,
    spec_pixel_instruction, spec_row_break, spec_row_instructions, spec_rows_instructions,
};
use crate::pixel::PixelImage;
use crate::sympols::{lemma_sym_index_in_range, spec_addressable, EMPTY_CHAR};
use crate::text::lemma_encode_utf8_concat;
use crate::text_image::{spec_closing_text, spec_opening_text};
use crate::writer::{spec_colored_text, spec_instruction_bytes, Instruction};
use crate::Rgba;

verus! {

/// The text of one pixel: its glyph, wrapped in its colors when colors are
/// enabled.
pub open spec fn spec_pixel_text(cfg: ConfigView, pixel: Rgba) -> Seq<char> {
    let info = spec_fragment(cfg, pixel);
    if cfg.use_colors() {
        let colors = spec_fragment_colors(cfg, info.fg);
        spec_colored_text(info.sym, colors.0, colors.1)
    } else {
        seq![info.sym]
    }
}

/// The text of the first `n` pixels of row `y`.
pub open spec fn spec_row_text<I: PixelImage>(cfg: ConfigView, image: &I, y: u32, n: nat) -> Seq<
    char,
>
    decreases n,
{
    if n == 0 {
        Seq::empty()
    } else {
        spec_row_text(cfg, image, y, (n - 1) as nat) + spec_pixel_text(
            cfg,
            image.spec_pixel((n - 1) as u32, y),
        )
    }
}

/// The text of the first `n` rows, each followed by a line feed.
pub open spec fn spec_image_text<I: PixelImage>(cfg: ConfigView, image: &I, n: nat) -> Seq<char>
    decreases n,
{
    if n == 0 {
        Seq::empty()
    } else {
        spec_image_text(cfg, image, (n - 1) as nat) + spec_row_text(
            cfg,
            image,
            (n - 1) as u32,
            image.spec_dimensions().0 as nat,
        ) + seq!['\n']
    }
}

/// The whole text of a streamed conversion: the background escape if the
/// background is announced once, the rows, and then the closing reset.
pub open spec fn spec_stream_text<I: PixelImage>(cfg: ConfigView, image: &I) -> Seq<char> {
    spec_opening_text(cfg) + spec_image_text(cfg, image, image.spec_dimensions().1 as nat)
        + spec_closing_text(cfg)
}

/// The bytes of a pixel's instruction are the UTF-8 bytes of the pixel's text.
proof fn lemma_pixel_bytes(cfg: ConfigView, pixel: Rgba)
    ensures
        spec_instruction_bytes(spec_pixel_instruction(cfg, pixel)) == encode_utf8(
            spec_pixel_text(cfg, pixel),
        ),
{
}

/// A byte buffer that took the start of a row holds the UTF-8 bytes of that
/// start behind what it held.
proof fn lemma_row_bytes<I: PixelImage>(
    cfg: ConfigView,
    image: &I,
    y: u32,
    n: nat,
    held: Seq<u8>,
)
    ensures
        spec_absorb_all::<Vec<u8>>(held, spec_row_instructions(cfg, image, y, n)) == held
            + encode_utf8(spec_row_text(cfg, image, y, n)),
    decreases n,
{
    if n == 0 {
        assert(held + encode_utf8(Seq::<char>::empty()) =~= held);
    } else {
        let m = (n - 1) as nat;
        let pixel = image.spec_pixel(m as u32, y);
        lemma_row_bytes(cfg, image, y, m, held);
        lemma_absorb_push::<Vec<u8>>(
            held,
            spec_row_instructions(cfg, image, y, m),
            spec_pixel_instruction(cfg, pixel),
        );
        lemma_pixel_bytes(cfg, pixel);
        lemma_encode_utf8_concat(spec_row_text(cfg, image, y, m), spec_pixel_text(cfg, pixel));
        assert(held + encode_utf8(spec_row_text(cfg, image, y, m)) + encode_utf8(
            spec_pixel_text(cfg, pixel),
        ) =~= held + (encode_utf8(spec_row_text(cfg, image, y, m)) + encode_utf8(
            spec_pixel_text(cfg, pixel),
        )));
    }
}

/// A byte buffer that took the first `n` rows holds the UTF-8 bytes of their
/// text behind what it held.
proof fn lemma_rows_bytes<I: PixelImage>(cfg: ConfigView, image: &I, n: nat, held: Seq<u8>)
    ensures
        spec_absorb_all::<Vec<u8>>(held, spec_rows_instructions(cfg, image, n)) == held
            + encode_utf8(spec_image_text(cfg, image, n)),
    decreases n,
{
    if n == 0 {
        assert(held + encode_utf8(Seq::<char>::empty()) =~= held);
    } else {
        let m = (n - 1) as nat;
        let w = image.spec_dimensions().0 as nat;
        let before = spec_rows_instructions(cfg, image, m);
        let row = spec_row_instructions(cfg, image, m as u32, w);
        let row_break = Instruction::Bytes { bytes: spec_row_break() };
        let text_before = spec_image_text(cfg, image, m);
        let text_row = spec_row_text(cfg, image, m as u32, w);
        let held_before = held + encode_utf8(text_before);
        lemma_rows_bytes(cfg, image, m, held);
        lemma_absorb_concat::<Vec<u8>>(held, before, row.push(row_break));
        lemma_absorb_push::<Vec<u8>>(held_before, row, row_break);
        lemma_row_bytes(cfg, image, m as u32, w, held_before);
        lemma_encode_utf8_concat(text_before, text_row);
        lemma_encode_utf8_concat(text_before + text_row, seq!['\n']);
        assert(held_before + encode_utf8(text_row) + spec_row_break() =~= held + encode_utf8(
            text_before + text_row + seq!['\n'],
        ));
    }
}

/// A byte buffer that took a whole conversion holds, behind what it held
/// before, the UTF-8 bytes of the conversion's text.
pub proof fn lemma_stream_bytes<I: PixelImage>(cfg: ConfigView, image: &I, held: Seq<u8>)
    ensures
        spec_absorb_all::<Vec<u8>>(held, spec_instructions::<I, Vec<u8>>(cfg, image)) == held
            + encode_utf8(spec_stream_text(cfg, image)),
{
    let h = image.spec_dimensions().1 as nat;
    let opening = spec_opening(cfg);
    let rows = spec_rows_instructions(cfg, image, h);
    let closing = spec_closing::<Vec<u8>>(cfg);
    let text_opening = spec_opening_text(cfg);
    let text_rows = spec_image_text(cfg, image, h);
    let text_closing = spec_closing_text(cfg);
    let held_opening = held + encode_utf8(text_opening);
    let held_rows = held_opening + encode_utf8(text_rows);
    lemma_absorb_concat::<Vec<u8>>(held, opening + rows, closing);
    lemma_absorb_concat::<Vec<u8>>(held, opening, rows);
    assert(spec_absorb_all::<Vec<u8>>(held, opening) == held_opening) by {
        if cfg.one_shot_background() {
            lemma_absorb_push::<Vec<u8>>(
                held,
                Seq::empty(),
                Instruction::Background { color: cfg.background->0 },
            );
            assert(opening =~= Seq::<Instruction>::empty().push(
                Instruction::Background { color: cfg.background->0 },
            ));
        } else {
            assert(held + encode_utf8(Seq::<char>::empty()) =~= held);
        }
    }
    lemma_rows_bytes(cfg, image, h, held_opening);
    assert(spec_absorb_all::<Vec<u8>>(held_rows, closing) == held_rows + encode_utf8(
        text_closing,
    )) by {
        if cfg.one_shot_background() {
            lemma_absorb_push::<Vec<u8>>(
                held_rows,
                Seq::empty(),
                Instruction::Bytes { bytes: spec_close_bytes() },
            );
            assert(closing =~= Seq::<Instruction>::empty().push(
                Instruction::Bytes { bytes: spec_close_bytes() },
            ));
        } else {
            assert(held_rows + encode_utf8(Seq::<char>::empty()) =~= held_rows);
        }
    }
    lemma_encode_utf8_concat(text_opening, text_rows);
    lemma_encode_utf8_concat(text_opening + text_rows, text_closing);
    assert(held_rows + encode_utf8(text_closing) =~= held + encode_utf8(
        text_opening + text_rows + text_closing,
    ));
}

/// Without colors the first `n` pixels of a row are `n` glyphs: that of
/// the pixel in column `x` is at `x`.
proof fn lemma_plain_row<I: PixelImage>(cfg: ConfigView, image: &I, y: u32, n: nat, x: u32)
    requires
        !cfg.use_colors(),
        x <= n,
    ensures
        spec_row_text(cfg, image, y, n).len() == n,
        x < n ==> spec_row_text(cfg, image, y, n)[x as int] == spec_fragment(
            cfg,
            image.spec_pixel(x, y),
        ).sym,
    decreases n,
{
    if n > 0 {
        lemma_plain_row(cfg, image, y, (n - 1) as nat, if x < n - 1 {
            x
        } else {
            0
        });
    }
}

/// Without colors the first `n` rows are `n` times the width and one
/// characters.
proof fn lemma_plain_len<I: PixelImage>(cfg: ConfigView, image: &I, n: nat)
    requires
        !cfg.use_colors(),
    ensures
        spec_image_text(cfg, image, n).len() == n * (image.spec_dimensions().0 + 1),
    decreases n,
{
    let w = image.spec_dimensions().0 as nat;
    if n > 0 {
        lemma_plain_len(cfg, image, (n - 1) as nat);
        lemma_plain_row(cfg, image, (n - 1) as u32, w, 0);
        assert(n * (w + 1) == (n - 1) * (w + 1) + (w + 1)) by (nonlinear_arith)
            requires
                n > 0,
        ;
    } else {
        assert(0 * (w + 1) == 0);
    }
}

/// Without colors, among the first `n` rows of an image of width `w` the
/// glyph of the pixel in column `x` of row `y` is at `y * (w + 1) + x`, and
/// a line feed is at `y * (w + 1) + w`.
proof fn lemma_plain_layout<I: PixelImage>(cfg: ConfigView, image: &I, n: nat, x: u32, y: u32)
    requires
        !cfg.use_colors(),
        x <= image.spec_dimensions().0,
        y < n,
    ensures
        spec_image_text(cfg, image, n).len() == n * (image.spec_dimensions().0 + 1),
        0 <= y * (image.spec_dimensions().0 + 1) + x < spec_image_text(cfg, image, n).len(),
        x < image.spec_dimensions().0 ==> spec_image_text(cfg, image, n)[y * (
        image.spec_dimensions().0 + 1) + x] == spec_fragment(cfg, image.spec_pixel(x, y)).sym,
        x == image.spec_dimensions().0 ==> spec_image_text(cfg, image, n)[y * (
        image.spec_dimensions().0 + 1) + x] == '\n',
    decreases n,
{
    let w = image.spec_dimensions().0 as nat;
    let m = (n - 1) as nat;
    lemma_plain_len(cfg, image, n);
    lemma_plain_len(cfg, image, m);
    lemma_plain_row(cfg, image, m as u32, w, x);
    assert(n * (w + 1) == m * (w + 1) + (w + 1)) by (nonlinear_arith)
        requires
            n == m + 1,
    ;
    assert(0 <= y * (w + 1)) by (nonlinear_arith);
    if y < m {
        lemma_plain_layout(cfg, image, m, x, y);
    } else {
        assert(y * (w + 1) == m * (w + 1));
    }
}

/// Plain output: without colors and without a background the text of a
/// conversion is one row for each row of the image, each the glyphs of its
/// pixels from left to right and then a line feed, and nothing else. On an
/// image of width `w` the glyph of the pixel in column `x` of row `y` is at
/// `y * (w + 1) + x`, and the line feed of the row at `y * (w + 1) + w`.
pub proof fn lemma_plain_rows<I: PixelImage>(cfg: ConfigView, image: &I, x: u32, y: u32)
    requires
        !cfg.use_colors(),
        cfg.background is None,
        x <= image.spec_dimensions().0,
        y < image.spec_dimensions().1,
    ensures
        spec_stream_text(cfg, image).len() == image.spec_dimensions().1 * (
        image.spec_dimensions().0 + 1),
        0 <= y * (image.spec_dimensions().0 + 1) + x < spec_stream_text(cfg, image).len(),
        x < image.spec_dimensions().0 ==> spec_stream_text(cfg, image)[y * (
        image.spec_dimensions().0 + 1) + x] == spec_fragment(cfg, image.spec_pixel(x, y)).sym,
        x == image.spec_dimensions().0 ==> spec_stream_text(cfg, image)[y * (
        image.spec_dimensions().0 + 1) + x] == '\n',
{
    let h = image.spec_dimensions().1 as nat;
    assert(spec_stream_text(cfg, image) =~= spec_image_text(cfg, image, h));
    lemma_plain_layout(cfg, image, h, x, y);
}

/// Whether a character may stand in plain output over `ramp`: a line feed,
/// the blank glyph, or a glyph of the ramp.
pub open spec fn spec_plain_char(ramp: Seq<char>, c: char) -> bool {
    c == '\n' || c == EMPTY_CHAR || ramp.contains(c)
}

/// Without colors every character of the start of a row is a glyph of the
/// ramp or the blank glyph.
proof fn lemma_plain_row_chars<I: PixelImage>(cfg: ConfigView, image: &I, y: u32, n: nat)
    requires
        !cfg.use_colors(),
        n <= image.spec_dimensions().0,
        y < image.spec_dimensions().1,
        spec_convertible(cfg, image),
    ensures
        forall|i: int|
            0 <= i < spec_row_text(cfg, image, y, n).len() ==> spec_plain_char(
                cfg.sympols,
                #[trigger] spec_row_text(cfg, image, y, n)[i],
            ),
    decreases n,
{
    if n > 0 {
        lemma_plain_row_chars(cfg, image, y, (n - 1) as nat);
        let pixel = image.spec_pixel((n - 1) as u32, y);
        let before = spec_row_text(cfg, image, y, (n - 1) as nat);
        let row = spec_row_text(cfg, image, y, n);
        let sym = spec_fragment(cfg, pixel).sym;
        assert(spec_addressable(cfg.sympols.len(), pixel));
        if cfg.sympols.len() > 0 {
            lemma_sym_index_in_range(cfg.sympols.len() as int, pixel);
            assert(cfg.sympols.contains(sym));
        }
        assert(spec_plain_char(cfg.sympols, sym));
        assert(row == before + seq![sym]);
        assert forall|i: int| 0 <= i < row.len() implies spec_plain_char(
            cfg.sympols,
            #[trigger] row[i],
        ) by {
            if i < before.len() {
                assert(row[i] == before[i]);
            } else {
                assert(row[i] == sym);
            }
        }
    }
}

/// Without colors every character of the first `n` rows is a line feed, a
/// glyph of the ramp or the blank glyph.
proof fn lemma_plain_image_chars<I: PixelImage>(cfg: ConfigView, image: &I, n: nat)
    requires
        !cfg.use_colors(),
        n <= image.spec_dimensions().1,
        spec_convertible(cfg, image),
    ensures
        forall|i: int|
            0 <= i < spec_image_text(cfg, image, n).len() ==> spec_plain_char(
                cfg.sympols,
                #[trigger] spec_image_text(cfg, image, n)[i],
            ),
    decreases n,
{
    if n > 0 {
        lemma_plain_image_chars(cfg, image, (n - 1) as nat);
        lemma_plain_row_chars(cfg, image, (n - 1) as u32, image.spec_dimensions().0 as nat);
        let before = spec_image_text(cfg, image, (n - 1) as nat);
        let row = spec_row_text(cfg, image, (n - 1) as u32, image.spec_dimensions().0 as nat);
        let text = spec_image_text(cfg, image, n);
        assert(text == before + row + seq!['\n']);
        assert forall|i: int| 0 <= i < text.len() implies spec_plain_char(
            cfg.sympols,
            #[trigger] text[i],
        ) by {
            if i < before.len() {
                assert(text[i] == before[i]);
            } else if i < before.len() + row.len() {
                assert(text[i] == row[i - before.len()]);
            } else {
                assert(text[i] == '\n');
            }
        }
    }
}

/// Plain output holds no escape sequence: without colors and without a
/// background every character of the text is a line feed, the blank glyph or
/// a glyph of the ramp, so a ramp without the escape character gives a text
/// without it.
pub proof fn lemma_plain_chars<I: PixelImage>(cfg: ConfigView, image: &I)
    requires
        !cfg.use_colors(),
        cfg.background is None,
        spec_convertible(cfg, image),
    ensures
        forall|i: int|
            0 <= i < spec_stream_text(cfg, image).len() ==> spec_plain_char(
                cfg.sympols,
                #[trigger] spec_stream_text(cfg, image)[i],
            ),
        !cfg.sympols.contains('\u{1b}') ==> !spec_stream_text(cfg, image).contains('\u{1b}'),
{
    let h = image.spec_dimensions().1 as nat;
    assert(spec_stream_text(cfg, image) =~= spec_image_text(cfg, image, h));
    lemma_plain_image_chars(cfg, image, h);
}

} // verus!

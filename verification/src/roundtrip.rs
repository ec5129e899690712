//! The buffered and the streamed conversion give the same text.

use vstd::prelude::*;
use vstd::utf8::encode_utf8;

use crate::config::ConfigView;
use crate::convert::{spec_absorb_all, spec_fragment, spec_instructions};
use crate::pixel::PixelImage;
use crate::stream::{
    lemma_stream_bytes, spec_image_text, spec_pixel_text, spec_row_text, spec_stream_text,
};
use crate::sympols::{lemma_sym_index_in_range, MAX_RAMP_LEN};
use crate::text_image::{
    lemma_buffered_fragments, lemma_image_fragments_in_ramp, spec_cell_text, spec_cells_text,
    spec_compact, spec_image_fragments, spec_row_fragments, spec_rows_text, spec_text_image,
    CompactSpec, TextImage, TextImageView,
};
use crate::Rgba;

verus! {

/// The cell of a pixel's compact fragment reads as the pixel's text.
proof fn lemma_pixel_cell(cfg: ConfigView, pixel: Rgba)
    requires
        cfg.sympols.len() <= MAX_RAMP_LEN,
    ensures
        spec_cell_text(cfg, spec_compact(spec_fragment(cfg, pixel))) == spec_pixel_text(
            cfg,
            pixel,
        ),
{
    if cfg.sympols.len() > 0 {
        lemma_sym_index_in_range(cfg.sympols.len() as int, pixel);
    }
}

/// The cells of a row's fragments read as the row's text.
proof fn lemma_row_cells<I: PixelImage>(cfg: ConfigView, image: &I, y: u32, n: nat)
    requires
        cfg.sympols.len() <= MAX_RAMP_LEN,
    ensures
        spec_row_fragments(cfg, image, y, n).len() == n,
        spec_cells_text(cfg, spec_row_fragments(cfg, image, y, n)) == spec_row_text(
            cfg,
            image,
            y,
            n,
        ),
    decreases n,
{
    if n > 0 {
        let m = (n - 1) as nat;
        lemma_row_cells(cfg, image, y, m);
        lemma_pixel_cell(cfg, image.spec_pixel(m as u32, y));
        assert(spec_row_fragments(cfg, image, y, n).drop_last() =~= spec_row_fragments(
            cfg,
            image,
            y,
            m,
        ));
    }
}

/// A complete row behind `k` complete rows adds its cells and a line feed
/// to the text.
proof fn lemma_rows_text_append(
    cfg: ConfigView,
    row_len: nat,
    k: nat,
    rows: Seq<CompactSpec>,
    row: Seq<CompactSpec>,
)
    requires
        row_len > 0,
        rows.len() == k * row_len,
        row.len() == row_len,
    ensures
        spec_rows_text(cfg, row_len, rows + row) == spec_rows_text(cfg, row_len, rows)
            + spec_cells_text(cfg, row) + seq!['\n'],
    decreases k,
{
    if k == 0 {
        assert(rows.len() == 0) by (nonlinear_arith)
            requires
                rows.len() == k * row_len,
                k == 0,
        ;
        assert(rows + row =~= row);
        assert(row.take(row_len as int) =~= row);
        assert(row.skip(row_len as int) =~= Seq::<CompactSpec>::empty());
        let none = Seq::<CompactSpec>::empty();
        assert(spec_cells_text(cfg, none) =~= Seq::<char>::empty());
        assert(spec_rows_text(cfg, row_len, none) =~= Seq::<char>::empty());
        assert(spec_rows_text(cfg, row_len, row) == spec_cells_text(cfg, row.take(row_len as int))
            + seq!['\n'] + spec_rows_text(cfg, row_len, row.skip(row_len as int)));
        assert(spec_rows_text(cfg, row_len, row) =~= spec_cells_text(cfg, row) + seq!['\n']);
        assert(rows =~= none);
        assert(spec_rows_text(cfg, row_len, rows) =~= Seq::<char>::empty());
        assert(spec_rows_text(cfg, row_len, rows) + spec_cells_text(cfg, row) + seq!['\n']
            =~= spec_cells_text(cfg, row) + seq!['\n']);
    } else {
        assert(rows.len() == (k - 1) * row_len + row_len) by (nonlinear_arith)
            requires
                rows.len() == k * row_len,
                k > 0,
        ;
        assert((k - 1) * row_len >= 0) by (nonlinear_arith)
            requires
                k > 0,
        ;
        let head = rows.take(row_len as int);
        let rest = rows.skip(row_len as int);
        lemma_rows_text_append(cfg, row_len, (k - 1) as nat, rest, row);
        assert((rows + row).take(row_len as int) =~= head);
        assert((rows + row).skip(row_len as int) =~= rest + row);
        assert(spec_rows_text(cfg, row_len, rows + row) == spec_cells_text(cfg, head) + seq![
            '\n',
        ] + spec_rows_text(cfg, row_len, rest + row));
        assert(spec_rows_text(cfg, row_len, rows) == spec_cells_text(cfg, head) + seq!['\n']
            + spec_rows_text(cfg, row_len, rest));
        assert(spec_cells_text(cfg, head) + seq!['\n'] + (spec_rows_text(cfg, row_len, rest)
            + spec_cells_text(cfg, row) + seq!['\n']) =~= spec_cells_text(cfg, head) + seq!['\n']
            + spec_rows_text(cfg, row_len, rest) + spec_cells_text(cfg, row) + seq!['\n']);
    }
}

/// The fragments of the first `n` rows of an image that is at least one
/// pixel wide, laid out in rows of the image's width, read as the text of
/// those rows.
proof fn lemma_image_rows<I: PixelImage>(cfg: ConfigView, image: &I, n: nat)
    requires
        cfg.sympols.len() <= MAX_RAMP_LEN,
        image.spec_dimensions().0 > 0,
    ensures
        spec_rows_text(
            cfg,
            image.spec_dimensions().0 as nat,
            spec_image_fragments(cfg, image, n),
        ) == spec_image_text(cfg, image, n),
    decreases n,
{
    let w = image.spec_dimensions().0 as nat;
    if n > 0 {
        let m = (n - 1) as nat;
        lemma_image_rows(cfg, image, m);
        lemma_image_fragments_in_ramp(cfg, image, m);
        lemma_row_cells(cfg, image, m as u32, w);
        lemma_rows_text_append(
            cfg,
            w,
            m,
            spec_image_fragments(cfg, image, m),
            spec_row_fragments(cfg, image, m as u32, w),
        );
    }
}

/// The text of the text image of `image` is the text of the streamed
/// conversion, for every image that has a column or has no row.
pub proof fn lemma_same_text<I: PixelImage>(cfg: ConfigView, image: &I)
    requires
        cfg.sympols.len() <= MAX_RAMP_LEN,
        image.spec_dimensions().0 > 0 || image.spec_dimensions().1 == 0,
    ensures
        spec_text_image(cfg, image).text() == spec_stream_text(cfg, image),
{
    if image.spec_dimensions().0 > 0 {
        lemma_image_rows(cfg, image, image.spec_dimensions().1 as nat);
    }
}

/// Round trip: converting an image into an empty text image and rendering
/// that gives, byte for byte, what converting the same image under the same
/// configuration puts on an empty byte stream. This holds of every image that
/// has a column or has no row: a text image does not record how many empty
/// rows it was made from.
pub proof fn lemma_round_trip<I: PixelImage>(cfg: ConfigView, image: &I)
    requires
        cfg.sympols.len() <= MAX_RAMP_LEN,
        image.spec_dimensions().0 > 0 || image.spec_dimensions().1 == 0,
    ensures
        encode_utf8(
            spec_absorb_all::<TextImage>(
                TextImageView {
                    config: cfg,
                    row_len: image.spec_dimensions().0 as usize,
                    fragments: Seq::empty(),
                },
                spec_instructions::<I, TextImage>(cfg, image),
            ).text(),
        ) == spec_absorb_all::<Vec<u8>>(Seq::empty(), spec_instructions::<I, Vec<u8>>(cfg, image)),
{
    let blank = TextImageView {
        config: cfg,
        row_len: image.spec_dimensions().0 as usize,
        fragments: Seq::empty(),
    };
    lemma_buffered_fragments(cfg, image, blank);
    assert(blank.fragments + spec_image_fragments(cfg, image, image.spec_dimensions().1 as nat)
        =~= spec_image_fragments(cfg, image, image.spec_dimensions().1 as nat));
    lemma_same_text(cfg, image);
    lemma_stream_bytes(cfg, image, Seq::empty());
    assert(Seq::<u8>::empty() + encode_utf8(spec_stream_text(cfg, image)) =~= encode_utf8(
        spec_stream_text(cfg, image),
    ));
}

/// Rendering is repeatable: two renderings of one text image are the same
/// text.
pub proof fn lemma_render_repeatable(image: TextImage, first: String, second: String)
    requires
        first@ == image@.text(),
        second@ == image@.text(),
    ensures
        first@ == second@,
{
}

} // verus!

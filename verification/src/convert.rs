//! The conversion: which instructions an image gives rise to, and the driver
//! that issues them to a sink.

use vstd::prelude::*;
use vstd::utf8::encode_utf8;

use crate::color::{spec_escape_close, spec_pixel_body, ANSIColor};
use crate::config::{spec_body, Config, ConfigView};
use crate::pixel::PixelImage;
use crate::sympols::{
    spec_addressable, spec_brightness, spec_glyph, spec_sym_index, MAX_RAMP_LEN,
};
use crate::writer::{FragmentInfo, FragmentSpec, FragmentWriter, Instruction, SinkError};
use crate::Rgba;

verus! {

/// The bytes that end a row.
pub open spec fn spec_row_break() -> Seq<u8> {
    encode_utf8(seq!['\n'])
}

/// The bytes of the closing reset.
pub open spec fn spec_close_bytes() -> Seq<u8> {
    encode_utf8(spec_escape_close())
}

/// The fragment that stands for `pixel` under `cfg`.
pub open spec fn spec_fragment(cfg: ConfigView, pixel: Rgba) -> FragmentSpec {
    let idx = spec_sym_index(cfg.sympols.len() as int, pixel);
    FragmentSpec {
        sym: spec_glyph(cfg.sympols, idx),
        sym_index: idx as usize,
        fg: spec_pixel_body(pixel),
    }
}

/// The background and the foreground of a fragment whose pixel has the color
/// `fg`: the configured background and `fg`, swapped in reverse mode.
pub open spec fn spec_fragment_colors(cfg: ConfigView, fg: Seq<char>) -> (
    Option<Seq<char>>,
    Option<Seq<char>>,
) {
    if cfg.reversed() {
        (Some(fg), cfg.background)
    } else {
        (cfg.background, Some(fg))
    }
}

/// The instruction that carries a fragment to the sink.
pub open spec fn spec_fragment_instruction(cfg: ConfigView, info: FragmentSpec) -> Instruction {
    if cfg.use_colors() {
        let colors = spec_fragment_colors(cfg, info.fg);
        Instruction::ColoredFragment { info, bc: colors.0, fc: colors.1 }
    } else {
        Instruction::Fragment { info }
    }
}

/// The instruction that `pixel` gives rise to.
pub open spec fn spec_pixel_instruction(cfg: ConfigView, pixel: Rgba) -> Instruction {
    spec_fragment_instruction(cfg, spec_fragment(cfg, pixel))
}

/// The instructions for the first `n` pixels of row `y`.
pub open spec fn spec_row_instructions<I: PixelImage>(
    cfg: ConfigView,
    image: &I,
    y: u32,
    n: nat,
) -> Seq<Instruction>
    decreases n,
{
    if n == 0 {
        Seq::empty()
    } else {
        spec_row_instructions(cfg, image, y, (n - 1) as nat).push(
            spec_pixel_instruction(cfg, image.spec_pixel((n - 1) as u32, y)),
        )
    }
}

/// The instructions for the first `n` rows: each row's fragments from left
/// to right, then a row break.
pub open spec fn spec_rows_instructions<I: PixelImage>(cfg: ConfigView, image: &I, n: nat) -> Seq<
    Instruction,
>
    decreases n,
{
    if n == 0 {
        Seq::empty()
    } else {
        spec_rows_instructions(cfg, image, (n - 1) as nat) + spec_row_instructions(
            cfg,
            image,
            (n - 1) as u32,
            image.spec_dimensions().0 as nat,
        ).push(Instruction::Bytes { bytes: spec_row_break() })
    }
}

/// What precedes the rows: the announcement of the background, unless there
/// is none or the colors are swapped.
pub open spec fn spec_opening(cfg: ConfigView) -> Seq<Instruction> {
    if cfg.one_shot_background() {
        seq![Instruction::Background { color: cfg.background->0 }]
    } else {
        Seq::empty()
    }
}

/// What follows the rows: the closing reset, if the background was announced
/// and the sink asked for it.
pub open spec fn spec_closing<W: FragmentWriter>(cfg: ConfigView) -> Seq<Instruction> {
    if cfg.one_shot_background() && W::closes(cfg.background->0) {
        seq![Instruction::Bytes { bytes: spec_close_bytes() }]
    } else {
        Seq::empty()
    }
}

/// All the instructions that converting `image` under `cfg` issues to a sink
/// of type `W`, in order.
pub open spec fn spec_instructions<I: PixelImage, W: FragmentWriter>(
    cfg: ConfigView,
    image: &I,
) -> Seq<Instruction> {
    spec_opening(cfg) + spec_rows_instructions(cfg, image, image.spec_dimensions().1 as nat)
        + spec_closing::<W>(cfg)
}

/// What a sink holds after it took each of `instrs` in turn.
pub open spec fn spec_absorb_all<W: FragmentWriter>(held: W::V, instrs: Seq<Instruction>) -> W::V
    decreases instrs.len(),
{
    if instrs.len() == 0 {
        held
    } else {
        W::absorbed(spec_absorb_all::<W>(held, instrs.drop_last()), instrs.last())
    }
}

/// Whether the brightness scale can place every pixel of `image` on the ramp
/// of `cfg`: the ramp holds at most [`MAX_RAMP_LEN`] glyphs, or the image is
/// black all over.
pub open spec fn spec_convertible<I: PixelImage>(cfg: ConfigView, image: &I) -> bool {
    forall|x: u32, y: u32|
        x < image.spec_dimensions().0 && y < image.spec_dimensions().1 ==> spec_addressable(
            cfg.sympols.len(),
            #[trigger] image.spec_pixel(x, y),
        )
}

/// Whether a sink that held `held` took the first `k` of `instrs`, refused
/// the next one with `error`, and holds `left` since.
pub open spec fn spec_stopped<W: FragmentWriter>(
    held: W::V,
    instrs: Seq<Instruction>,
    k: int,
    error: SinkError,
    left: W::V,
) -> bool {
    &&& 0 <= k < instrs.len()
    &&& W::refuses(spec_absorb_all::<W>(held, instrs.take(k)), instrs[k], error, left)
}

/// Whether the sink is bound to take each of `instrs`.
pub open spec fn spec_admits_all<W: FragmentWriter>(instrs: Seq<Instruction>) -> bool {
    forall|i: int| 0 <= i < instrs.len() ==> W::admits(#[trigger] instrs[i])
}

/// Taking two runs of instructions in turn is taking their concatenation.
pub proof fn lemma_absorb_concat<W: FragmentWriter>(
    held: W::V,
    first: Seq<Instruction>,
    second: Seq<Instruction>,
)
    ensures
        spec_absorb_all::<W>(held, first + second) == spec_absorb_all::<W>(
            spec_absorb_all::<W>(held, first),
            second,
        ),
    decreases second.len(),
{
    if second.len() == 0 {
        assert(first + second =~= first);
    } else {
        lemma_absorb_concat::<W>(held, first, second.drop_last());
        assert((first + second).drop_last() =~= first + second.drop_last());
        assert((first + second).last() == second.last());
    }
}

/// Taking one more instruction after a run.
pub proof fn lemma_absorb_push<W: FragmentWriter>(
    held: W::V,
    instrs: Seq<Instruction>,
    ins: Instruction,
)
    ensures
        spec_absorb_all::<W>(held, instrs.push(ins)) == W::absorbed(
            spec_absorb_all::<W>(held, instrs),
            ins,
        ),
{
    assert(instrs.push(ins).drop_last() =~= instrs);
}

/// The first `n` instructions of a row are `n` many.
pub proof fn lemma_row_len<I: PixelImage>(cfg: ConfigView, image: &I, y: u32, n: nat)
    ensures
        spec_row_instructions(cfg, image, y, n).len() == n,
    decreases n,
{
    if n > 0 {
        lemma_row_len(cfg, image, y, (n - 1) as nat);
    }
}

/// A shorter stretch of a row opens every longer one.
proof fn lemma_row_prefix<I: PixelImage>(cfg: ConfigView, image: &I, y: u32, n: nat, m: nat)
    requires
        n <= m,
    ensures
        spec_row_instructions(cfg, image, y, n).is_prefix_of(
            spec_row_instructions(cfg, image, y, m),
        ),
    decreases m,
{
    lemma_row_len(cfg, image, y, n);
    lemma_row_len(cfg, image, y, m);
    if n < m {
        lemma_row_prefix(cfg, image, y, n, (m - 1) as nat);
        lemma_row_len(cfg, image, y, (m - 1) as nat);
    }
}

/// Fewer rows open every greater number of rows.
proof fn lemma_rows_prefix<I: PixelImage>(cfg: ConfigView, image: &I, n: nat, m: nat)
    requires
        n <= m,
    ensures
        spec_rows_instructions(cfg, image, n).is_prefix_of(spec_rows_instructions(cfg, image, m)),
    decreases m,
{
    if n < m {
        lemma_rows_prefix(cfg, image, n, (m - 1) as nat);
    }
}

/// The first `n` rows take `n` times the width and one instructions.
pub proof fn lemma_rows_len<I: PixelImage>(cfg: ConfigView, image: &I, n: nat)
    ensures
        spec_rows_instructions(cfg, image, n).len() == n * (image.spec_dimensions().0 + 1),
    decreases n,
{
    let w = image.spec_dimensions().0 as nat;
    if n > 0 {
        lemma_rows_len(cfg, image, (n - 1) as nat);
        lemma_row_len(cfg, image, (n - 1) as u32, w);
        assert(n * (w + 1) == (n - 1) * (w + 1) + (w + 1)) by (nonlinear_arith)
            requires
                n > 0,
        ;
    } else {
        assert(0 * (w + 1) == 0);
    }
}

/// The instruction of the pixel in column `x` is at `x` among the
/// instructions of its row.
proof fn lemma_row_instruction<I: PixelImage>(cfg: ConfigView, image: &I, y: u32, n: nat, x: u32)
    requires
        x < n,
    ensures
        spec_row_instructions(cfg, image, y, n)[x as int] == spec_pixel_instruction(
            cfg,
            image.spec_pixel(x, y),
        ),
    decreases n,
{
    lemma_row_len(cfg, image, y, (n - 1) as nat);
    if x < n - 1 {
        lemma_row_instruction(cfg, image, y, (n - 1) as nat, x);
    }
}

/// The layout of the rows: among the instructions of the first `n` rows of
/// an image of width `w`, the instruction of the pixel in column `x` of row
/// `y` is at `y * (w + 1) + x`, and the break of row `y` is at
/// `y * (w + 1) + w`.
pub proof fn lemma_rows_layout<I: PixelImage>(cfg: ConfigView, image: &I, n: nat, x: u32, y: u32)
    requires
        x <= image.spec_dimensions().0,
        y < n,
    ensures
        0 <= y * (image.spec_dimensions().0 + 1) + x < spec_rows_instructions(
            cfg,
            image,
            n,
        ).len(),
        x < image.spec_dimensions().0 ==> spec_rows_instructions(cfg, image, n)[y * (
        image.spec_dimensions().0 + 1) + x] == spec_pixel_instruction(
            cfg,
            image.spec_pixel(x, y),
        ),
        x == image.spec_dimensions().0 ==> spec_rows_instructions(cfg, image, n)[y * (
        image.spec_dimensions().0 + 1) + x] == (Instruction::Bytes { bytes: spec_row_break() }),
    decreases n,
{
    let w = image.spec_dimensions().0 as nat;
    let m = (n - 1) as nat;
    lemma_rows_len(cfg, image, n);
    lemma_rows_len(cfg, image, m);
    lemma_row_len(cfg, image, m as u32, w);
    assert(n * (w + 1) == m * (w + 1) + (w + 1)) by (nonlinear_arith)
        requires
            n == m + 1,
    ;
    assert(0 <= y * (w + 1)) by (nonlinear_arith);
    if y < m {
        lemma_rows_layout(cfg, image, m, x, y);
    } else {
        assert(y * (w + 1) == m * (w + 1));
        if x < w {
            lemma_row_instruction(cfg, image, y, w, x);
        }
    }
}

/// Reverse video: with colors, the reverse flag and a background, the sink
/// is not told of the background and gets no closing reset; the instruction
/// of every pixel is a colored fragment whose background is the color of the
/// pixel and whose foreground is the configured background.
pub proof fn lemma_reverse_swap<I: PixelImage, W: FragmentWriter>(
    cfg: ConfigView,
    image: &I,
    x: u32,
    y: u32,
)
    requires
        cfg.use_colors(),
        cfg.reversed(),
        cfg.background is Some,
        x < image.spec_dimensions().0,
        y < image.spec_dimensions().1,
    ensures
        spec_instructions::<I, W>(cfg, image) == spec_rows_instructions(
            cfg,
            image,
            image.spec_dimensions().1 as nat,
        ),
        spec_instructions::<I, W>(cfg, image)[y * (image.spec_dimensions().0 + 1) + x] == (
        Instruction::ColoredFragment {
            info: spec_fragment(cfg, image.spec_pixel(x, y)),
            bc: Some(spec_pixel_body(image.spec_pixel(x, y))),
            fc: cfg.background,
        }),
{
    let rows = spec_rows_instructions(cfg, image, image.spec_dimensions().1 as nat);
    assert(spec_instructions::<I, W>(cfg, image) =~= rows);
    lemma_rows_layout(cfg, image, image.spec_dimensions().1 as nat, x, y);
}

/// A stretch that opens `b` opens `b + c` too.
proof fn lemma_prefix_of_longer(a: Seq<Instruction>, b: Seq<Instruction>, c: Seq<Instruction>)
    requires
        a.is_prefix_of(b),
    ensures
        a.is_prefix_of(b + c),
{
}

/// Prefixes stay prefixes behind a common start.
proof fn lemma_prefix_behind(a: Seq<Instruction>, b: Seq<Instruction>, c: Seq<Instruction>)
    requires
        b.is_prefix_of(c),
    ensures
        (a + b).is_prefix_of(a + c),
{
}

/// A prefix of a prefix is a prefix.
proof fn lemma_prefix_transitive(a: Seq<Instruction>, b: Seq<Instruction>, c: Seq<Instruction>)
    requires
        a.is_prefix_of(b),
        b.is_prefix_of(c),
    ensures
        a.is_prefix_of(c),
{
}

/// What has been issued in the middle of row `y`, after `x` of its pixels,
/// opens the whole sequence of instructions.
proof fn lemma_progress_prefix<I: PixelImage, W: FragmentWriter>(
    cfg: ConfigView,
    image: &I,
    y: u32,
    x: nat,
)
    requires
        y < image.spec_dimensions().1,
        x <= image.spec_dimensions().0,
    ensures
        (spec_opening(cfg) + (spec_rows_instructions(cfg, image, y as nat) + spec_row_instructions(
            cfg,
            image,
            y,
            x,
        ))).is_prefix_of(spec_instructions::<I, W>(cfg, image)),
{
    let w = image.spec_dimensions().0 as nat;
    let h = image.spec_dimensions().1 as nat;
    let row = spec_row_instructions(cfg, image, y, x);
    let whole_row = spec_row_instructions(cfg, image, y, w);
    let row_break = seq![Instruction::Bytes { bytes: spec_row_break() }];
    let before = spec_rows_instructions(cfg, image, y as nat);
    let after = spec_rows_instructions(cfg, image, (y + 1) as nat);
    let all = spec_rows_instructions(cfg, image, h);
    lemma_row_prefix(cfg, image, y, x, w);
    lemma_prefix_of_longer(row, whole_row, row_break);
    assert(whole_row + row_break =~= whole_row.push(Instruction::Bytes { bytes: spec_row_break() }));
    lemma_prefix_behind(before, row, whole_row + row_break);
    assert(after == before + (whole_row + row_break));
    lemma_rows_prefix(cfg, image, (y + 1) as nat, h);
    lemma_prefix_transitive(before + row, after, all);
    lemma_prefix_behind(spec_opening(cfg), before + row, all);
    lemma_prefix_of_longer(
        spec_opening(cfg) + (before + row),
        spec_opening(cfg) + all,
        spec_closing::<W>(cfg),
    );
}

/// The rows issued so far, with the opening, open the whole sequence.
proof fn lemma_rows_done_prefix<I: PixelImage, W: FragmentWriter>(
    cfg: ConfigView,
    image: &I,
    y: nat,
)
    requires
        y <= image.spec_dimensions().1,
    ensures
        (spec_opening(cfg) + spec_rows_instructions(cfg, image, y)).is_prefix_of(
            spec_instructions::<I, W>(cfg, image),
        ),
{
    let h = image.spec_dimensions().1 as nat;
    let all = spec_rows_instructions(cfg, image, h);
    lemma_rows_prefix(cfg, image, y, h);
    lemma_prefix_behind(spec_opening(cfg), spec_rows_instructions(cfg, image, y), all);
    lemma_prefix_of_longer(
        spec_opening(cfg) + spec_rows_instructions(cfg, image, y),
        spec_opening(cfg) + all,
        spec_closing::<W>(cfg),
    );
}

/// An instruction that a sink does not admit, at the end of a stretch that
/// opens `full`, shows that the sink does not admit all of `full`.
proof fn lemma_not_admitted<W: FragmentWriter>(done: Seq<Instruction>, full: Seq<Instruction>)
    requires
        done.len() > 0,
        done.is_prefix_of(full),
        !W::admits(done.last()),
    ensures
        !spec_admits_all::<W>(full),
{
    assert(full[done.len() - 1] == done.last());
}

/// A refusal at the end of a stretch that opens `full` stops the run of
/// `full` there.
proof fn lemma_stopped<W: FragmentWriter>(
    held: W::V,
    done: Seq<Instruction>,
    full: Seq<Instruction>,
    error: SinkError,
    left: W::V,
)
    requires
        done.len() > 0,
        done.is_prefix_of(full),
        W::refuses(spec_absorb_all::<W>(held, done.drop_last()), done.last(), error, left),
    ensures
        spec_stopped::<W>(held, full, done.len() - 1, error, left),
{
    assert(full[done.len() - 1] == done.last());
    assert(full.take(done.len() - 1) =~= done.drop_last());
}

/// Whether the brightness scale can place every pixel of `image` on the ramp
/// of `config`.
pub fn convertible<I: PixelImage>(config: &Config, image: &I) -> (b: bool)
    ensures
        b == spec_convertible(config@, image),
{
    if config.sympols.len() <= MAX_RAMP_LEN {
        return true;
    }
    let (width, height) = image.dimensions();
    let mut y: u32 = 0;
    while y < height
        invariant
            y <= height,
            (width, height) == image.spec_dimensions(),
            config.sympols@.len() > MAX_RAMP_LEN,
            forall|u: u32, v: u32|
                u < width && v < y ==> spec_brightness(#[trigger] image.spec_pixel(u, v)) == 0,
        decreases height - y,
    {
        let mut x: u32 = 0;
        while x < width
            invariant
                x <= width,
                y < height,
                (width, height) == image.spec_dimensions(),
                config.sympols@.len() > MAX_RAMP_LEN,
                forall|u: u32| u < x ==> spec_brightness(#[trigger] image.spec_pixel(u, y)) == 0,
            decreases width - x,
        {
            let pixel = image.get_pixel(x, y);
            if (pixel.r as u32 + pixel.g as u32 + pixel.b as u32) / 3 != 0 {
                return false;
            }
            x += 1;
        }
        y += 1;
    }
    true
}

/// The fragment that stands for `pixel`: its glyph, the glyph's index in the
/// ramp, and the pixel's color.
pub fn fragment_of(config: &Config, pixel: Rgba) -> (info: FragmentInfo)
    requires
        spec_addressable(config.sympols@.len(), pixel),
    ensures
        info@ == spec_fragment(config@, pixel),
{
    let (sym, sym_index) = config.sympols.sym_and_index(&pixel);
    FragmentInfo { sym, sym_index, fg: ANSIColor::from(pixel) }
}

/// The background and the foreground with which a fragment is written when
/// colors are enabled: the configured background and the fragment's own
/// color, swapped in reverse mode.
pub fn fragment_colors(config: &Config, info: &FragmentInfo) -> (colors: (
    Option<ANSIColor>,
    Option<ANSIColor>,
))
    ensures
        (spec_body(colors.0), spec_body(colors.1)) == spec_fragment_colors(config@, info.fg@),
{
    let fg = Some(info.fg.clone());
    let bc = match &config.background {
        Some(b) => Some(b.clone()),
        None => None,
    };
    if config.reversed() {
        (fg, bc)
    } else {
        (bc, fg)
    }
}

/// Hands the fragment of one pixel to the sink.
fn write_pixel<W: FragmentWriter>(config: &Config, pixel: Rgba, out: &mut W) -> (r: Result<
    (),
    SinkError,
>)
    requires
        spec_addressable(config.sympols@.len(), pixel),
    ensures
        W::admits(spec_pixel_instruction(config@, pixel)) ==> r is Ok,
        r is Ok ==> final(out)@ == W::absorbed(
            old(out)@,
            spec_pixel_instruction(config@, pixel),
        ),
        r matches Err(e) ==> W::refuses(
            old(out)@,
            spec_pixel_instruction(config@, pixel),
            e,
            final(out)@,
        ),
{
    let info = fragment_of(config, pixel);
    if config.use_colors() {
        let (bc, fc) = fragment_colors(config, &info);
        out.write_colored_fragment(info, bc.as_ref(), fc.as_ref())
    } else {
        out.write_fragment(info)
    }
}

/// Converts the image into text under `config` and writes it to `out`.
///
/// The sink receives exactly the instructions of [`spec_instructions`], in
/// order. The conversion stops at the first instruction that the sink
/// refuses and returns the sink's error: the sink took the instructions
/// before that one, and holds what the refusal left it with. A sink that
/// admits every instruction makes the conversion succeed.
///
/// The ramp holds at most [`MAX_RAMP_LEN`] glyphs, unless the image is black
/// all over.
pub fn convert_image_to_ascii<I: PixelImage, W: FragmentWriter>(
    config: &Config,
    image: &I,
    out: &mut W,
) -> (r: Result<(), SinkError>)
    requires
        spec_convertible(config@, image),
    ensures
        spec_admits_all::<W>(spec_instructions::<I, W>(config@, image)) ==> r is Ok,
        r is Ok ==> final(out)@ == spec_absorb_all::<W>(
            old(out)@,
            spec_instructions::<I, W>(config@, image),
        ),
        r matches Err(e) ==> exists|k: int|
            #[trigger] spec_stopped::<W>(
                old(out)@,
                spec_instructions::<I, W>(config@, image),
                k,
                e,
                final(out)@,
            ),
{
    let (width, height) = image.dimensions();
    let ghost cfg = config@;
    let ghost full = spec_instructions::<I, W>(cfg, image);
    let ghost opening = spec_opening(cfg);
    let mut ansi_close = false;
    if !config.reversed() {
        match &config.background {
            Some(bc) => {
                proof {
                    lemma_rows_done_prefix::<I, W>(cfg, image, 0);
                    assert(opening + spec_rows_instructions(cfg, image, 0) =~= opening);
                    assert(opening.drop_last() =~= Seq::<Instruction>::empty());
                }
                match out.background(bc) {
                    Ok(reply) => {
                        ansi_close = reply;
                        assert(spec_absorb_all::<W>(old(out)@, opening.drop_last()) == old(out)@);
                    },
                    Err(e) => {
                        proof {
                            lemma_not_admitted::<W>(opening, full);
                            lemma_stopped::<W>(old(out)@, opening, full, e, out@);
                        }
                        return Err(e);
                    },
                }
            },
            None => {},
        }
    }
    assert(out@ == spec_absorb_all::<W>(old(out)@, opening));
    assert(ansi_close == (cfg.one_shot_background() && W::closes(cfg.background->0)));
    let mut y: u32 = 0;
    while y < height
        invariant
            y <= height,
            (width, height) == image.spec_dimensions(),
            cfg == config@,
            spec_convertible(cfg, image),
            opening == spec_opening(cfg),
            full == spec_instructions::<I, W>(cfg, image),
            out@ == spec_absorb_all::<W>(
                old(out)@,
                opening + spec_rows_instructions(cfg, image, y as nat),
            ),
        decreases height - y,
    {
        let ghost before = opening + spec_rows_instructions(cfg, image, y as nat);
        let mut x: u32 = 0;
        assert(before + spec_row_instructions(cfg, image, y, 0) =~= before);
        while x < width
            invariant
                x <= width,
                y < height,
                (width, height) == image.spec_dimensions(),
                cfg == config@,
                spec_convertible(cfg, image),
                opening == spec_opening(cfg),
                before == opening + spec_rows_instructions(cfg, image, y as nat),
                full == spec_instructions::<I, W>(cfg, image),
                out@ == spec_absorb_all::<W>(
                    old(out)@,
                    before + spec_row_instructions(cfg, image, y, x as nat),
                ),
            decreases width - x,
        {
            let pixel = image.get_pixel(x, y);
            let ghost ins = spec_pixel_instruction(cfg, pixel);
            let ghost done = before + spec_row_instructions(cfg, image, y, (x + 1) as nat);
            proof {
                lemma_progress_prefix::<I, W>(cfg, image, y, (x + 1) as nat);
                assert(done =~= opening + (spec_rows_instructions(cfg, image, y as nat)
                    + spec_row_instructions(cfg, image, y, (x + 1) as nat)));
                assert(done =~= (before + spec_row_instructions(cfg, image, y, x as nat)).push(
                    ins,
                ));
                assert(done.drop_last() =~= before + spec_row_instructions(
                    cfg,
                    image,
                    y,
                    x as nat,
                ));
            }
            match write_pixel(config, pixel, out) {
                Ok(()) => {},
                Err(e) => {
                    proof {
                        lemma_not_admitted::<W>(done, full);
                        lemma_stopped::<W>(old(out)@, done, full, e, out@);
                    }
                    return Err(e);
                },
            }
            x += 1;
        }
        let ghost row_break = Instruction::Bytes { bytes: spec_row_break() };
        let ghost done = opening + spec_rows_instructions(cfg, image, (y + 1) as nat);
        proof {
            reveal_strlit("\n");
            assert("\n"@ =~= seq!['\n']);
            lemma_rows_done_prefix::<I, W>(cfg, image, (y + 1) as nat);
            assert(done =~= (before + spec_row_instructions(cfg, image, y, width as nat)).push(
                row_break,
            ));
            assert(done.drop_last() =~= before + spec_row_instructions(
                cfg,
                image,
                y,
                width as nat,
            ));
        }
        match out.write_bytes("\n".as_bytes()) {
            Ok(()) => {},
            Err(e) => {
                proof {
                    lemma_not_admitted::<W>(done, full);
                    lemma_stopped::<W>(old(out)@, done, full, e, out@);
                }
                return Err(e);
            },
        }
        y += 1;
    }
    let ghost rows = opening + spec_rows_instructions(cfg, image, height as nat);
    if ansi_close {
        proof {
            reveal_strlit("\u{1b}[0m");
            assert("\u{1b}[0m"@ =~= spec_escape_close());
            assert(full =~= rows.push(Instruction::Bytes { bytes: spec_close_bytes() }));
            assert(full.drop_last() =~= rows);
        }
        match out.write_bytes("\u{1b}[0m".as_bytes()) {
            Ok(()) => {},
            Err(e) => {
                proof {
                    assert(full.is_prefix_of(full));
                    lemma_not_admitted::<W>(full, full);
                    lemma_stopped::<W>(old(out)@, full, full, e, out@);
                }
                return Err(e);
            },
        }
    } else {
        assert(full =~= rows);
    }
    Ok(())
}

} // verus!

//! The rendering configuration.

use vstd::prelude::*;

use crate::color::{
    spec_background_escape, spec_escape_close, spec_foreground_escape, ANSIColor,
};
use crate::sympols::Sympols;
use crate::{COLORS, REVERSE};

verus! {

/// The number of output bytes reserved for each pixel when colors are enabled:
/// the lengths of the reset, foreground and background openings, times nine.
pub const COLORED_CELL_BYTES: usize = 162;

/// The bytes reserved for a colored pixel are nine times the lengths of the
/// reset, the foreground opening and the background opening together.
pub proof fn lemma_colored_cell_bytes()
    ensures
        COLORED_CELL_BYTES == (spec_escape_close().len() + spec_foreground_escape().len()
            + spec_background_escape().len()) * 9,
{
}

/// The body of an optional color.
pub open spec fn spec_body(color: Option<ANSIColor>) -> Option<Seq<char>> {
    match color {
        Some(c) => Some(c@),
        None => None,
    }
}

/// Whether the colors flag is set in `flags`.
pub open spec fn spec_use_colors(flags: u8) -> bool {
    flags & COLORS == COLORS
}

/// Whether the reverse flag is set in `flags`.
pub open spec fn spec_reversed(flags: u8) -> bool {
    flags & REVERSE == REVERSE
}

/// The worst-case size of the output for an image of `w` by `h` pixels.
pub open spec fn spec_buf_size(flags: u8, w: nat, h: nat) -> nat {
    if spec_use_colors(flags) {
        w * h * (COLORED_CELL_BYTES as nat)
    } else {
        w * h
    }
}

/// A configuration as the contracts see it: the ramp's glyphs, the body of
/// the background color, and the flags.
pub struct ConfigView {
    pub sympols: Seq<char>,
    pub background: Option<Seq<char>>,
    pub flags: u8,
}

impl ConfigView {
    /// Whether output is colorized.
    pub open spec fn use_colors(self) -> bool {
        spec_use_colors(self.flags)
    }

    /// Whether foreground and background are swapped.
    pub open spec fn reversed(self) -> bool {
        spec_reversed(self.flags)
    }

    /// Whether the background is announced once, before the first fragment:
    /// there is one, and the colors are not swapped.
    pub open spec fn one_shot_background(self) -> bool {
        self.background is Some && !self.reversed()
    }
}

/// The main configuration.
#[derive(Debug, PartialEq, PartialOrd, Hash)]
pub struct Config {
    /// The ramp of symbols.
    pub sympols: Sympols,
    /// The background of the rendered image, for transparent parts or for use
    /// with the [`REVERSE`] flag.
    pub background: Option<ANSIColor>,
    /// The flags: [`COLORS`], [`REVERSE`].
    pub flags: u8,
}

impl View for Config {
    type V = ConfigView;

    open spec fn view(&self) -> ConfigView {
        ConfigView {
            sympols: self.sympols@,
            background: spec_body(self.background),
            flags: self.flags,
        }
    }
}

impl Clone for Config {
    fn clone(&self) -> (c: Self)
        ensures
            c@ == self@,
    {
        let background = match &self.background {
            Some(b) => Some(b.clone()),
            None => None,
        };
        Config { sympols: self.sympols.clone(), background, flags: self.flags }
    }
}

impl Config {
    /// Whether the [`REVERSE`] flag is set.
    pub fn reversed(&self) -> (b: bool)
        ensures
            b == self@.reversed(),
    {
        self.flags & REVERSE == REVERSE
    }

    /// Whether the [`COLORS`] flag is set.
    pub fn use_colors(&self) -> (b: bool)
        ensures
            b == self@.use_colors(),
    {
        self.flags & COLORS == COLORS
    }

    /// The space that the rendered image takes in the worst case, as a hint
    /// for allocation.
    pub fn calc_buf_size(&self, w: u32, h: u32) -> (n: usize)
        requires
            spec_buf_size(self.flags, w as nat, h as nat) <= usize::MAX,
        ensures
            n == spec_buf_size(self.flags, w as nat, h as nat),
    {
        assert(0 <= w * h <= w * h * 162) by (nonlinear_arith);
        let mut res: usize = w as usize * h as usize;
        if self.use_colors() {
            res = res * COLORED_CELL_BYTES;
        }
        res
    }

    /// The size hint of [`Config::calc_buf_size`], or `None` where it does
    /// not fit the machine word.
    pub fn checked_buf_size(&self, w: u32, h: u32) -> (n: Option<usize>)
        ensures
            n is Some <==> spec_buf_size(self.flags, w as nat, h as nat) <= usize::MAX,
            n matches Some(size) ==> size == spec_buf_size(self.flags, w as nat, h as nat),
    {
        assert(0 <= w * h <= w * h * 162) by (nonlinear_arith);
        assert(w * h <= u64::MAX) by (nonlinear_arith)
            requires
                w <= u32::MAX,
                h <= u32::MAX,
        ;
        let cells: u64 = w as u64 * h as u64;
        let limit: u64 = if self.use_colors() {
            usize::MAX as u64 / COLORED_CELL_BYTES as u64
        } else {
            usize::MAX as u64
        };
        if cells > limit {
            return None;
        }
        Some(self.calc_buf_size(w, h))
    }
}

/// The size hint never shrinks when the image grows: it is monotonic in the
/// width and in the height, for fixed flags.
pub proof fn lemma_buf_size_monotonic(flags: u8, w1: nat, h1: nat, w2: nat, h2: nat)
    requires
        w1 <= w2,
        h1 <= h2,
    ensures
        spec_buf_size(flags, w1, h1) <= spec_buf_size(flags, w2, h2),
{
    assert(w1 * h1 <= w2 * h2) by (nonlinear_arith)
        requires
            w1 <= w2,
            h1 <= h2,
    ;
    assert(w1 * h1 * 162 <= w2 * h2 * 162) by (nonlinear_arith)
        requires
            w1 * h1 <= w2 * h2,
    ;
}

} // verus!

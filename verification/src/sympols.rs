//! The symbol ramp and the pixel-to-glyph mapping.

use vstd::prelude::*;
use vstd::std_specs::convert::FromSpecImpl;

use crate::{Rgba, ALPHA_THRESHOLD};

verus! {

/// The glyph that an empty ramp yields for every pixel.
pub const EMPTY_CHAR: char = ' ';

/// The longest ramp that the brightness scale can address.
pub const MAX_RAMP_LEN: usize = 255;

/// The coarse brightness of a pixel: the truncated mean of its color channels.
pub open spec fn spec_brightness(pixel: Rgba) -> int {
    (pixel.r + pixel.g + pixel.b) / 3
}

/// The brightness after transparency has been folded in: a pixel whose alpha
/// is under the threshold has its brightness replaced by `alpha % brightness`.
pub open spec fn spec_level(pixel: Rgba) -> int {
    let avg = spec_brightness(pixel);
    if avg == 0 {
        0
    } else if pixel.a < ALPHA_THRESHOLD {
        pixel.a as int % avg
    } else {
        avg
    }
}

/// The index into a ramp of `len` glyphs that a pixel selects.
pub open spec fn spec_sym_index(len: int, pixel: Rgba) -> int {
    if len <= 0 || spec_brightness(pixel) == 0 {
        0
    } else {
        let idx = spec_level(pixel) / (255int / len);
        if idx >= len {
            len - 1
        } else {
            idx
        }
    }
}

/// Whether the brightness scale can place `pixel` on a ramp of `len` glyphs:
/// the step `255 / len` does not vanish, or the pixel is black and needs no
/// step.
pub open spec fn spec_addressable(len: nat, pixel: Rgba) -> bool {
    len <= MAX_RAMP_LEN || spec_brightness(pixel) == 0
}

/// The glyph at index `i` of a ramp, or the blank glyph if the ramp is empty.
pub open spec fn spec_glyph(ramp: Seq<char>, i: int) -> char {
    if ramp.len() == 0 {
        EMPTY_CHAR
    } else {
        ramp[i]
    }
}

/// The symbols (characters) that represent pixels, ordered from the lightest
/// glyph to the darkest.
#[derive(Debug, PartialEq, PartialOrd, Hash)]
pub struct Sympols {
    set: Vec<char>,
}

impl View for Sympols {
    type V = Seq<char>;

    closed spec fn view(&self) -> Seq<char> {
        self.set@
    }
}

impl Clone for Sympols {
    fn clone(&self) -> (s: Self)
        ensures
            s@ == self@,
    {
        let set = self.set.clone();
        assert(set@ =~= self.set@);
        Sympols { set }
    }
}

impl Sympols {
    /// Constructs a ramp from its glyphs.
    pub fn new(set: Vec<char>) -> (s: Sympols)
        ensures
            s@ == set@,
    {
        Sympols { set }
    }

    /// Constructs an empty ramp.
    pub fn empty() -> (s: Sympols)
        ensures
            s@ == Seq::<char>::empty(),
    {
        Sympols { set: Vec::new() }
    }

    /// The glyph at index `i`; an empty ramp yields [`EMPTY_CHAR`] for every index.
    pub fn get(&self, i: usize) -> (c: char)
        requires
            self@.len() == 0 || i < self@.len(),
        ensures
            c == spec_glyph(self@, i as int),
    {
        if self.is_empty() {
            return EMPTY_CHAR;
        }
        self.set[i]
    }

    /// The number of glyphs.
    pub fn len(&self) -> (n: usize)
        ensures
            n == self@.len(),
    {
        self.set.len()
    }

    /// Whether the ramp has no glyph.
    pub fn is_empty(&self) -> (b: bool)
        ensures
            b == (self@.len() == 0),
    {
        self.set.len() == 0
    }

    /// The index of the glyph that stands for `pixel`.
    ///
    /// The scale step `255 / len` must not vanish, so the ramp holds at most
    /// [`MAX_RAMP_LEN`] glyphs, unless the pixel is black: a black pixel
    /// selects index 0 on every ramp.
    pub fn sym_index(&self, pixel: &Rgba) -> (idx: usize)
        requires
            spec_addressable(self@.len(), *pixel),
        ensures
            idx == spec_sym_index(self@.len() as int, *pixel),
            self@.len() > 0 ==> idx < self@.len(),
            self@.len() == 0 ==> idx == 0,
    {
        if self.is_empty() {
            return 0;
        }
        let len: usize = self.len();
        let mut idx: usize = (pixel.r as usize + pixel.g as usize + pixel.b as usize) / 3;
        if idx == 0 {
            return 0;
        }
        if pixel.a < ALPHA_THRESHOLD {
            idx = pixel.a as usize % idx;
        }
        assert(255int / (len as int) > 0) by (nonlinear_arith)
            requires
                0 < len <= 255,
        ;
        idx = idx / (255 / len);
        if idx >= len {
            return len - 1;
        }
        idx
    }

    /// The glyph that stands for `pixel`, and its index in the ramp.
    pub fn sym_and_index(&self, pixel: &Rgba) -> (r: (char, usize))
        requires
            spec_addressable(self@.len(), *pixel),
        ensures
            r.1 == spec_sym_index(self@.len() as int, *pixel),
            r.0 == spec_glyph(self@, r.1 as int),
    {
        let idx = self.sym_index(pixel);
        (self.get(idx), idx)
    }
}

impl From<Vec<char>> for Sympols {
    /// The ramp of the given glyphs.
    fn from(value: Vec<char>) -> (s: Sympols)
        ensures
            s@ == value@,
    {
        Sympols::new(value)
    }
}

impl FromSpecImpl<Vec<char>> for Sympols {
    open spec fn obeys_from_spec() -> bool {
        false
    }

    open spec fn from_spec(value: Vec<char>) -> Sympols {
        arbitrary()
    }
}

impl From<&[char]> for Sympols {
    /// The ramp of the given glyphs.
    fn from(value: &[char]) -> (s: Sympols)
        ensures
            s@ == value@,
    {
        let n = value.len();
        let mut set: Vec<char> = Vec::new();
        let mut i: usize = 0;
        while i < n
            invariant
                n == value@.len(),
                i <= n,
                set@ == value@.take(i as int),
            decreases n - i,
        {
            set.push(value[i]);
            assert(value@.take(i + 1) =~= value@.take(i as int).push(value@[i as int]));
            i += 1;
        }
        assert(value@.take(n as int) =~= value@);
        Sympols::new(set)
    }
}

impl FromSpecImpl<&[char]> for Sympols {
    open spec fn obeys_from_spec() -> bool {
        false
    }

    open spec fn from_spec(value: &[char]) -> Sympols {
        arbitrary()
    }
}

/// On a ramp of at least one glyph every pixel that the brightness scale can
/// place, whatever its alpha, selects an index inside the ramp.
pub proof fn lemma_sym_index_in_range(len: int, pixel: Rgba)
    requires
        1 <= len,
        spec_addressable(len as nat, pixel),
    ensures
        0 <= spec_sym_index(len, pixel) < len,
{
    if spec_brightness(pixel) == 0 {
        return ;
    }
    let avg = spec_brightness(pixel);
    let level = spec_level(pixel);
    assert(0 <= level);
    let step = 255int / len;
    assert(step > 0) by (nonlinear_arith)
        requires
            1 <= len <= 255,
            step == 255int / len,
    ;
    assert(0 <= level / step) by (nonlinear_arith)
        requires
            0 <= level,
            step > 0,
    ;
}

/// On an empty ramp every pixel selects index 0 and the blank glyph,
/// whatever its color.
pub proof fn lemma_empty_ramp(pixel: Rgba)
    ensures
        spec_sym_index(0, pixel) == 0,
        spec_glyph(Seq::empty(), spec_sym_index(0, pixel)) == EMPTY_CHAR,
{
}

/// A black pixel selects index 0, whatever its alpha and the length of the
/// ramp.
pub proof fn lemma_black_pixel(len: int, pixel: Rgba)
    requires
        pixel.r == 0,
        pixel.g == 0,
        pixel.b == 0,
    ensures
        spec_sym_index(len, pixel) == 0,
{
}

} // verus!

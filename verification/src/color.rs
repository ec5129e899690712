//! ANSI truecolor values and their escape sequences.

use vstd::prelude::*;
use vstd::std_specs::cmp::PartialEqSpecImpl;
use vstd::std_specs::convert::FromSpecImpl;

use crate::text::{
    lemma_decimal_not_empty, push_char, push_decimal, same_text, spec_decimal, starts_with,
};
use crate::{Rgba, ALPHA_THRESHOLD};

verus! {

/// The sequence that resets every attribute: `ESC [ 0 m`.
pub open spec fn spec_escape_close() -> Seq<char> {
    seq!['\u{1b}', '[', '0', 'm']
}

/// The opening of a foreground color sequence: `ESC [ 3 8 ; 2 ;`.
pub open spec fn spec_foreground_escape() -> Seq<char> {
    seq!['\u{1b}', '[', '3', '8', ';', '2', ';']
}

/// The opening of a background color sequence: `ESC [ 4 8 ; 2 ;`.
pub open spec fn spec_background_escape() -> Seq<char> {
    seq!['\u{1b}', '[', '4', '8', ';', '2', ';']
}

/// The body of a color sequence: the three channels in decimal, joined by `;`.
pub open spec fn spec_rgb_body(r: u8, g: u8, b: u8) -> Seq<char> {
    spec_decimal(r as nat) + seq![';'] + spec_decimal(g as nat) + seq![';'] + spec_decimal(
        b as nat,
    )
}

/// Whether `body` is the body of a color: empty, for the transparent color,
/// or three channels.
pub open spec fn spec_is_color_body(body: Seq<char>) -> bool {
    body.len() == 0 || exists|r: u8, g: u8, b: u8| body == #[trigger] spec_rgb_body(r, g, b)
}

/// The body of three channels is not empty, so no color of three channels is
/// transparent.
pub proof fn lemma_rgb_body_not_empty(r: u8, g: u8, b: u8)
    ensures
        spec_rgb_body(r, g, b).len() > 0,
{
    lemma_decimal_not_empty(r as nat);
}

/// The body of three channels starts with the first channel and `;`, and
/// with the first two channels, each with its `;`.
proof fn lemma_body_starts(r: u8, g: u8, b: u8)
    ensures
        spec_decimal(r as nat).push(';').is_prefix_of(spec_rgb_body(r, g, b)),
        (spec_decimal(r as nat).push(';') + spec_decimal(g as nat)).push(';').is_prefix_of(
            spec_rgb_body(r, g, b),
        ),
{
    let body = spec_rgb_body(r, g, b);
    let first = spec_decimal(r as nat).push(';');
    let second = (first + spec_decimal(g as nat)).push(';');
    assert(body =~= first + (spec_decimal(g as nat) + seq![';'] + spec_decimal(b as nat)));
    assert(body =~= second + spec_decimal(b as nat));
    assert(body.subrange(0, first.len() as int) =~= first);
    assert(body.subrange(0, second.len() as int) =~= second);
}

/// The body of the color that a pixel carries: nothing under the alpha
/// threshold, else its three color channels.
pub open spec fn spec_pixel_body(pixel: Rgba) -> Seq<char> {
    if pixel.a < ALPHA_THRESHOLD {
        Seq::empty()
    } else {
        spec_rgb_body(pixel.r, pixel.g, pixel.b)
    }
}

/// The escape sequence that opens with `prefix` and selects the color with
/// the given body. The transparent color, whose body is empty, has none.
pub open spec fn spec_escape(prefix: Seq<char>, body: Seq<char>) -> Seq<char> {
    if body.len() == 0 {
        Seq::empty()
    } else {
        prefix + body + seq!['m']
    }
}

/// The sequence that sets the foreground to the color with the given body.
pub open spec fn spec_as_foreground(body: Seq<char>) -> Seq<char> {
    spec_escape(spec_foreground_escape(), body)
}

/// The sequence that sets the background to the color with the given body.
pub open spec fn spec_as_background(body: Seq<char>) -> Seq<char> {
    spec_escape(spec_background_escape(), body)
}

/// ANSI color: the body `R;G;B` of a truecolor sequence, or the transparent
/// color, whose body is empty. Its view is that body.
#[derive(Debug, PartialOrd, Hash)]
pub struct ANSIColor {
    inner: String,
}

impl PartialEq for ANSIColor {
    /// Two colors are equal if their bodies are.
    fn eq(&self, other: &Self) -> (equal: bool) {
        self.inner == other.inner
    }
}

impl PartialEqSpecImpl for ANSIColor {
    open spec fn obeys_eq_spec() -> bool {
        true
    }

    open spec fn eq_spec(&self, other: &Self) -> bool {
        self@ == other@
    }
}

impl View for ANSIColor {
    type V = Seq<char>;

    closed spec fn view(&self) -> Seq<char> {
        self.inner@
    }
}

impl Clone for ANSIColor {
    fn clone(&self) -> (c: Self)
        ensures
            c@ == self@,
    {
        proof {
            use_type_invariant(self);
        }
        ANSIColor { inner: self.inner.clone() }
    }
}

/// Appends the foreground opening to `s`.
pub(crate) fn push_foreground_escape(s: &mut String)
    ensures
        final(s)@ == old(s)@ + spec_foreground_escape(),
{
    proof {
        reveal_strlit("\u{1b}[38;2;");
    }
    s.append("\u{1b}[38;2;");
    assert(s@ =~= old(s)@ + spec_foreground_escape());
}

/// Appends the background opening to `s`.
pub(crate) fn push_background_escape(s: &mut String)
    ensures
        final(s)@ == old(s)@ + spec_background_escape(),
{
    proof {
        reveal_strlit("\u{1b}[48;2;");
    }
    s.append("\u{1b}[48;2;");
    assert(s@ =~= old(s)@ + spec_background_escape());
}

/// Appends the reset sequence to `s`.
pub(crate) fn push_escape_close(s: &mut String)
    ensures
        final(s)@ == old(s)@ + spec_escape_close(),
{
    proof {
        reveal_strlit("\u{1b}[0m");
    }
    s.append("\u{1b}[0m");
    assert(s@ =~= old(s)@ + spec_escape_close());
}

impl ANSIColor {
    /// Every color holds the body of a color.
    #[verifier::type_invariant]
    spec fn well_formed(self) -> bool {
        spec_is_color_body(self.inner@)
    }

    /// Constructs the color with the given channels.
    pub fn new(r: u8, g: u8, b: u8) -> (c: ANSIColor)
        ensures
            c@ == spec_rgb_body(r, g, b),
    {
        let mut inner = String::new();
        push_decimal(&mut inner, r);
        push_char(&mut inner, ';');
        push_decimal(&mut inner, g);
        push_char(&mut inner, ';');
        push_decimal(&mut inner, b);
        assert(inner@ =~= spec_rgb_body(r, g, b));
        ANSIColor { inner }
    }

    /// Constructs the transparent color.
    pub fn transparent() -> (c: ANSIColor)
        ensures
            c@ == Seq::<char>::empty(),
    {
        ANSIColor { inner: String::new() }
    }

    /// The body of the color: `R;G;B`, or nothing for the transparent color.
    pub fn body(&self) -> (body: &str)
        ensures
            body@ == self@,
    {
        self.inner.as_str()
    }

    /// The color with the given body, if that is the body of a color:
    /// nothing, or three channels from 0 to 255 in decimal without leading
    /// zeros, joined by `;`.
    pub fn from_body(body: &str) -> (color: Option<ANSIColor>)
        ensures
            color is Some <==> spec_is_color_body(body@),
            color matches Some(c) ==> c@ == body@,
    {
        if body.is_empty() {
            return Some(ANSIColor::transparent());
        }
        let mut r: u16 = 0;
        while r < 256
            invariant
                r <= 256,
                body@.len() > 0,
                forall|m: u8, g: u8, b: u8| m < r ==> body@ != #[trigger] spec_rgb_body(m, g, b),
            decreases 256 - r,
        {
            let mut head = String::new();
            push_decimal(&mut head, r as u8);
            push_char(&mut head, ';');
            if starts_with(body, head.as_str()) {
                let mut g: u16 = 0;
                while g < 256
                    invariant
                        r < 256,
                        g <= 256,
                        head@ == spec_decimal(r as nat).push(';'),
                        forall|n: u8, b: u8|
                            n < g ==> body@ != #[trigger] spec_rgb_body(r as u8, n, b),
                    decreases 256 - g,
                {
                    let mut mid = head.clone();
                    push_decimal(&mut mid, g as u8);
                    push_char(&mut mid, ';');
                    if starts_with(body, mid.as_str()) {
                        let mut b: u16 = 0;
                        while b < 256
                            invariant
                                r < 256,
                                g < 256,
                                b <= 256,
                                mid@ == (spec_decimal(r as nat).push(';') + spec_decimal(
                                    g as nat,
                                )).push(';'),
                                forall|n: u8|
                                    n < b ==> body@ != #[trigger] spec_rgb_body(
                                        r as u8,
                                        g as u8,
                                        n,
                                    ),
                            decreases 256 - b,
                        {
                            let mut whole = mid.clone();
                            push_decimal(&mut whole, b as u8);
                            assert(whole@ =~= spec_rgb_body(r as u8, g as u8, b as u8));
                            if same_text(body, whole.as_str()) {
                                return Some(ANSIColor { inner: whole });
                            }
                            b += 1;
                        }
                    } else {
                        assert forall|b: u8| body@ != #[trigger] spec_rgb_body(
                            r as u8,
                            g as u8,
                            b,
                        ) by {
                            lemma_body_starts(r as u8, g as u8, b);
                        }
                    }
                    g += 1;
                }
            } else {
                assert forall|g: u8, b: u8| body@ != #[trigger] spec_rgb_body(r as u8, g, b) by {
                    lemma_body_starts(r as u8, g, b);
                }
            }
            r += 1;
        }
        None
    }

    /// Whether the color is transparent. A color that is not has the body
    /// of three channels.
    pub fn is_transparent(&self) -> (b: bool)
        ensures
            b == (self@.len() == 0),
            spec_is_color_body(self@),
    {
        proof {
            use_type_invariant(self);
        }
        self.inner.as_str().is_empty()
    }

    /// Appends to `s` the sequence that sets the background to this color.
    pub fn push_background(&self, s: &mut String)
        ensures
            final(s)@ == old(s)@ + spec_as_background(self@),
    {
        if !self.is_transparent() {
            push_background_escape(s);
            s.append(self.inner.as_str());
            push_char(s, 'm');
            assert(s@ =~= old(s)@ + spec_as_background(self@));
        } else {
            assert(s@ =~= old(s)@ + spec_as_background(self@));
        }
    }

    /// Appends to `s` the sequence that sets the foreground to this color.
    pub fn push_foreground(&self, s: &mut String)
        ensures
            final(s)@ == old(s)@ + spec_as_foreground(self@),
    {
        if !self.is_transparent() {
            push_foreground_escape(s);
            s.append(self.inner.as_str());
            push_char(s, 'm');
            assert(s@ =~= old(s)@ + spec_as_foreground(self@));
        } else {
            assert(s@ =~= old(s)@ + spec_as_foreground(self@));
        }
    }

    /// The escape sequence that sets the background to this color; empty for
    /// the transparent color.
    pub fn as_background(&self) -> (s: String)
        ensures
            s@ == spec_as_background(self@),
    {
        let mut s = String::new();
        self.push_background(&mut s);
        assert(s@ =~= spec_as_background(self@));
        s
    }

    /// The escape sequence that sets the foreground to this color; empty for
    /// the transparent color.
    pub fn as_foreground(&self) -> (s: String)
        ensures
            s@ == spec_as_foreground(self@),
    {
        let mut s = String::new();
        self.push_foreground(&mut s);
        assert(s@ =~= spec_as_foreground(self@));
        s
    }

    /// The color as text: its foreground escape sequence.
    pub fn to_string(&self) -> (s: String)
        ensures
            s@ == spec_as_foreground(self@),
    {
        self.as_foreground()
    }
}

impl From<(u8, u8, u8)> for ANSIColor {
    fn from(v: (u8, u8, u8)) -> (c: ANSIColor)
        ensures
            c@ == spec_rgb_body(v.0, v.1, v.2),
    {
        ANSIColor::new(v.0, v.1, v.2)
    }
}

impl FromSpecImpl<(u8, u8, u8)> for ANSIColor {
    open spec fn obeys_from_spec() -> bool {
        false
    }

    open spec fn from_spec(v: (u8, u8, u8)) -> ANSIColor {
        arbitrary()
    }
}

impl From<Rgba> for ANSIColor {
    /// The transparent color for a pixel under the alpha threshold, and
    /// else the color of its three channels, which is not transparent.
    fn from(value: Rgba) -> (c: ANSIColor)
        ensures
            c@ == spec_pixel_body(value),
            c@.len() == 0 <==> value.a < ALPHA_THRESHOLD,
    {
        if value.a < ALPHA_THRESHOLD {
            return ANSIColor::transparent();
        }
        proof {
            lemma_rgb_body_not_empty(value.r, value.g, value.b);
        }
        ANSIColor::new(value.r, value.g, value.b)
    }
}

impl FromSpecImpl<Rgba> for ANSIColor {
    open spec fn obeys_from_spec() -> bool {
        false
    }

    open spec fn from_spec(value: Rgba) -> ANSIColor {
        arbitrary()
    }
}

} // verus!

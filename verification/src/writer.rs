//! Fragments, the instructions that a conversion issues, and the sinks that
//! take them.

use vstd::prelude::*;
use vstd::utf8::encode_utf8;

use crate::color::{
    push_escape_close, spec_as_background, spec_as_foreground, spec_escape_close, ANSIColor,
};
use crate::text::push_char;

verus! {

/// The body of a color: the text `R;G;B`, or nothing for the transparent
/// color.
pub type Body = Seq<char>;

/// What a fragment says, with its color taken by its body.
pub struct FragmentSpec {
    pub sym: char,
    pub sym_index: usize,
    pub fg: Seq<char>,
}

/// The fragment (the rendering of one pixel).
#[derive(Debug, PartialEq, PartialOrd, Hash)]
pub struct FragmentInfo {
    /// The glyph chosen from the ramp to stand for the pixel.
    pub sym: char,
    /// The index of that glyph in the ramp.
    pub sym_index: usize,
    /// The color of the pixel.
    pub fg: ANSIColor,
}

impl View for FragmentInfo {
    type V = FragmentSpec;

    open spec fn view(&self) -> FragmentSpec {
        FragmentSpec { sym: self.sym, sym_index: self.sym_index, fg: self.fg@ }
    }
}

impl Clone for FragmentInfo {
    fn clone(&self) -> (c: Self)
        ensures
            c@ == self@,
    {
        FragmentInfo { sym: self.sym, sym_index: self.sym_index, fg: self.fg.clone() }
    }
}

/// One call on a sink, with its arguments taken by their views.
pub enum Instruction {
    /// Announce the background of the whole image.
    Background { color: Seq<char> },
    /// Write a fragment without colors.
    Fragment { info: FragmentSpec },
    /// Write a fragment with the colors that are present.
    ColoredFragment { info: FragmentSpec, bc: Option<Seq<char>>, fc: Option<Seq<char>> },
    /// Write raw bytes: a row break, or the closing reset.
    Bytes { bytes: Seq<u8> },
}

/// Why a sink did not take an instruction.
#[derive(Debug, Clone, Copy, PartialEq, Eq, Hash, Structural)]
pub enum SinkError {
    /// The symbol index does not fit the fragment that the sink stores.
    SymbolIndex(usize),
    /// The destination behind the sink failed.
    Destination,
}

/// A destination for the instructions of a conversion.
///
/// The view of a sink is what it holds. `absorbed` says what it holds after
/// an instruction that it took; `admits` names instructions that it is bound
/// to take (a sink that may fail at any time admits none); `refuses` says
/// with which error it may refuse an instruction and what it holds then;
/// `closes` is its reply to the announcement of a background: whether it
/// wants the closing reset at the end of the image.
pub trait FragmentWriter: View + Sized {
    /// What the sink holds after it took `ins`.
    spec fn absorbed(held: Self::V, ins: Instruction) -> Self::V;

    /// Whether the sink is bound to take `ins`.
    spec fn admits(ins: Instruction) -> bool;

    /// Whether the sink, holding `held`, may refuse `ins` with `error` and
    /// hold `left` afterwards.
    spec fn refuses(held: Self::V, ins: Instruction, error: SinkError, left: Self::V) -> bool;

    /// Whether the sink, told of the background `color`, asks for a closing
    /// reset.
    spec fn closes(color: Body) -> bool;

    /// Receives the background of the image; replies whether the caller
    /// should send the closing reset once the image is finished.
    fn background(&mut self, bc: &ANSIColor) -> (r: Result<bool, SinkError>)
        ensures
            Self::admits(Instruction::Background { color: bc@ }) ==> r is Ok,
            r matches Ok(reply) ==> reply == Self::closes(bc@) && final(self)@ == Self::absorbed(
                old(self)@,
                Instruction::Background { color: bc@ },
            ),
            r matches Err(e) ==> Self::refuses(
                old(self)@,
                Instruction::Background { color: bc@ },
                e,
                final(self)@,
            ),
    ;

    /// Writes a fragment.
    fn write_fragment(&mut self, info: FragmentInfo) -> (r: Result<(), SinkError>)
        ensures
            Self::admits(Instruction::Fragment { info: info@ }) ==> r is Ok,
            r is Ok ==> final(self)@ == Self::absorbed(
                old(self)@,
                Instruction::Fragment { info: info@ },
            ),
            r matches Err(e) ==> Self::refuses(
                old(self)@,
                Instruction::Fragment { info: info@ },
                e,
                final(self)@,
            ),
    ;

    /// Writes a fragment that may have a background and a foreground of its own.
    fn write_colored_fragment(
        &mut self,
        info: FragmentInfo,
        bc: Option<&ANSIColor>,
        fc: Option<&ANSIColor>,
    ) -> (r: Result<(), SinkError>)
        ensures
            Self::admits(
                Instruction::ColoredFragment {
                    info: info@,
                    bc: spec_ref_body(bc),
                    fc: spec_ref_body(fc),
                },
            ) ==> r is Ok,
            r is Ok ==> final(self)@ == Self::absorbed(
                old(self)@,
                Instruction::ColoredFragment {
                    info: info@,
                    bc: spec_ref_body(bc),
                    fc: spec_ref_body(fc),
                },
            ),
            r matches Err(e) ==> Self::refuses(
                old(self)@,
                Instruction::ColoredFragment {
                    info: info@,
                    bc: spec_ref_body(bc),
                    fc: spec_ref_body(fc),
                },
                e,
                final(self)@,
            ),
    ;

    /// Writes raw bytes: the break after each row, and the closing reset.
    fn write_bytes(&mut self, bytes: &[u8]) -> (r: Result<(), SinkError>)
        ensures
            Self::admits(Instruction::Bytes { bytes: bytes@ }) ==> r is Ok,
            r is Ok ==> final(self)@ == Self::absorbed(
                old(self)@,
                Instruction::Bytes { bytes: bytes@ },
            ),
            r matches Err(e) ==> Self::refuses(
                old(self)@,
                Instruction::Bytes { bytes: bytes@ },
                e,
                final(self)@,
            ),
    ;
}

/// The body of an optional borrowed color.
pub open spec fn spec_ref_body(color: Option<&ANSIColor>) -> Option<Seq<char>> {
    match color {
        Some(c) => Some(c@),
        None => None,
    }
}

/// The escape that sets the background to an optional color; nothing if absent.
pub open spec fn spec_background_text(color: Option<Seq<char>>) -> Seq<char> {
    match color {
        Some(body) => spec_as_background(body),
        None => Seq::empty(),
    }
}

/// The escape that sets the foreground to an optional color; nothing if absent.
pub open spec fn spec_foreground_text(color: Option<Seq<char>>) -> Seq<char> {
    match color {
        Some(body) => spec_as_foreground(body),
        None => Seq::empty(),
    }
}

/// The reset that follows a fragment for an optional color: one if present.
pub open spec fn spec_close_text(color: Option<Seq<char>>) -> Seq<char> {
    match color {
        Some(_) => spec_escape_close(),
        None => Seq::empty(),
    }
}

/// The text of a colored fragment: the background escape, the foreground
/// escape, the glyph, and one reset for each color that is present.
pub open spec fn spec_colored_text(sym: char, bc: Option<Seq<char>>, fc: Option<Seq<char>>) -> Seq<
    char,
> {
    spec_background_text(bc) + spec_foreground_text(fc) + seq![sym] + spec_close_text(bc)
        + spec_close_text(fc)
}

/// The bytes that an instruction puts on a byte stream.
pub open spec fn spec_instruction_bytes(ins: Instruction) -> Seq<u8> {
    match ins {
        Instruction::Background { color } => encode_utf8(spec_as_background(color)),
        Instruction::Fragment { info } => encode_utf8(seq![info.sym]),
        Instruction::ColoredFragment { info, bc, fc } => encode_utf8(
            spec_colored_text(info.sym, bc, fc),
        ),
        Instruction::Bytes { bytes } => bytes,
    }
}

/// Appends the text of a colored fragment to `text`.
pub(crate) fn push_colored_text(
    text: &mut String,
    sym: char,
    bc: Option<&ANSIColor>,
    fc: Option<&ANSIColor>,
)
    ensures
        final(text)@ == old(text)@ + spec_colored_text(sym, spec_ref_body(bc), spec_ref_body(fc)),
{
    match bc {
        Some(c) => c.push_background(text),
        None => {},
    }
    match fc {
        Some(c) => c.push_foreground(text),
        None => {},
    }
    push_char(text, sym);
    if bc.is_some() {
        push_escape_close(text);
    }
    if fc.is_some() {
        push_escape_close(text);
    }
    assert(text@ =~= old(text)@ + spec_colored_text(sym, spec_ref_body(bc), spec_ref_body(fc)));
}

/// Appends the UTF-8 bytes of `text` to `out`.
fn extend_with_text(out: &mut Vec<u8>, text: &str)
    ensures
        final(out)@ == old(out)@ + encode_utf8(text@),
{
    let bytes = text.as_bytes();
    let n = bytes.len();
    let mut i: usize = 0;
    while i < n
        invariant
            n == bytes@.len(),
            i <= n,
            bytes@ == encode_utf8(text@),
            out@ == old(out)@ + bytes@.take(i as int),
        decreases n - i,
    {
        out.push(bytes[i]);
        assert(bytes@.take(i + 1) =~= bytes@.take(i as int).push(bytes@[i as int]));
        i += 1;
    }
    assert(bytes@.take(n as int) =~= bytes@);
}

/// A byte buffer takes every instruction and appends its bytes; it refuses
/// none, and it asks for the closing reset.
impl FragmentWriter for Vec<u8> {
    open spec fn absorbed(held: Seq<u8>, ins: Instruction) -> Seq<u8> {
        held + spec_instruction_bytes(ins)
    }

    open spec fn admits(ins: Instruction) -> bool {
        true
    }

    open spec fn refuses(held: Seq<u8>, ins: Instruction, error: SinkError, left: Seq<u8>) -> bool {
        false
    }

    open spec fn closes(color: Body) -> bool {
        true
    }

    fn background(&mut self, bc: &ANSIColor) -> (r: Result<bool, SinkError>) {
        let text = bc.as_background();
        extend_with_text(self, text.as_str());
        Ok(true)
    }

    fn write_fragment(&mut self, info: FragmentInfo) -> (r: Result<(), SinkError>) {
        let mut text = String::new();
        push_char(&mut text, info.sym);
        assert(text@ =~= seq![info.sym]);
        extend_with_text(self, text.as_str());
        Ok(())
    }

    fn write_colored_fragment(
        &mut self,
        info: FragmentInfo,
        bc: Option<&ANSIColor>,
        fc: Option<&ANSIColor>,
    ) -> (r: Result<(), SinkError>) {
        let mut text = String::new();
        push_colored_text(&mut text, info.sym, bc, fc);
        assert(text@ =~= spec_colored_text(info.sym, spec_ref_body(bc), spec_ref_body(fc)));
        extend_with_text(self, text.as_str());
        Ok(())
    }

    fn write_bytes(&mut self, bytes: &[u8]) -> (r: Result<(), SinkError>) {
        let n = bytes.len();
        let mut i: usize = 0;
        while i < n
            invariant
                n == bytes@.len(),
                i <= n,
                self@ == old(self)@ + bytes@.take(i as int),
            decreases n - i,
        {
            self.push(bytes[i]);
            assert(bytes@.take(i + 1) =~= bytes@.take(i as int).push(bytes@[i as int]));
            i += 1;
        }
        assert(bytes@.take(n as int) =~= bytes@);
        Ok(())
    }
}

} // verus!

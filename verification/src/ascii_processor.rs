//! The sampling processor: it draws every `scale`-th pixel of every
//! `2 * scale`-th row with a symbol chosen by the pixel's intensity, and
//! paints it with the `colored` crate.

use vstd::prelude::*;
use vstd::string::StrSliceExecFns;

use crate::args::{calculate_scale, spec_scale, Arguments, Mode};
use crate::opts::spec_text;
use crate::color::{spec_escape_close, spec_rgb_body};
use crate::pixel::PixelImage;
use crate::text::{glyphs, push_char};
use crate::Rgba;

verus! {

/// The fewest symbols that the intensity scale takes.
pub const MIN_CHARACTERS: usize = 7;

/// The intensity scale divides by this number less the number of symbols.
pub const STEP_BASE: u8 = 39;

/// The intensity of a pixel: nothing if its alpha is 0, and else the sum of
/// the thirds of its color channels.
pub open spec fn spec_intent(pixel: Rgba) -> int {
    if pixel.a == 0 {
        0
    } else {
        pixel.r as int / 3 + pixel.g as int / 3 + pixel.b as int / 3
    }
}

/// The width of one step of the intensity scale for `len` symbols: 39 less
/// the low byte of `len`.
pub open spec fn spec_step(len: nat) -> int {
    STEP_BASE as int - (len % 256) as int
}

/// The index of the symbol for `pixel` among `len` symbols.
pub open spec fn spec_character_index(len: nat, pixel: Rgba) -> int {
    spec_intent(pixel) / spec_step(len)
}

/// Whether `pixel` has a symbol among `len` symbols: there are at least
/// seven, the step is positive, and the index falls among them.
pub open spec fn spec_character_defined(len: nat, pixel: Rgba) -> bool {
    &&& MIN_CHARACTERS <= len
    &&& spec_step(len) > 0
    &&& spec_character_index(len, pixel) < len
}

/// One element of the art.
#[derive(Copy, Clone, Debug, PartialEq, Eq)]
pub enum Element {
    /// A symbol, with its color in the colored mode.
    Glyph { ch: char, color: Option<(u8, u8, u8)> },
    /// The end of a row.
    Break,
}

/// The element that stands for `pixel`.
pub open spec fn spec_element(characters: Seq<char>, mode: Mode, pixel: Rgba) -> Element {
    Element::Glyph {
        ch: characters[spec_character_index(characters.len(), pixel)],
        color: if mode == Mode::Colored {
            Some((pixel.r, pixel.g, pixel.b))
        } else {
            None
        },
    }
}

/// Whether row `y` is drawn at the given scale.
pub open spec fn spec_row_sampled(y: u32, scale: u32) -> bool {
    y as int % (scale as int * 2) == 0
}

/// Whether column `x` is drawn at the given scale.
pub open spec fn spec_column_sampled(x: u32, scale: u32) -> bool {
    x as int % scale as int == 0
}

/// Whether every pixel that is drawn at the given scale has a symbol.
pub open spec fn spec_samples_defined<I: PixelImage>(image: &I, len: nat, scale: u32) -> bool {
    forall|x: u32, y: u32|
        x < image.spec_dimensions().0 && y < image.spec_dimensions().1 && spec_row_sampled(
            y,
            scale,
        ) && spec_column_sampled(x, scale) ==> spec_character_defined(
            len,
            #[trigger] image.spec_pixel(x, y),
        )
}

/// The elements of the first `n` columns of a drawn row `y`.
pub open spec fn spec_row_elements<I: PixelImage>(
    image: &I,
    characters: Seq<char>,
    mode: Mode,
    scale: u32,
    y: u32,
    n: nat,
) -> Seq<Element>
    decreases n,
{
    if n == 0 {
        Seq::empty()
    } else {
        let before = spec_row_elements(image, characters, mode, scale, y, (n - 1) as nat);
        if spec_column_sampled((n - 1) as u32, scale) {
            before.push(spec_element(characters, mode, image.spec_pixel((n - 1) as u32, y)))
        } else {
            before
        }
    }
}

/// The elements of the first `n` rows: those of each drawn row, then a break.
pub open spec fn spec_elements<I: PixelImage>(
    image: &I,
    characters: Seq<char>,
    mode: Mode,
    scale: u32,
    n: nat,
) -> Seq<Element>
    decreases n,
{
    if n == 0 {
        Seq::empty()
    } else {
        let before = spec_elements(image, characters, mode, scale, (n - 1) as nat);
        if spec_row_sampled((n - 1) as u32, scale) {
            before + spec_row_elements(
                image,
                characters,
                mode,
                scale,
                (n - 1) as u32,
                image.spec_dimensions().0 as nat,
            ).push(Element::Break)
        } else {
            before
        }
    }
}

/// The concatenation of pieces of text.
pub open spec fn spec_joined(pieces: Seq<Seq<char>>) -> Seq<char>
    decreases pieces.len(),
{
    if pieces.len() == 0 {
        Seq::empty()
    } else {
        spec_joined(pieces.drop_last()) + pieces.last()
    }
}

/// A text between a style and the reset sequence.
pub open spec fn spec_frame(style: Seq<char>, text: Seq<char>) -> Seq<char> {
    style + text + spec_escape_close()
}

/// Whether `shown` is `text` as a terminal is given it: the text alone, or
/// the text between some style and the reset sequence.
pub open spec fn spec_framed(text: Seq<char>, shown: Seq<char>) -> bool {
    shown == text || exists|style: Seq<char>| shown == #[trigger] spec_frame(style, text)
}

/// The escape sequence that selects colors by their codes: `ESC [`, the
/// code of the background, the code of the foreground behind a `;` if both
/// are there, and `m`. A color that is not there has the empty code.
pub open spec fn spec_sgr(bg: Seq<char>, fg: Seq<char>) -> Seq<char> {
    seq!['\u{1b}', '['] + bg + (if bg.len() > 0 && fg.len() > 0 {
        seq![';']
    } else {
        Seq::empty()
    }) + fg + seq!['m']
}

/// The code of a foreground in true color: `38;2;R;G;B`.
pub open spec fn spec_truecolor_code(r: u8, g: u8, b: u8) -> Seq<char> {
    seq!['3', '8', ';', '2', ';'] + spec_rgb_body(r, g, b)
}

/// The code of the foreground of a symbol: none without a color; with one
/// its code in true color where the terminal takes true colors, and else the
/// code of the nearest of the sixteen colors.
pub open spec fn spec_foreground_code(color: Option<(u8, u8, u8)>, truecolor: bool) -> Seq<char> {
    match color {
        None => Seq::empty(),
        Some((r, g, b)) => if truecolor {
            spec_truecolor_code(r, g, b)
        } else {
            spec_nearest_code(r, g, b)
        },
    }
}

/// The code of the background of a name, if there is one.
pub open spec fn spec_named_code(background: Option<Seq<char>>) -> Seq<char> {
    match background {
        None => Seq::empty(),
        Some(name) => spec_background_code(name),
    }
}

/// Whether `shown` is what a terminal is given for `text` with the colors
/// of the codes `bg` and `fg`, the latter one of two: the text alone where
/// colors are off; else the text between the escape sequence of its colors
/// and the reset sequence, or behind no escape sequence at all where colors
/// go off in between.
pub open spec fn spec_displayed(
    text: Seq<char>,
    bg: Seq<char>,
    fg_true: Seq<char>,
    fg_nearest: Seq<char>,
    shown: Seq<char>,
) -> bool {
    ||| shown == text
    ||| shown == spec_frame(Seq::empty(), text)
    ||| shown == spec_frame(spec_sgr(bg, fg_true), text)
    ||| shown == spec_frame(spec_sgr(bg, fg_nearest), text)
}

/// Whether `piece` is the painted form of an element before the background
/// of the given name, if any: a line feed for a break; for a symbol without
/// color and background the symbol alone; for another symbol what a terminal
/// is given for it with its colors.
pub open spec fn spec_piece(element: Element, background: Option<Seq<char>>, piece: Seq<char>) -> bool {
    match element {
        Element::Break => piece == seq!['\n'],
        Element::Glyph { ch, color } => if color is None && background is None {
            piece == seq![ch]
        } else {
            spec_displayed(
                seq![ch],
                spec_named_code(background),
                spec_foreground_code(color, true),
                spec_foreground_code(color, false),
                piece,
            )
        },
    }
}

/// Whether `art` joins `pieces`, one for each of `elements` and each the
/// painted form of its element.
pub open spec fn spec_painting(
    elements: Seq<Element>,
    background: Option<Seq<char>>,
    pieces: Seq<Seq<char>>,
    art: Seq<char>,
) -> bool {
    &&& art == spec_joined(pieces)
    &&& pieces.len() == elements.len()
    &&& forall|i: int|
        0 <= i < pieces.len() ==> spec_piece(elements[i], background, #[trigger] pieces[i])
}

/// Whether `art` is an art of `image` under the arguments: one piece for
/// each element of the image at the arguments' scale, each the painted form
/// of its element, all joined.
pub open spec fn spec_is_art<I: PixelImage>(image: &I, args: &Arguments, art: Seq<char>) -> bool {
    exists|pieces: Seq<Seq<char>>|
        #[trigger] spec_painting(
            spec_elements(
                image,
                args.characters@,
                args.mode,
                spec_scale(args.scale, args.width, image.spec_dimensions().0) as u32,
                image.spec_dimensions().1 as nat,
            ),
            spec_text(args.background),
            pieces,
            art,
        )
}

/// The intensity of a pixel.
pub fn intent(pixel: Rgba) -> (i: u8)
    ensures
        i == spec_intent(pixel),
{
    if pixel.a == 0 {
        0
    } else {
        pixel.r / 3 + pixel.g / 3 + pixel.b / 3
    }
}

/// Whether `pixel` has a symbol among `len` symbols.
pub fn character_defined(pixel: Rgba, len: usize) -> (b: bool)
    ensures
        b == spec_character_defined(len as nat, pixel),
{
    if len < MIN_CHARACTERS {
        return false;
    }
    let low: usize = len % 256;
    if low >= STEP_BASE as usize {
        return false;
    }
    let step: u8 = STEP_BASE - low as u8;
    ((intent(pixel) / step) as usize) < len
}

/// The symbol for `pixel`, and its color in the colored mode.
pub fn character_for(pixel: Rgba, characters: &Vec<char>, mode: Mode) -> (e: Element)
    requires
        spec_character_defined(characters@.len(), pixel),
    ensures
        e == spec_element(characters@, mode, pixel),
{
    let low: usize = characters.len() % 256;
    let step: u8 = STEP_BASE - low as u8;
    let ch = characters[(intent(pixel) / step) as usize];
    let color = match mode {
        Mode::NormalAscii => None,
        Mode::Colored => Some((pixel.r, pixel.g, pixel.b)),
    };
    Element::Glyph { ch, color }
}

/// The elements of the art of `image`: for every `2 * scale`-th row the
/// symbol of every `scale`-th pixel, and a break.
pub fn ascii_elements<I: PixelImage>(
    image: &I,
    characters: &Vec<char>,
    mode: Mode,
    scale: u32,
) -> (elements: Vec<Element>)
    requires
        0 < scale,
        scale * 2 <= u32::MAX,
        spec_samples_defined(image, characters@.len(), scale),
    ensures
        elements@ == spec_elements(
            image,
            characters@,
            mode,
            scale,
            image.spec_dimensions().1 as nat,
        ),
{
    let (width, height) = image.dimensions();
    let mut elements: Vec<Element> = Vec::new();
    let mut y: u32 = 0;
    while y < height
        invariant
            y <= height,
            0 < scale,
            scale * 2 <= u32::MAX,
            (width, height) == image.spec_dimensions(),
            spec_samples_defined(image, characters@.len(), scale),
            elements@ == spec_elements(image, characters@, mode, scale, y as nat),
        decreases height - y,
    {
        let ghost before = elements@;
        if y % (scale * 2) == 0 {
            let mut x: u32 = 0;
            while x < width
                invariant
                    x <= width,
                    y < height,
                    0 < scale,
                    (width, height) == image.spec_dimensions(),
                    spec_row_sampled(y, scale),
                    spec_samples_defined(image, characters@.len(), scale),
                    elements@ == before + spec_row_elements(
                        image,
                        characters@,
                        mode,
                        scale,
                        y,
                        x as nat,
                    ),
                decreases width - x,
            {
                if x % scale == 0 {
                    let pixel = image.get_pixel(x, y);
                    elements.push(character_for(pixel, characters, mode));
                }
                x += 1;
            }
            elements.push(Element::Break);
        }
        y += 1;
    }
    elements
}

/// Whether every pixel that is drawn at the given scale has a symbol among
/// `len` symbols.
pub fn samples_defined<I: PixelImage>(image: &I, len: usize, scale: u32) -> (b: bool)
    requires
        0 < scale,
        scale * 2 <= u32::MAX,
    ensures
        b == spec_samples_defined(image, len as nat, scale),
{
    let (width, height) = image.dimensions();
    let mut y: u32 = 0;
    while y < height
        invariant
            y <= height,
            0 < scale,
            scale * 2 <= u32::MAX,
            (width, height) == image.spec_dimensions(),
            forall|x: u32, v: u32|
                x < width && v < y && spec_row_sampled(v, scale) && spec_column_sampled(x, scale)
                    ==> spec_character_defined(len as nat, #[trigger] image.spec_pixel(x, v)),
        decreases height - y,
    {
        if y % (scale * 2) == 0 {
            let mut x: u32 = 0;
            while x < width
                invariant
                    x <= width,
                    y < height,
                    0 < scale,
                    (width, height) == image.spec_dimensions(),
                    spec_row_sampled(y, scale),
                    forall|u: u32|
                        u < x && spec_column_sampled(u, scale) ==> spec_character_defined(
                            len as nat,
                            #[trigger] image.spec_pixel(u, y),
                        ),
                decreases width - x,
            {
                if x % scale == 0 {
                    let pixel = image.get_pixel(x, y);
                    if !character_defined(pixel, len) {
                        return false;
                    }
                }
                x += 1;
            }
        }
        y += 1;
    }
    true
}

/// A text with its colors, of the `colored` crate, carried through as it is.
#[verifier::external_type_specification]
#[verifier::external_body]
pub struct ExColoredString(colored::ColoredString);

/// The text that a colored text holds.
pub uninterp spec fn spec_held_text(text: colored::ColoredString) -> Seq<char>;

/// Whether a colored text has no foreground, no background and no style.
pub uninterp spec fn spec_is_plain(text: colored::ColoredString) -> bool;

/// Whether a colored text has no style (bold, underline and the like).
pub uninterp spec fn spec_is_unstyled(text: colored::ColoredString) -> bool;

/// The code of the background that a colored text holds, as it is written
/// where the terminal takes true colors or where it does not; empty if the
/// text has no background.
pub uninterp spec fn spec_held_background(text: colored::ColoredString, truecolor: bool) -> Seq<
    char,
>;

/// The code of the foreground that a colored text holds, as it is written
/// where the terminal takes true colors or where it does not; empty if the
/// text has no foreground.
pub uninterp spec fn spec_held_foreground(text: colored::ColoredString, truecolor: bool) -> Seq<
    char,
>;

/// The code of the background of the color that a name names.
pub uninterp spec fn spec_background_code(name: Seq<char>) -> Seq<char>;

/// The code of the foreground of that one of the sixteen colors which is
/// nearest to a true color.
pub uninterp spec fn spec_nearest_code(r: u8, g: u8, b: u8) -> Seq<char>;

/// A text without colors.
///
/// Wraps `From<&str>` of `colored::ColoredString`, which keeps the text
/// and sets no foreground, no background and no style.
#[verifier::external_body]
fn plain(text: &str) -> (held: colored::ColoredString)
    ensures
        spec_held_text(held) == text@,
        spec_is_plain(held),
        spec_is_unstyled(held),
        spec_held_foreground(held, true).len() == 0,
        spec_held_foreground(held, false).len() == 0,
{
    colored::ColoredString::from(text)
}

/// A text in a truecolor foreground.
///
/// Wraps `Colorize::truecolor` of `colored` for `&str`, which keeps the text
/// and sets its foreground to the true color of the channels, with no
/// background and no style. The code of a true color is `38;2;R;G;B` where
/// the terminal takes true colors, and else that of the nearest of the
/// sixteen colors.
#[verifier::external_body]
fn truecolor(text: &str, r: u8, g: u8, b: u8) -> (held: colored::ColoredString)
    ensures
        spec_held_text(held) == text@,
        spec_is_unstyled(held),
        spec_held_background(held, true).len() == 0,
        spec_held_background(held, false).len() == 0,
        spec_held_foreground(held, true) == spec_truecolor_code(r, g, b),
        spec_held_foreground(held, false) == spec_nearest_code(r, g, b),
{
    colored::Colorize::truecolor(text, r, g, b)
}

/// A text on the background that `name` names.
///
/// Wraps `Colorize::on_color` of `colored::ColoredString`, which keeps the
/// text, its foreground and its style, and sets the background to the color
/// of that name, or to white if it knows none. A color with a name is one
/// of the sixteen; its code is the same whether or not the terminal takes
/// true colors.
#[verifier::external_body]
fn on_color(text: colored::ColoredString, name: &str) -> (held: colored::ColoredString)
    ensures
        spec_held_text(held) == spec_held_text(text),
        spec_is_unstyled(held) == spec_is_unstyled(text),
        spec_held_foreground(held, true) == spec_held_foreground(text, true),
        spec_held_foreground(held, false) == spec_held_foreground(text, false),
        spec_held_background(held, true) == spec_background_code(name@),
        spec_held_background(held, false) == spec_background_code(name@),
{
    colored::Colorize::on_color(text, name)
}

/// The text as a terminal is given it.
///
/// Wraps `Display` of `colored::ColoredString`. A plain text is written as
/// it is. Another one is written as it is too where colors are off, and
/// else between the escape sequence of its style and colors and the reset
/// sequence; whether colors are on, and whether the terminal takes true
/// colors, is up to the environment of the process, which is asked at each
/// step. (A text that holds reset sequences has the escape sequence repeated
/// behind each; one shorter than the reset sequence holds none.) For a text
/// without style the escape sequence is `ESC [`, the codes of background
/// and foreground with a `;` between them, and `m`.
#[verifier::external_body]
fn shown(text: &colored::ColoredString) -> (s: String)
    ensures
        spec_is_plain(*text) ==> s@ == spec_held_text(*text),
        spec_held_text(*text).len() < spec_escape_close().len() ==> spec_framed(
            spec_held_text(*text),
            s@,
        ),
        spec_held_text(*text).len() < spec_escape_close().len() && spec_is_unstyled(*text)
            ==> spec_displayed(
            spec_held_text(*text),
            spec_held_background(*text, true),
            spec_held_foreground(*text, true),
            spec_held_foreground(*text, false),
            s@,
        ) || spec_displayed(
            spec_held_text(*text),
            spec_held_background(*text, false),
            spec_held_foreground(*text, true),
            spec_held_foreground(*text, false),
            s@,
        ),
{
    format!("{text}")
}

/// The painted form of a symbol before a background: the symbol alone if it
/// has neither color nor background, and else what a terminal is given for
/// it with its colors.
fn painted(ch: char, color: Option<(u8, u8, u8)>, background: &Option<String>) -> (piece: String)
    ensures
        spec_piece(Element::Glyph { ch, color }, spec_text(*background), piece@),
{
    let mut text = String::new();
    push_char(&mut text, ch);
    assert(text@ =~= seq![ch]);
    let colored = match color {
        Some((r, g, b)) => truecolor(text.as_str(), r, g, b),
        None => plain(text.as_str()),
    };
    let colored = match background {
        Some(name) => on_color(colored, name.as_str()),
        None => colored,
    };
    let piece = shown(&colored);
    proof {
        if color is Some && background is None {
            // without a background the escape sequence holds the foreground alone
            assert(spec_held_background(colored, true) =~= Seq::<char>::empty());
            assert(spec_held_background(colored, false) =~= Seq::<char>::empty());
        }
    }
    piece
}

/// The art of `image`: the elements of [`ascii_elements`] for the symbols,
/// the mode and the scale of the arguments, each painted and all joined.
///
/// A break is a line feed. A symbol without color and background is painted
/// as the symbol alone. Another one is painted as the environment of the
/// process has it: as the symbol alone where colors are off, and else
/// between the escape sequence of its colors and the reset sequence. The
/// escape sequence holds the code of the background that the arguments name
/// and the code of the symbol's color: in true color, or that of the nearest
/// of the sixteen colors where the terminal takes no true colors.
pub fn generate_ascii<I: PixelImage>(image: &I, args: &Arguments) -> (art: String)
    requires
        args.width != Some(0u32),
        0 < spec_scale(args.scale, args.width, image.spec_dimensions().0) * 2 <= u32::MAX,
        spec_samples_defined(
            image,
            args.characters@.len(),
            spec_scale(args.scale, args.width, image.spec_dimensions().0) as u32,
        ),
    ensures
        spec_is_art(image, args, art@),
{
    let characters = glyphs(args.characters.as_str());
    let scale = calculate_scale(args, image.dimensions());
    let elements = ascii_elements(image, &characters, args.mode, scale);
    let mut art = String::new();
    let ghost mut pieces: Seq<Seq<char>> = Seq::empty();
    let n = elements.len();
    let mut i: usize = 0;
    while i < n
        invariant
            n == elements@.len(),
            i <= n,
            art@ == spec_joined(pieces),
            pieces.len() == i,
            forall|j: int|
                0 <= j < i ==> spec_piece(
                    elements@[j],
                    spec_text(args.background),
                    #[trigger] pieces[j],
                ),
        decreases n - i,
    {
        let ghost before = art@;
        let ghost piece: Seq<char>;
        match elements[i] {
            Element::Glyph { ch, color } => {
                let text = painted(ch, color, &args.background);
                art.append(text.as_str());
                proof {
                    piece = text@;
                }
            },
            Element::Break => {
                push_char(&mut art, '\n');
                proof {
                    piece = seq!['\n'];
                }
            },
        }
        proof {
            assert(art@ =~= before + piece);
            assert(spec_piece(elements@[i as int], spec_text(args.background), piece));
            assert(pieces.push(piece).drop_last() =~= pieces);
            pieces = pieces.push(piece);
        }
        i += 1;
    }
    assert(spec_painting(elements@, spec_text(args.background), pieces, art@));
    art
}

/// Whether the arguments can be drawn on `image`: the wanted width is not 0,
/// the scale is positive and its double fits 32 bits, and every pixel that
/// is drawn has a symbol.
pub open spec fn spec_drawable<I: PixelImage>(image: &I, args: &Arguments) -> bool {
    let scale = spec_scale(args.scale, args.width, image.spec_dimensions().0);
    &&& args.width != Some(0u32)
    &&& 0 < scale * 2 <= u32::MAX
    &&& spec_samples_defined(image, args.characters@.len(), scale as u32)
}

/// The art of `image` as [`generate_ascii`] draws it, or `None` where the
/// arguments cannot be drawn on the image.
pub fn try_generate_ascii<I: PixelImage>(image: &I, args: &Arguments) -> (art: Option<String>)
    ensures
        art is Some <==> spec_drawable(image, args),
        art matches Some(text) ==> spec_is_art(image, args, text@),
{
    match args.width {
        Some(v) => {
            if v == 0 {
                return None;
            }
        },
        None => {},
    }
    let scale = calculate_scale(args, image.dimensions());
    if scale == 0 || scale > u32::MAX / 2 {
        return None;
    }
    if !samples_defined(image, args.characters.as_str().unicode_len(), scale) {
        return None;
    }
    Some(generate_ascii(image, args))
}

} // verus!

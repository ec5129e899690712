//! The arguments of the command line program, and the rules they must meet.

use vstd::prelude::*;
use vstd::string::StringExecFns;
use vstd::utf8::encode_utf8;

verus! {

/// The most bytes that the symbols argument may have.
pub const MAX_CHARACTERS_LEN: usize = 32;

/// The art mode.
#[derive(Copy, Clone, Debug, PartialOrd, Eq, PartialEq, Structural)]
pub enum Mode {
    /// Normal ASCII art.
    NormalAscii,
    /// Colored ASCII art.
    Colored,
}

/// Where the art goes.
#[derive(Copy, Clone, Debug, PartialOrd, Eq, PartialEq, Structural)]
pub enum OutputMethod {
    /// Save the art to a file.
    File,
    /// Print the art to the terminal.
    Stdout,
}

/// The arguments of the program.
#[derive(Debug)]
pub struct Arguments {
    /// The art mode to use.
    pub mode: Mode,
    /// Where the art goes.
    pub output_method: OutputMethod,
    /// The path of the image to convert.
    pub image: String,
    /// The symbols to draw with, from the lightest to the darkest.
    pub characters: String,
    /// The output scale (1 keeps the size of the image).
    pub scale: u32,
    /// The width of the output in columns; overrides `scale`.
    pub width: Option<u32>,
    /// The background color to use.
    pub background: Option<String>,
    /// The file to write to, if the output goes to a file.
    pub output: String,
}

/// Why arguments are refused.
#[derive(Copy, Clone, Debug, PartialEq, Eq, Structural)]
pub enum ArgumentFault {
    /// There is no symbol to draw with.
    NoCharacters,
    /// One symbol alone cannot draw without colors.
    OneCharacterWithoutColors,
    /// The symbols take more than [`MAX_CHARACTERS_LEN`] bytes.
    TooManyCharacters,
}

/// The fault in a symbols argument of `len` bytes under `mode`, if any.
pub open spec fn spec_fault(len: nat, mode: Mode) -> Option<ArgumentFault> {
    if len == 0 {
        Some(ArgumentFault::NoCharacters)
    } else if len == 1 {
        if mode == Mode::NormalAscii {
            Some(ArgumentFault::OneCharacterWithoutColors)
        } else {
            None
        }
    } else if len > MAX_CHARACTERS_LEN {
        Some(ArgumentFault::TooManyCharacters)
    } else {
        None
    }
}

/// The message that reports a fault.
pub open spec fn spec_fault_message(fault: ArgumentFault) -> Seq<char> {
    match fault {
        ArgumentFault::NoCharacters => "No characters provided"@,
        ArgumentFault::OneCharacterWithoutColors => "One character provided but mode is normal-ascii"@,
        ArgumentFault::TooManyCharacters => "Too many characters provided, max is 32"@,
    }
}

/// The scale that the arguments ask for on an image of the given width: the
/// image's width over the wanted width, or else the `scale` argument.
pub open spec fn spec_scale(scale: u32, width: Option<u32>, image_width: u32) -> int {
    match width {
        Some(v) => image_width as int / v as int,
        None => scale as int,
    }
}

impl ArgumentFault {
    /// The message that reports the fault.
    pub fn message(&self) -> (m: String)
        ensures
            m@ == spec_fault_message(*self),
    {
        match self {
            ArgumentFault::NoCharacters => String::from_str("No characters provided"),
            ArgumentFault::OneCharacterWithoutColors => String::from_str(
                "One character provided but mode is normal-ascii",
            ),
            ArgumentFault::TooManyCharacters => String::from_str(
                "Too many characters provided, max is 32",
            ),
        }
    }
}

impl Arguments {
    /// The fault in the arguments, if there is one: the symbols are counted
    /// by their bytes in UTF-8.
    pub fn fault(&self) -> (f: Option<ArgumentFault>)
        ensures
            f == spec_fault(encode_utf8(self.characters@).len(), self.mode),
    {
        let len = self.characters.as_str().as_bytes().len();
        if len == 0 {
            Some(ArgumentFault::NoCharacters)
        } else if len == 1 {
            match self.mode {
                Mode::NormalAscii => Some(ArgumentFault::OneCharacterWithoutColors),
                Mode::Colored => None,
            }
        } else if len > MAX_CHARACTERS_LEN {
            Some(ArgumentFault::TooManyCharacters)
        } else {
            None
        }
    }

    /// Checks the arguments: fails with the message of their fault, if they
    /// have one.
    pub fn validate(&self) -> (r: Result<(), String>)
        ensures
            match r {
                Ok(()) => spec_fault(encode_utf8(self.characters@).len(), self.mode) is None,
                Err(message) => spec_fault(encode_utf8(self.characters@).len(), self.mode)
                    matches Some(fault) && message@ == spec_fault_message(fault),
            },
    {
        match self.fault() {
            Some(fault) => Err(fault.message()),
            None => Ok(()),
        }
    }
}

/// The scale to use: the width of the image over the wanted width, where
/// the arguments name one, and else their `scale`.
pub fn calculate_scale(args: &Arguments, dimensions: (u32, u32)) -> (scale: u32)
    requires
        args.width != Some(0u32),
    ensures
        scale == spec_scale(args.scale, args.width, dimensions.0),
{
    match args.width {
        Some(v) => dimensions.0 / v,
        None => args.scale,
    }
}

} // verus!

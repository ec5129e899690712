//! The options of the command line, and how a list of arguments is read.

use vstd::prelude::*;
use vstd::string::{StrSliceExecFns, StringExecFns};

use crate::text::{glyphs, same_text};
use crate::{COLORS, REVERSE};

verus! {

/// How the image is sampled when it is scaled.
#[derive(Copy, Clone, Debug, PartialEq, Eq, Structural)]
pub enum ScaleFilter {
    /// Nearest neighbor.
    Nearest,
    /// Linear filter.
    Triangle,
    /// Cubic filter.
    CatmullRom,
    /// Gaussian filter.
    Gaussian,
    /// Lanczos with window 3.
    Lanczos3,
}

/// A number among the options.
#[derive(Copy, Clone, Debug, PartialEq, Eq, Structural)]
pub enum Item {
    /// The output scale.
    Scale,
    /// The width of the output.
    Width,
    /// The height of the output.
    Height,
}

/// What an option means.
#[derive(Copy, Clone, Debug, PartialEq, Eq, Structural)]
pub enum OptionKind {
    /// The symbols to draw with follow.
    Symbols,
    /// The scale follows.
    Scale,
    /// The width follows.
    Width,
    /// The height follows.
    Height,
    /// The background follows.
    Background,
    /// Swap foreground and background.
    Reverse,
    /// Use colors.
    Colors,
    /// Use this filter.
    Filter(ScaleFilter),
    /// Tell the version.
    Version,
}

/// The options as the contracts see them.
pub struct OptsView {
    pub path: Option<Seq<char>>,
    pub sym_set: Seq<char>,
    pub scale: u8,
    pub width: Option<u32>,
    pub height: Option<u32>,
    pub background: Option<Seq<char>>,
    pub flags: u8,
    pub sf: ScaleFilter,
}

/// The options of the program.
#[derive(Debug, PartialEq)]
pub struct Opts {
    /// The image to convert; the standard input if there is none.
    pub path: Option<String>,
    /// The symbols to draw with, from the lightest to the darkest.
    pub sym_set: Vec<char>,
    /// The output scale (1 keeps the size of the image); never 0 in what
    /// [`parse_args`] returns.
    pub scale: u8,
    /// The width of the output in columns.
    pub width: Option<u32>,
    /// The height of the output in rows.
    pub height: Option<u32>,
    /// The background color to use.
    pub background: Option<String>,
    /// The flags of the configuration.
    pub flags: u8,
    /// The filter to scale with.
    pub sf: ScaleFilter,
}

/// The text of an optional string.
pub open spec fn spec_text(text: Option<String>) -> Option<Seq<char>> {
    match text {
        Some(t) => Some(t@),
        None => None,
    }
}

impl View for Opts {
    type V = OptsView;

    open spec fn view(&self) -> OptsView {
        OptsView {
            path: spec_text(self.path),
            sym_set: self.sym_set@,
            scale: self.scale,
            width: self.width,
            height: self.height,
            background: spec_text(self.background),
            flags: self.flags,
            sf: self.sf,
        }
    }
}

/// The options that hold where the arguments set none.
pub open spec fn spec_default_opts() -> OptsView {
    OptsView {
        path: None,
        sym_set: " .,-~!;:=*&%$@#"@,
        scale: 4,
        width: None,
        height: None,
        background: None,
        flags: 0,
        sf: ScaleFilter::Nearest,
    }
}

impl Default for Opts {
    fn default() -> (opts: Opts)
        ensures
            opts@ == spec_default_opts(),
    {
        Opts {
            path: None,
            sym_set: glyphs(" .,-~!;:=*&%$@#"),
            scale: 4,
            width: None,
            height: None,
            background: None,
            flags: 0,
            sf: ScaleFilter::Nearest,
        }
    }
}

/// Why a list of arguments is refused, as the contracts see it.
pub enum FaultSpec {
    /// Nothing follows the option of this name.
    MissingValue(Seq<char>),
    /// What follows the option is no number of the wanted size.
    Unparsable(Item),
    /// The scale is 0.
    ZeroScale,
    /// No option has this name.
    Unknown(Seq<char>),
}

/// Why a list of arguments is refused.
#[derive(Debug, PartialEq)]
pub enum OptsError {
    /// Nothing follows the option of this name.
    MissingValue(String),
    /// What follows the option is no number of the wanted size.
    Unparsable(Item, std::num::ParseIntError),
    /// The scale is 0.
    ZeroScale,
    /// No option has this name.
    Unknown(String),
}

impl View for OptsError {
    type V = FaultSpec;

    open spec fn view(&self) -> FaultSpec {
        match self {
            OptsError::MissingValue(name) => FaultSpec::MissingValue(name@),
            OptsError::Unparsable(item, _) => FaultSpec::Unparsable(*item),
            OptsError::ZeroScale => FaultSpec::ZeroScale,
            OptsError::Unknown(name) => FaultSpec::Unknown(name@),
        }
    }
}

/// The name of a number among the options.
pub open spec fn spec_item_name(item: Item) -> Seq<char> {
    match item {
        Item::Scale => "scale"@,
        Item::Width => "width"@,
        Item::Height => "height"@,
    }
}

/// Whether `message` reports the fault: for a text that is no number, it
/// ends with the reason in backquotes, whatever that reason is.
pub open spec fn spec_reports(fault: FaultSpec, message: Seq<char>) -> bool {
    match fault {
        FaultSpec::MissingValue(name) => message == "Expected one argument after "@ + name
            + ", found 0."@,
        FaultSpec::Unparsable(item) => exists|reason: Seq<char>|
            message == "Can't parse the provided "@ + spec_item_name(item) + ", because `"@
                + #[trigger] spec_quoted(reason),
        FaultSpec::ZeroScale => message == "The scale should be greaer than 0,"@,
        FaultSpec::Unknown(name) => message == "Unknown opthion "@ + name,
    }
}

/// A reason with the backquote that closes it.
pub open spec fn spec_quoted(reason: Seq<char>) -> Seq<char> {
    reason + "`"@
}

impl Item {
    /// The name of the number.
    pub fn name(&self) -> (name: &'static str)
        ensures
            name@ == spec_item_name(*self),
    {
        match self {
            Item::Scale => "scale",
            Item::Width => "width",
            Item::Height => "height",
        }
    }
}

impl OptsError {
    /// The message that reports the fault.
    pub fn message(&self) -> (message: String)
        ensures
            spec_reports(self@, message@),
    {
        match self {
            OptsError::MissingValue(name) => {
                let mut message = String::from_str("Expected one argument after ");
                message.append(name.as_str());
                message.append(", found 0.");
                message
            },
            OptsError::Unparsable(item, reason) => {
                let mut message = String::from_str("Can't parse the provided ");
                message.append(item.name());
                message.append(", because `");
                let reason = reason.to_string();
                message.append(reason.as_str());
                message.append("`");
                assert(message@ =~= "Can't parse the provided "@ + spec_item_name(*item)
                    + ", because `"@ + spec_quoted(reason@));
                message
            },
            OptsError::ZeroScale => String::from_str("The scale should be greaer than 0,"),
            OptsError::Unknown(name) => {
                let mut message = String::from_str("Unknown opthion ");
                message.append(name.as_str());
                message
            },
        }
    }
}

/// What the arguments ask for.
#[derive(Debug, PartialEq)]
pub enum Parsed {
    /// Convert an image under these options.
    Options(Opts),
    /// Tell the version and stop.
    Version,
}

/// What one argument does to the options, as the contracts see it.
pub enum StepSpec {
    /// The options change; `valued` tells whether the next argument is
    /// consumed with this one.
    Go { opts: OptsView, valued: bool },
    /// The version is asked for.
    Version,
    /// The argument is refused.
    Fail { fault: FaultSpec },
}

/// The reason why a text is no number, of std, carried through as it is.
#[verifier::external_type_specification]
#[verifier::external_body]
pub struct ExParseIntError(std::num::ParseIntError);

/// The lowercase equivalent of a text.
pub uninterp spec fn spec_lowercase(text: Seq<char>) -> Seq<char>;

/// Whether a character is a decimal digit.
pub open spec fn spec_is_digit(c: char) -> bool {
    '0' <= c <= '9'
}

/// The number that a run of decimal digits denotes.
pub open spec fn spec_digits_value(digits: Seq<char>) -> nat
    decreases digits.len(),
{
    if digits.len() == 0 {
        0
    } else {
        spec_digits_value(digits.drop_last()) * 10 + (digits.last() as nat - '0' as nat) as nat
    }
}

/// The number up to `max` that a text denotes, if it denotes one: the text
/// is an optional `+` and then digits only, at least one.
pub open spec fn spec_unsigned(text: Seq<char>, max: nat) -> Option<nat> {
    let digits = if text.len() > 0 && text[0] == '+' {
        text.drop_first()
    } else {
        text
    };
    if digits.len() > 0 && (forall|i: int| 0 <= i < digits.len() ==> spec_is_digit(digits[i]))
        && spec_digits_value(digits) <= max {
        Some(spec_digits_value(digits))
    } else {
        None
    }
}

/// The number that a text denotes as an integer of 8 bits without sign, if
/// it denotes one.
pub open spec fn spec_parse_u8(text: Seq<char>) -> Option<u8> {
    match spec_unsigned(text, u8::MAX as nat) {
        Some(n) => Some(n as u8),
        None => None,
    }
}

/// The number that a text denotes as an integer of 32 bits without sign, if
/// it denotes one.
pub open spec fn spec_parse_u32(text: Seq<char>) -> Option<u32> {
    match spec_unsigned(text, u32::MAX as nat) {
        Some(n) => Some(n as u32),
        None => None,
    }
}

/// The lowercase equivalent of a text.
///
/// Wraps `str::to_lowercase`, which returns the lowercase equivalent of the
/// string slice as a new string.
#[verifier::external_body]
fn to_lowercase(text: &str) -> (lower: String)
    ensures
        lower@ == spec_lowercase(text@),
{
    text.to_lowercase()
}

/// Reads a text as an integer of 8 bits without sign.
///
/// Wraps `str::parse` for `u8`, which takes an optional `+` followed by
/// decimal digits only and returns the number they denote if it fits the
/// type, and else the reason why there is none.
#[verifier::external_body]
fn parse_u8(text: &str) -> (r: Result<u8, std::num::ParseIntError>)
    ensures
        match r {
            Ok(n) => spec_parse_u8(text@) == Some(n),
            Err(_) => spec_parse_u8(text@) is None,
        },
{
    text.parse::<u8>()
}

/// Reads a text as an integer of 32 bits without sign.
///
/// Wraps `str::parse` for `u32`, which takes an optional `+` followed by
/// decimal digits only and returns the number they denote if it fits the
/// type, and else the reason why there is none.
#[verifier::external_body]
fn parse_u32(text: &str) -> (r: Result<u32, std::num::ParseIntError>)
    ensures
        match r {
            Ok(n) => spec_parse_u32(text@) == Some(n),
            Err(_) => spec_parse_u32(text@) is None,
        },
{
    text.parse::<u32>()
}

/// Whether an argument is an option: it starts with a dash.
pub open spec fn spec_is_option(arg: Seq<char>) -> bool {
    arg.len() > 0 && arg[0] == '-'
}

/// A text without the dashes that it starts with.
pub open spec fn spec_trim_dashes(text: Seq<char>) -> Seq<char>
    decreases text.len(),
{
    if text.len() > 0 && text[0] == '-' {
        spec_trim_dashes(text.drop_first())
    } else {
        text
    }
}

/// The name of an option: the argument in lowercase, without the dashes that
/// it starts with.
pub open spec fn spec_option_name(arg: Seq<char>) -> Seq<char> {
    spec_trim_dashes(spec_lowercase(arg))
}

/// What the option of a name means, if there is such an option.
pub open spec fn spec_option_kind(name: Seq<char>) -> Option<OptionKind> {
    if name == "c"@ || name == "sympols"@ || name == "chars"@ {
        Some(OptionKind::Symbols)
    } else if name == "s"@ || name == "scale"@ {
        Some(OptionKind::Scale)
    } else if name == "w"@ || name == "col"@ || name == "columans"@ || name == "width"@ {
        Some(OptionKind::Width)
    } else if name == "h"@ || name == "row"@ || name == "rows"@ || name == "height"@ {
        Some(OptionKind::Height)
    } else if name == "b"@ || name == "back"@ || name == "background"@ {
        Some(OptionKind::Background)
    } else if name == "r"@ || name == "reverse"@ {
        Some(OptionKind::Reverse)
    } else if name == "u"@ || name == "color"@ || name == "colors"@ {
        Some(OptionKind::Colors)
    } else if name == "sft"@ || name == "st"@ {
        Some(OptionKind::Filter(ScaleFilter::Triangle))
    } else if name == "sfc"@ || name == "sc"@ {
        Some(OptionKind::Filter(ScaleFilter::CatmullRom))
    } else if name == "sfg"@ || name == "sg"@ {
        Some(OptionKind::Filter(ScaleFilter::Gaussian))
    } else if name == "sfl"@ || name == "sl"@ {
        Some(OptionKind::Filter(ScaleFilter::Lanczos3))
    } else if name == "sfn"@ || name == "sn"@ {
        Some(OptionKind::Filter(ScaleFilter::Nearest))
    } else if name == "v"@ || name == "version"@ {
        Some(OptionKind::Version)
    } else {
        None
    }
}

/// What the option `kind` does with the argument `value` that follows it.
pub open spec fn spec_valued_step(opts: OptsView, kind: OptionKind, value: Seq<char>) -> StepSpec {
    match kind {
        OptionKind::Symbols => StepSpec::Go { opts: OptsView { sym_set: value, ..opts }, valued: true },
        OptionKind::Background => StepSpec::Go {
            opts: OptsView { background: Some(value), ..opts },
            valued: true,
        },
        OptionKind::Scale => match spec_parse_u8(value) {
            None => StepSpec::Fail { fault: FaultSpec::Unparsable(Item::Scale) },
            Some(n) => if n == 0 {
                StepSpec::Fail { fault: FaultSpec::ZeroScale }
            } else {
                StepSpec::Go { opts: OptsView { scale: n, ..opts }, valued: true }
            },
        },
        OptionKind::Width => match spec_parse_u32(value) {
            None => StepSpec::Fail { fault: FaultSpec::Unparsable(Item::Width) },
            Some(n) => StepSpec::Go { opts: OptsView { width: Some(n), ..opts }, valued: true },
        },
        OptionKind::Height => match spec_parse_u32(value) {
            None => StepSpec::Fail { fault: FaultSpec::Unparsable(Item::Height) },
            Some(n) => StepSpec::Go { opts: OptsView { height: Some(n), ..opts }, valued: true },
        },
        _ => StepSpec::Go { opts, valued: true },
    }
}

/// Whether the option `kind` takes the argument that follows it.
pub open spec fn spec_takes_value(kind: OptionKind) -> bool {
    kind == OptionKind::Symbols || kind == OptionKind::Scale || kind == OptionKind::Width || kind
        == OptionKind::Height || kind == OptionKind::Background
}

/// What the argument `arg` does to the options, where `value` is the
/// argument that follows it, if one does.
///
/// An argument that is no option is the path of the image. An option is
/// known by its name; one that takes a value takes the next argument,
/// whatever that is.
pub open spec fn spec_step(opts: OptsView, arg: Seq<char>, value: Option<Seq<char>>) -> StepSpec {
    if !spec_is_option(arg) {
        StepSpec::Go { opts: OptsView { path: Some(arg), ..opts }, valued: false }
    } else {
        let name = spec_option_name(arg);
        match spec_option_kind(name) {
            None => StepSpec::Fail { fault: FaultSpec::Unknown(name) },
            Some(kind) => if spec_takes_value(kind) {
                match value {
                    None => StepSpec::Fail { fault: FaultSpec::MissingValue(name) },
                    Some(v) => spec_valued_step(opts, kind, v),
                }
            } else {
                match kind {
                    OptionKind::Reverse => StepSpec::Go {
                        opts: OptsView { flags: opts.flags | REVERSE, ..opts },
                        valued: false,
                    },
                    OptionKind::Colors => StepSpec::Go {
                        opts: OptsView { flags: opts.flags | COLORS, ..opts },
                        valued: false,
                    },
                    OptionKind::Filter(filter) => StepSpec::Go {
                        opts: OptsView { sf: filter, ..opts },
                        valued: false,
                    },
                    _ => StepSpec::Version,
                }
            },
        }
    }
}

/// The argument at `i`, if there is one.
pub open spec fn spec_argument(args: Seq<Seq<char>>, i: int) -> Option<Seq<char>> {
    if 0 <= i < args.len() {
        Some(args[i])
    } else {
        None
    }
}

/// What the arguments from `i` on make of the options: the options at the
/// end, `None` where the version is asked for first, or the first fault.
pub open spec fn spec_parsed_from(args: Seq<Seq<char>>, i: nat, opts: OptsView) -> Result<
    Option<OptsView>,
    FaultSpec,
>
    decreases args.len() - i,
{
    if i >= args.len() {
        Ok(Some(opts))
    } else {
        match spec_step(opts, args[i as int], spec_argument(args, i as int + 1)) {
            StepSpec::Go { opts: next, valued } => spec_parsed_from(
                args,
                if valued {
                    i + 2
                } else {
                    i + 1
                },
                next,
            ),
            StepSpec::Version => Ok(None),
            StepSpec::Fail { fault } => Err(fault),
        }
    }
}

/// The texts of a list of arguments.
pub open spec fn spec_texts(args: Seq<String>) -> Seq<Seq<char>> {
    args.map_values(|s: String| s@)
}

/// What a list of arguments makes of the default options.
pub open spec fn spec_parsed(args: Seq<Seq<char>>) -> Result<Option<OptsView>, FaultSpec> {
    spec_parsed_from(args, 0, spec_default_opts())
}

/// Whether an argument is an option.
pub fn is_option(arg: &str) -> (b: bool)
    ensures
        b == spec_is_option(arg@),
{
    arg.unicode_len() > 0 && arg.get_char(0) == '-'
}

/// A text without the dashes that it starts with.
pub fn trim_dashes(text: &str) -> (rest: &str)
    ensures
        rest@ == spec_trim_dashes(text@),
{
    let n = text.unicode_len();
    let mut k: usize = 0;
    assert(text@.skip(0) =~= text@);
    loop
        invariant
            n == text@.len(),
            k <= n,
            spec_trim_dashes(text@) == spec_trim_dashes(text@.skip(k as int)),
        ensures
            k <= n,
            spec_trim_dashes(text@) == text@.skip(k as int),
        decreases n - k,
    {
        if k == n {
            break ;
        }
        if text.get_char(k) != '-' {
            break ;
        }
        assert(text@.skip(k as int).drop_first() =~= text@.skip(k + 1));
        k += 1;
    }
    assert(text@.skip(k as int) =~= text@.subrange(k as int, n as int));
    text.substring_char(k, n)
}

/// What the option of a name means, if there is such an option.
pub fn option_kind(name: &str) -> (kind: Option<OptionKind>)
    ensures
        kind == spec_option_kind(name@),
{
    if same_text(name, "c") || same_text(name, "sympols") || same_text(name, "chars") {
        Some(OptionKind::Symbols)
    } else if same_text(name, "s") || same_text(name, "scale") {
        Some(OptionKind::Scale)
    } else if same_text(name, "w") || same_text(name, "col") || same_text(name, "columans")
        || same_text(name, "width") {
        Some(OptionKind::Width)
    } else if same_text(name, "h") || same_text(name, "row") || same_text(name, "rows")
        || same_text(name, "height") {
        Some(OptionKind::Height)
    } else if same_text(name, "b") || same_text(name, "back") || same_text(name, "background") {
        Some(OptionKind::Background)
    } else if same_text(name, "r") || same_text(name, "reverse") {
        Some(OptionKind::Reverse)
    } else if same_text(name, "u") || same_text(name, "color") || same_text(name, "colors") {
        Some(OptionKind::Colors)
    } else if same_text(name, "sft") || same_text(name, "st") {
        Some(OptionKind::Filter(ScaleFilter::Triangle))
    } else if same_text(name, "sfc") || same_text(name, "sc") {
        Some(OptionKind::Filter(ScaleFilter::CatmullRom))
    } else if same_text(name, "sfg") || same_text(name, "sg") {
        Some(OptionKind::Filter(ScaleFilter::Gaussian))
    } else if same_text(name, "sfl") || same_text(name, "sl") {
        Some(OptionKind::Filter(ScaleFilter::Lanczos3))
    } else if same_text(name, "sfn") || same_text(name, "sn") {
        Some(OptionKind::Filter(ScaleFilter::Nearest))
    } else if same_text(name, "v") || same_text(name, "version") {
        Some(OptionKind::Version)
    } else {
        None
    }
}

/// What one argument does to the options.
#[derive(Debug, PartialEq)]
pub enum Step {
    /// The options have changed; the flag tells whether the next argument
    /// is consumed with this one.
    Go(Opts, bool),
    /// The version is asked for.
    Version,
    /// The argument is refused.
    Fail(OptsError),
}

impl View for Step {
    type V = StepSpec;

    open spec fn view(&self) -> StepSpec {
        match self {
            Step::Go(opts, valued) => StepSpec::Go { opts: opts@, valued: *valued },
            Step::Version => StepSpec::Version,
            Step::Fail(e) => StepSpec::Fail { fault: e@ },
        }
    }
}

/// The effect of the option `kind` with the argument `value` behind it.
fn valued_step(opts: Opts, kind: OptionKind, value: &str) -> (step: Step)
    requires
        spec_takes_value(kind),
    ensures
        step@ == spec_valued_step(opts@, kind, value@),
{
    let mut opts = opts;
    match kind {
        OptionKind::Symbols => {
            opts.sym_set = glyphs(value);
            Step::Go(opts, true)
        },
        OptionKind::Background => {
            opts.background = Some(String::from_str(value));
            Step::Go(opts, true)
        },
        OptionKind::Scale => match parse_u8(value) {
            Err(e) => Step::Fail(OptsError::Unparsable(Item::Scale, e)),
            Ok(n) => {
                if n == 0 {
                    Step::Fail(OptsError::ZeroScale)
                } else {
                    opts.scale = n;
                    Step::Go(opts, true)
                }
            },
        },
        OptionKind::Width => match parse_u32(value) {
            Err(e) => Step::Fail(OptsError::Unparsable(Item::Width, e)),
            Ok(n) => {
                opts.width = Some(n);
                Step::Go(opts, true)
            },
        },
        OptionKind::Height => match parse_u32(value) {
            Err(e) => Step::Fail(OptsError::Unparsable(Item::Height, e)),
            Ok(n) => {
                opts.height = Some(n);
                Step::Go(opts, true)
            },
        },
        _ => Step::Go(opts, true),
    }
}

/// The effect of the argument `arg` on the options, where `value` is the
/// argument that follows it, if one does.
pub fn step(opts: Opts, arg: &str, value: Option<&str>) -> (step: Step)
    ensures
        step@ == spec_step(
            opts@,
            arg@,
            match value {
                Some(v) => Some(v@),
                None => None,
            },
        ),
{
    let mut opts = opts;
    if !is_option(arg) {
        opts.path = Some(String::from_str(arg));
        return Step::Go(opts, false);
    }
    let lower = to_lowercase(arg);
    let name = trim_dashes(lower.as_str());
    match option_kind(name) {
        None => Step::Fail(OptsError::Unknown(String::from_str(name))),
        Some(kind) => match kind {
            OptionKind::Reverse => {
                opts.flags = opts.flags | REVERSE;
                Step::Go(opts, false)
            },
            OptionKind::Colors => {
                opts.flags = opts.flags | COLORS;
                Step::Go(opts, false)
            },
            OptionKind::Filter(filter) => {
                opts.sf = filter;
                Step::Go(opts, false)
            },
            OptionKind::Version => Step::Version,
            _ => match value {
                None => Step::Fail(OptsError::MissingValue(String::from_str(name))),
                Some(v) => valued_step(opts, kind, v),
            },
        },
    }
}

/// Reads a list of arguments: the options that they make of the default
/// options, from left to right; [`Parsed::Version`] where the version is
/// asked for first; or the first fault.
pub fn parse_args(args: &Vec<String>) -> (r: Result<Parsed, OptsError>)
    ensures
        match r {
            Ok(Parsed::Options(opts)) => spec_parsed(spec_texts(args@)) == Ok::<
                Option<OptsView>,
                FaultSpec,
            >(Some(opts@)),
            Ok(Parsed::Version) => spec_parsed(spec_texts(args@)) == Ok::<
                Option<OptsView>,
                FaultSpec,
            >(None),
            Err(e) => spec_parsed(spec_texts(args@)) == Err::<Option<OptsView>, FaultSpec>(e@),
        },
{
    let ghost texts = spec_texts(args@);
    let n = args.len();
    let mut opts = Opts::default();
    let mut i: usize = 0;
    while i < n
        invariant
            n == args@.len(),
            texts == spec_texts(args@),
            i <= n,
            spec_parsed(texts) == spec_parsed_from(texts, i as nat, opts@),
        decreases n - i,
    {
        let value = if i + 1 < n {
            Some(args[i + 1].as_str())
        } else {
            None
        };
        assert(texts[i as int] == args@[i as int]@);
        assert(i + 1 < n ==> texts[i + 1] == args@[i + 1]@);
        match step(opts, args[i].as_str(), value) {
            Step::Go(next, valued) => {
                opts = next;
                i += if valued {
                    2
                } else {
                    1
                };
            },
            Step::Version => {
                return Ok(Parsed::Version);
            },
            Step::Fail(e) => {
                return Err(e);
            },
        }
    }
    Ok(Parsed::Options(opts))
}

} // verus!

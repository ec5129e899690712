use aarty::args::{calculate_scale, ArgumentFault, Arguments, Mode, OutputMethod};

const DIMENSIONS: (u32, u32) = (100, 100);

fn arguments(characters: &str, mode: Mode) -> Arguments {
    Arguments {
        mode,
        output_method: OutputMethod::Stdout,
        image: "".into(),
        characters: characters.into(),
        scale: 4,
        width: None,
        background: None,
        output: "".into(),
    }
}

#[test]
fn test_scale() {
    let args = Arguments {
        mode: Mode::NormalAscii,
        output_method: OutputMethod::Stdout,
        image: "".into(),
        characters: "".into(),
        scale: 4,
        width: Some(10),
        background: None,
        output: "".into(),
    };

    let scale = calculate_scale(&args, DIMENSIONS);
    assert_eq!(scale, 10);
}

#[test]
fn test_default_scale() {
    let args = Arguments {
        mode: Mode::NormalAscii,
        output_method: OutputMethod::Stdout,
        image: "".into(),
        characters: "".into(),
        scale: 4,
        width: None,
        background: None,
        output: "".into(),
    };

    let scale = calculate_scale(&args, DIMENSIONS);
    assert_eq!(scale, 4);
}

#[test]
fn scale_is_the_truncated_quotient_of_the_widths() {
    let mut args = arguments(" .,-~!;:=*&%$@#", Mode::NormalAscii);
    args.width = Some(30);
    assert_eq!(calculate_scale(&args, (100, 7)), 3);
    args.width = Some(101);
    assert_eq!(calculate_scale(&args, (100, 7)), 0);
}

#[test]
fn empty_characters_are_refused() {
    let args = arguments("", Mode::Colored);
    assert_eq!(args.fault(), Some(ArgumentFault::NoCharacters));
    assert_eq!(args.validate(), Err("No characters provided".to_string()));
}

#[test]
fn one_character_needs_the_colored_mode() {
    let plain = arguments("#", Mode::NormalAscii);
    assert_eq!(plain.fault(), Some(ArgumentFault::OneCharacterWithoutColors));
    assert_eq!(
        plain.validate(),
        Err("One character provided but mode is normal-ascii".to_string())
    );
    let colored = arguments("#", Mode::Colored);
    assert_eq!(colored.fault(), None);
    assert_eq!(colored.validate(), Ok(()));
}

#[test]
fn more_than_thirty_two_bytes_of_characters_are_refused() {
    let fits = arguments(&"ab".repeat(16), Mode::NormalAscii);
    assert_eq!(fits.validate(), Ok(()));
    let too_many = arguments(&"ab".repeat(16).replace("ab", "abc")[..33], Mode::NormalAscii);
    assert_eq!(too_many.fault(), Some(ArgumentFault::TooManyCharacters));
    assert_eq!(
        too_many.validate(),
        Err("Too many characters provided, max is 32".to_string())
    );
}

#[test]
fn characters_are_counted_by_their_bytes() {
    // one glyph of two bytes is no single character to the check
    let args = arguments("é", Mode::NormalAscii);
    assert_eq!(args.validate(), Ok(()));
}

#[test]
fn fault_messages() {
    assert_eq!(ArgumentFault::NoCharacters.message(), "No characters provided");
    assert_eq!(
        ArgumentFault::OneCharacterWithoutColors.message(),
        "One character provided but mode is normal-ascii"
    );
    assert_eq!(
        ArgumentFault::TooManyCharacters.message(),
        "Too many characters provided, max is 32"
    );
}

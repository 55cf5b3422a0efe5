use sedboy::parse_sed_command;
use sedboy::ParseError;

fn assert_parses(input: &str, from: &str, to: &str, is_global: bool) {
    let command = parse_sed_command(input);
    assert!(command.is_ok());

    let (rest, command) = command.unwrap();

    assert_eq!(rest, "");
    assert_eq!(command.is_global, is_global);
    assert_eq!(command.from, from);
    assert_eq!(command.to, to);
}

#[test]
fn parses_valid_commands() {
    assert_parses("s/from/to", "from", "to", false);
    assert_parses("s/from/to/g", "from", "to", true);
    assert_parses("s//to/g", "", "to", true);
    assert_parses("s//to", "", "to", false);
    assert_parses("s//", "", "", false);
}

#[test]
fn does_not_parse_invalid_commands() {
    parse_sed_command("").unwrap_err();
    parse_sed_command("g/from/to").unwrap_err();
    parse_sed_command("g/from/to/s").unwrap_err();
    parse_sed_command("s/").unwrap_err();
    parse_sed_command("s/////s").unwrap_err();
    parse_sed_command("s/from/to//").unwrap_err();
}

#[test]
fn trailing_slash_gives_the_same_command() {
    let (_, bare) = parse_sed_command("s/from/to").unwrap();
    let (_, slashed) = parse_sed_command("s/from/to/").unwrap();
    assert_eq!(bare, slashed);
    assert!(!bare.is_global);
}

#[test]
fn empty_pattern_and_replacement() {
    assert_parses("s//to", "", "to", false);
    assert_parses("s//", "", "", false);
    assert_parses("s///", "", "", false);
    assert_parses("s///g", "", "", true);
}

#[test]
fn bare_g_after_empty_pattern_is_the_replacement() {
    assert_parses("s//g", "", "g", false);
}

#[test]
fn rejection_is_malformed() {
    assert_eq!(parse_sed_command("s/a/b/x").unwrap_err(), ParseError::Malformed);
    assert_eq!(parse_sed_command("x/a/b").unwrap_err(), ParseError::Malformed);
    assert_eq!(parse_sed_command(" s/a/b").unwrap_err(), ParseError::Malformed);
    assert_eq!(parse_sed_command("s/a/b/gg").unwrap_err(), ParseError::Malformed);
    assert_eq!(parse_sed_command("s").unwrap_err(), ParseError::Malformed);
    assert_eq!(parse_sed_command("s/abc").unwrap_err(), ParseError::Malformed);
}

#[test]
fn parses_multibyte_text() {
    assert_parses("s/héllo/wörld/g", "héllo", "wörld", true);
    assert_parses("s/日本/語", "日本", "語", false);
}

use taskmaster::config::parser::ProgramParser;
use taskmaster::config::program::AutoRestart;
use taskmaster::decimal::{parse_decimal, push_decimal};
use taskmaster::errors::ConfigParseError;
use taskmaster::text::{chars_of, has_prefix, same_text, scan_run, split_fields, string_of, Separators};

fn offender<T: std::fmt::Debug>(r: Result<T, ConfigParseError>) -> String {
    match r {
        Err(ConfigParseError::UnexpectedValue(s)) => s,
        other => panic!("expected an unexpected value, got {:?}", other),
    }
}

#[test]
fn chars_round_trip() {
    let chars = chars_of("a\u{e9}\u{3042}z");
    assert_eq!(chars, vec!['a', '\u{e9}', '\u{3042}', 'z']);
    assert_eq!(string_of(&chars, 1, 3), "\u{e9}\u{3042}");
    assert_eq!(string_of(&chars, 2, 2), "");
}

#[test]
fn same_text_compares_characters() {
    assert!(same_text("abc", "abc"));
    assert!(!same_text("abc", "abd"));
    assert!(!same_text("abc", "ab"));
}

#[test]
fn prefix_and_run() {
    let chars = chars_of("program:web");
    assert!(has_prefix(&chars, "program"));
    assert!(has_prefix(&chars, ""));
    assert!(!has_prefix(&chars, "programs"));
    assert!(!has_prefix(&chars_of("pro"), "program"));
    assert_eq!(scan_run(&chars, 0, Separators::Colon), 7);
    assert_eq!(scan_run(&chars, 8, Separators::Colon), 11);
    assert_eq!(scan_run(&chars, 7, Separators::Colon), 7);
}

#[test]
fn fields_are_maximal_runs() {
    let blank = split_fields(&chars_of(" a\tbc  d "), Separators::Blank);
    assert_eq!(blank, vec!["a", "bc", "d"]);
    let comma = split_fields(&chars_of("1,,2 ,3"), Separators::BlankOrComma);
    assert_eq!(comma, vec!["1", "2", "3"]);
    let keep_comma = split_fields(&chars_of("1,2 3"), Separators::Blank);
    assert_eq!(keep_comma, vec!["1,2", "3"]);
    let none = split_fields(&chars_of(" \t "), Separators::Blank);
    assert!(none.is_empty());
}

#[test]
fn whitespace_fields_follow_unicode() {
    let words = split_fields(&chars_of("start\u{3000}web\u{a0}now\n"), Separators::Whitespace);
    assert_eq!(words, vec!["start", "web", "now"]);
}

#[test]
fn decimal_literals() {
    assert_eq!(parse_decimal(&chars_of("0"), false, 0, 255), Some(0));
    assert_eq!(parse_decimal(&chars_of("+7"), false, 0, 255), Some(7));
    assert_eq!(parse_decimal(&chars_of("000000000000000000000255"), false, 0, 255), Some(255));
    assert_eq!(parse_decimal(&chars_of("256"), false, 0, 255), None);
    assert_eq!(parse_decimal(&chars_of("-0"), false, 0, 255), None);
    assert_eq!(parse_decimal(&chars_of("-0"), true, -5, 5), Some(0));
    assert_eq!(parse_decimal(&chars_of("-5"), true, -5, 5), Some(-5));
    assert_eq!(parse_decimal(&chars_of("-6"), true, -5, 5), None);
    assert_eq!(parse_decimal(&chars_of(""), true, -5, 5), None);
    assert_eq!(parse_decimal(&chars_of("+"), true, -5, 5), None);
    assert_eq!(parse_decimal(&chars_of("-"), true, -5, 5), None);
    assert_eq!(parse_decimal(&chars_of("1_0"), true, -50, 50), None);
    assert_eq!(parse_decimal(&chars_of(" 1"), true, -50, 50), None);
    assert_eq!(parse_decimal(&chars_of("\u{661}"), true, -50, 50), None);
    assert_eq!(parse_decimal(&chars_of("99999999999999999999999999"), false, 0, 0x1_0000_0000), None);
    assert_eq!(parse_decimal(&chars_of("4294967296"), false, 0, 0x1_0000_0000), Some(4294967296));
}

#[test]
fn decimal_digits_written() {
    for (n, text) in [(0u8, "0"), (9, "9"), (10, "10"), (99, "99"), (100, "100"), (255, "255")] {
        let mut s = String::from("x");
        push_decimal(&mut s, n);
        assert_eq!(s, format!("x{}", text));
    }
}

#[test]
fn numbers_agree_with_std() {
    for text in ["", "+", "-", "0", "+0", "-0", "255", "256", "0777", "65535", "65536", "4294967295",
        "4294967296", "-1", "2147483647", "2147483648", "-2147483648", "-2147483649", "1 ", "a", "+-1"] {
        assert_eq!(ProgramParser::parse_numprocs(text).ok(), text.parse::<u8>().ok(), "{:?}", text);
        assert_eq!(ProgramParser::parse_startsecs(text).ok(), text.parse::<u8>().ok(), "{:?}", text);
        assert_eq!(ProgramParser::parse_startretries(text).ok(), text.parse::<u8>().ok(), "{:?}", text);
        assert_eq!(ProgramParser::parse_umask(text).ok(), text.parse::<u16>().ok(), "{:?}", text);
        assert_eq!(ProgramParser::parse_stopwaitsecs(text).ok(), text.parse::<u32>().ok(), "{:?}", text);
        assert_eq!(ProgramParser::parse_stopsignal(text).ok(), text.parse::<i32>().ok(), "{:?}", text);
    }
}

#[test]
fn refused_number_reports_the_text() {
    assert_eq!(offender(ProgramParser::parse_numprocs("256")), "256");
    assert_eq!(offender(ProgramParser::parse_umask("abc")), "abc");
    assert_eq!(offender(ProgramParser::parse_stopsignal("")), "");
}

#[test]
fn flags_fold_case() {
    assert_eq!(ProgramParser::parse_autostart("TRUE").unwrap(), true);
    assert_eq!(ProgramParser::parse_autostart("False").unwrap(), false);
    assert_eq!(offender(ProgramParser::parse_autostart("Yes")), "Yes");
    assert_eq!(ProgramParser::parse_autorestart("TrUe").unwrap(), AutoRestart::True);
    assert_eq!(ProgramParser::parse_autorestart("UNEXPECTED").unwrap(), AutoRestart::Unexpected);
    assert_eq!(offender(ProgramParser::parse_autorestart("Always")), "Always");
}

#[test]
fn flags_from_lowercase_take_the_text_as_it_is() {
    assert_eq!(ProgramParser::autostart_from_lowercase("true", "TRUE").unwrap(), true);
    assert_eq!(offender(ProgramParser::autostart_from_lowercase("TRUE", "TRUE")), "TRUE");
    assert_eq!(offender(ProgramParser::autostart_from_lowercase("maybe", "Maybe")), "Maybe");
    assert_eq!(
        ProgramParser::autorestart_from_lowercase("unexpected", "x").unwrap(),
        AutoRestart::Unexpected
    );
    assert_eq!(offender(ProgramParser::autorestart_from_lowercase("Unexpected", "x")), "x");
}

#[test]
fn command_words() {
    assert_eq!(ProgramParser::parse_command("a\tb  c").unwrap(), vec!["a", "b", "c"]);
    assert_eq!(ProgramParser::parse_command("a,b").unwrap(), vec!["a,b"]);
    assert_eq!(offender(ProgramParser::parse_command(" \t")), " \t");
}

#[test]
fn exit_codes_and_their_offender() {
    assert_eq!(ProgramParser::parse_exitcodes("0, 2\t-1,+3").unwrap(), vec![0, 2, -1, 3]);
    assert_eq!(offender(ProgramParser::parse_exitcodes("1,a,b")), "a");
    assert_eq!(offender(ProgramParser::parse_exitcodes("1,2147483648")), "2147483648");
    assert_eq!(offender(ProgramParser::parse_exitcodes(" ,, ")), " ,, ");
}

#[test]
fn environment_entries() {
    assert_eq!(ProgramParser::parse_environment("A=1 B=2").unwrap(), vec!["A=1", "B=2"]);
    assert_eq!(
        ProgramParser::parse_environment("A='x, y',B=\"it's\"z").unwrap(),
        vec!["A=x, y", "B=it'sz"]
    );
    assert_eq!(ProgramParser::parse_environment("  A=1").unwrap(), vec!["A=1"]);
    assert_eq!(ProgramParser::parse_environment("A=,B=2").unwrap(), vec!["A=", "B=2"]);
    assert_eq!(ProgramParser::parse_environment("A B=1").unwrap(), vec!["A B=1"]);
    assert_eq!(ProgramParser::parse_environment("A='open").unwrap(), vec!["A=open"]);
}

#[test]
fn environment_entry_closed_at_the_end_is_listed_again() {
    assert_eq!(ProgramParser::parse_environment("A=1,").unwrap(), vec!["A=1", "A=1"]);
    assert_eq!(ProgramParser::parse_environment("A=1, ").unwrap(), vec!["A=1"]);
}

#[test]
fn environment_refusals() {
    assert_eq!(offender(ProgramParser::parse_environment("=1")), "");
    assert_eq!(offender(ProgramParser::parse_environment("A=1,=2")), "");
    assert_eq!(offender(ProgramParser::parse_environment("A")), "A");
    assert_eq!(offender(ProgramParser::parse_environment("A=")), "A=");
    assert_eq!(offender(ProgramParser::parse_environment("A=''")), "A=''");
    assert_eq!(offender(ProgramParser::parse_environment("A=1,B")), "A=1,B");
}

#[test]
fn environment_key_must_not_be_empty() {
    assert!(ProgramParser::parse_enviroment_key("K").is_ok());
    assert_eq!(offender(ProgramParser::parse_enviroment_key("")), "");
}

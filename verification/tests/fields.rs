use ldraw::load::base::{
    check_field_get, check_field_get_and, check_field_is, check_fields_eq, check_fields_ge,
    check_fields_le, map_result_monad, parse_color_ref, parse_real, parse_rgb, parse_u16, parse_u8,
    read_line_is_ok, decimal_string, IntErrorKind, ParseError, ParseErrorKind, RealErrorKind,
    RealField,
};
use ldraw::text::{same_text, split_fields, to_lower_ascii};
use ldraw::types::{ColorRef, Real, RGB};
use regex::Regex;

fn error(line_number: u32, kind: ParseErrorKind) -> ParseError {
    ParseError { path: "model.ldr".to_string(), line_number, error: kind }
}

#[test]
fn split_fields_on_spaces_and_tabs() {
    assert_eq!(split_fields("1 16\t0  0 \t 0"), vec!["1", "16", "0", "0", "0"]);
    assert_eq!(split_fields("   "), Vec::<String>::new());
    assert_eq!(split_fields(""), Vec::<String>::new());
    assert_eq!(split_fields("\tword"), vec!["word"]);
}

#[test]
fn split_fields_gives_clean_fields() {
    for line in ["0 FILE a.ldr", " \t x\t\ty  z ", "\t\t", "a"] {
        for field in split_fields(line) {
            assert!(!field.is_empty());
            assert!(!field.contains(' ') && !field.contains('\t'));
        }
    }
}

#[test]
fn lower_ascii_only_touches_ascii_letters() {
    assert_eq!(to_lower_ascii("3001.DAT"), "3001.dat");
    assert_eq!(to_lower_ascii("ÀB-c_9"), "Àb-c_9");
    assert!(same_text("abc", "abc"));
    assert!(!same_text("abc", "abd"));
    assert!(!same_text("abc", "ab"));
}

#[test]
fn parse_u8_reads_decimal_bytes() {
    assert_eq!(parse_u8("model.ldr", 3, "0"), Ok(0));
    assert_eq!(parse_u8("model.ldr", 3, "255"), Ok(255));
    assert_eq!(parse_u8("model.ldr", 3, "+7"), Ok(7));
    assert_eq!(parse_u8("model.ldr", 3, "007"), Ok(7));
}

#[test]
fn parse_u8_errors() {
    assert_eq!(
        parse_u8("model.ldr", 3, "256"),
        Err(error(3, ParseErrorKind::InvalidInteger {
            field: "256".to_string(),
            int_error: IntErrorKind::PosOverflow
        }))
    );
    assert_eq!(
        parse_u8("model.ldr", 3, "-1"),
        Err(error(3, ParseErrorKind::InvalidInteger {
            field: "-1".to_string(),
            int_error: IntErrorKind::InvalidDigit
        }))
    );
    assert_eq!(
        parse_u8("model.ldr", 3, "+"),
        Err(error(3, ParseErrorKind::InvalidInteger {
            field: "+".to_string(),
            int_error: IntErrorKind::InvalidDigit
        }))
    );
    assert_eq!(
        parse_u8("model.ldr", 3, ""),
        Err(error(3, ParseErrorKind::InvalidInteger {
            field: String::new(),
            int_error: IntErrorKind::Empty
        }))
    );
    assert_eq!(
        parse_u8("model.ldr", 3, "1x"),
        Err(error(3, ParseErrorKind::InvalidInteger {
            field: "1x".to_string(),
            int_error: IntErrorKind::InvalidDigit
        }))
    );
}

#[test]
fn parse_u16_reads_decimal_words() {
    assert_eq!(parse_u16("model.ldr", 1, "65535"), Ok(65535));
    assert_eq!(parse_u16("model.ldr", 1, "511"), Ok(511));
    assert_eq!(
        parse_u16("model.ldr", 1, "65536"),
        Err(error(1, ParseErrorKind::InvalidInteger {
            field: "65536".to_string(),
            int_error: IntErrorKind::PosOverflow
        }))
    );
}

#[test]
fn integer_parsing_agrees_with_std() {
    for text in ["0", "1", "+1", "-0", "255", "256", "65535", "65536", "", "+", "1a", "٣", "00255"] {
        let ours = parse_u8("p", 1, text).ok();
        assert_eq!(ours, text.parse::<u8>().ok(), "u8 {:?}", text);
        let ours = parse_u16("p", 1, text).ok();
        assert_eq!(ours, text.parse::<u16>().ok(), "u16 {:?}", text);
    }
}

#[test]
fn parse_real_keeps_the_text() {
    assert_eq!(
        parse_real("model.ldr", 2, "-1.5e3", RealField::OutsideUnitRange),
        Ok(Real { text: "-1.5e3".to_string() })
    );
    assert_eq!(
        parse_real("model.ldr", 2, "0.25", RealField::InUnitRange),
        Ok(Real { text: "0.25".to_string() })
    );
    assert_eq!(
        parse_real("model.ldr", 2, "x", RealField::Invalid(RealErrorKind::Invalid)),
        Err(error(2, ParseErrorKind::InvalidReal {
            field: "x".to_string(),
            real_error: RealErrorKind::Invalid
        }))
    );
}

#[test]
fn parse_rgb_reads_both_prefixes() {
    assert_eq!(parse_rgb("model.ldr", 1, "#05131D"), Ok(RGB(0x05, 0x13, 0x1D)));
    assert_eq!(parse_rgb("model.ldr", 1, "0x2ff00aB"), Ok(RGB(0xff, 0x00, 0xab)));
    assert_eq!(
        parse_rgb("model.ldr", 1, "#05131"),
        Err(error(1, ParseErrorKind::InvalidRgb { field: "#05131".to_string() }))
    );
    assert_eq!(
        parse_rgb("model.ldr", 1, "05131D"),
        Err(error(1, ParseErrorKind::InvalidRgb { field: "05131D".to_string() }))
    );
    assert_eq!(
        parse_rgb("model.ldr", 1, "#05131G"),
        Err(error(1, ParseErrorKind::InvalidRgb { field: "#05131G".to_string() }))
    );
}

#[test]
fn parse_rgb_agrees_with_the_pattern() {
    let re = Regex::new(r"^(?:#|0x2)([[:xdigit:]]{2})([[:xdigit:]]{2})([[:xdigit:]]{2})$").unwrap();
    let samples = [
        "#000000", "#FFFFFF", "#abcdef", "0x2123456", "0x212345", "#1234567", "#12345", "0x3123456",
        "#12 456", "", "#", "0x2", "##123456", "#12345g", "0X2123456", "#00ff00\n",
    ];
    for text in samples {
        let expected = re.captures(text).map(|c| {
            RGB(
                u8::from_str_radix(&c[1], 16).unwrap(),
                u8::from_str_radix(&c[2], 16).unwrap(),
                u8::from_str_radix(&c[3], 16).unwrap(),
            )
        });
        assert_eq!(parse_rgb("p", 1, text).ok(), expected, "{:?}", text);
    }
}

#[test]
fn parse_color_ref_indexed_or_direct() {
    assert_eq!(parse_color_ref("model.ldr", 4, "16"), Ok(ColorRef::Indexed(16)));
    assert_eq!(parse_color_ref("model.ldr", 4, "0x2FF0000"), Ok(ColorRef::RGB(RGB(255, 0, 0))));
    assert_eq!(parse_color_ref("model.ldr", 4, "#00FF00"), Ok(ColorRef::RGB(RGB(0, 255, 0))));
    assert_eq!(
        parse_color_ref("model.ldr", 4, "70000"),
        Err(error(4, ParseErrorKind::InvalidColorRef { field: "70000".to_string() }))
    );
    assert_eq!(
        parse_color_ref("model.ldr", 4, "red"),
        Err(error(4, ParseErrorKind::InvalidColorRef { field: "red".to_string() }))
    );
}

#[test]
fn check_field_is_compares_exactly() {
    assert_eq!(check_field_is("model.ldr", 5, "CODE", "CODE"), Ok(()));
    assert_eq!(
        check_field_is("model.ldr", 5, "code", "CODE"),
        Err(error(5, ParseErrorKind::UnexpectedField {
            field: "code".to_string(),
            keyword: "CODE".to_string()
        }))
    );
}

#[test]
fn field_count_checks() {
    let fields = vec!["0", "STEP", "x"];
    assert_eq!(check_fields_eq("model.ldr", 6, &fields, 3), Ok(()));
    assert_eq!(
        check_fields_eq("model.ldr", 6, &fields, 2),
        Err(error(6, ParseErrorKind::FieldCount { found: 3, expected: 2 }))
    );
    assert_eq!(check_fields_ge("model.ldr", 6, &fields, 3), Ok(()));
    assert_eq!(
        check_fields_ge("model.ldr", 6, &fields, 4),
        Err(error(6, ParseErrorKind::TooFewFields { found: 3, expected: 4 }))
    );
    assert_eq!(check_fields_le("model.ldr", 6, &fields, 3), Ok(()));
    assert_eq!(
        check_fields_le("model.ldr", 6, &fields, 2),
        Err(error(6, ParseErrorKind::TooManyFields { found: 3, expected: 2 }))
    );
}

#[test]
fn check_field_get_returns_the_field() {
    let fields = vec!["0", "STEP", "x"];
    assert_eq!(check_field_get("model.ldr", 7, &fields, 1), Ok("STEP"));
    assert_eq!(
        check_field_get("model.ldr", 7, &fields, 5),
        Err(error(7, ParseErrorKind::TooFewFields { found: 3, expected: 5 }))
    );
    assert_eq!(
        check_field_get("model.ldr", 7, &fields, 3),
        Err(error(7, ParseErrorKind::TooFewFields { found: 3, expected: 3 }))
    );
    let official = vec!["0", "Official"];
    assert_eq!(
        check_field_get("model.ldr", 7, &official, 2),
        Err(error(7, ParseErrorKind::TooFewFields { found: 2, expected: 2 }))
    );
}

#[test]
fn check_field_get_and_parses_the_field() {
    let fields = vec!["0", "12", "x"];
    assert_eq!(check_field_get_and("model.ldr", 8, &fields, 1, parse_u8), Ok(12));
    assert_eq!(
        check_field_get_and("model.ldr", 8, &fields, 2, parse_u8),
        Err(error(8, ParseErrorKind::InvalidInteger {
            field: "x".to_string(),
            int_error: IntErrorKind::InvalidDigit
        }))
    );
    assert_eq!(
        check_field_get_and("model.ldr", 8, &fields, 4, parse_u8),
        Err(error(8, ParseErrorKind::TooFewFields { found: 3, expected: 4 }))
    );
    let called = std::cell::Cell::new(false);
    assert_eq!(
        check_field_get_and("model.ldr", 8, &fields, 3, |p: &str, l: u32, f: &str| {
            called.set(true);
            parse_u8(p, l, f)
        }),
        Err(error(8, ParseErrorKind::TooFewFields { found: 3, expected: 3 }))
    );
    assert!(!called.get());
}

#[test]
fn map_result_monad_stops_at_the_first_error() {
    let inputs = ["1", "2", "3"];
    assert_eq!(map_result_monad(|f: &&str| parse_u8("p", 1, f), &inputs), Ok(vec![1, 2, 3]));
    let inputs = ["1", "x", "y"];
    assert_eq!(
        map_result_monad(|f: &&str| parse_u8("p", 1, f), &inputs),
        Err(ParseError {
            path: "p".to_string(),
            line_number: 1,
            error: ParseErrorKind::InvalidInteger {
                field: "x".to_string(),
                int_error: IntErrorKind::InvalidDigit
            }
        })
    );
    let empty: [&str; 0] = [];
    assert_eq!(map_result_monad(|f: &&str| parse_u8("p", 1, f), &empty), Ok(vec![]));
}

#[test]
fn read_line_is_ok_needs_a_byte() {
    assert!(read_line_is_ok(&Ok(3)));
    assert!(!read_line_is_ok(&Ok(0)));
    assert!(!read_line_is_ok(&Err(std::io::Error::new(std::io::ErrorKind::Other, "broken"))));
}

#[test]
fn decimal_text_reads_back() {
    for v in 0..=u8::MAX {
        assert_eq!(parse_u8("p", 1, &v.to_string()), Ok(v));
    }
    for v in 0..=u16::MAX {
        assert_eq!(parse_u16("p", 1, &v.to_string()), Ok(v));
    }
    for v in [0u64, 7, 10, 99, 100, 65535, 1 << 40, u64::MAX] {
        assert_eq!(decimal_string(v), v.to_string());
    }
    for v in 0..=255u64 {
        assert_eq!(parse_u8("p", 1, &decimal_string(v)), Ok(v as u8));
    }
}

#[test]
fn error_messages() {
    let cases = [
        (ParseErrorKind::UnexpectedField { field: "KODE".to_string(), keyword: "CODE".to_string() },
         "Found \"KODE\" as field where \"CODE\" was expected"),
        (ParseErrorKind::FieldCount { found: 14, expected: 15 }, "Line has 14 fields: expected 15"),
        (ParseErrorKind::TooFewFields { found: 2, expected: 3 }, "Line has 2 fields: expected at least 3"),
        (ParseErrorKind::TooManyFields { found: 5, expected: 4 }, "Line has 5 fields: expected at most 4"),
        (ParseErrorKind::InvalidInteger { field: "300".to_string(), int_error: IntErrorKind::PosOverflow },
         "Can't parse \"300\" as integer: number too large to fit in target type"),
        (ParseErrorKind::InvalidReal { field: "x".to_string(), real_error: RealErrorKind::Invalid },
         "Can't parse \"x\" as float: invalid float literal"),
        (ParseErrorKind::InvalidLineType { line_type: 7 }, "Invalid line type 7"),
        (ParseErrorKind::UnknownRelease, "Can't use \"??\" as a release"),
        (ParseErrorKind::FractionOutOfRange { field: "1.5".to_string() },
         "FRACTION value 1.5 outside of [0.0, 1.0] range"),
        (ParseErrorKind::UnknownColor { index: 512 }, "Can't find color index 512"),
        (ParseErrorKind::UnsupportedRgbColor, "RBG color references not supported"),
        (ParseErrorKind::PartNotFound { name: "a.dat".to_string(), file: "m.mpd".to_string() },
         "Can't find a.dat in m.mpd"),
        (ParseErrorKind::CannotOpen { message: "denied".to_string() },
         "Can't open model.ldr for reading: denied"),
        (ParseErrorKind::CannotRead { message: "bad".to_string() }, "Can't read line: bad"),
        (ParseErrorKind::NotAFile, "model.ldr is not a file"),
        (ParseErrorKind::FileNotFound, "Can't find model.ldr"),
    ];
    for (kind, expected) in cases {
        assert_eq!(error(1, kind).message(), expected);
    }
}

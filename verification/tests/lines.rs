use ldraw::file::{LDFile, Meta, Statement};
use ldraw::load::base::{
    IntErrorKind, ParseError, ParseErrorKind, ParseResult1, RealErrorKind, RealField,
};
use ldraw::load::primitives::{
    parse_line_statement, parse_optional_line_statement, parse_quad_statement,
    parse_triangle_statement,
};
use ldraw::load::{
    fields_of_raw_line, parse_subfile_statement, process_line, try_load_ldraw_lines, try_process_line,
};
use ldraw::text::split_fields;
use ldraw::types::{ColorRef, Line, Matrix, Point, Quad, Real, Triangle, RGB};

fn reading(field: &str) -> RealField {
    match field.parse::<f64>() {
        Err(_) if field.is_empty() => RealField::Invalid(RealErrorKind::Empty),
        Err(_) => RealField::Invalid(RealErrorKind::Invalid),
        Ok(v) if v < 0.0 || v > 1.0 => RealField::OutsideUnitRange,
        Ok(_) => RealField::InUnitRange,
    }
}

fn readings(fields: &[String]) -> Vec<RealField> {
    fields.iter().map(|f| reading(f)).collect()
}

fn line(number: u32, text: &str) -> Option<ParseResult1<Option<Statement>>> {
    let fields = split_fields(text);
    try_process_line("model.ldr", number, text, &readings(&fields))
}

fn parsed(number: u32, text: &str) -> ParseResult1<Option<Statement>> {
    line(number, text).expect("the line has an outcome")
}

fn error(line_number: u32, kind: ParseErrorKind) -> ParseError {
    ParseError { path: "model.ldr".to_string(), line_number, error: kind }
}

fn text_real(text: &str) -> Real {
    Real { text: text.to_string() }
}

fn point(x: &str, y: &str, z: &str) -> Point {
    Point { x: text_real(x), y: text_real(y), z: text_real(z) }
}

#[test]
fn empty_lines_give_no_statement() {
    assert_eq!(parsed(1, ""), Ok(None));
    assert_eq!(parsed(1, " \t "), Ok(None));
}

#[test]
fn subfile_reference() {
    let expected = Statement::Subfile {
        color: ColorRef::Indexed(16),
        matrix: Matrix {
            origin: point("1", "2", "-3.5"),
            row_x: point("1", "0", "0"),
            row_y: point("0", "1", "0"),
            row_z: point("0", "0", "1"),
        },
        file: "parts/s/3001s01.dat".to_string(),
    };
    assert_eq!(
        parsed(4, "1 16 1 2 -3.5 1 0 0 0 1 0 0 0 1 PARTS\\S\\3001S01.DAT"),
        Ok(Some(expected))
    );
}

#[test]
fn subfile_names_are_lower_case_in_unicode() {
    match parsed(2, "1 0x2FF0000 0 0 0 1 0 0 0 1 0 0 0 1 ÄÖ\\Ü.DAT") {
        Ok(Some(Statement::Subfile { color, file, .. })) => {
            assert_eq!(color, ColorRef::RGB(RGB(255, 0, 0)));
            assert_eq!(file, "äö/ü.dat");
        }
        other => panic!("unexpected {:?}", other),
    }
}

#[test]
fn subfile_errors() {
    assert_eq!(
        parsed(3, "1 16 0 0 0 1 0 0 0 1 0 0 0 1"),
        Err(error(3, ParseErrorKind::FieldCount { found: 14, expected: 15 }))
    );
    assert_eq!(
        parsed(3, "1 16 0 zero 0 1 0 0 0 1 0 0 0 1 a.dat"),
        Err(error(3, ParseErrorKind::InvalidReal {
            field: "zero".to_string(),
            real_error: RealErrorKind::Invalid
        }))
    );
    assert_eq!(
        parsed(3, "1 blue 0 0 0 1 0 0 0 1 0 0 0 1 a.dat"),
        Err(error(3, ParseErrorKind::InvalidColorRef { field: "blue".to_string() }))
    );
}

#[test]
fn parse_subfile_statement_directly() {
    let fields = vec!["1", "4", "0", "0", "0", "1", "0", "0", "0", "1", "0", "0", "0", "1", "A.LDR"];
    let r: Vec<RealField> = fields.iter().map(|f| reading(f)).collect();
    match parse_subfile_statement("model.ldr", 9, fields, &r) {
        Ok(Statement::Subfile { color, file, .. }) => {
            assert_eq!(color, ColorRef::Indexed(4));
            assert_eq!(file, "a.ldr");
        }
        other => panic!("unexpected {:?}", other),
    }
}

#[test]
fn line_statement() {
    assert_eq!(
        parsed(5, "2 24 0 0 0 1 1 1"),
        Ok(Some(Statement::Line {
            color: ColorRef::Indexed(24),
            line: Line { a: point("0", "0", "0"), b: point("1", "1", "1") },
        }))
    );
    assert_eq!(
        parsed(5, "2 24 0 0 0 1 1"),
        Err(error(5, ParseErrorKind::FieldCount { found: 7, expected: 8 }))
    );
}

#[test]
fn triangle_statement() {
    assert_eq!(
        parsed(6, "3 16 0 0 0 1 0 0 0 1 0"),
        Ok(Some(Statement::Triangle {
            color: ColorRef::Indexed(16),
            triangle: Triangle {
                a: point("0", "0", "0"),
                b: point("1", "0", "0"),
                c: point("0", "1", "0"),
            },
        }))
    );
}

#[test]
fn quad_statement() {
    assert_eq!(
        parsed(7, "4 16 0 0 0 1 0 0 1 1 0 0 1 0"),
        Ok(Some(Statement::Quad {
            color: ColorRef::Indexed(16),
            quad: Quad {
                a: point("0", "0", "0"),
                b: point("1", "0", "0"),
                c: point("1", "1", "0"),
                d: point("0", "1", "0"),
            },
        }))
    );
    assert_eq!(
        parsed(7, "4 16 0 0 0 1 0 0 1 1 0 0 1 nan?"),
        Err(error(7, ParseErrorKind::InvalidReal {
            field: "nan?".to_string(),
            real_error: RealErrorKind::Invalid
        }))
    );
}

#[test]
fn optional_line_statement() {
    assert_eq!(
        parsed(8, "5 24 0 0 0 0 1 0 1 0 0 -1 0 0"),
        Ok(Some(Statement::OptionalLine {
            color: ColorRef::Indexed(24),
            line: Line { a: point("0", "0", "0"), b: point("0", "1", "0") },
            control_line: Line { a: point("1", "0", "0"), b: point("-1", "0", "0") },
        }))
    );
}

#[test]
fn primitive_parsers_directly() {
    let fields = vec!["2", "1", "0", "0", "0", "1", "1", "1"];
    let r: Vec<RealField> = fields.iter().map(|f| reading(f)).collect();
    assert!(parse_line_statement("model.ldr", 1, fields.clone(), &r).is_ok());
    assert_eq!(
        parse_triangle_statement("model.ldr", 1, fields.clone(), &r),
        Err(error(1, ParseErrorKind::FieldCount { found: 8, expected: 11 }))
    );
    assert_eq!(
        parse_quad_statement("model.ldr", 1, fields.clone(), &r),
        Err(error(1, ParseErrorKind::FieldCount { found: 8, expected: 14 }))
    );
    assert_eq!(
        parse_optional_line_statement("model.ldr", 1, fields, &r),
        Err(error(1, ParseErrorKind::FieldCount { found: 8, expected: 14 }))
    );
}

#[test]
fn invalid_line_types() {
    assert_eq!(parsed(9, "6 1 2 3"), Err(error(9, ParseErrorKind::InvalidLineType { line_type: 6 })));
    assert_eq!(
        parsed(9, "x 1 2 3"),
        Err(error(9, ParseErrorKind::InvalidInteger {
            field: "x".to_string(),
            int_error: IntErrorKind::InvalidDigit
        }))
    );
    assert_eq!(
        parsed(9, "300"),
        Err(error(9, ParseErrorKind::InvalidInteger {
            field: "300".to_string(),
            int_error: IntErrorKind::PosOverflow
        }))
    );
}

#[test]
fn raw_lines_lose_their_line_break() {
    assert_eq!(fields_of_raw_line("0 STEP\r\n"), vec!["0", "STEP"]);
    assert_eq!(fields_of_raw_line("0 STEP\n"), vec!["0", "STEP"]);
    assert_eq!(fields_of_raw_line("0 a\rb c"), vec!["0", "a"]);
}

fn load(lines: &[&str], read_error: Option<&str>) -> Option<Result<LDFile, Vec<ParseError>>> {
    let lines: Vec<String> = lines.iter().map(|l| l.to_string()).collect();
    let r: Vec<Vec<RealField>> = lines.iter().map(|l| readings(&fields_of_raw_line(l))).collect();
    try_load_ldraw_lines("model.ldr", &lines, &r, read_error.map(|m| m.to_string()))
}

#[test]
fn loading_a_file() {
    let file = load(&["0 Brick\r\n", "\r\n", "0 STEP\r\n", "2 24 0 0 0 1 1 1\n"], None)
        .unwrap()
        .unwrap();
    assert_eq!(
        file.statements,
        vec![
            Statement::Meta(Meta::Description("Brick".to_string())),
            Statement::Meta(Meta::Step),
            Statement::Line {
                color: ColorRef::Indexed(24),
                line: Line { a: point("0", "0", "0"), b: point("1", "1", "1") },
            },
        ]
    );
    assert_eq!(load(&[], None), Some(Ok(LDFile { statements: vec![] })));
}

#[test]
fn loading_reports_every_error_in_line_order() {
    let errors = load(&["0 Brick\n", "7\n", "0 STEP\n", "2 24 0 0\n", "0 CLEAR x\n"], None)
        .unwrap()
        .unwrap_err();
    assert_eq!(
        errors,
        vec![
            error(2, ParseErrorKind::InvalidLineType { line_type: 7 }),
            error(4, ParseErrorKind::FieldCount { found: 4, expected: 8 }),
            error(5, ParseErrorKind::FieldCount { found: 3, expected: 2 }),
        ]
    );
    for pair in errors.windows(2) {
        assert!(pair[0].line_number < pair[1].line_number);
    }
}

#[test]
fn loading_reports_a_failed_read_after_the_last_line() {
    let errors = load(&["0 STEP\n", "0 STEP\n"], Some("invalid UTF-8")).unwrap().unwrap_err();
    assert_eq!(
        errors,
        vec![error(3, ParseErrorKind::CannotRead { message: "invalid UTF-8".to_string() })]
    );
}

#[test]
fn loading_stops_on_a_line_without_outcome() {
    assert!(load(&["0 STEP\n", "0 Unofficial\n", "0 STEP\n"], None).is_none());
}

#[test]
fn process_line_on_a_line_with_an_outcome() {
    let text = "0 !CATEGORY Plate";
    let r = readings(&split_fields(text));
    assert_eq!(
        process_line("model.ldr", 2, text, &r),
        Ok(Some(Statement::Meta(Meta::Category("Plate".to_string()))))
    );
}

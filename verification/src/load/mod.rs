//! Loading of LDraw files.
//!
//! Each line of a file is split into fields, and its first field gives its
//! type: 0 (meta statement), 1 (subfile reference), 2 (line), 3 (triangle),
//! 4 (quadrilateral) or 5 (optional line). Reading the real numbers of a
//! line is std's 64-bit float parsing: the functions here take, for each
//! field, what that reading gives (`RealField`).
use vstd::prelude::*;

pub mod base;
pub mod meta;
pub mod primitives;

use crate::file::{LDFile, SpecStatement, Statement};
use crate::load::base::{
    check_fields_eq, color_ref_outcome, error_at, error_at_line, fields_eq_outcome,
    parse_color_ref, parse_u8, u8_outcome, yields, ParseError, ParseErrorKind, ParseResult,
    ParseResult1, RealField, SpecParseError, SpecParseErrorKind,
};
use crate::load::meta::{
    meta_statement_outcome, read_meta_statement, readings_fit, yields_or_aborts, Outcome,
};
use crate::load::primitives::{
    check_reals, lemma_first_invalid_exact, line_outcome, optional_line_outcome,
    parse_line_statement, reals_valid,
    parse_optional_line_statement, parse_quad_statement, parse_triangle_statement, point_at,
    point_from, quad_outcome, reals_outcome, triangle_outcome,
};
use crate::text::{borrow_all, chars_of, line_fields, split_fields, string_of, texts};
use crate::types::Matrix;

verus! {

// ---------------------------------------------------------------------------
// Subfile references.
// ---------------------------------------------------------------------------

/// What std's `str::to_lowercase` gives for a text (lower case in the
/// sense of Unicode).
pub uninterp spec fn lowercase(s: Seq<char>) -> Seq<char>;

/// std's `str::to_lowercase`; the contract names its result `lowercase` of
/// the text.
#[verifier::external_body]
fn to_lowercase(s: &str) -> (res: String)
    ensures
        res@ == lowercase(s@),
{
    s.to_lowercase()
}

/// `s` with each backslash replaced by a forward slash.
pub open spec fn forward_slashes(s: Seq<char>) -> Seq<char> {
    s.map_values(|c: char|
        if c == '\\' {
            '/'
        } else {
            c
        })
}

/// Replaces each backslash of `s` by a forward slash.
fn to_forward_slashes(s: &str) -> (res: String)
    ensures
        res@ == forward_slashes(s@),
{
    let chars = chars_of(s);
    let mut out: Vec<char> = Vec::new();
    let mut i: usize = 0;
    while i < chars.len()
        invariant
            chars@ == s@,
            0 <= i <= chars.len(),
            out@ =~= forward_slashes(s@).take(i as int),
        decreases chars.len() - i,
    {
        let c = chars[i];
        out.push(
            if c == '\\' {
                '/'
            } else {
                c
            },
        );
        i += 1;
    }
    string_of(&out)
}

/// The outcome of a Subfile statement:
/// `1 <color> x y z a b c d e f g h i <file>`, a reference to `file` placed
/// by the affine transformation with origin `(x, y, z)` and rows
/// `(a, b, c)`, `(d, e, f)`, `(g, h, i)`; the file's name is taken with
/// forward slashes, in lower case.
pub open spec fn subfile_outcome(f: Seq<Seq<char>>, r: Seq<RealField>) -> Outcome<SpecStatement> {
    match fields_eq_outcome(f.len() as usize, 15) {
        Err(e) => Err(e),
        Ok(_) => match color_ref_outcome(f[1]) {
            Err(e) => Err(e),
            Ok(color) => match reals_outcome(f, r, 2, 5) {
                Err(e) => Err(e),
                Ok(_) => match reals_outcome(f, r, 5, 14) {
                    Err(e) => Err(e),
                    Ok(_) => Ok(
                        SpecStatement::Subfile {
                            color,
                            matrix: (point_at(f, 2), point_at(f, 5), point_at(f, 8), point_at(f, 11)),
                            file: lowercase(forward_slashes(f[14])),
                        },
                    ),
                },
            },
        },
    }
}

/// A subfile reference is read exactly when it has 15 fields, the second a
/// color reference and the 12 after it reals; its color is that reference,
/// its placement has the origin `(x, y, z)` of fields 2 to 4 and the rows
/// `(a, b, c)`, `(d, e, f)`, `(g, h, i)` of fields 5 to 13, in order, and
/// its file is the last field, with forward slashes, in lower case.
pub proof fn law_subfile_fields(f: Seq<Seq<char>>, r: Seq<RealField>)
    requires
        f.len() <= usize::MAX,
    ensures
        (subfile_outcome(f, r) is Ok) <==> (f.len() == 15 && color_ref_outcome(f[1]) is Ok
            && reals_valid(r, 2, 14)),
        subfile_outcome(f, r) is Ok ==> subfile_outcome(f, r)->Ok_0 == (SpecStatement::Subfile {
            color: color_ref_outcome(f[1])->Ok_0,
            matrix: ((f[2], f[3], f[4]), (f[5], f[6], f[7]), (f[8], f[9], f[10]), (f[11], f[12], f[13])),
            file: lowercase(forward_slashes(f[14])),
        }),
{
    lemma_first_invalid_exact(r, 2, 5);
    lemma_first_invalid_exact(r, 5, 14);
    lemma_first_invalid_exact(r, 2, 14);
}

/// Parses a line containing a Subfile statement, given what std reads from
/// each field as a 64-bit float.
pub fn parse_subfile_statement(
    path: &str,
    line_number: u32,
    fields: Vec<&str>,
    readings: &Vec<RealField>,
) -> (res: ParseResult1<Statement>)
    requires
        readings_fit(fields@, readings@),
    ensures
        yields(res, path@, line_number, subfile_outcome(texts(fields@), readings@)),
{
    if let Err(e) = check_fields_eq(path, line_number, &fields, 15) {
        return Err(e);
    }
    assert(texts(fields@)[1] == fields@[1]@);
    assert(texts(fields@)[14] == fields@[14]@);
    let color = match parse_color_ref(path, line_number, fields[1]) {
        Err(e) => {
            return Err(e);
        },
        Ok(c) => c,
    };
    if let Err(e) = check_reals(path, line_number, &fields, readings, 2, 5) {
        return Err(e);
    }
    if let Err(e) = check_reals(path, line_number, &fields, readings, 5, 14) {
        return Err(e);
    }
    let matrix = Matrix {
        origin: point_from(&fields, 2),
        row_x: point_from(&fields, 5),
        row_y: point_from(&fields, 8),
        row_z: point_from(&fields, 11),
    };
    let slashed = to_forward_slashes(fields[14]);
    let file = to_lowercase(slashed.as_str());
    Ok(Statement::Subfile { color, matrix, file })
}

// ---------------------------------------------------------------------------
// Lines.
// ---------------------------------------------------------------------------

/// The outcome of a line of an LDraw file on line `line_number`: no
/// statement for a line without fields, else the statement of the type that
/// its first field gives. `None` for an unofficial file type with no field
/// after its keyword, whose reading runs past the end of the line.
#[verifier::opaque]
pub open spec fn line_outcome_at(line: Seq<char>, r: Seq<RealField>, line_number: u32) -> Option<
    Outcome<Option<SpecStatement>>,
> {
    let f = line_fields(line);
    if f.len() == 0 {
        Some(Ok(None))
    } else {
        match u8_outcome(f[0]) {
            Err(e) => Some(Err(e)),
            Ok(line_type) => {
                let o = if line_type == 0 {
                    meta_statement_outcome(f, r, line_number)
                } else if line_type == 1 {
                    Some(subfile_outcome(f, r))
                } else if line_type == 2 {
                    Some(line_outcome(f, r))
                } else if line_type == 3 {
                    Some(triangle_outcome(f, r))
                } else if line_type == 4 {
                    Some(quad_outcome(f, r))
                } else if line_type == 5 {
                    Some(optional_line_outcome(f, r))
                } else {
                    Some(Err(SpecParseErrorKind::InvalidLineType { line_type }))
                };
                match o {
                    None => None,
                    Some(Err(e)) => Some(Err(e)),
                    Some(Ok(s)) => Some(Ok(Some(s))),
                }
            },
        }
    }
}

/// Processes a line of an LDraw file, given what std reads from each of its
/// fields as a 64-bit float; `None` for an unofficial file type with no
/// field after its keyword, whose reading runs past the end of the line.
pub fn try_process_line(path: &str, line_number: u32, line: &str, readings: &Vec<RealField>) -> (res:
    Option<ParseResult1<Option<Statement>>>)
    requires
        readings@.len() == line_fields(line@).len(),
    ensures
        yields_or_aborts(res, path@, line_number, line_outcome_at(line@, readings@, line_number)),
{
    reveal(line_outcome_at);
    let owned_fields = split_fields(line);
    let fields = borrow_all(&owned_fields);
    assert(texts(fields@) == line_fields(line@));
    if fields.len() == 0 {
        return Some(Ok(None));
    }
    assert(texts(fields@)[0] == fields@[0]@);
    let line_type = match parse_u8(path, line_number, fields[0]) {
        Err(e) => {
            return Some(Err(e));
        },
        Ok(t) => t,
    };
    let res = if line_type == 0 {
        read_meta_statement(path, line_number, &fields, readings)
    } else if line_type == 1 {
        Some(parse_subfile_statement(path, line_number, fields, readings))
    } else if line_type == 2 {
        Some(parse_line_statement(path, line_number, fields, readings))
    } else if line_type == 3 {
        Some(parse_triangle_statement(path, line_number, fields, readings))
    } else if line_type == 4 {
        Some(parse_quad_statement(path, line_number, fields, readings))
    } else if line_type == 5 {
        Some(parse_optional_line_statement(path, line_number, fields, readings))
    } else {
        Some(Err(error_at_line(path, line_number, ParseErrorKind::InvalidLineType { line_type })))
    };
    match res {
        None => None,
        Some(Err(e)) => Some(Err(e)),
        Some(Ok(s)) => Some(Ok(Some(s))),
    }
}

/// Processes a line of an LDraw file, given what std reads from each of its
/// fields as a 64-bit float.
///
/// An unofficial file type with no field after its keyword has no
/// outcome; such lines are left out.
pub fn process_line(path: &str, line_number: u32, line: &str, readings: &Vec<RealField>) -> (res:
    ParseResult1<Option<Statement>>)
    requires
        readings@.len() == line_fields(line@).len(),
        line_outcome_at(line@, readings@, line_number) is Some,
    ensures
        yields(res, path@, line_number, line_outcome_at(line@, readings@, line_number)->Some_0),
{
    match try_process_line(path, line_number, line, readings) {
        Some(r) => r,
        None => vstd::pervasive::unreached(),
    }
}

// ---------------------------------------------------------------------------
// Files.
// ---------------------------------------------------------------------------

/// The text of a line as read with its line break: the characters before
/// its first carriage return or line feed.
pub open spec fn line_text(raw: Seq<char>) -> Seq<char>
    decreases raw.len(),
{
    if raw.len() == 0 || raw[0] == '\r' || raw[0] == '\n' {
        seq![]
    } else {
        seq![raw[0]] + line_text(raw.drop_first())
    }
}

/// The text of a line as read with its line break.
pub fn cut_line(raw: &str) -> (res: String)
    ensures
        res@ == line_text(raw@),
{
    let chars = chars_of(raw);
    let mut out: Vec<char> = Vec::new();
    let mut i: usize = 0;
    assert(chars@.skip(0) =~= chars@);
    while i < chars.len() && chars[i] != '\r' && chars[i] != '\n'
        invariant
            chars@ == raw@,
            0 <= i <= chars.len(),
            line_text(raw@) == out@ + line_text(chars@.skip(i as int)),
        decreases chars.len() - i,
    {
        let ghost rest = chars@.skip(i as int);
        assert(rest[0] == chars@[i as int]);
        assert(rest.drop_first() =~= chars@.skip(i + 1));
        let ghost before = out@;
        out.push(chars[i]);
        assert(before + (seq![chars@[i as int]] + line_text(rest.drop_first())) =~= out@ + line_text(
            chars@.skip(i + 1),
        ));
        i += 1;
    }
    assert(line_text(chars@.skip(i as int)) =~= Seq::<char>::empty());
    assert(out@ + Seq::<char>::empty() =~= out@);
    string_of(&out)
}

/// The fields of a line as read with its line break.
pub fn fields_of_raw_line(raw: &str) -> (res: Vec<String>)
    ensures
        res.deep_view() == line_fields(line_text(raw@)),
{
    let line = cut_line(raw);
    split_fields(line.as_str())
}

/// Whether there is a reading of each field of each line.
pub open spec fn readings_fit_lines(lines: Seq<String>, readings: Seq<Vec<RealField>>) -> bool {
    &&& lines.len() == readings.len()
    &&& forall|i: int|
        0 <= i < lines.len() ==> #[trigger] readings[i]@.len() == line_fields(line_text(lines[i]@)).len()
}

/// The statements and the errors of the first `n` lines, in order; `None`
/// when one of them has no outcome.
pub open spec fn lines_outcome(
    path: Seq<char>,
    lines: Seq<String>,
    readings: Seq<Vec<RealField>>,
    n: int,
) -> Option<(Seq<SpecStatement>, Seq<SpecParseError>)>
    decreases n,
{
    if n <= 0 {
        Some((seq![], seq![]))
    } else {
        match lines_outcome(path, lines, readings, n - 1) {
            None => None,
            Some((statements, errors)) => match line_outcome_at(
                line_text(lines[n - 1]@),
                readings[n - 1]@,
                n as u32,
            ) {
                None => None,
                Some(Ok(None)) => Some((statements, errors)),
                Some(Ok(Some(s))) => Some((statements.push(s), errors)),
                Some(Err(k)) => Some((statements, errors.push(error_at(path, n as u32, k)))),
            },
        }
    }
}

/// Once a line has no outcome, the lines up to any later one have none.
proof fn lemma_no_outcome_persists(
    path: Seq<char>,
    lines: Seq<String>,
    readings: Seq<Vec<RealField>>,
    i: int,
    n: int,
)
    requires
        0 <= i <= n,
        lines_outcome(path, lines, readings, i) is None,
    ensures
        lines_outcome(path, lines, readings, n) is None,
    decreases n - i,
{
    if i < n {
        lemma_no_outcome_persists(path, lines, readings, i, n - 1);
    }
}

/// The errors of loading the first `n` lines are each at the file's path
/// and at one of those lines, in the order of the lines, at most one per
/// line; there are no more statements than lines.
pub proof fn law_errors_in_line_order(
    path: Seq<char>,
    lines: Seq<String>,
    readings: Seq<Vec<RealField>>,
    n: int,
)
    requires
        0 <= n < u32::MAX,
        lines_outcome(path, lines, readings, n) is Some,
    ensures
        ({
            let (statements, errors) = lines_outcome(path, lines, readings, n)->0;
            &&& statements.len() <= n
            &&& errors.len() <= n
            &&& forall|i: int|
                0 <= i < errors.len() ==> (#[trigger] errors[i]).path == path && 1 <= errors[i].line_number <= n
            &&& forall|i: int, j: int|
                0 <= i < j < errors.len() ==> (#[trigger] errors[i]).line_number < (#[trigger] errors[j]).line_number
        }),
    decreases n,
{
    if n > 0 {
        law_errors_in_line_order(path, lines, readings, n - 1);
        let (statements, errors) = lines_outcome(path, lines, readings, n - 1)->0;
        let (s2, e2) = lines_outcome(path, lines, readings, n)->0;
        assert forall|i: int| 0 <= i < errors.len() implies #[trigger] e2[i] == errors[i] by {}
    }
}

/// The outcome of loading a file whose lines are `lines` (numbered from 1),
/// followed, if `read_error` holds a message, by a line that could not be
/// read: the statements of all the lines if no line gives an error, else
/// all the errors, in order.
pub open spec fn file_outcome(
    path: Seq<char>,
    lines: Seq<String>,
    readings: Seq<Vec<RealField>>,
    read_error: Option<Seq<char>>,
) -> Option<Result<Seq<SpecStatement>, Seq<SpecParseError>>> {
    match lines_outcome(path, lines, readings, lines.len() as int) {
        None => None,
        Some((statements, errors)) => {
            let all = match read_error {
                Some(m) => errors.push(
                    error_at(path, (lines.len() + 1) as u32, SpecParseErrorKind::CannotRead { message: m }),
                ),
                None => errors,
            };
            Some(
                if all.len() == 0 {
                    Ok(statements)
                } else {
                    Err(all)
                },
            )
        },
    }
}


/// Loading succeeds exactly when no line gives an error and every line
/// could be read; it then gives the statements of the lines, in order.
pub proof fn law_load_succeeds_without_errors(
    path: Seq<char>,
    lines: Seq<String>,
    readings: Seq<Vec<RealField>>,
    read_error: Option<Seq<char>>,
)
    requires
        lines_outcome(path, lines, readings, lines.len() as int) is Some,
    ensures
        ({
            let (statements, errors) = lines_outcome(path, lines, readings, lines.len() as int)->0;
            &&& file_outcome(path, lines, readings, read_error) is Some
            &&& (file_outcome(path, lines, readings, read_error)->0 is Ok) <==> (read_error is None
                && errors.len() == 0)
            &&& file_outcome(path, lines, readings, read_error)->0 is Ok ==> file_outcome(
                path,
                lines,
                readings,
                read_error,
            )->0->Ok_0 == statements
        }),
{
}

/// Loads an LDraw file from its lines, as read with their line breaks, and
/// from what std reads from each of their fields as a 64-bit float;
/// `read_error`, if any, is the message of the failure to read the line
/// after them. `None` when a line has no outcome (an unofficial file type
/// with no field after its keyword).
pub fn try_load_ldraw_lines(
    path: &str,
    lines: &Vec<String>,
    readings: &Vec<Vec<RealField>>,
    read_error: Option<String>,
) -> (res: Option<ParseResult<LDFile>>)
    requires
        readings_fit_lines(lines@, readings@),
        lines.len() < u32::MAX,
    ensures
        match res {
            None => file_outcome(path@, lines@, readings@, read_error.deep_view()) is None,
            Some(Ok(file)) => file_outcome(path@, lines@, readings@, read_error.deep_view()) == Some(
                Ok::<Seq<SpecStatement>, Seq<SpecParseError>>(file.deep_view()),
            ),
            Some(Err(errors)) => file_outcome(path@, lines@, readings@, read_error.deep_view())
                == Some(Err::<Seq<SpecStatement>, Seq<SpecParseError>>(errors.deep_view())),
        },
{
    let mut statements: Vec<Statement> = Vec::new();
    let mut errors: Vec<ParseError> = Vec::new();
    let mut i: usize = 0;
    while i < lines.len()
        invariant
            readings_fit_lines(lines@, readings@),
            lines.len() < u32::MAX,
            0 <= i <= lines.len(),
            lines_outcome(path@, lines@, readings@, i as int) == Some(
                (statements.deep_view(), errors.deep_view()),
            ),
        decreases lines.len() - i,
    {
        let line = cut_line(lines[i].as_str());
        let line_number = (i + 1) as u32;
        assert(readings@[i as int]@.len() == line_fields(line_text(lines@[i as int]@)).len());
        let ghost ss = statements.deep_view();
        let ghost es = errors.deep_view();
        match try_process_line(path, line_number, line.as_str(), &readings[i]) {
            None => {
                proof {
                    lemma_no_outcome_persists(path@, lines@, readings@, i + 1, lines.len() as int);
                }
                return None;
            },
            Some(Ok(None)) => {},
            Some(Ok(Some(s))) => {
                statements.push(s);
                assert(statements.deep_view() =~= ss.push(statements@.last().deep_view()));
            },
            Some(Err(e)) => {
                errors.push(e);
                assert(errors.deep_view() =~= es.push(errors@.last().deep_view()));
            },
        }
        i += 1;
    }
    if let Some(message) = read_error {
        let line_number = (lines.len() + 1) as u32;
        let ghost es = errors.deep_view();
        errors.push(error_at_line(path, line_number, ParseErrorKind::CannotRead { message }));
        assert(errors.deep_view() =~= es.push(errors@.last().deep_view()));
    }
    if errors.len() == 0 {
        Some(Ok(LDFile { statements }))
    } else {
        Some(Err(errors))
    }
}

} // verus!

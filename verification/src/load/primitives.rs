//! Loading of LDraw files: Primitives.
use vstd::prelude::*;

use crate::file::{SpecStatement, Statement};
use crate::load::base::{
    check_fields_eq, color_ref_outcome, fields_eq_outcome, map_result_monad, parse_color_ref,
    parse_real, real_outcome, yields, ParseResult1, RealField, SpecParseErrorKind,
};
use crate::load::meta::{readings_fit, Outcome};
use crate::text::{owned, texts};
use crate::types::{Line, Point, Quad, Real, SpecPoint, Triangle};

verus! {

/// The first field in `start..end` that std does not read as a 64-bit
/// float.
pub open spec fn first_invalid_real(r: Seq<RealField>, start: int, end: int) -> Option<int>
    decreases end - start,
{
    if start >= end {
        None
    } else if r[start] is Invalid {
        Some(start)
    } else {
        first_invalid_real(r, start + 1, end)
    }
}

/// The outcome of reading the fields in `start..end` as real numbers: the
/// error of the first one that is not one.
pub open spec fn reals_outcome(f: Seq<Seq<char>>, r: Seq<RealField>, start: int, end: int) -> Outcome<
    (),
> {
    match first_invalid_real(r, start, end) {
        Some(i) => Err(SpecParseErrorKind::InvalidReal { field: f[i], real_error: r[i]->Invalid_0 }),
        None => Ok(()),
    }
}

/// The point whose coordinates are the fields at `i`, `i + 1` and `i + 2`.
pub open spec fn point_at(f: Seq<Seq<char>>, i: int) -> SpecPoint {
    (f[i], f[i + 1], f[i + 2])
}

/// The first invalid field is `k` when the fields before it are valid and
/// it is not.
proof fn lemma_first_invalid_at(r: Seq<RealField>, start: int, end: int, k: int)
    requires
        start <= k < end,
        r[k] is Invalid,
        forall|j: int| start <= j < k ==> !(r[j] is Invalid),
    ensures
        first_invalid_real(r, start, end) == Some(k),
    decreases k - start,
{
    if start < k {
        lemma_first_invalid_at(r, start + 1, end, k);
    }
}

/// No field is invalid when none in the range is.
proof fn lemma_first_invalid_none(r: Seq<RealField>, start: int, end: int)
    requires
        forall|j: int| start <= j < end ==> !(r[j] is Invalid),
    ensures
        first_invalid_real(r, start, end) is None,
    decreases end - start,
{
    if start < end {
        lemma_first_invalid_none(r, start + 1, end);
    }
}

/// The first invalid field is in the range and invalid; there is none
/// exactly when every field in the range is valid.
pub proof fn lemma_first_invalid_exact(r: Seq<RealField>, start: int, end: int)
    ensures
        (first_invalid_real(r, start, end) is None) <==> (forall|j: int|
            start <= j < end ==> !(#[trigger] r[j] is Invalid)),
        first_invalid_real(r, start, end) matches Some(k) ==> start <= k < end && r[k] is Invalid,
    decreases end - start,
{
    if start < end {
        lemma_first_invalid_exact(r, start + 1, end);
        if !(r[start] is Invalid) {
            assert((forall|j: int| start + 1 <= j < end ==> !(#[trigger] r[j] is Invalid)) ==> (
            forall|j: int| start <= j < end ==> !(#[trigger] r[j] is Invalid)));
        }
    }
}

/// Checks that the fields in `start..end` are real numbers.
pub fn check_reals(
    path: &str,
    line_number: u32,
    fields: &Vec<&str>,
    readings: &Vec<RealField>,
    start: usize,
    end: usize,
) -> (res: ParseResult1<()>)
    requires
        readings_fit(fields@, readings@),
        start <= end <= fields.len(),
    ensures
        yields(
            res,
            path@,
            line_number,
            reals_outcome(texts(fields@), readings@, start as int, end as int),
        ),
{
    let ghost f = texts(fields@);
    let ghost r = readings@;
    let mut indices: Vec<usize> = Vec::new();
    let mut i: usize = start;
    while i < end
        invariant
            start <= i <= end,
            indices@.len() == i - start,
            forall|j: int| 0 <= j < indices@.len() ==> indices@[j] == start + j,
        decreases end - i,
    {
        indices.push(i);
        i += 1;
    }
    let read = |index: &usize| -> (res: ParseResult1<Real>)
        requires
            *index < fields.len(),
        ensures
            yields(
                res,
                path@,
                line_number,
                real_outcome(texts(fields@)[*index as int], readings@[*index as int]),
            ),
        {
            assert(texts(fields@)[*index as int] == fields@[*index as int]@);
            parse_real(path, line_number, fields[*index], readings[*index])
        };
    let res = map_result_monad(read, indices.as_slice());
    match res {
        Ok(outputs) => {
            assert forall|j: int| start <= j < end implies !(r[j] is Invalid) by {
                assert(indices@[j - start] == j);
                assert(call_ensures(read, (&indices@[j - start],), Ok::<Real, _>(outputs@[j - start])));
            }
            proof {
                lemma_first_invalid_none(r, start as int, end as int);
            }
            Ok(())
        },
        Err(e) => {
            let ghost (k, done) = choose|k: int, done: Seq<Real>|
                #[trigger] crate::load::base::fails_at(read, indices@, done, k, e);
            assert forall|j: int| start <= j < start + k implies !(r[j] is Invalid) by {
                assert(indices@[j - start] == j);
                assert(call_ensures(read, (&indices@[j - start],), Ok::<Real, _>(done[j - start])));
            }
            assert(indices@[k] == start + k);
            proof {
                lemma_first_invalid_at(r, start as int, end as int, start + k);
            }
            Err(e)
        },
    }
}

/// The point whose coordinates are the fields at `i`, `i + 1` and `i + 2`.
pub fn point_from(fields: &Vec<&str>, i: usize) -> (p: Point)
    requires
        i + 2 < fields.len(),
    ensures
        p.deep_view() == point_at(texts(fields@), i as int),
{
    Point {
        x: Real { text: owned(fields[i]) },
        y: Real { text: owned(fields[i + 1]) },
        z: Real { text: owned(fields[i + 2]) },
    }
}

/// The outcome of a Line statement: `2 <color> x1 y1 z1 x2 y2 z2`.
pub open spec fn line_outcome(f: Seq<Seq<char>>, r: Seq<RealField>) -> Outcome<SpecStatement> {
    match fields_eq_outcome(f.len() as usize, 8) {
        Err(e) => Err(e),
        Ok(_) => match color_ref_outcome(f[1]) {
            Err(e) => Err(e),
            Ok(color) => match reals_outcome(f, r, 2, 8) {
                Err(e) => Err(e),
                Ok(_) => Ok(SpecStatement::Line { color, line: (point_at(f, 2), point_at(f, 5)) }),
            },
        },
    }
}

/// The outcome of a Triangle statement:
/// `3 <color> x1 y1 z1 x2 y2 z2 x3 y3 z3`.
pub open spec fn triangle_outcome(f: Seq<Seq<char>>, r: Seq<RealField>) -> Outcome<SpecStatement> {
    match fields_eq_outcome(f.len() as usize, 11) {
        Err(e) => Err(e),
        Ok(_) => match color_ref_outcome(f[1]) {
            Err(e) => Err(e),
            Ok(color) => match reals_outcome(f, r, 2, 11) {
                Err(e) => Err(e),
                Ok(_) => Ok(
                    SpecStatement::Triangle {
                        color,
                        triangle: (point_at(f, 2), point_at(f, 5), point_at(f, 8)),
                    },
                ),
            },
        },
    }
}

/// The outcome of a Quad statement:
/// `4 <color> x1 y1 z1 x2 y2 z2 x3 y3 z3 x4 y4 z4`.
pub open spec fn quad_outcome(f: Seq<Seq<char>>, r: Seq<RealField>) -> Outcome<SpecStatement> {
    match fields_eq_outcome(f.len() as usize, 14) {
        Err(e) => Err(e),
        Ok(_) => match color_ref_outcome(f[1]) {
            Err(e) => Err(e),
            Ok(color) => match reals_outcome(f, r, 2, 14) {
                Err(e) => Err(e),
                Ok(_) => Ok(
                    SpecStatement::Quad {
                        color,
                        quad: (point_at(f, 2), point_at(f, 5), point_at(f, 8), point_at(f, 11)),
                    },
                ),
            },
        },
    }
}

/// The outcome of an OptionalLine statement:
/// `5 <color> x1 y1 z1 x2 y2 z2 x3 y3 z3 x4 y4 z4`, the line from the first
/// point to the second, controlled by the line from the third to the
/// fourth.
pub open spec fn optional_line_outcome(f: Seq<Seq<char>>, r: Seq<RealField>) -> Outcome<
    SpecStatement,
> {
    match fields_eq_outcome(f.len() as usize, 14) {
        Err(e) => Err(e),
        Ok(_) => match color_ref_outcome(f[1]) {
            Err(e) => Err(e),
            Ok(color) => match reals_outcome(f, r, 2, 14) {
                Err(e) => Err(e),
                Ok(_) => Ok(
                    SpecStatement::OptionalLine {
                        color,
                        line: (point_at(f, 2), point_at(f, 5)),
                        control_line: (point_at(f, 8), point_at(f, 11)),
                    },
                ),
            },
        },
    }
}

/// Parses a line containing a Line statement, given what std reads from each
/// field as a 64-bit float.
pub fn parse_line_statement(
    path: &str,
    line_number: u32,
    fields: Vec<&str>,
    readings: &Vec<RealField>,
) -> (res: ParseResult1<Statement>)
    requires
        readings_fit(fields@, readings@),
    ensures
        yields(res, path@, line_number, line_outcome(texts(fields@), readings@)),
{
    if let Err(e) = check_fields_eq(path, line_number, &fields, 8) {
        return Err(e);
    }
    assert(texts(fields@)[1] == fields@[1]@);
    let color = match parse_color_ref(path, line_number, fields[1]) {
        Err(e) => {
            return Err(e);
        },
        Ok(c) => c,
    };
    if let Err(e) = check_reals(path, line_number, &fields, readings, 2, 8) {
        return Err(e);
    }
    let a = point_from(&fields, 2);
    let b = point_from(&fields, 5);
    Ok(Statement::Line { color, line: Line { a, b } })
}

/// Parses a line containing a Triangle statement, given what std reads from
/// each field as a 64-bit float.
pub fn parse_triangle_statement(
    path: &str,
    line_number: u32,
    fields: Vec<&str>,
    readings: &Vec<RealField>,
) -> (res: ParseResult1<Statement>)
    requires
        readings_fit(fields@, readings@),
    ensures
        yields(res, path@, line_number, triangle_outcome(texts(fields@), readings@)),
{
    if let Err(e) = check_fields_eq(path, line_number, &fields, 11) {
        return Err(e);
    }
    assert(texts(fields@)[1] == fields@[1]@);
    let color = match parse_color_ref(path, line_number, fields[1]) {
        Err(e) => {
            return Err(e);
        },
        Ok(c) => c,
    };
    if let Err(e) = check_reals(path, line_number, &fields, readings, 2, 11) {
        return Err(e);
    }
    let a = point_from(&fields, 2);
    let b = point_from(&fields, 5);
    let c = point_from(&fields, 8);
    Ok(Statement::Triangle { color, triangle: Triangle { a, b, c } })
}

/// Parses a line containing a Quad statement, given what std reads from each
/// field as a 64-bit float.
pub fn parse_quad_statement(
    path: &str,
    line_number: u32,
    fields: Vec<&str>,
    readings: &Vec<RealField>,
) -> (res: ParseResult1<Statement>)
    requires
        readings_fit(fields@, readings@),
    ensures
        yields(res, path@, line_number, quad_outcome(texts(fields@), readings@)),
{
    if let Err(e) = check_fields_eq(path, line_number, &fields, 14) {
        return Err(e);
    }
    assert(texts(fields@)[1] == fields@[1]@);
    let color = match parse_color_ref(path, line_number, fields[1]) {
        Err(e) => {
            return Err(e);
        },
        Ok(c) => c,
    };
    if let Err(e) = check_reals(path, line_number, &fields, readings, 2, 14) {
        return Err(e);
    }
    let a = point_from(&fields, 2);
    let b = point_from(&fields, 5);
    let c = point_from(&fields, 8);
    let d = point_from(&fields, 11);
    Ok(Statement::Quad { color, quad: Quad { a, b, c, d } })
}

/// Parses a line containing an OptionalLine statement, given what std reads
/// from each field as a 64-bit float.
pub fn parse_optional_line_statement(
    path: &str,
    line_number: u32,
    fields: Vec<&str>,
    readings: &Vec<RealField>,
) -> (res: ParseResult1<Statement>)
    requires
        readings_fit(fields@, readings@),
    ensures
        yields(res, path@, line_number, optional_line_outcome(texts(fields@), readings@)),
{
    if let Err(e) = check_fields_eq(path, line_number, &fields, 14) {
        return Err(e);
    }
    assert(texts(fields@)[1] == fields@[1]@);
    let color = match parse_color_ref(path, line_number, fields[1]) {
        Err(e) => {
            return Err(e);
        },
        Ok(c) => c,
    };
    if let Err(e) = check_reals(path, line_number, &fields, readings, 2, 14) {
        return Err(e);
    }
    let a = point_from(&fields, 2);
    let b = point_from(&fields, 5);
    let c_a = point_from(&fields, 8);
    let c_b = point_from(&fields, 11);
    Ok(
        Statement::OptionalLine {
            color,
            line: Line { a, b },
            control_line: Line { a: c_a, b: c_b },
        },
    )
}


/// Whether every field in `start..end` reads as a 64-bit float.
pub open spec fn reals_valid(r: Seq<RealField>, start: int, end: int) -> bool {
    forall|j: int| start <= j < end ==> !(#[trigger] r[j] is Invalid)
}

/// A line statement is read exactly when it has 8 fields, the second a
/// color reference and the others reals; its color is that reference and
/// its two points are the coordinates in order, three by three.
pub proof fn law_line_fields(f: Seq<Seq<char>>, r: Seq<RealField>)
    requires
        f.len() <= usize::MAX,
    ensures
        (line_outcome(f, r) is Ok) <==> (f.len() == 8 && color_ref_outcome(f[1]) is Ok
            && reals_valid(r, 2, 8)),
        line_outcome(f, r) is Ok ==> line_outcome(f, r)->Ok_0 == (SpecStatement::Line {
            color: color_ref_outcome(f[1])->Ok_0,
            line: ((f[2], f[3], f[4]), (f[5], f[6], f[7])),
        }),
{
    lemma_first_invalid_exact(r, 2, 8);
}

/// A triangle statement is read exactly when it has 11 fields, the second
/// a color reference and the others reals; its color is that reference and
/// its three points are the coordinates in order, three by three.
pub proof fn law_triangle_fields(f: Seq<Seq<char>>, r: Seq<RealField>)
    requires
        f.len() <= usize::MAX,
    ensures
        (triangle_outcome(f, r) is Ok) <==> (f.len() == 11 && color_ref_outcome(f[1]) is Ok
            && reals_valid(r, 2, 11)),
        triangle_outcome(f, r) is Ok ==> triangle_outcome(f, r)->Ok_0 == (SpecStatement::Triangle {
            color: color_ref_outcome(f[1])->Ok_0,
            triangle: ((f[2], f[3], f[4]), (f[5], f[6], f[7]), (f[8], f[9], f[10])),
        }),
{
    lemma_first_invalid_exact(r, 2, 11);
}

/// A quad statement is read exactly when it has 14 fields, the second a
/// color reference and the others reals; its color is that reference and
/// its four points are the coordinates in order, three by three.
pub proof fn law_quad_fields(f: Seq<Seq<char>>, r: Seq<RealField>)
    requires
        f.len() <= usize::MAX,
    ensures
        (quad_outcome(f, r) is Ok) <==> (f.len() == 14 && color_ref_outcome(f[1]) is Ok
            && reals_valid(r, 2, 14)),
        quad_outcome(f, r) is Ok ==> quad_outcome(f, r)->Ok_0 == (SpecStatement::Quad {
            color: color_ref_outcome(f[1])->Ok_0,
            quad: ((f[2], f[3], f[4]), (f[5], f[6], f[7]), (f[8], f[9], f[10]), (f[11], f[12], f[13])),
        }),
{
    lemma_first_invalid_exact(r, 2, 14);
}

/// An optional line statement is read exactly when it has 14 fields, the
/// second a color reference and the others reals; its color is that
/// reference, its line joins the first two points and its control line the
/// last two, the points being the coordinates in order, three by three.
pub proof fn law_optional_line_fields(f: Seq<Seq<char>>, r: Seq<RealField>)
    requires
        f.len() <= usize::MAX,
    ensures
        (optional_line_outcome(f, r) is Ok) <==> (f.len() == 14 && color_ref_outcome(f[1]) is Ok
            && reals_valid(r, 2, 14)),
        optional_line_outcome(f, r) is Ok ==> optional_line_outcome(f, r)->Ok_0
            == (SpecStatement::OptionalLine {
            color: color_ref_outcome(f[1])->Ok_0,
            line: ((f[2], f[3], f[4]), (f[5], f[6], f[7])),
            control_line: ((f[8], f[9], f[10]), (f[11], f[12], f[13])),
        }),
{
    lemma_first_invalid_exact(r, 2, 14);
}
} // verus!

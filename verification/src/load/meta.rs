//! Loading of LDraw files: Meta statements.
use vstd::prelude::*;

use crate::file::{
    SpecStatement, Statement, BFCDeclaration, Contents, Date, FileType, HistoryEntry, HistoryEntryAuthor, Meta, Officiality,
    Qualifier, Release, SpecFileType, SpecHistoryEntry, SpecHistoryEntryAuthor, SpecMeta,
    UpdateTag,
};
use crate::load::base::{
    check_field_get, check_field_get_and, check_field_is, check_fields_eq, check_fields_ge,
    check_fields_le, color_ref_outcome, error_at, error_at_line, fields_eq_outcome,
    fields_ge_outcome, fields_le_outcome, parse_color_ref, parse_real, parse_rgb, parse_u16,
    parse_u8, real_outcome, rgb_outcome, u16_outcome, u8_outcome, yields, ParseErrorKind,
    ParseResult1, RealField, SpecParseErrorKind,
};
use crate::text::{
    chars_of, has_prefix, join_from, joined_from, owned, same_text, starts_with, string_of,
    is_white_space, strip_all_prefixes, strip_prefixes, texts, trim_chars, trim_end, trim_start,
    trimmed,
};
use crate::load::base::{accumulate_decimal, decimal_value, is_decimal_digit, unsigned_value, IntErrorKind};
use crate::types::{
    Color, Finish, Glitter, Material, Real, RotationSense, SpecColor, SpecFinish, SpecGlitter,
    SpecMaterial, SpecSpeckle, Speckle, RGB,
};

verus! {

/// An outcome of parsing: a value, or the kind of the error.
pub type Outcome<T> = Result<T, SpecParseErrorKind>;

/// `res` is the outcome `expected`, its error placed at `path` and
/// `line_number`; `None` stands for the inputs on which the reading has no
/// outcome: an unofficial file type with no field after its keyword
/// (`0 Unofficial` or `0 Un-official` alone), whose reading runs past the
/// end of the line.
pub open spec fn yields_or_aborts<T: DeepView>(
    res: Option<ParseResult1<T>>,
    path: Seq<char>,
    line_number: u32,
    expected: Option<Outcome<T::V>>,
) -> bool {
    match res {
        None => expected is None,
        Some(r) => expected is Some && yields(r, path, line_number, expected->Some_0),
    }
}

// ---------------------------------------------------------------------------
// Argument-less and full-line statements.
// ---------------------------------------------------------------------------

/// The outcome of an argument-less meta statement.
pub open spec fn argumentless_outcome(f: Seq<Seq<char>>, meta: SpecMeta) -> Outcome<SpecMeta> {
    match fields_eq_outcome(f.len() as usize, 2) {
        Err(k) => Err(k),
        Ok(_) => Ok(meta),
    }
}

/// The text of a full-line meta statement: its fields after the keyword,
/// joined with single spaces.
pub open spec fn full_line_outcome(f: Seq<Seq<char>>) -> Outcome<Seq<char>> {
    match fields_ge_outcome(f.len() as usize, 2) {
        Err(k) => Err(k),
        Ok(_) => Ok(joined_from(f, 2)),
    }
}

/// Parses a line containing an argument-less meta statement.
fn parse_meta_argumentless(path: &str, line_number: u32, fields: &Vec<&str>, meta: Meta) -> (res:
    ParseResult1<Meta>)
    ensures
        yields(res, path@, line_number, argumentless_outcome(texts(fields@), meta.deep_view())),
{
    match check_fields_eq(path, line_number, fields, 2) {
        Err(e) => Err(e),
        Ok(()) => Ok(meta),
    }
}

/// Parses the text of a line containing a full-line meta statement.
fn parse_meta_full_line(path: &str, line_number: u32, fields: &Vec<&str>) -> (res: ParseResult1<
    String,
>)
    ensures
        yields(res, path@, line_number, full_line_outcome(texts(fields@))),
{
    match check_fields_ge(path, line_number, fields, 2) {
        Err(e) => Err(e),
        Ok(()) => Ok(join_from(fields, 2)),
    }
}

// ---------------------------------------------------------------------------
// BFC.
// ---------------------------------------------------------------------------

/// The outcome of a BFC statement after its check on the number of fields:
/// `f[2]` is the declaration, and `f[3]`, when present, its argument.
pub open spec fn bfc_declaration(f: Seq<Seq<char>>) -> Outcome<BFCDeclaration> {
    let n = f.len() as usize;
    let k = f[2];
    if k == "NOCERTIFY"@ {
        match fields_eq_outcome(n, 3) {
            Err(e) => Err(e),
            Ok(_) => Ok(BFCDeclaration::NoCertify),
        }
    } else if k == "CERTIFY"@ {
        match fields_le_outcome(n, 4) {
            Err(e) => Err(e),
            Ok(_) => if n == 3 || f[3] == "CCW"@ {
                Ok(BFCDeclaration::Certify(RotationSense::CCW))
            } else if f[3] == "CW"@ {
                Ok(BFCDeclaration::Certify(RotationSense::CW))
            } else {
                Err(SpecParseErrorKind::InvalidRotationSense { field: f[3] })
            },
        }
    } else if k == "CW"@ || k == "CCW"@ {
        let sense = if k == "CW"@ {
            RotationSense::CW
        } else {
            RotationSense::CCW
        };
        match fields_le_outcome(n, 4) {
            Err(e) => Err(e),
            Ok(_) => if n == 3 {
                Ok(BFCDeclaration::Rotation(sense))
            } else if f[3] == "CLIP"@ {
                Ok(BFCDeclaration::Clip(Some(sense)))
            } else {
                Err(SpecParseErrorKind::InvalidBfc { text: joined_from(f, 2) })
            },
        }
    } else if k == "CLIP"@ {
        match fields_le_outcome(n, 4) {
            Err(e) => Err(e),
            Ok(_) => if n == 3 {
                Ok(BFCDeclaration::Clip(None))
            } else if f[3] == "CCW"@ {
                Ok(BFCDeclaration::Clip(Some(RotationSense::CCW)))
            } else if f[3] == "CW"@ {
                Ok(BFCDeclaration::Clip(Some(RotationSense::CW)))
            } else {
                Err(SpecParseErrorKind::InvalidRotationSense { field: f[3] })
            },
        }
    } else if k == "NOCLIP"@ {
        match fields_eq_outcome(n, 3) {
            Err(e) => Err(e),
            Ok(_) => Ok(BFCDeclaration::NoClip),
        }
    } else if k == "INVERTNEXT"@ {
        match fields_eq_outcome(n, 3) {
            Err(e) => Err(e),
            Ok(_) => Ok(BFCDeclaration::InvertNext),
        }
    } else {
        Err(SpecParseErrorKind::InvalidBfc { text: joined_from(f, 2) })
    }
}

/// The outcome of a BFC meta statement.
pub open spec fn bfc_outcome(f: Seq<Seq<char>>) -> Outcome<SpecMeta> {
    match fields_ge_outcome(f.len() as usize, 3) {
        Err(e) => Err(e),
        Ok(_) => match bfc_declaration(f) {
            Err(e) => Err(e),
            Ok(b) => Ok(SpecMeta::BFC(b)),
        },
    }
}

/// The BFC declarations: each keyword, with its optional argument, gives
/// its own declaration (a certification is counter-clockwise unless `CW`
/// follows it).
pub proof fn law_bfc_keywords(f: Seq<Seq<char>>)
    ensures
        f.len() == 3 && f[2] == "NOCERTIFY"@ ==> bfc_outcome(f) == Ok::<SpecMeta, SpecParseErrorKind>(SpecMeta::BFC(BFCDeclaration::NoCertify)),
        f.len() == 3 && f[2] == "CERTIFY"@ ==> bfc_outcome(f) == Ok::<SpecMeta, SpecParseErrorKind>(SpecMeta::BFC(BFCDeclaration::Certify(RotationSense::CCW))),
        f.len() == 4 && f[2] == "CERTIFY"@ && f[3] == "CCW"@ ==> bfc_outcome(f) == Ok::<SpecMeta, SpecParseErrorKind>(SpecMeta::BFC(BFCDeclaration::Certify(RotationSense::CCW))),
        f.len() == 4 && f[2] == "CERTIFY"@ && f[3] == "CW"@ ==> bfc_outcome(f) == Ok::<SpecMeta, SpecParseErrorKind>(SpecMeta::BFC(BFCDeclaration::Certify(RotationSense::CW))),
        f.len() == 3 && f[2] == "CW"@ ==> bfc_outcome(f) == Ok::<SpecMeta, SpecParseErrorKind>(SpecMeta::BFC(BFCDeclaration::Rotation(RotationSense::CW))),
        f.len() == 3 && f[2] == "CCW"@ ==> bfc_outcome(f) == Ok::<SpecMeta, SpecParseErrorKind>(SpecMeta::BFC(BFCDeclaration::Rotation(RotationSense::CCW))),
        f.len() == 4 && f[2] == "CW"@ && f[3] == "CLIP"@ ==> bfc_outcome(f) == Ok::<SpecMeta, SpecParseErrorKind>(SpecMeta::BFC(BFCDeclaration::Clip(Some(RotationSense::CW)))),
        f.len() == 4 && f[2] == "CCW"@ && f[3] == "CLIP"@ ==> bfc_outcome(f) == Ok::<SpecMeta, SpecParseErrorKind>(SpecMeta::BFC(BFCDeclaration::Clip(Some(RotationSense::CCW)))),
        f.len() == 3 && f[2] == "CLIP"@ ==> bfc_outcome(f) == Ok::<SpecMeta, SpecParseErrorKind>(SpecMeta::BFC(BFCDeclaration::Clip(None))),
        f.len() == 4 && f[2] == "CLIP"@ && f[3] == "CW"@ ==> bfc_outcome(f) == Ok::<SpecMeta, SpecParseErrorKind>(SpecMeta::BFC(BFCDeclaration::Clip(Some(RotationSense::CW)))),
        f.len() == 4 && f[2] == "CLIP"@ && f[3] == "CCW"@ ==> bfc_outcome(f) == Ok::<SpecMeta, SpecParseErrorKind>(SpecMeta::BFC(BFCDeclaration::Clip(Some(RotationSense::CCW)))),
        f.len() == 3 && f[2] == "NOCLIP"@ ==> bfc_outcome(f) == Ok::<SpecMeta, SpecParseErrorKind>(SpecMeta::BFC(BFCDeclaration::NoClip)),
        f.len() == 3 && f[2] == "INVERTNEXT"@ ==> bfc_outcome(f) == Ok::<SpecMeta, SpecParseErrorKind>(SpecMeta::BFC(BFCDeclaration::InvertNext)),
{
    reveal_strlit("NOCERTIFY");
    reveal_strlit("CERTIFY");
    reveal_strlit("CW");
    reveal_strlit("CCW");
    reveal_strlit("CLIP");
    reveal_strlit("NOCLIP");
    reveal_strlit("INVERTNEXT");
    assert("NOCERTIFY"@.len() == 9);
    assert("CERTIFY"@.len() == 7);
    assert("CW"@.len() == 2);
    assert("CCW"@.len() == 3);
    assert("CLIP"@.len() == 4);
    assert("NOCLIP"@.len() == 6);
    assert("INVERTNEXT"@.len() == 10);
}

/// Parses a line containing a BFC meta statement.
fn parse_meta_bfc(path: &str, line_number: u32, fields: &Vec<&str>) -> (res: ParseResult1<Meta>)
    ensures
        yields(res, path@, line_number, bfc_outcome(texts(fields@))),
{
    let ghost f = texts(fields@);
    if let Err(e) = check_fields_ge(path, line_number, fields, 3) {
        return Err(e);
    }
    let n = fields.len();
    let k = fields[2];
    assert(f[2] == k@);
    assert(n > 3 ==> f[3] == fields@[3]@);
    let bfc = if same_text(k, "NOCERTIFY") {
        if let Err(e) = check_fields_eq(path, line_number, fields, 3) {
            return Err(e);
        }
        BFCDeclaration::NoCertify
    } else if same_text(k, "CERTIFY") {
        if let Err(e) = check_fields_le(path, line_number, fields, 4) {
            return Err(e);
        }
        if n == 3 || same_text(fields[3], "CCW") {
            BFCDeclaration::Certify(RotationSense::CCW)
        } else if same_text(fields[3], "CW") {
            BFCDeclaration::Certify(RotationSense::CW)
        } else {
            return Err(
                error_at_line(
                    path,
                    line_number,
                    ParseErrorKind::InvalidRotationSense { field: owned(fields[3]) },
                ),
            );
        }
    } else if same_text(k, "CW") || same_text(k, "CCW") {
        let sense = if same_text(k, "CW") {
            RotationSense::CW
        } else {
            RotationSense::CCW
        };
        if let Err(e) = check_fields_le(path, line_number, fields, 4) {
            return Err(e);
        }
        if n == 3 {
            BFCDeclaration::Rotation(sense)
        } else if same_text(fields[3], "CLIP") {
            BFCDeclaration::Clip(Some(sense))
        } else {
            return Err(
                error_at_line(
                    path,
                    line_number,
                    ParseErrorKind::InvalidBfc { text: join_from(fields, 2) },
                ),
            );
        }
    } else if same_text(k, "CLIP") {
        if let Err(e) = check_fields_le(path, line_number, fields, 4) {
            return Err(e);
        }
        if n == 3 {
            BFCDeclaration::Clip(None)
        } else if same_text(fields[3], "CCW") {
            BFCDeclaration::Clip(Some(RotationSense::CCW))
        } else if same_text(fields[3], "CW") {
            BFCDeclaration::Clip(Some(RotationSense::CW))
        } else {
            return Err(
                error_at_line(
                    path,
                    line_number,
                    ParseErrorKind::InvalidRotationSense { field: owned(fields[3]) },
                ),
            );
        }
    } else if same_text(k, "NOCLIP") {
        if let Err(e) = check_fields_eq(path, line_number, fields, 3) {
            return Err(e);
        }
        BFCDeclaration::NoClip
    } else if same_text(k, "INVERTNEXT") {
        if let Err(e) = check_fields_eq(path, line_number, fields, 3) {
            return Err(e);
        }
        BFCDeclaration::InvertNext
    } else {
        return Err(
            error_at_line(
                path,
                line_number,
                ParseErrorKind::InvalidBfc { text: join_from(fields, 2) },
            ),
        );
    };
    Ok(Meta::BFC(bfc))
}

// ---------------------------------------------------------------------------
// Command lines and files.
// ---------------------------------------------------------------------------

/// The outcome of a !CMDLINE meta statement: its arguments.
pub open spec fn cmdline_outcome(f: Seq<Seq<char>>) -> Outcome<SpecMeta> {
    match fields_ge_outcome(f.len() as usize, 3) {
        Err(e) => Err(e),
        Ok(_) => Ok(SpecMeta::CmdLine(f.subrange(2, f.len() as int))),
    }
}

/// Parses a line containing a !CMDLINE meta statement.
fn parse_meta_cmdline(path: &str, line_number: u32, fields: &Vec<&str>) -> (res: ParseResult1<Meta>)
    ensures
        yields(res, path@, line_number, cmdline_outcome(texts(fields@))),
{
    if let Err(e) = check_fields_ge(path, line_number, fields, 3) {
        return Err(e);
    }
    let ghost f = texts(fields@);
    let mut args: Vec<String> = Vec::new();
    let mut i: usize = 2;
    while i < fields.len()
        invariant
            f == texts(fields@),
            2 <= i <= fields.len(),
            args.deep_view() =~= f.subrange(2, i as int),
        decreases fields.len() - i,
    {
        let a = owned(fields[i]);
        let ghost before = args.deep_view();
        args.push(a);
        assert(args.deep_view() =~= before.push(a@));
        i += 1;
    }
    Ok(Meta::CmdLine(args))
}

/// The outcome of a FILE meta statement: the file's name.
pub open spec fn file_outcome(f: Seq<Seq<char>>) -> Outcome<SpecMeta> {
    match fields_eq_outcome(f.len() as usize, 3) {
        Err(e) => Err(e),
        Ok(_) => Ok(SpecMeta::File(f[2])),
    }
}

/// Parses a line containing a FILE meta statement.
fn parse_meta_file(path: &str, line_number: u32, fields: &Vec<&str>) -> (res: ParseResult1<Meta>)
    ensures
        yields(res, path@, line_number, file_outcome(texts(fields@))),
{
    if let Err(e) = check_fields_eq(path, line_number, fields, 3) {
        return Err(e);
    }
    Ok(Meta::File(owned(fields[2])))
}

// ---------------------------------------------------------------------------
// Fields read by position.
// ---------------------------------------------------------------------------

/// Checks that the field at `i` is the keyword `kw`.
pub open spec fn keyword_at(f: Seq<Seq<char>>, i: int, kw: Seq<char>) -> Outcome<()> {
    if f.len() <= i {
        Err(SpecParseErrorKind::TooFewFields { found: f.len() as usize, expected: i as usize })
    } else if f[i] == kw {
        Ok(())
    } else {
        Err(SpecParseErrorKind::UnexpectedField { field: f[i], keyword: kw })
    }
}

/// Reads the field at `i` with `read`.
pub open spec fn value_at<T>(f: Seq<Seq<char>>, i: int, read: spec_fn(Seq<char>) -> Outcome<T>) -> Outcome<T> {
    if f.len() <= i {
        Err(SpecParseErrorKind::TooFewFields { found: f.len() as usize, expected: i as usize })
    } else {
        read(f[i])
    }
}

/// Reads the field at `i` as a real number, given what std reads from each
/// field as a 64-bit float.
pub open spec fn real_at(f: Seq<Seq<char>>, r: Seq<RealField>, i: int) -> Outcome<Seq<char>> {
    if f.len() <= i {
        Err(SpecParseErrorKind::TooFewFields { found: f.len() as usize, expected: i as usize })
    } else {
        real_outcome(f[i], r[i])
    }
}

/// Whether the readings of the fields are as many as the fields.
pub open spec fn readings_fit(fields: Seq<&str>, readings: Seq<RealField>) -> bool {
    fields.len() == readings.len()
}

/// Checks that the field at `i` is the keyword `kw`.
fn keyword_field(path: &str, line_number: u32, fields: &Vec<&str>, i: usize, kw: &str) -> (res:
    ParseResult1<()>)
    ensures
        yields(res, path@, line_number, keyword_at(texts(fields@), i as int, kw@)),
{
    let check = |p: &str, l: u32, field: &str| -> (r: ParseResult1<()>)
        ensures
            yields(
                r,
                p@,
                l,
                if field@ == kw@ {
                    Ok(())
                } else {
                    Err(SpecParseErrorKind::UnexpectedField { field: field@, keyword: kw@ })
                },
            ),
        { check_field_is(p, l, field, kw) };
    let r = check_field_get_and(path, line_number, fields, i, check);
    assert(i < fields.len() ==> texts(fields@)[i as int] == fields@[i as int]@);
    r
}

/// Reads the field at `i` as an 8-bit integer.
fn u8_field(path: &str, line_number: u32, fields: &Vec<&str>, i: usize) -> (res: ParseResult1<u8>)
    ensures
        yields(res, path@, line_number, value_at(texts(fields@), i as int, |s: Seq<char>| u8_outcome(s))),
{
    let r = check_field_get_and(path, line_number, fields, i, parse_u8);
    assert(i < fields.len() ==> texts(fields@)[i as int] == fields@[i as int]@);
    r
}

/// Reads the field at `i` as an RGB color.
fn rgb_field(path: &str, line_number: u32, fields: &Vec<&str>, i: usize) -> (res: ParseResult1<RGB>)
    ensures
        yields(res, path@, line_number, value_at(texts(fields@), i as int, |s: Seq<char>| rgb_outcome(s))),
{
    let r = check_field_get_and(path, line_number, fields, i, parse_rgb);
    assert(i < fields.len() ==> texts(fields@)[i as int] == fields@[i as int]@);
    r
}

/// Reads the field at `i` as a real number.
fn real_field(
    path: &str,
    line_number: u32,
    fields: &Vec<&str>,
    readings: &Vec<RealField>,
    i: usize,
) -> (res: ParseResult1<Real>)
    requires
        readings_fit(fields@, readings@),
    ensures
        yields(res, path@, line_number, real_at(texts(fields@), readings@, i as int)),
{
    if i >= fields.len() {
        return Err(
            error_at_line(
                path,
                line_number,
                ParseErrorKind::TooFewFields { found: fields.len(), expected: i },
            ),
        );
    }
    let reading = readings[i];
    let r = parse_real(path, line_number, fields[i], reading);
    assert(texts(fields@)[i as int] == fields@[i as int]@);
    r
}

// ---------------------------------------------------------------------------
// Colors.
// ---------------------------------------------------------------------------

/// Reads the optional `kw <value>` pair at `i`: no value when the line ends
/// at `i` or the field there is not `kw`, the error `missing` when `kw` ends
/// the line, else the 8-bit integer after `kw`; with the index after what
/// was read.
pub open spec fn optional_u8_outcome(
    f: Seq<Seq<char>>,
    i: usize,
    kw: Seq<char>,
    missing: SpecParseErrorKind,
) -> Outcome<(Option<u8>, usize)> {
    if i == f.len() || f[i as int] != kw {
        Ok((None, i))
    } else if i == f.len() - 1 {
        Err(missing)
    } else {
        match u8_outcome(f[i + 1]) {
            Err(e) => Err(e),
            Ok(v) => Ok((Some(v), (i + 2) as usize)),
        }
    }
}

/// Reads the optional `kw <value>` pair at `i`.
fn parse_optional_u8(
    path: &str,
    line_number: u32,
    fields: &Vec<&str>,
    i: usize,
    kw: &str,
    missing: ParseErrorKind,
) -> (res: ParseResult1<(Option<u8>, usize)>)
    requires
        i <= fields.len(),
    ensures
        yields(
            res,
            path@,
            line_number,
            optional_u8_outcome(texts(fields@), i, kw@, missing.deep_view()),
        ),
{
    let ghost f = texts(fields@);
    if i == fields.len() || !same_text(fields[i], kw) {
        Ok((None, i))
    } else if i == fields.len() - 1 {
        Err(error_at_line(path, line_number, missing))
    } else {
        assert(f[i + 1] == fields@[i + 1]@);
        match parse_u8(path, line_number, fields[i + 1]) {
            Err(e) => Err(e),
            Ok(v) => Ok((Some(v), i + 2)),
        }
    }
}

/// Reads a `kw <fraction>` pair at `i`: the fraction's text and the index
/// after it, or the error `out_of_range` of the fraction when its value is
/// outside [0.0, 1.0].
pub open spec fn fraction_outcome(
    f: Seq<Seq<char>>,
    r: Seq<RealField>,
    i: usize,
    kw: Seq<char>,
    out_of_range: spec_fn(Seq<char>) -> SpecParseErrorKind,
) -> Outcome<(Seq<char>, usize)> {
    match keyword_at(f, i as int, kw) {
        Err(e) => Err(e),
        Ok(_) => match real_at(f, r, i + 1) {
            Err(e) => Err(e),
            Ok(text) => if r[i + 1] == RealField::OutsideUnitRange {
                Err(out_of_range(text))
            } else {
                Ok((text, (i + 2) as usize))
            },
        },
    }
}

/// Reads a `FRACTION <fraction>` (or, with `vertical`, a
/// `VFRACTION <fraction>`) pair at `i`.
fn parse_fraction(
    path: &str,
    line_number: u32,
    fields: &Vec<&str>,
    readings: &Vec<RealField>,
    i: usize,
    vertical: bool,
) -> (res: ParseResult1<(Real, usize)>)
    requires
        readings_fit(fields@, readings@),
    ensures
        yields(
            res,
            path@,
            line_number,
            fraction_outcome(
                texts(fields@),
                readings@,
                i,
                if vertical {
                    "VFRACTION"@
                } else {
                    "FRACTION"@
                },
                if vertical {
                    |t: Seq<char>| SpecParseErrorKind::VFractionOutOfRange { field: t }
                } else {
                    |t: Seq<char>| SpecParseErrorKind::FractionOutOfRange { field: t }
                },
            ),
        ),
{
    let kw = if vertical {
        "VFRACTION"
    } else {
        "FRACTION"
    };
    assert(texts(fields@).len() == fields.len());
    if let Err(e) = keyword_field(path, line_number, fields, i, kw) {
        return Err(e);
    }
    assert(i < fields.len());
    let fraction = match real_field(path, line_number, fields, readings, i + 1) {
        Err(e) => {
            return Err(e);
        },
        Ok(x) => x,
    };
    assert(i + 1 < fields.len());
    if readings[i + 1] == RealField::OutsideUnitRange {
        let kind = if vertical {
            ParseErrorKind::VFractionOutOfRange { field: fraction.text }
        } else {
            ParseErrorKind::FractionOutOfRange { field: fraction.text }
        };
        return Err(error_at_line(path, line_number, kind));
    }
    Ok((fraction, i + 2))
}

/// Reads the size of a material at `i`: `SIZE <size>`, or
/// `MINSIZE <min> MAXSIZE <max>`; with the index after what was read.
pub open spec fn size_outcome(f: Seq<Seq<char>>, i: usize, material: Seq<char>) -> Outcome<
    ((u8, u8), usize),
> {
    if f.len() <= i {
        Err(SpecParseErrorKind::TooFewFields { found: f.len() as usize, expected: i })
    } else if f[i as int] == "SIZE"@ {
        match value_at(f, i + 1, |s: Seq<char>| u8_outcome(s)) {
            Err(e) => Err(e),
            Ok(size) => Ok(((size, size), (i + 2) as usize)),
        }
    } else if f[i as int] == "MINSIZE"@ {
        match value_at(f, i + 1, |s: Seq<char>| u8_outcome(s)) {
            Err(e) => Err(e),
            Ok(min) => match keyword_at(f, i + 2, "MAXSIZE"@) {
                Err(e) => Err(e),
                Ok(_) => match value_at(f, i + 3, |s: Seq<char>| u8_outcome(s)) {
                    Err(e) => Err(e),
                    Ok(max) => Ok(((min, max), (i + 4) as usize)),
                },
            },
        }
    } else {
        Err(SpecParseErrorKind::UnknownMaterialKeyword { keyword: f[i as int], material })
    }
}

/// Reads the size of the material `material` at `i`.
fn parse_size(path: &str, line_number: u32, fields: &Vec<&str>, i: usize, material: &str) -> (res:
    ParseResult1<((u8, u8), usize)>)
    ensures
        yields(res, path@, line_number, size_outcome(texts(fields@), i, material@)),
{
    let ghost f = texts(fields@);
    let size_kw = match check_field_get(path, line_number, fields, i) {
        Err(e) => {
            return Err(e);
        },
        Ok(kw) => kw,
    };
    assert(f[i as int] == size_kw@);
    if same_text(size_kw, "SIZE") {
        match u8_field(path, line_number, fields, i + 1) {
            Err(e) => Err(e),
            Ok(size) => Ok(((size, size), i + 2)),
        }
    } else if same_text(size_kw, "MINSIZE") {
        let min = match u8_field(path, line_number, fields, i + 1) {
            Err(e) => {
                return Err(e);
            },
            Ok(v) => v,
        };
        if let Err(e) = keyword_field(path, line_number, fields, i + 2, "MAXSIZE") {
            return Err(e);
        }
        match u8_field(path, line_number, fields, i + 3) {
            Err(e) => Err(e),
            Ok(max) => Ok(((min, max), i + 4)),
        }
    } else {
        Err(
            error_at_line(
                path,
                line_number,
                ParseErrorKind::UnknownMaterialKeyword {
                    keyword: owned(size_kw),
                    material: owned(material),
                },
            ),
        )
    }
}

/// The outcome of a material declaration that starts at `s`, after the
/// MATERIAL keyword: the material and the index after it.
pub open spec fn material_outcome(f: Seq<Seq<char>>, r: Seq<RealField>, s: usize) -> Outcome<
    (SpecMaterial, usize),
> {
    let n = f.len();
    if s == n {
        Err(SpecParseErrorKind::MaterialMissingArguments)
    } else if f[s as int] == "GLITTER"@ || f[s as int] == "SPECKLE"@ {
        let glitter = f[s as int] == "GLITTER"@;
        match keyword_at(f, s + 1, "VALUE"@) {
            Err(e) => Err(e),
            Ok(_) => match value_at(f, s + 2, |t: Seq<char>| rgb_outcome(t)) {
                Err(e) => Err(e),
                Ok(value) => match optional_u8_outcome(
                    f,
                    (s + 3) as usize,
                    "ALPHA"@,
                    SpecParseErrorKind::AlphaMissingArgument,
                ) {
                    Err(e) => Err(e),
                    Ok((alpha, i1)) => match optional_u8_outcome(
                        f,
                        i1,
                        "LUMINANCE"@,
                        SpecParseErrorKind::LuminanceMissingArgument,
                    ) {
                        Err(e) => Err(e),
                        Ok((luminance, i2)) => match fraction_outcome(
                            f,
                            r,
                            i2,
                            "FRACTION"@,
                            |t: Seq<char>| SpecParseErrorKind::FractionOutOfRange { field: t },
                        ) {
                            Err(e) => Err(e),
                            Ok((fraction, i3)) => {
                                let vertical = if glitter {
                                    fraction_outcome(
                                        f,
                                        r,
                                        i3,
                                        "VFRACTION"@,
                                        |t: Seq<char>|
                                            SpecParseErrorKind::VFractionOutOfRange { field: t },
                                    )
                                } else {
                                    Ok((Seq::<char>::empty(), i3))
                                };
                                match vertical {
                                    Err(e) => Err(e),
                                    Ok((v_fraction, i4)) => match size_outcome(f, i4, f[s as int]) {
                                        Err(e) => Err(e),
                                        Ok((size, i5)) => Ok(
                                            (
                                                if glitter {
                                                    SpecMaterial::Glitter(
                                                        SpecGlitter {
                                                            value,
                                                            alpha,
                                                            luminance,
                                                            fraction,
                                                            v_fraction,
                                                            size,
                                                        },
                                                    )
                                                } else {
                                                    SpecMaterial::Speckle(
                                                        SpecSpeckle {
                                                            value,
                                                            alpha,
                                                            luminance,
                                                            fraction,
                                                            size,
                                                        },
                                                    )
                                                },
                                                i5,
                                            ),
                                        ),
                                    },
                                }
                            },
                        },
                    },
                },
            },
        }
    } else {
        Ok((SpecMaterial::Unknown(f.subrange(s as int, n as int)), n as usize))
    }
}

/// The fields from `start` on, as owned strings.
fn owned_from(fields: &Vec<&str>, start: usize) -> (res: Vec<String>)
    requires
        start <= fields.len(),
    ensures
        res.deep_view() == texts(fields@).subrange(start as int, fields.len() as int),
{
    let ghost f = texts(fields@);
    let mut out: Vec<String> = Vec::new();
    let mut i: usize = start;
    while i < fields.len()
        invariant
            f == texts(fields@),
            start <= i <= fields.len(),
            out.deep_view() =~= f.subrange(start as int, i as int),
        decreases fields.len() - i,
    {
        let a = owned(fields[i]);
        let ghost before = out.deep_view();
        out.push(a);
        assert(out.deep_view() =~= before.push(a@));
        i += 1;
    }
    out
}

/// Parses a MATERIAL declaration at the end of a !COLOUR meta statement,
/// from `*index` on; `*index` ends after the declaration.
fn parse_color_material(
    path: &str,
    line_number: u32,
    fields: &Vec<&str>,
    readings: &Vec<RealField>,
    index: &mut usize,
) -> (res: ParseResult1<Material>)
    requires
        readings_fit(fields@, readings@),
        *old(index) <= fields.len(),
    ensures
        match res {
            Ok(m) => material_outcome(texts(fields@), readings@, *old(index)) == Ok::<
                (SpecMaterial, usize),
                SpecParseErrorKind,
            >((m.deep_view(), *final(index))),
            Err(e) => material_outcome(texts(fields@), readings@, *old(index)) matches Err(k)
                && e.deep_view() == error_at(path@, line_number, k),
        },
{
    let ghost f = texts(fields@);
    if *index == fields.len() {
        return Err(error_at_line(path, line_number, ParseErrorKind::MaterialMissingArguments));
    }
    let start_index = *index;
    let kind = fields[start_index];
    assert(f[start_index as int] == kind@);
    let glitter = same_text(kind, "GLITTER");
    if glitter || same_text(kind, "SPECKLE") {
        *index += 1;
        if let Err(e) = keyword_field(path, line_number, fields, *index, "VALUE") {
            return Err(e);
        }
        let value = match rgb_field(path, line_number, fields, *index + 1) {
            Err(e) => {
                return Err(e);
            },
            Ok(v) => v,
        };
        *index += 2;
        let (alpha, i1) = match parse_optional_u8(
            path,
            line_number,
            fields,
            *index,
            "ALPHA",
            ParseErrorKind::AlphaMissingArgument,
        ) {
            Err(e) => {
                return Err(e);
            },
            Ok(p) => p,
        };
        *index = i1;
        let (luminance, i2) = match parse_optional_u8(
            path,
            line_number,
            fields,
            *index,
            "LUMINANCE",
            ParseErrorKind::LuminanceMissingArgument,
        ) {
            Err(e) => {
                return Err(e);
            },
            Ok(p) => p,
        };
        *index = i2;
        let (fraction, i3) = match parse_fraction(path, line_number, fields, readings, *index, false) {
            Err(e) => {
                return Err(e);
            },
            Ok(p) => p,
        };
        *index = i3;
        let v_fraction = if glitter {
            let (v_fraction, i4) = match parse_fraction(
                path,
                line_number,
                fields,
                readings,
                *index,
                true,
            ) {
                Err(e) => {
                    return Err(e);
                },
                Ok(p) => p,
            };
            *index = i4;
            v_fraction
        } else {
            Real { text: String::new() }
        };
        let (size, i5) = match parse_size(path, line_number, fields, *index, kind) {
            Err(e) => {
                return Err(e);
            },
            Ok(p) => p,
        };
        *index = i5;
        if glitter {
            Ok(Material::Glitter(Glitter { value, alpha, luminance, fraction, v_fraction, size }))
        } else {
            Ok(Material::Speckle(Speckle { value, alpha, luminance, fraction, size }))
        }
    } else {
        let rest = owned_from(fields, start_index);
        *index = fields.len();
        Ok(Material::Unknown(rest))
    }
}

/// The optional finish of a !COLOUR statement at `i`, with the index after
/// it; a field there that is no finish keyword is left for the check on
/// unprocessed fields.
pub open spec fn finish_outcome(f: Seq<Seq<char>>, r: Seq<RealField>, i: usize) -> Outcome<
    (Option<SpecFinish>, usize),
> {
    if i == f.len() {
        Ok((None, i))
    } else if f[i as int] == "CHROME"@ {
        Ok((Some(SpecFinish::Chrome), (i + 1) as usize))
    } else if f[i as int] == "PEARLESCENT"@ {
        Ok((Some(SpecFinish::Pearlescent), (i + 1) as usize))
    } else if f[i as int] == "RUBBER"@ {
        Ok((Some(SpecFinish::Rubber), (i + 1) as usize))
    } else if f[i as int] == "MATE_METALLIC"@ {
        Ok((Some(SpecFinish::MatteMetallic), (i + 1) as usize))
    } else if f[i as int] == "METAL"@ {
        Ok((Some(SpecFinish::Metal), (i + 1) as usize))
    } else if f[i as int] == "MATERIAL"@ {
        match material_outcome(f, r, (i + 1) as usize) {
            Err(e) => Err(e),
            Ok((m, j)) => Ok((Some(SpecFinish::Material(m)), j)),
        }
    } else {
        Ok((None, i))
    }
}

/// The finishes of a color: each keyword gives its own finish, `MATERIAL`
/// the material declared after it; any other field (or the end of the
/// line) gives none.
pub proof fn law_finish_keywords(f: Seq<Seq<char>>, r: Seq<RealField>, i: usize)
    requires
        i <= f.len(),
    ensures
        i < f.len() && f[i as int] == "CHROME"@ ==> finish_outcome(f, r, i) == Ok::<(Option<SpecFinish>, usize), SpecParseErrorKind>((Some(SpecFinish::Chrome), (i + 1) as usize)),
        i < f.len() && f[i as int] == "PEARLESCENT"@ ==> finish_outcome(f, r, i) == Ok::<(Option<SpecFinish>, usize), SpecParseErrorKind>((Some(SpecFinish::Pearlescent), (i + 1) as usize)),
        i < f.len() && f[i as int] == "RUBBER"@ ==> finish_outcome(f, r, i) == Ok::<(Option<SpecFinish>, usize), SpecParseErrorKind>((Some(SpecFinish::Rubber), (i + 1) as usize)),
        i < f.len() && f[i as int] == "MATE_METALLIC"@ ==> finish_outcome(f, r, i) == Ok::<(Option<SpecFinish>, usize), SpecParseErrorKind>((Some(SpecFinish::MatteMetallic), (i + 1) as usize)),
        i < f.len() && f[i as int] == "METAL"@ ==> finish_outcome(f, r, i) == Ok::<(Option<SpecFinish>, usize), SpecParseErrorKind>((Some(SpecFinish::Metal), (i + 1) as usize)),
        i < f.len() && f[i as int] == "MATERIAL"@ ==> finish_outcome(f, r, i) == (match material_outcome(f, r, (i + 1) as usize) { Ok((m, j)) => Ok::<(Option<SpecFinish>, usize), SpecParseErrorKind>((Some(SpecFinish::Material(m)), j)), Err(e) => Err(e) }),
        (i == f.len() || (f[i as int] != "CHROME"@ && f[i as int] != "PEARLESCENT"@ && f[i as int] != "RUBBER"@ && f[i as int] != "MATE_METALLIC"@ && f[i as int] != "METAL"@ && f[i as int] != "MATERIAL"@)) ==> finish_outcome(f, r, i) == Ok::<(Option<SpecFinish>, usize), SpecParseErrorKind>((None, i)),
{
    reveal_strlit("CHROME");
    reveal_strlit("PEARLESCENT");
    reveal_strlit("RUBBER");
    reveal_strlit("MATE_METALLIC");
    reveal_strlit("METAL");
    reveal_strlit("MATERIAL");
    assert("CHROME"@.len() == 6);
    assert("PEARLESCENT"@.len() == 11);
    assert("RUBBER"@.len() == 6);
    assert("MATE_METALLIC"@.len() == 13);
    assert("METAL"@.len() == 5);
    assert("MATERIAL"@.len() == 8);
    assert("CHROME"@[0] == 'C');
    assert("RUBBER"@[0] == 'R');
}

/// Parses the optional finish of a !COLOUR statement at `i`.
fn parse_color_finish(
    path: &str,
    line_number: u32,
    fields: &Vec<&str>,
    readings: &Vec<RealField>,
    i: usize,
) -> (res: ParseResult1<(Option<Finish>, usize)>)
    requires
        readings_fit(fields@, readings@),
        i <= fields.len(),
    ensures
        yields(res, path@, line_number, finish_outcome(texts(fields@), readings@, i)),
{
    let ghost f = texts(fields@);
    if i == fields.len() {
        return Ok((None, i));
    }
    let kw = fields[i];
    assert(f[i as int] == kw@);
    if same_text(kw, "CHROME") {
        Ok((Some(Finish::Chrome), i + 1))
    } else if same_text(kw, "PEARLESCENT") {
        Ok((Some(Finish::Pearlescent), i + 1))
    } else if same_text(kw, "RUBBER") {
        Ok((Some(Finish::Rubber), i + 1))
    } else if same_text(kw, "MATE_METALLIC") {
        Ok((Some(Finish::MatteMetallic), i + 1))
    } else if same_text(kw, "METAL") {
        Ok((Some(Finish::Metal), i + 1))
    } else if same_text(kw, "MATERIAL") {
        let mut index = i + 1;
        match parse_color_material(path, line_number, fields, readings, &mut index) {
            Err(e) => Err(e),
            Ok(m) => Ok((Some(Finish::Material(m)), index)),
        }
    } else {
        Ok((None, i))
    }
}

/// The outcome of a !COLOUR meta statement:
/// `!COLOUR <name> CODE <code> VALUE <value> EDGE <edge>`, then optionally
/// `ALPHA <alpha>`, `LUMINANCE <luminance>` and a finish, and nothing more.
pub open spec fn color_outcome(f: Seq<Seq<char>>, r: Seq<RealField>) -> Outcome<SpecColor> {
    match fields_ge_outcome(f.len() as usize, 9) {
        Err(e) => Err(e),
        Ok(_) => if f[3] != "CODE"@ {
            Err(SpecParseErrorKind::UnexpectedField { field: f[3], keyword: "CODE"@ })
        } else {
            match u16_outcome(f[4]) {
                Err(e) => Err(e),
                Ok(code) => if f[5] != "VALUE"@ {
                    Err(SpecParseErrorKind::UnexpectedField { field: f[5], keyword: "VALUE"@ })
                } else {
                    match rgb_outcome(f[6]) {
                        Err(e) => Err(e),
                        Ok(value) => if f[7] != "EDGE"@ {
                            Err(
                                    SpecParseErrorKind::UnexpectedField {
                                        field: f[7],
                                        keyword: "EDGE"@,
                                    },
                                )
                        } else {
                            match color_ref_outcome(f[8]) {
                                Err(e) => Err(e),
                                Ok(edge) => match optional_u8_outcome(
                                    f,
                                    9,
                                    "ALPHA"@,
                                    SpecParseErrorKind::AlphaMissingArgument,
                                ) {
                                    Err(e) => Err(e),
                                    Ok((alpha, i1)) => match optional_u8_outcome(
                                        f,
                                        i1,
                                        "LUMINANCE"@,
                                        SpecParseErrorKind::LuminanceMissingArgument,
                                    ) {
                                        Err(e) => Err(e),
                                        Ok((luminance, i2)) => match finish_outcome(f, r, i2) {
                                            Err(e) => Err(e),
                                            Ok((finish, i3)) => if i3 < f.len() {
                                                Err(
                                                        SpecParseErrorKind::UnprocessedColorFields {
                                                            text: joined_from(f, i3 as int),
                                                        },
                                                    )
                                            } else {
                                                Ok(
                                                        SpecColor {
                                                            name: f[2],
                                                            code,
                                                            value,
                                                            edge,
                                                            alpha,
                                                            luminance,
                                                            finish,
                                                        },
                                                    )
                                            },
                                        },
                                    },
                                },
                            }
                        },
                    }
                },
            }
        },
    }
}

/// An optional `kw <value>` pair at `i`: no value when the line ends at
/// `i` or the field there is not `kw`; the missing-argument error only when
/// `kw` is the last field; else the 8-bit integer after `kw` (or its
/// error), reading going on two fields later.
pub proof fn law_optional_u8(f: Seq<Seq<char>>, i: usize, kw: Seq<char>, missing: SpecParseErrorKind)
    requires
        i <= f.len(),
    ensures
        (i == f.len() || f[i as int] != kw) ==> optional_u8_outcome(f, i, kw, missing) == Ok::<
            (Option<u8>, usize),
            SpecParseErrorKind,
        >((None, i)),
        (i + 1 == f.len() && f[i as int] == kw) ==> optional_u8_outcome(f, i, kw, missing) == Err::<
            (Option<u8>, usize),
            SpecParseErrorKind,
        >(missing),
        (i + 1 < f.len() && f[i as int] == kw && u8_outcome(f[i + 1]) is Ok) ==> optional_u8_outcome(
            f,
            i,
            kw,
            missing,
        ) == Ok::<(Option<u8>, usize), SpecParseErrorKind>(
            (Some(u8_outcome(f[i + 1])->Ok_0), (i + 2) as usize),
        ),
        (i + 1 < f.len() && f[i as int] == kw && u8_outcome(f[i + 1]) is Err) ==> optional_u8_outcome(
            f,
            i,
            kw,
            missing,
        ) == Err::<(Option<u8>, usize), SpecParseErrorKind>(u8_outcome(f[i + 1])->Err_0),
{
}

/// The errors of optional pairs: the missing-argument error comes only from
/// a keyword that is the last field; any other error is the integer's.
proof fn lemma_optional_u8_errors(f: Seq<Seq<char>>)
    ensures
        forall|i: usize, kw: Seq<char>, m: SpecParseErrorKind|
            #[trigger] optional_u8_outcome(f, i, kw, m) matches Err(e) ==> (e == m && f.len() > 0
                && f.last() == kw) || e is InvalidInteger,
{
}

/// The errors of a material: an ALPHA or LUMINANCE argument is missing only
/// where that keyword is the last field.
proof fn lemma_material_missing(f: Seq<Seq<char>>, r: Seq<RealField>, s: usize)
    ensures
        material_outcome(f, r, s) == Err::<(SpecMaterial, usize), SpecParseErrorKind>(
            SpecParseErrorKind::AlphaMissingArgument,
        ) ==> f.len() > 0 && f.last() == "ALPHA"@,
        material_outcome(f, r, s) == Err::<(SpecMaterial, usize), SpecParseErrorKind>(
            SpecParseErrorKind::LuminanceMissingArgument,
        ) ==> f.len() > 0 && f.last() == "LUMINANCE"@,
{
    lemma_optional_u8_errors(f);
}

/// In a !COLOUR line, an ALPHA or LUMINANCE argument is reported missing
/// only where that keyword ends the line. A color that is read has an alpha
/// exactly when ALPHA follows the edge, and a luminance exactly when
/// LUMINANCE follows them; each is the 8-bit integer after its keyword.
pub proof fn law_color_alpha_luminance(f: Seq<Seq<char>>, r: Seq<RealField>)
    requires
        f.len() <= usize::MAX,
    ensures
        color_outcome(f, r) == Err::<SpecColor, SpecParseErrorKind>(
            SpecParseErrorKind::AlphaMissingArgument,
        ) ==> f.len() > 0 && f.last() == "ALPHA"@,
        color_outcome(f, r) == Err::<SpecColor, SpecParseErrorKind>(
            SpecParseErrorKind::LuminanceMissingArgument,
        ) ==> f.len() > 0 && f.last() == "LUMINANCE"@,
        color_outcome(f, r) is Ok ==> {
            let c = color_outcome(f, r)->Ok_0;
            let j: int = if f.len() > 9 && f[9] == "ALPHA"@ {
                11
            } else {
                9
            };
            &&& (c.alpha is Some <==> (f.len() > 9 && f[9] == "ALPHA"@))
            &&& (c.alpha is Some ==> u8_outcome(f[10]) == Ok::<u8, SpecParseErrorKind>(c.alpha->0))
            &&& (c.luminance is Some <==> (f.len() > j && f[j] == "LUMINANCE"@))
            &&& (c.luminance is Some ==> u8_outcome(f[j + 1]) == Ok::<u8, SpecParseErrorKind>(
                c.luminance->0,
            ))
        },
{
    lemma_optional_u8_errors(f);
    if f.len() >= 9 {
        law_optional_u8(f, 9, "ALPHA"@, SpecParseErrorKind::AlphaMissingArgument);
        match optional_u8_outcome(f, 9, "ALPHA"@, SpecParseErrorKind::AlphaMissingArgument) {
            Ok((_, i1)) => {
                law_optional_u8(f, i1, "LUMINANCE"@, SpecParseErrorKind::LuminanceMissingArgument);
                match optional_u8_outcome(
                    f,
                    i1,
                    "LUMINANCE"@,
                    SpecParseErrorKind::LuminanceMissingArgument,
                ) {
                    Ok((_, i2)) => {
                        if i2 < f.len() && f[i2 as int] == "MATERIAL"@ {
                            lemma_material_missing(f, r, (i2 + 1) as usize);
                        }
                    },
                    Err(_) => {},
                }
            },
            Err(_) => {},
        }
    }
}

/// The outcome of a !COLOUR meta statement, as a meta statement.
pub open spec fn color_meta_outcome(f: Seq<Seq<char>>, r: Seq<RealField>) -> Outcome<SpecMeta> {
    match color_outcome(f, r) {
        Err(e) => Err(e),
        Ok(c) => Ok(SpecMeta::Color(c)),
    }
}

/// Parses a line containing a !COLOUR meta statement.
fn parse_meta_color(
    path: &str,
    line_number: u32,
    fields: &Vec<&str>,
    readings: &Vec<RealField>,
) -> (res: ParseResult1<Meta>)
    requires
        readings_fit(fields@, readings@),
    ensures
        yields(res, path@, line_number, color_meta_outcome(texts(fields@), readings@)),
{
    let ghost f = texts(fields@);
    if let Err(e) = check_fields_ge(path, line_number, fields, 9) {
        return Err(e);
    }
    assert(forall|i: int| 0 <= i < fields.len() ==> f[i] == #[trigger] fields@[i]@);
    let name = owned(fields[2]);
    if let Err(e) = check_field_is(path, line_number, fields[3], "CODE") {
        return Err(e);
    }
    let code = match parse_u16(path, line_number, fields[4]) {
        Err(e) => {
            return Err(e);
        },
        Ok(v) => v,
    };
    if let Err(e) = check_field_is(path, line_number, fields[5], "VALUE") {
        return Err(e);
    }
    let value = match parse_rgb(path, line_number, fields[6]) {
        Err(e) => {
            return Err(e);
        },
        Ok(v) => v,
    };
    if let Err(e) = check_field_is(path, line_number, fields[7], "EDGE") {
        return Err(e);
    }
    let edge = match parse_color_ref(path, line_number, fields[8]) {
        Err(e) => {
            return Err(e);
        },
        Ok(v) => v,
    };
    let (alpha, i1) = match parse_optional_u8(
        path,
        line_number,
        fields,
        9,
        "ALPHA",
        ParseErrorKind::AlphaMissingArgument,
    ) {
        Err(e) => {
            return Err(e);
        },
        Ok(p) => p,
    };
    let (luminance, i2) = match parse_optional_u8(
        path,
        line_number,
        fields,
        i1,
        "LUMINANCE",
        ParseErrorKind::LuminanceMissingArgument,
    ) {
        Err(e) => {
            return Err(e);
        },
        Ok(p) => p,
    };
    let (finish, index) = match parse_color_finish(path, line_number, fields, readings, i2) {
        Err(e) => {
            return Err(e);
        },
        Ok(p) => p,
    };
    if index < fields.len() {
        return Err(
                error_at_line(
                    path,
                    line_number,
                    ParseErrorKind::UnprocessedColorFields { text: join_from(fields, index) },
                ),
            );
    }
    Ok(Meta::Color(Color { name, code, value, edge, alpha, luminance, finish }))
}

// ---------------------------------------------------------------------------
// File types.
// ---------------------------------------------------------------------------

/// The content type that a text names.
pub open spec fn contents_named(s: Seq<char>) -> Option<Contents> {
    if s == "48_Primitive"@ {
        Some(Contents::Primitive48)
    } else if s == "8_Primitive"@ {
        Some(Contents::Primitive8)
    } else if s == "Alias"@ {
        Some(Contents::Alias)
    } else if s == "Configuration"@ {
        Some(Contents::Configuration)
    } else if s == "Cross-reference"@ {
        Some(Contents::CrossReference)
    } else if s == "Element"@ {
        Some(Contents::Element)
    } else if s == "File"@ {
        Some(Contents::File)
    } else if s == "Hi-Res Primitive"@ {
        Some(Contents::HiResPrimitive)
    } else if s == "Model"@ {
        Some(Contents::Model)
    } else if s == "Part"@ {
        Some(Contents::Part)
    } else if s == "Primitive"@ {
        Some(Contents::Primitive)
    } else if s == "Shortcut"@ {
        Some(Contents::Shortcut)
    } else if s == "Sub-part"@ {
        Some(Contents::SubPart)
    } else if s == "Submodel"@ {
        Some(Contents::Submodel)
    } else if s == "Subpart"@ {
        Some(Contents::Subpart)
    } else {
        None
    }
}

/// The content types of file type lines: each keyword names its own type,
/// as this table says, and no other text names one.
pub proof fn law_contents_table(s: Seq<char>)
    ensures
        contents_named("48_Primitive"@) == Some(Contents::Primitive48),
        contents_named("8_Primitive"@) == Some(Contents::Primitive8),
        contents_named("Alias"@) == Some(Contents::Alias),
        contents_named("Configuration"@) == Some(Contents::Configuration),
        contents_named("Cross-reference"@) == Some(Contents::CrossReference),
        contents_named("Element"@) == Some(Contents::Element),
        contents_named("File"@) == Some(Contents::File),
        contents_named("Hi-Res Primitive"@) == Some(Contents::HiResPrimitive),
        contents_named("Model"@) == Some(Contents::Model),
        contents_named("Part"@) == Some(Contents::Part),
        contents_named("Primitive"@) == Some(Contents::Primitive),
        contents_named("Shortcut"@) == Some(Contents::Shortcut),
        contents_named("Sub-part"@) == Some(Contents::SubPart),
        contents_named("Submodel"@) == Some(Contents::Submodel),
        contents_named("Subpart"@) == Some(Contents::Subpart),
        contents_named(s) is Some ==> {
            ||| s == "48_Primitive"@
            ||| s == "8_Primitive"@
            ||| s == "Alias"@
            ||| s == "Configuration"@
            ||| s == "Cross-reference"@
            ||| s == "Element"@
            ||| s == "File"@
            ||| s == "Hi-Res Primitive"@
            ||| s == "Model"@
            ||| s == "Part"@
            ||| s == "Primitive"@
            ||| s == "Shortcut"@
            ||| s == "Sub-part"@
            ||| s == "Submodel"@
            ||| s == "Subpart"@
        },
{
    reveal_strlit("48_Primitive");
    reveal_strlit("8_Primitive");
    reveal_strlit("Alias");
    reveal_strlit("Configuration");
    reveal_strlit("Cross-reference");
    reveal_strlit("Element");
    reveal_strlit("File");
    reveal_strlit("Hi-Res Primitive");
    reveal_strlit("Model");
    reveal_strlit("Part");
    reveal_strlit("Primitive");
    reveal_strlit("Shortcut");
    reveal_strlit("Sub-part");
    reveal_strlit("Submodel");
    reveal_strlit("Subpart");
    assert("48_Primitive"@.len() == 12);
    assert("8_Primitive"@.len() == 11);
    assert("Alias"@.len() == 5);
    assert("Configuration"@.len() == 13);
    assert("Cross-reference"@.len() == 15);
    assert("Element"@.len() == 7);
    assert("File"@.len() == 4);
    assert("Hi-Res Primitive"@.len() == 16);
    assert("Model"@.len() == 5);
    assert("Part"@.len() == 4);
    assert("Primitive"@.len() == 9);
    assert("Shortcut"@.len() == 8);
    assert("Sub-part"@.len() == 8);
    assert("Submodel"@.len() == 8);
    assert("Subpart"@.len() == 7);
    assert("Alias"@[0] == 'A');
    assert("Model"@[0] == 'M');
    assert("File"@[0] == 'F');
    assert("Part"@[0] == 'P');
    assert("Element"@[0] == 'E');
    assert("Subpart"@[0] == 'S');
    assert("Shortcut"@[1] == 'h');
    assert("Sub-part"@[1] == 'u');
    assert("Submodel"@[1] == 'u');
    assert("Sub-part"@[3] == '-');
    assert("Submodel"@[3] == 'm');
}

/// Two texts that name the same content type are the same keyword: no two
/// keywords share a type.
pub proof fn law_contents_distinct(a: Seq<char>, b: Seq<char>)
    ensures
        contents_named(a) is Some && contents_named(a) == contents_named(b) ==> a == b,
{
}

/// The content type that a text names.
fn find_contents(s: &str) -> (res: Option<Contents>)
    ensures
        res == contents_named(s@),
{
    if same_text(s, "48_Primitive") {
        Some(Contents::Primitive48)
    } else if same_text(s, "8_Primitive") {
        Some(Contents::Primitive8)
    } else if same_text(s, "Alias") {
        Some(Contents::Alias)
    } else if same_text(s, "Configuration") {
        Some(Contents::Configuration)
    } else if same_text(s, "Cross-reference") {
        Some(Contents::CrossReference)
    } else if same_text(s, "Element") {
        Some(Contents::Element)
    } else if same_text(s, "File") {
        Some(Contents::File)
    } else if same_text(s, "Hi-Res Primitive") {
        Some(Contents::HiResPrimitive)
    } else if same_text(s, "Model") {
        Some(Contents::Model)
    } else if same_text(s, "Part") {
        Some(Contents::Part)
    } else if same_text(s, "Primitive") {
        Some(Contents::Primitive)
    } else if same_text(s, "Shortcut") {
        Some(Contents::Shortcut)
    } else if same_text(s, "Sub-part") {
        Some(Contents::SubPart)
    } else if same_text(s, "Submodel") {
        Some(Contents::Submodel)
    } else if same_text(s, "Subpart") {
        Some(Contents::Subpart)
    } else {
        None
    }
}

/// Two digits, or two question marks (an unknown value).
pub open spec fn is_two_digit_part(a: char, b: char) -> bool {
    (is_decimal_digit(a) && is_decimal_digit(b)) || (a == '?' && b == '?')
}

/// The value of a two-character date part: none for `??`.
pub open spec fn two_digit_part(a: char, b: char) -> Option<u8> {
    if a == '?' {
        None
    } else {
        Some((decimal_value(a) * 10 + decimal_value(b)) as u8)
    }
}

/// Whether `t` starts with a date of the form `YYYY-MM`, the month being two
/// digits or `??`.
pub open spec fn has_year_month(t: Seq<char>) -> bool {
    &&& t.len() >= 7
    &&& is_decimal_digit(t[0]) && is_decimal_digit(t[1]) && is_decimal_digit(t[2])
        && is_decimal_digit(t[3])
    &&& t[4] == '-'
    &&& is_two_digit_part(t[5], t[6])
}

/// Whether the `YYYY-MM` date at the start of `t` goes on with a day `-DD`,
/// two digits or `??`.
pub open spec fn has_day(t: Seq<char>) -> bool {
    t.len() >= 10 && t[7] == '-' && is_two_digit_part(t[8], t[9])
}

/// The year of a `YYYY` prefix.
pub open spec fn year_of(t: Seq<char>) -> u16 {
    (decimal_value(t[0]) * 1000 + decimal_value(t[1]) * 100 + decimal_value(t[2]) * 10
        + decimal_value(t[3])) as u16
}

/// The outcome of reading an update tag: a text that starts with
/// `YYYY-MM-DD` (a date) or else with `YYYY-RR` (a release), where the
/// month, day and release may be `??`, except the release.
pub open spec fn update_tag_outcome(t: Seq<char>) -> Outcome<UpdateTag> {
    if !has_year_month(t) {
        Err(SpecParseErrorKind::InvalidUpdateTag { field: t })
    } else if has_day(t) {
        Ok(
            UpdateTag::Date(
                Date {
                    year: year_of(t),
                    month: two_digit_part(t[5], t[6]),
                    day: two_digit_part(t[8], t[9]),
                },
            ),
        )
    } else {
        match two_digit_part(t[5], t[6]) {
            Some(release) => Ok(UpdateTag::Release(Release { year: year_of(t), release })),
            None => Err(SpecParseErrorKind::UnknownRelease),
        }
    }
}

/// A two-character date part read as `x`: none exactly for `??`, else the
/// decimal number that the two characters write.
pub open spec fn date_part_read(x: Option<u8>, a: char, b: char) -> bool {
    &&& (x is None <==> (a == '?' && b == '?'))
    &&& (x matches Some(v) ==> unsigned_value(seq![a, b], 0xff) == Ok::<int, IntErrorKind>(v as int))
}

/// Two decimal digits read as the number they write.
proof fn lemma_two_digits(a: char, b: char)
    requires
        is_decimal_digit(a),
        is_decimal_digit(b),
    ensures
        unsigned_value(seq![a, b], 0xff) == Ok::<int, IntErrorKind>(
            decimal_value(a) * 10 + decimal_value(b),
        ),
{
    let s = seq![a, b];
    assert(s.drop_first() =~= seq![b]);
    assert(s.drop_first().drop_first() =~= Seq::<char>::empty());
    reveal_with_fuel(accumulate_decimal, 3);
}

/// Four decimal digits read as the year they write.
proof fn lemma_year(t: Seq<char>)
    requires
        t.len() >= 4,
        is_decimal_digit(t[0]) && is_decimal_digit(t[1]) && is_decimal_digit(t[2])
            && is_decimal_digit(t[3]),
    ensures
        unsigned_value(t.take(4), 0xffff) == Ok::<int, IntErrorKind>(year_of(t) as int),
{
    let s = t.take(4);
    assert(s.drop_first() =~= seq![t[1], t[2], t[3]]);
    assert(s.drop_first().drop_first() =~= seq![t[2], t[3]]);
    assert(s.drop_first().drop_first().drop_first() =~= seq![t[3]]);
    assert(s.drop_first().drop_first().drop_first().drop_first() =~= Seq::<char>::empty());
    reveal_with_fuel(accumulate_decimal, 5);
}

/// The date parts of `YYYY-MM` (and `-DD`) read back as written.
proof fn lemma_date_parts(t: Seq<char>)
    requires
        has_year_month(t),
    ensures
        unsigned_value(t.take(4), 0xffff) == Ok::<int, IntErrorKind>(year_of(t) as int),
        date_part_read(two_digit_part(t[5], t[6]), t[5], t[6]),
        has_day(t) ==> date_part_read(two_digit_part(t[8], t[9]), t[8], t[9]),
{
    lemma_year(t);
    if is_decimal_digit(t[5]) {
        lemma_two_digits(t[5], t[6]);
    }
    if has_day(t) && is_decimal_digit(t[8]) {
        lemma_two_digits(t[8], t[9]);
    }
}

/// An update tag is `YYYY-MM-DD` (a date) or `YYYY-RR` (a release) at the
/// start of the field: its year is the number the first four digits write,
/// its month, day or release the number the two characters in their place
/// write (`??` for none, which a release does not allow); a tag that goes
/// on with `-DD` is a date.
pub proof fn law_update_tag_fields(t: Seq<char>)
    ensures
        update_tag_outcome(t) matches Ok(UpdateTag::Date(d)) ==> {
            &&& t.len() >= 10 && t[4] == '-' && t[7] == '-'
            &&& unsigned_value(t.take(4), 0xffff) == Ok::<int, IntErrorKind>(d.year as int)
            &&& date_part_read(d.month, t[5], t[6])
            &&& date_part_read(d.day, t[8], t[9])
        },
        update_tag_outcome(t) matches Ok(UpdateTag::Release(r)) ==> {
            &&& t.len() >= 7 && t[4] == '-'
            &&& unsigned_value(t.take(4), 0xffff) == Ok::<int, IntErrorKind>(r.year as int)
            &&& unsigned_value(t.subrange(5, 7), 0xff) == Ok::<int, IntErrorKind>(r.release as int)
            &&& !has_day(t)
        },
        !(update_tag_outcome(t) matches Ok(UpdateTag::Original)),
{
    if has_year_month(t) {
        lemma_date_parts(t);
        assert(t.subrange(5, 7) =~= seq![t[5], t[6]]);
    }
}

/// Whether `c` is a decimal digit.
fn decimal_digit(c: char) -> (res: bool)
    ensures
        res == is_decimal_digit(c),
{
    '0' <= c && c <= '9'
}

/// The value of a decimal digit.
fn digit_value(c: char) -> (res: u16)
    requires
        is_decimal_digit(c),
    ensures
        res as int == decimal_value(c),
{
    ((c as u32) - ('0' as u32)) as u16
}

/// Whether the characters at `i` and `i + 1` are two digits or `??`.
fn two_digit_part_at(t: &Vec<char>, i: usize) -> (res: bool)
    requires
        i + 1 < t.len(),
    ensures
        res == is_two_digit_part(t@[i as int], t@[i + 1]),
{
    (decimal_digit(t[i]) && decimal_digit(t[i + 1])) || (t[i] == '?' && t[i + 1] == '?')
}

/// The value of the date part at `i`.
fn two_digit_part_value(t: &Vec<char>, i: usize) -> (res: Option<u8>)
    requires
        i + 1 < t.len(),
        is_two_digit_part(t@[i as int], t@[i + 1]),
    ensures
        res == two_digit_part(t@[i as int], t@[i + 1]),
{
    if t[i] == '?' {
        None
    } else {
        Some((digit_value(t[i]) * 10 + digit_value(t[i + 1])) as u8)
    }
}

/// Parses an update tag.
fn parse_update_tag(path: &str, line_number: u32, field: &str) -> (res: ParseResult1<UpdateTag>)
    ensures
        yields(res, path@, line_number, update_tag_outcome(field@)),
{
    let t = chars_of(field);
    let matched = t.len() >= 7 && decimal_digit(t[0]) && decimal_digit(t[1]) && decimal_digit(t[2])
        && decimal_digit(t[3]) && t[4] == '-' && two_digit_part_at(&t, 5);
    if !matched {
        return Err(
            error_at_line(
                path,
                line_number,
                ParseErrorKind::InvalidUpdateTag { field: owned(field) },
            ),
        );
    }
    let year: u16 = digit_value(t[0]) * 1000 + digit_value(t[1]) * 100 + digit_value(t[2]) * 10
        + digit_value(t[3]);
    let month = two_digit_part_value(&t, 5);
    if t.len() >= 10 && t[7] == '-' && two_digit_part_at(&t, 8) {
        let day = two_digit_part_value(&t, 8);
        Ok(UpdateTag::Date(Date { year, month, day }))
    } else {
        match month {
            Some(release) => Ok(UpdateTag::Release(Release { year, release })),
            None => Err(error_at_line(path, line_number, ParseErrorKind::UnknownRelease)),
        }
    }
}

/// The qualifiers from `i` on: the longest run of `Alias` and
/// `Physical_Colour` fields, and the index after it.
pub open spec fn qualifiers_from(f: Seq<Seq<char>>, i: int) -> (Seq<Qualifier>, int)
    decreases f.len() - i,
{
    if i >= f.len() {
        (seq![], i)
    } else if f[i] == "Alias"@ {
        let (q, j) = qualifiers_from(f, i + 1);
        (seq![Qualifier::Alias] + q, j)
    } else if f[i] == "Physical_Colour"@ {
        let (q, j) = qualifiers_from(f, i + 1);
        (seq![Qualifier::PhysicalColor] + q, j)
    } else {
        (seq![], i)
    }
}

/// The officiality that the keyword `f[1]` gives, and the index of the
/// field after it (the keyword `Official` is followed by `LCAD`).
pub open spec fn officiality_outcome(f: Seq<Seq<char>>) -> Outcome<(Officiality, usize)> {
    if f[1] == "!LDRAW_ORG"@ || f[1] == "LDRAW_ORG"@ {
        Ok((Officiality::LDrawOfficial, 2))
    } else if f[1] == "Unofficial"@ || f[1] == "Un-official"@ {
        Ok((Officiality::Unofficial, 2))
    } else {
        match keyword_at(f, 2, "LCAD"@) {
            Err(e) => Err(e),
            Ok(_) => Ok((Officiality::LDrawOfficial, 3)),
        }
    }
}

/// The content type at `i` (none when the line ends at `i`, which an
/// official file type does not allow); a content type with the prefix
/// `Unofficial_` makes the file unofficial.
pub open spec fn contents_outcome(f: Seq<Seq<char>>, i: int, off: Officiality) -> Outcome<
    (Option<Contents>, Officiality),
> {
    if i == f.len() {
        if off == Officiality::LDrawOfficial {
            Err(SpecParseErrorKind::MissingContents)
        } else {
            Ok((None, off))
        }
    } else if has_prefix(f[i], "Unofficial_"@) {
        match contents_named(strip_prefixes(f[i], "Unofficial_"@)) {
            Some(c) => Ok((Some(c), Officiality::Unofficial)),
            None => Err(SpecParseErrorKind::InvalidContents { field: f[i] }),
        }
    } else {
        match contents_named(f[i]) {
            Some(c) => Ok((Some(c), off)),
            None => Err(SpecParseErrorKind::InvalidContents { field: f[i] }),
        }
    }
}

/// The update tag at `i` (none when the line ends there or the field there
/// is no tag keyword, which an official file type does not allow), and the
/// index after it.
pub open spec fn update_outcome(f: Seq<Seq<char>>, i: int, off: Officiality) -> Outcome<
    (Option<UpdateTag>, int),
> {
    if i == f.len() {
        if off == Officiality::LDrawOfficial {
            Err(SpecParseErrorKind::MissingUpdateTag)
        } else {
            Ok((None, i))
        }
    } else if f[i] == "ORIGINAL"@ {
        Ok((Some(UpdateTag::Original), i + 1))
    } else if f[i] == "UPDATE"@ {
        if i + 1 == f.len() {
            Err(SpecParseErrorKind::UpdateMissingArgument)
        } else {
            match update_tag_outcome(f[i + 1]) {
                Err(e) => Err(e),
                Ok(t) => Ok((Some(t), i + 2)),
            }
        }
    } else if off == Officiality::LDrawOfficial {
        Err(SpecParseErrorKind::UnexpectedUpdateTag { field: f[i] })
    } else {
        Ok((None, i))
    }
}

/// The qualifiers of a file type: a run of `Alias` and `Physical_Colour`
/// fields from `i`, each giving its own qualifier in order; the run ends at
/// the first other field (or the end of the line).
pub proof fn law_qualifiers(f: Seq<Seq<char>>, i: int)
    requires
        0 <= i,
    ensures
        ({
            let (q, j) = qualifiers_from(f, i);
            &&& j == i + q.len()
            &&& forall|k: int|
                0 <= k < q.len() ==> (f[i + k] == "Alias"@ && #[trigger] q[k] == Qualifier::Alias) || (
                f[i + k] == "Physical_Colour"@ && q[k] == Qualifier::PhysicalColor)
            &&& j < f.len() ==> f[j] != "Alias"@ && f[j] != "Physical_Colour"@
        }),
    decreases f.len() - i,
{
    if i < f.len() && (f[i] == "Alias"@ || f[i] == "Physical_Colour"@) {
        law_qualifiers(f, i + 1);
        let (rest, j) = qualifiers_from(f, i + 1);
        let (q, j2) = qualifiers_from(f, i);
        assert forall|k: int| 0 <= k < q.len() implies (f[i + k] == "Alias"@ && #[trigger] q[k]
            == Qualifier::Alias) || (f[i + k] == "Physical_Colour"@ && q[k]
            == Qualifier::PhysicalColor) by {
            if k > 0 {
                assert(q[k] == rest[k - 1]);
                assert(i + 1 + (k - 1) == i + k);
            }
        }
    }
}

/// The officiality of a file type: unofficial for the keywords
/// `Unofficial` and `Un-official` and for a content type with the prefix
/// `Unofficial_`, official otherwise; the content type is the one its
/// field names (without that prefix), the field being the one after the
/// keyword (after `Official LCAD` for `Official`).
pub proof fn law_file_type_officiality(f: Seq<Seq<char>>)
    requires
        2 <= f.len() <= usize::MAX,
        f[1] == "!LDRAW_ORG"@ || f[1] == "LDRAW_ORG"@ || f[1] == "Official"@ || f[1] == "Unofficial"@
            || f[1] == "Un-official"@,
    ensures
        file_type_outcome(f) matches Some(Ok(SpecMeta::FileType(t))) ==> {
            let c: int = if f[1] == "Official"@ {
                3
            } else {
                2
            };
            let prefixed = c < f.len() && has_prefix(f[c], "Unofficial_"@);
            &&& t.officiality == (if f[1] == "Unofficial"@ || f[1] == "Un-official"@ || prefixed {
                Officiality::Unofficial
            } else {
                Officiality::LDrawOfficial
            })
            &&& t.contents == (if c < f.len() {
                contents_named(
                    if prefixed {
                        strip_prefixes(f[c], "Unofficial_"@)
                    } else {
                        f[c]
                    },
                )
            } else {
                None
            })
        },
{
    reveal_strlit("!LDRAW_ORG");
    reveal_strlit("LDRAW_ORG");
    reveal_strlit("Official");
    reveal_strlit("Unofficial");
    reveal_strlit("Un-official");
    assert("!LDRAW_ORG"@.len() == 10);
    assert("LDRAW_ORG"@.len() == 9);
    assert("Official"@.len() == 8);
    assert("Unofficial"@.len() == 10);
    assert("Un-official"@.len() == 11);
    assert("!LDRAW_ORG"@[0] == '!');
    assert("Unofficial"@[0] == 'U');
}

/// The outcome of a file type meta statement (the keywords `!LDRAW_ORG`,
/// `LDRAW_ORG`, `Official`, `Unofficial` and `Un-official`): officiality,
/// content type, qualifiers and update tag; an official file type allows
/// nothing after them.
pub open spec fn file_type_outcome(f: Seq<Seq<char>>) -> Option<Outcome<SpecMeta>> {
    match officiality_outcome(f) {
        Err(e) => Some(Err(e)),
        Ok((off0, i0)) => match contents_outcome(f, i0 as int, off0) {
            Err(e) => Some(Err(e)),
            Ok((contents, off)) => {
                let i1 = i0 + 1;
                if i1 > f.len() {
                    None
                } else {
                    let (qualifiers, i2) = qualifiers_from(f, i1);
                    match update_outcome(f, i2, off) {
                        Err(e) => Some(Err(e)),
                        Ok((update_tag, i3)) => if off == Officiality::LDrawOfficial && i3
                            < f.len() {
                            Some(
                                Err(
                                    SpecParseErrorKind::UnprocessedFileTypeFields {
                                        text: joined_from(f, i3),
                                        keyword: f[1],
                                    },
                                ),
                            )
                        } else {
                            Some(
                                Ok(
                                    SpecMeta::FileType(
                                        SpecFileType {
                                            officiality: off,
                                            contents,
                                            qualifiers,
                                            update_tag,
                                        },
                                    ),
                                ),
                            )
                        },
                    }
                }
            },
        },
    }
}

/// Parses a line containing a file type meta statement.
fn parse_meta_file_type(path: &str, line_number: u32, fields: &Vec<&str>) -> (res: Option<
    ParseResult1<Meta>,
>)
    requires
        fields.len() >= 2,
    ensures
        yields_or_aborts(res, path@, line_number, file_type_outcome(texts(fields@))),
{
    let ghost f = texts(fields@);
    assert(forall|i: int| 0 <= i < fields.len() ==> f[i] == #[trigger] fields@[i]@);
    let n = fields.len();
    // Parse officiality.
    let (mut officiality, mut index) = if same_text(fields[1], "!LDRAW_ORG") || same_text(
        fields[1],
        "LDRAW_ORG",
    ) {
        (Officiality::LDrawOfficial, 2)
    } else if same_text(fields[1], "Unofficial") || same_text(fields[1], "Un-official") {
        (Officiality::Unofficial, 2)
    } else {
        if let Err(e) = keyword_field(path, line_number, fields, 2, "LCAD") {
            return Some(Err(e));
        }
        (Officiality::LDrawOfficial, 3)
    };
    // Parse contents.
    let contents: Option<Contents> = if index == n {
        if officiality == Officiality::LDrawOfficial {
            return Some(Err(error_at_line(path, line_number, ParseErrorKind::MissingContents)));
        }
        None
    } else {
        let field = chars_of(fields[index]);
        let prefix = chars_of("Unofficial_");
        let name = if starts_with(&field, &prefix) {
            officiality = Officiality::Unofficial;
            string_of(&strip_all_prefixes(&field, &prefix))
        } else {
            owned(fields[index])
        };
        match find_contents(name.as_str()) {
            Some(c) => Some(c),
            None => {
                return Some(
                    Err(
                        error_at_line(
                            path,
                            line_number,
                            ParseErrorKind::InvalidContents { field: owned(fields[index]) },
                        ),
                    ),
                );
            },
        }
    };
    index += 1;
    if index > n {
        return None;
    }
    // Parse qualifiers.
    let ghost start = index as int;
    let mut qualifiers: Vec<Qualifier> = Vec::new();
    assert(qualifiers@ + qualifiers_from(f, index as int).0 =~= qualifiers_from(f, start).0);
    while index < n
        invariant
            f == texts(fields@),
            n == fields.len(),
            start <= index <= n,
            forall|i: int| 0 <= i < fields.len() ==> f[i] == #[trigger] fields@[i]@,
            qualifiers_from(f, start) == (
                qualifiers@ + qualifiers_from(f, index as int).0,
                qualifiers_from(f, index as int).1,
            ),
        ensures
            start <= index <= n,
            qualifiers_from(f, index as int) == (Seq::<Qualifier>::empty(), index as int),
            qualifiers_from(f, start) == (
                qualifiers@ + qualifiers_from(f, index as int).0,
                qualifiers_from(f, index as int).1,
            ),
        decreases n - index,
    {
        if same_text(fields[index], "Alias") {
            qualifiers.push(Qualifier::Alias);
        } else if same_text(fields[index], "Physical_Colour") {
            qualifiers.push(Qualifier::PhysicalColor);
        } else {
            break;
        }
        let ghost q = qualifiers_from(f, index + 1);
        assert(qualifiers_from(f, index as int).0 == seq![qualifiers@.last()] + q.0);
        assert(qualifiers@ + q.0 =~= qualifiers@.drop_last() + (seq![qualifiers@.last()] + q.0));
        index += 1;
    }
    // Parse update tag.
    assert(qualifiers_from(f, index as int).1 == index as int);
    let update_tag = if index == n {
        if officiality == Officiality::LDrawOfficial {
            return Some(Err(error_at_line(path, line_number, ParseErrorKind::MissingUpdateTag)));
        }
        None
    } else if same_text(fields[index], "ORIGINAL") {
        index += 1;
        Some(UpdateTag::Original)
    } else if same_text(fields[index], "UPDATE") {
        index += 1;
        if index == n {
            return Some(
                Err(error_at_line(path, line_number, ParseErrorKind::UpdateMissingArgument)),
            );
        }
        index += 1;
        match parse_update_tag(path, line_number, fields[index - 1]) {
            Err(e) => {
                return Some(Err(e));
            },
            Ok(t) => Some(t),
        }
    } else {
        if officiality == Officiality::LDrawOfficial {
            return Some(
                Err(
                    error_at_line(
                        path,
                        line_number,
                        ParseErrorKind::UnexpectedUpdateTag { field: owned(fields[index]) },
                    ),
                ),
            );
        }
        None
    };
    // Report unprocessed fields.
    if officiality == Officiality::LDrawOfficial && index < n {
        return Some(
            Err(
                error_at_line(
                    path,
                    line_number,
                    ParseErrorKind::UnprocessedFileTypeFields {
                        text: join_from(fields, index),
                        keyword: owned(fields[1]),
                    },
                ),
            ),
        );
    }
    Some(Ok(Meta::FileType(FileType { officiality, contents, qualifiers, update_tag })))
}

// ---------------------------------------------------------------------------
// History entries.
// ---------------------------------------------------------------------------

/// The largest `q` in `1..=p` where `s` holds `close` followed by a space.
pub open spec fn last_close_until(s: Seq<char>, close: char, p: int) -> Option<int>
    decreases p,
{
    if p < 1 {
        None
    } else if s[p] == close && s[p + 1] == ' ' {
        Some(p)
    } else {
        last_close_until(s, close, p - 1)
    }
}

/// Whether `t` starts with `YYYY-MM-DD ` followed by `[` or `{`, the month
/// and day being two digits or `??`.
pub open spec fn has_history_date(t: Seq<char>) -> bool {
    &&& t.len() >= 12
    &&& has_year_month(t)
    &&& t[7] == '-'
    &&& is_two_digit_part(t[8], t[9])
    &&& t[10] == ' '
    &&& (t[11] == '[' || t[11] == '{')
}

/// The history entry that `t` denotes:
/// `YYYY-MM-DD [user name] text` or `YYYY-MM-DD {real name} text`, where the
/// name and the text are not empty and nothing holds a line break. The name
/// extends to the last closing bracket that a space and some text follow.
pub open spec fn history_entry(t: Seq<char>) -> Option<SpecHistoryEntry> {
    if !has_history_date(t) {
        None
    } else {
        let user = t[11] == '[';
        let close = if user {
            ']'
        } else {
            '}'
        };
        let s = t.skip(12);
        if s.contains('\n') {
            None
        } else {
            match last_close_until(s, close, s.len() - 3) {
                None => None,
                Some(p) => Some(
                    SpecHistoryEntry {
                        date: Date {
                            year: year_of(t),
                            month: two_digit_part(t[5], t[6]),
                            day: two_digit_part(t[8], t[9]),
                        },
                        author: if user {
                            SpecHistoryEntryAuthor::UserName(s.take(p))
                        } else {
                            SpecHistoryEntryAuthor::RealName(s.take(p))
                        },
                        text: s.skip(p + 2),
                    },
                ),
            }
        }
    }
}

/// A history entry is `YYYY-MM-DD`, a space, a name in `[...]` (a user
/// name) or `{...}` (a real name), a space and a text: its date parts read
/// back as written, and the line after the date is the name, the closing
/// bracket, a space and the text, neither empty.
pub proof fn law_history_fields(t: Seq<char>)
    ensures
        history_entry(t) matches Some(h) ==> {
            let close = if t[11] == '[' {
                ']'
            } else {
                '}'
            };
            let name = match h.author {
                SpecHistoryEntryAuthor::UserName(n) => n,
                SpecHistoryEntryAuthor::RealName(n) => n,
            };
            &&& t.len() >= 12 && t[4] == '-' && t[7] == '-' && t[10] == ' '
            &&& unsigned_value(t.take(4), 0xffff) == Ok::<int, IntErrorKind>(h.date.year as int)
            &&& date_part_read(h.date.month, t[5], t[6])
            &&& date_part_read(h.date.day, t[8], t[9])
            &&& (t[11] == '[' <==> h.author is UserName)
            &&& (t[11] == '[' || t[11] == '{')
            &&& name.len() > 0 && h.text.len() > 0
            &&& t.skip(12) == name + seq![close, ' '] + h.text
        },
{
    if history_entry(t) is Some {
        lemma_date_parts(t);
        let user = t[11] == '[';
        let close = if user {
            ']'
        } else {
            '}'
        };
        let s = t.skip(12);
        lemma_last_close(s, close, s.len() - 3);
        let p = last_close_until(s, close, s.len() - 3)->0;
        assert(s =~= s.take(p) + seq![close, ' '] + s.skip(p + 2));
    }
}

/// Where `last_close_until` finds a position, it is in `1..=q` and holds
/// `close` followed by a space.
proof fn lemma_last_close(s: Seq<char>, close: char, q: int)
    ensures
        last_close_until(s, close, q) matches Some(p) ==> 1 <= p <= q && s[p] == close && s[p + 1]
            == ' ',
    decreases q,
{
    if q >= 1 && !(s[q] == close && s[q + 1] == ' ') {
        lemma_last_close(s, close, q - 1);
    }
}

/// The outcome of a !HISTORY meta statement: the entry that its fields after
/// the keyword, joined with single spaces, denote.
pub open spec fn history_outcome(f: Seq<Seq<char>>) -> Outcome<SpecMeta> {
    match history_entry(joined_from(f, 2)) {
        Some(h) => Ok(SpecMeta::History(h)),
        None => Err(SpecParseErrorKind::InvalidHistory { text: joined_from(f, 2) }),
    }
}

/// The characters of `v` from `start` to `end`.
fn slice_chars(v: &Vec<char>, start: usize, end: usize) -> (res: Vec<char>)
    requires
        start <= end <= v.len(),
    ensures
        res@ == v@.subrange(start as int, end as int),
{
    let mut out: Vec<char> = Vec::new();
    let mut k: usize = start;
    while k < end
        invariant
            start <= k <= end <= v.len(),
            out@ =~= v@.subrange(start as int, k as int),
        decreases end - k,
    {
        out.push(v[k]);
        k += 1;
    }
    out
}

/// Reads a history entry.
fn read_history_entry(t: &Vec<char>) -> (res: Option<HistoryEntry>)
    ensures
        match res {
            Some(h) => history_entry(t@) == Some(h.deep_view()),
            None => history_entry(t@) is None,
        },
{
    let matched = t.len() >= 12 && decimal_digit(t[0]) && decimal_digit(t[1]) && decimal_digit(t[2])
        && decimal_digit(t[3]) && t[4] == '-' && two_digit_part_at(t, 5) && t[7] == '-'
        && two_digit_part_at(t, 8) && t[10] == ' ' && (t[11] == '[' || t[11] == '{');
    if !matched {
        return None;
    }
    let user = t[11] == '[';
    let close = if user {
        ']'
    } else {
        '}'
    };
    let ghost s = t@.skip(12);
    let mut k: usize = 12;
    while k < t.len()
        invariant
            12 <= k <= t.len(),
            s == t@.skip(12),
            forall|j: int| 0 <= j < k - 12 ==> s[j] != '\n',
        decreases t.len() - k,
    {
        if t[k] == '\n' {
            assert(s[k - 12] == '\n');
            return None;
        }
        k += 1;
    }
    assert(!s.contains('\n'));
    if t.len() < 15 {
        assert(last_close_until(s, close, s.len() - 3) is None);
        return None;
    }
    // Index of the closing bracket within `t`.
    let mut q: usize = t.len() - 3;
    while q >= 13 && !(t[q] == close && t[q + 1] == ' ')
        invariant
            12 <= q <= t.len() - 3,
            s == t@.skip(12),
            last_close_until(s, close, s.len() - 3) == last_close_until(s, close, q - 12),
        decreases q,
    {
        q -= 1;
    }
    if q < 13 {
        assert(last_close_until(s, close, q - 12) is None);
        return None;
    }
    assert(last_close_until(s, close, q - 12) == Some(q - 12));
    let year: u16 = digit_value(t[0]) * 1000 + digit_value(t[1]) * 100 + digit_value(t[2]) * 10
        + digit_value(t[3]);
    let month = two_digit_part_value(t, 5);
    let day = two_digit_part_value(t, 8);
    let name = string_of(&slice_chars(t, 12, q));
    let text = string_of(&slice_chars(t, q + 2, t.len()));
    assert(name@ =~= s.take(q - 12));
    assert(text@ =~= s.skip(q - 12 + 2));
    let author = if user {
        HistoryEntryAuthor::UserName(name)
    } else {
        HistoryEntryAuthor::RealName(name)
    };
    Some(HistoryEntry { date: Date { year, month, day }, author, text })
}

/// Parses a line containing a !HISTORY meta statement.
fn parse_meta_history(path: &str, line_number: u32, fields: &Vec<&str>) -> (res: ParseResult1<Meta>)
    requires
        fields.len() >= 2,
    ensures
        yields(res, path@, line_number, history_outcome(texts(fields@))),
{
    let normalized_line = join_from(fields, 2);
    let t = chars_of(normalized_line.as_str());
    match read_history_entry(&t) {
        Some(h) => Ok(Meta::History(h)),
        None => Err(
            error_at_line(
                path,
                line_number,
                ParseErrorKind::InvalidHistory { text: normalized_line },
            ),
        ),
    }
}

// ---------------------------------------------------------------------------
// Keywords.
// ---------------------------------------------------------------------------

/// The pieces of `s` between commas (as std's `split(',')` gives them), when
/// `cur` holds a piece that started before `s`.
pub open spec fn pieces_after(s: Seq<char>, cur: Seq<char>) -> Seq<Seq<char>>
    decreases s.len(),
{
    if s.len() == 0 {
        seq![cur]
    } else if s[0] == ',' {
        seq![cur] + pieces_after(s.drop_first(), seq![])
    } else {
        pieces_after(s.drop_first(), cur.push(s[0]))
    }
}

/// The trimmed pieces that are not empty.
pub open spec fn kept_pieces(pieces: Seq<Seq<char>>) -> Seq<Seq<char>>
    decreases pieces.len(),
{
    if pieces.len() == 0 {
        seq![]
    } else {
        let t = trimmed(pieces[0]);
        (if t.len() > 0 {
            seq![t]
        } else {
            seq![]
        }) + kept_pieces(pieces.drop_first())
    }
}

/// The keywords of a text: its comma-separated pieces, trimmed, that are not
/// empty.
pub open spec fn keywords_of(t: Seq<char>) -> Seq<Seq<char>> {
    kept_pieces(pieces_after(t, seq![]))
}

/// `trim_start(s)` is what is left of `s` after some leading characters.
proof fn lemma_trim_start_suffix(s: Seq<char>)
    ensures
        exists|k: int| 0 <= k <= s.len() && #[trigger] s.skip(k) == trim_start(s),
        trim_start(s).len() > 0 ==> !is_white_space(trim_start(s)[0]),
    decreases s.len(),
{
    if s.len() > 0 && is_white_space(s[0]) {
        lemma_trim_start_suffix(s.drop_first());
        let k = choose|k: int| 0 <= k <= s.drop_first().len() && #[trigger] s.drop_first().skip(k)
            == trim_start(s.drop_first());
        assert(s.skip(k + 1) =~= s.drop_first().skip(k));
    } else {
        assert(s.skip(0) =~= s);
    }
}

/// `trim_end(s)` is what is left of `s` before some trailing characters.
proof fn lemma_trim_end_prefix(s: Seq<char>)
    ensures
        exists|k: int| 0 <= k <= s.len() && #[trigger] s.take(k) == trim_end(s),
        trim_end(s).len() > 0 ==> !is_white_space(trim_end(s).last()),
    decreases s.len(),
{
    if s.len() > 0 && is_white_space(s.last()) {
        lemma_trim_end_prefix(s.drop_last());
        let k = choose|k: int| 0 <= k <= s.drop_last().len() && #[trigger] s.drop_last().take(k)
            == trim_end(s.drop_last());
        assert(s.take(k) =~= s.drop_last().take(k));
    } else {
        assert(s.take(s.len() as int) =~= s);
    }
}

/// Trimming keeps a text without commas without them, and leaves no white
/// space at either end.
proof fn lemma_trimmed_piece(p: Seq<char>)
    requires
        !p.contains(','),
    ensures
        !trimmed(p).contains(','),
        trimmed(p).len() > 0 ==> !is_white_space(trimmed(p)[0]) && !is_white_space(
            trimmed(p).last(),
        ),
{
    lemma_trim_start_suffix(p);
    let a = trim_start(p);
    let k = choose|k: int| 0 <= k <= p.len() && #[trigger] p.skip(k) == a;
    lemma_trim_end_prefix(a);
    let j = choose|j: int| 0 <= j <= a.len() && #[trigger] a.take(j) == trim_end(a);
    let t = trimmed(p);
    assert(t == a.take(j));
    if t.contains(',') {
        let i = choose|i: int| 0 <= i < t.len() && t[i] == ',';
        assert(t[i] == p[k + i]);
    }
    if t.len() > 0 {
        assert(t[0] == a[0]);
    }
}

/// The pieces of `s` after a piece `cur` without commas have none.
proof fn lemma_pieces_without_commas(s: Seq<char>, cur: Seq<char>)
    requires
        !cur.contains(','),
    ensures
        forall|i: int| 0 <= i < pieces_after(s, cur).len() ==> !(#[trigger] pieces_after(s, cur)[i]).contains(','),
    decreases s.len(),
{
    if s.len() == 0 {
        assert(pieces_after(s, cur) == seq![cur]);
    } else if s[0] == ',' {
        lemma_pieces_without_commas(s.drop_first(), seq![]);
        let rest = pieces_after(s.drop_first(), seq![]);
        let all = seq![cur] + rest;
        assert(pieces_after(s, cur) == all);
        assert forall|i: int| 0 <= i < all.len() implies !(#[trigger] all[i]).contains(',') by {
            if i > 0 {
                assert(all[i] == rest[i - 1]);
            }
        }
    } else {
        let next = cur.push(s[0]);
        assert(!next.contains(',')) by {
            if next.contains(',') {
                let i = choose|i: int| 0 <= i < next.len() && next[i] == ',';
                if i < cur.len() {
                    assert(next[i] == cur[i]);
                }
            }
        }
        lemma_pieces_without_commas(s.drop_first(), next);
        assert(pieces_after(s, cur) == pieces_after(s.drop_first(), next));
    }
}

/// The kept pieces of pieces without commas are non-empty, without commas,
/// and without white space at either end.
proof fn lemma_kept_pieces(pieces: Seq<Seq<char>>)
    requires
        forall|i: int| 0 <= i < pieces.len() ==> !(#[trigger] pieces[i]).contains(','),
    ensures
        forall|i: int|
            0 <= i < kept_pieces(pieces).len() ==> {
                let k = #[trigger] kept_pieces(pieces)[i];
                &&& k.len() > 0
                &&& !k.contains(',')
                &&& !is_white_space(k[0])
                &&& !is_white_space(k.last())
            },
    decreases pieces.len(),
{
    if pieces.len() > 0 {
        let rest = pieces.drop_first();
        assert forall|i: int| 0 <= i < rest.len() implies !(#[trigger] rest[i]).contains(',') by {
            assert(rest[i] == pieces[i + 1]);
        }
        lemma_kept_pieces(rest);
        lemma_trimmed_piece(pieces[0]);
        let t = trimmed(pieces[0]);
        let head = if t.len() > 0 {
            seq![t]
        } else {
            seq![]
        };
        let all = head + kept_pieces(rest);
        assert(kept_pieces(pieces) == all);
        assert forall|i: int| 0 <= i < all.len() implies {
            let k = #[trigger] all[i];
            &&& k.len() > 0
            &&& !k.contains(',')
            &&& !is_white_space(k[0])
            &&& !is_white_space(k.last())
        } by {
            if i >= head.len() {
                assert(all[i] == kept_pieces(rest)[i - head.len()]);
            }
        }
    }
}

/// Each keyword of a !KEYWORDS line is a non-empty text without commas
/// and without white space at either end.
pub proof fn law_keywords_are_clean(t: Seq<char>)
    ensures
        forall|i: int|
            0 <= i < keywords_of(t).len() ==> {
                let k = #[trigger] keywords_of(t)[i];
                &&& k.len() > 0
                &&& !k.contains(',')
                &&& !is_white_space(k[0])
                &&& !is_white_space(k.last())
            },
{
    lemma_pieces_without_commas(t, seq![]);
    lemma_kept_pieces(pieces_after(t, seq![]));
}

/// The outcome of a !KEYWORDS meta statement: the keywords of its fields
/// after the keyword, joined with single spaces.
pub open spec fn keywords_outcome(f: Seq<Seq<char>>) -> Outcome<SpecMeta> {
    match fields_ge_outcome(f.len() as usize, 3) {
        Err(e) => Err(e),
        Ok(_) => Ok(SpecMeta::Keywords(keywords_of(joined_from(f, 2)))),
    }
}

/// Adds the trimmed `piece` to `out` if it is not empty.
fn keep_piece(out: &mut Vec<String>, piece: &Vec<char>)
    ensures
        final(out).deep_view() == old(out).deep_view() + kept_pieces(seq![piece@]),
{
    let t = trim_chars(piece);
    let ghost before = out.deep_view();
    assert(seq![piece@].drop_first() =~= Seq::<Seq<char>>::empty());
    assert(kept_pieces(Seq::<Seq<char>>::empty()) =~= Seq::<Seq<char>>::empty());
    assert(kept_pieces(seq![piece@]) =~= (if t@.len() > 0 {
        seq![t@]
    } else {
        Seq::<Seq<char>>::empty()
    }));
    if t.len() > 0 {
        out.push(string_of(&t));
        assert(out.deep_view() =~= before + seq![t@]);
    } else {
        assert(out.deep_view() =~= before + Seq::<Seq<char>>::empty());
    }
}

/// The keywords of a text.
fn read_keywords(text: &Vec<char>) -> (res: Vec<String>)
    ensures
        res.deep_view() == keywords_of(text@),
{
    let mut out: Vec<String> = Vec::new();
    let mut cur: Vec<char> = Vec::new();
    let mut i: usize = 0;
    assert(text@.skip(0) =~= text@);
    assert(out.deep_view() =~= Seq::<Seq<char>>::empty());
    while i < text.len()
        invariant
            0 <= i <= text.len(),
            out.deep_view() + kept_pieces(pieces_after(text@.skip(i as int), cur@)) == keywords_of(
                text@,
            ),
        decreases text.len() - i,
    {
        let ghost rest = text@.skip(i as int);
        assert(rest[0] == text@[i as int]);
        assert(rest.drop_first() =~= text@.skip(i + 1));
        if text[i] == ',' {
            let ghost tail = pieces_after(rest.drop_first(), seq![]);
            assert((seq![cur@] + tail).drop_first() =~= tail);
            assert((seq![cur@] + tail)[0] == cur@);
            assert(kept_pieces(seq![cur@] + tail) == kept_pieces(seq![cur@]) + kept_pieces(tail)) by {
                assert(seq![cur@].drop_first() =~= Seq::<Seq<char>>::empty());
                assert(kept_pieces(Seq::<Seq<char>>::empty()) =~= Seq::<Seq<char>>::empty());
            }
            let ghost before = out.deep_view();
            keep_piece(&mut out, &cur);
            assert(before + (kept_pieces(seq![cur@]) + kept_pieces(tail)) =~= out.deep_view()
                + kept_pieces(tail));
            cur = Vec::new();
            assert(cur@ =~= Seq::<char>::empty());
        } else {
            cur.push(text[i]);
        }
        i += 1;
    }
    assert(text@.skip(i as int) =~= Seq::<char>::empty());
    let ghost before = out.deep_view();
    keep_piece(&mut out, &cur);
    out
}

/// Parses a line containing a !KEYWORDS meta statement.
fn parse_meta_keywords(path: &str, line_number: u32, fields: &Vec<&str>) -> (res: ParseResult1<Meta>)
    ensures
        yields(res, path@, line_number, keywords_outcome(texts(fields@))),
{
    if let Err(e) = check_fields_ge(path, line_number, fields, 3) {
        return Err(e);
    }
    let line = join_from(fields, 2);
    let text = chars_of(line.as_str());
    Ok(Meta::Keywords(read_keywords(&text)))
}

// ---------------------------------------------------------------------------
// Meta statements.
// ---------------------------------------------------------------------------

/// The outcome of a full-line meta statement built by `ctor`.
pub open spec fn full_line_meta(f: Seq<Seq<char>>, ctor: spec_fn(Seq<char>) -> SpecMeta) -> Outcome<
    SpecMeta,
> {
    match full_line_outcome(f) {
        Err(e) => Err(e),
        Ok(t) => Ok(ctor(t)),
    }
}

/// The outcome of a meta statement (a line of type 0) on line
/// `line_number`: an empty statement when the line holds no field after the
/// type; the directive that the keyword `f[1]` introduces; for another
/// keyword, the fields after the type joined with single spaces, as the
/// description on the first line and as an unknown directive elsewhere.
pub open spec fn meta_outcome(f: Seq<Seq<char>>, r: Seq<RealField>, line_number: u32) -> Option<
    Outcome<SpecMeta>,
> {
    if f.len() < 2 {
        Some(Ok(SpecMeta::Empty))
    } else {
        let k = f[1];
        if k == "!CMDLINE"@ {
            Some(cmdline_outcome(f))
        } else if k == "!COLOUR"@ {
            Some(color_meta_outcome(f, r))
        } else if k == "!HISTORY"@ {
            Some(history_outcome(f))
        } else if k == "!KEYWORDS"@ {
            Some(keywords_outcome(f))
        } else if k == "!LDRAW_ORG"@ || k == "LDRAW_ORG"@ || k == "Official"@ || k == "Unofficial"@ || k == "Un-official"@ {
            file_type_outcome(f)
        } else if k == "BFC"@ {
            Some(bfc_outcome(f))
        } else if k == "FILE"@ {
            Some(file_outcome(f))
        } else if k == "!CATEGORY"@ {
            Some(full_line_meta(f, |t: Seq<char>| SpecMeta::Category(t)))
        } else if k == "!HELP"@ {
            Some(full_line_meta(f, |t: Seq<char>| SpecMeta::Help(t)))
        } else if k == "!LICENSE"@ {
            Some(full_line_meta(f, |t: Seq<char>| SpecMeta::License(t)))
        } else if k == "//"@ {
            Some(full_line_meta(f, |t: Seq<char>| SpecMeta::Comment(t)))
        } else if k == "Author:"@ {
            Some(full_line_meta(f, |t: Seq<char>| SpecMeta::Author(t)))
        } else if k == "Name:"@ {
            Some(full_line_meta(f, |t: Seq<char>| SpecMeta::Name(t)))
        } else if k == "WRITE"@ {
            Some(full_line_meta(f, |t: Seq<char>| SpecMeta::Print(t)))
        } else if k == "CLEAR"@ {
            Some(argumentless_outcome(f, SpecMeta::Clear))
        } else if k == "NOFILE"@ {
            Some(argumentless_outcome(f, SpecMeta::NoFile))
        } else if k == "PAUSE"@ {
            Some(argumentless_outcome(f, SpecMeta::Pause))
        } else if k == "SAVE"@ {
            Some(argumentless_outcome(f, SpecMeta::Save))
        } else if k == "STEP"@ {
            Some(argumentless_outcome(f, SpecMeta::Step))
        } else if line_number == 1 {
            Some(Ok(SpecMeta::Description(joined_from(f, 1))))
        } else {
            Some(Ok(SpecMeta::Unknown(joined_from(f, 1))))
        }
    }
}

/// The one meta statement without an outcome is an unofficial file type
/// with no field after its keyword; every other meta statement is read to
/// a value or an error.
pub proof fn law_meta_outcome_exists(f: Seq<Seq<char>>, r: Seq<RealField>, line_number: u32)
    ensures
        meta_outcome(f, r, line_number) is None <==> (f.len() == 2 && (f[1] == "Unofficial"@
            || f[1] == "Un-official"@)),
{
    reveal_strlit("Unofficial");
    reveal_strlit("Un-official");
    reveal_strlit("!CMDLINE");
    reveal_strlit("!COLOUR");
    reveal_strlit("!HISTORY");
    reveal_strlit("!KEYWORDS");
    reveal_strlit("!LDRAW_ORG");
    reveal_strlit("LDRAW_ORG");
    assert("Unofficial"@.len() == 10);
    assert("Un-official"@.len() == 11);
    assert("!CMDLINE"@.len() == 8);
    assert("!COLOUR"@.len() == 7);
    assert("!HISTORY"@.len() == 8);
    assert("!KEYWORDS"@.len() == 9);
    assert("!LDRAW_ORG"@.len() == 10);
    assert("LDRAW_ORG"@.len() == 9);
    assert("!LDRAW_ORG"@[0] == '!');
    assert("Unofficial"@[0] == 'U');
    if f.len() == 2 && (f[1] == "Unofficial"@ || f[1] == "Un-official"@) {
        assert(officiality_outcome(f) == Ok::<(Officiality, usize), SpecParseErrorKind>(
            (Officiality::Unofficial, 2),
        ));
        assert(file_type_outcome(f) is None);
    }
}

/// The keyword of a meta statement (its second field) picks the directive:
/// each keyword its own, with the fields it takes; any other keyword gives
/// the description (on the first line) or an unknown directive, holding the
/// fields after the type joined with single spaces.
pub proof fn law_meta_keywords(f: Seq<Seq<char>>, r: Seq<RealField>, line_number: u32)
    requires
        2 <= f.len() <= usize::MAX,
    ensures
        f[1] == "!CMDLINE"@ ==> meta_outcome(f, r, line_number) == Some(if f.len() < 3 { Err(SpecParseErrorKind::TooFewFields { found: f.len() as usize, expected: 3 }) } else { Ok(SpecMeta::CmdLine(f.subrange(2, f.len() as int))) }),
        f[1] == "!COLOUR"@ ==> meta_outcome(f, r, line_number) == Some(color_meta_outcome(f, r)),
        f[1] == "!HISTORY"@ ==> meta_outcome(f, r, line_number) == Some(history_outcome(f)),
        f[1] == "!KEYWORDS"@ ==> meta_outcome(f, r, line_number) == Some(keywords_outcome(f)),
        f[1] == "!LDRAW_ORG"@ ==> meta_outcome(f, r, line_number) == file_type_outcome(f),
        f[1] == "LDRAW_ORG"@ ==> meta_outcome(f, r, line_number) == file_type_outcome(f),
        f[1] == "Official"@ ==> meta_outcome(f, r, line_number) == file_type_outcome(f),
        f[1] == "Unofficial"@ ==> meta_outcome(f, r, line_number) == file_type_outcome(f),
        f[1] == "Un-official"@ ==> meta_outcome(f, r, line_number) == file_type_outcome(f),
        f[1] == "BFC"@ ==> meta_outcome(f, r, line_number) == Some(bfc_outcome(f)),
        f[1] == "FILE"@ ==> meta_outcome(f, r, line_number) == Some(if f.len() == 3 { Ok(SpecMeta::File(f[2])) } else { Err(SpecParseErrorKind::FieldCount { found: f.len() as usize, expected: 3 }) }),
        f[1] == "!CATEGORY"@ ==> meta_outcome(f, r, line_number) == Some(Ok::<SpecMeta, SpecParseErrorKind>(SpecMeta::Category(joined_from(f, 2)))),
        f[1] == "!HELP"@ ==> meta_outcome(f, r, line_number) == Some(Ok::<SpecMeta, SpecParseErrorKind>(SpecMeta::Help(joined_from(f, 2)))),
        f[1] == "!LICENSE"@ ==> meta_outcome(f, r, line_number) == Some(Ok::<SpecMeta, SpecParseErrorKind>(SpecMeta::License(joined_from(f, 2)))),
        f[1] == "//"@ ==> meta_outcome(f, r, line_number) == Some(Ok::<SpecMeta, SpecParseErrorKind>(SpecMeta::Comment(joined_from(f, 2)))),
        f[1] == "Author:"@ ==> meta_outcome(f, r, line_number) == Some(Ok::<SpecMeta, SpecParseErrorKind>(SpecMeta::Author(joined_from(f, 2)))),
        f[1] == "Name:"@ ==> meta_outcome(f, r, line_number) == Some(Ok::<SpecMeta, SpecParseErrorKind>(SpecMeta::Name(joined_from(f, 2)))),
        f[1] == "WRITE"@ ==> meta_outcome(f, r, line_number) == Some(Ok::<SpecMeta, SpecParseErrorKind>(SpecMeta::Print(joined_from(f, 2)))),
        f[1] == "CLEAR"@ ==> meta_outcome(f, r, line_number) == Some(if f.len() == 2 { Ok(SpecMeta::Clear) } else { Err(SpecParseErrorKind::FieldCount { found: f.len() as usize, expected: 2 }) }),
        f[1] == "NOFILE"@ ==> meta_outcome(f, r, line_number) == Some(if f.len() == 2 { Ok(SpecMeta::NoFile) } else { Err(SpecParseErrorKind::FieldCount { found: f.len() as usize, expected: 2 }) }),
        f[1] == "PAUSE"@ ==> meta_outcome(f, r, line_number) == Some(if f.len() == 2 { Ok(SpecMeta::Pause) } else { Err(SpecParseErrorKind::FieldCount { found: f.len() as usize, expected: 2 }) }),
        f[1] == "SAVE"@ ==> meta_outcome(f, r, line_number) == Some(if f.len() == 2 { Ok(SpecMeta::Save) } else { Err(SpecParseErrorKind::FieldCount { found: f.len() as usize, expected: 2 }) }),
        f[1] == "STEP"@ ==> meta_outcome(f, r, line_number) == Some(if f.len() == 2 { Ok(SpecMeta::Step) } else { Err(SpecParseErrorKind::FieldCount { found: f.len() as usize, expected: 2 }) }),
        (f[1] != "!CMDLINE"@ && f[1] != "!COLOUR"@ && f[1] != "!HISTORY"@ && f[1] != "!KEYWORDS"@ && f[1] != "!LDRAW_ORG"@ && f[1] != "LDRAW_ORG"@ && f[1] != "Official"@ && f[1] != "Unofficial"@ && f[1] != "Un-official"@ && f[1] != "BFC"@ && f[1] != "FILE"@ && f[1] != "!CATEGORY"@ && f[1] != "!HELP"@ && f[1] != "!LICENSE"@ && f[1] != "//"@ && f[1] != "Author:"@ && f[1] != "Name:"@ && f[1] != "WRITE"@ && f[1] != "CLEAR"@ && f[1] != "NOFILE"@ && f[1] != "PAUSE"@ && f[1] != "SAVE"@ && f[1] != "STEP"@) ==> meta_outcome(f, r, line_number) == Some(Ok::<SpecMeta, SpecParseErrorKind>(if line_number == 1 { SpecMeta::Description(joined_from(f, 1)) } else { SpecMeta::Unknown(joined_from(f, 1)) })),
{
    reveal_strlit("!CMDLINE");
    reveal_strlit("!COLOUR");
    reveal_strlit("!HISTORY");
    reveal_strlit("!KEYWORDS");
    reveal_strlit("!LDRAW_ORG");
    reveal_strlit("LDRAW_ORG");
    reveal_strlit("Official");
    reveal_strlit("Unofficial");
    reveal_strlit("Un-official");
    reveal_strlit("BFC");
    reveal_strlit("FILE");
    reveal_strlit("!CATEGORY");
    reveal_strlit("!HELP");
    reveal_strlit("!LICENSE");
    reveal_strlit("//");
    reveal_strlit("Author:");
    reveal_strlit("Name:");
    reveal_strlit("WRITE");
    reveal_strlit("CLEAR");
    reveal_strlit("NOFILE");
    reveal_strlit("PAUSE");
    reveal_strlit("SAVE");
    reveal_strlit("STEP");
    assert("!CMDLINE"@.len() == 8);
    assert("!COLOUR"@.len() == 7);
    assert("!HISTORY"@.len() == 8);
    assert("!KEYWORDS"@.len() == 9);
    assert("!LDRAW_ORG"@.len() == 10);
    assert("LDRAW_ORG"@.len() == 9);
    assert("Official"@.len() == 8);
    assert("Unofficial"@.len() == 10);
    assert("Un-official"@.len() == 11);
    assert("BFC"@.len() == 3);
    assert("FILE"@.len() == 4);
    assert("!CATEGORY"@.len() == 9);
    assert("!HELP"@.len() == 5);
    assert("!LICENSE"@.len() == 8);
    assert("//"@.len() == 2);
    assert("Author:"@.len() == 7);
    assert("Name:"@.len() == 5);
    assert("WRITE"@.len() == 5);
    assert("CLEAR"@.len() == 5);
    assert("NOFILE"@.len() == 6);
    assert("PAUSE"@.len() == 5);
    assert("SAVE"@.len() == 4);
    assert("STEP"@.len() == 4);
    assert("!CMDLINE"@[1] == 'C');
    assert("!HISTORY"@[1] == 'H');
    assert("!CMDLINE"@[0] == '!');
    assert("Official"@[0] == 'O');
    assert("!LICENSE"@[1] == 'L');
    assert("!COLOUR"@[0] == '!');
    assert("Author:"@[0] == 'A');
    assert("!HISTORY"@[0] == '!');
    assert("!KEYWORDS"@[0] == '!');
    assert("LDRAW_ORG"@[0] == 'L');
    assert("!KEYWORDS"@[1] == 'K');
    assert("!CATEGORY"@[1] == 'C');
    assert("!LDRAW_ORG"@[0] == '!');
    assert("Unofficial"@[0] == 'U');
    assert("!CATEGORY"@[0] == '!');
    assert("!LICENSE"@[0] == '!');
    assert("FILE"@[0] == 'F');
    assert("SAVE"@[0] == 'S');
    assert("STEP"@[0] == 'S');
    assert("!HELP"@[0] == '!');
    assert("Name:"@[0] == 'N');
    assert("WRITE"@[0] == 'W');
    assert("CLEAR"@[0] == 'C');
    assert("PAUSE"@[0] == 'P');
    assert("SAVE"@[1] == 'A');
    assert("STEP"@[1] == 'T');
}

/// The outcome of a meta statement, as a statement.
pub open spec fn meta_statement_outcome(
    f: Seq<Seq<char>>,
    r: Seq<RealField>,
    line_number: u32,
) -> Option<Outcome<SpecStatement>> {
    match meta_outcome(f, r, line_number) {
        None => None,
        Some(Err(e)) => Some(Err(e)),
        Some(Ok(m)) => Some(Ok(SpecStatement::Meta(m))),
    }
}

/// Reads a meta statement.
fn read_meta(path: &str, line_number: u32, fields: &Vec<&str>, readings: &Vec<RealField>) -> (res:
    Option<ParseResult1<Meta>>)
    requires
        readings_fit(fields@, readings@),
    ensures
        yields_or_aborts(res, path@, line_number, meta_outcome(texts(fields@), readings@, line_number)),
{
    if fields.len() < 2 {
        return Some(Ok(Meta::Empty));
    }
    let k = fields[1];
    assert(texts(fields@)[1] == k@);
    if same_text(k, "!CMDLINE") {
        Some(parse_meta_cmdline(path, line_number, fields))
    } else if same_text(k, "!COLOUR") {
        Some(parse_meta_color(path, line_number, fields, readings))
    } else if same_text(k, "!HISTORY") {
        Some(parse_meta_history(path, line_number, fields))
    } else if same_text(k, "!KEYWORDS") {
        Some(parse_meta_keywords(path, line_number, fields))
    } else if same_text(k, "!LDRAW_ORG") || same_text(k, "LDRAW_ORG") || same_text(k, "Official") || same_text(k, "Unofficial") || same_text(k, "Un-official") {
        parse_meta_file_type(path, line_number, fields)
    } else if same_text(k, "BFC") {
        Some(parse_meta_bfc(path, line_number, fields))
    } else if same_text(k, "FILE") {
        Some(parse_meta_file(path, line_number, fields))
    } else if same_text(k, "!CATEGORY") {
        Some(
            match parse_meta_full_line(path, line_number, fields) {
                Err(e) => Err(e),
                Ok(t) => Ok(Meta::Category(t)),
            },
        )
    } else if same_text(k, "!HELP") {
        Some(
            match parse_meta_full_line(path, line_number, fields) {
                Err(e) => Err(e),
                Ok(t) => Ok(Meta::Help(t)),
            },
        )
    } else if same_text(k, "!LICENSE") {
        Some(
            match parse_meta_full_line(path, line_number, fields) {
                Err(e) => Err(e),
                Ok(t) => Ok(Meta::License(t)),
            },
        )
    } else if same_text(k, "//") {
        Some(
            match parse_meta_full_line(path, line_number, fields) {
                Err(e) => Err(e),
                Ok(t) => Ok(Meta::Comment(t)),
            },
        )
    } else if same_text(k, "Author:") {
        Some(
            match parse_meta_full_line(path, line_number, fields) {
                Err(e) => Err(e),
                Ok(t) => Ok(Meta::Author(t)),
            },
        )
    } else if same_text(k, "Name:") {
        Some(
            match parse_meta_full_line(path, line_number, fields) {
                Err(e) => Err(e),
                Ok(t) => Ok(Meta::Name(t)),
            },
        )
    } else if same_text(k, "WRITE") {
        Some(
            match parse_meta_full_line(path, line_number, fields) {
                Err(e) => Err(e),
                Ok(t) => Ok(Meta::Print(t)),
            },
        )
    } else if same_text(k, "CLEAR") {
        Some(parse_meta_argumentless(path, line_number, fields, Meta::Clear))
    } else if same_text(k, "NOFILE") {
        Some(parse_meta_argumentless(path, line_number, fields, Meta::NoFile))
    } else if same_text(k, "PAUSE") {
        Some(parse_meta_argumentless(path, line_number, fields, Meta::Pause))
    } else if same_text(k, "SAVE") {
        Some(parse_meta_argumentless(path, line_number, fields, Meta::Save))
    } else if same_text(k, "STEP") {
        Some(parse_meta_argumentless(path, line_number, fields, Meta::Step))
    } else if line_number == 1 {
        Some(Ok(Meta::Description(join_from(fields, 1))))
    } else {
        Some(Ok(Meta::Unknown(join_from(fields, 1))))
    }
}

/// Reads a line containing a meta statement; `None` for an unofficial file
/// type with no field after its keyword, the one meta statement whose
/// reading runs past the end of the line.
pub fn read_meta_statement(
    path: &str,
    line_number: u32,
    fields: &Vec<&str>,
    readings: &Vec<RealField>,
) -> (res: Option<ParseResult1<Statement>>)
    requires
        readings_fit(fields@, readings@),
    ensures
        yields_or_aborts(
            res,
            path@,
            line_number,
            meta_statement_outcome(texts(fields@), readings@, line_number),
        ),
{
    match read_meta(path, line_number, fields, readings) {
        None => None,
        Some(Err(e)) => Some(Err(e)),
        Some(Ok(m)) => Some(Ok(Statement::Meta(m))),
    }
}

/// Parses a line containing a meta statement, given what std reads from
/// each field as a 64-bit float.
///
/// An unofficial file type with no field after its keyword has no
/// outcome; such lines are left out.
pub fn parse_meta_statement(
    path: &str,
    line_number: u32,
    fields: Vec<&str>,
    readings: &Vec<RealField>,
) -> (res: ParseResult1<Statement>)
    requires
        readings_fit(fields@, readings@),
        meta_statement_outcome(texts(fields@), readings@, line_number) is Some,
    ensures
        yields(
            res,
            path@,
            line_number,
            meta_statement_outcome(texts(fields@), readings@, line_number)->Some_0,
        ),
{
    match read_meta_statement(path, line_number, &fields, readings) {
        Some(r) => r,
        None => vstd::pervasive::unreached(),
    }
}

} // verus!

//! Loading of LDraw files: Base operations.
use vstd::prelude::*;

use crate::text::{chars_of, owned, same_text, string_of, texts};
use crate::types::{ColorRef, Real, RGB};

verus! {

/// std's I/O error, carried through opaquely.
#[verifier::external_type_specification]
#[verifier::external_body]
pub struct ExIoError(std::io::Error);

// ---------------------------------------------------------------------------
// Errors.
// ---------------------------------------------------------------------------

/// Why a text is not an unsigned integer (std's `IntErrorKind` for the
/// unsigned types).
#[derive(Clone, Copy, Debug, PartialEq, Eq, Structural)]
pub enum IntErrorKind {
    /// The text is empty.
    Empty,
    /// The text holds a character that is not a digit where one is needed.
    InvalidDigit,
    /// The value is larger than the type's maximum.
    PosOverflow,
}

/// Why a text is not a 64-bit float (the two cases of std's
/// `ParseFloatError`).
#[derive(Clone, Copy, Debug, PartialEq, Eq, Structural)]
pub enum RealErrorKind {
    /// The text is empty.
    Empty,
    /// The text is not a float literal.
    Invalid,
}

/// What reading a field as a 64-bit float gives: either an error, or a
/// number that is or is not outside the range [0.0, 1.0] (a NaN is not
/// outside it, as it compares false with both bounds).
#[derive(Clone, Copy, Debug, PartialEq, Eq, Structural)]
pub enum RealField {
    Invalid(RealErrorKind),
    InUnitRange,
    OutsideUnitRange,
}

/// The kinds of parse errors.
#[derive(Debug, PartialEq)]
pub enum ParseErrorKind {
    /// A field holds `field` where the keyword `keyword` was expected.
    UnexpectedField { field: String, keyword: String },
    /// The line has `found` fields where exactly `expected` were expected.
    FieldCount { found: usize, expected: usize },
    /// The line has `found` fields where at least `expected` were expected.
    TooFewFields { found: usize, expected: usize },
    /// The line has `found` fields where at most `expected` were expected.
    TooManyFields { found: usize, expected: usize },
    /// A field is not an integer of the expected type.
    InvalidInteger { field: String, int_error: IntErrorKind },
    /// A field is not a real number.
    InvalidReal { field: String, real_error: RealErrorKind },
    /// A field is not an RGB color.
    InvalidRgb { field: String },
    /// A field is not a color reference.
    InvalidColorRef { field: String },
    /// The line type is not one of 0 to 5.
    InvalidLineType { line_type: u8 },
    /// A field is not an update tag.
    InvalidUpdateTag { field: String },
    /// An update tag gives "??" as release.
    UnknownRelease,
    /// A field is not a rotation sense.
    InvalidRotationSense { field: String },
    /// The fields (joined) are not a BFC declaration.
    InvalidBfc { text: String },
    /// MATERIAL ends the line.
    MaterialMissingArguments,
    /// ALPHA ends the line.
    AlphaMissingArgument,
    /// LUMINANCE ends the line.
    LuminanceMissingArgument,
    /// The FRACTION value is outside [0.0, 1.0].
    FractionOutOfRange { field: String },
    /// The VFRACTION value is outside [0.0, 1.0].
    VFractionOutOfRange { field: String },
    /// A size keyword of a material is not SIZE or MINSIZE.
    UnknownMaterialKeyword { keyword: String, material: String },
    /// Fields (joined) are left at the end of a !COLOUR line.
    UnprocessedColorFields { text: String },
    /// The content description of an official file type is missing.
    MissingContents,
    /// A field is not a content type.
    InvalidContents { field: String },
    /// The update tag of an official file type is missing.
    MissingUpdateTag,
    /// UPDATE ends the line.
    UpdateMissingArgument,
    /// A field is neither ORIGINAL nor UPDATE where an update tag is needed.
    UnexpectedUpdateTag { field: String },
    /// Fields (joined) are left at the end of a file type line.
    UnprocessedFileTypeFields { text: String, keyword: String },
    /// The text is not a history entry.
    InvalidHistory { text: String },
    /// No color is known under this index.
    UnknownColor { index: u16 },
    /// RGB color references are not supported when resolving colors.
    UnsupportedRgbColor,
    /// A file holds no part of this name.
    PartNotFound { name: String, file: String },
    /// The file cannot be opened for reading; the message is the system's.
    CannotOpen { message: String },
    /// A line cannot be read; the message is the system's.
    CannotRead { message: String },
    /// The path does not name a file.
    NotAFile,
    /// No file is found under the path.
    FileNotFound,
}

/// The kinds of parse errors, as values.
pub enum SpecParseErrorKind {
    UnexpectedField { field: Seq<char>, keyword: Seq<char> },
    FieldCount { found: usize, expected: usize },
    TooFewFields { found: usize, expected: usize },
    TooManyFields { found: usize, expected: usize },
    InvalidInteger { field: Seq<char>, int_error: IntErrorKind },
    InvalidReal { field: Seq<char>, real_error: RealErrorKind },
    InvalidRgb { field: Seq<char> },
    InvalidColorRef { field: Seq<char> },
    InvalidLineType { line_type: u8 },
    InvalidUpdateTag { field: Seq<char> },
    UnknownRelease,
    InvalidRotationSense { field: Seq<char> },
    InvalidBfc { text: Seq<char> },
    MaterialMissingArguments,
    AlphaMissingArgument,
    LuminanceMissingArgument,
    FractionOutOfRange { field: Seq<char> },
    VFractionOutOfRange { field: Seq<char> },
    UnknownMaterialKeyword { keyword: Seq<char>, material: Seq<char> },
    UnprocessedColorFields { text: Seq<char> },
    MissingContents,
    InvalidContents { field: Seq<char> },
    MissingUpdateTag,
    UpdateMissingArgument,
    UnexpectedUpdateTag { field: Seq<char> },
    UnprocessedFileTypeFields { text: Seq<char>, keyword: Seq<char> },
    InvalidHistory { text: Seq<char> },
    UnknownColor { index: u16 },
    UnsupportedRgbColor,
    PartNotFound { name: Seq<char>, file: Seq<char> },
    CannotOpen { message: Seq<char> },
    CannotRead { message: Seq<char> },
    NotAFile,
    FileNotFound,
}

impl DeepView for ParseErrorKind {
    type V = SpecParseErrorKind;

    open spec fn deep_view(&self) -> SpecParseErrorKind {
        match self {
            ParseErrorKind::UnexpectedField { field, keyword } =>
                SpecParseErrorKind::UnexpectedField { field: field@, keyword: keyword@ },
            ParseErrorKind::FieldCount { found, expected } =>
                SpecParseErrorKind::FieldCount { found: *found, expected: *expected },
            ParseErrorKind::TooFewFields { found, expected } =>
                SpecParseErrorKind::TooFewFields { found: *found, expected: *expected },
            ParseErrorKind::TooManyFields { found, expected } =>
                SpecParseErrorKind::TooManyFields { found: *found, expected: *expected },
            ParseErrorKind::InvalidInteger { field, int_error } =>
                SpecParseErrorKind::InvalidInteger { field: field@, int_error: *int_error },
            ParseErrorKind::InvalidReal { field, real_error } =>
                SpecParseErrorKind::InvalidReal { field: field@, real_error: *real_error },
            ParseErrorKind::InvalidRgb { field } => SpecParseErrorKind::InvalidRgb { field: field@ },
            ParseErrorKind::InvalidColorRef { field } =>
                SpecParseErrorKind::InvalidColorRef { field: field@ },
            ParseErrorKind::InvalidLineType { line_type } =>
                SpecParseErrorKind::InvalidLineType { line_type: *line_type },
            ParseErrorKind::InvalidUpdateTag { field } =>
                SpecParseErrorKind::InvalidUpdateTag { field: field@ },
            ParseErrorKind::UnknownRelease => SpecParseErrorKind::UnknownRelease,
            ParseErrorKind::InvalidRotationSense { field } =>
                SpecParseErrorKind::InvalidRotationSense { field: field@ },
            ParseErrorKind::InvalidBfc { text } => SpecParseErrorKind::InvalidBfc { text: text@ },
            ParseErrorKind::MaterialMissingArguments => SpecParseErrorKind::MaterialMissingArguments,
            ParseErrorKind::AlphaMissingArgument => SpecParseErrorKind::AlphaMissingArgument,
            ParseErrorKind::LuminanceMissingArgument => SpecParseErrorKind::LuminanceMissingArgument,
            ParseErrorKind::FractionOutOfRange { field } =>
                SpecParseErrorKind::FractionOutOfRange { field: field@ },
            ParseErrorKind::VFractionOutOfRange { field } =>
                SpecParseErrorKind::VFractionOutOfRange { field: field@ },
            ParseErrorKind::UnknownMaterialKeyword { keyword, material } =>
                SpecParseErrorKind::UnknownMaterialKeyword {
                    keyword: keyword@,
                    material: material@,
                },
            ParseErrorKind::UnprocessedColorFields { text } =>
                SpecParseErrorKind::UnprocessedColorFields { text: text@ },
            ParseErrorKind::MissingContents => SpecParseErrorKind::MissingContents,
            ParseErrorKind::InvalidContents { field } =>
                SpecParseErrorKind::InvalidContents { field: field@ },
            ParseErrorKind::MissingUpdateTag => SpecParseErrorKind::MissingUpdateTag,
            ParseErrorKind::UpdateMissingArgument => SpecParseErrorKind::UpdateMissingArgument,
            ParseErrorKind::UnexpectedUpdateTag { field } =>
                SpecParseErrorKind::UnexpectedUpdateTag { field: field@ },
            ParseErrorKind::UnprocessedFileTypeFields { text, keyword } =>
                SpecParseErrorKind::UnprocessedFileTypeFields { text: text@, keyword: keyword@ },
            ParseErrorKind::InvalidHistory { text } => SpecParseErrorKind::InvalidHistory {
                text: text@,
            },
            ParseErrorKind::UnknownColor { index } => SpecParseErrorKind::UnknownColor {
                index: *index,
            },
            ParseErrorKind::UnsupportedRgbColor => SpecParseErrorKind::UnsupportedRgbColor,
            ParseErrorKind::PartNotFound { name, file } => SpecParseErrorKind::PartNotFound {
                name: name@,
                file: file@,
            },
            ParseErrorKind::CannotOpen { message } => SpecParseErrorKind::CannotOpen {
                message: message@,
            },
            ParseErrorKind::CannotRead { message } => SpecParseErrorKind::CannotRead {
                message: message@,
            },
            ParseErrorKind::NotAFile => SpecParseErrorKind::NotAFile,
            ParseErrorKind::FileNotFound => SpecParseErrorKind::FileNotFound,
        }
    }
}

/// Parse error.
#[derive(Debug, PartialEq)]
pub struct ParseError {
    pub path: String,
    pub line_number: u32,
    pub error: ParseErrorKind,
}

/// Parse error, as values.
pub struct SpecParseError {
    pub path: Seq<char>,
    pub line_number: u32,
    pub error: SpecParseErrorKind,
}

impl DeepView for ParseError {
    type V = SpecParseError;

    open spec fn deep_view(&self) -> SpecParseError {
        SpecParseError { path: self.path@, line_number: self.line_number, error: self.error.deep_view() }
    }
}

/// Result of a parsing operation.
pub type ParseResult<T> = Result<T, Vec<ParseError>>;

/// Result of a parsing operation that reports at most one error.
pub type ParseResult1<T> = Result<T, ParseError>;

/// The error of this kind at this position.
pub open spec fn error_at(path: Seq<char>, line_number: u32, kind: SpecParseErrorKind) -> SpecParseError {
    SpecParseError { path, line_number, error: kind }
}

/// `res` is the outcome `expected`, its error (if any) placed at `path` and
/// `line_number`.
pub open spec fn yields<T: DeepView>(
    res: ParseResult1<T>,
    path: Seq<char>,
    line_number: u32,
    expected: Result<T::V, SpecParseErrorKind>,
) -> bool {
    match res {
        Ok(v) => expected == Ok::<T::V, SpecParseErrorKind>(v.deep_view()),
        Err(e) => expected is Err && e.deep_view() == error_at(path, line_number, expected->Err_0),
    }
}

/// The error of kind `kind` at `path` and `line_number`.
pub fn error_at_line(path: &str, line_number: u32, kind: ParseErrorKind) -> (e: ParseError)
    ensures
        e.deep_view() == error_at(path@, line_number, kind.deep_view()),
{
    ParseError { path: owned(path), line_number, error: kind }
}

// ---------------------------------------------------------------------------
// Messages.
// ---------------------------------------------------------------------------

/// Appends the characters of `s` to `out`.
pub fn append_text(out: &mut Vec<char>, s: &str)
    ensures
        final(out)@ == old(out)@ + s@,
{
    let chars = chars_of(s);
    let ghost start = out@;
    let mut i: usize = 0;
    while i < chars.len()
        invariant
            chars@ == s@,
            0 <= i <= chars.len(),
            out@ == start + chars@.take(i as int),
        decreases chars.len() - i,
    {
        out.push(chars[i]);
        assert(chars@.take(i + 1) =~= chars@.take(i as int).push(chars@[i as int]));
        i += 1;
    }
    assert(chars@.take(chars.len() as int) =~= chars@);
}

/// The decimal digit of a value below 10.
fn digit(d: u64) -> (c: char)
    requires
        d < 10,
    ensures
        c == digit_char(d as nat),
{
    if d == 0 {
        '0'
    } else if d == 1 {
        '1'
    } else if d == 2 {
        '2'
    } else if d == 3 {
        '3'
    } else if d == 4 {
        '4'
    } else if d == 5 {
        '5'
    } else if d == 6 {
        '6'
    } else if d == 7 {
        '7'
    } else if d == 8 {
        '8'
    } else {
        '9'
    }
}

/// Appends the decimal text of `n` to `out`.
pub fn append_decimal(out: &mut Vec<char>, n: u64)
    ensures
        final(out)@ == old(out)@ + decimal_text(n as nat),
    decreases n,
{
    if n < 10 {
        out.push(digit(n));
        assert(decimal_text(n as nat) == seq![digit_char(n as nat)]);
    } else {
        let ghost start = out@;
        append_decimal(out, n / 10);
        out.push(digit(n % 10));
        assert(decimal_text(n as nat) == decimal_text((n / 10) as nat).push(
            digit_char((n % 10) as nat),
        ));
        assert(out@ =~= start + decimal_text(n as nat));
    }
}

/// The decimal text of `n`.
pub fn decimal_string(n: u64) -> (res: String)
    ensures
        res@ == decimal_text(n as nat),
{
    let mut out: Vec<char> = Vec::new();
    append_decimal(&mut out, n);
    assert(out@ =~= decimal_text(n as nat));
    string_of(&out)
}

/// What std says of an integer that does not parse.
pub open spec fn int_error_text(k: IntErrorKind) -> Seq<char> {
    match k {
        IntErrorKind::Empty => "cannot parse integer from empty string"@,
        IntErrorKind::InvalidDigit => "invalid digit found in string"@,
        IntErrorKind::PosOverflow => "number too large to fit in target type"@,
    }
}

/// What std says of an integer that does not parse.
fn int_error_message(k: IntErrorKind) -> (res: &'static str)
    ensures
        res@ == int_error_text(k),
{
    match k {
        IntErrorKind::Empty => "cannot parse integer from empty string",
        IntErrorKind::InvalidDigit => "invalid digit found in string",
        IntErrorKind::PosOverflow => "number too large to fit in target type",
    }
}

/// What std says of a float that does not parse.
pub open spec fn real_error_text(k: RealErrorKind) -> Seq<char> {
    match k {
        RealErrorKind::Empty => "cannot parse float from empty string"@,
        RealErrorKind::Invalid => "invalid float literal"@,
    }
}

/// What std says of a float that does not parse.
fn real_error_message(k: RealErrorKind) -> (res: &'static str)
    ensures
        res@ == real_error_text(k),
{
    match k {
        RealErrorKind::Empty => "cannot parse float from empty string",
        RealErrorKind::Invalid => "invalid float literal",
    }
}

/// The message of a parse error, as the loader prints it after the path
/// and the line number. A fraction outside the unit range is quoted as
/// written.
pub open spec fn message_text(e: SpecParseError) -> Seq<char> {
    match e.error {
        SpecParseErrorKind::UnexpectedField { field, keyword } => "Found \""@ + field + "\" as field where \""@ + keyword + "\" was expected"@,
        SpecParseErrorKind::FieldCount { found, expected } => "Line has "@ + decimal_text(found as nat) + " fields: expected "@ + decimal_text(expected as nat),
        SpecParseErrorKind::TooFewFields { found, expected } => "Line has "@ + decimal_text(found as nat) + " fields: expected at least "@ + decimal_text(expected as nat),
        SpecParseErrorKind::TooManyFields { found, expected } => "Line has "@ + decimal_text(found as nat) + " fields: expected at most "@ + decimal_text(expected as nat),
        SpecParseErrorKind::InvalidInteger { field, int_error } => "Can't parse \""@ + field + "\" as integer: "@ + int_error_text(int_error),
        SpecParseErrorKind::InvalidReal { field, real_error } => "Can't parse \""@ + field + "\" as float: "@ + real_error_text(real_error),
        SpecParseErrorKind::InvalidRgb { field } => "Can't parse \""@ + field + "\" as RGB color"@,
        SpecParseErrorKind::InvalidColorRef { field } => "Can't parse \""@ + field + "\" as color reference"@,
        SpecParseErrorKind::InvalidLineType { line_type } => "Invalid line type "@ + decimal_text(line_type as nat),
        SpecParseErrorKind::InvalidUpdateTag { field } => "Can't parse \""@ + field + "\" as an update tag"@,
        SpecParseErrorKind::UnknownRelease => "Can't use \"??\" as a release"@,
        SpecParseErrorKind::InvalidRotationSense { field } => "Can't parse \""@ + field + "\" as rotation sense"@,
        SpecParseErrorKind::InvalidBfc { text } => "Can't parse \""@ + text + "\" as BFC declaration"@,
        SpecParseErrorKind::MaterialMissingArguments => "MATERIAL keyword missing its arguments"@,
        SpecParseErrorKind::AlphaMissingArgument => "ALPHA keyword missing its argument"@,
        SpecParseErrorKind::LuminanceMissingArgument => "LUMINANCE keyword missing its argument"@,
        SpecParseErrorKind::FractionOutOfRange { field } => "FRACTION value "@ + field + " outside of [0.0, 1.0] range"@,
        SpecParseErrorKind::VFractionOutOfRange { field } => "VFRACTION value "@ + field + " outside of [0.0, 1.0] range"@,
        SpecParseErrorKind::UnknownMaterialKeyword { keyword, material } => "Unknown keyword \""@ + keyword + "\" in MATERIAL "@ + material,
        SpecParseErrorKind::UnprocessedColorFields { text } => "Unprocessed \""@ + text + "\" at the end of !COLOUR"@,
        SpecParseErrorKind::MissingContents => "Missing fields: expected content description"@,
        SpecParseErrorKind::InvalidContents { field } => "Can't parse \""@ + field + "\" as content type"@,
        SpecParseErrorKind::MissingUpdateTag => "Missing fields: expected update tag"@,
        SpecParseErrorKind::UpdateMissingArgument => "UPDATE keyword missing its argument"@,
        SpecParseErrorKind::UnexpectedUpdateTag { field } => "Can't parse \""@ + field + "\" as update tag"@,
        SpecParseErrorKind::UnprocessedFileTypeFields { text, keyword } => "Unprocessed \""@ + text + "\" at the end of "@ + keyword,
        SpecParseErrorKind::InvalidHistory { text } => "Can't parse \""@ + text + "\" as history entry"@,
        SpecParseErrorKind::UnknownColor { index } => "Can't find color index "@ + decimal_text(index as nat),
        SpecParseErrorKind::UnsupportedRgbColor => "RBG color references not supported"@,
        SpecParseErrorKind::PartNotFound { name, file } => "Can't find "@ + name + " in "@ + file,
        SpecParseErrorKind::CannotOpen { message } => "Can't open "@ + e.path + " for reading: "@ + message,
        SpecParseErrorKind::CannotRead { message } => "Can't read line: "@ + message,
        SpecParseErrorKind::NotAFile => e.path + " is not a file"@,
        SpecParseErrorKind::FileNotFound => "Can't find "@ + e.path,
    }
}

impl ParseError {
    /// The message of the error.
    pub fn message(&self) -> (res: String)
        ensures
            res@ == message_text(self.deep_view()),
    {
        let mut out: Vec<char>;
        match &self.error {
            ParseErrorKind::UnexpectedField { field, keyword } => {
                out = chars_of("Found \"");
                append_text(&mut out, field.as_str());
                append_text(&mut out, "\" as field where \"");
                append_text(&mut out, keyword.as_str());
                append_text(&mut out, "\" was expected");
            },
            ParseErrorKind::FieldCount { found, expected } => {
                out = chars_of("Line has ");
                append_decimal(&mut out, *found as u64);
                append_text(&mut out, " fields: expected ");
                append_decimal(&mut out, *expected as u64);
            },
            ParseErrorKind::TooFewFields { found, expected } => {
                out = chars_of("Line has ");
                append_decimal(&mut out, *found as u64);
                append_text(&mut out, " fields: expected at least ");
                append_decimal(&mut out, *expected as u64);
            },
            ParseErrorKind::TooManyFields { found, expected } => {
                out = chars_of("Line has ");
                append_decimal(&mut out, *found as u64);
                append_text(&mut out, " fields: expected at most ");
                append_decimal(&mut out, *expected as u64);
            },
            ParseErrorKind::InvalidInteger { field, int_error } => {
                out = chars_of("Can't parse \"");
                append_text(&mut out, field.as_str());
                append_text(&mut out, "\" as integer: ");
                append_text(&mut out, int_error_message(*int_error));
            },
            ParseErrorKind::InvalidReal { field, real_error } => {
                out = chars_of("Can't parse \"");
                append_text(&mut out, field.as_str());
                append_text(&mut out, "\" as float: ");
                append_text(&mut out, real_error_message(*real_error));
            },
            ParseErrorKind::InvalidRgb { field } => {
                out = chars_of("Can't parse \"");
                append_text(&mut out, field.as_str());
                append_text(&mut out, "\" as RGB color");
            },
            ParseErrorKind::InvalidColorRef { field } => {
                out = chars_of("Can't parse \"");
                append_text(&mut out, field.as_str());
                append_text(&mut out, "\" as color reference");
            },
            ParseErrorKind::InvalidLineType { line_type } => {
                out = chars_of("Invalid line type ");
                append_decimal(&mut out, *line_type as u64);
            },
            ParseErrorKind::InvalidUpdateTag { field } => {
                out = chars_of("Can't parse \"");
                append_text(&mut out, field.as_str());
                append_text(&mut out, "\" as an update tag");
            },
            ParseErrorKind::UnknownRelease => {
                out = chars_of("Can't use \"??\" as a release");
            },
            ParseErrorKind::InvalidRotationSense { field } => {
                out = chars_of("Can't parse \"");
                append_text(&mut out, field.as_str());
                append_text(&mut out, "\" as rotation sense");
            },
            ParseErrorKind::InvalidBfc { text } => {
                out = chars_of("Can't parse \"");
                append_text(&mut out, text.as_str());
                append_text(&mut out, "\" as BFC declaration");
            },
            ParseErrorKind::MaterialMissingArguments => {
                out = chars_of("MATERIAL keyword missing its arguments");
            },
            ParseErrorKind::AlphaMissingArgument => {
                out = chars_of("ALPHA keyword missing its argument");
            },
            ParseErrorKind::LuminanceMissingArgument => {
                out = chars_of("LUMINANCE keyword missing its argument");
            },
            ParseErrorKind::FractionOutOfRange { field } => {
                out = chars_of("FRACTION value ");
                append_text(&mut out, field.as_str());
                append_text(&mut out, " outside of [0.0, 1.0] range");
            },
            ParseErrorKind::VFractionOutOfRange { field } => {
                out = chars_of("VFRACTION value ");
                append_text(&mut out, field.as_str());
                append_text(&mut out, " outside of [0.0, 1.0] range");
            },
            ParseErrorKind::UnknownMaterialKeyword { keyword, material } => {
                out = chars_of("Unknown keyword \"");
                append_text(&mut out, keyword.as_str());
                append_text(&mut out, "\" in MATERIAL ");
                append_text(&mut out, material.as_str());
            },
            ParseErrorKind::UnprocessedColorFields { text } => {
                out = chars_of("Unprocessed \"");
                append_text(&mut out, text.as_str());
                append_text(&mut out, "\" at the end of !COLOUR");
            },
            ParseErrorKind::MissingContents => {
                out = chars_of("Missing fields: expected content description");
            },
            ParseErrorKind::InvalidContents { field } => {
                out = chars_of("Can't parse \"");
                append_text(&mut out, field.as_str());
                append_text(&mut out, "\" as content type");
            },
            ParseErrorKind::MissingUpdateTag => {
                out = chars_of("Missing fields: expected update tag");
            },
            ParseErrorKind::UpdateMissingArgument => {
                out = chars_of("UPDATE keyword missing its argument");
            },
            ParseErrorKind::UnexpectedUpdateTag { field } => {
                out = chars_of("Can't parse \"");
                append_text(&mut out, field.as_str());
                append_text(&mut out, "\" as update tag");
            },
            ParseErrorKind::UnprocessedFileTypeFields { text, keyword } => {
                out = chars_of("Unprocessed \"");
                append_text(&mut out, text.as_str());
                append_text(&mut out, "\" at the end of ");
                append_text(&mut out, keyword.as_str());
            },
            ParseErrorKind::InvalidHistory { text } => {
                out = chars_of("Can't parse \"");
                append_text(&mut out, text.as_str());
                append_text(&mut out, "\" as history entry");
            },
            ParseErrorKind::UnknownColor { index } => {
                out = chars_of("Can't find color index ");
                append_decimal(&mut out, *index as u64);
            },
            ParseErrorKind::UnsupportedRgbColor => {
                out = chars_of("RBG color references not supported");
            },
            ParseErrorKind::PartNotFound { name, file } => {
                out = chars_of("Can't find ");
                append_text(&mut out, name.as_str());
                append_text(&mut out, " in ");
                append_text(&mut out, file.as_str());
            },
            ParseErrorKind::CannotOpen { message } => {
                out = chars_of("Can't open ");
                append_text(&mut out, self.path.as_str());
                append_text(&mut out, " for reading: ");
                append_text(&mut out, message.as_str());
            },
            ParseErrorKind::CannotRead { message } => {
                out = chars_of("Can't read line: ");
                append_text(&mut out, message.as_str());
            },
            ParseErrorKind::NotAFile => {
                out = chars_of(self.path.as_str());
                append_text(&mut out, " is not a file");
            },
            ParseErrorKind::FileNotFound => {
                out = chars_of("Can't find ");
                append_text(&mut out, self.path.as_str());
            },
        }
        string_of(&out)
    }
}

// ---------------------------------------------------------------------------
// Reading lines.
// ---------------------------------------------------------------------------

/// Returns true if the result of a `read_line` operation succeeded.
pub fn read_line_is_ok(result: &std::io::Result<usize>) -> (res: bool)
    ensures
        res == (result matches Ok(count) && count > 0),
{
    match result {
        Ok(count) => *count > 0,
        Err(_) => false,
    }
}

/// The calls of `func` on the inputs before `k` returned the outputs `done`
/// and the call on input `k` returned the error `e`.
pub open spec fn fails_at<T, O, E, F: Fn(&T) -> Result<O, E>>(
    func: F,
    inputs: Seq<T>,
    done: Seq<O>,
    k: int,
    e: E,
) -> bool {
    &&& 0 <= k < inputs.len()
    &&& done.len() == k
    &&& call_ensures(func, (&inputs[k],), Err::<O, E>(e))
    &&& forall|j: int| 0 <= j < k ==> call_ensures(func, (&inputs[j],), Ok::<O, E>(#[trigger] done[j]))
}

/// Maps a function over a container on the Result monad: the outputs of all
/// the calls, or the error of the first call that fails.
pub fn map_result_monad<T, O, E, F: Fn(&T) -> Result<O, E>>(func: F, inputs: &[T]) -> (res:
    Result<Vec<O>, E>)
    requires
        forall|i: int| 0 <= i < inputs@.len() ==> call_requires(func, (&inputs@[i],)),
    ensures
        match res {
            Ok(outputs) => {
                &&& outputs@.len() == inputs@.len()
                &&& forall|i: int|
                    0 <= i < inputs@.len() ==> call_ensures(
                        func,
                        (&inputs@[i],),
                        Ok::<O, E>(#[trigger] outputs@[i]),
                    )
            },
            Err(e) => exists|k: int, done: Seq<O>| #[trigger] fails_at(func, inputs@, done, k, e),
        },
{
    let mut outputs: Vec<O> = Vec::new();
    let mut i: usize = 0;
    while i < inputs.len()
        invariant
            0 <= i <= inputs@.len(),
            outputs@.len() == i,
            forall|i: int| 0 <= i < inputs@.len() ==> call_requires(func, (&inputs@[i],)),
            forall|j: int|
                0 <= j < i ==> call_ensures(func, (&inputs@[j],), Ok::<O, E>(#[trigger] outputs@[j])),
        decreases inputs@.len() - i,
    {
        let r = func(&inputs[i]);
        match r {
            Ok(o) => {
                outputs.push(o);
            },
            Err(e) => {
                let ghost k = i as int;
                let ghost done = outputs@;
                assert(call_ensures(func, (&inputs@[k],), Err::<O, E>(e)));
                assert(done.len() == k);
                assert(fails_at(func, inputs@, done, k, e));
                assert(exists|k: int, done: Seq<O>| #[trigger] fails_at(func, inputs@, done, k, e));
                let res: Result<Vec<O>, E> = Err(e);
                assert(res->Err_0 == e);
                return res;
            },
        }
        i += 1;
    }
    Ok(outputs)
}

// ---------------------------------------------------------------------------
// Checks on fields.
// ---------------------------------------------------------------------------

/// Verifies that a field in a line matches a keyword.
pub fn check_field_is(path: &str, line_number: u32, field: &str, keyword: &str) -> (res:
    ParseResult1<()>)
    ensures
        yields(
            res,
            path@,
            line_number,
            if field@ == keyword@ {
                Ok(())
            } else {
                Err(SpecParseErrorKind::UnexpectedField { field: field@, keyword: keyword@ })
            },
        ),
{
    if !same_text(field, keyword) {
        Err(
            error_at_line(
                path,
                line_number,
                ParseErrorKind::UnexpectedField { field: owned(field), keyword: owned(keyword) },
            ),
        )
    } else {
        Ok(())
    }
}

/// The outcome of checking that there are exactly `n` fields.
pub open spec fn fields_eq_outcome(count: usize, n: usize) -> Result<(), SpecParseErrorKind> {
    if count != n {
        Err(SpecParseErrorKind::FieldCount { found: count, expected: n })
    } else {
        Ok(())
    }
}

/// The outcome of checking that there are at least `n` fields.
pub open spec fn fields_ge_outcome(count: usize, n: usize) -> Result<(), SpecParseErrorKind> {
    if count < n {
        Err(SpecParseErrorKind::TooFewFields { found: count, expected: n })
    } else {
        Ok(())
    }
}

/// The outcome of checking that there are at most `n` fields.
pub open spec fn fields_le_outcome(count: usize, n: usize) -> Result<(), SpecParseErrorKind> {
    if count > n {
        Err(SpecParseErrorKind::TooManyFields { found: count, expected: n })
    } else {
        Ok(())
    }
}

/// Verifies that the number of fields in a line is exactly `n`.
pub fn check_fields_eq(path: &str, line_number: u32, fields: &Vec<&str>, n: usize) -> (res:
    ParseResult1<()>)
    ensures
        yields(res, path@, line_number, fields_eq_outcome(fields.len(), n)),
{
    if fields.len() != n {
        Err(
            error_at_line(
                path,
                line_number,
                ParseErrorKind::FieldCount { found: fields.len(), expected: n },
            ),
        )
    } else {
        Ok(())
    }
}

/// Verifies that the number of fields in a line is at least `n`.
pub fn check_fields_ge(path: &str, line_number: u32, fields: &Vec<&str>, n: usize) -> (res:
    ParseResult1<()>)
    ensures
        yields(res, path@, line_number, fields_ge_outcome(fields.len(), n)),
{
    if fields.len() < n {
        Err(
            error_at_line(
                path,
                line_number,
                ParseErrorKind::TooFewFields { found: fields.len(), expected: n },
            ),
        )
    } else {
        Ok(())
    }
}

/// Verifies that the number of fields in a line is at most `n`.
pub fn check_fields_le(path: &str, line_number: u32, fields: &Vec<&str>, n: usize) -> (res:
    ParseResult1<()>)
    ensures
        yields(res, path@, line_number, fields_le_outcome(fields.len(), n)),
{
    if fields.len() > n {
        Err(
            error_at_line(
                path,
                line_number,
                ParseErrorKind::TooManyFields { found: fields.len(), expected: n },
            ),
        )
    } else {
        Ok(())
    }
}

/// Verifies that a field in a line exists and returns it: the field at
/// `index`, or the error for too few fields when the line has no field
/// there.
pub fn check_field_get<'a>(path: &str, line_number: u32, fields: &Vec<&'a str>, index: usize) -> (res:
    ParseResult1<&'a str>)
    ensures
        fields.len() <= index ==> yields(
            res,
            path@,
            line_number,
            Err(SpecParseErrorKind::TooFewFields { found: fields.len(), expected: index }),
        ),
        index < fields.len() ==> res == Ok::<&str, ParseError>(fields@[index as int]),
{
    if fields.len() <= index {
        Err(
            error_at_line(
                path,
                line_number,
                ParseErrorKind::TooFewFields { found: fields.len(), expected: index },
            ),
        )
    } else {
        Ok(fields[index])
    }
}

/// Verifies that a field in a line exists and can be parsed: the error for
/// too few fields when the line has no field at `index` (`parser` is then
/// not called), else what `parser` gives for the field.
pub fn check_field_get_and<O, F: Fn(&str, u32, &str) -> ParseResult1<O>>(
    path: &str,
    line_number: u32,
    fields: &Vec<&str>,
    index: usize,
    parser: F,
) -> (res: ParseResult1<O>)
    requires
        index < fields.len() ==> call_requires(parser, (path, line_number, fields@[index as int])),
    ensures
        fields.len() <= index ==> (res matches Err(e) && e.deep_view() == error_at(
            path@,
            line_number,
            SpecParseErrorKind::TooFewFields { found: fields.len(), expected: index },
        )),
        index < fields.len() ==> call_ensures(parser, (path, line_number, fields@[index as int]), res),
{
    if fields.len() <= index {
        Err(
            error_at_line(
                path,
                line_number,
                ParseErrorKind::TooFewFields { found: fields.len(), expected: index },
            ),
        )
    } else {
        parser(path, line_number, fields[index])
    }
}

// ---------------------------------------------------------------------------
// Integers.
// ---------------------------------------------------------------------------

/// Decimal digits.
pub open spec fn is_decimal_digit(c: char) -> bool {
    '0' <= c && c <= '9'
}

/// The value of a decimal digit.
pub open spec fn decimal_value(c: char) -> int {
    c as int - '0' as int
}

/// Reading `digits` in base 10 after the value `acc` has been read, for a
/// type whose largest value is `max`: the first character that is not a
/// digit, or the first digit after which the value exceeds `max`, stops the
/// reading with an error.
pub open spec fn accumulate_decimal(digits: Seq<char>, acc: int, max: int) -> Result<
    int,
    IntErrorKind,
>
    decreases digits.len(),
{
    if digits.len() == 0 {
        Ok(acc)
    } else if !is_decimal_digit(digits[0]) {
        Err(IntErrorKind::InvalidDigit)
    } else if acc * 10 + decimal_value(digits[0]) > max {
        Err(IntErrorKind::PosOverflow)
    } else {
        accumulate_decimal(digits.drop_first(), acc * 10 + decimal_value(digits[0]), max)
    }
}

/// The value of `s` read as an unsigned decimal integer of a type whose
/// largest value is `max`, as std's `from_str_radix` with radix 10 reads
/// it: an optional leading `+`, then digits.
pub open spec fn unsigned_value(s: Seq<char>, max: int) -> Result<int, IntErrorKind> {
    if s.len() == 0 {
        Err(IntErrorKind::Empty)
    } else if s.len() == 1 && (s[0] == '+' || s[0] == '-') {
        Err(IntErrorKind::InvalidDigit)
    } else if s[0] == '+' {
        accumulate_decimal(s.drop_first(), 0, max)
    } else {
        accumulate_decimal(s, 0, max)
    }
}

/// Reads `s` as an unsigned decimal integer no larger than `max`.
pub fn read_unsigned(s: &Vec<char>, max: u32) -> (res: Result<u32, IntErrorKind>)
    requires
        max <= 0xffff,
    ensures
        match res {
            Ok(v) => v <= max && unsigned_value(s@, max as int) == Ok::<int, IntErrorKind>(v as int),
            Err(k) => unsigned_value(s@, max as int) == Err::<int, IntErrorKind>(k),
        },
{
    if s.len() == 0 {
        return Err(IntErrorKind::Empty);
    }
    if s.len() == 1 && (s[0] == '+' || s[0] == '-') {
        return Err(IntErrorKind::InvalidDigit);
    }
    let mut i: usize = if s[0] == '+' {
        1
    } else {
        0
    };
    let mut acc: u32 = 0;
    assert(s@.skip(1) =~= s@.drop_first());
    assert(s@.skip(0) =~= s@);
    while i < s.len()
        invariant
            max <= 0xffff,
            0 <= i <= s.len(),
            acc <= max,
            unsigned_value(s@, max as int) == accumulate_decimal(s@.skip(i as int), acc as int, max as int),
        decreases s.len() - i,
    {
        let ghost rest = s@.skip(i as int);
        assert(rest[0] == s@[i as int]);
        assert(rest.drop_first() =~= s@.skip(i + 1));
        let c = s[i];
        if !('0' <= c && c <= '9') {
            return Err(IntErrorKind::InvalidDigit);
        }
        let d: u32 = (c as u32) - ('0' as u32);
        let next: u32 = acc * 10 + d;
        if next > max {
            return Err(IntErrorKind::PosOverflow);
        }
        acc = next;
        i += 1;
    }
    assert(s@.skip(i as int) =~= Seq::<char>::empty());
    Ok(acc)
}

/// The decimal digit of the value `d` (below 10).
pub open spec fn digit_char(d: nat) -> char {
    if d == 0 {
        '0'
    } else if d == 1 {
        '1'
    } else if d == 2 {
        '2'
    } else if d == 3 {
        '3'
    } else if d == 4 {
        '4'
    } else if d == 5 {
        '5'
    } else if d == 6 {
        '6'
    } else if d == 7 {
        '7'
    } else if d == 8 {
        '8'
    } else {
        '9'
    }
}

/// The decimal text of `n`: its digits, most significant first, with no
/// leading zero.
pub open spec fn decimal_text(n: nat) -> Seq<char>
    decreases n,
{
    if n < 10 {
        seq![digit_char(n)]
    } else {
        decimal_text(n / 10).push(digit_char(n % 10))
    }
}

/// Reading one more digit after `s` goes on from the value that `s` gives.
proof fn lemma_accumulate_push(s: Seq<char>, acc: int, max: int, c: char)
    requires
        accumulate_decimal(s, acc, max) is Ok,
        is_decimal_digit(c),
    ensures
        accumulate_decimal(s.push(c), acc, max) == (if accumulate_decimal(s, acc, max)->Ok_0 * 10
            + decimal_value(c) > max {
            Err::<int, IntErrorKind>(IntErrorKind::PosOverflow)
        } else {
            Ok(accumulate_decimal(s, acc, max)->Ok_0 * 10 + decimal_value(c))
        }),
    decreases s.len(),
{
    let t = s.push(c);
    if s.len() == 0 {
        assert(accumulate_decimal(s, acc, max) == Ok::<int, IntErrorKind>(acc));
        assert(t[0] == c);
        assert(t.drop_first() =~= Seq::<char>::empty());
        assert(accumulate_decimal(t.drop_first(), acc * 10 + decimal_value(c), max) == Ok::<
            int,
            IntErrorKind,
        >(acc * 10 + decimal_value(c)));
    } else {
        let next = acc * 10 + decimal_value(s[0]);
        assert(t[0] == s[0]);
        assert(t.drop_first() =~= s.drop_first().push(c));
        assert(accumulate_decimal(s, acc, max) == accumulate_decimal(s.drop_first(), next, max));
        lemma_accumulate_push(s.drop_first(), next, max, c);
        assert(accumulate_decimal(t, acc, max) == accumulate_decimal(t.drop_first(), next, max));
    }
}

/// The decimal text of `n` holds only digits, and reading it gives `n`
/// while `n` is no larger than `max`.
proof fn lemma_decimal_reads_back(n: nat, max: int)
    requires
        n <= max,
    ensures
        decimal_text(n).len() >= 1,
        forall|k: int| 0 <= k < decimal_text(n).len() ==> is_decimal_digit(#[trigger] decimal_text(n)[k]),
        accumulate_decimal(decimal_text(n), 0, max) == Ok::<int, IntErrorKind>(n as int),
    decreases n,
{
    if n < 10 {
        let t = decimal_text(n);
        assert(t == seq![digit_char(n)]);
        assert(decimal_value(t[0]) == n);
        assert(is_decimal_digit(t[0]));
        assert(t.drop_first() =~= Seq::<char>::empty());
        assert(accumulate_decimal(t.drop_first(), n as int, max) == Ok::<int, IntErrorKind>(n as int));
        assert(accumulate_decimal(t, 0, max) == accumulate_decimal(t.drop_first(), n as int, max));
    } else {
        let q = (n / 10) as nat;
        let d = (n % 10) as nat;
        lemma_decimal_reads_back(q, max);
        let c = digit_char(d);
        assert(decimal_value(c) == d);
        lemma_accumulate_push(decimal_text(q), 0, max, c);
        assert(q * 10 + d == n);
        let t = decimal_text(n);
        assert(t == decimal_text(q).push(c));
        assert forall|k: int| 0 <= k < t.len() implies is_decimal_digit(#[trigger] t[k]) by {
            if k < t.len() - 1 {
                assert(t[k] == decimal_text(q)[k]);
            }
        }
    }
}

/// The decimal text of an integer no larger than a type's maximum reads
/// back as that integer; in particular every 8-bit and 16-bit integer,
/// written in decimal, parses back to itself.
pub proof fn law_decimal_round_trip(n: nat, max: int)
    requires
        n <= max,
    ensures
        unsigned_value(decimal_text(n), max) == Ok::<int, IntErrorKind>(n as int),
        n <= 0xff ==> u8_outcome(decimal_text(n)) == Ok::<u8, SpecParseErrorKind>(n as u8),
        n <= 0xffff ==> u16_outcome(decimal_text(n)) == Ok::<u16, SpecParseErrorKind>(n as u16),
{
    lemma_decimal_reads_back(n, max);
    let t = decimal_text(n);
    assert(is_decimal_digit(t[0]));
    if n <= 0xff {
        lemma_decimal_reads_back(n, 0xff);
    }
    if n <= 0xffff {
        lemma_decimal_reads_back(n, 0xffff);
    }
}

/// The outcome of reading a field as an integer no larger than `max`.
pub open spec fn integer_outcome(field: Seq<char>, max: int) -> Result<int, SpecParseErrorKind> {
    match unsigned_value(field, max) {
        Ok(v) => Ok(v),
        Err(k) => Err(SpecParseErrorKind::InvalidInteger { field, int_error: k }),
    }
}

/// The outcome of parsing a field as an 8-bit integer.
pub open spec fn u8_outcome(field: Seq<char>) -> Result<u8, SpecParseErrorKind> {
    match integer_outcome(field, 0xff) {
        Ok(v) => Ok(v as u8),
        Err(k) => Err(k),
    }
}

/// The outcome of parsing a field as a 16-bit integer.
pub open spec fn u16_outcome(field: Seq<char>) -> Result<u16, SpecParseErrorKind> {
    match integer_outcome(field, 0xffff) {
        Ok(v) => Ok(v as u16),
        Err(k) => Err(k),
    }
}

/// Parses an 8-bit integer.
pub fn parse_u8(path: &str, line_number: u32, field: &str) -> (res: ParseResult1<u8>)
    ensures
        yields(res, path@, line_number, u8_outcome(field@)),
{
    let chars = chars_of(field);
    match read_unsigned(&chars, 0xff) {
        Ok(v) => Ok(v as u8),
        Err(k) => Err(
            error_at_line(
                path,
                line_number,
                ParseErrorKind::InvalidInteger { field: owned(field), int_error: k },
            ),
        ),
    }
}

/// Parses a 16-bit integer.
pub fn parse_u16(path: &str, line_number: u32, field: &str) -> (res: ParseResult1<u16>)
    ensures
        yields(res, path@, line_number, u16_outcome(field@)),
{
    let chars = chars_of(field);
    match read_unsigned(&chars, 0xffff) {
        Ok(v) => Ok(v as u16),
        Err(k) => Err(
            error_at_line(
                path,
                line_number,
                ParseErrorKind::InvalidInteger { field: owned(field), int_error: k },
            ),
        ),
    }
}

// ---------------------------------------------------------------------------
// Reals.
// ---------------------------------------------------------------------------

/// The outcome of reading a field as a real number, given what std reads
/// from it as a 64-bit float.
pub open spec fn real_outcome(field: Seq<char>, reading: RealField) -> Result<
    Seq<char>,
    SpecParseErrorKind,
> {
    match reading {
        RealField::Invalid(cause) => Err(SpecParseErrorKind::InvalidReal { field, real_error: cause }),
        _ => Ok(field),
    }
}

/// Parses a real number, given what std reads from the field as a 64-bit
/// float.
pub fn parse_real(path: &str, line_number: u32, field: &str, reading: RealField) -> (res:
    ParseResult1<Real>)
    ensures
        yields(res, path@, line_number, real_outcome(field@, reading)),
{
    match reading {
        RealField::Invalid(cause) => Err(
            error_at_line(
                path,
                line_number,
                ParseErrorKind::InvalidReal { field: owned(field), real_error: cause },
            ),
        ),
        _ => Ok(Real { text: owned(field) }),
    }
}

// ---------------------------------------------------------------------------
// Colors.
// ---------------------------------------------------------------------------

/// Hexadecimal digits.
pub open spec fn is_hex_digit(c: char) -> bool {
    ('0' <= c && c <= '9') || ('a' <= c && c <= 'f') || ('A' <= c && c <= 'F')
}

/// The value of a hexadecimal digit.
pub open spec fn hex_value(c: char) -> int {
    if '0' <= c && c <= '9' {
        c as int - '0' as int
    } else if 'a' <= c && c <= 'f' {
        c as int - 'a' as int + 10
    } else {
        c as int - 'A' as int + 10
    }
}

/// The value of two hexadecimal digits.
pub open spec fn hex_pair(hi: char, lo: char) -> int {
    hex_value(hi) * 16 + hex_value(lo)
}

/// The digits of an RGB color: what follows its `#` or `0x2` prefix.
pub open spec fn rgb_digits(s: Seq<char>) -> Option<Seq<char>> {
    if s.len() >= 1 && s[0] == '#' {
        Some(s.drop_first())
    } else if s.len() >= 3 && s[0] == '0' && s[1] == 'x' && s[2] == '2' {
        Some(s.skip(3))
    } else {
        None
    }
}

/// The RGB color that `s` denotes: `#` or `0x2` followed by exactly six
/// hexadecimal digits, two for each component.
pub open spec fn rgb_value(s: Seq<char>) -> Option<RGB> {
    match rgb_digits(s) {
        Some(d) => if d.len() == 6 && forall|i: int| 0 <= i < 6 ==> is_hex_digit(#[trigger] d[i]) {
            Some(
                RGB(
                    hex_pair(d[0], d[1]) as u8,
                    hex_pair(d[2], d[3]) as u8,
                    hex_pair(d[4], d[5]) as u8,
                ),
            )
        } else {
            None
        },
        None => None,
    }
}

/// The outcome of parsing a field as an RGB color.
pub open spec fn rgb_outcome(field: Seq<char>) -> Result<RGB, SpecParseErrorKind> {
    match rgb_value(field) {
        Some(rgb) => Ok(rgb),
        None => Err(SpecParseErrorKind::InvalidRgb { field }),
    }
}

/// The value of a hexadecimal digit, if `c` is one.
fn hex_digit(c: char) -> (res: Option<u8>)
    ensures
        match res {
            Some(v) => is_hex_digit(c) && v as int == hex_value(c),
            None => !is_hex_digit(c),
        },
{
    if '0' <= c && c <= '9' {
        Some(((c as u32) - ('0' as u32)) as u8)
    } else if 'a' <= c && c <= 'f' {
        Some(((c as u32) - ('a' as u32) + 10) as u8)
    } else if 'A' <= c && c <= 'F' {
        Some(((c as u32) - ('A' as u32) + 10) as u8)
    } else {
        None
    }
}

/// The value of the two hexadecimal digits at `i` and `i + 1`.
fn hex_byte(d: &Vec<char>, i: usize) -> (res: Option<u8>)
    requires
        i + 1 < d.len(),
    ensures
        match res {
            Some(v) => is_hex_digit(d@[i as int]) && is_hex_digit(d@[i + 1]) && v as int == hex_pair(
                d@[i as int],
                d@[i + 1],
            ),
            None => !is_hex_digit(d@[i as int]) || !is_hex_digit(d@[i + 1]),
        },
{
    match (hex_digit(d[i]), hex_digit(d[i + 1])) {
        (Some(hi), Some(lo)) => Some(hi * 16 + lo),
        _ => None,
    }
}

/// Reads an RGB color.
pub fn read_rgb(field: &str) -> (res: Option<RGB>)
    ensures
        res == rgb_value(field@),
{
    let s = chars_of(field);
    let start: usize = if s.len() >= 1 && s[0] == '#' {
        1
    } else if s.len() >= 3 && s[0] == '0' && s[1] == 'x' && s[2] == '2' {
        3
    } else {
        return None;
    };
    assert(s@.skip(1) =~= s@.drop_first());
    let ghost d = s@.skip(start as int);
    assert(rgb_digits(field@) == Some(d));
    if s.len() - start != 6 {
        return None;
    }
    match (hex_byte(&s, start), hex_byte(&s, start + 2), hex_byte(&s, start + 4)) {
        (Some(r), Some(g), Some(b)) => {
            assert(forall|i: int| 0 <= i < 6 ==> d[i] == s@[start + i]);
            Some(RGB(r, g, b))
        },
        _ => {
            assert(forall|i: int| 0 <= i < 6 ==> d[i] == s@[start + i]);
            assert(!is_hex_digit(d[0]) || !is_hex_digit(d[1]) || !is_hex_digit(d[2]) || !is_hex_digit(d[3])
                || !is_hex_digit(d[4]) || !is_hex_digit(d[5]));
            None
        },
    }
}

/// Parses an RGB color.
pub fn parse_rgb(path: &str, line_number: u32, field: &str) -> (res: ParseResult1<RGB>)
    ensures
        yields(res, path@, line_number, rgb_outcome(field@)),
{
    match read_rgb(field) {
        Some(rgb) => Ok(rgb),
        None => Err(
            error_at_line(path, line_number, ParseErrorKind::InvalidRgb { field: owned(field) }),
        ),
    }
}

/// The color reference that a field denotes: a color index when the field
/// is a 16-bit integer, else an RGB color.
pub open spec fn color_ref_value(field: Seq<char>) -> Option<ColorRef> {
    match unsigned_value(field, 0xffff) {
        Ok(index) => Some(ColorRef::Indexed(index as u16)),
        Err(_) => match rgb_value(field) {
            Some(rgb) => Some(ColorRef::RGB(rgb)),
            None => None,
        },
    }
}

/// The outcome of parsing a field as a color reference.
pub open spec fn color_ref_outcome(field: Seq<char>) -> Result<ColorRef, SpecParseErrorKind> {
    match color_ref_value(field) {
        Some(c) => Ok(c),
        None => Err(SpecParseErrorKind::InvalidColorRef { field }),
    }
}

/// The value of an ASCII hexadecimal digit: `0`-`9` are 0 to 9, `A`-`F`
/// and `a`-`f` are 10 to 15.
pub open spec fn digit_weight(c: char) -> int {
    if c <= '9' {
        c as int - 48
    } else if c <= 'F' {
        c as int - 55
    } else {
        c as int - 87
    }
}

/// An RGB color is `#` or `0x2` followed by six hexadecimal digits: red is
/// the first pair, green the second, blue the third, each read as a
/// two-digit hexadecimal number; nothing else is one.
pub proof fn law_rgb_fields(p: Seq<char>, d: Seq<char>)
    requires
        p == seq!['#'] || p == seq!['0', 'x', '2'],
    ensures
        (d.len() == 6 && forall|i: int| 0 <= i < 6 ==> #[trigger] is_hex_digit(d[i])) ==> rgb_value(p + d)
            == Some(
            RGB(
                (16 * digit_weight(d[0]) + digit_weight(d[1])) as u8,
                (16 * digit_weight(d[2]) + digit_weight(d[3])) as u8,
                (16 * digit_weight(d[4]) + digit_weight(d[5])) as u8,
            ),
        ),
        !(d.len() == 6 && forall|i: int| 0 <= i < 6 ==> #[trigger] is_hex_digit(d[i])) ==> rgb_value(
            p + d,
        ) is None,
{
    assert((p + d).drop_first() =~= d || (p + d).skip(3) =~= d);
    if p == seq!['#'] {
        assert((p + d).drop_first() =~= d);
    } else {
        assert((p + d).skip(3) =~= d);
    }
}

/// A text that is an RGB color starts with `#` or `0x2`.
pub proof fn law_rgb_prefix(s: Seq<char>)
    ensures
        rgb_value(s) is Some ==> (s.len() == 7 && s[0] == '#') || (s.len() == 9 && s[0] == '0'
            && s[1] == 'x' && s[2] == '2'),
{
}

/// A color reference is an index exactly when the field reads as a 16-bit
/// integer, and then that integer; otherwise it is the RGB color that the
/// field denotes, if any.
pub proof fn law_color_ref_fields(f: Seq<char>)
    ensures
        (color_ref_outcome(f) is Ok && color_ref_outcome(f)->Ok_0 is Indexed) <==> u16_outcome(f) is Ok,
        u16_outcome(f) is Ok ==> color_ref_outcome(f) == Ok::<ColorRef, SpecParseErrorKind>(
            ColorRef::Indexed(u16_outcome(f)->Ok_0),
        ),
        u16_outcome(f) is Err ==> (color_ref_outcome(f) is Ok <==> rgb_value(f) is Some),
        u16_outcome(f) is Err && rgb_value(f) is Some ==> color_ref_outcome(f) == Ok::<
            ColorRef,
            SpecParseErrorKind,
        >(ColorRef::RGB(rgb_value(f)->0)),
{
}

/// Parses a color reference.
pub fn parse_color_ref(path: &str, line_number: u32, field: &str) -> (res: ParseResult1<ColorRef>)
    ensures
        yields(res, path@, line_number, color_ref_outcome(field@)),
{
    let chars = chars_of(field);
    if let Ok(index) = read_unsigned(&chars, 0xffff) {
        return Ok(ColorRef::Indexed(index as u16));
    }
    if let Some(rgb) = read_rgb(field) {
        return Ok(ColorRef::RGB(rgb));
    }
    Err(error_at_line(path, line_number, ParseErrorKind::InvalidColorRef { field: owned(field) }))
}

} // verus!

//! Contents of LDraw files.
//!
//! Following the LDraw.org standards: File Format 1.0.2, the List of
//! Official META Commands, the Official Library Header Specification, the
//! CATEGORY and KEYWORDS Language Extension, the Language Extension for Back
//! Face Culling (BFC) and the MPD Language Extension.
use vstd::prelude::*;

use crate::types::{Color, ColorRef, Matrix, Line, Triangle, Quad, RotationSense, SpecColor, SpecPoint};

verus! {

/// BFC declaration.
#[derive(Clone, Copy, Debug, PartialEq, Eq, Structural)]
pub enum BFCDeclaration {
    Certify(RotationSense),
    NoCertify,
    Rotation(RotationSense),
    Clip(Option<RotationSense>),
    NoClip,
    InvertNext,
}

/// Date.
#[derive(Clone, Copy, Debug, PartialEq, Eq, Structural)]
pub struct Date {
    pub year: u16,
    pub month: Option<u8>,
    pub day: Option<u8>,
}

/// Release.
#[derive(Clone, Copy, Debug, PartialEq, Eq, Structural)]
pub struct Release {
    pub year: u16,
    pub release: u8,
}

/// File update tag.
#[derive(Clone, Copy, Debug, PartialEq, Eq, Structural)]
pub enum UpdateTag {
    Original,
    Date(Date),
    Release(Release),
}

/// File officiality.
#[derive(Clone, Copy, Debug, PartialEq, Eq, Structural)]
pub enum Officiality {
    LDrawOfficial,
    Unofficial,
}

/// File contents.
#[derive(Clone, Copy, Debug, PartialEq, Eq, Structural)]
pub enum Contents {
    Configuration,
    Part,
    Subpart,
    Primitive,
    Primitive48,
    Primitive8,
    Shortcut,
    File,
    Model,
    Submodel,
    Element,
    SubPart,
    HiResPrimitive,
    Alias,
    CrossReference,
}

/// File qualifier.
#[derive(Clone, Copy, Debug, PartialEq, Eq, Structural)]
pub enum Qualifier {
    Alias,
    PhysicalColor,
}


impl DeepView for BFCDeclaration {
    type V = BFCDeclaration;

    open spec fn deep_view(&self) -> BFCDeclaration {
        *self
    }
}

impl DeepView for Date {
    type V = Date;

    open spec fn deep_view(&self) -> Date {
        *self
    }
}

impl DeepView for Release {
    type V = Release;

    open spec fn deep_view(&self) -> Release {
        *self
    }
}

impl DeepView for UpdateTag {
    type V = UpdateTag;

    open spec fn deep_view(&self) -> UpdateTag {
        *self
    }
}

impl DeepView for Officiality {
    type V = Officiality;

    open spec fn deep_view(&self) -> Officiality {
        *self
    }
}

impl DeepView for Contents {
    type V = Contents;

    open spec fn deep_view(&self) -> Contents {
        *self
    }
}

impl DeepView for Qualifier {
    type V = Qualifier;

    open spec fn deep_view(&self) -> Qualifier {
        *self
    }
}

/// Full file type.
#[derive(Debug, PartialEq)]
pub struct FileType {
    pub officiality: Officiality,
    pub contents: Option<Contents>,
    pub qualifiers: Vec<Qualifier>,
    pub update_tag: Option<UpdateTag>,
}

/// Full file type, as values.
pub struct SpecFileType {
    pub officiality: Officiality,
    pub contents: Option<Contents>,
    pub qualifiers: Seq<Qualifier>,
    pub update_tag: Option<UpdateTag>,
}

impl DeepView for FileType {
    type V = SpecFileType;

    open spec fn deep_view(&self) -> SpecFileType {
        SpecFileType {
            officiality: self.officiality,
            contents: self.contents,
            qualifiers: self.qualifiers@,
            update_tag: self.update_tag,
        }
    }
}

/// History entry author.
#[derive(Debug, PartialEq)]
pub enum HistoryEntryAuthor {
    UserName(String),
    RealName(String),
}

/// History entry author, as values.
pub enum SpecHistoryEntryAuthor {
    UserName(Seq<char>),
    RealName(Seq<char>),
}

impl DeepView for HistoryEntryAuthor {
    type V = SpecHistoryEntryAuthor;

    open spec fn deep_view(&self) -> SpecHistoryEntryAuthor {
        match self {
            HistoryEntryAuthor::UserName(n) => SpecHistoryEntryAuthor::UserName(n@),
            HistoryEntryAuthor::RealName(n) => SpecHistoryEntryAuthor::RealName(n@),
        }
    }
}

/// History entry.
#[derive(Debug, PartialEq)]
pub struct HistoryEntry {
    pub date: Date,
    pub author: HistoryEntryAuthor,
    pub text: String,
}

/// History entry, as values.
pub struct SpecHistoryEntry {
    pub date: Date,
    pub author: SpecHistoryEntryAuthor,
    pub text: Seq<char>,
}

impl DeepView for HistoryEntry {
    type V = SpecHistoryEntry;

    open spec fn deep_view(&self) -> SpecHistoryEntry {
        SpecHistoryEntry { date: self.date, author: self.author.deep_view(), text: self.text@ }
    }
}

/// LDraw meta directives.
#[derive(Debug, PartialEq)]
pub enum Meta {
    /// Author.
    Author(String),
    /// BFC declaration.
    BFC(BFCDeclaration),
    /// Category.
    Category(String),
    /// Clear the screen.
    Clear,
    /// LDraw command-line arguments.
    CmdLine(Vec<String>),
    /// Color declaration.
    Color(Color),
    /// Comment.
    Comment(String),
    /// Description.
    Description(String),
    /// Empty declaration,
    Empty,
    /// File.
    File(String),
    /// File type.
    FileType(FileType),
    /// Help string.
    Help(String),
    /// History entry.
    History(HistoryEntry),
    /// Keywords.
    Keywords(Vec<String>),
    /// License.
    License(String),
    /// Name.
    Name(String),
    /// No file.
    NoFile,
    /// Pause the drawing.
    Pause,
    /// Print/write a message.
    Print(String),
    /// Save a bitmap of the current drawing.
    Save,
    /// Mark the end of a building step.
    Step,
    /// Unknown directive.
    Unknown(String),
}

/// LDraw meta directives, as values.
pub enum SpecMeta {
    Author(Seq<char>),
    BFC(BFCDeclaration),
    Category(Seq<char>),
    Clear,
    CmdLine(Seq<Seq<char>>),
    Color(SpecColor),
    Comment(Seq<char>),
    Description(Seq<char>),
    Empty,
    File(Seq<char>),
    FileType(SpecFileType),
    Help(Seq<char>),
    History(SpecHistoryEntry),
    Keywords(Seq<Seq<char>>),
    License(Seq<char>),
    Name(Seq<char>),
    NoFile,
    Pause,
    Print(Seq<char>),
    Save,
    Step,
    Unknown(Seq<char>),
}

impl DeepView for Meta {
    type V = SpecMeta;

    open spec fn deep_view(&self) -> SpecMeta {
        match self {
            Meta::Author(s) => SpecMeta::Author(s@),
            Meta::BFC(b) => SpecMeta::BFC(*b),
            Meta::Category(s) => SpecMeta::Category(s@),
            Meta::Clear => SpecMeta::Clear,
            Meta::CmdLine(v) => SpecMeta::CmdLine(v.deep_view()),
            Meta::Color(c) => SpecMeta::Color(c.deep_view()),
            Meta::Comment(s) => SpecMeta::Comment(s@),
            Meta::Description(s) => SpecMeta::Description(s@),
            Meta::Empty => SpecMeta::Empty,
            Meta::File(s) => SpecMeta::File(s@),
            Meta::FileType(t) => SpecMeta::FileType(t.deep_view()),
            Meta::Help(s) => SpecMeta::Help(s@),
            Meta::History(h) => SpecMeta::History(h.deep_view()),
            Meta::Keywords(v) => SpecMeta::Keywords(v.deep_view()),
            Meta::License(s) => SpecMeta::License(s@),
            Meta::Name(s) => SpecMeta::Name(s@),
            Meta::NoFile => SpecMeta::NoFile,
            Meta::Pause => SpecMeta::Pause,
            Meta::Print(s) => SpecMeta::Print(s@),
            Meta::Save => SpecMeta::Save,
            Meta::Step => SpecMeta::Step,
            Meta::Unknown(s) => SpecMeta::Unknown(s@),
        }
    }
}

/// LDraw statement.
#[derive(Debug, PartialEq)]
pub enum Statement {
    Meta(Meta),
    Subfile { color: ColorRef, matrix: Matrix, file: String },
    Line { color: ColorRef, line: Line },
    Triangle { color: ColorRef, triangle: Triangle },
    Quad { color: ColorRef, quad: Quad },
    OptionalLine { color: ColorRef, line: Line, control_line: Line },
}

/// LDraw statement, as values.
pub enum SpecStatement {
    Meta(SpecMeta),
    Subfile {
        color: ColorRef,
        matrix: (SpecPoint, SpecPoint, SpecPoint, SpecPoint),
        file: Seq<char>,
    },
    Line { color: ColorRef, line: (SpecPoint, SpecPoint) },
    Triangle { color: ColorRef, triangle: (SpecPoint, SpecPoint, SpecPoint) },
    Quad { color: ColorRef, quad: (SpecPoint, SpecPoint, SpecPoint, SpecPoint) },
    OptionalLine {
        color: ColorRef,
        line: (SpecPoint, SpecPoint),
        control_line: (SpecPoint, SpecPoint),
    },
}

impl DeepView for Statement {
    type V = SpecStatement;

    open spec fn deep_view(&self) -> SpecStatement {
        match self {
            Statement::Meta(m) => SpecStatement::Meta(m.deep_view()),
            Statement::Subfile { color, matrix, file } => SpecStatement::Subfile {
                color: *color,
                matrix: matrix.deep_view(),
                file: file@,
            },
            Statement::Line { color, line } => SpecStatement::Line {
                color: *color,
                line: line.deep_view(),
            },
            Statement::Triangle { color, triangle } => SpecStatement::Triangle {
                color: *color,
                triangle: triangle.deep_view(),
            },
            Statement::Quad { color, quad } => SpecStatement::Quad {
                color: *color,
                quad: quad.deep_view(),
            },
            Statement::OptionalLine { color, line, control_line } => SpecStatement::OptionalLine {
                color: *color,
                line: line.deep_view(),
                control_line: control_line.deep_view(),
            },
        }
    }
}

/// LDraw file.
#[derive(Debug, PartialEq)]
pub struct LDFile {
    pub statements: Vec<Statement>,
}

impl DeepView for LDFile {
    type V = Seq<SpecStatement>;

    open spec fn deep_view(&self) -> Seq<SpecStatement> {
        self.statements.deep_view()
    }
}

} // verus!

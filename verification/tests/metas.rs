use ldraw::file::{
    BFCDeclaration, Contents, Date, FileType, HistoryEntry, HistoryEntryAuthor, Meta, Officiality,
    Qualifier, Release, Statement, UpdateTag,
};
use ldraw::load::base::{
    IntErrorKind, ParseError, ParseErrorKind, ParseResult1, RealErrorKind, RealField,
};
use ldraw::load::meta::{parse_meta_statement, read_meta_statement};
use ldraw::text::split_fields;
use ldraw::types::{
    Color, ColorRef, Finish, Glitter, Material, Real, RotationSense, Speckle, RGB,
};

fn reading(field: &str) -> RealField {
    match field.parse::<f64>() {
        Err(_) if field.is_empty() => RealField::Invalid(RealErrorKind::Empty),
        Err(_) => RealField::Invalid(RealErrorKind::Invalid),
        Ok(v) if v < 0.0 || v > 1.0 => RealField::OutsideUnitRange,
        Ok(_) => RealField::InUnitRange,
    }
}

fn meta_at(number: u32, text: &str) -> Option<ParseResult1<Statement>> {
    let owned = split_fields(text);
    let fields: Vec<&str> = owned.iter().map(|f| f.as_str()).collect();
    let r: Vec<RealField> = fields.iter().map(|f| reading(f)).collect();
    read_meta_statement("model.ldr", number, &fields, &r)
}

fn meta(text: &str) -> ParseResult1<Meta> {
    match meta_at(3, text).expect("the line has an outcome") {
        Ok(Statement::Meta(m)) => Ok(m),
        Ok(other) => panic!("not a meta statement: {:?}", other),
        Err(e) => Err(e),
    }
}

fn error(kind: ParseErrorKind) -> ParseError {
    ParseError { path: "model.ldr".to_string(), line_number: 3, error: kind }
}

fn s(text: &str) -> String {
    text.to_string()
}

fn text_real(text: &str) -> Real {
    Real { text: s(text) }
}

#[test]
fn empty_meta_statement() {
    assert_eq!(meta("0"), Ok(Meta::Empty));
}

#[test]
fn description_on_the_first_line_only() {
    assert_eq!(
        meta_at(1, "0 Brick  2 x 4").unwrap(),
        Ok(Statement::Meta(Meta::Description(s("Brick 2 x 4"))))
    );
    assert_eq!(meta("0 Brick  2 x 4"), Ok(Meta::Unknown(s("Brick 2 x 4"))));
}

#[test]
fn parse_meta_statement_directly() {
    let fields = vec!["0", "STEP"];
    let r: Vec<RealField> = fields.iter().map(|f| reading(f)).collect();
    assert_eq!(parse_meta_statement("model.ldr", 2, fields, &r), Ok(Statement::Meta(Meta::Step)));
}

#[test]
fn full_line_metas() {
    assert_eq!(meta("0 Name: 3001.dat"), Ok(Meta::Name(s("3001.dat"))));
    assert_eq!(meta("0 Name:"), Ok(Meta::Name(s(""))));
    assert_eq!(meta("0 Author: James Jessiman"), Ok(Meta::Author(s("James Jessiman"))));
    assert_eq!(meta("0 !CATEGORY Brick"), Ok(Meta::Category(s("Brick"))));
    assert_eq!(meta("0 //  a\tcomment"), Ok(Meta::Comment(s("a comment"))));
    assert_eq!(meta("0 !HELP Use it"), Ok(Meta::Help(s("Use it"))));
    assert_eq!(
        meta("0 !LICENSE Redistributable under CCAL version 2.0"),
        Ok(Meta::License(s("Redistributable under CCAL version 2.0")))
    );
    assert_eq!(meta("0 WRITE hello world"), Ok(Meta::Print(s("hello world"))));
}

#[test]
fn argumentless_metas() {
    assert_eq!(meta("0 CLEAR"), Ok(Meta::Clear));
    assert_eq!(meta("0 NOFILE"), Ok(Meta::NoFile));
    assert_eq!(meta("0 PAUSE"), Ok(Meta::Pause));
    assert_eq!(meta("0 SAVE"), Ok(Meta::Save));
    assert_eq!(meta("0 STEP"), Ok(Meta::Step));
    assert_eq!(
        meta("0 STEP now"),
        Err(error(ParseErrorKind::FieldCount { found: 3, expected: 2 }))
    );
}

#[test]
fn file_and_cmdline_metas() {
    assert_eq!(meta("0 FILE Main.ldr"), Ok(Meta::File(s("Main.ldr"))));
    assert_eq!(
        meta("0 FILE main part.ldr"),
        Err(error(ParseErrorKind::FieldCount { found: 4, expected: 3 }))
    );
    assert_eq!(meta("0 !CMDLINE -c1 -x"), Ok(Meta::CmdLine(vec![s("-c1"), s("-x")])));
    assert_eq!(
        meta("0 !CMDLINE"),
        Err(error(ParseErrorKind::TooFewFields { found: 2, expected: 3 }))
    );
}

#[test]
fn keywords_are_split_on_commas_and_trimmed() {
    assert_eq!(
        meta("0 !KEYWORDS a, b ,,c  d,"),
        Ok(Meta::Keywords(vec![s("a"), s("b"), s("c d")]))
    );
    assert_eq!(
        meta("0 !KEYWORDS"),
        Err(error(ParseErrorKind::TooFewFields { found: 2, expected: 3 }))
    );
}

#[test]
fn bfc_declarations() {
    assert_eq!(meta("0 BFC CERTIFY"), Ok(Meta::BFC(BFCDeclaration::Certify(RotationSense::CCW))));
    assert_eq!(meta("0 BFC CERTIFY CCW"), Ok(Meta::BFC(BFCDeclaration::Certify(RotationSense::CCW))));
    assert_eq!(meta("0 BFC CERTIFY CW"), Ok(Meta::BFC(BFCDeclaration::Certify(RotationSense::CW))));
    assert_eq!(meta("0 BFC NOCERTIFY"), Ok(Meta::BFC(BFCDeclaration::NoCertify)));
    assert_eq!(meta("0 BFC CW"), Ok(Meta::BFC(BFCDeclaration::Rotation(RotationSense::CW))));
    assert_eq!(meta("0 BFC CCW"), Ok(Meta::BFC(BFCDeclaration::Rotation(RotationSense::CCW))));
    assert_eq!(meta("0 BFC CW CLIP"), Ok(Meta::BFC(BFCDeclaration::Clip(Some(RotationSense::CW)))));
    assert_eq!(meta("0 BFC CCW CLIP"), Ok(Meta::BFC(BFCDeclaration::Clip(Some(RotationSense::CCW)))));
    assert_eq!(meta("0 BFC CLIP"), Ok(Meta::BFC(BFCDeclaration::Clip(None))));
    assert_eq!(meta("0 BFC CLIP CW"), Ok(Meta::BFC(BFCDeclaration::Clip(Some(RotationSense::CW)))));
    assert_eq!(meta("0 BFC CLIP CCW"), Ok(Meta::BFC(BFCDeclaration::Clip(Some(RotationSense::CCW)))));
    assert_eq!(meta("0 BFC NOCLIP"), Ok(Meta::BFC(BFCDeclaration::NoClip)));
    assert_eq!(meta("0 BFC INVERTNEXT"), Ok(Meta::BFC(BFCDeclaration::InvertNext)));
}

#[test]
fn bfc_errors() {
    assert_eq!(meta("0 BFC"), Err(error(ParseErrorKind::TooFewFields { found: 2, expected: 3 })));
    assert_eq!(
        meta("0 BFC CERTIFY CCW CLIP"),
        Err(error(ParseErrorKind::TooManyFields { found: 5, expected: 4 }))
    );
    assert_eq!(
        meta("0 BFC CERTIFY UP"),
        Err(error(ParseErrorKind::InvalidRotationSense { field: s("UP") }))
    );
    assert_eq!(
        meta("0 BFC CLIP UP"),
        Err(error(ParseErrorKind::InvalidRotationSense { field: s("UP") }))
    );
    assert_eq!(meta("0 BFC CW UP"), Err(error(ParseErrorKind::InvalidBfc { text: s("CW UP") })));
    assert_eq!(meta("0 BFC SIDEWAYS x"), Err(error(ParseErrorKind::InvalidBfc { text: s("SIDEWAYS x") })));
    assert_eq!(
        meta("0 BFC NOCLIP CW"),
        Err(error(ParseErrorKind::FieldCount { found: 4, expected: 3 }))
    );
}

fn black() -> Color {
    Color {
        name: s("Black"),
        code: 0,
        value: RGB(0x05, 0x13, 0x1D),
        edge: ColorRef::RGB(RGB(0x59, 0x59, 0x59)),
        alpha: None,
        luminance: None,
        finish: None,
    }
}

#[test]
fn plain_color() {
    assert_eq!(meta("0 !COLOUR Black CODE 0 VALUE #05131D EDGE #595959"), Ok(Meta::Color(black())));
}

#[test]
fn color_with_alpha_luminance_and_finish() {
    let expected = Color {
        name: s("Trans_Clear"),
        code: 47,
        value: RGB(0xFC, 0xFC, 0xFC),
        edge: ColorRef::Indexed(15),
        alpha: Some(128),
        luminance: Some(5),
        finish: Some(Finish::Chrome),
    };
    assert_eq!(
        meta("0 !COLOUR Trans_Clear CODE 47 VALUE #FCFCFC EDGE 15 ALPHA 128 LUMINANCE 5 CHROME"),
        Ok(Meta::Color(expected))
    );
    for (word, finish) in [
        ("PEARLESCENT", Finish::Pearlescent),
        ("RUBBER", Finish::Rubber),
        ("MATE_METALLIC", Finish::MatteMetallic),
        ("METAL", Finish::Metal),
    ] {
        let text = format!("0 !COLOUR Black CODE 0 VALUE #05131D EDGE #595959 {}", word);
        assert_eq!(meta(&text), Ok(Meta::Color(Color { finish: Some(finish), ..black() })));
    }
}

#[test]
fn color_with_glitter() {
    let expected = Color {
        finish: Some(Finish::Material(Material::Glitter(Glitter {
            value: RGB(0xFF, 0xFF, 0xFF),
            alpha: Some(10),
            luminance: None,
            fraction: text_real("0.17"),
            v_fraction: text_real("0.2"),
            size: (1, 1),
        }))),
        ..black()
    };
    assert_eq!(
        meta("0 !COLOUR Black CODE 0 VALUE #05131D EDGE #595959 MATERIAL GLITTER VALUE #FFFFFF ALPHA 10 FRACTION 0.17 VFRACTION 0.2 SIZE 1"),
        Ok(Meta::Color(expected))
    );
}

#[test]
fn color_with_speckle() {
    let expected = Color {
        finish: Some(Finish::Material(Material::Speckle(Speckle {
            value: RGB(0x59, 0x59, 0x59),
            alpha: None,
            luminance: Some(3),
            fraction: text_real("0.4"),
            size: (1, 3),
        }))),
        ..black()
    };
    assert_eq!(
        meta("0 !COLOUR Black CODE 0 VALUE #05131D EDGE #595959 MATERIAL SPECKLE VALUE #595959 LUMINANCE 3 FRACTION 0.4 MINSIZE 1 MAXSIZE 3"),
        Ok(Meta::Color(expected))
    );
}

#[test]
fn color_with_unknown_material() {
    let expected = Color {
        finish: Some(Finish::Material(Material::Unknown(vec![s("FABRIC"), s("VELVET")]))),
        ..black()
    };
    assert_eq!(
        meta("0 !COLOUR Black CODE 0 VALUE #05131D EDGE #595959 MATERIAL FABRIC VELVET"),
        Ok(Meta::Color(expected))
    );
}

#[test]
fn color_errors() {
    let head = "0 !COLOUR Black CODE 0 VALUE #05131D EDGE #595959";
    assert_eq!(
        meta("0 !COLOUR Black CODE 0 VALUE #05131D EDGE"),
        Err(error(ParseErrorKind::TooFewFields { found: 8, expected: 9 }))
    );
    assert_eq!(
        meta("0 !COLOUR Black KODE 0 VALUE #05131D EDGE #595959"),
        Err(error(ParseErrorKind::UnexpectedField { field: s("KODE"), keyword: s("CODE") }))
    );
    assert_eq!(
        meta("0 !COLOUR Black CODE 70000 VALUE #05131D EDGE #595959"),
        Err(error(ParseErrorKind::InvalidInteger {
            field: s("70000"),
            int_error: IntErrorKind::PosOverflow
        }))
    );
    assert_eq!(
        meta("0 !COLOUR Black CODE 0 VALUE black EDGE #595959"),
        Err(error(ParseErrorKind::InvalidRgb { field: s("black") }))
    );
    assert_eq!(meta(&format!("{} ALPHA", head)), Err(error(ParseErrorKind::AlphaMissingArgument)));
    assert_eq!(
        meta(&format!("{} LUMINANCE", head)),
        Err(error(ParseErrorKind::LuminanceMissingArgument))
    );
    assert_eq!(
        meta(&format!("{} MATERIAL", head)),
        Err(error(ParseErrorKind::MaterialMissingArguments))
    );
    assert_eq!(
        meta(&format!("{} CHROME SHINY", head)),
        Err(error(ParseErrorKind::UnprocessedColorFields { text: s("SHINY") }))
    );
    assert_eq!(
        meta(&format!("{} GLOSSY EXTRA", head)),
        Err(error(ParseErrorKind::UnprocessedColorFields { text: s("GLOSSY EXTRA") }))
    );
    assert_eq!(
        meta(&format!("{} MATERIAL SPECKLE VALUE #595959 FRACTION 1.5 SIZE 1", head)),
        Err(error(ParseErrorKind::FractionOutOfRange { field: s("1.5") }))
    );
    assert_eq!(
        meta(&format!("{} MATERIAL GLITTER VALUE #595959 FRACTION 0.5 VFRACTION -1 SIZE 1", head)),
        Err(error(ParseErrorKind::VFractionOutOfRange { field: s("-1") }))
    );
    assert_eq!(
        meta(&format!("{} MATERIAL SPECKLE VALUE #595959 FRACTION 0.5 BIGSIZE 1", head)),
        Err(error(ParseErrorKind::UnknownMaterialKeyword { keyword: s("BIGSIZE"), material: s("SPECKLE") }))
    );
    assert_eq!(
        meta(&format!("{} MATERIAL SPECKLE VALUE #595959 FRACTION x SIZE 1", head)),
        Err(error(ParseErrorKind::InvalidReal { field: s("x"), real_error: RealErrorKind::Invalid }))
    );
    assert_eq!(
        meta(&format!("{} MATERIAL SPECKLE COLOR #595959", head)),
        Err(error(ParseErrorKind::UnexpectedField { field: s("COLOR"), keyword: s("VALUE") }))
    );
}

#[test]
fn color_lines_that_end_early() {
    let head = "0 !COLOUR Black CODE 0 VALUE #05131D EDGE #595959";
    assert_eq!(
        meta(&format!("{} MATERIAL SPECKLE", head)),
        Err(error(ParseErrorKind::TooFewFields { found: 11, expected: 11 }))
    );
    assert_eq!(
        meta(&format!("{} MATERIAL GLITTER VALUE #FFFFFF", head)),
        Err(error(ParseErrorKind::TooFewFields { found: 13, expected: 13 }))
    );
    assert_eq!(
        meta(&format!("{} MATERIAL SPECKLE VALUE #595959 FRACTION 0.5", head)),
        Err(error(ParseErrorKind::TooFewFields { found: 15, expected: 15 }))
    );
    assert_eq!(
        meta(&format!("{} MATERIAL SPECKLE VALUE #595959 FRACTION", head)),
        Err(error(ParseErrorKind::TooFewFields { found: 14, expected: 14 }))
    );
    assert_eq!(
        meta(&format!("{} MATERIAL SPECKLE VALUE #595959 FRACTION 0.5 MINSIZE 1", head)),
        Err(error(ParseErrorKind::TooFewFields { found: 17, expected: 17 }))
    );
    assert_eq!(
        meta(&format!("{} MATERIAL GLITTER VALUE #595959 FRACTION 0.5 VFRACTION 0.5 SIZE", head)),
        Err(error(ParseErrorKind::TooFewFields { found: 18, expected: 18 }))
    );
}

fn file_type(
    officiality: Officiality,
    contents: Option<Contents>,
    qualifiers: Vec<Qualifier>,
    update_tag: Option<UpdateTag>,
) -> ParseResult1<Meta> {
    Ok(Meta::FileType(FileType { officiality, contents, qualifiers, update_tag }))
}

#[test]
fn official_file_types() {
    assert_eq!(
        meta("0 !LDRAW_ORG Part UPDATE 2004-03"),
        file_type(
            Officiality::LDrawOfficial,
            Some(Contents::Part),
            vec![],
            Some(UpdateTag::Release(Release { year: 2004, release: 3 }))
        )
    );
    assert_eq!(
        meta("0 LDRAW_ORG Primitive UPDATE 2012-01-15"),
        file_type(
            Officiality::LDrawOfficial,
            Some(Contents::Primitive),
            vec![],
            Some(UpdateTag::Date(Date { year: 2012, month: Some(1), day: Some(15) }))
        )
    );
    assert_eq!(
        meta("0 !LDRAW_ORG Part Alias Physical_Colour ORIGINAL"),
        file_type(
            Officiality::LDrawOfficial,
            Some(Contents::Part),
            vec![Qualifier::Alias, Qualifier::PhysicalColor],
            Some(UpdateTag::Original)
        )
    );
    assert_eq!(
        meta("0 Official LCAD Hi-Res ORIGINAL"),
        Err(error(ParseErrorKind::InvalidContents { field: s("Hi-Res") }))
    );
    assert_eq!(
        meta("0 Official LCAD 48_Primitive ORIGINAL"),
        file_type(Officiality::LDrawOfficial, Some(Contents::Primitive48), vec![], Some(UpdateTag::Original))
    );
}

#[test]
fn update_tags() {
    assert_eq!(
        meta("0 !LDRAW_ORG Part UPDATE 2004-??-??"),
        file_type(
            Officiality::LDrawOfficial,
            Some(Contents::Part),
            vec![],
            Some(UpdateTag::Date(Date { year: 2004, month: None, day: None }))
        )
    );
    assert_eq!(
        meta("0 !LDRAW_ORG Part UPDATE 2004-01x"),
        file_type(
            Officiality::LDrawOfficial,
            Some(Contents::Part),
            vec![],
            Some(UpdateTag::Release(Release { year: 2004, release: 1 }))
        )
    );
    assert_eq!(
        meta("0 !LDRAW_ORG Part UPDATE 2004-??"),
        Err(error(ParseErrorKind::UnknownRelease))
    );
    assert_eq!(
        meta("0 !LDRAW_ORG Part UPDATE 20x4-01"),
        Err(error(ParseErrorKind::InvalidUpdateTag { field: s("20x4-01") }))
    );
}

#[test]
fn unofficial_file_types() {
    assert_eq!(
        meta("0 !LDRAW_ORG Unofficial_Part"),
        file_type(Officiality::Unofficial, Some(Contents::Part), vec![], None)
    );
    assert_eq!(meta("0 Unofficial Model"), file_type(Officiality::Unofficial, Some(Contents::Model), vec![], None));
    assert_eq!(
        meta("0 Un-official Sub-part whatever follows"),
        file_type(Officiality::Unofficial, Some(Contents::SubPart), vec![], None)
    );
    assert_eq!(
        meta("0 Unofficial Shortcut ORIGINAL more"),
        file_type(Officiality::Unofficial, Some(Contents::Shortcut), vec![], Some(UpdateTag::Original))
    );
}

#[test]
fn file_type_errors() {
    assert_eq!(meta("0 !LDRAW_ORG"), Err(error(ParseErrorKind::MissingContents)));
    assert_eq!(
        meta("0 !LDRAW_ORG Brick"),
        Err(error(ParseErrorKind::InvalidContents { field: s("Brick") }))
    );
    assert_eq!(
        meta("0 !LDRAW_ORG Unofficial_Brick"),
        Err(error(ParseErrorKind::InvalidContents { field: s("Unofficial_Brick") }))
    );
    assert_eq!(meta("0 !LDRAW_ORG Part"), Err(error(ParseErrorKind::MissingUpdateTag)));
    assert_eq!(meta("0 !LDRAW_ORG Part UPDATE"), Err(error(ParseErrorKind::UpdateMissingArgument)));
    assert_eq!(
        meta("0 !LDRAW_ORG Part LATER"),
        Err(error(ParseErrorKind::UnexpectedUpdateTag { field: s("LATER") }))
    );
    assert_eq!(
        meta("0 !LDRAW_ORG Part ORIGINAL and more"),
        Err(error(ParseErrorKind::UnprocessedFileTypeFields {
            text: s("and more"),
            keyword: s("!LDRAW_ORG")
        }))
    );
    assert_eq!(
        meta("0 Official CAD Part ORIGINAL"),
        Err(error(ParseErrorKind::UnexpectedField { field: s("CAD"), keyword: s("LCAD") }))
    );
}

#[test]
fn file_types_that_end_early() {
    assert!(meta_at(3, "0 Unofficial").is_none());
    assert!(meta_at(3, "0 Un-official").is_none());
    assert_eq!(
        meta("0 Official"),
        Err(error(ParseErrorKind::TooFewFields { found: 2, expected: 2 }))
    );
    assert_eq!(meta("0 Official LCAD"), Err(error(ParseErrorKind::MissingContents)));
    assert_eq!(meta("0 Unofficial Part"), file_type(Officiality::Unofficial, Some(Contents::Part), vec![], None));
}

#[test]
fn history_entries() {
    assert_eq!(
        meta("0 !HISTORY 2002-08-31 [PTadmin] Official Update 2002-04"),
        Ok(Meta::History(HistoryEntry {
            date: Date { year: 2002, month: Some(8), day: Some(31) },
            author: HistoryEntryAuthor::UserName(s("PTadmin")),
            text: s("Official Update 2002-04"),
        }))
    );
    assert_eq!(
        meta("0 !HISTORY 1999-??-?? {James  Jessiman} Original"),
        Ok(Meta::History(HistoryEntry {
            date: Date { year: 1999, month: None, day: None },
            author: HistoryEntryAuthor::RealName(s("James Jessiman")),
            text: s("Original"),
        }))
    );
    assert_eq!(
        meta("0 !HISTORY 2002-08-31 [a] b [c] d"),
        Ok(Meta::History(HistoryEntry {
            date: Date { year: 2002, month: Some(8), day: Some(31) },
            author: HistoryEntryAuthor::UserName(s("a] b [c")),
            text: s("d"),
        }))
    );
}

#[test]
fn history_errors() {
    assert_eq!(meta("0 !HISTORY"), Err(error(ParseErrorKind::InvalidHistory { text: s("") })));
    assert_eq!(
        meta("0 !HISTORY 2002-08-31 PTadmin text"),
        Err(error(ParseErrorKind::InvalidHistory { text: s("2002-08-31 PTadmin text") }))
    );
    assert_eq!(
        meta("0 !HISTORY 2002-8-31 [a] text"),
        Err(error(ParseErrorKind::InvalidHistory { text: s("2002-8-31 [a] text") }))
    );
    assert_eq!(
        meta("0 !HISTORY 2002-08-31 [a]"),
        Err(error(ParseErrorKind::InvalidHistory { text: s("2002-08-31 [a]") }))
    );
}

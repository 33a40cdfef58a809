use std::rc::Rc;

use ldraw::file::{LDFile, Meta, Statement};
use ldraw::load::base::{ParseError, ParseErrorKind};
use ldraw::loader::{
    absolute_path, choose_full_path, copy_color, find_candidates, found_full_path, join_path,
    root_directory, Options, State, Step,
};
use ldraw::multi_file::{LDMultiFile, LDMultiFilePart};
use ldraw::types::{Color, ColorRef, Line, Matrix, Point, Real, RGB};

fn text_real(text: &str) -> Real {
    Real { text: text.to_string() }
}

fn origin() -> Point {
    Point { x: text_real("0"), y: text_real("0"), z: text_real("0") }
}

fn identity() -> Matrix {
    Matrix {
        origin: origin(),
        row_x: Point { x: text_real("1"), y: text_real("0"), z: text_real("0") },
        row_y: Point { x: text_real("0"), y: text_real("1"), z: text_real("0") },
        row_z: Point { x: text_real("0"), y: text_real("0"), z: text_real("1") },
    }
}

fn color(name: &str, code: u16) -> Color {
    Color {
        name: name.to_string(),
        code,
        value: RGB(1, 2, 3),
        edge: ColorRef::Indexed(0),
        alpha: None,
        luminance: None,
        finish: None,
    }
}

fn line(color: ColorRef) -> Statement {
    Statement::Line { color, line: Line { a: origin(), b: origin() } }
}

fn subfile(color: ColorRef, file: &str) -> Statement {
    Statement::Subfile { color, matrix: identity(), file: file.to_string() }
}

fn part(name: Option<&str>, start: usize, end: usize) -> LDMultiFilePart {
    LDMultiFilePart { name: name.map(|n| n.to_string()), range_start: start, range_end: end }
}

fn multi_part_file() -> LDMultiFile {
    LDMultiFile::new(LDFile {
        statements: vec![
            Statement::Meta(Meta::File("Main.ldr".to_string())),
            Statement::Meta(Meta::Step),
            Statement::Meta(Meta::File("Brick.DAT".to_string())),
            line(ColorRef::Indexed(16)),
            Statement::Meta(Meta::NoFile),
            Statement::Meta(Meta::Step),
        ],
    })
}

#[test]
fn multi_part_file_is_split_into_parts() {
    let multi = multi_part_file();
    assert_eq!(multi.main_part, part(Some("main.ldr"), 1, 2));
    assert_eq!(multi.parts, vec![part(Some("brick.dat"), 3, 4)]);
    assert_eq!(multi.file.statements.len(), 6);
}

#[test]
fn plain_file_is_one_part() {
    let multi = LDMultiFile::new(LDFile {
        statements: vec![Statement::Meta(Meta::Step), Statement::Meta(Meta::File("a".to_string()))],
    });
    assert_eq!(multi.main_part, part(None, 0, 2));
    assert!(multi.parts.is_empty());
    let empty = LDMultiFile::new(LDFile { statements: vec![] });
    assert_eq!(empty.main_part, part(None, 0, 0));
}

#[test]
fn multi_part_file_without_nofile() {
    let multi = LDMultiFile::new(LDFile {
        statements: vec![
            Statement::Meta(Meta::File("a.ldr".to_string())),
            Statement::Meta(Meta::File("b.ldr".to_string())),
            Statement::Meta(Meta::Step),
        ],
    });
    assert_eq!(multi.main_part, part(Some("a.ldr"), 1, 1));
    assert_eq!(multi.parts, vec![part(Some("b.ldr"), 2, 3)]);
}

#[test]
fn find_part_finds_the_first_of_the_name() {
    let multi = multi_part_file();
    assert_eq!(multi.find_part("brick.dat"), Some(&part(Some("brick.dat"), 3, 4)));
    assert_eq!(multi.find_part("Brick.DAT"), None);
    assert_eq!(multi.find_part("main.ldr"), None);
    assert_eq!(multi.find_part(""), None);
}

fn error(path: &str, kind: ParseErrorKind) -> Vec<ParseError> {
    vec![ParseError { path: path.to_string(), line_number: 0, error: kind }]
}

#[test]
fn declared_colors_resolve() {
    let mut state = State::new("LDConfig.ldr");
    assert_eq!(
        state.resolve_color_ref(&ColorRef::Indexed(4)).err(),
        Some(error("LDConfig.ldr", ParseErrorKind::UnknownColor { index: 4 }))
    );
    state.process_meta(&Meta::Color(color("Red", 4)));
    state.process_meta(&Meta::Step);
    assert_eq!(*state.resolve_color_ref(&ColorRef::Indexed(4)).unwrap(), color("Red", 4));
    state.process_meta(&Meta::Color(color("Crimson", 4)));
    assert_eq!(*state.resolve_color_ref(&ColorRef::Indexed(4)).unwrap(), color("Crimson", 4));
    assert_eq!(
        state.resolve_color_ref(&ColorRef::RGB(RGB(1, 2, 3))).err(),
        Some(error("LDConfig.ldr", ParseErrorKind::UnsupportedRgbColor))
    );
}

#[test]
fn colors_carry_over_to_the_model_file() {
    let mut state = State::new("LDConfig.ldr");
    state.process_meta(&Meta::Color(color("Blue", 1)));
    state.enter_file("model.ldr");
    assert_eq!(state.path, "model.ldr");
    assert_eq!(state.part_name, None);
    assert_eq!(*state.resolve_color_ref(&ColorRef::Indexed(1)).unwrap(), color("Blue", 1));
}

#[test]
fn substates_map_the_main_color() {
    let mut state = State::new("model.ldr");
    state.process_meta(&Meta::Color(color("Blue", 1)));
    let main = Rc::new(color("Green", 2));
    let sub = state.substate_path("parts/3001.dat", main.clone());
    assert_eq!(sub.path, "parts/3001.dat");
    assert_eq!(*sub.resolve_color_ref(&ColorRef::Indexed(16)).unwrap(), color("Green", 2));
    assert_eq!(*sub.resolve_color_ref(&ColorRef::Indexed(1)).unwrap(), color("Blue", 1));
    let inner = sub.substate_part("x.dat".to_string(), Rc::new(color("Blue", 1)));
    assert_eq!(inner.path, "parts/3001.dat");
    assert_eq!(inner.part_name, Some("x.dat".to_string()));
    assert_eq!(*inner.resolve_color_ref(&ColorRef::Indexed(16)).unwrap(), color("Blue", 1));
    assert!(state.resolve_color_ref(&ColorRef::Indexed(16)).is_err());
}

#[test]
fn copy_color_is_equal() {
    let c = color("Black", 0);
    assert_eq!(copy_color(&c), c);
}

#[test]
fn select_part_of_a_state() {
    let multi = multi_part_file();
    let state = State::new("model.mpd");
    assert_eq!(state.select_part(&multi).unwrap(), &part(Some("main.ldr"), 1, 2));
    let sub = state.substate_part("brick.dat".to_string(), Rc::new(color("Red", 4)));
    assert_eq!(sub.select_part(&multi).unwrap(), &part(Some("brick.dat"), 3, 4));
    let missing = state.substate_part("plate.dat".to_string(), Rc::new(color("Red", 4)));
    assert_eq!(
        missing.select_part(&multi).err(),
        Some(error(
            "model.mpd",
            ParseErrorKind::PartNotFound { name: "plate.dat".to_string(), file: "model.mpd".to_string() }
        ))
    );
}

#[test]
fn steps_of_a_walk() {
    let multi = multi_part_file();
    let mut state = State::new("model.mpd");
    match state.step(&multi, &Statement::Meta(Meta::Color(color("Red", 4)))) {
        Ok(Step::Continue) => {}
        _ => panic!("a meta statement continues the walk"),
    }
    match state.step(&multi, &line(ColorRef::Indexed(4))) {
        Ok(Step::Visit(c)) => assert_eq!(*c, color("Red", 4)),
        _ => panic!("a line is visited"),
    }
    match state.step(&multi, &subfile(ColorRef::Indexed(4), "BRICK.DAT")) {
        Ok(Step::Descend(sub)) => {
            assert_eq!(sub.path, "model.mpd");
            assert_eq!(sub.part_name, Some("brick.dat".to_string()));
            assert_eq!(*sub.resolve_color_ref(&ColorRef::Indexed(16)).unwrap(), color("Red", 4));
        }
        _ => panic!("a subfile is descended into"),
    }
    match state.step(&multi, &subfile(ColorRef::Indexed(4), "parts/3001.dat")) {
        Ok(Step::Descend(sub)) => {
            assert_eq!(sub.path, "parts/3001.dat");
            assert_eq!(sub.part_name, None);
        }
        _ => panic!("a subfile is descended into"),
    }
    match state.step(&multi, &line(ColorRef::Indexed(9))) {
        Err(e) => assert_eq!(e, error("model.mpd", ParseErrorKind::UnknownColor { index: 9 })),
        _ => panic!("an unknown color stops the walk"),
    }
    match state.step(&multi, &subfile(ColorRef::RGB(RGB(0, 0, 0)), "a.dat")) {
        Err(e) => assert_eq!(e, error("model.mpd", ParseErrorKind::UnsupportedRgbColor)),
        _ => panic!("a direct color stops the walk"),
    }
}

#[test]
fn paths_are_joined_with_slashes() {
    assert_eq!(join_path("/ldraw", "p"), "/ldraw/p");
    assert_eq!(join_path("/ldraw/", "p"), "/ldraw/p");
    assert_eq!(join_path("", "p"), "p");
    assert_eq!(join_path("/ldraw", "/abs/x.dat"), "/abs/x.dat");
    assert!(absolute_path("/a"));
    assert!(!absolute_path("a/b"));
    assert!(!absolute_path(""));
}

#[test]
fn joining_agrees_with_std_paths() {
    for (base, rel) in [("/ldraw", "p"), ("/ldraw/", "p"), ("a", "b/c"), ("/x", "/y"), ("a", "")] {
        let expected = std::path::Path::new(base).join(rel);
        assert_eq!(join_path(base, rel), expected.to_str().unwrap());
    }
}

#[test]
fn candidates_for_a_relative_path() {
    let options = Options { ldraw_path: "/usr/share/ldraw".to_string() };
    assert_eq!(
        find_candidates(&options, "/home/models", "s/3001s01.dat"),
        vec![
            "/home/models/s/3001s01.dat",
            "/usr/share/ldraw/./s/3001s01.dat",
            "/usr/share/ldraw/p/s/3001s01.dat",
            "/usr/share/ldraw/p/48/s/3001s01.dat",
            "/usr/share/ldraw/parts/s/3001s01.dat",
            "/usr/share/ldraw/parts/s/s/3001s01.dat",
        ]
    );
    assert_eq!(find_candidates(&options, ".", "/abs/a.dat"), vec!["/abs/a.dat"]);
}

#[test]
fn root_directories() {
    assert_eq!(root_directory("model.ldr", None), Ok(".".to_string()));
    assert_eq!(root_directory("/home/model.ldr", Some("/home")), Ok("/home".to_string()));
    assert_eq!(root_directory("/", None), Err(error("/", ParseErrorKind::NotAFile)));
}

#[test]
fn every_part_follows_its_file_statement() {
    let multi = multi_part_file();
    for p in std::iter::once(&multi.main_part).chain(multi.parts.iter()) {
        match &multi.file.statements[p.range_start - 1] {
            Statement::Meta(Meta::File(name)) => {
                assert_eq!(p.name, Some(name.to_ascii_lowercase()));
            }
            other => panic!("part after {:?}", other),
        }
        assert!(p.range_start <= p.range_end && p.range_end <= multi.file.statements.len());
    }
}

#[test]
fn declaring_a_color_keeps_the_others() {
    let mut state = State::new("model.ldr");
    state.process_meta(&Meta::Color(color("Blue", 1)));
    state.process_meta(&Meta::Color(color("Red", 4)));
    assert_eq!(*state.resolve_color_ref(&ColorRef::Indexed(1)).unwrap(), color("Blue", 1));
    assert_eq!(*state.resolve_color_ref(&ColorRef::Indexed(4)).unwrap(), color("Red", 4));
}

#[test]
fn full_path_is_the_first_found() {
    let candidates = vec!["a/x.dat".to_string(), "b/x.dat".to_string(), "c/x.dat".to_string()];
    assert_eq!(choose_full_path("x.dat", &candidates, &vec![false, true, true]), Some("b/x.dat".to_string()));
    assert_eq!(choose_full_path("x.dat", &candidates, &vec![false, false, false]), None);
    let absolute = vec!["/abs/x.dat".to_string()];
    assert_eq!(choose_full_path("/abs/x.dat", &absolute, &vec![false]), Some("/abs/x.dat".to_string()));
}

#[test]
fn parts_without_nofile_are_disjoint() {
    let multi = LDMultiFile::new(LDFile {
        statements: vec![
            Statement::Meta(Meta::File("a.ldr".to_string())),
            Statement::Meta(Meta::Step),
            Statement::Meta(Meta::File("b.ldr".to_string())),
            Statement::Meta(Meta::Step),
            Statement::Meta(Meta::Step),
            Statement::Meta(Meta::File("c.ldr".to_string())),
        ],
    });
    let all: Vec<&LDMultiFilePart> = std::iter::once(&multi.main_part).chain(multi.parts.iter()).collect();
    assert_eq!(all.last().unwrap().range_end, 6);
    for pair in all.windows(2) {
        assert_eq!(pair[0].range_end + 1, pair[1].range_start);
    }
    for p in &all {
        for st in &multi.file.statements[p.range_start..p.range_end] {
            assert!(!matches!(st, Statement::Meta(Meta::File(_)) | Statement::Meta(Meta::NoFile)));
        }
    }
}

#[test]
fn nofile_ends_the_last_part() {
    let multi = LDMultiFile::new(LDFile {
        statements: vec![
            Statement::Meta(Meta::File("a".to_string())),
            Statement::Meta(Meta::Step),
            Statement::Meta(Meta::NoFile),
            Statement::Meta(Meta::Step),
        ],
    });
    assert_eq!(multi.main_part, part(Some("a"), 1, 2));
    assert!(multi.parts.is_empty());
    let multi = LDMultiFile::new(LDFile {
        statements: vec![
            Statement::Meta(Meta::File("a".to_string())),
            Statement::Meta(Meta::File("b".to_string())),
            Statement::Meta(Meta::Step),
            Statement::Meta(Meta::NoFile),
            Statement::Meta(Meta::File("c".to_string())),
            Statement::Meta(Meta::Step),
        ],
    });
    assert_eq!(multi.main_part, part(Some("a"), 1, 1));
    assert_eq!(multi.parts, vec![part(Some("b"), 2, 3)]);
    assert_eq!(multi.find_part("c"), None);
}

#[test]
fn missing_files_are_reported() {
    assert_eq!(found_full_path("a.dat", Some("/lib/a.dat")), Ok("/lib/a.dat".to_string()));
    assert_eq!(found_full_path("a.dat", None), Err(error("a.dat", ParseErrorKind::FileNotFound)));
}

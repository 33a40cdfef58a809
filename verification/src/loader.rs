//! Loader of LDraw models: the state that the loader keeps while it walks a
//! model, and what it does with each statement.
//!
//! Opening files, finding them on disk and transforming coordinates are the
//! caller's: this module says which colors the statements have, which part
//! or file a subfile reference leads to, and which statements are visited.
use vstd::prelude::*;

use std::collections::BTreeMap;
use std::rc::Rc;

use crate::file::{Meta, SpecMeta, SpecStatement, Statement};
use crate::load::base::{error_at, error_at_line, ParseError, ParseErrorKind, SpecParseError, SpecParseErrorKind};
use crate::multi_file::{first_named, law_first_named_is_named, LDMultiFile, LDMultiFilePart, SpecPart};
use crate::text::{chars_of, lower_ascii, owned, string_of, to_lower_ascii};
use crate::types::{
    Color, ColorRef, Finish, Glitter, Material, Real, SpecColor, Speckle, MAIN_COLOR_INDEX, RGB,
};

verus! {

broadcast use {vstd::laws_cmp::group_laws_cmp, vstd::std_specs::btree::group_btree_axioms};

/// Options to initialize a loader.
pub struct Options {
    /// Path to the LDraw file tree root.
    pub ldraw_path: String,
}

// ---------------------------------------------------------------------------
// Copies of colors.
// ---------------------------------------------------------------------------

/// A copy of a string.
fn copy_string(s: &String) -> (res: String)
    ensures
        res@ == s@,
{
    s.clone()
}

/// A copy of a real number.
fn copy_real(r: &Real) -> (res: Real)
    ensures
        res.deep_view() == r.deep_view(),
{
    Real { text: copy_string(&r.text) }
}

/// A copy of a list of strings.
fn copy_strings(v: &Vec<String>) -> (res: Vec<String>)
    ensures
        res.deep_view() == v.deep_view(),
{
    let mut out: Vec<String> = Vec::new();
    let mut i: usize = 0;
    while i < v.len()
        invariant
            0 <= i <= v.len(),
            out.deep_view() =~= v.deep_view().take(i as int),
        decreases v.len() - i,
    {
        let s = copy_string(&v[i]);
        let ghost before = out.deep_view();
        out.push(s);
        assert(out.deep_view() =~= before.push(s@));
        assert(v.deep_view()[i as int] == v@[i as int]@);
        assert(v.deep_view().take(i + 1) =~= v.deep_view().take(i as int).push(v@[i as int]@));
        i += 1;
    }
    assert(v.deep_view().take(v.len() as int) =~= v.deep_view());
    out
}

/// A copy of a material.
fn copy_material(m: &Material) -> (res: Material)
    ensures
        res.deep_view() == m.deep_view(),
{
    match m {
        Material::Glitter(g) => Material::Glitter(
            Glitter {
                value: g.value,
                alpha: g.alpha,
                luminance: g.luminance,
                fraction: copy_real(&g.fraction),
                v_fraction: copy_real(&g.v_fraction),
                size: g.size,
            },
        ),
        Material::Speckle(s) => Material::Speckle(
            Speckle {
                value: s.value,
                alpha: s.alpha,
                luminance: s.luminance,
                fraction: copy_real(&s.fraction),
                size: s.size,
            },
        ),
        Material::Unknown(v) => Material::Unknown(copy_strings(v)),
    }
}

/// A copy of a color.
pub fn copy_color(c: &Color) -> (res: Color)
    ensures
        res.deep_view() == c.deep_view(),
{
    let finish = match &c.finish {
        None => None,
        Some(Finish::Chrome) => Some(Finish::Chrome),
        Some(Finish::Pearlescent) => Some(Finish::Pearlescent),
        Some(Finish::Rubber) => Some(Finish::Rubber),
        Some(Finish::MatteMetallic) => Some(Finish::MatteMetallic),
        Some(Finish::Metal) => Some(Finish::Metal),
        Some(Finish::Material(m)) => Some(Finish::Material(copy_material(m))),
    };
    Color {
        name: copy_string(&c.name),
        code: c.code,
        value: c.value,
        edge: c.edge,
        alpha: c.alpha,
        luminance: c.luminance,
        finish,
    }
}

// ---------------------------------------------------------------------------
// State.
// ---------------------------------------------------------------------------

/// State of the loader while loading a model: the current file, the current
/// part within it, and the current mapping from color codes to colors.
pub struct State {
    /// Current path.
    pub path: String,
    /// Current part within the file.
    pub part_name: Option<String>,
    /// Current mapping from color codes to colors.
    colors: BTreeMap<u16, Rc<Color>>,
}

/// State of the loader, as values.
pub struct SpecState {
    pub path: Seq<char>,
    pub part_name: Option<Seq<char>>,
    pub colors: Map<u16, SpecColor>,
}

/// The colors of a table, as values.
pub open spec fn color_values(m: Map<u16, Rc<Color>>) -> Map<u16, SpecColor> {
    m.map_values(|c: Rc<Color>| (*c).deep_view())
}

impl State {
    /// The current mapping from color codes to colors.
    pub closed spec fn colors(&self) -> Map<u16, SpecColor> {
        color_values(self.colors@)
    }

    /// The state, as values.
    pub closed spec fn view_state(&self) -> SpecState {
        SpecState { path: self.path@, part_name: self.part_name.deep_view(), colors: self.colors() }
    }

    /// Creates a new root state for the file at `path`, with no colors.
    pub fn new(path: &str) -> (res: State)
        ensures
            res.view_state() == (SpecState { path: path@, part_name: None, colors: Map::empty() }),
    {
        let res = State { path: owned(path), part_name: None, colors: BTreeMap::new() };
        assert(res.colors() =~= Map::<u16, SpecColor>::empty());
        res
    }

    /// Resolves a color reference to a color, according to the current
    /// mapping.
    pub fn resolve_color_ref(&self, color_ref: &ColorRef) -> (res: Result<Rc<Color>, Vec<ParseError>>)
        ensures
            match res {
                Ok(c) => resolved_color(self.colors(), *color_ref) == Some((*c).deep_view()),
                Err(errors) => resolved_color(self.colors(), *color_ref) is None
                    && errors.deep_view() == seq![
                    error_at(self.view_state().path, 0, resolve_error(*color_ref)),
                ],
            },
    {
        match color_ref {
            ColorRef::Indexed(index) => {
                match self.colors.get(index) {
                    Some(color) => {
                        assert(self.colors@.contains_key(*index));
                        Ok(color.clone())
                    },
                    None => {
                        let error = error_at_line(
                            self.path.as_str(),
                            0,
                            ParseErrorKind::UnknownColor { index: *index },
                        );
                        let mut errors: Vec<ParseError> = Vec::new();
                        errors.push(error);
                        assert(errors.deep_view() =~= seq![errors@[0].deep_view()]);
                        Err(errors)
                    },
                }
            },
            ColorRef::RGB(_) => {
                let error = error_at_line(
                    self.path.as_str(),
                    0,
                    ParseErrorKind::UnsupportedRgbColor,
                );
                let mut errors: Vec<ParseError> = Vec::new();
                errors.push(error);
                assert(errors.deep_view() =~= seq![errors@[0].deep_view()]);
                Err(errors)
            },
        }
    }

    /// Updates the current state based on a meta directive: a color
    /// declaration maps its code to the color.
    pub fn process_meta(&mut self, meta: &Meta)
        ensures
            final(self).view_state().path == old(self).view_state().path,
            final(self).view_state().part_name == old(self).view_state().part_name,
            final(self).colors() == match meta.deep_view() {
                SpecMeta::Color(c) => old(self).colors().insert(c.code, c),
                _ => old(self).colors(),
            },
    {
        match meta {
            Meta::Color(color) => {
                let copy = Rc::new(copy_color(color));
                let ghost before = self.colors@;
                self.colors.insert(color.code, copy);
                assert(self.colors() =~= color_values(before).insert(color.code, color.deep_view()));
            },
            _ => {},
        }
    }

    /// The colors of a substate: the current mapping, with the main color
    /// index mapped to `color`.
    fn substate_colors(&self, color: Rc<Color>) -> (res: BTreeMap<u16, Rc<Color>>)
        ensures
            color_values(res@) == self.colors().insert(MAIN_COLOR_INDEX, (*color).deep_view()),
    {
        let mut new_colors = self.colors.clone();
        let ghost before = new_colors@;
        let ghost c = (*color).deep_view();
        new_colors.insert(MAIN_COLOR_INDEX, color);
        assert(color_values(new_colors@) =~= color_values(before).insert(MAIN_COLOR_INDEX, c));
        new_colors
    }

    /// Creates a new substate for a new path, whose main color is `color`.
    pub fn substate_path(&self, path: &str, color: Rc<Color>) -> (res: State)
        ensures
            res.view_state() == (SpecState {
                path: path@,
                part_name: None,
                colors: self.colors().insert(MAIN_COLOR_INDEX, (*color).deep_view()),
            }),
    {
        State { path: owned(path), part_name: None, colors: self.substate_colors(color) }
    }

    /// Creates a new substate for a new part of the current file, whose main
    /// color is `color`.
    pub fn substate_part(&self, part_name: String, color: Rc<Color>) -> (res: State)
        ensures
            res.view_state() == (SpecState {
                path: self.view_state().path,
                part_name: Some(part_name@),
                colors: self.colors().insert(MAIN_COLOR_INDEX, (*color).deep_view()),
            }),
    {
        State {
            path: copy_string(&self.path),
            part_name: Some(part_name),
            colors: self.substate_colors(color),
        }
    }

    /// Moves the state to the file at `path`, keeping its colors: the
    /// colors that one file declares are known to the next.
    pub fn enter_file(&mut self, path: &str)
        ensures
            final(self).view_state() == (SpecState {
                path: path@,
                part_name: None,
                colors: old(self).colors(),
            }),
    {
        self.path = owned(path);
        self.part_name = None;
    }

    /// The part of `multi` that this state walks: the main part where no
    /// part is named, else the first part of that name, which must exist.
    pub fn select_part<'a>(&self, multi: &'a LDMultiFile) -> (res: Result<
        &'a LDMultiFilePart,
        Vec<ParseError>,
    >)
        ensures
            match self.view_state().part_name {
                None => res == Ok::<&LDMultiFilePart, Vec<ParseError>>(&multi.main_part),
                Some(name) => match first_named(multi.parts.deep_view(), name) {
                    Some(i) => res == Ok::<&LDMultiFilePart, Vec<ParseError>>(&multi.parts@[i]),
                    None => res is Err && res->Err_0.deep_view() == seq![
                        error_at(
                            self.view_state().path,
                            0,
                            SpecParseErrorKind::PartNotFound { name, file: self.view_state().path },
                        ),
                    ],
                },
            },
    {
        match &self.part_name {
            None => Ok(&multi.main_part),
            Some(name) => match multi.find_part(name.as_str()) {
                Some(part) => Ok(part),
                None => {
                    let kind = ParseErrorKind::PartNotFound {
                        name: copy_string(name),
                        file: copy_string(&self.path),
                    };
                    let error = error_at_line(self.path.as_str(), 0, kind);
                    let mut errors: Vec<ParseError> = Vec::new();
                    errors.push(error);
                    assert(errors.deep_view() =~= seq![errors@[0].deep_view()]);
                    Err(errors)
                },
            },
        }
    }

    /// What the walk of a model does with one statement of the part of
    /// `multi` that it walks.
    ///
    /// A meta statement updates the state and the walk goes on. A
    /// reference to a subfile resolves its color, and leads to the part of
    /// this file of that name (in ASCII lower case) where there is one, else
    /// to the file of that name; the walk descends into it. A line,
    /// triangle, quad or optional line resolves its color and is visited in
    /// it. A color that does not resolve stops the walk with an error.
    pub fn step(&mut self, multi: &LDMultiFile, statement: &Statement) -> (res: Result<
        Step,
        Vec<ParseError>,
    >)
        ensures
            final(self).view_state() == match statement.deep_view() {
                SpecStatement::Meta(m) => meta_state(old(self).view_state(), m),
                _ => old(self).view_state(),
            },
            match statement.deep_view() {
                SpecStatement::Meta(_) => res == Ok::<Step, Vec<ParseError>>(Step::Continue),
                SpecStatement::Subfile { color, file, .. } => match resolved_color(
                    old(self).colors(),
                    color,
                ) {
                    Some(c) => res is Ok && res->Ok_0 is Descend && res->Ok_0->Descend_0.view_state()
                        == subfile_state(old(self).view_state(), multi.parts.deep_view(), file, c),
                    None => res is Err && res->Err_0.deep_view() == seq![
                        error_at(old(self).view_state().path, 0, resolve_error(color)),
                    ],
                },
                _ => match resolved_color(old(self).colors(), statement_color(statement.deep_view())) {
                    Some(c) => res is Ok && res->Ok_0 is Visit && (*res->Ok_0->Visit_0).deep_view()
                        == c,
                    None => res is Err && res->Err_0.deep_view() == seq![
                        error_at(
                            old(self).view_state().path,
                            0,
                            resolve_error(statement_color(statement.deep_view())),
                        ),
                    ],
                },
            },
    {
        match statement {
            Statement::Meta(meta) => {
                self.process_meta(meta);
                Ok(Step::Continue)
            },
            Statement::Subfile { color: color_ref, file, .. } => {
                let color = self.resolve_color_ref(color_ref)?;
                let lower_file = to_lower_ascii(file.as_str());
                let found = multi.find_part(lower_file.as_str()).is_some();
                let new_state = if found {
                    self.substate_part(lower_file, color)
                } else {
                    self.substate_path(file.as_str(), color)
                };
                Ok(Step::Descend(new_state))
            },
            Statement::Line { color: color_ref, .. } => {
                let color = self.resolve_color_ref(color_ref)?;
                Ok(Step::Visit(color))
            },
            Statement::Triangle { color: color_ref, .. } => {
                let color = self.resolve_color_ref(color_ref)?;
                Ok(Step::Visit(color))
            },
            Statement::Quad { color: color_ref, .. } => {
                let color = self.resolve_color_ref(color_ref)?;
                Ok(Step::Visit(color))
            },
            Statement::OptionalLine { color: color_ref, .. } => {
                let color = self.resolve_color_ref(color_ref)?;
                Ok(Step::Visit(color))
            },
        }
    }
}


// ---------------------------------------------------------------------------
// Paths.
// ---------------------------------------------------------------------------

/// Whether a path is absolute: it starts at the root.
pub open spec fn is_absolute_path(path: Seq<char>) -> bool {
    path.len() > 0 && path[0] == '/'
}

/// The path `rel` taken from `base`: an absolute `rel` stands alone;
/// otherwise a separator goes between the two where `base` is not empty and
/// does not end in one.
pub open spec fn path_join(base: Seq<char>, rel: Seq<char>) -> Seq<char> {
    if is_absolute_path(rel) {
        rel
    } else if base.len() > 0 && base.last() != '/' {
        base + seq!['/'] + rel
    } else {
        base + rel
    }
}

/// The directories of the LDraw library, in the order in which a file is
/// looked for in them.
pub open spec fn library_directories() -> Seq<Seq<char>> {
    seq![seq!['.'], seq!['p'], seq!['p', '/', '4', '8'], seq!['p', 'a', 'r', 't', 's'], seq![
        'p',
        'a',
        'r',
        't',
        's',
        '/',
        's',
    ]]
}

/// The places where the file at `path` may be, in the order in which they
/// are tried: an absolute path is its own place; a relative one is looked
/// for in the directory of the root file, then in each directory of the
/// library under `ldraw_path`.
pub open spec fn candidate_paths(ldraw_path: Seq<char>, root_directory: Seq<char>, path: Seq<char>) -> Seq<
    Seq<char>,
> {
    if is_absolute_path(path) {
        seq![path]
    } else {
        seq![path_join(root_directory, path)] + library_directories().map_values(
            |d: Seq<char>| path_join(path_join(ldraw_path, d), path),
        )
    }
}

/// Whether a path is absolute.
pub fn absolute_path(path: &str) -> (res: bool)
    ensures
        res == is_absolute_path(path@),
{
    let chars = chars_of(path);
    chars.len() > 0 && chars[0] == '/'
}

/// The path `rel` taken from `base`.
pub fn join_path(base: &str, rel: &str) -> (res: String)
    ensures
        res@ == path_join(base@, rel@),
{
    if absolute_path(rel) {
        return owned(rel);
    }
    let b = chars_of(base);
    let r = chars_of(rel);
    let mut out: Vec<char> = Vec::new();
    let mut i: usize = 0;
    while i < b.len()
        invariant
            0 <= i <= b.len(),
            out@ == b@.take(i as int),
        decreases b.len() - i,
    {
        out.push(b[i]);
        i += 1;
    }
    if b.len() > 0 && b[b.len() - 1] != '/' {
        out.push('/');
    }
    let ghost prefix = out@;
    let mut j: usize = 0;
    while j < r.len()
        invariant
            0 <= j <= r.len(),
            out@ == prefix + r@.take(j as int),
        decreases r.len() - j,
    {
        out.push(r[j]);
        j += 1;
    }
    assert(b@.take(b@.len() as int) =~= b@);
    assert(r@.take(r@.len() as int) =~= r@);
    assert(out@ =~= path_join(base@, rel@));
    string_of(&out)
}

/// The places where the file at `path` may be, in the order in which they
/// are tried.
pub fn find_candidates(options: &Options, root_directory: &str, path: &str) -> (res: Vec<String>)
    ensures
        res.deep_view() == candidate_paths(options.ldraw_path@, root_directory@, path@),
{
    let mut out: Vec<String> = Vec::new();
    if absolute_path(path) {
        out.push(owned(path));
        assert(out.deep_view() =~= seq![path@]);
        return out;
    }
    out.push(join_path(root_directory, path));
    let base = options.ldraw_path.as_str();
    out.push(join_path(join_path(base, ".").as_str(), path));
    out.push(join_path(join_path(base, "p").as_str(), path));
    out.push(join_path(join_path(base, "p/48").as_str(), path));
    out.push(join_path(join_path(base, "parts").as_str(), path));
    out.push(join_path(join_path(base, "parts/s").as_str(), path));
    proof {
        reveal_strlit(".");
        reveal_strlit("p");
        reveal_strlit("p/48");
        reveal_strlit("parts");
        reveal_strlit("parts/s");
    }
    let ghost dirs = library_directories();
    let ghost mapped = dirs.map_values(
        |d: Seq<char>| path_join(path_join(options.ldraw_path@, d), path@),
    );
    assert("."@ =~= dirs[0]);
    assert("p"@ =~= dirs[1]);
    assert("p/48"@ =~= dirs[2]);
    assert("parts"@ =~= dirs[3]);
    assert("parts/s"@ =~= dirs[4]);
    assert(mapped.len() == 5);
    assert(out.deep_view() =~= seq![path_join(root_directory@, path@)] + mapped);
    out
}

/// The full path of the file at `path`, given the places where it may be
/// (`candidates`, in the order in which they are tried) and whether each of
/// them holds a file (`found`): an absolute path is its own full path,
/// whether or not it holds a file; a relative one is the first candidate
/// that holds a file, and there is none when no candidate does.
pub fn choose_full_path(path: &str, candidates: &Vec<String>, found: &Vec<bool>) -> (res: Option<
    String,
>)
    requires
        candidates.len() == found.len(),
    ensures
        is_absolute_path(path@) ==> res is Some && res->Some_0@ == path@,
        !is_absolute_path(path@) ==> match res {
            Some(p) => exists|i: int|
                0 <= i < found.len() && found@[i] && p@ == candidates@[i]@ && forall|j: int|
                    0 <= j < i ==> !found@[j],
            None => forall|i: int| 0 <= i < found.len() ==> !found@[i],
        },
{
    if absolute_path(path) {
        return Some(owned(path));
    }
    let mut i: usize = 0;
    while i < found.len()
        invariant
            !is_absolute_path(path@),
            candidates.len() == found.len(),
            0 <= i <= found.len(),
            forall|j: int| 0 <= j < i ==> !found@[j],
        decreases found.len() - i,
    {
        if found[i] {
            let p = copy_string(&candidates[i]);
            assert(found@[i as int] && p@ == candidates@[i as int]@);
            return Some(p);
        }
        i += 1;
    }
    None
}

/// The full path found for the file at `path`, or, where none was found,
/// the error that no file is found under that path (on line 0).
pub fn found_full_path(path: &str, full_path: Option<&str>) -> (res: Result<String, Vec<ParseError>>)
    ensures
        match full_path {
            Some(p) => res is Ok && res->Ok_0@ == p@,
            None => res is Err && res->Err_0.deep_view() == seq![
                error_at(path@, 0, SpecParseErrorKind::FileNotFound),
            ],
        },
{
    match full_path {
        Some(p) => Ok(owned(p)),
        None => {
            let error = error_at_line(path, 0, ParseErrorKind::FileNotFound);
            let mut errors: Vec<ParseError> = Vec::new();
            errors.push(error);
            assert(errors.deep_view() =~= seq![errors@[0].deep_view()]);
            Err(errors)
        },
    }
}

/// The directory of the root file of a model at `path`, where files named
/// relative to it are looked for first: the current directory for a
/// relative path, else the path's parent, `parent`; a path with no parent
/// is not a file.
pub fn root_directory(path: &str, parent: Option<&str>) -> (res: Result<String, Vec<ParseError>>)
    ensures
        !is_absolute_path(path@) ==> res is Ok && res->Ok_0@ == seq!['.'],
        is_absolute_path(path@) && parent is Some ==> res is Ok && res->Ok_0@ == parent->0@,
        is_absolute_path(path@) && parent is None ==> res is Err && res->Err_0.deep_view() == seq![
            error_at(path@, 0, SpecParseErrorKind::NotAFile),
        ],
{
    if !absolute_path(path) {
        proof {
            reveal_strlit(".");
        }
        return Ok(owned("."));
    }
    match parent {
        Some(p) => Ok(owned(p)),
        None => {
            let error = error_at_line(path, 0, ParseErrorKind::NotAFile);
            let mut errors: Vec<ParseError> = Vec::new();
            errors.push(error);
            assert(errors.deep_view() =~= seq![errors@[0].deep_view()]);
            Err(errors)
        },
    }
}

/// What the walk of a model does after one statement.
pub enum Step {
    /// Go on with the next statement.
    Continue,
    /// Walk the statements that this state selects, then go on.
    Descend(State),
    /// Visit the statement's primitive in this color, then go on.
    Visit(Rc<Color>),
}

/// The state after a meta statement: a color declaration maps its code to
/// the color; any other meta statement changes nothing.
pub open spec fn meta_state(state: SpecState, m: SpecMeta) -> SpecState {
    match m {
        SpecMeta::Color(c) => SpecState { colors: state.colors.insert(c.code, c), ..state },
        _ => state,
    }
}

/// The state in which a reference to `file` in the color `color` is walked:
/// the part of the current file of that name in ASCII lower case where
/// `parts` holds one, else the file itself; the main color index maps to
/// `color` there.
pub open spec fn subfile_state(
    state: SpecState,
    parts: Seq<SpecPart>,
    file: Seq<char>,
    color: SpecColor,
) -> SpecState {
    let colors = state.colors.insert(MAIN_COLOR_INDEX, color);
    if first_named(parts, lower_ascii(file)) is Some {
        SpecState { path: state.path, part_name: Some(lower_ascii(file)), colors }
    } else {
        SpecState { path: file, part_name: None, colors }
    }
}

/// The color reference of a statement other than a meta statement.
pub open spec fn statement_color(s: SpecStatement) -> ColorRef {
    match s {
        SpecStatement::Subfile { color, .. } => color,
        SpecStatement::Line { color, .. } => color,
        SpecStatement::Triangle { color, .. } => color,
        SpecStatement::Quad { color, .. } => color,
        SpecStatement::OptionalLine { color, .. } => color,
        SpecStatement::Meta(_) => ColorRef::Indexed(MAIN_COLOR_INDEX),
    }
}

/// The color that a reference resolves to under the mapping `colors`, if
/// any: an indexed reference resolves to the color that its index maps to;
/// a direct RGB reference is not resolved.
pub open spec fn resolved_color(colors: Map<u16, SpecColor>, color_ref: ColorRef) -> Option<SpecColor> {
    match color_ref {
        ColorRef::Indexed(index) => if colors.contains_key(index) {
            Some(colors[index])
        } else {
            None
        },
        ColorRef::RGB(_) => None,
    }
}

/// The error of resolving a color reference that does not resolve.
pub open spec fn resolve_error(color_ref: ColorRef) -> SpecParseErrorKind {
    match color_ref {
        ColorRef::Indexed(index) => SpecParseErrorKind::UnknownColor { index },
        ColorRef::RGB(_) => SpecParseErrorKind::UnsupportedRgbColor,
    }
}


// ---------------------------------------------------------------------------
// Laws of colors and subfiles.
// ---------------------------------------------------------------------------

/// A color that a meta statement declares is what its code resolves to
/// afterwards.
pub proof fn law_declared_color_resolves(state: SpecState, color: SpecColor)
    ensures
        resolved_color(
            meta_state(state, SpecMeta::Color(color)).colors,
            ColorRef::Indexed(color.code),
        ) == Some(color),
{
}

/// Declaring a color leaves what every other code resolves to as it was.
pub proof fn law_declaration_keeps_other_codes(state: SpecState, color: SpecColor, code: u16)
    requires
        code != color.code,
    ensures
        resolved_color(meta_state(state, SpecMeta::Color(color)).colors, ColorRef::Indexed(code))
            == resolved_color(state.colors, ColorRef::Indexed(code)),
{
}

/// A meta statement other than a color declaration leaves the state as it
/// was.
pub proof fn law_other_meta_keeps_state(state: SpecState, m: SpecMeta)
    requires
        !(m is Color),
    ensures
        meta_state(state, m) == state,
{
}

/// Inside a subfile, the main color index resolves to the color in which
/// the subfile was referenced.
pub proof fn law_subfile_main_color(
    state: SpecState,
    parts: Seq<SpecPart>,
    file: Seq<char>,
    color: SpecColor,
)
    ensures
        resolved_color(
            subfile_state(state, parts, file, color).colors,
            ColorRef::Indexed(MAIN_COLOR_INDEX),
        ) == Some(color),
{
}

/// Inside a subfile, every code other than the main color index resolves
/// as it does where the subfile is referenced.
pub proof fn law_subfile_inherits_colors(
    state: SpecState,
    parts: Seq<SpecPart>,
    file: Seq<char>,
    color: SpecColor,
    code: u16,
)
    requires
        code != MAIN_COLOR_INDEX,
    ensures
        resolved_color(subfile_state(state, parts, file, color).colors, ColorRef::Indexed(code))
            == resolved_color(state.colors, ColorRef::Indexed(code)),
{
}

/// A direct RGB color reference never resolves.
pub proof fn law_rgb_never_resolves(colors: Map<u16, SpecColor>, rgb: RGB)
    ensures
        resolved_color(colors, ColorRef::RGB(rgb)) is None,
{
}

/// A subfile reference that names a part of the current file stays in the
/// file and selects that part, which exists and carries the name; any
/// other reference leaves the file for the file of that name.
pub proof fn law_subfile_target(
    state: SpecState,
    parts: Seq<SpecPart>,
    file: Seq<char>,
    color: SpecColor,
)
    ensures
        first_named(parts, lower_ascii(file)) is Some ==> {
            let sub = subfile_state(state, parts, file, color);
            &&& sub.path == state.path
            &&& sub.part_name == Some(lower_ascii(file))
            &&& first_named(parts, sub.part_name->0) is Some
            &&& parts[first_named(parts, sub.part_name->0)->0].name == sub.part_name
        },
        first_named(parts, lower_ascii(file)) is None ==> subfile_state(
            state,
            parts,
            file,
            color,
        ).path == file && subfile_state(state, parts, file, color).part_name is None,
{
    if first_named(parts, lower_ascii(file)) is Some {
        law_first_named_is_named(parts, lower_ascii(file));
    }
}


/// Each primitive and each subfile reference is drawn in the color that its
/// own color field names: the color that a step resolves for a statement
/// other than a meta statement is that statement's color reference.
pub proof fn law_statement_color(s: SpecStatement)
    ensures
        s matches SpecStatement::Subfile { color, .. } ==> statement_color(s) == color,
        s matches SpecStatement::Line { color, .. } ==> statement_color(s) == color,
        s matches SpecStatement::Triangle { color, .. } ==> statement_color(s) == color,
        s matches SpecStatement::Quad { color, .. } ==> statement_color(s) == color,
        s matches SpecStatement::OptionalLine { color, .. } ==> statement_color(s) == color,
{
}
} // verus!

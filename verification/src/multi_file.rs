//! Multi-part LDraw file (the MPD Language Extension).
use vstd::prelude::*;

use crate::file::{LDFile, Meta, SpecMeta, SpecStatement, Statement};
use crate::text::{lower_ascii, owned, same_text, to_lower_ascii};

verus! {

/// Part inside a multi-part file: the statements in
/// `range_start..range_end`.
#[derive(Debug, PartialEq)]
pub struct LDMultiFilePart {
    pub name: Option<String>,
    pub range_start: usize,
    pub range_end: usize,
}

/// Part inside a multi-part file, as values.
pub struct SpecPart {
    pub name: Option<Seq<char>>,
    pub range_start: usize,
    pub range_end: usize,
}

impl DeepView for LDMultiFilePart {
    type V = SpecPart;

    open spec fn deep_view(&self) -> SpecPart {
        SpecPart {
            name: self.name.deep_view(),
            range_start: self.range_start,
            range_end: self.range_end,
        }
    }
}

/// Multi-part file.
#[derive(Debug, PartialEq)]
pub struct LDMultiFile {
    pub file: LDFile,
    pub main_part: LDMultiFilePart,
    pub parts: Vec<LDMultiFilePart>,
}

/// The part named `name` (in ASCII lower case) made of the statements in
/// `start..end`.
pub open spec fn named_part(name: Seq<char>, start: int, end: int) -> SpecPart {
    SpecPart { name: Some(lower_ascii(name)), range_start: start as usize, range_end: end as usize }
}

/// The part that holds all the statements of a file of `len` statements.
pub open spec fn whole_part(len: int) -> SpecPart {
    SpecPart { name: None, range_start: 0, range_end: len as usize }
}

/// The parts of a multi-part file from statement `index` on, the current
/// part being named `name` and starting at `start`: each `FILE` statement
/// ends the current part and starts one of its name after it; a `NOFILE`
/// statement ends the current part and the last of the parts, so that what
/// follows it belongs to no part.
pub open spec fn parts_from(s: Seq<SpecStatement>, index: int, name: Seq<char>, start: int) -> Seq<
    SpecPart,
>
    decreases s.len() - index,
{
    if index >= s.len() {
        seq![named_part(name, start, s.len() as int)]
    } else {
        match s[index] {
            SpecStatement::Meta(SpecMeta::File(next)) => seq![named_part(name, start, index)]
                + parts_from(s, index + 1, next, index + 1),
            SpecStatement::Meta(SpecMeta::NoFile) => seq![named_part(name, start, index)],
            _ => parts_from(s, index + 1, name, start),
        }
    }
}

/// The main part and the other parts of a file: a file that starts with a
/// `FILE` statement is split into parts (the first is the main one), any
/// other file is one unnamed part.
pub open spec fn split_file(s: Seq<SpecStatement>) -> (SpecPart, Seq<SpecPart>) {
    if s.len() > 0 && s[0] is Meta && s[0]->Meta_0 is File {
        let all = parts_from(s, 1, s[0]->Meta_0->File_0, 1);
        (all[0], all.drop_first())
    } else {
        (whole_part(s.len() as int), seq![])
    }
}

/// Whether each range of `parts` lies within the `len` statements.
pub open spec fn ranges_fit(parts: Seq<SpecPart>, len: int) -> bool {
    forall|i: int|
        0 <= i < parts.len() ==> #[trigger] parts[i].range_start <= parts[i].range_end <= len
}

/// The index of the first part named `name`.
pub open spec fn first_named(parts: Seq<SpecPart>, name: Seq<char>) -> Option<int>
    decreases parts.len(),
{
    if parts.len() == 0 {
        None
    } else if parts.last().name == Some(name) && first_named(parts.drop_last(), name) is None {
        Some(parts.len() - 1)
    } else {
        first_named(parts.drop_last(), name)
    }
}

/// The parts from `index` on are at least one, and their ranges fit.
#[verifier::spinoff_prover]
proof fn lemma_parts_from(s: Seq<SpecStatement>, index: int, name: Seq<char>, start: int)
    requires
        1 <= start <= index <= s.len(),
        s.len() <= usize::MAX,
    ensures
        parts_from(s, index, name, start).len() >= 1,
        ranges_fit(parts_from(s, index, name, start), s.len() as int),
    decreases s.len() - index,
{
    let ps = parts_from(s, index, name, start);
    if index < s.len() {
        match s[index] {
            SpecStatement::Meta(SpecMeta::File(next)) => {
                lemma_parts_from(s, index + 1, next, index + 1);
                let rest = parts_from(s, index + 1, next, index + 1);
                let all = seq![named_part(name, start, index)] + rest;
                assert(ps == all);
                assert forall|i: int| 0 <= i < all.len() implies #[trigger] all[i].range_start
                    <= all[i].range_end <= s.len() by {
                    if i > 0 {
                        assert(all[i] == rest[i - 1]);
                    }
                }
            },
            SpecStatement::Meta(SpecMeta::NoFile) => {
                let all = seq![named_part(name, start, index)];
                assert(ps == all);
                assert(all[0].range_start <= all[0].range_end <= s.len());
                assert forall|i: int| 0 <= i < all.len() implies #[trigger] all[i].range_start
                    <= all[i].range_end <= s.len() by {}
            },
            _ => {
                lemma_parts_from(s, index + 1, name, start);
                assert(ps == parts_from(s, index + 1, name, start));
            },
        }
    } else {
        let all = seq![named_part(name, start, s.len() as int)];
        assert(ps == all);
        assert(all[0].range_start <= all[0].range_end <= s.len());
        assert forall|i: int| 0 <= i < all.len() implies #[trigger] all[i].range_start
            <= all[i].range_end <= s.len() by {}
    }
}

impl LDMultiFile {
    /// The statements of the file.
    pub open spec fn statements(&self) -> Seq<SpecStatement> {
        self.file.deep_view()
    }

    /// Whether the ranges of all the parts lie within the statements of the
    /// file.
    pub open spec fn well_formed(&self) -> bool {
        &&& self.main_part.range_start <= self.main_part.range_end <= self.statements().len()
        &&& ranges_fit(self.parts.deep_view(), self.statements().len() as int)
    }

    /// Creates a new multi-part file.
    pub fn new(file: LDFile) -> (res: Self)
        ensures
            res.statements() == file.deep_view(),
            (res.main_part.deep_view(), res.parts.deep_view()) == split_file(file.deep_view()),
            res.well_formed(),
    {
        let ghost s = file.deep_view();
        let len = file.statements.len();
        if len == 0 {
            return LDMultiFile {
                file,
                main_part: LDMultiFilePart { name: None, range_start: 0, range_end: len },
                parts: Vec::new(),
            };
        }
        let first_name = match &file.statements[0] {
            Statement::Meta(Meta::File(name)) => to_lower_ascii(name.as_str()),
            _ => {
                return LDMultiFile {
                    file,
                    main_part: LDMultiFilePart { name: None, range_start: 0, range_end: len },
                    parts: Vec::new(),
                };
            },
        };
        assert(s[0] == file.statements@[0].deep_view());
        let ghost first = s[0]->Meta_0->File_0;
        proof {
            lemma_parts_from(s, 1, first, 1);
        }
        let mut part_name = first_name;
        let ghost cur_name = first;
        let mut part_start: usize = 1;
        let mut parts: Vec<LDMultiFilePart> = Vec::new();
        let mut index: usize = 1;
        let mut stopped = false;
        while index < len && !stopped
            invariant
                s == file.deep_view(),
                len == s.len(),
                1 <= part_start <= index <= len,
                part_name@ == lower_ascii(cur_name),
                stopped ==> index < len && s[index as int] == SpecStatement::Meta(SpecMeta::NoFile),
                !stopped ==> parts_from(s, 1, first, 1) == parts.deep_view() + parts_from(
                    s,
                    index as int,
                    cur_name,
                    part_start as int,
                ),
                stopped ==> parts_from(s, 1, first, 1) == parts.deep_view(),
            decreases len - index + (if stopped {
                0int
            } else {
                1int
            }),
        {
            assert(s[index as int] == file.statements@[index as int].deep_view());
            let ghost before = parts.deep_view();
            match &file.statements[index] {
                Statement::Meta(Meta::File(name)) => {
                    let p = LDMultiFilePart {
                        name: Some(part_name),
                        range_start: part_start,
                        range_end: index,
                    };
                    parts.push(p);
                    assert(parts.deep_view() =~= before.push(
                        named_part(cur_name, part_start as int, index as int),
                    ));
                    proof {
                        cur_name = name@;
                    }
                    part_name = to_lower_ascii(name.as_str());
                    part_start = index + 1;
                    assert(parts_from(s, 1, first, 1) =~= parts.deep_view() + parts_from(
                        s,
                        index + 1,
                        cur_name,
                        part_start as int,
                    ));
                    index += 1;
                },
                Statement::Meta(Meta::NoFile) => {
                    let p = LDMultiFilePart {
                        name: Some(owned(part_name.as_str())),
                        range_start: part_start,
                        range_end: index,
                    };
                    parts.push(p);
                    assert(parts.deep_view() =~= before.push(
                        named_part(cur_name, part_start as int, index as int),
                    ));
                    assert(parts_from(s, index as int, cur_name, part_start as int) == seq![
                        named_part(cur_name, part_start as int, index as int),
                    ]);
                    assert(parts_from(s, 1, first, 1) =~= parts.deep_view());
                    stopped = true;
                },
                _ => {
                    index += 1;
                },
            }
        }
        if !stopped {
            let ghost before = parts.deep_view();
            parts.push(
                LDMultiFilePart { name: Some(part_name), range_start: part_start, range_end: len },
            );
            assert(parts.deep_view() =~= before.push(
                named_part(cur_name, part_start as int, s.len() as int),
            ));
            assert(parts_from(s, index as int, cur_name, part_start as int) == seq![
                named_part(cur_name, part_start as int, s.len() as int),
            ]);
        }
        assert(parts.deep_view() =~= parts_from(s, 1, first, 1));
        let ghost all = parts_from(s, 1, first, 1);
        proof {
            lemma_parts_from(s, 1, first, 1);
        }
        assert(ranges_fit(all, s.len() as int));
        assert(all.len() >= 1);
        let main_part = parts.remove(0);
        assert(parts.deep_view() =~= all.drop_first());
        assert(main_part.deep_view() == all[0]);
        assert(0 < all.len());
        assert(all[0].range_start <= all[0].range_end);
        assert(all[0].range_end <= s.len());
        assert forall|i: int| 0 <= i < all.drop_first().len() implies #[trigger] all.drop_first()[i].range_start
            <= all.drop_first()[i].range_end <= s.len() by {
            assert(all.drop_first()[i] == all[i + 1]);
        }
        LDMultiFile { file, main_part, parts }
    }

    /// Returns the part with the given name inside the multi-part file.
    pub fn find_part(&self, name: &str) -> (res: Option<&LDMultiFilePart>)
        ensures
            match first_named(self.parts.deep_view(), name@) {
                Some(i) => res == Some(&self.parts@[i]),
                None => res is None,
            },
    {
        let mut i: usize = 0;
        while i < self.parts.len()
            invariant
                0 <= i <= self.parts.len(),
                first_named(self.parts.deep_view().take(i as int), name@) is None,
            decreases self.parts.len() - i,
        {
            let ghost prefix = self.parts.deep_view().take(i + 1);
            assert(prefix.drop_last() =~= self.parts.deep_view().take(i as int));
            assert(prefix.last() == self.parts@[i as int].deep_view());
            let found = match &self.parts[i].name {
                Some(part_name) => same_text(part_name.as_str(), name),
                None => false,
            };
            if found {
                proof {
                    lemma_first_named_prefix(self.parts.deep_view(), name@, i + 1);
                }
                return Some(&self.parts[i]);
            }
            i += 1;
        }
        assert(self.parts.deep_view().take(i as int) =~= self.parts.deep_view());
        None
    }
}

/// The first part named `name` in a prefix that holds one is the first in
/// the whole sequence.
proof fn lemma_first_named_prefix(parts: Seq<SpecPart>, name: Seq<char>, k: int)
    requires
        0 <= k <= parts.len(),
        first_named(parts.take(k), name) is Some,
    ensures
        first_named(parts, name) == first_named(parts.take(k), name),
    decreases parts.len() - k,
{
    if k < parts.len() {
        let p = parts.take(k + 1);
        assert(p.drop_last() =~= parts.take(k));
        assert(first_named(p, name) == first_named(parts.take(k), name));
        lemma_first_named_prefix(parts, name, k + 1);
    } else {
        assert(parts.take(k) =~= parts);
    }
}


/// The part that `first_named` picks is one of the parts, carries the name,
/// and no part before it does.
pub proof fn law_first_named_is_named(parts: Seq<SpecPart>, name: Seq<char>)
    ensures
        first_named(parts, name) matches Some(i) ==> {
            &&& 0 <= i < parts.len()
            &&& parts[i].name == Some(name)
            &&& forall|j: int| 0 <= j < i ==> #[trigger] parts[j].name != Some(name)
        },
        first_named(parts, name) is None ==> forall|j: int|
            0 <= j < parts.len() ==> #[trigger] parts[j].name != Some(name),
    decreases parts.len(),
{
    if parts.len() > 0 {
        let rest = parts.drop_last();
        law_first_named_is_named(rest, name);
        assert forall|j: int| 0 <= j < rest.len() implies #[trigger] parts[j] == rest[j] by {}
        if first_named(rest, name) is Some {
            let i = first_named(rest, name)->0;
            assert(parts[i] == rest[i]);
            assert forall|j: int| 0 <= j < i implies #[trigger] parts[j].name != Some(name) by {
                assert(parts[j] == rest[j]);
            }
        } else {
            assert forall|j: int| 0 <= j < parts.len() - 1 implies #[trigger] parts[j].name != Some(name) by {
                assert(parts[j] == rest[j]);
            }
        }
    }
}

/// The part `p` starts right after a `FILE` statement of `s` that carries
/// its name (in ASCII lower case).
pub open spec fn follows_file_statement(s: Seq<SpecStatement>, p: SpecPart) -> bool {
    &&& 1 <= p.range_start <= s.len()
    &&& s[p.range_start - 1] is Meta
    &&& s[p.range_start - 1]->Meta_0 is File
    &&& p.name == Some(lower_ascii(s[p.range_start - 1]->Meta_0->File_0))
}

/// Each part from `index` on starts right after the `FILE` statement that
/// names it.
proof fn lemma_parts_from_follow(s: Seq<SpecStatement>, index: int, name: Seq<char>, start: int)
    requires
        1 <= start <= index <= s.len(),
        s.len() <= usize::MAX,
        s[start - 1] == SpecStatement::Meta(SpecMeta::File(name)),
    ensures
        forall|i: int|
            0 <= i < parts_from(s, index, name, start).len() ==> follows_file_statement(
                s,
                #[trigger] parts_from(s, index, name, start)[i],
            ),
    decreases s.len() - index,
{
    let here = named_part(name, start, index);
    if index >= s.len() {
        let all = seq![named_part(name, start, s.len() as int)];
        assert(parts_from(s, index, name, start) == all);
        assert(follows_file_statement(s, all[0]));
    } else {
        match s[index] {
            SpecStatement::Meta(SpecMeta::File(next)) => {
                lemma_parts_from_follow(s, index + 1, next, index + 1);
                let rest = parts_from(s, index + 1, next, index + 1);
                let all = seq![here] + rest;
                assert(parts_from(s, index, name, start) == all);
                assert(follows_file_statement(s, here));
                assert forall|i: int| 0 <= i < all.len() implies follows_file_statement(
                    s,
                    #[trigger] all[i],
                ) by {
                    if i > 0 {
                        assert(all[i] == rest[i - 1]);
                    }
                }
            },
            SpecStatement::Meta(SpecMeta::NoFile) => {
                let all = seq![here];
                assert(parts_from(s, index, name, start) == all);
                assert(follows_file_statement(s, all[0]));
            },
            _ => {
                lemma_parts_from_follow(s, index + 1, name, start);
                assert(parts_from(s, index, name, start) == parts_from(s, index + 1, name, start));
            },
        }
    }
}

/// In a file split into parts, the main part and every other part start
/// right after the `FILE` statement that names them; a file that is not
/// split has an unnamed main part and no other part.
pub proof fn law_parts_follow_file_statements(s: Seq<SpecStatement>)
    requires
        s.len() <= usize::MAX,
    ensures
        split_file(s).0.name is Some ==> follows_file_statement(s, split_file(s).0),
        split_file(s).0.name is None ==> split_file(s).1.len() == 0,
        forall|i: int|
            0 <= i < split_file(s).1.len() ==> follows_file_statement(s, #[trigger] split_file(s).1[i]),
{
    if s.len() > 0 && s[0] is Meta && s[0]->Meta_0 is File {
        let first = s[0]->Meta_0->File_0;
        lemma_parts_from(s, 1, first, 1);
        lemma_parts_from_follow(s, 1, first, 1);
        let all = parts_from(s, 1, first, 1);
        assert(follows_file_statement(s, all[0]));
        assert forall|i: int| 0 <= i < all.drop_first().len() implies follows_file_statement(
            s,
            #[trigger] all.drop_first()[i],
        ) by {
            assert(all.drop_first()[i] == all[i + 1]);
        }
    }
}

/// No statement in `a..b` of `s` is a `FILE` or `NOFILE` statement.
pub open spec fn no_file_statement_in(s: Seq<SpecStatement>, a: int, b: int) -> bool {
    forall|k: int|
        a <= k < b ==> !(#[trigger] s[k] matches SpecStatement::Meta(m) && (m is File || m is NoFile))
}

/// The part `p` is the last of a file: it ends with the file or at a
/// `NOFILE` statement.
pub open spec fn ends_the_parts(s: Seq<SpecStatement>, p: SpecPart) -> bool {
    p.range_end == s.len() || s[p.range_end as int] == SpecStatement::Meta(SpecMeta::NoFile)
}

/// The parts from `index` on start at `start`, each ends right before the
/// `FILE` statement after which the next one starts, the last ends with the
/// file or at a `NOFILE` statement, and none holds a `FILE` or `NOFILE`
/// statement.
proof fn lemma_parts_from_chain(s: Seq<SpecStatement>, index: int, name: Seq<char>, start: int)
    requires
        1 <= start <= index <= s.len(),
        s.len() <= usize::MAX,
        no_file_statement_in(s, start, index),
    ensures
        ({
            let ps = parts_from(s, index, name, start);
            &&& ps.len() >= 1
            &&& ps[0].range_start == start
            &&& ends_the_parts(s, ps.last())
            &&& forall|j: int| 0 <= j < ps.len() ==> (#[trigger] ps[j]).range_start <= ps[j].range_end
            &&& forall|j: int|
                0 <= j < ps.len() ==> no_file_statement_in(
                    s,
                    (#[trigger] ps[j]).range_start as int,
                    ps[j].range_end as int,
                )
            &&& forall|j: int|
                0 <= j < ps.len() - 1 ==> (#[trigger] ps[j]).range_end + 1 == ps[j + 1].range_start
        }),
    decreases s.len() - index,
{
    if index >= s.len() {
        let ps = seq![named_part(name, start, s.len() as int)];
        assert(parts_from(s, index, name, start) == ps);
    } else {
        match s[index] {
            SpecStatement::Meta(SpecMeta::File(next)) => {
                lemma_parts_from_chain(s, index + 1, next, index + 1);
                let rest = parts_from(s, index + 1, next, index + 1);
                let ps = seq![named_part(name, start, index)] + rest;
                assert(parts_from(s, index, name, start) == ps);
                assert(ps.last() == rest.last());
                assert forall|j: int| 0 <= j < ps.len() implies (#[trigger] ps[j]).range_start
                    <= ps[j].range_end && no_file_statement_in(
                    s,
                    ps[j].range_start as int,
                    ps[j].range_end as int,
                ) by {
                    if j > 0 {
                        assert(ps[j] == rest[j - 1]);
                    }
                }
                assert forall|j: int| 0 <= j < ps.len() - 1 implies (#[trigger] ps[j]).range_end + 1
                    == ps[j + 1].range_start by {
                    assert(ps[j + 1] == rest[j]);
                    if j > 0 {
                        assert(ps[j] == rest[j - 1]);
                    }
                }
            },
            SpecStatement::Meta(SpecMeta::NoFile) => {
                let ps = seq![named_part(name, start, index)];
                assert(parts_from(s, index, name, start) == ps);
            },
            _ => {
                assert(no_file_statement_in(s, start, index + 1)) by {
                    assert forall|k: int| start <= k < index + 1 implies !(#[trigger] s[k] matches SpecStatement::Meta(m) && (m is File || m is NoFile)) by {
                        if k == index {
                        }
                    }
                }
                lemma_parts_from_chain(s, index + 1, name, start);
                assert(parts_from(s, index, name, start) == parts_from(s, index + 1, name, start));
            },
        }
    }
}

/// In a file that starts with a `FILE` statement, the main part and the
/// other parts follow one another: each ends right before the `FILE`
/// statement after which the next starts, so their ranges are disjoint and
/// increasing; the last ends with the file or at the first `NOFILE`
/// statement; and no part holds a `FILE` or `NOFILE` statement.
pub proof fn law_parts_are_disjoint(s: Seq<SpecStatement>)
    requires
        s.len() <= usize::MAX,
        s.len() > 0,
        s[0] is Meta && s[0]->Meta_0 is File,
    ensures
        ({
            let all = seq![split_file(s).0] + split_file(s).1;
            &&& ends_the_parts(s, all.last())
            &&& forall|j: int| 0 <= j < all.len() ==> (#[trigger] all[j]).range_start <= all[j].range_end
            &&& forall|j: int|
                0 <= j < all.len() ==> no_file_statement_in(
                    s,
                    (#[trigger] all[j]).range_start as int,
                    all[j].range_end as int,
                )
            &&& forall|j: int|
                0 <= j < all.len() - 1 ==> (#[trigger] all[j]).range_end + 1 == all[j + 1].range_start
        }),
{
    let first = s[0]->Meta_0->File_0;
    lemma_parts_from_chain(s, 1, first, 1);
    let ps = parts_from(s, 1, first, 1);
    assert(seq![split_file(s).0] + split_file(s).1 =~= ps);
}

} // verus!

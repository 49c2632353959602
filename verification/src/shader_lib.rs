//! The shader library: named GLSL sources and the `#include <name>`
//! preprocessor that splices them into a shader.
use vstd::prelude::*;
use crate::text::{chars_of, is_whitespace, lemma_line_len, lemma_skip_ws, lemma_trim_end, lemma_trim_start, lemma_word_len, line_ranges, lines, skip_ws, word_len, next_word, next_word_from, starts_with, trim_end_char, trim_end_from, trim_start_char, trim_start_from};

verus! {

/// Why an `#include` line could not be read.
#[derive(Debug, Clone, Copy, PartialEq, Eq, Structural)]
pub enum IncludeError {
    /// `#include` with no path after it.
    MissingPath,
    /// More than one path after `#include`.
    UnexpectedToken,
    /// The path is not written as `<name>`.
    NotBracketed,
}

/// What a line of shader source is, as the preprocessor reads it.
pub enum IncludeLine {
    /// An ordinary line, copied as it is.
    Plain,
    /// `#include <name>`.
    Include(Seq<char>),
    /// A line that starts with `#include` but is not a well-formed include.
    Bad(IncludeError),
}

/// The outcome of expanding the includes of a source.
pub enum Expanded {
    /// The expanded text.
    Text(Seq<char>),
    /// An include names a file that the library does not hold.
    Missing(Seq<char>),
    /// A malformed include line.
    Malformed(IncludeError),
    /// Includes nest deeper than the allowed depth.
    TooDeep,
}

/// The directive that starts an include line.
pub open spec fn include_keyword() -> Seq<char> {
    seq!['#', 'i', 'n', 'c', 'l', 'u', 'd', 'e']
}

/// How the preprocessor reads one line: a line that starts with `#include`
/// must hold exactly one more word, written `<name>`; the name is that word
/// without its leading `<` and trailing `>` characters.
pub open spec fn parse_include(l: Seq<char>) -> IncludeLine {
    if !starts_with(l, include_keyword()) {
        IncludeLine::Plain
    } else {
        let r1 = next_word(l).1;
        let w2 = next_word(r1).0;
        let r2 = next_word(r1).1;
        if w2.len() == 0 {
            IncludeLine::Bad(IncludeError::MissingPath)
        } else if next_word(r2).0.len() > 0 {
            IncludeLine::Bad(IncludeError::UnexpectedToken)
        } else if !(w2[0] == '<' && w2.last() == '>') {
            IncludeLine::Bad(IncludeError::NotBracketed)
        } else {
            IncludeLine::Include(trim_end_char(trim_start_char(w2, '<'), '>'))
        }
    }
}

/// Expansion of a whole source: its lines in order.
pub open spec fn expand(files: Map<Seq<char>, Seq<char>>, src: Seq<char>, depth: nat) -> Expanded
    decreases depth, lines(src).len() + 1,
{
    expand_lines(files, lines(src), depth)
}

/// Expansion of a sequence of lines: a plain line is copied with a `'\n'`
/// after it; an include is replaced by the expansion of the named file,
/// one level deeper; the first failure ends the expansion.
pub open spec fn expand_lines(files: Map<Seq<char>, Seq<char>>, ls: Seq<Seq<char>>, depth: nat) -> Expanded
    decreases depth, ls.len(),
{
    if ls.len() == 0 {
        Expanded::Text(seq![])
    } else {
        match expand_lines(files, ls.drop_last(), depth) {
            Expanded::Text(acc) => match parse_include(ls.last()) {
                IncludeLine::Plain => Expanded::Text(acc + ls.last() + seq!['\n']),
                IncludeLine::Include(name) => {
                    if !files.contains_key(name) {
                        Expanded::Missing(name)
                    } else if depth == 0 {
                        Expanded::TooDeep
                    } else {
                        match expand(files, files[name], (depth - 1) as nat) {
                            Expanded::Text(t) => Expanded::Text(acc + t),
                            other => other,
                        }
                    }
                },
                IncludeLine::Bad(e) => Expanded::Malformed(e),
            },
            other => other,
        }
    }
}

/// Kind of a line, with the name of an include as a character range.
pub enum LineKind {
    Plain,
    Include(usize, usize),
    Bad(IncludeError),
}

/// Reads the line `v[a..b]`.
pub fn parse_include_line(v: &Vec<char>, a: usize, b: usize) -> (r: LineKind)
    requires
        a <= b <= v@.len(),
    ensures
        match r {
            LineKind::Plain => parse_include(v@.subrange(a as int, b as int)) is Plain,
            LineKind::Bad(e) => parse_include(v@.subrange(a as int, b as int)) == IncludeLine::Bad(e),
            LineKind::Include(s, e) => a <= s <= e <= b && parse_include(
                v@.subrange(a as int, b as int),
            ) == IncludeLine::Include(v@.subrange(s as int, e as int)),
        },
{
    let ghost l = v@.subrange(a as int, b as int);
    if !(b - a >= 8 && v[a] == '#' && v[a + 1] == 'i' && v[a + 2] == 'n' && v[a + 3] == 'c' && v[a
        + 4] == 'l' && v[a + 5] == 'u' && v[a + 6] == 'd' && v[a + 7] == 'e') {
        proof {
            if starts_with(l, include_keyword()) {
                assert(l.take(8)[0] == v@[a as int]);
                assert(l.take(8)[1] == v@[a + 1]);
                assert(l.take(8)[2] == v@[a + 2]);
                assert(l.take(8)[3] == v@[a + 3]);
                assert(l.take(8)[4] == v@[a + 4]);
                assert(l.take(8)[5] == v@[a + 5]);
                assert(l.take(8)[6] == v@[a + 6]);
                assert(l.take(8)[7] == v@[a + 7]);
            }
        }
        return LineKind::Plain;
    }
    assert(l.take(8) =~= include_keyword());
    let (_s1, e1) = next_word_from(v, a, b);
    let (s2, e2) = next_word_from(v, e1, b);
    if s2 == e2 {
        return LineKind::Bad(IncludeError::MissingPath);
    }
    let (s3, e3) = next_word_from(v, e2, b);
    if s3 != e3 {
        return LineKind::Bad(IncludeError::UnexpectedToken);
    }
    let ghost w2 = v@.subrange(s2 as int, e2 as int);
    assert(w2[0] == v@[s2 as int]);
    assert(w2.last() == v@[e2 - 1]);
    if !(v[s2] == '<' && v[e2 - 1] == '>') {
        return LineKind::Bad(IncludeError::NotBracketed);
    }
    let p = trim_start_from(v, s2, e2, '<');
    let q = trim_end_from(v, p, e2, '>');
    LineKind::Include(p, q)
}


/// The files that a list of `(name, source)` entries holds; a later entry
/// for a name replaces an earlier one.
pub open spec fn files_map(entries: Seq<(String, String)>) -> Map<Seq<char>, Seq<char>>
    decreases entries.len(),
{
    if entries.len() == 0 {
        Map::empty()
    } else {
        files_map(entries.drop_last()).insert(entries.last().0@, entries.last().1@)
    }
}

proof fn lemma_files_map_last(entries: Seq<(String, String)>, j: int, k: Seq<char>)
    requires
        0 <= j < entries.len(),
        entries[j].0@ == k,
        forall|i: int| j < i < entries.len() ==> (#[trigger] entries[i]).0@ != k,
    ensures
        files_map(entries).contains_key(k),
        files_map(entries)[k] == entries[j].1@,
    decreases entries.len(),
{
    if j < entries.len() - 1 {
        lemma_files_map_last(entries.drop_last(), j, k);
        assert(entries[entries.len() - 1].0@ != k);
    }
}

proof fn lemma_files_map_absent(entries: Seq<(String, String)>, k: Seq<char>)
    requires
        forall|i: int| 0 <= i < entries.len() ==> (#[trigger] entries[i]).0@ != k,
    ensures
        !files_map(entries).contains_key(k),
    decreases entries.len(),
{
    if entries.len() > 0 {
        assert(entries[entries.len() - 1].0@ != k);
        assert forall|i: int| 0 <= i < entries.drop_last().len() implies (
        #[trigger] entries.drop_last()[i]).0@ != k by {
            assert(entries.drop_last()[i] == entries[i]);
        }
        lemma_files_map_absent(entries.drop_last(), k);
    }
}

proof fn lemma_files_map_update(entries: Seq<(String, String)>, j: int, e: (String, String))
    requires
        0 <= j < entries.len(),
        entries[j].0@ == e.0@,
        forall|i: int| j < i < entries.len() ==> (#[trigger] entries[i]).0@ != e.0@,
    ensures
        files_map(entries.update(j, e)) == files_map(entries).insert(e.0@, e.1@),
    decreases entries.len(),
{
    let u = entries.update(j, e);
    if j == entries.len() - 1 {
        assert(u.drop_last() =~= entries.drop_last());
        assert(files_map(u) =~= files_map(entries).insert(e.0@, e.1@));
    } else {
        assert(u.drop_last() =~= entries.drop_last().update(j, e));
        assert forall|i: int| j < i < entries.drop_last().len() implies (
        #[trigger] entries.drop_last()[i]).0@ != e.0@ by {
            assert(entries.drop_last()[i] == entries[i]);
        }
        lemma_files_map_update(entries.drop_last(), j, e);
        let last = entries[entries.len() - 1];
        assert(last.0@ != e.0@);
        assert(u.last() == last);
        assert(files_map(u) =~= files_map(entries).insert(e.0@, e.1@));
    }
}

/// The inputs on which `preprocess` is defined: expansion ends, within any
/// depth a machine can reach, in a text or in a missing file, never in a
/// malformed include line.
pub open spec fn preprocess_defined(files: Map<Seq<char>, Seq<char>>, src: Seq<char>) -> bool {
    let e = expand(files, src, usize::MAX as nat);
    e is Text || e is Missing
}

/// `r` is what `preprocess` returns for the expansion `e`.
pub open spec fn preprocess_result(r: Result<String, PreprocessError>, e: Expanded) -> bool {
    match e {
        Expanded::Text(t) => r matches Ok(s) && s@ == t,
        Expanded::Missing(n) => r matches Err(PreprocessError::NotFound(m)) && m@ == n,
        _ => false,
    }
}

/// The define line that names a shader type.
pub open spec fn shader_define(t: ShaderType) -> Seq<char> {
    match t {
        ShaderType::Vertex => "#define VERTEX_SHADER\n"@,
        ShaderType::Fragment => "#define FRAGMENT_SHADER\n"@,
    }
}

/// What a processed shader starts with: the prefix and a `'\n'` (when there
/// is a prefix), then the define line.
pub open spec fn process_head(prefix: Option<Seq<char>>, t: ShaderType) -> Seq<char> {
    match prefix {
        Some(p) => p + seq!['\n'] + shader_define(t),
        None => shader_define(t),
    }
}


/// The lines `ls`, each followed by `'\n'`, one after the other.
pub open spec fn terminate_lines(ls: Seq<Seq<char>>) -> Seq<char>
    decreases ls.len(),
{
    if ls.len() == 0 {
        seq![]
    } else {
        terminate_lines(ls.drop_last()) + ls.last() + seq!['\n']
    }
}

proof fn lemma_plain_lines(files: Map<Seq<char>, Seq<char>>, ls: Seq<Seq<char>>, depth: nat)
    requires
        forall|i: int| 0 <= i < ls.len() ==> !starts_with(#[trigger] ls[i], include_keyword()),
    ensures
        expand_lines(files, ls, depth) == Expanded::Text(terminate_lines(ls)),
    decreases ls.len(),
{
    if ls.len() > 0 {
        assert forall|i: int| 0 <= i < ls.drop_last().len() implies !starts_with(
            #[trigger] ls.drop_last()[i],
            include_keyword(),
        ) by {
            assert(ls.drop_last()[i] == ls[i]);
        }
        lemma_plain_lines(files, ls.drop_last(), depth);
        assert(!starts_with(ls[ls.len() - 1], include_keyword()));
    }
}

/// A source none of whose lines starts with `#include` comes out of the
/// preprocessor as its lines, each ended by `'\n'`, whatever the library
/// holds and whatever the depth.
pub proof fn law_plain_source_unchanged(files: Map<Seq<char>, Seq<char>>, src: Seq<char>, depth: nat)
    requires
        forall|i: int|
            0 <= i < lines(src).len() ==> !starts_with(#[trigger] lines(src)[i], include_keyword()),
    ensures
        expand(files, src, depth) == Expanded::Text(terminate_lines(lines(src))),
{
    lemma_plain_lines(files, lines(src), depth);
}

proof fn lemma_expand_lines_depth(
    files: Map<Seq<char>, Seq<char>>,
    ls: Seq<Seq<char>>,
    d1: nat,
    d2: nat,
)
    requires
        d1 <= d2,
        !(expand_lines(files, ls, d1) is TooDeep),
    ensures
        expand_lines(files, ls, d2) == expand_lines(files, ls, d1),
    decreases d1, ls.len(),
{
    if ls.len() > 0 {
        lemma_expand_lines_depth(files, ls.drop_last(), d1, d2);
        if let Expanded::Text(acc) = expand_lines(files, ls.drop_last(), d1) {
            if let IncludeLine::Include(name) = parse_include(ls.last()) {
                if files.contains_key(name) {
                    assert(d1 > 0);
                    law_expand_depth_monotone(files, files[name], (d1 - 1) as nat, (d2 - 1) as nat);
                }
            }
        }
    }
}

/// The depth limit matters only when it is reached: an expansion that does
/// not run out of depth gives the same outcome with any larger limit.
pub proof fn law_expand_depth_monotone(
    files: Map<Seq<char>, Seq<char>>,
    src: Seq<char>,
    d1: nat,
    d2: nat,
)
    requires
        d1 <= d2,
        !(expand(files, src, d1) is TooDeep),
    ensures
        expand(files, src, d2) == expand(files, src, d1),
    decreases d1, lines(src).len() + 1,
{
    lemma_expand_lines_depth(files, lines(src), d1, d2);
}

/// The line `#include <name>`.
pub open spec fn include_line(name: Seq<char>) -> Seq<char> {
    include_keyword() + seq![' ', '<'] + name + seq!['>']
}

/// A name that an include line can carry as it is: no whitespace, and it
/// neither starts with `<` nor ends with `>`.
pub open spec fn plain_name(name: Seq<char>) -> bool {
    &&& forall|i: int| 0 <= i < name.len() ==> !is_whitespace(#[trigger] name[i])
    &&& name.len() > 0 ==> name[0] != '<' && name.last() != '>'
}

/// `#include <name>` reads as an include of `name`.
pub proof fn law_include_line_parses(name: Seq<char>)
    requires
        plain_name(name),
    ensures
        lines(include_line(name)) == seq![include_line(name)],
        parse_include(include_line(name)) == IncludeLine::Include(name),
{
    let s = include_line(name);
    let n = name.len() as int;
    let len = s.len() as int;
    assert(len == n + 11);
    assert(forall|i: int| 0 <= i < n ==> s[i + 10] == name[i]);
    assert(s[0] == '#' && s[1] == 'i' && s[2] == 'n' && s[3] == 'c' && s[4] == 'l' && s[5] == 'u'
        && s[6] == 'd' && s[7] == 'e' && s[8] == ' ' && s[9] == '<' && s[len - 1] == '>');
    // one line
    assert forall|i: int| 0 <= i < len implies s[i] != '\n' by {
        if 10 <= i < len - 1 {
            assert(s[i] == name[i - 10]);
            assert(!is_whitespace(name[i - 10]));
        }
    }
    lemma_line_len(s, len);
    assert(lines(s) == seq![s]);
    // the directive word
    assert(s.take(8) =~= include_keyword());
    assert(s.subrange(0, len) =~= s);
    assert(!is_whitespace(s[0]));
    lemma_skip_ws(s, 0, 0, len);
    lemma_word_len(s, 0, 8, len);
    assert(next_word(s).1 =~= s.subrange(8, len));
    // the path word
    lemma_skip_ws(s, 8, 9, len);
    assert forall|t: int| 9 <= t < len implies !is_whitespace(s[t]) by {
        if 10 <= t < len - 1 {
            assert(s[t] == name[t - 10]);
        }
    }
    lemma_word_len(s, 9, len, len);
    let r1 = s.subrange(8, len);
    assert(skip_ws(r1) == s.subrange(9, len));
    assert(word_len(s.subrange(9, len)) == len - 9);
    let w2 = next_word(r1).0;
    assert(w2 =~= s.subrange(9, len));
    let r2 = next_word(r1).1;
    assert(r2.len() == 0);
    assert(skip_ws(r2) == r2);
    assert(next_word(r2).0.len() == 0);
    assert(w2[0] == '<' && w2.last() == '>');
    // the name inside the brackets
    if n > 0 {
        assert(s[10] == name[0]);
    }
    lemma_trim_start(s, 9, 10, len, '<');
    if n > 0 {
        assert(s[len - 2] == name[n - 1]);
    }
    lemma_trim_end(s, 10, len - 1, len, '>');
    assert(s.subrange(10, len - 1) =~= name);
}

/// An include line stands for the file it names, one level deeper: its
/// expansion is the expansion of that file, or the missing name.
pub proof fn law_include_expands_file(files: Map<Seq<char>, Seq<char>>, name: Seq<char>, depth: nat)
    requires
        plain_name(name),
    ensures
        expand(files, include_line(name), depth) == (if !files.contains_key(name) {
            Expanded::Missing(name)
        } else if depth == 0 {
            Expanded::TooDeep
        } else {
            expand(files, files[name], (depth - 1) as nat)
        }),
{
    law_include_line_parses(name);
    let ls = lines(include_line(name));
    assert(ls.drop_last() =~= Seq::<Seq<char>>::empty());
    assert(expand_lines(files, ls.drop_last(), depth) == Expanded::Text(seq![]));
    if files.contains_key(name) && depth > 0 {
        if let Expanded::Text(t) = expand(files, files[name], (depth - 1) as nat) {
            assert(Seq::<char>::empty() + t =~= t);
        }
    }
}

/// Adding a file again replaces it and touches no other file: after `other`
/// was added as `c` and `name` first as `s1` and then as `s2`, the library
/// holds `s2` under `name` and `c` under `other`, an include of `name`
/// expands as `s2` does and an include of `other` as `c` does (wherever the
/// include does not run out of depth).
pub proof fn law_readd_replaces_file(
    files: Map<Seq<char>, Seq<char>>,
    name: Seq<char>,
    other: Seq<char>,
    c: Seq<char>,
    s1: Seq<char>,
    s2: Seq<char>,
    depth: nat,
)
    requires
        plain_name(name),
        plain_name(other),
        name != other,
    ensures
        ({
            let lib = files.insert(other, c).insert(name, s1).insert(name, s2);
            &&& lib == files.insert(other, c).insert(name, s2)
            &&& lib[name] == s2
            &&& lib[other] == c
            &&& !(expand(lib, include_line(name), depth) is TooDeep) ==> expand(
                lib,
                include_line(name),
                depth,
            ) == expand(lib, s2, depth)
            &&& !(expand(lib, include_line(other), depth) is TooDeep) ==> expand(
                lib,
                include_line(other),
                depth,
            ) == expand(lib, c, depth)
        }),
{
    let lib = files.insert(other, c).insert(name, s1).insert(name, s2);
    assert(lib =~= files.insert(other, c).insert(name, s2));
    law_include_expands_file(lib, name, depth);
    law_include_expands_file(lib, other, depth);
    if depth > 0 {
        if !(expand(lib, include_line(name), depth) is TooDeep) {
            law_expand_depth_monotone(lib, s2, (depth - 1) as nat, depth);
        }
        if !(expand(lib, include_line(other), depth) is TooDeep) {
            law_expand_depth_monotone(lib, c, (depth - 1) as nat, depth);
        }
    }
}

/// A library of named shader sources that `#include <name>` lines refer to,
/// with an optional text put before every processed shader.
pub struct ShaderLib {
    files: Vec<(String, String)>,
    shader_prefix: Option<String>,
}

/// The outcome of expanding includes, as the library returns it.
pub enum Expansion {
    Text(String),
    NotFound(String),
    Malformed(IncludeError),
    TooDeep,
}

impl View for Expansion {
    type V = Expanded;

    open spec fn view(&self) -> Expanded {
        match self {
            Expansion::Text(t) => Expanded::Text(t@),
            Expansion::NotFound(n) => Expanded::Missing(n@),
            Expansion::Malformed(e) => Expanded::Malformed(*e),
            Expansion::TooDeep => Expanded::TooDeep,
        }
    }
}

/// An error of preprocessing: an include names a file the library lacks.
#[derive(Debug)]
pub enum PreprocessError {
    NotFound(String),
}

/// The kind of shader a source is processed for.
#[derive(Debug, Clone, Copy, PartialEq, Eq, Structural)]
pub enum ShaderType {
    Vertex,
    Fragment,
}

proof fn lemma_expand_error_propagates(
    files: Map<Seq<char>, Seq<char>>,
    ls: Seq<Seq<char>>,
    m: int,
    depth: nat,
)
    requires
        0 <= m <= ls.len(),
        !(expand_lines(files, ls.take(m), depth) is Text),
    ensures
        expand_lines(files, ls, depth) == expand_lines(files, ls.take(m), depth),
    decreases ls.len() - m,
{
    if m < ls.len() {
        assert(ls.take(m + 1).drop_last() =~= ls.take(m));
        lemma_expand_error_propagates(files, ls, m + 1, depth);
    } else {
        assert(ls.take(m) =~= ls);
    }
}

impl View for ShaderLib {
    type V = Map<Seq<char>, Seq<char>>;

    closed spec fn view(&self) -> Map<Seq<char>, Seq<char>> {
        files_map(self.files@)
    }
}

impl ShaderLib {
    /// The text put before every processed shader.
    pub closed spec fn prefix(&self) -> Option<Seq<char>> {
        match self.shader_prefix {
            Some(p) => Some(p@),
            None => None,
        }
    }

    /// A library that holds one file, `prelude`: the given prelude text,
    /// after a line `#define GENG_ANTIALIAS` when `antialias` is set.
    pub fn new(antialias: bool, shader_prefix: Option<String>, prelude: &str) -> (r: Self)
        ensures
            r@ == Map::<Seq<char>, Seq<char>>::empty().insert(
                "prelude"@,
                if antialias {
                    "#define GENG_ANTIALIAS\n"@ + prelude@
                } else {
                    prelude@
                },
            ),
            r.prefix() == (match shader_prefix {
                Some(p) => Some(p@),
                None => None::<Seq<char>>,
            }),
    {
        let mut text = String::new();
        if antialias {
            text.append("#define GENG_ANTIALIAS\n");
        }
        text.append(prelude);
        let mut lib = ShaderLib { files: Vec::new(), shader_prefix };
        lib.add("prelude", text.as_str());
        proof {
            assert(files_map(Seq::<(String, String)>::empty()) =~= Map::empty());
        }
        lib
    }

    /// The index of the last entry named `name`.
    fn find(&self, name: &String) -> (r: Option<usize>)
        ensures
            match r {
                Some(j) => j < self.files@.len() && self.files@[j as int].0@ == name@ && forall|
                    i: int,
                | j < i < self.files@.len() ==> (#[trigger] self.files@[i]).0@ != name@,
                None => forall|i: int|
                    0 <= i < self.files@.len() ==> (#[trigger] self.files@[i]).0@ != name@,
            },
    {
        let mut i = self.files.len();
        while i > 0
            invariant
                i <= self.files@.len(),
                forall|t: int| i <= t < self.files@.len() ==> (#[trigger] self.files@[t]).0@ != name@,
            decreases i,
        {
            if self.files[i - 1].0 == *name {
                return Some(i - 1);
            }
            i = i - 1;
        }
        None
    }

    /// Adds `source` under `file_name`, replacing a file of that name.
    pub fn add(&mut self, file_name: &str, source: &str)
        ensures
            final(self)@ == old(self)@.insert(file_name@, source@),
            final(self).prefix() == old(self).prefix(),
    {
        let name = file_name.to_owned();
        match self.find(&name) {
            Some(j) => {
                let ghost old_files = self.files@;
                let entry = (name, source.to_owned());
                proof {
                    lemma_files_map_update(old_files, j as int, entry);
                }
                self.files.set(j, entry);
            },
            None => {
                let ghost old_files = self.files@;
                self.files.push((name, source.to_owned()));
                proof {
                    assert(self.files@.drop_last() =~= old_files);
                }
            },
        }
    }

    /// Replaces every `#include <name>` line of `source` with the processed
    /// file `name`, and ends every other line with `'\n'`.
    pub fn preprocess(&self, source: &str) -> (r: Result<String, PreprocessError>)
        requires
            preprocess_defined(self@, source@),
        ensures
            preprocess_result(r, expand(self@, source@, usize::MAX as nat)),
    {
        match self.expand_includes(source, usize::MAX) {
            Expansion::Text(t) => Ok(t),
            Expansion::NotFound(n) => Err(PreprocessError::NotFound(n)),
            _ => vstd::pervasive::unreached(),
        }
    }

    /// The full text of a shader: the library's prefix line (if any), the
    /// define that names the shader type, the processed prelude and the
    /// processed source.
    pub fn process(&self, shader_type: ShaderType, source: &str) -> (r: Result<String, PreprocessError>)
        requires
            preprocess_defined(self@, "#include <prelude>"@),
            expand(self@, "#include <prelude>"@, usize::MAX as nat) is Text ==> preprocess_defined(
                self@,
                source@,
            ),
        ensures
            match expand(self@, "#include <prelude>"@, usize::MAX as nat) {
                Expanded::Text(pt) => match expand(self@, source@, usize::MAX as nat) {
                    Expanded::Text(st) => r matches Ok(s) && s@ == process_head(
                        self.prefix(),
                        shader_type,
                    ) + pt + st,
                    Expanded::Missing(n) => r matches Err(PreprocessError::NotFound(m)) && m@
                        == n,
                    _ => false,
                },
                Expanded::Missing(n) => r matches Err(PreprocessError::NotFound(m)) && m@ == n,
                _ => false,
            },
    {
        let mut result = String::new();
        if let Some(prefix) = &self.shader_prefix {
            result.append(prefix.as_str());
            proof {
                reveal_strlit("\n");
            }
            result.append("\n");
        }
        match shader_type {
            ShaderType::Vertex => result.append("#define VERTEX_SHADER\n"),
            ShaderType::Fragment => result.append("#define FRAGMENT_SHADER\n"),
        }
        let prelude = self.preprocess("#include <prelude>")?;
        result.append(prelude.as_str());
        let body = self.preprocess(source)?;
        result.append(body.as_str());
        proof {
            assert(result@ =~= process_head(self.prefix(), shader_type) + prelude@ + body@);
        }
        Ok(result)
    }

    /// Expands the includes of `source`, allowing them to nest `max_depth`
    /// levels deep.
    pub fn expand_includes(&self, source: &str, max_depth: usize) -> (r: Expansion)
        ensures
            r@ == expand(self@, source@, max_depth as nat),
        decreases max_depth,
    {
        let chars = chars_of(source);
        let ranges = line_ranges(&chars);
        let ghost ls = lines(source@);
        let mut result = String::new();
        let mut k: usize = 0;
        proof {
            assert(ls.take(0) =~= Seq::<Seq<char>>::empty());
        }
        while k < ranges.len()
            invariant
                chars@ == source@,
                ls == lines(source@),
                ranges@.len() == ls.len(),
                forall|i: int| 0 <= i < ranges@.len() ==> #[trigger] ranges@[i].0 <= ranges@[i].1
                    <= chars@.len(),
                forall|i: int|
                    0 <= i < ranges@.len() ==> #[trigger] ls[i] == chars@.subrange(
                        ranges@[i].0 as int,
                        ranges@[i].1 as int,
                    ),
                k <= ranges@.len(),
                expand_lines(self@, ls.take(k as int), max_depth as nat) == Expanded::Text(
                    result@,
                ),
            decreases ranges@.len() - k,
        {
            let (a, b) = ranges[k];
            let ghost prev = result@;
            proof {
                assert(ls.take(k + 1).drop_last() =~= ls.take(k as int));
                assert(ls.take(k + 1).last() == ls[k as int]);
                assert(ls[k as int] == chars@.subrange(a as int, b as int));
            }
            match parse_include_line(&chars, a, b) {
                LineKind::Plain => {
                    result.append(source.substring_char(a, b));
                    proof {
                        reveal_strlit("\n");
                    }
                    result.append("\n");
                    proof {
                        assert(result@ =~= prev + ls[k as int] + seq!['\n']);
                    }
                },
                LineKind::Include(s, e) => {
                    let name = source.substring_char(s, e).to_owned();
                    match self.find(&name) {
                        None => {
                            proof {
                                lemma_files_map_absent(self.files@, name@);
                                lemma_expand_error_propagates(self@, ls, k + 1, max_depth as nat);
                            }
                            return Expansion::NotFound(name);
                        },
                        Some(j) => {
                            proof {
                                lemma_files_map_last(self.files@, j as int, name@);
                            }
                            if max_depth == 0 {
                                proof {
                                    lemma_expand_error_propagates(
                                        self@,
                                        ls,
                                        k + 1,
                                        max_depth as nat,
                                    );
                                }
                                return Expansion::TooDeep;
                            }
                            let sub = self.expand_includes(self.files[j].1.as_str(), max_depth - 1);
                            match sub {
                                Expansion::Text(t) => {
                                    result.append(t.as_str());
                                },
                                other => {
                                    proof {
                                        lemma_expand_error_propagates(
                                            self@,
                                            ls,
                                            k + 1,
                                            max_depth as nat,
                                        );
                                    }
                                    return other;
                                },
                            }
                        },
                    }
                },
                LineKind::Bad(err) => {
                    proof {
                        lemma_expand_error_propagates(self@, ls, k + 1, max_depth as nat);
                    }
                    return Expansion::Malformed(err);
                },
            }
            k = k + 1;
        }
        proof {
            assert(ls.take(k as int) =~= ls);
        }
        Expansion::Text(result)
    }
}

} // verus!

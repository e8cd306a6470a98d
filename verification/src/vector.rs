//! Numeric vectors written in script text as calls such as
//! `vector3(1.0, 2.0, 3.0)`.
//!
//! The library finds the calls and hands out the numbers as they are
//! written; turning the text of a number into a number is left to the
//! caller.

use vstd::prelude::*;
use vstd::string::*;
use vstd::utf8::is_ascii_chars;
use crate::files::FileEntry;

verus! {

/// `regex::Error`, why a pattern was rejected; carried through as it is.
#[verifier::external_type_specification]
#[verifier::external_body]
pub struct ExRegexError(regex::Error);

/// A call of `vector`, `vector2` to `vector4`, `vec` or `vec2` to `vec4`
/// with one to four numbers, each of which is captured.
pub const VECTOR_PATTERN: &'static str =
    r"\b(?:vector[234]?|vec[234]?)\(\s*(-?\d*\.?\d+)\s*(?:,\s*(-?\d*\.?\d+))?\s*(?:,\s*(-?\d*\.?\d+))?\s*(?:,\s*(-?\d*\.?\d+))?\s*\)";

/// The extension of the files that are searched for vectors.
pub const SCRIPT_EXTENSION: &'static str = "lua";

/// What searching a text for a pattern gave.
pub enum Captured {
    /// The pattern is no regular expression, or too large a one.
    Rejected,
    /// The pattern matches nowhere in the text.
    NoMatch,
    /// The capture groups of the leftmost match, the whole match first; a
    /// group that took no part in the match is `None`.
    Groups(Seq<Option<Seq<char>>>),
}

/// What the regular expression engine finds when it searches `text` for
/// `pattern`.
pub uninterp spec fn regex_captures(pattern: Seq<char>, text: Seq<char>) -> Captured;

/// What a search gave, as contracts see it.
pub open spec fn captured_view(
    found: Result<Option<Vec<Option<String>>>, regex::Error>,
) -> Captured {
    match found {
        Err(_) => Captured::Rejected,
        Ok(None) => Captured::NoMatch,
        Ok(Some(groups)) => Captured::Groups(groups.deep_view()),
    }
}

/// `Regex::captures` on the expression that `Regex::new` makes of
/// `pattern`: the capture groups of the leftmost match in `text`, each as
/// the text it matched. The result is the engine's own, a function of
/// pattern and text alone; nothing more is claimed of it. Trusted.
#[verifier::external_body]
fn first_captures(pattern: &str, text: &str) -> (found: Result<
    Option<Vec<Option<String>>>,
    regex::Error,
>)
    ensures
        captured_view(found) == regex_captures(pattern@, text@),
{
    let compiled = regex::Regex::new(pattern)?;
    Ok(
        compiled.captures(text).map(
            |groups|
                groups.iter().map(|group| group.map(|found| found.as_str().to_string())).collect(),
        ),
    )
}

/// A captured group counts as a number if it took part in the match and
/// is written in ASCII. The pattern's digit class admits the digits of
/// every script; only ASCII digits read as a number.
pub open spec fn is_number(group: Option<Seq<char>>) -> bool {
    group matches Some(text) && is_ascii_chars(text)
}

/// The numbers among the capture groups, the whole match left aside.
pub open spec fn numbers_of(groups: Seq<Option<Seq<char>>>) -> Seq<Seq<char>> {
    if groups.len() == 0 {
        Seq::empty()
    } else {
        groups.skip(1).filter(|group: Option<Seq<char>>| is_number(group)).map_values(
            |group: Option<Seq<char>>| group->0,
        )
    }
}

/// The vector that a search found: the numbers of the match, where there
/// are two, three or four of them.
pub open spec fn vector_of(found: Captured) -> Option<Seq<Seq<char>>> {
    match found {
        Captured::Groups(groups) if 2 <= numbers_of(groups).len() <= 4 => Some(numbers_of(groups)),
        _ => None,
    }
}

/// One more group adds its text to the numbers if it is one.
proof fn lemma_numbers_push(groups: Seq<Option<Seq<char>>>, group: Option<Seq<char>>)
    requires
        groups.len() >= 1,
    ensures
        numbers_of(groups.push(group)) == if is_number(group) {
            numbers_of(groups).push(group->0)
        } else {
            numbers_of(groups)
        },
{
    let counts = |group: Option<Seq<char>>| is_number(group);
    let text = |group: Option<Seq<char>>| group->0;
    assert(groups.push(group).skip(1) == groups.skip(1).push(group));
    groups.skip(1).lemma_filter_push(group, counts);
    groups.skip(1).filter(counts).lemma_push_map_commute(text, group);
}

/// The vector in the capture groups of a match: the groups after the
/// first that are numbers, if there are two to four of them.
pub fn vector_from_groups(groups: &Vec<Option<String>>) -> (vector: Option<Vec<String>>)
    ensures
        vector.deep_view() == vector_of(Captured::Groups(groups.deep_view())),
{
    let mut numbers: Vec<String> = Vec::new();
    let mut at: usize = 1;
    if groups.len() == 0 {
        return None;
    }
    proof {
        groups.deep_view().take(1).skip(1).lemma_filter_len(
            |group: Option<Seq<char>>| is_number(group),
        );
        assert(numbers.deep_view() =~= numbers_of(groups.deep_view().take(1)));
    }
    while at < groups.len()
        invariant
            1 <= at <= groups.len(),
            numbers.deep_view() == numbers_of(groups.deep_view().take(at as int)),
        decreases groups.len() - at,
    {
        let ghost seen = groups.deep_view().take(at as int);
        let ghost before = numbers.deep_view();
        proof {
            assert(groups.deep_view().take(at + 1) == seen.push(groups.deep_view()[at as int]));
            lemma_numbers_push(seen, groups.deep_view()[at as int]);
        }
        match &groups[at] {
            Some(text) => {
                if text.is_ascii() {
                    numbers.push(text.clone());
                    assert(numbers.deep_view() == before.push(text@));
                }
            },
            None => {},
        }
        at = at + 1;
    }
    assert(groups.deep_view().take(at as int) == groups.deep_view());
    if 2 <= numbers.len() && numbers.len() <= 4 {
        Some(numbers)
    } else {
        None
    }
}

/// The vector written in `s`: the numbers of the leftmost vector call, as
/// they are written, where it has two to four of them.
pub fn parse_vector(s: &str) -> (vector: Option<Vec<String>>)
    ensures
        vector.deep_view() == vector_of(regex_captures(VECTOR_PATTERN@, s@)),
{
    match first_captures(VECTOR_PATTERN, s) {
        Ok(Some(groups)) => vector_from_groups(&groups),
        _ => None,
    }
}

/// A vector found in a file.
#[derive(Debug, Clone)]
pub struct VectorInfo {
    /// The numbers of the vector, as they are written.
    pub vector: Vec<String>,
    /// The file, relative to the directory searched.
    pub file: String,
    /// The line, counted from zero.
    pub line_number: usize,
}

/// A vector found in a file, as contracts see it.
pub struct VectorFound {
    pub vector: Seq<Seq<char>>,
    pub file: Seq<char>,
    pub line_number: int,
}

impl View for VectorInfo {
    type V = VectorFound;

    open spec fn view(&self) -> VectorFound {
        VectorFound {
            vector: self.vector.deep_view(),
            file: self.file@,
            line_number: self.line_number as int,
        }
    }
}

/// The vector written in a line; a line that could not be read has none.
pub open spec fn vector_in(line: Option<String>) -> Option<Seq<Seq<char>>> {
    match line {
        Some(text) => vector_of(regex_captures(VECTOR_PATTERN@, text@)),
        None => None,
    }
}

/// The vectors of the lines of a file, in the order of the lines, each
/// with the position of its line.
pub open spec fn vectors_in(lines: Seq<Option<String>>, file: Seq<char>) -> Seq<VectorFound>
    decreases lines.len(),
{
    if lines.len() == 0 {
        Seq::empty()
    } else {
        let earlier = vectors_in(lines.drop_last(), file);
        match vector_in(lines.last()) {
            Some(vector) => earlier.push(VectorFound { vector, file, line_number: lines.len() - 1 }),
            None => earlier,
        }
    }
}

/// The views of a list of vectors found.
pub open spec fn found_views(found: Seq<VectorInfo>) -> Seq<VectorFound> {
    found.map_values(|info: VectorInfo| info@)
}

/// The vectors written in the lines of the file `file`, at most one for
/// each line, in the order of the lines. A line that could not be read is
/// `None`: it has no vector but counts as a line.
pub fn extract_vectors_from_file(lines: &[Option<String>], file: &str) -> (found: Vec<VectorInfo>)
    ensures
        found_views(found@) == vectors_in(lines@, file@),
{
    let mut found: Vec<VectorInfo> = Vec::new();
    let mut at: usize = 0;
    assert(found_views(found@) =~= vectors_in(lines@.take(0), file@));
    while at < lines.len()
        invariant
            at <= lines.len(),
            found_views(found@) == vectors_in(lines@.take(at as int), file@),
        decreases lines.len() - at,
    {
        let ghost before = found@;
        proof {
            assert(lines@.take(at + 1).drop_last() == lines@.take(at as int));
        }
        match &lines[at] {
            Some(line) => match parse_vector(line.as_str()) {
                Some(vector) => {
                    let info = VectorInfo { vector, file: String::from_str(file), line_number: at };
                    found.push(info);
                    proof {
                        before.lemma_push_map_commute(|info: VectorInfo| info@, info);
                    }
                },
                None => {},
            },
            None => {},
        }
        at = at + 1;
    }
    assert(lines@.take(at as int) == lines@);
    found
}

/// Whether an entry met on a walk is searched for vectors: a regular file
/// whose extension is that of a script.
pub fn is_script_file(entry: &FileEntry) -> (searched: bool)
    ensures
        searched == (entry.is_file && (entry.extension matches Some(extension) && extension@
            == SCRIPT_EXTENSION@)),
{
    match &entry.extension {
        Some(extension) => entry.is_file && *extension == String::from_str(SCRIPT_EXTENSION),
        None => false,
    }
}

} // verus!

//! The entries of the directory that a path lies in.
//!
//! The library does not read the directory: it says which one to read,
//! and puts what the caller found in order.

use vstd::prelude::*;
use vstd::string::*;
use crate::files::sort_strings;
use crate::outcomes::{first_failure, lemma_failure_stays};
use crate::text::lex_sorted;

verus! {

/// How many characters of `path` lie before the end of its last slash;
/// zero where it has none.
pub open spec fn dir_len(path: Seq<char>) -> nat
    decreases path.len(),
{
    if path.len() == 0 {
        0
    } else if path.last() == '/' {
        path.len()
    } else {
        dir_len(path.drop_last())
    }
}

/// The directory to search for `path`: the path up to and including its
/// last slash, or the current directory where it has no slash.
pub open spec fn search_dir_of(path: Seq<char>) -> Seq<char> {
    if dir_len(path) == 0 {
        seq!['.']
    } else {
        path.take(dir_len(path) as int)
    }
}

/// The directory whose entries are listed for `path`.
pub fn search_dir(path: &str) -> (dir: String)
    ensures
        dir@ == search_dir_of(path@),
{
    let total = path.unicode_len();
    let mut cut: usize = 0;
    let mut seen: usize = 0;
    for c in it: path.chars()
        invariant
            seen == it.index(),
            it.seq() == path@,
            total == path@.len(),
            cut == dir_len(path@.take(seen as int)),
    {
        proof {
            assert(path@.take(seen + 1).drop_last() == path@.take(seen as int));
        }
        seen = seen + 1;
        if c == '/' {
            cut = seen;
        }
    }
    assert(path@.take(seen as int) == path@);
    if cut == 0 {
        proof {
            reveal_strlit(".");
            assert("."@ == seq!['.']);
        }
        String::from_str(".")
    } else {
        proof {
            lemma_dir_len_bound(path@);
        }
        String::from_str(path.substring_char(0, cut))
    }
}

/// The directory part is no longer than the path.
proof fn lemma_dir_len_bound(path: Seq<char>)
    ensures
        dir_len(path) <= path.len(),
    decreases path.len(),
{
    if path.len() > 0 {
        lemma_dir_len_bound(path.drop_last());
    }
}

/// What reading a directory gave.
#[derive(Debug, Clone)]
pub enum DirListing {
    /// The directory does not exist.
    Missing,
    /// The directory could not be opened; the text says why.
    Unreadable(String),
    /// The directory was opened: for each entry its path, or why it could
    /// not be read, in the order met.
    Entries(Vec<Result<String, String>>),
}

/// The paths of a run of entries that were all read.
pub open spec fn entry_paths(entries: Seq<Result<String, String>>) -> Seq<Seq<char>> {
    entries.map_values(|entry: Result<String, String>| entry->Ok_0@)
}

/// The paths of a run of entries in ascending order, or the reason why
/// the first entry that could not be read could not.
fn sorted_paths(entries: &Vec<Result<String, String>>) -> (paths: Result<Vec<String>, String>)
    ensures
        match first_failure(entries@) {
            Some(at) => paths matches Err(reason) && 0 <= at < entries.len() && entries[at]
                == Err::<String, String>(reason),
            None => paths matches Ok(found) && lex_sorted(found.deep_view())
                && found.deep_view().to_multiset() == entry_paths(entries@).to_multiset(),
        },
{
    let mut found: Vec<String> = Vec::new();
    let mut at: usize = 0;
    assert(found.deep_view() =~= entry_paths(entries@.take(0)));
    while at < entries.len()
        invariant
            at <= entries.len(),
            first_failure(entries@.take(at as int)) is None,
            found.deep_view() == entry_paths(entries@.take(at as int)),
        decreases entries.len() - at,
    {
        let ghost before = found.deep_view();
        proof {
            assert(entries@.take(at + 1) == entries@.take(at as int).push(entries[at as int]));
            assert(entries@.take(at + 1).drop_last() == entries@.take(at as int));
        }
        match &entries[at] {
            Ok(path) => {
                found.push(path.clone());
                proof {
                    assert(found.deep_view() == before.push(path@));
                    entries@.take(at as int).lemma_push_map_commute(
                        |entry: Result<String, String>| entry->Ok_0@,
                        entries[at as int],
                    );
                }
            },
            Err(reason) => {
                proof {
                    lemma_failure_stays(entries@, at + 1);
                }
                return Err(reason.clone());
            },
        }
        at = at + 1;
    }
    assert(entries@.take(at as int) == entries@);
    sort_strings(&mut found);
    Ok(found)
}

/// The paths of a directory's entries in ascending order. A directory that
/// does not exist has none. One that could not be opened, or an entry that
/// could not be read, is a failure: the first such reason is the answer.
pub fn get_paths_in_dir(listing: &DirListing) -> (paths: Result<Vec<String>, String>)
    ensures
        listing is Missing ==> (paths matches Ok(found) && found.len() == 0),
        listing matches DirListing::Unreadable(reason) ==> paths == Err::<Vec<String>, String>(
            *reason,
        ),
        listing matches DirListing::Entries(entries) ==> match first_failure(entries@) {
            Some(at) => paths matches Err(reason) && 0 <= at < entries.len() && entries[at]
                == Err::<String, String>(reason),
            None => paths matches Ok(found) && lex_sorted(found.deep_view())
                && found.deep_view().to_multiset() == entry_paths(entries@).to_multiset(),
        },
{
    match listing {
        DirListing::Missing => Ok(Vec::new()),
        DirListing::Unreadable(reason) => Err(reason.clone()),
        DirListing::Entries(entries) => sorted_paths(entries),
    }
}

} // verus!

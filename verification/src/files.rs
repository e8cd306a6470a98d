//! Grouping of the files of a directory tree by name, to find names that
//! occur more than once.
//!
//! The library does not walk the tree: the caller does, and hands over one
//! `FileEntry` for each thing it met.

use vstd::prelude::*;
use dashmap::DashMap;
use crate::text::{lex_le, lex_sorted};

verus! {

/// `dashmap::DashMap`, the map that the files are gathered in. What one
/// holds is known only through `file_groups` and the functions below.
#[verifier::external_type_specification]
#[verifier::external_body]
#[verifier::reject_recursive_types(K)]
#[verifier::reject_recursive_types(V)]
#[verifier::reject_recursive_types(S)]
pub struct ExDashMap<K, V, S>(DashMap<K, V, S>);

/// What a map of file names to paths holds: for each name, its paths in the
/// order they were added.
pub uninterp spec fn file_groups(map: DashMap<String, Vec<String>>) -> Map<Seq<char>, Seq<Seq<char>>>;

/// The map that files nothing.
pub open spec fn no_groups() -> Map<Seq<char>, Seq<Seq<char>>> {
    Map::empty()
}

/// The paths filed under `name`, none where the name is unknown.
pub open spec fn paths_under(groups: Map<Seq<char>, Seq<Seq<char>>>, name: Seq<char>) -> Seq<
    Seq<char>,
> {
    if groups.dom().contains(name) {
        groups[name]
    } else {
        Seq::empty()
    }
}

/// `name` is the name of one of the groups of `report`.
pub open spec fn lists(report: Seq<(Seq<char>, Seq<Seq<char>>)>, name: Seq<char>) -> bool {
    exists|at: int| 0 <= at < report.len() && (#[trigger] report[at]).0 == name
}

/// No two groups of `report` have the same name.
pub open spec fn distinct_names(report: Seq<(Seq<char>, Seq<Seq<char>>)>) -> bool {
    forall|at: int, other: int|
        0 <= at < other < report.len() ==> (#[trigger] report[at]).0 != (#[trigger] report[other]).0
}

/// `DashMap::new`: a map that holds nothing. Trusted: stated from the
/// map's source, not proved.
#[verifier::external_body]
fn new_file_map() -> (fresh: DashMap<String, Vec<String>>)
    ensures
        file_groups(fresh) == no_groups(),
{
    DashMap::new()
}

/// `DashMap::entry` with `Entry::or_insert_with`: the list under
/// `file_name`, made empty first where the name is new, gets `file_path`
/// at its end; no other name is touched. Trusted: stated from the map's
/// source, not proved.
#[verifier::external_body]
fn add_path(map: &mut DashMap<String, Vec<String>>, file_name: String, file_path: String)
    ensures
        file_groups(*final(map)) == file_groups(*old(map)).insert(
            file_name@,
            paths_under(file_groups(*old(map)), file_name@).push(file_path@),
        ),
{
    map.entry(file_name).or_insert_with(Vec::new).push(file_path);
}

/// `DashMap::into_iter`, collected: every name of the map with its paths,
/// each name once, in no stated order. Trusted: stated from the map's
/// source, not proved.
#[verifier::external_body]
fn into_groups(map: DashMap<String, Vec<String>>) -> (groups: Vec<(String, Vec<String>)>)
    ensures
        forall|at: int|
            0 <= at < groups.deep_view().len() ==> file_groups(map).contains_pair(
                (#[trigger] groups.deep_view()[at]).0,
                groups.deep_view()[at].1,
            ),
        distinct_names(groups.deep_view()),
        forall|name: Seq<char>| #[trigger]
            file_groups(map).dom().contains(name) ==> lists(groups.deep_view(), name),
{
    map.into_iter().collect()
}

/// `<[String]>::sort`: the same strings, in ascending order; strings are
/// ordered by their bytes, which is by code point. Trusted: stated from
/// the standard library's documentation, not proved.
#[verifier::external_body]
pub(crate) fn sort_strings(names: &mut Vec<String>)
    ensures
        final(names).deep_view().to_multiset() == old(names).deep_view().to_multiset(),
        lex_sorted(final(names).deep_view()),
{
    names.sort();
}

/// `<[(String, Vec<String>)]>::sort`: the same pairs, in ascending order;
/// pairs are ordered by their first part, then by their second, so the
/// names never descend. Trusted: stated from the standard library's
/// documentation, not proved.
#[verifier::external_body]
fn sort_groups(groups: &mut Vec<(String, Vec<String>)>)
    ensures
        final(groups).deep_view().to_multiset() == old(groups).deep_view().to_multiset(),
        forall|at: int, later: int|
            0 <= at <= later < final(groups).len() ==> lex_le(
                (#[trigger] final(groups)[at]).0@,
                (#[trigger] final(groups)[later]).0@,
            ),
{
    groups.sort();
}

/// One thing met while walking a directory tree.
#[derive(Debug, Clone)]
pub struct FileEntry {
    /// It is a regular file.
    pub is_file: bool,
    /// Its name, where it has one that is valid text.
    pub file_name: Option<String>,
    /// Its path relative to the root of the walk, where it lies below the root.
    pub relative_path: Option<String>,
    /// The extension of its name, where it has one that is valid text.
    pub extension: Option<String>,
}

/// `extension` is one of `filter`.
pub open spec fn allows(filter: Seq<String>, extension: Seq<char>) -> bool {
    exists|at: int| 0 <= at < filter.len() && (#[trigger] filter[at])@ == extension
}

impl FileEntry {
    /// The entry is filed: a regular file with a name and a relative path
    /// whose extension is in `filter`, or any such file where `filter` is empty.
    pub open spec fn filed(self, filter: Seq<String>) -> bool {
        &&& self.is_file
        &&& self.file_name is Some
        &&& self.relative_path is Some
        &&& (filter.len() == 0 || (self.extension matches Some(extension) && allows(
            filter,
            extension@,
        )))
    }

    /// The entry is filed under `name`.
    pub open spec fn filed_under(self, filter: Seq<String>, name: Seq<char>) -> bool {
        self.filed(filter) && self.file_name->0@ == name
    }
}

/// The relative paths of the entries that are filed under `name`, in the
/// order of the entries.
pub open spec fn paths_named(entries: Seq<FileEntry>, filter: Seq<String>, name: Seq<char>) -> Seq<
    Seq<char>,
> {
    entries.filter(|entry: FileEntry| entry.filed_under(filter, name)).map_values(
        |entry: FileEntry| entry.relative_path->0@,
    )
}

/// The entries grouped by name: each name that an entry is filed under,
/// with the relative paths of those entries in their order.
pub open spec fn grouping(entries: Seq<FileEntry>, filter: Seq<String>) -> Map<
    Seq<char>,
    Seq<Seq<char>>,
> {
    Map::new(
        |name: Seq<char>| paths_named(entries, filter, name).len() > 0,
        |name: Seq<char>| paths_named(entries, filter, name),
    )
}

/// `groups` files each entry that is filed at all under its name, in the
/// order of the entries, and holds no other name.
spec fn groups_entries(
    groups: Map<Seq<char>, Seq<Seq<char>>>,
    entries: Seq<FileEntry>,
    filter: Seq<String>,
) -> bool {
    &&& forall|name: Seq<char>| #[trigger]
        groups.dom().contains(name) <==> paths_named(entries, filter, name).len() > 0
    &&& forall|name: Seq<char>|
        groups.dom().contains(name) ==> #[trigger] groups[name] == paths_named(
            entries,
            filter,
            name,
        )
}

/// Whether `extension` is one of `filter`.
fn extension_allowed(filter: &[String], extension: &String) -> (allowed: bool)
    ensures
        allowed == allows(filter@, extension@),
{
    let mut at: usize = 0;
    while at < filter.len()
        invariant
            at <= filter.len(),
            forall|seen: int| 0 <= seen < at ==> (#[trigger] filter[seen])@ != extension@,
        decreases filter.len() - at,
    {
        if filter[at] == *extension {
            return true;
        }
        at = at + 1;
    }
    false
}

/// One more entry adds its path to the paths under its own name, if it
/// is filed, and changes the paths under no other name.
proof fn lemma_paths_named_push(
    entries: Seq<FileEntry>,
    entry: FileEntry,
    filter: Seq<String>,
    name: Seq<char>,
)
    ensures
        paths_named(entries.push(entry), filter, name) == if entry.filed_under(filter, name) {
            paths_named(entries, filter, name).push(entry.relative_path->0@)
        } else {
            paths_named(entries, filter, name)
        },
{
    let under = |entry: FileEntry| entry.filed_under(filter, name);
    let path = |entry: FileEntry| entry.relative_path->0@;
    entries.lemma_filter_push(entry, under);
    entries.filter(under).lemma_push_map_commute(path, entry);
}

/// Groups the relative paths of the regular files among `entries` by file
/// name, each group in the order of the entries. With a non-empty `filter`
/// only files whose extension is in it are taken.
pub fn collect_files(entries: &[FileEntry], filter: &[String]) -> (file_map: DashMap<
    String,
    Vec<String>,
>)
    ensures
        file_groups(file_map) == grouping(entries@, filter@),
{
    let mut file_map = new_file_map();
    let mut at: usize = 0;
    proof {
        assert forall|name: Seq<char>| #[trigger]
            paths_named(entries@.take(0), filter@, name).len() == 0 by {
            entries@.take(0).lemma_filter_len(|entry: FileEntry| entry.filed_under(filter@, name));
        }
    }
    while at < entries.len()
        invariant
            at <= entries.len(),
            groups_entries(file_groups(file_map), entries@.take(at as int), filter@),
        decreases entries.len() - at,
    {
        let entry = &entries[at];
        let ghost seen = entries@.take(at as int);
        let ghost before = file_groups(file_map);
        proof {
            assert(entries@.take(at + 1) == seen.push(*entry));
            assert forall|name: Seq<char>| #[trigger]
                paths_named(seen.push(*entry), filter@, name) == if entry.filed_under(
                    filter@,
                    name,
                ) {
                    paths_named(seen, filter@, name).push(entry.relative_path->0@)
                } else {
                    paths_named(seen, filter@, name)
                } by {
                lemma_paths_named_push(seen, *entry, filter@, name);
            }
        }
        let mut taken = false;
        if entry.is_file {
            if let Some(file_name) = &entry.file_name {
                if let Some(file_path) = &entry.relative_path {
                    let wanted = filter.len() == 0 || match &entry.extension {
                        Some(extension) => extension_allowed(filter, extension),
                        None => false,
                    };
                    if wanted {
                        add_path(&mut file_map, file_name.clone(), file_path.clone());
                        taken = true;
                    }
                }
            }
        }
        proof {
            assert(taken == entry.filed(filter@));
            let after = file_groups(file_map);
            assert forall|name: Seq<char>| #[trigger]
                after.dom().contains(name) <==> paths_named(
                    seen.push(*entry),
                    filter@,
                    name,
                ).len() > 0 by {
                assert(before.dom().contains(name) <==> paths_named(seen, filter@, name).len() > 0);
            }
            assert forall|name: Seq<char>| after.dom().contains(name) implies #[trigger] after[name]
                == paths_named(seen.push(*entry), filter@, name) by {
                assert(before.dom().contains(name) <==> paths_named(seen, filter@, name).len() > 0);
                if before.dom().contains(name) {
                    assert(before[name] == paths_named(seen, filter@, name));
                }
            }
        }
        at = at + 1;
    }
    assert(entries@.take(at as int) == entries@);
    assert(file_groups(file_map) =~= grouping(entries@, filter@));
    file_map
}

/// `group` is a name that `groups` files more than one path under, with
/// those paths in ascending order.
pub open spec fn is_duplicate_group(
    group: (Seq<char>, Seq<Seq<char>>),
    groups: Map<Seq<char>, Seq<Seq<char>>>,
) -> bool {
    &&& groups.dom().contains(group.0)
    &&& groups[group.0].len() > 1
    &&& group.1.to_multiset() == groups[group.0].to_multiset()
    &&& lex_sorted(group.1)
}

/// The names of `report` ascend strictly.
pub open spec fn ascending_names(report: Seq<(Seq<char>, Seq<Seq<char>>)>) -> bool {
    forall|at: int, later: int|
        0 <= at < later < report.len() ==> lex_le(
            (#[trigger] report[at]).0,
            (#[trigger] report[later]).0,
        ) && report[at].0 != report[later].0
}

/// `report` is the list of duplicates of `groups`: exactly the names with
/// more than one path, in ascending order, each with its paths in
/// ascending order.
pub open spec fn reports_duplicates(
    report: Seq<(Seq<char>, Seq<Seq<char>>)>,
    groups: Map<Seq<char>, Seq<Seq<char>>>,
) -> bool {
    &&& forall|at: int| 0 <= at < report.len() ==> is_duplicate_group(#[trigger] report[at], groups)
    &&& forall|name: Seq<char>| #[trigger]
        groups.dom().contains(name) && groups[name].len() > 1 ==> lists(report, name)
    &&& ascending_names(report)
}

/// Two sequences with the same elements, counted: they are equally long,
/// hold the same values, and are free of repetition together.
pub proof fn lemma_same_elements<A>(a: Seq<A>, b: Seq<A>)
    requires
        a.to_multiset() == b.to_multiset(),
    ensures
        a.len() == b.len(),
        forall|x: A| a.contains(x) <==> b.contains(x),
        a.no_duplicates() ==> b.no_duplicates(),
{
    vstd::seq_lib::to_multiset_len(a);
    vstd::seq_lib::to_multiset_len(b);
    assert forall|x: A| a.contains(x) <==> b.contains(x) by {
        vstd::seq_lib::to_multiset_contains(a, x);
        vstd::seq_lib::to_multiset_contains(b, x);
    }
    if a.no_duplicates() {
        a.lemma_multiset_has_no_duplicates();
        b.lemma_multiset_has_no_duplicates_conv();
    }
}

/// The names that occur more than once: each name of `file_map` that has
/// more than one path, in ascending order of the names, with its paths in
/// ascending order.
pub fn filter_duplicates(file_map: DashMap<String, Vec<String>>) -> (results: Vec<
    (String, Vec<String>),
>)
    ensures
        reports_duplicates(results.deep_view(), file_groups(file_map)),
{
    let ghost filed = file_groups(file_map);
    let mut groups = into_groups(file_map);
    let mut results: Vec<(String, Vec<String>)> = Vec::new();
    while groups.len() > 0
        invariant
            forall|at: int|
                0 <= at < groups.deep_view().len() ==> filed.contains_pair(
                    (#[trigger] groups.deep_view()[at]).0,
                    groups.deep_view()[at].1,
                ),
            distinct_names(groups.deep_view()),
            forall|at: int|
                0 <= at < results.deep_view().len() ==> is_duplicate_group(
                    #[trigger] results.deep_view()[at],
                    filed,
                ),
            distinct_names(results.deep_view()),
            forall|name: Seq<char>|
                lists(results.deep_view(), name) ==> !lists(groups.deep_view(), name),
            forall|name: Seq<char>| #[trigger]
                filed.dom().contains(name) && filed[name].len() > 1 ==> lists(
                    groups.deep_view(),
                    name,
                ) || lists(results.deep_view(), name),
        decreases groups.len(),
    {
        let ghost rest = groups.deep_view();
        let ghost done = results.deep_view();
        let group = groups.pop().unwrap();
        let (name, mut paths) = group;
        proof {
            assert(groups.deep_view() == rest.drop_last());
            assert(rest.last() == (name@, paths.deep_view()));
            assert forall|at: int| 0 <= at < rest.len() - 1 implies rest.drop_last()[at]
                == rest[at] by {}
        }
        let ghost unsorted = paths.deep_view();
        let kept = paths.len() > 1;
        if kept {
            sort_strings(&mut paths);
            proof {
                lemma_same_elements(unsorted, paths.deep_view());
            }
            results.push((name, paths));
            proof {
                assert(results.deep_view() == done.push((name@, paths.deep_view())));
            }
        }
        proof {
            let now = results.deep_view();
            let left = groups.deep_view();
            assert forall|other: Seq<char>| lists(now, other) implies !lists(left, other) by {
                if lists(left, other) {
                    let at = choose|at: int| 0 <= at < left.len() && (#[trigger] left[at]).0 == other;
                    assert(rest[at].0 == other);
                    if other == name@ {
                        assert(rest[rest.len() - 1].0 == other);
                    } else {
                        let found = choose|found: int|
                            0 <= found < now.len() && (#[trigger] now[found]).0 == other;
                        assert(done[found].0 == other);
                        assert(lists(done, other));
                        assert(lists(rest, other));
                    }
                }
            }
            assert forall|other: Seq<char>| #[trigger]
                filed.dom().contains(other) && filed[other].len() > 1 implies lists(left, other)
                || lists(now, other) by {
                if lists(rest, other) {
                    let at = choose|at: int| 0 <= at < rest.len() && (#[trigger] rest[at]).0 == other;
                    if at == rest.len() - 1 {
                        assert(kept);
                        assert(now[now.len() - 1].0 == other);
                    } else {
                        assert(left[at].0 == other);
                    }
                } else {
                    let at = choose|at: int| 0 <= at < done.len() && (#[trigger] done[at]).0 == other;
                    assert(now[at].0 == other);
                }
            }
            assert(distinct_names(now)) by {
                if kept {
                    assert forall|at: int, other: int| 0 <= at < other < now.len() implies (
                    #[trigger] now[at]).0 != (#[trigger] now[other]).0 by {
                        if other == now.len() - 1 {
                            if now[at].0 == name@ {
                                assert(done[at].0 == name@);
                                assert(lists(done, name@));
                                assert(rest[rest.len() - 1].0 == name@);
                                assert(lists(rest, name@));
                            }
                        } else {
                            assert(now[at] == done[at]);
                            assert(now[other] == done[other]);
                        }
                    }
                }
            }
        }
    }
    let ghost unsorted = results.deep_view();
    sort_groups(&mut results);
    proof {
        let report = results.deep_view();
        lemma_same_elements(unsorted, report);
        lemma_same_elements(report, unsorted);
        assert forall|at: int| 0 <= at < report.len() implies is_duplicate_group(
            #[trigger] report[at],
            filed,
        ) by {
            assert(report.contains(report[at]));
            let from = choose|from: int| 0 <= from < unsorted.len() && unsorted[from] == report[at];
            assert(is_duplicate_group(unsorted[from], filed));
        }
        assert forall|name: Seq<char>| #[trigger]
            filed.dom().contains(name) && filed[name].len() > 1 implies lists(report, name) by {
            assert(groups.deep_view().len() == 0);
            assert(!lists(groups.deep_view(), name));
            let from = choose|from: int| 0 <= from < unsorted.len() && (#[trigger] unsorted[from]).0 == name;
            assert(unsorted.contains(unsorted[from]));
            let at = choose|at: int| 0 <= at < report.len() && report[at] == unsorted[from];
            assert(report[at].0 == name);
        }
        assert(unsorted.no_duplicates()) by {
            assert forall|at: int, other: int|
                0 <= at < unsorted.len() && 0 <= other < unsorted.len() && at != other implies unsorted[at]
                != unsorted[other] by {
                if at < other {
                    assert(unsorted[at].0 != unsorted[other].0);
                } else {
                    assert(unsorted[other].0 != unsorted[at].0);
                }
            }
        }
        assert forall|at: int, later: int| 0 <= at < later < report.len() implies lex_le(
            (#[trigger] report[at]).0,
            (#[trigger] report[later]).0,
        ) && report[at].0 != report[later].0 by {
            assert(lex_le(results[at].0@, results[later].0@));
            assert(report[at] != report[later]);
            if report[at].0 == report[later].0 {
                assert(report.contains(report[at]));
                assert(report.contains(report[later]));
                let a = choose|a: int| 0 <= a < unsorted.len() && unsorted[a] == report[at];
                let b = choose|b: int| 0 <= b < unsorted.len() && unsorted[b] == report[later];
                if a < b {
                    assert(unsorted[a].0 != unsorted[b].0);
                } else if b < a {
                    assert(unsorted[b].0 != unsorted[a].0);
                }
            }
        }
    }
    results
}

/// The duplicates among the files below `path`, of which `entries` holds
/// one entry for each thing met on the walk: none for an empty path, else
/// what `filter_duplicates` makes of what `collect_files` gathered.
pub fn find_duplicate_files(path: &str, entries: &[FileEntry], filter: &[String]) -> (results: Vec<
    (String, Vec<String>),
>)
    ensures
        path@.len() == 0 ==> results.len() == 0,
        path@.len() > 0 ==> reports_duplicates(results.deep_view(), grouping(entries@, filter@)),
{
    if path.is_empty() {
        return Vec::new();
    }
    filter_duplicates(collect_files(entries, filter))
}

} // verus!

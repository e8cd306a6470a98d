//! The tables that a Lua script defines, among the names asked for.
//!
//! The library does not run the script: the caller loads it, looks each
//! name up among its globals, and hands over what it found.

use vstd::prelude::*;
use crate::outcomes::{first_failure, lemma_failure_stays};

verus! {

/// What looking the names up gave, name by name.
pub open spec fn lookup_outcomes(lookups: Seq<(String, Result<bool, String>)>) -> Seq<
    Result<bool, String>,
> {
    lookups.map_values(|lookup: (String, Result<bool, String>)| lookup.1)
}

/// The names that were found to be tables, in the order asked.
pub open spec fn tables_of(lookups: Seq<(String, Result<bool, String>)>) -> Seq<Seq<char>> {
    lookups.filter(|lookup: (String, Result<bool, String>)| lookup.1 == Ok::<bool, String>(true))
        .map_values(|lookup: (String, Result<bool, String>)| lookup.0@)
}

/// One more lookup adds its name to the tables if it found one.
proof fn lemma_tables_of_push(
    lookups: Seq<(String, Result<bool, String>)>,
    lookup: (String, Result<bool, String>),
)
    ensures
        tables_of(lookups.push(lookup)) == if lookup.1 == Ok::<bool, String>(true) {
            tables_of(lookups).push(lookup.0@)
        } else {
            tables_of(lookups)
        },
{
    let is_table = |lookup: (String, Result<bool, String>)| lookup.1 == Ok::<bool, String>(true);
    let name = |lookup: (String, Result<bool, String>)| lookup.0@;
    lookups.lemma_filter_push(lookup, is_table);
    lookups.filter(is_table).lemma_push_map_commute(name, lookup);
}

/// The names among those asked for that are tables of a loaded script.
/// Each of `lookups` is a name with what looking it up gave: whether the
/// global of that name is a table, or why the lookup failed. The first
/// failure, in the order asked, is the answer; without one, the names
/// that are tables, in the order asked.
pub fn collect_tables(lookups: &[(String, Result<bool, String>)]) -> (tables: Result<
    Vec<String>,
    String,
>)
    ensures
        first_failure(lookup_outcomes(lookups@)) matches Some(at) ==> (tables matches Err(reason)
            && lookups[at].1 == Err::<bool, String>(reason)),
        first_failure(lookup_outcomes(lookups@)) is None ==> (tables matches Ok(names)
            && names.deep_view() == tables_of(lookups@)),
{
    let mut table_names: Vec<String> = Vec::new();
    let mut at: usize = 0;
    proof {
        lookups@.take(0).lemma_filter_len(
            |lookup: (String, Result<bool, String>)| lookup.1 == Ok::<bool, String>(true),
        );
        assert(table_names.deep_view() =~= tables_of(lookups@.take(0)));
    }
    while at < lookups.len()
        invariant
            at <= lookups.len(),
            first_failure(lookup_outcomes(lookups@.take(at as int))) is None,
            table_names.deep_view() == tables_of(lookups@.take(at as int)),
        decreases lookups.len() - at,
    {
        let ghost seen = lookups@.take(at as int);
        let ghost done = table_names.deep_view();
        proof {
            assert(lookups@.take(at + 1) == seen.push(lookups[at as int]));
            assert(lookup_outcomes(lookups@.take(at + 1)).drop_last() == lookup_outcomes(seen));
            lemma_tables_of_push(seen, lookups[at as int]);
        }
        match &lookups[at].1 {
            Ok(is_table) => {
                if *is_table {
                    table_names.push(lookups[at].0.clone());
                    assert(table_names.deep_view() == done.push(lookups[at as int].0@));
                }
            },
            Err(reason) => {
                proof {
                    lemma_failure_stays(lookup_outcomes(lookups@), at + 1);
                    assert(lookup_outcomes(lookups@).take(at + 1) == lookup_outcomes(
                        lookups@.take(at + 1),
                    ));
                }
                return Err(reason.clone());
            },
        }
        at = at + 1;
    }
    assert(lookups@.take(at as int) == lookups@);
    Ok(table_names)
}

/// The tables of the script at `path`: none for an empty path, none where
/// the script could not be read or run (`script` is then the failure),
/// none where a lookup failed; else as `collect_tables`.
pub fn get_lua_tables(path: &str, script: &Result<Vec<(String, Result<bool, String>)>, String>) -> (tables:
    Vec<String>)
    ensures
        tables.deep_view() == match script {
            Ok(lookups) if path@.len() > 0 && first_failure(lookup_outcomes(lookups@)) is None => tables_of(
                lookups@,
            ),
            _ => Seq::empty(),
        },
{
    if path.is_empty() {
        let none: Vec<String> = Vec::new();
        assert(none.deep_view() =~= Seq::<Seq<char>>::empty());
        return none;
    }
    match script {
        Ok(lookups) => match collect_tables(lookups.as_slice()) {
            Ok(names) => names,
            Err(_) => {
                let none: Vec<String> = Vec::new();
                assert(none.deep_view() =~= Seq::<Seq<char>>::empty());
                none
            },
        },
        Err(_) => {
            let none: Vec<String> = Vec::new();
            assert(none.deep_view() =~= Seq::<Seq<char>>::empty());
            none
        },
    }
}

} // verus!

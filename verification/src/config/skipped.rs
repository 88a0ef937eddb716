//! The frameworks that are skipped, with the reasons why.

use vstd::prelude::*;

use crate::config::nesting::{check_depth, is_shallow};
use crate::name_map::NameMap;

verus! {

/// Why a text names no skipped frameworks.
#[derive(Debug, PartialEq, Eq)]
pub enum SkippedError {
    /// The text nests values too deeply to be parsed.
    Nested,
    /// The text is no table of names and reasons. What the parser says of it.
    Toml(String),
}

/// What entries say: names and reasons.
pub open spec fn entry_views(entries: Seq<(String, String)>) -> Seq<(Seq<char>, Seq<char>)> {
    entries.map_values(|entry: (String, String)| (entry.0@, entry.1@))
}

/// The reasons under their names, later ones in place of earlier ones.
pub open spec fn reasons(entries: Seq<(Seq<char>, Seq<char>)>) -> Map<Seq<char>, Seq<char>>
    decreases entries.len(),
{
    if entries.len() == 0 {
        Map::empty()
    } else {
        reasons(entries.drop_last()).insert(entries.last().0, entries.last().1)
    }
}

/// What the values of a map say.
pub open spec fn texts(map: Map<Seq<char>, String>) -> Map<Seq<char>, Seq<char>> {
    map.map_values(|value: String| value@)
}

/// What `basic_toml::from_str` makes of a text as a table of texts: the entries in the order of
/// their names, or the message of its error.
pub uninterp spec fn toml_table(text: Seq<char>) -> Result<
    Seq<(Seq<char>, Seq<char>)>,
    Seq<char>,
>;

/// Calls `basic_toml::from_str` for a `BTreeMap` of texts. Claimed of it: the outcome, entries
/// or error message, depends on the text alone. It goes into brackets, braces and dotted keys by
/// recursion without a limit, so the text has to be shallow.
#[verifier::external_body]
fn parse_table(text: &str) -> (parsed: Result<Vec<(String, String)>, String>)
    requires
        is_shallow(text@),
    ensures
        match (parsed, toml_table(text@)) {
            (Ok(entries), Ok(table)) => entry_views(entries@) == table,
            (Err(e), Err(f)) => e@ == f,
            _ => false,
        },
{
    match basic_toml::from_str::<std::collections::BTreeMap<String, String>>(text) {
        Ok(table) => Ok(table.into_iter().collect()),
        Err(e) => Err(e.to_string()),
    }
}

/// Puts reasons under their names, later ones in place of earlier ones.
pub fn collect_skipped(entries: Vec<(String, String)>) -> (map: NameMap<String>)
    ensures
        map.wf(),
        texts(map@) == reasons(entry_views(entries@)),
{
    let ghost all = entries@;
    let mut map: NameMap<String> = NameMap::new();
    let mut i: usize = 0;
    assert(texts(map@) =~= reasons(entry_views(all).take(0)));
    while i < entries.len()
        invariant
            all == entries@,
            i <= all.len(),
            map.wf(),
            texts(map@) == reasons(entry_views(all).take(i as int)),
        decreases all.len() - i,
    {
        let ghost before = map@;
        let name = entries[i].0.clone();
        let reason = entries[i].1.clone();
        map.insert(name, reason);
        proof {
            let shown = entry_views(all).take(i + 1);
            assert(shown.drop_last() =~= entry_views(all).take(i as int));
            assert(texts(map@) =~= texts(before).insert(shown.last().0, shown.last().1));
        }
        i += 1;
    }
    assert(entry_views(all).take(i as int) =~= entry_views(all));
    map
}

/// Reads the frameworks that are skipped, and the reasons, from a TOML text.
pub fn load_skipped(text: &str) -> (skipped: Result<NameMap<String>, SkippedError>)
    ensures
        !is_shallow(text@) ==> skipped matches Err(SkippedError::Nested),
        is_shallow(text@) ==> match toml_table(text@) {
            Ok(table) => skipped matches Ok(map) && map.wf() && texts(map@) == reasons(table),
            Err(message) => skipped matches Err(SkippedError::Toml(e)) && e@ == message,
        },
{
    if !check_depth(text) {
        return Err(SkippedError::Nested);
    }
    match parse_table(text) {
        Ok(entries) => Ok(collect_skipped(entries)),
        Err(message) => Err(SkippedError::Toml(message)),
    }
}

} // verus!

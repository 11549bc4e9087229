//! What the player reads back from the JSON files it keeps between runs: the
//! band catalog, the play history and the songs known to have no cover art.
use vstd::prelude::*;
use crate::bands::{entry_views, BandLibrary};
use crate::video::views;

verus! {

/// The map that a list of `(key, value)` pairs describes, a later pair
/// standing over an earlier one with the same key.
pub open spec fn pairs_map<V>(ps: Seq<(Seq<char>, V)>) -> Map<Seq<char>, V>
    decreases ps.len(),
{
    if ps.len() == 0 {
        Map::empty()
    } else {
        pairs_map(ps.drop_last()).insert(ps.last().0, ps.last().1)
    }
}

/// No key occurs twice among the pairs.
pub open spec fn keys_distinct<V>(ps: Seq<(Seq<char>, V)>) -> bool {
    forall|i: int, j: int| 0 <= i < j < ps.len() ==> ps[i].0 != ps[j].0
}

/// With distinct keys, the map holds each pair, and nothing else.
pub proof fn pairs_map_holds_each_pair<V>(ps: Seq<(Seq<char>, V)>)
    requires
        keys_distinct(ps),
    ensures
        forall|i: int| 0 <= i < ps.len() ==> #[trigger] pairs_map(ps).contains_key(ps[i].0)
            && pairs_map(ps)[ps[i].0] == ps[i].1,
        forall|k: Seq<char>| #[trigger] pairs_map(ps).contains_key(k) ==> exists|i: int|
            0 <= i < ps.len() && ps[i].0 == k,
        pairs_map(ps).dom().len() == ps.len(),
    decreases ps.len(),
{
    if ps.len() > 0 {
        let pre = ps.drop_last();
        assert(keys_distinct(pre));
        pairs_map_holds_each_pair(pre);
        assert(!pairs_map(pre).contains_key(ps.last().0));
        assert forall|k: Seq<char>| #[trigger] pairs_map(ps).contains_key(k) implies exists|i: int|
            0 <= i < ps.len() && ps[i].0 == k by {
            if k != ps.last().0 {
                let i = choose|i: int| 0 <= i < pre.len() && pre[i].0 == k;
                assert(ps[i] == pre[i]);
            } else {
                assert(ps[ps.len() - 1].0 == k);
            }
        }
        assert forall|i: int| 0 <= i < ps.len() implies #[trigger] pairs_map(ps).contains_key(ps[i].0)
            && pairs_map(ps)[ps[i].0] == ps[i].1 by {
            if i < ps.len() - 1 {
                assert(ps[i] == pre[i]);
            }
        }
        lemma_dom_finite(pre);
    }
}

proof fn lemma_dom_finite<V>(ps: Seq<(Seq<char>, V)>)
    ensures
        pairs_map(ps).dom().finite(),
    decreases ps.len(),
{
    if ps.len() > 0 {
        lemma_dom_finite(ps.drop_last());
    }
}

/// The bands and their songs that a JSON text holds
/// (`serde_json::from_str::<HashMap<String, Vec<String>>>`), `None` when it is
/// not such an object.
pub uninterp spec fn json_band_map(text: Seq<char>) -> Option<Map<Seq<char>, Seq<Seq<char>>>>;

/// The play count of each song that a JSON text holds
/// (`serde_json::from_str::<HashMap<String, u32>>`), `None` when it is not
/// such an object.
pub uninterp spec fn json_history(text: Seq<char>) -> Option<Map<Seq<char>, u32>>;

/// The strings that a JSON text holds as a set
/// (`serde_json::from_str::<HashSet<String>>`), `None` when it is not a list
/// of strings.
pub uninterp spec fn json_string_set(text: Seq<char>) -> Option<Set<Seq<char>>>;

/// The play history as text pairs.
pub open spec fn count_views(v: Seq<(String, u32)>) -> Seq<(Seq<char>, u32)> {
    v.map_values(|e: (String, u32)| (e.0@, e.1))
}

/// Calls `serde_json::from_str::<HashMap<String, Vec<String>>>` and hands out
/// its entries, each key once, in the map's order; the map is named
/// `json_band_map(text)`.
#[verifier::external_body]
fn parse_band_map(text: &str) -> (r: Option<Vec<(String, Vec<String>)>>)
    ensures
        r matches Some(v) ==> json_band_map(text@) == Some(pairs_map(entry_views(v@)))
            && keys_distinct(entry_views(v@)),
        r is None ==> json_band_map(text@) is None,
{
    match serde_json::from_str::<std::collections::HashMap<String, Vec<String>>>(text) {
        Ok(m) => Some(m.into_iter().collect()),
        Err(_) => None,
    }
}

/// Calls `serde_json::from_str::<HashMap<String, u32>>` and hands out its
/// entries, each key once, in the map's order; the map is named
/// `json_history(text)`.
#[verifier::external_body]
fn parse_history(text: &str) -> (r: Option<Vec<(String, u32)>>)
    ensures
        r matches Some(v) ==> json_history(text@) == Some(pairs_map(count_views(v@)))
            && keys_distinct(count_views(v@)),
        r is None ==> json_history(text@) is None,
{
    match serde_json::from_str::<std::collections::HashMap<String, u32>>(text) {
        Ok(m) => Some(m.into_iter().collect()),
        Err(_) => None,
    }
}

/// Calls `serde_json::from_str::<HashSet<String>>` and hands out its items,
/// each once, in the set's order; the set is named `json_string_set(text)`.
#[verifier::external_body]
fn parse_string_set(text: &str) -> (r: Option<Vec<String>>)
    ensures
        r matches Some(v) ==> json_string_set(text@) == Some(views(v@).to_set())
            && views(v@).no_duplicates(),
        r is None ==> json_string_set(text@) is None,
{
    match serde_json::from_str::<std::collections::HashSet<String>>(text) {
        Ok(s) => Some(s.into_iter().collect()),
        Err(_) => None,
    }
}

/// The band library that the saved band file `text` and the songs `library`
/// make: its bands are exactly those of the file, each with the file's songs;
/// `None` when the text is not a JSON object of song lists.
pub fn bands_from_json(text: &str, library: Vec<String>) -> (r: Option<BandLibrary>)
    ensures
        match json_band_map(text@) {
            Some(m) => r matches Some(b) && b@.0 == views(library@) && pairs_map(b@.1) == m
                && keys_distinct(b@.1),
            None => r is None,
        },
{
    match parse_band_map(text) {
        Some(entries) => Some(BandLibrary::from_parts(library, entries)),
        None => None,
    }
}

/// The play count of each song in the saved history `text`, each song once;
/// `None` when the text is not a JSON object of counts.
pub fn history_from_json(text: &str) -> (r: Option<Vec<(String, u32)>>)
    ensures
        match json_history(text@) {
            Some(m) => r matches Some(v) && pairs_map(count_views(v@)) == m
                && keys_distinct(count_views(v@)),
            None => r is None,
        },
{
    parse_history(text)
}

/// The songs of the saved no-art list `text`, each once; `None` when the text
/// is not a JSON list of strings.
pub fn no_art_from_json(text: &str) -> (r: Option<Vec<String>>)
    ensures
        match json_string_set(text@) {
            Some(s) => r matches Some(v) && views(v@).to_set() == s && views(v@).no_duplicates(),
            None => r is None,
        },
{
    parse_string_set(text)
}

} // verus!

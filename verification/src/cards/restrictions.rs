//! Forbidden-list entries: parsing one entry line and looking a card up.
use std::collections::HashMap;

use vstd::prelude::*;

use crate::chars::{before_first, chars_of, find_exec, parse_i64, parse_i64_exec, sub_chars, words, words_exec};

verus! {

broadcast use vstd::std_specs::hash::group_hash_axioms;

/// The count a card has in a list: its own entry, else the entry of its
/// alias when the alias is positive, else 3 (unlimited).
pub open spec fn restriction_of(entries: Map<i64, i64>, id: i64, alias: i64) -> i64 {
    if entries.contains_key(id) {
        entries[id]
    } else if alias > 0 && entries.contains_key(alias) {
        entries[alias]
    } else {
        3
    }
}

/// The entry that a forbidden-list line states: the text before `--` is
/// read as whitespace-separated words, the first an ID and the second a
/// count; the entry stands when both are integers and the count is 0 to 3.
pub open spec fn restriction_entry(line: Seq<char>) -> Option<(i64, i64)> {
    let w = words(before_first(line, "--"@));
    if w.len() < 2 {
        None
    } else {
        match (parse_i64(w[0]), parse_i64(w[1])) {
            (Some(id), Some(count)) => if 0 <= count <= 3 {
                Some((id, count))
            } else {
                None
            },
            _ => None,
        }
    }
}

/// Looks a card up in a forbidden list, falling back to its alias and then
/// to 3 (unlimited).
pub fn restriction_for(entries: &HashMap<i64, i64>, id: i64, alias: i64) -> (res: i64)
    ensures
        res == restriction_of(entries@, id, alias),
{
    match entries.get(&id) {
        Some(count) => *count,
        None => {
            if alias > 0 {
                match entries.get(&alias) {
                    Some(count) => *count,
                    None => 3,
                }
            } else {
                3
            }
        },
    }
}

/// Parses a forbidden-list entry line such as `12345678 1 --name`.
pub fn parse_restriction_chars(line: &[char]) -> (res: Option<(i64, i64)>)
    ensures
        res == restriction_entry(line@),
{
    let marker = chars_of("--");
    let entry = match find_exec(line, &marker) {
        Some(i) => sub_chars(line, 0, i),
        None => sub_chars(line, 0, line.len()),
    };
    proof {
        assert(line@.subrange(0, line@.len() as int) =~= line@);
    }
    let parts = words_exec(&entry);
    if parts.len() < 2 {
        return None;
    }
    let id = match parse_i64_exec(&parts[0]) {
        Some(id) => id,
        None => return None,
    };
    let count = match parse_i64_exec(&parts[1]) {
        Some(count) => count,
        None => return None,
    };
    if 0 <= count && count <= 3 {
        Some((id, count))
    } else {
        None
    }
}

/// Parses a forbidden-list entry line such as `12345678 1 --name`.
pub fn parse_restriction(line: &str) -> (res: Option<(i64, i64)>)
    ensures
        res == restriction_entry(line@),
{
    parse_restriction_chars(&chars_of(line))
}


/// Every count of a list is 0 (forbidden) to 3 (unlimited).
pub open spec fn counts_in_range(entries: Map<i64, i64>) -> bool {
    forall|k: i64| entries.contains_key(k) ==> 0 <= #[trigger] entries[k] <= 3
}

/// An entry line only ever states a count from 0 to 3.
pub proof fn lemma_entry_in_range(line: Seq<char>)
    ensures
        restriction_entry(line) matches Some((_, count)) ==> 0 <= count <= 3,
{
}

/// Adding an entry read from a line keeps every count from 0 to 3.
pub proof fn lemma_insert_entry_in_range(entries: Map<i64, i64>, line: Seq<char>)
    requires
        counts_in_range(entries),
    ensures
        restriction_entry(line) matches Some((id, count)) ==> counts_in_range(entries.insert(id, count)),
{
}

/// A card's count in a list whose counts are 0 to 3 is 0 to 3, whichever
/// of its own entry, its alias's entry or the default it comes from.
pub proof fn lemma_restriction_in_range(entries: Map<i64, i64>, id: i64, alias: i64)
    requires
        counts_in_range(entries),
    ensures
        0 <= restriction_of(entries, id, alias) <= 3,
{
}

} // verus!

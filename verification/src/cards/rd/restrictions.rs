//! The RD forbidden-list file: one list made of its restriction sections.
use std::collections::HashMap;

use vstd::prelude::*;

use crate::cards::restrictions::{
    parse_restriction_chars, restriction_entry, restriction_for, restriction_of,
};
use crate::chars::{chars_eq, chars_of, lines, lines_exec, starts_with, starts_with_exec, trim, trim_exec, view_all};

verus! {

broadcast use vstd::std_specs::hash::group_hash_axioms;

/// `s` without its leading `'#'` characters (`trim_start_matches('#')`).
pub open spec fn without_leading_hashes(s: Seq<char>) -> Seq<char>
    decreases s.len(),
{
    if s.len() > 0 && s[0] == '#' {
        without_leading_hashes(s.drop_first())
    } else {
        s
    }
}

/// `c` in ASCII lower case (`char::to_ascii_lowercase`).
pub open spec fn ascii_lower(c: char) -> char {
    if 'A' <= c && c <= 'Z' {
        ((c as u8) + 32) as char
    } else {
        c
    }
}

/// `s` in ASCII lower case (`str::to_ascii_lowercase`).
pub open spec fn ascii_lowercase(s: Seq<char>) -> Seq<char> {
    Seq::new(s.len(), |i: int| ascii_lower(s[i]))
}

/// The kind of section that a `#` header line opens.
#[derive(Debug, Clone, Copy, PartialEq, Eq, Structural)]
pub enum Section {
    Restriction,
    Other,
}

/// A header names a restriction section when, without its `#` marks and
/// in lower case, it reads `forbidden`, `limit`, `semi-limit` or
/// `semi limit`.
pub open spec fn section_of(header: Seq<char>) -> Section {
    let name = ascii_lowercase(without_leading_hashes(header));
    if name == "forbidden"@ || name == "limit"@ || name == "semi-limit"@ || name == "semi limit"@ {
        Section::Restriction
    } else {
        Section::Other
    }
}

impl Section {
    /// The section that a `#` header line opens.
    pub fn from_header(line: &[char]) -> (res: Section)
        ensures
            res == section_of(line@),
    {
        let mut start: usize = 0;
        proof {
            assert(line@.skip(0) =~= line@);
        }
        while start < line.len() && line[start] == '#'
            invariant
                0 <= start <= line@.len(),
                without_leading_hashes(line@) == without_leading_hashes(line@.skip(start as int)),
            decreases line@.len() - start,
        {
            proof {
                assert(line@.skip(start as int).drop_first() =~= line@.skip(start + 1));
            }
            start += 1;
        }
        proof {
            assert(line@.skip(0) =~= line@);
        }
        let mut name: Vec<char> = Vec::new();
        let mut i: usize = start;
        while i < line.len()
            invariant
                start <= i <= line@.len(),
                name@ == ascii_lowercase(line@.subrange(start as int, i as int)),
            decreases line@.len() - i,
        {
            let c = line[i];
            let lower = if 'A' <= c && c <= 'Z' {
                ((c as u8) + 32) as char
            } else {
                c
            };
            name.push(lower);
            i += 1;
            proof {
                assert(name@ =~= ascii_lowercase(line@.subrange(start as int, i as int)));
            }
        }
        proof {
            let t = line@.skip(start as int);
            if start < line@.len() {
                assert(t[0] == line@[start as int]);
            }
            assert(without_leading_hashes(t) == t);
            assert(line@.subrange(start as int, line@.len() as int) =~= t);
        }
        if chars_eq(&name, &chars_of("forbidden")) || chars_eq(&name, &chars_of("limit"))
            || chars_eq(&name, &chars_of("semi-limit")) || chars_eq(&name, &chars_of("semi limit")) {
            Section::Restriction
        } else {
            Section::Other
        }
    }

    /// Whether entries of this section count.
    pub fn is_restriction(self) -> (res: bool)
        ensures
            res == (self == Section::Restriction),
    {
        match self {
            Section::Restriction => true,
            Section::Other => false,
        }
    }
}

/// The RD forbidden list.
pub struct ForbiddenList {
    entries: HashMap<i64, i64>,
}

/// The parser's state after some lines: the current section and the list.
pub open spec fn list_step(st: (Section, Map<i64, i64>), raw: Seq<char>) -> (Section, Map<i64, i64>) {
    let line = trim(raw);
    if line.len() == 0 {
        st
    } else if starts_with(line, "#"@) {
        (section_of(line), st.1)
    } else if st.0 != Section::Restriction {
        st
    } else {
        match restriction_entry(line) {
            Some((id, count)) => (st.0, st.1.insert(id, count)),
            None => st,
        }
    }
}

/// The state after reading the lines `ls` in order, from outside any
/// restriction section.
pub open spec fn list_state(ls: Seq<Seq<char>>) -> (Section, Map<i64, i64>)
    decreases ls.len(),
{
    if ls.len() == 0 {
        (Section::Other, Map::empty())
    } else {
        list_step(list_state(ls.drop_last()), ls.last())
    }
}

/// The list that an RD forbidden-list file states: the entries of the
/// sections whose `#` header is `forbidden`, `limit`, `semi-limit` or
/// `semi limit` (in any case), a later entry for an ID replacing an earlier one.
pub open spec fn parsed_list(text: Seq<char>) -> Map<i64, i64> {
    list_state(lines(text)).1
}

impl ForbiddenList {
    /// The list's entries.
    pub closed spec fn entries_view(&self) -> Map<i64, i64> {
        self.entries@
    }

    /// A card's count, aliases considered.
    pub fn for_card(&self, id: i64, alias: i64) -> (res: i64)
        ensures
            res == restriction_of(self.entries_view(), id, alias),
    {
        restriction_for(&self.entries, id, alias)
    }
}

impl Default for ForbiddenList {
    fn default() -> (res: Self)
        ensures
            res.entries_view() == Map::<i64, i64>::empty(),
    {
        ForbiddenList { entries: HashMap::new() }
    }
}

/// Reads the RD forbidden list from the text of its file.
pub fn parse_forbidden_list(text: &str) -> (res: ForbiddenList)
    ensures
        res.entries_view() == parsed_list(text@),
{
    let chars = chars_of(text);
    let ls = lines_exec(&chars);
    let ghost all = view_all(ls@);
    let mut entries: HashMap<i64, i64> = HashMap::new();
    let mut section = Section::Other;
    let hash = chars_of("#");
    let mut i: usize = 0;
    proof {
        assert(all.take(0) =~= Seq::<Seq<char>>::empty());
    }
    while i < ls.len()
        invariant
            0 <= i <= ls@.len(),
            all == view_all(ls@),
            all == lines(chars@),
            chars@ == text@,
            hash@ == "#"@,
            list_state(all.take(i as int)) == (section, entries@),
        decreases ls@.len() - i,
    {
        proof {
            assert(all.take(i + 1).drop_last() =~= all.take(i as int));
            assert(all.take(i + 1).last() == ls@[i as int]@);
        }
        let line = trim_exec(&ls[i]);
        if line.len() == 0 {
        } else if starts_with_exec(&line, &hash) {
            section = Section::from_header(&line);
        } else if section.is_restriction() {
            match parse_restriction_chars(&line) {
                Some((id, count)) => {
                    entries.insert(id, count);
                },
                None => {},
            }
        }
        i += 1;
    }
    proof {
        assert(all.take(ls@.len() as int) =~= all);
    }
    ForbiddenList { entries }
}


pub proof fn lemma_list_state_in_range(ls: Seq<Seq<char>>)
    ensures
        crate::cards::restrictions::counts_in_range(list_state(ls).1),
    decreases ls.len(),
{
    if ls.len() > 0 {
        lemma_list_state_in_range(ls.drop_last());
        let st = list_state(ls.drop_last());
        crate::cards::restrictions::lemma_insert_entry_in_range(st.1, trim(ls.last()));
    }
}

/// Every count that an RD forbidden-list file gives a card is 0
/// (forbidden) to 3 (unlimited).
pub proof fn lemma_rd_restrictions_in_range(text: Seq<char>, id: i64, alias: i64)
    ensures
        0 <= crate::cards::restrictions::restriction_of(parsed_list(text), id, alias) <= 3,
{
    lemma_list_state_in_range(lines(text));
    crate::cards::restrictions::lemma_restriction_in_range(parsed_list(text), id, alias);
}


/// A `#` header that, without its `#` marks and in ASCII lower case, reads
/// `forbidden`, `limit`, `semi-limit` or `semi limit` opens a restriction
/// section: an entry line right under it sets its card's count, whatever
/// came before, and the card then has that count in the list.
pub proof fn lemma_restriction_header_opens_section(
    ls: Seq<Seq<char>>,
    header: Seq<char>,
    entry: Seq<char>,
    id: i64,
    count: i64,
    alias: i64,
)
    requires
        starts_with(trim(header), "#"@),
        ({
            let name = ascii_lowercase(without_leading_hashes(trim(header)));
            name == "forbidden"@ || name == "limit"@ || name == "semi-limit"@ || name == "semi limit"@
        }),
        trim(entry).len() > 0,
        !starts_with(trim(entry), "#"@),
        restriction_entry(trim(entry)) == Some((id, count)),
    ensures
        list_state(ls.push(header).push(entry)).0 == Section::Restriction,
        list_state(ls.push(header).push(entry)).1 == list_state(ls).1.insert(id, count),
        restriction_of(list_state(ls.push(header).push(entry)).1, id, alias) == count,
{
    let h = ls.push(header);
    let all = h.push(entry);
    assert(all.drop_last() =~= h);
    assert(h.drop_last() =~= ls);
    reveal_strlit("#");
    assert(trim(header).len() > 0);
    assert(list_state(h) == (Section::Restriction, list_state(ls).1));
}

/// A `#` header that names no restriction section closes the current
/// one: the entry lines under it change nothing.
pub proof fn lemma_other_header_closes_section(ls: Seq<Seq<char>>, header: Seq<char>, entry: Seq<char>)
    requires
        starts_with(trim(header), "#"@),
        ({
            let name = ascii_lowercase(without_leading_hashes(trim(header)));
            !(name == "forbidden"@ || name == "limit"@ || name == "semi-limit"@ || name == "semi limit"@)
        }),
        !starts_with(trim(entry), "#"@),
    ensures
        list_state(ls.push(header).push(entry)).1 == list_state(ls).1,
{
    let h = ls.push(header);
    let all = h.push(entry);
    assert(all.drop_last() =~= h);
    assert(h.drop_last() =~= ls);
    reveal_strlit("#");
    assert(trim(header).len() > 0);
    assert(list_state(h) == (Section::Other, list_state(ls).1));
}
} // verus!

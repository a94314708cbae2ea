//! The OT forbidden-list file: the latest OCG list and the latest TCG list.
use std::collections::HashMap;

use vstd::prelude::*;

use crate::cards::restrictions::{
    counts_in_range, lemma_restriction_in_range, parse_restriction_chars, restriction_entry,
    restriction_for, restriction_of,
};
use crate::chars::{
    chars_of, contains, find_exec, lines, lines_exec, starts_with, starts_with_exec, sub_chars,
    trim, trim_exec, view_all,
};

verus! {

broadcast use vstd::std_specs::hash::group_hash_axioms;

/// The region a list section belongs to.
#[derive(Debug, Clone, Copy, PartialEq, Eq, Structural)]
pub enum Region {
    Ocg,
    Tcg,
}

/// Why a forbidden-list file could not be read as OCG and TCG lists.
#[derive(Debug, Clone, Copy, PartialEq, Eq, Structural)]
pub enum ForbiddenListsError {
    MissingOcg,
    MissingTcg,
}

impl ForbiddenListsError {
    /// The error message.
    pub fn message(&self) -> (res: &'static str)
        ensures
            res@ == (match self {
                ForbiddenListsError::MissingOcg => "missing latest OCG forbidden list"@,
                ForbiddenListsError::MissingTcg => "missing latest TCG forbidden list"@,
            }),
    {
        match self {
            ForbiddenListsError::MissingOcg => "missing latest OCG forbidden list",
            ForbiddenListsError::MissingTcg => "missing latest TCG forbidden list",
        }
    }
}

/// The latest OCG and TCG lists of an OT forbidden-list file.
pub struct ForbiddenLists {
    ocg: HashMap<i64, i64>,
    tcg: HashMap<i64, i64>,
}

/// The parser's state after some lines.
pub struct ListsState {
    pub ocg: Option<Map<i64, i64>>,
    pub tcg: Option<Map<i64, i64>>,
    pub region: Option<Region>,
    pub entries: Map<i64, i64>,
    pub stopped: bool,
}

/// The entries of the current section are kept as the region's list when
/// the region has none yet, and dropped otherwise.
pub open spec fn finished(st: ListsState) -> ListsState {
    match st.region {
        Some(Region::Ocg) if st.ocg is None => ListsState {
            ocg: Some(st.entries),
            entries: Map::empty(),
            ..st
        },
        Some(Region::Tcg) if st.tcg is None => ListsState {
            tcg: Some(st.entries),
            entries: Map::empty(),
            ..st
        },
        _ => ListsState { entries: Map::empty(), ..st },
    }
}

/// One line of the file read into the state. A `!name` line closes the
/// current section and opens a TCG section when the name holds `TCG`, an
/// OCG section otherwise, unless that region already has its list; once
/// both lists are taken the rest of the file is ignored. Blank lines,
/// `#` comments and lines outside an open section are ignored.
pub open spec fn list_step(st: ListsState, raw: Seq<char>) -> ListsState {
    let line = trim(raw);
    if st.stopped || line.len() == 0 {
        st
    } else if starts_with(line, "!"@) {
        let f = finished(st);
        if f.ocg is Some && f.tcg is Some {
            ListsState { stopped: true, ..f }
        } else if contains(line.drop_first(), "TCG"@) {
            ListsState { region: if f.tcg is None { Some(Region::Tcg) } else { None }, ..f }
        } else {
            ListsState { region: if f.ocg is None { Some(Region::Ocg) } else { None }, ..f }
        }
    } else if st.region is None || starts_with(line, "#"@) {
        st
    } else {
        match restriction_entry(line) {
            Some((id, count)) => ListsState { entries: st.entries.insert(id, count), ..st },
            None => st,
        }
    }
}

/// The state after reading the lines `ls` in order.
pub open spec fn lists_state(ls: Seq<Seq<char>>) -> ListsState
    decreases ls.len(),
{
    if ls.len() == 0 {
        ListsState { ocg: None, tcg: None, region: None, entries: Map::empty(), stopped: false }
    } else {
        list_step(lists_state(ls.drop_last()), ls.last())
    }
}

/// What reading a whole file gives: the two lists, or the first one missing.
pub open spec fn parsed_lists(text: Seq<char>) -> Result<(Map<i64, i64>, Map<i64, i64>), ForbiddenListsError> {
    let f = finished(lists_state(lines(text)));
    match (f.ocg, f.tcg) {
        (None, _) => Err(ForbiddenListsError::MissingOcg),
        (Some(_), None) => Err(ForbiddenListsError::MissingTcg),
        (Some(ocg), Some(tcg)) => Ok((ocg, tcg)),
    }
}

pub open spec fn opt_map_view(o: Option<HashMap<i64, i64>>) -> Option<Map<i64, i64>> {
    match o {
        Some(m) => Some(m@),
        None => None,
    }
}

impl ForbiddenLists {
    /// The OCG list.
    pub closed spec fn ocg_view(&self) -> Map<i64, i64> {
        self.ocg@
    }

    /// The TCG list.
    pub closed spec fn tcg_view(&self) -> Map<i64, i64> {
        self.tcg@
    }

    /// A card's `[ocg, tcg]` counts, aliases considered.
    pub fn for_card(&self, id: i64, alias: i64) -> (res: Vec<i64>)
        ensures
            res@ == seq![
                restriction_of(self.ocg_view(), id, alias),
                restriction_of(self.tcg_view(), id, alias),
            ],
    {
        let ocg = restriction_for(&self.ocg, id, alias);
        let tcg = restriction_for(&self.tcg, id, alias);
        let mut res: Vec<i64> = Vec::new();
        res.push(ocg);
        res.push(tcg);
        proof {
            assert(res@ =~= seq![ocg, tcg]);
        }
        res
    }
}

proof fn lemma_stopped_stays(ls: Seq<Seq<char>>, i: int, j: int)
    requires
        0 <= i <= j <= ls.len(),
        lists_state(ls.take(i)).stopped,
    ensures
        lists_state(ls.take(j)) == lists_state(ls.take(i)),
    decreases j - i,
{
    if j > i {
        lemma_stopped_stays(ls, i, j - 1);
        assert(ls.take(j).drop_last() =~= ls.take(j - 1));
    }
}

/// Closes the current section (see `finished`).
fn finish_current_list(
    region: Option<Region>,
    entries: &mut HashMap<i64, i64>,
    ocg: &mut Option<HashMap<i64, i64>>,
    tcg: &mut Option<HashMap<i64, i64>>,
)
    ensures
        ({
            let f = finished(
                ListsState {
                    ocg: opt_map_view(*old(ocg)),
                    tcg: opt_map_view(*old(tcg)),
                    region,
                    entries: old(entries)@,
                    stopped: false,
                },
            );
            &&& opt_map_view(*final(ocg)) == f.ocg
            &&& opt_map_view(*final(tcg)) == f.tcg
            &&& final(entries)@ == f.entries
        }),
{
    let take_ocg = match region {
        Some(Region::Ocg) => ocg.is_none(),
        _ => false,
    };
    let take_tcg = match region {
        Some(Region::Tcg) => tcg.is_none(),
        _ => false,
    };
    if take_ocg {
        let mut taken: HashMap<i64, i64> = HashMap::new();
        std::mem::swap(&mut taken, entries);
        *ocg = Some(taken);
    } else if take_tcg {
        let mut taken: HashMap<i64, i64> = HashMap::new();
        std::mem::swap(&mut taken, entries);
        *tcg = Some(taken);
    } else {
        entries.clear();
    }
}

/// Reads the latest OCG and TCG lists from the text of an OT forbidden-list
/// file.
pub fn parse_forbidden_lists(text: &str) -> (res: Result<ForbiddenLists, ForbiddenListsError>)
    ensures
        match (res, parsed_lists(text@)) {
            (Ok(lists), Ok((ocg, tcg))) => lists.ocg_view() == ocg && lists.tcg_view() == tcg,
            (Err(e), Err(f)) => e == f,
            _ => false,
        },
{
    let chars = chars_of(text);
    let ls = lines_exec(&chars);
    let ghost all = view_all(ls@);
    let mut ocg: Option<HashMap<i64, i64>> = None;
    let mut tcg: Option<HashMap<i64, i64>> = None;
    let mut current_region: Option<Region> = None;
    let mut current_entries: HashMap<i64, i64> = HashMap::new();
    let bang = chars_of("!");
    let hash = chars_of("#");
    let tcg_name = chars_of("TCG");
    let mut i: usize = 0;
    proof {
        assert(all.take(0) =~= Seq::<Seq<char>>::empty());
        assert(all.take(all.len() as int) =~= all);
    }
    while i < ls.len()
        invariant_except_break
            0 <= i <= ls@.len(),
            ({
                let st = lists_state(all.take(i as int));
                &&& !st.stopped
                &&& st.ocg == opt_map_view(ocg)
                &&& st.tcg == opt_map_view(tcg)
                &&& st.region == current_region
                &&& st.entries == current_entries@
            }),
        invariant
            all == view_all(ls@),
            all == lines(chars@),
            all.take(all.len() as int) == all,
            chars@ == text@,
            bang@ == "!"@,
            hash@ == "#"@,
            tcg_name@ == "TCG"@,
        ensures
            ({
                let st = lists_state(all);
                &&& st.ocg == opt_map_view(ocg)
                &&& st.tcg == opt_map_view(tcg)
                &&& st.region == current_region
                &&& st.entries == current_entries@
            }),
        decreases ls@.len() - i,
    {
        let ghost prev = lists_state(all.take(i as int));
        proof {
            assert(all.take(i + 1).drop_last() =~= all.take(i as int));
            assert(all.take(i + 1).last() == ls@[i as int]@);
        }
        let line = trim_exec(&ls[i]);
        if line.len() == 0 {
            i += 1;
            continue;
        }
        if starts_with_exec(&line, &bang) {
            finish_current_list(current_region, &mut current_entries, &mut ocg, &mut tcg);
            if ocg.is_some() && tcg.is_some() {
                proof {
                    let st = lists_state(all.take(i + 1));
                    assert(trim(all[i as int]) == line@);
                    assert(starts_with(line@, "!"@));
                    assert(st == list_step(prev, all[i as int]));
                    assert(st.stopped);
                    lemma_stopped_stays(all, i + 1, all.len() as int);
                    assert(all.take(all.len() as int) =~= all);
                }
                break;
            }
            let name = sub_chars(&line, 1, line.len());
            proof {
                assert(name@ =~= line@.drop_first());
            }
            let is_tcg = match find_exec(&name, &tcg_name) {
                Some(_) => true,
                None => false,
            };
            if is_tcg {
                current_region = if tcg.is_none() { Some(Region::Tcg) } else { None };
            } else {
                current_region = if ocg.is_none() { Some(Region::Ocg) } else { None };
            }
            i += 1;
            continue;
        }
        if current_region.is_none() || starts_with_exec(&line, &hash) {
            i += 1;
            continue;
        }
        match parse_restriction_chars(&line) {
            Some((id, count)) => {
                current_entries.insert(id, count);
            },
            None => {},
        }
        i += 1;
    }
    proof {
        if i == ls.len() {
            assert(all.take(i as int) =~= all);
        }
    }
    finish_current_list(current_region, &mut current_entries, &mut ocg, &mut tcg);
    match ocg {
        None => Err(ForbiddenListsError::MissingOcg),
        Some(ocg) => match tcg {
            None => Err(ForbiddenListsError::MissingTcg),
            Some(tcg) => Ok(ForbiddenLists { ocg, tcg }),
        },
    }
}


/// Every list that the parser holds or is filling has counts 0 to 3.
pub open spec fn state_in_range(st: ListsState) -> bool {
    &&& counts_in_range(st.entries)
    &&& (st.ocg matches Some(m) ==> counts_in_range(m))
    &&& (st.tcg matches Some(m) ==> counts_in_range(m))
}

pub proof fn lemma_lists_state_in_range(ls: Seq<Seq<char>>)
    ensures
        state_in_range(lists_state(ls)),
        state_in_range(finished(lists_state(ls))),
    decreases ls.len(),
{
    if ls.len() > 0 {
        lemma_lists_state_in_range(ls.drop_last());
        let st = lists_state(ls.drop_last());
        let line = trim(ls.last());
        match restriction_entry(line) {
            Some((id, count)) => {
                crate::cards::restrictions::lemma_insert_entry_in_range(st.entries, line);
            },
            None => {},
        }
    }
}

/// Every count that an OT forbidden-list file gives a card, in either of
/// its lists, is 0 (forbidden) to 3 (unlimited).
pub proof fn lemma_ot_restrictions_in_range(text: Seq<char>, id: i64, alias: i64)
    ensures
        parsed_lists(text) matches Ok((ocg, tcg)) ==> 0 <= restriction_of(ocg, id, alias) <= 3
            && 0 <= restriction_of(tcg, id, alias) <= 3,
{
    lemma_lists_state_in_range(lines(text));
    match parsed_lists(text) {
        Ok((ocg, tcg)) => {
            lemma_restriction_in_range(ocg, id, alias);
            lemma_restriction_in_range(tcg, id, alias);
        },
        Err(_) => {},
    }
}


/// The first `!` header of a file opens the TCG list when its name holds
/// `TCG` and the OCG list otherwise: an entry line under it is that list's
/// only entry once the section closes, and the other list is still
/// missing.
pub proof fn lemma_first_section_fills_its_region(header: Seq<char>, entry: Seq<char>, id: i64, count: i64)
    requires
        starts_with(trim(header), "!"@),
        trim(entry).len() > 0,
        !starts_with(trim(entry), "!"@),
        !starts_with(trim(entry), "#"@),
        restriction_entry(trim(entry)) == Some((id, count)),
    ensures
        ({
            let f = finished(lists_state(seq![header, entry]));
            if contains(trim(header).drop_first(), "TCG"@) {
                f.tcg == Some(Map::<i64, i64>::empty().insert(id, count)) && f.ocg is None
            } else {
                f.ocg == Some(Map::<i64, i64>::empty().insert(id, count)) && f.tcg is None
            }
        }),
{
    reveal_strlit("!");
    let ls = seq![header, entry];
    assert(ls.drop_last() =~= seq![header]);
    assert(seq![header].drop_last() =~= Seq::<Seq<char>>::empty());
    assert(trim(header).len() > 0);
    let s0 = lists_state(Seq::<Seq<char>>::empty());
    let s1 = lists_state(seq![header]);
    assert(s1 == list_step(s0, header));
    assert(s1.entries == Map::<i64, i64>::empty());
    assert(s1.ocg is None && s1.tcg is None && !s1.stopped);
    let tcg = contains(trim(header).drop_first(), "TCG"@);
    assert(s1.region == Some(if tcg { Region::Tcg } else { Region::Ocg }));
    let s2 = lists_state(ls);
    assert(s2 == list_step(s1, entry));
    assert(s2.entries == Map::<i64, i64>::empty().insert(id, count));
    assert(s2.region == s1.region && s2.ocg is None && s2.tcg is None);
}
} // verus!

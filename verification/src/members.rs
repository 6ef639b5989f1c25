//! Members of aggregate types: the rows of the member editor, and applying
//! them to the member list so that each row keeps what its member had
//! beyond the edited fields.
use vstd::prelude::*;
use std::collections::VecDeque;
use crate::algorithm::opt_text;
use crate::alias::{Alias, aliases_view};
use crate::ancillary::{AncillaryData, entries_view};
use crate::fields::{optional, optional_text};
use crate::text::{chars_of, is_trimmed, string_of, trim, trim_chars, lemma_trim_trimmed};

verus! {

/// One row of the member editor, as typed, with the position of the
/// member it was loaded from.
#[derive(Clone, Debug)]
pub struct MemberRowData {
    pub name: String,
    pub type_ref: String,
    pub initial_value: String,
    pub description: String,
    pub source_index: Option<usize>,
}

/// The value of a row.
pub struct MemberRowView {
    pub name: Seq<char>,
    pub type_ref: Seq<char>,
    pub initial_value: Seq<char>,
    pub description: Seq<char>,
    pub source_index: Option<usize>,
}

impl View for MemberRowData {
    type V = MemberRowView;

    open spec fn view(&self) -> MemberRowView {
        MemberRowView {
            name: self.name@,
            type_ref: self.type_ref@,
            initial_value: self.initial_value@,
            description: self.description@,
            source_index: self.source_index,
        }
    }
}

/// The values of a list of rows.
pub open spec fn rows_view(v: Seq<MemberRowData>) -> Seq<MemberRowView> {
    v.map_values(|r: MemberRowData| r@)
}

/// An empty row, not loaded from any member.
pub open spec fn empty_row() -> MemberRowView {
    MemberRowView {
        name: Seq::empty(),
        type_ref: Seq::empty(),
        initial_value: Seq::empty(),
        description: Seq::empty(),
        source_index: None,
    }
}

impl MemberRowData {
    /// An empty row, not loaded from any member.
    pub fn default_row() -> (r: MemberRowData)
        ensures
            r@ == empty_row(),
    {
        MemberRowData {
            name: String::new(),
            type_ref: String::new(),
            initial_value: String::new(),
            description: String::new(),
            source_index: None,
        }
    }
}

/// A member of an aggregate type.
#[derive(Debug)]
pub struct Member {
    pub short_description: Option<String>,
    pub name: String,
    pub type_ref: String,
    pub initial_value: Option<String>,
    pub long_description: Option<String>,
    pub alias_set: Option<Vec<Alias<String>>>,
    pub ancillary_data_set: Option<Vec<AncillaryData<String>>>,
}

/// The value of a member.
pub struct MemberView {
    pub short_description: Option<Seq<char>>,
    pub name: Seq<char>,
    pub type_ref: Seq<char>,
    pub initial_value: Option<Seq<char>>,
    pub long_description: Option<Seq<char>>,
    pub alias_set: Option<Seq<Alias<Seq<char>>>>,
    pub ancillary_data_set: Option<Seq<AncillaryData<Seq<char>>>>,
}

impl View for Member {
    type V = MemberView;

    open spec fn view(&self) -> MemberView {
        MemberView {
            short_description: opt_text(self.short_description),
            name: self.name@,
            type_ref: self.type_ref@,
            initial_value: opt_text(self.initial_value),
            long_description: opt_text(self.long_description),
            alias_set: match self.alias_set {
                Some(v) => Some(aliases_view(v@)),
                None => None,
            },
            ancillary_data_set: match self.ancillary_data_set {
                Some(v) => Some(entries_view(v@)),
                None => None,
            },
        }
    }
}

/// The values of a list of members.
pub open spec fn members_view(v: Seq<Member>) -> Seq<MemberView> {
    v.map_values(|m: Member| m@)
}

/// The values of a list of members, some already taken.
pub open spec fn slots_view(v: Seq<Option<Member>>) -> Seq<Option<MemberView>> {
    v.map_values(
        |o: Option<Member>|
            match o {
                Some(m) => Some(m@),
                None => None,
            },
    )
}

/// A member with nothing set.
pub open spec fn blank_member() -> MemberView {
    MemberView {
        short_description: None,
        name: Seq::empty(),
        type_ref: Seq::empty(),
        initial_value: None,
        long_description: None,
        alias_set: None,
        ancillary_data_set: None,
    }
}

/// A member with nothing set.
pub fn default_member() -> (r: Member)
    ensures
        r@ == blank_member(),
{
    Member {
        short_description: None,
        name: String::new(),
        type_ref: String::new(),
        initial_value: None,
        long_description: None,
        alias_set: None,
        ancillary_data_set: None,
    }
}

/// The member a row makes of `base`: the row's trimmed name and type, its
/// initial value and description when not blank; the rest from `base`.
pub open spec fn edited(base: MemberView, row: MemberRowView) -> MemberView {
    MemberView {
        short_description: optional_text(row.description),
        name: trim(row.name),
        type_ref: trim(row.type_ref),
        initial_value: optional_text(row.initial_value),
        long_description: base.long_description,
        alias_set: base.alias_set,
        ancillary_data_set: base.ancillary_data_set,
    }
}

/// Whether a row gives a member: neither its name nor its type is blank.
pub open spec fn row_counts(row: MemberRowView) -> bool {
    trim(row.name).len() > 0 && trim(row.type_ref).len() > 0
}

/// The member a row was loaded from, when it is still there to take.
pub open spec fn source_of(existing: Seq<Option<MemberView>>, row: MemberRowView) -> Option<int> {
    match row.source_index {
        Some(i) => if i < existing.len() && existing[i as int] is Some {
            Some(i as int)
        } else {
            None
        },
        None => None,
    }
}

/// The members the rows make, in row order: each row that counts edits the
/// member it was loaded from (taking it, so no member serves twice), or a
/// blank member.
pub open spec fn merged(existing: Seq<Option<MemberView>>, rows: Seq<MemberRowView>) -> Seq<MemberView>
    decreases rows.len(),
{
    if rows.len() == 0 {
        Seq::empty()
    } else {
        let row = rows[0];
        if !row_counts(row) {
            merged(existing, rows.drop_first())
        } else {
            match source_of(existing, row) {
                Some(i) => seq![edited(existing[i]->Some_0, row)] + merged(
                    existing.update(i, None),
                    rows.drop_first(),
                ),
                None => seq![edited(blank_member(), row)] + merged(existing, rows.drop_first()),
            }
        }
    }
}

/// The member list after applying the rows; a blank member when no row
/// counts.
pub open spec fn applied_members(existing: Seq<MemberView>, rows: Seq<MemberRowView>) -> Seq<MemberView> {
    let m = merged(existing.map_values(|x: MemberView| Some(x)), rows);
    if m.len() == 0 {
        seq![blank_member()]
    } else {
        m
    }
}

/// The row the editor shows for the member at `index`.
pub open spec fn row_of(m: MemberView, index: int) -> MemberRowView {
    MemberRowView {
        name: m.name,
        type_ref: m.type_ref,
        initial_value: match m.initial_value {
            Some(v) => v,
            None => Seq::empty(),
        },
        description: match m.short_description {
            Some(d) => d,
            None => Seq::empty(),
        },
        source_index: Some(index as usize),
    }
}

/// The rows the editor shows for a member list, each remembering its
/// member.
pub open spec fn rows_of(members: Seq<MemberView>) -> Seq<MemberRowView> {
    Seq::new(members.len(), |i: int| row_of(members[i], i))
}

/// The rows the editor shows for a member list (see [`rows_of`]).
pub fn rows_from_members(members: &Vec<Member>) -> (r: Vec<MemberRowData>)
    requires
        members@.len() <= usize::MAX,
    ensures
        rows_view(r@) == rows_of(members_view(members@)),
{
    let mut out: Vec<MemberRowData> = Vec::new();
    let mut i: usize = 0;
    while i < members.len()
        invariant
            i <= members@.len(),
            out@.len() == i,
            forall|k: int| 0 <= k < i ==> #[trigger] out@[k]@ == row_of(members@[k]@, k),
        decreases members.len() - i,
    {
        let m = &members[i];
        let row = MemberRowData {
            name: m.name.clone(),
            type_ref: m.type_ref.clone(),
            initial_value: match &m.initial_value {
                Some(v) => v.clone(),
                None => String::new(),
            },
            description: match &m.short_description {
                Some(d) => d.clone(),
                None => String::new(),
            },
            source_index: Some(i),
        };
        assert(row@ == row_of(m@, i as int));
        out.push(row);
        i = i + 1;
    }
    assert(rows_view(out@) =~= rows_of(members_view(members@)));
    out
}

/// The rows a form starts with: those of the members, or one empty row.
pub fn rows_for_form(members: &Vec<Member>) -> (r: Vec<MemberRowData>)
    ensures
        rows_view(r@) == (if members@.len() == 0 {
            seq![empty_row()]
        } else {
            rows_of(members_view(members@))
        }),
{
    if members.len() == 0 {
        let r = vec![MemberRowData::default_row()];
        assert(rows_view(r@) =~= seq![empty_row()]);
        r
    } else {
        rows_from_members(members)
    }
}

/// Applies the rows to a member list (see [`applied_members`]).
pub fn apply_rows(rows: &Vec<MemberRowData>, members: &mut Vec<Member>)
    ensures
        members_view(final(members)@) == applied_members(members_view(old(members)@), rows_view(rows@)),
{
    let mut taken: Vec<Member> = Vec::new();
    std::mem::swap(&mut taken, members);
    let ghost start = members_view(taken@);
    // The members as slots that rows can take.
    let mut existing: Vec<Option<Member>> = Vec::new();
    let ghost original = taken@;
    while taken.len() > 0
        invariant
            original.len() == existing@.len() + taken@.len(),
            taken@ == original.skip(existing@.len() as int),
            forall|j: int| 0 <= j < existing@.len() ==> #[trigger] slots_view(existing@)[j] == Some(
                original[j]@,
            ),
        decreases taken.len(),
    {
        let ghost before = existing@;
        let m = taken.remove(0);
        proof {
            assert(m == original[before.len() as int]);
        }
        existing.push(Some(m));
        proof {
            assert(slots_view(existing@) =~= slots_view(before).push(Some(m@)));
            assert(taken@ =~= original.skip(existing@.len() as int));
        }
    }
    proof {
        assert(slots_view(existing@) =~= start.map_values(|x: MemberView| Some(x)));
    }
    let ghost all = rows_view(rows@);
    let ghost first = slots_view(existing@);
    let mut out: Vec<Member> = Vec::new();
    let mut i: usize = 0;
    proof {
        assert(all.skip(0) =~= all);
        assert(members_view(out@) + merged(first, all) =~= merged(first, all));
    }
    while i < rows.len()
        invariant
            i <= rows@.len(),
            all == rows_view(rows@),
            members_view(out@) + merged(slots_view(existing@), all.skip(i as int)) == merged(
                first,
                all,
            ),
        decreases rows.len() - i,
    {
        let row = &rows[i];
        let ghost here = all.skip(i as int);
        let ghost slots = slots_view(existing@);
        proof {
            assert(here[0] == row@);
            assert(here.drop_first() =~= all.skip(i + 1));
        }
        let name = trim_chars(&chars_of(row.name.as_str()));
        let type_ref = trim_chars(&chars_of(row.type_ref.as_str()));
        if name.len() > 0 && type_ref.len() > 0 {
            let mut base = default_member();
            let mut took = false;
            match row.source_index {
                Some(s) => {
                    if s < existing.len() {
                        let slot = existing.remove(s);
                        match slot {
                            Some(m) => {
                                base = m;
                                took = true;
                                existing.insert(s, None);
                                proof {
                                    assert(slots_view(existing@) =~= slots.update(s as int, None));
                                }
                            },
                            None => {
                                existing.insert(s, None);
                                proof {
                                    assert(slots_view(existing@) =~= slots);
                                }
                            },
                        }
                    }
                },
                None => {},
            }
            let member = Member {
                short_description: optional(row.description.as_str()),
                name: string_of(&name),
                type_ref: string_of(&type_ref),
                initial_value: optional(row.initial_value.as_str()),
                long_description: base.long_description,
                alias_set: base.alias_set,
                ancillary_data_set: base.ancillary_data_set,
            };
            let ghost before = out@;
            out.push(member);
            proof {
                assert(members_view(out@) =~= members_view(before).push(member@));
                match source_of(slots, row@) {
                    Some(j) => {
                        assert(took);
                        assert(member@ == edited(slots[j]->Some_0, row@));
                    },
                    None => {
                        assert(member@ == edited(blank_member(), row@));
                    },
                }
                assert(members_view(out@) + merged(slots_view(existing@), all.skip(i + 1))
                    =~= members_view(before) + merged(slots, here));
            }
        } else {
            proof {
                assert(merged(slots, here) == merged(slots, all.skip(i + 1)));
            }
        }
        i = i + 1;
    }
    proof {
        assert(all.skip(rows.len() as int) =~= Seq::<MemberRowView>::empty());
        assert(members_view(out@) + Seq::<MemberView>::empty() =~= members_view(out@));
    }
    if out.len() == 0 {
        out.push(default_member());
        assert(members_view(out@) =~= seq![blank_member()]);
    }
    *members = out;
}

/// Appends an empty row.
pub fn add_row(rows: &mut Vec<MemberRowData>)
    ensures
        rows_view(final(rows)@) == rows_view(old(rows)@).push(empty_row()),
{
    let row = MemberRowData::default_row();
    rows.push(row);
    assert(rows_view(rows@) =~= rows_view(old(rows)@).push(empty_row()));
}

/// Removes a row, unless it is the only one or the index is past the end.
pub fn remove_row(rows: &mut Vec<MemberRowData>, index: usize)
    ensures
        rows_view(final(rows)@) == (if old(rows)@.len() <= 1 || index >= old(rows)@.len() {
            rows_view(old(rows)@)
        } else {
            rows_view(old(rows)@).remove(index as int)
        }),
{
    if rows.len() <= 1 || index >= rows.len() {
        return;
    }
    rows.remove(index);
    assert(rows_view(rows@) =~= rows_view(old(rows)@).remove(index as int));
}

/// Swaps two rows, unless either index is past the end or they are the
/// same.
pub fn move_row(rows: &mut Vec<MemberRowData>, index: usize, target: usize)
    ensures
        rows_view(final(rows)@) == (if index >= old(rows)@.len() || target >= old(rows)@.len()
            || index == target {
            rows_view(old(rows)@)
        } else {
            rows_view(old(rows)@).update(index as int, old(rows)@[target as int]@).update(
                target as int,
                old(rows)@[index as int]@,
            )
        }),
{
    if index >= rows.len() || target >= rows.len() || index == target {
        return;
    }
    let ghost before = rows@;
    let (lo, hi) = if index < target {
        (index, target)
    } else {
        (target, index)
    };
    let upper = rows.remove(hi);
    let lower = rows.remove(lo);
    rows.insert(lo, upper);
    rows.insert(hi, lower);
    proof {
        assert(rows@ =~= before.update(lo as int, before[hi as int]).update(hi as int, before[lo as int]));
        assert(rows_view(rows@) =~= rows_view(before).update(index as int, before[target as int]@).update(
            target as int,
            before[index as int]@,
        ));
    }
}

/// Marks the editor of a row as the most recently used.
pub fn touch(order: &mut VecDeque<usize>, index: usize)
    ensures
        final(order)@ == crate::recent::touched(old(order)@, index),
{
    crate::recent::touch(order, index)
}

/// Whether a member is shown as a row and applied back unchanged: its name
/// and type non-empty and trimmed, a given initial value or description
/// non-empty and trimmed.
pub open spec fn clean_member(m: MemberView) -> bool {
    &&& m.name.len() > 0 && is_trimmed(m.name)
    &&& m.type_ref.len() > 0 && is_trimmed(m.type_ref)
    &&& match m.initial_value {
        Some(v) => v.len() > 0 && is_trimmed(v),
        None => true,
    }
    &&& match m.short_description {
        Some(d) => d.len() > 0 && is_trimmed(d),
        None => true,
    }
}

proof fn lemma_merged_rows(ms: Seq<MemberView>, existing: Seq<Option<MemberView>>, k: int)
    requires
        0 <= k <= ms.len(),
        ms.len() <= usize::MAX,
        existing.len() == ms.len(),
        forall|j: int| k <= j < ms.len() ==> #[trigger] existing[j] == Some(ms[j]),
        forall|j: int| 0 <= j < ms.len() ==> clean_member(#[trigger] ms[j]),
    ensures
        merged(existing, rows_of(ms).skip(k)) == ms.skip(k),
    decreases ms.len() - k,
{
    let rows = rows_of(ms).skip(k);
    if k == ms.len() {
        assert(rows =~= Seq::<MemberRowView>::empty());
        assert(ms.skip(k) =~= Seq::<MemberView>::empty());
    } else {
        let m = ms[k];
        let row = rows[0];
        assert(row == row_of(m, k));
        assert(clean_member(m));
        lemma_trim_trimmed(m.name);
        lemma_trim_trimmed(m.type_ref);
        crate::fields::lemma_optional_back(m.initial_value);
        crate::fields::lemma_optional_back(m.short_description);
        assert(row_counts(row));
        assert(k as usize as int == k);
        assert(source_of(existing, row) == Some(k));
        let e2 = existing.update(k, None);
        assert forall|j: int| k + 1 <= j < ms.len() implies #[trigger] e2[j] == Some(ms[j]) by {
            assert(e2[j] == existing[j]);
        }
        lemma_merged_rows(ms, e2, k + 1);
        assert(rows.drop_first() =~= rows_of(ms).skip(k + 1));
        assert(edited(m, row) == m);
        assert(ms.skip(k) =~= seq![m] + ms.skip(k + 1));
    }
}

/// Showing a non-empty member list as rows and applying the rows back
/// leaves the list unchanged, what the rows do not show included, when
/// each member is clean (see [`clean_member`]).
pub proof fn lemma_members_round_trip(ms: Seq<MemberView>)
    requires
        ms.len() > 0,
        ms.len() <= usize::MAX,
        forall|j: int| 0 <= j < ms.len() ==> clean_member(#[trigger] ms[j]),
    ensures
        applied_members(ms, rows_of(ms)) == ms,
{
    let existing = ms.map_values(|x: MemberView| Some(x));
    lemma_merged_rows(ms, existing, 0);
    assert(rows_of(ms).skip(0) =~= rows_of(ms));
    assert(ms.skip(0) =~= ms);
}

} // verus!

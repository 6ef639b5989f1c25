//! Enumeration lists: the rows of the enumeration editor, the value a new
//! row gets, and converting between rows and the list of enumerations.
use vstd::prelude::*;
use std::collections::VecDeque;
use crate::number::{i64_text, int_text, lemma_i64_round_trip, parse_i64, parse_i64_spec};
use crate::text::{chars_of, filter_map, is_trimmed, string_of, trim, trim_chars, lemma_trim_trimmed};

verus! {

/// One row of the enumeration editor, as typed.
#[derive(Clone, Debug)]
pub struct EnumerationRowData {
    pub value: String,
    pub max_value: String,
    pub label: String,
    pub description: String,
}

/// The value of a row.
pub struct RowView {
    pub value: Seq<char>,
    pub max_value: Seq<char>,
    pub label: Seq<char>,
    pub description: Seq<char>,
}

impl View for EnumerationRowData {
    type V = RowView;

    open spec fn view(&self) -> RowView {
        RowView {
            value: self.value@,
            max_value: self.max_value@,
            label: self.label@,
            description: self.description@,
        }
    }
}

/// The values of a list of rows.
pub open spec fn rows_view(v: Seq<EnumerationRowData>) -> Seq<RowView> {
    v.map_values(|r: EnumerationRowData| r@)
}

/// The label of a new row.
pub open spec fn value_label() -> Seq<char> {
    seq!['V', 'A', 'L', 'U', 'E']
}

fn value_label_string() -> (r: String)
    ensures
        r@ == value_label(),
{
    let v = vec!['V', 'A', 'L', 'U', 'E'];
    assert(v@ =~= value_label());
    string_of(&v)
}

/// The row a new list starts with: value `0`, label `VALUE`.
pub open spec fn default_row_view() -> RowView {
    RowView {
        value: seq!['0'],
        max_value: Seq::empty(),
        label: value_label(),
        description: Seq::empty(),
    }
}

impl EnumerationRowData {
    /// The row a new list starts with: value `0`, label `VALUE`.
    pub fn default_row() -> (r: EnumerationRowData)
        ensures
            r@ == default_row_view(),
    {
        let zero = vec!['0'];
        assert(zero@ =~= seq!['0']);
        EnumerationRowData {
            value: string_of(&zero),
            max_value: String::new(),
            label: value_label_string(),
            description: String::new(),
        }
    }
}

/// The number a row takes up to: its maximum when that reads as a number,
/// else its value when that does.
pub open spec fn row_key(r: RowView) -> Option<i64> {
    match parse_i64_spec(trim(r.max_value)) {
        Some(m) => Some(m),
        None => parse_i64_spec(trim(r.value)),
    }
}

/// The largest number the rows take up to, if any row reads.
pub open spec fn largest_key(rows: Seq<RowView>) -> Option<i64>
    decreases rows.len(),
{
    if rows.len() == 0 {
        None
    } else {
        match (largest_key(rows.drop_last()), row_key(rows.last())) {
            (Some(a), Some(b)) => Some(if a >= b { a } else { b }),
            (Some(a), None) => Some(a),
            (None, b) => b,
        }
    }
}

/// The value a new row gets: one past the largest number the rows take up
/// to (0 when none reads), kept at `i64::MAX`.
pub open spec fn next_value_of(rows: Seq<RowView>) -> i64 {
    let m: i64 = match largest_key(rows) {
        Some(m) => m,
        None => -1i64,
    };
    if m == i64::MAX {
        m
    } else {
        (m + 1) as i64
    }
}

/// The number a row takes up to (see [`row_key`]).
fn row_key_exec(r: &EnumerationRowData) -> (k: Option<i64>)
    ensures
        k == row_key(r@),
{
    match parse_i64(&trim_chars(&chars_of(r.max_value.as_str()))) {
        Some(m) => Some(m),
        None => parse_i64(&trim_chars(&chars_of(r.value.as_str()))),
    }
}

/// The value a new row gets (see [`next_value_of`]).
pub fn next_value(rows: &[EnumerationRowData]) -> (r: i64)
    ensures
        r == next_value_of(rows_view(rows@)),
{
    let ghost all = rows_view(rows@);
    let mut best: Option<i64> = None;
    let mut i: usize = 0;
    while i < rows.len()
        invariant
            i <= rows@.len(),
            all == rows_view(rows@),
            best == largest_key(all.take(i as int)),
        decreases rows.len() - i,
    {
        let k = row_key_exec(&rows[i]);
        proof {
            assert(all.take(i + 1).drop_last() =~= all.take(i as int));
            assert(all.take(i + 1).last() == rows@[i as int]@);
        }
        best = match (best, k) {
            (Some(a), Some(b)) => Some(if a >= b { a } else { b }),
            (Some(a), None) => Some(a),
            (None, b) => b,
        };
        i = i + 1;
    }
    assert(all.take(rows.len() as int) =~= all);
    let m = match best {
        Some(m) => m,
        None => -1,
    };
    if m == i64::MAX {
        m
    } else {
        m + 1
    }
}

proof fn lemma_largest_key(rows: Seq<RowView>)
    ensures
        forall|i: int|
            0 <= i < rows.len() && #[trigger] row_key(rows[i]) is Some ==> largest_key(rows) is Some
                && row_key(rows[i])->Some_0 <= largest_key(rows)->Some_0,
    decreases rows.len(),
{
    if rows.len() > 0 {
        lemma_largest_key(rows.drop_last());
        assert forall|i: int|
            0 <= i < rows.len() && #[trigger] row_key(rows[i]) is Some implies largest_key(
            rows,
        ) is Some && row_key(rows[i])->Some_0 <= largest_key(rows)->Some_0 by {
            if i < rows.len() - 1 {
                assert(rows.drop_last()[i] == rows[i]);
            }
        }
    }
}

/// A new row's value is past every number the rows take up to, unless
/// that number is already `i64::MAX`.
pub proof fn lemma_next_value_is_new(rows: Seq<RowView>, i: int)
    requires
        0 <= i < rows.len(),
        row_key(rows[i]) matches Some(k) && k < i64::MAX,
    ensures
        row_key(rows[i])->Some_0 < next_value_of(rows),
{
    lemma_largest_key(rows);
}

/// One enumeration of the list: a value, an optional end of its range, a
/// label and an optional description.
#[derive(Debug)]
pub struct ValueEnumeration {
    pub value: i64,
    pub max_value: Option<i64>,
    pub label: String,
    pub short_description: Option<String>,
}

/// The value of an enumeration.
pub struct EnumerationView {
    pub value: i64,
    pub max_value: Option<i64>,
    pub label: Seq<char>,
    pub short_description: Option<Seq<char>>,
}

impl View for ValueEnumeration {
    type V = EnumerationView;

    open spec fn view(&self) -> EnumerationView {
        EnumerationView {
            value: self.value,
            max_value: self.max_value,
            label: self.label@,
            short_description: match self.short_description {
                Some(d) => Some(d@),
                None => None,
            },
        }
    }
}

/// The values of a list of enumerations.
pub open spec fn enumerations_view(v: Seq<ValueEnumeration>) -> Seq<EnumerationView> {
    v.map_values(|e: ValueEnumeration| e@)
}

/// The row the editor shows for an enumeration.
pub open spec fn row_of(e: EnumerationView) -> RowView {
    RowView {
        value: int_text(e.value as int),
        max_value: match e.max_value {
            Some(m) => int_text(m as int),
            None => Seq::empty(),
        },
        label: e.label,
        description: match e.short_description {
            Some(d) => d,
            None => Seq::empty(),
        },
    }
}

/// The rows the editor shows for a list; one new row when it is empty.
pub open spec fn rows_of(list: Seq<EnumerationView>) -> Seq<RowView> {
    if list.len() == 0 {
        seq![default_row_view()]
    } else {
        list.map_values(|e: EnumerationView| row_of(e))
    }
}

/// The enumeration a row gives: its trimmed value must read as a number
/// and its trimmed label must not be empty; the maximum is kept when it
/// reads, the trimmed description when it is not blank.
pub open spec fn enumeration_of_row(r: RowView) -> Option<EnumerationView> {
    match parse_i64_spec(trim(r.value)) {
        Some(v) => if trim(r.label).len() == 0 {
            None
        } else {
            Some(
                EnumerationView {
                    value: v,
                    max_value: parse_i64_spec(trim(r.max_value)),
                    label: trim(r.label),
                    short_description: if trim(r.description).len() == 0 {
                        None
                    } else {
                        Some(trim(r.description))
                    },
                },
            )
        },
        None => None,
    }
}

/// [`enumeration_of_row`] as a function value.
pub open spec fn row_reader() -> spec_fn(RowView) -> Option<EnumerationView> {
    |r: RowView| enumeration_of_row(r)
}

/// The enumeration a list gets when no row gives one: value 0, `VALUE`.
pub open spec fn default_enumeration() -> EnumerationView {
    EnumerationView { value: 0, max_value: None, label: value_label(), short_description: None }
}

/// The list the editor's rows give: the rows that read, or the default
/// enumeration when none does.
pub open spec fn list_of_rows(rows: Seq<RowView>) -> Seq<EnumerationView> {
    let l = filter_map(rows, row_reader());
    if l.len() == 0 {
        seq![default_enumeration()]
    } else {
        l
    }
}

/// A row for each enumeration of a list (see [`row_of`]).
pub open spec fn entry_rows(list: Seq<EnumerationView>) -> Seq<RowView> {
    list.map_values(|e: EnumerationView| row_of(e))
}

/// A row for each enumeration of a list (see [`entry_rows`]).
pub fn enumeration_rows(list: &Vec<ValueEnumeration>) -> (r: Vec<EnumerationRowData>)
    ensures
        rows_view(r@) == entry_rows(enumerations_view(list@)),
{
    let mut out: Vec<EnumerationRowData> = Vec::new();
    let mut i: usize = 0;
    while i < list.len()
        invariant
            i <= list@.len(),
            out@.len() == i,
            forall|k: int| 0 <= k < i ==> #[trigger] out@[k]@ == row_of(list@[k]@),
        decreases list.len() - i,
    {
        let e = &list[i];
        let max_value = match e.max_value {
            Some(m) => string_of(&i64_text(m)),
            None => String::new(),
        };
        let description = match &e.short_description {
            Some(d) => d.clone(),
            None => String::new(),
        };
        let row = EnumerationRowData {
            value: string_of(&i64_text(e.value)),
            max_value,
            label: e.label.clone(),
            description,
        };
        assert(row@ == row_of(e@));
        out.push(row);
        i = i + 1;
    }
    assert(rows_view(out@) =~= enumerations_view(list@).map_values(|e: EnumerationView| row_of(e)));
    out
}

/// The rows the editor shows for a list (see [`rows_of`]).
pub fn rows_from_list(list: &Vec<ValueEnumeration>) -> (r: Vec<EnumerationRowData>)
    ensures
        rows_view(r@) == rows_of(enumerations_view(list@)),
{
    if list.len() == 0 {
        let r = vec![EnumerationRowData::default_row()];
        assert(rows_view(r@) =~= seq![default_row_view()]);
        return r;
    }
    enumeration_rows(list)
}

/// The value of an optional enumeration.
pub open spec fn opt_enumeration_view(o: Option<ValueEnumeration>) -> Option<EnumerationView> {
    match o {
        Some(e) => Some(e@),
        None => None,
    }
}

/// The enumeration a row gives (see [`enumeration_of_row`]).
fn enumeration_from_row(r: &EnumerationRowData) -> (e: Option<ValueEnumeration>)
    ensures
        opt_enumeration_view(e) == enumeration_of_row(r@),
{
    match parse_i64(&trim_chars(&chars_of(r.value.as_str()))) {
        Some(v) => {
            let label = trim_chars(&chars_of(r.label.as_str()));
            if label.len() == 0 {
                return None;
            }
            let description = trim_chars(&chars_of(r.description.as_str()));
            let short_description = if description.len() == 0 {
                None
            } else {
                Some(string_of(&description))
            };
            Some(
                ValueEnumeration {
                    value: v,
                    max_value: parse_i64(&trim_chars(&chars_of(r.max_value.as_str()))),
                    label: string_of(&label),
                    short_description,
                },
            )
        },
        None => None,
    }
}

/// The list the editor's rows give (see [`list_of_rows`]).
pub fn list_from_rows(rows: &Vec<EnumerationRowData>) -> (r: Vec<ValueEnumeration>)
    ensures
        enumerations_view(r@) == list_of_rows(rows_view(rows@)),
{
    let ghost all = rows_view(rows@);
    let mut out: Vec<ValueEnumeration> = Vec::new();
    let mut i: usize = 0;
    while i < rows.len()
        invariant
            i <= rows@.len(),
            all == rows_view(rows@),
            enumerations_view(out@) == filter_map(all.take(i as int), row_reader()),
        decreases rows.len() - i,
    {
        let ghost before = out@;
        let e = enumeration_from_row(&rows[i]);
        proof {
            assert(all.take(i + 1).drop_last() =~= all.take(i as int));
            assert(all.take(i + 1).last() == rows@[i as int]@);
        }
        match e {
            Some(e) => {
                out.push(e);
                assert(enumerations_view(out@) =~= enumerations_view(before).push(out@.last()@));
            },
            None => {},
        }
        i = i + 1;
    }
    assert(all.take(rows.len() as int) =~= all);
    if out.len() == 0 {
        out.push(
            ValueEnumeration {
                value: 0,
                max_value: None,
                label: value_label_string(),
                short_description: None,
            },
        );
        assert(enumerations_view(out@) =~= seq![default_enumeration()]);
    }
    out
}

/// Appends a row whose value is the next one (see [`next_value_of`]),
/// labelled `VALUE`.
pub fn add_row(rows: &mut Vec<EnumerationRowData>)
    ensures
        rows_view(final(rows)@) == rows_view(old(rows)@).push(
            RowView {
                value: int_text(next_value_of(rows_view(old(rows)@)) as int),
                max_value: Seq::empty(),
                label: value_label(),
                description: Seq::empty(),
            },
        ),
{
    let v = next_value(rows.as_slice());
    let row = EnumerationRowData {
        value: string_of(&i64_text(v)),
        max_value: String::new(),
        label: value_label_string(),
        description: String::new(),
    };
    rows.push(row);
    assert(rows_view(rows@) =~= rows_view(old(rows)@).push(row@));
}

/// Removes a row, unless it is the only one or the index is past the end.
pub fn remove_row(rows: &mut Vec<EnumerationRowData>, index: usize)
    ensures
        rows_view(final(rows)@) == (if old(rows)@.len() <= 1 || index >= old(rows)@.len() {
            rows_view(old(rows)@)
        } else {
            rows_view(old(rows)@).remove(index as int)
        }),
{
    if rows.len() <= 1 || index >= rows.len() {
        return;
    }
    rows.remove(index);
    assert(rows_view(rows@) =~= rows_view(old(rows)@).remove(index as int));
}

/// Swaps two rows, unless either index is past the end or they are the
/// same.
pub fn move_row(rows: &mut Vec<EnumerationRowData>, index: usize, target: usize)
    ensures
        rows_view(final(rows)@) == (if index >= old(rows)@.len() || target >= old(rows)@.len()
            || index == target {
            rows_view(old(rows)@)
        } else {
            rows_view(old(rows)@).update(index as int, old(rows)@[target as int]@).update(
                target as int,
                old(rows)@[index as int]@,
            )
        }),
{
    if index >= rows.len() || target >= rows.len() || index == target {
        return;
    }
    let ghost before = rows@;
    let (lo, hi) = if index < target {
        (index, target)
    } else {
        (target, index)
    };
    let upper = rows.remove(hi);
    let lower = rows.remove(lo);
    rows.insert(lo, upper);
    rows.insert(hi, lower);
    proof {
        assert(rows@ =~= before.update(lo as int, before[hi as int]).update(hi as int, before[lo as int]));
        assert(rows_view(rows@) =~= rows_view(before).update(index as int, before[target as int]@).update(
            target as int,
            before[index as int]@,
        ));
    }
}

/// Marks the editor of a row as the most recently used.
pub fn touch_cache(cache_order: &mut VecDeque<usize>, index: usize)
    ensures
        final(cache_order)@ == crate::recent::touched(old(cache_order)@, index),
{
    crate::recent::touch(cache_order, index)
}

/// Whether an enumeration is shown as a row and read back unchanged: its
/// label non-empty and trimmed, a given description non-empty and trimmed.
pub open spec fn clean_enumeration(e: EnumerationView) -> bool {
    &&& e.label.len() > 0 && is_trimmed(e.label)
    &&& match e.short_description {
        Some(d) => d.len() > 0 && is_trimmed(d),
        None => true,
    }
}

/// Showing a non-empty list as rows and reading the rows back gives the
/// list unchanged, when each enumeration is clean (see
/// [`clean_enumeration`]).
pub proof fn lemma_list_round_trip(list: Seq<EnumerationView>)
    requires
        list.len() > 0,
        forall|i: int| 0 <= i < list.len() ==> clean_enumeration(#[trigger] list[i]),
    ensures
        list_of_rows(rows_of(list)) == list,
{
    let rows = rows_of(list);
    assert forall|i: int| 0 <= i < rows.len() implies row_reader()(#[trigger] rows[i]) == Some(
        list[i],
    ) by {
        let e = list[i];
        assert(rows[i] == row_of(e));
        lemma_i64_round_trip(e.value);
        lemma_trim_trimmed(int_text(e.value as int));
        lemma_trim_trimmed(e.label);
        match e.max_value {
            Some(m) => {
                lemma_i64_round_trip(m);
                lemma_trim_trimmed(int_text(m as int));
            },
            None => {
                assert(trim(Seq::<char>::empty()) =~= Seq::<char>::empty());
            },
        }
        match e.short_description {
            Some(d) => lemma_trim_trimmed(d),
            None => {
                assert(trim(Seq::<char>::empty()) =~= Seq::<char>::empty());
            },
        }
    }
    crate::text::lemma_filter_map_all(rows, row_reader(), list);
}

proof fn lemma_rows_give_labelled(rows: Seq<RowView>)
    ensures
        forall|i: int|
            0 <= i < filter_map(rows, row_reader()).len() ==> (#[trigger] filter_map(
                rows,
                row_reader(),
            )[i]).label.len() > 0,
    decreases rows.len(),
{
    if rows.len() > 0 {
        lemma_rows_give_labelled(rows.drop_last());
    }
}

/// Every enumeration of the list the editor's rows give has a non-empty
/// label, and a row whose trimmed label is blank gives none: such
/// a row is skipped whatever its value.
pub proof fn lemma_list_labels(rows: Seq<RowView>)
    ensures
        list_of_rows(rows).len() > 0,
        forall|i: int|
            0 <= i < list_of_rows(rows).len() ==> (#[trigger] list_of_rows(rows)[i]).label.len() > 0,
        forall|r: RowView| trim(r.label).len() == 0 ==> enumeration_of_row(r) is None,
        forall|r: RowView| trim(r.label).len() == 0 ==> list_of_rows(rows.push(r)) == list_of_rows(rows),
{
    lemma_rows_give_labelled(rows);
    assert forall|r: RowView| trim(r.label).len() == 0 implies list_of_rows(rows.push(r))
        == list_of_rows(rows) by {
        assert(rows.push(r).drop_last() =~= rows);
    }
}

} // verus!

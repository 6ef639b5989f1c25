//! The dimensions of an array parameter type: each index is a number or
//! a value given by a parameter or a lookup list, as the dimension list
//! form shows and applies them.
use vstd::prelude::*;
use crate::encoding::{BinarySizeKind, IntegerValue, IntegerValueView};
use crate::number::{int_text, parse_u64, parse_u64_spec, u64_text};
use crate::text::{chars_of, string_of, trim, trim_chars};

verus! {

/// A dimension of an array: its first and last index.
#[derive(Debug)]
pub struct Dimension {
    pub starting_index: IntegerValue,
    pub ending_index: IntegerValue,
}

/// The value of a [`Dimension`].
pub struct DimensionView {
    pub starting_index: IntegerValueView,
    pub ending_index: IntegerValueView,
}

impl View for Dimension {
    type V = DimensionView;

    open spec fn view(&self) -> DimensionView {
        DimensionView { starting_index: self.starting_index@, ending_index: self.ending_index@ }
    }
}

/// The values of a list of dimensions.
pub open spec fn dimensions_view(v: Seq<Dimension>) -> Seq<DimensionView> {
    v.map_values(|d: Dimension| d@)
}

/// How an index is given, and the text of a fixed one: a number shows as
/// its text, any other index (and a new one) as `0`.
pub open spec fn index_editor_of(v: Option<IntegerValueView>) -> (BinarySizeKind, Seq<char>) {
    match v {
        Some(IntegerValueView::DynamicValue(_)) => (BinarySizeKind::Dynamic, seq!['0']),
        Some(IntegerValueView::DiscreteLookupList(_)) => (BinarySizeKind::DiscreteLookup, seq!['0']),
        Some(IntegerValueView::FixedValue(n)) => (BinarySizeKind::Fixed, int_text(n as int)),
        None => (BinarySizeKind::Fixed, seq!['0']),
    }
}

fn zero() -> (r: String)
    ensures
        r@ == seq!['0'],
{
    let v = vec!['0'];
    assert(v@ =~= seq!['0']);
    string_of(&v)
}

/// How an index is given, and the text of a fixed one (see
/// [`index_editor_of`]).
pub fn index_editor(v: Option<&IntegerValue>) -> (r: (BinarySizeKind, String))
    ensures
        (r.0, r.1@) == index_editor_of(
            match v {
                Some(v) => Some(v@),
                None => None,
            },
        ),
{
    match v {
        Some(IntegerValue::DynamicValue(_)) => (BinarySizeKind::Dynamic, zero()),
        Some(IntegerValue::DiscreteLookupList(_)) => (BinarySizeKind::DiscreteLookup, zero()),
        Some(IntegerValue::FixedValue(n)) => (BinarySizeKind::Fixed, string_of(&u64_text(*n))),
        None => (BinarySizeKind::Fixed, zero()),
    }
}

/// The index an editor gives: a number read from the trimmed text (0
/// when it does not read as one), or the value of its dynamic or lookup
/// sub-form.
pub open spec fn index_of_editor(
    kind: BinarySizeKind,
    fixed: Seq<char>,
    dynamic: crate::dynamic::DynamicValueView,
    lookup: crate::lookup::DiscreteLookupListView,
) -> IntegerValueView {
    match kind {
        BinarySizeKind::Fixed => IntegerValueView::FixedValue(
            match parse_u64_spec(trim(fixed)) {
                Some(n) => n,
                None => 0,
            },
        ),
        BinarySizeKind::Dynamic => IntegerValueView::DynamicValue(dynamic),
        BinarySizeKind::DiscreteLookup => IntegerValueView::DiscreteLookupList(lookup),
    }
}

/// The index an editor gives (see [`index_of_editor`]).
pub fn index_value(
    kind: BinarySizeKind,
    fixed: &String,
    dynamic: crate::dynamic::DynamicValue,
    lookup: crate::lookup::DiscreteLookupList,
) -> (r: IntegerValue)
    ensures
        r@ == index_of_editor(kind, fixed@, dynamic@, lookup@),
{
    match kind {
        BinarySizeKind::Fixed => IntegerValue::FixedValue(
            match parse_u64(&trim_chars(&chars_of(fixed.as_str()))) {
                Some(n) => n,
                None => 0,
            },
        ),
        BinarySizeKind::Dynamic => IntegerValue::DynamicValue(dynamic),
        BinarySizeKind::DiscreteLookup => IntegerValue::DiscreteLookupList(lookup),
    }
}

/// An editor's index gives back the index it shows: a fixed index by its
/// text, a dynamic or lookup index when its sub-form holds the index's own
/// value.
pub proof fn lemma_index_round_trip(
    v: IntegerValueView,
    dynamic: crate::dynamic::DynamicValueView,
    lookup: crate::lookup::DiscreteLookupListView,
)
    requires
        v matches IntegerValueView::DynamicValue(d) ==> d == dynamic,
        v matches IntegerValueView::DiscreteLookupList(l) ==> l == lookup,
    ensures
        index_of_editor(
            index_editor_of(Some(v)).0,
            index_editor_of(Some(v)).1,
            dynamic,
            lookup,
        ) == v,
{
    if let IntegerValueView::FixedValue(n) = v {
        crate::number::lemma_u64_round_trip(n);
        crate::text::lemma_trim_trimmed(int_text(n as int));
    }
}

/// The dimensions after the form's rows are applied: the rows, unless
/// there are none, in which case the dimensions stay.
pub open spec fn applied_dimensions(old: Seq<DimensionView>, rows: Seq<DimensionView>) -> Seq<
    DimensionView,
> {
    if rows.len() == 0 {
        old
    } else {
        rows
    }
}

/// Applies the form's rows to an array's dimensions (see
/// [`applied_dimensions`]).
pub fn apply_dimensions(rows: Vec<Dimension>, dimensions: &mut Vec<Dimension>)
    ensures
        dimensions_view(final(dimensions)@) == applied_dimensions(
            dimensions_view(old(dimensions)@),
            dimensions_view(rows@),
        ),
{
    if rows.len() > 0 {
        *dimensions = rows;
    }
}

/// The rows of a form reset for a type: one new row for an array, none
/// otherwise.
pub open spec fn reset_rows(array: bool) -> Seq<DimensionView> {
    if array {
        seq![
            DimensionView {
                starting_index: IntegerValueView::FixedValue(0),
                ending_index: IntegerValueView::FixedValue(0),
            },
        ]
    } else {
        Seq::empty()
    }
}

/// The rows of a form reset for a type (see [`reset_rows`]).
pub fn reset(array: bool) -> (r: Vec<Dimension>)
    ensures
        dimensions_view(r@) == reset_rows(array),
{
    let mut r: Vec<Dimension> = Vec::new();
    if array {
        r.push(
            Dimension {
                starting_index: IntegerValue::FixedValue(0),
                ending_index: IntegerValue::FixedValue(0),
            },
        );
    }
    assert(dimensions_view(r@) =~= reset_rows(array));
    r
}

/// Removes a row, unless it is the last one left or the index is past the
/// end: an array keeps at least one dimension.
pub fn remove_row(rows: &mut Vec<Dimension>, index: usize)
    ensures
        dimensions_view(final(rows)@) == if old(rows)@.len() > 1 && index < old(rows)@.len() {
            dimensions_view(old(rows)@).remove(index as int)
        } else {
            dimensions_view(old(rows)@)
        },
{
    if rows.len() > 1 && index < rows.len() {
        let ghost before = dimensions_view(rows@);
        rows.remove(index);
        assert(dimensions_view(rows@) =~= before.remove(index as int));
    }
}

/// What a row shows for an index being edited: the text of a fixed
/// index as it stands, or the kind of the other ones.
pub open spec fn index_summary_of(kind: BinarySizeKind, fixed: Seq<char>) -> Seq<char> {
    match kind {
        BinarySizeKind::Fixed => fixed,
        BinarySizeKind::Dynamic => "Dynamic value"@,
        BinarySizeKind::DiscreteLookup => "Discrete lookup"@,
    }
}

/// What a row shows for an index being edited (see [`index_summary_of`]).
pub fn index_summary(kind: BinarySizeKind, fixed: &String) -> (r: String)
    ensures
        r@ == index_summary_of(kind, fixed@),
{
    match kind {
        BinarySizeKind::Fixed => fixed.clone(),
        BinarySizeKind::Dynamic => "Dynamic value".to_owned(),
        BinarySizeKind::DiscreteLookup => "Discrete lookup".to_owned(),
    }
}

} // verus!

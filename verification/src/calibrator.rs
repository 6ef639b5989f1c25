//! Default calibrators: polynomial, spline and math operation calibrators,
//! the rows and entries the calibrator form edits them as, the formula it
//! previews, and applying the form to the calibrator.
//!
//! Coefficients and calibration points are real numbers; they are held as
//! the decimal text that reads as them (see [`is_float_text`]).
use vstd::prelude::*;
use crate::algorithm::{opt_text, text_or_empty};
use crate::ancillary::{AncillaryData, entries_view as ancillary_view};
use crate::boolean::InstanceRef;
use crate::fields::{clean_optional, optional, optional_text, text_of};
use crate::number::{decimal, int_text, is_float_chars, is_float_text, parse_u64, parse_u64_spec, u64_text};
use crate::rpn::{RpnOperationEntry, entries_view, no_arguments};
use crate::text::{
    append_chars, chars_of, filter_map, first_some, join, join_chars, string_of, trim, trim_chars,
};

verus! {

/// The kind of calibrator the form edits.
#[derive(Clone, Copy, Debug, PartialEq, Eq, Structural)]
pub enum CalibratorKind {
    Polynomial,
    Spline,
    MathOperation,
}

/// One row of the calibrator form: coefficient and exponent of a term, or
/// raw value, calibrated value and order of a spline point.
#[derive(Debug)]
pub struct CalibratorRowData {
    pub first: String,
    pub second: String,
    pub third: String,
}

/// The value of a row.
pub struct RowView {
    pub first: Seq<char>,
    pub second: Seq<char>,
    pub third: Seq<char>,
}

impl View for CalibratorRowData {
    type V = RowView;

    open spec fn view(&self) -> RowView {
        RowView { first: self.first@, second: self.second@, third: self.third@ }
    }
}

/// The values of a list of rows.
pub open spec fn rows_view(v: Seq<CalibratorRowData>) -> Seq<RowView> {
    v.map_values(|r: CalibratorRowData| r@)
}

/// A term of a polynomial: a coefficient (as decimal text) and an
/// exponent.
#[derive(Debug)]
pub struct Term<S> {
    pub coefficient: S,
    pub exponent: u64,
}

impl View for Term<String> {
    type V = Term<Seq<char>>;

    open spec fn view(&self) -> Term<Seq<char>> {
        Term { coefficient: self.coefficient@, exponent: self.exponent }
    }
}

/// A point of a spline: raw and calibrated values (as decimal text) and
/// the order of the curve from it.
#[derive(Debug)]
pub struct SplinePoint<S> {
    pub raw: S,
    pub calibrated: S,
    pub order: u64,
}

impl View for SplinePoint<String> {
    type V = SplinePoint<Seq<char>>;

    open spec fn view(&self) -> SplinePoint<Seq<char>> {
        SplinePoint { raw: self.raw@, calibrated: self.calibrated@, order: self.order }
    }
}

/// The value of an optional ancillary data set.
pub open spec fn opt_ancillary(o: Option<Vec<AncillaryData<String>>>) -> Option<Seq<AncillaryData<Seq<char>>>> {
    match o {
        Some(a) => Some(ancillary_view(a@)),
        None => None,
    }
}

/// A polynomial calibrator.
#[derive(Debug)]
pub struct PolynomialCalibrator {
    pub name: Option<String>,
    pub short_description: Option<String>,
    pub ancillary_data_set: Option<Vec<AncillaryData<String>>>,
    pub term: Vec<Term<String>>,
}

/// The value of a polynomial calibrator.
pub struct PolynomialView {
    pub name: Option<Seq<char>>,
    pub short_description: Option<Seq<char>>,
    pub ancillary_data_set: Option<Seq<AncillaryData<Seq<char>>>>,
    pub term: Seq<Term<Seq<char>>>,
}

impl View for PolynomialCalibrator {
    type V = PolynomialView;

    open spec fn view(&self) -> PolynomialView {
        PolynomialView {
            name: opt_text(self.name),
            short_description: opt_text(self.short_description),
            ancillary_data_set: opt_ancillary(self.ancillary_data_set),
            term: self.term@.map_values(|t: Term<String>| t@),
        }
    }
}

/// A spline calibrator.
#[derive(Debug)]
pub struct SplineCalibrator {
    pub name: Option<String>,
    pub short_description: Option<String>,
    pub order: u64,
    pub extrapolate: bool,
    pub ancillary_data_set: Option<Vec<AncillaryData<String>>>,
    pub spline_point: Vec<SplinePoint<String>>,
}

/// The value of a spline calibrator.
pub struct SplineView {
    pub name: Option<Seq<char>>,
    pub short_description: Option<Seq<char>>,
    pub order: u64,
    pub extrapolate: bool,
    pub ancillary_data_set: Option<Seq<AncillaryData<Seq<char>>>>,
    pub spline_point: Seq<SplinePoint<Seq<char>>>,
}

impl View for SplineCalibrator {
    type V = SplineView;

    open spec fn view(&self) -> SplineView {
        SplineView {
            name: opt_text(self.name),
            short_description: opt_text(self.short_description),
            order: self.order,
            extrapolate: self.extrapolate,
            ancillary_data_set: opt_ancillary(self.ancillary_data_set),
            spline_point: self.spline_point@.map_values(|p: SplinePoint<String>| p@),
        }
    }
}

/// One item of a math operation calibrator.
#[derive(Debug)]
pub enum MathCalibratorContent {
    ValueOperand(String),
    ThisParameterOperand(String),
    Operator(String),
    ParameterInstanceRefOperand(InstanceRef<String>),
    AncillaryDataSet(Vec<AncillaryData<String>>),
}

/// The value of a [`MathCalibratorContent`].
pub enum MathItemView {
    ValueOperand(Seq<char>),
    ThisParameterOperand(Seq<char>),
    Operator(Seq<char>),
    ParameterInstanceRefOperand(InstanceRef<Seq<char>>),
    AncillaryDataSet(Seq<AncillaryData<Seq<char>>>),
}

impl View for MathCalibratorContent {
    type V = MathItemView;

    open spec fn view(&self) -> MathItemView {
        match self {
            MathCalibratorContent::ValueOperand(s) => MathItemView::ValueOperand(s@),
            MathCalibratorContent::ThisParameterOperand(s) => MathItemView::ThisParameterOperand(s@),
            MathCalibratorContent::Operator(s) => MathItemView::Operator(s@),
            MathCalibratorContent::ParameterInstanceRefOperand(r) =>
                MathItemView::ParameterInstanceRefOperand(r@),
            MathCalibratorContent::AncillaryDataSet(a) => MathItemView::AncillaryDataSet(
                ancillary_view(a@),
            ),
        }
    }
}

/// The values of a list of math items.
pub open spec fn items_view(v: Seq<MathCalibratorContent>) -> Seq<MathItemView> {
    v.map_values(|c: MathCalibratorContent| c@)
}

/// A math operation calibrator.
#[derive(Debug)]
pub struct MathOperationCalibrator {
    pub name: Option<String>,
    pub short_description: Option<String>,
    pub content: Vec<MathCalibratorContent>,
}

/// The value of a math operation calibrator.
pub struct MathView {
    pub name: Option<Seq<char>>,
    pub short_description: Option<Seq<char>>,
    pub content: Seq<MathItemView>,
}

impl View for MathOperationCalibrator {
    type V = MathView;

    open spec fn view(&self) -> MathView {
        MathView {
            name: opt_text(self.name),
            short_description: opt_text(self.short_description),
            content: items_view(self.content@),
        }
    }
}

/// One item of a calibrator: an ancillary data set or a calibration
/// algorithm.
#[derive(Debug)]
pub enum CalibratorContent {
    AncillaryDataSet(Vec<AncillaryData<String>>),
    Polynomial(PolynomialCalibrator),
    Spline(SplineCalibrator),
    MathOperation(MathOperationCalibrator),
}

/// The value of a [`CalibratorContent`].
pub enum ContentView {
    AncillaryDataSet(Seq<AncillaryData<Seq<char>>>),
    Polynomial(PolynomialView),
    Spline(SplineView),
    MathOperation(MathView),
}

impl View for CalibratorContent {
    type V = ContentView;

    open spec fn view(&self) -> ContentView {
        match self {
            CalibratorContent::AncillaryDataSet(a) => ContentView::AncillaryDataSet(
                ancillary_view(a@),
            ),
            CalibratorContent::Polynomial(p) => ContentView::Polynomial(p@),
            CalibratorContent::Spline(s) => ContentView::Spline(s@),
            CalibratorContent::MathOperation(m) => ContentView::MathOperation(m@),
        }
    }
}

/// The values of a list of calibrator items.
pub open spec fn contents_view(v: Seq<CalibratorContent>) -> Seq<ContentView> {
    v.map_values(|c: CalibratorContent| c@)
}

/// A calibrator.
#[derive(Debug)]
pub struct Calibrator {
    pub name: Option<String>,
    pub short_description: Option<String>,
    pub content: Vec<CalibratorContent>,
}

/// The value of a calibrator.
pub struct CalibratorView {
    pub name: Option<Seq<char>>,
    pub short_description: Option<Seq<char>>,
    pub content: Seq<ContentView>,
}

impl View for Calibrator {
    type V = CalibratorView;

    open spec fn view(&self) -> CalibratorView {
        CalibratorView {
            name: opt_text(self.name),
            short_description: opt_text(self.short_description),
            content: contents_view(self.content@),
        }
    }
}

// ---------------------------------------------------------------------
// Rows for each kind, and reading a calibrator into the form
// ---------------------------------------------------------------------

/// A row of three texts.
pub open spec fn row3(a: Seq<char>, b: Seq<char>, c: Seq<char>) -> RowView {
    RowView { first: a, second: b, third: c }
}

/// The rows the form starts with for a kind: the term `1·x` for a
/// polynomial, the points (0, 0) and (1, 1) of order 1 for a spline, none
/// for a math operation.
pub open spec fn default_rows_of(kind: CalibratorKind) -> Seq<RowView> {
    match kind {
        CalibratorKind::Polynomial => seq![row3(seq!['1'], seq!['1'], Seq::empty())],
        CalibratorKind::Spline => seq![
            row3(seq!['0'], seq!['0'], seq!['1']),
            row3(seq!['1'], seq!['1'], seq!['1']),
        ],
        CalibratorKind::MathOperation => Seq::empty(),
    }
}

/// The rows the form starts with for a kind (see [`default_rows_of`]).
pub fn default_rows(kind: CalibratorKind) -> (r: Vec<CalibratorRowData>)
    ensures
        rows_view(r@) == default_rows_of(kind),
{
    let one = vec!['1'];
    let zero = vec!['0'];
    assert(one@ =~= seq!['1']);
    assert(zero@ =~= seq!['0']);
    let r = match kind {
        CalibratorKind::Polynomial => vec![
            CalibratorRowData { first: string_of(&one), second: string_of(&one), third: String::new() },
        ],
        CalibratorKind::Spline => vec![
            CalibratorRowData {
                first: string_of(&zero),
                second: string_of(&zero),
                third: string_of(&one),
            },
            CalibratorRowData {
                first: string_of(&one),
                second: string_of(&one),
                third: string_of(&one),
            },
        ],
        CalibratorKind::MathOperation => Vec::new(),
    };
    assert(rows_view(r@) =~= default_rows_of(kind));
    r
}

/// The row the form shows for a term.
pub open spec fn term_row(t: Term<Seq<char>>) -> RowView {
    row3(t.coefficient, int_text(t.exponent as int), Seq::empty())
}

/// The row the form shows for a spline point.
pub open spec fn point_row(p: SplinePoint<Seq<char>>) -> RowView {
    row3(p.raw, p.calibrated, int_text(p.order as int))
}

/// The form's entry for a math item, when it is an operand or operator.
pub open spec fn entry_of_item(c: MathItemView) -> Option<RpnOperationEntry<Seq<char>>> {
    match c {
        MathItemView::ValueOperand(v) => Some(RpnOperationEntry::Value(v)),
        MathItemView::ThisParameterOperand(v) => Some(RpnOperationEntry::ThisParameter(v)),
        MathItemView::Operator(v) => Some(RpnOperationEntry::Operator(v)),
        MathItemView::ParameterInstanceRefOperand(r) => Some(
            RpnOperationEntry::ParameterInstance {
                parameter_ref: r.parameter_ref,
                instance: r.instance,
                use_calibrated_value: r.use_calibrated_value,
            },
        ),
        MathItemView::AncillaryDataSet(_) => None,
    }
}

/// [`entry_of_item`] as a function value.
pub open spec fn item_reader() -> spec_fn(MathItemView) -> Option<RpnOperationEntry<Seq<char>>> {
    |c: MathItemView| entry_of_item(c)
}

/// The form's entries for a math calibrator's items, in order.
pub open spec fn rpn_entries_of(content: Seq<MathItemView>) -> Seq<RpnOperationEntry<Seq<char>>> {
    filter_map(content, item_reader())
}

/// The item for an entry of the form (argument instances are not used in
/// calibrators).
pub open spec fn item_of_entry(e: RpnOperationEntry<Seq<char>>) -> MathItemView {
    match e {
        RpnOperationEntry::Value(v) => MathItemView::ValueOperand(v),
        RpnOperationEntry::ThisParameter(v) => MathItemView::ThisParameterOperand(v),
        RpnOperationEntry::Operator(v) => MathItemView::Operator(v),
        RpnOperationEntry::ParameterInstance { parameter_ref, instance, use_calibrated_value } =>
            MathItemView::ParameterInstanceRefOperand(
            InstanceRef { parameter_ref, instance, use_calibrated_value },
        ),
        RpnOperationEntry::ArgumentInstance { argument_ref, .. } => MathItemView::Operator(
            argument_ref,
        ),
    }
}

/// The algorithm of a calibrator item, when it is not an ancillary data
/// set.
pub open spec fn algorithm_of(c: ContentView) -> Option<ContentView> {
    match c {
        ContentView::AncillaryDataSet(_) => None,
        _ => Some(c),
    }
}

/// The first algorithm of a calibrator's items.
pub open spec fn first_algorithm(content: Seq<ContentView>) -> Option<ContentView> {
    first_some(content, |c: ContentView| algorithm_of(c))
}

/// What the form holds: the kind, name and description, the spline's
/// order text and extrapolation, the math entries and the rows.
pub struct ValuesView {
    pub kind: CalibratorKind,
    pub name: Seq<char>,
    pub short_description: Seq<char>,
    pub order: Seq<char>,
    pub extrapolate: bool,
    pub math_operation: Seq<RpnOperationEntry<Seq<char>>>,
    pub rows: Seq<RowView>,
}

/// What the form shows for a calibrator: its first algorithm decides the
/// kind and the rows (a new polynomial form when there is none).
pub open spec fn values_of(cal: Option<CalibratorView>) -> ValuesView {
    let base = ValuesView {
        kind: CalibratorKind::Polynomial,
        name: match cal {
            Some(c) => text_or_empty(c.name),
            None => Seq::empty(),
        },
        short_description: match cal {
            Some(c) => text_or_empty(c.short_description),
            None => Seq::empty(),
        },
        order: seq!['1'],
        extrapolate: false,
        math_operation: Seq::empty(),
        rows: default_rows_of(CalibratorKind::Polynomial),
    };
    match cal {
        Some(c) => match first_algorithm(c.content) {
            Some(ContentView::Polynomial(p)) => ValuesView {
                rows: p.term.map_values(|t: Term<Seq<char>>| term_row(t)),
                ..base
            },
            Some(ContentView::Spline(s)) => ValuesView {
                kind: CalibratorKind::Spline,
                order: int_text(s.order as int),
                extrapolate: s.extrapolate,
                rows: s.spline_point.map_values(|p: SplinePoint<Seq<char>>| point_row(p)),
                ..base
            },
            Some(ContentView::MathOperation(m)) => ValuesView {
                kind: CalibratorKind::MathOperation,
                math_operation: rpn_entries_of(m.content),
                rows: Seq::empty(),
                ..base
            },
            _ => base,
        },
        None => base,
    }
}

/// What the form holds (see [`ValuesView`]).
#[derive(Debug)]
pub struct CalibratorValues {
    pub kind: CalibratorKind,
    pub name: String,
    pub short_description: String,
    pub order: String,
    pub extrapolate: bool,
    pub math_operation: Vec<RpnOperationEntry<String>>,
    pub rows: Vec<CalibratorRowData>,
}

impl View for CalibratorValues {
    type V = ValuesView;

    open spec fn view(&self) -> ValuesView {
        ValuesView {
            kind: self.kind,
            name: self.name@,
            short_description: self.short_description@,
            order: self.order@,
            extrapolate: self.extrapolate,
            math_operation: entries_view(self.math_operation@),
            rows: rows_view(self.rows@),
        }
    }
}

/// The position of the first algorithm among a calibrator's items.
fn first_algorithm_index(content: &Vec<CalibratorContent>) -> (r: Option<usize>)
    ensures
        match r {
            Some(i) => i < content@.len() && first_algorithm(contents_view(content@)) == Some(
                content@[i as int]@,
            ),
            None => first_algorithm(contents_view(content@)) is None,
        },
{
    let ghost all = contents_view(content@);
    let ghost f = |c: ContentView| algorithm_of(c);
    let mut i: usize = 0;
    while i < content.len()
        invariant
            i <= content@.len(),
            all == contents_view(content@),
            f == (|c: ContentView| algorithm_of(c)),
            filter_map(all.take(i as int), f).len() == 0,
        decreases content.len() - i,
    {
        proof {
            assert(all.take(i + 1).drop_last() =~= all.take(i as int));
            assert(all.take(i + 1).last() == content@[i as int]@);
        }
        match &content[i] {
            CalibratorContent::AncillaryDataSet(_) => {},
            _ => {
                proof {
                    let t = all.take(i + 1);
                    assert(all =~= t + all.skip(i + 1));
                    crate::text::lemma_filter_map_concat(t, all.skip(i + 1), f);
                    assert(filter_map(t, f) =~= seq![content@[i as int]@]);
                }
                return Some(i);
            },
        }
        i = i + 1;
    }
    assert(all.take(content.len() as int) =~= all);
    None
}

/// A copy of an entry of the math operation.
fn clone_entry(e: &RpnOperationEntry<String>) -> (r: RpnOperationEntry<String>)
    ensures
        r@ == e@,
{
    match e {
        RpnOperationEntry::Value(v) => RpnOperationEntry::Value(v.clone()),
        RpnOperationEntry::ThisParameter(v) => RpnOperationEntry::ThisParameter(v.clone()),
        RpnOperationEntry::Operator(v) => RpnOperationEntry::Operator(v.clone()),
        RpnOperationEntry::ParameterInstance { parameter_ref, instance, use_calibrated_value } =>
            RpnOperationEntry::ParameterInstance {
            parameter_ref: parameter_ref.clone(),
            instance: *instance,
            use_calibrated_value: *use_calibrated_value,
        },
        RpnOperationEntry::ArgumentInstance { argument_ref, use_calibrated_value } =>
            RpnOperationEntry::ArgumentInstance {
            argument_ref: argument_ref.clone(),
            use_calibrated_value: *use_calibrated_value,
        },
    }
}

/// The form's entries for a math calibrator's items (see
/// [`rpn_entries_of`]).
pub fn rpn_entries_from_calibrator(content: &Vec<MathCalibratorContent>) -> (r: Vec<
    RpnOperationEntry<String>,
>)
    ensures
        entries_view(r@) == rpn_entries_of(items_view(content@)),
{
    let ghost all = items_view(content@);
    let mut out: Vec<RpnOperationEntry<String>> = Vec::new();
    let mut i: usize = 0;
    while i < content.len()
        invariant
            i <= content@.len(),
            all == items_view(content@),
            entries_view(out@) == filter_map(all.take(i as int), item_reader()),
        decreases content.len() - i,
    {
        let ghost before = out@;
        proof {
            assert(all.take(i + 1).drop_last() =~= all.take(i as int));
            assert(all.take(i + 1).last() == content@[i as int]@);
        }
        match &content[i] {
            MathCalibratorContent::ValueOperand(v) => {
                out.push(RpnOperationEntry::Value(v.clone()));
            },
            MathCalibratorContent::ThisParameterOperand(v) => {
                out.push(RpnOperationEntry::ThisParameter(v.clone()));
            },
            MathCalibratorContent::Operator(v) => {
                out.push(RpnOperationEntry::Operator(v.clone()));
            },
            MathCalibratorContent::ParameterInstanceRefOperand(r) => {
                out.push(
                    RpnOperationEntry::ParameterInstance {
                        parameter_ref: r.parameter_ref.clone(),
                        instance: r.instance,
                        use_calibrated_value: r.use_calibrated_value,
                    },
                );
            },
            MathCalibratorContent::AncillaryDataSet(_) => {},
        }
        proof {
            if out@.len() > before.len() {
                assert(entries_view(out@) =~= entries_view(before).push(out@.last()@));
            }
        }
        i = i + 1;
    }
    assert(all.take(content.len() as int) =~= all);
    out
}

/// The item for an entry of the form (see [`item_of_entry`]).
pub fn math_calibrator_content(entry: RpnOperationEntry<String>) -> (r: MathCalibratorContent)
    requires
        !(entry@ is ArgumentInstance),
    ensures
        r@ == item_of_entry(entry@),
{
    match entry {
        RpnOperationEntry::Value(v) => MathCalibratorContent::ValueOperand(v),
        RpnOperationEntry::ThisParameter(v) => MathCalibratorContent::ThisParameterOperand(v),
        RpnOperationEntry::Operator(v) => MathCalibratorContent::Operator(v),
        RpnOperationEntry::ParameterInstance { parameter_ref, instance, use_calibrated_value } =>
            MathCalibratorContent::ParameterInstanceRefOperand(
            InstanceRef { parameter_ref, instance, use_calibrated_value },
        ),
        RpnOperationEntry::ArgumentInstance { argument_ref, .. } => MathCalibratorContent::Operator(
            argument_ref,
        ),
    }
}

impl CalibratorValues {
    /// What the form shows for a calibrator (see [`values_of`]).
    pub fn from_calibrator(value: Option<&Calibrator>) -> (r: CalibratorValues)
        ensures
            r@ == values_of(
                match value {
                    Some(c) => Some(c@),
                    None => None,
                },
            ),
    {
        let one = vec!['1'];
        assert(one@ =~= seq!['1']);
        let mut result = CalibratorValues {
            kind: CalibratorKind::Polynomial,
            name: match value {
                Some(c) => text_of(&c.name),
                None => String::new(),
            },
            short_description: match value {
                Some(c) => text_of(&c.short_description),
                None => String::new(),
            },
            order: string_of(&one),
            extrapolate: false,
            math_operation: Vec::new(),
            rows: default_rows(CalibratorKind::Polynomial),
        };
        assert(entries_view(result.math_operation@) =~= Seq::<RpnOperationEntry<Seq<char>>>::empty());
        let c = match value {
            Some(c) => c,
            None => {
                return result;
            },
        };
        match first_algorithm_index(&c.content) {
            Some(i) => match &c.content[i] {
                CalibratorContent::Polynomial(p) => {
                    let mut rows: Vec<CalibratorRowData> = Vec::new();
                    let mut k: usize = 0;
                    while k < p.term.len()
                        invariant
                            k <= p.term@.len(),
                            rows@.len() == k,
                            forall|j: int| 0 <= j < k ==> #[trigger] rows@[j]@ == term_row(p.term@[j]@),
                        decreases p.term.len() - k,
                    {
                        let t = &p.term[k];
                        rows.push(
                            CalibratorRowData {
                                first: t.coefficient.clone(),
                                second: string_of(&u64_text(t.exponent)),
                                third: String::new(),
                            },
                        );
                        k = k + 1;
                    }
                    assert(rows_view(rows@) =~= p@.term.map_values(|t: Term<Seq<char>>| term_row(t)));
                    result.rows = rows;
                },
                CalibratorContent::Spline(s) => {
                    let mut rows: Vec<CalibratorRowData> = Vec::new();
                    let mut k: usize = 0;
                    while k < s.spline_point.len()
                        invariant
                            k <= s.spline_point@.len(),
                            rows@.len() == k,
                            forall|j: int|
                                0 <= j < k ==> #[trigger] rows@[j]@ == point_row(s.spline_point@[j]@),
                        decreases s.spline_point.len() - k,
                    {
                        let p = &s.spline_point[k];
                        rows.push(
                            CalibratorRowData {
                                first: p.raw.clone(),
                                second: p.calibrated.clone(),
                                third: string_of(&u64_text(p.order)),
                            },
                        );
                        k = k + 1;
                    }
                    assert(rows_view(rows@) =~= s@.spline_point.map_values(
                        |p: SplinePoint<Seq<char>>| point_row(p),
                    ));
                    result.kind = CalibratorKind::Spline;
                    result.order = string_of(&u64_text(s.order));
                    result.extrapolate = s.extrapolate;
                    result.rows = rows;
                },
                CalibratorContent::MathOperation(m) => {
                    result.kind = CalibratorKind::MathOperation;
                    result.math_operation = rpn_entries_from_calibrator(&m.content);
                    result.rows = Vec::new();
                    assert(rows_view(result.rows@) =~= Seq::<RowView>::empty());
                },
                CalibratorContent::AncillaryDataSet(_) => {},
            },
            None => {},
        }
        result
    }
}

// ---------------------------------------------------------------------
// Applying the form
// ---------------------------------------------------------------------

/// The term a row gives: a coefficient that reads as a number and an
/// exponent that reads as a whole number, both trimmed.
pub open spec fn term_of_row(r: RowView) -> Option<Term<Seq<char>>> {
    let c = trim(r.first);
    match parse_u64_spec(trim(r.second)) {
        Some(e) => if is_float_text(c) {
            Some(Term { coefficient: c, exponent: e })
        } else {
            None
        },
        None => None,
    }
}

/// [`term_of_row`] as a function value.
pub open spec fn term_reader() -> spec_fn(RowView) -> Option<Term<Seq<char>>> {
    |r: RowView| term_of_row(r)
}

/// The terms the rows give; the term `1·x` when none does.
pub open spec fn polynomial_terms(rows: Seq<RowView>) -> Seq<Term<Seq<char>>> {
    let t = filter_map(rows, term_reader());
    if t.len() == 0 {
        seq![Term { coefficient: seq!['1'], exponent: 1 }]
    } else {
        t
    }
}

/// The point a row gives: raw and calibrated values that read as numbers
/// and an order that reads as a whole number, all trimmed.
pub open spec fn point_of_row(r: RowView) -> Option<SplinePoint<Seq<char>>> {
    let raw = trim(r.first);
    let calibrated = trim(r.second);
    match parse_u64_spec(trim(r.third)) {
        Some(o) => if is_float_text(raw) && is_float_text(calibrated) {
            Some(SplinePoint { raw, calibrated, order: o })
        } else {
            None
        },
        None => None,
    }
}

/// [`point_of_row`] as a function value.
pub open spec fn point_reader() -> spec_fn(RowView) -> Option<SplinePoint<Seq<char>>> {
    |r: RowView| point_of_row(r)
}

/// The point of order 1 at (n, n).
pub open spec fn filler_point(n: nat) -> SplinePoint<Seq<char>> {
    SplinePoint { raw: decimal(n), calibrated: decimal(n), order: 1 }
}

/// The points, with points (n, n) of order 1 added until there are two.
pub open spec fn padded_points(p: Seq<SplinePoint<Seq<char>>>) -> Seq<SplinePoint<Seq<char>>> {
    if p.len() >= 2 {
        p
    } else if p.len() == 1 {
        p.push(filler_point(1))
    } else {
        seq![filler_point(0), filler_point(1)]
    }
}

/// The spline order a text gives: the whole number it reads as, else 1.
pub open spec fn spline_order(t: Seq<char>) -> u64 {
    match parse_u64_spec(trim(t)) {
        Some(o) => o,
        None => 1,
    }
}

/// A calibrator item kept when another algorithm replaces the current
/// one: an ancillary data set.
pub open spec fn kept_item(c: ContentView) -> Option<ContentView> {
    match c {
        ContentView::AncillaryDataSet(_) => Some(c),
        _ => None,
    }
}

/// The items after replacing the algorithm: the ancillary data sets, then
/// the new algorithm.
pub open spec fn replaced(content: Seq<ContentView>, v: ContentView) -> Seq<ContentView> {
    filter_map(content, |c: ContentView| kept_item(c)).push(v)
}

/// The position of the first item satisfying `p`.
pub open spec fn index_where<T>(s: Seq<T>, p: spec_fn(T) -> bool) -> Option<int>
    decreases s.len(),
{
    if s.len() == 0 {
        None
    } else if p(s[0]) {
        Some(0)
    } else {
        match index_where(s.drop_first(), p) {
            Some(i) => Some(i + 1),
            None => None,
        }
    }
}

/// The kind of algorithm a calibrator item is, if it is one.
pub open spec fn kind_of(c: ContentView) -> Option<CalibratorKind> {
    match c {
        ContentView::AncillaryDataSet(_) => None,
        ContentView::Polynomial(_) => Some(CalibratorKind::Polynomial),
        ContentView::Spline(_) => Some(CalibratorKind::Spline),
        ContentView::MathOperation(_) => Some(CalibratorKind::MathOperation),
    }
}

/// Whether an item is an algorithm of the given kind, as a function value.
pub open spec fn kind_pred(k: CalibratorKind) -> spec_fn(ContentView) -> bool {
    |c: ContentView| kind_of(c) == Some(k)
}

/// What `index_where` finds: the first item satisfying `p`, when there is
/// one.
pub proof fn lemma_index_where<T>(s: Seq<T>, p: spec_fn(T) -> bool)
    ensures
        match index_where(s, p) {
            Some(i) => 0 <= i < s.len() && p(s[i]) && forall|j: int| 0 <= j < i ==> !p(#[trigger] s[j]),
            None => forall|j: int| 0 <= j < s.len() ==> !p(#[trigger] s[j]),
        },
    decreases s.len(),
{
    if s.len() > 0 {
        lemma_index_where(s.drop_first(), p);
        assert forall|j: int| 0 < j < s.len() implies s[j] == s.drop_first()[j - 1] by {}
    }
}

/// The first ancillary data set among a math calibrator's items.
pub open spec fn math_ancillary(c: MathItemView) -> Option<MathItemView> {
    match c {
        MathItemView::AncillaryDataSet(_) => Some(c),
        _ => None,
    }
}

/// The calibrator items after applying the form: the algorithm of the
/// form's kind is updated where the calibrator has one, else it replaces
/// the current algorithm.
pub open spec fn applied_content(form: ValuesView, content: Seq<ContentView>) -> Seq<ContentView> {
    match form.kind {
        CalibratorKind::Polynomial => {
            let terms = polynomial_terms(form.rows);
            match index_where(content, kind_pred(CalibratorKind::Polynomial)) {
                Some(i) => content.update(
                    i,
                    ContentView::Polynomial(
                        PolynomialView { term: terms, ..content[i]->Polynomial_0 },
                    ),
                ),
                None => replaced(
                    content,
                    ContentView::Polynomial(
                        PolynomialView {
                            name: None,
                            short_description: None,
                            ancillary_data_set: None,
                            term: terms,
                        },
                    ),
                ),
            }
        },
        CalibratorKind::Spline => {
            let points = padded_points(filter_map(form.rows, point_reader()));
            let order = spline_order(form.order);
            match index_where(content, kind_pred(CalibratorKind::Spline)) {
                Some(i) => content.update(
                    i,
                    ContentView::Spline(
                        SplineView {
                            order,
                            extrapolate: form.extrapolate,
                            spline_point: points,
                            ..content[i]->Spline_0
                        },
                    ),
                ),
                None => replaced(
                    content,
                    ContentView::Spline(
                        SplineView {
                            name: None,
                            short_description: None,
                            order,
                            extrapolate: form.extrapolate,
                            ancillary_data_set: None,
                            spline_point: points,
                        },
                    ),
                ),
            }
        },
        CalibratorKind::MathOperation => {
            let items = form.math_operation.map_values(
                |e: RpnOperationEntry<Seq<char>>| item_of_entry(e),
            );
            match index_where(content, kind_pred(CalibratorKind::MathOperation)) {
                Some(i) => {
                    let m = content[i]->MathOperation_0;
                    let kept = match first_some(m.content, |c: MathItemView| math_ancillary(c)) {
                        Some(a) => seq![a],
                        None => Seq::empty(),
                    };
                    content.update(
                        i,
                        ContentView::MathOperation(MathView { content: kept + items, ..m }),
                    )
                },
                None => replaced(
                    content,
                    ContentView::MathOperation(
                        MathView { name: None, short_description: None, content: items },
                    ),
                ),
            }
        },
    }
}

/// A calibrator with nothing set.
pub open spec fn empty_calibrator() -> CalibratorView {
    CalibratorView { name: None, short_description: None, content: Seq::empty() }
}

/// The calibrator after applying the form: none when the form is
/// optional and turned off; else the calibrator (a new one when there was
/// none) with the form's name, description and algorithm.
pub open spec fn applied_calibrator(
    form: ValuesView,
    present: bool,
    required: bool,
    cal: Option<CalibratorView>,
) -> Option<CalibratorView> {
    if !required && !present {
        None
    } else {
        let c = match cal {
            Some(c) => c,
            None => empty_calibrator(),
        };
        Some(
            CalibratorView {
                name: optional_text(form.name),
                short_description: optional_text(form.short_description),
                content: applied_content(form, c.content),
            },
        )
    }
}

/// The terms the rows give (see [`polynomial_terms`]).
fn terms_from_rows(rows: &Vec<CalibratorRowData>) -> (r: Vec<Term<String>>)
    ensures
        r@.map_values(|t: Term<String>| t@) == polynomial_terms(rows_view(rows@)),
{
    let ghost all = rows_view(rows@);
    let mut out: Vec<Term<String>> = Vec::new();
    let mut i: usize = 0;
    while i < rows.len()
        invariant
            i <= rows@.len(),
            all == rows_view(rows@),
            out@.map_values(|t: Term<String>| t@) == filter_map(all.take(i as int), term_reader()),
        decreases rows.len() - i,
    {
        let ghost before = out@;
        proof {
            assert(all.take(i + 1).drop_last() =~= all.take(i as int));
            assert(all.take(i + 1).last() == rows@[i as int]@);
        }
        let c = trim_chars(&chars_of(rows[i].first.as_str()));
        let e = parse_u64(&trim_chars(&chars_of(rows[i].second.as_str())));
        match e {
            Some(e) => {
                if is_float_chars(&c) {
                    out.push(Term { coefficient: string_of(&c), exponent: e });
                    assert(out@.map_values(|t: Term<String>| t@) =~= before.map_values(
                        |t: Term<String>| t@,
                    ).push(out@.last()@));
                }
            },
            None => {},
        }
        i = i + 1;
    }
    assert(all.take(rows.len() as int) =~= all);
    if out.len() == 0 {
        let one = vec!['1'];
        assert(one@ =~= seq!['1']);
        out.push(Term { coefficient: string_of(&one), exponent: 1 });
        assert(out@.map_values(|t: Term<String>| t@) =~= seq![
            Term { coefficient: seq!['1'], exponent: 1 },
        ]);
    }
    out
}

/// The spline points the rows give (see [`padded_points`]).
fn points_from_rows(rows: &Vec<CalibratorRowData>) -> (r: Vec<SplinePoint<String>>)
    ensures
        r@.map_values(|p: SplinePoint<String>| p@) == padded_points(
            filter_map(rows_view(rows@), point_reader()),
        ),
{
    let ghost all = rows_view(rows@);
    let mut out: Vec<SplinePoint<String>> = Vec::new();
    let mut i: usize = 0;
    while i < rows.len()
        invariant
            i <= rows@.len(),
            all == rows_view(rows@),
            out@.map_values(|p: SplinePoint<String>| p@) == filter_map(
                all.take(i as int),
                point_reader(),
            ),
        decreases rows.len() - i,
    {
        let ghost before = out@;
        proof {
            assert(all.take(i + 1).drop_last() =~= all.take(i as int));
            assert(all.take(i + 1).last() == rows@[i as int]@);
        }
        let raw = trim_chars(&chars_of(rows[i].first.as_str()));
        let calibrated = trim_chars(&chars_of(rows[i].second.as_str()));
        let o = parse_u64(&trim_chars(&chars_of(rows[i].third.as_str())));
        match o {
            Some(o) => {
                if is_float_chars(&raw) && is_float_chars(&calibrated) {
                    out.push(
                        SplinePoint {
                            raw: string_of(&raw),
                            calibrated: string_of(&calibrated),
                            order: o,
                        },
                    );
                    assert(out@.map_values(|p: SplinePoint<String>| p@) =~= before.map_values(
                        |p: SplinePoint<String>| p@,
                    ).push(out@.last()@));
                }
            },
            None => {},
        }
        i = i + 1;
    }
    assert(all.take(rows.len() as int) =~= all);
    let ghost read = out@.map_values(|p: SplinePoint<String>| p@);
    let n = out.len();
    if n < 2 {
        if n == 0 {
            let t = u64_text(0);
            proof {
                crate::number::lemma_int_text_value(0);
            }
            out.push(SplinePoint { raw: string_of(&t), calibrated: string_of(&t), order: 1 });
        }
        let t = u64_text(1);
        out.push(SplinePoint { raw: string_of(&t), calibrated: string_of(&t), order: 1 });
        proof {
            assert(int_text(0) == decimal(0));
            assert(int_text(1) == decimal(1));
            assert(out@.map_values(|p: SplinePoint<String>| p@) =~= padded_points(read));
        }
    }
    out
}

/// The position of the first algorithm of the given kind.
fn find_kind(content: &Vec<CalibratorContent>, kind: CalibratorKind) -> (r: Option<usize>)
    ensures
        match r {
            Some(i) => i < content@.len() && index_where(contents_view(content@), kind_pred(kind))
                == Some(i as int),
            None => index_where(contents_view(content@), kind_pred(kind)) is None,
        },
{
    let ghost all = contents_view(content@);
    let mut i: usize = 0;
    while i < content.len()
        invariant
            i <= content@.len(),
            all == contents_view(content@),
            forall|j: int| 0 <= j < i ==> !kind_pred(kind)(#[trigger] all[j]),
        decreases content.len() - i,
    {
        let found = match &content[i] {
            CalibratorContent::AncillaryDataSet(_) => false,
            CalibratorContent::Polynomial(_) => kind == CalibratorKind::Polynomial,
            CalibratorContent::Spline(_) => kind == CalibratorKind::Spline,
            CalibratorContent::MathOperation(_) => kind == CalibratorKind::MathOperation,
        };
        assert(all[i as int] == content@[i as int]@);
        if found {
            proof {
                lemma_index_where(all, kind_pred(kind));
                match index_where(all, kind_pred(kind)) {
                    Some(k) => {
                        if k > i {
                        }
                    },
                    None => {},
                }
            }
            return Some(i);
        }
        i = i + 1;
    }
    proof {
        lemma_index_where(all, kind_pred(kind));
        match index_where(all, kind_pred(kind)) {
            Some(k) => {
                assert(!kind_pred(kind)(all[k]));
            },
            None => {},
        }
    }
    None
}

/// Keeps only the ancillary data sets among the items and appends the new
/// algorithm (see [`replaced`]).
pub fn replace_algorithm(content: &mut Vec<CalibratorContent>, value: CalibratorContent)
    ensures
        contents_view(final(content)@) == replaced(contents_view(old(content)@), value@),
{
    let mut items: Vec<CalibratorContent> = Vec::new();
    std::mem::swap(&mut items, content);
    let ghost all = contents_view(items@);
    let ghost n = items@.len();
    let ghost f = |c: ContentView| kept_item(c);
    while items.len() > 0
        invariant
            all == contents_view(old(content)@),
            n == all.len(),
            items@.len() <= n,
            contents_view(items@) == all.skip(n - items@.len()),
            f == (|c: ContentView| kept_item(c)),
            contents_view(content@) == filter_map(all.take(n - items@.len()), f),
        decreases items.len(),
    {
        let ghost done: int = n - items@.len();
        let ghost old_items = items@;
        let ghost before = content@;
        let item = items.remove(0);
        proof {
            assert(contents_view(old_items)[0] == old_items[0]@);
            assert(all.skip(done)[0] == all[done]);
            assert forall|j: int| 0 <= j < items@.len() implies #[trigger] contents_view(items@)[j]
                == all.skip(done + 1)[j] by {
                assert(items@[j] == old_items[j + 1]);
                assert(contents_view(old_items)[j + 1] == old_items[j + 1]@);
                assert(all.skip(done)[j + 1] == all[done + 1 + j]);
            }
            assert(contents_view(items@) =~= all.skip(done + 1));
            assert(all.take(done + 1).drop_last() =~= all.take(done));
            assert(all.take(done + 1).last() == item@);
        }
        match item {
            CalibratorContent::AncillaryDataSet(a) => {
                let kept = CalibratorContent::AncillaryDataSet(a);
                content.push(kept);
                assert(contents_view(content@) =~= contents_view(before).push(kept@));
            },
            _ => {},
        }
    }
    proof {
        assert(all.take(n as int) =~= all);
    }
    let ghost before = content@;
    content.push(value);
    assert(contents_view(content@) =~= contents_view(before).push(value@));
}

/// The math calibrator's items: its first ancillary data set, then the
/// form's entries.
fn math_items(
    existing: Vec<MathCalibratorContent>,
    entries: &Vec<RpnOperationEntry<String>>,
) -> (r: Vec<MathCalibratorContent>)
    requires
        no_arguments(entries_view(entries@)),
    ensures
        items_view(r@) == (match first_some(items_view(existing@), |c: MathItemView| math_ancillary(c)) {
            Some(a) => seq![a],
            None => Seq::empty(),
        }) + entries_view(entries@).map_values(|e: RpnOperationEntry<Seq<char>>| item_of_entry(e)),
{
    let ghost all = items_view(existing@);
    let ghost f = |c: MathItemView| math_ancillary(c);
    let mut items = existing;
    let mut out: Vec<MathCalibratorContent> = Vec::new();
    let ghost n = items@.len();
    let mut found = false;
    while items.len() > 0 && !found
        invariant
            n == all.len(),
            items@.len() <= n,
            items_view(items@) == all.skip(n - items@.len()),
            f == (|c: MathItemView| math_ancillary(c)),
            !found ==> out@.len() == 0 && filter_map(all.take(n - items@.len()), f).len() == 0,
            found ==> out@.len() == 1 && first_some(all, f) == Some(items_view(out@)[0]),
        decreases items.len(),
    {
        let ghost done: int = n - items@.len();
        let ghost old_items = items@;
        let item = items.remove(0);
        proof {
            assert(items_view(old_items)[0] == old_items[0]@);
            assert(all.skip(done)[0] == all[done]);
            assert forall|j: int| 0 <= j < items@.len() implies #[trigger] items_view(items@)[j]
                == all.skip(done + 1)[j] by {
                assert(items@[j] == old_items[j + 1]);
                assert(items_view(old_items)[j + 1] == old_items[j + 1]@);
                assert(all.skip(done)[j + 1] == all[done + 1 + j]);
            }
            assert(items_view(items@) =~= all.skip(done + 1));
            assert(all.take(done + 1).drop_last() =~= all.take(done));
            assert(all.take(done + 1).last() == item@);
        }
        match item {
            MathCalibratorContent::AncillaryDataSet(a) => {
                let kept = MathCalibratorContent::AncillaryDataSet(a);
                proof {
                    let t = all.take(done + 1);
                    assert(all =~= t + all.skip(done + 1));
                    crate::text::lemma_filter_map_concat(t, all.skip(done + 1), f);
                    assert(filter_map(t, f) =~= seq![kept@]);
                }
                out.push(kept);
                found = true;
            },
            _ => {},
        }
    }
    proof {
        if !found {
            assert(all.take(n as int) =~= all);
        }
    }
    let ghost head = items_view(out@);
    let mut i: usize = 0;
    while i < entries.len()
        invariant
            i <= entries@.len(),
            no_arguments(entries_view(entries@)),
            items_view(out@) == head + entries_view(entries@).take(i as int).map_values(
                |e: RpnOperationEntry<Seq<char>>| item_of_entry(e),
            ),
        decreases entries.len() - i,
    {
        assert(entries_view(entries@)[i as int] == entries@[i as int]@);
        let e = clone_entry(&entries[i]);
        let c = math_calibrator_content(e);
        let ghost before = out@;
        out.push(c);
        i = i + 1;
        proof {
            assert(items_view(out@) =~= items_view(before).push(c@));
            assert(entries_view(entries@).take(i as int) =~= entries_view(entries@).take(i - 1).push(
                entries@[i - 1]@,
            ));
            assert(items_view(out@) =~= head + entries_view(entries@).take(i as int).map_values(
                |e: RpnOperationEntry<Seq<char>>| item_of_entry(e),
            ));
        }
    }
    assert(entries_view(entries@).take(entries.len() as int) =~= entries_view(entries@));
    proof {
        if !found {
            assert(head =~= Seq::<MathItemView>::empty());
        }
    }
    out
}

/// The value of an optional calibrator.
pub open spec fn opt_calibrator_view(o: Option<Calibrator>) -> Option<CalibratorView> {
    match o {
        Some(c) => Some(c@),
        None => None,
    }
}

/// Applies the form to the calibrator (see [`applied_calibrator`]); the
/// math operation of a calibrator the form keeps uses no argument
/// instances.
pub fn apply_to(
    values: &CalibratorValues,
    present: bool,
    required: bool,
    calibrator: &mut Option<Calibrator>,
)
    requires
        (required || present) && values.kind == CalibratorKind::MathOperation ==> no_arguments(
            entries_view(values.math_operation@),
        ),
    ensures
        opt_calibrator_view(*final(calibrator)) == applied_calibrator(
            values@,
            present,
            required,
            opt_calibrator_view(*old(calibrator)),
        ),
{
    if !required && !present {
        *calibrator = None;
        return;
    }
    let mut c = match calibrator.take() {
        Some(c) => c,
        None => Calibrator { name: None, short_description: None, content: Vec::new() },
    };
    assert(contents_view(c.content@) == (match opt_calibrator_view(*old(calibrator)) {
        Some(k) => k,
        None => empty_calibrator(),
    }).content) by {
        if old(calibrator).is_none() {
            assert(contents_view(c.content@) =~= Seq::<ContentView>::empty());
        }
    }
    let ghost before = contents_view(c.content@);
    c.name = optional(values.name.as_str());
    c.short_description = optional(values.short_description.as_str());
    match values.kind {
        CalibratorKind::Polynomial => {
            let terms = terms_from_rows(&values.rows);
            match find_kind(&c.content, CalibratorKind::Polynomial) {
                Some(i) => {
                    let item = c.content.remove(i);
                    proof {
                        lemma_index_where(before, kind_pred(CalibratorKind::Polynomial));
                        assert(before[i as int] == item@);
                    }
                    match item {
                        CalibratorContent::Polynomial(mut p) => {
                            p.term = terms;
                            let updated = CalibratorContent::Polynomial(p);
                            let ghost removed = c.content@;
                            c.content.insert(i, updated);
                            proof {
                                assert(contents_view(c.content@) =~= before.update(i as int, updated@));
                            }
                        },
                        _ => {
                            proof {
                                assert(false);
                            }
                        },
                    }
                },
                None => {
                    let p = PolynomialCalibrator {
                        name: None,
                        short_description: None,
                        ancillary_data_set: None,
                        term: terms,
                    };
                    replace_algorithm(&mut c.content, CalibratorContent::Polynomial(p));
                },
            }
        },
        CalibratorKind::Spline => {
            let points = points_from_rows(&values.rows);
            let order = match parse_u64(&trim_chars(&chars_of(values.order.as_str()))) {
                Some(o) => o,
                None => 1,
            };
            match find_kind(&c.content, CalibratorKind::Spline) {
                Some(i) => {
                    let item = c.content.remove(i);
                    proof {
                        lemma_index_where(before, kind_pred(CalibratorKind::Spline));
                        assert(before[i as int] == item@);
                    }
                    match item {
                        CalibratorContent::Spline(mut s) => {
                            s.order = order;
                            s.extrapolate = values.extrapolate;
                            s.spline_point = points;
                            let updated = CalibratorContent::Spline(s);
                            c.content.insert(i, updated);
                            proof {
                                assert(contents_view(c.content@) =~= before.update(i as int, updated@));
                            }
                        },
                        _ => {
                            proof {
                                assert(false);
                            }
                        },
                    }
                },
                None => {
                    let s = SplineCalibrator {
                        name: None,
                        short_description: None,
                        order,
                        extrapolate: values.extrapolate,
                        ancillary_data_set: None,
                        spline_point: points,
                    };
                    replace_algorithm(&mut c.content, CalibratorContent::Spline(s));
                },
            }
        },
        CalibratorKind::MathOperation => {
            match find_kind(&c.content, CalibratorKind::MathOperation) {
                Some(i) => {
                    let item = c.content.remove(i);
                    proof {
                        lemma_index_where(before, kind_pred(CalibratorKind::MathOperation));
                        assert(before[i as int] == item@);
                    }
                    match item {
                        CalibratorContent::MathOperation(mut m) => {
                            let mut existing: Vec<MathCalibratorContent> = Vec::new();
                            std::mem::swap(&mut existing, &mut m.content);
                            m.content = math_items(existing, &values.math_operation);
                            let updated = CalibratorContent::MathOperation(m);
                            c.content.insert(i, updated);
                            proof {
                                assert(contents_view(c.content@) =~= before.update(i as int, updated@));
                            }
                        },
                        _ => {
                            proof {
                                assert(false);
                            }
                        },
                    }
                },
                None => {
                    let none: Vec<MathCalibratorContent> = Vec::new();
                    assert(items_view(none@) =~= Seq::<MathItemView>::empty());
                    let items = math_items(none, &values.math_operation);
                    proof {
                        let f = |c: MathItemView| math_ancillary(c);
                        assert(filter_map(Seq::<MathItemView>::empty(), f) =~= Seq::<MathItemView>::empty());
                        assert(items_view(items@) =~= entries_view(values.math_operation@).map_values(
                            |e: RpnOperationEntry<Seq<char>>| item_of_entry(e),
                        ));
                    }
                    let m = MathOperationCalibrator {
                        name: None,
                        short_description: None,
                        content: items,
                    };
                    replace_algorithm(&mut c.content, CalibratorContent::MathOperation(m));
                },
            }
        },
    }
    *calibrator = Some(c);
}

/// The calibrator the form gives on its own: what applying it to no
/// calibrator gives, or an empty calibrator.
pub fn calibrator(values: &CalibratorValues, present: bool, required: bool) -> (r: Calibrator)
    requires
        (required || present) && values.kind == CalibratorKind::MathOperation ==> no_arguments(
            entries_view(values.math_operation@),
        ),
    ensures
        r@ == (match applied_calibrator(values@, present, required, None) {
            Some(c) => c,
            None => empty_calibrator(),
        }),
{
    let mut c: Option<Calibrator> = None;
    apply_to(values, present, required, &mut c);
    match c {
        Some(c) => c,
        None => {
            let r = Calibrator { name: None, short_description: None, content: Vec::new() };
            assert(contents_view(r.content@) =~= Seq::<ContentView>::empty());
            r
        },
    }
}

// ---------------------------------------------------------------------
// Formula preview
// ---------------------------------------------------------------------

/// How a polynomial term reads: `(c)` for exponent 0, `(c)·x` for 1,
/// `(c)·x^e` otherwise.
pub open spec fn term_text(c: Seq<char>, e: Seq<char>) -> Seq<char> {
    if e == seq!['0'] {
        seq!['('] + c + seq![')']
    } else if e == seq!['1'] {
        seq!['('] + c + seq![')', '·', 'x']
    } else {
        seq!['('] + c + seq![')', '·', 'x', '^'] + e
    }
}

/// The preview of a row of a polynomial, when neither column is blank.
pub open spec fn term_preview(r: RowView) -> Option<Seq<char>> {
    if trim(r.first).len() > 0 && trim(r.second).len() > 0 {
        Some(term_text(trim(r.first), trim(r.second)))
    } else {
        None
    }
}

/// The preview of a row of a spline, when neither value is blank:
/// `(raw, calibrated) [order o]`.
pub open spec fn point_preview(r: RowView) -> Option<Seq<char>> {
    if trim(r.first).len() > 0 && trim(r.second).len() > 0 {
        Some(
            seq!['('] + trim(r.first) + seq![',', ' '] + trim(r.second) + seq![
                ')',
                ' ',
                '[',
                'o',
                'r',
                'd',
                'e',
                'r',
                ' ',
            ] + trim(r.third) + seq![']'],
        )
    } else {
        None
    }
}

/// The formula the form previews: `y = ` and the terms joined by ` + `,
/// `f(x): ` and the points joined by ` → `, or `RPN: ` and the entries.
pub open spec fn formula_of(v: ValuesView) -> Seq<char> {
    match v.kind {
        CalibratorKind::Polynomial => seq!['y', ' ', '=', ' '] + join(
            filter_map(v.rows, |r: RowView| term_preview(r)),
            seq![' ', '+', ' '],
        ),
        CalibratorKind::Spline => seq!['f', '(', 'x', ')', ':', ' '] + join(
            filter_map(v.rows, |r: RowView| point_preview(r)),
            seq![' ', '→', ' '],
        ),
        CalibratorKind::MathOperation => seq!['R', 'P', 'N', ':', ' '] + crate::rpn::operation_preview(
            v.math_operation,
        ),
    }
}

/// The previews of the rows that have one.
fn row_previews(rows: &Vec<CalibratorRowData>, spline: bool) -> (r: Vec<Vec<char>>)
    ensures
        r@.map_values(|x: Vec<char>| x@) == (if spline {
            filter_map(rows_view(rows@), |r: RowView| point_preview(r))
        } else {
            filter_map(rows_view(rows@), |r: RowView| term_preview(r))
        }),
{
    let ghost all = rows_view(rows@);
    let ghost f = if spline {
        |r: RowView| point_preview(r)
    } else {
        |r: RowView| term_preview(r)
    };
    let mut out: Vec<Vec<char>> = Vec::new();
    let mut i: usize = 0;
    while i < rows.len()
        invariant
            i <= rows@.len(),
            all == rows_view(rows@),
            f == (if spline {
                |r: RowView| point_preview(r)
            } else {
                |r: RowView| term_preview(r)
            }),
            out@.map_values(|x: Vec<char>| x@) == filter_map(all.take(i as int), f),
        decreases rows.len() - i,
    {
        let ghost before = out@;
        proof {
            assert(all.take(i + 1).drop_last() =~= all.take(i as int));
            assert(all.take(i + 1).last() == rows@[i as int]@);
        }
        let a = trim_chars(&chars_of(rows[i].first.as_str()));
        let b = trim_chars(&chars_of(rows[i].second.as_str()));
        if a.len() > 0 && b.len() > 0 {
            let mut line: Vec<char> = Vec::new();
            if spline {
                let c = trim_chars(&chars_of(rows[i].third.as_str()));
                line.push('(');
                append_chars(&mut line, &a);
                line.push(',');
                line.push(' ');
                append_chars(&mut line, &b);
                let mark = vec![')', ' ', '[', 'o', 'r', 'd', 'e', 'r', ' '];
                append_chars(&mut line, &mark);
                append_chars(&mut line, &c);
                line.push(']');
                assert(line@ =~= point_preview(rows@[i as int]@)->Some_0);
            } else {
                line.push('(');
                append_chars(&mut line, &a);
                line.push(')');
                let zero = b.len() == 1 && b[0] == '0';
                let one = b.len() == 1 && b[0] == '1';
                proof {
                    assert(zero <==> b@ == seq!['0']) by {
                        if b@ == seq!['0'] {
                            assert(b@[0] == '0');
                        }
                        if zero {
                            assert(b@ =~= seq!['0']);
                        }
                    }
                    assert(one <==> b@ == seq!['1']) by {
                        if b@ == seq!['1'] {
                            assert(b@[0] == '1');
                        }
                        if one {
                            assert(b@ =~= seq!['1']);
                        }
                    }
                }
                if !zero {
                    line.push('·');
                    line.push('x');
                    if !one {
                        line.push('^');
                        append_chars(&mut line, &b);
                    }
                }
                assert(line@ =~= term_preview(rows@[i as int]@)->Some_0);
            }
            out.push(line);
            assert(out@.map_values(|x: Vec<char>| x@) =~= before.map_values(|x: Vec<char>| x@).push(
                out@.last()@,
            ));
        }
        i = i + 1;
    }
    assert(all.take(rows.len() as int) =~= all);
    out
}

/// The formula the form previews (see [`formula_of`]); the math operation
/// of a calibrator uses no argument instances.
pub fn formula_preview(values: &CalibratorValues) -> (r: String)
    requires
        values.kind == CalibratorKind::MathOperation ==> no_arguments(
            entries_view(values.math_operation@),
        ),
    ensures
        r@ == formula_of(values@),
{
    let mut out: Vec<char> = Vec::new();
    match values.kind {
        CalibratorKind::Polynomial => {
            let items = row_previews(&values.rows, false);
            let head = vec!['y', ' ', '=', ' '];
            let sep = vec![' ', '+', ' '];
            append_chars(&mut out, &head);
            append_chars(&mut out, &join_chars(&items, &sep));
            assert(out@ =~= formula_of(values@));
        },
        CalibratorKind::Spline => {
            let items = row_previews(&values.rows, true);
            let head = vec!['f', '(', 'x', ')', ':', ' '];
            let sep = vec![' ', '→', ' '];
            append_chars(&mut out, &head);
            append_chars(&mut out, &join_chars(&items, &sep));
            assert(out@ =~= formula_of(values@));
        },
        CalibratorKind::MathOperation => {
            let head = vec!['R', 'P', 'N', ':', ' '];
            append_chars(&mut out, &head);
            append_chars(&mut out, &crate::rpn::rpn_preview(&values.math_operation));
            assert(out@ =~= formula_of(values@));
        },
    }
    string_of(&out)
}

// ---------------------------------------------------------------------
// Loading a calibrator into the form and applying it back
// ---------------------------------------------------------------------

/// Whether a number text reads as itself: it reads as a number and has
/// no outer white space.
pub open spec fn clean_number(s: Seq<char>) -> bool {
    is_float_text(s) && crate::text::is_trimmed(s)
}

/// Whether the form shows an algorithm and applies it back unchanged: a
/// polynomial with terms whose coefficients are clean numbers, a spline
/// with at least two points whose values are clean numbers, or a math
/// operation with an ancillary data set at most in front.
pub open spec fn clean_algorithm(a: ContentView) -> bool {
    match a {
        ContentView::Polynomial(p) => p.term.len() > 0 && forall|i: int|
            0 <= i < p.term.len() ==> clean_number(#[trigger] p.term[i].coefficient),
        ContentView::Spline(s) => s.spline_point.len() >= 2 && forall|i: int|
            0 <= i < s.spline_point.len() ==> clean_number(#[trigger] s.spline_point[i].raw)
                && clean_number(s.spline_point[i].calibrated),
        ContentView::MathOperation(m) => forall|i: int|
            0 < i < m.content.len() ==> !(#[trigger] m.content[i] is AncillaryDataSet),
        ContentView::AncillaryDataSet(_) => false,
    }
}

/// Whether the form shows a calibrator and applies it back unchanged: its
/// name and description are clean, and it has an algorithm, the first of
/// which is clean.
pub open spec fn clean_calibrator(c: CalibratorView) -> bool {
    &&& clean_optional(c.name)
    &&& clean_optional(c.short_description)
    &&& match first_algorithm(c.content) {
        Some(a) => clean_algorithm(a),
        None => false,
    }
}

/// The first algorithm is found again by its kind.
proof fn lemma_first_algorithm_found(content: Seq<ContentView>)
    requires
        first_algorithm(content) is Some,
    ensures
        ({
            let a = first_algorithm(content)->Some_0;
            &&& kind_of(a) is Some
            &&& index_where(content, kind_pred(kind_of(a)->Some_0)) matches Some(i) && 0 <= i
                < content.len() && content[i] == a
        }),
{
    let f = |c: ContentView| algorithm_of(c);
    crate::text::lemma_first_some_index(content, f);
    let a = first_algorithm(content)->Some_0;
    let i = choose|i: int|
        0 <= i < content.len() && f(content[i]) == Some(a) && forall|j: int|
            0 <= j < i ==> (#[trigger] f(content[j])) is None;
    assert(content[i] == a);
    let k = kind_of(a)->Some_0;
    let p = kind_pred(k);
    lemma_index_where(content, p);
    assert(p(content[i]));
    match index_where(content, p) {
        Some(x) => {
            if x < i {
                assert(f(content[x]) is None);
            }
        },
        None => {},
    }
}

/// Operands and operators read as entries and written back as items are
/// unchanged.
proof fn lemma_operands_round_trip(s: Seq<MathItemView>)
    requires
        forall|i: int| 0 <= i < s.len() ==> !(#[trigger] s[i] is AncillaryDataSet),
    ensures
        rpn_entries_of(s).map_values(|e: RpnOperationEntry<Seq<char>>| item_of_entry(e)) == s,
    decreases s.len(),
{
    if s.len() == 0 {
        assert(rpn_entries_of(s) =~= Seq::<RpnOperationEntry<Seq<char>>>::empty());
        assert(rpn_entries_of(s).map_values(|e: RpnOperationEntry<Seq<char>>| item_of_entry(e))
            =~= s);
    } else {
        let t = s.drop_last();
        assert forall|i: int| 0 <= i < t.len() implies !(#[trigger] t[i] is AncillaryDataSet) by {
            assert(t[i] == s[i]);
        }
        lemma_operands_round_trip(t);
        assert(!(s[s.len() - 1] is AncillaryDataSet));
        let x = s.last();
        assert(entry_of_item(x) is Some);
        assert(item_of_entry(entry_of_item(x)->Some_0) == x);
        assert(rpn_entries_of(s) == rpn_entries_of(t).push(entry_of_item(x)->Some_0));
        assert(rpn_entries_of(s).map_values(|e: RpnOperationEntry<Seq<char>>| item_of_entry(e))
            =~= rpn_entries_of(t).map_values(|e: RpnOperationEntry<Seq<char>>| item_of_entry(e)).push(
            x,
        ));
        assert(t.push(x) =~= s);
    }
}

proof fn lemma_math_round_trip(m: Seq<MathItemView>)
    requires
        forall|i: int| 0 < i < m.len() ==> !(#[trigger] m[i] is AncillaryDataSet),
    ensures
        (match first_some(m, |c: MathItemView| math_ancillary(c)) {
            Some(a) => seq![a],
            None => Seq::empty(),
        }) + rpn_entries_of(m).map_values(|e: RpnOperationEntry<Seq<char>>| item_of_entry(e)) == m,
{
    let f = |c: MathItemView| math_ancillary(c);
    if m.len() > 0 && m[0] is AncillaryDataSet {
        let rest = m.drop_first();
        assert forall|i: int| 0 <= i < rest.len() implies !(#[trigger] rest[i] is AncillaryDataSet) by {
            assert(rest[i] == m[i + 1]);
        }
        lemma_operands_round_trip(rest);
        assert(m =~= seq![m[0]] + rest);
        crate::text::lemma_filter_map_concat(seq![m[0]], rest, f);
        crate::text::lemma_filter_map_single(m[0], f);
        crate::text::lemma_filter_map_concat(seq![m[0]], rest, item_reader());
        crate::text::lemma_filter_map_single(m[0], item_reader());
        assert(rpn_entries_of(m) =~= rpn_entries_of(rest));
        assert(first_some(m, f) == Some(m[0]));
    } else {
        assert forall|i: int| 0 <= i < m.len() implies !(#[trigger] m[i] is AncillaryDataSet) by {}
        lemma_operands_round_trip(m);
        crate::text::lemma_first_some_index(m, f);
        if first_some(m, f) is Some {
            let y = first_some(m, f)->Some_0;
            let i = choose|i: int|
                0 <= i < m.len() && f(m[i]) == Some(y) && forall|j: int|
                    0 <= j < i ==> (#[trigger] f(m[j])) is None;
            assert(m[i] is AncillaryDataSet);
        }
        assert(Seq::<MathItemView>::empty() + m =~= m);
    }
}

/// Showing a calibrator in the form and applying the form back leaves the
/// calibrator unchanged, when it is clean (see [`clean_calibrator`]).
pub proof fn lemma_calibrator_round_trip(c: CalibratorView, required: bool)
    requires
        clean_calibrator(c),
    ensures
        applied_calibrator(values_of(Some(c)), true, required, Some(c)) == Some(c),
{
    let v = values_of(Some(c));
    crate::fields::lemma_optional_back(c.name);
    crate::fields::lemma_optional_back(c.short_description);
    lemma_first_algorithm_found(c.content);
    let a = first_algorithm(c.content)->Some_0;
    let i = index_where(c.content, kind_pred(kind_of(a)->Some_0))->Some_0;
    match a {
        ContentView::Polynomial(p) => {
            let rows = p.term.map_values(|t: Term<Seq<char>>| term_row(t));
            assert(v.rows == rows);
            assert forall|k: int| 0 <= k < rows.len() implies term_reader()(#[trigger] rows[k])
                == Some(p.term[k]) by {
                let t = p.term[k];
                assert(clean_number(t.coefficient));
                crate::text::lemma_trim_trimmed(t.coefficient);
                crate::number::lemma_u64_round_trip(t.exponent);
                crate::text::lemma_trim_trimmed(int_text(t.exponent as int));
            }
            crate::text::lemma_filter_map_all(rows, term_reader(), p.term);
            assert(polynomial_terms(v.rows) == p.term);
            assert(c.content.update(i, ContentView::Polynomial(PolynomialView { term: p.term, ..p }))
                =~= c.content);
        },
        ContentView::Spline(s) => {
            let rows = s.spline_point.map_values(|p: SplinePoint<Seq<char>>| point_row(p));
            assert(v.rows == rows);
            assert forall|k: int| 0 <= k < rows.len() implies point_reader()(#[trigger] rows[k])
                == Some(s.spline_point[k]) by {
                let p = s.spline_point[k];
                assert(clean_number(p.raw) && clean_number(p.calibrated));
                crate::text::lemma_trim_trimmed(p.raw);
                crate::text::lemma_trim_trimmed(p.calibrated);
                crate::number::lemma_u64_round_trip(p.order);
                crate::text::lemma_trim_trimmed(int_text(p.order as int));
            }
            crate::text::lemma_filter_map_all(rows, point_reader(), s.spline_point);
            crate::number::lemma_u64_round_trip(s.order);
            crate::text::lemma_trim_trimmed(int_text(s.order as int));
            assert(spline_order(v.order) == s.order);
            assert(c.content.update(
                i,
                ContentView::Spline(
                    SplineView {
                        order: s.order,
                        extrapolate: s.extrapolate,
                        spline_point: s.spline_point,
                        ..s
                    },
                ),
            ) =~= c.content);
        },
        ContentView::MathOperation(m) => {
            lemma_math_round_trip(m.content);
            assert(c.content.update(i, ContentView::MathOperation(MathView { content: m.content, ..m }))
                =~= c.content);
        },
        ContentView::AncillaryDataSet(_) => {},
    }
}

/// The preview of a polynomial ends with the term of its last row, when
/// that row's coefficient and exponent are not blank: `(c)` for exponent
/// 0, `(c)·x` for 1, `(c)·x^e` otherwise, the exponent written out; a
/// polynomial of that one row previews as `y = ` and the term.
pub proof fn lemma_polynomial_preview(v: ValuesView)
    requires
        v.kind == CalibratorKind::Polynomial,
        v.rows.len() > 0,
        trim(v.rows.last().first).len() > 0,
        trim(v.rows.last().second).len() > 0,
    ensures
        ({
            let c = trim(v.rows.last().first);
            let e = trim(v.rows.last().second);
            let t = if e == seq!['0'] {
                seq!['('] + c + seq![')']
            } else if e == seq!['1'] {
                seq!['('] + c + seq![')', '·', 'x']
            } else {
                seq!['('] + c + seq![')', '·', 'x', '^'] + e
            };
            let f = formula_of(v);
            &&& f.len() >= t.len()
            &&& f.subrange(f.len() - t.len(), f.len() as int) == t
            &&& (v.rows.len() == 1 ==> f == seq!['y', ' ', '=', ' '] + t)
        }),
{
    let c = trim(v.rows.last().first);
    let e = trim(v.rows.last().second);
    let t = term_text(c, e);
    let fp = |r: RowView| term_preview(r);
    let items = filter_map(v.rows.drop_last(), fp);
    let all = filter_map(v.rows, fp);
    assert(all == items.push(t));
    let sep = seq![' ', '+', ' '];
    let head = seq!['y', ' ', '=', ' '];
    if items.len() == 0 {
        assert(all =~= seq![t]);
        assert(join(all, sep) == t);
        assert(formula_of(v) == head + t);
    } else {
        assert(all.drop_last() =~= items);
        assert(join(all, sep) == join(items, sep) + sep + t);
        assert(formula_of(v) =~= (head + join(items, sep) + sep) + t);
    }
    let f = formula_of(v);
    assert(f.subrange(f.len() - t.len(), f.len() as int) =~= t);
    if v.rows.len() == 1 {
        assert(v.rows.drop_last() =~= Seq::<RowView>::empty());
        assert(items =~= Seq::<Seq<char>>::empty());
    }
}

} // verus!

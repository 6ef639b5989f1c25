//! Discrete lookup lists: a value chosen by the first entry whose criteria
//! hold, else a default, as the lookup list form shows and applies them.
use vstd::prelude::*;
use crate::algorithm::{InputAlgorithm, InputAlgorithmView};
use crate::boolean::{BooleanExpression, ComparisonOperator, ExpressionView, operator_of_text, operator_text};
use crate::choice::Choice;
use crate::fields::{integer, integer_of};
use crate::number::int_text;
use crate::text::{is_space, is_trimmed, string_of};

verus! {

/// What decides that an entry of a lookup list applies.
#[derive(Clone, Copy, Debug, PartialEq, Eq, Structural)]
pub enum CriteriaKind {
    Comparison,
    ComparisonList,
    BooleanExpression,
    CustomAlgorithm,
}

impl Choice for CriteriaKind {
    open spec fn label_of(c: CriteriaKind) -> Seq<char> {
        match c {
            CriteriaKind::Comparison => seq!['C', 'o', 'm', 'p', 'a', 'r', 'i', 's', 'o', 'n'],
            CriteriaKind::ComparisonList => seq!['C', 'o', 'm', 'p', 'a', 'r', 'i', 's', 'o', 'n', 'L', 'i', 's', 't'],
            CriteriaKind::BooleanExpression => seq!['B', 'o', 'o', 'l', 'e', 'a', 'n', 'E', 'x', 'p', 'r', 'e', 's', 's', 'i', 'o', 'n'],
            CriteriaKind::CustomAlgorithm => seq!['C', 'u', 's', 't', 'o', 'm', 'A', 'l', 'g', 'o', 'r', 'i', 't', 'h', 'm'],
        }
    }

    open spec fn variants() -> Seq<CriteriaKind> {
        seq![CriteriaKind::Comparison, CriteriaKind::ComparisonList, CriteriaKind::BooleanExpression, CriteriaKind::CustomAlgorithm]
    }

    fn variant_list() -> (r: Vec<CriteriaKind>) {
        let r = vec![CriteriaKind::Comparison, CriteriaKind::ComparisonList, CriteriaKind::BooleanExpression, CriteriaKind::CustomAlgorithm];
        assert(r@ =~= Self::variants());
        r
    }

    fn label_chars(self) -> (r: Vec<char>) {
        let r = match self {
            CriteriaKind::Comparison => vec!['C', 'o', 'm', 'p', 'a', 'r', 'i', 's', 'o', 'n'],
            CriteriaKind::ComparisonList => vec!['C', 'o', 'm', 'p', 'a', 'r', 'i', 's', 'o', 'n', 'L', 'i', 's', 't'],
            CriteriaKind::BooleanExpression => vec!['B', 'o', 'o', 'l', 'e', 'a', 'n', 'E', 'x', 'p', 'r', 'e', 's', 's', 'i', 'o', 'n'],
            CriteriaKind::CustomAlgorithm => vec!['C', 'u', 's', 't', 'o', 'm', 'A', 'l', 'g', 'o', 'r', 'i', 't', 'h', 'm'],
        };
        assert(r@ =~= Self::label_of(self));
        r
    }

    proof fn lemma_choice() {
        assert forall|c: CriteriaKind| Self::variants().contains(c) by {
            match c {
                CriteriaKind::Comparison => { assert(Self::variants()[0] == c); },
                CriteriaKind::ComparisonList => { assert(Self::variants()[1] == c); },
                CriteriaKind::BooleanExpression => { assert(Self::variants()[2] == c); },
                CriteriaKind::CustomAlgorithm => { assert(Self::variants()[3] == c); },
            }
        }
        assert forall|a: CriteriaKind, b: CriteriaKind| Self::label_of(a) == Self::label_of(b) implies a == b by {
            match (a, b) {
                (CriteriaKind::Comparison, CriteriaKind::ComparisonList) => { assert(Self::label_of(a).len() != Self::label_of(b).len()); },
                (CriteriaKind::Comparison, CriteriaKind::BooleanExpression) => { assert(Self::label_of(a).len() != Self::label_of(b).len()); },
                (CriteriaKind::Comparison, CriteriaKind::CustomAlgorithm) => { assert(Self::label_of(a).len() != Self::label_of(b).len()); },
                (CriteriaKind::ComparisonList, CriteriaKind::Comparison) => { assert(Self::label_of(a).len() != Self::label_of(b).len()); },
                (CriteriaKind::ComparisonList, CriteriaKind::BooleanExpression) => { assert(Self::label_of(a).len() != Self::label_of(b).len()); },
                (CriteriaKind::ComparisonList, CriteriaKind::CustomAlgorithm) => { assert(Self::label_of(a).len() != Self::label_of(b).len()); },
                (CriteriaKind::BooleanExpression, CriteriaKind::Comparison) => { assert(Self::label_of(a).len() != Self::label_of(b).len()); },
                (CriteriaKind::BooleanExpression, CriteriaKind::ComparisonList) => { assert(Self::label_of(a).len() != Self::label_of(b).len()); },
                (CriteriaKind::BooleanExpression, CriteriaKind::CustomAlgorithm) => { assert(Self::label_of(a).len() != Self::label_of(b).len()); },
                (CriteriaKind::CustomAlgorithm, CriteriaKind::Comparison) => { assert(Self::label_of(a).len() != Self::label_of(b).len()); },
                (CriteriaKind::CustomAlgorithm, CriteriaKind::ComparisonList) => { assert(Self::label_of(a).len() != Self::label_of(b).len()); },
                (CriteriaKind::CustomAlgorithm, CriteriaKind::BooleanExpression) => { assert(Self::label_of(a).len() != Self::label_of(b).len()); },
                _ => {},
            }
        }
        assert forall|c: CriteriaKind| is_trimmed(#[trigger] Self::label_of(c)) && Self::label_of(c).len() > 0 by {
            let l = Self::label_of(c);
            assert(!is_space(l[0]) && !is_space(l[l.len() - 1]));
        }
    }
}

/// Whether a comparison reads the calibrated or the raw value.
#[derive(Clone, Copy, Debug, PartialEq, Eq, Structural)]
pub enum CalibratedChoice {
    Calibrated,
    Raw,
}

impl Choice for CalibratedChoice {
    open spec fn label_of(c: CalibratedChoice) -> Seq<char> {
        match c {
            CalibratedChoice::Calibrated => seq!['C', 'a', 'l', 'i', 'b', 'r', 'a', 't', 'e', 'd'],
            CalibratedChoice::Raw => seq!['R', 'a', 'w'],
        }
    }

    open spec fn variants() -> Seq<CalibratedChoice> {
        seq![CalibratedChoice::Calibrated, CalibratedChoice::Raw]
    }

    fn variant_list() -> (r: Vec<CalibratedChoice>) {
        let r = vec![CalibratedChoice::Calibrated, CalibratedChoice::Raw];
        assert(r@ =~= Self::variants());
        r
    }

    fn label_chars(self) -> (r: Vec<char>) {
        let r = match self {
            CalibratedChoice::Calibrated => vec!['C', 'a', 'l', 'i', 'b', 'r', 'a', 't', 'e', 'd'],
            CalibratedChoice::Raw => vec!['R', 'a', 'w'],
        };
        assert(r@ =~= Self::label_of(self));
        r
    }

    proof fn lemma_choice() {
        assert forall|c: CalibratedChoice| Self::variants().contains(c) by {
            match c {
                CalibratedChoice::Calibrated => { assert(Self::variants()[0] == c); },
                CalibratedChoice::Raw => { assert(Self::variants()[1] == c); },
            }
        }
        assert forall|a: CalibratedChoice, b: CalibratedChoice| Self::label_of(a) == Self::label_of(b) implies a == b by {
            match (a, b) {
                (CalibratedChoice::Calibrated, CalibratedChoice::Raw) => { assert(Self::label_of(a).len() != Self::label_of(b).len()); },
                (CalibratedChoice::Raw, CalibratedChoice::Calibrated) => { assert(Self::label_of(a).len() != Self::label_of(b).len()); },
                _ => {},
            }
        }
        assert forall|c: CalibratedChoice| is_trimmed(#[trigger] Self::label_of(c)) && Self::label_of(c).len() > 0 by {
            let l = Self::label_of(c);
            assert(!is_space(l[0]) && !is_space(l[l.len() - 1]));
        }
    }
}

/// A comparison of an instance of a parameter with a value.
#[derive(Debug)]
pub struct Comparison {
    pub parameter_ref: String,
    pub instance: i64,
    pub use_calibrated_value: bool,
    pub comparison_operator: String,
    pub value: String,
}

/// The value of a [`Comparison`].
pub struct ComparisonView {
    pub parameter_ref: Seq<char>,
    pub instance: i64,
    pub use_calibrated_value: bool,
    pub comparison_operator: Seq<char>,
    pub value: Seq<char>,
}

impl View for Comparison {
    type V = ComparisonView;

    open spec fn view(&self) -> ComparisonView {
        ComparisonView {
            parameter_ref: self.parameter_ref@,
            instance: self.instance,
            use_calibrated_value: self.use_calibrated_value,
            comparison_operator: self.comparison_operator@,
            value: self.value@,
        }
    }
}

/// The values of a list of comparisons.
pub open spec fn comparisons_view(v: Seq<Comparison>) -> Seq<ComparisonView> {
    v.map_values(|c: Comparison| c@)
}

/// A new comparison: of instance 0 of a calibrated value, for equality
/// (the schema's defaults), with no parameter and no value.
pub open spec fn new_comparison() -> ComparisonView {
    ComparisonView {
        parameter_ref: Seq::empty(),
        instance: 0,
        use_calibrated_value: true,
        comparison_operator: seq!['=', '='],
        value: Seq::empty(),
    }
}

/// A new comparison (see [`new_comparison`]).
pub fn default_comparison() -> (r: Comparison)
    ensures
        r@ == new_comparison(),
{
    let eq = vec!['=', '='];
    assert(eq@ =~= seq!['=', '=']);
    Comparison {
        parameter_ref: String::new(),
        instance: 0,
        use_calibrated_value: true,
        comparison_operator: string_of(&eq),
        value: String::new(),
    }
}

/// The texts and choices of a comparison row.
#[derive(Debug)]
pub struct ComparisonValues {
    pub parameter_ref: String,
    pub instance: String,
    pub calibrated: CalibratedChoice,
    pub operator: ComparisonOperator,
    pub value: String,
}

/// The value of [`ComparisonValues`].
pub struct ComparisonValuesView {
    pub parameter_ref: Seq<char>,
    pub instance: Seq<char>,
    pub calibrated: CalibratedChoice,
    pub operator: ComparisonOperator,
    pub value: Seq<char>,
}

impl View for ComparisonValues {
    type V = ComparisonValuesView;

    open spec fn view(&self) -> ComparisonValuesView {
        ComparisonValuesView {
            parameter_ref: self.parameter_ref@,
            instance: self.instance@,
            calibrated: self.calibrated,
            operator: self.operator,
            value: self.value@,
        }
    }
}

/// What a row shows for a comparison: an operator text that is not one of
/// the other five shows as `==`.
pub open spec fn comparison_values_of(c: ComparisonView) -> ComparisonValuesView {
    ComparisonValuesView {
        parameter_ref: c.parameter_ref,
        instance: int_text(c.instance as int),
        calibrated: if c.use_calibrated_value {
            CalibratedChoice::Calibrated
        } else {
            CalibratedChoice::Raw
        },
        operator: match operator_of_text(c.comparison_operator) {
            Some(op) => op,
            None => ComparisonOperator::Equal,
        },
        value: c.value,
    }
}

/// What a row shows for a comparison (see [`comparison_values_of`]).
pub fn comparison_values(c: &Comparison) -> (r: ComparisonValues)
    ensures
        r@ == comparison_values_of(c@),
{
    ComparisonValues {
        parameter_ref: c.parameter_ref.clone(),
        instance: string_of(&crate::number::i64_text(c.instance)),
        calibrated: if c.use_calibrated_value {
            CalibratedChoice::Calibrated
        } else {
            CalibratedChoice::Raw
        },
        operator: ComparisonOperator::from_text(c.comparison_operator.as_str()),
        value: c.value.clone(),
    }
}

/// The comparison a row gives: the parameter and value as they are, the
/// instance read from its trimmed text (0 otherwise), the operator's text.
pub open spec fn comparison_of(v: ComparisonValuesView) -> ComparisonView {
    ComparisonView {
        parameter_ref: v.parameter_ref,
        instance: integer_of(v.instance),
        use_calibrated_value: v.calibrated == CalibratedChoice::Calibrated,
        comparison_operator: operator_text(v.operator),
        value: v.value,
    }
}

/// The comparison a row gives (see [`comparison_of`]).
pub fn comparison(v: &ComparisonValues) -> (r: Comparison)
    ensures
        r@ == comparison_of(v@),
{
    Comparison {
        parameter_ref: v.parameter_ref.clone(),
        instance: integer(&v.instance),
        use_calibrated_value: v.calibrated == CalibratedChoice::Calibrated,
        comparison_operator: v.operator.text(),
        value: v.value.clone(),
    }
}

/// What a row shows for a comparison gives it back, when its operator is
/// one of the six XTCE operators.
pub proof fn lemma_comparison_round_trip(c: ComparisonView)
    requires
        operator_of_text(c.comparison_operator) is Some,
    ensures
        comparison_of(comparison_values_of(c)) == c,
{
    crate::number::lemma_i64_round_trip(c.instance);
    crate::text::lemma_trim_trimmed(int_text(c.instance as int));
    let op = operator_of_text(c.comparison_operator)->0;
    assert(operator_text(op) == c.comparison_operator);
}

/// What decides that an entry of a lookup list applies.
#[derive(Debug)]
pub enum LookupCriteria {
    Comparison(Comparison),
    ComparisonList(Vec<Comparison>),
    BooleanExpression(BooleanExpression),
    CustomAlgorithm(InputAlgorithm),
}

/// The value of [`LookupCriteria`].
pub enum LookupCriteriaView {
    Comparison(ComparisonView),
    ComparisonList(Seq<ComparisonView>),
    BooleanExpression(ExpressionView),
    CustomAlgorithm(InputAlgorithmView),
}

impl View for LookupCriteria {
    type V = LookupCriteriaView;

    open spec fn view(&self) -> LookupCriteriaView {
        match self {
            LookupCriteria::Comparison(c) => LookupCriteriaView::Comparison(c@),
            LookupCriteria::ComparisonList(v) => LookupCriteriaView::ComparisonList(
                comparisons_view(v@),
            ),
            LookupCriteria::BooleanExpression(e) => LookupCriteriaView::BooleanExpression(e@),
            LookupCriteria::CustomAlgorithm(a) => LookupCriteriaView::CustomAlgorithm(a@),
        }
    }
}

/// An entry of a lookup list: its value and its criteria.
#[derive(Debug)]
pub struct DiscreteLookup {
    pub value: i64,
    pub criteria: LookupCriteria,
}

/// The value of a [`DiscreteLookup`].
pub struct DiscreteLookupView {
    pub value: i64,
    pub criteria: LookupCriteriaView,
}

impl View for DiscreteLookup {
    type V = DiscreteLookupView;

    open spec fn view(&self) -> DiscreteLookupView {
        DiscreteLookupView { value: self.value, criteria: self.criteria@ }
    }
}

/// The kind of an entry's criteria.
pub open spec fn criteria_kind_of(c: LookupCriteriaView) -> CriteriaKind {
    match c {
        LookupCriteriaView::Comparison(_) => CriteriaKind::Comparison,
        LookupCriteriaView::ComparisonList(_) => CriteriaKind::ComparisonList,
        LookupCriteriaView::BooleanExpression(_) => CriteriaKind::BooleanExpression,
        LookupCriteriaView::CustomAlgorithm(_) => CriteriaKind::CustomAlgorithm,
    }
}

/// The comparisons an entry's row lists: its comparison, or those of its
/// list; one new comparison when it has none.
pub open spec fn row_comparisons_of(c: LookupCriteriaView) -> Seq<ComparisonView> {
    match c {
        LookupCriteriaView::Comparison(x) => seq![x],
        LookupCriteriaView::ComparisonList(v) => if v.len() == 0 {
            seq![new_comparison()]
        } else {
            v
        },
        _ => seq![new_comparison()],
    }
}

/// The entry a row gives: its value read from the trimmed text (0
/// otherwise) and the criteria of its kind: the first comparison (a new
/// one when there is none), all of them, or the expression or algorithm of
/// its sub-forms.
pub open spec fn lookup_of_row(
    value: Seq<char>,
    kind: CriteriaKind,
    comparisons: Seq<ComparisonView>,
    expression: ExpressionView,
    algorithm: InputAlgorithmView,
) -> DiscreteLookupView {
    DiscreteLookupView {
        value: integer_of(value),
        criteria: match kind {
            CriteriaKind::Comparison => LookupCriteriaView::Comparison(
                if comparisons.len() > 0 {
                    comparisons[0]
                } else {
                    new_comparison()
                },
            ),
            CriteriaKind::ComparisonList => LookupCriteriaView::ComparisonList(comparisons),
            CriteriaKind::BooleanExpression => LookupCriteriaView::BooleanExpression(expression),
            CriteriaKind::CustomAlgorithm => LookupCriteriaView::CustomAlgorithm(algorithm),
        },
    }
}

/// The entry a row gives (see [`lookup_of_row`]).
pub fn lookup_row_value(
    value: &String,
    kind: CriteriaKind,
    comparisons: Vec<Comparison>,
    expression: BooleanExpression,
    algorithm: InputAlgorithm,
) -> (r: DiscreteLookup)
    ensures
        r@ == lookup_of_row(value@, kind, comparisons_view(comparisons@), expression@, algorithm@),
{
    let mut comparisons = comparisons;
    let criteria = match kind {
        CriteriaKind::Comparison => LookupCriteria::Comparison(
            if comparisons.len() > 0 {
                comparisons.remove(0)
            } else {
                default_comparison()
            },
        ),
        CriteriaKind::ComparisonList => LookupCriteria::ComparisonList(comparisons),
        CriteriaKind::BooleanExpression => LookupCriteria::BooleanExpression(expression),
        CriteriaKind::CustomAlgorithm => LookupCriteria::CustomAlgorithm(algorithm),
    };
    DiscreteLookup { value: integer(value), criteria }
}

/// A lookup list: its entries and the value when none applies.
#[derive(Debug)]
pub struct DiscreteLookupList {
    pub default_value: i64,
    pub discrete_lookup: Vec<DiscreteLookup>,
}

/// The value of a [`DiscreteLookupList`].
pub struct DiscreteLookupListView {
    pub default_value: i64,
    pub discrete_lookup: Seq<DiscreteLookupView>,
}

/// The values of a list of lookup entries.
pub open spec fn lookups_view(v: Seq<DiscreteLookup>) -> Seq<DiscreteLookupView> {
    v.map_values(|d: DiscreteLookup| d@)
}

impl View for DiscreteLookupList {
    type V = DiscreteLookupListView;

    open spec fn view(&self) -> DiscreteLookupListView {
        DiscreteLookupListView {
            default_value: self.default_value,
            discrete_lookup: lookups_view(self.discrete_lookup@),
        }
    }
}

/// The default value's text the form shows: that of the list, or `0`.
pub open spec fn default_value_text(l: Option<i64>) -> Seq<char> {
    match l {
        Some(n) => int_text(n as int),
        None => int_text(0),
    }
}

/// The default value's text the form shows (see [`default_value_text`]).
pub fn default_value_of(l: Option<&DiscreteLookupList>) -> (r: String)
    ensures
        r@ == default_value_text(
            match l {
                Some(l) => Some(l.default_value),
                None => None,
            },
        ),
{
    string_of(
        &crate::number::i64_text(
            match l {
                Some(l) => l.default_value,
                None => 0,
            },
        ),
    )
}

/// The default value the form shows reads back as the list's own.
pub proof fn lemma_default_value_round_trip(n: i64)
    ensures
        integer_of(default_value_text(Some(n))) == n,
        integer_of(default_value_text(None)) == 0,
{
    crate::number::lemma_i64_round_trip(n);
    crate::text::lemma_trim_trimmed(int_text(n as int));
    crate::number::lemma_i64_round_trip(0);
    crate::text::lemma_trim_trimmed(int_text(0));
}

/// The lookup list the form gives: the default value read from its
/// trimmed text (0 otherwise) and the entries of its rows.
pub fn lookup_list(default_value: &String, rows: Vec<DiscreteLookup>) -> (r: DiscreteLookupList)
    ensures
        r.default_value == integer_of(default_value@),
        r.discrete_lookup@ == rows@,
{
    DiscreteLookupList { default_value: integer(default_value), discrete_lookup: rows }
}

/// The values of a list of comparison rows.
pub open spec fn comparison_rows_view(v: Seq<ComparisonValues>) -> Seq<ComparisonValuesView> {
    v.map_values(|c: ComparisonValues| c@)
}

/// What a row shows for an entry: its value's text, the kind of its
/// criteria and a row for each comparison it lists (see
/// [`row_comparisons_of`]).
pub open spec fn lookup_row_of(d: DiscreteLookupView) -> (
    Seq<char>,
    CriteriaKind,
    Seq<ComparisonValuesView>,
) {
    (
        int_text(d.value as int),
        criteria_kind_of(d.criteria),
        row_comparisons_of(d.criteria).map_values(|c: ComparisonView| comparison_values_of(c)),
    )
}

fn comparison_rows(v: &Vec<Comparison>) -> (r: Vec<ComparisonValues>)
    ensures
        comparison_rows_view(r@) == comparisons_view(v@).map_values(
            |c: ComparisonView| comparison_values_of(c),
        ),
{
    let mut r: Vec<ComparisonValues> = Vec::new();
    let mut i: usize = 0;
    while i < v.len()
        invariant
            i <= v.len(),
            r@.len() == i,
            forall|j: int| 0 <= j < i ==> (#[trigger] r@[j])@ == comparison_values_of(v@[j]@),
        decreases v.len() - i,
    {
        r.push(comparison_values(&v[i]));
        i = i + 1;
    }
    assert(comparison_rows_view(r@) =~= comparisons_view(v@).map_values(
        |c: ComparisonView| comparison_values_of(c),
    ));
    r
}

/// What a row shows for an entry (see [`lookup_row_of`]).
pub fn lookup_row(d: &DiscreteLookup) -> (r: (String, CriteriaKind, Vec<ComparisonValues>))
    ensures
        (r.0@, r.1, comparison_rows_view(r.2@)) == lookup_row_of(d@),
{
    let value = string_of(&crate::number::i64_text(d.value));
    let new_row = || -> (r: Vec<ComparisonValues>)
        ensures
            comparison_rows_view(r@) == seq![comparison_values_of(new_comparison())],
    {
        let r = vec![comparison_values(&default_comparison())];
        assert(comparison_rows_view(r@) =~= seq![comparison_values_of(new_comparison())]);
        r
    };
    match &d.criteria {
        LookupCriteria::Comparison(c) => {
            let r = vec![comparison_values(c)];
            assert(comparison_rows_view(r@) =~= lookup_row_of(d@).2);
            (value, CriteriaKind::Comparison, r)
        },
        LookupCriteria::ComparisonList(v) => {
            if v.len() == 0 {
                let r = new_row();
                assert(comparison_rows_view(r@) =~= lookup_row_of(d@).2);
                (value, CriteriaKind::ComparisonList, r)
            } else {
                (value, CriteriaKind::ComparisonList, comparison_rows(v))
            }
        },
        LookupCriteria::BooleanExpression(_) => {
            let r = new_row();
            assert(comparison_rows_view(r@) =~= lookup_row_of(d@).2);
            (value, CriteriaKind::BooleanExpression, r)
        },
        LookupCriteria::CustomAlgorithm(_) => {
            let r = new_row();
            assert(comparison_rows_view(r@) =~= lookup_row_of(d@).2);
            (value, CriteriaKind::CustomAlgorithm, r)
        },
    }
}

/// The comparisons a list of rows gives, one per row (see
/// [`comparison_of`]).
pub fn row_comparisons(rows: &Vec<ComparisonValues>) -> (r: Vec<Comparison>)
    ensures
        comparisons_view(r@) == comparison_rows_view(rows@).map_values(
            |v: ComparisonValuesView| comparison_of(v),
        ),
{
    let mut r: Vec<Comparison> = Vec::new();
    let mut i: usize = 0;
    while i < rows.len()
        invariant
            i <= rows.len(),
            r@.len() == i,
            forall|j: int| 0 <= j < i ==> (#[trigger] r@[j])@ == comparison_of(rows@[j]@),
        decreases rows.len() - i,
    {
        r.push(comparison(&rows[i]));
        i = i + 1;
    }
    assert(comparisons_view(r@) =~= comparison_rows_view(rows@).map_values(
        |v: ComparisonValuesView| comparison_of(v),
    ));
    r
}

/// Whether every comparison an entry's criteria hold has one of the six
/// XTCE operators.
pub open spec fn operators_known(c: LookupCriteriaView) -> bool {
    match c {
        LookupCriteriaView::Comparison(x) => operator_of_text(x.comparison_operator) is Some,
        LookupCriteriaView::ComparisonList(v) => forall|i: int|
            0 <= i < v.len() ==> (operator_of_text(#[trigger] v[i].comparison_operator) is Some),
        _ => true,
    }
}

/// The entry a row gives back is the entry the row shows, when each of
/// its comparisons has an XTCE operator and a comparison list is not
/// empty, and the expression or algorithm sub-form gives back the entry's
/// own.
pub proof fn lemma_lookup_row_round_trip(
    d: DiscreteLookupView,
    expression: ExpressionView,
    algorithm: InputAlgorithmView,
)
    requires
        operators_known(d.criteria),
        d.criteria matches LookupCriteriaView::ComparisonList(v) ==> v.len() > 0,
        d.criteria matches LookupCriteriaView::BooleanExpression(e) ==> e == expression,
        d.criteria matches LookupCriteriaView::CustomAlgorithm(a) ==> a == algorithm,
    ensures
        ({
            let (value, kind, rows) = lookup_row_of(d);
            lookup_of_row(
                value,
                kind,
                rows.map_values(|v: ComparisonValuesView| comparison_of(v)),
                expression,
                algorithm,
            )
        }) == d,
{
    let (value, kind, rows) = lookup_row_of(d);
    crate::number::lemma_i64_round_trip(d.value);
    crate::text::lemma_trim_trimmed(int_text(d.value as int));
    let back = rows.map_values(|v: ComparisonValuesView| comparison_of(v));
    match d.criteria {
        LookupCriteriaView::Comparison(x) => {
            lemma_comparison_round_trip(x);
            assert(back[0] == x);
        },
        LookupCriteriaView::ComparisonList(v) => {
            assert forall|i: int| 0 <= i < v.len() implies back[i] == v[i] by {
                assert(operator_of_text(v[i].comparison_operator) is Some);
                lemma_comparison_round_trip(v[i]);
            }
            assert(back =~= v);
        },
        _ => {},
    }
}

} // verus!

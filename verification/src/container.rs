//! Containers: the binary encoding of a container and its rates in
//! streams, as their forms show and apply them.
use vstd::prelude::*;
use crate::algorithm::{InputAlgorithm, InputAlgorithmView, opt_text, text_or_empty};
use crate::choice::Choice;
use crate::encoding::{IntegerValue, IntegerValueView, opt_algorithm, opt_checks};
use crate::errors::{ErrorCheck, ErrorCheckView};
use crate::fields::text_of;
use crate::number::{int_text, parse_u64, parse_u64_spec, u64_text};
use crate::stream::{decimal_of, optional_decimal};
use crate::text::{chars_of, filter_map, is_space, is_trimmed, string_of, trim, trim_chars};

verus! {

/// How the size of a container's binary encoding is given, if at all.
#[derive(Clone, Copy, Debug, PartialEq, Eq, Structural)]
pub enum SizeKind {
    NoSize,
    Fixed,
    Dynamic,
    DiscreteLookup,
}

impl Choice for SizeKind {
    open spec fn label_of(c: SizeKind) -> Seq<char> {
        match c {
            SizeKind::NoSize => seq!['N', 'o', 'n', 'e'],
            SizeKind::Fixed => seq!['F', 'i', 'x', 'e', 'd'],
            SizeKind::Dynamic => seq!['D', 'y', 'n', 'a', 'm', 'i', 'c'],
            SizeKind::DiscreteLookup => seq!['D', 'i', 's', 'c', 'r', 'e', 't', 'e', ' ', 'l', 'o', 'o', 'k', 'u', 'p'],
        }
    }

    open spec fn variants() -> Seq<SizeKind> {
        seq![SizeKind::NoSize, SizeKind::Fixed, SizeKind::Dynamic, SizeKind::DiscreteLookup]
    }

    fn variant_list() -> (r: Vec<SizeKind>) {
        let r = vec![SizeKind::NoSize, SizeKind::Fixed, SizeKind::Dynamic, SizeKind::DiscreteLookup];
        assert(r@ =~= Self::variants());
        r
    }

    fn label_chars(self) -> (r: Vec<char>) {
        let r = match self {
            SizeKind::NoSize => vec!['N', 'o', 'n', 'e'],
            SizeKind::Fixed => vec!['F', 'i', 'x', 'e', 'd'],
            SizeKind::Dynamic => vec!['D', 'y', 'n', 'a', 'm', 'i', 'c'],
            SizeKind::DiscreteLookup => vec!['D', 'i', 's', 'c', 'r', 'e', 't', 'e', ' ', 'l', 'o', 'o', 'k', 'u', 'p'],
        };
        assert(r@ =~= Self::label_of(self));
        r
    }

    proof fn lemma_choice() {
        assert forall|c: SizeKind| Self::variants().contains(c) by {
            match c {
                SizeKind::NoSize => { assert(Self::variants()[0] == c); },
                SizeKind::Fixed => { assert(Self::variants()[1] == c); },
                SizeKind::Dynamic => { assert(Self::variants()[2] == c); },
                SizeKind::DiscreteLookup => { assert(Self::variants()[3] == c); },
            }
        }
        assert forall|a: SizeKind, b: SizeKind| Self::label_of(a) == Self::label_of(b) implies a == b by {
            match (a, b) {
                (SizeKind::NoSize, SizeKind::Fixed) => { assert(Self::label_of(a).len() != Self::label_of(b).len()); },
                (SizeKind::NoSize, SizeKind::Dynamic) => { assert(Self::label_of(a).len() != Self::label_of(b).len()); },
                (SizeKind::NoSize, SizeKind::DiscreteLookup) => { assert(Self::label_of(a).len() != Self::label_of(b).len()); },
                (SizeKind::Fixed, SizeKind::NoSize) => { assert(Self::label_of(a).len() != Self::label_of(b).len()); },
                (SizeKind::Fixed, SizeKind::Dynamic) => { assert(Self::label_of(a).len() != Self::label_of(b).len()); },
                (SizeKind::Fixed, SizeKind::DiscreteLookup) => { assert(Self::label_of(a).len() != Self::label_of(b).len()); },
                (SizeKind::Dynamic, SizeKind::NoSize) => { assert(Self::label_of(a).len() != Self::label_of(b).len()); },
                (SizeKind::Dynamic, SizeKind::Fixed) => { assert(Self::label_of(a).len() != Self::label_of(b).len()); },
                (SizeKind::Dynamic, SizeKind::DiscreteLookup) => { assert(Self::label_of(a).len() != Self::label_of(b).len()); },
                (SizeKind::DiscreteLookup, SizeKind::NoSize) => { assert(Self::label_of(a).len() != Self::label_of(b).len()); },
                (SizeKind::DiscreteLookup, SizeKind::Fixed) => { assert(Self::label_of(a).len() != Self::label_of(b).len()); },
                (SizeKind::DiscreteLookup, SizeKind::Dynamic) => { assert(Self::label_of(a).len() != Self::label_of(b).len()); },
                _ => {},
            }
        }
        assert forall|c: SizeKind| is_trimmed(#[trigger] Self::label_of(c)) && Self::label_of(c).len() > 0 by {
            let l = Self::label_of(c);
            assert(!is_space(l[0]) && !is_space(l[l.len() - 1]));
        }
    }
}

/// What a container's rate is counted against.
#[derive(Clone, Copy, Debug, PartialEq, Eq, Structural)]
pub enum RateBasis {
    PerSecond,
    PerContainerUpdate,
}

impl Choice for RateBasis {
    open spec fn label_of(c: RateBasis) -> Seq<char> {
        match c {
            RateBasis::PerSecond => seq!['p', 'e', 'r', 'S', 'e', 'c', 'o', 'n', 'd'],
            RateBasis::PerContainerUpdate => seq!['p', 'e', 'r', 'C', 'o', 'n', 't', 'a', 'i', 'n', 'e', 'r', 'U', 'p', 'd', 'a', 't', 'e'],
        }
    }

    open spec fn variants() -> Seq<RateBasis> {
        seq![RateBasis::PerSecond, RateBasis::PerContainerUpdate]
    }

    fn variant_list() -> (r: Vec<RateBasis>) {
        let r = vec![RateBasis::PerSecond, RateBasis::PerContainerUpdate];
        assert(r@ =~= Self::variants());
        r
    }

    fn label_chars(self) -> (r: Vec<char>) {
        let r = match self {
            RateBasis::PerSecond => vec!['p', 'e', 'r', 'S', 'e', 'c', 'o', 'n', 'd'],
            RateBasis::PerContainerUpdate => vec!['p', 'e', 'r', 'C', 'o', 'n', 't', 'a', 'i', 'n', 'e', 'r', 'U', 'p', 'd', 'a', 't', 'e'],
        };
        assert(r@ =~= Self::label_of(self));
        r
    }

    proof fn lemma_choice() {
        assert forall|c: RateBasis| Self::variants().contains(c) by {
            match c {
                RateBasis::PerSecond => { assert(Self::variants()[0] == c); },
                RateBasis::PerContainerUpdate => { assert(Self::variants()[1] == c); },
            }
        }
        assert forall|a: RateBasis, b: RateBasis| Self::label_of(a) == Self::label_of(b) implies a == b by {
            match (a, b) {
                (RateBasis::PerSecond, RateBasis::PerContainerUpdate) => { assert(Self::label_of(a).len() != Self::label_of(b).len()); },
                (RateBasis::PerContainerUpdate, RateBasis::PerSecond) => { assert(Self::label_of(a).len() != Self::label_of(b).len()); },
                _ => {},
            }
        }
        assert forall|c: RateBasis| is_trimmed(#[trigger] Self::label_of(c)) && Self::label_of(c).len() > 0 by {
            let l = Self::label_of(c);
            assert(!is_space(l[0]) && !is_space(l[l.len() - 1]));
        }
    }
}

// ---------------------------------------------------------------------
// The binary encoding of a container
// ---------------------------------------------------------------------

/// The binary encoding of a container: an optional size, error detection
/// and transform algorithms.
#[derive(Debug)]
pub struct ContainerBinaryEncoding {
    pub error_detect_correct: Option<Vec<ErrorCheck>>,
    pub size_in_bits: Option<IntegerValue>,
    pub from_binary_transform_algorithm: Option<InputAlgorithm>,
    pub to_binary_transform_algorithm: Option<InputAlgorithm>,
}

/// The value of a [`ContainerBinaryEncoding`].
pub struct ContainerEncodingView {
    pub error_detect_correct: Option<Seq<ErrorCheckView>>,
    pub size_in_bits: Option<IntegerValueView>,
    pub from_binary_transform_algorithm: Option<InputAlgorithmView>,
    pub to_binary_transform_algorithm: Option<InputAlgorithmView>,
}

impl View for ContainerBinaryEncoding {
    type V = ContainerEncodingView;

    open spec fn view(&self) -> ContainerEncodingView {
        ContainerEncodingView {
            error_detect_correct: opt_checks(self.error_detect_correct),
            size_in_bits: match self.size_in_bits {
                Some(s) => Some(s@),
                None => None,
            },
            from_binary_transform_algorithm: opt_algorithm(self.from_binary_transform_algorithm),
            to_binary_transform_algorithm: opt_algorithm(self.to_binary_transform_algorithm),
        }
    }
}

/// What the container binary encoding form shows: how the size is given,
/// a fixed size's text, and whether there are transform algorithms.
#[derive(Debug)]
pub struct EncodingValues {
    pub size_kind: SizeKind,
    pub size_in_bits: String,
    pub from_transform_present: bool,
    pub to_transform_present: bool,
}

/// The value of [`EncodingValues`].
pub struct EncodingValuesView {
    pub size_kind: SizeKind,
    pub size_in_bits: Seq<char>,
    pub from_transform_present: bool,
    pub to_transform_present: bool,
}

impl View for EncodingValues {
    type V = EncodingValuesView;

    open spec fn view(&self) -> EncodingValuesView {
        EncodingValuesView {
            size_kind: self.size_kind,
            size_in_bits: self.size_in_bits@,
            from_transform_present: self.from_transform_present,
            to_transform_present: self.to_transform_present,
        }
    }
}

/// What the form shows for a container's binary encoding, or for none.
pub open spec fn encoding_values_of(e: Option<ContainerEncodingView>) -> EncodingValuesView {
    let size = match e {
        Some(e) => e.size_in_bits,
        None => None,
    };
    EncodingValuesView {
        size_kind: match size {
            None => SizeKind::NoSize,
            Some(IntegerValueView::FixedValue(_)) => SizeKind::Fixed,
            Some(IntegerValueView::DynamicValue(_)) => SizeKind::Dynamic,
            Some(IntegerValueView::DiscreteLookupList(_)) => SizeKind::DiscreteLookup,
        },
        size_in_bits: match size {
            Some(IntegerValueView::FixedValue(n)) => int_text(n as int),
            _ => Seq::empty(),
        },
        from_transform_present: match e {
            Some(e) => e.from_binary_transform_algorithm is Some,
            None => false,
        },
        to_transform_present: match e {
            Some(e) => e.to_binary_transform_algorithm is Some,
            None => false,
        },
    }
}

impl EncodingValues {
    /// What the form shows for a container's binary encoding (see
    /// [`encoding_values_of`]).
    pub fn from_encoding(e: Option<&ContainerBinaryEncoding>) -> (r: EncodingValues)
        ensures
            r@ == encoding_values_of(
                match e {
                    Some(e) => Some(e@),
                    None => None,
                },
            ),
    {
        let size = match e {
            Some(e) => e.size_in_bits.as_ref(),
            None => None,
        };
        EncodingValues {
            size_kind: match size {
                None => SizeKind::NoSize,
                Some(IntegerValue::FixedValue(_)) => SizeKind::Fixed,
                Some(IntegerValue::DynamicValue(_)) => SizeKind::Dynamic,
                Some(IntegerValue::DiscreteLookupList(_)) => SizeKind::DiscreteLookup,
            },
            size_in_bits: match size {
                Some(IntegerValue::FixedValue(n)) => string_of(&u64_text(*n)),
                _ => String::new(),
            },
            from_transform_present: match e {
                Some(e) => e.from_binary_transform_algorithm.is_some(),
                None => false,
            },
            to_transform_present: match e {
                Some(e) => e.to_binary_transform_algorithm.is_some(),
                None => false,
            },
        }
    }
}

/// The size the form gives: none, a fixed size when the trimmed text
/// reads as a number (else none), or the value of the dynamic or lookup
/// sub-form.
pub open spec fn size_of_form(
    kind: SizeKind,
    text: Seq<char>,
    dynamic: crate::dynamic::DynamicValueView,
    lookup: crate::lookup::DiscreteLookupListView,
) -> Option<IntegerValueView> {
    match kind {
        SizeKind::NoSize => None,
        SizeKind::Fixed => match parse_u64_spec(trim(text)) {
            Some(n) => Some(IntegerValueView::FixedValue(n)),
            None => None,
        },
        SizeKind::Dynamic => Some(IntegerValueView::DynamicValue(dynamic)),
        SizeKind::DiscreteLookup => Some(IntegerValueView::DiscreteLookupList(lookup)),
    }
}

/// A container's binary encoding after the form is applied: none when the
/// form has none; otherwise the size of the form (see [`size_of_form`]),
/// the error detection of its sub-form, and each transform algorithm of
/// its sub-form when the form has one.
pub open spec fn applied_container_encoding(
    present: bool,
    v: EncodingValuesView,
    dynamic: crate::dynamic::DynamicValueView,
    lookup: crate::lookup::DiscreteLookupListView,
    error: Option<Seq<ErrorCheckView>>,
    from_transform: InputAlgorithmView,
    to_transform: InputAlgorithmView,
) -> Option<ContainerEncodingView> {
    if !present {
        None
    } else {
        Some(
            ContainerEncodingView {
                error_detect_correct: error,
                size_in_bits: size_of_form(v.size_kind, v.size_in_bits, dynamic, lookup),
                from_binary_transform_algorithm: if v.from_transform_present {
                    Some(from_transform)
                } else {
                    None
                },
                to_binary_transform_algorithm: if v.to_transform_present {
                    Some(to_transform)
                } else {
                    None
                },
            },
        )
    }
}

/// Applies the container binary encoding form (see
/// [`applied_container_encoding`]); the sub-forms give the dynamic size,
/// the lookup list, the error detection and the transform
/// algorithms.
pub fn apply_container_encoding(
    present: bool,
    values: &EncodingValues,
    dynamic: crate::dynamic::DynamicValue,
    lookup: crate::lookup::DiscreteLookupList,
    error: Option<Vec<ErrorCheck>>,
    from_transform: InputAlgorithm,
    to_transform: InputAlgorithm,
    encoding: &mut Option<ContainerBinaryEncoding>,
)
    ensures
        match *final(encoding) {
            Some(e) => Some(e@),
            None => None,
        } == applied_container_encoding(
            present,
            values@,
            dynamic@,
            lookup@,
            opt_checks(error),
            from_transform@,
            to_transform@,
        ),
{
    if !present {
        *encoding = None;
        return;
    }
    let size = match values.size_kind {
        SizeKind::NoSize => None,
        SizeKind::Fixed => match parse_u64(&trim_chars(&chars_of(values.size_in_bits.as_str()))) {
            Some(n) => Some(IntegerValue::FixedValue(n)),
            None => None,
        },
        SizeKind::Dynamic => Some(IntegerValue::DynamicValue(dynamic)),
        SizeKind::DiscreteLookup => Some(IntegerValue::DiscreteLookupList(lookup)),
    };
    *encoding = Some(
        ContainerBinaryEncoding {
            error_detect_correct: error,
            size_in_bits: size,
            from_binary_transform_algorithm: if values.from_transform_present {
                Some(from_transform)
            } else {
                None
            },
            to_binary_transform_algorithm: if values.to_transform_present {
                Some(to_transform)
            } else {
                None
            },
        },
    );
}

// ---------------------------------------------------------------------
// Container rates
// ---------------------------------------------------------------------

/// How often a container occurs, against a basis, with optional bounds (as
/// the decimal texts that read as them).
#[derive(Debug)]
pub struct RateInStream {
    pub basis: RateBasis,
    pub minimum_value: Option<String>,
    pub maximum_value: Option<String>,
}

/// How often a container occurs in a named stream.
#[derive(Debug)]
pub struct StreamRate {
    pub basis: RateBasis,
    pub minimum_value: Option<String>,
    pub maximum_value: Option<String>,
    pub stream_ref: String,
}

/// The value of a rate: basis, bounds, and stream (empty for the default
/// rate).
pub struct RateView {
    pub basis: RateBasis,
    pub minimum_value: Option<Seq<char>>,
    pub maximum_value: Option<Seq<char>>,
    pub stream_ref: Seq<char>,
}

impl View for RateInStream {
    type V = RateView;

    open spec fn view(&self) -> RateView {
        RateView {
            basis: self.basis,
            minimum_value: opt_text(self.minimum_value),
            maximum_value: opt_text(self.maximum_value),
            stream_ref: Seq::empty(),
        }
    }
}

impl View for StreamRate {
    type V = RateView;

    open spec fn view(&self) -> RateView {
        RateView {
            basis: self.basis,
            minimum_value: opt_text(self.minimum_value),
            maximum_value: opt_text(self.maximum_value),
            stream_ref: self.stream_ref@,
        }
    }
}

/// The texts of one rate of the form.
#[derive(Debug)]
pub struct RateValues {
    pub stream_ref: String,
    pub basis: RateBasis,
    pub minimum: String,
    pub maximum: String,
}

/// The value of [`RateValues`].
pub struct RateValuesView {
    pub stream_ref: Seq<char>,
    pub basis: RateBasis,
    pub minimum: Seq<char>,
    pub maximum: Seq<char>,
}

impl View for RateValues {
    type V = RateValuesView;

    open spec fn view(&self) -> RateValuesView {
        RateValuesView {
            stream_ref: self.stream_ref@,
            basis: self.basis,
            minimum: self.minimum@,
            maximum: self.maximum@,
        }
    }
}

/// The texts of a rate: its stream, basis and bounds (empty when absent).
pub open spec fn rate_values_of(r: RateView) -> RateValuesView {
    RateValuesView {
        stream_ref: r.stream_ref,
        basis: r.basis,
        minimum: text_or_empty(r.minimum_value),
        maximum: text_or_empty(r.maximum_value),
    }
}

/// The texts of the default rate; per second with no bounds when there is
/// none.
pub open spec fn default_rate_values_of(r: Option<RateView>) -> RateValuesView {
    match r {
        Some(r) => rate_values_of(r),
        None => RateValuesView {
            stream_ref: Seq::empty(),
            basis: RateBasis::PerSecond,
            minimum: Seq::empty(),
            maximum: Seq::empty(),
        },
    }
}

impl RateValues {
    /// The texts of the default rate (see [`default_rate_values_of`]).
    pub fn from_default(rate: Option<&RateInStream>) -> (r: RateValues)
        ensures
            r@ == default_rate_values_of(
                match rate {
                    Some(r) => Some(r@),
                    None => None,
                },
            ),
    {
        match rate {
            Some(r) => RateValues {
                stream_ref: String::new(),
                basis: r.basis,
                minimum: text_of(&r.minimum_value),
                maximum: text_of(&r.maximum_value),
            },
            None => RateValues {
                stream_ref: String::new(),
                basis: RateBasis::PerSecond,
                minimum: String::new(),
                maximum: String::new(),
            },
        }
    }

    /// The texts of a rate in a stream (see [`rate_values_of`]).
    pub fn from_stream(rate: &StreamRate) -> (r: RateValues)
        ensures
            r@ == rate_values_of(rate@),
    {
        RateValues {
            stream_ref: rate.stream_ref.clone(),
            basis: rate.basis,
            minimum: text_of(&rate.minimum_value),
            maximum: text_of(&rate.maximum_value),
        }
    }
}

/// A bound of the form: the trimmed text when it reads as a number.
pub fn parse_number(value: &String) -> (r: Option<String>)
    ensures
        opt_text(r) == optional_decimal(value@),
{
    decimal_of(value)
}

/// A rate of the form's texts, with its bounds read as numbers.
pub open spec fn rate_of_values(v: RateValuesView) -> RateView {
    RateView {
        basis: v.basis,
        minimum_value: optional_decimal(v.minimum),
        maximum_value: optional_decimal(v.maximum),
        stream_ref: v.stream_ref,
    }
}

/// Keeps a row of the stream rates unless its stream is blank.
pub open spec fn stream_rate_of_row(v: RateValuesView) -> Option<RateView> {
    if trim(v.stream_ref).len() == 0 {
        None
    } else {
        Some(rate_of_values(v))
    }
}

/// The rates the form gives: the default rate when the form has one, and
/// the rates of the rows with a stream, present when there is one.
pub open spec fn applied_rates(
    default_present: bool,
    default: RateValuesView,
    rows: Seq<RateValuesView>,
) -> (Option<RateView>, Option<Seq<RateView>>) {
    let rates = filter_map(rows, |v: RateValuesView| stream_rate_of_row(v));
    (
        if default_present {
            Some(RateView { stream_ref: Seq::empty(), ..rate_of_values(default) })
        } else {
            None
        },
        if rates.len() == 0 {
            None
        } else {
            Some(rates)
        },
    )
}

/// The values of a list of rows.
pub open spec fn rows_view(v: Seq<RateValues>) -> Seq<RateValuesView> {
    v.map_values(|r: RateValues| r@)
}

/// The values of a list of stream rates.
pub open spec fn stream_rates_view(v: Seq<StreamRate>) -> Seq<RateView> {
    v.map_values(|r: StreamRate| r@)
}

/// Applies the container rate form (see [`applied_rates`]).
pub fn apply_rates(
    default_present: bool,
    default: &RateValues,
    rows: &Vec<RateValues>,
    default_rate: &mut Option<RateInStream>,
    rate_set: &mut Option<Vec<StreamRate>>,
)
    ensures
        (
            match *final(default_rate) {
                Some(r) => Some(r@),
                None => None,
            },
            match *final(rate_set) {
                Some(v) => Some(stream_rates_view(v@)),
                None => None,
            },
        ) == applied_rates(default_present, default@, rows_view(rows@)),
{
    *default_rate = if default_present {
        Some(
            RateInStream {
                basis: default.basis,
                minimum_value: parse_number(&default.minimum),
                maximum_value: parse_number(&default.maximum),
            },
        )
    } else {
        None
    };
    let ghost all = rows_view(rows@);
    let ghost f = |v: RateValuesView| stream_rate_of_row(v);
    let mut out: Vec<StreamRate> = Vec::new();
    let mut i: usize = 0;
    while i < rows.len()
        invariant
            i <= rows@.len(),
            all == rows_view(rows@),
            f == (|v: RateValuesView| stream_rate_of_row(v)),
            stream_rates_view(out@) == filter_map(all.take(i as int), f),
        decreases rows.len() - i,
    {
        let ghost before = out@;
        proof {
            assert(all.take(i + 1).drop_last() =~= all.take(i as int));
            assert(all.take(i + 1).last() == rows@[i as int]@);
        }
        let row = &rows[i];
        let t = trim_chars(&chars_of(row.stream_ref.as_str()));
        if t.len() > 0 {
            out.push(
                StreamRate {
                    basis: row.basis,
                    minimum_value: parse_number(&row.minimum),
                    maximum_value: parse_number(&row.maximum),
                    stream_ref: row.stream_ref.clone(),
                },
            );
            assert(stream_rates_view(out@) =~= stream_rates_view(before).push(out@.last()@));
        }
        i = i + 1;
    }
    assert(all.take(rows.len() as int) =~= all);
    *rate_set = if out.len() == 0 {
        None
    } else {
        Some(out)
    };
}

/// Applying the form to a container's binary encoding that it shows gives
/// the encoding back, when the sub-forms hold the encoding's own dynamic
/// size, lookup list, error detection and transform algorithms.
pub proof fn lemma_container_encoding_round_trip(
    e: Option<ContainerEncodingView>,
    dynamic: crate::dynamic::DynamicValueView,
    lookup: crate::lookup::DiscreteLookupListView,
    error: Option<Seq<ErrorCheckView>>,
    from_transform: InputAlgorithmView,
    to_transform: InputAlgorithmView,
)
    requires
        e matches Some(x) ==> {
            &&& x.size_in_bits matches Some(IntegerValueView::DynamicValue(d)) ==> d == dynamic
            &&& x.size_in_bits matches Some(IntegerValueView::DiscreteLookupList(l)) ==> l == lookup
            &&& error == x.error_detect_correct
            &&& x.from_binary_transform_algorithm matches Some(a) ==> a == from_transform
            &&& x.to_binary_transform_algorithm matches Some(a) ==> a == to_transform
        },
    ensures
        applied_container_encoding(
            e is Some,
            encoding_values_of(e),
            dynamic,
            lookup,
            error,
            from_transform,
            to_transform,
        ) == e,
{
    if let Some(x) = e {
        if let Some(IntegerValueView::FixedValue(n)) = x.size_in_bits {
            crate::number::lemma_u64_round_trip(n);
            crate::text::lemma_trim_trimmed(int_text(n as int));
        }
    }
}

/// Whether a bound is absent or the trimmed text of a number.
pub open spec fn clean_bound(o: Option<Seq<char>>) -> bool {
    match o {
        Some(t) => t.len() > 0 && is_trimmed(t) && crate::number::is_float_text(t),
        None => true,
    }
}

proof fn lemma_bound_back(o: Option<Seq<char>>)
    requires
        clean_bound(o),
    ensures
        optional_decimal(text_or_empty(o)) == o,
{
    match o {
        Some(t) => crate::text::lemma_trim_trimmed(t),
        None => crate::text::lemma_trim_trimmed(Seq::<char>::empty()),
    }
}

/// Applying the rate form to the rates it shows gives them back, when the
/// bounds are absent or trimmed numbers, every stream rate names a stream
/// (non-blank) and a present set of stream rates is not empty.
pub proof fn lemma_rates_round_trip(default: Option<RateView>, rates: Option<Seq<RateView>>)
    requires
        default matches Some(d) ==> d.stream_ref.len() == 0 && clean_bound(d.minimum_value)
            && clean_bound(d.maximum_value),
        rates matches Some(s) ==> s.len() > 0 && forall|i: int|
            0 <= i < s.len() ==> clean_bound(#[trigger] s[i].minimum_value) && clean_bound(
                s[i].maximum_value,
            ) && trim(s[i].stream_ref).len() > 0,
    ensures
        applied_rates(
            default is Some,
            default_rate_values_of(default),
            match rates {
                Some(s) => s.map_values(|r: RateView| rate_values_of(r)),
                None => Seq::empty(),
            },
        ) == (default, rates),
{
    if let Some(d) = default {
        lemma_bound_back(d.minimum_value);
        lemma_bound_back(d.maximum_value);
        assert(d.stream_ref =~= Seq::<char>::empty());
        assert(RateView { stream_ref: Seq::empty(), ..rate_of_values(default_rate_values_of(default)) } == d);
    }
    let f = |v: RateValuesView| stream_rate_of_row(v);
    match rates {
        Some(s) => {
            let rows = s.map_values(|r: RateView| rate_values_of(r));
            assert forall|i: int| 0 <= i < rows.len() implies f(#[trigger] rows[i]) == Some(s[i]) by {
                lemma_bound_back(s[i].minimum_value);
                lemma_bound_back(s[i].maximum_value);
            }
            crate::text::lemma_filter_map_all(rows, f, s);
        },
        None => {
            assert(filter_map(Seq::<RateValuesView>::empty(), f) =~= Seq::<RateView>::empty());
        },
    }
}

} // verus!

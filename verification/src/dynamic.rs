//! Values given by a parameter: the instance of the parameter and an
//! optional linear adjustment, as the dynamic value form shows and applies
//! them.
use vstd::prelude::*;
use crate::boolean::InstanceRef;
use crate::number::{int_text, parse_i64, parse_i64_spec};
use crate::stream::optional_decimal;
use crate::text::{chars_of, string_of, trim, trim_chars};

verus! {

/// A linear adjustment `slope * x + intercept`; both numbers are decimal
/// texts that read as them.
#[derive(Debug)]
pub struct LinearAdjustment {
    pub slope: String,
    pub intercept: String,
}

/// The value of a linear adjustment.
pub struct LinearAdjustmentView {
    pub slope: Seq<char>,
    pub intercept: Seq<char>,
}

impl View for LinearAdjustment {
    type V = LinearAdjustmentView;

    open spec fn view(&self) -> LinearAdjustmentView {
        LinearAdjustmentView { slope: self.slope@, intercept: self.intercept@ }
    }
}

/// A value given by an instance of a parameter, optionally adjusted.
#[derive(Debug)]
pub struct DynamicValue {
    pub parameter_instance_ref: InstanceRef<String>,
    pub linear_adjustment: Option<LinearAdjustment>,
}

/// The value of a [`DynamicValue`].
pub struct DynamicValueView {
    pub parameter_instance_ref: InstanceRef<Seq<char>>,
    pub linear_adjustment: Option<LinearAdjustmentView>,
}

impl View for DynamicValue {
    type V = DynamicValueView;

    open spec fn view(&self) -> DynamicValueView {
        DynamicValueView {
            parameter_instance_ref: self.parameter_instance_ref@,
            linear_adjustment: match self.linear_adjustment {
                Some(a) => Some(a@),
                None => None,
            },
        }
    }
}

/// The texts and choices of the dynamic value form.
#[derive(Debug)]
pub struct DynamicValues {
    pub parameter_ref: String,
    pub instance: String,
    pub use_calibrated_value: bool,
    pub linear_adjustment_present: bool,
    pub slope: String,
    pub intercept: String,
}

/// The value of [`DynamicValues`].
pub struct DynamicValuesView {
    pub parameter_ref: Seq<char>,
    pub instance: Seq<char>,
    pub use_calibrated_value: bool,
    pub linear_adjustment_present: bool,
    pub slope: Seq<char>,
    pub intercept: Seq<char>,
}

impl View for DynamicValues {
    type V = DynamicValuesView;

    open spec fn view(&self) -> DynamicValuesView {
        DynamicValuesView {
            parameter_ref: self.parameter_ref@,
            instance: self.instance@,
            use_calibrated_value: self.use_calibrated_value,
            linear_adjustment_present: self.linear_adjustment_present,
            slope: self.slope@,
            intercept: self.intercept@,
        }
    }
}

/// What the form shows for a dynamic value; for none, instance 0 of a
/// calibrated value (the schema's defaults) and the identity adjustment.
pub open spec fn dynamic_values_of(d: Option<DynamicValueView>) -> DynamicValuesView {
    match d {
        Some(d) => DynamicValuesView {
            parameter_ref: d.parameter_instance_ref.parameter_ref,
            instance: int_text(d.parameter_instance_ref.instance as int),
            use_calibrated_value: d.parameter_instance_ref.use_calibrated_value,
            linear_adjustment_present: d.linear_adjustment is Some,
            slope: match d.linear_adjustment {
                Some(a) => a.slope,
                None => seq!['1'],
            },
            intercept: match d.linear_adjustment {
                Some(a) => a.intercept,
                None => seq!['0'],
            },
        },
        None => DynamicValuesView {
            parameter_ref: Seq::empty(),
            instance: seq!['0'],
            use_calibrated_value: true,
            linear_adjustment_present: false,
            slope: seq!['1'],
            intercept: seq!['0'],
        },
    }
}

fn digit(c: char) -> (r: String)
    ensures
        r@ == seq![c],
{
    let v = vec![c];
    assert(v@ =~= seq![c]);
    string_of(&v)
}

impl DynamicValues {
    /// What the form shows for a dynamic value (see [`dynamic_values_of`]).
    pub fn from_value(d: Option<&DynamicValue>) -> (r: DynamicValues)
        ensures
            r@ == dynamic_values_of(
                match d {
                    Some(d) => Some(d@),
                    None => None,
                },
            ),
    {
        match d {
            Some(d) => DynamicValues {
                parameter_ref: d.parameter_instance_ref.parameter_ref.clone(),
                instance: string_of(&crate::number::i64_text(d.parameter_instance_ref.instance)),
                use_calibrated_value: d.parameter_instance_ref.use_calibrated_value,
                linear_adjustment_present: d.linear_adjustment.is_some(),
                slope: match &d.linear_adjustment {
                    Some(a) => a.slope.clone(),
                    None => digit('1'),
                },
                intercept: match &d.linear_adjustment {
                    Some(a) => a.intercept.clone(),
                    None => digit('0'),
                },
            },
            None => DynamicValues {
                parameter_ref: String::new(),
                instance: digit('0'),
                use_calibrated_value: true,
                linear_adjustment_present: false,
                slope: digit('1'),
                intercept: digit('0'),
            },
        }
    }
}

/// A decimal number of a field as its trimmed text, or a default text.
pub open spec fn decimal_or(text: Seq<char>, default: Seq<char>) -> Seq<char> {
    match optional_decimal(text) {
        Some(t) => t,
        None => default,
    }
}

/// The dynamic value the form gives: the parameter reference as it is,
/// the instance read from its trimmed text (0 otherwise), and, when the
/// form has one, the adjustment's numbers read from their trimmed texts
/// (slope 1 and intercept 0 otherwise).
pub open spec fn dynamic_value_of(v: DynamicValuesView) -> DynamicValueView {
    DynamicValueView {
        parameter_instance_ref: InstanceRef {
            parameter_ref: v.parameter_ref,
            instance: match parse_i64_spec(trim(v.instance)) {
                Some(n) => n,
                None => 0,
            },
            use_calibrated_value: v.use_calibrated_value,
        },
        linear_adjustment: if v.linear_adjustment_present {
            Some(
                LinearAdjustmentView {
                    slope: decimal_or(v.slope, seq!['1']),
                    intercept: decimal_or(v.intercept, seq!['0']),
                },
            )
        } else {
            None
        },
    }
}

fn decimal_or_default(text: &String, default: char) -> (r: String)
    ensures
        r@ == decimal_or(text@, seq![default]),
{
    match crate::stream::decimal_of(text) {
        Some(t) => t,
        None => digit(default),
    }
}

/// The dynamic value the form gives (see [`dynamic_value_of`]).
pub fn dynamic_value(v: &DynamicValues) -> (r: DynamicValue)
    ensures
        r@ == dynamic_value_of(v@),
{
    DynamicValue {
        parameter_instance_ref: InstanceRef {
            parameter_ref: v.parameter_ref.clone(),
            instance: match parse_i64(&trim_chars(&chars_of(v.instance.as_str()))) {
                Some(n) => n,
                None => 0,
            },
            use_calibrated_value: v.use_calibrated_value,
        },
        linear_adjustment: if v.linear_adjustment_present {
            Some(
                LinearAdjustment {
                    slope: decimal_or_default(&v.slope, '1'),
                    intercept: decimal_or_default(&v.intercept, '0'),
                },
            )
        } else {
            None
        },
    }
}

/// What the form shows for a dynamic value gives it back, when the
/// adjustment's numbers are trimmed decimal texts.
pub proof fn lemma_dynamic_round_trip(d: DynamicValueView)
    requires
        match d.linear_adjustment {
            Some(a) => is_clean_decimal(a.slope) && is_clean_decimal(a.intercept),
            None => true,
        },
    ensures
        dynamic_value_of(dynamic_values_of(Some(d))) == d,
{
    crate::number::lemma_i64_round_trip(d.parameter_instance_ref.instance);
    crate::text::lemma_trim_trimmed(int_text(d.parameter_instance_ref.instance as int));
    match d.linear_adjustment {
        Some(a) => {
            crate::text::lemma_trim_trimmed(a.slope);
            crate::text::lemma_trim_trimmed(a.intercept);
            crate::number::lemma_empty_not_float();
        },
        None => {},
    }
}

/// Whether a text is a trimmed decimal number.
pub open spec fn is_clean_decimal(t: Seq<char>) -> bool {
    crate::number::is_float_text(t) && crate::text::is_trimmed(t)
}

} // verus!

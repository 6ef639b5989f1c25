//! The custom algorithm form: an algorithm in another language that reads
//! inputs, writes outputs and runs on triggers. The form shows its fields
//! as texts and builds the algorithm back from them.
use vstd::prelude::*;
use crate::algorithm::{AlgorithmText, AlgorithmTextView, ExternalAlgorithm, InputItem, OutputRef, TriggerSet, TriggerSetView, algorithm_text_of, clean_external, clean_input, clean_output, clean_trigger, decode_algorithm_text, decode_external_algorithms, decode_inputs, decode_outputs, decode_triggers, decoded_externals, decoded_inputs, decoded_outputs, default_language, default_language_text, default_trigger_rate, encode_external_algorithms, encode_inputs, encode_outputs, encode_triggers, externals_text, externals_view, inputs_text, inputs_view, lemma_externals_round_trip, lemma_inputs_round_trip, lemma_outputs_round_trip, lemma_triggers_round_trip, opt_algorithm_text, opt_text, opt_trigger_set_view, outputs_text, outputs_view, text_or_empty, trigger_set_of, triggers_text};
use crate::alias::{Alias, aliases_view};
use crate::ancillary::{AncillaryData, entries_view};
use crate::choice::Choice;
use crate::errors::BooleanChoice;
use crate::fields::{ParseText, clean_optional, optional, optional_parse, optional_text, text_of};
use crate::number::{int_text, lemma_i64_round_trip, lemma_u32_round_trip, u64_text};
use crate::text::{lemma_trim_trimmed, string_of, trim};

verus! {

/// A list that is present only when it is not empty.
pub open spec fn nonempty<A>(s: Seq<A>) -> Option<Seq<A>> {
    if s.len() == 0 {
        None
    } else {
        Some(s)
    }
}

/// An algorithm that reads inputs, writes outputs and runs on triggers.
#[derive(Debug)]
pub struct CustomAlgorithm {
    pub short_description: Option<String>,
    pub name: String,
    pub thread: bool,
    pub trigger_container: Option<String>,
    pub priority: Option<i64>,
    pub long_description: Option<String>,
    pub alias_set: Option<Vec<Alias<String>>>,
    pub ancillary_data_set: Option<Vec<AncillaryData<String>>>,
    pub algorithm_text: Option<AlgorithmText>,
    pub external_algorithm_set: Option<Vec<ExternalAlgorithm<String>>>,
    pub input_set: Option<Vec<InputItem<String>>>,
    pub output_set: Option<Vec<OutputRef<String>>>,
    pub trigger_set: Option<TriggerSet>,
}

/// The value of a custom algorithm.
pub struct CustomAlgorithmView {
    pub short_description: Option<Seq<char>>,
    pub name: Seq<char>,
    pub thread: bool,
    pub trigger_container: Option<Seq<char>>,
    pub priority: Option<i64>,
    pub long_description: Option<Seq<char>>,
    pub alias_set: Option<Seq<Alias<Seq<char>>>>,
    pub ancillary_data_set: Option<Seq<AncillaryData<Seq<char>>>>,
    pub algorithm_text: Option<AlgorithmTextView>,
    pub external_algorithm_set: Option<Seq<ExternalAlgorithm<Seq<char>>>>,
    pub input_set: Option<Seq<InputItem<Seq<char>>>>,
    pub output_set: Option<Seq<OutputRef<Seq<char>>>>,
    pub trigger_set: Option<TriggerSetView>,
}

impl View for CustomAlgorithm {
    type V = CustomAlgorithmView;

    open spec fn view(&self) -> CustomAlgorithmView {
        CustomAlgorithmView {
            short_description: opt_text(self.short_description),
            name: self.name@,
            thread: self.thread,
            trigger_container: opt_text(self.trigger_container),
            priority: self.priority,
            long_description: opt_text(self.long_description),
            alias_set: match self.alias_set {
                Some(v) => Some(aliases_view(v@)),
                None => None,
            },
            ancillary_data_set: match self.ancillary_data_set {
                Some(v) => Some(entries_view(v@)),
                None => None,
            },
            algorithm_text: opt_algorithm_text(self.algorithm_text),
            external_algorithm_set: match self.external_algorithm_set {
                Some(v) => Some(externals_view(v@)),
                None => None,
            },
            input_set: match self.input_set {
                Some(v) => Some(inputs_view(v@)),
                None => None,
            },
            output_set: match self.output_set {
                Some(v) => Some(outputs_view(v@)),
                None => None,
            },
            trigger_set: opt_trigger_set_view(self.trigger_set),
        }
    }
}

/// A new custom algorithm: only its name, not in a thread of its own
/// (the schema's default).
pub open spec fn new_custom_algorithm(name: Seq<char>) -> CustomAlgorithmView {
    CustomAlgorithmView {
        short_description: None,
        name,
        thread: false,
        trigger_container: None,
        priority: None,
        long_description: None,
        alias_set: None,
        ancillary_data_set: None,
        algorithm_text: None,
        external_algorithm_set: None,
        input_set: None,
        output_set: None,
        trigger_set: None,
    }
}

/// A new custom algorithm (see [`new_custom_algorithm`]).
pub fn default_custom_algorithm(name: String) -> (r: CustomAlgorithm)
    ensures
        r@ == new_custom_algorithm(name@),
{
    CustomAlgorithm {
        short_description: None,
        name,
        thread: false,
        trigger_container: None,
        priority: None,
        long_description: None,
        alias_set: None,
        ancillary_data_set: None,
        algorithm_text: None,
        external_algorithm_set: None,
        input_set: None,
        output_set: None,
        trigger_set: None,
    }
}

/// The texts of the custom algorithm form.
#[derive(Debug)]
pub struct CustomAlgorithmValues {
    pub name: String,
    pub thread: BooleanChoice,
    pub trigger_container: String,
    pub priority: String,
    pub short_description: String,
    pub long_description: String,
    pub language: String,
    pub algorithm_text: String,
    pub external_algorithms: String,
    pub inputs: String,
    pub outputs: String,
    pub trigger_set_name: String,
    pub trigger_rate: String,
    pub triggers: String,
}

/// The value of [`CustomAlgorithmValues`].
pub struct CustomValuesView {
    pub name: Seq<char>,
    pub thread: BooleanChoice,
    pub trigger_container: Seq<char>,
    pub priority: Seq<char>,
    pub short_description: Seq<char>,
    pub long_description: Seq<char>,
    pub language: Seq<char>,
    pub algorithm_text: Seq<char>,
    pub external_algorithms: Seq<char>,
    pub inputs: Seq<char>,
    pub outputs: Seq<char>,
    pub trigger_set_name: Seq<char>,
    pub trigger_rate: Seq<char>,
    pub triggers: Seq<char>,
}

impl View for CustomAlgorithmValues {
    type V = CustomValuesView;

    open spec fn view(&self) -> CustomValuesView {
        CustomValuesView {
            name: self.name@,
            thread: self.thread,
            trigger_container: self.trigger_container@,
            priority: self.priority@,
            short_description: self.short_description@,
            long_description: self.long_description@,
            language: self.language@,
            algorithm_text: self.algorithm_text@,
            external_algorithms: self.external_algorithms@,
            inputs: self.inputs@,
            outputs: self.outputs@,
            trigger_set_name: self.trigger_set_name@,
            trigger_rate: self.trigger_rate@,
            triggers: self.triggers@,
        }
    }
}

/// The texts the form shows for the trigger set of an algorithm: its
/// name, its rate (the schema's default rate when there is no set) and its
/// triggers, one per line.
pub open spec fn trigger_texts(t: Option<TriggerSetView>) -> (Seq<char>, Seq<char>, Seq<char>) {
    match t {
        Some(t) => (text_or_empty(t.name), int_text(t.trigger_rate as int), triggers_text(t.content)),
        None => (Seq::empty(), int_text(default_trigger_rate() as int), triggers_text(Seq::empty())),
    }
}

/// The text of an optional list, or of an empty one.
pub open spec fn or_none<A>(o: Option<Seq<A>>) -> Seq<A> {
    match o {
        Some(s) => s,
        None => Seq::empty(),
    }
}

/// The texts the form shows for a custom algorithm, or for none.
pub open spec fn custom_values_of(a: Option<CustomAlgorithmView>) -> CustomValuesView {
    match a {
        Some(a) => CustomValuesView {
            name: a.name,
            thread: if a.thread {
                BooleanChoice::True
            } else {
                BooleanChoice::False
            },
            trigger_container: text_or_empty(a.trigger_container),
            priority: match a.priority {
                Some(p) => int_text(p as int),
                None => Seq::empty(),
            },
            short_description: text_or_empty(a.short_description),
            long_description: text_or_empty(a.long_description),
            language: match a.algorithm_text {
                Some(t) => t.language,
                None => default_language_text(),
            },
            algorithm_text: match a.algorithm_text {
                Some(t) => t.content,
                None => Seq::empty(),
            },
            external_algorithms: externals_text(or_none(a.external_algorithm_set)),
            inputs: inputs_text(or_none(a.input_set)),
            outputs: outputs_text(or_none(a.output_set)),
            trigger_set_name: trigger_texts(a.trigger_set).0,
            trigger_rate: trigger_texts(a.trigger_set).1,
            triggers: trigger_texts(a.trigger_set).2,
        },
        None => CustomValuesView {
            name: Seq::empty(),
            thread: BooleanChoice::False,
            trigger_container: Seq::empty(),
            priority: Seq::empty(),
            short_description: Seq::empty(),
            long_description: Seq::empty(),
            language: default_language_text(),
            algorithm_text: Seq::empty(),
            external_algorithms: externals_text(Seq::empty()),
            inputs: inputs_text(Seq::empty()),
            outputs: outputs_text(Seq::empty()),
            trigger_set_name: trigger_texts(None).0,
            trigger_rate: trigger_texts(None).1,
            triggers: trigger_texts(None).2,
        },
    }
}

fn i64_string(v: i64) -> (r: String)
    ensures
        r@ == int_text(v as int),
{
    string_of(&crate::number::i64_text(v))
}

/// The texts the form shows for a trigger set (see [`trigger_texts`]).
pub fn trigger_set_texts(t: Option<&TriggerSet>) -> (r: (String, String, String))
    ensures
        (r.0@, r.1@, r.2@) == trigger_texts(
            match t {
                Some(t) => Some(t@),
                None => None,
            },
        ),
{
    match t {
        Some(t) => (text_of(&t.name), string_of(&u64_text(t.trigger_rate as u64)), encode_triggers(Some(t))),
        None => (String::new(), string_of(&u64_text(1)), encode_triggers(None)),
    }
}

/// The texts the form shows for a custom algorithm (see
/// [`custom_values_of`]).
pub fn custom_algorithm_values(algorithm: Option<&CustomAlgorithm>) -> (r: CustomAlgorithmValues)
    ensures
        r@ == custom_values_of(
            match algorithm {
                Some(a) => Some(a@),
                None => None,
            },
        ),
{
    match algorithm {
        Some(a) => {
            let (language, algorithm_text) = match &a.algorithm_text {
                Some(t) => (t.language.clone(), t.content.clone()),
                None => (default_language(), String::new()),
            };
            let (trigger_set_name, trigger_rate, triggers) = trigger_set_texts(a.trigger_set.as_ref());
            CustomAlgorithmValues {
                name: a.name.clone(),
                thread: if a.thread {
                    BooleanChoice::True
                } else {
                    BooleanChoice::False
                },
                trigger_container: text_of(&a.trigger_container),
                priority: match a.priority {
                    Some(p) => i64_string(p),
                    None => String::new(),
                },
                short_description: text_of(&a.short_description),
                long_description: text_of(&a.long_description),
                language,
                algorithm_text,
                external_algorithms: encode_external_algorithms(a.external_algorithm_set.as_ref()),
                inputs: encode_inputs(a.input_set.as_ref()),
                outputs: encode_outputs(a.output_set.as_ref()),
                trigger_set_name,
                trigger_rate,
                triggers,
            }
        },
        None => {
            let (trigger_set_name, trigger_rate, triggers) = trigger_set_texts(None);
            CustomAlgorithmValues {
                name: String::new(),
                thread: BooleanChoice::False,
                trigger_container: String::new(),
                priority: String::new(),
                short_description: String::new(),
                long_description: String::new(),
                language: default_language(),
                algorithm_text: String::new(),
                external_algorithms: encode_external_algorithms(None),
                inputs: encode_inputs(None),
                outputs: encode_outputs(None),
                trigger_set_name,
                trigger_rate,
                triggers,
            }
        },
    }
}

/// The custom algorithm the form's texts give, with the alias and
/// ancillary data sets of its two sub-forms. The name is taken as it is;
/// the other texts are trimmed and blank ones give nothing; the priority
/// is nothing unless it reads as a number; each list is present only when
/// a line reads as an item of it.
pub open spec fn custom_algorithm_of(
    v: CustomValuesView,
    alias_set: Option<Seq<Alias<Seq<char>>>>,
    ancillary_data_set: Option<Seq<AncillaryData<Seq<char>>>>,
) -> CustomAlgorithmView {
    CustomAlgorithmView {
        short_description: optional_text(v.short_description),
        name: v.name,
        thread: v.thread == BooleanChoice::True,
        trigger_container: optional_text(v.trigger_container),
        priority: if trim(v.priority).len() == 0 {
            None
        } else {
            <i64 as ParseText>::parse_spec(trim(v.priority))
        },
        long_description: optional_text(v.long_description),
        alias_set,
        ancillary_data_set,
        algorithm_text: algorithm_text_of(v.language, v.algorithm_text),
        external_algorithm_set: nonempty(decoded_externals(v.external_algorithms)),
        input_set: nonempty(decoded_inputs(v.inputs)),
        output_set: nonempty(decoded_outputs(v.outputs)),
        trigger_set: trigger_set_of(v.trigger_set_name, v.trigger_rate, v.triggers),
    }
}

/// The set of the alias sub-form's rows.
pub open spec fn alias_set_of(rows: Seq<Alias<String>>) -> Option<Seq<Alias<Seq<char>>>> {
    nonempty(crate::alias::rows_aliases(aliases_view(rows)))
}

/// The set of the ancillary data sub-form's rows.
pub open spec fn ancillary_set_of(rows: Seq<crate::ancillary::AncillaryRow>) -> Option<
    Seq<AncillaryData<Seq<char>>>,
> {
    nonempty(crate::ancillary::rows_entries(rows))
}

/// Sets a custom algorithm from the form's texts and the rows of its alias
/// and ancillary data sub-forms (see [`custom_algorithm_of`]).
pub fn apply_custom_algorithm(
    values: &CustomAlgorithmValues,
    alias_rows: &Vec<Alias<String>>,
    ancillary_rows: &Vec<crate::ancillary::AncillaryRow>,
    algorithm: &mut CustomAlgorithm,
)
    ensures
        final(algorithm)@ == custom_algorithm_of(
            values@,
            alias_set_of(alias_rows@),
            ancillary_set_of(ancillary_rows@),
        ),
{
    algorithm.name = values.name.clone();
    algorithm.thread = match values.thread {
        BooleanChoice::True => true,
        BooleanChoice::False => false,
    };
    algorithm.trigger_container = optional(values.trigger_container.as_str());
    algorithm.priority = optional_parse::<i64>(values.priority.as_str());
    algorithm.short_description = optional(values.short_description.as_str());
    algorithm.long_description = optional(values.long_description.as_str());
    algorithm.alias_set = crate::alias::value(alias_rows);
    algorithm.ancillary_data_set = crate::ancillary::value(ancillary_rows);
    algorithm.algorithm_text = decode_algorithm_text(
        values.language.clone(),
        values.algorithm_text.clone(),
    );
    algorithm.external_algorithm_set = decode_external_algorithms(values.external_algorithms.as_str());
    algorithm.input_set = decode_inputs(values.inputs.as_str());
    algorithm.output_set = decode_outputs(values.outputs.as_str());
    algorithm.trigger_set = decode_triggers(
        values.trigger_set_name.as_str(),
        values.trigger_rate.as_str(),
        values.triggers.as_str(),
    );
}


/// Whether the form shows a custom algorithm as it is and builds it back
/// unchanged: its optional texts are non-empty and trimmed, an algorithm
/// text has a content and a language, its lists are non-empty with items
/// that are written and read back unchanged, and a trigger set has such
/// triggers and a non-empty, trimmed name if any.
pub open spec fn clean_custom(a: CustomAlgorithmView) -> bool {
    &&& clean_optional(a.short_description)
    &&& clean_optional(a.trigger_container)
    &&& clean_optional(a.long_description)
    &&& match a.algorithm_text {
        Some(t) => t.content.len() > 0 && t.language.len() > 0,
        None => true,
    }
    &&& match a.external_algorithm_set {
        Some(s) => s.len() > 0 && forall|i: int| 0 <= i < s.len() ==> clean_external(#[trigger] s[i]),
        None => true,
    }
    &&& match a.input_set {
        Some(s) => s.len() > 0 && forall|i: int| 0 <= i < s.len() ==> clean_input(#[trigger] s[i]),
        None => true,
    }
    &&& match a.output_set {
        Some(s) => s.len() > 0 && forall|i: int| 0 <= i < s.len() ==> clean_output(#[trigger] s[i]),
        None => true,
    }
    &&& clean_trigger_set(a.trigger_set)
}

/// Whether a trigger set is absent, or has triggers that are written and
/// read back unchanged and a non-empty, trimmed name if any.
pub open spec fn clean_trigger_set(t: Option<TriggerSetView>) -> bool {
    match t {
        Some(t) => {
            &&& clean_optional(t.name)
            &&& t.content.len() > 0
            &&& forall|i: int| 0 <= i < t.content.len() ==> clean_trigger(#[trigger] t.content[i])
        },
        None => true,
    }
}

/// The texts the form shows for a trigger set give it back, when it is
/// clean (see [`clean_trigger_set`]).
pub proof fn lemma_trigger_set_round_trip(t: Option<TriggerSetView>)
    requires
        clean_trigger_set(t),
    ensures
        trigger_set_of(trigger_texts(t).0, trigger_texts(t).1, trigger_texts(t).2) == t,
{
    match t {
        Some(s) => {
            lemma_triggers_round_trip(s.content);
            lemma_u32_round_trip(s.trigger_rate);
            lemma_trim_trimmed(int_text(s.trigger_rate as int));
            crate::fields::lemma_optional_back(s.name);
        },
        None => {
            lemma_triggers_round_trip(Seq::empty());
        },
    }
}

/// What the custom algorithm form shows for an algorithm builds the same
/// algorithm back, when the algorithm is clean (see [`clean_custom`]) and
/// its sub-forms give back its alias and ancillary data sets.
pub proof fn lemma_custom_round_trip(a: CustomAlgorithmView)
    requires
        clean_custom(a),
    ensures
        custom_algorithm_of(custom_values_of(Some(a)), a.alias_set, a.ancillary_data_set) == a,
{
    crate::fields::lemma_optional_back(a.short_description);
    crate::fields::lemma_optional_back(a.trigger_container);
    crate::fields::lemma_optional_back(a.long_description);
    match a.priority {
        Some(p) => {
            lemma_i64_round_trip(p);
            lemma_trim_trimmed(int_text(p as int));
        },
        None => {
            lemma_trim_trimmed(Seq::<char>::empty());
        },
    }
    lemma_externals_round_trip(or_none(a.external_algorithm_set));
    lemma_inputs_round_trip(or_none(a.input_set));
    lemma_outputs_round_trip(or_none(a.output_set));
    lemma_trigger_set_round_trip(a.trigger_set);
}

} // verus!

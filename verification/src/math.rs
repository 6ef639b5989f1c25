//! Math algorithms: the content of a triggered math operation (its
//! reverse Polish entries, an optional ancillary data set and trigger set)
//! and the values the math algorithm form shows and applies.
use vstd::prelude::*;
use crate::algorithm::{TriggerSet, TriggerSetView, decode_triggers, opt_text, opt_trigger_set_view, text_or_empty, trigger_set_of};
use crate::alias::{Alias, aliases_view};
use crate::ancillary::{AncillaryData, AncillaryRow, entries_view as ancillary_view};
use crate::boolean::InstanceRef;
use crate::custom::{
    alias_set_of, ancillary_set_of, clean_trigger_set,
    lemma_trigger_set_round_trip, trigger_set_texts, trigger_texts,
};
use crate::fields::{clean_optional, optional, optional_text, text_of};
use crate::rpn::{RpnOperationEntry, entries_view, no_arguments};
use crate::text::{
    filter_map, first_some, lemma_filter_map_all, lemma_filter_map_concat, lemma_filter_map_single,
    string_of,
};

verus! {

/// One item of a triggered math operation.
#[derive(Debug)]
pub enum TriggeredMathContent {
    ValueOperand(String),
    ThisParameterOperand(String),
    Operator(String),
    ParameterInstanceRefOperand(InstanceRef<String>),
    AncillaryDataSet(Vec<AncillaryData<String>>),
    TriggerSet(TriggerSet),
}

/// The value of a [`TriggeredMathContent`].
pub enum MathContentView {
    ValueOperand(Seq<char>),
    ThisParameterOperand(Seq<char>),
    Operator(Seq<char>),
    ParameterInstanceRefOperand(InstanceRef<Seq<char>>),
    AncillaryDataSet(Seq<AncillaryData<Seq<char>>>),
    TriggerSet(TriggerSetView),
}

impl View for TriggeredMathContent {
    type V = MathContentView;

    open spec fn view(&self) -> MathContentView {
        match self {
            TriggeredMathContent::ValueOperand(s) => MathContentView::ValueOperand(s@),
            TriggeredMathContent::ThisParameterOperand(s) => MathContentView::ThisParameterOperand(s@),
            TriggeredMathContent::Operator(s) => MathContentView::Operator(s@),
            TriggeredMathContent::ParameterInstanceRefOperand(r) =>
                MathContentView::ParameterInstanceRefOperand(r@),
            TriggeredMathContent::AncillaryDataSet(v) => MathContentView::AncillaryDataSet(
                ancillary_view(v@),
            ),
            TriggeredMathContent::TriggerSet(t) => MathContentView::TriggerSet(t@),
        }
    }
}

/// The values of a list of content items.
pub open spec fn contents_view(v: Seq<TriggeredMathContent>) -> Seq<MathContentView> {
    v.map_values(|c: TriggeredMathContent| c@)
}

/// The operation editor's entry for a content item, when it is an operand
/// or an operator.
pub open spec fn entry_of_content(c: MathContentView) -> Option<RpnOperationEntry<Seq<char>>> {
    match c {
        MathContentView::ValueOperand(v) => Some(RpnOperationEntry::Value(v)),
        MathContentView::ThisParameterOperand(v) => Some(RpnOperationEntry::ThisParameter(v)),
        MathContentView::Operator(v) => Some(RpnOperationEntry::Operator(v)),
        MathContentView::ParameterInstanceRefOperand(r) => Some(
            RpnOperationEntry::ParameterInstance {
                parameter_ref: r.parameter_ref,
                instance: r.instance,
                use_calibrated_value: r.use_calibrated_value,
            },
        ),
        _ => None,
    }
}

/// [`entry_of_content`] as a function value.
pub open spec fn entry_reader() -> spec_fn(MathContentView) -> Option<RpnOperationEntry<Seq<char>>> {
    |c: MathContentView| entry_of_content(c)
}

/// The operation editor's entries for an operation's content, in order.
pub open spec fn rpn_entries_of(content: Seq<MathContentView>) -> Seq<RpnOperationEntry<Seq<char>>> {
    filter_map(content, entry_reader())
}

/// The content item for an entry of the operation editor (argument
/// instances are not used in math algorithms).
pub open spec fn content_of_entry(e: RpnOperationEntry<Seq<char>>) -> MathContentView {
    match e {
        RpnOperationEntry::Value(v) => MathContentView::ValueOperand(v),
        RpnOperationEntry::ThisParameter(v) => MathContentView::ThisParameterOperand(v),
        RpnOperationEntry::Operator(v) => MathContentView::Operator(v),
        RpnOperationEntry::ParameterInstance { parameter_ref, instance, use_calibrated_value } =>
            MathContentView::ParameterInstanceRefOperand(
            InstanceRef { parameter_ref, instance, use_calibrated_value },
        ),
        RpnOperationEntry::ArgumentInstance { argument_ref, .. } => MathContentView::Operator(
            argument_ref,
        ),
    }
}

/// The ancillary data set in a content item.
pub open spec fn ancillary_of(c: MathContentView) -> Option<Seq<AncillaryData<Seq<char>>>> {
    match c {
        MathContentView::AncillaryDataSet(v) => Some(v),
        _ => None,
    }
}

/// The trigger set in a content item.
pub open spec fn trigger_set_in(c: MathContentView) -> Option<TriggerSetView> {
    match c {
        MathContentView::TriggerSet(t) => Some(t),
        _ => None,
    }
}

/// The first ancillary data set of an operation's content.
pub open spec fn first_ancillary(content: Seq<MathContentView>) -> Option<Seq<AncillaryData<Seq<char>>>> {
    first_some(content, |c: MathContentView| ancillary_of(c))
}

/// The first trigger set of an operation's content.
pub open spec fn first_trigger_set(content: Seq<MathContentView>) -> Option<TriggerSetView> {
    first_some(content, |c: MathContentView| trigger_set_in(c))
}

/// The single value operand `0`, for an operation with no entries.
pub open spec fn zero_operand() -> MathContentView {
    MathContentView::ValueOperand(seq!['0'])
}

/// The content written for an operation: the ancillary data set, the
/// entries (a `0` operand when there are none), the trigger set.
pub open spec fn operation_content_of(
    ancillary: Option<Seq<AncillaryData<Seq<char>>>>,
    entries: Seq<MathContentView>,
    triggers: Option<TriggerSetView>,
) -> Seq<MathContentView> {
    (match ancillary {
        Some(a) => seq![MathContentView::AncillaryDataSet(a)],
        None => Seq::empty(),
    }) + (if entries.len() == 0 {
        seq![zero_operand()]
    } else {
        entries
    }) + (match triggers {
        Some(t) => seq![MathContentView::TriggerSet(t)],
        None => Seq::empty(),
    })
}

/// The value of an optional ancillary data set.
pub open spec fn opt_ancillary_view(o: Option<Vec<AncillaryData<String>>>) -> Option<
    Seq<AncillaryData<Seq<char>>>,
> {
    match o {
        Some(a) => Some(ancillary_view(a@)),
        None => None,
    }
}

/// A triggered math operation.
#[derive(Debug)]
pub struct TriggeredMathOperation {
    pub name: Option<String>,
    pub short_description: Option<String>,
    pub output_parameter_ref: String,
    pub content: Vec<TriggeredMathContent>,
}

/// The editor's entries for an operation's content (see
/// [`rpn_entries_of`]); none when there is no operation.
pub fn rpn_entries_from_operation(operation: Option<&TriggeredMathOperation>) -> (r: Vec<
    RpnOperationEntry<String>,
>)
    ensures
        entries_view(r@) == (match operation {
            Some(op) => rpn_entries_of(contents_view(op.content@)),
            None => Seq::empty(),
        }),
{
    let mut out: Vec<RpnOperationEntry<String>> = Vec::new();
    match operation {
        Some(op) => {
            let ghost all = contents_view(op.content@);
            let mut i: usize = 0;
            while i < op.content.len()
                invariant
                    i <= op.content@.len(),
                    all == contents_view(op.content@),
                    entries_view(out@) == filter_map(all.take(i as int), entry_reader()),
                decreases op.content.len() - i,
            {
                let ghost before = out@;
                proof {
                    assert(all.take(i + 1).drop_last() =~= all.take(i as int));
                    assert(all.take(i + 1).last() == op.content@[i as int]@);
                }
                match &op.content[i] {
                    TriggeredMathContent::ValueOperand(v) => {
                        out.push(RpnOperationEntry::Value(v.clone()));
                    },
                    TriggeredMathContent::ThisParameterOperand(v) => {
                        out.push(RpnOperationEntry::ThisParameter(v.clone()));
                    },
                    TriggeredMathContent::Operator(v) => {
                        out.push(RpnOperationEntry::Operator(v.clone()));
                    },
                    TriggeredMathContent::ParameterInstanceRefOperand(r) => {
                        out.push(
                            RpnOperationEntry::ParameterInstance {
                                parameter_ref: r.parameter_ref.clone(),
                                instance: r.instance,
                                use_calibrated_value: r.use_calibrated_value,
                            },
                        );
                    },
                    _ => {},
                }
                proof {
                    if out@.len() > before.len() {
                        assert(entries_view(out@) =~= entries_view(before).push(out@.last()@));
                    }
                }
                i = i + 1;
            }
            assert(all.take(op.content.len() as int) =~= all);
        },
        None => {
            assert(entries_view(out@) =~= Seq::<RpnOperationEntry<Seq<char>>>::empty());
        },
    }
    out
}

/// The content item for an entry of the operation editor.
pub fn triggered_math_content(entry: RpnOperationEntry<String>) -> (r: TriggeredMathContent)
    requires
        !(entry@ is ArgumentInstance),
    ensures
        r@ == content_of_entry(entry@),
{
    match entry {
        RpnOperationEntry::Value(v) => TriggeredMathContent::ValueOperand(v),
        RpnOperationEntry::ThisParameter(v) => TriggeredMathContent::ThisParameterOperand(v),
        RpnOperationEntry::Operator(v) => TriggeredMathContent::Operator(v),
        RpnOperationEntry::ParameterInstance { parameter_ref, instance, use_calibrated_value } =>
            TriggeredMathContent::ParameterInstanceRefOperand(
            InstanceRef { parameter_ref, instance, use_calibrated_value },
        ),
        RpnOperationEntry::ArgumentInstance { argument_ref, .. } => {
            TriggeredMathContent::Operator(argument_ref)
        },
    }
}

/// The content items for the editor's entries, in order.
pub fn contents_from_entries(entries: Vec<RpnOperationEntry<String>>) -> (r: Vec<TriggeredMathContent>)
    requires
        no_arguments(entries_view(entries@)),
    ensures
        contents_view(r@) == entries_view(entries@).map_values(
            |e: RpnOperationEntry<Seq<char>>| content_of_entry(e),
        ),
{
    let ghost all = entries_view(entries@);
    let mut rest = entries;
    let mut out: Vec<TriggeredMathContent> = Vec::new();
    while rest.len() > 0
        invariant
            no_arguments(all),
            out@.len() + rest@.len() == all.len(),
            entries_view(rest@) == all.skip(out@.len() as int),
            contents_view(out@) == all.take(out@.len() as int).map_values(
                |e: RpnOperationEntry<Seq<char>>| content_of_entry(e),
            ),
        decreases rest.len(),
    {
        let ghost k: int = out@.len() as int;
        let ghost old_rest = rest@;
        let e = rest.remove(0);
        proof {
            assert(entries_view(old_rest)[0] == old_rest[0]@);
            assert(all.skip(k)[0] == all[k]);
            assert(e@ == all[k as int]);
            assert forall|j: int| 0 <= j < rest@.len() implies #[trigger] entries_view(rest@)[j]
                == all.skip(k + 1)[j] by {
                assert(rest@[j] == old_rest[j + 1]);
                assert(entries_view(old_rest)[j + 1] == old_rest[j + 1]@);
                assert(all.skip(k)[j + 1] == all[k + 1 + j]);
            }
            assert(entries_view(rest@) =~= all.skip(k + 1));
        }
        let c = triggered_math_content(e);
        let ghost before_out = out@;
        out.push(c);
        proof {
            assert forall|j: int| 0 <= j < k + 1 implies #[trigger] contents_view(out@)[j]
                == all.take(k + 1).map_values(
                |e: RpnOperationEntry<Seq<char>>| content_of_entry(e),
            )[j] by {
                if j < k {
                    assert(out@[j] == before_out[j]);
                    assert(contents_view(before_out)[j] == before_out[j]@);
                    assert(all.take(k).map_values(
                        |e: RpnOperationEntry<Seq<char>>| content_of_entry(e),
                    )[j] == content_of_entry(all[j]));
                } else {
                    assert(out@[j] == c);
                }
            }
            assert(contents_view(out@) =~= all.take(k + 1).map_values(
                |e: RpnOperationEntry<Seq<char>>| content_of_entry(e),
            ));
        }
    }
    assert(all.take(out@.len() as int) =~= all);
    out
}

/// The content written for an operation (see [`operation_content_of`]).
pub fn operation_content(
    ancillary_data_set: Option<Vec<AncillaryData<String>>>,
    entries: Vec<TriggeredMathContent>,
    trigger_set: Option<TriggerSet>,
) -> (r: Vec<TriggeredMathContent>)
    ensures
        contents_view(r@) == operation_content_of(
            opt_ancillary_view(ancillary_data_set),
            contents_view(entries@),
            opt_trigger_set_view(trigger_set),
        ),
{
    let ghost a_view = opt_ancillary_view(ancillary_data_set);
    let ghost t_view = opt_trigger_set_view(trigger_set);
    let ghost e_view = contents_view(entries@);
    let mut content: Vec<TriggeredMathContent> = Vec::new();
    match ancillary_data_set {
        Some(a) => content.push(TriggeredMathContent::AncillaryDataSet(a)),
        None => {},
    }
    let ghost head = contents_view(content@);
    let mut entries = entries;
    if entries.len() == 0 {
        let zero = vec!['0'];
        assert(zero@ =~= seq!['0']);
        entries.push(TriggeredMathContent::ValueOperand(string_of(&zero)));
    }
    let ghost body = contents_view(entries@);
    content.append(&mut entries);
    match trigger_set {
        Some(t) => content.push(TriggeredMathContent::TriggerSet(t)),
        None => {},
    }
    proof {
        assert(body =~= (if e_view.len() == 0 {
            seq![zero_operand()]
        } else {
            e_view
        }));
        assert(contents_view(content@) =~= operation_content_of(a_view, e_view, t_view));
    }
    content
}

/// The first ancillary data set of an operation's content.
pub fn operation_ancillary_data_set(operation: &TriggeredMathOperation) -> (r: Option<
    &Vec<AncillaryData<String>>,
>)
    ensures
        match r {
            Some(a) => first_ancillary(contents_view(operation.content@)) == Some(ancillary_view(a@)),
            None => first_ancillary(contents_view(operation.content@)) is None,
        },
{
    let ghost all = contents_view(operation.content@);
    let ghost f = |c: MathContentView| ancillary_of(c);
    let mut i: usize = 0;
    while i < operation.content.len()
        invariant
            i <= operation.content@.len(),
            all == contents_view(operation.content@),
            f == (|c: MathContentView| ancillary_of(c)),
            filter_map(all.take(i as int), f).len() == 0,
        decreases operation.content.len() - i,
    {
        proof {
            assert(all.take(i + 1).drop_last() =~= all.take(i as int));
            assert(all.take(i + 1).last() == operation.content@[i as int]@);
        }
        match &operation.content[i] {
            TriggeredMathContent::AncillaryDataSet(a) => {
                proof {
                    let t = all.take(i + 1);
                    assert(all =~= t + all.skip(i + 1));
                    lemma_filter_map_concat(t, all.skip(i + 1), f);
                    assert(filter_map(t, f) =~= seq![ancillary_view(a@)]);
                }
                return Some(a);
            },
            _ => {},
        }
        i = i + 1;
    }
    assert(all.take(operation.content.len() as int) =~= all);
    None
}

/// The first trigger set of an operation's content.
pub fn operation_trigger_set(operation: &TriggeredMathOperation) -> (r: Option<&TriggerSet>)
    ensures
        match r {
            Some(t) => first_trigger_set(contents_view(operation.content@)) == Some(t@),
            None => first_trigger_set(contents_view(operation.content@)) is None,
        },
{
    let ghost all = contents_view(operation.content@);
    let ghost f = |c: MathContentView| trigger_set_in(c);
    let mut i: usize = 0;
    while i < operation.content.len()
        invariant
            i <= operation.content@.len(),
            all == contents_view(operation.content@),
            f == (|c: MathContentView| trigger_set_in(c)),
            filter_map(all.take(i as int), f).len() == 0,
        decreases operation.content.len() - i,
    {
        proof {
            assert(all.take(i + 1).drop_last() =~= all.take(i as int));
            assert(all.take(i + 1).last() == operation.content@[i as int]@);
        }
        match &operation.content[i] {
            TriggeredMathContent::TriggerSet(t) => {
                proof {
                    let s = all.take(i + 1);
                    assert(all =~= s + all.skip(i + 1));
                    lemma_filter_map_concat(s, all.skip(i + 1), f);
                    assert(filter_map(s, f) =~= seq![t@]);
                }
                return Some(t);
            },
            _ => {},
        }
        i = i + 1;
    }
    assert(all.take(operation.content.len() as int) =~= all);
    None
}

/// Empties the content and gives back its first ancillary data set.
pub fn take_operation_ancillary_data_set(content: &mut Vec<TriggeredMathContent>) -> (r: Option<
    Vec<AncillaryData<String>>,
>)
    ensures
        final(content)@.len() == 0,
        match r {
            Some(a) => first_ancillary(contents_view(old(content)@)) == Some(ancillary_view(a@)),
            None => first_ancillary(contents_view(old(content)@)) is None,
        },
{
    let mut items: Vec<TriggeredMathContent> = Vec::new();
    std::mem::swap(&mut items, content);
    let ghost all = contents_view(items@);
    assert(items@ == old(content)@);
    let ghost f = |c: MathContentView| ancillary_of(c);
    let ghost n = items@.len();
    let mut k: usize = 0;
    while items.len() > 0
        invariant
            all == contents_view(old(content)@),
            contents_view(items@) == all.skip(n - items@.len()),
            items@.len() <= n,
            n == all.len(),
            f == (|c: MathContentView| ancillary_of(c)),
            filter_map(all.take(n - items@.len()), f).len() == 0,
            content@.len() == 0,
        decreases items.len(),
    {
        let ghost done: int = n - items@.len();
        let ghost old_items = items@;
        let item = items.remove(0);
        proof {
            assert(contents_view(old_items)[0] == old_items[0]@);
            assert(all.skip(done)[0] == all[done]);
            assert(item@ == all[done as int]);
            assert forall|j: int| 0 <= j < items@.len() implies #[trigger] contents_view(items@)[j]
                == all.skip(done + 1)[j] by {
                assert(items@[j] == old_items[j + 1]);
                assert(contents_view(old_items)[j + 1] == old_items[j + 1]@);
                assert(all.skip(done)[j + 1] == all[done + 1 + j]);
            }
            assert(contents_view(items@) =~= all.skip(done + 1));
            assert(all.take(done + 1).drop_last() =~= all.take(done as int));
            assert(all.take(done + 1).last() == all[done as int]);
        }
        match item {
            TriggeredMathContent::AncillaryDataSet(a) => {
                proof {
                    let t = all.take(done + 1);
                    assert(all =~= t + all.skip(done + 1));
                    lemma_filter_map_concat(t, all.skip(done + 1), f);
                    assert(filter_map(t, f) =~= seq![ancillary_view(a@)]);
                }
                return Some(a);
            },
            _ => {},
        }
        k = k;
    }
    assert(all.take(n as int) =~= all);
    None
}

/// Reading back what is written for an operation gives its entries, its
/// ancillary data set and its trigger set, when the entries are not empty
/// and use no argument instance.
pub proof fn lemma_operation_round_trip(
    ancillary: Option<Seq<AncillaryData<Seq<char>>>>,
    entries: Seq<RpnOperationEntry<Seq<char>>>,
    triggers: Option<TriggerSetView>,
)
    requires
        entries.len() > 0,
        no_arguments(entries),
    ensures
        ({
            let content = operation_content_of(
                ancillary,
                entries.map_values(|e: RpnOperationEntry<Seq<char>>| content_of_entry(e)),
                triggers,
            );
            &&& rpn_entries_of(content) == entries
            &&& first_ancillary(content) == ancillary
            &&& first_trigger_set(content) == triggers
        }),
{
    let body = entries.map_values(|e: RpnOperationEntry<Seq<char>>| content_of_entry(e));
    let head: Seq<MathContentView> = match ancillary {
        Some(a) => seq![MathContentView::AncillaryDataSet(a)],
        None => Seq::empty(),
    };
    let tail: Seq<MathContentView> = match triggers {
        Some(t) => seq![MathContentView::TriggerSet(t)],
        None => Seq::empty(),
    };
    let content = operation_content_of(ancillary, body, triggers);
    assert(content == head + body + tail);
    let fe = entry_reader();
    let fa = |c: MathContentView| ancillary_of(c);
    let ft = |c: MathContentView| trigger_set_in(c);
    lemma_filter_map_concat(head + body, tail, fe);
    lemma_filter_map_concat(head, body, fe);
    lemma_filter_map_concat(head + body, tail, fa);
    lemma_filter_map_concat(head, body, fa);
    lemma_filter_map_concat(head + body, tail, ft);
    lemma_filter_map_concat(head, body, ft);
    match ancillary {
        Some(a) => {
            lemma_filter_map_single(MathContentView::AncillaryDataSet(a), fe);
            lemma_filter_map_single(MathContentView::AncillaryDataSet(a), fa);
            lemma_filter_map_single(MathContentView::AncillaryDataSet(a), ft);
        },
        None => {
            assert(filter_map(head, fe) =~= Seq::<RpnOperationEntry<Seq<char>>>::empty());
            assert(filter_map(head, fa) =~= Seq::<Seq<AncillaryData<Seq<char>>>>::empty());
            assert(filter_map(head, ft) =~= Seq::<TriggerSetView>::empty());
        },
    }
    match triggers {
        Some(t) => {
            lemma_filter_map_single(MathContentView::TriggerSet(t), fe);
            lemma_filter_map_single(MathContentView::TriggerSet(t), fa);
            lemma_filter_map_single(MathContentView::TriggerSet(t), ft);
        },
        None => {
            assert(filter_map(tail, fe) =~= Seq::<RpnOperationEntry<Seq<char>>>::empty());
            assert(filter_map(tail, fa) =~= Seq::<Seq<AncillaryData<Seq<char>>>>::empty());
            assert(filter_map(tail, ft) =~= Seq::<TriggerSetView>::empty());
        },
    }
    assert forall|i: int| 0 <= i < body.len() implies fe(#[trigger] body[i]) == Some(entries[i]) by {
        assert(!(entries[i] is ArgumentInstance));
    }
    lemma_filter_map_all(body, fe, entries);
    lemma_filter_map_none(body, fa);
    lemma_filter_map_none(body, ft);
    assert(filter_map(head, fe) + entries + filter_map(tail, fe) =~= entries);
}

/// Operands and operators hold no ancillary data set and no trigger set.
proof fn lemma_filter_map_none<B>(body: Seq<MathContentView>, f: spec_fn(MathContentView) -> Option<B>)
    requires
        forall|i: int| 0 <= i < body.len() ==> (#[trigger] f(body[i])) is None,
    ensures
        filter_map(body, f) == Seq::<B>::empty(),
    decreases body.len(),
{
    if body.len() > 0 {
        assert forall|i: int| 0 <= i < body.drop_last().len() implies (#[trigger] f(
            body.drop_last()[i],
        )) is None by {
            assert(body.drop_last()[i] == body[i]);
        }
        lemma_filter_map_none(body.drop_last(), f);
        assert(f(body[body.len() - 1]) is None);
    }
}


// ---------------------------------------------------------------------
// Math algorithms and their form
// ---------------------------------------------------------------------

/// The value of a triggered math operation.
pub struct MathOperationView {
    pub name: Option<Seq<char>>,
    pub short_description: Option<Seq<char>>,
    pub output_parameter_ref: Seq<char>,
    pub content: Seq<MathContentView>,
}

impl View for TriggeredMathOperation {
    type V = MathOperationView;

    open spec fn view(&self) -> MathOperationView {
        MathOperationView {
            name: opt_text(self.name),
            short_description: opt_text(self.short_description),
            output_parameter_ref: self.output_parameter_ref@,
            content: contents_view(self.content@),
        }
    }
}

/// An algorithm given by one math operation.
#[derive(Debug)]
pub struct MathAlgorithm {
    pub short_description: Option<String>,
    pub name: String,
    pub long_description: Option<String>,
    pub alias_set: Option<Vec<Alias<String>>>,
    pub ancillary_data_set: Option<Vec<AncillaryData<String>>>,
    pub math_operation: TriggeredMathOperation,
}

/// The value of a math algorithm.
pub struct MathAlgorithmView {
    pub short_description: Option<Seq<char>>,
    pub name: Seq<char>,
    pub long_description: Option<Seq<char>>,
    pub alias_set: Option<Seq<Alias<Seq<char>>>>,
    pub ancillary_data_set: Option<Seq<AncillaryData<Seq<char>>>>,
    pub math_operation: MathOperationView,
}

impl View for MathAlgorithm {
    type V = MathAlgorithmView;

    open spec fn view(&self) -> MathAlgorithmView {
        MathAlgorithmView {
            short_description: opt_text(self.short_description),
            name: self.name@,
            long_description: opt_text(self.long_description),
            alias_set: match self.alias_set {
                Some(v) => Some(aliases_view(v@)),
                None => None,
            },
            ancillary_data_set: opt_ancillary_view(self.ancillary_data_set),
            math_operation: self.math_operation@,
        }
    }
}

/// A new math algorithm: only its name, and an operation whose one entry
/// is the value `0`, so that it is valid from the start.
pub open spec fn new_math_algorithm(name: Seq<char>) -> MathAlgorithmView {
    MathAlgorithmView {
        short_description: None,
        name,
        long_description: None,
        alias_set: None,
        ancillary_data_set: None,
        math_operation: MathOperationView {
            name: None,
            short_description: None,
            output_parameter_ref: Seq::empty(),
            content: seq![zero_operand()],
        },
    }
}

/// A new math algorithm (see [`new_math_algorithm`]).
pub fn default_math_algorithm(name: String) -> (r: MathAlgorithm)
    ensures
        r@ == new_math_algorithm(name@),
{
    let digits = vec!['0'];
    assert(digits@ =~= seq!['0']);
    let zero = string_of(&digits);
    let content = vec![TriggeredMathContent::ValueOperand(zero)];
    let r = MathAlgorithm {
        short_description: None,
        name,
        long_description: None,
        alias_set: None,
        ancillary_data_set: None,
        math_operation: TriggeredMathOperation {
            name: None,
            short_description: None,
            output_parameter_ref: String::new(),
            content,
        },
    };
    assert(r.math_operation.content@[0]@ == zero_operand());
    assert(contents_view(r.math_operation.content@) =~= seq![zero_operand()]);
    r
}

/// The texts and entries of the math algorithm form.
#[derive(Debug)]
pub struct MathAlgorithmValues {
    pub name: String,
    pub short_description: String,
    pub long_description: String,
    pub operation_name: String,
    pub operation_short_description: String,
    pub output_parameter_ref: String,
    pub operation_entries: Vec<RpnOperationEntry<String>>,
    pub trigger_set_name: String,
    pub trigger_rate: String,
    pub triggers: String,
}

/// The value of [`MathAlgorithmValues`].
pub struct MathValuesView {
    pub name: Seq<char>,
    pub short_description: Seq<char>,
    pub long_description: Seq<char>,
    pub operation_name: Seq<char>,
    pub operation_short_description: Seq<char>,
    pub output_parameter_ref: Seq<char>,
    pub operation_entries: Seq<RpnOperationEntry<Seq<char>>>,
    pub trigger_set_name: Seq<char>,
    pub trigger_rate: Seq<char>,
    pub triggers: Seq<char>,
}

impl View for MathAlgorithmValues {
    type V = MathValuesView;

    open spec fn view(&self) -> MathValuesView {
        MathValuesView {
            name: self.name@,
            short_description: self.short_description@,
            long_description: self.long_description@,
            operation_name: self.operation_name@,
            operation_short_description: self.operation_short_description@,
            output_parameter_ref: self.output_parameter_ref@,
            operation_entries: entries_view(self.operation_entries@),
            trigger_set_name: self.trigger_set_name@,
            trigger_rate: self.trigger_rate@,
            triggers: self.triggers@,
        }
    }
}

/// The texts and entries the form shows for a math algorithm, or for none.
pub open spec fn math_values_of(a: Option<MathAlgorithmView>) -> MathValuesView {
    match a {
        Some(a) => {
            let t = trigger_texts(first_trigger_set(a.math_operation.content));
            MathValuesView {
                name: a.name,
                short_description: text_or_empty(a.short_description),
                long_description: text_or_empty(a.long_description),
                operation_name: text_or_empty(a.math_operation.name),
                operation_short_description: text_or_empty(a.math_operation.short_description),
                output_parameter_ref: a.math_operation.output_parameter_ref,
                operation_entries: rpn_entries_of(a.math_operation.content),
                trigger_set_name: t.0,
                trigger_rate: t.1,
                triggers: t.2,
            }
        },
        None => {
            let t = trigger_texts(None);
            MathValuesView {
                name: Seq::empty(),
                short_description: Seq::empty(),
                long_description: Seq::empty(),
                operation_name: Seq::empty(),
                operation_short_description: Seq::empty(),
                output_parameter_ref: Seq::empty(),
                operation_entries: Seq::empty(),
                trigger_set_name: t.0,
                trigger_rate: t.1,
                triggers: t.2,
            }
        },
    }
}

/// The texts and entries the form shows for a math algorithm (see
/// [`math_values_of`]).
pub fn math_algorithm_values(algorithm: Option<&MathAlgorithm>) -> (r: MathAlgorithmValues)
    ensures
        r@ == math_values_of(
            match algorithm {
                Some(a) => Some(a@),
                None => None,
            },
        ),
{
    match algorithm {
        Some(a) => {
            let op = &a.math_operation;
            let (trigger_set_name, trigger_rate, triggers) = trigger_set_texts(
                operation_trigger_set(op),
            );
            MathAlgorithmValues {
                name: a.name.clone(),
                short_description: text_of(&a.short_description),
                long_description: text_of(&a.long_description),
                operation_name: text_of(&op.name),
                operation_short_description: text_of(&op.short_description),
                output_parameter_ref: op.output_parameter_ref.clone(),
                operation_entries: rpn_entries_from_operation(Some(op)),
                trigger_set_name,
                trigger_rate,
                triggers,
            }
        },
        None => {
            let (trigger_set_name, trigger_rate, triggers) = trigger_set_texts(None);
            let operation_entries = rpn_entries_from_operation(None);
            MathAlgorithmValues {
                name: String::new(),
                short_description: String::new(),
                long_description: String::new(),
                operation_name: String::new(),
                operation_short_description: String::new(),
                output_parameter_ref: String::new(),
                operation_entries,
                trigger_set_name,
                trigger_rate,
                triggers,
            }
        },
    }
}

/// The math algorithm the form gives, with the alias and ancillary data
/// sets of its sub-forms and the ancillary data set of the operation's
/// sub-form. The names and the output parameter are taken as they are;
/// the descriptions are trimmed and blank ones give nothing; the
/// operation's content is written from its ancillary data set, its
/// entries and the trigger set of the trigger texts (see
/// [`operation_content_of`]).
pub open spec fn math_algorithm_of(
    v: MathValuesView,
    alias_set: Option<Seq<Alias<Seq<char>>>>,
    ancillary_data_set: Option<Seq<AncillaryData<Seq<char>>>>,
    operation_ancillary: Option<Seq<AncillaryData<Seq<char>>>>,
) -> MathAlgorithmView {
    MathAlgorithmView {
        short_description: optional_text(v.short_description),
        name: v.name,
        long_description: optional_text(v.long_description),
        alias_set,
        ancillary_data_set,
        math_operation: MathOperationView {
            name: optional_text(v.operation_name),
            short_description: optional_text(v.operation_short_description),
            output_parameter_ref: v.output_parameter_ref,
            content: operation_content_of(
                operation_ancillary,
                v.operation_entries.map_values(|e: RpnOperationEntry<Seq<char>>| content_of_entry(e)),
                trigger_set_of(v.trigger_set_name, v.trigger_rate, v.triggers),
            ),
        },
    }
}

/// Sets a math algorithm from the form's texts and entries and the rows of
/// its alias, ancillary data and operation ancillary data sub-forms (see
/// [`math_algorithm_of`]). The entries hold no argument instance, which
/// only commands use.
pub fn apply_math_algorithm(
    values: &MathAlgorithmValues,
    alias_rows: &Vec<Alias<String>>,
    ancillary_rows: &Vec<AncillaryRow>,
    operation_ancillary_rows: &Vec<AncillaryRow>,
    algorithm: &mut MathAlgorithm,
)
    requires
        no_arguments(entries_view(values.operation_entries@)),
    ensures
        final(algorithm)@ == math_algorithm_of(
            values@,
            alias_set_of(alias_rows@),
            ancillary_set_of(ancillary_rows@),
            ancillary_set_of(operation_ancillary_rows@),
        ),
{
    algorithm.name = values.name.clone();
    algorithm.short_description = optional(values.short_description.as_str());
    algorithm.long_description = optional(values.long_description.as_str());
    algorithm.alias_set = crate::alias::value(alias_rows);
    algorithm.ancillary_data_set = crate::ancillary::value(ancillary_rows);
    let op = &mut algorithm.math_operation;
    op.name = optional(values.operation_name.as_str());
    op.short_description = optional(values.operation_short_description.as_str());
    op.output_parameter_ref = values.output_parameter_ref.clone();
    let _ = take_operation_ancillary_data_set(&mut op.content);
    let ancillary = crate::ancillary::value(operation_ancillary_rows);
    let entries = contents_from_entries(copy_entries(&values.operation_entries));
    let trigger_set = decode_triggers(
        values.trigger_set_name.as_str(),
        values.trigger_rate.as_str(),
        values.triggers.as_str(),
    );
    op.content = operation_content(ancillary, entries, trigger_set);
}

/// A copy of an entry.
fn copy_entry(e: &RpnOperationEntry<String>) -> (r: RpnOperationEntry<String>)
    ensures
        r@ == e@,
{
    match e {
        RpnOperationEntry::Value(v) => RpnOperationEntry::Value(v.clone()),
        RpnOperationEntry::ThisParameter(v) => RpnOperationEntry::ThisParameter(v.clone()),
        RpnOperationEntry::Operator(v) => RpnOperationEntry::Operator(v.clone()),
        RpnOperationEntry::ParameterInstance { parameter_ref, instance, use_calibrated_value } =>
            RpnOperationEntry::ParameterInstance {
            parameter_ref: parameter_ref.clone(),
            instance: *instance,
            use_calibrated_value: *use_calibrated_value,
        },
        RpnOperationEntry::ArgumentInstance { argument_ref, use_calibrated_value } =>
            RpnOperationEntry::ArgumentInstance {
            argument_ref: argument_ref.clone(),
            use_calibrated_value: *use_calibrated_value,
        },
    }
}

/// A copy of a list of entries.
fn copy_entries(v: &Vec<RpnOperationEntry<String>>) -> (r: Vec<RpnOperationEntry<String>>)
    ensures
        entries_view(r@) == entries_view(v@),
{
    let mut r: Vec<RpnOperationEntry<String>> = Vec::new();
    let mut i: usize = 0;
    while i < v.len()
        invariant
            i <= v@.len(),
            r@.len() == i,
            forall|j: int| 0 <= j < i ==> (#[trigger] r@[j])@ == v@[j]@,
        decreases v.len() - i,
    {
        r.push(copy_entry(&v[i]));
        i = i + 1;
    }
    assert(entries_view(r@) =~= entries_view(v@));
    r
}


/// What the math algorithm form shows for an algorithm builds the same
/// algorithm back, when its descriptions and names are non-empty and
/// trimmed if present and its operation's content is written from an
/// ancillary data set, entries (not empty, with no argument instance) and
/// a clean trigger set (see [`clean_trigger_set`]); its sub-forms give
/// back the alias and ancillary data sets.
pub proof fn lemma_math_round_trip(
    a: MathAlgorithmView,
    ancillary: Option<Seq<AncillaryData<Seq<char>>>>,
    entries: Seq<RpnOperationEntry<Seq<char>>>,
    triggers: Option<TriggerSetView>,
)
    requires
        clean_optional(a.short_description),
        clean_optional(a.long_description),
        clean_optional(a.math_operation.name),
        clean_optional(a.math_operation.short_description),
        entries.len() > 0,
        no_arguments(entries),
        clean_trigger_set(triggers),
        a.math_operation.content == operation_content_of(
            ancillary,
            entries.map_values(|e: RpnOperationEntry<Seq<char>>| content_of_entry(e)),
            triggers,
        ),
    ensures
        math_algorithm_of(math_values_of(Some(a)), a.alias_set, a.ancillary_data_set, ancillary)
            == a,
{
    lemma_operation_round_trip(ancillary, entries, triggers);
    lemma_trigger_set_round_trip(triggers);
    crate::fields::lemma_optional_back(a.short_description);
    crate::fields::lemma_optional_back(a.long_description);
    crate::fields::lemma_optional_back(a.math_operation.name);
    crate::fields::lemma_optional_back(a.math_operation.short_description);
}

} // verus!

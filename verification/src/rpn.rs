//! Entries of a math operation in reverse Polish notation, as the
//! operation editor lists them, and their one-line previews.
use vstd::prelude::*;
use crate::number::{i64_text, int_text};
use crate::text::{append_chars, chars_of, join, join_chars, string_of};

verus! {

/// One entry of a math operation, in reverse Polish order.
#[derive(Clone, Debug, PartialEq, Eq)]
pub enum RpnOperationEntry<S> {
    /// A literal value.
    Value(S),
    /// The value of the parameter being calibrated.
    ThisParameter(S),
    /// An operator.
    Operator(S),
    /// An instance of a parameter.
    ParameterInstance { parameter_ref: S, instance: i64, use_calibrated_value: bool },
    /// An instance of an argument.
    ArgumentInstance { argument_ref: S, use_calibrated_value: bool },
}

impl View for RpnOperationEntry<String> {
    type V = RpnOperationEntry<Seq<char>>;

    open spec fn view(&self) -> RpnOperationEntry<Seq<char>> {
        match self {
            RpnOperationEntry::Value(s) => RpnOperationEntry::Value(s@),
            RpnOperationEntry::ThisParameter(s) => RpnOperationEntry::ThisParameter(s@),
            RpnOperationEntry::Operator(s) => RpnOperationEntry::Operator(s@),
            RpnOperationEntry::ParameterInstance { parameter_ref, instance, use_calibrated_value } =>
                RpnOperationEntry::ParameterInstance {
                parameter_ref: parameter_ref@,
                instance: *instance,
                use_calibrated_value: *use_calibrated_value,
            },
            RpnOperationEntry::ArgumentInstance { argument_ref, use_calibrated_value } =>
                RpnOperationEntry::ArgumentInstance {
                argument_ref: argument_ref@,
                use_calibrated_value: *use_calibrated_value,
            },
        }
    }
}

/// The values of a list of entries.
pub open spec fn entries_view(v: Seq<RpnOperationEntry<String>>) -> Seq<RpnOperationEntry<Seq<char>>> {
    v.map_values(|e: RpnOperationEntry<String>| e@)
}

/// Whether no entry is an argument instance (which only commands use).
pub open spec fn no_arguments(s: Seq<RpnOperationEntry<Seq<char>>>) -> bool {
    forall|i: int| 0 <= i < s.len() ==> !(#[trigger] s[i] is ArgumentInstance)
}

/// How an entry reads in a preview: a value or operator as it is, `this(..)`
/// around the parameter the operation calibrates, `ref[instance]` for a
/// parameter instance.
pub open spec fn entry_preview(e: RpnOperationEntry<Seq<char>>) -> Seq<char> {
    match e {
        RpnOperationEntry::Value(v) => v,
        RpnOperationEntry::ThisParameter(v) => seq!['t', 'h', 'i', 's', '('] + v + seq![')'],
        RpnOperationEntry::Operator(v) => v,
        RpnOperationEntry::ParameterInstance { parameter_ref, instance, .. } => parameter_ref
            + seq!['['] + int_text(instance as int) + seq![']'],
        RpnOperationEntry::ArgumentInstance { argument_ref, .. } => argument_ref,
    }
}

/// How an entry reads in a preview (see [`entry_preview`]).
pub fn rpn_entry_preview(entry: &RpnOperationEntry<String>) -> (r: String)
    requires
        !(entry@ is ArgumentInstance),
    ensures
        r@ == entry_preview(entry@),
{
    match entry {
        RpnOperationEntry::Value(v) => v.clone(),
        RpnOperationEntry::ThisParameter(v) => {
            let mut out = vec!['t', 'h', 'i', 's', '('];
            append_chars(&mut out, &chars_of(v.as_str()));
            out.push(')');
            assert(out@ =~= entry_preview(entry@));
            string_of(&out)
        },
        RpnOperationEntry::Operator(v) => v.clone(),
        RpnOperationEntry::ParameterInstance { parameter_ref, instance, .. } => {
            let mut out = chars_of(parameter_ref.as_str());
            out.push('[');
            append_chars(&mut out, &i64_text(*instance));
            out.push(']');
            assert(out@ =~= entry_preview(entry@));
            string_of(&out)
        },
        RpnOperationEntry::ArgumentInstance { .. } => {
            proof {
                assert(false);
            }
            String::new()
        },
    }
}

/// The preview of a whole operation: the entries' previews separated by
/// two spaces.
pub open spec fn operation_preview(s: Seq<RpnOperationEntry<Seq<char>>>) -> Seq<char> {
    join(s.map_values(|e: RpnOperationEntry<Seq<char>>| entry_preview(e)), seq![' ', ' '])
}

/// The preview of a whole operation (see [`operation_preview`]).
pub fn rpn_preview(entries: &Vec<RpnOperationEntry<String>>) -> (r: Vec<char>)
    requires
        no_arguments(entries_view(entries@)),
    ensures
        r@ == operation_preview(entries_view(entries@)),
{
    let mut items: Vec<Vec<char>> = Vec::new();
    let mut i: usize = 0;
    while i < entries.len()
        invariant
            i <= entries@.len(),
            no_arguments(entries_view(entries@)),
            items@.len() == i,
            forall|k: int| 0 <= k < i ==> #[trigger] items@[k]@ == entry_preview(entries@[k]@),
        decreases entries.len() - i,
    {
        assert(entries_view(entries@)[i as int] == entries@[i as int]@);
        let p = rpn_entry_preview(&entries[i]);
        items.push(chars_of(p.as_str()));
        i = i + 1;
    }
    let sep = vec![' ', ' '];
    assert(sep@ =~= seq![' ', ' ']);
    assert(items@.map_values(|x: Vec<char>| x@) =~= entries_view(entries@).map_values(
        |e: RpnOperationEntry<Seq<char>>| entry_preview(e),
    ));
    join_chars(&items, &sep)
}

} // verus!

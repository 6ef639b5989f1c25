//! Custom algorithms: the compact text forms of their external algorithms,
//! inputs, outputs and triggers, one item per line.
use vstd::prelude::*;
use crate::fields::{optional_text, text_of};
use crate::number::{
    i64_text, int_text, is_float_chars, is_float_text, lemma_i64_round_trip, parse_i64,
    parse_i64_spec, parse_u32, parse_u32_spec,
};
use crate::text::{
    append_chars, bool_chars, bool_text, chars_of, filter_map, find_char, has_char, index_of,
    is_trimmed, join, join_chars, lines, lines_of, one_line, parse_bool, parse_bool_spec,
    same_chars, slice_chars, split_char, split_chars, split_once, string_of, trim, trim_all,
    trim_chars, lemma_bool_text, lemma_filter_map_all, lemma_has_char_concat,
    lemma_index_of_concat, lemma_lines_join, lemma_one_line_concat, lemma_padded_plain,
    lemma_single_has_char, lemma_split_char_first, lemma_split_char_single, lemma_trim_padded,
};

verus! {

/// The value of an optional text.
pub open spec fn opt_text(o: Option<String>) -> Option<Seq<char>> {
    match o {
        Some(s) => Some(s@),
        None => None,
    }
}

/// The text of an optional value, empty when there is none.
pub open spec fn text_or_empty(o: Option<Seq<char>>) -> Seq<char> {
    match o {
        Some(s) => s,
        None => Seq::empty(),
    }
}

/// The separator written between the columns of a line.
pub open spec fn column_separator() -> Seq<char> {
    seq![' ', '|', ' ']
}

/// The two trimmed columns of a line split at its first `|`.
pub open spec fn two_columns(line: Seq<char>) -> Option<(Seq<char>, Seq<char>)> {
    match split_once(line, '|') {
        Some((a, b)) => Some((trim(a), trim(b))),
        None => None,
    }
}

/// The first column of a line (all of it when it has no `|`), trimmed.
pub open spec fn first_column(line: Seq<char>) -> Seq<char> {
    match split_once(line, '|') {
        Some((a, _)) => trim(a),
        None => trim(line),
    }
}

/// Splitting `a + " | " + b`, where `a` is trimmed and has no `|`, gives
/// `a` and `b` back when `b` is trimmed.
proof fn lemma_two_columns(a: Seq<char>, b: Seq<char>)
    requires
        !has_char(a, '|'),
        is_trimmed(a),
        is_trimmed(b),
    ensures
        two_columns(a + column_separator() + b) == Some((a, b)),
        first_column(a + column_separator() + b) == a,
{
    let head = a + seq![' '];
    let tail = seq!['|'] + (seq![' '] + b);
    let line = a + column_separator() + b;
    assert(line =~= head + tail);
    lemma_has_char_concat(a, seq![' '], '|');
    lemma_single_has_char(' ', '|');
    lemma_index_of_concat(head, tail, '|');
    assert(line.take(head.len() as int) =~= head);
    assert(line.skip(head.len() as int + 1) =~= seq![' '] + b);
    lemma_trim_padded(a);
    lemma_trim_padded(b);
}

proof fn lemma_two_column_line(a: Seq<char>, b: Seq<char>)
    requires
        one_line(a),
        one_line(b),
    ensures
        one_line(a + column_separator() + b),
        (a + column_separator() + b).len() > 0,
{
    lemma_single_has_char(' ', '\n');
    lemma_single_has_char(' ', '\r');
    lemma_single_has_char('|', '\n');
    lemma_single_has_char('|', '\r');
    let sep = column_separator();
    assert(sep =~= seq![' '] + seq!['|'] + seq![' ']);
    lemma_one_line_concat(seq![' '], seq!['|']);
    lemma_one_line_concat(seq![' '] + seq!['|'], seq![' ']);
    lemma_one_line_concat(a, sep);
    lemma_one_line_concat(a + sep, b);
}

/// Reads the two trimmed columns of a line (see [`two_columns`]).
fn split_columns(line: &Vec<char>) -> (r: (Vec<char>, Option<Vec<char>>))
    ensures
        r.0@ == first_column(line@),
        match r.1 {
            Some(b) => two_columns(line@) == Some((r.0@, b@)),
            None => two_columns(line@) is None,
        },
{
    match find_char(line, '|') {
        Some(i) => {
            let before = slice_chars(line, 0, i);
            let after = slice_chars(line, i + 1, line.len());
            assert(before@ =~= line@.take(i as int));
            assert(after@ =~= line@.skip(i + 1));
            (trim_chars(&before), Some(trim_chars(&after)))
        },
        None => (trim_chars(line), None),
    }
}

/// Appends `a + " | " + b` to `out`.
pub(crate) fn push_columns(out: &mut Vec<char>, a: &Vec<char>, b: &Vec<char>)
    ensures
        final(out)@ == old(out)@ + a@ + column_separator() + b@,
{
    append_chars(out, a);
    out.push(' ');
    out.push('|');
    out.push(' ');
    append_chars(out, b);
    assert(final(out)@ =~= old(out)@ + a@ + column_separator() + b@);
}

/// A string of the lines joined by line feeds.
pub(crate) fn join_lines(items: &Vec<Vec<char>>) -> (r: String)
    ensures
        r@ == join(items@.map_values(|x: Vec<char>| x@), seq!['\n']),
{
    let nl = vec!['\n'];
    let joined = join_chars(items, &nl);
    assert(nl@ =~= seq!['\n']);
    string_of(&joined)
}

// ---------------------------------------------------------------------
// External algorithms
// ---------------------------------------------------------------------

/// An external implementation of an algorithm: its name and location.
#[derive(Debug)]
pub struct ExternalAlgorithm<S> {
    pub implementation_name: S,
    pub algorithm_location: S,
}

impl View for ExternalAlgorithm<String> {
    type V = ExternalAlgorithm<Seq<char>>;

    open spec fn view(&self) -> ExternalAlgorithm<Seq<char>> {
        ExternalAlgorithm {
            implementation_name: self.implementation_name@,
            algorithm_location: self.algorithm_location@,
        }
    }
}

/// The values of a list of external algorithms.
pub open spec fn externals_view(v: Seq<ExternalAlgorithm<String>>) -> Seq<ExternalAlgorithm<Seq<char>>> {
    v.map_values(|a: ExternalAlgorithm<String>| a@)
}

/// The external algorithm on a line: both columns present and non-empty.
pub open spec fn external_of_line(line: Seq<char>) -> Option<ExternalAlgorithm<Seq<char>>> {
    match two_columns(line) {
        Some((a, b)) => if a.len() == 0 || b.len() == 0 {
            None
        } else {
            Some(ExternalAlgorithm { implementation_name: a, algorithm_location: b })
        },
        None => None,
    }
}

/// [`external_of_line`] as a function value.
pub open spec fn external_parser() -> spec_fn(Seq<char>) -> Option<ExternalAlgorithm<Seq<char>>> {
    |line: Seq<char>| external_of_line(line)
}

/// The external algorithms a text holds, one per line.
pub open spec fn decoded_externals(text: Seq<char>) -> Seq<ExternalAlgorithm<Seq<char>>> {
    filter_map(lines(text), external_parser())
}

/// The line written for an external algorithm: `name | location`.
pub open spec fn external_line(a: ExternalAlgorithm<Seq<char>>) -> Seq<char> {
    a.implementation_name + column_separator() + a.algorithm_location
}

/// The text written for external algorithms.
pub open spec fn externals_text(s: Seq<ExternalAlgorithm<Seq<char>>>) -> Seq<char> {
    join(s.map_values(|a: ExternalAlgorithm<Seq<char>>| external_line(a)), seq!['\n'])
}

/// The external algorithm set of a text, when it holds at least one.
pub fn decode_external_algorithms(value: &str) -> (r: Option<Vec<ExternalAlgorithm<String>>>)
    ensures
        match r {
            Some(v) => decoded_externals(value@).len() > 0 && externals_view(v@)
                == decoded_externals(value@),
            None => decoded_externals(value@).len() == 0,
        },
{
    let ls = lines_of(&chars_of(value));
    let ghost all = lines(value@);
    let mut out: Vec<ExternalAlgorithm<String>> = Vec::new();
    let mut i: usize = 0;
    while i < ls.len()
        invariant
            i <= ls@.len(),
            all == lines(value@),
            ls@.len() == all.len(),
            forall|k: int| 0 <= k < ls@.len() ==> #[trigger] ls@[k]@ == all[k],
            externals_view(out@) == filter_map(all.take(i as int), external_parser()),
        decreases ls.len() - i,
    {
        let ghost before = out@;
        let (a, b) = split_columns(&ls[i]);
        proof {
            assert(all.take(i + 1).drop_last() =~= all.take(i as int));
            assert(all.take(i + 1).last() == ls@[i as int]@);
        }
        match b {
            Some(b) => {
                if a.len() > 0 && b.len() > 0 {
                    out.push(
                        ExternalAlgorithm {
                            implementation_name: string_of(&a),
                            algorithm_location: string_of(&b),
                        },
                    );
                    assert(externals_view(out@) =~= externals_view(before).push(out@.last()@));
                }
            },
            None => {},
        }
        i = i + 1;
    }
    assert(all.take(ls.len() as int) =~= all);
    if out.len() == 0 {
        None
    } else {
        Some(out)
    }
}

/// The text written for an optional external algorithm set.
pub fn encode_external_algorithms(set: Option<&Vec<ExternalAlgorithm<String>>>) -> (r: String)
    ensures
        r@ == externals_text(
            match set {
                Some(v) => externals_view(v@),
                None => Seq::empty(),
            },
        ),
{
    let mut items: Vec<Vec<char>> = Vec::new();
    match set {
        Some(v) => {
            let mut i: usize = 0;
            while i < v.len()
                invariant
                    i <= v@.len(),
                    items@.len() == i,
                    forall|k: int| 0 <= k < i ==> #[trigger] items@[k]@ == external_line(v@[k]@),
                decreases v.len() - i,
            {
                let mut line: Vec<char> = Vec::new();
                push_columns(
                    &mut line,
                    &chars_of(v[i].implementation_name.as_str()),
                    &chars_of(v[i].algorithm_location.as_str()),
                );
                assert(line@ =~= external_line(v@[i as int]@));
                items.push(line);
                i = i + 1;
            }
            assert(items@.map_values(|x: Vec<char>| x@) =~= externals_view(v@).map_values(
                |a: ExternalAlgorithm<Seq<char>>| external_line(a),
            ));
        },
        None => {
            assert(items@.map_values(|x: Vec<char>| x@) =~= Seq::<ExternalAlgorithm<Seq<char>>>::empty().map_values(
                |a: ExternalAlgorithm<Seq<char>>| external_line(a),
            ));
        },
    }
    join_lines(&items)
}

/// Whether an external algorithm is written and read back unchanged: both
/// columns non-empty, trimmed and on one line, no `|` in the name.
pub open spec fn clean_external(a: ExternalAlgorithm<Seq<char>>) -> bool {
    &&& a.implementation_name.len() > 0 && is_trimmed(a.implementation_name)
    &&& !has_char(a.implementation_name, '|') && one_line(a.implementation_name)
    &&& a.algorithm_location.len() > 0 && is_trimmed(a.algorithm_location)
    &&& one_line(a.algorithm_location)
}

/// External algorithms written as text read back unchanged when each is
/// clean (see [`clean_external`]).
pub proof fn lemma_externals_round_trip(s: Seq<ExternalAlgorithm<Seq<char>>>)
    requires
        forall|i: int| 0 <= i < s.len() ==> clean_external(#[trigger] s[i]),
    ensures
        decoded_externals(externals_text(s)) == s,
{
    let items = s.map_values(|a: ExternalAlgorithm<Seq<char>>| external_line(a));
    assert forall|i: int| 0 <= i < items.len() implies !has_char(#[trigger] items[i], '\n')
        && !has_char(items[i], '\r') && items[i].len() > 0 && external_parser()(items[i])
        == Some(s[i]) by {
        lemma_two_columns(s[i].implementation_name, s[i].algorithm_location);
        lemma_two_column_line(s[i].implementation_name, s[i].algorithm_location);
    }
    if items.len() > 0 {
        assert(items.last() == items[items.len() - 1]);
    }
    lemma_lines_join(items);
    lemma_filter_map_all(items, external_parser(), s);
}

// ---------------------------------------------------------------------
// Outputs
// ---------------------------------------------------------------------

/// An output of an algorithm: the parameter it sets and an optional name.
#[derive(Debug)]
pub struct OutputRef<S> {
    pub parameter_ref: S,
    pub output_name: Option<S>,
}

impl View for OutputRef<String> {
    type V = OutputRef<Seq<char>>;

    open spec fn view(&self) -> OutputRef<Seq<char>> {
        OutputRef { parameter_ref: self.parameter_ref@, output_name: opt_text(self.output_name) }
    }
}

/// The values of a list of outputs.
pub open spec fn outputs_view(v: Seq<OutputRef<String>>) -> Seq<OutputRef<Seq<char>>> {
    v.map_values(|a: OutputRef<String>| a@)
}

/// The output on a line: a non-empty first column, and the second as its
/// name when it is there and not empty.
pub open spec fn output_of_line(line: Seq<char>) -> Option<OutputRef<Seq<char>>> {
    let p = first_column(line);
    if p.len() == 0 {
        None
    } else {
        Some(
            OutputRef {
                parameter_ref: p,
                output_name: match two_columns(line) {
                    Some((_, b)) => if b.len() == 0 {
                        None
                    } else {
                        Some(b)
                    },
                    None => None,
                },
            },
        )
    }
}

/// [`output_of_line`] as a function value.
pub open spec fn output_parser() -> spec_fn(Seq<char>) -> Option<OutputRef<Seq<char>>> {
    |line: Seq<char>| output_of_line(line)
}

/// The outputs a text holds, one per line.
pub open spec fn decoded_outputs(text: Seq<char>) -> Seq<OutputRef<Seq<char>>> {
    filter_map(lines(text), output_parser())
}

/// The line written for an output: `parameter | name`, the name empty when
/// there is none.
pub open spec fn output_line(a: OutputRef<Seq<char>>) -> Seq<char> {
    a.parameter_ref + column_separator() + text_or_empty(a.output_name)
}

/// The text written for outputs.
pub open spec fn outputs_text(s: Seq<OutputRef<Seq<char>>>) -> Seq<char> {
    join(s.map_values(|a: OutputRef<Seq<char>>| output_line(a)), seq!['\n'])
}

/// The output set of a text, when it holds at least one output.
pub fn decode_outputs(value: &str) -> (r: Option<Vec<OutputRef<String>>>)
    ensures
        match r {
            Some(v) => decoded_outputs(value@).len() > 0 && outputs_view(v@) == decoded_outputs(
                value@,
            ),
            None => decoded_outputs(value@).len() == 0,
        },
{
    let ls = lines_of(&chars_of(value));
    let ghost all = lines(value@);
    let mut out: Vec<OutputRef<String>> = Vec::new();
    let mut i: usize = 0;
    while i < ls.len()
        invariant
            i <= ls@.len(),
            all == lines(value@),
            ls@.len() == all.len(),
            forall|k: int| 0 <= k < ls@.len() ==> #[trigger] ls@[k]@ == all[k],
            outputs_view(out@) == filter_map(all.take(i as int), output_parser()),
        decreases ls.len() - i,
    {
        let ghost before = out@;
        let (a, b) = split_columns(&ls[i]);
        proof {
            assert(all.take(i + 1).drop_last() =~= all.take(i as int));
            assert(all.take(i + 1).last() == ls@[i as int]@);
        }
        if a.len() > 0 {
            let output_name = match b {
                Some(b) => if b.len() == 0 {
                    None
                } else {
                    Some(string_of(&b))
                },
                None => None,
            };
            out.push(OutputRef { parameter_ref: string_of(&a), output_name });
            assert(outputs_view(out@) =~= outputs_view(before).push(out@.last()@));
        }
        i = i + 1;
    }
    assert(all.take(ls.len() as int) =~= all);
    if out.len() == 0 {
        None
    } else {
        Some(out)
    }
}

/// The text written for an optional output set.
pub fn encode_outputs(set: Option<&Vec<OutputRef<String>>>) -> (r: String)
    ensures
        r@ == outputs_text(
            match set {
                Some(v) => outputs_view(v@),
                None => Seq::empty(),
            },
        ),
{
    let mut items: Vec<Vec<char>> = Vec::new();
    match set {
        Some(v) => {
            let mut i: usize = 0;
            while i < v.len()
                invariant
                    i <= v@.len(),
                    items@.len() == i,
                    forall|k: int| 0 <= k < i ==> #[trigger] items@[k]@ == output_line(v@[k]@),
                decreases v.len() - i,
            {
                let name = match &v[i].output_name {
                    Some(n) => chars_of(n.as_str()),
                    None => Vec::new(),
                };
                assert(name@ =~= text_or_empty(opt_text(v@[i as int].output_name)));
                let mut line: Vec<char> = Vec::new();
                push_columns(&mut line, &chars_of(v[i].parameter_ref.as_str()), &name);
                assert(line@ =~= output_line(v@[i as int]@));
                items.push(line);
                i = i + 1;
            }
            assert(items@.map_values(|x: Vec<char>| x@) =~= outputs_view(v@).map_values(
                |a: OutputRef<Seq<char>>| output_line(a),
            ));
        },
        None => {
            assert(items@.map_values(|x: Vec<char>| x@) =~= Seq::<OutputRef<Seq<char>>>::empty().map_values(
                |a: OutputRef<Seq<char>>| output_line(a),
            ));
        },
    }
    join_lines(&items)
}

/// Whether an output is written and read back unchanged: a non-empty
/// parameter without `|`, a given name not empty, both trimmed and on one
/// line.
pub open spec fn clean_output(a: OutputRef<Seq<char>>) -> bool {
    &&& a.parameter_ref.len() > 0 && is_trimmed(a.parameter_ref)
    &&& !has_char(a.parameter_ref, '|') && one_line(a.parameter_ref)
    &&& match a.output_name {
        Some(n) => n.len() > 0 && is_trimmed(n) && one_line(n),
        None => true,
    }
}

/// Outputs written as text read back unchanged when each is clean (see
/// [`clean_output`]).
pub proof fn lemma_outputs_round_trip(s: Seq<OutputRef<Seq<char>>>)
    requires
        forall|i: int| 0 <= i < s.len() ==> clean_output(#[trigger] s[i]),
    ensures
        decoded_outputs(outputs_text(s)) == s,
{
    let items = s.map_values(|a: OutputRef<Seq<char>>| output_line(a));
    assert forall|i: int| 0 <= i < items.len() implies !has_char(#[trigger] items[i], '\n')
        && !has_char(items[i], '\r') && items[i].len() > 0 && output_parser()(items[i]) == Some(
        s[i],
    ) by {
        let n = text_or_empty(s[i].output_name);
        if s[i].output_name is None {
            assert(n =~= Seq::<char>::empty());
            assert(!has_char(n, '\n') && !has_char(n, '\r'));
        }
        lemma_two_columns(s[i].parameter_ref, n);
        lemma_two_column_line(s[i].parameter_ref, n);
    }
    if items.len() > 0 {
        assert(items.last() == items[items.len() - 1]);
    }
    lemma_lines_join(items);
    lemma_filter_map_all(items, output_parser(), s);
}

// ---------------------------------------------------------------------
// Inputs
// ---------------------------------------------------------------------

/// An input of an algorithm: a parameter instance or a named constant.
#[derive(Debug)]
pub enum InputItem<S> {
    Parameter { parameter_ref: S, instance: i64, use_calibrated_value: bool, input_name: Option<S> },
    Constant { constant_name: S, value: S },
}

impl View for InputItem<String> {
    type V = InputItem<Seq<char>>;

    open spec fn view(&self) -> InputItem<Seq<char>> {
        match self {
            InputItem::Parameter { parameter_ref, instance, use_calibrated_value, input_name } =>
                InputItem::Parameter {
                parameter_ref: parameter_ref@,
                instance: *instance,
                use_calibrated_value: *use_calibrated_value,
                input_name: opt_text(*input_name),
            },
            InputItem::Constant { constant_name, value } => InputItem::Constant {
                constant_name: constant_name@,
                value: value@,
            },
        }
    }
}

/// The values of a list of inputs.
pub open spec fn inputs_view(v: Seq<InputItem<String>>) -> Seq<InputItem<Seq<char>>> {
    v.map_values(|a: InputItem<String>| a@)
}

/// The word that starts a parameter input line.
pub open spec fn parameter_word() -> Seq<char> {
    seq!['p', 'a', 'r', 'a', 'm', 'e', 't', 'e', 'r']
}

/// The word that starts a constant input line.
pub open spec fn constant_word() -> Seq<char> {
    seq!['c', 'o', 'n', 's', 't', 'a', 'n', 't']
}

/// The input that the trimmed columns of a line give: `parameter`, a
/// non-empty reference, then optionally the instance (0 when missing or
/// not a number), whether the calibrated value is used (`true` when missing
/// or not a `bool`) and a name; or `constant`, a non-empty name and a value.
pub open spec fn input_of_fields(f: Seq<Seq<char>>) -> Option<InputItem<Seq<char>>> {
    if f.len() >= 2 && f[0] == parameter_word() && f[1].len() > 0 {
        Some(
            InputItem::Parameter {
                parameter_ref: f[1],
                instance: if f.len() > 2 {
                    match parse_i64_spec(f[2]) {
                        Some(v) => v,
                        None => 0,
                    }
                } else {
                    0
                },
                use_calibrated_value: if f.len() > 3 {
                    match parse_bool_spec(f[3]) {
                        Some(b) => b,
                        None => true,
                    }
                } else {
                    true
                },
                input_name: if f.len() > 4 && f[4].len() > 0 {
                    Some(f[4])
                } else {
                    None
                },
            },
        )
    } else if f.len() >= 3 && f[0] == constant_word() && f[1].len() > 0 {
        Some(InputItem::Constant { constant_name: f[1], value: f[2] })
    } else {
        None
    }
}

/// The input on a line, from its columns split at every `|` and trimmed.
pub open spec fn input_of_line(line: Seq<char>) -> Option<InputItem<Seq<char>>> {
    input_of_fields(trim_all(split_char(line, '|')))
}

/// [`input_of_line`] as a function value.
pub open spec fn input_parser() -> spec_fn(Seq<char>) -> Option<InputItem<Seq<char>>> {
    |line: Seq<char>| input_of_line(line)
}

/// The inputs a text holds, one per line.
pub open spec fn decoded_inputs(text: Seq<char>) -> Seq<InputItem<Seq<char>>> {
    filter_map(lines(text), input_parser())
}

/// The line written for an input.
pub open spec fn input_line(a: InputItem<Seq<char>>) -> Seq<char> {
    let sep = column_separator();
    match a {
        InputItem::Parameter { parameter_ref, instance, use_calibrated_value, input_name } =>
            parameter_word() + sep + parameter_ref + sep + int_text(instance as int) + sep
            + bool_text(use_calibrated_value) + sep + text_or_empty(input_name),
        InputItem::Constant { constant_name, value } => constant_word() + sep + constant_name
            + sep + value,
    }
}

/// The text written for inputs.
pub open spec fn inputs_text(s: Seq<InputItem<Seq<char>>>) -> Seq<char> {
    join(s.map_values(|a: InputItem<Seq<char>>| input_line(a)), seq!['\n'])
}

fn parameter_word_chars() -> (r: Vec<char>)
    ensures
        r@ == parameter_word(),
{
    let r = vec!['p', 'a', 'r', 'a', 'm', 'e', 't', 'e', 'r'];
    assert(r@ =~= parameter_word());
    r
}

fn constant_word_chars() -> (r: Vec<char>)
    ensures
        r@ == constant_word(),
{
    let r = vec!['c', 'o', 'n', 's', 't', 'a', 'n', 't'];
    assert(r@ =~= constant_word());
    r
}

/// The value of an optional input.
pub open spec fn opt_input_view(o: Option<InputItem<String>>) -> Option<InputItem<Seq<char>>> {
    match o {
        Some(a) => Some(a@),
        None => None,
    }
}

/// The trimmed columns of a line split at every `|`.
fn trimmed_fields(line: &Vec<char>) -> (r: Vec<Vec<char>>)
    ensures
        r@.len() == trim_all(split_char(line@, '|')).len(),
        r@.len() >= 1,
        forall|k: int| 0 <= k < r@.len() ==> #[trigger] r@[k]@ == trim_all(split_char(line@, '|'))[k],
{
    let pieces = split_chars(line, '|');
    proof {
        crate::text::lemma_split_char_nonempty(line@, '|');
    }
    let ghost f = trim_all(split_char(line@, '|'));
    let mut fields: Vec<Vec<char>> = Vec::new();
    let mut i: usize = 0;
    while i < pieces.len()
        invariant
            i <= pieces@.len(),
            pieces@.len() == split_char(line@, '|').len(),
            forall|k: int| 0 <= k < pieces@.len() ==> #[trigger] pieces@[k]@ == split_char(line@, '|')[k],
            f == trim_all(split_char(line@, '|')),
            fields@.len() == i,
            forall|k: int| 0 <= k < i ==> #[trigger] fields@[k]@ == f[k],
        decreases pieces.len() - i,
    {
        fields.push(trim_chars(&pieces[i]));
        i = i + 1;
    }
    fields
}

/// Reads the input on one line (see [`input_of_line`]).
fn input_from_line(line: &Vec<char>) -> (r: Option<InputItem<String>>)
    ensures
        opt_input_view(r) == input_of_line(line@),
{
    let fields = trimmed_fields(line);
    let n = fields.len();
    if n >= 2 && same_chars(&fields[0], &parameter_word_chars()) && fields[1].len() > 0 {
        let instance = if n > 2 {
            match parse_i64(&fields[2]) {
                Some(v) => v,
                None => 0,
            }
        } else {
            0
        };
        let use_calibrated_value = if n > 3 {
            match parse_bool(&fields[3]) {
                Some(b) => b,
                None => true,
            }
        } else {
            true
        };
        let input_name = if n > 4 && fields[4].len() > 0 {
            Some(string_of(&fields[4]))
        } else {
            None
        };
        Some(
            InputItem::Parameter {
                parameter_ref: string_of(&fields[1]),
                instance,
                use_calibrated_value,
                input_name,
            },
        )
    } else if n >= 3 && same_chars(&fields[0], &constant_word_chars()) && fields[1].len() > 0 {
        Some(
            InputItem::Constant {
                constant_name: string_of(&fields[1]),
                value: string_of(&fields[2]),
            },
        )
    } else {
        None
    }
}

/// The input set of a text, when it holds at least one input.
pub fn decode_inputs(value: &str) -> (r: Option<Vec<InputItem<String>>>)
    ensures
        match r {
            Some(v) => decoded_inputs(value@).len() > 0 && inputs_view(v@) == decoded_inputs(
                value@,
            ),
            None => decoded_inputs(value@).len() == 0,
        },
{
    let ls = lines_of(&chars_of(value));
    let ghost all = lines(value@);
    let mut out: Vec<InputItem<String>> = Vec::new();
    let mut i: usize = 0;
    while i < ls.len()
        invariant
            i <= ls@.len(),
            all == lines(value@),
            ls@.len() == all.len(),
            forall|k: int| 0 <= k < ls@.len() ==> #[trigger] ls@[k]@ == all[k],
            inputs_view(out@) == filter_map(all.take(i as int), input_parser()),
        decreases ls.len() - i,
    {
        let ghost before = out@;
        let parsed = input_from_line(&ls[i]);
        proof {
            assert(all.take(i + 1).drop_last() =~= all.take(i as int));
            assert(all.take(i + 1).last() == ls@[i as int]@);
        }
        match parsed {
            Some(a) => {
                out.push(a);
                assert(inputs_view(out@) =~= inputs_view(before).push(out@.last()@));
            },
            None => {},
        }
        i = i + 1;
    }
    assert(all.take(ls.len() as int) =~= all);
    if out.len() == 0 {
        None
    } else {
        Some(out)
    }
}

/// The line written for one input (see [`input_line`]).
fn input_line_chars(a: &InputItem<String>) -> (r: Vec<char>)
    ensures
        r@ == input_line(a@),
{
    let mut line: Vec<char> = Vec::new();
    match a {
        InputItem::Parameter { parameter_ref, instance, use_calibrated_value, input_name } => {
            let name = match input_name {
                Some(n) => chars_of(n.as_str()),
                None => Vec::new(),
            };
            assert(name@ =~= text_or_empty(opt_text(*input_name)));
            let mut head: Vec<char> = Vec::new();
            push_columns(&mut head, &parameter_word_chars(), &chars_of(parameter_ref.as_str()));
            let mut mid: Vec<char> = Vec::new();
            push_columns(&mut mid, &head, &i64_text(*instance));
            let mut most: Vec<char> = Vec::new();
            push_columns(&mut most, &mid, &bool_chars(*use_calibrated_value));
            push_columns(&mut line, &most, &name);
            assert(line@ =~= input_line(a@));
        },
        InputItem::Constant { constant_name, value } => {
            let mut head: Vec<char> = Vec::new();
            push_columns(&mut head, &constant_word_chars(), &chars_of(constant_name.as_str()));
            push_columns(&mut line, &head, &chars_of(value.as_str()));
            assert(line@ =~= input_line(a@));
        },
    }
    line
}

/// The text written for an optional input set.
pub fn encode_inputs(set: Option<&Vec<InputItem<String>>>) -> (r: String)
    ensures
        r@ == inputs_text(
            match set {
                Some(v) => inputs_view(v@),
                None => Seq::empty(),
            },
        ),
{
    let mut items: Vec<Vec<char>> = Vec::new();
    match set {
        Some(v) => {
            let mut i: usize = 0;
            while i < v.len()
                invariant
                    i <= v@.len(),
                    items@.len() == i,
                    forall|k: int| 0 <= k < i ==> #[trigger] items@[k]@ == input_line(v@[k]@),
                decreases v.len() - i,
            {
                items.push(input_line_chars(&v[i]));
                i = i + 1;
            }
            assert(items@.map_values(|x: Vec<char>| x@) =~= inputs_view(v@).map_values(
                |a: InputItem<Seq<char>>| input_line(a),
            ));
        },
        None => {
            assert(items@.map_values(|x: Vec<char>| x@) =~= Seq::<InputItem<Seq<char>>>::empty().map_values(
                |a: InputItem<Seq<char>>| input_line(a),
            ));
        },
    }
    join_lines(&items)
}

/// Whether a text can stand in a column split at every `|`: trimmed, on
/// one line, without `|`.
pub open spec fn plain_column(s: Seq<char>) -> bool {
    is_trimmed(s) && one_line(s) && !has_char(s, '|')
}

/// Whether an input is written and read back unchanged: its texts are
/// plain columns (see [`plain_column`]), its reference or name is not
/// empty, and neither is a given input name.
pub open spec fn clean_input(a: InputItem<Seq<char>>) -> bool {
    match a {
        InputItem::Parameter { parameter_ref, input_name, .. } => parameter_ref.len() > 0
            && plain_column(parameter_ref) && match input_name {
            Some(n) => n.len() > 0 && plain_column(n),
            None => true,
        },
        InputItem::Constant { constant_name, value } => constant_name.len() > 0 && plain_column(
            constant_name,
        ) && plain_column(value),
    }
}

proof fn lemma_words_plain()
    ensures
        plain_column(parameter_word()),
        plain_column(constant_word()),
        parameter_word() != constant_word(),
{
    let p = parameter_word();
    let c = constant_word();
    assert(p.len() != c.len());
    assert(!has_char(p, '|') && !has_char(p, '\n') && !has_char(p, '\r')) by {
        assert forall|i: int| 0 <= i < p.len() implies p[i] != '|' && p[i] != '\n' && p[i]
            != '\r' by {}
    }
    assert(!has_char(c, '|') && !has_char(c, '\n') && !has_char(c, '\r')) by {
        assert forall|i: int| 0 <= i < c.len() implies c[i] != '|' && c[i] != '\n' && c[i]
            != '\r' by {}
    }
    assert(!crate::text::is_space(p[0]) && !crate::text::is_space(p.last()));
    assert(!crate::text::is_space(c[0]) && !crate::text::is_space(c.last()));
}

/// Columns joined by `" | "`, first to last.
pub open spec fn columns_line(cols: Seq<Seq<char>>) -> Seq<char>
    decreases cols.len(),
{
    if cols.len() <= 1 {
        if cols.len() == 1 {
            cols[0]
        } else {
            Seq::empty()
        }
    } else {
        cols[0] + column_separator() + columns_line(cols.drop_first())
    }
}

/// Splitting plain columns joined by `" | "` (after an optional leading
/// space) at every `|` and trimming the pieces gives the columns back.
proof fn lemma_columns_split(cols: Seq<Seq<char>>, lead: bool)
    requires
        cols.len() >= 1,
        forall|i: int| 0 <= i < cols.len() ==> plain_column(#[trigger] cols[i]),
    ensures
        trim_all(split_char((if lead { seq![' '] } else { Seq::empty() }) + columns_line(cols), '|'))
            == cols,
        one_line(columns_line(cols)),
    decreases cols.len(),
{
    let sp: Seq<char> = if lead { seq![' '] } else { Seq::empty() };
    let c0 = cols[0];
    assert(plain_column(c0));
    lemma_padded_plain(c0);
    lemma_trim_padded(c0);
    crate::text::lemma_trim_trimmed(c0);
    lemma_single_has_char(' ', '|');
    lemma_single_has_char(' ', '\n');
    lemma_single_has_char(' ', '\r');
    lemma_single_has_char('|', '\n');
    lemma_single_has_char('|', '\r');
    if cols.len() == 1 {
        let line = sp + c0;
        assert(columns_line(cols) == c0);
        if lead {
            lemma_split_char_single(line, '|');
        } else {
            assert(line =~= c0);
            lemma_split_char_single(line, '|');
        }
        assert(trim_all(seq![line]) =~= cols);
    } else {
        let tail = cols.drop_first();
        assert forall|i: int| 0 <= i < tail.len() implies plain_column(#[trigger] tail[i]) by {
            assert(tail[i] == cols[i + 1]);
        }
        lemma_columns_split(tail, true);
        let rest = columns_line(tail);
        let piece = sp + c0 + seq![' '];
        let line = sp + columns_line(cols);
        assert(line =~= piece + seq!['|'] + (seq![' '] + rest));
        if lead {
            lemma_has_char_concat(seq![' '], c0 + seq![' '], '|');
            assert(piece =~= seq![' '] + c0 + seq![' ']);
        } else {
            assert(piece =~= c0 + seq![' ']);
        }
        lemma_split_char_first(piece, seq![' '] + rest, '|');
        let pieces = split_char(line, '|');
        assert(trim(piece) == c0);
        assert(trim_all(pieces) =~= cols) by {
            assert(trim_all(pieces)[0] == c0);
            assert forall|i: int| 1 <= i < cols.len() implies #[trigger] trim_all(pieces)[i]
                == cols[i] by {
                assert(pieces[i] == split_char(seq![' '] + rest, '|')[i - 1]);
                assert(trim_all(split_char(seq![' '] + rest, '|'))[i - 1] == tail[i - 1]);
            }
        }
        let sep = column_separator();
        assert(sep =~= seq![' '] + seq!['|'] + seq![' ']);
        lemma_one_line_concat(seq![' '], seq!['|']);
        lemma_one_line_concat(seq![' '] + seq!['|'], seq![' ']);
        lemma_one_line_concat(c0, sep);
        lemma_one_line_concat(c0 + sep, rest);
    }
}

proof fn lemma_input_line(a: InputItem<Seq<char>>)
    requires
        clean_input(a),
    ensures
        input_of_line(input_line(a)) == Some(a),
        one_line(input_line(a)),
        input_line(a).len() > 0,
{
    lemma_words_plain();
    reveal_with_fuel(columns_line, 6);
    match a {
        InputItem::Parameter { parameter_ref, instance, use_calibrated_value, input_name } => {
            let inst = int_text(instance as int);
            let cal = bool_text(use_calibrated_value);
            let name = text_or_empty(input_name);
            lemma_i64_round_trip(instance);
            crate::number::lemma_int_text_plain(instance as int);
            lemma_bool_text(use_calibrated_value);
            if input_name is None {
                assert(name =~= Seq::<char>::empty());
                assert(!has_char(name, '|') && !has_char(name, '\n') && !has_char(name, '\r'));
            }
            let cols = seq![parameter_word(), parameter_ref, inst, cal, name];
            assert forall|i: int| 0 <= i < cols.len() implies plain_column(#[trigger] cols[i]) by {}
            assert(columns_line(cols) =~= input_line(a));
            lemma_columns_split(cols, false);
            assert(Seq::<char>::empty() + columns_line(cols) =~= columns_line(cols));
            assert(trim_all(split_char(input_line(a), '|')) == cols);
        },
        InputItem::Constant { constant_name, value } => {
            let cols = seq![constant_word(), constant_name, value];
            assert forall|i: int| 0 <= i < cols.len() implies plain_column(#[trigger] cols[i]) by {}
            assert(columns_line(cols) =~= input_line(a));
            lemma_columns_split(cols, false);
            assert(Seq::<char>::empty() + columns_line(cols) =~= columns_line(cols));
            assert(trim_all(split_char(input_line(a), '|')) == cols);
        },
    }
}

/// Inputs written as text read back unchanged when each is clean (see
/// [`clean_input`]).
pub proof fn lemma_inputs_round_trip(s: Seq<InputItem<Seq<char>>>)
    requires
        forall|i: int| 0 <= i < s.len() ==> clean_input(#[trigger] s[i]),
    ensures
        decoded_inputs(inputs_text(s)) == s,
{
    let items = s.map_values(|a: InputItem<Seq<char>>| input_line(a));
    assert forall|i: int| 0 <= i < items.len() implies !has_char(#[trigger] items[i], '\n')
        && !has_char(items[i], '\r') && items[i].len() > 0 && input_parser()(items[i]) == Some(
        s[i],
    ) by {
        lemma_input_line(s[i]);
    }
    if items.len() > 0 {
        assert(items.last() == items[items.len() - 1]);
    }
    lemma_lines_join(items);
    lemma_filter_map_all(items, input_parser(), s);
}

// ---------------------------------------------------------------------
// Triggers
// ---------------------------------------------------------------------

/// What makes an algorithm run: an update of a parameter or a container,
/// or a periodic rate, given as the decimal text of its seconds.
#[derive(Debug)]
pub enum Trigger<S> {
    Parameter(S),
    Container(S),
    Periodic(S),
}

impl View for Trigger<String> {
    type V = Trigger<Seq<char>>;

    open spec fn view(&self) -> Trigger<Seq<char>> {
        match self {
            Trigger::Parameter(s) => Trigger::Parameter(s@),
            Trigger::Container(s) => Trigger::Container(s@),
            Trigger::Periodic(s) => Trigger::Periodic(s@),
        }
    }
}

/// The values of a list of triggers.
pub open spec fn triggers_view(v: Seq<Trigger<String>>) -> Seq<Trigger<Seq<char>>> {
    v.map_values(|a: Trigger<String>| a@)
}

/// The word that starts a container trigger line.
pub open spec fn container_word() -> Seq<char> {
    seq!['c', 'o', 'n', 't', 'a', 'i', 'n', 'e', 'r']
}

/// The word that starts a periodic trigger line.
pub open spec fn periodic_word() -> Seq<char> {
    seq!['p', 'e', 'r', 'i', 'o', 'd', 'i', 'c']
}

/// The trigger on a line: its kind, then after the first `|` a non-empty
/// reference, or for `periodic` a number of seconds.
pub open spec fn trigger_of_line(line: Seq<char>) -> Option<Trigger<Seq<char>>> {
    match two_columns(line) {
        Some((kind, value)) => if kind == parameter_word() && value.len() > 0 {
            Some(Trigger::Parameter(value))
        } else if kind == container_word() && value.len() > 0 {
            Some(Trigger::Container(value))
        } else if kind == periodic_word() && is_float_text(value) {
            Some(Trigger::Periodic(value))
        } else {
            None
        },
        None => None,
    }
}

/// [`trigger_of_line`] as a function value.
pub open spec fn trigger_parser() -> spec_fn(Seq<char>) -> Option<Trigger<Seq<char>>> {
    |line: Seq<char>| trigger_of_line(line)
}

/// The triggers a text holds, one per line.
pub open spec fn decoded_triggers(text: Seq<char>) -> Seq<Trigger<Seq<char>>> {
    filter_map(lines(text), trigger_parser())
}

/// The line written for a trigger: its kind, `|`, its value.
pub open spec fn trigger_line(t: Trigger<Seq<char>>) -> Seq<char> {
    match t {
        Trigger::Parameter(s) => parameter_word() + column_separator() + s,
        Trigger::Container(s) => container_word() + column_separator() + s,
        Trigger::Periodic(s) => periodic_word() + column_separator() + s,
    }
}

/// The text written for triggers.
pub open spec fn triggers_text(s: Seq<Trigger<Seq<char>>>) -> Seq<char> {
    join(s.map_values(|a: Trigger<Seq<char>>| trigger_line(a)), seq!['\n'])
}

/// A trigger set: an optional name, how many triggers fire before the
/// algorithm runs, and the triggers.
#[derive(Debug)]
pub struct TriggerSet {
    pub name: Option<String>,
    pub trigger_rate: u32,
    pub content: Vec<Trigger<String>>,
}

/// The value of a trigger set.
pub struct TriggerSetView {
    pub name: Option<Seq<char>>,
    pub trigger_rate: u32,
    pub content: Seq<Trigger<Seq<char>>>,
}

impl View for TriggerSet {
    type V = TriggerSetView;

    open spec fn view(&self) -> TriggerSetView {
        TriggerSetView {
            name: opt_text(self.name),
            trigger_rate: self.trigger_rate,
            content: triggers_view(self.content@),
        }
    }
}

/// The trigger rate XTCE gives a trigger set that names none.
pub open spec fn default_trigger_rate() -> u32 {
    1
}

/// The trigger set the form's name, rate and trigger lines give: none when
/// no line reads as a trigger; the trimmed name when it is not blank; the
/// rate read from the trimmed text, the default when it does not read.
pub open spec fn trigger_set_of(name: Seq<char>, rate: Seq<char>, text: Seq<char>) -> Option<
    TriggerSetView,
> {
    let content = decoded_triggers(text);
    if content.len() == 0 {
        None
    } else {
        Some(
            TriggerSetView {
                name: optional_text(name),
                trigger_rate: match parse_u32_spec(trim(rate)) {
                    Some(r) => r,
                    None => default_trigger_rate(),
                },
                content,
            },
        )
    }
}

fn container_word_chars() -> (r: Vec<char>)
    ensures
        r@ == container_word(),
{
    let r = vec!['c', 'o', 'n', 't', 'a', 'i', 'n', 'e', 'r'];
    assert(r@ =~= container_word());
    r
}

fn periodic_word_chars() -> (r: Vec<char>)
    ensures
        r@ == periodic_word(),
{
    let r = vec!['p', 'e', 'r', 'i', 'o', 'd', 'i', 'c'];
    assert(r@ =~= periodic_word());
    r
}

/// The value of an optional trigger.
pub open spec fn opt_trigger_view(o: Option<Trigger<String>>) -> Option<Trigger<Seq<char>>> {
    match o {
        Some(a) => Some(a@),
        None => None,
    }
}

/// Reads the trigger on one line (see [`trigger_of_line`]).
fn trigger_from_line(line: &Vec<char>) -> (r: Option<Trigger<String>>)
    ensures
        opt_trigger_view(r) == trigger_of_line(line@),
{
    let (kind, value) = split_columns(line);
    match value {
        Some(v) => {
            if same_chars(&kind, &parameter_word_chars()) && v.len() > 0 {
                Some(Trigger::Parameter(string_of(&v)))
            } else if same_chars(&kind, &container_word_chars()) && v.len() > 0 {
                Some(Trigger::Container(string_of(&v)))
            } else if same_chars(&kind, &periodic_word_chars()) && is_float_chars(&v) {
                Some(Trigger::Periodic(string_of(&v)))
            } else {
                None
            }
        },
        None => None,
    }
}

/// The triggers a text holds, one per line (see [`decoded_triggers`]).
fn decode_trigger_lines(value: &str) -> (r: Vec<Trigger<String>>)
    ensures
        triggers_view(r@) == decoded_triggers(value@),
{
    let ls = lines_of(&chars_of(value));
    let ghost all = lines(value@);
    let mut out: Vec<Trigger<String>> = Vec::new();
    let mut i: usize = 0;
    while i < ls.len()
        invariant
            i <= ls@.len(),
            all == lines(value@),
            ls@.len() == all.len(),
            forall|k: int| 0 <= k < ls@.len() ==> #[trigger] ls@[k]@ == all[k],
            triggers_view(out@) == filter_map(all.take(i as int), trigger_parser()),
        decreases ls.len() - i,
    {
        let ghost before = out@;
        let parsed = trigger_from_line(&ls[i]);
        proof {
            assert(all.take(i + 1).drop_last() =~= all.take(i as int));
            assert(all.take(i + 1).last() == ls@[i as int]@);
        }
        match parsed {
            Some(a) => {
                out.push(a);
                assert(triggers_view(out@) =~= triggers_view(before).push(out@.last()@));
            },
            None => {},
        }
        i = i + 1;
    }
    assert(all.take(ls.len() as int) =~= all);
    out
}

/// The value of an optional trigger set.
pub open spec fn opt_trigger_set_view(o: Option<TriggerSet>) -> Option<TriggerSetView> {
    match o {
        Some(t) => Some(t@),
        None => None,
    }
}

/// The trigger set the form's name, rate and trigger lines give (see
/// [`trigger_set_of`]).
pub fn decode_triggers(name: &str, rate: &str, value: &str) -> (r: Option<TriggerSet>)
    ensures
        opt_trigger_set_view(r) == trigger_set_of(name@, rate@, value@),
{
    let content = decode_trigger_lines(value);
    if content.len() == 0 {
        return None;
    }
    let rate_text = trim_chars(&chars_of(rate));
    let trigger_rate = match parse_u32(&rate_text) {
        Some(r) => r,
        None => 1,
    };
    let name = crate::fields::optional(name);
    Some(TriggerSet { name, trigger_rate, content })
}

/// The line written for one trigger (see [`trigger_line`]).
fn trigger_line_chars(t: &Trigger<String>) -> (r: Vec<char>)
    ensures
        r@ == trigger_line(t@),
{
    let mut line: Vec<char> = Vec::new();
    match t {
        Trigger::Parameter(s) => push_columns(&mut line, &parameter_word_chars(), &chars_of(s.as_str())),
        Trigger::Container(s) => push_columns(&mut line, &container_word_chars(), &chars_of(s.as_str())),
        Trigger::Periodic(s) => push_columns(&mut line, &periodic_word_chars(), &chars_of(s.as_str())),
    }
    assert(line@ =~= trigger_line(t@));
    line
}

/// The text written for the triggers of an optional trigger set.
pub fn encode_triggers(set: Option<&TriggerSet>) -> (r: String)
    ensures
        r@ == triggers_text(
            match set {
                Some(t) => triggers_view(t.content@),
                None => Seq::empty(),
            },
        ),
{
    let mut items: Vec<Vec<char>> = Vec::new();
    match set {
        Some(t) => {
            let v = &t.content;
            let mut i: usize = 0;
            while i < v.len()
                invariant
                    i <= v@.len(),
                    items@.len() == i,
                    forall|k: int| 0 <= k < i ==> #[trigger] items@[k]@ == trigger_line(v@[k]@),
                decreases v.len() - i,
            {
                items.push(trigger_line_chars(&v[i]));
                i = i + 1;
            }
            assert(items@.map_values(|x: Vec<char>| x@) =~= triggers_view(v@).map_values(
                |a: Trigger<Seq<char>>| trigger_line(a),
            ));
        },
        None => {
            assert(items@.map_values(|x: Vec<char>| x@) =~= Seq::<Trigger<Seq<char>>>::empty().map_values(
                |a: Trigger<Seq<char>>| trigger_line(a),
            ));
        },
    }
    join_lines(&items)
}

/// Whether a trigger is written and read back unchanged: its value is
/// non-empty, trimmed and on one line, and a periodic rate reads as a
/// number.
pub open spec fn clean_trigger(t: Trigger<Seq<char>>) -> bool {
    match t {
        Trigger::Parameter(s) => s.len() > 0 && is_trimmed(s) && one_line(s),
        Trigger::Container(s) => s.len() > 0 && is_trimmed(s) && one_line(s),
        Trigger::Periodic(s) => is_float_text(s) && is_trimmed(s) && one_line(s),
    }
}

proof fn lemma_trigger_words()
    ensures
        plain_column(container_word()),
        plain_column(periodic_word()),
        parameter_word() != container_word(),
        parameter_word() != periodic_word(),
        container_word() != periodic_word(),
{
    lemma_words_plain();
    let c = container_word();
    let p = periodic_word();
    assert(parameter_word() != c) by {
        assert(parameter_word()[0] != c[0]);
    }
    assert(parameter_word() != p) by {
        assert(parameter_word().len() != p.len());
    }
    assert(c != p) by {
        assert(c.len() != p.len());
    }
    assert(!has_char(c, '|') && !has_char(c, '\n') && !has_char(c, '\r')) by {
        assert forall|i: int| 0 <= i < c.len() implies c[i] != '|' && c[i] != '\n' && c[i]
            != '\r' by {}
    }
    assert(!has_char(p, '|') && !has_char(p, '\n') && !has_char(p, '\r')) by {
        assert forall|i: int| 0 <= i < p.len() implies p[i] != '|' && p[i] != '\n' && p[i]
            != '\r' by {}
    }
    assert(!crate::text::is_space(c[0]) && !crate::text::is_space(c.last()));
    assert(!crate::text::is_space(p[0]) && !crate::text::is_space(p.last()));
}

/// A number text is never empty.
proof fn lemma_float_text_nonempty(s: Seq<char>)
    requires
        is_float_text(s),
    ensures
        s.len() > 0,
{
    if s.len() == 0 {
        let b = crate::number::strip_sign(s);
        assert(b =~= s);
        assert(crate::number::exponent_mark(b) is None);
        assert(crate::text::index_of(b, '.') is None);
    }
}

proof fn lemma_trigger_line(t: Trigger<Seq<char>>)
    requires
        clean_trigger(t),
    ensures
        trigger_of_line(trigger_line(t)) == Some(t),
        one_line(trigger_line(t)),
        trigger_line(t).len() > 0,
{
    lemma_trigger_words();
    match t {
        Trigger::Parameter(s) => {
            lemma_two_columns(parameter_word(), s);
            lemma_two_column_line(parameter_word(), s);
        },
        Trigger::Container(s) => {
            lemma_two_columns(container_word(), s);
            lemma_two_column_line(container_word(), s);
        },
        Trigger::Periodic(s) => {
            lemma_float_text_nonempty(s);
            lemma_two_columns(periodic_word(), s);
            lemma_two_column_line(periodic_word(), s);
        },
    }
}

/// Triggers written as text read back unchanged when each is clean (see
/// [`clean_trigger`]).
pub proof fn lemma_triggers_round_trip(s: Seq<Trigger<Seq<char>>>)
    requires
        forall|i: int| 0 <= i < s.len() ==> clean_trigger(#[trigger] s[i]),
    ensures
        decoded_triggers(triggers_text(s)) == s,
{
    let items = s.map_values(|a: Trigger<Seq<char>>| trigger_line(a));
    assert forall|i: int| 0 <= i < items.len() implies !has_char(#[trigger] items[i], '\n')
        && !has_char(items[i], '\r') && items[i].len() > 0 && trigger_parser()(items[i]) == Some(
        s[i],
    ) by {
        lemma_trigger_line(s[i]);
    }
    if items.len() > 0 {
        assert(items.last() == items[items.len() - 1]);
    }
    lemma_lines_join(items);
    lemma_filter_map_all(items, trigger_parser(), s);
}

// ---------------------------------------------------------------------
// Algorithm text and input algorithms
// ---------------------------------------------------------------------

/// The text of an algorithm in some language.
#[derive(Debug)]
pub struct AlgorithmText {
    pub language: String,
    pub content: String,
}

/// The value of an algorithm text: its language and content.
pub struct AlgorithmTextView {
    pub language: Seq<char>,
    pub content: Seq<char>,
}

impl View for AlgorithmText {
    type V = AlgorithmTextView;

    open spec fn view(&self) -> AlgorithmTextView {
        AlgorithmTextView { language: self.language@, content: self.content@ }
    }
}

/// The language XTCE gives an algorithm text that names none.
pub open spec fn default_language_text() -> Seq<char> {
    seq!['j', 'a', 'v', 'a']
}

/// The language XTCE gives an algorithm text that names none.
pub fn default_language() -> (r: String)
    ensures
        r@ == default_language_text(),
{
    let v = vec!['j', 'a', 'v', 'a'];
    assert(v@ =~= default_language_text());
    string_of(&v)
}

/// The algorithm text the form's language and text give: none when the
/// text is empty; the default language when none is given.
pub open spec fn algorithm_text_of(language: Seq<char>, content: Seq<char>) -> Option<AlgorithmTextView> {
    if content.len() == 0 {
        None
    } else {
        Some(
            AlgorithmTextView {
                language: if language.len() == 0 {
                    default_language_text()
                } else {
                    language
                },
                content,
            },
        )
    }
}

/// The value of an optional algorithm text.
pub open spec fn opt_algorithm_text(o: Option<AlgorithmText>) -> Option<AlgorithmTextView> {
    match o {
        Some(t) => Some(t@),
        None => None,
    }
}

/// The algorithm text the form's language and text give (see
/// [`algorithm_text_of`]).
pub fn decode_algorithm_text(language: String, content: String) -> (r: Option<AlgorithmText>)
    ensures
        opt_algorithm_text(r) == algorithm_text_of(language@, content@),
{
    if content.as_str().unicode_len() == 0 {
        None
    } else {
        let language = if language.as_str().unicode_len() == 0 {
            default_language()
        } else {
            language
        };
        Some(AlgorithmText { language, content })
    }
}

/// An algorithm that computes from inputs.
#[derive(Debug)]
pub struct InputAlgorithm {
    pub short_description: Option<String>,
    pub name: String,
    pub long_description: Option<String>,
    pub alias_set: Option<Vec<crate::alias::Alias<String>>>,
    pub ancillary_data_set: Option<Vec<crate::ancillary::AncillaryData<String>>>,
    pub algorithm_text: Option<AlgorithmText>,
    pub external_algorithm_set: Option<Vec<ExternalAlgorithm<String>>>,
    pub input_set: Option<Vec<InputItem<String>>>,
}

/// The value of an input algorithm.
pub struct InputAlgorithmView {
    pub short_description: Option<Seq<char>>,
    pub name: Seq<char>,
    pub long_description: Option<Seq<char>>,
    pub alias_set: Option<Seq<crate::alias::Alias<Seq<char>>>>,
    pub ancillary_data_set: Option<Seq<crate::ancillary::AncillaryData<Seq<char>>>>,
    pub algorithm_text: Option<AlgorithmTextView>,
    pub external_algorithm_set: Option<Seq<ExternalAlgorithm<Seq<char>>>>,
    pub input_set: Option<Seq<InputItem<Seq<char>>>>,
}

impl View for InputAlgorithm {
    type V = InputAlgorithmView;

    open spec fn view(&self) -> InputAlgorithmView {
        InputAlgorithmView {
            short_description: opt_text(self.short_description),
            name: self.name@,
            long_description: opt_text(self.long_description),
            alias_set: match self.alias_set {
                Some(v) => Some(crate::alias::aliases_view(v@)),
                None => None,
            },
            ancillary_data_set: match self.ancillary_data_set {
                Some(v) => Some(crate::ancillary::entries_view(v@)),
                None => None,
            },
            algorithm_text: opt_algorithm_text(self.algorithm_text),
            external_algorithm_set: match self.external_algorithm_set {
                Some(v) => Some(externals_view(v@)),
                None => None,
            },
            input_set: match self.input_set {
                Some(v) => Some(inputs_view(v@)),
                None => None,
            },
        }
    }
}

/// The texts the input algorithm form shows.
#[derive(Debug)]
pub struct InputAlgorithmValues {
    pub name: String,
    pub short_description: String,
    pub long_description: String,
    pub language: String,
    pub algorithm_text: String,
    pub external_algorithms: String,
    pub inputs: String,
}

/// The value of [`InputAlgorithmValues`].
pub struct InputAlgorithmValuesView {
    pub name: Seq<char>,
    pub short_description: Seq<char>,
    pub long_description: Seq<char>,
    pub language: Seq<char>,
    pub algorithm_text: Seq<char>,
    pub external_algorithms: Seq<char>,
    pub inputs: Seq<char>,
}

impl View for InputAlgorithmValues {
    type V = InputAlgorithmValuesView;

    open spec fn view(&self) -> InputAlgorithmValuesView {
        InputAlgorithmValuesView {
            name: self.name@,
            short_description: self.short_description@,
            long_description: self.long_description@,
            language: self.language@,
            algorithm_text: self.algorithm_text@,
            external_algorithms: self.external_algorithms@,
            inputs: self.inputs@,
        }
    }
}

/// The texts the form shows for an input algorithm, or for a new one.
pub open spec fn input_values_of(a: Option<InputAlgorithmView>) -> InputAlgorithmValuesView {
    match a {
        Some(a) => InputAlgorithmValuesView {
            name: a.name,
            short_description: text_or_empty(a.short_description),
            long_description: text_or_empty(a.long_description),
            language: match a.algorithm_text {
                Some(t) => t.language,
                None => default_language_text(),
            },
            algorithm_text: match a.algorithm_text {
                Some(t) => t.content,
                None => Seq::empty(),
            },
            external_algorithms: externals_text(
                match a.external_algorithm_set {
                    Some(v) => v,
                    None => Seq::empty(),
                },
            ),
            inputs: inputs_text(
                match a.input_set {
                    Some(v) => v,
                    None => Seq::empty(),
                },
            ),
        },
        None => InputAlgorithmValuesView {
            name: Seq::empty(),
            short_description: Seq::empty(),
            long_description: Seq::empty(),
            language: default_language_text(),
            algorithm_text: Seq::empty(),
            external_algorithms: externals_text(Seq::empty()),
            inputs: inputs_text(Seq::empty()),
        },
    }
}

impl InputAlgorithmValues {
    /// The texts the form shows for an input algorithm (see
    /// [`input_values_of`]).
    pub fn from_algorithm(algorithm: Option<&InputAlgorithm>) -> (r: InputAlgorithmValues)
        ensures
            r@ == input_values_of(
                match algorithm {
                    Some(a) => Some(a@),
                    None => None,
                },
            ),
    {
        match algorithm {
            Some(a) => {
                let (language, algorithm_text) = match &a.algorithm_text {
                    Some(t) => (t.language.clone(), t.content.clone()),
                    None => (default_language(), String::new()),
                };
                InputAlgorithmValues {
                    name: a.name.clone(),
                    short_description: text_of(&a.short_description),
                    long_description: text_of(&a.long_description),
                    language,
                    algorithm_text,
                    external_algorithms: encode_external_algorithms(a.external_algorithm_set.as_ref()),
                    inputs: encode_inputs(a.input_set.as_ref()),
                }
            },
            None => InputAlgorithmValues {
                name: String::new(),
                short_description: String::new(),
                long_description: String::new(),
                language: default_language(),
                algorithm_text: String::new(),
                external_algorithms: encode_external_algorithms(None),
                inputs: encode_inputs(None),
            },
        }
    }
}

/// The input algorithm the form's texts give, with the alias and
/// ancillary data sets of its two sub-forms.
pub open spec fn input_algorithm_of(
    v: InputAlgorithmValuesView,
    alias_set: Option<Seq<crate::alias::Alias<Seq<char>>>>,
    ancillary_data_set: Option<Seq<crate::ancillary::AncillaryData<Seq<char>>>>,
) -> InputAlgorithmView {
    InputAlgorithmView {
        name: v.name,
        short_description: optional_text(v.short_description),
        long_description: optional_text(v.long_description),
        alias_set,
        ancillary_data_set,
        algorithm_text: algorithm_text_of(v.language, v.algorithm_text),
        external_algorithm_set: if decoded_externals(v.external_algorithms).len() == 0 {
            None
        } else {
            Some(decoded_externals(v.external_algorithms))
        },
        input_set: if decoded_inputs(v.inputs).len() == 0 {
            None
        } else {
            Some(decoded_inputs(v.inputs))
        },
    }
}

/// The input algorithm the form gives (see [`input_algorithm_of`]): the
/// alias and ancillary data sets come from the rows of their sub-forms.
pub fn input_algorithm(
    values: &InputAlgorithmValues,
    alias_rows: &Vec<crate::alias::Alias<String>>,
    ancillary_rows: &Vec<crate::ancillary::AncillaryRow>,
) -> (r: InputAlgorithm)
    ensures
        r@ == input_algorithm_of(
            values@,
            if crate::alias::rows_aliases(crate::alias::aliases_view(alias_rows@)).len() == 0 {
                None
            } else {
                Some(crate::alias::rows_aliases(crate::alias::aliases_view(alias_rows@)))
            },
            if crate::ancillary::rows_entries(ancillary_rows@).len() == 0 {
                None
            } else {
                Some(crate::ancillary::rows_entries(ancillary_rows@))
            },
        ),
{
    InputAlgorithm {
        name: values.name.clone(),
        short_description: crate::fields::optional(values.short_description.as_str()),
        long_description: crate::fields::optional(values.long_description.as_str()),
        alias_set: crate::alias::value(alias_rows),
        ancillary_data_set: crate::ancillary::value(ancillary_rows),
        algorithm_text: decode_algorithm_text(values.language.clone(), values.algorithm_text.clone()),
        external_algorithm_set: decode_external_algorithms(values.external_algorithms.as_str()),
        input_set: decode_inputs(values.inputs.as_str()),
    }
}

} // verus!

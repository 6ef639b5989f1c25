//! The overview of a command metadata block: how many items each of its
//! sets holds, and one row per argument type and meta command.
use vstd::prelude::*;
use crate::argument::{ArgumentKind, ArgumentType, kind, kind_of};
use crate::choice::{Choice, label};
use crate::model::{Entry, EntryVariant, EntryView, MetaData, MetaDataView};
use crate::number::{int_text, u64_text};
use crate::text::string_of;

verus! {

/// The number of items of an optional set.
pub open spec fn set_len(o: Option<Seq<EntryView>>) -> nat {
    match o {
        Some(s) => s.len(),
        None => 0,
    }
}

/// A row of the overview: a set's name and how many items it holds.
pub open spec fn section_row_of(name: Seq<char>, count: nat) -> Seq<Seq<char>> {
    seq![name, int_text(count as int)]
}

/// The names of a command metadata block's sets, in the order the
/// overview lists them.
pub open spec fn section_names() -> Seq<Seq<char>> {
    seq![
        seq!['P', 'a', 'r', 'a', 'm', 'e', 't', 'e', 'r', 'T', 'y', 'p', 'e', 'S', 'e', 't'],
        seq!['P', 'a', 'r', 'a', 'm', 'e', 't', 'e', 'r', 'S', 'e', 't'],
        seq!['A', 'r', 'g', 'u', 'm', 'e', 'n', 't', 'T', 'y', 'p', 'e', 'S', 'e', 't'],
        seq!['M', 'e', 't', 'a', 'C', 'o', 'm', 'm', 'a', 'n', 'd', 'S', 'e', 't'],
        seq![
            'C', 'o', 'm', 'm', 'a', 'n', 'd', 'C', 'o', 'n', 't', 'a', 'i', 'n', 'e', 'r', 'S', 'e',
            't',
        ],
        seq!['S', 't', 'r', 'e', 'a', 'm', 'S', 'e', 't'],
        seq!['A', 'l', 'g', 'o', 'r', 'i', 't', 'h', 'm', 'S', 'e', 't'],
    ]
}

/// The overview of a command metadata block: for each of its sets (see
/// [`section_names`]) the name and the number of items; nothing when
/// there is no block.
pub open spec fn command_sections_of(m: Option<MetaDataView>) -> Seq<Seq<Seq<char>>> {
    match m {
        None => Seq::empty(),
        Some(m) => {
            let n = section_names();
            seq![
                section_row_of(n[0], set_len(m.parameter_type_set)),
                section_row_of(n[1], set_len(m.parameter_set)),
                section_row_of(n[2], set_len(m.argument_type_set)),
                section_row_of(n[3], set_len(m.meta_command_set)),
                section_row_of(n[4], set_len(m.command_container_set)),
                section_row_of(n[5], set_len(m.stream_set)),
                section_row_of(n[6], set_len(m.algorithm_set)),
            ]
        },
    }
}

/// A row of texts as character sequences.
pub open spec fn row_view(r: Seq<String>) -> Seq<Seq<char>> {
    r.map_values(|s: String| s@)
}

/// The rows of a table as character sequences.
pub open spec fn rows_view(r: Seq<Vec<String>>) -> Seq<Seq<Seq<char>>> {
    r.map_values(|v: Vec<String>| row_view(v@))
}

/// A row of the overview (see [`section_row_of`]).
pub fn section_row(name: Vec<char>, count: usize) -> (r: Vec<String>)
    ensures
        row_view(r@) == section_row_of(name@, count as nat),
{
    let r = vec![string_of(&name), string_of(&u64_text(count as u64))];
    assert(row_view(r@) =~= section_row_of(name@, count as nat));
    r
}

fn set_count(o: &Option<Vec<Entry>>) -> (r: usize)
    ensures
        r == set_len(crate::model::opt_entries_view(*o)),
{
    match o {
        Some(v) => v.len(),
        None => 0,
    }
}

fn name_chars(i: usize) -> (r: Vec<char>)
    requires
        i < 7,
    ensures
        r@ == section_names()[i as int],
{
    let r = if i == 0 {
        vec!['P', 'a', 'r', 'a', 'm', 'e', 't', 'e', 'r', 'T', 'y', 'p', 'e', 'S', 'e', 't']
    } else if i == 1 {
        vec!['P', 'a', 'r', 'a', 'm', 'e', 't', 'e', 'r', 'S', 'e', 't']
    } else if i == 2 {
        vec!['A', 'r', 'g', 'u', 'm', 'e', 'n', 't', 'T', 'y', 'p', 'e', 'S', 'e', 't']
    } else if i == 3 {
        vec!['M', 'e', 't', 'a', 'C', 'o', 'm', 'm', 'a', 'n', 'd', 'S', 'e', 't']
    } else if i == 4 {
        vec![
            'C', 'o', 'm', 'm', 'a', 'n', 'd', 'C', 'o', 'n', 't', 'a', 'i', 'n', 'e', 'r', 'S', 'e',
            't',
        ]
    } else if i == 5 {
        vec!['S', 't', 'r', 'e', 'a', 'm', 'S', 'e', 't']
    } else {
        vec!['A', 'l', 'g', 'o', 'r', 'i', 't', 'h', 'm', 'S', 'e', 't']
    };
    assert(r@ =~= section_names()[i as int]);
    r
}

/// The overview of a command metadata block (see
/// [`command_sections_of`]).
pub fn command_sections(metadata: Option<&MetaData>) -> (r: Vec<Vec<String>>)
    ensures
        rows_view(r@) == command_sections_of(
            match metadata {
                Some(m) => Some(m@),
                None => None,
            },
        ),
{
    let m = match metadata {
        None => {
            let r: Vec<Vec<String>> = Vec::new();
            assert(rows_view(r@) =~= Seq::<Seq<Seq<char>>>::empty());
            return r;
        },
        Some(m) => m,
    };
    let r = vec![
        section_row(name_chars(0), set_count(&m.parameter_type_set)),
        section_row(name_chars(1), set_count(&m.parameter_set)),
        section_row(name_chars(2), set_count(&m.argument_type_set)),
        section_row(name_chars(3), set_count(&m.meta_command_set)),
        section_row(name_chars(4), set_count(&m.command_container_set)),
        section_row(name_chars(5), set_count(&m.stream_set)),
        section_row(name_chars(6), set_count(&m.algorithm_set)),
    ];
    assert(rows_view(r@) =~= command_sections_of(Some(m@)));
    r
}

/// The row of an argument type: its kind and its name.
pub fn argument_type_row(t: &ArgumentType) -> (r: Vec<String>)
    ensures
        row_view(r@) == seq![ArgumentKind::label_of(kind_of(t@.body)), t@.name],
{
    let r = vec![label(kind(t)), t.name.clone()];
    assert(row_view(r@) =~= seq![ArgumentKind::label_of(kind_of(t@.body)), t@.name]);
    r
}

/// The label of a meta command entry's kind.
pub open spec fn command_kind_text(v: EntryVariant) -> Seq<char> {
    match v {
        EntryVariant::MetaCommandRef => seq!['M', 'e', 't', 'a', 'C', 'o', 'm', 'm', 'a', 'n', 'd', 'R', 'e', 'f'],
        EntryVariant::BlockMetaCommand => seq![
            'B', 'l', 'o', 'c', 'k', 'M', 'e', 't', 'a', 'C', 'o', 'm', 'm', 'a', 'n', 'd',
        ],
        _ => seq!['M', 'e', 't', 'a', 'C', 'o', 'm', 'm', 'a', 'n', 'd'],
    }
}

/// The row of a meta command entry: its kind and its name (for a
/// reference, the command it refers to).
pub fn meta_command_row(e: &Entry) -> (r: Vec<String>)
    ensures
        row_view(r@) == seq![command_kind_text(e@.variant), e@.name],
{
    let k = match e.variant {
        EntryVariant::MetaCommandRef => vec!['M', 'e', 't', 'a', 'C', 'o', 'm', 'm', 'a', 'n', 'd', 'R', 'e', 'f'],
        EntryVariant::BlockMetaCommand => vec![
            'B', 'l', 'o', 'c', 'k', 'M', 'e', 't', 'a', 'C', 'o', 'm', 'm', 'a', 'n', 'd',
        ],
        _ => vec!['M', 'e', 't', 'a', 'C', 'o', 'm', 'm', 'a', 'n', 'd'],
    };
    assert(k@ =~= command_kind_text(e@.variant));
    let r = vec![string_of(&k), e.name.clone()];
    assert(row_view(r@) =~= seq![command_kind_text(e@.variant), e@.name]);
    r
}

} // verus!

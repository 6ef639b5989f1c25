//! Argument types: their kinds, the values the argument type form shows
//! and applies, and the nested items (array dimensions or aggregate
//! members) it edits as text, one per line.
use vstd::prelude::*;
use crate::algorithm::{column_separator, join_lines, opt_text, push_columns, text_or_empty};
use crate::choice::{Choice, choice_named, label, parse_label};
use crate::encoding::{TypeItem, TypeItemView, items_view};
use crate::fields::{optional, optional_text, text_of};
use crate::members::{Member, MemberView, blank_member, default_member, members_view};
use crate::number::{int_text, is_float_chars, is_float_text, parse_i64, parse_i64_spec, parse_u32, parse_u32_spec};
use crate::text::{chars_of, filter_map, first_some, is_space, is_trimmed, join, lemma_first_of_prefix, lines, lines_of, splitn_pattern, splitn_seq, string_of, texts, trim, trim_chars};

verus! {

/// The kind of an argument type.
#[derive(Clone, Copy, Debug, PartialEq, Eq, Structural)]
pub enum ArgumentKind {
    String,
    Enumerated,
    Integer,
    Binary,
    Float,
    Boolean,
    RelativeTime,
    AbsoluteTime,
    Array,
    Aggregate,
}

impl Choice for ArgumentKind {
    open spec fn label_of(c: ArgumentKind) -> Seq<char> {
        match c {
            ArgumentKind::String => seq!['S', 't', 'r', 'i', 'n', 'g', 'A', 'r', 'g', 'u', 'm', 'e', 'n', 't', 'T', 'y', 'p', 'e'],
            ArgumentKind::Enumerated => seq!['E', 'n', 'u', 'm', 'e', 'r', 'a', 't', 'e', 'd', 'A', 'r', 'g', 'u', 'm', 'e', 'n', 't', 'T', 'y', 'p', 'e'],
            ArgumentKind::Integer => seq!['I', 'n', 't', 'e', 'g', 'e', 'r', 'A', 'r', 'g', 'u', 'm', 'e', 'n', 't', 'T', 'y', 'p', 'e'],
            ArgumentKind::Binary => seq!['B', 'i', 'n', 'a', 'r', 'y', 'A', 'r', 'g', 'u', 'm', 'e', 'n', 't', 'T', 'y', 'p', 'e'],
            ArgumentKind::Float => seq!['F', 'l', 'o', 'a', 't', 'A', 'r', 'g', 'u', 'm', 'e', 'n', 't', 'T', 'y', 'p', 'e'],
            ArgumentKind::Boolean => seq!['B', 'o', 'o', 'l', 'e', 'a', 'n', 'A', 'r', 'g', 'u', 'm', 'e', 'n', 't', 'T', 'y', 'p', 'e'],
            ArgumentKind::RelativeTime => seq!['R', 'e', 'l', 'a', 't', 'i', 'v', 'e', 'T', 'i', 'm', 'e', 'A', 'r', 'g', 'u', 'm', 'e', 'n', 't', 'T', 'y', 'p', 'e'],
            ArgumentKind::AbsoluteTime => seq!['A', 'b', 's', 'o', 'l', 'u', 't', 'e', 'T', 'i', 'm', 'e', 'A', 'r', 'g', 'u', 'm', 'e', 'n', 't', 'T', 'y', 'p', 'e'],
            ArgumentKind::Array => seq!['A', 'r', 'r', 'a', 'y', 'A', 'r', 'g', 'u', 'm', 'e', 'n', 't', 'T', 'y', 'p', 'e'],
            ArgumentKind::Aggregate => seq!['A', 'g', 'g', 'r', 'e', 'g', 'a', 't', 'e', 'A', 'r', 'g', 'u', 'm', 'e', 'n', 't', 'T', 'y', 'p', 'e'],
        }
    }

    open spec fn variants() -> Seq<ArgumentKind> {
        seq![ArgumentKind::String, ArgumentKind::Enumerated, ArgumentKind::Integer, ArgumentKind::Binary, ArgumentKind::Float, ArgumentKind::Boolean, ArgumentKind::RelativeTime, ArgumentKind::AbsoluteTime, ArgumentKind::Array, ArgumentKind::Aggregate]
    }

    fn variant_list() -> (r: Vec<ArgumentKind>) {
        let r = vec![ArgumentKind::String, ArgumentKind::Enumerated, ArgumentKind::Integer, ArgumentKind::Binary, ArgumentKind::Float, ArgumentKind::Boolean, ArgumentKind::RelativeTime, ArgumentKind::AbsoluteTime, ArgumentKind::Array, ArgumentKind::Aggregate];
        assert(r@ =~= Self::variants());
        r
    }

    fn label_chars(self) -> (r: Vec<char>) {
        let r = match self {
            ArgumentKind::String => vec!['S', 't', 'r', 'i', 'n', 'g', 'A', 'r', 'g', 'u', 'm', 'e', 'n', 't', 'T', 'y', 'p', 'e'],
            ArgumentKind::Enumerated => vec!['E', 'n', 'u', 'm', 'e', 'r', 'a', 't', 'e', 'd', 'A', 'r', 'g', 'u', 'm', 'e', 'n', 't', 'T', 'y', 'p', 'e'],
            ArgumentKind::Integer => vec!['I', 'n', 't', 'e', 'g', 'e', 'r', 'A', 'r', 'g', 'u', 'm', 'e', 'n', 't', 'T', 'y', 'p', 'e'],
            ArgumentKind::Binary => vec!['B', 'i', 'n', 'a', 'r', 'y', 'A', 'r', 'g', 'u', 'm', 'e', 'n', 't', 'T', 'y', 'p', 'e'],
            ArgumentKind::Float => vec!['F', 'l', 'o', 'a', 't', 'A', 'r', 'g', 'u', 'm', 'e', 'n', 't', 'T', 'y', 'p', 'e'],
            ArgumentKind::Boolean => vec!['B', 'o', 'o', 'l', 'e', 'a', 'n', 'A', 'r', 'g', 'u', 'm', 'e', 'n', 't', 'T', 'y', 'p', 'e'],
            ArgumentKind::RelativeTime => vec!['R', 'e', 'l', 'a', 't', 'i', 'v', 'e', 'T', 'i', 'm', 'e', 'A', 'r', 'g', 'u', 'm', 'e', 'n', 't', 'T', 'y', 'p', 'e'],
            ArgumentKind::AbsoluteTime => vec!['A', 'b', 's', 'o', 'l', 'u', 't', 'e', 'T', 'i', 'm', 'e', 'A', 'r', 'g', 'u', 'm', 'e', 'n', 't', 'T', 'y', 'p', 'e'],
            ArgumentKind::Array => vec!['A', 'r', 'r', 'a', 'y', 'A', 'r', 'g', 'u', 'm', 'e', 'n', 't', 'T', 'y', 'p', 'e'],
            ArgumentKind::Aggregate => vec!['A', 'g', 'g', 'r', 'e', 'g', 'a', 't', 'e', 'A', 'r', 'g', 'u', 'm', 'e', 'n', 't', 'T', 'y', 'p', 'e'],
        };
        assert(r@ =~= Self::label_of(self));
        r
    }

    proof fn lemma_choice() {
        assert forall|c: ArgumentKind| Self::variants().contains(c) by {
            match c {
                ArgumentKind::String => { assert(Self::variants()[0] == c); },
                ArgumentKind::Enumerated => { assert(Self::variants()[1] == c); },
                ArgumentKind::Integer => { assert(Self::variants()[2] == c); },
                ArgumentKind::Binary => { assert(Self::variants()[3] == c); },
                ArgumentKind::Float => { assert(Self::variants()[4] == c); },
                ArgumentKind::Boolean => { assert(Self::variants()[5] == c); },
                ArgumentKind::RelativeTime => { assert(Self::variants()[6] == c); },
                ArgumentKind::AbsoluteTime => { assert(Self::variants()[7] == c); },
                ArgumentKind::Array => { assert(Self::variants()[8] == c); },
                ArgumentKind::Aggregate => { assert(Self::variants()[9] == c); },
            }
        }
        assert forall|a: ArgumentKind, b: ArgumentKind| Self::label_of(a) == Self::label_of(b) implies a == b by {
            match (a, b) {
                (ArgumentKind::String, ArgumentKind::Enumerated) => { assert(Self::label_of(a).len() != Self::label_of(b).len()); },
                (ArgumentKind::String, ArgumentKind::Integer) => { assert(Self::label_of(a).len() != Self::label_of(b).len()); },
                (ArgumentKind::String, ArgumentKind::Binary) => { assert(Self::label_of(a)[0] != Self::label_of(b)[0]); },
                (ArgumentKind::String, ArgumentKind::Float) => { assert(Self::label_of(a).len() != Self::label_of(b).len()); },
                (ArgumentKind::String, ArgumentKind::Boolean) => { assert(Self::label_of(a).len() != Self::label_of(b).len()); },
                (ArgumentKind::String, ArgumentKind::RelativeTime) => { assert(Self::label_of(a).len() != Self::label_of(b).len()); },
                (ArgumentKind::String, ArgumentKind::AbsoluteTime) => { assert(Self::label_of(a).len() != Self::label_of(b).len()); },
                (ArgumentKind::String, ArgumentKind::Array) => { assert(Self::label_of(a).len() != Self::label_of(b).len()); },
                (ArgumentKind::String, ArgumentKind::Aggregate) => { assert(Self::label_of(a).len() != Self::label_of(b).len()); },
                (ArgumentKind::Enumerated, ArgumentKind::String) => { assert(Self::label_of(a).len() != Self::label_of(b).len()); },
                (ArgumentKind::Enumerated, ArgumentKind::Integer) => { assert(Self::label_of(a).len() != Self::label_of(b).len()); },
                (ArgumentKind::Enumerated, ArgumentKind::Binary) => { assert(Self::label_of(a).len() != Self::label_of(b).len()); },
                (ArgumentKind::Enumerated, ArgumentKind::Float) => { assert(Self::label_of(a).len() != Self::label_of(b).len()); },
                (ArgumentKind::Enumerated, ArgumentKind::Boolean) => { assert(Self::label_of(a).len() != Self::label_of(b).len()); },
                (ArgumentKind::Enumerated, ArgumentKind::RelativeTime) => { assert(Self::label_of(a).len() != Self::label_of(b).len()); },
                (ArgumentKind::Enumerated, ArgumentKind::AbsoluteTime) => { assert(Self::label_of(a).len() != Self::label_of(b).len()); },
                (ArgumentKind::Enumerated, ArgumentKind::Array) => { assert(Self::label_of(a).len() != Self::label_of(b).len()); },
                (ArgumentKind::Enumerated, ArgumentKind::Aggregate) => { assert(Self::label_of(a).len() != Self::label_of(b).len()); },
                (ArgumentKind::Integer, ArgumentKind::String) => { assert(Self::label_of(a).len() != Self::label_of(b).len()); },
                (ArgumentKind::Integer, ArgumentKind::Enumerated) => { assert(Self::label_of(a).len() != Self::label_of(b).len()); },
                (ArgumentKind::Integer, ArgumentKind::Binary) => { assert(Self::label_of(a).len() != Self::label_of(b).len()); },
                (ArgumentKind::Integer, ArgumentKind::Float) => { assert(Self::label_of(a).len() != Self::label_of(b).len()); },
                (ArgumentKind::Integer, ArgumentKind::Boolean) => { assert(Self::label_of(a)[0] != Self::label_of(b)[0]); },
                (ArgumentKind::Integer, ArgumentKind::RelativeTime) => { assert(Self::label_of(a).len() != Self::label_of(b).len()); },
                (ArgumentKind::Integer, ArgumentKind::AbsoluteTime) => { assert(Self::label_of(a).len() != Self::label_of(b).len()); },
                (ArgumentKind::Integer, ArgumentKind::Array) => { assert(Self::label_of(a).len() != Self::label_of(b).len()); },
                (ArgumentKind::Integer, ArgumentKind::Aggregate) => { assert(Self::label_of(a).len() != Self::label_of(b).len()); },
                (ArgumentKind::Binary, ArgumentKind::String) => { assert(Self::label_of(a)[0] != Self::label_of(b)[0]); },
                (ArgumentKind::Binary, ArgumentKind::Enumerated) => { assert(Self::label_of(a).len() != Self::label_of(b).len()); },
                (ArgumentKind::Binary, ArgumentKind::Integer) => { assert(Self::label_of(a).len() != Self::label_of(b).len()); },
                (ArgumentKind::Binary, ArgumentKind::Float) => { assert(Self::label_of(a).len() != Self::label_of(b).len()); },
                (ArgumentKind::Binary, ArgumentKind::Boolean) => { assert(Self::label_of(a).len() != Self::label_of(b).len()); },
                (ArgumentKind::Binary, ArgumentKind::RelativeTime) => { assert(Self::label_of(a).len() != Self::label_of(b).len()); },
                (ArgumentKind::Binary, ArgumentKind::AbsoluteTime) => { assert(Self::label_of(a).len() != Self::label_of(b).len()); },
                (ArgumentKind::Binary, ArgumentKind::Array) => { assert(Self::label_of(a).len() != Self::label_of(b).len()); },
                (ArgumentKind::Binary, ArgumentKind::Aggregate) => { assert(Self::label_of(a).len() != Self::label_of(b).len()); },
                (ArgumentKind::Float, ArgumentKind::String) => { assert(Self::label_of(a).len() != Self::label_of(b).len()); },
                (ArgumentKind::Float, ArgumentKind::Enumerated) => { assert(Self::label_of(a).len() != Self::label_of(b).len()); },
                (ArgumentKind::Float, ArgumentKind::Integer) => { assert(Self::label_of(a).len() != Self::label_of(b).len()); },
                (ArgumentKind::Float, ArgumentKind::Binary) => { assert(Self::label_of(a).len() != Self::label_of(b).len()); },
                (ArgumentKind::Float, ArgumentKind::Boolean) => { assert(Self::label_of(a).len() != Self::label_of(b).len()); },
                (ArgumentKind::Float, ArgumentKind::RelativeTime) => { assert(Self::label_of(a).len() != Self::label_of(b).len()); },
                (ArgumentKind::Float, ArgumentKind::AbsoluteTime) => { assert(Self::label_of(a).len() != Self::label_of(b).len()); },
                (ArgumentKind::Float, ArgumentKind::Array) => { assert(Self::label_of(a)[0] != Self::label_of(b)[0]); },
                (ArgumentKind::Float, ArgumentKind::Aggregate) => { assert(Self::label_of(a).len() != Self::label_of(b).len()); },
                (ArgumentKind::Boolean, ArgumentKind::String) => { assert(Self::label_of(a).len() != Self::label_of(b).len()); },
                (ArgumentKind::Boolean, ArgumentKind::Enumerated) => { assert(Self::label_of(a).len() != Self::label_of(b).len()); },
                (ArgumentKind::Boolean, ArgumentKind::Integer) => { assert(Self::label_of(a)[0] != Self::label_of(b)[0]); },
                (ArgumentKind::Boolean, ArgumentKind::Binary) => { assert(Self::label_of(a).len() != Self::label_of(b).len()); },
                (ArgumentKind::Boolean, ArgumentKind::Float) => { assert(Self::label_of(a).len() != Self::label_of(b).len()); },
                (ArgumentKind::Boolean, ArgumentKind::RelativeTime) => { assert(Self::label_of(a).len() != Self::label_of(b).len()); },
                (ArgumentKind::Boolean, ArgumentKind::AbsoluteTime) => { assert(Self::label_of(a).len() != Self::label_of(b).len()); },
                (ArgumentKind::Boolean, ArgumentKind::Array) => { assert(Self::label_of(a).len() != Self::label_of(b).len()); },
                (ArgumentKind::Boolean, ArgumentKind::Aggregate) => { assert(Self::label_of(a).len() != Self::label_of(b).len()); },
                (ArgumentKind::RelativeTime, ArgumentKind::String) => { assert(Self::label_of(a).len() != Self::label_of(b).len()); },
                (ArgumentKind::RelativeTime, ArgumentKind::Enumerated) => { assert(Self::label_of(a).len() != Self::label_of(b).len()); },
                (ArgumentKind::RelativeTime, ArgumentKind::Integer) => { assert(Self::label_of(a).len() != Self::label_of(b).len()); },
                (ArgumentKind::RelativeTime, ArgumentKind::Binary) => { assert(Self::label_of(a).len() != Self::label_of(b).len()); },
                (ArgumentKind::RelativeTime, ArgumentKind::Float) => { assert(Self::label_of(a).len() != Self::label_of(b).len()); },
                (ArgumentKind::RelativeTime, ArgumentKind::Boolean) => { assert(Self::label_of(a).len() != Self::label_of(b).len()); },
                (ArgumentKind::RelativeTime, ArgumentKind::AbsoluteTime) => { assert(Self::label_of(a)[0] != Self::label_of(b)[0]); },
                (ArgumentKind::RelativeTime, ArgumentKind::Array) => { assert(Self::label_of(a).len() != Self::label_of(b).len()); },
                (ArgumentKind::RelativeTime, ArgumentKind::Aggregate) => { assert(Self::label_of(a).len() != Self::label_of(b).len()); },
                (ArgumentKind::AbsoluteTime, ArgumentKind::String) => { assert(Self::label_of(a).len() != Self::label_of(b).len()); },
                (ArgumentKind::AbsoluteTime, ArgumentKind::Enumerated) => { assert(Self::label_of(a).len() != Self::label_of(b).len()); },
                (ArgumentKind::AbsoluteTime, ArgumentKind::Integer) => { assert(Self::label_of(a).len() != Self::label_of(b).len()); },
                (ArgumentKind::AbsoluteTime, ArgumentKind::Binary) => { assert(Self::label_of(a).len() != Self::label_of(b).len()); },
                (ArgumentKind::AbsoluteTime, ArgumentKind::Float) => { assert(Self::label_of(a).len() != Self::label_of(b).len()); },
                (ArgumentKind::AbsoluteTime, ArgumentKind::Boolean) => { assert(Self::label_of(a).len() != Self::label_of(b).len()); },
                (ArgumentKind::AbsoluteTime, ArgumentKind::RelativeTime) => { assert(Self::label_of(a)[0] != Self::label_of(b)[0]); },
                (ArgumentKind::AbsoluteTime, ArgumentKind::Array) => { assert(Self::label_of(a).len() != Self::label_of(b).len()); },
                (ArgumentKind::AbsoluteTime, ArgumentKind::Aggregate) => { assert(Self::label_of(a).len() != Self::label_of(b).len()); },
                (ArgumentKind::Array, ArgumentKind::String) => { assert(Self::label_of(a).len() != Self::label_of(b).len()); },
                (ArgumentKind::Array, ArgumentKind::Enumerated) => { assert(Self::label_of(a).len() != Self::label_of(b).len()); },
                (ArgumentKind::Array, ArgumentKind::Integer) => { assert(Self::label_of(a).len() != Self::label_of(b).len()); },
                (ArgumentKind::Array, ArgumentKind::Binary) => { assert(Self::label_of(a).len() != Self::label_of(b).len()); },
                (ArgumentKind::Array, ArgumentKind::Float) => { assert(Self::label_of(a)[0] != Self::label_of(b)[0]); },
                (ArgumentKind::Array, ArgumentKind::Boolean) => { assert(Self::label_of(a).len() != Self::label_of(b).len()); },
                (ArgumentKind::Array, ArgumentKind::RelativeTime) => { assert(Self::label_of(a).len() != Self::label_of(b).len()); },
                (ArgumentKind::Array, ArgumentKind::AbsoluteTime) => { assert(Self::label_of(a).len() != Self::label_of(b).len()); },
                (ArgumentKind::Array, ArgumentKind::Aggregate) => { assert(Self::label_of(a).len() != Self::label_of(b).len()); },
                (ArgumentKind::Aggregate, ArgumentKind::String) => { assert(Self::label_of(a).len() != Self::label_of(b).len()); },
                (ArgumentKind::Aggregate, ArgumentKind::Enumerated) => { assert(Self::label_of(a).len() != Self::label_of(b).len()); },
                (ArgumentKind::Aggregate, ArgumentKind::Integer) => { assert(Self::label_of(a).len() != Self::label_of(b).len()); },
                (ArgumentKind::Aggregate, ArgumentKind::Binary) => { assert(Self::label_of(a).len() != Self::label_of(b).len()); },
                (ArgumentKind::Aggregate, ArgumentKind::Float) => { assert(Self::label_of(a).len() != Self::label_of(b).len()); },
                (ArgumentKind::Aggregate, ArgumentKind::Boolean) => { assert(Self::label_of(a).len() != Self::label_of(b).len()); },
                (ArgumentKind::Aggregate, ArgumentKind::RelativeTime) => { assert(Self::label_of(a).len() != Self::label_of(b).len()); },
                (ArgumentKind::Aggregate, ArgumentKind::AbsoluteTime) => { assert(Self::label_of(a).len() != Self::label_of(b).len()); },
                (ArgumentKind::Aggregate, ArgumentKind::Array) => { assert(Self::label_of(a).len() != Self::label_of(b).len()); },
                _ => {},
            }
        }
        assert forall|c: ArgumentKind| is_trimmed(#[trigger] Self::label_of(c)) && Self::label_of(c).len() > 0 by {
            let l = Self::label_of(c);
            assert(!is_space(l[0]) && !is_space(l[l.len() - 1]));
        }
    }
}

/// The width in bits of a character of a string argument.
#[derive(Clone, Copy, Debug, PartialEq, Eq, Structural)]
pub enum CharacterWidth {
    Bits8,
    Bits16,
    Bits32,
}

impl Choice for CharacterWidth {
    open spec fn label_of(c: CharacterWidth) -> Seq<char> {
        match c {
            CharacterWidth::Bits8 => seq!['8'],
            CharacterWidth::Bits16 => seq!['1', '6'],
            CharacterWidth::Bits32 => seq!['3', '2'],
        }
    }

    open spec fn variants() -> Seq<CharacterWidth> {
        seq![CharacterWidth::Bits8, CharacterWidth::Bits16, CharacterWidth::Bits32]
    }

    fn variant_list() -> (r: Vec<CharacterWidth>) {
        let r = vec![CharacterWidth::Bits8, CharacterWidth::Bits16, CharacterWidth::Bits32];
        assert(r@ =~= Self::variants());
        r
    }

    fn label_chars(self) -> (r: Vec<char>) {
        let r = match self {
            CharacterWidth::Bits8 => vec!['8'],
            CharacterWidth::Bits16 => vec!['1', '6'],
            CharacterWidth::Bits32 => vec!['3', '2'],
        };
        assert(r@ =~= Self::label_of(self));
        r
    }

    proof fn lemma_choice() {
        assert forall|c: CharacterWidth| Self::variants().contains(c) by {
            match c {
                CharacterWidth::Bits8 => { assert(Self::variants()[0] == c); },
                CharacterWidth::Bits16 => { assert(Self::variants()[1] == c); },
                CharacterWidth::Bits32 => { assert(Self::variants()[2] == c); },
            }
        }
        assert forall|a: CharacterWidth, b: CharacterWidth| Self::label_of(a) == Self::label_of(b) implies a == b by {
            match (a, b) {
                (CharacterWidth::Bits8, CharacterWidth::Bits16) => { assert(Self::label_of(a).len() != Self::label_of(b).len()); },
                (CharacterWidth::Bits8, CharacterWidth::Bits32) => { assert(Self::label_of(a).len() != Self::label_of(b).len()); },
                (CharacterWidth::Bits16, CharacterWidth::Bits8) => { assert(Self::label_of(a).len() != Self::label_of(b).len()); },
                (CharacterWidth::Bits16, CharacterWidth::Bits32) => { assert(Self::label_of(a)[0] != Self::label_of(b)[0]); },
                (CharacterWidth::Bits32, CharacterWidth::Bits8) => { assert(Self::label_of(a).len() != Self::label_of(b).len()); },
                (CharacterWidth::Bits32, CharacterWidth::Bits16) => { assert(Self::label_of(a)[0] != Self::label_of(b)[0]); },
                _ => {},
            }
        }
        assert forall|c: CharacterWidth| is_trimmed(#[trigger] Self::label_of(c)) && Self::label_of(c).len() > 0 by {
            let l = Self::label_of(c);
            assert(!is_space(l[0]) && !is_space(l[l.len() - 1]));
        }
    }
}

/// The size in bits of a floating point argument.
#[derive(Clone, Copy, Debug, PartialEq, Eq, Structural)]
pub enum FloatSizeInBits {
    Bits32,
    Bits64,
    Bits128,
}

impl Choice for FloatSizeInBits {
    open spec fn label_of(c: FloatSizeInBits) -> Seq<char> {
        match c {
            FloatSizeInBits::Bits32 => seq!['3', '2'],
            FloatSizeInBits::Bits64 => seq!['6', '4'],
            FloatSizeInBits::Bits128 => seq!['1', '2', '8'],
        }
    }

    open spec fn variants() -> Seq<FloatSizeInBits> {
        seq![FloatSizeInBits::Bits32, FloatSizeInBits::Bits64, FloatSizeInBits::Bits128]
    }

    fn variant_list() -> (r: Vec<FloatSizeInBits>) {
        let r = vec![FloatSizeInBits::Bits32, FloatSizeInBits::Bits64, FloatSizeInBits::Bits128];
        assert(r@ =~= Self::variants());
        r
    }

    fn label_chars(self) -> (r: Vec<char>) {
        let r = match self {
            FloatSizeInBits::Bits32 => vec!['3', '2'],
            FloatSizeInBits::Bits64 => vec!['6', '4'],
            FloatSizeInBits::Bits128 => vec!['1', '2', '8'],
        };
        assert(r@ =~= Self::label_of(self));
        r
    }

    proof fn lemma_choice() {
        assert forall|c: FloatSizeInBits| Self::variants().contains(c) by {
            match c {
                FloatSizeInBits::Bits32 => { assert(Self::variants()[0] == c); },
                FloatSizeInBits::Bits64 => { assert(Self::variants()[1] == c); },
                FloatSizeInBits::Bits128 => { assert(Self::variants()[2] == c); },
            }
        }
        assert forall|a: FloatSizeInBits, b: FloatSizeInBits| Self::label_of(a) == Self::label_of(b) implies a == b by {
            match (a, b) {
                (FloatSizeInBits::Bits32, FloatSizeInBits::Bits64) => { assert(Self::label_of(a)[0] != Self::label_of(b)[0]); },
                (FloatSizeInBits::Bits32, FloatSizeInBits::Bits128) => { assert(Self::label_of(a).len() != Self::label_of(b).len()); },
                (FloatSizeInBits::Bits64, FloatSizeInBits::Bits32) => { assert(Self::label_of(a)[0] != Self::label_of(b)[0]); },
                (FloatSizeInBits::Bits64, FloatSizeInBits::Bits128) => { assert(Self::label_of(a).len() != Self::label_of(b).len()); },
                (FloatSizeInBits::Bits128, FloatSizeInBits::Bits32) => { assert(Self::label_of(a).len() != Self::label_of(b).len()); },
                (FloatSizeInBits::Bits128, FloatSizeInBits::Bits64) => { assert(Self::label_of(a).len() != Self::label_of(b).len()); },
                _ => {},
            }
        }
        assert forall|c: FloatSizeInBits| is_trimmed(#[trigger] Self::label_of(c)) && Self::label_of(c).len() > 0 by {
            let l = Self::label_of(c);
            assert(!is_space(l[0]) && !is_space(l[l.len() - 1]));
        }
    }
}

// ---------------------------------------------------------------------
// Argument types
// ---------------------------------------------------------------------

/// An item of the content of an argument type, other than its encoding: a
/// long description, the enumeration list of an enumerated type, or any
/// other item, named by its element.
#[derive(Debug)]
pub enum ArgumentItem {
    LongDescription(String),
    EnumerationList(Vec<crate::enumeration::ValueEnumeration>),
    Other(String),
}

/// The value of an [`ArgumentItem`].
pub enum ArgumentItemView {
    LongDescription(Seq<char>),
    EnumerationList(Seq<crate::enumeration::EnumerationView>),
    Other(Seq<char>),
}

impl View for ArgumentItem {
    type V = ArgumentItemView;

    open spec fn view(&self) -> ArgumentItemView {
        match self {
            ArgumentItem::LongDescription(s) => ArgumentItemView::LongDescription(s@),
            ArgumentItem::EnumerationList(l) => ArgumentItemView::EnumerationList(
                crate::enumeration::enumerations_view(l@),
            ),
            ArgumentItem::Other(s) => ArgumentItemView::Other(s@),
        }
    }
}

/// An index of an array dimension: a number, or one given by an argument
/// or a lookup list.
#[derive(Debug)]
pub enum ArgumentIndex {
    FixedValue(i64),
    DynamicValue(String),
    DiscreteLookupList(crate::lookup::DiscreteLookupList),
}

/// The value of an [`ArgumentIndex`].
pub enum ArgumentIndexView {
    FixedValue(i64),
    DynamicValue(Seq<char>),
    DiscreteLookupList(crate::lookup::DiscreteLookupListView),
}

impl View for ArgumentIndex {
    type V = ArgumentIndexView;

    open spec fn view(&self) -> ArgumentIndexView {
        match self {
            ArgumentIndex::FixedValue(n) => ArgumentIndexView::FixedValue(*n),
            ArgumentIndex::DynamicValue(s) => ArgumentIndexView::DynamicValue(s@),
            ArgumentIndex::DiscreteLookupList(l) => ArgumentIndexView::DiscreteLookupList(l@),
        }
    }
}

/// A dimension of an array argument: its first and last index.
#[derive(Debug)]
pub struct ArgumentDimension {
    pub starting_index: ArgumentIndex,
    pub ending_index: ArgumentIndex,
}

/// The value of an [`ArgumentDimension`].
pub struct DimensionView {
    pub starting_index: ArgumentIndexView,
    pub ending_index: ArgumentIndexView,
}

impl View for ArgumentDimension {
    type V = DimensionView;

    open spec fn view(&self) -> DimensionView {
        DimensionView { starting_index: self.starting_index@, ending_index: self.ending_index@ }
    }
}

/// The values of a list of dimensions.
pub open spec fn dimensions_view(v: Seq<ArgumentDimension>) -> Seq<DimensionView> {
    v.map_values(|d: ArgumentDimension| d@)
}

/// What an argument type holds beyond its name, descriptions and initial
/// value, by kind. The types that hold a list of items (descriptions,
/// sets, their encoding) hold their long description in it; the others
/// hold it on its own. A floating point initial value is the decimal text
/// that reads as it.
#[derive(Debug)]
pub enum ArgumentBody {
    String {
        base_type: Option<String>,
        initial_value: Option<String>,
        restriction_pattern: Option<String>,
        character_width: Option<CharacterWidth>,
        content: Vec<TypeItem<ArgumentItem>>,
    },
    Enumerated {
        base_type: Option<String>,
        initial_value: Option<String>,
        content: Vec<TypeItem<ArgumentItem>>,
    },
    Integer {
        base_type: Option<String>,
        initial_value: Option<i64>,
        size_in_bits: u32,
        signed: bool,
        content: Vec<TypeItem<ArgumentItem>>,
    },
    Binary {
        base_type: Option<String>,
        initial_value: Option<String>,
        content: Vec<TypeItem<ArgumentItem>>,
    },
    Float {
        base_type: Option<String>,
        initial_value: Option<String>,
        size_in_bits: FloatSizeInBits,
        content: Vec<TypeItem<ArgumentItem>>,
    },
    Boolean {
        base_type: Option<String>,
        initial_value: Option<String>,
        one_string_value: String,
        zero_string_value: String,
        content: Vec<TypeItem<ArgumentItem>>,
    },
    RelativeTime {
        base_type: Option<String>,
        initial_value: Option<String>,
        long_description: Option<String>,
    },
    AbsoluteTime {
        base_type: Option<String>,
        initial_value: Option<String>,
        long_description: Option<String>,
    },
    Array {
        array_type_ref: String,
        initial_value: Option<String>,
        long_description: Option<String>,
        dimensions: Vec<ArgumentDimension>,
    },
    Aggregate {
        initial_value: Option<String>,
        long_description: Option<String>,
        members: Vec<Member>,
    },
}

/// The value of an [`ArgumentBody`].
pub enum ArgumentBodyView {
    String {
        base_type: Option<Seq<char>>,
        initial_value: Option<Seq<char>>,
        restriction_pattern: Option<Seq<char>>,
        character_width: Option<CharacterWidth>,
        content: Seq<TypeItemView<ArgumentItemView>>,
    },
    Enumerated {
        base_type: Option<Seq<char>>,
        initial_value: Option<Seq<char>>,
        content: Seq<TypeItemView<ArgumentItemView>>,
    },
    Integer {
        base_type: Option<Seq<char>>,
        initial_value: Option<i64>,
        size_in_bits: u32,
        signed: bool,
        content: Seq<TypeItemView<ArgumentItemView>>,
    },
    Binary {
        base_type: Option<Seq<char>>,
        initial_value: Option<Seq<char>>,
        content: Seq<TypeItemView<ArgumentItemView>>,
    },
    Float {
        base_type: Option<Seq<char>>,
        initial_value: Option<Seq<char>>,
        size_in_bits: FloatSizeInBits,
        content: Seq<TypeItemView<ArgumentItemView>>,
    },
    Boolean {
        base_type: Option<Seq<char>>,
        initial_value: Option<Seq<char>>,
        one_string_value: Seq<char>,
        zero_string_value: Seq<char>,
        content: Seq<TypeItemView<ArgumentItemView>>,
    },
    RelativeTime {
        base_type: Option<Seq<char>>,
        initial_value: Option<Seq<char>>,
        long_description: Option<Seq<char>>,
    },
    AbsoluteTime {
        base_type: Option<Seq<char>>,
        initial_value: Option<Seq<char>>,
        long_description: Option<Seq<char>>,
    },
    Array {
        array_type_ref: Seq<char>,
        initial_value: Option<Seq<char>>,
        long_description: Option<Seq<char>>,
        dimensions: Seq<DimensionView>,
    },
    Aggregate {
        initial_value: Option<Seq<char>>,
        long_description: Option<Seq<char>>,
        members: Seq<MemberView>,
    },
}

impl View for ArgumentBody {
    type V = ArgumentBodyView;

    open spec fn view(&self) -> ArgumentBodyView {
        match self {
            ArgumentBody::String {
                base_type,
                initial_value,
                restriction_pattern,
                character_width,
                content,
            } => ArgumentBodyView::String {
                base_type: opt_text(*base_type),
                initial_value: opt_text(*initial_value),
                restriction_pattern: opt_text(*restriction_pattern),
                character_width: *character_width,
                content: items_view(content@),
            },
            ArgumentBody::Enumerated { base_type, initial_value, content } =>
                ArgumentBodyView::Enumerated {
                base_type: opt_text(*base_type),
                initial_value: opt_text(*initial_value),
                content: items_view(content@),
            },
            ArgumentBody::Integer { base_type, initial_value, size_in_bits, signed, content } =>
                ArgumentBodyView::Integer {
                base_type: opt_text(*base_type),
                initial_value: *initial_value,
                size_in_bits: *size_in_bits,
                signed: *signed,
                content: items_view(content@),
            },
            ArgumentBody::Binary { base_type, initial_value, content } => ArgumentBodyView::Binary {
                base_type: opt_text(*base_type),
                initial_value: opt_text(*initial_value),
                content: items_view(content@),
            },
            ArgumentBody::Float { base_type, initial_value, size_in_bits, content } =>
                ArgumentBodyView::Float {
                base_type: opt_text(*base_type),
                initial_value: opt_text(*initial_value),
                size_in_bits: *size_in_bits,
                content: items_view(content@),
            },
            ArgumentBody::Boolean {
                base_type,
                initial_value,
                one_string_value,
                zero_string_value,
                content,
            } => ArgumentBodyView::Boolean {
                base_type: opt_text(*base_type),
                initial_value: opt_text(*initial_value),
                one_string_value: one_string_value@,
                zero_string_value: zero_string_value@,
                content: items_view(content@),
            },
            ArgumentBody::RelativeTime { base_type, initial_value, long_description } =>
                ArgumentBodyView::RelativeTime {
                base_type: opt_text(*base_type),
                initial_value: opt_text(*initial_value),
                long_description: opt_text(*long_description),
            },
            ArgumentBody::AbsoluteTime { base_type, initial_value, long_description } =>
                ArgumentBodyView::AbsoluteTime {
                base_type: opt_text(*base_type),
                initial_value: opt_text(*initial_value),
                long_description: opt_text(*long_description),
            },
            ArgumentBody::Array { array_type_ref, initial_value, long_description, dimensions } =>
                ArgumentBodyView::Array {
                array_type_ref: array_type_ref@,
                initial_value: opt_text(*initial_value),
                long_description: opt_text(*long_description),
                dimensions: dimensions_view(dimensions@),
            },
            ArgumentBody::Aggregate { initial_value, long_description, members } =>
                ArgumentBodyView::Aggregate {
                initial_value: opt_text(*initial_value),
                long_description: opt_text(*long_description),
                members: members_view(members@),
            },
        }
    }
}

/// An argument type.
#[derive(Debug)]
pub struct ArgumentType {
    pub short_description: Option<String>,
    pub name: String,
    pub body: ArgumentBody,
}

/// The value of an argument type.
pub struct ArgumentTypeView {
    pub short_description: Option<Seq<char>>,
    pub name: Seq<char>,
    pub body: ArgumentBodyView,
}

impl View for ArgumentType {
    type V = ArgumentTypeView;

    open spec fn view(&self) -> ArgumentTypeView {
        ArgumentTypeView {
            short_description: opt_text(self.short_description),
            name: self.name@,
            body: self.body@,
        }
    }
}

/// The kind of an argument type.
pub open spec fn kind_of(b: ArgumentBodyView) -> ArgumentKind {
    match b {
        ArgumentBodyView::String { .. } => ArgumentKind::String,
        ArgumentBodyView::Enumerated { .. } => ArgumentKind::Enumerated,
        ArgumentBodyView::Integer { .. } => ArgumentKind::Integer,
        ArgumentBodyView::Binary { .. } => ArgumentKind::Binary,
        ArgumentBodyView::Float { .. } => ArgumentKind::Float,
        ArgumentBodyView::Boolean { .. } => ArgumentKind::Boolean,
        ArgumentBodyView::RelativeTime { .. } => ArgumentKind::RelativeTime,
        ArgumentBodyView::AbsoluteTime { .. } => ArgumentKind::AbsoluteTime,
        ArgumentBodyView::Array { .. } => ArgumentKind::Array,
        ArgumentBodyView::Aggregate { .. } => ArgumentKind::Aggregate,
    }
}

/// The kind of an argument type (see [`kind_of`]).
pub fn kind(value: &ArgumentType) -> (r: ArgumentKind)
    ensures
        r == kind_of(value@.body),
{
    match &value.body {
        ArgumentBody::String { .. } => ArgumentKind::String,
        ArgumentBody::Enumerated { .. } => ArgumentKind::Enumerated,
        ArgumentBody::Integer { .. } => ArgumentKind::Integer,
        ArgumentBody::Binary { .. } => ArgumentKind::Binary,
        ArgumentBody::Float { .. } => ArgumentKind::Float,
        ArgumentBody::Boolean { .. } => ArgumentKind::Boolean,
        ArgumentBody::RelativeTime { .. } => ArgumentKind::RelativeTime,
        ArgumentBody::AbsoluteTime { .. } => ArgumentKind::AbsoluteTime,
        ArgumentBody::Array { .. } => ArgumentKind::Array,
        ArgumentBody::Aggregate { .. } => ArgumentKind::Aggregate,
    }
}

/// The single dimension a new array argument has: from index 0 to 0.
pub open spec fn zero_dimension() -> DimensionView {
    DimensionView {
        starting_index: ArgumentIndexView::FixedValue(0),
        ending_index: ArgumentIndexView::FixedValue(0),
    }
}

/// A new argument type of a kind: no name and nothing set, except what
/// the kind requires: an integer is signed and 32 bits wide, a floating
/// point value 32 bits wide, a boolean reads `True` and `False`, an array
/// has one dimension from 0 to 0.
pub open spec fn new_argument_type(kind: ArgumentKind) -> ArgumentTypeView {
    ArgumentTypeView {
        short_description: None,
        name: Seq::empty(),
        body: match kind {
            ArgumentKind::String => ArgumentBodyView::String {
                base_type: None,
                initial_value: None,
                restriction_pattern: None,
                character_width: None,
                content: Seq::empty(),
            },
            ArgumentKind::Enumerated => ArgumentBodyView::Enumerated {
                base_type: None,
                initial_value: None,
                content: Seq::empty(),
            },
            ArgumentKind::Integer => ArgumentBodyView::Integer {
                base_type: None,
                initial_value: None,
                size_in_bits: 32,
                signed: true,
                content: Seq::empty(),
            },
            ArgumentKind::Binary => ArgumentBodyView::Binary {
                base_type: None,
                initial_value: None,
                content: Seq::empty(),
            },
            ArgumentKind::Float => ArgumentBodyView::Float {
                base_type: None,
                initial_value: None,
                size_in_bits: FloatSizeInBits::Bits32,
                content: Seq::empty(),
            },
            ArgumentKind::Boolean => ArgumentBodyView::Boolean {
                base_type: None,
                initial_value: None,
                one_string_value: seq!['T', 'r', 'u', 'e'],
                zero_string_value: seq!['F', 'a', 'l', 's', 'e'],
                content: Seq::empty(),
            },
            ArgumentKind::RelativeTime => ArgumentBodyView::RelativeTime {
                base_type: None,
                initial_value: None,
                long_description: None,
            },
            ArgumentKind::AbsoluteTime => ArgumentBodyView::AbsoluteTime {
                base_type: None,
                initial_value: None,
                long_description: None,
            },
            ArgumentKind::Array => ArgumentBodyView::Array {
                array_type_ref: Seq::empty(),
                initial_value: None,
                long_description: None,
                dimensions: seq![zero_dimension()],
            },
            ArgumentKind::Aggregate => ArgumentBodyView::Aggregate {
                initial_value: None,
                long_description: None,
                members: Seq::empty(),
            },
        },
    }
}

/// No items.
fn empty_items() -> (r: Vec<TypeItem<ArgumentItem>>)
    ensures
        items_view(r@) == Seq::<TypeItemView<ArgumentItemView>>::empty(),
{
    let r: Vec<TypeItem<ArgumentItem>> = Vec::new();
    assert(items_view(r@) =~= Seq::<TypeItemView<ArgumentItemView>>::empty());
    r
}

/// No members.
fn no_members() -> (r: Vec<Member>)
    ensures
        members_view(r@) == Seq::<MemberView>::empty(),
{
    let r: Vec<Member> = Vec::new();
    assert(members_view(r@) =~= Seq::<MemberView>::empty());
    r
}

/// A new argument type of a kind (see [`new_argument_type`]).
pub fn default_argument_type(kind: ArgumentKind) -> (r: ArgumentType)
    ensures
        r@ == new_argument_type(kind),
{
    let body = match kind {
        ArgumentKind::String => ArgumentBody::String {
            base_type: None,
            initial_value: None,
            restriction_pattern: None,
            character_width: None,
            content: empty_items(),
        },
        ArgumentKind::Enumerated => ArgumentBody::Enumerated {
            base_type: None,
            initial_value: None,
            content: empty_items(),
        },
        ArgumentKind::Integer => ArgumentBody::Integer {
            base_type: None,
            initial_value: None,
            size_in_bits: 32,
            signed: true,
            content: empty_items(),
        },
        ArgumentKind::Binary => ArgumentBody::Binary {
            base_type: None,
            initial_value: None,
            content: empty_items(),
        },
        ArgumentKind::Float => ArgumentBody::Float {
            base_type: None,
            initial_value: None,
            size_in_bits: FloatSizeInBits::Bits32,
            content: empty_items(),
        },
        ArgumentKind::Boolean => {
            let one = vec!['T', 'r', 'u', 'e'];
            let zero = vec!['F', 'a', 'l', 's', 'e'];
            assert(one@ =~= seq!['T', 'r', 'u', 'e']);
            assert(zero@ =~= seq!['F', 'a', 'l', 's', 'e']);
            ArgumentBody::Boolean {
                base_type: None,
                initial_value: None,
                one_string_value: string_of(&one),
                zero_string_value: string_of(&zero),
                content: empty_items(),
            }
        },
        ArgumentKind::RelativeTime => ArgumentBody::RelativeTime {
            base_type: None,
            initial_value: None,
            long_description: None,
        },
        ArgumentKind::AbsoluteTime => ArgumentBody::AbsoluteTime {
            base_type: None,
            initial_value: None,
            long_description: None,
        },
        ArgumentKind::Array => {
            let dimensions = vec![
                ArgumentDimension {
                    starting_index: ArgumentIndex::FixedValue(0),
                    ending_index: ArgumentIndex::FixedValue(0),
                },
            ];
            assert(dimensions_view(dimensions@) =~= seq![zero_dimension()]);
            ArgumentBody::Array {
                array_type_ref: String::new(),
                initial_value: None,
                long_description: None,
                dimensions,
            }
        },
        ArgumentKind::Aggregate => ArgumentBody::Aggregate {
            initial_value: None,
            long_description: None,
            members: no_members(),
        },
    };
    let r = ArgumentType { short_description: None, name: String::new(), body };
    r
}

/// The argument type after its kind is chosen: unchanged when it is of
/// that kind, else a new one of it.
pub open spec fn with_kind(t: ArgumentTypeView, kind: ArgumentKind) -> ArgumentTypeView {
    if kind_of(t.body) == kind {
        t
    } else {
        new_argument_type(kind)
    }
}

/// Chooses the kind of an argument type (see [`with_kind`]).
pub fn replace_kind(value: &mut ArgumentType, selected: ArgumentKind)
    ensures
        final(value)@ == with_kind(old(value)@, selected),
{
    if kind(value) == selected {
        return;
    }
    *value = default_argument_type(selected);
}


// ---------------------------------------------------------------------
// The long description in the items of an argument type
// ---------------------------------------------------------------------

/// The text of an item that is a long description.
pub open spec fn description_of(x: TypeItemView<ArgumentItemView>) -> Option<Seq<char>> {
    match x {
        TypeItemView::Leading(ArgumentItemView::LongDescription(s)) => Some(s),
        _ => None,
    }
}

/// Reads the text of an item that is a long description.
pub open spec fn description_reader() -> spec_fn(TypeItemView<ArgumentItemView>) -> Option<Seq<char>> {
    |x: TypeItemView<ArgumentItemView>| description_of(x)
}

/// The long description of the items: the first one's text, or the empty
/// text.
pub open spec fn items_description(c: Seq<TypeItemView<ArgumentItemView>>) -> Seq<char> {
    text_or_empty(first_some(c, description_reader()))
}

/// Keeps an item unless it is a long description.
pub open spec fn keep_non_description(x: TypeItemView<ArgumentItemView>) -> Option<
    TypeItemView<ArgumentItemView>,
> {
    if description_of(x) is Some {
        None
    } else {
        Some(x)
    }
}

/// Whether `i` is the index of the first long description.
pub open spec fn is_first_description(c: Seq<TypeItemView<ArgumentItemView>>, i: int) -> bool {
    &&& 0 <= i < c.len()
    &&& description_of(c[i]) is Some
    &&& forall|j: int| 0 <= j < i ==> (#[trigger] description_of(c[j])) is None
}

/// The items with the long description set: an empty one removes every
/// long description; another replaces the first one, or goes first when
/// there is none.
pub open spec fn with_description(c: Seq<TypeItemView<ArgumentItemView>>, d: Seq<char>) -> Seq<
    TypeItemView<ArgumentItemView>,
> {
    let item = TypeItemView::Leading(ArgumentItemView::LongDescription(d));
    if d.len() == 0 {
        filter_map(c, |x: TypeItemView<ArgumentItemView>| keep_non_description(x))
    } else if exists|i: int| is_first_description(c, i) {
        c.update(choose|i: int| is_first_description(c, i), item)
    } else {
        c.insert(0, item)
    }
}

/// The long description of the items (see [`items_description`]).
fn long_description_text(content: &Vec<TypeItem<ArgumentItem>>) -> (r: String)
    ensures
        r@ == items_description(items_view(content@)),
{
    let ghost cs = items_view(content@);
    let mut i: usize = 0;
    while i < content.len()
        invariant
            cs == items_view(content@),
            i <= content@.len(),
            forall|j: int| 0 <= j < i ==> (#[trigger] description_reader()(cs[j])) is None,
        decreases content.len() - i,
    {
        assert(cs[i as int] == content@[i as int]@);
        match &content[i] {
            TypeItem::Leading(ArgumentItem::LongDescription(s)) => {
                proof {
                    lemma_first_of_prefix(cs, description_reader(), i as int);
                }
                return s.clone();
            },
            _ => {},
        }
        i = i + 1;
    }
    proof {
        lemma_first_of_prefix(cs, description_reader(), cs.len() as int);
    }
    String::new()
}

/// Sets the long description of the items (see [`with_description`]).
fn set_long_description(content: &mut Vec<TypeItem<ArgumentItem>>, d: &String)
    ensures
        items_view(final(content)@) == with_description(items_view(old(content)@), d@),
{
    let ghost cs = items_view(content@);
    let ghost item = TypeItemView::Leading(ArgumentItemView::LongDescription(d@));
    let n = d.as_str().unicode_len();
    if n == 0 {
        let ghost f = |x: TypeItemView<ArgumentItemView>| keep_non_description(x);
        let mut items: Vec<TypeItem<ArgumentItem>> = Vec::new();
        std::mem::swap(&mut items, content);
        assert(items_view(content@) =~= Seq::<TypeItemView<ArgumentItemView>>::empty());
        assert(filter_map(cs, f) =~= items_view(content@) + filter_map(items_view(items@), f));
        while items.len() > 0
            invariant
                filter_map(cs, f) == items_view(content@) + filter_map(items_view(items@), f),
                f == (|x: TypeItemView<ArgumentItemView>| keep_non_description(x)),
            decreases items.len(),
        {
            let ghost before = items_view(items@);
            let x = items.remove(0);
            proof {
                let rest = items_view(items@);
                assert(before =~= seq![x@] + rest);
                crate::text::lemma_filter_map_concat(seq![x@], rest, f);
                crate::text::lemma_filter_map_single(x@, f);
            }
            let keep = match &x {
                TypeItem::Leading(ArgumentItem::LongDescription(_)) => false,
                _ => true,
            };
            let ghost out = items_view(content@);
            if keep {
                content.push(x);
                assert(items_view(content@) =~= out + seq![x@]);
            }
        }
        assert(filter_map(items_view(items@), f) =~= Seq::<TypeItemView<ArgumentItemView>>::empty());
        assert(items_view(content@) + Seq::<TypeItemView<ArgumentItemView>>::empty() =~= items_view(content@));
        return;
    }
    let mut i: usize = 0;
    while i < content.len()
        invariant
            cs == items_view(content@),
            cs == items_view(old(content)@),
            item == TypeItemView::Leading(ArgumentItemView::LongDescription(d@)),
            d@.len() > 0,
            i <= content@.len(),
            forall|j: int| 0 <= j < i ==> (#[trigger] description_of(cs[j])) is None,
        decreases content.len() - i,
    {
        assert(cs[i as int] == content@[i as int]@);
        let found = match &content[i] {
            TypeItem::Leading(ArgumentItem::LongDescription(_)) => true,
            _ => false,
        };
        if found {
            assert(is_first_description(cs, i as int));
            proof {
                let k = choose|k: int| is_first_description(cs, k);
                if k < i {
                    assert(description_of(cs[k]) is None);
                } else if k > i {
                    assert(description_of(cs[i as int]) is None);
                }
            }
            content.remove(i);
            content.insert(i, TypeItem::Leading(ArgumentItem::LongDescription(d.clone())));
            assert(items_view(content@) =~= cs.update(i as int, item));
            return;
        }
        i = i + 1;
    }
    proof {
        if exists|k: int| is_first_description(cs, k) {
            let k = choose|k: int| is_first_description(cs, k);
            assert(description_of(cs[k]) is None);
        }
    }
    content.insert(0, TypeItem::Leading(ArgumentItem::LongDescription(d.clone())));
    assert(items_view(content@) =~= cs.insert(0, item));
}


// ---------------------------------------------------------------------
// The texts of the argument type form
// ---------------------------------------------------------------------

/// The texts of the argument type form. The two extra texts hold what the
/// kind adds: a string's restriction pattern and character width, an
/// integer's size and signedness, a floating point size, a boolean's two
/// texts.
#[derive(Debug)]
pub struct ArgumentValues {
    pub name: String,
    pub base_or_ref: String,
    pub initial_value: String,
    pub short_description: String,
    pub long_description: String,
    pub extra_a: String,
    pub extra_b: String,
}

/// The value of [`ArgumentValues`].
pub struct ArgumentValuesView {
    pub name: Seq<char>,
    pub base_or_ref: Seq<char>,
    pub initial_value: Seq<char>,
    pub short_description: Seq<char>,
    pub long_description: Seq<char>,
    pub extra_a: Seq<char>,
    pub extra_b: Seq<char>,
}

impl View for ArgumentValues {
    type V = ArgumentValuesView;

    open spec fn view(&self) -> ArgumentValuesView {
        ArgumentValuesView {
            name: self.name@,
            base_or_ref: self.base_or_ref@,
            initial_value: self.initial_value@,
            short_description: self.short_description@,
            long_description: self.long_description@,
            extra_a: self.extra_a@,
            extra_b: self.extra_b@,
        }
    }
}

/// The form's texts from their parts, optional ones shown empty.
pub open spec fn common_values(
    name: Seq<char>,
    base_or_ref: Option<Seq<char>>,
    initial_value: Option<Seq<char>>,
    short_description: Option<Seq<char>>,
    long_description: Seq<char>,
    extra_a: Seq<char>,
    extra_b: Seq<char>,
) -> ArgumentValuesView {
    ArgumentValuesView {
        name,
        base_or_ref: text_or_empty(base_or_ref),
        initial_value: text_or_empty(initial_value),
        short_description: text_or_empty(short_description),
        long_description,
        extra_a,
        extra_b,
    }
}

/// The value of an optional borrowed text.
pub open spec fn opt_str(o: Option<&str>) -> Option<Seq<char>> {
    match o {
        Some(t) => Some(t@),
        None => None,
    }
}

impl ArgumentValues {
    /// The form's texts from their parts, optional ones shown empty (see
    /// [`common_values`]).
    pub fn common(
        name: &str,
        base_or_ref: Option<&str>,
        initial_value: Option<&str>,
        short_description: Option<&str>,
        long_description: &str,
        extra_a: &str,
        extra_b: &str,
    ) -> (r: ArgumentValues)
        ensures
            r@ == common_values(
                name@,
                opt_str(base_or_ref),
                opt_str(initial_value),
                opt_str(short_description),
                long_description@,
                extra_a@,
                extra_b@,
            ),
    {
        ArgumentValues {
            name: name.to_owned(),
            base_or_ref: match base_or_ref {
                Some(t) => t.to_owned(),
                None => String::new(),
            },
            initial_value: match initial_value {
                Some(t) => t.to_owned(),
                None => String::new(),
            },
            short_description: match short_description {
                Some(t) => t.to_owned(),
                None => String::new(),
            },
            long_description: long_description.to_owned(),
            extra_a: extra_a.to_owned(),
            extra_b: extra_b.to_owned(),
        }
    }
}

/// The label of an optional character width: empty for the default one.
pub open spec fn width_text(w: Option<CharacterWidth>) -> Seq<char> {
    match w {
        Some(c) => CharacterWidth::label_of(c),
        None => Seq::empty(),
    }
}

/// The texts the form shows for an argument type, or for none.
pub open spec fn argument_values_of(t: Option<ArgumentTypeView>) -> ArgumentValuesView {
    match t {
        None => common_values(Seq::empty(), None, None, None, Seq::empty(), Seq::empty(), Seq::empty()),
        Some(t) => {
            let n = t.name;
            let sd = t.short_description;
            match t.body {
                ArgumentBodyView::String {
                    base_type,
                    initial_value,
                    restriction_pattern,
                    character_width,
                    content,
                } => common_values(
                    n,
                    base_type,
                    initial_value,
                    sd,
                    items_description(content),
                    text_or_empty(restriction_pattern),
                    width_text(character_width),
                ),
                ArgumentBodyView::Enumerated { base_type, initial_value, content } =>
                    common_values(
                    n,
                    base_type,
                    initial_value,
                    sd,
                    items_description(content),
                    Seq::empty(),
                    Seq::empty(),
                ),
                ArgumentBodyView::Integer { base_type, initial_value, size_in_bits, signed, content } =>
                    common_values(
                    n,
                    base_type,
                    match initial_value {
                        Some(v) => Some(int_text(v as int)),
                        None => None,
                    },
                    sd,
                    items_description(content),
                    int_text(size_in_bits as int),
                    crate::text::bool_text(signed),
                ),
                ArgumentBodyView::Binary { base_type, initial_value, content } => common_values(
                    n,
                    base_type,
                    initial_value,
                    sd,
                    items_description(content),
                    Seq::empty(),
                    Seq::empty(),
                ),
                ArgumentBodyView::Float { base_type, initial_value, size_in_bits, content } =>
                    common_values(
                    n,
                    base_type,
                    initial_value,
                    sd,
                    items_description(content),
                    FloatSizeInBits::label_of(size_in_bits),
                    Seq::empty(),
                ),
                ArgumentBodyView::Boolean {
                    base_type,
                    initial_value,
                    one_string_value,
                    zero_string_value,
                    content,
                } => common_values(
                    n,
                    base_type,
                    initial_value,
                    sd,
                    items_description(content),
                    one_string_value,
                    zero_string_value,
                ),
                ArgumentBodyView::RelativeTime { base_type, initial_value, long_description } =>
                    common_values(
                    n,
                    base_type,
                    initial_value,
                    sd,
                    text_or_empty(long_description),
                    Seq::empty(),
                    Seq::empty(),
                ),
                ArgumentBodyView::AbsoluteTime { base_type, initial_value, long_description } =>
                    common_values(
                    n,
                    base_type,
                    initial_value,
                    sd,
                    text_or_empty(long_description),
                    Seq::empty(),
                    Seq::empty(),
                ),
                ArgumentBodyView::Array { array_type_ref, initial_value, long_description, .. } =>
                    common_values(
                    n,
                    Some(array_type_ref),
                    initial_value,
                    sd,
                    text_or_empty(long_description),
                    Seq::empty(),
                    Seq::empty(),
                ),
                ArgumentBodyView::Aggregate { initial_value, long_description, .. } =>
                    common_values(
                    n,
                    None,
                    initial_value,
                    sd,
                    text_or_empty(long_description),
                    Seq::empty(),
                    Seq::empty(),
                ),
            }
        },
    }
}

fn number(n: i64) -> (r: String)
    ensures
        r@ == int_text(n as int),
{
    string_of(&crate::number::i64_text(n))
}

fn values(
    name: &String,
    base_or_ref: String,
    initial_value: String,
    short_description: &Option<String>,
    long_description: String,
    extra_a: String,
    extra_b: String,
) -> (r: ArgumentValues)
    ensures
        r@ == (ArgumentValuesView {
            name: name@,
            base_or_ref: base_or_ref@,
            initial_value: initial_value@,
            short_description: text_or_empty(opt_text(*short_description)),
            long_description: long_description@,
            extra_a: extra_a@,
            extra_b: extra_b@,
        }),
{
    ArgumentValues {
        name: name.clone(),
        base_or_ref,
        initial_value,
        short_description: text_of(short_description),
        long_description,
        extra_a,
        extra_b,
    }
}

impl ArgumentValues {
    /// The texts the form shows for an argument type (see
    /// [`argument_values_of`]).
    pub fn from_type(value: Option<&ArgumentType>) -> (r: ArgumentValues)
        ensures
            r@ == argument_values_of(
                match value {
                    Some(t) => Some(t@),
                    None => None,
                },
            ),
    {
        let t = match value {
            None => {
                let r = ArgumentValues::common("", None, None, None, "", "", "");
                proof {
                    reveal_strlit("");
                    assert(""@ =~= Seq::<char>::empty());
                }
                return r;
            },
            Some(t) => t,
        };
        let n = &t.name;
        let sd = &t.short_description;
        match &t.body {
            ArgumentBody::String {
                base_type,
                initial_value,
                restriction_pattern,
                character_width,
                content,
            } => values(
                n,
                text_of(base_type),
                text_of(initial_value),
                sd,
                long_description_text(content),
                text_of(restriction_pattern),
                match character_width {
                    Some(c) => label(*c),
                    None => String::new(),
                },
            ),
            ArgumentBody::Enumerated { base_type, initial_value, content } => values(
                n,
                text_of(base_type),
                text_of(initial_value),
                sd,
                long_description_text(content),
                String::new(),
                String::new(),
            ),
            ArgumentBody::Integer { base_type, initial_value, size_in_bits, signed, content } =>
                values(
                n,
                text_of(base_type),
                match initial_value {
                    Some(v) => number(*v),
                    None => String::new(),
                },
                sd,
                long_description_text(content),
                number(*size_in_bits as i64),
                string_of(&crate::text::bool_chars(*signed)),
            ),
            ArgumentBody::Binary { base_type, initial_value, content } => values(
                n,
                text_of(base_type),
                text_of(initial_value),
                sd,
                long_description_text(content),
                String::new(),
                String::new(),
            ),
            ArgumentBody::Float { base_type, initial_value, size_in_bits, content } => values(
                n,
                text_of(base_type),
                text_of(initial_value),
                sd,
                long_description_text(content),
                label(*size_in_bits),
                String::new(),
            ),
            ArgumentBody::Boolean {
                base_type,
                initial_value,
                one_string_value,
                zero_string_value,
                content,
            } => values(
                n,
                text_of(base_type),
                text_of(initial_value),
                sd,
                long_description_text(content),
                one_string_value.clone(),
                zero_string_value.clone(),
            ),
            ArgumentBody::RelativeTime { base_type, initial_value, long_description } => values(
                n,
                text_of(base_type),
                text_of(initial_value),
                sd,
                text_of(long_description),
                String::new(),
                String::new(),
            ),
            ArgumentBody::AbsoluteTime { base_type, initial_value, long_description } => values(
                n,
                text_of(base_type),
                text_of(initial_value),
                sd,
                text_of(long_description),
                String::new(),
                String::new(),
            ),
            ArgumentBody::Array { array_type_ref, initial_value, long_description, .. } => values(
                n,
                array_type_ref.clone(),
                text_of(initial_value),
                sd,
                text_of(long_description),
                String::new(),
                String::new(),
            ),
            ArgumentBody::Aggregate { initial_value, long_description, .. } => values(
                n,
                String::new(),
                text_of(initial_value),
                sd,
                text_of(long_description),
                String::new(),
                String::new(),
            ),
        }
    }
}


/// The argument type after the form's texts are applied; its kind stays.
/// The name (and an array's type reference) is taken as it is; the base
/// type, descriptions, initial value and restriction pattern are trimmed
/// and blank ones give nothing; a long description held in the items is
/// set there (see [`with_description`]). An integer's initial value is
/// its text when it reads as a whole number, its size and signedness their
/// texts when they read as such (32 and signed otherwise); a floating
/// point initial value is its text when it reads as a number, its size the
/// one its trimmed text names (32 otherwise); a character width the one
/// its trimmed text names; a boolean's texts are taken as they are.
pub open spec fn applied_argument(v: ArgumentValuesView, t: ArgumentTypeView) -> ArgumentTypeView {
    let base_type = optional_text(v.base_or_ref);
    let initial = optional_text(v.initial_value);
    ArgumentTypeView {
        short_description: optional_text(v.short_description),
        name: v.name,
        body: match t.body {
            ArgumentBodyView::String { content, .. } => ArgumentBodyView::String {
                base_type,
                initial_value: initial,
                restriction_pattern: optional_text(v.extra_a),
                character_width: choice_named::<CharacterWidth>(trim(v.extra_b)),
                content: with_description(content, v.long_description),
            },
            ArgumentBodyView::Enumerated { content, .. } => ArgumentBodyView::Enumerated {
                base_type,
                initial_value: initial,
                content: with_description(content, v.long_description),
            },
            ArgumentBodyView::Integer { content, .. } => ArgumentBodyView::Integer {
                base_type,
                initial_value: parse_i64_spec(v.initial_value),
                size_in_bits: match parse_u32_spec(v.extra_a) {
                    Some(n) => n,
                    None => 32,
                },
                signed: match crate::text::parse_bool_spec(v.extra_b) {
                    Some(b) => b,
                    None => true,
                },
                content: with_description(content, v.long_description),
            },
            ArgumentBodyView::Binary { content, .. } => ArgumentBodyView::Binary {
                base_type,
                initial_value: initial,
                content: with_description(content, v.long_description),
            },
            ArgumentBodyView::Float { content, .. } => ArgumentBodyView::Float {
                base_type,
                initial_value: if is_float_text(v.initial_value) {
                    Some(v.initial_value)
                } else {
                    None
                },
                size_in_bits: match choice_named::<FloatSizeInBits>(trim(v.extra_a)) {
                    Some(s) => s,
                    None => FloatSizeInBits::Bits32,
                },
                content: with_description(content, v.long_description),
            },
            ArgumentBodyView::Boolean { content, .. } => ArgumentBodyView::Boolean {
                base_type,
                initial_value: initial,
                one_string_value: v.extra_a,
                zero_string_value: v.extra_b,
                content: with_description(content, v.long_description),
            },
            ArgumentBodyView::RelativeTime { .. } => ArgumentBodyView::RelativeTime {
                base_type,
                initial_value: initial,
                long_description: optional_text(v.long_description),
            },
            ArgumentBodyView::AbsoluteTime { .. } => ArgumentBodyView::AbsoluteTime {
                base_type,
                initial_value: initial,
                long_description: optional_text(v.long_description),
            },
            ArgumentBodyView::Array { dimensions, .. } => ArgumentBodyView::Array {
                array_type_ref: v.base_or_ref,
                initial_value: initial,
                long_description: optional_text(v.long_description),
                dimensions,
            },
            ArgumentBodyView::Aggregate { members, .. } => ArgumentBodyView::Aggregate {
                initial_value: initial,
                long_description: optional_text(v.long_description),
                members,
            },
        },
    }
}

/// Applies the form's texts to an argument type (see
/// [`applied_argument`]).
pub fn apply_argument_values(values: &ArgumentValues, value: &mut ArgumentType)
    ensures
        final(value)@ == applied_argument(values@, old(value)@),
{
    value.name = values.name.clone();
    value.short_description = optional(values.short_description.as_str());
    let base = optional(values.base_or_ref.as_str());
    let initial = optional(values.initial_value.as_str());
    let ld = optional(values.long_description.as_str());
    match &mut value.body {
        ArgumentBody::String {
            base_type,
            initial_value,
            restriction_pattern,
            character_width,
            content,
        } => {
            *base_type = base;
            *initial_value = initial;
            *restriction_pattern = optional(values.extra_a.as_str());
            *character_width = parse_label::<CharacterWidth>(values.extra_b.as_str());
            set_long_description(content, &values.long_description);
        },
        ArgumentBody::Enumerated { base_type, initial_value, content } => {
            *base_type = base;
            *initial_value = initial;
            set_long_description(content, &values.long_description);
        },
        ArgumentBody::Integer { base_type, initial_value, size_in_bits, signed, content } => {
            *base_type = base;
            *initial_value = parse_i64(&chars_of(values.initial_value.as_str()));
            *size_in_bits = match parse_u32(&chars_of(values.extra_a.as_str())) {
                Some(n) => n,
                None => 32,
            };
            *signed = match crate::text::parse_bool(&chars_of(values.extra_b.as_str())) {
                Some(b) => b,
                None => true,
            };
            set_long_description(content, &values.long_description);
        },
        ArgumentBody::Binary { base_type, initial_value, content } => {
            *base_type = base;
            *initial_value = initial;
            set_long_description(content, &values.long_description);
        },
        ArgumentBody::Float { base_type, initial_value, size_in_bits, content } => {
            *base_type = base;
            *initial_value = if is_float_chars(&chars_of(values.initial_value.as_str())) {
                Some(values.initial_value.clone())
            } else {
                None
            };
            *size_in_bits = match parse_label::<FloatSizeInBits>(values.extra_a.as_str()) {
                Some(s) => s,
                None => FloatSizeInBits::Bits32,
            };
            set_long_description(content, &values.long_description);
        },
        ArgumentBody::Boolean {
            base_type,
            initial_value,
            one_string_value,
            zero_string_value,
            content,
        } => {
            *base_type = base;
            *initial_value = initial;
            *one_string_value = values.extra_a.clone();
            *zero_string_value = values.extra_b.clone();
            set_long_description(content, &values.long_description);
        },
        ArgumentBody::RelativeTime { base_type, initial_value, long_description } => {
            *base_type = base;
            *initial_value = initial;
            *long_description = ld;
        },
        ArgumentBody::AbsoluteTime { base_type, initial_value, long_description } => {
            *base_type = base;
            *initial_value = initial;
            *long_description = ld;
        },
        ArgumentBody::Array { array_type_ref, initial_value, long_description, .. } => {
            *array_type_ref = values.base_or_ref.clone();
            *initial_value = initial;
            *long_description = ld;
        },
        ArgumentBody::Aggregate { initial_value, long_description, .. } => {
            *initial_value = initial;
            *long_description = ld;
        },
    }
}


// ---------------------------------------------------------------------
// Nested items: array dimensions and aggregate members, one per line
// ---------------------------------------------------------------------

/// How an index shows in the nested items: the number, `<dynamic>` or
/// `<lookup>`.
pub open spec fn index_text(i: ArgumentIndexView) -> Seq<char> {
    match i {
        ArgumentIndexView::FixedValue(n) => int_text(n as int),
        ArgumentIndexView::DynamicValue(_) => seq!['<', 'd', 'y', 'n', 'a', 'm', 'i', 'c', '>'],
        ArgumentIndexView::DiscreteLookupList(_) => seq!['<', 'l', 'o', 'o', 'k', 'u', 'p', '>'],
    }
}

/// The line of a dimension: `start | end`.
pub open spec fn dimension_line(d: DimensionView) -> Seq<char> {
    index_text(d.starting_index) + column_separator() + index_text(d.ending_index)
}

/// The line of a member: `name | type | initial value | description`.
pub open spec fn member_line(m: MemberView) -> Seq<char> {
    m.name + column_separator() + m.type_ref + column_separator() + text_or_empty(m.initial_value)
        + column_separator() + text_or_empty(m.short_description)
}

/// The nested items the form shows: an array's dimensions or an
/// aggregate's members, one per line; nothing for another kind.
pub open spec fn nested_items_text(t: Option<ArgumentTypeView>) -> Seq<char> {
    match t {
        Some(t) => match t.body {
            ArgumentBodyView::Array { dimensions, .. } => join(
                dimensions.map_values(|d: DimensionView| dimension_line(d)),
                seq!['\n'],
            ),
            ArgumentBodyView::Aggregate { members, .. } => join(
                members.map_values(|m: MemberView| member_line(m)),
                seq!['\n'],
            ),
            _ => Seq::empty(),
        },
        None => Seq::empty(),
    }
}

fn index_chars(i: &ArgumentIndex) -> (r: Vec<char>)
    ensures
        r@ == index_text(i@),
{
    let r = match i {
        ArgumentIndex::FixedValue(n) => crate::number::i64_text(*n),
        ArgumentIndex::DynamicValue(_) => vec!['<', 'd', 'y', 'n', 'a', 'm', 'i', 'c', '>'],
        ArgumentIndex::DiscreteLookupList(_) => vec!['<', 'l', 'o', 'o', 'k', 'u', 'p', '>'],
    };
    assert(r@ =~= index_text(i@));
    r
}

fn opt_chars(o: &Option<String>) -> (r: Vec<char>)
    ensures
        r@ == text_or_empty(opt_text(*o)),
{
    match o {
        Some(s) => chars_of(s.as_str()),
        None => Vec::new(),
    }
}

/// The nested items the form shows (see [`nested_items_text`]).
pub fn encode_nested_items(value: Option<&ArgumentType>) -> (r: String)
    ensures
        r@ == nested_items_text(
            match value {
                Some(t) => Some(t@),
                None => None,
            },
        ),
{
    let mut items: Vec<Vec<char>> = Vec::new();
    match value {
        Some(t) => match &t.body {
            ArgumentBody::Array { dimensions, .. } => {
                let mut i: usize = 0;
                while i < dimensions.len()
                    invariant
                        i <= dimensions@.len(),
                        items@.len() == i,
                        forall|k: int| 0 <= k < i ==> #[trigger] items@[k]@ == dimension_line(
                            dimensions@[k]@,
                        ),
                    decreases dimensions.len() - i,
                {
                    let mut line: Vec<char> = Vec::new();
                    push_columns(
                        &mut line,
                        &index_chars(&dimensions[i].starting_index),
                        &index_chars(&dimensions[i].ending_index),
                    );
                    assert(line@ =~= dimension_line(dimensions@[i as int]@));
                    items.push(line);
                    i = i + 1;
                }
                assert(items@.map_values(|x: Vec<char>| x@) =~= dimensions_view(
                    dimensions@,
                ).map_values(|d: DimensionView| dimension_line(d)));
            },
            ArgumentBody::Aggregate { members, .. } => {
                let mut i: usize = 0;
                while i < members.len()
                    invariant
                        i <= members@.len(),
                        items@.len() == i,
                        forall|k: int| 0 <= k < i ==> #[trigger] items@[k]@ == member_line(
                            members@[k]@,
                        ),
                    decreases members.len() - i,
                {
                    let m = &members[i];
                    let mut line: Vec<char> = Vec::new();
                    push_columns(&mut line, &chars_of(m.name.as_str()), &chars_of(m.type_ref.as_str()));
                    let mut rest: Vec<char> = Vec::new();
                    push_columns(&mut rest, &opt_chars(&m.initial_value), &opt_chars(&m.short_description));
                    let sep = vec![' ', '|', ' '];
                    crate::text::append_chars(&mut line, &sep);
                    crate::text::append_chars(&mut line, &rest);
                    assert(sep@ =~= column_separator());
                    assert(line@ =~= member_line(members@[i as int]@));
                    items.push(line);
                    i = i + 1;
                }
                assert(items@.map_values(|x: Vec<char>| x@) =~= members_view(
                    members@,
                ).map_values(|m: MemberView| member_line(m)));
            },
            _ => {
                let r = String::new();
                return r;
            },
        },
        None => {
            return String::new();
        },
    }
    join_lines(&items)
}

/// A member row of a line: the trimmed name and type (both required) and
/// the optional initial value and description, of at most four columns.
pub open spec fn member_row_of_line(line: Seq<char>) -> Option<
    (Seq<char>, Seq<char>, Option<Seq<char>>, Option<Seq<char>>),
> {
    let parts = splitn_seq(line, 4, column_separator());
    if parts.len() < 2 || trim(parts[0]).len() == 0 || trim(parts[1]).len() == 0 {
        None
    } else {
        Some(
            (
                trim(parts[0]),
                trim(parts[1]),
                if parts.len() > 2 {
                    optional_text(trim(parts[2]))
                } else {
                    None
                },
                if parts.len() > 3 {
                    optional_text(trim(parts[3]))
                } else {
                    None
                },
            ),
        )
    }
}

/// The dimension of a line: two columns that read as whole numbers.
pub open spec fn dimension_of_line(line: Seq<char>) -> Option<(i64, i64)> {
    let parts = splitn_seq(line, 2, column_separator());
    if parts.len() == 2 {
        match (parse_i64_spec(trim(parts[0])), parse_i64_spec(trim(parts[1]))) {
            (Some(a), Some(b)) => Some((a, b)),
            _ => None,
        }
    } else {
        None
    }
}

/// The dimensions a text gives.
pub open spec fn dimension_rows(text: Seq<char>) -> Seq<(i64, i64)> {
    filter_map(lines(text), |line: Seq<char>| dimension_of_line(line))
}

/// The member rows a text gives.
pub open spec fn member_rows(text: Seq<char>) -> Seq<
    (Seq<char>, Seq<char>, Option<Seq<char>>, Option<Seq<char>>),
> {
    filter_map(lines(text), |line: Seq<char>| member_row_of_line(line))
}

/// A fixed dimension.
pub open spec fn fixed_dimension(r: (i64, i64)) -> DimensionView {
    DimensionView {
        starting_index: ArgumentIndexView::FixedValue(r.0),
        ending_index: ArgumentIndexView::FixedValue(r.1),
    }
}

/// A member with the fields of a row.
pub open spec fn member_with_row(
    m: MemberView,
    r: (Seq<char>, Seq<char>, Option<Seq<char>>, Option<Seq<char>>),
) -> MemberView {
    MemberView {
        name: r.0,
        type_ref: r.1,
        initial_value: r.2,
        short_description: r.3,
        ..m
    }
}

/// The members after the rows are applied: one per row, each the member
/// at its place (a blank one past the end) with the row's fields.
pub open spec fn merged_members(
    old: Seq<MemberView>,
    rows: Seq<(Seq<char>, Seq<char>, Option<Seq<char>>, Option<Seq<char>>)>,
) -> Seq<MemberView> {
    Seq::new(
        rows.len(),
        |i: int|
            member_with_row(
                if i < old.len() {
                    old[i]
                } else {
                    blank_member()
                },
                rows[i],
            ),
    )
}

/// The argument type after the nested items are applied: when a line
/// reads as one, an array's dimensions become the fixed dimensions of the
/// lines, an aggregate's members the rows of the lines; otherwise nothing
/// changes.
pub open spec fn applied_nested(t: ArgumentTypeView, text: Seq<char>) -> ArgumentTypeView {
    match t.body {
        ArgumentBodyView::Array { array_type_ref, initial_value, long_description, .. } => {
            let rows = dimension_rows(text);
            if rows.len() == 0 {
                t
            } else {
                ArgumentTypeView {
                    body: ArgumentBodyView::Array {
                        array_type_ref,
                        initial_value,
                        long_description,
                        dimensions: rows.map_values(|r: (i64, i64)| fixed_dimension(r)),
                    },
                    ..t
                }
            }
        },
        ArgumentBodyView::Aggregate { initial_value, long_description, members } => {
            let rows = member_rows(text);
            if rows.len() == 0 {
                t
            } else {
                ArgumentTypeView {
                    body: ArgumentBodyView::Aggregate {
                        initial_value,
                        long_description,
                        members: merged_members(members, rows),
                    },
                    ..t
                }
            }
        },
        _ => t,
    }
}


/// The value of a member row.
pub open spec fn row_view(r: (String, String, Option<String>, Option<String>)) -> (
    Seq<char>,
    Seq<char>,
    Option<Seq<char>>,
    Option<Seq<char>>,
) {
    (r.0@, r.1@, opt_text(r.2), opt_text(r.3))
}

fn separator_chars() -> (r: Vec<char>)
    ensures
        r@ == column_separator(),
{
    let r = vec![' ', '|', ' '];
    assert(r@ =~= column_separator());
    r
}

/// The dimension of a line (see [`dimension_of_line`]).
fn dimension_of(line: &Vec<char>) -> (r: Option<(i64, i64)>)
    ensures
        r == dimension_of_line(line@),
{
    let parts = splitn_pattern(line, 2, &separator_chars());
    if parts.len() == 2 {
        assert(texts(parts@)[0] == parts@[0]@ && texts(parts@)[1] == parts@[1]@);
        let a = parse_i64(&trim_chars(&parts[0]));
        let b = parse_i64(&trim_chars(&parts[1]));
        match (a, b) {
            (Some(a), Some(b)) => Some((a, b)),
            _ => None,
        }
    } else {
        None
    }
}

/// The member row of a line (see [`member_row_of_line`]).
fn member_row_of(line: &Vec<char>) -> (r: Option<(String, String, Option<String>, Option<String>)>)
    ensures
        match r {
            Some(x) => member_row_of_line(line@) == Some(row_view(x)),
            None => member_row_of_line(line@) is None,
        },
{
    let parts = splitn_pattern(line, 4, &separator_chars());
    let ghost ps = texts(parts@);
    assert(forall|k: int| 0 <= k < parts@.len() ==> #[trigger] ps[k] == parts@[k]@);
    if parts.len() < 2 {
        return None;
    }
    let name = trim_chars(&parts[0]);
    let type_ref = trim_chars(&parts[1]);
    if name.len() == 0 || type_ref.len() == 0 {
        return None;
    }
    let initial = if parts.len() > 2 {
        optional(string_of(&trim_chars(&parts[2])).as_str())
    } else {
        None
    };
    let description = if parts.len() > 3 {
        optional(string_of(&trim_chars(&parts[3])).as_str())
    } else {
        None
    };
    Some((string_of(&name), string_of(&type_ref), initial, description))
}

/// Applies the nested items to an argument type (see [`applied_nested`]).
pub fn apply_nested_items(value: &mut ArgumentType, input: &str)
    ensures
        final(value)@ == applied_nested(old(value)@, input@),
{
    let ls = lines_of(&chars_of(input));
    let ghost all = lines(input@);
    match &mut value.body {
        ArgumentBody::Array { dimensions, .. } => {
            let ghost f = |line: Seq<char>| dimension_of_line(line);
            let mut rows: Vec<(i64, i64)> = Vec::new();
            let mut i: usize = 0;
            while i < ls.len()
                invariant
                    i <= ls@.len(),
                    all == lines(input@),
                    ls@.len() == all.len(),
                    f == (|line: Seq<char>| dimension_of_line(line)),
                    forall|k: int| 0 <= k < ls@.len() ==> #[trigger] ls@[k]@ == all[k],
                    rows@ == filter_map(all.take(i as int), f),
                decreases ls.len() - i,
            {
                proof {
                    assert(all.take(i + 1).drop_last() =~= all.take(i as int));
                    assert(all.take(i + 1).last() == ls@[i as int]@);
                }
                if let Some(r) = dimension_of(&ls[i]) {
                    rows.push(r);
                }
                i = i + 1;
            }
            assert(all.take(ls.len() as int) =~= all);
            if rows.len() > 0 {
                let mut dims: Vec<ArgumentDimension> = Vec::new();
                let mut k: usize = 0;
                while k < rows.len()
                    invariant
                        k <= rows@.len(),
                        dims@.len() == k,
                        forall|j: int| 0 <= j < k ==> #[trigger] dims@[j]@ == fixed_dimension(rows@[j]),
                    decreases rows.len() - k,
                {
                    let (a, b) = rows[k];
                    dims.push(
                        ArgumentDimension {
                            starting_index: ArgumentIndex::FixedValue(a),
                            ending_index: ArgumentIndex::FixedValue(b),
                        },
                    );
                    k = k + 1;
                }
                assert(dimensions_view(dims@) =~= rows@.map_values(|r: (i64, i64)| fixed_dimension(r)));
                *dimensions = dims;
            }
        },
        ArgumentBody::Aggregate { members, .. } => {
            let ghost f = |line: Seq<char>| member_row_of_line(line);
            let mut rows: Vec<(String, String, Option<String>, Option<String>)> = Vec::new();
            let mut i: usize = 0;
            while i < ls.len()
                invariant
                    i <= ls@.len(),
                    all == lines(input@),
                    ls@.len() == all.len(),
                    f == (|line: Seq<char>| member_row_of_line(line)),
                    forall|k: int| 0 <= k < ls@.len() ==> #[trigger] ls@[k]@ == all[k],
                    rows@.map_values(|r: (String, String, Option<String>, Option<String>)| row_view(r))
                        == filter_map(all.take(i as int), f),
                decreases ls.len() - i,
            {
                let ghost before = rows@;
                proof {
                    assert(all.take(i + 1).drop_last() =~= all.take(i as int));
                    assert(all.take(i + 1).last() == ls@[i as int]@);
                }
                if let Some(r) = member_row_of(&ls[i]) {
                    rows.push(r);
                    assert(rows@.map_values(
                        |r: (String, String, Option<String>, Option<String>)| row_view(r),
                    ) =~= before.map_values(
                        |r: (String, String, Option<String>, Option<String>)| row_view(r),
                    ).push(row_view(r)));
                }
                i = i + 1;
            }
            assert(all.take(ls.len() as int) =~= all);
            let ghost rv = rows@.map_values(
                |r: (String, String, Option<String>, Option<String>)| row_view(r),
            );
            if rows.len() > 0 {
                let ghost old_members = members_view(members@);
                let mut existing: Vec<Member> = Vec::new();
                std::mem::swap(&mut existing, members);
                let n = rows.len();
                let mut out: Vec<Member> = Vec::new();
                let mut k: usize = 0;
                while k < n
                    invariant
                        n == rv.len(),
                        k <= n,
                        out@.len() == k,
                        rows@.len() == n - k,
                        forall|j: int| 0 <= j < rows@.len() ==> #[trigger] row_view(rows@[j]) == rv[k + j],
                        existing@.len() == if k <= old_members.len() {
                            old_members.len() - k
                        } else {
                            0
                        },
                        forall|j: int| 0 <= j < existing@.len() ==> #[trigger] existing@[j]@ == old_members[k + j],
                        forall|j: int| 0 <= j < k ==> #[trigger] out@[j]@ == merged_members(old_members, rv)[j],
                    decreases n - k,
                {
                    let ghost rows_before = rows@;
                    let ghost existing_before = existing@;
                    let row = rows.remove(0);
                    assert(row_view(row) == row_view(rows_before[0]));
                    let mut m = if existing.len() > 0 {
                        existing.remove(0)
                    } else {
                        default_member()
                    };
                    let ghost base = m@;
                    assert(base == (if (k as int) < old_members.len() {
                        old_members[k as int]
                    } else {
                        blank_member()
                    })) by {
                        if existing_before.len() > 0 {
                            assert(existing_before[0]@ == old_members[k as int]);
                        }
                    }
                    let (name, type_ref, initial, description) = row;
                    m.name = name;
                    m.type_ref = type_ref;
                    m.initial_value = initial;
                    m.short_description = description;
                    out.push(m);
                    proof {
                        assert forall|j: int| 0 <= j < rows@.len() implies #[trigger] row_view(rows@[j]) == rv[k + 1 + j] by {
                            assert(rows@[j] == rows_before[j + 1]);
                        }
                        assert forall|j: int| 0 <= j < existing@.len() implies #[trigger] existing@[j]@ == old_members[k + 1 + j] by {
                            assert(existing@[j] == existing_before[j + 1]);
                        }
                    }
                    k = k + 1;
                }
                assert(members_view(out@) =~= merged_members(old_members, rv));
                *members = out;
            }
        },
        _ => {},
    }
}


// ---------------------------------------------------------------------
// The data encoding of an argument type
// ---------------------------------------------------------------------

/// The items of an argument type that holds a list of them.
pub open spec fn body_items(b: ArgumentBodyView) -> Option<Seq<TypeItemView<ArgumentItemView>>> {
    match b {
        ArgumentBodyView::String { content, .. } => Some(content),
        ArgumentBodyView::Enumerated { content, .. } => Some(content),
        ArgumentBodyView::Integer { content, .. } => Some(content),
        ArgumentBodyView::Binary { content, .. } => Some(content),
        ArgumentBodyView::Float { content, .. } => Some(content),
        ArgumentBodyView::Boolean { content, .. } => Some(content),
        _ => None,
    }
}

/// The items of an argument type, when it holds a list of them.
pub fn argument_items(t: &ArgumentType) -> (r: Option<&Vec<TypeItem<ArgumentItem>>>)
    ensures
        match r {
            Some(c) => body_items(t@.body) == Some(items_view(c@)),
            None => body_items(t@.body) is None,
        },
{
    match &t.body {
        ArgumentBody::String { content, .. } => Some(content),
        ArgumentBody::Enumerated { content, .. } => Some(content),
        ArgumentBody::Integer { content, .. } => Some(content),
        ArgumentBody::Binary { content, .. } => Some(content),
        ArgumentBody::Float { content, .. } => Some(content),
        ArgumentBody::Boolean { content, .. } => Some(content),
        _ => None,
    }
}

/// The data encoding of an argument type: the first encoding of its
/// items; none for a type without items.
pub fn find_argument_data_encoding(t: &ArgumentType) -> (r: Option<&crate::encoding::DataEncoding>)
    ensures
        crate::encoding::opt_encoding(r) == match body_items(t@.body) {
            Some(c) => crate::encoding::first_encoding(c),
            None => None,
        },
{
    match argument_items(t) {
        Some(c) => crate::encoding::find_data_encoding(c),
        None => None,
    }
}

/// The argument type after the kind of its encoding is chosen (see
/// [`with_encoding_kind`](crate::encoding::with_encoding_kind)); a type
/// without items does not change.
pub open spec fn with_argument_encoding_kind(
    t: ArgumentTypeView,
    kind: Option<crate::encoding::DataEncodingKind>,
) -> ArgumentTypeView {
    let e = |c: Seq<TypeItemView<ArgumentItemView>>| crate::encoding::with_encoding_kind(c, kind, true);
    ArgumentTypeView {
        body: match t.body {
            ArgumentBodyView::String {
                base_type,
                initial_value,
                restriction_pattern,
                character_width,
                content,
            } => ArgumentBodyView::String {
                base_type,
                initial_value,
                restriction_pattern,
                character_width,
                content: e(content),
            },
            ArgumentBodyView::Enumerated { base_type, initial_value, content } =>
                ArgumentBodyView::Enumerated { base_type, initial_value, content: e(content) },
            ArgumentBodyView::Integer { base_type, initial_value, size_in_bits, signed, content } =>
                ArgumentBodyView::Integer {
                base_type,
                initial_value,
                size_in_bits,
                signed,
                content: e(content),
            },
            ArgumentBodyView::Binary { base_type, initial_value, content } =>
                ArgumentBodyView::Binary { base_type, initial_value, content: e(content) },
            ArgumentBodyView::Float { base_type, initial_value, size_in_bits, content } =>
                ArgumentBodyView::Float { base_type, initial_value, size_in_bits, content: e(content) },
            ArgumentBodyView::Boolean {
                base_type,
                initial_value,
                one_string_value,
                zero_string_value,
                content,
            } => ArgumentBodyView::Boolean {
                base_type,
                initial_value,
                one_string_value,
                zero_string_value,
                content: e(content),
            },
            other => other,
        },
        ..t
    }
}

/// Chooses the kind of an argument type's encoding (see
/// [`with_argument_encoding_kind`]).
pub fn set_argument_type_encoding_kind(
    t: &mut ArgumentType,
    kind: Option<crate::encoding::DataEncodingKind>,
)
    ensures
        final(t)@ == with_argument_encoding_kind(old(t)@, kind),
{
    match &mut t.body {
        ArgumentBody::String { content, .. } => crate::encoding::set_argument_data_encoding_kind(content, kind),
        ArgumentBody::Enumerated { content, .. } => crate::encoding::set_argument_data_encoding_kind(content, kind),
        ArgumentBody::Integer { content, .. } => crate::encoding::set_argument_data_encoding_kind(content, kind),
        ArgumentBody::Binary { content, .. } => crate::encoding::set_argument_data_encoding_kind(content, kind),
        ArgumentBody::Float { content, .. } => crate::encoding::set_argument_data_encoding_kind(content, kind),
        ArgumentBody::Boolean { content, .. } => crate::encoding::set_argument_data_encoding_kind(content, kind),
        _ => {},
    }
}


// ---------------------------------------------------------------------
// Laws
// ---------------------------------------------------------------------

/// After its kind is chosen, an argument type is of that kind.
pub proof fn lemma_chosen_argument_kind(t: ArgumentTypeView, kind: ArgumentKind)
    ensures
        kind_of(with_kind(t, kind).body) == kind,
{
}

/// Whether the items' first long description, if any, is not empty.
pub open spec fn clean_description(c: Seq<TypeItemView<ArgumentItemView>>) -> bool {
    match first_some(c, description_reader()) {
        Some(d) => d.len() > 0,
        None => true,
    }
}

/// Setting the items' long description to the one they show changes
/// nothing, when that one is not empty.
proof fn lemma_description_round_trip(c: Seq<TypeItemView<ArgumentItemView>>)
    requires
        clean_description(c),
    ensures
        with_description(c, items_description(c)) == c,
{
    let f = description_reader();
    crate::text::lemma_first_some_index(c, f);
    match first_some(c, f) {
        Some(d) => {
            let i = choose|i: int|
                0 <= i < c.len() && f(c[i]) == Some(d) && forall|j: int|
                    0 <= j < i ==> (#[trigger] f(c[j])) is None;
            assert forall|j: int| 0 <= j < i implies (#[trigger] description_of(c[j])) is None by {
                assert(f(c[j]) is None);
            }
            assert(is_first_description(c, i));
            let k = choose|k: int| is_first_description(c, k);
            if k < i {
                assert(f(c[k]) is None);
            } else if k > i {
                assert(description_of(c[i]) is None);
            }
            assert(c[i] == TypeItemView::<ArgumentItemView>::Leading(ArgumentItemView::LongDescription(d)));
            assert(c.update(i, c[i]) =~= c);
        },
        None => {
            let g = |x: TypeItemView<ArgumentItemView>| keep_non_description(x);
            assert forall|j: int| 0 <= j < c.len() implies g(#[trigger] c[j]) == Some(c[j]) by {
                assert(f(c[j]) is None);
            }
            crate::text::lemma_filter_map_all(c, g, c);
        },
    }
}

/// A choice never has the empty text as its label.
proof fn lemma_no_empty_label<T: Choice>()
    ensures
        choice_named::<T>(Seq::empty()) is None,
{
    T::lemma_choice();
    if exists|c: T| T::label_of(c) == Seq::<char>::empty() {
        let c = choose|c: T| T::label_of(c) == Seq::<char>::empty();
        assert(T::label_of(c).len() > 0);
    }
}

/// Whether the argument type form shows an argument type as it is and
/// gives it back unchanged: its optional texts are non-empty and trimmed,
/// its first long description (if any) is not empty, and a floating point
/// initial value reads as a number.
pub open spec fn clean_argument(t: ArgumentTypeView) -> bool {
    let c = crate::fields::clean_optional(t.short_description);
    match t.body {
        ArgumentBodyView::String { base_type, initial_value, restriction_pattern, content, .. } =>
            c && crate::fields::clean_optional(base_type) && crate::fields::clean_optional(initial_value)
            && crate::fields::clean_optional(restriction_pattern) && clean_description(content),
        ArgumentBodyView::Enumerated { base_type, initial_value, content } =>
            c && crate::fields::clean_optional(base_type) && crate::fields::clean_optional(initial_value)
            && clean_description(content),
        ArgumentBodyView::Integer { base_type, content, .. } =>
            c && crate::fields::clean_optional(base_type) && clean_description(content),
        ArgumentBodyView::Binary { base_type, initial_value, content } =>
            c && crate::fields::clean_optional(base_type) && crate::fields::clean_optional(initial_value)
            && clean_description(content),
        ArgumentBodyView::Float { base_type, initial_value, content, .. } =>
            c && crate::fields::clean_optional(base_type) && match initial_value {
                Some(v) => is_float_text(v),
                None => true,
            } && clean_description(content),
        ArgumentBodyView::Boolean { base_type, initial_value, content, .. } =>
            c && crate::fields::clean_optional(base_type) && crate::fields::clean_optional(initial_value)
            && clean_description(content),
        ArgumentBodyView::RelativeTime { base_type, initial_value, long_description } =>
            c && crate::fields::clean_optional(base_type) && crate::fields::clean_optional(initial_value)
            && crate::fields::clean_optional(long_description),
        ArgumentBodyView::AbsoluteTime { base_type, initial_value, long_description } =>
            c && crate::fields::clean_optional(base_type) && crate::fields::clean_optional(initial_value)
            && crate::fields::clean_optional(long_description),
        ArgumentBodyView::Array { initial_value, long_description, .. } =>
            c && crate::fields::clean_optional(initial_value) && crate::fields::clean_optional(long_description),
        ArgumentBodyView::Aggregate { initial_value, long_description, .. } =>
            c && crate::fields::clean_optional(initial_value) && crate::fields::clean_optional(long_description),
    }
}

/// What the argument type form shows for an argument type gives it back
/// unchanged, when it is clean (see [`clean_argument`]).
pub proof fn lemma_argument_round_trip(t: ArgumentTypeView)
    requires
        clean_argument(t),
    ensures
        applied_argument(argument_values_of(Some(t)), t) == t,
{
    crate::fields::lemma_optional_back(t.short_description);
    match t.body {
        ArgumentBodyView::String {
            base_type,
            initial_value,
            restriction_pattern,
            character_width,
            content,
        } => {
            crate::fields::lemma_optional_back(base_type);
            crate::fields::lemma_optional_back(initial_value);
            crate::fields::lemma_optional_back(restriction_pattern);
            lemma_description_round_trip(content);
            match character_width {
                Some(w) => crate::choice::lemma_label_round_trip(w),
                None => {
                    lemma_no_empty_label::<CharacterWidth>();
                    crate::text::lemma_trim_trimmed(Seq::<char>::empty());
                },
            }
        },
        ArgumentBodyView::Enumerated { base_type, initial_value, content } => {
            crate::fields::lemma_optional_back(base_type);
            crate::fields::lemma_optional_back(initial_value);
            lemma_description_round_trip(content);
        },
        ArgumentBodyView::Integer { base_type, initial_value, size_in_bits, signed, content } => {
            crate::fields::lemma_optional_back(base_type);
            lemma_description_round_trip(content);
            crate::number::lemma_u32_round_trip(size_in_bits);
            crate::text::lemma_bool_text(signed);
            match initial_value {
                Some(v) => crate::number::lemma_i64_round_trip(v),
                None => {},
            }
        },
        ArgumentBodyView::Binary { base_type, initial_value, content } => {
            crate::fields::lemma_optional_back(base_type);
            crate::fields::lemma_optional_back(initial_value);
            lemma_description_round_trip(content);
        },
        ArgumentBodyView::Float { base_type, initial_value, size_in_bits, content } => {
            crate::fields::lemma_optional_back(base_type);
            lemma_description_round_trip(content);
            crate::choice::lemma_label_round_trip(size_in_bits);
            match initial_value {
                Some(v) => {},
                None => {
                    assert(!is_float_text(Seq::<char>::empty())) by {
                        crate::number::lemma_empty_not_float();
                    }
                },
            }
        },
        ArgumentBodyView::Boolean { base_type, initial_value, content, .. } => {
            crate::fields::lemma_optional_back(base_type);
            crate::fields::lemma_optional_back(initial_value);
            lemma_description_round_trip(content);
        },
        ArgumentBodyView::RelativeTime { base_type, initial_value, long_description } => {
            crate::fields::lemma_optional_back(base_type);
            crate::fields::lemma_optional_back(initial_value);
            crate::fields::lemma_optional_back(long_description);
        },
        ArgumentBodyView::AbsoluteTime { base_type, initial_value, long_description } => {
            crate::fields::lemma_optional_back(base_type);
            crate::fields::lemma_optional_back(initial_value);
            crate::fields::lemma_optional_back(long_description);
        },
        ArgumentBodyView::Array { initial_value, long_description, .. } => {
            crate::fields::lemma_optional_back(initial_value);
            crate::fields::lemma_optional_back(long_description);
        },
        ArgumentBodyView::Aggregate { initial_value, long_description, .. } => {
            crate::fields::lemma_optional_back(initial_value);
            crate::fields::lemma_optional_back(long_description);
        },
    }
}

/// The field the form shows for a type's base: an array's type reference
/// (required), nothing for an aggregate, else the optional base type; as
/// a label and a hint.
pub open spec fn base_field_of(k: ArgumentKind) -> Option<(Seq<char>, Seq<char>)> {
    match k {
        ArgumentKind::Array => Some(("Array type reference"@, "Required"@)),
        ArgumentKind::Aggregate => None,
        _ => Some(("Base type"@, "Optional; used only for type inheritance"@)),
    }
}

impl ArgumentKind {
    /// The field the form shows for a type's base (see [`base_field_of`]).
    pub fn base_field(self) -> (r: Option<(String, String)>)
        ensures
            match r {
                Some((label, hint)) => Some((label@, hint@)),
                None => None,
            } == base_field_of(self),
    {
        match self {
            ArgumentKind::Array => Some(("Array type reference".to_owned(), "Required".to_owned())),
            ArgumentKind::Aggregate => None,
            _ => Some(("Base type".to_owned(), "Optional; used only for type inheritance".to_owned())),
        }
    }
}

/// The enumeration list of an item, if it is one.
pub open spec fn enumeration_list_reader() -> spec_fn(TypeItemView<ArgumentItemView>) -> Option<
    Seq<crate::enumeration::EnumerationView>,
> {
    |x: TypeItemView<ArgumentItemView>| match x {
        TypeItemView::Other(ArgumentItemView::EnumerationList(l)) => Some(l),
        _ => None,
    }
}

/// The rows the enumeration editor shows for an argument type: a row for
/// each enumeration of the first enumeration list of an enumerated type
/// (see [`row_of`](crate::enumeration::row_of)); none for another type,
/// or for none.
pub open spec fn argument_enumeration_rows_of(t: Option<ArgumentTypeView>) -> Seq<
    crate::enumeration::RowView,
> {
    match t {
        Some(ArgumentTypeView { body: ArgumentBodyView::Enumerated { content, .. }, .. }) => match first_some(
            content,
            enumeration_list_reader(),
        ) {
            Some(l) => crate::enumeration::entry_rows(l),
            None => Seq::empty(),
        },
        _ => Seq::empty(),
    }
}

/// The rows the enumeration editor shows for an argument type (see
/// [`argument_enumeration_rows_of`]).
pub fn rows_from_argument_type(t: Option<&ArgumentType>) -> (r: Vec<
    crate::enumeration::EnumerationRowData,
>)
    ensures
        crate::enumeration::rows_view(r@) == argument_enumeration_rows_of(
            match t {
                Some(t) => Some(t@),
                None => None,
            },
        ),
{
    let none: Vec<crate::enumeration::EnumerationRowData> = Vec::new();
    assert(crate::enumeration::rows_view(none@) =~= Seq::<crate::enumeration::RowView>::empty());
    let ty = match t {
        Some(ty) => ty,
        None => return none,
    };
    let content = match &ty.body {
        ArgumentBody::Enumerated { content, .. } => content,
        _ => return none,
    };
    let ghost cs = items_view(content@);
    let mut i: usize = 0;
    while i < content.len()
        invariant
            cs == items_view(content@),
            t == Some(ty),
            ty@.body is Enumerated && ty@.body->Enumerated_content == cs,
            i <= content@.len(),
            forall|j: int| 0 <= j < i ==> (#[trigger] enumeration_list_reader()(cs[j])) is None,
        decreases content.len() - i,
    {
        assert(cs[i as int] == content@[i as int]@);
        match &content[i] {
            TypeItem::Other(ArgumentItem::EnumerationList(l)) => {
                proof {
                    lemma_first_of_prefix(cs, enumeration_list_reader(), i as int);
                    assert(enumeration_list_reader()(cs[i as int]) == Some(
                        crate::enumeration::enumerations_view(l@),
                    ));
                    assert(first_some(cs, enumeration_list_reader()) == Some(
                        crate::enumeration::enumerations_view(l@),
                    ));
                }
                return crate::enumeration::enumeration_rows(l);
            },
            _ => {},
        }
        i = i + 1;
    }
    proof {
        lemma_first_of_prefix(cs, enumeration_list_reader(), cs.len() as int);
    }
    none
}

/// Whether item `i` is the first enumeration list of a content.
pub open spec fn first_list_at(content: Seq<TypeItemView<ArgumentItemView>>, i: int) -> bool {
    &&& 0 <= i < content.len()
    &&& enumeration_list_reader()(content[i]) is Some
    &&& forall|j: int| 0 <= j < i ==> (#[trigger] enumeration_list_reader()(content[j])) is None
}

/// A content with its first enumeration list replaced by `list`, or with
/// `list` added at the end when it has none.
pub open spec fn with_enumeration_list(
    content: Seq<TypeItemView<ArgumentItemView>>,
    list: Seq<crate::enumeration::EnumerationView>,
) -> Seq<TypeItemView<ArgumentItemView>> {
    let item = TypeItemView::Other(ArgumentItemView::EnumerationList(list));
    if exists|i: int| first_list_at(content, i) {
        content.update(choose|i: int| first_list_at(content, i), item)
    } else {
        content.push(item)
    }
}

/// An argument type after the enumeration editor's rows are applied: an
/// enumerated type gets the list the rows give (see
/// [`list_of_rows`](crate::enumeration::list_of_rows)) in place of its
/// first enumeration list, or added at the end; another type stays.
pub open spec fn applied_enumeration(
    t: ArgumentTypeView,
    rows: Seq<crate::enumeration::RowView>,
) -> ArgumentTypeView {
    match t.body {
        ArgumentBodyView::Enumerated { base_type, initial_value, content } => ArgumentTypeView {
            body: ArgumentBodyView::Enumerated {
                base_type,
                initial_value,
                content: with_enumeration_list(content, crate::enumeration::list_of_rows(rows)),
            },
            ..t
        },
        _ => t,
    }
}

/// The position of the first enumeration list of a content.
fn first_list_index(content: &Vec<TypeItem<ArgumentItem>>) -> (r: Option<usize>)
    ensures
        match r {
            Some(i) => first_list_at(items_view(content@), i as int),
            None => !(exists|i: int| first_list_at(items_view(content@), i)),
        },
{
    let ghost cs = items_view(content@);
    let mut i: usize = 0;
    while i < content.len()
        invariant
            cs == items_view(content@),
            i <= content@.len(),
            forall|j: int| 0 <= j < i ==> (#[trigger] enumeration_list_reader()(cs[j])) is None,
        decreases content.len() - i,
    {
        assert(cs[i as int] == content@[i as int]@);
        let found = match &content[i] {
            TypeItem::Other(ArgumentItem::EnumerationList(_)) => true,
            _ => false,
        };
        if found {
            return Some(i);
        }
        i = i + 1;
    }
    assert forall|k: int| !first_list_at(cs, k) by {
        if 0 <= k < cs.len() {
            assert(enumeration_list_reader()(cs[k]) is None);
        }
    }
    None
}

/// Applies the enumeration editor's rows to an argument type (see
/// [`applied_enumeration`]).
pub fn apply_enumeration_rows(rows: &Vec<crate::enumeration::EnumerationRowData>, t: &mut ArgumentType)
    ensures
        final(t)@ == applied_enumeration(old(t)@, crate::enumeration::rows_view(rows@)),
{
    match &mut t.body {
        ArgumentBody::Enumerated { content, .. } => {
            let list = crate::enumeration::list_from_rows(rows);
            let ghost lv = crate::enumeration::enumerations_view(list@);
            let ghost before = items_view(content@);
            let item = TypeItem::Other(ArgumentItem::EnumerationList(list));
            match first_list_index(content) {
                Some(i) => {
                    content.set(i, item);
                    proof {
                        let c = choose|k: int| first_list_at(before, k);
                        assert(first_list_at(before, c));
                        if c < i {
                            assert(enumeration_list_reader()(before[c]) is None);
                        } else if c > i {
                            assert(enumeration_list_reader()(before[i as int]) is None);
                        }
                        assert(items_view(content@) =~= before.update(
                            i as int,
                            TypeItemView::Other(ArgumentItemView::EnumerationList(lv)),
                        ));
                    }
                },
                None => {
                    content.push(item);
                    assert(items_view(content@) =~= before.push(
                        TypeItemView::Other(ArgumentItemView::EnumerationList(lv)),
                    ));
                },
            }
        },
        _ => {},
    }
}

/// Applying the enumeration editor to the rows it shows for an argument
/// type gives the type back, when the type is enumerated and its first
/// enumeration list is non-empty with clean enumerations (see
/// [`clean_enumeration`](crate::enumeration::clean_enumeration)).
pub proof fn lemma_argument_enumeration_round_trip(t: ArgumentTypeView)
    requires
        t.body is Enumerated,
        first_some(t.body->Enumerated_content, enumeration_list_reader()) matches Some(l) && l.len()
            > 0 && forall|i: int|
            0 <= i < l.len() ==> crate::enumeration::clean_enumeration(#[trigger] l[i]),
    ensures
        applied_enumeration(t, argument_enumeration_rows_of(Some(t))) == t,
{
    let content = t.body->Enumerated_content;
    let l = first_some(content, enumeration_list_reader())->Some_0;
    crate::enumeration::lemma_list_round_trip(l);
    assert(crate::enumeration::entry_rows(l) == crate::enumeration::rows_of(l));
    crate::text::lemma_first_some_index(content, enumeration_list_reader());
    let i = choose|i: int|
        0 <= i < content.len() && enumeration_list_reader()(content[i]) == Some(l) && forall|j: int|
            0 <= j < i ==> (#[trigger] enumeration_list_reader()(content[j])) is None;
    assert(first_list_at(content, i));
    let c = choose|k: int| first_list_at(content, k);
    assert(first_list_at(content, c));
    if c < i {
        assert(enumeration_list_reader()(content[c]) is None);
    } else if c > i {
        assert(enumeration_list_reader()(content[i]) is None);
    }
    assert(content[i] == TypeItemView::<ArgumentItemView>::Other(ArgumentItemView::EnumerationList(l)));
    assert(with_enumeration_list(content, l) =~= content);
}

/// Choosing the kind an argument type already has leaves the type exactly
/// as it was (its name, sizes and content are kept); choosing another
/// kind gives a new type of that kind.
pub proof fn lemma_same_kind_keeps_type(t: ArgumentTypeView, kind: ArgumentKind)
    ensures
        kind_of(t.body) == kind ==> with_kind(t, kind) == t,
        kind_of(t.body) != kind ==> with_kind(t, kind) == new_argument_type(kind),
        kind_of(with_kind(t, kind).body) == kind,
{
}

} // verus!

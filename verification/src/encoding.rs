//! Data encodings: the choices the data encoding form offers, their labels,
//! reading them back, and the values the form shows for an encoding.
use vstd::prelude::*;
use crate::algorithm::{InputAlgorithm, InputAlgorithmView, opt_text};
use crate::calibrator::{Calibrator, CalibratorView};
use crate::choice::{Choice, choice_named, label, lemma_label_round_trip, parse_label};
use crate::errors::{ErrorCheck, ErrorCheckView};
use crate::number::{
    int_text, is_float_chars, is_float_text, lemma_u64_round_trip, parse_u64, parse_u64_spec, u64_text,
};
use crate::text::{
    chars_of, filter_map, first_some, is_space, is_trimmed, lemma_filter_map_all, lemma_filter_map_concat,
    lemma_filter_map_single, lemma_first_of_prefix, string_of, trim,
};

verus! {

/// The data encoding a type uses, or none.
#[derive(Clone, Copy, Debug, PartialEq, Eq, Structural)]
pub enum DataEncodingChoice {
    NoEncoding,
    Binary,
    Float,
    Integer,
    String,
}

impl Choice for DataEncodingChoice {
    open spec fn label_of(c: DataEncodingChoice) -> Seq<char> {
        match c {
            DataEncodingChoice::NoEncoding => seq!['N', 'o', 'n', 'e'],
            DataEncodingChoice::Binary => seq!['B', 'i', 'n', 'a', 'r', 'y', 'D', 'a', 't', 'a', 'E', 'n', 'c', 'o', 'd', 'i', 'n', 'g'],
            DataEncodingChoice::Float => seq!['F', 'l', 'o', 'a', 't', 'D', 'a', 't', 'a', 'E', 'n', 'c', 'o', 'd', 'i', 'n', 'g'],
            DataEncodingChoice::Integer => seq!['I', 'n', 't', 'e', 'g', 'e', 'r', 'D', 'a', 't', 'a', 'E', 'n', 'c', 'o', 'd', 'i', 'n', 'g'],
            DataEncodingChoice::String => seq!['S', 't', 'r', 'i', 'n', 'g', 'D', 'a', 't', 'a', 'E', 'n', 'c', 'o', 'd', 'i', 'n', 'g'],
        }
    }

    open spec fn variants() -> Seq<DataEncodingChoice> {
        seq![DataEncodingChoice::NoEncoding, DataEncodingChoice::Binary, DataEncodingChoice::Float, DataEncodingChoice::Integer, DataEncodingChoice::String]
    }

    fn variant_list() -> (r: Vec<DataEncodingChoice>) {
        let r = vec![DataEncodingChoice::NoEncoding, DataEncodingChoice::Binary, DataEncodingChoice::Float, DataEncodingChoice::Integer, DataEncodingChoice::String];
        assert(r@ =~= Self::variants());
        r
    }

    fn label_chars(self) -> (r: Vec<char>) {
        let r = match self {
            DataEncodingChoice::NoEncoding => vec!['N', 'o', 'n', 'e'],
            DataEncodingChoice::Binary => vec!['B', 'i', 'n', 'a', 'r', 'y', 'D', 'a', 't', 'a', 'E', 'n', 'c', 'o', 'd', 'i', 'n', 'g'],
            DataEncodingChoice::Float => vec!['F', 'l', 'o', 'a', 't', 'D', 'a', 't', 'a', 'E', 'n', 'c', 'o', 'd', 'i', 'n', 'g'],
            DataEncodingChoice::Integer => vec!['I', 'n', 't', 'e', 'g', 'e', 'r', 'D', 'a', 't', 'a', 'E', 'n', 'c', 'o', 'd', 'i', 'n', 'g'],
            DataEncodingChoice::String => vec!['S', 't', 'r', 'i', 'n', 'g', 'D', 'a', 't', 'a', 'E', 'n', 'c', 'o', 'd', 'i', 'n', 'g'],
        };
        assert(r@ =~= Self::label_of(self));
        r
    }

    proof fn lemma_choice() {
        assert forall|c: DataEncodingChoice| Self::variants().contains(c) by {
            match c {
                DataEncodingChoice::NoEncoding => { assert(Self::variants()[0] == c); },
                DataEncodingChoice::Binary => { assert(Self::variants()[1] == c); },
                DataEncodingChoice::Float => { assert(Self::variants()[2] == c); },
                DataEncodingChoice::Integer => { assert(Self::variants()[3] == c); },
                DataEncodingChoice::String => { assert(Self::variants()[4] == c); },
            }
        }
        assert forall|a: DataEncodingChoice, b: DataEncodingChoice| Self::label_of(a) == Self::label_of(b) implies a == b by {
            match (a, b) {
                (DataEncodingChoice::NoEncoding, DataEncodingChoice::Binary) => { assert(Self::label_of(a).len() != Self::label_of(b).len()); },
                (DataEncodingChoice::NoEncoding, DataEncodingChoice::Float) => { assert(Self::label_of(a).len() != Self::label_of(b).len()); },
                (DataEncodingChoice::NoEncoding, DataEncodingChoice::Integer) => { assert(Self::label_of(a).len() != Self::label_of(b).len()); },
                (DataEncodingChoice::NoEncoding, DataEncodingChoice::String) => { assert(Self::label_of(a).len() != Self::label_of(b).len()); },
                (DataEncodingChoice::Binary, DataEncodingChoice::NoEncoding) => { assert(Self::label_of(a).len() != Self::label_of(b).len()); },
                (DataEncodingChoice::Binary, DataEncodingChoice::Float) => { assert(Self::label_of(a).len() != Self::label_of(b).len()); },
                (DataEncodingChoice::Binary, DataEncodingChoice::Integer) => { assert(Self::label_of(a).len() != Self::label_of(b).len()); },
                (DataEncodingChoice::Binary, DataEncodingChoice::String) => { assert(Self::label_of(a)[0] != Self::label_of(b)[0]); },
                (DataEncodingChoice::Float, DataEncodingChoice::NoEncoding) => { assert(Self::label_of(a).len() != Self::label_of(b).len()); },
                (DataEncodingChoice::Float, DataEncodingChoice::Binary) => { assert(Self::label_of(a).len() != Self::label_of(b).len()); },
                (DataEncodingChoice::Float, DataEncodingChoice::Integer) => { assert(Self::label_of(a).len() != Self::label_of(b).len()); },
                (DataEncodingChoice::Float, DataEncodingChoice::String) => { assert(Self::label_of(a).len() != Self::label_of(b).len()); },
                (DataEncodingChoice::Integer, DataEncodingChoice::NoEncoding) => { assert(Self::label_of(a).len() != Self::label_of(b).len()); },
                (DataEncodingChoice::Integer, DataEncodingChoice::Binary) => { assert(Self::label_of(a).len() != Self::label_of(b).len()); },
                (DataEncodingChoice::Integer, DataEncodingChoice::Float) => { assert(Self::label_of(a).len() != Self::label_of(b).len()); },
                (DataEncodingChoice::Integer, DataEncodingChoice::String) => { assert(Self::label_of(a).len() != Self::label_of(b).len()); },
                (DataEncodingChoice::String, DataEncodingChoice::NoEncoding) => { assert(Self::label_of(a).len() != Self::label_of(b).len()); },
                (DataEncodingChoice::String, DataEncodingChoice::Binary) => { assert(Self::label_of(a)[0] != Self::label_of(b)[0]); },
                (DataEncodingChoice::String, DataEncodingChoice::Float) => { assert(Self::label_of(a).len() != Self::label_of(b).len()); },
                (DataEncodingChoice::String, DataEncodingChoice::Integer) => { assert(Self::label_of(a).len() != Self::label_of(b).len()); },
                _ => {},
            }
        }
        assert forall|c: DataEncodingChoice| is_trimmed(#[trigger] Self::label_of(c)) && Self::label_of(c).len() > 0 by {
            let l = Self::label_of(c);
            assert(!is_space(l[0]) && !is_space(l[l.len() - 1]));
        }
    }
}

/// The order of bits within a byte.
#[derive(Clone, Copy, Debug, PartialEq, Eq, Structural)]
pub enum BitOrder {
    MostSignificantFirst,
    LeastSignificantFirst,
}

impl Choice for BitOrder {
    open spec fn label_of(c: BitOrder) -> Seq<char> {
        match c {
            BitOrder::MostSignificantFirst => seq!['m', 'o', 's', 't', 'S', 'i', 'g', 'n', 'i', 'f', 'i', 'c', 'a', 'n', 't', 'B', 'i', 't', 'F', 'i', 'r', 's', 't'],
            BitOrder::LeastSignificantFirst => seq!['l', 'e', 'a', 's', 't', 'S', 'i', 'g', 'n', 'i', 'f', 'i', 'c', 'a', 'n', 't', 'B', 'i', 't', 'F', 'i', 'r', 's', 't'],
        }
    }

    open spec fn variants() -> Seq<BitOrder> {
        seq![BitOrder::MostSignificantFirst, BitOrder::LeastSignificantFirst]
    }

    fn variant_list() -> (r: Vec<BitOrder>) {
        let r = vec![BitOrder::MostSignificantFirst, BitOrder::LeastSignificantFirst];
        assert(r@ =~= Self::variants());
        r
    }

    fn label_chars(self) -> (r: Vec<char>) {
        let r = match self {
            BitOrder::MostSignificantFirst => vec!['m', 'o', 's', 't', 'S', 'i', 'g', 'n', 'i', 'f', 'i', 'c', 'a', 'n', 't', 'B', 'i', 't', 'F', 'i', 'r', 's', 't'],
            BitOrder::LeastSignificantFirst => vec!['l', 'e', 'a', 's', 't', 'S', 'i', 'g', 'n', 'i', 'f', 'i', 'c', 'a', 'n', 't', 'B', 'i', 't', 'F', 'i', 'r', 's', 't'],
        };
        assert(r@ =~= Self::label_of(self));
        r
    }

    proof fn lemma_choice() {
        assert forall|c: BitOrder| Self::variants().contains(c) by {
            match c {
                BitOrder::MostSignificantFirst => { assert(Self::variants()[0] == c); },
                BitOrder::LeastSignificantFirst => { assert(Self::variants()[1] == c); },
            }
        }
        assert forall|a: BitOrder, b: BitOrder| Self::label_of(a) == Self::label_of(b) implies a == b by {
            match (a, b) {
                (BitOrder::MostSignificantFirst, BitOrder::LeastSignificantFirst) => { assert(Self::label_of(a).len() != Self::label_of(b).len()); },
                (BitOrder::LeastSignificantFirst, BitOrder::MostSignificantFirst) => { assert(Self::label_of(a).len() != Self::label_of(b).len()); },
                _ => {},
            }
        }
        assert forall|c: BitOrder| is_trimmed(#[trigger] Self::label_of(c)) && Self::label_of(c).len() > 0 by {
            let l = Self::label_of(c);
            assert(!is_space(l[0]) && !is_space(l[l.len() - 1]));
        }
    }
}

/// The order of bytes that the form offers.
#[derive(Clone, Copy, Debug, PartialEq, Eq, Structural)]
pub enum ByteOrderChoice {
    MostSignificantFirst,
    LeastSignificantFirst,
}

impl Choice for ByteOrderChoice {
    open spec fn label_of(c: ByteOrderChoice) -> Seq<char> {
        match c {
            ByteOrderChoice::MostSignificantFirst => seq!['m', 'o', 's', 't', 'S', 'i', 'g', 'n', 'i', 'f', 'i', 'c', 'a', 'n', 't', 'B', 'y', 't', 'e', 'F', 'i', 'r', 's', 't'],
            ByteOrderChoice::LeastSignificantFirst => seq!['l', 'e', 'a', 's', 't', 'S', 'i', 'g', 'n', 'i', 'f', 'i', 'c', 'a', 'n', 't', 'B', 'y', 't', 'e', 'F', 'i', 'r', 's', 't'],
        }
    }

    open spec fn variants() -> Seq<ByteOrderChoice> {
        seq![ByteOrderChoice::MostSignificantFirst, ByteOrderChoice::LeastSignificantFirst]
    }

    fn variant_list() -> (r: Vec<ByteOrderChoice>) {
        let r = vec![ByteOrderChoice::MostSignificantFirst, ByteOrderChoice::LeastSignificantFirst];
        assert(r@ =~= Self::variants());
        r
    }

    fn label_chars(self) -> (r: Vec<char>) {
        let r = match self {
            ByteOrderChoice::MostSignificantFirst => vec!['m', 'o', 's', 't', 'S', 'i', 'g', 'n', 'i', 'f', 'i', 'c', 'a', 'n', 't', 'B', 'y', 't', 'e', 'F', 'i', 'r', 's', 't'],
            ByteOrderChoice::LeastSignificantFirst => vec!['l', 'e', 'a', 's', 't', 'S', 'i', 'g', 'n', 'i', 'f', 'i', 'c', 'a', 'n', 't', 'B', 'y', 't', 'e', 'F', 'i', 'r', 's', 't'],
        };
        assert(r@ =~= Self::label_of(self));
        r
    }

    proof fn lemma_choice() {
        assert forall|c: ByteOrderChoice| Self::variants().contains(c) by {
            match c {
                ByteOrderChoice::MostSignificantFirst => { assert(Self::variants()[0] == c); },
                ByteOrderChoice::LeastSignificantFirst => { assert(Self::variants()[1] == c); },
            }
        }
        assert forall|a: ByteOrderChoice, b: ByteOrderChoice| Self::label_of(a) == Self::label_of(b) implies a == b by {
            match (a, b) {
                (ByteOrderChoice::MostSignificantFirst, ByteOrderChoice::LeastSignificantFirst) => { assert(Self::label_of(a).len() != Self::label_of(b).len()); },
                (ByteOrderChoice::LeastSignificantFirst, ByteOrderChoice::MostSignificantFirst) => { assert(Self::label_of(a).len() != Self::label_of(b).len()); },
                _ => {},
            }
        }
        assert forall|c: ByteOrderChoice| is_trimmed(#[trigger] Self::label_of(c)) && Self::label_of(c).len() > 0 by {
            let l = Self::label_of(c);
            assert(!is_space(l[0]) && !is_space(l[l.len() - 1]));
        }
    }
}

/// How a floating point value is encoded.
#[derive(Clone, Copy, Debug, PartialEq, Eq, Structural)]
pub enum FloatEncoding {
    Ieee7541985,
    Ieee754,
    Milstd1750A,
    Dec,
    Ibm,
    Ti,
}

impl Choice for FloatEncoding {
    open spec fn label_of(c: FloatEncoding) -> Seq<char> {
        match c {
            FloatEncoding::Ieee7541985 => seq!['I', 'E', 'E', 'E', '7', '5', '4', '_', '1', '9', '8', '5'],
            FloatEncoding::Ieee754 => seq!['I', 'E', 'E', 'E', '7', '5', '4'],
            FloatEncoding::Milstd1750A => seq!['M', 'I', 'L', 'S', 'T', 'D', '_', '1', '7', '5', '0', 'A'],
            FloatEncoding::Dec => seq!['D', 'E', 'C'],
            FloatEncoding::Ibm => seq!['I', 'B', 'M'],
            FloatEncoding::Ti => seq!['T', 'I'],
        }
    }

    open spec fn variants() -> Seq<FloatEncoding> {
        seq![FloatEncoding::Ieee7541985, FloatEncoding::Ieee754, FloatEncoding::Milstd1750A, FloatEncoding::Dec, FloatEncoding::Ibm, FloatEncoding::Ti]
    }

    fn variant_list() -> (r: Vec<FloatEncoding>) {
        let r = vec![FloatEncoding::Ieee7541985, FloatEncoding::Ieee754, FloatEncoding::Milstd1750A, FloatEncoding::Dec, FloatEncoding::Ibm, FloatEncoding::Ti];
        assert(r@ =~= Self::variants());
        r
    }

    fn label_chars(self) -> (r: Vec<char>) {
        let r = match self {
            FloatEncoding::Ieee7541985 => vec!['I', 'E', 'E', 'E', '7', '5', '4', '_', '1', '9', '8', '5'],
            FloatEncoding::Ieee754 => vec!['I', 'E', 'E', 'E', '7', '5', '4'],
            FloatEncoding::Milstd1750A => vec!['M', 'I', 'L', 'S', 'T', 'D', '_', '1', '7', '5', '0', 'A'],
            FloatEncoding::Dec => vec!['D', 'E', 'C'],
            FloatEncoding::Ibm => vec!['I', 'B', 'M'],
            FloatEncoding::Ti => vec!['T', 'I'],
        };
        assert(r@ =~= Self::label_of(self));
        r
    }

    proof fn lemma_choice() {
        assert forall|c: FloatEncoding| Self::variants().contains(c) by {
            match c {
                FloatEncoding::Ieee7541985 => { assert(Self::variants()[0] == c); },
                FloatEncoding::Ieee754 => { assert(Self::variants()[1] == c); },
                FloatEncoding::Milstd1750A => { assert(Self::variants()[2] == c); },
                FloatEncoding::Dec => { assert(Self::variants()[3] == c); },
                FloatEncoding::Ibm => { assert(Self::variants()[4] == c); },
                FloatEncoding::Ti => { assert(Self::variants()[5] == c); },
            }
        }
        assert forall|a: FloatEncoding, b: FloatEncoding| Self::label_of(a) == Self::label_of(b) implies a == b by {
            match (a, b) {
                (FloatEncoding::Ieee7541985, FloatEncoding::Ieee754) => { assert(Self::label_of(a).len() != Self::label_of(b).len()); },
                (FloatEncoding::Ieee7541985, FloatEncoding::Milstd1750A) => { assert(Self::label_of(a)[0] != Self::label_of(b)[0]); },
                (FloatEncoding::Ieee7541985, FloatEncoding::Dec) => { assert(Self::label_of(a).len() != Self::label_of(b).len()); },
                (FloatEncoding::Ieee7541985, FloatEncoding::Ibm) => { assert(Self::label_of(a).len() != Self::label_of(b).len()); },
                (FloatEncoding::Ieee7541985, FloatEncoding::Ti) => { assert(Self::label_of(a).len() != Self::label_of(b).len()); },
                (FloatEncoding::Ieee754, FloatEncoding::Ieee7541985) => { assert(Self::label_of(a).len() != Self::label_of(b).len()); },
                (FloatEncoding::Ieee754, FloatEncoding::Milstd1750A) => { assert(Self::label_of(a).len() != Self::label_of(b).len()); },
                (FloatEncoding::Ieee754, FloatEncoding::Dec) => { assert(Self::label_of(a).len() != Self::label_of(b).len()); },
                (FloatEncoding::Ieee754, FloatEncoding::Ibm) => { assert(Self::label_of(a).len() != Self::label_of(b).len()); },
                (FloatEncoding::Ieee754, FloatEncoding::Ti) => { assert(Self::label_of(a).len() != Self::label_of(b).len()); },
                (FloatEncoding::Milstd1750A, FloatEncoding::Ieee7541985) => { assert(Self::label_of(a)[0] != Self::label_of(b)[0]); },
                (FloatEncoding::Milstd1750A, FloatEncoding::Ieee754) => { assert(Self::label_of(a).len() != Self::label_of(b).len()); },
                (FloatEncoding::Milstd1750A, FloatEncoding::Dec) => { assert(Self::label_of(a).len() != Self::label_of(b).len()); },
                (FloatEncoding::Milstd1750A, FloatEncoding::Ibm) => { assert(Self::label_of(a).len() != Self::label_of(b).len()); },
                (FloatEncoding::Milstd1750A, FloatEncoding::Ti) => { assert(Self::label_of(a).len() != Self::label_of(b).len()); },
                (FloatEncoding::Dec, FloatEncoding::Ieee7541985) => { assert(Self::label_of(a).len() != Self::label_of(b).len()); },
                (FloatEncoding::Dec, FloatEncoding::Ieee754) => { assert(Self::label_of(a).len() != Self::label_of(b).len()); },
                (FloatEncoding::Dec, FloatEncoding::Milstd1750A) => { assert(Self::label_of(a).len() != Self::label_of(b).len()); },
                (FloatEncoding::Dec, FloatEncoding::Ibm) => { assert(Self::label_of(a)[0] != Self::label_of(b)[0]); },
                (FloatEncoding::Dec, FloatEncoding::Ti) => { assert(Self::label_of(a).len() != Self::label_of(b).len()); },
                (FloatEncoding::Ibm, FloatEncoding::Ieee7541985) => { assert(Self::label_of(a).len() != Self::label_of(b).len()); },
                (FloatEncoding::Ibm, FloatEncoding::Ieee754) => { assert(Self::label_of(a).len() != Self::label_of(b).len()); },
                (FloatEncoding::Ibm, FloatEncoding::Milstd1750A) => { assert(Self::label_of(a).len() != Self::label_of(b).len()); },
                (FloatEncoding::Ibm, FloatEncoding::Dec) => { assert(Self::label_of(a)[0] != Self::label_of(b)[0]); },
                (FloatEncoding::Ibm, FloatEncoding::Ti) => { assert(Self::label_of(a).len() != Self::label_of(b).len()); },
                (FloatEncoding::Ti, FloatEncoding::Ieee7541985) => { assert(Self::label_of(a).len() != Self::label_of(b).len()); },
                (FloatEncoding::Ti, FloatEncoding::Ieee754) => { assert(Self::label_of(a).len() != Self::label_of(b).len()); },
                (FloatEncoding::Ti, FloatEncoding::Milstd1750A) => { assert(Self::label_of(a).len() != Self::label_of(b).len()); },
                (FloatEncoding::Ti, FloatEncoding::Dec) => { assert(Self::label_of(a).len() != Self::label_of(b).len()); },
                (FloatEncoding::Ti, FloatEncoding::Ibm) => { assert(Self::label_of(a).len() != Self::label_of(b).len()); },
                _ => {},
            }
        }
        assert forall|c: FloatEncoding| is_trimmed(#[trigger] Self::label_of(c)) && Self::label_of(c).len() > 0 by {
            let l = Self::label_of(c);
            assert(!is_space(l[0]) && !is_space(l[l.len() - 1]));
        }
    }
}

/// How an integer value is encoded.
#[derive(Clone, Copy, Debug, PartialEq, Eq, Structural)]
pub enum IntegerEncoding {
    Unsigned,
    SignMagnitude,
    TwosComplement,
    OnesComplement,
    Bcd,
    PackedBcd,
}

impl Choice for IntegerEncoding {
    open spec fn label_of(c: IntegerEncoding) -> Seq<char> {
        match c {
            IntegerEncoding::Unsigned => seq!['u', 'n', 's', 'i', 'g', 'n', 'e', 'd'],
            IntegerEncoding::SignMagnitude => seq!['s', 'i', 'g', 'n', 'M', 'a', 'g', 'n', 'i', 't', 'u', 'd', 'e'],
            IntegerEncoding::TwosComplement => seq!['t', 'w', 'o', 's', 'C', 'o', 'm', 'p', 'l', 'e', 'm', 'e', 'n', 't'],
            IntegerEncoding::OnesComplement => seq!['o', 'n', 'e', 's', 'C', 'o', 'm', 'p', 'l', 'e', 'm', 'e', 'n', 't'],
            IntegerEncoding::Bcd => seq!['B', 'C', 'D'],
            IntegerEncoding::PackedBcd => seq!['p', 'a', 'c', 'k', 'e', 'd', 'B', 'C', 'D'],
        }
    }

    open spec fn variants() -> Seq<IntegerEncoding> {
        seq![IntegerEncoding::Unsigned, IntegerEncoding::SignMagnitude, IntegerEncoding::TwosComplement, IntegerEncoding::OnesComplement, IntegerEncoding::Bcd, IntegerEncoding::PackedBcd]
    }

    fn variant_list() -> (r: Vec<IntegerEncoding>) {
        let r = vec![IntegerEncoding::Unsigned, IntegerEncoding::SignMagnitude, IntegerEncoding::TwosComplement, IntegerEncoding::OnesComplement, IntegerEncoding::Bcd, IntegerEncoding::PackedBcd];
        assert(r@ =~= Self::variants());
        r
    }

    fn label_chars(self) -> (r: Vec<char>) {
        let r = match self {
            IntegerEncoding::Unsigned => vec!['u', 'n', 's', 'i', 'g', 'n', 'e', 'd'],
            IntegerEncoding::SignMagnitude => vec!['s', 'i', 'g', 'n', 'M', 'a', 'g', 'n', 'i', 't', 'u', 'd', 'e'],
            IntegerEncoding::TwosComplement => vec!['t', 'w', 'o', 's', 'C', 'o', 'm', 'p', 'l', 'e', 'm', 'e', 'n', 't'],
            IntegerEncoding::OnesComplement => vec!['o', 'n', 'e', 's', 'C', 'o', 'm', 'p', 'l', 'e', 'm', 'e', 'n', 't'],
            IntegerEncoding::Bcd => vec!['B', 'C', 'D'],
            IntegerEncoding::PackedBcd => vec!['p', 'a', 'c', 'k', 'e', 'd', 'B', 'C', 'D'],
        };
        assert(r@ =~= Self::label_of(self));
        r
    }

    proof fn lemma_choice() {
        assert forall|c: IntegerEncoding| Self::variants().contains(c) by {
            match c {
                IntegerEncoding::Unsigned => { assert(Self::variants()[0] == c); },
                IntegerEncoding::SignMagnitude => { assert(Self::variants()[1] == c); },
                IntegerEncoding::TwosComplement => { assert(Self::variants()[2] == c); },
                IntegerEncoding::OnesComplement => { assert(Self::variants()[3] == c); },
                IntegerEncoding::Bcd => { assert(Self::variants()[4] == c); },
                IntegerEncoding::PackedBcd => { assert(Self::variants()[5] == c); },
            }
        }
        assert forall|a: IntegerEncoding, b: IntegerEncoding| Self::label_of(a) == Self::label_of(b) implies a == b by {
            match (a, b) {
                (IntegerEncoding::Unsigned, IntegerEncoding::SignMagnitude) => { assert(Self::label_of(a).len() != Self::label_of(b).len()); },
                (IntegerEncoding::Unsigned, IntegerEncoding::TwosComplement) => { assert(Self::label_of(a).len() != Self::label_of(b).len()); },
                (IntegerEncoding::Unsigned, IntegerEncoding::OnesComplement) => { assert(Self::label_of(a).len() != Self::label_of(b).len()); },
                (IntegerEncoding::Unsigned, IntegerEncoding::Bcd) => { assert(Self::label_of(a).len() != Self::label_of(b).len()); },
                (IntegerEncoding::Unsigned, IntegerEncoding::PackedBcd) => { assert(Self::label_of(a).len() != Self::label_of(b).len()); },
                (IntegerEncoding::SignMagnitude, IntegerEncoding::Unsigned) => { assert(Self::label_of(a).len() != Self::label_of(b).len()); },
                (IntegerEncoding::SignMagnitude, IntegerEncoding::TwosComplement) => { assert(Self::label_of(a).len() != Self::label_of(b).len()); },
                (IntegerEncoding::SignMagnitude, IntegerEncoding::OnesComplement) => { assert(Self::label_of(a).len() != Self::label_of(b).len()); },
                (IntegerEncoding::SignMagnitude, IntegerEncoding::Bcd) => { assert(Self::label_of(a).len() != Self::label_of(b).len()); },
                (IntegerEncoding::SignMagnitude, IntegerEncoding::PackedBcd) => { assert(Self::label_of(a).len() != Self::label_of(b).len()); },
                (IntegerEncoding::TwosComplement, IntegerEncoding::Unsigned) => { assert(Self::label_of(a).len() != Self::label_of(b).len()); },
                (IntegerEncoding::TwosComplement, IntegerEncoding::SignMagnitude) => { assert(Self::label_of(a).len() != Self::label_of(b).len()); },
                (IntegerEncoding::TwosComplement, IntegerEncoding::OnesComplement) => { assert(Self::label_of(a)[0] != Self::label_of(b)[0]); },
                (IntegerEncoding::TwosComplement, IntegerEncoding::Bcd) => { assert(Self::label_of(a).len() != Self::label_of(b).len()); },
                (IntegerEncoding::TwosComplement, IntegerEncoding::PackedBcd) => { assert(Self::label_of(a).len() != Self::label_of(b).len()); },
                (IntegerEncoding::OnesComplement, IntegerEncoding::Unsigned) => { assert(Self::label_of(a).len() != Self::label_of(b).len()); },
                (IntegerEncoding::OnesComplement, IntegerEncoding::SignMagnitude) => { assert(Self::label_of(a).len() != Self::label_of(b).len()); },
                (IntegerEncoding::OnesComplement, IntegerEncoding::TwosComplement) => { assert(Self::label_of(a)[0] != Self::label_of(b)[0]); },
                (IntegerEncoding::OnesComplement, IntegerEncoding::Bcd) => { assert(Self::label_of(a).len() != Self::label_of(b).len()); },
                (IntegerEncoding::OnesComplement, IntegerEncoding::PackedBcd) => { assert(Self::label_of(a).len() != Self::label_of(b).len()); },
                (IntegerEncoding::Bcd, IntegerEncoding::Unsigned) => { assert(Self::label_of(a).len() != Self::label_of(b).len()); },
                (IntegerEncoding::Bcd, IntegerEncoding::SignMagnitude) => { assert(Self::label_of(a).len() != Self::label_of(b).len()); },
                (IntegerEncoding::Bcd, IntegerEncoding::TwosComplement) => { assert(Self::label_of(a).len() != Self::label_of(b).len()); },
                (IntegerEncoding::Bcd, IntegerEncoding::OnesComplement) => { assert(Self::label_of(a).len() != Self::label_of(b).len()); },
                (IntegerEncoding::Bcd, IntegerEncoding::PackedBcd) => { assert(Self::label_of(a).len() != Self::label_of(b).len()); },
                (IntegerEncoding::PackedBcd, IntegerEncoding::Unsigned) => { assert(Self::label_of(a).len() != Self::label_of(b).len()); },
                (IntegerEncoding::PackedBcd, IntegerEncoding::SignMagnitude) => { assert(Self::label_of(a).len() != Self::label_of(b).len()); },
                (IntegerEncoding::PackedBcd, IntegerEncoding::TwosComplement) => { assert(Self::label_of(a).len() != Self::label_of(b).len()); },
                (IntegerEncoding::PackedBcd, IntegerEncoding::OnesComplement) => { assert(Self::label_of(a).len() != Self::label_of(b).len()); },
                (IntegerEncoding::PackedBcd, IntegerEncoding::Bcd) => { assert(Self::label_of(a).len() != Self::label_of(b).len()); },
                _ => {},
            }
        }
        assert forall|c: IntegerEncoding| is_trimmed(#[trigger] Self::label_of(c)) && Self::label_of(c).len() > 0 by {
            let l = Self::label_of(c);
            assert(!is_space(l[0]) && !is_space(l[l.len() - 1]));
        }
    }
}

/// The character encoding of a string.
#[derive(Clone, Copy, Debug, PartialEq, Eq, Structural)]
pub enum StringEncoding {
    UsAscii,
    Iso88591,
    Windows1252,
    Utf8,
    Utf16,
    Utf16Le,
    Utf16Be,
    Utf32,
    Utf32Le,
    Utf32Be,
}

impl Choice for StringEncoding {
    open spec fn label_of(c: StringEncoding) -> Seq<char> {
        match c {
            StringEncoding::UsAscii => seq!['U', 'S', '-', 'A', 'S', 'C', 'I', 'I'],
            StringEncoding::Iso88591 => seq!['I', 'S', 'O', '-', '8', '8', '5', '9', '-', '1'],
            StringEncoding::Windows1252 => seq!['W', 'i', 'n', 'd', 'o', 'w', 's', '-', '1', '2', '5', '2'],
            StringEncoding::Utf8 => seq!['U', 'T', 'F', '-', '8'],
            StringEncoding::Utf16 => seq!['U', 'T', 'F', '-', '1', '6'],
            StringEncoding::Utf16Le => seq!['U', 'T', 'F', '-', '1', '6', 'L', 'E'],
            StringEncoding::Utf16Be => seq!['U', 'T', 'F', '-', '1', '6', 'B', 'E'],
            StringEncoding::Utf32 => seq!['U', 'T', 'F', '-', '3', '2'],
            StringEncoding::Utf32Le => seq!['U', 'T', 'F', '-', '3', '2', 'L', 'E'],
            StringEncoding::Utf32Be => seq!['U', 'T', 'F', '-', '3', '2', 'B', 'E'],
        }
    }

    open spec fn variants() -> Seq<StringEncoding> {
        seq![StringEncoding::UsAscii, StringEncoding::Iso88591, StringEncoding::Windows1252, StringEncoding::Utf8, StringEncoding::Utf16, StringEncoding::Utf16Le, StringEncoding::Utf16Be, StringEncoding::Utf32, StringEncoding::Utf32Le, StringEncoding::Utf32Be]
    }

    fn variant_list() -> (r: Vec<StringEncoding>) {
        let r = vec![StringEncoding::UsAscii, StringEncoding::Iso88591, StringEncoding::Windows1252, StringEncoding::Utf8, StringEncoding::Utf16, StringEncoding::Utf16Le, StringEncoding::Utf16Be, StringEncoding::Utf32, StringEncoding::Utf32Le, StringEncoding::Utf32Be];
        assert(r@ =~= Self::variants());
        r
    }

    fn label_chars(self) -> (r: Vec<char>) {
        let r = match self {
            StringEncoding::UsAscii => vec!['U', 'S', '-', 'A', 'S', 'C', 'I', 'I'],
            StringEncoding::Iso88591 => vec!['I', 'S', 'O', '-', '8', '8', '5', '9', '-', '1'],
            StringEncoding::Windows1252 => vec!['W', 'i', 'n', 'd', 'o', 'w', 's', '-', '1', '2', '5', '2'],
            StringEncoding::Utf8 => vec!['U', 'T', 'F', '-', '8'],
            StringEncoding::Utf16 => vec!['U', 'T', 'F', '-', '1', '6'],
            StringEncoding::Utf16Le => vec!['U', 'T', 'F', '-', '1', '6', 'L', 'E'],
            StringEncoding::Utf16Be => vec!['U', 'T', 'F', '-', '1', '6', 'B', 'E'],
            StringEncoding::Utf32 => vec!['U', 'T', 'F', '-', '3', '2'],
            StringEncoding::Utf32Le => vec!['U', 'T', 'F', '-', '3', '2', 'L', 'E'],
            StringEncoding::Utf32Be => vec!['U', 'T', 'F', '-', '3', '2', 'B', 'E'],
        };
        assert(r@ =~= Self::label_of(self));
        r
    }

    proof fn lemma_choice() {
        assert forall|c: StringEncoding| Self::variants().contains(c) by {
            match c {
                StringEncoding::UsAscii => { assert(Self::variants()[0] == c); },
                StringEncoding::Iso88591 => { assert(Self::variants()[1] == c); },
                StringEncoding::Windows1252 => { assert(Self::variants()[2] == c); },
                StringEncoding::Utf8 => { assert(Self::variants()[3] == c); },
                StringEncoding::Utf16 => { assert(Self::variants()[4] == c); },
                StringEncoding::Utf16Le => { assert(Self::variants()[5] == c); },
                StringEncoding::Utf16Be => { assert(Self::variants()[6] == c); },
                StringEncoding::Utf32 => { assert(Self::variants()[7] == c); },
                StringEncoding::Utf32Le => { assert(Self::variants()[8] == c); },
                StringEncoding::Utf32Be => { assert(Self::variants()[9] == c); },
            }
        }
        assert forall|a: StringEncoding, b: StringEncoding| Self::label_of(a) == Self::label_of(b) implies a == b by {
            match (a, b) {
                (StringEncoding::UsAscii, StringEncoding::Iso88591) => { assert(Self::label_of(a).len() != Self::label_of(b).len()); },
                (StringEncoding::UsAscii, StringEncoding::Windows1252) => { assert(Self::label_of(a).len() != Self::label_of(b).len()); },
                (StringEncoding::UsAscii, StringEncoding::Utf8) => { assert(Self::label_of(a).len() != Self::label_of(b).len()); },
                (StringEncoding::UsAscii, StringEncoding::Utf16) => { assert(Self::label_of(a).len() != Self::label_of(b).len()); },
                (StringEncoding::UsAscii, StringEncoding::Utf16Le) => { assert(Self::label_of(a)[1] != Self::label_of(b)[1]); },
                (StringEncoding::UsAscii, StringEncoding::Utf16Be) => { assert(Self::label_of(a)[1] != Self::label_of(b)[1]); },
                (StringEncoding::UsAscii, StringEncoding::Utf32) => { assert(Self::label_of(a).len() != Self::label_of(b).len()); },
                (StringEncoding::UsAscii, StringEncoding::Utf32Le) => { assert(Self::label_of(a)[1] != Self::label_of(b)[1]); },
                (StringEncoding::UsAscii, StringEncoding::Utf32Be) => { assert(Self::label_of(a)[1] != Self::label_of(b)[1]); },
                (StringEncoding::Iso88591, StringEncoding::UsAscii) => { assert(Self::label_of(a).len() != Self::label_of(b).len()); },
                (StringEncoding::Iso88591, StringEncoding::Windows1252) => { assert(Self::label_of(a).len() != Self::label_of(b).len()); },
                (StringEncoding::Iso88591, StringEncoding::Utf8) => { assert(Self::label_of(a).len() != Self::label_of(b).len()); },
                (StringEncoding::Iso88591, StringEncoding::Utf16) => { assert(Self::label_of(a).len() != Self::label_of(b).len()); },
                (StringEncoding::Iso88591, StringEncoding::Utf16Le) => { assert(Self::label_of(a).len() != Self::label_of(b).len()); },
                (StringEncoding::Iso88591, StringEncoding::Utf16Be) => { assert(Self::label_of(a).len() != Self::label_of(b).len()); },
                (StringEncoding::Iso88591, StringEncoding::Utf32) => { assert(Self::label_of(a).len() != Self::label_of(b).len()); },
                (StringEncoding::Iso88591, StringEncoding::Utf32Le) => { assert(Self::label_of(a).len() != Self::label_of(b).len()); },
                (StringEncoding::Iso88591, StringEncoding::Utf32Be) => { assert(Self::label_of(a).len() != Self::label_of(b).len()); },
                (StringEncoding::Windows1252, StringEncoding::UsAscii) => { assert(Self::label_of(a).len() != Self::label_of(b).len()); },
                (StringEncoding::Windows1252, StringEncoding::Iso88591) => { assert(Self::label_of(a).len() != Self::label_of(b).len()); },
                (StringEncoding::Windows1252, StringEncoding::Utf8) => { assert(Self::label_of(a).len() != Self::label_of(b).len()); },
                (StringEncoding::Windows1252, StringEncoding::Utf16) => { assert(Self::label_of(a).len() != Self::label_of(b).len()); },
                (StringEncoding::Windows1252, StringEncoding::Utf16Le) => { assert(Self::label_of(a).len() != Self::label_of(b).len()); },
                (StringEncoding::Windows1252, StringEncoding::Utf16Be) => { assert(Self::label_of(a).len() != Self::label_of(b).len()); },
                (StringEncoding::Windows1252, StringEncoding::Utf32) => { assert(Self::label_of(a).len() != Self::label_of(b).len()); },
                (StringEncoding::Windows1252, StringEncoding::Utf32Le) => { assert(Self::label_of(a).len() != Self::label_of(b).len()); },
                (StringEncoding::Windows1252, StringEncoding::Utf32Be) => { assert(Self::label_of(a).len() != Self::label_of(b).len()); },
                (StringEncoding::Utf8, StringEncoding::UsAscii) => { assert(Self::label_of(a).len() != Self::label_of(b).len()); },
                (StringEncoding::Utf8, StringEncoding::Iso88591) => { assert(Self::label_of(a).len() != Self::label_of(b).len()); },
                (StringEncoding::Utf8, StringEncoding::Windows1252) => { assert(Self::label_of(a).len() != Self::label_of(b).len()); },
                (StringEncoding::Utf8, StringEncoding::Utf16) => { assert(Self::label_of(a).len() != Self::label_of(b).len()); },
                (StringEncoding::Utf8, StringEncoding::Utf16Le) => { assert(Self::label_of(a).len() != Self::label_of(b).len()); },
                (StringEncoding::Utf8, StringEncoding::Utf16Be) => { assert(Self::label_of(a).len() != Self::label_of(b).len()); },
                (StringEncoding::Utf8, StringEncoding::Utf32) => { assert(Self::label_of(a).len() != Self::label_of(b).len()); },
                (StringEncoding::Utf8, StringEncoding::Utf32Le) => { assert(Self::label_of(a).len() != Self::label_of(b).len()); },
                (StringEncoding::Utf8, StringEncoding::Utf32Be) => { assert(Self::label_of(a).len() != Self::label_of(b).len()); },
                (StringEncoding::Utf16, StringEncoding::UsAscii) => { assert(Self::label_of(a).len() != Self::label_of(b).len()); },
                (StringEncoding::Utf16, StringEncoding::Iso88591) => { assert(Self::label_of(a).len() != Self::label_of(b).len()); },
                (StringEncoding::Utf16, StringEncoding::Windows1252) => { assert(Self::label_of(a).len() != Self::label_of(b).len()); },
                (StringEncoding::Utf16, StringEncoding::Utf8) => { assert(Self::label_of(a).len() != Self::label_of(b).len()); },
                (StringEncoding::Utf16, StringEncoding::Utf16Le) => { assert(Self::label_of(a).len() != Self::label_of(b).len()); },
                (StringEncoding::Utf16, StringEncoding::Utf16Be) => { assert(Self::label_of(a).len() != Self::label_of(b).len()); },
                (StringEncoding::Utf16, StringEncoding::Utf32) => { assert(Self::label_of(a)[4] != Self::label_of(b)[4]); },
                (StringEncoding::Utf16, StringEncoding::Utf32Le) => { assert(Self::label_of(a).len() != Self::label_of(b).len()); },
                (StringEncoding::Utf16, StringEncoding::Utf32Be) => { assert(Self::label_of(a).len() != Self::label_of(b).len()); },
                (StringEncoding::Utf16Le, StringEncoding::UsAscii) => { assert(Self::label_of(a)[1] != Self::label_of(b)[1]); },
                (StringEncoding::Utf16Le, StringEncoding::Iso88591) => { assert(Self::label_of(a).len() != Self::label_of(b).len()); },
                (StringEncoding::Utf16Le, StringEncoding::Windows1252) => { assert(Self::label_of(a).len() != Self::label_of(b).len()); },
                (StringEncoding::Utf16Le, StringEncoding::Utf8) => { assert(Self::label_of(a).len() != Self::label_of(b).len()); },
                (StringEncoding::Utf16Le, StringEncoding::Utf16) => { assert(Self::label_of(a).len() != Self::label_of(b).len()); },
                (StringEncoding::Utf16Le, StringEncoding::Utf16Be) => { assert(Self::label_of(a)[6] != Self::label_of(b)[6]); },
                (StringEncoding::Utf16Le, StringEncoding::Utf32) => { assert(Self::label_of(a).len() != Self::label_of(b).len()); },
                (StringEncoding::Utf16Le, StringEncoding::Utf32Le) => { assert(Self::label_of(a)[4] != Self::label_of(b)[4]); },
                (StringEncoding::Utf16Le, StringEncoding::Utf32Be) => { assert(Self::label_of(a)[4] != Self::label_of(b)[4]); },
                (StringEncoding::Utf16Be, StringEncoding::UsAscii) => { assert(Self::label_of(a)[1] != Self::label_of(b)[1]); },
                (StringEncoding::Utf16Be, StringEncoding::Iso88591) => { assert(Self::label_of(a).len() != Self::label_of(b).len()); },
                (StringEncoding::Utf16Be, StringEncoding::Windows1252) => { assert(Self::label_of(a).len() != Self::label_of(b).len()); },
                (StringEncoding::Utf16Be, StringEncoding::Utf8) => { assert(Self::label_of(a).len() != Self::label_of(b).len()); },
                (StringEncoding::Utf16Be, StringEncoding::Utf16) => { assert(Self::label_of(a).len() != Self::label_of(b).len()); },
                (StringEncoding::Utf16Be, StringEncoding::Utf16Le) => { assert(Self::label_of(a)[6] != Self::label_of(b)[6]); },
                (StringEncoding::Utf16Be, StringEncoding::Utf32) => { assert(Self::label_of(a).len() != Self::label_of(b).len()); },
                (StringEncoding::Utf16Be, StringEncoding::Utf32Le) => { assert(Self::label_of(a)[4] != Self::label_of(b)[4]); },
                (StringEncoding::Utf16Be, StringEncoding::Utf32Be) => { assert(Self::label_of(a)[4] != Self::label_of(b)[4]); },
                (StringEncoding::Utf32, StringEncoding::UsAscii) => { assert(Self::label_of(a).len() != Self::label_of(b).len()); },
                (StringEncoding::Utf32, StringEncoding::Iso88591) => { assert(Self::label_of(a).len() != Self::label_of(b).len()); },
                (StringEncoding::Utf32, StringEncoding::Windows1252) => { assert(Self::label_of(a).len() != Self::label_of(b).len()); },
                (StringEncoding::Utf32, StringEncoding::Utf8) => { assert(Self::label_of(a).len() != Self::label_of(b).len()); },
                (StringEncoding::Utf32, StringEncoding::Utf16) => { assert(Self::label_of(a)[4] != Self::label_of(b)[4]); },
                (StringEncoding::Utf32, StringEncoding::Utf16Le) => { assert(Self::label_of(a).len() != Self::label_of(b).len()); },
                (StringEncoding::Utf32, StringEncoding::Utf16Be) => { assert(Self::label_of(a).len() != Self::label_of(b).len()); },
                (StringEncoding::Utf32, StringEncoding::Utf32Le) => { assert(Self::label_of(a).len() != Self::label_of(b).len()); },
                (StringEncoding::Utf32, StringEncoding::Utf32Be) => { assert(Self::label_of(a).len() != Self::label_of(b).len()); },
                (StringEncoding::Utf32Le, StringEncoding::UsAscii) => { assert(Self::label_of(a)[1] != Self::label_of(b)[1]); },
                (StringEncoding::Utf32Le, StringEncoding::Iso88591) => { assert(Self::label_of(a).len() != Self::label_of(b).len()); },
                (StringEncoding::Utf32Le, StringEncoding::Windows1252) => { assert(Self::label_of(a).len() != Self::label_of(b).len()); },
                (StringEncoding::Utf32Le, StringEncoding::Utf8) => { assert(Self::label_of(a).len() != Self::label_of(b).len()); },
                (StringEncoding::Utf32Le, StringEncoding::Utf16) => { assert(Self::label_of(a).len() != Self::label_of(b).len()); },
                (StringEncoding::Utf32Le, StringEncoding::Utf16Le) => { assert(Self::label_of(a)[4] != Self::label_of(b)[4]); },
                (StringEncoding::Utf32Le, StringEncoding::Utf16Be) => { assert(Self::label_of(a)[4] != Self::label_of(b)[4]); },
                (StringEncoding::Utf32Le, StringEncoding::Utf32) => { assert(Self::label_of(a).len() != Self::label_of(b).len()); },
                (StringEncoding::Utf32Le, StringEncoding::Utf32Be) => { assert(Self::label_of(a)[6] != Self::label_of(b)[6]); },
                (StringEncoding::Utf32Be, StringEncoding::UsAscii) => { assert(Self::label_of(a)[1] != Self::label_of(b)[1]); },
                (StringEncoding::Utf32Be, StringEncoding::Iso88591) => { assert(Self::label_of(a).len() != Self::label_of(b).len()); },
                (StringEncoding::Utf32Be, StringEncoding::Windows1252) => { assert(Self::label_of(a).len() != Self::label_of(b).len()); },
                (StringEncoding::Utf32Be, StringEncoding::Utf8) => { assert(Self::label_of(a).len() != Self::label_of(b).len()); },
                (StringEncoding::Utf32Be, StringEncoding::Utf16) => { assert(Self::label_of(a).len() != Self::label_of(b).len()); },
                (StringEncoding::Utf32Be, StringEncoding::Utf16Le) => { assert(Self::label_of(a)[4] != Self::label_of(b)[4]); },
                (StringEncoding::Utf32Be, StringEncoding::Utf16Be) => { assert(Self::label_of(a)[4] != Self::label_of(b)[4]); },
                (StringEncoding::Utf32Be, StringEncoding::Utf32) => { assert(Self::label_of(a).len() != Self::label_of(b).len()); },
                (StringEncoding::Utf32Be, StringEncoding::Utf32Le) => { assert(Self::label_of(a)[6] != Self::label_of(b)[6]); },
                _ => {},
            }
        }
        assert forall|c: StringEncoding| is_trimmed(#[trigger] Self::label_of(c)) && Self::label_of(c).len() > 0 by {
            let l = Self::label_of(c);
            assert(!is_space(l[0]) && !is_space(l[l.len() - 1]));
        }
    }
}

/// The size in bits of an encoded floating point value.
#[derive(Clone, Copy, Debug, PartialEq, Eq, Structural)]
pub enum FloatSize {
    Bits16,
    Bits32,
    Bits40,
    Bits48,
    Bits64,
    Bits80,
    Bits128,
}

impl Choice for FloatSize {
    open spec fn label_of(c: FloatSize) -> Seq<char> {
        match c {
            FloatSize::Bits16 => seq!['1', '6'],
            FloatSize::Bits32 => seq!['3', '2'],
            FloatSize::Bits40 => seq!['4', '0'],
            FloatSize::Bits48 => seq!['4', '8'],
            FloatSize::Bits64 => seq!['6', '4'],
            FloatSize::Bits80 => seq!['8', '0'],
            FloatSize::Bits128 => seq!['1', '2', '8'],
        }
    }

    open spec fn variants() -> Seq<FloatSize> {
        seq![FloatSize::Bits16, FloatSize::Bits32, FloatSize::Bits40, FloatSize::Bits48, FloatSize::Bits64, FloatSize::Bits80, FloatSize::Bits128]
    }

    fn variant_list() -> (r: Vec<FloatSize>) {
        let r = vec![FloatSize::Bits16, FloatSize::Bits32, FloatSize::Bits40, FloatSize::Bits48, FloatSize::Bits64, FloatSize::Bits80, FloatSize::Bits128];
        assert(r@ =~= Self::variants());
        r
    }

    fn label_chars(self) -> (r: Vec<char>) {
        let r = match self {
            FloatSize::Bits16 => vec!['1', '6'],
            FloatSize::Bits32 => vec!['3', '2'],
            FloatSize::Bits40 => vec!['4', '0'],
            FloatSize::Bits48 => vec!['4', '8'],
            FloatSize::Bits64 => vec!['6', '4'],
            FloatSize::Bits80 => vec!['8', '0'],
            FloatSize::Bits128 => vec!['1', '2', '8'],
        };
        assert(r@ =~= Self::label_of(self));
        r
    }

    proof fn lemma_choice() {
        assert forall|c: FloatSize| Self::variants().contains(c) by {
            match c {
                FloatSize::Bits16 => { assert(Self::variants()[0] == c); },
                FloatSize::Bits32 => { assert(Self::variants()[1] == c); },
                FloatSize::Bits40 => { assert(Self::variants()[2] == c); },
                FloatSize::Bits48 => { assert(Self::variants()[3] == c); },
                FloatSize::Bits64 => { assert(Self::variants()[4] == c); },
                FloatSize::Bits80 => { assert(Self::variants()[5] == c); },
                FloatSize::Bits128 => { assert(Self::variants()[6] == c); },
            }
        }
        assert forall|a: FloatSize, b: FloatSize| Self::label_of(a) == Self::label_of(b) implies a == b by {
            match (a, b) {
                (FloatSize::Bits16, FloatSize::Bits32) => { assert(Self::label_of(a)[0] != Self::label_of(b)[0]); },
                (FloatSize::Bits16, FloatSize::Bits40) => { assert(Self::label_of(a)[0] != Self::label_of(b)[0]); },
                (FloatSize::Bits16, FloatSize::Bits48) => { assert(Self::label_of(a)[0] != Self::label_of(b)[0]); },
                (FloatSize::Bits16, FloatSize::Bits64) => { assert(Self::label_of(a)[0] != Self::label_of(b)[0]); },
                (FloatSize::Bits16, FloatSize::Bits80) => { assert(Self::label_of(a)[0] != Self::label_of(b)[0]); },
                (FloatSize::Bits16, FloatSize::Bits128) => { assert(Self::label_of(a).len() != Self::label_of(b).len()); },
                (FloatSize::Bits32, FloatSize::Bits16) => { assert(Self::label_of(a)[0] != Self::label_of(b)[0]); },
                (FloatSize::Bits32, FloatSize::Bits40) => { assert(Self::label_of(a)[0] != Self::label_of(b)[0]); },
                (FloatSize::Bits32, FloatSize::Bits48) => { assert(Self::label_of(a)[0] != Self::label_of(b)[0]); },
                (FloatSize::Bits32, FloatSize::Bits64) => { assert(Self::label_of(a)[0] != Self::label_of(b)[0]); },
                (FloatSize::Bits32, FloatSize::Bits80) => { assert(Self::label_of(a)[0] != Self::label_of(b)[0]); },
                (FloatSize::Bits32, FloatSize::Bits128) => { assert(Self::label_of(a).len() != Self::label_of(b).len()); },
                (FloatSize::Bits40, FloatSize::Bits16) => { assert(Self::label_of(a)[0] != Self::label_of(b)[0]); },
                (FloatSize::Bits40, FloatSize::Bits32) => { assert(Self::label_of(a)[0] != Self::label_of(b)[0]); },
                (FloatSize::Bits40, FloatSize::Bits48) => { assert(Self::label_of(a)[1] != Self::label_of(b)[1]); },
                (FloatSize::Bits40, FloatSize::Bits64) => { assert(Self::label_of(a)[0] != Self::label_of(b)[0]); },
                (FloatSize::Bits40, FloatSize::Bits80) => { assert(Self::label_of(a)[0] != Self::label_of(b)[0]); },
                (FloatSize::Bits40, FloatSize::Bits128) => { assert(Self::label_of(a).len() != Self::label_of(b).len()); },
                (FloatSize::Bits48, FloatSize::Bits16) => { assert(Self::label_of(a)[0] != Self::label_of(b)[0]); },
                (FloatSize::Bits48, FloatSize::Bits32) => { assert(Self::label_of(a)[0] != Self::label_of(b)[0]); },
                (FloatSize::Bits48, FloatSize::Bits40) => { assert(Self::label_of(a)[1] != Self::label_of(b)[1]); },
                (FloatSize::Bits48, FloatSize::Bits64) => { assert(Self::label_of(a)[0] != Self::label_of(b)[0]); },
                (FloatSize::Bits48, FloatSize::Bits80) => { assert(Self::label_of(a)[0] != Self::label_of(b)[0]); },
                (FloatSize::Bits48, FloatSize::Bits128) => { assert(Self::label_of(a).len() != Self::label_of(b).len()); },
                (FloatSize::Bits64, FloatSize::Bits16) => { assert(Self::label_of(a)[0] != Self::label_of(b)[0]); },
                (FloatSize::Bits64, FloatSize::Bits32) => { assert(Self::label_of(a)[0] != Self::label_of(b)[0]); },
                (FloatSize::Bits64, FloatSize::Bits40) => { assert(Self::label_of(a)[0] != Self::label_of(b)[0]); },
                (FloatSize::Bits64, FloatSize::Bits48) => { assert(Self::label_of(a)[0] != Self::label_of(b)[0]); },
                (FloatSize::Bits64, FloatSize::Bits80) => { assert(Self::label_of(a)[0] != Self::label_of(b)[0]); },
                (FloatSize::Bits64, FloatSize::Bits128) => { assert(Self::label_of(a).len() != Self::label_of(b).len()); },
                (FloatSize::Bits80, FloatSize::Bits16) => { assert(Self::label_of(a)[0] != Self::label_of(b)[0]); },
                (FloatSize::Bits80, FloatSize::Bits32) => { assert(Self::label_of(a)[0] != Self::label_of(b)[0]); },
                (FloatSize::Bits80, FloatSize::Bits40) => { assert(Self::label_of(a)[0] != Self::label_of(b)[0]); },
                (FloatSize::Bits80, FloatSize::Bits48) => { assert(Self::label_of(a)[0] != Self::label_of(b)[0]); },
                (FloatSize::Bits80, FloatSize::Bits64) => { assert(Self::label_of(a)[0] != Self::label_of(b)[0]); },
                (FloatSize::Bits80, FloatSize::Bits128) => { assert(Self::label_of(a).len() != Self::label_of(b).len()); },
                (FloatSize::Bits128, FloatSize::Bits16) => { assert(Self::label_of(a).len() != Self::label_of(b).len()); },
                (FloatSize::Bits128, FloatSize::Bits32) => { assert(Self::label_of(a).len() != Self::label_of(b).len()); },
                (FloatSize::Bits128, FloatSize::Bits40) => { assert(Self::label_of(a).len() != Self::label_of(b).len()); },
                (FloatSize::Bits128, FloatSize::Bits48) => { assert(Self::label_of(a).len() != Self::label_of(b).len()); },
                (FloatSize::Bits128, FloatSize::Bits64) => { assert(Self::label_of(a).len() != Self::label_of(b).len()); },
                (FloatSize::Bits128, FloatSize::Bits80) => { assert(Self::label_of(a).len() != Self::label_of(b).len()); },
                _ => {},
            }
        }
        assert forall|c: FloatSize| is_trimmed(#[trigger] Self::label_of(c)) && Self::label_of(c).len() > 0 by {
            let l = Self::label_of(c);
            assert(!is_space(l[0]) && !is_space(l[l.len() - 1]));
        }
    }
}

/// How the size of a binary encoding is given.
#[derive(Clone, Copy, Debug, PartialEq, Eq, Structural)]
pub enum BinarySizeKind {
    Fixed,
    Dynamic,
    DiscreteLookup,
}

impl Choice for BinarySizeKind {
    open spec fn label_of(c: BinarySizeKind) -> Seq<char> {
        match c {
            BinarySizeKind::Fixed => seq!['F', 'i', 'x', 'e', 'd'],
            BinarySizeKind::Dynamic => seq!['D', 'y', 'n', 'a', 'm', 'i', 'c'],
            BinarySizeKind::DiscreteLookup => seq!['D', 'i', 's', 'c', 'r', 'e', 't', 'e', 'L', 'o', 'o', 'k', 'u', 'p'],
        }
    }

    open spec fn variants() -> Seq<BinarySizeKind> {
        seq![BinarySizeKind::Fixed, BinarySizeKind::Dynamic, BinarySizeKind::DiscreteLookup]
    }

    fn variant_list() -> (r: Vec<BinarySizeKind>) {
        let r = vec![BinarySizeKind::Fixed, BinarySizeKind::Dynamic, BinarySizeKind::DiscreteLookup];
        assert(r@ =~= Self::variants());
        r
    }

    fn label_chars(self) -> (r: Vec<char>) {
        let r = match self {
            BinarySizeKind::Fixed => vec!['F', 'i', 'x', 'e', 'd'],
            BinarySizeKind::Dynamic => vec!['D', 'y', 'n', 'a', 'm', 'i', 'c'],
            BinarySizeKind::DiscreteLookup => vec!['D', 'i', 's', 'c', 'r', 'e', 't', 'e', 'L', 'o', 'o', 'k', 'u', 'p'],
        };
        assert(r@ =~= Self::label_of(self));
        r
    }

    proof fn lemma_choice() {
        assert forall|c: BinarySizeKind| Self::variants().contains(c) by {
            match c {
                BinarySizeKind::Fixed => { assert(Self::variants()[0] == c); },
                BinarySizeKind::Dynamic => { assert(Self::variants()[1] == c); },
                BinarySizeKind::DiscreteLookup => { assert(Self::variants()[2] == c); },
            }
        }
        assert forall|a: BinarySizeKind, b: BinarySizeKind| Self::label_of(a) == Self::label_of(b) implies a == b by {
            match (a, b) {
                (BinarySizeKind::Fixed, BinarySizeKind::Dynamic) => { assert(Self::label_of(a).len() != Self::label_of(b).len()); },
                (BinarySizeKind::Fixed, BinarySizeKind::DiscreteLookup) => { assert(Self::label_of(a).len() != Self::label_of(b).len()); },
                (BinarySizeKind::Dynamic, BinarySizeKind::Fixed) => { assert(Self::label_of(a).len() != Self::label_of(b).len()); },
                (BinarySizeKind::Dynamic, BinarySizeKind::DiscreteLookup) => { assert(Self::label_of(a).len() != Self::label_of(b).len()); },
                (BinarySizeKind::DiscreteLookup, BinarySizeKind::Fixed) => { assert(Self::label_of(a).len() != Self::label_of(b).len()); },
                (BinarySizeKind::DiscreteLookup, BinarySizeKind::Dynamic) => { assert(Self::label_of(a).len() != Self::label_of(b).len()); },
                _ => {},
            }
        }
        assert forall|c: BinarySizeKind| is_trimmed(#[trigger] Self::label_of(c)) && Self::label_of(c).len() > 0 by {
            let l = Self::label_of(c);
            assert(!is_space(l[0]) && !is_space(l[l.len() - 1]));
        }
    }
}

/// How the size of a string encoding is given.
#[derive(Clone, Copy, Debug, PartialEq, Eq, Structural)]
pub enum StringSizeKind {
    Fixed,
    Variable,
}

impl Choice for StringSizeKind {
    open spec fn label_of(c: StringSizeKind) -> Seq<char> {
        match c {
            StringSizeKind::Fixed => seq!['F', 'i', 'x', 'e', 'd'],
            StringSizeKind::Variable => seq!['V', 'a', 'r', 'i', 'a', 'b', 'l', 'e'],
        }
    }

    open spec fn variants() -> Seq<StringSizeKind> {
        seq![StringSizeKind::Fixed, StringSizeKind::Variable]
    }

    fn variant_list() -> (r: Vec<StringSizeKind>) {
        let r = vec![StringSizeKind::Fixed, StringSizeKind::Variable];
        assert(r@ =~= Self::variants());
        r
    }

    fn label_chars(self) -> (r: Vec<char>) {
        let r = match self {
            StringSizeKind::Fixed => vec!['F', 'i', 'x', 'e', 'd'],
            StringSizeKind::Variable => vec!['V', 'a', 'r', 'i', 'a', 'b', 'l', 'e'],
        };
        assert(r@ =~= Self::label_of(self));
        r
    }

    proof fn lemma_choice() {
        assert forall|c: StringSizeKind| Self::variants().contains(c) by {
            match c {
                StringSizeKind::Fixed => { assert(Self::variants()[0] == c); },
                StringSizeKind::Variable => { assert(Self::variants()[1] == c); },
            }
        }
        assert forall|a: StringSizeKind, b: StringSizeKind| Self::label_of(a) == Self::label_of(b) implies a == b by {
            match (a, b) {
                (StringSizeKind::Fixed, StringSizeKind::Variable) => { assert(Self::label_of(a).len() != Self::label_of(b).len()); },
                (StringSizeKind::Variable, StringSizeKind::Fixed) => { assert(Self::label_of(a).len() != Self::label_of(b).len()); },
                _ => {},
            }
        }
        assert forall|c: StringSizeKind| is_trimmed(#[trigger] Self::label_of(c)) && Self::label_of(c).len() > 0 by {
            let l = Self::label_of(c);
            assert(!is_space(l[0]) && !is_space(l[l.len() - 1]));
        }
    }
}
/// The kind of a data encoding.
#[derive(Clone, Copy, Debug, PartialEq, Eq, Structural)]
pub enum DataEncodingKind {
    Binary,
    Float,
    Integer,
    String,
}

/// The form's choice for a kind of encoding, or none.
pub open spec fn choice_of_kind(kind: Option<DataEncodingKind>) -> DataEncodingChoice {
    match kind {
        None => DataEncodingChoice::NoEncoding,
        Some(DataEncodingKind::Binary) => DataEncodingChoice::Binary,
        Some(DataEncodingKind::Float) => DataEncodingChoice::Float,
        Some(DataEncodingKind::Integer) => DataEncodingChoice::Integer,
        Some(DataEncodingKind::String) => DataEncodingChoice::String,
    }
}

/// The kind of encoding a choice stands for, or none.
pub open spec fn kind_of_choice(c: DataEncodingChoice) -> Option<DataEncodingKind> {
    match c {
        DataEncodingChoice::NoEncoding => None,
        DataEncodingChoice::Binary => Some(DataEncodingKind::Binary),
        DataEncodingChoice::Float => Some(DataEncodingKind::Float),
        DataEncodingChoice::Integer => Some(DataEncodingKind::Integer),
        DataEncodingChoice::String => Some(DataEncodingKind::String),
    }
}

impl DataEncodingChoice {
    /// The form's choice for a kind of encoding, or none.
    pub fn from_kind(kind: Option<DataEncodingKind>) -> (r: DataEncodingChoice)
        ensures
            r == choice_of_kind(kind),
    {
        match kind {
            None => DataEncodingChoice::NoEncoding,
            Some(DataEncodingKind::Binary) => DataEncodingChoice::Binary,
            Some(DataEncodingKind::Float) => DataEncodingChoice::Float,
            Some(DataEncodingKind::Integer) => DataEncodingChoice::Integer,
            Some(DataEncodingKind::String) => DataEncodingChoice::String,
        }
    }

    /// The kind of encoding the choice stands for, or none.
    pub fn kind(self) -> (r: Option<DataEncodingKind>)
        ensures
            r == kind_of_choice(self),
    {
        match self {
            DataEncodingChoice::NoEncoding => None,
            DataEncodingChoice::Binary => Some(DataEncodingKind::Binary),
            DataEncodingChoice::Float => Some(DataEncodingKind::Float),
            DataEncodingChoice::Integer => Some(DataEncodingKind::Integer),
            DataEncodingChoice::String => Some(DataEncodingKind::String),
        }
    }
}

/// Choices and kinds correspond one to one.
pub proof fn lemma_choice_kind(c: DataEncodingChoice, k: Option<DataEncodingKind>)
    ensures
        choice_of_kind(kind_of_choice(c)) == c,
        kind_of_choice(choice_of_kind(k)) == k,
{
}

/// The order of bytes of an encoded value; XTCE also allows an explicit
/// list of byte positions.
#[derive(Debug)]
pub enum ByteOrder {
    MostSignificantByteFirst,
    LeastSignificantByteFirst,
    Custom(String),
}

/// The value of a byte order.
pub enum ByteOrderView {
    MostSignificantByteFirst,
    LeastSignificantByteFirst,
    Custom(Seq<char>),
}

impl View for ByteOrder {
    type V = ByteOrderView;

    open spec fn view(&self) -> ByteOrderView {
        match self {
            ByteOrder::MostSignificantByteFirst => ByteOrderView::MostSignificantByteFirst,
            ByteOrder::LeastSignificantByteFirst => ByteOrderView::LeastSignificantByteFirst,
            ByteOrder::Custom(s) => ByteOrderView::Custom(s@),
        }
    }
}

/// The choice the form shows for a byte order: an explicit list shows as
/// the common most significant byte first.
pub open spec fn byte_order_choice(b: ByteOrderView) -> ByteOrderChoice {
    match b {
        ByteOrderView::LeastSignificantByteFirst => ByteOrderChoice::LeastSignificantFirst,
        _ => ByteOrderChoice::MostSignificantFirst,
    }
}

/// The label the form shows for a byte order.
pub fn byte_order_label(b: &ByteOrder) -> (r: String)
    ensures
        r@ == ByteOrderChoice::label_of(byte_order_choice(b@)),
{
    match b {
        ByteOrder::LeastSignificantByteFirst => label(ByteOrderChoice::LeastSignificantFirst),
        _ => label(ByteOrderChoice::MostSignificantFirst),
    }
}

/// The byte order a text names, trimmed; any other text gives the common
/// most significant byte first.
pub open spec fn byte_order_of_text(t: Seq<char>) -> ByteOrderView {
    match choice_named::<ByteOrderChoice>(trim(t)) {
        Some(ByteOrderChoice::LeastSignificantFirst) => ByteOrderView::LeastSignificantByteFirst,
        _ => ByteOrderView::MostSignificantByteFirst,
    }
}

/// The byte order a text names (see [`byte_order_of_text`]).
pub fn byte_order_from_str(value: &str) -> (r: ByteOrder)
    ensures
        r@ == byte_order_of_text(value@),
{
    match parse_label::<ByteOrderChoice>(value) {
        Some(ByteOrderChoice::LeastSignificantFirst) => ByteOrder::LeastSignificantByteFirst,
        _ => ByteOrder::MostSignificantByteFirst,
    }
}

/// The bit order a trimmed text names, if any.
pub fn bit_order_from_str(value: &str) -> (r: Option<BitOrder>)
    ensures
        r == choice_named::<BitOrder>(trim(value@)),
{
    parse_label::<BitOrder>(value)
}

/// The integer encoding a trimmed text names, if any.
pub fn integer_encoding_from_str(value: &str) -> (r: Option<IntegerEncoding>)
    ensures
        r == choice_named::<IntegerEncoding>(trim(value@)),
{
    parse_label::<IntegerEncoding>(value)
}

/// The floating point encoding a trimmed text names, if any.
pub fn float_encoding_from_str(value: &str) -> (r: Option<FloatEncoding>)
    ensures
        r == choice_named::<FloatEncoding>(trim(value@)),
{
    parse_label::<FloatEncoding>(value)
}

/// The floating point size a trimmed text names, if any.
pub fn float_size_from_str(value: &str) -> (r: Option<FloatSize>)
    ensures
        r == choice_named::<FloatSize>(trim(value@)),
{
    parse_label::<FloatSize>(value)
}

/// The character encoding a trimmed text names, if any.
pub fn string_encoding_from_str(value: &str) -> (r: Option<StringEncoding>)
    ensures
        r == choice_named::<StringEncoding>(trim(value@)),
{
    parse_label::<StringEncoding>(value)
}

// ---------------------------------------------------------------------
// Encodings
// ---------------------------------------------------------------------

/// A size in bits: a fixed number, or one given by a parameter or a
/// lookup list.
#[derive(Debug)]
pub enum IntegerValue {
    FixedValue(u64),
    DynamicValue(crate::dynamic::DynamicValue),
    DiscreteLookupList(crate::lookup::DiscreteLookupList),
}

/// The value of an [`IntegerValue`].
pub enum IntegerValueView {
    FixedValue(u64),
    DynamicValue(crate::dynamic::DynamicValueView),
    DiscreteLookupList(crate::lookup::DiscreteLookupListView),
}

impl View for IntegerValue {
    type V = IntegerValueView;

    open spec fn view(&self) -> IntegerValueView {
        match self {
            IntegerValue::FixedValue(v) => IntegerValueView::FixedValue(*v),
            IntegerValue::DynamicValue(r) => IntegerValueView::DynamicValue(r@),
            IntegerValue::DiscreteLookupList(d) => IntegerValueView::DiscreteLookupList(d@),
        }
    }
}

/// The label the form shows for a size: the number, `<dynamic>` or
/// `<lookup>`.
pub open spec fn integer_value_text(v: IntegerValueView) -> Seq<char> {
    match v {
        IntegerValueView::FixedValue(n) => int_text(n as int),
        IntegerValueView::DynamicValue(_) => seq!['<', 'd', 'y', 'n', 'a', 'm', 'i', 'c', '>'],
        IntegerValueView::DiscreteLookupList(_) => seq!['<', 'l', 'o', 'o', 'k', 'u', 'p', '>'],
    }
}

/// The label the form shows for a size (see [`integer_value_text`]).
pub fn integer_value_label(v: &IntegerValue) -> (r: String)
    ensures
        r@ == integer_value_text(v@),
{
    let t = match v {
        IntegerValue::FixedValue(n) => u64_text(*n),
        IntegerValue::DynamicValue(_) => vec!['<', 'd', 'y', 'n', 'a', 'm', 'i', 'c', '>'],
        IntegerValue::DiscreteLookupList(_) => vec!['<', 'l', 'o', 'o', 'k', 'u', 'p', '>'],
    };
    assert(t@ =~= integer_value_text(v@));
    string_of(&t)
}

/// The value of an optional list of error checks.
pub open spec fn opt_checks(o: Option<Vec<ErrorCheck>>) -> Option<Seq<ErrorCheckView>> {
    match o {
        Some(v) => Some(v@.map_values(|c: ErrorCheck| c@)),
        None => None,
    }
}

/// The value of an optional algorithm.
pub open spec fn opt_algorithm(o: Option<InputAlgorithm>) -> Option<InputAlgorithmView> {
    match o {
        Some(a) => Some(a@),
        None => None,
    }
}

/// The value of an optional calibrator.
pub open spec fn opt_calibrator(o: Option<Calibrator>) -> Option<CalibratorView> {
    match o {
        Some(c) => Some(c@),
        None => None,
    }
}

/// A binary data encoding.
#[derive(Debug)]
pub struct BinaryDataEncoding {
    pub bit_order: BitOrder,
    pub byte_order: ByteOrder,
    pub error_detect_correct: Option<Vec<ErrorCheck>>,
    pub size_in_bits: IntegerValue,
    pub from_binary_transform_algorithm: Option<InputAlgorithm>,
    pub to_binary_transform_algorithm: Option<InputAlgorithm>,
}

/// The value of a binary data encoding.
pub struct BinaryView {
    pub bit_order: BitOrder,
    pub byte_order: ByteOrderView,
    pub error_detect_correct: Option<Seq<ErrorCheckView>>,
    pub size_in_bits: IntegerValueView,
    pub from_binary_transform_algorithm: Option<InputAlgorithmView>,
    pub to_binary_transform_algorithm: Option<InputAlgorithmView>,
}

impl View for BinaryDataEncoding {
    type V = BinaryView;

    open spec fn view(&self) -> BinaryView {
        BinaryView {
            bit_order: self.bit_order,
            byte_order: self.byte_order@,
            error_detect_correct: opt_checks(self.error_detect_correct),
            size_in_bits: self.size_in_bits@,
            from_binary_transform_algorithm: opt_algorithm(self.from_binary_transform_algorithm),
            to_binary_transform_algorithm: opt_algorithm(self.to_binary_transform_algorithm),
        }
    }
}

/// A floating point data encoding; the change threshold is a decimal text.
#[derive(Debug)]
pub struct FloatDataEncoding {
    pub bit_order: BitOrder,
    pub byte_order: ByteOrder,
    pub encoding: FloatEncoding,
    pub size_in_bits: FloatSize,
    pub change_threshold: Option<String>,
    pub error_detect_correct: Option<Vec<ErrorCheck>>,
    pub default_calibrator: Option<Calibrator>,
}

/// The value of a floating point data encoding.
pub struct FloatView {
    pub bit_order: BitOrder,
    pub byte_order: ByteOrderView,
    pub encoding: FloatEncoding,
    pub size_in_bits: FloatSize,
    pub change_threshold: Option<Seq<char>>,
    pub error_detect_correct: Option<Seq<ErrorCheckView>>,
    pub default_calibrator: Option<CalibratorView>,
}

impl View for FloatDataEncoding {
    type V = FloatView;

    open spec fn view(&self) -> FloatView {
        FloatView {
            bit_order: self.bit_order,
            byte_order: self.byte_order@,
            encoding: self.encoding,
            size_in_bits: self.size_in_bits,
            change_threshold: opt_text(self.change_threshold),
            error_detect_correct: opt_checks(self.error_detect_correct),
            default_calibrator: opt_calibrator(self.default_calibrator),
        }
    }
}

/// An integer data encoding.
#[derive(Debug)]
pub struct IntegerDataEncoding {
    pub bit_order: BitOrder,
    pub byte_order: ByteOrder,
    pub encoding: IntegerEncoding,
    pub size_in_bits: u64,
    pub change_threshold: Option<u64>,
    pub error_detect_correct: Option<Vec<ErrorCheck>>,
    pub default_calibrator: Option<Calibrator>,
}

/// The value of an integer data encoding.
pub struct IntegerView {
    pub bit_order: BitOrder,
    pub byte_order: ByteOrderView,
    pub encoding: IntegerEncoding,
    pub size_in_bits: u64,
    pub change_threshold: Option<u64>,
    pub error_detect_correct: Option<Seq<ErrorCheckView>>,
    pub default_calibrator: Option<CalibratorView>,
}

impl View for IntegerDataEncoding {
    type V = IntegerView;

    open spec fn view(&self) -> IntegerView {
        IntegerView {
            bit_order: self.bit_order,
            byte_order: self.byte_order@,
            encoding: self.encoding,
            size_in_bits: self.size_in_bits,
            change_threshold: self.change_threshold,
            error_detect_correct: opt_checks(self.error_detect_correct),
            default_calibrator: opt_calibrator(self.default_calibrator),
        }
    }
}

/// The fixed size of a string, with an optional termination character
/// and size tag.
#[derive(Debug)]
pub struct SizeInBits {
    pub fixed_value: u64,
    pub termination_char: Option<String>,
    pub leading_size: Option<u64>,
}

/// The value of a fixed string size.
pub struct SizeInBitsView {
    pub fixed_value: u64,
    pub termination_char: Option<Seq<char>>,
    pub leading_size: Option<u64>,
}

impl View for SizeInBits {
    type V = SizeInBitsView;

    open spec fn view(&self) -> SizeInBitsView {
        SizeInBitsView {
            fixed_value: self.fixed_value,
            termination_char: opt_text(self.termination_char),
            leading_size: self.leading_size,
        }
    }
}

/// One item of a string encoding: a fixed size, a variable size up to a
/// maximum, or an error detection.
#[derive(Debug)]
pub enum StringContent {
    SizeInBits(SizeInBits),
    Variable(u64),
    ErrorDetectCorrect(Vec<ErrorCheck>),
}

/// The value of a [`StringContent`].
pub enum StringContentView {
    SizeInBits(SizeInBitsView),
    Variable(u64),
    ErrorDetectCorrect(Seq<ErrorCheckView>),
}

impl View for StringContent {
    type V = StringContentView;

    open spec fn view(&self) -> StringContentView {
        match self {
            StringContent::SizeInBits(s) => StringContentView::SizeInBits(s@),
            StringContent::Variable(m) => StringContentView::Variable(*m),
            StringContent::ErrorDetectCorrect(v) => StringContentView::ErrorDetectCorrect(
                v@.map_values(|c: ErrorCheck| c@),
            ),
        }
    }
}

/// The values of a list of string encoding items.
pub open spec fn string_contents_view(v: Seq<StringContent>) -> Seq<StringContentView> {
    v.map_values(|c: StringContent| c@)
}

/// A string data encoding.
#[derive(Debug)]
pub struct StringDataEncoding {
    pub bit_order: BitOrder,
    pub byte_order: ByteOrder,
    pub encoding: StringEncoding,
    pub content: Vec<StringContent>,
}

/// The value of a string data encoding.
pub struct StringView {
    pub bit_order: BitOrder,
    pub byte_order: ByteOrderView,
    pub encoding: StringEncoding,
    pub content: Seq<StringContentView>,
}

impl View for StringDataEncoding {
    type V = StringView;

    open spec fn view(&self) -> StringView {
        StringView {
            bit_order: self.bit_order,
            byte_order: self.byte_order@,
            encoding: self.encoding,
            content: string_contents_view(self.content@),
        }
    }
}

/// A data encoding.
#[derive(Debug)]
pub enum DataEncoding {
    Binary(BinaryDataEncoding),
    Float(FloatDataEncoding),
    Integer(IntegerDataEncoding),
    String(StringDataEncoding),
}

/// The value of a [`DataEncoding`].
pub enum DataEncodingView {
    Binary(BinaryView),
    Float(FloatView),
    Integer(IntegerView),
    String(StringView),
}

impl View for DataEncoding {
    type V = DataEncodingView;

    open spec fn view(&self) -> DataEncodingView {
        match self {
            DataEncoding::Binary(e) => DataEncodingView::Binary(e@),
            DataEncoding::Float(e) => DataEncodingView::Float(e@),
            DataEncoding::Integer(e) => DataEncodingView::Integer(e@),
            DataEncoding::String(e) => DataEncodingView::String(e@),
        }
    }
}

/// The kind of an encoding.
pub open spec fn kind_of_encoding(e: DataEncodingView) -> DataEncodingKind {
    match e {
        DataEncodingView::Binary(_) => DataEncodingKind::Binary,
        DataEncodingView::Float(_) => DataEncodingKind::Float,
        DataEncodingView::Integer(_) => DataEncodingKind::Integer,
        DataEncodingView::String(_) => DataEncodingKind::String,
    }
}

/// The kind of an encoding.
pub fn encoding_kind(e: &DataEncoding) -> (r: DataEncodingKind)
    ensures
        r == kind_of_encoding(e@),
{
    match e {
        DataEncoding::Binary(_) => DataEncodingKind::Binary,
        DataEncoding::Float(_) => DataEncodingKind::Float,
        DataEncoding::Integer(_) => DataEncodingKind::Integer,
        DataEncoding::String(_) => DataEncodingKind::String,
    }
}

/// How the size of a binary encoding is given; the fixed kind for any
/// other encoding.
pub open spec fn binary_size_kind_of(e: Option<DataEncodingView>) -> BinarySizeKind {
    match e {
        Some(DataEncodingView::Binary(b)) => match b.size_in_bits {
            IntegerValueView::DynamicValue(_) => BinarySizeKind::Dynamic,
            IntegerValueView::DiscreteLookupList(_) => BinarySizeKind::DiscreteLookup,
            IntegerValueView::FixedValue(_) => BinarySizeKind::Fixed,
        },
        _ => BinarySizeKind::Fixed,
    }
}

/// The value of an optional encoding.
pub open spec fn opt_encoding(o: Option<&DataEncoding>) -> Option<DataEncodingView> {
    match o {
        Some(e) => Some(e@),
        None => None,
    }
}

/// How the size of a binary encoding is given (see
/// [`binary_size_kind_of`]).
pub fn binary_size_kind(e: Option<&DataEncoding>) -> (r: BinarySizeKind)
    ensures
        r == binary_size_kind_of(opt_encoding(e)),
{
    match e {
        Some(DataEncoding::Binary(b)) => match &b.size_in_bits {
            IntegerValue::DynamicValue(_) => BinarySizeKind::Dynamic,
            IntegerValue::DiscreteLookupList(_) => BinarySizeKind::DiscreteLookup,
            IntegerValue::FixedValue(_) => BinarySizeKind::Fixed,
        },
        _ => BinarySizeKind::Fixed,
    }
}

/// Whether a string encoding item is a variable size.
pub open spec fn is_variable(c: StringContentView) -> bool {
    c is Variable
}

/// How the size of a string encoding is given: variable when it has a
/// variable size, else fixed.
pub open spec fn string_size_kind_of(e: Option<DataEncodingView>) -> StringSizeKind {
    match e {
        Some(DataEncodingView::String(s)) => if exists|i: int|
            0 <= i < s.content.len() && is_variable(#[trigger] s.content[i]) {
            StringSizeKind::Variable
        } else {
            StringSizeKind::Fixed
        },
        _ => StringSizeKind::Fixed,
    }
}

/// How the size of a string encoding is given (see
/// [`string_size_kind_of`]).
pub fn string_size_kind(e: Option<&DataEncoding>) -> (r: StringSizeKind)
    ensures
        r == string_size_kind_of(opt_encoding(e)),
{
    match e {
        Some(DataEncoding::String(s)) => {
            let mut i: usize = 0;
            assert(opt_encoding(e) == Some(DataEncodingView::String(s@)));
            while i < s.content.len()
                invariant
                    i <= s.content@.len(),
                    opt_encoding(e) == Some(DataEncodingView::String(s@)),
                    forall|j: int| 0 <= j < i ==> !is_variable(#[trigger] string_contents_view(s.content@)[j]),
                decreases s.content.len() - i,
            {
                assert(string_contents_view(s.content@)[i as int] == s.content@[i as int]@);
                match &s.content[i] {
                    StringContent::Variable(_) => {
                        assert(opt_encoding(e) == Some(DataEncodingView::String(s@)));
                        assert(is_variable(s@.content[i as int]));
                        return StringSizeKind::Variable;
                    },
                    _ => {},
                }
                i = i + 1;
            }
            StringSizeKind::Fixed
        },
        _ => StringSizeKind::Fixed,
    }
}

// ---------------------------------------------------------------------
// Default encodings
// ---------------------------------------------------------------------

/// The fixed size a new string encoding starts with: 8 bits.
pub open spec fn default_size_item() -> StringContentView {
    StringContentView::SizeInBits(
        SizeInBitsView { fixed_value: 8, termination_char: None, leading_size: None },
    )
}

/// The encoding a type gets when its kind is chosen: most significant bit
/// and byte first, with the schema's defaults (8 bits for binary and
/// integer values, unsigned; IEEE 754-1985 in 32 bits for floating point
/// values; UTF-8 for strings). A new string encoding of a parameter type
/// has a fixed size of 8 bits; that of an argument type has no size.
pub open spec fn default_encoding_of(kind: DataEncodingKind, argument: bool) -> DataEncodingView {
    match kind {
        DataEncodingKind::Binary => DataEncodingView::Binary(
            BinaryView {
                bit_order: BitOrder::MostSignificantFirst,
                byte_order: ByteOrderView::MostSignificantByteFirst,
                error_detect_correct: None,
                size_in_bits: IntegerValueView::FixedValue(8),
                from_binary_transform_algorithm: None,
                to_binary_transform_algorithm: None,
            },
        ),
        DataEncodingKind::Float => DataEncodingView::Float(
            FloatView {
                bit_order: BitOrder::MostSignificantFirst,
                byte_order: ByteOrderView::MostSignificantByteFirst,
                encoding: FloatEncoding::Ieee7541985,
                size_in_bits: FloatSize::Bits32,
                change_threshold: None,
                error_detect_correct: None,
                default_calibrator: None,
            },
        ),
        DataEncodingKind::Integer => DataEncodingView::Integer(
            IntegerView {
                bit_order: BitOrder::MostSignificantFirst,
                byte_order: ByteOrderView::MostSignificantByteFirst,
                encoding: IntegerEncoding::Unsigned,
                size_in_bits: 8,
                change_threshold: None,
                error_detect_correct: None,
                default_calibrator: None,
            },
        ),
        DataEncodingKind::String => DataEncodingView::String(
            StringView {
                bit_order: BitOrder::MostSignificantFirst,
                byte_order: ByteOrderView::MostSignificantByteFirst,
                encoding: StringEncoding::Utf8,
                content: if argument {
                    Seq::empty()
                } else {
                    seq![default_size_item()]
                },
            },
        ),
    }
}

/// The encoding a type gets when its kind is chosen (see
/// [`default_encoding_of`]).
pub fn default_encoding(kind: DataEncodingKind, argument: bool) -> (r: DataEncoding)
    ensures
        r@ == default_encoding_of(kind, argument),
{
    match kind {
        DataEncodingKind::Binary => DataEncoding::Binary(
            BinaryDataEncoding {
                bit_order: BitOrder::MostSignificantFirst,
                byte_order: ByteOrder::MostSignificantByteFirst,
                error_detect_correct: None,
                size_in_bits: IntegerValue::FixedValue(8),
                from_binary_transform_algorithm: None,
                to_binary_transform_algorithm: None,
            },
        ),
        DataEncodingKind::Float => DataEncoding::Float(
            FloatDataEncoding {
                bit_order: BitOrder::MostSignificantFirst,
                byte_order: ByteOrder::MostSignificantByteFirst,
                encoding: FloatEncoding::Ieee7541985,
                size_in_bits: FloatSize::Bits32,
                change_threshold: None,
                error_detect_correct: None,
                default_calibrator: None,
            },
        ),
        DataEncodingKind::Integer => DataEncoding::Integer(
            IntegerDataEncoding {
                bit_order: BitOrder::MostSignificantFirst,
                byte_order: ByteOrder::MostSignificantByteFirst,
                encoding: IntegerEncoding::Unsigned,
                size_in_bits: 8,
                change_threshold: None,
                error_detect_correct: None,
                default_calibrator: None,
            },
        ),
        DataEncodingKind::String => {
            let mut content: Vec<StringContent> = Vec::new();
            if !argument {
                content.push(
                    StringContent::SizeInBits(
                        SizeInBits { fixed_value: 8, termination_char: None, leading_size: None },
                    ),
                );
            }
            let s = StringDataEncoding {
                bit_order: BitOrder::MostSignificantFirst,
                byte_order: ByteOrder::MostSignificantByteFirst,
                encoding: StringEncoding::Utf8,
                content,
            };
            proof {
                if argument {
                    assert(string_contents_view(s.content@) =~= Seq::<StringContentView>::empty());
                } else {
                    assert(string_contents_view(s.content@) =~= seq![default_size_item()]);
                }
            }
            DataEncoding::String(s)
        },
    }
}

// ---------------------------------------------------------------------
// The values the form shows
// ---------------------------------------------------------------------

/// The texts of the data encoding form.
#[derive(Debug)]
pub struct DataEncodingValues {
    pub bit_order: String,
    pub byte_order: String,
    pub encoding: String,
    pub size_in_bits: String,
    pub change_threshold: String,
}

/// The texts of the data encoding form, as character sequences.
pub struct EncodingValuesView {
    pub bit_order: Seq<char>,
    pub byte_order: Seq<char>,
    pub encoding: Seq<char>,
    pub size_in_bits: Seq<char>,
    pub change_threshold: Seq<char>,
}

impl View for DataEncodingValues {
    type V = EncodingValuesView;

    open spec fn view(&self) -> EncodingValuesView {
        EncodingValuesView {
            bit_order: self.bit_order@,
            byte_order: self.byte_order@,
            encoding: self.encoding@,
            size_in_bits: self.size_in_bits@,
            change_threshold: self.change_threshold@,
        }
    }
}

/// The fixed size of a string encoding item, if it is one.
pub open spec fn fixed_size_of(c: StringContentView) -> Option<u64> {
    match c {
        StringContentView::SizeInBits(s) => Some(s.fixed_value),
        _ => None,
    }
}

/// Reads the fixed size of a string encoding item.
pub open spec fn fixed_size_reader() -> spec_fn(StringContentView) -> Option<u64> {
    |c: StringContentView| fixed_size_of(c)
}

/// The size of the first fixed size item of a string encoding.
pub open spec fn first_fixed_size(content: Seq<StringContentView>) -> Option<u64> {
    first_some(content, fixed_size_reader())
}

/// A number's text, or the empty text.
pub open spec fn number_or_empty(o: Option<u64>) -> Seq<char> {
    match o {
        Some(n) => int_text(n as int),
        None => Seq::empty(),
    }
}

/// The form's texts for the orders and the rest.
pub open spec fn encoding_values(
    bit_order: BitOrder,
    byte_order: ByteOrderView,
    encoding: Seq<char>,
    size_in_bits: Seq<char>,
    change_threshold: Seq<char>,
) -> EncodingValuesView {
    EncodingValuesView {
        bit_order: BitOrder::label_of(bit_order),
        byte_order: ByteOrderChoice::label_of(byte_order_choice(byte_order)),
        encoding,
        size_in_bits,
        change_threshold,
    }
}

/// The texts the form shows for an encoding: the labels of its orders and
/// of its encoding, its size (the number, or a label for a binary size
/// that is not fixed; for a string, the first fixed size, if any) and its
/// change threshold. Without an encoding the orders are most significant
/// first and the rest is empty.
pub open spec fn encoding_values_of(e: Option<DataEncodingView>) -> EncodingValuesView {
    match e {
        None => encoding_values(
            BitOrder::MostSignificantFirst,
            ByteOrderView::MostSignificantByteFirst,
            Seq::empty(),
            Seq::empty(),
            Seq::empty(),
        ),
        Some(DataEncodingView::Binary(b)) => encoding_values(
            b.bit_order,
            b.byte_order,
            Seq::empty(),
            integer_value_text(b.size_in_bits),
            Seq::empty(),
        ),
        Some(DataEncodingView::Float(f)) => encoding_values(
            f.bit_order,
            f.byte_order,
            FloatEncoding::label_of(f.encoding),
            FloatSize::label_of(f.size_in_bits),
            match f.change_threshold {
                Some(t) => t,
                None => Seq::empty(),
            },
        ),
        Some(DataEncodingView::Integer(i)) => encoding_values(
            i.bit_order,
            i.byte_order,
            IntegerEncoding::label_of(i.encoding),
            int_text(i.size_in_bits as int),
            number_or_empty(i.change_threshold),
        ),
        Some(DataEncodingView::String(s)) => encoding_values(
            s.bit_order,
            s.byte_order,
            StringEncoding::label_of(s.encoding),
            number_or_empty(first_fixed_size(s.content)),
            Seq::empty(),
        ),
    }
}

/// The text of an optional number, or the empty text.
fn number_text(o: Option<u64>) -> (r: String)
    ensures
        r@ == number_or_empty(o),
{
    match o {
        Some(n) => string_of(&u64_text(n)),
        None => String::new(),
    }
}

/// The first fixed size of a string encoding.
fn string_first_fixed_size(content: &Vec<StringContent>) -> (r: Option<u64>)
    ensures
        r == first_fixed_size(string_contents_view(content@)),
{
    let ghost cs = string_contents_view(content@);
    let mut i: usize = 0;
    while i < content.len()
        invariant
            cs == string_contents_view(content@),
            i <= content@.len(),
            forall|j: int| 0 <= j < i ==> (#[trigger] fixed_size_reader()(cs[j])) is None,
        decreases content.len() - i,
    {
        assert(cs[i as int] == content@[i as int]@);
        match &content[i] {
            StringContent::SizeInBits(s) => {
                proof {
                    lemma_first_of_prefix(cs, fixed_size_reader(), i as int);
                }
                return Some(s.fixed_value);
            },
            _ => {},
        }
        i = i + 1;
    }
    proof {
        lemma_first_of_prefix(cs, fixed_size_reader(), cs.len() as int);
    }
    None
}

impl DataEncodingValues {
    /// The form's texts for an encoding (see [`encoding_values_of`]).
    pub fn from_encoding(e: Option<&DataEncoding>) -> (r: DataEncodingValues)
        ensures
            r@ == encoding_values_of(opt_encoding(e)),
    {
        match e {
            None => DataEncodingValues {
                bit_order: label(BitOrder::MostSignificantFirst),
                byte_order: label(ByteOrderChoice::MostSignificantFirst),
                encoding: String::new(),
                size_in_bits: String::new(),
                change_threshold: String::new(),
            },
            Some(DataEncoding::Binary(b)) => DataEncodingValues {
                bit_order: label(b.bit_order),
                byte_order: byte_order_label(&b.byte_order),
                encoding: String::new(),
                size_in_bits: integer_value_label(&b.size_in_bits),
                change_threshold: String::new(),
            },
            Some(DataEncoding::Float(f)) => DataEncodingValues {
                bit_order: label(f.bit_order),
                byte_order: byte_order_label(&f.byte_order),
                encoding: label(f.encoding),
                size_in_bits: label(f.size_in_bits),
                change_threshold: match &f.change_threshold {
                    Some(t) => t.clone(),
                    None => String::new(),
                },
            },
            Some(DataEncoding::Integer(i)) => DataEncodingValues {
                bit_order: label(i.bit_order),
                byte_order: byte_order_label(&i.byte_order),
                encoding: label(i.encoding),
                size_in_bits: number_text(Some(i.size_in_bits)),
                change_threshold: number_text(i.change_threshold),
            },
            Some(DataEncoding::String(s)) => DataEncodingValues {
                bit_order: label(s.bit_order),
                byte_order: byte_order_label(&s.byte_order),
                encoding: label(s.encoding),
                size_in_bits: number_text(string_first_fixed_size(&s.content)),
                change_threshold: String::new(),
            },
        }
    }

    /// The form's texts for a new encoding of the kind, or for none (see
    /// [`default_encoding_of`]).
    pub fn defaults(kind: Option<DataEncodingKind>) -> (r: DataEncodingValues)
        ensures
            r@ == encoding_values_of(
                match kind {
                    Some(k) => Some(default_encoding_of(k, false)),
                    None => None,
                },
            ),
    {
        match kind {
            Some(k) => {
                let e = default_encoding(k, false);
                DataEncodingValues::from_encoding(Some(&e))
            },
            None => DataEncodingValues::from_encoding(None),
        }
    }
}


// ---------------------------------------------------------------------
// Applying the form's texts
// ---------------------------------------------------------------------

/// A value read from the form, or the current one when the text reads as
/// nothing.
pub open spec fn or_keep<T>(o: Option<T>, current: T) -> T {
    match o {
        Some(x) => x,
        None => current,
    }
}

/// A binary size after the form is applied: a fixed size takes the size
/// text when it reads as a number; a size given otherwise stays.
pub open spec fn applied_binary_size(text: Seq<char>, size: IntegerValueView) -> IntegerValueView {
    match size {
        IntegerValueView::FixedValue(_) => match parse_u64_spec(text) {
            Some(n) => IntegerValueView::FixedValue(n),
            None => size,
        },
        _ => size,
    }
}

/// Whether `i` is the index of the first fixed size item.
pub open spec fn is_first_fixed(c: Seq<StringContentView>, i: int) -> bool {
    &&& 0 <= i < c.len()
    &&& c[i] is SizeInBits
    &&& forall|j: int| 0 <= j < i ==> !(#[trigger] c[j] is SizeInBits)
}

/// A fixed size item with another size.
pub open spec fn resized(c: StringContentView, n: u64) -> StringContentView {
    match c {
        StringContentView::SizeInBits(s) => StringContentView::SizeInBits(
            SizeInBitsView {
                fixed_value: n,
                termination_char: s.termination_char,
                leading_size: s.leading_size,
            },
        ),
        _ => c,
    }
}

/// The string encoding items with the first fixed size set to `n`; the
/// items unchanged when there is no fixed size.
pub open spec fn with_first_fixed_size(c: Seq<StringContentView>, n: u64) -> Seq<StringContentView> {
    if exists|i: int| is_first_fixed(c, i) {
        let i = choose|i: int| is_first_fixed(c, i);
        c.update(i, resized(c[i], n))
    } else {
        c
    }
}

/// The encoding after the form's texts are applied. The bit order, the
/// encoding and a floating point size take their trimmed text when it
/// names one and stay otherwise; the byte order always takes its text (see
/// [`byte_order_of_text`]). A size takes its text when it reads as a
/// number: for a binary encoding only a fixed size, for a string encoding
/// its first fixed size. A change threshold is its text when the text
/// reads as a number, else none. Everything else stays.
pub open spec fn applied_encoding(v: EncodingValuesView, e: DataEncodingView) -> DataEncodingView {
    let bit_order = |b: BitOrder| or_keep(choice_named::<BitOrder>(trim(v.bit_order)), b);
    let byte_order = byte_order_of_text(v.byte_order);
    match e {
        DataEncodingView::Binary(b) => DataEncodingView::Binary(
            BinaryView {
                bit_order: bit_order(b.bit_order),
                byte_order,
                error_detect_correct: b.error_detect_correct,
                size_in_bits: applied_binary_size(v.size_in_bits, b.size_in_bits),
                from_binary_transform_algorithm: b.from_binary_transform_algorithm,
                to_binary_transform_algorithm: b.to_binary_transform_algorithm,
            },
        ),
        DataEncodingView::Float(f) => DataEncodingView::Float(
            FloatView {
                bit_order: bit_order(f.bit_order),
                byte_order,
                encoding: or_keep(choice_named::<FloatEncoding>(trim(v.encoding)), f.encoding),
                size_in_bits: or_keep(choice_named::<FloatSize>(trim(v.size_in_bits)), f.size_in_bits),
                change_threshold: if is_float_text(v.change_threshold) {
                    Some(v.change_threshold)
                } else {
                    None
                },
                error_detect_correct: f.error_detect_correct,
                default_calibrator: f.default_calibrator,
            },
        ),
        DataEncodingView::Integer(i) => DataEncodingView::Integer(
            IntegerView {
                bit_order: bit_order(i.bit_order),
                byte_order,
                encoding: or_keep(choice_named::<IntegerEncoding>(trim(v.encoding)), i.encoding),
                size_in_bits: or_keep(parse_u64_spec(v.size_in_bits), i.size_in_bits),
                change_threshold: parse_u64_spec(v.change_threshold),
                error_detect_correct: i.error_detect_correct,
                default_calibrator: i.default_calibrator,
            },
        ),
        DataEncodingView::String(s) => DataEncodingView::String(
            StringView {
                bit_order: bit_order(s.bit_order),
                byte_order,
                encoding: or_keep(choice_named::<StringEncoding>(trim(v.encoding)), s.encoding),
                content: match parse_u64_spec(v.size_in_bits) {
                    Some(n) => with_first_fixed_size(s.content, n),
                    None => s.content,
                },
            },
        ),
    }
}

/// Sets the first fixed size of a string encoding (see
/// [`with_first_fixed_size`]).
fn set_first_fixed_size(content: &mut Vec<StringContent>, n: u64)
    ensures
        string_contents_view(final(content)@) == with_first_fixed_size(
            string_contents_view(old(content)@),
            n,
        ),
{
    let ghost cs = string_contents_view(content@);
    let mut i: usize = 0;
    while i < content.len()
        invariant
            cs == string_contents_view(content@),
            cs == string_contents_view(old(content)@),
            i <= content@.len(),
            forall|j: int| 0 <= j < i ==> !(#[trigger] cs[j] is SizeInBits),
        decreases content.len() - i,
    {
        assert(cs[i as int] == content@[i as int]@);
        let is_fixed = match &content[i] {
            StringContent::SizeInBits(_) => true,
            _ => false,
        };
        if is_fixed {
            assert(is_first_fixed(cs, i as int));
            let item = content.remove(i);
            let new_item = match item {
                StringContent::SizeInBits(s) => StringContent::SizeInBits(
                    SizeInBits {
                        fixed_value: n,
                        termination_char: s.termination_char,
                        leading_size: s.leading_size,
                    },
                ),
                other => other,
            };
            content.insert(i, new_item);
            proof {
                let k = choose|k: int| is_first_fixed(cs, k);
                if k < i {
                    assert(!(cs[k] is SizeInBits));
                } else if k > i {
                    assert(!(cs[i as int] is SizeInBits));
                }
                assert(string_contents_view(content@) =~= cs.update(
                    i as int,
                    resized(cs[i as int], n),
                ));
            }
            return;
        }
        i = i + 1;
    }
    proof {
        if exists|k: int| is_first_fixed(cs, k) {
            let k = choose|k: int| is_first_fixed(cs, k);
            assert(!(cs[k] is SizeInBits));
        }
    }
}

impl DataEncodingValues {
    /// Applies the form's texts to an encoding (see [`applied_encoding`]).
    pub fn apply_to(&self, encoding: &mut DataEncoding)
        ensures
            final(encoding)@ == applied_encoding(self@, old(encoding)@),
    {
        let values = self;
        let bit_order = parse_label::<BitOrder>(values.bit_order.as_str());
        let byte_order = byte_order_from_str(values.byte_order.as_str());
        match encoding {
            DataEncoding::Binary(b) => {
                if let Some(o) = bit_order {
                    b.bit_order = o;
                }
                b.byte_order = byte_order;
                let size = parse_u64(&chars_of(values.size_in_bits.as_str()));
                match (&b.size_in_bits, size) {
                    (IntegerValue::FixedValue(_), Some(n)) => {
                        b.size_in_bits = IntegerValue::FixedValue(n);
                    },
                    _ => {},
                }
            },
            DataEncoding::Float(f) => {
                if let Some(o) = bit_order {
                    f.bit_order = o;
                }
                f.byte_order = byte_order;
                if let Some(x) = parse_label::<FloatEncoding>(values.encoding.as_str()) {
                    f.encoding = x;
                }
                if let Some(x) = parse_label::<FloatSize>(values.size_in_bits.as_str()) {
                    f.size_in_bits = x;
                }
                f.change_threshold = if is_float_chars(&chars_of(values.change_threshold.as_str())) {
                    Some(values.change_threshold.clone())
                } else {
                    None
                };
            },
            DataEncoding::Integer(i) => {
                if let Some(o) = bit_order {
                    i.bit_order = o;
                }
                i.byte_order = byte_order;
                if let Some(x) = parse_label::<IntegerEncoding>(values.encoding.as_str()) {
                    i.encoding = x;
                }
                if let Some(n) = parse_u64(&chars_of(values.size_in_bits.as_str())) {
                    i.size_in_bits = n;
                }
                i.change_threshold = parse_u64(&chars_of(values.change_threshold.as_str()));
            },
            DataEncoding::String(s) => {
                if let Some(o) = bit_order {
                    s.bit_order = o;
                }
                s.byte_order = byte_order;
                if let Some(x) = parse_label::<StringEncoding>(values.encoding.as_str()) {
                    s.encoding = x;
                }
                if let Some(n) = parse_u64(&chars_of(values.size_in_bits.as_str())) {
                    set_first_fixed_size(&mut s.content, n);
                }
            },
        }
    }
}


// ---------------------------------------------------------------------
// The size and the error detection of a string encoding
// ---------------------------------------------------------------------

/// Whether `i` counts the error detections at the front of the items.
pub open spec fn is_leading_error_count(c: Seq<StringContentView>, i: int) -> bool {
    &&& 0 <= i <= c.len()
    &&& forall|j: int| 0 <= j < i ==> (#[trigger] c[j] is ErrorDetectCorrect)
    &&& (i < c.len() ==> !(c[i] is ErrorDetectCorrect))
}

/// The number of error detections at the front of the items: where a new
/// size goes.
pub open spec fn leading_errors(c: Seq<StringContentView>) -> int {
    choose|i: int| is_leading_error_count(c, i)
}

/// There is one count of leading error detections.
proof fn lemma_leading_errors(c: Seq<StringContentView>, i: int)
    requires
        is_leading_error_count(c, i),
    ensures
        leading_errors(c) == i,
{
    let k = leading_errors(c);
    assert(is_leading_error_count(c, k));
    if k < i {
        assert(c[k] is ErrorDetectCorrect);
    } else if k > i {
        assert(c[i] is ErrorDetectCorrect);
    }
}

/// The number of error detections at the front of the items.
fn leading_error_count(content: &Vec<StringContent>) -> (r: usize)
    ensures
        r == leading_errors(string_contents_view(content@)),
        r <= content@.len(),
{
    let ghost cs = string_contents_view(content@);
    let mut i: usize = 0;
    while i < content.len()
        invariant
            cs == string_contents_view(content@),
            i <= content@.len(),
            forall|j: int| 0 <= j < i ==> (#[trigger] cs[j] is ErrorDetectCorrect),
        decreases content.len() - i,
    {
        assert(cs[i as int] == content@[i as int]@);
        let is_error = match &content[i] {
            StringContent::ErrorDetectCorrect(_) => true,
            _ => false,
        };
        if !is_error {
            proof {
                lemma_leading_errors(cs, i as int);
            }
            return i;
        }
        i = i + 1;
    }
    proof {
        lemma_leading_errors(cs, i as int);
    }
    i
}

/// Keeps an item unless it is a variable size, or (when `drop_fixed`) a
/// fixed size.
pub open spec fn keep_size_item(c: StringContentView, drop_fixed: bool) -> Option<StringContentView> {
    if c is Variable || (drop_fixed && c is SizeInBits) {
        None
    } else {
        Some(c)
    }
}

/// Reads the items to keep (see [`keep_size_item`]).
pub open spec fn size_item_filter(drop_fixed: bool) -> spec_fn(StringContentView) -> Option<StringContentView> {
    |c: StringContentView| keep_size_item(c, drop_fixed)
}

/// Removes the variable sizes, and the fixed sizes when `drop_fixed`.
fn retain_size_items(content: &mut Vec<StringContent>, drop_fixed: bool)
    ensures
        string_contents_view(final(content)@) == filter_map(
            string_contents_view(old(content)@),
            size_item_filter(drop_fixed),
        ),
{
    let ghost cs = string_contents_view(content@);
    let ghost f = size_item_filter(drop_fixed);
    let mut items: Vec<StringContent> = Vec::new();
    std::mem::swap(&mut items, content);
    assert(string_contents_view(content@) =~= Seq::<StringContentView>::empty());
    assert(filter_map(cs, f) =~= string_contents_view(content@) + filter_map(
        string_contents_view(items@),
        f,
    ));
    while items.len() > 0
        invariant
            filter_map(cs, f) == string_contents_view(content@) + filter_map(
                string_contents_view(items@),
                f,
            ),
            f == size_item_filter(drop_fixed),
        decreases items.len(),
    {
        let ghost before = string_contents_view(items@);
        let item = items.remove(0);
        proof {
            let rest = string_contents_view(items@);
            assert(before =~= seq![item@] + rest);
            lemma_filter_map_concat(seq![item@], rest, f);
            lemma_filter_map_single(item@, f);
        }
        let keep = match &item {
            StringContent::Variable(_) => false,
            StringContent::SizeInBits(_) => !drop_fixed,
            _ => true,
        };
        let ghost out = string_contents_view(content@);
        if keep {
            content.push(item);
            assert(string_contents_view(content@) =~= out + seq![item@]);
        }
    }
    assert(filter_map(string_contents_view(items@), f) =~= Seq::<StringContentView>::empty());
    assert(string_contents_view(content@) + Seq::<StringContentView>::empty() =~= string_contents_view(content@));
}

/// Whether an item is a fixed size.
pub open spec fn has_fixed_size(c: Seq<StringContentView>) -> bool {
    exists|i: int| 0 <= i < c.len() && (#[trigger] c[i] is SizeInBits)
}

/// A fixed size with no termination character and no size tag.
pub open spec fn plain_fixed_size(n: u64) -> StringContentView {
    StringContentView::SizeInBits(
        SizeInBitsView { fixed_value: n, termination_char: None, leading_size: None },
    )
}

/// The items of a string encoding after the form's size is applied. A
/// fixed size removes any variable size and, when there is no fixed size,
/// adds one of the trimmed size text (0 when it reads as no number) after
/// the leading error detections. A variable size removes every size and
/// adds the variable size there.
pub open spec fn with_string_size(
    c: Seq<StringContentView>,
    kind: StringSizeKind,
    fixed_size: Seq<char>,
    variable: u64,
) -> Seq<StringContentView> {
    match kind {
        StringSizeKind::Fixed => {
            let kept = filter_map(c, size_item_filter(false));
            if has_fixed_size(kept) {
                kept
            } else {
                kept.insert(
                    leading_errors(kept),
                    plain_fixed_size(or_keep(parse_u64_spec(trim(fixed_size)), 0)),
                )
            }
        },
        StringSizeKind::Variable => {
            let kept = filter_map(c, size_item_filter(true));
            kept.insert(leading_errors(kept), StringContentView::Variable(variable))
        },
    }
}

/// Applies the form's size to the items of a string encoding (see
/// [`with_string_size`]).
pub fn apply_string_size(
    content: &mut Vec<StringContent>,
    kind: StringSizeKind,
    fixed_size: &str,
    variable: u64,
)
    ensures
        string_contents_view(final(content)@) == with_string_size(
            string_contents_view(old(content)@),
            kind,
            fixed_size@,
            variable,
        ),
{
    match kind {
        StringSizeKind::Fixed => {
            retain_size_items(content, false);
            let ghost kept = string_contents_view(content@);
            let mut found = false;
            let mut i: usize = 0;
            while i < content.len()
                invariant
                    kept == string_contents_view(content@),
                    i <= content@.len(),
                    found <==> exists|j: int| 0 <= j < i && (#[trigger] kept[j] is SizeInBits),
                decreases content.len() - i,
            {
                assert(kept[i as int] == content@[i as int]@);
                match &content[i] {
                    StringContent::SizeInBits(_) => {
                        found = true;
                    },
                    _ => {},
                }
                i = i + 1;
            }
            if !found {
                let n = match parse_u64(&crate::text::trim_chars(&chars_of(fixed_size))) {
                    Some(n) => n,
                    None => 0,
                };
                let at = leading_error_count(content);
                content.insert(
                    at,
                    StringContent::SizeInBits(
                        SizeInBits { fixed_value: n, termination_char: None, leading_size: None },
                    ),
                );
                assert(string_contents_view(content@) =~= kept.insert(
                    at as int,
                    plain_fixed_size(n),
                ));
            }
        },
        StringSizeKind::Variable => {
            retain_size_items(content, true);
            let ghost kept = string_contents_view(content@);
            let at = leading_error_count(content);
            content.insert(at, StringContent::Variable(variable));
            assert(string_contents_view(content@) =~= kept.insert(
                at as int,
                StringContentView::Variable(variable),
            ));
        },
    }
}


/// The error detection of a string encoding item, if it is one.
pub open spec fn error_of_item(c: StringContentView) -> Option<Seq<ErrorCheckView>> {
    match c {
        StringContentView::ErrorDetectCorrect(e) => Some(e),
        _ => None,
    }
}

/// Reads the error detection of a string encoding item.
pub open spec fn error_reader() -> spec_fn(StringContentView) -> Option<Seq<ErrorCheckView>> {
    |c: StringContentView| error_of_item(c)
}

/// The error detection of an encoding: its own, or for a string encoding
/// that of its first error detection item.
pub open spec fn error_of(e: Option<DataEncodingView>) -> Option<Seq<ErrorCheckView>> {
    match e {
        Some(DataEncodingView::Binary(b)) => b.error_detect_correct,
        Some(DataEncodingView::Float(f)) => f.error_detect_correct,
        Some(DataEncodingView::Integer(i)) => i.error_detect_correct,
        Some(DataEncodingView::String(s)) => first_some(s.content, error_reader()),
        None => None,
    }
}

/// The value of a borrowed list of error checks.
pub open spec fn checks_ref(o: Option<&Vec<ErrorCheck>>) -> Option<Seq<ErrorCheckView>> {
    match o {
        Some(v) => Some(v@.map_values(|c: ErrorCheck| c@)),
        None => None,
    }
}

/// The error detection of an encoding (see [`error_of`]).
pub fn data_error_detect_correct(e: Option<&DataEncoding>) -> (r: Option<&Vec<ErrorCheck>>)
    ensures
        checks_ref(r) == error_of(opt_encoding(e)),
{
    match e {
        Some(DataEncoding::Binary(b)) => b.error_detect_correct.as_ref(),
        Some(DataEncoding::Float(f)) => f.error_detect_correct.as_ref(),
        Some(DataEncoding::Integer(i)) => i.error_detect_correct.as_ref(),
        Some(DataEncoding::String(s)) => {
            let ghost cs = string_contents_view(s.content@);
            let mut i: usize = 0;
            assert(opt_encoding(e) == Some(DataEncodingView::String(s@)));
            while i < s.content.len()
                invariant
                    cs == string_contents_view(s.content@),
                    opt_encoding(e) == Some(DataEncodingView::String(s@)),
                    i <= s.content@.len(),
                    forall|j: int| 0 <= j < i ==> (#[trigger] error_reader()(cs[j])) is None,
                decreases s.content.len() - i,
            {
                assert(cs[i as int] == s.content@[i as int]@);
                match &s.content[i] {
                    StringContent::ErrorDetectCorrect(v) => {
                        proof {
                            assert(error_reader()(cs[i as int]) == Some(v@.map_values(|c: ErrorCheck| c@)));
                            lemma_first_of_prefix(cs, error_reader(), i as int);
                        }
                        return Some(v);
                    },
                    _ => {},
                }
                i = i + 1;
            }
            proof {
                lemma_first_of_prefix(cs, error_reader(), cs.len() as int);
            }
            None
        },
        None => None,
    }
}

/// Whether `i` is the index of the first error detection item.
pub open spec fn is_first_error(c: Seq<StringContentView>, i: int) -> bool {
    &&& 0 <= i < c.len()
    &&& c[i] is ErrorDetectCorrect
    &&& forall|j: int| 0 <= j < i ==> !(#[trigger] c[j] is ErrorDetectCorrect)
}

/// The items of a string encoding with the error detection set: the first
/// error detection item is replaced, or removed when there is none to
/// set; a new one goes first.
pub open spec fn with_error(c: Seq<StringContentView>, e: Option<Seq<ErrorCheckView>>) -> Seq<
    StringContentView,
> {
    if exists|i: int| is_first_error(c, i) {
        let i = choose|i: int| is_first_error(c, i);
        match e {
            Some(x) => c.update(i, StringContentView::ErrorDetectCorrect(x)),
            None => c.remove(i),
        }
    } else {
        match e {
            Some(x) => c.insert(0, StringContentView::ErrorDetectCorrect(x)),
            None => c,
        }
    }
}

/// An encoding with the error detection set (see [`with_error`] for a
/// string encoding).
pub open spec fn with_encoding_error(e: DataEncodingView, x: Option<Seq<ErrorCheckView>>) -> DataEncodingView {
    match e {
        DataEncodingView::Binary(b) => DataEncodingView::Binary(
            BinaryView {
                bit_order: b.bit_order,
                byte_order: b.byte_order,
                error_detect_correct: x,
                size_in_bits: b.size_in_bits,
                from_binary_transform_algorithm: b.from_binary_transform_algorithm,
                to_binary_transform_algorithm: b.to_binary_transform_algorithm,
            },
        ),
        DataEncodingView::Float(f) => DataEncodingView::Float(
            FloatView {
                bit_order: f.bit_order,
                byte_order: f.byte_order,
                encoding: f.encoding,
                size_in_bits: f.size_in_bits,
                change_threshold: f.change_threshold,
                error_detect_correct: x,
                default_calibrator: f.default_calibrator,
            },
        ),
        DataEncodingView::Integer(i) => DataEncodingView::Integer(
            IntegerView {
                bit_order: i.bit_order,
                byte_order: i.byte_order,
                encoding: i.encoding,
                size_in_bits: i.size_in_bits,
                change_threshold: i.change_threshold,
                error_detect_correct: x,
                default_calibrator: i.default_calibrator,
            },
        ),
        DataEncodingView::String(s) => DataEncodingView::String(
            StringView {
                bit_order: s.bit_order,
                byte_order: s.byte_order,
                encoding: s.encoding,
                content: with_error(s.content, x),
            },
        ),
    }
}

/// Sets the error detection of the items of a string encoding (see
/// [`with_error`]).
fn set_string_error(content: &mut Vec<StringContent>, error: Option<Vec<ErrorCheck>>)
    ensures
        string_contents_view(final(content)@) == with_error(
            string_contents_view(old(content)@),
            opt_checks(error),
        ),
{
    let ghost cs = string_contents_view(content@);
    let mut i: usize = 0;
    let mut found = false;
    while i < content.len() && !found
        invariant
            cs == string_contents_view(content@),
            cs == string_contents_view(old(content)@),
            i <= content@.len(),
            forall|j: int| 0 <= j < i ==> !(#[trigger] cs[j] is ErrorDetectCorrect),
            found ==> is_first_error(cs, i as int),
        decreases content.len() - i + (if found { 0int } else { 1int }),
    {
        assert(cs[i as int] == content@[i as int]@);
        match &content[i] {
            StringContent::ErrorDetectCorrect(_) => {
                found = true;
            },
            _ => {
                i = i + 1;
            },
        }
    }
    if found {
        proof {
            let k = choose|k: int| is_first_error(cs, k);
            if k < i {
                assert(!(cs[k] is ErrorDetectCorrect));
            } else if k > i {
                assert(!(cs[i as int] is ErrorDetectCorrect));
            }
        }
        content.remove(i);
        match error {
            Some(x) => {
                content.insert(i, StringContent::ErrorDetectCorrect(x));
                assert(string_contents_view(content@) =~= with_error(cs, opt_checks(error)));
            },
            None => {
                assert(string_contents_view(content@) =~= with_error(cs, opt_checks(error)));
            },
        }
    } else {
        proof {
            if exists|k: int| is_first_error(cs, k) {
                let k = choose|k: int| is_first_error(cs, k);
                assert(!(cs[k] is ErrorDetectCorrect));
            }
        }
        match error {
            Some(x) => {
                content.insert(0, StringContent::ErrorDetectCorrect(x));
                assert(string_contents_view(content@) =~= with_error(cs, opt_checks(error)));
            },
            None => {},
        }
    }
}

/// Sets the error detection of an encoding (see [`with_encoding_error`]).
pub fn apply_data_error_detect_correct(encoding: &mut DataEncoding, error: Option<Vec<ErrorCheck>>)
    ensures
        final(encoding)@ == with_encoding_error(old(encoding)@, opt_checks(error)),
{
    match encoding {
        DataEncoding::Binary(b) => {
            b.error_detect_correct = error;
        },
        DataEncoding::Float(f) => {
            f.error_detect_correct = error;
        },
        DataEncoding::Integer(i) => {
            i.error_detect_correct = error;
        },
        DataEncoding::String(s) => {
            set_string_error(&mut s.content, error);
        },
    }
}


// ---------------------------------------------------------------------
// Choosing the kind of a type's data encoding
// ---------------------------------------------------------------------

/// One item of the content of a parameter or argument type, as far as the
/// choice of its data encoding goes: a description, alias set, ancillary
/// data set or unit set (which stand before the encoding), the encoding,
/// or any other item.
#[derive(Debug)]
pub enum TypeItem<T> {
    Leading(T),
    Encoding(DataEncoding),
    Other(T),
}

/// The value of a [`TypeItem`].
pub enum TypeItemView<T> {
    Leading(T),
    Encoding(DataEncodingView),
    Other(T),
}

impl<T: View> View for TypeItem<T> {
    type V = TypeItemView<T::V>;

    open spec fn view(&self) -> TypeItemView<T::V> {
        match self {
            TypeItem::Leading(x) => TypeItemView::Leading(x@),
            TypeItem::Encoding(e) => TypeItemView::Encoding(e@),
            TypeItem::Other(x) => TypeItemView::Other(x@),
        }
    }
}

/// The values of a type's items.
pub open spec fn items_view<T: View>(v: Seq<TypeItem<T>>) -> Seq<TypeItemView<T::V>> {
    v.map_values(|x: TypeItem<T>| x@)
}

/// The kind of an item that is an encoding.
pub open spec fn item_kind<T>(x: TypeItemView<T>) -> Option<DataEncodingKind> {
    match x {
        TypeItemView::Encoding(e) => Some(kind_of_encoding(e)),
        _ => None,
    }
}

/// Reads the kind of an item that is an encoding.
pub open spec fn kind_reader<T>() -> spec_fn(TypeItemView<T>) -> Option<DataEncodingKind> {
    |x: TypeItemView<T>| item_kind(x)
}

/// The kind of a type's encoding: that of its first encoding item.
pub open spec fn current_encoding_kind<T>(c: Seq<TypeItemView<T>>) -> Option<DataEncodingKind> {
    first_some(c, kind_reader())
}

/// Keeps an item that is not an encoding.
pub open spec fn keep_non_encoding<T>(x: TypeItemView<T>) -> Option<TypeItemView<T>> {
    if x is Encoding {
        None
    } else {
        Some(x)
    }
}

/// Reads the items that are not encodings.
pub open spec fn non_encoding_filter<T>() -> spec_fn(TypeItemView<T>) -> Option<TypeItemView<T>> {
    |x: TypeItemView<T>| keep_non_encoding(x)
}

/// A type's items without its encodings.
pub open spec fn without_encoding<T>(c: Seq<TypeItemView<T>>) -> Seq<TypeItemView<T>> {
    filter_map(c, non_encoding_filter())
}

/// The number of leading items at the front: where an encoding goes.
pub open spec fn leading_items<T>(c: Seq<TypeItemView<T>>) -> nat
    decreases c.len(),
{
    if c.len() > 0 && c[0] is Leading {
        1 + leading_items(c.drop_first())
    } else {
        0
    }
}

/// Whether `i` counts the leading items at the front.
pub open spec fn is_leading_count<T>(c: Seq<TypeItemView<T>>, i: int) -> bool {
    &&& 0 <= i <= c.len()
    &&& forall|j: int| 0 <= j < i ==> (#[trigger] c[j] is Leading)
    &&& (i < c.len() ==> !(c[i] is Leading))
}

/// [`leading_items`] counts the leading items, and is the only such count.
proof fn lemma_leading_items<T>(c: Seq<TypeItemView<T>>, i: int)
    ensures
        is_leading_count(c, leading_items(c) as int),
        is_leading_count(c, i) ==> i == leading_items(c),
    decreases c.len(),
{
    if c.len() > 0 && c[0] is Leading {
        let d = c.drop_first();
        lemma_leading_items(d, i - 1);
        let m = leading_items(d) as int;
        assert forall|j: int| 0 <= j < m + 1 implies (#[trigger] c[j] is Leading) by {
            if j > 0 {
                assert(c[j] == d[j - 1]);
            }
        }
        if m + 1 < c.len() {
            assert(c[m + 1] == d[m]);
        }
        if is_leading_count(c, i) {
            assert(i > 0);
            assert forall|j: int| 0 <= j < i - 1 implies (#[trigger] d[j] is Leading) by {
                assert(c[j + 1] is Leading);
            }
            if i - 1 < d.len() {
                assert(c[i] == d[i - 1]);
            }
            assert(is_leading_count(d, i - 1));
        }
    } else {
        if is_leading_count(c, i) && i > 0 {
            assert(c[0] is Leading);
        }
    }
}

/// A type's items after its encoding kind is chosen. When the kind is that
/// of the current encoding nothing changes. Otherwise every encoding is
/// removed and, for a kind, a new encoding of it (see
/// [`default_encoding_of`]) goes after the leading items.
pub open spec fn with_encoding_kind<T>(
    c: Seq<TypeItemView<T>>,
    kind: Option<DataEncodingKind>,
    argument: bool,
) -> Seq<TypeItemView<T>> {
    if current_encoding_kind(c) == kind {
        c
    } else {
        let rest = without_encoding(c);
        match kind {
            None => rest,
            Some(k) => rest.insert(
                leading_items(rest) as int,
                TypeItemView::Encoding(default_encoding_of(k, argument)),
            ),
        }
    }
}

/// Whether two optional kinds are the same.
fn same_kind(a: Option<DataEncodingKind>, b: Option<DataEncodingKind>) -> (r: bool)
    ensures
        r == (a == b),
{
    match (a, b) {
        (None, None) => true,
        (Some(x), Some(y)) => x == y,
        _ => false,
    }
}

/// The kind of a type's encoding (see [`current_encoding_kind`]).
pub fn encoding_kind_of_items<T: View>(content: &Vec<TypeItem<T>>) -> (r: Option<DataEncodingKind>)
    ensures
        r == current_encoding_kind(items_view(content@)),
{
    let ghost cs = items_view(content@);
    let mut i: usize = 0;
    while i < content.len()
        invariant
            cs == items_view(content@),
            i <= content@.len(),
            forall|j: int| 0 <= j < i ==> (#[trigger] kind_reader()(cs[j])) is None,
        decreases content.len() - i,
    {
        assert(cs[i as int] == content@[i as int]@);
        match &content[i] {
            TypeItem::Encoding(e) => {
                proof {
                    lemma_first_of_prefix(cs, kind_reader(), i as int);
                }
                return Some(encoding_kind(e));
            },
            _ => {},
        }
        i = i + 1;
    }
    proof {
        lemma_first_of_prefix(cs, kind_reader(), cs.len() as int);
    }
    None
}

/// Removes a type's encodings.
fn remove_encodings<T: View>(content: &mut Vec<TypeItem<T>>)
    ensures
        items_view(final(content)@) == without_encoding(items_view(old(content)@)),
{
    let ghost cs = items_view(content@);
    let ghost f = non_encoding_filter::<T::V>();
    let mut items: Vec<TypeItem<T>> = Vec::new();
    std::mem::swap(&mut items, content);
    assert(items_view(content@) =~= Seq::<TypeItemView<T::V>>::empty());
    assert(filter_map(cs, f) =~= items_view(content@) + filter_map(items_view(items@), f));
    while items.len() > 0
        invariant
            filter_map(cs, f) == items_view(content@) + filter_map(items_view(items@), f),
            f == non_encoding_filter::<T::V>(),
        decreases items.len(),
    {
        let ghost before = items_view(items@);
        let item = items.remove(0);
        proof {
            let rest = items_view(items@);
            assert(before =~= seq![item@] + rest);
            lemma_filter_map_concat(seq![item@], rest, f);
            lemma_filter_map_single(item@, f);
        }
        let keep = match &item {
            TypeItem::Encoding(_) => false,
            _ => true,
        };
        let ghost out = items_view(content@);
        if keep {
            content.push(item);
            assert(items_view(content@) =~= out + seq![item@]);
        }
    }
    assert(filter_map(items_view(items@), f) =~= Seq::<TypeItemView<T::V>>::empty());
    assert(items_view(content@) + Seq::<TypeItemView<T::V>>::empty() =~= items_view(content@));
}

/// The number of leading items at the front (see [`leading_items`]).
fn leading_item_count<T: View>(content: &Vec<TypeItem<T>>) -> (r: usize)
    ensures
        r == leading_items(items_view(content@)),
        r <= content@.len(),
{
    let ghost cs = items_view(content@);
    let mut i: usize = 0;
    while i < content.len()
        invariant
            cs == items_view(content@),
            i <= content@.len(),
            forall|j: int| 0 <= j < i ==> (#[trigger] cs[j] is Leading),
        decreases content.len() - i,
    {
        assert(cs[i as int] == content@[i as int]@);
        let leading = match &content[i] {
            TypeItem::Leading(_) => true,
            _ => false,
        };
        if !leading {
            proof {
                lemma_leading_items(cs, i as int);
            }
            return i;
        }
        i = i + 1;
    }
    proof {
        lemma_leading_items(cs, i as int);
    }
    i
}

/// Chooses the kind of a type's encoding (see [`with_encoding_kind`]).
fn set_kind<T: View>(content: &mut Vec<TypeItem<T>>, kind: Option<DataEncodingKind>, argument: bool)
    ensures
        items_view(final(content)@) == with_encoding_kind(items_view(old(content)@), kind, argument),
{
    let current = encoding_kind_of_items(content);
    if !same_kind(current, kind) {
        remove_encodings(content);
        match kind {
            Some(k) => {
                let ghost rest = items_view(content@);
                let at = leading_item_count(content);
                let e = default_encoding(k, argument);
                content.insert(at, TypeItem::Encoding(e));
                assert(items_view(content@) =~= rest.insert(
                    at as int,
                    TypeItemView::Encoding(default_encoding_of(k, argument)),
                ));
            },
            None => {},
        }
    }
}

/// Chooses the kind of a parameter type's encoding, or none (see
/// [`with_encoding_kind`]).
pub fn set_data_encoding_kind<T: View>(content: &mut Vec<TypeItem<T>>, kind: Option<DataEncodingKind>)
    ensures
        items_view(final(content)@) == with_encoding_kind(items_view(old(content)@), kind, false),
{
    set_kind(content, kind, false);
}

/// Chooses the kind of an argument type's encoding, or none (see
/// [`with_encoding_kind`]).
pub fn set_argument_data_encoding_kind<T: View>(
    content: &mut Vec<TypeItem<T>>,
    kind: Option<DataEncodingKind>,
)
    ensures
        items_view(final(content)@) == with_encoding_kind(items_view(old(content)@), kind, true),
{
    set_kind(content, kind, true);
}


/// No item of a type's items without encodings is an encoding.
proof fn lemma_without_encoding_clean<T>(c: Seq<TypeItemView<T>>)
    ensures
        forall|j: int|
            0 <= j < without_encoding(c).len() ==> !(#[trigger] without_encoding(c)[j] is Encoding),
        without_encoding(without_encoding(c)) == without_encoding(c),
    decreases c.len(),
{
    let f = non_encoding_filter::<T>();
    let r = without_encoding(c);
    if c.len() > 0 {
        lemma_without_encoding_clean(c.drop_last());
        let d = without_encoding(c.drop_last());
        assert forall|j: int| 0 <= j < r.len() implies !(#[trigger] r[j] is Encoding) by {
            if j < d.len() {
                assert(r[j] == d[j]);
            }
        }
    }
    assert forall|j: int| 0 <= j < r.len() implies f(#[trigger] r[j]) == Some(r[j]) by {
        assert(!(r[j] is Encoding));
    }
    lemma_filter_map_all(r, f, r);
}

/// After the kind of a type's encoding is chosen, the type's encoding is of
/// that kind, or there is none when none is chosen.
pub proof fn lemma_chosen_kind<T>(
    c: Seq<TypeItemView<T>>,
    kind: Option<DataEncodingKind>,
    argument: bool,
)
    ensures
        current_encoding_kind(with_encoding_kind(c, kind, argument)) == kind,
{
    if current_encoding_kind(c) != kind {
        let rest = without_encoding(c);
        lemma_without_encoding_clean(c);
        let g = kind_reader::<T>();
        match kind {
            None => {
                assert forall|j: int| 0 <= j < rest.len() implies (#[trigger] g(rest[j])) is None by {
                    assert(!(rest[j] is Encoding));
                }
                lemma_first_of_prefix(rest, g, rest.len() as int);
            },
            Some(k) => {
                lemma_leading_items(rest, 0);
                let p = leading_items(rest) as int;
                let e = TypeItemView::<T>::Encoding(default_encoding_of(k, argument));
                let s = rest.insert(p, e);
                assert forall|j: int| 0 <= j < p implies (#[trigger] g(s[j])) is None by {
                    assert(s[j] == rest[j]);
                    assert(rest[j] is Leading);
                }
                assert(s[p] == e);
                lemma_first_of_prefix(s, g, p);
            },
        }
    }
}

/// Choosing the kind of a type's encoding keeps every other item of the
/// type, in order.
pub proof fn lemma_chosen_kind_keeps_items<T>(
    c: Seq<TypeItemView<T>>,
    kind: Option<DataEncodingKind>,
    argument: bool,
)
    ensures
        without_encoding(with_encoding_kind(c, kind, argument)) == without_encoding(c),
{
    if current_encoding_kind(c) != kind {
        let rest = without_encoding(c);
        lemma_without_encoding_clean(c);
        match kind {
            None => {},
            Some(k) => {
                let f = non_encoding_filter::<T>();
                lemma_leading_items(rest, 0);
                let p = leading_items(rest) as int;
                let e = TypeItemView::<T>::Encoding(default_encoding_of(k, argument));
                let a = rest.take(p);
                let b = rest.skip(p);
                assert(rest.insert(p, e) =~= a + seq![e] + b);
                assert(rest =~= a + b);
                lemma_filter_map_concat(a + seq![e], b, f);
                lemma_filter_map_concat(a, seq![e], f);
                lemma_filter_map_single(e, f);
                lemma_filter_map_concat(a, b, f);
                assert(filter_map(a, f) + Seq::<TypeItemView<T>>::empty() =~= filter_map(a, f));
            },
        }
    }
}

/// Choosing the same kind again changes nothing.
pub proof fn lemma_chosen_kind_stays<T>(
    c: Seq<TypeItemView<T>>,
    kind: Option<DataEncodingKind>,
    argument: bool,
)
    ensures
        with_encoding_kind(with_encoding_kind(c, kind, argument), kind, argument)
            == with_encoding_kind(c, kind, argument),
{
    lemma_chosen_kind(c, kind, argument);
}


/// The byte order of an encoding.
pub open spec fn byte_order_of(e: DataEncodingView) -> ByteOrderView {
    match e {
        DataEncodingView::Binary(b) => b.byte_order,
        DataEncodingView::Float(f) => f.byte_order,
        DataEncodingView::Integer(i) => i.byte_order,
        DataEncodingView::String(s) => s.byte_order,
    }
}

/// Whether the form shows an encoding as it is: its byte order is not an
/// explicit list of bytes, and a floating point change threshold reads as
/// a number.
pub open spec fn shown_as_is(e: DataEncodingView) -> bool {
    &&& !(byte_order_of(e) is Custom)
    &&& match e {
        DataEncodingView::Float(f) => match f.change_threshold {
            Some(t) => is_float_text(t),
            None => true,
        },
        _ => true,
    }
}

/// Setting the first fixed size to the size it has changes nothing.
proof fn lemma_same_fixed_size(c: Seq<StringContentView>)
    ensures
        match first_fixed_size(c) {
            Some(n) => with_first_fixed_size(c, n) == c,
            None => true,
        },
{
    crate::text::lemma_first_some_index(c, fixed_size_reader());
    match first_fixed_size(c) {
        Some(n) => {
            let i = choose|i: int|
                0 <= i < c.len() && fixed_size_reader()(c[i]) == Some(n) && forall|j: int|
                    0 <= j < i ==> (#[trigger] fixed_size_reader()(c[j])) is None;
            assert forall|j: int| 0 <= j < i implies !(#[trigger] c[j] is SizeInBits) by {
                assert(fixed_size_reader()(c[j]) is None);
            }
            assert(is_first_fixed(c, i));
            let k = choose|k: int| is_first_fixed(c, k);
            if k < i {
                assert(fixed_size_reader()(c[k]) is None);
            } else if k > i {
                assert(!(c[i] is SizeInBits));
            }
            assert(c.update(i, resized(c[i], n)) =~= c);
        },
        None => {},
    }
}

/// Applying the texts the form shows for an encoding gives the encoding
/// back, when the form shows it as it is (see [`shown_as_is`]).
pub proof fn lemma_values_round_trip(e: DataEncodingView)
    requires
        shown_as_is(e),
    ensures
        applied_encoding(encoding_values_of(Some(e)), e) == e,
{
    let v = encoding_values_of(Some(e));
    match e {
        DataEncodingView::Binary(b) => {
            lemma_label_round_trip(b.bit_order);
            lemma_label_round_trip(byte_order_choice(b.byte_order));
            match b.size_in_bits {
                IntegerValueView::FixedValue(n) => {
                    lemma_u64_round_trip(n);
                },
                _ => {},
            }
        },
        DataEncodingView::Float(f) => {
            lemma_label_round_trip(f.bit_order);
            lemma_label_round_trip(byte_order_choice(f.byte_order));
            lemma_label_round_trip(f.encoding);
            lemma_label_round_trip(f.size_in_bits);
        },
        DataEncodingView::Integer(i) => {
            lemma_label_round_trip(i.bit_order);
            lemma_label_round_trip(byte_order_choice(i.byte_order));
            lemma_label_round_trip(i.encoding);
            lemma_u64_round_trip(i.size_in_bits);
            match i.change_threshold {
                Some(n) => {
                    lemma_u64_round_trip(n);
                },
                None => {},
            }
        },
        DataEncodingView::String(s) => {
            lemma_label_round_trip(s.bit_order);
            lemma_label_round_trip(byte_order_choice(s.byte_order));
            lemma_label_round_trip(s.encoding);
            lemma_same_fixed_size(s.content);
            match first_fixed_size(s.content) {
                Some(n) => {
                    lemma_u64_round_trip(n);
                },
                None => {},
            }
        },
    }
}


// ---------------------------------------------------------------------
// What the form reads from an encoding
// ---------------------------------------------------------------------

/// The fixed size of a string encoding item, if it is one.
pub open spec fn fixed_item_of(c: StringContentView) -> Option<SizeInBitsView> {
    match c {
        StringContentView::SizeInBits(s) => Some(s),
        _ => None,
    }
}

/// Reads the fixed size of a string encoding item.
pub open spec fn fixed_item_reader() -> spec_fn(StringContentView) -> Option<SizeInBitsView> {
    |c: StringContentView| fixed_item_of(c)
}

/// The first fixed size of a string encoding; none for another encoding.
pub open spec fn string_fixed_size_of(e: Option<DataEncodingView>) -> Option<SizeInBitsView> {
    match e {
        Some(DataEncodingView::String(s)) => first_some(s.content, fixed_item_reader()),
        _ => None,
    }
}

/// The first fixed size of a string encoding (see
/// [`string_fixed_size_of`]).
pub fn string_fixed_size(e: Option<&DataEncoding>) -> (r: Option<&SizeInBits>)
    ensures
        match r {
            Some(s) => string_fixed_size_of(opt_encoding(e)) == Some(s@),
            None => string_fixed_size_of(opt_encoding(e)) is None,
        },
{
    match e {
        Some(DataEncoding::String(s)) => {
            let ghost cs = string_contents_view(s.content@);
            assert(opt_encoding(e) == Some(DataEncodingView::String(s@)));
            let mut i: usize = 0;
            while i < s.content.len()
                invariant
                    cs == string_contents_view(s.content@),
                    opt_encoding(e) == Some(DataEncodingView::String(s@)),
                    i <= s.content@.len(),
                    forall|j: int| 0 <= j < i ==> (#[trigger] fixed_item_reader()(cs[j])) is None,
                decreases s.content.len() - i,
            {
                assert(cs[i as int] == s.content@[i as int]@);
                match &s.content[i] {
                    StringContent::SizeInBits(size) => {
                        proof {
                            lemma_first_of_prefix(cs, fixed_item_reader(), i as int);
                        }
                        return Some(size);
                    },
                    _ => {},
                }
                i = i + 1;
            }
            proof {
                lemma_first_of_prefix(cs, fixed_item_reader(), cs.len() as int);
            }
            None
        },
        _ => None,
    }
}

/// The value of a borrowed optional algorithm.
pub open spec fn algorithm_ref(o: Option<&InputAlgorithm>) -> Option<InputAlgorithmView> {
    match o {
        Some(a) => Some(a@),
        None => None,
    }
}

/// The algorithm that decodes a binary encoding; none for another
/// encoding.
pub fn binary_from_transform(e: Option<&DataEncoding>) -> (r: Option<&InputAlgorithm>)
    ensures
        algorithm_ref(r) == (match opt_encoding(e) {
            Some(DataEncodingView::Binary(b)) => b.from_binary_transform_algorithm,
            _ => None,
        }),
{
    match e {
        Some(DataEncoding::Binary(b)) => b.from_binary_transform_algorithm.as_ref(),
        _ => None,
    }
}

/// The algorithm that encodes a binary encoding; none for another
/// encoding.
pub fn binary_to_transform(e: Option<&DataEncoding>) -> (r: Option<&InputAlgorithm>)
    ensures
        algorithm_ref(r) == (match opt_encoding(e) {
            Some(DataEncodingView::Binary(b)) => b.to_binary_transform_algorithm,
            _ => None,
        }),
{
    match e {
        Some(DataEncoding::Binary(b)) => b.to_binary_transform_algorithm.as_ref(),
        _ => None,
    }
}

/// The calibrator of a floating point or integer encoding; none for
/// another encoding.
pub fn default_calibrator(e: Option<&DataEncoding>) -> (r: Option<&Calibrator>)
    ensures
        match r {
            Some(c) => (match opt_encoding(e) {
                Some(DataEncodingView::Float(f)) => f.default_calibrator,
                Some(DataEncodingView::Integer(i)) => i.default_calibrator,
                _ => None,
            }) == Some(c@),
            None => (match opt_encoding(e) {
                Some(DataEncodingView::Float(f)) => f.default_calibrator,
                Some(DataEncodingView::Integer(i)) => i.default_calibrator,
                _ => None,
            }) is None,
        },
{
    match e {
        Some(DataEncoding::Float(f)) => f.default_calibrator.as_ref(),
        Some(DataEncoding::Integer(i)) => i.default_calibrator.as_ref(),
        _ => None,
    }
}


/// The encoding of an item that is one.
pub open spec fn encoding_of_item<T>(x: TypeItemView<T>) -> Option<DataEncodingView> {
    match x {
        TypeItemView::Encoding(e) => Some(e),
        _ => None,
    }
}

/// A type's encoding: its first encoding item.
pub open spec fn first_encoding<T>(c: Seq<TypeItemView<T>>) -> Option<DataEncodingView> {
    first_some(c, |x: TypeItemView<T>| encoding_of_item(x))
}

/// A type's encoding (see [`first_encoding`]).
pub fn find_data_encoding<T: View>(content: &Vec<TypeItem<T>>) -> (r: Option<&DataEncoding>)
    ensures
        opt_encoding(r) == first_encoding(items_view(content@)),
{
    let ghost cs = items_view(content@);
    let ghost f = |x: TypeItemView<T::V>| encoding_of_item(x);
    let mut i: usize = 0;
    while i < content.len()
        invariant
            cs == items_view(content@),
            f == (|x: TypeItemView<T::V>| encoding_of_item(x)),
            i <= content@.len(),
            forall|j: int| 0 <= j < i ==> (#[trigger] f(cs[j])) is None,
        decreases content.len() - i,
    {
        assert(cs[i as int] == content@[i as int]@);
        match &content[i] {
            TypeItem::Encoding(e) => {
                proof {
                    lemma_first_of_prefix(cs, f, i as int);
                }
                return Some(e);
            },
            _ => {},
        }
        i = i + 1;
    }
    proof {
        lemma_first_of_prefix(cs, f, cs.len() as int);
    }
    None
}

/// A type's encoding, to change (see [`first_encoding`]): the position of
/// its first encoding item.
pub fn find_data_encoding_index<T: View>(content: &Vec<TypeItem<T>>) -> (r: Option<usize>)
    ensures
        match r {
            Some(i) => i < content@.len() && first_encoding(items_view(content@)) == Some(
                encoding_of_item(items_view(content@)[i as int])->0,
            ) && items_view(content@)[i as int] is Encoding,
            None => first_encoding(items_view(content@)) is None,
        },
{
    let ghost cs = items_view(content@);
    let ghost f = |x: TypeItemView<T::V>| encoding_of_item(x);
    let mut i: usize = 0;
    while i < content.len()
        invariant
            cs == items_view(content@),
            f == (|x: TypeItemView<T::V>| encoding_of_item(x)),
            i <= content@.len(),
            forall|j: int| 0 <= j < i ==> (#[trigger] f(cs[j])) is None,
        decreases content.len() - i,
    {
        assert(cs[i as int] == content@[i as int]@);
        let found = match &content[i] {
            TypeItem::Encoding(_) => true,
            _ => false,
        };
        if found {
            proof {
                lemma_first_of_prefix(cs, f, i as int);
            }
            return Some(i);
        }
        i = i + 1;
    }
    proof {
        lemma_first_of_prefix(cs, f, cs.len() as int);
    }
    None
}

/// The size of a binary encoding; none for another encoding.
pub open spec fn binary_size_of(e: Option<DataEncodingView>) -> Option<IntegerValueView> {
    match e {
        Some(DataEncodingView::Binary(b)) => Some(b.size_in_bits),
        _ => None,
    }
}

/// The size of a binary encoding (see [`binary_size_of`]).
pub fn binary_size(e: Option<&DataEncoding>) -> (r: Option<&IntegerValue>)
    ensures
        match r {
            Some(v) => Some(v@),
            None => None,
        } == binary_size_of(opt_encoding(e)),
{
    match e {
        Some(DataEncoding::Binary(b)) => Some(&b.size_in_bits),
        _ => None,
    }
}

/// The parameter that gives a binary encoding's size, when one does.
pub fn binary_dynamic_value(e: Option<&DataEncoding>) -> (r: Option<&crate::dynamic::DynamicValue>)
    ensures
        match r {
            Some(d) => Some(d@),
            None => None,
        } == match binary_size_of(opt_encoding(e)) {
            Some(IntegerValueView::DynamicValue(d)) => Some(d),
            _ => None,
        },
{
    match binary_size(e) {
        Some(IntegerValue::DynamicValue(d)) => Some(d),
        _ => None,
    }
}

/// The lookup list that gives a binary encoding's size, when one does.
pub fn binary_discrete_value(e: Option<&DataEncoding>) -> (r: Option<
    &crate::lookup::DiscreteLookupList,
>)
    ensures
        match r {
            Some(l) => Some(l@),
            None => None,
        } == match binary_size_of(opt_encoding(e)) {
            Some(IntegerValueView::DiscreteLookupList(l)) => Some(l),
            _ => None,
        },
{
    match binary_size(e) {
        Some(IntegerValue::DiscreteLookupList(l)) => Some(l),
        _ => None,
    }
}

} // verus!

//! Error detection and correction of an encoding: checksums, CRCs, XOR and
//! parity checks, the values the form shows for each, and the check each
//! row of the form gives.
use vstd::prelude::*;
use crate::algorithm::{InputAlgorithm, InputAlgorithmView, opt_text, text_or_empty};
use crate::choice::Choice;
use crate::encoding::BitOrder;
use crate::fields::{clean_optional, integer, integer_of, optional, optional_text, text_of};
use crate::number::{i64_text, int_text, parse_i64, parse_i64_spec};
use crate::text::{chars_of, is_space, is_trimmed, string_of, trim, trim_chars};

verus! {

/// The kind of error detection of a row.
#[derive(Clone, Copy, Debug, PartialEq, Eq, Structural)]
pub enum ErrorKind {
    Checksum,
    Crc,
    Xor,
    Parity,
}

impl Choice for ErrorKind {
    open spec fn label_of(c: ErrorKind) -> Seq<char> {
        match c {
            ErrorKind::Checksum => seq!['C', 'h', 'e', 'c', 'k', 's', 'u', 'm'],
            ErrorKind::Crc => seq!['C', 'R', 'C'],
            ErrorKind::Xor => seq!['X', 'O', 'R'],
            ErrorKind::Parity => seq!['P', 'a', 'r', 'i', 't', 'y'],
        }
    }

    open spec fn variants() -> Seq<ErrorKind> {
        seq![ErrorKind::Checksum, ErrorKind::Crc, ErrorKind::Xor, ErrorKind::Parity]
    }

    fn variant_list() -> (r: Vec<ErrorKind>) {
        let r = vec![ErrorKind::Checksum, ErrorKind::Crc, ErrorKind::Xor, ErrorKind::Parity];
        assert(r@ =~= Self::variants());
        r
    }

    fn label_chars(self) -> (r: Vec<char>) {
        let r = match self {
            ErrorKind::Checksum => vec!['C', 'h', 'e', 'c', 'k', 's', 'u', 'm'],
            ErrorKind::Crc => vec!['C', 'R', 'C'],
            ErrorKind::Xor => vec!['X', 'O', 'R'],
            ErrorKind::Parity => vec!['P', 'a', 'r', 'i', 't', 'y'],
        };
        assert(r@ =~= Self::label_of(self));
        r
    }

    proof fn lemma_choice() {
        assert forall|c: ErrorKind| Self::variants().contains(c) by {
            match c {
                ErrorKind::Checksum => { assert(Self::variants()[0] == c); },
                ErrorKind::Crc => { assert(Self::variants()[1] == c); },
                ErrorKind::Xor => { assert(Self::variants()[2] == c); },
                ErrorKind::Parity => { assert(Self::variants()[3] == c); },
            }
        }
        assert forall|a: ErrorKind, b: ErrorKind| Self::label_of(a) == Self::label_of(b) implies a == b by {
            match (a, b) {
                (ErrorKind::Checksum, ErrorKind::Crc) => { assert(Self::label_of(a).len() != Self::label_of(b).len()); },
                (ErrorKind::Checksum, ErrorKind::Xor) => { assert(Self::label_of(a).len() != Self::label_of(b).len()); },
                (ErrorKind::Checksum, ErrorKind::Parity) => { assert(Self::label_of(a).len() != Self::label_of(b).len()); },
                (ErrorKind::Crc, ErrorKind::Checksum) => { assert(Self::label_of(a).len() != Self::label_of(b).len()); },
                (ErrorKind::Crc, ErrorKind::Xor) => { assert(Self::label_of(a)[0] != Self::label_of(b)[0]); },
                (ErrorKind::Crc, ErrorKind::Parity) => { assert(Self::label_of(a).len() != Self::label_of(b).len()); },
                (ErrorKind::Xor, ErrorKind::Checksum) => { assert(Self::label_of(a).len() != Self::label_of(b).len()); },
                (ErrorKind::Xor, ErrorKind::Crc) => { assert(Self::label_of(a)[0] != Self::label_of(b)[0]); },
                (ErrorKind::Xor, ErrorKind::Parity) => { assert(Self::label_of(a).len() != Self::label_of(b).len()); },
                (ErrorKind::Parity, ErrorKind::Checksum) => { assert(Self::label_of(a).len() != Self::label_of(b).len()); },
                (ErrorKind::Parity, ErrorKind::Crc) => { assert(Self::label_of(a).len() != Self::label_of(b).len()); },
                (ErrorKind::Parity, ErrorKind::Xor) => { assert(Self::label_of(a).len() != Self::label_of(b).len()); },
                _ => {},
            }
        }
        assert forall|c: ErrorKind| is_trimmed(#[trigger] Self::label_of(c)) && Self::label_of(c).len() > 0 by {
            let l = Self::label_of(c);
            assert(!is_space(l[0]) && !is_space(l[l.len() - 1]));
        }
    }
}

/// Where the bits of an error check are counted from.
#[derive(Clone, Copy, Debug, PartialEq, Eq, Structural)]
pub enum ReferencePoint {
    Start,
    End,
}

impl Choice for ReferencePoint {
    open spec fn label_of(c: ReferencePoint) -> Seq<char> {
        match c {
            ReferencePoint::Start => seq!['s', 't', 'a', 'r', 't'],
            ReferencePoint::End => seq!['e', 'n', 'd'],
        }
    }

    open spec fn variants() -> Seq<ReferencePoint> {
        seq![ReferencePoint::Start, ReferencePoint::End]
    }

    fn variant_list() -> (r: Vec<ReferencePoint>) {
        let r = vec![ReferencePoint::Start, ReferencePoint::End];
        assert(r@ =~= Self::variants());
        r
    }

    fn label_chars(self) -> (r: Vec<char>) {
        let r = match self {
            ReferencePoint::Start => vec!['s', 't', 'a', 'r', 't'],
            ReferencePoint::End => vec!['e', 'n', 'd'],
        };
        assert(r@ =~= Self::label_of(self));
        r
    }

    proof fn lemma_choice() {
        assert forall|c: ReferencePoint| Self::variants().contains(c) by {
            match c {
                ReferencePoint::Start => { assert(Self::variants()[0] == c); },
                ReferencePoint::End => { assert(Self::variants()[1] == c); },
            }
        }
        assert forall|a: ReferencePoint, b: ReferencePoint| Self::label_of(a) == Self::label_of(b) implies a == b by {
            match (a, b) {
                (ReferencePoint::Start, ReferencePoint::End) => { assert(Self::label_of(a).len() != Self::label_of(b).len()); },
                (ReferencePoint::End, ReferencePoint::Start) => { assert(Self::label_of(a).len() != Self::label_of(b).len()); },
                _ => {},
            }
        }
        assert forall|c: ReferencePoint| is_trimmed(#[trigger] Self::label_of(c)) && Self::label_of(c).len() > 0 by {
            let l = Self::label_of(c);
            assert(!is_space(l[0]) && !is_space(l[l.len() - 1]));
        }
    }
}

/// A yes or no choice, shown as `false` or `true`.
#[derive(Clone, Copy, Debug, PartialEq, Eq, Structural)]
pub enum BooleanChoice {
    False,
    True,
}

impl Choice for BooleanChoice {
    open spec fn label_of(c: BooleanChoice) -> Seq<char> {
        match c {
            BooleanChoice::False => seq!['f', 'a', 'l', 's', 'e'],
            BooleanChoice::True => seq!['t', 'r', 'u', 'e'],
        }
    }

    open spec fn variants() -> Seq<BooleanChoice> {
        seq![BooleanChoice::False, BooleanChoice::True]
    }

    fn variant_list() -> (r: Vec<BooleanChoice>) {
        let r = vec![BooleanChoice::False, BooleanChoice::True];
        assert(r@ =~= Self::variants());
        r
    }

    fn label_chars(self) -> (r: Vec<char>) {
        let r = match self {
            BooleanChoice::False => vec!['f', 'a', 'l', 's', 'e'],
            BooleanChoice::True => vec!['t', 'r', 'u', 'e'],
        };
        assert(r@ =~= Self::label_of(self));
        r
    }

    proof fn lemma_choice() {
        assert forall|c: BooleanChoice| Self::variants().contains(c) by {
            match c {
                BooleanChoice::False => { assert(Self::variants()[0] == c); },
                BooleanChoice::True => { assert(Self::variants()[1] == c); },
            }
        }
        assert forall|a: BooleanChoice, b: BooleanChoice| Self::label_of(a) == Self::label_of(b) implies a == b by {
            match (a, b) {
                (BooleanChoice::False, BooleanChoice::True) => { assert(Self::label_of(a).len() != Self::label_of(b).len()); },
                (BooleanChoice::True, BooleanChoice::False) => { assert(Self::label_of(a).len() != Self::label_of(b).len()); },
                _ => {},
            }
        }
        assert forall|c: BooleanChoice| is_trimmed(#[trigger] Self::label_of(c)) && Self::label_of(c).len() > 0 by {
            let l = Self::label_of(c);
            assert(!is_space(l[0]) && !is_space(l[l.len() - 1]));
        }
    }
}

/// The bit order of a CRC as the form offers it.
#[derive(Clone, Copy, Debug, PartialEq, Eq, Structural)]
pub enum DirectionChoice {
    MostSignificantBitFirst,
    LeastSignificantBitFirst,
}

impl Choice for DirectionChoice {
    open spec fn label_of(c: DirectionChoice) -> Seq<char> {
        match c {
            DirectionChoice::MostSignificantBitFirst => seq!['m', 'o', 's', 't', ' ', 's', 'i', 'g', 'n', 'i', 'f', 'i', 'c', 'a', 'n', 't', ' ', 'b', 'i', 't', ' ', 'f', 'i', 'r', 's', 't'],
            DirectionChoice::LeastSignificantBitFirst => seq!['l', 'e', 'a', 's', 't', ' ', 's', 'i', 'g', 'n', 'i', 'f', 'i', 'c', 'a', 'n', 't', ' ', 'b', 'i', 't', ' ', 'f', 'i', 'r', 's', 't'],
        }
    }

    open spec fn variants() -> Seq<DirectionChoice> {
        seq![DirectionChoice::MostSignificantBitFirst, DirectionChoice::LeastSignificantBitFirst]
    }

    fn variant_list() -> (r: Vec<DirectionChoice>) {
        let r = vec![DirectionChoice::MostSignificantBitFirst, DirectionChoice::LeastSignificantBitFirst];
        assert(r@ =~= Self::variants());
        r
    }

    fn label_chars(self) -> (r: Vec<char>) {
        let r = match self {
            DirectionChoice::MostSignificantBitFirst => vec!['m', 'o', 's', 't', ' ', 's', 'i', 'g', 'n', 'i', 'f', 'i', 'c', 'a', 'n', 't', ' ', 'b', 'i', 't', ' ', 'f', 'i', 'r', 's', 't'],
            DirectionChoice::LeastSignificantBitFirst => vec!['l', 'e', 'a', 's', 't', ' ', 's', 'i', 'g', 'n', 'i', 'f', 'i', 'c', 'a', 'n', 't', ' ', 'b', 'i', 't', ' ', 'f', 'i', 'r', 's', 't'],
        };
        assert(r@ =~= Self::label_of(self));
        r
    }

    proof fn lemma_choice() {
        assert forall|c: DirectionChoice| Self::variants().contains(c) by {
            match c {
                DirectionChoice::MostSignificantBitFirst => { assert(Self::variants()[0] == c); },
                DirectionChoice::LeastSignificantBitFirst => { assert(Self::variants()[1] == c); },
            }
        }
        assert forall|a: DirectionChoice, b: DirectionChoice| Self::label_of(a) == Self::label_of(b) implies a == b by {
            match (a, b) {
                (DirectionChoice::MostSignificantBitFirst, DirectionChoice::LeastSignificantBitFirst) => { assert(Self::label_of(a).len() != Self::label_of(b).len()); },
                (DirectionChoice::LeastSignificantBitFirst, DirectionChoice::MostSignificantBitFirst) => { assert(Self::label_of(a).len() != Self::label_of(b).len()); },
                _ => {},
            }
        }
        assert forall|c: DirectionChoice| is_trimmed(#[trigger] Self::label_of(c)) && Self::label_of(c).len() > 0 by {
            let l = Self::label_of(c);
            assert(!is_space(l[0]) && !is_space(l[l.len() - 1]));
        }
    }
}

/// The parity a parity check expects.
#[derive(Clone, Copy, Debug, PartialEq, Eq, Structural)]
pub enum ParityChoice {
    Even,
    Odd,
}

impl Choice for ParityChoice {
    open spec fn label_of(c: ParityChoice) -> Seq<char> {
        match c {
            ParityChoice::Even => seq!['E', 'v', 'e', 'n'],
            ParityChoice::Odd => seq!['O', 'd', 'd'],
        }
    }

    open spec fn variants() -> Seq<ParityChoice> {
        seq![ParityChoice::Even, ParityChoice::Odd]
    }

    fn variant_list() -> (r: Vec<ParityChoice>) {
        let r = vec![ParityChoice::Even, ParityChoice::Odd];
        assert(r@ =~= Self::variants());
        r
    }

    fn label_chars(self) -> (r: Vec<char>) {
        let r = match self {
            ParityChoice::Even => vec!['E', 'v', 'e', 'n'],
            ParityChoice::Odd => vec!['O', 'd', 'd'],
        };
        assert(r@ =~= Self::label_of(self));
        r
    }

    proof fn lemma_choice() {
        assert forall|c: ParityChoice| Self::variants().contains(c) by {
            match c {
                ParityChoice::Even => { assert(Self::variants()[0] == c); },
                ParityChoice::Odd => { assert(Self::variants()[1] == c); },
            }
        }
        assert forall|a: ParityChoice, b: ParityChoice| Self::label_of(a) == Self::label_of(b) implies a == b by {
            match (a, b) {
                (ParityChoice::Even, ParityChoice::Odd) => { assert(Self::label_of(a).len() != Self::label_of(b).len()); },
                (ParityChoice::Odd, ParityChoice::Even) => { assert(Self::label_of(a).len() != Self::label_of(b).len()); },
                _ => {},
            }
        }
        assert forall|c: ParityChoice| is_trimmed(#[trigger] Self::label_of(c)) && Self::label_of(c).len() > 0 by {
            let l = Self::label_of(c);
            assert(!is_space(l[0]) && !is_space(l[l.len() - 1]));
        }
    }
}

/// The checksum algorithm of a checksum row.
#[derive(Clone, Copy, Debug, PartialEq, Eq, Structural)]
pub enum ChecksumChoice {
    UnixSum,
    Sum8,
    Sum16,
    Sum24,
    Sum32,
    Fletcher4,
    Fletcher8,
    Fletcher16,
    Fletcher32,
    Adler32,
    Luhn,
    Verhoeff,
    Damm,
    Custom,
}

impl Choice for ChecksumChoice {
    open spec fn label_of(c: ChecksumChoice) -> Seq<char> {
        match c {
            ChecksumChoice::UnixSum => seq!['U', 'n', 'i', 'x', 'S', 'u', 'm'],
            ChecksumChoice::Sum8 => seq!['S', 'u', 'm', '8'],
            ChecksumChoice::Sum16 => seq!['S', 'u', 'm', '1', '6'],
            ChecksumChoice::Sum24 => seq!['S', 'u', 'm', '2', '4'],
            ChecksumChoice::Sum32 => seq!['S', 'u', 'm', '3', '2'],
            ChecksumChoice::Fletcher4 => seq!['F', 'l', 'e', 't', 'c', 'h', 'e', 'r', '4'],
            ChecksumChoice::Fletcher8 => seq!['F', 'l', 'e', 't', 'c', 'h', 'e', 'r', '8'],
            ChecksumChoice::Fletcher16 => seq!['F', 'l', 'e', 't', 'c', 'h', 'e', 'r', '1', '6'],
            ChecksumChoice::Fletcher32 => seq!['F', 'l', 'e', 't', 'c', 'h', 'e', 'r', '3', '2'],
            ChecksumChoice::Adler32 => seq!['A', 'd', 'l', 'e', 'r', '3', '2'],
            ChecksumChoice::Luhn => seq!['L', 'u', 'h', 'n'],
            ChecksumChoice::Verhoeff => seq!['V', 'e', 'r', 'h', 'o', 'e', 'f', 'f'],
            ChecksumChoice::Damm => seq!['D', 'a', 'm', 'm'],
            ChecksumChoice::Custom => seq!['C', 'u', 's', 't', 'o', 'm'],
        }
    }

    open spec fn variants() -> Seq<ChecksumChoice> {
        seq![ChecksumChoice::UnixSum, ChecksumChoice::Sum8, ChecksumChoice::Sum16, ChecksumChoice::Sum24, ChecksumChoice::Sum32, ChecksumChoice::Fletcher4, ChecksumChoice::Fletcher8, ChecksumChoice::Fletcher16, ChecksumChoice::Fletcher32, ChecksumChoice::Adler32, ChecksumChoice::Luhn, ChecksumChoice::Verhoeff, ChecksumChoice::Damm, ChecksumChoice::Custom]
    }

    fn variant_list() -> (r: Vec<ChecksumChoice>) {
        let r = vec![ChecksumChoice::UnixSum, ChecksumChoice::Sum8, ChecksumChoice::Sum16, ChecksumChoice::Sum24, ChecksumChoice::Sum32, ChecksumChoice::Fletcher4, ChecksumChoice::Fletcher8, ChecksumChoice::Fletcher16, ChecksumChoice::Fletcher32, ChecksumChoice::Adler32, ChecksumChoice::Luhn, ChecksumChoice::Verhoeff, ChecksumChoice::Damm, ChecksumChoice::Custom];
        assert(r@ =~= Self::variants());
        r
    }

    fn label_chars(self) -> (r: Vec<char>) {
        let r = match self {
            ChecksumChoice::UnixSum => vec!['U', 'n', 'i', 'x', 'S', 'u', 'm'],
            ChecksumChoice::Sum8 => vec!['S', 'u', 'm', '8'],
            ChecksumChoice::Sum16 => vec!['S', 'u', 'm', '1', '6'],
            ChecksumChoice::Sum24 => vec!['S', 'u', 'm', '2', '4'],
            ChecksumChoice::Sum32 => vec!['S', 'u', 'm', '3', '2'],
            ChecksumChoice::Fletcher4 => vec!['F', 'l', 'e', 't', 'c', 'h', 'e', 'r', '4'],
            ChecksumChoice::Fletcher8 => vec!['F', 'l', 'e', 't', 'c', 'h', 'e', 'r', '8'],
            ChecksumChoice::Fletcher16 => vec!['F', 'l', 'e', 't', 'c', 'h', 'e', 'r', '1', '6'],
            ChecksumChoice::Fletcher32 => vec!['F', 'l', 'e', 't', 'c', 'h', 'e', 'r', '3', '2'],
            ChecksumChoice::Adler32 => vec!['A', 'd', 'l', 'e', 'r', '3', '2'],
            ChecksumChoice::Luhn => vec!['L', 'u', 'h', 'n'],
            ChecksumChoice::Verhoeff => vec!['V', 'e', 'r', 'h', 'o', 'e', 'f', 'f'],
            ChecksumChoice::Damm => vec!['D', 'a', 'm', 'm'],
            ChecksumChoice::Custom => vec!['C', 'u', 's', 't', 'o', 'm'],
        };
        assert(r@ =~= Self::label_of(self));
        r
    }

    proof fn lemma_choice() {
        assert forall|c: ChecksumChoice| Self::variants().contains(c) by {
            match c {
                ChecksumChoice::UnixSum => { assert(Self::variants()[0] == c); },
                ChecksumChoice::Sum8 => { assert(Self::variants()[1] == c); },
                ChecksumChoice::Sum16 => { assert(Self::variants()[2] == c); },
                ChecksumChoice::Sum24 => { assert(Self::variants()[3] == c); },
                ChecksumChoice::Sum32 => { assert(Self::variants()[4] == c); },
                ChecksumChoice::Fletcher4 => { assert(Self::variants()[5] == c); },
                ChecksumChoice::Fletcher8 => { assert(Self::variants()[6] == c); },
                ChecksumChoice::Fletcher16 => { assert(Self::variants()[7] == c); },
                ChecksumChoice::Fletcher32 => { assert(Self::variants()[8] == c); },
                ChecksumChoice::Adler32 => { assert(Self::variants()[9] == c); },
                ChecksumChoice::Luhn => { assert(Self::variants()[10] == c); },
                ChecksumChoice::Verhoeff => { assert(Self::variants()[11] == c); },
                ChecksumChoice::Damm => { assert(Self::variants()[12] == c); },
                ChecksumChoice::Custom => { assert(Self::variants()[13] == c); },
            }
        }
        assert forall|a: ChecksumChoice, b: ChecksumChoice| Self::label_of(a) == Self::label_of(b) implies a == b by {
            match (a, b) {
                (ChecksumChoice::UnixSum, ChecksumChoice::Sum8) => { assert(Self::label_of(a).len() != Self::label_of(b).len()); },
                (ChecksumChoice::UnixSum, ChecksumChoice::Sum16) => { assert(Self::label_of(a).len() != Self::label_of(b).len()); },
                (ChecksumChoice::UnixSum, ChecksumChoice::Sum24) => { assert(Self::label_of(a).len() != Self::label_of(b).len()); },
                (ChecksumChoice::UnixSum, ChecksumChoice::Sum32) => { assert(Self::label_of(a).len() != Self::label_of(b).len()); },
                (ChecksumChoice::UnixSum, ChecksumChoice::Fletcher4) => { assert(Self::label_of(a).len() != Self::label_of(b).len()); },
                (ChecksumChoice::UnixSum, ChecksumChoice::Fletcher8) => { assert(Self::label_of(a).len() != Self::label_of(b).len()); },
                (ChecksumChoice::UnixSum, ChecksumChoice::Fletcher16) => { assert(Self::label_of(a).len() != Self::label_of(b).len()); },
                (ChecksumChoice::UnixSum, ChecksumChoice::Fletcher32) => { assert(Self::label_of(a).len() != Self::label_of(b).len()); },
                (ChecksumChoice::UnixSum, ChecksumChoice::Adler32) => { assert(Self::label_of(a)[0] != Self::label_of(b)[0]); },
                (ChecksumChoice::UnixSum, ChecksumChoice::Luhn) => { assert(Self::label_of(a).len() != Self::label_of(b).len()); },
                (ChecksumChoice::UnixSum, ChecksumChoice::Verhoeff) => { assert(Self::label_of(a).len() != Self::label_of(b).len()); },
                (ChecksumChoice::UnixSum, ChecksumChoice::Damm) => { assert(Self::label_of(a).len() != Self::label_of(b).len()); },
                (ChecksumChoice::UnixSum, ChecksumChoice::Custom) => { assert(Self::label_of(a).len() != Self::label_of(b).len()); },
                (ChecksumChoice::Sum8, ChecksumChoice::UnixSum) => { assert(Self::label_of(a).len() != Self::label_of(b).len()); },
                (ChecksumChoice::Sum8, ChecksumChoice::Sum16) => { assert(Self::label_of(a).len() != Self::label_of(b).len()); },
                (ChecksumChoice::Sum8, ChecksumChoice::Sum24) => { assert(Self::label_of(a).len() != Self::label_of(b).len()); },
                (ChecksumChoice::Sum8, ChecksumChoice::Sum32) => { assert(Self::label_of(a).len() != Self::label_of(b).len()); },
                (ChecksumChoice::Sum8, ChecksumChoice::Fletcher4) => { assert(Self::label_of(a).len() != Self::label_of(b).len()); },
                (ChecksumChoice::Sum8, ChecksumChoice::Fletcher8) => { assert(Self::label_of(a).len() != Self::label_of(b).len()); },
                (ChecksumChoice::Sum8, ChecksumChoice::Fletcher16) => { assert(Self::label_of(a).len() != Self::label_of(b).len()); },
                (ChecksumChoice::Sum8, ChecksumChoice::Fletcher32) => { assert(Self::label_of(a).len() != Self::label_of(b).len()); },
                (ChecksumChoice::Sum8, ChecksumChoice::Adler32) => { assert(Self::label_of(a).len() != Self::label_of(b).len()); },
                (ChecksumChoice::Sum8, ChecksumChoice::Luhn) => { assert(Self::label_of(a)[0] != Self::label_of(b)[0]); },
                (ChecksumChoice::Sum8, ChecksumChoice::Verhoeff) => { assert(Self::label_of(a).len() != Self::label_of(b).len()); },
                (ChecksumChoice::Sum8, ChecksumChoice::Damm) => { assert(Self::label_of(a)[0] != Self::label_of(b)[0]); },
                (ChecksumChoice::Sum8, ChecksumChoice::Custom) => { assert(Self::label_of(a).len() != Self::label_of(b).len()); },
                (ChecksumChoice::Sum16, ChecksumChoice::UnixSum) => { assert(Self::label_of(a).len() != Self::label_of(b).len()); },
                (ChecksumChoice::Sum16, ChecksumChoice::Sum8) => { assert(Self::label_of(a).len() != Self::label_of(b).len()); },
                (ChecksumChoice::Sum16, ChecksumChoice::Sum24) => { assert(Self::label_of(a)[3] != Self::label_of(b)[3]); },
                (ChecksumChoice::Sum16, ChecksumChoice::Sum32) => { assert(Self::label_of(a)[3] != Self::label_of(b)[3]); },
                (ChecksumChoice::Sum16, ChecksumChoice::Fletcher4) => { assert(Self::label_of(a).len() != Self::label_of(b).len()); },
                (ChecksumChoice::Sum16, ChecksumChoice::Fletcher8) => { assert(Self::label_of(a).len() != Self::label_of(b).len()); },
                (ChecksumChoice::Sum16, ChecksumChoice::Fletcher16) => { assert(Self::label_of(a).len() != Self::label_of(b).len()); },
                (ChecksumChoice::Sum16, ChecksumChoice::Fletcher32) => { assert(Self::label_of(a).len() != Self::label_of(b).len()); },
                (ChecksumChoice::Sum16, ChecksumChoice::Adler32) => { assert(Self::label_of(a).len() != Self::label_of(b).len()); },
                (ChecksumChoice::Sum16, ChecksumChoice::Luhn) => { assert(Self::label_of(a).len() != Self::label_of(b).len()); },
                (ChecksumChoice::Sum16, ChecksumChoice::Verhoeff) => { assert(Self::label_of(a).len() != Self::label_of(b).len()); },
                (ChecksumChoice::Sum16, ChecksumChoice::Damm) => { assert(Self::label_of(a).len() != Self::label_of(b).len()); },
                (ChecksumChoice::Sum16, ChecksumChoice::Custom) => { assert(Self::label_of(a).len() != Self::label_of(b).len()); },
                (ChecksumChoice::Sum24, ChecksumChoice::UnixSum) => { assert(Self::label_of(a).len() != Self::label_of(b).len()); },
                (ChecksumChoice::Sum24, ChecksumChoice::Sum8) => { assert(Self::label_of(a).len() != Self::label_of(b).len()); },
                (ChecksumChoice::Sum24, ChecksumChoice::Sum16) => { assert(Self::label_of(a)[3] != Self::label_of(b)[3]); },
                (ChecksumChoice::Sum24, ChecksumChoice::Sum32) => { assert(Self::label_of(a)[3] != Self::label_of(b)[3]); },
                (ChecksumChoice::Sum24, ChecksumChoice::Fletcher4) => { assert(Self::label_of(a).len() != Self::label_of(b).len()); },
                (ChecksumChoice::Sum24, ChecksumChoice::Fletcher8) => { assert(Self::label_of(a).len() != Self::label_of(b).len()); },
                (ChecksumChoice::Sum24, ChecksumChoice::Fletcher16) => { assert(Self::label_of(a).len() != Self::label_of(b).len()); },
                (ChecksumChoice::Sum24, ChecksumChoice::Fletcher32) => { assert(Self::label_of(a).len() != Self::label_of(b).len()); },
                (ChecksumChoice::Sum24, ChecksumChoice::Adler32) => { assert(Self::label_of(a).len() != Self::label_of(b).len()); },
                (ChecksumChoice::Sum24, ChecksumChoice::Luhn) => { assert(Self::label_of(a).len() != Self::label_of(b).len()); },
                (ChecksumChoice::Sum24, ChecksumChoice::Verhoeff) => { assert(Self::label_of(a).len() != Self::label_of(b).len()); },
                (ChecksumChoice::Sum24, ChecksumChoice::Damm) => { assert(Self::label_of(a).len() != Self::label_of(b).len()); },
                (ChecksumChoice::Sum24, ChecksumChoice::Custom) => { assert(Self::label_of(a).len() != Self::label_of(b).len()); },
                (ChecksumChoice::Sum32, ChecksumChoice::UnixSum) => { assert(Self::label_of(a).len() != Self::label_of(b).len()); },
                (ChecksumChoice::Sum32, ChecksumChoice::Sum8) => { assert(Self::label_of(a).len() != Self::label_of(b).len()); },
                (ChecksumChoice::Sum32, ChecksumChoice::Sum16) => { assert(Self::label_of(a)[3] != Self::label_of(b)[3]); },
                (ChecksumChoice::Sum32, ChecksumChoice::Sum24) => { assert(Self::label_of(a)[3] != Self::label_of(b)[3]); },
                (ChecksumChoice::Sum32, ChecksumChoice::Fletcher4) => { assert(Self::label_of(a).len() != Self::label_of(b).len()); },
                (ChecksumChoice::Sum32, ChecksumChoice::Fletcher8) => { assert(Self::label_of(a).len() != Self::label_of(b).len()); },
                (ChecksumChoice::Sum32, ChecksumChoice::Fletcher16) => { assert(Self::label_of(a).len() != Self::label_of(b).len()); },
                (ChecksumChoice::Sum32, ChecksumChoice::Fletcher32) => { assert(Self::label_of(a).len() != Self::label_of(b).len()); },
                (ChecksumChoice::Sum32, ChecksumChoice::Adler32) => { assert(Self::label_of(a).len() != Self::label_of(b).len()); },
                (ChecksumChoice::Sum32, ChecksumChoice::Luhn) => { assert(Self::label_of(a).len() != Self::label_of(b).len()); },
                (ChecksumChoice::Sum32, ChecksumChoice::Verhoeff) => { assert(Self::label_of(a).len() != Self::label_of(b).len()); },
                (ChecksumChoice::Sum32, ChecksumChoice::Damm) => { assert(Self::label_of(a).len() != Self::label_of(b).len()); },
                (ChecksumChoice::Sum32, ChecksumChoice::Custom) => { assert(Self::label_of(a).len() != Self::label_of(b).len()); },
                (ChecksumChoice::Fletcher4, ChecksumChoice::UnixSum) => { assert(Self::label_of(a).len() != Self::label_of(b).len()); },
                (ChecksumChoice::Fletcher4, ChecksumChoice::Sum8) => { assert(Self::label_of(a).len() != Self::label_of(b).len()); },
                (ChecksumChoice::Fletcher4, ChecksumChoice::Sum16) => { assert(Self::label_of(a).len() != Self::label_of(b).len()); },
                (ChecksumChoice::Fletcher4, ChecksumChoice::Sum24) => { assert(Self::label_of(a).len() != Self::label_of(b).len()); },
                (ChecksumChoice::Fletcher4, ChecksumChoice::Sum32) => { assert(Self::label_of(a).len() != Self::label_of(b).len()); },
                (ChecksumChoice::Fletcher4, ChecksumChoice::Fletcher8) => { assert(Self::label_of(a)[8] != Self::label_of(b)[8]); },
                (ChecksumChoice::Fletcher4, ChecksumChoice::Fletcher16) => { assert(Self::label_of(a).len() != Self::label_of(b).len()); },
                (ChecksumChoice::Fletcher4, ChecksumChoice::Fletcher32) => { assert(Self::label_of(a).len() != Self::label_of(b).len()); },
                (ChecksumChoice::Fletcher4, ChecksumChoice::Adler32) => { assert(Self::label_of(a).len() != Self::label_of(b).len()); },
                (ChecksumChoice::Fletcher4, ChecksumChoice::Luhn) => { assert(Self::label_of(a).len() != Self::label_of(b).len()); },
                (ChecksumChoice::Fletcher4, ChecksumChoice::Verhoeff) => { assert(Self::label_of(a).len() != Self::label_of(b).len()); },
                (ChecksumChoice::Fletcher4, ChecksumChoice::Damm) => { assert(Self::label_of(a).len() != Self::label_of(b).len()); },
                (ChecksumChoice::Fletcher4, ChecksumChoice::Custom) => { assert(Self::label_of(a).len() != Self::label_of(b).len()); },
                (ChecksumChoice::Fletcher8, ChecksumChoice::UnixSum) => { assert(Self::label_of(a).len() != Self::label_of(b).len()); },
                (ChecksumChoice::Fletcher8, ChecksumChoice::Sum8) => { assert(Self::label_of(a).len() != Self::label_of(b).len()); },
                (ChecksumChoice::Fletcher8, ChecksumChoice::Sum16) => { assert(Self::label_of(a).len() != Self::label_of(b).len()); },
                (ChecksumChoice::Fletcher8, ChecksumChoice::Sum24) => { assert(Self::label_of(a).len() != Self::label_of(b).len()); },
                (ChecksumChoice::Fletcher8, ChecksumChoice::Sum32) => { assert(Self::label_of(a).len() != Self::label_of(b).len()); },
                (ChecksumChoice::Fletcher8, ChecksumChoice::Fletcher4) => { assert(Self::label_of(a)[8] != Self::label_of(b)[8]); },
                (ChecksumChoice::Fletcher8, ChecksumChoice::Fletcher16) => { assert(Self::label_of(a).len() != Self::label_of(b).len()); },
                (ChecksumChoice::Fletcher8, ChecksumChoice::Fletcher32) => { assert(Self::label_of(a).len() != Self::label_of(b).len()); },
                (ChecksumChoice::Fletcher8, ChecksumChoice::Adler32) => { assert(Self::label_of(a).len() != Self::label_of(b).len()); },
                (ChecksumChoice::Fletcher8, ChecksumChoice::Luhn) => { assert(Self::label_of(a).len() != Self::label_of(b).len()); },
                (ChecksumChoice::Fletcher8, ChecksumChoice::Verhoeff) => { assert(Self::label_of(a).len() != Self::label_of(b).len()); },
                (ChecksumChoice::Fletcher8, ChecksumChoice::Damm) => { assert(Self::label_of(a).len() != Self::label_of(b).len()); },
                (ChecksumChoice::Fletcher8, ChecksumChoice::Custom) => { assert(Self::label_of(a).len() != Self::label_of(b).len()); },
                (ChecksumChoice::Fletcher16, ChecksumChoice::UnixSum) => { assert(Self::label_of(a).len() != Self::label_of(b).len()); },
                (ChecksumChoice::Fletcher16, ChecksumChoice::Sum8) => { assert(Self::label_of(a).len() != Self::label_of(b).len()); },
                (ChecksumChoice::Fletcher16, ChecksumChoice::Sum16) => { assert(Self::label_of(a).len() != Self::label_of(b).len()); },
                (ChecksumChoice::Fletcher16, ChecksumChoice::Sum24) => { assert(Self::label_of(a).len() != Self::label_of(b).len()); },
                (ChecksumChoice::Fletcher16, ChecksumChoice::Sum32) => { assert(Self::label_of(a).len() != Self::label_of(b).len()); },
                (ChecksumChoice::Fletcher16, ChecksumChoice::Fletcher4) => { assert(Self::label_of(a).len() != Self::label_of(b).len()); },
                (ChecksumChoice::Fletcher16, ChecksumChoice::Fletcher8) => { assert(Self::label_of(a).len() != Self::label_of(b).len()); },
                (ChecksumChoice::Fletcher16, ChecksumChoice::Fletcher32) => { assert(Self::label_of(a)[8] != Self::label_of(b)[8]); },
                (ChecksumChoice::Fletcher16, ChecksumChoice::Adler32) => { assert(Self::label_of(a).len() != Self::label_of(b).len()); },
                (ChecksumChoice::Fletcher16, ChecksumChoice::Luhn) => { assert(Self::label_of(a).len() != Self::label_of(b).len()); },
                (ChecksumChoice::Fletcher16, ChecksumChoice::Verhoeff) => { assert(Self::label_of(a).len() != Self::label_of(b).len()); },
                (ChecksumChoice::Fletcher16, ChecksumChoice::Damm) => { assert(Self::label_of(a).len() != Self::label_of(b).len()); },
                (ChecksumChoice::Fletcher16, ChecksumChoice::Custom) => { assert(Self::label_of(a).len() != Self::label_of(b).len()); },
                (ChecksumChoice::Fletcher32, ChecksumChoice::UnixSum) => { assert(Self::label_of(a).len() != Self::label_of(b).len()); },
                (ChecksumChoice::Fletcher32, ChecksumChoice::Sum8) => { assert(Self::label_of(a).len() != Self::label_of(b).len()); },
                (ChecksumChoice::Fletcher32, ChecksumChoice::Sum16) => { assert(Self::label_of(a).len() != Self::label_of(b).len()); },
                (ChecksumChoice::Fletcher32, ChecksumChoice::Sum24) => { assert(Self::label_of(a).len() != Self::label_of(b).len()); },
                (ChecksumChoice::Fletcher32, ChecksumChoice::Sum32) => { assert(Self::label_of(a).len() != Self::label_of(b).len()); },
                (ChecksumChoice::Fletcher32, ChecksumChoice::Fletcher4) => { assert(Self::label_of(a).len() != Self::label_of(b).len()); },
                (ChecksumChoice::Fletcher32, ChecksumChoice::Fletcher8) => { assert(Self::label_of(a).len() != Self::label_of(b).len()); },
                (ChecksumChoice::Fletcher32, ChecksumChoice::Fletcher16) => { assert(Self::label_of(a)[8] != Self::label_of(b)[8]); },
                (ChecksumChoice::Fletcher32, ChecksumChoice::Adler32) => { assert(Self::label_of(a).len() != Self::label_of(b).len()); },
                (ChecksumChoice::Fletcher32, ChecksumChoice::Luhn) => { assert(Self::label_of(a).len() != Self::label_of(b).len()); },
                (ChecksumChoice::Fletcher32, ChecksumChoice::Verhoeff) => { assert(Self::label_of(a).len() != Self::label_of(b).len()); },
                (ChecksumChoice::Fletcher32, ChecksumChoice::Damm) => { assert(Self::label_of(a).len() != Self::label_of(b).len()); },
                (ChecksumChoice::Fletcher32, ChecksumChoice::Custom) => { assert(Self::label_of(a).len() != Self::label_of(b).len()); },
                (ChecksumChoice::Adler32, ChecksumChoice::UnixSum) => { assert(Self::label_of(a)[0] != Self::label_of(b)[0]); },
                (ChecksumChoice::Adler32, ChecksumChoice::Sum8) => { assert(Self::label_of(a).len() != Self::label_of(b).len()); },
                (ChecksumChoice::Adler32, ChecksumChoice::Sum16) => { assert(Self::label_of(a).len() != Self::label_of(b).len()); },
                (ChecksumChoice::Adler32, ChecksumChoice::Sum24) => { assert(Self::label_of(a).len() != Self::label_of(b).len()); },
                (ChecksumChoice::Adler32, ChecksumChoice::Sum32) => { assert(Self::label_of(a).len() != Self::label_of(b).len()); },
                (ChecksumChoice::Adler32, ChecksumChoice::Fletcher4) => { assert(Self::label_of(a).len() != Self::label_of(b).len()); },
                (ChecksumChoice::Adler32, ChecksumChoice::Fletcher8) => { assert(Self::label_of(a).len() != Self::label_of(b).len()); },
                (ChecksumChoice::Adler32, ChecksumChoice::Fletcher16) => { assert(Self::label_of(a).len() != Self::label_of(b).len()); },
                (ChecksumChoice::Adler32, ChecksumChoice::Fletcher32) => { assert(Self::label_of(a).len() != Self::label_of(b).len()); },
                (ChecksumChoice::Adler32, ChecksumChoice::Luhn) => { assert(Self::label_of(a).len() != Self::label_of(b).len()); },
                (ChecksumChoice::Adler32, ChecksumChoice::Verhoeff) => { assert(Self::label_of(a).len() != Self::label_of(b).len()); },
                (ChecksumChoice::Adler32, ChecksumChoice::Damm) => { assert(Self::label_of(a).len() != Self::label_of(b).len()); },
                (ChecksumChoice::Adler32, ChecksumChoice::Custom) => { assert(Self::label_of(a).len() != Self::label_of(b).len()); },
                (ChecksumChoice::Luhn, ChecksumChoice::UnixSum) => { assert(Self::label_of(a).len() != Self::label_of(b).len()); },
                (ChecksumChoice::Luhn, ChecksumChoice::Sum8) => { assert(Self::label_of(a)[0] != Self::label_of(b)[0]); },
                (ChecksumChoice::Luhn, ChecksumChoice::Sum16) => { assert(Self::label_of(a).len() != Self::label_of(b).len()); },
                (ChecksumChoice::Luhn, ChecksumChoice::Sum24) => { assert(Self::label_of(a).len() != Self::label_of(b).len()); },
                (ChecksumChoice::Luhn, ChecksumChoice::Sum32) => { assert(Self::label_of(a).len() != Self::label_of(b).len()); },
                (ChecksumChoice::Luhn, ChecksumChoice::Fletcher4) => { assert(Self::label_of(a).len() != Self::label_of(b).len()); },
                (ChecksumChoice::Luhn, ChecksumChoice::Fletcher8) => { assert(Self::label_of(a).len() != Self::label_of(b).len()); },
                (ChecksumChoice::Luhn, ChecksumChoice::Fletcher16) => { assert(Self::label_of(a).len() != Self::label_of(b).len()); },
                (ChecksumChoice::Luhn, ChecksumChoice::Fletcher32) => { assert(Self::label_of(a).len() != Self::label_of(b).len()); },
                (ChecksumChoice::Luhn, ChecksumChoice::Adler32) => { assert(Self::label_of(a).len() != Self::label_of(b).len()); },
                (ChecksumChoice::Luhn, ChecksumChoice::Verhoeff) => { assert(Self::label_of(a).len() != Self::label_of(b).len()); },
                (ChecksumChoice::Luhn, ChecksumChoice::Damm) => { assert(Self::label_of(a)[0] != Self::label_of(b)[0]); },
                (ChecksumChoice::Luhn, ChecksumChoice::Custom) => { assert(Self::label_of(a).len() != Self::label_of(b).len()); },
                (ChecksumChoice::Verhoeff, ChecksumChoice::UnixSum) => { assert(Self::label_of(a).len() != Self::label_of(b).len()); },
                (ChecksumChoice::Verhoeff, ChecksumChoice::Sum8) => { assert(Self::label_of(a).len() != Self::label_of(b).len()); },
                (ChecksumChoice::Verhoeff, ChecksumChoice::Sum16) => { assert(Self::label_of(a).len() != Self::label_of(b).len()); },
                (ChecksumChoice::Verhoeff, ChecksumChoice::Sum24) => { assert(Self::label_of(a).len() != Self::label_of(b).len()); },
                (ChecksumChoice::Verhoeff, ChecksumChoice::Sum32) => { assert(Self::label_of(a).len() != Self::label_of(b).len()); },
                (ChecksumChoice::Verhoeff, ChecksumChoice::Fletcher4) => { assert(Self::label_of(a).len() != Self::label_of(b).len()); },
                (ChecksumChoice::Verhoeff, ChecksumChoice::Fletcher8) => { assert(Self::label_of(a).len() != Self::label_of(b).len()); },
                (ChecksumChoice::Verhoeff, ChecksumChoice::Fletcher16) => { assert(Self::label_of(a).len() != Self::label_of(b).len()); },
                (ChecksumChoice::Verhoeff, ChecksumChoice::Fletcher32) => { assert(Self::label_of(a).len() != Self::label_of(b).len()); },
                (ChecksumChoice::Verhoeff, ChecksumChoice::Adler32) => { assert(Self::label_of(a).len() != Self::label_of(b).len()); },
                (ChecksumChoice::Verhoeff, ChecksumChoice::Luhn) => { assert(Self::label_of(a).len() != Self::label_of(b).len()); },
                (ChecksumChoice::Verhoeff, ChecksumChoice::Damm) => { assert(Self::label_of(a).len() != Self::label_of(b).len()); },
                (ChecksumChoice::Verhoeff, ChecksumChoice::Custom) => { assert(Self::label_of(a).len() != Self::label_of(b).len()); },
                (ChecksumChoice::Damm, ChecksumChoice::UnixSum) => { assert(Self::label_of(a).len() != Self::label_of(b).len()); },
                (ChecksumChoice::Damm, ChecksumChoice::Sum8) => { assert(Self::label_of(a)[0] != Self::label_of(b)[0]); },
                (ChecksumChoice::Damm, ChecksumChoice::Sum16) => { assert(Self::label_of(a).len() != Self::label_of(b).len()); },
                (ChecksumChoice::Damm, ChecksumChoice::Sum24) => { assert(Self::label_of(a).len() != Self::label_of(b).len()); },
                (ChecksumChoice::Damm, ChecksumChoice::Sum32) => { assert(Self::label_of(a).len() != Self::label_of(b).len()); },
                (ChecksumChoice::Damm, ChecksumChoice::Fletcher4) => { assert(Self::label_of(a).len() != Self::label_of(b).len()); },
                (ChecksumChoice::Damm, ChecksumChoice::Fletcher8) => { assert(Self::label_of(a).len() != Self::label_of(b).len()); },
                (ChecksumChoice::Damm, ChecksumChoice::Fletcher16) => { assert(Self::label_of(a).len() != Self::label_of(b).len()); },
                (ChecksumChoice::Damm, ChecksumChoice::Fletcher32) => { assert(Self::label_of(a).len() != Self::label_of(b).len()); },
                (ChecksumChoice::Damm, ChecksumChoice::Adler32) => { assert(Self::label_of(a).len() != Self::label_of(b).len()); },
                (ChecksumChoice::Damm, ChecksumChoice::Luhn) => { assert(Self::label_of(a)[0] != Self::label_of(b)[0]); },
                (ChecksumChoice::Damm, ChecksumChoice::Verhoeff) => { assert(Self::label_of(a).len() != Self::label_of(b).len()); },
                (ChecksumChoice::Damm, ChecksumChoice::Custom) => { assert(Self::label_of(a).len() != Self::label_of(b).len()); },
                (ChecksumChoice::Custom, ChecksumChoice::UnixSum) => { assert(Self::label_of(a).len() != Self::label_of(b).len()); },
                (ChecksumChoice::Custom, ChecksumChoice::Sum8) => { assert(Self::label_of(a).len() != Self::label_of(b).len()); },
                (ChecksumChoice::Custom, ChecksumChoice::Sum16) => { assert(Self::label_of(a).len() != Self::label_of(b).len()); },
                (ChecksumChoice::Custom, ChecksumChoice::Sum24) => { assert(Self::label_of(a).len() != Self::label_of(b).len()); },
                (ChecksumChoice::Custom, ChecksumChoice::Sum32) => { assert(Self::label_of(a).len() != Self::label_of(b).len()); },
                (ChecksumChoice::Custom, ChecksumChoice::Fletcher4) => { assert(Self::label_of(a).len() != Self::label_of(b).len()); },
                (ChecksumChoice::Custom, ChecksumChoice::Fletcher8) => { assert(Self::label_of(a).len() != Self::label_of(b).len()); },
                (ChecksumChoice::Custom, ChecksumChoice::Fletcher16) => { assert(Self::label_of(a).len() != Self::label_of(b).len()); },
                (ChecksumChoice::Custom, ChecksumChoice::Fletcher32) => { assert(Self::label_of(a).len() != Self::label_of(b).len()); },
                (ChecksumChoice::Custom, ChecksumChoice::Adler32) => { assert(Self::label_of(a).len() != Self::label_of(b).len()); },
                (ChecksumChoice::Custom, ChecksumChoice::Luhn) => { assert(Self::label_of(a).len() != Self::label_of(b).len()); },
                (ChecksumChoice::Custom, ChecksumChoice::Verhoeff) => { assert(Self::label_of(a).len() != Self::label_of(b).len()); },
                (ChecksumChoice::Custom, ChecksumChoice::Damm) => { assert(Self::label_of(a).len() != Self::label_of(b).len()); },
                _ => {},
            }
        }
        assert forall|c: ChecksumChoice| is_trimmed(#[trigger] Self::label_of(c)) && Self::label_of(c).len() > 0 by {
            let l = Self::label_of(c);
            assert(!is_space(l[0]) && !is_space(l[l.len() - 1]));
        }
    }
}
/// One check of an error detection and correction.
#[derive(Debug)]
pub enum ErrorCheck {
    Checksum {
        bits_from_reference: i64,
        reference: ReferencePoint,
        name: ChecksumChoice,
        hash_size_in_bits: Option<i64>,
        parameter_ref: Option<String>,
        input_algorithm: Option<InputAlgorithm>,
    },
    Crc {
        width: i64,
        reflect_data: bool,
        reflect_remainder: bool,
        direction: BitOrder,
        bits_from_reference: i64,
        reference: ReferencePoint,
        parameter_ref: Option<String>,
        polynomial: String,
        init_remainder: Option<String>,
        final_xor: Option<String>,
    },
    Xor { bits_from_reference: i64, reference: ReferencePoint, parameter_ref: Option<String> },
    Parity {
        type_: ParityChoice,
        bits_from_reference: i64,
        reference: ReferencePoint,
        parameter_ref: Option<String>,
    },
}

/// The value of an [`ErrorCheck`].
pub enum ErrorCheckView {
    Checksum {
        bits_from_reference: i64,
        reference: ReferencePoint,
        name: ChecksumChoice,
        hash_size_in_bits: Option<i64>,
        parameter_ref: Option<Seq<char>>,
        input_algorithm: Option<InputAlgorithmView>,
    },
    Crc {
        width: i64,
        reflect_data: bool,
        reflect_remainder: bool,
        direction: BitOrder,
        bits_from_reference: i64,
        reference: ReferencePoint,
        parameter_ref: Option<Seq<char>>,
        polynomial: Seq<char>,
        init_remainder: Option<Seq<char>>,
        final_xor: Option<Seq<char>>,
    },
    Xor { bits_from_reference: i64, reference: ReferencePoint, parameter_ref: Option<Seq<char>> },
    Parity {
        type_: ParityChoice,
        bits_from_reference: i64,
        reference: ReferencePoint,
        parameter_ref: Option<Seq<char>>,
    },
}

impl View for ErrorCheck {
    type V = ErrorCheckView;

    open spec fn view(&self) -> ErrorCheckView {
        match self {
            ErrorCheck::Checksum {
                bits_from_reference,
                reference,
                name,
                hash_size_in_bits,
                parameter_ref,
                input_algorithm,
            } => ErrorCheckView::Checksum {
                bits_from_reference: *bits_from_reference,
                reference: *reference,
                name: *name,
                hash_size_in_bits: *hash_size_in_bits,
                parameter_ref: opt_text(*parameter_ref),
                input_algorithm: match input_algorithm {
                    Some(a) => Some(a@),
                    None => None,
                },
            },
            ErrorCheck::Crc {
                width,
                reflect_data,
                reflect_remainder,
                direction,
                bits_from_reference,
                reference,
                parameter_ref,
                polynomial,
                init_remainder,
                final_xor,
            } => ErrorCheckView::Crc {
                width: *width,
                reflect_data: *reflect_data,
                reflect_remainder: *reflect_remainder,
                direction: *direction,
                bits_from_reference: *bits_from_reference,
                reference: *reference,
                parameter_ref: opt_text(*parameter_ref),
                polynomial: polynomial@,
                init_remainder: opt_text(*init_remainder),
                final_xor: opt_text(*final_xor),
            },
            ErrorCheck::Xor { bits_from_reference, reference, parameter_ref } => ErrorCheckView::Xor {
                bits_from_reference: *bits_from_reference,
                reference: *reference,
                parameter_ref: opt_text(*parameter_ref),
            },
            ErrorCheck::Parity { type_, bits_from_reference, reference, parameter_ref } =>
                ErrorCheckView::Parity {
                type_: *type_,
                bits_from_reference: *bits_from_reference,
                reference: *reference,
                parameter_ref: opt_text(*parameter_ref),
            },
        }
    }
}

/// The choice shown for a `bool`.
pub open spec fn choice_of_bool(value: bool) -> BooleanChoice {
    if value {
        BooleanChoice::True
    } else {
        BooleanChoice::False
    }
}

/// The choice shown for a `bool`.
pub fn boolean_choice(value: bool) -> (r: BooleanChoice)
    ensures
        r == choice_of_bool(value),
{
    if value {
        BooleanChoice::True
    } else {
        BooleanChoice::False
    }
}

/// The bit order a CRC direction stands for.
pub open spec fn order_of_direction(d: DirectionChoice) -> BitOrder {
    match d {
        DirectionChoice::MostSignificantBitFirst => BitOrder::MostSignificantFirst,
        DirectionChoice::LeastSignificantBitFirst => BitOrder::LeastSignificantFirst,
    }
}

/// The direction the form shows for a bit order.
pub open spec fn direction_of_order(o: BitOrder) -> DirectionChoice {
    match o {
        BitOrder::MostSignificantFirst => DirectionChoice::MostSignificantBitFirst,
        BitOrder::LeastSignificantFirst => DirectionChoice::LeastSignificantBitFirst,
    }
}

/// What a row of the error form holds.
#[derive(Debug)]
pub struct ErrorValues {
    pub kind: ErrorKind,
    pub bits_from_reference: String,
    pub reference: ReferencePoint,
    pub parameter_ref: String,
    pub checksum_name: ChecksumChoice,
    pub hash_size_in_bits: String,
    pub input_algorithm_present: bool,
    pub crc_width: String,
    pub reflect_data: bool,
    pub reflect_remainder: bool,
    pub direction: DirectionChoice,
    pub polynomial: String,
    pub init_remainder: String,
    pub final_xor: String,
    pub parity: ParityChoice,
}

/// The value of [`ErrorValues`].
pub struct ErrorValuesView {
    pub kind: ErrorKind,
    pub bits_from_reference: Seq<char>,
    pub reference: ReferencePoint,
    pub parameter_ref: Seq<char>,
    pub checksum_name: ChecksumChoice,
    pub hash_size_in_bits: Seq<char>,
    pub input_algorithm_present: bool,
    pub crc_width: Seq<char>,
    pub reflect_data: bool,
    pub reflect_remainder: bool,
    pub direction: DirectionChoice,
    pub polynomial: Seq<char>,
    pub init_remainder: Seq<char>,
    pub final_xor: Seq<char>,
    pub parity: ParityChoice,
}

impl View for ErrorValues {
    type V = ErrorValuesView;

    open spec fn view(&self) -> ErrorValuesView {
        ErrorValuesView {
            kind: self.kind,
            bits_from_reference: self.bits_from_reference@,
            reference: self.reference,
            parameter_ref: self.parameter_ref@,
            checksum_name: self.checksum_name,
            hash_size_in_bits: self.hash_size_in_bits@,
            input_algorithm_present: self.input_algorithm_present,
            crc_width: self.crc_width@,
            reflect_data: self.reflect_data,
            reflect_remainder: self.reflect_remainder,
            direction: self.direction,
            polynomial: self.polynomial@,
            init_remainder: self.init_remainder@,
            final_xor: self.final_xor@,
            parity: self.parity,
        }
    }
}

/// What a new row holds: a checksum of kind `Sum8` counted from the start,
/// every text empty, every flag off.
pub open spec fn default_error_values() -> ErrorValuesView {
    ErrorValuesView {
        kind: ErrorKind::Checksum,
        bits_from_reference: Seq::empty(),
        reference: ReferencePoint::Start,
        parameter_ref: Seq::empty(),
        checksum_name: ChecksumChoice::Sum8,
        hash_size_in_bits: Seq::empty(),
        input_algorithm_present: false,
        crc_width: Seq::empty(),
        reflect_data: false,
        reflect_remainder: false,
        direction: DirectionChoice::MostSignificantBitFirst,
        polynomial: Seq::empty(),
        init_remainder: Seq::empty(),
        final_xor: Seq::empty(),
        parity: ParityChoice::Even,
    }
}

/// What the form shows for a check: the fields of its kind, the others as
/// for a new row.
pub open spec fn values_of_check(c: ErrorCheckView) -> ErrorValuesView {
    let d = default_error_values();
    match c {
        ErrorCheckView::Checksum {
            bits_from_reference,
            reference,
            name,
            hash_size_in_bits,
            parameter_ref,
            input_algorithm,
        } => ErrorValuesView {
            kind: ErrorKind::Checksum,
            bits_from_reference: int_text(bits_from_reference as int),
            reference,
            parameter_ref: text_or_empty(parameter_ref),
            checksum_name: name,
            hash_size_in_bits: match hash_size_in_bits {
                Some(h) => int_text(h as int),
                None => Seq::empty(),
            },
            input_algorithm_present: input_algorithm is Some,
            ..d
        },
        ErrorCheckView::Crc {
            width,
            reflect_data,
            reflect_remainder,
            direction,
            bits_from_reference,
            reference,
            parameter_ref,
            polynomial,
            init_remainder,
            final_xor,
        } => ErrorValuesView {
            kind: ErrorKind::Crc,
            bits_from_reference: int_text(bits_from_reference as int),
            reference,
            parameter_ref: text_or_empty(parameter_ref),
            crc_width: int_text(width as int),
            reflect_data,
            reflect_remainder,
            direction: direction_of_order(direction),
            polynomial,
            init_remainder: text_or_empty(init_remainder),
            final_xor: text_or_empty(final_xor),
            ..d
        },
        ErrorCheckView::Xor { bits_from_reference, reference, parameter_ref } => ErrorValuesView {
            kind: ErrorKind::Xor,
            bits_from_reference: int_text(bits_from_reference as int),
            reference,
            parameter_ref: text_or_empty(parameter_ref),
            ..d
        },
        ErrorCheckView::Parity { type_, bits_from_reference, reference, parameter_ref } =>
            ErrorValuesView {
            kind: ErrorKind::Parity,
            bits_from_reference: int_text(bits_from_reference as int),
            reference,
            parameter_ref: text_or_empty(parameter_ref),
            parity: type_,
            ..d
        },
    }
}

fn default_values() -> (r: ErrorValues)
    ensures
        r@ == default_error_values(),
{
    ErrorValues {
        kind: ErrorKind::Checksum,
        bits_from_reference: String::new(),
        reference: ReferencePoint::Start,
        parameter_ref: String::new(),
        checksum_name: ChecksumChoice::Sum8,
        hash_size_in_bits: String::new(),
        input_algorithm_present: false,
        crc_width: String::new(),
        reflect_data: false,
        reflect_remainder: false,
        direction: DirectionChoice::MostSignificantBitFirst,
        polynomial: String::new(),
        init_remainder: String::new(),
        final_xor: String::new(),
        parity: ParityChoice::Even,
    }
}

impl ErrorValues {
    /// What the form shows for a check (see [`values_of_check`]).
    pub fn from_content(content: &ErrorCheck) -> (r: ErrorValues)
        ensures
            r@ == values_of_check(content@),
    {
        let mut v = default_values();
        match content {
            ErrorCheck::Checksum {
                bits_from_reference,
                reference,
                name,
                hash_size_in_bits,
                parameter_ref,
                input_algorithm,
            } => {
                v.kind = ErrorKind::Checksum;
                v.bits_from_reference = string_of(&i64_text(*bits_from_reference));
                v.reference = *reference;
                v.parameter_ref = text_of(parameter_ref);
                v.checksum_name = *name;
                v.hash_size_in_bits = match hash_size_in_bits {
                    Some(h) => string_of(&i64_text(*h)),
                    None => String::new(),
                };
                v.input_algorithm_present = input_algorithm.is_some();
            },
            ErrorCheck::Crc {
                width,
                reflect_data,
                reflect_remainder,
                direction,
                bits_from_reference,
                reference,
                parameter_ref,
                polynomial,
                init_remainder,
                final_xor,
            } => {
                v.kind = ErrorKind::Crc;
                v.bits_from_reference = string_of(&i64_text(*bits_from_reference));
                v.reference = *reference;
                v.parameter_ref = text_of(parameter_ref);
                v.crc_width = string_of(&i64_text(*width));
                v.reflect_data = *reflect_data;
                v.reflect_remainder = *reflect_remainder;
                v.direction = match direction {
                    BitOrder::MostSignificantFirst => DirectionChoice::MostSignificantBitFirst,
                    BitOrder::LeastSignificantFirst => DirectionChoice::LeastSignificantBitFirst,
                };
                v.polynomial = polynomial.clone();
                v.init_remainder = text_of(init_remainder);
                v.final_xor = text_of(final_xor);
            },
            ErrorCheck::Xor { bits_from_reference, reference, parameter_ref } => {
                v.kind = ErrorKind::Xor;
                v.bits_from_reference = string_of(&i64_text(*bits_from_reference));
                v.reference = *reference;
                v.parameter_ref = text_of(parameter_ref);
            },
            ErrorCheck::Parity { type_, bits_from_reference, reference, parameter_ref } => {
                v.kind = ErrorKind::Parity;
                v.bits_from_reference = string_of(&i64_text(*bits_from_reference));
                v.reference = *reference;
                v.parameter_ref = text_of(parameter_ref);
                v.parity = *type_;
            },
        }
        v
    }
}

/// The check a row gives, with the algorithm of its sub-form used when
/// the row says one is present.
pub open spec fn check_of_values(v: ErrorValuesView, algorithm: InputAlgorithmView) -> ErrorCheckView {
    let bits_from_reference = integer_of(v.bits_from_reference);
    let parameter_ref = optional_text(v.parameter_ref);
    match v.kind {
        ErrorKind::Checksum => ErrorCheckView::Checksum {
            bits_from_reference,
            reference: v.reference,
            name: v.checksum_name,
            hash_size_in_bits: parse_i64_spec(trim(v.hash_size_in_bits)),
            parameter_ref,
            input_algorithm: if v.input_algorithm_present {
                Some(algorithm)
            } else {
                None
            },
        },
        ErrorKind::Crc => ErrorCheckView::Crc {
            width: integer_of(v.crc_width),
            reflect_data: v.reflect_data,
            reflect_remainder: v.reflect_remainder,
            direction: order_of_direction(v.direction),
            bits_from_reference,
            reference: v.reference,
            parameter_ref,
            polynomial: v.polynomial,
            init_remainder: optional_text(v.init_remainder),
            final_xor: optional_text(v.final_xor),
        },
        ErrorKind::Xor => ErrorCheckView::Xor { bits_from_reference, reference: v.reference, parameter_ref },
        ErrorKind::Parity => ErrorCheckView::Parity {
            type_: v.parity,
            bits_from_reference,
            reference: v.reference,
            parameter_ref,
        },
    }
}

/// The check a row gives (see [`check_of_values`]).
pub fn content(values: &ErrorValues, algorithm: InputAlgorithm) -> (r: ErrorCheck)
    ensures
        r@ == check_of_values(values@, algorithm@),
{
    let bits_from_reference = integer(&values.bits_from_reference);
    let parameter_ref = optional(values.parameter_ref.as_str());
    match values.kind {
        ErrorKind::Checksum => ErrorCheck::Checksum {
            bits_from_reference,
            reference: values.reference,
            name: values.checksum_name,
            hash_size_in_bits: parse_i64(&trim_chars(&chars_of(values.hash_size_in_bits.as_str()))),
            parameter_ref,
            input_algorithm: if values.input_algorithm_present {
                Some(algorithm)
            } else {
                None
            },
        },
        ErrorKind::Crc => ErrorCheck::Crc {
            width: integer(&values.crc_width),
            reflect_data: values.reflect_data,
            reflect_remainder: values.reflect_remainder,
            direction: match values.direction {
                DirectionChoice::MostSignificantBitFirst => BitOrder::MostSignificantFirst,
                DirectionChoice::LeastSignificantBitFirst => BitOrder::LeastSignificantFirst,
            },
            bits_from_reference,
            reference: values.reference,
            parameter_ref,
            polynomial: values.polynomial.clone(),
            init_remainder: optional(values.init_remainder.as_str()),
            final_xor: optional(values.final_xor.as_str()),
        },
        ErrorKind::Xor => ErrorCheck::Xor {
            bits_from_reference,
            reference: values.reference,
            parameter_ref,
        },
        ErrorKind::Parity => ErrorCheck::Parity {
            type_: values.parity,
            bits_from_reference,
            reference: values.reference,
            parameter_ref,
        },
    }
}

/// Whether a check is shown by a row and given back unchanged: its
/// optional texts are non-empty and trimmed.
pub open spec fn clean_check(c: ErrorCheckView) -> bool {
    match c {
        ErrorCheckView::Checksum { parameter_ref, .. } => clean_optional(parameter_ref),
        ErrorCheckView::Crc { parameter_ref, init_remainder, final_xor, .. } => clean_optional(
            parameter_ref,
        ) && clean_optional(init_remainder) && clean_optional(final_xor),
        ErrorCheckView::Xor { parameter_ref, .. } => clean_optional(parameter_ref),
        ErrorCheckView::Parity { parameter_ref, .. } => clean_optional(parameter_ref),
    }
}

proof fn lemma_integer_back(v: i64)
    ensures
        integer_of(int_text(v as int)) == v,
        parse_i64_spec(trim(int_text(v as int))) == Some(v),
{
    crate::number::lemma_i64_round_trip(v);
    crate::text::lemma_trim_trimmed(int_text(v as int));
}

/// Showing a check in a row and taking the row's check gives it back, when
/// it is clean (see [`clean_check`]) and the row's sub-form holds the
/// check's own input algorithm.
pub proof fn lemma_check_round_trip(c: ErrorCheckView, algorithm: InputAlgorithmView)
    requires
        clean_check(c),
        c matches ErrorCheckView::Checksum { input_algorithm: Some(a), .. } ==> a == algorithm,
    ensures
        check_of_values(values_of_check(c), algorithm) == c,
{
    match c {
        ErrorCheckView::Checksum { bits_from_reference, parameter_ref, hash_size_in_bits, .. } => {
            lemma_integer_back(bits_from_reference);
            crate::fields::lemma_optional_back(parameter_ref);
            match hash_size_in_bits {
                Some(h) => lemma_integer_back(h),
                None => {
                    assert(trim(Seq::<char>::empty()) =~= Seq::<char>::empty());
                },
            }
        },
        ErrorCheckView::Crc {
            width,
            direction,
            bits_from_reference,
            parameter_ref,
            init_remainder,
            final_xor,
            ..
        } => {
            lemma_integer_back(bits_from_reference);
            lemma_integer_back(width);
            crate::fields::lemma_optional_back(parameter_ref);
            crate::fields::lemma_optional_back(init_remainder);
            crate::fields::lemma_optional_back(final_xor);
        },
        ErrorCheckView::Xor { bits_from_reference, parameter_ref, .. } => {
            lemma_integer_back(bits_from_reference);
            crate::fields::lemma_optional_back(parameter_ref);
        },
        ErrorCheckView::Parity { bits_from_reference, parameter_ref, .. } => {
            lemma_integer_back(bits_from_reference);
            crate::fields::lemma_optional_back(parameter_ref);
        },
    }
}

/// The values of a list of rows.
pub open spec fn error_rows_view(v: Seq<ErrorValues>) -> Seq<ErrorValuesView> {
    v.map_values(|r: ErrorValues| r@)
}

/// The values of a list of checks.
pub open spec fn checks_view(v: Seq<ErrorCheck>) -> Seq<ErrorCheckView> {
    v.map_values(|c: ErrorCheck| c@)
}

/// What the form shows for an optional error detection: whether it is
/// there, and a row for each of its checks (see [`values_of_check`]).
pub open spec fn form_rows_of(o: Option<Seq<ErrorCheckView>>) -> (bool, Seq<ErrorValuesView>) {
    match o {
        Some(s) => (true, s.map_values(|c: ErrorCheckView| values_of_check(c))),
        None => (false, Seq::empty()),
    }
}

/// What the form shows for an optional error detection (see
/// [`form_rows_of`]).
pub fn form_rows(o: Option<&Vec<ErrorCheck>>) -> (r: (bool, Vec<ErrorValues>))
    ensures
        (r.0, error_rows_view(r.1@)) == form_rows_of(
            match o {
                Some(v) => Some(checks_view(v@)),
                None => None,
            },
        ),
{
    let mut rows: Vec<ErrorValues> = Vec::new();
    match o {
        None => {
            assert(error_rows_view(rows@) =~= Seq::<ErrorValuesView>::empty());
            (false, rows)
        },
        Some(v) => {
            let mut i: usize = 0;
            while i < v.len()
                invariant
                    i <= v.len(),
                    rows@.len() == i,
                    forall|j: int| 0 <= j < i ==> (#[trigger] rows@[j])@ == values_of_check(v@[j]@),
                decreases v.len() - i,
            {
                rows.push(ErrorValues::from_content(&v[i]));
                i = i + 1;
            }
            assert(error_rows_view(rows@) =~= checks_view(v@).map_values(
                |c: ErrorCheckView| values_of_check(c),
            ));
            (true, rows)
        },
    }
}

/// The error detection the form gives: none when it is not there; else
/// the check of each row, with the input algorithm of the row's sub-form.
pub open spec fn applied_checks_of(
    present: bool,
    rows: Seq<ErrorValuesView>,
    algorithms: Seq<InputAlgorithmView>,
) -> Option<Seq<ErrorCheckView>> {
    if present {
        Some(Seq::new(rows.len(), |i: int| check_of_values(rows[i], algorithms[i])))
    } else {
        None
    }
}

/// The error detection the form gives (see [`applied_checks_of`]); each
/// row comes with the algorithm of its sub-form.
pub fn form_checks(present: bool, rows: &Vec<ErrorValues>, algorithms: Vec<InputAlgorithm>) -> (r:
    Option<Vec<ErrorCheck>>)
    requires
        algorithms.len() == rows.len(),
    ensures
        match r {
            Some(v) => Some(checks_view(v@)),
            None => None,
        } == applied_checks_of(
            present,
            error_rows_view(rows@),
            algorithms@.map_values(|a: InputAlgorithm| a@),
        ),
{
    if !present {
        return None;
    }
    let ghost all = algorithms@;
    let mut rest = algorithms;
    let mut checks: Vec<ErrorCheck> = Vec::new();
    let mut i: usize = 0;
    while i < rows.len()
        invariant
            i <= rows.len(),
            all.len() == rows.len(),
            rest@ == all.subrange(i as int, all.len() as int),
            checks@.len() == i,
            forall|j: int| 0 <= j < i ==> (#[trigger] checks@[j])@ == check_of_values(rows@[j]@, all[j]@),
        decreases rows.len() - i,
    {
        let a = rest.remove(0);
        checks.push(content(&rows[i], a));
        i = i + 1;
        assert(rest@ =~= all.subrange(i as int, all.len() as int));
    }
    assert(checks_view(checks@) =~= Seq::new(
        error_rows_view(rows@).len(),
        |k: int| check_of_values(error_rows_view(rows@)[k], all.map_values(|a: InputAlgorithm| a@)[k]),
    ));
    Some(checks)
}

/// The form gives back the error detection it shows: nothing when there
/// is none, and each check when they are clean (see [`clean_check`]) and
/// each row's sub-form holds its check's own input algorithm.
pub proof fn lemma_checks_round_trip(
    o: Option<Seq<ErrorCheckView>>,
    algorithms: Seq<InputAlgorithmView>,
)
    requires
        o matches Some(s) ==> algorithms.len() == s.len() && forall|i: int|
            0 <= i < s.len() ==> clean_check(#[trigger] s[i]) && (s[i] matches ErrorCheckView::Checksum {
                input_algorithm: Some(a),
                ..
            } ==> a == algorithms[i]),
    ensures
        applied_checks_of(form_rows_of(o).0, form_rows_of(o).1, algorithms) == o,
{
    if let Some(s) = o {
        let back = applied_checks_of(true, form_rows_of(o).1, algorithms)->Some_0;
        assert forall|i: int| 0 <= i < s.len() implies back[i] == s[i] by {
            assert(clean_check(s[i]));
            lemma_check_round_trip(s[i], algorithms[i]);
        }
        assert(back =~= s);
    }
}

} // verus!

//! The significance of a command in a context: its consequence level,
//! the reason for a warning and the space system at risk, as the context
//! significance form shows and applies them.
use vstd::prelude::*;
use crate::algorithm::{opt_text, text_or_empty};
use crate::choice::{Choice, choice_named, label, lemma_label_round_trip, parse_choice};
use crate::fields::{optional, optional_text, text_of};
use crate::text::{is_space, is_trimmed};

verus! {

/// How grave it is to send a command in a context, as XTCE writes it.
#[derive(Clone, Copy, Debug, PartialEq, Eq, Structural)]
pub enum ConsequenceLevel {
    Normal,
    Vital,
    Critical,
    Forbidden,
    User1,
    User2,
}

impl Choice for ConsequenceLevel {
    open spec fn label_of(c: ConsequenceLevel) -> Seq<char> {
        match c {
            ConsequenceLevel::Normal => seq!['n', 'o', 'r', 'm', 'a', 'l'],
            ConsequenceLevel::Vital => seq!['v', 'i', 't', 'a', 'l'],
            ConsequenceLevel::Critical => seq!['c', 'r', 'i', 't', 'i', 'c', 'a', 'l'],
            ConsequenceLevel::Forbidden => seq!['f', 'o', 'r', 'b', 'i', 'd', 'd', 'e', 'n'],
            ConsequenceLevel::User1 => seq!['u', 's', 'e', 'r', '1'],
            ConsequenceLevel::User2 => seq!['u', 's', 'e', 'r', '2'],
        }
    }

    open spec fn variants() -> Seq<ConsequenceLevel> {
        seq![ConsequenceLevel::Normal, ConsequenceLevel::Vital, ConsequenceLevel::Critical, ConsequenceLevel::Forbidden, ConsequenceLevel::User1, ConsequenceLevel::User2]
    }

    fn variant_list() -> (r: Vec<ConsequenceLevel>) {
        let r = vec![ConsequenceLevel::Normal, ConsequenceLevel::Vital, ConsequenceLevel::Critical, ConsequenceLevel::Forbidden, ConsequenceLevel::User1, ConsequenceLevel::User2];
        assert(r@ =~= Self::variants());
        r
    }

    fn label_chars(self) -> (r: Vec<char>) {
        let r = match self {
            ConsequenceLevel::Normal => vec!['n', 'o', 'r', 'm', 'a', 'l'],
            ConsequenceLevel::Vital => vec!['v', 'i', 't', 'a', 'l'],
            ConsequenceLevel::Critical => vec!['c', 'r', 'i', 't', 'i', 'c', 'a', 'l'],
            ConsequenceLevel::Forbidden => vec!['f', 'o', 'r', 'b', 'i', 'd', 'd', 'e', 'n'],
            ConsequenceLevel::User1 => vec!['u', 's', 'e', 'r', '1'],
            ConsequenceLevel::User2 => vec!['u', 's', 'e', 'r', '2'],
        };
        assert(r@ =~= Self::label_of(self));
        r
    }

    proof fn lemma_choice() {
        assert forall|c: ConsequenceLevel| Self::variants().contains(c) by {
            match c {
                ConsequenceLevel::Normal => { assert(Self::variants()[0] == c); },
                ConsequenceLevel::Vital => { assert(Self::variants()[1] == c); },
                ConsequenceLevel::Critical => { assert(Self::variants()[2] == c); },
                ConsequenceLevel::Forbidden => { assert(Self::variants()[3] == c); },
                ConsequenceLevel::User1 => { assert(Self::variants()[4] == c); },
                ConsequenceLevel::User2 => { assert(Self::variants()[5] == c); },
            }
        }
        assert forall|a: ConsequenceLevel, b: ConsequenceLevel| Self::label_of(a) == Self::label_of(b) implies a == b by {
            match (a, b) {
                (ConsequenceLevel::Normal, ConsequenceLevel::Vital) => { assert(Self::label_of(a).len() != Self::label_of(b).len()); },
                (ConsequenceLevel::Normal, ConsequenceLevel::Critical) => { assert(Self::label_of(a).len() != Self::label_of(b).len()); },
                (ConsequenceLevel::Normal, ConsequenceLevel::Forbidden) => { assert(Self::label_of(a).len() != Self::label_of(b).len()); },
                (ConsequenceLevel::Normal, ConsequenceLevel::User1) => { assert(Self::label_of(a).len() != Self::label_of(b).len()); },
                (ConsequenceLevel::Normal, ConsequenceLevel::User2) => { assert(Self::label_of(a).len() != Self::label_of(b).len()); },
                (ConsequenceLevel::Vital, ConsequenceLevel::Normal) => { assert(Self::label_of(a).len() != Self::label_of(b).len()); },
                (ConsequenceLevel::Vital, ConsequenceLevel::Critical) => { assert(Self::label_of(a).len() != Self::label_of(b).len()); },
                (ConsequenceLevel::Vital, ConsequenceLevel::Forbidden) => { assert(Self::label_of(a).len() != Self::label_of(b).len()); },
                (ConsequenceLevel::Vital, ConsequenceLevel::User1) => { assert(Self::label_of(a)[0] != Self::label_of(b)[0]); },
                (ConsequenceLevel::Vital, ConsequenceLevel::User2) => { assert(Self::label_of(a)[0] != Self::label_of(b)[0]); },
                (ConsequenceLevel::Critical, ConsequenceLevel::Normal) => { assert(Self::label_of(a).len() != Self::label_of(b).len()); },
                (ConsequenceLevel::Critical, ConsequenceLevel::Vital) => { assert(Self::label_of(a).len() != Self::label_of(b).len()); },
                (ConsequenceLevel::Critical, ConsequenceLevel::Forbidden) => { assert(Self::label_of(a).len() != Self::label_of(b).len()); },
                (ConsequenceLevel::Critical, ConsequenceLevel::User1) => { assert(Self::label_of(a).len() != Self::label_of(b).len()); },
                (ConsequenceLevel::Critical, ConsequenceLevel::User2) => { assert(Self::label_of(a).len() != Self::label_of(b).len()); },
                (ConsequenceLevel::Forbidden, ConsequenceLevel::Normal) => { assert(Self::label_of(a).len() != Self::label_of(b).len()); },
                (ConsequenceLevel::Forbidden, ConsequenceLevel::Vital) => { assert(Self::label_of(a).len() != Self::label_of(b).len()); },
                (ConsequenceLevel::Forbidden, ConsequenceLevel::Critical) => { assert(Self::label_of(a).len() != Self::label_of(b).len()); },
                (ConsequenceLevel::Forbidden, ConsequenceLevel::User1) => { assert(Self::label_of(a).len() != Self::label_of(b).len()); },
                (ConsequenceLevel::Forbidden, ConsequenceLevel::User2) => { assert(Self::label_of(a).len() != Self::label_of(b).len()); },
                (ConsequenceLevel::User1, ConsequenceLevel::Normal) => { assert(Self::label_of(a).len() != Self::label_of(b).len()); },
                (ConsequenceLevel::User1, ConsequenceLevel::Vital) => { assert(Self::label_of(a)[0] != Self::label_of(b)[0]); },
                (ConsequenceLevel::User1, ConsequenceLevel::Critical) => { assert(Self::label_of(a).len() != Self::label_of(b).len()); },
                (ConsequenceLevel::User1, ConsequenceLevel::Forbidden) => { assert(Self::label_of(a).len() != Self::label_of(b).len()); },
                (ConsequenceLevel::User1, ConsequenceLevel::User2) => { assert(Self::label_of(a)[4] != Self::label_of(b)[4]); },
                (ConsequenceLevel::User2, ConsequenceLevel::Normal) => { assert(Self::label_of(a).len() != Self::label_of(b).len()); },
                (ConsequenceLevel::User2, ConsequenceLevel::Vital) => { assert(Self::label_of(a)[0] != Self::label_of(b)[0]); },
                (ConsequenceLevel::User2, ConsequenceLevel::Critical) => { assert(Self::label_of(a).len() != Self::label_of(b).len()); },
                (ConsequenceLevel::User2, ConsequenceLevel::Forbidden) => { assert(Self::label_of(a).len() != Self::label_of(b).len()); },
                (ConsequenceLevel::User2, ConsequenceLevel::User1) => { assert(Self::label_of(a)[4] != Self::label_of(b)[4]); },
                _ => {},
            }
        }
        assert forall|c: ConsequenceLevel| is_trimmed(#[trigger] Self::label_of(c)) && Self::label_of(c).len() > 0 by {
            let l = Self::label_of(c);
            assert(!is_space(l[0]) && !is_space(l[l.len() - 1]));
        }
    }
}

/// The consequence level XTCE's text names; `normal` for any other text.
pub open spec fn level_of_text(t: Seq<char>) -> ConsequenceLevel {
    match choice_named::<ConsequenceLevel>(t) {
        Some(l) => l,
        None => ConsequenceLevel::Normal,
    }
}

/// The text XTCE writes for a consequence level.
pub fn level_to_xtce(level: ConsequenceLevel) -> (r: String)
    ensures
        r@ == ConsequenceLevel::label_of(level),
{
    label(level)
}

/// The consequence level of XTCE's text (see [`level_of_text`]).
pub fn level_from_xtce(text: &str) -> (r: ConsequenceLevel)
    ensures
        r == level_of_text(text@),
{
    parse_choice(text, ConsequenceLevel::Normal)
}

/// Reading back the text written for a consequence level gives the level.
pub proof fn lemma_level_round_trip(level: ConsequenceLevel)
    ensures
        level_of_text(ConsequenceLevel::label_of(level)) == level,
{
    lemma_label_round_trip(level);
}

/// The significance of a command in a context.
#[derive(Debug)]
pub struct Significance {
    pub space_system_at_risk: Option<String>,
    pub reason_for_warning: Option<String>,
    pub consequence_level: ConsequenceLevel,
}

/// The value of a [`Significance`].
pub struct SignificanceView {
    pub space_system_at_risk: Option<Seq<char>>,
    pub reason_for_warning: Option<Seq<char>>,
    pub consequence_level: ConsequenceLevel,
}

impl View for Significance {
    type V = SignificanceView;

    open spec fn view(&self) -> SignificanceView {
        SignificanceView {
            space_system_at_risk: opt_text(self.space_system_at_risk),
            reason_for_warning: opt_text(self.reason_for_warning),
            consequence_level: self.consequence_level,
        }
    }
}

/// The texts and choice of one row of the context significance form.
#[derive(Debug)]
pub struct SignificanceValues {
    pub consequence_level: ConsequenceLevel,
    pub reason_for_warning: String,
    pub space_system_at_risk: String,
}

/// The value of [`SignificanceValues`].
pub struct SignificanceValuesView {
    pub consequence_level: ConsequenceLevel,
    pub reason_for_warning: Seq<char>,
    pub space_system_at_risk: Seq<char>,
}

impl View for SignificanceValues {
    type V = SignificanceValuesView;

    open spec fn view(&self) -> SignificanceValuesView {
        SignificanceValuesView {
            consequence_level: self.consequence_level,
            reason_for_warning: self.reason_for_warning@,
            space_system_at_risk: self.space_system_at_risk@,
        }
    }
}

/// What a row shows for a significance: a new row shows `normal` and
/// empty texts.
pub open spec fn significance_values_of(s: Option<SignificanceView>) -> SignificanceValuesView {
    match s {
        Some(s) => SignificanceValuesView {
            consequence_level: s.consequence_level,
            reason_for_warning: text_or_empty(s.reason_for_warning),
            space_system_at_risk: text_or_empty(s.space_system_at_risk),
        },
        None => SignificanceValuesView {
            consequence_level: ConsequenceLevel::Normal,
            reason_for_warning: Seq::empty(),
            space_system_at_risk: Seq::empty(),
        },
    }
}

/// What a row shows for a significance (see [`significance_values_of`]).
pub fn significance_values(s: Option<&Significance>) -> (r: SignificanceValues)
    ensures
        r@ == significance_values_of(
            match s {
                Some(s) => Some(s@),
                None => None,
            },
        ),
{
    match s {
        Some(s) => SignificanceValues {
            consequence_level: s.consequence_level,
            reason_for_warning: text_of(&s.reason_for_warning),
            space_system_at_risk: text_of(&s.space_system_at_risk),
        },
        None => SignificanceValues {
            consequence_level: ConsequenceLevel::Normal,
            reason_for_warning: String::new(),
            space_system_at_risk: String::new(),
        },
    }
}

/// The significance a row gives: its level, and its texts trimmed, blank
/// ones giving nothing.
pub open spec fn significance_of(v: SignificanceValuesView) -> SignificanceView {
    SignificanceView {
        space_system_at_risk: optional_text(v.space_system_at_risk),
        reason_for_warning: optional_text(v.reason_for_warning),
        consequence_level: v.consequence_level,
    }
}

/// The significance a row gives (see [`significance_of`]).
pub fn significance(v: &SignificanceValues) -> (r: Significance)
    ensures
        r@ == significance_of(v@),
{
    Significance {
        space_system_at_risk: optional(v.space_system_at_risk.as_str()),
        reason_for_warning: optional(v.reason_for_warning.as_str()),
        consequence_level: v.consequence_level,
    }
}

/// What a row shows for a significance gives it back, when its texts are
/// non-empty and trimmed if present.
pub proof fn lemma_significance_round_trip(s: SignificanceView)
    requires
        crate::fields::clean_optional(s.space_system_at_risk),
        crate::fields::clean_optional(s.reason_for_warning),
    ensures
        significance_of(significance_values_of(Some(s))) == s,
{
    crate::fields::lemma_optional_back(s.space_system_at_risk);
    crate::fields::lemma_optional_back(s.reason_for_warning);
}

} // verus!

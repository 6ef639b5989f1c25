//! Choices the forms offer from a fixed list, each shown by its label, and
//! reading a choice back from its label.
use vstd::prelude::*;
use crate::text::{chars_of, is_trimmed, same_chars, string_of, trim, trim_chars};

verus! {

/// A fixed list of choices, each with its own label.
pub trait Choice: Sized + Copy {
    /// The label of a choice.
    spec fn label_of(c: Self) -> Seq<char>;

    /// Every choice, in the order the form lists them.
    spec fn variants() -> Seq<Self>;

    /// Every choice, in the order the form lists them.
    fn variant_list() -> (r: Vec<Self>)
        ensures
            r@ == Self::variants(),
    ;

    /// The label of this choice.
    fn label_chars(self) -> (r: Vec<char>)
        ensures
            r@ == Self::label_of(self),
    ;

    /// The list holds every choice, no two choices share a label, and
    /// labels are non-empty and trimmed.
    proof fn lemma_choice()
        ensures
            forall|c: Self| Self::variants().contains(c),
            forall|a: Self, b: Self| Self::label_of(a) == Self::label_of(b) ==> a == b,
            forall|c: Self| is_trimmed(#[trigger] Self::label_of(c)) && Self::label_of(c).len() > 0,
    ;
}

/// The choice whose label is exactly `t`, if any.
pub open spec fn choice_named<T: Choice>(t: Seq<char>) -> Option<T> {
    if exists|c: T| T::label_of(c) == t {
        Some(choose|c: T| T::label_of(c) == t)
    } else {
        None
    }
}

/// The label of a choice.
pub fn label<T: Choice>(c: T) -> (r: String)
    ensures
        r@ == T::label_of(c),
{
    string_of(&c.label_chars())
}

/// The choice whose label is exactly the text.
pub fn choice_from_chars<T: Choice>(t: &Vec<char>) -> (r: Option<T>)
    ensures
        r == choice_named::<T>(t@),
{
    proof {
        T::lemma_choice();
    }
    let all = T::variant_list();
    let mut i: usize = 0;
    while i < all.len()
        invariant
            all@ == T::variants(),
            i <= all@.len(),
            forall|j: int| 0 <= j < i ==> T::label_of(#[trigger] all@[j]) != t@,
        decreases all.len() - i,
    {
        let c = all[i];
        if same_chars(&c.label_chars(), t) {
            proof {
                T::lemma_choice();
                let d = choose|d: T| T::label_of(d) == t@;
                assert(T::label_of(d) == T::label_of(c));
            }
            return Some(c);
        }
        i = i + 1;
    }
    proof {
        T::lemma_choice();
        if exists|c: T| T::label_of(c) == t@ {
            let c = choose|c: T| T::label_of(c) == t@;
            assert(T::variants().contains(c));
            let j = choose|j: int| 0 <= j < T::variants().len() && T::variants()[j] == c;
            assert(T::label_of(all@[j]) != t@);
        }
    }
    None
}

/// The choice whose label the trimmed text is, if any.
pub fn parse_label<T: Choice>(value: &str) -> (r: Option<T>)
    ensures
        r == choice_named::<T>(trim(value@)),
{
    choice_from_chars(&trim_chars(&chars_of(value)))
}

/// The choice whose label is exactly the text, else the fallback.
pub fn parse_choice<T: Choice>(label: &str, fallback: T) -> (r: T)
    ensures
        r == (match choice_named::<T>(label@) {
            Some(c) => c,
            None => fallback,
        }),
{
    match choice_from_chars(&chars_of(label)) {
        Some(c) => c,
        None => fallback,
    }
}

/// Reading a choice's label, trimmed or not, gives the choice back.
pub proof fn lemma_label_round_trip<T: Choice>(c: T)
    ensures
        choice_named::<T>(T::label_of(c)) == Some(c),
        trim(T::label_of(c)) == T::label_of(c),
{
    T::lemma_choice();
    let d = choose|d: T| T::label_of(d) == T::label_of(c);
    assert(T::label_of(d) == T::label_of(c));
    crate::text::lemma_trim_trimmed(T::label_of(c));
}

} // verus!

//! Reading the text of one form field: trimmed values, optional values,
//! fallbacks and optional numbers.
use vstd::prelude::*;
use crate::algorithm::{opt_text, text_or_empty};
use crate::number::{parse_i64, parse_i64_spec, parse_u32, parse_u32_spec, parse_u64, parse_u64_spec};
use crate::text::{chars_of, string_of, trim, trim_chars};

verus! {

/// The trimmed text, or nothing when it is blank.
pub open spec fn optional_text(s: Seq<char>) -> Option<Seq<char>> {
    if trim(s).len() == 0 {
        None
    } else {
        Some(trim(s))
    }
}

/// Whether an optional text is absent, or non-empty and trimmed: what
/// a field shows of it reads back unchanged.
pub open spec fn clean_optional(o: Option<Seq<char>>) -> bool {
    match o {
        Some(s) => s.len() > 0 && crate::text::is_trimmed(s),
        None => true,
    }
}

/// The trimmed text of a field, or `None` when it is blank.
pub fn optional(value: &str) -> (r: Option<String>)
    ensures
        match r {
            Some(t) => optional_text(value@) == Some(t@),
            None => optional_text(value@) is None,
        },
{
    let t = trim_chars(&chars_of(value));
    if t.len() == 0 {
        None
    } else {
        Some(string_of(&t))
    }
}

/// The trimmed text of a field, or the fallback when it is blank.
pub fn non_empty_or(value: String, fallback: String) -> (r: String)
    ensures
        r@ == (if trim(value@).len() == 0 {
            fallback@
        } else {
            trim(value@)
        }),
{
    let t = trim_chars(&chars_of(value.as_str()));
    if t.len() == 0 {
        fallback
    } else {
        string_of(&t)
    }
}

/// A number type that can be read from its decimal text.
pub trait ParseText: Sized {
    /// What `str::parse` gives for the text.
    spec fn parse_spec(s: Seq<char>) -> Option<Self>;

    /// Reads the text as `str::parse` does.
    fn parse_text(v: &Vec<char>) -> (r: Option<Self>)
        ensures
            r == Self::parse_spec(v@),
    ;
}

impl ParseText for i64 {
    open spec fn parse_spec(s: Seq<char>) -> Option<i64> {
        parse_i64_spec(s)
    }

    fn parse_text(v: &Vec<char>) -> (r: Option<i64>) {
        parse_i64(v)
    }
}

impl ParseText for u64 {
    open spec fn parse_spec(s: Seq<char>) -> Option<u64> {
        parse_u64_spec(s)
    }

    fn parse_text(v: &Vec<char>) -> (r: Option<u64>) {
        parse_u64(v)
    }
}

impl ParseText for u32 {
    open spec fn parse_spec(s: Seq<char>) -> Option<u32> {
        parse_u32_spec(s)
    }

    fn parse_text(v: &Vec<char>) -> (r: Option<u32>) {
        parse_u32(v)
    }
}

/// The number a field holds: nothing when it is blank or does not read as
/// a number.
pub fn optional_parse<T: ParseText>(value: &str) -> (r: Option<T>)
    ensures
        r == (if trim(value@).len() == 0 {
            None
        } else {
            T::parse_spec(trim(value@))
        }),
{
    let t = trim_chars(&chars_of(value));
    if t.len() == 0 {
        None
    } else {
        T::parse_text(&t)
    }
}

/// The text a field shows for an optional value: empty when there is
/// none.
pub fn text_of(o: &Option<String>) -> (r: String)
    ensures
        r@ == text_or_empty(opt_text(*o)),
{
    match o {
        Some(s) => s.clone(),
        None => String::new(),
    }
}

/// What a field shows of a clean optional text (see [`clean_optional`])
/// reads back unchanged.
pub proof fn lemma_optional_back(o: Option<Seq<char>>)
    requires
        clean_optional(o),
    ensures
        optional_text(text_or_empty(o)) == o,
{
    match o {
        Some(s) => crate::text::lemma_trim_trimmed(s),
        None => crate::text::lemma_trim_trimmed(Seq::<char>::empty()),
    }
}

/// A whole number read from a field's trimmed text, or 0 when it does not
/// read as one.
pub open spec fn integer_of(t: Seq<char>) -> i64 {
    match parse_i64_spec(trim(t)) {
        Some(n) => n,
        None => 0,
    }
}

/// A whole number read from a field (see [`integer_of`]).
pub fn integer(t: &String) -> (r: i64)
    ensures
        r == integer_of(t@),
{
    match parse_i64(&trim_chars(&chars_of(t.as_str()))) {
        Some(n) => n,
        None => 0,
    }
}

} // verus!

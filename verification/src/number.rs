//! Decimal integers in text: reading them as Rust's `FromStr` for integers
//! does, and writing them as `Display` does.
use vstd::prelude::*;
use crate::text::is_trimmed;

verus! {

/// Whether a character is an ASCII decimal digit.
pub open spec fn is_digit(c: char) -> bool {
    48 <= (c as u32) && (c as u32) <= 57
}

/// The value of an ASCII decimal digit.
pub open spec fn digit_value(c: char) -> int {
    (c as u32) - 48
}

/// Whether every character is an ASCII decimal digit.
pub open spec fn all_digits(s: Seq<char>) -> bool {
    forall|i: int| 0 <= i < s.len() ==> is_digit(#[trigger] s[i])
}

/// The number that a string of decimal digits denotes.
pub open spec fn digits_value(s: Seq<char>) -> int
    decreases s.len(),
{
    if s.len() == 0 {
        0
    } else {
        digits_value(s.drop_last()) * 10 + digit_value(s.last())
    }
}

/// The integer a text denotes under Rust's integer grammar: an optional
/// sign, then one or more decimal digits, nothing else.
pub open spec fn int_value(s: Seq<char>) -> Option<int> {
    if s.len() > 0 && (s[0] == '+' || s[0] == '-') {
        let d = s.drop_first();
        if d.len() > 0 && all_digits(d) {
            Some(
                if s[0] == '-' {
                    -digits_value(d)
                } else {
                    digits_value(d)
                },
            )
        } else {
            None
        }
    } else if s.len() > 0 && all_digits(s) {
        Some(digits_value(s))
    } else {
        None
    }
}

/// What `str::parse::<i64>` gives for the text.
pub open spec fn parse_i64_spec(s: Seq<char>) -> Option<i64> {
    match int_value(s) {
        Some(v) => if i64::MIN <= v <= i64::MAX {
            Some(v as i64)
        } else {
            None
        },
        None => None,
    }
}

/// What `str::parse` gives for an unsigned type whose largest value is
/// `max`: a `-` sign is refused.
pub open spec fn parse_unsigned_spec(s: Seq<char>, max: int) -> Option<int> {
    if s.len() > 0 && s[0] == '-' {
        None
    } else {
        match int_value(s) {
            Some(v) => if 0 <= v <= max {
                Some(v)
            } else {
                None
            },
            None => None,
        }
    }
}

/// What `str::parse::<u32>` gives for the text.
pub open spec fn parse_u32_spec(s: Seq<char>) -> Option<u32> {
    match parse_unsigned_spec(s, u32::MAX as int) {
        Some(v) => Some(v as u32),
        None => None,
    }
}

/// What `str::parse::<u64>` gives for the text.
pub open spec fn parse_u64_spec(s: Seq<char>) -> Option<u64> {
    match parse_unsigned_spec(s, u64::MAX as int) {
        Some(v) => Some(v as u64),
        None => None,
    }
}

/// The decimal digits of a natural number, without leading zeros.
pub open spec fn decimal(n: nat) -> Seq<char>
    decreases n,
{
    if n < 10 {
        seq![((n + 48) as u32) as char]
    } else {
        decimal(n / 10).push((((n % 10) + 48) as u32) as char)
    }
}

/// An integer as `Display` writes it.
pub open spec fn int_text(v: int) -> Seq<char> {
    if v < 0 {
        seq!['-'] + decimal((-v) as nat)
    } else {
        decimal(v as nat)
    }
}

pub proof fn lemma_digits_value_nonneg(s: Seq<char>)
    requires
        all_digits(s),
    ensures
        digits_value(s) >= 0,
    decreases s.len(),
{
    if s.len() > 0 {
        assert(is_digit(s[s.len() - 1]));
        assert(all_digits(s.drop_last())) by {
            assert forall|i: int| 0 <= i < s.drop_last().len() implies is_digit(
                #[trigger] s.drop_last()[i],
            ) by {
                assert(s.drop_last()[i] == s[i]);
            }
        }
        lemma_digits_value_nonneg(s.drop_last());
    }
}

proof fn lemma_all_digits_take(s: Seq<char>, i: int)
    requires
        all_digits(s),
        0 <= i <= s.len(),
    ensures
        all_digits(s.take(i)),
{
    assert forall|k: int| 0 <= k < s.take(i).len() implies is_digit(#[trigger] s.take(i)[k]) by {
        assert(s.take(i)[k] == s[k]);
    }
}

/// A longer run of digits is worth at least as much as its prefixes.
proof fn lemma_digits_value_prefix(s: Seq<char>, i: int)
    requires
        all_digits(s),
        0 <= i <= s.len(),
    ensures
        digits_value(s.take(i)) <= digits_value(s),
    decreases s.len() - i,
{
    if i < s.len() {
        lemma_digits_value_prefix(s, i + 1);
        let t = s.take(i + 1);
        assert(t.drop_last() =~= s.take(i));
        lemma_all_digits_take(s, i);
        lemma_digits_value_nonneg(s.take(i));
        assert(is_digit(s[i]));
        assert(t.last() == s[i]);
    } else {
        assert(s.take(i) =~= s);
    }
}

/// Reads the digits `v[start..]`; `None` when one is not a digit or the
/// value exceeds 2^64.
fn read_digits(v: &Vec<char>, start: usize) -> (r: Option<u128>)
    requires
        start <= v.len(),
    ensures
        r matches Some(x) ==> all_digits(v@.skip(start as int)) && x == digits_value(
            v@.skip(start as int),
        ) && x <= 0x1_0000_0000_0000_0000,
        r is None ==> !all_digits(v@.skip(start as int)) || digits_value(v@.skip(start as int))
            > 0x1_0000_0000_0000_0000,
{
    let ghost d = v@.skip(start as int);
    let mut acc: u128 = 0;
    let mut i: usize = start;
    while i < v.len()
        invariant
            start <= i <= v.len(),
            d == v@.skip(start as int),
            all_digits(d.take(i - start)),
            acc == digits_value(d.take(i - start)),
            acc <= 0x1_0000_0000_0000_0000,
        decreases v.len() - i,
    {
        let c = v[i];
        let n = c as u32;
        if n < 48 || n > 57 {
            assert(d[i - start] == c);
            return None;
        }
        let ghost before = d.take(i - start);
        acc = acc * 10 + (n - 48) as u128;
        i = i + 1;
        proof {
            let after = d.take(i - start);
            assert(after.drop_last() =~= before);
            assert(after.last() == c);
            assert forall|k: int| 0 <= k < after.len() implies is_digit(#[trigger] after[k]) by {
                if k < after.len() - 1 {
                    assert(after[k] == before[k]);
                }
            }
        }
        if acc > 0x1_0000_0000_0000_0000 {
            proof {
                if all_digits(d) {
                    lemma_digits_value_prefix(d, i - start);
                }
            }
            return None;
        }
    }
    assert(d.take(v.len() - start) =~= d);
    Some(acc)
}

/// Reads a decimal integer as `str::parse::<i64>` does.
pub fn parse_i64(v: &Vec<char>) -> (r: Option<i64>)
    ensures
        r == parse_i64_spec(v@),
{
    if v.len() == 0 {
        return None;
    }
    let first = v[0];
    let signed = first == '+' || first == '-';
    let start: usize = if signed {
        1
    } else {
        0
    };
    if signed && v.len() == 1 {
        return None;
    }
    proof {
        assert(v@.skip(1) =~= v@.drop_first());
        assert(v@.skip(0) =~= v@);
    }
    match read_digits(v, start) {
        None => None,
        Some(m) => {
            if first == '-' {
                if m <= 0x8000_0000_0000_0000 {
                    Some((0 - (m as i128)) as i64)
                } else {
                    None
                }
            } else if m <= 0x7fff_ffff_ffff_ffff {
                Some(m as i64)
            } else {
                None
            }
        },
    }
}

/// Reads a decimal integer as `str::parse` does for an unsigned type whose
/// largest value is `max`.
pub fn parse_unsigned(v: &Vec<char>, max: u64) -> (r: Option<u64>)
    ensures
        r matches Some(x) ==> parse_unsigned_spec(v@, max as int) == Some(x as int),
        r is None ==> parse_unsigned_spec(v@, max as int) is None,
{
    if v.len() == 0 {
        return None;
    }
    let first = v[0];
    if first == '-' {
        return None;
    }
    let signed = first == '+';
    let start: usize = if signed {
        1
    } else {
        0
    };
    if signed && v.len() == 1 {
        return None;
    }
    proof {
        assert(v@.skip(1) =~= v@.drop_first());
        assert(v@.skip(0) =~= v@);
    }
    match read_digits(v, start) {
        None => None,
        Some(m) => {
            if m <= max as u128 {
                Some(m as u64)
            } else {
                None
            }
        },
    }
}

/// Reads a decimal `u32` as `str::parse::<u32>` does.
pub fn parse_u32(v: &Vec<char>) -> (r: Option<u32>)
    ensures
        r == parse_u32_spec(v@),
{
    match parse_unsigned(v, 0xffff_ffff) {
        Some(x) => Some(x as u32),
        None => None,
    }
}

/// Reads a decimal `u64` as `str::parse::<u64>` does.
pub fn parse_u64(v: &Vec<char>) -> (r: Option<u64>)
    ensures
        r == parse_u64_spec(v@),
{
    parse_unsigned(v, 0xffff_ffff_ffff_ffff)
}

/// Appends the decimal digits of `n`.
pub fn push_decimal_wide(out: &mut Vec<char>, n: u128)
    ensures
        final(out)@ == old(out)@ + decimal(n as nat),
    decreases n,
{
    if n >= 10 {
        push_decimal_wide(out, n / 10);
    }
    let d = ((n % 10) as u32) + 48;
    let c = char_of_digit(d);
    out.push(c);
    proof {
        if n >= 10 {
            assert(decimal(n as nat) == decimal((n / 10) as nat).push((((n % 10) + 48) as u32) as char));
        }
    }
    assert(final(out)@ =~= old(out)@ + decimal(n as nat)) by {
        if n < 10 {
            assert(n % 10 == n);
        }
    };
}

/// The character of an ASCII digit code.
fn char_of_digit(d: u32) -> (c: char)
    requires
        48 <= d <= 57,
    ensures
        c == (d as char),
        c as u32 == d,
{
    if d == 48 { '0' } else if d == 49 { '1' } else if d == 50 { '2' } else if d == 51 { '3' }
    else if d == 52 { '4' } else if d == 53 { '5' } else if d == 54 { '6' } else if d == 55 { '7' }
    else if d == 56 { '8' } else { '9' }
}

/// Writes an `i64` in decimal, as `Display` does.
pub fn i64_text(v: i64) -> (r: Vec<char>)
    ensures
        r@ == int_text(v as int),
{
    let mut out: Vec<char> = Vec::new();
    if v < 0 {
        out.push('-');
        let m: u64 = (0 - (v as i128)) as u64;
        push_decimal_wide(&mut out, m as u128);
    } else {
        push_decimal_wide(&mut out, v as u128);
    }
    assert(out@ =~= int_text(v as int));
    out
}

/// Writes a `u64` in decimal, as `Display` does.
pub fn u64_text(v: u64) -> (r: Vec<char>)
    ensures
        r@ == int_text(v as int),
{
    let mut out: Vec<char> = Vec::new();
    push_decimal_wide(&mut out, v as u128);
    assert(out@ =~= int_text(v as int));
    out
}


pub proof fn lemma_decimal(n: nat)
    ensures
        decimal(n).len() >= 1,
        all_digits(decimal(n)),
        digits_value(decimal(n)) == n,
    decreases n,
{
    if n >= 10 {
        lemma_decimal(n / 10);
        let d = decimal(n / 10);
        let s = decimal(n);
        assert(s.drop_last() =~= d);
        assert(s.last() == (((n % 10) + 48) as u32) as char);
        assert forall|i: int| 0 <= i < s.len() implies is_digit(#[trigger] s[i]) by {
            if i < s.len() - 1 {
                assert(s[i] == d[i]);
            }
        }
        assert((n / 10) * 10 + n % 10 == n);
        assert(digit_value(s.last()) == n % 10);
        assert(digits_value(s) == digits_value(d) * 10 + digit_value(s.last()));
    } else {
        let s = decimal(n);
        assert(s.drop_last() =~= Seq::<char>::empty());
        assert(digit_value(s.last()) == n);
        assert(digits_value(s) == digits_value(s.drop_last()) * 10 + digit_value(s.last()));
    }
}

/// Reading back what [`int_text`] writes gives the number.
pub proof fn lemma_int_text_value(v: int)
    ensures
        int_value(int_text(v)) == Some(v),
        is_trimmed(int_text(v)),
        int_text(v).len() >= 1,
{
    if v < 0 {
        let d = decimal((-v) as nat);
        lemma_decimal((-v) as nat);
        let s = seq!['-'] + d;
        assert(s.drop_first() =~= d);
        assert(s[0] == '-');
        assert(s.last() == d.last());
        assert(is_digit(d[d.len() - 1]));
    } else {
        let d = decimal(v as nat);
        lemma_decimal(v as nat);
        assert(is_digit(d[0]));
        assert(is_digit(d[d.len() - 1]));
    }
}

/// `str::parse::<i64>` reads back what `Display` writes for an `i64`.
pub proof fn lemma_i64_round_trip(v: i64)
    ensures
        parse_i64_spec(int_text(v as int)) == Some(v),
        is_trimmed(int_text(v as int)),
{
    lemma_int_text_value(v as int);
}

/// `str::parse::<u64>` reads back what `Display` writes for a `u64`.
pub proof fn lemma_u64_round_trip(v: u64)
    ensures
        parse_u64_spec(int_text(v as int)) == Some(v),
        is_trimmed(int_text(v as int)),
{
    lemma_int_text_value(v as int);
    lemma_decimal(v as nat);
}

/// `str::parse::<u32>` reads back what `Display` writes for a `u32`.
pub proof fn lemma_u32_round_trip(v: u32)
    ensures
        parse_u32_spec(int_text(v as int)) == Some(v),
        is_trimmed(int_text(v as int)),
{
    lemma_int_text_value(v as int);
    lemma_decimal(v as nat);
}

/// The text without one leading `+` or `-`.
pub open spec fn strip_sign(s: Seq<char>) -> Seq<char> {
    if s.len() > 0 && (s[0] == '+' || s[0] == '-') {
        s.drop_first()
    } else {
        s
    }
}

/// Whether `s` spells the word in either of the two given letter cases,
/// letter by letter.
pub open spec fn spells(s: Seq<char>, lower: Seq<char>, upper: Seq<char>) -> bool {
    s.len() == lower.len() && lower.len() == upper.len() && forall|i: int|
        0 <= i < s.len() ==> s[i] == lower[i] || s[i] == upper[i]
}

/// The index of the first `e` or `E`.
pub open spec fn exponent_mark(s: Seq<char>) -> Option<int>
    decreases s.len(),
{
    if s.len() == 0 {
        None
    } else if s[0] == 'e' || s[0] == 'E' {
        Some(0)
    } else {
        match exponent_mark(s.drop_first()) {
            Some(i) => Some(i + 1),
            None => None,
        }
    }
}

/// Whether the text is the digits of a decimal number, with at most one
/// point and at least one digit.
pub open spec fn is_mantissa(m: Seq<char>) -> bool {
    match crate::text::index_of(m, '.') {
        Some(d) => m.len() >= 2 && all_digits(m.take(d)) && all_digits(m.skip(d + 1)),
        None => m.len() >= 1 && all_digits(m),
    }
}

/// Whether the text is an exponent: an optional sign and digits.
pub open spec fn is_exponent(x: Seq<char>) -> bool {
    strip_sign(x).len() >= 1 && all_digits(strip_sign(x))
}

/// Whether the text is a decimal number with an optional exponent.
pub open spec fn is_float_number(b: Seq<char>) -> bool {
    match exponent_mark(b) {
        Some(e) => is_mantissa(b.take(e)) && is_exponent(b.skip(e + 1)),
        None => is_mantissa(b),
    }
}

/// Whether `str::parse::<f64>` accepts the text: an optional sign, then
/// `inf`, `infinity` or `nan` in any letter case, or a decimal number with
/// an optional exponent.
pub open spec fn is_float_text(s: Seq<char>) -> bool {
    let b = strip_sign(s);
    ||| spells(b, seq!['i', 'n', 'f'], seq!['I', 'N', 'F'])
    ||| spells(
        b,
        seq!['i', 'n', 'f', 'i', 'n', 'i', 't', 'y'],
        seq!['I', 'N', 'F', 'I', 'N', 'I', 'T', 'Y'],
    )
    ||| spells(b, seq!['n', 'a', 'n'], seq!['N', 'A', 'N'])
    ||| is_float_number(b)
}

/// The characters `v[1..]` when `v` starts with a sign, else `v`.
fn strip_sign_chars(v: &Vec<char>) -> (r: Vec<char>)
    ensures
        r@ == strip_sign(v@),
{
    if v.len() > 0 && (v[0] == '+' || v[0] == '-') {
        let r = crate::text::slice_chars(v, 1, v.len());
        assert(r@ =~= v@.drop_first());
        r
    } else {
        let r = crate::text::slice_chars(v, 0, v.len());
        assert(r@ =~= v@);
        r
    }
}

/// Whether `v` spells the word in either letter case (see [`spells`]).
pub fn spells_exec(v: &Vec<char>, lower: &Vec<char>, upper: &Vec<char>) -> (r: bool)
    ensures
        r == spells(v@, lower@, upper@),
{
    if v.len() != lower.len() || lower.len() != upper.len() {
        return false;
    }
    let mut i: usize = 0;
    while i < v.len()
        invariant
            v@.len() == lower@.len() == upper@.len(),
            i <= v@.len(),
            forall|j: int| 0 <= j < i ==> v@[j] == lower@[j] || v@[j] == upper@[j],
        decreases v.len() - i,
    {
        if v[i] != lower[i] && v[i] != upper[i] {
            return false;
        }
        i = i + 1;
    }
    true
}

/// Whether every character of `v` is a digit.
fn all_digits_exec(v: &Vec<char>) -> (r: bool)
    ensures
        r == all_digits(v@),
{
    let mut i: usize = 0;
    while i < v.len()
        invariant
            i <= v@.len(),
            forall|j: int| 0 <= j < i ==> is_digit(#[trigger] v@[j]),
        decreases v.len() - i,
    {
        let n = v[i] as u32;
        if n < 48 || n > 57 {
            assert(!is_digit(v@[i as int]));
            return false;
        }
        i = i + 1;
    }
    true
}

proof fn lemma_exponent_mark(s: Seq<char>)
    ensures
        match exponent_mark(s) {
            Some(i) => 0 <= i < s.len() && (s[i] == 'e' || s[i] == 'E') && forall|j: int|
                0 <= j < i ==> s[j] != 'e' && s[j] != 'E',
            None => forall|j: int| 0 <= j < s.len() ==> s[j] != 'e' && s[j] != 'E',
        },
    decreases s.len(),
{
    if s.len() > 0 {
        lemma_exponent_mark(s.drop_first());
        assert forall|j: int| 0 < j < s.len() implies s[j] == s.drop_first()[j - 1] by {}
    }
}

/// Finds the first `e` or `E`.
fn find_exponent_mark(v: &Vec<char>) -> (r: Option<usize>)
    ensures
        match r {
            Some(i) => exponent_mark(v@) == Some(i as int) && i < v.len(),
            None => exponent_mark(v@) is None,
        },
{
    let mut i: usize = 0;
    while i < v.len()
        invariant
            i <= v@.len(),
            forall|j: int| 0 <= j < i ==> v@[j] != 'e' && v@[j] != 'E',
        decreases v.len() - i,
    {
        if v[i] == 'e' || v[i] == 'E' {
            proof {
                lemma_exponent_mark(v@);
                match exponent_mark(v@) {
                    Some(k) => {
                        if k > i {
                        }
                    },
                    None => {},
                }
            }
            return Some(i);
        }
        i = i + 1;
    }
    proof {
        lemma_exponent_mark(v@);
        match exponent_mark(v@) {
            Some(k) => {
                assert(v@[k] != 'e' && v@[k] != 'E');
            },
            None => {},
        }
    }
    None
}

/// Whether `m` is a mantissa (see [`is_mantissa`]).
fn is_mantissa_exec(m: &Vec<char>) -> (r: bool)
    ensures
        r == is_mantissa(m@),
{
    match crate::text::find_char(m, '.') {
        Some(d) => {
            let before = crate::text::slice_chars(m, 0, d);
            let after = crate::text::slice_chars(m, d + 1, m.len());
            assert(before@ =~= m@.take(d as int));
            assert(after@ =~= m@.skip(d + 1));
            m.len() >= 2 && all_digits_exec(&before) && all_digits_exec(&after)
        },
        None => m.len() >= 1 && all_digits_exec(m),
    }
}

/// Whether `x` is an exponent (see [`is_exponent`]).
fn is_exponent_exec(x: &Vec<char>) -> (r: bool)
    ensures
        r == is_exponent(x@),
{
    let y = strip_sign_chars(x);
    y.len() >= 1 && all_digits_exec(&y)
}

/// Whether `str::parse::<f64>` accepts the text (see [`is_float_text`]).
pub fn is_float_chars(v: &Vec<char>) -> (r: bool)
    ensures
        r == is_float_text(v@),
{
    let b = strip_sign_chars(v);
    let inf_lower = vec!['i', 'n', 'f'];
    let inf_upper = vec!['I', 'N', 'F'];
    let infinity_lower = vec!['i', 'n', 'f', 'i', 'n', 'i', 't', 'y'];
    let infinity_upper = vec!['I', 'N', 'F', 'I', 'N', 'I', 'T', 'Y'];
    let nan_lower = vec!['n', 'a', 'n'];
    let nan_upper = vec!['N', 'A', 'N'];
    assert(inf_lower@ =~= seq!['i', 'n', 'f']);
    assert(inf_upper@ =~= seq!['I', 'N', 'F']);
    assert(infinity_lower@ =~= seq!['i', 'n', 'f', 'i', 'n', 'i', 't', 'y']);
    assert(infinity_upper@ =~= seq!['I', 'N', 'F', 'I', 'N', 'I', 'T', 'Y']);
    assert(nan_lower@ =~= seq!['n', 'a', 'n']);
    assert(nan_upper@ =~= seq!['N', 'A', 'N']);
    if spells_exec(&b, &inf_lower, &inf_upper) || spells_exec(&b, &infinity_lower, &infinity_upper)
        || spells_exec(&b, &nan_lower, &nan_upper) {
        return true;
    }
    match find_exponent_mark(&b) {
        Some(e) => {
            let m = crate::text::slice_chars(&b, 0, e);
            let x = crate::text::slice_chars(&b, e + 1, b.len());
            assert(m@ =~= b@.take(e as int));
            assert(x@ =~= b@.skip(e + 1));
            is_mantissa_exec(&m) && is_exponent_exec(&x)
        },
        None => is_mantissa_exec(&b),
    }
}

/// The text of an integer holds only digits and a leading `-`: no `|`,
/// no line break.
pub proof fn lemma_int_text_plain(v: int)
    ensures
        !crate::text::has_char(int_text(v), '|'),
        crate::text::one_line(int_text(v)),
{
    lemma_int_text_value(v);
    let s = int_text(v);
    assert forall|i: int| 0 <= i < s.len() implies s[i] != '|' && s[i] != '\n' && s[i] != '\r' by {
        if v < 0 {
            let d = decimal((-v) as nat);
            lemma_decimal((-v) as nat);
            if i > 0 {
                assert(s[i] == d[i - 1]);
                assert(is_digit(d[i - 1]));
            }
        } else {
            lemma_decimal(v as nat);
            assert(is_digit(s[i]));
        }
    }
}


/// The empty text is no number.
pub proof fn lemma_empty_not_float()
    ensures
        !is_float_text(Seq::<char>::empty()),
{
    let e = Seq::<char>::empty();
    assert(strip_sign(e) == e);
    assert(exponent_mark(e) is None);
    match crate::text::index_of(e, '.') {
        Some(d) => {
            crate::text::lemma_index_of(e, '.');
        },
        None => {},
    }
}

} // verus!

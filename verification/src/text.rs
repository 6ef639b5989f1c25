//! Character-level text handling: whitespace trimming, splitting at a
//! separator, line splitting and joining, all stated over `Seq<char>`.
use vstd::prelude::*;

verus! {

/// Whether a character carries the Unicode `White_Space` property (the set
/// that `char::is_whitespace` and `str::trim` use).
pub open spec fn is_space(c: char) -> bool {
    let n = c as u32;
    (9 <= n && n <= 13) || n == 32 || n == 0x85 || n == 0xa0 || n == 0x1680 || (0x2000 <= n
        && n <= 0x200a) || n == 0x2028 || n == 0x2029 || n == 0x202f || n == 0x205f || n == 0x3000
}

/// Executable test for [`is_space`].
pub fn is_space_char(c: char) -> (r: bool)
    ensures
        r == is_space(c),
{
    let n = c as u32;
    (9 <= n && n <= 13) || n == 32 || n == 0x85 || n == 0xa0 || n == 0x1680 || (0x2000 <= n
        && n <= 0x200a) || n == 0x2028 || n == 0x2029 || n == 0x202f || n == 0x205f || n == 0x3000
}

/// The text without its leading white space.
pub open spec fn trim_start(s: Seq<char>) -> Seq<char>
    decreases s.len(),
{
    if s.len() > 0 && is_space(s[0]) {
        trim_start(s.drop_first())
    } else {
        s
    }
}

/// The text without its trailing white space.
pub open spec fn trim_end(s: Seq<char>) -> Seq<char>
    decreases s.len(),
{
    if s.len() > 0 && is_space(s.last()) {
        trim_end(s.drop_last())
    } else {
        s
    }
}

/// The text without leading and trailing white space (`str::trim`).
pub open spec fn trim(s: Seq<char>) -> Seq<char> {
    trim_end(trim_start(s))
}

/// Whether the text has no leading or trailing white space.
pub open spec fn is_trimmed(s: Seq<char>) -> bool {
    s.len() > 0 ==> !is_space(s[0]) && !is_space(s.last())
}

/// Pieces of `s` between occurrences of `c` (`str::split` with a char),
/// always at least one piece.
pub open spec fn split_char(s: Seq<char>, c: char) -> Seq<Seq<char>>
    decreases s.len(),
{
    if s.len() == 0 {
        seq![Seq::<char>::empty()]
    } else {
        let r = split_char(s.drop_last(), c);
        if s.last() == c {
            r.push(Seq::<char>::empty())
        } else {
            r.update(r.len() - 1, r.last().push(s.last()))
        }
    }
}

/// Removes one trailing carriage return.
pub open spec fn strip_cr(s: Seq<char>) -> Seq<char> {
    if s.len() > 0 && s.last() == '\r' {
        s.drop_last()
    } else {
        s
    }
}

/// The lines of a text, as `str::lines` yields them: split at `\n`, a `\r`
/// before the `\n` removed, no final empty line after a closing `\n`.
pub open spec fn lines(s: Seq<char>) -> Seq<Seq<char>> {
    let p = split_char(s, '\n');
    let n = p.len();
    Seq::new(
        if p[n - 1].len() == 0 {
            (n - 1) as nat
        } else {
            n
        },
        |i: int|
            if i < n - 1 {
                strip_cr(p[i])
            } else {
                p[i]
            },
    )
}

/// Items joined with a separator between consecutive items.
pub open spec fn join(items: Seq<Seq<char>>, sep: Seq<char>) -> Seq<char>
    decreases items.len(),
{
    if items.len() == 0 {
        Seq::empty()
    } else if items.len() == 1 {
        items[0]
    } else {
        join(items.drop_last(), sep) + sep + items.last()
    }
}

pub proof fn lemma_split_char_nonempty(s: Seq<char>, c: char)
    ensures
        split_char(s, c).len() >= 1,
    decreases s.len(),
{
    if s.len() > 0 {
        lemma_split_char_nonempty(s.drop_last(), c);
    }
}

/// The characters of a text slice.
pub fn chars_of(s: &str) -> (v: Vec<char>)
    ensures
        v@ == s@,
{
    let n = s.unicode_len();
    let mut v: Vec<char> = Vec::new();
    let mut i: usize = 0;
    while i < n
        invariant
            n == s@.len(),
            i <= n,
            v@ == s@.take(i as int),
        decreases n - i,
    {
        let c = s.get_char(i);
        v.push(c);
        i = i + 1;
        assert(v@ =~= s@.take(i as int));
    }
    assert(v@ =~= s@);
    v
}

/// Appends one character to a string by calling std's `String::push`,
/// which Verus's library gives no contract. Trusted, not proved: the
/// contract claims what std documents, that the string afterwards holds
/// its old characters followed by `c`.
#[verifier::external_body]
fn push_char(s: &mut String, c: char)
    ensures
        final(s)@ == old(s)@.push(c),
{
    s.push(c);
}

/// A string holding the given characters.
pub fn string_of(v: &Vec<char>) -> (s: String)
    ensures
        s@ == v@,
{
    let mut s = String::new();
    let mut i: usize = 0;
    while i < v.len()
        invariant
            i <= v.len(),
            s@ == v@.take(i as int),
        decreases v.len() - i,
    {
        push_char(&mut s, v[i]);
        i = i + 1;
        assert(s@ =~= v@.take(i as int));
    }
    assert(s@ =~= v@);
    s
}

/// The characters `v[lo..hi]`.
pub fn slice_chars(v: &Vec<char>, lo: usize, hi: usize) -> (r: Vec<char>)
    requires
        lo <= hi <= v.len(),
    ensures
        r@ == v@.subrange(lo as int, hi as int),
{
    let mut r: Vec<char> = Vec::new();
    let mut i = lo;
    while i < hi
        invariant
            lo <= i <= hi <= v.len(),
            r@ == v@.subrange(lo as int, i as int),
        decreases hi - i,
    {
        r.push(v[i]);
        i = i + 1;
        assert(r@ =~= v@.subrange(lo as int, i as int));
    }
    r
}

proof fn lemma_trim_start_skip(s: Seq<char>, i: int)
    requires
        0 <= i <= s.len(),
        forall|j: int| 0 <= j < i ==> is_space(#[trigger] s[j]),
    ensures
        trim_start(s) == trim_start(s.skip(i)),
    decreases i,
{
    if i > 0 {
        assert(s.drop_first() =~= s.skip(1));
        lemma_trim_start_skip(s.drop_first(), i - 1);
        assert(s.drop_first().skip(i - 1) =~= s.skip(i));
    } else {
        assert(s.skip(0) =~= s);
    }
}

proof fn lemma_trim_end_take(s: Seq<char>, i: int)
    requires
        0 <= i <= s.len(),
        forall|j: int| i <= j < s.len() ==> is_space(#[trigger] s[j]),
    ensures
        trim_end(s) == trim_end(s.take(i)),
    decreases s.len() - i,
{
    if i < s.len() {
        lemma_trim_end_take(s.drop_last(), i);
        assert(s.drop_last().take(i) =~= s.take(i));
    } else {
        assert(s.take(i) =~= s);
    }
}

/// Removes leading and trailing white space (`str::trim`).
pub fn trim_chars(v: &Vec<char>) -> (r: Vec<char>)
    ensures
        r@ == trim(v@),
        is_trimmed(r@),
{
    let mut lo: usize = 0;
    while lo < v.len() && is_space_char(v[lo])
        invariant
            lo <= v.len(),
            forall|j: int| 0 <= j < lo ==> is_space(#[trigger] v@[j]),
        decreases v.len() - lo,
    {
        lo = lo + 1;
    }
    proof {
        lemma_trim_start_skip(v@, lo as int);
    }
    let ghost t = v@.skip(lo as int);
    assert(trim_start(t) == t);
    let mut hi: usize = v.len();
    while hi > lo && is_space_char(v[hi - 1])
        invariant
            lo <= hi <= v.len(),
            forall|j: int| hi <= j < v.len() ==> is_space(#[trigger] v@[j]),
        decreases hi,
    {
        hi = hi - 1;
    }
    proof {
        assert forall|j: int| hi - lo <= j < t.len() implies is_space(#[trigger] t[j]) by {
            assert(t[j] == v@[j + lo]);
        }
        lemma_trim_end_take(t, hi - lo);
        assert(t.take(hi - lo) =~= v@.subrange(lo as int, hi as int));
    }
    let r = slice_chars(v, lo, hi);
    proof {
        let u = v@.subrange(lo as int, hi as int);
        if hi > lo {
            assert(u.last() == v@[hi - 1]);
            assert(u[0] == v@[lo as int]);
        }
        assert(trim_end(u) == u);
    }
    r
}

/// Splits at every occurrence of `c` (`str::split` with a char).
pub fn split_chars(v: &Vec<char>, c: char) -> (r: Vec<Vec<char>>)
    ensures
        r@.len() == split_char(v@, c).len(),
        forall|i: int| 0 <= i < r@.len() ==> #[trigger] r@[i]@ == split_char(v@, c)[i],
{
    let mut done: Vec<Vec<char>> = Vec::new();
    let mut cur: Vec<char> = Vec::new();
    let mut i: usize = 0;
    while i < v.len()
        invariant
            i <= v.len(),
            done@.len() + 1 == split_char(v@.take(i as int), c).len(),
            forall|k: int|
                0 <= k < done@.len() ==> #[trigger] done@[k]@ == split_char(v@.take(i as int), c)[k],
            cur@ == split_char(v@.take(i as int), c).last(),
        decreases v.len() - i,
    {
        let ghost old_take = v@.take(i as int);
        let ch = v[i];
        i = i + 1;
        let ghost new_take = v@.take(i as int);
        assert(new_take.drop_last() =~= old_take);
        proof {
            lemma_split_char_nonempty(old_take, c);
        }
        if ch == c {
            let piece = cur;
            done.push(piece);
            cur = Vec::new();
            assert(cur@ =~= Seq::<char>::empty());
        } else {
            cur.push(ch);
        }
    }
    assert(v@.take(v.len() as int) =~= v@);
    done.push(cur);
    done
}


/// Splits a text into its lines (`str::lines`).
pub fn lines_of(v: &Vec<char>) -> (r: Vec<Vec<char>>)
    ensures
        r@.len() == lines(v@).len(),
        forall|i: int| 0 <= i < r@.len() ==> #[trigger] r@[i]@ == lines(v@)[i],
{
    let pieces = split_chars(v, '\n');
    proof {
        lemma_split_char_nonempty(v@, '\n');
    }
    let n = pieces.len();
    let count = if pieces[n - 1].len() == 0 {
        n - 1
    } else {
        n
    };
    let mut r: Vec<Vec<char>> = Vec::new();
    let mut i: usize = 0;
    while i < count
        invariant
            n == pieces@.len() == split_char(v@, '\n').len(),
            n >= 1,
            count <= n,
            count == lines(v@).len(),
            forall|k: int| 0 <= k < n ==> #[trigger] pieces@[k]@ == split_char(v@, '\n')[k],
            i <= count,
            r@.len() == i,
            forall|k: int| 0 <= k < i ==> #[trigger] r@[k]@ == lines(v@)[k],
        decreases count - i,
    {
        let piece = &pieces[i];
        let len = piece.len();
        if i + 1 < n && len > 0 && piece[len - 1] == '\r' {
            let line = slice_chars(piece, 0, len - 1);
            assert(line@ =~= piece@.drop_last());
            r.push(line);
        } else {
            let line = slice_chars(piece, 0, len);
            assert(line@ =~= piece@);
            r.push(line);
        }
        i = i + 1;
    }
    r
}

/// Joins items with a separator between consecutive items.
pub fn join_chars(items: &Vec<Vec<char>>, sep: &Vec<char>) -> (r: Vec<char>)
    ensures
        r@ == join(items@.map_values(|x: Vec<char>| x@), sep@),
{
    let ghost views = items@.map_values(|x: Vec<char>| x@);
    let mut r: Vec<char> = Vec::new();
    let mut i: usize = 0;
    while i < items.len()
        invariant
            i <= items.len(),
            views == items@.map_values(|x: Vec<char>| x@),
            r@ == join(views.take(i as int), sep@),
        decreases items.len() - i,
    {
        if i > 0 {
            append_chars(&mut r, sep);
        }
        append_chars(&mut r, &items[i]);
        i = i + 1;
        proof {
            let t = views.take(i as int);
            assert(t.drop_last() =~= views.take(i - 1));
            assert(t.last() == items@[i - 1]@);
            if i == 1 {
                assert(join(views.take(0), sep@) =~= Seq::<char>::empty());
            }
        }
    }
    assert(views.take(items.len() as int) =~= views);
    r
}

/// Appends the characters of `t` to `r`.
pub fn append_chars(r: &mut Vec<char>, t: &Vec<char>)
    ensures
        final(r)@ == old(r)@ + t@,
{
    let mut i: usize = 0;
    while i < t.len()
        invariant
            i <= t.len(),
            r@ == old(r)@ + t@.take(i as int),
        decreases t.len() - i,
    {
        r.push(t[i]);
        i = i + 1;
        assert(r@ =~= old(r)@ + t@.take(i as int));
    }
    assert(t@.take(t.len() as int) =~= t@);
}

/// Whether `c` occurs in `s`.
pub open spec fn has_char(s: Seq<char>, c: char) -> bool {
    exists|i: int| 0 <= i < s.len() && s[i] == c
}

proof fn lemma_split_char_append(s: Seq<char>, t: Seq<char>, c: char)
    requires
        !has_char(t, c),
    ensures
        split_char(s + t, c) == ({
            let p = split_char(s, c);
            p.update(p.len() - 1, p.last() + t)
        }),
    decreases t.len(),
{
    lemma_split_char_nonempty(s, c);
    if t.len() == 0 {
        assert(s + t =~= s);
        let p = split_char(s, c);
        assert(p.last() + t =~= p.last());
        assert(p.update(p.len() - 1, p.last() + t) =~= p);
    } else {
        let t2 = t.drop_last();
        assert(!has_char(t2, c)) by {
            if has_char(t2, c) {
                let i = choose|i: int| 0 <= i < t2.len() && t2[i] == c;
                assert(t[i] == c);
            }
        }
        lemma_split_char_append(s, t2, c);
        assert((s + t).drop_last() =~= s + t2);
        assert((s + t).last() == t.last());
        assert(t.last() != c) by {
            assert(t[t.len() - 1] == t.last());
        }
        lemma_split_char_nonempty(s + t2, c);
        let p = split_char(s, c);
        let r = split_char(s + t2, c);
        assert(r == p.update(p.len() - 1, p.last() + t2));
        assert(r.len() == p.len());
        assert(r.last() == p.last() + t2);
        assert((p.last() + t2).push(t.last()) =~= p.last() + t);
        assert(split_char(s + t, c) == r.update(r.len() - 1, r.last().push(t.last())));
        assert(split_char(s + t, c) =~= p.update(p.len() - 1, p.last() + t));
    }
}

/// Splitting a join at its separator character gives the items back.
pub proof fn lemma_split_join(items: Seq<Seq<char>>, c: char)
    requires
        items.len() >= 1,
        forall|i: int| 0 <= i < items.len() ==> !has_char(#[trigger] items[i], c),
    ensures
        split_char(join(items, seq![c]), c) == items,
    decreases items.len(),
{
    if items.len() == 1 {
        let e = Seq::<char>::empty();
        lemma_split_char_append(e, items[0], c);
        assert(e + items[0] =~= items[0]);
        assert(split_char(e, c) =~= seq![e]);
        assert(seq![e].update(0, e + items[0]) =~= items);
    } else {
        let init = items.drop_last();
        lemma_split_join(init, c);
        let j = join(init, seq![c]);
        let s = j + seq![c];
        lemma_split_char_append(s, items.last(), c);
        assert(s.drop_last() =~= j);
        assert(join(items, seq![c]) =~= s + items.last());
        let p = split_char(s, c);
        assert(p =~= init.push(Seq::<char>::empty()));
        assert(Seq::<char>::empty() + items.last() =~= items.last());
        assert(p.update(p.len() - 1, p.last() + items.last()) =~= items);
    }
}

/// Lines joined by `\n` are read back by [`lines`] when no line holds a
/// line break or carriage return and the last line is not empty.
pub proof fn lemma_lines_join(items: Seq<Seq<char>>)
    requires
        forall|i: int|
            0 <= i < items.len() ==> !has_char(#[trigger] items[i], '\n') && !has_char(
                items[i],
                '\r',
            ),
        items.len() > 0 ==> items.last().len() > 0,
    ensures
        lines(join(items, seq!['\n'])) == items,
{
    if items.len() == 0 {
        assert(split_char(Seq::<char>::empty(), '\n') =~= seq![Seq::<char>::empty()]);
        assert(lines(join(items, seq!['\n'])) =~= items);
    } else {
        lemma_split_join(items, '\n');
        assert forall|i: int| 0 <= i < items.len() implies strip_cr(#[trigger] items[i])
            == items[i] by {
            if items[i].len() > 0 && items[i].last() == '\r' {
                assert(items[i][items[i].len() - 1] == '\r');
            }
        }
        assert(lines(join(items, seq!['\n'])) =~= items);
    }
}

/// The index of the first `c` in `s`.
pub open spec fn index_of(s: Seq<char>, c: char) -> Option<int>
    decreases s.len(),
{
    if s.len() == 0 {
        None
    } else if s[0] == c {
        Some(0)
    } else {
        match index_of(s.drop_first(), c) {
            Some(i) => Some(i + 1),
            None => None,
        }
    }
}

/// The text before and after the first `c` (`str::split_once` with a char).
pub open spec fn split_once(s: Seq<char>, c: char) -> Option<(Seq<char>, Seq<char>)> {
    match index_of(s, c) {
        Some(i) => Some((s.take(i), s.skip(i + 1))),
        None => None,
    }
}

/// What `index_of` finds: the first occurrence, when there is one.
pub proof fn lemma_index_of(s: Seq<char>, c: char)
    ensures
        match index_of(s, c) {
            Some(i) => 0 <= i < s.len() && s[i] == c && forall|j: int| 0 <= j < i ==> s[j] != c,
            None => !has_char(s, c),
        },
    decreases s.len(),
{
    if s.len() > 0 {
        lemma_index_of(s.drop_first(), c);
        if s[0] != c {
            match index_of(s.drop_first(), c) {
                Some(i) => {
                    assert forall|j: int| 0 <= j < i + 1 implies s[j] != c by {
                        if j > 0 {
                            assert(s[j] == s.drop_first()[j - 1]);
                        }
                    }
                },
                None => {
                    assert forall|j: int| 0 <= j < s.len() implies s[j] != c by {
                        if j > 0 {
                            assert(s[j] == s.drop_first()[j - 1]);
                        }
                    }
                },
            }
        }
    }
}

/// In `a + b`, where `a` has no `c` and `b` starts with `c`, the first `c`
/// is the one that starts `b`.
pub proof fn lemma_index_of_concat(a: Seq<char>, b: Seq<char>, c: char)
    requires
        !has_char(a, c),
        b.len() > 0,
        b[0] == c,
    ensures
        index_of(a + b, c) == Some(a.len() as int),
{
    let s = a + b;
    lemma_index_of(s, c);
    assert(s[a.len() as int] == c);
    match index_of(s, c) {
        Some(i) => {
            if i < a.len() {
                assert(a[i] == s[i]);
            }
        },
        None => {
            assert(has_char(s, c) ==> false);
            assert(s[a.len() as int] == c);
        },
    }
}

/// Finds the first `c` in `v`.
pub fn find_char(v: &Vec<char>, c: char) -> (r: Option<usize>)
    ensures
        match r {
            Some(i) => index_of(v@, c) == Some(i as int) && i < v.len() && v@[i as int] == c,
            None => index_of(v@, c) is None && !has_char(v@, c),
        },
{
    proof {
        lemma_index_of(v@, c);
    }
    let mut i: usize = 0;
    while i < v.len()
        invariant
            i <= v.len(),
            forall|j: int| 0 <= j < i ==> v@[j] != c,
        decreases v.len() - i,
    {
        if v[i] == c {
            proof {
                lemma_index_of(v@, c);
                match index_of(v@, c) {
                    Some(k) => {
                        if k < i {
                        } else if k > i {
                            assert(v@[i as int] != c);
                        }
                    },
                    None => {
                        assert(v@[i as int] == c);
                    },
                }
            }
            return Some(i);
        }
        i = i + 1;
    }
    proof {
        lemma_index_of(v@, c);
        match index_of(v@, c) {
            Some(k) => {
                assert(v@[k] != c);
            },
            None => {},
        }
    }
    None
}

/// The index of the first occurrence of a non-empty `p` in `s`.
pub open spec fn find_seq(s: Seq<char>, p: Seq<char>) -> Option<int>
    decreases s.len(),
{
    if s.len() < p.len() || p.len() == 0 {
        None
    } else if s.take(p.len() as int) == p {
        Some(0)
    } else {
        match find_seq(s.drop_first(), p) {
            Some(i) => Some(i + 1),
            None => None,
        }
    }
}

/// Whether `p` occurs in `s` at index `i`.
pub open spec fn occurs_at(s: Seq<char>, p: Seq<char>, i: int) -> bool {
    0 <= i && i + p.len() <= s.len() && s.subrange(i, i + p.len()) == p
}

/// What `find_seq` finds: the first occurrence, when there is one.
pub proof fn lemma_find_seq(s: Seq<char>, p: Seq<char>)
    requires
        p.len() > 0,
    ensures
        match find_seq(s, p) {
            Some(i) => occurs_at(s, p, i) && forall|j: int| 0 <= j < i ==> !#[trigger] occurs_at(s, p, j),
            None => forall|j: int| !#[trigger] occurs_at(s, p, j),
        },
    decreases s.len(),
{
    if s.len() >= p.len() {
        assert(s.take(p.len() as int) =~= s.subrange(0, p.len() as int));
        lemma_find_seq(s.drop_first(), p);
        let t = s.drop_first();
        assert forall|j: int| 0 <= j && j + p.len() <= t.len() implies (occurs_at(t, p, j)
            <==> occurs_at(s, p, j + 1)) by {
            assert(t.subrange(j, j + p.len()) =~= s.subrange(j + 1, j + 1 + p.len()));
        }
        if s.take(p.len() as int) != p {
            match find_seq(t, p) {
                Some(i) => {
                    assert(occurs_at(s, p, i + 1));
                    assert forall|j: int| 0 <= j < i + 1 implies !#[trigger] occurs_at(s, p, j) by {
                        if j > 0 {
                            assert(!occurs_at(t, p, j - 1));
                        }
                    }
                },
                None => {
                    assert forall|j: int| !#[trigger] occurs_at(s, p, j) by {
                        if j > 0 && occurs_at(s, p, j) {
                            assert(occurs_at(t, p, j - 1));
                        }
                    }
                },
            }
        }
    }
}

/// The first occurrence is where `p` occurs with no occurrence before.
pub proof fn lemma_find_seq_at(s: Seq<char>, p: Seq<char>, k: int)
    requires
        p.len() > 0,
        occurs_at(s, p, k),
        forall|j: int| 0 <= j < k ==> !#[trigger] occurs_at(s, p, j),
    ensures
        find_seq(s, p) == Some(k),
{
    lemma_find_seq(s, p);
    match find_seq(s, p) {
        Some(i) => {
            if i < k {
                assert(!occurs_at(s, p, i));
            } else if i > k {
                assert(!occurs_at(s, p, k));
            }
        },
        None => {
            assert(!occurs_at(s, p, k));
        },
    }
}

/// Whether `p` occurs in `v` at index `i`.
fn occurs_at_exec(v: &Vec<char>, p: &Vec<char>, i: usize) -> (r: bool)
    ensures
        r == occurs_at(v@, p@, i as int),
{
    if i > v.len() || p.len() > v.len() - i {
        return false;
    }
    let mut k: usize = 0;
    while k < p.len()
        invariant
            i + p.len() <= v.len(),
            k <= p.len(),
            forall|j: int| 0 <= j < k ==> v@[i + j] == p@[j],
        decreases p.len() - k,
    {
        if v[i + k] != p[k] {
            proof {
                assert(v@.subrange(i as int, i + p@.len())[k as int] != p@[k as int]);
            }
            return false;
        }
        k = k + 1;
    }
    assert(v@.subrange(i as int, i + p@.len()) =~= p@);
    true
}

/// Finds the first occurrence of a non-empty `p` in `v`.
pub fn find_pattern(v: &Vec<char>, p: &Vec<char>) -> (r: Option<usize>)
    requires
        p@.len() > 0,
    ensures
        match r {
            Some(i) => find_seq(v@, p@) == Some(i as int) && occurs_at(v@, p@, i as int),
            None => find_seq(v@, p@) is None,
        },
{
    proof {
        lemma_find_seq(v@, p@);
    }
    let mut i: usize = 0;
    while i < v.len()
        invariant
            p@.len() > 0,
            forall|j: int| 0 <= j < i ==> !#[trigger] occurs_at(v@, p@, j),
        decreases v.len() - i,
    {
        if occurs_at_exec(v, p, i) {
            proof {
                lemma_find_seq(v@, p@);
                match find_seq(v@, p@) {
                    Some(k) => {
                        if k > i {
                            assert(!occurs_at(v@, p@, i as int));
                        }
                    },
                    None => {
                        assert(!occurs_at(v@, p@, i as int));
                    },
                }
            }
            return Some(i);
        }
        i = i + 1;
    }
    proof {
        lemma_find_seq(v@, p@);
        match find_seq(v@, p@) {
            Some(k) => {
                assert(!occurs_at(v@, p@, k));
            },
            None => {},
        }
    }
    None
}

/// At most `n` pieces of `s` split at a non-empty `p` (`str::splitn` with
/// a text pattern): the last piece holds the rest.
pub open spec fn splitn_seq(s: Seq<char>, n: nat, p: Seq<char>) -> Seq<Seq<char>>
    decreases n,
{
    if n == 0 {
        Seq::empty()
    } else if n == 1 {
        seq![s]
    } else {
        match find_seq(s, p) {
            Some(i) => seq![s.take(i)] + splitn_seq(s.skip(i + p.len()), (n - 1) as nat, p),
            None => seq![s],
        }
    }
}

/// The texts of a list of character vectors.
pub open spec fn texts(v: Seq<Vec<char>>) -> Seq<Seq<char>> {
    v.map_values(|x: Vec<char>| x@)
}

/// Splits into at most `n` pieces at a non-empty `p` (see [`splitn_seq`]).
pub fn splitn_pattern(v: &Vec<char>, n: usize, p: &Vec<char>) -> (r: Vec<Vec<char>>)
    requires
        p@.len() > 0,
    ensures
        texts(r@) == splitn_seq(v@, n as nat, p@),
    decreases n,
{
    if n == 0 {
        let r: Vec<Vec<char>> = Vec::new();
        assert(texts(r@) =~= Seq::<Seq<char>>::empty());
        r
    } else if n == 1 {
        let r = vec![slice_chars(v, 0, v.len())];
        assert(v@.subrange(0, v@.len() as int) =~= v@);
        assert(texts(r@) =~= seq![v@]);
        r
    } else {
        match find_pattern(v, p) {
            Some(i) => {
                proof {
                    lemma_find_seq(v@, p@);
                    assert(occurs_at(v@, p@, i as int));
                    assert(i + p@.len() <= v@.len());
                }
                assert(i + p.len() <= v.len());
                let head = slice_chars(v, 0, i);
                let rest = slice_chars(v, i + p.len(), v.len());
                assert(head@ =~= v@.take(i as int));
                assert(rest@ =~= v@.skip(i + p@.len()));
                let tail = splitn_pattern(&rest, n - 1, p);
                let mut r = vec![head];
                let ghost t = tail@;
                let mut tail = tail;
                r.append(&mut tail);
                assert(texts(r@) =~= seq![head@] + texts(t));
                r
            },
            None => {
                let r = vec![slice_chars(v, 0, v.len())];
                assert(v@.subrange(0, v@.len() as int) =~= v@);
                assert(texts(r@) =~= seq![v@]);
                r
            },
        }
    }
}

/// A white space character that trimming removes.
pub proof fn lemma_space_is_space()
    ensures
        is_space(' '),
{
    assert((' ' as u32) == 32);
}

/// Trimming a text without outer white space leaves it unchanged.
pub proof fn lemma_trim_trimmed(a: Seq<char>)
    requires
        is_trimmed(a),
    ensures
        trim(a) == a,
{
    assert(trim_start(a) == a);
    assert(trim_end(a) == a);
}

/// Trimming a trimmed text with one space on either side gives it back.
pub proof fn lemma_trim_padded(a: Seq<char>)
    requires
        is_trimmed(a),
    ensures
        trim(seq![' '] + a + seq![' ']) == a,
        trim(seq![' '] + a) == a,
        trim(a + seq![' ']) == a,
{
    lemma_space_is_space();
    let sp = seq![' '];
    let both = sp + a + sp;
    let left = sp + a;
    let right = a + sp;
    assert(both.drop_first() =~= a + sp);
    assert(left.drop_first() =~= a);
    assert(trim_start(both) == trim_start(a + sp));
    assert(trim_start(left) == trim_start(a));
    if a.len() > 0 {
        assert((a + sp)[0] == a[0]);
        assert(trim_start(a + sp) == a + sp);
        assert(trim_start(a) == a);
        assert((a + sp).drop_last() =~= a);
        assert(trim_end(a + sp) == trim_end(a));
        assert(trim_end(a) == a);
    } else {
        assert(a + sp =~= sp);
        assert(sp.drop_first() =~= Seq::<char>::empty());
        assert(trim_start(sp) == trim_start(Seq::<char>::empty()));
        assert(trim_start(a) == a);
        assert(trim_end(a) == a);
    }
}

/// The results of `f` that are present, in order (`Iterator::filter_map`).
pub open spec fn filter_map<A, B>(s: Seq<A>, f: spec_fn(A) -> Option<B>) -> Seq<B>
    decreases s.len(),
{
    if s.len() == 0 {
        Seq::empty()
    } else {
        let r = filter_map(s.drop_last(), f);
        match f(s.last()) {
            Some(b) => r.push(b),
            None => r,
        }
    }
}

/// When `f` gives a result for every item, `filter_map` keeps them all.
pub proof fn lemma_filter_map_all<A, B>(s: Seq<A>, f: spec_fn(A) -> Option<B>, t: Seq<B>)
    requires
        s.len() == t.len(),
        forall|i: int| 0 <= i < s.len() ==> f(#[trigger] s[i]) == Some(t[i]),
    ensures
        filter_map(s, f) == t,
    decreases s.len(),
{
    if s.len() > 0 {
        let n = s.len() - 1;
        assert forall|i: int| 0 <= i < s.drop_last().len() implies f(
            #[trigger] s.drop_last()[i],
        ) == Some(t.drop_last()[i]) by {
            assert(s.drop_last()[i] == s[i]);
        }
        lemma_filter_map_all(s.drop_last(), f, t.drop_last());
        assert(f(s[n]) == Some(t[n]));
        assert(t.drop_last().push(t.last()) =~= t);
    } else {
        assert(t =~= Seq::<B>::empty());
    }
}

/// `c` occurs in a concatenation when it occurs in one of the parts.
pub proof fn lemma_has_char_concat(a: Seq<char>, b: Seq<char>, c: char)
    ensures
        has_char(a + b, c) <==> (has_char(a, c) || has_char(b, c)),
{
    let s = a + b;
    if has_char(s, c) {
        let i = choose|i: int| 0 <= i < s.len() && s[i] == c;
        if i < a.len() {
            assert(a[i] == c);
        } else {
            assert(b[i - a.len()] == c);
        }
    }
    if has_char(a, c) {
        let i = choose|i: int| 0 <= i < a.len() && a[i] == c;
        assert(s[i] == c);
    }
    if has_char(b, c) {
        let i = choose|i: int| 0 <= i < b.len() && b[i] == c;
        assert(s[i + a.len()] == c);
    }
}

/// Whether a text can stand on one line: no line feed, no carriage return.
pub open spec fn one_line(s: Seq<char>) -> bool {
    !has_char(s, '\n') && !has_char(s, '\r')
}

/// A text without line breaks, followed by another, is still on one line.
pub proof fn lemma_one_line_concat(a: Seq<char>, b: Seq<char>)
    ensures
        one_line(a + b) <==> (one_line(a) && one_line(b)),
{
    lemma_has_char_concat(a, b, '\n');
    lemma_has_char_concat(a, b, '\r');
}

/// Whether a text is a single given character.
pub proof fn lemma_single_has_char(x: char, c: char)
    ensures
        has_char(seq![x], c) <==> x == c,
{
    if x == c {
        assert(seq![x][0] == c);
    }
}

/// Whether two texts are the same.
pub fn same_chars(a: &Vec<char>, b: &Vec<char>) -> (r: bool)
    ensures
        r == (a@ == b@),
{
    if a.len() != b.len() {
        return false;
    }
    let mut i: usize = 0;
    while i < a.len()
        invariant
            a@.len() == b@.len(),
            i <= a@.len(),
            forall|j: int| 0 <= j < i ==> a@[j] == b@[j],
        decreases a.len() - i,
    {
        if a[i] != b[i] {
            return false;
        }
        i = i + 1;
    }
    assert(a@ =~= b@);
    true
}

/// The text `true` or `false`, as `Display` writes a `bool`.
pub open spec fn bool_text(b: bool) -> Seq<char> {
    if b {
        seq!['t', 'r', 'u', 'e']
    } else {
        seq!['f', 'a', 'l', 's', 'e']
    }
}

/// What `str::parse::<bool>` gives: exactly `true` or `false`.
pub open spec fn parse_bool_spec(s: Seq<char>) -> Option<bool> {
    if s == bool_text(true) {
        Some(true)
    } else if s == bool_text(false) {
        Some(false)
    } else {
        None
    }
}

/// Reads `true` or `false` (`str::parse::<bool>`).
pub fn parse_bool(v: &Vec<char>) -> (r: Option<bool>)
    ensures
        r == parse_bool_spec(v@),
{
    let t = vec!['t', 'r', 'u', 'e'];
    let f = vec!['f', 'a', 'l', 's', 'e'];
    assert(t@ =~= bool_text(true));
    assert(f@ =~= bool_text(false));
    if same_chars(v, &t) {
        Some(true)
    } else if same_chars(v, &f) {
        Some(false)
    } else {
        None
    }
}

/// The text of a `bool`, as `Display` writes it.
pub fn bool_chars(b: bool) -> (r: Vec<char>)
    ensures
        r@ == bool_text(b),
{
    let r = if b {
        vec!['t', 'r', 'u', 'e']
    } else {
        vec!['f', 'a', 'l', 's', 'e']
    };
    assert(r@ =~= bool_text(b));
    r
}

/// Reading back the text of a `bool` gives it; the text is one trimmed
/// line without `|`.
pub proof fn lemma_bool_text(b: bool)
    ensures
        parse_bool_spec(bool_text(b)) == Some(b),
        is_trimmed(bool_text(b)),
        bool_text(b).len() > 0,
        !has_char(bool_text(b), '|'),
        one_line(bool_text(b)),
{
    if !b {
        assert(bool_text(false) != bool_text(true)) by {
            assert(bool_text(false).len() != bool_text(true).len());
        }
    }
    let t = bool_text(b);
    assert(!is_space(t[0]));
    assert(!is_space(t.last()));
    assert forall|i: int| 0 <= i < t.len() implies t[i] != '|' && t[i] != '\n' && t[i] != '\r' by {
    }
}

/// Splitting at every `c` a text made of pieces joined by `c` gives the
/// pieces of each part.
pub proof fn lemma_split_char_concat(a: Seq<char>, b: Seq<char>, c: char)
    ensures
        split_char(a + seq![c] + b, c) == split_char(a, c) + split_char(b, c),
    decreases b.len(),
{
    lemma_split_char_nonempty(a, c);
    if b.len() == 0 {
        assert(a + seq![c] + b =~= a + seq![c]);
        assert((a + seq![c]).drop_last() =~= a);
        assert(split_char(b, c) =~= seq![Seq::<char>::empty()]);
        assert(split_char(a + seq![c], c) =~= split_char(a, c) + split_char(b, c));
    } else {
        let b2 = b.drop_last();
        lemma_split_char_concat(a, b2, c);
        lemma_split_char_nonempty(b2, c);
        let s = a + seq![c] + b;
        assert(s.drop_last() =~= a + seq![c] + b2);
        assert(s.last() == b.last());
        let pa = split_char(a, c);
        let pb = split_char(b2, c);
        assert(split_char(a + seq![c] + b2, c) == pa + pb);
        if b.last() == c {
            assert(split_char(s, c) =~= pa + pb.push(Seq::<char>::empty()));
        } else {
            assert((pa + pb).last() == pb.last());
            assert(split_char(s, c) =~= pa + pb.update(pb.len() - 1, pb.last().push(b.last())));
        }
    }
}

/// A text without `c` is one piece.
pub proof fn lemma_split_char_single(a: Seq<char>, c: char)
    requires
        !has_char(a, c),
    ensures
        split_char(a, c) == seq![a],
{
    let e = Seq::<char>::empty();
    lemma_split_char_append(e, a, c);
    assert(e + a =~= a);
    assert(split_char(e, c) =~= seq![e]);
    assert(seq![e].update(0, e + a) =~= seq![a]);
}

/// Splitting `a + c + rest` at every `c`, where `a` has no `c`, gives `a`
/// and the pieces of `rest`.
pub proof fn lemma_split_char_first(a: Seq<char>, rest: Seq<char>, c: char)
    requires
        !has_char(a, c),
    ensures
        split_char(a + seq![c] + rest, c) == seq![a] + split_char(rest, c),
{
    lemma_split_char_concat(a, rest, c);
    lemma_split_char_single(a, c);
}

/// The trimmed pieces of a list of texts.
pub open spec fn trim_all(s: Seq<Seq<char>>) -> Seq<Seq<char>> {
    s.map_values(|p: Seq<char>| trim(p))
}

/// The texts `" " + x + " "` without `|`, line breaks, when `x` has none.
pub proof fn lemma_padded_plain(x: Seq<char>)
    requires
        !has_char(x, '|'),
        one_line(x),
    ensures
        !has_char(seq![' '] + x + seq![' '], '|'),
        !has_char(seq![' '] + x, '|'),
        !has_char(x + seq![' '], '|'),
        one_line(seq![' '] + x + seq![' ']),
        one_line(seq![' '] + x),
        one_line(x + seq![' ']),
{
    lemma_single_has_char(' ', '|');
    lemma_single_has_char(' ', '\n');
    lemma_single_has_char(' ', '\r');
    lemma_has_char_concat(seq![' '], x, '|');
    lemma_has_char_concat(seq![' '] + x, seq![' '], '|');
    lemma_has_char_concat(x, seq![' '], '|');
    lemma_one_line_concat(seq![' '], x);
    lemma_one_line_concat(seq![' '] + x, seq![' ']);
    lemma_one_line_concat(x, seq![' ']);
}

/// The first result of `f` that is present.
pub open spec fn first_some<A, B>(s: Seq<A>, f: spec_fn(A) -> Option<B>) -> Option<B> {
    let m = filter_map(s, f);
    if m.len() > 0 {
        Some(m[0])
    } else {
        None
    }
}

/// `filter_map` over a concatenation is the concatenation of the parts.
pub proof fn lemma_filter_map_concat<A, B>(a: Seq<A>, b: Seq<A>, f: spec_fn(A) -> Option<B>)
    ensures
        filter_map(a + b, f) == filter_map(a, f) + filter_map(b, f),
    decreases b.len(),
{
    if b.len() == 0 {
        assert(a + b =~= a);
        assert(filter_map(a, f) + filter_map(b, f) =~= filter_map(a, f));
    } else {
        lemma_filter_map_concat(a, b.drop_last(), f);
        assert((a + b).drop_last() =~= a + b.drop_last());
        assert((a + b).last() == b.last());
        match f(b.last()) {
            Some(x) => {
                assert(filter_map(a + b, f) =~= filter_map(a, f) + filter_map(b, f));
            },
            None => {},
        }
    }
}

/// `filter_map` over one item.
pub proof fn lemma_filter_map_single<A, B>(x: A, f: spec_fn(A) -> Option<B>)
    ensures
        filter_map(seq![x], f) == (match f(x) {
            Some(y) => seq![y],
            None => Seq::<B>::empty(),
        }),
{
    assert(seq![x].drop_last() =~= Seq::<A>::empty());
    assert(seq![x].last() == x);
    assert(filter_map(Seq::<A>::empty(), f) =~= Seq::<B>::empty());
    match f(x) {
        Some(y) => {
            assert(Seq::<B>::empty().push(y) =~= seq![y]);
        },
        None => {},
    }
}

/// When `filter_map` gives nothing, `f` gives nothing for every item.
pub proof fn lemma_filter_map_empty<A, B>(s: Seq<A>, f: spec_fn(A) -> Option<B>)
    requires
        filter_map(s, f).len() == 0,
    ensures
        forall|j: int| 0 <= j < s.len() ==> (#[trigger] f(s[j])) is None,
    decreases s.len(),
{
    if s.len() > 0 {
        lemma_filter_map_empty(s.drop_last(), f);
        assert forall|j: int| 0 <= j < s.len() implies (#[trigger] f(s[j])) is None by {
            if j < s.len() - 1 {
                assert(s.drop_last()[j] == s[j]);
            }
        }
    }
}

/// The first result of `f` comes from an item before which `f` gives
/// nothing.
pub proof fn lemma_first_some_index<A, B>(s: Seq<A>, f: spec_fn(A) -> Option<B>)
    ensures
        match first_some(s, f) {
            Some(y) => exists|i: int|
                0 <= i < s.len() && f(s[i]) == Some(y) && forall|j: int|
                    0 <= j < i ==> (#[trigger] f(s[j])) is None,
            None => forall|j: int| 0 <= j < s.len() ==> (#[trigger] f(s[j])) is None,
        },
    decreases s.len(),
{
    if s.len() == 0 {
        return;
    }
    let t = s.drop_last();
    lemma_first_some_index(t, f);
    let m = filter_map(t, f);
    if m.len() > 0 {
        let y = m[0];
        assert(filter_map(s, f)[0] == y);
        let i = choose|i: int|
            0 <= i < t.len() && f(t[i]) == Some(y) && forall|j: int|
                0 <= j < i ==> (#[trigger] f(t[j])) is None;
        assert(s[i] == t[i]);
        assert forall|j: int| 0 <= j < i implies (#[trigger] f(s[j])) is None by {
            assert(s[j] == t[j]);
        }
    } else {
        lemma_filter_map_empty(t, f);
        match f(s.last()) {
            Some(y) => {
                assert(filter_map(s, f) =~= seq![y]);
                let i = s.len() - 1;
                assert forall|j: int| 0 <= j < i implies (#[trigger] f(s[j])) is None by {
                    assert(s[j] == t[j]);
                }
                assert(f(s[i]) == Some(y));
            },
            None => {
                assert forall|j: int| 0 <= j < s.len() implies (#[trigger] f(s[j])) is None by {
                    if j < s.len() - 1 {
                        assert(s[j] == t[j]);
                    }
                }
            },
        }
    }
}


/// When `f` gives nothing before index `i` and something at `i` (or `i` is
/// the end), the first result is the one at `i` (or there is none).
pub proof fn lemma_first_of_prefix<A, B>(s: Seq<A>, f: spec_fn(A) -> Option<B>, i: int)
    requires
        0 <= i <= s.len(),
        forall|j: int| 0 <= j < i ==> (#[trigger] f(s[j])) is None,
        i < s.len() ==> f(s[i]) is Some,
    ensures
        first_some(s, f) == (if i < s.len() {
            f(s[i])
        } else {
            None
        }),
{
    lemma_first_some_index(s, f);
    match first_some(s, f) {
        Some(y) => {
            let k = choose|k: int|
                0 <= k < s.len() && f(s[k]) == Some(y) && forall|j: int|
                    0 <= j < k ==> (#[trigger] f(s[j])) is None;
            if k < i {
                assert(f(s[k]) is None);
            } else if k > i {
                assert(f(s[i]) is None);
            }
        },
        None => {
            if i < s.len() {
                assert(f(s[i]) is None);
            }
        },
    }
}

} // verus!

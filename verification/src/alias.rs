//! Alias sets: the rows of the alias editor, and the compact text form
//! with one `namespace = alias` line per alias.
use vstd::prelude::*;
use crate::text::{chars_of, filter_map, find_char, has_char, is_trimmed, join, join_chars, lines, lines_of, one_line, slice_chars, split_once, string_of, trim, trim_chars, lemma_filter_map_all, lemma_has_char_concat, lemma_index_of_concat, lemma_lines_join, lemma_one_line_concat, lemma_single_has_char, lemma_trim_padded};

verus! {

/// One alias of an element: a name in a namespace.
#[derive(Debug)]
pub struct Alias<S> {
    pub name_space: S,
    pub alias: S,
}

impl View for Alias<String> {
    type V = Alias<Seq<char>>;

    open spec fn view(&self) -> Alias<Seq<char>> {
        Alias { name_space: self.name_space@, alias: self.alias@ }
    }
}

/// The values of a list of aliases.
pub open spec fn aliases_view(v: Seq<Alias<String>>) -> Seq<Alias<Seq<char>>> {
    v.map_values(|a: Alias<String>| a@)
}

/// The alias on one line of text: the trimmed texts before and after the
/// first `=`, when both are non-empty.
pub open spec fn alias_of_line(line: Seq<char>) -> Option<Alias<Seq<char>>> {
    match split_once(line, '=') {
        Some((before, after)) => if trim(before).len() == 0 || trim(after).len() == 0 {
            None
        } else {
            Some(Alias { name_space: trim(before), alias: trim(after) })
        },
        None => None,
    }
}

/// [`alias_of_line`] as a function value.
pub open spec fn alias_parser() -> spec_fn(Seq<char>) -> Option<Alias<Seq<char>>> {
    |line: Seq<char>| alias_of_line(line)
}

/// The aliases a text holds: one per line that reads as an alias.
pub open spec fn decoded_aliases(text: Seq<char>) -> Seq<Alias<Seq<char>>> {
    filter_map(lines(text), alias_parser())
}

/// The line written for an alias: `namespace = alias`.
pub open spec fn alias_line(a: Alias<Seq<char>>) -> Seq<char> {
    a.name_space + seq![' ', '=', ' '] + a.alias
}

/// The text written for aliases: their lines joined by line feeds.
pub open spec fn aliases_text(s: Seq<Alias<Seq<char>>>) -> Seq<char> {
    join(s.map_values(|a: Alias<Seq<char>>| alias_line(a)), seq!['\n'])
}

/// The alias of one editor row: both fields trimmed, kept when neither is
/// blank.
pub open spec fn alias_of_row(row: Alias<Seq<char>>) -> Option<Alias<Seq<char>>> {
    if trim(row.name_space).len() == 0 || trim(row.alias).len() == 0 {
        None
    } else {
        Some(Alias { name_space: trim(row.name_space), alias: trim(row.alias) })
    }
}

/// [`alias_of_row`] as a function value.
pub open spec fn row_reader() -> spec_fn(Alias<Seq<char>>) -> Option<Alias<Seq<char>>> {
    |row: Alias<Seq<char>>| alias_of_row(row)
}

/// The aliases of the editor's rows.
pub open spec fn rows_aliases(rows: Seq<Alias<Seq<char>>>) -> Seq<Alias<Seq<char>>> {
    filter_map(rows, row_reader())
}

/// The value of an optional alias.
pub open spec fn opt_alias_view(o: Option<Alias<String>>) -> Option<Alias<Seq<char>>> {
    match o {
        Some(a) => Some(a@),
        None => None,
    }
}

/// Reads the alias on one line (see [`alias_of_line`]).
fn alias_from_line(line: &Vec<char>) -> (r: Option<Alias<String>>)
    ensures
        opt_alias_view(r) == alias_of_line(line@),
{
    match find_char(line, '=') {
        Some(i) => {
            let before = slice_chars(line, 0, i);
            let after = slice_chars(line, i + 1, line.len());
            assert(before@ =~= line@.take(i as int));
            assert(after@ =~= line@.skip(i + 1));
            let name_space = trim_chars(&before);
            let alias = trim_chars(&after);
            if name_space.len() == 0 || alias.len() == 0 {
                None
            } else {
                Some(Alias { name_space: string_of(&name_space), alias: string_of(&alias) })
            }
        },
        None => None,
    }
}

/// The aliases a text holds, one per line (see [`decoded_aliases`]).
pub fn decode(value: &str) -> (r: Vec<Alias<String>>)
    ensures
        aliases_view(r@) == decoded_aliases(value@),
{
    let ls = lines_of(&chars_of(value));
    let ghost all = lines(value@);
    let mut out: Vec<Alias<String>> = Vec::new();
    let mut i: usize = 0;
    while i < ls.len()
        invariant
            i <= ls@.len(),
            all == lines(value@),
            ls@.len() == all.len(),
            forall|k: int| 0 <= k < ls@.len() ==> #[trigger] ls@[k]@ == all[k],
            aliases_view(out@) == filter_map(all.take(i as int), alias_parser()),
        decreases ls.len() - i,
    {
        let ghost before = out@;
        let parsed = alias_from_line(&ls[i]);
        proof {
            assert(all.take(i + 1).drop_last() =~= all.take(i as int));
            assert(all.take(i + 1).last() == ls@[i as int]@);
        }
        match parsed {
            Some(a) => {
                out.push(a);
                assert(aliases_view(out@) =~= aliases_view(before).push(out@.last()@));
            },
            None => {},
        }
        i = i + 1;
    }
    assert(all.take(ls.len() as int) =~= all);
    out
}

/// The alias set of a text, when it holds at least one alias.
pub fn parse(value: &str) -> (r: Option<Vec<Alias<String>>>)
    ensures
        match r {
            Some(v) => decoded_aliases(value@).len() > 0 && aliases_view(v@) == decoded_aliases(value@),
            None => decoded_aliases(value@).len() == 0,
        },
{
    let aliases = decode(value);
    if aliases.len() == 0 {
        None
    } else {
        Some(aliases)
    }
}

/// The text written for aliases (see [`aliases_text`]).
pub fn encode_aliases(aliases: &Vec<Alias<String>>) -> (r: String)
    ensures
        r@ == aliases_text(aliases_view(aliases@)),
{
    let mut items: Vec<Vec<char>> = Vec::new();
    let mut i: usize = 0;
    while i < aliases.len()
        invariant
            i <= aliases@.len(),
            items@.len() == i,
            forall|k: int| 0 <= k < i ==> #[trigger] items@[k]@ == alias_line(aliases@[k]@),
        decreases aliases.len() - i,
    {
        let a = &aliases[i];
        let mut line = chars_of(a.name_space.as_str());
        line.push(' ');
        line.push('=');
        line.push(' ');
        let rest = chars_of(a.alias.as_str());
        crate::text::append_chars(&mut line, &rest);
        assert(line@ =~= alias_line(a@));
        items.push(line);
        i = i + 1;
    }
    let sep = vec!['\n'];
    let joined = join_chars(&items, &sep);
    assert(items@.map_values(|x: Vec<char>| x@) =~= aliases_view(aliases@).map_values(
        |a: Alias<Seq<char>>| alias_line(a),
    ));
    assert(sep@ =~= seq!['\n']);
    string_of(&joined)
}

/// The aliases of the editor's rows (see [`rows_aliases`]), when there is
/// at least one.
pub fn value(rows: &Vec<Alias<String>>) -> (r: Option<Vec<Alias<String>>>)
    ensures
        match r {
            Some(v) => rows_aliases(aliases_view(rows@)).len() > 0 && aliases_view(v@)
                == rows_aliases(aliases_view(rows@)),
            None => rows_aliases(aliases_view(rows@)).len() == 0,
        },
{
    let ghost all = aliases_view(rows@);
    let mut out: Vec<Alias<String>> = Vec::new();
    let mut i: usize = 0;
    while i < rows.len()
        invariant
            i <= rows@.len(),
            all == aliases_view(rows@),
            aliases_view(out@) == filter_map(all.take(i as int), row_reader()),
        decreases rows.len() - i,
    {
        let ghost before = out@;
        let row = &rows[i];
        let name_space = trim_chars(&chars_of(row.name_space.as_str()));
        let alias = trim_chars(&chars_of(row.alias.as_str()));
        proof {
            assert(all.take(i + 1).drop_last() =~= all.take(i as int));
            assert(all.take(i + 1).last() == rows@[i as int]@);
        }
        if name_space.len() > 0 && alias.len() > 0 {
            out.push(Alias { name_space: string_of(&name_space), alias: string_of(&alias) });
            assert(aliases_view(out@) =~= aliases_view(before).push(out@.last()@));
        }
        i = i + 1;
    }
    assert(all.take(rows.len() as int) =~= all);
    if out.len() == 0 {
        None
    } else {
        Some(out)
    }
}

/// The text the editor writes for its rows.
pub fn text(rows: &Vec<Alias<String>>) -> (r: String)
    ensures
        r@ == aliases_text(rows_aliases(aliases_view(rows@))),
{
    match value(rows) {
        Some(v) => encode_aliases(&v),
        None => {
            let r = String::new();
            assert(rows_aliases(aliases_view(rows@)) =~= Seq::<Alias<Seq<char>>>::empty());
            assert(aliases_text(Seq::<Alias<Seq<char>>>::empty()) =~= Seq::<char>::empty());
            r
        },
    }
}

/// Whether an alias is written and read back unchanged: both parts
/// non-empty, trimmed and on one line, and no `=` in the namespace.
pub open spec fn clean_alias(a: Alias<Seq<char>>) -> bool {
    &&& a.name_space.len() > 0
    &&& is_trimmed(a.name_space)
    &&& !has_char(a.name_space, '=')
    &&& one_line(a.name_space)
    &&& a.alias.len() > 0
    &&& is_trimmed(a.alias)
    &&& one_line(a.alias)
}

proof fn lemma_alias_line(a: Alias<Seq<char>>)
    requires
        clean_alias(a),
    ensures
        alias_of_line(alias_line(a)) == Some(a),
        one_line(alias_line(a)),
        alias_line(a).len() > 0,
{
    let ns = a.name_space;
    let head = ns + seq![' '];
    let tail = seq!['='] + (seq![' '] + a.alias);
    let line = alias_line(a);
    assert(line =~= head + tail);
    lemma_has_char_concat(ns, seq![' '], '=');
    lemma_single_has_char(' ', '=');
    lemma_index_of_concat(head, tail, '=');
    assert(line.take(head.len() as int) =~= head);
    assert(line.skip(head.len() as int + 1) =~= seq![' '] + a.alias);
    lemma_trim_padded(ns);
    lemma_trim_padded(a.alias);
    lemma_single_has_char(' ', '\n');
    lemma_single_has_char(' ', '\r');
    lemma_single_has_char('=', '\n');
    lemma_single_has_char('=', '\r');
    lemma_one_line_concat(ns, seq![' ']);
    lemma_one_line_concat(seq![' '], a.alias);
    lemma_one_line_concat(seq!['='], seq![' '] + a.alias);
    lemma_one_line_concat(head, tail);
}

/// Aliases written as text read back unchanged when each is clean (see
/// [`clean_alias`]).
pub proof fn lemma_aliases_round_trip(s: Seq<Alias<Seq<char>>>)
    requires
        forall|i: int| 0 <= i < s.len() ==> clean_alias(#[trigger] s[i]),
    ensures
        decoded_aliases(aliases_text(s)) == s,
{
    let items = s.map_values(|a: Alias<Seq<char>>| alias_line(a));
    assert forall|i: int| 0 <= i < items.len() implies !has_char(#[trigger] items[i], '\n')
        && !has_char(items[i], '\r') && items[i].len() > 0 && alias_parser()(items[i]) == Some(
        s[i],
    ) by {
        lemma_alias_line(s[i]);
    }
    if items.len() > 0 {
        assert(items.last() == items[items.len() - 1]);
    }
    lemma_lines_join(items);
    lemma_filter_map_all(items, alias_parser(), s);
}

} // verus!

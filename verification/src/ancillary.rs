//! Ancillary data sets: the rows of the ancillary data editor, and the
//! compact text form with one `name | mime type | href | content` line per
//! entry.
use vstd::prelude::*;
use crate::fields::{non_empty_or, optional, optional_text};
use crate::text::{append_chars, chars_of, filter_map, find_seq, has_char, is_trimmed, join, join_chars, lines, lines_of, occurs_at, one_line, splitn_pattern, splitn_seq, string_of, texts, trim, trim_chars, lemma_filter_map_all, lemma_find_seq_at, lemma_lines_join, lemma_one_line_concat, lemma_trim_trimmed};

verus! {

/// One ancillary data entry.
#[derive(Debug)]
pub struct AncillaryData<S> {
    pub name: S,
    pub mime_type: S,
    pub href: Option<S>,
    pub content: S,
}

impl View for AncillaryData<String> {
    type V = AncillaryData<Seq<char>>;

    open spec fn view(&self) -> AncillaryData<Seq<char>> {
        AncillaryData {
            name: self.name@,
            mime_type: self.mime_type@,
            href: match self.href {
                Some(h) => Some(h@),
                None => None,
            },
            content: self.content@,
        }
    }
}

/// One row of the ancillary data editor, as typed.
#[derive(Debug)]
pub struct AncillaryRow {
    pub name: String,
    pub mime_type: String,
    pub href: String,
    pub content: String,
}

/// The values of a list of entries.
pub open spec fn entries_view(v: Seq<AncillaryData<String>>) -> Seq<AncillaryData<Seq<char>>> {
    v.map_values(|a: AncillaryData<String>| a@)
}

/// The separator between the columns of a line.
pub open spec fn separator() -> Seq<char> {
    seq![' ', '|', ' ']
}

/// The entry on one line: four trimmed columns split at the first three
/// separators; an empty `href` column means no `href`.
pub open spec fn entry_of_line(line: Seq<char>) -> Option<AncillaryData<Seq<char>>> {
    let cols = splitn_seq(line, 4, separator());
    if cols.len() < 4 {
        None
    } else {
        Some(
            AncillaryData {
                name: trim(cols[0]),
                mime_type: trim(cols[1]),
                href: if trim(cols[2]).len() == 0 {
                    None
                } else {
                    Some(trim(cols[2]))
                },
                content: trim(cols[3]),
            },
        )
    }
}

/// [`entry_of_line`] as a function value.
pub open spec fn entry_parser() -> spec_fn(Seq<char>) -> Option<AncillaryData<Seq<char>>> {
    |line: Seq<char>| entry_of_line(line)
}

/// The entries a text holds: one per line that has four columns.
pub open spec fn decoded_entries(text: Seq<char>) -> Seq<AncillaryData<Seq<char>>> {
    filter_map(lines(text), entry_parser())
}

/// The line written for an entry; a missing `href` is written empty.
pub open spec fn entry_line(a: AncillaryData<Seq<char>>) -> Seq<char> {
    a.name + separator() + a.mime_type + separator() + match a.href {
        Some(h) => h,
        None => Seq::empty(),
    } + separator() + a.content
}

/// The text written for entries: their lines joined by line feeds.
pub open spec fn entries_text(s: Seq<AncillaryData<Seq<char>>>) -> Seq<char> {
    join(s.map_values(|a: AncillaryData<Seq<char>>| entry_line(a)), seq!['\n'])
}

/// The MIME type XTCE gives ancillary data that names none.
pub open spec fn default_mime() -> Seq<char> {
    seq!['t', 'e', 'x', 't', '/', 'p', 'l', 'a', 'i', 'n']
}

/// The MIME type XTCE gives ancillary data that names none.
pub fn default_mime_type() -> (r: String)
    ensures
        r@ == default_mime(),
{
    let v = vec!['t', 'e', 'x', 't', '/', 'p', 'l', 'a', 'i', 'n'];
    assert(v@ =~= default_mime());
    string_of(&v)
}

/// The entry of one editor row: kept when its trimmed name is not blank,
/// with the default MIME type for a blank one, an `href` when one is given,
/// and the content as typed.
pub open spec fn entry_of_row(
    name: Seq<char>,
    mime_type: Seq<char>,
    href: Seq<char>,
    content: Seq<char>,
) -> Option<AncillaryData<Seq<char>>> {
    if trim(name).len() == 0 {
        None
    } else {
        Some(
            AncillaryData {
                name: trim(name),
                mime_type: if trim(mime_type).len() == 0 {
                    default_mime()
                } else {
                    trim(mime_type)
                },
                href: optional_text(href),
                content,
            },
        )
    }
}

/// [`entry_of_row`] over a row's fields, as a function value.
pub open spec fn row_reader() -> spec_fn(AncillaryRow) -> Option<AncillaryData<Seq<char>>> {
    |row: AncillaryRow| entry_of_row(row.name@, row.mime_type@, row.href@, row.content@)
}

/// The entries of the editor's rows.
pub open spec fn rows_entries(rows: Seq<AncillaryRow>) -> Seq<AncillaryData<Seq<char>>> {
    filter_map(rows, row_reader())
}

/// The value of an optional entry.
pub open spec fn opt_entry_view(o: Option<AncillaryData<String>>) -> Option<AncillaryData<Seq<char>>> {
    match o {
        Some(a) => Some(a@),
        None => None,
    }
}

/// Reads the entry on one line (see [`entry_of_line`]).
fn entry_from_line(line: &Vec<char>) -> (r: Option<AncillaryData<String>>)
    ensures
        opt_entry_view(r) == entry_of_line(line@),
{
    let sep = vec![' ', '|', ' '];
    assert(sep@ =~= separator());
    let cols = splitn_pattern(line, 4, &sep);
    if cols.len() < 4 {
        return None;
    }
    proof {
        assert(cols@[0]@ == texts(cols@)[0]);
        assert(cols@[1]@ == texts(cols@)[1]);
        assert(cols@[2]@ == texts(cols@)[2]);
        assert(cols@[3]@ == texts(cols@)[3]);
    }
    let name = trim_chars(&cols[0]);
    let mime_type = trim_chars(&cols[1]);
    let href = trim_chars(&cols[2]);
    let content = trim_chars(&cols[3]);
    let href = if href.len() == 0 {
        None
    } else {
        Some(string_of(&href))
    };
    Some(
        AncillaryData {
            name: string_of(&name),
            mime_type: string_of(&mime_type),
            href,
            content: string_of(&content),
        },
    )
}

/// The entries a text holds, one per line (see [`decoded_entries`]).
pub fn decode(value: &str) -> (r: Vec<AncillaryData<String>>)
    ensures
        entries_view(r@) == decoded_entries(value@),
{
    let ls = lines_of(&chars_of(value));
    let ghost all = lines(value@);
    let mut out: Vec<AncillaryData<String>> = Vec::new();
    let mut i: usize = 0;
    while i < ls.len()
        invariant
            i <= ls@.len(),
            all == lines(value@),
            ls@.len() == all.len(),
            forall|k: int| 0 <= k < ls@.len() ==> #[trigger] ls@[k]@ == all[k],
            entries_view(out@) == filter_map(all.take(i as int), entry_parser()),
        decreases ls.len() - i,
    {
        let ghost before = out@;
        let parsed = entry_from_line(&ls[i]);
        proof {
            assert(all.take(i + 1).drop_last() =~= all.take(i as int));
            assert(all.take(i + 1).last() == ls@[i as int]@);
        }
        match parsed {
            Some(a) => {
                out.push(a);
                assert(entries_view(out@) =~= entries_view(before).push(out@.last()@));
            },
            None => {},
        }
        i = i + 1;
    }
    assert(all.take(ls.len() as int) =~= all);
    out
}

/// The ancillary data set of a text, when it holds at least one entry.
pub fn parse(value: &str) -> (r: Option<Vec<AncillaryData<String>>>)
    ensures
        match r {
            Some(v) => decoded_entries(value@).len() > 0 && entries_view(v@) == decoded_entries(value@),
            None => decoded_entries(value@).len() == 0,
        },
{
    let entries = decode(value);
    if entries.len() == 0 {
        None
    } else {
        Some(entries)
    }
}

/// The text written for entries (see [`entries_text`]).
pub fn encode_entries(entries: &Vec<AncillaryData<String>>) -> (r: String)
    ensures
        r@ == entries_text(entries_view(entries@)),
{
    let mut items: Vec<Vec<char>> = Vec::new();
    let sep = vec![' ', '|', ' '];
    assert(sep@ =~= separator());
    let mut i: usize = 0;
    while i < entries.len()
        invariant
            i <= entries@.len(),
            sep@ == separator(),
            items@.len() == i,
            forall|k: int| 0 <= k < i ==> #[trigger] items@[k]@ == entry_line(entries@[k]@),
        decreases entries.len() - i,
    {
        let a = &entries[i];
        let mut line = chars_of(a.name.as_str());
        append_chars(&mut line, &sep);
        append_chars(&mut line, &chars_of(a.mime_type.as_str()));
        append_chars(&mut line, &sep);
        match &a.href {
            Some(h) => append_chars(&mut line, &chars_of(h.as_str())),
            None => {},
        }
        append_chars(&mut line, &sep);
        append_chars(&mut line, &chars_of(a.content.as_str()));
        assert(line@ =~= entry_line(a@));
        items.push(line);
        i = i + 1;
    }
    let nl = vec!['\n'];
    let joined = join_chars(&items, &nl);
    assert(items@.map_values(|x: Vec<char>| x@) =~= entries_view(entries@).map_values(
        |a: AncillaryData<Seq<char>>| entry_line(a),
    ));
    assert(nl@ =~= seq!['\n']);
    string_of(&joined)
}

/// The entries of the editor's rows (see [`rows_entries`]), when there is
/// at least one.
pub fn value(rows: &Vec<AncillaryRow>) -> (r: Option<Vec<AncillaryData<String>>>)
    ensures
        match r {
            Some(v) => rows_entries(rows@).len() > 0 && entries_view(v@) == rows_entries(rows@),
            None => rows_entries(rows@).len() == 0,
        },
{
    let mut out: Vec<AncillaryData<String>> = Vec::new();
    let mut i: usize = 0;
    while i < rows.len()
        invariant
            i <= rows@.len(),
            entries_view(out@) == filter_map(rows@.take(i as int), row_reader()),
        decreases rows.len() - i,
    {
        let ghost before = out@;
        let row = &rows[i];
        let name = trim_chars(&chars_of(row.name.as_str()));
        proof {
            assert(rows@.take(i + 1).drop_last() =~= rows@.take(i as int));
            assert(rows@.take(i + 1).last() == rows@[i as int]);
        }
        if name.len() > 0 {
            let mime_type = non_empty_or(row.mime_type.clone(), default_mime_type());
            let href = optional(row.href.as_str());
            out.push(
                AncillaryData {
                    name: string_of(&name),
                    mime_type,
                    href,
                    content: row.content.clone(),
                },
            );
            assert(entries_view(out@) =~= entries_view(before).push(out@.last()@));
        }
        i = i + 1;
    }
    assert(rows@.take(rows.len() as int) =~= rows@);
    if out.len() == 0 {
        None
    } else {
        Some(out)
    }
}

/// Whether an entry is written and read back unchanged: every column
/// trimmed and on one line, no `|` in the first three, and a given `href`
/// not empty.
pub open spec fn clean_entry(a: AncillaryData<Seq<char>>) -> bool {
    &&& is_trimmed(a.name) && one_line(a.name) && !has_char(a.name, '|')
    &&& is_trimmed(a.mime_type) && one_line(a.mime_type) && !has_char(a.mime_type, '|')
    &&& match a.href {
        Some(h) => h.len() > 0 && is_trimmed(h) && one_line(h) && !has_char(h, '|'),
        None => true,
    }
    &&& is_trimmed(a.content) && one_line(a.content)
}

/// In `a + " | " + rest`, where `a` has no `|`, the first separator is the
/// one after `a`.
proof fn lemma_find_separator(a: Seq<char>, rest: Seq<char>)
    requires
        !has_char(a, '|'),
    ensures
        find_seq(a + separator() + rest, separator()) == Some(a.len() as int),
        (a + separator() + rest).take(a.len() as int) == a,
        (a + separator() + rest).skip(a.len() as int + 3) == rest,
{
    let p = separator();
    let s = a + p + rest;
    assert(s.subrange(a.len() as int, a.len() as int + 3) =~= p);
    assert forall|j: int| 0 <= j < a.len() implies !#[trigger] occurs_at(s, p, j) by {
        if occurs_at(s, p, j) {
            let w = s.subrange(j, j + 3);
            assert(w[1] == s[j + 1]);
            if j + 1 < a.len() {
                assert(a[j + 1] == s[j + 1]);
            } else {
                assert(s[j + 1] == p[0]);
            }
        }
    }
    lemma_find_seq_at(s, p, a.len() as int);
    assert(s.take(a.len() as int) =~= a);
    assert(s.skip(a.len() as int + 3) =~= rest);
}

proof fn lemma_separator_one_line()
    ensures
        one_line(separator()),
{
    let p = separator();
    assert(!has_char(p, '\n')) by {
        if has_char(p, '\n') {
            let i = choose|i: int| 0 <= i < p.len() && p[i] == '\n';
        }
    }
    assert(!has_char(p, '\r')) by {
        if has_char(p, '\r') {
            let i = choose|i: int| 0 <= i < p.len() && p[i] == '\r';
        }
    }
}

/// Splitting `a + " | " + rest` into `n` pieces, where `a` has no `|`,
/// gives `a` and the pieces of `rest`.
proof fn lemma_splitn_step(a: Seq<char>, rest: Seq<char>, n: nat)
    requires
        !has_char(a, '|'),
        n >= 2,
    ensures
        splitn_seq(a + separator() + rest, n, separator()) == seq![a] + splitn_seq(
            rest,
            (n - 1) as nat,
            separator(),
        ),
{
    lemma_find_separator(a, rest);
}

proof fn lemma_entry_columns(a: AncillaryData<Seq<char>>, h: Seq<char>)
    requires
        clean_entry(a),
        h == (match a.href {
            Some(h) => h,
            None => Seq::<char>::empty(),
        }),
    ensures
        splitn_seq(entry_line(a), 4, separator()) == seq![a.name, a.mime_type, h, a.content],
        !has_char(h, '|'),
        one_line(h),
        is_trimmed(h),
{
    let p = separator();
    if a.href is None {
        assert(!has_char(h, '|'));
        assert(!has_char(h, '\n'));
        assert(!has_char(h, '\r'));
    }
    let r3 = a.content;
    let r2 = h + p + r3;
    let r1 = a.mime_type + p + r2;
    assert(entry_line(a) =~= a.name + p + r1);
    lemma_splitn_step(a.name, r1, 4);
    lemma_splitn_step(a.mime_type, r2, 3);
    lemma_splitn_step(h, r3, 2);
    assert(splitn_seq(r3, 1, p) == seq![r3]);
    assert(splitn_seq(entry_line(a), 4, p) =~= seq![a.name, a.mime_type, h, r3]);
}

proof fn lemma_entry_line(a: AncillaryData<Seq<char>>)
    requires
        clean_entry(a),
    ensures
        entry_of_line(entry_line(a)) == Some(a),
        one_line(entry_line(a)),
        entry_line(a).len() > 0,
{
    let p = separator();
    let h = match a.href {
        Some(h) => h,
        None => Seq::<char>::empty(),
    };
    lemma_entry_columns(a, h);
    lemma_trim_trimmed(a.name);
    lemma_trim_trimmed(a.mime_type);
    lemma_trim_trimmed(h);
    lemma_trim_trimmed(a.content);
    let r3 = a.content;
    let r2 = h + p + r3;
    let r1 = a.mime_type + p + r2;
    assert(entry_line(a) =~= a.name + p + r1);
    lemma_separator_one_line();
    lemma_one_line_concat(h + p, r3);
    lemma_one_line_concat(h, p);
    lemma_one_line_concat(a.mime_type + p, r2);
    lemma_one_line_concat(a.mime_type, p);
    lemma_one_line_concat(a.name + p, r1);
    lemma_one_line_concat(a.name, p);
}

/// Entries written as text read back unchanged when each is clean (see
/// [`clean_entry`]).
pub proof fn lemma_entries_round_trip(s: Seq<AncillaryData<Seq<char>>>)
    requires
        forall|i: int| 0 <= i < s.len() ==> clean_entry(#[trigger] s[i]),
    ensures
        decoded_entries(entries_text(s)) == s,
{
    let items = s.map_values(|a: AncillaryData<Seq<char>>| entry_line(a));
    assert forall|i: int| 0 <= i < items.len() implies !has_char(#[trigger] items[i], '\n')
        && !has_char(items[i], '\r') && items[i].len() > 0 && entry_parser()(items[i]) == Some(
        s[i],
    ) by {
        lemma_entry_line(s[i]);
    }
    if items.len() > 0 {
        assert(items.last() == items[items.len() - 1]);
    }
    lemma_lines_join(items);
    lemma_filter_map_all(items, entry_parser(), s);
}

} // verus!

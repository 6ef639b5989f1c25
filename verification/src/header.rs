//! The header of a space system: its validation status, the lists of
//! authors, notes and history entries edited one per line, and the values
//! the header form shows and applies.
use vstd::prelude::*;
use crate::algorithm::{opt_text, text_or_empty};
use crate::fields::{clean_optional, optional, optional_text, text_of};
use crate::number::{spells, spells_exec};
use crate::text::{
    chars_of, filter_map, is_trimmed, join, join_chars, lines, lines_of, one_line, string_of, trim,
    trim_chars, lemma_filter_map_all, lemma_lines_join, lemma_trim_trimmed,
};

verus! {

/// How far the document has been validated.
#[derive(Clone, Copy, Debug, PartialEq, Eq, Structural)]
pub enum ValidationStatus {
    Unknown,
    Working,
    Draft,
    Test,
    Validated,
    Released,
    Withdrawn,
}

/// The label the form shows for a status.
pub open spec fn status_label(s: ValidationStatus) -> Seq<char> {
    match s {
        ValidationStatus::Unknown => seq!['U', 'n', 'k', 'n', 'o', 'w', 'n'],
        ValidationStatus::Working => seq!['W', 'o', 'r', 'k', 'i', 'n', 'g'],
        ValidationStatus::Draft => seq!['D', 'r', 'a', 'f', 't'],
        ValidationStatus::Test => seq!['T', 'e', 's', 't'],
        ValidationStatus::Validated => seq!['V', 'a', 'l', 'i', 'd', 'a', 't', 'e', 'd'],
        ValidationStatus::Released => seq!['R', 'e', 'l', 'e', 'a', 's', 'e', 'd'],
        ValidationStatus::Withdrawn => seq!['W', 'i', 't', 'h', 'd', 'r', 'a', 'w', 'n'],
    }
}

/// The name of a status in lower case letters.
pub open spec fn status_lower(s: ValidationStatus) -> Seq<char> {
    match s {
        ValidationStatus::Unknown => seq!['u', 'n', 'k', 'n', 'o', 'w', 'n'],
        ValidationStatus::Working => seq!['w', 'o', 'r', 'k', 'i', 'n', 'g'],
        ValidationStatus::Draft => seq!['d', 'r', 'a', 'f', 't'],
        ValidationStatus::Test => seq!['t', 'e', 's', 't'],
        ValidationStatus::Validated => seq!['v', 'a', 'l', 'i', 'd', 'a', 't', 'e', 'd'],
        ValidationStatus::Released => seq!['r', 'e', 'l', 'e', 'a', 's', 'e', 'd'],
        ValidationStatus::Withdrawn => seq!['w', 'i', 't', 'h', 'd', 'r', 'a', 'w', 'n'],
    }
}

/// The name of a status in upper case letters.
pub open spec fn status_upper(s: ValidationStatus) -> Seq<char> {
    match s {
        ValidationStatus::Unknown => seq!['U', 'N', 'K', 'N', 'O', 'W', 'N'],
        ValidationStatus::Working => seq!['W', 'O', 'R', 'K', 'I', 'N', 'G'],
        ValidationStatus::Draft => seq!['D', 'R', 'A', 'F', 'T'],
        ValidationStatus::Test => seq!['T', 'E', 'S', 'T'],
        ValidationStatus::Validated => seq!['V', 'A', 'L', 'I', 'D', 'A', 'T', 'E', 'D'],
        ValidationStatus::Released => seq!['R', 'E', 'L', 'E', 'A', 'S', 'E', 'D'],
        ValidationStatus::Withdrawn => seq!['W', 'I', 'T', 'H', 'D', 'R', 'A', 'W', 'N'],
    }
}

/// Whether a text names the status, ignoring the case of its letters.
pub open spec fn names_status(t: Seq<char>, s: ValidationStatus) -> bool {
    spells(t, status_lower(s), status_upper(s))
}

/// The status a text names, ignoring surrounding white space and the case
/// of letters; `Unknown` for any other text.
pub open spec fn status_of_text(value: Seq<char>) -> ValidationStatus {
    let t = trim(value);
    if names_status(t, ValidationStatus::Working) {
        ValidationStatus::Working
    } else if names_status(t, ValidationStatus::Draft) {
        ValidationStatus::Draft
    } else if names_status(t, ValidationStatus::Test) {
        ValidationStatus::Test
    } else if names_status(t, ValidationStatus::Validated) {
        ValidationStatus::Validated
    } else if names_status(t, ValidationStatus::Released) {
        ValidationStatus::Released
    } else if names_status(t, ValidationStatus::Withdrawn) {
        ValidationStatus::Withdrawn
    } else {
        ValidationStatus::Unknown
    }
}

fn lower_chars(s: ValidationStatus) -> (r: Vec<char>)
    ensures
        r@ == status_lower(s),
{
    let r = match s {
        ValidationStatus::Unknown => vec!['u', 'n', 'k', 'n', 'o', 'w', 'n'],
        ValidationStatus::Working => vec!['w', 'o', 'r', 'k', 'i', 'n', 'g'],
        ValidationStatus::Draft => vec!['d', 'r', 'a', 'f', 't'],
        ValidationStatus::Test => vec!['t', 'e', 's', 't'],
        ValidationStatus::Validated => vec!['v', 'a', 'l', 'i', 'd', 'a', 't', 'e', 'd'],
        ValidationStatus::Released => vec!['r', 'e', 'l', 'e', 'a', 's', 'e', 'd'],
        ValidationStatus::Withdrawn => vec!['w', 'i', 't', 'h', 'd', 'r', 'a', 'w', 'n'],
    };
    assert(r@ =~= status_lower(s));
    r
}

fn upper_chars(s: ValidationStatus) -> (r: Vec<char>)
    ensures
        r@ == status_upper(s),
{
    let r = match s {
        ValidationStatus::Unknown => vec!['U', 'N', 'K', 'N', 'O', 'W', 'N'],
        ValidationStatus::Working => vec!['W', 'O', 'R', 'K', 'I', 'N', 'G'],
        ValidationStatus::Draft => vec!['D', 'R', 'A', 'F', 'T'],
        ValidationStatus::Test => vec!['T', 'E', 'S', 'T'],
        ValidationStatus::Validated => vec!['V', 'A', 'L', 'I', 'D', 'A', 'T', 'E', 'D'],
        ValidationStatus::Released => vec!['R', 'E', 'L', 'E', 'A', 'S', 'E', 'D'],
        ValidationStatus::Withdrawn => vec!['W', 'I', 'T', 'H', 'D', 'R', 'A', 'W', 'N'],
    };
    assert(r@ =~= status_upper(s));
    r
}

fn names_status_exec(t: &Vec<char>, s: ValidationStatus) -> (r: bool)
    ensures
        r == names_status(t@, s),
{
    spells_exec(t, &lower_chars(s), &upper_chars(s))
}

/// The label the form shows for a status.
pub fn validation_status_label(s: ValidationStatus) -> (r: String)
    ensures
        r@ == status_label(s),
{
    let v = match s {
        ValidationStatus::Unknown => vec!['U', 'n', 'k', 'n', 'o', 'w', 'n'],
        ValidationStatus::Working => vec!['W', 'o', 'r', 'k', 'i', 'n', 'g'],
        ValidationStatus::Draft => vec!['D', 'r', 'a', 'f', 't'],
        ValidationStatus::Test => vec!['T', 'e', 's', 't'],
        ValidationStatus::Validated => vec!['V', 'a', 'l', 'i', 'd', 'a', 't', 'e', 'd'],
        ValidationStatus::Released => vec!['R', 'e', 'l', 'e', 'a', 's', 'e', 'd'],
        ValidationStatus::Withdrawn => vec!['W', 'i', 't', 'h', 'd', 'r', 'a', 'w', 'n'],
    };
    assert(v@ =~= status_label(s));
    string_of(&v)
}

/// The status a text names (see [`status_of_text`]).
pub fn validation_status_from_str(value: &str) -> (r: ValidationStatus)
    ensures
        r == status_of_text(value@),
{
    let t = trim_chars(&chars_of(value));
    if names_status_exec(&t, ValidationStatus::Working) {
        ValidationStatus::Working
    } else if names_status_exec(&t, ValidationStatus::Draft) {
        ValidationStatus::Draft
    } else if names_status_exec(&t, ValidationStatus::Test) {
        ValidationStatus::Test
    } else if names_status_exec(&t, ValidationStatus::Validated) {
        ValidationStatus::Validated
    } else if names_status_exec(&t, ValidationStatus::Released) {
        ValidationStatus::Released
    } else if names_status_exec(&t, ValidationStatus::Withdrawn) {
        ValidationStatus::Withdrawn
    } else {
        ValidationStatus::Unknown
    }
}

/// Reading the label of a status gives the status back.
pub proof fn lemma_status_round_trip(s: ValidationStatus)
    ensures
        status_of_text(status_label(s)) == s,
{
    let l = status_label(s);
    assert(!crate::text::is_space(l[0]) && !crate::text::is_space(l.last()));
    lemma_trim_trimmed(l);
    let all = seq![
        ValidationStatus::Working,
        ValidationStatus::Draft,
        ValidationStatus::Test,
        ValidationStatus::Validated,
        ValidationStatus::Released,
        ValidationStatus::Withdrawn,
    ];
    assert(names_status(l, s) || s == ValidationStatus::Unknown);
    assert forall|i: int| 0 <= i < all.len() && all[i] != s implies !names_status(l, #[trigger] all[i]) by {
        let o = all[i];
        if status_lower(o).len() == l.len() {
            assert(exists|k: int| 0 <= k < l.len() && l[k] != status_lower(o)[k] && l[k]
                != status_upper(o)[k]) by {
                if l.len() == 4 {
                    assert(l[0] != status_lower(o)[0] && l[0] != status_upper(o)[0]);
                } else if l.len() == 5 {
                    assert(l[0] != status_lower(o)[0] && l[0] != status_upper(o)[0]);
                } else if l.len() == 7 {
                    assert(l[1] != status_lower(o)[1] && l[1] != status_upper(o)[1]);
                } else if l.len() == 8 {
                    assert(l[0] != status_lower(o)[0] && l[0] != status_upper(o)[0]);
                } else {
                    assert(l[0] != status_lower(o)[0] && l[0] != status_upper(o)[0]);
                }
            }
        }
    }
    assert(!names_status(l, ValidationStatus::Working) || s == ValidationStatus::Working) by {
        if s != ValidationStatus::Working {
            assert(all[0] == ValidationStatus::Working);
        }
    }
    assert(!names_status(l, ValidationStatus::Draft) || s == ValidationStatus::Draft) by {
        if s != ValidationStatus::Draft {
            assert(all[1] == ValidationStatus::Draft);
        }
    }
    assert(!names_status(l, ValidationStatus::Test) || s == ValidationStatus::Test) by {
        if s != ValidationStatus::Test {
            assert(all[2] == ValidationStatus::Test);
        }
    }
    assert(!names_status(l, ValidationStatus::Validated) || s == ValidationStatus::Validated) by {
        if s != ValidationStatus::Validated {
            assert(all[3] == ValidationStatus::Validated);
        }
    }
    assert(!names_status(l, ValidationStatus::Released) || s == ValidationStatus::Released) by {
        if s != ValidationStatus::Released {
            assert(all[4] == ValidationStatus::Released);
        }
    }
    assert(!names_status(l, ValidationStatus::Withdrawn) || s == ValidationStatus::Withdrawn) by {
        if s != ValidationStatus::Withdrawn {
            assert(all[5] == ValidationStatus::Withdrawn);
        }
    }
}

/// Whether a line holds an entry: it is not blank.
pub open spec fn entry_of_line(line: Seq<char>) -> Option<Seq<char>> {
    if trim(line).len() == 0 {
        None
    } else {
        Some(trim(line))
    }
}

/// [`entry_of_line`] as a function value.
pub open spec fn entry_reader() -> spec_fn(Seq<char>) -> Option<Seq<char>> {
    |line: Seq<char>| entry_of_line(line)
}

/// The entries a text holds: its non-blank lines, trimmed.
pub open spec fn entries_of_text(text: Seq<char>) -> Seq<Seq<char>> {
    filter_map(lines(text), entry_reader())
}

/// The texts of a list of strings.
pub open spec fn strings_view(v: Seq<String>) -> Seq<Seq<char>> {
    v.map_values(|s: String| s@)
}

/// The entries of a text, one per non-blank line, when there is at least
/// one (see [`entries_of_text`]).
pub fn entry_lines(value: &str) -> (r: Option<Vec<String>>)
    ensures
        match r {
            Some(v) => entries_of_text(value@).len() > 0 && strings_view(v@) == entries_of_text(
                value@,
            ),
            None => entries_of_text(value@).len() == 0,
        },
{
    let ls = lines_of(&chars_of(value));
    let ghost all = lines(value@);
    let mut out: Vec<String> = Vec::new();
    let mut i: usize = 0;
    while i < ls.len()
        invariant
            i <= ls@.len(),
            all == lines(value@),
            ls@.len() == all.len(),
            forall|k: int| 0 <= k < ls@.len() ==> #[trigger] ls@[k]@ == all[k],
            strings_view(out@) == filter_map(all.take(i as int), entry_reader()),
        decreases ls.len() - i,
    {
        let ghost before = out@;
        let t = trim_chars(&ls[i]);
        proof {
            assert(all.take(i + 1).drop_last() =~= all.take(i as int));
            assert(all.take(i + 1).last() == ls@[i as int]@);
        }
        if t.len() > 0 {
            out.push(string_of(&t));
            assert(strings_view(out@) =~= strings_view(before).push(out@.last()@));
        }
        i = i + 1;
    }
    assert(all.take(ls.len() as int) =~= all);
    if out.len() == 0 {
        None
    } else {
        Some(out)
    }
}

/// Entries written one per line read back unchanged when each is
/// non-empty, trimmed and on one line.
pub proof fn lemma_entries_round_trip(s: Seq<Seq<char>>)
    requires
        forall|i: int|
            0 <= i < s.len() ==> (#[trigger] s[i]).len() > 0 && is_trimmed(s[i]) && one_line(s[i]),
    ensures
        entries_of_text(join(s, seq!['\n'])) == s,
{
    assert forall|i: int| 0 <= i < s.len() implies entry_reader()(#[trigger] s[i]) == Some(s[i]) by {
        lemma_trim_trimmed(s[i]);
    }
    if s.len() > 0 {
        assert(s.last() == s[s.len() - 1]);
    }
    lemma_lines_join(s);
    lemma_filter_map_all(s, entry_reader(), s);
}

/// The text of a list of entries, one per line.
fn join_entries(v: &Vec<String>) -> (r: String)
    ensures
        r@ == join(strings_view(v@), seq!['\n']),
{
    let mut items: Vec<Vec<char>> = Vec::new();
    let mut i: usize = 0;
    while i < v.len()
        invariant
            i <= v@.len(),
            items@.len() == i,
            forall|k: int| 0 <= k < i ==> #[trigger] items@[k]@ == v@[k]@,
        decreases v.len() - i,
    {
        items.push(chars_of(v[i].as_str()));
        i = i + 1;
    }
    let nl = vec!['\n'];
    let joined = join_chars(&items, &nl);
    assert(items@.map_values(|x: Vec<char>| x@) =~= strings_view(v@));
    assert(nl@ =~= seq!['\n']);
    string_of(&joined)
}

/// The header of a space system.
#[derive(Debug)]
pub struct Header {
    pub version: Option<String>,
    pub date: Option<String>,
    pub classification: String,
    pub classification_instructions: Option<String>,
    pub validation_status: ValidationStatus,
    pub author_set: Option<Vec<String>>,
    pub note_set: Option<Vec<String>>,
    pub history_set: Option<Vec<String>>,
}

/// The value of a [`Header`].
pub struct HeaderView {
    pub version: Option<Seq<char>>,
    pub date: Option<Seq<char>>,
    pub classification: Seq<char>,
    pub classification_instructions: Option<Seq<char>>,
    pub validation_status: ValidationStatus,
    pub author_set: Option<Seq<Seq<char>>>,
    pub note_set: Option<Seq<Seq<char>>>,
    pub history_set: Option<Seq<Seq<char>>>,
}

/// The value of an optional list of texts.
pub open spec fn opt_list(o: Option<Vec<String>>) -> Option<Seq<Seq<char>>> {
    match o {
        Some(v) => Some(strings_view(v@)),
        None => None,
    }
}

impl View for Header {
    type V = HeaderView;

    open spec fn view(&self) -> HeaderView {
        HeaderView {
            version: opt_text(self.version),
            date: opt_text(self.date),
            classification: self.classification@,
            classification_instructions: opt_text(self.classification_instructions),
            validation_status: self.validation_status,
            author_set: opt_list(self.author_set),
            note_set: opt_list(self.note_set),
            history_set: opt_list(self.history_set),
        }
    }
}

/// The texts the header form shows.
#[derive(Debug)]
pub struct HeaderValues {
    pub version: String,
    pub date: String,
    pub classification: String,
    pub classification_instructions: String,
    pub validation_status: String,
    pub authors: String,
    pub notes: String,
    pub history: String,
}

/// The value of [`HeaderValues`].
pub struct HeaderValuesView {
    pub version: Seq<char>,
    pub date: Seq<char>,
    pub classification: Seq<char>,
    pub classification_instructions: Seq<char>,
    pub validation_status: Seq<char>,
    pub authors: Seq<char>,
    pub notes: Seq<char>,
    pub history: Seq<char>,
}

impl View for HeaderValues {
    type V = HeaderValuesView;

    open spec fn view(&self) -> HeaderValuesView {
        HeaderValuesView {
            version: self.version@,
            date: self.date@,
            classification: self.classification@,
            classification_instructions: self.classification_instructions@,
            validation_status: self.validation_status@,
            authors: self.authors@,
            notes: self.notes@,
            history: self.history@,
        }
    }
}

/// The classification XTCE gives a header that names none.
pub open spec fn default_classification_text() -> Seq<char> {
    seq!['N', 'o', 't', 'C', 'l', 'a', 's', 's', 'i', 'f', 'i', 'e', 'd']
}

/// The classification XTCE gives a header that names none.
pub fn default_classification() -> (r: String)
    ensures
        r@ == default_classification_text(),
{
    let v = vec!['N', 'o', 't', 'C', 'l', 'a', 's', 's', 'i', 'f', 'i', 'e', 'd'];
    assert(v@ =~= default_classification_text());
    string_of(&v)
}

/// The text of an optional list, one entry per line, empty when there is
/// none.
pub open spec fn list_text(o: Option<Seq<Seq<char>>>) -> Seq<char> {
    match o {
        Some(s) => join(s, seq!['\n']),
        None => Seq::empty(),
    }
}

/// The texts the form shows for a header, or for a new one.
pub open spec fn values_of_header(h: Option<HeaderView>) -> HeaderValuesView {
    match h {
        Some(h) => HeaderValuesView {
            version: text_or_empty(h.version),
            date: text_or_empty(h.date),
            classification: h.classification,
            classification_instructions: text_or_empty(h.classification_instructions),
            validation_status: status_label(h.validation_status),
            authors: list_text(h.author_set),
            notes: list_text(h.note_set),
            history: list_text(h.history_set),
        },
        None => HeaderValuesView {
            version: Seq::empty(),
            date: Seq::empty(),
            classification: default_classification_text(),
            classification_instructions: Seq::empty(),
            validation_status: status_label(ValidationStatus::Unknown),
            authors: Seq::empty(),
            notes: Seq::empty(),
            history: Seq::empty(),
        },
    }
}

/// The entries of a list field, or nothing when it has none.
pub open spec fn list_of_text(t: Seq<char>) -> Option<Seq<Seq<char>>> {
    if entries_of_text(t).len() == 0 {
        None
    } else {
        Some(entries_of_text(t))
    }
}

/// The header the form's texts give: blank optional fields are left out,
/// the classification is kept as typed, the status is read from its text
/// and each list has one entry per non-blank line.
pub open spec fn header_of_values(v: HeaderValuesView) -> HeaderView {
    HeaderView {
        version: optional_text(v.version),
        date: optional_text(v.date),
        classification: v.classification,
        classification_instructions: optional_text(v.classification_instructions),
        validation_status: status_of_text(v.validation_status),
        author_set: list_of_text(v.authors),
        note_set: list_of_text(v.notes),
        history_set: list_of_text(v.history),
    }
}

fn list_or_empty(o: &Option<Vec<String>>) -> (r: String)
    ensures
        r@ == list_text(opt_list(*o)),
{
    match o {
        Some(v) => join_entries(v),
        None => String::new(),
    }
}

impl HeaderValues {
    /// The texts the form shows for a header (see [`values_of_header`]).
    pub fn from_header(header: Option<&Header>) -> (r: HeaderValues)
        ensures
            r@ == values_of_header(
                match header {
                    Some(h) => Some(h@),
                    None => None,
                },
            ),
    {
        match header {
            Some(h) => HeaderValues {
                version: text_of(&h.version),
                date: text_of(&h.date),
                classification: h.classification.clone(),
                classification_instructions: text_of(&h.classification_instructions),
                validation_status: validation_status_label(h.validation_status),
                authors: list_or_empty(&h.author_set),
                notes: list_or_empty(&h.note_set),
                history: list_or_empty(&h.history_set),
            },
            None => HeaderValues {
                version: String::new(),
                date: String::new(),
                classification: default_classification(),
                classification_instructions: String::new(),
                validation_status: validation_status_label(ValidationStatus::Unknown),
                authors: String::new(),
                notes: String::new(),
                history: String::new(),
            },
        }
    }
}

/// Sets every field of the header from the form's texts (see
/// [`header_of_values`]).
pub fn apply_to(values: &HeaderValues, header: &mut Header)
    ensures
        final(header)@ == header_of_values(values@),
{
    header.version = optional(values.version.as_str());
    header.date = optional(values.date.as_str());
    header.classification = values.classification.clone();
    header.classification_instructions = optional(values.classification_instructions.as_str());
    header.validation_status = validation_status_from_str(values.validation_status.as_str());
    header.author_set = entry_lines(values.authors.as_str());
    header.note_set = entry_lines(values.notes.as_str());
    header.history_set = entry_lines(values.history.as_str());
}

/// Sets the header from the form's texts, creating it when there is none.
pub fn apply_to_option(values: &HeaderValues, header: &mut Option<Header>)
    ensures
        *final(header) matches Some(h) && h@ == header_of_values(values@),
{
    let mut h = match header.take() {
        Some(h) => h,
        None => Header {
            version: None,
            date: None,
            classification: default_classification(),
            classification_instructions: None,
            validation_status: ValidationStatus::Unknown,
            author_set: None,
            note_set: None,
            history_set: None,
        },
    };
    apply_to(values, &mut h);
    *header = Some(h);
}

/// Whether a header is shown by the form and applied back unchanged: its
/// optional texts are non-empty and trimmed, and its lists non-empty with
/// non-empty, trimmed, one-line entries.
pub open spec fn clean_header(h: HeaderView) -> bool {
    &&& clean_optional(h.version)
    &&& clean_optional(h.date)
    &&& clean_optional(h.classification_instructions)
    &&& clean_list(h.author_set)
    &&& clean_list(h.note_set)
    &&& clean_list(h.history_set)
}

/// Whether an optional list is absent, or has entries that are each
/// non-empty, trimmed and on one line.
pub open spec fn clean_list(o: Option<Seq<Seq<char>>>) -> bool {
    match o {
        Some(s) => s.len() > 0 && forall|i: int|
            0 <= i < s.len() ==> (#[trigger] s[i]).len() > 0 && is_trimmed(s[i]) && one_line(s[i]),
        None => true,
    }
}

proof fn lemma_list_round_trip(o: Option<Seq<Seq<char>>>)
    requires
        clean_list(o),
    ensures
        list_of_text(list_text(o)) == o,
{
    match o {
        Some(s) => lemma_entries_round_trip(s),
        None => {
            assert(lines(Seq::<char>::empty()) =~= Seq::<Seq<char>>::empty()) by {
                assert(crate::text::split_char(Seq::<char>::empty(), '\n') =~= seq![Seq::<char>::empty()]);
            }
        },
    }
}

/// Showing a header in the form and applying the form back leaves the
/// header unchanged, when it is clean (see [`clean_header`]).
pub proof fn lemma_header_round_trip(h: HeaderView)
    requires
        clean_header(h),
    ensures
        header_of_values(values_of_header(Some(h))) == h,
{
    crate::fields::lemma_optional_back(h.version);
    crate::fields::lemma_optional_back(h.date);
    crate::fields::lemma_optional_back(h.classification_instructions);
    lemma_list_round_trip(h.author_set);
    lemma_list_round_trip(h.note_set);
    lemma_list_round_trip(h.history_set);
    lemma_status_round_trip(h.validation_status);
}

} // verus!

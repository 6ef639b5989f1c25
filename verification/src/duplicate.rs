//! Copying one element of a collection: the copy is appended at the end and,
//! when the element is named, renamed to a name no other named element of
//! the collection carries (`<name>_copy`, then `<name>_copy2`, `_copy3`, ...).
use vstd::prelude::*;
use vstd::set_lib::{lemma_int_range, lemma_len_subset, lemma_map_size, set_int_range};
use crate::model::{Entry, EntryView, entries_view, is_reference, is_reference_variant};
use crate::number::{decimal, lemma_decimal};
use crate::text::{append_chars, chars_of, string_of};

verus! {

/// The name an entry is known by in its collection; reference-only entries
/// have none.
pub open spec fn display_name(e: EntryView) -> Option<Seq<char>> {
    if is_reference(e.variant) {
        None
    } else {
        Some(e.name)
    }
}

/// Whether some named entry of the collection carries the name.
pub open spec fn name_taken(items: Seq<EntryView>, name: Seq<char>) -> bool {
    exists|i: int| 0 <= i < items.len() && #[trigger] display_name(items[i]) == Some(name)
}

/// `<name>_copy`.
pub open spec fn copy_base(name: Seq<char>) -> Seq<char> {
    name + seq!['_', 'c', 'o', 'p', 'y']
}

/// `<name>_copy<k>`.
pub open spec fn numbered_copy(name: Seq<char>, k: nat) -> Seq<char> {
    copy_base(name) + decimal(k)
}

/// Whether `k` is the least suffix from 2 on that gives a free name.
pub open spec fn is_first_free_suffix(items: Seq<EntryView>, name: Seq<char>, k: nat) -> bool {
    &&& k >= 2
    &&& !name_taken(items, numbered_copy(name, k))
    &&& forall|j: nat| 2 <= j < k ==> name_taken(items, #[trigger] numbered_copy(name, j))
}

/// The name given to a copy of an entry named `name`.
pub open spec fn copy_name(items: Seq<EntryView>, name: Seq<char>) -> Seq<char> {
    if !name_taken(items, copy_base(name)) {
        copy_base(name)
    } else {
        numbered_copy(name, choose|k: nat| is_first_free_suffix(items, name, k))
    }
}

/// The copy of `items[index]` that duplication appends.
pub open spec fn copy_of(items: Seq<EntryView>, index: int) -> EntryView {
    let e = items[index];
    if is_reference(e.variant) {
        e
    } else {
        EntryView { name: copy_name(items, e.name), ..e }
    }
}

proof fn lemma_decimal_injective(a: nat, b: nat)
    requires
        decimal(a) == decimal(b),
    ensures
        a == b,
{
    lemma_decimal(a);
    lemma_decimal(b);
}

proof fn lemma_numbered_copy_injective(name: Seq<char>, a: nat, b: nat)
    requires
        numbered_copy(name, a) == numbered_copy(name, b),
    ensures
        a == b,
{
    let base = copy_base(name);
    assert(numbered_copy(name, a).skip(base.len() as int) =~= decimal(a));
    assert(numbered_copy(name, b).skip(base.len() as int) =~= decimal(b));
    lemma_decimal_injective(a, b);
}

/// Among the suffixes `2..items.len() + 3` one gives a free name.
proof fn lemma_free_suffix_exists(items: Seq<EntryView>, name: Seq<char>)
    ensures
        exists|k: nat|
            2 <= k < items.len() + 3 && !name_taken(items, #[trigger] numbered_copy(name, k)),
{
    if forall|k: nat|
        2 <= k < items.len() + 3 ==> name_taken(items, #[trigger] numbered_copy(name, k)) {
        let lo: int = 2;
        let hi: int = items.len() as int + 3;
        let ks = set_int_range(lo, hi);
        let idx = set_int_range(0, items.len() as int);
        let f = |k: int|
            choose|i: int|
                0 <= i < items.len() && #[trigger] display_name(items[i]) == Some(
                    numbered_copy(name, k as nat),
                );
        lemma_int_range(lo, hi);
        lemma_int_range(0, items.len() as int);
        assert forall|k: int| ks.contains(k) implies 0 <= f(k) < items.len() && display_name(
            items[f(k)],
        ) == Some(numbered_copy(name, k as nat)) by {
            assert(name_taken(items, numbered_copy(name, k as nat)));
        }
        assert(vstd::relations::injective_on(f, ks)) by {
            assert forall|x: int, y: int|
                ks.contains(x) && ks.contains(y) && #[trigger] f(x) == #[trigger] f(y) implies x
                == y by {
                lemma_numbered_copy_injective(name, x as nat, y as nat);
            }
        }
        let img = ks.map(f);
        lemma_map_size(ks, img, f);
        assert(img.subset_of(idx)) by {
            assert forall|i: int| img.contains(i) implies idx.contains(i) by {
                let k = choose|k: int| ks.contains(k) && f(k) == i;
            }
        }
        lemma_len_subset(img, idx);
        assert(false);
    }
}

/// Whether a named entry of the collection carries the name.
fn is_taken(items: &Vec<Entry>, candidate: &String) -> (r: bool)
    ensures
        r == name_taken(entries_view(items@), candidate@),
{
    let ghost views = entries_view(items@);
    let mut i: usize = 0;
    while i < items.len()
        invariant
            i <= items.len(),
            views == entries_view(items@),
            forall|j: int| 0 <= j < i ==> #[trigger] display_name(views[j]) != Some(candidate@),
        decreases items.len() - i,
    {
        if !is_reference_variant(items[i].variant) && items[i].name == *candidate {
            assert(display_name(views[i as int]) == Some(candidate@));
            return true;
        }
        i = i + 1;
    }
    false
}

/// The name for a copy of an entry named `name`.
fn fresh_copy_name(items: &Vec<Entry>, name: &String) -> (r: String)
    ensures
        r@ == copy_name(entries_view(items@), name@),
{
    let ghost views = entries_view(items@);
    let mut base = chars_of(name.as_str());
    append_chars(&mut base, &vec!['_', 'c', 'o', 'p', 'y']);
    assert(base@ =~= copy_base(name@));
    let base_name = string_of(&base);
    if !is_taken(items, &base_name) {
        return base_name;
    }
    proof {
        lemma_free_suffix_exists(views, name@);
    }
    let ghost free = choose|k: nat|
        2 <= k < views.len() + 3 && !name_taken(views, #[trigger] numbered_copy(name@, k));
    let len = items.len();
    assert(free < 0x1_0000_0000_0000_0004) by {
        assert(views.len() == len);
    }
    let mut k: u128 = 2;
    loop
        invariant
            views == entries_view(items@),
            views.len() == items@.len(),
            free < 0x1_0000_0000_0000_0004,
            name_taken(views, copy_base(name@)),
            base@ == copy_base(name@),
            2 <= k <= free,
            2 <= free < views.len() + 3,
            !name_taken(views, numbered_copy(name@, free)),
            forall|j: nat| 2 <= j < k ==> name_taken(views, #[trigger] numbered_copy(name@, j)),
        decreases free - k,
    {
        let mut candidate = base.clone();
        crate::number::push_decimal_wide(&mut candidate, k);
        let candidate_name = string_of(&candidate);
        assert(candidate_name@ == numbered_copy(name@, k as nat));
        if !is_taken(items, &candidate_name) {
            assert(is_first_free_suffix(views, name@, k as nat));
            proof {
                let c = choose|c: nat| is_first_free_suffix(views, name@, c);
                if c < k {
                    assert(name_taken(views, numbered_copy(name@, c)));
                } else if c > k {
                    assert(name_taken(views, numbered_copy(name@, k as nat)));
                }
            }
            return candidate_name;
        }
        k = k + 1;
    }
}

/// Appends a copy of `items[index]` and returns the copy's index; a named
/// entry's copy gets a fresh name, a reference keeps its target. An index
/// past the end changes nothing and gives `None`.
pub fn duplicate_item(items: &mut Vec<Entry>, index: usize) -> (r: Option<usize>)
    ensures
        index < old(items)@.len() ==> (r matches Some(n) && n == old(items)@.len()) && entries_view(final(items)@)
            == entries_view(old(items)@).push(copy_of(entries_view(old(items)@), index as int)),
        index >= old(items)@.len() ==> r is None && *final(items) == *old(items),
{
    if index >= items.len() {
        return None;
    }
    let ghost views = entries_view(items@);
    let original = &items[index];
    let copy = if is_reference_variant(original.variant) {
        original.clone_entry()
    } else {
        let name = fresh_copy_name(items, &original.name);
        Entry { variant: original.variant, name, content: original.content.clone() }
    };
    let new_index = items.len();
    items.push(copy);
    assert(entries_view(items@) =~= views.push(copy_of(views, index as int)));
    Some(new_index)
}


/// The name given to a copy is carried by no named entry of the collection
/// it is copied into.
pub proof fn lemma_copy_name_is_fresh(items: Seq<EntryView>, name: Seq<char>)
    ensures
        !name_taken(items, copy_name(items, name)),
{
    if name_taken(items, copy_base(name)) {
        lemma_free_suffix_exists(items, name);
        let free = choose|k: nat|
            2 <= k < items.len() + 3 && !name_taken(items, #[trigger] numbered_copy(name, k));
        lemma_least_free_suffix(items, name, free);
    }
}

/// Some least suffix gives a free name when some suffix does.
proof fn lemma_least_free_suffix(items: Seq<EntryView>, name: Seq<char>, free: nat)
    requires
        free >= 2,
        !name_taken(items, numbered_copy(name, free)),
    ensures
        exists|k: nat| is_first_free_suffix(items, name, k),
    decreases free,
{
    if forall|j: nat| 2 <= j < free ==> name_taken(items, #[trigger] numbered_copy(name, j)) {
        assert(is_first_free_suffix(items, name, free));
    } else {
        let j = choose|j: nat| 2 <= j < free && !name_taken(items, #[trigger] numbered_copy(name, j));
        lemma_least_free_suffix(items, name, j);
    }
}

/// A duplicated named entry's copy carries a name no named entry of the
/// original collection carries, and the copy keeps the entry's kind and
/// content; a reference entry is copied as it is.
pub proof fn lemma_copy_of_entry(items: Seq<EntryView>, index: int)
    requires
        0 <= index < items.len(),
    ensures
        copy_of(items, index).variant == items[index].variant,
        copy_of(items, index).content == items[index].content,
        is_reference(items[index].variant) ==> copy_of(items, index) == items[index],
        !is_reference(items[index].variant) ==> !name_taken(items, copy_of(items, index).name),
{
    lemma_copy_name_is_fresh(items, items[index].name);
}

/// The name of the entry, `<name>_copy` and `<name>_copy<j>` for each
/// `j` from 2 are pairwise different names.
proof fn lemma_names_differ(name: Seq<char>, j: nat)
    ensures
        name != copy_base(name),
        name != numbered_copy(name, j),
        copy_base(name) != numbered_copy(name, j),
{
    lemma_decimal(j);
    assert(copy_base(name).len() == name.len() + 5);
    assert(numbered_copy(name, j).len() == name.len() + 5 + decimal(j).len());
}

/// The suffix search stops early: when an entry named `name` and
/// `<name>_copy` are both taken, the least free suffix is at most the
/// number of entries, so the search over `2..` ends within the
/// collection's length.
pub proof fn lemma_first_free_suffix_bound(items: Seq<EntryView>, name: Seq<char>, k: nat)
    requires
        name_taken(items, name),
        name_taken(items, copy_base(name)),
        is_first_free_suffix(items, name, k),
    ensures
        2 <= k <= items.len(),
{
    let ks = set_int_range(0, k as int);
    let idx = set_int_range(0, items.len() as int);
    let label = |j: int|
        if j == 0 {
            name
        } else if j == 1 {
            copy_base(name)
        } else {
            numbered_copy(name, j as nat)
        };
    let f = |j: int|
        choose|i: int| 0 <= i < items.len() && #[trigger] display_name(items[i]) == Some(label(j));
    lemma_int_range(0, k as int);
    lemma_int_range(0, items.len() as int);
    assert forall|j: int| ks.contains(j) implies 0 <= f(j) < items.len() && display_name(
        items[f(j)],
    ) == Some(label(j)) by {
        if j >= 2 {
            assert(name_taken(items, numbered_copy(name, j as nat)));
        }
    }
    assert(vstd::relations::injective_on(f, ks)) by {
        assert forall|x: int, y: int|
            ks.contains(x) && ks.contains(y) && #[trigger] f(x) == #[trigger] f(y) implies x == y by {
            assert(label(x) == label(y));
            if x >= 2 && y >= 2 {
                lemma_numbered_copy_injective(name, x as nat, y as nat);
            } else if x >= 2 {
                lemma_names_differ(name, x as nat);
            } else if y >= 2 {
                lemma_names_differ(name, y as nat);
            } else {
                lemma_names_differ(name, 2);
            }
        }
    }
    let img = ks.map(f);
    lemma_map_size(ks, img, f);
    assert(img.subset_of(idx)) by {
        assert forall|i: int| img.contains(i) implies idx.contains(i) by {
            let j = choose|j: int| ks.contains(j) && f(j) == i;
        }
    }
    lemma_len_subset(img, idx);
}

/// The copy of a named entry whose `<name>_copy` is taken is named
/// `<name>_copy<k>` for the least free suffix `k`, and `2 <= k <=` the
/// number of entries: the search never runs past the collection.
pub proof fn lemma_copy_suffix_bound(items: Seq<EntryView>, index: int)
    requires
        0 <= index < items.len(),
        !is_reference(items[index].variant),
        name_taken(items, copy_base(items[index].name)),
    ensures
        exists|k: nat|
            #![trigger is_first_free_suffix(items, items[index].name, k)]
            is_first_free_suffix(items, items[index].name, k) && 2 <= k <= items.len()
                && copy_of(items, index).name == numbered_copy(items[index].name, k),
{
    let name = items[index].name;
    assert(display_name(items[index]) == Some(name));
    lemma_free_suffix_exists(items, name);
    let free = choose|k: nat|
        2 <= k < items.len() + 3 && !name_taken(items, #[trigger] numbered_copy(name, k));
    lemma_least_free_suffix(items, name, free);
    let k = choose|k: nat| is_first_free_suffix(items, name, k);
    lemma_first_free_suffix_bound(items, name, k);
}

} // verus!

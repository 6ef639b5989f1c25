//! The order in which the editors of list rows were last used, oldest
//! first, that decides which cached editor is dropped first.
use vstd::prelude::*;
use std::collections::VecDeque;

verus! {

/// The first position of `x` in `s`.
pub open spec fn position_of(s: Seq<usize>, x: usize) -> Option<int>
    decreases s.len(),
{
    if s.len() == 0 {
        None
    } else if s[0] == x {
        Some(0)
    } else {
        match position_of(s.drop_first(), x) {
            Some(i) => Some(i + 1),
            None => None,
        }
    }
}

/// The order after using `index`: it moves to the back, the others keep
/// their order.
pub open spec fn touched(order: Seq<usize>, index: usize) -> Seq<usize> {
    match position_of(order, index) {
        Some(p) => order.remove(p).push(index),
        None => order.push(index),
    }
}

/// What `position_of` finds: the first occurrence, when there is one.
pub proof fn lemma_position_of(s: Seq<usize>, x: usize)
    ensures
        match position_of(s, x) {
            Some(i) => 0 <= i < s.len() && s[i] == x && forall|j: int| 0 <= j < i ==> s[j] != x,
            None => forall|j: int| 0 <= j < s.len() ==> s[j] != x,
        },
    decreases s.len(),
{
    if s.len() > 0 {
        lemma_position_of(s.drop_first(), x);
        assert forall|j: int| 0 < j < s.len() implies s[j] == s.drop_first()[j - 1] by {}
    }
}

/// Marks `index` as the most recently used: it is taken out of the order
/// where it stands and put at the back.
pub fn touch(order: &mut VecDeque<usize>, index: usize)
    ensures
        final(order)@ == touched(old(order)@, index),
{
    let mut i: usize = 0;
    let n = order.len();
    while i < n
        invariant
            n == order@.len(),
            order@ == old(order)@,
            i <= n,
            forall|j: int| 0 <= j < i ==> order@[j] != index,
        decreases n - i,
    {
        if order[i] == index {
            proof {
                lemma_position_of(order@, index);
                match position_of(order@, index) {
                    Some(k) => {
                        if k < i {
                            assert(order@[k] != index);
                        }
                        if k > i {
                            assert(order@[i as int] == index);
                        }
                    },
                    None => {
                        assert(order@[i as int] == index);
                    },
                }
            }
            order.remove(i);
            order.push_back(index);
            return;
        }
        i = i + 1;
    }
    proof {
        lemma_position_of(order@, index);
        match position_of(order@, index) {
            Some(k) => {
                assert(order@[k] != index);
            },
            None => {},
        }
    }
    order.push_back(index);
}

/// Whether no index occurs twice.
pub open spec fn distinct(s: Seq<usize>) -> bool {
    forall|i: int, j: int| 0 <= i < j < s.len() ==> s[i] != s[j]
}

/// Using an index keeps the order free of repeats, puts the index last and
/// keeps every index that was there.
pub proof fn lemma_touch_keeps_distinct(order: Seq<usize>, index: usize)
    requires
        distinct(order),
    ensures
        distinct(touched(order, index)),
        touched(order, index).last() == index,
        forall|x: usize| order.contains(x) ==> touched(order, index).contains(x),
        forall|x: usize| #[trigger] touched(order, index).contains(x) ==> x == index || order.contains(x),
{
    lemma_position_of(order, index);
    let t = touched(order, index);
    match position_of(order, index) {
        Some(p) => {
            let r = order.remove(p);
            assert forall|i: int| 0 <= i < r.len() implies r[i] != index by {
                if i < p {
                    assert(r[i] == order[i]);
                } else {
                    assert(r[i] == order[i + 1]);
                }
            }
            assert forall|i: int, j: int| 0 <= i < j < t.len() implies t[i] != t[j] by {
                if j < t.len() - 1 {
                    let a = if i < p { i } else { i + 1 };
                    let b = if j < p { j } else { j + 1 };
                    assert(r[i] == order[a]);
                    assert(r[j] == order[b]);
                }
            }
            assert forall|x: usize| order.contains(x) implies t.contains(x) by {
                let k = choose|k: int| 0 <= k < order.len() && order[k] == x;
                if k < p {
                    assert(t[k] == x);
                } else if k > p {
                    assert(t[k - 1] == x);
                } else {
                    assert(t[t.len() - 1] == x);
                }
            }
            assert forall|x: usize| #[trigger] t.contains(x) implies x == index || order.contains(x) by {
                let k = choose|k: int| 0 <= k < t.len() && t[k] == x;
                if k < t.len() - 1 {
                    if k < p {
                        assert(order[k] == x);
                    } else {
                        assert(order[k + 1] == x);
                    }
                }
            }
        },
        None => {
            assert forall|i: int, j: int| 0 <= i < j < t.len() implies t[i] != t[j] by {
                if j == t.len() - 1 {
                    assert(order[i] != index);
                }
            }
            assert forall|x: usize| order.contains(x) implies t.contains(x) by {
                let k = choose|k: int| 0 <= k < order.len() && order[k] == x;
                assert(t[k] == x);
            }
            assert forall|x: usize| #[trigger] t.contains(x) implies x == index || order.contains(x) by {
                let k = choose|k: int| 0 <= k < t.len() && t[k] == x;
                if k < t.len() - 1 {
                    assert(order[k] == x);
                }
            }
        },
    }
}

} // verus!

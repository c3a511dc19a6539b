//! The order of a listing: directories before everything else, then larger
//! before smaller, keeping the order of enumeration among equal keys.
use crate::item::FileItem;
use vstd::prelude::*;

verus! {

/// `a` belongs strictly before `b`.
pub open spec fn precedes(a: FileItem, b: FileItem) -> bool {
    (a.is_dir && !b.is_dir) || (a.is_dir == b.is_dir && a.size > b.size)
}

/// `a` and `b` have the same kind and the same size.
pub open spec fn same_key(a: FileItem, b: FileItem) -> bool {
    a.is_dir == b.is_dir && a.size == b.size
}

/// No item belongs strictly before one that stands ahead of it.
pub open spec fn is_ordered(s: Seq<FileItem>) -> bool {
    forall|k: int, l: int| 0 <= k < l < s.len() ==> !precedes(#[trigger] s[l], #[trigger] s[k])
}

/// `perm` is a rearrangement of the positions of a sequence of length `n`.
pub open spec fn is_permutation(perm: Seq<int>, n: int) -> bool {
    &&& perm.len() == n
    &&& forall|k: int| 0 <= k < n ==> 0 <= #[trigger] perm[k] < n
    &&& forall|k: int, l: int| 0 <= k < l < n ==> #[trigger] perm[k] != #[trigger] perm[l]
}

/// `new` holds the items of `old`, item `k` of `new` being item `perm[k]`
/// of `old`, ordered, with items of equal key in their order in `old`.
pub open spec fn stably_sorted_by(old: Seq<FileItem>, new: Seq<FileItem>, perm: Seq<int>) -> bool {
    &&& new.len() == old.len()
    &&& is_permutation(perm, old.len() as int)
    &&& forall|k: int| 0 <= k < new.len() ==> #[trigger] new[k] == old[perm[k]]
    &&& is_ordered(new)
    &&& forall|k: int, l: int|
        0 <= k < l < new.len() && same_key(#[trigger] new[k], #[trigger] new[l]) ==> perm[k] < perm[l]
}

/// `new` is the stable sort of `old`.
pub open spec fn stable_sort_of(old: Seq<FileItem>, new: Seq<FileItem>) -> bool {
    exists|perm: Seq<int>| stably_sorted_by(old, new, perm)
}

fn goes_before(a: &FileItem, b: &FileItem) -> (r: bool)
    ensures
        r == precedes(*a, *b),
{
    (a.is_dir && !b.is_dir) || (a.is_dir == b.is_dir && a.size > b.size)
}

/// Sorts the items in place: directories first, then by size from largest
/// to smallest; items of equal kind and size keep their order.
pub fn sort_items(items: &mut Vec<FileItem>)
    ensures
        stable_sort_of(old(items)@, final(items)@),
{
    let n = items.len();
    let ghost orig = items@;
    let ghost mut perm: Seq<int> = Seq::new(n as nat, |k: int| k);
    let mut i: usize = 0;
    while i < n
        invariant
            i <= n,
            n == orig.len(),
            items@.len() == n,
            perm.len() == n,
            forall|k: int| 0 <= k < n ==> 0 <= #[trigger] perm[k] < n,
            forall|k: int, l: int| 0 <= k < l < n ==> #[trigger] perm[k] != #[trigger] perm[l],
            forall|k: int| 0 <= k < n ==> #[trigger] items@[k] == orig[perm[k]],
            forall|k: int| i <= k < n ==> #[trigger] perm[k] == k,
            forall|k: int| 0 <= k < i ==> #[trigger] perm[k] < i,
            forall|k: int, l: int|
                0 <= k < l < i ==> !precedes(#[trigger] items@[l], #[trigger] items@[k]),
            forall|k: int, l: int|
                0 <= k < l < i && same_key(#[trigger] items@[k], #[trigger] items@[l]) ==> perm[k]
                    < perm[l],
        decreases n - i,
    {
        let ghost before = items@;
        let x = items.remove(i);
        let mut j: usize = i;
        while j > 0 && goes_before(&x, &items[j - 1])
            invariant
                j <= i,
                i < n,
                before.len() == n,
                items@ == before.remove(i as int),
                x == before[i as int],
                forall|m: int| j <= m < i ==> precedes(x, #[trigger] before[m]),
            decreases j,
        {
            assert(items@[j as int - 1] == before[j as int - 1]);
            j = j - 1;
        }
        items.insert(j, x);
        proof {
            let ghost old_perm = perm;
            perm = old_perm.subrange(0, j as int) + seq![i as int] + old_perm.subrange(
                j as int,
                i as int,
            ) + old_perm.subrange(i as int + 1, n as int);
            assert forall|k: int| 0 <= k < n implies #[trigger] items@[k] == orig[perm[k]] && (k
                < j ==> items@[k] == before[k] && perm[k] == old_perm[k]) && (k == j ==> items@[k]
                == x && perm[k] == i) && (j < k <= i ==> items@[k] == before[k - 1] && perm[k]
                == old_perm[k - 1]) && (i < k ==> items@[k] == before[k] && perm[k] == old_perm[k]) by {
                if k < j {
                } else if k == j {
                } else if k <= i {
                } else {
                }
            }
            assert forall|k: int| 0 <= k < n implies 0 <= #[trigger] perm[k] < n by {
                assert(items@[k] == orig[perm[k]]);
            }
            assert forall|k: int, l: int| 0 <= k < l < n implies #[trigger] perm[k]
                != #[trigger] perm[l] by {
                assert(items@[k] == orig[perm[k]]);
                assert(items@[l] == orig[perm[l]]);
            }
            assert forall|k: int| i + 1 <= k < n implies #[trigger] perm[k] == k by {
                assert(items@[k] == orig[perm[k]]);
            }
            assert forall|k: int| 0 <= k < i + 1 implies #[trigger] perm[k] < i + 1 by {
                assert(items@[k] == orig[perm[k]]);
            }
            assert forall|k: int, l: int| 0 <= k < l < i + 1 implies !precedes(
                #[trigger] items@[l],
                #[trigger] items@[k],
            ) by {
                assert(items@[k] == orig[perm[k]]);
                assert(items@[l] == orig[perm[l]]);
                if l == j && j > 0 {
                    assert(!precedes(x, before[j - 1]));
                    if k < j - 1 {
                        assert(!precedes(before[j - 1], before[k]));
                    }
                }
            }
            assert forall|k: int, l: int|
                0 <= k < l < i + 1 && same_key(
                    #[trigger] items@[k],
                    #[trigger] items@[l],
                ) implies perm[k] < perm[l] by {
                assert(items@[k] == orig[perm[k]]);
                assert(items@[l] == orig[perm[l]]);
            }
        }
        i = i + 1;
    }
    assert(stably_sorted_by(orig, items@, perm));
}

/// In a sorted listing every directory stands before every other entry,
/// and within each kind the sizes never grow from one row to the next.
pub proof fn lemma_directories_first_then_largest(unsorted: Seq<FileItem>, s: Seq<FileItem>)
    requires
        stable_sort_of(unsorted, s),
    ensures
        forall|k: int, l: int|
            0 <= k < s.len() && 0 <= l < s.len() && #[trigger] s[k].is_dir && !#[trigger] s[l].is_dir
                ==> k < l,
        forall|k: int|
            0 <= k && k + 1 < s.len() && #[trigger] s[k].is_dir == s[k + 1].is_dir ==> s[k].size
                >= s[k + 1].size,
{
    assert(is_ordered(s));
    assert forall|k: int, l: int|
        0 <= k < s.len() && 0 <= l < s.len() && #[trigger] s[k].is_dir && !#[trigger] s[l].is_dir
            implies k < l by {
        if l < k {
            assert(!precedes(s[k], s[l]));
        }
    }
    assert forall|k: int| 0 <= k && k + 1 < s.len() && #[trigger] s[k].is_dir == s[k + 1].is_dir
        implies s[k].size >= s[k + 1].size by {
        assert(!precedes(s[k + 1], s[k]));
    }
}

} // verus!

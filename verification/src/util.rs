//! Small helpers shared by the configuration validators.

use vstd::prelude::*;

verus! {

/// Holds when the key at position `j` repeats one that stands earlier.
pub open spec fn duplicate_at(keys: Seq<Seq<char>>, j: int) -> bool {
    exists|i: int| 0 <= i < j && keys[i] == keys[j]
}

/// Holds when position `j` is the earliest position whose key repeats an
/// earlier one.
pub open spec fn first_duplicate_at(keys: Seq<Seq<char>>, j: int) -> bool {
    &&& 0 <= j < keys.len()
    &&& duplicate_at(keys, j)
    &&& forall|p: int| 0 <= p < j ==> !duplicate_at(keys, p)
}

/// Scans `keys` in order and reports the first key that repeats an earlier
/// one; `None` means the keys are pairwise distinct.
pub fn check_duplicates(keys: &Vec<String>) -> (r: Option<String>)
    ensures
        match r {
            None => forall|j: int| 0 <= j < keys.deep_view().len() ==> !duplicate_at(
                keys.deep_view(),
                j,
            ),
            Some(k) => exists|j: int|
                #[trigger] first_duplicate_at(keys.deep_view(), j) && k@ == keys.deep_view()[j],
        },
{
    let ghost dv = keys.deep_view();
    let n = keys.len();
    let mut j: usize = 0;
    while j < n
        invariant
            j <= n,
            n == dv.len(),
            dv == keys.deep_view(),
            n == keys.len(),
            forall|p: int| 0 <= p < j ==> !duplicate_at(dv, p),
        decreases n - j,
    {
        let mut i: usize = 0;
        while i < j
            invariant
                i <= j < n,
                n == dv.len(),
                dv == keys.deep_view(),
                n == keys.len(),
                forall|p: int| 0 <= p < j ==> !duplicate_at(dv, p),
                forall|q: int| 0 <= q < i ==> dv[q] != dv[j as int],
            decreases j - i,
        {
            if keys[i] == keys[j] {
                proof {
                    assert(dv[i as int] == dv[j as int]);
                    assert(duplicate_at(dv, j as int));
                    assert(first_duplicate_at(dv, j as int));
                }
                return Some(keys[j].clone());
            }
            i += 1;
        }
        proof {
            assert(!duplicate_at(dv, j as int));
        }
        j += 1;
    }
    None
}

} // verus!

//! The choice of the process heap that backs allocations.

use vstd::prelude::*;

verus! {

/// The first heap of `heaps` that `callback` accepts.
///
/// `callback` is asked about the heaps in order, up to the first one it
/// accepts; the result is that heap, or `None` when it accepts none.
pub fn find_heap<F: Fn(usize) -> bool>(heaps: &[usize], callback: F) -> (r: Option<usize>)
    requires
        forall|i: int| 0 <= i < heaps@.len() ==> callback.requires((heaps@[i],)),
    ensures
        r matches Some(h) ==> exists|i: int|
            0 <= i < heaps@.len() && heaps@[i] == h && callback.ensures((h,), true) && forall|j: int|
                0 <= j < i ==> callback.ensures((#[trigger] heaps@[j],), false),
        r is None ==> forall|j: int|
            0 <= j < heaps@.len() ==> callback.ensures((#[trigger] heaps@[j],), false),
{
    let mut i: usize = 0;
    while i < heaps.len()
        invariant
            0 <= i <= heaps@.len(),
            forall|k: int| 0 <= k < heaps@.len() ==> callback.requires((heaps@[k],)),
            forall|j: int| 0 <= j < i ==> callback.ensures((#[trigger] heaps@[j],), false),
        decreases heaps@.len() - i,
    {
        let heap = heaps[i];
        if callback(heap) {
            return Some(heap);
        }
        i = i + 1;
    }
    None
}

/// The first non-zero handle of `heaps`, or 0 when there is none.
pub open spec fn spec_first_nonzero(heaps: Seq<usize>) -> usize
    decreases heaps.len(),
{
    if heaps.len() == 0 {
        0
    } else if heaps[0] != 0 {
        heaps[0]
    } else {
        spec_first_nonzero(heaps.drop_first())
    }
}

/// The heap that backs allocations: the one chosen before, or else the
/// first non-zero handle that enumerating the process's heaps reports.
pub open spec fn spec_select_heap(current: usize, enumerated: Seq<usize>) -> usize {
    if current != 0 {
        current
    } else {
        spec_first_nonzero(enumerated)
    }
}

/// The heap that backs allocations, given the heap chosen so far (`current`,
/// 0 while none is) and the handles that enumerating the process's heaps
/// reports, in order. A heap once chosen is kept; else the first non-zero
/// handle is taken, and 0 remains when there is none.
pub fn select_heap(current: usize, enumerated: &[usize]) -> (r: usize)
    ensures
        r == spec_select_heap(current, enumerated@),
        current != 0 ==> r == current,
        current == 0 && r == 0 ==> forall|j: int|
            0 <= j < enumerated@.len() ==> #[trigger] enumerated@[j] == 0,
        current == 0 && r != 0 ==> exists|i: int|
            0 <= i < enumerated@.len() && enumerated@[i] == r && forall|j: int|
                0 <= j < i ==> #[trigger] enumerated@[j] == 0,
{
    proof {
        lemma_first_nonzero(enumerated@);
    }
    if current != 0 {
        return current;
    }
    let mut i: usize = 0;
    assert(enumerated@.skip(0) =~= enumerated@);
    while i < enumerated.len()
        invariant
            0 <= i <= enumerated@.len(),
            current == 0,
            spec_first_nonzero(enumerated@) == spec_first_nonzero(enumerated@.skip(i as int)),
        decreases enumerated@.len() - i,
    {
        let heap = enumerated[i];
        if heap != 0 {
            assert(enumerated@.skip(i as int)[0] == heap);
            proof {
                lemma_first_nonzero(enumerated@);
            }
            return heap;
        }
        assert(enumerated@.skip(i as int).drop_first() =~= enumerated@.skip(i + 1));
        i = i + 1;
    }
    proof {
        lemma_first_nonzero(enumerated@);
    }
    0
}

/// The first non-zero handle is an enumerated handle that only zero handles
/// precede; it is 0 exactly when every handle is 0.
pub proof fn lemma_first_nonzero(heaps: Seq<usize>)
    ensures
        spec_first_nonzero(heaps) == 0 ==> forall|j: int|
            0 <= j < heaps.len() ==> #[trigger] heaps[j] == 0,
        spec_first_nonzero(heaps) != 0 ==> exists|i: int|
            0 <= i < heaps.len() && heaps[i] == spec_first_nonzero(heaps) && forall|j: int|
                0 <= j < i ==> #[trigger] heaps[j] == 0,
    decreases heaps.len(),
{
    if heaps.len() > 0 {
        let rest = heaps.drop_first();
        lemma_first_nonzero(rest);
        if heaps[0] != 0 {
            assert(heaps[0] == spec_first_nonzero(heaps));
        } else if spec_first_nonzero(rest) != 0 {
            let i = choose|i: int|
                0 <= i < rest.len() && rest[i] == spec_first_nonzero(rest) && forall|j: int|
                    0 <= j < i ==> #[trigger] rest[j] == 0;
            assert(heaps[i + 1] == spec_first_nonzero(heaps));
            assert forall|j: int| 0 <= j < i + 1 implies #[trigger] heaps[j] == 0 by {
                if j > 0 {
                    assert(heaps[j] == rest[j - 1]);
                }
            }
        } else {
            assert forall|j: int| 0 <= j < heaps.len() implies #[trigger] heaps[j] == 0 by {
                if j > 0 {
                    assert(heaps[j] == rest[j - 1]);
                }
            }
        }
    }
}

/// A heap, once chosen, is the heap of every later allocation, whatever the
/// enumeration reports then; and a heap is chosen exactly when some handle
/// is non-zero, in which case it is one of the enumerated handles.
pub proof fn lemma_heap_choice(current: usize, enumerated: Seq<usize>, later: Seq<usize>)
    ensures
        spec_select_heap(current, enumerated) != 0 ==> spec_select_heap(
            spec_select_heap(current, enumerated),
            later,
        ) == spec_select_heap(current, enumerated),
        current == 0 ==> (spec_select_heap(current, enumerated) != 0 <==> exists|i: int|
            0 <= i < enumerated.len() && #[trigger] enumerated[i] != 0),
        current == 0 && spec_select_heap(current, enumerated) != 0 ==> enumerated.contains(
            spec_select_heap(current, enumerated),
        ),
    decreases enumerated.len(),
{
    if current == 0 && enumerated.len() > 0 && enumerated[0] == 0 {
        let rest = enumerated.drop_first();
        lemma_heap_choice(current, rest, later);
        if spec_first_nonzero(rest) != 0 {
            let i = choose|i: int| 0 <= i < rest.len() && #[trigger] rest[i] != 0;
            assert(enumerated[i + 1] != 0);
            let j = choose|j: int| 0 <= j < rest.len() && rest[j] == spec_first_nonzero(rest);
            assert(enumerated[j + 1] == spec_first_nonzero(rest));
        }
        if exists|i: int| 0 <= i < enumerated.len() && #[trigger] enumerated[i] != 0 {
            let i = choose|i: int| 0 <= i < enumerated.len() && #[trigger] enumerated[i] != 0;
            assert(rest[i - 1] != 0);
        }
    } else if current == 0 && enumerated.len() > 0 {
        assert(enumerated[0] != 0);
        assert(enumerated.contains(enumerated[0]));
    }
}

} // verus!

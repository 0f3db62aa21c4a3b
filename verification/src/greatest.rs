//! The greatest of several numbers, and the first of equal ones.

use vstd::prelude::*;

use crate::ieee::Single;

verus! {

/// `v` is a number above zero.
pub open spec fn counts(v: Single) -> bool {
    !v.nan() && v.value() > 0
}

/// Item `i` is the greatest of those among the first `n` that count, and the
/// first of equal ones. An item counts where `size` gives a number above zero
/// for it.
pub open spec fn leads<A>(s: Seq<A>, size: spec_fn(A) -> Option<Single>, i: int, n: int) -> bool {
    &&& 0 <= i < n
    &&& size(s[i]) matches Some(v) && counts(v)
    &&& forall|j: int|
        0 <= j < n ==> (size(#[trigger] s[j]) matches Some(w) ==> counts(w) ==> {
            &&& w.value() <= size(s[i]).unwrap().value()
            &&& j < i ==> w.value() < size(s[i]).unwrap().value()
        })
}

/// Item `i` is the greatest of those that count, and the first of equal ones.
pub open spec fn is_greatest<A>(s: Seq<A>, size: spec_fn(A) -> Option<Single>, i: int) -> bool {
    leads(s, size, i, s.len() as int)
}

/// No item counts.
pub open spec fn none_counts<A>(s: Seq<A>, size: spec_fn(A) -> Option<Single>) -> bool {
    forall|j: int| 0 <= j < s.len() ==> (size(#[trigger] s[j]) matches Some(w) ==> !counts(w))
}

/// The greatest item that counts.
pub open spec fn greatest<A>(s: Seq<A>, size: spec_fn(A) -> Option<Single>) -> Option<int> {
    if none_counts(s, size) {
        None
    } else {
        Some(choose|i: int| is_greatest(s, size, i))
    }
}

/// There is only one greatest item.
pub proof fn lemma_greatest_is<A>(s: Seq<A>, size: spec_fn(A) -> Option<Single>, i: int)
    requires
        is_greatest(s, size, i),
    ensures
        greatest(s, size) == Some(i),
{
    assert(!none_counts(s, size)) by {
        assert(size(s[i]) is Some);
    }
    let k = choose|k: int| is_greatest(s, size, k);
    assert(is_greatest(s, size, k));
    assert(size(s[k]) is Some && size(s[i]) is Some);
}

proof fn lemma_some_greatest<A>(s: Seq<A>, size: spec_fn(A) -> Option<Single>) -> (i: int)
    requires
        !none_counts(s, size),
    ensures
        is_greatest(s, size, i),
    decreases s.len(),
{
    let n = s.len() - 1;
    let rest = s.drop_last();
    assert(forall|j: int| 0 <= j < n ==> rest[j] == s[j]);
    if none_counts(rest, size) {
        assert forall|j: int| 0 <= j < n implies (size(#[trigger] s[j]) matches Some(w)
            ==> !counts(w)) by {
            assert(size(rest[j]) == size(s[j]));
        }
        n
    } else {
        let k = lemma_some_greatest(rest, size);
        let last = size(s[n]);
        assert forall|j: int| 0 <= j < n implies (size(#[trigger] s[j]) matches Some(w)
            ==> counts(w) ==> w.value() <= size(s[k]).unwrap().value() && (j < k ==> w.value()
            < size(s[k]).unwrap().value())) by {
            assert(size(rest[j]) == size(s[j]));
        }
        if last is Some && counts(last.unwrap()) && last.unwrap().value() > size(
            s[k],
        ).unwrap().value() {
            n
        } else {
            k
        }
    }
}

/// `greatest` names the greatest item that counts, and there is one unless no
/// item counts.
pub proof fn lemma_greatest<A>(s: Seq<A>, size: spec_fn(A) -> Option<Single>)
    ensures
        match greatest(s, size) {
            Some(i) => is_greatest(s, size, i),
            None => none_counts(s, size),
        },
{
    if !none_counts(s, size) {
        let i = lemma_some_greatest(s, size);
        lemma_greatest_is(s, size, i);
    }
}

} // verus!

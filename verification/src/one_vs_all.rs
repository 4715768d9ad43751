//! Bookkeeping of one-vs-all classifiers: the classes found in a label
//! vector, and for each class which samples are its positive examples.

use vstd::prelude::*;

verus! {

/// Whether `s` is strictly increasing.
pub open spec fn strictly_increasing(s: Seq<usize>) -> bool {
    forall|i: int, j: int| 0 <= i < j < s.len() ==> s[i] < s[j]
}

/// Which samples belong to class `class`: entry `i` holds whether `y[i]`
/// is `class`.
pub open spec fn membership(y: Seq<usize>, class: usize) -> Seq<bool> {
    y.map_values(|v: usize| v == class)
}

/// The positive examples of the binary classifier of class `class`: entry
/// `i` is true exactly when sample `i` is labelled `class`.
pub fn class_membership(y: &[usize], class: usize) -> (positive: Vec<bool>)
    ensures
        positive@ == membership(y@, class),
        positive@.len() == y@.len(),
        forall|i: int| 0 <= i < y@.len() ==> #[trigger] positive@[i] == (y@[i] == class),
{
    let mut positive: Vec<bool> = Vec::new();
    let mut i: usize = 0;
    while i < y.len()
        invariant
            i <= y@.len(),
            positive@.len() == i,
            forall|j: int| 0 <= j < i ==> #[trigger] positive@[j] == (y@[j] == class),
        decreases y@.len() - i,
    {
        positive.push(y[i] == class);
        i = i + 1;
    }
    assert(positive@ =~= membership(y@, class));
    positive
}

/// The distinct labels of `y`, in increasing order (one classifier is
/// trained for each).
pub fn unique_labels(y: &[usize]) -> (labels: Vec<usize>)
    ensures
        strictly_increasing(labels@),
        forall|v: usize| labels@.contains(v) <==> y@.contains(v),
{
    let mut labels: Vec<usize> = Vec::new();
    let mut i: usize = 0;
    while i < y.len()
        invariant
            i <= y@.len(),
            strictly_increasing(labels@),
            forall|v: usize| labels@.contains(v) <==> y@.subrange(0, i as int).contains(v),
        decreases y@.len() - i,
    {
        let x = y[i];
        let mut pos: usize = 0;
        while pos < labels.len() && labels[pos] < x
            invariant
                pos <= labels@.len(),
                strictly_increasing(labels@),
                forall|j: int| 0 <= j < pos ==> labels@[j] < x,
            decreases labels@.len() - pos,
        {
            pos = pos + 1;
        }
        let ghost before = labels@;
        if pos < labels.len() && labels[pos] == x {
            assert(labels@[pos as int] == x);
            assert forall|v: usize| labels@.contains(v) <==> (before.contains(v) || v == x) by {
                if v == x {
                    assert(labels@[pos as int] == x);
                }
            }
        } else {
            labels.insert(pos, x);
            assert forall|a: int, b: int| 0 <= a < b < labels@.len() implies labels@[a] < labels@[b] by {
                if b < pos {
                } else if b == pos {
                } else if a < pos {
                    assert(labels@[b] == before[b - 1]);
                } else if a == pos {
                    assert(labels@[b] == before[b - 1]);
                    assert(x <= before[pos as int]);
                } else {
                    assert(labels@[a] == before[a - 1]);
                    assert(labels@[b] == before[b - 1]);
                }
            }
            assert forall|v: usize| labels@.contains(v) <==> (before.contains(v) || v == x) by {
                if labels@.contains(v) {
                    let k = choose|k: int| 0 <= k < labels@.len() && #[trigger] labels@[k] == v;
                    if k < pos {
                        assert(before[k] == v);
                    } else if k > pos {
                        assert(before[k - 1] == v);
                    }
                }
                if before.contains(v) {
                    let k = choose|k: int| 0 <= k < before.len() && #[trigger] before[k] == v;
                    if k < pos {
                        assert(labels@[k] == v);
                    } else {
                        assert(labels@[k + 1] == v);
                    }
                }
                if v == x {
                    assert(labels@[pos as int] == x);
                }
            }
        }
        assert forall|v: usize| y@.subrange(0, i + 1).contains(v) <==> (y@.subrange(0, i as int).contains(v) || v == x) by {
            if y@.subrange(0, i + 1).contains(v) {
                let k = choose|k: int| 0 <= k < i + 1 && #[trigger] y@.subrange(0, i + 1)[k] == v;
                if k < i {
                    assert(y@.subrange(0, i as int)[k] == v);
                }
            }
            if y@.subrange(0, i as int).contains(v) {
                let k = choose|k: int| 0 <= k < i && #[trigger] y@.subrange(0, i as int)[k] == v;
                assert(y@.subrange(0, i + 1)[k] == v);
            }
            if v == x {
                assert(y@.subrange(0, i + 1)[i as int] == x);
            }
        }
        assert forall|v: usize| labels@.contains(v) <==> y@.subrange(0, i + 1).contains(v) by {
            assert(labels@.contains(v) <==> (before.contains(v) || v == x));
            assert(before.contains(v) <==> y@.subrange(0, i as int).contains(v));
        }
        i = i + 1;
    }
    assert(y@.subrange(0, y@.len() as int) =~= y@);
    labels
}

/// With one classifier per distinct label, every sample is a positive
/// example of exactly one classifier.
pub proof fn lemma_each_sample_in_one_class(y: Seq<usize>, labels: Seq<usize>, i: int)
    requires
        strictly_increasing(labels),
        forall|v: usize| labels.contains(v) <==> y.contains(v),
        0 <= i < y.len(),
    ensures
        exists|k: int| 0 <= k < labels.len() && #[trigger] membership(y, labels[k])[i],
        forall|k1: int, k2: int|
            0 <= k1 < labels.len() && 0 <= k2 < labels.len() && #[trigger] membership(y, labels[k1])[i]
                && #[trigger] membership(y, labels[k2])[i] ==> k1 == k2,
{
    assert(y.contains(y[i]));
    let k = choose|k: int| 0 <= k < labels.len() && #[trigger] labels[k] == y[i];
    assert(membership(y, labels[k])[i]);
    assert forall|k1: int, k2: int|
        0 <= k1 < labels.len() && 0 <= k2 < labels.len() && #[trigger] membership(y, labels[k1])[i]
            && #[trigger] membership(y, labels[k2])[i] implies k1 == k2 by {
        if k1 < k2 {
            assert(labels[k1] < labels[k2]);
        } else if k2 < k1 {
            assert(labels[k2] < labels[k1]);
        }
    }
}

/// One-vs-all classifier over `n_classes` binary models of type `M`, each
/// trained separately; a model that could not be fitted stays `None`.
pub struct OneVsAllPseudoInverse<M> {
    pub models: Vec<Option<M>>,
    pub n_classes: usize,
}

impl<M> OneVsAllPseudoInverse<M> {
    /// A classifier of `n_classes` classes with no model fitted yet.
    pub fn new(n_classes: usize) -> (ova: Self)
        ensures
            ova.n_classes == n_classes,
            ova.models@.len() == n_classes,
            forall|k: int| 0 <= k < n_classes ==> #[trigger] ova.models@[k] is None,
    {
        let mut models: Vec<Option<M>> = Vec::new();
        let mut k: usize = 0;
        while k < n_classes
            invariant
                k <= n_classes,
                models@.len() == k,
                forall|j: int| 0 <= j < k ==> #[trigger] models@[j] is None,
            decreases n_classes - k,
        {
            models.push(None);
            k = k + 1;
        }
        OneVsAllPseudoInverse { models, n_classes }
    }
}

} // verus!

//! Facts about sequences that the list operations of this crate rest on.

use vstd::prelude::*;

verus! {

broadcast use vstd::seq_lib::group_seq_properties;

/// Swapping two entries keeps the multiset of a sequence.
pub proof fn lemma_swap_keeps_multiset<T>(s: Seq<T>, i: int, j: int)
    requires
        0 <= i < s.len(),
        0 <= j < s.len(),
    ensures
        s.update(i, s[j]).update(j, s[i]).to_multiset() =~= s.to_multiset(),
{
    broadcast use vstd::multiset::group_multiset_axioms;
    if i == j {
        assert(s.update(i, s[j]).update(j, s[i]) =~= s);
    } else {
        let t1 = s.update(i, s[j]);
        vstd::seq_lib::to_multiset_update(s, i, s[j]);
        vstd::seq_lib::to_multiset_update(t1, j, s[i]);
        assert(t1[j] == s[j]);
    }
}

/// Keeping the entries of a prefix one longer filters one more entry.
pub proof fn lemma_filter_take_step<T>(s: Seq<T>, i: int, pred: spec_fn(T) -> bool)
    requires
        0 <= i < s.len(),
    ensures
        s.take(i + 1).filter(pred) == if pred(s[i]) {
            s.take(i).filter(pred).push(s[i])
        } else {
            s.take(i).filter(pred)
        },
{
    reveal_with_fuel(Seq::<_>::filter, 1);
    assert(s.take(i + 1).drop_last() =~= s.take(i));
}


/// An element is kept by a filter exactly when it occurs and passes it.
pub proof fn lemma_filter_contains_iff<T>(s: Seq<T>, p: spec_fn(T) -> bool, x: T)
    ensures
        s.filter(p).contains(x) <==> s.contains(x) && p(x),
{
    if s.filter(p).contains(x) {
        s.lemma_filter_contains_rev(p, x);
        let k = choose|k: int| 0 <= k < s.filter(p).len() && s.filter(p)[k] == x;
        s.lemma_filter_pred(p, k);
    }
    if s.contains(x) && p(x) {
        let k = choose|k: int| 0 <= k < s.len() && s[k] == x;
        s.lemma_filter_contains(p, k);
    }
}

/// Filtering a sequence without repeats gives one without repeats.
pub proof fn lemma_filter_no_duplicates<T>(s: Seq<T>, p: spec_fn(T) -> bool)
    requires
        s.no_duplicates(),
    ensures
        s.filter(p).no_duplicates(),
    decreases s.len(),
{
    reveal_with_fuel(Seq::<_>::filter, 1);
    if s.len() > 0 {
        let rest = s.drop_last();
        assert(rest.no_duplicates());
        lemma_filter_no_duplicates(rest, p);
        if p(s.last()) {
            lemma_filter_contains_iff(rest, p, s.last());
            assert(!rest.contains(s.last()));
            let f = rest.filter(p);
            assert forall|a: int, b: int| 0 <= a < b < f.push(s.last()).len() implies f.push(s.last())[a]
                != f.push(s.last())[b] by {
                if b == f.len() {
                    assert(f.contains(f[a]));
                }
            }
        }
    }
}

/// Two sequences without repeats and without common elements make one
/// without repeats.
pub proof fn lemma_concat_no_duplicates<T>(a: Seq<T>, b: Seq<T>)
    requires
        a.no_duplicates(),
        b.no_duplicates(),
        forall|x: T| a.contains(x) ==> !b.contains(x),
    ensures
        (a + b).no_duplicates(),
{
    let c = a + b;
    assert forall|i: int, j: int| 0 <= i < j < c.len() implies c[i] != c[j] by {
        if i < a.len() && j >= a.len() {
            assert(a.contains(c[i]));
            assert(b.contains(b[j - a.len()]));
        }
        if i >= a.len() {
            assert(b[i - a.len()] != b[j - a.len()]);
        }
    }
}

} // verus!

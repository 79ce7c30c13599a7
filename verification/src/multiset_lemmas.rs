//! Facts about sequences that hold the same items in another order.

use vstd::multiset::Multiset;
use vstd::prelude::*;
use vstd::seq_lib::{to_multiset_build, to_multiset_contains, to_multiset_len, to_multiset_remove};

verus! {

/// Taking the last item off a sequence takes one copy of it out of the
/// multiset.
pub proof fn lemma_drop_last_to_multiset<A>(s: Seq<A>)
    requires
        s.len() > 0,
    ensures
        s.drop_last().to_multiset() == s.to_multiset().remove(s.last()),
        s.to_multiset() == s.drop_last().to_multiset().insert(s.last()),
{
    let front = s.drop_last();
    assert(s == front.push(s.last()));
    to_multiset_build(front, s.last());
    assert(front.to_multiset() =~= front.to_multiset().insert(s.last()).remove(s.last()));
}

/// Sequences that hold the same items still do so after one function has
/// been applied to every item of both.
pub proof fn lemma_map_keeps_multiset<A, B>(a: Seq<A>, b: Seq<A>, f: spec_fn(A) -> B)
    requires
        a.to_multiset() == b.to_multiset(),
    ensures
        a.map_values(f).to_multiset() == b.map_values(f).to_multiset(),
    decreases a.len(),
{
    to_multiset_len(a);
    to_multiset_len(b);
    if a.len() == 0 {
        assert(a.map_values(f) =~= b.map_values(f));
    } else {
        let x = a.last();
        lemma_drop_last_to_multiset(a);
        to_multiset_contains(a, x);
        to_multiset_contains(b, x);
        assert(a.contains(x)) by {
            assert(a[a.len() - 1] == x);
        }
        let j = choose|j: int| 0 <= j < b.len() && b[j] == x;
        let a1 = a.drop_last();
        let b1 = b.remove(j);
        to_multiset_remove(b, j);
        lemma_map_keeps_multiset(a1, b1, f);
        let fa = a.map_values(f);
        let fb = b.map_values(f);
        assert(fa.drop_last() =~= a1.map_values(f));
        assert(fb.remove(j) =~= b1.map_values(f));
        lemma_drop_last_to_multiset(fa);
        to_multiset_remove(fb, j);
        to_multiset_contains(fb, f(x));
        assert(fb.contains(f(x))) by {
            assert(fb[j] == f(x));
        }
        assert(fb.to_multiset() =~= fb.to_multiset().remove(f(x)).insert(f(x)));
    }
}

} // verus!

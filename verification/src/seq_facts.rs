//! Facts about sequences: what they contain, and what a filter keeps.

use vstd::prelude::*;

verus! {

/// What a sequence contains is what its front contains, and its last item.
pub proof fn lemma_contains_last<A>(s: Seq<A>, x: A)
    requires
        s.len() > 0,
    ensures
        s.contains(x) <==> s.drop_last().contains(x) || x == s.last(),
{
    let front = s.drop_last();
    if s.contains(x) {
        let i = choose|i: int| 0 <= i < s.len() && s[i] == x;
        if i < s.len() - 1 {
            assert(front[i] == x);
        }
    }
    if front.contains(x) {
        let i = choose|i: int| 0 <= i < front.len() && front[i] == x;
        assert(s[i] == x);
    }
    if x == s.last() {
        assert(s[s.len() - 1] == x);
    }
}

/// Filtering a sequence with one more item at its end.
pub proof fn lemma_filter_push<A>(s: Seq<A>, last: A, keep: spec_fn(A) -> bool)
    ensures
        s.push(last).filter(keep) == if keep(last) {
            s.filter(keep).push(last)
        } else {
            s.filter(keep)
        },
{
    reveal(Seq::filter);
    assert(s.push(last).drop_last() =~= s);
}

/// What is kept of a sequence is what it contains and the test accepts, and
/// holds nothing twice where the sequence holds nothing twice.
pub proof fn lemma_filter_members<A>(s: Seq<A>, keep: spec_fn(A) -> bool)
    ensures
        forall|x: A| s.filter(keep).contains(x) <==> s.contains(x) && keep(x),
        s.no_duplicates() ==> s.filter(keep).no_duplicates(),
    decreases s.len(),
{
    if s.len() == 0 {
        reveal(Seq::filter);
        assert(s.filter(keep) =~= Seq::<A>::empty());
    } else {
        let front = s.drop_last();
        let last = s.last();
        let kept = front.filter(keep);
        let out = s.filter(keep);
        lemma_filter_members(front, keep);
        assert(s =~= front.push(last));
        lemma_filter_push(front, last, keep);
        assert(out == if keep(last) {
            kept.push(last)
        } else {
            kept
        });
        assert forall|x: A| out.contains(x) implies s.contains(x) && keep(x) by {
            let i = choose|i: int| 0 <= i < out.len() && out[i] == x;
            if keep(last) && i == kept.len() {
                assert(s[s.len() - 1] == x);
            } else {
                assert(kept[i] == x);
                assert(kept.contains(x));
                assert(front.contains(x));
                let j = choose|j: int| 0 <= j < front.len() && front[j] == x;
                assert(s[j] == x);
            }
        }
        assert forall|x: A| s.contains(x) && keep(x) implies out.contains(x) by {
            let j = choose|j: int| 0 <= j < s.len() && s[j] == x;
            if j == s.len() - 1 {
                assert(out[kept.len() as int] == x);
            } else {
                assert(front[j] == x);
                assert(front.contains(x));
                assert(kept.contains(x));
                let i = choose|i: int| 0 <= i < kept.len() && kept[i] == x;
                assert(out[i] == x);
            }
        }
        if s.no_duplicates() {
            assert(front.no_duplicates());
            if keep(last) {
                if front.contains(last) {
                    let j = choose|j: int| 0 <= j < front.len() && front[j] == last;
                    assert(s[j] == s[s.len() - 1]);
                }
                assert(!kept.contains(last));
                assert forall|i: int, j: int|
                    0 <= i < out.len() && 0 <= j < out.len() && i != j implies out[i]
                    != out[j] by {
                    if i < kept.len() && j < kept.len() {
                    } else if i < kept.len() {
                        assert(kept.contains(kept[i]));
                    } else {
                        assert(kept.contains(kept[j]));
                    }
                }
            }
        }
    }
}

} // verus!

//! Facts about selecting from a sequence.

use vstd::prelude::*;

verus! {

/// Adding one entry at the end of a sequence adds it to the selection where
/// it passes the test, and leaves the selection as it was where it does not.
pub proof fn lemma_filter_push<A>(s: Seq<A>, x: A, pred: spec_fn(A) -> bool)
    ensures
        s.push(x).filter(pred) == if pred(x) {
            s.filter(pred).push(x)
        } else {
            s.filter(pred)
        },
{
    reveal(Seq::filter);
    assert(s.push(x).drop_last() =~= s);
}

/// A selection holds entries of the sequence that pass the test, and
/// nothing else.
pub proof fn lemma_filter_members<A>(s: Seq<A>, pred: spec_fn(A) -> bool)
    ensures
        forall|i: int|
            0 <= i < s.filter(pred).len() ==> s.contains(#[trigger] s.filter(pred)[i]) && pred(
                s.filter(pred)[i],
            ),
        forall|k: int| 0 <= k < s.len() && pred(#[trigger] s[k]) ==> s.filter(pred).contains(s[k]),
    decreases s.len(),
{
    reveal(Seq::filter);
    let chosen = s.filter(pred);
    if s.len() > 0 {
        let front = s.drop_last();
        let inner = front.filter(pred);
        lemma_filter_members(front, pred);
        assert forall|i: int| 0 <= i < chosen.len() implies s.contains(#[trigger] chosen[i])
            && pred(chosen[i]) by {
            if i < inner.len() {
                assert(chosen[i] == inner[i]);
                assert(front.contains(inner[i]));
                let k = choose|k: int| 0 <= k < front.len() && front[k] == inner[i];
                assert(s[k] == inner[i]);
            } else {
                assert(chosen[i] == s.last());
                assert(s[s.len() - 1] == s.last());
            }
        }
        assert forall|k: int| 0 <= k < s.len() && pred(#[trigger] s[k]) implies chosen.contains(
            s[k],
        ) by {
            if k < s.len() - 1 {
                assert(front[k] == s[k]);
                assert(inner.contains(front[k]));
                let i = choose|i: int| 0 <= i < inner.len() && inner[i] == front[k];
                assert(chosen[i] == s[k]);
            } else {
                assert(chosen[chosen.len() - 1] == s[k]);
            }
        }
    }
}

/// Nothing is selected from a sequence of which no entry passes the test.
pub proof fn lemma_filter_none<A>(s: Seq<A>, pred: spec_fn(A) -> bool)
    requires
        forall|k: int| 0 <= k < s.len() ==> !pred(#[trigger] s[k]),
    ensures
        s.filter(pred) == Seq::<A>::empty(),
{
    lemma_filter_members(s, pred);
    let chosen = s.filter(pred);
    if chosen.len() > 0 {
        assert(s.contains(chosen[0]));
        let k = choose|k: int| 0 <= k < s.len() && s[k] == chosen[0];
        assert(!pred(s[k]));
    }
    assert(chosen =~= Seq::<A>::empty());
}

/// Putting one entry into a sequence makes the selection longer by one
/// where the entry passes the test, and leaves its length where it does
/// not.
pub proof fn lemma_filter_insert_len<A>(s: Seq<A>, place: int, x: A, pred: spec_fn(A) -> bool)
    requires
        0 <= place <= s.len(),
    ensures
        s.insert(place, x).filter(pred).len() == s.filter(pred).len() + if pred(x) {
            1int
        } else {
            0int
        },
    decreases s.len(),
{
    reveal(Seq::filter);
    if place == s.len() {
        assert(s.insert(place, x) =~= s.push(x));
        lemma_filter_push(s, x, pred);
    } else {
        let front = s.drop_last();
        assert(s.insert(place, x).drop_last() =~= front.insert(place, x));
        assert(s.insert(place, x).last() == s.last());
        lemma_filter_insert_len(front, place, x, pred);
    }
}

} // verus!

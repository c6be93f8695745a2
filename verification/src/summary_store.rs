//! The store of summaries: at most one place for each identifier, the
//! newest summary first.

use vstd::prelude::*;
use crate::seqs::lemma_filter_push;
use crate::errors::CoreError;
use crate::summary::{Summary, SummaryView};
use crate::text::{lemma_lex_le_total, lemma_lex_le_transitive, lex_le, lex_lt, text_eq, text_le};

verus! {

/// The views of summaries, in their order.
pub open spec fn views_of(summaries: Seq<Summary>) -> Seq<SummaryView> {
    summaries.map_values(|summary: Summary| summary@)
}

/// The summary is one of the type `kind` for the period that starts on
/// `start`.
pub open spec fn in_slot(summary: SummaryView, kind: Seq<char>, start: Seq<char>) -> bool {
    summary.summary_type == kind && summary.start_date == start
}

/// Some summary of the type `kind` covers the period that starts on
/// `start`.
pub open spec fn period_taken(entries: Seq<SummaryView>, kind: Seq<char>, start: Seq<char>) -> bool {
    exists|i: int| 0 <= i < entries.len() && in_slot(#[trigger] entries[i], kind, start)
}

/// The summaries of the type `kind` for the period that starts on `start`.
pub open spec fn slot_entries(
    entries: Seq<SummaryView>,
    kind: Seq<char>,
    start: Seq<char>,
) -> Seq<SummaryView> {
    entries.filter(|summary: SummaryView| in_slot(summary, kind, start))
}

/// Each summary was created no earlier than those behind it.
pub open spec fn newest_first(entries: Seq<SummaryView>) -> bool {
    forall|i: int, j: int|
        0 <= i < j < entries.len() ==> lex_le(
            (#[trigger] entries[j]).created_at,
            (#[trigger] entries[i]).created_at,
        )
}

/// No two summaries share an identifier.
pub open spec fn distinct_ids(entries: Seq<SummaryView>) -> bool {
    forall|i: int, j: int|
        0 <= i < j < entries.len() ==> (#[trigger] entries[i]).id != (#[trigger] entries[j]).id
}

/// Every summary carries an identifier below `bound`.
pub open spec fn ids_below(entries: Seq<SummaryView>, bound: int) -> bool {
    forall|i: int| 0 <= i < entries.len() ==> (#[trigger] entries[i]).id < bound
}

/// The place at which a summary created at `created_at` joins `entries`:
/// behind every summary created later, before every other.
pub open spec fn place_of(entries: Seq<SummaryView>, created_at: Seq<char>) -> int
    decreases entries.len(),
{
    if entries.len() == 0 {
        0
    } else if lex_lt(created_at, entries.last().created_at) {
        entries.len() as int
    } else {
        place_of(entries.drop_last(), created_at)
    }
}

/// The entries with `summary` added at its place.
pub open spec fn with_summary(entries: Seq<SummaryView>, summary: SummaryView) -> Seq<
    SummaryView,
> {
    entries.insert(place_of(entries, summary.created_at), summary)
}

/// The entries without those that carry the identifier `id`.
pub open spec fn without_id(entries: Seq<SummaryView>, id: int) -> Seq<SummaryView> {
    entries.filter(|summary: SummaryView| summary.id != id)
}

/// The first entry that carries the identifier `id`, if there is one.
pub open spec fn first_with_id(entries: Seq<SummaryView>, id: int) -> Option<SummaryView>
    decreases entries.len(),
{
    if entries.len() == 0 {
        None
    } else if entries[0].id == id {
        Some(entries[0])
    } else {
        first_with_id(entries.drop_first(), id)
    }
}

/// `summary` with the identifier `id` in place of its own.
pub open spec fn with_id(summary: SummaryView, id: int) -> SummaryView {
    SummaryView { id, ..summary }
}

/// The summaries that were generated and not deleted since.
pub struct SummaryStore {
    pub summaries: Vec<Summary>,
    pub next_id: i32,
}

impl View for SummaryStore {
    type V = Seq<SummaryView>;

    open spec fn view(&self) -> Seq<SummaryView> {
        views_of(self.summaries@)
    }
}

/// Where `place_of` puts a summary: everything before the place was created
/// later, everything from the place on was created no later.
pub proof fn lemma_place_of(entries: Seq<SummaryView>, created_at: Seq<char>)
    requires
        newest_first(entries),
    ensures
        0 <= place_of(entries, created_at) <= entries.len(),
        forall|i: int|
            0 <= i < place_of(entries, created_at) ==> lex_lt(
                created_at,
                (#[trigger] entries[i]).created_at,
            ),
        forall|i: int|
            place_of(entries, created_at) <= i < entries.len() ==> lex_le(
                (#[trigger] entries[i]).created_at,
                created_at,
            ),
    decreases entries.len(),
{
    if entries.len() > 0 {
        let last = entries.last();
        if lex_lt(created_at, last.created_at) {
            assert forall|i: int| 0 <= i < entries.len() implies lex_lt(
                created_at,
                (#[trigger] entries[i]).created_at,
            ) by {
                if i < entries.len() - 1 {
                    assert(entries[entries.len() - 1] == last);
                    if lex_le(entries[i].created_at, created_at) {
                        lemma_lex_le_transitive(
                            last.created_at,
                            entries[i].created_at,
                            created_at,
                        );
                    }
                }
            }
        } else {
            let front = entries.drop_last();
            assert forall|i: int, j: int| 0 <= i < j < front.len() implies lex_le(
                (#[trigger] front[j]).created_at,
                (#[trigger] front[i]).created_at,
            ) by {
                assert(front[i] == entries[i]);
                assert(front[j] == entries[j]);
            }
            lemma_place_of(front, created_at);
            let p = place_of(front, created_at);
            assert forall|i: int| 0 <= i < p implies lex_lt(
                created_at,
                (#[trigger] entries[i]).created_at,
            ) by {
                assert(front[i] == entries[i]);
            }
            assert forall|i: int| p <= i < entries.len() implies lex_le(
                (#[trigger] entries[i]).created_at,
                created_at,
            ) by {
                if i < entries.len() - 1 {
                    assert(front[i] == entries[i]);
                }
            }
        }
    }
}

/// A store stays in order, and its identifiers stay distinct, when a
/// summary with a fresh identifier is added at its place.
pub proof fn lemma_with_summary_keeps_order(
    entries: Seq<SummaryView>,
    summary: SummaryView,
    bound: int,
)
    requires
        newest_first(entries),
        distinct_ids(entries),
        ids_below(entries, bound),
        summary.id == bound,
    ensures
        newest_first(with_summary(entries, summary)),
        distinct_ids(with_summary(entries, summary)),
        ids_below(with_summary(entries, summary), bound + 1),
{
    lemma_place_of(entries, summary.created_at);
    let place = place_of(entries, summary.created_at);
    let after = with_summary(entries, summary);
    assert forall|i: int, j: int| 0 <= i < j < after.len() implies lex_le(
        (#[trigger] after[j]).created_at,
        (#[trigger] after[i]).created_at,
    ) by {
        if j < place {
            assert(after[i] == entries[i]);
            assert(after[j] == entries[j]);
        } else if j == place {
            assert(after[i] == entries[i]);
            lemma_lex_le_total(summary.created_at, entries[i].created_at);
        } else if i < place {
            assert(after[i] == entries[i]);
            assert(after[j] == entries[j - 1]);
        } else if i == place {
            assert(after[j] == entries[j - 1]);
        } else {
            assert(after[i] == entries[i - 1]);
            assert(after[j] == entries[j - 1]);
        }
    }
    assert forall|i: int, j: int| 0 <= i < j < after.len() implies (#[trigger] after[i]).id != (
    #[trigger] after[j]).id by {
        let a = if i < place {
            i
        } else {
            i - 1
        };
        let b = if j < place {
            j
        } else {
            j - 1
        };
        if i != place {
            assert(after[i] == entries[a]);
        }
        if j != place {
            assert(after[j] == entries[b]);
        }
    }
    assert forall|i: int| 0 <= i < after.len() implies (#[trigger] after[i]).id < bound + 1 by {
        if i < place {
            assert(after[i] == entries[i]);
        } else if i > place {
            assert(after[i] == entries[i - 1]);
        }
    }
}

/// What a selection keeps of a store's order: the newest still comes
/// first, identifiers stay distinct and below the same bound, and nothing
/// is selected that the store did not hold.
pub proof fn lemma_selection_keeps_order(
    entries: Seq<SummaryView>,
    pred: spec_fn(SummaryView) -> bool,
    bound: int,
)
    requires
        newest_first(entries),
        distinct_ids(entries),
        ids_below(entries, bound),
    ensures
        newest_first(entries.filter(pred)),
        distinct_ids(entries.filter(pred)),
        ids_below(entries.filter(pred), bound),
        forall|i: int|
            0 <= i < entries.filter(pred).len() ==> entries.contains(
                #[trigger] entries.filter(pred)[i],
            ) && pred(entries.filter(pred)[i]),
    decreases entries.len(),
{
    reveal(Seq::filter);
    let chosen = entries.filter(pred);
    if entries.len() > 0 {
        let front = entries.drop_last();
        let last = entries.last();
        assert forall|i: int, j: int| 0 <= i < j < front.len() implies lex_le(
            (#[trigger] front[j]).created_at,
            (#[trigger] front[i]).created_at,
        ) && front[i].id != front[j].id by {
            assert(front[i] == entries[i]);
            assert(front[j] == entries[j]);
        }
        assert forall|i: int| 0 <= i < front.len() implies (#[trigger] front[i]).id < bound by {
            assert(front[i] == entries[i]);
        }
        lemma_selection_keeps_order(front, pred, bound);
        let inner = front.filter(pred);
        assert forall|i: int| 0 <= i < chosen.len() implies entries.contains(
            #[trigger] chosen[i],
        ) && pred(chosen[i]) && chosen[i].id < bound by {
            if i < inner.len() {
                assert(chosen[i] == inner[i]);
                assert(front.contains(inner[i]));
                let k = choose|k: int| 0 <= k < front.len() && front[k] == inner[i];
                assert(entries[k] == inner[i]);
            } else {
                assert(chosen[i] == last);
                assert(entries[entries.len() - 1] == last);
            }
        }
        assert forall|i: int, j: int| 0 <= i < j < chosen.len() implies lex_le(
            (#[trigger] chosen[j]).created_at,
            (#[trigger] chosen[i]).created_at,
        ) && chosen[i].id != chosen[j].id by {
            if j < inner.len() {
                assert(chosen[i] == inner[i]);
                assert(chosen[j] == inner[j]);
            } else {
                assert(chosen[j] == last);
                assert(chosen[i] == inner[i]);
                assert(front.contains(inner[i]));
                let k = choose|k: int| 0 <= k < front.len() && front[k] == inner[i];
                assert(entries[k] == inner[i]);
                assert(entries[entries.len() - 1] == last);
            }
        }
    }
}

impl SummaryStore {
    /// The newest summary comes first, no two summaries share an
    /// identifier, and every identifier is one that the store has given
    /// out.
    pub open spec fn well_formed(&self) -> bool {
        &&& newest_first(self@)
        &&& distinct_ids(self@)
        &&& ids_below(self@, self.next_id as int)
        &&& self.next_id >= 1
    }

    /// The empty store, whose first summary will get the identifier 1.
    pub fn new() -> (store: SummaryStore)
        ensures
            store.well_formed(),
            store@ == Seq::<SummaryView>::empty(),
            store.summaries@ == Seq::<Summary>::empty(),
            store.next_id == 1,
    {
        let store = SummaryStore { summaries: Vec::new(), next_id: 1 };
        assert(store@ =~= Seq::<SummaryView>::empty());
        store
    }

    /// Whether the store is well formed, for a caller that filled the
    /// fields itself.
    pub fn is_well_formed(&self) -> (ok: bool)
        ensures
            ok == self.well_formed(),
    {
        if self.next_id < 1 {
            return false;
        }
        let mut i: usize = 0;
        while i < self.summaries.len()
            invariant
                i <= self.summaries.len(),
                ids_below(self@.take(i as int), self.next_id as int),
                newest_first(self@.take(i as int)),
                distinct_ids(self@.take(i as int)),
            decreases self.summaries.len() - i,
        {
            if self.summaries[i].id >= self.next_id {
                assert(self@[i as int].id >= self.next_id);
                return false;
            }
            if i > 0 && !text_le(
                self.summaries[i].created_at.as_str(),
                self.summaries[i - 1].created_at.as_str(),
            ) {
                assert(!lex_le(self@[i as int].created_at, self@[i - 1].created_at));
                return false;
            }
            let mut k: usize = 0;
            while k < i
                invariant
                    k <= i,
                    i < self.summaries.len(),
                    forall|a: int| 0 <= a < k ==> (#[trigger] self@[a]).id != self@[i as int].id,
                decreases i - k,
            {
                if self.summaries[k].id == self.summaries[i].id {
                    assert(self@[k as int].id == self@[i as int].id);
                    return false;
                }
                k = k + 1;
            }
            proof {
                let before = self@.take(i as int);
                let after = self@.take(i + 1);
                assert forall|a: int, b: int| 0 <= a < b < after.len() implies lex_le(
                    (#[trigger] after[b]).created_at,
                    (#[trigger] after[a]).created_at,
                ) && after[a].id != after[b].id by {
                    if b < i {
                        assert(after[a] == before[a]);
                        assert(after[b] == before[b]);
                    } else {
                        assert(after[a] == self@[a]);
                        if a < i - 1 {
                            assert(after[a] == before[a]);
                            assert(self@[i - 1] == before[i - 1]);
                            lemma_lex_le_transitive(
                                after[b].created_at,
                                self@[i - 1].created_at,
                                after[a].created_at,
                            );
                        }
                    }
                }
                assert forall|a: int| 0 <= a < after.len() implies (#[trigger] after[a]).id
                    < self.next_id by {
                    if a < i {
                        assert(after[a] == before[a]);
                    }
                }
            }
            i = i + 1;
        }
        assert(self@.take(i as int) =~= self@);
        true
    }
}

/// Whether the store holds a summary of the type `summary_type` for the
/// period that starts on `start_date`.
pub fn exists_for_period(store: &SummaryStore, summary_type: &str, start_date: &str) -> (taken:
    bool)
    ensures
        taken == period_taken(store@, summary_type@, start_date@),
{
    let mut i: usize = 0;
    while i < store.summaries.len()
        invariant
            i <= store.summaries.len(),
            forall|k: int| 0 <= k < i ==> !in_slot(#[trigger] store@[k], summary_type@, start_date@),
        decreases store.summaries.len() - i,
    {
        if text_eq(store.summaries[i].summary_type.as_str(), summary_type) && text_eq(
            store.summaries[i].start_date.as_str(),
            start_date,
        ) {
            assert(in_slot(store@[i as int], summary_type@, start_date@));
            return true;
        }
        i = i + 1;
    }
    false
}

/// Adds a summary to the store and returns the identifier that the store
/// gave it.
///
/// The summary's own identifier is not looked at: it gets the next one of
/// the store, which no summary of the store carries. The store is full
/// once the identifiers are used up; it is then left as it was.
pub fn insert_summary(store: &mut SummaryStore, summary: Summary) -> (outcome: Result<
    i32,
    CoreError,
>)
    requires
        old(store).well_formed(),
    ensures
        final(store).well_formed(),
        old(store).next_id == i32::MAX ==> outcome == Err::<i32, CoreError>(
            CoreError::StoreUnavailable,
        ) && *final(store) == *old(store),
        old(store).next_id < i32::MAX ==> {
            &&& outcome == Ok::<i32, CoreError>(old(store).next_id)
            &&& final(store).next_id == old(store).next_id + 1
            &&& final(store)@ == with_summary(
                old(store)@,
                with_id(summary@, old(store).next_id as int),
            )
        },
{
    if store.next_id == i32::MAX {
        return Err(CoreError::StoreUnavailable);
    }
    let id = store.next_id;
    let mut summary = summary;
    summary.id = id;
    let ghost added = summary@;
    let mut place: usize = store.summaries.len();
    assert(store@.take(place as int) =~= store@);
    while place > 0 && text_le(
        store.summaries[place - 1].created_at.as_str(),
        summary.created_at.as_str(),
    )
        invariant
            place <= store.summaries.len(),
            *store == *old(store),
            summary@ == added,
            place_of(store@, added.created_at) == place_of(
                store@.take(place as int),
                added.created_at,
            ),
        decreases place,
    {
        assert(store@.take(place as int).drop_last() =~= store@.take(place - 1));
        assert(store@.take(place as int).last() == store@[place - 1]);
        place = place - 1;
    }
    proof {
        let kept = store@.take(place as int);
        if place > 0 {
            assert(kept.last() == store@[place - 1]);
        }
        assert(place_of(kept, added.created_at) == place as int);
        lemma_with_summary_keeps_order(store@, added, id as int);
    }
    store.summaries.insert(place, summary);
    store.next_id = id + 1;
    assert(store@ =~= with_summary(old(store)@, added));
    Ok(id)
}

/// All summaries of the store, the newest first.
pub fn fetch_summaries(store: &SummaryStore) -> (found: Vec<Summary>)
    ensures
        found@ == store.summaries@,
        views_of(found@) == store@,
        found@.len() == store@.len(),
        store.well_formed() ==> newest_first(views_of(found@)),
{
    let mut found: Vec<Summary> = Vec::new();
    let mut i: usize = 0;
    while i < store.summaries.len()
        invariant
            i <= store.summaries.len(),
            found@ == store.summaries@.take(i as int),
        decreases store.summaries.len() - i,
    {
        found.push(store.summaries[i].clone());
        assert(store.summaries@.take(i + 1) =~= store.summaries@.take(i as int).push(
            store.summaries@[i as int],
        ));
        i = i + 1;
    }
    assert(store.summaries@.take(i as int) =~= store.summaries@);
    found
}

/// The summary that carries the identifier `summary_id`, if the store holds
/// one.
pub fn fetch_summary_by_id(store: &SummaryStore, summary_id: i32) -> (found: Option<Summary>)
    ensures
        match found {
            Some(summary) => first_with_id(store@, summary_id as int) == Some(summary@),
            None => first_with_id(store@, summary_id as int) is None,
        },
        found is Some <==> exists|i: int|
            0 <= i < store@.len() && (#[trigger] store@[i]).id == summary_id,
{
    let mut i: usize = 0;
    assert(store@.skip(0) =~= store@);
    while i < store.summaries.len()
        invariant
            i <= store.summaries.len(),
            first_with_id(store@, summary_id as int) == first_with_id(
                store@.skip(i as int),
                summary_id as int,
            ),
            forall|k: int| 0 <= k < i ==> (#[trigger] store@[k]).id != summary_id,
        decreases store.summaries.len() - i,
    {
        assert(store@.skip(i as int)[0] == store@[i as int]);
        if store.summaries[i].id == summary_id {
            let summary = store.summaries[i].clone();
            assert(summary@ == store@[i as int]);
            return Some(summary);
        }
        assert(store@.skip(i as int).drop_first() =~= store@.skip(i + 1));
        i = i + 1;
    }
    assert(store@.skip(i as int) =~= Seq::<SummaryView>::empty());
    None
}

/// Removes the summary that carries the identifier `summary_id`; a store
/// without such a summary is left as it was.
pub fn delete_summary(store: &mut SummaryStore, summary_id: i32)
    ensures
        final(store)@ == without_id(old(store)@, summary_id as int),
        final(store).next_id == old(store).next_id,
        old(store).well_formed() ==> final(store).well_formed(),
{
    let ghost pred = |summary: SummaryView| summary.id != summary_id as int;
    let mut kept: Vec<Summary> = Vec::new();
    let mut i: usize = 0;
    proof {
        reveal(Seq::filter);
        assert(store@.take(0).filter(pred) =~= Seq::<SummaryView>::empty());
        assert(views_of(kept@) =~= Seq::<SummaryView>::empty());
    }
    while i < store.summaries.len()
        invariant
            i <= store.summaries.len(),
            *store == *old(store),
            pred == (|summary: SummaryView| summary.id != summary_id as int),
            views_of(kept@) == store@.take(i as int).filter(pred),
        decreases store.summaries.len() - i,
    {
        proof {
            lemma_filter_push(store@.take(i as int), store@[i as int], pred);
            assert(store@.take(i + 1) =~= store@.take(i as int).push(store@[i as int]));
        }
        if store.summaries[i].id != summary_id {
            let ghost before = kept@;
            let summary = store.summaries[i].clone();
            kept.push(summary);
            assert(views_of(kept@) =~= views_of(before).push(store@[i as int]));
        }
        i = i + 1;
    }
    proof {
        assert(store@.take(i as int) =~= store@);
        if old(store).well_formed() {
            lemma_selection_keeps_order(old(store)@, pred, old(store).next_id as int);
        }
    }
    store.summaries = kept;
}

} // verus!

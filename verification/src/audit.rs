//! The append-only log of operations, the factual basis of every summary.

use vstd::prelude::*;
use crate::errors::CoreError;
use crate::seqs::lemma_filter_push;
use crate::text::{lemma_lex_le_total, lemma_lex_le_transitive, lex_between, lex_le, lex_lt, text_between, text_le};

verus! {

/// One recorded operation on an entity of the tracker.
#[derive(Debug)]
pub struct OperationLog {
    pub id: i32,
    /// `create`, `update` or `delete`.
    pub operation_type: String,
    /// `project`, `contact`, `event` or `activity`.
    pub entity_type: String,
    pub entity_id: i32,
    pub entity_name: String,
    pub old_value: Option<String>,
    pub new_value: Option<String>,
    pub related_entities: Option<String>,
    pub project_id: Option<i32>,
    pub project_name: Option<String>,
    pub description: String,
    pub created_at: String,
}

impl Clone for OperationLog {
    fn clone(&self) -> (copy: Self)
        ensures
            copy == *self,
    {
        OperationLog {
            id: self.id,
            operation_type: self.operation_type.clone(),
            entity_type: self.entity_type.clone(),
            entity_id: self.entity_id,
            entity_name: self.entity_name.clone(),
            old_value: self.old_value.clone(),
            new_value: self.new_value.clone(),
            related_entities: self.related_entities.clone(),
            project_id: self.project_id,
            project_name: self.project_name.clone(),
            description: self.description.clone(),
            created_at: self.created_at.clone(),
        }
    }
}

/// A recorded operation as a mathematical value.
pub struct OperationLogView {
    pub id: int,
    pub operation_type: Seq<char>,
    pub entity_type: Seq<char>,
    pub entity_id: int,
    pub entity_name: Seq<char>,
    pub old_value: Option<Seq<char>>,
    pub new_value: Option<Seq<char>>,
    pub related_entities: Option<Seq<char>>,
    pub project_id: Option<int>,
    pub project_name: Option<Seq<char>>,
    pub description: Seq<char>,
    pub created_at: Seq<char>,
}

/// The characters of an optional text.
pub open spec fn optional_view(text: Option<String>) -> Option<Seq<char>> {
    match text {
        Some(t) => Some(t@),
        None => None,
    }
}

/// The characters of an optional slice.
pub open spec fn optional_slice_view(text: Option<&str>) -> Option<Seq<char>> {
    match text {
        Some(t) => Some(t@),
        None => None,
    }
}

/// An optional identifier as a mathematical value.
pub open spec fn optional_id(id: Option<i32>) -> Option<int> {
    match id {
        Some(i) => Some(i as int),
        None => None,
    }
}

impl View for OperationLog {
    type V = OperationLogView;

    open spec fn view(&self) -> OperationLogView {
        OperationLogView {
            id: self.id as int,
            operation_type: self.operation_type@,
            entity_type: self.entity_type@,
            entity_id: self.entity_id as int,
            entity_name: self.entity_name@,
            old_value: optional_view(self.old_value),
            new_value: optional_view(self.new_value),
            related_entities: optional_view(self.related_entities),
            project_id: optional_id(self.project_id),
            project_name: optional_view(self.project_name),
            description: self.description@,
            created_at: self.created_at@,
        }
    }
}

/// The log `after` is the log `before` with `entry` added: the entry
/// carries the identifier that was next in `before`, and stands at its
/// place in creation time.
pub open spec fn logged(before: AuditLog, after: AuditLog, entry: OperationLogView) -> bool {
    let place = place_of(before@, entry.created_at);
    &&& after.next_id == before.next_id + 1
    &&& 0 <= place <= before@.len()
    &&& after@ == before@.insert(place, after@[place])
    &&& after@[place]@ == OperationLogView { id: before.next_id as int, ..entry }
}

/// The entries follow one another in ascending creation time.
pub open spec fn ascending(entries: Seq<OperationLog>) -> bool {
    forall|i: int, j: int|
        0 <= i < j < entries.len() ==> lex_le(
            (#[trigger] entries[i]).created_at@,
            (#[trigger] entries[j]).created_at@,
        )
}

/// Every entry carries an identifier below `bound`.
pub open spec fn ids_below(entries: Seq<OperationLog>, bound: int) -> bool {
    forall|i: int| 0 <= i < entries.len() ==> (#[trigger] entries[i]).id < bound
}

/// The entries of `entries` created between `from` and `until`, both
/// included, in the order in which `entries` holds them.
pub open spec fn entries_between(
    entries: Seq<OperationLog>,
    from: Seq<char>,
    until: Seq<char>,
) -> Seq<OperationLog> {
    entries.filter(|e: OperationLog| lex_between(from, e.created_at@, until))
}

/// The place at which an entry created at `created_at` joins `entries`:
/// behind every entry created no later, before every entry created later.
pub open spec fn place_of(entries: Seq<OperationLog>, created_at: Seq<char>) -> int
    decreases entries.len(),
{
    if entries.len() == 0 {
        0
    } else if lex_le(entries.last().created_at@, created_at) {
        entries.len() as int
    } else {
        place_of(entries.drop_last(), created_at)
    }
}

/// The log of operations. Entries are only ever added; the log keeps them
/// in ascending creation time, entries of one timestamp in the order in
/// which they were added.
pub struct AuditLog {
    pub entries: Vec<OperationLog>,
    pub next_id: i32,
}

impl View for AuditLog {
    type V = Seq<OperationLog>;

    open spec fn view(&self) -> Seq<OperationLog> {
        self.entries@
    }
}

impl AuditLog {
    /// Entries ascend in creation time and carry identifiers that the log
    /// has already given out.
    pub open spec fn well_formed(&self) -> bool {
        &&& ascending(self@)
        &&& ids_below(self@, self.next_id as int)
        &&& self.next_id >= 1
    }

    /// The empty log, whose first entry will get the identifier 1.
    pub fn new() -> (log: AuditLog)
        ensures
            log.well_formed(),
            log@ == Seq::<OperationLog>::empty(),
            log.next_id == 1,
    {
        AuditLog { entries: Vec::new(), next_id: 1 }
    }

    /// Whether the log is well formed, for a caller that filled the fields
    /// itself.
    pub fn is_well_formed(&self) -> (ok: bool)
        ensures
            ok == self.well_formed(),
    {
        if self.next_id < 1 {
            return false;
        }
        let mut i: usize = 0;
        while i < self.entries.len()
            invariant
                i <= self.entries.len(),
                ids_below(self@.take(i as int), self.next_id as int),
                ascending(self@.take(i as int)),
            decreases self.entries.len() - i,
        {
            if self.entries[i].id >= self.next_id {
                return false;
            }
            if i > 0 && !text_le(
                self.entries[i - 1].created_at.as_str(),
                self.entries[i].created_at.as_str(),
            ) {
                return false;
            }
            proof {
                let before = self@.take(i as int);
                let after = self@.take(i + 1);
                assert forall|a: int, b: int| 0 <= a < b < after.len() implies lex_le(
                    (#[trigger] after[a]).created_at@,
                    (#[trigger] after[b]).created_at@,
                ) by {
                    if b < i {
                        assert(after[a] == before[a]);
                        assert(after[b] == before[b]);
                    } else if a < i - 1 {
                        assert(after[a] == before[a]);
                        assert(self@[i - 1] == before[i - 1]);
                        lemma_lex_le_transitive(
                            after[a].created_at@,
                            self@[i - 1].created_at@,
                            after[b].created_at@,
                        );
                    }
                }
                assert forall|a: int| 0 <= a < after.len() implies (#[trigger] after[a]).id
                    < self.next_id by {
                    if a < i {
                        assert(after[a] == before[a]);
                    }
                }
            }
            i = i + 1;
        }
        assert(self@.take(i as int) =~= self@);
        true
    }
}

/// What an ascending sequence keeps of its order when only some of its
/// entries are selected.
pub proof fn lemma_entries_between_ascending(
    entries: Seq<OperationLog>,
    from: Seq<char>,
    until: Seq<char>,
)
    requires
        ascending(entries),
    ensures
        ascending(entries_between(entries, from, until)),
        forall|i: int|
            0 <= i < entries_between(entries, from, until).len() ==> entries.contains(
                #[trigger] entries_between(entries, from, until)[i],
            ),
    decreases entries.len(),
{
    reveal(Seq::filter);
    let pred = |e: OperationLog| lex_between(from, e.created_at@, until);
    let chosen = entries.filter(pred);
    if entries.len() > 0 {
        let front = entries.drop_last();
        let last = entries.last();
        assert forall|i: int, j: int| 0 <= i < j < front.len() implies lex_le(
            (#[trigger] front[i]).created_at@,
            (#[trigger] front[j]).created_at@,
        ) by {
            assert(front[i] == entries[i]);
            assert(front[j] == entries[j]);
        }
        lemma_entries_between_ascending(front, from, until);
        let inner = front.filter(pred);
        assert forall|i: int| 0 <= i < chosen.len() implies entries.contains(
            #[trigger] chosen[i],
        ) by {
            if i < inner.len() {
                assert(chosen[i] == inner[i]);
                assert(front.contains(inner[i]));
                let k = choose|k: int| 0 <= k < front.len() && front[k] == inner[i];
                assert(entries[k] == inner[i]);
            } else {
                assert(chosen[i] == last);
                assert(entries[entries.len() - 1] == last);
            }
        }
        assert forall|i: int, j: int| 0 <= i < j < chosen.len() implies lex_le(
            (#[trigger] chosen[i]).created_at@,
            (#[trigger] chosen[j]).created_at@,
        ) by {
            if j < inner.len() {
                assert(chosen[i] == inner[i]);
                assert(chosen[j] == inner[j]);
            } else {
                assert(chosen[j] == last);
                assert(chosen[i] == inner[i]);
                assert(front.contains(inner[i]));
                let k = choose|k: int| 0 <= k < front.len() && front[k] == inner[i];
                assert(entries[k] == inner[i]);
                assert(entries[entries.len() - 1] == last);
            }
        }
    }
}

/// Where `place_of` puts an entry: everything before the place was created
/// no later, everything from the place on was created later.
pub proof fn lemma_place_of(entries: Seq<OperationLog>, created_at: Seq<char>)
    requires
        ascending(entries),
    ensures
        0 <= place_of(entries, created_at) <= entries.len(),
        forall|i: int|
            0 <= i < place_of(entries, created_at) ==> lex_le(
                (#[trigger] entries[i]).created_at@,
                created_at,
            ),
        forall|i: int|
            place_of(entries, created_at) <= i < entries.len() ==> lex_lt(
                created_at,
                (#[trigger] entries[i]).created_at@,
            ),
    decreases entries.len(),
{
    if entries.len() > 0 {
        let last = entries.last();
        if lex_le(last.created_at@, created_at) {
            assert forall|i: int| 0 <= i < entries.len() implies lex_le(
                (#[trigger] entries[i]).created_at@,
                created_at,
            ) by {
                if i < entries.len() - 1 {
                    assert(entries[entries.len() - 1] == last);
                    lemma_lex_le_transitive(entries[i].created_at@, last.created_at@, created_at);
                }
            }
        } else {
            let front = entries.drop_last();
            assert forall|i: int, j: int| 0 <= i < j < front.len() implies lex_le(
                (#[trigger] front[i]).created_at@,
                (#[trigger] front[j]).created_at@,
            ) by {
                assert(front[i] == entries[i]);
                assert(front[j] == entries[j]);
            }
            lemma_place_of(front, created_at);
            let p = place_of(front, created_at);
            assert forall|i: int| 0 <= i < p implies lex_le(
                (#[trigger] entries[i]).created_at@,
                created_at,
            ) by {
                assert(front[i] == entries[i]);
            }
            assert forall|i: int| p <= i < entries.len() implies lex_lt(
                created_at,
                (#[trigger] entries[i]).created_at@,
            ) by {
                if i < entries.len() - 1 {
                    assert(front[i] == entries[i]);
                }
            }
        }
    }
}

/// Adds one operation to the log and returns its identifier.
///
/// The entry gets the next identifier of the log, which is larger than
/// every identifier given before, and joins the entries behind those
/// created no later than it. The log is full once the identifiers are used
/// up; it is then left as it was.
pub fn insert_operation_log(
    log: &mut AuditLog,
    operation_type: &str,
    entity_type: &str,
    entity_id: i32,
    entity_name: &str,
    old_value: Option<&str>,
    new_value: Option<&str>,
    related_entities: Option<&str>,
    project_id: Option<i32>,
    project_name: Option<&str>,
    description: &str,
    created_at: &str,
) -> (outcome: Result<i64, CoreError>)
    requires
        old(log).well_formed(),
    ensures
        final(log).well_formed(),
        old(log).next_id == i32::MAX ==> outcome == Err::<i64, CoreError>(
            CoreError::StoreUnavailable,
        ) && *final(log) == *old(log),
        old(log).next_id < i32::MAX ==> outcome == Ok::<i64, CoreError>(old(log).next_id as i64)
            && logged(
            *old(log),
            *final(log),
            (OperationLogView {
                id: 0,
                operation_type: operation_type@,
                entity_type: entity_type@,
                entity_id: entity_id as int,
                entity_name: entity_name@,
                old_value: optional_slice_view(old_value),
                new_value: optional_slice_view(new_value),
                related_entities: optional_slice_view(related_entities),
                project_id: optional_id(project_id),
                project_name: optional_slice_view(project_name),
                description: description@,
                created_at: created_at@,
            }),
        ),
{
    if log.next_id == i32::MAX {
        return Err(CoreError::StoreUnavailable);
    }
    let id = log.next_id;
    let entry = OperationLog {
        id,
        operation_type: operation_type.to_owned(),
        entity_type: entity_type.to_owned(),
        entity_id,
        entity_name: entity_name.to_owned(),
        old_value: owned_optional_text(old_value),
        new_value: owned_optional_text(new_value),
        related_entities: owned_optional_text(related_entities),
        project_id,
        project_name: owned_optional_text(project_name),
        description: description.to_owned(),
        created_at: created_at.to_owned(),
    };
    let mut place: usize = log.entries.len();
    assert(log@.take(place as int) =~= log@);
    while place > 0 && !text_le(log.entries[place - 1].created_at.as_str(), created_at)
        invariant
            place <= log.entries.len(),
            *log == *old(log),
            place_of(log@, created_at@) == place_of(log@.take(place as int), created_at@),
        decreases place,
    {
        assert(log@.take(place as int).drop_last() =~= log@.take(place - 1));
        place = place - 1;
    }
    proof {
        let kept = log@.take(place as int);
        if place > 0 {
            assert(kept.last() == log@[place - 1]);
        }
        assert(place_of(kept, created_at@) == place as int);
        lemma_place_of(log@, created_at@);
    }
    log.entries.insert(place, entry);
    log.next_id = id + 1;
    proof {
        let before = old(log)@;
        let after = log@;
        assert(after =~= before.insert(place as int, after[place as int]));
        assert forall|i: int, j: int| 0 <= i < j < after.len() implies lex_le(
            (#[trigger] after[i]).created_at@,
            (#[trigger] after[j]).created_at@,
        ) by {
            if j < place {
                assert(after[i] == before[i]);
                assert(after[j] == before[j]);
            } else if j == place {
                assert(after[i] == before[i]);
            } else if i < place {
                assert(after[i] == before[i]);
                assert(after[j] == before[j - 1]);
            } else if i == place {
                assert(after[j] == before[j - 1]);
                lemma_lex_le_total(created_at@, before[j - 1].created_at@);
            } else {
                assert(after[i] == before[i - 1]);
                assert(after[j] == before[j - 1]);
            }
        }
        assert forall|i: int| 0 <= i < after.len() implies (#[trigger] after[i]).id
            < log.next_id by {
            if i < place {
                assert(after[i] == before[i]);
            } else if i > place {
                assert(after[i] == before[i - 1]);
            }
        }
    }
    Ok(id as i64)
}

/// An owned copy of an optional slice.
pub fn owned_optional_text(given: Option<&str>) -> (stored: Option<String>)
    ensures
        optional_view(stored) == optional_slice_view(given),
{
    match given {
        Some(g) => Some(g.to_owned()),
        None => None,
    }
}

/// The operations recorded between `start_date` and `end_date`, both
/// included, in ascending creation time; operations of one timestamp come
/// in the order in which they were added.
pub fn fetch_operation_logs(log: &AuditLog, start_date: &str, end_date: &str) -> (found: Vec<
    OperationLog,
>)
    ensures
        found@ == entries_between(log@, start_date@, end_date@),
        log.well_formed() ==> ascending(found@),
{
    let mut found: Vec<OperationLog> = Vec::new();
    let ghost pred = |e: OperationLog| lex_between(start_date@, e.created_at@, end_date@);
    let mut i: usize = 0;
    proof {
        reveal(Seq::filter);
        assert(log@.take(0).filter(pred) =~= Seq::<OperationLog>::empty());
    }
    while i < log.entries.len()
        invariant
            i <= log.entries.len(),
            pred == (|e: OperationLog| lex_between(start_date@, e.created_at@, end_date@)),
            found@ == log@.take(i as int).filter(pred),
        decreases log.entries.len() - i,
    {
        proof {
            lemma_filter_push(log@.take(i as int), log@[i as int], pred);
            assert(log@.take(i + 1) =~= log@.take(i as int).push(log@[i as int]));
        }
        if text_between(start_date, log.entries[i].created_at.as_str(), end_date) {
            found.push(log.entries[i].clone());
        }
        i = i + 1;
    }
    proof {
        assert(log@.take(i as int) =~= log@);
        if log.well_formed() {
            lemma_entries_between_ascending(log@, start_date@, end_date@);
        }
    }
    found
}

} // verus!

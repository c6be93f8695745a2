//! What holds of the core as a whole: of a tick and the tick after it, of
//! the automatic check however often it runs, and of a period whose
//! summary was deleted.

use vstd::prelude::*;
use crate::audit::{ids_below, logged, place_of as log_place_of, AuditLog, OperationLog, OperationLogView};
use crate::calendar::{date_of, weekday_number, LocalTime};
use crate::generator::drafted;
use crate::records::{Event, EventDetailsView};
use crate::reminders::{
    after_tick,
    due_events,
    is_due,
    marked,
    notification_of,
    tick_notices,
    window_of,
    Window,
};
use crate::scheduler::{
    after_check,
    after_daily,
    after_rule,
    after_weekly,
    daily_period_of,
    monthly_period_of,
    rule_yield,
    weekly_period_of,
    Period,
    StoreModel,
};
use crate::seqs::{lemma_filter_insert_len, lemma_filter_members, lemma_filter_none};
use crate::summary::SummaryView;
use crate::summary_store::{
    in_slot,
    period_taken,
    place_of,
    slot_entries,
    with_summary,
    without_id,
};
use crate::text::{lex_le, lex_lt};

verus! {

/// A reminder that is due at a tick is handed out by the tick, and the
/// tick marks it as handled.
pub proof fn lemma_due_reminder_is_delivered(
    events: Seq<EventDetailsView>,
    window: Window,
    i: int,
)
    requires
        0 <= i < events.len(),
        is_due(events[i].event, window),
    ensures
        due_events(events, window).contains(events[i]),
        tick_notices(events, window).contains(notification_of(events[i])),
        after_tick(events, window)[i] == marked(events[i]),
        after_tick(events, window)[i].event.reminder_triggered,
{
    let pred = |details: EventDetailsView| is_due(details.event, window);
    lemma_filter_members(events, pred);
    let due = due_events(events, window);
    assert(due.contains(events[i]));
    let k = choose|k: int| 0 <= k < due.len() && due[k] == events[i];
    assert(tick_notices(events, window)[k] == notification_of(events[i]));
}

/// A second tick with the window of the first hands nothing out and
/// leaves every event as the first tick left it: no reminder is handed out
/// twice, whether or not its notification arrived.
pub proof fn lemma_second_tick_is_silent(events: Seq<EventDetailsView>, window: Window)
    ensures
        due_events(after_tick(events, window), window) == Seq::<EventDetailsView>::empty(),
        tick_notices(after_tick(events, window), window).len() == 0,
        after_tick(after_tick(events, window), window) == after_tick(events, window),
{
    let pred = |details: EventDetailsView| is_due(details.event, window);
    let first = after_tick(events, window);
    assert forall|k: int| 0 <= k < first.len() implies !pred(#[trigger] first[k]) by {
        if is_due(events[k].event, window) {
            assert(first[k] == marked(events[k]));
        } else {
            assert(first[k] == events[k]);
        }
    }
    lemma_filter_none(first, pred);
    assert(after_tick(first, window) =~= first);
}

/// A tick leaves alone every event whose reminder is not due in its
/// window: an event without a reminder time, one whose reminder time is
/// the start of the window or earlier, one whose reminder time is after the
/// end of the window, and one whose reminder was handled before. Such an
/// event is not among those handed out, and it is not changed.
pub proof fn lemma_tick_leaves_others(events: Seq<EventDetailsView>, window: Window, i: int)
    requires
        0 <= i < events.len(),
        events[i].event.reminder_time is None || events[i].event.reminder_triggered || lex_le(
            events[i].event.reminder_time->0@,
            window.from,
        ) || lex_lt(window.until, events[i].event.reminder_time->0@),
    ensures
        !is_due(events[i].event, window),
        !due_events(events, window).contains(events[i]),
        after_tick(events, window)[i] == events[i],
{
    let pred = |details: EventDetailsView| is_due(details.event, window);
    lemma_filter_members(events, pred);
    let due = due_events(events, window);
    if due.contains(events[i]) {
        let k = choose|k: int| 0 <= k < due.len() && due[k] == events[i];
        assert(pred(due[k]));
    }
}

/// The windows of two ticks that follow one another on schedule meet and
/// do not overlap: the later window begins where the earlier one ends, so
/// a reminder is due in at most one of them, and a reminder time after the
/// end of the earlier and not after the end of the later window is due in
/// the later one.
pub proof fn lemma_consecutive_windows_meet(earlier: LocalTime, later: LocalTime, event: Event)
    requires
        later.well_formed(),
        later.instant() - 60 >= i32::MIN * 86_400,
        earlier == later.earlier_by(60),
    ensures
        window_of(earlier) is Some && window_of(later) is Some ==> {
            let first = window_of(earlier)->0;
            let second = window_of(later)->0;
            &&& second.from == first.until
            &&& !(is_due(event, first) && is_due(event, second))
            &&& event.reminder_time is Some && !event.reminder_triggered && lex_lt(
                first.until,
                event.reminder_time->0@,
            ) && lex_le(event.reminder_time->0@, second.until) ==> is_due(event, second)
        },
{
}

/// The log only grows: after an entry was logged, every entry that the
/// log held is still in it, in the order it had, and the log holds one
/// entry more.
pub proof fn lemma_logging_keeps_entries(before: AuditLog, after: AuditLog, entry: OperationLogView)
    requires
        logged(before, after, entry),
    ensures
        after@.len() == before@.len() + 1,
        forall|i: int|
            0 <= i < before@.len() ==> (#[trigger] before@[i]) == after@[if i < log_place_of(
                before@,
                entry.created_at,
            ) {
                i
            } else {
                i + 1
            }],
{
}

/// The log gives out increasing identifiers: the identifier of a logged
/// entry is greater than that of every entry that the log held before.
pub proof fn lemma_log_ids_increase(before: AuditLog, after: AuditLog, entry: OperationLogView)
    requires
        before.well_formed(),
        logged(before, after, entry),
    ensures
        forall|i: int|
            0 <= i < before@.len() ==> (#[trigger] before@[i]).id < after@[log_place_of(
                before@,
                entry.created_at,
            )].id,
        ids_below(after@, after.next_id as int),
{
    let place = log_place_of(before@, entry.created_at);
    assert(after@[place]@.id == before.next_id);
    assert forall|i: int| 0 <= i < after@.len() implies (#[trigger] after@[i]).id
        < after.next_id by {
        if i < place {
            assert(after@[i] == before@[i]);
        } else if i > place {
            assert(after@[i] == before@[i - 1]);
        }
    }
}

/// The place of a new summary lies within the store.
pub proof fn lemma_place_in_store(entries: Seq<SummaryView>, created_at: Seq<char>)
    ensures
        0 <= place_of(entries, created_at) <= entries.len(),
    decreases entries.len(),
{
    if entries.len() > 0 && !lex_lt(created_at, entries.last().created_at) {
        lemma_place_in_store(entries.drop_last(), created_at);
    }
}

/// A period that no summary covers has no summaries.
pub proof fn lemma_free_slot_is_empty(entries: Seq<SummaryView>, kind: Seq<char>, start: Seq<char>)
    ensures
        period_taken(entries, kind, start) <==> slot_entries(entries, kind, start).len() > 0,
{
    let pred = |summary: SummaryView| in_slot(summary, kind, start);
    lemma_filter_members(entries, pred);
    let chosen = slot_entries(entries, kind, start);
    if period_taken(entries, kind, start) {
        let i = choose|i: int| 0 <= i < entries.len() && in_slot(#[trigger] entries[i], kind, start);
        assert(chosen.contains(entries[i]));
    }
    if chosen.len() > 0 {
        assert(entries.contains(chosen[0]));
        let k = choose|k: int| 0 <= k < entries.len() && entries[k] == chosen[0];
        assert(in_slot(entries[k], kind, start));
    }
}

/// One automatic rule adds at most one summary, and none to a period that
/// a summary of its type covers: for every type and period, the store
/// holds afterwards as many summaries as before, or exactly one.
pub proof fn lemma_rule_adds_at_most_one(
    store: StoreModel,
    log: Seq<OperationLog>,
    summary_type: Seq<char>,
    period: Option<Period>,
    now: LocalTime,
    kind: Seq<char>,
    start: Seq<char>,
)
    ensures
        ({
            let before = slot_entries(store.entries, kind, start).len();
            let after = slot_entries(
                after_rule(store, log, summary_type, period, now).entries,
                kind,
                start,
            ).len();
            after == before || (before == 0 && after == 1)
        }),
{
    let pred = |summary: SummaryView| in_slot(summary, kind, start);
    match rule_yield(store, log, summary_type, period, now) {
        None => {},
        Some(summary) => {
            lemma_place_in_store(store.entries, summary.created_at);
            lemma_filter_insert_len(
                store.entries,
                place_of(store.entries, summary.created_at),
                summary,
                pred,
            );
            if in_slot(summary, kind, start) {
                lemma_free_slot_is_empty(store.entries, kind, start);
            }
        },
    }
}

/// The automatic check adds at most one summary to a period, and none to a
/// period that has one: for every type and period, the store holds
/// afterwards as many summaries as before, or exactly one.
pub proof fn lemma_check_adds_at_most_one(
    store: StoreModel,
    log: Seq<OperationLog>,
    now: LocalTime,
    kind: Seq<char>,
    start: Seq<char>,
)
    ensures
        ({
            let before = slot_entries(store.entries, kind, start).len();
            let after = slot_entries(after_check(store, log, now).entries, kind, start).len();
            after == before || (before == 0 && after == 1)
        }),
{
    let today = now.days_from_ce as int;
    lemma_rule_adds_at_most_one(store, log, "daily"@, daily_period_of(today), now, kind, start);
    lemma_rule_adds_at_most_one(
        after_daily(store, log, now),
        log,
        "weekly"@,
        weekly_period_of(today),
        now,
        kind,
        start,
    );
    lemma_rule_adds_at_most_one(
        after_weekly(store, log, now),
        log,
        "monthly"@,
        monthly_period_of(today),
        now,
        kind,
        start,
    );
}

/// Running the automatic check twice, on one day or on two, never leaves
/// two daily summaries of one period where there were not two before: for
/// every period, the store holds afterwards as many daily summaries as
/// before the first run, or exactly one.
pub proof fn lemma_repeated_check_keeps_one_daily(
    store: StoreModel,
    first_log: Seq<OperationLog>,
    first_now: LocalTime,
    second_log: Seq<OperationLog>,
    second_now: LocalTime,
    start: Seq<char>,
)
    ensures
        ({
            let once = after_check(store, first_log, first_now);
            let twice = after_check(once, second_log, second_now);
            let before = slot_entries(store.entries, "daily"@, start).len();
            let after = slot_entries(twice.entries, "daily"@, start).len();
            after == before || (before == 0 && after == 1)
        }),
{
    let once = after_check(store, first_log, first_now);
    lemma_check_adds_at_most_one(store, first_log, first_now, "daily"@, start);
    lemma_check_adds_at_most_one(once, second_log, second_now, "daily"@, start);
}

/// The weekly rule yields a summary on a Monday only, and the summary it
/// yields covers the seven days that end on the day before today.
pub proof fn lemma_weekly_rule_runs_on_monday(
    store: StoreModel,
    log: Seq<OperationLog>,
    now: LocalTime,
)
    ensures
        ({
            let today = now.days_from_ce as int;
            let period = weekly_period_of(today);
            match rule_yield(store, log, "weekly"@, period, now) {
                Some(summary) => {
                    &&& weekday_number(today) == Some(0int)
                    &&& period is Some
                    &&& period->0.end_day == today - 1
                    &&& period->0.start_day == today - 7
                    &&& period->0.length() == 7
                    &&& summary.summary_type == "weekly"@
                    &&& summary.is_auto_generated
                    &&& date_of(period->0.start_day as int) == Some(summary.start_date)
                    &&& date_of(period->0.end_day as int) == Some(summary.end_date)
                },
                None => true,
            }
        }),
        weekday_number(now.days_from_ce as int) != Some(0int) ==> after_rule(
            store,
            log,
            "weekly"@,
            weekly_period_of(now.days_from_ce as int),
            now,
        ) == store,
{
}

/// Deleting the one summary of a period frees the period: where every
/// summary of the type for the period carries the identifier that is
/// deleted, no summary covers the period afterwards.
pub proof fn lemma_delete_frees_slot(
    entries: Seq<SummaryView>,
    id: int,
    kind: Seq<char>,
    start: Seq<char>,
)
    requires
        forall|i: int|
            0 <= i < entries.len() && in_slot(#[trigger] entries[i], kind, start) ==> entries[i].id
                == id,
    ensures
        !period_taken(without_id(entries, id), kind, start),
{
    let pred = |summary: SummaryView| summary.id != id;
    lemma_filter_members(entries, pred);
    let kept = without_id(entries, id);
    if period_taken(kept, kind, start) {
        let i = choose|i: int| 0 <= i < kept.len() && in_slot(#[trigger] kept[i], kind, start);
        assert(entries.contains(kept[i]));
        let k = choose|k: int| 0 <= k < entries.len() && entries[k] == kept[i];
        assert(in_slot(entries[k], kind, start));
    }
}

/// On a free period the automatic rule generates: where the period's days
/// and the summary can be written and the store has an identifier left,
/// the rule yields a summary of the type for the period, and the period is
/// covered afterwards.
pub proof fn lemma_rule_fills_free_slot(
    store: StoreModel,
    log: Seq<OperationLog>,
    summary_type: Seq<char>,
    period: Period,
    now: LocalTime,
)
    ensures
        ({
            let start = date_of(period.start_day as int);
            let end = date_of(period.end_day as int);
            start is Some && end is Some && !period_taken(store.entries, summary_type, start->0)
                && store.next_id < i32::MAX && drafted(
                summary_type,
                start->0,
                end->0,
                true,
                log,
                now,
            ) is Some ==> {
                let summary = rule_yield(store, log, summary_type, Some(period), now);
                &&& summary is Some
                &&& in_slot(summary->0, summary_type, start->0)
                &&& summary->0.id == store.next_id
                &&& period_taken(
                    after_rule(store, log, summary_type, Some(period), now).entries,
                    summary_type,
                    start->0,
                )
            }
        }),
{
    let start = date_of(period.start_day as int);
    let end = date_of(period.end_day as int);
    if start is Some && end is Some && !period_taken(store.entries, summary_type, start->0)
        && store.next_id < i32::MAX && drafted(summary_type, start->0, end->0, true, log, now)
        is Some {
        let summary = rule_yield(store, log, summary_type, Some(period), now)->0;
        lemma_place_in_store(store.entries, summary.created_at);
        let place = place_of(store.entries, summary.created_at);
        let after = with_summary(store.entries, summary);
        assert(after[place] == summary);
        assert(in_slot(after[place], summary_type, start->0));
    }
}

/// A rule takes no summary away: a period that a summary covers before an
/// automatic rule is covered after it.
pub proof fn lemma_rule_keeps_periods(
    store: StoreModel,
    log: Seq<OperationLog>,
    summary_type: Seq<char>,
    period: Option<Period>,
    now: LocalTime,
    kind: Seq<char>,
    start: Seq<char>,
)
    requires
        period_taken(store.entries, kind, start),
    ensures
        period_taken(after_rule(store, log, summary_type, period, now).entries, kind, start),
{
    match rule_yield(store, log, summary_type, period, now) {
        None => {},
        Some(summary) => {
            lemma_place_in_store(store.entries, summary.created_at);
            let place = place_of(store.entries, summary.created_at);
            let after = with_summary(store.entries, summary);
            let i = choose|i: int|
                0 <= i < store.entries.len() && in_slot(#[trigger] store.entries[i], kind, start);
            if i < place {
                assert(after[i] == store.entries[i]);
            } else {
                assert(after[i + 1] == store.entries[i]);
            }
        },
    }
}

/// After the one daily summary of yesterday was deleted, the next automatic
/// check generates it anew: where yesterday can be written, its summary can
/// be drafted and the store has an identifier left, yesterday is covered by
/// a daily summary after the check, whether or not it was before.
pub proof fn lemma_check_fills_daily_slot(
    store: StoreModel,
    log: Seq<OperationLog>,
    now: LocalTime,
)
    ensures
        ({
            let today = now.days_from_ce as int;
            let yesterday = date_of(today - 1);
            today - 1 >= i32::MIN && yesterday is Some && store.next_id < i32::MAX && drafted(
                "daily"@,
                yesterday->0,
                yesterday->0,
                true,
                log,
                now,
            ) is Some ==> period_taken(
                after_check(store, log, now).entries,
                "daily"@,
                yesterday->0,
            )
        }),
{
    let today = now.days_from_ce as int;
    let yesterday = date_of(today - 1);
    if today - 1 >= i32::MIN && yesterday is Some && store.next_id < i32::MAX && drafted(
        "daily"@,
        yesterday->0,
        yesterday->0,
        true,
        log,
        now,
    ) is Some {
        let period = daily_period_of(today)->0;
        if !period_taken(store.entries, "daily"@, yesterday->0) {
            lemma_rule_fills_free_slot(store, log, "daily"@, period, now);
        }
        lemma_rule_keeps_periods(
            after_daily(store, log, now),
            log,
            "weekly"@,
            weekly_period_of(today),
            now,
            "daily"@,
            yesterday->0,
        );
        lemma_rule_keeps_periods(
            after_weekly(store, log, now),
            log,
            "monthly"@,
            monthly_period_of(today),
            now,
            "daily"@,
            yesterday->0,
        );
    }
}

} // verus!

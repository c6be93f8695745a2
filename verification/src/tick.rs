//! One wake-up of the periodic loop: the reminders, then the automatic
//! summaries.

use vstd::prelude::*;
use crate::audit::AuditLog;
use crate::calendar::LocalTime;
use crate::reminders::{
    after_tick,
    notices_of,
    reminder_tick,
    tick_notices,
    window_of,
    EventStore,
    Notification,
};
use crate::scheduler::{
    after_check,
    check_and_generate_auto_summaries,
    check_yield,
    summary_check_due,
    SUMMARY_MINUTE,
};
use crate::summary::Summary;
use crate::summary_store::{views_of, SummaryStore};

verus! {

/// What one wake-up asks its caller to do: the notifications to deliver,
/// and the summaries that were generated, to be announced.
pub struct TickOutcome {
    pub notifications: Vec<Notification>,
    pub summaries: Vec<Summary>,
}

/// One wake-up at `now`. First the reminders: every reminder that is due
/// in the window of `now` is handed out and marked as handled. Then, in
/// the minute of the automatic check, the summaries that are due and
/// missing are generated. Nothing that goes wrong in one part keeps the
/// other from running.
pub fn scheduler_tick(
    events: &mut EventStore,
    summaries: &mut SummaryStore,
    log: &AuditLog,
    now: &LocalTime,
) -> (outcome: TickOutcome)
    requires
        old(summaries).well_formed(),
    ensures
        final(summaries).well_formed(),
        match window_of(*now) {
            Some(window) => {
                &&& final(events)@ == after_tick(old(events)@, window)
                &&& notices_of(outcome.notifications@) == tick_notices(old(events)@, window)
            },
            None => {
                &&& *final(events) == *old(events)
                &&& outcome.notifications@.len() == 0
            },
        },
        if now.seconds_from_midnight / 60 == SUMMARY_MINUTE {
            &&& final(summaries).model() == after_check(old(summaries).model(), log@, *now)
            &&& views_of(outcome.summaries@) == check_yield(old(summaries).model(), log@, *now)
        } else {
            &&& *final(summaries) == *old(summaries)
            &&& outcome.summaries@.len() == 0
        },
{
    let notifications = reminder_tick(events, now);
    let generated = if summary_check_due(now) {
        check_and_generate_auto_summaries(summaries, log, now)
    } else {
        Vec::new()
    };
    TickOutcome { notifications, summaries: generated }
}

} // verus!

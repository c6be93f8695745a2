//! The automatic summaries: which periods are due on a given day, and the
//! check that generates each of them at most once.

use vstd::prelude::*;
use crate::audit::{AuditLog, OperationLog};
use crate::calendar::{
    date_of,
    date_text,
    day_of_month,
    days_before,
    month_day_number,
    weekday_number,
    weekday_of,
    LocalTime,
};
use crate::generator::{drafted, generate_summary};
use crate::summary::{Summary, SummaryView};
use crate::summary_store::{
    exists_for_period,
    period_taken,
    views_of,
    with_id,
    with_summary,
    SummaryStore,
};

verus! {

/// A run of days, from `start_day` to `end_day`, both included.
#[derive(Debug, Clone, Copy, PartialEq, Eq, Structural)]
pub struct Period {
    pub start_day: i32,
    pub end_day: i32,
}

impl Period {
    /// The number of days in the period.
    pub open spec fn length(&self) -> int {
        self.end_day - self.start_day + 1
    }
}

/// The period of the daily summary that is due on `today`: yesterday.
pub open spec fn daily_period_of(today: int) -> Option<Period> {
    if today - 1 >= i32::MIN {
        Some(Period { start_day: (today - 1) as i32, end_day: (today - 1) as i32 })
    } else {
        None
    }
}

/// The period of the weekly summary that is due on `today`: on a Monday,
/// the seven days that end yesterday; on another day, none.
pub open spec fn weekly_period_of(today: int) -> Option<Period> {
    if weekday_number(today) == Some(0int) && today - 7 >= i32::MIN {
        Some(Period { start_day: (today - 7) as i32, end_day: (today - 1) as i32 })
    } else {
        None
    }
}

/// The period of the monthly summary that is due on `today`: on the first
/// day of a month, the month that ends yesterday, from its first day on;
/// on another day, none.
pub open spec fn monthly_period_of(today: int) -> Option<Period> {
    if month_day_number(today) == Some(1int) && today - 1 >= i32::MIN {
        match month_day_number(today - 1) {
            Some(length) => if 1 <= length && today - length >= i32::MIN {
                Some(Period { start_day: (today - length) as i32, end_day: (today - 1) as i32 })
            } else {
                None
            },
            None => None,
        }
    } else {
        None
    }
}

/// The period of the daily summary that is due on `today`.
pub fn daily_period(today: i32) -> (period: Option<Period>)
    ensures
        period == daily_period_of(today as int),
{
    match days_before(today, 1) {
        Some(yesterday) => Some(Period { start_day: yesterday, end_day: yesterday }),
        None => None,
    }
}

/// The period of the weekly summary that is due on `today`, if one is.
pub fn weekly_period(today: i32) -> (period: Option<Period>)
    ensures
        period == weekly_period_of(today as int),
{
    match weekday_of(today) {
        Some(0) => match (days_before(today, 7), days_before(today, 1)) {
            (Some(start_day), Some(end_day)) => Some(Period { start_day, end_day }),
            _ => None,
        },
        _ => None,
    }
}

/// The period of the monthly summary that is due on `today`, if one is.
pub fn monthly_period(today: i32) -> (period: Option<Period>)
    ensures
        period == monthly_period_of(today as int),
{
    match day_of_month(today) {
        Some(1) => {},
        _ => {
            return None;
        },
    }
    let yesterday = match days_before(today, 1) {
        Some(day) => day,
        None => {
            return None;
        },
    };
    match day_of_month(yesterday) {
        Some(length) => {
            if length < 1 {
                return None;
            }
            match days_before(today, length) {
                Some(start_day) => Some(Period { start_day, end_day: yesterday }),
                None => None,
            }
        },
        None => None,
    }
}

/// A store of summaries as a mathematical value: the summaries, the newest
/// first, and the identifier that the next summary will get.
pub struct StoreModel {
    pub entries: Seq<SummaryView>,
    pub next_id: int,
}

impl SummaryStore {
    /// The store as a mathematical value.
    pub open spec fn model(&self) -> StoreModel {
        StoreModel { entries: self@, next_id: self.next_id as int }
    }
}

/// The summary that one automatic rule adds to a store on which `period`
/// is due, and nothing where no period is due, where its days cannot be
/// written, where the store holds a summary of the type for the period
/// already, or where the generation fails.
pub open spec fn rule_yield(
    store: StoreModel,
    log: Seq<OperationLog>,
    summary_type: Seq<char>,
    period: Option<Period>,
    now: LocalTime,
) -> Option<SummaryView> {
    match period {
        None => None,
        Some(days) => match (date_of(days.start_day as int), date_of(days.end_day as int)) {
            (Some(start), Some(end)) => if period_taken(store.entries, summary_type, start)
                || store.next_id >= i32::MAX {
                None
            } else {
                match drafted(summary_type, start, end, true, log, now) {
                    Some(draft) => Some(with_id(draft, store.next_id)),
                    None => None,
                }
            },
            _ => None,
        },
    }
}

/// The store after one automatic rule.
pub open spec fn after_rule(
    store: StoreModel,
    log: Seq<OperationLog>,
    summary_type: Seq<char>,
    period: Option<Period>,
    now: LocalTime,
) -> StoreModel {
    match rule_yield(store, log, summary_type, period, now) {
        Some(summary) => StoreModel {
            entries: with_summary(store.entries, summary),
            next_id: store.next_id + 1,
        },
        None => store,
    }
}

/// The summaries that a rule yields, as a sequence of none or one.
pub open spec fn yield_seq(summary: Option<SummaryView>) -> Seq<SummaryView> {
    match summary {
        Some(s) => seq![s],
        None => Seq::empty(),
    }
}

/// The store after the daily rule of the automatic check at `now`.
pub open spec fn after_daily(store: StoreModel, log: Seq<OperationLog>, now: LocalTime) -> StoreModel {
    after_rule(store, log, "daily"@, daily_period_of(now.days_from_ce as int), now)
}

/// The store after the daily and the weekly rule of the automatic check
/// at `now`.
pub open spec fn after_weekly(store: StoreModel, log: Seq<OperationLog>, now: LocalTime) -> StoreModel {
    after_rule(
        after_daily(store, log, now),
        log,
        "weekly"@,
        weekly_period_of(now.days_from_ce as int),
        now,
    )
}

/// The store after the automatic check at `now`: after the daily, the
/// weekly and the monthly rule, in this order.
pub open spec fn after_check(store: StoreModel, log: Seq<OperationLog>, now: LocalTime) -> StoreModel {
    after_rule(
        after_weekly(store, log, now),
        log,
        "monthly"@,
        monthly_period_of(now.days_from_ce as int),
        now,
    )
}

/// The summaries that the automatic check at `now` generates, in the order
/// of the rules.
pub open spec fn check_yield(store: StoreModel, log: Seq<OperationLog>, now: LocalTime) -> Seq<
    SummaryView,
> {
    let today = now.days_from_ce as int;
    yield_seq(rule_yield(store, log, "daily"@, daily_period_of(today), now)) + yield_seq(
        rule_yield(after_daily(store, log, now), log, "weekly"@, weekly_period_of(today), now),
    ) + yield_seq(
        rule_yield(after_weekly(store, log, now), log, "monthly"@, monthly_period_of(today), now),
    )
}

/// Applies one automatic rule: where `period` is due and the store holds no
/// summary of the type for it, generates one, marked as generated
/// automatically. A rule that fails leaves the store as it was.
pub fn generate_if_missing(
    store: &mut SummaryStore,
    log: &AuditLog,
    summary_type: &str,
    period: Option<Period>,
    now: &LocalTime,
) -> (summary: Option<Summary>)
    requires
        old(store).well_formed(),
    ensures
        final(store).well_formed(),
        final(store).model() == after_rule(old(store).model(), log@, summary_type@, period, *now),
        match summary {
            Some(s) => rule_yield(old(store).model(), log@, summary_type@, period, *now) == Some(
                s@,
            ),
            None => rule_yield(old(store).model(), log@, summary_type@, period, *now) is None,
        },
{
    let days = match period {
        Some(days) => days,
        None => {
            return None;
        },
    };
    let start = match date_text(days.start_day) {
        Some(text) => text,
        None => {
            return None;
        },
    };
    let end = match date_text(days.end_day) {
        Some(text) => text,
        None => {
            return None;
        },
    };
    if exists_for_period(store, summary_type, start.as_str()) {
        return None;
    }
    match generate_summary(store, log, summary_type, start.as_str(), end.as_str(), true, now) {
        Ok(summary) => Some(summary),
        Err(_) => None,
    }
}

/// The automatic check: generates the daily summary of yesterday, on a
/// Monday the weekly summary of the seven days before, and on the first
/// day of a month the monthly summary of the month before, each only where
/// the store holds none of its type for its period. Returns the summaries
/// that it generated.
pub fn check_and_generate_auto_summaries(
    store: &mut SummaryStore,
    log: &AuditLog,
    now: &LocalTime,
) -> (summaries: Vec<Summary>)
    requires
        old(store).well_formed(),
    ensures
        final(store).well_formed(),
        final(store).model() == after_check(old(store).model(), log@, *now),
        views_of(summaries@) == check_yield(old(store).model(), log@, *now),
{
    let today = now.days_from_ce;
    let mut summaries: Vec<Summary> = Vec::new();
    assert(views_of(summaries@) =~= Seq::<SummaryView>::empty());
    match generate_if_missing(store, log, "daily", daily_period(today), now) {
        Some(summary) => {
            let ghost before = summaries@;
            summaries.push(summary);
            assert(views_of(summaries@) =~= views_of(before).push(summary@));
        },
        None => {},
    }
    let ghost first = views_of(summaries@);
    match generate_if_missing(store, log, "weekly", weekly_period(today), now) {
        Some(summary) => {
            let ghost before = summaries@;
            summaries.push(summary);
            assert(views_of(summaries@) =~= views_of(before).push(summary@));
        },
        None => {},
    }
    let ghost second = views_of(summaries@);
    match generate_if_missing(store, log, "monthly", monthly_period(today), now) {
        Some(summary) => {
            let ghost before = summaries@;
            summaries.push(summary);
            assert(views_of(summaries@) =~= views_of(before).push(summary@));
        },
        None => {},
    }
    assert(views_of(summaries@) =~= check_yield(old(store).model(), log@, *now));
    summaries
}

/// The minute of the day, counted from midnight, in which the automatic
/// check runs: ten minutes past midnight.
pub const SUMMARY_MINUTE: u32 = 10;

/// Whether the automatic check is due at `now`.
pub fn summary_check_due(now: &LocalTime) -> (due: bool)
    ensures
        due == (now.seconds_from_midnight / 60 == SUMMARY_MINUTE),
{
    now.minute_of_day() == SUMMARY_MINUTE
}

} // verus!

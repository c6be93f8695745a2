//! Generating a summary: from the period and the log to a stored summary.

use vstd::prelude::*;
use crate::audit::{entries_between, fetch_operation_logs, AuditLog, OperationLog};
use crate::calendar::{format_time, formatted_time, timestamp_of, timestamp_text, LocalTime};
use crate::errors::CoreError;
use crate::json::json_object_text;
use crate::summary::{
    compose_content,
    compose_title,
    statistics_fields,
    statistics_of,
    statistics_text,
    summary_content,
    summary_statistics,
    summary_title,
    Summary,
    SummaryView,
};
use crate::summary_store::{insert_summary, with_id, with_summary, SummaryStore};

verus! {

/// The pattern of the moment of writing in a summary's title.
pub open spec fn title_stamp_pattern() -> Seq<char> {
    "%Y年%m月%d日 %H:%M"@
}

/// The pattern of the moment of writing in a summary's text.
pub open spec fn content_stamp_pattern() -> Seq<char> {
    "%Y年%m月%d日 %H:%M:%S"@
}

/// The timestamp of the first second of the day written `date`.
pub open spec fn day_start(date: Seq<char>) -> Seq<char> {
    date + " 00:00:00"@
}

/// The timestamp of the last second of the day written `date`.
pub open spec fn day_end(date: Seq<char>) -> Seq<char> {
    date + " 23:59:59"@
}

/// The entries of the log that fall into the period from the first second
/// of `start` to the last second of `end`, in the order of the log, which
/// in a well-formed log is that of their creation.
pub open spec fn period_entries(log: Seq<OperationLog>, start: Seq<char>, end: Seq<char>) -> Seq<
    OperationLog,
> {
    entries_between(log, day_start(start), day_end(end))
}

/// The moment of writing, in the three forms in which a summary holds it:
/// for the title, for the text, and as the timestamp of creation.
pub struct Stamps {
    pub title: Seq<char>,
    pub content: Seq<char>,
    pub created_at: Seq<char>,
}

/// The three written forms of `now`, where the calendar knows the reading.
pub open spec fn stamps_of(now: LocalTime) -> Option<Stamps> {
    let day = now.days_from_ce as int;
    let second = now.seconds_from_midnight as int;
    match (
        formatted_time(day, second, title_stamp_pattern()),
        formatted_time(day, second, content_stamp_pattern()),
        timestamp_of(now),
    ) {
        (Some(title), Some(content), Some(created_at)) => Some(
            Stamps { title, content, created_at },
        ),
        _ => None,
    }
}

/// The summary of the given entries, before a store has given it an
/// identifier: its identifier is 0.
pub open spec fn summary_of(
    summary_type: Seq<char>,
    start: Seq<char>,
    end: Seq<char>,
    is_auto: bool,
    entries: Seq<OperationLog>,
    stamps: Stamps,
    statistics: Seq<char>,
) -> SummaryView {
    SummaryView {
        id: 0,
        title: summary_title(stamps.title, start, end),
        summary_type,
        start_date: start,
        end_date: end,
        content: summary_content(start, end, stamps.content, entries, statistics_of(entries)),
        statistics: Some(statistics),
        is_auto_generated: is_auto,
        created_at: stamps.created_at,
    }
}

/// The summary that a generation at `now` drafts from the log, and nothing
/// where the moment or the statistics cannot be written.
pub open spec fn drafted(
    summary_type: Seq<char>,
    start: Seq<char>,
    end: Seq<char>,
    is_auto: bool,
    log: Seq<OperationLog>,
    now: LocalTime,
) -> Option<SummaryView> {
    let entries = period_entries(log, start, end);
    match (stamps_of(now), json_object_text(statistics_fields(statistics_of(entries)))) {
        (Some(stamps), Some(statistics)) => Some(
            summary_of(summary_type, start, end, is_auto, entries, stamps, statistics),
        ),
        _ => None,
    }
}

/// Writes the summary of `entries` from the written forms of the moment
/// and the text of the statistics.
pub fn compose_summary(
    summary_type: &str,
    start_date: &str,
    end_date: &str,
    is_auto: bool,
    entries: &Vec<OperationLog>,
    title_stamp: &str,
    content_stamp: &str,
    created_at: &str,
    statistics: String,
) -> (summary: Summary)
    ensures
        summary@ == summary_of(
            summary_type@,
            start_date@,
            end_date@,
            is_auto,
            entries@,
            (Stamps { title: title_stamp@, content: content_stamp@, created_at: created_at@ }),
            statistics@,
        ),
{
    let stats = summary_statistics(entries);
    Summary {
        id: 0,
        title: compose_title(title_stamp, start_date, end_date),
        summary_type: summary_type.to_owned(),
        start_date: start_date.to_owned(),
        end_date: end_date.to_owned(),
        content: compose_content(start_date, end_date, content_stamp, entries, &stats),
        statistics: Some(statistics),
        is_auto_generated: is_auto,
        created_at: created_at.to_owned(),
    }
}

/// The operations of the period from `start_date` to `end_date`, both days
/// included in full, in the order of the log.
pub fn fetch_period_logs(log: &AuditLog, start_date: &str, end_date: &str) -> (entries: Vec<
    OperationLog,
>)
    ensures
        entries@ == period_entries(log@, start_date@, end_date@),
{
    let mut from = String::new();
    from.append(start_date);
    from.append(" 00:00:00");
    let mut until = String::new();
    until.append(end_date);
    until.append(" 23:59:59");
    assert(from@ =~= day_start(start_date@));
    assert(until@ =~= day_end(end_date@));
    fetch_operation_logs(log, from.as_str(), until.as_str())
}

/// Drafts the summary of a period from the log, without storing it.
pub fn draft_summary(
    log: &AuditLog,
    summary_type: &str,
    start_date: &str,
    end_date: &str,
    is_auto: bool,
    now: &LocalTime,
) -> (draft: Option<Summary>)
    ensures
        match draft {
            Some(summary) => drafted(summary_type@, start_date@, end_date@, is_auto, log@, *now)
                == Some(summary@),
            None => drafted(summary_type@, start_date@, end_date@, is_auto, log@, *now) is None,
        },
{
    let entries = fetch_period_logs(log, start_date, end_date);
    let title_stamp = format_time(
        now.days_from_ce,
        now.seconds_from_midnight,
        "%Y年%m月%d日 %H:%M",
    );
    let content_stamp = format_time(
        now.days_from_ce,
        now.seconds_from_midnight,
        "%Y年%m月%d日 %H:%M:%S",
    );
    let created_at = timestamp_text(now);
    let stats = summary_statistics(&entries);
    let statistics = statistics_text(&stats);
    match (title_stamp, content_stamp, created_at, statistics) {
        (Some(title_stamp), Some(content_stamp), Some(created_at), Some(statistics)) => Some(
            compose_summary(
                summary_type,
                start_date,
                end_date,
                is_auto,
                &entries,
                title_stamp.as_str(),
                content_stamp.as_str(),
                created_at.as_str(),
                statistics,
            ),
        ),
        _ => None,
    }
}

/// Generates the summary of the period from `start_date` to `end_date`
/// from the log, stores it and returns it as stored.
///
/// Nothing is looked up before: a second summary of one type for one
/// period is stored beside the first. The generation fails where the
/// moment `now` or the statistics cannot be written, and where the store
/// has no identifier left; the store is then left as it was.
pub fn generate_summary(
    store: &mut SummaryStore,
    log: &AuditLog,
    summary_type: &str,
    start_date: &str,
    end_date: &str,
    is_auto: bool,
    now: &LocalTime,
) -> (outcome: Result<Summary, CoreError>)
    requires
        old(store).well_formed(),
    ensures
        final(store).well_formed(),
        match drafted(summary_type@, start_date@, end_date@, is_auto, log@, *now) {
            None => {
                &&& outcome is Err
                &&& outcome->Err_0 == CoreError::GenerationFailed
                &&& *final(store) == *old(store)
            },
            Some(draft) => if old(store).next_id == i32::MAX {
                &&& outcome is Err
                &&& outcome->Err_0 == CoreError::StoreUnavailable
                &&& *final(store) == *old(store)
            } else {
                &&& outcome is Ok
                &&& outcome->Ok_0@ == with_id(draft, old(store).next_id as int)
                &&& final(store)@ == with_summary(
                    old(store)@,
                    with_id(draft, old(store).next_id as int),
                )
                &&& final(store).next_id == old(store).next_id + 1
            },
        },
{
    let draft = draft_summary(log, summary_type, start_date, end_date, is_auto, now);
    match draft {
        None => Err(CoreError::GenerationFailed),
        Some(summary) => {
            let copy = summary.clone();
            match insert_summary(store, summary) {
                Err(error) => Err(error),
                Ok(id) => {
                    let mut stored = copy;
                    stored.id = id;
                    Ok(stored)
                },
            }
        },
    }
}

} // verus!

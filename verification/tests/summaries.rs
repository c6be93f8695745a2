use chrono::Datelike;
use mindmirror::audit::{insert_operation_log, AuditLog};
use mindmirror::calendar::LocalTime;
use mindmirror::errors::CoreError;
use mindmirror::generator::{compose_summary, draft_summary, fetch_period_logs, generate_summary};
use mindmirror::scheduler::{
    check_and_generate_auto_summaries, daily_period, generate_if_missing, monthly_period,
    summary_check_due, weekly_period, Period,
};
use mindmirror::summary::{
    compose_content, compose_title, count_creations, statistics_text, summary_statistics,
    SummaryStatistics,
};
use mindmirror::summary_store::{
    delete_summary, exists_for_period, fetch_summaries, fetch_summary_by_id, insert_summary,
    SummaryStore,
};

fn day(year: i32, month: u32, day: u32) -> i32 {
    chrono::NaiveDate::from_ymd_opt(year, month, day).unwrap().num_days_from_ce()
}

fn at(year: i32, month: u32, d: u32, hour: u32, minute: u32, second: u32) -> LocalTime {
    LocalTime {
        days_from_ce: day(year, month, d),
        seconds_from_midnight: hour * 3600 + minute * 60 + second,
    }
}

fn record(log: &mut AuditLog, operation: &str, entity: &str, description: &str, created_at: &str) -> i64 {
    insert_operation_log(
        log, operation, entity, 1, "name", None, None, None, None, None, description, created_at,
    )
    .unwrap()
}

fn first_of_january() -> AuditLog {
    let mut log = AuditLog::new();
    record(&mut log, "create", "event", "second", "2024-01-01 10:00:00");
    record(&mut log, "create", "project", "first", "2024-01-01 08:30:00");
    record(&mut log, "create", "event", "third", "2024-01-01 23:59:59");
    log
}

#[test]
fn daily_summary_counts_and_lists_three_creations() {
    let log = first_of_january();
    let mut store = SummaryStore::new();
    let now = at(2024, 1, 2, 0, 10, 0);
    let summary =
        generate_summary(&mut store, &log, "daily", "2024-01-01", "2024-01-01", false, &now)
            .unwrap();
    assert_eq!(
        summary.statistics.as_deref(),
        Some(
            "{\"new_activities\":0,\"new_contacts\":0,\"new_events\":2,\"new_projects\":1,\"total_operations\":3}"
        )
    );
    assert_eq!(
        summary.content,
        "# 2024-01-01 至 2024-01-01 工作总结\n\n生成时间：2024年01月02日 00:10:00\n\n---\n\n## 操作记录\n\n- first\n- second\n- third\n\n## 统计数据\n\n- 总操作数：3\n- 新增项目：1\n- 新增联系人：0\n- 新增事件：2\n- 新增活动：0\n"
    );
    assert_eq!(summary.title, "2024年01月02日 00:10生成 - 2024-01-01 至 2024-01-01 总结");
    assert_eq!(summary.summary_type, "daily");
    assert_eq!(summary.start_date, "2024-01-01");
    assert_eq!(summary.end_date, "2024-01-01");
    assert_eq!(summary.created_at, "2024-01-02 00:10:00");
    assert!(!summary.is_auto_generated);
    assert_eq!(summary.id, 1);
}

#[test]
fn statistics_of_three_creations() {
    let log = first_of_january();
    let entries = fetch_period_logs(&log, "2024-01-01", "2024-01-01");
    assert_eq!(
        summary_statistics(&entries),
        SummaryStatistics {
            total_operations: 3,
            new_projects: 1,
            new_contacts: 0,
            new_events: 2,
            new_activities: 0,
        }
    );
}

#[test]
fn statistics_count_creations_only() {
    let mut log = AuditLog::new();
    record(&mut log, "create", "contact", "a", "2024-03-05 01:00:00");
    record(&mut log, "update", "contact", "b", "2024-03-05 02:00:00");
    record(&mut log, "delete", "project", "c", "2024-03-05 03:00:00");
    record(&mut log, "create", "activity", "d", "2024-03-05 04:00:00");
    record(&mut log, "create", "file", "e", "2024-03-05 05:00:00");
    let entries = fetch_period_logs(&log, "2024-03-05", "2024-03-05");
    assert_eq!(
        summary_statistics(&entries),
        SummaryStatistics {
            total_operations: 5,
            new_projects: 0,
            new_contacts: 1,
            new_events: 0,
            new_activities: 1,
        }
    );
    assert_eq!(count_creations(&entries, "contact"), 1);
    assert_eq!(count_creations(&entries, "file"), 1);
    assert_eq!(count_creations(&entries, "event"), 0);
}

#[test]
fn statistics_text_is_a_json_object_of_the_counts() {
    let stats = SummaryStatistics {
        total_operations: 12,
        new_projects: 3,
        new_contacts: 4,
        new_events: 5,
        new_activities: 0,
    };
    let text = statistics_text(&stats).unwrap();
    assert_eq!(
        text,
        "{\"new_activities\":0,\"new_contacts\":4,\"new_events\":5,\"new_projects\":3,\"total_operations\":12}"
    );
    let parsed: serde_json::Value = serde_json::from_str(&text).unwrap();
    assert_eq!(parsed["total_operations"].as_u64(), Some(12));
    assert_eq!(parsed["new_projects"].as_u64(), Some(3));
    assert_eq!(parsed["new_contacts"].as_u64(), Some(4));
    assert_eq!(parsed["new_events"].as_u64(), Some(5));
    assert_eq!(parsed["new_activities"].as_u64(), Some(0));
}

#[test]
fn period_takes_whole_days_and_no_more() {
    let mut log = AuditLog::new();
    record(&mut log, "create", "event", "before", "2023-12-31 23:59:59");
    record(&mut log, "create", "event", "first second", "2024-01-01 00:00:00");
    record(&mut log, "create", "event", "last second", "2024-01-02 23:59:59");
    record(&mut log, "create", "event", "after", "2024-01-03 00:00:00");
    let entries = fetch_period_logs(&log, "2024-01-01", "2024-01-02");
    let descriptions: Vec<&str> = entries.iter().map(|e| e.description.as_str()).collect();
    assert_eq!(descriptions, vec!["first second", "last second"]);
}

#[test]
fn summary_of_an_empty_period_says_so() {
    let log = AuditLog::new();
    let mut store = SummaryStore::new();
    let now = at(2024, 5, 6, 7, 8, 9);
    let summary =
        generate_summary(&mut store, &log, "custom", "2024-05-01", "2024-05-05", false, &now)
            .unwrap();
    assert_eq!(
        summary.content,
        "# 2024-05-01 至 2024-05-05 工作总结\n\n生成时间：2024年05月06日 07:08:09\n\n---\n\n该时间段内没有操作记录。\n\n## 统计数据\n\n- 总操作数：0\n- 新增项目：0\n- 新增联系人：0\n- 新增事件：0\n- 新增活动：0\n"
    );
    assert_eq!(
        summary.statistics.as_deref(),
        Some(
            "{\"new_activities\":0,\"new_contacts\":0,\"new_events\":0,\"new_projects\":0,\"total_operations\":0}"
        )
    );
}

#[test]
fn content_is_the_same_but_for_the_moment_of_writing() {
    let log = first_of_january();
    let entries = fetch_period_logs(&log, "2024-01-01", "2024-01-01");
    let stats = summary_statistics(&entries);
    let one = compose_content("2024-01-01", "2024-01-01", "A", &entries, &stats);
    let other = compose_content("2024-01-01", "2024-01-01", "B", &entries, &stats);
    assert_ne!(one, other);
    assert_eq!(one.replace("生成时间：A", ""), other.replace("生成时间：B", ""));
}

#[test]
fn title_names_moment_and_period() {
    assert_eq!(compose_title("now", "from", "to"), "now生成 - from 至 to 总结");
}

#[test]
fn compose_summary_takes_the_written_parts_as_given() {
    let log = first_of_january();
    let entries = fetch_period_logs(&log, "2024-01-01", "2024-01-01");
    let summary = compose_summary(
        "weekly",
        "2024-01-01",
        "2024-01-07",
        true,
        &entries,
        "T",
        "C",
        "2024-01-08 00:10:00",
        "{}".to_string(),
    );
    assert_eq!(summary.id, 0);
    assert_eq!(summary.title, "T生成 - 2024-01-01 至 2024-01-07 总结");
    assert!(summary.content.starts_with("# 2024-01-01 至 2024-01-07 工作总结\n\n生成时间：C\n\n"));
    assert_eq!(summary.statistics.as_deref(), Some("{}"));
    assert!(summary.is_auto_generated);
    assert_eq!(summary.created_at, "2024-01-08 00:10:00");
}

#[test]
fn draft_is_not_stored() {
    let log = first_of_january();
    let now = at(2024, 1, 2, 0, 10, 0);
    let draft = draft_summary(&log, "daily", "2024-01-01", "2024-01-01", true, &now).unwrap();
    assert_eq!(draft.id, 0);
    assert!(draft.is_auto_generated);
}

#[test]
fn manual_generation_may_repeat_a_period() {
    let log = first_of_january();
    let mut store = SummaryStore::new();
    let now = at(2024, 1, 2, 9, 0, 0);
    let one = generate_summary(&mut store, &log, "daily", "2024-01-01", "2024-01-01", false, &now)
        .unwrap();
    let two = generate_summary(&mut store, &log, "daily", "2024-01-01", "2024-01-01", false, &now)
        .unwrap();
    assert_eq!((one.id, two.id), (1, 2));
    assert_eq!(fetch_summaries(&store).len(), 2);
}

#[test]
fn generation_fails_on_a_reading_outside_the_day() {
    let log = AuditLog::new();
    let mut store = SummaryStore::new();
    let now = LocalTime { days_from_ce: day(2024, 1, 2), seconds_from_midnight: 86_400 };
    let outcome =
        generate_summary(&mut store, &log, "daily", "2024-01-01", "2024-01-01", false, &now);
    assert_eq!(outcome.err(), Some(CoreError::GenerationFailed));
    assert!(fetch_summaries(&store).is_empty());
}

#[test]
fn generation_fails_on_a_day_outside_the_calendar() {
    let log = AuditLog::new();
    let mut store = SummaryStore::new();
    let now = LocalTime { days_from_ce: i32::MAX, seconds_from_midnight: 0 };
    let outcome =
        generate_summary(&mut store, &log, "daily", "2024-01-01", "2024-01-01", false, &now);
    assert_eq!(outcome.err(), Some(CoreError::GenerationFailed));
}

#[test]
fn generation_fails_on_a_full_store() {
    let log = AuditLog::new();
    let mut store = SummaryStore { summaries: Vec::new(), next_id: i32::MAX };
    let now = at(2024, 1, 2, 0, 10, 0);
    let outcome =
        generate_summary(&mut store, &log, "daily", "2024-01-01", "2024-01-01", false, &now);
    assert_eq!(outcome.err(), Some(CoreError::StoreUnavailable));
    assert!(fetch_summaries(&store).is_empty());
    assert_eq!(store.next_id, i32::MAX);
}

#[test]
fn daily_rule_takes_yesterday() {
    assert_eq!(
        daily_period(day(2024, 3, 1)),
        Some(Period { start_day: day(2024, 2, 29), end_day: day(2024, 2, 29) })
    );
    assert_eq!(daily_period(i32::MIN), None);
}

#[test]
fn weekly_rule_runs_on_monday_only() {
    assert_eq!(
        weekly_period(day(2024, 1, 8)),
        Some(Period { start_day: day(2024, 1, 1), end_day: day(2024, 1, 7) })
    );
    for offset in 1..7 {
        assert_eq!(weekly_period(day(2024, 1, 8) + offset), None);
    }
    assert_eq!(weekly_period(i32::MAX), None);
}

#[test]
fn weekly_period_spans_seven_days_that_end_yesterday() {
    let today = day(2025, 6, 30);
    let period = weekly_period(today).unwrap();
    assert_eq!(period.end_day, today - 1);
    assert_eq!(period.end_day - period.start_day + 1, 7);
}

#[test]
fn monthly_rule_runs_on_the_first_only() {
    assert_eq!(
        monthly_period(day(2024, 3, 1)),
        Some(Period { start_day: day(2024, 2, 1), end_day: day(2024, 2, 29) })
    );
    assert_eq!(
        monthly_period(day(2025, 1, 1)),
        Some(Period { start_day: day(2024, 12, 1), end_day: day(2024, 12, 31) })
    );
    assert_eq!(monthly_period(day(2024, 3, 2)), None);
    assert_eq!(monthly_period(day(2024, 2, 29)), None);
    assert_eq!(monthly_period(i32::MIN), None);
}

#[test]
fn check_runs_in_the_tenth_minute_of_the_day() {
    assert!(!summary_check_due(&at(2024, 1, 2, 0, 9, 59)));
    assert!(summary_check_due(&at(2024, 1, 2, 0, 10, 0)));
    assert!(summary_check_due(&at(2024, 1, 2, 0, 10, 59)));
    assert!(!summary_check_due(&at(2024, 1, 2, 0, 11, 0)));
    assert!(!summary_check_due(&at(2024, 1, 2, 10, 10, 0)));
}

#[test]
fn automatic_check_generates_the_daily_summary_once() {
    let log = first_of_january();
    let mut store = SummaryStore::new();
    let now = at(2024, 1, 2, 0, 10, 0);
    let first = check_and_generate_auto_summaries(&mut store, &log, &now);
    assert_eq!(first.len(), 1);
    assert_eq!(first[0].summary_type, "daily");
    assert_eq!(first[0].start_date, "2024-01-01");
    assert_eq!(first[0].end_date, "2024-01-01");
    assert!(first[0].is_auto_generated);
    let second = check_and_generate_auto_summaries(&mut store, &log, &at(2024, 1, 2, 0, 10, 30));
    assert!(second.is_empty());
    let stored = fetch_summaries(&store);
    let dailies = stored
        .iter()
        .filter(|s| s.summary_type == "daily" && s.start_date == "2024-01-01")
        .count();
    assert_eq!(dailies, 1);
}

#[test]
fn automatic_check_on_a_monday_adds_the_week() {
    let log = first_of_january();
    let mut store = SummaryStore::new();
    let generated =
        check_and_generate_auto_summaries(&mut store, &log, &at(2024, 1, 8, 0, 10, 0));
    let kinds: Vec<(&str, &str, &str)> = generated
        .iter()
        .map(|s| (s.summary_type.as_str(), s.start_date.as_str(), s.end_date.as_str()))
        .collect();
    assert_eq!(
        kinds,
        vec![("daily", "2024-01-07", "2024-01-07"), ("weekly", "2024-01-01", "2024-01-07")]
    );
    assert_eq!(
        generated[1].statistics.as_deref(),
        Some(
            "{\"new_activities\":0,\"new_contacts\":0,\"new_events\":2,\"new_projects\":1,\"total_operations\":3}"
        )
    );
    assert_eq!(generated[0].id, 1);
    assert_eq!(generated[1].id, 2);
}

#[test]
fn automatic_check_on_the_first_adds_the_month() {
    let log = first_of_january();
    let mut store = SummaryStore::new();
    let generated =
        check_and_generate_auto_summaries(&mut store, &log, &at(2024, 2, 1, 0, 10, 0));
    let kinds: Vec<(&str, &str, &str)> = generated
        .iter()
        .map(|s| (s.summary_type.as_str(), s.start_date.as_str(), s.end_date.as_str()))
        .collect();
    assert_eq!(
        kinds,
        vec![("daily", "2024-01-31", "2024-01-31"), ("monthly", "2024-01-01", "2024-01-31")]
    );
}

#[test]
fn automatic_check_on_a_monday_the_first_runs_all_rules() {
    let log = AuditLog::new();
    let mut store = SummaryStore::new();
    let generated =
        check_and_generate_auto_summaries(&mut store, &log, &at(2024, 4, 1, 0, 10, 0));
    let kinds: Vec<(&str, &str, &str)> = generated
        .iter()
        .map(|s| (s.summary_type.as_str(), s.start_date.as_str(), s.end_date.as_str()))
        .collect();
    assert_eq!(
        kinds,
        vec![
            ("daily", "2024-03-31", "2024-03-31"),
            ("weekly", "2024-03-25", "2024-03-31"),
            ("monthly", "2024-03-01", "2024-03-31"),
        ]
    );
    let again = check_and_generate_auto_summaries(&mut store, &log, &at(2024, 4, 1, 0, 10, 1));
    assert!(again.is_empty());
    assert_eq!(fetch_summaries(&store).len(), 3);
}

#[test]
fn a_failing_rule_does_not_stop_the_check() {
    let log = AuditLog::new();
    let mut store = SummaryStore { summaries: Vec::new(), next_id: i32::MAX - 1 };
    let generated =
        check_and_generate_auto_summaries(&mut store, &log, &at(2024, 4, 1, 0, 10, 0));
    assert_eq!(generated.len(), 1);
    assert_eq!(generated[0].summary_type, "daily");
    assert_eq!(store.next_id, i32::MAX);
}

#[test]
fn deleting_a_summary_frees_its_period() {
    let log = first_of_january();
    let mut store = SummaryStore::new();
    let now = at(2024, 1, 2, 0, 10, 0);
    let first = check_and_generate_auto_summaries(&mut store, &log, &now);
    assert!(exists_for_period(&store, "daily", "2024-01-01"));
    delete_summary(&mut store, first[0].id);
    assert!(!exists_for_period(&store, "daily", "2024-01-01"));
    let second = check_and_generate_auto_summaries(&mut store, &log, &now);
    assert_eq!(second.len(), 1);
    assert_eq!(second[0].id, 2);
    assert!(exists_for_period(&store, "daily", "2024-01-01"));
}

#[test]
fn rule_skips_a_period_that_is_taken() {
    let log = AuditLog::new();
    let mut store = SummaryStore::new();
    let now = at(2024, 1, 2, 9, 0, 0);
    generate_summary(&mut store, &log, "daily", "2024-01-01", "2024-01-09", false, &now).unwrap();
    let period = daily_period(day(2024, 1, 2));
    assert!(generate_if_missing(&mut store, &log, "daily", period, &now).is_none());
    assert!(generate_if_missing(&mut store, &log, "weekly", period, &now).is_some());
    assert!(generate_if_missing(&mut store, &log, "weekly", None, &now).is_none());
}

#[test]
fn existence_is_keyed_by_type_and_start() {
    let log = AuditLog::new();
    let mut store = SummaryStore::new();
    let now = at(2024, 1, 2, 9, 0, 0);
    generate_summary(&mut store, &log, "weekly", "2024-01-01", "2024-01-07", false, &now).unwrap();
    assert!(exists_for_period(&store, "weekly", "2024-01-01"));
    assert!(!exists_for_period(&store, "daily", "2024-01-01"));
    assert!(!exists_for_period(&store, "weekly", "2024-01-07"));
    assert!(!exists_for_period(&SummaryStore::new(), "weekly", "2024-01-01"));
}

#[test]
fn summaries_come_newest_first() {
    let log = AuditLog::new();
    let mut store = SummaryStore::new();
    generate_summary(&mut store, &log, "custom", "a", "a", false, &at(2024, 1, 2, 9, 0, 0)).unwrap();
    generate_summary(&mut store, &log, "custom", "b", "b", false, &at(2024, 1, 3, 9, 0, 0)).unwrap();
    generate_summary(&mut store, &log, "custom", "c", "c", false, &at(2024, 1, 1, 9, 0, 0)).unwrap();
    let starts: Vec<String> = fetch_summaries(&store).into_iter().map(|s| s.start_date).collect();
    assert_eq!(starts, vec!["b", "a", "c"]);
    assert!(store.is_well_formed());
}

#[test]
fn summary_is_found_by_its_identifier() {
    let log = AuditLog::new();
    let mut store = SummaryStore::new();
    let now = at(2024, 1, 2, 9, 0, 0);
    generate_summary(&mut store, &log, "custom", "a", "a", false, &now).unwrap();
    generate_summary(&mut store, &log, "custom", "b", "b", false, &now).unwrap();
    assert_eq!(fetch_summary_by_id(&store, 2).unwrap().start_date, "b");
    assert_eq!(fetch_summary_by_id(&store, 1).unwrap().start_date, "a");
    assert!(fetch_summary_by_id(&store, 3).is_none());
    delete_summary(&mut store, 7);
    assert_eq!(fetch_summaries(&store).len(), 2);
    delete_summary(&mut store, 1);
    assert!(fetch_summary_by_id(&store, 1).is_none());
    assert_eq!(fetch_summaries(&store).len(), 1);
}

#[test]
fn store_gives_identifiers_of_its_own() {
    let log = AuditLog::new();
    let now = at(2024, 1, 2, 9, 0, 0);
    let mut draft = draft_summary(&log, "custom", "a", "a", false, &now).unwrap();
    draft.id = 99;
    let mut store = SummaryStore::new();
    assert_eq!(insert_summary(&mut store, draft), Ok(1));
    assert_eq!(fetch_summaries(&store)[0].id, 1);
    assert_eq!(store.next_id, 2);
}

#[test]
fn store_checks_its_own_form() {
    let log = AuditLog::new();
    let now = at(2024, 1, 2, 9, 0, 0);
    let draft = draft_summary(&log, "custom", "a", "a", false, &now).unwrap();
    let mut twin = draft.clone();
    let mut one = draft.clone();
    one.id = 1;
    twin.id = 1;
    assert!(!SummaryStore { summaries: vec![one.clone(), twin], next_id: 2 }.is_well_formed());
    assert!(!SummaryStore { summaries: vec![one.clone()], next_id: 1 }.is_well_formed());
    assert!(!SummaryStore { summaries: Vec::new(), next_id: 0 }.is_well_formed());
    let mut later = draft.clone();
    later.id = 2;
    later.created_at = "2024-01-03 00:00:00".to_string();
    assert!(!SummaryStore { summaries: vec![one.clone(), later.clone()], next_id: 3 }
        .is_well_formed());
    assert!(SummaryStore { summaries: vec![later, one], next_id: 3 }.is_well_formed());
}

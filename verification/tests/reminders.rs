use chrono::Datelike;
use mindmirror::audit::AuditLog;
use mindmirror::calendar::LocalTime;
use mindmirror::records::{Contact, Event, EventWithDetails};
use mindmirror::reminders::{
    compose_notification, deliver_due, due_reminders, fetch_pending_reminders,
    fetch_today_reminder_event_ids, mark_reminder_triggered, names_of, reminder_ids_between,
    reminder_is_due, reminder_tick, reminder_window, update_event_reminder, EventStore,
};
use mindmirror::summary_store::{fetch_summaries, SummaryStore};
use mindmirror::tick::scheduler_tick;

fn day(year: i32, month: u32, day: u32) -> i32 {
    chrono::NaiveDate::from_ymd_opt(year, month, day).unwrap().num_days_from_ce()
}

fn at(year: i32, month: u32, d: u32, hour: u32, minute: u32, second: u32) -> LocalTime {
    LocalTime {
        days_from_ce: day(year, month, d),
        seconds_from_midnight: hour * 3600 + minute * 60 + second,
    }
}

fn contact(id: i32, name: &str) -> Contact {
    Contact {
        id,
        name: name.to_string(),
        title: None,
        notes: None,
        tags: None,
        phone: None,
        email: None,
        address: None,
        company: None,
        created_at: "2024-01-01 00:00:00".to_string(),
        updated_at: "2024-01-01 00:00:00".to_string(),
    }
}

fn event(id: i32, title: &str, reminder: Option<&str>, triggered: bool) -> EventWithDetails {
    EventWithDetails {
        event: Event {
            id,
            title: title.to_string(),
            description: None,
            event_date: "2024-06-01".to_string(),
            project_id: None,
            event_type: None,
            reminder_time: reminder.map(|r| r.to_string()),
            reminder_triggered: triggered,
            created_at: "2024-01-01 00:00:00".to_string(),
            updated_at: "2024-01-01 00:00:00".to_string(),
        },
        contacts: Vec::new(),
        project_name: None,
    }
}

fn flags(store: &EventStore) -> Vec<bool> {
    store.events.iter().map(|e| e.event.reminder_triggered).collect()
}

#[test]
fn window_reaches_one_tick_back() {
    assert_eq!(
        reminder_window(&at(2024, 6, 1, 12, 0, 30)),
        Some(("2024-06-01 11:59:30".to_string(), "2024-06-01 12:00:30".to_string()))
    );
    assert_eq!(
        reminder_window(&at(2024, 1, 1, 0, 0, 30)),
        Some(("2023-12-31 23:59:30".to_string(), "2024-01-01 00:00:30".to_string()))
    );
}

#[test]
fn window_needs_a_reading_of_the_calendar() {
    let late = LocalTime { days_from_ce: day(2024, 1, 1), seconds_from_midnight: 86_400 };
    assert_eq!(reminder_window(&late), None);
    let far = LocalTime { days_from_ce: i32::MIN, seconds_from_midnight: 0 };
    assert_eq!(reminder_window(&far), None);
}

#[test]
fn tick_delivers_a_due_reminder_once() {
    let mut store = EventStore {
        events: vec![event(1, "call", Some("2024-06-01 12:00:00"), false)],
    };
    let now = at(2024, 6, 1, 12, 0, 30);
    let first = reminder_tick(&mut store, &now);
    assert_eq!(first.len(), 1);
    assert_eq!(first[0].event_id, 1);
    assert_eq!(first[0].title, "事件提醒: call");
    assert_eq!(flags(&store), vec![true]);
    let second = reminder_tick(&mut store, &now);
    assert!(second.is_empty());
    assert_eq!(flags(&store), vec![true]);
}

#[test]
fn tick_skips_what_lies_outside_the_window() {
    let mut store = EventStore {
        events: vec![
            event(1, "long ago", Some("2024-06-01 11:59:29"), false),
            event(2, "one tick ago", Some("2024-06-01 11:59:30"), false),
            event(3, "just inside", Some("2024-06-01 11:59:31"), false),
            event(4, "now", Some("2024-06-01 12:00:30"), false),
            event(5, "soon", Some("2024-06-01 12:00:31"), false),
            event(6, "handled", Some("2024-06-01 12:00:00"), true),
            event(7, "no reminder", None, false),
        ],
    };
    let sent = reminder_tick(&mut store, &at(2024, 6, 1, 12, 0, 30));
    let ids: Vec<i32> = sent.iter().map(|n| n.event_id).collect();
    assert_eq!(ids, vec![3, 4]);
    assert_eq!(flags(&store), vec![false, false, true, true, false, true, false]);
}

#[test]
fn tick_without_a_window_changes_nothing() {
    let mut store = EventStore {
        events: vec![event(1, "call", Some("2024-06-01 12:00:00"), false)],
    };
    let now = LocalTime { days_from_ce: day(2024, 6, 1), seconds_from_midnight: 90_000 };
    assert!(reminder_tick(&mut store, &now).is_empty());
    assert_eq!(flags(&store), vec![false]);
}

#[test]
fn due_reminders_come_in_the_order_of_the_store() {
    let store = EventStore {
        events: vec![
            event(9, "b", Some("2024-06-01 12:00:20"), false),
            event(2, "a", Some("2024-06-01 12:00:10"), false),
            event(5, "c", Some("2024-06-01 13:00:00"), false),
        ],
    };
    let found = due_reminders(&store, "2024-06-01 11:59:30", "2024-06-01 12:00:30");
    let ids: Vec<i32> = found.iter().map(|e| e.event.id).collect();
    assert_eq!(ids, vec![9, 2]);
    let pending = fetch_pending_reminders(&store, &at(2024, 6, 1, 12, 0, 30)).unwrap();
    let ids: Vec<i32> = pending.iter().map(|e| e.event.id).collect();
    assert_eq!(ids, vec![9, 2]);
    let late = LocalTime { days_from_ce: day(2024, 6, 1), seconds_from_midnight: 86_400 };
    assert!(fetch_pending_reminders(&store, &late).is_none());
}

#[test]
fn due_means_after_the_start_and_not_after_the_end() {
    let e = event(1, "x", Some("2024-06-01 12:00:00"), false);
    assert!(reminder_is_due(&e.event, "2024-06-01 11:59:59", "2024-06-01 12:00:00"));
    assert!(!reminder_is_due(&e.event, "2024-06-01 12:00:00", "2024-06-01 12:01:00"));
    assert!(!reminder_is_due(&e.event, "2024-06-01 11:00:00", "2024-06-01 11:59:59"));
    let handled = event(1, "x", Some("2024-06-01 12:00:00"), true);
    assert!(!reminder_is_due(&handled.event, "2024-06-01 11:59:59", "2024-06-01 12:00:00"));
    let none = event(1, "x", None, false);
    assert!(!reminder_is_due(&none.event, "", "9"));
}

#[test]
fn deliver_marks_whatever_it_hands_out() {
    let mut store = EventStore {
        events: vec![
            event(1, "a", Some("b"), false),
            event(2, "b", Some("d"), false),
        ],
    };
    let sent = deliver_due(&mut store, "a", "c");
    assert_eq!(sent.len(), 1);
    assert_eq!(sent[0].event_id, 1);
    assert_eq!(flags(&store), vec![true, false]);
}

#[test]
fn notification_names_project_and_contacts() {
    let mut details = event(3, "standup", Some("2024-06-01 12:00:00"), false);
    details.project_name = Some("Atlas".to_string());
    details.contacts = vec![contact(1, "Ann"), contact(2, "Bob"), contact(3, "Cy")];
    let notification = compose_notification(&details);
    assert_eq!(notification.event_id, 3);
    assert_eq!(notification.title, "事件提醒: standup");
    assert_eq!(notification.body, "项目: Atlas\n相关人员: Ann、Bob、Cy");
    assert_eq!(names_of(&details.contacts), vec!["Ann", "Bob", "Cy"]);
}

#[test]
fn notification_leaves_out_what_an_event_lacks() {
    let bare = event(3, "standup", None, false);
    assert_eq!(compose_notification(&bare).body, "");
    let mut with_project = event(3, "standup", None, false);
    with_project.project_name = Some("Atlas".to_string());
    assert_eq!(compose_notification(&with_project).body, "项目: Atlas\n");
    let mut with_contact = event(3, "standup", None, false);
    with_contact.contacts = vec![contact(1, "Ann")];
    assert_eq!(compose_notification(&with_contact).body, "相关人员: Ann");
}

#[test]
fn marking_goes_by_the_identifier() {
    let mut store = EventStore {
        events: vec![event(1, "a", None, false), event(2, "b", None, false)],
    };
    mark_reminder_triggered(&mut store, 2);
    assert_eq!(flags(&store), vec![false, true]);
    mark_reminder_triggered(&mut store, 5);
    assert_eq!(flags(&store), vec![false, true]);
}

#[test]
fn a_new_reminder_time_is_a_new_reminder() {
    let mut store = EventStore {
        events: vec![
            event(1, "a", Some("2024-06-01 12:00:00"), true),
            event(2, "b", Some("2024-06-01 12:00:00"), true),
        ],
    };
    update_event_reminder(&mut store, 1, Some("2024-06-02 08:00:00".to_string()));
    assert_eq!(store.events[0].event.reminder_time.as_deref(), Some("2024-06-02 08:00:00"));
    assert_eq!(flags(&store), vec![false, true]);
    let sent = reminder_tick(&mut store, &at(2024, 6, 2, 8, 0, 0));
    assert_eq!(sent.len(), 1);
    assert_eq!(flags(&store), vec![true, true]);
    update_event_reminder(&mut store, 2, None);
    assert_eq!(store.events[1].event.reminder_time, None);
    assert_eq!(flags(&store), vec![true, false]);
}

#[test]
fn reminders_of_today_are_listed_handled_or_not() {
    let store = EventStore {
        events: vec![
            event(1, "yesterday", Some("2024-05-31 23:59:59"), false),
            event(2, "midnight", Some("2024-06-01 00:00:00"), false),
            event(3, "handled", Some("2024-06-01 12:00:00"), true),
            event(4, "last second", Some("2024-06-01 23:59:59"), false),
            event(5, "tomorrow", Some("2024-06-02 00:00:00"), false),
            event(6, "none", None, false),
        ],
    };
    assert_eq!(
        fetch_today_reminder_event_ids(&store, &at(2024, 6, 1, 15, 0, 0)),
        Some(vec![2, 3, 4])
    );
    assert_eq!(
        reminder_ids_between(&store, "2024-05-31 00:00:00", "2024-05-31 23:59:59"),
        vec![1]
    );
    let far = LocalTime { days_from_ce: i32::MAX, seconds_from_midnight: 0 };
    assert_eq!(fetch_today_reminder_event_ids(&store, &far), None);
}

#[test]
fn wake_up_runs_reminders_then_summaries() {
    let mut events = EventStore {
        events: vec![event(1, "night", Some("2024-01-02 00:10:00"), false)],
    };
    let mut summaries = SummaryStore::new();
    let log = AuditLog::new();
    let outcome = scheduler_tick(&mut events, &mut summaries, &log, &at(2024, 1, 2, 0, 10, 20));
    assert_eq!(outcome.notifications.len(), 1);
    assert_eq!(outcome.summaries.len(), 1);
    assert_eq!(outcome.summaries[0].start_date, "2024-01-01");
    let again = scheduler_tick(&mut events, &mut summaries, &log, &at(2024, 1, 2, 0, 10, 20));
    assert!(again.notifications.is_empty());
    assert!(again.summaries.is_empty());
    assert_eq!(fetch_summaries(&summaries).len(), 1);
}

#[test]
fn wake_up_outside_the_minute_leaves_summaries_alone() {
    let mut events = EventStore { events: Vec::new() };
    let mut summaries = SummaryStore::new();
    let log = AuditLog::new();
    let outcome = scheduler_tick(&mut events, &mut summaries, &log, &at(2024, 1, 2, 0, 11, 0));
    assert!(outcome.notifications.is_empty());
    assert!(outcome.summaries.is_empty());
    assert!(fetch_summaries(&summaries).is_empty());
}

#[test]
fn ticks_on_schedule_hand_each_reminder_out_exactly_once() {
    let mut store = EventStore {
        events: vec![
            event(1, "at the first tick", Some("2024-06-01 12:00:00"), false),
            event(2, "between", Some("2024-06-01 12:00:01"), false),
            event(3, "at the second tick", Some("2024-06-01 12:01:00"), false),
            event(4, "after", Some("2024-06-01 12:01:01"), false),
        ],
    };
    let first = reminder_tick(&mut store, &at(2024, 6, 1, 12, 0, 0));
    let second = reminder_tick(&mut store, &at(2024, 6, 1, 12, 1, 0));
    let third = reminder_tick(&mut store, &at(2024, 6, 1, 12, 2, 0));
    let ids = |sent: &Vec<mindmirror::reminders::Notification>| -> Vec<i32> {
        sent.iter().map(|n| n.event_id).collect()
    };
    assert_eq!(ids(&first), vec![1]);
    assert_eq!(ids(&second), vec![2, 3]);
    assert_eq!(ids(&third), vec![4]);
    assert_eq!(
        reminder_window(&at(2024, 6, 1, 12, 1, 0)).unwrap().0,
        reminder_window(&at(2024, 6, 1, 12, 0, 0)).unwrap().1
    );
}

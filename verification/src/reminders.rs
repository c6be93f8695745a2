//! Reminders: which events are due at a tick, what their notifications
//! say, and the tick that hands each reminder out at most once.

use vstd::prelude::*;
use crate::seqs::lemma_filter_push;
use crate::calendar::{date_of, date_text, timestamp_of, timestamp_text, LocalTime};
use crate::generator::{day_end, day_start};
use crate::records::{Contact, Event, EventDetailsView, EventWithDetails};
use crate::text::{
    joined,
    lex_between,
    lex_le,
    lex_lt,
    push_joined,
    text_between,
    text_le,
    texts_of,
};

verus! {

/// The seconds between two ticks, and the width of the window in which a
/// reminder is due.
pub const TICK_SECONDS: u32 = 60;

/// The events that the core reminds of, each with its details.
pub struct EventStore {
    pub events: Vec<EventWithDetails>,
}

/// The views of events, in their order.
pub open spec fn details_of(events: Seq<EventWithDetails>) -> Seq<EventDetailsView> {
    events.map_values(|details: EventWithDetails| details@)
}

impl View for EventStore {
    type V = Seq<EventDetailsView>;

    open spec fn view(&self) -> Seq<EventDetailsView> {
        details_of(self.events@)
    }
}

/// The window of a tick: a reminder is due in it when its time lies after
/// `from` and not after `until`.
pub struct Window {
    pub from: Seq<char>,
    pub until: Seq<char>,
}

/// The reminder of the event is due in the window: the event has a
/// reminder time after `from` and not after `until`, and its reminder was
/// not handled yet.
pub open spec fn is_due(event: Event, window: Window) -> bool {
    &&& event.reminder_time is Some
    &&& !event.reminder_triggered
    &&& lex_lt(window.from, event.reminder_time->0@)
    &&& lex_le(event.reminder_time->0@, window.until)
}

/// The events whose reminders are due in the window, in the order of the
/// store.
pub open spec fn due_events(events: Seq<EventDetailsView>, window: Window) -> Seq<
    EventDetailsView,
> {
    events.filter(|details: EventDetailsView| is_due(details.event, window))
}

/// The event with its reminder marked as handled.
pub open spec fn marked(details: EventDetailsView) -> EventDetailsView {
    EventDetailsView { event: Event { reminder_triggered: true, ..details.event }, ..details }
}

/// The events after a tick with the window: the reminders that were due
/// are marked as handled, everything else is as it was.
pub open spec fn after_tick(events: Seq<EventDetailsView>, window: Window) -> Seq<
    EventDetailsView,
> {
    events.map_values(
        |details: EventDetailsView|
            if is_due(details.event, window) {
                marked(details)
            } else {
                details
            },
    )
}

/// The window of the tick at `now`: from one tick before `now`, not
/// included, to `now`, included. There is none where the calendar cannot
/// write one of the two moments.
pub open spec fn window_of(now: LocalTime) -> Option<Window> {
    if now.well_formed() && now.instant() - 60 >= i32::MIN * 86_400 {
        match (timestamp_of(now.earlier_by(60)), timestamp_of(now)) {
            (Some(from), Some(until)) => Some(Window { from, until }),
            _ => None,
        }
    } else {
        None
    }
}

/// The two timestamps that bound the window of the tick at `now`.
pub fn reminder_window(now: &LocalTime) -> (bounds: Option<(String, String)>)
    ensures
        match bounds {
            Some((from, until)) => window_of(*now) == Some(
                Window { from: from@, until: until@ },
            ),
            None => window_of(*now) is None,
        },
{
    let earlier = match now.seconds_before(TICK_SECONDS) {
        Some(reading) => reading,
        None => {
            return None;
        },
    };
    match (timestamp_text(&earlier), timestamp_text(now)) {
        (Some(from), Some(until)) => Some((from, until)),
        _ => None,
    }
}

/// Whether the reminder of the event is due in the window from `from`, not
/// included, to `until`, included.
pub fn reminder_is_due(event: &Event, from: &str, until: &str) -> (due: bool)
    ensures
        due == is_due(*event, (Window { from: from@, until: until@ })),
{
    match &event.reminder_time {
        Some(time) => !event.reminder_triggered && !text_le(time.as_str(), from) && text_le(
            time.as_str(),
            until,
        ),
        None => false,
    }
}

/// The events whose reminders are due in the window from `from`, not
/// included, to `until`, included, in the order of the store.
pub fn due_reminders(store: &EventStore, from: &str, until: &str) -> (found: Vec<
    EventWithDetails,
>)
    ensures
        details_of(found@) == due_events(store@, (Window { from: from@, until: until@ })),
        found@.len() == due_events(store@, (Window { from: from@, until: until@ })).len(),
{
    let ghost window = Window { from: from@, until: until@ };
    let ghost pred = |details: EventDetailsView| is_due(details.event, window);
    let mut found: Vec<EventWithDetails> = Vec::new();
    let mut i: usize = 0;
    proof {
        reveal(Seq::filter);
        assert(store@.take(0).filter(pred) =~= Seq::<EventDetailsView>::empty());
        assert(details_of(found@) =~= Seq::<EventDetailsView>::empty());
    }
    while i < store.events.len()
        invariant
            i <= store.events.len(),
            window == (Window { from: from@, until: until@ }),
            pred == (|details: EventDetailsView| is_due(details.event, window)),
            details_of(found@) == store@.take(i as int).filter(pred),
        decreases store.events.len() - i,
    {
        proof {
            lemma_filter_push(store@.take(i as int), store@[i as int], pred);
            assert(store@.take(i + 1) =~= store@.take(i as int).push(store@[i as int]));
        }
        if reminder_is_due(&store.events[i].event, from, until) {
            let ghost before = found@;
            let copy = store.events[i].clone();
            found.push(copy);
            assert(details_of(found@) =~= details_of(before).push(store@[i as int]));
        }
        i = i + 1;
    }
    assert(store@.take(i as int) =~= store@);
    found
}

/// The events whose reminders are due at `now`, or nothing where the
/// window of `now` cannot be written.
pub fn fetch_pending_reminders(store: &EventStore, now: &LocalTime) -> (found: Option<
    Vec<EventWithDetails>,
>)
    ensures
        match found {
            Some(events) => window_of(*now) is Some && details_of(events@) == due_events(
                store@,
                window_of(*now)->0,
            ),
            None => window_of(*now) is None,
        },
{
    match reminder_window(now) {
        Some((from, until)) => Some(due_reminders(store, from.as_str(), until.as_str())),
        None => None,
    }
}

/// The events as they are once the reminders of the events with the
/// identifier `event_id` are marked as handled.
pub open spec fn with_triggered(events: Seq<EventDetailsView>, event_id: i32) -> Seq<
    EventDetailsView,
> {
    events.map_values(
        |details: EventDetailsView|
            if details.event.id == event_id {
                marked(details)
            } else {
                details
            },
    )
}

/// Marks the reminder of the event with the identifier `event_id` as
/// handled.
pub fn mark_reminder_triggered(store: &mut EventStore, event_id: i32)
    ensures
        final(store)@ == with_triggered(old(store)@, event_id),
{
    let mut i: usize = 0;
    while i < store.events.len()
        invariant
            i <= store.events.len(),
            store.events.len() == old(store).events.len(),
            forall|k: int| 0 <= k < i ==> (#[trigger] store@[k]) == with_triggered(
                old(store)@,
                event_id,
            )[k],
            forall|k: int| i <= k < store.events.len() ==> (#[trigger] store@[k]) == old(store)@[k],
        decreases store.events.len() - i,
    {
        let ghost before = store@;
        if store.events[i].event.id == event_id {
            store.events[i].event.reminder_triggered = true;
        }
        assert forall|k: int| 0 <= k < i + 1 implies (#[trigger] store@[k]) == with_triggered(
            old(store)@,
            event_id,
        )[k] by {
            if k < i {
                assert(store@[k] == before[k]);
            } else {
                assert(before[k] == old(store)@[k]);
            }
        }
        assert forall|k: int| i + 1 <= k < store.events.len() implies (#[trigger] store@[k])
            == old(store)@[k] by {
            assert(store@[k] == before[k]);
        }
        i = i + 1;
    }
    assert(store@ =~= with_triggered(old(store)@, event_id));
}

/// The event with a new reminder time, not handled yet.
pub open spec fn rescheduled(details: EventDetailsView, reminder_time: Option<String>) -> EventDetailsView {
    EventDetailsView {
        event: Event { reminder_time, reminder_triggered: false, ..details.event },
        ..details
    }
}

/// The events as they are once the event with the identifier `event_id`
/// has the reminder time `reminder_time`.
pub open spec fn with_reminder(
    events: Seq<EventDetailsView>,
    event_id: i32,
    reminder_time: Option<String>,
) -> Seq<EventDetailsView> {
    events.map_values(
        |details: EventDetailsView|
            if details.event.id == event_id {
                rescheduled(details, reminder_time)
            } else {
                details
            },
    )
}

/// Gives the event with the identifier `event_id` the reminder time
/// `reminder_time`, or takes its reminder away. A reminder time that is
/// set anew is a reminder that was not handled yet.
pub fn update_event_reminder(store: &mut EventStore, event_id: i32, reminder_time: Option<String>)
    ensures
        final(store)@ == with_reminder(old(store)@, event_id, reminder_time),
{
    let mut i: usize = 0;
    while i < store.events.len()
        invariant
            i <= store.events.len(),
            store.events.len() == old(store).events.len(),
            forall|k: int| 0 <= k < i ==> (#[trigger] store@[k]) == with_reminder(
                old(store)@,
                event_id,
                reminder_time,
            )[k],
            forall|k: int| i <= k < store.events.len() ==> (#[trigger] store@[k]) == old(store)@[k],
        decreases store.events.len() - i,
    {
        let ghost before = store@;
        if store.events[i].event.id == event_id {
            store.events[i].event.reminder_time = reminder_time.clone();
            store.events[i].event.reminder_triggered = false;
        }
        assert forall|k: int| 0 <= k < i + 1 implies (#[trigger] store@[k]) == with_reminder(
            old(store)@,
            event_id,
            reminder_time,
        )[k] by {
            if k < i {
                assert(store@[k] == before[k]);
            } else {
                assert(before[k] == old(store)@[k]);
            }
        }
        assert forall|k: int| i + 1 <= k < store.events.len() implies (#[trigger] store@[k])
            == old(store)@[k] by {
            assert(store@[k] == before[k]);
        }
        i = i + 1;
    }
    assert(store@ =~= with_reminder(old(store)@, event_id, reminder_time));
}

/// The event has a reminder time between `from` and `until`, both
/// included, handled or not.
pub open spec fn reminds_between(event: Event, from: Seq<char>, until: Seq<char>) -> bool {
    event.reminder_time is Some && lex_between(from, event.reminder_time->0@, until)
}

/// The identifiers of the events that have a reminder time between `from`
/// and `until`, in the order of the store.
pub open spec fn reminder_ids(events: Seq<EventDetailsView>, from: Seq<char>, until: Seq<char>) -> Seq<
    i32,
> {
    events.filter(|details: EventDetailsView| reminds_between(details.event, from, until)).map_values(
        |details: EventDetailsView| details.event.id,
    )
}

/// The identifiers of the events that have a reminder time between `from`
/// and `until`, both included, in the order of the store.
pub fn reminder_ids_between(store: &EventStore, from: &str, until: &str) -> (ids: Vec<i32>)
    ensures
        ids@ == reminder_ids(store@, from@, until@),
{
    let ghost pred = |details: EventDetailsView| reminds_between(details.event, from@, until@);
    let ghost id_of = |details: EventDetailsView| details.event.id;
    let mut ids: Vec<i32> = Vec::new();
    let mut i: usize = 0;
    proof {
        reveal(Seq::filter);
        assert(store@.take(0).filter(pred) =~= Seq::<EventDetailsView>::empty());
        assert(ids@ =~= store@.take(0).filter(pred).map_values(id_of));
    }
    while i < store.events.len()
        invariant
            i <= store.events.len(),
            pred == (|details: EventDetailsView| reminds_between(details.event, from@, until@)),
            id_of == (|details: EventDetailsView| details.event.id),
            ids@ == store@.take(i as int).filter(pred).map_values(id_of),
        decreases store.events.len() - i,
    {
        proof {
            lemma_filter_push(store@.take(i as int), store@[i as int], pred);
            assert(store@.take(i + 1) =~= store@.take(i as int).push(store@[i as int]));
        }
        let due = match &store.events[i].event.reminder_time {
            Some(time) => text_between(from, time.as_str(), until),
            None => false,
        };
        if due {
            ids.push(store.events[i].event.id);
            assert(ids@ =~= store@.take(i + 1).filter(pred).map_values(id_of));
        }
        i = i + 1;
    }
    assert(store@.take(i as int) =~= store@);
    ids
}

/// The identifiers of the events whose reminder falls on the day `today`,
/// where the calendar can write the day.
pub open spec fn today_reminder_ids(events: Seq<EventDetailsView>, today: int) -> Option<Seq<i32>> {
    match date_of(today) {
        Some(date) => Some(reminder_ids(events, day_start(date), day_end(date))),
        None => None,
    }
}

/// The identifiers of the events whose reminder falls on the day of `now`,
/// from its first second to its last, handled or not; nothing where the
/// day of `now` cannot be written.
pub fn fetch_today_reminder_event_ids(store: &EventStore, now: &LocalTime) -> (ids: Option<
    Vec<i32>,
>)
    ensures
        match ids {
            Some(found) => today_reminder_ids(store@, now.days_from_ce as int) == Some(found@),
            None => today_reminder_ids(store@, now.days_from_ce as int) is None,
        },
{
    let date = match date_text(now.days_from_ce) {
        Some(text) => text,
        None => {
            return None;
        },
    };
    let mut from = String::new();
    from.append(date.as_str());
    from.append(" 00:00:00");
    let mut until = String::new();
    until.append(date.as_str());
    until.append(" 23:59:59");
    assert(from@ =~= day_start(date@));
    assert(until@ =~= day_end(date@));
    Some(reminder_ids_between(store, from.as_str(), until.as_str()))
}

/// A notification as the sink takes it.
#[derive(Debug)]
pub struct Notification {
    pub event_id: i32,
    pub title: String,
    pub body: String,
}

/// A notification as a mathematical value.
pub struct NotificationView {
    pub event_id: i32,
    pub title: Seq<char>,
    pub body: Seq<char>,
}

impl View for Notification {
    type V = NotificationView;

    open spec fn view(&self) -> NotificationView {
        NotificationView { event_id: self.event_id, title: self.title@, body: self.body@ }
    }
}

/// The views of notifications, in their order.
pub open spec fn notices_of(notifications: Seq<Notification>) -> Seq<NotificationView> {
    notifications.map_values(|notification: Notification| notification@)
}

/// The names of the contacts, in their order.
pub open spec fn contact_names(contacts: Seq<Contact>) -> Seq<Seq<char>> {
    contacts.map_values(|contact: Contact| contact.name@)
}

/// The names of the contacts, in their order, with an enumeration comma
/// between two of them.
pub open spec fn joined_names(contacts: Seq<Contact>) -> Seq<char> {
    joined(contact_names(contacts), "、"@)
}

/// The names of the contacts, in their order.
pub fn names_of(contacts: &Vec<Contact>) -> (names: Vec<String>)
    ensures
        texts_of(names@) == contact_names(contacts@),
{
    let mut names: Vec<String> = Vec::new();
    let mut i: usize = 0;
    assert(texts_of(names@) =~= contact_names(contacts@.take(0)));
    while i < contacts.len()
        invariant
            i <= contacts.len(),
            texts_of(names@) == contact_names(contacts@.take(i as int)),
        decreases contacts.len() - i,
    {
        let ghost before = names@;
        names.push(contacts[i].name.clone());
        assert(texts_of(names@) =~= texts_of(before).push(contacts@[i as int].name@));
        assert(contact_names(contacts@.take(i + 1)) =~= contact_names(
            contacts@.take(i as int),
        ).push(contacts@[i as int].name@));
        i = i + 1;
    }
    assert(contacts@.take(i as int) =~= contacts@);
    names
}

/// The title of the notification for an event.
pub open spec fn notification_title(details: EventDetailsView) -> Seq<char> {
    "事件提醒: "@ + details.event.title@
}

/// The line of a notification that names the project, where the event has
/// one.
pub open spec fn project_line(project_name: Option<String>) -> Seq<char> {
    match project_name {
        Some(name) => "项目: "@ + name@ + "\n"@,
        None => Seq::empty(),
    }
}

/// The line of a notification that names the contacts, where the event has
/// any.
pub open spec fn contacts_line(contacts: Seq<Contact>) -> Seq<char> {
    if contacts.len() == 0 {
        Seq::empty()
    } else {
        "相关人员: "@ + joined_names(contacts)
    }
}

/// The body of the notification for an event: its project, then its
/// contacts.
pub open spec fn notification_body(details: EventDetailsView) -> Seq<char> {
    project_line(details.project_name) + contacts_line(details.contacts)
}

/// The notification for an event.
pub open spec fn notification_of(details: EventDetailsView) -> NotificationView {
    NotificationView {
        event_id: details.event.id,
        title: notification_title(details),
        body: notification_body(details),
    }
}

/// Writes the notification for an event.
pub fn compose_notification(details: &EventWithDetails) -> (notification: Notification)
    ensures
        notification@ == notification_of(details@),
{
    let mut title = String::new();
    title.append("事件提醒: ");
    title.append(details.event.title.as_str());
    assert(title@ =~= notification_title(details@));
    let mut body = String::new();
    match &details.project_name {
        Some(name) => {
            body.append("项目: ");
            body.append(name.as_str());
            body.append("\n");
        },
        None => {},
    }
    assert(body@ =~= project_line(details.project_name));
    if details.contacts.len() > 0 {
        body.append("相关人员: ");
        let names = names_of(&details.contacts);
        push_joined(&mut body, &names, "、");
    }
    assert(body@ =~= notification_body(details@));
    Notification { event_id: details.event.id, title, body }
}

/// The notifications of a tick with the window: one for each reminder
/// that is due, in the order of the store.
pub open spec fn tick_notices(events: Seq<EventDetailsView>, window: Window) -> Seq<
    NotificationView,
> {
    due_events(events, window).map_values(|details: EventDetailsView| notification_of(details))
}

/// One tick with the window from `from`, not included, to `until`,
/// included: hands out the notification of every reminder that is due and
/// marks the reminder as handled, whatever becomes of the notification.
pub fn deliver_due(store: &mut EventStore, from: &str, until: &str) -> (notifications: Vec<
    Notification,
>)
    ensures
        final(store)@ == after_tick(old(store)@, (Window { from: from@, until: until@ })),
        notices_of(notifications@) == tick_notices(
            old(store)@,
            (Window { from: from@, until: until@ }),
        ),
        notifications@.len() == due_events(
            old(store)@,
            (Window { from: from@, until: until@ }),
        ).len(),
        final(store)@.len() == old(store)@.len(),
{
    let ghost window = Window { from: from@, until: until@ };
    let ghost pred = |details: EventDetailsView| is_due(details.event, window);
    let ghost notice = |details: EventDetailsView| notification_of(details);
    let mut notifications: Vec<Notification> = Vec::new();
    let mut i: usize = 0;
    proof {
        reveal(Seq::filter);
        assert(old(store)@.take(0).filter(pred) =~= Seq::<EventDetailsView>::empty());
        assert(notices_of(notifications@) =~= old(store)@.take(0).filter(pred).map_values(
            notice,
        ));
    }
    while i < store.events.len()
        invariant
            i <= store.events.len(),
            store.events.len() == old(store).events.len(),
            window == (Window { from: from@, until: until@ }),
            pred == (|details: EventDetailsView| is_due(details.event, window)),
            notice == (|details: EventDetailsView| notification_of(details)),
            notices_of(notifications@) == old(store)@.take(i as int).filter(pred).map_values(
                notice,
            ),
            forall|k: int| 0 <= k < i ==> (#[trigger] store@[k]) == after_tick(
                old(store)@,
                window,
            )[k],
            forall|k: int| i <= k < store.events.len() ==> (#[trigger] store@[k]) == old(store)@[k],
        decreases store.events.len() - i,
    {
        let ghost before = store@;
        proof {
            lemma_filter_push(old(store)@.take(i as int), old(store)@[i as int], pred);
            assert(old(store)@.take(i + 1) =~= old(store)@.take(i as int).push(
                old(store)@[i as int],
            ));
            assert(store@[i as int] == old(store)@[i as int]);
        }
        if reminder_is_due(&store.events[i].event, from, until) {
            let ghost sent = notifications@;
            let notification = compose_notification(&store.events[i]);
            notifications.push(notification);
            store.events[i].event.reminder_triggered = true;
            assert(notices_of(notifications@) =~= notices_of(sent).push(
                notification_of(old(store)@[i as int]),
            ));
            assert(notices_of(notifications@) =~= old(store)@.take(i + 1).filter(
                pred,
            ).map_values(notice));
        }
        assert forall|k: int| 0 <= k < i + 1 implies (#[trigger] store@[k]) == after_tick(
            old(store)@,
            window,
        )[k] by {
            if k < i {
                assert(store@[k] == before[k]);
            } else {
                assert(before[k] == old(store)@[k]);
            }
        }
        assert forall|k: int| i + 1 <= k < store.events.len() implies (#[trigger] store@[k])
            == old(store)@[k] by {
            assert(store@[k] == before[k]);
        }
        i = i + 1;
    }
    assert(old(store)@.take(i as int) =~= old(store)@);
    assert(store@ =~= after_tick(old(store)@, window));
    notifications
}

/// One tick of the reminders at `now`: hands out the notification of every
/// reminder that is due in the window of `now` and marks it as handled. A
/// tick whose window cannot be written hands out nothing and leaves the
/// store as it was.
pub fn reminder_tick(store: &mut EventStore, now: &LocalTime) -> (notifications: Vec<
    Notification,
>)
    ensures
        match window_of(*now) {
            Some(window) => {
                &&& final(store)@ == after_tick(old(store)@, window)
                &&& notices_of(notifications@) == tick_notices(old(store)@, window)
            },
            None => {
                &&& *final(store) == *old(store)
                &&& notifications@.len() == 0
            },
        },
{
    match reminder_window(now) {
        Some((from, until)) => deliver_due(store, from.as_str(), until.as_str()),
        None => Vec::new(),
    }
}

} // verus!

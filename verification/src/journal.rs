//! The entries that the tracker writes to the log when a project, a
//! contact, an event or an activity is created, and when an activity
//! changes its status. Their descriptions are the lines of the summaries.

use vstd::prelude::*;
use crate::audit::{
    insert_operation_log,
    logged,
    optional_id,
    optional_slice_view,
    AuditLog,
    OperationLogView,
};
use crate::calendar::{format_time, formatted_time, timestamp_of, timestamp_text, LocalTime};
use crate::errors::CoreError;
use crate::generator::title_stamp_pattern;
use crate::records::Contact;
use crate::seqs::lemma_filter_push;
use crate::text::{joined, push_joined, texts_of};

verus! {

/// The list of names that ends a description: `label` and the names with an
/// enumeration comma between them, or nothing where there are no names.
pub open spec fn names_clause(label: Seq<char>, names: Seq<Seq<char>>) -> Seq<char> {
    if names.len() == 0 {
        Seq::empty()
    } else {
        label + joined(names, "、"@)
    }
}

fn push_names_clause(out: &mut String, label: &str, names: &Vec<String>)
    ensures
        final(out)@ == old(out)@ + names_clause(label@, texts_of(names@)),
{
    if names.len() > 0 {
        out.append(label);
        push_joined(out, names, "、");
    }
    assert(final(out)@ =~= old(out)@ + names_clause(label@, texts_of(names@)));
}

/// The description of the creation of a project.
pub open spec fn project_creation_text(stamp: Seq<char>, name: Seq<char>) -> Seq<char> {
    stamp + "，新增项目「"@ + name + "」"@
}

/// The description of the creation of a contact, with its tags where it
/// has any.
pub open spec fn contact_creation_text(
    stamp: Seq<char>,
    name: Seq<char>,
    tags: Option<Seq<char>>,
) -> Seq<char> {
    stamp + "，新增联系人「"@ + name + "」"@ + match tags {
        Some(t) => if t.len() > 0 {
            "，标签："@ + t
        } else {
            Seq::empty()
        },
        None => Seq::empty(),
    }
}

/// The word for the kind of an event: the kind it was given, or the plain
/// word for an event.
pub open spec fn event_kind_word(event_type: Option<Seq<char>>) -> Seq<char> {
    match event_type {
        Some(kind) => kind,
        None => "事件"@,
    }
}

/// The description of the creation of an event, with its project where
/// it has one and the contacts that take part.
pub open spec fn event_creation_text(
    stamp: Seq<char>,
    title: Seq<char>,
    event_type: Option<Seq<char>>,
    project_name: Option<Seq<char>>,
    contact_names: Seq<Seq<char>>,
) -> Seq<char> {
    stamp + "，"@ + match project_name {
        Some(project) => "对项目「"@ + project + "」新增"@,
        None => "新增"@,
    } + event_kind_word(event_type) + "「"@ + title + "」"@ + names_clause(
        "，涉及："@,
        contact_names,
    )
}

/// The description of the creation of an activity, with the contacts it
/// is assigned to.
pub open spec fn activity_creation_text(
    stamp: Seq<char>,
    activity_name: Seq<char>,
    project_name: Seq<char>,
    assignee_names: Seq<Seq<char>>,
) -> Seq<char> {
    stamp + "，对项目「"@ + project_name + "」新增活动「"@ + activity_name + "」"@
        + names_clause("，负责人："@, assignee_names)
}

/// The description of a change of an activity's status.
pub open spec fn activity_status_text(
    stamp: Seq<char>,
    activity_name: Seq<char>,
    project_name: Seq<char>,
    old_status: Seq<char>,
    new_status: Seq<char>,
    assignee_names: Seq<Seq<char>>,
) -> Seq<char> {
    stamp + "，项目「"@ + project_name + "」的活动「"@ + activity_name + "」状态从「"@
        + old_status + "」变为「"@ + new_status + "」"@ + names_clause(
        "，涉及："@,
        assignee_names,
    )
}

/// Writes the description of the creation of a project.
pub fn describe_project_creation(stamp: &str, name: &str) -> (text: String)
    ensures
        text@ == project_creation_text(stamp@, name@),
{
    let mut text = String::new();
    text.append(stamp);
    text.append("，新增项目「");
    text.append(name);
    text.append("」");
    assert(text@ =~= project_creation_text(stamp@, name@));
    text
}

/// Writes the description of the creation of a contact.
pub fn describe_contact_creation(stamp: &str, name: &str, tags: Option<&str>) -> (text: String)
    ensures
        text@ == contact_creation_text(stamp@, name@, optional_slice_view(tags)),
{
    let mut text = String::new();
    text.append(stamp);
    text.append("，新增联系人「");
    text.append(name);
    text.append("」");
    match tags {
        Some(t) => {
            if t.unicode_len() > 0 {
                text.append("，标签：");
                text.append(t);
            }
        },
        None => {},
    }
    assert(text@ =~= contact_creation_text(stamp@, name@, optional_slice_view(tags)));
    text
}

/// Writes the description of the creation of an event.
pub fn describe_event_creation(
    stamp: &str,
    title: &str,
    event_type: Option<&str>,
    project_name: Option<&str>,
    contact_names: &Vec<String>,
) -> (text: String)
    ensures
        text@ == event_creation_text(
            stamp@,
            title@,
            optional_slice_view(event_type),
            optional_slice_view(project_name),
            texts_of(contact_names@),
        ),
{
    let mut text = String::new();
    text.append(stamp);
    text.append("，");
    match project_name {
        Some(project) => {
            text.append("对项目「");
            text.append(project);
            text.append("」新增");
        },
        None => {
            text.append("新增");
        },
    }
    match event_type {
        Some(kind) => {
            text.append(kind);
        },
        None => {
            text.append("事件");
        },
    }
    text.append("「");
    text.append(title);
    text.append("」");
    push_names_clause(&mut text, "，涉及：", contact_names);
    assert(text@ =~= event_creation_text(
        stamp@,
        title@,
        optional_slice_view(event_type),
        optional_slice_view(project_name),
        texts_of(contact_names@),
    ));
    text
}

/// Writes the description of the creation of an activity.
pub fn describe_activity_creation(
    stamp: &str,
    activity_name: &str,
    project_name: &str,
    assignee_names: &Vec<String>,
) -> (text: String)
    ensures
        text@ == activity_creation_text(
            stamp@,
            activity_name@,
            project_name@,
            texts_of(assignee_names@),
        ),
{
    let mut text = String::new();
    text.append(stamp);
    text.append("，对项目「");
    text.append(project_name);
    text.append("」新增活动「");
    text.append(activity_name);
    text.append("」");
    push_names_clause(&mut text, "，负责人：", assignee_names);
    assert(text@ =~= activity_creation_text(
        stamp@,
        activity_name@,
        project_name@,
        texts_of(assignee_names@),
    ));
    text
}

/// Writes the description of a change of an activity's status.
pub fn describe_activity_status_change(
    stamp: &str,
    activity_name: &str,
    project_name: &str,
    old_status: &str,
    new_status: &str,
    assignee_names: &Vec<String>,
) -> (text: String)
    ensures
        text@ == activity_status_text(
            stamp@,
            activity_name@,
            project_name@,
            old_status@,
            new_status@,
            texts_of(assignee_names@),
        ),
{
    let mut text = String::new();
    text.append(stamp);
    text.append("，项目「");
    text.append(project_name);
    text.append("」的活动「");
    text.append(activity_name);
    text.append("」状态从「");
    text.append(old_status);
    text.append("」变为「");
    text.append(new_status);
    text.append("」");
    push_names_clause(&mut text, "，涉及：", assignee_names);
    assert(text@ =~= activity_status_text(
        stamp@,
        activity_name@,
        project_name@,
        old_status@,
        new_status@,
        texts_of(assignee_names@),
    ));
    text
}

/// The moment `now` as a description opens with it, and as the timestamp
/// of an entry's creation.
pub struct EntryStamps {
    pub stamp: Seq<char>,
    pub created_at: Seq<char>,
}

/// The two written forms of `now`, where the calendar knows the reading.
pub open spec fn entry_stamps_of(now: LocalTime) -> Option<EntryStamps> {
    match (
        formatted_time(
            now.days_from_ce as int,
            now.seconds_from_midnight as int,
            title_stamp_pattern(),
        ),
        timestamp_of(now),
    ) {
        (Some(stamp), Some(created_at)) => Some(EntryStamps { stamp, created_at }),
        _ => None,
    }
}

/// The two written forms of `now`.
pub fn entry_stamps(now: &LocalTime) -> (stamps: Option<(String, String)>)
    ensures
        match stamps {
            Some((stamp, created_at)) => entry_stamps_of(*now) == Some(
                EntryStamps { stamp: stamp@, created_at: created_at@ },
            ),
            None => entry_stamps_of(*now) is None,
        },
{
    let stamp = format_time(now.days_from_ce, now.seconds_from_midnight, "%Y年%m月%d日 %H:%M");
    let created_at = timestamp_text(now);
    match (stamp, created_at) {
        (Some(stamp), Some(created_at)) => Some((stamp, created_at)),
        _ => None,
    }
}

/// What an attempt to log `entry` at `now` leaves and returns: the entry in
/// the log and its identifier; or, where `now` cannot be written or the log
/// is full, an error and the log as it was. The entry is a function of the
/// two written forms of `now`.
pub open spec fn log_outcome(
    before: AuditLog,
    after: AuditLog,
    outcome: Result<i64, CoreError>,
    now: LocalTime,
    entry: spec_fn(EntryStamps) -> OperationLogView,
) -> bool {
    match entry_stamps_of(now) {
        None => outcome == Err::<i64, CoreError>(CoreError::UnknownMoment) && after == before,
        Some(stamps) => if before.next_id == i32::MAX {
            outcome == Err::<i64, CoreError>(CoreError::StoreUnavailable) && after == before
        } else {
            outcome == Ok::<i64, CoreError>(before.next_id as i64) && logged(
                before,
                after,
                entry(stamps),
            )
        },
    }
}

/// The entry for the creation of a project.
pub open spec fn project_creation_entry(project_id: i32, name: Seq<char>, stamps: EntryStamps) -> OperationLogView {
    OperationLogView {
        id: 0,
        operation_type: "create"@,
        entity_type: "project"@,
        entity_id: project_id as int,
        entity_name: name,
        old_value: None,
        new_value: None,
        related_entities: None,
        project_id: None,
        project_name: None,
        description: project_creation_text(stamps.stamp, name),
        created_at: stamps.created_at,
    }
}

/// Logs the creation of a project.
pub fn log_project_creation(log: &mut AuditLog, project_id: i32, name: &str, now: &LocalTime) -> (outcome:
    Result<i64, CoreError>)
    requires
        old(log).well_formed(),
    ensures
        final(log).well_formed(),
        log_outcome(
            *old(log),
            *final(log),
            outcome,
            *now,
            |stamps: EntryStamps| project_creation_entry(project_id, name@, stamps),
        ),
{
    let (stamp, created_at) = match entry_stamps(now) {
        Some(stamps) => stamps,
        None => {
            return Err(CoreError::UnknownMoment);
        },
    };
    let description = describe_project_creation(stamp.as_str(), name);
    insert_operation_log(
        log,
        "create",
        "project",
        project_id,
        name,
        None,
        None,
        None,
        None,
        None,
        description.as_str(),
        created_at.as_str(),
    )
}

/// The entry for the creation of a contact.
pub open spec fn contact_creation_entry(
    contact_id: i32,
    name: Seq<char>,
    tags: Option<Seq<char>>,
    stamps: EntryStamps,
) -> OperationLogView {
    OperationLogView {
        id: 0,
        operation_type: "create"@,
        entity_type: "contact"@,
        entity_id: contact_id as int,
        entity_name: name,
        old_value: None,
        new_value: None,
        related_entities: None,
        project_id: None,
        project_name: None,
        description: contact_creation_text(stamps.stamp, name, tags),
        created_at: stamps.created_at,
    }
}

/// Logs the creation of a contact.
pub fn log_contact_creation(
    log: &mut AuditLog,
    contact_id: i32,
    name: &str,
    tags: Option<&str>,
    now: &LocalTime,
) -> (outcome: Result<i64, CoreError>)
    requires
        old(log).well_formed(),
    ensures
        final(log).well_formed(),
        log_outcome(
            *old(log),
            *final(log),
            outcome,
            *now,
            |stamps: EntryStamps|
                contact_creation_entry(contact_id, name@, optional_slice_view(tags), stamps),
        ),
{
    let (stamp, created_at) = match entry_stamps(now) {
        Some(stamps) => stamps,
        None => {
            return Err(CoreError::UnknownMoment);
        },
    };
    let description = describe_contact_creation(stamp.as_str(), name, tags);
    insert_operation_log(
        log,
        "create",
        "contact",
        contact_id,
        name,
        None,
        None,
        None,
        None,
        None,
        description.as_str(),
        created_at.as_str(),
    )
}

/// The entry for the creation of an event.
pub open spec fn event_creation_entry(
    event_id: i32,
    title: Seq<char>,
    event_type: Option<Seq<char>>,
    project_id: Option<int>,
    project_name: Option<Seq<char>>,
    contact_names: Seq<Seq<char>>,
    stamps: EntryStamps,
) -> OperationLogView {
    OperationLogView {
        id: 0,
        operation_type: "create"@,
        entity_type: "event"@,
        entity_id: event_id as int,
        entity_name: title,
        old_value: None,
        new_value: None,
        related_entities: None,
        project_id,
        project_name,
        description: event_creation_text(
            stamps.stamp,
            title,
            event_type,
            project_name,
            contact_names,
        ),
        created_at: stamps.created_at,
    }
}

/// Logs the creation of an event, once its contacts are known.
pub fn log_event_creation(
    log: &mut AuditLog,
    event_id: i32,
    title: &str,
    event_type: Option<&str>,
    project_id: Option<i32>,
    project_name: Option<&str>,
    contact_names: &Vec<String>,
    now: &LocalTime,
) -> (outcome: Result<i64, CoreError>)
    requires
        old(log).well_formed(),
    ensures
        final(log).well_formed(),
        log_outcome(
            *old(log),
            *final(log),
            outcome,
            *now,
            |stamps: EntryStamps|
                event_creation_entry(
                    event_id,
                    title@,
                    optional_slice_view(event_type),
                    optional_id(project_id),
                    optional_slice_view(project_name),
                    texts_of(contact_names@),
                    stamps,
                ),
        ),
{
    let (stamp, created_at) = match entry_stamps(now) {
        Some(stamps) => stamps,
        None => {
            return Err(CoreError::UnknownMoment);
        },
    };
    let description = describe_event_creation(
        stamp.as_str(),
        title,
        event_type,
        project_name,
        contact_names,
    );
    insert_operation_log(
        log,
        "create",
        "event",
        event_id,
        title,
        None,
        None,
        None,
        project_id,
        project_name,
        description.as_str(),
        created_at.as_str(),
    )
}

/// The entry for the creation of an activity.
pub open spec fn activity_creation_entry(
    activity_id: i32,
    activity_name: Seq<char>,
    project_id: i32,
    project_name: Seq<char>,
    assignee_names: Seq<Seq<char>>,
    stamps: EntryStamps,
) -> OperationLogView {
    OperationLogView {
        id: 0,
        operation_type: "create"@,
        entity_type: "activity"@,
        entity_id: activity_id as int,
        entity_name: activity_name,
        old_value: None,
        new_value: None,
        related_entities: None,
        project_id: Some(project_id as int),
        project_name: Some(project_name),
        description: activity_creation_text(
            stamps.stamp,
            activity_name,
            project_name,
            assignee_names,
        ),
        created_at: stamps.created_at,
    }
}

/// Logs the creation of an activity.
pub fn log_activity_creation(
    log: &mut AuditLog,
    activity_id: i32,
    activity_name: &str,
    project_id: i32,
    project_name: &str,
    assignee_names: &Vec<String>,
    now: &LocalTime,
) -> (outcome: Result<i64, CoreError>)
    requires
        old(log).well_formed(),
    ensures
        final(log).well_formed(),
        log_outcome(
            *old(log),
            *final(log),
            outcome,
            *now,
            |stamps: EntryStamps|
                activity_creation_entry(
                    activity_id,
                    activity_name@,
                    project_id,
                    project_name@,
                    texts_of(assignee_names@),
                    stamps,
                ),
        ),
{
    let (stamp, created_at) = match entry_stamps(now) {
        Some(stamps) => stamps,
        None => {
            return Err(CoreError::UnknownMoment);
        },
    };
    let description = describe_activity_creation(
        stamp.as_str(),
        activity_name,
        project_name,
        assignee_names,
    );
    insert_operation_log(
        log,
        "create",
        "activity",
        activity_id,
        activity_name,
        None,
        None,
        None,
        Some(project_id),
        Some(project_name),
        description.as_str(),
        created_at.as_str(),
    )
}

/// The entry for a change of an activity's status.
pub open spec fn activity_status_entry(
    activity_id: i32,
    activity_name: Seq<char>,
    project_name: Seq<char>,
    old_status: Seq<char>,
    new_status: Seq<char>,
    assignee_names: Seq<Seq<char>>,
    stamps: EntryStamps,
) -> OperationLogView {
    OperationLogView {
        id: 0,
        operation_type: "update"@,
        entity_type: "activity"@,
        entity_id: activity_id as int,
        entity_name: activity_name,
        old_value: None,
        new_value: None,
        related_entities: None,
        project_id: None,
        project_name: None,
        description: activity_status_text(
            stamps.stamp,
            activity_name,
            project_name,
            old_status,
            new_status,
            assignee_names,
        ),
        created_at: stamps.created_at,
    }
}

/// Logs a change of an activity's status.
pub fn log_activity_status_change(
    log: &mut AuditLog,
    activity_id: i32,
    activity_name: &str,
    project_name: &str,
    old_status: &str,
    new_status: &str,
    assignee_names: &Vec<String>,
    now: &LocalTime,
) -> (outcome: Result<i64, CoreError>)
    requires
        old(log).well_formed(),
    ensures
        final(log).well_formed(),
        log_outcome(
            *old(log),
            *final(log),
            outcome,
            *now,
            |stamps: EntryStamps|
                activity_status_entry(
                    activity_id,
                    activity_name@,
                    project_name@,
                    old_status@,
                    new_status@,
                    texts_of(assignee_names@),
                    stamps,
                ),
        ),
{
    let (stamp, created_at) = match entry_stamps(now) {
        Some(stamps) => stamps,
        None => {
            return Err(CoreError::UnknownMoment);
        },
    };
    let description = describe_activity_status_change(
        stamp.as_str(),
        activity_name,
        project_name,
        old_status,
        new_status,
        assignee_names,
    );
    insert_operation_log(
        log,
        "update",
        "activity",
        activity_id,
        activity_name,
        None,
        None,
        None,
        None,
        None,
        description.as_str(),
        created_at.as_str(),
    )
}

/// The names of the contacts whose identifier is among `ids`, in the
/// contacts' order.
pub open spec fn names_among(contacts: Seq<Contact>, ids: Seq<i32>) -> Seq<Seq<char>> {
    contacts.filter(|contact: Contact| ids.contains(contact.id)).map_values(
        |contact: Contact| contact.name@,
    )
}

/// Whether `id` is among `ids`.
pub fn id_among(ids: &Vec<i32>, id: i32) -> (found: bool)
    ensures
        found == ids@.contains(id),
{
    let mut i: usize = 0;
    while i < ids.len()
        invariant
            i <= ids.len(),
            forall|k: int| 0 <= k < i ==> ids@[k] != id,
        decreases ids.len() - i,
    {
        if ids[i] == id {
            assert(ids@[i as int] == id);
            return true;
        }
        i = i + 1;
    }
    false
}

/// The names of the contacts whose identifier is among `ids`, in the
/// contacts' order.
pub fn contact_names_among(contacts: &Vec<Contact>, ids: &Vec<i32>) -> (names: Vec<String>)
    ensures
        texts_of(names@) == names_among(contacts@, ids@),
{
    let ghost pred = |contact: Contact| ids@.contains(contact.id);
    let ghost name_of = |contact: Contact| contact.name@;
    let mut names: Vec<String> = Vec::new();
    let mut i: usize = 0;
    proof {
        reveal(Seq::filter);
        assert(contacts@.take(0).filter(pred) =~= Seq::<Contact>::empty());
        assert(texts_of(names@) =~= contacts@.take(0).filter(pred).map_values(name_of));
    }
    while i < contacts.len()
        invariant
            i <= contacts.len(),
            pred == (|contact: Contact| ids@.contains(contact.id)),
            name_of == (|contact: Contact| contact.name@),
            texts_of(names@) == contacts@.take(i as int).filter(pred).map_values(name_of),
        decreases contacts.len() - i,
    {
        proof {
            lemma_filter_push(contacts@.take(i as int), contacts@[i as int], pred);
            assert(contacts@.take(i + 1) =~= contacts@.take(i as int).push(contacts@[i as int]));
        }
        if id_among(ids, contacts[i].id) {
            let ghost before = names@;
            names.push(contacts[i].name.clone());
            assert(texts_of(names@) =~= texts_of(before).push(contacts@[i as int].name@));
            assert(texts_of(names@) =~= contacts@.take(i + 1).filter(pred).map_values(name_of));
        }
        i = i + 1;
    }
    assert(contacts@.take(i as int) =~= contacts@);
    names
}

} // verus!

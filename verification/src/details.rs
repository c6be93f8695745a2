//! Putting records together for display: an event with its contacts and
//! the name of its project, an activity with the contacts it is assigned
//! to.

use std::collections::HashMap;
use vstd::prelude::*;
use crate::records::{clone_contacts, Contact, Event, EventDetailsView, EventWithDetails};

verus! {

broadcast use vstd::std_specs::hash::group_hash_axioms;

/// The name of the project `project_id` among `names`, where there is such
/// a project.
pub open spec fn name_among(project_id: Option<i32>, names: Map<i32, String>) -> Option<String> {
    match project_id {
        Some(id) => if names.contains_key(id) {
            Some(names[id])
        } else {
            None
        },
        None => None,
    }
}

/// The name of the project `project_id`, where the event has a project and
/// the project is known.
pub fn project_name_of(project_id: Option<i32>, names: &HashMap<i32, String>) -> (name: Option<
    String,
>)
    ensures
        name == name_among(project_id, names@),
{
    match project_id {
        Some(id) => match names.get(&id) {
            Some(found) => Some(found.clone()),
            None => None,
        },
        None => None,
    }
}

/// The event at `i` with its contacts and the name of its project.
pub open spec fn detailed(
    events: Seq<Event>,
    contacts: Seq<Vec<Contact>>,
    names: Map<i32, String>,
    i: int,
) -> EventDetailsView {
    EventDetailsView {
        event: events[i],
        contacts: contacts[i]@,
        project_name: name_among(events[i].project_id, names),
    }
}

/// Puts each event together with its contacts, which stand at the event's
/// place in `contacts`, and with the name of its project. Nothing is put
/// together where the two lists differ in length.
pub fn attach_event_details(
    events: &Vec<Event>,
    contacts: &Vec<Vec<Contact>>,
    names: &HashMap<i32, String>,
) -> (details: Option<Vec<EventWithDetails>>)
    ensures
        events.len() != contacts.len() ==> details is None,
        events.len() == contacts.len() ==> details is Some && details->0.len() == events.len()
            && forall|i: int|
            0 <= i < events.len() ==> (#[trigger] details->0[i])@ == detailed(
                events@,
                contacts@,
                names@,
                i,
            ),
{
    if events.len() != contacts.len() {
        return None;
    }
    let mut details: Vec<EventWithDetails> = Vec::new();
    let mut i: usize = 0;
    while i < events.len()
        invariant
            i <= events.len(),
            events.len() == contacts.len(),
            details.len() == i,
            forall|k: int|
                0 <= k < i ==> (#[trigger] details[k])@ == detailed(
                    events@,
                    contacts@,
                    names@,
                    k,
                ),
        decreases events.len() - i,
    {
        details.push(
            EventWithDetails {
                event: events[i].clone(),
                contacts: clone_contacts(&contacts[i]),
                project_name: project_name_of(events[i].project_id, names),
            },
        );
        i = i + 1;
    }
    Some(details)
}

/// The name of the project of an activity for display: the project's
/// name, or the empty name where the project is not known.
pub fn activity_project_name(project_id: i32, names: &HashMap<i32, String>) -> (name: String)
    ensures
        names@.contains_key(project_id) ==> name == names@[project_id],
        !names@.contains_key(project_id) ==> name@ == Seq::<char>::empty(),
{
    match names.get(&project_id) {
        Some(found) => found.clone(),
        None => String::new(),
    }
}

} // verus!

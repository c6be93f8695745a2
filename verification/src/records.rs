//! The records of the tracker: projects, contacts, events, files and
//! activities, as the stores hand them out.

use vstd::prelude::*;

verus! {

/// A project.
#[derive(Debug)]
pub struct Project {
    pub id: i32,
    pub name: String,
    pub description: Option<String>,
    pub created_at: String,
    pub updated_at: String,
}

/// A contact.
#[derive(Debug)]
pub struct Contact {
    pub id: i32,
    pub name: String,
    pub title: Option<String>,
    pub notes: Option<String>,
    /// Tags, separated by commas.
    pub tags: Option<String>,
    pub phone: Option<String>,
    pub email: Option<String>,
    pub address: Option<String>,
    pub company: Option<String>,
    pub created_at: String,
    pub updated_at: String,
}

impl Clone for Contact {
    fn clone(&self) -> (copy: Self)
        ensures
            copy == *self,
    {
        Contact {
            id: self.id,
            name: self.name.clone(),
            title: self.title.clone(),
            notes: self.notes.clone(),
            tags: self.tags.clone(),
            phone: self.phone.clone(),
            email: self.email.clone(),
            address: self.address.clone(),
            company: self.company.clone(),
            created_at: self.created_at.clone(),
            updated_at: self.updated_at.clone(),
        }
    }
}

/// The part that a contact plays in a project.
#[derive(Debug)]
pub struct ProjectContact {
    pub project_id: i32,
    pub contact_id: i32,
    pub role: Option<String>,
    pub notes: Option<String>,
    pub created_at: String,
}

/// A scheduled event. Its reminder, where it has one, is due at
/// `reminder_time`; `reminder_triggered` says that the reminder was handled.
#[derive(Debug)]
pub struct Event {
    pub id: i32,
    pub title: String,
    pub description: Option<String>,
    pub event_date: String,
    pub project_id: Option<i32>,
    pub event_type: Option<String>,
    pub reminder_time: Option<String>,
    pub reminder_triggered: bool,
    pub created_at: String,
    pub updated_at: String,
}

impl Clone for Event {
    fn clone(&self) -> (copy: Self)
        ensures
            copy == *self,
    {
        Event {
            id: self.id,
            title: self.title.clone(),
            description: self.description.clone(),
            event_date: self.event_date.clone(),
            project_id: self.project_id,
            event_type: self.event_type.clone(),
            reminder_time: self.reminder_time.clone(),
            reminder_triggered: self.reminder_triggered,
            created_at: self.created_at.clone(),
            updated_at: self.updated_at.clone(),
        }
    }
}

/// An event with the contacts that take part in it and the name of its
/// project.
#[derive(Debug)]
pub struct EventWithDetails {
    pub event: Event,
    pub contacts: Vec<Contact>,
    pub project_name: Option<String>,
}

/// An event with its details as a mathematical value: the contacts as a
/// sequence.
pub struct EventDetailsView {
    pub event: Event,
    pub contacts: Seq<Contact>,
    pub project_name: Option<String>,
}

impl View for EventWithDetails {
    type V = EventDetailsView;

    open spec fn view(&self) -> EventDetailsView {
        EventDetailsView {
            event: self.event,
            contacts: self.contacts@,
            project_name: self.project_name,
        }
    }
}

/// Copies of the contacts, in their order.
pub fn clone_contacts(contacts: &Vec<Contact>) -> (copies: Vec<Contact>)
    ensures
        copies@ == contacts@,
{
    let mut copies: Vec<Contact> = Vec::new();
    let mut i: usize = 0;
    while i < contacts.len()
        invariant
            i <= contacts.len(),
            copies@ == contacts@.take(i as int),
        decreases contacts.len() - i,
    {
        copies.push(contacts[i].clone());
        assert(contacts@.take(i + 1) =~= contacts@.take(i as int).push(contacts@[i as int]));
        i = i + 1;
    }
    assert(contacts@.take(i as int) =~= contacts@);
    copies
}

impl Clone for EventWithDetails {
    fn clone(&self) -> (copy: Self)
        ensures
            copy@ == self@,
    {
        EventWithDetails {
            event: self.event.clone(),
            contacts: clone_contacts(&self.contacts),
            project_name: self.project_name.clone(),
        }
    }
}

/// A file kept with a project.
#[derive(Debug)]
pub struct ProjectFile {
    pub id: i32,
    pub project_id: i32,
    pub original_name: String,
    pub stored_name: String,
    pub file_path: String,
    pub file_size: Option<i64>,
    pub file_type: Option<String>,
    pub version: i32,
    pub created_at: String,
    pub updated_at: String,
}

impl Clone for ProjectFile {
    fn clone(&self) -> (copy: Self)
        ensures
            copy == *self,
    {
        ProjectFile {
            id: self.id,
            project_id: self.project_id,
            original_name: self.original_name.clone(),
            stored_name: self.stored_name.clone(),
            file_path: self.file_path.clone(),
            file_size: self.file_size,
            file_type: self.file_type.clone(),
            version: self.version,
            created_at: self.created_at.clone(),
            updated_at: self.updated_at.clone(),
        }
    }
}

/// A file with the name of its project.
#[derive(Debug)]
pub struct ProjectFileWithProject {
    pub file: ProjectFile,
    pub project_name: String,
}

/// An activity of a project.
#[derive(Debug)]
pub struct ProjectActivity {
    pub id: i32,
    pub project_id: i32,
    pub name: String,
    pub description: Option<String>,
    pub estimated_completion_date: Option<String>,
    pub status: String,
    pub activated_at: Option<String>,
    pub paused_at: Option<String>,
    pub completed_at: Option<String>,
    pub created_at: String,
    pub updated_at: String,
}

impl Clone for ProjectActivity {
    fn clone(&self) -> (copy: Self)
        ensures
            copy == *self,
    {
        ProjectActivity {
            id: self.id,
            project_id: self.project_id,
            name: self.name.clone(),
            description: self.description.clone(),
            estimated_completion_date: self.estimated_completion_date.clone(),
            status: self.status.clone(),
            activated_at: self.activated_at.clone(),
            paused_at: self.paused_at.clone(),
            completed_at: self.completed_at.clone(),
            created_at: self.created_at.clone(),
            updated_at: self.updated_at.clone(),
        }
    }
}

/// An activity with the contacts it is assigned to.
#[derive(Debug)]
pub struct ActivityWithDetails {
    pub activity: ProjectActivity,
    pub assignees: Vec<Contact>,
}

} // verus!

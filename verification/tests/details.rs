use std::collections::HashMap;

use mindmirror::details::{activity_project_name, attach_event_details, project_name_of};
use mindmirror::records::{Contact, Event};

fn contact(id: i32, name: &str) -> Contact {
    Contact {
        id,
        name: name.to_string(),
        title: None,
        notes: None,
        tags: None,
        phone: None,
        email: None,
        address: None,
        company: None,
        created_at: String::new(),
        updated_at: String::new(),
    }
}

fn event(id: i32, project_id: Option<i32>) -> Event {
    Event {
        id,
        title: format!("event {}", id),
        description: None,
        event_date: "2024-06-01".to_string(),
        project_id,
        event_type: None,
        reminder_time: None,
        reminder_triggered: false,
        created_at: String::new(),
        updated_at: String::new(),
    }
}

fn names() -> HashMap<i32, String> {
    let mut names = HashMap::new();
    names.insert(1, "Atlas".to_string());
    names.insert(2, "House".to_string());
    names
}

#[test]
fn project_name_is_looked_up() {
    assert_eq!(project_name_of(Some(2), &names()), Some("House".to_string()));
    assert_eq!(project_name_of(Some(3), &names()), None);
    assert_eq!(project_name_of(None, &names()), None);
}

#[test]
fn events_get_their_contacts_and_project() {
    let events = vec![event(10, Some(1)), event(11, None), event(12, Some(9))];
    let contacts = vec![vec![contact(1, "Ann"), contact(2, "Bob")], Vec::new(), vec![contact(3, "Cy")]];
    let details = attach_event_details(&events, &contacts, &names()).unwrap();
    let rows: Vec<(i32, Vec<&str>, Option<&str>)> = details
        .iter()
        .map(|d| {
            (
                d.event.id,
                d.contacts.iter().map(|c| c.name.as_str()).collect(),
                d.project_name.as_deref(),
            )
        })
        .collect();
    assert_eq!(
        rows,
        vec![(10, vec!["Ann", "Bob"], Some("Atlas")), (11, vec![], None), (12, vec!["Cy"], None)]
    );
}

#[test]
fn lists_of_unequal_length_are_refused() {
    let events = vec![event(10, Some(1))];
    assert!(attach_event_details(&events, &Vec::new(), &names()).is_none());
    assert!(attach_event_details(&Vec::new(), &Vec::new(), &names()).unwrap().is_empty());
}

#[test]
fn unknown_project_of_an_activity_has_the_empty_name() {
    assert_eq!(activity_project_name(1, &names()), "Atlas");
    assert_eq!(activity_project_name(7, &names()), "");
}

use chrono::Datelike;
use mindmirror::audit::AuditLog;
use mindmirror::calendar::LocalTime;
use mindmirror::errors::CoreError;
use mindmirror::journal::{
    contact_names_among, describe_activity_creation, describe_activity_status_change,
    describe_contact_creation, describe_event_creation, describe_project_creation, entry_stamps,
    id_among, log_activity_creation, log_activity_status_change, log_contact_creation,
    log_event_creation, log_project_creation,
};
use mindmirror::records::Contact;

fn now() -> LocalTime {
    LocalTime {
        days_from_ce: chrono::NaiveDate::from_ymd_opt(2024, 3, 9).unwrap().num_days_from_ce(),
        seconds_from_midnight: 14 * 3600 + 5 * 60 + 7,
    }
}

fn contact(id: i32, name: &str) -> Contact {
    Contact {
        id,
        name: name.to_string(),
        title: None,
        notes: None,
        tags: None,
        phone: None,
        email: None,
        address: None,
        company: None,
        created_at: String::new(),
        updated_at: String::new(),
    }
}

fn names(list: &[&str]) -> Vec<String> {
    list.iter().map(|n| n.to_string()).collect()
}

#[test]
fn stamps_of_an_entry() {
    assert_eq!(
        entry_stamps(&now()),
        Some(("2024年03月09日 14:05".to_string(), "2024-03-09 14:05:07".to_string()))
    );
    let late = LocalTime { days_from_ce: 1, seconds_from_midnight: 86_400 };
    assert_eq!(entry_stamps(&late), None);
}

#[test]
fn project_creation_is_described() {
    assert_eq!(describe_project_creation("T", "Atlas"), "T，新增项目「Atlas」");
}

#[test]
fn contact_creation_is_described_with_its_tags() {
    assert_eq!(describe_contact_creation("T", "Ann", None), "T，新增联系人「Ann」");
    assert_eq!(describe_contact_creation("T", "Ann", Some("")), "T，新增联系人「Ann」");
    assert_eq!(
        describe_contact_creation("T", "Ann", Some("client,urgent")),
        "T，新增联系人「Ann」，标签：client,urgent"
    );
}

#[test]
fn event_creation_is_described() {
    assert_eq!(
        describe_event_creation("T", "kickoff", None, None, &Vec::new()),
        "T，新增事件「kickoff」"
    );
    assert_eq!(
        describe_event_creation("T", "kickoff", Some("会议"), Some("Atlas"), &names(&["Ann", "Bob"])),
        "T，对项目「Atlas」新增会议「kickoff」，涉及：Ann、Bob"
    );
    assert_eq!(
        describe_event_creation("T", "kickoff", Some("会议"), None, &names(&["Ann"])),
        "T，新增会议「kickoff」，涉及：Ann"
    );
}

#[test]
fn activity_creation_is_described() {
    assert_eq!(
        describe_activity_creation("T", "paint", "House", &Vec::new()),
        "T，对项目「House」新增活动「paint」"
    );
    assert_eq!(
        describe_activity_creation("T", "paint", "House", &names(&["Ann", "Bob"])),
        "T，对项目「House」新增活动「paint」，负责人：Ann、Bob"
    );
}

#[test]
fn activity_status_change_is_described() {
    assert_eq!(
        describe_activity_status_change("T", "paint", "House", "未激活", "进行中", &names(&["Ann"])),
        "T，项目「House」的活动「paint」状态从「未激活」变为「进行中」，涉及：Ann"
    );
    assert_eq!(
        describe_activity_status_change("T", "paint", "House", "a", "b", &Vec::new()),
        "T，项目「House」的活动「paint」状态从「a」变为「b」"
    );
}

#[test]
fn creations_are_logged() {
    let mut log = AuditLog::new();
    assert_eq!(log_project_creation(&mut log, 4, "Atlas", &now()), Ok(1));
    assert_eq!(log_contact_creation(&mut log, 5, "Ann", Some("vip"), &now()), Ok(2));
    assert_eq!(
        log_event_creation(
            &mut log,
            6,
            "kickoff",
            None,
            Some(4),
            Some("Atlas"),
            &names(&["Ann"]),
            &now()
        ),
        Ok(3)
    );
    assert_eq!(
        log_activity_creation(&mut log, 7, "paint", 4, "Atlas", &Vec::new(), &now()),
        Ok(4)
    );
    assert_eq!(
        log_activity_status_change(&mut log, 7, "paint", "Atlas", "a", "b", &Vec::new(), &now()),
        Ok(5)
    );
    let rows: Vec<(i32, &str, &str, i32, &str, Option<i32>, Option<&str>, &str, &str)> = log
        .entries
        .iter()
        .map(|e| {
            (
                e.id,
                e.operation_type.as_str(),
                e.entity_type.as_str(),
                e.entity_id,
                e.entity_name.as_str(),
                e.project_id,
                e.project_name.as_deref(),
                e.description.as_str(),
                e.created_at.as_str(),
            )
        })
        .collect();
    let t = "2024-03-09 14:05:07";
    assert_eq!(
        rows,
        vec![
            (1, "create", "project", 4, "Atlas", None, None, "2024年03月09日 14:05，新增项目「Atlas」", t),
            (2, "create", "contact", 5, "Ann", None, None, "2024年03月09日 14:05，新增联系人「Ann」，标签：vip", t),
            (
                3,
                "create",
                "event",
                6,
                "kickoff",
                Some(4),
                Some("Atlas"),
                "2024年03月09日 14:05，对项目「Atlas」新增事件「kickoff」，涉及：Ann",
                t
            ),
            (
                4,
                "create",
                "activity",
                7,
                "paint",
                Some(4),
                Some("Atlas"),
                "2024年03月09日 14:05，对项目「Atlas」新增活动「paint」",
                t
            ),
            (
                5,
                "update",
                "activity",
                7,
                "paint",
                None,
                None,
                "2024年03月09日 14:05，项目「Atlas」的活动「paint」状态从「a」变为「b」",
                t
            ),
        ]
    );
    assert!(log.entries.iter().all(|e| e.old_value.is_none()
        && e.new_value.is_none()
        && e.related_entities.is_none()));
}

#[test]
fn logging_fails_without_a_moment_or_an_identifier() {
    let mut log = AuditLog::new();
    let late = LocalTime { days_from_ce: 1, seconds_from_midnight: 86_400 };
    assert_eq!(log_project_creation(&mut log, 4, "Atlas", &late), Err(CoreError::UnknownMoment));
    assert_eq!(
        log_contact_creation(&mut log, 4, "Ann", None, &late),
        Err(CoreError::UnknownMoment)
    );
    assert!(log.entries.is_empty());
    let mut full = AuditLog { entries: Vec::new(), next_id: i32::MAX };
    assert_eq!(
        log_project_creation(&mut full, 4, "Atlas", &now()),
        Err(CoreError::StoreUnavailable)
    );
    assert_eq!(
        log_event_creation(&mut full, 4, "e", None, None, None, &Vec::new(), &late),
        Err(CoreError::UnknownMoment)
    );
    assert_eq!(
        log_activity_creation(&mut full, 4, "a", 1, "p", &Vec::new(), &now()),
        Err(CoreError::StoreUnavailable)
    );
    assert_eq!(
        log_activity_status_change(&mut full, 4, "a", "p", "x", "y", &Vec::new(), &late),
        Err(CoreError::UnknownMoment)
    );
    assert!(full.entries.is_empty());
}

#[test]
fn names_are_picked_by_identifier() {
    let contacts = vec![contact(1, "Ann"), contact(2, "Bob"), contact(3, "Cy")];
    assert_eq!(contact_names_among(&contacts, &vec![3, 1]), vec!["Ann", "Cy"]);
    assert!(contact_names_among(&contacts, &Vec::new()).is_empty());
    assert!(contact_names_among(&contacts, &vec![9]).is_empty());
    assert!(id_among(&vec![1, 2], 2));
    assert!(!id_among(&vec![1, 2], 3));
}

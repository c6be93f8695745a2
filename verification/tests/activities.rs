use mindmirror::activities::{
    activate_activity, assign_contacts_to_activity, complete_activity, pause_activity,
    unassign_contact_from_activity,
};
use mindmirror::records::ProjectActivity;

fn activity(status: &str) -> ProjectActivity {
    ProjectActivity {
        id: 1,
        project_id: 2,
        name: "paint".to_string(),
        description: None,
        estimated_completion_date: None,
        status: status.to_string(),
        activated_at: None,
        paused_at: None,
        completed_at: None,
        created_at: "2024-01-01 00:00:00".to_string(),
        updated_at: "2024-01-01 00:00:00".to_string(),
    }
}

#[test]
fn assigning_takes_a_waiting_activity() {
    let mut a = activity("待分配");
    assert!(assign_contacts_to_activity(&mut a, 2));
    assert_eq!(a.status, "未激活");
    let mut nobody = activity("待分配");
    assert!(!assign_contacts_to_activity(&mut nobody, 0));
    assert_eq!(nobody.status, "待分配");
    let mut running = activity("进行中");
    assert!(!assign_contacts_to_activity(&mut running, 1));
    assert_eq!(running.status, "进行中");
}

#[test]
fn unassigning_the_last_contact_lets_the_activity_wait_again() {
    let mut a = activity("未激活");
    assert!(unassign_contact_from_activity(&mut a, 0));
    assert_eq!(a.status, "待分配");
    let mut shared = activity("未激活");
    assert!(!unassign_contact_from_activity(&mut shared, 1));
    assert_eq!(shared.status, "未激活");
    let mut running = activity("进行中");
    assert!(!unassign_contact_from_activity(&mut running, 0));
    assert_eq!(running.status, "进行中");
}

#[test]
fn activation_begins_or_resumes() {
    for status in ["未激活", "已暂停"] {
        let mut a = activity(status);
        assert!(activate_activity(&mut a, "2024-02-02 10:00:00".to_string()));
        assert_eq!(a.status, "进行中");
        assert_eq!(a.activated_at.as_deref(), Some("2024-02-02 10:00:00"));
    }
    for status in ["待分配", "进行中", "已完成", "other"] {
        let mut a = activity(status);
        assert!(!activate_activity(&mut a, "2024-02-02 10:00:00".to_string()));
        assert_eq!(a.status, status);
        assert_eq!(a.activated_at, None);
    }
}

#[test]
fn pause_stops_what_is_in_progress() {
    let mut a = activity("进行中");
    assert!(pause_activity(&mut a, "2024-02-02 11:00:00".to_string()));
    assert_eq!(a.status, "已暂停");
    assert_eq!(a.paused_at.as_deref(), Some("2024-02-02 11:00:00"));
    for status in ["待分配", "未激活", "已暂停", "已完成"] {
        let mut a = activity(status);
        assert!(!pause_activity(&mut a, "2024-02-02 11:00:00".to_string()));
        assert_eq!(a.status, status);
        assert_eq!(a.paused_at, None);
    }
}

#[test]
fn completion_ends_any_activity() {
    for status in ["待分配", "未激活", "进行中", "已暂停", "已完成"] {
        let mut a = activity(status);
        complete_activity(&mut a, "2024-02-03 12:00:00".to_string());
        assert_eq!(a.status, "已完成");
        assert_eq!(a.completed_at.as_deref(), Some("2024-02-03 12:00:00"));
        assert_eq!(a.name, "paint");
        assert_eq!(a.id, 1);
    }
}

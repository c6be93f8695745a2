//! The life of an activity: waiting for someone to take it, taken but not
//! begun, in progress, paused, completed.

use vstd::prelude::*;
use crate::records::ProjectActivity;
use crate::text::text_eq;

verus! {

/// The status of an activity that is assigned to nobody.
pub open spec fn unassigned() -> Seq<char> {
    "待分配"@
}

/// The status of an activity that is assigned and was not begun.
pub open spec fn inactive() -> Seq<char> {
    "未激活"@
}

/// The status of an activity in progress.
pub open spec fn running() -> Seq<char> {
    "进行中"@
}

/// The status of an activity that was begun and is at rest.
pub open spec fn paused() -> Seq<char> {
    "已暂停"@
}

/// The status of an activity that is done.
pub open spec fn completed() -> Seq<char> {
    "已完成"@
}

/// The activity `after` is `before` but for its status, which is `status`.
pub open spec fn with_status(
    before: ProjectActivity,
    after: ProjectActivity,
    status: Seq<char>,
) -> bool {
    after.status@ == status && after == (ProjectActivity { status: after.status, ..before })
}

/// Records that contacts were assigned to the activity: an activity that
/// waited for someone to take it is now taken. Assigning nobody changes
/// nothing, and so does assigning to an activity in another status.
pub fn assign_contacts_to_activity(activity: &mut ProjectActivity, assigned: usize) -> (changed:
    bool)
    ensures
        changed == (assigned > 0 && old(activity).status@ == unassigned()),
        changed ==> with_status(*old(activity), *final(activity), inactive()),
        !changed ==> *final(activity) == *old(activity),
{
    if assigned > 0 && text_eq(activity.status.as_str(), "待分配") {
        activity.status = "未激活".to_owned();
        true
    } else {
        false
    }
}

/// Records that a contact was taken off the activity and `remaining`
/// contacts are left on it: a taken activity that was not begun and has
/// nobody left waits again for someone to take it.
pub fn unassign_contact_from_activity(activity: &mut ProjectActivity, remaining: usize) -> (changed:
    bool)
    ensures
        changed == (remaining == 0 && old(activity).status@ == inactive()),
        changed ==> with_status(*old(activity), *final(activity), unassigned()),
        !changed ==> *final(activity) == *old(activity),
{
    if remaining == 0 && text_eq(activity.status.as_str(), "未激活") {
        activity.status = "待分配".to_owned();
        true
    } else {
        false
    }
}

/// Begins or resumes the activity at `now`: an activity that was taken
/// and not begun, or paused, is in progress from `now` on. An activity in
/// another status is left as it is.
pub fn activate_activity(activity: &mut ProjectActivity, now: String) -> (changed: bool)
    ensures
        changed == (old(activity).status@ == inactive() || old(activity).status@ == paused()),
        changed ==> final(activity).status@ == running() && *final(activity) == (ProjectActivity {
            status: final(activity).status,
            activated_at: Some(now),
            ..*old(activity)
        }),
        !changed ==> *final(activity) == *old(activity),
{
    if text_eq(activity.status.as_str(), "未激活") || text_eq(activity.status.as_str(), "已暂停") {
        activity.status = "进行中".to_owned();
        activity.activated_at = Some(now);
        true
    } else {
        false
    }
}

/// Pauses the activity at `now`: an activity in progress is paused from
/// `now` on. An activity in another status is left as it is.
pub fn pause_activity(activity: &mut ProjectActivity, now: String) -> (changed: bool)
    ensures
        changed == (old(activity).status@ == running()),
        changed ==> final(activity).status@ == paused() && *final(activity) == (ProjectActivity {
            status: final(activity).status,
            paused_at: Some(now),
            ..*old(activity)
        }),
        !changed ==> *final(activity) == *old(activity),
{
    if text_eq(activity.status.as_str(), "进行中") {
        activity.status = "已暂停".to_owned();
        activity.paused_at = Some(now);
        true
    } else {
        false
    }
}

/// Completes the activity at `now`, whatever its status was.
pub fn complete_activity(activity: &mut ProjectActivity, now: String)
    ensures
        final(activity).status@ == completed(),
        *final(activity) == (ProjectActivity {
            status: final(activity).status,
            completed_at: Some(now),
            ..*old(activity)
        }),
{
    activity.status = "已完成".to_owned();
    activity.completed_at = Some(now);
}

} // verus!

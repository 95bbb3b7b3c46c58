use std::collections::BTreeMap;

use mensa_bot::broadcast::{handle_broadcast_update_task, update_notice, updates_at, UpdateNotice};
use mensa_bot::registrations::{
    handle_add_registration_task, handle_delete_registration_task, handle_update_registration_task,
    job_replaced_by_registration, load_jobs_from_db, plan_update_registration_task, ChangePlan,
    LoadedRegistration,
};
use mensa_bot::types::{JobHandlerTask, MealsDiff, RegistrationEntry, UpdateRegistrationTask};

fn task(chat: i64, mensa: Option<u32>, hour: Option<u32>, minute: Option<u32>) -> JobHandlerTask {
    JobHandlerTask { chat_id: Some(chat), mensa_id: mensa, hour, minute, meals_diff: None }
}

fn entry(job: Option<u128>, mensa: u32, hour: Option<u32>, minute: Option<u32>, allergens: bool, senddiff: bool) -> RegistrationEntry {
    RegistrationEntry { job_uuid: job, mensa_id: mensa, hour, minute, allergens, senddiff }
}

fn diff(canteen: u32, new: bool, modified_ignoring_allergens: bool, removed: bool) -> MealsDiff {
    MealsDiff {
        canteen_id: canteen,
        has_new_meals: new,
        has_modified_meals_ignoring_allergens: modified_ignoring_allergens,
        has_removed_meals: removed,
    }
}

#[test]
fn first_registration_turns_preferences_on() {
    let mut regs = BTreeMap::new();
    let t = task(7, Some(118), Some(6), Some(30));
    assert_eq!(job_replaced_by_registration(&regs, &t), None);
    handle_add_registration_task(&mut regs, &t, Some(11));
    assert_eq!(regs.len(), 1);
    assert_eq!(regs[&7], entry(Some(11), 118, Some(6), Some(30), true, true));
}

#[test]
fn registering_again_replaces_the_job_and_keeps_preferences() {
    let mut regs = BTreeMap::new();
    regs.insert(7, entry(Some(11), 118, None, None, false, true));
    regs.insert(8, entry(Some(12), 140, Some(9), Some(0), true, true));
    let t = task(7, Some(140), Some(10), Some(15));
    assert_eq!(job_replaced_by_registration(&regs, &t), Some(11));
    handle_add_registration_task(&mut regs, &t, Some(21));
    assert_eq!(regs[&7], entry(Some(21), 140, Some(10), Some(15), false, true));
    assert_eq!(regs[&8], entry(Some(12), 140, Some(9), Some(0), true, true));
}

#[test]
fn change_of_time_reloads_the_job() {
    let mut regs = BTreeMap::new();
    regs.insert(7, entry(Some(11), 118, Some(6), Some(30), false, false));
    let t = task(7, None, Some(8), Some(5));
    assert_eq!(
        plan_update_registration_task(&regs, &t),
        ChangePlan::ReloadJob {
            old_job: Some(11),
            job_task: UpdateRegistrationTask { chat_id: 7, mensa_id: Some(118), hour: Some(8), minute: Some(5) },
        }
    );
    assert!(handle_update_registration_task(&mut regs, &t, Some(31)));
    assert_eq!(regs[&7], entry(Some(31), 118, Some(8), Some(5), false, false));
}

#[test]
fn change_of_canteen_keeps_the_time() {
    let mut regs = BTreeMap::new();
    regs.insert(7, entry(Some(11), 118, Some(6), Some(30), true, false));
    let t = task(7, Some(106), None, None);
    assert_eq!(
        plan_update_registration_task(&regs, &t),
        ChangePlan::ReloadJob {
            old_job: Some(11),
            job_task: UpdateRegistrationTask { chat_id: 7, mensa_id: Some(106), hour: Some(6), minute: Some(30) },
        }
    );
    assert!(handle_update_registration_task(&mut regs, &t, None));
    assert_eq!(regs[&7], entry(None, 106, Some(6), Some(30), true, false));
}

#[test]
fn empty_change_keeps_the_job() {
    let mut regs = BTreeMap::new();
    regs.insert(7, entry(Some(11), 118, Some(6), Some(30), true, true));
    let t = task(7, None, None, None);
    assert_eq!(plan_update_registration_task(&regs, &t), ChangePlan::KeepJob);
    assert!(handle_update_registration_task(&mut regs, &t, Some(99)));
    assert_eq!(regs[&7], entry(Some(11), 118, Some(6), Some(30), true, true));
}

#[test]
fn change_of_unknown_chat_changes_nothing() {
    let mut regs = BTreeMap::new();
    regs.insert(7, entry(Some(11), 118, Some(6), Some(30), true, true));
    let t = task(9, Some(118), None, None);
    assert_eq!(plan_update_registration_task(&regs, &t), ChangePlan::NotRegistered);
    assert!(!handle_update_registration_task(&mut regs, &t, Some(5)));
    assert_eq!(regs.len(), 1);
    assert_eq!(regs[&7], entry(Some(11), 118, Some(6), Some(30), true, true));
}

#[test]
fn unregistering_clears_job_and_time() {
    let mut regs = BTreeMap::new();
    regs.insert(7, entry(Some(11), 118, Some(6), Some(30), false, true));
    let unloaded = handle_delete_registration_task(&mut regs, &task(7, None, None, None));
    assert_eq!(unloaded, 11);
    assert_eq!(regs[&7], entry(None, 118, None, None, false, true));
}

#[test]
fn notices_follow_time_canteen_and_preferences() {
    let r = entry(Some(1), 118, Some(10), Some(30), true, true);
    let d = diff(118, false, false, false);
    assert_eq!(update_notice(5, &r, &d, 10, 29), None);
    assert_eq!(update_notice(5, &r, &d, 10, 30), Some(UpdateNotice { chat_id: 5, send_diff: true, show_allergens: true }));
    assert_eq!(update_notice(5, &r, &d, 11, 0), Some(UpdateNotice { chat_id: 5, send_diff: true, show_allergens: true }));
    assert_eq!(update_notice(5, &r, &d, 9, 59), None);
    assert_eq!(update_notice(5, &r, &diff(140, true, true, true), 12, 0), None);
    let hides = entry(Some(1), 118, Some(10), Some(30), false, false);
    assert_eq!(update_notice(5, &hides, &d, 12, 0), None);
    assert_eq!(
        update_notice(5, &hides, &diff(118, false, true, false), 12, 0),
        Some(UpdateNotice { chat_id: 5, send_diff: false, show_allergens: false })
    );
    assert_eq!(update_notice(5, &hides, &diff(118, true, false, false), 12, 0).is_some(), true);
    assert_eq!(update_notice(5, &hides, &diff(118, false, false, true), 12, 0).is_some(), true);
    let unscheduled = entry(None, 118, None, None, true, true);
    assert_eq!(update_notice(5, &unscheduled, &d, 23, 59), None);
}

#[test]
fn broadcast_reaches_subscribers_in_chat_order() {
    let mut regs = BTreeMap::new();
    regs.insert(30, entry(Some(1), 118, Some(0), Some(0), true, false));
    regs.insert(-4, entry(Some(2), 118, Some(0), Some(0), true, true));
    regs.insert(12, entry(Some(3), 140, Some(0), Some(0), true, true));
    regs.insert(20, entry(None, 118, None, None, true, true));
    regs.insert(25, entry(Some(4), 118, Some(0), Some(0), false, true));
    let t = JobHandlerTask { chat_id: None, mensa_id: None, hour: None, minute: None, meals_diff: Some(diff(118, false, false, false)) };
    let notices = handle_broadcast_update_task(&regs, &t);
    assert_eq!(
        notices,
        vec![
            UpdateNotice { chat_id: -4, send_diff: true, show_allergens: true },
            UpdateNotice { chat_id: 30, send_diff: false, show_allergens: true },
        ]
    );
}

#[test]
fn start_up_loads_the_stored_registrations() {
    let rows = vec![
        LoadedRegistration { task: task(3, Some(118), Some(7), Some(0)), job_uuid: Some(100), allergens: true, senddiff: false },
        LoadedRegistration { task: task(4, Some(140), None, None), job_uuid: None, allergens: false, senddiff: true },
        LoadedRegistration { task: task(3, Some(106), Some(8), Some(15)), job_uuid: Some(101), allergens: false, senddiff: false },
    ];
    let regs = load_jobs_from_db(&rows);
    assert_eq!(regs.len(), 2);
    assert_eq!(regs[&3], entry(Some(101), 106, Some(8), Some(15), false, false));
    assert_eq!(regs[&4], entry(None, 140, None, None, false, true));
}

#[test]
fn each_chat_is_decided_at_its_own_reading() {
    let mut regs = BTreeMap::new();
    regs.insert(30, entry(Some(1), 118, Some(11), Some(0), true, false));
    regs.insert(-4, entry(Some(2), 118, Some(10), Some(0), true, true));
    regs.insert(12, entry(Some(3), 118, Some(9), Some(30), false, true));
    let t = JobHandlerTask { chat_id: None, mensa_id: None, hour: None, minute: None, meals_diff: Some(diff(118, true, false, false)) };
    let notices = updates_at(&regs, &t, &vec![(9, 59), (9, 30), (12, 0)]);
    assert_eq!(
        notices,
        vec![
            UpdateNotice { chat_id: 12, send_diff: true, show_allergens: false },
            UpdateNotice { chat_id: 30, send_diff: false, show_allergens: true },
        ]
    );
    let later = updates_at(&regs, &t, &vec![(10, 0), (9, 30), (12, 0)]);
    assert_eq!(later.len(), 3);
    assert_eq!(later[0], UpdateNotice { chat_id: -4, send_diff: true, show_allergens: true });
    assert!(updates_at(&regs, &t, &vec![(0, 0), (0, 0), (0, 0)]).is_empty());
}

use mensa_bot::registrations::handle_update_registration_task;
use mensa_bot::types::RegistrationEntry;
use mensa_bot::db::{get_all_user_registrations_db, init_db_record, update_db_row, ColumnUpdate, RegistrationColumn, RegistrationRecord};
use mensa_bot::types::{BroadcastUpdateTask, JobHandlerTask, MealsDiff, UpdateRegistrationTask};

#[test]
fn change_writes_only_the_fields_it_sets_in_order() {
    let t = JobHandlerTask { chat_id: Some(7), mensa_id: Some(118), hour: None, minute: Some(45), meals_diff: None };
    assert_eq!(
        update_db_row(&t),
        vec![
            ColumnUpdate { chat_id: Some(7), column: RegistrationColumn::MensaId, value: 118 },
            ColumnUpdate { chat_id: Some(7), column: RegistrationColumn::Minute, value: 45 },
        ]
    );
    let all = JobHandlerTask { chat_id: Some(7), mensa_id: Some(1), hour: Some(2), minute: Some(3), meals_diff: None };
    assert_eq!(update_db_row(&all).iter().map(|u| u.column).collect::<Vec<_>>(),
        vec![RegistrationColumn::MensaId, RegistrationColumn::Hour, RegistrationColumn::Minute]);
    let none = JobHandlerTask { chat_id: Some(7), mensa_id: None, hour: None, minute: None, meals_diff: None };
    assert!(update_db_row(&none).is_empty());
}

#[test]
fn registration_record_holds_the_task() {
    let t = JobHandlerTask { chat_id: Some(7), mensa_id: Some(118), hour: Some(6), minute: Some(30), meals_diff: None };
    assert_eq!(init_db_record(&t), RegistrationRecord { chat_id: Some(7), mensa_id: Some(118), hour: 6, minute: 30 });
}

#[test]
fn stored_rows_become_reload_tasks() {
    let rows = vec![
        UpdateRegistrationTask { chat_id: 1, mensa_id: Some(118), hour: Some(6), minute: Some(0) },
        UpdateRegistrationTask { chat_id: 2, mensa_id: None, hour: None, minute: None },
    ];
    assert_eq!(
        get_all_user_registrations_db(&rows),
        vec![
            JobHandlerTask { chat_id: Some(1), mensa_id: Some(118), hour: Some(6), minute: Some(0), meals_diff: None },
            JobHandlerTask { chat_id: Some(2), mensa_id: None, hour: None, minute: None, meals_diff: None },
        ]
    );
}

#[test]
fn broadcast_task_carries_the_diff() {
    let d = MealsDiff { canteen_id: 118, has_new_meals: true, has_modified_meals_ignoring_allergens: false, has_removed_meals: false };
    assert_eq!(
        JobHandlerTask::from_broadcast_update(BroadcastUpdateTask { meals_diff: d }),
        JobHandlerTask { chat_id: None, mensa_id: None, hour: None, minute: None, meals_diff: Some(d) }
    );
}

#[test]
fn stored_row_matches_the_changed_registration() {
    let mut regs = std::collections::BTreeMap::new();
    regs.insert(7, RegistrationEntry { job_uuid: Some(1), mensa_id: 118, hour: Some(6), minute: Some(30), allergens: true, senddiff: true });
    let t = JobHandlerTask { chat_id: Some(7), mensa_id: None, hour: Some(9), minute: Some(15), meals_diff: None };
    assert!(handle_update_registration_task(&mut regs, &t, Some(2)));
    let mut row = (118u32, Some(6u32), Some(30u32));
    for u in update_db_row(&t) {
        assert_eq!(u.chat_id, Some(7));
        match u.column {
            RegistrationColumn::MensaId => row.0 = u.value,
            RegistrationColumn::Hour => row.1 = Some(u.value),
            RegistrationColumn::Minute => row.2 = Some(u.value),
        }
    }
    assert_eq!(row, (regs[&7].mensa_id, regs[&7].hour, regs[&7].minute));
}

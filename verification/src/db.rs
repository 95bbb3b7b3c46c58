//! What the database of registrations is asked to store for a task.
//!
//! The table `registrations` holds one row per chat: `chat_id`, `mensa_id`, and the daily
//! `hour` and `minute` (which may be empty). The functions here decide the values written;
//! running the statements is left to the caller.
use vstd::prelude::*;

use crate::registrations::{added_entry, changed_entry, valid_registration_task};
use crate::types::{JobHandlerTask, JobId, RegistrationEntry, UpdateRegistrationTask};

verus! {

/// A column of a registration row that a change task can set.
#[derive(Clone, Copy, Debug, PartialEq, Eq)]
pub enum RegistrationColumn {
    MensaId,
    Hour,
    Minute,
}

/// `UPDATE registrations SET <column> = value WHERE chat_id = chat_id`.
#[derive(Clone, Copy, Debug, PartialEq, Eq)]
pub struct ColumnUpdate {
    pub chat_id: Option<i64>,
    pub column: RegistrationColumn,
    pub value: u32,
}

/// The update of one column, if the task sets it.
pub open spec fn optional_update(
    chat_id: Option<i64>,
    column: RegistrationColumn,
    value: Option<u32>,
) -> Seq<ColumnUpdate> {
    match value {
        Some(v) => seq![ColumnUpdate { chat_id, column, value: v }],
        None => Seq::empty(),
    }
}

/// The updates that a change task makes, in order: canteen, hour, minute, each only if set.
pub open spec fn row_updates(task: JobHandlerTask) -> Seq<ColumnUpdate> {
    optional_update(task.chat_id, RegistrationColumn::MensaId, task.mensa_id) + optional_update(
        task.chat_id,
        RegistrationColumn::Hour,
        task.hour,
    ) + optional_update(task.chat_id, RegistrationColumn::Minute, task.minute)
}

/// The place of a column in the order in which a change writes them.
pub open spec fn column_rank(c: RegistrationColumn) -> int {
    match c {
        RegistrationColumn::MensaId => 0,
        RegistrationColumn::Hour => 1,
        RegistrationColumn::Minute => 2,
    }
}

/// A change writes a column exactly when the task sets that field, with the task's value,
/// always for the task's chat, each column at most once, canteen before hour before minute.
pub proof fn lemma_row_updates_write_set_fields(task: JobHandlerTask)
    ensures
        ({
            let u = row_updates(task);
            &&& forall|i: int| 0 <= i < u.len() ==> (#[trigger] u[i]).chat_id == task.chat_id
            &&& forall|i: int, j: int|
                0 <= i < j < u.len() ==> column_rank(u[i].column) < column_rank(u[j].column)
            &&& task.mensa_id matches Some(m) ==> u.contains(
                ColumnUpdate { chat_id: task.chat_id, column: RegistrationColumn::MensaId, value: m },
            )
            &&& task.hour matches Some(h) ==> u.contains(
                ColumnUpdate { chat_id: task.chat_id, column: RegistrationColumn::Hour, value: h },
            )
            &&& task.minute matches Some(m) ==> u.contains(
                ColumnUpdate { chat_id: task.chat_id, column: RegistrationColumn::Minute, value: m },
            )
            &&& task.mensa_id is None ==> forall|i: int|
                0 <= i < u.len() ==> (#[trigger] u[i]).column != RegistrationColumn::MensaId
            &&& task.hour is None ==> forall|i: int|
                0 <= i < u.len() ==> (#[trigger] u[i]).column != RegistrationColumn::Hour
            &&& task.minute is None ==> forall|i: int|
                0 <= i < u.len() ==> (#[trigger] u[i]).column != RegistrationColumn::Minute
        }),
{
    let a = optional_update(task.chat_id, RegistrationColumn::MensaId, task.mensa_id);
    let b = optional_update(task.chat_id, RegistrationColumn::Hour, task.hour);
    let c = optional_update(task.chat_id, RegistrationColumn::Minute, task.minute);
    let u = row_updates(task);
    assert(u == a + b + c);
    assert forall|i: int| 0 <= i < u.len() implies {
        &&& (#[trigger] u[i]).chat_id == task.chat_id
        &&& (i < a.len() ==> u[i].column == RegistrationColumn::MensaId)
        &&& (a.len() <= i < a.len() + b.len() ==> u[i].column == RegistrationColumn::Hour)
        &&& (a.len() + b.len() <= i ==> u[i].column == RegistrationColumn::Minute)
    } by {
        if i < a.len() {
            assert(u[i] == a[i]);
        } else if i < a.len() + b.len() {
            assert(u[i] == b[i - a.len()]);
        } else {
            assert(u[i] == c[i - a.len() - b.len()]);
        }
    }
    if task.mensa_id is Some {
        assert(u[0] == a[0]);
    }
    if task.hour is Some {
        assert(u[a.len() as int] == b[0]);
    }
    if task.minute is Some {
        assert(u[(a.len() + b.len()) as int] == c[0]);
    }
}

/// The column updates that store a change task: exactly the fields that the task sets.
pub fn update_db_row(data: &JobHandlerTask) -> (res: Vec<ColumnUpdate>)
    ensures
        res@ == row_updates(*data),
        forall|i: int| 0 <= i < res.len() ==> (#[trigger] res@[i]).chat_id == data.chat_id,
        data.mensa_id matches Some(m) ==> res@.contains(
            ColumnUpdate { chat_id: data.chat_id, column: RegistrationColumn::MensaId, value: m },
        ),
        data.hour matches Some(h) ==> res@.contains(
            ColumnUpdate { chat_id: data.chat_id, column: RegistrationColumn::Hour, value: h },
        ),
        data.minute matches Some(m) ==> res@.contains(
            ColumnUpdate { chat_id: data.chat_id, column: RegistrationColumn::Minute, value: m },
        ),
        data.mensa_id is None ==> forall|i: int|
            0 <= i < res.len() ==> (#[trigger] res@[i]).column != RegistrationColumn::MensaId,
        data.hour is None ==> forall|i: int|
            0 <= i < res.len() ==> (#[trigger] res@[i]).column != RegistrationColumn::Hour,
        data.minute is None ==> forall|i: int|
            0 <= i < res.len() ==> (#[trigger] res@[i]).column != RegistrationColumn::Minute,
{
    let mut updates: Vec<ColumnUpdate> = Vec::new();
    if let Some(mensa_id) = data.mensa_id {
        updates.push(ColumnUpdate { chat_id: data.chat_id, column: RegistrationColumn::MensaId, value: mensa_id });
    }
    if let Some(hour) = data.hour {
        updates.push(ColumnUpdate { chat_id: data.chat_id, column: RegistrationColumn::Hour, value: hour });
    }
    if let Some(minute) = data.minute {
        updates.push(ColumnUpdate { chat_id: data.chat_id, column: RegistrationColumn::Minute, value: minute });
    }
    assert(updates@ =~= row_updates(*data));
    proof {
        lemma_row_updates_write_set_fields(*data);
    }
    updates
}

/// `REPLACE INTO registrations (chat_id, mensa_id, hour, minute) VALUES (...)`.
#[derive(Clone, Copy, Debug, PartialEq, Eq)]
pub struct RegistrationRecord {
    pub chat_id: Option<i64>,
    pub mensa_id: Option<u32>,
    pub hour: u32,
    pub minute: u32,
}

/// The row that stores a registration task, which sets the daily time.
pub fn init_db_record(job_handler_task: &JobHandlerTask) -> (res: RegistrationRecord)
    requires
        job_handler_task.hour is Some,
        job_handler_task.minute is Some,
    ensures
        res == (RegistrationRecord {
            chat_id: job_handler_task.chat_id,
            mensa_id: job_handler_task.mensa_id,
            hour: job_handler_task.hour->0,
            minute: job_handler_task.minute->0,
        }),
{
    RegistrationRecord {
        chat_id: job_handler_task.chat_id,
        mensa_id: job_handler_task.mensa_id,
        hour: job_handler_task.hour.unwrap(),
        minute: job_handler_task.minute.unwrap(),
    }
}

/// The tasks that reload the jobs of the stored registrations, one per row in order.
pub fn get_all_user_registrations_db(rows: &Vec<UpdateRegistrationTask>) -> (tasks: Vec<JobHandlerTask>)
    ensures
        tasks@ == rows@.map_values(|r: UpdateRegistrationTask| crate::types::task_of_registration_update(r)),
        tasks.len() == rows.len(),
        forall|i: int|
            0 <= i < rows.len() ==> {
                let t = #[trigger] tasks@[i];
                &&& t.chat_id == Some(rows@[i].chat_id)
                &&& t.mensa_id == rows@[i].mensa_id
                &&& t.hour == rows@[i].hour
                &&& t.minute == rows@[i].minute
                &&& t.meals_diff is None
            },
{
    let mut tasks: Vec<JobHandlerTask> = Vec::new();
    let mut i: usize = 0;
    while i < rows.len()
        invariant
            i <= rows.len(),
            tasks@ == rows@.take(i as int).map_values(
                |r: UpdateRegistrationTask| crate::types::task_of_registration_update(r),
            ),
        decreases rows.len() - i,
    {
        tasks.push(JobHandlerTask::from_registration_update(rows[i]));
        assert(rows@.take(i + 1).map_values(
            |r: UpdateRegistrationTask| crate::types::task_of_registration_update(r),
        ) =~= tasks@);
        i = i + 1;
    }
    assert(rows@.take(rows.len() as int) =~= rows@);
    tasks
}

/// The stored columns `mensa_id`, `hour` and `minute` of a registration.
pub type StoredSchedule = (u32, Option<u32>, Option<u32>);

/// The stored columns of an in-memory registration.
pub open spec fn stored_schedule(e: RegistrationEntry) -> StoredSchedule {
    (e.mensa_id, e.hour, e.minute)
}

/// The stored columns after one column update.
pub open spec fn apply_column_update(row: StoredSchedule, u: ColumnUpdate) -> StoredSchedule {
    match u.column {
        RegistrationColumn::MensaId => (u.value, row.1, row.2),
        RegistrationColumn::Hour => (row.0, Some(u.value), row.2),
        RegistrationColumn::Minute => (row.0, row.1, Some(u.value)),
    }
}

/// The stored columns after the column updates, in order.
pub open spec fn apply_column_updates(row: StoredSchedule, updates: Seq<ColumnUpdate>) -> StoredSchedule
    decreases updates.len(),
{
    if updates.len() == 0 {
        row
    } else {
        apply_column_update(apply_column_updates(row, updates.drop_last()), updates.last())
    }
}

/// The database and the registration book agree after a change: the row that
/// `update_db_row` writes over the stored registration holds the canteen and time of the
/// changed registration, and every update is for the task's chat.
pub proof fn lemma_stored_row_follows_change(
    e: RegistrationEntry,
    task: JobHandlerTask,
    reloaded_job: Option<JobId>,
)
    ensures
        apply_column_updates(stored_schedule(e), row_updates(task)) == stored_schedule(
            changed_entry(e, task, reloaded_job),
        ),
        forall|i: int|
            0 <= i < row_updates(task).len() ==> (#[trigger] row_updates(task)[i]).chat_id
                == task.chat_id,
{
    let a = optional_update(task.chat_id, RegistrationColumn::MensaId, task.mensa_id);
    let b = optional_update(task.chat_id, RegistrationColumn::Hour, task.hour);
    let c = optional_update(task.chat_id, RegistrationColumn::Minute, task.minute);
    let row = stored_schedule(e);
    let r1 = apply_column_updates(row, a);
    let r2 = apply_column_updates(r1, b);
    assert(apply_column_updates(row, a + b) == r2) by {
        lemma_apply_concat(row, a, b);
    }
    assert(apply_column_updates(row, a + b + c) == apply_column_updates(r2, c)) by {
        lemma_apply_concat(row, a + b, c);
    }
    lemma_apply_optional(row, task.chat_id, RegistrationColumn::MensaId, task.mensa_id);
    lemma_apply_optional(r1, task.chat_id, RegistrationColumn::Hour, task.hour);
    lemma_apply_optional(r2, task.chat_id, RegistrationColumn::Minute, task.minute);
}

proof fn lemma_apply_optional(
    row: StoredSchedule,
    chat_id: Option<i64>,
    column: RegistrationColumn,
    value: Option<u32>,
)
    ensures
        apply_column_updates(row, optional_update(chat_id, column, value)) == match value {
            Some(v) => apply_column_update(row, ColumnUpdate { chat_id, column, value: v }),
            None => row,
        },
{
    let u = optional_update(chat_id, column, value);
    if u.len() > 0 {
        assert(u.drop_last() =~= Seq::<ColumnUpdate>::empty());
        assert(apply_column_updates(row, u.drop_last()) == row);
    }
}

proof fn lemma_apply_concat(row: StoredSchedule, x: Seq<ColumnUpdate>, y: Seq<ColumnUpdate>)
    ensures
        apply_column_updates(row, x + y) == apply_column_updates(apply_column_updates(row, x), y),
    decreases y.len(),
{
    if y.len() == 0 {
        assert(x + y =~= x);
    } else {
        lemma_apply_concat(row, x, y.drop_last());
        assert((x + y).drop_last() =~= x + y.drop_last());
        assert((x + y).last() == y.last());
    }
}

/// The row that `init_db_record` writes for a registration task holds the chat, canteen and
/// time of the registration that the book records for it.
pub proof fn lemma_stored_record_follows_registration(
    task: JobHandlerTask,
    previous: Option<RegistrationEntry>,
    job: Option<JobId>,
)
    requires
        valid_registration_task(task),
    ensures
        ({
            let e = added_entry(task, previous, job);
            &&& task.chat_id == Some(task.chat_id->0)
            &&& task.mensa_id == Some(e.mensa_id)
            &&& Some(task.hour->0) == e.hour
            &&& Some(task.minute->0) == e.minute
        }),
{
}

} // verus!

//! The registration book kept in memory, and what each task of the job handler does to it.
//!
//! A handler that waits for the scheduler in the middle is cut in two: a first function says
//! which job to unload and which to load, and a second one takes the id of the loaded job and
//! updates the book.
use std::collections::BTreeMap;
use vstd::prelude::*;

use crate::types::{JobHandlerTask, JobId, RegistrationEntry, UpdateRegistrationTask};

verus! {

broadcast use vstd::std_specs::btree::group_btree_axioms, vstd::laws_cmp::group_laws_cmp;

/// The chat's job, if the chat is registered and has one.
pub open spec fn registered_job(regs: Map<i64, RegistrationEntry>, chat_id: i64) -> Option<JobId> {
    if regs.contains_key(chat_id) {
        regs[chat_id].job_uuid
    } else {
        None
    }
}

/// The entry that a registration task writes: the task's canteen and time and the new job;
/// the allergen and diff preferences of an earlier registration are kept, and are on otherwise.
pub open spec fn added_entry(
    task: JobHandlerTask,
    previous: Option<RegistrationEntry>,
    job: Option<JobId>,
) -> RegistrationEntry {
    RegistrationEntry {
        job_uuid: job,
        mensa_id: task.mensa_id->0,
        hour: task.hour,
        minute: task.minute,
        allergens: match previous {
            Some(r) => r.allergens,
            None => true,
        },
        senddiff: match previous {
            Some(r) => r.senddiff,
            None => true,
        },
    }
}

/// A registration task names its chat, canteen and daily time.
pub open spec fn valid_registration_task(task: JobHandlerTask) -> bool {
    &&& task.chat_id is Some
    &&& task.mensa_id is Some
    &&& task.hour is Some
    &&& task.minute is Some
}

fn lookup(regs: &BTreeMap<i64, RegistrationEntry>, chat_id: i64) -> (res: Option<RegistrationEntry>)
    ensures
        res == (if regs@.contains_key(chat_id) {
            Some(regs@[chat_id])
        } else {
            None::<RegistrationEntry>
        }),
{
    match regs.get(&chat_id) {
        Some(r) => Some(*r),
        None => None,
    }
}

/// The job that registering `task`'s chat anew unloads: the chat's current job, if any.
pub fn job_replaced_by_registration(
    regs: &BTreeMap<i64, RegistrationEntry>,
    task: &JobHandlerTask,
) -> (res: Option<JobId>)
    requires
        task.chat_id is Some,
    ensures
        res == registered_job(regs@, task.chat_id->0),
        regs@.contains_key(task.chat_id->0) ==> res == regs@[task.chat_id->0].job_uuid,
        !regs@.contains_key(task.chat_id->0) ==> res is None,
{
    match lookup(regs, task.chat_id.unwrap()) {
        Some(r) => r.job_uuid,
        None => None,
    }
}

/// Records the registration of `task`'s chat, whose daily job is now `new_job`.
pub fn handle_add_registration_task(
    regs: &mut BTreeMap<i64, RegistrationEntry>,
    task: &JobHandlerTask,
    new_job: Option<JobId>,
)
    requires
        valid_registration_task(*task),
    ensures
        final(regs)@ == old(regs)@.insert(
            task.chat_id->0,
            added_entry(
                *task,
                if old(regs)@.contains_key(task.chat_id->0) {
                    Some(old(regs)@[task.chat_id->0])
                } else {
                    None
                },
                new_job,
            ),
        ),
        ({
            let c = task.chat_id->0;
            let e = final(regs)@[c];
            &&& final(regs)@.contains_key(c)
            &&& e.job_uuid == new_job
            &&& e.mensa_id == task.mensa_id->0
            &&& e.hour == task.hour
            &&& e.minute == task.minute
            &&& old(regs)@.contains_key(c) ==> e.allergens == old(regs)@[c].allergens
                && e.senddiff == old(regs)@[c].senddiff
            &&& !old(regs)@.contains_key(c) ==> e.allergens && e.senddiff
        }),
        forall|k: i64|
            k != task.chat_id->0 ==> (#[trigger] final(regs)@.contains_key(k) == old(regs)@.contains_key(k)
                && (old(regs)@.contains_key(k) ==> final(regs)@[k] == old(regs)@[k])),
{
    let chat_id = task.chat_id.unwrap();
    let previous = lookup(regs, chat_id);
    let entry = RegistrationEntry {
        job_uuid: new_job,
        mensa_id: task.mensa_id.unwrap(),
        hour: task.hour,
        minute: task.minute,
        allergens: match previous {
            Some(r) => r.allergens,
            None => true,
        },
        senddiff: match previous {
            Some(r) => r.senddiff,
            None => true,
        },
    };
    regs.insert(chat_id, entry);
}

/// Whether a change task changes the canteen or the daily time, so that the job is reloaded.
pub open spec fn changes_job(task: JobHandlerTask) -> bool {
    task.hour is Some || task.minute is Some || task.mensa_id is Some
}

/// A change task names its chat.
pub open spec fn valid_change_task(task: JobHandlerTask) -> bool {
    task.chat_id is Some
}

/// The registration after a change: the fields that the task sets replace the old ones,
/// the preferences stay, and the job is the reloaded one when the task changes it.
pub open spec fn changed_entry(
    old_entry: RegistrationEntry,
    task: JobHandlerTask,
    reloaded_job: Option<JobId>,
) -> RegistrationEntry {
    RegistrationEntry {
        job_uuid: if changes_job(task) {
            reloaded_job
        } else {
            old_entry.job_uuid
        },
        mensa_id: match task.mensa_id {
            Some(m) => m,
            None => old_entry.mensa_id,
        },
        hour: match task.hour {
            Some(h) => Some(h),
            None => old_entry.hour,
        },
        minute: match task.minute {
            Some(m) => Some(m),
            None => old_entry.minute,
        },
        allergens: old_entry.allergens,
        senddiff: old_entry.senddiff,
    }
}

/// What a change task asks of the scheduler.
#[derive(Clone, Copy, Debug, PartialEq, Eq)]
pub enum ChangePlan {
    /// The chat has no registration: it is told so, and nothing else happens.
    NotRegistered,
    /// Nothing that the job depends on changes: the job stays.
    KeepJob,
    /// The job `old_job` (if any) is unloaded and a job for `job_task` is loaded.
    ReloadJob { old_job: Option<JobId>, job_task: UpdateRegistrationTask },
}

/// The task that loads the job of a changed registration.
pub open spec fn reload_task(chat_id: i64, old_entry: RegistrationEntry, task: JobHandlerTask) -> UpdateRegistrationTask {
    let e = changed_entry(old_entry, task, None);
    UpdateRegistrationTask { chat_id, mensa_id: Some(e.mensa_id), hour: e.hour, minute: e.minute }
}

/// The plan for a change task, by the registration book.
pub open spec fn change_plan(regs: Map<i64, RegistrationEntry>, task: JobHandlerTask) -> ChangePlan {
    let chat_id = task.chat_id->0;
    if !regs.contains_key(chat_id) {
        ChangePlan::NotRegistered
    } else if changes_job(task) {
        ChangePlan::ReloadJob {
            old_job: regs[chat_id].job_uuid,
            job_task: reload_task(chat_id, regs[chat_id], task),
        }
    } else {
        ChangePlan::KeepJob
    }
}

/// Decides what a change task asks of the scheduler.
pub fn plan_update_registration_task(
    regs: &BTreeMap<i64, RegistrationEntry>,
    task: &JobHandlerTask,
) -> (res: ChangePlan)
    requires
        valid_change_task(*task),
    ensures
        res == change_plan(regs@, *task),
        !regs@.contains_key(task.chat_id->0) ==> res == ChangePlan::NotRegistered,
        regs@.contains_key(task.chat_id->0) && task.mensa_id is None && task.hour is None
            && task.minute is None ==> res == ChangePlan::KeepJob,
        regs@.contains_key(task.chat_id->0) && (task.mensa_id is Some || task.hour is Some
            || task.minute is Some) ==> (res matches ChangePlan::ReloadJob { old_job, job_task } && {
            let o = regs@[task.chat_id->0];
            &&& old_job == o.job_uuid
            &&& job_task.chat_id == task.chat_id->0
            &&& job_task.mensa_id == Some(if task.mensa_id is Some { task.mensa_id->0 } else { o.mensa_id })
            &&& job_task.hour == (if task.hour is Some { task.hour } else { o.hour })
            &&& job_task.minute == (if task.minute is Some { task.minute } else { o.minute })
        }),
{
    let chat_id = task.chat_id.unwrap();
    match lookup(regs, chat_id) {
        None => ChangePlan::NotRegistered,
        Some(r) => {
            if task.hour.is_some() || task.minute.is_some() || task.mensa_id.is_some() {
                let job_task = UpdateRegistrationTask {
                    chat_id,
                    mensa_id: Some(
                        match task.mensa_id {
                            Some(m) => m,
                            None => r.mensa_id,
                        },
                    ),
                    hour: match task.hour {
                        Some(h) => Some(h),
                        None => r.hour,
                    },
                    minute: match task.minute {
                        Some(m) => Some(m),
                        None => r.minute,
                    },
                };
                ChangePlan::ReloadJob { old_job: r.job_uuid, job_task }
            } else {
                ChangePlan::KeepJob
            }
        },
    }
}

/// Applies a change task to the registration of its chat; `reloaded_job` is the job that the
/// plan's reload gave (it is not read when the plan keeps the job). Returns whether the chat
/// is registered; an unregistered chat leaves the book as it is.
pub fn handle_update_registration_task(
    regs: &mut BTreeMap<i64, RegistrationEntry>,
    task: &JobHandlerTask,
    reloaded_job: Option<JobId>,
) -> (registered: bool)
    requires
        valid_change_task(*task),
    ensures
        registered == old(regs)@.contains_key(task.chat_id->0),
        registered ==> final(regs)@ == old(regs)@.insert(
            task.chat_id->0,
            changed_entry(old(regs)@[task.chat_id->0], *task, reloaded_job),
        ),
        !registered ==> final(regs)@ == old(regs)@,
        registered ==> ({
            let c = task.chat_id->0;
            let o = old(regs)@[c];
            let e = final(regs)@[c];
            &&& final(regs)@.contains_key(c)
            &&& e.job_uuid == (if task.mensa_id is Some || task.hour is Some || task.minute is Some {
                reloaded_job
            } else {
                o.job_uuid
            })
            &&& e.mensa_id == (if task.mensa_id is Some { task.mensa_id->0 } else { o.mensa_id })
            &&& e.hour == (if task.hour is Some { task.hour } else { o.hour })
            &&& e.minute == (if task.minute is Some { task.minute } else { o.minute })
            &&& e.allergens == o.allergens
            &&& e.senddiff == o.senddiff
        }),
        forall|k: i64|
            k != task.chat_id->0 ==> (#[trigger] final(regs)@.contains_key(k) == old(regs)@.contains_key(k)
                && (old(regs)@.contains_key(k) ==> final(regs)@[k] == old(regs)@[k])),
{
    let chat_id = task.chat_id.unwrap();
    match lookup(regs, chat_id) {
        None => false,
        Some(r) => {
            let changes = task.hour.is_some() || task.minute.is_some() || task.mensa_id.is_some();
            let entry = RegistrationEntry {
                job_uuid: if changes {
                    reloaded_job
                } else {
                    r.job_uuid
                },
                mensa_id: match task.mensa_id {
                    Some(m) => m,
                    None => r.mensa_id,
                },
                hour: match task.hour {
                    Some(h) => Some(h),
                    None => r.hour,
                },
                minute: match task.minute {
                    Some(m) => Some(m),
                    None => r.minute,
                },
                allergens: r.allergens,
                senddiff: r.senddiff,
            };
            regs.insert(chat_id, entry);
            true
        },
    }
}

/// The registration after an unregistration: no job and no daily time; canteen and
/// preferences stay.
pub open spec fn unscheduled_entry(e: RegistrationEntry) -> RegistrationEntry {
    RegistrationEntry { job_uuid: None, hour: None, minute: None, ..e }
}

/// An unregistration names a registered chat that has a job.
pub open spec fn valid_unregistration(regs: Map<i64, RegistrationEntry>, task: JobHandlerTask) -> bool {
    &&& task.chat_id is Some
    &&& regs.contains_key(task.chat_id->0)
    &&& regs[task.chat_id->0].job_uuid is Some
}

/// Unregisters the daily job of `task`'s chat; returns the job to unload.
pub fn handle_delete_registration_task(
    regs: &mut BTreeMap<i64, RegistrationEntry>,
    task: &JobHandlerTask,
) -> (unloaded: JobId)
    requires
        valid_unregistration(old(regs)@, *task),
    ensures
        unloaded == old(regs)@[task.chat_id->0].job_uuid->0,
        final(regs)@ == old(regs)@.insert(
            task.chat_id->0,
            unscheduled_entry(old(regs)@[task.chat_id->0]),
        ),
        ({
            let c = task.chat_id->0;
            let o = old(regs)@[c];
            let e = final(regs)@[c];
            &&& final(regs)@.contains_key(c)
            &&& e.job_uuid is None
            &&& e.hour is None
            &&& e.minute is None
            &&& e.mensa_id == o.mensa_id
            &&& e.allergens == o.allergens
            &&& e.senddiff == o.senddiff
        }),
        forall|k: i64|
            k != task.chat_id->0 ==> (#[trigger] final(regs)@.contains_key(k) == old(regs)@.contains_key(k)
                && (old(regs)@.contains_key(k) ==> final(regs)@[k] == old(regs)@[k])),
{
    let chat_id = task.chat_id.unwrap();
    let r = lookup(regs, chat_id).unwrap();
    let job = r.job_uuid.unwrap();
    regs.insert(chat_id, RegistrationEntry { job_uuid: None, hour: None, minute: None, ..r });
    job
}

/// A registration read back from the database at start-up, with the job loaded for it and
/// its stored preferences.
#[derive(Clone, Copy, Debug, PartialEq, Eq)]
pub struct LoadedRegistration {
    pub task: JobHandlerTask,
    pub job_uuid: Option<JobId>,
    pub allergens: bool,
    pub senddiff: bool,
}

/// The entry of a registration read back from the database.
pub open spec fn loaded_entry(l: LoadedRegistration) -> RegistrationEntry {
    RegistrationEntry {
        job_uuid: l.job_uuid,
        mensa_id: l.task.mensa_id->0,
        hour: l.task.hour,
        minute: l.task.minute,
        allergens: l.allergens,
        senddiff: l.senddiff,
    }
}

/// The registration book built from the rows in order, a later row of a chat replacing
/// an earlier one.
pub open spec fn registrations_from_db(rows: Seq<LoadedRegistration>) -> Map<i64, RegistrationEntry>
    decreases rows.len(),
{
    if rows.len() == 0 {
        Map::empty()
    } else {
        registrations_from_db(rows.drop_last()).insert(
            rows.last().task.chat_id->0,
            loaded_entry(rows.last()),
        )
    }
}

/// A row read back from the database names its chat and canteen.
pub open spec fn valid_loaded_rows(rows: Seq<LoadedRegistration>) -> bool {
    forall|i: int|
        0 <= i < rows.len() ==> (#[trigger] rows[i]).task.chat_id is Some && rows[i].task.mensa_id is Some
}

/// Builds the registration book from the registrations read back from the database.
pub fn load_jobs_from_db(loaded: &Vec<LoadedRegistration>) -> (regs: BTreeMap<i64, RegistrationEntry>)
    requires
        valid_loaded_rows(loaded@),
    ensures
        regs@ == registrations_from_db(loaded@),
        forall|c: i64|
            #[trigger] regs@.contains_key(c) <==> exists|i: int|
                0 <= i < loaded.len() && loaded@[i].task.chat_id->0 == c,
        forall|i: int|
            0 <= i < loaded.len() && #[trigger] last_row_of_chat(loaded@, i) ==> {
                let e = regs@[loaded@[i].task.chat_id->0];
                &&& e.job_uuid == loaded@[i].job_uuid
                &&& e.mensa_id == loaded@[i].task.mensa_id->0
                &&& e.hour == loaded@[i].task.hour
                &&& e.minute == loaded@[i].task.minute
                &&& e.allergens == loaded@[i].allergens
                &&& e.senddiff == loaded@[i].senddiff
            },
{
    let mut regs: BTreeMap<i64, RegistrationEntry> = BTreeMap::new();
    let mut i: usize = 0;
    while i < loaded.len()
        invariant
            i <= loaded.len(),
            valid_loaded_rows(loaded@),
            regs@ == registrations_from_db(loaded@.take(i as int)),
        decreases loaded.len() - i,
    {
        let l = loaded[i];
        let entry = RegistrationEntry {
            job_uuid: l.job_uuid,
            mensa_id: l.task.mensa_id.unwrap(),
            hour: l.task.hour,
            minute: l.task.minute,
            allergens: l.allergens,
            senddiff: l.senddiff,
        };
        assert(loaded@[i as int] == l);
        regs.insert(l.task.chat_id.unwrap(), entry);
        assert(loaded@.take(i + 1).drop_last() =~= loaded@.take(i as int));
        i = i + 1;
    }
    assert(loaded@.take(loaded.len() as int) =~= loaded@);
    proof {
        lemma_loaded_rows_give_their_entries(loaded@);
    }
    regs
}

/// A change task that sets nothing leaves a registration, its job included, as it was.
pub proof fn lemma_empty_change_keeps_registration(
    e: RegistrationEntry,
    task: JobHandlerTask,
    reloaded_job: Option<JobId>,
)
    requires
        task.mensa_id is None,
        task.hour is None,
        task.minute is None,
    ensures
        changed_entry(e, task, reloaded_job) == e,
{
}

/// Registering anew, changing and unregistering never touch a registration's allergen and
/// diff preferences.
pub proof fn lemma_tasks_keep_preferences(
    e: RegistrationEntry,
    task: JobHandlerTask,
    job: Option<JobId>,
)
    ensures
        added_entry(task, Some(e), job).allergens == e.allergens,
        added_entry(task, Some(e), job).senddiff == e.senddiff,
        changed_entry(e, task, job).allergens == e.allergens,
        changed_entry(e, task, job).senddiff == e.senddiff,
        unscheduled_entry(e).allergens == e.allergens,
        unscheduled_entry(e).senddiff == e.senddiff,
{
}

/// When a change reloads the job, the loaded job is for the canteen and time that the
/// registration then holds.
pub proof fn lemma_reloaded_job_matches_registration(
    regs: Map<i64, RegistrationEntry>,
    task: JobHandlerTask,
    reloaded_job: Option<JobId>,
)
    requires
        valid_change_task(task),
        regs.contains_key(task.chat_id->0),
        changes_job(task),
    ensures
        change_plan(regs, task) matches ChangePlan::ReloadJob { old_job, job_task } && {
            let e = changed_entry(regs[task.chat_id->0], task, reloaded_job);
            &&& old_job == regs[task.chat_id->0].job_uuid
            &&& job_task.chat_id == task.chat_id->0
            &&& job_task.mensa_id == Some(e.mensa_id)
            &&& job_task.hour == e.hour
            &&& job_task.minute == e.minute
            &&& e.job_uuid == reloaded_job
        },
{
}

/// Every chat read back from the database is registered afterwards, with the entry of its
/// last row.
pub proof fn lemma_loaded_rows_are_registered(rows: Seq<LoadedRegistration>)
    ensures
        forall|i: int|
            0 <= i < rows.len() ==> registrations_from_db(rows).contains_key(
                (#[trigger] rows[i]).task.chat_id->0,
            ),
        rows.len() > 0 ==> registrations_from_db(rows)[rows.last().task.chat_id->0] == loaded_entry(
            rows.last(),
        ),
    decreases rows.len(),
{
    if rows.len() > 0 {
        lemma_loaded_rows_are_registered(rows.drop_last());
        assert forall|i: int| 0 <= i < rows.len() implies registrations_from_db(rows).contains_key(
            (#[trigger] rows[i]).task.chat_id->0,
        ) by {
            if i < rows.len() - 1 {
                assert(rows[i] == rows.drop_last()[i]);
            }
        }
    }
}

/// Registering a chat anew replaces exactly the job recorded for it: the job unloaded is
/// the chat's recorded job (none for an unregistered chat), whatever its canteen or time,
/// and afterwards the book records the newly loaded job.
pub proof fn lemma_registration_replaces_recorded_job(
    regs: Map<i64, RegistrationEntry>,
    task: JobHandlerTask,
    new_job: Option<JobId>,
)
    requires
        valid_registration_task(task),
    ensures
        regs.contains_key(task.chat_id->0) ==> registered_job(regs, task.chat_id->0)
            == regs[task.chat_id->0].job_uuid,
        !regs.contains_key(task.chat_id->0) ==> registered_job(regs, task.chat_id->0) is None,
        ({
            let c = task.chat_id->0;
            let previous = if regs.contains_key(c) {
                Some(regs[c])
            } else {
                None
            };
            registered_job(regs.insert(c, added_entry(task, previous, new_job)), c) == new_job
        }),
{
}

/// The entry of a registration records the newly loaded job, the task's canteen and daily
/// time, and the preferences of the earlier registration, which are on for a new chat.
pub proof fn lemma_added_entry_records_task(
    task: JobHandlerTask,
    previous: Option<RegistrationEntry>,
    job: Option<JobId>,
)
    ensures
        ({
            let e = added_entry(task, previous, job);
            &&& e.job_uuid == job
            &&& e.mensa_id == task.mensa_id->0
            &&& e.hour == task.hour
            &&& e.minute == task.minute
            &&& previous is None ==> e.allergens && e.senddiff
            &&& previous matches Some(r) ==> e.allergens == r.allergens && e.senddiff == r.senddiff
        }),
{
}

/// A change takes each of canteen, hour and minute from the task where the task sets it and
/// keeps it otherwise; the job is the reloaded one exactly when the task sets any of them.
pub proof fn lemma_changed_entry_takes_set_fields(
    e: RegistrationEntry,
    task: JobHandlerTask,
    reloaded_job: Option<JobId>,
)
    ensures
        ({
            let n = changed_entry(e, task, reloaded_job);
            &&& task.mensa_id matches Some(m) ==> n.mensa_id == m
            &&& task.mensa_id is None ==> n.mensa_id == e.mensa_id
            &&& task.hour is Some ==> n.hour == task.hour
            &&& task.hour is None ==> n.hour == e.hour
            &&& task.minute is Some ==> n.minute == task.minute
            &&& task.minute is None ==> n.minute == e.minute
            &&& (task.mensa_id is Some || task.hour is Some || task.minute is Some) ==> n.job_uuid
                == reloaded_job
            &&& (task.mensa_id is None && task.hour is None && task.minute is None) ==> n.job_uuid
                == e.job_uuid
            &&& n.allergens == e.allergens
            &&& n.senddiff == e.senddiff
        }),
{
}

/// The plan of a change: an unregistered chat is only told so; a change that sets nothing
/// keeps the job; any other change unloads the recorded job and loads one for the canteen
/// and time that the registration then holds.
pub proof fn lemma_change_plan_cases(regs: Map<i64, RegistrationEntry>, task: JobHandlerTask)
    requires
        valid_change_task(task),
    ensures
        !regs.contains_key(task.chat_id->0) ==> change_plan(regs, task) == ChangePlan::NotRegistered,
        regs.contains_key(task.chat_id->0) && task.mensa_id is None && task.hour is None
            && task.minute is None ==> change_plan(regs, task) == ChangePlan::KeepJob,
        regs.contains_key(task.chat_id->0) && (task.mensa_id is Some || task.hour is Some
            || task.minute is Some) ==> (change_plan(regs, task) matches ChangePlan::ReloadJob {
            old_job,
            job_task,
        } && {
            let o = regs[task.chat_id->0];
            &&& old_job == o.job_uuid
            &&& job_task.chat_id == task.chat_id->0
            &&& job_task.mensa_id == Some(if task.mensa_id is Some { task.mensa_id->0 } else { o.mensa_id })
            &&& job_task.hour == (if task.hour is Some { task.hour } else { o.hour })
            &&& job_task.minute == (if task.minute is Some { task.minute } else { o.minute })
        }),
{
}

/// Unregistering drops the job and the daily time and keeps canteen and preferences.
pub proof fn lemma_unscheduled_entry_fields(e: RegistrationEntry)
    ensures
        unscheduled_entry(e).job_uuid is None,
        unscheduled_entry(e).hour is None,
        unscheduled_entry(e).minute is None,
        unscheduled_entry(e).mensa_id == e.mensa_id,
        unscheduled_entry(e).allergens == e.allergens,
        unscheduled_entry(e).senddiff == e.senddiff,
{
}

/// Whether no row after row `i` names the chat of row `i`.
pub open spec fn last_row_of_chat(rows: Seq<LoadedRegistration>, i: int) -> bool {
    forall|j: int| i < j < rows.len() ==> (#[trigger] rows[j]).task.chat_id != rows[i].task.chat_id
}

/// The book built at start-up holds exactly the chats of the rows, and each chat the
/// job, canteen, daily time and preferences of its last row (of its only row when the rows
/// name distinct chats).
pub proof fn lemma_loaded_rows_give_their_entries(rows: Seq<LoadedRegistration>)
    ensures
        forall|c: i64|
            #[trigger] registrations_from_db(rows).contains_key(c) <==> exists|i: int|
                0 <= i < rows.len() && rows[i].task.chat_id->0 == c,
        forall|i: int|
            0 <= i < rows.len() && valid_loaded_rows(rows) && #[trigger] last_row_of_chat(rows, i) ==> {
                let e = registrations_from_db(rows)[rows[i].task.chat_id->0];
                &&& e.job_uuid == rows[i].job_uuid
                &&& e.mensa_id == rows[i].task.mensa_id->0
                &&& e.hour == rows[i].task.hour
                &&& e.minute == rows[i].task.minute
                &&& e.allergens == rows[i].allergens
                &&& e.senddiff == rows[i].senddiff
            },
    decreases rows.len(),
{
    if rows.len() > 0 {
        let p = rows.drop_last();
        lemma_loaded_rows_give_their_entries(p);
        let m = registrations_from_db(rows);
        let last = rows.last();
        assert forall|c: i64| #[trigger] m.contains_key(c) <==> exists|i: int|
            0 <= i < rows.len() && rows[i].task.chat_id->0 == c by {
            if m.contains_key(c) {
                if c == last.task.chat_id->0 {
                    assert(rows[rows.len() - 1].task.chat_id->0 == c);
                } else {
                    assert(registrations_from_db(p).contains_key(c));
                    let i = choose|i: int| 0 <= i < p.len() && p[i].task.chat_id->0 == c;
                    assert(rows[i] == p[i]);
                }
            }
            if exists|i: int| 0 <= i < rows.len() && rows[i].task.chat_id->0 == c {
                let i = choose|i: int| 0 <= i < rows.len() && rows[i].task.chat_id->0 == c;
                if i < rows.len() - 1 {
                    assert(p[i] == rows[i]);
                    assert(registrations_from_db(p).contains_key(c));
                }
            }
        }
        assert forall|i: int|
            0 <= i < rows.len() && valid_loaded_rows(rows) && #[trigger] last_row_of_chat(rows, i) implies {
            let e = m[rows[i].task.chat_id->0];
            &&& e.job_uuid == rows[i].job_uuid
            &&& e.mensa_id == rows[i].task.mensa_id->0
            &&& e.hour == rows[i].task.hour
            &&& e.minute == rows[i].task.minute
            &&& e.allergens == rows[i].allergens
            &&& e.senddiff == rows[i].senddiff
        } by {
            if i < rows.len() - 1 {
                assert(p[i] == rows[i]);
                assert(rows[rows.len() - 1].task.chat_id != rows[i].task.chat_id);
                assert(rows[i].task.chat_id is Some && last.task.chat_id is Some);
                assert(last.task.chat_id->0 != rows[i].task.chat_id->0);
                assert forall|j: int| i < j < p.len() implies (#[trigger] p[j]).task.chat_id != p[i].task.chat_id by {
                    assert(p[j] == rows[j]);
                }
                assert(last_row_of_chat(p, i));
                assert forall|k: int| 0 <= k < p.len() implies (#[trigger] p[k]).task.chat_id is Some
                    && p[k].task.mensa_id is Some by {
                    assert(p[k] == rows[k]);
                }
                assert(valid_loaded_rows(p));
            }
        }
    }
}

} // verus!

//! The values that the scheduler's tasks and the registration book carry.
use vstd::prelude::*;

verus! {

/// A scheduled job of the cron scheduler, named by the 128 bits of its UUID.
pub type JobId = u128;

/// What the logic reads of a change to today's meal plan of one canteen: the canteen,
/// and which kinds of change it holds.
#[derive(Clone, Copy, Debug, PartialEq, Eq)]
pub struct MealsDiff {
    pub canteen_id: u32,
    pub has_new_meals: bool,
    pub has_modified_meals_ignoring_allergens: bool,
    pub has_removed_meals: bool,
}

/// A task handed to the job handler: a registration, a change of one, an unregistration
/// or a meal plan update to broadcast. Fields that a task does not set are `None`.
#[derive(Clone, Copy, Debug, PartialEq, Eq)]
pub struct JobHandlerTask {
    pub chat_id: Option<i64>,
    pub mensa_id: Option<u32>,
    pub hour: Option<u32>,
    pub minute: Option<u32>,
    pub meals_diff: Option<MealsDiff>,
}

/// A registration as the database row holds it, and the task that (re)loads its job.
#[derive(Clone, Copy, Debug, PartialEq, Eq)]
pub struct UpdateRegistrationTask {
    pub chat_id: i64,
    pub mensa_id: Option<u32>,
    pub hour: Option<u32>,
    pub minute: Option<u32>,
}

/// A meal plan update to broadcast to the subscribers of its canteen.
#[derive(Clone, Copy, Debug, PartialEq, Eq)]
pub struct BroadcastUpdateTask {
    pub meals_diff: MealsDiff,
}

/// The in-memory registration of one chat: its daily job (if any), canteen, daily time,
/// and whether it wants allergens shown and changes sent as a diff.
#[derive(Clone, Copy, Debug, PartialEq, Eq)]
pub struct RegistrationEntry {
    pub job_uuid: Option<JobId>,
    pub mensa_id: u32,
    pub hour: Option<u32>,
    pub minute: Option<u32>,
    pub allergens: bool,
    pub senddiff: bool,
}

/// The job handler task that an `UpdateRegistrationTask` stands for.
pub open spec fn task_of_registration_update(u: UpdateRegistrationTask) -> JobHandlerTask {
    JobHandlerTask {
        chat_id: Some(u.chat_id),
        mensa_id: u.mensa_id,
        hour: u.hour,
        minute: u.minute,
        meals_diff: None,
    }
}

/// The task made from a stored registration carries the row's chat, canteen, hour and minute
/// field by field, and no meal plan change.
pub proof fn lemma_registration_task_keeps_row(u: UpdateRegistrationTask)
    ensures
        task_of_registration_update(u).chat_id == Some(u.chat_id),
        task_of_registration_update(u).mensa_id == u.mensa_id,
        task_of_registration_update(u).hour == u.hour,
        task_of_registration_update(u).minute == u.minute,
        task_of_registration_update(u).meals_diff is None,
{
}

/// The job handler task that a `BroadcastUpdateTask` stands for.
pub open spec fn task_of_broadcast_update(b: BroadcastUpdateTask) -> JobHandlerTask {
    JobHandlerTask {
        chat_id: None,
        mensa_id: None,
        hour: None,
        minute: None,
        meals_diff: Some(b.meals_diff),
    }
}

impl JobHandlerTask {
    /// The task that (re)loads the job of a registration.
    pub fn from_registration_update(u: UpdateRegistrationTask) -> (res: JobHandlerTask)
        ensures
            res == task_of_registration_update(u),
            res.chat_id == Some(u.chat_id),
            res.mensa_id == u.mensa_id,
            res.hour == u.hour,
            res.minute == u.minute,
            res.meals_diff is None,
    {
        JobHandlerTask {
            chat_id: Some(u.chat_id),
            mensa_id: u.mensa_id,
            hour: u.hour,
            minute: u.minute,
            meals_diff: None,
        }
    }

    /// The task that broadcasts a meal plan update.
    pub fn from_broadcast_update(b: BroadcastUpdateTask) -> (res: JobHandlerTask)
        ensures
            res == task_of_broadcast_update(b),
            res.meals_diff == Some(b.meals_diff),
            res.chat_id is None && res.mensa_id is None && res.hour is None && res.minute is None,
    {
        JobHandlerTask {
            chat_id: None,
            mensa_id: None,
            hour: None,
            minute: None,
            meals_diff: Some(b.meals_diff),
        }
    }
}

} // verus!

//! The application's job slot: at most one compression job runs at a time,
//! and it can be cancelled by its id.

use vstd::prelude::*;
use crate::text::{chars_of, push_decimal_u128, str_equal, string_of};

verus! {

/// A running job: its id and whether cancellation was requested.
pub struct JobControl {
    pub id: String,
    pub cancelled: bool,
}

impl JobControl {
    /// A job that is not cancelled.
    pub fn new(id: String) -> (r: Self)
        ensures
            r.id == id,
            !r.cancelled,
    {
        JobControl { id, cancelled: false }
    }

    /// Requests cancellation.
    pub fn cancel(&mut self)
        ensures
            final(self).id == old(self).id,
            final(self).cancelled,
    {
        self.cancelled = true;
    }

    /// Whether cancellation was requested.
    pub fn is_cancelled(&self) -> (r: bool)
        ensures
            r == self.cancelled,
    {
        self.cancelled
    }
}

/// The slot after a clear request for `id`: emptied when it holds that job.
pub open spec fn cleared(slot: Option<JobControl>, id: Seq<char>) -> Option<JobControl> {
    match slot {
        Some(job) => if job.id@ == id { None } else { slot },
        None => None,
    }
}

/// The slot after a cancel request for `id`: its job is marked cancelled
/// when the ids match.
pub open spec fn cancelled_in(slot: Option<JobControl>, id: Seq<char>) -> Option<JobControl> {
    match slot {
        Some(job) => if job.id@ == id { Some(JobControl { cancelled: true, ..job }) } else { slot },
        None => None,
    }
}

/// Cancellation is final: once the running job is marked cancelled, a
/// cancel request for any id leaves it marked, and a clear request that
/// keeps it leaves it marked.
pub proof fn law_cancellation_is_final(slot: Option<JobControl>, id: Seq<char>)
    requires
        slot matches Some(job) && job.cancelled,
    ensures
        cancelled_in(slot, id) matches Some(job) && job.cancelled,
        cleared(slot, id) matches Some(job) ==> job.cancelled,
{
}

/// The application's state: the job that is running, if any.
pub struct AppState {
    current_job: Option<JobControl>,
}

impl AppState {
    /// The running job.
    pub closed spec fn current(&self) -> Option<JobControl> {
        self.current_job
    }

    /// A state with no running job.
    pub fn new() -> (r: Self)
        ensures
            r.current() is None,
    {
        AppState { current_job: None }
    }

    /// Makes `job` the running job.
    pub fn set_current_job(&mut self, job: JobControl)
        ensures
            final(self).current() == Some(job),
    {
        self.current_job = Some(job);
    }

    /// Forgets the running job if it is the one with id `job_id`.
    pub fn clear_current_job(&mut self, job_id: &str)
        ensures
            final(self).current() == cleared(old(self).current(), job_id@),
    {
        let matches = match &self.current_job {
            Some(job) => str_equal(job.id.as_str(), job_id),
            None => false,
        };
        if matches {
            self.current_job = None;
        }
    }

    /// The running job.
    pub fn current_job(&self) -> (r: Option<&JobControl>)
        ensures
            match r {
                Some(job) => self.current() == Some(*job),
                None => self.current() is None,
            },
    {
        match &self.current_job {
            Some(job) => Some(job),
            None => None,
        }
    }

    /// Starts `job` unless another job is running.
    pub fn start_job(&mut self, job: JobControl) -> (r: Result<(), String>)
        ensures
            old(self).current() is None ==> r is Ok && final(self).current() == Some(job),
            old(self).current() is Some ==> final(self).current() == old(self).current() && (r matches Err(e) && e@ == "当前已有任务在运行，请先等待完成或取消。"@),
    {
        if self.current_job.is_some() {
            return Err(String::from_str("当前已有任务在运行，请先等待完成或取消。"));
        }
        self.set_current_job(job);
        Ok(())
    }

    /// Cancels the running job if its id is `job_id`; tells whether it did.
    pub fn cancel_compress_job(&mut self, job_id: &str) -> (r: bool)
        ensures
            r == (old(self).current() matches Some(job) && job.id@ == job_id@),
            final(self).current() == cancelled_in(old(self).current(), job_id@),
    {
        match &mut self.current_job {
            Some(job) => {
                if str_equal(job.id.as_str(), job_id) {
                    job.cancel();
                    true
                } else {
                    false
                }
            },
            None => false,
        }
    }

    /// Whether the job with id `job_id` is running and was asked to stop.
    pub fn is_job_cancelled(&self, job_id: &str) -> (r: bool)
        ensures
            r == (self.current() matches Some(job) && job.id@ == job_id@ && job.cancelled),
    {
        match &self.current_job {
            Some(job) => str_equal(job.id.as_str(), job_id) && job.cancelled,
            None => false,
        }
    }
}

/// The id of a job started at `millis` milliseconds after the Unix epoch.
pub fn job_id_from_millis(millis: u128) -> (r: String)
    ensures
        r@ == "job-"@ + crate::text::decimal(millis as nat),
{
    let mut v = chars_of("job-");
    push_decimal_u128(&mut v, millis);
    string_of(v)
}

/// Clearing the running job by its own id leaves no job running; clearing
/// by another id keeps it.
pub proof fn law_clear_started_job(job: JobControl, other: Seq<char>)
    ensures
        cleared(Some(job), job.id@) is None,
        other != job.id@ ==> cleared(Some(job), other) == Some(job),
{
}

/// A cancel request reaches only the job it names: the job keeps its id,
/// and a request for another id changes nothing.
pub proof fn law_cancel_only_named_job(slot: Option<JobControl>, id: Seq<char>)
    ensures
        match (slot, cancelled_in(slot, id)) {
            (Some(a), Some(b)) => a.id == b.id && (b.cancelled <==> (a.cancelled || a.id@ == id)),
            (None, None) => true,
            _ => false,
        },
{
}

} // verus!

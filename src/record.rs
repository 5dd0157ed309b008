use vstd::prelude::*;

verus! {

/// What a worker is doing when it reports.
#[derive(Clone, Copy, Debug, PartialEq, Eq, Structural)]
pub enum Activity {
    Idle,
    Busy,
    Suspended,
}

/// Outcome of the last job a worker handled.
#[derive(Clone, Copy, Debug, PartialEq, Eq, Structural)]
pub enum JobStatus {
    Unknown,
    Initialized,
    Running,
    Stopped,
    Completed,
    Error,
    Updated,
}

/// The status a worker reports about itself.
#[derive(Debug)]
pub struct StatusRecord {
    /// Identity of the worker instance (its container id).
    pub worker_id: String,
    pub used_memory: u64,
    pub total_memory: u64,
    pub used_swap: u64,
    pub total_swap: u64,
    pub processors: u64,
    pub activity: Activity,
    /// Status of the last job, if the worker has handled one.
    pub job_status: Option<JobStatus>,
}

/// Mathematical value of a `StatusRecord`.
pub struct RecordView {
    pub worker_id: Seq<char>,
    pub used_memory: u64,
    pub total_memory: u64,
    pub used_swap: u64,
    pub total_swap: u64,
    pub processors: u64,
    pub activity: Activity,
    pub job_status: Option<JobStatus>,
}

impl View for StatusRecord {
    type V = RecordView;

    open spec fn view(&self) -> RecordView {
        RecordView {
            worker_id: self.worker_id@,
            used_memory: self.used_memory,
            total_memory: self.total_memory,
            used_swap: self.used_swap,
            total_swap: self.total_swap,
            processors: self.processors,
            activity: self.activity,
            job_status: self.job_status,
        }
    }
}

impl StatusRecord {
    /// A field-by-field copy.
    pub fn duplicate(&self) -> (r: StatusRecord)
        ensures
            r@ == self@,
    {
        StatusRecord {
            worker_id: self.worker_id.clone(),
            used_memory: self.used_memory,
            total_memory: self.total_memory,
            used_swap: self.used_swap,
            total_swap: self.total_swap,
            processors: self.processors,
            activity: self.activity,
            job_status: self.job_status,
        }
    }
}

/// Name under which an activity is shown.
pub open spec fn activity_label(a: Activity) -> Seq<char> {
    match a {
        Activity::Idle => "Idle"@,
        Activity::Busy => "Busy"@,
        Activity::Suspended => "Suspended"@,
    }
}

/// Name under which a job status is shown.
pub open spec fn job_status_label(s: JobStatus) -> Seq<char> {
    match s {
        JobStatus::Unknown => "Unknown"@,
        JobStatus::Initialized => "Initialized"@,
        JobStatus::Running => "Running"@,
        JobStatus::Stopped => "Stopped"@,
        JobStatus::Completed => "Completed"@,
        JobStatus::Error => "Error"@,
        JobStatus::Updated => "Updated"@,
    }
}

/// The last-status column: the job's status, or a dash when there is none.
pub open spec fn last_status_label(s: Option<JobStatus>) -> Seq<char> {
    match s {
        Some(j) => job_status_label(j),
        None => "-"@,
    }
}

impl Activity {
    pub fn label(&self) -> (r: &'static str)
        ensures
            r@ == activity_label(*self),
    {
        match self {
            Activity::Idle => "Idle",
            Activity::Busy => "Busy",
            Activity::Suspended => "Suspended",
        }
    }
}

impl JobStatus {
    pub fn label(&self) -> (r: &'static str)
        ensures
            r@ == job_status_label(*self),
    {
        match self {
            JobStatus::Unknown => "Unknown",
            JobStatus::Initialized => "Initialized",
            JobStatus::Running => "Running",
            JobStatus::Stopped => "Stopped",
            JobStatus::Completed => "Completed",
            JobStatus::Error => "Error",
            JobStatus::Updated => "Updated",
        }
    }
}

pub fn last_status(s: Option<JobStatus>) -> (r: &'static str)
    ensures
        r@ == last_status_label(s),
{
    match s {
        Some(j) => j.label(),
        None => "-",
    }
}

} // verus!

use vstd::prelude::*;
use crate::background::BackgroundOperationProgress;

verus! {

/// The kinds of background job; at most one of each runs at a time.
#[derive(Debug, Clone, Copy, PartialEq, Eq, Structural)]
pub enum JobKind {
    ItsfRankings,
    DtfbRankings,
}

/// Refusal to start a job while one of the same kind is active.
#[derive(Debug, Clone, Copy, PartialEq, Eq, Structural)]
pub struct AlreadyRunning {
    pub kind: JobKind,
}

/// Which job, if any, holds each kind's slot, and the id the next job gets.
pub struct SupervisorView {
    pub itsf: Option<u64>,
    pub dtfb: Option<u64>,
    pub next_id: u64,
}

pub open spec fn slot(v: SupervisorView, kind: JobKind) -> Option<u64> {
    match kind {
        JobKind::ItsfRankings => v.itsf,
        JobKind::DtfbRankings => v.dtfb,
    }
}

pub open spec fn with_slot(v: SupervisorView, kind: JobKind, s: Option<u64>) -> SupervisorView {
    match kind {
        JobKind::ItsfRankings => SupervisorView { itsf: s, ..v },
        JobKind::DtfbRankings => SupervisorView { dtfb: s, ..v },
    }
}

pub open spec fn following_id(n: u64) -> u64 {
    if n == u64::MAX {
        0
    } else {
        (n + 1) as u64
    }
}

/// The state after a start of `kind` that was let through.
pub open spec fn started(v: SupervisorView, kind: JobKind) -> SupervisorView {
    SupervisorView { next_id: following_id(v.next_id), ..with_slot(v, kind, Some(v.next_id)) }
}

/// The state after job `id` of `kind` ended: the slot is freed if `id` holds it.
pub open spec fn finished(v: SupervisorView, kind: JobKind, id: u64) -> SupervisorView {
    if slot(v, kind) == Some(id) {
        with_slot(v, kind, None)
    } else {
        v
    }
}

/// Single-flight guard: one active job id per kind.
pub struct JobSupervisor {
    itsf: Option<u64>,
    dtfb: Option<u64>,
    next_id: u64,
}

impl View for JobSupervisor {
    type V = SupervisorView;

    closed spec fn view(&self) -> SupervisorView {
        SupervisorView { itsf: self.itsf, dtfb: self.dtfb, next_id: self.next_id }
    }
}

impl JobSupervisor {
    pub fn new() -> (r: Self)
        ensures
            r@.itsf is None,
            r@.dtfb is None,
    {
        JobSupervisor { itsf: None, dtfb: None, next_id: 0 }
    }

    /// Reserves the slot of `kind` for a new job and returns the job's id, or
    /// refuses while a job of that kind holds it. Never waits.
    pub fn start_job(&mut self, kind: JobKind) -> (r: Result<u64, AlreadyRunning>)
        ensures
            match slot(old(self)@, kind) {
                Some(_) => r == Err::<u64, AlreadyRunning>(AlreadyRunning { kind }) && final(self)@ == old(self)@,
                None => r == Ok::<u64, AlreadyRunning>(old(self)@.next_id) && final(self)@ == started(old(self)@, kind),
            },
    {
        let current = match kind {
            JobKind::ItsfRankings => self.itsf,
            JobKind::DtfbRankings => self.dtfb,
        };
        if current.is_some() {
            return Err(AlreadyRunning { kind });
        }
        let id = self.next_id;
        match kind {
            JobKind::ItsfRankings => self.itsf = Some(id),
            JobKind::DtfbRankings => self.dtfb = Some(id),
        }
        self.next_id = if self.next_id == u64::MAX { 0 } else { self.next_id + 1 };
        Ok(id)
    }

    /// Called by job `id` on every way out; frees the slot if that job holds it.
    pub fn finish_job(&mut self, kind: JobKind, id: u64)
        ensures
            final(self)@ == finished(old(self)@, kind, id),
    {
        match kind {
            JobKind::ItsfRankings => {
                if self.itsf == Some(id) {
                    self.itsf = None;
                }
            },
            JobKind::DtfbRankings => {
                if self.dtfb == Some(id) {
                    self.dtfb = None;
                }
            },
        }
    }

    pub fn is_running(&self, kind: JobKind) -> (r: bool)
        ensures
            r == (slot(self@, kind) is Some),
    {
        match kind {
            JobKind::ItsfRankings => self.itsf.is_some(),
            JobKind::DtfbRankings => self.dtfb.is_some(),
        }
    }
}

/// What a status poll reports: whether a job of the kind is running, and
/// its log while it is.
#[derive(Debug)]
pub struct JobStatus {
    pub running: bool,
    pub log: Vec<String>,
}

/// The status of `kind`, given the progress of the job last started of that
/// kind, if any: running with a copy of its log while the slot is held,
/// otherwise not running with an empty log.
pub fn job_status(
    supervisor: &JobSupervisor,
    kind: JobKind,
    progress: Option<&BackgroundOperationProgress>,
) -> (r: JobStatus)
    ensures
        r.running == (slot(supervisor@, kind) is Some && progress is Some),
        r.running ==> r.log@ == progress->0@.log,
        !r.running ==> r.log@ == Seq::<String>::empty(),
{
    match progress {
        Some(p) => {
            if supervisor.is_running(kind) {
                JobStatus { running: true, log: p.get_log() }
            } else {
                JobStatus { running: false, log: Vec::new() }
            }
        },
        None => JobStatus { running: false, log: Vec::new() },
    }
}

/// Single flight: right after a start of `kind` was let through, another
/// start of `kind` is refused; once that job has finished, a start of `kind`
/// is let through again. The other kind's slot is untouched throughout.
pub proof fn lemma_single_flight(v: SupervisorView, kind: JobKind, other: JobKind)
    requires
        slot(v, kind) is None,
        other != kind,
    ensures
        slot(started(v, kind), kind) == Some(v.next_id),
        slot(finished(started(v, kind), kind, v.next_id), kind) is None,
        slot(started(v, kind), other) == slot(v, other),
        slot(finished(started(v, kind), kind, v.next_id), other) == slot(v, other),
{
}

} // verus!

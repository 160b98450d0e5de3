//! Render jobs: their numbering, which result is still wanted, and the
//! single slot in which the latest request waits for the worker.
use vstd::prelude::*;

verus! {

/// The number of a render job. Later jobs have greater numbers.
#[derive(Clone, Copy, Debug, PartialEq, Eq, Hash, Structural)]
pub struct JobId(pub u64);

impl JobId {
    /// A result is shown unless a later job was requested since: then it is
    /// stale.
    pub open spec fn is_current_spec(self, newest_requested: Option<JobId>) -> bool {
        match newest_requested {
            None => true,
            Some(requested) => self.0 >= requested.0,
        }
    }

    /// The number of the job after this one.
    pub fn next(&self) -> (id: JobId)
        requires
            self.0 < u64::MAX,
        ensures
            id.0 == self.0 + 1,
    {
        JobId(self.0 + 1)
    }

    /// Whether the result of this job is to be shown.
    pub fn is_current(&self, newest_requested: Option<JobId>) -> (b: bool)
        ensures
            b == self.is_current_spec(newest_requested),
    {
        match newest_requested {
            None => true,
            Some(requested) => self.0 >= requested.0,
        }
    }
}

/// The jobs of an interactive render: the number of the next job, the
/// newest job that was requested and the newest whose result was taken.
#[derive(Clone, Copy, Debug)]
pub struct JobBoard {
    pub next_job_id: JobId,
    pub newest_requested_job: Option<JobId>,
    pub newest_finished_job: Option<JobId>,
}

impl JobBoard {
    /// Numbers were handed out in ascending order: the newest request
    /// carries the number before the next one, and no result is newer than
    /// the newest request.
    pub open spec fn wf(&self) -> bool {
        &&& self.newest_requested_job matches Some(requested) ==> requested.0 == self.next_job_id.0
        &&& self.newest_requested_job is None ==> self.next_job_id.0 == 0
        &&& self.newest_finished_job matches Some(finished) ==> finished.0 <= self.next_job_id.0
            && self.newest_requested_job is Some
    }

    /// A render is awaited: the newest request has no result yet.
    pub open spec fn pending_spec(&self) -> bool {
        self.newest_finished_job != self.newest_requested_job
    }

    /// A board on which nothing was requested.
    pub fn new() -> (board: JobBoard)
        ensures
            board.next_job_id == JobId(0),
            board.newest_requested_job is None,
            board.newest_finished_job is None,
            board.wf(),
    {
        JobBoard { next_job_id: JobId(0), newest_requested_job: None, newest_finished_job: None }
    }

    /// Requests a render and hands out its number, which is greater than
    /// every number handed out before.
    pub fn request(&mut self) -> (id: JobId)
        requires
            old(self).next_job_id.0 < u64::MAX,
        ensures
            id.0 == old(self).next_job_id.0 + 1,
            final(self).next_job_id == id,
            final(self).newest_requested_job == Some(id),
            final(self).newest_finished_job == old(self).newest_finished_job,
            old(self).wf() ==> final(self).wf() && final(self).pending_spec(),
    {
        self.next_job_id = self.next_job_id.next();
        let id = self.next_job_id;
        self.newest_requested_job = Some(id);
        id
    }

    /// Takes in the result of a job. The result is accepted, and the job
    /// noted as finished, unless a later job was requested since: a stale
    /// result changes nothing.
    pub fn finish(&mut self, id: JobId) -> (accepted: bool)
        ensures
            accepted == id.is_current_spec(old(self).newest_requested_job),
            accepted ==> final(self).newest_finished_job == Some(id),
            !accepted ==> final(self).newest_finished_job == old(self).newest_finished_job,
            final(self).next_job_id == old(self).next_job_id,
            final(self).newest_requested_job == old(self).newest_requested_job,
            old(self).wf() && old(self).newest_requested_job is Some && id.0 <= old(
                self,
            ).next_job_id.0 ==> final(self).wf(),
    {
        if id.is_current(self.newest_requested_job) {
            self.newest_finished_job = Some(id);
            true
        } else {
            false
        }
    }

    /// Whether a render is awaited.
    pub fn pending(&self) -> (b: bool)
        ensures
            b == self.pending_spec(),
    {
        match (self.newest_finished_job, self.newest_requested_job) {
            (None, None) => false,
            (Some(finished), Some(requested)) => finished.0 != requested.0,
            _ => true,
        }
    }
}

/// The result of a job is stale as soon as another job was requested: it is
/// then no longer accepted.
pub proof fn lemma_stale_results_are_dropped(board: JobBoard, id: JobId)
    requires
        board.wf(),
        board.newest_requested_job is Some,
        id.0 < board.next_job_id.0,
    ensures
        !id.is_current_spec(board.newest_requested_job),
{
}

/// A slot for one pending request. A new request replaces the one that
/// waits: the worker only ever sees the latest.
#[derive(Debug)]
pub struct Mailbox<T> {
    pub slot: Option<T>,
}

impl<T> Mailbox<T> {
    pub fn new() -> (m: Mailbox<T>)
        ensures
            m.slot is None,
    {
        Mailbox { slot: None }
    }

    /// Puts a request into the slot and hands back the one it replaces.
    pub fn post(&mut self, request: T) -> (dropped: Option<T>)
        ensures
            final(self).slot == Some(request),
            dropped == old(self).slot,
    {
        let dropped = self.slot.take();
        self.slot = Some(request);
        dropped
    }

    /// Takes the waiting request, if there is one, and leaves the slot
    /// empty.
    pub fn take(&mut self) -> (request: Option<T>)
        ensures
            request == old(self).slot,
            final(self).slot is None,
    {
        self.slot.take()
    }
}

/// What the slot holds after a run of requests: the last of them, or what it
/// held if there were none.
pub open spec fn after_posts<T>(slot: Option<T>, requests: Seq<T>) -> Option<T> {
    if requests.len() == 0 {
        slot
    } else {
        Some(requests.last())
    }
}

/// Posts a run of requests, oldest first.
pub fn post_all<T>(mailbox: &mut Mailbox<T>, requests: Vec<T>)
    ensures
        final(mailbox).slot == after_posts(old(mailbox).slot, requests@),
{
    let mut requests = requests;
    if requests.len() > 0 {
        mailbox.slot = requests.pop();
    }
}

} // verus!

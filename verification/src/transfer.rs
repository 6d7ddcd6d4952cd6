//! File-transfer jobs: the tables of running jobs, the pump that drives
//! downloads, and the progress line.

use crate::message::Message;
use crate::size::{fmt_size, size_text};
use crate::status::{set_file_transfer, AppState, StateView};
use crate::text::{decimal, decimal_string};
use vstd::prelude::*;
use vstd::string::StringExecFns;

verus! {

/// A running transfer. `H` holds what the file system needs to carry on.
pub struct TransferJob<X, H> {
    pub id: i32,
    /// Number of the file in progress.
    pub file_num: i32,
    /// Whether the device reads files (the controller downloads).
    pub is_read: bool,
    pub done: bool,
    /// Name of the file in progress.
    pub name: String,
    pub total_size: u64,
    pub finished_size: u64,
    /// A message that the outgoing channel had no room for.
    pub pending: Option<Message<X>>,
    pub handle: H,
}

/// Index of the first job with an ID; the number of jobs when there is none.
pub open spec fn first_job<X, H>(jobs: Seq<TransferJob<X, H>>, id: i32) -> int
    decreases jobs.len(),
{
    if jobs.len() == 0 || jobs[0].id == id {
        0
    } else {
        1 + first_job(jobs.drop_first(), id)
    }
}

/// The jobs without the first one with an ID; the others keep their order.
pub open spec fn without_job<X, H>(jobs: Seq<TransferJob<X, H>>, id: i32) -> Seq<
    TransferJob<X, H>,
> {
    let i = first_job(jobs, id);
    if 0 <= i < jobs.len() {
        jobs.remove(i)
    } else {
        jobs
    }
}

/// The jobs after the removal of one job for each of the IDs, in turn.
pub open spec fn evicted<X, H>(jobs: Seq<TransferJob<X, H>>, ids: Seq<i32>) -> Seq<
    TransferJob<X, H>,
>
    decreases ids.len(),
{
    if ids.len() == 0 {
        jobs
    } else {
        evicted(without_job(jobs, ids[0]), ids.drop_first())
    }
}

/// `first_job` finds a job with the ID, and the first one.
pub proof fn lemma_first_job<X, H>(jobs: Seq<TransferJob<X, H>>, id: i32)
    ensures
        0 <= first_job(jobs, id) <= jobs.len(),
        first_job(jobs, id) < jobs.len() ==> jobs[first_job(jobs, id)].id == id,
        forall|j: int| 0 <= j < first_job(jobs, id) ==> (#[trigger] jobs[j]).id != id,
    decreases jobs.len(),
{
    if jobs.len() > 0 && jobs[0].id != id {
        lemma_first_job(jobs.drop_first(), id);
        assert forall|j: int| 0 <= j < first_job(jobs, id) implies (#[trigger] jobs[j]).id != id by {
            if j > 0 {
                assert(jobs.drop_first()[j - 1] == jobs[j]);
            }
        }
    }
}

/// A job with the ID and none before it is the first one.
pub proof fn lemma_first_job_is<X, H>(jobs: Seq<TransferJob<X, H>>, id: i32, i: int)
    requires
        0 <= i <= jobs.len(),
        i < jobs.len() ==> jobs[i].id == id,
        forall|j: int| 0 <= j < i ==> (#[trigger] jobs[j]).id != id,
    ensures
        first_job(jobs, id) == i,
{
    lemma_first_job(jobs, id);
    let k = first_job(jobs, id);
    if k < i {
        assert(jobs[k].id != id);
    } else if i < k {
        assert(jobs[i].id != id);
    }
}

/// Index of the first job with an ID, if there is one.
pub fn find_job<X, H>(id: i32, jobs: &Vec<TransferJob<X, H>>) -> (r: Option<usize>)
    ensures
        match r {
            Some(i) => i < jobs@.len() && i == first_job(jobs@, id),
            None => first_job(jobs@, id) == jobs@.len(),
        },
{
    let mut i: usize = 0;
    while i < jobs.len()
        invariant
            i <= jobs@.len(),
            forall|j: int| 0 <= j < i ==> (#[trigger] jobs@[j]).id != id,
        decreases jobs@.len() - i,
    {
        if jobs[i].id == id {
            proof {
                lemma_first_job_is(jobs@, id, i as int);
            }
            return Some(i);
        }
        i += 1;
    }
    proof {
        lemma_first_job_is(jobs@, id, i as int);
    }
    None
}

/// Takes the first job with an ID out of the table, if there is one.
pub fn remove_job<X, H>(id: i32, jobs: &mut Vec<TransferJob<X, H>>) -> (r: Option<
    TransferJob<X, H>,
>)
    ensures
        final(jobs)@ == without_job(old(jobs)@, id),
        match r {
            Some(job) => {
                let i = first_job(old(jobs)@, id);
                0 <= i < old(jobs)@.len() && job == old(jobs)@[i] && job.id == id
            },
            None => first_job(old(jobs)@, id) == old(jobs)@.len(),
        },
{
    match find_job(id, jobs) {
        Some(i) => {
            proof {
                lemma_first_job(jobs@, id);
            }
            Some(jobs.remove(i))
        },
        None => None,
    }
}

/// What the pump waits for.
#[derive(PartialEq, Eq, Structural, Clone, Copy)]
pub enum PumpPhase {
    /// The next message of the current job.
    Reading,
    /// Room for that message in the outgoing channel.
    Sending,
    /// That the failure of the current job was reported.
    Reporting,
    /// Nothing: the pass is over.
    Over,
}

/// One pass of the pump over the read jobs.
pub struct Pump {
    pub phase: PumpPhase,
    /// Index of the current job.
    pub index: usize,
    /// IDs of jobs that are finished, to be removed at the end of the pass.
    pub finished: Vec<i32>,
}

/// The contents of a [`Pump`].
#[verifier::ext_equal]
pub struct PumpView {
    pub phase: PumpPhase,
    pub index: int,
    pub finished: Seq<i32>,
}

impl View for Pump {
    type V = PumpView;

    open spec fn view(&self) -> PumpView {
        PumpView { phase: self.phase, index: self.index as int, finished: self.finished@ }
    }
}

/// What became of the pump's last action.
pub enum PumpEvent<X> {
    /// The current job has a message to send.
    Outbound(Message<X>),
    /// The current job has nothing to send now.
    Idle,
    /// The current job failed.
    Failed(String),
    /// The failure was reported, or could not be.
    Reported,
    /// The channel took the message.
    Sent,
    /// The channel is full; the message comes back.
    Full(Message<X>),
    /// The channel is gone.
    Closed,
}

/// What the pump wants done next.
pub enum PumpAction<X> {
    /// Ask the job at this index for its next message.
    Read(usize),
    /// Offer a message to the channel.
    Send(Message<X>),
    /// Offer an error message to the channel, whatever becomes of it.
    Report(Message<X>),
    /// The pass is over.
    Over,
}

impl PumpView {
    /// The current job exists while the pass is not over.
    pub open spec fn wf(self, jobs: nat) -> bool {
        self.phase != PumpPhase::Over ==> 0 <= self.index < jobs
    }

    /// Whether an event can follow in the current phase.
    pub open spec fn expects<X>(self, event: PumpEvent<X>) -> bool {
        match event {
            PumpEvent::Outbound(_) | PumpEvent::Idle | PumpEvent::Failed(_) => self.phase
                == PumpPhase::Reading,
            PumpEvent::Reported => self.phase == PumpPhase::Reporting,
            PumpEvent::Sent | PumpEvent::Full(_) | PumpEvent::Closed => self.phase
                == PumpPhase::Sending,
        }
    }
}

/// The pass goes on with the job after `index`, or ends with the removal of the
/// finished jobs.
pub open spec fn pump_advance<X, H>(
    index: int,
    finished: Seq<i32>,
    jobs: Seq<TransferJob<X, H>>,
) -> (PumpView, Seq<TransferJob<X, H>>, PumpAction<X>) {
    if index + 1 < jobs.len() {
        (
            PumpView { phase: PumpPhase::Reading, index: index + 1, finished },
            jobs,
            PumpAction::Read((index + 1) as usize),
        )
    } else {
        (
            PumpView { phase: PumpPhase::Over, index, finished },
            evicted(jobs, finished),
            PumpAction::Over,
        )
    }
}

/// How a pass goes on after an event.
pub open spec fn pump_step<X, H>(
    pump: PumpView,
    jobs: Seq<TransferJob<X, H>>,
    event: PumpEvent<X>,
) -> (PumpView, Seq<TransferJob<X, H>>, PumpAction<X>) {
    let job = jobs[pump.index];
    match event {
        PumpEvent::Outbound(m) => (
            PumpView { phase: PumpPhase::Sending, ..pump },
            jobs,
            PumpAction::Send(m),
        ),
        PumpEvent::Idle => pump_advance(pump.index, pump.finished, jobs),
        PumpEvent::Failed(error) => (
            PumpView { phase: PumpPhase::Reporting, finished: pump.finished.push(job.id), ..pump },
            jobs,
            PumpAction::Report(
                Message::TransferError { id: job.id, error, file_num: job.file_num },
            ),
        ),
        PumpEvent::Reported => pump_advance(pump.index, pump.finished, jobs),
        PumpEvent::Sent => pump_advance(
            pump.index,
            if job.done && job.pending is None {
                pump.finished.push(job.id)
            } else {
                pump.finished
            },
            jobs,
        ),
        PumpEvent::Full(m) => (
            PumpView { phase: PumpPhase::Over, ..pump },
            evicted(
                jobs.update(pump.index, TransferJob { pending: Some(m), ..job }),
                pump.finished,
            ),
            PumpAction::Over,
        ),
        PumpEvent::Closed => (PumpView { phase: PumpPhase::Over, ..pump }, jobs, PumpAction::Over),
    }
}

/// Removes one job for each of the IDs, in turn.
fn evict<X, H>(ids: &Vec<i32>, jobs: &mut Vec<TransferJob<X, H>>)
    ensures
        final(jobs)@ == evicted(old(jobs)@, ids@),
{
    let mut i: usize = 0;
    assert(ids@.skip(0) == ids@);
    while i < ids.len()
        invariant
            i <= ids@.len(),
            evicted(jobs@, ids@.skip(i as int)) == evicted(old(jobs)@, ids@),
        decreases ids@.len() - i,
    {
        assert(ids@.skip(i as int).drop_first() == ids@.skip(i + 1));
        remove_job(ids[i], jobs);
        i += 1;
    }
}

impl Pump {
    /// Begins a pass: with the first job, or over at once if there is none.
    pub fn start<X, H>(jobs: &Vec<TransferJob<X, H>>) -> (r: (Pump, PumpAction<X>))
        ensures
            r.0@.wf(jobs@.len()),
            r.0@.finished == Seq::<i32>::empty(),
            r.0@.index == 0,
            if jobs@.len() > 0 {
                r.0@.phase == PumpPhase::Reading && r.1 == PumpAction::<X>::Read(0)
            } else {
                r.0@.phase == PumpPhase::Over && r.1 == PumpAction::<X>::Over
            },
    {
        if jobs.len() > 0 {
            (Pump { phase: PumpPhase::Reading, index: 0, finished: Vec::new() }, PumpAction::Read(0))
        } else {
            (Pump { phase: PumpPhase::Over, index: 0, finished: Vec::new() }, PumpAction::Over)
        }
    }

    fn advance<X, H>(&mut self, jobs: &mut Vec<TransferJob<X, H>>) -> (r: PumpAction<X>)
        requires
            old(self).index < old(jobs)@.len(),
        ensures
            (final(self)@, final(jobs)@, r) == pump_advance(
                old(self)@.index,
                old(self)@.finished,
                old(jobs)@,
            ),
            final(self)@.wf(final(jobs)@.len()),
    {
        if self.index < jobs.len() - 1 {
            self.phase = PumpPhase::Reading;
            self.index = self.index + 1;
            PumpAction::Read(self.index)
        } else {
            self.phase = PumpPhase::Over;
            evict(&self.finished, jobs);
            PumpAction::Over
        }
    }

    /// Goes on with the pass. A pass drives every job by one step: each sends
    /// its next message, if it has one. Finished and failed jobs leave the table
    /// at the end of the pass. When the channel is full, the message goes back
    /// to its job and the pass ends, so that incoming messages are not kept
    /// waiting.
    pub fn step<X, H>(&mut self, jobs: &mut Vec<TransferJob<X, H>>, event: PumpEvent<X>) -> (r:
        PumpAction<X>)
        requires
            old(self)@.wf(old(jobs)@.len()),
            old(self)@.expects(event),
        ensures
            (final(self)@, final(jobs)@, r) == pump_step(old(self)@, old(jobs)@, event),
            final(self)@.wf(final(jobs)@.len()),
    {
        match event {
            PumpEvent::Outbound(m) => {
                self.phase = PumpPhase::Sending;
                PumpAction::Send(m)
            },
            PumpEvent::Idle => self.advance(jobs),
            PumpEvent::Failed(error) => {
                let id: i32 = jobs[self.index].id;
                let file_num: i32 = jobs[self.index].file_num;
                self.finished.push(id);
                self.phase = PumpPhase::Reporting;
                PumpAction::Report(Message::TransferError { id, error, file_num })
            },
            PumpEvent::Reported => self.advance(jobs),
            PumpEvent::Sent => {
                if jobs[self.index].done && jobs[self.index].pending.is_none() {
                    self.finished.push(jobs[self.index].id);
                }
                self.advance(jobs)
            },
            PumpEvent::Full(m) => {
                let i: usize = self.index;
                jobs[i].pending = Some(m);
                self.phase = PumpPhase::Over;
                evict(&self.finished, jobs);
                PumpAction::Over
            },
            PumpEvent::Closed => {
                self.phase = PumpPhase::Over;
                PumpAction::Over
            },
        }
    }
}

/// Index of the first job that is not done; the number of jobs when all are.
pub open spec fn first_active<X, H>(jobs: Seq<TransferJob<X, H>>) -> int
    decreases jobs.len(),
{
    if jobs.len() == 0 || !jobs[0].done {
        0
    } else {
        1 + first_active(jobs.drop_first())
    }
}

/// Progress of a job in percent; an empty job counts as not begun.
pub open spec fn percent<X, H>(job: TransferJob<X, H>) -> nat {
    if job.total_size == 0 {
        0
    } else {
        let p = (job.finished_size * 100) / (job.total_size as int);
        if p < 100 {
            p as nat
        } else {
            100
        }
    }
}

/// The progress line of a job: direction, file, percentage, size so far.
pub open spec fn progress_line<X, H>(job: TransferJob<X, H>) -> Seq<char> {
    seq![if job.is_read { '\u{2191}' } else { '\u{2193}' }] + " "@ + job.name@ + "  "@ + decimal(
        percent(job),
    ) + "%  "@ + size_text(job.finished_size as nat)
}

/// Whether a transfer is running, and its progress line.
pub open spec fn transfer_status<X, H>(
    read_jobs: Seq<TransferJob<X, H>>,
    write_jobs: Seq<TransferJob<X, H>>,
) -> (bool, Seq<char>) {
    let all = read_jobs + write_jobs;
    let i = first_active(all);
    if i < all.len() {
        (true, progress_line(all[i]))
    } else {
        (false, Seq::empty())
    }
}

proof fn lemma_first_active_is<X, H>(jobs: Seq<TransferJob<X, H>>, i: int)
    requires
        0 <= i <= jobs.len(),
        i < jobs.len() ==> !jobs[i].done,
        forall|j: int| 0 <= j < i ==> (#[trigger] jobs[j]).done,
    ensures
        first_active(jobs) == i,
    decreases i,
{
    if i > 0 {
        assert(jobs[0].done);
        assert forall|j: int| 0 <= j < i - 1 implies (#[trigger] jobs.drop_first()[j]).done by {
            assert(jobs[j + 1].done);
        }
        lemma_first_active_is(jobs.drop_first(), i - 1);
    }
}

/// The progress line of a job.
pub fn transfer_label<X, H>(job: &TransferJob<X, H>) -> (r: String)
    ensures
        r@ == progress_line(*job),
{
    let pct: u64 = if job.total_size > 0 {
        let p: u128 = job.finished_size as u128 * 100 / job.total_size as u128;
        if p < 100 {
            p as u64
        } else {
            100
        }
    } else {
        0
    };
    let mut out = String::new();
    out.push(if job.is_read { '\u{2191}' } else { '\u{2193}' });
    out.append(" ");
    out.append(&job.name);
    out.append("  ");
    out.append(&decimal_string(pct));
    out.append("%  ");
    out.append(&fmt_size(job.finished_size));
    out
}

/// The transfer indicator: whether a transfer is running, and the progress line
/// of the first one that is, read jobs first.
fn transfer_indicator<X, H>(
    read_jobs: &Vec<TransferJob<X, H>>,
    write_jobs: &Vec<TransferJob<X, H>>,
) -> (r: (bool, String))
    ensures
        (r.0, r.1@) == transfer_status(read_jobs@, write_jobs@),
{
    let ghost all = read_jobs@ + write_jobs@;
    for i in 0..read_jobs.len()
        invariant
            all == read_jobs@ + write_jobs@,
            forall|j: int| 0 <= j < i ==> (#[trigger] all[j]).done,
    {
        assert(all[i as int] == read_jobs@[i as int]);
        if !read_jobs[i].done {
            proof {
                lemma_first_active_is(all, i as int);
            }
            return (true, transfer_label(&read_jobs[i]));
        }
    }
    for i in 0..write_jobs.len()
        invariant
            all == read_jobs@ + write_jobs@,
            forall|j: int| 0 <= j < read_jobs@.len() + i ==> (#[trigger] all[j]).done,
    {
        assert(all[read_jobs@.len() + i] == write_jobs@[i as int]);
        if !write_jobs[i].done {
            proof {
                lemma_first_active_is(all, read_jobs@.len() + i);
            }
            return (true, transfer_label(&write_jobs[i]));
        }
    }
    proof {
        lemma_first_active_is(all, all.len() as int);
    }
    (false, String::new())
}

/// Refreshes the transfer indicator of the application: it shows the first job
/// that is not done, read jobs first.
pub fn update_transfer_status<X, H>(
    state: &mut AppState,
    read_jobs: &Vec<TransferJob<X, H>>,
    write_jobs: &Vec<TransferJob<X, H>>,
)
    ensures
        ({
            let (active, label) = transfer_status(read_jobs@, write_jobs@);
            final(state)@ == (StateView {
                file_transfer_active: active,
                file_transfer_label: label,
                ..old(state)@
            })
        }),
{
    let (active, label): (bool, String) = transfer_indicator(read_jobs, write_jobs);
    set_file_transfer(state, active, label);
}

} // verus!

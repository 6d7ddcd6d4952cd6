//! Laws of the tables of transfer jobs and of the pump.

use crate::file_ops::job_with;
use crate::message::Message;
use crate::size::size_text;
use crate::text::decimal;
use crate::transfer::{
    evicted, first_active, first_job, lemma_first_job, lemma_first_job_is, percent, progress_line,
    pump_step, transfer_status, without_job, Pump, PumpAction, PumpEvent, PumpPhase, PumpView,
    TransferJob,
};
use vstd::arithmetic::div_mod::lemma_fundamental_div_mod;
use vstd::prelude::*;

verus! {

/// Whether no two jobs have the same ID.
pub open spec fn distinct_ids<X, H>(jobs: Seq<TransferJob<X, H>>) -> bool {
    forall|i: int, j: int|
        0 <= i < j < jobs.len() ==> (#[trigger] jobs[i]).id != (#[trigger] jobs[j]).id
}

/// The jobs whose ID is not among `ids`, in their order.
pub open spec fn jobs_without<X, H>(jobs: Seq<TransferJob<X, H>>, ids: Seq<i32>) -> Seq<
    TransferJob<X, H>,
>
    decreases jobs.len(),
{
    if jobs.len() == 0 {
        Seq::empty()
    } else {
        let before = jobs_without(jobs.drop_last(), ids);
        if ids.contains(jobs.last().id) {
            before
        } else {
            before.push(jobs.last())
        }
    }
}

/// Removing the job of one ID leaves what is found under every other ID as it
/// was.
pub proof fn law_removal_spares_other_ids<X, H>(
    jobs: Seq<TransferJob<X, H>>,
    id: i32,
    other: i32,
)
    requires
        other != id,
    ensures
        job_with(without_job(jobs, id), other) == job_with(jobs, other),
{
    lemma_first_job(jobs, id);
    lemma_first_job(jobs, other);
    let i = first_job(jobs, id);
    let k = first_job(jobs, other);
    if i < jobs.len() {
        let rest = jobs.remove(i);
        if k < jobs.len() {
            let at = if k < i {
                k
            } else {
                k - 1
            };
            assert forall|j: int| 0 <= j < at implies (#[trigger] rest[j]).id != other by {
                if j < i {
                    assert(rest[j] == jobs[j]);
                } else {
                    assert(rest[j] == jobs[j + 1]);
                }
            }
            lemma_first_job_is(rest, other, at);
        } else {
            assert forall|j: int| 0 <= j < rest.len() implies (#[trigger] rest[j]).id != other by {
                if j < i {
                    assert(rest[j] == jobs[j]);
                } else {
                    assert(rest[j] == jobs[j + 1]);
                }
            }
            lemma_first_job_is(rest, other, rest.len() as int);
        }
    }
}

/// Where IDs are not shared, a removed job is gone: nothing is found under its
/// ID any more.
pub proof fn law_removed_job_is_gone<X, H>(jobs: Seq<TransferJob<X, H>>, id: i32)
    requires
        distinct_ids(jobs),
    ensures
        job_with(without_job(jobs, id), id) is None,
        distinct_ids(without_job(jobs, id)),
{
    lemma_first_job(jobs, id);
    let i = first_job(jobs, id);
    if i < jobs.len() {
        let rest = jobs.remove(i);
        assert forall|j: int| 0 <= j < rest.len() implies (#[trigger] rest[j]).id != id by {
            if j < i {
                assert(rest[j] == jobs[j]);
                assert(jobs[j].id != jobs[i].id);
            } else {
                assert(rest[j] == jobs[j + 1]);
                assert(jobs[i].id != jobs[j + 1].id);
            }
        }
        lemma_first_job_is(rest, id, rest.len() as int);
        assert forall|p: int, q: int| 0 <= p < q < rest.len() implies (#[trigger] rest[p]).id != (
        #[trigger] rest[q]).id by {
            let pp = if p < i {
                p
            } else {
                p + 1
            };
            let qq = if q < i {
                q
            } else {
                q + 1
            };
            assert(rest[p] == jobs[pp] && rest[q] == jobs[qq]);
            assert(jobs[pp].id != jobs[qq].id);
        }
    }
}

/// `jobs_without` depends on the set of IDs only.
proof fn lemma_jobs_without_same<X, H>(
    jobs: Seq<TransferJob<X, H>>,
    ids: Seq<i32>,
    others: Seq<i32>,
)
    requires
        forall|i: int|
            0 <= i < jobs.len() ==> (ids.contains((#[trigger] jobs[i]).id) <==> others.contains(
                jobs[i].id,
            )),
    ensures
        jobs_without(jobs, ids) == jobs_without(jobs, others),
    decreases jobs.len(),
{
    if jobs.len() > 0 {
        assert forall|i: int| 0 <= i < jobs.drop_last().len() implies (ids.contains(
            (#[trigger] jobs.drop_last()[i]).id,
        ) <==> others.contains(jobs.drop_last()[i].id)) by {
            assert(jobs.drop_last()[i] == jobs[i]);
        }
        lemma_jobs_without_same(jobs.drop_last(), ids, others);
        assert(jobs[jobs.len() - 1] == jobs.last());
    }
}

/// Leaving out one job by its ID beforehand makes no difference.
proof fn lemma_jobs_without_remove<X, H>(
    jobs: Seq<TransferJob<X, H>>,
    i: int,
    ids: Seq<i32>,
)
    requires
        0 <= i < jobs.len(),
        ids.contains(jobs[i].id),
    ensures
        jobs_without(jobs.remove(i), ids) == jobs_without(jobs, ids),
    decreases jobs.len(),
{
    let rest = jobs.remove(i);
    if i == jobs.len() - 1 {
        assert(rest == jobs.drop_last());
    } else {
        lemma_jobs_without_remove(jobs.drop_last(), i, ids);
        assert(rest.drop_last() == jobs.drop_last().remove(i));
        assert(rest.last() == jobs.last());
    }
}

/// Where IDs are not shared, eviction removes exactly the jobs with the given
/// IDs and keeps the others in their order.
pub proof fn law_eviction_removes_exactly<X, H>(jobs: Seq<TransferJob<X, H>>, ids: Seq<i32>)
    requires
        distinct_ids(jobs),
    ensures
        evicted(jobs, ids) == jobs_without(jobs, ids),
    decreases ids.len(),
{
    if ids.len() == 0 {
        lemma_jobs_without_none(jobs, ids);
    } else {
        let id = ids[0];
        let rest = without_job(jobs, id);
        law_removed_job_is_gone(jobs, id);
        law_eviction_removes_exactly(rest, ids.drop_first());
        lemma_first_job(jobs, id);
        lemma_first_job(rest, id);
        assert forall|i: int| 0 <= i < rest.len() implies (ids.drop_first().contains(
            (#[trigger] rest[i]).id,
        ) <==> ids.contains(rest[i].id)) by {
            let x = rest[i].id;
            assert(x != id);
            if ids.contains(x) {
                let k = choose|k: int| 0 <= k < ids.len() && ids[k] == x;
                assert(ids.drop_first()[k - 1] == x);
            }
            if ids.drop_first().contains(x) {
                let k = choose|k: int|
                    0 <= k < ids.drop_first().len() && ids.drop_first()[k] == x;
                assert(ids[k + 1] == x);
            }
        }
        lemma_jobs_without_same(rest, ids.drop_first(), ids);
        let i = first_job(jobs, id);
        if i < jobs.len() {
            assert(ids.contains(id));
            lemma_jobs_without_remove(jobs, i, ids);
        }
    }
}

proof fn lemma_jobs_without_none<X, H>(jobs: Seq<TransferJob<X, H>>, ids: Seq<i32>)
    requires
        ids.len() == 0,
    ensures
        jobs_without(jobs, ids) == jobs,
    decreases jobs.len(),
{
    if jobs.len() > 0 {
        lemma_jobs_without_none(jobs.drop_last(), ids);
        assert(jobs == jobs.drop_last().push(jobs.last()));
    }
}

/// During a pass, only jobs that the pump is through with are marked finished.
pub open spec fn pump_behind<X, H>(pump: PumpView, jobs: Seq<TransferJob<X, H>>) -> bool {
    let through = if pump.phase == PumpPhase::Reporting {
        pump.index + 1
    } else {
        pump.index
    };
    forall|k: int| 0 <= k < pump.finished.len() ==> exists|j: int|
        0 <= j < through && j < jobs.len() && (#[trigger] jobs[j]).id == #[trigger] pump.finished[k]
}

/// A step of a pass that is not its last leaves the table alone and keeps it so
/// that only jobs behind the current one are marked finished.
pub proof fn law_pump_marks_only_what_is_behind<X, H>(
    pump: PumpView,
    jobs: Seq<TransferJob<X, H>>,
    event: PumpEvent<X>,
)
    requires
        pump.wf(jobs.len()),
        pump.expects(event),
        pump_behind(pump, jobs),
    ensures
        ({
            let (next, after, action) = pump_step(pump, jobs, event);
            next.phase != PumpPhase::Over ==> after == jobs && pump_behind(next, after)
        }),
{
    let (next, after, action) = pump_step(pump, jobs, event);
    if next.phase != PumpPhase::Over {
        let through = if next.phase == PumpPhase::Reporting {
            next.index + 1
        } else {
            next.index
        };
        assert forall|k: int| 0 <= k < next.finished.len() implies exists|j: int|
            0 <= j < through && j < jobs.len() && (#[trigger] jobs[j]).id
                == #[trigger] next.finished[k] by {
            if k < pump.finished.len() {
                assert(next.finished[k] == pump.finished[k]);
                let bound = if pump.phase == PumpPhase::Reporting {
                    pump.index + 1
                } else {
                    pump.index
                };
                let j = choose|j: int|
                    0 <= j < bound && j < jobs.len() && (#[trigger] jobs[j]).id
                        == pump.finished[k];
                assert(jobs[j].id == next.finished[k]);
            } else {
                assert(jobs[pump.index].id == next.finished[k]);
            }
        }
    }
}

/// A full channel loses nothing: where IDs are not shared, the message that did
/// not fit is kept with its job, and this job and all after it stay in the
/// table, otherwise as they were.
pub proof fn law_full_channel_loses_nothing<X, H>(
    pump: PumpView,
    jobs: Seq<TransferJob<X, H>>,
    message: Message<X>,
    at: int,
)
    requires
        pump.wf(jobs.len()),
        pump.expects(PumpEvent::Full(message)),
        pump_behind(pump, jobs),
        distinct_ids(jobs),
        pump.index <= at < jobs.len(),
    ensures
        ({
            let (next, after, action) = pump_step(pump, jobs, PumpEvent::Full(message));
            let job = if at == pump.index {
                TransferJob { pending: Some(message), ..jobs[at] }
            } else {
                jobs[at]
            };
            next.phase == PumpPhase::Over && job_with(after, jobs[at].id) == Some(job)
        }),
{
    let job = jobs[pump.index];
    let kept = TransferJob { pending: Some(message), ..job };
    let updated = jobs.update(pump.index, kept);
    assert forall|i: int, j: int| 0 <= i < j < updated.len() implies (#[trigger] updated[i]).id != (
    #[trigger] updated[j]).id by {
        assert(updated[i].id == jobs[i].id && updated[j].id == jobs[j].id);
    }
    lemma_kept(pump, jobs, updated, at);
}

/// How much of a pass is left at most: the number of events until it is over.
pub open spec fn pump_left(pump: PumpView, jobs: nat) -> int {
    match pump.phase {
        PumpPhase::Reading => 2 * (jobs - pump.index),
        PumpPhase::Sending | PumpPhase::Reporting => 2 * (jobs - pump.index) - 1,
        PumpPhase::Over => 0,
    }
}

/// A pass ends: every event leaves less of it, so that with `n` jobs it takes
/// at most `2 * n` events. The jobs are asked for a message in their order, none
/// of them twice, and none is left out unless the channel is full or gone.
pub proof fn law_pass_ends<X, H>(
    pump: PumpView,
    jobs: Seq<TransferJob<X, H>>,
    event: PumpEvent<X>,
)
    requires
        jobs.len() <= usize::MAX,
        pump.wf(jobs.len()),
        pump.expects(event),
    ensures
        ({
            let (next, after, action) = pump_step(pump, jobs, event);
            &&& 0 <= pump_left(next, after.len()) < pump_left(pump, jobs.len())
            &&& action matches PumpAction::Read(i) ==> i == pump.index + 1
            &&& action is Over ==> event is Full || event is Closed || pump.index == jobs.len() - 1
            &&& next.phase == PumpPhase::Over <==> action is Over
        }),
{
}

/// A job at or after the current one survives the end of a pass.
proof fn lemma_kept<X, H>(
    pump: PumpView,
    jobs: Seq<TransferJob<X, H>>,
    updated: Seq<TransferJob<X, H>>,
    at: int,
)
    requires
        pump.phase == PumpPhase::Sending,
        0 <= pump.index <= at < jobs.len(),
        pump_behind(pump, jobs),
        distinct_ids(jobs),
        distinct_ids(updated),
        updated.len() == jobs.len(),
        forall|i: int| 0 <= i < jobs.len() ==> (#[trigger] updated[i]).id == jobs[i].id,
    ensures
        job_with(evicted(updated, pump.finished), jobs[at].id) == Some(updated[at]),
{
    let id = jobs[at].id;
    assert(!pump.finished.contains(id)) by {
        if pump.finished.contains(id) {
            let k = choose|k: int| 0 <= k < pump.finished.len() && pump.finished[k] == id;
            let j = choose|j: int|
                0 <= j < pump.index && j < jobs.len() && (#[trigger] jobs[j]).id
                    == pump.finished[k];
            assert(jobs[j].id != jobs[at].id);
        }
    }
    lemma_evicted_spares(updated, pump.finished, id);
    assert(updated[at].id == id);
    assert forall|j: int| 0 <= j < at implies (#[trigger] updated[j]).id != id by {
        assert(updated[j].id != updated[at].id);
    }
    lemma_first_job_is(updated, id, at);
}

/// Eviction leaves what is found under an ID that is not among the evicted.
proof fn lemma_evicted_spares<X, H>(jobs: Seq<TransferJob<X, H>>, ids: Seq<i32>, other: i32)
    requires
        !ids.contains(other),
    ensures
        job_with(evicted(jobs, ids), other) == job_with(jobs, other),
    decreases ids.len(),
{
    if ids.len() > 0 {
        assert(ids[0] != other);
        assert(!ids.drop_first().contains(other)) by {
            if ids.drop_first().contains(other) {
                let k = choose|k: int|
                    0 <= k < ids.drop_first().len() && ids.drop_first()[k] == other;
                assert(ids[k + 1] == other);
            }
        }
        law_removal_spares_other_ids(jobs, ids[0], other);
        lemma_evicted_spares(without_job(jobs, ids[0]), ids.drop_first(), other);
    }
}

/// Finished jobs leave: a job that has failed or has sent its last message is
/// marked finished, a mark stays, and unless the channel is gone no job that is
/// marked is found any more after the pass, where IDs are not shared.
pub proof fn law_finished_jobs_leave<X, H>(
    pump: PumpView,
    jobs: Seq<TransferJob<X, H>>,
    event: PumpEvent<X>,
    id: i32,
)
    requires
        pump.wf(jobs.len()),
        pump.expects(event),
        distinct_ids(jobs),
    ensures
        ({
            let (next, after, action) = pump_step(pump, jobs, event);
            let job = jobs[pump.index];
            &&& event is Failed || (event is Sent && job.done && job.pending is None)
                ==> next.finished.contains(job.id)
            &&& pump.finished.contains(id) ==> next.finished.contains(id)
            &&& next.phase == PumpPhase::Over && event !is Closed && next.finished.contains(id)
                ==> job_with(after, id) is None
        }),
{
    let (next, after, action) = pump_step(pump, jobs, event);
    let job = jobs[pump.index];
    if event is Failed || (event is Sent && job.done && job.pending is None) {
        assert(next.finished[pump.finished.len() as int] == job.id);
    }
    if pump.finished.contains(id) {
        let k = choose|k: int| 0 <= k < pump.finished.len() && pump.finished[k] == id;
        assert(next.finished[k] == id);
    }
    if next.phase == PumpPhase::Over && event !is Closed && next.finished.contains(id) {
        let table = match event {
            PumpEvent::Full(m) => jobs.update(
                pump.index,
                TransferJob { pending: Some(m), ..job },
            ),
            _ => jobs,
        };
        assert forall|i: int, j: int| 0 <= i < j < table.len() implies (#[trigger] table[i]).id != (
        #[trigger] table[j]).id by {
            assert(table[i].id == jobs[i].id && table[j].id == jobs[j].id);
        }
        law_eviction_removes_exactly(table, next.finished);
        lemma_jobs_without_is_gone(table, next.finished, id);
    }
}

/// None of the jobs that are left has one of the IDs.
proof fn lemma_jobs_without_is_gone<X, H>(
    jobs: Seq<TransferJob<X, H>>,
    ids: Seq<i32>,
    id: i32,
)
    requires
        ids.contains(id),
    ensures
        job_with(jobs_without(jobs, ids), id) is None,
        forall|i: int|
            0 <= i < jobs_without(jobs, ids).len() ==> (#[trigger] jobs_without(jobs, ids)[i]).id
                != id,
    decreases jobs.len(),
{
    let rest = jobs_without(jobs, ids);
    if jobs.len() > 0 {
        lemma_jobs_without_is_gone(jobs.drop_last(), ids, id);
    }
    lemma_first_job_is(rest, id, rest.len() as int);
}

/// What happens in one turn of a pass: the current job, as the file system left
/// it, and the event.
pub struct Turn<X, H> {
    pub job: TransferJob<X, H>,
    pub event: PumpEvent<X>,
}

impl<X, H> Turn<X, H> {
    /// Whether the job is finished with this turn: it failed, or its last
    /// message went out and nothing is pending.
    pub open spec fn finishes(self) -> bool {
        self.event is Failed || (self.event is Sent && self.job.done && self.job.pending is None)
    }

    /// Whether the job was asked for a message in this turn.
    pub open spec fn asks(self) -> bool {
        self.event is Outbound || self.event is Idle || self.event is Failed
    }
}

/// Whether the turns can follow each other in a pass during which the channel
/// takes every message: the file system changes nothing but the current job,
/// whose ID it keeps, and each event is one that the pump waits for.
pub open spec fn runs<X, H>(
    pump: PumpView,
    jobs: Seq<TransferJob<X, H>>,
    turns: Seq<Turn<X, H>>,
) -> bool
    decreases turns.len(),
{
    turns.len() > 0 ==> {
        let turn = turns[0];
        let table = jobs.update(pump.index, turn.job);
        let (next, after, action) = pump_step(pump, table, turn.event);
        &&& pump.phase != PumpPhase::Over
        &&& turn.job.id == jobs[pump.index].id
        &&& pump.expects(turn.event)
        &&& turn.event !is Full
        &&& turn.event !is Closed
        &&& runs(next, after, turns.drop_first())
    }
}

/// Pump and table after the turns.
pub open spec fn pumped<X, H>(
    pump: PumpView,
    jobs: Seq<TransferJob<X, H>>,
    turns: Seq<Turn<X, H>>,
) -> (PumpView, Seq<TransferJob<X, H>>)
    decreases turns.len(),
{
    if turns.len() == 0 {
        (pump, jobs)
    } else {
        let (next, after, action) = pump_step(
            pump,
            jobs.update(pump.index, turns[0].job),
            turns[0].event,
        );
        pumped(next, after, turns.drop_first())
    }
}

/// The table as the file system leaves it after the turns, before any job is
/// removed.
pub open spec fn refreshed<X, H>(
    pump: PumpView,
    jobs: Seq<TransferJob<X, H>>,
    turns: Seq<Turn<X, H>>,
) -> Seq<TransferJob<X, H>>
    decreases turns.len(),
{
    if turns.len() == 0 {
        jobs
    } else {
        let table = jobs.update(pump.index, turns[0].job);
        let (next, after, action) = pump_step(pump, table, turns[0].event);
        refreshed(next, table, turns.drop_first())
    }
}

/// The IDs of the jobs that the turns finish, in order.
pub open spec fn finished_ids<X, H>(turns: Seq<Turn<X, H>>) -> Seq<i32>
    decreases turns.len(),
{
    if turns.len() == 0 {
        Seq::empty()
    } else if turns[0].finishes() {
        seq![turns[0].job.id] + finished_ids(turns.drop_first())
    } else {
        finished_ids(turns.drop_first())
    }
}

/// The IDs of the jobs that are asked for a message in the turns, in order.
pub open spec fn asked_ids<X, H>(turns: Seq<Turn<X, H>>) -> Seq<i32>
    decreases turns.len(),
{
    if turns.len() == 0 {
        Seq::empty()
    } else if turns[0].asks() {
        seq![turns[0].job.id] + asked_ids(turns.drop_first())
    } else {
        asked_ids(turns.drop_first())
    }
}

/// The IDs of the jobs, in order.
pub open spec fn ids_of<X, H>(jobs: Seq<TransferJob<X, H>>) -> Seq<i32> {
    jobs.map_values(|job: TransferJob<X, H>| job.id)
}

/// What is left of a pass, from any point of it on.
proof fn lemma_rest_of_pass<X, H>(
    pump: PumpView,
    jobs: Seq<TransferJob<X, H>>,
    turns: Seq<Turn<X, H>>,
)
    requires
        pump.phase != PumpPhase::Over,
        pump.wf(jobs.len()),
        runs(pump, jobs, turns),
        pumped(pump, jobs, turns).0.phase == PumpPhase::Over,
    ensures
        pumped(pump, jobs, turns).1 == evicted(
            refreshed(pump, jobs, turns),
            pump.finished + finished_ids(turns),
        ),
        ids_of(refreshed(pump, jobs, turns)) == ids_of(jobs),
        asked_ids(turns) == ids_of(jobs).skip(
            if pump.phase == PumpPhase::Reading {
                pump.index
            } else {
                pump.index + 1
            },
        ),
    decreases turns.len(),
{
    let turn = turns[0];
    let rest = turns.drop_first();
    let table = jobs.update(pump.index, turn.job);
    let (next, after, action) = pump_step(pump, table, turn.event);
    let ids = ids_of(jobs);
    assert(ids_of(table) == ids);
    let now = if turn.finishes() {
        seq![turn.job.id]
    } else {
        Seq::<i32>::empty()
    };
    assert(next.finished == pump.finished + now);
    assert(finished_ids(turns) == now + finished_ids(rest));
    assert(pump.finished + finished_ids(turns) == next.finished + finished_ids(rest));
    if turn.asks() {
        assert(ids[pump.index] == turn.job.id);
        assert(ids.skip(pump.index) == seq![turn.job.id] + ids.skip(pump.index + 1));
    }
    assert(turns.len() > 0);
    assert(runs(next, after, rest));
    assert(refreshed(pump, jobs, turns) == refreshed(next, table, rest));
    assert(pumped(pump, jobs, turns) == pumped(next, after, rest));
    if next.phase == PumpPhase::Over {
        assert(rest.len() == 0);
        assert(refreshed(next, table, rest) == table);
        assert(pumped(next, after, rest) == (next, after));
        assert(asked_ids(rest) == Seq::<i32>::empty());
        assert(next.finished + finished_ids(rest) == next.finished);
        assert(ids.skip(pump.index + 1) == Seq::<i32>::empty());
    } else {
        lemma_rest_of_pass(next, table, rest);
    }
}

/// A whole pass in which the channel takes every message. Every job is asked for
/// a message exactly once, in the order of the table. Where IDs are not shared,
/// exactly those jobs leave the table that failed, or sent their last message
/// with nothing pending; the others stay in their order, as the file system left
/// them.
pub proof fn law_pass_removes_exactly_the_finished<X, H>(
    jobs: Seq<TransferJob<X, H>>,
    turns: Seq<Turn<X, H>>,
    pump: PumpView,
)
    requires
        jobs.len() > 0,
        distinct_ids(jobs),
        pump == (PumpView { phase: PumpPhase::Reading, index: 0, finished: Seq::empty() }),
        runs(pump, jobs, turns),
        pumped(pump, jobs, turns).0.phase == PumpPhase::Over,
    ensures
        pumped(pump, jobs, turns).1 == jobs_without(
            refreshed(pump, jobs, turns),
            finished_ids(turns),
        ),
        ids_of(refreshed(pump, jobs, turns)) == ids_of(jobs),
        asked_ids(turns) == ids_of(jobs),
{
    lemma_rest_of_pass(pump, jobs, turns);
    let table = refreshed(pump, jobs, turns);
    let ids = ids_of(jobs);
    assert(table.len() == ids_of(table).len());
    assert forall|i: int, j: int| 0 <= i < j < table.len() implies (#[trigger] table[i]).id != (
    #[trigger] table[j]).id by {
        assert(ids_of(table)[i] == ids[i] && ids_of(table)[j] == ids[j]);
        assert(jobs[i].id != jobs[j].id);
    }
    assert(Seq::<i32>::empty() + finished_ids(turns) == finished_ids(turns));
    law_eviction_removes_exactly(table, finished_ids(turns));
    assert(ids.skip(0) == ids);
}

/// The progress of a job never shows more than a hundred percent.
pub proof fn law_progress_is_at_most_complete<X, H>(job: TransferJob<X, H>)
    ensures
        percent(job) <= 100,
{
}

/// Whether `found` is the first job with an ID, or none if no job has it.
pub open spec fn is_first_with<X, H>(
    jobs: Seq<TransferJob<X, H>>,
    id: i32,
    found: Option<TransferJob<X, H>>,
) -> bool {
    match found {
        Some(job) => exists|i: int|
            0 <= i < jobs.len() && #[trigger] jobs[i] == job && job.id == id && forall|j: int|
                0 <= j < i ==> (#[trigger] jobs[j]).id != id,
        None => forall|j: int| 0 <= j < jobs.len() ==> (#[trigger] jobs[j]).id != id,
    }
}

/// Whether `rest` is the table without the first job with an ID, all others in
/// their places; the table itself if no job has it.
pub open spec fn is_without_first<X, H>(
    jobs: Seq<TransferJob<X, H>>,
    id: i32,
    rest: Seq<TransferJob<X, H>>,
) -> bool {
    ||| rest == jobs && forall|j: int| 0 <= j < jobs.len() ==> (#[trigger] jobs[j]).id != id
    ||| exists|i: int|
        {
            &&& 0 <= i < jobs.len()
            &&& (#[trigger] jobs[i]).id == id
            &&& forall|j: int| 0 <= j < i ==> (#[trigger] jobs[j]).id != id
            &&& rest == jobs.take(i) + jobs.skip(i + 1)
        }
}

/// Removal takes the first job with the ID, and leaves all others in their
/// places.
pub proof fn law_removal_takes_the_first<X, H>(jobs: Seq<TransferJob<X, H>>, id: i32)
    ensures
        is_without_first(jobs, id, without_job(jobs, id)),
        is_first_with(jobs, id, job_with(jobs, id)),
{
    lemma_first_job(jobs, id);
    let i = first_job(jobs, id);
    if i < jobs.len() {
        assert(jobs.remove(i) == jobs.take(i) + jobs.skip(i + 1));
        assert(jobs[i].id == id);
    }
}

/// Eviction leaves what is found under an ID that is not among the evicted.
pub proof fn law_eviction_spares_other_ids<X, H>(
    jobs: Seq<TransferJob<X, H>>,
    ids: Seq<i32>,
    other: i32,
)
    requires
        !ids.contains(other),
    ensures
        job_with(evicted(jobs, ids), other) == job_with(jobs, other),
{
    lemma_evicted_spares(jobs, ids, other);
}

/// What the pump does after each event, whatever the state of the job. A message
/// that the job produced is offered to the channel as it is. A failure is reported
/// under ID and file of the job, with its own words. Otherwise the next job is
/// asked, or the pass is over. Only the end of a pass, and a full channel, change
/// the table.
pub proof fn law_pump_actions<X, H>(
    pump: PumpView,
    jobs: Seq<TransferJob<X, H>>,
    event: PumpEvent<X>,
)
    requires
        jobs.len() <= usize::MAX,
        pump.wf(jobs.len()),
        pump.expects(event),
    ensures
        ({
            let (next, after, action) = pump_step(pump, jobs, event);
            let job = jobs[pump.index];
            let last = pump.index == jobs.len() - 1;
            match event {
                PumpEvent::Outbound(m) => {
                    &&& action matches PumpAction::Send(n)
                    &&& n == m
                    &&& after == jobs
                    &&& next.phase == PumpPhase::Sending
                    &&& next.index == pump.index
                    &&& next.finished == pump.finished
                },
                PumpEvent::Failed(e) => {
                    &&& action matches PumpAction::Report(
                        Message::TransferError { id, error, file_num },
                    )
                    &&& id == job.id
                    &&& error == e
                    &&& file_num == job.file_num
                    &&& after == jobs
                    &&& next.phase == PumpPhase::Reporting
                    &&& next.index == pump.index
                    &&& next.finished == pump.finished.push(job.id)
                },
                PumpEvent::Idle | PumpEvent::Reported | PumpEvent::Sent => {
                    &&& next.finished == if event is Sent && job.done && job.pending is None {
                        pump.finished.push(job.id)
                    } else {
                        pump.finished
                    }
                    &&& !last ==> {
                        &&& action matches PumpAction::Read(i)
                        &&& i == pump.index + 1
                        &&& after == jobs
                        &&& next.phase == PumpPhase::Reading
                        &&& next.index == pump.index + 1
                    }
                    &&& last ==> {
                        &&& action is Over
                        &&& after == evicted(jobs, next.finished)
                        &&& next.phase == PumpPhase::Over
                    }
                },
                PumpEvent::Full(m) => {
                    &&& action is Over
                    &&& next.phase == PumpPhase::Over
                    &&& next.finished == pump.finished
                    &&& after == evicted(
                        jobs.update(pump.index, TransferJob { pending: Some(m), ..job }),
                        pump.finished,
                    )
                },
                PumpEvent::Closed => {
                    &&& action is Over
                    &&& next.phase == PumpPhase::Over
                    &&& after == jobs
                },
            }
        }),
{
}

/// The messages that jobs produce in the turns, in order.
pub open spec fn produced<X, H>(turns: Seq<Turn<X, H>>) -> Seq<Message<X>>
    decreases turns.len(),
{
    if turns.len() == 0 {
        Seq::empty()
    } else {
        let rest = produced(turns.drop_first());
        match turns[0].event {
            PumpEvent::Outbound(m) => seq![m] + rest,
            _ => rest,
        }
    }
}

/// The messages that the pump offers to the channel in the turns, in order.
pub open spec fn offered<X, H>(
    pump: PumpView,
    jobs: Seq<TransferJob<X, H>>,
    turns: Seq<Turn<X, H>>,
) -> Seq<Message<X>>
    decreases turns.len(),
{
    if turns.len() == 0 {
        Seq::empty()
    } else {
        let (next, after, action) = pump_step(
            pump,
            jobs.update(pump.index, turns[0].job),
            turns[0].event,
        );
        let rest = offered(next, after, turns.drop_first());
        match action {
            PumpAction::Send(m) => seq![m] + rest,
            _ => rest,
        }
    }
}

/// No message is lost, replaced or made up: over a pass the pump offers to the
/// channel exactly the messages that the jobs produced, in their order.
pub proof fn law_pump_offers_what_jobs_produce<X, H>(
    pump: PumpView,
    jobs: Seq<TransferJob<X, H>>,
    turns: Seq<Turn<X, H>>,
)
    requires
        pump.wf(jobs.len()),
        runs(pump, jobs, turns),
    ensures
        offered(pump, jobs, turns) == produced(turns),
    decreases turns.len(),
{
    if turns.len() > 0 {
        let table = jobs.update(pump.index, turns[0].job);
        let (next, after, action) = pump_step(pump, table, turns[0].event);
        if next.phase == PumpPhase::Over {
            assert(runs(next, after, turns.drop_first()));
            assert(turns.drop_first().len() == 0);
        } else {
            assert(runs(next, after, turns.drop_first()));
        }
        law_pump_offers_what_jobs_produce(next, after, turns.drop_first());
    }
}

/// The percentage is rounded down, is complete once all is there, and is none for
/// an empty job.
pub proof fn law_percentage<X, H>(job: TransferJob<X, H>)
    ensures
        job.total_size == 0 ==> percent(job) == 0,
        job.total_size > 0 && job.finished_size >= job.total_size ==> percent(job) == 100,
        job.finished_size < job.total_size ==> percent(job) * job.total_size <= 100
            * job.finished_size < (percent(job) + 1) * job.total_size,
{
    if job.total_size > 0 {
        let n = 100 * job.finished_size;
        let d = job.total_size as int;
        let q = n / d;
        lemma_fundamental_div_mod(n, d);
        assert(q * d <= n < (q + 1) * d) by (nonlinear_arith)
            requires
                n == d * q + n % d,
                0 <= n % d < d,
        ;
        if job.finished_size >= job.total_size {
            assert(q >= 100) by (nonlinear_arith)
                requires
                    n >= 100 * d,
                    n < (q + 1) * d,
                    d > 0,
            ;
        } else {
            assert(q < 100) by (nonlinear_arith)
                requires
                    n < 100 * d,
                    q * d <= n,
                    d > 0,
            ;
        }
    }
}

/// The progress line, part by part: an arrow up for a download and down for an
/// upload, the name, the percentage and the size so far.
pub proof fn law_progress_line<X, H>(job: TransferJob<X, H>)
    ensures
        job.is_read ==> progress_line(job) == seq!['\u{2191}', ' '] + job.name@ + "  "@ + decimal(
            percent(job),
        ) + "%  "@ + size_text(job.finished_size as nat),
        !job.is_read ==> progress_line(job) == seq!['\u{2193}', ' '] + job.name@ + "  "@ + decimal(
            percent(job),
        ) + "%  "@ + size_text(job.finished_size as nat),
{
    reveal_strlit(" ");
    let c = if job.is_read {
        '\u{2191}'
    } else {
        '\u{2193}'
    };
    assert(seq![c] + " "@ == seq![c, ' ']);
}

/// The indicator shows the first job that is not done, read jobs before write
/// jobs; it is off when all are done.
pub proof fn law_indicator<X, H>(
    read_jobs: Seq<TransferJob<X, H>>,
    write_jobs: Seq<TransferJob<X, H>>,
    i: int,
)
    ensures
        ({
            let all = read_jobs + write_jobs;
            &&& 0 <= i < all.len() && !all[i].done && (forall|j: int|
                0 <= j < i ==> (#[trigger] all[j]).done) ==> transfer_status(read_jobs, write_jobs)
                == (true, progress_line(all[i]))
            &&& (forall|j: int| 0 <= j < all.len() ==> (#[trigger] all[j]).done)
                ==> transfer_status(read_jobs, write_jobs) == (false, Seq::<char>::empty())
        }),
{
    let all = read_jobs + write_jobs;
    lemma_first_active(all);
    let k = first_active(all);
    if 0 <= i < all.len() && !all[i].done && (forall|j: int|
        0 <= j < i ==> (#[trigger] all[j]).done) {
        if k < i {
            assert(all[k].done);
        } else if i < k {
            assert(all[i].done);
        }
    }
    if forall|j: int| 0 <= j < all.len() ==> (#[trigger] all[j]).done {
        if k < all.len() {
            assert(all[k].done);
        }
    }
}

/// `first_active` finds a job that is not done, and the first one.
proof fn lemma_first_active<X, H>(jobs: Seq<TransferJob<X, H>>)
    ensures
        0 <= first_active(jobs) <= jobs.len(),
        first_active(jobs) < jobs.len() ==> !jobs[first_active(jobs)].done,
        forall|j: int| 0 <= j < first_active(jobs) ==> (#[trigger] jobs[j]).done,
    decreases jobs.len(),
{
    if jobs.len() > 0 && jobs[0].done {
        lemma_first_active(jobs.drop_first());
        assert forall|j: int| 0 <= j < first_active(jobs) implies (#[trigger] jobs[j]).done by {
            if j > 0 {
                assert(jobs.drop_first()[j - 1] == jobs[j]);
            }
        }
    }
}

/// The view of a pass is its fields.
pub proof fn law_pump_view(pump: Pump)
    ensures
        pump@.phase == pump.phase,
        pump@.index == pump.index,
        pump@.finished == pump.finished@,
{
}

/// When an event can follow: a job answers when it was asked, the channel when it
/// was offered a message, and a report when a job failed. In between the pump is
/// at a job that exists.
pub proof fn law_pump_waits<X>(pump: PumpView, event: PumpEvent<X>, jobs: nat)
    ensures
        pump.expects(event) <==> match pump.phase {
            PumpPhase::Reading => event is Outbound || event is Idle || event is Failed,
            PumpPhase::Sending => event is Sent || event is Full || event is Closed,
            PumpPhase::Reporting => event is Reported,
            PumpPhase::Over => false,
        },
        pump.wf(jobs) <==> pump.phase == PumpPhase::Over || 0 <= pump.index < jobs,
{
}

} // verus!

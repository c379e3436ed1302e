use vstd::prelude::*;

use crate::futures::Stage;
use crate::futures::stage_finite;
use crate::futures::stage_helper;
use crate::futures::stage_lines;
use crate::futures::stage_next;
use crate::futures::stage_outcome;
use crate::futures::stage_wakes;
use crate::futures::stage_work;
use crate::outcome::Line;
use crate::outcome::Poll;
use crate::outcome::PollContext;

verus! {

/// A named unit of work: an ordered list of stages, each driven to `Ready`
/// before the next begins.
#[derive(Debug)]
pub struct Task {
    /// Identity, assigned in spawn order; completion lines carry it.
    pub id: u64,
    /// Diagnostic name; no contract reads it.
    pub name: String,
    /// The not-yet-completed stages, in admission order.
    pub stages: Vec<Stage>,
}

/// What a task asks of the executor after one poll.
#[derive(Clone, Copy, PartialEq, Eq, Debug)]
pub enum TaskStatus {
    /// The task had no stages left; the poll was absorbed.
    Idle,
    /// The head stage is pending and left its waker with an outside party;
    /// the task waits for that party's wake.
    Parked,
    /// The task asked to run again: its head stage yielded with a
    /// self-wake, or finished with further stages remaining.
    Runnable,
    /// The last stage finished and the completion marker was logged.
    Completed,
}

pub open spec fn task_status(stages: Seq<Stage>) -> TaskStatus {
    if stages.len() == 0 {
        TaskStatus::Idle
    } else {
        match stage_outcome(stages[0]) {
            Poll::Pending => if stage_wakes(stages[0]) {
                TaskStatus::Runnable
            } else {
                TaskStatus::Parked
            },
            Poll::Ready(_) => if stages.len() > 1 {
                TaskStatus::Runnable
            } else {
                TaskStatus::Completed
            },
        }
    }
}

/// The stage list after one poll: a pending head stage is re-seated at the
/// head in its advanced state; a finished one is removed.
pub open spec fn task_next_stages(stages: Seq<Stage>) -> Seq<Stage> {
    if stages.len() == 0 {
        stages
    } else {
        match stage_outcome(stages[0]) {
            Poll::Pending => stages.update(0, stage_next(stages[0])),
            Poll::Ready(_) => stages.drop_first(),
        }
    }
}

/// The lines one poll of the task appends to the log: whatever the head
/// stage traced, then its payload if it finished, then the completion
/// marker if it was the last stage.
pub open spec fn task_lines(stages: Seq<Stage>, id: u64) -> Seq<Line> {
    if stages.len() == 0 {
        Seq::<Line>::empty()
    } else {
        stage_lines(stages[0]) + (match stage_outcome(stages[0]) {
            Poll::Pending => Seq::<Line>::empty(),
            Poll::Ready(v) => seq![Line::Text(v)] + (if stages.len() == 1 {
                seq![Line::Completed(id)]
            } else {
                Seq::<Line>::empty()
            }),
        })
    }
}

pub open spec fn task_helper(stages: Seq<Stage>) -> Option<u64> {
    if stages.len() == 0 {
        None
    } else {
        stage_helper(stages[0])
    }
}

/// How many polls the executor owes the task before every stage has either
/// finished or parked it.
pub open spec fn task_work(stages: Seq<Stage>) -> nat
    decreases stages.len(),
{
    if stages.len() == 0 {
        0
    } else {
        stage_work(stages[0]) + task_work(stages.drop_first())
    }
}

/// A task none of whose stages ever parks: left alone, the executor drives
/// it to completion without outside events.
pub open spec fn task_finite(stages: Seq<Stage>) -> bool {
    forall|i: int| 0 <= i < stages.len() ==> stage_finite(#[trigger] stages[i])
}

/// One poll strictly reduces the work a runnable task owes.
pub proof fn lemma_task_work_step(stages: Seq<Stage>)
    requires
        stages.len() > 0,
    ensures
        task_status(stages) is Runnable ==> task_work(task_next_stages(stages)) < task_work(
            stages,
        ),
        stage_work(stages[0]) >= 1,
{
    let s = stages[0];
    if task_status(stages) is Runnable {
        match stage_outcome(s) {
            Poll::Pending => {
                assert(stage_work(stage_next(s)) < stage_work(s));
                let next = task_next_stages(stages);
                assert(next.drop_first() =~= stages.drop_first());
                assert(next[0] == stage_next(s));
            },
            Poll::Ready(_) => {
                assert(task_next_stages(stages) =~= stages.drop_first());
            },
        }
    }
}

/// A finite task is never parked nor stage-less, and stays finite as it
/// steps.
pub proof fn lemma_finite_step(stages: Seq<Stage>)
    requires
        stages.len() > 0,
        task_finite(stages),
    ensures
        task_status(stages) is Runnable || task_status(stages) is Completed,
        task_finite(task_next_stages(stages)),
        task_status(stages) is Runnable ==> task_next_stages(stages).len() > 0,
{
    let s = stages[0];
    assert(stage_finite(s));
    let next = task_next_stages(stages);
    match stage_outcome(s) {
        Poll::Pending => {
            assert(stage_wakes(s));
            assert(stage_finite(stage_next(s)));
            assert(forall|i: int| 1 <= i < next.len() ==> #[trigger] next[i] == stages[i]);
            assert(forall|i: int| 0 <= i < next.len() ==> stage_finite(#[trigger] next[i]));
        },
        Poll::Ready(_) => {
            assert(forall|i: int| 0 <= i < next.len() ==> #[trigger] next[i] == stages[i + 1]);
            assert(forall|i: int| 0 <= i < next.len() ==> stage_finite(#[trigger] next[i]));
        },
    }
}

/// Everything a never-parking task writes to the log between its first
/// poll and its completion: the task's per-poll lines, poll after poll,
/// until no stage is left.  (A poll that would park ends the trace.)
pub open spec fn task_trace(stages: Seq<Stage>, id: u64) -> Seq<Line>
    decreases task_work(stages),
    via task_trace_decreases
{
    if stages.len() == 0 || task_status(stages) is Parked {
        Seq::<Line>::empty()
    } else {
        task_lines(stages, id) + task_trace(task_next_stages(stages), id)
    }
}

#[via_fn]
proof fn task_trace_decreases(stages: Seq<Stage>, id: u64) {
    if stages.len() > 0 && !(task_status(stages) is Parked) {
        lemma_task_work_step(stages);
        if task_status(stages) is Completed {
            assert(task_next_stages(stages) =~= stages.drop_first());
        }
    }
}

/// A wake that raced completion is absorbed: polling a task whose stages
/// are done decides nothing, logs nothing, and changes nothing, so any
/// number of stray wakes of a finished task are harmless.
pub proof fn lemma_absorbed_wake(stages: Seq<Stage>, id: u64)
    requires
        stages.len() == 0,
    ensures
        task_status(stages) is Idle,
        task_lines(stages, id) == Seq::<Line>::empty(),
        task_next_stages(stages) == stages,
        task_helper(stages) is None,
{
}

/// The payload a stage produces when it finishes.
pub open spec fn stage_payload(s: Stage) -> &'static str {
    match s {
        Stage::Machine(_) => "finished",
        Stage::Sleep(_) => "wake from sleep!",
        Stage::Block(_) => "end",
        Stage::Input(_) => "stdin future done",
    }
}

/// Everything one never-parking stage contributes to the log over its
/// lifetime: its own lines, poll after poll, ending with its payload.
pub open spec fn stage_trace(s: Stage) -> Seq<Line>
    decreases stage_work(s),
    via stage_trace_decreases
{
    match stage_outcome(s) {
        Poll::Ready(v) => stage_lines(s) + seq![Line::Text(v)],
        Poll::Pending => stage_lines(s) + (if stage_wakes(s) {
            stage_trace(stage_next(s))
        } else {
            Seq::<Line>::empty()
        }),
    }
}

#[via_fn]
proof fn stage_trace_decreases(s: Stage) {
    if stage_outcome(s) is Pending && stage_wakes(s) {
        assert(stage_work(stage_next(s)) < stage_work(s));
    }
}

/// Each never-parking stage's trace ends with that stage's payload: so in
/// the concatenation `stages_trace`, the `Ready` values stand in exactly
/// the stages' admission order.
pub proof fn lemma_stage_trace_ends_with_payload(s: Stage)
    requires
        stage_finite(s),
    ensures
        stage_trace(s).len() > 0,
        stage_trace(s).last() == Line::Text(stage_payload(s)),
    decreases stage_work(s),
{
    match stage_outcome(s) {
        Poll::Ready(v) => {
            assert(v == stage_payload(s));
            assert(stage_trace(s).last() == Line::Text(v));
        },
        Poll::Pending => {
            assert(stage_wakes(s));
            assert(stage_finite(stage_next(s)));
            assert(stage_payload(stage_next(s)) == stage_payload(s));
            assert(stage_work(stage_next(s)) < stage_work(s));
            lemma_stage_trace_ends_with_payload(stage_next(s));
            assert(stage_trace(s).last() == stage_trace(stage_next(s)).last());
        },
    }
}

/// The traces of a list of stages, one after the other.
pub open spec fn stages_trace(stages: Seq<Stage>) -> Seq<Line>
    decreases stages.len(),
{
    if stages.len() == 0 {
        Seq::<Line>::empty()
    } else {
        stage_trace(stages[0]) + stages_trace(stages.drop_first())
    }
}

/// Order preservation: a task that never parks logs, from admission to
/// completion, exactly its stages' traces in admission order — each ending
/// with that stage's payload — followed by its completion marker.  In
/// particular the `Ready` values appear in exactly the stages' order.
pub proof fn lemma_order_preservation(stages: Seq<Stage>, id: u64)
    requires
        task_finite(stages),
        stages.len() > 0,
    ensures
        task_trace(stages, id) == stages_trace(stages) + seq![Line::Completed(id)],
    decreases task_work(stages),
{
    lemma_finite_step(stages);
    lemma_task_work_step(stages);
    let s = stages[0];
    let next = task_next_stages(stages);
    match stage_outcome(s) {
        Poll::Pending => {
            // The head stage yielded with a self-wake: it stays at the
            // head in its advanced state.
            assert(stage_wakes(s));
            lemma_order_preservation(next, id);
            assert(next.drop_first() =~= stages.drop_first());
            assert(stages_trace(next) == stage_trace(next[0]) + stages_trace(
                stages.drop_first(),
            ));
            assert(stage_trace(s) == stage_lines(s) + stage_trace(stage_next(s)));
            assert(task_trace(stages, id) =~= stages_trace(stages) + seq![Line::Completed(id)]);
        },
        Poll::Ready(v) => {
            assert(next =~= stages.drop_first());
            assert(stage_trace(s) == stage_lines(s) + seq![Line::Text(v)]);
            if stages.len() == 1 {
                assert(task_trace(next, id) =~= Seq::<Line>::empty());
                assert(stages_trace(next) =~= Seq::<Line>::empty());
                assert(task_trace(stages, id) =~= stages_trace(stages) + seq![
                    Line::Completed(id),
                ]);
            } else {
                lemma_order_preservation(next, id);
                assert(task_trace(stages, id) =~= stages_trace(stages) + seq![
                    Line::Completed(id),
                ]);
            }
        },
    }
}

impl Task {
    pub fn new(id: u64, name: String, stages: Vec<Stage>) -> (r: Task)
        ensures
            r.id == id,
            r.name == name,
            r.stages == stages,
    {
        Task { id, name, stages }
    }

    /// Poll the task once, as the executor does after popping it from the
    /// ready queue: take the head stage, poll it with a fresh context, then
    /// re-seat it if pending or log its payload if finished.  A task with
    /// no stages absorbs the poll — a wake that raced with completion is
    /// idempotent.  Returns the scheduling request and any helper-thread
    /// request the stage made.
    pub fn poll(&mut self, log: &mut Vec<Line>) -> (r: (TaskStatus, Option<u64>))
        ensures
            r.0 == task_status(old(self).stages@),
            r.1 == task_helper(old(self).stages@),
            final(self).id == old(self).id,
            final(self).name == old(self).name,
            final(self).stages@ == task_next_stages(old(self).stages@),
            final(log)@ == old(log)@ + task_lines(old(self).stages@, old(self).id),
    {
        if self.stages.len() == 0 {
            proof {
                assert(log@ =~= old(log)@ + task_lines(old(self).stages@, old(self).id));
            }
            return (TaskStatus::Idle, None);
        }
        let mut stage = self.stages.remove(0);
        let mut ctx = PollContext::new();
        let res = stage.poll(&mut ctx, log);
        match res {
            Poll::Pending => {
                self.stages.insert(0, stage);
                proof {
                    assert(self.stages@ =~= task_next_stages(old(self).stages@));
                    assert(log@ =~= old(log)@ + task_lines(old(self).stages@, old(self).id));
                }
                if ctx.woken {
                    (TaskStatus::Runnable, ctx.helper)
                } else {
                    (TaskStatus::Parked, ctx.helper)
                }
            },
            Poll::Ready(val) => {
                log.push(Line::Text(val));
                proof {
                    assert(self.stages@ =~= task_next_stages(old(self).stages@));
                }
                if self.stages.len() > 0 {
                    proof {
                        assert(log@ =~= old(log)@ + task_lines(
                            old(self).stages@,
                            old(self).id,
                        ));
                    }
                    (TaskStatus::Runnable, ctx.helper)
                } else {
                    log.push(Line::Completed(self.id));
                    proof {
                        assert(log@ =~= old(log)@ + task_lines(
                            old(self).stages@,
                            old(self).id,
                        ));
                    }
                    (TaskStatus::Completed, ctx.helper)
                }
            },
        }
    }
}

} // verus!

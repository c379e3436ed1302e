use vstd::prelude::*;

use crate::futures::Stage;
use crate::futures::stage_awakened;
use crate::futures::stage_delivered;
use crate::outcome::Line;
use crate::task::Task;
use crate::task::TaskStatus;
use crate::task::lemma_finite_step;
use crate::task::lemma_task_work_step;
use crate::task::task_finite;
use crate::task::task_helper;
use crate::task::task_lines;
use crate::task::task_next_stages;
use crate::task::task_status;
use crate::task::task_trace;
use crate::task::task_work;

verus! {

/// A request, made during a poll, for a helper thread that sleeps for
/// `millis` milliseconds and then reports the elapse to task `task_id`.
#[derive(Clone, Copy, PartialEq, Eq, Structural, Debug)]
pub struct HelperRequest {
    pub task_id: u64,
    pub millis: u64,
}

/// The executor's state: a FIFO ready queue, the tasks parked waiting for
/// an outside event, the helper-thread requests not yet taken up, the
/// doorbell standing for the event descriptor's counter, and the log of
/// everything the tasks have produced.
#[derive(Debug)]
pub struct Executor {
    pub queue: Vec<Task>,
    pub parked: Vec<Task>,
    pub helpers: Vec<HelperRequest>,
    pub doorbell: bool,
    pub log: Vec<Line>,
    pub next_id: u64,
}

/// A task list reduced to what the contracts track of each task: its id
/// and its stages.  The name is diagnostic only.
pub open spec fn tasks_view(q: Seq<Task>) -> Seq<(u64, Seq<Stage>)> {
    q.map_values(|t: Task| (t.id, t.stages@))
}

/// The polls the executor owes a list of tasks, by their views.
pub open spec fn view_work(v: Seq<(u64, Seq<Stage>)>) -> nat
    decreases v.len(),
{
    if v.len() == 0 {
        0
    } else {
        task_work(v[0].1) + view_work(v.drop_first())
    }
}

/// The polls the executor owes the tasks now in the queue.
pub open spec fn queue_work(q: Seq<Task>) -> nat {
    view_work(tasks_view(q))
}

proof fn lemma_view_work_push(v: Seq<(u64, Seq<Stage>)>, p: (u64, Seq<Stage>))
    ensures
        view_work(v.push(p)) == view_work(v) + task_work(p.1),
    decreases v.len(),
{
    if v.len() == 0 {
        assert(v.push(p)[0] == p);
        assert(v.push(p).drop_first() =~~= Seq::<(u64, Seq<Stage>)>::empty());
        assert(view_work(Seq::<(u64, Seq<Stage>)>::empty()) == 0);
    } else {
        assert(v.push(p)[0] == v[0]);
        assert(v.push(p).drop_first() =~~= v.drop_first().push(p));
        lemma_view_work_push(v.drop_first(), p);
        assert(view_work(v.push(p)) == task_work(v[0].1) + view_work(v.push(p).drop_first()));
    }
}

proof fn lemma_tasks_view_drop(q: Seq<Task>)
    requires
        q.len() > 0,
    ensures
        tasks_view(q).drop_first() == tasks_view(q.drop_first()),
{
    assert(tasks_view(q).drop_first() =~= tasks_view(q.drop_first()));
}

/// Everything a drain of tasks with these views writes to the log: the
/// head task's per-poll lines, with a runnable task going to the tail, a
/// parked, completed or stage-less one leaving the queue.  This pins the
/// executor's whole interleaving; each task's own lines appear within it
/// in that task's order.
pub open spec fn run_trace(v: Seq<(u64, Seq<Stage>)>) -> Seq<Line>
    decreases view_work(v), v.len(),
    via run_trace_decreases
{
    if v.len() == 0 {
        Seq::<Line>::empty()
    } else if v[0].1.len() == 0 {
        run_trace(v.drop_first())
    } else {
        task_lines(v[0].1, v[0].0) + (if task_status(v[0].1) is Runnable {
            run_trace(v.drop_first().push((v[0].0, task_next_stages(v[0].1))))
        } else {
            run_trace(v.drop_first())
        })
    }
}

#[via_fn]
proof fn run_trace_decreases(v: Seq<(u64, Seq<Stage>)>) {
    if v.len() > 0 {
        lemma_run_step_measure(v);
    }
}

/// The tasks such a drain parks, in parking order, with their advanced
/// stages.
pub open spec fn run_parked(v: Seq<(u64, Seq<Stage>)>) -> Seq<(u64, Seq<Stage>)>
    decreases view_work(v), v.len(),
    via run_parked_decreases
{
    if v.len() == 0 {
        Seq::<(u64, Seq<Stage>)>::empty()
    } else if v[0].1.len() == 0 {
        run_parked(v.drop_first())
    } else {
        match task_status(v[0].1) {
            TaskStatus::Runnable => run_parked(
                v.drop_first().push((v[0].0, task_next_stages(v[0].1))),
            ),
            TaskStatus::Parked => seq![(v[0].0, task_next_stages(v[0].1))] + run_parked(
                v.drop_first(),
            ),
            _ => run_parked(v.drop_first()),
        }
    }
}

#[via_fn]
proof fn run_parked_decreases(v: Seq<(u64, Seq<Stage>)>) {
    if v.len() > 0 {
        lemma_run_step_measure(v);
    }
}

proof fn lemma_run_step_measure(v: Seq<(u64, Seq<Stage>)>)
    requires
        v.len() > 0,
    ensures
        v[0].1.len() == 0 ==> view_work(v.drop_first()) == view_work(v),
        v[0].1.len() > 0 ==> view_work(v.drop_first()) < view_work(v),
        (v[0].1.len() > 0 && task_status(v[0].1) is Runnable) ==> view_work(
            v.drop_first().push((v[0].0, task_next_stages(v[0].1))),
        ) < view_work(v),
{
    if v[0].1.len() > 0 {
        lemma_task_work_step(v[0].1);
        assert(task_work(v[0].1) >= 1);
        if task_status(v[0].1) is Runnable {
            lemma_view_work_push(v.drop_first(), (v[0].0, task_next_stages(v[0].1)));
        }
    }
}

impl Executor {
    /// A fresh executor: nothing queued, nothing parked, doorbell clear.
    pub fn new() -> (r: Executor)
        ensures
            r.queue@.len() == 0,
            r.parked@.len() == 0,
            r.helpers@.len() == 0,
            !r.doorbell,
            r.log@.len() == 0,
            r.next_id == 0,
    {
        Executor {
            queue: Vec::new(),
            parked: Vec::new(),
            helpers: Vec::new(),
            doorbell: false,
            log: Vec::new(),
            next_id: 0,
        }
    }

    /// Admit a task: append it to the tail of the ready queue and ring the
    /// doorbell, so an executor blocked on the event descriptor wakes.
    /// Returns the id the task was assigned.
    pub fn spawn(&mut self, name: String, stages: Vec<Stage>) -> (id: u64)
        requires
            old(self).next_id < u64::MAX,
        ensures
            id == old(self).next_id,
            final(self).next_id == old(self).next_id + 1,
            tasks_view(final(self).queue@) == tasks_view(old(self).queue@).push((id, stages@)),
            final(self).parked == old(self).parked,
            final(self).helpers == old(self).helpers,
            final(self).log == old(self).log,
            final(self).doorbell,
    {
        let id = self.next_id;
        self.next_id = self.next_id + 1;
        let task = Task::new(id, name, stages);
        self.queue.push(task);
        self.doorbell = true;
        proof {
            assert(tasks_view(self.queue@) =~= tasks_view(old(self).queue@).push(
                (id, task.stages@),
            ));
        }
        id
    }

    /// The executor's blocking read of the event descriptor: it returns
    /// only once the doorbell has been rung, and clears the accumulated
    /// count.  The count is a level indicator only; its value is
    /// discarded.
    pub fn wait_doorbell(&mut self)
        requires
            old(self).doorbell,
        ensures
            !final(self).doorbell,
            final(self).queue == old(self).queue,
            final(self).parked == old(self).parked,
            final(self).helpers == old(self).helpers,
            final(self).log == old(self).log,
            final(self).next_id == old(self).next_id,
    {
        self.doorbell = false;
    }

    /// One scheduling decision: pop the head task and poll it.  A runnable
    /// task goes back to the tail of the queue and its wake rings the
    /// doorbell, as a waker's schedule does; a parked one joins the parked
    /// set; a completed or stage-less one is dropped.  Any helper-thread
    /// request the poll made is recorded.
    pub fn step(&mut self)
        requires
            old(self).queue@.len() > 0,
        ensures
            ({
                let t = old(self).queue@[0];
                let rest = old(self).queue@.drop_first();
                let st = task_status(t.stages@);
                &&& final(self).log@ == old(self).log@ + task_lines(t.stages@, t.id)
                &&& tasks_view(final(self).queue@) == (if st is Runnable {
                    tasks_view(rest).push((t.id, task_next_stages(t.stages@)))
                } else {
                    tasks_view(rest)
                })
                &&& tasks_view(final(self).parked@) == (if st is Parked {
                    tasks_view(old(self).parked@).push((t.id, task_next_stages(t.stages@)))
                } else {
                    tasks_view(old(self).parked@)
                })
                &&& final(self).helpers@ == (match task_helper(t.stages@) {
                    Some(m) => old(self).helpers@.push(
                        (HelperRequest { task_id: t.id, millis: m }),
                    ),
                    None => old(self).helpers@,
                })
                &&& final(self).doorbell == (old(self).doorbell || st is Runnable)
                &&& final(self).next_id == old(self).next_id
            }),
    {
        let mut task = self.queue.remove(0);
        proof {
            assert(self.queue@ =~= old(self).queue@.drop_first());
        }
        let r = task.poll(&mut self.log);
        let status = r.0;
        match r.1 {
            Some(m) => {
                self.helpers.push(HelperRequest { task_id: task.id, millis: m });
            },
            None => {},
        }
        match status {
            TaskStatus::Runnable => {
                self.queue.push(task);
                self.doorbell = true;
                proof {
                    assert(tasks_view(self.queue@) =~= tasks_view(
                        old(self).queue@.drop_first(),
                    ).push((task.id, task.stages@)));
                }
            },
            TaskStatus::Parked => {
                self.parked.push(task);
                proof {
                    assert(tasks_view(self.parked@) =~= tasks_view(old(self).parked@).push(
                        (task.id, task.stages@),
                    ));
                }
            },
            TaskStatus::Idle => {},
            TaskStatus::Completed => {},
        }
    }

    /// Drain the ready queue: poll head tasks until the queue is empty.
    /// Tasks that park leave the queue for the parked set.  Run to
    /// completion: every admitted task with at least one stage, none of
    /// which ever parks, is driven to its end, and its completion marker is
    /// in the log when the drain returns.
    pub fn run_ready(&mut self)
        ensures
            final(self).queue@.len() == 0,
            final(self).next_id == old(self).next_id,
            old(self).log@.is_prefix_of(final(self).log@),
            tasks_view(old(self).parked@).is_prefix_of(tasks_view(final(self).parked@)),
            forall|j: int|
                0 <= j < old(self).queue@.len() && old(self).queue@[j].stages@.len() > 0
                    && task_finite(#[trigger] old(self).queue@[j].stages@) ==> final(self).log@.contains(Line::Completed(old(self).queue@[j].id)),
            (old(self).queue@.len() == 1 && old(self).queue@[0].stages@.len() > 0 && task_finite(
                old(self).queue@[0].stages@,
            )) ==> final(self).log@ == old(self).log@ + task_trace(
                old(self).queue@[0].stages@,
                old(self).queue@[0].id,
            ),
            final(self).log@ == old(self).log@ + run_trace(tasks_view(old(self).queue@)),
            tasks_view(final(self).parked@) == tasks_view(old(self).parked@) + run_parked(
                tasks_view(old(self).queue@),
            ),
    {
        while self.queue.len() > 0
            invariant
                self.next_id == old(self).next_id,
                old(self).log@.is_prefix_of(self.log@),
                tasks_view(old(self).parked@).is_prefix_of(tasks_view(self.parked@)),
                forall|j: int|
                    0 <= j < old(self).queue@.len() && old(self).queue@[j].stages@.len() > 0
                        && task_finite(#[trigger] old(self).queue@[j].stages@) ==> (
                    self.log@.contains(Line::Completed(old(self).queue@[j].id)) || exists|k: int|
                        0 <= k < self.queue@.len() && #[trigger] self.queue@[k].id == old(self).queue@[j].id && self.queue@[k].stages@.len() > 0 && task_finite(
                            self.queue@[k].stages@,
                        )),
                (old(self).queue@.len() == 1 && old(self).queue@[0].stages@.len() > 0
                    && task_finite(old(self).queue@[0].stages@)) ==> ({
                    &&& self.queue@.len() <= 1
                    &&& self.queue@.len() == 1 ==> self.queue@[0].id == old(self).queue@[0].id
                        && self.queue@[0].stages@.len() > 0 && task_finite(
                        self.queue@[0].stages@,
                    ) && old(self).log@ + task_trace(
                        old(self).queue@[0].stages@,
                        old(self).queue@[0].id,
                    ) == self.log@ + task_trace(
                        self.queue@[0].stages@,
                        old(self).queue@[0].id,
                    )
                    &&& self.queue@.len() == 0 ==> self.log@ == old(self).log@ + task_trace(
                        old(self).queue@[0].stages@,
                        old(self).queue@[0].id,
                    )
                }),
                old(self).log@ + run_trace(tasks_view(old(self).queue@)) == self.log@ + run_trace(
                    tasks_view(self.queue@),
                ),
                tasks_view(old(self).parked@) + run_parked(tasks_view(old(self).queue@))
                    == tasks_view(self.parked@) + run_parked(tasks_view(self.queue@)),
            decreases queue_work(self.queue@), self.queue@.len(),
        {
            let ghost prev = *self;
            let ghost t = self.queue@[0];
            let ghost rest = self.queue@.drop_first();
            self.step();
            proof {
                let st = task_status(t.stages@);
                lemma_tasks_view_drop(prev.queue@);
                assert(tasks_view(prev.queue@)[0] == (t.id, t.stages@));

                // Index views of every list in play.
                assert(forall|i: int|
                    0 <= i < self.queue@.len() ==> #[trigger] tasks_view(self.queue@)[i] == (
                        self.queue@[i].id,
                        self.queue@[i].stages@,
                    ));
                assert(forall|i: int|
                    0 <= i < prev.queue@.len() ==> #[trigger] tasks_view(prev.queue@)[i] == (
                        prev.queue@[i].id,
                        prev.queue@[i].stages@,
                    ));
                assert(forall|i: int|
                    0 <= i < rest.len() ==> #[trigger] tasks_view(rest)[i] == (
                        rest[i].id,
                        rest[i].stages@,
                    ));

                // The lexicographic measure decreases.
                if t.stages@.len() > 0 {
                    lemma_task_work_step(t.stages@);
                }
                if st is Runnable {
                    lemma_view_work_push(tasks_view(rest), (t.id, task_next_stages(t.stages@)));
                    assert(queue_work(self.queue@) < queue_work(prev.queue@));
                } else {
                    assert(queue_work(self.queue@) == view_work(tasks_view(rest)));
                    assert(queue_work(self.queue@) <= queue_work(prev.queue@));
                    if queue_work(self.queue@) == queue_work(prev.queue@) {
                        assert(self.queue@.len() < prev.queue@.len());
                    }
                }

                // The log only grows, and what it contained it still contains.
                assert forall|x: Line| prev.log@.contains(x) implies self.log@.contains(x) by {
                    let i = choose|i: int| 0 <= i < prev.log@.len() && prev.log@[i] == x;
                    assert(self.log@[i] == x);
                };
                assert(old(self).log@.is_prefix_of(self.log@)) by {
                    assert(forall|i: int|
                        0 <= i < old(self).log@.len() ==> #[trigger] self.log@[i] == prev.log@[i]);
                }

                // Parked only grows.
                assert(tasks_view(old(self).parked@).is_prefix_of(tasks_view(self.parked@)));

                // Completion bookkeeping: each finite original task is
                // either already completed in the log or still in the
                // queue, finite, with stages left.
                if t.stages@.len() > 0 && task_finite(t.stages@) {
                    lemma_finite_step(t.stages@);
                    if st is Completed {
                        assert(self.log@[self.log@.len() - 1] == Line::Completed(t.id));
                        assert(self.log@.contains(Line::Completed(t.id)));
                    }
                    if st is Runnable {
                        let last = self.queue@.len() - 1;
                        assert(tasks_view(self.queue@)[last] == (
                            t.id,
                            task_next_stages(t.stages@),
                        ));
                        assert(self.queue@[last].id == t.id && self.queue@[last].stages@
                            == task_next_stages(t.stages@));
                    }
                }

                // The drain follows the interpreter: one unfolding of
                // run_trace / run_parked per poll.
                {
                    let v = tasks_view(prev.queue@);
                    assert(v[0] == (t.id, t.stages@));
                    assert(v.drop_first() == tasks_view(rest));
                    let nx = (t.id, task_next_stages(t.stages@));
                    if t.stages@.len() == 0 {
                        assert(self.log@ =~= prev.log@);
                        assert(run_trace(v) == run_trace(tasks_view(rest)));
                        assert(run_parked(v) == run_parked(tasks_view(rest)));
                    } else if st is Runnable {
                        assert(run_trace(v) == task_lines(t.stages@, t.id) + run_trace(
                            tasks_view(rest).push(nx),
                        ));
                        assert(run_parked(v) == run_parked(tasks_view(rest).push(nx)));
                        assert(prev.log@ + (task_lines(t.stages@, t.id) + run_trace(
                            tasks_view(rest).push(nx),
                        )) =~= (prev.log@ + task_lines(t.stages@, t.id)) + run_trace(
                            tasks_view(rest).push(nx),
                        ));
                    } else if st is Parked {
                        assert(run_trace(v) == task_lines(t.stages@, t.id) + run_trace(
                            tasks_view(rest),
                        ));
                        assert(run_parked(v) == seq![nx] + run_parked(tasks_view(rest)));
                        assert(prev.log@ + (task_lines(t.stages@, t.id) + run_trace(
                            tasks_view(rest),
                        )) =~= (prev.log@ + task_lines(t.stages@, t.id)) + run_trace(
                            tasks_view(rest),
                        ));
                        assert(tasks_view(self.parked@) =~= tasks_view(prev.parked@) + seq![nx]);
                        assert(tasks_view(prev.parked@) + (seq![nx] + run_parked(
                            tasks_view(rest),
                        )) =~= (tasks_view(prev.parked@) + seq![nx]) + run_parked(
                            tasks_view(rest),
                        ));
                    } else {
                        assert(st is Completed);
                        assert(run_trace(v) == task_lines(t.stages@, t.id) + run_trace(
                            tasks_view(rest),
                        ));
                        assert(run_parked(v) == run_parked(tasks_view(rest)));
                        assert(prev.log@ + (task_lines(t.stages@, t.id) + run_trace(
                            tasks_view(rest),
                        )) =~= (prev.log@ + task_lines(t.stages@, t.id)) + run_trace(
                            tasks_view(rest),
                        ));
                    }
                }

                // A single-task run follows the task's trace exactly.
                if old(self).queue@.len() == 1 && old(self).queue@[0].stages@.len() > 0
                    && task_finite(old(self).queue@[0].stages@) {
                    let sid = old(self).queue@[0].id;
                    assert(prev.queue@.len() == 1);
                    assert(t == prev.queue@[0]);
                    assert(rest.len() == 0);
                    lemma_finite_step(t.stages@);
                    let next = task_next_stages(t.stages@);
                    assert(task_trace(t.stages@, sid) == task_lines(t.stages@, sid)
                        + task_trace(next, sid));
                    assert((prev.log@ + task_lines(t.stages@, sid)) + task_trace(next, sid)
                        =~= prev.log@ + (task_lines(t.stages@, sid) + task_trace(next, sid)));
                    if st is Runnable {
                        assert(tasks_view(self.queue@)[0] == (t.id, next));
                        assert(self.queue@.len() == 1);
                        assert(self.queue@[0].id == sid && self.queue@[0].stages@ == next);
                    } else {
                        assert(st is Completed);
                        assert(self.queue@.len() == 0);
                        assert(next.len() == 0);
                        assert(task_trace(next, sid) =~= Seq::<Line>::empty());
                        assert(task_lines(t.stages@, sid) + Seq::<Line>::empty()
                            =~= task_lines(t.stages@, sid));
                        assert(self.log@ =~= old(self).log@ + task_trace(
                            old(self).queue@[0].stages@,
                            sid,
                        ));
                    }
                }
                assert forall|j: int|
                    0 <= j < old(self).queue@.len() && old(self).queue@[j].stages@.len() > 0
                        && task_finite(#[trigger] old(self).queue@[j].stages@) implies (
                    self.log@.contains(Line::Completed(old(self).queue@[j].id)) || exists|k: int|
                        0 <= k < self.queue@.len() && #[trigger] self.queue@[k].id == old(self).queue@[j].id && self.queue@[k].stages@.len() > 0 && task_finite(
                            self.queue@[k].stages@,
                        )) by {
                    let id = old(self).queue@[j].id;
                    if prev.log@.contains(Line::Completed(id)) {
                        assert(self.log@.contains(Line::Completed(id)));
                    } else {
                        let k = choose|k: int|
                            0 <= k < prev.queue@.len() && #[trigger] prev.queue@[k].id == id
                                && prev.queue@[k].stages@.len() > 0 && task_finite(
                                prev.queue@[k].stages@,
                            );
                        if k == 0 {
                            // The popped task itself: it completed or was
                            // re-enqueued at the tail.
                            assert(t == prev.queue@[0]);
                            lemma_finite_step(t.stages@);
                        } else {
                            // Shifted one to the left with the pop.
                            assert(rest[k - 1] == prev.queue@[k]);
                            assert(tasks_view(self.queue@)[k - 1] == tasks_view(rest)[k - 1]);
                            assert(self.queue@[k - 1].id == id && self.queue@[k - 1].stages@
                                == prev.queue@[k].stages@);
                        }
                    }
                };
            }
        }
        proof {
            assert(run_trace(tasks_view(self.queue@)) == Seq::<Line>::empty());
            assert(self.log@ + Seq::<Line>::empty() =~= self.log@);
            assert(run_parked(tasks_view(self.queue@)) == Seq::<(u64, Seq<Stage>)>::empty());
            assert(tasks_view(self.parked@) + Seq::<(u64, Seq<Stage>)>::empty() =~= tasks_view(
                self.parked@,
            ));
        }
    }

    /// One iteration of the executor's run loop: block reading the event
    /// descriptor, then drain the ready queue.  The embedding process
    /// repeats this forever.
    pub fn run_cycle(&mut self)
        requires
            old(self).doorbell,
        ensures
            final(self).queue@.len() == 0,
            final(self).next_id == old(self).next_id,
            old(self).log@.is_prefix_of(final(self).log@),
            tasks_view(old(self).parked@).is_prefix_of(tasks_view(final(self).parked@)),
            forall|j: int|
                0 <= j < old(self).queue@.len() && old(self).queue@[j].stages@.len() > 0
                    && task_finite(#[trigger] old(self).queue@[j].stages@) ==> final(self).log@.contains(
                    Line::Completed(old(self).queue@[j].id),
                ),
            final(self).log@ == old(self).log@ + run_trace(tasks_view(old(self).queue@)),
            tasks_view(final(self).parked@) == tasks_view(old(self).parked@) + run_parked(
                tasks_view(old(self).queue@),
            ),
    {
        self.wait_doorbell();
        self.run_ready();
    }

    /// The position among the parked tasks of the one with this id, if it
    /// is parked: the helper thread and the reactor's callbacks find the
    /// task they are to wake by its id.
    pub fn find_parked(&self, task_id: u64) -> (r: Option<usize>)
        ensures
            match r {
                Some(k) => k < self.parked@.len() && self.parked@[k as int].id == task_id
                    && forall|j: int| 0 <= j < k ==> #[trigger] self.parked@[j].id != task_id,
                None => forall|j: int|
                    0 <= j < self.parked@.len() ==> #[trigger] self.parked@[j].id != task_id,
            },
    {
        let mut i: usize = 0;
        while i < self.parked.len()
            invariant
                i <= self.parked@.len(),
                forall|j: int| 0 <= j < i ==> #[trigger] self.parked@[j].id != task_id,
            decreases self.parked@.len() - i,
        {
            if self.parked[i].id == task_id {
                return Some(i);
            }
            i = i + 1;
        }
        None
    }

    /// What the sleep helper thread does once its duration has elapsed:
    /// clear the sleeping flag in the head stage of the parked task at
    /// position `k`, and wake the task — move it to the tail of the ready
    /// queue and ring the doorbell.  A wake of a task with no stages left
    /// is absorbed: the task is dropped.
    pub fn sleep_elapsed(&mut self, k: usize)
        requires
            k < old(self).parked@.len(),
        ensures
            ({
                let t = old(self).parked@[k as int];
                &&& tasks_view(final(self).parked@) == tasks_view(old(self).parked@).remove(
                    k as int,
                )
                &&& t.stages@.len() > 0 ==> tasks_view(final(self).queue@) == tasks_view(
                    old(self).queue@,
                ).push((t.id, t.stages@.update(0, stage_awakened(t.stages@[0]))))
                    && final(self).doorbell
                &&& t.stages@.len() == 0 ==> final(self).queue == old(self).queue && final(
                    self).doorbell == old(self).doorbell
                &&& final(self).log == old(self).log
                &&& final(self).helpers == old(self).helpers
                &&& final(self).next_id == old(self).next_id
            }),
    {
        let mut t = self.parked.remove(k);
        proof {
            assert(tasks_view(self.parked@) =~= tasks_view(old(self).parked@).remove(k as int));
        }
        if t.stages.len() > 0 {
            let mut s = t.stages.remove(0);
            s.awaken();
            t.stages.insert(0, s);
            proof {
                assert(t.stages@ =~= old(self).parked@[k as int].stages@.update(
                    0,
                    stage_awakened(old(self).parked@[k as int].stages@[0]),
                ));
            }
            self.queue.push(t);
            self.doorbell = true;
            proof {
                assert(tasks_view(self.queue@) =~= tasks_view(old(self).queue@).push(
                    (
                        old(self).parked@[k as int].id,
                        old(self).parked@[k as int].stages@.update(
                            0,
                            stage_awakened(old(self).parked@[k as int].stages@[0]),
                        ),
                    ),
                ));
            }
        }
    }

    /// What the reactor fires on a readiness notification for the watched
    /// descriptor: hand the head stage of the parked task at position `k`
    /// the readable line, mark it ready, and wake the task.  A wake of a
    /// task with no stages left is absorbed.
    pub fn input_ready(&mut self, k: usize, line: Vec<u8>)
        requires
            k < old(self).parked@.len(),
        ensures
            ({
                let t = old(self).parked@[k as int];
                &&& tasks_view(final(self).parked@) == tasks_view(old(self).parked@).remove(
                    k as int,
                )
                &&& t.stages@.len() > 0 ==> tasks_view(final(self).queue@) == tasks_view(
                    old(self).queue@,
                ).push((t.id, t.stages@.update(0, stage_delivered(t.stages@[0], line))))
                    && final(self).doorbell
                &&& t.stages@.len() == 0 ==> final(self).queue == old(self).queue && final(
                    self).doorbell == old(self).doorbell
                &&& final(self).log == old(self).log
                &&& final(self).helpers == old(self).helpers
                &&& final(self).next_id == old(self).next_id
            }),
    {
        let mut t = self.parked.remove(k);
        proof {
            assert(tasks_view(self.parked@) =~= tasks_view(old(self).parked@).remove(k as int));
        }
        if t.stages.len() > 0 {
            let mut s = t.stages.remove(0);
            s.deliver(line);
            t.stages.insert(0, s);
            proof {
                assert(t.stages@ =~= old(self).parked@[k as int].stages@.update(
                    0,
                    stage_delivered(old(self).parked@[k as int].stages@[0], line),
                ));
            }
            self.queue.push(t);
            self.doorbell = true;
            proof {
                assert(tasks_view(self.queue@) =~= tasks_view(old(self).queue@).push(
                    (
                        old(self).parked@[k as int].id,
                        old(self).parked@[k as int].stages@.update(
                            0,
                            stage_delivered(old(self).parked@[k as int].stages@[0], line),
                        ),
                    ),
                ));
            }
        }
    }

    /// Hand over the helper-thread requests recorded so far; the embedding
    /// process starts one timer thread per request.
    pub fn take_helpers(&mut self) -> (r: Vec<HelperRequest>)
        ensures
            r@ == old(self).helpers@,
            final(self).helpers@.len() == 0,
            final(self).queue == old(self).queue,
            final(self).parked == old(self).parked,
            final(self).log == old(self).log,
            final(self).doorbell == old(self).doorbell,
            final(self).next_id == old(self).next_id,
    {
        let mut out: Vec<HelperRequest> = Vec::new();
        let mut i: usize = 0;
        while i < self.helpers.len()
            invariant
                i <= self.helpers@.len(),
                self.helpers == old(self).helpers,
                out@ == old(self).helpers@.subrange(0, i as int),
            decreases self.helpers@.len() - i,
        {
            let h = self.helpers[i];
            out.push(h);
            proof {
                assert(out@ =~= old(self).helpers@.subrange(0, i + 1));
            }
            i = i + 1;
        }
        proof {
            assert(out@ =~= old(self).helpers@);
        }
        self.helpers = Vec::new();
        out
    }
}

} // verus!

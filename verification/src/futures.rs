use vstd::prelude::*;

use crate::outcome::Line;
use crate::outcome::Poll;
use crate::outcome::PollContext;
use crate::parse::input_result;
use crate::parse::line_value;

verus! {

// ---------------------------------------------------------------------------
// Self-yielding state machine
// ---------------------------------------------------------------------------

/// The three positions of the self-yielding state machine future.
#[derive(Clone, Copy, PartialEq, Eq, Debug)]
pub enum MyState {
    Start,
    Middle,
    End,
}

/// A future that steps `Start -> Middle -> End`.  Each step before the last
/// traces the transition, wakes its own task, and yields; the last step
/// finishes with `"finished"`.
#[derive(Debug)]
pub struct MyFuture {
    pub state: MyState,
}

pub open spec fn machine_outcome(m: MyState) -> Poll<&'static str> {
    match m {
        MyState::End => Poll::Ready("finished"),
        _ => Poll::Pending,
    }
}

pub open spec fn machine_next(m: MyState) -> MyState {
    match m {
        MyState::Start => MyState::Middle,
        MyState::Middle => MyState::End,
        MyState::End => MyState::End,
    }
}

pub open spec fn machine_lines(m: MyState) -> Seq<Line> {
    match m {
        MyState::Start => seq![Line::Text("Start"), Line::Text("Yielded: Start -> Middle")],
        MyState::Middle => seq![Line::Text("Middle"), Line::Text("Yielded: Middle -> End")],
        MyState::End => seq![Line::Text("End")],
    }
}

pub open spec fn machine_wakes(m: MyState) -> bool {
    !(m is End)
}

impl MyFuture {
    pub fn new() -> (r: MyFuture)
        ensures
            r.state == MyState::Start,
    {
        MyFuture { state: MyState::Start }
    }

    pub fn poll(&mut self, ctx: &mut PollContext, log: &mut Vec<Line>) -> (r: Poll<
        &'static str,
    >)
        requires
            !old(ctx).woken,
            old(ctx).helper is None,
        ensures
            r == machine_outcome(old(self).state),
            final(self).state == machine_next(old(self).state),
            final(log)@ == old(log)@ + machine_lines(old(self).state),
            final(ctx).woken == machine_wakes(old(self).state),
            final(ctx).helper is None,
    {
        match self.state {
            MyState::Start => {
                log.push(Line::Text("Start"));
                log.push(Line::Text("Yielded: Start -> Middle"));
                self.state = MyState::Middle;
                ctx.wake_by_ref();
                proof {
                    assert(log@ =~= old(log)@ + machine_lines(MyState::Start));
                }
                Poll::Pending
            },
            MyState::Middle => {
                log.push(Line::Text("Middle"));
                log.push(Line::Text("Yielded: Middle -> End"));
                self.state = MyState::End;
                ctx.wake_by_ref();
                proof {
                    assert(log@ =~= old(log)@ + machine_lines(MyState::Middle));
                }
                Poll::Pending
            },
            MyState::End => {
                log.push(Line::Text("End"));
                proof {
                    assert(log@ =~= old(log)@ + machine_lines(MyState::End));
                }
                Poll::Ready("finished")
            },
        }
    }
}

// ---------------------------------------------------------------------------
// Sleep via helper thread
// ---------------------------------------------------------------------------

/// A future that is pending until a configured duration has elapsed.  Its
/// first poll asks the runtime for a helper thread that waits out the
/// duration and then reports back; every poll before that report traces
/// `"...zzz"` and parks the task.
#[derive(Debug)]
pub struct SleepFuture {
    /// Still within the sleep duration.  The helper thread's report clears
    /// this flag.
    pub is_sleep: bool,
    /// The configured duration, in milliseconds.
    pub sleep_millis: u64,
    /// Whether a helper thread has already been requested; at most one is
    /// ever started per future.
    pub spawned: bool,
}

pub open spec fn sleep_outcome(f: SleepFuture) -> Poll<&'static str> {
    if f.is_sleep {
        Poll::Pending
    } else {
        Poll::Ready("wake from sleep!")
    }
}

pub open spec fn sleep_next(f: SleepFuture) -> SleepFuture {
    if f.is_sleep {
        SleepFuture { is_sleep: true, sleep_millis: f.sleep_millis, spawned: true }
    } else {
        f
    }
}

pub open spec fn sleep_lines(f: SleepFuture) -> Seq<Line> {
    if f.is_sleep {
        seq![Line::Text("...zzz")]
    } else {
        Seq::<Line>::empty()
    }
}

pub open spec fn sleep_requests_helper(f: SleepFuture) -> bool {
    f.is_sleep && !f.spawned
}

impl SleepFuture {
    pub fn new(duration_millis: u64) -> (r: SleepFuture)
        ensures
            (r == SleepFuture { is_sleep: true, sleep_millis: duration_millis, spawned: false }),
    {
        SleepFuture { is_sleep: true, sleep_millis: duration_millis, spawned: false }
    }

    /// What the helper thread reports once the duration has elapsed: the
    /// future is no longer sleeping.  The report is followed by a wake of
    /// the owning task.
    pub fn set_awake(&mut self)
        ensures
            (*final(self) == SleepFuture {
                is_sleep: false,
                sleep_millis: old(self).sleep_millis,
                spawned: old(self).spawned,
            }),
    {
        self.is_sleep = false;
    }

    pub fn poll(&mut self, ctx: &mut PollContext, log: &mut Vec<Line>) -> (r: Poll<
        &'static str,
    >)
        requires
            !old(ctx).woken,
            old(ctx).helper is None,
        ensures
            r == sleep_outcome(*old(self)),
            *final(self) == sleep_next(*old(self)),
            final(log)@ == old(log)@ + sleep_lines(*old(self)),
            !final(ctx).woken,
            final(ctx).helper == if sleep_requests_helper(*old(self)) {
                Some(old(self).sleep_millis)
            } else {
                Option::<u64>::None
            },
    {
        if self.is_sleep {
            log.push(Line::Text("...zzz"));
            if !self.spawned {
                self.spawned = true;
                ctx.request_helper(self.sleep_millis);
            }
            proof {
                assert(log@ =~= old(log)@ + sleep_lines(*old(self)));
            }
            Poll::Pending
        } else {
            proof {
                assert(log@ =~= old(log)@ + sleep_lines(*old(self)));
            }
            Poll::Ready("wake from sleep!")
        }
    }
}

// ---------------------------------------------------------------------------
// Input readiness
// ---------------------------------------------------------------------------

/// A future that awaits readable input on a file descriptor.  While the
/// readiness flag is clear it parks its task (leaving its waker behind);
/// once the reactor has marked it ready, the next poll consumes the line it
/// was handed, reports the parsed number plus ten, and finishes.
#[derive(Debug)]
pub struct StdinFuture {
    /// Set by the reactor when the watched descriptor has readable input.
    pub is_ready: bool,
    /// The readable line, handed over together with the readiness signal.
    pub line: Vec<u8>,
}

pub open spec fn input_outcome(f: StdinFuture) -> Poll<&'static str> {
    if f.is_ready {
        Poll::Ready("stdin future done")
    } else {
        Poll::Pending
    }
}

pub open spec fn input_lines(f: StdinFuture) -> Seq<Line> {
    if f.is_ready {
        seq![Line::InputResult((line_value(f.line@) + 10) as i64)]
    } else {
        Seq::<Line>::empty()
    }
}

impl StdinFuture {
    pub fn new() -> (r: StdinFuture)
        ensures
            !r.is_ready,
            r.line@ == Seq::<u8>::empty(),
    {
        StdinFuture { is_ready: false, line: Vec::new() }
    }

    /// What the reactor's callback does on a readiness notification: mark
    /// the future ready.  A wake of the owning task follows.
    pub fn set_ready(&mut self)
        ensures
            final(self).is_ready,
            final(self).line == old(self).line,
    {
        self.is_ready = true;
    }

    /// Hand the future the line its descriptor has readable and mark it
    /// ready in one step.
    pub fn set_input(&mut self, line: Vec<u8>)
        ensures
            final(self).is_ready,
            final(self).line == line,
    {
        self.line = line;
        self.is_ready = true;
    }

    pub fn poll(&mut self, ctx: &mut PollContext, log: &mut Vec<Line>) -> (r: Poll<
        &'static str,
    >)
        requires
            !old(ctx).woken,
            old(ctx).helper is None,
        ensures
            r == input_outcome(*old(self)),
            *final(self) == *old(self),
            final(log)@ == old(log)@ + input_lines(*old(self)),
            !final(ctx).woken,
            final(ctx).helper is None,
    {
        if self.is_ready {
            let value = input_result(&self.line);
            log.push(Line::InputResult(value));
            proof {
                assert(log@ =~= old(log)@ + input_lines(*old(self)));
            }
            Poll::Ready("stdin future done")
        } else {
            proof {
                assert(log@ =~= old(log)@ + input_lines(*old(self)));
            }
            Poll::Pending
        }
    }
}

// ---------------------------------------------------------------------------
// Sequential block: start step, inner sleep, end step
// ---------------------------------------------------------------------------

/// The positions of the sequential block.
#[derive(Clone, Copy, PartialEq, Eq, Debug)]
pub enum AsyncBlockState {
    Start,
    Sleeping,
    End,
}

/// A future composing a start step, an inner sleep future, and an end step.
/// While `Sleeping` it forwards polls to the inner future with the same
/// context; when the inner future finishes it traces the payload, advances,
/// and self-wakes, finishing with `"end"` on the next poll.
#[derive(Debug)]
pub struct AsyncBlockFuture {
    pub state: AsyncBlockState,
    pub sleep_future: SleepFuture,
}

pub open spec fn block_outcome(b: AsyncBlockFuture) -> Poll<&'static str> {
    match b.state {
        AsyncBlockState::End => Poll::Ready("end"),
        _ => Poll::Pending,
    }
}

pub open spec fn block_next(b: AsyncBlockFuture) -> AsyncBlockFuture {
    match b.state {
        AsyncBlockState::Start => (AsyncBlockFuture {
            state: AsyncBlockState::Sleeping,
            sleep_future: b.sleep_future,
        }),
        AsyncBlockState::Sleeping => {
            if b.sleep_future.is_sleep {
                AsyncBlockFuture {
                    state: AsyncBlockState::Sleeping,
                    sleep_future: sleep_next(b.sleep_future),
                }
            } else {
                AsyncBlockFuture { state: AsyncBlockState::End, sleep_future: b.sleep_future }
            }
        },
        AsyncBlockState::End => b,
    }
}

pub open spec fn block_lines(b: AsyncBlockFuture) -> Seq<Line> {
    match b.state {
        AsyncBlockState::Start => seq![Line::Text("start")],
        AsyncBlockState::Sleeping => {
            if b.sleep_future.is_sleep {
                seq![Line::Text("...zzz")]
            } else {
                seq![Line::Text("wake from sleep!")]
            }
        },
        AsyncBlockState::End => Seq::<Line>::empty(),
    }
}

pub open spec fn block_wakes(b: AsyncBlockFuture) -> bool {
    match b.state {
        AsyncBlockState::Start => true,
        AsyncBlockState::Sleeping => !b.sleep_future.is_sleep,
        AsyncBlockState::End => false,
    }
}

pub open spec fn block_requests_helper(b: AsyncBlockFuture) -> bool {
    b.state is Sleeping && sleep_requests_helper(b.sleep_future)
}

impl AsyncBlockFuture {
    pub fn new(duration_millis: u64) -> (r: AsyncBlockFuture)
        ensures
            r.state == AsyncBlockState::Start,
            (r.sleep_future == SleepFuture {
                is_sleep: true,
                sleep_millis: duration_millis,
                spawned: false,
            }),
    {
        AsyncBlockFuture {
            state: AsyncBlockState::Start,
            sleep_future: SleepFuture::new(duration_millis),
        }
    }

    /// What the inner sleep's helper thread reports once the duration has
    /// elapsed.
    pub fn set_awake(&mut self)
        ensures
            final(self).state == old(self).state,
            (final(self).sleep_future == SleepFuture {
                is_sleep: false,
                sleep_millis: old(self).sleep_future.sleep_millis,
                spawned: old(self).sleep_future.spawned,
            }),
    {
        self.sleep_future.set_awake();
    }

    pub fn poll(&mut self, ctx: &mut PollContext, log: &mut Vec<Line>) -> (r: Poll<
        &'static str,
    >)
        requires
            !old(ctx).woken,
            old(ctx).helper is None,
        ensures
            r == block_outcome(*old(self)),
            *final(self) == block_next(*old(self)),
            final(log)@ == old(log)@ + block_lines(*old(self)),
            final(ctx).woken == block_wakes(*old(self)),
            final(ctx).helper == if block_requests_helper(*old(self)) {
                Some(old(self).sleep_future.sleep_millis)
            } else {
                Option::<u64>::None
            },
    {
        match self.state {
            AsyncBlockState::Start => {
                log.push(Line::Text("start"));
                self.state = AsyncBlockState::Sleeping;
                ctx.wake_by_ref();
                proof {
                    assert(log@ =~= old(log)@ + block_lines(*old(self)));
                }
                Poll::Pending
            },
            AsyncBlockState::Sleeping => {
                let inner = self.sleep_future.poll(ctx, log);
                match inner {
                    Poll::Pending => Poll::Pending,
                    Poll::Ready(val) => {
                        log.push(Line::Text(val));
                        self.state = AsyncBlockState::End;
                        ctx.wake_by_ref();
                        proof {
                            assert(log@ =~= old(log)@ + block_lines(*old(self)));
                        }
                        Poll::Pending
                    },
                }
            },
            AsyncBlockState::End => {
                proof {
                    assert(log@ =~= old(log)@ + block_lines(*old(self)));
                }
                Poll::Ready("end")
            },
        }
    }
}

// ---------------------------------------------------------------------------
// Stage: any of the sample futures, behind one polling surface
// ---------------------------------------------------------------------------

/// One stage of a task: any of the sample futures, behind a single polling
/// surface.  This is the runtime's type-erased pollable.
#[derive(Debug)]
pub enum Stage {
    Machine(MyFuture),
    Sleep(SleepFuture),
    Block(AsyncBlockFuture),
    Input(StdinFuture),
}

/// What one poll of the stage returns.
pub open spec fn stage_outcome(s: Stage) -> Poll<&'static str> {
    match s {
        Stage::Machine(f) => machine_outcome(f.state),
        Stage::Sleep(f) => sleep_outcome(f),
        Stage::Block(f) => block_outcome(f),
        Stage::Input(f) => input_outcome(f),
    }
}

/// The stage's state after one poll.
pub open spec fn stage_next(s: Stage) -> Stage {
    match s {
        Stage::Machine(f) => Stage::Machine(MyFuture { state: machine_next(f.state) }),
        Stage::Sleep(f) => Stage::Sleep(sleep_next(f)),
        Stage::Block(f) => Stage::Block(block_next(f)),
        Stage::Input(f) => Stage::Input(f),
    }
}

/// The lines one poll of the stage writes to the log.
pub open spec fn stage_lines(s: Stage) -> Seq<Line> {
    match s {
        Stage::Machine(f) => machine_lines(f.state),
        Stage::Sleep(f) => sleep_lines(f),
        Stage::Block(f) => block_lines(f),
        Stage::Input(f) => input_lines(f),
    }
}

/// Whether one poll of the stage signals its own waker before returning.
pub open spec fn stage_wakes(s: Stage) -> bool {
    match s {
        Stage::Machine(f) => machine_wakes(f.state),
        Stage::Sleep(_) => false,
        Stage::Block(f) => block_wakes(f),
        Stage::Input(_) => false,
    }
}

/// The helper-thread request one poll of the stage makes, if any.
pub open spec fn stage_helper(s: Stage) -> Option<u64> {
    match s {
        Stage::Sleep(f) => if sleep_requests_helper(f) {
            Some(f.sleep_millis)
        } else {
            None
        },
        Stage::Block(f) => if block_requests_helper(f) {
            Some(f.sleep_future.sleep_millis)
        } else {
            None
        },
        _ => None,
    }
}

/// How many more polls the stage needs before it either finishes or parks
/// its task to wait for an outside event.  This bounds the executor's work.
pub open spec fn stage_work(s: Stage) -> nat {
    match s {
        Stage::Machine(f) => match f.state {
            MyState::Start => 3,
            MyState::Middle => 2,
            MyState::End => 1,
        },
        Stage::Sleep(_) => 1,
        Stage::Input(_) => 1,
        Stage::Block(f) => match f.state {
            AsyncBlockState::Start => if f.sleep_future.is_sleep {
                2
            } else {
                3
            },
            AsyncBlockState::Sleeping => if f.sleep_future.is_sleep {
                1
            } else {
                2
            },
            AsyncBlockState::End => 1,
        },
    }
}

/// A stage that will never park: left alone, the executor drives it to
/// `Ready` without waiting for any outside event.
pub open spec fn stage_finite(s: Stage) -> bool {
    match s {
        Stage::Machine(_) => true,
        Stage::Sleep(f) => !f.is_sleep,
        Stage::Input(f) => f.is_ready,
        Stage::Block(f) => f.state is End || !f.sleep_future.is_sleep,
    }
}

impl Stage {
    /// Poll the stage once with a fresh context, as the owning task does.
    pub fn poll(&mut self, ctx: &mut PollContext, log: &mut Vec<Line>) -> (r: Poll<
        &'static str,
    >)
        requires
            !old(ctx).woken,
            old(ctx).helper is None,
        ensures
            r == stage_outcome(*old(self)),
            *final(self) == stage_next(*old(self)),
            final(log)@ == old(log)@ + stage_lines(*old(self)),
            final(ctx).woken == stage_wakes(*old(self)),
            final(ctx).helper == stage_helper(*old(self)),
    {
        match self {
            Stage::Machine(f) => f.poll(ctx, log),
            Stage::Sleep(f) => f.poll(ctx, log),
            Stage::Block(f) => f.poll(ctx, log),
            Stage::Input(f) => f.poll(ctx, log),
        }
    }
}

/// The stage after the sleep helper's report: a sleep future, outer or
/// inside the sequential block, is no longer sleeping.  Other stages are
/// untouched.
pub open spec fn stage_awakened(s: Stage) -> Stage {
    match s {
        Stage::Sleep(f) => Stage::Sleep(
            SleepFuture { is_sleep: false, sleep_millis: f.sleep_millis, spawned: f.spawned },
        ),
        Stage::Block(b) => Stage::Block(
            AsyncBlockFuture {
                state: b.state,
                sleep_future: SleepFuture {
                    is_sleep: false,
                    sleep_millis: b.sleep_future.sleep_millis,
                    spawned: b.sleep_future.spawned,
                },
            },
        ),
        _ => s,
    }
}

/// The stage after a readable line was handed over: an input future holds
/// it and is ready.  Other stages are untouched.
pub open spec fn stage_delivered(s: Stage, line: Vec<u8>) -> Stage {
    match s {
        Stage::Input(_) => Stage::Input((StdinFuture { is_ready: true, line: line })),
        _ => s,
    }
}

impl Stage {
    /// Apply the sleep helper's report to this stage.
    pub fn awaken(&mut self)
        ensures
            *final(self) == stage_awakened(*old(self)),
    {
        match self {
            Stage::Sleep(f) => f.set_awake(),
            Stage::Block(b) => b.set_awake(),
            _ => {},
        }
    }

    /// Hand this stage the readable line, if it awaits input; any other
    /// stage discards it.
    pub fn deliver(&mut self, line: Vec<u8>)
        ensures
            *final(self) == stage_delivered(*old(self), line),
    {
        match self {
            Stage::Input(f) => f.set_input(line),
            _ => {},
        }
    }
}

/// Place a stage on the heap, as tasks store their pollables.
pub fn boxed(fut: Stage) -> (r: Box<Stage>)
    ensures
        *r == fut,
{
    Box::new(fut)
}

} // verus!

use mini_executor::executor::Executor;
use mini_executor::executor::HelperRequest;
use mini_executor::futures::AsyncBlockFuture;
use mini_executor::futures::MyFuture;
use mini_executor::futures::MyState;
use mini_executor::futures::SleepFuture;
use mini_executor::futures::Stage;
use mini_executor::futures::StdinFuture;
use mini_executor::futures::boxed;
use mini_executor::outcome::Line;

#[test]
fn state_machine_full_trace() {
    let mut ex = Executor::new();
    let id = ex.spawn(
        "state machine".to_string(),
        vec![Stage::Machine(MyFuture::new())],
    );
    ex.run_cycle();
    assert_eq!(
        ex.log,
        vec![
            Line::Text("Start"),
            Line::Text("Yielded: Start -> Middle"),
            Line::Text("Middle"),
            Line::Text("Yielded: Middle -> End"),
            Line::Text("End"),
            Line::Text("finished"),
            Line::Completed(id),
        ]
    );
    assert!(ex.queue.is_empty());
    assert!(ex.parked.is_empty());
}

#[test]
fn many_tasks_many_stages_counts() {
    // Three tasks of two self-yielding machines each: exactly N*M
    // "finished" payloads, N*M "End" lines, and N completion markers, in a
    // total order consistent with each task's own order.
    let mut ex = Executor::new();
    let mut ids = Vec::new();
    for i in 0..3u32 {
        let stages = vec![
            Stage::Machine(MyFuture::new()),
            Stage::Machine(MyFuture::new()),
        ];
        ids.push(ex.spawn(format!("machine {}", i), stages));
    }
    ex.run_cycle();
    let finished = ex.log.iter().filter(|l| **l == Line::Text("finished")).count();
    let ends = ex.log.iter().filter(|l| **l == Line::Text("End")).count();
    let completions: Vec<u64> = ex
        .log
        .iter()
        .filter_map(|l| match l {
            Line::Completed(id) => Some(*id),
            _ => None,
        })
        .collect();
    assert_eq!(finished, 6);
    assert_eq!(ends, 6);
    assert_eq!(completions.len(), 3);
    for id in &ids {
        assert!(completions.contains(id));
    }
    // Per-task order: within one task the "Start" of its second stage can
    // only come after the "finished" of its first; with identical stages
    // we check the global shape instead: every completion is preceded by
    // two "finished" payloads of that task's own stages.
    assert!(ex.queue.is_empty() && ex.parked.is_empty());
}

#[test]
fn sleep_task_parks_then_completes() {
    let mut ex = Executor::new();
    let id = ex.spawn(
        "sleeper".to_string(),
        vec![Stage::Sleep(SleepFuture::new(3000))],
    );
    ex.run_cycle();
    // The first poll traces, asks for the helper thread once, and parks.
    assert_eq!(ex.log, vec![Line::Text("...zzz")]);
    let helpers = ex.take_helpers();
    assert_eq!(helpers, vec![HelperRequest { task_id: id, millis: 3000 }]);
    assert_eq!(ex.queue.len(), 0);
    assert_eq!(ex.parked.len(), 1);

    // What the helper thread does when the duration has elapsed.
    let k = ex.find_parked(id).expect("task must be parked");
    ex.sleep_elapsed(k);
    ex.run_cycle();
    assert_eq!(
        ex.log,
        vec![
            Line::Text("...zzz"),
            Line::Text("wake from sleep!"),
            Line::Completed(id),
        ]
    );
    assert!(ex.take_helpers().is_empty());
}

#[test]
fn sequential_block_orders_start_sleep_end() {
    let mut ex = Executor::new();
    let id = ex.spawn(
        "block".to_string(),
        vec![Stage::Block(AsyncBlockFuture::new(6000))],
    );
    ex.run_cycle();
    assert_eq!(ex.log, vec![Line::Text("start"), Line::Text("...zzz")]);
    let helpers = ex.take_helpers();
    assert_eq!(helpers, vec![HelperRequest { task_id: id, millis: 6000 }]);

    let k = ex.find_parked(id).expect("task must be parked");
    ex.sleep_elapsed(k);
    ex.run_cycle();
    assert_eq!(
        ex.log,
        vec![
            Line::Text("start"),
            Line::Text("...zzz"),
            Line::Text("wake from sleep!"),
            Line::Text("end"),
            Line::Completed(id),
        ]
    );
}

#[test]
fn input_future_reports_parsed_value_plus_ten() {
    let mut ex = Executor::new();
    let id = ex.spawn(
        "stdin task".to_string(),
        vec![Stage::Input(StdinFuture::new())],
    );
    ex.run_cycle();
    // Not ready yet: no output, the task is parked with its waker left
    // behind.
    assert!(ex.log.is_empty());
    assert_eq!(ex.parked.len(), 1);

    // The descriptor becomes readable with "7\n".
    let k = ex.find_parked(id).expect("task must be parked");
    ex.input_ready(k, b"7\n".to_vec());
    ex.run_cycle();
    assert_eq!(
        ex.log,
        vec![
            Line::InputResult(17),
            Line::Text("stdin future done"),
            Line::Completed(id),
        ]
    );
}

#[test]
fn two_sleeps_complete_in_elapse_order() {
    let mut ex = Executor::new();
    let id_short = ex.spawn(
        "short sleeper".to_string(),
        vec![Stage::Sleep(SleepFuture::new(2000))],
    );
    let id_long = ex.spawn(
        "long sleeper".to_string(),
        vec![Stage::Sleep(SleepFuture::new(5000))],
    );
    ex.run_cycle();
    assert_eq!(ex.log, vec![Line::Text("...zzz"), Line::Text("...zzz")]);
    assert_eq!(ex.parked.len(), 2);

    // The 2-second duration elapses first.
    let k = ex.find_parked(id_short).unwrap();
    ex.sleep_elapsed(k);
    ex.run_cycle();
    let k = ex.find_parked(id_long).unwrap();
    ex.sleep_elapsed(k);
    ex.run_cycle();

    let completions: Vec<u64> = ex
        .log
        .iter()
        .filter_map(|l| match l {
            Line::Completed(id) => Some(*id),
            _ => None,
        })
        .collect();
    assert_eq!(completions, vec![id_short, id_long]);
}

#[test]
fn machine_and_sleeper_interleave_with_per_task_order() {
    let mut ex = Executor::new();
    let id_m = ex.spawn(
        "state machine".to_string(),
        vec![Stage::Machine(MyFuture::new())],
    );
    let id_s = ex.spawn(
        "sleeper".to_string(),
        vec![Stage::Sleep(SleepFuture::new(3000))],
    );
    ex.run_cycle();
    // FIFO: machine yields to the tail around the sleeper's single poll.
    assert_eq!(
        ex.log,
        vec![
            Line::Text("Start"),
            Line::Text("Yielded: Start -> Middle"),
            Line::Text("...zzz"),
            Line::Text("Middle"),
            Line::Text("Yielded: Middle -> End"),
            Line::Text("End"),
            Line::Text("finished"),
            Line::Completed(id_m),
        ]
    );
    let k = ex.find_parked(id_s).unwrap();
    ex.sleep_elapsed(k);
    ex.run_cycle();
    assert_eq!(ex.log[ex.log.len() - 2], Line::Text("wake from sleep!"));
    assert_eq!(ex.log[ex.log.len() - 1], Line::Completed(id_s));
}

#[test]
fn wake_of_stageless_task_is_absorbed() {
    // A task admitted with no stages: polling it is a no-op and no
    // completion marker is ever logged, as a wake racing a completed task
    // must be absorbed.
    let mut ex = Executor::new();
    ex.spawn("empty".to_string(), Vec::new());
    ex.run_cycle();
    assert!(ex.log.is_empty());
    assert!(ex.queue.is_empty());
    assert!(ex.parked.is_empty());
}

#[test]
fn helper_thread_is_requested_once() {
    // Polling a sleeping future again after a spurious wake traces again
    // but does not request a second helper thread.
    let mut ex = Executor::new();
    let id = ex.spawn(
        "sleeper".to_string(),
        vec![Stage::Sleep(SleepFuture::new(1000))],
    );
    ex.run_cycle();
    assert_eq!(ex.take_helpers().len(), 1);

    // A spurious wake: requeue the parked task without elapsing the sleep.
    // The next poll re-parks it without a new helper request.
    let k = ex.find_parked(id).unwrap();
    let t = ex.parked.remove(k);
    ex.queue.push(t);
    ex.doorbell = true;
    ex.run_cycle();
    assert_eq!(ex.log, vec![Line::Text("...zzz"), Line::Text("...zzz")]);
    assert!(ex.take_helpers().is_empty());
    assert_eq!(ex.parked.len(), 1);

    let k = ex.find_parked(id).unwrap();
    ex.sleep_elapsed(k);
    ex.run_cycle();
    assert_eq!(*ex.log.last().unwrap(), Line::Completed(id));
}

#[test]
fn equal_durations_complete_in_wake_order() {
    // Two sleeps of the same duration: whichever elapse is reported first
    // completes first.
    let mut ex = Executor::new();
    let id_a = ex.spawn(
        "first sleeper".to_string(),
        vec![Stage::Sleep(SleepFuture::new(1000))],
    );
    let id_b = ex.spawn(
        "second sleeper".to_string(),
        vec![Stage::Sleep(SleepFuture::new(1000))],
    );
    ex.run_cycle();
    let k = ex.find_parked(id_b).unwrap();
    ex.sleep_elapsed(k);
    let k = ex.find_parked(id_a).unwrap();
    ex.sleep_elapsed(k);
    ex.run_cycle();
    let completions: Vec<u64> = ex
        .log
        .iter()
        .filter_map(|l| match l {
            Line::Completed(id) => Some(*id),
            _ => None,
        })
        .collect();
    assert_eq!(completions, vec![id_b, id_a]);
}

#[test]
fn boxed_keeps_the_stage() {
    let b = boxed(Stage::Machine(MyFuture::new()));
    match *b {
        Stage::Machine(f) => assert_eq!(f.state, MyState::Start),
        _ => panic!("boxed changed the stage"),
    }
}

use mini_executor::executor::Executor;
use mini_executor::futures::Stage;
use mini_executor::futures::StdinFuture;
use mini_executor::outcome::Line;
use mini_executor::reactor::Reactor;

#[test]
fn register_and_lookup() {
    let mut r = Reactor::new();
    r.register(0, 7);
    r.register(5, 9);
    assert_eq!(r.lookup(7), Some(0));
    assert_eq!(r.lookup(9), Some(5));
    assert_eq!(r.lookup(8), None);
}

#[test]
fn unknown_tokens_are_silently_ignored() {
    let mut r = Reactor::new();
    r.register(0, 7);
    let fired = r.fire_list(&vec![7, 8, 7, 99]);
    assert_eq!(fired, vec![7, 7]);
    let none = r.fire_list(&vec![1, 2, 3]);
    assert!(none.is_empty());
}

#[test]
fn readiness_reaches_the_parked_future() {
    // Register the watched descriptor under a token, make it readable, and
    // let the fired token's callback mark the future ready: the task's
    // next poll observes the readiness and completes.
    let mut r = Reactor::new();
    let mut ex = Executor::new();
    let id = ex.spawn(
        "stdin task".to_string(),
        vec![Stage::Input(StdinFuture::new())],
    );
    r.register(0, 0);
    ex.run_cycle();
    assert_eq!(ex.parked.len(), 1);

    // The multiplexer reports readiness for token 0; the latch flips.
    let fired = r.fire_list(&vec![0]);
    assert_eq!(fired, vec![0]);
    let mut latch = false;
    for _tok in fired {
        latch = true;
        let k = ex.find_parked(id).expect("task must be parked");
        ex.input_ready(k, b"7\n".to_vec());
    }
    assert!(latch);
    ex.run_cycle();
    assert_eq!(*ex.log.last().unwrap(), Line::Completed(id));
    assert!(ex.log.contains(&Line::InputResult(17)));
}

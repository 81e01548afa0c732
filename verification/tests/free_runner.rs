use std::cell::RefCell;
use std::rc::Rc;

use rootmos_bot::free_runner::{
    effect, event, noop, return_, Effect, Event, HeartbeatsError, RunOutcome, Runner, SendError,
    Step, TickOutcome,
};

#[derive(Debug)]
enum TestEvent {
    Foo(u32),
}

enum TestEffect {
    Increment(u32),
}

#[test]
fn complete_an_event_into_effect_into_event_loop_test() {
    let f = |e: Event<TestEvent>| match e {
        Event::Event { time: _, event: TestEvent::Foo(7) } => effect(TestEffect::Increment(7)),
        Event::Event { time: _, event: TestEvent::Foo(8) } => return_(13),
        _ => noop(),
    };
    let g = |eff: TestEffect| match eff {
        TestEffect::Increment(i) => event(TestEvent::Foo(i + 1)),
    };
    let mut runner = Runner::new(f, g);
    runner.send(TestEvent::Foo(7)).unwrap();
    assert_eq!(runner.join(100), RunOutcome::Completed(13));
}

#[test]
fn receive_heartbeat_test() {
    let f = |e: Event<()>| match e {
        Event::Heartbeat { time: _ } => return_(true),
        _ => noop(),
    };
    let g = |_: ()| noop::<()>();
    let mut runner = Runner::new(f, g);
    runner.heartbeats(100).unwrap();
    assert_eq!(runner.join(100), RunOutcome::Completed(true));
}

#[test]
fn handler_observes_sends_in_order() {
    let observed: Rc<RefCell<Vec<u32>>> = Rc::new(RefCell::new(Vec::new()));
    let log = observed.clone();
    let f = move |e: Event<u32>| match e {
        Event::Event { time: _, event: n } => {
            log.borrow_mut().push(n);
            if n == 3 {
                return_(())
            } else {
                noop()
            }
        },
        _ => noop(),
    };
    let g = |_: ()| noop::<u32>();
    let mut runner = Runner::new(f, g);
    runner.send(1).unwrap();
    runner.send(2).unwrap();
    runner.send(3).unwrap();
    assert_eq!(runner.join(100), RunOutcome::Completed(()));
    assert_eq!(*observed.borrow(), vec![1, 2, 3]);
}

#[test]
fn send_after_completion_fails_and_generator_exits() {
    let f = |e: Event<u32>| match e {
        Event::Event { time: _, event: _ } => return_(0),
        _ => noop(),
    };
    let g = |_: ()| noop::<u32>();
    let mut runner = Runner::new(f, g);
    runner.heartbeats(50).unwrap();
    runner.send(1).unwrap();
    runner.step();
    // the failed send hands the unsent envelope back
    match runner.send(2) {
        Err(SendError(Event::Event { time: _, event })) => assert_eq!(event, 2),
        _ => panic!(),
    }
    assert_eq!(runner.heartbeat_tick(), TickOutcome::GeneratorExit);
}

#[test]
fn heartbeats_twice_is_rejected() {
    let f = |_: Event<u32>| noop::<Effect<(), u32>>();
    let g = |_: ()| noop::<u32>();
    let mut runner = Runner::new(f, g);
    assert_eq!(runner.heartbeats(100), Ok(()));
    assert_eq!(runner.heartbeats(200), Err(HeartbeatsError::AlreadyEnabled));
    // the first generator's tick still feeds the queue: nothing was replaced
    assert_eq!(runner.heartbeat_tick(), TickOutcome::Sent);
}

#[test]
fn join_reports_blocked_without_events_or_heartbeats() {
    let f = |_: Event<u32>| noop::<Effect<(), bool>>();
    let g = |_: ()| noop::<u32>();
    let runner = Runner::new(f, g);
    assert_eq!(runner.join(100), RunOutcome::Blocked);
}

#[test]
fn join_runs_out_of_fuel_when_nothing_terminates() {
    let f = |_: Event<u32>| noop::<Effect<(), bool>>();
    let g = |_: ()| noop::<u32>();
    let mut runner = Runner::new(f, g);
    runner.heartbeats(10).unwrap();
    assert_eq!(runner.join(25), RunOutcome::OutOfFuel);
}

#[test]
fn worker_step_follows_the_handler_verdict() {
    let f = |e: Event<u32>| match e {
        Event::Event { time: _, event: 1 } => effect(10u32),
        Event::Event { time: _, event: 2 } => return_(true),
        _ => noop(),
    };
    let g = |eff: u32| if eff == 10 { event(5u32) } else { noop() };
    let s = rootmos_bot::free_runner::worker_step(&f, &g, Event::Event { time: 0, event: 1 }, 42);
    match s {
        Step::Feedback(Event::Event { time, event }) => {
            assert_eq!(time, 42);
            assert_eq!(event, 5);
        },
        _ => panic!(),
    }
    let s2 = rootmos_bot::free_runner::worker_step(&f, &g, Event::Event { time: 1, event: 2 }, 43);
    assert!(matches!(s2, Step::Stop(true)));
    let s3 = rootmos_bot::free_runner::worker_step(&f, &g, Event::Event { time: 2, event: 9 }, 44);
    assert!(matches!(s3, Step::Continue));
}

#[test]
fn feedback_joins_the_queue_behind_pending_events() {
    let observed: Rc<RefCell<Vec<u32>>> = Rc::new(RefCell::new(Vec::new()));
    let log = observed.clone();
    let f = move |e: Event<u32>| match e {
        Event::Event { time: _, event: n } => {
            log.borrow_mut().push(n);
            if n == 1 {
                effect(())
            } else if n == 99 {
                return_(())
            } else {
                noop()
            }
        },
        _ => noop(),
    };
    let g = |_: ()| event(99u32);
    let mut runner = Runner::new(f, g);
    runner.send(1).unwrap();
    runner.send(2).unwrap();
    assert_eq!(runner.join(100), RunOutcome::Completed(()));
    // the follow-up event re-enters the same queue, behind the pending send
    assert_eq!(*observed.borrow(), vec![1, 2, 99]);
}

#[test]
fn verdict_helpers_build_the_expected_values() {
    assert!(matches!(effect::<u32, bool>(7), Some(Effect::Effect(7))));
    assert!(matches!(return_::<u32, bool>(true), Some(Effect::Return(true))));
    assert!(noop::<u32>().is_none());
    assert_eq!(event(9u32), Some(9u32));
}

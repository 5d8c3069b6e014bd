use boppo_core::update_loop::keep_continuing;
use boppo_core::update_loop::{frame_delay_millis, frame_wait_nanos};
use boppo_core::update_loop::{DoNothingFor, InParallel, InSeries, LoopControlFlow, Updatable};
use std::time::Duration;

struct Countdown(u32);

impl Updatable for Countdown {
    fn update(&mut self, _delta_time: Duration) -> LoopControlFlow {
        if self.0 <= 1 {
            LoopControlFlow::Break
        } else {
            self.0 -= 1;
            LoopControlFlow::Continue
        }
    }
}

#[test]
fn in_series_runs_one_after_the_other() {
    let mut series = InSeries::new(vec![
        Box::new(Countdown(2)) as Box<dyn Updatable>,
        Box::new(Countdown(1)),
    ]);
    let dt = Duration::from_millis(10);
    assert_eq!(series.update(dt), LoopControlFlow::Continue);
    assert_eq!(series.update(dt), LoopControlFlow::Continue);
    assert_eq!(series.update(dt), LoopControlFlow::Continue);
    assert_eq!(series.update(dt), LoopControlFlow::Break);
}

#[test]
fn in_parallel_runs_until_all_break() {
    let mut parallel = InParallel::new(vec![
        Box::new(Countdown(1)) as Box<dyn Updatable>,
        Box::new(Countdown(3)),
    ]);
    let dt = Duration::from_millis(10);
    assert_eq!(parallel.update(dt), LoopControlFlow::Continue);
    assert_eq!(parallel.update(dt), LoopControlFlow::Continue);
    assert_eq!(parallel.update(dt), LoopControlFlow::Break);
}

#[test]
fn do_nothing_for_waits() {
    let mut wait = DoNothingFor::new(Duration::from_millis(25));
    let dt = Duration::from_millis(10);
    assert_eq!(wait.update(dt), LoopControlFlow::Continue);
    assert_eq!(wait.update(dt), LoopControlFlow::Continue);
    assert_eq!(wait.update(dt), LoopControlFlow::Break);
}

#[test]
fn do_nothing_for_counts_nanoseconds() {
    let wait = DoNothingFor::new(Duration::new(2, 5));
    assert_eq!(wait.remaining_nanos(), 2_000_000_005);

    let mut wait = DoNothingFor::from_nanos(100);
    assert_eq!(wait.advance(40), LoopControlFlow::Continue);
    assert_eq!(wait.remaining_nanos(), 60);
    assert_eq!(wait.advance(60), LoopControlFlow::Break);
    assert_eq!(wait.remaining_nanos(), 0);
    assert_eq!(wait.advance(5), LoopControlFlow::Break);
    assert_eq!(wait.remaining_nanos(), 0);

    let mut wait = DoNothingFor::from_nanos(10);
    assert_eq!(wait.update(Duration::from_secs(1)), LoopControlFlow::Break);
    assert_eq!(wait.remaining_nanos(), 0);
}

#[test]
fn do_nothing_for_zero_breaks_at_once() {
    let mut wait = DoNothingFor::new(Duration::ZERO);
    assert_eq!(wait.update(Duration::ZERO), LoopControlFlow::Break);
}

#[test]
fn frame_timing() {
    assert_eq!(frame_delay_millis(30), 33);
    assert_eq!(frame_delay_millis(1000), 1);
    assert_eq!(frame_delay_millis(3000), 0);
    assert_eq!(frame_delay_millis(0), u64::MAX);
    assert_eq!(frame_wait_nanos(33_000_000, 10_000_000), 23_000_000);
    assert_eq!(frame_wait_nanos(33_000_000, 33_000_000), 0);
    assert_eq!(frame_wait_nanos(33_000_000, 40_000_000), 0);
}

#[test]
fn settle_keeps_or_drops_the_running_updatable() {
    let mut series = InSeries::new(vec![Countdown(5), Countdown(7)]);
    assert_eq!(series.settle(Countdown(3), LoopControlFlow::Break), LoopControlFlow::Continue);
    // Two pending: the one dropped did not come back.
    let dt = Duration::from_millis(1);
    assert_eq!(series.settle(Countdown(1), LoopControlFlow::Continue), LoopControlFlow::Continue);
    // The settled Countdown(1) now runs first and breaks at once.
    assert_eq!(series.update(dt), LoopControlFlow::Continue);
    for _ in 0..5 {
        assert_eq!(series.update(dt), LoopControlFlow::Continue);
    }
    for _ in 0..7 {
        assert_eq!(series.update(dt), LoopControlFlow::Continue);
    }
    assert_eq!(series.update(dt), LoopControlFlow::Break);
}

#[test]
fn keep_continuing_keeps_order() {
    assert_eq!(
        keep_continuing(vec![1, 2, 3, 4, 5], vec![
            LoopControlFlow::Continue,
            LoopControlFlow::Break,
            LoopControlFlow::Continue,
            LoopControlFlow::Break,
            LoopControlFlow::Continue,
        ]),
        vec![1, 3, 5]
    );
    assert_eq!(keep_continuing(vec![7, 8], vec![LoopControlFlow::Break, LoopControlFlow::Break]), Vec::<i32>::new());
    assert_eq!(keep_continuing(Vec::<i32>::new(), vec![]), Vec::<i32>::new());
}

#[test]
fn in_parallel_drops_only_those_that_break() {
    let mut parallel = InParallel::new(vec![Countdown(2), Countdown(1), Countdown(3)]);
    let dt = Duration::from_millis(10);
    assert_eq!(parallel.update(dt), LoopControlFlow::Continue);
    assert_eq!(parallel.update(dt), LoopControlFlow::Continue);
    assert_eq!(parallel.update(dt), LoopControlFlow::Break);
}

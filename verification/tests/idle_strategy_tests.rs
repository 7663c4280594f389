use agrona::idle_strategy::{
    BackoffIdleStrategy, BusySpinIdleStrategy, ControllableIdleStrategy, IdleAction, IdleStrategy,
    SleepingIdleStrategy, PARKING, RUNNING, SPINNING, YIELDING,
};
use std::time::{Duration, Instant};

fn perform(action: IdleAction) {
    match action {
        IdleAction::Proceed => {}
        IdleAction::Spin | IdleAction::Yield | IdleAction::Park => std::hint::spin_loop(),
        IdleAction::Sleep { nanos } => {
            let start = Instant::now();
            while start.elapsed() < Duration::from_nanos(nanos) {
                std::hint::spin_loop();
            }
        }
    }
}

#[test]
fn test_busy_spin_strategy() {
    let mut strategy = BusySpinIdleStrategy::new();

    let start = Instant::now();
    for _ in 0..1000 {
        perform(strategy.idle(0));
    }
    let elapsed = start.elapsed();

    assert!(elapsed < Duration::from_millis(10));
}

#[test]
fn test_backoff_strategy() {
    let mut strategy = BackoffIdleStrategy::default();

    perform(strategy.idle(0));
    perform(strategy.idle(0));
}

#[test]
fn test_sleeping_strategy() {
    let mut strategy = SleepingIdleStrategy::new(Duration::from_nanos(1).as_nanos() as u64);

    let start = Instant::now();
    perform(strategy.idle(0));
    let elapsed = start.elapsed();

    assert!(elapsed >= Duration::from_nanos(1));
}

#[test]
fn test_controllable_strategy() {
    let mut strategy = ControllableIdleStrategy::new();

    perform(strategy.idle(1));

    strategy.park();

    strategy.unpark();
    perform(strategy.idle(1));
}

#[test]
fn busy_spin_always_spins() {
    let mut strategy = BusySpinIdleStrategy::default();
    assert_eq!(strategy.idle(0), IdleAction::Spin);
    assert_eq!(strategy.idle(5), IdleAction::Spin);
    strategy.reset();
    assert_eq!(strategy.idle(0), IdleAction::Spin);
}

#[test]
fn sleeping_sleeps_on_idle_ticks_only() {
    let mut strategy = SleepingIdleStrategy::new(250);
    assert_eq!(strategy.idle(0), IdleAction::Sleep { nanos: 250 });
    assert_eq!(strategy.idle(1), IdleAction::Proceed);
    strategy.reset();
    assert_eq!(strategy.idle(0), IdleAction::Sleep { nanos: 250 });
    assert_eq!(SleepingIdleStrategy::default().idle(0), IdleAction::Sleep { nanos: 1_000_000 });
}

#[test]
fn backoff_goes_through_its_phases() {
    let mut strategy = BackoffIdleStrategy::new(2, 3, 100, 350);
    assert_eq!(strategy.idle(0), IdleAction::Spin);
    assert_eq!(strategy.idle(0), IdleAction::Spin);
    assert_eq!(strategy.idle(0), IdleAction::Yield);
    assert_eq!(strategy.idle(0), IdleAction::Yield);
    assert_eq!(strategy.idle(0), IdleAction::Yield);
    assert_eq!(strategy.idle(0), IdleAction::Sleep { nanos: 100 });
    assert_eq!(strategy.idle(0), IdleAction::Sleep { nanos: 200 });
    assert_eq!(strategy.idle(0), IdleAction::Sleep { nanos: 350 });
    assert_eq!(strategy.idle(0), IdleAction::Sleep { nanos: 350 });
}

#[test]
fn backoff_starts_over_after_work() {
    let mut strategy = BackoffIdleStrategy::new(1, 1, 10, 1000);
    for _ in 0..5 {
        strategy.idle(0);
    }
    assert_eq!(strategy.idle(0), IdleAction::Sleep { nanos: 80 });
    assert_eq!(strategy.idle(3), IdleAction::Proceed);
    assert_eq!(strategy.idle(0), IdleAction::Spin);
    assert_eq!(strategy.idle(0), IdleAction::Yield);
    assert_eq!(strategy.idle(0), IdleAction::Sleep { nanos: 10 });
    strategy.reset();
    assert_eq!(strategy.idle(0), IdleAction::Spin);
}

#[test]
fn backoff_default_settings() {
    let mut strategy = BackoffIdleStrategy::default();
    for _ in 0..10 {
        assert_eq!(strategy.idle(0), IdleAction::Spin);
    }
    for _ in 0..5 {
        assert_eq!(strategy.idle(0), IdleAction::Yield);
    }
    let mut nanos = 1;
    for _ in 0..30 {
        assert_eq!(strategy.idle(0), IdleAction::Sleep { nanos });
        nanos = (nanos * 2).min(1_000_000);
    }
    assert_eq!(strategy.idle(0), IdleAction::Sleep { nanos: 1_000_000 });
}

#[test]
fn backoff_sleep_does_not_overflow() {
    let mut strategy = BackoffIdleStrategy::new(0, 0, u64::MAX - 1, u64::MAX);
    assert_eq!(strategy.idle(0), IdleAction::Sleep { nanos: u64::MAX - 1 });
    assert_eq!(strategy.idle(0), IdleAction::Sleep { nanos: u64::MAX });
    assert_eq!(strategy.idle(0), IdleAction::Sleep { nanos: u64::MAX });
    let mut never_longer = BackoffIdleStrategy::new(0, 0, 50, 10);
    assert_eq!(never_longer.idle(0), IdleAction::Sleep { nanos: 50 });
    assert_eq!(never_longer.idle(0), IdleAction::Sleep { nanos: 10 });
}

#[test]
fn controllable_follows_its_status() {
    let mut strategy = ControllableIdleStrategy::default();
    assert_eq!(strategy.idle(0), IdleAction::Spin);
    strategy.park();
    assert_eq!(strategy.idle(0), IdleAction::Park);
    assert_eq!(strategy.idle(1), IdleAction::Park);
    strategy.unpark();
    assert_eq!(strategy.idle(0), IdleAction::Spin);
}

#[test]
fn controllable_decides_by_the_status_that_was_read() {
    let mut strategy = ControllableIdleStrategy::new();
    assert_eq!(strategy.idle_in(RUNNING, 0), IdleAction::Spin);
    assert_eq!(strategy.idle_in(PARKING, 0), IdleAction::Park);
    for _ in 0..10 {
        assert_eq!(strategy.idle_in(SPINNING, 0), IdleAction::Spin);
    }
    for _ in 0..5 {
        assert_eq!(strategy.idle_in(YIELDING, 0), IdleAction::Yield);
    }
    assert_eq!(strategy.idle_in(7, 0), IdleAction::Sleep { nanos: 1 });
    assert_eq!(strategy.idle_in(7, 0), IdleAction::Sleep { nanos: 2 });
    assert_eq!(strategy.idle_in(PARKING, 0), IdleAction::Park);
    assert_eq!(strategy.idle_in(7, 0), IdleAction::Sleep { nanos: 4 });
    assert_eq!(strategy.idle_in(7, 2), IdleAction::Proceed);
    assert_eq!(strategy.idle_in(7, 0), IdleAction::Spin);
    strategy.reset();
    assert_eq!(strategy.idle_in(7, 0), IdleAction::Spin);
}

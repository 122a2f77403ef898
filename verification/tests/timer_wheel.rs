use snowfallio::error::OpError;
use snowfallio::timer::{sleep_deadline, TimeDriver, TimerWheel};

#[test]
fn fire_order_is_non_decreasing() {
    let mut w = TimerWheel::new();
    let k_late = w.register(5000, 1).unwrap();
    let k_mid = w.register(40, 2).unwrap();
    let k_early = w.register(3, 3).unwrap();

    let fired = w.advance(10_000);
    assert_eq!(fired.len(), 3);
    assert_eq!(fired[0].key, k_early);
    assert_eq!(fired[1].key, k_mid);
    assert_eq!(fired[2].key, k_late);
    for pair in fired.windows(2) {
        assert!(pair[0].when <= pair[1].when);
    }
    assert_eq!(w.elapsed, 10_000);
}

#[test]
fn ties_keep_insertion_order() {
    let mut w = TimerWheel::new();
    let a = w.register(100, 10).unwrap();
    let b = w.register(100, 20).unwrap();
    let fired = w.advance(100);
    assert_eq!(fired.len(), 2);
    assert_eq!(fired[0].key, a);
    assert_eq!(fired[1].key, b);
    assert_eq!(fired[0].when, 100);
    assert_eq!(fired[1].when, 100);
}

#[test]
fn nothing_fires_early() {
    let mut w = TimerWheel::new();
    w.register(1000, 1).unwrap();
    let fired = w.advance(950);
    assert!(fired.is_empty());
    let fired = w.advance(1000);
    assert_eq!(fired.len(), 1);
    assert_eq!(fired[0].when, 1000);
    assert_eq!(fired[0].waker, 1);
}

#[test]
fn cascade_across_levels() {
    let mut w = TimerWheel::new();
    // One timer per level span.
    w.register(1, 0).unwrap();
    w.register(65, 1).unwrap();
    w.register(4097, 2).unwrap();
    w.register(262_145, 3).unwrap();
    w.register(16_777_217, 4).unwrap();
    w.register(1_073_741_825, 5).unwrap();
    let fired = w.advance(2_000_000_000);
    assert_eq!(fired.len(), 6);
    let whens: Vec<u64> = fired.iter().map(|e| e.when).collect();
    assert_eq!(whens, vec![1, 65, 4097, 262_145, 16_777_217, 1_073_741_825]);
    let wakers: Vec<u64> = fired.iter().map(|e| e.waker).collect();
    assert_eq!(wakers, vec![0, 1, 2, 3, 4, 5]);
}

#[test]
fn past_deadline_fires_at_once() {
    let mut w = TimerWheel::new();
    w.advance(500);
    // A deadline already behind the cursor is clamped to it.
    w.register(100, 9).unwrap();
    let fired = w.advance(500);
    assert_eq!(fired.len(), 1);
    assert_eq!(fired[0].when, 500);
}

#[test]
fn cancel_removes_the_timer() {
    let mut w = TimerWheel::new();
    let k = w.register(300, 1).unwrap();
    w.register(400, 2).unwrap();
    w.cancel(k);
    let fired = w.advance(1000);
    assert_eq!(fired.len(), 1);
    assert_eq!(fired[0].waker, 2);
}

#[test]
fn park_duration_never_oversleeps() {
    let mut w = TimerWheel::new();
    assert_eq!(w.park_duration(5000), 5000);
    w.register(1000, 1).unwrap();
    // The 1 s timer sits in a level-one bucket that cascades at 960: the
    // park wakes there, re-buckets, and the next park ends at the expiry.
    assert_eq!(w.park_duration(5000), 960);
    assert_eq!(w.park_duration(200), 200);
    let fired = w.advance(960);
    assert!(fired.is_empty());
    assert_eq!(w.park_duration(5000), 40);
    let fired = w.advance(1000);
    assert_eq!(fired.len(), 1);
    assert_eq!(fired[0].when, 1000);
    assert_eq!(w.park_duration(5000), 5000);
}

#[test]
fn register_reports_key_exhaustion() {
    let mut w = TimerWheel::new();
    w.next_key = u64::MAX;
    assert_eq!(w.register(10, 1), Err(OpError::ResourceExhausted));
}

struct NullDriver {
    parked_for: Option<u64>,
}

impl snowfallio::driver::Driver for NullDriver {
    fn submit(&mut self) -> Result<(), i32> {
        Ok(())
    }

    fn park(&mut self) -> Result<(), i32> {
        self.parked_for = None;
        Ok(())
    }

    fn park_timeout(&mut self, ms: u64) -> Result<(), i32> {
        self.parked_for = Some(ms);
        Ok(())
    }
}

#[test]
fn time_driver_bounds_the_park() {
    let mut d = TimeDriver::new(NullDriver { parked_for: None });
    d.wheel.register(1000, 1).unwrap();
    // The park is bounded by the wheel's next event (the cascade at 960),
    // so the 1 s timer cannot be overslept.
    d.park_timeout(60_000).unwrap();
    assert_eq!(d.inner.parked_for, Some(960));
    d.park().unwrap();
    assert_eq!(d.inner.parked_for, Some(960));
    let fired = d.wheel.advance(1000);
    assert_eq!(fired.len(), 1);
    d.park_timeout(60_000).unwrap();
    assert_eq!(d.inner.parked_for, Some(60_000));
}

#[test]
fn sleep_deadline_saturates() {
    assert_eq!(sleep_deadline(500, 1000), 1500);
    assert_eq!(sleep_deadline(u64::MAX - 3, 10), u64::MAX);
    // A one-second sleep on a timer-enabled wheel fires exactly at its
    // deadline.
    let mut w = TimerWheel::new();
    w.advance(250);
    let deadline = sleep_deadline(250, 1000);
    w.register(deadline, 1).unwrap();
    assert!(w.advance(1249).is_empty());
    let fired = w.advance(1250);
    assert_eq!(fired.len(), 1);
    assert_eq!(fired[0].when, 1250);
}

#[test]
fn ties_keep_registration_order_across_levels() {
    // Two timers with the same expiry, registered at different cursor
    // positions so they start in different buckets; the earlier
    // registration (smaller key) still fires first.
    let mut w = TimerWheel::new();
    let first = w.register(100, 1).unwrap();
    w.advance(64);
    let second = w.register(100, 2).unwrap();
    assert!(first < second);
    let fired = w.advance(100);
    assert_eq!(fired.len(), 2);
    assert_eq!(fired[0].key, first);
    assert_eq!(fired[1].key, second);
}

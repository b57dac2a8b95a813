use marquee::animation::Animation;
use marquee::tick::Tick;

#[test]
fn tick_starts_at_zero() {
    let t = Tick::new(50);
    assert_eq!(t.elapsed(), 0);
}

#[test]
fn tick_len_is_milliseconds_per_tick() {
    let t = Tick::new(50);
    assert_eq!(t.len(), 20);
    let t2 = Tick::new(1000);
    assert_eq!(t2.len(), 1);
}

#[test]
fn tock_advances_by_one() {
    let mut t = Tick::new(10);
    t.tock();
    assert_eq!(t.elapsed(), 1);
    t.tock();
    assert_eq!(t.elapsed(), 2);
}

#[test]
fn clock_wraparound_period_minus_one_then_zero() {
    // advancing period - 1 times yields period - 1; one more returns to 0
    let period: u16 = 7;
    let mut t = Tick::new(period);
    for _ in 0..(period - 1) {
        t.tock();
    }
    assert_eq!(t.elapsed(), period - 1);
    t.tock();
    assert_eq!(t.elapsed(), 0);
}

#[test]
fn clock_wraparound_full_period_twice() {
    let period: u16 = 12;
    let mut t = Tick::new(period);
    for _ in 0..period {
        t.tock();
    }
    assert_eq!(t.elapsed(), 0);
    for _ in 0..period {
        t.tock();
    }
    assert_eq!(t.elapsed(), 0);
}

#[test]
fn tick_with_period_one_stays_at_zero() {
    let mut t = Tick::new(1);
    t.tock();
    assert_eq!(t.elapsed(), 0);
    t.tock();
    assert_eq!(t.elapsed(), 0);
}

#[test]
fn animation_counts_frames_and_wraps() {
    let mut a = Animation::new(3);
    assert_eq!(a.frames_displayed(), 0);
    a.next();
    assert_eq!(a.frames_displayed(), 1);
    a.next();
    assert_eq!(a.frames_displayed(), 2);
    a.next();
    assert_eq!(a.frames_displayed(), 0);
}

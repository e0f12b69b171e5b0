use dwt_systick_monotonic::time_base::{ExtendedCounter, COUNTER_PERIOD};

#[test]
fn starts_at_epoch() {
    let c = ExtendedCounter::new();
    assert_eq!(c.last(), 0);
}

#[test]
fn timestamps_are_nondecreasing_across_wraps() {
    let mut c = ExtendedCounter::new();
    let readings: [u32; 8] = [0, 10, 0x8000_0000, 0xffff_fff0, 3, 3, 0x9000_0000, 1];
    let mut prev = c.last();
    for &raw in readings.iter() {
        let t = c.update(raw);
        assert!(t >= prev);
        assert_eq!(c.last(), t);
        assert_eq!(t as u32, raw);
        prev = t;
    }
    assert_eq!(prev, 2 * COUNTER_PERIOD + 1);
}

#[test]
fn single_wrap_advances_by_elapsed_ticks() {
    let mut c = ExtendedCounter::starting_at(0xffff_ff00);
    let t = c.update(0x10);
    assert_eq!(t, 0x1_0000_0010);
    assert_eq!(t - 0xffff_ff00, (COUNTER_PERIOD - 0xffff_ff00) + 0x10);
}

#[test]
fn no_wrap_keeps_high_half() {
    let mut c = ExtendedCounter::starting_at(0x5_0000_0100);
    assert_eq!(c.update(0x200), 0x5_0000_0200);
    assert_eq!(c.update(0x200), 0x5_0000_0200);
}

#[test]
fn missed_overflow_is_detectably_wrong() {
    let last: u64 = 100;
    let elapsed: u64 = COUNTER_PERIOD + 50;
    let mut c = ExtendedCounter::starting_at(last);
    let raw = ((last + elapsed) % COUNTER_PERIOD) as u32;
    let t = c.update(raw);
    assert_eq!(t, 150);
    assert_ne!(t, last + elapsed);
    assert!(t < last + COUNTER_PERIOD);
}

#[test]
fn high_half_wraps_without_panicking() {
    let mut c = ExtendedCounter::starting_at(0xffff_ffff_0000_0010);
    assert_eq!(c.update(5), 5);
}

use dprint_plugin_tex_fmt::{unix_epoch, Duration, Instant, SystemTime, TickCounter};

#[test]
fn duration_parts() {
    let d = Duration::from_nanos(3_000_000_007);
    assert_eq!(d.as_nanos(), 3_000_000_007);
    assert_eq!(d.as_secs(), 3);
    assert_eq!(d.subsec_nanos(), 7);
    let e = Duration::new(2, 1_500_000_000);
    assert_eq!(e.as_secs(), 3);
    assert_eq!(e.subsec_nanos(), 500_000_000);
    assert_eq!(e.as_nanos(), 3_500_000_000);
    let big = Duration::new(u64::MAX, 999_999_999);
    assert_eq!(big.as_nanos(), u64::MAX as u128 * 1_000_000_000 + 999_999_999);
    assert_eq!(Duration::from_nanos(0), Duration::new(0, 0));
}

#[test]
fn now_counts_ticks() {
    let mut counter = TickCounter::new();
    assert_eq!(counter.current(), 0);
    let a = Instant::now(&mut counter);
    let b = Instant::now(&mut counter);
    assert!(a < b);
    assert_eq!(counter.current(), 2);
    assert_eq!(b.duration_since(a), Duration::from_nanos(1));
    assert_eq!(a.elapsed(&counter), Duration::from_nanos(2));
    assert_eq!(counter.current(), 2);
}

#[test]
fn counter_wraps_around() {
    let mut counter = TickCounter::new();
    let start = Instant::now(&mut counter);
    let last = start.checked_add(Duration::from_nanos(u64::MAX)).unwrap();
    assert!(last.checked_add(Duration::from_nanos(1)).is_none());
    let mut t = 0u64;
    while t < 3 {
        counter.take_tick();
        t += 1;
    }
    assert_eq!(counter.current(), 4);
}

#[test]
fn duration_since_saturates() {
    let mut counter = TickCounter::new();
    let a = Instant::now(&mut counter);
    let b = Instant::now(&mut counter);
    assert_eq!(a.duration_since(b), Duration::from_nanos(0));
    assert_eq!(a.saturating_duration_since(b), Duration::from_nanos(0));
    assert_eq!(a.checked_duration_since(b), None);
    assert_eq!(b.checked_duration_since(a), Some(Duration::from_nanos(1)));
    assert_eq!(b - a, Duration::from_nanos(1));
    assert_eq!(a - b, Duration::from_nanos(0));
}

#[test]
fn elapsed_of_future_instant_is_zero() {
    let mut counter = TickCounter::new();
    let a = Instant::now(&mut counter);
    let later = a.checked_add(Duration::from_nanos(10)).unwrap();
    assert_eq!(later.elapsed(&counter), Duration::from_nanos(0));
}

#[test]
fn instant_add_then_sub_round_trip() {
    let mut counter = TickCounter::new();
    let a = Instant::now(&mut counter);
    let d = Duration::from_nanos(12345);
    let b = a.checked_add(d).unwrap();
    assert_eq!(b.checked_sub(d), Some(a));
    assert_eq!(b.duration_since(a), d);
    assert_eq!(a + d, b);
    assert_eq!(b - d, a);
    assert_eq!(a.checked_sub(Duration::from_nanos(1)), None);
    assert_eq!(a.checked_add(Duration::new(u64::MAX, 0)), None);
}

#[test]
fn system_time_measures_both_ways() {
    let epoch = unix_epoch();
    let later = epoch.checked_add(Duration::from_nanos(500)).unwrap();
    assert_eq!(later.duration_since(epoch).unwrap(), Duration::from_nanos(500));
    let err = epoch.duration_since(later).unwrap_err();
    assert_eq!(err.duration(), Duration::from_nanos(500));
    assert_eq!(err.message(), "second time provided was later than self");
    assert_eq!(later.duration_since(later).unwrap(), Duration::from_nanos(0));
}

#[test]
fn system_time_now_and_elapsed() {
    let mut counter = TickCounter::new();
    let start = SystemTime::now(&counter);
    assert_eq!(start, unix_epoch());
    Instant::now(&mut counter);
    Instant::now(&mut counter);
    Instant::now(&mut counter);
    assert_eq!(start.elapsed(&counter).unwrap(), Duration::from_nanos(3));
    let future = start.checked_add(Duration::from_nanos(5)).unwrap();
    assert_eq!(future.elapsed(&counter).unwrap_err().duration(), Duration::from_nanos(2));
}

#[test]
fn system_time_arithmetic() {
    let epoch = unix_epoch();
    let d = Duration::from_nanos(42);
    let t = epoch + d;
    assert_eq!(t - d, epoch);
    assert_eq!(t.checked_sub(d), Some(epoch));
    assert_eq!(epoch.checked_sub(d), None);
    let last = epoch.checked_add(Duration::from_nanos(u64::MAX)).unwrap();
    assert_eq!(last.checked_add(Duration::from_nanos(1)), None);
}

#[test]
fn duration_addition() {
    let a = Duration::new(1, 600_000_000);
    let b = Duration::new(2, 500_000_000);
    assert_eq!(a.checked_add(b), Some(Duration::new(4, 100_000_000)));
    assert_eq!(a + b, Duration::new(4, 100_000_000));
    assert_eq!(Duration::new(u64::MAX, 999_999_999).checked_add(Duration::from_nanos(1)), None);
    assert_eq!(Duration::new(u64::MAX, 0).checked_add(Duration::new(1, 0)), None);
    assert_eq!(
        Duration::new(u64::MAX, 0).checked_add(Duration::from_nanos(999_999_999)),
        Some(Duration::new(u64::MAX, 999_999_999))
    );
}

#[test]
fn system_time_addition_is_associative() {
    let t = unix_epoch() + Duration::from_nanos(7);
    let a = Duration::from_nanos(1_500_000_000);
    let b = Duration::from_nanos(700_000_000);
    assert_eq!((t + a) + b, t + (a + b));
    assert_eq!(t + a, t.checked_add(a).unwrap());
}

#[test]
fn measuring_then_adding_back() {
    let earlier = unix_epoch() + Duration::from_nanos(10);
    let later = unix_epoch() + Duration::from_nanos(25);
    let d = later.duration_since(earlier).unwrap();
    assert_eq!(earlier + d, later);
    let e = earlier.duration_since(later).unwrap_err();
    assert_eq!(earlier + e.duration(), later);
    let mut counter = TickCounter::new();
    let i = Instant::now(&mut counter);
    let j = i + Duration::from_nanos(40);
    let b = j.checked_sub(Duration::from_nanos(15)).unwrap();
    assert_eq!(b.checked_add(Duration::from_nanos(15)), Some(j));
    assert_eq!(j.checked_duration_since(b), Some(Duration::from_nanos(15)));
    let s = j.checked_duration_since(i).unwrap();
    assert_eq!(i.checked_add(s), Some(j));
}

#[test]
fn duration_from_secs_and_millis() {
    assert_eq!(Duration::from_secs(3).as_nanos(), 3_000_000_000);
    let d = Duration::from_millis(2_345);
    assert_eq!(d.as_secs(), 2);
    assert_eq!(d.subsec_nanos(), 345_000_000);
    assert_eq!(d.as_nanos(), 2_345_000_000);
}

#[test]
fn duration_subtraction() {
    let a = Duration::new(5, 100);
    let b = Duration::new(2, 200);
    let d = a.checked_sub(b).unwrap();
    assert_eq!(d.as_secs(), 2);
    assert_eq!(d.subsec_nanos(), 999_999_900);
    assert!(b.checked_sub(a).is_none());
    assert_eq!(a.checked_sub(a).unwrap().as_nanos(), 0);
}

#[test]
fn op_assign_moves_instants_and_system_times() {
    let mut counter = TickCounter::new();
    let start = Instant::now(&mut counter);
    let mut i = start;
    i += Duration::from_nanos(40);
    assert_eq!(i.duration_since(start).as_nanos(), 40);
    i -= Duration::from_nanos(15);
    assert_eq!(i.duration_since(start).as_nanos(), 25);

    let mut t = unix_epoch();
    t += Duration::from_secs(2);
    assert_eq!(t.duration_since(unix_epoch()).unwrap().as_secs(), 2);
    t -= Duration::from_millis(500);
    assert_eq!(t.duration_since(unix_epoch()).unwrap().as_nanos(), 1_500_000_000);
}

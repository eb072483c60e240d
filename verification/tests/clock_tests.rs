use fusion::clock::{
    nanos_to_timepoint, timepoint_to_nanos, Clock, Clockwork, TickClock, TimePoint, TimeSpan,
};

fn system_time_point() -> TimePoint {
    let d = std::time::SystemTime::now().duration_since(std::time::UNIX_EPOCH).unwrap();
    TimePoint { nanos: d.as_nanos() as i128 }
}

#[test]
fn clock_offset() {
    let mut clock = Clock::new("test");
    assert!(!clock.is_initialized());
    let future = TimePoint { nanos: system_time_point().nanos + 10_000_000_000 };
    clock.set_offset_from_timestamp(future);
    assert!(clock.is_initialized());
    let offset_secs = clock.offset_nanos() as f64 / 1e9;
    assert!(offset_secs > 9.0 && offset_secs < 11.0);
}

#[test]
fn clock_offset_exact_at_given_time() {
    let mut clock = Clock::new("gps");
    let now = TimePoint { nanos: 1_000_000_000 };
    clock.set_offset_from_timestamp_at(TimePoint { nanos: 4_000_000_000 }, now);
    assert_eq!(clock.offset_nanos(), 3_000_000_000);
    assert_eq!(clock.last_update(), now);
    assert_eq!(clock.now_at(TimePoint { nanos: 2_000_000_000 }), TimePoint { nanos: 5_000_000_000 });
    // A timestamp in the past gives a negative offset.
    clock.set_offset_from_timestamp_at(TimePoint { nanos: 0 }, now);
    assert_eq!(clock.offset_nanos(), -1_000_000_000);
    assert_eq!(clock.now_at(now), TimePoint { nanos: 0 });
}

#[test]
fn clockwork_multiple_clocks() {
    let mut cw = Clockwork::new();
    cw.add_clock(Clock::new("gps"));
    cw.add_clock(Clock::new("imu"));
    assert_eq!(cw.clock_names().len(), 2);
    assert!(cw.active_clock().is_some());
}

#[test]
fn clockwork_first_clock_is_active_and_names_are_unique() {
    let mut cw = Clockwork::default();
    assert!(cw.active_clock().is_none());
    cw.add_clock(Clock::new("gps"));
    cw.add_clock(Clock::new("imu"));
    cw.add_clock(Clock::new("gps"));
    assert_eq!(cw.clock_names().len(), 2);
    assert_eq!(cw.active_clock().unwrap().name(), "gps");
    assert!(cw.set_active("imu"));
    assert_eq!(cw.active_clock().unwrap().name(), "imu");
    assert!(!cw.set_active("none"));
    assert_eq!(cw.active_clock().unwrap().name(), "imu");
}

#[test]
fn clockwork_now_follows_active_clock() {
    let mut cw = Clockwork::new();
    let sys = TimePoint { nanos: 100 };
    assert_eq!(cw.now_at(sys), sys);
    cw.add_clock(Clock::new("gps"));
    // Not yet set: system time.
    assert_eq!(cw.now_at(sys), sys);
    cw.update_clock_at("gps", TimePoint { nanos: 1_100 }, TimePoint { nanos: 100 });
    assert_eq!(cw.now_at(TimePoint { nanos: 200 }), TimePoint { nanos: 1_200 });
    // Updating an unknown clock creates it.
    cw.update_clock_at("lidar", TimePoint { nanos: 50 }, TimePoint { nanos: 100 });
    assert!(cw.get_clock("lidar").unwrap().is_initialized());
    assert_eq!(cw.clock_names().len(), 2);
}

#[test]
fn tick_clock() {
    let mut tc = TickClock::new("tc", TimeSpan::from_millis(10));
    let t0 = tc.now();
    tc.tick();
    tc.tick();
    let t2 = tc.now();
    let diff = t2.duration_since(t0).unwrap();
    assert_eq!(diff.as_millis(), 20);
}

#[test]
fn tick_clock_reset_and_count() {
    let mut tc = TickClock::new("frames", TimeSpan::from_secs(1));
    assert_eq!(tc.name(), "frames");
    tc.tick();
    tc.tick();
    tc.tick();
    assert_eq!(tc.ticks(), 3);
    tc.reset();
    assert_eq!(tc.ticks(), 0);
}

#[test]
fn timepoint_nanos_conversions() {
    assert_eq!(timepoint_to_nanos(TimePoint { nanos: 1_500 }), 1_500);
    assert_eq!(timepoint_to_nanos(TimePoint { nanos: -1_500 }), 0);
    assert_eq!(nanos_to_timepoint(42), TimePoint { nanos: 42 });
    assert_eq!(nanos_to_timepoint(-42), TimePoint { nanos: 0 });
    assert_eq!(timepoint_to_nanos(nanos_to_timepoint(7_000_000_000)), 7_000_000_000);
}

#[test]
fn time_point_duration_since() {
    let a = TimePoint { nanos: 3_000_000 };
    let b = TimePoint { nanos: 1_000_000 };
    assert_eq!(a.duration_since(b), Some(TimeSpan { nanos: 2_000_000 }));
    assert_eq!(b.duration_since(a), None);
    assert_eq!(TimeSpan::from_millis(7).as_millis(), 7);
    assert_eq!(TimePoint::epoch(), TimePoint { nanos: 0 });
}

use graphics_playground::fps_counter::{FpsCounter, FpsError, NANOS_PER_SEC};

const MS: u64 = 1_000_000;

fn average(c: &FpsCounter) -> f32 {
    c.fps_sum() as f32 / 5.0
}

#[test]
fn zero_target_rate_is_refused() {
    assert_eq!(FpsCounter::new(0, 0).err(), Some(FpsError::InvalidTargetRate));
}

#[test]
fn new_counter_starts_empty() {
    let c = FpsCounter::new(60, 5 * MS).unwrap();
    assert_eq!(c.delta_time(), 0);
    assert_eq!(c.recent_fps(), vec![0, 0, 0, 0, 0]);
    assert_eq!(c.fps_sum(), 0);
    assert_eq!(average(&c), 0.0);
}

#[test]
fn frame_period_is_reciprocal_of_rate() {
    // 1 s / 60 = 16_666_666 ns; the first frame is paced two periods in
    let c = FpsCounter::new(60, 0).unwrap();
    assert_eq!(c.frame_sleep(0, true), 2 * 16_666_666);
    let c = FpsCounter::new(3, 0).unwrap();
    assert_eq!(c.frame_sleep(0, true), 2 * 333_333_333);
}

#[test]
fn unlimited_frames_never_wait() {
    let mut c = FpsCounter::new(60, 0).unwrap();
    for k in 1..10u64 {
        assert_eq!(c.frame_sleep(k * MS, false), 0);
        c.frame(k * MS, k * MS);
    }
}

#[test]
fn limited_frame_waits_for_designated_time() {
    let mut c = FpsCounter::new(10, 0).unwrap();
    // count 0: due at 200 ms, 50 ms into the window
    assert_eq!(c.frame_sleep(50 * MS, true) as u64, 150 * MS);
    c.frame(50 * MS, 200 * MS);
    // count 1: due at 300 ms
    assert_eq!(c.frame_sleep(210 * MS, true) as u64, 90 * MS);
    // already past the due time: no wait
    assert_eq!(c.frame_sleep(400 * MS, true), 0);
}

#[test]
fn delta_tracks_frame_spacing() {
    let mut c = FpsCounter::new(60, 0).unwrap();
    c.frame(10 * MS, 12 * MS);
    assert_eq!(c.delta_time(), 10 * MS);
    c.frame(30 * MS, 30 * MS);
    assert_eq!(c.delta_time(), 18 * MS);
    c.frame(37 * MS, 37 * MS);
    assert_eq!(c.delta_time(), 7 * MS);
}

#[test]
fn set_target_fps_changes_period_only() {
    let mut c = FpsCounter::new(60, 0).unwrap();
    c.frame(10 * MS, 10 * MS);
    assert_eq!(c.set_target_fps(0), Err(FpsError::InvalidTargetRate));
    assert_eq!(c.frame_sleep(10 * MS, true) as u64, 3 * 16_666_666 - 10 * MS);
    assert_eq!(c.set_target_fps(120), Ok(()));
    assert_eq!(c.frame_sleep(10 * MS, true) as u64, 3 * 8_333_333 - 10 * MS);
    assert_eq!(c.delta_time(), 10 * MS);
}

#[test]
fn twenty_five_unlimited_frames_at_forty_ms() {
    let mut c = FpsCounter::new(10, 0).unwrap();
    for k in 1..=25u64 {
        c.frame(40 * k * MS, 40 * k * MS);
    }
    // the window that opened at 0 closes on the frame at 1.0 s
    assert_eq!(c.recent_fps(), vec![25, 0, 0, 0, 0]);
    assert_eq!(average(&c), 5.0);
    assert_eq!(c.delta_time(), 40 * MS);
}

#[test]
fn no_rate_before_first_window_closes() {
    let mut c = FpsCounter::new(30, 0).unwrap();
    for k in 1..=24u64 {
        c.frame(40 * k * MS, 40 * k * MS);
    }
    assert_eq!(average(&c), 0.0);
}

#[test]
fn ring_keeps_last_five_windows() {
    let mut c = FpsCounter::new(60, 0).unwrap();
    let mut t: u64 = 0;
    let counts: [u64; 7] = [10, 20, 25, 40, 50, 100, 125];
    for (i, n) in counts.iter().enumerate() {
        let step = NANOS_PER_SEC / n;
        for _ in 0..*n {
            t += step;
            c.frame(t, t);
        }
        let closed = i + 1;
        assert_eq!(c.recent_fps()[i % 5], *n, "after {} windows", closed);
    }
    assert_eq!(c.recent_fps(), vec![100, 125, 25, 40, 50]);
    assert_eq!(c.fps_sum(), 340);
    assert_eq!(average(&c), 68.0);
}

#[test]
fn paced_loop_settles_near_target() {
    let mut c = FpsCounter::new(60, 0).unwrap();
    let mut t: u64 = 0;
    while t < 3 * NANOS_PER_SEC {
        let started = t;
        let wait = c.frame_sleep(started, true) as u64;
        t = started + wait;
        c.frame(started, t);
        t += 100_000;
    }
    let filled: Vec<u64> = c.recent_fps().into_iter().filter(|n| *n > 0).collect();
    assert!(filled.len() >= 2);
    for n in filled {
        assert!((55..=65).contains(&n), "window count {}", n);
    }
}

#[test]
fn queries_repeat_without_a_frame() {
    let mut c = FpsCounter::new(10, 0).unwrap();
    for k in 1..=30u64 {
        c.frame(50 * k * MS, 50 * k * MS);
    }
    let (a, d) = (c.fps_sum(), c.delta_time());
    for _ in 0..3 {
        assert_eq!(c.fps_sum(), a);
        assert_eq!(c.delta_time(), d);
    }
}

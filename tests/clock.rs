use wvr::ratio::Ratio;
use wvr::transport::{PlayState, Transport};

fn same_value(a: Ratio, num: u64, den: u64) -> bool {
    (a.num as u128) * (den as u128) == (num as u128) * (a.den as u128)
}

fn bpm(n: u64) -> Ratio {
    Ratio::from_int(n)
}

#[test]
fn locked_speed_advances_exactly_per_frame() {
    let mut t = Transport::new(bpm(120), 60, true, 0);
    assert!(t.play(0));
    for _ in 0..60 {
        t.advance(0).unwrap();
    }
    assert!(same_value(t.time, 1, 1));
    assert!(same_value(t.beat, 2, 1));
}

#[test]
fn locked_speed_ignores_wall_clock_jitter() {
    let mut a = Transport::new(bpm(90), 25, true, 0);
    let mut b = Transport::new(bpm(90), 25, true, 0);
    a.play(0);
    b.play(0);
    let jitter = [3u64, 17_000, 40_001, 40_002, 999_999, 1_000_000, 1_000_003];
    for now in jitter.iter() {
        a.advance(*now).unwrap();
        b.advance(0).unwrap();
    }
    // 7 frames at 25 fps: 7/25 s; at 90 bpm: 7 * 90 / (60 * 25) beats.
    assert!(same_value(a.time, 7, 25));
    assert!(same_value(a.beat, 630, 1500));
    assert!(same_value(b.time, 7, 25));
    assert!(same_value(b.beat, 630, 1500));
}

#[test]
fn wall_clock_advances_by_elapsed_time() {
    let mut t = Transport::new(bpm(120), 60, false, 0);
    t.play(1_000_000);
    t.advance(1_500_000).unwrap();
    assert!(same_value(t.time, 1, 2));
    assert!(same_value(t.beat, 1, 1));
    assert_eq!(t.last_update_us, 1_500_000);
}

#[test]
fn wall_clock_going_back_counts_as_no_time() {
    let mut t = Transport::new(bpm(120), 60, false, 0);
    t.play(5_000);
    t.advance(1_000).unwrap();
    assert!(same_value(t.time, 0, 1));
    assert!(same_value(t.beat, 0, 1));
}

#[test]
fn paused_clock_is_frozen() {
    let mut t = Transport::new(bpm(120), 60, true, 0);
    t.advance(10).unwrap();
    assert!(same_value(t.time, 0, 1));
    t.play(0);
    t.advance(0).unwrap();
    assert!(t.pause());
    let time = t.time;
    t.advance(0).unwrap();
    assert_eq!(t.time, time);
    assert_eq!(t.state, PlayState::Paused);
}

#[test]
fn stop_twice_equals_stop_once_and_play_after_stop_does_nothing() {
    let mut once = Transport::new(bpm(120), 60, true, 0);
    once.play(0);
    assert!(once.stop());
    let mut twice = once;
    assert!(!twice.stop());
    assert_eq!(twice.state, once.state);
    assert_eq!(twice.time, once.time);
    assert!(!twice.play(7));
    assert_eq!(twice.state, PlayState::Stopped);
    assert_eq!(twice.last_update_us, once.last_update_us);
    assert!(!twice.pause());
    assert_eq!(twice.state, PlayState::Stopped);
}

#[test]
fn play_only_starts_a_paused_clock() {
    let mut t = Transport::new(bpm(120), 60, true, 3);
    assert!(t.play(10));
    assert_eq!(t.last_update_us, 10);
    assert!(!t.play(20));
    assert_eq!(t.last_update_us, 10);
    assert!(t.is_playing());
}

#[test]
fn overflowing_clock_is_refused_and_left_alone() {
    let mut t = Transport::new(bpm(120), 1, true, 0);
    t.play(0);
    t.time = Ratio { num: u64::MAX, den: 1 };
    assert!(t.advance(0).is_err());
    assert_eq!(t.time, Ratio { num: u64::MAX, den: 1 });
    assert!(same_value(t.beat, 0, 1));
}

#[test]
fn finished_frames_are_counted() {
    let mut t = Transport::new(bpm(120), 60, true, 0);
    t.finish_frame();
    t.finish_frame();
    assert_eq!(t.frame_count, 2);
    t.frame_count = u64::MAX;
    t.finish_frame();
    assert_eq!(t.frame_count, u64::MAX);
}

#[test]
fn ratio_sums_keep_the_larger_denominator() {
    let half = Ratio { num: 1, den: 2 };
    let quarter = Ratio { num: 1, den: 4 };
    assert_eq!(half.add(1, 3), Some(Ratio { num: 5, den: 6 }));
    assert_eq!(quarter.add(1, 2), Some(Ratio { num: 3, den: 4 }));
    assert_eq!(half.add(1, 4), Some(Ratio { num: 3, den: 4 }));
    assert_eq!(Ratio { num: u64::MAX, den: 1 }.add(1, 1), None);
}

#[test]
fn ratio_scaled_floor() {
    assert_eq!(Ratio { num: 3, den: 2 }.floor_scaled(1000), 1500);
    assert_eq!(Ratio { num: 1, den: 3 }.floor_scaled(1000), 333);
    assert_eq!(Ratio { num: u64::MAX, den: 1 }.floor_scaled(1000), u64::MAX);
}

use wvr::sink::{encode_ppm, pack_rgb, presentation_time, still_name, worker_step, Capture, FrameBuffer, WorkerStep};
use wvr::ratio::Ratio;

#[test]
fn a_stalled_worker_disables_capture_once() {
    let mut c = Capture::new(true);
    assert!(c.is_capturing());
    assert!(!c.record_send(true));
    let mut logs = 0;
    for _ in 0..10 {
        if c.record_send(false) {
            logs += 1;
        }
    }
    assert_eq!(logs, 1);
    assert!(!c.is_capturing());
    c.set_requested(true);
    assert!(!c.is_capturing());
}

#[test]
fn refusals_without_capture_are_not_logged() {
    let mut c = Capture::new(false);
    assert!(!c.record_send(false));
    assert!(!c.broken);
}

#[test]
fn alpha_is_dropped_when_packing() {
    let px = vec![(1u8, 2u8, 3u8, 4u8), (5, 6, 7, 8)];
    assert_eq!(pack_rgb(&px), vec![1, 2, 3, 5, 6, 7]);
    assert_eq!(pack_rgb(&vec![]), Vec::<u8>::new());
}

#[test]
fn presentation_time_divides_by_the_rate() {
    assert_eq!(presentation_time(45, 30), Ratio { num: 45, den: 30 });
}

#[test]
fn stills_are_numbered_with_zero_padding() {
    assert_eq!(String::from_utf8(still_name(42)).unwrap(), "000042.ppm");
    assert_eq!(String::from_utf8(still_name(0)).unwrap(), "000000.ppm");
    assert_eq!(String::from_utf8(still_name(1_234_567)).unwrap(), "1234567.ppm");
}

/// `P`, `6`, newline.
fn binary_ppm_magic() -> Vec<u8> {
    vec![0x50, 0x36, 0x0a]
}

#[test]
fn frames_are_written_as_binary_ppm() {
    let frame = FrameBuffer { width: 2, height: 1, pixels: vec![(255, 0, 10, 1), (1, 2, 3, 0)] };
    let mut expected = binary_ppm_magic();
    expected.extend_from_slice(b"2 1\n255\n");
    expected.extend_from_slice(&[255, 0, 10, 1, 2, 3]);
    assert_eq!(encode_ppm(&frame), Some(expected));
    let wide = FrameBuffer { width: 1920, height: 0, pixels: vec![] };
    let mut header = binary_ppm_magic();
    header.extend_from_slice(b"1920 0\n255\n");
    assert_eq!(encode_ppm(&wide), Some(header));
}

#[test]
fn frames_whose_size_changed_are_not_written() {
    let frame = FrameBuffer { width: 2, height: 2, pixels: vec![(0, 0, 0, 0); 3] };
    assert_eq!(encode_ppm(&frame), None);
}

#[test]
fn worker_writes_then_finishes_when_drained() {
    assert_eq!(worker_step(true, false), WorkerStep::Write);
    assert_eq!(worker_step(true, true), WorkerStep::Write);
    assert_eq!(worker_step(false, true), WorkerStep::Finish);
    assert_eq!(worker_step(false, false), WorkerStep::Wait);
}

use iced_gif::{Frames, PlaybackCursor, RawFrame, RedrawDeadline};

const MS: u64 = 1_000_000;

fn frames_ms(delays: &[u32], identity: u64) -> Frames {
    let raw = delays
        .iter()
        .map(|&d| RawFrame { width: 1, height: 1, pixels: vec![0, 0, 0, 255], delay_numer: d, delay_denom: 1 })
        .collect();
    Frames::from_raw_frames(raw, identity).unwrap()
}

#[test]
fn new_cursor_starts_at_first_frame() {
    let frames = frames_ms(&[40, 60], 5);
    let cursor = PlaybackCursor::new(&frames, 1_000);
    assert_eq!(cursor.index(), 0);
    assert_eq!(cursor.started_at(), 1_000);
    assert_eq!(cursor.identity(), 5);
    assert_eq!(cursor.current(&frames).delay(), 40 * MS);
}

#[test]
fn advance_before_duration_keeps_frame() {
    let frames = frames_ms(&[40, 60], 5);
    let t0 = 1_000 * MS;
    let mut cursor = PlaybackCursor::new(&frames, t0);
    assert_eq!(cursor.advance(t0 + 39 * MS, &frames), RedrawDeadline::At(t0 + 40 * MS));
    assert_eq!(cursor.index(), 0);
    assert_eq!(cursor.started_at(), t0);
}

#[test]
fn advance_at_boundary_steps() {
    let frames = frames_ms(&[40, 60], 5);
    let t0 = 1_000 * MS;
    let mut cursor = PlaybackCursor::new(&frames, t0);
    assert_eq!(cursor.advance(t0 + 40 * MS, &frames), RedrawDeadline::At(t0 + 100 * MS));
    assert_eq!(cursor.index(), 1);
    assert_eq!(cursor.started_at(), t0 + 40 * MS);
}

#[test]
fn advance_twice_same_instant_is_noop() {
    let frames = frames_ms(&[40, 60, 30], 5);
    let t0 = 7 * MS;
    let mut cursor = PlaybackCursor::new(&frames, t0);
    let now = t0 + 123 * MS;
    let first = cursor.advance(now, &frames);
    let (index, started) = (cursor.index(), cursor.started_at());
    let second = cursor.advance(now, &frames);
    assert_eq!(first, second);
    assert_eq!(cursor.index(), index);
    assert_eq!(cursor.started_at(), started);
    assert_eq!(index, 2);
    assert_eq!(started, t0 + 100 * MS);
    assert_eq!(first, RedrawDeadline::At(t0 + 130 * MS));
}

#[test]
fn two_frames_loop_back_to_first() {
    let (d0, d1) = (80u64, 120u64);
    let frames = frames_ms(&[d0 as u32, d1 as u32], 5);
    let t0 = 500 * MS;
    let mut cursor = PlaybackCursor::new(&frames, t0);
    let deadline = cursor.advance(t0 + (d0 + d1 + d0 / 2) * MS, &frames);
    assert_eq!(cursor.index(), 0);
    assert_eq!(cursor.started_at(), t0 + (d0 + d1) * MS);
    assert_eq!(deadline, RedrawDeadline::At(t0 + (d0 + d1 + d0) * MS));
}

#[test]
fn large_gap_catches_up_without_drift() {
    let frames = frames_ms(&[100, 100, 100], 5);
    let t0 = 2_000 * MS;
    let mut jump = PlaybackCursor::new(&frames, t0);
    let deadline = jump.advance(t0 + 1050 * MS, &frames);
    assert_eq!(jump.index(), 1);
    assert_eq!(jump.started_at(), t0 + 1000 * MS);
    assert_eq!(deadline, RedrawDeadline::At(t0 + 1100 * MS));

    let mut steps = PlaybackCursor::new(&frames, t0);
    let mut last = RedrawDeadline::At(0);
    let mut t = t0;
    while t < t0 + 1050 * MS {
        t += 7 * MS;
        let now = t.min(t0 + 1050 * MS);
        last = steps.advance(now, &frames);
    }
    assert_eq!(steps.index(), jump.index());
    assert_eq!(steps.started_at(), jump.started_at());
    assert_eq!(last, deadline);
}

#[test]
fn clock_going_backwards_changes_nothing() {
    let frames = frames_ms(&[40, 60], 5);
    let t0 = 1_000 * MS;
    let mut cursor = PlaybackCursor::new(&frames, t0);
    cursor.advance(t0 + 50 * MS, &frames);
    assert_eq!(cursor.index(), 1);
    let deadline = cursor.advance(t0 + 10 * MS, &frames);
    assert_eq!(cursor.index(), 1);
    assert_eq!(cursor.started_at(), t0 + 40 * MS);
    assert_eq!(deadline, RedrawDeadline::At(t0 + 70 * MS));
}

#[test]
fn deadline_clamps_at_end_of_time() {
    let frames = frames_ms(&[40], 5);
    let start = u64::MAX - 10 * MS;
    let mut cursor = PlaybackCursor::new(&frames, start);
    assert_eq!(cursor.advance(start + MS, &frames), RedrawDeadline::At(u64::MAX));
    assert_eq!(cursor.index(), 0);
}

#[test]
fn sync_to_other_frames_resets() {
    let a = frames_ms(&[40, 60, 80], 5);
    let b = frames_ms(&[30, 30], 6);
    let t0 = 1_000 * MS;
    let mut cursor = PlaybackCursor::new(&a, t0);
    cursor.advance(t0 + 150 * MS, &a);
    assert_eq!(cursor.index(), 2);
    cursor.sync(&b, t0 + 200 * MS);
    assert_eq!(cursor.index(), 0);
    assert_eq!(cursor.started_at(), t0 + 200 * MS);
    assert_eq!(cursor.identity(), 6);
}

#[test]
fn sync_to_same_frames_keeps_state() {
    let a = frames_ms(&[40, 60, 80], 5);
    let t0 = 1_000 * MS;
    let mut cursor = PlaybackCursor::new(&a, t0);
    cursor.advance(t0 + 150 * MS, &a);
    cursor.sync(&a, t0 + 200 * MS);
    assert_eq!(cursor.index(), 2);
    assert_eq!(cursor.started_at(), t0 + 100 * MS);
}

#[test]
fn reset_returns_to_first_frame() {
    let a = frames_ms(&[40, 60], 5);
    let mut cursor = PlaybackCursor::new(&a, 0);
    cursor.advance(45 * MS, &a);
    cursor.reset(&a, 60 * MS);
    assert_eq!(cursor.index(), 0);
    assert_eq!(cursor.started_at(), 60 * MS);
    assert_eq!(cursor.identity(), 5);
}

use braid_process_video::align::align_reader;
use braid_process_video::align::synchronize_readers_from;
use braid_process_video::frame_data::FrameItem;
use braid_process_video::peek2::Peek2;

fn frame(ts: i64) -> FrameItem {
    FrameItem { timestamp_micros: ts, idx: 0, image: None }
}

fn cursor(ts: &[i64]) -> Peek2<FrameItem> {
    let mut items = Vec::new();
    for &t in ts {
        items.push(frame(t));
    }
    Peek2::new(items)
}

#[test]
fn peek2_lookahead_and_advance() {
    let mut c = cursor(&[10, 20, 30]);
    assert_eq!(c.len(), 3);
    assert_eq!(c.peek1().unwrap().timestamp_micros, 10);
    assert_eq!(c.peek2().unwrap().timestamp_micros, 20);
    // peeking consumed nothing
    assert_eq!(c.len(), 3);
    let first = c.next().unwrap();
    assert_eq!(first.timestamp_micros, 10);
    assert_eq!(c.peek1().unwrap().timestamp_micros, 20);
    assert_eq!(c.peek2().unwrap().timestamp_micros, 30);
    c.next();
    // near the end of the stream the second lookahead is empty
    assert!(c.peek2().is_none());
    assert_eq!(c.peek1().unwrap().timestamp_micros, 30);
    c.next();
    assert!(c.peek1().is_none());
    assert!(c.next().is_none());
}

#[test]
fn align_noop_when_first_frame_at_or_after_target() {
    // the aligner leaves a cursor alone when its first frame is already
    // at or after the target start time
    let mut c = cursor(&[100, 200, 300]);
    align_reader(&mut c, 50);
    assert_eq!(c.len(), 3);
    assert_eq!(c.peek1().unwrap().timestamp_micros, 100);
    align_reader(&mut c, 100);
    assert_eq!(c.len(), 3);
}

#[test]
fn align_is_idempotent() {
    let mut c = cursor(&[0, 100, 200, 300]);
    align_reader(&mut c, 230);
    let len_after_first = c.len();
    let first_ts = c.peek1().unwrap().timestamp_micros;
    align_reader(&mut c, 230);
    // re-running against the already aligned cursor changes nothing
    assert_eq!(c.len(), len_after_first);
    assert_eq!(c.peek1().unwrap().timestamp_micros, first_ts);
}

#[test]
fn align_picks_strictly_closer_second_frame() {
    // frames straddle the target 70: |60 - 70| = 10, |100 - 70| = 30,
    // the earlier frame is closer and stays
    let mut c = cursor(&[60, 100]);
    align_reader(&mut c, 70);
    assert_eq!(c.peek1().unwrap().timestamp_micros, 60);

    // target 90: |60 - 90| = 30, |100 - 90| = 10, the second frame is
    // strictly closer, so the cursor advances once more
    let mut c = cursor(&[60, 100]);
    align_reader(&mut c, 90);
    assert_eq!(c.peek1().unwrap().timestamp_micros, 100);
}

#[test]
fn align_tie_keeps_earlier_frame() {
    // target 80 is equally far from 60 and 100: the earlier frame wins
    let mut c = cursor(&[60, 100]);
    align_reader(&mut c, 80);
    assert_eq!(c.peek1().unwrap().timestamp_micros, 60);
}

#[test]
fn align_walks_past_frames_before_target() {
    let mut c = cursor(&[0, 100, 200, 300, 400]);
    align_reader(&mut c, 310);
    assert_eq!(c.peek1().unwrap().timestamp_micros, 300);
}

#[test]
fn align_drops_last_frame_still_before_target() {
    // a single remaining frame before the target is dropped, leaving
    // the cursor exhausted for this camera
    let mut c = cursor(&[0, 100]);
    align_reader(&mut c, 5000);
    assert!(c.peek1().is_none());
}

#[test]
fn align_empty_cursor_is_untouched() {
    let mut c = cursor(&[]);
    align_reader(&mut c, 1000);
    assert!(c.peek1().is_none());
}

#[test]
fn synchronize_aligns_each_reader_independently() {
    let mut readers = vec![cursor(&[0, 100, 200, 300]), cursor(&[250, 350]), cursor(&[400])];
    synchronize_readers_from(260, &mut readers);
    // first camera: 200 vs 300 straddle 260; 200 is closer (60 vs 40)?
    // no: |300 - 260| = 40 < |200 - 260| = 60, so 300 wins
    assert_eq!(readers[0].peek1().unwrap().timestamp_micros, 300);
    // second camera: 250 vs 350 straddle 260; 250 is closer
    assert_eq!(readers[1].peek1().unwrap().timestamp_micros, 250);
    // third camera: first frame already after the target
    assert_eq!(readers[2].peek1().unwrap().timestamp_micros, 400);
}

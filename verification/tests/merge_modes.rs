use braid_process_video::config::approx_start_time;
use braid_process_video::data2d::ArchiveGroup;
use braid_process_video::errors::ProcessError;
use braid_process_video::config::resolve_frame_duration;
use braid_process_video::config::resolve_sync_threshold;
use braid_process_video::config::select_merge_mode;
use braid_process_video::config::MergeModeChoice;
use braid_process_video::align::synchronize_readers_from;
use braid_process_video::data2d::build_archive_groups;
use braid_process_video::data2d::Data2dRow;
use braid_process_video::frame_data::FrameItem;
use braid_process_video::merge::ArchiveCamSlot;
use braid_process_video::merge::BraidArchiveIter;
use braid_process_video::merge::MomentSource;
use braid_process_video::merge::SyncedIter;
use braid_process_video::peek2::Peek2;

fn frame(ts: i64) -> FrameItem {
    FrameItem { timestamp_micros: ts, idx: 0, image: None }
}

fn cursor(ts: &[i64]) -> Peek2<FrameItem> {
    let mut items = Vec::new();
    for &t in ts {
        items.push(frame(t));
    }
    Peek2::new(items)
}

fn row(camn: u32, frame_no: i64, trigger: Option<i64>, recv: i64, x: f64, y: f64) -> Data2dRow {
    Data2dRow {
        camn,
        frame: frame_no,
        timestamp_micros: trigger,
        cam_received_timestamp_micros: recv,
        x_bits: x.to_bits(),
        y_bits: y.to_bits(),
    }
}

#[test]
fn merge_mode_selection() {
    assert_eq!(select_merge_mode(true, 0), MergeModeChoice::ArchiveOnly);
    assert_eq!(select_merge_mode(true, 2), MergeModeChoice::ArchiveWithVideo);
    assert_eq!(select_merge_mode(false, 2), MergeModeChoice::FreeRunning);
    assert_eq!(select_merge_mode(false, 0), MergeModeChoice::NothingToDo);
}

#[test]
fn free_running_two_cameras_started_apart() {
    // two cameras at 10 frames per second whose start times lie 12.3
    // seconds apart; no archive, so the free-running merge is selected
    let cam_a_start: i64 = 0;
    let cam_b_start: i64 = 12_300_000;
    let step: i64 = 100_000;
    let mut a_ts = Vec::new();
    let mut t = cam_a_start;
    while t <= 12_800_000 {
        a_ts.push(t);
        t += step;
    }
    let b_ts: Vec<i64> = (0..6).map(|k| cam_b_start + k * step).collect();

    let mut readers = vec![cursor(&a_ts), cursor(&b_ts)];

    let start = approx_start_time(&vec![cam_a_start, cam_b_start]).unwrap();
    // the start time is the slowest camera's start
    assert_eq!(start, cam_b_start);

    let frame_duration = resolve_frame_duration(None, &readers);
    assert_eq!(frame_duration, step);
    let threshold = resolve_sync_threshold(None, frame_duration);
    assert_eq!(threshold, step / 2);

    synchronize_readers_from(start, &mut readers);
    // the first camera's cursor advanced to within the threshold of the
    // second camera's start time
    let a_first = readers[0].peek1().unwrap().timestamp_micros;
    assert!((a_first - cam_b_start).abs() <= threshold);

    let it = SyncedIter::new(readers, threshold, frame_duration).unwrap();
    let mut source = MomentSource::FreeRunning(it);
    let moments = source.collect_moments(usize::MAX);

    // the first emitted moment's timestamp is the second camera's start
    assert!(!moments.is_empty());
    assert!((moments[0].timestamp_micros - cam_b_start).abs() <= threshold);

    for m in &moments {
        // one entry per camera, every moment, in roster order
        assert_eq!(m.camera_pictures.len(), 2);
        // the free-running path carries no archive information
        assert!(m.braidz_info.is_none());
    }
    // strictly monotonically increasing timestamps
    for pair in moments.windows(2) {
        assert!(pair[0].timestamp_micros < pair[1].timestamp_micros);
    }
}

#[test]
fn frame_cap_limits_fusion_input() {
    // the merge could produce many moments, but the configured cap
    // passes exactly five to fusion
    let ts: Vec<i64> = (0..50).map(|k| k * 1000).collect();
    let it = SyncedIter::new(vec![cursor(&ts)], 500, 1000).unwrap();
    let mut source = MomentSource::FreeRunning(it);
    let moments = source.collect_moments(5);
    assert_eq!(moments.len(), 5);
}

#[test]
fn uncapped_run_ends_when_cursors_are_exhausted() {
    let ts: Vec<i64> = (0..4).map(|k| k * 1000).collect();
    let it = SyncedIter::new(vec![cursor(&ts)], 500, 1000).unwrap();
    let mut source = MomentSource::FreeRunning(it);
    let moments = source.collect_moments(usize::MAX);
    assert_eq!(moments.len(), 4);
    assert!(source.collect_moments(usize::MAX).is_empty());
}

#[test]
fn archive_grouping_by_frame_number() {
    let rows = vec![
        row(0, 1, Some(1000), 1001, 1.0, 2.0),
        row(1, 1, Some(1000), 1002, 3.0, 4.0),
        row(0, 2, Some(2000), 2001, 5.0, 6.0),
        row(1, 3, None, 3001, 7.0, 8.0),
    ];
    let groups = build_archive_groups(rows);
    assert_eq!(groups.len(), 3);
    assert_eq!(groups[0].frame, 1);
    assert_eq!(groups[0].rows.len(), 2);
    assert_eq!(groups[0].timestamp_micros, 1000);
    assert_eq!(groups[0].trigger_timestamp_micros, Some(1000));
    assert_eq!(groups[1].frame, 2);
    assert_eq!(groups[1].rows.len(), 1);
    // without a trigger timestamp the first row's receive time stands in
    assert_eq!(groups[2].timestamp_micros, 3001);
    assert_eq!(groups[2].trigger_timestamp_micros, None);
}

#[test]
fn archive_driven_merge_attaches_rows_and_nearby_frames() {
    let rows = vec![
        row(7, 1, Some(1_000_000), 1_000_001, 1.5, 2.5),
        row(7, 2, Some(2_000_000), 2_000_001, 3.5, 4.5),
        row(7, 3, Some(3_000_000), 3_000_001, 5.5, 6.5),
    ];
    let groups = build_archive_groups(rows);
    // one camera matched to archive number 7, with a video cursor whose
    // first frame lies inside the window of the first moment and whose
    // second frame is far beyond every window
    let threshold = 100_000;
    let cams = vec![ArchiveCamSlot {
        camn: Some(7),
        reader: Some(cursor(&[1_010_000, 9_000_000])),
    }];
    let mut it = BraidArchiveIter::new(groups, cams, threshold).unwrap();

    let m1 = it.next_moment().unwrap();
    assert_eq!(m1.timestamp_micros, 1_000_000);
    assert_eq!(m1.braidz_info.unwrap().trigger_timestamp_micros, Some(1_000_000));
    assert_eq!(m1.camera_pictures.len(), 1);
    // the frame at 1.01 s lies within the window and is consumed
    assert_eq!(m1.camera_pictures[0].timestamp_micros, 1_010_000);
    assert_eq!(m1.camera_pictures[0].this_cam_this_frame.len(), 1);

    let m2 = it.next_moment().unwrap();
    // the frame at 9 s is beyond the window: no image, and the cursor is
    // not force-advanced past it
    assert_eq!(m2.timestamp_micros, 2_000_000);
    assert_eq!(m2.camera_pictures[0].timestamp_micros, 2_000_000);
    assert_eq!(it.cams[0].reader.as_ref().unwrap().len(), 1);

    let m3 = it.next_moment().unwrap();
    assert_eq!(m3.timestamp_micros, 3_000_000);
    assert!(it.next_moment().is_none());
    // the out-of-window frame is still unconsumed at the end
    assert_eq!(it.cams[0].reader.as_ref().unwrap().len(), 1);
}

#[test]
fn archive_rows_split_per_camera_number() {
    let rows = vec![
        row(1, 10, Some(5_000), 5_001, 0.0, 0.0),
        row(2, 10, Some(5_000), 5_002, 1.0, 1.0),
        row(1, 10, Some(5_000), 5_003, 2.0, 2.0),
    ];
    let groups = build_archive_groups(rows);
    let cams = vec![
        ArchiveCamSlot { camn: Some(1), reader: None },
        ArchiveCamSlot { camn: Some(2), reader: None },
        ArchiveCamSlot { camn: None, reader: None },
    ];
    let mut it = BraidArchiveIter::new(groups, cams, 100).unwrap();
    let m = it.next_moment().unwrap();
    assert_eq!(m.camera_pictures.len(), 3);
    assert_eq!(m.camera_pictures[0].this_cam_this_frame.len(), 2);
    assert_eq!(m.camera_pictures[1].this_cam_this_frame.len(), 1);
    assert_eq!(m.camera_pictures[2].this_cam_this_frame.len(), 0);
}

#[test]
fn archive_rejects_unordered_moments() {
    let groups = vec![
        ArchiveGroup { frame: 1, timestamp_micros: 2000, trigger_timestamp_micros: None, rows: Vec::new() },
        ArchiveGroup { frame: 2, timestamp_micros: 1000, trigger_timestamp_micros: None, rows: Vec::new() },
    ];
    let r = BraidArchiveIter::new(groups, Vec::new(), 100);
    assert!(matches!(r, Err(ProcessError::UnorderedArchive)));
}

#[test]
fn free_running_rejects_bad_timing() {
    let r = SyncedIter::new(vec![cursor(&[0, 10])], 5, 0);
    assert!(matches!(r, Err(ProcessError::NoFrameTiming)));
    let r = SyncedIter::new(vec![cursor(&[10, 0])], 5, 10);
    assert!(matches!(r, Err(ProcessError::UnorderedFrames)));
    let r = SyncedIter::new(vec![cursor(&[0, 10])], 0x1000_0000_0000_0000, 10);
    assert!(matches!(r, Err(ProcessError::TimestampOutOfRange)));
}

#[test]
fn paced_moments_cover_gaps_without_stalling() {
    // a gap in the recording: the moment clock paces forward one
    // nominal frame duration per emitted moment
    let ts: Vec<i64> = vec![0, 1000, 5000];
    let it = SyncedIter::new(vec![cursor(&ts)], 400, 1000).unwrap();
    let mut source = MomentSource::FreeRunning(it);
    let moments = source.collect_moments(usize::MAX);
    for pair in moments.windows(2) {
        assert_eq!(pair[1].timestamp_micros - pair[0].timestamp_micros, 1000);
    }
    // the frame after the gap was eventually emitted
    assert!(moments.iter().any(|m| m.camera_pictures[0].timestamp_micros == 5000));
}

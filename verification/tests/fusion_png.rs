use braid_process_video::camera_id::CameraIdentifier;
use braid_process_video::camera_id::MovieCamId;
use braid_process_video::config::FeatureDetectionMethod;
use braid_process_video::data2d::Data2dRow;
use braid_process_video::errors::ProcessError;
use braid_process_video::merge::MomentSource;
use braid_process_video::merge::SyncedIter;
use braid_process_video::run::fuse_moments;
use braid_process_video::run::process_run;
use braid_process_video::frame_data::FrameFormat;
use braid_process_video::frame_data::FrameItem;
use braid_process_video::frame_data::ImageValue;
use braid_process_video::merge::BraidzFrameInfo;
use braid_process_video::merge::OutTimepointPerCamera;
use braid_process_video::merge::SyncedPictures;
use braid_process_video::peek2::Peek2;
use braid_process_video::render::gather_frame_data;
use braid_process_video::render::CameraSource;
use braid_process_video::render::PerCamRender;

fn png_dims(png: &[u8]) -> (u32, u32) {
    // PNG signature, then the IHDR chunk: length, type, width, height
    assert_eq!(&png[0..8], &[0x89, b'P', b'N', b'G', 0x0D, 0x0A, 0x1A, 0x0A]);
    assert_eq!(&png[12..16], b"IHDR");
    let w = u32::from_be_bytes([png[16], png[17], png[18], png[19]]);
    let h = u32::from_be_bytes([png[20], png[21], png[22], png[23]]);
    (w, h)
}

fn row_xy(x: f64, y: f64) -> Data2dRow {
    Data2dRow {
        camn: 0,
        frame: 0,
        timestamp_micros: None,
        cam_received_timestamp_micros: 0,
        x_bits: x.to_bits(),
        y_bits: y.to_bits(),
    }
}

fn blank_template(name: &str, w: u32, h: u32) -> PerCamRender {
    PerCamRender::from_braidz(&name.to_string(), w, h).unwrap()
}

#[test]
fn blank_archive_template_is_a_real_png_of_the_recorded_size() {
    // archive-only cameras get a synthesized blank image of the
    // archive's recorded per-camera resolution
    let t = blank_template("cam", 6, 4);
    assert_eq!(t.width, 6);
    assert_eq!(t.height, 4);
    let (w, h) = png_dims(&t.frame0_png_buf);
    assert_eq!((w, h), (6, 4));
}

#[test]
fn template_from_first_decoded_frame() {
    let img = ImageValue {
        format: FrameFormat::Rgb8,
        width: 2,
        height: 2,
        data: vec![0u8; 12],
    };
    let item = FrameItem { timestamp_micros: 0, idx: 0, image: Some(img) };
    let reader = Peek2::new(vec![item]);
    let cam = CameraIdentifier::MovieOnly(MovieCamId {
        filename: "f.mp4".to_string(),
        cfg_name: None,
        title: None,
        cam_from_filename: None,
        frame0_time_micros: 0,
    });
    let t = PerCamRender::from_reader(&cam, &reader).unwrap();
    assert_eq!(t.best_name, "f.mp4");
    let (w, h) = png_dims(&t.frame0_png_buf);
    assert_eq!((w, h), (2, 2));
}

#[test]
fn zero_sized_template_is_rejected_by_the_encoder() {
    let r = PerCamRender::from_braidz(&"cam".to_string(), 0, 1);
    assert!(matches!(r, Err(ProcessError::PngEncodingFailed)));
}

#[test]
fn fusion_skips_rows_with_non_finite_coordinates() {
    // a detection row with a NaN coordinate is skipped; the rest of the
    // camera's rows for the moment are still appended
    let rows = vec![row_xy(1.0, 2.0), row_xy(f64::NAN, 3.0), row_xy(4.0, f64::NAN), row_xy(5.0, 6.0)];
    let synced = SyncedPictures {
        timestamp_micros: 42,
        camera_pictures: vec![OutTimepointPerCamera::new(42, None, rows)],
        braidz_info: Some(BraidzFrameInfo { trigger_timestamp_micros: Some(42) }),
    };
    let sources = vec![CameraSource {
        cam_id: CameraIdentifier::MovieOnly(MovieCamId {
            filename: "f.mp4".to_string(),
            cfg_name: None,
            title: None,
            cam_from_filename: None,
            frame0_time_micros: 0,
        }),
        per_cam_render: blank_template("f.mp4", 2, 2),
    }];
    let frames = gather_frame_data(&synced, &sources, &FeatureDetectionMethod::CopyExisting).unwrap();
    assert_eq!(frames.len(), 1);
    let pts = &frames[0].points;
    assert_eq!(pts.len(), 2);
    assert_eq!(pts[0], (1.0f64.to_bits(), 2.0f64.to_bits()));
    assert_eq!(pts[1], (5.0f64.to_bits(), 6.0f64.to_bits()));
    assert_eq!(frames[0].pts_micros, 42);
    assert!(frames[0].png_buf.is_none());
}

#[test]
fn fusion_encodes_selected_images() {
    let img = ImageValue {
        format: FrameFormat::Mono8,
        width: 3,
        height: 5,
        data: vec![7u8; 15],
    };
    let synced = SyncedPictures {
        timestamp_micros: 100,
        camera_pictures: vec![
            OutTimepointPerCamera::new(99, Some(img), Vec::new()),
            OutTimepointPerCamera::new(100, None, Vec::new()),
        ],
        braidz_info: None,
    };
    let cam = |name: &str| CameraSource {
        cam_id: CameraIdentifier::MovieOnly(MovieCamId {
            filename: name.to_string(),
            cfg_name: None,
            title: None,
            cam_from_filename: None,
            frame0_time_micros: 0,
        }),
        per_cam_render: blank_template(name, 3, 5),
    };
    let sources = vec![cam("a"), cam("b")];
    let frames = gather_frame_data(&synced, &sources, &FeatureDetectionMethod::CopyExisting).unwrap();
    assert_eq!(frames.len(), 2);
    let png = frames[0].png_buf.as_ref().unwrap();
    assert_eq!(png_dims(png), (3, 5));
    assert!(frames[1].png_buf.is_none());
    // per-moment records carry each camera's own contribution timestamp
    assert_eq!(frames[0].pts_micros, 99);
    assert_eq!(frames[1].pts_micros, 100);
    assert_eq!(frames[0].cam_index, 0);
    assert_eq!(frames[1].cam_index, 1);
}

#[test]
fn run_loop_caps_and_skips_output_moments() {
    let mut items = Vec::new();
    for k in 0..50i64 {
        items.push(FrameItem { timestamp_micros: k * 1000, idx: 0, image: None });
    }
    let readers = vec![Peek2::new(items)];
    let it = SyncedIter::new(readers, 500, 1000).unwrap();
    let mut source = MomentSource::FreeRunning(it);
    let sources = vec![CameraSource {
        cam_id: CameraIdentifier::MovieOnly(MovieCamId {
            filename: "f.mp4".to_string(),
            cfg_name: None,
            title: None,
            cam_from_filename: None,
            frame0_time_micros: 0,
        }),
        per_cam_render: blank_template("f.mp4", 2, 2),
    }];
    let fused = process_run(
        &mut source,
        &sources,
        &FeatureDetectionMethod::CopyExisting,
        Some(2),
        Some(5),
    )
    .unwrap();
    // five moments were produced, the first two were skipped
    assert_eq!(fused.len(), 3);
    let fnos: Vec<usize> = fused.iter().map(|f| f.out_fno).collect();
    assert_eq!(fnos, vec![2, 3, 4]);
    for fm in &fused {
        assert_eq!(fm.frames.len(), 1);
        assert_eq!(fm.synced.camera_pictures.len(), 1);
    }
    for pair in fused.windows(2) {
        assert!(pair[0].synced.timestamp_micros < pair[1].synced.timestamp_micros);
    }
}

#[test]
fn merge_sources_reject_malformed_images() {
    // a frame whose buffer length disagrees with its dimensions
    let bad = ImageValue { format: FrameFormat::Mono8, width: 4, height: 4, data: vec![0u8; 3] };
    let items = vec![FrameItem { timestamp_micros: 0, idx: 0, image: Some(bad) }];
    let r = SyncedIter::new(vec![Peek2::new(items)], 500, 1000);
    assert!(matches!(r, Err(ProcessError::BadImageGeometry)));
    // a consistent but zero-sized frame is refused too: the encoder
    // cannot take it
    let empty = ImageValue { format: FrameFormat::Mono8, width: 0, height: 4, data: Vec::new() };
    let items = vec![FrameItem { timestamp_micros: 0, idx: 0, image: Some(empty) }];
    let r = SyncedIter::new(vec![Peek2::new(items)], 500, 1000);
    assert!(matches!(r, Err(ProcessError::BadImageGeometry)));
}

#[test]
fn run_loop_always_fuses_what_the_merge_emits() {
    let good = ImageValue { format: FrameFormat::Mono8, width: 2, height: 2, data: vec![9u8; 4] };
    let items = vec![FrameItem { timestamp_micros: 0, idx: 0, image: Some(good) }];
    let it = SyncedIter::new(vec![Peek2::new(items)], 500, 1000).unwrap();
    let mut source = MomentSource::FreeRunning(it);
    let sources = vec![CameraSource {
        cam_id: CameraIdentifier::MovieOnly(MovieCamId {
            filename: "f.mp4".to_string(),
            cfg_name: None,
            title: None,
            cam_from_filename: None,
            frame0_time_micros: 0,
        }),
        per_cam_render: blank_template("f.mp4", 2, 2),
    }];
    let fused =
        process_run(&mut source, &sources, &FeatureDetectionMethod::CopyExisting, None, None)
            .unwrap();
    assert_eq!(fused.len(), 1);
    let png = fused[0].frames[0].png_buf.as_ref().unwrap();
    assert_eq!(png_dims(png), (2, 2));
}

#[test]
fn fusing_a_moment_with_a_bad_image_names_the_geometry() {
    // a hand-built moment whose image the encoder cannot take
    let bad = ImageValue { format: FrameFormat::Mono8, width: 4, height: 4, data: vec![0u8; 3] };
    let moments = vec![SyncedPictures {
        timestamp_micros: 0,
        camera_pictures: vec![OutTimepointPerCamera::new(0, Some(bad), Vec::new())],
        braidz_info: None,
    }];
    let sources = vec![CameraSource {
        cam_id: CameraIdentifier::MovieOnly(MovieCamId {
            filename: "f.mp4".to_string(),
            cfg_name: None,
            title: None,
            cam_from_filename: None,
            frame0_time_micros: 0,
        }),
        per_cam_render: blank_template("f.mp4", 2, 2),
    }];
    let r = fuse_moments(moments, &sources, &FeatureDetectionMethod::CopyExisting, None);
    assert!(matches!(r, Err(ProcessError::BadImageGeometry)));
    // the same moment is skipped, so fusion never sees it and succeeds
    let bad = ImageValue { format: FrameFormat::Mono8, width: 4, height: 4, data: vec![0u8; 3] };
    let moments = vec![SyncedPictures {
        timestamp_micros: 0,
        camera_pictures: vec![OutTimepointPerCamera::new(0, Some(bad), Vec::new())],
        braidz_info: None,
    }];
    let fused =
        fuse_moments(moments, &sources, &FeatureDetectionMethod::CopyExisting, Some(1)).unwrap();
    assert!(fused.is_empty());
}

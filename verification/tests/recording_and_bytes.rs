use braid_process_video::camera_info::VimbaCameraInfo;
use braid_process_video::config::default_filename;
use braid_process_video::config::display_filename;
use braid_process_video::config::BraidRetrackVideoConfig;
use braid_process_video::config::FeatureDetectionMethod;
use braid_process_video::config::OutputConfig;
use braid_process_video::config::DebugOutputConfig;
use braid_process_video::config::ProcessingConfig;
use braid_process_video::errors::ProcessError;
use braid_process_video::h264_meta::copy_nalus_to_annex_b;
use braid_process_video::h264_meta::frame_timestamp;
use braid_process_video::h264_meta::FrameTimestamp;
use braid_process_video::h264_meta::frame_slice_indices;
use braid_process_video::h264_meta::nal_unit_type;
use braid_process_video::h264_meta::parse_precision_time;
use braid_process_video::h264_meta::resolve_timestamp_source;
use braid_process_video::h264_meta::H264Metadata;
use braid_process_video::h264_meta::TimestampSource;
use braid_process_video::h264_meta::UserDataUnregistered;
use braid_process_video::h264_meta::H264_METADATA_UUID;
use braid_process_video::h264_meta::H264_METADATA_VERSION;
use braid_process_video::recording_config::BitrateSelection;
use braid_process_video::recording_config::CodecSelection;
use braid_process_video::recording_config::OpenH264Options;
use braid_process_video::recording_config::OpenH264Preset;
use braid_process_video::recording_config::OpenH264RateControlMode;
use braid_process_video::recording_config::NvidiaH264Options;
use braid_process_video::recording_config::RecordingFrameRate;
use braid_process_video::recording_config::TagFamily;

#[test]
fn frame_rate_intervals_in_nanoseconds() {
    assert_eq!(RecordingFrameRate::Fps1.interval(), 1_000_000_000);
    assert_eq!(RecordingFrameRate::Fps25.interval(), 40_000_000);
    assert_eq!(RecordingFrameRate::Fps30.interval(), 33_333_333);
    assert_eq!(RecordingFrameRate::Fps60.interval(), 16_666_667);
    assert_eq!(RecordingFrameRate::Unlimited.interval(), 0);
}

#[test]
fn frame_rate_fractions() {
    assert_eq!(RecordingFrameRate::Fps5.as_numerator_denominator(), Some((5, 1)));
    assert_eq!(RecordingFrameRate::Fps100.as_numerator_denominator(), Some((100, 1)));
    assert_eq!(RecordingFrameRate::Unlimited.as_numerator_denominator(), None);
}

#[test]
fn frame_rate_labels_and_variants() {
    assert_eq!(RecordingFrameRate::Fps2.label(), "2 fps");
    assert_eq!(RecordingFrameRate::Unlimited.label(), "unlimited");
    assert_eq!(RecordingFrameRate::variants().len(), 12);
    assert_eq!(RecordingFrameRate::default(), RecordingFrameRate::Unlimited);
}

#[test]
fn openh264_options_follow_their_preset() {
    let all = OpenH264Options { debug: true, preset: OpenH264Preset::AllFrames };
    assert!(all.debug());
    assert!(!all.enable_skip_frame());
    assert_eq!(all.rate_control_mode(), OpenH264RateControlMode::Off);
    assert_eq!(all.bitrate_bps(), 0);

    let capped = OpenH264Options { debug: false, preset: OpenH264Preset::SkipFramesBitrate(750) };
    assert!(!capped.debug());
    assert!(capped.enable_skip_frame());
    assert_eq!(capped.rate_control_mode(), OpenH264RateControlMode::Bitrate);
    assert_eq!(capped.bitrate_bps(), 750);

    assert_eq!(OpenH264Preset::default(), OpenH264Preset::SkipFramesBitrate(5000));
    let d = OpenH264Options::default();
    assert!(!d.debug);
    assert_eq!(d.preset, OpenH264Preset::SkipFramesBitrate(5000));
}

#[test]
fn nvidia_defaults() {
    let d = NvidiaH264Options::default();
    assert_eq!(d.bitrate, 1000);
    assert_eq!(d.cuda_device, 0);
}

#[test]
fn tag_families_and_bitrates() {
    assert_eq!(TagFamily::default(), TagFamily::Family36h11);
    assert_eq!(TagFamily::FamilyStandard41h12.label(), "standard-41h12");
    assert_eq!(TagFamily::variants().len(), 8);
    assert_eq!(BitrateSelection::default(), BitrateSelection::Bitrate1000);
    assert_eq!(BitrateSelection::BitrateUnlimited.label(), "Unlimited");
    assert_eq!(BitrateSelection::variants().len(), 8);
    assert_eq!(CodecSelection::H264Nvenc.label(), "H264Nvenc");
    assert_eq!(CodecSelection::variants().len(), 2);
}

#[test]
fn vimba_camera_info_getters() {
    let info = VimbaCameraInfo::new(
        "DEV_000F315BE442".to_string(),
        "0813".to_string(),
        "GE1050".to_string(),
        "Allied Vision".to_string(),
    );
    assert_eq!(info.name(), "DEV_000F315BE442");
    assert_eq!(info.serial(), "0813");
    assert_eq!(info.model(), "GE1050");
    assert_eq!(info.vendor(), "Allied Vision");
}

#[test]
fn metadata_carries_version_and_writer() {
    let md = H264Metadata::new("strand-cam", 1_600_000_000_000_000, 3600);
    assert_eq!(md.version, H264_METADATA_VERSION);
    assert_eq!(md.writing_app, "strand-cam");
    assert_eq!(md.creation_time_micros, 1_600_000_000_000_000);
    assert_eq!(md.creation_time_offset_secs, 3600);
    assert!(md.camera_name.is_none());
    assert!(md.gamma_bits.is_none());
    assert_eq!(H264_METADATA_UUID.len(), 16);
    assert_eq!(H264_METADATA_UUID[0], 0x0B);
}

#[test]
fn precision_time_parses_big_endian_microseconds() {
    let payload = vec![
        0x1F, 0x01, 0x02, 0xFF, 0x03, 0x04, 0xFF, 0x05, 0x06, 0xFF, 0x07, 0x08,
    ];
    let t = parse_precision_time(&payload).unwrap();
    assert_eq!(t, 0x0102030405060708);
}

#[test]
fn precision_time_rejects_bad_payloads() {
    assert!(matches!(
        parse_precision_time(&vec![0u8; 11]),
        Err(ProcessError::PrecisionTimeLength)
    ));
    let mut bad_marker = vec![
        0x1F, 0x01, 0x02, 0xFF, 0x03, 0x04, 0xFF, 0x05, 0x06, 0xFF, 0x07, 0x08,
    ];
    bad_marker[6] = 0x00;
    assert!(matches!(
        parse_precision_time(&bad_marker),
        Err(ProcessError::PrecisionTimeMarker)
    ));
}

#[test]
fn user_data_unregistered_splits_uuid_and_payload() {
    let mut msg: Vec<u8> = H264_METADATA_UUID.to_vec();
    msg.extend_from_slice(b"hello");
    let udu = UserDataUnregistered::read(&msg).unwrap();
    assert_eq!(udu.uuid, H264_METADATA_UUID.to_vec());
    assert_eq!(udu.payload, b"hello".to_vec());
    assert!(matches!(
        UserDataUnregistered::read(&vec![0u8; 15]),
        Err(ProcessError::SeiPayloadTooShort)
    ));
}

#[test]
fn annex_b_framing_prefixes_every_unit() {
    let nalus = vec![vec![0x67, 0x42], vec![0x68]];
    let out = copy_nalus_to_annex_b(&nalus);
    assert_eq!(out, vec![0, 0, 0, 1, 0x67, 0x42, 0, 0, 0, 1, 0x68]);
    assert!(copy_nalus_to_annex_b(&Vec::new()).is_empty());
}

#[test]
fn nal_classification_and_frame_indices() {
    assert_eq!(nal_unit_type(0x67), 7);
    assert_eq!(nal_unit_type(0x68), 8);
    assert_eq!(nal_unit_type(0x06), 6);
    assert_eq!(nal_unit_type(0x65), 5);
    assert_eq!(nal_unit_type(0x41), 1);
    // SPS, PPS, SEI, one IDR slice, SEI, one non-IDR slice
    let units = vec![
        vec![0x67, 0x42],
        vec![0x68, 0xCE],
        vec![0x06, 0x05],
        vec![0x65, 0x88],
        vec![0x06, 0x05],
        vec![0x41, 0x9A],
    ];
    assert_eq!(frame_slice_indices(&units), vec![3, 5]);
}

#[test]
fn timestamp_source_resolution() {
    // the best guess prefers precision time, then frame-information
    // receive time, then container timestamps
    assert_eq!(
        resolve_timestamp_source(TimestampSource::BestGuess, true, true, true).unwrap(),
        (Some(TimestampSource::MispMicrosectime), true)
    );
    assert_eq!(
        resolve_timestamp_source(TimestampSource::BestGuess, false, true, true).unwrap(),
        (Some(TimestampSource::FrameInfoRecvTime), true)
    );
    assert_eq!(
        resolve_timestamp_source(TimestampSource::BestGuess, false, false, true).unwrap(),
        (Some(TimestampSource::Mp4Pts), true)
    );
    assert_eq!(
        resolve_timestamp_source(TimestampSource::BestGuess, false, false, false).unwrap(),
        (None, false)
    );
    assert!(matches!(
        resolve_timestamp_source(TimestampSource::MispMicrosectime, false, true, true),
        Err(ProcessError::TimestampSourceMissing)
    ));
    assert_eq!(
        resolve_timestamp_source(TimestampSource::Mp4Pts, false, false, true).unwrap(),
        (Some(TimestampSource::Mp4Pts), true)
    );
}

#[test]
fn frame_timestamps_follow_the_effective_source() {
    assert_eq!(
        frame_timestamp(Some(TimestampSource::MispMicrosectime), Some(1500), Some(1000), None, 0, 4)
            .unwrap(),
        FrameTimestamp::DurationMicros(500)
    );
    assert_eq!(
        frame_timestamp(Some(TimestampSource::Mp4Pts), None, None, Some(40_000), 0, 4).unwrap(),
        FrameTimestamp::DurationMicros(40_000)
    );
    assert_eq!(
        frame_timestamp(None, None, None, None, 3, 12).unwrap(),
        FrameTimestamp::Fraction(3, 12)
    );
    assert!(matches!(
        frame_timestamp(Some(TimestampSource::MispMicrosectime), None, None, None, 0, 4),
        Err(ProcessError::TimestampSourceMissing)
    ));
}

#[test]
fn error_descriptions_name_the_failure() {
    assert_eq!(
        ProcessError::NoFrameTiming.describe(),
        "neither archive nor input videos supply frame timing"
    );
    assert_eq!(ProcessError::PngEncodingFailed.describe(), "PNG encoding failed");
}

fn minimal_config(skip: Option<usize>, log_interval: Option<usize>) -> BraidRetrackVideoConfig {
    BraidRetrackVideoConfig {
        input_braidz: None,
        input_video: Vec::new(),
        frame_duration_microsecs: None,
        sync_threshold_microseconds: None,
        max_num_frames: None,
        skip_n_first_output_frames: skip,
        log_interval_frames: log_interval,
        processing_config: ProcessingConfig {
            feature_detection_method: FeatureDetectionMethod::CopyExisting,
        },
        output: vec![OutputConfig::DebugTxt(DebugOutputConfig { filename: "out.txt".to_string() })],
    }
}

#[test]
fn optional_output_names_fall_back_to_a_default() {
    assert_eq!(display_filename(&Some("out.mp4".to_string()), "<stdout>"), "out.mp4");
    assert_eq!(display_filename(&None, "<stdout>"), "<stdout>");
}

#[test]
fn default_export_names_replace_the_extension() {
    // a directory part and an extension to replace
    assert_eq!(
        default_filename(&b"dir/movie.fmf".to_vec(), None, &b"mp4".to_vec()),
        Some(b"dir/movie.exported.mp4".to_vec())
    );
    // no directory part
    assert_eq!(
        default_filename(&b"test.fmf".to_vec(), None, &b"y4m".to_vec()),
        Some(b"test.exported.y4m".to_vec())
    );
    // only the last dot starts the extension
    assert_eq!(
        default_filename(&b"a.b.c".to_vec(), None, &b"x".to_vec()),
        Some(b"a.b.exported.x".to_vec())
    );
    // a leading dot is part of the name, not an extension
    assert_eq!(
        default_filename(&b".hidden".to_vec(), None, &b"mp4".to_vec()),
        Some(b".hidden.exported.mp4".to_vec())
    );
    // an explicit output is kept; a dash selects the console
    assert_eq!(
        default_filename(&b"in.fmf".to_vec(), Some(b"out.mp4".to_vec()), &b"mp4".to_vec()),
        Some(b"out.mp4".to_vec())
    );
    assert_eq!(default_filename(&b"in.fmf".to_vec(), Some(b"-".to_vec()), &b"mp4".to_vec()), None);
}

#[test]
fn config_skip_and_log_rules() {
    let cfg = minimal_config(Some(3), None);
    assert!(cfg.should_skip_frame(0));
    assert!(cfg.should_skip_frame(2));
    assert!(!cfg.should_skip_frame(3));
    // the logging interval falls back to every hundredth moment
    assert!(cfg.should_log_frame(0));
    assert!(!cfg.should_log_frame(99));
    assert!(cfg.should_log_frame(200));
    let cfg = minimal_config(None, Some(7));
    assert!(!cfg.should_skip_frame(0));
    assert!(cfg.should_log_frame(14));
    assert!(!cfg.should_log_frame(15));
    assert_eq!(cfg.output[0].filename(), "out.txt");
}

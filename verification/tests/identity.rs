use braid_process_video::camera_id::parse_cam_from_filename;
use braid_process_video::camera_id::resolve_cameras;
use braid_process_video::camera_id::BraidzCamId;
use braid_process_video::camera_id::CameraIdentifier;
use braid_process_video::camera_id::MovieCamId;

fn movie_cam(filename: &str, cfg_name: Option<&str>, title: Option<&str>) -> MovieCamId {
    let stem = match filename.split('.').next() {
        Some(s) => s,
        None => filename,
    };
    MovieCamId {
        filename: filename.to_string(),
        cfg_name: cfg_name.map(|s| s.to_string()),
        title: title.map(|s| s.to_string()),
        cam_from_filename: parse_cam_from_filename(stem),
        frame0_time_micros: 0,
    }
}

fn braidz_cam(id: &str, camn: u32) -> BraidzCamId {
    BraidzCamId { cam_id_str: id.to_string(), camn }
}

#[test]
fn filename_pattern_extracts_raw_name() {
    assert_eq!(
        parse_cam_from_filename("movie20211108_084523_Basler-22445994"),
        Some("Basler-22445994".to_string())
    );
    assert_eq!(parse_cam_from_filename("movie20211108_084523_"), Some("".to_string()));
    assert_eq!(parse_cam_from_filename("movie20211108_084523_CamA"), Some("CamA".to_string()));
}

#[test]
fn filename_pattern_rejects_malformed_stems() {
    // too short
    assert_eq!(parse_cam_from_filename("movie2021_0845_X"), None);
    // wrong prefix
    assert_eq!(parse_cam_from_filename("video20211108_084523_CamA"), None);
    // letters where the date digits belong
    assert_eq!(parse_cam_from_filename("movie2021110a_084523_CamA"), None);
    // missing underscore between date and time
    assert_eq!(parse_cam_from_filename("movie20211108x084523_CamA"), None);
    assert_eq!(parse_cam_from_filename(""), None);
}

#[test]
fn best_name_prefers_config_then_title_then_filename() {
    let with_cfg = CameraIdentifier::MovieOnly(movie_cam("a.mp4", Some("configured"), Some("titled")));
    assert_eq!(with_cfg.best_name(), "configured");
    let with_title = CameraIdentifier::MovieOnly(movie_cam("a.mp4", None, Some("titled")));
    assert_eq!(with_title.best_name(), "titled");
    let plain = CameraIdentifier::MovieOnly(movie_cam("a.mp4", None, None));
    assert_eq!(plain.best_name(), "a.mp4");
    let archive = CameraIdentifier::BraidzOnly(braidz_cam("Basler-1", 7));
    assert_eq!(archive.best_name(), "Basler-1");
}

#[test]
fn raw_name_prefers_title_then_filename_pattern() {
    let m = movie_cam("movie20211108_084523_CamA.mp4", Some("cfg"), Some("titled"));
    assert_eq!(m.raw_name(), Some("titled".to_string()));
    let m = movie_cam("movie20211108_084523_CamA.mp4", Some("cfg"), None);
    assert_eq!(m.raw_name(), Some("CamA".to_string()));
    let m = movie_cam("plain.mp4", None, None);
    assert_eq!(m.raw_name(), None);
}

#[test]
fn matching_video_and_archive_become_one_identity() {
    // one video file named exactly after an archive camera id: the
    // resolver produces a single combined identity, not two entries
    let video = vec![movie_cam("movie20211108_084523_Basler-22445994.mp4", None, None)];
    let archive = vec![braidz_cam("Basler-22445994", 3)];
    let roster = resolve_cameras(video, Some(archive));
    assert_eq!(roster.len(), 1);
    match &roster[0] {
        CameraIdentifier::Both(m, b) => {
            assert_eq!(m.cam_from_filename, Some("Basler-22445994".to_string()));
            assert_eq!(b.cam_id_str, "Basler-22445994");
            assert_eq!(b.camn, 3);
        }
        _ => panic!("expected a combined identity"),
    }
}

#[test]
fn unmatched_video_stays_movie_only() {
    let video = vec![movie_cam("movie20211108_084523_CamA.mp4", None, None)];
    let archive = vec![braidz_cam("Basler-22445994", 3)];
    let roster = resolve_cameras(video, Some(archive));
    assert_eq!(roster.len(), 1);
    assert!(matches!(roster[0], CameraIdentifier::MovieOnly(_)));
}

#[test]
fn archive_only_when_no_video_given() {
    let roster = resolve_cameras(Vec::new(), Some(vec![braidz_cam("A", 0), braidz_cam("B", 1)]));
    assert_eq!(roster.len(), 2);
    for ident in &roster {
        assert!(matches!(ident, CameraIdentifier::BraidzOnly(_)));
    }
}

#[test]
fn no_inputs_yield_empty_roster() {
    let roster = resolve_cameras(Vec::new(), None);
    assert!(roster.is_empty());
    let roster = resolve_cameras(Vec::new(), Some(Vec::new()));
    assert!(roster.is_empty());
}

#[test]
fn resolver_join_is_pure() {
    // resolving the same pair twice yields identical merged rosters
    let make_inputs = || {
        (
            vec![
                movie_cam("movie20211108_084523_CamA.mp4", None, None),
                movie_cam("movie20211108_084610_Basler-1.mp4", None, None),
            ],
            Some(vec![braidz_cam("Basler-1", 5), braidz_cam("Basler-2", 6)]),
        )
    };
    let (v1, a1) = make_inputs();
    let (v2, a2) = make_inputs();
    let r1 = resolve_cameras(v1, a1);
    let r2 = resolve_cameras(v2, a2);
    assert_eq!(r1.len(), r2.len());
    for (x, y) in r1.iter().zip(r2.iter()) {
        assert_eq!(x.best_name(), y.best_name());
        match (x, y) {
            (CameraIdentifier::MovieOnly(_), CameraIdentifier::MovieOnly(_)) => {}
            (CameraIdentifier::Both(_, bx), CameraIdentifier::Both(_, by)) => {
                assert_eq!(bx.cam_id_str, by.cam_id_str);
                assert_eq!(bx.camn, by.camn);
            }
            (CameraIdentifier::BraidzOnly(bx), CameraIdentifier::BraidzOnly(by)) => {
                assert_eq!(bx.cam_id_str, by.cam_id_str);
            }
            _ => panic!("rosters disagree in identity kind"),
        }
    }
}

#[test]
fn case_sensitive_exact_matching_only() {
    let video = vec![movie_cam("movie20211108_084523_cama.mp4", None, None)];
    let archive = vec![braidz_cam("CamA", 1)];
    let roster = resolve_cameras(video, Some(archive));
    assert!(matches!(roster[0], CameraIdentifier::MovieOnly(_)));
}

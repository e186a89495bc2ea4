use vstd::prelude::*;

use crate::frame_data::timestamps_of;
use crate::frame_data::FrameItem;
use crate::merge::readers_all_ts_ok;
use crate::peek2::Peek2;
use crate::timebase::TS_LIMIT_MICROS;

verus! {

/// How detected features are chosen during fusion: the existing 2D
/// coordinates are passed through unmodified, skipping rows whose
/// coordinates are not finite real numbers.
#[derive(Clone, Copy, PartialEq, Eq, Structural, Debug)]
pub enum FeatureDetectionMethod {
    CopyExisting,
}

/// One video input: its file path and the camera name the configuration
/// assigns to it, if any.
pub struct VideoSourceConfig {
    pub filename: String,
    pub camera_name: Option<String>,
}

/// A video output sink's destination.
pub struct VideoOutputConfig {
    pub filename: String,
}

/// A debug-text output sink's destination.
pub struct DebugOutputConfig {
    pub filename: String,
}

/// An archive output sink's destination.
pub struct BraidzOutputConfig {
    pub filename: String,
}

/// One output sink: a video writer, a debug text writer, or an archive
/// writer.
pub enum OutputConfig {
    Video(VideoOutputConfig),
    DebugTxt(DebugOutputConfig),
    Braidz(BraidzOutputConfig),
}

impl OutputConfig {
    /// The sink's destination path.
    pub fn filename(&self) -> (r: &str)
        ensures
            r@ == match self {
                OutputConfig::Video(v) => v.filename@,
                OutputConfig::DebugTxt(d) => d.filename@,
                OutputConfig::Braidz(b) => b.filename@,
            },
    {
        match self {
            OutputConfig::Video(v) => v.filename.as_str(),
            OutputConfig::DebugTxt(d) => d.filename.as_str(),
            OutputConfig::Braidz(b) => b.filename.as_str(),
        }
    }
}

/// The fusion step's configuration.
pub struct ProcessingConfig {
    pub feature_detection_method: FeatureDetectionMethod,
}

/// The values the reconstruction run consumes: the optional archive
/// path, the video inputs, the optional fixed frame duration and sync
/// threshold (microseconds), the optional cap on output moments, the
/// optional number of leading output moments to skip, the optional
/// logging interval, the fusion configuration, and the output sinks.
pub struct BraidRetrackVideoConfig {
    pub input_braidz: Option<String>,
    pub input_video: Vec<VideoSourceConfig>,
    pub frame_duration_microsecs: Option<u64>,
    pub sync_threshold_microseconds: Option<u64>,
    pub max_num_frames: Option<usize>,
    pub skip_n_first_output_frames: Option<usize>,
    pub log_interval_frames: Option<usize>,
    pub processing_config: ProcessingConfig,
    pub output: Vec<OutputConfig>,
}

impl BraidRetrackVideoConfig {
    /// Whether the output moment at this index is dropped before fusion
    /// because the run skips its first moments.
    pub fn should_skip_frame(&self, out_fno: usize) -> (r: bool)
        ensures
            r == match self.skip_n_first_output_frames {
                Some(n) => out_fno < n,
                None => false,
            },
    {
        match self.skip_n_first_output_frames {
            Some(n) => out_fno < n,
            None => false,
        }
    }

    /// Whether progress is reported at this output moment: every
    /// configured interval, every hundredth moment when unset.
    pub fn should_log_frame(&self, out_fno: usize) -> (r: bool)
        requires
            self.log_interval_frames != Some(0usize),
        ensures
            r == (out_fno as int % (match self.log_interval_frames {
                Some(n) => n as int,
                None => 100int,
            }) == 0),
    {
        let interval = match self.log_interval_frames {
            Some(n) => n,
            None => 100,
        };
        out_fno % interval == 0
    }
}

/// Position just after the last path separator in the first `j` bytes;
/// zero when none occurs.
pub open spec fn dir_split_scan(p: Seq<u8>, j: int) -> int
    decreases j,
{
    if j <= 0 {
        0
    } else if p[j - 1] == '/' as u8 {
        j
    } else {
        dir_split_scan(p, j - 1)
    }
}

/// Where the final path component begins: just after the last separator.
pub open spec fn dir_split(p: Seq<u8>) -> int {
    dir_split_scan(p, p.len() as int)
}

/// The final component's split point stays in range.
pub proof fn lemma_dir_split_scan_bounds(p: Seq<u8>, j: int)
    requires
        0 <= j <= p.len(),
    ensures
        0 <= dir_split_scan(p, j) <= j,
    decreases j,
{
    if j > 0 && p[j - 1] != '/' as u8 {
        lemma_dir_split_scan_bounds(p, j - 1);
    }
}

/// Where a file name's extension begins, scanning the first `j` bytes:
/// the last dot not in leading position; the name's end when there is
/// no such dot (so a lone leading dot marks no extension).
pub open spec fn stem_end_scan(name: Seq<u8>, j: int) -> int
    decreases j,
{
    if j <= 1 {
        name.len() as int
    } else if name[j - 1] == '.' as u8 {
        j - 1
    } else {
        stem_end_scan(name, j - 1)
    }
}

/// Length of a file name's stem: the name up to its extension's dot.
pub open spec fn stem_end(name: Seq<u8>) -> int {
    stem_end_scan(name, name.len() as int)
}

/// The stem never reaches past the name.
pub proof fn lemma_stem_end_scan_bounds(name: Seq<u8>, j: int)
    requires
        0 <= j <= name.len(),
    ensures
        stem_end_scan(name, j) == name.len() || (1 <= stem_end_scan(name, j) < j),
    decreases j,
{
    if j > 1 && name[j - 1] != '.' as u8 {
        lemma_stem_end_scan_bounds(name, j - 1);
    }
}

/// The bytes inserted between a stem and the new extension of a default
/// export name.
pub open spec fn exported_infix() -> Seq<u8> {
    seq![
        '.' as u8,
        'e' as u8,
        'x' as u8,
        'p' as u8,
        'o' as u8,
        'r' as u8,
        't' as u8,
        'e' as u8,
        'd' as u8,
        '.' as u8,
    ]
}

/// The default export name for an input path: the directory part, the
/// final component's stem, then `.exported.` and the new extension.
pub open spec fn spec_default_name(p: Seq<u8>, ext: Seq<u8>) -> Seq<u8> {
    let d = dir_split(p);
    let name = p.skip(d);
    p.take(d) + name.take(stem_end(name)) + exported_infix() + ext
}

/// The output destination for an export: an explicit path is kept, the
/// single byte `-` selects the console (nothing), and without one the
/// input path's name gains `.exported.` and the new extension in place
/// of its old one.
///
/// Paths are byte strings here: the final component follows the last
/// `/`, and its extension follows its last dot, a dot in leading
/// position not counting.
pub fn default_filename(path: &Vec<u8>, output: Option<Vec<u8>>, ext: &Vec<u8>) -> (r: Option<
    Vec<u8>,
>)
    ensures
        match output {
            Some(x) => r == (if x@ =~= seq!['-' as u8] {
                None::<Vec<u8>>
            } else {
                Some(x)
            }),
            None => r is Some && r->0@ == spec_default_name(path@, ext@),
        },
{
    match output {
        Some(x) => {
            if x.len() == 1 && x[0] == ('-' as u8) {
                proof {
                    assert(x@ =~= seq!['-' as u8]);
                }
                None
            } else {
                proof {
                    assert(!(x@ =~= seq!['-' as u8]));
                }
                Some(x)
            }
        },
        None => {
            proof {
                lemma_dir_split_scan_bounds(path@, path@.len() as int);
            }
            // find where the final component begins
            let mut j: usize = path.len();
            let mut d: usize = 0;
            loop
                invariant_except_break
                    j <= path@.len(),
                    dir_split(path@) == dir_split_scan(path@, j as int),
                ensures
                    d as int == dir_split(path@),
                    d <= path@.len(),
                decreases j,
            {
                if j == 0 {
                    d = 0;
                    break ;
                }
                if path[j - 1] == ('/' as u8) {
                    d = j;
                    break ;
                }
                j -= 1;
            }
            // find where the final component's extension begins
            let plen: usize = path.len();
            let name_len: usize = plen - d;
            let ghost name = path@.skip(d as int);
            proof {
                assert(name.len() == name_len);
                assert(forall|i: int| 0 <= i < name.len() ==> #[trigger] name[i] == path@[d + i]);
                lemma_stem_end_scan_bounds(name, name.len() as int);
            }
            let mut k: usize = name_len;
            let mut se: usize = 0;
            loop
                invariant_except_break
                    k <= name_len,
                    name_len == name.len(),
                    name == path@.skip(d as int),
                    plen == path@.len(),
                    d + name_len == plen,
                    d <= plen,
                    stem_end(name) == stem_end_scan(name, k as int),
                ensures
                    se as int == stem_end(name),
                    se <= name_len,
                decreases k,
            {
                if k <= 1 {
                    se = name_len;
                    break ;
                }
                if path[d + k - 1] == ('.' as u8) {
                    proof {
                        assert(name[k - 1] == path@[d + k - 1]);
                    }
                    se = k - 1;
                    break ;
                }
                proof {
                    assert(name[k - 1] == path@[d + k - 1]);
                }
                k -= 1;
            }
            proof {
                if stem_end(name) != name.len() {
                    lemma_stem_end_scan_bounds(name, name.len() as int);
                }
            }
            // assemble: directory, stem, the export infix, the extension
            let mut out: Vec<u8> = Vec::new();
            let mut i: usize = 0;
            while i < d
                invariant
                    i <= d <= path@.len(),
                    out@ =~= path@.take(i as int),
                decreases d - i,
            {
                out.push(path[i]);
                i += 1;
            }
            let ghost dir_part = path@.take(d as int);
            let mut i2: usize = 0;
            while i2 < se
                invariant
                    i2 <= se,
                    se <= name.len(),
                    name == path@.skip(d as int),
                    plen == path@.len(),
                    d + name.len() == plen,
                    d <= plen,
                    dir_part == path@.take(d as int),
                    out@ =~= dir_part + name.take(i2 as int),
                decreases se - i2,
            {
                proof {
                    assert(name[i2 as int] == path@[d + i2]);
                }
                out.push(path[d + i2]);
                i2 += 1;
            }
            let ghost stem_part = name.take(se as int);
            out.push('.' as u8);
            out.push('e' as u8);
            out.push('x' as u8);
            out.push('p' as u8);
            out.push('o' as u8);
            out.push('r' as u8);
            out.push('t' as u8);
            out.push('e' as u8);
            out.push('d' as u8);
            out.push('.' as u8);
            proof {
                assert(out@ =~= dir_part + stem_part + exported_infix());
            }
            let ghost before_ext = out@;
            let mut i3: usize = 0;
            while i3 < ext.len()
                invariant
                    i3 <= ext@.len(),
                    out@ =~= before_ext + ext@.take(i3 as int),
                decreases ext@.len() - i3,
            {
                out.push(ext[i3]);
                i3 += 1;
            }
            proof {
                assert(ext@.take(ext@.len() as int) =~= ext@);
                assert(out@ =~= dir_part + stem_part + exported_infix() + ext@);
                assert(out@ =~= spec_default_name(path@, ext@));
            }
            Some(out)
        },
    }
}

/// The name shown for an optional output destination: the path itself,
/// or the given stand-in (the console, say) when none is set.
pub fn display_filename(p: &Option<String>, default: &str) -> (r: String)
    ensures
        r@ == match p {
            Some(x) => x@,
            None => default@,
        },
{
    match p {
        Some(x) => x.clone(),
        None => default.to_owned(),
    }
}

/// Which merge strategy a run uses, decided once at startup by what the
/// inputs offer.
#[derive(Clone, Copy, PartialEq, Eq, Structural, Debug)]
pub enum MergeModeChoice {
    /// Archive present, no video files: moments come from the archive
    /// alone, with synthesized blank render templates.
    ArchiveOnly,
    /// Archive and video files: the archive drives the timing and video
    /// frames are pulled into its moments.
    ArchiveWithVideo,
    /// Video files only: moments are derived from the videos' own
    /// timestamps.
    FreeRunning,
    /// Neither input was supplied: the run has nothing to do, which is
    /// not an error.
    NothingToDo,
}

/// Choose the merge strategy from the presence of an archive and the
/// number of video inputs.
pub fn select_merge_mode(braidz_present: bool, n_video_sources: usize) -> (r: MergeModeChoice)
    ensures
        r == (if braidz_present && n_video_sources == 0 {
            MergeModeChoice::ArchiveOnly
        } else if braidz_present {
            MergeModeChoice::ArchiveWithVideo
        } else if n_video_sources > 0 {
            MergeModeChoice::FreeRunning
        } else {
            MergeModeChoice::NothingToDo
        }),
{
    if braidz_present && n_video_sources == 0 {
        MergeModeChoice::ArchiveOnly
    } else if braidz_present {
        MergeModeChoice::ArchiveWithVideo
    } else if n_video_sources > 0 {
        MergeModeChoice::FreeRunning
    } else {
        MergeModeChoice::NothingToDo
    }
}

/// The first-to-second-frame delta of one cursor.
pub open spec fn first_delta(r: Peek2<FrameItem>) -> int {
    timestamps_of(r.remaining())[1] - timestamps_of(r.remaining())[0]
}

/// The start time the aligner waits for: the latest of all cameras'
/// nominal start times, so that the slowest-starting camera is ready.
/// Nothing when no camera supplied a start time.
pub fn approx_start_time(frame0_times: &Vec<i64>) -> (r: Option<i64>)
    ensures
        match r {
            None => frame0_times@.len() == 0,
            Some(v) => {
                &&& exists|i: int| 0 <= i < frame0_times@.len() && #[trigger] frame0_times@[i] == v
                &&& forall|i: int|
                    0 <= i < frame0_times@.len() ==> #[trigger] frame0_times@[i] <= v
            },
        },
{
    if frame0_times.len() == 0 {
        return None;
    }
    let mut best = frame0_times[0];
    let mut i: usize = 1;
    while i < frame0_times.len()
        invariant
            1 <= i <= frame0_times@.len(),
            exists|k: int| 0 <= k < i && #[trigger] frame0_times@[k] == best,
            forall|k: int| 0 <= k < i ==> #[trigger] frame0_times@[k] <= best,
        decreases frame0_times@.len() - i,
    {
        let v = frame0_times[i];
        if v > best {
            best = v;
        }
        i += 1;
    }
    Some(best)
}

/// The nominal frame duration in microseconds: the configured value, or
/// the minimum observed first-to-second-frame delta across all camera
/// cursors, a heuristic for the native frame rate.
pub fn resolve_frame_duration(cfg_micros: Option<u64>, readers: &Vec<Peek2<FrameItem>>) -> (r: i64)
    requires
        match cfg_micros {
            Some(x) => x < TS_LIMIT_MICROS as u64,
            None => readers@.len() > 0 && readers_all_ts_ok(readers@) && forall|i: int|
                0 <= i < readers@.len() ==> (#[trigger] readers@[i]).remaining().len() >= 2,
        },
    ensures
        match cfg_micros {
            Some(x) => r == x as i64,
            None => {
                &&& exists|i: int|
                    0 <= i < readers@.len() && r as int == first_delta(#[trigger] readers@[i])
                &&& forall|i: int|
                    0 <= i < readers@.len() ==> r as int <= first_delta(#[trigger] readers@[i])
            },
        },
{
    match cfg_micros {
        Some(x) => x as i64,
        None => {
            let mut best = reader_first_delta(&readers[0]);
            proof {
                assert(best as int == first_delta(readers@[0]));
            }
            let mut i: usize = 1;
            while i < readers.len()
                invariant
                    1 <= i <= readers@.len(),
                    readers_all_ts_ok(readers@),
                    forall|k: int|
                        0 <= k < readers@.len() ==> (#[trigger] readers@[k]).remaining().len()
                            >= 2,
                    exists|k: int| 0 <= k < i && best as int == first_delta(#[trigger] readers@[k]),
                    forall|k: int|
                        0 <= k < i ==> best as int <= first_delta(#[trigger] readers@[k]),
                decreases readers@.len() - i,
            {
                let d = reader_first_delta(&readers[i]);
                proof {
                    assert(d as int == first_delta(readers@[i as int]));
                }
                if d < best {
                    best = d;
                }
                i += 1;
            }
            best
        },
    }
}

/// One cursor's first-to-second-frame delta in microseconds.
fn reader_first_delta(r: &Peek2<FrameItem>) -> (d: i64)
    requires
        r.remaining().len() >= 2,
        crate::frame_data::all_ts_ok(timestamps_of(r.remaining())),
    ensures
        d as int == first_delta(*r),
{
    let t0 = r.item_at(0).timestamp_micros;
    let t1 = r.item_at(1).timestamp_micros;
    proof {
        assert(timestamps_of(r.remaining())[0] == r.remaining()[0].timestamp_micros as int);
        assert(timestamps_of(r.remaining())[1] == r.remaining()[1].timestamp_micros as int);
        assert(crate::timebase::ts_ok(timestamps_of(r.remaining())[0]));
        assert(crate::timebase::ts_ok(timestamps_of(r.remaining())[1]));
    }
    t1 - t0
}

/// The tolerance that decides when two frames belong to the same moment:
/// the configured value, or half the nominal frame duration.
pub fn resolve_sync_threshold(cfg_micros: Option<u64>, frame_duration: i64) -> (r: i64)
    requires
        match cfg_micros {
            Some(x) => x < TS_LIMIT_MICROS as u64,
            None => frame_duration >= 0,
        },
    ensures
        r as int == match cfg_micros {
            Some(x) => x as int,
            None => frame_duration as int / 2,
        },
{
    match cfg_micros {
        Some(x) => x as i64,
        None => frame_duration / 2,
    }
}

} // verus!

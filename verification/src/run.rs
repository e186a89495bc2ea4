use vstd::prelude::*;

use crate::config::FeatureDetectionMethod;
use crate::errors::ProcessError;
use crate::frame_data::image_renderable_check;
use crate::merge::images_renderable;
use crate::merge::MomentSource;
use crate::merge::SyncedPictures;
use crate::render::fusion_output_matches;
use crate::render::gather_frame_data;
use crate::render::CameraSource;
use crate::render::PerCamRenderFrame;

verus! {

/// One fused output moment: its output frame number, the synchronized
/// per-camera bundle, and the per-camera render records fusion produced
/// for it.
pub struct FusedMoment {
    pub out_fno: usize,
    pub synced: SyncedPictures,
    pub frames: Vec<PerCamRenderFrame>,
}

/// In a run of moments whose adjacent timestamps strictly increase, any
/// earlier moment's timestamp lies strictly below any later one's.
proof fn lemma_moments_pairwise_increasing(ms: Seq<SyncedPictures>, a: int, b: int)
    requires
        forall|i: int|
            0 <= i < ms.len() - 1 ==> (#[trigger] ms[i]).timestamp_micros < ms[i
                + 1].timestamp_micros,
        0 <= a < b < ms.len(),
    ensures
        ms[a].timestamp_micros < ms[b].timestamp_micros,
    decreases b - a,
{
    if a + 1 < b {
        lemma_moments_pairwise_increasing(ms, a + 1, b);
    }
}

/// Whether the moment at position `i` of the run is dropped by the
/// leading-skip setting.
pub open spec fn moment_skipped(i: int, skip_n_first_output_frames: Option<usize>) -> bool {
    match skip_n_first_output_frames {
        Some(n) => i < n,
        None => false,
    }
}

/// Fuse a run of synchronized moments with the camera templates,
/// dropping the configured number of leading output moments. Each fused
/// moment keeps its position in the run as its output frame number, so
/// both the output numbers and the timestamps strictly increase. Fusion
/// fails exactly when a moment it must fuse carries an image the
/// encoder cannot take (an inconsistent buffer or a zero dimension).
#[verifier::rlimit(100)]
pub fn fuse_moments(
    moments: Vec<SyncedPictures>,
    sources: &Vec<CameraSource>,
    method: &FeatureDetectionMethod,
    skip_n_first_output_frames: Option<usize>,
) -> (r: Result<Vec<FusedMoment>, ProcessError>)
    requires
        forall|i: int|
            0 <= i < moments@.len() ==> (#[trigger] moments@[i]).camera_pictures@.len()
                == sources@.len(),
        forall|i: int|
            0 <= i < moments@.len() - 1 ==> (#[trigger] moments@[i]).timestamp_micros < moments@[i
                + 1].timestamp_micros,
    ensures
        match r {
            Ok(out) => {
                &&& forall|i: int|
                    0 <= i < out@.len() ==> fusion_output_matches(
                        (#[trigger] out@[i]).synced,
                        sources@,
                        out@[i].frames@,
                    )
                &&& forall|i: int|
                    0 <= i < out@.len() ==> (#[trigger] out@[i]).synced.camera_pictures@.len()
                        == sources@.len()
                &&& forall|i: int|
                    0 <= i < out@.len() - 1 ==> (#[trigger] out@[i]).synced.timestamp_micros
                        < out@[i + 1].synced.timestamp_micros
                &&& forall|i: int|
                    0 <= i < out@.len() - 1 ==> (#[trigger] out@[i]).out_fno < out@[i + 1].out_fno
                &&& forall|i: int|
                    0 <= i < out@.len() ==> (#[trigger] out@[i]).out_fno < moments@.len()
                &&& forall|i: int|
                    0 <= i < out@.len() ==> (match skip_n_first_output_frames {
                        Some(n) => (#[trigger] out@[i]).out_fno >= n,
                        None => true,
                    })
            },
            Err(e) => e == ProcessError::BadImageGeometry && exists|i: int|
                0 <= i < moments@.len() && !moment_skipped(i, skip_n_first_output_frames)
                    && !images_renderable(#[trigger] moments@[i]),
        },
        (forall|i: int|
            0 <= i < moments@.len() && !moment_skipped(i, skip_n_first_output_frames)
                ==> images_renderable(#[trigger] moments@[i])) ==> r is Ok,
{
    let ghost morig = moments@;
    let mut rest = moments;
    let total: usize = rest.len();
    let mut out: Vec<FusedMoment> = Vec::new();
    let mut fno: usize = 0;
    while rest.len() > 0
        invariant
            morig == moments@,
            morig.len() == total,
            forall|i: int|
                0 <= i < morig.len() ==> (#[trigger] morig[i]).camera_pictures@.len()
                    == sources@.len(),
            forall|i: int|
                0 <= i < morig.len() - 1 ==> (#[trigger] morig[i]).timestamp_micros < morig[i
                    + 1].timestamp_micros,
            fno <= morig.len(),
            rest@ =~= morig.skip(fno as int),
            forall|k: int|
                0 <= k < out@.len() ==> fusion_output_matches(
                    (#[trigger] out@[k]).synced,
                    sources@,
                    out@[k].frames@,
                ),
            forall|k: int|
                0 <= k < out@.len() ==> (#[trigger] out@[k]).out_fno < fno && out@[k].synced
                    == morig[out@[k].out_fno as int],
            forall|k: int|
                0 <= k < out@.len() - 1 ==> (#[trigger] out@[k]).out_fno < out@[k + 1].out_fno,
            forall|k: int|
                0 <= k < out@.len() ==> (match skip_n_first_output_frames {
                    Some(n) => (#[trigger] out@[k]).out_fno >= n,
                    None => true,
                }),
        decreases rest@.len(),
    {
        let ghost prev = rest@;
        let m = rest.remove(0);
        proof {
            assert(m == prev[0]);
            assert(m == morig.skip(fno as int)[0]);
            assert(m == morig[fno as int]);
            assert(rest@ =~= prev.skip(1));
            assert(prev.skip(1) =~= morig.skip(fno as int).skip(1));
            assert(morig.skip(fno as int).skip(1) =~= morig.skip(fno as int + 1));
            assert(fno < morig.len());
        }
        let skip = match skip_n_first_output_frames {
            Some(n) => fno < n,
            None => false,
        };
        if !skip {
            // Reject moments whose images the encoder cannot take, with
            // the offending moment as witness.
            let mut j: usize = 0;
            while j < m.camera_pictures.len()
                invariant
                    morig == moments@,
                    m == morig[fno as int],
                    fno < morig.len(),
                    !moment_skipped(fno as int, skip_n_first_output_frames),
                    j <= m.camera_pictures@.len(),
                    forall|p: int|
                        0 <= p < j && (#[trigger] m.camera_pictures@[p]).image is Some
                            ==> m.camera_pictures@[p].image->0.renderable(),
                decreases m.camera_pictures@.len() - j,
            {
                let ok = match &m.camera_pictures[j].image {
                    Some(img) => image_renderable_check(img),
                    None => true,
                };
                if !ok {
                    proof {
                        assert(!images_renderable(morig[fno as int]));
                    }
                    return Err(ProcessError::BadImageGeometry);
                }
                j += 1;
            }
            proof {
                assert(images_renderable(m));
            }
            let frames = match gather_frame_data(&m, sources, method) {
                Ok(f) => f,
                Err(e) => {
                    // unreachable: fusion succeeds on renderable moments
                    proof {
                        assert(false);
                    }
                    return Err(e);
                },
            };
            out.push(FusedMoment { out_fno: fno, synced: m, frames });
        }
        fno += 1;
    }
    proof {
        assert forall|i: int|
            0 <= i < out@.len() - 1 implies (#[trigger] out@[i]).synced.timestamp_micros < out@[i
            + 1].synced.timestamp_micros by {
            lemma_moments_pairwise_increasing(
                morig,
                out@[i].out_fno as int,
                out@[i + 1].out_fno as int,
            );
        }
    }
    Ok(out)
}

/// The moment loop of a run: pull synchronized moments from the chosen
/// merge strategy, up to the configured cap on output moments; drop the
/// configured number of leading output moments; fuse each remaining
/// moment with the camera templates. The loop always succeeds: the
/// merge sources admit only renderable images, so fusion is owed. The
/// fused moments keep strictly increasing timestamps and output frame
/// numbers, and each carries exactly one render record per camera of
/// the roster.
pub fn process_run(
    source: &mut MomentSource,
    sources: &Vec<CameraSource>,
    method: &FeatureDetectionMethod,
    skip_n_first_output_frames: Option<usize>,
    max_num_frames: Option<usize>,
) -> (r: Result<Vec<FusedMoment>, ProcessError>)
    requires
        old(source).wf(),
        old(source).num_cameras() == sources@.len(),
    ensures
        final(source).wf(),
        final(source).num_cameras() == old(source).num_cameras(),
        r is Ok,
        match r {
            Ok(out) => {
                &&& forall|i: int|
                    0 <= i < out@.len() ==> fusion_output_matches(
                        (#[trigger] out@[i]).synced,
                        sources@,
                        out@[i].frames@,
                    )
                &&& forall|i: int|
                    0 <= i < out@.len() ==> (#[trigger] out@[i]).synced.camera_pictures@.len()
                        == sources@.len()
                &&& forall|i: int|
                    0 <= i < out@.len() - 1 ==> (#[trigger] out@[i]).synced.timestamp_micros
                        < out@[i + 1].synced.timestamp_micros
                &&& forall|i: int|
                    0 <= i < out@.len() - 1 ==> (#[trigger] out@[i]).out_fno < out@[i + 1].out_fno
                &&& forall|i: int|
                    0 <= i < out@.len() ==> (match skip_n_first_output_frames {
                        Some(n) => (#[trigger] out@[i]).out_fno >= n,
                        None => true,
                    })
                &&& (match max_num_frames {
                    Some(m) => forall|i: int|
                        0 <= i < out@.len() ==> (#[trigger] out@[i]).out_fno < m,
                    None => true,
                })
            },
            Err(_) => false,
        },
{
    let cap = match max_num_frames {
        Some(m) => m,
        None => usize::MAX,
    };
    let moments = source.collect_moments(cap);
    let ghost n_produced = moments@.len();
    proof {
        assert(n_produced <= cap);
    }
    fuse_moments(moments, sources, method, skip_n_first_output_frames)
}

} // verus!

use vstd::prelude::*;

use crate::data2d::rows_for_cam;
use crate::data2d::ArchiveGroup;
use crate::data2d::Data2dRow;
use crate::errors::ProcessError;
use crate::frame_data::all_ts_ok;
use crate::frame_data::frames_renderable;
use crate::frame_data::image_renderable_check;
use crate::frame_data::sorted_ascending;
use crate::frame_data::timestamps_of;
use crate::frame_data::FrameItem;
use crate::frame_data::ImageValue;
use crate::peek2::Peek2;
use crate::timebase::clock_ok;
use crate::timebase::dist_micros;
use crate::timebase::time_dist;
use crate::timebase::ts_ok;
use crate::timebase::TS_LIMIT_MICROS;

verus! {

/// One camera's contribution to a synchronized moment: the timestamp of
/// this camera's frame (or the moment's own timestamp when the camera
/// has none), the frame's image if one fell inside the tolerance window,
/// and the archive detection rows belonging to this camera at this
/// moment (empty when there are none).
pub struct OutTimepointPerCamera {
    pub timestamp_micros: i64,
    pub image: Option<ImageValue>,
    pub this_cam_this_frame: Vec<Data2dRow>,
}

impl OutTimepointPerCamera {
    /// Bundle one camera's contribution to a moment.
    pub fn new(timestamp_micros: i64, image: Option<ImageValue>, this_cam_this_frame: Vec<
        Data2dRow,
    >) -> (r: Self)
        ensures
            r.timestamp_micros == timestamp_micros,
            r.image == image,
            r.this_cam_this_frame == this_cam_this_frame,
    {
        OutTimepointPerCamera { timestamp_micros, image, this_cam_this_frame }
    }
}

/// Extra information carried by a moment whose timing came from the
/// archive.
#[derive(Clone, Copy, PartialEq, Eq, Structural, Debug)]
pub struct BraidzFrameInfo {
    pub trigger_timestamp_micros: Option<i64>,
}

/// One synchronized moment: a single timestamp plus exactly one
/// per-camera entry per camera of the roster, in roster order, and the
/// archive's frame information when the archive supplied the timing.
pub struct SyncedPictures {
    pub timestamp_micros: i64,
    pub camera_pictures: Vec<OutTimepointPerCamera>,
    pub braidz_info: Option<BraidzFrameInfo>,
}

/// Every image the moment carries can be handed to the PNG encoder.
pub open spec fn images_renderable(m: SyncedPictures) -> bool {
    forall|i: int|
        0 <= i < m.camera_pictures@.len() && (#[trigger] m.camera_pictures@[i]).image is Some
            ==> m.camera_pictures@[i].image->0.renderable()
}

/// How many frames one camera's cursor consumes while the merge selects
/// this camera's frame for the moment at `t` with tolerance `th`.
///
/// Frames already behind the window (`< t - th`) are consumed and
/// dropped; a frame beyond the window is left for a later moment; among
/// frames inside the window, the cursor advances while the next frame is
/// strictly closer to the moment, then consumes the nearest frame as the
/// selected one.
pub open spec fn nearest_take_count(ts: Seq<int>, t: int, th: int) -> int
    decreases ts.len(),
{
    if ts.len() == 0 {
        0
    } else if ts[0] < t - th {
        1 + nearest_take_count(ts.skip(1), t, th)
    } else if time_dist(ts[0], t) > th {
        0
    } else if ts.len() >= 2 && time_dist(ts[1], t) < time_dist(ts[0], t) {
        1 + nearest_take_count(ts.skip(1), t, th)
    } else {
        1
    }
}

/// Whether the merge selects a frame for this camera at moment `t`: it
/// does exactly when the last consumed frame lies inside the window.
pub open spec fn nearest_picks(ts: Seq<int>, t: int, th: int) -> bool {
    let k = nearest_take_count(ts, t, th);
    k > 0 && time_dist(ts[k - 1], t) <= th
}

/// The selection never consumes more frames than the cursor holds.
pub proof fn lemma_nearest_take_count_bounds(ts: Seq<int>, t: int, th: int)
    ensures
        0 <= nearest_take_count(ts, t, th) <= ts.len(),
    decreases ts.len(),
{
    if ts.len() > 0 && (ts[0] < t - th || (time_dist(ts[0], t) <= th && ts.len() >= 2 && time_dist(
        ts[1],
        t,
    ) < time_dist(ts[0], t))) {
        lemma_nearest_take_count_bounds(ts.skip(1), t, th);
    }
}

/// After the selection, no remaining frame lies behind the window: on a
/// cursor in non-decreasing timestamp order, every frame left over is at
/// or after `t - th`.
pub proof fn lemma_nearest_leaves_no_stale(ts: Seq<int>, t: int, th: int)
    requires
        sorted_ascending(ts),
    ensures
        forall|j: int|
            nearest_take_count(ts, t, th) <= j < ts.len() ==> #[trigger] ts[j] >= t - th,
    decreases ts.len(),
{
    if ts.len() == 0 {
    } else if ts[0] < t - th || (time_dist(ts[0], t) <= th && ts.len() >= 2 && time_dist(ts[1], t)
        < time_dist(ts[0], t)) {
        let rest = ts.skip(1);
        assert(forall|i: int, j: int|
            0 <= i < j < rest.len() ==> #[trigger] rest[i] <= #[trigger] rest[j]) by {
            assert(forall|i: int| 0 <= i < rest.len() ==> rest[i] == ts[i + 1]);
        }
        lemma_nearest_leaves_no_stale(rest, t, th);
        let k = nearest_take_count(ts, t, th);
        assert(k == 1 + nearest_take_count(rest, t, th));
        lemma_nearest_take_count_bounds(rest, t, th);
        assert forall|j: int| k <= j < ts.len() implies #[trigger] ts[j] >= t - th by {
            assert(j >= 1);
            assert(rest[j - 1] == ts[j]);
            assert(nearest_take_count(rest, t, th) <= j - 1 < rest.len());
            assert(rest[j - 1] >= t - th);
        }
    } else {
        // Either the first frame is beyond the window (count 0) or it is
        // selected (count 1); all later frames are at or after it.
        assert(ts[0] >= t - th);
    }
}

/// Select this camera's frame for the moment at `t` with tolerance `th`,
/// consuming frames as [`nearest_take_count`] describes: stale frames
/// behind the window are dropped, a frame beyond the window is left
/// unconsumed, and the nearest frame inside the window is consumed and
/// returned.
pub fn take_nearest_within(reader: &mut Peek2<FrameItem>, t: i64, th: i64) -> (r: Option<
    FrameItem,
>)
    requires
        all_ts_ok(timestamps_of(old(reader).remaining())),
        clock_ok(t as int),
        0 <= th < TS_LIMIT_MICROS,
    ensures
        ({
            let ts = timestamps_of(old(reader).remaining());
            let k = nearest_take_count(ts, t as int, th as int);
            &&& final(reader).remaining() == old(reader).remaining().skip(k)
            &&& r == (if nearest_picks(ts, t as int, th as int) {
                Some(old(reader).remaining()[k - 1])
            } else {
                None::<FrameItem>
            })
        }),
{
    let ghost orig = old(reader).remaining();
    let ghost ots = timestamps_of(orig);
    let ghost ti = t as int;
    let ghost thi = th as int;
    let ghost mut k: int = 0;
    proof {
        assert(ots.len() == orig.len());
        assert(orig.skip(0) =~= orig);
        assert(ots.skip(0) =~= ots);
    }
    // Drop frames already behind the window.
    loop
        invariant_except_break
            all_ts_ok(ots),
            ots == timestamps_of(orig),
            ots.len() == orig.len(),
            clock_ok(ti),
            ti == t as int,
            thi == th as int,
            0 <= thi < TS_LIMIT_MICROS as int,
            0 <= k <= ots.len(),
            reader.remaining() == orig.skip(k),
            nearest_take_count(ots, ti, thi) == k + nearest_take_count(ots.skip(k), ti, thi),
            forall|j: int| 0 <= j < k ==> #[trigger] ots[j] < ti - thi,
        ensures
            all_ts_ok(ots),
            ots == timestamps_of(orig),
            ots.len() == orig.len(),
            clock_ok(ti),
            ti == t as int,
            thi == th as int,
            0 <= thi < TS_LIMIT_MICROS as int,
            0 <= k <= ots.len(),
            reader.remaining() == orig.skip(k),
            nearest_take_count(ots, ti, thi) == k + nearest_take_count(ots.skip(k), ti, thi),
            forall|j: int| 0 <= j < k ==> #[trigger] ots[j] < ti - thi,
            k < ots.len() ==> ots[k] >= ti - thi,
        decreases ots.len() - k,
    {
        proof {
            assert(reader.remaining() == orig.skip(k));
            crate::align::lemma_timestamps_skip(orig, k);
            assert(timestamps_of(reader.remaining()) == ots.skip(k));
        }
        let f_ts = match reader.peek1() {
            None => {
                proof {
                    assert(ots.skip(k).len() == 0);
                }
                break ;
            },
            Some(f) => f.timestamp_micros,
        };
        proof {
            assert(orig.skip(k)[0] == orig[k]);
            assert(f_ts as int == ots[k]);
            assert(ts_ok(ots[k]));
        }
        // The subtraction stays in range: |t| and th are bounded.
        if f_ts < t - th {
            reader.next();
            proof {
                assert(nearest_take_count(ots.skip(k), ti, thi) == 1 + nearest_take_count(
                    ots.skip(k).skip(1),
                    ti,
                    thi,
                ));
                assert(ots.skip(k).skip(1) =~= ots.skip(k + 1));
                assert(orig.skip(k).skip(1) =~= orig.skip(k + 1));
                k = k + 1;
            }
        } else {
            break ;
        }
    }
    // Nothing left, or the first frame is beyond the window: no image.
    proof {
        crate::align::lemma_timestamps_skip(orig, k);
    }
    let first_ts = match reader.peek1() {
        None => {
            proof {
                assert(nearest_take_count(ots.skip(k), ti, thi) == 0);
                assert(!nearest_picks(ots, ti, thi)) by {
                    if nearest_take_count(ots, ti, thi) > 0 {
                        assert(ots[k - 1] < ti - thi);
                    }
                }
            }
            return None;
        },
        Some(f) => f.timestamp_micros,
    };
    proof {
        assert(orig.skip(k)[0] == orig[k]);
        assert(first_ts as int == ots[k]);
        assert(ts_ok(ots[k]));
    }
    let mut cur_delta = dist_micros(first_ts, t);
    if cur_delta > th {
        proof {
            assert(nearest_take_count(ots.skip(k), ti, thi) == 0);
            assert(!nearest_picks(ots, ti, thi)) by {
                if nearest_take_count(ots, ti, thi) > 0 {
                    assert(ots[k - 1] < ti - thi);
                }
            }
        }
        return None;
    }
    proof {
        assert(0 <= k < ots.len());
        assert(reader.remaining() == orig.skip(k));
        assert(time_dist(ots[k], ti) <= thi);
        assert(nearest_take_count(ots, ti, thi) == k + nearest_take_count(ots.skip(k), ti, thi));
    }
    // Advance while the next frame is strictly closer to the moment.
    loop
        invariant_except_break
            all_ts_ok(ots),
            ots == timestamps_of(orig),
            ots.len() == orig.len(),
            clock_ok(ti),
            ti == t as int,
            thi == th as int,
            0 <= thi < TS_LIMIT_MICROS as int,
            0 <= k < ots.len(),
            reader.remaining() == orig.skip(k),
            nearest_take_count(ots, ti, thi) == k + nearest_take_count(ots.skip(k), ti, thi),
            time_dist(ots[k], ti) <= thi,
            cur_delta == time_dist(ots[k], ti),
        ensures
            0 <= k < ots.len(),
            reader.remaining() == orig.skip(k),
            time_dist(ots[k], ti) <= thi,
            nearest_take_count(ots, ti, thi) == k + 1,
            nearest_take_count(ots.skip(k), ti, thi) == 1,
        decreases ots.len() - k,
    {
        proof {
            assert(reader.remaining() == orig.skip(k));
            crate::align::lemma_timestamps_skip(orig, k);
        }
        let second_ts = match reader.peek2() {
            None => {
                proof {
                    assert(ots.skip(k).len() == 1);
                    assert(nearest_take_count(ots.skip(k), ti, thi) == 1);
                }
                break ;
            },
            Some(f) => f.timestamp_micros,
        };
        proof {
            assert(orig.skip(k)[1] == orig[k + 1]);
            assert(second_ts as int == ots[k + 1]);
            assert(ts_ok(ots[k + 1]));
            assert(ots.skip(k)[1] == ots[k + 1]);
        }
        let second_delta = dist_micros(second_ts, t);
        if second_delta < cur_delta {
            reader.next();
            proof {
                assert(nearest_take_count(ots.skip(k), ti, thi) == 1 + nearest_take_count(
                    ots.skip(k).skip(1),
                    ti,
                    thi,
                ));
                assert(ots.skip(k).skip(1) =~= ots.skip(k + 1));
                assert(orig.skip(k).skip(1) =~= orig.skip(k + 1));
                k = k + 1;
            }
            cur_delta = second_delta;
        } else {
            proof {
                assert(nearest_take_count(ots.skip(k), ti, thi) == 1);
            }
            break ;
        }
    }
    // Consume and return the selected frame.
    let picked = reader.next();
    proof {
        assert(orig.skip(k)[0] == orig[k]);
        assert(orig.skip(k).skip(1) =~= orig.skip(k + 1));
        assert(nearest_picks(ots, ti, thi));
    }
    picked
}

/// Every cursor of the roster carries in-range timestamps in
/// non-decreasing order, and only renderable images.
pub open spec fn readers_wf(rs: Seq<Peek2<FrameItem>>) -> bool {
    forall|i: int|
        0 <= i < rs.len() ==> all_ts_ok(timestamps_of((#[trigger] rs[i]).remaining()))
            && sorted_ascending(timestamps_of(rs[i].remaining())) && frames_renderable(
            rs[i].remaining(),
        )
}

/// Every upcoming frame of every cursor lies at or after `bound`.
pub open spec fn frames_at_or_after(rs: Seq<Peek2<FrameItem>>, bound: int) -> bool {
    forall|i: int, j: int|
        #![trigger rs[i].remaining()[j]]
        (0 <= i < rs.len() && 0 <= j < rs[i].remaining().len()) ==> rs[i].remaining()[j].timestamp_micros as int >= bound
}

/// `v` is the earliest first-upcoming timestamp over the non-exhausted
/// cursors of the roster.
pub open spec fn is_min_first(rs: Seq<Peek2<FrameItem>>, v: int) -> bool {
    &&& exists|i: int|
        0 <= i < rs.len() && (#[trigger] rs[i]).remaining().len() > 0 && rs[i].remaining()[0].timestamp_micros as int == v
    &&& forall|i: int|
        0 <= i < rs.len() && (#[trigger] rs[i]).remaining().len() > 0
            ==> rs[i].remaining()[0].timestamp_micros as int >= v
}

/// When every camera's cursor, after alignment, has its first upcoming
/// frame within the tolerance of the shared start time, the first
/// free-running moment — the earliest upcoming frame across cameras —
/// also lies within the tolerance of the start: output begins at the
/// slowest-starting camera.
pub proof fn lemma_first_moment_within_threshold(
    rs: Seq<Peek2<FrameItem>>,
    start: int,
    th: int,
    v: int,
)
    requires
        forall|i: int|
            0 <= i < rs.len() && (#[trigger] rs[i]).remaining().len() > 0 ==> time_dist(
                rs[i].remaining()[0].timestamp_micros as int,
                start,
            ) <= th,
        is_min_first(rs, v),
    ensures
        time_dist(v, start) <= th,
{
    let i = choose|i: int|
        0 <= i < rs.len() && (#[trigger] rs[i]).remaining().len() > 0 && rs[i].remaining()[0].timestamp_micros as int == v;
    assert(time_dist(rs[i].remaining()[0].timestamp_micros as int, start) <= th);
}

/// What the free-running merge guarantees of one camera's entry in an
/// emitted moment: the cursor consumed exactly the frames that the
/// selection at moment `t` describes, and the entry carries the selected
/// frame's timestamp and image, or the moment's own timestamp and no
/// image when no frame fell inside the window. Detection rows come only
/// from the archive, so here the entry has none.
pub open spec fn picture_selected(
    before: Peek2<FrameItem>,
    after: Peek2<FrameItem>,
    pic: OutTimepointPerCamera,
    t: i64,
    th: i64,
) -> bool {
    let ts = timestamps_of(before.remaining());
    let k = nearest_take_count(ts, t as int, th as int);
    &&& after.remaining() == before.remaining().skip(k)
    &&& (if nearest_picks(ts, t as int, th as int) {
        pic.timestamp_micros == before.remaining()[k - 1].timestamp_micros && pic.image
            == before.remaining()[k - 1].image
    } else {
        pic.timestamp_micros == t && pic.image is None
    })
    &&& pic.this_cam_this_frame@.len() == 0
}

/// The free-running merge: no archive exists, so moments are derived
/// from the video cursors' own timestamps. Each emitted moment selects,
/// per camera, the frame nearest to the moment inside the tolerance
/// window, and the moment clock then paces forward by one nominal frame
/// duration, whether or not any camera had a frame.
pub struct SyncedIter {
    pub readers: Vec<Peek2<FrameItem>>,
    pub sync_threshold: i64,
    pub frame_duration: i64,
    pub next_ts: Option<i64>,
}

impl SyncedIter {
    /// Every cursor is exhausted: the merge has nothing further to emit.
    pub open spec fn exhausted(&self) -> bool {
        forall|i: int|
            0 <= i < self.readers@.len() ==> (#[trigger] self.readers@[i]).remaining().len() == 0
    }

    /// Well-formedness: the nominal frame duration is positive, the
    /// tolerance and all timestamps are in range, cursors play back
    /// monotonically, and once the moment clock is running no upcoming
    /// frame lies more than a window-plus-duration behind it.
    pub open spec fn wf(&self) -> bool {
        &&& 1 <= self.frame_duration < TS_LIMIT_MICROS
        &&& 0 <= self.sync_threshold < TS_LIMIT_MICROS
        &&& readers_wf(self.readers@)
        &&& match self.next_ts {
            Some(t) => clock_ok(t as int) && frames_at_or_after(
                self.readers@,
                t as int - self.sync_threshold as int - self.frame_duration as int,
            ),
            None => true,
        }
    }

    /// Wrap aligned per-camera cursors for the free-running merge. The
    /// nominal frame duration must be positive and the tolerance
    /// non-negative, both below the supported bound, and each cursor's
    /// timestamps must be in range and in non-decreasing order;
    /// otherwise the offending condition is reported.
    pub fn new(readers: Vec<Peek2<FrameItem>>, sync_threshold: i64, frame_duration: i64) -> (r:
        Result<SyncedIter, ProcessError>)
        ensures
            match r {
                Ok(it) => {
                    &&& 1 <= frame_duration < TS_LIMIT_MICROS
                    &&& 0 <= sync_threshold < TS_LIMIT_MICROS
                    &&& readers_wf(readers@)
                    &&& it == (SyncedIter { readers, sync_threshold, frame_duration, next_ts: None::<i64> })
                    &&& it.wf()
                },
                Err(e) => {
                    &&& !(1 <= frame_duration < TS_LIMIT_MICROS && 0 <= sync_threshold
                        < TS_LIMIT_MICROS && readers_wf(readers@))
                    &&& e == (if frame_duration < 1 {
                        ProcessError::NoFrameTiming
                    } else if !(frame_duration < TS_LIMIT_MICROS && 0 <= sync_threshold
                        < TS_LIMIT_MICROS) {
                        ProcessError::TimestampOutOfRange
                    } else if !readers_all_ts_ok(readers@) {
                        ProcessError::TimestampOutOfRange
                    } else if !readers_sorted(readers@) {
                        ProcessError::UnorderedFrames
                    } else {
                        ProcessError::BadImageGeometry
                    })
                },
            },
    {
        if frame_duration < 1 {
            return Err(ProcessError::NoFrameTiming);
        }
        if !(frame_duration < TS_LIMIT_MICROS && 0 <= sync_threshold && sync_threshold
            < TS_LIMIT_MICROS) {
            return Err(ProcessError::TimestampOutOfRange);
        }
        if !check_readers_ts_ok(&readers) {
            return Err(ProcessError::TimestampOutOfRange);
        }
        if !check_readers_sorted(&readers) {
            return Err(ProcessError::UnorderedFrames);
        }
        if !check_readers_renderable(&readers) {
            return Err(ProcessError::BadImageGeometry);
        }
        Ok(SyncedIter { readers, sync_threshold, frame_duration, next_ts: None })
    }
}

impl SyncedIter {
    /// Produce the next synchronized moment, or nothing once every
    /// camera's cursor is exhausted.
    ///
    /// The moment's timestamp is the previous moment's plus the nominal
    /// frame duration; the first moment starts at the earliest upcoming
    /// frame across cameras. The moment carries exactly one entry per
    /// camera, in roster order; a camera with no frame inside the
    /// tolerance window contributes no image and no detections, never an
    /// error.
    pub fn next_moment(&mut self) -> (r: Option<SyncedPictures>)
        requires
            old(self).wf(),
        ensures
            final(self).wf(),
            final(self).readers@.len() == old(self).readers@.len(),
            final(self).sync_threshold == old(self).sync_threshold,
            final(self).frame_duration == old(self).frame_duration,
            match r {
                None => old(self).exhausted() && *final(self) == *old(self),
                Some(m) => {
                    &&& !old(self).exhausted()
                    &&& m.braidz_info is None
                    &&& images_renderable(m)
                    &&& m.camera_pictures@.len() == old(self).readers@.len()
                    &&& (match old(self).next_ts {
                        Some(t) => m.timestamp_micros == t,
                        None => is_min_first(old(self).readers@, m.timestamp_micros as int),
                    })
                    &&& final(self).next_ts is Some
                    &&& final(self).next_ts->0 as int == m.timestamp_micros as int + old(
                        self,
                    ).frame_duration as int
                    &&& forall|i: int|
                        0 <= i < old(self).readers@.len() ==> picture_selected(
                            #[trigger] old(self).readers@[i],
                            final(self).readers@[i],
                            m.camera_pictures@[i],
                            m.timestamp_micros,
                            old(self).sync_threshold,
                        )
                },
            },
    {
        let ghost orig = old(self).readers@;
        let th = self.sync_threshold;
        let dur = self.frame_duration;
        // Find the earliest upcoming frame across all cameras.
        let mut mn: Option<i64> = None;
        let mut i: usize = 0;
        while i < self.readers.len()
            invariant
                self.readers == old(self).readers,
                self.sync_threshold == old(self).sync_threshold,
                self.frame_duration == old(self).frame_duration,
                self.next_ts == old(self).next_ts,
                orig == old(self).readers@,
                th == old(self).sync_threshold,
                dur == old(self).frame_duration,
                old(self).wf(),
                i <= orig.len(),
                match mn {
                    None => forall|k: int|
                        0 <= k < i ==> (#[trigger] orig[k]).remaining().len() == 0,
                    Some(v) => {
                        &&& ts_ok(v as int)
                        &&& exists|k: int|
                            0 <= k < i && (#[trigger] orig[k]).remaining().len() > 0
                                && orig[k].remaining()[0].timestamp_micros == v
                        &&& forall|k: int|
                            0 <= k < i && (#[trigger] orig[k]).remaining().len() > 0
                                ==> orig[k].remaining()[0].timestamp_micros >= v
                    },
                },
            decreases orig.len() - i,
        {
            proof {
                assert(self.readers@[i as int] == orig[i as int]);
            }
            let first = match self.readers[i].peek1() {
                Some(f) => Some(f.timestamp_micros),
                None => None,
            };
            match first {
                Some(ft) => {
                    proof {
                        assert(all_ts_ok(timestamps_of(orig[i as int].remaining())));
                        assert(timestamps_of(orig[i as int].remaining())[0] == orig[i as int].remaining()[0].timestamp_micros as int);
                        assert(ts_ok(ft as int));
                    }
                    match mn {
                        None => {
                            mn = Some(ft);
                        },
                        Some(v) => {
                            if ft < v {
                                mn = Some(ft);
                            }
                        },
                    }
                },
                None => {},
            }
            i += 1;
        }
        let mn_v = match mn {
            None => {
                return None;
            },
            Some(v) => v,
        };
        let t = match self.next_ts {
            Some(t) => t,
            None => mn_v,
        };
        proof {
            let witness_k = choose|k: int|
                0 <= k < orig.len() && (#[trigger] orig[k]).remaining().len() > 0 && orig[k].remaining()[0].timestamp_micros == mn_v;
            match old(self).next_ts {
                Some(t0) => {
                    assert(orig[witness_k].remaining()[0].timestamp_micros as int >= t0 as int
                        - th as int - dur as int);
                    assert(t as int <= mn_v as int + th as int + dur as int);
                    assert(clock_ok(t as int));
                },
                None => {
                    assert(clock_ok(t as int));
                },
            }
            assert((t as int + dur as int) < 4 * (TS_LIMIT_MICROS as int));
        }
        // Select, per camera in roster order, the nearest frame inside
        // the tolerance window.
        let mut done: Vec<Peek2<FrameItem>> = Vec::new();
        let mut pics: Vec<OutTimepointPerCamera> = Vec::new();
        while self.readers.len() > 0
            invariant
                orig == old(self).readers@,
                th == old(self).sync_threshold,
                dur == old(self).frame_duration,
                self.sync_threshold == th,
                self.frame_duration == dur,
                self.next_ts == old(self).next_ts,
                readers_wf(orig),
                1 <= dur < TS_LIMIT_MICROS,
                0 <= th < TS_LIMIT_MICROS,
                clock_ok(t as int),
                done@.len() == pics@.len(),
                done@.len() + self.readers@.len() == orig.len(),
                self.readers@ =~= orig.skip(done@.len() as int),
                forall|k: int|
                    0 <= k < done@.len() ==> picture_selected(
                        #[trigger] orig[k],
                        done@[k],
                        pics@[k],
                        t,
                        th,
                    ),
                forall|k: int|
                    0 <= k < done@.len() ==> all_ts_ok(
                        timestamps_of((#[trigger] done@[k]).remaining()),
                    ) && sorted_ascending(timestamps_of(done@[k].remaining())),
                forall|k: int, j: int|
                    #![trigger done@[k].remaining()[j]]
                    (0 <= k < done@.len() && 0 <= j < done@[k].remaining().len()) ==> done@[k].remaining()[j].timestamp_micros as int >= t as int - th as int,
                forall|k: int|
                    0 <= k < done@.len() ==> frames_renderable((#[trigger] done@[k]).remaining()),
                forall|k: int|
                    0 <= k < pics@.len() && (#[trigger] pics@[k]).image is Some ==> pics@[k].image->0.renderable(),
            decreases self.readers@.len(),
        {
            let ghost ci = done@.len() as int;
            let ghost prev = self.readers@;
            let mut rd = self.readers.remove(0);
            proof {
                assert(rd == prev[0]);
                assert(rd == orig.skip(ci)[0]);
                assert(rd == orig[ci]);
                assert(self.readers@ =~= prev.skip(1));
                assert(prev.skip(1) =~= orig.skip(ci).skip(1));
                assert(orig.skip(ci).skip(1) =~= orig.skip(ci + 1));
                assert(all_ts_ok(timestamps_of(rd.remaining())));
                assert(sorted_ascending(timestamps_of(rd.remaining())));
                assert(frames_renderable(rd.remaining()));
            }
            let ghost before = rd;
            let picked = take_nearest_within(&mut rd, t, th);
            let pic = match picked {
                Some(f) => OutTimepointPerCamera::new(f.timestamp_micros, f.image, Vec::new()),
                None => OutTimepointPerCamera::new(t, None, Vec::new()),
            };
            proof {
                let ts = timestamps_of(before.remaining());
                let k = nearest_take_count(ts, t as int, th as int);
                lemma_nearest_take_count_bounds(ts, t as int, th as int);
                assert(picture_selected(before, rd, pic, t, th));
                crate::align::lemma_timestamps_skip(before.remaining(), k);
                assert(timestamps_of(rd.remaining()) =~= ts.skip(k));
                crate::frame_data::lemma_all_ts_ok_skip(ts, k);
                crate::frame_data::lemma_sorted_skip(ts, k);
                crate::frame_data::lemma_frames_renderable_skip(before.remaining(), k);
                assert(rd.remaining() == before.remaining().skip(k));
                assert(frames_renderable(rd.remaining()));
                if nearest_picks(ts, t as int, th as int) {
                    assert(pic.image == before.remaining()[k - 1].image);
                    assert(pic.image is Some ==> pic.image->0.renderable());
                }
                lemma_nearest_leaves_no_stale(ts, t as int, th as int);
                assert(all_ts_ok(timestamps_of(rd.remaining())));
                assert(sorted_ascending(timestamps_of(rd.remaining())));
                assert forall|j: int| 0 <= j < rd.remaining().len() implies #[trigger] rd.remaining()[j].timestamp_micros as int
                    >= t as int - th as int by {
                    assert(rd.remaining()[j] == before.remaining()[k + j]);
                    assert(ts[k + j] == before.remaining()[k + j].timestamp_micros as int);
                    assert(ts[k + j] >= t as int - th as int);
                }
            }
            done.push(rd);
            pics.push(pic);
        }
        self.readers = done;
        proof {
            assert((t as int + dur as int) < i64::MAX);
        }
        self.next_ts = Some(t + dur);
        proof {
            assert(readers_wf(self.readers@));
            assert(frames_at_or_after(
                self.readers@,
                (t + dur) as int - th as int - dur as int,
            )) by {
                assert forall|k: int, j: int|
                    #![trigger self.readers@[k].remaining()[j]]
                    (0 <= k < self.readers@.len() && 0 <= j
                        < self.readers@[k].remaining().len()) implies self.readers@[k].remaining()[j].timestamp_micros as int >= (t + dur) as int - th as int
                    - dur as int by {}
            }
            assert(self.wf());
            assert(!old(self).exhausted()) by {
                let witness_k = choose|k: int|
                    0 <= k < orig.len() && (#[trigger] orig[k]).remaining().len() > 0 && orig[k].remaining()[0].timestamp_micros == mn_v;
                assert(orig[witness_k].remaining().len() > 0);
            }
        }
        let moment = SyncedPictures { timestamp_micros: t, camera_pictures: pics, braidz_info: None };
        proof {
            assert(images_renderable(moment));
        }
        Some(moment)
    }
}

/// One camera's slot in the archive-driven merge: the archive camera
/// number when this camera appears in the archive, and the camera's
/// video cursor when a movie file supplies frames for it.
pub struct ArchiveCamSlot {
    pub camn: Option<u32>,
    pub reader: Option<Peek2<FrameItem>>,
}

/// A slot's cursor, when present, carries in-range timestamps in
/// non-decreasing order, and only renderable images.
pub open spec fn slot_wf(s: ArchiveCamSlot) -> bool {
    match s.reader {
        Some(rd) => all_ts_ok(timestamps_of(rd.remaining())) && sorted_ascending(
            timestamps_of(rd.remaining()),
        ) && frames_renderable(rd.remaining()),
        None => true,
    }
}

/// Every slot of the roster is well-formed.
pub open spec fn slots_wf(cs: Seq<ArchiveCamSlot>) -> bool {
    forall|i: int| 0 <= i < cs.len() ==> slot_wf(#[trigger] cs[i])
}

/// The archive's moments are in strictly increasing timestamp order.
pub open spec fn groups_strictly_increasing(gs: Seq<ArchiveGroup>) -> bool {
    forall|i: int, j: int|
        0 <= i < j < gs.len() ==> (#[trigger] gs[i]).timestamp_micros < (#[trigger] gs[j]).timestamp_micros
}

/// Every archive moment's timestamp is in range.
pub open spec fn groups_ts_ok(gs: Seq<ArchiveGroup>) -> bool {
    forall|i: int| 0 <= i < gs.len() ==> ts_ok((#[trigger] gs[i]).timestamp_micros as int)
}

/// What the archive-driven merge guarantees of one camera's entry in an
/// emitted moment: the entry carries exactly the archive rows belonging
/// to this camera's number; when the camera also has a video cursor, the
/// cursor consumed exactly the frames the selection at the moment's
/// trigger timestamp describes, and the entry carries the selected
/// frame, or no image when none fell inside the window.
pub open spec fn archive_picture_ok(
    before: ArchiveCamSlot,
    after: ArchiveCamSlot,
    pic: OutTimepointPerCamera,
    rows: Seq<Data2dRow>,
    t: i64,
    th: i64,
) -> bool {
    &&& after.camn == before.camn
    &&& pic.this_cam_this_frame@ == rows_for_cam(rows, before.camn)
    &&& match before.reader {
        None => after.reader is None && pic.timestamp_micros == t && pic.image is None,
        Some(rd) => {
            let ts = timestamps_of(rd.remaining());
            let k = nearest_take_count(ts, t as int, th as int);
            &&& after.reader is Some
            &&& after.reader->0.remaining() == rd.remaining().skip(k)
            &&& (if nearest_picks(ts, t as int, th as int) {
                pic.timestamp_micros == rd.remaining()[k - 1].timestamp_micros && pic.image
                    == rd.remaining()[k - 1].image
            } else {
                pic.timestamp_micros == t && pic.image is None
            })
        },
    }
}

/// The archive-driven merge: the archive's trigger timestamps are the
/// ground-truth moments. Per moment, each camera contributes its archive
/// detection rows, and, when a matched video cursor exists, the frame
/// whose timestamp lies within the tolerance window of the moment;
/// frames beyond the window are left unconsumed.
pub struct BraidArchiveIter {
    pub groups: Vec<ArchiveGroup>,
    pub gi: usize,
    pub cams: Vec<ArchiveCamSlot>,
    pub sync_threshold: i64,
}

impl BraidArchiveIter {
    /// The archive has no moments left.
    pub open spec fn exhausted(&self) -> bool {
        self.gi == self.groups@.len()
    }

    /// Well-formedness: the cursor index stays inside the archive, the
    /// tolerance and all timestamps are in range, archive moments
    /// strictly increase, and every camera slot is well-formed.
    pub open spec fn wf(&self) -> bool {
        &&& self.gi <= self.groups@.len()
        &&& 0 <= self.sync_threshold < TS_LIMIT_MICROS
        &&& groups_strictly_increasing(self.groups@)
        &&& groups_ts_ok(self.groups@)
        &&& slots_wf(self.cams@)
    }

    /// Wrap the archive's grouped moments and the camera roster for the
    /// archive-driven merge. The tolerance must be in range, the archive
    /// moments strictly increasing with in-range timestamps, and each
    /// slot's cursor in-range and in playback order; otherwise the
    /// offending condition is reported.
    pub fn new(groups: Vec<ArchiveGroup>, cams: Vec<ArchiveCamSlot>, sync_threshold: i64) -> (r:
        Result<BraidArchiveIter, ProcessError>)
        ensures
            match r {
                Ok(it) => {
                    &&& 0 <= sync_threshold < TS_LIMIT_MICROS
                    &&& groups_strictly_increasing(groups@)
                    &&& groups_ts_ok(groups@)
                    &&& slots_wf(cams@)
                    &&& it == (BraidArchiveIter { groups, gi: 0usize, cams, sync_threshold })
                    &&& it.wf()
                },
                Err(e) => {
                    &&& !(0 <= sync_threshold < TS_LIMIT_MICROS && groups_strictly_increasing(
                        groups@,
                    ) && groups_ts_ok(groups@) && slots_wf(cams@))
                    &&& e == (if !(0 <= sync_threshold < TS_LIMIT_MICROS) {
                        ProcessError::TimestampOutOfRange
                    } else if !groups_ts_ok(groups@) {
                        ProcessError::TimestampOutOfRange
                    } else if !groups_strictly_increasing(groups@) {
                        ProcessError::UnorderedArchive
                    } else if !slots_all_ts_ok(cams@) {
                        ProcessError::TimestampOutOfRange
                    } else if !slots_sorted(cams@) {
                        ProcessError::UnorderedFrames
                    } else {
                        ProcessError::BadImageGeometry
                    })
                },
            },
    {
        if !(0 <= sync_threshold && sync_threshold < TS_LIMIT_MICROS) {
            return Err(ProcessError::TimestampOutOfRange);
        }
        if !check_groups_ts_ok(&groups) {
            return Err(ProcessError::TimestampOutOfRange);
        }
        if !check_groups_increasing(&groups) {
            return Err(ProcessError::UnorderedArchive);
        }
        if !check_slots_ts_ok(&cams) {
            return Err(ProcessError::TimestampOutOfRange);
        }
        if !check_slots_sorted(&cams) {
            return Err(ProcessError::UnorderedFrames);
        }
        if !check_slots_renderable(&cams) {
            return Err(ProcessError::BadImageGeometry);
        }
        Ok(BraidArchiveIter { groups, gi: 0, cams, sync_threshold })
    }

    /// Produce the next synchronized moment from the archive, or nothing
    /// once the archive is exhausted.
    ///
    /// The moment takes the archive's timestamp and carries its trigger
    /// timestamp; each camera contributes its archive rows and, when a
    /// video cursor exists, the nearest frame inside the tolerance
    /// window. A camera with nothing at this moment contributes an empty
    /// entry, never an error.
    pub fn next_moment(&mut self) -> (r: Option<SyncedPictures>)
        requires
            old(self).wf(),
        ensures
            final(self).wf(),
            final(self).groups == old(self).groups,
            final(self).cams@.len() == old(self).cams@.len(),
            final(self).sync_threshold == old(self).sync_threshold,
            match r {
                None => old(self).exhausted() && *final(self) == *old(self),
                Some(m) => {
                    &&& !old(self).exhausted()
                    &&& final(self).gi == old(self).gi + 1
                    &&& m.timestamp_micros == old(self).groups@[old(self).gi as int].timestamp_micros
                    &&& m.braidz_info == Some(
                        BraidzFrameInfo {
                            trigger_timestamp_micros: old(self).groups@[old(
                                self,
                            ).gi as int].trigger_timestamp_micros,
                        },
                    )
                    &&& images_renderable(m)
                    &&& m.camera_pictures@.len() == old(self).cams@.len()
                    &&& forall|i: int|
                        0 <= i < old(self).cams@.len() ==> archive_picture_ok(
                            #[trigger] old(self).cams@[i],
                            final(self).cams@[i],
                            m.camera_pictures@[i],
                            old(self).groups@[old(self).gi as int].rows@,
                            m.timestamp_micros,
                            old(self).sync_threshold,
                        )
                },
            },
    {
        if self.gi >= self.groups.len() {
            return None;
        }
        let ghost orig_cams = old(self).cams@;
        let ghost g0 = self.groups@[self.gi as int];
        let gi = self.gi;
        let th = self.sync_threshold;
        let t = self.groups[gi].timestamp_micros;
        let trig = self.groups[gi].trigger_timestamp_micros;
        proof {
            assert(ts_ok(t as int));
        }
        let mut done: Vec<ArchiveCamSlot> = Vec::new();
        let mut pics: Vec<OutTimepointPerCamera> = Vec::new();
        while self.cams.len() > 0
            invariant
                orig_cams == old(self).cams@,
                self.groups == old(self).groups,
                self.gi == gi,
                gi == old(self).gi,
                gi < self.groups@.len(),
                g0 == self.groups@[gi as int],
                t == g0.timestamp_micros,
                th == old(self).sync_threshold,
                self.sync_threshold == th,
                0 <= th < TS_LIMIT_MICROS,
                ts_ok(t as int),
                slots_wf(orig_cams),
                done@.len() == pics@.len(),
                done@.len() + self.cams@.len() == orig_cams.len(),
                self.cams@ =~= orig_cams.skip(done@.len() as int),
                slots_wf(done@),
                forall|k: int|
                    0 <= k < pics@.len() && (#[trigger] pics@[k]).image is Some ==> pics@[k].image->0.renderable(),
                forall|k: int|
                    0 <= k < done@.len() ==> archive_picture_ok(
                        #[trigger] orig_cams[k],
                        done@[k],
                        pics@[k],
                        g0.rows@,
                        t,
                        th,
                    ),
            decreases self.cams@.len(),
        {
            let ghost ci = done@.len() as int;
            let ghost prev = self.cams@;
            let slot = self.cams.remove(0);
            proof {
                assert(slot == prev[0]);
                assert(slot == orig_cams.skip(ci)[0]);
                assert(slot == orig_cams[ci]);
                assert(self.cams@ =~= prev.skip(1));
                assert(prev.skip(1) =~= orig_cams.skip(ci).skip(1));
                assert(orig_cams.skip(ci).skip(1) =~= orig_cams.skip(ci + 1));
                assert(slot_wf(slot));
            }
            let rows = crate::data2d::filter_rows_for_cam(&self.groups[gi].rows, slot.camn);
            let (new_slot, pic) = match slot.reader {
                None => {
                    (
                        ArchiveCamSlot { camn: slot.camn, reader: None },
                        OutTimepointPerCamera::new(t, None, rows),
                    )
                },
                Some(mut rd) => {
                    let ghost before = rd;
                    let picked = take_nearest_within(&mut rd, t, th);
                    let pic = match picked {
                        Some(f) => OutTimepointPerCamera::new(f.timestamp_micros, f.image, rows),
                        None => OutTimepointPerCamera::new(t, None, rows),
                    };
                    proof {
                        let ts = timestamps_of(before.remaining());
                        let k = nearest_take_count(ts, t as int, th as int);
                        lemma_nearest_take_count_bounds(ts, t as int, th as int);
                        crate::align::lemma_timestamps_skip(before.remaining(), k);
                        crate::frame_data::lemma_all_ts_ok_skip(ts, k);
                        crate::frame_data::lemma_sorted_skip(ts, k);
                        crate::frame_data::lemma_frames_renderable_skip(before.remaining(), k);
                        assert(timestamps_of(rd.remaining()) =~= ts.skip(k));
                        assert(rd.remaining() == before.remaining().skip(k));
                        assert(frames_renderable(rd.remaining()));
                        if nearest_picks(ts, t as int, th as int) {
                            assert(pic.image == before.remaining()[k - 1].image);
                            assert(pic.image is Some ==> pic.image->0.renderable());
                        }
                    }
                    (ArchiveCamSlot { camn: slot.camn, reader: Some(rd) }, pic)
                },
            };
            proof {
                assert(archive_picture_ok(orig_cams[ci], new_slot, pic, g0.rows@, t, th));
                assert(slot_wf(new_slot));
            }
            done.push(new_slot);
            pics.push(pic);
        }
        self.cams = done;
        self.gi = gi + 1;
        let moment = SyncedPictures {
            timestamp_micros: t,
            camera_pictures: pics,
            braidz_info: Some(BraidzFrameInfo { trigger_timestamp_micros: trig }),
        };
        proof {
            assert(images_renderable(moment));
        }
        Some(moment)
    }
}

/// Every slot's cursor, when present, carries in-range timestamps.
pub open spec fn slots_all_ts_ok(cs: Seq<ArchiveCamSlot>) -> bool {
    forall|i: int|
        0 <= i < cs.len() ==> match (#[trigger] cs[i]).reader {
            Some(rd) => all_ts_ok(timestamps_of(rd.remaining())),
            None => true,
        }
}

/// Every slot's cursor, when present, plays back in non-decreasing
/// order.
pub open spec fn slots_sorted(cs: Seq<ArchiveCamSlot>) -> bool {
    forall|i: int|
        0 <= i < cs.len() ==> match (#[trigger] cs[i]).reader {
            Some(rd) => sorted_ascending(timestamps_of(rd.remaining())),
            None => true,
        }
}

/// Every slot's cursor, when present, carries only renderable images.
pub open spec fn slots_renderable(cs: Seq<ArchiveCamSlot>) -> bool {
    forall|i: int|
        0 <= i < cs.len() ==> match (#[trigger] cs[i]).reader {
            Some(rd) => frames_renderable(rd.remaining()),
            None => true,
        }
}

/// Check every slot's cursor carries only renderable images.
fn check_slots_renderable(cs: &Vec<ArchiveCamSlot>) -> (b: bool)
    ensures
        b == slots_renderable(cs@),
{
    let mut i: usize = 0;
    while i < cs.len()
        invariant
            i <= cs@.len(),
            forall|k: int|
                0 <= k < i ==> match (#[trigger] cs@[k]).reader {
                    Some(rd) => frames_renderable(rd.remaining()),
                    None => true,
                },
        decreases cs@.len() - i,
    {
        let ok = match &cs[i].reader {
            Some(rd) => check_reader_renderable(rd),
            None => true,
        };
        if !ok {
            return false;
        }
        i += 1;
    }
    true
}

/// Check that every archive moment's timestamp is in range.
fn check_groups_ts_ok(gs: &Vec<ArchiveGroup>) -> (b: bool)
    ensures
        b == groups_ts_ok(gs@),
{
    let mut i: usize = 0;
    while i < gs.len()
        invariant
            i <= gs@.len(),
            forall|k: int| 0 <= k < i ==> ts_ok((#[trigger] gs@[k]).timestamp_micros as int),
        decreases gs@.len() - i,
    {
        let ts = gs[i].timestamp_micros;
        if !(-TS_LIMIT_MICROS < ts && ts < TS_LIMIT_MICROS) {
            return false;
        }
        i += 1;
    }
    true
}

/// Check that the archive's moments strictly increase in timestamp.
fn check_groups_increasing(gs: &Vec<ArchiveGroup>) -> (b: bool)
    ensures
        b == groups_strictly_increasing(gs@),
{
    if gs.len() == 0 {
        return true;
    }
    let mut i: usize = 1;
    while i < gs.len()
        invariant
            1 <= i <= gs@.len(),
            forall|k: int|
                0 <= k < i - 1 ==> (#[trigger] gs@[k]).timestamp_micros < gs@[k
                    + 1].timestamp_micros,
        decreases gs@.len() - i,
    {
        if gs[i - 1].timestamp_micros >= gs[i].timestamp_micros {
            proof {
                assert(!groups_strictly_increasing(gs@)) by {
                    assert(gs@[i - 1].timestamp_micros >= gs@[i as int].timestamp_micros);
                }
            }
            return false;
        }
        i += 1;
    }
    proof {
        let tss = gs@.map_values(|g: ArchiveGroup| g.timestamp_micros as int);
        assert forall|p: int, q: int| 0 <= p < q < gs@.len() implies (#[trigger] gs@[p]).timestamp_micros
            < (#[trigger] gs@[q]).timestamp_micros by {
            assert(forall|k: int| 0 <= k < tss.len() ==> #[trigger] tss[k] == gs@[k].timestamp_micros as int);
            assert(forall|k: int| 0 <= k < tss.len() - 1 ==> #[trigger] tss[k] < tss[k + 1]);
            assert(forall|k: int| 0 <= k < tss.len() - 1 ==> #[trigger] tss[k] <= tss[k + 1]);
            crate::frame_data::lemma_adjacent_le(tss, p + 1, q);
            assert(tss[p] < tss[p + 1]);
        }
    }
    true
}

/// Check every slot's cursor timestamps are in range.
fn check_slots_ts_ok(cs: &Vec<ArchiveCamSlot>) -> (b: bool)
    ensures
        b == slots_all_ts_ok(cs@),
{
    let mut i: usize = 0;
    while i < cs.len()
        invariant
            i <= cs@.len(),
            forall|k: int|
                0 <= k < i ==> match (#[trigger] cs@[k]).reader {
                    Some(rd) => all_ts_ok(timestamps_of(rd.remaining())),
                    None => true,
                },
        decreases cs@.len() - i,
    {
        let ok = match &cs[i].reader {
            Some(rd) => check_reader_ts_ok(rd),
            None => true,
        };
        if !ok {
            return false;
        }
        i += 1;
    }
    true
}

/// Check every slot's cursor plays back in non-decreasing order.
fn check_slots_sorted(cs: &Vec<ArchiveCamSlot>) -> (b: bool)
    ensures
        b == slots_sorted(cs@),
{
    let mut i: usize = 0;
    while i < cs.len()
        invariant
            i <= cs@.len(),
            forall|k: int|
                0 <= k < i ==> match (#[trigger] cs@[k]).reader {
                    Some(rd) => sorted_ascending(timestamps_of(rd.remaining())),
                    None => true,
                },
        decreases cs@.len() - i,
    {
        let ok = match &cs[i].reader {
            Some(rd) => check_reader_sorted(rd),
            None => true,
        };
        if !ok {
            return false;
        }
        i += 1;
    }
    true
}

/// Every cursor of the roster carries in-range timestamps.
pub open spec fn readers_all_ts_ok(rs: Seq<Peek2<FrameItem>>) -> bool {
    forall|i: int| 0 <= i < rs.len() ==> all_ts_ok(timestamps_of((#[trigger] rs[i]).remaining()))
}

/// Every cursor of the roster plays back in non-decreasing order.
pub open spec fn readers_sorted(rs: Seq<Peek2<FrameItem>>) -> bool {
    forall|i: int|
        0 <= i < rs.len() ==> sorted_ascending(timestamps_of((#[trigger] rs[i]).remaining()))
}

/// Every cursor of the roster carries only renderable images.
pub open spec fn readers_renderable(rs: Seq<Peek2<FrameItem>>) -> bool {
    forall|i: int| 0 <= i < rs.len() ==> frames_renderable((#[trigger] rs[i]).remaining())
}

/// Check that one cursor carries only renderable images.
fn check_reader_renderable(r: &Peek2<FrameItem>) -> (b: bool)
    ensures
        b == frames_renderable(r.remaining()),
{
    let n = r.len();
    let mut j: usize = 0;
    while j < n
        invariant
            n == r.remaining().len(),
            j <= n,
            forall|i: int|
                0 <= i < j && (#[trigger] r.remaining()[i]).image is Some
                    ==> r.remaining()[i].image->0.renderable(),
        decreases n - j,
    {
        let f = r.item_at(j);
        let ok = match &f.image {
            Some(img) => image_renderable_check(img),
            None => true,
        };
        if !ok {
            return false;
        }
        j += 1;
    }
    true
}

/// Check every cursor of the roster carries only renderable images.
fn check_readers_renderable(rs: &Vec<Peek2<FrameItem>>) -> (b: bool)
    ensures
        b == readers_renderable(rs@),
{
    let mut i: usize = 0;
    while i < rs.len()
        invariant
            i <= rs@.len(),
            forall|k: int| 0 <= k < i ==> frames_renderable((#[trigger] rs@[k]).remaining()),
        decreases rs@.len() - i,
    {
        if !check_reader_renderable(&rs[i]) {
            return false;
        }
        i += 1;
    }
    true
}

/// Check that one cursor's timestamps are all in range.
fn check_reader_ts_ok(r: &Peek2<FrameItem>) -> (b: bool)
    ensures
        b == all_ts_ok(timestamps_of(r.remaining())),
{
    let ghost ts = timestamps_of(r.remaining());
    let n = r.len();
    let mut j: usize = 0;
    while j < n
        invariant
            ts == timestamps_of(r.remaining()),
            n == r.remaining().len(),
            j <= n,
            forall|i: int| 0 <= i < j ==> ts_ok(#[trigger] ts[i]),
        decreases n - j,
    {
        let f = r.item_at(j);
        proof {
            assert(ts[j as int] == r.remaining()[j as int].timestamp_micros as int);
        }
        if !(-TS_LIMIT_MICROS < f.timestamp_micros && f.timestamp_micros < TS_LIMIT_MICROS) {
            proof {
                assert(!ts_ok(ts[j as int]));
            }
            return false;
        }
        j += 1;
    }
    true
}

/// Check that one cursor's timestamps never decrease.
fn check_reader_sorted(r: &Peek2<FrameItem>) -> (b: bool)
    ensures
        b == sorted_ascending(timestamps_of(r.remaining())),
{
    let ghost ts = timestamps_of(r.remaining());
    let n = r.len();
    if n == 0 {
        return true;
    }
    let mut j: usize = 1;
    while j < n
        invariant
            ts == timestamps_of(r.remaining()),
            n == r.remaining().len(),
            1 <= j <= n,
            forall|k: int| 0 <= k < j - 1 ==> #[trigger] ts[k] <= ts[k + 1],
        decreases n - j,
    {
        let a = r.item_at(j - 1).timestamp_micros;
        let b = r.item_at(j).timestamp_micros;
        proof {
            assert(ts[j - 1] == r.remaining()[j - 1].timestamp_micros as int);
            assert(ts[j as int] == r.remaining()[j as int].timestamp_micros as int);
        }
        if a > b {
            proof {
                assert(!sorted_ascending(ts)) by {
                    assert(ts[j - 1] > ts[j as int]);
                }
            }
            return false;
        }
        j += 1;
    }
    proof {
        assert forall|p: int, q: int| 0 <= p < q < ts.len() implies #[trigger] ts[p]
            <= #[trigger] ts[q] by {
            crate::frame_data::lemma_adjacent_le(ts, p, q);
        }
    }
    true
}

/// Check every cursor's timestamps are in range.
fn check_readers_ts_ok(rs: &Vec<Peek2<FrameItem>>) -> (b: bool)
    ensures
        b == readers_all_ts_ok(rs@),
{
    let mut i: usize = 0;
    while i < rs.len()
        invariant
            i <= rs@.len(),
            forall|k: int|
                0 <= k < i ==> all_ts_ok(timestamps_of((#[trigger] rs@[k]).remaining())),
        decreases rs@.len() - i,
    {
        if !check_reader_ts_ok(&rs[i]) {
            return false;
        }
        i += 1;
    }
    true
}

/// Check every cursor plays back in non-decreasing order.
fn check_readers_sorted(rs: &Vec<Peek2<FrameItem>>) -> (b: bool)
    ensures
        b == readers_sorted(rs@),
{
    let mut i: usize = 0;
    while i < rs.len()
        invariant
            i <= rs@.len(),
            forall|k: int|
                0 <= k < i ==> sorted_ascending(timestamps_of((#[trigger] rs@[k]).remaining())),
        decreases rs@.len() - i,
    {
        if !check_reader_sorted(&rs[i]) {
            return false;
        }
        i += 1;
    }
    true
}


/// The moment producer, chosen once at startup: archive-driven when an
/// archive supplies the timing, free-running when only video files
/// exist.
pub enum MomentSource {
    ArchiveDriven(BraidArchiveIter),
    FreeRunning(SyncedIter),
}

impl MomentSource {
    /// The chosen producer is well-formed.
    pub open spec fn wf(&self) -> bool {
        match self {
            MomentSource::ArchiveDriven(a) => a.wf(),
            MomentSource::FreeRunning(s) => s.wf(),
        }
    }

    /// How many cameras the roster has: every emitted moment carries
    /// exactly this many per-camera entries.
    pub open spec fn num_cameras(&self) -> int {
        match self {
            MomentSource::ArchiveDriven(a) => a.cams@.len() as int,
            MomentSource::FreeRunning(s) => s.readers@.len() as int,
        }
    }

    /// Nothing is left to emit.
    pub open spec fn exhausted(&self) -> bool {
        match self {
            MomentSource::ArchiveDriven(a) => a.exhausted(),
            MomentSource::FreeRunning(s) => s.exhausted(),
        }
    }

    /// A lower bound on the next emitted moment's timestamp, when the
    /// producer has one pinned down.
    pub open spec fn next_lower_bound(&self) -> Option<int> {
        match self {
            MomentSource::ArchiveDriven(a) => if a.gi < a.groups@.len() {
                Some(a.groups@[a.gi as int].timestamp_micros as int)
            } else {
                None
            },
            MomentSource::FreeRunning(s) => match s.next_ts {
                Some(t) => Some(t as int),
                None => None,
            },
        }
    }

    /// Produce the next synchronized moment, or nothing once the inputs
    /// are exhausted. Every moment carries one entry per camera, and
    /// later moments carry strictly larger timestamps.
    pub fn next_moment(&mut self) -> (r: Option<SyncedPictures>)
        requires
            old(self).wf(),
        ensures
            final(self).wf(),
            final(self).num_cameras() == old(self).num_cameras(),
            match r {
                None => old(self).exhausted() && *final(self) == *old(self),
                Some(m) => {
                    &&& !old(self).exhausted()
                    &&& m.camera_pictures@.len() == old(self).num_cameras()
                    &&& images_renderable(m)
                    &&& (match old(self).next_lower_bound() {
                        Some(b) => m.timestamp_micros as int >= b,
                        None => true,
                    })
                    &&& (final(self).exhausted() || (final(self).next_lower_bound() is Some
                        && final(self).next_lower_bound()->0 > m.timestamp_micros as int))
                    &&& (match *old(self) {
                        MomentSource::ArchiveDriven(_) => m.braidz_info is Some,
                        MomentSource::FreeRunning(_) => m.braidz_info is None,
                    })
                },
            },
    {
        match self {
            MomentSource::ArchiveDriven(a) => {
                let ghost a0 = *a;
                let r = a.next_moment();
                proof {
                    if r is Some {
                        if a.gi < a.groups@.len() {
                            assert(a0.groups@[a0.gi as int].timestamp_micros < a.groups@[a.gi as int].timestamp_micros);
                        }
                    }
                }
                r
            },
            MomentSource::FreeRunning(s) => {
                let r = s.next_moment();
                r
            },
        }
    }

    /// Produce up to `max` synchronized moments, in order.
    ///
    /// Every emitted moment has exactly one per-camera entry per camera
    /// of the roster, in roster order, and the emitted timestamps are
    /// strictly increasing. Fewer than `max` moments come back only when
    /// the inputs are exhausted.
    pub fn collect_moments(&mut self, max: usize) -> (r: Vec<SyncedPictures>)
        requires
            old(self).wf(),
        ensures
            final(self).wf(),
            final(self).num_cameras() == old(self).num_cameras(),
            r@.len() <= max,
            r@.len() < max ==> final(self).exhausted(),
            forall|i: int|
                0 <= i < r@.len() ==> (#[trigger] r@[i]).camera_pictures@.len() == old(
                    self,
                ).num_cameras(),
            forall|i: int| 0 <= i < r@.len() ==> images_renderable(#[trigger] r@[i]),
            forall|i: int|
                0 <= i < r@.len() - 1 ==> (#[trigger] r@[i]).timestamp_micros < r@[i
                    + 1].timestamp_micros,
    {
        let mut out: Vec<SyncedPictures> = Vec::new();
        while out.len() < max
            invariant_except_break
                self.wf(),
                self.num_cameras() == old(self).num_cameras(),
                out@.len() <= max,
                forall|i: int|
                    0 <= i < out@.len() ==> (#[trigger] out@[i]).camera_pictures@.len() == old(
                        self,
                    ).num_cameras(),
                forall|i: int| 0 <= i < out@.len() ==> images_renderable(#[trigger] out@[i]),
                forall|i: int|
                    0 <= i < out@.len() - 1 ==> (#[trigger] out@[i]).timestamp_micros < out@[i
                        + 1].timestamp_micros,
                out@.len() > 0 ==> (self.exhausted() || (self.next_lower_bound() is Some
                    && self.next_lower_bound()->0 > out@[out@.len() - 1].timestamp_micros as int)),
            ensures
                self.wf(),
                self.num_cameras() == old(self).num_cameras(),
                out@.len() <= max,
                out@.len() == max || self.exhausted(),
                forall|i: int|
                    0 <= i < out@.len() ==> (#[trigger] out@[i]).camera_pictures@.len() == old(
                        self,
                    ).num_cameras(),
                forall|i: int| 0 <= i < out@.len() ==> images_renderable(#[trigger] out@[i]),
                forall|i: int|
                    0 <= i < out@.len() - 1 ==> (#[trigger] out@[i]).timestamp_micros < out@[i
                        + 1].timestamp_micros,
            decreases max - out@.len(),
        {
            let ghost prev_out = out@;
            match self.next_moment() {
                None => {
                    break ;
                },
                Some(m) => {
                    out.push(m);
                    proof {
                        assert(out@ =~= prev_out.push(m));
                        assert forall|i: int|
                            0 <= i < out@.len() - 1 implies (#[trigger] out@[i]).timestamp_micros
                            < out@[i + 1].timestamp_micros by {
                            if i < prev_out.len() - 1 {
                                assert(out@[i] == prev_out[i]);
                                assert(out@[i + 1] == prev_out[i + 1]);
                            } else {
                                assert(out@[i] == prev_out[prev_out.len() - 1]);
                                assert(out@[i + 1] == m);
                            }
                        }
                    }
                },
            }
        }
        out
    }
}

} // verus!


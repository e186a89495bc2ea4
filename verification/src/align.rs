use vstd::prelude::*;

use crate::frame_data::all_ts_ok;
use crate::frame_data::sorted_ascending;
use crate::frame_data::timestamps_of;
use crate::frame_data::FrameItem;
use crate::peek2::Peek2;
use crate::timebase::dist_micros;
use crate::timebase::time_dist;
use crate::timebase::ts_ok;

verus! {

/// How many leading frames the startup aligner drops from a cursor with
/// the given upcoming timestamps, for the given target start time.
///
/// A cursor whose first frame is already at or after the target is left
/// alone. Otherwise the cursor advances while the second upcoming frame
/// is still before the target; once the second frame reaches the target,
/// whichever of the two straddling frames is closer to the target is
/// kept, the earlier one on a tie. A single remaining frame still before
/// the target is dropped, leaving the cursor exhausted.
pub open spec fn aligned_skip(ts: Seq<int>, target: int) -> int
    decreases ts.len(),
{
    if ts.len() == 0 {
        0
    } else if ts[0] >= target {
        0
    } else if ts.len() == 1 {
        1
    } else if ts[1] >= target {
        if time_dist(ts[0], target) <= time_dist(ts[1], target) {
            0
        } else {
            1
        }
    } else {
        1 + aligned_skip(ts.skip(1), target)
    }
}

/// The aligner never drops more frames than the cursor holds.
pub proof fn lemma_aligned_skip_bounds(ts: Seq<int>, target: int)
    ensures
        0 <= aligned_skip(ts, target) <= ts.len(),
    decreases ts.len(),
{
    if ts.len() > 1 && ts[0] < target && ts[1] < target {
        lemma_aligned_skip_bounds(ts.skip(1), target);
    }
}

/// Startup-aligner idempotence: running the aligner on a cursor it has
/// already aligned drops nothing further. In particular, a cursor whose
/// first upcoming frame is already at or after the target start time is
/// left unchanged.
pub proof fn lemma_align_idempotent(ts: Seq<int>, target: int)
    ensures
        aligned_skip(ts.skip(aligned_skip(ts, target)), target) == 0,
    decreases ts.len(),
{
    lemma_aligned_skip_bounds(ts, target);
    let k = aligned_skip(ts, target);
    if ts.len() == 0 {
        assert(ts.skip(0) =~= ts);
    } else if ts[0] >= target {
        assert(ts.skip(0) =~= ts);
    } else if ts.len() == 1 {
        assert(ts.skip(1).len() == 0);
    } else if ts[1] >= target {
        if time_dist(ts[0], target) <= time_dist(ts[1], target) {
            assert(ts.skip(0) =~= ts);
        } else {
            assert(ts.skip(1)[0] == ts[1]);
        }
    } else {
        lemma_align_idempotent(ts.skip(1), target);
        let k1 = aligned_skip(ts.skip(1), target);
        lemma_aligned_skip_bounds(ts.skip(1), target);
        assert(ts.skip(1).skip(k1) =~= ts.skip(1 + k1));
        assert(k == 1 + k1);
    }
}

/// Startup-aligner closest-match law: when the upcoming frames straddle
/// the target start time - every frame before position `j` lies before
/// the target and the frame at `j` lies at or after it - the aligner
/// advances to the straddling frame with the strictly smaller absolute
/// distance to the target, keeping the earlier frame on an exact tie.
pub proof fn lemma_align_closest_match(ts: Seq<int>, target: int, j: int)
    requires
        0 < j < ts.len(),
        forall|i: int| 0 <= i < j ==> #[trigger] ts[i] < target,
        ts[j] >= target,
    ensures
        aligned_skip(ts, target) == if time_dist(ts[j], target) < time_dist(ts[j - 1], target) {
            j
        } else {
            j - 1
        },
    decreases j,
{
    if j == 1 {
    } else {
        let rest = ts.skip(1);
        assert(rest.len() == ts.len() - 1);
        assert(forall|i: int| 0 <= i < j - 1 ==> #[trigger] rest[i] == ts[i + 1]);
        assert(rest[j - 1] == ts[j]);
        lemma_align_closest_match(rest, target, j - 1);
        assert(rest[j - 2] == ts[j - 1]);
    }
}

/// On a cursor in non-decreasing timestamp order, the aligner lands on
/// a best frame outright: unless it exhausts the cursor, the upcoming
/// frame after alignment is at least as close to the target start time
/// as every frame the cursor held. In particular, when any frame lies
/// within a tolerance of the target, the aligned frame does.
pub proof fn lemma_align_lands_nearest(ts: Seq<int>, target: int)
    requires
        sorted_ascending(ts),
    ensures
        aligned_skip(ts, target) < ts.len() ==> forall|i: int|
            0 <= i < ts.len() ==> time_dist(ts[aligned_skip(ts, target)], target) <= time_dist(
                #[trigger] ts[i],
                target,
            ),
    decreases ts.len(),
{
    lemma_aligned_skip_bounds(ts, target);
    let k = aligned_skip(ts, target);
    if ts.len() == 0 || k == ts.len() {
    } else if ts[0] >= target {
        assert(k == 0);
        assert forall|i: int| 0 <= i < ts.len() implies time_dist(ts[0], target) <= time_dist(
            #[trigger] ts[i],
            target,
        ) by {
            assert(ts[0] <= ts[i]);
        }
    } else if ts.len() >= 2 && ts[1] >= target {
        assert forall|i: int| 0 <= i < ts.len() implies time_dist(ts[k], target) <= time_dist(
            #[trigger] ts[i],
            target,
        ) by {
            if i >= 1 {
                assert(ts[1] <= ts[i]);
            }
        }
    } else {
        let rest = ts.skip(1);
        assert(rest.len() == ts.len() - 1);
        assert(forall|i: int| 0 <= i < rest.len() ==> #[trigger] rest[i] == ts[i + 1]);
        crate::frame_data::lemma_sorted_skip(ts, 1);
        lemma_align_lands_nearest(rest, target);
        lemma_aligned_skip_bounds(rest, target);
        let k1 = aligned_skip(rest, target);
        assert(k == 1 + k1);
        assert forall|i: int| 0 <= i < ts.len() implies time_dist(ts[k], target) <= time_dist(
            #[trigger] ts[i],
            target,
        ) by {
            assert(ts[k] == rest[k1]);
            if i >= 1 {
                assert(time_dist(rest[k1], target) <= time_dist(rest[i - 1], target));
            } else {
                // both leading frames are before the target, the first
                // furthest of all
                assert(time_dist(rest[k1], target) <= time_dist(rest[0], target));
                assert(ts[0] <= ts[1] < target);
            }
        }
    }
}

/// Timestamp views commute with dropping leading frames.
pub proof fn lemma_timestamps_skip(s: Seq<FrameItem>, n: int)
    requires
        0 <= n <= s.len(),
    ensures
        timestamps_of(s.skip(n)) =~= timestamps_of(s).skip(n),
{
    assert(timestamps_of(s.skip(n)).len() == s.len() - n);
    assert(timestamps_of(s).skip(n).len() == s.len() - n);
    assert forall|k: int| 0 <= k < s.len() - n implies #[trigger] timestamps_of(s.skip(n))[k]
        == timestamps_of(s).skip(n)[k] by {
        assert(timestamps_of(s.skip(n))[k] == s.skip(n)[k].timestamp_micros as int);
        assert(s.skip(n)[k] == s[n + k]);
        assert(timestamps_of(s).skip(n)[k] == timestamps_of(s)[n + k]);
        assert(timestamps_of(s)[n + k] == s[n + k].timestamp_micros as int);
    }
}

/// Advance one cursor to the frame closest to the target start time, as
/// [`aligned_skip`] describes.
pub fn align_reader(reader: &mut Peek2<FrameItem>, target: i64)
    requires
        all_ts_ok(timestamps_of(old(reader).remaining())),
        ts_ok(target as int),
    ensures
        final(reader).remaining() == old(reader).remaining().skip(
            aligned_skip(timestamps_of(old(reader).remaining()), target as int),
        ),
{
    let ghost orig = old(reader).remaining();
    let ghost ots = timestamps_of(orig);
    let ghost t = target as int;
    proof {
        assert(ots.len() == orig.len());
        lemma_aligned_skip_bounds(ots, t);
    }
    let p1 = match reader.peek1() {
        None => {
            proof {
                assert(orig.skip(0) =~= orig);
            }
            return ;
        },
        Some(f) => f.timestamp_micros,
    };
    proof {
        assert(p1 as int == ots[0]);
    }
    if p1 >= target {
        proof {
            assert(aligned_skip(ots, t) == 0);
            assert(orig.skip(0) =~= orig);
        }
        return ;
    }
    let ghost mut k: int = 0;
    proof {
        assert(ts_ok(ots[0]));
        assert(orig.skip(0) =~= orig);
    }
    let mut p1_delta = dist_micros(p1, target);
    loop
        invariant_except_break
            ts_ok(t),
            t == target as int,
            all_ts_ok(ots),
            ots == timestamps_of(orig),
            ots.len() == orig.len(),
            0 <= k < ots.len(),
            ots[k] < t,
            p1_delta == time_dist(ots[k], t),
            reader.remaining() == orig.skip(k),
            aligned_skip(ots, t) == k + aligned_skip(timestamps_of(reader.remaining()), t),
        ensures
            reader.remaining() == orig.skip(aligned_skip(ots, t)),
        decreases ots.len() - k,
    {
        proof {
            assert(reader.remaining() == orig.skip(k));
            lemma_timestamps_skip(orig, k);
            assert(timestamps_of(orig.skip(k)) =~= ots.skip(k));
            assert(timestamps_of(reader.remaining()) == ots.skip(k));
            assert(ots.skip(k)[0] == ots[k]);
        }
        let maybe_p2 = match reader.peek2() {
            Some(f) => Some(f.timestamp_micros),
            None => None,
        };
        match maybe_p2 {
            Some(p2) => {
                proof {
                    assert(orig.skip(k)[1] == orig[k + 1]);
                    assert(ots[k + 1] == orig[k + 1].timestamp_micros as int);
                    assert(p2 as int == ots[k + 1]);
                    assert(ots.skip(k)[1] == ots[k + 1]);
                    assert(ts_ok(ots[k + 1]));
                }
                let p2_delta = dist_micros(p2, target);
                if p2 >= target {
                    if p1_delta <= p2_delta {
                        proof {
                            assert(aligned_skip(ots.skip(k), t) == 0);
                            assert(aligned_skip(ots, t) == k);
                        }
                        break ;
                    } else {
                        reader.next();
                        proof {
                            assert(aligned_skip(ots.skip(k), t) == 1);
                            assert(aligned_skip(ots, t) == k + 1);
                            assert(orig.skip(k).skip(1) =~= orig.skip(k + 1));
                        }
                        break ;
                    }
                } else {
                    reader.next();
                    proof {
                        assert(aligned_skip(ots.skip(k), t) == 1 + aligned_skip(
                            ots.skip(k).skip(1),
                            t,
                        ));
                        assert(ots.skip(k).skip(1) =~= ots.skip(k + 1));
                        assert(orig.skip(k).skip(1) =~= orig.skip(k + 1));
                        lemma_timestamps_skip(orig, k + 1);
                        k = k + 1;
                    }
                    p1_delta = p2_delta;
                }
            },
            None => {
                // A single frame remains, still before the target: drop
                // it rather than keep a frame far from the start time.
                reader.next();
                proof {
                    assert(ots.skip(k).len() == 1);
                    assert(ots.len() == k + 1);
                    assert(aligned_skip(ots.skip(k), t) == 1);
                    assert(aligned_skip(ots, t) == k + 1);
                    assert(orig.skip(k).skip(1) =~= orig.skip(k + 1));
                }
                break ;
            },
        }
    }
}

/// Advance each cursor independently to the frame closest to the shared
/// target start time; there is no cross-camera coordination beyond the
/// shared target.
pub fn synchronize_readers_from(approx_start_time: i64, readers: &mut Vec<Peek2<FrameItem>>)
    requires
        ts_ok(approx_start_time as int),
        forall|i: int|
            0 <= i < old(readers)@.len() ==> all_ts_ok(
                timestamps_of(#[trigger] old(readers)@[i].remaining()),
            ),
    ensures
        final(readers)@.len() == old(readers)@.len(),
        forall|i: int|
            0 <= i < old(readers)@.len() ==> (#[trigger] final(readers)@[i]).remaining() == old(
                readers,
            )@[i].remaining().skip(
                aligned_skip(
                    timestamps_of(old(readers)@[i].remaining()),
                    approx_start_time as int,
                ),
            ),
{
    let ghost orig = old(readers)@;
    let mut done: Vec<Peek2<FrameItem>> = Vec::new();
    while readers.len() > 0
        invariant
            ts_ok(approx_start_time as int),
            done@.len() + readers@.len() == orig.len(),
            readers@ =~= orig.skip(done@.len() as int),
            forall|i: int|
                0 <= i < orig.len() ==> all_ts_ok(timestamps_of(#[trigger] orig[i].remaining())),
            forall|i: int|
                0 <= i < done@.len() ==> (#[trigger] done@[i]).remaining() == orig[i].remaining()
                    .skip(
                    aligned_skip(timestamps_of(orig[i].remaining()), approx_start_time as int),
                ),
        decreases readers@.len(),
    {
        let ghost i = done@.len() as int;
        let ghost prev = readers@;
        let mut r = readers.remove(0);
        proof {
            assert(r == prev[0]);
            assert(r == orig.skip(i)[0]);
            assert(r == orig[i]);
            assert(readers@ =~= prev.skip(1));
            assert(prev.skip(1) =~= orig.skip(i).skip(1));
            assert(orig.skip(i).skip(1) =~= orig.skip(i + 1));
        }
        align_reader(&mut r, approx_start_time);
        done.push(r);
    }
    *readers = done;
    proof {
        assert(readers@.len() == orig.len());
    }
}

} // verus!

use vstd::prelude::*;

verus! {

/// One 2D-detection row from the archive: the camera-number join key,
/// the archive frame number, the trigger timestamp when the archive
/// recorded one, the camera's receive timestamp (both in microseconds
/// since the UNIX epoch), and the detected point's coordinates as IEEE
/// 754 double bit patterns.
#[derive(Clone, Copy, PartialEq, Eq, Structural, Debug)]
pub struct Data2dRow {
    pub camn: u32,
    pub frame: i64,
    pub timestamp_micros: Option<i64>,
    pub cam_received_timestamp_micros: i64,
    pub x_bits: u64,
    pub y_bits: u64,
}

/// An IEEE 754 double is NaN exactly when its exponent bits are all ones
/// and its mantissa is non-zero.
pub open spec fn f64_bits_is_nan(bits: u64) -> bool {
    (bits >> 52) & 0x7ff == 0x7ff && (bits & 0xf_ffff_ffff_ffff) != 0
}

/// An IEEE 754 double is finite exactly when its exponent bits are not
/// all ones (otherwise it is an infinity or NaN).
pub open spec fn f64_bits_is_finite(bits: u64) -> bool {
    (bits >> 52) & 0x7ff != 0x7ff
}

/// Whether the bit pattern is a finite real number.
pub fn bits_finite(bits: u64) -> (r: bool)
    ensures
        r == f64_bits_is_finite(bits),
{
    (bits >> 52) & 0x7ff != 0x7ff
}

/// One archive moment: the frame number, the moment's authoritative
/// timestamp, the recorded trigger timestamp if any, and the detection
/// rows of all cameras for this frame.
pub struct ArchiveGroup {
    pub frame: i64,
    pub timestamp_micros: i64,
    pub trigger_timestamp_micros: Option<i64>,
    pub rows: Vec<Data2dRow>,
}

/// Mathematical value of an [`ArchiveGroup`].
pub struct ArchiveGroupV {
    pub frame: i64,
    pub timestamp_micros: i64,
    pub trigger_timestamp_micros: Option<i64>,
    pub rows: Seq<Data2dRow>,
}

impl View for ArchiveGroup {
    type V = ArchiveGroupV;

    open spec fn view(&self) -> ArchiveGroupV {
        ArchiveGroupV {
            frame: self.frame,
            timestamp_micros: self.timestamp_micros,
            trigger_timestamp_micros: self.trigger_timestamp_micros,
            rows: self.rows@,
        }
    }
}

/// The views of a sequence of archive moments.
pub open spec fn group_views(s: Seq<ArchiveGroup>) -> Seq<ArchiveGroupV> {
    s.map_values(|g: ArchiveGroup| g@)
}

/// Length of the leading run of rows that share the first row's frame
/// number.
pub open spec fn run_len(rows: Seq<Data2dRow>) -> int
    decreases rows.len(),
{
    if rows.len() == 0 {
        0
    } else if rows.len() == 1 {
        1
    } else if rows[1].frame == rows[0].frame {
        1 + run_len(rows.skip(1))
    } else {
        1
    }
}

/// A non-empty row sequence has a leading run of at least one row.
pub proof fn lemma_run_len_bounds(rows: Seq<Data2dRow>)
    requires
        rows.len() > 0,
    ensures
        1 <= run_len(rows) <= rows.len(),
    decreases rows.len(),
{
    if rows.len() > 1 && rows[1].frame == rows[0].frame {
        lemma_run_len_bounds(rows.skip(1));
    }
}

/// The leading run is exactly `n` when the first `n` rows share the
/// first row's frame number and the row after them (if any) does not.
pub proof fn lemma_run_len_characterization(rows: Seq<Data2dRow>, n: int)
    requires
        1 <= n <= rows.len(),
        forall|k: int| 0 <= k < n ==> (#[trigger] rows[k]).frame == rows[0].frame,
        n == rows.len() || rows[n].frame != rows[0].frame,
    ensures
        run_len(rows) == n,
    decreases n,
{
    if rows.len() > 1 && rows[1].frame == rows[0].frame {
        let rest = rows.skip(1);
        assert(rest.len() == rows.len() - 1);
        assert(forall|k: int| 0 <= k < rest.len() ==> #[trigger] rest[k] == rows[k + 1]);
        assert(n >= 2) by {
            assert(n == rows.len() || rows[n].frame != rows[0].frame);
        }
        lemma_run_len_characterization(rest, n - 1);
    } else {
        assert(n == 1) by {
            if rows.len() > 1 {
                assert(rows[1].frame != rows[0].frame);
            }
        }
    }
}

/// The archive moment formed by one run of same-frame rows: the trigger
/// timestamp of the run's first row supplies the moment timestamp when
/// present, else the first row's camera receive timestamp.
pub open spec fn group_from_run(run: Seq<Data2dRow>) -> ArchiveGroupV
    recommends
        run.len() > 0,
{
    ArchiveGroupV {
        frame: run[0].frame,
        timestamp_micros: match run[0].timestamp_micros {
            Some(t) => t,
            None => run[0].cam_received_timestamp_micros,
        },
        trigger_timestamp_micros: run[0].timestamp_micros,
        rows: run,
    }
}

/// The archive moments formed by grouping consecutive same-frame runs.
pub open spec fn spec_groups(rows: Seq<Data2dRow>) -> Seq<ArchiveGroupV>
    decreases rows.len(),
    via spec_groups_decreases
{
    if rows.len() == 0 {
        Seq::empty()
    } else {
        seq![group_from_run(rows.take(run_len(rows)))] + spec_groups(rows.skip(run_len(rows)))
    }
}

#[via_fn]
proof fn spec_groups_decreases(rows: Seq<Data2dRow>) {
    if rows.len() > 0 {
        lemma_run_len_bounds(rows);
    }
}

/// Group the archive's 2D-detection rows into per-frame moments. Rows
/// arrive ordered by frame; each maximal run of consecutive rows with
/// the same frame number becomes one moment, timed by its first row's
/// trigger timestamp when recorded, else by that row's camera receive
/// timestamp. This index is built once, before the merge begins.
pub fn build_archive_groups(rows: Vec<Data2dRow>) -> (r: Vec<ArchiveGroup>)
    ensures
        group_views(r@) == spec_groups(rows@),
{
    let ghost rows0 = rows@;
    let mut rest = rows;
    let mut out: Vec<ArchiveGroup> = Vec::new();
    proof {
        assert(group_views(out@) =~= Seq::empty());
        assert(spec_groups(rows0) =~= group_views(out@) + spec_groups(rest@));
    }
    while rest.len() > 0
        invariant
            spec_groups(rows0) =~= group_views(out@) + spec_groups(rest@),
        decreases rest@.len(),
    {
        let ghost seg0 = rest@;
        // Scan the leading run of rows sharing the first row's frame.
        let first_frame = rest[0].frame;
        let mut n: usize = 1;
        while n < rest.len() && rest[n].frame == first_frame
            invariant
                rest@ == seg0,
                seg0.len() > 0,
                first_frame == seg0[0].frame,
                1 <= n <= seg0.len(),
                forall|k: int| 0 <= k < n ==> (#[trigger] seg0[k]).frame == seg0[0].frame,
            decreases seg0.len() - n,
        {
            n += 1;
        }
        proof {
            lemma_run_len_characterization(seg0, n as int);
        }
        // Move the run out of the remainder.
        let mut run: Vec<Data2dRow> = Vec::new();
        let mut taken: usize = 0;
        while taken < n
            invariant
                taken <= n <= seg0.len(),
                run@.len() == taken,
                run@ =~= seg0.take(taken as int),
                rest@ =~= seg0.skip(taken as int),
            decreases n - taken,
        {
            let ghost prev = rest@;
            let x = rest.remove(0);
            proof {
                assert(x == prev[0]);
                assert(prev[0] == seg0[taken as int]);
                assert(rest@ =~= prev.skip(1));
                assert(rest@ =~= seg0.skip(taken as int + 1));
            }
            run.push(x);
            taken += 1;
            proof {
                assert(run@ =~= seg0.take(taken as int));
            }
        }
        let trigger = run[0].timestamp_micros;
        let moment_ts = match trigger {
            Some(t) => t,
            None => run[0].cam_received_timestamp_micros,
        };
        let group = ArchiveGroup {
            frame: first_frame,
            timestamp_micros: moment_ts,
            trigger_timestamp_micros: trigger,
            rows: run,
        };
        let ghost prev_out = out@;
        proof {
            assert(group@ == group_from_run(seg0.take(n as int)));
            assert(spec_groups(seg0) =~= seq![group_from_run(seg0.take(run_len(seg0)))]
                + spec_groups(seg0.skip(run_len(seg0))));
        }
        out.push(group);
        proof {
            assert(group_views(out@) =~= group_views(prev_out).push(group@));
            assert(group_views(out@) + spec_groups(rest@) =~= group_views(prev_out)
                + spec_groups(seg0));
            assert(spec_groups(rows0) =~= group_views(out@) + spec_groups(rest@));
        }
    }
    proof {
        assert(spec_groups(rest@) =~= Seq::empty());
        assert(spec_groups(rows0) =~= group_views(out@));
    }
    out
}

/// The rows of one archive moment that belong to the camera with the
/// given camera number; a camera without an archive number gets none.
pub open spec fn rows_for_cam(rows: Seq<Data2dRow>, camn: Option<u32>) -> Seq<Data2dRow>
    decreases rows.len(),
{
    if rows.len() == 0 {
        Seq::empty()
    } else {
        rows_for_cam(rows.drop_last(), camn) + (if camn == Some(rows.last().camn) {
            seq![rows.last()]
        } else {
            Seq::empty()
        })
    }
}

/// Collect the rows belonging to the camera with the given camera
/// number, keeping their order.
pub fn filter_rows_for_cam(rows: &Vec<Data2dRow>, camn: Option<u32>) -> (r: Vec<Data2dRow>)
    ensures
        r@ == rows_for_cam(rows@, camn),
{
    let mut out: Vec<Data2dRow> = Vec::new();
    let mut j: usize = 0;
    proof {
        assert(rows@.take(0) =~= Seq::<Data2dRow>::empty());
        assert(out@ =~= rows_for_cam(rows@.take(0), camn));
    }
    while j < rows.len()
        invariant
            j <= rows@.len(),
            out@ =~= rows_for_cam(rows@.take(j as int), camn),
        decreases rows@.len() - j,
    {
        let row = rows[j];
        let keep = match camn {
            Some(c) => c == row.camn,
            None => false,
        };
        if keep {
            out.push(row);
        }
        proof {
            let pfx = rows@.take(j as int + 1);
            assert(pfx.drop_last() =~= rows@.take(j as int));
            assert(pfx.last() == rows@[j as int]);
        }
        j += 1;
    }
    proof {
        assert(rows@.take(rows@.len() as int) =~= rows@);
    }
    out
}

} // verus!

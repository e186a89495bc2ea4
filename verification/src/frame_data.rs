use vstd::prelude::*;

use crate::timebase::ts_ok;

verus! {

/// Pixel layout of a decoded frame. Only 8-bit monochrome and 8-bit RGB
/// frames flow through the pipeline.
#[derive(Clone, Copy, PartialEq, Eq, Structural, Debug)]
pub enum FrameFormat {
    Mono8,
    Rgb8,
}

impl FrameFormat {
    /// Bytes per pixel of this layout.
    pub open spec fn spec_channels(&self) -> int {
        match self {
            FrameFormat::Mono8 => 1,
            FrameFormat::Rgb8 => 3,
        }
    }

    /// Bytes per pixel of this layout.
    pub fn channels(&self) -> (r: u8)
        ensures
            r as int == self.spec_channels(),
    {
        match self {
            FrameFormat::Mono8 => 1,
            FrameFormat::Rgb8 => 3,
        }
    }
}

/// A decoded image as plain values: pixel layout, dimensions and a tightly
/// packed row-major byte buffer (no row padding).
pub struct ImageValue {
    pub format: FrameFormat,
    pub width: u32,
    pub height: u32,
    pub data: Vec<u8>,
}

impl ImageValue {
    /// The buffer holds exactly one byte per channel per pixel.
    pub open spec fn wf(&self) -> bool {
        self.data@.len() == self.format.spec_channels() * self.width as int * self.height as int
    }
}

/// Whether the image's buffer length is consistent with its dimensions
/// and pixel layout.
pub fn image_wf_check(img: &ImageValue) -> (b: bool)
    ensures
        b == img.wf(),
{
    let n: usize = img.data.len();
    let ch: u64 = img.format.channels() as u64;
    let w: u64 = img.width as u64;
    let h: u64 = img.height as u64;
    proof {
        assert(w * h <= 0xffff_ffffu64 * 0xffff_ffffu64) by (nonlinear_arith)
            requires
                w <= 0xffff_ffffu64,
                h <= 0xffff_ffffu64,
        ;
    }
    let px: u64 = w * h;
    if px > u64::MAX / ch {
        proof {
            assert(ch * px > u64::MAX) by (nonlinear_arith)
                requires
                    ch >= 1,
                    px > u64::MAX / ch,
            ;
            assert(n <= u64::MAX);
            assert(ch * px == img.format.spec_channels() * img.width as int * img.height as int)
                by (nonlinear_arith)
                requires
                    ch == img.format.spec_channels(),
                    px == w * h,
                    w == img.width as int,
                    h == img.height as int,
            ;
        }
        return false;
    }
    proof {
        assert(ch * px <= u64::MAX) by (nonlinear_arith)
            requires
                ch >= 1,
                px <= u64::MAX / ch,
        ;
        assert(ch * px == img.format.spec_channels() * img.width as int * img.height as int)
            by (nonlinear_arith)
            requires
                ch == img.format.spec_channels(),
                px == w * h,
                w == img.width as int,
                h == img.height as int,
        ;
    }
    let total: u64 = ch * px;
    (n as u64) == total
}

impl ImageValue {
    /// The image can be handed to the PNG encoder: its buffer is
    /// consistent and both dimensions are positive (the encoder refuses
    /// zero-sized pictures).
    pub open spec fn renderable(&self) -> bool {
        self.wf() && self.width >= 1 && self.height >= 1
    }
}

/// Whether the image can be handed to the PNG encoder.
pub fn image_renderable_check(img: &ImageValue) -> (b: bool)
    ensures
        b == img.renderable(),
{
    img.width >= 1 && img.height >= 1 && image_wf_check(img)
}

/// One frame pulled from a per-camera frame source: a host timestamp in
/// microseconds since the UNIX epoch, the frame's index in its stream, and
/// the decoded image, if the source decodes.
pub struct FrameItem {
    pub timestamp_micros: i64,
    pub idx: usize,
    pub image: Option<ImageValue>,
}

/// The timestamps of a run of frame items, in order.
pub open spec fn timestamps_of(s: Seq<FrameItem>) -> Seq<int> {
    s.map_values(|f: FrameItem| f.timestamp_micros as int)
}

/// Every timestamp of the run is inside the library's working range.
pub open spec fn all_ts_ok(s: Seq<int>) -> bool {
    forall|i: int| 0 <= i < s.len() ==> ts_ok(#[trigger] s[i])
}

/// The run is in non-decreasing timestamp order (monotonic playback).
pub open spec fn sorted_ascending(s: Seq<int>) -> bool {
    forall|i: int, j: int| 0 <= i < j < s.len() ==> #[trigger] s[i] <= #[trigger] s[j]
}

/// Every frame of the run that carries an image carries a renderable
/// one.
pub open spec fn frames_renderable(s: Seq<FrameItem>) -> bool {
    forall|j: int|
        0 <= j < s.len() && (#[trigger] s[j]).image is Some ==> s[j].image->0.renderable()
}

/// A suffix of a renderable run is renderable.
pub proof fn lemma_frames_renderable_skip(s: Seq<FrameItem>, n: int)
    requires
        frames_renderable(s),
        0 <= n <= s.len(),
    ensures
        frames_renderable(s.skip(n)),
{
    assert forall|j: int|
        0 <= j < s.skip(n).len() && (#[trigger] s.skip(n)[j]).image is Some implies s.skip(
        n,
    )[j].image->0.renderable() by {
        assert(s.skip(n)[j] == s[n + j]);
    }
}

/// A suffix of an in-range run is in range.
pub proof fn lemma_all_ts_ok_skip(ts: Seq<int>, n: int)
    requires
        all_ts_ok(ts),
        0 <= n <= ts.len(),
    ensures
        all_ts_ok(ts.skip(n)),
{
    assert forall|i: int| 0 <= i < ts.skip(n).len() implies ts_ok(#[trigger] ts.skip(n)[i]) by {
        assert(ts.skip(n)[i] == ts[n + i]);
    }
}

/// A suffix of a sorted run is sorted.
pub proof fn lemma_sorted_skip(ts: Seq<int>, n: int)
    requires
        sorted_ascending(ts),
        0 <= n <= ts.len(),
    ensures
        sorted_ascending(ts.skip(n)),
{
    assert forall|i: int, j: int| 0 <= i < j < ts.skip(n).len() implies #[trigger] ts.skip(n)[i]
        <= #[trigger] ts.skip(n)[j] by {
        assert(ts.skip(n)[i] == ts[n + i]);
        assert(ts.skip(n)[j] == ts[n + j]);
        assert(ts[n + i] <= ts[n + j]);
    }
}

/// Pairwise order follows from adjacent order.
pub proof fn lemma_adjacent_le(ts: Seq<int>, i: int, j: int)
    requires
        forall|k: int| 0 <= k < ts.len() - 1 ==> #[trigger] ts[k] <= ts[k + 1],
        0 <= i <= j < ts.len(),
    ensures
        ts[i] <= ts[j],
    decreases j - i,
{
    if i < j {
        lemma_adjacent_le(ts, i, j - 1);
        assert(ts[j - 1] <= ts[j]);
    }
}

} // verus!

use vstd::prelude::*;

use crate::errors::ProcessError;

verus! {

/// Universal identifier marking this library's metadata inside an H264
/// stream's user-data-unregistered SEI messages.
pub const H264_METADATA_UUID: [u8; 16] = [
    0x0B,
    0xA9,
    0x9C,
    0xC7,
    0xF6,
    0x07,
    0x08,
    0x51,
    0x33,
    0x5E,
    0x8C,
    0x7D,
    0x8C,
    0x04,
    0xDA,
    0x0A,
];

/// Version string carried by the metadata structure.
pub const H264_METADATA_VERSION: &'static str = "https://strawlab.org/h264-metadata/v1/";

/// Metadata carried at the start of an H264 stream, as plain values: the
/// version string, the writing application, the creation time as
/// microseconds since the UNIX epoch together with the writer's UTC
/// offset in seconds, the optional camera name, and the optional gamma
/// as an IEEE 754 single-precision bit pattern.
pub struct H264Metadata {
    pub version: String,
    pub writing_app: String,
    pub creation_time_micros: i64,
    pub creation_time_offset_secs: i32,
    pub camera_name: Option<String>,
    pub gamma_bits: Option<u32>,
}

impl H264Metadata {
    /// Fresh metadata for a writing application and creation time, with
    /// no camera name and no gamma.
    pub fn new(writing_app: &str, creation_time_micros: i64, creation_time_offset_secs: i32) -> (r:
        Self)
        ensures
            r.version@ == H264_METADATA_VERSION@,
            r.writing_app@ == writing_app@,
            r.creation_time_micros == creation_time_micros,
            r.creation_time_offset_secs == creation_time_offset_secs,
            r.camera_name is None,
            r.gamma_bits is None,
    {
        H264Metadata {
            version: H264_METADATA_VERSION.to_owned(),
            writing_app: writing_app.to_owned(),
            creation_time_micros,
            creation_time_offset_secs,
            camera_name: None,
            gamma_bits: None,
        }
    }
}

/// A user-data-unregistered SEI message split into its 16-byte
/// identifier and the message body.
pub struct UserDataUnregistered {
    pub uuid: Vec<u8>,
    pub payload: Vec<u8>,
}

impl UserDataUnregistered {
    /// Split a user-data-unregistered SEI message payload into its
    /// leading 16-byte identifier and the rest; a payload too short to
    /// carry the identifier is rejected.
    pub fn read(msg_payload: &Vec<u8>) -> (r: Result<UserDataUnregistered, ProcessError>)
        ensures
            match r {
                Ok(u) => {
                    &&& msg_payload@.len() >= 16
                    &&& u.uuid@ == msg_payload@.take(16)
                    &&& u.payload@ == msg_payload@.skip(16)
                },
                Err(e) => msg_payload@.len() < 16 && e == ProcessError::SeiPayloadTooShort,
            },
    {
        if msg_payload.len() < 16 {
            return Err(ProcessError::SeiPayloadTooShort);
        }
        let mut uuid: Vec<u8> = Vec::new();
        let mut i: usize = 0;
        while i < 16
            invariant
                msg_payload@.len() >= 16,
                i <= 16,
                uuid@ =~= msg_payload@.take(i as int),
            decreases 16 - i,
        {
            uuid.push(msg_payload[i]);
            proof {
                assert(uuid@ =~= msg_payload@.take(i as int + 1));
            }
            i += 1;
        }
        let mut payload: Vec<u8> = Vec::new();
        let mut j: usize = 16;
        while j < msg_payload.len()
            invariant
                msg_payload@.len() >= 16,
                16 <= j <= msg_payload@.len(),
                payload@ =~= msg_payload@.subrange(16, j as int),
            decreases msg_payload@.len() - j,
        {
            payload.push(msg_payload[j]);
            proof {
                assert(payload@ =~= msg_payload@.subrange(16, j as int + 1));
            }
            j += 1;
        }
        proof {
            assert(uuid@ =~= msg_payload@.take(16));
            assert(payload@ =~= msg_payload@.skip(16));
        }
        Ok(UserDataUnregistered { uuid, payload })
    }
}

/// The eight payload bytes that carry a MISP precision timestamp, in
/// big-endian order: the payload's marker bytes at positions 3, 6 and 9
/// are left out.
pub open spec fn misp_time_bytes(p: Seq<u8>) -> Seq<u8> {
    seq![p[1], p[2], p[4], p[5], p[7], p[8], p[10], p[11]]
}

/// A big-endian 64-bit value from eight bytes.
pub open spec fn spec_be64(b: Seq<u8>) -> u64
    recommends
        b.len() == 8,
{
    ((b[0] as u64) << 56) | ((b[1] as u64) << 48) | ((b[2] as u64) << 40) | ((b[3] as u64) << 32)
        | ((b[4] as u64) << 24) | ((b[5] as u64) << 16) | ((b[6] as u64) << 8) | (b[7] as u64)
}

/// Parse a MISP precision-time SEI payload into microseconds since the
/// UNIX epoch. The payload must be exactly 12 bytes: a time-stamp status
/// byte, then the 8-byte big-endian microsecond count interleaved with a
/// start-code emulation prevention marker byte after every second data
/// byte.
pub fn parse_precision_time(payload: &Vec<u8>) -> (r: Result<i64, ProcessError>)
    ensures
        match r {
            Ok(t) => {
                &&& payload@.len() == 12
                &&& payload@[3] == 0xff
                &&& payload@[6] == 0xff
                &&& payload@[9] == 0xff
                &&& t == spec_be64(misp_time_bytes(payload@)) as i64
            },
            Err(e) => (payload@.len() != 12 && e == ProcessError::PrecisionTimeLength) || (
            payload@.len() == 12 && !(payload@[3] == 0xff && payload@[6] == 0xff && payload@[9]
                == 0xff) && e == ProcessError::PrecisionTimeMarker),
        },
{
    if payload.len() != 12 {
        return Err(ProcessError::PrecisionTimeLength);
    }
    if !(payload[3] == 0xff && payload[6] == 0xff && payload[9] == 0xff) {
        return Err(ProcessError::PrecisionTimeMarker);
    }
    let v: u64 = ((payload[1] as u64) << 56) | ((payload[2] as u64) << 48) | ((payload[4] as u64)
        << 40) | ((payload[5] as u64) << 32) | ((payload[7] as u64) << 24) | ((payload[8] as u64)
        << 16) | ((payload[10] as u64) << 8) | (payload[11] as u64);
    proof {
        let b = misp_time_bytes(payload@);
        assert(b[0] == payload@[1] && b[1] == payload@[2] && b[2] == payload@[4] && b[3]
            == payload@[5] && b[4] == payload@[7] && b[5] == payload@[8] && b[6] == payload@[10]
            && b[7] == payload@[11]);
    }
    Ok(v as i64)
}

/// Annex B framing of a run of raw headerless EBSP NAL units: each unit
/// is preceded by the four-byte start code `00 00 00 01`.
pub open spec fn annex_b_of(nalus: Seq<Seq<u8>>) -> Seq<u8>
    decreases nalus.len(),
{
    if nalus.len() == 0 {
        Seq::empty()
    } else {
        annex_b_of(nalus.drop_last()) + seq![0u8, 0u8, 0u8, 1u8] + nalus.last()
    }
}

/// Copy raw headerless EBSP NAL units into a single Annex B buffer.
pub fn copy_nalus_to_annex_b(nalus: &Vec<Vec<u8>>) -> (r: Vec<u8>)
    ensures
        r@ == annex_b_of(nalus@.map_values(|v: Vec<u8>| v@)),
{
    let ghost views = nalus@.map_values(|v: Vec<u8>| v@);
    let mut out: Vec<u8> = Vec::new();
    let mut i: usize = 0;
    proof {
        assert(views.take(0) =~= Seq::<Seq<u8>>::empty());
        assert(out@ =~= annex_b_of(views.take(0)));
    }
    while i < nalus.len()
        invariant
            views == nalus@.map_values(|v: Vec<u8>| v@),
            views.len() == nalus@.len(),
            i <= nalus@.len(),
            out@ =~= annex_b_of(views.take(i as int)),
        decreases nalus@.len() - i,
    {
        let ghost out_before = out@;
        out.push(0u8);
        out.push(0u8);
        out.push(0u8);
        out.push(1u8);
        let src = &nalus[i];
        let mut j: usize = 0;
        while j < src.len()
            invariant
                src@ == nalus@[i as int]@,
                i < nalus@.len(),
                j <= src@.len(),
                out@ =~= out_before + seq![0u8, 0u8, 0u8, 1u8] + src@.take(j as int),
            decreases src@.len() - j,
        {
            out.push(src[j]);
            proof {
                assert(out@ =~= out_before + seq![0u8, 0u8, 0u8, 1u8] + src@.take(j as int + 1));
            }
            j += 1;
        }
        proof {
            assert(src@.take(src@.len() as int) =~= src@);
            assert(views.take(i as int + 1).drop_last() =~= views.take(i as int));
            assert(views.take(i as int + 1).last() == views[i as int]);
            assert(views[i as int] == nalus@[i as int]@);
            assert(out@ =~= annex_b_of(views.take(i as int + 1)));
        }
        i += 1;
    }
    proof {
        assert(views.take(views.len() as int) =~= views);
    }
    out
}

/// The NAL unit type held in the low five bits of a unit's header byte.
pub fn nal_unit_type(header: u8) -> (r: u8)
    ensures
        r == header & 0x1f,
{
    header & 0x1f
}

/// Whether a NAL unit header byte marks a picture slice (an IDR or
/// non-IDR slice layer without partitioning), which ends one frame.
pub open spec fn spec_is_frame_slice(header: u8) -> bool {
    header & 0x1f == 1 || header & 0x1f == 5
}

/// Whether a NAL unit header byte marks a picture slice.
pub fn is_frame_slice(header: u8) -> (r: bool)
    ensures
        r == spec_is_frame_slice(header),
{
    let t = header & 0x1f;
    t == 1 || t == 5
}

/// Whether a NAL unit header byte marks a supplemental enhancement
/// information unit.
pub fn is_sei(header: u8) -> (r: bool)
    ensures
        r == (header & 0x1f == 6),
{
    header & 0x1f == 6
}

/// The indices of the NAL units that end a frame: the non-empty units
/// whose header marks a picture slice.
pub open spec fn slice_indices(units: Seq<Seq<u8>>) -> Seq<int>
    decreases units.len(),
{
    if units.len() == 0 {
        Seq::empty()
    } else {
        slice_indices(units.drop_last()) + (if units.last().len() > 0 && spec_is_frame_slice(
            units.last()[0],
        ) {
            seq![units.len() - 1]
        } else {
            Seq::empty()
        })
    }
}

/// Collect the indices of the NAL units that end a frame, in order: one
/// entry per picture of the stream.
pub fn frame_slice_indices(nal_units: &Vec<Vec<u8>>) -> (r: Vec<usize>)
    ensures
        r@.map_values(|u: usize| u as int) == slice_indices(nal_units@.map_values(|v: Vec<u8>| v@)),
{
    let ghost views = nal_units@.map_values(|v: Vec<u8>| v@);
    let mut out: Vec<usize> = Vec::new();
    let mut i: usize = 0;
    proof {
        assert(views.take(0) =~= Seq::<Seq<u8>>::empty());
        assert(out@.map_values(|u: usize| u as int) =~= slice_indices(views.take(0)));
    }
    while i < nal_units.len()
        invariant
            views == nal_units@.map_values(|v: Vec<u8>| v@),
            views.len() == nal_units@.len(),
            i <= nal_units@.len(),
            out@.map_values(|u: usize| u as int) =~= slice_indices(views.take(i as int)),
        decreases nal_units@.len() - i,
    {
        let unit = &nal_units[i];
        let ghost out_before = out@;
        if unit.len() > 0 && is_frame_slice(unit[0]) {
            out.push(i);
        }
        proof {
            assert(views.take(i as int + 1).drop_last() =~= views.take(i as int));
            assert(views.take(i as int + 1).last() == views[i as int]);
            assert(views[i as int] == nal_units@[i as int]@);
            assert(out@.map_values(|u: usize| u as int) =~= slice_indices(views.take(i as int + 1)));
        }
        i += 1;
    }
    proof {
        assert(views.take(views.len() as int) =~= views);
    }
    out
}

/// A frame's position in time as a frame source reports it: an offset
/// from the stream's first frame in microseconds, or, for streams
/// without timing information, the fraction of the stream already
/// consumed, as a numerator over a denominator.
#[derive(Clone, Copy, PartialEq, Eq, Structural, Debug)]
pub enum FrameTimestamp {
    DurationMicros(i64),
    Fraction(usize, usize),
}

/// The timestamp a frame source reports for one frame, by the stream's
/// effective timestamp source: the frame's precision time or receive
/// time relative to the first frame's, the container's presentation
/// timestamp, or, with no source at all, the fraction of NAL units
/// consumed so far.
pub fn frame_timestamp(
    source: Option<TimestampSource>,
    frame_time_micros: Option<i64>,
    frame0_time_micros: Option<i64>,
    mp4_pts_micros: Option<i64>,
    nal_idx: usize,
    nal_total: usize,
) -> (r: Result<FrameTimestamp, ProcessError>)
    requires
        source != Some(TimestampSource::BestGuess),
        match (frame_time_micros, frame0_time_micros) {
            (Some(t), Some(t0)) => crate::timebase::ts_ok(t as int) && crate::timebase::ts_ok(
                t0 as int,
            ),
            _ => true,
        },
    ensures
        match source {
            Some(TimestampSource::MispMicrosectime) | Some(TimestampSource::FrameInfoRecvTime) => r
                == match (frame_time_micros, frame0_time_micros) {
                (Some(t), Some(t0)) => Ok::<FrameTimestamp, ProcessError>(
                    FrameTimestamp::DurationMicros((t - t0) as i64),
                ),
                _ => Err(ProcessError::TimestampSourceMissing),
            },
            Some(TimestampSource::Mp4Pts) => r == match mp4_pts_micros {
                Some(p) => Ok::<FrameTimestamp, ProcessError>(FrameTimestamp::DurationMicros(p)),
                None => Err(ProcessError::TimestampSourceMissing),
            },
            None => r == Ok::<FrameTimestamp, ProcessError>(
                FrameTimestamp::Fraction(nal_idx, nal_total),
            ),
            Some(TimestampSource::BestGuess) => true,
        },
{
    match source {
        Some(TimestampSource::MispMicrosectime) | Some(TimestampSource::FrameInfoRecvTime) => {
            match (frame_time_micros, frame0_time_micros) {
                (Some(t), Some(t0)) => Ok(FrameTimestamp::DurationMicros(t - t0)),
                _ => Err(ProcessError::TimestampSourceMissing),
            }
        },
        Some(TimestampSource::Mp4Pts) => {
            match mp4_pts_micros {
                Some(p) => Ok(FrameTimestamp::DurationMicros(p)),
                None => Err(ProcessError::TimestampSourceMissing),
            }
        },
        Some(TimestampSource::BestGuess) => Err(ProcessError::TimestampSourceMissing),
        None => Ok(FrameTimestamp::Fraction(nal_idx, nal_total)),
    }
}

/// Which per-frame timestamp source an H264 stream uses.
#[derive(Clone, Copy, PartialEq, Eq, Structural, Debug)]
pub enum TimestampSource {
    /// Pick the best available source.
    BestGuess,
    /// MISP precision timestamps carried in SEI messages.
    MispMicrosectime,
    /// Receiver timestamps carried in per-frame information messages.
    FrameInfoRecvTime,
    /// Presentation timestamps of the containing MP4 track.
    Mp4Pts,
}

/// Decide the stream's effective timestamp source from what the scan of
/// its NAL units found. A best-guess request picks precision timestamps,
/// then frame-information receive times, then container presentation
/// timestamps, else no timestamps at all; a request for one specific
/// source fails when the stream does not carry it. The second result
/// says whether the stream has usable timestamps.
pub fn resolve_timestamp_source(
    requested: TimestampSource,
    has_precision_time: bool,
    has_frameinfo_recv: bool,
    has_mp4_pts: bool,
) -> (r: Result<(Option<TimestampSource>, bool), ProcessError>)
    ensures
        match requested {
            TimestampSource::BestGuess => r == Ok::<(Option<TimestampSource>, bool), ProcessError>(
                if has_precision_time {
                    (Some(TimestampSource::MispMicrosectime), true)
                } else if has_frameinfo_recv {
                    (Some(TimestampSource::FrameInfoRecvTime), true)
                } else if has_mp4_pts {
                    (Some(TimestampSource::Mp4Pts), true)
                } else {
                    (None, false)
                },
            ),
            TimestampSource::MispMicrosectime => r == (if has_precision_time {
                Ok::<(Option<TimestampSource>, bool), ProcessError>(
                    (Some(TimestampSource::MispMicrosectime), true),
                )
            } else {
                Err(ProcessError::TimestampSourceMissing)
            }),
            TimestampSource::FrameInfoRecvTime => r == (if has_frameinfo_recv {
                Ok::<(Option<TimestampSource>, bool), ProcessError>(
                    (Some(TimestampSource::FrameInfoRecvTime), true),
                )
            } else {
                Err(ProcessError::TimestampSourceMissing)
            }),
            TimestampSource::Mp4Pts => r == (if has_mp4_pts {
                Ok::<(Option<TimestampSource>, bool), ProcessError>(
                    (Some(TimestampSource::Mp4Pts), true),
                )
            } else {
                Err(ProcessError::TimestampSourceMissing)
            }),
        },
{
    match requested {
        TimestampSource::BestGuess => {
            if has_precision_time {
                Ok((Some(TimestampSource::MispMicrosectime), true))
            } else if has_frameinfo_recv {
                Ok((Some(TimestampSource::FrameInfoRecvTime), true))
            } else if has_mp4_pts {
                Ok((Some(TimestampSource::Mp4Pts), true))
            } else {
                Ok((None, false))
            }
        },
        TimestampSource::MispMicrosectime => {
            if has_precision_time {
                Ok((Some(TimestampSource::MispMicrosectime), true))
            } else {
                Err(ProcessError::TimestampSourceMissing)
            }
        },
        TimestampSource::FrameInfoRecvTime => {
            if has_frameinfo_recv {
                Ok((Some(TimestampSource::FrameInfoRecvTime), true))
            } else {
                Err(ProcessError::TimestampSourceMissing)
            }
        },
        TimestampSource::Mp4Pts => {
            if has_mp4_pts {
                Ok((Some(TimestampSource::Mp4Pts), true))
            } else {
                Err(ProcessError::TimestampSourceMissing)
            }
        },
    }
}

} // verus!

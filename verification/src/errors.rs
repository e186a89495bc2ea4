use vstd::prelude::*;

verus! {

/// Failure conditions reported by the reconstruction pipeline.
///
/// Expected-absence conditions (a camera with no frame at a moment, an
/// archive camera with no matching video file, and the like) are not
/// errors: they are represented as `None` or empty values in the data
/// model. The variants here are the fatal configuration and encoding
/// failures that abort a run.
#[derive(Clone, Copy, PartialEq, Eq, Structural, Debug)]
pub enum ProcessError {
    /// Neither an archive nor the video inputs supply usable frame timing.
    NoFrameTiming,
    /// Archive moments are not in strictly increasing timestamp order.
    UnorderedArchive,
    /// A frame's buffer length is inconsistent with its dimensions.
    BadImageGeometry,
    /// The PNG encoder rejected a frame.
    PngEncodingFailed,
    /// A supplemental-enhancement payload is too short to carry its
    /// 16-byte identifier.
    SeiPayloadTooShort,
    /// A precision-time payload does not have the expected length.
    PrecisionTimeLength,
    /// A precision-time payload lacks a start-code emulation prevention
    /// marker byte.
    PrecisionTimeMarker,
    /// A specific timestamp source was requested but the stream does not
    /// carry it.
    TimestampSourceMissing,
    /// A timestamp, duration or threshold lies outside the supported
    /// range.
    TimestampOutOfRange,
    /// A camera's frames are not in non-decreasing timestamp order.
    UnorderedFrames,
}

impl ProcessError {
    /// A short human-readable description of the failure.
    pub fn describe(&self) -> (r: &'static str)
        ensures
            r@ == match self {
                ProcessError::NoFrameTiming => "neither archive nor input videos supply frame timing"@,
                ProcessError::UnorderedArchive => "archive moments are not in increasing timestamp order"@,
                ProcessError::BadImageGeometry => "frame buffer length inconsistent with its dimensions"@,
                ProcessError::PngEncodingFailed => "PNG encoding failed"@,
                ProcessError::SeiPayloadTooShort => "SEI payload too short to contain UserDataUnregistered message"@,
                ProcessError::PrecisionTimeLength => "unexpected payload length"@,
                ProcessError::PrecisionTimeMarker => "unexpected start code emulation prevention byte"@,
                ProcessError::TimestampSourceMissing => "requested timestamp source not present"@,
                ProcessError::TimestampOutOfRange => "timestamp, duration or threshold out of supported range"@,
                ProcessError::UnorderedFrames => "video frames are not in non-decreasing timestamp order"@,
            },
    {
        match self {
            ProcessError::NoFrameTiming => "neither archive nor input videos supply frame timing",
            ProcessError::UnorderedArchive => "archive moments are not in increasing timestamp order",
            ProcessError::BadImageGeometry => "frame buffer length inconsistent with its dimensions",
            ProcessError::PngEncodingFailed => "PNG encoding failed",
            ProcessError::SeiPayloadTooShort => "SEI payload too short to contain UserDataUnregistered message",
            ProcessError::PrecisionTimeLength => "unexpected payload length",
            ProcessError::PrecisionTimeMarker => "unexpected start code emulation prevention byte",
            ProcessError::TimestampSourceMissing => "requested timestamp source not present",
            ProcessError::TimestampOutOfRange => "timestamp, duration or threshold out of supported range",
            ProcessError::UnorderedFrames => "video frames are not in non-decreasing timestamp order",
        }
    }
}

} // verus!

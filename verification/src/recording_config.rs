use vstd::prelude::*;

use crate::h264_meta::H264Metadata;

verus! {

/// Frame-rate cap applied while recording.
#[derive(Clone, Copy, PartialEq, Eq, Structural, Debug)]
pub enum RecordingFrameRate {
    Fps1,
    Fps2,
    Fps5,
    Fps10,
    Fps20,
    Fps25,
    Fps30,
    Fps40,
    Fps50,
    Fps60,
    Fps100,
    Unlimited,
}

impl RecordingFrameRate {
    /// The interval between recorded frames, in nanoseconds; zero when
    /// the rate is unlimited.
    pub fn interval(&self) -> (r: u64)
        ensures
            r == match self {
                RecordingFrameRate::Fps1 => 1000000000u64,
                RecordingFrameRate::Fps2 => 500000000u64,
                RecordingFrameRate::Fps5 => 200000000u64,
                RecordingFrameRate::Fps10 => 100000000u64,
                RecordingFrameRate::Fps20 => 50000000u64,
                RecordingFrameRate::Fps25 => 40000000u64,
                RecordingFrameRate::Fps30 => 33333333u64,
                RecordingFrameRate::Fps40 => 25000000u64,
                RecordingFrameRate::Fps50 => 20000000u64,
                RecordingFrameRate::Fps60 => 16666667u64,
                RecordingFrameRate::Fps100 => 10000000u64,
                RecordingFrameRate::Unlimited => 0u64,
            },
    {
        match self {
            RecordingFrameRate::Fps1 => 1000000000,
            RecordingFrameRate::Fps2 => 500000000,
            RecordingFrameRate::Fps5 => 200000000,
            RecordingFrameRate::Fps10 => 100000000,
            RecordingFrameRate::Fps20 => 50000000,
            RecordingFrameRate::Fps25 => 40000000,
            RecordingFrameRate::Fps30 => 33333333,
            RecordingFrameRate::Fps40 => 25000000,
            RecordingFrameRate::Fps50 => 20000000,
            RecordingFrameRate::Fps60 => 16666667,
            RecordingFrameRate::Fps100 => 10000000,
            RecordingFrameRate::Unlimited => 0,
        }
    }

    /// The rate as a numerator and denominator pair; nothing when the
    /// rate is unlimited.
    pub fn as_numerator_denominator(&self) -> (r: Option<(u32, u32)>)
        ensures
            r == match self {
                RecordingFrameRate::Fps1 => Some((1u32, 1u32)),
                RecordingFrameRate::Fps2 => Some((2u32, 1u32)),
                RecordingFrameRate::Fps5 => Some((5u32, 1u32)),
                RecordingFrameRate::Fps10 => Some((10u32, 1u32)),
                RecordingFrameRate::Fps20 => Some((20u32, 1u32)),
                RecordingFrameRate::Fps25 => Some((25u32, 1u32)),
                RecordingFrameRate::Fps30 => Some((30u32, 1u32)),
                RecordingFrameRate::Fps40 => Some((40u32, 1u32)),
                RecordingFrameRate::Fps50 => Some((50u32, 1u32)),
                RecordingFrameRate::Fps60 => Some((60u32, 1u32)),
                RecordingFrameRate::Fps100 => Some((100u32, 1u32)),
                RecordingFrameRate::Unlimited => None::<(u32, u32)>,
            },
    {
        match self {
            RecordingFrameRate::Fps1 => Some((1, 1)),
            RecordingFrameRate::Fps2 => Some((2, 1)),
            RecordingFrameRate::Fps5 => Some((5, 1)),
            RecordingFrameRate::Fps10 => Some((10, 1)),
            RecordingFrameRate::Fps20 => Some((20, 1)),
            RecordingFrameRate::Fps25 => Some((25, 1)),
            RecordingFrameRate::Fps30 => Some((30, 1)),
            RecordingFrameRate::Fps40 => Some((40, 1)),
            RecordingFrameRate::Fps50 => Some((50, 1)),
            RecordingFrameRate::Fps60 => Some((60, 1)),
            RecordingFrameRate::Fps100 => Some((100, 1)),
            RecordingFrameRate::Unlimited => None,
        }
    }

    /// The rate's display text.
    pub fn label(&self) -> (r: &'static str)
        ensures
            r@ == match self {
                RecordingFrameRate::Fps1 => "1 fps"@,
                RecordingFrameRate::Fps2 => "2 fps"@,
                RecordingFrameRate::Fps5 => "5 fps"@,
                RecordingFrameRate::Fps10 => "10 fps"@,
                RecordingFrameRate::Fps20 => "20 fps"@,
                RecordingFrameRate::Fps25 => "25 fps"@,
                RecordingFrameRate::Fps30 => "30 fps"@,
                RecordingFrameRate::Fps40 => "40 fps"@,
                RecordingFrameRate::Fps50 => "50 fps"@,
                RecordingFrameRate::Fps60 => "60 fps"@,
                RecordingFrameRate::Fps100 => "100 fps"@,
                RecordingFrameRate::Unlimited => "unlimited"@,
            },
    {
        match self {
            RecordingFrameRate::Fps1 => "1 fps",
            RecordingFrameRate::Fps2 => "2 fps",
            RecordingFrameRate::Fps5 => "5 fps",
            RecordingFrameRate::Fps10 => "10 fps",
            RecordingFrameRate::Fps20 => "20 fps",
            RecordingFrameRate::Fps25 => "25 fps",
            RecordingFrameRate::Fps30 => "30 fps",
            RecordingFrameRate::Fps40 => "40 fps",
            RecordingFrameRate::Fps50 => "50 fps",
            RecordingFrameRate::Fps60 => "60 fps",
            RecordingFrameRate::Fps100 => "100 fps",
            RecordingFrameRate::Unlimited => "unlimited",
        }
    }

    /// All rates, in ascending order, the unlimited rate last.
    pub fn variants() -> (r: Vec<RecordingFrameRate>)
        ensures
            r@ =~= seq![
                RecordingFrameRate::Fps1,
                RecordingFrameRate::Fps2,
                RecordingFrameRate::Fps5,
                RecordingFrameRate::Fps10,
                RecordingFrameRate::Fps20,
                RecordingFrameRate::Fps25,
                RecordingFrameRate::Fps30,
                RecordingFrameRate::Fps40,
                RecordingFrameRate::Fps50,
                RecordingFrameRate::Fps60,
                RecordingFrameRate::Fps100,
                RecordingFrameRate::Unlimited,
            ],
    {
        let mut v: Vec<RecordingFrameRate> = Vec::new();
        v.push(RecordingFrameRate::Fps1);
        v.push(RecordingFrameRate::Fps2);
        v.push(RecordingFrameRate::Fps5);
        v.push(RecordingFrameRate::Fps10);
        v.push(RecordingFrameRate::Fps20);
        v.push(RecordingFrameRate::Fps25);
        v.push(RecordingFrameRate::Fps30);
        v.push(RecordingFrameRate::Fps40);
        v.push(RecordingFrameRate::Fps50);
        v.push(RecordingFrameRate::Fps60);
        v.push(RecordingFrameRate::Fps100);
        v.push(RecordingFrameRate::Unlimited);
        v
    }
}

impl Default for RecordingFrameRate {
    /// The default rate puts no cap on recording.
    fn default() -> (r: Self)
        ensures
            r == RecordingFrameRate::Unlimited,
    {
        RecordingFrameRate::Unlimited
    }
}

/// Which encoder produces the MP4's H264 stream.
#[derive(Clone, PartialEq, Eq, Structural, Debug)]
pub enum Mp4Codec {
    /// Encode with the GPU vendor's hardware encoder.
    H264NvEnc(NvidiaH264Options),
    /// Encode with the portable software encoder.
    H264OpenH264(OpenH264Options),
    /// Encode with the minimal lossless encoder.
    H264LessAvc,
    /// The data is already an encoded raw H264 stream.
    H264RawStream,
}

/// Options for the portable software H264 encoder.
#[derive(Clone, Copy, PartialEq, Eq, Structural, Debug)]
pub struct OpenH264Options {
    /// Whether the encoder should emit debug messages.
    pub debug: bool,
    pub preset: OpenH264Preset,
}

impl OpenH264Options {
    /// Whether the encoder should emit debug messages.
    pub fn debug(&self) -> (r: bool)
        ensures
            r == self.debug,
    {
        self.debug
    }

    /// Whether the encoder may skip frames to hold a bitrate.
    pub fn enable_skip_frame(&self) -> (r: bool)
        ensures
            r == (self.preset is SkipFramesBitrate),
    {
        match self.preset {
            OpenH264Preset::AllFrames => false,
            OpenH264Preset::SkipFramesBitrate(_) => true,
        }
    }

    /// The encoder's rate-control mode: off when every frame is kept,
    /// bitrate-driven otherwise.
    pub fn rate_control_mode(&self) -> (r: OpenH264RateControlMode)
        ensures
            r == match self.preset {
                OpenH264Preset::AllFrames => OpenH264RateControlMode::Off,
                OpenH264Preset::SkipFramesBitrate(_) => OpenH264RateControlMode::Bitrate,
            },
    {
        match self.preset {
            OpenH264Preset::AllFrames => OpenH264RateControlMode::Off,
            OpenH264Preset::SkipFramesBitrate(_) => OpenH264RateControlMode::Bitrate,
        }
    }

    /// The target bitrate in bits per second; zero when every frame is
    /// kept.
    pub fn bitrate_bps(&self) -> (r: u32)
        ensures
            r == match self.preset {
                OpenH264Preset::AllFrames => 0u32,
                OpenH264Preset::SkipFramesBitrate(b) => b,
            },
    {
        match self.preset {
            OpenH264Preset::AllFrames => 0,
            OpenH264Preset::SkipFramesBitrate(bitrate) => bitrate,
        }
    }
}

impl Default for OpenH264Options {
    /// By default the encoder is quiet and uses the default preset.
    fn default() -> (r: Self)
        ensures
            r.debug == false,
            r.preset == OpenH264Preset::SkipFramesBitrate(5000u32),
    {
        OpenH264Options { debug: false, preset: OpenH264Preset::SkipFramesBitrate(5000) }
    }
}

/// Encoding preset of the portable software H264 encoder.
#[derive(Clone, Copy, PartialEq, Eq, Structural, Debug)]
pub enum OpenH264Preset {
    /// Keep every frame.
    AllFrames,
    /// Hold the given bitrate, skipping frames when needed.
    SkipFramesBitrate(u32),
}

impl Default for OpenH264Preset {
    /// The default preset holds a 5000 bits-per-second budget.
    fn default() -> (r: Self)
        ensures
            r == OpenH264Preset::SkipFramesBitrate(5000u32),
    {
        OpenH264Preset::SkipFramesBitrate(5000)
    }
}

/// Rate-control modes of the portable software H264 encoder.
#[derive(Clone, Copy, PartialEq, Eq, Structural, Debug)]
pub enum OpenH264RateControlMode {
    /// Quality mode.
    Quality,
    /// Bitrate mode.
    Bitrate,
    /// No bitrate control; adjust quality from buffer status alone.
    Bufferbased,
    /// Rate control based on timestamps.
    Timestamp,
    /// Rate control off.
    Off,
}

/// Options for the GPU vendor's hardware H264 encoder.
#[derive(Clone, Copy, PartialEq, Eq, Structural, Debug)]
pub struct NvidiaH264Options {
    /// The bitrate, used in association with the frame rate.
    pub bitrate: u32,
    /// The device number of the GPU to use.
    pub cuda_device: i32,
}

impl Default for NvidiaH264Options {
    /// By default: a 1000 bitrate on the first device.
    fn default() -> (r: Self)
        ensures
            r.bitrate == 1000u32,
            r.cuda_device == 0i32,
    {
        NvidiaH264Options { bitrate: 1000, cuda_device: 0 }
    }
}

/// Everything an MP4 recording needs: the codec, the frame-rate cap, and
/// the optional stream metadata.
pub struct Mp4RecordingConfig {
    pub codec: Mp4Codec,
    /// Limits the recording to a maximum frame rate.
    pub max_framerate: RecordingFrameRate,
    pub h264_metadata: Option<H264Metadata>,
}

/// Whether detection results are saved as CSV, with an optional
/// frame-rate limit given as an IEEE 754 single-precision bit pattern.
#[derive(Clone, Copy, PartialEq, Eq, Structural, Debug)]
pub enum CsvSaveConfig {
    /// Do not save CSV.
    NotSaving,
    /// Save CSV, limited to the given frame rate when one is set.
    Saving(Option<u32>),
}

/// The fiducial marker families the tag detector can use.
#[derive(Clone, Copy, PartialEq, Eq, Structural, Debug)]
pub enum TagFamily {
    Family36h11,
    FamilyStandard41h12,
    Family16h5,
    Family25h9,
    FamilyCircle21h7,
    FamilyCircle49h12,
    FamilyCustom48h12,
    FamilyStandard52h13,
}

impl TagFamily {
    /// The family's display text.
    pub fn label(&self) -> (r: &'static str)
        ensures
            r@ == match self {
                TagFamily::Family36h11 => "36h11"@,
                TagFamily::FamilyStandard41h12 => "standard-41h12"@,
                TagFamily::Family16h5 => "16h5"@,
                TagFamily::Family25h9 => "25h9"@,
                TagFamily::FamilyCircle21h7 => "circle-21h7"@,
                TagFamily::FamilyCircle49h12 => "circle-49h12"@,
                TagFamily::FamilyCustom48h12 => "custom-48h12"@,
                TagFamily::FamilyStandard52h13 => "standard-52h13"@,
            },
    {
        match self {
            TagFamily::Family36h11 => "36h11",
            TagFamily::FamilyStandard41h12 => "standard-41h12",
            TagFamily::Family16h5 => "16h5",
            TagFamily::Family25h9 => "25h9",
            TagFamily::FamilyCircle21h7 => "circle-21h7",
            TagFamily::FamilyCircle49h12 => "circle-49h12",
            TagFamily::FamilyCustom48h12 => "custom-48h12",
            TagFamily::FamilyStandard52h13 => "standard-52h13",
        }
    }

    /// All families.
    pub fn variants() -> (r: Vec<TagFamily>)
        ensures
            r@ =~= seq![
                TagFamily::Family36h11,
                TagFamily::FamilyStandard41h12,
                TagFamily::Family16h5,
                TagFamily::Family25h9,
                TagFamily::FamilyCircle21h7,
                TagFamily::FamilyCircle49h12,
                TagFamily::FamilyCustom48h12,
                TagFamily::FamilyStandard52h13,
            ],
    {
        let mut v: Vec<TagFamily> = Vec::new();
        v.push(TagFamily::Family36h11);
        v.push(TagFamily::FamilyStandard41h12);
        v.push(TagFamily::Family16h5);
        v.push(TagFamily::Family25h9);
        v.push(TagFamily::FamilyCircle21h7);
        v.push(TagFamily::FamilyCircle49h12);
        v.push(TagFamily::FamilyCustom48h12);
        v.push(TagFamily::FamilyStandard52h13);
        v
    }
}

impl Default for TagFamily {
    /// The default family.
    fn default() -> (r: Self)
        ensures
            r == TagFamily::Family36h11,
    {
        TagFamily::Family36h11
    }
}

/// Selectable recording bitrates.
#[derive(Clone, Copy, PartialEq, Eq, Structural, Debug)]
pub enum BitrateSelection {
    Bitrate500,
    Bitrate1000,
    Bitrate2000,
    Bitrate3000,
    Bitrate4000,
    Bitrate5000,
    Bitrate10000,
    BitrateUnlimited,
}

impl BitrateSelection {
    /// The selection's display text.
    pub fn label(&self) -> (r: &'static str)
        ensures
            r@ == match self {
                BitrateSelection::Bitrate500 => "500"@,
                BitrateSelection::Bitrate1000 => "1000"@,
                BitrateSelection::Bitrate2000 => "2000"@,
                BitrateSelection::Bitrate3000 => "3000"@,
                BitrateSelection::Bitrate4000 => "4000"@,
                BitrateSelection::Bitrate5000 => "5000"@,
                BitrateSelection::Bitrate10000 => "10000"@,
                BitrateSelection::BitrateUnlimited => "Unlimited"@,
            },
    {
        match self {
            BitrateSelection::Bitrate500 => "500",
            BitrateSelection::Bitrate1000 => "1000",
            BitrateSelection::Bitrate2000 => "2000",
            BitrateSelection::Bitrate3000 => "3000",
            BitrateSelection::Bitrate4000 => "4000",
            BitrateSelection::Bitrate5000 => "5000",
            BitrateSelection::Bitrate10000 => "10000",
            BitrateSelection::BitrateUnlimited => "Unlimited",
        }
    }

    /// All selectable bitrates, ascending, the unlimited one last.
    pub fn variants() -> (r: Vec<BitrateSelection>)
        ensures
            r@ =~= seq![
                BitrateSelection::Bitrate500,
                BitrateSelection::Bitrate1000,
                BitrateSelection::Bitrate2000,
                BitrateSelection::Bitrate3000,
                BitrateSelection::Bitrate4000,
                BitrateSelection::Bitrate5000,
                BitrateSelection::Bitrate10000,
                BitrateSelection::BitrateUnlimited,
            ],
    {
        let mut v: Vec<BitrateSelection> = Vec::new();
        v.push(BitrateSelection::Bitrate500);
        v.push(BitrateSelection::Bitrate1000);
        v.push(BitrateSelection::Bitrate2000);
        v.push(BitrateSelection::Bitrate3000);
        v.push(BitrateSelection::Bitrate4000);
        v.push(BitrateSelection::Bitrate5000);
        v.push(BitrateSelection::Bitrate10000);
        v.push(BitrateSelection::BitrateUnlimited);
        v
    }
}

impl Default for BitrateSelection {
    /// The default bitrate selection.
    fn default() -> (r: Self)
        ensures
            r == BitrateSelection::Bitrate1000,
    {
        BitrateSelection::Bitrate1000
    }
}

/// Selectable encoders.
#[derive(Clone, Copy, PartialEq, Eq, Structural, Debug)]
pub enum CodecSelection {
    H264Nvenc,
    H264OpenH264,
}

impl CodecSelection {
    /// The selection's display text.
    pub fn label(&self) -> (r: &'static str)
        ensures
            r@ == match self {
                CodecSelection::H264Nvenc => "H264Nvenc"@,
                CodecSelection::H264OpenH264 => "H264OpenH264"@,
            },
    {
        match self {
            CodecSelection::H264Nvenc => "H264Nvenc",
            CodecSelection::H264OpenH264 => "H264OpenH264",
        }
    }

    /// All selectable encoders.
    pub fn variants() -> (r: Vec<CodecSelection>)
        ensures
            r@ =~= seq![CodecSelection::H264Nvenc, CodecSelection::H264OpenH264],
    {
        let mut v: Vec<CodecSelection> = Vec::new();
        v.push(CodecSelection::H264Nvenc);
        v.push(CodecSelection::H264OpenH264);
        v
    }
}

} // verus!

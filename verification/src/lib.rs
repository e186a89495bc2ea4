//! Retrospective reconstruction of a single, time-aligned multi-camera
//! video and tracking stream from independently recorded inputs: per-camera
//! video files with their own start times, and/or a previously recorded
//! multi-camera 2D-detection archive that carries per-camera-number point
//! observations and trigger timestamps.
//!
//! The verified core is the stream reconciliation and synchronization
//! engine: camera-identity matching between video files and archive
//! records, startup alignment, the frame-interleaving merge that produces
//! synchronized per-moment bundles, and the per-moment fusion step that
//! attaches image and 2D-point data to each camera for a moment.
//!
//! All timestamps are plain integers, microseconds since the UNIX epoch;
//! decoded images are plain pixel buffers; detection coordinates are IEEE
//! 754 bit patterns. Reading video containers and archives from disk, and
//! writing output sinks, happen outside the library, which receives and
//! returns plain values.

pub mod align;
pub mod camera_id;
pub mod camera_info;
pub mod config;
pub mod data2d;
pub mod errors;
pub mod frame_data;
pub mod h264_meta;
pub mod merge;
pub mod peek2;
pub mod recording_config;
pub mod render;
pub mod run;
pub mod timebase;

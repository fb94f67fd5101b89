//! The data model: one inspected file's result, the plain-value form of what
//! the probing engine reports, and the library's error types.

use vstd::prelude::*;

verus! {

/// One inspected file's result. Built once per file and only read thereafter.
#[derive(Debug)]
pub struct AudioInfo {
    /// Display string of the source path.
    pub file_path: String,
    /// Sample rate in Hz, when the probe determined it.
    pub sample_rate: Option<u32>,
    /// Channel count, when the probe reported a channel layout.
    pub channels: Option<u8>,
    /// Whole seconds of playing time, when both a time base and a frame
    /// count were available.
    pub duration_seconds: Option<u64>,
    /// Average bitrate in kilobits per second; present only when the
    /// duration is known and non-zero.
    pub avg_bitrate_kbps: Option<u32>,
    /// Normalized (key, value) pairs in the order the metadata block exposed
    /// them; duplicate keys are kept as separate entries.
    pub tags: Vec<(String, String)>,
    /// Exact byte length of the file on disk.
    pub file_size_bytes: u64,
    /// Human-readable codec identifier, when known.
    pub codec: Option<String>,
}

/// Codec parameters of one track, as plain values.
pub struct TrackData {
    /// Sample rate in Hz, if the probe determined it.
    pub sample_rate: Option<u32>,
    /// Bit mask of the channel layout, if the probe determined it; the
    /// channel count is the number of set bits.
    pub channel_bits: Option<u32>,
    /// Time base as (numerator, denominator): seconds per tick.
    pub time_base: Option<(u32, u32)>,
    /// Total number of frames (ticks), if known.
    pub n_frames: Option<u64>,
    /// Codec identifier in display form, when known.
    pub codec: Option<String>,
}

/// One tag from the probe's metadata block, as plain values.
pub struct RawTag {
    /// Display name of the standardized key, when the format recognized one.
    pub std_key: Option<String>,
    /// The format-specific raw key.
    pub key: String,
    /// The tag's value in display form.
    pub value: String,
}

/// Everything the probe reported of one file: its tracks, in order, and the
/// tags of the current metadata block, in order.
pub struct ProbeData {
    pub tracks: Vec<TrackData>,
    pub tags: Vec<RawTag>,
}

/// A failure while expanding the user-supplied inputs into a file list.
#[derive(Debug)]
pub enum DiscoveryError {
    /// A path that exists as neither file nor directory.
    FileNotFound(String),
    /// A directory argument given while directory walking was not enabled.
    IsDirectory(String),
    /// Discovery finished without a single audio file.
    NoAudioFiles,
}

impl DiscoveryError {
    /// The diagnostic text of this error.
    pub open spec fn message_spec(&self) -> Seq<char> {
        match self {
            DiscoveryError::FileNotFound(p) => "File not found: "@ + p@,
            DiscoveryError::IsDirectory(p) => p@
                + " is a directory (use --recursive to process directories)"@,
            DiscoveryError::NoAudioFiles => "No audio files found"@,
        }
    }

    /// Renders the diagnostic text of this error.
    pub fn message(&self) -> (r: String)
        ensures
            r@ == self.message_spec(),
    {
        match self {
            DiscoveryError::FileNotFound(p) => {
                let mut m = String::from_str("File not found: ");
                m.append(p.as_str());
                m
            },
            DiscoveryError::IsDirectory(p) => {
                let mut m = p.clone();
                m.append(" is a directory (use --recursive to process directories)");
                m
            },
            DiscoveryError::NoAudioFiles => String::from_str("No audio files found"),
        }
    }
}

/// A failure while extracting metadata from one probed file.
#[derive(Debug)]
pub enum ExtractError {
    /// The probed container exposed no track at all.
    NoSupportedTrack,
}

impl ExtractError {
    /// The diagnostic text of this error.
    pub open spec fn message_spec(&self) -> Seq<char> {
        "No supported audio track"@
    }

    /// Renders the diagnostic text of this error.
    pub fn message(&self) -> (r: String)
        ensures
            r@ == self.message_spec(),
    {
        String::from_str("No supported audio track")
    }
}

} // verus!

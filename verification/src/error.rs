//! The transcoder's error vocabulary and its user-facing messages.

use vstd::prelude::*;
use vstd::string::*;

verus! {

/// Why the webm duration patch could not be applied.
#[derive(Debug, Clone, Copy, PartialEq, Eq)]
pub enum PatchFault {
    /// The output file could not be read.
    ReadFailed,
    /// The output file could not be opened for writing.
    OpenFailed,
    /// Writing the patched payload failed.
    WriteFailed,
    /// No Duration element before the first Cluster.
    NotFound,
    /// The Duration element's payload would run past the first Cluster or EOF.
    TooCloseToEof,
}

impl PatchFault {
    pub open spec fn spec_reason(self) -> Seq<char> {
        match self {
            PatchFault::ReadFailed => "failed to read output file"@,
            PatchFault::OpenFailed => "failed to open output file"@,
            PatchFault::WriteFailed => "error writing file"@,
            PatchFault::NotFound => "binary sequence not found"@,
            PatchFault::TooCloseToEof => "binary sequence too close to EOF"@,
        }
    }

    /// The reason text shown after "duration patch failed: ".
    pub fn reason(&self) -> (r: &'static str)
        ensures
            r@ == self.spec_reason(),
    {
        match self {
            PatchFault::ReadFailed => "failed to read output file",
            PatchFault::OpenFailed => "failed to open output file",
            PatchFault::WriteFailed => "error writing file",
            PatchFault::NotFound => "binary sequence not found",
            PatchFault::TooCloseToEof => "binary sequence too close to EOF",
        }
    }
}

/// Everything a transcode attempt can fail with.
#[derive(Debug, Clone, PartialEq, Eq)]
pub enum TranscodeError {
    InvalidMediaType,
    InvalidDuration,
    InvalidOutputPath,
    OutputNotSet,
    Cancelled,
    DurationPatch(PatchFault),
    SizeCheck(String),
    Join(String),
    UnsupportedEngine(&'static str),
    Spawn,
    ReadOutput,
    FfmpegFailed(String),
    ImagePipe(&'static str),
    OutputWrite(String),
    EncoderNotFound(&'static str),
    Decoder(String),
    Encoder(String),
    Filter(String),
    Muxer(String),
    /// A libav error raised while opening containers or codec contexts,
    /// carried as the library's own description of it.
    Ffmpeg(String),
    Engine(String),
}

/// `prefix` followed by `detail`.
pub open spec fn prefixed(prefix: &str, detail: Seq<char>) -> Seq<char> {
    prefix@ + detail
}

impl TranscodeError {
    /// The message shown to the user for this error.
    pub open spec fn spec_message(&self) -> Seq<char> {
        match self {
            TranscodeError::InvalidMediaType => "invalid media type"@,
            TranscodeError::InvalidDuration => "invalid media duration"@,
            TranscodeError::InvalidOutputPath => "invalid output path"@,
            TranscodeError::OutputNotSet => "output not set"@,
            TranscodeError::Cancelled => "cancelled"@,
            TranscodeError::DurationPatch(f) => prefixed("duration patch failed: ", f.spec_reason()),
            TranscodeError::SizeCheck(s) => prefixed("size check failed: ", s@),
            TranscodeError::Join(s) => prefixed("join error: ", s@),
            TranscodeError::UnsupportedEngine(s) => prefixed("unsupported engine: ", s@),
            TranscodeError::Spawn => "failed to spawn ffmpeg"@,
            TranscodeError::ReadOutput => "failed to read ffmpeg output"@,
            TranscodeError::FfmpegFailed(s) => prefixed("ffmpeg failed: ", s@),
            TranscodeError::ImagePipe(s) => prefixed("image pipeline failed: ", s@),
            TranscodeError::OutputWrite(s) => prefixed("failed to write output: ", s@),
            TranscodeError::EncoderNotFound(s) => prefixed("encoder not found: ", s@),
            TranscodeError::Decoder(s) => prefixed("decoder error: ", s@),
            TranscodeError::Encoder(s) => prefixed("encoder error: ", s@),
            TranscodeError::Filter(s) => prefixed("filter graph error: ", s@),
            TranscodeError::Muxer(s) => prefixed("muxer error: ", s@),
            TranscodeError::Ffmpeg(s) => prefixed("ffmpeg error: ", s@),
            TranscodeError::Engine(s) => prefixed("engine error: ", s@),
        }
    }

    /// The message shown to the user for this error.
    pub fn message(&self) -> (r: String)
        ensures
            r@ == self.spec_message(),
    {
        match self {
            TranscodeError::InvalidMediaType => String::from_str("invalid media type"),
            TranscodeError::InvalidDuration => String::from_str("invalid media duration"),
            TranscodeError::InvalidOutputPath => String::from_str("invalid output path"),
            TranscodeError::OutputNotSet => String::from_str("output not set"),
            TranscodeError::Cancelled => String::from_str("cancelled"),
            TranscodeError::DurationPatch(f) => join("duration patch failed: ", f.reason()),
            TranscodeError::SizeCheck(s) => join("size check failed: ", s.as_str()),
            TranscodeError::Join(s) => join("join error: ", s.as_str()),
            TranscodeError::UnsupportedEngine(s) => join("unsupported engine: ", s),
            TranscodeError::Spawn => String::from_str("failed to spawn ffmpeg"),
            TranscodeError::ReadOutput => String::from_str("failed to read ffmpeg output"),
            TranscodeError::FfmpegFailed(s) => join("ffmpeg failed: ", s.as_str()),
            TranscodeError::ImagePipe(s) => join("image pipeline failed: ", s),
            TranscodeError::OutputWrite(s) => join("failed to write output: ", s.as_str()),
            TranscodeError::EncoderNotFound(s) => join("encoder not found: ", s),
            TranscodeError::Decoder(s) => join("decoder error: ", s.as_str()),
            TranscodeError::Encoder(s) => join("encoder error: ", s.as_str()),
            TranscodeError::Filter(s) => join("filter graph error: ", s.as_str()),
            TranscodeError::Muxer(s) => join("muxer error: ", s.as_str()),
            TranscodeError::Ffmpeg(s) => join("ffmpeg error: ", s.as_str()),
            TranscodeError::Engine(s) => join("engine error: ", s.as_str()),
        }
    }
}

/// `prefix` immediately followed by `detail`, as a new string.
pub fn join(prefix: &str, detail: &str) -> (r: String)
    ensures
        r@ == prefix@ + detail@,
{
    let mut r = String::from_str(prefix);
    r.append(detail);
    r
}

} // verus!

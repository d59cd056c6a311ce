//! What the engine knows of a decoded track, and the decisions of the
//! packet loop.

use vstd::prelude::*;
use vstd::string::*;

verus! {

/// Why a track could not be opened or decoded.
#[derive(Debug, Clone)]
pub enum DecoderError {
    /// The file could not be opened; the text is the I/O error.
    FileOpen(String),
    UnsupportedFormat,
    NoAudioTrack,
    /// The decoder failed; the text is its message.
    Decoder(String),
    /// The container could not be probed; the text is the prober's message.
    Probe(String),
}

/// Audio format information of an opened track.
#[derive(Debug, Clone, Copy, PartialEq, Eq, Structural)]
pub struct AudioInfo {
    pub sample_rate: u32,
    pub channels: usize,
    pub total_frames: Option<u64>,
}

/// Rate assumed when the container names none.
pub const DEFAULT_SAMPLE_RATE: u32 = 44100;

/// Channel count assumed when the container names none.
pub const DEFAULT_CHANNELS: usize = 2;

/// What came of reading the next packet from the container.
#[derive(Debug, Clone, Copy, PartialEq, Eq, Structural)]
pub enum ReadOutcome {
    /// A packet of the selected track.
    Packet,
    /// A packet of another track.
    OtherTrack,
    /// The reader ran out of data.
    UnexpectedEof,
    /// Any other reader error.
    Failed,
}

/// What came of decoding a packet.
#[derive(Debug, Clone, Copy, PartialEq, Eq, Structural)]
pub enum DecodeOutcome {
    /// Samples were decoded.
    Samples,
    /// The packet was malformed.
    BadPacket,
    /// Any other decoder error.
    Failed,
}

/// What the packet loop does next.
#[derive(Debug, Clone, Copy, PartialEq, Eq, Structural)]
pub enum DecodeStep {
    /// Hand the packet to the decoder.
    Decode,
    /// Hand the decoded samples to the caller.
    Yield,
    /// Go on with the next packet.
    Skip,
    /// The stream has ended cleanly.
    End,
    /// Give up with a decoder error.
    Fail,
}

/// The step after a packet read: running out of data ends the stream
/// cleanly, packets of other tracks are passed over, and any other reader
/// error is fatal.
pub open spec fn step_after_read(outcome: ReadOutcome) -> DecodeStep {
    match outcome {
        ReadOutcome::Packet => DecodeStep::Decode,
        ReadOutcome::OtherTrack => DecodeStep::Skip,
        ReadOutcome::UnexpectedEof => DecodeStep::End,
        ReadOutcome::Failed => DecodeStep::Fail,
    }
}

/// The step after decoding: a malformed packet is skipped, any other
/// decoder error is fatal.
pub open spec fn step_after_decode(outcome: DecodeOutcome) -> DecodeStep {
    match outcome {
        DecodeOutcome::Samples => DecodeStep::Yield,
        DecodeOutcome::BadPacket => DecodeStep::Skip,
        DecodeOutcome::Failed => DecodeStep::Fail,
    }
}

/// Decides what follows a packet read.
pub fn after_read(outcome: ReadOutcome) -> (step: DecodeStep)
    ensures
        step == step_after_read(outcome),
{
    match outcome {
        ReadOutcome::Packet => DecodeStep::Decode,
        ReadOutcome::OtherTrack => DecodeStep::Skip,
        ReadOutcome::UnexpectedEof => DecodeStep::End,
        ReadOutcome::Failed => DecodeStep::Fail,
    }
}

/// Decides what follows the decoding of a packet.
pub fn after_decode(outcome: DecodeOutcome) -> (step: DecodeStep)
    ensures
        step == step_after_decode(outcome),
{
    match outcome {
        DecodeOutcome::Samples => DecodeStep::Yield,
        DecodeOutcome::BadPacket => DecodeStep::Skip,
        DecodeOutcome::Failed => DecodeStep::Fail,
    }
}

/// `idx` is the first track that has a codec.
pub open spec fn is_first_audio_track(has_codec: Seq<bool>, idx: int) -> bool {
    &&& 0 <= idx < has_codec.len()
    &&& has_codec[idx]
    &&& forall|j: int| 0 <= j < idx ==> !has_codec[j]
}

/// Picks the track to decode: the first one with a codec. A container
/// without such a track has no audio.
pub fn select_track(has_codec: &Vec<bool>) -> (res: Result<usize, DecoderError>)
    ensures
        match res {
            Ok(idx) => is_first_audio_track(has_codec@, idx as int),
            Err(e) => e is NoAudioTrack && forall|j: int|
                0 <= j < has_codec.len() ==> !has_codec@[j],
        },
{
    let mut i: usize = 0;
    while i < has_codec.len()
        invariant
            0 <= i <= has_codec.len(),
            forall|j: int| 0 <= j < i ==> !has_codec@[j],
        decreases has_codec.len() - i,
    {
        if has_codec[i] {
            return Ok(i);
        }
        i += 1;
    }
    Err(DecoderError::NoAudioTrack)
}

impl AudioInfo {
    /// The format of a track from what its container declares: a missing
    /// rate means 44.1 kHz and a missing channel layout means stereo.
    pub fn from_track(sample_rate: Option<u32>, channels: Option<usize>, total_frames: Option<u64>) -> (info: Self)
        ensures
            info.sample_rate == (match sample_rate {
                Some(r) => r,
                None => DEFAULT_SAMPLE_RATE,
            }),
            info.channels == (match channels {
                Some(c) => c,
                None => DEFAULT_CHANNELS,
            }),
            info.total_frames == total_frames,
    {
        AudioInfo {
            sample_rate: match sample_rate {
                Some(r) => r,
                None => DEFAULT_SAMPLE_RATE,
            },
            channels: match channels {
                Some(c) => c,
                None => DEFAULT_CHANNELS,
            },
            total_frames,
        }
    }
}

impl DecoderError {
    /// The text of the error.
    pub fn message(&self) -> (text: String)
        ensures
            text@ == (match self {
                DecoderError::FileOpen(e) => "Failed to open file: "@ + e@,
                DecoderError::UnsupportedFormat => "Unsupported format"@,
                DecoderError::NoAudioTrack => "No audio track found"@,
                DecoderError::Decoder(e) => "Decoder error: "@ + e@,
                DecoderError::Probe(e) => "Probe error: "@ + e@,
            }),
    {
        match self {
            DecoderError::FileOpen(e) => String::from_str("Failed to open file: ").concat(e.as_str()),
            DecoderError::UnsupportedFormat => String::from_str("Unsupported format"),
            DecoderError::NoAudioTrack => String::from_str("No audio track found"),
            DecoderError::Decoder(e) => String::from_str("Decoder error: ").concat(e.as_str()),
            DecoderError::Probe(e) => String::from_str("Probe error: ").concat(e.as_str()),
        }
    }
}

} // verus!

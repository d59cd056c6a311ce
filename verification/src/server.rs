//! Plain forms of the control surface's requests and replies, and the
//! naming of equalizer bands.

use vstd::prelude::*;
use crate::player::AudioDeviceInfo;
use crate::player::PlayerState;
use crate::player::bytes_equal;
use crate::processor::EQ_BANDS;

verus! {

/// Asks for a track to be loaded.
#[derive(Debug, Clone)]
pub struct LoadRequest {
    pub path: String,
}

/// Selects the output device and mode.
#[derive(Debug, Clone, Copy, PartialEq, Eq, Structural)]
pub struct ConfigureOutputRequest {
    pub device_id: Option<usize>,
    pub exclusive: Option<bool>,
}

/// Sets or clears the target sample rate.
#[derive(Debug, Clone, Copy, PartialEq, Eq, Structural)]
pub struct ConfigureUpsamplingRequest {
    pub target_samplerate: Option<u32>,
}

/// Names the kind of equalizer.
#[derive(Debug, Clone)]
pub struct SetEqTypeRequest {
    pub eq_type: String,
}

/// Switches optional processing on or off.
#[derive(Debug, Clone, Copy, PartialEq, Eq, Structural)]
pub struct ConfigureOptimizationsRequest {
    pub dither_enabled: Option<bool>,
    pub replaygain_enabled: Option<bool>,
}

/// The devices on offer.
#[derive(Debug, Clone)]
pub struct DevicesResponse {
    pub preferred: Vec<AudioDeviceInfo>,
    pub other: Vec<AudioDeviceInfo>,
    pub preferred_name: String,
}

/// The name of an equalizer band as bytes: `31`, `62`, `125`, `250`, `500`,
/// `1k`, `2k`, `4k`, `8k`, `16k`.
pub open spec fn band_name(band: int) -> Seq<u8> {
    if band == 0 {
        seq![51u8, 49u8]
    } else if band == 1 {
        seq![54u8, 50u8]
    } else if band == 2 {
        seq![49u8, 50u8, 53u8]
    } else if band == 3 {
        seq![50u8, 53u8, 48u8]
    } else if band == 4 {
        seq![53u8, 48u8, 48u8]
    } else if band == 5 {
        seq![49u8, 107u8]
    } else if band == 6 {
        seq![50u8, 107u8]
    } else if band == 7 {
        seq![52u8, 107u8]
    } else if band == 8 {
        seq![56u8, 107u8]
    } else {
        seq![49u8, 54u8, 107u8]
    }
}

fn band_name_bytes(band: usize) -> (name: Vec<u8>)
    requires
        band < EQ_BANDS,
    ensures
        name@ == band_name(band as int),
{
    let name: Vec<u8> = if band == 0 {
        vec![51u8, 49u8]
    } else if band == 1 {
        vec![54u8, 50u8]
    } else if band == 2 {
        vec![49u8, 50u8, 53u8]
    } else if band == 3 {
        vec![50u8, 53u8, 48u8]
    } else if band == 4 {
        vec![53u8, 48u8, 48u8]
    } else if band == 5 {
        vec![49u8, 107u8]
    } else if band == 6 {
        vec![50u8, 107u8]
    } else if band == 7 {
        vec![52u8, 107u8]
    } else if band == 8 {
        vec![56u8, 107u8]
    } else {
        vec![49u8, 54u8, 107u8]
    };
    proof {
        assert(name@ =~= band_name(band as int));
    }
    name
}

/// The band a name stands for: the first band that carries the name, and
/// none when no band does.
pub fn band_index(name: &[u8]) -> (band: Option<usize>)
    ensures
        match band {
            Some(b) => {
                &&& b < EQ_BANDS
                &&& name@ == band_name(b as int)
                &&& forall|j: int| 0 <= j < b ==> name@ != band_name(j)
            },
            None => forall|j: int| 0 <= j < EQ_BANDS ==> name@ != band_name(j),
        },
{
    let mut b: usize = 0;
    while b < EQ_BANDS
        invariant
            0 <= b <= EQ_BANDS,
            forall|j: int| 0 <= j < b ==> name@ != band_name(j),
        decreases EQ_BANDS - b,
    {
        let candidate = band_name_bytes(b);
        if bytes_equal(name, candidate.as_slice()) {
            return Some(b);
        }
        b += 1;
    }
    None
}

/// Whether a player in this state counts as playing and as paused.
pub fn playback_flags(state: PlayerState) -> (flags: (bool, bool))
    ensures
        flags.0 == (state == PlayerState::Playing),
        flags.1 == (state == PlayerState::Paused),
{
    match state {
        PlayerState::Playing => (true, false),
        PlayerState::Paused => (false, true),
        PlayerState::Stopped => (false, false),
    }
}

/// Takes over the output settings of a request: the device choice always,
/// the mode only when the request names one.
pub fn apply_output_request(request: ConfigureOutputRequest, exclusive_now: bool) -> (settings: (Option<usize>, bool))
    ensures
        settings.0 == request.device_id,
        settings.1 == (match request.exclusive {
            Some(e) => e,
            None => exclusive_now,
        }),
{
    let exclusive = match request.exclusive {
        Some(e) => e,
        None => exclusive_now,
    };
    (request.device_id, exclusive)
}

} // verus!

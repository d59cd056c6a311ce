//! The cache of resampled tracks: how a cache entry is named and how its
//! payload is laid out.
//!
//! A payload is the track's sample words, eight little-endian bytes each, in
//! interleaved frame order. An entry's name is the lower-case hex SHA-256 of
//! the source path, the target rate, the quality and the source length.

use vstd::prelude::*;
use vstd::bytes::*;
use vstd::slice::slice_subrange;
use vstd::string::*;
use sha2::Digest;
use sha2::Sha256;
use crate::config::ResampleQuality;
use crate::config::AppConfig;
use crate::config::quality_tag;
use crate::decoder::AudioInfo;
use crate::pipeline::estimate_output_frames;
use crate::pipeline::scaled_frames;
use crate::player::choose_target_rate;

verus! {

/// The SHA-256 digest of a byte string.
pub uninterp spec fn sha256_digest(data: Seq<u8>) -> Seq<u8>;

/// Calls `sha2::Sha256::digest`. Trusted: the result is the SHA-256 digest
/// of `data`, a function of the bytes alone, and is 32 bytes long.
#[verifier::external_body]
fn sha256(data: &Vec<u8>) -> (digest: Vec<u8>)
    ensures
        digest@ == sha256_digest(data@),
        digest@.len() == 32,
{
    Sha256::digest(data.as_slice()).to_vec()
}

/// The lower-case hex digit of a value below sixteen.
pub open spec fn hex_digit(n: int) -> char {
    if n == 0 {
        '0'
    } else if n == 1 {
        '1'
    } else if n == 2 {
        '2'
    } else if n == 3 {
        '3'
    } else if n == 4 {
        '4'
    } else if n == 5 {
        '5'
    } else if n == 6 {
        '6'
    } else if n == 7 {
        '7'
    } else if n == 8 {
        '8'
    } else if n == 9 {
        '9'
    } else if n == 10 {
        'a'
    } else if n == 11 {
        'b'
    } else if n == 12 {
        'c'
    } else if n == 13 {
        'd'
    } else if n == 14 {
        'e'
    } else {
        'f'
    }
}

/// Lower-case hex of a byte string: two digits per byte, high digit first.
pub open spec fn hex_string(bytes: Seq<u8>) -> Seq<char>
    decreases bytes.len(),
{
    if bytes.len() == 0 {
        Seq::empty()
    } else {
        hex_string(bytes.drop_last()).push(hex_digit(bytes.last() as int / 16)).push(
            hex_digit(bytes.last() as int % 16),
        )
    }
}

/// Calls `hex::encode`. Trusted: the result spells each byte as two
/// lower-case hex digits, high digit first, in order.
#[verifier::external_body]
fn hex_encode(bytes: &Vec<u8>) -> (text: String)
    ensures
        text@ == hex_string(bytes@),
{
    hex::encode(bytes)
}

/// The bytes that are hashed into a cache key: the source path, the target
/// rate (four bytes), the quality tag (one byte) and the number of source
/// samples (eight bytes), numbers little endian.
pub open spec fn key_material(
    path: Seq<u8>,
    target_rate: u32,
    quality: ResampleQuality,
    source_samples: u64,
) -> Seq<u8> {
    path + spec_u32_to_le_bytes(target_rate) + seq![quality_tag(quality)] + spec_u64_to_le_bytes(
        source_samples,
    )
}

/// The name of a cache entry.
pub open spec fn key_of(path: Seq<u8>, target_rate: u32, quality: ResampleQuality, source_samples: u64) -> Seq<char> {
    hex_string(sha256_digest(key_material(path, target_rate, quality, source_samples)))
}

/// Assembles the bytes that identify a resampled track.
pub fn cache_key_material(path: &str, target_rate: u32, quality: ResampleQuality, source_samples: u64) -> (material: Vec<u8>)
    ensures
        material@ == key_material(path.spec_bytes(), target_rate, quality, source_samples),
{
    let raw = path.as_bytes();
    let mut material: Vec<u8> = Vec::new();
    let mut i: usize = 0;
    while i < raw.len()
        invariant
            0 <= i <= raw.len(),
            material@ == raw@.take(i as int),
        decreases raw.len() - i,
    {
        material.push(raw[i]);
        proof {
            assert(raw@.take(i + 1) =~= raw@.take(i as int).push(raw@[i as int]));
        }
        i += 1;
    }
    proof {
        assert(raw@.take(i as int) =~= raw@);
    }
    let mut rate = u32_to_le_bytes(target_rate);
    material.append(&mut rate);
    material.push(quality.cache_tag());
    let mut count = u64_to_le_bytes(source_samples);
    material.append(&mut count);
    proof {
        assert(material@ =~= key_material(path.spec_bytes(), target_rate, quality, source_samples));
    }
    material
}

/// The name of the cache entry for a track resampled to `target_rate`.
pub fn cache_key(path: &str, target_rate: u32, quality: ResampleQuality, source_samples: u64) -> (key: String)
    ensures
        key@ == key_of(path.spec_bytes(), target_rate, quality, source_samples),
{
    let material = cache_key_material(path, target_rate, quality, source_samples);
    let digest = sha256(&material);
    hex_encode(&digest)
}

/// Where a cache entry lives: a directory and a file name in it.
#[derive(Debug, Clone)]
pub struct CacheLocation {
    pub dir: String,
    pub file_name: String,
}

/// The file name of a cache entry: its key followed by `.bin`.
pub fn cache_file_name(key: String) -> (name: String)
    ensures
        name@ == key@ + ".bin"@,
{
    key.concat(".bin")
}

/// Where the resampled form of a track is cached, if caching is on: in the
/// configured directory, or in `resample_cache` when none is configured.
pub fn cache_location(
    config: &AppConfig,
    path: &str,
    target_rate: u32,
    source_samples: u64,
) -> (place: Option<CacheLocation>)
    ensures
        place is Some <==> config.use_cache,
        match place {
            Some(p) => {
                &&& p.dir@ == (match config.cache_dir {
                    Some(d) => d@,
                    None => "resample_cache"@,
                })
                &&& p.file_name@ == key_of(
                    path.spec_bytes(),
                    target_rate,
                    config.resample_quality,
                    source_samples,
                ) + ".bin"@
            },
            None => true,
        },
{
    if !config.use_cache {
        return None;
    }
    let dir = match &config.cache_dir {
        Some(d) => d.clone(),
        None => String::from_str("resample_cache"),
    };
    let key = cache_key(path, target_rate, config.resample_quality, source_samples);
    Some(CacheLocation { dir, file_name: cache_file_name(key) })
}

/// The payload of a track: each sample word as eight little-endian bytes.
pub open spec fn payload_of(samples: Seq<u64>) -> Seq<u8>
    decreases samples.len(),
{
    if samples.len() == 0 {
        Seq::empty()
    } else {
        payload_of(samples.drop_last()) + spec_u64_to_le_bytes(samples.last())
    }
}

/// A payload is usable when it is not empty and holds whole samples.
pub open spec fn payload_valid(bytes: Seq<u8>) -> bool {
    bytes.len() > 0 && bytes.len() % 8 == 0
}

/// The sample words a payload holds.
pub open spec fn samples_of(bytes: Seq<u8>) -> Seq<u64> {
    Seq::new(
        (bytes.len() / 8) as nat,
        |i: int| spec_u64_from_le_bytes(bytes.subrange(8 * i, 8 * i + 8)),
    )
}

/// Every payload is eight bytes per sample.
pub proof fn payload_length(samples: Seq<u64>)
    ensures
        payload_of(samples).len() == 8 * samples.len(),
    decreases samples.len(),
{
    lemma_auto_spec_u64_to_from_le_bytes();
    if samples.len() > 0 {
        payload_length(samples.drop_last());
    }
}

/// Reading a payload back gives the samples that were written, word for
/// word.
pub proof fn payload_round_trip(samples: Seq<u64>)
    ensures
        samples_of(payload_of(samples)) == samples,
        samples.len() > 0 ==> payload_valid(payload_of(samples)),
    decreases samples.len(),
{
    lemma_auto_spec_u64_to_from_le_bytes();
    payload_length(samples);
    if samples.len() > 0 {
        let head = samples.drop_last();
        payload_round_trip(head);
        payload_length(head);
        let whole = payload_of(samples);
        let front = payload_of(head);
        let n = head.len() as int;
        assert(whole.len() / 8 == samples.len());
        assert forall|i: int| 0 <= i < samples.len() implies samples_of(whole)[i] == samples[i] by {
            if i < n {
                assert(whole.subrange(8 * i, 8 * i + 8) =~= front.subrange(8 * i, 8 * i + 8));
                assert(samples_of(front)[i] == head[i]);
            } else {
                assert(whole.subrange(8 * i, 8 * i + 8) =~= spec_u64_to_le_bytes(samples.last()));
            }
        }
        assert(samples_of(whole) =~= samples);
    } else {
        assert(samples_of(payload_of(samples)) =~= samples);
    }
}

/// Lays a track out as a cache payload.
pub fn encode_samples(samples: &Vec<u64>) -> (bytes: Vec<u8>)
    ensures
        bytes@ == payload_of(samples@),
        bytes@.len() == 8 * samples@.len(),
{
    let mut bytes: Vec<u8> = Vec::new();
    let mut i: usize = 0;
    while i < samples.len()
        invariant
            0 <= i <= samples.len(),
            bytes@ == payload_of(samples@.take(i as int)),
        decreases samples.len() - i,
    {
        let mut le = u64_to_le_bytes(samples[i]);
        proof {
            let next = samples@.take(i + 1);
            assert(next.drop_last() =~= samples@.take(i as int));
            assert(next.last() == samples@[i as int]);
        }
        bytes.append(&mut le);
        i += 1;
    }
    proof {
        assert(samples@.take(i as int) =~= samples@);
        payload_length(samples@);
    }
    bytes
}

/// Reads a cache payload. A payload that is empty or whose size is not a
/// multiple of eight counts as absent.
pub fn decode_samples(bytes: &Vec<u8>) -> (samples: Option<Vec<u64>>)
    ensures
        samples is Some <==> payload_valid(bytes@),
        match samples {
            Some(s) => s@ == samples_of(bytes@),
            None => true,
        },
{
    let len: usize = bytes.len();
    if len == 0 || len % 8 != 0 {
        return None;
    }
    let count: usize = len / 8;
    let mut out: Vec<u64> = Vec::new();
    let mut i: usize = 0;
    while i < count
        invariant
            0 <= i <= count,
            count == bytes.len() / 8,
            bytes.len() % 8 == 0,
            out@.len() == i,
            forall|j: int| 0 <= j < i ==> out@[j] == samples_of(bytes@)[j],
        decreases count - i,
    {
        let word = u64_from_le_bytes(slice_subrange(bytes.as_slice(), 8 * i, 8 * i + 8));
        out.push(word);
        i += 1;
    }
    proof {
        assert(out@ =~= samples_of(bytes@));
    }
    Some(out)
}

/// What loading a track comes to, decided before any sample is decoded.
#[derive(Debug, Clone)]
pub struct LoadPlan {
    /// The rate the track is prepared for.
    pub target_rate: u32,
    /// Whether the track has to be resampled.
    pub need_resample: bool,
    /// Where the resampled track is cached, if caching is on.
    pub cache: Option<CacheLocation>,
    /// Whether a freshly resampled track is written to the cache.
    pub write_cache: bool,
    /// The expected length of the prepared track in frames.
    pub estimated_frames: u64,
}

/// The number of source samples that goes into the cache key: frames times
/// channels, kept in range.
pub open spec fn source_sample_count(info: AudioInfo) -> u64 {
    let frames: int = match info.total_frames {
        Some(n) => n as int,
        None => 0,
    };
    if frames * info.channels > u64::MAX {
        u64::MAX
    } else {
        (frames * info.channels) as u64
    }
}

/// Plans the loading of a track. The target rate is the configured one,
/// else the one requested at run time, else the device's, else the
/// source's. The track is resampled when the target differs from the
/// source, and only a resampled track is written to the cache.
pub fn plan_load(
    config: &AppConfig,
    requested: Option<u32>,
    device_default: Option<u32>,
    info: AudioInfo,
    path: &str,
) -> (plan: LoadPlan)
    requires
        info.sample_rate > 0,
    ensures
        plan.target_rate == (match (config.target_samplerate, requested, device_default) {
            (Some(r), _, _) => r,
            (None, Some(r), _) => r,
            (None, None, Some(r)) => r,
            (None, None, None) => info.sample_rate,
        }),
        plan.need_resample == (plan.target_rate != info.sample_rate),
        plan.cache is Some <==> config.use_cache,
        match plan.cache {
            Some(p) => {
                &&& p.dir@ == (match config.cache_dir {
                    Some(d) => d@,
                    None => "resample_cache"@,
                })
                &&& p.file_name@ == key_of(
                    path.spec_bytes(),
                    plan.target_rate,
                    config.resample_quality,
                    source_sample_count(info),
                ) + ".bin"@
            },
            None => true,
        },
        plan.write_cache == (plan.need_resample && config.use_cache),
        plan.estimated_frames == scaled_frames(
            match info.total_frames {
                Some(n) => n,
                None => 0,
            },
            info.sample_rate,
            plan.target_rate,
        ),
{
    let target_rate = choose_target_rate(
        config.target_samplerate,
        requested,
        device_default,
        info.sample_rate,
    );
    let need_resample = target_rate != info.sample_rate;
    let frames: u64 = match info.total_frames {
        Some(n) => n,
        None => 0,
    };
    proof {
        assert(frames as int * info.channels as int <= 0xFFFF_FFFF_FFFF_FFFF * 0xFFFF_FFFF_FFFF_FFFF
            && frames as int * info.channels as int >= 0) by (nonlinear_arith)
            requires
                0 <= frames <= 0xFFFF_FFFF_FFFF_FFFF,
                0 <= info.channels <= 0xFFFF_FFFF_FFFF_FFFF,
        ;
    }
    let wide: u128 = (frames as u128) * (info.channels as u128);
    let samples: u64 = if wide > u64::MAX as u128 {
        u64::MAX
    } else {
        wide as u64
    };
    let cache = cache_location(config, path, target_rate, samples);
    let write_cache = need_resample && config.use_cache;
    let estimated_frames = estimate_output_frames(frames, info.sample_rate, target_rate);
    LoadPlan { target_rate, need_resample, cache, write_cache, estimated_frames }
}

} // verus!

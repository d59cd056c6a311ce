//! Bookkeeping of the signal processors: argument checks and channel
//! splitting for the resampler, the state words of the equalizer and the
//! noise shaper, and the block layout of the FFT convolver.
//!
//! Filter state is kept as sample words; a zero word is the sample 0.0.

use vstd::prelude::*;
use vstd::arithmetic::div_mod::*;

verus! {

/// Why a resampling request was refused.
#[derive(Debug, Clone, Copy, PartialEq, Eq, Structural)]
pub enum ResampleError {
    /// No channels, a zero rate, or samples that are not whole frames.
    InvalidArgument,
}

/// A rate converter's parameters.
#[derive(Debug, Clone, Copy, PartialEq, Eq, Structural)]
pub struct Resampler {
    pub channels: usize,
    pub from_rate: u32,
    pub to_rate: u32,
}

/// The samples of channel `c`, in frame order.
pub open spec fn plane_of(input: Seq<u64>, channels: nat, c: int) -> Seq<u64> {
    Seq::new((input.len() / channels) as nat, |f: int| input[f * channels + c])
}

/// The interleaved form of per-channel planes: as many frames as the first
/// plane has, and silence where another plane is shorter.
pub open spec fn woven(planes: Seq<Seq<u64>>) -> Seq<u64> {
    if planes.len() == 0 {
        Seq::empty()
    } else {
        Seq::new(
            (planes[0].len() * planes.len()) as nat,
            |i: int|
                if i / (planes.len() as int) < planes[i % (planes.len() as int)].len() {
                    planes[i % (planes.len() as int)][i / (planes.len() as int)]
                } else {
                    0u64
                },
        )
    }
}

/// The planes of all channels of an interleaved buffer.
pub open spec fn planes_of(input: Seq<u64>, channels: nat) -> Seq<Seq<u64>> {
    Seq::new(channels, |c: int| plane_of(input, channels, c))
}

/// Splitting a buffer of whole frames into channels and weaving the channels
/// together again gives the buffer back, word for word.
pub proof fn weave_restores(input: Seq<u64>, channels: nat)
    requires
        channels > 0,
        input.len() % channels == 0,
    ensures
        woven(planes_of(input, channels)) == input,
{
    let planes = planes_of(input, channels);
    let n = channels as int;
    let frames = (input.len() / channels) as int;
    lemma_fundamental_div_mod(input.len() as int, n);
    assert(frames * n == n * frames) by (nonlinear_arith);
    assert(planes[0].len() == frames);
    assert forall|i: int| 0 <= i < input.len() implies woven(planes)[i] == input[i] by {
        lemma_fundamental_div_mod(i, n);
        lemma_mod_bound(i, n);
        let c = i % n;
        let f = i / n;
        assert(0 <= f < frames) by (nonlinear_arith)
            requires
                i == n * f + c,
                0 <= c < n,
                0 <= i < frames * n,
        ;
        assert(f * n == n * f) by (nonlinear_arith);
        assert(planes[c] == plane_of(input, channels, c));
        assert(planes[c][f] == input[f * n + c]);
    }
    assert(woven(planes) =~= input);
}

impl Resampler {
    pub fn new(channels: usize, from_rate: u32, to_rate: u32) -> (r: Self)
        ensures
            r == (Resampler { channels, from_rate, to_rate }),
    {
        Resampler { channels, from_rate, to_rate }
    }

    /// Input the converter accepts: at least one channel, both rates
    /// positive, and whole frames.
    pub open spec fn accepts(&self, len: nat) -> bool {
        &&& self.channels > 0
        &&& self.from_rate > 0
        &&& self.to_rate > 0
        &&& len % (self.channels as nat) == 0
    }

    /// Equal rates: the input is passed on untouched.
    pub open spec fn bypasses(&self) -> bool {
        self.from_rate == self.to_rate
    }

    /// Checks a buffer of `len` samples against the converter's parameters.
    pub fn check_input(&self, len: usize) -> (res: Result<(), ResampleError>)
        ensures
            res is Ok <==> self.accepts(len as nat),
    {
        if self.channels == 0 || self.from_rate == 0 || self.to_rate == 0 {
            Err(ResampleError::InvalidArgument)
        } else if len % self.channels != 0 {
            Err(ResampleError::InvalidArgument)
        } else {
            Ok(())
        }
    }

    /// Whether the rates are equal, so that no filtering takes place.
    pub fn is_passthrough(&self) -> (b: bool)
        ensures
            b == self.bypasses(),
    {
        self.from_rate == self.to_rate
    }

    /// The fast path: with equal rates the output is the input, word for
    /// word. With different rates there is no output here: the channels
    /// have to go through the filter.
    pub fn passthrough(&self, input: &[u64]) -> (out: Option<Vec<u64>>)
        ensures
            out is Some <==> self.bypasses(),
            match out {
                Some(v) => v@ == input@,
                None => true,
            },
    {
        if self.from_rate != self.to_rate {
            return None;
        }
        let mut v: Vec<u64> = Vec::new();
        let mut i: usize = 0;
        while i < input.len()
            invariant
                0 <= i <= input.len(),
                v@ == input@.take(i as int),
            decreases input.len() - i,
        {
            v.push(input[i]);
            proof {
                assert(input@.take(i + 1) =~= input@.take(i as int).push(input@[i as int]));
            }
            i += 1;
        }
        proof {
            assert(input@.take(i as int) =~= input@);
        }
        Some(v)
    }

    /// Splits an interleaved buffer into one plane per channel.
    pub fn deinterleave(&self, input: &[u64]) -> (res: Result<Vec<Vec<u64>>, ResampleError>)
        ensures
            res is Ok <==> self.accepts(input@.len()),
            match res {
                Ok(planes) => {
                    &&& planes@.len() == self.channels
                    &&& forall|c: int|
                        0 <= c < self.channels ==> (#[trigger] planes@[c])@ == plane_of(
                            input@,
                            self.channels as nat,
                            c,
                        )
                },
                Err(_) => true,
            },
    {
        let len: usize = input.len();
        match self.check_input(len) {
            Err(e) => {
                return Err(e);
            },
            Ok(_) => {},
        }
        let n: usize = self.channels;
        let frames: usize = len / n;
        proof {
            lemma_fundamental_div_mod(len as int, n as int);
            assert(frames * n == n * frames) by (nonlinear_arith);
        }
        let mut planes: Vec<Vec<u64>> = Vec::new();
        let mut c: usize = 0;
        while c < n
            invariant
                0 <= c <= n,
                n == self.channels,
                n > 0,
                len == input@.len(),
                frames == len / n,
                frames * n == len,
                planes@.len() == c,
                forall|k: int|
                    0 <= k < c ==> (#[trigger] planes@[k])@ == plane_of(input@, n as nat, k),
            decreases n - c,
        {
            let mut plane: Vec<u64> = Vec::new();
            let mut f: usize = 0;
            while f < frames
                invariant
                    0 <= f <= frames,
                    0 <= c < n,
                    len == input@.len(),
                    frames * n == len,
                    plane@.len() == f,
                    forall|j: int| 0 <= j < f ==> #[trigger] plane@[j] == input@[j * n + c],
                decreases frames - f,
            {
                proof {
                    assert(f * n + c < frames * n && f * n >= 0) by (nonlinear_arith)
                        requires
                            0 <= f < frames,
                            0 <= c < n,
                    ;
                }
                plane.push(input[f * n + c]);
                f += 1;
            }
            proof {
                assert(plane@ =~= plane_of(input@, n as nat, c as int));
            }
            planes.push(plane);
            c += 1;
        }
        Ok(planes)
    }
}

/// The views of a vector of planes.
pub open spec fn plane_views(planes: Seq<Vec<u64>>) -> Seq<Seq<u64>> {
    Seq::new(planes.len(), |c: int| planes[c]@)
}

/// Weaves per-channel planes into one interleaved buffer.
pub fn interleave(planes: &Vec<Vec<u64>>) -> (out: Option<Vec<u64>>)
    ensures
        out is Some <==> planes@.len() == 0 || planes@[0]@.len() * planes@.len() <= usize::MAX,
        match out {
            Some(v) => v@ == woven(plane_views(planes@)),
            None => true,
        },
{
    let n: usize = planes.len();
    if n == 0 {
        let v: Vec<u64> = Vec::new();
        proof {
            assert(v@ =~= woven(plane_views(planes@)));
        }
        return Some(v);
    }
    let frames: usize = planes[0].len();
    if frames > usize::MAX / n {
        proof {
            assert(frames * n > usize::MAX) by (nonlinear_arith)
                requires
                    frames > usize::MAX / n,
                    n > 0,
            ;
        }
        return None;
    }
    proof {
        assert(frames * n <= usize::MAX) by (nonlinear_arith)
            requires
                frames <= usize::MAX / n,
                n > 0,
        ;
    }
    let ghost views = plane_views(planes@);
    let mut v: Vec<u64> = Vec::new();
    let mut f: usize = 0;
    while f < frames
        invariant
            0 <= f <= frames,
            n == planes@.len(),
            n > 0,
            frames == planes@[0]@.len(),
            frames * n <= usize::MAX,
            views == plane_views(planes@),
            v@.len() == f * n,
            forall|i: int| 0 <= i < f * n ==> #[trigger] v@[i] == woven(views)[i],
        decreases frames - f,
    {
        let mut c: usize = 0;
        proof {
            assert((f + 1) * n <= frames * n && (f + 1) * n == f * n + n && f * n >= 0)
                by (nonlinear_arith)
                requires
                    0 <= f,
                    f + 1 <= frames,
                    n > 0,
            ;
        }
        while c < n
            invariant
                0 <= c <= n,
                0 <= f < frames,
                n == planes@.len(),
                frames == planes@[0]@.len(),
                f * n + n <= frames * n,
                frames * n <= usize::MAX,
                views == plane_views(planes@),
                v@.len() == f * n + c,
                forall|i: int| 0 <= i < f * n + c ==> #[trigger] v@[i] == woven(views)[i],
            decreases n - c,
        {
            let plane = &planes[c];
            let word: u64 = if f < plane.len() {
                plane[f]
            } else {
                0
            };
            proof {
                let i = f * n + c;
                lemma_fundamental_div_mod_converse(i, n as int, f as int, c as int);
                assert(views[c as int] == planes@[c as int]@);
                assert(views[0] == planes@[0]@);
                assert(woven(views)[i] == word);
            }
            v.push(word);
            c += 1;
        }
        proof {
            assert((f + 1) * n == f * n + n) by (nonlinear_arith);
        }
        f += 1;
    }
    proof {
        assert(views[0] == planes@[0]@);
        assert(v@ =~= woven(views));
    }
    Some(v)
}

/// Bands of the equalizer.
pub const EQ_BANDS: usize = 10;

/// Taps of the noise shaper's error filter.
pub const NS_TAPS: usize = 5;

/// Rate from which on the noise shaper uses its gentler filter.
pub const HIRES_RATE: u32 = 50000;

/// Centre frequency of each equalizer band in Hz.
pub open spec fn band_center(band: int) -> u32 {
    if band == 0 {
        31
    } else if band == 1 {
        62
    } else if band == 2 {
        125
    } else if band == 3 {
        250
    } else if band == 4 {
        500
    } else if band == 5 {
        1000
    } else if band == 6 {
        2000
    } else if band == 7 {
        4000
    } else if band == 8 {
        8000
    } else {
        16000
    }
}

/// The centre frequency of a band, if there is such a band.
pub fn band_frequency(band: usize) -> (hz: Option<u32>)
    ensures
        hz == (if band < EQ_BANDS {
            Some(band_center(band as int))
        } else {
            None
        }),
{
    if band == 0 {
        Some(31)
    } else if band == 1 {
        Some(62)
    } else if band == 2 {
        Some(125)
    } else if band == 3 {
        Some(250)
    } else if band == 4 {
        Some(500)
    } else if band == 5 {
        Some(1000)
    } else if band == 6 {
        Some(2000)
    } else if band == 7 {
        Some(4000)
    } else if band == 8 {
        Some(8000)
    } else if band == 9 {
        Some(16000)
    } else {
        None
    }
}

/// One second-order filter section: five coefficient words and two words
/// of history.
#[derive(Debug, Clone, Copy, PartialEq, Eq, Structural)]
pub struct BiquadSection {
    pub b0: u64,
    pub b1: u64,
    pub b2: u64,
    pub a1: u64,
    pub a2: u64,
    pub z1: u64,
    pub z2: u64,
}

impl BiquadSection {
    /// A section with the given coefficients and silent history.
    pub fn from_coefficients(b0: u64, b1: u64, b2: u64, a1: u64, a2: u64) -> (s: Self)
        ensures
            s == (BiquadSection { b0, b1, b2, a1, a2, z1: 0, z2: 0 }),
    {
        BiquadSection { b0, b1, b2, a1, a2, z1: 0, z2: 0 }
    }

    /// The history is silent.
    pub open spec fn quiet(&self) -> bool {
        self.z1 == 0 && self.z2 == 0
    }

    /// The section with the coefficients of `tuned` and its own history.
    pub open spec fn retuned(&self, tuned: BiquadSection) -> BiquadSection {
        BiquadSection { z1: self.z1, z2: self.z2, ..tuned }
    }

    /// Clears the history and keeps the coefficients.
    pub fn reset(&mut self)
        ensures
            *final(self) == (BiquadSection { z1: 0, z2: 0, ..*old(self) }),
            final(self).quiet(),
    {
        self.z1 = 0;
        self.z2 = 0;
    }
}

/// The ten-band equalizer: one section per channel and band, channel by
/// channel.
pub struct Equalizer {
    bands: Vec<BiquadSection>,
    channels: usize,
    enabled: bool,
}

impl Equalizer {
    /// The sections, channel by channel, ten to a channel.
    pub closed spec fn sections(&self) -> Seq<BiquadSection> {
        self.bands@
    }

    /// Channels the equalizer serves.
    pub closed spec fn channel_count(&self) -> nat {
        self.channels as nat
    }

    /// Whether the equalizer is switched on.
    pub closed spec fn is_on(&self) -> bool {
        self.enabled
    }

    /// There are ten sections to each channel.
    pub closed spec fn wf(&self) -> bool {
        &&& self.bands@.len() == self.channels * EQ_BANDS
        &&& self.channels * EQ_BANDS <= usize::MAX
    }

    /// Every section's history is silent.
    pub open spec fn quiet(&self) -> bool {
        forall|i: int| 0 <= i < self.sections().len() ==> (#[trigger] self.sections()[i]).quiet()
    }

    /// The number of sections is ten times the number of channels.
    pub proof fn section_count(&self)
        requires
            self.wf(),
        ensures
            self.sections().len() == self.channel_count() * EQ_BANDS,
    {
    }

    /// A switched-off equalizer whose bands carry the coefficients of
    /// `flat`, one section per band, on every channel. Its history is
    /// silent. `None` when there are more channels than can be held.
    pub fn new(channels: usize, flat: &[BiquadSection; 10]) -> (res: Option<Self>)
        ensures
            res is Some <==> channels * EQ_BANDS <= usize::MAX,
            match res {
                Some(eq) => {
                    &&& eq.wf()
                    &&& eq.channel_count() == channels
                    &&& !eq.is_on()
                    &&& eq.quiet()
                    &&& eq.sections().len() == channels * EQ_BANDS
                    &&& forall|ch: int, b: int|
                        0 <= ch < channels && 0 <= b < EQ_BANDS ==> #[trigger] eq.sections()[ch
                            * EQ_BANDS as int + b] == (BiquadSection { z1: 0, z2: 0, ..flat@[b] })
                },
                None => true,
            },
    {
        if channels > usize::MAX / EQ_BANDS {
            return None;
        }
        let mut bands: Vec<BiquadSection> = Vec::new();
        let mut ch: usize = 0;
        while ch < channels
            invariant
                0 <= ch <= channels,
                channels <= usize::MAX / EQ_BANDS,
                bands@.len() == ch * EQ_BANDS,
                forall|i: int| 0 <= i < bands@.len() ==> (#[trigger] bands@[i]).quiet(),
                forall|c: int, b: int|
                    0 <= c < ch && 0 <= b < EQ_BANDS ==> #[trigger] bands@[c * EQ_BANDS as int + b]
                        == (BiquadSection { z1: 0, z2: 0, ..flat@[b] }),
            decreases channels - ch,
        {
            let mut b: usize = 0;
            while b < EQ_BANDS
                invariant
                    0 <= b <= EQ_BANDS,
                    0 <= ch < channels,
                    bands@.len() == ch * EQ_BANDS + b,
                    forall|i: int| 0 <= i < bands@.len() ==> (#[trigger] bands@[i]).quiet(),
                    forall|c: int, k: int|
                        0 <= c < ch && 0 <= k < EQ_BANDS ==> #[trigger] bands@[c * EQ_BANDS as int
                            + k] == (BiquadSection { z1: 0, z2: 0, ..flat@[k] }),
                    forall|k: int|
                        0 <= k < b ==> #[trigger] bands@[ch * EQ_BANDS as int + k] == (BiquadSection {
                            z1: 0,
                            z2: 0,
                            ..flat@[k]
                        }),
                decreases EQ_BANDS - b,
            {
                let src = flat[b];
                bands.push(BiquadSection::from_coefficients(src.b0, src.b1, src.b2, src.a1, src.a2));
                b += 1;
            }
            ch += 1;
        }
        Some(Equalizer { bands, channels, enabled: false })
    }

    /// Gives a band new coefficients on every channel. The history of each
    /// section is kept, so that a gain change does not click. A band index
    /// of ten or more is ignored.
    pub fn set_band(&mut self, band: usize, tuned: BiquadSection)
        requires
            old(self).wf(),
        ensures
            final(self).wf(),
            final(self).channel_count() == old(self).channel_count(),
            final(self).is_on() == old(self).is_on(),
            final(self).sections().len() == old(self).sections().len(),
            forall|i: int|
                0 <= i < old(self).sections().len() ==> #[trigger] final(self).sections()[i] == (if band
                    < EQ_BANDS && i % (EQ_BANDS as int) == band {
                    old(self).sections()[i].retuned(tuned)
                } else {
                    old(self).sections()[i]
                }),
    {
        if band >= EQ_BANDS {
            return;
        }
        let mut ch: usize = 0;
        while ch < self.channels
            invariant
                0 <= ch <= self.channels,
                band < EQ_BANDS,
                self.wf(),
                self.channels == old(self).channels,
                self.enabled == old(self).enabled,
                self.bands@.len() == old(self).bands@.len(),
                forall|i: int|
                    0 <= i < self.bands@.len() ==> #[trigger] self.bands@[i] == (if i % (
                    EQ_BANDS as int) == band && i / (EQ_BANDS as int) < ch {
                        old(self).bands@[i].retuned(tuned)
                    } else {
                        old(self).bands@[i]
                    }),
            decreases self.channels - ch,
        {
            let idx: usize = ch * EQ_BANDS + band;
            let kept = self.bands[idx];
            let ghost before = self.bands@;
            self.bands[idx] = BiquadSection { z1: kept.z1, z2: kept.z2, ..tuned };
            proof {
                lemma_fundamental_div_mod_converse(idx as int, EQ_BANDS as int, ch as int, band as int);
                assert forall|i: int| 0 <= i < self.bands@.len() implies #[trigger] self.bands@[i] == (if i
                    % (EQ_BANDS as int) == band && i / (EQ_BANDS as int) < ch + 1 {
                    old(self).bands@[i].retuned(tuned)
                } else {
                    old(self).bands@[i]
                }) by {
                    lemma_fundamental_div_mod(i, EQ_BANDS as int);
                    if i != idx {
                        assert(self.bands@[i] == before[i]);
                    }
                }
            }
            ch += 1;
        }
        proof {
            assert forall|i: int| 0 <= i < self.bands@.len() implies #[trigger] self.bands@[i] == (if i
                % (EQ_BANDS as int) == band {
                old(self).bands@[i].retuned(tuned)
            } else {
                old(self).bands@[i]
            }) by {
                lemma_fundamental_div_mod(i, EQ_BANDS as int);
            }
        }
    }

    /// Switches the equalizer on or off. Nothing else changes.
    pub fn set_enabled(&mut self, enabled: bool)
        ensures
            final(self).is_on() == enabled,
            final(self).sections() == old(self).sections(),
            final(self).channel_count() == old(self).channel_count(),
            final(self).wf() == old(self).wf(),
    {
        self.enabled = enabled;
    }

    /// Whether the equalizer is switched on.
    pub fn is_enabled(&self) -> (b: bool)
        ensures
            b == self.is_on(),
    {
        self.enabled
    }

    /// Clears the history of every section and keeps all coefficients.
    pub fn reset(&mut self)
        ensures
            final(self).quiet(),
            final(self).sections().len() == old(self).sections().len(),
            forall|i: int|
                0 <= i < old(self).sections().len() ==> #[trigger] final(self).sections()[i] == (BiquadSection {
                    z1: 0,
                    z2: 0,
                    ..old(self).sections()[i]
                }),
            final(self).is_on() == old(self).is_on(),
            final(self).channel_count() == old(self).channel_count(),
            final(self).wf() == old(self).wf(),
    {
        let mut i: usize = 0;
        while i < self.bands.len()
            invariant
                0 <= i <= self.bands@.len(),
                self.bands@.len() == old(self).bands@.len(),
                self.channels == old(self).channels,
                self.enabled == old(self).enabled,
                forall|j: int|
                    0 <= j < i ==> #[trigger] self.bands@[j] == (BiquadSection {
                        z1: 0,
                        z2: 0,
                        ..old(self).bands@[j]
                    }),
                forall|j: int| i <= j < self.bands@.len() ==> self.bands@[j] == old(self).bands@[j],
            decreases self.bands@.len() - i,
        {
            let mut section = self.bands[i];
            section.reset();
            self.bands[i] = section;
            i += 1;
        }
    }

    /// The section of a channel and band, if there is one.
    pub fn section(&self, channel: usize, band: usize) -> (s: Option<BiquadSection>)
        requires
            self.wf(),
        ensures
            s == (if channel < self.channel_count() && band < EQ_BANDS {
                Some(self.sections()[channel * EQ_BANDS as int + band])
            } else {
                None
            }),
    {
        if channel < self.channels && band < EQ_BANDS {
            proof {
                assert(channel * EQ_BANDS + band < self.channels * EQ_BANDS) by (nonlinear_arith)
                    requires
                        channel < self.channels,
                        band < EQ_BANDS,
                ;
            }
            Some(self.bands[channel * EQ_BANDS + band])
        } else {
            None
        }
    }

    /// Stores the history a section has after filtering. Ignored when there
    /// is no such section.
    pub fn store_history(&mut self, channel: usize, band: usize, z1: u64, z2: u64)
        requires
            old(self).wf(),
        ensures
            final(self).wf(),
            final(self).channel_count() == old(self).channel_count(),
            final(self).is_on() == old(self).is_on(),
            final(self).sections() == (if channel < old(self).channel_count() && band < EQ_BANDS {
                old(self).sections().update(
                    channel * EQ_BANDS as int + band,
                    BiquadSection { z1, z2, ..old(self).sections()[channel * EQ_BANDS as int + band] },
                )
            } else {
                old(self).sections()
            }),
    {
        if channel < self.channels && band < EQ_BANDS {
            proof {
                assert(channel * EQ_BANDS + band < self.channels * EQ_BANDS) by (nonlinear_arith)
                    requires
                        channel < self.channels,
                        band < EQ_BANDS,
                ;
            }
            let idx: usize = channel * EQ_BANDS + band;
            let kept = self.bands[idx];
            self.bands[idx] = BiquadSection { z1, z2, ..kept };
            proof {
                assert(self.bands@ =~= old(self).bands@.update(
                    idx as int,
                    BiquadSection { z1, z2, ..old(self).bands@[idx as int] },
                ));
            }
        }
    }
}

/// The error filter of the noise shaper.
#[derive(Debug, Clone, Copy, PartialEq, Eq, Structural)]
pub enum NoiseTaps {
    /// The five-tap filter for rates below 50 kHz.
    Aggressive,
    /// The two-tap filter for rates of 50 kHz and more.
    Stable,
}

/// The filter that goes with a sample rate.
pub open spec fn taps_for(sample_rate: u32) -> NoiseTaps {
    if sample_rate < HIRES_RATE {
        NoiseTaps::Aggressive
    } else {
        NoiseTaps::Stable
    }
}

/// State of the noise-shaping ditherer: five words of error history per
/// channel, newest first.
pub struct NoiseShaper {
    error_history: Vec<u64>,
    taps: NoiseTaps,
    bits: u32,
    enabled: bool,
}

impl NoiseShaper {
    /// The error words, channel by channel, five to a channel, newest first.
    pub closed spec fn errors(&self) -> Seq<u64> {
        self.error_history@
    }

    /// The error filter in use.
    pub closed spec fn spec_taps(&self) -> NoiseTaps {
        self.taps
    }

    /// The target bit depth.
    pub closed spec fn spec_bits(&self) -> u32 {
        self.bits
    }

    /// Whether the shaper is switched on.
    pub closed spec fn is_on(&self) -> bool {
        self.enabled
    }

    /// Channels the shaper serves.
    pub open spec fn channel_count(&self) -> nat {
        (self.errors().len() / NS_TAPS as nat) as nat
    }

    /// There are five error words to each channel.
    pub open spec fn wf(&self) -> bool {
        self.errors().len() % NS_TAPS as nat == 0
    }

    /// The error history is silent.
    pub open spec fn quiet(&self) -> bool {
        forall|i: int| 0 <= i < self.errors().len() ==> #[trigger] self.errors()[i] == 0
    }

    /// A switched-on shaper with silent history and the filter that goes
    /// with the rate. `None` when there are more channels than can be held.
    pub fn new(channels: usize, sample_rate: u32, bits: u32) -> (res: Option<Self>)
        ensures
            res is Some <==> channels * NS_TAPS <= usize::MAX,
            match res {
                Some(ns) => {
                    &&& ns.wf()
                    &&& ns.errors().len() == channels * NS_TAPS
                    &&& ns.channel_count() == channels
                    &&& ns.quiet()
                    &&& ns.is_on()
                    &&& ns.spec_bits() == bits
                    &&& ns.spec_taps() == taps_for(sample_rate)
                },
                None => true,
            },
    {
        if channels > usize::MAX / NS_TAPS {
            return None;
        }
        let cells: usize = channels * NS_TAPS;
        let mut error_history: Vec<u64> = Vec::new();
        let mut i: usize = 0;
        while i < cells
            invariant
                0 <= i <= cells,
                error_history@.len() == i,
                forall|j: int| 0 <= j < i ==> #[trigger] error_history@[j] == 0,
            decreases cells - i,
        {
            error_history.push(0);
            i += 1;
        }
        let taps = if sample_rate < HIRES_RATE {
            NoiseTaps::Aggressive
        } else {
            NoiseTaps::Stable
        };
        proof {
            lemma_fundamental_div_mod_converse(cells as int, NS_TAPS as int, channels as int, 0);
        }
        Some(NoiseShaper { error_history, taps, bits, enabled: true })
    }

    /// Switches the shaper on or off. Nothing else changes.
    pub fn set_enabled(&mut self, enabled: bool)
        ensures
            final(self).is_on() == enabled,
            final(self).errors() == old(self).errors(),
            final(self).spec_taps() == old(self).spec_taps(),
            final(self).spec_bits() == old(self).spec_bits(),
    {
        self.enabled = enabled;
    }

    /// Whether the shaper is switched on.
    pub fn is_enabled(&self) -> (b: bool)
        ensures
            b == self.is_on(),
    {
        self.enabled
    }

    /// The error filter in use.
    pub fn taps(&self) -> (t: NoiseTaps)
        ensures
            t == self.spec_taps(),
    {
        self.taps
    }

    /// The quantiser's scale, two to the power of the bit depth less one,
    /// for depths of 1 to 64 bits.
    pub fn scale(&self) -> (s: Option<u64>)
        ensures
            s == (if 1 <= self.spec_bits() <= 64 {
                Some(power_of_two((self.spec_bits() - 1) as nat) as u64)
            } else {
                None
            }),
    {
        if self.bits < 1 || self.bits > 64 {
            return None;
        }
        let mut s: u64 = 1;
        let mut i: u32 = 1;
        while i < self.bits
            invariant
                1 <= i <= self.bits <= 64,
                s == power_of_two((i - 1) as nat),
                s <= 0x8000_0000_0000_0000,
            decreases self.bits - i,
        {
            proof {
                power_of_two_bound((i - 1) as nat, 62);
                power_of_two_63();
                reveal_with_fuel(power_of_two, 2);
            }
            s = s * 2;
            i += 1;
        }
        Some(s)
    }

    /// The error words of a channel, newest first, if there is such a
    /// channel.
    pub fn history(&self, channel: usize) -> (h: Option<[u64; 5]>)
        requires
            self.wf(),
        ensures
            h is Some <==> channel < self.channel_count(),
            match h {
                Some(e) => e@ == self.errors().subrange(
                    channel * NS_TAPS as int,
                    channel * NS_TAPS as int + NS_TAPS as int,
                ),
                None => true,
            },
    {
        let n: usize = self.error_history.len() / NS_TAPS;
        if channel >= n {
            return None;
        }
        proof {
            lemma_fundamental_div_mod(self.error_history@.len() as int, NS_TAPS as int);
        }
        let base: usize = channel * NS_TAPS;
        let e: [u64; 5] = [
            self.error_history[base],
            self.error_history[base + 1],
            self.error_history[base + 2],
            self.error_history[base + 3],
            self.error_history[base + 4],
        ];
        proof {
            assert(e@ =~= self.errors().subrange(
                channel * NS_TAPS as int,
                channel * NS_TAPS as int + NS_TAPS as int,
            ));
        }
        Some(e)
    }

    /// Records the newest quantisation error of a channel: the older errors
    /// move back by one and the oldest is dropped. Ignored when there is no
    /// such channel.
    pub fn record_error(&mut self, channel: usize, error: u64)
        requires
            old(self).wf(),
        ensures
            final(self).wf(),
            final(self).errors().len() == old(self).errors().len(),
            final(self).is_on() == old(self).is_on(),
            final(self).spec_taps() == old(self).spec_taps(),
            final(self).spec_bits() == old(self).spec_bits(),
            forall|i: int|
                0 <= i < old(self).errors().len() ==> #[trigger] final(self).errors()[i] == (if i / (
                NS_TAPS as int) != channel {
                    old(self).errors()[i]
                } else if i % (NS_TAPS as int) == 0 {
                    error
                } else {
                    old(self).errors()[i - 1]
                }),
    {
        let n: usize = self.error_history.len() / NS_TAPS;
        if channel >= n {
            proof {
                assert forall|i: int| 0 <= i < self.error_history@.len() implies #[trigger] self.errors()[i]
                    == old(self).errors()[i] && i / (NS_TAPS as int) != channel by {
                    lemma_fundamental_div_mod(i, NS_TAPS as int);
                    lemma_fundamental_div_mod(self.error_history@.len() as int, NS_TAPS as int);
                }
            }
            return;
        }
        proof {
            lemma_fundamental_div_mod(self.error_history@.len() as int, NS_TAPS as int);
        }
        let base: usize = channel * NS_TAPS;
        let e0: u64 = self.error_history[base];
        let e1: u64 = self.error_history[base + 1];
        let e2: u64 = self.error_history[base + 2];
        let e3: u64 = self.error_history[base + 3];
        self.error_history[base + 4] = e3;
        self.error_history[base + 3] = e2;
        self.error_history[base + 2] = e1;
        self.error_history[base + 1] = e0;
        self.error_history[base] = error;
        proof {
            assert forall|i: int| 0 <= i < old(self).errors().len() implies #[trigger] self.errors()[i] == (if i
                / (NS_TAPS as int) != channel {
                old(self).errors()[i]
            } else if i % (NS_TAPS as int) == 0 {
                error
            } else {
                old(self).errors()[i - 1]
            }) by {
                lemma_fundamental_div_mod(i, NS_TAPS as int);
            }
        }
    }
}

/// Two to the power of `e`.
pub open spec fn power_of_two(e: nat) -> nat
    decreases e,
{
    if e == 0 {
        1
    } else {
        2 * power_of_two((e - 1) as nat)
    }
}

/// Two to the power of 63.
proof fn power_of_two_63()
    ensures
        power_of_two(63) == 0x8000_0000_0000_0000,
        power_of_two(62) == 0x4000_0000_0000_0000,
{
    reveal_with_fuel(power_of_two, 65);
}

/// Powers of two grow with the exponent.
proof fn power_of_two_bound(e: nat, limit: nat)
    requires
        e <= limit,
    ensures
        0 < power_of_two(e) <= power_of_two(limit),
    decreases limit,
{
    if limit > 0 {
        if e == limit {
            power_of_two_bound((e - 1) as nat, (limit - 1) as nat);
        } else {
            power_of_two_bound(e, (limit - 1) as nat);
        }
    }
}

/// `n` is a power of two.
pub open spec fn is_power_of_two(n: nat) -> bool {
    exists|e: nat| n == power_of_two(e)
}

/// Longest impulse response the convolver takes, in frames.
pub const MAX_IR_FRAMES: usize = usize::MAX / 4;

/// Block layout of the overlap-save convolver for one impulse response.
#[derive(Debug, Clone, Copy, PartialEq, Eq, Structural)]
pub struct ConvolverLayout {
    /// Transform length.
    pub fft_size: usize,
    /// Impulse response length per channel.
    pub ir_len: usize,
    /// Fresh input frames per block.
    pub step_size: usize,
    /// Input frames carried over from block to block.
    pub overlap: usize,
}

/// `size` is the smallest power of two that is at least `2 * ir_len`.
pub open spec fn is_fft_size(ir_len: nat, size: nat) -> bool {
    &&& is_power_of_two(size)
    &&& size >= 2 * ir_len
    &&& (size == 1 || size < 4 * ir_len)
}

/// Lays out the convolver for an impulse response of `ir_len` frames per
/// channel: the transform length is the smallest power of two of at least
/// twice the length, each block carries `ir_len - 1` frames of overlap, and
/// the rest of the block is fresh input. An empty impulse response, or one
/// longer than `MAX_IR_FRAMES`, has no layout.
pub fn convolver_layout(ir_len: usize) -> (layout: Option<ConvolverLayout>)
    ensures
        layout is Some <==> 1 <= ir_len <= MAX_IR_FRAMES,
        match layout {
            Some(l) => {
                &&& is_fft_size(ir_len as nat, l.fft_size as nat)
                &&& l.ir_len == ir_len
                &&& l.overlap == ir_len - 1
                &&& l.step_size == l.fft_size - ir_len + 1
            },
            None => true,
        },
{
    if ir_len == 0 || ir_len > MAX_IR_FRAMES {
        return None;
    }
    let need: usize = ir_len * 2;
    let mut size: usize = 1;
    let ghost mut e: nat = 0;
    while size < need
        invariant
            need == ir_len * 2,
            1 <= ir_len <= usize::MAX / 4,
            size == power_of_two(e),
            size == 1 || size < 2 * need,
            size >= 1,
        decreases (if size < need { need - size } else { 0 }),
    {
        size = size * 2;
        proof {
            e = e + 1;
        }
    }
    assert(is_power_of_two(size as nat));
    Some(ConvolverLayout { fft_size: size, ir_len, step_size: size - ir_len + 1, overlap: ir_len - 1 })
}

/// Frames of the next block: a full step, or what is left of the input.
pub fn next_chunk_len(step_size: usize, total_frames: usize, processed: usize) -> (len: usize)
    ensures
        len == (if processed >= total_frames {
            0
        } else if step_size <= total_frames - processed {
            step_size as int
        } else {
            total_frames - processed
        }),
{
    if processed >= total_frames {
        0
    } else if step_size <= total_frames - processed {
        step_size
    } else {
        total_frames - processed
    }
}

/// The overlap after a block: the last frames of the old overlap followed by
/// the block, as many as the overlap holds.
pub open spec fn overlap_after(tail: Seq<u64>, chunk: Seq<u64>) -> Seq<u64> {
    (tail + chunk).subrange(chunk.len() as int, (chunk.len() + tail.len()) as int)
}

/// Carries one channel's overlap over to the next block.
pub fn update_overlap(tail: &mut Vec<u64>, chunk: &[u64])
    ensures
        final(tail)@ == overlap_after(old(tail)@, chunk@),
        final(tail)@.len() == old(tail)@.len(),
{
    let t: usize = tail.len();
    let n: usize = chunk.len();
    let ghost joined = tail@ + chunk@;
    let mut next: Vec<u64> = Vec::new();
    let mut i: usize = 0;
    while i < t
        invariant
            0 <= i <= t,
            t == tail@.len(),
            n == chunk@.len(),
            tail@ == old(tail)@,
            joined == tail@ + chunk@,
            next@.len() == i,
            forall|j: int| 0 <= j < i ==> #[trigger] next@[j] == joined[n + j],
        decreases t - i,
    {
        let word: u64 = if n >= t {
            chunk[n - t + i]
        } else if i < t - n {
            tail[i + n]
        } else {
            chunk[i - (t - n)]
        };
        next.push(word);
        i += 1;
    }
    proof {
        assert(next@ =~= overlap_after(old(tail)@, chunk@));
    }
    *tail = next;
}

} // verus!

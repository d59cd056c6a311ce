//! Exclusive-mode output: format negotiation order, device period, the
//! backend's command handling and the slicing of the track into device writes.

use vstd::prelude::*;
use vstd::bytes::*;

verus! {

/// Commands for the exclusive playback thread. `Seek` carries a frame index.
#[derive(Debug, Clone, Copy, PartialEq, Eq, Structural)]
pub enum WasapiCommand {
    Play,
    Pause,
    Stop,
    Shutdown,
    Seek(u64),
}

/// State of exclusive playback.
#[derive(Debug, Clone, Copy, PartialEq, Eq, Structural)]
pub enum WasapiState {
    Stopped,
    Playing,
    Paused,
}

/// Sample formats the device is asked for, best first.
#[derive(Debug, Clone, Copy, PartialEq, Eq, Structural)]
pub enum SampleFormat {
    /// 32-bit float, little endian.
    Float32,
    /// 24-bit integer, three packed bytes, little endian.
    Int24,
    /// 16-bit integer, little endian.
    Int16,
}

impl SampleFormat {
    /// Bits per sample, stored and valid alike.
    pub fn bits(self) -> (b: u16)
        ensures
            b == (match self {
                SampleFormat::Float32 => 32u16,
                SampleFormat::Int24 => 24u16,
                SampleFormat::Int16 => 16u16,
            }),
    {
        match self {
            SampleFormat::Float32 => 32,
            SampleFormat::Int24 => 24,
            SampleFormat::Int16 => 16,
        }
    }

    /// Whether the samples are floating point rather than integer.
    pub fn is_float(self) -> (f: bool)
        ensures
            f == (self == SampleFormat::Float32),
    {
        match self {
            SampleFormat::Float32 => true,
            _ => false,
        }
    }

    /// Bytes one sample takes on the device.
    pub fn bytes_per_sample(self) -> (n: usize)
        ensures
            n == (match self {
                SampleFormat::Float32 => 4usize,
                SampleFormat::Int24 => 3usize,
                SampleFormat::Int16 => 2usize,
            }),
    {
        match self {
            SampleFormat::Float32 => 4,
            SampleFormat::Int24 => 3,
            SampleFormat::Int16 => 2,
        }
    }
}

/// One `(rate, format)` pair offered to the device.
#[derive(Debug, Clone, Copy, PartialEq, Eq, Structural)]
pub struct FormatCandidate {
    pub sample_rate: usize,
    pub format: SampleFormat,
}

/// What the exclusive thread has to do after a command.
#[derive(Debug, Clone, Copy, PartialEq, Eq, Structural)]
pub enum ExclusiveAction {
    /// Nothing to do.
    Nothing,
    /// Negotiate a format and enter the playback loop.
    BeginPlayback,
    /// Stop the device stream but stay in the playback loop.
    SuspendStream,
    /// Restart the device stream.
    ResumeStream,
    /// Stop the device stream and leave the playback loop.
    EndPlayback,
    /// Leave the thread.
    ExitThread,
}

/// Bookkeeping of the exclusive backend.
#[derive(Debug, Clone, Copy, PartialEq, Eq, Structural)]
pub struct WasapiSharedState {
    pub state: WasapiState,
    pub position_frames: u64,
    pub sample_rate: u64,
    pub channels: u64,
    pub total_frames: u64,
    pub is_active: bool,
}

/// One write to the device: samples `[start_sample, end_sample)` of the
/// track buffer, `frames` whole frames.
#[derive(Debug, Clone, Copy, PartialEq, Eq, Structural)]
pub struct DeviceWrite {
    pub start_sample: usize,
    pub end_sample: usize,
    pub frames: usize,
}

/// The rates tried after the requested one, best first.
pub open spec fn preferred_rates() -> Seq<usize> {
    seq![192000usize, 176400usize, 96000usize, 88200usize, 48000usize, 44100usize]
}

/// `s` with every occurrence of `x` left out, order kept.
pub open spec fn without(s: Seq<usize>, x: usize) -> Seq<usize>
    decreases s.len(),
{
    if s.len() == 0 {
        Seq::empty()
    } else if s.last() == x {
        without(s.drop_last(), x)
    } else {
        without(s.drop_last(), x).push(s.last())
    }
}

/// The requested rate first, then the preferred rates without it.
pub open spec fn candidate_rates(requested: usize) -> Seq<usize> {
    seq![requested] + without(preferred_rates(), requested)
}

/// The candidates start with the requested rate and name no rate twice.
pub proof fn candidates_are_distinct(requested: usize)
    ensures
        candidate_rates(requested)[0] == requested,
        forall|i: int, j: int|
            0 <= i < j < candidate_rates(requested).len() ==> candidate_rates(requested)[i]
                != candidate_rates(requested)[j],
        forall|k: int|
            0 <= k < preferred_rates().len() ==> candidate_rates(requested).contains(
                #[trigger] preferred_rates()[k],
            ),
{
    let p = preferred_rates();
    let c = candidate_rates(requested);
    reveal_with_fuel(without, 8);
    assert(p.drop_last() =~= seq![192000usize, 176400usize, 96000usize, 88200usize, 48000usize]);
    assert(p.drop_last().drop_last() =~= seq![192000usize, 176400usize, 96000usize, 88200usize]);
    assert(p.drop_last().drop_last().drop_last() =~= seq![192000usize, 176400usize, 96000usize]);
    assert(p.drop_last().drop_last().drop_last().drop_last() =~= seq![192000usize, 176400usize]);
    assert(p.drop_last().drop_last().drop_last().drop_last().drop_last() =~= seq![192000usize]);
    assert(p.drop_last().drop_last().drop_last().drop_last().drop_last().drop_last()
        =~= Seq::<usize>::empty());
    if requested == 192000 {
        assert(c =~= seq![192000usize, 176400usize, 96000usize, 88200usize, 48000usize, 44100usize]);
    } else if requested == 176400 {
        assert(c =~= seq![176400usize, 192000usize, 96000usize, 88200usize, 48000usize, 44100usize]);
    } else if requested == 96000 {
        assert(c =~= seq![96000usize, 192000usize, 176400usize, 88200usize, 48000usize, 44100usize]);
    } else if requested == 88200 {
        assert(c =~= seq![88200usize, 192000usize, 176400usize, 96000usize, 48000usize, 44100usize]);
    } else if requested == 48000 {
        assert(c =~= seq![48000usize, 192000usize, 176400usize, 96000usize, 88200usize, 44100usize]);
    } else if requested == 44100 {
        assert(c =~= seq![44100usize, 192000usize, 176400usize, 96000usize, 88200usize, 48000usize]);
    } else {
        assert(c =~= seq![
            requested,
            192000usize,
            176400usize,
            96000usize,
            88200usize,
            48000usize,
            44100usize,
        ]);
    }
    assert forall|k: int| 0 <= k < p.len() implies c.contains(#[trigger] p[k]) by {
        let m: int = if requested == 192000 {
            0
        } else if requested == 176400 {
            1
        } else if requested == 96000 {
            2
        } else if requested == 88200 {
            3
        } else if requested == 48000 {
            4
        } else if requested == 44100 {
            5
        } else {
            6
        };
        let at: int = if k == m {
            0
        } else if k > m {
            k
        } else {
            k + 1
        };
        assert(c[at] == p[k]);
    }
}

/// The rates to negotiate, in order of preference.
pub fn candidate_sample_rates(requested: usize) -> (rates: Vec<usize>)
    ensures
        rates@ == candidate_rates(requested),
{
    let preferred: [usize; 6] = [192000, 176400, 96000, 88200, 48000, 44100];
    let mut rates: Vec<usize> = Vec::new();
    rates.push(requested);
    let mut i: usize = 0;
    assert(preferred@ =~= preferred_rates());
    while i < 6
        invariant
            0 <= i <= 6,
            preferred@ == preferred_rates(),
            rates@ == seq![requested] + without(preferred_rates().take(i as int), requested),
        decreases 6 - i,
    {
        let r: usize = preferred[i];
        proof {
            let next = preferred_rates().take(i + 1);
            assert(next.drop_last() =~= preferred_rates().take(i as int));
            assert(next.last() == r);
        }
        if r != requested {
            rates.push(r);
        }
        proof {
            let next = preferred_rates().take(i + 1);
            assert(rates@ =~= seq![requested] + without(next, requested));
        }
        i += 1;
    }
    proof {
        assert(preferred_rates().take(6) =~= preferred_rates());
    }
    rates
}

/// The formats tried at each rate, best first.
pub open spec fn format_at(k: int) -> SampleFormat {
    if k == 0 {
        SampleFormat::Float32
    } else if k == 1 {
        SampleFormat::Int24
    } else {
        SampleFormat::Int16
    }
}

/// The full negotiation order: rate by rate, and at each rate float32, then
/// int24, then int16.
pub open spec fn is_probe_order(rates: Seq<usize>, probes: Seq<FormatCandidate>) -> bool {
    &&& probes.len() == 3 * rates.len()
    &&& forall|i: int, k: int|
        0 <= i < rates.len() && 0 <= k < 3 ==> #[trigger] probes[3 * i + k] == (FormatCandidate {
            sample_rate: rates[i],
            format: format_at(k),
        })
}

/// Lists every `(rate, format)` pair in the order the device is asked.
pub fn probe_order(requested: usize) -> (probes: Vec<FormatCandidate>)
    ensures
        is_probe_order(candidate_rates(requested), probes@),
{
    let rates = candidate_sample_rates(requested);
    let mut probes: Vec<FormatCandidate> = Vec::new();
    let mut i: usize = 0;
    while i < rates.len()
        invariant
            0 <= i <= rates.len(),
            rates@ == candidate_rates(requested),
            is_probe_order(rates@.take(i as int), probes@),
        decreases rates.len() - i,
    {
        let r: usize = rates[i];
        let ghost before = probes@;
        probes.push(FormatCandidate { sample_rate: r, format: SampleFormat::Float32 });
        probes.push(FormatCandidate { sample_rate: r, format: SampleFormat::Int24 });
        probes.push(FormatCandidate { sample_rate: r, format: SampleFormat::Int16 });
        proof {
            let next = rates@.take(i + 1);
            assert forall|j: int, k: int| 0 <= j < next.len() && 0 <= k < 3 implies #[trigger] probes@[3
                * j + k] == (FormatCandidate { sample_rate: next[j], format: format_at(k) }) by {
                if j < i {
                    assert(rates@.take(i as int)[j] == next[j]);
                    assert(probes@[3 * j + k] == before[3 * j + k]);
                }
            }
        }
        i += 1;
    }
    proof {
        assert(rates@.take(i as int) =~= rates@);
    }
    probes
}

/// `idx` is the first probe the device accepted.
pub open spec fn is_first_accepted(accepted: Seq<bool>, idx: int) -> bool {
    &&& 0 <= idx < accepted.len()
    &&& accepted[idx]
    &&& forall|j: int| 0 <= j < idx ==> !accepted[j]
}

/// The first accepted pair wins; when the device accepted none there is no
/// format to play with.
pub fn first_accepted(probes: &Vec<FormatCandidate>, accepted: &Vec<bool>) -> (choice: Option<FormatCandidate>)
    requires
        probes.len() == accepted.len(),
    ensures
        match choice {
            Some(c) => exists|idx: int| is_first_accepted(accepted@, idx) && c == probes@[idx],
            None => forall|j: int| 0 <= j < accepted.len() ==> !accepted@[j],
        },
{
    let mut i: usize = 0;
    while i < probes.len()
        invariant
            0 <= i <= probes.len(),
            probes.len() == accepted.len(),
            forall|j: int| 0 <= j < i ==> !accepted@[j],
        decreases probes.len() - i,
    {
        if accepted[i] {
            assert(is_first_accepted(accepted@, i as int));
            return Some(probes[i]);
        }
        i += 1;
    }
    None
}

/// Shortest period ever requested, in 100 ns units (10 ms).
pub const MIN_SAFE_PERIOD: i64 = 100000;

/// Twice the device minimum, capped at the largest period.
pub open spec fn doubled_period(min_period: i64) -> int {
    if 2 * min_period > i64::MAX {
        i64::MAX as int
    } else {
        2 * min_period
    }
}

/// The period to request: at least 10 ms, or twice the device minimum if
/// that is longer.
pub fn safe_period(min_period: i64) -> (period: i64)
    ensures
        period == (if doubled_period(min_period) > MIN_SAFE_PERIOD {
            doubled_period(min_period)
        } else {
            MIN_SAFE_PERIOD as int
        }),
{
    let doubled: i64 = if min_period > i64::MAX / 2 {
        i64::MAX
    } else if min_period < 0 {
        0
    } else {
        2 * min_period
    };
    if doubled > MIN_SAFE_PERIOD {
        doubled
    } else {
        MIN_SAFE_PERIOD
    }
}

/// The backend's bookkeeping after a command.
pub open spec fn exclusive_state_after(s: WasapiSharedState, cmd: WasapiCommand) -> WasapiSharedState {
    match cmd {
        WasapiCommand::Seek(frame) => WasapiSharedState {
            position_frames: if frame <= s.total_frames { frame } else { s.total_frames },
            ..s
        },
        WasapiCommand::Pause => if s.is_active && s.state == WasapiState::Playing {
            WasapiSharedState { state: WasapiState::Paused, ..s }
        } else {
            s
        },
        WasapiCommand::Play => if s.is_active && s.state == WasapiState::Paused {
            WasapiSharedState { state: WasapiState::Playing, ..s }
        } else {
            s
        },
        WasapiCommand::Stop => if s.is_active {
            s
        } else {
            WasapiSharedState { state: WasapiState::Stopped, position_frames: 0, ..s }
        },
        WasapiCommand::Shutdown => s,
    }
}

/// What the exclusive thread does for a command: outside the playback loop
/// only `Play` and `Shutdown` act; inside it `Pause` and `Play` toggle the
/// stream and `Stop` and `Shutdown` leave the loop.
pub open spec fn exclusive_action_for(s: WasapiSharedState, cmd: WasapiCommand) -> ExclusiveAction {
    match cmd {
        WasapiCommand::Seek(_) => ExclusiveAction::Nothing,
        WasapiCommand::Pause => if s.is_active && s.state == WasapiState::Playing {
            ExclusiveAction::SuspendStream
        } else {
            ExclusiveAction::Nothing
        },
        WasapiCommand::Play => if s.is_active {
            if s.state == WasapiState::Paused {
                ExclusiveAction::ResumeStream
            } else {
                ExclusiveAction::Nothing
            }
        } else if s.channels == 0 {
            ExclusiveAction::Nothing
        } else {
            ExclusiveAction::BeginPlayback
        },
        WasapiCommand::Stop => if s.is_active {
            ExclusiveAction::EndPlayback
        } else {
            ExclusiveAction::Nothing
        },
        WasapiCommand::Shutdown => if s.is_active {
            ExclusiveAction::EndPlayback
        } else {
            ExclusiveAction::ExitThread
        },
    }
}

impl WasapiSharedState {
    /// The position never lies beyond the end of the track.
    pub open spec fn wf(&self) -> bool {
        self.position_frames <= self.total_frames
    }

    /// The track length the device loop works with: never more frames than
    /// the buffer of `buf_len` samples holds.
    pub open spec fn playable_frames(&self, buf_len: usize) -> int {
        if self.channels == 0 {
            0
        } else if (buf_len as int) / (self.channels as int) < self.total_frames {
            (buf_len as int) / (self.channels as int)
        } else {
            self.total_frames as int
        }
    }

    /// An idle backend with no track: 44.1 kHz stereo, zero frames.
    pub fn new() -> (s: Self)
        ensures
            s == (WasapiSharedState {
                state: WasapiState::Stopped,
                position_frames: 0,
                sample_rate: 44100,
                channels: 2,
                total_frames: 0,
                is_active: false,
            }),
            s.wf(),
    {
        WasapiSharedState {
            state: WasapiState::Stopped,
            position_frames: 0,
            sample_rate: 44100,
            channels: 2,
            total_frames: 0,
            is_active: false,
        }
    }

    /// Takes over a track of `sample_count` interleaved samples.
    pub fn load(&mut self, sample_count: u64, sample_rate: u32, channels: u64)
        requires
            channels > 0,
        ensures
            *final(self) == (WasapiSharedState {
                state: WasapiState::Stopped,
                position_frames: 0,
                sample_rate: sample_rate as u64,
                channels: channels,
                total_frames: (sample_count / channels) as u64,
                is_active: old(self).is_active,
            }),
            final(self).wf(),
    {
        self.state = WasapiState::Stopped;
        self.position_frames = 0;
        self.sample_rate = sample_rate as u64;
        self.channels = channels;
        self.total_frames = sample_count / channels;
    }

    /// Records that the whole track was resampled to the rate the device
    /// accepted: the length and rate change, and the position is kept inside
    /// the new length.
    pub fn adopt_resampled(&mut self, sample_count: u64, sample_rate: u32)
        requires
            old(self).channels > 0,
        ensures
            final(self).total_frames == sample_count / old(self).channels,
            final(self).sample_rate == sample_rate as u64,
            final(self).position_frames == (if old(self).position_frames <= final(self).total_frames {
                old(self).position_frames
            } else {
                final(self).total_frames
            }),
            final(self).state == old(self).state,
            final(self).channels == old(self).channels,
            final(self).is_active == old(self).is_active,
            final(self).wf(),
    {
        self.total_frames = sample_count / self.channels;
        self.sample_rate = sample_rate as u64;
        if self.position_frames > self.total_frames {
            self.position_frames = self.total_frames;
        }
    }

    /// Applies one command and says what the thread has to do.
    pub fn handle_command(&mut self, cmd: WasapiCommand) -> (action: ExclusiveAction)
        ensures
            action == exclusive_action_for(*old(self), cmd),
            *final(self) == exclusive_state_after(*old(self), cmd),
            old(self).wf() ==> final(self).wf(),
    {
        match cmd {
            WasapiCommand::Seek(frame) => {
                self.position_frames = if frame <= self.total_frames {
                    frame
                } else {
                    self.total_frames
                };
                ExclusiveAction::Nothing
            },
            WasapiCommand::Pause => {
                if self.is_active && self.state == WasapiState::Playing {
                    self.state = WasapiState::Paused;
                    ExclusiveAction::SuspendStream
                } else {
                    ExclusiveAction::Nothing
                }
            },
            WasapiCommand::Play => {
                if self.is_active {
                    if self.state == WasapiState::Paused {
                        self.state = WasapiState::Playing;
                        ExclusiveAction::ResumeStream
                    } else {
                        ExclusiveAction::Nothing
                    }
                } else if self.channels == 0 {
                    ExclusiveAction::Nothing
                } else {
                    ExclusiveAction::BeginPlayback
                }
            },
            WasapiCommand::Stop => {
                if self.is_active {
                    ExclusiveAction::EndPlayback
                } else {
                    self.state = WasapiState::Stopped;
                    self.position_frames = 0;
                    ExclusiveAction::Nothing
                }
            },
            WasapiCommand::Shutdown => {
                if self.is_active {
                    ExclusiveAction::EndPlayback
                } else {
                    ExclusiveAction::ExitThread
                }
            },
        }
    }

    /// The device stream has started: the backend is active and playing.
    pub fn playback_started(&mut self)
        ensures
            *final(self) == (WasapiSharedState {
                state: WasapiState::Playing,
                is_active: true,
                ..*old(self)
            }),
    {
        self.is_active = true;
        self.state = WasapiState::Playing;
    }

    /// The playback loop was left: the backend is idle and stopped.
    pub fn playback_ended(&mut self)
        ensures
            *final(self) == (WasapiSharedState {
                state: WasapiState::Stopped,
                is_active: false,
                ..*old(self)
            }),
    {
        self.is_active = false;
        self.state = WasapiState::Stopped;
    }

    /// Slices the next device write out of a track buffer of `buf_len`
    /// samples when the device has room for `free_frames` frames, and moves
    /// the position past it. `None` when the track has been played to its end.
    pub fn next_write(&mut self, free_frames: usize, buf_len: usize) -> (w: Option<DeviceWrite>)
        ensures
            w is None <==> old(self).position_frames >= old(self).playable_frames(buf_len),
            match w {
                Some(d) => {
                    &&& d.start_sample == old(self).position_frames * old(self).channels
                    &&& d.frames == (if free_frames <= old(self).playable_frames(buf_len) - old(
                        self,
                    ).position_frames {
                        free_frames as int
                    } else {
                        old(self).playable_frames(buf_len) - old(self).position_frames
                    })
                    &&& d.end_sample == d.start_sample + d.frames * old(self).channels
                    &&& d.end_sample <= buf_len
                    &&& final(self).position_frames == old(self).position_frames + d.frames
                },
                None => final(self).position_frames == old(self).position_frames,
            },
            final(self).state == old(self).state,
            final(self).total_frames == old(self).total_frames,
            final(self).sample_rate == old(self).sample_rate,
            final(self).channels == old(self).channels,
            final(self).is_active == old(self).is_active,
            old(self).wf() ==> final(self).wf(),
    {
        if self.channels == 0 {
            return None;
        }
        let in_buffer: u64 = (buf_len as u64) / self.channels;
        let playable: u64 = if in_buffer < self.total_frames {
            in_buffer
        } else {
            self.total_frames
        };
        if self.position_frames >= playable {
            return None;
        }
        let left: u64 = playable - self.position_frames;
        let frames: u64 = if (free_frames as u64) <= left {
            free_frames as u64
        } else {
            left
        };
        let pos: u64 = self.position_frames;
        let ch: u64 = self.channels;
        proof {
            assert(in_buffer * ch <= buf_len) by (nonlinear_arith)
                requires
                    in_buffer == (buf_len as int) / (ch as int),
                    ch > 0,
            ;
            assert((pos + frames) * ch <= in_buffer * ch) by (nonlinear_arith)
                requires
                    pos + frames <= in_buffer,
                    ch > 0,
            ;
            assert((pos + frames) * ch == pos * ch + frames * ch) by (nonlinear_arith);
            assert(0 <= pos * ch && 0 <= frames * ch) by (nonlinear_arith)
                requires
                    0 <= pos,
                    0 <= frames,
                    0 < ch,
            ;
        }
        let start: u64 = pos * ch;
        let count: u64 = frames * ch;
        self.position_frames = pos + frames;
        Some(
            DeviceWrite {
                start_sample: start as usize,
                end_sample: (start + count) as usize,
                frames: frames as usize,
            },
        )
    }
}

/// The two's-complement bit pattern of a 32-bit integer.
pub open spec fn bits_of_i32(v: i32) -> u32 {
    if v >= 0 {
        v as u32
    } else {
        (v + 0x1_0000_0000) as u32
    }
}

/// The two's-complement bit pattern of a 16-bit integer.
pub open spec fn bits_of_i16(v: i16) -> u16 {
    if v >= 0 {
        v as u16
    } else {
        (v + 0x1_0000) as u16
    }
}

/// Device bytes of 16-bit samples: two little-endian bytes each.
pub open spec fn int16_bytes(values: Seq<i16>) -> Seq<u8>
    decreases values.len(),
{
    if values.len() == 0 {
        Seq::empty()
    } else {
        int16_bytes(values.drop_last()) + spec_u16_to_le_bytes(bits_of_i16(values.last()))
    }
}

/// Device bytes of 24-bit samples: the low three little-endian bytes of each.
pub open spec fn int24_bytes(values: Seq<i32>) -> Seq<u8>
    decreases values.len(),
{
    if values.len() == 0 {
        Seq::empty()
    } else {
        int24_bytes(values.drop_last()) + spec_u32_to_le_bytes(bits_of_i32(values.last())).take(3)
    }
}

/// Device bytes of 32-bit words: four little-endian bytes each.
pub open spec fn word32_bytes(words: Seq<u32>) -> Seq<u8>
    decreases words.len(),
{
    if words.len() == 0 {
        Seq::empty()
    } else {
        word32_bytes(words.drop_last()) + spec_u32_to_le_bytes(words.last())
    }
}

/// Packs 16-bit samples for the device.
pub fn pack_int16_le(values: &Vec<i16>) -> (bytes: Vec<u8>)
    ensures
        bytes@ == int16_bytes(values@),
        bytes@.len() == 2 * values@.len(),
{
    let mut bytes: Vec<u8> = Vec::new();
    let mut i: usize = 0;
    proof {
        lemma_auto_spec_u16_to_from_le_bytes();
    }
    while i < values.len()
        invariant
            0 <= i <= values.len(),
            bytes@ == int16_bytes(values@.take(i as int)),
            bytes@.len() == 2 * i,
            forall|x: u16| #[trigger] spec_u16_to_le_bytes(x).len() == 2,
        decreases values.len() - i,
    {
        let v: i16 = values[i];
        let word: u16 = if v >= 0 {
            v as u16
        } else {
            ((v as i32) + 0x1_0000) as u16
        };
        let mut le = u16_to_le_bytes(word);
        proof {
            let next = values@.take(i + 1);
            assert(next.drop_last() =~= values@.take(i as int));
            assert(next.last() == v);
        }
        bytes.append(&mut le);
        i += 1;
    }
    proof {
        assert(values@.take(i as int) =~= values@);
    }
    bytes
}

/// Packs 24-bit samples, held in 32-bit integers, for the device.
pub fn pack_int24_le(values: &Vec<i32>) -> (bytes: Vec<u8>)
    ensures
        bytes@ == int24_bytes(values@),
        bytes@.len() == 3 * values@.len(),
{
    let mut bytes: Vec<u8> = Vec::new();
    let mut i: usize = 0;
    proof {
        lemma_auto_spec_u32_to_from_le_bytes();
    }
    while i < values.len()
        invariant
            0 <= i <= values.len(),
            bytes@ == int24_bytes(values@.take(i as int)),
            bytes@.len() == 3 * i,
            forall|x: u32| #[trigger] spec_u32_to_le_bytes(x).len() == 4,
        decreases values.len() - i,
    {
        let v: i32 = values[i];
        let word: u32 = if v >= 0 {
            v as u32
        } else {
            ((v as i64) + 0x1_0000_0000) as u32
        };
        let le = u32_to_le_bytes(word);
        proof {
            let next = values@.take(i + 1);
            assert(next.drop_last() =~= values@.take(i as int));
            assert(next.last() == v);
            assert(le@.take(3) =~= seq![le@[0], le@[1], le@[2]]);
        }
        bytes.push(le[0]);
        bytes.push(le[1]);
        bytes.push(le[2]);
        proof {
            assert(bytes@ =~= int24_bytes(values@.take(i as int)) + le@.take(3));
        }
        i += 1;
    }
    proof {
        assert(values@.take(i as int) =~= values@);
    }
    bytes
}

/// Packs 32-bit words (the bit patterns of 32-bit float samples) for the
/// device.
pub fn pack_word32_le(words: &Vec<u32>) -> (bytes: Vec<u8>)
    ensures
        bytes@ == word32_bytes(words@),
        bytes@.len() == 4 * words@.len(),
{
    let mut bytes: Vec<u8> = Vec::new();
    let mut i: usize = 0;
    proof {
        lemma_auto_spec_u32_to_from_le_bytes();
    }
    while i < words.len()
        invariant
            0 <= i <= words.len(),
            bytes@ == word32_bytes(words@.take(i as int)),
            bytes@.len() == 4 * i,
            forall|x: u32| #[trigger] spec_u32_to_le_bytes(x).len() == 4,
        decreases words.len() - i,
    {
        let mut le = u32_to_le_bytes(words[i]);
        proof {
            let next = words@.take(i + 1);
            assert(next.drop_last() =~= words@.take(i as int));
            assert(next.last() == words@[i as int]);
        }
        bytes.append(&mut le);
        i += 1;
    }
    proof {
        assert(words@.take(i as int) =~= words@);
    }
    bytes
}

/// Every command keeps the backend's position inside the track.
pub proof fn exclusive_position_stays_in_track(s: WasapiSharedState, cmd: WasapiCommand)
    requires
        s.wf(),
    ensures
        exclusive_state_after(s, cmd).wf(),
{
}

} // verus!

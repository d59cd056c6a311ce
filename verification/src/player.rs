//! Player state, the command state machine and output-rate selection.

use vstd::prelude::*;
use vstd::string::*;
use crate::wasapi_output::WasapiSharedState;
use crate::wasapi_output::WasapiState;
use crate::processor::BiquadSection;
use crate::processor::Equalizer;
use crate::processor::NoiseShaper;
use crate::processor::taps_for;
use crate::processor::EQ_BANDS;

verus! {

/// State of the audio player.
#[derive(Debug, Clone, Copy, PartialEq, Eq, Structural)]
pub enum PlayerState {
    Stopped,
    Playing,
    Paused,
}

/// Commands consumed by the orchestrator, in the order they were sent.
/// `Seek` carries the requested position in frames at the current rate.
#[derive(Debug, Clone, Copy, PartialEq, Eq, Structural)]
pub enum AudioCommand {
    Play,
    Pause,
    Stop,
    Shutdown,
    Seek(u64),
}

/// What the orchestrator has to do with the output stream after a command.
#[derive(Debug, Clone, Copy, PartialEq, Eq, Structural)]
pub enum StreamAction {
    /// Nothing to do.
    Nothing,
    /// Build and start a shared-mode stream.
    BuildStream,
    /// Hand the track to the exclusive backend.
    StartExclusive,
    /// Resume the paused stream.
    ResumeStream,
    /// Pause the running stream.
    PauseStream,
    /// Drop the stream.
    DropStream,
    /// Leave the command loop.
    Exit,
}

/// Playback bookkeeping shared by the orchestrator and the output callback.
#[derive(Debug, Clone, Copy, PartialEq, Eq, Structural)]
pub struct SharedState {
    pub state: PlayerState,
    pub position_frames: u64,
    pub sample_rate: u64,
    pub channels: u64,
    pub total_frames: u64,
    pub exclusive_mode: bool,
}

/// The smaller of two frame counts.
pub open spec fn min_frames(a: u64, b: u64) -> u64 {
    if a <= b { a } else { b }
}

/// The stream action that a command calls for.
pub open spec fn action_for(s: SharedState, cmd: AudioCommand) -> StreamAction {
    match (cmd, s.state) {
        (AudioCommand::Shutdown, _) => StreamAction::Exit,
        (AudioCommand::Seek(_), _) => StreamAction::Nothing,
        (AudioCommand::Play, PlayerState::Paused) => StreamAction::ResumeStream,
        (AudioCommand::Play, PlayerState::Playing) => StreamAction::Nothing,
        (AudioCommand::Play, PlayerState::Stopped) => if s.channels == 0 {
            StreamAction::Nothing
        } else if s.exclusive_mode {
            StreamAction::StartExclusive
        } else {
            StreamAction::BuildStream
        },
        (AudioCommand::Pause, PlayerState::Playing) => StreamAction::PauseStream,
        (AudioCommand::Pause, _) => StreamAction::Nothing,
        (AudioCommand::Stop, PlayerState::Stopped) => StreamAction::Nothing,
        (AudioCommand::Stop, _) => StreamAction::DropStream,
    }
}

/// The bookkeeping after a command. A stopped player that is told to play
/// stays stopped until its stream reports in through `stream_started`.
pub open spec fn state_after(s: SharedState, cmd: AudioCommand) -> SharedState {
    match (cmd, s.state) {
        (AudioCommand::Seek(frame), _) => SharedState {
            position_frames: min_frames(frame, s.total_frames),
            ..s
        },
        (AudioCommand::Play, PlayerState::Paused) => SharedState {
            state: PlayerState::Playing,
            ..s
        },
        (AudioCommand::Pause, PlayerState::Playing) => SharedState {
            state: PlayerState::Paused,
            ..s
        },
        (AudioCommand::Stop, PlayerState::Playing) | (AudioCommand::Stop, PlayerState::Paused) => SharedState {
            state: PlayerState::Stopped,
            position_frames: 0,
            ..s
        },
        _ => s,
    }
}

impl SharedState {
    /// The position never lies beyond the end of the track.
    pub open spec fn wf(&self) -> bool {
        self.position_frames <= self.total_frames
    }

    /// A stopped player with no track: 44.1 kHz stereo, zero frames.
    pub fn new() -> (s: Self)
        ensures
            s == (SharedState {
                state: PlayerState::Stopped,
                position_frames: 0,
                sample_rate: 44100,
                channels: 2,
                total_frames: 0,
                exclusive_mode: false,
            }),
            s.wf(),
    {
        SharedState {
            state: PlayerState::Stopped,
            position_frames: 0,
            sample_rate: 44100,
            channels: 2,
            total_frames: 0,
            exclusive_mode: false,
        }
    }

    /// Applies one command and says what to do with the stream.
    pub fn handle_command(&mut self, cmd: AudioCommand) -> (action: StreamAction)
        ensures
            action == action_for(*old(self), cmd),
            *final(self) == state_after(*old(self), cmd),
            old(self).wf() ==> final(self).wf(),
    {
        match cmd {
            AudioCommand::Shutdown => StreamAction::Exit,
            AudioCommand::Seek(frame) => {
                self.position_frames = if frame <= self.total_frames {
                    frame
                } else {
                    self.total_frames
                };
                StreamAction::Nothing
            },
            AudioCommand::Play => match self.state {
                PlayerState::Paused => {
                    self.state = PlayerState::Playing;
                    StreamAction::ResumeStream
                },
                PlayerState::Playing => StreamAction::Nothing,
                PlayerState::Stopped => {
                    if self.channels == 0 {
                        StreamAction::Nothing
                    } else if self.exclusive_mode {
                        StreamAction::StartExclusive
                    } else {
                        StreamAction::BuildStream
                    }
                },
            },
            AudioCommand::Pause => match self.state {
                PlayerState::Playing => {
                    self.state = PlayerState::Paused;
                    StreamAction::PauseStream
                },
                _ => StreamAction::Nothing,
            },
            AudioCommand::Stop => match self.state {
                PlayerState::Stopped => StreamAction::Nothing,
                _ => {
                    self.state = PlayerState::Stopped;
                    self.position_frames = 0;
                    StreamAction::DropStream
                },
            },
        }
    }

    /// Installs a freshly loaded track of `sample_count` interleaved samples:
    /// the player is stopped at frame zero and the track length is the number
    /// of whole frames.
    pub fn load(&mut self, sample_count: u64, sample_rate: u32, channels: u64)
        requires
            channels > 0,
        ensures
            *final(self) == (SharedState {
                state: PlayerState::Stopped,
                position_frames: 0,
                sample_rate: sample_rate as u64,
                channels: channels,
                total_frames: (sample_count / channels) as u64,
                exclusive_mode: old(self).exclusive_mode,
            }),
            final(self).wf(),
    {
        self.state = PlayerState::Stopped;
        self.position_frames = 0;
        self.sample_rate = sample_rate as u64;
        self.channels = channels;
        self.total_frames = sample_count / channels;
    }

    /// Frames between the position and the end of the track.
    pub open spec fn remaining(&self) -> u64 {
        if self.position_frames <= self.total_frames {
            (self.total_frames - self.position_frames) as u64
        } else {
            0
        }
    }

    /// Whether the output callback has nothing left to play: the position is
    /// at the end and no resampled leftover is queued.
    pub open spec fn exhausted(&self, leftover_samples: usize) -> bool {
        self.position_frames >= self.total_frames && leftover_samples == 0
    }

    /// Called at the top of each output callback. When the track is exhausted
    /// a playing player becomes stopped and the callback must emit silence.
    pub fn finish_if_exhausted(&mut self, leftover_samples: usize) -> (done: bool)
        ensures
            done == old(self).exhausted(leftover_samples),
            final(self).state == (if done && old(self).state == PlayerState::Playing {
                PlayerState::Stopped
            } else {
                old(self).state
            }),
            final(self).position_frames == old(self).position_frames,
            final(self).total_frames == old(self).total_frames,
            final(self).sample_rate == old(self).sample_rate,
            final(self).channels == old(self).channels,
            final(self).exclusive_mode == old(self).exclusive_mode,
            old(self).wf() ==> final(self).wf(),
    {
        if self.position_frames >= self.total_frames && leftover_samples == 0 {
            if self.state == PlayerState::Playing {
                self.state = PlayerState::Stopped;
            }
            true
        } else {
            false
        }
    }

    /// Claims the next block of source frames for the output callback: at
    /// most `wanted` frames, at most `READ_CAP_FRAMES`, and never past the end
    /// of the track. The position moves forward by the frames granted.
    pub fn advance(&mut self, wanted: u64) -> (block: SourceBlock)
        ensures
            block.start_frame == old(self).position_frames,
            block.frames == min_frames(min_frames(wanted, old(self).remaining()), READ_CAP_FRAMES),
            final(self).position_frames == old(self).position_frames + block.frames,
            final(self).state == old(self).state,
            final(self).total_frames == old(self).total_frames,
            final(self).sample_rate == old(self).sample_rate,
            final(self).channels == old(self).channels,
            final(self).exclusive_mode == old(self).exclusive_mode,
            old(self).wf() ==> final(self).wf(),
    {
        let remaining: u64 = if self.position_frames <= self.total_frames {
            self.total_frames - self.position_frames
        } else {
            0
        };
        let mut frames: u64 = if wanted <= remaining { wanted } else { remaining };
        if frames > READ_CAP_FRAMES {
            frames = READ_CAP_FRAMES;
        }
        let start: u64 = self.position_frames;
        self.position_frames = start + frames;
        SourceBlock { start_frame: start, frames }
    }

    /// Records the result of building the output stream. A built stream makes
    /// the player play. A failed first attempt is retried once with the
    /// device's default configuration when there is one; any other failure
    /// leaves the player stopped.
    pub fn on_stream_build(&mut self, attempt: BuildAttempt, built: bool, default_available: bool) -> (outcome: BuildOutcome)
        ensures
            outcome == build_outcome(attempt, built, default_available),
            final(self).state == (match outcome {
                BuildOutcome::Started => PlayerState::Playing,
                BuildOutcome::RetryWithDefault => old(self).state,
                BuildOutcome::Failed => PlayerState::Stopped,
            }),
            final(self).position_frames == old(self).position_frames,
            final(self).total_frames == old(self).total_frames,
            final(self).sample_rate == old(self).sample_rate,
            final(self).channels == old(self).channels,
            final(self).exclusive_mode == old(self).exclusive_mode,
            old(self).wf() ==> final(self).wf(),
    {
        if built {
            self.state = PlayerState::Playing;
            BuildOutcome::Started
        } else {
            match attempt {
                BuildAttempt::Negotiated => {
                    if default_available {
                        BuildOutcome::RetryWithDefault
                    } else {
                        self.state = PlayerState::Stopped;
                        BuildOutcome::Failed
                    }
                },
                BuildAttempt::DeviceDefault => {
                    self.state = PlayerState::Stopped;
                    BuildOutcome::Failed
                },
            }
        }
    }
}

/// Most source frames that one pass of the output callback reads.
pub const READ_CAP_FRAMES: u64 = 4096;

/// A run of source frames claimed by the output callback.
#[derive(Debug, Clone, Copy, PartialEq, Eq, Structural)]
pub struct SourceBlock {
    pub start_frame: u64,
    pub frames: u64,
}

/// The samples of a block in a track buffer of `buf_len` interleaved
/// samples, as a half-open range, when the block lies inside the buffer.
pub fn block_samples(block: SourceBlock, channels: usize, buf_len: usize) -> (range: Option<(usize, usize)>)
    ensures
        range is Some <==> (block.start_frame + block.frames) * channels <= buf_len,
        match range {
            Some(r) => r.0 == block.start_frame * channels && r.1 == (block.start_frame
                + block.frames) * channels,
            None => true,
        },
{
    if channels == 0 {
        return Some((0, 0));
    }
    if block.frames > u64::MAX - block.start_frame {
        proof {
            assert((block.start_frame + block.frames) * channels > buf_len) by (nonlinear_arith)
                requires
                    block.start_frame + block.frames > 0xFFFF_FFFF_FFFF_FFFF,
                    channels >= 1,
                    buf_len <= 0xFFFF_FFFF_FFFF_FFFF,
            ;
        }
        return None;
    }
    let end_frame: u64 = block.start_frame + block.frames;
    proof {
        assert(0 <= block.start_frame * channels <= end_frame * channels <= 0xFFFF_FFFF_FFFF_FFFF
            * 0xFFFF_FFFF_FFFF_FFFF) by (nonlinear_arith)
            requires
                0 <= block.start_frame <= end_frame <= 0xFFFF_FFFF_FFFF_FFFF,
                0 <= channels <= 0xFFFF_FFFF_FFFF_FFFF,
        ;
    }
    let first: u128 = (block.start_frame as u128) * (channels as u128);
    let last: u128 = (end_frame as u128) * (channels as u128);
    if last <= buf_len as u128 {
        Some((first as usize, last as usize))
    } else {
        None
    }
}

/// Which configuration a stream build was tried with.
#[derive(Debug, Clone, Copy, PartialEq, Eq, Structural)]
pub enum BuildAttempt {
    /// The negotiated rate and channel count.
    Negotiated,
    /// The device's own default configuration.
    DeviceDefault,
}

/// What follows a stream build.
#[derive(Debug, Clone, Copy, PartialEq, Eq, Structural)]
pub enum BuildOutcome {
    Started,
    RetryWithDefault,
    Failed,
}

/// A failed build is retried exactly once, with the device default.
pub open spec fn build_outcome(attempt: BuildAttempt, built: bool, default_available: bool) -> BuildOutcome {
    if built {
        BuildOutcome::Started
    } else if attempt == BuildAttempt::Negotiated && default_available {
        BuildOutcome::RetryWithDefault
    } else {
        BuildOutcome::Failed
    }
}

/// Where a retry stands after it: a retry is never followed by another.
pub proof fn retry_happens_once(built: bool, default_available: bool)
    ensures
        build_outcome(BuildAttempt::DeviceDefault, built, default_available)
            != BuildOutcome::RetryWithDefault,
{
}

/// One supported output configuration of a device: a channel count and an
/// inclusive range of sample rates.
#[derive(Debug, Clone, Copy, PartialEq, Eq, Structural)]
pub struct RateRange {
    pub channels: u16,
    pub min_rate: u32,
    pub max_rate: u32,
}

/// Some configuration with this channel count covers the rate.
pub open spec fn rate_supported(configs: Seq<RateRange>, channels: u16, rate: u32) -> bool {
    exists|i: int|
        0 <= i < configs.len() && (#[trigger] configs[i]).channels == channels
            && configs[i].min_rate <= rate <= configs[i].max_rate
}

/// `top` is the highest rate any configuration with this channel count
/// reaches, or zero when there is none.
pub open spec fn is_top_rate(configs: Seq<RateRange>, channels: u16, top: u32) -> bool {
    &&& forall|i: int|
        0 <= i < configs.len() && (#[trigger] configs[i]).channels == channels
            ==> configs[i].max_rate <= top
    &&& (top == 0 || exists|i: int|
        0 <= i < configs.len() && (#[trigger] configs[i]).channels == channels
            && configs[i].max_rate == top)
}

/// Rate used when the device reports nothing usable.
pub const FALLBACK_RATE: u32 = 48000;

/// The rate a shared-mode stream is opened with: the requested rate when a
/// matching configuration covers it, else the highest rate the device offers
/// at that channel count, else the device default, else 48 kHz.
pub open spec fn stream_rate_for(
    configs: Seq<RateRange>,
    channels: u16,
    requested: u32,
    device_default: Option<u32>,
    rate: u32,
) -> bool {
    if rate_supported(configs, channels, requested) {
        rate == requested
    } else if is_top_rate(configs, channels, 0) {
        rate == (match device_default {
            Some(d) => d,
            None => FALLBACK_RATE,
        })
    } else {
        rate != 0 && is_top_rate(configs, channels, rate)
    }
}

/// Picks the rate for a shared-mode stream; `exact` says whether the
/// requested rate itself is supported.
pub fn select_stream_rate(
    configs: &Vec<RateRange>,
    channels: u16,
    requested: u32,
    device_default: Option<u32>,
) -> (choice: (u32, bool))
    ensures
        choice.1 == rate_supported(configs@, channels, requested),
        stream_rate_for(configs@, channels, requested, device_default, choice.0),
{
    let mut found: bool = false;
    let mut top: u32 = 0;
    let mut i: usize = 0;
    while i < configs.len()
        invariant
            0 <= i <= configs.len(),
            found == rate_supported(configs@.take(i as int), channels, requested),
            is_top_rate(configs@.take(i as int), channels, top),
        decreases configs.len() - i,
    {
        let c = configs[i];
        let ghost before = configs@.take(i as int);
        let ghost after = configs@.take(i + 1);
        let ghost old_top = top;
        let ghost old_found = found;
        if c.channels == channels {
            if c.max_rate > top {
                top = c.max_rate;
            }
            if requested >= c.min_rate && requested <= c.max_rate {
                found = true;
            }
        }
        proof {
            assert(after[i as int] == c);
            assert(forall|j: int| 0 <= j < i ==> after[j] == before[j]);
            if rate_supported(after, channels, requested) {
                let j = choose|j: int|
                    0 <= j < after.len() && (#[trigger] after[j]).channels == channels
                        && after[j].min_rate <= requested <= after[j].max_rate;
                if j < i {
                    assert(before[j] == after[j]);
                }
            }
            if old_found {
                let j = choose|j: int|
                    0 <= j < before.len() && (#[trigger] before[j]).channels == channels
                        && before[j].min_rate <= requested <= before[j].max_rate;
                assert(after[j] == before[j]);
            }
            assert(found == rate_supported(after, channels, requested));
            assert forall|j: int|
                0 <= j < after.len() && (#[trigger] after[j]).channels == channels implies after[j].max_rate
                <= top by {
                if j < i {
                    assert(before[j] == after[j]);
                }
            }
            if top != 0 {
                if top == old_top {
                    let j = choose|j: int|
                        0 <= j < before.len() && (#[trigger] before[j]).channels == channels
                            && before[j].max_rate == old_top;
                    assert(after[j] == before[j]);
                } else {
                    assert(after[i as int].max_rate == top);
                }
            }
        }
        i += 1;
    }
    proof {
        assert(configs@.take(i as int) =~= configs@);
    }
    if found {
        (requested, true)
    } else if top > 0 {
        proof {
            if is_top_rate(configs@, channels, 0) {
                let j = choose|j: int|
                    0 <= j < configs@.len() && (#[trigger] configs@[j]).channels == channels
                        && configs@[j].max_rate == top;
                assert(configs@[j].max_rate <= 0);
            }
        }
        (top, false)
    } else {
        let rate: u32 = match device_default {
            Some(d) => d,
            None => FALLBACK_RATE,
        };
        (rate, false)
    }
}

/// The rate a track is prepared for: the configured override, else the
/// override set at run time, else the device's default rate, else the
/// source rate.
pub fn choose_target_rate(
    configured: Option<u32>,
    requested: Option<u32>,
    device_default: Option<u32>,
    source_rate: u32,
) -> (rate: u32)
    ensures
        rate == (match (configured, requested, device_default) {
            (Some(r), _, _) => r,
            (None, Some(r), _) => r,
            (None, None, Some(r)) => r,
            (None, None, None) => source_rate,
        }),
{
    match configured {
        Some(r) => r,
        None => match requested {
            Some(r) => r,
            None => match device_default {
                Some(r) => r,
                None => source_rate,
            },
        },
    }
}

/// Every command keeps the position inside the track.
pub proof fn position_stays_in_track(s: SharedState, cmd: AudioCommand)
    requires
        s.wf(),
    ensures
        state_after(s, cmd).wf(),
{
}

/// `Stop` and `Shutdown` are accepted in every state: `Shutdown` always ends
/// the loop and after `Stop` the player is stopped.
pub proof fn stop_and_shutdown_always_accepted(s: SharedState)
    ensures
        action_for(s, AudioCommand::Shutdown) == StreamAction::Exit,
        state_after(s, AudioCommand::Stop).state == PlayerState::Stopped,
{
}

/// Whether two byte strings are the same.
pub fn bytes_equal(a: &[u8], b: &[u8]) -> (same: bool)
    ensures
        same == (a@ == b@),
{
    if a.len() != b.len() {
        return false;
    }
    let mut i: usize = 0;
    while i < a.len()
        invariant
            0 <= i <= a.len(),
            a@.len() == b@.len(),
            forall|j: int| 0 <= j < i ==> a@[j] == b@[j],
        decreases a.len() - i,
    {
        if a[i] != b[i] {
            return false;
        }
        i += 1;
    }
    proof {
        assert(a@ =~= b@);
    }
    true
}

/// An output device as shown to the user.
#[derive(Debug, Clone)]
pub struct AudioDeviceInfo {
    pub id: usize,
    pub name: String,
    pub is_default: bool,
    pub sample_rate: Option<u32>,
}

impl AudioDeviceInfo {
    /// Describes a device of a host: its label is the device name followed
    /// by the host name in square brackets, and it is the default when the
    /// host's default device carries the same name.
    pub fn describe(
        id: usize,
        name: &str,
        host: &str,
        default_name: Option<&str>,
        sample_rate: Option<u32>,
    ) -> (info: Self)
        ensures
            info.id == id,
            info.name@ == name@ + " ["@ + host@ + "]"@,
            info.is_default == (match default_name {
                Some(d) => d.spec_bytes() == name.spec_bytes(),
                None => false,
            }),
            info.sample_rate == sample_rate,
    {
        let mut label = String::from_str(name);
        label.append(" [");
        label.append(host);
        label.append("]");
        let is_default = match default_name {
            Some(d) => bytes_equal(d.as_bytes(), name.as_bytes()),
            None => false,
        };
        AudioDeviceInfo { id, name: label, is_default, sample_rate }
    }
}

/// What the orchestrator does after looking at the exclusive backend.
#[derive(Debug, Clone, Copy, PartialEq, Eq, Structural)]
pub enum MonitorStep {
    /// Keep monitoring.
    Continue,
    /// The backend has played the track to its end: leave the loop.
    Finished,
}

/// The exclusive backend has stopped after having played something.
pub open spec fn backend_done(backend: WasapiSharedState) -> bool {
    backend.state == WasapiState::Stopped && backend.position_frames > 0
}

/// The player state that mirrors the backend's: a backend that has not
/// started yet leaves the state as it is.
pub open spec fn mirrored_state(current: PlayerState, backend: WasapiSharedState) -> PlayerState {
    match backend.state {
        WasapiState::Playing => PlayerState::Playing,
        WasapiState::Paused => PlayerState::Paused,
        WasapiState::Stopped => if backend.position_frames > 0 {
            PlayerState::Stopped
        } else {
            current
        },
    }
}

impl SharedState {
    /// Mirrors the exclusive backend into the player's bookkeeping: its
    /// state, its rate and track length, and its position, kept inside the
    /// track.
    pub fn mirror_exclusive(&mut self, backend: &WasapiSharedState) -> (step: MonitorStep)
        ensures
            step == (if backend_done(*backend) {
                MonitorStep::Finished
            } else {
                MonitorStep::Continue
            }),
            *final(self) == (SharedState {
                state: mirrored_state(old(self).state, *backend),
                position_frames: min_frames(backend.position_frames, backend.total_frames),
                sample_rate: backend.sample_rate,
                total_frames: backend.total_frames,
                ..*old(self)
            }),
            final(self).wf(),
    {
        self.sample_rate = backend.sample_rate;
        self.total_frames = backend.total_frames;
        self.position_frames = if backend.position_frames <= backend.total_frames {
            backend.position_frames
        } else {
            backend.total_frames
        };
        match backend.state {
            WasapiState::Playing => {
                self.state = PlayerState::Playing;
                MonitorStep::Continue
            },
            WasapiState::Paused => {
                self.state = PlayerState::Paused;
                MonitorStep::Continue
            },
            WasapiState::Stopped => {
                if backend.position_frames > 0 {
                    self.state = PlayerState::Stopped;
                    MonitorStep::Finished
                } else {
                    MonitorStep::Continue
                }
            },
        }
    }
}

/// The smaller of two sample counts.
pub open spec fn min_len(a: int, b: int) -> int {
    if a <= b {
        a
    } else {
        b
    }
}

/// Moves queued samples to the output: as many as there is room for, oldest
/// first. What does not fit stays queued, in order.
pub fn drain_leftover(leftover: &mut Vec<u64>, room: usize) -> (emitted: Vec<u64>)
    ensures
        emitted@ == old(leftover)@.take(min_len(old(leftover)@.len() as int, room as int)),
        final(leftover)@ == old(leftover)@.skip(min_len(old(leftover)@.len() as int, room as int)),
{
    let len: usize = leftover.len();
    let k: usize = if len <= room { len } else { room };
    let mut emitted: Vec<u64> = Vec::new();
    let mut rest: Vec<u64> = Vec::new();
    let mut i: usize = 0;
    while i < len
        invariant
            0 <= i <= len,
            k <= len,
            len == leftover@.len(),
            leftover@ == old(leftover)@,
            emitted@ == leftover@.take(min_len(i as int, k as int)),
            rest@ == leftover@.subrange(k as int, if i <= k { k as int } else { i as int }),
        decreases len - i,
    {
        if i < k {
            emitted.push(leftover[i]);
            proof {
                assert(emitted@ =~= leftover@.take(i + 1));
                assert(rest@ =~= leftover@.subrange(k as int, k as int));
            }
        } else {
            rest.push(leftover[i]);
            proof {
                assert(rest@ =~= leftover@.subrange(k as int, i + 1));
            }
        }
        i += 1;
    }
    proof {
        assert(rest@ =~= old(leftover)@.skip(k as int));
    }
    *leftover = rest;
    emitted
}

/// Hands a freshly produced chunk to the output: as many samples as there
/// is room for are emitted and the rest joins the end of the queue.
pub fn stash_overflow(leftover: &mut Vec<u64>, chunk: &[u64], room: usize) -> (emitted: Vec<u64>)
    ensures
        emitted@ == chunk@.take(min_len(chunk@.len() as int, room as int)),
        final(leftover)@ == old(leftover)@ + chunk@.skip(min_len(chunk@.len() as int, room as int)),
{
    let len: usize = chunk.len();
    let k: usize = if len <= room { len } else { room };
    let mut emitted: Vec<u64> = Vec::new();
    let mut i: usize = 0;
    while i < len
        invariant
            0 <= i <= len,
            k <= len,
            len == chunk@.len(),
            emitted@ == chunk@.take(min_len(i as int, k as int)),
            leftover@ == old(leftover)@ + chunk@.subrange(
                k as int,
                if i <= k { k as int } else { i as int },
            ),
        decreases len - i,
    {
        if i < k {
            emitted.push(chunk[i]);
            proof {
                assert(emitted@ =~= chunk@.take(i + 1));
                assert(leftover@ =~= old(leftover)@ + chunk@.subrange(k as int, k as int));
            }
        } else {
            leftover.push(chunk[i]);
            proof {
                assert(leftover@ =~= old(leftover)@ + chunk@.subrange(k as int, i + 1));
            }
        }
        i += 1;
    }
    proof {
        assert(chunk@.subrange(k as int, len as int) =~= chunk@.skip(k as int));
    }
    emitted
}

/// Bit depth the noise shaper is built for on every load.
pub const DITHER_BITS: u32 = 24;

/// The processors that are rebuilt for every track.
pub struct TrackProcessors {
    pub eq: Equalizer,
    pub noise_shaper: NoiseShaper,
}

/// Installs a loaded track: the player is stopped at frame zero with the
/// track's rate, channel count and length, and the equalizer and the noise
/// shaper are built afresh for the track's rate, both with silent history.
/// With more channels than the processors can hold nothing changes.
pub fn install_track(
    state: &mut SharedState,
    sample_count: u64,
    sample_rate: u32,
    channels: usize,
    flat: &[BiquadSection; 10],
) -> (built: Option<TrackProcessors>)
    requires
        channels > 0,
    ensures
        built is Some <==> channels * EQ_BANDS <= usize::MAX,
        match built {
            Some(p) => {
                &&& *final(state) == (SharedState {
                    state: PlayerState::Stopped,
                    position_frames: 0,
                    sample_rate: sample_rate as u64,
                    channels: channels as u64,
                    total_frames: (sample_count / channels as u64) as u64,
                    exclusive_mode: old(state).exclusive_mode,
                })
                &&& p.eq.wf()
                &&& p.eq.quiet()
                &&& !p.eq.is_on()
                &&& p.eq.channel_count() == channels
                &&& forall|ch: int, b: int|
                    0 <= ch < channels && 0 <= b < EQ_BANDS ==> #[trigger] p.eq.sections()[ch
                        * EQ_BANDS as int + b] == (BiquadSection { z1: 0, z2: 0, ..flat@[b] })
                &&& p.noise_shaper.wf()
                &&& p.noise_shaper.quiet()
                &&& p.noise_shaper.is_on()
                &&& p.noise_shaper.channel_count() == channels
                &&& p.noise_shaper.spec_bits() == DITHER_BITS
                &&& p.noise_shaper.spec_taps() == taps_for(sample_rate)
            },
            None => *final(state) == *old(state),
        },
        final(state).wf() || (built is None && !old(state).wf()),
{
    let eq = match Equalizer::new(channels, flat) {
        Some(eq) => eq,
        None => {
            return None;
        },
    };
    let noise_shaper = match NoiseShaper::new(channels, sample_rate, DITHER_BITS) {
        Some(ns) => ns,
        None => {
            return None;
        },
    };
    state.load(sample_count, sample_rate, channels as u64);
    Some(TrackProcessors { eq, noise_shaper })
}

/// Most samples fed to the spectrum analyzer in one look at the backend.
pub const SPECTRUM_FEED_SAMPLES: u64 = 4096;

/// A run of whole frames of the track buffer.
#[derive(Debug, Clone, Copy, PartialEq, Eq, Structural)]
pub struct FrameSpan {
    pub first_frame: u64,
    pub frames: u64,
}

/// Frames of a buffer of `buf_len` samples that lie at or after `frame`.
pub open spec fn frames_from(frame: u64, channels: u64, buf_len: usize) -> int {
    if channels == 0 || (buf_len as int) / (channels as int) <= frame {
        0
    } else {
        (buf_len as int) / (channels as int) - frame
    }
}

/// The frames to feed the spectrum analyzer after the position moved from
/// `last_seen` to `position`: the frames played since, starting at
/// `last_seen`, but no more than 4096 samples' worth and none outside the
/// buffer.
pub fn spectrum_span(last_seen: u64, position: u64, channels: u64, buf_len: usize) -> (span: FrameSpan)
    ensures
        span.first_frame == last_seen,
        span.frames == (if channels == 0 || position <= last_seen {
            0
        } else {
            min_len(
                min_len(position - last_seen, SPECTRUM_FEED_SAMPLES as int / channels as int),
                frames_from(last_seen, channels, buf_len),
            )
        }),
{
    if channels == 0 || position <= last_seen {
        return FrameSpan { first_frame: last_seen, frames: 0 };
    }
    let played: u64 = position - last_seen;
    let cap: u64 = SPECTRUM_FEED_SAMPLES / channels;
    let in_buffer: u64 = (buf_len as u64) / channels;
    let held: u64 = if in_buffer <= last_seen {
        0
    } else {
        in_buffer - last_seen
    };
    let mut frames: u64 = if played <= cap { played } else { cap };
    if held < frames {
        frames = held;
    }
    FrameSpan { first_frame: last_seen, frames }
}

} // verus!

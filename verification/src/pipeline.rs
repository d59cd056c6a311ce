//! The streaming path between the decoding worker and playback: a ring of
//! frames and the progress counters around it.
//!
//! Samples are carried as 64-bit words and are never inspected, so what is
//! read is bit for bit what was written.

use vstd::prelude::*;
use vstd::arithmetic::div_mod::*;
use crate::decoder::AudioInfo;

verus! {

/// Smallest ring the streaming path uses, in frames per channel.
pub const RING_BUFFER_FRAMES: usize = 131072;

/// Frames handled per decode and resample cycle.
pub const CHUNK_SIZE_FRAMES: usize = 8192;

/// Status of the audio pipeline.
#[derive(Debug, Clone, Copy, PartialEq, Eq, Structural)]
pub enum PipelineStatus {
    /// Waiting for data.
    Idle,
    /// Actively buffering.
    Buffering,
    /// All data has been processed.
    Finished,
    /// The worker gave up.
    Error,
}

/// Why a write to the ring was refused.
#[derive(Debug, Clone, Copy, PartialEq, Eq, Structural)]
pub enum RingError {
    /// The samples do not make up whole frames.
    Misaligned,
    /// The write would run over frames that have not been read yet.
    Full,
    /// The frame counter would leave its range.
    CounterOverflow,
}

/// A ring of interleaved frames. It remembers the last `capacity` frames of
/// the stream written to it; frames are addressed by their index in that
/// stream.
pub struct RingBuffer {
    data: Vec<u64>,
    write_pos: usize,
    capacity_frames: usize,
    channels: usize,
    frames_written: u64,
    stream: Ghost<Seq<u64>>,
}

/// Two frames less than a ring apart never share a slot.
proof fn lemma_slots_differ(f: int, g: int, cap: int)
    requires
        0 <= f < g,
        g - f < cap,
    ensures
        f % cap != g % cap,
{
    lemma_fundamental_div_mod(f, cap);
    lemma_fundamental_div_mod(g, cap);
    if f % cap == g % cap {
        let d = g / cap - f / cap;
        assert(g - f == cap * d) by (nonlinear_arith)
            requires
                f == cap * (f / cap) + f % cap,
                g == cap * (g / cap) + g % cap,
                f % cap == g % cap,
                d == g / cap - f / cap,
        ;
        assert(false) by (nonlinear_arith)
            requires
                g - f == cap * d,
                0 < g - f < cap,
        ;
    }
}

/// A cell index tells its slot and channel.
proof fn lemma_cell(slot: int, ch: int, c: int)
    requires
        0 <= slot,
        0 <= c < ch,
    ensures
        (slot * ch + c) / ch == slot,
        (slot * ch + c) % ch == c,
        slot * ch + c >= 0,
{
    lemma_fundamental_div_mod_converse(slot * ch + c, ch, slot, c);
    assert(slot * ch >= 0) by (nonlinear_arith)
        requires
            0 <= slot,
            0 < ch,
    ;
}

/// Cells of a slot lie inside a ring of `cap` slots.
proof fn lemma_cell_bound(slot: int, cap: int, ch: int, c: int)
    requires
        0 <= slot < cap,
        0 <= c < ch,
    ensures
        0 <= slot * ch + c < cap * ch,
{
    assert(slot * ch + c < cap * ch && 0 <= slot * ch + c) by (nonlinear_arith)
        requires
            0 <= slot < cap,
            0 <= c < ch,
    ;
}

impl RingBuffer {
    /// Every sample ever written, in order.
    pub closed spec fn history(&self) -> Seq<u64> {
        self.stream@
    }

    /// Capacity in frames.
    pub closed spec fn capacity(&self) -> nat {
        self.capacity_frames as nat
    }

    /// Samples per frame.
    pub closed spec fn channel_count(&self) -> nat {
        self.channels as nat
    }

    /// Frames written so far.
    pub closed spec fn written(&self) -> nat {
        self.frames_written as nat
    }

    /// The ring holds the most recent frames of its history, each in the
    /// slot its index selects.
    pub closed spec fn wf(&self) -> bool {
        &&& self.channels > 0
        &&& self.capacity_frames > 0
        &&& self.data@.len() == self.capacity_frames * self.channels
        &&& self.capacity_frames * self.channels <= usize::MAX
        &&& self.stream@.len() == self.frames_written * self.channels
        &&& self.write_pos == self.frames_written as int % self.capacity_frames as int
        &&& forall|f: int, c: int|
            0 <= f < self.frames_written && self.frames_written - self.capacity_frames <= f && 0
                <= c < self.channels ==> #[trigger] self.data@[(f % self.capacity_frames as int)
                * self.channels + c] == self.stream@[f * self.channels + c]
    }

    /// Frames a reader at `read_pos` can take: those written and not yet
    /// read, never less than zero.
    pub open spec fn available(&self, read_pos: u64) -> nat {
        if read_pos <= self.written() {
            (self.written() - read_pos) as nat
        } else {
            0
        }
    }

    /// The history is made of whole frames.
    pub proof fn history_is_whole_frames(&self)
        requires
            self.wf(),
        ensures
            self.history().len() == self.written() * self.channel_count(),
            self.channel_count() > 0,
            self.capacity() > 0,
    {
    }

    /// An empty ring of `capacity_frames` frames of `channels` samples.
    pub fn new(capacity_frames: usize, channels: usize) -> (ring: Self)
        requires
            capacity_frames > 0,
            channels > 0,
            capacity_frames * channels <= usize::MAX,
        ensures
            ring.wf(),
            ring.capacity() == capacity_frames,
            ring.channel_count() == channels,
            ring.written() == 0,
            ring.history() == Seq::<u64>::empty(),
    {
        let cells: usize = capacity_frames * channels;
        let mut data: Vec<u64> = Vec::new();
        let mut i: usize = 0;
        while i < cells
            invariant
                0 <= i <= cells,
                data@.len() == i,
            decreases cells - i,
        {
            data.push(0);
            i += 1;
        }
        RingBuffer {
            data,
            write_pos: 0,
            capacity_frames,
            channels,
            frames_written: 0,
            stream: Ghost(Seq::empty()),
        }
    }

    /// Appends whole frames to the stream, overwriting the oldest frames of
    /// the ring. Refused when the samples are not whole frames.
    pub fn write(&mut self, samples: &[u64]) -> (res: Result<usize, RingError>)
        requires
            old(self).wf(),
        ensures
            final(self).wf(),
            final(self).capacity() == old(self).capacity(),
            final(self).channel_count() == old(self).channel_count(),
            match res {
                Ok(frames) => {
                    &&& samples@.len() % old(self).channel_count() == 0
                    &&& frames == samples@.len() / old(self).channel_count()
                    &&& final(self).written() == old(self).written() + frames
                    &&& final(self).history() == old(self).history() + samples@
                },
                Err(e) => {
                    &&& final(self).written() == old(self).written()
                    &&& final(self).history() == old(self).history()
                    &&& e != RingError::Full
                    &&& e == RingError::Misaligned <==> samples@.len() % old(self).channel_count()
                        != 0
                    &&& e == RingError::CounterOverflow ==> old(self).written() + samples@.len()
                        / old(self).channel_count() > u64::MAX
                },
            },
            samples@.len() % old(self).channel_count() == 0 && old(self).written() + samples@.len()
                / old(self).channel_count() <= u64::MAX ==> res is Ok,
    {
        let ch: usize = self.channels;
        let cap: usize = self.capacity_frames;
        if samples.len() % ch != 0 {
            return Err(RingError::Misaligned);
        }
        let total: usize = samples.len();
        let frames: usize = total / ch;
        if frames as u64 > u64::MAX - self.frames_written {
            return Err(RingError::CounterOverflow);
        }
        proof {
            lemma_fundamental_div_mod(samples@.len() as int, ch as int);
            assert(frames * ch == ch * frames) by (nonlinear_arith);
        }
        let mut k: usize = 0;
        while k < frames
            invariant
                0 <= k <= frames,
                frames * ch == samples@.len(),
                samples@.len() == total,
                ch > 0,
                self.wf(),
                self.channels == ch,
                self.capacity_frames == cap,
                self.frames_written == old(self).frames_written + k,
                old(self).frames_written + frames <= u64::MAX,
                self.stream@ == old(self).stream@ + samples@.take(k * ch),
            decreases frames - k,
        {
            let slot: usize = self.write_pos;
            let ghost before = self.data@;
            let ghost w = self.frames_written as int;
            proof {
                lemma_mod_bound(w, cap as int);
                assert(slot * ch >= 0) by (nonlinear_arith)
                    requires
                        slot >= 0,
                        ch > 0,
                ;
                assert((k + 1) * ch <= frames * ch) by (nonlinear_arith)
                    requires
                        k + 1 <= frames,
                        ch > 0,
                ;
                assert((k + 1) * ch == k * ch + ch) by (nonlinear_arith);
                assert(k * ch >= 0) by (nonlinear_arith)
                    requires
                        k >= 0,
                        ch > 0,
                ;
                lemma_cell_bound(slot as int, cap as int, ch as int, 0);
                assert(slot * ch + ch <= cap * ch) by (nonlinear_arith)
                    requires
                        slot < cap,
                        ch > 0,
                ;
            }
            let base: usize = slot * ch;
            let from: usize = k * ch;
            let mut c: usize = 0;
            while c < ch
                invariant
                    0 <= c <= ch,
                    base + ch <= self.data@.len() <= usize::MAX,
                    from + ch <= samples@.len() == total,
                    self.data@.len() == before.len(),
                    self.channels == ch,
                    self.capacity_frames == cap,
                    self.write_pos == slot,
                    self.frames_written == w,
                    self.stream@ == old(self).stream@ + samples@.take(k * ch),
                    forall|j: int|
                        base <= j < base + c ==> #[trigger] self.data@[j] == samples@[j - base + from],
                    forall|j: int|
                        0 <= j < before.len() && !(base <= j < base + c) ==> self.data@[j]
                            == before[j],
                decreases ch - c,
            {
                self.data[base + c] = samples[from + c];
                c += 1;
            }
            self.write_pos = if slot + 1 == cap {
                0
            } else {
                slot + 1
            };
            self.frames_written = self.frames_written + 1;
            proof {
                let ghost grown = self.stream@ + samples@.subrange(from as int, from + ch);
                assert(samples@.take((k + 1) * ch) =~= samples@.take(k * ch) + samples@.subrange(
                    from as int,
                    from + ch,
                ));
                self.stream = Ghost(grown);
                assert(self.stream@ =~= old(self).stream@ + samples@.take((k + 1) * ch));
                assert(w * ch + ch == (w + 1) * ch) by (nonlinear_arith);
                // the write position follows the frame counter
                lemma_fundamental_div_mod(w, cap as int);
                let ghost q = w / (cap as int);
                if slot + 1 == cap {
                    assert(w + 1 == (q + 1) * cap + 0) by (nonlinear_arith)
                        requires
                            w == cap * q + slot,
                            slot + 1 == cap,
                    ;
                    lemma_fundamental_div_mod_converse(w + 1, cap as int, q + 1, 0);
                } else {
                    assert(w + 1 == q * cap + (slot + 1)) by (nonlinear_arith)
                        requires
                            w == cap * q + slot,
                    ;
                    lemma_fundamental_div_mod_converse(w + 1, cap as int, q, slot + 1);
                }
                assert forall|f: int, cc: int|
                    0 <= f < w + 1 && w + 1 - cap <= f && 0 <= cc < ch implies #[trigger] self.data@[(
                f % cap as int) * ch + cc] == self.stream@[f * ch + cc] by {
                    lemma_mod_bound(f, cap as int);
                    let s = f % cap as int;
                    lemma_cell(s, ch as int, cc);
                    lemma_cell_bound(s, cap as int, ch as int, cc);
                    assert(f * ch + cc < (w + 1) * ch && f * ch >= 0) by (nonlinear_arith)
                        requires
                            0 <= f < w + 1,
                            0 <= cc < ch,
                    ;
                    if f == w {
                        assert(self.data@[base + cc] == samples@[from + cc]);
                        assert(self.stream@[w * ch + cc] == samples@[from + cc]);
                    } else {
                        lemma_slots_differ(f, w, cap as int);
                        lemma_cell(slot as int, ch as int, 0);
                        if base <= s * ch + cc < base + ch {
                            let off = s * ch + cc - base;
                            lemma_cell(slot as int, ch as int, off);
                            assert(false);
                        }
                        assert(self.data@[s * ch + cc] == before[s * ch + cc]);
                        assert(f * ch + cc < w * ch) by (nonlinear_arith)
                            requires
                                0 <= f < w,
                                0 <= cc < ch,
                        ;
                    }
                }
            }
            k += 1;
        }
        proof {
            assert(samples@.take(frames * ch) =~= samples@);
        }
        Ok(frames)
    }

    /// Copies frames of the stream, from frame `start_frame` on, into
    /// `output`: as many whole frames as `output` has room for, but no more
    /// than are available. Returns the number of frames copied; the rest of
    /// `output` is left as it was. As long as the reader is less than one
    /// ring behind the writer, the frames are those that were written.
    pub fn read(&self, start_frame: u64, output: &mut Vec<u64>) -> (frames: usize)
        requires
            self.wf(),
        ensures
            frames == (if old(output)@.len() / self.channel_count() <= self.available(start_frame) {
                old(output)@.len() / self.channel_count()
            } else {
                self.available(start_frame)
            }),
            final(output)@.len() == old(output)@.len(),
            forall|i: int|
                frames * self.channel_count() <= i < old(output)@.len() ==> final(output)@[i] == old(
                    output,
                )@[i],
            start_frame + self.capacity() >= self.written() ==> forall|i: int|
                0 <= i < frames * self.channel_count() ==> #[trigger] final(output)@[i]
                    == self.history()[start_frame * self.channel_count() + i],
    {
        let ch: usize = self.channels;
        let cap: usize = self.capacity_frames;
        let out_len: usize = output.len();
        let room: usize = out_len / ch;
        let avail: u64 = if start_frame <= self.frames_written {
            self.frames_written - start_frame
        } else {
            0
        };
        let n: usize = if (room as u64) <= avail {
            room
        } else {
            avail as usize
        };
        proof {
            lemma_fundamental_div_mod(output@.len() as int, ch as int);
            assert(n * ch <= room * ch) by (nonlinear_arith)
                requires
                    n <= room,
                    ch > 0,
            ;
            assert(room * ch == ch * room) by (nonlinear_arith);
        }
        let mut fr: usize = 0;
        while fr < n
            invariant
                0 <= fr <= n,
                self.wf(),
                ch == self.channels,
                cap == self.capacity_frames,
                ch > 0,
                n * ch <= output@.len(),
                n <= avail,
                avail == self.available(start_frame),
                output@.len() == old(output)@.len(),
                output@.len() == out_len,
                forall|i: int| fr * ch <= i < output@.len() ==> output@[i] == old(output)@[i],
                start_frame + cap >= self.frames_written ==> forall|i: int|
                    0 <= i < fr * ch ==> #[trigger] output@[i] == self.stream@[start_frame * ch + i],
            decreases n - fr,
        {
            let f: u64 = start_frame + fr as u64;
            let slot: usize = (f % (cap as u64)) as usize;
            proof {
                lemma_mod_bound(f as int, cap as int);
                lemma_cell_bound(slot as int, cap as int, ch as int, 0);
                assert(slot * ch + ch <= cap * ch && slot * ch >= 0) by (nonlinear_arith)
                    requires
                        0 <= slot < cap,
                        ch > 0,
                ;
                assert((fr + 1) * ch <= n * ch && fr * ch >= 0 && (fr + 1) * ch == fr * ch + ch)
                    by (nonlinear_arith)
                    requires
                        0 <= fr,
                        fr + 1 <= n,
                        ch > 0,
                ;
            }
            let base: usize = slot * ch;
            let to: usize = fr * ch;
            let ghost before = output@;
            let mut c: usize = 0;
            while c < ch
                invariant
                    0 <= c <= ch,
                    self.wf(),
                    ch == self.channels,
                    cap == self.capacity_frames,
                    base == slot * ch,
                    slot == f as int % cap as int,
                    f == start_frame + fr,
                    f < self.frames_written,
                    to == fr * ch,
                    base + ch <= self.data@.len() <= usize::MAX,
                    to + ch <= output@.len(),
                    output@.len() == before.len(),
                    output@.len() == out_len,
                    forall|i: int| 0 <= i < output@.len() && !(to <= i < to + c) ==> output@[i] == before[i],
                    start_frame + cap >= self.frames_written ==> forall|i: int|
                        to <= i < to + c ==> #[trigger] output@[i] == self.stream@[start_frame * ch + i],
                decreases ch - c,
            {
                let v: u64 = self.data[base + c];
                output[to + c] = v;
                proof {
                    if start_frame + cap >= self.frames_written {
                        assert(self.data@[(f as int % cap as int) * ch + c] == self.stream@[f * ch
                            + c]);
                        assert(f * ch + c == start_frame * ch + (to + c)) by (nonlinear_arith)
                            requires
                                f == start_frame + fr,
                                to == fr * ch,
                        ;
                    }
                }
                c += 1;
            }
            proof {
                assert((fr + 1) * ch == fr * ch + ch) by (nonlinear_arith);
                if start_frame + cap >= self.frames_written {
                    assert forall|i: int| 0 <= i < (fr + 1) * ch implies #[trigger] output@[i]
                        == self.stream@[start_frame * ch + i] by {
                        if i < to {
                            assert(output@[i] == before[i]);
                        }
                    }
                }
            }
            fr += 1;
        }
        n
    }

    /// Frames available for reading from a given position.
    pub fn available_frames(&self, read_pos: u64) -> (frames: u64)
        ensures
            frames == self.available(read_pos),
    {
        if read_pos <= self.frames_written {
            self.frames_written - read_pos
        } else {
            0
        }
    }

    /// Total frames written.
    pub fn total_written(&self) -> (frames: u64)
        ensures
            frames == self.written(),
    {
        self.frames_written
    }

    /// Frames that can be written without running over a reader at
    /// `read_pos`.
    pub open spec fn free(&self, read_pos: u64) -> nat {
        if self.available(read_pos) <= self.capacity() {
            (self.capacity() - self.available(read_pos)) as nat
        } else {
            0
        }
    }

    /// Frames that can be written without running over a reader at
    /// `read_pos`.
    pub fn free_frames(&self, read_pos: u64) -> (frames: u64)
        ensures
            frames == self.free(read_pos),
    {
        let unread: u64 = self.available_frames(read_pos);
        if unread <= self.capacity_frames as u64 {
            self.capacity_frames as u64 - unread
        } else {
            0
        }
    }

    /// Appends whole frames to the stream unless that would run over frames
    /// the reader at `read_pos` has not taken yet; the writer then has to
    /// wait. After a successful write the reader is still at most one ring
    /// behind.
    pub fn write_behind(&mut self, read_pos: u64, samples: &[u64]) -> (res: Result<usize, RingError>)
        requires
            old(self).wf(),
        ensures
            final(self).wf(),
            final(self).capacity() == old(self).capacity(),
            final(self).channel_count() == old(self).channel_count(),
            match res {
                Ok(frames) => {
                    &&& frames == samples@.len() / old(self).channel_count()
                    &&& final(self).written() == old(self).written() + frames
                    &&& final(self).history() == old(self).history() + samples@
                    &&& old(self).available(read_pos) <= old(self).capacity()
                        ==> final(self).available(read_pos) <= final(self).capacity()
                },
                Err(e) => {
                    &&& final(self).written() == old(self).written()
                    &&& final(self).history() == old(self).history()
                },
            },
            res == write_verdict(
                samples@.len(),
                old(self).channel_count(),
                old(self).free(read_pos),
                old(self).written(),
            ),
    {
        let ch: usize = self.channels;
        if samples.len() % ch != 0 {
            return Err(RingError::Misaligned);
        }
        let frames: usize = samples.len() / ch;
        if frames as u64 > self.free_frames(read_pos) {
            return Err(RingError::Full);
        }
        self.write(samples)
    }
}

/// Whether a guarded write of `len` samples goes through: misaligned
/// samples are refused first, then a write the ring has no room for, then
/// one that would exhaust the frame counter.
pub open spec fn write_verdict(len: nat, channels: nat, free: nat, written: nat) -> Result<usize, RingError> {
    if len % channels != 0 {
        Err(RingError::Misaligned)
    } else if len / channels > free {
        Err(RingError::Full)
    } else if written + len / channels > u64::MAX {
        Err(RingError::CounterOverflow)
    } else {
        Ok((len / channels) as usize)
    }
}

/// The number of frames a stream of `frames` frames has after conversion
/// from rate `from` to rate `to`, rounded up and kept in range.
pub open spec fn scaled_frames(frames: u64, from: u32, to: u32) -> u64 {
    let exact = (frames as int * to as int + from as int - 1) / (from as int);
    if exact > u64::MAX {
        u64::MAX
    } else {
        exact as u64
    }
}

/// The estimate is the exact ratio rounded up: it is never below
/// `frames * to / from` and less than one frame above it.
pub proof fn estimate_is_ratio_rounded_up(frames: u64, from: u32, to: u32)
    requires
        from > 0,
        scaled_frames(frames, from, to) < u64::MAX,
    ensures
        scaled_frames(frames, from, to) * from >= frames * to,
        (scaled_frames(frames, from, to) - 1) * from < frames * to,
{
    let n = frames as int * to as int + from as int - 1;
    let d = from as int;
    lemma_fundamental_div_mod(n, d);
    lemma_mod_bound(n, d);
    let q = n / d;
    assert(n >= 0) by (nonlinear_arith)
        requires
            n == frames as int * to as int + from as int - 1,
            frames >= 0,
            to >= 0,
            from >= 1,
    ;
    assert(q >= 0) by {
        lemma_div_pos_is_pos(n, d);
    }
    assert(q * d == d * q) by (nonlinear_arith);
    assert((q - 1) * d == q * d - d) by (nonlinear_arith);
}

/// Estimates the length of a stream after rate conversion.
pub fn estimate_output_frames(frames: u64, from: u32, to: u32) -> (out: u64)
    requires
        from > 0,
    ensures
        out == scaled_frames(frames, from, to),
        from == to ==> out == frames,
{
    proof {
        assert(frames as int * to as int <= 0xFFFF_FFFF_FFFF_FFFF * 0xFFFF_FFFF) by (nonlinear_arith)
            requires
                0 <= frames <= 0xFFFF_FFFF_FFFF_FFFF,
                0 <= to <= 0xFFFF_FFFF,
        ;
        assert(frames as int * to as int >= 0) by (nonlinear_arith)
            requires
                0 <= frames,
                0 <= to,
        ;
        if from == to {
            let f = from as int;
            assert((frames as int * f + f - 1) / f == frames as int) by {
                lemma_fundamental_div_mod_converse(
                    frames as int * f + f - 1,
                    f,
                    frames as int,
                    f - 1,
                );
            }
        }
    }
    let product: u128 = (frames as u128) * (to as u128);
    let exact: u128 = (product + (from as u128) - 1) / (from as u128);
    if exact > u64::MAX as u128 {
        u64::MAX
    } else {
        exact as u64
    }
}

/// Why a pipeline could not be set up.
#[derive(Debug, Clone, Copy, PartialEq, Eq, Structural)]
pub enum PipelineError {
    /// The track has no channels or no sample rate, or more channels than a
    /// ring can hold.
    InvalidFormat,
}

/// The streaming pipeline between the decoding worker and playback: the
/// ring and its progress counters.
pub struct AudioPipeline {
    ring_buffer: RingBuffer,
    is_running: bool,
    is_finished: bool,
    failed: bool,
    buffered_frames: u64,
    total_frames: u64,
    current_read_pos: u64,
    channels: usize,
    sample_rate: u32,
    original_sample_rate: u32,
}

/// A track format the pipeline can carry.
pub open spec fn format_usable(info: AudioInfo) -> bool {
    &&& info.channels > 0
    &&& info.sample_rate > 0
    &&& RING_BUFFER_FRAMES * info.channels <= usize::MAX
}

impl AudioPipeline {
    /// The ring is sound and the counters agree with it.
    pub closed spec fn wf(&self) -> bool {
        &&& self.ring_buffer.wf()
        &&& self.ring_buffer.channel_count() == self.channels
        &&& self.ring_buffer.capacity() == RING_BUFFER_FRAMES
        &&& self.buffered_frames == self.ring_buffer.written()
        &&& self.channels > 0
    }

    /// Every sample the worker has delivered, in order.
    pub closed spec fn delivered(&self) -> Seq<u64> {
        self.ring_buffer.history()
    }

    /// Samples per frame.
    pub closed spec fn spec_channels(&self) -> nat {
        self.channels as nat
    }

    /// Frames delivered so far.
    pub closed spec fn spec_buffered(&self) -> u64 {
        self.buffered_frames
    }

    /// The reader's position in frames.
    pub closed spec fn spec_read_position(&self) -> u64 {
        self.current_read_pos
    }

    /// The length of the stream: an estimate while the worker runs, the
    /// delivered length once it has finished.
    pub closed spec fn spec_total(&self) -> u64 {
        self.total_frames
    }

    /// The worker has been started and not stopped.
    pub closed spec fn spec_running(&self) -> bool {
        self.is_running
    }

    /// The worker has come to its end.
    pub closed spec fn spec_finished(&self) -> bool {
        self.is_finished
    }

    /// The worker gave up on an error.
    pub closed spec fn spec_failed(&self) -> bool {
        self.failed
    }

    /// The rate of the delivered audio.
    pub closed spec fn spec_sample_rate(&self) -> u32 {
        self.sample_rate
    }

    /// The rate of the source.
    pub closed spec fn spec_original_rate(&self) -> u32 {
        self.original_sample_rate
    }

    /// Frames delivered and not yet read.
    pub open spec fn spec_available(&self) -> u64 {
        if self.spec_read_position() <= self.spec_buffered() {
            (self.spec_buffered() - self.spec_read_position()) as u64
        } else {
            0
        }
    }

    /// Sets up an idle pipeline for a track. The target rate is the
    /// requested one, or the source rate when none is requested; the length
    /// is estimated from the source length.
    pub fn new(info: AudioInfo, target_sample_rate: Option<u32>) -> (res: Result<Self, PipelineError>)
        ensures
            res is Ok <==> format_usable(info),
            match res {
                Ok(p) => {
                    &&& p.wf()
                    &&& p.delivered() == Seq::<u64>::empty()
                    &&& p.spec_channels() == info.channels
                    &&& p.spec_buffered() == 0
                    &&& p.spec_read_position() == 0
                    &&& !p.spec_running()
                    &&& !p.spec_finished()
                    &&& !p.spec_failed()
                    &&& p.spec_original_rate() == info.sample_rate
                    &&& p.spec_sample_rate() == (match target_sample_rate {
                        Some(r) => r,
                        None => info.sample_rate,
                    })
                    &&& p.spec_total() == scaled_frames(
                        match info.total_frames {
                            Some(n) => n,
                            None => 0,
                        },
                        info.sample_rate,
                        p.spec_sample_rate(),
                    )
                },
                Err(_) => true,
            },
    {
        if info.channels == 0 || info.sample_rate == 0 || info.channels > usize::MAX
            / RING_BUFFER_FRAMES {
            proof {
                if info.channels > 0 && info.sample_rate > 0 {
                    assert(RING_BUFFER_FRAMES * info.channels > usize::MAX) by (nonlinear_arith)
                        requires
                            info.channels > usize::MAX / RING_BUFFER_FRAMES,
                            RING_BUFFER_FRAMES == 131072,
                    ;
                }
            }
            return Err(PipelineError::InvalidFormat);
        }
        proof {
            assert(RING_BUFFER_FRAMES * info.channels <= usize::MAX) by (nonlinear_arith)
                requires
                    info.channels <= usize::MAX / RING_BUFFER_FRAMES,
                    RING_BUFFER_FRAMES == 131072,
            ;
        }
        let source_frames: u64 = match info.total_frames {
            Some(n) => n,
            None => 0,
        };
        let target: u32 = match target_sample_rate {
            Some(r) => r,
            None => info.sample_rate,
        };
        let total: u64 = estimate_output_frames(source_frames, info.sample_rate, target);
        Ok(
            AudioPipeline {
                ring_buffer: RingBuffer::new(RING_BUFFER_FRAMES, info.channels),
                is_running: false,
                is_finished: false,
                failed: false,
                buffered_frames: 0,
                total_frames: total,
                current_read_pos: 0,
                channels: info.channels,
                sample_rate: target,
                original_sample_rate: info.sample_rate,
            },
        )
    }

    /// Marks the pipeline as running. Returns whether a worker has to be
    /// started: not when one is running already.
    pub fn start(&mut self) -> (spawn: bool)
        requires
            old(self).wf(),
        ensures
            final(self).wf(),
            spawn == !old(self).spec_running(),
            final(self).spec_running(),
            final(self).spec_finished() == (old(self).spec_running() && old(self).spec_finished()),
            final(self).spec_failed() == (old(self).spec_running() && old(self).spec_failed()),
            final(self).delivered() == old(self).delivered(),
            final(self).spec_buffered() == old(self).spec_buffered(),
            final(self).spec_read_position() == old(self).spec_read_position(),
            final(self).spec_total() == old(self).spec_total(),
            final(self).spec_channels() == old(self).spec_channels(),
    {
        if self.is_running {
            return false;
        }
        self.is_running = true;
        self.is_finished = false;
        self.failed = false;
        true
    }

    /// Asks the worker to stop.
    pub fn stop(&mut self)
        requires
            old(self).wf(),
        ensures
            final(self).wf(),
            !final(self).spec_running(),
            final(self).spec_finished() == old(self).spec_finished(),
            final(self).spec_failed() == old(self).spec_failed(),
            final(self).delivered() == old(self).delivered(),
            final(self).spec_buffered() == old(self).spec_buffered(),
            final(self).spec_read_position() == old(self).spec_read_position(),
            final(self).spec_total() == old(self).spec_total(),
            final(self).spec_channels() == old(self).spec_channels(),
    {
        self.is_running = false;
    }

    /// Delivers processed samples from the worker. They must be whole
    /// frames and fit behind the reader; otherwise nothing is taken and the
    /// worker has to wait or give up.
    pub fn push(&mut self, samples: &[u64]) -> (res: Result<usize, RingError>)
        requires
            old(self).wf(),
        ensures
            final(self).wf(),
            res == write_verdict(
                samples@.len(),
                old(self).spec_channels(),
                old(self).free_room(),
                old(self).spec_buffered() as nat,
            ),
            match res {
                Ok(frames) => {
                    &&& final(self).delivered() == old(self).delivered() + samples@
                    &&& final(self).spec_buffered() == old(self).spec_buffered() + frames
                    &&& old(self).spec_available() <= RING_BUFFER_FRAMES
                        ==> final(self).spec_available() <= RING_BUFFER_FRAMES
                },
                Err(_) => {
                    &&& final(self).delivered() == old(self).delivered()
                    &&& final(self).spec_buffered() == old(self).spec_buffered()
                },
            },
            final(self).spec_read_position() == old(self).spec_read_position(),
            final(self).spec_total() == old(self).spec_total(),
            final(self).spec_channels() == old(self).spec_channels(),
            final(self).spec_running() == old(self).spec_running(),
            final(self).spec_finished() == old(self).spec_finished(),
            final(self).spec_failed() == old(self).spec_failed(),
    {
        let res = self.ring_buffer.write_behind(self.current_read_pos, samples);
        match res {
            Ok(frames) => {
                self.buffered_frames = self.buffered_frames + frames as u64;
            },
            Err(_) => {},
        }
        res
    }

    /// Frames the worker can deliver before it runs over the reader.
    pub open spec fn free_room(&self) -> nat {
        if self.spec_available() <= RING_BUFFER_FRAMES {
            (RING_BUFFER_FRAMES - self.spec_available()) as nat
        } else {
            0
        }
    }

    /// The worker has come to the end of the stream: the length becomes the
    /// number of frames delivered.
    pub fn finish(&mut self)
        requires
            old(self).wf(),
        ensures
            final(self).wf(),
            final(self).spec_total() == old(self).spec_buffered(),
            final(self).spec_finished(),
            !final(self).spec_running(),
            final(self).spec_failed() == old(self).spec_failed(),
            final(self).delivered() == old(self).delivered(),
            final(self).spec_buffered() == old(self).spec_buffered(),
            final(self).spec_read_position() == old(self).spec_read_position(),
            final(self).spec_channels() == old(self).spec_channels(),
    {
        self.total_frames = self.buffered_frames;
        self.is_finished = true;
        self.is_running = false;
    }

    /// The worker gave up on an error: the stream ends with what was
    /// delivered.
    pub fn fail(&mut self)
        requires
            old(self).wf(),
        ensures
            final(self).wf(),
            final(self).spec_total() == old(self).spec_buffered(),
            final(self).spec_finished(),
            final(self).spec_failed(),
            !final(self).spec_running(),
            final(self).delivered() == old(self).delivered(),
            final(self).spec_buffered() == old(self).spec_buffered(),
            final(self).spec_read_position() == old(self).spec_read_position(),
            final(self).spec_channels() == old(self).spec_channels(),
    {
        self.total_frames = self.buffered_frames;
        self.is_finished = true;
        self.failed = true;
        self.is_running = false;
    }

    /// Reads the next frames for playback: as many whole frames as `output`
    /// has room for, but no more than were delivered and not yet read. The
    /// read position moves past them. A read of zero frames once the
    /// pipeline has finished means the stream is over.
    pub fn read(&mut self, output: &mut Vec<u64>) -> (frames: usize)
        requires
            old(self).wf(),
        ensures
            final(self).wf(),
            frames == (if old(output)@.len() / old(self).spec_channels() <= old(self).spec_available() {
                old(output)@.len() / old(self).spec_channels()
            } else {
                old(self).spec_available() as nat
            }),
            final(self).spec_read_position() == old(self).spec_read_position() + frames,
            final(output)@.len() == old(output)@.len(),
            forall|i: int|
                frames * old(self).spec_channels() <= i < old(output)@.len() ==> final(output)@[i]
                    == old(output)@[i],
            old(self).spec_available() <= RING_BUFFER_FRAMES ==> forall|i: int|
                0 <= i < frames * old(self).spec_channels() ==> #[trigger] final(output)@[i]
                    == old(self).delivered()[old(self).spec_read_position() * old(
                    self,
                ).spec_channels() + i],
            final(self).delivered() == old(self).delivered(),
            final(self).spec_buffered() == old(self).spec_buffered(),
            final(self).spec_total() == old(self).spec_total(),
            final(self).spec_channels() == old(self).spec_channels(),
            final(self).spec_running() == old(self).spec_running(),
            final(self).spec_finished() == old(self).spec_finished(),
            final(self).spec_failed() == old(self).spec_failed(),
    {
        let frames = self.ring_buffer.read(self.current_read_pos, output);
        self.current_read_pos = self.current_read_pos + frames as u64;
        frames
    }

    /// Current read position in frames.
    pub fn read_position(&self) -> (pos: u64)
        ensures
            pos == self.spec_read_position(),
    {
        self.current_read_pos
    }

    /// Moves the read position, for seeking.
    pub fn set_read_position(&mut self, frame: u64)
        requires
            old(self).wf(),
        ensures
            final(self).wf(),
            final(self).spec_read_position() == frame,
            final(self).delivered() == old(self).delivered(),
            final(self).spec_buffered() == old(self).spec_buffered(),
            final(self).spec_total() == old(self).spec_total(),
            final(self).spec_channels() == old(self).spec_channels(),
            final(self).spec_running() == old(self).spec_running(),
            final(self).spec_finished() == old(self).spec_finished(),
            final(self).spec_failed() == old(self).spec_failed(),
    {
        self.current_read_pos = frame;
    }

    /// Length of the stream in frames.
    pub fn total_frames(&self) -> (n: u64)
        ensures
            n == self.spec_total(),
    {
        self.total_frames
    }

    /// Frames delivered so far.
    pub fn buffered_frames(&self) -> (n: u64)
        ensures
            n == self.spec_buffered(),
    {
        self.buffered_frames
    }

    /// Whether the worker has come to its end.
    pub fn is_finished(&self) -> (b: bool)
        ensures
            b == self.spec_finished(),
    {
        self.is_finished
    }

    /// Whether the worker is running.
    pub fn is_running(&self) -> (b: bool)
        ensures
            b == self.spec_running(),
    {
        self.is_running
    }

    /// Frames available from the current read position.
    pub fn available_frames(&self) -> (n: u64)
        ensures
            n == self.spec_available(),
    {
        if self.current_read_pos <= self.buffered_frames {
            self.buffered_frames - self.current_read_pos
        } else {
            0
        }
    }

    /// Samples per frame.
    pub fn channels(&self) -> (n: usize)
        ensures
            n == self.spec_channels(),
    {
        self.channels
    }

    /// The rate of the delivered audio.
    pub fn sample_rate(&self) -> (r: u32)
        ensures
            r == self.spec_sample_rate(),
    {
        self.sample_rate
    }

    /// The rate of the source.
    pub fn original_sample_rate(&self) -> (r: u32)
        ensures
            r == self.spec_original_rate(),
    {
        self.original_sample_rate
    }

    /// The status of the pipeline: an error once the worker gave up,
    /// finished once it came to its end, buffering while it runs, and idle
    /// otherwise.
    pub fn status(&self) -> (s: PipelineStatus)
        ensures
            s == (if self.spec_failed() {
                PipelineStatus::Error
            } else if self.spec_finished() {
                PipelineStatus::Finished
            } else if self.spec_running() {
                PipelineStatus::Buffering
            } else {
                PipelineStatus::Idle
            }),
    {
        if self.failed {
            PipelineStatus::Error
        } else if self.is_finished {
            PipelineStatus::Finished
        } else if self.is_running {
            PipelineStatus::Buffering
        } else {
            PipelineStatus::Idle
        }
    }
}

} // verus!

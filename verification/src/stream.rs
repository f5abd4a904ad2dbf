//! Bookkeeping of the streaming resampler: the counters, the retained input
//! history and the end-of-stream flag, for any sample type.
//!
//! Output positions are computed by the caller; this module owns what is
//! integer: which input frames have arrived, which of them are still held,
//! and which frame a filter tap reads.

use vstd::prelude::*;
use crate::error::{BufferIssue, ResampleError};

verus! {

/// The frames `[k, k + 1)` of an interleaved stream with `ch` channels.
pub open spec fn frame_of<S>(stream: Seq<S>, ch: nat, k: int) -> Seq<S> {
    stream.subrange(k * ch, (k + 1) * ch)
}

/// Clamps a (possibly negative) frame index into `0..input_frames`; inputs of
/// at most one frame always read frame 0 (edge extension).
pub open spec fn clamped_frame(frame_index: int, input_frames: nat) -> nat {
    if input_frames <= 1 || frame_index < 0 {
        0
    } else if frame_index >= input_frames {
        (input_frames - 1) as nat
    } else {
        frame_index as nat
    }
}

/// Clamps a tap's frame index into the input (edge extension at both ends).
pub fn clamp_frame_index(frame_index: isize, input_frames: usize) -> (r: usize)
    ensures
        r == clamped_frame(frame_index as int, input_frames as nat),
        input_frames > 0 ==> r < input_frames,
{
    if input_frames <= 1 || frame_index < 0 {
        return 0;
    }
    let index = frame_index as usize;
    if index >= input_frames {
        input_frames - 1
    } else {
        index
    }
}

/// The abstract state of a stream: channel count, filter radius (lookahead
/// in frames), frames received and emitted, first retained frame, the
/// end-of-stream flag, and every sample received since the last reset.
pub struct StreamView<S> {
    pub channels: nat,
    pub radius: nat,
    pub received: nat,
    pub emitted: nat,
    pub start: nat,
    pub finished: bool,
    pub stream: Seq<S>,
}

/// The checks made before processing a chunk of `input_len` interleaved
/// samples into room for `output_len`, in order: not flushed, whole input
/// frames, whole output frames. On success, the input frames and the output
/// capacity in frames.
pub open spec fn process_check<S>(v: StreamView<S>, input_len: nat, output_len: nat) -> Result<
    (nat, nat),
    ResampleError,
> {
    if v.finished {
        Err(ResampleError::BufferError(BufferIssue::ProcessAfterFlush))
    } else if input_len % v.channels != 0 {
        Err(ResampleError::BufferError(BufferIssue::InputNotWholeFrames))
    } else if output_len % v.channels != 0 {
        Err(ResampleError::BufferError(BufferIssue::OutputNotWholeFrames))
    } else {
        Ok((input_len / v.channels, output_len / v.channels))
    }
}

/// The stream after its end was flushed.
pub open spec fn flushed<S>(v: StreamView<S>) -> StreamView<S> {
    StreamView { finished: true, ..v }
}

/// The stream after a reset: same channels and radius, nothing received,
/// emitted or flushed.
pub open spec fn fresh<S>(v: StreamView<S>) -> StreamView<S> {
    StreamView {
        channels: v.channels,
        radius: v.radius,
        received: 0,
        emitted: 0,
        start: 0,
        finished: false,
        stream: seq![],
    }
}

/// Output frames the end-of-stream flush emits when the whole input gives
/// `target_output_frames` offline: none once flushed or before any input,
/// otherwise the frames not emitted yet.
pub open spec fn flush_count<S>(v: StreamView<S>, target_output_frames: nat) -> nat {
    if v.finished || v.received == 0 {
        0
    } else if target_output_frames >= v.emitted {
        (target_output_frames - v.emitted) as nat
    } else {
        0
    }
}

/// Whole frames only, and the first retained frame was received.
pub open spec fn view_wf<S>(v: StreamView<S>) -> bool {
    &&& v.channels > 0
    &&& v.start <= v.received
    &&& v.stream.len() == v.received * v.channels
}

/// Counters and retained input history of a streaming resampler.
pub struct StreamHistory<S> {
    channels: usize,
    radius: usize,
    input_frames_received: usize,
    output_frames_emitted: usize,
    history_start_frame: usize,
    history: Vec<S>,
    finished: bool,
    stream: Ghost<Seq<S>>,
}

impl<S> View for StreamHistory<S> {
    type V = StreamView<S>;

    closed spec fn view(&self) -> StreamView<S> {
        StreamView {
            channels: self.channels as nat,
            radius: self.radius as nat,
            received: self.input_frames_received as nat,
            emitted: self.output_frames_emitted as nat,
            start: self.history_start_frame as nat,
            finished: self.finished,
            stream: self.stream@,
        }
    }
}

impl<S: Copy> StreamHistory<S> {
    /// The retained history is exactly the received stream from the first
    /// retained frame on.
    pub closed spec fn wf(&self) -> bool {
        &&& self.channels > 0
        &&& self.history_start_frame <= self.input_frames_received
        &&& self.stream@.len() == self.input_frames_received * self.channels
        &&& self.history@ == self.stream@.subrange(
            self.history_start_frame * self.channels,
            self.stream@.len() as int,
        )
    }

    /// A fresh stream; fails for zero channels.
    pub fn new(channels: usize, radius: usize) -> (r: Result<Self, ResampleError>)
        ensures
            match r {
                Ok(s) => s.wf() && s@ == (StreamView::<S> {
                    channels: channels as nat,
                    radius: radius as nat,
                    received: 0,
                    emitted: 0,
                    start: 0,
                    finished: false,
                    stream: seq![],
                }),
                Err(e) => channels == 0 && e == ResampleError::InvalidChannelCount(0),
            },
    {
        if channels == 0 {
            return Err(ResampleError::InvalidChannelCount(channels));
        }
        let s = StreamHistory {
            channels,
            radius,
            input_frames_received: 0,
            output_frames_emitted: 0,
            history_start_frame: 0,
            history: Vec::new(),
            finished: false,
            stream: Ghost(Seq::<S>::empty()),
        };
        assert(s.history@ =~= s.stream@.subrange(0, 0));
        Ok(s)
    }

    /// Number of interleaved channels.
    pub fn channels(&self) -> (r: usize)
        ensures
            r == self@.channels,
    {
        self.channels
    }

    /// Algorithmic latency in input frames: the filter radius.
    pub fn latency_frames(&self) -> (r: usize)
        ensures
            r == self@.radius,
    {
        self.radius
    }

    /// Input frames received since the last reset.
    pub fn input_frames_received(&self) -> (r: usize)
        ensures
            r == self@.received,
    {
        self.input_frames_received
    }

    /// Output frames emitted since the last reset.
    pub fn output_frames_emitted(&self) -> (r: usize)
        ensures
            r == self@.emitted,
    {
        self.output_frames_emitted
    }

    /// First input frame still retained.
    pub fn history_start_frame(&self) -> (r: usize)
        ensures
            r == self@.start,
    {
        self.history_start_frame
    }

    /// Whether the stream was flushed.
    pub fn is_finished(&self) -> (r: bool)
        ensures
            r == self@.finished,
    {
        self.finished
    }

    /// Number of whole frames in an interleaved input buffer.
    pub fn validate_interleaved_buffer(&self, buffer: &[S]) -> (r: Result<usize, ResampleError>)
        requires
            self.wf(),
        ensures
            match r {
                Ok(frames) => buffer@.len() % self@.channels == 0 && frames == buffer@.len()
                    / self@.channels,
                Err(e) => buffer@.len() % self@.channels != 0 && e == ResampleError::BufferError(
                    BufferIssue::InputNotWholeFrames,
                ),
            },
    {
        if buffer.len() % self.channels != 0 {
            return Err(ResampleError::BufferError(BufferIssue::InputNotWholeFrames));
        }
        Ok(buffer.len() / self.channels)
    }

    /// Number of whole frames an output buffer can hold.
    pub fn validate_output_buffer(&self, buffer: &[S]) -> (r: Result<usize, ResampleError>)
        requires
            self.wf(),
        ensures
            match r {
                Ok(frames) => buffer@.len() % self@.channels == 0 && frames == buffer@.len()
                    / self@.channels,
                Err(e) => buffer@.len() % self@.channels != 0 && e == ResampleError::BufferError(
                    BufferIssue::OutputNotWholeFrames,
                ),
            },
    {
        if buffer.len() % self.channels != 0 {
            return Err(ResampleError::BufferError(BufferIssue::OutputNotWholeFrames));
        }
        Ok(buffer.len() / self.channels)
    }

    /// The checks `process_into` makes before any work, in order: not
    /// flushed, whole input frames, whole output frames. Returns the input
    /// frame count and the output capacity in frames.
    pub fn check_process_buffers(&self, input: &[S], output: &[S]) -> (r: Result<
        (usize, usize),
        ResampleError,
    >)
        requires
            self.wf(),
        ensures
            match r {
                Ok((frames, capacity)) => process_check(self@, input@.len(), output@.len()) == Ok::<
                    (nat, nat),
                    ResampleError,
                >((frames as nat, capacity as nat)),
                Err(e) => process_check(self@, input@.len(), output@.len()) == Err::<
                    (nat, nat),
                    ResampleError,
                >(e),
            },
    {
        if self.finished {
            return Err(ResampleError::BufferError(BufferIssue::ProcessAfterFlush));
        }
        let frames = self.validate_interleaved_buffer(input)?;
        let capacity = self.validate_output_buffer(output)?;
        Ok((frames, capacity))
    }

    /// Clears all history and counters and the end-of-stream flag.
    pub fn reset(&mut self)
        requires
            old(self).wf(),
        ensures
            final(self).wf(),
            final(self)@ == fresh(old(self)@),
    {
        self.input_frames_received = 0;
        self.output_frames_emitted = 0;
        self.history_start_frame = 0;
        self.history.clear();
        self.finished = false;
        self.stream = Ghost(Seq::<S>::empty());
        assert(self.history@ =~= self.stream@.subrange(0, 0));
    }

    /// Appends a chunk of whole interleaved frames to the stream.
    pub fn push_input(&mut self, input: &[S])
        requires
            old(self).wf(),
            input@.len() % old(self)@.channels == 0,
            old(self)@.received + input@.len() / old(self)@.channels <= usize::MAX,
            (old(self)@.received - old(self)@.start) * old(self)@.channels + input@.len()
                <= usize::MAX,
        ensures
            final(self).wf(),
            final(self)@ == (StreamView::<S> {
                received: old(self)@.received + input@.len() / old(self)@.channels,
                stream: old(self)@.stream + input@,
                ..old(self)@
            }),
    {
        let ghost ch = self.channels as nat;
        let ghost frames = input@.len() / ch;
        proof {
            let r = self.input_frames_received as int;
            let st = self.history_start_frame as int;
            assert(st * ch <= r * ch) by (nonlinear_arith)
                requires
                    0 <= st <= r,
                    ch > 0,
            ;
            assert(self.stream@.len() == r * ch);
            assert(self.history@.len() == r * ch - st * ch);
            assert((r - st) * ch == r * ch - st * ch) by (nonlinear_arith);
        }
        let mut i: usize = 0;
        let ghost before = self.history@;
        while i < input.len()
            invariant
                i <= input@.len(),
                self.history@ == before + input@.take(i as int),
                before.len() + input@.len() <= usize::MAX,
                self.channels == old(self).channels,
                self.channels > 0,
                self.radius == old(self).radius,
                self.input_frames_received == old(self).input_frames_received,
                self.output_frames_emitted == old(self).output_frames_emitted,
                self.history_start_frame == old(self).history_start_frame,
                self.finished == old(self).finished,
                self.stream == old(self).stream,
            decreases input@.len() - i,
        {
            self.history.push(input[i]);
            i = i + 1;
            assert(self.history@ =~= before + input@.take(i as int));
        }
        assert(input@.take(input@.len() as int) =~= input@);
        self.input_frames_received = self.input_frames_received + input.len() / self.channels;
        let ghost old_stream = self.stream@;
        self.stream = Ghost(old_stream + input@);
        proof {
            assert(input@.len() == frames * ch) by (nonlinear_arith)
                requires
                    input@.len() % ch == 0,
                    frames == input@.len() / ch,
                    ch > 0,
            ;
            assert(self.stream@.len() == self.input_frames_received * self.channels) by (
            nonlinear_arith)
                requires
                    self.stream@.len() == old_stream.len() + input@.len(),
                    old_stream.len() == (self.input_frames_received - frames) * ch,
                    input@.len() == frames * ch,
                    ch == self.channels,
            ;
            let s = self.history_start_frame * ch;
            assert(s <= old_stream.len()) by (nonlinear_arith)
                requires
                    s == self.history_start_frame * ch,
                    old_stream.len() == (self.input_frames_received - frames) * ch,
                    self.history_start_frame <= self.input_frames_received - frames,
                    ch > 0,
            ;
            assert(self.history@ =~= self.stream@.subrange(s, self.stream@.len() as int));
        }
    }

    /// What the invariant says of the view.
    pub proof fn lemma_view_wf(&self)
        requires
            self.wf(),
        ensures
            view_wf(self@),
    {
    }

    /// Counts one more emitted output frame.
    pub fn record_emitted(&mut self)
        requires
            old(self).wf(),
            old(self)@.emitted < usize::MAX,
        ensures
            final(self).wf(),
            final(self)@ == (StreamView::<S> { emitted: old(self)@.emitted + 1, ..old(self)@ }),
    {
        self.output_frames_emitted = self.output_frames_emitted + 1;
    }

    /// Marks the stream flushed.
    pub fn finish(&mut self)
        requires
            old(self).wf(),
        ensures
            final(self).wf(),
            final(self)@ == flushed(old(self)@),
    {
        self.finished = true;
    }
}

/// What a history lookup of `frame_index` gives: the frame of the received
/// stream at the clamped index (negative indices read frame 0; past the
/// newest frame reads the newest when `allow_future_edge`, an error
/// otherwise), or an error when there is no history or the frame was
/// dropped already.
pub open spec fn history_lookup<S>(v: StreamView<S>, frame_index: int, allow_future_edge: bool) -> Result<
    Seq<S>,
    ResampleError,
> {
    if v.received <= v.start {
        Err(ResampleError::BufferError(BufferIssue::NoHistory))
    } else if frame_index > v.received - 1 && !allow_future_edge {
        Err(ResampleError::BufferError(BufferIssue::ReadBeyondInput))
    } else {
        let clamped = if frame_index < 0 {
            0
        } else if frame_index > v.received - 1 {
            v.received - 1
        } else {
            frame_index
        };
        if clamped < v.start {
            Err(ResampleError::BufferError(BufferIssue::HistoryTrimmed))
        } else {
            Ok(frame_of(v.stream, v.channels, clamped))
        }
    }
}

/// The first frame `trim_history` keeps for the next output position
/// `next_frame`: the filter radius before it, saturating at 0.
pub open spec fn keep_from(next_frame: nat, radius: nat) -> nat {
    if next_frame >= radius {
        (next_frame - radius) as nat
    } else {
        0
    }
}

/// The stream after dropping the history frames before
/// `keep_from(next_frame, radius)`, unless there is no history.
pub open spec fn trimmed<S>(v: StreamView<S>, next_frame: nat) -> StreamView<S> {
    StreamView {
        start: if v.received > v.start && keep_from(next_frame, v.radius) > v.start {
            keep_from(next_frame, v.radius)
        } else {
            v.start
        },
        ..v
    }
}

impl<S: Copy> StreamHistory<S> {
    /// The input frame a filter tap reads, from the retained history.
    pub fn history_frame(&self, frame_index: isize, allow_future_edge: bool) -> (r: Result<
        &[S],
        ResampleError,
    >)
        requires
            self.wf(),
        ensures
            match r {
                Ok(frame) => history_lookup(self@, frame_index as int, allow_future_edge) == Ok::<
                    Seq<S>,
                    ResampleError,
                >(frame@),
                Err(e) => history_lookup(self@, frame_index as int, allow_future_edge) == Err::<
                    Seq<S>,
                    ResampleError,
                >(e),
            },
    {
        let ghost ch = self.channels as int;
        let ghost rs = self.input_frames_received as int;
        let ghost st = self.history_start_frame as int;
        proof {
            assert(st * ch <= rs * ch) by (nonlinear_arith)
                requires
                    st <= rs,
                    ch > 0,
            ;
            assert(self.history@.len() == self.stream@.len() - st * ch);
            assert(self.history@.len() == (rs - st) * ch) by (nonlinear_arith)
                requires
                    self.history@.len() == self.stream@.len() - st * ch,
                    self.stream@.len() == rs * ch,
            ;
        }
        if self.history.len() == 0 {
            proof {
                assert(rs - st <= 0) by (nonlinear_arith)
                    requires
                        (rs - st) * ch == 0,
                        ch > 0,
                        rs >= st,
                ;
            }
            return Err(ResampleError::BufferError(BufferIssue::NoHistory));
        }
        proof {
            assert(rs - st > 0) by (nonlinear_arith)
                requires
                    (rs - st) * ch > 0,
                    ch > 0,
            ;
        }
        let latest = self.input_frames_received - 1;
        let clamped: usize = if frame_index < 0 {
            0
        } else {
            let f = frame_index as usize;
            if f > latest {
                if allow_future_edge {
                    latest
                } else {
                    return Err(ResampleError::BufferError(BufferIssue::ReadBeyondInput));
                }
            } else {
                f
            }
        };
        if clamped < self.history_start_frame {
            return Err(ResampleError::BufferError(BufferIssue::HistoryTrimmed));
        }
        let local = clamped - self.history_start_frame;
        proof {
            assert((local + 1) * ch <= (rs - st) * ch) by (nonlinear_arith)
                requires
                    local + 1 <= rs - st,
                    ch > 0,
            ;
            assert((local + 1) * ch == local * ch + ch) by (nonlinear_arith);
        }
        let first = local * self.channels;
        let end = first + self.channels;
        if end > self.history.len() {
            return Err(ResampleError::BufferError(BufferIssue::HistoryLookupFailed));
        }
        let frame = &self.history.as_slice()[first..end];
        proof {
            let k = clamped as int;
            assert(st * ch + local * ch == k * ch) by (nonlinear_arith)
                requires
                    k == st + local,
            ;
            assert(k * ch + ch == (k + 1) * ch) by (nonlinear_arith);
            assert(frame@ =~= frame_of(self.stream@, self.channels as nat, k));
        }
        Ok(frame)
    }

    /// Drops the history frames the filter no longer reaches, given the
    /// floor of the next output position (clamped at 0): frames before
    /// `keep_from(next_frame, radius)` go, unless there is no history.
    pub fn trim_history(&mut self, next_frame: usize)
        requires
            old(self).wf(),
            old(self)@.received > old(self)@.start ==> keep_from(
                next_frame as nat,
                old(self)@.radius,
            ) <= old(self)@.received,
        ensures
            final(self).wf(),
            final(self)@ == trimmed(old(self)@, next_frame as nat),
    {
        let ghost ch = self.channels as int;
        let ghost rs = self.input_frames_received as int;
        let ghost st = self.history_start_frame as int;
        proof {
            assert(st * ch <= rs * ch) by (nonlinear_arith)
                requires
                    st <= rs,
                    ch > 0,
            ;
            assert(self.history@.len() == self.stream@.len() - st * ch);
            assert(self.history@.len() == (rs - st) * ch) by (nonlinear_arith)
                requires
                    self.history@.len() == self.stream@.len() - st * ch,
                    self.stream@.len() == rs * ch,
            ;
        }
        if self.history.len() == 0 {
            proof {
                assert(rs - st <= 0) by (nonlinear_arith)
                    requires
                        (rs - st) * ch == 0,
                        ch > 0,
                        rs >= st,
                ;
            }
            return;
        }
        proof {
            assert(rs - st > 0) by (nonlinear_arith)
                requires
                    (rs - st) * ch > 0,
                    ch > 0,
            ;
        }
        let keep = if next_frame >= self.radius {
            next_frame - self.radius
        } else {
            0
        };
        if keep <= self.history_start_frame {
            return;
        }
        let drop_frames = keep - self.history_start_frame;
        proof {
            assert(drop_frames * ch <= (rs - st) * ch) by (nonlinear_arith)
                requires
                    drop_frames <= rs - st,
                    ch > 0,
            ;
        }
        let drop_samples = drop_frames * self.channels;
        let tail = self.history.split_off(drop_samples);
        self.history = tail;
        self.history_start_frame = keep;
        proof {
            assert(st * ch + drop_frames * ch == keep * ch) by (nonlinear_arith)
                requires
                    keep == st + drop_frames,
            ;
            assert(self.history@ =~= self.stream@.subrange(keep * ch, self.stream@.len() as int));
        }
    }

    /// Output frames `flush_into` emits, given the offline output length
    /// `target_output_frames` for everything received: none once flushed or
    /// before any input, otherwise the frames not emitted yet.
    pub fn flush_frames(&self, target_output_frames: usize) -> (r: usize)
        ensures
            r == flush_count(self@, target_output_frames as nat),
    {
        if self.finished || self.input_frames_received == 0 {
            return 0;
        }
        if target_output_frames >= self.output_frames_emitted {
            target_output_frames - self.output_frames_emitted
        } else {
            0
        }
    }
}

/// After the end of a stream is flushed, processing is refused and a second
/// flush emits nothing, until a reset; after the reset a chunk is accepted
/// again exactly when input and output hold whole frames, and a flush still
/// emits nothing until input arrives.
pub proof fn lemma_flush_until_reset<S>(
    v: StreamView<S>,
    input_len: nat,
    output_len: nat,
    target_output_frames: nat,
)
    requires
        v.channels > 0,
    ensures
        process_check(flushed(v), input_len, output_len) == Err::<(nat, nat), ResampleError>(
            ResampleError::BufferError(BufferIssue::ProcessAfterFlush),
        ),
        flush_count(flushed(v), target_output_frames) == 0,
        process_check(fresh(flushed(v)), input_len, output_len) is Ok <==> (input_len % v.channels
            == 0 && output_len % v.channels == 0),
        flush_count(fresh(flushed(v)), target_output_frames) == 0,
{
}

/// Trimming the history for the next output position keeps every frame the
/// filter can still read from there: a lookup of any frame from
/// `keep_from(next_frame, radius)` on gives what it gave before the trim.
pub proof fn lemma_trim_keeps_reachable<S>(
    v: StreamView<S>,
    next_frame: nat,
    frame_index: int,
    allow_future_edge: bool,
)
    requires
        view_wf(v),
        keep_from(next_frame, v.radius) < v.received,
        frame_index >= keep_from(next_frame, v.radius),
    ensures
        history_lookup(trimmed(v, next_frame), frame_index, allow_future_edge) == history_lookup(
            v,
            frame_index,
            allow_future_edge,
        ),
{
}

/// The streaming history reads the frame the offline path reads: a lookup
/// that is allowed past the newest frame (as at the end of the stream), or
/// that stays within the received frames, gives the received frame at the
/// offline clamp of the index, whenever that frame is still retained.
pub proof fn lemma_history_reads_offline_frame<S>(
    v: StreamView<S>,
    frame_index: int,
    allow_future_edge: bool,
)
    requires
        view_wf(v),
        v.received > v.start,
        allow_future_edge || frame_index < v.received,
        clamped_frame(frame_index, v.received) >= v.start,
    ensures
        history_lookup(v, frame_index, allow_future_edge) == Ok::<Seq<S>, ResampleError>(
            frame_of(v.stream, v.channels, clamped_frame(frame_index, v.received) as int),
        ),
{
}

/// The tail brings the stream to the offline length: when fewer frames than
/// the offline output of everything received have been emitted, emitting
/// the `flush_frames` tail makes the totals equal.
pub proof fn lemma_flush_completes_output<S>(v: StreamView<S>, target_output_frames: nat)
    requires
        !v.finished,
        v.received > 0,
        v.emitted <= target_output_frames,
    ensures
        v.emitted + flush_count(v, target_output_frames) == target_output_frames,
{
}

} // verus!

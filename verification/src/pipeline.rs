//! What the stages of the pipeline decide between their reads, waits and
//! sends: when the byte ring is flushed, what a signal or a failed send
//! means, how audio is cut into windows across batches, and where a
//! segment lies in stream time.

use crate::ring::{ring_capacity, ring_items, Sample, SampleRing};
use crate::vad::{
    split_audio_data_with_window_size, whole_windows, SAMPLE_RATE, WINDOW_SIZE_SAMPLES,
};
use vstd::prelude::*;

verus! {

/// Bytes the ring between the fetcher and the demuxer holds: 1 MiB.
pub const BYTE_RING_CAPACITY: usize = 1048576;

/// The byte ring is flushed once it holds more than this: 128 KiB.
pub const FLUSH_THRESHOLD: usize = 131072;

/// Segments that may wait for transcription.
pub const SEGMENT_RING_CAPACITY: usize = 20;

/// Seconds of decoded audio that may wait for the detector.
pub const PCM_RING_SECONDS: usize = 30;

/// What one stage tells the next.
#[derive(Clone, Copy, Debug, PartialEq, Eq, Structural)]
pub enum ThreadState {
    /// The stream is over: stop.
    End,
    /// There may be work: look into the ring.
    Sync,
}

/// How an attempt to post a signal without waiting ended.
#[derive(Clone, Copy, Debug, PartialEq, Eq, Structural)]
pub enum Delivery {
    Sent,
    /// A signal is already waiting; this one is dropped.
    Full,
    /// Nobody listens any more.
    Disconnected,
}

/// What a worker woke up to.
#[derive(Clone, Copy, Debug, PartialEq, Eq, Structural)]
pub enum Wake {
    Signal(ThreadState),
    /// Nobody will ever send again.
    Disconnected,
}

/// Whether the byte ring is to be drained and demuxed now: it is full, or
/// it holds more than [`FLUSH_THRESHOLD`] bytes.
pub fn flush_due(len: usize, capacity: usize) -> (due: bool)
    ensures
        due == (len >= capacity || len > FLUSH_THRESHOLD),
{
    len >= capacity || len > FLUSH_THRESHOLD
}

/// Whether a stage goes on after trying to post `Sync`. A signal that
/// found the channel full is not missed, since one is waiting already; a
/// channel without a listener ends the stage.
pub fn goes_on_after(delivery: Delivery) -> (goes_on: bool)
    ensures
        goes_on == (delivery != Delivery::Disconnected),
{
    match delivery {
        Delivery::Sent => true,
        Delivery::Full => true,
        Delivery::Disconnected => false,
    }
}

/// Whether a worker that woke up looks for work. It does on `Sync` only:
/// `End` and a channel without a sender both end it.
pub fn works_on(wake: Wake) -> (works: bool)
    ensures
        works == (wake == Wake::Signal(ThreadState::Sync)),
{
    match wake {
        Wake::Signal(ThreadState::Sync) => true,
        Wake::Signal(ThreadState::End) => false,
        Wake::Disconnected => false,
    }
}

/// Milliseconds, rounded to the nearest, that `samples` samples last.
pub open spec fn millis_of_samples(samples: nat) -> nat {
    (samples * 1000 + SAMPLE_RATE as nat / 2) / SAMPLE_RATE as nat
}

/// The time, counted in samples, that the segments handed to transcription
/// so far have covered.
pub struct StreamTimeCursor {
    samples: u64,
}

impl View for StreamTimeCursor {
    type V = nat;

    closed spec fn view(&self) -> nat {
        self.samples as nat
    }
}

impl StreamTimeCursor {
    /// The cursor at the start of the stream.
    pub fn new() -> (cursor: StreamTimeCursor)
        ensures
            cursor@ == 0,
    {
        StreamTimeCursor { samples: 0 }
    }

    /// Where the next segment begins in the stream, in milliseconds.
    pub fn offset_ms(&self) -> (ms: i64)
        ensures
            ms == millis_of_samples(self@),
    {
        let whole: u64 = self.samples / 16;
        let part: u64 = self.samples % 16;
        let ms: u64 = if part >= 8 {
            whole + 1
        } else {
            whole
        };
        assert(ms == millis_of_samples(self.samples as nat)) by {
            let s = self.samples as int;
            assert(s * 1000 + 8000 == (s + 8) * 1000);
            assert(s == 16 * whole + part);
            assert((s * 1000 + 8000) / 16000 == ms) by (nonlinear_arith)
                requires
                    s == 16 * whole + part,
                    0 <= part < 16,
                    ms == (if part >= 8 {
                        whole + 1
                    } else {
                        whole as int
                    }),
            ;
        }
        ms as i64
    }

    /// Whether a segment of this many samples can still be counted.
    pub fn has_room_for(&self, duration: u32) -> (room: bool)
        ensures
            room == (self@ + duration <= u64::MAX),
    {
        self.samples <= u64::MAX - duration as u64
    }

    /// Moves the cursor behind a segment of `duration` samples. The cursor
    /// never moves back.
    pub fn advance(&mut self, duration: u32)
        requires
            old(self)@ + duration <= u64::MAX,
        ensures
            final(self)@ == old(self)@ + duration,
            millis_of_samples(final(self)@) >= millis_of_samples(old(self)@),
    {
        proof {
            lemma_offsets_non_decreasing(self@, self@ + duration as nat);
        }
        self.samples = self.samples + duration as u64;
    }
}

/// The time at which a piece of text is shown: the start of its segment in
/// the stream plus its start within the segment.
pub fn stream_timestamp(offset_ms: i64, start: i64) -> (ms: i64)
    requires
        i64::MIN <= offset_ms + start <= i64::MAX,
    ensures
        ms == offset_ms + start,
{
    offset_ms + start
}

/// A later cursor gives a later, or the same, offset.
pub proof fn lemma_offsets_non_decreasing(earlier: nat, later: nat)
    requires
        earlier <= later,
    ensures
        millis_of_samples(earlier) <= millis_of_samples(later),
{
    assert((earlier * 1000 + 8000) / 16000 <= (later * 1000 + 8000) / 16000) by (nonlinear_arith)
        requires
            earlier <= later,
    ;
}

/// The audio that did not fill a window, kept for the next batch.
pub struct WindowCarry {
    rest: SampleRing,
}

impl View for WindowCarry {
    type V = Seq<Sample>;

    closed spec fn view(&self) -> Seq<Sample> {
        ring_items(&self.rest)
    }
}

impl WindowCarry {
    /// The carry can hold a window, and holds less.
    pub closed spec fn wf(&self) -> bool {
        &&& ring_capacity(&self.rest) == WINDOW_SIZE_SAMPLES
        &&& ring_items(&self.rest).len() < WINDOW_SIZE_SAMPLES
    }

    /// An empty carry.
    pub fn new() -> (carry: WindowCarry)
        ensures
            carry.wf(),
            carry@ == Seq::<Sample>::empty(),
    {
        WindowCarry { rest: SampleRing::with_capacity(WINDOW_SIZE_SAMPLES) }
    }

    /// Samples carried.
    pub fn len(&self) -> (n: usize)
        requires
            self.wf(),
        ensures
            n == self@.len(),
            n < WINDOW_SIZE_SAMPLES,
    {
        self.rest.len()
    }

    /// Puts what is carried in front of `data`, hands back the whole
    /// windows of the result, if there is one, and carries what is left
    /// behind the last of them.
    pub fn take_windows(&mut self, data: Vec<Sample>) -> (windows: Option<Vec<Sample>>)
        requires
            old(self).wf(),
        ensures
            final(self).wf(),
            whole_windows(windows) + final(self)@ == old(self)@ + data@,
            whole_windows(windows).len() % WINDOW_SIZE_SAMPLES as nat == 0,
            windows.is_some() <==> old(self)@.len() + data@.len() >= WINDOW_SIZE_SAMPLES,
    {
        let mut data = data;
        let mut joined = self.rest.drain();
        joined.append(&mut data);
        let (left, right) = split_audio_data_with_window_size(joined);
        if let Some(tail) = right {
            let mut i: usize = 0;
            while i < tail.len()
                invariant
                    i <= tail@.len(),
                    tail@.len() < WINDOW_SIZE_SAMPLES,
                    ring_capacity(&self.rest) == WINDOW_SIZE_SAMPLES,
                    ring_items(&self.rest) == tail@.take(i as int),
                decreases tail@.len() - i,
            {
                self.rest.push_overwrite(tail[i]);
                assert(tail@.take(i as int).push(tail@[i as int]) =~= tail@.take(i + 1));
                i += 1;
            }
            assert(tail@.take(i as int) =~= tail@);
        }
        left
    }
}

} // verus!

//! Voice activity detection: the state machine that turns a stream of
//! 30 ms windows, each with the speech probability a model gave it, into
//! speech segments.
//!
//! The machine has hysteresis (speech starts at one probability and ends
//! below a lower one), a silence gate (a pause must last before it ends the
//! speech), a speech gate (too short a speech is dropped) and a retention
//! ring that bounds a segment at fifteen seconds.
//!
//! Time is counted in windows: each call counts as one window of 30 ms,
//! however many samples it brings. A detector that has been fed whole
//! windows only is called regular; on it the counted time and the retained
//! audio agree.

use crate::ring::{ring_capacity, ring_items, Sample, SampleRing};
use vstd::prelude::*;

verus! {

/// Samples per second of the audio that is analysed.
pub const SAMPLE_RATE: u32 = 16000;

/// Samples in one window of 30 ms.
pub const WINDOW_SIZE_SAMPLES: usize = 480;

/// Samples the retention ring holds: fifteen seconds, 500 windows.
pub const RETENTION_SAMPLES: usize = 240000;

/// A pause ends the speech once it has lasted this long (800 ms).
pub const MIN_SILENCE_SAMPLES: u32 = 12800;

/// A speech must be longer than this to be kept (300 ms).
pub const MIN_SPEECH_SAMPLES: u32 = 4800;

/// The highest count of windows whose offset in samples still fits the 32
/// bits it is kept in.
pub const MAX_WINDOW_COUNT: u32 = 8947848;

/// Bit pattern of the single-precision number 0.5, from which on a
/// probability means speech.
pub const THRESHOLD_BITS: u32 = 0x3F00_0000;

/// Bit pattern of the single-precision number 0.1, below which a
/// probability means silence.
pub const NEG_THRESHOLD_BITS: u32 = 0x3DCC_CCCD;

/// Bit pattern of positive infinity; above it, with the sign bit cleared,
/// a pattern is not a number.
pub const INFINITY_BITS: u32 = 0x7F80_0000;

/// Bit pattern of negative zero, the first pattern with the sign bit set.
pub const SIGN_BIT: u32 = 0x8000_0000;

/// Bit pattern of negative infinity.
pub const NEG_INFINITY_BITS: u32 = 0xFF80_0000;

/// Whether the single-precision number with this bit pattern is at least
/// 0.5. Numbers without the sign bit are ordered as their patterns are; a
/// pattern that is not a number is at least nothing.
pub open spec fn is_speech(prob: u32) -> bool {
    THRESHOLD_BITS <= prob <= INFINITY_BITS
}

/// Whether the single-precision number with this bit pattern is less than
/// 0.1: a small positive number, a zero, or any negative number.
pub open spec fn is_silence(prob: u32) -> bool {
    prob < NEG_THRESHOLD_BITS || SIGN_BIT <= prob <= NEG_INFINITY_BITS
}

/// What the detector knows between two windows.
pub struct VadView {
    /// A speech has begun and has not ended.
    pub triggered: bool,
    /// Offset, in samples since the last reset, at which the speech began.
    pub speech_start: nat,
    /// Offset at which the pending pause began; zero when none is pending.
    pub speech_end: nat,
    /// Windows taken since the last reset.
    pub window_count: nat,
    /// The samples of those windows, oldest first.
    pub retained: Seq<Sample>,
}

/// A stretch of audio judged to hold speech.
pub struct SegmentView {
    pub data: Seq<Sample>,
    /// Length of the stretch in samples.
    pub duration: nat,
}

/// Offset of the window that comes next, in samples since the last reset.
pub open spec fn window_offset(m: VadView) -> nat {
    m.window_count * WINDOW_SIZE_SAMPLES as nat
}

/// What holds of the detector between any two windows.
pub open spec fn valid(m: VadView) -> bool {
    &&& m.retained.len() < RETENTION_SAMPLES
    &&& m.speech_start <= window_offset(m)
    &&& m.speech_end <= window_offset(m)
    &&& (m.triggered && m.speech_end != 0 ==> m.speech_start <= m.speech_end)
}

/// The retained audio is as long as the time counted: every window since
/// the last reset brought [`WINDOW_SIZE_SAMPLES`] samples.
pub open spec fn regular(m: VadView) -> bool {
    m.retained.len() == window_offset(m)
}

/// The state before the first window.
pub open spec fn initial() -> VadView {
    VadView {
        triggered: false,
        speech_start: 0,
        speech_end: 0,
        window_count: 0,
        retained: Seq::empty(),
    }
}

/// The window fills the retention ring, which forces a segment out.
pub open spec fn fills(m: VadView, window: Seq<Sample>) -> bool {
    m.retained.len() + window.len() >= RETENTION_SAMPLES
}

/// What the ring takes of the window: all of it, or as much of its front
/// as fills the ring.
pub open spec fn admitted(m: VadView, window: Seq<Sample>) -> Seq<Sample> {
    if fills(m, window) {
        window.take(RETENTION_SAMPLES - m.retained.len())
    } else {
        window
    }
}

/// Where the pending pause began, once a silent window has been seen: where
/// it was, or at this window if none was pending.
pub open spec fn pause_start(m: VadView) -> nat {
    if m.speech_end == 0 {
        window_offset(m)
    } else {
        m.speech_end
    }
}

/// The window is silent, a speech is under way, and the pause has lasted
/// long enough to end it.
pub open spec fn silence_gate(m: VadView, window: Seq<Sample>, prob: u32) -> bool {
    &&& !fills(m, window)
    &&& is_silence(prob)
    &&& m.triggered
    &&& window_offset(m) - pause_start(m) >= MIN_SILENCE_SAMPLES
}

/// The speech that the pause ends is long enough to be kept.
pub open spec fn long_enough(m: VadView) -> bool {
    pause_start(m) - m.speech_start > MIN_SPEECH_SAMPLES
}

/// The speech ends at this window and is dropped for being too short.
pub open spec fn drops_short_speech(m: VadView, window: Seq<Sample>, prob: u32) -> bool {
    silence_gate(m, window, prob) && !long_enough(m)
}

/// The segment that the window brings out, if any: everything retained,
/// with what the ring took of the window. A forced segment counts as
/// fifteen seconds; one closed by a pause counts up to the offset of the
/// closing window.
pub open spec fn vad_emits(m: VadView, window: Seq<Sample>, prob: u32) -> Option<SegmentView> {
    if fills(m, window) {
        Some(
            SegmentView {
                data: m.retained + admitted(m, window),
                duration: RETENTION_SAMPLES as nat,
            },
        )
    } else if silence_gate(m, window, prob) && long_enough(m) {
        Some(SegmentView { data: m.retained + window, duration: window_offset(m) })
    } else {
        None
    }
}

/// The state after the window.
pub open spec fn vad_next(m: VadView, window: Seq<Sample>, prob: u32) -> VadView {
    if fills(m, window) {
        VadView { triggered: m.triggered, ..initial() }
    } else if is_speech(prob) {
        VadView {
            triggered: true,
            speech_start: if m.triggered {
                m.speech_start
            } else {
                window_offset(m)
            },
            speech_end: 0,
            window_count: m.window_count + 1,
            retained: m.retained + window,
        }
    } else if is_silence(prob) && m.triggered {
        if silence_gate(m, window, prob) {
            if long_enough(m) {
                initial()
            } else {
                VadView {
                    triggered: false,
                    speech_start: m.speech_start,
                    speech_end: pause_start(m),
                    window_count: m.window_count + 1,
                    retained: m.retained + window,
                }
            }
        } else {
            VadView {
                triggered: true,
                speech_start: m.speech_start,
                speech_end: pause_start(m),
                window_count: m.window_count + 1,
                retained: m.retained + window,
            }
        }
    } else {
        VadView { window_count: m.window_count + 1, retained: m.retained + window, ..m }
    }
}

/// `after` is `before` with the segment `emitted`, if there is one, put
/// behind it.
pub open spec fn appended(
    before: Seq<VadSegment>,
    after: Seq<VadSegment>,
    emitted: Option<SegmentView>,
) -> bool {
    match emitted {
        Some(segment) => {
            &&& after.len() == before.len() + 1
            &&& after.take(before.len() as int) == before
            &&& after.last()@ == segment
        },
        None => after == before,
    }
}

/// A stretch of audio judged to hold speech, as handed to transcription.
pub struct VadSegment {
    pub data: Vec<Sample>,
    /// Length of the stretch in samples at [`SAMPLE_RATE`].
    pub duration: u32,
}

impl View for VadSegment {
    type V = SegmentView;

    open spec fn view(&self) -> SegmentView {
        SegmentView { data: self.data@, duration: self.duration as nat }
    }
}

impl Default for VadSegment {
    fn default() -> (segment: VadSegment)
        ensures
            segment@ == (SegmentView { data: Seq::empty(), duration: 0 }),
    {
        VadSegment { data: Vec::new(), duration: 0 }
    }
}

impl VadSegment {
    /// The length of the stretch in whole milliseconds.
    pub fn duration_ms(&self) -> (ms: u32)
        ensures
            ms == self.duration / 16,
    {
        self.duration / 16
    }
}

/// The detector: its flags and counters, and the ring that retains the
/// audio since the last segment.
pub struct VadState {
    triggered: bool,
    speech_start_ts: u32,
    speech_end_ts: u32,
    window_count: u32,
    retention: SampleRing,
}

impl View for VadState {
    type V = VadView;

    closed spec fn view(&self) -> VadView {
        VadView {
            triggered: self.triggered,
            speech_start: self.speech_start_ts as nat,
            speech_end: self.speech_end_ts as nat,
            window_count: self.window_count as nat,
            retained: ring_items(&self.retention),
        }
    }
}

impl VadState {
    /// The ring has its fifteen seconds, and the state is [`valid`].
    pub closed spec fn wf(&self) -> bool {
        &&& ring_capacity(&self.retention) == RETENTION_SAMPLES
        &&& valid(self@)
    }

    /// A well-formed detector is in a [`valid`] state.
    pub proof fn lemma_wf_valid(&self)
        requires
            self.wf(),
        ensures
            valid(self@),
    {
    }

    /// A detector that has seen nothing.
    pub fn new() -> (state: VadState)
        ensures
            state.wf(),
            state@ == initial(),
    {
        VadState {
            triggered: false,
            speech_start_ts: 0,
            speech_end_ts: 0,
            window_count: 0,
            retention: SampleRing::with_capacity(RETENTION_SAMPLES),
        }
    }

    fn init(&mut self)
        ensures
            final(self).triggered == old(self).triggered,
            final(self).retention == old(self).retention,
            final(self).window_count == 0,
            final(self).speech_end_ts == 0,
            final(self).speech_start_ts == 0,
    {
        self.window_count = 0;
        self.speech_end_ts = 0;
        self.speech_start_ts = 0;
    }

    /// Whether a window of `len` samples will fill the ring and force a
    /// segment out. No probability is read for such a window, so none need
    /// be computed.
    pub fn next_window_fills(&self, len: usize) -> (full: bool)
        requires
            self.wf(),
        ensures
            full == (self@.retained.len() + len >= RETENTION_SAMPLES),
            forall|window: Seq<Sample>| window.len() == len ==> full == #[trigger] fills(
                self@,
                window,
            ),
    {
        len >= RETENTION_SAMPLES - self.retention.len()
    }

    /// Whether a speech is under way.
    pub fn is_triggered(&self) -> (on: bool)
        ensures
            on == self@.triggered,
    {
        self.triggered
    }

    /// Windows taken since the last reset.
    pub fn windows(&self) -> (n: u32)
        ensures
            n == self@.window_count,
    {
        self.window_count
    }
}

/// Takes one window with the probability, as the bit pattern of a
/// single-precision number, that it holds speech, and puts the segment that
/// it brings out, if any, behind `buf`. A window is
/// [`WINDOW_SIZE_SAMPLES`] samples; one of another length counts as one
/// window all the same.
///
/// The window is retained, as far as the ring has room. If that fills the
/// ring, everything retained leaves as a segment of fifteen seconds, the
/// counters start again and the probability is not read. Otherwise a
/// probability of at least 0.5 starts a speech or cancels a pending pause;
/// one below 0.1 during a speech starts or continues a pause, and a pause
/// of [`MIN_SILENCE_SAMPLES`] ends the speech: if it was longer than
/// [`MIN_SPEECH_SAMPLES`], everything retained leaves as a segment and the
/// counters start again.
///
/// No segment is longer than the ring. On a regular detector, fed a whole
/// window, every segment is longer than [`MIN_SPEECH_SAMPLES`], and the
/// detector stays regular.
pub fn vad(
    state: &mut VadState,
    audio_data: Vec<Sample>,
    speech_prob: u32,
    buf: &mut Vec<VadSegment>,
)
    requires
        old(state).wf(),
        old(state)@.window_count <= MAX_WINDOW_COUNT,
    ensures
        final(state).wf(),
        final(state)@ == vad_next(old(state)@, audio_data@, speech_prob),
        appended(old(buf)@, final(buf)@, vad_emits(old(state)@, audio_data@, speech_prob)),
        forall|i: int|
            old(buf)@.len() <= i < final(buf)@.len() ==> (#[trigger] final(buf)@[i]).data@.len()
                <= RETENTION_SAMPLES,
        regular(old(state)@) && audio_data@.len() == WINDOW_SIZE_SAMPLES ==> {
            &&& regular(final(state)@)
            &&& forall|i: int|
                old(buf)@.len() <= i < final(buf)@.len() ==> MIN_SPEECH_SAMPLES < (
                #[trigger] final(buf)@[i]).data@.len()
        },
{
    let ghost before = state@;
    let ghost held = buf@;
    proof {
        lemma_segment_length(before, audio_data@, speech_prob);
        if regular(before) && audio_data@.len() == WINDOW_SIZE_SAMPLES {
            lemma_regular_segment_length(before, audio_data@, speech_prob);
            lemma_step_keeps_regular(before, audio_data@, speech_prob);
        }
    }
    let room = RETENTION_SAMPLES - state.retention.len();
    let mut window = audio_data;
    if window.len() > room {
        window.truncate(room);
    }
    assert(window@ == admitted(before, audio_data@));
    state.retention.push_slice(window.as_slice());

    if state.retention.is_full() {
        state.init();
        let data = state.retention.drain();
        buf.push(VadSegment { data, duration: 240000 });
        assert(buf@.take(held.len() as int) =~= held);
        return ;
    }
    let speech_sample_offset: u32 = state.window_count * 480;
    state.window_count += 1;

    let speech = THRESHOLD_BITS <= speech_prob && speech_prob <= INFINITY_BITS;
    let silence = speech_prob < NEG_THRESHOLD_BITS || (SIGN_BIT <= speech_prob && speech_prob
        <= NEG_INFINITY_BITS);

    if speech && state.speech_end_ts != 0 {
        state.speech_end_ts = 0;
    }
    if speech && !state.triggered {
        state.triggered = true;
        state.speech_start_ts = speech_sample_offset;
    } else if silence && state.triggered {
        if state.speech_end_ts == 0 {
            state.speech_end_ts = speech_sample_offset;
        }
        if speech_sample_offset - state.speech_end_ts >= MIN_SILENCE_SAMPLES {
            if state.speech_end_ts - state.speech_start_ts > MIN_SPEECH_SAMPLES {
                state.init();
                let data = state.retention.drain();
                buf.push(VadSegment { data, duration: speech_sample_offset });
                assert(buf@.take(held.len() as int) =~= held);
            }
            state.triggered = false;
        }
    }
}

/// Cuts the audio into a front made of whole windows and a rest shorter
/// than a window. A part that would be empty is absent, except that audio
/// shorter than a window, even empty audio, is all rest.
pub fn split_audio_data_with_window_size<T>(audio_data: Vec<T>) -> (parts: (
    Option<Vec<T>>,
    Option<Vec<T>>,
))
    ensures
        whole_windows(parts.0) + rest(parts.1) == audio_data@,
        whole_windows(parts.0).len() % WINDOW_SIZE_SAMPLES as nat == 0,
        rest(parts.1).len() < WINDOW_SIZE_SAMPLES,
        parts.0.is_some() <==> audio_data@.len() >= WINDOW_SIZE_SAMPLES,
        parts.1.is_some() <==> audio_data@.len() % WINDOW_SIZE_SAMPLES as nat != 0
            || audio_data@.len() == 0,
{
    let len = audio_data.len();
    if len < WINDOW_SIZE_SAMPLES {
        (None, Some(audio_data))
    } else if len % WINDOW_SIZE_SAMPLES == 0 {
        (Some(audio_data), None)
    } else {
        let chunk_num = len / WINDOW_SIZE_SAMPLES;
        let last_offset = chunk_num * WINDOW_SIZE_SAMPLES;
        let mut left = audio_data;
        let right = left.split_off(last_offset);
        assert(left@ + right@ =~= audio_data@);
        (Some(left), Some(right))
    }
}

/// The samples of the front part, none if it is absent.
pub open spec fn whole_windows<T>(front: Option<Vec<T>>) -> Seq<T> {
    match front {
        Some(v) => v@,
        None => Seq::empty(),
    }
}

/// The samples of the rest, none if it is absent.
pub open spec fn rest<T>(tail: Option<Vec<T>>) -> Seq<T> {
    match tail {
        Some(v) => v@,
        None => Seq::empty(),
    }
}

/// Every window takes a valid state to a valid state.
pub proof fn lemma_step_keeps_valid(m: VadView, window: Seq<Sample>, prob: u32)
    requires
        valid(m),
    ensures
        valid(vad_next(m, window, prob)),
{
}

/// A whole window takes a regular state to a regular state, and a regular
/// state has counted fewer than 500 windows.
pub proof fn lemma_step_keeps_regular(m: VadView, window: Seq<Sample>, prob: u32)
    requires
        valid(m),
        regular(m),
        window.len() == WINDOW_SIZE_SAMPLES,
    ensures
        regular(initial()),
        m.window_count < 500,
        regular(vad_next(m, window, prob)),
{
}

/// No segment holds more than fifteen seconds of samples, whatever the
/// length of the window that brings it out; a forced one holds exactly
/// that. Every segment counts for more than [`MIN_SPEECH_SAMPLES`].
pub proof fn lemma_segment_length(m: VadView, window: Seq<Sample>, prob: u32)
    requires
        valid(m),
    ensures
        vad_emits(m, window, prob) matches Some(segment) ==> {
            &&& segment.data.len() <= 15 * SAMPLE_RATE
            &&& MIN_SPEECH_SAMPLES < segment.duration
            &&& (fills(m, window) ==> segment.data.len() == RETENTION_SAMPLES)
        },
{
}

/// On a regular detector every segment that a whole window brings out
/// holds more than [`MIN_SPEECH_SAMPLES`] samples and at most fifteen
/// seconds of them. It counts as long as it is, if it was forced out, and
/// as one window less, if a pause closed it.
pub proof fn lemma_regular_segment_length(m: VadView, window: Seq<Sample>, prob: u32)
    requires
        valid(m),
        regular(m),
        window.len() == WINDOW_SIZE_SAMPLES,
    ensures
        vad_emits(m, window, prob) matches Some(segment) ==> {
            &&& MIN_SPEECH_SAMPLES < segment.data.len() <= 15 * SAMPLE_RATE
            &&& MIN_SPEECH_SAMPLES < segment.duration <= segment.data.len()
            &&& (segment.duration == segment.data.len() || segment.duration
                + WINDOW_SIZE_SAMPLES == segment.data.len())
        },
{
}

/// A speech under way ends in one way only: a silent window that does not
/// fill the ring, with a pause pending that has lasted
/// [`MIN_SILENCE_SAMPLES`].
pub proof fn lemma_speech_ends_by_silence_gate(m: VadView, window: Seq<Sample>, prob: u32)
    requires
        valid(m),
        m.triggered,
        !vad_next(m, window, prob).triggered,
    ensures
        silence_gate(m, window, prob),
        is_silence(prob),
        m.speech_end != 0,
        window_offset(m) - m.speech_end >= MIN_SILENCE_SAMPLES,
{
}

/// While no speech is under way no pause is pending. This holds before the
/// first window, and if it holds before a window it holds after it, unless
/// the window drops a short speech: the pause that ended the speech then
/// stays on record until the next speech begins.
pub proof fn lemma_idle_has_no_pending_pause(m: VadView, window: Seq<Sample>, prob: u32)
    requires
        valid(m),
        !m.triggered ==> m.speech_end == 0,
        !drops_short_speech(m, window, prob),
    ensures
        !initial().triggered && initial().speech_end == 0,
        !vad_next(m, window, prob).triggered ==> vad_next(m, window, prob).speech_end == 0,
{
}

} // verus!

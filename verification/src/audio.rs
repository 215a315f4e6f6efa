//! From a batch of transport-stream bytes to decoded audio: the errors a
//! batch can end in, and what is decided between the calls into the
//! decoder.

use vstd::prelude::*;

verus! {

/// Samples per second of the audio track that the fetcher delivers.
pub const YOUTUBE_TS_SAMPLE_RATE: u16 = 22050;

/// Why a batch gave no audio.
#[derive(Clone, Copy, Debug, PartialEq, Eq, Structural)]
pub enum Error {
    /// The payload is in no format that can be read.
    Format,
    /// No decoder could be made for the track.
    Decoder,
    /// The payload holds no track that can be decoded.
    Track,
    /// The batch holds no audio payload.
    Empty,
}

/// The words for each error.
pub open spec fn error_text(e: Error) -> Seq<char> {
    match e {
        Error::Format => "unsupported format"@,
        Error::Decoder => "no supported audio tracks"@,
        Error::Track => "unsupported codec"@,
        Error::Empty => "empty audio data"@,
    }
}

impl Error {
    /// The error in words.
    pub fn message(&self) -> (text: String)
        ensures
            text@ == error_text(*self),
    {
        match self {
            Error::Format => "unsupported format".to_owned(),
            Error::Decoder => "no supported audio tracks".to_owned(),
            Error::Track => "unsupported codec".to_owned(),
            Error::Empty => "empty audio data".to_owned(),
        }
    }
}

/// Takes the audio payload that was extracted from a batch of the
/// transport stream and hands it on for decoding, unless there is none: a
/// batch without audio payload ends in [`Error::Empty`].
pub fn get_audio_data(ts_audio: Vec<u8>) -> (payload: Result<Vec<u8>, Error>)
    ensures
        ts_audio@.len() == 0 ==> payload == Err::<Vec<u8>, Error>(Error::Empty),
        ts_audio@.len() > 0 ==> payload == Ok::<Vec<u8>, Error>(ts_audio),
{
    if ts_audio.len() == 0 {
        Err(Error::Empty)
    } else {
        Ok(ts_audio)
    }
}

/// How the attempt to read the next packet ended.
#[derive(Clone, Copy, Debug, PartialEq, Eq, Structural)]
pub enum PacketEvent {
    /// A packet of the track `track_id` that lasts `dur` time units.
    Packet { track_id: u32, dur: u64 },
    /// The reader asks for a reset; reading can go on.
    ResetRequired,
    /// Any other failure, the end of the payload among them.
    Failed,
}

/// How the attempt to decode a packet ended.
#[derive(Clone, Copy, Debug, PartialEq, Eq, Structural)]
pub enum DecodeEvent {
    /// Audio at `rate` samples per second in `planes` planes.
    Decoded { rate: u32, planes: u32 },
    /// The packet is damaged; the next one may not be.
    DecodeError,
    /// Any other failure.
    Failed,
}

/// What to do next.
#[derive(Clone, Copy, Debug, PartialEq, Eq, Structural)]
pub enum DecodeStep {
    /// Read the next packet.
    Read,
    /// Decode the packet that was read.
    Decode,
    /// The batch is done.
    Stop,
}

/// The shape of decoded audio.
#[derive(Clone, Copy, Debug, PartialEq, Eq, Structural)]
pub struct FrameFormat {
    /// Samples per second.
    pub rate: u32,
    /// Planes of samples, one for each channel.
    pub planes: u32,
}

/// What has been decoded of a batch so far.
pub struct TallyView {
    /// The track that is decoded.
    pub track_id: u32,
    /// Time units of the packets decoded.
    pub dur: nat,
    /// The shape of the first frame decoded; `None` before it.
    pub format: Option<FrameFormat>,
}

/// The step that follows an attempt to read a packet: a packet of the
/// chosen track is decoded, one of another track is passed over, a request
/// for a reset is passed over too, and any other failure ends the batch.
pub open spec fn step_after_read(m: TallyView, event: PacketEvent) -> DecodeStep {
    match event {
        PacketEvent::Packet { track_id, dur } => if track_id == m.track_id {
            DecodeStep::Decode
        } else {
            DecodeStep::Read
        },
        PacketEvent::ResetRequired => DecodeStep::Read,
        PacketEvent::Failed => DecodeStep::Stop,
    }
}

/// The tally after an attempt to decode a packet that lasts `dur`. Decoded
/// audio is counted; the first frame decoded gives the rate and the number
/// of planes, which no later frame changes.
pub open spec fn tally_after_decode(m: TallyView, dur: u64, event: DecodeEvent) -> TallyView {
    match event {
        DecodeEvent::Decoded { rate, planes } => TallyView {
            track_id: m.track_id,
            dur: m.dur + dur as nat,
            format: match m.format {
                Some(first) => Some(first),
                None => Some(FrameFormat { rate, planes }),
            },
        },
        _ => m,
    }
}

/// The step that follows an attempt to decode: decoded audio and a damaged
/// packet both lead to the next packet, any other failure ends the batch.
pub open spec fn step_after_decode(event: DecodeEvent) -> DecodeStep {
    match event {
        DecodeEvent::Failed => DecodeStep::Stop,
        _ => DecodeStep::Read,
    }
}

/// The running totals of one batch, from which its duration follows: the
/// time units decoded, over the sample rate times the number of planes of
/// the first frame.
pub struct DecodeTally {
    track_id: u32,
    dur: u128,
    format: Option<FrameFormat>,
}

impl View for DecodeTally {
    type V = TallyView;

    closed spec fn view(&self) -> TallyView {
        TallyView { track_id: self.track_id, dur: self.dur as nat, format: self.format }
    }
}

impl DecodeTally {
    /// The tally before the first packet of the track `track_id`.
    pub fn new(track_id: u32) -> (tally: DecodeTally)
        ensures
            tally@ == (TallyView { track_id, dur: 0, format: None }),
    {
        DecodeTally { track_id, dur: 0, format: None }
    }

    /// What follows an attempt to read the next packet.
    pub fn on_read(&self, event: PacketEvent) -> (step: DecodeStep)
        ensures
            step == step_after_read(self@, event),
    {
        match event {
            PacketEvent::Packet { track_id, dur } => {
                if track_id == self.track_id {
                    DecodeStep::Decode
                } else {
                    DecodeStep::Read
                }
            },
            PacketEvent::ResetRequired => DecodeStep::Read,
            PacketEvent::Failed => DecodeStep::Stop,
        }
    }

    /// Whether a packet that lasts `dur` can still be counted.
    pub fn has_room_for(&self, dur: u64) -> (room: bool)
        ensures
            room == (self@.dur + dur <= u128::MAX),
    {
        self.dur <= u128::MAX - dur as u128
    }

    /// Takes in how the decoding of a packet that lasts `dur` ended, and
    /// says what follows. Decoded audio is counted; the first frame gives
    /// the sample rate and the number of planes.
    pub fn on_decode(&mut self, dur: u64, event: DecodeEvent) -> (step: DecodeStep)
        requires
            old(self)@.dur + dur <= u128::MAX,
        ensures
            final(self)@ == tally_after_decode(old(self)@, dur, event),
            step == step_after_decode(event),
    {
        match event {
            DecodeEvent::Decoded { rate, planes } => {
                self.dur = self.dur + dur as u128;
                if self.format.is_none() {
                    self.format = Some(FrameFormat { rate, planes });
                }
                DecodeStep::Read
            },
            DecodeEvent::DecodeError => DecodeStep::Read,
            DecodeEvent::Failed => DecodeStep::Stop,
        }
    }

    /// Time units decoded.
    pub fn dur(&self) -> (dur: u128)
        ensures
            dur == self@.dur,
    {
        self.dur
    }

    /// The shape of the first frame decoded, if one was.
    pub fn format(&self) -> (format: Option<FrameFormat>)
        ensures
            format == self@.format,
    {
        self.format
    }
}

/// Once a frame has been decoded, the rate and the planes stay what they
/// are, whatever is decoded after it.
pub proof fn lemma_format_is_kept(m: TallyView, dur: u64, event: DecodeEvent)
    requires
        m.format is Some,
    ensures
        tally_after_decode(m, dur, event).format == m.format,
{
}

} // verus!

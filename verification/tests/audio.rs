use speech_stream::audio::{
    get_audio_data, DecodeEvent, DecodeStep, DecodeTally, Error, FrameFormat, PacketEvent,
    YOUTUBE_TS_SAMPLE_RATE,
};

#[test]
fn error_messages() {
    assert_eq!(Error::Format.message(), "unsupported format");
    assert_eq!(Error::Decoder.message(), "no supported audio tracks");
    assert_eq!(Error::Track.message(), "unsupported codec");
    assert_eq!(Error::Empty.message(), "empty audio data");
}

#[test]
fn source_rate() {
    assert_eq!(YOUTUBE_TS_SAMPLE_RATE, 22050);
}

#[test]
fn batch_without_payload_is_empty() {
    assert_eq!(get_audio_data(Vec::new()), Err(Error::Empty));
}

#[test]
fn payload_is_handed_on() {
    assert_eq!(get_audio_data(vec![0xFF, 0xF1, 0x50]), Ok(vec![0xFF, 0xF1, 0x50]));
}

#[test]
fn demuxed_batches() {
    // No packet at all, and bytes that are no packet: nothing comes out.
    let none = yt_tsu::audio::extract_ts_audio(&[][..]);
    assert_eq!(get_audio_data(none), Err(Error::Empty));
    let noise = [0u8; 400];
    let out = yt_tsu::audio::extract_ts_audio(&noise[..]);
    assert!(out.len() <= noise.len());
    assert_eq!(get_audio_data(out), Err(Error::Empty));
}

#[test]
fn read_events() {
    let tally = DecodeTally::new(3);
    assert_eq!(
        tally.on_read(PacketEvent::Packet { track_id: 3, dur: 1024 }),
        DecodeStep::Decode
    );
    assert_eq!(
        tally.on_read(PacketEvent::Packet { track_id: 4, dur: 1024 }),
        DecodeStep::Read
    );
    assert_eq!(tally.on_read(PacketEvent::ResetRequired), DecodeStep::Read);
    assert_eq!(tally.on_read(PacketEvent::Failed), DecodeStep::Stop);
}

#[test]
fn decode_events() {
    let mut tally = DecodeTally::new(0);
    assert_eq!((tally.dur(), tally.format()), (0, None));
    let first = Some(FrameFormat { rate: 22050, planes: 2 });

    let step = tally.on_decode(1024, DecodeEvent::Decoded { rate: 22050, planes: 2 });
    assert_eq!(step, DecodeStep::Read);
    assert_eq!((tally.dur(), tally.format()), (1024, first));

    // A damaged packet is passed over and not counted.
    let step = tally.on_decode(1024, DecodeEvent::DecodeError);
    assert_eq!(step, DecodeStep::Read);
    assert_eq!((tally.dur(), tally.format()), (1024, first));

    // The rate and the planes of the first frame stay.
    let step = tally.on_decode(1000, DecodeEvent::Decoded { rate: 44100, planes: 1 });
    assert_eq!(step, DecodeStep::Read);
    assert_eq!((tally.dur(), tally.format()), (2024, first));

    let step = tally.on_decode(1024, DecodeEvent::Failed);
    assert_eq!(step, DecodeStep::Stop);
    assert_eq!((tally.dur(), tally.format()), (2024, first));
}

#[test]
fn format_is_that_of_the_first_frame() {
    // One plane first, two planes after: one plane it is.
    let mut tally = DecodeTally::new(0);
    tally.on_decode(1, DecodeEvent::Decoded { rate: 16000, planes: 1 });
    tally.on_decode(1, DecodeEvent::Decoded { rate: 8000, planes: 2 });
    assert_eq!(tally.dur(), 2);
    assert_eq!(tally.format(), Some(FrameFormat { rate: 16000, planes: 1 }));

    // A rate of zero in the first frame is a rate like any other.
    let mut tally = DecodeTally::new(0);
    tally.on_decode(1, DecodeEvent::Decoded { rate: 0, planes: 3 });
    tally.on_decode(1, DecodeEvent::Decoded { rate: 8000, planes: 2 });
    assert_eq!(tally.format(), Some(FrameFormat { rate: 0, planes: 3 }));

    // A damaged first packet gives no format.
    let mut tally = DecodeTally::new(0);
    tally.on_decode(1, DecodeEvent::DecodeError);
    assert_eq!(tally.format(), None);
    tally.on_decode(1, DecodeEvent::Decoded { rate: 8000, planes: 2 });
    assert_eq!(tally.format(), Some(FrameFormat { rate: 8000, planes: 2 }));
}

#[test]
fn tally_room() {
    let mut tally = DecodeTally::new(0);
    assert!(tally.has_room_for(u64::MAX));
    tally.on_decode(u64::MAX, DecodeEvent::Decoded { rate: 1, planes: 1 });
    tally.on_decode(u64::MAX, DecodeEvent::Decoded { rate: 1, planes: 1 });
    assert_eq!(tally.dur(), 2 * (u64::MAX as u128));
    assert!(tally.has_room_for(1));
}

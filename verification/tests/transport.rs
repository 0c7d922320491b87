use padplay::protocol::{AudioCodec, FrameHeader, StreamType};
use padplay::transport::{stream_header, AudioParams, FrameWrite, Sender, TransportError};

#[test]
fn stream_header_without_audio_is_none_codec() {
    let header = stream_header(1920, 1200, 60, None).unwrap();
    assert_eq!(header.audio_codec, AudioCodec::NoAudio);
}

#[test]
fn stream_header_with_audio_fills_opus_fields() {
    let header = stream_header(
        1920,
        1200,
        60,
        Some(AudioParams {
            sample_rate_hz: 48_000,
            channels: 2,
            pre_skip: 312,
        }),
    )
    .unwrap();
    assert_eq!(header.audio_codec, AudioCodec::Opus);
    assert_eq!(header.audio_sample_rate_hz, 48_000);
    assert_eq!(header.audio_channels, 2);
    assert_eq!(header.audio_pre_skip, 312);
}

#[test]
fn stream_header_rejects_sample_rate_that_does_not_fit_u16() {
    let result = stream_header(
        1920,
        1200,
        60,
        Some(AudioParams {
            sample_rate_hz: 100_000, // > u16::MAX, must error, not truncate
            channels: 2,
            pre_skip: 0,
        }),
    );
    assert!(result.is_err());
}

#[test]
fn sample_rates_up_to_the_largest_field_are_taken() {
    let params = |hz| {
        Some(AudioParams {
            sample_rate_hz: hz,
            channels: 1,
            pre_skip: 0,
        })
    };
    let header = stream_header(1, 1, 1, params(65_535)).unwrap();
    assert_eq!(header.audio_sample_rate_hz, 65_535);
    assert_eq!(
        stream_header(1, 1, 1, params(65_536)).err().unwrap(),
        TransportError::SampleRateTooLarge(65_536)
    );
    assert_eq!(
        TransportError::SampleRateTooLarge(100_000).to_string(),
        format!(
            "audio sample rate 100000 does not fit in u16: {}",
            u16::try_from(100_000u32).unwrap_err()
        )
    );
}

#[test]
fn oversized_dimensions_keep_their_low_bits() {
    let header = stream_header(65_536 + 7, 70_000, 65_535, None).unwrap();
    assert_eq!(header.width, 7);
    assert_eq!(header.height, 4_464);
    assert_eq!(header.framerate, 65_535);
}

fn drive(mut write: FrameWrite<'_>, chunk: usize, out: &mut Vec<u8>) -> usize {
    let mut calls = 0;
    while !write.is_done() {
        let (a, b) = write.slices();
        let both: Vec<u8> = a.iter().chain(b.iter()).copied().collect();
        let n = chunk.min(both.len());
        out.extend_from_slice(&both[..n]);
        write.advance(n).unwrap();
        calls += 1;
    }
    calls
}

#[test]
fn frames_arrive_whole_however_the_socket_cuts_them() {
    let payload: Vec<u8> = (0..50).collect();
    let sender = Sender::connect(&stream_header(8, 8, 1, None).unwrap()).0;
    for chunk in [1, 7, 16, 17, 1000] {
        let mut wire = Vec::new();
        drive(sender.send_video_frame(&payload, 42, true), chunk, &mut wire);
        assert_eq!(wire.len(), 66);
        let header = FrameHeader::decode(&wire).unwrap();
        assert_eq!(header.length, 50);
        assert_eq!(header.pts_ns, 42);
        assert!(header.keyframe);
        assert_eq!(header.stream_type, StreamType::Video);
        assert_eq!(&wire[16..], &payload[..]);
    }
}

#[test]
fn audio_frames_are_never_keyframes() {
    let sender = Sender::connect(&stream_header(8, 8, 1, None).unwrap()).0;
    let mut wire = Vec::new();
    drive(sender.send_audio_frame(&[5, 6], 9), 100, &mut wire);
    let header = FrameHeader::decode(&wire).unwrap();
    assert!(!header.keyframe);
    assert_eq!(header.stream_type, StreamType::Audio);
    assert_eq!(&wire[16..], &[5, 6]);
}

#[test]
fn an_empty_payload_is_a_header_alone() {
    let sender = Sender::connect(&stream_header(8, 8, 1, None).unwrap()).0;
    let mut wire = Vec::new();
    assert_eq!(drive(sender.send_audio_frame(&[], 0), 16, &mut wire), 1);
    assert_eq!(wire.len(), 16);
}

#[test]
fn a_socket_that_accepts_nothing_is_an_error() {
    let sender = Sender::connect(&stream_header(8, 8, 1, None).unwrap()).0;
    let mut write = sender.send_video_frame(&[1], 0, false);
    assert_eq!(write.advance(0).err().unwrap(), TransportError::WriteZero);
    assert_eq!(
        TransportError::WriteZero.to_string(),
        "transport socket accepted no bytes"
    );
}

#[test]
fn senders_count_frames_and_bytes() {
    let (mut sender, opening) = Sender::connect(&stream_header(1920, 1200, 60, None).unwrap());
    assert_eq!(opening.len(), 24);
    assert_eq!((sender.frames_sent(), sender.bytes_sent()), (0, 24));
    let payload = [0u8; 10];
    let mut write = sender.send_video_frame(&payload, 0, false);
    write.advance(26).unwrap();
    sender.record_sent(&write);
    assert_eq!((sender.frames_sent(), sender.bytes_sent()), (1, 50));
}

#[test]
fn totals_are_those_of_the_stream() {
    let (mut sender, opening) = Sender::connect(&stream_header(8, 8, 1, None).unwrap());
    let mut wire = opening.to_vec();
    for length in [0usize, 1, 300] {
        let payload = vec![7u8; length];
        for audio in [false, true] {
            let mut write = if audio {
                sender.send_audio_frame(&payload, 1)
            } else {
                sender.send_video_frame(&payload, 1, true)
            };
            let (a, b) = write.slices();
            let both: Vec<u8> = a.iter().chain(b.iter()).copied().collect();
            wire.extend_from_slice(&both);
            write.advance(both.len()).unwrap();
            sender.record_sent(&write);
        }
    }
    assert_eq!(sender.frames_sent(), 6);
    assert_eq!(sender.bytes_sent(), 24 + 2 * (16 + 17 + 316));
    assert_eq!(sender.bytes_sent(), wire.len() as u64);
}

use padplay::protocol::{
    decode_ack, encode_ack, AudioCodec, Codec, FrameHeader, ProtocolError, StreamHeader,
    StreamType, MAGIC, STREAM_HEADER_LEN,
};

fn video_only_header() -> StreamHeader {
    StreamHeader {
        width: 1920,
        height: 1200,
        framerate: 60,
        codec: Codec::H264,
        audio_codec: AudioCodec::NoAudio,
        audio_sample_rate_hz: 0,
        audio_channels: 0,
        audio_pre_skip: 0,
    }
}

#[test]
fn stream_header_round_trips_without_audio() {
    let header = video_only_header();
    let decoded = StreamHeader::decode(&header.encode()).unwrap();
    assert_eq!(decoded.width, 1920);
    assert_eq!(decoded.height, 1200);
    assert_eq!(decoded.framerate, 60);
    assert_eq!(decoded.codec, Codec::H264);
    assert_eq!(decoded.audio_codec, AudioCodec::NoAudio);
}

#[test]
fn stream_header_round_trips_with_audio() {
    let header = StreamHeader {
        width: 1920,
        height: 1200,
        framerate: 60,
        codec: Codec::H264,
        audio_codec: AudioCodec::Opus,
        audio_sample_rate_hz: 48_000,
        audio_channels: 2,
        audio_pre_skip: 312,
    };
    let decoded = StreamHeader::decode(&header.encode()).unwrap();
    assert_eq!(decoded.width, 1920);
    assert_eq!(decoded.height, 1200);
    assert_eq!(decoded.framerate, 60);
    assert_eq!(decoded.codec, Codec::H264);
    assert_eq!(decoded.audio_codec, AudioCodec::Opus);
    assert_eq!(decoded.audio_sample_rate_hz, 48_000);
    assert_eq!(decoded.audio_channels, 2);
    assert_eq!(decoded.audio_pre_skip, 312);
}

#[test]
fn stream_header_is_24_bytes() {
    assert_eq!(STREAM_HEADER_LEN, 24);
    assert_eq!(video_only_header().encode().len(), 24);
}

#[test]
fn frame_header_round_trips_video() {
    let header = FrameHeader {
        length: 32357,
        pts_ns: 1_666_666_600,
        keyframe: true,
        stream_type: StreamType::Video,
    };
    let decoded = FrameHeader::decode(&header.encode()).unwrap();
    assert_eq!(decoded.length, 32357);
    assert_eq!(decoded.pts_ns, 1_666_666_600);
    assert!(decoded.keyframe);
    assert_eq!(decoded.stream_type, StreamType::Video);
}

#[test]
fn frame_header_round_trips_audio() {
    let header = FrameHeader {
        length: 320,
        pts_ns: 20_000_000,
        keyframe: false,
        stream_type: StreamType::Audio,
    };
    let decoded = FrameHeader::decode(&header.encode()).unwrap();
    assert_eq!(decoded.length, 320);
    assert_eq!(decoded.pts_ns, 20_000_000);
    assert!(!decoded.keyframe);
    assert_eq!(decoded.stream_type, StreamType::Audio);
}

#[test]
fn rejects_bad_magic() {
    let mut buf = video_only_header().encode();
    buf[0] = b'X';
    assert!(StreamHeader::decode(&buf).is_err());
}

#[test]
fn rejects_wrong_version() {
    let mut buf = video_only_header().encode();
    // Claim v1 (the old 16-byte format) in an otherwise-valid v2 buffer.
    buf[4..6].copy_from_slice(&1u16.to_be_bytes());
    let err = StreamHeader::decode(&buf).unwrap_err();
    assert!(err.to_string().contains("version"));
}

#[test]
fn rejects_v1_shaped_bare_header() {
    // A bare 16-byte v1 header is too short to even reach the version
    // check meaningfully for v2 parsing -- decode must fail cleanly
    // rather than panic or misparse.
    let mut buf = [0u8; 16];
    buf[0..4].copy_from_slice(&MAGIC);
    buf[4..6].copy_from_slice(&1u16.to_be_bytes());
    assert!(StreamHeader::decode(&buf).is_err());
}

#[test]
fn stream_header_bytes_are_laid_out_in_network_order() {
    let header = StreamHeader {
        width: 0x0780,
        height: 0x04b0,
        framerate: 90,
        codec: Codec::H265,
        audio_codec: AudioCodec::Opus,
        audio_sample_rate_hz: 0xbb80,
        audio_channels: 2,
        audio_pre_skip: 0x0138,
    };
    assert_eq!(
        header.encode(),
        [
            b'M', b'R', b'L', b'D', 0, 2, 0x07, 0x80, 0x04, 0xb0, 0, 90, 1, 1, 0xbb, 0x80, 2, 0x01,
            0x38, 0, 0, 0, 0, 0,
        ]
    );
}

#[test]
fn frame_header_bytes_are_laid_out_in_network_order() {
    let header = FrameHeader {
        length: 0x0102_0304,
        pts_ns: 0x1112_1314_1516_1718,
        keyframe: true,
        stream_type: StreamType::Audio,
    };
    assert_eq!(
        header.encode(),
        [1, 2, 3, 4, 0x11, 0x12, 0x13, 0x14, 0x15, 0x16, 0x17, 0x18, 1, 1, 0, 0]
    );
}

#[test]
fn decoding_ignores_what_follows_a_header() {
    let mut buf = video_only_header().encode().to_vec();
    buf.extend_from_slice(&[9, 9, 9]);
    assert_eq!(StreamHeader::decode(&buf).unwrap().width, 1920);
}

#[test]
fn each_decoding_error_has_its_input() {
    let buf = video_only_header().encode();
    let fail = |b: &[u8]| StreamHeader::decode(b).err().unwrap();
    assert_eq!(fail(&buf[..23]), ProtocolError::StreamHeaderTooShort(23));
    let mut bad = buf;
    bad[3] = b'E';
    assert_eq!(fail(&bad), ProtocolError::BadMagic(b'M', b'R', b'L', b'E'));
    let mut bad = buf;
    bad[5] = 3;
    assert_eq!(fail(&bad), ProtocolError::UnsupportedVersion(3));
    let mut bad = buf;
    bad[12] = 7;
    assert_eq!(fail(&bad), ProtocolError::UnknownCodec(7));
    let mut bad = buf;
    bad[13] = 9;
    assert_eq!(fail(&bad), ProtocolError::UnknownAudioCodec(9));
    let frame = FrameHeader {
        length: 1,
        pts_ns: 2,
        keyframe: false,
        stream_type: StreamType::Video,
    }
    .encode();
    assert_eq!(
        FrameHeader::decode(&frame[..15]).err().unwrap(),
        ProtocolError::FrameHeaderTooShort(15)
    );
    let mut bad = frame;
    bad[13] = 2;
    assert_eq!(
        FrameHeader::decode(&bad).err().unwrap(),
        ProtocolError::UnknownStreamType(2)
    );
    assert_eq!(decode_ack(&[0; 7]).err().unwrap(), ProtocolError::AckTooShort(7));
}

#[test]
fn unknown_flags_do_not_make_a_keyframe() {
    let mut buf = FrameHeader {
        length: 0,
        pts_ns: 0,
        keyframe: false,
        stream_type: StreamType::Video,
    }
    .encode();
    buf[12] = 0xfe;
    assert!(!FrameHeader::decode(&buf).unwrap().keyframe);
    buf[12] = 0xff;
    assert!(FrameHeader::decode(&buf).unwrap().keyframe);
}

#[test]
fn acks_round_trip() {
    assert_eq!(encode_ack(258), [0, 0, 0, 0, 0, 0, 1, 2]);
    assert_eq!(decode_ack(&encode_ack(u64::MAX)).unwrap(), u64::MAX);
    assert_eq!(decode_ack(&[0, 0, 0, 0, 0, 0, 1, 2, 99]).unwrap(), 258);
}

#[test]
fn codecs_have_their_names() {
    assert_eq!(Codec::from_u8(0).unwrap(), Codec::H264);
    assert_eq!(Codec::from_u8(1).unwrap().mime(), "video/hevc");
    assert_eq!(Codec::H264.mime(), "video/avc");
    assert_eq!(AudioCodec::from_u8(1).unwrap(), AudioCodec::Opus);
    assert_eq!(StreamType::from_u8(1).unwrap(), StreamType::Audio);
}

#[test]
fn protocol_errors_tell_what_they_met() {
    assert_eq!(ProtocolError::UnknownCodec(7).to_string(), "unknown codec id 7");
    assert_eq!(
        ProtocolError::AckTooShort(3).to_string(),
        "ack too short: 3 bytes"
    );
}

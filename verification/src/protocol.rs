//! Wire format between the host daemon and the Android app.
//!
//! One stream header at connect, then a frame header + payload per access
//! unit, on a single multiplexed socket carrying both video and audio:
//!
//! ```text
//! StreamHeader (24 bytes)
//!   0..4   magic                 "MRLD"
//!   4..6   version               u16   = 2
//!   6..8   width                 u16
//!   8..10  height                u16
//!  10..12  framerate             u16
//!     12   video codec           u8    0 = H.264, 1 = H.265
//!     13   audio codec           u8    0 = none, 1 = Opus
//!  14..16  audio sample rate     u16   Hz; meaningless if audio codec = 0
//!     16   audio channels        u8    1 or 2; meaningless if audio codec = 0
//!  17..19  audio pre-skip        u16   Opus codec-specific data
//!  19..24  reserved                    5 bytes
//!
//! FrameHeader (16 bytes), repeated
//!   0..4   payload length        u32
//!   4..12  pts, nanoseconds      u64
//!     12   flags                 u8    bit 0 = keyframe (video only; always 0 for audio)
//!     13   stream type           u8    0 = video, 1 = audio
//!  14..16  reserved                    2 bytes
//! ```
//!
//! Payload: an Annex-B access unit for video; one raw Opus packet for audio.
//!
//! Every multi-byte field is **big-endian**, which the device side reads
//! natively.
//!
//! The version check is exact-match, made immediately after the magic and
//! before any other field is decoded: an old app talking to a new daemon (or
//! vice versa) fails cleanly instead of misparsing a header whose length
//! changed underneath it.

use crate::numeral::{decimal, hex, push_decimal, push_hex};
use crate::text::copy_text;
use vstd::prelude::*;

verus! {

pub const MAGIC: [u8; 4] = [0x4d, 0x52, 0x4c, 0x44];

pub const VERSION: u16 = 2;

pub const STREAM_HEADER_LEN: usize = 24;

pub const FRAME_HEADER_LEN: usize = 16;

/// Default host-side port for `adb forward`.
pub const DEFAULT_PORT: u16 = 27183;

/// Abstract Unix socket the device app listens on.
pub const SOCKET_NAME: &'static str = "padplay";

pub const FLAG_KEYFRAME: u8 = 1;

/// Length of a device-to-host acknowledgement, sent when a frame is handed to
/// the display.
///
/// Host and tablet have unrelated monotonic clocks, so timestamps cannot be
/// compared directly; a round trip can be.
///
/// **Audio frames must never be acked.** Acks are matched to sends by pure
/// FIFO order, so only video frames participate in the ack protocol at all.
pub const ACK_LEN: usize = 8;

/// Why bytes off the wire were refused.
#[derive(Debug, Clone, Copy, PartialEq, Eq, Structural)]
pub enum ProtocolError {
    UnknownCodec(u8),
    UnknownAudioCodec(u8),
    UnknownStreamType(u8),
    StreamHeaderTooShort(usize),
    BadMagic(u8, u8, u8, u8),
    UnsupportedVersion(u16),
    FrameHeaderTooShort(usize),
    AckTooShort(usize),
}

#[derive(Debug, Clone, Copy, PartialEq, Eq, Structural)]
pub enum Codec {
    H264,
    H265,
}

#[derive(Debug, Clone, Copy, PartialEq, Eq, Structural)]
pub enum AudioCodec {
    NoAudio,
    Opus,
}

#[derive(Debug, Clone, Copy, PartialEq, Eq, Structural)]
pub enum StreamType {
    Video,
    Audio,
}

#[derive(Debug, Clone, Copy)]
pub struct StreamHeader {
    pub width: u16,
    pub height: u16,
    pub framerate: u16,
    pub codec: Codec,
    pub audio_codec: AudioCodec,
    /// Meaningless if `audio_codec` is `AudioCodec::NoAudio`.
    pub audio_sample_rate_hz: u16,
    /// Meaningless if `audio_codec` is `AudioCodec::NoAudio`.
    pub audio_channels: u8,
    /// Opus codec-specific data; meaningless if `audio_codec` is
    /// `AudioCodec::NoAudio`.
    pub audio_pre_skip: u16,
}

#[derive(Debug, Clone, Copy)]
pub struct FrameHeader {
    pub length: u32,
    pub pts_ns: u64,
    pub keyframe: bool,
    pub stream_type: StreamType,
}

// ---------------------------------------------------------------------------
// Big-endian integers
// ---------------------------------------------------------------------------

/// The last `width` bytes of `n`, the most significant first.
pub open spec fn big_endian(n: nat, width: nat) -> Seq<u8>
    decreases width,
{
    if width == 0 {
        seq![]
    } else {
        big_endian(n / 256, (width - 1) as nat).push((n % 256) as u8)
    }
}

/// The number that bytes write, the most significant first.
pub open spec fn from_big_endian(s: Seq<u8>) -> nat
    decreases s.len(),
{
    if s.len() == 0 {
        0
    } else {
        from_big_endian(s.drop_last()) * 256 + s.last() as nat
    }
}

fn be16(n: u16) -> (r: [u8; 2])
    ensures
        r@ == big_endian(n as nat, 2),
{
    let r: [u8; 2] = [(n / 256) as u8, (n % 256) as u8];
    proof {
        reveal_with_fuel(big_endian, 3);
    }
    assert(r@ =~= big_endian(n as nat, 2));
    r
}

fn be32(n: u32) -> (r: [u8; 4])
    ensures
        r@ == big_endian(n as nat, 4),
{
    let r: [u8; 4] = [
        (n / 256 / 256 / 256) as u8,
        (n / 256 / 256 % 256) as u8,
        (n / 256 % 256) as u8,
        (n % 256) as u8,
    ];
    proof {
        reveal_with_fuel(big_endian, 5);
    }
    assert(r@ =~= big_endian(n as nat, 4));
    r
}

fn be64(n: u64) -> (r: [u8; 8])
    ensures
        r@ == big_endian(n as nat, 8),
{
    let a = be32((n / 0x1_0000_0000) as u32);
    let b = be32((n % 0x1_0000_0000) as u32);
    let r: [u8; 8] = [a[0], a[1], a[2], a[3], b[0], b[1], b[2], b[3]];
    proof {
        lemma_big_endian_split(n as nat);
    }
    assert(r@ =~= big_endian(n as nat, 8));
    r
}

/// The eight bytes of a number are those of its upper and of its lower half.
proof fn lemma_big_endian_split(n: nat)
    requires
        n <= u64::MAX,
    ensures
        big_endian(n, 8) =~= big_endian(n / 0x1_0000_0000, 4) + big_endian(n % 0x1_0000_0000, 4),
{
    reveal_with_fuel(big_endian, 9);
    let hi = n / 0x1_0000_0000;
    let lo = n % 0x1_0000_0000;
    assert(n / 256 / 256 / 256 / 256 == hi);
    assert(n / 256 % 256 == lo / 256 % 256);
    assert(n / 256 / 256 % 256 == lo / 256 / 256 % 256);
    assert(n / 256 / 256 / 256 % 256 == lo / 256 / 256 / 256 % 256);
}

proof fn lemma_read2(s: Seq<u8>)
    requires
        s.len() == 2,
    ensures
        from_big_endian(s) == s[0] * 256 + s[1],
{
    reveal_with_fuel(from_big_endian, 3);
    assert(s.drop_last().drop_last().len() == 0);
}

proof fn lemma_read4(s: Seq<u8>)
    requires
        s.len() == 4,
    ensures
        from_big_endian(s) == ((s[0] * 256 + s[1]) * 256 + s[2]) * 256 + s[3],
{
    reveal_with_fuel(from_big_endian, 3);
    lemma_read2(s.drop_last().drop_last());
}

proof fn lemma_read8(s: Seq<u8>)
    requires
        s.len() == 8,
    ensures
        from_big_endian(s) == from_big_endian(s.take(4)) * 0x1_0000_0000 + from_big_endian(
            s.skip(4),
        ),
{
    reveal_with_fuel(from_big_endian, 5);
    assert(s.drop_last().drop_last().drop_last().drop_last() =~= s.take(4));
    lemma_read4(s.skip(4));
}

fn read_be32(buf: &[u8], at: usize) -> (r: u32)
    requires
        at + 4 <= buf@.len(),
    ensures
        r == from_big_endian(buf@.subrange(at as int, at + 4)),
{
    proof {
        lemma_read4(buf@.subrange(at as int, at + 4));
    }
    ((buf[at] as u32 * 256 + buf[at + 1] as u32) * 256 + buf[at + 2] as u32) * 256 + buf[at
        + 3] as u32
}

fn read_be64(buf: &[u8], at: usize) -> (r: u64)
    requires
        at + 8 <= buf@.len(),
    ensures
        r == from_big_endian(buf@.subrange(at as int, at + 8)),
{
    assert(buf.len() <= usize::MAX);
    let hi = read_be32(buf, at);
    let lo = read_be32(buf, at + 4);
    proof {
        let s = buf@.subrange(at as int, at + 8);
        lemma_read8(s);
        assert(s.take(4) =~= buf@.subrange(at as int, at + 4));
        assert(s.skip(4) =~= buf@.subrange(at + 4, at + 8));
    }
    hi as u64 * 0x1_0000_0000 + lo as u64
}

/// The bytes of a number are as many as asked for, and write the number back
/// where it fits in them.
pub proof fn lemma_big_endian(n: nat, width: nat)
    ensures
        big_endian(n, width).len() == width,
        width == 2 && n <= u16::MAX ==> from_big_endian(big_endian(n, width)) == n,
        width == 4 && n <= u32::MAX ==> from_big_endian(big_endian(n, width)) == n,
        width == 8 && n <= u64::MAX ==> from_big_endian(big_endian(n, width)) == n,
    decreases width,
{
    if width > 0 {
        lemma_big_endian(n / 256, (width - 1) as nat);
        if width == 2 {
            reveal_with_fuel(big_endian, 3);
            lemma_read2(big_endian(n, 2));
        } else if width == 4 {
            reveal_with_fuel(big_endian, 5);
            lemma_read4(big_endian(n, 4));
        } else if width == 8 && n <= u64::MAX {
            let s = big_endian(n, 8);
            lemma_big_endian_split(n);
            lemma_big_endian(n / 0x1_0000_0000, 4);
            lemma_big_endian(n % 0x1_0000_0000, 4);
            lemma_read8(s);
            assert(s.take(4) =~= big_endian(n / 0x1_0000_0000, 4));
            assert(s.skip(4) =~= big_endian(n % 0x1_0000_0000, 4));
        }
    }
}

// ---------------------------------------------------------------------------
// Codec and stream identifiers
// ---------------------------------------------------------------------------

impl Codec {
    /// The identifier of this codec on the wire.
    pub open spec fn wire_id(self) -> u8 {
        match self {
            Codec::H264 => 0,
            Codec::H265 => 1,
        }
    }

    /// The codec that a wire identifier names.
    pub open spec fn of_wire_id(id: u8) -> Result<Codec, ProtocolError> {
        if id == 0 {
            Ok(Codec::H264)
        } else if id == 1 {
            Ok(Codec::H265)
        } else {
            Err(ProtocolError::UnknownCodec(id))
        }
    }

    pub fn from_u8(value: u8) -> (r: Result<Self, ProtocolError>)
        ensures
            r == Codec::of_wire_id(value),
    {
        if value == 0 {
            Ok(Codec::H264)
        } else if value == 1 {
            Ok(Codec::H265)
        } else {
            Err(ProtocolError::UnknownCodec(value))
        }
    }

    fn to_u8(self) -> (r: u8)
        ensures
            r == self.wire_id(),
    {
        match self {
            Codec::H264 => 0,
            Codec::H265 => 1,
        }
    }

    /// MIME type MediaCodec expects.
    pub fn mime(self) -> (r: &'static str)
        ensures
            self == Codec::H264 ==> r@ == "video/avc"@,
            self == Codec::H265 ==> r@ == "video/hevc"@,
    {
        match self {
            Codec::H264 => "video/avc",
            Codec::H265 => "video/hevc",
        }
    }
}

impl AudioCodec {
    /// The identifier of this codec on the wire.
    pub open spec fn wire_id(self) -> u8 {
        match self {
            AudioCodec::NoAudio => 0,
            AudioCodec::Opus => 1,
        }
    }

    /// The codec that a wire identifier names.
    pub open spec fn of_wire_id(id: u8) -> Result<AudioCodec, ProtocolError> {
        if id == 0 {
            Ok(AudioCodec::NoAudio)
        } else if id == 1 {
            Ok(AudioCodec::Opus)
        } else {
            Err(ProtocolError::UnknownAudioCodec(id))
        }
    }

    pub fn from_u8(value: u8) -> (r: Result<Self, ProtocolError>)
        ensures
            r == AudioCodec::of_wire_id(value),
    {
        if value == 0 {
            Ok(AudioCodec::NoAudio)
        } else if value == 1 {
            Ok(AudioCodec::Opus)
        } else {
            Err(ProtocolError::UnknownAudioCodec(value))
        }
    }

    fn to_u8(self) -> (r: u8)
        ensures
            r == self.wire_id(),
    {
        match self {
            AudioCodec::NoAudio => 0,
            AudioCodec::Opus => 1,
        }
    }
}

impl StreamType {
    /// The identifier of this stream type on the wire.
    pub open spec fn wire_id(self) -> u8 {
        match self {
            StreamType::Video => 0,
            StreamType::Audio => 1,
        }
    }

    /// The stream type that a wire identifier names.
    pub open spec fn of_wire_id(id: u8) -> Result<StreamType, ProtocolError> {
        if id == 0 {
            Ok(StreamType::Video)
        } else if id == 1 {
            Ok(StreamType::Audio)
        } else {
            Err(ProtocolError::UnknownStreamType(id))
        }
    }

    pub fn from_u8(value: u8) -> (r: Result<Self, ProtocolError>)
        ensures
            r == StreamType::of_wire_id(value),
    {
        if value == 0 {
            Ok(StreamType::Video)
        } else if value == 1 {
            Ok(StreamType::Audio)
        } else {
            Err(ProtocolError::UnknownStreamType(value))
        }
    }

    fn to_u8(self) -> (r: u8)
        ensures
            r == self.wire_id(),
    {
        match self {
            StreamType::Video => 0,
            StreamType::Audio => 1,
        }
    }
}

// ---------------------------------------------------------------------------
// Stream header
// ---------------------------------------------------------------------------

/// The bytes of a stream header.
pub open spec fn stream_header_bytes(h: StreamHeader) -> Seq<u8> {
    MAGIC@ + big_endian(VERSION as nat, 2) + big_endian(h.width as nat, 2) + big_endian(
        h.height as nat,
        2,
    ) + big_endian(h.framerate as nat, 2) + seq![h.codec.wire_id(), h.audio_codec.wire_id()]
        + big_endian(h.audio_sample_rate_hz as nat, 2) + seq![h.audio_channels] + big_endian(
        h.audio_pre_skip as nat,
        2,
    ) + seq![0u8, 0, 0, 0, 0]
}

/// The stream header that bytes begin with. The length is checked first, then
/// the magic, then the version, before any other field is looked at; what
/// follows the fields is ignored.
pub open spec fn read_stream_header(buf: Seq<u8>) -> Result<StreamHeader, ProtocolError> {
    if buf.len() < STREAM_HEADER_LEN {
        Err(ProtocolError::StreamHeaderTooShort(buf.len() as usize))
    } else if buf.take(4) != MAGIC@ {
        Err(ProtocolError::BadMagic(buf[0], buf[1], buf[2], buf[3]))
    } else if from_big_endian(buf.subrange(4, 6)) != VERSION {
        Err(ProtocolError::UnsupportedVersion(from_big_endian(buf.subrange(4, 6)) as u16))
    } else {
        match (Codec::of_wire_id(buf[12]), AudioCodec::of_wire_id(buf[13])) {
            (Err(e), _) => Err(e),
            (_, Err(e)) => Err(e),
            (Ok(codec), Ok(audio_codec)) => Ok(
                StreamHeader {
                    width: from_big_endian(buf.subrange(6, 8)) as u16,
                    height: from_big_endian(buf.subrange(8, 10)) as u16,
                    framerate: from_big_endian(buf.subrange(10, 12)) as u16,
                    codec,
                    audio_codec,
                    audio_sample_rate_hz: from_big_endian(buf.subrange(14, 16)) as u16,
                    audio_channels: buf[16],
                    audio_pre_skip: from_big_endian(buf.subrange(17, 19)) as u16,
                },
            ),
        }
    }
}

fn read_be16_at(buf: &[u8], at: usize) -> (r: u16)
    requires
        at + 2 <= buf@.len(),
    ensures
        r == from_big_endian(buf@.subrange(at as int, at + 2)),
{
    proof {
        lemma_read2(buf@.subrange(at as int, at + 2));
    }
    buf[at] as u16 * 256 + buf[at + 1] as u16
}

impl StreamHeader {
    pub fn encode(&self) -> (buf: [u8; STREAM_HEADER_LEN])
        ensures
            buf@ == stream_header_bytes(*self),
            buf@.len() == STREAM_HEADER_LEN,
    {
        let version = be16(VERSION);
        let width = be16(self.width);
        let height = be16(self.height);
        let framerate = be16(self.framerate);
        let rate = be16(self.audio_sample_rate_hz);
        let skip = be16(self.audio_pre_skip);
        let buf: [u8; STREAM_HEADER_LEN] = [
            MAGIC[0],
            MAGIC[1],
            MAGIC[2],
            MAGIC[3],
            version[0],
            version[1],
            width[0],
            width[1],
            height[0],
            height[1],
            framerate[0],
            framerate[1],
            self.codec.to_u8(),
            self.audio_codec.to_u8(),
            rate[0],
            rate[1],
            self.audio_channels,
            skip[0],
            skip[1],
            0,
            0,
            0,
            0,
            0,
        ];
        assert(buf@ =~= stream_header_bytes(*self));
        buf
    }

    pub fn decode(buf: &[u8]) -> (r: Result<Self, ProtocolError>)
        ensures
            r == read_stream_header(buf@),
    {
        if buf.len() < STREAM_HEADER_LEN {
            return Err(ProtocolError::StreamHeaderTooShort(buf.len()));
        }
        if buf[0] != MAGIC[0] || buf[1] != MAGIC[1] || buf[2] != MAGIC[2] || buf[3] != MAGIC[3] {
            assert(buf@.take(4) != MAGIC@) by {
                assert(buf@.take(4)[0] == buf@[0]);
                assert(buf@.take(4)[1] == buf@[1]);
                assert(buf@.take(4)[2] == buf@[2]);
                assert(buf@.take(4)[3] == buf@[3]);
            }
            return Err(ProtocolError::BadMagic(buf[0], buf[1], buf[2], buf[3]));
        }
        assert(buf@.take(4) =~= MAGIC@);
        let version = read_be16_at(buf, 4);
        if version != VERSION {
            return Err(ProtocolError::UnsupportedVersion(version));
        }
        let codec = match Codec::from_u8(buf[12]) {
            Ok(codec) => codec,
            Err(e) => return Err(e),
        };
        let audio_codec = match AudioCodec::from_u8(buf[13]) {
            Ok(audio_codec) => audio_codec,
            Err(e) => return Err(e),
        };
        Ok(
            Self {
                width: read_be16_at(buf, 6),
                height: read_be16_at(buf, 8),
                framerate: read_be16_at(buf, 10),
                codec,
                audio_codec,
                audio_sample_rate_hz: read_be16_at(buf, 14),
                audio_channels: buf[16],
                audio_pre_skip: read_be16_at(buf, 17),
            },
        )
    }
}

/// A stream header reads back from its bytes, whatever follows them.
pub proof fn stream_header_reads_back(h: StreamHeader, rest: Seq<u8>)
    ensures
        read_stream_header(stream_header_bytes(h) + rest) == Ok::<StreamHeader, ProtocolError>(h),
{
    lemma_big_endian(VERSION as nat, 2);
    lemma_big_endian(h.width as nat, 2);
    lemma_big_endian(h.height as nat, 2);
    lemma_big_endian(h.framerate as nat, 2);
    lemma_big_endian(h.audio_sample_rate_hz as nat, 2);
    lemma_big_endian(h.audio_pre_skip as nat, 2);
    let buf = stream_header_bytes(h) + rest;
    assert(buf.take(4) =~= MAGIC@);
    assert(buf.subrange(4, 6) =~= big_endian(VERSION as nat, 2));
    assert(buf.subrange(6, 8) =~= big_endian(h.width as nat, 2));
    assert(buf.subrange(8, 10) =~= big_endian(h.height as nat, 2));
    assert(buf.subrange(10, 12) =~= big_endian(h.framerate as nat, 2));
    assert(buf.subrange(14, 16) =~= big_endian(h.audio_sample_rate_hz as nat, 2));
    assert(buf.subrange(17, 19) =~= big_endian(h.audio_pre_skip as nat, 2));
}

/// A header of another version is refused for its version, whatever the rest of
/// it holds: no field is read before the version is known.
pub proof fn other_versions_are_refused(buf: Seq<u8>)
    requires
        buf.len() >= STREAM_HEADER_LEN,
        buf.take(4) == MAGIC@,
        from_big_endian(buf.subrange(4, 6)) != VERSION,
    ensures
        read_stream_header(buf) == Err::<StreamHeader, ProtocolError>(
            ProtocolError::UnsupportedVersion(from_big_endian(buf.subrange(4, 6)) as u16),
        ),
{
}

/// Bytes that read as a stream header are that header's bytes, but for the
/// reserved ones.
pub proof fn stream_header_bytes_are_determined(buf: Seq<u8>)
    requires
        read_stream_header(buf) is Ok,
    ensures
        stream_header_bytes(read_stream_header(buf)->Ok_0).take(19) == buf.take(19),
{
    let h = read_stream_header(buf)->Ok_0;
    lemma_read2_back(buf.subrange(4, 6));
    lemma_read2_back(buf.subrange(6, 8));
    lemma_read2_back(buf.subrange(8, 10));
    lemma_read2_back(buf.subrange(10, 12));
    lemma_read2_back(buf.subrange(14, 16));
    lemma_read2_back(buf.subrange(17, 19));
    assert(buf.take(4) =~= MAGIC@);
    let w = stream_header_bytes(h);
    assert forall|i: int| 0 <= i < 19 implies #[trigger] w.take(19)[i] == buf.take(19)[i] by {
        if i < 4 {
            assert(buf.take(4)[i] == buf[i]);
        } else if i < 6 {
            assert(w[i] == buf.subrange(4, 6)[i - 4]);
        } else if i < 8 {
            assert(w[i] == buf.subrange(6, 8)[i - 6]);
        } else if i < 10 {
            assert(w[i] == buf.subrange(8, 10)[i - 8]);
        } else if i < 12 {
            assert(w[i] == buf.subrange(10, 12)[i - 10]);
        } else if i == 14 || i == 15 {
            assert(w[i] == buf.subrange(14, 16)[i - 14]);
        } else if i == 17 || i == 18 {
            assert(w[i] == buf.subrange(17, 19)[i - 17]);
        }
    }
    assert(w.take(19) =~= buf.take(19));
}

proof fn lemma_read2_back(s: Seq<u8>)
    requires
        s.len() == 2,
    ensures
        from_big_endian(s) <= u16::MAX,
        big_endian(from_big_endian(s), 2) == s,
{
    lemma_read2(s);
    reveal_with_fuel(big_endian, 3);
    assert(big_endian(from_big_endian(s), 2) =~= s);
}

// ---------------------------------------------------------------------------
// Frame header
// ---------------------------------------------------------------------------

/// The bytes of a frame header.
pub open spec fn frame_header_bytes(h: FrameHeader) -> Seq<u8> {
    big_endian(h.length as nat, 4) + big_endian(h.pts_ns as nat, 8) + seq![
        if h.keyframe {
            FLAG_KEYFRAME
        } else {
            0u8
        },
        h.stream_type.wire_id(),
        0,
        0,
    ]
}

/// The frame header that bytes begin with. Only the lowest flag is looked at.
pub open spec fn read_frame_header(buf: Seq<u8>) -> Result<FrameHeader, ProtocolError> {
    if buf.len() < FRAME_HEADER_LEN {
        Err(ProtocolError::FrameHeaderTooShort(buf.len() as usize))
    } else {
        match StreamType::of_wire_id(buf[13]) {
            Err(e) => Err(e),
            Ok(stream_type) => Ok(
                FrameHeader {
                    length: from_big_endian(buf.subrange(0, 4)) as u32,
                    pts_ns: from_big_endian(buf.subrange(4, 12)) as u64,
                    keyframe: buf[12] % 2 == 1,
                    stream_type,
                },
            ),
        }
    }
}

impl FrameHeader {
    pub fn encode(&self) -> (buf: [u8; FRAME_HEADER_LEN])
        ensures
            buf@ == frame_header_bytes(*self),
            buf@.len() == FRAME_HEADER_LEN,
    {
        let length = be32(self.length);
        let pts = be64(self.pts_ns);
        let flags: u8 = if self.keyframe {
            FLAG_KEYFRAME
        } else {
            0
        };
        let buf: [u8; FRAME_HEADER_LEN] = [
            length[0],
            length[1],
            length[2],
            length[3],
            pts[0],
            pts[1],
            pts[2],
            pts[3],
            pts[4],
            pts[5],
            pts[6],
            pts[7],
            flags,
            self.stream_type.to_u8(),
            0,
            0,
        ];
        assert(buf@ =~= frame_header_bytes(*self));
        buf
    }

    pub fn decode(buf: &[u8]) -> (r: Result<Self, ProtocolError>)
        ensures
            r == read_frame_header(buf@),
    {
        if buf.len() < FRAME_HEADER_LEN {
            return Err(ProtocolError::FrameHeaderTooShort(buf.len()));
        }
        let stream_type = match StreamType::from_u8(buf[13]) {
            Ok(stream_type) => stream_type,
            Err(e) => return Err(e),
        };
        let flags = buf[12];
        assert((flags & 1 != 0) == (flags % 2 == 1)) by (bit_vector);
        Ok(
            Self {
                length: read_be32(buf, 0),
                pts_ns: read_be64(buf, 4),
                keyframe: flags & FLAG_KEYFRAME != 0,
                stream_type,
            },
        )
    }
}

/// A frame header reads back from its bytes, whatever follows them.
pub proof fn frame_header_reads_back(h: FrameHeader, rest: Seq<u8>)
    ensures
        read_frame_header(frame_header_bytes(h) + rest) == Ok::<FrameHeader, ProtocolError>(h),
{
    lemma_big_endian(h.length as nat, 4);
    lemma_big_endian(h.pts_ns as nat, 8);
    let buf = frame_header_bytes(h) + rest;
    assert(buf.subrange(0, 4) =~= big_endian(h.length as nat, 4));
    assert(buf.subrange(4, 12) =~= big_endian(h.pts_ns as nat, 8));
}

// ---------------------------------------------------------------------------
// Acknowledgements
// ---------------------------------------------------------------------------

pub fn encode_ack(pts_ns: u64) -> (buf: [u8; ACK_LEN])
    ensures
        buf@ == big_endian(pts_ns as nat, 8),
        buf@.len() == ACK_LEN,
{
    be64(pts_ns)
}

/// The timestamp that an acknowledgement carries.
pub open spec fn read_ack(buf: Seq<u8>) -> Result<u64, ProtocolError> {
    if buf.len() < ACK_LEN {
        Err(ProtocolError::AckTooShort(buf.len() as usize))
    } else {
        Ok(from_big_endian(buf.take(8)) as u64)
    }
}

pub fn decode_ack(buf: &[u8]) -> (r: Result<u64, ProtocolError>)
    ensures
        r == read_ack(buf@),
{
    if buf.len() < ACK_LEN {
        return Err(ProtocolError::AckTooShort(buf.len()));
    }
    assert(buf@.subrange(0, 8) =~= buf@.take(8));
    Ok(read_be64(buf, 0))
}

/// An acknowledgement reads back from its bytes, whatever follows them.
pub proof fn ack_reads_back(pts_ns: u64, rest: Seq<u8>)
    ensures
        read_ack(big_endian(pts_ns as nat, 8) + rest) == Ok::<u64, ProtocolError>(pts_ns),
{
    lemma_big_endian(pts_ns as nat, 8);
    assert((big_endian(pts_ns as nat, 8) + rest).take(8) =~= big_endian(pts_ns as nat, 8));
}

// ---------------------------------------------------------------------------
// Layout
// ---------------------------------------------------------------------------

/// Every field of a stream header stands at its own place, the upper byte first, and
/// the rest is zero.
pub proof fn stream_header_layout(h: StreamHeader)
    ensures
        ({
            let b = stream_header_bytes(h);
            &&& b.len() == 24
            &&& b[0] == 0x4d && b[1] == 0x52 && b[2] == 0x4c && b[3] == 0x44
            &&& b[4] == 0 && b[5] == 2
            &&& b[6] * 256 + b[7] == h.width
            &&& b[8] * 256 + b[9] == h.height
            &&& b[10] * 256 + b[11] == h.framerate
            &&& b[12] == if h.codec is H265 { 1int } else { 0int }
            &&& b[13] == if h.audio_codec is Opus { 1int } else { 0int }
            &&& b[14] * 256 + b[15] == h.audio_sample_rate_hz
            &&& b[16] == h.audio_channels
            &&& b[17] * 256 + b[18] == h.audio_pre_skip
            &&& forall|i: int| 19 <= i < 24 ==> #[trigger] b[i] == 0
        }),
{
    reveal_with_fuel(big_endian, 3);
}

/// Bytes are taken for a stream header exactly where they are long enough, begin
/// with the magic and the version and name codecs that are known. Each field is then
/// what stands at its place. Otherwise the first of these that fails is what they are
/// refused for.
pub proof fn stream_headers_are_read_by_place(buf: Seq<u8>)
    requires
        buf.len() <= usize::MAX,
    ensures
        ({
            let magic = buf[0] == 0x4d && buf[1] == 0x52 && buf[2] == 0x4c && buf[3] == 0x44;
            let version = buf[4] * 256 + buf[5];
            match read_stream_header(buf) {
                Ok(h) => {
                    &&& buf.len() >= 24 && magic && version == 2
                    &&& h.width == buf[6] * 256 + buf[7]
                    &&& h.height == buf[8] * 256 + buf[9]
                    &&& h.framerate == buf[10] * 256 + buf[11]
                    &&& buf[12] == if h.codec is H265 { 1int } else { 0int }
                    &&& buf[13] == if h.audio_codec is Opus { 1int } else { 0int }
                    &&& h.audio_sample_rate_hz == buf[14] * 256 + buf[15]
                    &&& h.audio_channels == buf[16]
                    &&& h.audio_pre_skip == buf[17] * 256 + buf[18]
                },
                Err(ProtocolError::StreamHeaderTooShort(n)) => buf.len() < 24 && n == buf.len(),
                Err(ProtocolError::BadMagic(a, b, c, d)) => {
                    &&& buf.len() >= 24 && !magic
                    &&& a == buf[0] && b == buf[1] && c == buf[2] && d == buf[3]
                },
                Err(ProtocolError::UnsupportedVersion(v)) => {
                    &&& buf.len() >= 24 && magic && version != 2
                    &&& v == version
                },
                Err(ProtocolError::UnknownCodec(id)) => {
                    &&& buf.len() >= 24 && magic && version == 2
                    &&& id == buf[12] && id > 1
                },
                Err(ProtocolError::UnknownAudioCodec(id)) => {
                    &&& buf.len() >= 24 && magic && version == 2 && buf[12] <= 1
                    &&& id == buf[13] && id > 1
                },
                Err(_) => false,
            }
        }),
{
    if buf.len() >= 24 {
        let start = buf.take(4);
        assert(start[0] == buf[0] && start[1] == buf[1] && start[2] == buf[2] && start[3]
            == buf[3]);
        if buf[0] == 0x4d && buf[1] == 0x52 && buf[2] == 0x4c && buf[3] == 0x44 {
            assert(start =~= MAGIC@);
        }
        lemma_read2(buf.subrange(4, 6));
        lemma_read2(buf.subrange(6, 8));
        lemma_read2(buf.subrange(8, 10));
        lemma_read2(buf.subrange(10, 12));
        lemma_read2(buf.subrange(14, 16));
        lemma_read2(buf.subrange(17, 19));
    }
}

/// The number that four bytes write from a place on, the most significant first.
pub open spec fn word_at(b: Seq<u8>, at: int) -> int {
    b[at] * 0x100_0000 + b[at + 1] * 0x1_0000 + b[at + 2] * 0x100 + b[at + 3]
}

proof fn lemma_word_at(b: Seq<u8>, at: int)
    requires
        0 <= at,
        at + 4 <= b.len(),
    ensures
        from_big_endian(b.subrange(at, at + 4)) == word_at(b, at),
        0 <= word_at(b, at) <= u32::MAX,
{
    lemma_read4(b.subrange(at, at + 4));
}

proof fn lemma_two_words_at(b: Seq<u8>, at: int)
    requires
        0 <= at,
        at + 8 <= b.len(),
    ensures
        from_big_endian(b.subrange(at, at + 8)) == word_at(b, at) * 0x1_0000_0000 + word_at(
            b,
            at + 4,
        ),
        0 <= word_at(b, at) * 0x1_0000_0000 + word_at(b, at + 4) <= u64::MAX,
{
    let s = b.subrange(at, at + 8);
    lemma_read8(s);
    assert(s.take(4) =~= b.subrange(at, at + 4));
    assert(s.skip(4) =~= b.subrange(at + 4, at + 8));
    lemma_word_at(b, at);
    lemma_word_at(b, at + 4);
}

/// Every field of a frame header stands at its own place, and the rest is zero.
pub proof fn frame_header_layout(h: FrameHeader)
    ensures
        ({
            let b = frame_header_bytes(h);
            &&& b.len() == 16
            &&& word_at(b, 0) == h.length
            &&& word_at(b, 4) * 0x1_0000_0000 + word_at(b, 8) == h.pts_ns
            &&& b[12] == if h.keyframe { 1int } else { 0int }
            &&& b[13] == if h.stream_type is Audio { 1int } else { 0int }
            &&& b[14] == 0 && b[15] == 0
        }),
{
    lemma_big_endian(h.length as nat, 4);
    lemma_big_endian(h.pts_ns as nat, 8);
    let b = frame_header_bytes(h);
    assert(b.subrange(0, 4) =~= big_endian(h.length as nat, 4));
    assert(b.subrange(4, 12) =~= big_endian(h.pts_ns as nat, 8));
    lemma_word_at(b, 0);
    lemma_two_words_at(b, 4);
}

/// Bytes are taken for a frame header exactly where they are long enough and name a
/// stream that is known. Each field is then what stands at its place, and of the
/// flags only the lowest counts.
pub proof fn frame_headers_are_read_by_place(buf: Seq<u8>)
    requires
        buf.len() <= usize::MAX,
    ensures
        match read_frame_header(buf) {
            Ok(h) => {
                &&& buf.len() >= 16
                &&& h.length == word_at(buf, 0)
                &&& h.pts_ns == word_at(buf, 4) * 0x1_0000_0000 + word_at(buf, 8)
                &&& h.keyframe <==> buf[12] % 2 == 1
                &&& buf[13] == if h.stream_type is Audio { 1int } else { 0int }
            },
            Err(ProtocolError::FrameHeaderTooShort(n)) => buf.len() < 16 && n == buf.len(),
            Err(ProtocolError::UnknownStreamType(id)) => buf.len() >= 16 && id == buf[13] && id > 1,
            Err(_) => false,
        },
{
    if buf.len() >= 16 {
        lemma_word_at(buf, 0);
        lemma_two_words_at(buf, 4);
    }
}

/// Acknowledgements are read by place too: eight bytes are enough, and nothing else
/// is asked of them. The bytes that are sent for a timestamp are laid out the same.
pub proof fn acks_are_read_by_place(buf: Seq<u8>, pts_ns: u64)
    requires
        buf.len() <= usize::MAX,
    ensures
        match read_ack(buf) {
            Ok(pts) => buf.len() >= 8 && pts == word_at(buf, 0) * 0x1_0000_0000 + word_at(buf, 4),
            Err(e) => buf.len() < 8 && e == ProtocolError::AckTooShort(buf.len() as usize),
        },
        big_endian(pts_ns as nat, 8).len() == 8,
        word_at(big_endian(pts_ns as nat, 8), 0) * 0x1_0000_0000 + word_at(
            big_endian(pts_ns as nat, 8),
            4,
        ) == pts_ns,
{
    if buf.len() >= 8 {
        assert(buf.subrange(0, 8) =~= buf.take(8));
        lemma_two_words_at(buf, 0);
    }
    let b = big_endian(pts_ns as nat, 8);
    lemma_big_endian(pts_ns as nat, 8);
    assert(b.subrange(0, 8) =~= b);
    lemma_two_words_at(b, 0);
}

// ---------------------------------------------------------------------------
// Errors as text
// ---------------------------------------------------------------------------

impl ProtocolError {
    /// The text that tells a person what was refused.
    pub open spec fn message(self) -> Seq<char> {
        match self {
            ProtocolError::UnknownCodec(id) => "unknown codec id "@ + decimal(id as nat),
            ProtocolError::UnknownAudioCodec(id) => "unknown audio codec id "@ + decimal(id as nat),
            ProtocolError::UnknownStreamType(id) => "unknown stream type id "@ + decimal(id as nat),
            ProtocolError::StreamHeaderTooShort(len) => "stream header too short: "@ + decimal(
                len as nat,
            ) + " bytes"@,
            ProtocolError::BadMagic(a, b, c, d) => "bad magic: ["@ + hex(a as nat, 2) + ", "@ + hex(
                b as nat,
                2,
            ) + ", "@ + hex(c as nat, 2) + ", "@ + hex(d as nat, 2) + "]"@,
            ProtocolError::UnsupportedVersion(v) => "unsupported protocol version "@ + decimal(
                v as nat,
            ) + " (expected "@ + decimal(VERSION as nat) + ")"@,
            ProtocolError::FrameHeaderTooShort(len) => "frame header too short: "@ + decimal(
                len as nat,
            ) + " bytes"@,
            ProtocolError::AckTooShort(len) => "ack too short: "@ + decimal(len as nat) + " bytes"@,
        }
    }

    pub fn to_string(&self) -> (r: String)
        ensures
            r@ == self.message(),
    {
        match *self {
            ProtocolError::UnknownCodec(id) => {
                let mut r = copy_text("unknown codec id ");
                push_decimal(&mut r, id as u64);
                r
            },
            ProtocolError::UnknownAudioCodec(id) => {
                let mut r = copy_text("unknown audio codec id ");
                push_decimal(&mut r, id as u64);
                r
            },
            ProtocolError::UnknownStreamType(id) => {
                let mut r = copy_text("unknown stream type id ");
                push_decimal(&mut r, id as u64);
                r
            },
            ProtocolError::StreamHeaderTooShort(len) => {
                let mut r = copy_text("stream header too short: ");
                push_decimal(&mut r, len as u64);
                r.append(" bytes");
                r
            },
            ProtocolError::BadMagic(a, b, c, d) => {
                let mut r = copy_text("bad magic: [");
                push_hex(&mut r, a as u64, 2);
                r.append(", ");
                push_hex(&mut r, b as u64, 2);
                r.append(", ");
                push_hex(&mut r, c as u64, 2);
                r.append(", ");
                push_hex(&mut r, d as u64, 2);
                r.append("]");
                r
            },
            ProtocolError::UnsupportedVersion(v) => {
                let mut r = copy_text("unsupported protocol version ");
                push_decimal(&mut r, v as u64);
                r.append(" (expected ");
                push_decimal(&mut r, VERSION as u64);
                r.append(")");
                r
            },
            ProtocolError::FrameHeaderTooShort(len) => {
                let mut r = copy_text("frame header too short: ");
                push_decimal(&mut r, len as u64);
                r.append(" bytes");
                r
            },
            ProtocolError::AckTooShort(len) => {
                let mut r = copy_text("ack too short: ");
                push_decimal(&mut r, len as u64);
                r.append(" bytes");
                r
            },
        }
    }
}

} // verus!

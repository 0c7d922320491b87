//! Framed video transport to the device over `adb forward`.
//!
//! The socket itself is driven by the caller: a [`FrameWrite`] says what to
//! hand to the socket next and is told how much of it was accepted.

use crate::numeral::{decimal, push_decimal};
use crate::protocol::{
    frame_header_bytes, frame_header_reads_back, lemma_big_endian, read_frame_header,
    stream_header_bytes, AudioCodec, Codec, FrameHeader, StreamHeader, StreamType,
    FRAME_HEADER_LEN, STREAM_HEADER_LEN, VERSION,
};
use crate::text::copy_text;
use vstd::prelude::*;

verus! {

/// How long one write to the socket may take, in seconds.
pub const WRITE_TIMEOUT_SECS: u64 = 5;

/// How long one read of acknowledgements may wait, in milliseconds.
pub const ACK_READ_TIMEOUT_MS: u64 = 500;

/// Why something could not be sent.
#[derive(Debug, Clone, Copy, PartialEq, Eq, Structural)]
pub enum TransportError {
    /// The audio sample rate has no place in a stream header.
    SampleRateTooLarge(u32),
    /// The socket accepted no bytes.
    WriteZero,
}

impl TransportError {
    /// The text that tells a person what went wrong.
    pub open spec fn message(self) -> Seq<char> {
        match self {
            TransportError::SampleRateTooLarge(hz) => "audio sample rate "@ + decimal(hz as nat)
                + " does not fit in u16: out of range integral type conversion attempted"@,
            TransportError::WriteZero => "transport socket accepted no bytes"@,
        }
    }

    pub fn to_string(&self) -> (r: String)
        ensures
            r@ == self.message(),
    {
        match *self {
            TransportError::SampleRateTooLarge(hz) => {
                let mut r = copy_text("audio sample rate ");
                push_decimal(&mut r, hz as u64);
                r.append(" does not fit in u16: out of range integral type conversion attempted");
                r
            },
            TransportError::WriteZero => copy_text("transport socket accepted no bytes"),
        }
    }
}

// ---------------------------------------------------------------------------
// Frames on the wire
// ---------------------------------------------------------------------------

/// One frame as sender and receiver see it.
pub struct WireFrame {
    pub stream_type: StreamType,
    pub pts_ns: u64,
    pub keyframe: bool,
    pub payload: Seq<u8>,
}

/// The header of a frame. The length field holds the payload's length modulo
/// 2^32.
pub open spec fn header_of(f: WireFrame) -> FrameHeader {
    FrameHeader {
        length: (f.payload.len() % 0x1_0000_0000) as u32,
        pts_ns: f.pts_ns,
        keyframe: f.keyframe,
        stream_type: f.stream_type,
    }
}

/// The bytes of a frame: its header and its payload.
pub open spec fn frame_bytes(f: WireFrame) -> Seq<u8> {
    frame_header_bytes(header_of(f)) + f.payload
}

/// The bytes of frames sent one after another.
pub open spec fn wire_bytes(frames: Seq<WireFrame>) -> Seq<u8>
    decreases frames.len(),
{
    if frames.len() == 0 {
        seq![]
    } else {
        frame_bytes(frames[0]) + wire_bytes(frames.drop_first())
    }
}

/// The frames that a receiver takes from bytes; none where the bytes are not
/// whole frames.
pub open spec fn read_frames(bytes: Seq<u8>) -> Option<Seq<WireFrame>>
    decreases bytes.len(),
{
    if bytes.len() == 0 {
        Some(seq![])
    } else {
        match read_frame_header(bytes) {
            Err(_) => None,
            Ok(h) => {
                let end = FRAME_HEADER_LEN + h.length;
                if bytes.len() < end {
                    None
                } else {
                    match read_frames(bytes.skip(end)) {
                        None => None,
                        Some(rest) => Some(
                            seq![
                                WireFrame {
                                    stream_type: h.stream_type,
                                    pts_ns: h.pts_ns,
                                    keyframe: h.keyframe,
                                    payload: bytes.subrange(FRAME_HEADER_LEN as int, end),
                                },
                            ] + rest,
                        ),
                    }
                }
            },
        }
    }
}

/// A receiver takes from the wire the frames that were sent, in order, for
/// payloads whose length fits the length field.
pub proof fn frames_read_back(frames: Seq<WireFrame>)
    requires
        forall|i: int| 0 <= i < frames.len() ==> (#[trigger] frames[i]).payload.len() <= u32::MAX,
    ensures
        read_frames(wire_bytes(frames)) == Some(frames),
    decreases frames.len(),
{
    if frames.len() > 0 {
        let f = frames[0];
        let tail = frames.drop_first();
        let rest = wire_bytes(tail);
        let bytes = wire_bytes(frames);
        let h = header_of(f);
        frames_read_back(tail);
        frame_header_reads_back(h, f.payload + rest);
        assert(bytes =~= frame_header_bytes(h) + (f.payload + rest));
        lemma_header_len(h);
        let end = FRAME_HEADER_LEN + h.length;
        assert(h.length == f.payload.len());
        assert(bytes.skip(end) =~= rest);
        assert(bytes.subrange(FRAME_HEADER_LEN as int, end) =~= f.payload);
        assert(seq![f] + tail =~= frames);
    } else {
        assert(frames =~= seq![]);
    }
}

proof fn lemma_header_len(h: FrameHeader)
    ensures
        frame_header_bytes(h).len() == FRAME_HEADER_LEN,
{
    lemma_big_endian(h.length as nat, 4);
    lemma_big_endian(h.pts_ns as nat, 8);
}

// ---------------------------------------------------------------------------
// Writing one frame
// ---------------------------------------------------------------------------

/// A frame on its way into the socket. Header and payload are offered
/// together, so that they can go out in one vectored write.
pub struct FrameWrite<'a> {
    header: [u8; FRAME_HEADER_LEN],
    payload: &'a [u8],
    written: usize,
}

impl<'a> FrameWrite<'a> {
    /// All bytes of the frame.
    pub closed spec fn bytes(&self) -> Seq<u8> {
        self.header@ + self.payload@
    }

    /// How many of them the socket has accepted.
    pub closed spec fn accepted(&self) -> nat {
        self.written as nat
    }

    /// No more bytes are accepted than there are, and their number fits in
    /// memory.
    pub open spec fn wf(&self) -> bool {
        self.accepted() <= self.bytes().len() <= usize::MAX
    }

    /// The bytes that are still to be written.
    pub open spec fn remaining(&self) -> Seq<u8> {
        self.bytes().skip(self.accepted() as int)
    }

    /// Whether the socket has accepted the whole frame.
    pub fn is_done(&self) -> (r: bool)
        requires
            self.wf(),
        ensures
            r == (self.remaining().len() == 0),
    {
        self.written >= FRAME_HEADER_LEN && self.written - FRAME_HEADER_LEN == self.payload.len()
    }

    /// What is left of the header and what is left of the payload.
    pub fn slices(&self) -> (r: (&[u8], &[u8]))
        requires
            self.wf(),
        ensures
            r.0@ + r.1@ == self.remaining(),
    {
        let header = self.header.as_slice();
        if self.written < FRAME_HEADER_LEN {
            let r = (
                vstd::slice::slice_subrange(header, self.written, FRAME_HEADER_LEN),
                self.payload,
            );
            assert(r.0@ + r.1@ =~= self.remaining());
            r
        } else {
            let r = (
                vstd::slice::slice_subrange(header, FRAME_HEADER_LEN, FRAME_HEADER_LEN),
                vstd::slice::slice_subrange(
                    self.payload,
                    self.written - FRAME_HEADER_LEN,
                    self.payload.len(),
                ),
            );
            assert(r.0@ + r.1@ =~= self.remaining());
            r
        }
    }

    /// Take note that the socket accepted the next `written` bytes. A socket
    /// that accepts none will never finish the frame, which is an error.
    pub fn advance(&mut self, written: usize) -> (r: Result<(), TransportError>)
        requires
            old(self).wf(),
            written <= old(self).remaining().len(),
        ensures
            final(self).wf(),
            final(self).bytes() == old(self).bytes(),
            final(self).remaining() == old(self).remaining().skip(written as int),
            written == 0 ==> r == Err::<(), TransportError>(TransportError::WriteZero),
            written > 0 ==> r is Ok,
    {
        if written == 0 {
            assert(self.remaining() =~= old(self).remaining().skip(0));
            return Err(TransportError::WriteZero);
        }
        self.written = self.written + written;
        assert(self.remaining() =~= old(self).remaining().skip(written as int));
        Ok(())
    }
}

// ---------------------------------------------------------------------------
// The sender
// ---------------------------------------------------------------------------

/// The totals of a connection on which the stream header alone was sent. It
/// counts among the bytes and not among the frames.
pub open spec fn opened() -> (nat, nat) {
    (0, STREAM_HEADER_LEN as nat)
}

/// The totals once the bytes of one more frame were sent.
pub open spec fn counted(totals: (nat, nat), bytes: Seq<u8>) -> (nat, nat) {
    (totals.0 + 1, totals.1 + bytes.len())
}

/// What has been sent on one connection.
#[derive(Debug, Clone, Copy)]
pub struct Sender {
    frames_sent: u64,
    bytes_sent: u64,
}

impl Sender {
    /// How many frames have been sent, and how many bytes with the headers.
    pub closed spec fn totals(&self) -> (nat, nat) {
        (self.frames_sent as nat, self.bytes_sent as nat)
    }

    /// Start a connection: the bytes to send first, and the sender that has
    /// sent them.
    pub fn connect(header: &StreamHeader) -> (r: (Self, [u8; STREAM_HEADER_LEN]))
        ensures
            r.0.totals() == opened(),
            r.1@ == stream_header_bytes(*header),
    {
        (Self { frames_sent: 0, bytes_sent: STREAM_HEADER_LEN as u64 }, header.encode())
    }

    /// Begin to send one video access unit.
    ///
    /// Only video frames are ever acked by the device: this is the sole path
    /// that produces frames the caller should enter into ack matching.
    pub fn send_video_frame<'a>(&self, payload: &'a [u8], pts_ns: u64, keyframe: bool) -> (w:
        FrameWrite<'a>)
        requires
            FRAME_HEADER_LEN + payload@.len() <= usize::MAX,
        ensures
            w.wf(),
            w.accepted() == 0,
            w.bytes() == frame_bytes(
                WireFrame { stream_type: StreamType::Video, pts_ns, keyframe, payload: payload@ },
            ),
    {
        Self::send(StreamType::Video, payload, pts_ns, keyframe)
    }

    /// Begin to send one Opus packet, which is never a keyframe.
    ///
    /// Audio frames are never acked by the device and must not be entered into
    /// ack matching.
    pub fn send_audio_frame<'a>(&self, payload: &'a [u8], pts_ns: u64) -> (w: FrameWrite<'a>)
        requires
            FRAME_HEADER_LEN + payload@.len() <= usize::MAX,
        ensures
            w.wf(),
            w.accepted() == 0,
            w.bytes() == frame_bytes(
                WireFrame {
                    stream_type: StreamType::Audio,
                    pts_ns,
                    keyframe: false,
                    payload: payload@,
                },
            ),
    {
        Self::send(StreamType::Audio, payload, pts_ns, false)
    }

    /// Kept private so that no caller can mark an audio frame as a keyframe.
    fn send<'a>(stream_type: StreamType, payload: &'a [u8], pts_ns: u64, keyframe: bool) -> (w:
        FrameWrite<'a>)
        requires
            FRAME_HEADER_LEN + payload@.len() <= usize::MAX,
        ensures
            w.wf(),
            w.accepted() == 0,
            w.bytes() == frame_bytes(
                WireFrame { stream_type, pts_ns, keyframe, payload: payload@ },
            ),
    {
        let length: u32 = (payload.len() as u64 % 0x1_0000_0000) as u32;
        let header = FrameHeader { length, pts_ns, keyframe, stream_type }.encode();
        FrameWrite { header, payload, written: 0 }
    }

    /// Count a frame that the socket has accepted whole.
    pub fn record_sent(&mut self, frame: &FrameWrite<'_>)
        requires
            frame.wf(),
            frame.remaining().len() == 0,
            old(self).totals().0 < u64::MAX,
            old(self).totals().1 + frame.bytes().len() <= u64::MAX,
        ensures
            final(self).totals() == counted(old(self).totals(), frame.bytes()),
    {
        self.frames_sent = self.frames_sent + 1;
        self.bytes_sent = self.bytes_sent + (FRAME_HEADER_LEN + frame.payload.len()) as u64;
    }

    pub fn frames_sent(&self) -> (r: u64)
        ensures
            r == self.totals().0,
    {
        self.frames_sent
    }

    pub fn bytes_sent(&self) -> (r: u64)
        ensures
            r == self.totals().1,
    {
        self.bytes_sent
    }
}

/// How many bytes frames take on the wire, each a header and its payload.
pub open spec fn wire_len(frames: Seq<WireFrame>) -> nat
    decreases frames.len(),
{
    if frames.len() == 0 {
        0
    } else {
        FRAME_HEADER_LEN as nat + frames[0].payload.len() + wire_len(frames.drop_first())
    }
}

/// After a connection was opened and frames were sent on it, the sender has
/// counted each frame once, and its bytes are those of the stream header and of
/// every frame's header and payload, which is all that was put on the stream.
/// `senders` are the states that the sender goes through.
pub proof fn totals_count_what_was_sent(
    header: StreamHeader,
    frames: Seq<WireFrame>,
    senders: Seq<Sender>,
)
    requires
        senders.len() == frames.len() + 1,
        senders[0].totals() == opened(),
        forall|i: int|
            0 <= i < frames.len() ==> senders[i + 1].totals() == counted(
                senders[i].totals(),
                #[trigger] frame_bytes(frames[i]),
            ),
    ensures
        senders.last().totals() == (frames.len(), STREAM_HEADER_LEN as nat + wire_len(frames)),
        senders.last().totals().1 == (stream_header_bytes(header) + wire_bytes(frames)).len(),
{
    lemma_stream_header_len(header);
    lemma_wire_len(frames);
    lemma_totals_grow(frames, senders);
}

proof fn lemma_stream_header_len(h: StreamHeader)
    ensures
        stream_header_bytes(h).len() == STREAM_HEADER_LEN,
{
    lemma_big_endian(VERSION as nat, 2);
    lemma_big_endian(h.width as nat, 2);
    lemma_big_endian(h.height as nat, 2);
    lemma_big_endian(h.framerate as nat, 2);
    lemma_big_endian(h.audio_sample_rate_hz as nat, 2);
    lemma_big_endian(h.audio_pre_skip as nat, 2);
}

proof fn lemma_wire_len(frames: Seq<WireFrame>)
    ensures
        wire_bytes(frames).len() == wire_len(frames),
    decreases frames.len(),
{
    if frames.len() > 0 {
        lemma_header_len(header_of(frames[0]));
        lemma_wire_len(frames.drop_first());
    }
}

proof fn lemma_totals_grow(frames: Seq<WireFrame>, senders: Seq<Sender>)
    requires
        senders.len() == frames.len() + 1,
        forall|i: int|
            0 <= i < frames.len() ==> senders[i + 1].totals() == counted(
                senders[i].totals(),
                #[trigger] frame_bytes(frames[i]),
            ),
    ensures
        senders.last().totals() == (
            senders[0].totals().0 + frames.len(),
            senders[0].totals().1 + wire_len(frames),
        ),
    decreases frames.len(),
{
    if frames.len() > 0 {
        let rest = frames.drop_first();
        let later = senders.drop_first();
        lemma_header_len(header_of(frames[0]));
        assert(senders[1].totals() == counted(senders[0].totals(), frame_bytes(frames[0])));
        assert forall|i: int| 0 <= i < rest.len() implies later[i + 1].totals() == counted(
            later[i].totals(),
            #[trigger] frame_bytes(rest[i]),
        ) by {
            assert(frame_bytes(rest[i]) == frame_bytes(frames[i + 1]));
        }
        lemma_totals_grow(rest, later);
    }
}

// ---------------------------------------------------------------------------
// The stream header
// ---------------------------------------------------------------------------

/// Audio parameters for a `StreamHeader`. `None` at the `stream_header` call
/// site means no audio: zero bytes of audio ever hit the wire.
pub struct AudioParams {
    pub sample_rate_hz: u32,
    pub channels: u8,
    pub pre_skip: u16,
}

/// The low sixteen bits of `n`.
pub open spec fn low16(n: u32) -> u16 {
    (n % 65536) as u16
}

fn low16_of(n: u32) -> (r: u16)
    ensures
        r == low16(n),
{
    (n % 65536) as u16
}

/// Convenience for the common case. `audio: None` produces a video-only
/// header; `Some(params)` fills in the Opus fields. Of the size and the frame
/// rate, the header holds the low sixteen bits; a sample rate that does not
/// fit is an error.
pub fn stream_header(
    width: u32,
    height: u32,
    framerate: u32,
    audio: Option<AudioParams>,
) -> (r: Result<StreamHeader, TransportError>)
    ensures
        r == match audio {
            Some(p) if p.sample_rate_hz > u16::MAX => Err::<StreamHeader, TransportError>(
                TransportError::SampleRateTooLarge(p.sample_rate_hz),
            ),
            Some(p) => Ok(
                StreamHeader {
                    width: low16(width),
                    height: low16(height),
                    framerate: low16(framerate),
                    codec: Codec::H264,
                    audio_codec: AudioCodec::Opus,
                    audio_sample_rate_hz: p.sample_rate_hz as u16,
                    audio_channels: p.channels,
                    audio_pre_skip: p.pre_skip,
                },
            ),
            None => Ok(
                StreamHeader {
                    width: low16(width),
                    height: low16(height),
                    framerate: low16(framerate),
                    codec: Codec::H264,
                    audio_codec: AudioCodec::NoAudio,
                    audio_sample_rate_hz: 0,
                    audio_channels: 0,
                    audio_pre_skip: 0,
                },
            ),
        },
{
    let (audio_codec, audio_sample_rate_hz, audio_channels, audio_pre_skip) = match audio {
        None => (AudioCodec::NoAudio, 0u16, 0u8, 0u16),
        Some(params) => {
            if params.sample_rate_hz > u16::MAX as u32 {
                return Err(TransportError::SampleRateTooLarge(params.sample_rate_hz));
            }
            (
                AudioCodec::Opus,
                params.sample_rate_hz as u16,
                params.channels,
                params.pre_skip,
            )
        },
    };
    Ok(
        StreamHeader {
            width: low16_of(width),
            height: low16_of(height),
            framerate: low16_of(framerate),
            codec: Codec::H264,
            audio_codec,
            audio_sample_rate_hz,
            audio_channels,
            audio_pre_skip,
        },
    )
}

/// A number below 65536 is kept, and any other is kept modulo 65536.
pub proof fn low16_keeps_small_numbers(n: u32)
    ensures
        n < 65536 ==> low16(n) == n,
        (n - low16(n)) % 65536 == 0,
{
}

} // verus!

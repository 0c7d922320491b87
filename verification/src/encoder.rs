//! Hardware H.264 encoding of captured frames.
//!
//! ```text
//! appsrc  video/x-raw(memory:DMABuf) DMA_DRM XR24:<modifier>
//!   -> vapostproc     XR24 -> NV12, on the GPU
//!   -> vah264enc      CBR, no B-frames, sparse keyframes
//!   -> h264parse      Annex-B, SPS/PPS ahead of every IDR
//!   -> appsink
//! ```
//!
//! An [`Encoder`] holds the pipeline to run and what the frames pushed into it
//! look like; the pipeline itself is run by the caller.

use crate::modifiers::{drm_format, drm_format_text, fourcc_bytes};
use crate::pipeline::{
    check_bus, element_views, first_error, lemma_value_of, BusMessage, Element, ElementView, FieldValue, FieldView,
    Setting, SettingView, Structure, StructureView,
};
use crate::text::{copy_text, lossy_text};
use vstd::prelude::*;
use vstd::slice::slice_to_vec;

verus! {

/// Little-endian `XR24`, DRM's name for 32-bit pixels of blue, green, red and
/// padding.
pub const XR24: u32 = 0x3432_5258;

/// How a stream is to be encoded.
#[derive(Debug)]
pub struct EncoderConfig {
    pub width: u32,
    pub height: u32,
    pub framerate: u32,
    pub bitrate_kbps: u32,
    /// DRM fourcc of the incoming frames.
    pub fourcc: u32,
    /// DRM format modifier of the incoming frames.
    pub modifier: u64,
    /// Distance between keyframes, in frames. USB is lossless, so one at stream
    /// start is enough, and a large value keeps the bitrate flat.
    pub keyframe_interval: u32,
    /// Encoder speed/quality balance, 1 to 7. Latency is not monotonic in this
    /// value: 3 is fast, 4 and above are slow.
    pub target_usage: u32,
    /// `cbr`, `vbr`, or `cqp`.
    pub rate_control: String,
    /// CABAC entropy coding.
    pub cabac: bool,
    /// Slices per frame.
    pub num_slices: u32,
}

/// What an [`EncoderConfig`] stands for.
#[verifier::ext_equal]
pub ghost struct EncoderConfigView {
    pub width: u32,
    pub height: u32,
    pub framerate: u32,
    pub bitrate_kbps: u32,
    pub fourcc: u32,
    pub modifier: u64,
    pub keyframe_interval: u32,
    pub target_usage: u32,
    pub rate_control: Seq<char>,
    pub cabac: bool,
    pub num_slices: u32,
}

impl View for EncoderConfig {
    type V = EncoderConfigView;

    open spec fn view(&self) -> EncoderConfigView {
        EncoderConfigView {
            width: self.width,
            height: self.height,
            framerate: self.framerate,
            bitrate_kbps: self.bitrate_kbps,
            fourcc: self.fourcc,
            modifier: self.modifier,
            keyframe_interval: self.keyframe_interval,
            target_usage: self.target_usage,
            rate_control: self.rate_control@,
            cabac: self.cabac,
            num_slices: self.num_slices,
        }
    }
}

/// How a stream is encoded unless asked otherwise.
pub open spec fn default_encoder() -> EncoderConfigView {
    EncoderConfigView {
        width: 1920,
        height: 1200,
        framerate: 60,
        bitrate_kbps: 20_000,
        fourcc: XR24,
        modifier: 0x0200_0000_0000_0901,
        keyframe_interval: 600,
        target_usage: 3,
        rate_control: "cbr"@,
        cabac: true,
        num_slices: 1,
    }
}

impl Default for EncoderConfig {
    fn default() -> (r: Self)
        ensures
            r@ == default_encoder(),
    {
        EncoderConfig {
            width: 1920,
            height: 1200,
            framerate: 60,
            bitrate_kbps: 20_000,
            fourcc: XR24,
            modifier: 0x0200_0000_0000_0901,
            keyframe_interval: 600,
            target_usage: 3,
            rate_control: copy_text("cbr"),
            cabac: true,
            num_slices: 1,
        }
    }
}

/// One encoded access unit.
#[derive(Debug)]
pub struct EncodedPacket {
    pub data: Vec<u8>,
    /// Presentation timestamp, nanoseconds.
    pub pts_ns: u64,
    pub keyframe: bool,
}

// ---------------------------------------------------------------------------
// The pipeline
// ---------------------------------------------------------------------------

/// An unsigned value in a signed field: values from 2^31 on come out negative,
/// as the same 32 bits.
pub open spec fn as_signed(n: u32) -> i32 {
    if n < 0x8000_0000 {
        n as i32
    } else {
        (n - 0x1_0000_0000) as i32
    }
}

pub fn to_signed(n: u32) -> (r: i32)
    ensures
        r == as_signed(n),
{
    if n < 0x8000_0000 {
        n as i32
    } else {
        (n as i64 - 0x1_0000_0000i64) as i32
    }
}

/// Everything from `vapostproc` onward, which is the same whatever the source:
/// `vapostproc` takes DMA-BUFs and plain buffers alike and makes either into
/// what the encoder wants.
pub open spec fn tail(config: EncoderConfigView) -> Seq<ElementView> {
    seq![
        ElementView::made("vapostproc"@, "vapostproc"@),
        ElementView::made("capsfilter"@, "capsfilter"@).set(
            "caps"@,
            SettingView::Caps(
                StructureView::named("video/x-raw"@).featured("memory:VAMemory"@).field(
                    "format"@,
                    FieldView::Text("NV12"@),
                ),
            ),
        ),
        ElementView::made("vah264enc"@, "vah264enc"@).set(
            "rate-control"@,
            SettingView::Parsed(config.rate_control),
        ).set("bitrate"@, SettingView::Unsigned(config.bitrate_kbps)).set(
            "cpb-size"@,
            SettingView::Unsigned(config.bitrate_kbps / 2),
        ).set("b-frames"@, SettingView::Unsigned(0)).set(
            "ref-frames"@,
            SettingView::Unsigned(1),
        ).set("key-int-max"@, SettingView::Unsigned(config.keyframe_interval)).set(
            "target-usage"@,
            SettingView::Unsigned(config.target_usage),
        ).set("cabac"@, SettingView::Flag(config.cabac)).set(
            "num-slices"@,
            SettingView::Unsigned(config.num_slices),
        ).set("aud"@, SettingView::Flag(true)),
        ElementView::made("h264parse"@, "h264parse"@).set(
            "config-interval"@,
            SettingView::Signed(-1i32),
        ),
        ElementView::made("capsfilter"@, "h264 capsfilter"@).set(
            "caps"@,
            SettingView::Caps(
                StructureView::named("video/x-h264"@).field(
                    "stream-format"@,
                    FieldView::Text("byte-stream"@),
                ).field("alignment"@, FieldView::Text("au"@)),
            ),
        ),
        ElementView::made("appsink"@, "appsink"@).set("sync"@, SettingView::Flag(false)).set(
            "max-buffers"@,
            SettingView::Unsigned(4),
        ).set("drop"@, SettingView::Flag(false)),
    ]
}

/// Append everything from `vapostproc` onward to a pipeline that starts with
/// its source.
fn build_tail(elements: &mut Vec<Element>, config: &EncoderConfig)
    ensures
        element_views(final(elements)@) == element_views(old(elements)@) + tail(config@),
{
    let ghost before = elements@;
    elements.push(Element::made("vapostproc", "vapostproc"));

    let nv12 = Structure::named("video/x-raw").featured("memory:VAMemory").field(
        "format",
        FieldValue::Text(copy_text("NV12")),
    );
    elements.push(Element::made("capsfilter", "capsfilter").set("caps", Setting::Caps(nv12)));

    // A tight coded-picture buffer forces bits to be spread evenly, which keeps
    // keyframe spikes bounded.
    elements.push(
        Element::made("vah264enc", "vah264enc").set(
            "rate-control",
            Setting::Parsed(copy_text(config.rate_control.as_str())),
        ).set("bitrate", Setting::Unsigned(config.bitrate_kbps)).set(
            "cpb-size",
            Setting::Unsigned(config.bitrate_kbps / 2),
        ).set("b-frames", Setting::Unsigned(0)).set("ref-frames", Setting::Unsigned(1)).set(
            "key-int-max",
            Setting::Unsigned(config.keyframe_interval),
        ).set("target-usage", Setting::Unsigned(config.target_usage)).set(
            "cabac",
            Setting::Flag(config.cabac),
        ).set("num-slices", Setting::Unsigned(config.num_slices)).set("aud", Setting::Flag(true)),
    );

    // -1 repeats SPS/PPS before every keyframe, so the decoder can configure
    // itself from the stream alone.
    elements.push(
        Element::made("h264parse", "h264parse").set("config-interval", Setting::Signed(-1)),
    );

    let parsed = Structure::named("video/x-h264").field(
        "stream-format",
        FieldValue::Text(copy_text("byte-stream")),
    ).field("alignment", FieldValue::Text(copy_text("au")));
    elements.push(
        Element::made("capsfilter", "h264 capsfilter").set("caps", Setting::Caps(parsed)),
    );

    elements.push(
        Element::made("appsink", "appsink").set("sync", Setting::Flag(false)).set(
            "max-buffers",
            Setting::Unsigned(4),
        ).set("drop", Setting::Flag(false)),
    );
    assert(element_views(elements@) =~= element_views(before) + tail(config@));
}

/// The size and rate fields of a source's caps.
pub open spec fn sized(caps: StructureView, config: EncoderConfigView) -> StructureView {
    caps.field("width"@, FieldView::Signed(as_signed(config.width))).field(
        "height"@,
        FieldView::Signed(as_signed(config.height)),
    ).field("framerate"@, FieldView::Fraction(as_signed(config.framerate), 1))
}

/// The caps of DMA-BUF frames, which carry the tiling in `drm-format`.
pub open spec fn dmabuf_caps(config: EncoderConfigView) -> StructureView {
    sized(
        StructureView::named("video/x-raw"@).featured("memory:DMABuf"@).field(
            "format"@,
            FieldView::Text("DMA_DRM"@),
        ).field(
            "drm-format"@,
            FieldView::Text(
                drm_format_text(lossy_text(fourcc_bytes(config.fourcc)), config.modifier),
            ),
        ),
        config,
    )
}

/// The caps of frames in plain memory. `BGRx` is what raw video calls XR24.
pub open spec fn cpu_caps(config: EncoderConfigView) -> StructureView {
    sized(StructureView::named("video/x-raw"@).field("format"@, FieldView::Text("BGRx"@)), config)
}

/// The source of a pipeline. It queues one frame at most, as a stale frame is
/// worse than a dropped one.
pub open spec fn source(caps: StructureView) -> ElementView {
    ElementView::made("appsrc"@, "appsrc"@).set("caps"@, SettingView::Caps(caps)).set(
        "format"@,
        SettingView::Parsed("time"@),
    ).set("is-live"@, SettingView::Flag(true)).set("max-buffers"@, SettingView::Wide(1)).set(
        "leaky-type"@,
        SettingView::Parsed("downstream"@),
    )
}

fn with_size(caps: Structure, config: &EncoderConfig) -> (r: Structure)
    ensures
        r@ == sized(caps@, config@),
{
    caps.field("width", FieldValue::Signed(to_signed(config.width))).field(
        "height",
        FieldValue::Signed(to_signed(config.height)),
    ).field("framerate", FieldValue::Fraction(to_signed(config.framerate), 1))
}

fn build_source(caps: Structure) -> (r: Element)
    ensures
        r@ == source(caps@),
{
    Element::made("appsrc", "appsrc").set("caps", Setting::Caps(caps)).set(
        "format",
        Setting::Parsed(copy_text("time")),
    ).set("is-live", Setting::Flag(true)).set("max-buffers", Setting::Wide(1)).set(
        "leaky-type",
        Setting::Parsed(copy_text("downstream")),
    )
}

// ---------------------------------------------------------------------------
// The encoder
// ---------------------------------------------------------------------------

/// Why a frame could not be submitted or a packet not be taken.
#[derive(Debug)]
pub enum EncoderError {
    /// The encoder takes frames in plain memory only.
    NotDmabuf,
    /// The pipeline handed over a sample without a buffer.
    NoBuffer,
    /// The encoded buffer could not be read.
    Unmappable,
    /// The pipeline broke.
    Pipeline(String),
}

impl EncoderError {
    /// The text that tells a person what went wrong.
    pub open spec fn message(self) -> Seq<char> {
        match self {
            EncoderError::NotDmabuf => "push_frame called on an encoder built with new_cpu"@,
            EncoderError::NoBuffer => "sample carried no buffer"@,
            EncoderError::Unmappable => "mapping encoded buffer"@,
            EncoderError::Pipeline(text) => text@,
        }
    }

    pub fn to_string(&self) -> (r: String)
        ensures
            r@ == self.message(),
    {
        match self {
            EncoderError::NotDmabuf => copy_text(
                "push_frame called on an encoder built with new_cpu",
            ),
            EncoderError::NoBuffer => copy_text("sample carried no buffer"),
            EncoderError::Unmappable => copy_text("mapping encoded buffer"),
            EncoderError::Pipeline(text) => copy_text(text.as_str()),
        }
    }
}

/// The pixel format that a submitted frame is labelled with.
#[derive(Debug, Clone, Copy, PartialEq, Eq, Structural)]
pub enum PixelFormat {
    DmaDrm,
    Bgrx,
}

/// Whether a frame of this size has a size in bytes that fits in memory.
pub fn frame_size_fits(width: u32, height: u32) -> (r: bool)
    ensures
        r == (width * height * 4 <= usize::MAX),
{
    assert(0 <= width * height <= 0xffff_ffff * 0xffff_ffff) by (nonlinear_arith)
        requires
            0 <= width <= 0xffff_ffff,
            0 <= height <= 0xffff_ffff,
    ;
    (width as u128) * (height as u128) * 4 <= usize::MAX as u128
}

/// How a submitted frame lies in its memory, and when it is to be shown.
#[derive(Debug, Clone, Copy, PartialEq, Eq, Structural)]
pub struct FrameLayout {
    pub format: PixelFormat,
    pub width: u32,
    pub height: u32,
    pub offset: usize,
    pub stride: i32,
    pub pts_ns: u64,
}

/// What came out of the pipeline when a packet was asked for.
pub enum Pulled {
    /// Nothing in time; these messages were waiting on the bus.
    Nothing(Vec<BusMessage>),
    /// A sample without a buffer.
    NoBuffer,
    /// A buffer that could not be read.
    Unmappable,
    /// An encoded buffer. `delta_unit` is set where it depends on others.
    Buffer { data: Vec<u8>, pts_ns: Option<u64>, delta_unit: bool },
}

pub struct Encoder {
    elements: Vec<Element>,
    dmabuf: bool,
    frame_size: usize,
    width: u32,
    height: u32,
}

impl Encoder {
    /// The pipeline to run.
    pub closed spec fn pipeline(self) -> Seq<ElementView> {
        element_views(self.elements@)
    }

    /// Whether DMA-BUFs can be pushed.
    pub closed spec fn takes_dmabuf(self) -> bool {
        self.dmabuf
    }

    /// The upper bound of the size of a frame, in bytes.
    pub closed spec fn size(self) -> nat {
        self.frame_size as nat
    }

    pub closed spec fn dimensions(self) -> (u32, u32) {
        (self.width, self.height)
    }

    /// An encoder of DMA-BUFs. The frames stay on the GPU from here to the
    /// bitstream.
    pub fn new(config: &EncoderConfig) -> (r: Self)
        requires
            config.width * config.height * 4 <= usize::MAX,
        ensures
            r.pipeline() == seq![source(dmabuf_caps(config@))] + tail(config@),
            r.takes_dmabuf(),
            r.size() == config.width * config.height * 4,
            r.dimensions() == (config.width, config.height),
            announces_frames(
                r.pipeline(),
                r.dimensions().0 as int,
                r.dimensions().1 as int,
                config.framerate as int,
            ),
            encodes_as_asked(r.pipeline(), config@),
    {
        proof {
            sources_announce_their_frames(config@);
            encoding_follows_the_config(config@, source(dmabuf_caps(config@)));
        }
        let caps = Structure::named("video/x-raw").featured("memory:DMABuf").field(
            "format",
            FieldValue::Text(copy_text("DMA_DRM")),
        ).field("drm-format", FieldValue::Text(drm_format(config.fourcc, config.modifier)));
        Self::build(with_size(caps, config), true, config)
    }

    /// The same encoder for frames in plain memory. `vapostproc` uploads them
    /// itself, so only the source differs.
    pub fn new_cpu(config: &EncoderConfig) -> (r: Self)
        requires
            config.width * config.height * 4 <= usize::MAX,
        ensures
            r.pipeline() == seq![source(cpu_caps(config@))] + tail(config@),
            !r.takes_dmabuf(),
            r.size() == config.width * config.height * 4,
            r.dimensions() == (config.width, config.height),
            announces_frames(
                r.pipeline(),
                r.dimensions().0 as int,
                r.dimensions().1 as int,
                config.framerate as int,
            ),
            encodes_as_asked(r.pipeline(), config@),
    {
        proof {
            sources_announce_their_frames(config@);
            encoding_follows_the_config(config@, source(cpu_caps(config@)));
        }
        let caps = Structure::named("video/x-raw").field(
            "format",
            FieldValue::Text(copy_text("BGRx")),
        );
        Self::build(with_size(caps, config), false, config)
    }

    fn build(caps: Structure, dmabuf: bool, config: &EncoderConfig) -> (r: Self)
        requires
            config.width * config.height * 4 <= usize::MAX,
        ensures
            r.pipeline() == seq![source(caps@)] + tail(config@),
            r.takes_dmabuf() == dmabuf,
            r.size() == config.width * config.height * 4,
            r.dimensions() == (config.width, config.height),
    {
        let mut elements: Vec<Element> = Vec::new();
        elements.push(build_source(caps));
        assert(element_views(elements@) =~= seq![source(caps@)]);
        build_tail(&mut elements, config);
        assert(config.width * config.height >= 0) by (nonlinear_arith);
        Encoder {
            elements,
            dmabuf,
            // The kernel clamps the mapping to the real size, and tiled layouts
            // are never larger than this.
            frame_size: (config.width as usize) * (config.height as usize) * 4,
            width: config.width,
            height: config.height,
        }
    }

    /// The elements of the pipeline, in the order in which they are linked.
    pub fn elements(&self) -> (r: &Vec<Element>)
        ensures
            element_views(r@) == self.pipeline(),
    {
        &self.elements
    }

    /// The upper bound of the size of a frame, in bytes.
    pub fn frame_size(&self) -> (r: usize)
        ensures
            r == self.size(),
    {
        self.frame_size
    }

    /// Submit a captured DMA-BUF: what its buffer is to be labelled with.
    pub fn push_frame(&self, offset: u32, stride: u32, pts_ns: u64) -> (r: Result<
        FrameLayout,
        EncoderError,
    >)
        ensures
            match r {
                Ok(layout) => self.takes_dmabuf() && layout == (FrameLayout {
                    format: PixelFormat::DmaDrm,
                    width: self.dimensions().0,
                    height: self.dimensions().1,
                    offset: offset as usize,
                    stride: as_signed(stride),
                    pts_ns,
                }),
                Err(e) => !self.takes_dmabuf() && e is NotDmabuf,
            },
    {
        if !self.dmabuf {
            return Err(EncoderError::NotDmabuf);
        }
        Ok(
            FrameLayout {
                format: PixelFormat::DmaDrm,
                width: self.width,
                height: self.height,
                offset: offset as usize,
                stride: to_signed(stride),
                pts_ns,
            },
        )
    }

    /// Submit a captured frame that exists as bytes in plain memory: a copy of
    /// the bytes, since the caller's are only valid until the next capture, and
    /// what their buffer is to be labelled with.
    pub fn push_frame_bytes(&self, bytes: &[u8], stride: u32, pts_ns: u64) -> (r: (
        Vec<u8>,
        FrameLayout,
    ))
        ensures
            r.0@ == bytes@,
            r.1 == (FrameLayout {
                format: PixelFormat::Bgrx,
                width: self.dimensions().0,
                height: self.dimensions().1,
                offset: 0,
                stride: as_signed(stride),
                pts_ns,
            }),
    {
        (
            slice_to_vec(bytes),
            FrameLayout {
                format: PixelFormat::Bgrx,
                width: self.width,
                height: self.height,
                offset: 0,
                stride: to_signed(stride),
                pts_ns,
            },
        )
    }

    /// Take the next encoded access unit out of what the pipeline gave. An
    /// access unit that depends on no other is a keyframe.
    pub fn pull_packet(&self, pulled: Pulled) -> (r: Result<Option<EncodedPacket>, EncoderError>)
        ensures
            match pulled {
                Pulled::Nothing(messages) => match first_error(messages@) {
                    None => r is Ok && r->Ok_0 is None,
                    Some(text) => r is Err && r->Err_0 is Pipeline && r->Err_0.message() == text,
                },
                Pulled::NoBuffer => r is Err && r->Err_0 is NoBuffer,
                Pulled::Unmappable => r is Err && r->Err_0 is Unmappable,
                Pulled::Buffer { data, pts_ns, delta_unit } => {
                    &&& r matches Ok(Some(packet))
                    &&& packet.data@ == data@
                    &&& packet.pts_ns == (match pts_ns {
                        Some(t) => t,
                        None => 0,
                    })
                    &&& packet.keyframe == !delta_unit
                },
            },
    {
        match pulled {
            Pulled::Nothing(messages) => match check_bus(&messages) {
                Ok(_) => Ok(None),
                Err(text) => Err(EncoderError::Pipeline(text)),
            },
            Pulled::NoBuffer => Err(EncoderError::NoBuffer),
            Pulled::Unmappable => Err(EncoderError::Unmappable),
            Pulled::Buffer { data, pts_ns, delta_unit } => Ok(
                Some(
                    EncodedPacket {
                        data,
                        pts_ns: match pts_ns {
                            Some(t) => t,
                            None => 0,
                        },
                        keyframe: !delta_unit,
                    },
                ),
            ),
        }
    }
}

/// The two kinds of encoder differ in their source alone.
pub proof fn encoders_share_their_tail(config: EncoderConfigView, dmabuf: Encoder, cpu: Encoder)
    requires
        dmabuf.pipeline() == seq![source(dmabuf_caps(config))] + tail(config),
        cpu.pipeline() == seq![source(cpu_caps(config))] + tail(config),
    ensures
        dmabuf.pipeline().skip(1) == cpu.pipeline().skip(1),
        dmabuf.pipeline().len() == 7,
{
    assert(dmabuf.pipeline().skip(1) =~= tail(config));
    assert(cpu.pipeline().skip(1) =~= tail(config));
}

/// A value below 2^31 comes out of a signed field as it is, and any other as the
/// number with the same 32 bits.
pub proof fn signed_keeps_the_bits(n: u32)
    ensures
        n <= i32::MAX ==> as_signed(n) == n,
        (as_signed(n) - n) % 0x1_0000_0000 == 0,
{
}

/// What the caps that a source is set to say under a name.
pub open spec fn source_field(pipeline: Seq<ElementView>, name: Seq<char>) -> Option<FieldView> {
    match pipeline[0].setting("caps"@) {
        Some(SettingView::Caps(caps)) => caps.value(name),
        _ => None,
    }
}

/// Whether the pipeline of an encoder is told what its frames look like: their
/// size, as every pushed frame is labelled with it, and their rate.
pub open spec fn announces_frames(
    pipeline: Seq<ElementView>,
    width: int,
    height: int,
    framerate: int,
) -> bool {
    &&& pipeline.len() > 0
    &&& pipeline[0].factory == "appsrc"@
    &&& source_field(pipeline, "width"@) matches Some(FieldView::Signed(w)) && (w - width)
        % 0x1_0000_0000 == 0
    &&& source_field(pipeline, "height"@) matches Some(FieldView::Signed(h)) && (h - height)
        % 0x1_0000_0000 == 0
    &&& source_field(pipeline, "framerate"@) matches Some(FieldView::Fraction(n, d)) && d == 1
        && (n - framerate) % 0x1_0000_0000 == 0
}

/// Whether the pipeline of an encoder encodes as asked: at this bitrate, with a
/// buffer of half a second of it, with keyframes this far apart and none of the
/// frames waiting for a later one, and with these further settings.
pub open spec fn encodes_as_asked(pipeline: Seq<ElementView>, config: EncoderConfigView) -> bool {
    let encoder = pipeline[3];
    &&& pipeline.len() == 7
    &&& encoder.factory == "vah264enc"@
    &&& encoder.setting("rate-control"@) == Some(SettingView::Parsed(config.rate_control))
    &&& encoder.setting("bitrate"@) == Some(SettingView::Unsigned(config.bitrate_kbps))
    &&& encoder.setting("cpb-size"@) matches Some(SettingView::Unsigned(size)) && 2 * size
        <= config.bitrate_kbps <= 2 * size + 1
    &&& encoder.setting("b-frames"@) == Some(SettingView::Unsigned(0))
    &&& encoder.setting("ref-frames"@) == Some(SettingView::Unsigned(1))
    &&& encoder.setting("key-int-max"@) == Some(SettingView::Unsigned(config.keyframe_interval))
    &&& encoder.setting("target-usage"@) == Some(SettingView::Unsigned(config.target_usage))
    &&& encoder.setting("cabac"@) == Some(SettingView::Flag(config.cabac))
    &&& encoder.setting("num-slices"@) == Some(SettingView::Unsigned(config.num_slices))
    &&& encoder.setting("aud"@) == Some(SettingView::Flag(true))
}

/// Whether what comes out of a pipeline is what a decoder on the other side can
/// start with: whole access units of a byte stream, with the parameter sets ahead
/// of every keyframe, and none of them dropped.
pub open spec fn hands_out_access_units(pipeline: Seq<ElementView>) -> bool {
    &&& pipeline.len() == 7
    &&& pipeline[4].factory == "h264parse"@
    &&& pipeline[4].setting("config-interval"@) == Some(SettingView::Signed(-1i32))
    &&& pipeline[5].factory == "capsfilter"@
    &&& pipeline[5].setting("caps"@) matches Some(SettingView::Caps(caps)) && {
        &&& caps.name == "video/x-h264"@
        &&& caps.value("stream-format"@) == Some(FieldView::Text("byte-stream"@))
        &&& caps.value("alignment"@) == Some(FieldView::Text("au"@))
    }
    &&& pipeline[6].factory == "appsink"@
    &&& pipeline[6].setting("drop"@) == Some(SettingView::Flag(false))
    &&& pipeline[6].setting("sync"@) == Some(SettingView::Flag(false))
    &&& pipeline[6].setting("max-buffers"@) == Some(SettingView::Unsigned(4))
}

/// Whether the source of a pipeline is live and lets go of a stale frame rather
/// than queue it, and the frames are converted on the GPU to what the encoder
/// takes.
pub open spec fn feeds_the_encoder(pipeline: Seq<ElementView>) -> bool {
    &&& pipeline.len() == 7
    &&& pipeline[0].setting("format"@) == Some(SettingView::Parsed("time"@))
    &&& pipeline[0].setting("is-live"@) == Some(SettingView::Flag(true))
    &&& pipeline[0].setting("max-buffers"@) == Some(SettingView::Wide(1))
    &&& pipeline[0].setting("leaky-type"@) == Some(SettingView::Parsed("downstream"@))
    &&& pipeline[1].factory == "vapostproc"@
    &&& pipeline[2].factory == "capsfilter"@
    &&& pipeline[2].setting("caps"@) matches Some(SettingView::Caps(caps)) && {
        &&& caps.name == "video/x-raw"@
        &&& caps.feature == Some("memory:VAMemory"@)
        &&& caps.value("format"@) == Some(FieldView::Text("NV12"@))
    }
}

/// The source of either kind of encoder announces the size and the rate that its
/// frames have, whatever they are. Of DMA-BUFs it also announces the fourcc and the
/// modifier, of other frames that they are in plain memory.
pub proof fn sources_announce_their_frames(config: EncoderConfigView)
    ensures
        ({
            let dmabuf = seq![source(dmabuf_caps(config))] + tail(config);
            let cpu = seq![source(cpu_caps(config))] + tail(config);
            &&& announces_frames(
                dmabuf,
                config.width as int,
                config.height as int,
                config.framerate as int,
            )
            &&& announces_frames(
                cpu,
                config.width as int,
                config.height as int,
                config.framerate as int,
            )
            &&& source_field(dmabuf, "format"@) == Some(FieldView::Text("DMA_DRM"@))
            &&& source_field(dmabuf, "drm-format"@) == Some(
                FieldView::Text(
                    drm_format_text(lossy_text(fourcc_bytes(config.fourcc)), config.modifier),
                ),
            )
            &&& source_field(cpu, "format"@) == Some(FieldView::Text("BGRx"@))
            &&& source_field(cpu, "drm-format"@) is None
            &&& feeds_the_encoder(dmabuf) && feeds_the_encoder(cpu)
        }),
{
    lemma_value_of::<FieldView>();
    lemma_value_of::<SettingView>();
    reveal_strlit("width");
    assert("width"@.len() == 5);
    reveal_strlit("height");
    assert("height"@.len() == 6);
    reveal_strlit("framerate");
    assert("framerate"@.len() == 9);
    reveal_strlit("format");
    assert("format"@.len() == 6);
    reveal_strlit("drm-format");
    assert("drm-format"@.len() == 10);
    reveal_strlit("caps");
    assert("caps"@.len() == 4);
    reveal_strlit("is-live");
    assert("is-live"@.len() == 7);
    reveal_strlit("max-buffers");
    assert("max-buffers"@.len() == 11);
    reveal_strlit("leaky-type");
    assert("leaky-type"@.len() == 10);
    assert("height"@[0] != "format"@[0]);
    assert("drm-format"@[0] != "leaky-type"@[0]);
    signed_keeps_the_bits(config.width);
    signed_keeps_the_bits(config.height);
    signed_keeps_the_bits(config.framerate);
}

/// Either kind of encoder encodes as its configuration asks, value by value, and
/// hands out access units that a decoder can start with.
pub proof fn encoding_follows_the_config(config: EncoderConfigView, source: ElementView)
    ensures
        encodes_as_asked(seq![source] + tail(config), config),
        hands_out_access_units(seq![source] + tail(config)),
{
    lemma_value_of::<FieldView>();
    lemma_value_of::<SettingView>();
    reveal_strlit("rate-control");
    assert("rate-control"@.len() == 12);
    reveal_strlit("bitrate");
    assert("bitrate"@.len() == 7);
    reveal_strlit("cpb-size");
    assert("cpb-size"@.len() == 8);
    reveal_strlit("b-frames");
    assert("b-frames"@.len() == 8);
    reveal_strlit("ref-frames");
    assert("ref-frames"@.len() == 10);
    reveal_strlit("key-int-max");
    assert("key-int-max"@.len() == 11);
    reveal_strlit("target-usage");
    assert("target-usage"@.len() == 12);
    reveal_strlit("cabac");
    assert("cabac"@.len() == 5);
    reveal_strlit("num-slices");
    assert("num-slices"@.len() == 10);
    reveal_strlit("aud");
    assert("aud"@.len() == 3);
    reveal_strlit("stream-format");
    assert("stream-format"@.len() == 13);
    reveal_strlit("alignment");
    assert("alignment"@.len() == 9);
    reveal_strlit("sync");
    assert("sync"@.len() == 4);
    reveal_strlit("drop");
    assert("drop"@.len() == 4);
    reveal_strlit("max-buffers");
    assert("max-buffers"@.len() == 11);
    assert("rate-control"@[0] != "target-usage"@[0]);
    assert("cpb-size"@[0] != "b-frames"@[0]);
    assert("ref-frames"@[0] != "num-slices"@[0]);
    assert("sync"@[0] != "drop"@[0]);
    let pipeline = seq![source] + tail(config);
    assert(pipeline[3] == tail(config)[2]);
    assert(pipeline[4] == tail(config)[3]);
    assert(pipeline[5] == tail(config)[4]);
    assert(pipeline[6] == tail(config)[5]);
}

} // verus!

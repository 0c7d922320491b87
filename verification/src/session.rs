//! One streaming session: virtual output, capture, encoder, USB, tablet.

use crate::audio::{AudioConfigView, AudioEncoderConfig};
use crate::encoder::{
    announces_frames, as_signed, cpu_caps, default_encoder, dmabuf_caps, encodes_as_asked, source,
    tail, Encoder, EncoderConfig, EncoderConfigView, EncoderError, FrameLayout, PixelFormat,
};
use crate::evdi::{EvdiError, EvdiOutput, Update};
use crate::protocol::{
    read_stream_header, stream_header_bytes, stream_header_reads_back, AudioCodec, Codec,
    ProtocolError, StreamHeader, SOCKET_NAME,
};
use crate::text::{contains, contains_text, copy_text};
use crate::transport::{low16, stream_header, AudioParams, TransportError};
use vstd::prelude::*;

verus! {

/// The Android package of the display app.
pub const APP_PACKAGE: &'static str = "com.padplay.display";

/// The activity that shows the display.
pub const APP_ACTIVITY: &'static str = "com.padplay.display/.DisplayActivity";

/// libopus's pre-skip at 48 kHz, in samples. It follows from the sample rate
/// alone.
pub const OPUS_PRE_SKIP: u16 = 312;

pub const AUDIO_SAMPLE_RATE: u32 = 48_000;

pub const AUDIO_CHANNELS: u32 = 2;

pub const AUDIO_BITRATE_BPS: u32 = 128_000;

pub const AUDIO_FRAME_SIZE_MS: u32 = 20;

/// How a session is to be run.
#[derive(Debug, Clone)]
pub struct Config {
    /// Explicit resolution. `None` matches the device's own panel aspect ratio.
    pub resolution: Option<(u32, u32)>,
    /// Cap on the auto-detected width, to keep encoder load sane.
    pub max_width: u32,
    pub fps: u32,
    pub bitrate_kbps: u32,
    pub position_x: i32,
    pub position_y: i32,
    /// Output scale with six decimals, applied where the output is placed by us.
    pub scale: String,
    pub output_name: String,
    /// Composite the mouse cursor into the streamed frames.
    pub paint_cursor: bool,
    /// Emit round-trip latency statistics on exit.
    pub stats: bool,
    /// Capture and stream the host's audio. On unless switched off: this acts
    /// like a real monitor, and a monitor's speaker is not opt-in.
    pub audio_enabled: bool,
}

/// What a [`Config`] stands for.
#[verifier::ext_equal]
pub ghost struct ConfigView {
    pub resolution: Option<(u32, u32)>,
    pub max_width: u32,
    pub fps: u32,
    pub bitrate_kbps: u32,
    pub position_x: i32,
    pub position_y: i32,
    pub scale: Seq<char>,
    pub output_name: Seq<char>,
    pub paint_cursor: bool,
    pub stats: bool,
    pub audio_enabled: bool,
}

impl View for Config {
    type V = ConfigView;

    open spec fn view(&self) -> ConfigView {
        ConfigView {
            resolution: self.resolution,
            max_width: self.max_width,
            fps: self.fps,
            bitrate_kbps: self.bitrate_kbps,
            position_x: self.position_x,
            position_y: self.position_y,
            scale: self.scale@,
            output_name: self.output_name@,
            paint_cursor: self.paint_cursor,
            stats: self.stats,
            audio_enabled: self.audio_enabled,
        }
    }
}

/// The defaults, for an output by this name.
pub open spec fn default_config(output_name: Seq<char>) -> ConfigView {
    ConfigView {
        resolution: None,
        max_width: 1920,
        fps: 90,
        bitrate_kbps: 20_000,
        position_x: -1536i32,
        position_y: 0,
        scale: "1.250000"@,
        output_name,
        paint_cursor: false,
        stats: false,
        audio_enabled: true,
    }
}

impl Config {
    /// The defaults, for an output by this name.
    ///
    /// The position is in logical pixels: an output of 1920 pixels at scale 1.25
    /// is 1536 wide, so this one ends where a monitor at 0 begins.
    pub fn for_output(output_name: String) -> (r: Config)
        ensures
            r@ == default_config(output_name@),
    {
        Config {
            resolution: None,
            max_width: 1920,
            fps: 90,
            bitrate_kbps: 20_000,
            position_x: -1536,
            position_y: 0,
            scale: copy_text("1.250000"),
            output_name,
            paint_cursor: false,
            stats: false,
            audio_enabled: true,
        }
    }
}

// ---------------------------------------------------------------------------
// The app on the tablet
// ---------------------------------------------------------------------------

/// What the tablet is asked to find out whether the app is installed.
pub fn package_query() -> (r: String)
    ensures
        r@ == "pm list packages "@ + APP_PACKAGE@,
{
    let mut r = copy_text("pm list packages ");
    r.append(APP_PACKAGE);
    r
}

/// Whether the app is installed, by what the tablet answered.
pub fn app_installed(packages: &str) -> (r: bool)
    ensures
        r == contains_text(packages@, APP_PACKAGE@),
{
    contains(packages, APP_PACKAGE)
}

/// What is said when the app is not installed.
pub const NOT_INSTALLED: &'static str =
    "app not installed on the tablet.\nBuild it with `cd android && ANDROID_HOME=/opt/android-sdk ./gradlew assembleRelease`,\nthen `adb install -r android/app/build/outputs/apk/release/app-release.apk`.";

/// The socket on the tablet that a local port is forwarded to.
pub fn forward_target() -> (r: String)
    ensures
        r@ == "localabstract:"@ + SOCKET_NAME@,
{
    let mut r = copy_text("localabstract:");
    r.append(SOCKET_NAME);
    r
}

/// A command for the tablet's shell, whether the session fails where it fails,
/// and how long to wait after it, in milliseconds.
pub struct LaunchStep {
    pub shell: String,
    pub must_succeed: bool,
    pub wait_ms: u64,
}

/// The steps that bring the app to the foreground. The tablet is woken first: on
/// a dark screen the app would start without ever becoming visible. The app is
/// not stopped before, as it keeps its socket open from session to session.
pub fn launch_steps() -> (r: Vec<LaunchStep>)
    ensures
        r@.len() == 3,
        r@[0].shell@ == "input keyevent KEYCODE_WAKEUP"@,
        !r@[0].must_succeed,
        r@[0].wait_ms == 0,
        r@[1].shell@ == "wm dismiss-keyguard"@,
        !r@[1].must_succeed,
        r@[1].wait_ms == 400,
        r@[2].shell@ == "am start -n "@ + APP_ACTIVITY@,
        r@[2].must_succeed,
        r@[2].wait_ms == 2500,
{
    let mut start = copy_text("am start -n ");
    start.append(APP_ACTIVITY);
    let mut r: Vec<LaunchStep> = Vec::new();
    r.push(
        LaunchStep {
            shell: copy_text("input keyevent KEYCODE_WAKEUP"),
            must_succeed: false,
            wait_ms: 0,
        },
    );
    r.push(
        LaunchStep { shell: copy_text("wm dismiss-keyguard"), must_succeed: false, wait_ms: 400 },
    );
    r.push(LaunchStep { shell: start, must_succeed: true, wait_ms: 2500 });
    r
}

// ---------------------------------------------------------------------------
// Frames
// ---------------------------------------------------------------------------

/// The size to stream for a panel of this size: the panel's own, made smaller in
/// proportion where it is wider than the cap.
pub open spec fn fitted(panel: (u32, u32), max_width: u32) -> (u32, u32) {
    if panel.0 <= max_width {
        panel
    } else {
        (max_width, (panel.1 * max_width / (panel.0 as int)) as u32)
    }
}

pub fn fit_panel(panel: (u32, u32), max_width: u32) -> (r: (u32, u32))
    ensures
        r == fitted(panel, max_width),
        r.0 <= max_width,
        r.0 <= panel.0,
        r.1 <= panel.1,
{
    if panel.0 <= max_width {
        return panel;
    }
    let w = panel.0 as u64;
    let h = panel.1 as u64;
    let cap = max_width as u64;
    assert(0 <= h * cap <= 0xffff_ffff * 0xffff_ffff) by (nonlinear_arith)
        requires
            0 <= h <= 0xffff_ffff,
            0 <= cap <= 0xffff_ffff,
    ;
    assert(0 <= (h * cap) / (w as int) <= h) by (nonlinear_arith)
        requires
            0 <= h,
            0 <= cap < w,
    ;
    (max_width, (h * cap / w) as u32)
}

/// How the frames of a source are encoded in a session.
pub open spec fn encoder_settings(frames: FrameSource, config: ConfigView) -> EncoderConfigView {
    let common = EncoderConfigView {
        width: frames.size().0,
        height: frames.size().1,
        framerate: config.fps,
        bitrate_kbps: config.bitrate_kbps,
        ..default_encoder()
    };
    match frames {
        FrameSource::Wayland { format, modifier, .. } => EncoderConfigView {
            fourcc: format,
            modifier: match modifier {
                Some(m) => m,
                None => 0,
            },
            ..common
        },
        FrameSource::Evdi { .. } => common,
    }
}

/// Where captured frames come from: a capture protocol that hands out DMA-BUFs of
/// some format and modifier, or a device that hands out bytes.
#[derive(Debug, Clone, Copy, PartialEq, Eq, Structural)]
pub enum FrameSource {
    Wayland { width: u32, height: u32, format: u32, modifier: Option<u64> },
    Evdi { width: u32, height: u32 },
}

impl FrameSource {
    /// The size of the frames.
    pub open spec fn size(self) -> (u32, u32) {
        match self {
            FrameSource::Wayland { width, height, .. } => (width, height),
            FrameSource::Evdi { width, height } => (width, height),
        }
    }

    pub fn width(&self) -> (r: u32)
        ensures
            r == self.size().0,
    {
        match *self {
            FrameSource::Wayland { width, .. } => width,
            FrameSource::Evdi { width, .. } => width,
        }
    }

    pub fn height(&self) -> (r: u32)
        ensures
            r == self.size().1,
    {
        match *self {
            FrameSource::Wayland { height, .. } => height,
            FrameSource::Evdi { height, .. } => height,
        }
    }

    /// How to encode these frames. The bytes of a device have a fixed format and
    /// nothing to negotiate.
    pub fn encoder_config(&self, config: &Config) -> (r: EncoderConfig)
        ensures
            r@ == encoder_settings(*self, config@),
            r.framerate == config.fps,
            r.bitrate_kbps == config.bitrate_kbps,
            match *self {
                FrameSource::Wayland { width, height, format, modifier } => {
                    &&& r.width == width
                    &&& r.height == height
                    &&& r.fourcc == format
                    &&& modifier matches Some(m) ==> r.modifier == m
                    &&& modifier is None ==> r.modifier == 0
                },
                FrameSource::Evdi { width, height } => r.width == width && r.height == height,
            },
    {
        let mut r = EncoderConfig::default();
        r.width = self.width();
        r.height = self.height();
        r.framerate = config.fps;
        r.bitrate_kbps = config.bitrate_kbps;
        if let FrameSource::Wayland { format, modifier, .. } = *self {
            r.fourcc = format;
            r.modifier = match modifier {
                Some(m) => m,
                None => 0,
            };
        }
        r
    }
}

/// The encoder for a source, which takes what the source hands out: DMA-BUFs as
/// they are, or bytes.
pub fn build_encoder(frames: &FrameSource, config: &EncoderConfig) -> (r: Encoder)
    requires
        config.width * config.height * 4 <= usize::MAX,
    ensures
        r.takes_dmabuf() == (frames is Wayland),
        r.pipeline() == seq![
            source(
                if frames is Wayland {
                    dmabuf_caps(config@)
                } else {
                    cpu_caps(config@)
                },
            ),
        ] + tail(config@),
        r.size() == config.width * config.height * 4,
        r.dimensions() == (config.width, config.height),
        announces_frames(
            r.pipeline(),
            r.dimensions().0 as int,
            r.dimensions().1 as int,
            config.framerate as int,
        ),
        encodes_as_asked(r.pipeline(), config@),
{
    match frames {
        FrameSource::Wayland { .. } => Encoder::new(config),
        FrameSource::Evdi { .. } => Encoder::new_cpu(config),
    }
}

/// Why a captured frame could not be pushed into the encoder.
#[derive(Debug)]
pub enum CaptureError {
    /// The capture produced no DMA-BUF.
    NoDmabuf,
    Encoder(EncoderError),
    Evdi(EvdiError),
}

impl CaptureError {
    /// The text that tells a person what went wrong.
    pub open spec fn message(self) -> Seq<char> {
        match self {
            CaptureError::NoDmabuf => "capture produced no DMA-BUF"@,
            CaptureError::Encoder(e) => e.message(),
            CaptureError::Evdi(e) => e.message(),
        }
    }

    pub fn to_string(&self) -> (r: String)
        ensures
            r@ == self.message(),
    {
        match self {
            CaptureError::NoDmabuf => copy_text("capture produced no DMA-BUF"),
            CaptureError::Encoder(e) => e.to_string(),
            CaptureError::Evdi(e) => e.to_string(),
        }
    }
}

/// Where a DMA-BUF's pixels begin, and the bytes from one row to the next.
#[derive(Debug, Clone, Copy, PartialEq, Eq, Structural)]
pub struct Plane {
    pub offset: u32,
    pub stride: u32,
}

/// Push a captured DMA-BUF, of which this is the first plane.
pub fn push_dmabuf(encoder: &Encoder, plane: Option<Plane>, pts_ns: u64) -> (r: Result<
    FrameLayout,
    CaptureError,
>)
    ensures
        match (plane, r) {
            (None, Err(CaptureError::NoDmabuf)) => true,
            (Some(_), Err(CaptureError::Encoder(EncoderError::NotDmabuf))) =>
                !encoder.takes_dmabuf(),
            (Some(p), Ok(layout)) => encoder.takes_dmabuf() && layout == (FrameLayout {
                format: PixelFormat::DmaDrm,
                width: encoder.dimensions().0,
                height: encoder.dimensions().1,
                offset: p.offset as usize,
                stride: as_signed(p.stride),
                pts_ns,
            }),
            _ => false,
        },
{
    match plane {
        None => Err(CaptureError::NoDmabuf),
        Some(p) => match encoder.push_frame(p.offset, p.stride, pts_ns) {
            Ok(layout) => Ok(layout),
            Err(e) => Err(CaptureError::Encoder(e)),
        },
    }
}

/// Push what is in a device's buffer, fresh or not. An idle desktop reports no new
/// frame, and the stream keeps its rate all the same. The buffer is given by its
/// bytes and its stride.
pub fn push_device_frame(
    encoder: &Encoder,
    evdi: &mut EvdiOutput,
    update: Update,
    buffer: Option<(&[u8], usize)>,
    pts_ns: u64,
) -> (r: Result<(Vec<u8>, FrameLayout), CaptureError>)
    ensures
        final(evdi).current_mode() == old(evdi).current_mode(),
        match (update, buffer, r) {
            (Update::Failed(cause), _, Err(CaptureError::Evdi(EvdiError::UpdateFailed(c)))) => c
                == cause,
            (Update::Failed(_), _, _) => false,
            (_, None, Err(CaptureError::Evdi(EvdiError::BufferMissing))) => true,
            (_, Some((_, stride)), Err(CaptureError::Evdi(EvdiError::StrideTooLarge(s)))) => stride
                > u32::MAX && s == stride,
            (_, Some((bytes, stride)), Ok((data, layout))) => stride <= u32::MAX && data@ == bytes@
                && layout == (FrameLayout {
                format: PixelFormat::Bgrx,
                width: encoder.dimensions().0,
                height: encoder.dimensions().1,
                offset: 0,
                stride: as_signed(stride as u32),
                pts_ns,
            }),
            _ => false,
        },
{
    if let Err(e) = evdi.capture_frame(update) {
        return Err(CaptureError::Evdi(e));
    }
    let (bytes, stride) = match buffer {
        Some((bytes, stride)) => (Some(bytes), Some(stride)),
        None => (None, None),
    };
    let stride = match evdi.stride(stride) {
        Ok(stride) => stride,
        Err(e) => {
            return Err(CaptureError::Evdi(e));
        },
    };
    match evdi.bytes(bytes) {
        Ok(bytes) => Ok(encoder.push_frame_bytes(bytes, stride, pts_ns)),
        Err(e) => Err(CaptureError::Evdi(e)),
    }
}

// ---------------------------------------------------------------------------
// Audio
// ---------------------------------------------------------------------------

/// How audio is encoded in a session.
pub open spec fn session_audio() -> AudioConfigView {
    AudioConfigView {
        target_node: None,
        sample_rate: AUDIO_SAMPLE_RATE,
        channels: AUDIO_CHANNELS,
        bitrate_bps: AUDIO_BITRATE_BPS,
        frame_size_ms: AUDIO_FRAME_SIZE_MS,
    }
}

/// What a session does about audio.
pub enum AudioPlan {
    /// It was switched off.
    Disabled,
    /// This host cannot serve it.
    Unavailable,
    /// Start an encoder. Where that fails, the session goes on without audio.
    Start(AudioEncoderConfig),
}

/// What to do about audio. Whether the host can serve it does not matter where it
/// is switched off.
pub fn plan_audio(config: &Config, available: bool) -> (r: AudioPlan)
    ensures
        match r {
            AudioPlan::Disabled => !config.audio_enabled,
            AudioPlan::Unavailable => config.audio_enabled && !available,
            AudioPlan::Start(audio) => {
                &&& config.audio_enabled
                &&& available
                &&& audio@ == session_audio()
            },
        },
{
    if !config.audio_enabled {
        AudioPlan::Disabled
    } else if !available {
        AudioPlan::Unavailable
    } else {
        AudioPlan::Start(
            AudioEncoderConfig {
                target_node: None,
                sample_rate: AUDIO_SAMPLE_RATE,
                channels: AUDIO_CHANNELS,
                bitrate_bps: AUDIO_BITRATE_BPS,
                frame_size_ms: AUDIO_FRAME_SIZE_MS,
            },
        )
    }
}

/// The header that opens a session's stream, with or without audio.
pub open spec fn opening(size: (u32, u32), fps: u32, with_audio: bool) -> StreamHeader {
    StreamHeader {
        width: low16(size.0),
        height: low16(size.1),
        framerate: low16(fps),
        codec: Codec::H264,
        audio_codec: if with_audio {
            AudioCodec::Opus
        } else {
            AudioCodec::NoAudio
        },
        audio_sample_rate_hz: if with_audio {
            AUDIO_SAMPLE_RATE as u16
        } else {
            0
        },
        audio_channels: if with_audio {
            AUDIO_CHANNELS as u8
        } else {
            0
        },
        audio_pre_skip: if with_audio {
            OPUS_PRE_SKIP
        } else {
            0
        },
    }
}

/// The header that opens a session's stream. Audio is announced only where its
/// encoder was started.
pub fn session_header(frames: &FrameSource, fps: u32, with_audio: bool) -> (r: Result<
    StreamHeader,
    TransportError,
>)
    ensures
        r == Ok::<StreamHeader, TransportError>(opening(frames.size(), fps, with_audio)),
{
    let audio = if with_audio {
        Some(
            AudioParams {
                sample_rate_hz: AUDIO_SAMPLE_RATE,
                channels: AUDIO_CHANNELS as u8,
                pre_skip: OPUS_PRE_SKIP,
            },
        )
    } else {
        None
    };
    stream_header(frames.width(), frames.height(), fps, audio)
}

/// Audio changes nothing about video: a receiver reads the same size, rate and
/// codec from the header with and without it, and without it reads that there is
/// no audio.
pub proof fn audio_leaves_video_alone(size: (u32, u32), fps: u32, rest: Seq<u8>)
    ensures
        ({
            let with = opening(size, fps, true);
            let without = opening(size, fps, false);
            &&& read_stream_header(stream_header_bytes(with) + rest) == Ok::<_, ProtocolError>(
                with,
            )
            &&& read_stream_header(stream_header_bytes(without) + rest) == Ok::<_, ProtocolError>(
                without,
            )
            &&& (with.width, with.height, with.framerate, with.codec) == (
                without.width,
                without.height,
                without.framerate,
                without.codec,
            )
            &&& without.audio_codec is NoAudio
            &&& with.audio_codec is Opus
            &&& with.audio_sample_rate_hz == 48_000
        }),
{
    stream_header_reads_back(opening(size, fps, true), rest);
    stream_header_reads_back(opening(size, fps, false), rest);
}

/// The frames of a session are encoded at the rate and the bitrate that were asked
/// for, in the size that they have, and where they are DMA-BUFs, with their own
/// format and modifier, which is linear where none was given.
pub proof fn sessions_encode_as_asked(frames: FrameSource, config: ConfigView)
    ensures
        ({
            let settings = encoder_settings(frames, config);
            &&& settings.framerate == config.fps
            &&& settings.bitrate_kbps == config.bitrate_kbps
            &&& match frames {
                FrameSource::Wayland { width, height, format, modifier } => {
                    &&& settings.width == width
                    &&& settings.height == height
                    &&& settings.fourcc == format
                    &&& modifier matches Some(m) ==> settings.modifier == m
                    &&& modifier is None ==> settings.modifier == 0
                },
                FrameSource::Evdi { width, height } => settings.width == width
                    && settings.height == height,
            }
        }),
{
}

/// How a stream is encoded does not depend on the session but for its size, rate,
/// bitrate and format.
pub proof fn sessions_share_the_other_settings(
    a: FrameSource,
    b: FrameSource,
    first: ConfigView,
    second: ConfigView,
)
    ensures
        ({
            let one = encoder_settings(a, first);
            let other = encoder_settings(b, second);
            &&& one.keyframe_interval == other.keyframe_interval
            &&& one.target_usage == other.target_usage
            &&& one.rate_control == other.rate_control
            &&& one.cabac == other.cabac
            &&& one.num_slices == other.num_slices
        }),
{
}

/// A panel that is not wider than the cap is streamed in its own size. A wider one
/// is streamed as wide as the cap, and as high as its shape asks, rounded down.
pub proof fn panels_keep_their_shape(panel: (u32, u32), max_width: u32)
    ensures
        panel.0 <= max_width ==> fitted(panel, max_width) == panel,
        panel.0 > max_width ==> {
            let size = fitted(panel, max_width);
            &&& size.0 == max_width
            &&& size.1 * panel.0 <= panel.1 * max_width < (size.1 + 1) * panel.0
        },
{
    if panel.0 > max_width {
        let w = panel.0 as int;
        let area = panel.1 * max_width;
        let q = area / w;
        assert(0 <= area <= panel.1 * w) by (nonlinear_arith)
            requires
                area == panel.1 * max_width,
                0 <= max_width < w,
                0 <= panel.1,
        ;
        assert(q * w <= area < (q + 1) * w) by (nonlinear_arith)
            requires
                w > 0,
                q == area / w,
        ;
        assert(0 <= q <= panel.1) by (nonlinear_arith)
            requires
                w > 0,
                q * w <= area <= panel.1 * w,
                area >= 0,
                area < (q + 1) * w,
        ;
    }
}

/// The receiver learns from the opening of a stream how large the frames are and
/// at what rate they come, for sizes and rates below 65536. With audio it learns
/// the rate and the channels that audio is encoded with.
pub proof fn receivers_learn_what_is_sent(
    frames: FrameSource,
    config: ConfigView,
    with_audio: bool,
    rest: Seq<u8>,
)
    requires
        encoder_settings(frames, config).width < 65536,
        encoder_settings(frames, config).height < 65536,
        config.fps < 65536,
    ensures
        ({
            let header = opening(frames.size(), config.fps, with_audio);
            let sent = encoder_settings(frames, config);
            read_stream_header(stream_header_bytes(header) + rest) matches Ok(h) && {
                &&& h.width == sent.width
                &&& h.height == sent.height
                &&& h.framerate == sent.framerate
                &&& h.codec is H264
                &&& with_audio ==> {
                    &&& h.audio_codec is Opus
                    &&& h.audio_sample_rate_hz == session_audio().sample_rate
                    &&& h.audio_channels == session_audio().channels
                }
                &&& !with_audio ==> h.audio_codec is NoAudio
            }
        }),
{
    stream_header_reads_back(opening(frames.size(), config.fps, with_audio), rest);
}

} // verus!

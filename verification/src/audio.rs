//! System audio capture and Opus encoding.
//!
//! ```text
//! pipewiresrc(stream.capture.sink=true) -> audioconvert -> audioresample
//!   -> capsfilter(48kHz/stereo/S16LE) -> opusenc -> appsink
//! ```
//!
//! The source element is itself the capture, so nothing is pushed into this
//! pipeline: packets only come out of it.

use crate::encoder::{as_signed, signed_keeps_the_bits, to_signed};
use crate::numeral::{decimal, decimal_reads_back, push_decimal, unsigned_value};
use crate::pipeline::{
    check_bus, element_views, first_error, lemma_value_of, BusMessage, Element, ElementView, FieldValue, FieldView,
    Setting, SettingView, Structure, StructureView,
};
use crate::text::{
    begins_with, contains, contains_text, copy_text, lines, lines_of, lossy_text, occurs_at, same_text,
    strip_prefix, texts, trim, trimmed, utf8_lossy,
};
use vstd::prelude::*;

verus! {

/// How audio is to be captured and encoded.
#[derive(Debug, Clone)]
pub struct AudioEncoderConfig {
    /// `None` follows the default sink, including across a change of the default
    /// in mid-session. `Some(name)` pins a node.
    pub target_node: Option<String>,
    /// Hz.
    pub sample_rate: u32,
    pub channels: u32,
    /// Opus target bitrate.
    pub bitrate_bps: u32,
    /// Opus frame duration in milliseconds: 2, 5, 10, 20, 40 or 60.
    pub frame_size_ms: u32,
}

/// What an [`AudioEncoderConfig`] stands for.
#[verifier::ext_equal]
pub ghost struct AudioConfigView {
    pub target_node: Option<Seq<char>>,
    pub sample_rate: u32,
    pub channels: u32,
    pub bitrate_bps: u32,
    pub frame_size_ms: u32,
}

impl View for AudioEncoderConfig {
    type V = AudioConfigView;

    open spec fn view(&self) -> AudioConfigView {
        AudioConfigView {
            target_node: match self.target_node {
                Some(node) => Some(node@),
                None => None,
            },
            sample_rate: self.sample_rate,
            channels: self.channels,
            bitrate_bps: self.bitrate_bps,
            frame_size_ms: self.frame_size_ms,
        }
    }
}

/// How audio is encoded unless asked otherwise.
pub open spec fn default_audio() -> AudioConfigView {
    AudioConfigView {
        target_node: None,
        sample_rate: 48_000,
        channels: 2,
        bitrate_bps: 128_000,
        frame_size_ms: 20,
    }
}

impl Default for AudioEncoderConfig {
    fn default() -> (r: Self)
        ensures
            r@ == default_audio(),
    {
        AudioEncoderConfig {
            target_node: None,
            sample_rate: 48_000,
            channels: 2,
            bitrate_bps: 128_000,
            frame_size_ms: 20,
        }
    }
}

/// One encoded Opus packet, decodable on its own.
#[derive(Debug)]
pub struct EncodedAudioPacket {
    pub data: Vec<u8>,
    /// Nanoseconds from the start of the session to when the packet was taken
    /// out of the pipeline.
    pub pts_ns: u64,
}

// ---------------------------------------------------------------------------
// The pipeline
// ---------------------------------------------------------------------------

/// The source: a monitor of a sink, which is what makes it record what is being
/// played.
pub open spec fn audio_source(target_node: Option<Seq<char>>) -> ElementView {
    let monitor = ElementView::made("pipewiresrc"@, "pipewiresrc"@).set(
        "stream-properties"@,
        SettingView::Structured(
            StructureView::named("props"@).field("stream.capture.sink"@, FieldView::Flag(true)),
        ),
    );
    match target_node {
        Some(node) => monitor.set("target-object"@, SettingView::Text(node)),
        None => monitor,
    }
}

/// The whole audio pipeline.
pub open spec fn audio_pipeline(config: AudioConfigView) -> Seq<ElementView> {
    seq![
        audio_source(config.target_node),
        ElementView::made("audioconvert"@, "audioconvert"@),
        ElementView::made("audioresample"@, "audioresample"@),
        ElementView::made("capsfilter"@, "capsfilter"@).set(
            "caps"@,
            SettingView::Caps(
                StructureView::named("audio/x-raw"@).field(
                    "format"@,
                    FieldView::Text("S16LE"@),
                ).field("layout"@, FieldView::Text("interleaved"@)).field(
                    "rate"@,
                    FieldView::Signed(as_signed(config.sample_rate)),
                ).field("channels"@, FieldView::Signed(as_signed(config.channels))),
            ),
        ),
        ElementView::made("opusenc"@, "opusenc"@).set(
            "bitrate"@,
            SettingView::Signed(as_signed(config.bitrate_bps)),
        ).set("frame-size"@, SettingView::Parsed(decimal(config.frame_size_ms as nat))).set(
            "dtx"@,
            SettingView::Flag(false),
        ).set("inband-fec"@, SettingView::Flag(false)).set(
            "audio-type"@,
            SettingView::Parsed("generic"@),
        ),
        ElementView::made("appsink"@, "appsink"@).set("sync"@, SettingView::Flag(false)).set(
            "max-buffers"@,
            SettingView::Unsigned(8),
        ).set("drop"@, SettingView::Flag(true)),
    ]
}

fn build_audio_source(target_node: &Option<String>) -> (r: Element)
    ensures
        r@ == audio_source(
            match *target_node {
                Some(node) => Some(node@),
                None => None,
            },
        ),
{
    let properties = Structure::named("props").field("stream.capture.sink", FieldValue::Flag(true));
    let monitor = Element::made("pipewiresrc", "pipewiresrc").set(
        "stream-properties",
        Setting::Structured(properties),
    );
    match target_node {
        Some(node) => monitor.set("target-object", Setting::Text(copy_text(node.as_str()))),
        None => monitor,
    }
}

/// What came out of the pipeline when a packet was asked for.
pub enum PulledAudio {
    /// Nothing in time; these messages were waiting on the bus.
    Nothing(Vec<BusMessage>),
    /// A sample without a buffer.
    NoBuffer,
    /// A buffer that could not be read.
    Unmappable,
    /// An encoded packet.
    Buffer(Vec<u8>),
}

/// Why a packet could not be taken.
#[derive(Debug)]
pub enum AudioError {
    /// The pipeline handed over a sample without a buffer.
    NoBuffer,
    /// The encoded buffer could not be read.
    Unmappable,
    /// The pipeline broke.
    Pipeline(String),
}

impl AudioError {
    /// The text that tells a person what went wrong.
    pub open spec fn message(self) -> Seq<char> {
        match self {
            AudioError::NoBuffer => "sample carried no buffer"@,
            AudioError::Unmappable => "mapping encoded buffer"@,
            AudioError::Pipeline(text) => text@,
        }
    }

    pub fn to_string(&self) -> (r: String)
        ensures
            r@ == self.message(),
    {
        match self {
            AudioError::NoBuffer => copy_text("sample carried no buffer"),
            AudioError::Unmappable => copy_text("mapping encoded buffer"),
            AudioError::Pipeline(text) => copy_text(text.as_str()),
        }
    }
}

/// Capture and encoding as one small pipeline, run by the caller.
pub struct AudioEncoder {
    elements: Vec<Element>,
}

impl AudioEncoder {
    /// The pipeline to run.
    pub closed spec fn pipeline(self) -> Seq<ElementView> {
        element_views(self.elements@)
    }

    pub fn new(config: &AudioEncoderConfig) -> (r: Self)
        ensures
            r.pipeline() == audio_pipeline(config@),
    {
        let mut elements: Vec<Element> = Vec::new();
        elements.push(build_audio_source(&config.target_node));
        elements.push(Element::made("audioconvert", "audioconvert"));
        elements.push(Element::made("audioresample", "audioresample"));

        // Exactly what opusenc takes, stated rather than left to negotiation.
        let raw = Structure::named("audio/x-raw").field(
            "format",
            FieldValue::Text(copy_text("S16LE")),
        ).field("layout", FieldValue::Text(copy_text("interleaved"))).field(
            "rate",
            FieldValue::Signed(to_signed(config.sample_rate)),
        ).field("channels", FieldValue::Signed(to_signed(config.channels)));
        elements.push(Element::made("capsfilter", "capsfilter").set("caps", Setting::Caps(raw)));

        // USB is lossless, so redundancy for lossy links is waste here, and the
        // gaps of discontinuous transmission would upset a receiver that counts
        // on a steady cadence.
        let mut frame_size = String::new();
        push_decimal(&mut frame_size, config.frame_size_ms as u64);
        assert(frame_size@ =~= decimal(config.frame_size_ms as nat));
        elements.push(
            Element::made("opusenc", "opusenc").set(
                "bitrate",
                Setting::Signed(to_signed(config.bitrate_bps)),
            ).set("frame-size", Setting::Parsed(frame_size)).set("dtx", Setting::Flag(false)).set(
                "inband-fec",
                Setting::Flag(false),
            ).set("audio-type", Setting::Parsed(copy_text("generic"))),
        );

        // The source pushes whether or not anybody pulls. Once 8 packets are
        // queued the oldest is dropped, which bounds how late a stalled consumer
        // can get.
        elements.push(
            Element::made("appsink", "appsink").set("sync", Setting::Flag(false)).set(
                "max-buffers",
                Setting::Unsigned(8),
            ).set("drop", Setting::Flag(true)),
        );
        assert(element_views(elements@) =~= audio_pipeline(config@));
        AudioEncoder { elements }
    }

    /// The elements of the pipeline, in the order in which they are linked.
    pub fn elements(&self) -> (r: &Vec<Element>)
        ensures
            element_views(r@) == self.pipeline(),
    {
        &self.elements
    }

    /// Take the next Opus packet out of what the pipeline gave. It is stamped
    /// with the time since the session started, `elapsed_ns`, modulo 2^64.
    pub fn pull_packet(&self, pulled: PulledAudio, elapsed_ns: u128) -> (r: Result<
        Option<EncodedAudioPacket>,
        AudioError,
    >)
        ensures
            match pulled {
                PulledAudio::Nothing(messages) => match first_error(messages@) {
                    None => r is Ok && r->Ok_0 is None,
                    Some(text) => r is Err && r->Err_0 is Pipeline && r->Err_0.message() == text,
                },
                PulledAudio::NoBuffer => r is Err && r->Err_0 is NoBuffer,
                PulledAudio::Unmappable => r is Err && r->Err_0 is Unmappable,
                PulledAudio::Buffer(data) => {
                    &&& r matches Ok(Some(packet))
                    &&& packet.data@ == data@
                    &&& packet.pts_ns == stamp(elapsed_ns)
                },
            },
    {
        match pulled {
            PulledAudio::Nothing(messages) => match check_bus(&messages) {
                Ok(_) => Ok(None),
                Err(text) => Err(AudioError::Pipeline(text)),
            },
            PulledAudio::NoBuffer => Err(AudioError::NoBuffer),
            PulledAudio::Unmappable => Err(AudioError::Unmappable),
            PulledAudio::Buffer(data) => Ok(
                Some(
                    EncodedAudioPacket {
                        data,
                        pts_ns: (elapsed_ns % 0x1_0000_0000_0000_0000u128) as u64,
                    },
                ),
            ),
        }
    }
}

/// The stamp of a packet that was taken so long after the session started, in
/// nanoseconds: that time modulo 2^64.
pub open spec fn stamp(elapsed_ns: u128) -> int {
    elapsed_ns as int % 0x1_0000_0000_0000_0000
}

/// A packet that is taken later is not stamped earlier, as long as the time since
/// the session started fits the stamp.
pub proof fn stamps_never_decrease(earlier: u128, later: u128)
    requires
        earlier <= later < 0x1_0000_0000_0000_0000,
    ensures
        stamp(earlier) <= stamp(later),
        stamp(later) == later,
{
}

// ---------------------------------------------------------------------------
// Is there audio to serve?
// ---------------------------------------------------------------------------

/// The rest of the first line that begins with `prefix`.
pub open spec fn first_labelled(lines: Seq<Seq<char>>, prefix: Seq<char>) -> Option<Seq<char>>
    decreases lines.len(),
{
    if lines.len() == 0 {
        None
    } else if begins_with(lines[0], prefix) {
        Some(lines[0].skip(prefix.len() as int))
    } else {
        first_labelled(lines.skip(1), prefix)
    }
}

/// Whether the sink that a server's description names exists: it is neither
/// empty nor one of the two spellings of "no default sink".
pub open spec fn names_a_sink(value: Seq<char>) -> bool {
    trimmed(value).len() > 0 && trimmed(value) != "none"@ && trimmed(value) != "@DEFAULT_SINK@"@
}

/// Whether a server's description names a default sink.
pub open spec fn describes_default_sink(info: Seq<char>) -> bool {
    match first_labelled(lines(info), "Default Sink:"@) {
        Some(value) => names_a_sink(value),
        None => false,
    }
}

fn is_a_sink(value: &str) -> (r: bool)
    ensures
        r == names_a_sink(value@),
{
    let value = trim(value);
    proof {
        reveal_strlit("");
        if value@.len() == 0 {
            assert(value@ =~= ""@);
        }
    }
    !same_text(value.as_str(), "") && !same_text(value.as_str(), "none") && !same_text(
        value.as_str(),
        "@DEFAULT_SINK@",
    )
}

pub fn has_default_sink(info: &str) -> (r: bool)
    ensures
        r == describes_default_sink(info@),
{
    let list = lines_of(info);
    let ghost all = texts(list@);
    let mut i: usize = 0;
    assert(all.skip(0) =~= all);
    while i < list.len()
        invariant
            i <= list@.len(),
            all == texts(list@),
            all == lines(info@),
            first_labelled(all, "Default Sink:"@) == first_labelled(
                all.skip(i as int),
                "Default Sink:"@,
            ),
        decreases list@.len() - i,
    {
        assert(all.skip(i as int)[0] == list@[i as int]@);
        assert(all.skip(i as int).skip(1) =~= all.skip(i + 1));
        if let Some(value) = strip_prefix(list[i].as_str(), "Default Sink:") {
            return is_a_sink(value.as_str());
        }
        i = i + 1;
    }
    false
}

/// What `pactl info` said, unless it failed.
pub fn pactl_info(success: bool, stdout: &[u8]) -> (r: Option<String>)
    ensures
        success <==> r is Some,
        r matches Some(text) ==> text@ == lossy_text(stdout@),
{
    if !success {
        return None;
    }
    Some(utf8_lossy(stdout))
}

/// Whether audio can be served: the framework started, the source element can be
/// made, the sound server answered and is PipeWire, and it has a default sink.
pub open spec fn can_serve_audio(
    initialised: bool,
    has_source: bool,
    info: Option<Seq<char>>,
) -> bool {
    &&& initialised
    &&& has_source
    &&& info matches Some(text) && contains_text(text, "PipeWire"@) && describes_default_sink(text)
}

/// Whether this system can serve audio, judged by live answers and never by a
/// marker taken on trust.
pub fn audio_available(initialised: bool, has_source: bool, info: Option<&str>) -> (r: bool)
    ensures
        r == can_serve_audio(
            initialised,
            has_source,
            match info {
                Some(text) => Some(text@),
                None => None,
            },
        ),
{
    if !initialised {
        return false;
    }
    if !has_source {
        return false;
    }
    match info {
        Some(text) => contains(text, "PipeWire") && has_default_sink(text),
        None => false,
    }
}

/// Audio is recorded from what is being played, on the node that is asked for where
/// there is one, and is encoded as the configuration says. The frame duration is
/// written so that it reads back.
pub proof fn audio_follows_its_config(config: AudioConfigView)
    ensures
        ({
            let p = audio_pipeline(config);
            &&& p.len() == 6
            &&& p[0].factory == "pipewiresrc"@ && p[1].factory == "audioconvert"@
            &&& p[2].factory == "audioresample"@ && p[3].factory == "capsfilter"@
            &&& p[4].factory == "opusenc"@ && p[5].factory == "appsink"@
            &&& p[0].setting("stream-properties"@) matches Some(SettingView::Structured(props))
                && props.value("stream.capture.sink"@) == Some(FieldView::Flag(true))
            &&& p[0].setting("target-object"@) == match config.target_node {
                Some(node) => Some(SettingView::Text(node)),
                None => None,
            }
            &&& p[3].setting("caps"@) matches Some(SettingView::Caps(caps)) && {
                &&& caps.name == "audio/x-raw"@
                &&& caps.value("format"@) == Some(FieldView::Text("S16LE"@))
                &&& caps.value("layout"@) == Some(FieldView::Text("interleaved"@))
                &&& caps.value("rate"@) matches Some(FieldView::Signed(rate)) && (rate
                    - config.sample_rate) % 0x1_0000_0000 == 0
                &&& caps.value("channels"@) matches Some(FieldView::Signed(channels)) && (channels
                    - config.channels) % 0x1_0000_0000 == 0
            }
            &&& p[4].setting("bitrate"@) matches Some(SettingView::Signed(bitrate)) && (bitrate
                - config.bitrate_bps) % 0x1_0000_0000 == 0
            &&& p[4].setting("frame-size"@) matches Some(SettingView::Parsed(text))
                && unsigned_value(text, 10, u32::MAX as nat) == Some(config.frame_size_ms as nat)
            &&& p[4].setting("dtx"@) == Some(SettingView::Flag(false))
            &&& p[4].setting("inband-fec"@) == Some(SettingView::Flag(false))
            &&& p[4].setting("audio-type"@) == Some(SettingView::Parsed("generic"@))
            &&& p[5].setting("sync"@) == Some(SettingView::Flag(false))
            &&& p[5].setting("max-buffers"@) == Some(SettingView::Unsigned(8))
            &&& p[5].setting("drop"@) == Some(SettingView::Flag(true))
        }),
{
    lemma_value_of::<FieldView>();
    lemma_value_of::<SettingView>();
    signed_keeps_the_bits(config.sample_rate);
    signed_keeps_the_bits(config.channels);
    signed_keeps_the_bits(config.bitrate_bps);
    decimal_reads_back(config.frame_size_ms as nat, u32::MAX as nat);
    reveal_strlit("stream-properties");
    assert("stream-properties"@.len() == 17);
    reveal_strlit("target-object");
    assert("target-object"@.len() == 13);
    reveal_strlit("format");
    assert("format"@.len() == 6);
    reveal_strlit("layout");
    assert("layout"@.len() == 6);
    reveal_strlit("rate");
    assert("rate"@.len() == 4);
    reveal_strlit("channels");
    assert("channels"@.len() == 8);
    reveal_strlit("bitrate");
    assert("bitrate"@.len() == 7);
    reveal_strlit("frame-size");
    assert("frame-size"@.len() == 10);
    reveal_strlit("dtx");
    assert("dtx"@.len() == 3);
    reveal_strlit("inband-fec");
    assert("inband-fec"@.len() == 10);
    reveal_strlit("audio-type");
    assert("audio-type"@.len() == 10);
    reveal_strlit("sync");
    assert("sync"@.len() == 4);
    reveal_strlit("max-buffers");
    assert("max-buffers"@.len() == 11);
    reveal_strlit("drop");
    assert("drop"@.len() == 4);
    assert("format"@[0] != "layout"@[0]);
    assert("sync"@[0] != "drop"@[0]);
    assert("frame-size"@[0] != "inband-fec"@[0]);
    assert("frame-size"@[0] != "audio-type"@[0]);
    assert("inband-fec"@[0] != "audio-type"@[0]);
}

proof fn lemma_first_labelled(list: Seq<Seq<char>>, prefix: Seq<char>, i: int)
    requires
        0 <= i < list.len(),
        begins_with(list[i], prefix),
        forall|j: int| 0 <= j < i ==> !begins_with(#[trigger] list[j], prefix),
    ensures
        first_labelled(list, prefix) == Some(list[i].skip(prefix.len() as int)),
    decreases i,
{
    if i > 0 {
        let rest = list.skip(1);
        assert forall|j: int| 0 <= j < i - 1 implies !begins_with(#[trigger] rest[j], prefix) by {
            assert(rest[j] == list[j + 1]);
        }
        assert(!begins_with(list[0], prefix));
        lemma_first_labelled(rest, prefix, i - 1);
    }
}

proof fn lemma_none_labelled(list: Seq<Seq<char>>, prefix: Seq<char>)
    requires
        forall|j: int| 0 <= j < list.len() ==> !begins_with(#[trigger] list[j], prefix),
    ensures
        first_labelled(list, prefix) is None,
    decreases list.len(),
{
    if list.len() > 0 {
        let rest = list.skip(1);
        assert forall|j: int| 0 <= j < rest.len() implies !begins_with(#[trigger] rest[j], prefix) by {
            assert(rest[j] == list[j + 1]);
        }
        assert(!begins_with(list[0], prefix));
        lemma_none_labelled(rest, prefix);
    }
}

/// The first line that begins with "Default Sink:" decides whether there is a default
/// sink: there is one unless what it says, without the blanks around it, is empty,
/// "none" or "@DEFAULT_SINK@". Without such a line there is none.
pub proof fn the_first_label_decides(info: Seq<char>, i: int)
    requires
        0 <= i < lines(info).len(),
        lines(info)[i].len() >= 13 && lines(info)[i].take(13) == "Default Sink:"@,
        forall|j: int|
            0 <= j < i ==> (#[trigger] lines(info)[j]).len() < 13 || lines(info)[j].take(13)
                != "Default Sink:"@,
    ensures
        ({
            let name = trimmed(lines(info)[i].skip(13));
            describes_default_sink(info) <==> !(name.len() == 0 || name == "none"@ || name
                == "@DEFAULT_SINK@"@)
        }),
{
    reveal_strlit("Default Sink:");
    let label = "Default Sink:"@;
    assert(label.len() == 13);
    assert(lines(info)[i].take(13) =~= lines(info)[i].subrange(0, 13));
    assert forall|j: int| 0 <= j < i implies !begins_with(#[trigger] lines(info)[j], label) by {
        assert(lines(info)[j].len() < 13 || lines(info)[j].take(13) =~= lines(info)[j].subrange(
            0,
            13,
        ));
    }
    lemma_first_labelled(lines(info), label, i);
}

/// Audio is served only where nothing is missing: the framework, the source, an answer
/// of the sound server, its name in it, and a line that names the default sink.
pub proof fn nothing_may_be_missing_for_audio(info: Seq<char>)
    ensures
        !can_serve_audio(false, true, Some(info)),
        !can_serve_audio(true, false, Some(info)),
        !can_serve_audio(false, false, Some(info)),
        forall|a: bool, b: bool| !#[trigger] can_serve_audio(a, b, None),
        can_serve_audio(true, true, Some(info)) ==> (exists|i: int|
            0 <= i && i + 8 <= info.len() && #[trigger] info.subrange(i, i + 8) == "PipeWire"@)
            && (exists|i: int|
            0 <= i < lines(info).len() && (#[trigger] lines(info)[i]).len() >= 13 && lines(
                info,
            )[i].take(13) == "Default Sink:"@),
        (exists|i: int|
            0 <= i && i + 8 <= info.len() && #[trigger] info.subrange(i, i + 8) == "PipeWire"@)
            && describes_default_sink(info) ==> can_serve_audio(true, true, Some(info)),
{
    reveal_strlit("Default Sink:");
    reveal_strlit("PipeWire");
    let label = "Default Sink:"@;
    let server = "PipeWire"@;
    assert(label.len() == 13);
    assert(server.len() == 8);
    if contains_text(info, server) {
        let i = choose|i: int| occurs_at(info, server, i);
        assert(info.subrange(i, i + 8) == server);
    }
    if exists|i: int|
        0 <= i && i + 8 <= info.len() && #[trigger] info.subrange(i, i + 8) == server {
        let i = choose|i: int|
            0 <= i && i + 8 <= info.len() && #[trigger] info.subrange(i, i + 8) == server;
        assert(occurs_at(info, server, i));
    }
    if describes_default_sink(info) {
        if forall|j: int| 0 <= j < lines(info).len() ==> !begins_with(#[trigger] lines(info)[j], label) {
            lemma_none_labelled(lines(info), label);
        }
        let j = choose|j: int|
            0 <= j < lines(info).len() && begins_with(#[trigger] lines(info)[j], label);
        assert(lines(info)[j].take(13) =~= lines(info)[j].subrange(0, 13));
    }
}

} // verus!

//! Bringing a session up, step by step, from the tablet that was plugged in to
//! the stream that runs.
//!
//! Each [`Setup`] says what is to be done next and holds what is to be told how
//! it went. Telling it gives the next step, until frames can be streamed or the
//! session has failed.
//!
//! At each step [`Setup::undo`] says how to take down what the session has made so
//! far. Whoever drives the steps carries out that of the step at which the session
//! is over, however it ended, so that neither the virtual output nor the forwarded
//! port stays behind.

use crate::audio::{AudioConfigView, AudioEncoderConfig};
use crate::creation::{ends_with, output_view, removal_of, OutputView, Request, RequestView};
use crate::encoder::{EncoderConfig, EncoderConfigView, XR24};
use crate::evdi::Mode;
use crate::modifiers::{
    advertised, fourcc_bytes, modifiers_with_linear, supported_modifiers,
    supported_modifiers_are_those_advertised, PadTemplate,
};
use crate::output::{removal_view, Removal, RemovalView, VirtualOutput};
use crate::protocol::{StreamHeader, DEFAULT_PORT, SOCKET_NAME};
use crate::session::{
    app_installed, encoder_settings, fit_panel, fitted, forward_target, launch_steps, opening,
    package_query, panels_keep_their_shape, plan_audio, session_audio, session_header, AudioPlan, Config, ConfigView,
    FrameSource, LaunchStep, APP_ACTIVITY, APP_PACKAGE, NOT_INSTALLED,
};
use crate::text::{contains_text, copy_text, lossy_text};
use vstd::prelude::*;

verus! {

/// How many buffers a capture takes turns with.
pub const CAPTURE_POOL_SIZE: usize = 3;

// ---------------------------------------------------------------------------
// Failures
// ---------------------------------------------------------------------------

/// Why a session could not be brought up.
#[derive(Debug)]
pub enum SetupError {
    /// The app is not on the tablet.
    NotInstalled,
    /// The app could not be started.
    Launching(String),
    /// The app could not be reached.
    Connecting(String),
    /// Another step failed, with the cause.
    Failed(String),
}

impl SetupError {
    /// The text that tells a person what went wrong.
    pub open spec fn message(self) -> Seq<char> {
        match self {
            SetupError::NotInstalled => NOT_INSTALLED@,
            SetupError::Launching(cause) => "launching the display app: "@ + cause@,
            SetupError::Connecting(cause) =>
                "connecting to the app — is it in the foreground on the tablet?: "@ + cause@,
            SetupError::Failed(cause) => cause@,
        }
    }

    pub fn to_string(&self) -> (r: String)
        ensures
            r@ == self.message(),
    {
        match self {
            SetupError::NotInstalled => copy_text(NOT_INSTALLED),
            SetupError::Launching(cause) => {
                let mut r = copy_text("launching the display app: ");
                r.append(cause.as_str());
                r
            },
            SetupError::Connecting(cause) => {
                let mut r = copy_text(
                    "connecting to the app — is it in the foreground on the tablet?: ",
                );
                r.append(cause.as_str());
                r
            },
            SetupError::Failed(cause) => copy_text(cause.as_str()),
        }
    }
}

// ---------------------------------------------------------------------------
// Steps
// ---------------------------------------------------------------------------

/// The output that a session streams: what it is called, the mode of the device
/// behind it, where there is one, and what takes it down, where anything is to.
pub struct Output {
    pub name: String,
    pub device: Option<Mode>,
    pub removal: Option<Removal>,
}

/// What an [`Output`] stands for.
#[verifier::ext_equal]
pub ghost struct SourceView {
    pub name: Seq<char>,
    pub device: Option<Mode>,
    pub removal: Option<RemovalView>,
}

impl View for Output {
    type V = SourceView;

    open spec fn view(&self) -> SourceView {
        SourceView {
            name: self.name@,
            device: self.device,
            removal: removal_view(self.removal),
        }
    }
}

/// What a session streams from an output that was created.
pub open spec fn source_of(output: OutputView) -> SourceView {
    SourceView {
        name: match output {
            OutputView::Managed(_, name) => name,
            OutputView::Evdi(_, name) => name,
        },
        device: match output {
            OutputView::Managed(_, _) => None,
            OutputView::Evdi(mode, _) => Some(mode),
        },
        removal: removal_of(output),
    }
}

impl Output {
    /// What a session streams from this output.
    pub fn of(output: &VirtualOutput) -> (r: Output)
        ensures
            r@ == source_of(output_view(*output)),
    {
        let device = match output {
            VirtualOutput::Managed { .. } => None,
            VirtualOutput::Evdi { evdi, .. } => Some(
                Mode { width: evdi.width(), height: evdi.height() },
            ),
        };
        Output { name: copy_text(output.name()), device, removal: output.takedown() }
    }
}

/// What a session has made and has to take down: an output, by this, and the
/// forwarding of a local port.
pub struct Held {
    pub output: Option<Removal>,
    pub port: Option<u16>,
}

/// What [`Held`] stands for.
#[verifier::ext_equal]
pub ghost struct HeldView {
    pub output: Option<RemovalView>,
    pub port: Option<u16>,
}

impl View for Held {
    type V = HeldView;

    open spec fn view(&self) -> HeldView {
        HeldView { output: removal_view(self.output), port: self.port }
    }
}

/// Nothing is held.
pub open spec fn nothing() -> HeldView {
    HeldView { output: None, port: None }
}

fn hold_nothing() -> (r: Held)
    ensures
        r@ == nothing(),
{
    Held { output: None, port: None }
}

/// One thing to take down.
pub enum Undo {
    /// Stop forwarding this local port to the tablet.
    RemoveForward(u16),
    /// Take the output down.
    RemoveOutput(Removal),
}

/// What an [`Undo`] stands for.
#[verifier::ext_equal]
pub ghost enum UndoView {
    RemoveForward(u16),
    RemoveOutput(RemovalView),
}

impl View for Undo {
    type V = UndoView;

    open spec fn view(&self) -> UndoView {
        match *self {
            Undo::RemoveForward(port) => UndoView::RemoveForward(port),
            Undo::RemoveOutput(removal) => UndoView::RemoveOutput(removal@),
        }
    }
}

/// What a list of things to take down stands for.
pub open spec fn undo_views(list: Seq<Undo>) -> Seq<UndoView> {
    list.map_values(|undo: Undo| undo@)
}

/// How to take down what is held: what came last goes first.
pub open spec fn undoing(held: HeldView) -> Seq<UndoView> {
    (match held.port {
        Some(port) => seq![UndoView::RemoveForward(port)],
        None => seq![],
    }) + (match held.output {
        Some(removal) => seq![UndoView::RemoveOutput(removal)],
        None => seq![],
    })
}

/// How buffers come from a capture to the encoder.
#[derive(Debug, Clone, Copy, PartialEq, Eq, Structural)]
pub enum BufferMode {
    /// As DMA-BUFs, which the encoder imports without a copy.
    Dmabuf,
}

/// What a capture is opened with.
pub struct CaptureOptions {
    pub output: String,
    pub mode: BufferMode,
    pub pool_size: usize,
    /// The modifiers that the encoder can import, which are the ones to allow.
    pub modifiers: Vec<u64>,
    pub paint_cursor: bool,
}

/// What [`CaptureOptions`] stand for.
#[verifier::ext_equal]
pub ghost struct CaptureView {
    pub output: Seq<char>,
    pub mode: BufferMode,
    pub pool_size: usize,
    pub modifiers: Seq<u64>,
    pub paint_cursor: bool,
}

impl View for CaptureOptions {
    type V = CaptureView;

    open spec fn view(&self) -> CaptureView {
        CaptureView {
            output: self.output@,
            mode: self.mode,
            pool_size: self.pool_size,
            modifiers: self.modifiers@,
            paint_cursor: self.paint_cursor,
        }
    }
}

/// Waits for what the tablet says of the app.
pub struct AwaitingPackages {
    pub config: Config,
}

/// Waits for the size of the tablet's panel.
pub struct AwaitingPanel {
    pub config: Config,
}

/// Waits for the virtual output.
pub struct AwaitingOutput {
    pub config: Config,
}

/// Waits for the local port that is forwarded to the tablet.
pub struct AwaitingForward {
    pub config: Config,
    pub output: Output,
}

/// Waits for the app to be started.
pub struct AwaitingLaunch {
    pub config: Config,
    pub output: Output,
    pub port: u16,
}

/// Waits for what the encoder's first element advertises.
pub struct AwaitingTemplates {
    pub config: Config,
    pub output: Output,
    pub port: u16,
}

/// Waits for a capture to be opened.
pub struct AwaitingCapture {
    pub config: Config,
    pub removal: Option<Removal>,
    pub port: u16,
}

/// Waits for the video encoder.
pub struct AwaitingEncoder {
    pub config: Config,
    pub frames: FrameSource,
    pub removal: Option<Removal>,
    pub port: u16,
}

/// Waits for whether this host can serve audio.
pub struct AwaitingAudioProbe {
    pub config: Config,
    pub frames: FrameSource,
    pub removal: Option<Removal>,
    pub port: u16,
}

/// Waits for the audio encoder.
pub struct AwaitingAudio {
    pub config: Config,
    pub frames: FrameSource,
    pub removal: Option<Removal>,
    pub port: u16,
}

/// Waits for the connection to the app.
pub struct AwaitingConnection {
    pub config: Config,
    pub frames: FrameSource,
    pub with_audio: bool,
    pub removal: Option<Removal>,
    pub port: u16,
}

/// What is to be done next.
pub enum Setup {
    /// Ask the tablet's shell.
    AskTablet(String, AwaitingPackages),
    /// Find out the size of the tablet's panel.
    AskPanel(AwaitingPanel),
    /// Create the virtual output.
    CreateOutput(Request, AwaitingOutput),
    /// Forward a local port, of this number by preference, to a socket on the
    /// tablet.
    Forward(u16, String, AwaitingForward),
    /// Go through these steps on the tablet.
    Launch(Vec<LaunchStep>, AwaitingLaunch),
    /// Find out what the encoder's first element advertises.
    ProbeEncoder(AwaitingTemplates),
    /// Open a capture of the output.
    OpenCapture(CaptureOptions, AwaitingCapture),
    /// Start the video encoder for these frames.
    StartEncoder(EncoderConfig, AwaitingEncoder),
    /// Find out whether this host can serve audio.
    ProbeAudio(AwaitingAudioProbe),
    /// Start the audio encoder.
    StartAudio(AudioEncoderConfig, AwaitingAudio),
    /// Connect to this port and send this header.
    Connect(u16, StreamHeader, AwaitingConnection),
    /// Stream.
    Stream { frames: FrameSource, with_audio: bool, config: Config, held: Held },
    /// There will be no session.
    Failed(SetupError, Held),
}

/// What a [`Setup`] stands for. A failure is its message.
#[verifier::ext_equal]
pub ghost enum SetupView {
    AskTablet(Seq<char>, ConfigView),
    AskPanel(ConfigView),
    CreateOutput(RequestView, ConfigView),
    Forward(u16, Seq<char>, SourceView, ConfigView),
    Launch(Seq<(Seq<char>, bool, u64)>, SourceView, u16, ConfigView),
    ProbeEncoder(SourceView, u16, ConfigView),
    OpenCapture(CaptureView, Option<RemovalView>, u16, ConfigView),
    StartEncoder(EncoderConfigView, FrameSource, Option<RemovalView>, u16, ConfigView),
    ProbeAudio(FrameSource, Option<RemovalView>, u16, ConfigView),
    StartAudio(AudioConfigView, FrameSource, Option<RemovalView>, u16, ConfigView),
    Connect(u16, StreamHeader, FrameSource, bool, Option<RemovalView>, u16, ConfigView),
    Stream(FrameSource, bool, HeldView, ConfigView),
    Failed(Seq<char>, HeldView),
}

/// What the steps on the tablet stand for.
pub open spec fn launch_views(steps: Seq<LaunchStep>) -> Seq<(Seq<char>, bool, u64)> {
    steps.map_values(|s: LaunchStep| (s.shell@, s.must_succeed, s.wait_ms))
}

impl View for Setup {
    type V = SetupView;

    open spec fn view(&self) -> SetupView {
        match *self {
            Setup::AskTablet(shell, next) => SetupView::AskTablet(shell@, next.config@),
            Setup::AskPanel(next) => SetupView::AskPanel(next.config@),
            Setup::CreateOutput(request, next) => SetupView::CreateOutput(request@, next.config@),
            Setup::Forward(port, target, next) => SetupView::Forward(
                port,
                target@,
                next.output@,
                next.config@,
            ),
            Setup::Launch(steps, next) => SetupView::Launch(
                launch_views(steps@),
                next.output@,
                next.port,
                next.config@,
            ),
            Setup::ProbeEncoder(next) => SetupView::ProbeEncoder(
                next.output@,
                next.port,
                next.config@,
            ),
            Setup::OpenCapture(options, next) => SetupView::OpenCapture(
                options@,
                removal_view(next.removal),
                next.port,
                next.config@,
            ),
            Setup::StartEncoder(encoder, next) => SetupView::StartEncoder(
                encoder@,
                next.frames,
                removal_view(next.removal),
                next.port,
                next.config@,
            ),
            Setup::ProbeAudio(next) => SetupView::ProbeAudio(
                next.frames,
                removal_view(next.removal),
                next.port,
                next.config@,
            ),
            Setup::StartAudio(audio, next) => SetupView::StartAudio(
                audio@,
                next.frames,
                removal_view(next.removal),
                next.port,
                next.config@,
            ),
            Setup::Connect(port, header, next) => SetupView::Connect(
                port,
                header,
                next.frames,
                next.with_audio,
                removal_view(next.removal),
                next.port,
                next.config@,
            ),
            Setup::Stream { frames, with_audio, config, held } => SetupView::Stream(
                frames,
                with_audio,
                held@,
                config@,
            ),
            Setup::Failed(e, held) => SetupView::Failed(e.message(), held@),
        }
    }
}

/// What came of a step: a value, or why it failed.
pub open spec fn outcome_of<T>(outcome: Result<T, String>) -> Result<T, Seq<char>> {
    match outcome {
        Ok(value) => Ok(value),
        Err(cause) => Err(cause@),
    }
}

/// The first step.
pub open spec fn ask_tablet(config: ConfigView) -> SetupView {
    SetupView::AskTablet("pm list packages "@ + APP_PACKAGE@, config)
}

/// The step that creates an output of this size.
pub open spec fn create_output(config: ConfigView, size: (u32, u32)) -> SetupView {
    SetupView::CreateOutput(
        RequestView {
            name: config.output_name,
            width: size.0,
            height: size.1,
            refresh: config.fps,
            x: config.position_x,
            y: config.position_y,
            scale: config.scale,
        },
        config,
    )
}

/// The step after the tablet said which packages it has. An explicit resolution
/// stands; without one the panel is asked for, so that the picture fills it.
pub open spec fn after_packages(config: ConfigView, answer: Result<Seq<char>, Seq<char>>) ->
    SetupView {
    match answer {
        Err(cause) => SetupView::Failed(cause, nothing()),
        Ok(packages) => if !contains_text(packages, APP_PACKAGE@) {
            SetupView::Failed(NOT_INSTALLED@, nothing())
        } else {
            match config.resolution {
                Some(size) => create_output(config, size),
                None => SetupView::AskPanel(config),
            }
        },
    }
}

/// The step after the panel's size is known.
pub open spec fn after_panel(config: ConfigView, panel: Result<(u32, u32), Seq<char>>) -> SetupView {
    match panel {
        Err(cause) => SetupView::Failed(cause, nothing()),
        Ok(size) => create_output(config, fitted(size, config.max_width)),
    }
}

/// The step after the output was created or not. A creation that failed may have
/// made something on the way.
pub open spec fn after_output(
    config: ConfigView,
    output: Result<SourceView, (Seq<char>, Option<RemovalView>)>,
) -> SetupView {
    match output {
        Err((cause, made)) => SetupView::Failed(cause, HeldView { output: made, port: None }),
        Ok(output) => SetupView::Forward(
            DEFAULT_PORT,
            "localabstract:"@ + SOCKET_NAME@,
            output,
            config,
        ),
    }
}

/// The steps that bring the app to the foreground.
pub open spec fn launching() -> Seq<(Seq<char>, bool, u64)> {
    seq![
        ("input keyevent KEYCODE_WAKEUP"@, false, 0u64),
        ("wm dismiss-keyguard"@, false, 400u64),
        ("am start -n "@ + APP_ACTIVITY@, true, 2500u64),
    ]
}

/// The step after the port was forwarded or not.
pub open spec fn after_forward(
    config: ConfigView,
    output: SourceView,
    port: Result<u16, Seq<char>>,
) -> SetupView {
    match port {
        Err(cause) => SetupView::Failed(cause, HeldView { output: output.removal, port: None }),
        Ok(port) => SetupView::Launch(launching(), output, port, config),
    }
}

/// The step that starts the video encoder for these frames.
pub open spec fn start_encoder(
    config: ConfigView,
    frames: FrameSource,
    removal: Option<RemovalView>,
    port: u16,
) -> SetupView {
    SetupView::StartEncoder(encoder_settings(frames, config), frames, removal, port, config)
}

/// The step after the app was started or not. A device captures its own frames;
/// other outputs need a capture, of what the encoder can import.
pub open spec fn after_launch(
    config: ConfigView,
    output: SourceView,
    port: u16,
    failure: Option<Seq<char>>,
) -> SetupView {
    match failure {
        Some(cause) => SetupView::Failed(
            "launching the display app: "@ + cause,
            HeldView { output: output.removal, port: Some(port) },
        ),
        None => match output.device {
            Some(mode) => start_encoder(
                config,
                FrameSource::Evdi { width: mode.width, height: mode.height },
                output.removal,
                port,
            ),
            None => SetupView::ProbeEncoder(output, port, config),
        },
    }
}

/// The step after the encoder's first element told what it advertises.
pub open spec fn after_templates(
    config: ConfigView,
    output: SourceView,
    port: u16,
    templates: Seq<PadTemplate>,
) -> SetupView {
    SetupView::OpenCapture(
        CaptureView {
            output: output.name,
            mode: BufferMode::Dmabuf,
            pool_size: CAPTURE_POOL_SIZE,
            modifiers: modifiers_with_linear(
                advertised(templates),
                lossy_text(fourcc_bytes(XR24)),
            ),
            paint_cursor: config.paint_cursor,
        },
        output.removal,
        port,
        config,
    )
}

/// The step after a capture was opened or not.
pub open spec fn after_capture(
    config: ConfigView,
    removal: Option<RemovalView>,
    port: u16,
    frames: Result<FrameSource, Seq<char>>,
) -> SetupView {
    match frames {
        Err(cause) => SetupView::Failed(cause, HeldView { output: removal, port: Some(port) }),
        Ok(frames) => start_encoder(config, frames, removal, port),
    }
}

/// The step that connects to the app. Audio is announced only where its encoder
/// was started.
pub open spec fn connect(
    config: ConfigView,
    frames: FrameSource,
    removal: Option<RemovalView>,
    port: u16,
    with_audio: bool,
) -> SetupView {
    SetupView::Connect(
        port,
        opening(frames.size(), config.fps, with_audio),
        frames,
        with_audio,
        removal,
        port,
        config,
    )
}

/// The step after the video encoder was started or not. Where audio is switched
/// off, nobody asks whether it could be served.
pub open spec fn after_encoder(
    config: ConfigView,
    frames: FrameSource,
    removal: Option<RemovalView>,
    port: u16,
    failure: Option<Seq<char>>,
) -> SetupView {
    match failure {
        Some(cause) => SetupView::Failed(cause, HeldView { output: removal, port: Some(port) }),
        None => if config.audio_enabled {
            SetupView::ProbeAudio(frames, removal, port, config)
        } else {
            connect(config, frames, removal, port, false)
        },
    }
}

/// The step after it is known whether audio can be served.
pub open spec fn after_audio_probe(
    config: ConfigView,
    frames: FrameSource,
    removal: Option<RemovalView>,
    port: u16,
    available: bool,
) -> SetupView {
    if config.audio_enabled && available {
        SetupView::StartAudio(session_audio(), frames, removal, port, config)
    } else {
        connect(config, frames, removal, port, false)
    }
}

/// The step after the connection was made or not.
pub open spec fn after_connection(
    config: ConfigView,
    frames: FrameSource,
    with_audio: bool,
    held: HeldView,
    failure: Option<Seq<char>>,
) -> SetupView {
    match failure {
        Some(cause) => SetupView::Failed(
            "connecting to the app — is it in the foreground on the tablet?: "@ + cause,
            held,
        ),
        None => SetupView::Stream(frames, with_audio, held, config),
    }
}

/// The text that an optional cause holds.
pub open spec fn cause_of(failure: Option<String>) -> Option<Seq<char>> {
    match failure {
        Some(cause) => Some(cause@),
        None => None,
    }
}

/// Start a session.
pub fn run(config: Config) -> (r: Setup)
    ensures
        r@ == ask_tablet(config@),
{
    Setup::AskTablet(package_query(), AwaitingPackages { config })
}

fn create(config: Config, size: (u32, u32)) -> (r: Setup)
    ensures
        r@ == create_output(config@, size),
{
    let request = Request {
        name: copy_text(config.output_name.as_str()),
        width: size.0,
        height: size.1,
        refresh: config.fps,
        x: config.position_x,
        y: config.position_y,
        scale: copy_text(config.scale.as_str()),
    };
    Setup::CreateOutput(request, AwaitingOutput { config })
}

impl AwaitingPackages {
    /// Go on with what the tablet answered.
    pub fn resume(self, answer: Result<String, String>) -> (r: Setup)
        ensures
            r@ == after_packages(
                self.config@,
                match answer {
                    Ok(text) => Ok(text@),
                    Err(cause) => Err(cause@),
                },
            ),
    {
        match answer {
            Err(cause) => Setup::Failed(SetupError::Failed(cause), hold_nothing()),
            Ok(packages) => {
                if !app_installed(packages.as_str()) {
                    return Setup::Failed(SetupError::NotInstalled, hold_nothing());
                }
                match self.config.resolution {
                    Some(size) => create(self.config, size),
                    None => Setup::AskPanel(AwaitingPanel { config: self.config }),
                }
            },
        }
    }
}

impl AwaitingPanel {
    /// Go on with the panel's size in landscape.
    pub fn resume(self, panel: Result<(u32, u32), String>) -> (r: Setup)
        ensures
            r@ == after_panel(self.config@, outcome_of(panel)),
    {
        match panel {
            Err(cause) => Setup::Failed(SetupError::Failed(cause), hold_nothing()),
            Ok(size) => {
                let size = fit_panel(size, self.config.max_width);
                create(self.config, size)
            },
        }
    }
}

impl AwaitingOutput {
    /// Go on with the output, or with why it could not be created and what takes
    /// down that which was made on the way.
    pub fn resume(self, output: Result<Output, (String, Option<Removal>)>) -> (r: Setup)
        ensures
            r@ == after_output(
                self.config@,
                match output {
                    Ok(o) => Ok(o@),
                    Err((cause, made)) => Err((cause@, removal_view(made))),
                },
            ),
    {
        match output {
            Err((cause, made)) => Setup::Failed(
                SetupError::Failed(cause),
                Held { output: made, port: None },
            ),
            Ok(output) => Setup::Forward(
                DEFAULT_PORT,
                forward_target(),
                AwaitingForward { config: self.config, output },
            ),
        }
    }
}

impl AwaitingForward {
    /// Go on with the port that was forwarded.
    pub fn resume(self, port: Result<u16, String>) -> (r: Setup)
        ensures
            r@ == after_forward(self.config@, self.output@, outcome_of(port)),
    {
        match port {
            Err(cause) => Setup::Failed(
                SetupError::Failed(cause),
                Held { output: self.output.removal, port: None },
            ),
            Ok(port) => {
                let steps = launch_steps();
                assert(launch_views(steps@) =~= launching());
                Setup::Launch(
                    steps,
                    AwaitingLaunch { config: self.config, output: self.output, port },
                )
            },
        }
    }
}

fn start(config: Config, frames: FrameSource, removal: Option<Removal>, port: u16) -> (r: Setup)
    ensures
        r@ == start_encoder(config@, frames, removal_view(removal), port),
{
    let encoder = frames.encoder_config(&config);
    Setup::StartEncoder(encoder, AwaitingEncoder { config, frames, removal, port })
}

impl AwaitingLaunch {
    /// Go on once the app is started, or with why it could not be.
    pub fn resume(self, failure: Option<String>) -> (r: Setup)
        ensures
            r@ == after_launch(self.config@, self.output@, self.port, cause_of(failure)),
    {
        match failure {
            Some(cause) => Setup::Failed(
                SetupError::Launching(cause),
                Held { output: self.output.removal, port: Some(self.port) },
            ),
            None => match self.output.device {
                Some(mode) => start(
                    self.config,
                    FrameSource::Evdi { width: mode.width, height: mode.height },
                    self.output.removal,
                    self.port,
                ),
                None => Setup::ProbeEncoder(
                    AwaitingTemplates { config: self.config, output: self.output, port: self.port },
                ),
            },
        }
    }
}

impl AwaitingTemplates {
    /// Go on with the pad templates of the encoder's first element, none where it
    /// is not installed.
    pub fn resume(self, templates: &Vec<PadTemplate>) -> (r: Setup)
        ensures
            r@ == after_templates(self.config@, self.output@, self.port, templates@),
    {
        let options = CaptureOptions {
            output: self.output.name,
            mode: BufferMode::Dmabuf,
            pool_size: CAPTURE_POOL_SIZE,
            modifiers: supported_modifiers(XR24, templates),
            paint_cursor: self.config.paint_cursor,
        };
        Setup::OpenCapture(
            options,
            AwaitingCapture {
                config: self.config,
                removal: self.output.removal,
                port: self.port,
            },
        )
    }
}

impl AwaitingCapture {
    /// Go on with the frames that the capture hands out.
    pub fn resume(self, frames: Result<FrameSource, String>) -> (r: Setup)
        ensures
            r@ == after_capture(
                self.config@,
                removal_view(self.removal),
                self.port,
                outcome_of(frames),
            ),
    {
        match frames {
            Err(cause) => Setup::Failed(
                SetupError::Failed(cause),
                Held { output: self.removal, port: Some(self.port) },
            ),
            Ok(frames) => start(self.config, frames, self.removal, self.port),
        }
    }
}

fn reach(
    config: Config,
    frames: FrameSource,
    removal: Option<Removal>,
    port: u16,
    with_audio: bool,
) -> (r: Setup)
    ensures
        r@ == connect(config@, frames, removal_view(removal), port, with_audio),
{
    match session_header(&frames, config.fps, with_audio) {
        Ok(header) => Setup::Connect(
            port,
            header,
            AwaitingConnection { config, frames, with_audio, removal, port },
        ),
        Err(e) => Setup::Failed(
            SetupError::Failed(e.to_string()),
            Held { output: removal, port: Some(port) },
        ),
    }
}

impl AwaitingEncoder {
    /// Go on once the encoder is started, or with why it could not be.
    pub fn resume(self, failure: Option<String>) -> (r: Setup)
        ensures
            r@ == after_encoder(
                self.config@,
                self.frames,
                removal_view(self.removal),
                self.port,
                cause_of(failure),
            ),
    {
        match failure {
            Some(cause) => Setup::Failed(
                SetupError::Failed(cause),
                Held { output: self.removal, port: Some(self.port) },
            ),
            None => {
                if self.config.audio_enabled {
                    Setup::ProbeAudio(
                        AwaitingAudioProbe {
                            config: self.config,
                            frames: self.frames,
                            removal: self.removal,
                            port: self.port,
                        },
                    )
                } else {
                    reach(self.config, self.frames, self.removal, self.port, false)
                }
            },
        }
    }
}

impl AwaitingAudioProbe {
    /// Go on with whether audio can be served.
    pub fn resume(self, available: bool) -> (r: Setup)
        ensures
            r@ == after_audio_probe(
                self.config@,
                self.frames,
                removal_view(self.removal),
                self.port,
                available,
            ),
    {
        match plan_audio(&self.config, available) {
            AudioPlan::Start(audio) => Setup::StartAudio(
                audio,
                AwaitingAudio {
                    config: self.config,
                    frames: self.frames,
                    removal: self.removal,
                    port: self.port,
                },
            ),
            _ => reach(self.config, self.frames, self.removal, self.port, false),
        }
    }
}

impl AwaitingAudio {
    /// Go on with whether the audio encoder was started. Where it was not, the
    /// session goes on with video alone.
    pub fn resume(self, started: bool) -> (r: Setup)
        ensures
            r@ == connect(
                self.config@,
                self.frames,
                removal_view(self.removal),
                self.port,
                started,
            ),
    {
        reach(self.config, self.frames, self.removal, self.port, started)
    }
}

impl AwaitingConnection {
    /// Go on once the header was sent, or with why the app could not be reached.
    pub fn resume(self, failure: Option<String>) -> (r: Setup)
        ensures
            r@ == after_connection(
                self.config@,
                self.frames,
                self.with_audio,
                HeldView { output: removal_view(self.removal), port: Some(self.port) },
                cause_of(failure),
            ),
    {
        let held = Held { output: self.removal, port: Some(self.port) };
        match failure {
            Some(cause) => Setup::Failed(SetupError::Connecting(cause), held),
            None => Setup::Stream {
                frames: self.frames,
                with_audio: self.with_audio,
                config: self.config,
                held,
            },
        }
    }
}

// ---------------------------------------------------------------------------
// Taking down
// ---------------------------------------------------------------------------

/// What a session has made and has not taken down when it stands at this step.
pub open spec fn held_at(step: SetupView) -> HeldView {
    match step {
        SetupView::AskTablet(..) => nothing(),
        SetupView::AskPanel(..) => nothing(),
        SetupView::CreateOutput(..) => nothing(),
        SetupView::Forward(_, _, output, _) => HeldView { output: output.removal, port: None },
        SetupView::Launch(_, output, port, _) => HeldView {
            output: output.removal,
            port: Some(port),
        },
        SetupView::ProbeEncoder(output, port, _) => HeldView {
            output: output.removal,
            port: Some(port),
        },
        SetupView::OpenCapture(_, removal, port, _) => HeldView {
            output: removal,
            port: Some(port),
        },
        SetupView::StartEncoder(_, _, removal, port, _) => HeldView {
            output: removal,
            port: Some(port),
        },
        SetupView::ProbeAudio(_, removal, port, _) => HeldView {
            output: removal,
            port: Some(port),
        },
        SetupView::StartAudio(_, _, removal, port, _) => HeldView {
            output: removal,
            port: Some(port),
        },
        SetupView::Connect(_, _, _, _, removal, port, _) => HeldView {
            output: removal,
            port: Some(port),
        },
        SetupView::Stream(_, _, held, _) => held,
        SetupView::Failed(_, held) => held,
    }
}

fn undo_list(output: &Option<Removal>, port: Option<u16>) -> (r: Vec<Undo>)
    ensures
        undo_views(r@) == undoing(HeldView { output: removal_view(*output), port }),
{
    let mut list: Vec<Undo> = Vec::new();
    if let Some(port) = port {
        list.push(Undo::RemoveForward(port));
    }
    if let Some(removal) = output {
        list.push(Undo::RemoveOutput(removal.copy()));
    }
    assert(undo_views(list@) =~= undoing(HeldView { output: removal_view(*output), port }));
    list
}

impl Setup {
    /// How to take down what the session has made so far, in this order.
    pub fn undo(&self) -> (r: Vec<Undo>)
        ensures
            undo_views(r@) == undoing(held_at(self@)),
    {
        match self {
            Setup::AskTablet(..) | Setup::AskPanel(..) | Setup::CreateOutput(..) => undo_list(
                &None,
                None,
            ),
            Setup::Forward(_, _, next) => undo_list(&next.output.removal, None),
            Setup::Launch(_, next) => undo_list(&next.output.removal, Some(next.port)),
            Setup::ProbeEncoder(next) => undo_list(&next.output.removal, Some(next.port)),
            Setup::OpenCapture(_, next) => undo_list(&next.removal, Some(next.port)),
            Setup::StartEncoder(_, next) => undo_list(&next.removal, Some(next.port)),
            Setup::ProbeAudio(next) => undo_list(&next.removal, Some(next.port)),
            Setup::StartAudio(_, next) => undo_list(&next.removal, Some(next.port)),
            Setup::Connect(_, _, next) => undo_list(&next.removal, Some(next.port)),
            Setup::Stream { held, .. } => undo_list(&held.output, held.port),
            Setup::Failed(_, held) => undo_list(&held.output, held.port),
        }
    }
}

/// What is still held once some things were taken down.
pub open spec fn held_after(held: HeldView, list: Seq<UndoView>) -> HeldView
    decreases list.len(),
{
    if list.len() == 0 {
        held
    } else {
        let before = held_after(held, list.drop_last());
        match list.last() {
            UndoView::RemoveForward(port) => if before.port == Some(port) {
                HeldView { port: None, ..before }
            } else {
                before
            },
            UndoView::RemoveOutput(removal) => if before.output == Some(removal) {
                HeldView { output: None, ..before }
            } else {
                before
            },
        }
    }
}

proof fn lemma_undoing(held: HeldView)
    ensures
        held_after(held, undoing(held)) == nothing(),
{
    reveal_with_fuel(held_after, 3);
    let list = undoing(held);
    if held.port is Some && held.output is Some {
        assert(list.drop_last() =~= seq![UndoView::RemoveForward(held.port->0)]);
        assert(list.drop_last().drop_last() =~= seq![]);
    } else if held.port is Some {
        assert(list =~= seq![UndoView::RemoveForward(held.port->0)]);
        assert(list.drop_last() =~= seq![]);
    } else if held.output is Some {
        assert(list =~= seq![UndoView::RemoveOutput(held.output->0)]);
        assert(list.drop_last() =~= seq![]);
    }
}

// ---------------------------------------------------------------------------
// Whole setups
// ---------------------------------------------------------------------------

/// What a step can be told.
pub ghost enum Answer {
    Packages(Result<Seq<char>, Seq<char>>),
    Panel(Result<(u32, u32), Seq<char>>),
    Output(Result<SourceView, (Seq<char>, Option<RemovalView>)>),
    Port(Result<u16, Seq<char>>),
    Launched(Option<Seq<char>>),
    Templates(Seq<PadTemplate>),
    Capture(Result<FrameSource, Seq<char>>),
    Encoder(Option<Seq<char>>),
    AudioProbe(bool),
    Audio(bool),
    Connection(Option<Seq<char>>),
}

/// The step after this one when it is told this. An answer that the step does not
/// wait for changes nothing.
pub open spec fn next_setup(step: SetupView, answer: Answer) -> SetupView {
    match (step, answer) {
        (SetupView::AskTablet(_, c), Answer::Packages(a)) => after_packages(c, a),
        (SetupView::AskPanel(c), Answer::Panel(p)) => after_panel(c, p),
        (SetupView::CreateOutput(_, c), Answer::Output(o)) => after_output(c, o),
        (SetupView::Forward(_, _, o, c), Answer::Port(p)) => after_forward(c, o, p),
        (SetupView::Launch(_, o, p, c), Answer::Launched(f)) => after_launch(c, o, p, f),
        (SetupView::ProbeEncoder(o, p, c), Answer::Templates(t)) => after_templates(c, o, p, t),
        (SetupView::OpenCapture(_, r, p, c), Answer::Capture(f)) => after_capture(c, r, p, f),
        (SetupView::StartEncoder(_, f, r, p, c), Answer::Encoder(e)) => after_encoder(
            c,
            f,
            r,
            p,
            e,
        ),
        (SetupView::ProbeAudio(f, r, p, c), Answer::AudioProbe(a)) => after_audio_probe(
            c,
            f,
            r,
            p,
            a,
        ),
        (SetupView::StartAudio(_, f, r, p, c), Answer::Audio(started)) => connect(
            c,
            f,
            r,
            p,
            started,
        ),
        (SetupView::Connect(_, _, f, w, r, p, c), Answer::Connection(e)) => after_connection(
            c,
            f,
            w,
            HeldView { output: r, port: Some(p) },
            e,
        ),
        _ => step,
    }
}

/// The step that a run of answers leads to.
pub open spec fn setup_after(config: ConfigView, answers: Seq<Answer>) -> SetupView
    decreases answers.len(),
{
    if answers.len() == 0 {
        ask_tablet(config)
    } else {
        next_setup(setup_after(config, answers.drop_last()), answers.last())
    }
}

/// The configuration that a step carries; a failure carries none.
pub open spec fn carried(step: SetupView) -> Option<ConfigView> {
    match step {
        SetupView::AskTablet(_, c) => Some(c),
        SetupView::AskPanel(c) => Some(c),
        SetupView::CreateOutput(_, c) => Some(c),
        SetupView::Forward(_, _, _, c) => Some(c),
        SetupView::Launch(_, _, _, c) => Some(c),
        SetupView::ProbeEncoder(_, _, c) => Some(c),
        SetupView::OpenCapture(_, _, _, c) => Some(c),
        SetupView::StartEncoder(_, _, _, _, c) => Some(c),
        SetupView::ProbeAudio(_, _, _, c) => Some(c),
        SetupView::StartAudio(_, _, _, _, c) => Some(c),
        SetupView::Connect(_, _, _, _, _, _, c) => Some(c),
        SetupView::Stream(_, _, _, c) => Some(c),
        SetupView::Failed(..) => None,
    }
}

/// Whether some answer started the audio encoder.
pub open spec fn audio_started(answers: Seq<Answer>) -> bool {
    exists|i: int| 0 <= i < answers.len() && #[trigger] answers[i] == Answer::Audio(true)
}

/// A session runs with the configuration that it was started with. Where audio is
/// switched off, its encoder is never asked for, and the header announces none;
/// and audio is only ever announced where its encoder has been started.
pub proof fn audio_is_announced_only_where_it_was_started(config: ConfigView, answers: Seq<Answer>)
    ensures
        carried(setup_after(config, answers)) matches Some(c) ==> c == config,
        !config.audio_enabled ==> !(setup_after(config, answers) is StartAudio) && !(setup_after(
            config,
            answers,
        ) is ProbeAudio),
        setup_after(config, answers) matches SetupView::Connect(
            _,
            header,
            frames,
            with_audio,
            _,
            _,
            _,
        ) ==> header == opening(frames.size(), config.fps, with_audio) && (with_audio ==>
            config.audio_enabled && audio_started(answers)),
        setup_after(config, answers) matches SetupView::Stream(_, with_audio, _, _) ==> (with_audio
            ==> config.audio_enabled && audio_started(answers)),
    decreases answers.len(),
{
    if answers.len() > 0 {
        let less = answers.drop_last();
        audio_is_announced_only_where_it_was_started(config, less);
        if audio_started(less) {
            let i = choose|i: int| 0 <= i < less.len() && #[trigger] less[i] == Answer::Audio(true);
            assert(answers[i] == less[i]);
        }
        if answers.last() == Answer::Audio(true) {
            assert(answers[answers.len() - 1] == Answer::Audio(true));
        }
    }
}

/// Whether some answer said that the tablet has the app.
pub open spec fn app_was_found(answers: Seq<Answer>) -> bool {
    exists|i: int|
        0 <= i < answers.len() && #[trigger] answers[i] is Packages
            && answers[i]->Packages_0 is Ok && contains_text(
            answers[i]->Packages_0->Ok_0,
            APP_PACKAGE@,
        )
}

/// Nothing is done on the host or the tablet before the app is known to be
/// installed.
pub proof fn nothing_happens_without_the_app(config: ConfigView, answers: Seq<Answer>)
    ensures
        !(setup_after(config, answers) is AskTablet) && !(setup_after(config, answers) is Failed)
            ==> app_was_found(answers),
    decreases answers.len(),
{
    if answers.len() > 0 {
        let less = answers.drop_last();
        nothing_happens_without_the_app(config, less);
        if app_was_found(less) {
            let i = choose|i: int|
                0 <= i < less.len() && #[trigger] less[i] is Packages && less[i]->Packages_0 is Ok
                    && contains_text(less[i]->Packages_0->Ok_0, APP_PACKAGE@);
            assert(answers[i] == less[i]);
        } else if setup_after(config, less) is AskTablet {
            assert(answers[answers.len() - 1] == answers.last());
        }
    }
}

/// What a session makes in a run of answers, and what takes it down: the output
/// that was created, or what a creation that failed had made, and the port that
/// was forwarded.
pub open spec fn made_by(config: ConfigView, answers: Seq<Answer>) -> HeldView
    decreases answers.len(),
{
    if answers.len() == 0 {
        nothing()
    } else {
        let before = made_by(config, answers.drop_last());
        match (setup_after(config, answers.drop_last()), answers.last()) {
            (SetupView::CreateOutput(..), Answer::Output(Ok(output))) => HeldView {
                output: output.removal,
                ..before
            },
            (SetupView::CreateOutput(..), Answer::Output(Err((_, made)))) => HeldView {
                output: made,
                ..before
            },
            (SetupView::Forward(..), Answer::Port(Ok(port))) => HeldView {
                port: Some(port),
                ..before
            },
            _ => before,
        }
    }
}

/// At each step, whether the setup is under way, frames are streamed or the
/// session has failed, the session holds exactly what it has made. An output is
/// made at most once, and so is a forwarded port, so nothing that was made is
/// forgotten for another.
pub proof fn everything_made_is_held(config: ConfigView, answers: Seq<Answer>)
    ensures
        held_at(setup_after(config, answers)) == made_by(config, answers),
        setup_after(config, answers) is CreateOutput ==> made_by(config, answers) == nothing(),
        setup_after(config, answers) is Forward ==> made_by(config, answers).port is None,
    decreases answers.len(),
{
    if answers.len() > 0 {
        everything_made_is_held(config, answers.drop_last());
    }
}

/// Wherever a session is over, also in the midst of its setup, nothing of what it
/// has made is left once the step at which it stands was undone.
pub proof fn session_leaves_nothing_behind(config: ConfigView, answers: Seq<Answer>)
    ensures
        held_after(made_by(config, answers), undoing(held_at(setup_after(config, answers))))
            == nothing(),
{
    everything_made_is_held(config, answers);
    lemma_undoing(made_by(config, answers));
}

/// Before the app is known to be installed nothing is made. Where the tablet says
/// that it does not have the app, the session has failed for good, with nothing to
/// undo.
pub proof fn nothing_is_made_without_the_app(config: ConfigView, answers: Seq<Answer>)
    ensures
        !app_was_found(answers) ==> made_by(config, answers) == nothing(),
        answers.len() > 0 && (answers[0] matches Answer::Packages(Ok(packages))
            && !contains_text(packages, APP_PACKAGE@)) ==> setup_after(config, answers)
            == SetupView::Failed(NOT_INSTALLED@, nothing()) && made_by(config, answers) == nothing()
            && undoing(made_by(config, answers)) == Seq::<UndoView>::empty(),
    decreases answers.len(),
{
    if answers.len() > 0 {
        let less = answers.drop_last();
        nothing_is_made_without_the_app(config, less);
        nothing_happens_without_the_app(config, less);
        if app_was_found(less) {
            let i = choose|i: int|
                0 <= i < less.len() && #[trigger] less[i] is Packages && less[i]->Packages_0 is Ok
                    && contains_text(less[i]->Packages_0->Ok_0, APP_PACKAGE@);
            assert(answers[i] == less[i]);
        }
        if less.len() > 0 {
            assert(less[0] == answers[0]);
        } else {
            assert(setup_after(config, less) == ask_tablet(config));
        }
        assert(undoing(nothing()) =~= Seq::<UndoView>::empty());
    }
}

// ---------------------------------------------------------------------------
// What the answers lead to
// ---------------------------------------------------------------------------

/// Whether a step waits for an answer of this kind.
pub open spec fn awaits(step: SetupView, answer: Answer) -> bool {
    match answer {
        Answer::Packages(_) => step is AskTablet,
        Answer::Panel(_) => step is AskPanel,
        Answer::Output(_) => step is CreateOutput,
        Answer::Port(_) => step is Forward,
        Answer::Launched(_) => step is Launch,
        Answer::Templates(_) => step is ProbeEncoder,
        Answer::Capture(_) => step is OpenCapture,
        Answer::Encoder(_) => step is StartEncoder,
        Answer::AudioProbe(_) => step is ProbeAudio,
        Answer::Audio(_) => step is StartAudio,
        Answer::Connection(_) => step is Connect,
    }
}

/// Why an answer ends a session; nothing where the session goes on. That there is no
/// audio never ends one.
pub open spec fn refusal(answer: Answer) -> Option<Seq<char>> {
    match answer {
        Answer::Packages(Ok(packages)) => if contains_text(packages, APP_PACKAGE@) {
            None
        } else {
            Some(NOT_INSTALLED@)
        },
        Answer::Packages(Err(cause)) => Some(cause),
        Answer::Panel(Err(cause)) => Some(cause),
        Answer::Output(Err((cause, _))) => Some(cause),
        Answer::Port(Err(cause)) => Some(cause),
        Answer::Launched(Some(cause)) => Some(cause),
        Answer::Capture(Err(cause)) => Some(cause),
        Answer::Encoder(Some(cause)) => Some(cause),
        Answer::Connection(Some(cause)) => Some(cause),
        _ => None,
    }
}

/// At most how many answers a step is away from the stream.
pub open spec fn answers_left(step: SetupView) -> nat {
    match step {
        SetupView::AskTablet(..) => 11,
        SetupView::AskPanel(..) => 10,
        SetupView::CreateOutput(..) => 9,
        SetupView::Forward(..) => 8,
        SetupView::Launch(..) => 7,
        SetupView::ProbeEncoder(..) => 6,
        SetupView::OpenCapture(..) => 5,
        SetupView::StartEncoder(..) => 4,
        SetupView::ProbeAudio(..) => 3,
        SetupView::StartAudio(..) => 2,
        SetupView::Connect(..) => 1,
        SetupView::Stream(..) => 0,
        SetupView::Failed(..) => 0,
    }
}

/// A session that gets the answer it waits for fails exactly where something that it
/// cannot do without was refused, with a message that ends with the cause, and comes
/// nearer to its stream otherwise. Other answers change nothing.
pub proof fn refusals_alone_end_the_setup(step: SetupView, answer: Answer)
    ensures
        !awaits(step, answer) ==> next_setup(step, answer) == step,
        awaits(step, answer) ==> match (refusal(answer), next_setup(step, answer)) {
            (Some(cause), SetupView::Failed(message, _)) => ends_with(message, cause),
            (Some(_), _) => false,
            (None, next) => next !is Failed && answers_left(next) < answers_left(step),
        },
        answers_left(step) == 0 <==> step is Stream || step is Failed,
{
    assert forall|words: Seq<char>, cause: Seq<char>| ends_with(#[trigger] (words + cause), cause) by {
        assert((words + cause).skip(words.len() as int) =~= cause);
    }
    assert forall|cause: Seq<char>| #[trigger] ends_with(cause, cause) by {
        assert(cause.skip(0) =~= cause);
    }
}

/// The panel's size, where it was asked for.
pub open spec fn panel_given(config: ConfigView, answers: Seq<Answer>) -> Option<(u32, u32)>
    decreases answers.len(),
{
    if answers.len() == 0 {
        None
    } else {
        match (setup_after(config, answers.drop_last()), answers.last()) {
            (SetupView::AskPanel(..), Answer::Panel(Ok(size))) => Some(size),
            _ => panel_given(config, answers.drop_last()),
        }
    }
}

/// The output that was created.
pub open spec fn output_given(config: ConfigView, answers: Seq<Answer>) -> Option<SourceView>
    decreases answers.len(),
{
    if answers.len() == 0 {
        None
    } else {
        match (setup_after(config, answers.drop_last()), answers.last()) {
            (SetupView::CreateOutput(..), Answer::Output(Ok(output))) => Some(output),
            _ => output_given(config, answers.drop_last()),
        }
    }
}

/// The frames that a capture hands out, where one was opened.
pub open spec fn capture_given(config: ConfigView, answers: Seq<Answer>) -> Option<FrameSource>
    decreases answers.len(),
{
    if answers.len() == 0 {
        None
    } else {
        match (setup_after(config, answers.drop_last()), answers.last()) {
            (SetupView::OpenCapture(..), Answer::Capture(Ok(frames))) => Some(frames),
            _ => capture_given(config, answers.drop_last()),
        }
    }
}

/// Whether frames are those of the output that was created: of its device, in the
/// device's mode, where it has one, and of the capture otherwise.
pub open spec fn are_its_frames(
    frames: FrameSource,
    output: Option<SourceView>,
    capture: Option<FrameSource>,
) -> bool {
    match output {
        Some(SourceView { device: Some(mode), .. }) => frames == (FrameSource::Evdi {
            width: mode.width,
            height: mode.height,
        }),
        Some(_) => capture == Some(frames),
        None => false,
    }
}

/// Whether what a session does at a step follows its configuration and the answers
/// so far.
pub open spec fn is_as_asked(
    step: SetupView,
    config: ConfigView,
    panel: Option<(u32, u32)>,
    output: Option<SourceView>,
    capture: Option<FrameSource>,
    port: Option<u16>,
) -> bool {
    match step {
        SetupView::AskPanel(_) => config.resolution is None,
        SetupView::CreateOutput(request, _) => {
            &&& request.name == config.output_name
            &&& request.refresh == config.fps
            &&& request.x == config.position_x
            &&& request.y == config.position_y
            &&& request.scale == config.scale
            &&& match (config.resolution, panel) {
                (Some((width, height)), _) => request.width == width && request.height == height,
                (None, Some(panel)) => {
                    &&& request.width <= config.max_width
                    &&& panel.0 <= config.max_width ==> request.width == panel.0 && request.height
                        == panel.1
                    &&& panel.0 > config.max_width ==> request.width == config.max_width
                        && request.height * panel.0 <= panel.1 * request.width < (request.height
                        + 1) * panel.0
                },
                (None, None) => false,
            }
        },
        SetupView::Forward(_, _, o, _) => output == Some(o),
        SetupView::Launch(_, o, p, _) => output == Some(o) && port == Some(p),
        SetupView::ProbeEncoder(o, p, _) => output == Some(o) && o.device is None && port == Some(
            p,
        ),
        SetupView::OpenCapture(options, _, p, _) => {
            &&& output matches Some(o) && o.device is None && options.output == o.name
            &&& options.paint_cursor == config.paint_cursor
            &&& options.modifiers.contains(0)
            &&& options.modifiers.no_duplicates()
            &&& port == Some(p)
        },
        SetupView::StartEncoder(encoder, frames, _, p, _) => {
            &&& are_its_frames(frames, output, capture)
            &&& encoder.framerate == config.fps
            &&& encoder.bitrate_kbps == config.bitrate_kbps
            &&& (encoder.width, encoder.height) == frames.size()
            &&& port == Some(p)
        },
        SetupView::ProbeAudio(frames, _, p, _) => are_its_frames(frames, output, capture) && port
            == Some(p),
        SetupView::StartAudio(audio, frames, _, p, _) => {
            &&& are_its_frames(frames, output, capture)
            &&& port == Some(p)
            &&& audio.sample_rate == 48_000
            &&& audio.channels == 2
            &&& audio.target_node is None
        },
        SetupView::Connect(to, header, frames, with_audio, _, p, _) => {
            &&& are_its_frames(frames, output, capture)
            &&& port == Some(to)
            &&& port == Some(p)
            &&& frames.size().0 < 65536 ==> header.width == frames.size().0
            &&& frames.size().1 < 65536 ==> header.height == frames.size().1
            &&& config.fps < 65536 ==> header.framerate == config.fps
            &&& header.audio_codec is Opus <==> with_audio
        },
        SetupView::Stream(frames, _, _, _) => are_its_frames(frames, output, capture),
        _ => true,
    }
}

proof fn lemma_modifiers_to_allow(templates: Seq<PadTemplate>)
    ensures
        ({
            let modifiers = modifiers_with_linear(
                advertised(templates),
                lossy_text(fourcc_bytes(XR24)),
            );
            modifiers.contains(0) && modifiers.no_duplicates()
        }),
{
    let texts = advertised(templates);
    let wanted = lossy_text(fourcc_bytes(XR24));
    supported_modifiers_are_those_advertised(texts, wanted);
    assert(modifiers_with_linear(texts, wanted).contains(0u64));
}

#[verifier::spinoff_prover]
#[verifier::rlimit(40)]
proof fn lemma_next_is_as_asked(
    step: SetupView,
    answer: Answer,
    config: ConfigView,
    panel: Option<(u32, u32)>,
    output: Option<SourceView>,
    capture: Option<FrameSource>,
    port: Option<u16>,
)
    requires
        is_as_asked(step, config, panel, output, capture, port),
        carried(step) matches Some(c) ==> c == config,
    ensures
        is_as_asked(
            next_setup(step, answer),
            config,
            match (step, answer) {
                (SetupView::AskPanel(..), Answer::Panel(Ok(size))) => Some(size),
                _ => panel,
            },
            match (step, answer) {
                (SetupView::CreateOutput(..), Answer::Output(Ok(output))) => Some(output),
                _ => output,
            },
            match (step, answer) {
                (SetupView::OpenCapture(..), Answer::Capture(Ok(frames))) => Some(frames),
                _ => capture,
            },
            match (step, answer) {
                (SetupView::Forward(..), Answer::Port(Ok(port))) => Some(port),
                _ => port,
            },
        ),
{
    match answer {
        Answer::Panel(Ok(size)) => {
            panels_keep_their_shape(size, config.max_width);
        },
        Answer::Templates(templates) => {
            lemma_modifiers_to_allow(templates);
        },
        _ => {},
    }
}

/// Everything that a session asks for follows its configuration: the output has the
/// name, rate, position and scale that were asked for, and an explicit resolution or
/// else the panel's shape within the cap; its frames are encoded at the rate and the
/// bitrate that were asked for; and the app is reached through the port that was
/// forwarded.
pub proof fn sessions_follow_their_config(config: ConfigView, answers: Seq<Answer>)
    ensures
        is_as_asked(
            setup_after(config, answers),
            config,
            panel_given(config, answers),
            output_given(config, answers),
            capture_given(config, answers),
            made_by(config, answers).port,
        ),
    decreases answers.len(),
{
    if answers.len() > 0 {
        let less = answers.drop_last();
        sessions_follow_their_config(config, less);
        audio_is_announced_only_where_it_was_started(config, less);
        everything_made_is_held(config, less);
        lemma_next_is_as_asked(
            setup_after(config, less),
            answers.last(),
            config,
            panel_given(config, less),
            output_given(config, less),
            capture_given(config, less),
            made_by(config, less).port,
        );
    }
}

} // verus!

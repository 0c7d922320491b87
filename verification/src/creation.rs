//! Creating a virtual output, step by step.
//!
//! Each [`Step`] says what is to be done next and holds what is to be told how
//! it went. Telling it gives the next step, until the output is there or the
//! creation has failed.

use crate::command::{Command, CommandView};
use crate::evdi::{EvdiOutput, Mode};
use crate::hyprland::{
    has_monitor, hyprland_monitor_state, json_document, lemma_rule_head_reads_back, lua_literal,
    lua_string, monitor_exists,
    monitor_views, monitors_in, read_rule_head, restore_hyprland_monitor_state, restore_script,
    rule_head, JsonFieldView,
    MonitorDefect, MonitorError, MonitorState, MonitorView, RuleHead,
};
use crate::numeral::{
    decimal, decimal_reads_back, push_decimal, push_signed_decimal, signed_decimal, unsigned_value,
};
use crate::output::{
    discovered_output_is_new, find_new_output, first_new, hyprland_removal, hyprland_removal_command, labwc_output_exists,
    listed_names, removal_view, unsupported, wlr_randr_output_names, Compositor, Removal,
    RemovalView, SupportError, VirtualOutput,
};
use crate::reading::{
    lacks, lemma_mode_reads_back, lemma_number_lacks, lemma_place_reads_back,
    lemma_size_reads_back, lemma_split_once, read_mode, read_place, read_size, split_once,
};
use crate::text::{contains, contains_text, copy_text, debug_text, occurs_at, quoted, texts};
use vstd::prelude::*;

verus! {

/// How long a compositor is given to settle after its outputs changed, in
/// milliseconds.
pub const SETTLE_MS: u64 = 400;

/// How long to wait from one look for a new output to the next, in milliseconds.
pub const DISCOVERY_INTERVAL_MS: u64 = 150;

/// How long a new output may take to appear, in milliseconds.
pub const DISCOVERY_TIMEOUT_MS: u64 = 5000;

// ---------------------------------------------------------------------------
// What is asked for
// ---------------------------------------------------------------------------

/// The output that is wanted. The scale is written with six decimals.
pub struct Request {
    pub name: String,
    pub width: u32,
    pub height: u32,
    pub refresh: u32,
    pub x: i32,
    pub y: i32,
    pub scale: String,
}

/// What a [`Request`] stands for.
#[verifier::ext_equal]
pub ghost struct RequestView {
    pub name: Seq<char>,
    pub width: u32,
    pub height: u32,
    pub refresh: u32,
    pub x: i32,
    pub y: i32,
    pub scale: Seq<char>,
}

impl View for Request {
    type V = RequestView;

    open spec fn view(&self) -> RequestView {
        RequestView {
            name: self.name@,
            width: self.width,
            height: self.height,
            refresh: self.refresh,
            x: self.x,
            y: self.y,
            scale: self.scale@,
        }
    }
}

// ---------------------------------------------------------------------------
// Commands
// ---------------------------------------------------------------------------

/// The command that lists all outputs.
pub open spec fn list_command() -> CommandView {
    CommandView::of("wlr-randr"@)
}

/// The command that tells the state of Hyprland's monitors.
pub open spec fn monitors_command() -> CommandView {
    CommandView::of("hyprctl"@).arg("monitors"@).arg("-j"@)
}

/// The command that has Hyprland make an output. It takes the name, so the
/// result is known beforehand.
pub open spec fn create_command(name: Seq<char>) -> CommandView {
    CommandView::of("hyprctl"@).arg("output"@).arg("create"@).arg("headless"@).arg(name)
}

/// Hyprland's description of the output: name, mode, position and scale.
pub open spec fn monitor_spec(r: RequestView) -> Seq<char> {
    r.name + ","@ + decimal(r.width as nat) + "x"@ + decimal(r.height as nat) + "@"@ + decimal(
        r.refresh as nat,
    ) + ","@ + signed_decimal(r.x as int) + "x"@ + signed_decimal(r.y as int) + ",1"@
}

/// The command that configures the output.
pub open spec fn configure_command(r: RequestView) -> CommandView {
    CommandView::of("hyprctl"@).arg("keyword"@).arg("monitor"@).arg(monitor_spec(r))
}

/// The Lua rule that configures the output.
pub open spec fn configure_script(r: RequestView) -> Seq<char> {
    "hl.monitor({ output = "@ + lua_literal(r.name) + ", mode = \""@ + decimal(r.width as nat)
        + "x"@ + decimal(r.height as nat) + "@"@ + decimal(r.refresh as nat) + "\", position = \""@
        + signed_decimal(r.x as int) + "x"@ + signed_decimal(r.y as int) + "\", scale = 1 })"@
}

/// The command that has Hyprland run Lua.
pub open spec fn eval_command(lua: Seq<char>) -> CommandView {
    CommandView::of("hyprctl"@).arg("eval"@).arg(lua)
}

/// The command that sets all other monitors to what they were.
pub open spec fn restore_command(saved: Seq<MonitorView>, name: Seq<char>) -> CommandView {
    eval_command(restore_script(saved, name))
}

/// The command that enables and places an output that is there.
pub open spec fn position_command(name: Seq<char>, r: RequestView) -> CommandView {
    CommandView::of("wlr-randr"@).arg("--output"@).arg(name).arg("--on"@).arg("--mode"@).arg(
        decimal(r.width as nat) + "x"@ + decimal(r.height as nat),
    ).arg("--pos"@).arg(signed_decimal(r.x as int) + ","@ + signed_decimal(r.y as int)).arg(
        "--scale"@,
    ).arg(r.scale)
}

fn monitor_spec_of(r: &Request) -> (text: String)
    ensures
        text@ == monitor_spec(r@),
{
    let mut text = copy_text(r.name.as_str());
    text.append(",");
    push_decimal(&mut text, r.width as u64);
    text.append("x");
    push_decimal(&mut text, r.height as u64);
    text.append("@");
    push_decimal(&mut text, r.refresh as u64);
    text.append(",");
    push_signed_decimal(&mut text, r.x as i64);
    text.append("x");
    push_signed_decimal(&mut text, r.y as i64);
    text.append(",1");
    text
}

fn configure_script_of(r: &Request) -> (text: String)
    ensures
        text@ == configure_script(r@),
{
    let mut text = copy_text("hl.monitor({ output = ");
    text.append(lua_string(r.name.as_str()).as_str());
    text.append(", mode = \"");
    push_decimal(&mut text, r.width as u64);
    text.append("x");
    push_decimal(&mut text, r.height as u64);
    text.append("@");
    push_decimal(&mut text, r.refresh as u64);
    text.append("\", position = \"");
    push_signed_decimal(&mut text, r.x as i64);
    text.append("x");
    push_signed_decimal(&mut text, r.y as i64);
    text.append("\", scale = 1 })");
    text
}

/// The command that enables and places an output that is there.
pub fn position_output(name: &str, r: &Request) -> (command: Command)
    ensures
        command@ == position_command(name@, r@),
{
    let mut mode = String::new();
    push_decimal(&mut mode, r.width as u64);
    assert(mode@ =~= decimal(r.width as nat));
    mode.append("x");
    push_decimal(&mut mode, r.height as u64);
    let mut position = String::new();
    push_signed_decimal(&mut position, r.x as i64);
    assert(position@ =~= signed_decimal(r.x as int));
    position.append(",");
    push_signed_decimal(&mut position, r.y as i64);
    Command::of("wlr-randr").arg("--output").arg(name).arg("--on").arg("--mode").arg(
        mode.as_str(),
    ).arg("--pos").arg(position.as_str()).arg("--scale").arg(r.scale.as_str())
}

// ---------------------------------------------------------------------------
// Failures
// ---------------------------------------------------------------------------

/// What was being done when a creation failed.
#[derive(Debug)]
pub enum Doing {
    ReadingState,
    Creating,
    Configuring(String),
    Restoring,
    Connecting,
    Positioning,
    Registering,
}

impl Doing {
    /// The text that tells a person what was being done.
    pub open spec fn text(self) -> Seq<char> {
        match self {
            Doing::ReadingState =>
                "saving Hyprland monitor state: reading Hyprland monitor state"@,
            Doing::Creating => "creating headless output"@,
            Doing::Configuring(what) => "configuring output as "@ + what@,
            Doing::Restoring =>
                "restoring Hyprland monitor state: restoring Hyprland monitor state"@,
            Doing::Connecting => "creating evdi virtual output"@,
            Doing::Positioning => "positioning evdi output via wlr-randr"@,
            Doing::Registering => "registering evdi frame buffer"@,
        }
    }

    pub fn to_string(&self) -> (r: String)
        ensures
            r@ == self.text(),
    {
        match self {
            Doing::ReadingState => copy_text(
                "saving Hyprland monitor state: reading Hyprland monitor state",
            ),
            Doing::Creating => copy_text("creating headless output"),
            Doing::Configuring(what) => {
                let mut r = copy_text("configuring output as ");
                r.append(what.as_str());
                r
            },
            Doing::Restoring => copy_text(
                "restoring Hyprland monitor state: restoring Hyprland monitor state",
            ),
            Doing::Connecting => copy_text("creating evdi virtual output"),
            Doing::Positioning => copy_text("positioning evdi output via wlr-randr"),
            Doing::Registering => copy_text("registering evdi frame buffer"),
        }
    }
}

/// Why an output could not be created.
#[derive(Debug)]
pub enum CreateError {
    /// labwc has no output by this name.
    NoSuchOutput(String),
    /// The compositor cannot host a session.
    Support(SupportError),
    /// Something that was done failed, with the cause.
    Failed(Doing, String),
    /// The state of Hyprland's monitors could not be read.
    Monitors(MonitorError),
    /// The device did not become an output in time.
    NeverAppeared,
}

/// What is said of an output that labwc does not have.
pub open spec fn no_such_output(name: Seq<char>) -> Seq<char> {
    "labwc output "@ + debug_text(name)
        + " does not exist.\nlabwc cannot create one at runtime, so start it with a headless output — `WLR_HEADLESS_OUTPUTS=1 labwc` — and pass that output's name (`wlr-randr` lists it, usually HEADLESS-1) with --output-name.\nSee docs/COMPATIBILITY.md."@
}

/// What is said of something that failed.
pub open spec fn failed_doing(doing: Seq<char>, cause: Seq<char>) -> Seq<char> {
    doing + ": "@ + cause
}

/// What is said of monitors that could not be read. Where the text is no JSON,
/// the parser's own words come after this.
pub open spec fn bad_monitors(defect: Option<MonitorDefect>) -> Seq<char> {
    failed_doing(
        "saving Hyprland monitor state"@,
        match defect {
            Some(d) => d.message(),
            None => "parsing Hyprland monitor JSON"@,
        },
    )
}

/// What is said of an output that did not appear.
pub open spec fn never_appeared() -> Seq<char> {
    failed_doing(
        "finding the evdi output in wlr-randr's output list"@,
        "evdi output never appeared in wlr-randr's output list within 5s; is niri running and watching for DRM hotplug?"@,
    )
}

impl CreateError {
    /// The text that tells a person what went wrong.
    pub open spec fn message(self) -> Seq<char> {
        match self {
            CreateError::NoSuchOutput(name) => no_such_output(name@),
            CreateError::Support(e) => e.message(),
            CreateError::Failed(doing, cause) => failed_doing(doing.text(), cause@),
            CreateError::Monitors(MonitorError::NotJson(_)) => bad_monitors(None),
            CreateError::Monitors(MonitorError::Defect(d)) => bad_monitors(Some(d)),
            CreateError::NeverAppeared => never_appeared(),
        }
    }

    pub fn to_string(&self) -> (r: String)
        ensures
            r@ == self.message(),
    {
        match self {
            CreateError::NoSuchOutput(name) => {
                let mut r = copy_text("labwc output ");
                r.append(quoted(name.as_str()).as_str());
                r.append(
                    " does not exist.\nlabwc cannot create one at runtime, so start it with a headless output — `WLR_HEADLESS_OUTPUTS=1 labwc` — and pass that output's name (`wlr-randr` lists it, usually HEADLESS-1) with --output-name.\nSee docs/COMPATIBILITY.md.",
                );
                r
            },
            CreateError::Support(e) => e.to_string(),
            CreateError::Failed(doing, cause) => {
                let mut r = doing.to_string();
                r.append(": ");
                r.append(cause.as_str());
                r
            },
            CreateError::Monitors(e) => {
                let mut r = copy_text("saving Hyprland monitor state");
                r.append(": ");
                match e {
                    MonitorError::NotJson(_) => r.append("parsing Hyprland monitor JSON"),
                    MonitorError::Defect(d) => r.append(d.to_string().as_str()),
                }
                r
            },
            CreateError::NeverAppeared => {
                let mut r = copy_text("finding the evdi output in wlr-randr's output list");
                r.append(": ");
                r.append(
                    "evdi output never appeared in wlr-randr's output list within 5s; is niri running and watching for DRM hotplug?",
                );
                r
            },
        }
    }
}

// ---------------------------------------------------------------------------
// Steps
// ---------------------------------------------------------------------------

/// What a command was run for.
pub enum Purpose {
    LabwcListing,
    NiriListing,
    /// The output with this name is being placed.
    NiriPosition(String),
    HyprlandState,
    HyprlandCreate(Vec<MonitorState>),
    HyprlandConfigure(Vec<MonitorState>),
    HyprlandConfigureLua(Vec<MonitorState>),
    HyprlandRestore(Vec<MonitorState>),
}

/// What a [`Purpose`] stands for.
#[verifier::ext_equal]
pub ghost enum PurposeView {
    LabwcListing,
    NiriListing,
    NiriPosition(Seq<char>),
    HyprlandState,
    HyprlandCreate(Seq<MonitorView>),
    HyprlandConfigure(Seq<MonitorView>),
    HyprlandConfigureLua(Seq<MonitorView>),
    HyprlandRestore(Seq<MonitorView>),
}

impl View for Purpose {
    type V = PurposeView;

    open spec fn view(&self) -> PurposeView {
        match *self {
            Purpose::LabwcListing => PurposeView::LabwcListing,
            Purpose::NiriListing => PurposeView::NiriListing,
            Purpose::NiriPosition(name) => PurposeView::NiriPosition(name@),
            Purpose::HyprlandState => PurposeView::HyprlandState,
            Purpose::HyprlandCreate(saved) => PurposeView::HyprlandCreate(monitor_views(saved@)),
            Purpose::HyprlandConfigure(saved) => PurposeView::HyprlandConfigure(
                monitor_views(saved@),
            ),
            Purpose::HyprlandConfigureLua(saved) => PurposeView::HyprlandConfigureLua(
                monitor_views(saved@),
            ),
            Purpose::HyprlandRestore(saved) => PurposeView::HyprlandRestore(monitor_views(saved@)),
        }
    }
}

/// What comes after a pause.
pub enum Pending {
    /// Another look for an output that is not among these.
    Discovery(Vec<String>),
    /// Configuring the output that was made.
    Configuration(Vec<MonitorState>),
    /// Nothing: the output is ready.
    Completion,
}

/// What a [`Pending`] stands for.
#[verifier::ext_equal]
pub ghost enum PendingView {
    Discovery(Seq<Seq<char>>),
    Configuration(Seq<MonitorView>),
    Completion,
}

impl View for Pending {
    type V = PendingView;

    open spec fn view(&self) -> PendingView {
        match *self {
            Pending::Discovery(before) => PendingView::Discovery(texts(before@)),
            Pending::Configuration(saved) => PendingView::Configuration(monitor_views(saved@)),
            Pending::Completion => PendingView::Completion,
        }
    }
}

/// Waits for a command's answer.
pub struct AwaitingReply {
    pub request: Request,
    pub purpose: Purpose,
}

/// Waits for a device to be connected and mode-set.
pub struct AwaitingDevice {
    pub request: Request,
    pub before: Vec<String>,
}

/// Waits for a listing, and for whether the time for a new output to appear is
/// over.
pub struct AwaitingListing {
    pub request: Request,
    pub before: Vec<String>,
}

/// Waits for time to pass.
pub struct AwaitingTime {
    pub request: Request,
    pub pending: Pending,
}

/// Waits for the device to be given a buffer.
pub struct AwaitingBuffer {
    pub name: String,
}

/// What is to be done next.
pub enum Step {
    /// Run a command.
    Run(Command, AwaitingReply),
    /// Connect a device for a mode, and have it mode-set.
    Connect { width: u32, height: u32, refresh: u32, next: AwaitingDevice },
    /// Run a command that lists the outputs.
    List(Command, AwaitingListing),
    /// Sleep for so many milliseconds.
    Sleep(u64, AwaitingTime),
    /// Give the device a buffer for its mode.
    Register(AwaitingBuffer),
    /// The output is there.
    Done(VirtualOutput),
    /// There will be no output. What was made on the way there is taken down by
    /// this.
    Failed(CreateError, Option<Removal>),
}

/// What a [`VirtualOutput`] stands for.
#[verifier::ext_equal]
pub ghost enum OutputView {
    Managed(Compositor, Seq<char>),
    Evdi(Mode, Seq<char>),
}

/// What a [`Step`] stands for. A failure is its message.
#[verifier::ext_equal]
pub ghost enum StepView {
    Run(CommandView, RequestView, PurposeView),
    Connect(u32, u32, u32, RequestView, Seq<Seq<char>>),
    List(CommandView, RequestView, Seq<Seq<char>>),
    Sleep(u64, RequestView, PendingView),
    Register(Seq<char>),
    Done(OutputView),
    Failed(Seq<char>, Option<RemovalView>),
}

pub open spec fn output_view(output: VirtualOutput) -> OutputView {
    match output {
        VirtualOutput::Managed { compositor, name } => OutputView::Managed(compositor, name@),
        VirtualOutput::Evdi { evdi, name } => OutputView::Evdi(evdi.current_mode(), name@),
    }
}

impl View for Step {
    type V = StepView;

    open spec fn view(&self) -> StepView {
        match *self {
            Step::Run(command, next) => StepView::Run(command@, next.request@, next.purpose@),
            Step::Connect { width, height, refresh, next } => StepView::Connect(
                width,
                height,
                refresh,
                next.request@,
                texts(next.before@),
            ),
            Step::List(command, next) => StepView::List(
                command@,
                next.request@,
                texts(next.before@),
            ),
            Step::Sleep(ms, next) => StepView::Sleep(ms, next.request@, next.pending@),
            Step::Register(next) => StepView::Register(next.name@),
            Step::Done(output) => StepView::Done(output_view(output)),
            Step::Failed(e, made) => StepView::Failed(e.message(), removal_view(made)),
        }
    }
}

/// What a command answered, or why it failed.
pub open spec fn reply_view(reply: Result<String, String>) -> Result<Seq<char>, Seq<char>> {
    match reply {
        Ok(text) => Ok(text@),
        Err(cause) => Err(cause@),
    }
}

/// The first step.
pub open spec fn first_step(
    compositor: Compositor,
    request: RequestView,
    desktop: Option<Seq<char>>,
) -> StepView {
    match compositor {
        Compositor::Labwc => StepView::Run(list_command(), request, PurposeView::LabwcListing),
        Compositor::Niri => StepView::Run(list_command(), request, PurposeView::NiriListing),
        Compositor::Hyprland => StepView::Run(
            monitors_command(),
            request,
            PurposeView::HyprlandState,
        ),
        Compositor::Sway => StepView::Failed(SupportError::Sway.message(), None),
        Compositor::Unsupported => StepView::Failed(unsupported(desktop), None),
    }
}

/// What takes down the output that has been made under Hyprland. One that was
/// there when the monitors were saved has not been made.
pub open spec fn leftover(request: RequestView, saved: Seq<MonitorView>) -> Option<RemovalView> {
    if has_monitor(saved, request.name) {
        None
    } else {
        Some(RemovalView::Run(hyprland_removal(request.name)))
    }
}

/// The step that configures the output under Hyprland.
pub open spec fn configure_step(request: RequestView, saved: Seq<MonitorView>) -> StepView {
    StepView::Run(configure_command(request), request, PurposeView::HyprlandConfigure(saved))
}

/// The step that sets the other monitors back under Hyprland.
pub open spec fn restore_step(request: RequestView, saved: Seq<MonitorView>) -> StepView {
    StepView::Run(
        restore_command(saved, request.name),
        request,
        PurposeView::HyprlandRestore(saved),
    )
}

/// The step after Hyprland's monitors were asked for and this came back.
pub open spec fn after_state(
    request: RequestView,
    document: Option<Option<Seq<Seq<JsonFieldView>>>>,
) -> StepView {
    match document {
        None => StepView::Failed(bad_monitors(None), None),
        Some(items) => match monitors_in(items) {
            Err(defect) => StepView::Failed(bad_monitors(Some(defect)), None),
            Ok(saved) => if has_monitor(saved, request.name) {
                configure_step(request, saved)
            } else {
                StepView::Run(
                    create_command(request.name),
                    request,
                    PurposeView::HyprlandCreate(saved),
                )
            },
        },
    }
}

/// The step after a command answered or failed.
pub open spec fn after_reply(
    request: RequestView,
    purpose: PurposeView,
    reply: Result<Seq<char>, Seq<char>>,
) -> StepView {
    match (purpose, reply) {
        (PurposeView::LabwcListing, Ok(listing)) => if listed_names(listing).contains(
            request.name,
        ) {
            StepView::Done(OutputView::Managed(Compositor::Labwc, request.name))
        } else {
            StepView::Failed(no_such_output(request.name), None)
        },
        (PurposeView::LabwcListing, Err(_)) => StepView::Failed(
            no_such_output(request.name),
            None,
        ),
        (PurposeView::NiriListing, _) => StepView::Connect(
            request.width,
            request.height,
            request.refresh,
            request,
            match reply {
                Ok(listing) => listed_names(listing),
                Err(_) => seq![],
            },
        ),
        (PurposeView::NiriPosition(name), Ok(_)) => StepView::Register(name),
        (PurposeView::NiriPosition(_), Err(cause)) => StepView::Failed(
            failed_doing(Doing::Positioning.text(), cause),
            Some(RemovalView::CloseDevice),
        ),
        (PurposeView::HyprlandState, Ok(json)) => after_state(request, json_document(json)),
        (PurposeView::HyprlandState, Err(cause)) => StepView::Failed(
            failed_doing(Doing::ReadingState.text(), cause),
            None,
        ),
        (PurposeView::HyprlandCreate(saved), Ok(_)) => StepView::Sleep(
            SETTLE_MS,
            request,
            PendingView::Configuration(saved),
        ),
        (PurposeView::HyprlandCreate(_), Err(cause)) => StepView::Failed(
            failed_doing(Doing::Creating.text(), cause),
            None,
        ),
        // A newer Hyprland refuses the keyword, on its output and not by its
        // status, and takes the same rule as Lua.
        (PurposeView::HyprlandConfigure(saved), Ok(answer)) => if contains_text(
            answer,
            "non-legacy parsers"@,
        ) {
            StepView::Run(
                eval_command(configure_script(request)),
                request,
                PurposeView::HyprlandConfigureLua(saved),
            )
        } else {
            restore_step(request, saved)
        },
        (PurposeView::HyprlandConfigure(saved), Err(cause)) => StepView::Failed(
            failed_doing("configuring output as "@ + monitor_spec(request), cause),
            leftover(request, saved),
        ),
        (PurposeView::HyprlandConfigureLua(saved), Ok(_)) => restore_step(request, saved),
        (PurposeView::HyprlandConfigureLua(saved), Err(cause)) => StepView::Failed(
            failed_doing("configuring output as "@ + configure_script(request), cause),
            leftover(request, saved),
        ),
        (PurposeView::HyprlandRestore(_), Ok(_)) => StepView::Sleep(
            SETTLE_MS,
            request,
            PendingView::Completion,
        ),
        (PurposeView::HyprlandRestore(saved), Err(cause)) => StepView::Failed(
            failed_doing(Doing::Restoring.text(), cause),
            leftover(request, saved),
        ),
    }
}

/// The step after the device was connected or not.
pub open spec fn after_device(
    request: RequestView,
    before: Seq<Seq<char>>,
    failure: Option<Seq<char>>,
) -> StepView {
    match failure {
        None => StepView::List(list_command(), request, before),
        Some(cause) => StepView::Failed(failed_doing(Doing::Connecting.text(), cause), None),
    }
}

/// The step after a look for the new output.
pub open spec fn after_listing(
    request: RequestView,
    before: Seq<Seq<char>>,
    listing: Option<Seq<char>>,
    late: bool,
) -> StepView {
    let found = match listing {
        Some(text) => first_new(listed_names(text), before),
        None => None,
    };
    match found {
        Some(name) => StepView::Run(
            position_command(name, request),
            request,
            PurposeView::NiriPosition(name),
        ),
        None => if late {
            StepView::Failed(never_appeared(), Some(RemovalView::CloseDevice))
        } else {
            StepView::Sleep(DISCOVERY_INTERVAL_MS, request, PendingView::Discovery(before))
        },
    }
}

/// The step after a pause.
pub open spec fn after_time(request: RequestView, pending: PendingView) -> StepView {
    match pending {
        PendingView::Discovery(before) => StepView::List(list_command(), request, before),
        PendingView::Configuration(saved) => configure_step(request, saved),
        PendingView::Completion => StepView::Done(
            OutputView::Managed(Compositor::Hyprland, request.name),
        ),
    }
}

/// The step after the device was given a buffer or not.
pub open spec fn after_buffer(name: Seq<char>, device: Result<Mode, Seq<char>>) -> StepView {
    match device {
        Ok(mode) => StepView::Done(OutputView::Evdi(mode, name)),
        Err(cause) => StepView::Failed(
            failed_doing(Doing::Registering.text(), cause),
            Some(RemovalView::CloseDevice),
        ),
    }
}

impl VirtualOutput {
    /// Start to create an output under the compositor that is running. `desktop`
    /// is `XDG_CURRENT_DESKTOP`, where it is set.
    pub fn create(compositor: Compositor, request: Request, desktop: Option<&str>) -> (r: Step)
        ensures
            r@ == first_step(
                compositor,
                request@,
                match desktop {
                    Some(d) => Some(d@),
                    None => None,
                },
            ),
    {
        match compositor {
            Compositor::Labwc => Step::Run(
                Command::of("wlr-randr"),
                AwaitingReply { request, purpose: Purpose::LabwcListing },
            ),
            Compositor::Niri => Step::Run(
                Command::of("wlr-randr"),
                AwaitingReply { request, purpose: Purpose::NiriListing },
            ),
            Compositor::Hyprland => Step::Run(
                Command::of("hyprctl").arg("monitors").arg("-j"),
                AwaitingReply { request, purpose: Purpose::HyprlandState },
            ),
            Compositor::Sway => Step::Failed(CreateError::Support(SupportError::Sway), None),
            Compositor::Unsupported => Step::Failed(
                CreateError::Support(
                    SupportError::Unsupported(
                        match desktop {
                            Some(d) => Some(copy_text(d)),
                            None => None,
                        },
                    ),
                ),
                None,
            ),
        }
    }
}

fn leftover_of(request: &Request, saved: &Vec<MonitorState>) -> (r: Option<Removal>)
    ensures
        removal_view(r) == leftover(request@, monitor_views(saved@)),
{
    if monitor_exists(saved, request.name.as_str()) {
        None
    } else {
        Some(Removal::Run(hyprland_removal_command(request.name.as_str())))
    }
}

fn configure(request: Request, saved: Vec<MonitorState>) -> (r: Step)
    ensures
        r@ == configure_step(request@, monitor_views(saved@)),
{
    let spec_text = monitor_spec_of(&request);
    Step::Run(
        Command::of("hyprctl").arg("keyword").arg("monitor").arg(spec_text.as_str()),
        AwaitingReply { request, purpose: Purpose::HyprlandConfigure(saved) },
    )
}

fn restore(request: Request, saved: Vec<MonitorState>) -> (r: Step)
    ensures
        r@ == restore_step(request@, monitor_views(saved@)),
{
    let lua = restore_hyprland_monitor_state(&saved, request.name.as_str());
    Step::Run(
        Command::of("hyprctl").arg("eval").arg(lua.as_str()),
        AwaitingReply { request, purpose: Purpose::HyprlandRestore(saved) },
    )
}

fn handle_state(request: Request, json: &str) -> (r: Step)
    ensures
        r@ == after_state(request@, json_document(json@)),
{
    match hyprland_monitor_state(json) {
        Err(e) => Step::Failed(CreateError::Monitors(e), None),
        Ok(saved) => {
            if monitor_exists(&saved, request.name.as_str()) {
                configure(request, saved)
            } else {
                let command = Command::of("hyprctl").arg("output").arg("create").arg(
                    "headless",
                ).arg(request.name.as_str());
                Step::Run(
                    command,
                    AwaitingReply { request, purpose: Purpose::HyprlandCreate(saved) },
                )
            }
        },
    }
}

impl AwaitingReply {
    /// Go on with what the command answered, or with why it failed.
    pub fn resume(self, reply: Result<String, String>) -> (r: Step)
        ensures
            r@ == after_reply(self.request@, self.purpose@, reply_view(reply)),
    {
        let request = self.request;
        match self.purpose {
            Purpose::LabwcListing => {
                let exists = match &reply {
                    Ok(listing) => labwc_output_exists(
                        Some(listing.as_str()),
                        request.name.as_str(),
                    ),
                    Err(_) => labwc_output_exists(None, request.name.as_str()),
                };
                if exists {
                    Step::Done(
                        VirtualOutput::Managed {
                            compositor: Compositor::Labwc,
                            name: request.name,
                        },
                    )
                } else {
                    Step::Failed(CreateError::NoSuchOutput(request.name), None)
                }
            },
            Purpose::NiriListing => {
                let before = match &reply {
                    Ok(listing) => wlr_randr_output_names(listing.as_str()),
                    Err(_) => Vec::new(),
                };
                proof {
                    if reply is Err {
                        assert(texts(before@) =~= seq![]);
                    }
                }
                Step::Connect {
                    width: request.width,
                    height: request.height,
                    refresh: request.refresh,
                    next: AwaitingDevice { request, before },
                }
            },
            Purpose::NiriPosition(name) => match reply {
                Ok(_) => Step::Register(AwaitingBuffer { name }),
                Err(cause) => Step::Failed(
                    CreateError::Failed(Doing::Positioning, cause),
                    Some(Removal::CloseDevice),
                ),
            },
            Purpose::HyprlandState => match reply {
                Ok(json) => handle_state(request, json.as_str()),
                Err(cause) => Step::Failed(CreateError::Failed(Doing::ReadingState, cause), None),
            },
            Purpose::HyprlandCreate(saved) => match reply {
                Ok(_) => Step::Sleep(
                    SETTLE_MS,
                    AwaitingTime { request, pending: Pending::Configuration(saved) },
                ),
                Err(cause) => Step::Failed(CreateError::Failed(Doing::Creating, cause), None),
            },
            Purpose::HyprlandConfigure(saved) => match reply {
                Ok(answer) => {
                    if contains(answer.as_str(), "non-legacy parsers") {
                        let lua = configure_script_of(&request);
                        Step::Run(
                            Command::of("hyprctl").arg("eval").arg(lua.as_str()),
                            AwaitingReply {
                                request,
                                purpose: Purpose::HyprlandConfigureLua(saved),
                            },
                        )
                    } else {
                        restore(request, saved)
                    }
                },
                Err(cause) => Step::Failed(
                    CreateError::Failed(Doing::Configuring(monitor_spec_of(&request)), cause),
                    leftover_of(&request, &saved),
                ),
            },
            Purpose::HyprlandConfigureLua(saved) => match reply {
                Ok(_) => restore(request, saved),
                Err(cause) => Step::Failed(
                    CreateError::Failed(Doing::Configuring(configure_script_of(&request)), cause),
                    leftover_of(&request, &saved),
                ),
            },
            Purpose::HyprlandRestore(saved) => match reply {
                Ok(_) => Step::Sleep(
                    SETTLE_MS,
                    AwaitingTime { request, pending: Pending::Completion },
                ),
                Err(cause) => Step::Failed(
                    CreateError::Failed(Doing::Restoring, cause),
                    leftover_of(&request, &saved),
                ),
            },
        }
    }
}

impl AwaitingDevice {
    /// Go on once the device is mode-set, or with why it could not be had.
    pub fn resume(self, failure: Option<String>) -> (r: Step)
        ensures
            r@ == after_device(
                self.request@,
                texts(self.before@),
                match failure {
                    Some(cause) => Some(cause@),
                    None => None,
                },
            ),
    {
        match failure {
            None => Step::List(
                Command::of("wlr-randr"),
                AwaitingListing { request: self.request, before: self.before },
            ),
            Some(cause) => Step::Failed(CreateError::Failed(Doing::Connecting, cause), None),
        }
    }
}

impl AwaitingListing {
    /// Go on with the listing, where it could be had, and with whether the time
    /// for a new output to appear was over after that.
    pub fn resume(self, listing: Option<&str>, late: bool) -> (r: Step)
        ensures
            r@ == after_listing(
                self.request@,
                texts(self.before@),
                match listing {
                    Some(text) => Some(text@),
                    None => None,
                },
                late,
            ),
    {
        let found = match listing {
            Some(text) => find_new_output(text, &self.before),
            None => None,
        };
        match found {
            Some(name) => {
                let command = position_output(name.as_str(), &self.request);
                Step::Run(
                    command,
                    AwaitingReply { request: self.request, purpose: Purpose::NiriPosition(name) },
                )
            },
            None => {
                if late {
                    Step::Failed(CreateError::NeverAppeared, Some(Removal::CloseDevice))
                } else {
                    Step::Sleep(
                        DISCOVERY_INTERVAL_MS,
                        AwaitingTime {
                            request: self.request,
                            pending: Pending::Discovery(self.before),
                        },
                    )
                }
            },
        }
    }
}

impl AwaitingTime {
    /// Go on once the time has passed.
    pub fn resume(self) -> (r: Step)
        ensures
            r@ == after_time(self.request@, self.pending@),
    {
        match self.pending {
            Pending::Discovery(before) => Step::List(
                Command::of("wlr-randr"),
                AwaitingListing { request: self.request, before },
            ),
            Pending::Configuration(saved) => configure(self.request, saved),
            Pending::Completion => Step::Done(
                VirtualOutput::Managed {
                    compositor: Compositor::Hyprland,
                    name: self.request.name,
                },
            ),
        }
    }
}

impl AwaitingBuffer {
    /// Go on with the device, or with why it could not be given a buffer.
    pub fn resume(self, device: Result<EvdiOutput, String>) -> (r: Step)
        ensures
            r@ == after_buffer(
                self.name@,
                match device {
                    Ok(evdi) => Ok(evdi.current_mode()),
                    Err(cause) => Err(cause@),
                },
            ),
    {
        match device {
            Ok(evdi) => Step::Done(VirtualOutput::Evdi { evdi: Box::new(evdi), name: self.name }),
            Err(cause) => Step::Failed(
                CreateError::Failed(Doing::Registering, cause),
                Some(Removal::CloseDevice),
            ),
        }
    }
}

// ---------------------------------------------------------------------------
// Whole creations
// ---------------------------------------------------------------------------

/// What a step can be told.
pub ghost enum Answer {
    Reply(Result<Seq<char>, Seq<char>>),
    Device(Option<Seq<char>>),
    Listing(Option<Seq<char>>, bool),
    Time,
    Buffer(Result<Mode, Seq<char>>),
}

/// The step after this one when it is told this. An answer that the step does
/// not wait for changes nothing.
pub open spec fn next_step(step: StepView, answer: Answer) -> StepView {
    match (step, answer) {
        (StepView::Run(_, request, purpose), Answer::Reply(reply)) => after_reply(
            request,
            purpose,
            reply,
        ),
        (StepView::Connect(_, _, _, request, before), Answer::Device(failure)) => after_device(
            request,
            before,
            failure,
        ),
        (StepView::List(_, request, before), Answer::Listing(listing, late)) => after_listing(
            request,
            before,
            listing,
            late,
        ),
        (StepView::Sleep(_, request, pending), Answer::Time) => after_time(request, pending),
        (StepView::Register(name), Answer::Buffer(device)) => after_buffer(name, device),
        _ => step,
    }
}

/// The step that a run of answers leads to.
#[verifier::opaque]
pub open spec fn step_after(step: StepView, answers: Seq<Answer>) -> StepView
    decreases answers.len(),
{
    if answers.len() == 0 {
        step
    } else {
        next_step(step_after(step, answers.drop_last()), answers.last())
    }
}

/// Whether a run came by this step and had its command succeed there.
pub open spec fn ran_well(start: StepView, answers: Seq<Answer>, step: StepView) -> bool {
    exists|k: int|
        0 <= k < answers.len() && #[trigger] step_after(start, answers.take(k)) == step
            && answers[k] is Reply && answers[k]->Reply_0 is Ok
}

proof fn lemma_ran_well_extends(start: StepView, answers: Seq<Answer>, step: StepView)
    requires
        answers.len() > 0,
        ran_well(start, answers.drop_last(), step),
    ensures
        ran_well(start, answers, step),
{
    let less = answers.drop_last();
    let k = choose|k: int|
        0 <= k < less.len() && #[trigger] step_after(start, less.take(k)) == step && less[k] is Reply
            && less[k]->Reply_0 is Ok;
    assert(less.take(k) =~= answers.take(k));
    assert(answers[k] == less[k]);
}

/// Where a creation under Hyprland can stand once the monitors were saved.
pub open spec fn past_saving(
    request: RequestView,
    saved: Seq<MonitorView>,
    restored: bool,
    step: StepView,
) -> bool {
    match step {
        StepView::Run(_, r, PurposeView::HyprlandCreate(s)) => r == request && s == saved,
        StepView::Run(_, r, PurposeView::HyprlandConfigure(s)) => r == request && s == saved,
        StepView::Run(_, r, PurposeView::HyprlandConfigureLua(s)) => r == request && s == saved,
        StepView::Run(_, _, PurposeView::HyprlandRestore(_)) => step == restore_step(request, saved),
        StepView::Sleep(_, r, PendingView::Configuration(s)) => r == request && s == saved,
        StepView::Sleep(_, r, PendingView::Completion) => r == request && restored,
        StepView::Done(output) => restored && output == OutputView::Managed(
            Compositor::Hyprland,
            request.name,
        ),
        StepView::Failed(..) => true,
        _ => false,
    }
}

/// Whether the monitors were read in a run, and this is how they stood.
pub open spec fn saved_in(start: StepView, answers: Seq<Answer>, saved: Seq<MonitorView>) -> bool {
    exists|k: int|
        0 <= k < answers.len() && #[trigger] step_after(start, answers.take(k)) == start
            && answers[k] is Reply && answers[k]->Reply_0 is Ok && reads_as(
            answers[k]->Reply_0->Ok_0,
            saved,
        )
}

/// Whether a text describes monitors that stand so.
pub open spec fn reads_as(json: Seq<char>, saved: Seq<MonitorView>) -> bool {
    json_document(json) matches Some(document) && monitors_in(document) == Ok::<_, MonitorDefect>(
        saved,
    )
}

proof fn lemma_saved_in_extends(start: StepView, answers: Seq<Answer>, saved: Seq<MonitorView>)
    requires
        answers.len() > 0,
        saved_in(start, answers.drop_last(), saved),
    ensures
        saved_in(start, answers, saved),
{
    let less = answers.drop_last();
    let k = choose|k: int|
        0 <= k < less.len() && #[trigger] step_after(start, less.take(k)) == start && less[k] is Reply
            && less[k]->Reply_0 is Ok && reads_as(less[k]->Reply_0->Ok_0, saved);
    assert(less.take(k) =~= answers.take(k));
    assert(answers[k] == less[k]);
}

/// Whether a run has saved the monitors in this state and got as far as this
/// step.
pub open spec fn got_past_saving(
    request: RequestView,
    start: StepView,
    answers: Seq<Answer>,
    saved: Seq<MonitorView>,
) -> bool {
    &&& saved_in(start, answers, saved)
    &&& past_saving(
        request,
        saved,
        ran_well(start, answers, restore_step(request, saved)),
        step_after(start, answers),
    )
}

/// Under Hyprland an output is handed out only after the monitors were saved and
/// every other monitor has been set back to the state that it was saved in; and it
/// is the output that was asked for.
pub proof fn hyprland_monitors_are_restored_first(
    request: RequestView,
    desktop: Option<Seq<char>>,
    answers: Seq<Answer>,
)
    ensures
        ({
            let start = first_step(Compositor::Hyprland, request, desktop);
            step_after(start, answers) matches StepView::Done(output) ==> output
                == OutputView::Managed(Compositor::Hyprland, request.name) && exists|
                saved: Seq<MonitorView>,
            | #[trigger]
                saved_in(start, answers, saved) && ran_well(
                    start,
                    answers,
                    restore_step(request, saved),
                )
        }),
{
    lemma_past_saving(request, desktop, answers);
    let start = first_step(Compositor::Hyprland, request, desktop);
    if step_after(start, answers) is Done {
        let saved = choose|saved: Seq<MonitorView>| #[trigger]
            got_past_saving(request, start, answers, saved);
        assert(saved_in(start, answers, saved));
    }
}

proof fn lemma_past_saving(
    request: RequestView,
    desktop: Option<Seq<char>>,
    answers: Seq<Answer>,
)
    ensures
        ({
            let start = first_step(Compositor::Hyprland, request, desktop);
            let step = step_after(start, answers);
            step == start || step is Failed || exists|saved: Seq<MonitorView>| #[trigger]
                got_past_saving(request, start, answers, saved)
        }),
    decreases answers.len(),
{
    reveal(step_after);
    let start = first_step(Compositor::Hyprland, request, desktop);
    if answers.len() > 0 {
        let less = answers.drop_last();
        let before = step_after(start, less);
        let step = step_after(start, answers);
        lemma_past_saving(request, desktop, less);
        assert(answers.take(answers.len() - 1) =~= less);
        if before == start {
            if step != start && !(step is Failed) {
                let document = json_document(answers.last()->Reply_0->Ok_0)->0;
                let saved = monitors_in(document)->Ok_0;
                assert(reads_as(answers.last()->Reply_0->Ok_0, saved));
                assert(saved_in(start, answers, saved)) by {
                    assert(step_after(start, answers.take(answers.len() - 1)) == start);
                }
                assert(got_past_saving(request, start, answers, saved));
            }
        } else if !(before is Failed) {
            let saved = choose|saved: Seq<MonitorView>| #[trigger]
                got_past_saving(request, start, less, saved);
            let restoring = restore_step(request, saved);
            lemma_saved_in_extends(start, answers, saved);
            if ran_well(start, less, restoring) {
                lemma_ran_well_extends(start, answers, restoring);
            }
            if before == restoring && answers.last() is Reply && answers.last()->Reply_0 is Ok {
                assert(ran_well(start, answers, restoring)) by {
                    assert(step_after(start, answers.take(answers.len() - 1)) == restoring);
                }
            }
            assert(got_past_saving(request, start, answers, saved));
        }
    }
}

/// Whether a creation under niri that stands at this step has placed what it
/// must have placed.
pub open spec fn placed_so_far(
    request: RequestView,
    start: StepView,
    answers: Seq<Answer>,
    step: StepView,
) -> bool {
    match step {
        StepView::Run(_, r, PurposeView::NiriListing) => r == request,
        StepView::Connect(_, _, _, r, _) => r == request,
        StepView::List(_, r, _) => r == request,
        StepView::Sleep(_, r, PendingView::Discovery(_)) => r == request,
        StepView::Run(_, _, PurposeView::NiriPosition(name)) => step == position_step(
            request,
            name,
        ),
        StepView::Register(name) => ran_well(start, answers, position_step(request, name)),
        StepView::Done(OutputView::Evdi(_, name)) => ran_well(
            start,
            answers,
            position_step(request, name),
        ),
        StepView::Failed(..) => true,
        _ => false,
    }
}

/// The step that places the device's output under niri.
pub open spec fn position_step(request: RequestView, name: Seq<char>) -> StepView {
    StepView::Run(position_command(name, request), request, PurposeView::NiriPosition(name))
}

/// Under niri the device is given its buffer only after its output has been
/// placed: placing it can invalidate a buffer that is there already. So what is
/// handed out has been placed too, under its own name.
pub proof fn niri_output_is_placed_before_its_buffer(
    request: RequestView,
    desktop: Option<Seq<char>>,
    answers: Seq<Answer>,
)
    ensures
        placed_so_far(
            request,
            first_step(Compositor::Niri, request, desktop),
            answers,
            step_after(first_step(Compositor::Niri, request, desktop), answers),
        ),
    decreases answers.len(),
{
    reveal(step_after);
    if answers.len() > 0 {
        let start = first_step(Compositor::Niri, request, desktop);
        let less = answers.drop_last();
        niri_output_is_placed_before_its_buffer(request, desktop, less);
        match step_after(start, less) {
            StepView::Register(name) => {
                lemma_ran_well_extends(start, answers, position_step(request, name));
            },
            StepView::Done(OutputView::Evdi(_, name)) => {
                lemma_ran_well_extends(start, answers, position_step(request, name));
            },
            StepView::Run(_, _, PurposeView::NiriPosition(name)) => {
                if answers.last() is Reply && answers.last()->Reply_0 is Ok {
                    assert(answers.take(answers.len() - 1) =~= less);
                    assert(step_after(start, answers.take(answers.len() - 1)) == position_step(
                        request,
                        name,
                    ));
                    assert(ran_well(start, answers, position_step(request, name)));
                }
            },
            _ => {},
        }
    }
}

/// What takes an output down.
pub open spec fn removal_of(output: OutputView) -> Option<RemovalView> {
    match output {
        OutputView::Evdi(_, _) => Some(RemovalView::CloseDevice),
        OutputView::Managed(Compositor::Hyprland, name) => Some(
            RemovalView::Run(hyprland_removal(name)),
        ),
        OutputView::Managed(Compositor::Sway, name) => Some(
            RemovalView::Run(
                CommandView::of("swaymsg"@).arg("output"@).arg(name).arg("unplug"@),
            ),
        ),
        OutputView::Managed(_, _) => None,
    }
}

/// What takes down that which a run of answers has made: an output that Hyprland
/// was had to make, or a device that was connected.
pub open spec fn made_in(start: StepView, answers: Seq<Answer>) -> Option<RemovalView>
    decreases answers.len(),
{
    if answers.len() == 0 {
        None
    } else {
        match (step_after(start, answers.drop_last()), answers.last()) {
            (
                StepView::Run(_, request, PurposeView::HyprlandCreate(_)),
                Answer::Reply(Ok(_)),
            ) => Some(RemovalView::Run(hyprland_removal(request.name))),
            (StepView::Connect(..), Answer::Device(None)) => Some(RemovalView::CloseDevice),
            _ => made_in(start, answers.drop_last()),
        }
    }
}

/// Whether this is what takes down that which has been made by the time that a
/// creation stands at a step.
pub open spec fn accounted_for(step: StepView, made: Option<RemovalView>) -> bool {
    match step {
        StepView::Run(_, request, PurposeView::HyprlandCreate(saved)) => made is None
            && !has_monitor(saved, request.name),
        StepView::Run(_, request, PurposeView::HyprlandConfigure(saved)) => made == leftover(
            request,
            saved,
        ),
        StepView::Run(_, request, PurposeView::HyprlandConfigureLua(saved)) => made == leftover(
            request,
            saved,
        ),
        StepView::Run(_, request, PurposeView::HyprlandRestore(saved)) => made == leftover(
            request,
            saved,
        ),
        StepView::Run(_, _, PurposeView::NiriPosition(_)) => made == Some(
            RemovalView::CloseDevice,
        ),
        StepView::Run(..) => made is None,
        StepView::Connect(..) => made is None,
        StepView::List(..) => made == Some(RemovalView::CloseDevice),
        StepView::Sleep(_, _, PendingView::Discovery(_)) => made == Some(RemovalView::CloseDevice),
        StepView::Sleep(_, request, PendingView::Configuration(saved)) => made == leftover(
            request,
            saved,
        ),
        StepView::Sleep(_, request, PendingView::Completion) => made is Some ==> made == Some(
            RemovalView::Run(hyprland_removal(request.name)),
        ),
        StepView::Register(_) => made == Some(RemovalView::CloseDevice),
        StepView::Done(output) => made is Some ==> made == removal_of(output),
        StepView::Failed(_, removal) => made == removal,
    }
}

/// Whatever a creation has made is taken down by what it hands out at its end:
/// where it failed, by what comes with the failure, and elsewhere by what takes
/// down the output itself. A creation that failed hands out nothing more than
/// that, so it never takes down an output that was there before.
pub proof fn creation_accounts_for_what_it_made(
    compositor: Compositor,
    request: RequestView,
    desktop: Option<Seq<char>>,
    answers: Seq<Answer>,
)
    ensures
        accounted_for(
            step_after(first_step(compositor, request, desktop), answers),
            made_in(first_step(compositor, request, desktop), answers),
        ),
    decreases answers.len(),
{
    reveal(step_after);
    if answers.len() > 0 {
        creation_accounts_for_what_it_made(compositor, request, desktop, answers.drop_last());
    }
}

/// A creation under Hyprland in which every command succeeds ends with the
/// output, whether or not it was there before and whether or not the
/// compositor took the keyword.
pub proof fn hyprland_creation_succeeds(
    request: RequestView,
    desktop: Option<Seq<char>>,
    document: Option<Seq<Seq<JsonFieldView>>>,
    saved: Seq<MonitorView>,
    json: Seq<char>,
    answer: Seq<char>,
    other: Seq<char>,
)
    requires
        json_document(json) == Some(document),
        monitors_in(document) == Ok::<_, MonitorDefect>(saved),
    ensures
        ({
            let ok = Answer::Reply(Ok(other));
            let made = if has_monitor(saved, request.name) {
                seq![]
            } else {
                seq![ok, Answer::Time]
            };
            let again = if contains_text(answer, "non-legacy parsers"@) {
                seq![ok]
            } else {
                seq![]
            };
            step_after(
                first_step(Compositor::Hyprland, request, desktop),
                seq![Answer::Reply(Ok(json))] + made + seq![Answer::Reply(Ok(answer))] + again
                    + seq![ok, Answer::Time],
            ) == StepView::Done(OutputView::Managed(Compositor::Hyprland, request.name))
        }),
{
    let ok = Answer::Reply(Ok(other));
    let start = first_step(Compositor::Hyprland, request, desktop);
    let made: Seq<Answer> = if has_monitor(saved, request.name) {
        seq![]
    } else {
        seq![ok, Answer::Time]
    };
    let again: Seq<Answer> = if contains_text(answer, "non-legacy parsers"@) {
        seq![ok]
    } else {
        seq![]
    };
    let a1 = seq![Answer::Reply(Ok(json))];
    let a3 = seq![Answer::Reply(Ok(answer))];
    let a5 = seq![ok, Answer::Time];
    lemma_one(start, Answer::Reply(Ok(json)));
    lemma_making(request, saved, after_state(request, Some(document)), ok);
    lemma_one(configure_step(request, saved), Answer::Reply(Ok(answer)));
    lemma_configuring(request, saved, answer, other);
    lemma_two(restore_step(request, saved), ok, Answer::Time);
    lemma_run_on(start, a1, made);
    lemma_run_on(start, a1 + made, a3);
    lemma_run_on(start, a1 + made + a3, again);
    lemma_run_on(start, a1 + made + a3 + again, a5);
}

/// From the saved state to configuring the output.
proof fn lemma_making(
    request: RequestView,
    saved: Seq<MonitorView>,
    step: StepView,
    ok: Answer,
)
    requires
        step == (if has_monitor(saved, request.name) {
            configure_step(request, saved)
        } else {
            StepView::Run(
                create_command(request.name),
                request,
                PurposeView::HyprlandCreate(saved),
            )
        }),
        ok is Reply,
        ok->Reply_0 is Ok,
    ensures
        step_after(
            step,
            if has_monitor(saved, request.name) {
                seq![]
            } else {
                seq![ok, Answer::Time]
            },
        ) == configure_step(request, saved),
{
    reveal(step_after);
    if !has_monitor(saved, request.name) {
        lemma_two(step, ok, Answer::Time);
    }
}

/// From configuring the output to restoring the others.
proof fn lemma_configuring(
    request: RequestView,
    saved: Seq<MonitorView>,
    answer: Seq<char>,
    other: Seq<char>,
)
    ensures
        step_after(
            after_reply(request, PurposeView::HyprlandConfigure(saved), Ok(answer)),
            if contains_text(answer, "non-legacy parsers"@) {
                seq![Answer::Reply(Ok(other))]
            } else {
                seq![]
            },
        ) == restore_step(request, saved),
{
    reveal(step_after);
    if contains_text(answer, "non-legacy parsers"@) {
        lemma_one(
            after_reply(request, PurposeView::HyprlandConfigure(saved), Ok(answer)),
            Answer::Reply(Ok(other)),
        );
    }
}

proof fn lemma_one(step: StepView, answer: Answer)
    ensures
        step_after(step, seq![answer]) == next_step(step, answer),
{
    reveal(step_after);
    let run = seq![answer];
    assert(run.drop_last() =~= seq![]);
    assert(step_after(step, run.drop_last()) == step);
}

proof fn lemma_two(step: StepView, first: Answer, second: Answer)
    ensures
        step_after(step, seq![first, second]) == next_step(next_step(step, first), second),
{
    reveal(step_after);
    let run = seq![first, second];
    lemma_one(step, first);
    assert(run.drop_last() =~= seq![first]);
}

proof fn lemma_run_on(step: StepView, a: Seq<Answer>, b: Seq<Answer>)
    ensures
        step_after(step, a + b) == step_after(step_after(step, a), b),
    decreases b.len(),
{
    reveal(step_after);
    if b.len() == 0 {
        assert(a + b =~= a);
    } else {
        lemma_run_on(step, a, b.drop_last());
        assert((a + b).drop_last() =~= a + b.drop_last());
    }
}

// ---------------------------------------------------------------------------
// What the commands say
// ---------------------------------------------------------------------------

/// What Hyprland is told of an output in one line: its name, its size, its refresh
/// rate, its position and its scale.
pub ghost struct ReadSpec {
    pub name: Seq<char>,
    pub size: (int, int),
    pub refresh: nat,
    pub place: (int, int),
    pub scale: Seq<char>,
}

/// The parts of such a line.
pub open spec fn read_monitor_spec(t: Seq<char>) -> Option<ReadSpec> {
    match split_once(t, ',') {
        None => None,
        Some((name, t)) => match split_once(t, ',') {
            None => None,
            Some((mode, t)) => match split_once(t, ',') {
                None => None,
                Some((place, scale)) => match (read_mode(mode), read_place(place, 'x')) {
                    (Some((size, rate)), Some(place)) => match unsigned_value(
                        rate,
                        10,
                        u32::MAX as nat,
                    ) {
                        Some(refresh) => Some(ReadSpec { name, size, refresh, place, scale }),
                        None => None,
                    },
                    _ => None,
                },
            },
        },
    }
}

/// Read back, what Hyprland is told of the output is what was asked for, at scale
/// one, for names without a comma.
pub proof fn monitor_spec_reads_back(r: RequestView)
    requires
        lacks(r.name, ','),
    ensures
        read_monitor_spec(monitor_spec(r)) == Some(
            ReadSpec {
                name: r.name,
                size: (r.width as int, r.height as int),
                refresh: r.refresh as nat,
                place: (r.x as int, r.y as int),
                scale: seq!['1'],
            },
        ),
{
    reveal_strlit(",");
    reveal_strlit("x");
    reveal_strlit("@");
    reveal_strlit(",1");
    let w = decimal(r.width as nat);
    let h = decimal(r.height as nat);
    let rate = decimal(r.refresh as nat);
    let mode = w + seq!['x'] + h + seq!['@'] + rate;
    let place = signed_decimal(r.x as int) + seq!['x'] + signed_decimal(r.y as int);
    let t2 = place + seq![','] + seq!['1'];
    let t1 = mode + seq![','] + t2;
    assert(monitor_spec(r) =~= r.name + seq![','] + t1);
    lemma_number_lacks(r.width as int, ',');
    lemma_number_lacks(r.height as int, ',');
    lemma_number_lacks(r.refresh as int, ',');
    lemma_number_lacks(r.x as int, ',');
    lemma_number_lacks(r.y as int, ',');
    assert(lacks(mode, ','));
    assert(lacks(place, ','));
    lemma_split_once(r.name, ',', t1);
    lemma_split_once(mode, ',', t2);
    lemma_split_once(place, ',', seq!['1']);
    lemma_mode_reads_back(r.width, r.height, rate);
    lemma_place_reads_back(r.x, r.y, 'x');
    decimal_reads_back(r.refresh as nat, u32::MAX as nat);
}

/// Read back, the Lua that configures the output says the same, whatever the name
/// is.
pub proof fn configure_script_reads_back(r: RequestView)
    ensures
        read_rule_head(configure_script(r)) == Some(
            (
                RuleHead {
                    name: r.name,
                    size: (r.width as int, r.height as int),
                    rate: decimal(r.refresh as nat),
                    place: (r.x as int, r.y as int),
                },
                ", scale = 1 })"@,
            ),
        ),
        unsigned_value(decimal(r.refresh as nat), 10, u32::MAX as nat) == Some(r.refresh as nat),
{
    reveal_strlit("\"");
    reveal_strlit("\", scale = 1 })");
    reveal_strlit(", scale = 1 })");
    let rate = decimal(r.refresh as nat);
    let rest = ", scale = 1 })"@;
    lemma_number_lacks(r.refresh as int, '"');
    lemma_number_lacks(r.refresh as int, '\\');
    assert("\", scale = 1 })"@ =~= "\""@ + rest);
    assert(configure_script(r) =~= rule_head(r.name, r.width, r.height, rate, r.x, r.y) + rest);
    lemma_rule_head_reads_back(r.name, r.width, r.height, rate, r.x, r.y, rest);
    decimal_reads_back(r.refresh as nat, u32::MAX as nat);
}

/// The command that places an output switches it on, in the size, at the position
/// and in the scale that were asked for, under its own name.
pub proof fn outputs_are_placed_as_asked(name: Seq<char>, r: RequestView)
    ensures
        ({
            let args = position_command(name, r).args;
            &&& position_command(name, r).program == "wlr-randr"@
            &&& args.len() == 9
            &&& args[0] == "--output"@ && args[1] == name
            &&& args[2] == "--on"@
            &&& args[3] == "--mode"@ && read_size(args[4], 'x') == Some(
                (r.width as int, r.height as int),
            )
            &&& args[5] == "--pos"@ && read_place(args[6], ',') == Some((r.x as int, r.y as int))
            &&& args[7] == "--scale"@ && args[8] == r.scale
        }),
{
    reveal_strlit("x");
    reveal_strlit(",");
    assert("x"@ =~= seq!['x']);
    assert(","@ =~= seq![',']);
    lemma_size_reads_back(r.width, r.height, 'x');
    lemma_place_reads_back(r.x, r.y, ',');
}

/// Hyprland is had to make and to take down the same output: the one that was asked
/// for.
pub proof fn the_output_that_is_made_is_taken_down(name: Seq<char>)
    ensures
        create_command(name).program == hyprland_removal(name).program,
        create_command(name).args.last() == name,
        hyprland_removal(name).args.last() == name,
        create_command(name).args[0] == hyprland_removal(name).args[0],
        create_command(name).args[1] == "create"@,
        hyprland_removal(name).args[1] == "remove"@,
{
}

// ---------------------------------------------------------------------------
// What the answers lead to
// ---------------------------------------------------------------------------

/// Whether a message ends with a cause.
pub open spec fn ends_with(message: Seq<char>, cause: Seq<char>) -> bool {
    cause.len() <= message.len() && message.skip(message.len() - cause.len()) == cause
}

/// A command that fails ends the creation, and the message ends with the cause. Only
/// a listing may fail: on niri an empty one takes its place, and on labwc there is
/// no such output.
pub proof fn failing_commands_end_the_creation(
    request: RequestView,
    purpose: PurposeView,
    cause: Seq<char>,
)
    ensures
        match after_reply(request, purpose, Err(cause)) {
            StepView::Failed(message, _) => purpose is LabwcListing || ends_with(message, cause),
            StepView::Connect(_, _, _, r, before) => purpose is NiriListing && r == request
                && before.len() == 0,
            _ => false,
        },
        purpose is NiriListing ==> !(after_reply(request, purpose, Err(cause)) is Failed),
        after_device(request, seq![], Some(cause)) matches StepView::Failed(message, _)
            && ends_with(message, cause),
        after_buffer(request.name, Err(cause)) matches StepView::Failed(message, _) && ends_with(
            message,
            cause,
        ),
{
    assert forall|doing: Seq<char>| ends_with(#[trigger] failed_doing(doing, cause), cause) by {
        let message = failed_doing(doing, cause);
        assert(message.skip(message.len() - cause.len()) =~= cause);
    }
}

/// On labwc the output is handed out exactly where it is listed, and none other
/// than the one that was asked for.
pub proof fn labwc_lends_what_is_listed(request: RequestView, listing: Seq<char>)
    ensures
        match after_reply(request, PurposeView::LabwcListing, Ok(listing)) {
            StepView::Done(output) => listed_names(listing).contains(request.name) && output
                == OutputView::Managed(Compositor::Labwc, request.name),
            StepView::Failed(_, made) => !listed_names(listing).contains(request.name) && made
                is None,
            _ => false,
        },
{
}

/// On niri the device is connected for exactly the mode that was asked for, and
/// what was listed before is kept.
pub proof fn niri_connects_the_mode(request: RequestView, reply: Result<Seq<char>, Seq<char>>)
    ensures
        after_reply(request, PurposeView::NiriListing, reply) matches StepView::Connect(
            width,
            height,
            refresh,
            r,
            before,
        ) && {
            &&& width == request.width
            &&& height == request.height
            &&& refresh == request.refresh
            &&& r == request
            &&& reply matches Ok(listing) ==> before == listed_names(listing)
        },
{
}

/// On niri an output is taken for the device's exactly where it is listed now and
/// was not before. As long as there is none the look is repeated, until it is too
/// late.
pub proof fn niri_takes_what_is_new(
    request: RequestView,
    before: Seq<Seq<char>>,
    listing: Option<Seq<char>>,
    late: bool,
)
    ensures
        ({
            let nothing_new = listing matches Some(text) ==> forall|i: int|
                0 <= i < listed_names(text).len() ==> before.contains(
                    #[trigger] listed_names(text)[i],
                );
            match after_listing(request, before, listing, late) {
                StepView::Run(command, r, PurposeView::NiriPosition(name)) => {
                    &&& listing matches Some(text) && listed_names(text).contains(name)
                    &&& !before.contains(name)
                    &&& command == position_command(name, request)
                    &&& r == request
                },
                StepView::Sleep(_, r, PendingView::Discovery(still)) => {
                    &&& nothing_new
                    &&& !late
                    &&& r == request
                    &&& still == before
                },
                StepView::Failed(..) => nothing_new && late,
                _ => false,
            }
        }),
{
    if let Some(text) = listing {
        discovered_output_is_new(listed_names(text), before);
    }
}

/// On Hyprland an output by the name that was asked for is used where there is one,
/// and is had made otherwise, in either case with all monitors saved as they are.
pub proof fn hyprland_makes_what_is_missing(
    request: RequestView,
    json: Seq<char>,
    saved: Seq<MonitorView>,
)
    requires
        reads_as(json, saved),
    ensures
        ({
            let there = exists|i: int|
                0 <= i < saved.len() && (#[trigger] saved[i]).name == request.name;
            match after_reply(request, PurposeView::HyprlandState, Ok(json)) {
                StepView::Run(command, r, PurposeView::HyprlandCreate(s)) => {
                    &&& !there
                    &&& command == create_command(request.name)
                    &&& r == request
                    &&& s == saved
                },
                StepView::Run(command, r, PurposeView::HyprlandConfigure(s)) => {
                    &&& there
                    &&& command == configure_command(request)
                    &&& r == request
                    &&& s == saved
                },
                _ => false,
            }
        }),
{
    assert(has_monitor(saved, request.name) <==> exists|i: int|
        0 <= i < saved.len() && (#[trigger] saved[i]).name == request.name) by {
        if has_monitor(saved, request.name) {
            let i = choose|i: int| 0 <= i < saved.len() && #[trigger] saved[i].name == request.name;
            assert(saved[i].name == request.name);
        }
    }
}

/// The run of a creation on niri up to the listing of the outputs.
#[verifier::spinoff_prover]
proof fn lemma_niri_connects(request: RequestView, desktop: Option<Seq<char>>, listing: Seq<char>)
    ensures
        step_after(
            first_step(Compositor::Niri, request, desktop),
            seq![Answer::Reply(Ok(listing)), Answer::Device(None)],
        ) == StepView::List(list_command(), request, listed_names(listing)),
{
    let start = first_step(Compositor::Niri, request, desktop);
    lemma_two(start, Answer::Reply(Ok(listing)), Answer::Device(None));
}

/// The run of a creation on niri from a listing with a new output to the buffer.
#[verifier::spinoff_prover]
proof fn lemma_niri_places(
    request: RequestView,
    before: Seq<Seq<char>>,
    later: Seq<char>,
    late: bool,
    other: Seq<char>,
    fresh: Seq<char>,
)
    requires
        listed_names(later).contains(fresh),
        !before.contains(fresh),
    ensures
        step_after(
            StepView::List(list_command(), request, before),
            seq![Answer::Listing(Some(later), late), Answer::Reply(Ok(other))],
        ) matches StepView::Register(name) && listed_names(later).contains(name)
            && !before.contains(name),
{
    niri_takes_what_is_new(request, before, Some(later), late);
    let i = choose|i: int| 0 <= i < listed_names(later).len() && listed_names(later)[i] == fresh;
    assert(!before.contains(listed_names(later)[i]));
    lemma_two(
        StepView::List(list_command(), request, before),
        Answer::Listing(Some(later), late),
        Answer::Reply(Ok(other)),
    );
}

/// The run of a creation on niri once it has its buffer.
#[verifier::spinoff_prover]
proof fn lemma_niri_ends(name: Seq<char>, mode: Mode)
    ensures
        step_after(StepView::Register(name), seq![Answer::Buffer(Ok(mode))]) == StepView::Done(
            OutputView::Evdi(mode, name),
        ),
{
    lemma_one(StepView::Register(name), Answer::Buffer(Ok(mode)));
}

/// On niri a creation in which nothing fails ends with the device, in the mode that
/// it was given a buffer for, under a name that was not listed before.
#[verifier::spinoff_prover]
#[verifier::rlimit(60)]
pub proof fn niri_creation_succeeds(
    request: RequestView,
    desktop: Option<Seq<char>>,
    listing: Seq<char>,
    later: Seq<char>,
    late: bool,
    other: Seq<char>,
    mode: Mode,
    fresh: Seq<char>,
)
    requires
        listed_names(later).contains(fresh),
        !listed_names(listing).contains(fresh),
    ensures
        step_after(
            first_step(Compositor::Niri, request, desktop),
            seq![
                Answer::Reply(Ok(listing)),
                Answer::Device(None),
                Answer::Listing(Some(later), late),
                Answer::Reply(Ok(other)),
                Answer::Buffer(Ok(mode)),
            ],
        ) matches StepView::Done(OutputView::Evdi(m, name)) && {
            &&& m == mode
            &&& listed_names(later).contains(name)
            &&& !listed_names(listing).contains(name)
        },
{
    let start = first_step(Compositor::Niri, request, desktop);
    let before = listed_names(listing);
    let a = seq![Answer::Reply(Ok(listing)), Answer::Device(None)];
    let b = seq![Answer::Listing(Some(later), late), Answer::Reply(Ok(other))];
    let c = seq![Answer::Buffer(Ok(mode))];
    lemma_niri_connects(request, desktop, listing);
    lemma_niri_places(request, before, later, late, other, fresh);
    let named = step_after(StepView::List(list_command(), request, before), b);
    lemma_niri_ends(named->Register_0, mode);
    lemma_run_on(start, a, b);
    lemma_run_on(start, a + b, c);
    assert(a + b + c =~= seq![
        Answer::Reply(Ok(listing)),
        Answer::Device(None),
        Answer::Listing(Some(later), late),
        Answer::Reply(Ok(other)),
        Answer::Buffer(Ok(mode)),
    ]);
}

/// What Hyprland answers to being told of the output decides what comes next: where
/// it does not take the keyword it is told the same in Lua, and after either the
/// other monitors are set back.
pub proof fn the_keyword_is_repeated_in_lua(
    request: RequestView,
    saved: Seq<MonitorView>,
    answer: Seq<char>,
)
    ensures
        ({
            let setting_back = StepView::Run(
                eval_command(restore_script(saved, request.name)),
                request,
                PurposeView::HyprlandRestore(saved),
            );
            let told = PurposeView::HyprlandConfigure(saved);
            let refused = exists|i: int|
                0 <= i && i + 18 <= answer.len() && #[trigger] answer.subrange(i, i + 18)
                    == "non-legacy parsers"@;
            &&& !refused ==> after_reply(request, told, Ok(answer)) == setting_back
            &&& refused ==> (after_reply(request, told, Ok(answer)) matches StepView::Run(
                command,
                r,
                PurposeView::HyprlandConfigureLua(s),
            ) && command == eval_command(configure_script(request)) && r == request && s == saved)
            &&& after_reply(request, PurposeView::HyprlandConfigureLua(saved), Ok(answer))
                == setting_back
        }),
{
    reveal_strlit("non-legacy parsers");
    let words = "non-legacy parsers"@;
    assert(words.len() == 18);
    if contains_text(answer, words) {
        let i = choose|i: int| occurs_at(answer, words, i);
        assert(answer.subrange(i, i + 18) == words);
    }
    if exists|i: int|
        0 <= i && i + 18 <= answer.len() && #[trigger] answer.subrange(i, i + 18) == words {
        let i = choose|i: int|
            0 <= i && i + 18 <= answer.len() && #[trigger] answer.subrange(i, i + 18) == words;
        assert(occurs_at(answer, words, i));
    }
}

} // verus!

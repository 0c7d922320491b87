//! The daemon's main loop: stream whenever a device is there, and back off when
//! sessions keep failing.

use crate::link::ReadFailure;
use crate::text::copy_text;
use vstd::prelude::*;

verus! {

/// How long to wait for a change of the device list before going on, in
/// milliseconds.
pub const UPDATE_TIMEOUT_MS: u64 = 500;

/// How long to wait before the device tracker is connected again, in seconds.
pub const RECONNECT_WAIT_SECS: u64 = 2;

/// A device that is plugged in. One that is not ready cannot be streamed to, such
/// as one that is not authorized.
#[derive(Debug)]
pub struct Device {
    pub serial: String,
    pub state: String,
    pub ready: bool,
}

/// What a [`Device`] stands for.
#[verifier::ext_equal]
pub ghost struct DeviceView {
    pub serial: Seq<char>,
    pub state: Seq<char>,
    pub ready: bool,
}

impl View for Device {
    type V = DeviceView;

    open spec fn view(&self) -> DeviceView {
        DeviceView { serial: self.serial@, state: self.state@, ready: self.ready }
    }
}

/// What a list of devices stands for.
pub open spec fn device_views(devices: Seq<Device>) -> Seq<DeviceView> {
    devices.map_values(|d: Device| d@)
}

/// The serial number of the first device that is ready.
pub open spec fn first_ready(devices: Seq<DeviceView>) -> Option<Seq<char>>
    decreases devices.len(),
{
    if devices.len() == 0 {
        None
    } else if devices[0].ready {
        Some(devices[0].serial)
    } else {
        first_ready(devices.skip(1))
    }
}

fn find_ready(devices: &Vec<Device>) -> (r: Option<String>)
    ensures
        match r {
            Some(serial) => first_ready(device_views(devices@)) == Some(serial@),
            None => first_ready(device_views(devices@)) is None,
        },
{
    let ghost all = device_views(devices@);
    let mut i: usize = 0;
    assert(all.skip(0) =~= all);
    while i < devices.len()
        invariant
            i <= devices@.len(),
            all == device_views(devices@),
            first_ready(all) == first_ready(all.skip(i as int)),
        decreases devices@.len() - i,
    {
        assert(all.skip(i as int)[0] == devices@[i as int]@);
        assert(all.skip(i as int).skip(1) =~= all.skip(i + 1));
        if devices[i].ready {
            return Some(copy_text(devices[i].serial.as_str()));
        }
        i = i + 1;
    }
    None
}

/// What the device tracker reported.
pub enum TrackerEvent {
    /// The device list changed.
    Update(Vec<Device>),
    /// Nothing in time, so the last list still stands.
    Quiet,
    /// The tracker is gone.
    Lost,
}

/// What to tell the user where there is nothing to stream to.
#[derive(Debug, Clone, Copy, PartialEq, Eq, Structural)]
pub enum Notice {
    /// That was said already.
    Silent,
    /// No device is connected.
    NoDevice,
    /// None of the devices is ready.
    NotReady,
}

/// What to do after the device tracker reported.
pub enum Next {
    /// Wait, and connect the tracker again.
    Reconnect,
    /// Wait for a device.
    Idle(Notice),
    /// Run a session with the device of this serial number.
    Stream(String),
}

/// What [`Next`] stands for.
#[verifier::ext_equal]
pub ghost enum NextView {
    Reconnect,
    Idle(Notice),
    Stream(Seq<char>),
}

impl View for Next {
    type V = NextView;

    open spec fn view(&self) -> NextView {
        match *self {
            Next::Reconnect => NextView::Reconnect,
            Next::Idle(notice) => NextView::Idle(notice),
            Next::Stream(serial) => NextView::Stream(serial@),
        }
    }
}

/// What to do after a session.
#[derive(Debug, Clone, Copy, PartialEq, Eq, Structural)]
pub enum Afterwards {
    /// End the daemon.
    Stop,
    /// Wait so many seconds and go on. `announce` is set where failures have
    /// mounted up so that the wait is worth a word.
    Wait { seconds: u64, announce: bool },
}

/// How long to wait after so many sessions that failed in a row, in seconds.
pub open spec fn backoff(failures: int) -> int {
    if failures <= 1 {
        2
    } else if failures >= 8 {
        16
    } else {
        2 * failures
    }
}

/// What a [`TrackerEvent`] stands for.
#[verifier::ext_equal]
pub ghost enum EventView {
    Update(Seq<DeviceView>),
    Quiet,
    Lost,
}

impl View for TrackerEvent {
    type V = EventView;

    open spec fn view(&self) -> EventView {
        match *self {
            TrackerEvent::Update(list) => EventView::Update(device_views(list@)),
            TrackerEvent::Quiet => EventView::Quiet,
            TrackerEvent::Lost => EventView::Lost,
        }
    }
}

/// The state of the main loop: whether it is to end after one session, the
/// devices that were last reported, how many sessions in a row have failed, and
/// whether the user was told that there is nothing to stream to.
#[verifier::ext_equal]
pub ghost struct SupervisorView {
    pub once: bool,
    pub devices: Seq<DeviceView>,
    pub failures: nat,
    pub told: bool,
}

/// The state once an event is known. A changed list makes a new start: failures
/// are forgotten, and the user is told again.
pub open spec fn informed(s: SupervisorView, event: EventView) -> SupervisorView {
    match event {
        EventView::Update(devices) => SupervisorView { devices, failures: 0, told: false, ..s },
        EventView::Quiet => s,
        EventView::Lost => SupervisorView { devices: seq![], ..s },
    }
}

/// Whether this is the serial number of the ready device that stands first.
pub open spec fn is_first_ready(devices: Seq<DeviceView>, serial: Seq<char>) -> bool {
    exists|i: int|
        0 <= i < devices.len() && (#[trigger] devices[i]).ready && devices[i].serial == serial
            && forall|j: int| 0 <= j < i ==> !(#[trigger] devices[j]).ready
}

/// Whether no device is ready.
pub open spec fn none_is_ready(devices: Seq<DeviceView>) -> bool {
    forall|i: int| 0 <= i < devices.len() ==> !(#[trigger] devices[i]).ready
}

/// What to do after an event.
pub open spec fn next_after(s: SupervisorView, event: EventView) -> NextView {
    let now = informed(s, event);
    if event is Lost {
        NextView::Reconnect
    } else {
        match first_ready(now.devices) {
            Some(serial) => NextView::Stream(serial),
            None => NextView::Idle(
                if now.told {
                    Notice::Silent
                } else if now.devices.len() == 0 {
                    Notice::NoDevice
                } else {
                    Notice::NotReady
                },
            ),
        }
    }
}

/// The state after an event.
pub open spec fn after_event(s: SupervisorView, event: EventView) -> SupervisorView {
    let now = informed(s, event);
    SupervisorView { told: now.told || next_after(s, event) is Idle, ..now }
}

/// The state after a session.
pub open spec fn after_session(s: SupervisorView, clean: bool, shutdown: bool) -> SupervisorView {
    if s.once || shutdown {
        s
    } else {
        SupervisorView {
            failures: if clean {
                0
            } else {
                s.failures + 1
            },
            ..s
        }
    }
}

/// What to do after a session.
pub open spec fn afterwards(s: SupervisorView, clean: bool, shutdown: bool) -> Afterwards {
    if s.once || shutdown {
        Afterwards::Stop
    } else {
        let failures = after_session(s, clean, shutdown).failures as int;
        Afterwards::Wait { seconds: backoff(failures) as u64, announce: failures > 2 }
    }
}

/// The main loop.
///
/// The device list is kept from round to round. The tracker reports changes only,
/// so after a session that ended for any reason but an unplugged device nothing
/// would be reported, and a daemon that waited for it would never try again.
pub struct Supervisor {
    once: bool,
    devices: Vec<Device>,
    failures: u32,
    announced_idle: bool,
}

impl View for Supervisor {
    type V = SupervisorView;

    closed spec fn view(&self) -> SupervisorView {
        SupervisorView {
            once: self.once,
            devices: device_views(self.devices@),
            failures: self.failures as nat,
            told: self.announced_idle,
        }
    }
}

impl Supervisor {
    pub fn new(once: bool) -> (r: Supervisor)
        ensures
            r@ == (SupervisorView { once, devices: seq![], failures: 0, told: false }),
    {
        let r = Supervisor { once, devices: Vec::new(), failures: 0, announced_idle: false };
        assert(r@.devices =~= seq![]);
        r
    }

    /// Decide what to do after the tracker reported.
    pub fn observe(&mut self, event: TrackerEvent) -> (r: Next)
        ensures
            r@ == next_after(old(self)@, event@),
            final(self)@ == after_event(old(self)@, event@),
            !(event is Lost) ==> match r@ {
                NextView::Stream(serial) => is_first_ready(final(self)@.devices, serial),
                NextView::Idle(_) => none_is_ready(final(self)@.devices),
                NextView::Reconnect => false,
            },
            event is Lost ==> r@ is Reconnect,
    {
        proof {
            first_ready_is_streamed_to(self@, event@);
        }
        match event {
            TrackerEvent::Update(list) => {
                self.devices = list;
                self.announced_idle = false;
                self.failures = 0;
            },
            TrackerEvent::Quiet => {},
            TrackerEvent::Lost => {
                self.devices = Vec::new();
                assert(self@.devices =~= seq![]);
                return Next::Reconnect;
            },
        }
        match find_ready(&self.devices) {
            Some(serial) => Next::Stream(serial),
            None => {
                if self.announced_idle {
                    return Next::Idle(Notice::Silent);
                }
                self.announced_idle = true;
                if self.devices.len() == 0 {
                    Next::Idle(Notice::NoDevice)
                } else {
                    Next::Idle(Notice::NotReady)
                }
            },
        }
    }

    /// Decide what to do after a session, by whether it ended cleanly and whether
    /// the daemon is to shut down.
    pub fn session_ended(&mut self, clean: bool, shutdown: bool) -> (r: Afterwards)
        requires
            !clean && !shutdown && !old(self)@.once ==> old(self)@.failures < u32::MAX,
        ensures
            r == afterwards(old(self)@, clean, shutdown),
            final(self)@ == after_session(old(self)@, clean, shutdown),
    {
        if self.once || shutdown {
            return Afterwards::Stop;
        }
        if clean {
            self.failures = 0;
        } else {
            self.failures = self.failures + 1;
        }
        let counted = if self.failures < 8 {
            self.failures as u64
        } else {
            8
        };
        let seconds = if counted > 1 {
            2 * counted
        } else {
            2
        };
        Afterwards::Wait { seconds, announce: self.failures > 2 }
    }

    /// How many sessions in a row have failed.
    pub fn failures(&self) -> (r: u32)
        ensures
            r == self@.failures,
    {
        self.failures
    }

    /// The devices that were last reported.
    pub fn devices(&self) -> (r: &Vec<Device>)
        ensures
            device_views(r@) == self@.devices,
    {
        &self.devices
    }
}

/// A cause of an error: one of reading or writing, or another.
#[derive(Debug, Clone, Copy, PartialEq, Eq, Structural)]
pub enum Cause {
    Io(ReadFailure),
    Other,
}

/// Whether a cause says that nothing came in in time.
pub open spec fn is_timeout_cause(cause: Cause) -> bool {
    cause == Cause::Io(ReadFailure::WouldBlock) || cause == Cause::Io(ReadFailure::TimedOut)
}

/// Whether an error, given by its causes, says that nothing came in in time.
pub fn is_timeout(causes: &Vec<Cause>) -> (r: bool)
    ensures
        r == exists|i: int| 0 <= i < causes@.len() && is_timeout_cause(#[trigger] causes@[i]),
{
    let mut i: usize = 0;
    while i < causes.len()
        invariant
            i <= causes@.len(),
            forall|j: int| 0 <= j < i ==> !is_timeout_cause(#[trigger] causes@[j]),
        decreases causes@.len() - i,
    {
        if let Cause::Io(failure) = causes[i] {
            if failure.is_transient() {
                assert(is_timeout_cause(causes@[i as int]));
                return true;
            }
        }
        i = i + 1;
    }
    false
}

/// Waits get no shorter while sessions keep failing, and stay between two and
/// sixteen seconds.
pub proof fn backoff_grows_to_a_limit(a: int, b: int)
    requires
        0 <= a <= b,
    ensures
        2 <= backoff(a) <= backoff(b) <= 16,
{
}

/// A daemon whose session ended tries the device again although the tracker has
/// nothing to report.
pub proof fn ended_session_is_tried_again(s: SupervisorView, serial: Seq<char>, clean: bool)
    requires
        first_ready(s.devices) == Some(serial),
        !s.once,
    ensures
        next_after(after_session(s, clean, false), EventView::Quiet) == NextView::Stream(serial),
{
}

/// As long as nothing changes, an idle daemon says so once.
pub proof fn idleness_is_told_once(s: SupervisorView, event: EventView)
    requires
        next_after(s, event) is Idle,
    ensures
        next_after(after_event(s, event), EventView::Quiet) == NextView::Idle(Notice::Silent),
        after_event(after_event(s, event), EventView::Quiet) == after_event(s, event),
{
}

proof fn lemma_first_ready(devices: Seq<DeviceView>)
    ensures
        match first_ready(devices) {
            Some(serial) => is_first_ready(devices, serial),
            None => none_is_ready(devices),
        },
    decreases devices.len(),
{
    if devices.len() > 0 && !devices[0].ready {
        let rest = devices.skip(1);
        lemma_first_ready(rest);
        match first_ready(rest) {
            Some(serial) => {
                let i = choose|i: int|
                    0 <= i < rest.len() && (#[trigger] rest[i]).ready && rest[i].serial == serial
                        && forall|j: int| 0 <= j < i ==> !(#[trigger] rest[j]).ready;
                assert(devices[i + 1] == rest[i]);
                assert forall|j: int| 0 <= j < i + 1 implies !(#[trigger] devices[j]).ready by {
                    if j > 0 {
                        assert(devices[j] == rest[j - 1]);
                    }
                }
            },
            None => {
                assert forall|j: int| 0 <= j < devices.len() implies !(#[trigger] devices[j]).ready
                    by {
                    if j > 0 {
                        assert(devices[j] == rest[j - 1]);
                    }
                }
            },
        }
    } else if devices.len() > 0 {
        assert(devices[0].ready);
    }
}

/// The devices that count are those that were reported last.
pub open spec fn current_devices(s: SupervisorView, event: EventView) -> Seq<DeviceView> {
    match event {
        EventView::Update(devices) => devices,
        EventView::Quiet => s.devices,
        EventView::Lost => seq![],
    }
}

/// As long as the tracker is there, the daemon streams to a device exactly where
/// one is ready, and then to the first that is, whether or not it is to end after
/// one session and whatever came before. It is idle exactly where none is ready.
pub proof fn first_ready_is_streamed_to(s: SupervisorView, event: EventView)
    ensures
        after_event(s, event).devices == current_devices(s, event),
        after_event(s, event).once == s.once,
        event is Lost <==> next_after(s, event) is Reconnect,
        !(event is Lost) ==> match next_after(s, event) {
            NextView::Stream(serial) => is_first_ready(current_devices(s, event), serial),
            NextView::Idle(_) => none_is_ready(current_devices(s, event)),
            NextView::Reconnect => false,
        },
{
    lemma_first_ready(current_devices(s, event));
}

/// An idle daemon tells what it waits for after every change of the list: a device
/// where there is none, and otherwise that one gets ready.
pub proof fn changes_are_told(s: SupervisorView, devices: Seq<DeviceView>)
    requires
        none_is_ready(devices),
    ensures
        next_after(s, EventView::Update(devices)) == NextView::Idle(
            if devices.len() == 0 {
                Notice::NoDevice
            } else {
                Notice::NotReady
            },
        ),
{
    lemma_first_ready(devices);
}

/// The daemon ends after a session exactly where it was to run one only or is to
/// shut down, however the session ended.
pub proof fn one_session_ends_the_daemon(s: SupervisorView, clean: bool, shutdown: bool)
    ensures
        afterwards(s, clean, shutdown) is Stop <==> s.once || shutdown,
        after_session(s, clean, shutdown).devices == s.devices,
        after_session(s, clean, shutdown).told == s.told,
        after_session(s, clean, shutdown).once == s.once,
{
}

/// The waits of a daemon whose sessions fail one after another: two seconds more
/// each time, up to sixteen. A session that ended cleanly, and a change of the
/// device list, start over at two. From the third failure on the wait is worth a
/// word.
pub proof fn failures_lengthen_the_wait(s: SupervisorView, devices: Seq<DeviceView>)
    requires
        !s.once,
    ensures
        ({
            let failed = after_session(s, false, false);
            let cleanly = after_session(s, true, false);
            &&& failed.failures == s.failures + 1
            &&& afterwards(s, false, false) matches Afterwards::Wait { seconds, announce } && {
                &&& failed.failures <= 8 ==> seconds == 2 * failed.failures
                &&& failed.failures > 8 ==> seconds == 16
                &&& announce <==> failed.failures >= 3
            }
            &&& cleanly.failures == 0
            &&& afterwards(s, true, false) == (Afterwards::Wait { seconds: 2, announce: false })
            &&& after_event(s, EventView::Update(devices)).failures == 0
            &&& after_event(s, EventView::Quiet).failures == s.failures
        }),
{
}

/// A read that found nothing yet or waited too long is a timeout, and no other cause
/// is.
pub proof fn only_waiting_is_a_timeout(failure: ReadFailure, cause: Cause)
    ensures
        is_timeout_cause(Cause::Io(failure)) <==> !(failure is Other),
        !(cause is Io) ==> !is_timeout_cause(cause),
{
}

} // verus!

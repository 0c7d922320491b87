//! The link to the device: frames that go out, and acknowledgements that come
//! back.
//!
//! The device acknowledges video frames, each with [`ACK_LEN`] bytes, in the
//! order in which they were sent. So an acknowledgement belongs to the oldest
//! frame that has none yet.

use crate::protocol::{StreamType, ACK_LEN, FRAME_HEADER_LEN};
use crate::transport::{counted, frame_bytes, FrameWrite, Sender, WireFrame};
use std::collections::VecDeque;
use vstd::prelude::*;

verus! {

/// The time from `then` to `now`, in nanoseconds; none where `now` is earlier.
pub open spec fn elapsed(then: u128, now: u128) -> u128 {
    if now >= then {
        (now - then) as u128
    } else {
        0
    }
}

/// How acknowledgements stand: how many bytes of the next one have come in, when
/// the frames without one were sent, and the round trips so far.
#[verifier::ext_equal]
pub ghost struct AckView {
    pub filled: nat,
    pub sent: Seq<u128>,
    pub trips: Seq<u128>,
}

impl AckView {
    /// When a video frame is sent.
    pub open spec fn video(self, now: u128) -> AckView {
        AckView { sent: self.sent.push(now), ..self }
    }

    /// When bytes of acknowledgements come in.
    pub open spec fn bytes(self, n: nat, now: u128) -> AckView {
        if self.filled + n != ACK_LEN {
            AckView { filled: self.filled + n, ..self }
        } else if self.sent.len() == 0 {
            AckView { filled: 0, ..self }
        } else {
            AckView {
                filled: 0,
                sent: self.sent.skip(1),
                trips: self.trips.push(elapsed(self.sent[0], now)),
            }
        }
    }
}

/// How a read of acknowledgements failed.
#[derive(Debug, Clone, Copy, PartialEq, Eq, Structural)]
pub enum ReadFailure {
    WouldBlock,
    TimedOut,
    Other,
}

impl ReadFailure {
    /// Whether to go on reading: nothing coming in for a while is normal.
    pub fn is_transient(self) -> (r: bool)
        ensures
            r == (self is WouldBlock || self is TimedOut),
    {
        match self {
            ReadFailure::WouldBlock | ReadFailure::TimedOut => true,
            ReadFailure::Other => false,
        }
    }
}

/// One connection to the device.
pub struct Link {
    sender: Sender,
    filled: usize,
    sent: VecDeque<u128>,
    trips: Vec<u128>,
}

impl Link {
    pub closed spec fn acks(self) -> AckView {
        AckView { filled: self.filled as nat, sent: self.sent@, trips: self.trips@ }
    }

    /// How many frames have been sent, and how many bytes with the headers.
    pub closed spec fn totals(self) -> (nat, nat) {
        self.sender.totals()
    }

    /// An acknowledgement that is complete does not lie around.
    pub open spec fn wf(self) -> bool {
        self.acks().filled < ACK_LEN
    }

    /// The link over which `sender` sends.
    pub fn new(sender: Sender) -> (r: Link)
        ensures
            r.wf(),
            r.acks() == (AckView { filled: 0, sent: seq![], trips: seq![] }),
            r.totals() == sender.totals(),
    {
        let r = Link { sender, filled: 0, sent: VecDeque::new(), trips: Vec::new() };
        assert(r.acks() =~= (AckView { filled: 0, sent: seq![], trips: seq![] }));
        r
    }

    /// Begin to send a video frame at the time `now`, which is when the wait for
    /// its acknowledgement begins.
    pub fn send_video_frame<'a>(
        &mut self,
        payload: &'a [u8],
        pts_ns: u64,
        keyframe: bool,
        now: u128,
    ) -> (w: FrameWrite<'a>)
        requires
            old(self).wf(),
            FRAME_HEADER_LEN + payload@.len() <= usize::MAX,
        ensures
            final(self).wf(),
            final(self).acks() == old(self).acks().video(now),
            final(self).totals() == old(self).totals(),
            w.wf(),
            w.accepted() == 0,
            w.bytes() == frame_bytes(
                WireFrame { stream_type: StreamType::Video, pts_ns, keyframe, payload: payload@ },
            ),
    {
        self.sent.push_back(now);
        self.sender.send_video_frame(payload, pts_ns, keyframe)
    }

    /// Begin to send an audio packet. It is never acknowledged, so it must not
    /// wait for an acknowledgement: one that did would take that of a video
    /// frame.
    pub fn send_audio_frame<'a>(&mut self, payload: &'a [u8], pts_ns: u64) -> (w: FrameWrite<'a>)
        requires
            old(self).wf(),
            FRAME_HEADER_LEN + payload@.len() <= usize::MAX,
        ensures
            final(self).wf(),
            final(self).acks() == old(self).acks(),
            final(self).totals() == old(self).totals(),
            w.wf(),
            w.accepted() == 0,
            w.bytes() == frame_bytes(
                WireFrame {
                    stream_type: StreamType::Audio,
                    pts_ns,
                    keyframe: false,
                    payload: payload@,
                },
            ),
    {
        self.sender.send_audio_frame(payload, pts_ns)
    }

    /// Count a frame that the socket has accepted whole.
    pub fn record_sent(&mut self, frame: &FrameWrite<'_>)
        requires
            old(self).wf(),
            frame.wf(),
            frame.remaining().len() == 0,
            old(self).totals().0 < u64::MAX,
            old(self).totals().1 + frame.bytes().len() <= u64::MAX,
        ensures
            final(self).wf(),
            final(self).acks() == old(self).acks(),
            final(self).totals() == counted(old(self).totals(), frame.bytes()),
    {
        self.sender.record_sent(frame);
    }

    /// How many bytes are missing from the next acknowledgement, which is how
    /// many to read.
    pub fn wanted(&self) -> (r: usize)
        requires
            self.wf(),
        ensures
            r == ACK_LEN - self.acks().filled,
    {
        ACK_LEN - self.filled
    }

    /// Take note that `n` bytes of acknowledgements came in at the time `now`.
    /// None means that the device has closed the connection, and that there is
    /// nothing more to read.
    pub fn received(&mut self, n: usize, now: u128) -> (more: bool)
        requires
            old(self).wf(),
            n <= ACK_LEN - old(self).acks().filled,
        ensures
            final(self).wf(),
            more == (n > 0),
            final(self).acks() == old(self).acks().bytes(n as nat, now),
            final(self).totals() == old(self).totals(),
    {
        if n == 0 {
            return false;
        }
        self.filled = self.filled + n;
        if self.filled == ACK_LEN {
            self.filled = 0;
            if let Some(then) = self.sent.pop_front() {
                self.trips.push(
                    if now >= then {
                        now - then
                    } else {
                        0
                    },
                );
            }
        }
        assert(self.acks() =~= old(self).acks().bytes(n as nat, now));
        true
    }

    /// The round trips that were measured, in nanoseconds.
    pub fn round_trips(&self) -> (r: &Vec<u128>)
        ensures
            r@ == self.acks().trips,
    {
        &self.trips
    }

    pub fn frames_sent(&self) -> (r: u64)
        ensures
            r == self.totals().0,
    {
        self.sender.frames_sent()
    }

    pub fn bytes_sent(&self) -> (r: u64)
        ensures
            r == self.totals().1,
    {
        self.sender.bytes_sent()
    }
}

// ---------------------------------------------------------------------------
// Whole connections
// ---------------------------------------------------------------------------

/// What happens on a link.
pub ghost enum LinkEvent {
    Video(u128),
    Audio,
    Bytes(nat, u128),
}

/// How acknowledgements stand after one more event.
pub open spec fn after_event(acks: AckView, event: LinkEvent) -> AckView {
    match event {
        LinkEvent::Video(now) => acks.video(now),
        LinkEvent::Audio => acks,
        LinkEvent::Bytes(n, now) => acks.bytes(n, now),
    }
}

/// How acknowledgements stand after these events on a new link.
pub open spec fn acks_after(events: Seq<LinkEvent>) -> AckView
    decreases events.len(),
{
    if events.len() == 0 {
        AckView { filled: 0, sent: seq![], trips: seq![] }
    } else {
        after_event(acks_after(events.drop_last()), events.last())
    }
}

/// When the video frames among these events were sent, in order.
pub open spec fn video_times(events: Seq<LinkEvent>) -> Seq<u128>
    decreases events.len(),
{
    if events.len() == 0 {
        seq![]
    } else {
        match events.last() {
            LinkEvent::Video(now) => video_times(events.drop_last()).push(now),
            _ => video_times(events.drop_last()),
        }
    }
}

/// Whether bytes came in at the time `now`.
pub open spec fn came_in(events: Seq<LinkEvent>, now: u128) -> bool {
    exists|i: int| 0 <= i < events.len() && #[trigger] events[i] is Bytes && events[i]->Bytes_1 == now
}

/// Whether a round trip runs from `then` to a time at which bytes came in.
pub open spec fn is_trip(events: Seq<LinkEvent>, then: u128, trip: u128) -> bool {
    exists|now: u128| #[trigger] came_in(events, now) && trip == elapsed(then, now)
}

/// Acknowledgements are paired with video frames first come, first served: the
/// round trips are those of the oldest frames, each measured from when its own
/// frame was sent, and the frames that still wait are exactly the others. Audio
/// takes no part in it.
pub proof fn round_trips_belong_to_the_oldest_frames(events: Seq<LinkEvent>)
    ensures
        acks_after(events).trips.len() <= video_times(events).len(),
        acks_after(events).sent == video_times(events).skip(acks_after(events).trips.len() as int),
        forall|i: int|
            0 <= i < acks_after(events).trips.len() ==> is_trip(
                events,
                video_times(events)[i],
                #[trigger] acks_after(events).trips[i],
            ),
    decreases events.len(),
{
    let acks = acks_after(events);
    let sent = video_times(events);
    if events.len() > 0 {
        let less = events.drop_last();
        let before = acks_after(less);
        let earlier = video_times(less);
        round_trips_belong_to_the_oldest_frames(less);
        match events.last() {
            LinkEvent::Video(_) => {
                assert(acks.sent =~= sent.skip(acks.trips.len() as int));
            },
            LinkEvent::Audio => {},
            LinkEvent::Bytes(_, _) => {
                assert(acks.sent =~= sent.skip(acks.trips.len() as int));
            },
        }
        assert forall|i: int| 0 <= i < acks.trips.len() implies is_trip(
            events,
            sent[i],
            #[trigger] acks.trips[i],
        ) by {
            if i < before.trips.len() {
                assert(before.trips[i] == acks.trips[i]);
                assert(sent[i] == earlier[i]);
                let now = choose|now: u128| #[trigger]
                    came_in(less, now) && before.trips[i] == elapsed(earlier[i], now);
                let k = choose|k: int|
                    0 <= k < less.len() && #[trigger] less[k] is Bytes && less[k]->Bytes_1 == now;
                assert(events[k] == less[k]);
                assert(came_in(events, now));
            } else {
                assert(events[events.len() - 1] is Bytes);
                assert(came_in(events, events.last()->Bytes_1));
                assert(before.sent[0] == earlier[i]);
            }
        }
    } else {
        assert(acks.sent =~= sent.skip(0));
    }
}

/// A round trip that ends after it began lasts from the one to the other, and no
/// round trip is longer than the time at which it ends.
pub proof fn trips_end_when_they_are_answered(then: u128, now: u128)
    ensures
        then <= now ==> then + elapsed(then, now) == now,
        then > now ==> elapsed(then, now) == 0,
{
}

/// How many bytes of acknowledgements came in.
pub open spec fn bytes_in(events: Seq<LinkEvent>) -> nat
    decreases events.len(),
{
    if events.len() == 0 {
        0
    } else {
        bytes_in(events.drop_last()) + match events.last() {
            LinkEvent::Bytes(n, _) => n,
            _ => 0,
        }
    }
}

/// Whether no event carries more bytes than were missing from the acknowledgement
/// that was being read.
pub open spec fn read_as_wanted(events: Seq<LinkEvent>) -> bool {
    forall|k: int|
        0 <= k < events.len() ==> (#[trigger] events[k] matches LinkEvent::Bytes(n, _) ==> n
            + bytes_in(events.take(k)) % 8 <= 8)
}

/// What is there of the next acknowledgement are the bytes that came in beyond the
/// whole ones, eight bytes each. A whole one that comes in while a frame waits
/// gives that frame's round trip, at that time, and takes the frame off the list;
/// bytes that complete none change nothing else.
pub proof fn every_eight_bytes_acknowledge_a_frame(events: Seq<LinkEvent>)
    requires
        read_as_wanted(events),
    ensures
        acks_after(events).filled == bytes_in(events) % 8,
        acks_after(events).trips.len() <= bytes_in(events) / 8,
        forall|n: nat, now: u128|
            #![trigger acks_after(events).bytes(n, now)]
            ({
                let before = acks_after(events);
                let after = before.bytes(n, now);
                &&& before.filled + n < 8 ==> after.sent == before.sent && after.trips
                    == before.trips && after.filled == before.filled + n
                &&& before.filled + n == 8 && before.sent.len() > 0 ==> {
                    &&& after.filled == 0
                    &&& seq![before.sent[0]] + after.sent == before.sent
                    &&& after.trips.drop_last() == before.trips
                    &&& now >= before.sent[0] ==> before.sent[0] + after.trips.last() == now
                }
            }),
    decreases events.len(),
{
    if events.len() > 0 {
        let less = events.drop_last();
        let last = events.len() - 1;
        assert forall|k: int| 0 <= k < less.len() implies (#[trigger] less[k] matches LinkEvent::Bytes(
            n,
            _,
        ) ==> n + bytes_in(less.take(k)) % 8 <= 8) by {
            assert(less[k] == events[k]);
            assert(less.take(k) =~= events.take(k));
        }
        every_eight_bytes_acknowledge_a_frame(less);
        assert(events.take(last) =~= less);
        assert(events[last] == events.last());
    }
    let before = acks_after(events);
    assert forall|n: nat, now: u128|
        #![trigger acks_after(events).bytes(n, now)]
        before.filled + n == 8 && before.sent.len() > 0 implies seq![before.sent[0]]
        + before.bytes(n, now).sent == before.sent && before.bytes(n, now).trips.drop_last()
        == before.trips by {
        assert(seq![before.sent[0]] + before.sent.skip(1) =~= before.sent);
        assert(before.bytes(n, now).trips.drop_last() =~= before.trips);
    }
}

} // verus!

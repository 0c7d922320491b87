//! What the probes measure.

use crate::evdi::EvdiFrameTiming;
use crate::link::elapsed;
use crate::stats::{
    in_order, larger, quantiles_part_the_values, smaller, sorted, summarize, summary_of,
    summary_spans_the_values, Summary,
};
use vstd::prelude::*;

verus! {

// ---------------------------------------------------------------------------
// The audio probe
// ---------------------------------------------------------------------------

/// What a run of the audio probe has seen: the sizes of the packets in bytes, and
/// the times between them in nanoseconds.
pub struct RunStats {
    frame_size_ms: u32,
    bytes: usize,
    gaps: Vec<u128>,
    sizes: Vec<u128>,
    last_arrival: Option<u128>,
}

/// What [`RunStats`] stand for.
#[verifier::ext_equal]
pub ghost struct RunView {
    pub frame_size_ms: u32,
    pub bytes: nat,
    pub sizes: Seq<u128>,
    pub gaps: Seq<u128>,
    pub last_arrival: Option<u128>,
}

/// A run in which no packet has come yet.
pub open spec fn new_run(frame_size_ms: u32) -> RunView {
    RunView { frame_size_ms, bytes: 0, sizes: seq![], gaps: seq![], last_arrival: None }
}

/// A run after one more packet, of `size` bytes, that arrived at the time `now`.
pub open spec fn with_packet(run: RunView, now: u128, size: usize) -> RunView {
    RunView {
        bytes: run.bytes + size as nat,
        sizes: run.sizes.push(size as u128),
        gaps: match run.last_arrival {
            Some(last) => run.gaps.push(elapsed(last, now)),
            None => run.gaps,
        },
        last_arrival: Some(now),
        ..run
    }
}

/// A run in which these packets came, each with its time of arrival and its size.
pub open spec fn run_of(frame_size_ms: u32, packets: Seq<(u128, usize)>) -> RunView
    decreases packets.len(),
{
    if packets.len() == 0 {
        new_run(frame_size_ms)
    } else {
        with_packet(
            run_of(frame_size_ms, packets.drop_last()),
            packets.last().0,
            packets.last().1,
        )
    }
}

/// What the audio probe reports of a run in which packets came.
#[derive(Debug, Clone, Copy, PartialEq, Eq, Structural)]
pub struct AudioProbeReport {
    pub packets: usize,
    pub bytes: usize,
    pub size: Option<Summary>,
    pub gap: Option<Summary>,
}

impl View for RunStats {
    type V = RunView;

    closed spec fn view(&self) -> RunView {
        RunView {
            frame_size_ms: self.frame_size_ms,
            bytes: self.bytes as nat,
            sizes: self.sizes@,
            gaps: self.gaps@,
            last_arrival: self.last_arrival,
        }
    }
}

impl RunStats {
    pub fn new(frame_size_ms: u32) -> (r: RunStats)
        ensures
            r@ == new_run(frame_size_ms),
    {
        let r = RunStats {
            frame_size_ms,
            bytes: 0,
            gaps: Vec::new(),
            sizes: Vec::new(),
            last_arrival: None,
        };
        assert(r@ =~= new_run(frame_size_ms));
        r
    }

    /// Take note of a packet of `size` bytes that arrived at the time `now`.
    pub fn record(&mut self, now: u128, size: usize)
        requires
            old(self)@.bytes + size <= usize::MAX,
        ensures
            final(self)@ == with_packet(old(self)@, now, size),
    {
        if let Some(last) = self.last_arrival {
            self.gaps.push(
                if now >= last {
                    now - last
                } else {
                    0
                },
            );
        }
        self.last_arrival = Some(now);
        self.bytes = self.bytes + size;
        self.sizes.push(size as u128);
    }

    /// What to report of the run; nothing where no packet came.
    pub fn report(&self) -> (r: Option<AudioProbeReport>)
        requires
            self@.sizes.len() * 95 <= usize::MAX,
            self@.gaps.len() * 95 <= usize::MAX,
        ensures
            r == (if self@.sizes.len() == 0 {
                None
            } else {
                Some(
                    AudioProbeReport {
                        packets: self@.sizes.len() as usize,
                        bytes: self@.bytes as usize,
                        size: summary_of(self@.sizes),
                        gap: summary_of(self@.gaps),
                    },
                )
            }),
    {
        if self.sizes.len() == 0 {
            return None;
        }
        Some(
            AudioProbeReport {
                packets: self.sizes.len(),
                bytes: self.bytes,
                size: summarize(&self.sizes),
                gap: summarize(&self.gaps),
            },
        )
    }

    pub fn frame_size_ms(&self) -> (r: u32)
        ensures
            r == self@.frame_size_ms,
    {
        self.frame_size_ms
    }

    pub fn packets(&self) -> (r: usize)
        ensures
            r == self@.sizes.len(),
    {
        self.sizes.len()
    }

    pub fn bytes(&self) -> (r: usize)
        ensures
            r == self@.bytes,
    {
        self.bytes
    }
}

/// Whether a run of so many seconds goes on when so many nanoseconds of it are
/// over.
pub fn run_goes_on(elapsed_ns: u128, seconds: u64) -> (r: bool)
    ensures
        r == (elapsed_ns < seconds * 1_000_000_000),
{
    elapsed_ns < seconds as u128 * 1_000_000_000
}

/// The sizes of packets, summed up.
pub open spec fn total_size(packets: Seq<(u128, usize)>) -> nat
    decreases packets.len(),
{
    if packets.len() == 0 {
        0
    } else {
        total_size(packets.drop_last()) + packets.last().1 as nat
    }
}

/// The sizes in a run are those of its packets, in order, and its bytes are their
/// sum.
pub proof fn sizes_sum_up(frame_size_ms: u32, packets: Seq<(u128, usize)>)
    ensures
        run_of(frame_size_ms, packets).sizes == packets.map_values(
            |packet: (u128, usize)| packet.1 as u128,
        ),
        run_of(frame_size_ms, packets).bytes == total_size(packets),
    decreases packets.len(),
{
    let sizes = packets.map_values(|packet: (u128, usize)| packet.1 as u128);
    if packets.len() > 0 {
        let less = packets.drop_last();
        sizes_sum_up(frame_size_ms, less);
        assert(sizes =~= less.map_values(|packet: (u128, usize)| packet.1 as u128).push(
            packets.last().1 as u128,
        ));
    } else {
        assert(sizes =~= seq![]);
    }
}

/// There is one gap less than there are packets, and each gap is the time from one
/// packet to the next.
pub proof fn gaps_lie_between_packets(frame_size_ms: u32, packets: Seq<(u128, usize)>)
    ensures
        run_of(frame_size_ms, packets).sizes.len() == packets.len(),
        run_of(frame_size_ms, packets).gaps.len() == (if packets.len() == 0 {
            0
        } else {
            packets.len() - 1
        }),
        run_of(frame_size_ms, packets).last_arrival == (if packets.len() == 0 {
            None
        } else {
            Some(packets.last().0)
        }),
        forall|i: int|
            0 <= i < packets.len() - 1 ==> #[trigger] run_of(frame_size_ms, packets).gaps[i]
                == elapsed(packets[i].0, packets[i + 1].0),
    decreases packets.len(),
{
    if packets.len() > 0 {
        gaps_lie_between_packets(frame_size_ms, packets.drop_last());
    }
}

// ---------------------------------------------------------------------------
// The device probe
// ---------------------------------------------------------------------------

/// What the device probe has seen: the latencies of the frames that came, in
/// nanoseconds, and how often none came in time.
pub struct CaptureStats {
    latencies: Vec<u128>,
    misses: u32,
}

/// What the device probe reports.
#[derive(Debug, Clone, Copy, PartialEq, Eq)]
pub struct CaptureReport {
    pub hits: usize,
    pub misses: u32,
    /// The median latency, or none where no frame came.
    pub median: u128,
    /// The shortest and the longest latency, where any frame came.
    pub range: Option<(u128, u128)>,
}

/// The report of these latencies and so many misses.
pub open spec fn capture_report(latencies: Seq<u128>, misses: u32) -> CaptureReport {
    let n = latencies.len() as int;
    CaptureReport {
        hits: n as usize,
        misses,
        median: if n == 0 {
            0
        } else {
            in_order(latencies)[n / 2]
        },
        range: if n == 0 {
            None
        } else {
            Some((in_order(latencies)[0], in_order(latencies)[n - 1]))
        },
    }
}

impl CaptureStats {
    pub closed spec fn hits(self) -> Seq<u128> {
        self.latencies@
    }

    pub closed spec fn missed(self) -> u32 {
        self.misses
    }

    pub fn new() -> (r: CaptureStats)
        ensures
            r.hits() == Seq::<u128>::empty(),
            r.missed() == 0,
    {
        CaptureStats { latencies: Vec::new(), misses: 0 }
    }

    /// Take note of how a request for a frame ended.
    pub fn record(&mut self, timing: Option<EvdiFrameTiming>)
        requires
            timing is None ==> old(self).missed() < u32::MAX,
        ensures
            match timing {
                Some(t) => {
                    &&& final(self).hits() == old(self).hits().push(t.latency_ns)
                    &&& final(self).missed() == old(self).missed()
                },
                None => {
                    &&& final(self).hits() == old(self).hits()
                    &&& final(self).missed() == old(self).missed() + 1
                },
            },
    {
        match timing {
            Some(t) => self.latencies.push(t.latency_ns),
            None => self.misses = self.misses + 1,
        }
    }

    /// How often no frame came in time.
    pub fn misses(&self) -> (r: u32)
        ensures
            r == self.missed(),
    {
        self.misses
    }

    pub fn report(&self) -> (r: CaptureReport)
        ensures
            r == capture_report(self.hits(), self.missed()),
    {
        let ordered = sorted(&self.latencies);
        let n = ordered.len();
        CaptureReport {
            hits: n,
            misses: self.misses,
            median: if n == 0 {
                0
            } else {
                ordered[n / 2]
            },
            range: if n == 0 {
                None
            } else {
                Some((ordered[0], ordered[n - 1]))
            },
        }
    }
}

/// How many of these bytes are not zero.
pub open spec fn nonzero(bytes: Seq<u8>) -> nat
    decreases bytes.len(),
{
    if bytes.len() == 0 {
        0
    } else {
        nonzero(bytes.drop_last()) + (if bytes.last() != 0 {
            1nat
        } else {
            0
        })
    }
}

/// How many of the first `limit` bytes are not zero.
pub fn count_nonzero(bytes: &[u8], limit: usize) -> (r: usize)
    ensures
        r == nonzero(
            if bytes@.len() < limit {
                bytes@
            } else {
                bytes@.take(limit as int)
            },
        ),
{
    let end: usize = if bytes.len() < limit {
        bytes.len()
    } else {
        limit
    };
    let mut count: usize = 0;
    let mut i: usize = 0;
    while i < end
        invariant
            i <= end <= bytes@.len(),
            count <= i,
            count == nonzero(bytes@.take(i as int)),
        decreases end - i,
    {
        assert(bytes@.take(i + 1).drop_last() =~= bytes@.take(i as int));
        if bytes[i] != 0 {
            count = count + 1;
        }
        i = i + 1;
    }
    proof {
        if bytes@.len() < limit {
            assert(bytes@.take(i as int) =~= bytes@);
        }
    }
    count
}

/// The report of a device probe counts every request, and its median parts the
/// latencies, which its range holds and touches.
pub proof fn capture_reports_span_the_latencies(latencies: Seq<u128>, misses: u32)
    requires
        latencies.len() <= usize::MAX,
    ensures
        ({
            let r = capture_report(latencies, misses);
            &&& r.hits == latencies.len() && r.misses == misses
            &&& r.range is Some <==> latencies.len() > 0
            &&& latencies.len() == 0 ==> r.median == 0
            &&& latencies.len() > 0 ==> 2 * smaller(latencies, r.median) <= latencies.len() && 2
                * larger(latencies, r.median) < latencies.len() && latencies.contains(r.median)
            &&& r.range matches Some((low, high)) ==> {
                &&& latencies.contains(low) && latencies.contains(high)
                &&& forall|i: int|
                    0 <= i < latencies.len() ==> low <= #[trigger] latencies[i] <= high
            }
        }),
{
    quantiles_part_the_values(latencies);
    if latencies.len() > 0 {
        summary_spans_the_values(latencies);
    }
}

/// The bytes that are not zero are counted each once: as many as are left when the
/// zeros are taken out.
pub proof fn nonzero_bytes_are_counted(bytes: Seq<u8>)
    ensures
        nonzero(bytes) == bytes.filter(|b: u8| b != 0).len(),
    decreases bytes.len(),
{
    reveal(Seq::filter);
    if bytes.len() > 0 {
        nonzero_bytes_are_counted(bytes.drop_last());
    }
}

} // verus!

use padplay::args::{
    parse_args, parse_audio_probe_args, parse_evdi_probe_args, unrecognized, Arg, Args, Parsed,
};
use padplay::evdi::EvdiFrameTiming;
use padplay::link::ReadFailure;
use padplay::probe::{count_nonzero, run_goes_on, CaptureStats, RunStats};
use padplay::supervisor::{
    is_timeout, Afterwards, Cause, Device, Next, Notice, Supervisor, TrackerEvent,
};

fn parse(args: &[&str]) -> Parsed {
    let args: Vec<Arg> = args
        .iter()
        .map(|a| Arg {
            text: a.to_string(),
            decimal: a.parse::<f64>().ok().map(|f| format!("{:.6}", f)),
        })
        .collect();
    parse_args(&args, "PADPLAY".to_string())
}

fn parsed(args: &[&str]) -> (Args, bool) {
    match parse(args) {
        Parsed::Run { args, half_sized } => (args, half_sized),
        Parsed::Help => panic!("help"),
    }
}

#[test]
fn without_arguments_the_defaults_stand() {
    let (a, half) = parsed(&[]);
    assert!(!half && !a.once && a.seconds.is_none());
    assert_eq!(a.config.fps, 90);
    assert_eq!(a.config.output_name, "PADPLAY");
}

#[test]
fn every_flag_does_its_part() {
    let (a, half) = parsed(&[
        "--width", "1280", "--height", "800", "--fps", "120", "--bitrate", "9000", "--position",
        "-10", "--position-y", "20", "--scale", "1.5", "--output-name", "X", "--show-cursor",
        "--no-audio", "--max-width", "2000",
    ]);
    assert!(!half && !a.once && !a.config.stats);
    assert_eq!(a.config.resolution, Some((1280, 800)));
    assert_eq!((a.config.fps, a.config.bitrate_kbps), (120, 9000));
    assert_eq!((a.config.position_x, a.config.position_y), (-10, 20));
    assert_eq!(a.config.scale, "1.500000");
    assert_eq!(a.config.output_name, "X");
    assert!(a.config.paint_cursor && !a.config.audio_enabled);
    assert_eq!(a.config.max_width, 2000);
    assert_eq!(parsed(&["--native"]).0.config.max_width, u32::MAX);
    assert!(parsed(&["--once"]).0.once);
    assert!(parsed(&["--stats"]).0.config.stats);
}

#[test]
fn half_a_size_pins_nothing() {
    for args in [["--width", "1280"], ["--height", "800"]] {
        let (a, half) = parsed(&args);
        assert!(half);
        assert_eq!(a.config.resolution, None);
    }
}

#[test]
fn bad_values_leave_defaults() {
    let (a, _) = parsed(&[
        "--width", "x", "--height", "", "--fps", "-1", "--bitrate", "y", "--position", "z",
        "--scale", "big", "--seconds", "soon",
    ]);
    assert_eq!(a.config.resolution, Some((1920, 1200)));
    assert_eq!((a.config.fps, a.config.bitrate_kbps), (60, 20_000));
    assert_eq!(a.config.position_x, -1536);
    assert_eq!(a.config.scale, "1.250000");
    assert_eq!(a.seconds, None);
    assert!(a.once && a.config.stats);
}

#[test]
fn a_flag_takes_whatever_follows_it() {
    let (a, _) = parsed(&["--fps", "--once", "--output-name"]);
    assert_eq!(a.config.fps, 60);
    assert!(!a.once);
    assert_eq!(a.config.output_name, "PADPLAY");
    let (a, _) = parsed(&["--output-name", "--no-audio", "--unknown", "7"]);
    assert_eq!(a.config.output_name, "--no-audio");
    assert!(a.config.audio_enabled);
}

#[test]
fn seconds_imply_one_session_and_statistics() {
    let (a, _) = parsed(&["--seconds", "30"]);
    assert_eq!(a.seconds, Some(30));
    assert!(a.once && a.config.stats);
}

#[test]
fn audio_once_off_stays_off() {
    let (a, _) = parsed(&["--no-audio", "--stats", "--fps", "30"]);
    assert!(!a.config.audio_enabled);
}

#[test]
fn help_ends_the_reading() {
    assert!(matches!(parse(&["--fps", "30", "-h", "--once"]), Parsed::Help));
    assert!(matches!(parse(&["--help"]), Parsed::Help));
    assert!(matches!(parse(&["--output-name", "-h"]), Parsed::Run { .. }));
}

fn strings(args: &[&str]) -> Vec<String> {
    args.iter().map(|s| s.to_string()).collect()
}

#[test]
fn audio_probe_arguments() {
    let a = parse_audio_probe_args(&strings(&[])).ok().unwrap();
    assert_eq!((a.seconds, a.frame_size_ms, a.sweep, a.target_node), (10, 20, false, None));
    let a = parse_audio_probe_args(&strings(&[
        "--seconds", "3", "--frame-size", "10", "--sweep", "--target", "n",
    ]))
    .ok()
    .unwrap();
    assert_eq!(
        (a.seconds, a.frame_size_ms, a.sweep, a.target_node),
        (3, 10, true, Some("n".to_string()))
    );
    let a = parse_audio_probe_args(&strings(&["--seconds", "x", "--frame-size", "4294967296", "--target"]))
        .ok()
        .unwrap();
    assert_eq!((a.seconds, a.frame_size_ms, a.target_node), (10, 20, None));
    let e = parse_audio_probe_args(&strings(&["--sweep", "what"])).err().unwrap();
    assert_eq!(unrecognized(&e), "unrecognized argument: what");
}

#[test]
fn device_probe_arguments() {
    assert_eq!(parse_evdi_probe_args(&strings(&[])), (1920, 1200, 60));
    assert_eq!(parse_evdi_probe_args(&strings(&["1280"])), (1280, 1200, 60));
    assert_eq!(
        parse_evdi_probe_args(&strings(&["1280", "x", "90", "7"])),
        (1280, 1200, 90)
    );
}

#[test]
fn audio_probe_statistics() {
    let mut run = RunStats::new(20);
    assert!(run.report().is_none());
    run.record(100, 300);
    assert!(run.report().unwrap().gap.is_none());
    run.record(120, 200);
    run.record(110, 100);
    let r = run.report().unwrap();
    assert_eq!((r.packets, r.bytes), (3, 600));
    assert_eq!(r.size.unwrap().median, 200);
    let gap = r.gap.unwrap();
    assert_eq!((gap.min, gap.max), (0, 20));
    assert_eq!((run.frame_size_ms(), run.packets(), run.bytes()), (20, 3, 600));
}

#[test]
fn runs_last_as_long_as_asked() {
    assert!(run_goes_on(0, 1));
    assert!(run_goes_on(1_999_999_999, 2));
    assert!(!run_goes_on(2_000_000_000, 2));
    assert!(!run_goes_on(0, 0));
    assert!(run_goes_on(u64::MAX as u128, u64::MAX));
}

#[test]
fn bytes_are_the_sum_of_the_sizes() {
    let mut stats = RunStats::new(10);
    for (now, size) in [(5u128, 100usize), (25, 0), (26, 7)] {
        stats.record(now, size);
    }
    assert_eq!((stats.packets(), stats.bytes()), (3, 107));
    let gap = stats.report().unwrap().gap.unwrap();
    assert_eq!((gap.min, gap.max), (1, 20));
}

#[test]
fn device_probe_statistics() {
    let mut stats = CaptureStats::new();
    let r = stats.report();
    assert_eq!((r.hits, r.misses, r.median, r.range), (0, 0, 0, None));
    for latency_ns in [30, 10, 20, 40] {
        stats.record(Some(EvdiFrameTiming { latency_ns }));
    }
    stats.record(None);
    let r = stats.report();
    assert_eq!((r.hits, r.misses, r.median, r.range), (4, 1, 30, Some((10, 40))));
}

#[test]
fn nonzero_bytes_are_counted_up_to_a_limit() {
    assert_eq!(count_nonzero(&[0, 1, 2, 0, 3], 300_000), 3);
    assert_eq!(count_nonzero(&[0, 1, 2, 0, 3], 3), 2);
    assert_eq!(count_nonzero(&[], 3), 0);
}

fn device(serial: &str, ready: bool) -> Device {
    Device {
        serial: serial.to_string(),
        state: if ready { "device" } else { "unauthorized" }.to_string(),
        ready,
    }
}

#[test]
fn the_first_ready_device_is_streamed_to() {
    let mut s = Supervisor::new(false);
    let list = vec![device("A", false), device("B", true), device("C", true)];
    match s.observe(TrackerEvent::Update(list)) {
        Next::Stream(serial) => assert_eq!(serial, "B"),
        _ => panic!("not streaming"),
    }
    assert_eq!(s.devices().len(), 3);
}

#[test]
fn idleness_is_announced_once() {
    let mut s = Supervisor::new(false);
    assert!(matches!(s.observe(TrackerEvent::Quiet), Next::Idle(Notice::NoDevice)));
    assert!(matches!(s.observe(TrackerEvent::Quiet), Next::Idle(Notice::Silent)));
    let waiting = || TrackerEvent::Update(vec![device("A", false)]);
    assert!(matches!(s.observe(waiting()), Next::Idle(Notice::NotReady)));
    assert!(matches!(s.observe(TrackerEvent::Quiet), Next::Idle(Notice::Silent)));
    assert!(matches!(s.observe(waiting()), Next::Idle(Notice::NotReady)));
}

#[test]
fn an_ended_session_is_tried_again_without_an_update() {
    let mut s = Supervisor::new(false);
    s.observe(TrackerEvent::Update(vec![device("A", true)]));
    let waits: Vec<(u64, bool)> = (0..10)
        .map(|_| {
            let after = s.session_ended(false, false);
            assert!(matches!(s.observe(TrackerEvent::Quiet), Next::Stream(_)));
            match after {
                Afterwards::Wait { seconds, announce } => (seconds, announce),
                Afterwards::Stop => panic!("stopped"),
            }
        })
        .collect();
    assert_eq!(waits[0], (2, false));
    assert_eq!(waits[1], (4, false));
    assert_eq!(waits[2], (6, true));
    assert_eq!(waits[7], (16, true));
    assert_eq!(waits[9], (16, true));
    assert_eq!(s.failures(), 10);
    assert_eq!(
        s.session_ended(true, false),
        Afterwards::Wait { seconds: 2, announce: false }
    );
    s.session_ended(false, false);
    s.observe(TrackerEvent::Update(vec![]));
    assert_eq!(s.failures(), 0);
}

#[test]
fn a_lost_tracker_is_connected_again() {
    let mut s = Supervisor::new(false);
    s.observe(TrackerEvent::Update(vec![device("A", true)]));
    assert!(matches!(s.observe(TrackerEvent::Lost), Next::Reconnect));
    assert!(s.devices().is_empty());
}

#[test]
fn one_session_or_a_shutdown_ends_the_daemon() {
    assert_eq!(Supervisor::new(true).session_ended(false, false), Afterwards::Stop);
    assert_eq!(Supervisor::new(false).session_ended(true, true), Afterwards::Stop);
}

#[test]
fn timeouts_are_found_among_causes() {
    assert!(is_timeout(&vec![Cause::Other, Cause::Io(ReadFailure::TimedOut)]));
    assert!(is_timeout(&vec![Cause::Io(ReadFailure::WouldBlock)]));
    assert!(!is_timeout(&vec![Cause::Other, Cause::Io(ReadFailure::Other)]));
    assert!(!is_timeout(&vec![]));
}

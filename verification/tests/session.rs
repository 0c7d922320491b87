use padplay::encoder::{Encoder, EncoderConfig, PixelFormat, XR24};
use padplay::evdi::{EvdiOutput, Mode, PendingEvdiOutput, Update};
use padplay::link::{Link, ReadFailure};
use padplay::pacing::{Pacer, Task};
use padplay::protocol::{AudioCodec, FrameHeader, StreamType};
use padplay::session::{
    app_installed, build_encoder, fit_panel, forward_target, launch_steps, package_query,
    plan_audio, push_device_frame, push_dmabuf, session_header, AudioPlan, CaptureError, Config,
    FrameSource, Plane,
};
use padplay::stats::{report, sorted, summarize};
use padplay::transport::{stream_header, Sender};

fn config() -> Config {
    Config::for_output("PADPLAY".to_string())
}

#[test]
fn session_defaults() {
    let c = config();
    assert_eq!(c.resolution, None);
    assert_eq!((c.max_width, c.fps, c.bitrate_kbps), (1920, 90, 20_000));
    assert_eq!((c.position_x, c.position_y), (-1536, 0));
    assert_eq!((c.scale.as_str(), c.output_name.as_str()), ("1.250000", "PADPLAY"));
    assert!(!c.paint_cursor && !c.stats && c.audio_enabled);
}

#[test]
fn the_app_is_looked_for() {
    assert_eq!(package_query(), "pm list packages com.padplay.display");
    assert!(app_installed("package:com.padplay.display\n"));
    assert!(!app_installed(""));
    assert_eq!(forward_target(), "localabstract:padplay");
}

#[test]
fn the_tablet_is_woken_before_the_app_is_started() {
    let steps = launch_steps();
    let shells: Vec<&str> = steps.iter().map(|s| s.shell.as_str()).collect();
    assert_eq!(
        shells,
        [
            "input keyevent KEYCODE_WAKEUP",
            "wm dismiss-keyguard",
            "am start -n com.padplay.display/.DisplayActivity",
        ]
    );
    assert!(steps[2].must_succeed && !steps[0].must_succeed);
    assert_eq!((steps[1].wait_ms, steps[2].wait_ms), (400, 2500));
}

#[test]
fn panels_are_fitted_in_proportion() {
    assert_eq!(fit_panel((2880, 1800), 1920), (1920, 1200));
    assert_eq!(fit_panel((1920, 1200), 1920), (1920, 1200));
    assert_eq!(fit_panel((2880, 1800), u32::MAX), (2880, 1800));
}

#[test]
fn sources_choose_their_encoder() {
    let wayland = FrameSource::Wayland {
        width: 1280,
        height: 800,
        format: 0x3432_5241,
        modifier: None,
    };
    let c = wayland.encoder_config(&config());
    assert_eq!((c.width, c.height, c.framerate), (1280, 800, 90));
    assert_eq!((c.fourcc, c.modifier), (0x3432_5241, 0));
    assert!(build_encoder(&wayland, &c).push_frame(0, 0, 0).is_ok());
    let evdi = FrameSource::Evdi { width: 1920, height: 1200 };
    let c = evdi.encoder_config(&config());
    assert_eq!((c.fourcc, c.bitrate_kbps), (XR24, 20_000));
    assert!(build_encoder(&evdi, &c).push_frame(0, 0, 0).is_err());
    assert_eq!((evdi.width(), evdi.height()), (1920, 1200));
}

fn device() -> EvdiOutput {
    PendingEvdiOutput::connected(Ok(Mode { width: 8, height: 4 }))
        .ok()
        .unwrap()
        .finish(None)
}

#[test]
fn an_idle_device_keeps_the_stream_going() {
    let encoder = Encoder::new_cpu(&EncoderConfig::default());
    let bytes = [1u8, 2, 3, 4];
    for update in [Update::TimedOut, Update::Fresh(7)] {
        let (data, layout) =
            push_device_frame(&encoder, &mut device(), update, Some((&bytes, 32)), 9)
                .ok()
                .unwrap();
        assert_eq!(data, bytes);
        assert_eq!((layout.format, layout.stride, layout.pts_ns), (PixelFormat::Bgrx, 32, 9));
    }
    let fail = |update, buffer| {
        push_device_frame(&encoder, &mut device(), update, buffer, 0)
            .err()
            .unwrap()
            .to_string()
    };
    assert_eq!(
        fail(Update::Failed("X".to_string()), None),
        "evdi frame update failed: X"
    );
    assert!(fail(Update::TimedOut, None).starts_with("evdi buffer missing"));
    assert_eq!(
        fail(Update::Fresh(0), Some((&bytes[..], 1 << 32))),
        "buffer stride out of range: out of range integral type conversion attempted"
    );
}

#[test]
fn a_capture_without_dmabuf_is_an_error() {
    let encoder = Encoder::new(&EncoderConfig::default());
    let plane = Plane { offset: 4, stride: 8 };
    assert_eq!(push_dmabuf(&encoder, Some(plane), 1).ok().unwrap().offset, 4);
    let e = push_dmabuf(&encoder, None, 1).err().unwrap();
    assert!(matches!(e, CaptureError::NoDmabuf));
    assert_eq!(e.to_string(), "capture produced no DMA-BUF");
    let plain = Encoder::new_cpu(&EncoderConfig::default());
    assert!(matches!(
        push_dmabuf(&plain, Some(plane), 1),
        Err(CaptureError::Encoder(_))
    ));
}

#[test]
fn audio_is_planned() {
    assert!(matches!(plan_audio(&config(), false), AudioPlan::Unavailable));
    match plan_audio(&config(), true) {
        AudioPlan::Start(c) => {
            assert_eq!((c.sample_rate, c.channels), (48_000, 2));
            assert_eq!((c.bitrate_bps, c.frame_size_ms), (128_000, 20));
        }
        _ => panic!("not started"),
    }
    let mut off = config();
    off.audio_enabled = false;
    assert!(matches!(plan_audio(&off, true), AudioPlan::Disabled));
}

#[test]
fn audio_changes_nothing_about_video() {
    let frames = FrameSource::Evdi { width: 1920, height: 1200 };
    let with = session_header(&frames, 90, true).ok().unwrap();
    let without = session_header(&frames, 90, false).ok().unwrap();
    assert_eq!(with.encode()[..13], without.encode()[..13]);
    assert_eq!(with.audio_codec, AudioCodec::Opus);
    assert_eq!(with.audio_pre_skip, 312);
    assert_eq!(without.encode()[13..], [0; 11]);
}

fn link() -> Link {
    Link::new(Sender::connect(&stream_header(8, 8, 1, None).unwrap()).0)
}

#[test]
fn acknowledgements_go_to_the_oldest_frame() {
    let mut link = link();
    link.send_video_frame(&[1], 0, true, 100);
    link.send_audio_frame(&[2], 0);
    link.send_video_frame(&[3], 0, false, 150);
    assert_eq!(link.wanted(), 8);
    assert!(link.received(3, 160));
    assert_eq!(link.wanted(), 5);
    assert!(link.received(5, 170));
    assert!(link.received(8, 190));
    // An acknowledgement that nobody waits for is dropped.
    assert!(link.received(8, 195));
    assert!(!link.received(0, 200));
    assert_eq!(link.round_trips(), &vec![70, 40]);
}

#[test]
fn links_send_what_they_are_given() {
    let mut link = link();
    let mut video = link.send_video_frame(&[7, 8], 5, true, 0);
    let header = FrameHeader::decode(video.slices().0).unwrap();
    assert_eq!((header.length, header.pts_ns, header.keyframe), (2, 5, true));
    video.advance(18).unwrap();
    link.record_sent(&video);
    let audio = link.send_audio_frame(&[9], 6);
    let header = FrameHeader::decode(audio.slices().0).unwrap();
    assert_eq!((header.stream_type, header.keyframe), (StreamType::Audio, false));
    assert_eq!((link.frames_sent(), link.bytes_sent()), (1, 42));
}

#[test]
fn quiet_reads_are_tried_again() {
    assert!(ReadFailure::WouldBlock.is_transient());
    assert!(ReadFailure::TimedOut.is_transient());
    assert!(!ReadFailure::Other.is_transient());
}

fn tick(p: &mut Pacer, now: u128) -> u128 {
    assert!(matches!(p.task(), Task::Capture { .. }));
    p.captured();
    while matches!(p.task(), Task::DrainAudio | Task::DrainVideo) {
        p.drained();
    }
    p.paced(now)
}

#[test]
fn audio_goes_first_in_a_tick() {
    let mut p = Pacer::new(90, true);
    p.captured();
    assert_eq!(p.task(), Task::DrainAudio);
    p.drained();
    assert_eq!(p.task(), Task::DrainVideo);
    p.drained();
    assert_eq!(p.task(), Task::Pace);
    let mut p = Pacer::new(90, false);
    p.captured();
    assert_eq!(p.task(), Task::DrainVideo);
}

#[test]
fn ticks_keep_their_rate() {
    let mut p = Pacer::new(60, false);
    assert_eq!(p.task(), Task::Capture { pts_ns: 0, wait_ns: 8_333_333 });
    assert_eq!(tick(&mut p, 1_000_000), 15_666_666);
    // Late by less than a frame: no sleep, and the rate stands.
    assert_eq!(tick(&mut p, 40_000_000), 0);
    assert_eq!(tick(&mut p, 45_000_000), 4_999_998);
    assert_eq!(
        p.task(),
        Task::Capture { pts_ns: 49_999_998, wait_ns: 8_333_333 }
    );
    assert_eq!(p.frames(), 3);
}

#[test]
fn a_stall_is_not_made_up_for() {
    let mut p = Pacer::new(100, true);
    assert_eq!(tick(&mut p, 1_000_000_000), 0);
    assert_eq!(tick(&mut p, 1_002_000_000), 8_000_000);
}

#[test]
fn waits_for_frames_are_bounded() {
    let wait = |fps| match Pacer::new(fps, false).task() {
        Task::Capture { wait_ns, .. } => wait_ns,
        _ => 0,
    };
    assert_eq!(wait(1), 50_000_000);
    assert_eq!(wait(90), 5_555_555);
    assert_eq!(wait(1000), 2_000_000);
    assert!(Pacer::new(1, false).can_go_on());
}

#[test]
fn order_statistics() {
    assert_eq!(sorted(&vec![3, 1, 2, 1]), vec![1, 1, 2, 3]);
    assert!(summarize(&vec![]).is_none());
    let s = summarize(&(1..=100).rev().collect()).unwrap();
    assert_eq!((s.min, s.median, s.p95, s.max), (1, 51, 96, 100));
    let s = summarize(&vec![5]).unwrap();
    assert_eq!((s.min, s.median, s.p95, s.max), (5, 5, 5, 5));
    let r = report(&vec![2, 1], 10, 20);
    assert_eq!((r.frames, r.bytes, r.acks), (10, 20, 2));
    assert_eq!(r.round_trip.unwrap().median, 2);
}

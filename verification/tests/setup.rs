use padplay::adb::{parse_devices, parse_panel};
use padplay::evdi::{Mode, PendingEvdiOutput};
use padplay::modifiers::{CapsValue, PadTemplate};
use padplay::protocol::AudioCodec;
use padplay::session::{Config, FrameSource, NOT_INSTALLED};
use padplay::command::Command;
use padplay::output::{Compositor, Removal, VirtualOutput};
use padplay::setup::{run, BufferMode, Output, Setup, Undo};

#[test]
fn device_lists_are_read() {
    let devices = parse_devices("A1\tdevice\nB2\tunauthorized\n\nnot a device\n");
    let found: Vec<(&str, &str, bool)> = devices
        .iter()
        .map(|d| (d.serial.as_str(), d.state.as_str(), d.ready))
        .collect();
    assert_eq!(found, [("A1", "device", true), ("B2", "unauthorized", false)]);
}

#[test]
fn panels_are_read_in_landscape() {
    assert_eq!(parse_panel("Physical size: 1800x2880\n"), Some((2880, 1800)));
    assert_eq!(
        parse_panel("Physical size: 1800x2880\nOverride size: 1200x1920\n"),
        Some((1920, 1200))
    );
    assert_eq!(parse_panel("Physical size: 2000x1000"), Some((2000, 1000)));
    assert_eq!(parse_panel("error: no service"), None);
    assert_eq!(parse_panel("Physical size: 1800"), None);
}

/// What the host and the tablet are like.
#[derive(Clone, Copy)]
struct World {
    installed: bool,
    device: bool,
    audio: bool,
    audio_starts: bool,
    fails_at: &'static str,
}

const GOOD: World = World {
    installed: true,
    device: true,
    audio: true,
    audio_starts: true,
    fails_at: "",
};

fn drive(config: Config, world: World) -> (Vec<String>, Setup) {
    let mut done: Vec<String> = Vec::new();
    let cause = || Some("E".to_string());
    let mut step = run(config);
    loop {
        let fails = |what: &str| what == world.fails_at;
        step = match step {
            Setup::AskTablet(shell, next) => {
                done.push(shell);
                if fails("ask") {
                    next.resume(Err("E".to_string()))
                } else if world.installed {
                    next.resume(Ok("package:com.padplay.display\n".to_string()))
                } else {
                    next.resume(Ok(String::new()))
                }
            }
            Setup::AskPanel(next) => {
                done.push("panel".to_string());
                if fails("panel") {
                    next.resume(Err("E".to_string()))
                } else {
                    next.resume(Ok((2880, 1800)))
                }
            }
            Setup::CreateOutput(r, next) => {
                done.push(format!(
                    "output {} {}x{}@{} {},{} {}",
                    r.name, r.width, r.height, r.refresh, r.x, r.y, r.scale
                ));
                if fails("output") {
                    let made = Removal::Run(Command::of("undo-half"));
                    next.resume(Err(("E".to_string(), Some(made))))
                } else {
                    next.resume(Ok(Output {
                        name: "OUT".to_string(),
                        device: if world.device {
                            Some(Mode { width: 1920, height: 1200 })
                        } else {
                            None
                        },
                        removal: Some(Removal::Run(Command::of("undo-output"))),
                    }))
                }
            }
            Setup::Forward(port, target, next) => {
                done.push(format!("forward {} {}", port, target));
                if fails("forward") {
                    next.resume(Err("E".to_string()))
                } else {
                    next.resume(Ok(4000))
                }
            }
            Setup::Launch(steps, next) => {
                done.push(format!("launch {}", steps.len()));
                next.resume(if fails("launch") { cause() } else { None })
            }
            Setup::ProbeEncoder(next) => {
                done.push("templates".to_string());
                next.resume(&vec![PadTemplate {
                    is_sink: true,
                    drm_formats: vec![Some(CapsValue::Text("XR24:0x9".to_string()))],
                }])
            }
            Setup::OpenCapture(options, next) => {
                assert_eq!(options.mode, BufferMode::Dmabuf);
                done.push(format!(
                    "capture {} {} {:?} {}",
                    options.output, options.pool_size, options.modifiers, options.paint_cursor
                ));
                if fails("capture") {
                    next.resume(Err("E".to_string()))
                } else {
                    next.resume(Ok(FrameSource::Wayland {
                        width: 1280,
                        height: 800,
                        format: 7,
                        modifier: Some(9),
                    }))
                }
            }
            Setup::StartEncoder(c, next) => {
                done.push(format!("encoder {}x{} {} {}", c.width, c.height, c.fourcc, c.modifier));
                next.resume(if fails("encoder") { cause() } else { None })
            }
            Setup::ProbeAudio(next) => {
                done.push("audio?".to_string());
                next.resume(world.audio)
            }
            Setup::StartAudio(c, next) => {
                done.push(format!("audio {}", c.sample_rate));
                next.resume(world.audio_starts)
            }
            Setup::Connect(port, header, next) => {
                done.push(format!(
                    "connect {} {}x{}@{} {}",
                    port,
                    header.width,
                    header.height,
                    header.framerate,
                    header.audio_codec == AudioCodec::Opus
                ));
                next.resume(if fails("connect") { cause() } else { None })
            }
            end => return (done, end),
        };
    }
}

fn config() -> Config {
    Config::for_output("PADPLAY".to_string())
}

#[test]
fn a_session_with_a_device_comes_up() {
    let (done, end) = drive(config(), GOOD);
    assert_eq!(
        done,
        [
            "pm list packages com.padplay.display",
            "panel",
            "output PADPLAY 1920x1200@90 -1536,0 1.250000",
            "forward 27183 localabstract:padplay",
            "launch 3",
            "encoder 1920x1200 875713112 144115188075858177",
            "audio?",
            "audio 48000",
            "connect 4000 1920x1200@90 true",
        ]
    );
    assert!(matches!(end, Setup::Stream { with_audio: true, .. }));
}

#[test]
fn a_session_with_a_capture_comes_up() {
    let mut c = config();
    c.resolution = Some((1280, 800));
    c.paint_cursor = true;
    c.audio_enabled = false;
    let (done, end) = drive(c, World { device: false, ..GOOD });
    assert_eq!(
        done[1..],
        [
            "output PADPLAY 1280x800@90 -1536,0 1.250000",
            "forward 27183 localabstract:padplay",
            "launch 3",
            "templates",
            "capture OUT 3 [9, 0] true",
            "encoder 1280x800 7 9",
            "connect 4000 1280x800@90 false",
        ]
    );
    match end {
        Setup::Stream { frames, with_audio, .. } => {
            assert!(!with_audio);
            assert_eq!(frames.width(), 1280);
        }
        _ => panic!("not streaming"),
    }
}

#[test]
fn audio_that_cannot_be_had_is_done_without() {
    for world in [
        World { audio: false, ..GOOD },
        World { audio_starts: false, ..GOOD },
    ] {
        let (done, end) = drive(config(), world);
        assert_eq!(done.last().unwrap(), "connect 4000 1920x1200@90 false");
        assert!(matches!(end, Setup::Stream { with_audio: false, .. }));
    }
}

#[test]
fn nothing_is_done_without_the_app() {
    let (done, end) = drive(config(), World { installed: false, ..GOOD });
    assert_eq!(done.len(), 1);
    match end {
        Setup::Failed(e, held) => {
            assert_eq!(e.to_string(), NOT_INSTALLED);
            assert!(held.output.is_none() && held.port.is_none());
        }
        _ => panic!("did not fail"),
    }
}

#[test]
fn failing_steps_end_the_setup() {
    for (at, device, text) in [
        ("ask", true, "E"),
        ("panel", true, "E"),
        ("output", true, "E"),
        ("forward", true, "E"),
        ("launch", true, "launching the display app: E"),
        ("capture", false, "E"),
        ("encoder", true, "E"),
        (
            "connect",
            true,
            "connecting to the app — is it in the foreground on the tablet?: E",
        ),
    ] {
        match drive(config(), World { device, fails_at: at, ..GOOD }).1 {
            Setup::Failed(e, _) => assert_eq!(e.to_string(), text),
            _ => panic!("{} did not fail", at),
        }
    }
}

fn undo(step: &Setup) -> Vec<String> {
    step.undo()
        .into_iter()
        .map(|undo| match undo {
            Undo::RemoveForward(port) => format!("forward {}", port),
            Undo::RemoveOutput(Removal::Run(command)) => command.program,
            Undo::RemoveOutput(Removal::CloseDevice) => "close".to_string(),
        })
        .collect()
}

#[test]
fn what_was_made_is_taken_down_wherever_the_session_ends() {
    let nothing: [&str; 0] = [];
    let both = ["forward 4000", "undo-output"];
    for (at, device, left) in [
        ("ask", true, &nothing[..]),
        ("panel", true, &nothing[..]),
        ("output", true, &["undo-half"][..]),
        ("forward", true, &["undo-output"][..]),
        ("launch", true, &both[..]),
        ("capture", false, &both[..]),
        ("encoder", true, &both[..]),
        ("connect", true, &both[..]),
        ("", true, &both[..]),
        ("", false, &both[..]),
    ] {
        let (_, end) = drive(config(), World { device, fails_at: at, ..GOOD });
        assert_eq!(undo(&end), left, "{}", at);
    }
    let (_, end) = drive(config(), World { installed: false, ..GOOD });
    assert_eq!(undo(&end), nothing);
    assert_eq!(undo(&run(config())), nothing);
}

#[test]
fn outputs_say_how_they_are_taken_down() {
    let managed = |compositor| {
        Output::of(&VirtualOutput::Managed {
            compositor,
            name: "PADPLAY".to_string(),
        })
    };
    let output = managed(Compositor::Hyprland);
    assert_eq!(output.name, "PADPLAY");
    assert!(output.device.is_none());
    match output.removal {
        Some(Removal::Run(command)) => assert_eq!(command.line(), "hyprctl output remove PADPLAY"),
        _ => panic!("stays"),
    }
    assert!(managed(Compositor::Labwc).removal.is_none());
    let evdi = PendingEvdiOutput::connected(Ok(Mode { width: 8, height: 4 }))
        .ok()
        .unwrap()
        .finish(None);
    let output = Output::of(&VirtualOutput::Evdi {
        evdi: Box::new(evdi),
        name: "DVI-I-1".to_string(),
    });
    assert_eq!(output.device, Some(Mode { width: 8, height: 4 }));
    assert!(matches!(output.removal, Some(Removal::CloseDevice)));
}

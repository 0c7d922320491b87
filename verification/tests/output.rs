use padplay::command::{run, start_failure, Command};
use padplay::creation::{CreateError, Request, Step};
use padplay::evdi::{Mode, PendingEvdiOutput, Update};
use padplay::output::{
    find_new_output, labwc_output_exists, wlr_randr_output_names, Compositor, Markers, Removal,
    SupportError, VirtualOutput,
};

#[test]
fn commands_answer_or_fail() {
    let command = Command::of("hyprctl").arg("output").arg("remove").arg("X");
    assert_eq!(command.line(), "hyprctl output remove X");
    assert_eq!(run(&command, true, b"ok\n", b"").ok().unwrap(), "ok\n");
    assert_eq!(
        run(&command, false, b"ok", b"  no such output\xff \n").err().unwrap(),
        "hyprctl output remove X failed: no such output\u{fffd}"
    );
    assert_eq!(
        run(&Command::of("wlr-randr"), false, b"", b"x").err().unwrap(),
        "wlr-randr  failed: x"
    );
    assert_eq!(
        start_failure(&command, "not found"),
        "running `hyprctl output remove X`: not found"
    );
}

fn markers(desktop: &str) -> Markers {
    Markers {
        desktop: desktop.to_string(),
        hyprland_instance: false,
        sway_socket: false,
        niri_socket: false,
    }
}

fn detect(markers: Markers, alive: &[Compositor]) -> (Compositor, Vec<String>) {
    let mut asked = Vec::new();
    let mut search = Compositor::detect(markers);
    while let Some((c, command)) = search.probe() {
        asked.push(command.line());
        search.answered(alive.contains(&c));
    }
    (search.compositor().unwrap(), asked)
}

#[test]
fn compositors_are_found_by_their_markers() {
    let all = [
        Compositor::Hyprland,
        Compositor::Sway,
        Compositor::Labwc,
        Compositor::Niri,
    ];
    assert_eq!(detect(markers("hyprland"), &all).0, Compositor::Hyprland);
    assert_eq!(detect(markers("SWAY"), &all).0, Compositor::Sway);
    assert_eq!(detect(markers("wlroots"), &all).0, Compositor::Labwc);
    assert_eq!(detect(markers("KDE"), &all), (Compositor::Unsupported, vec![]));
    let niri = Markers {
        niri_socket: true,
        ..markers("niri")
    };
    assert_eq!(
        detect(niri, &all),
        (Compositor::Niri, vec!["niri msg outputs".to_string()])
    );
}

#[test]
fn a_stale_marker_is_not_believed() {
    let stale = Markers {
        hyprland_instance: true,
        niri_socket: true,
        ..markers("labwc")
    };
    let (found, asked) = detect(stale, &[Compositor::Niri]);
    assert_eq!(found, Compositor::Niri);
    assert_eq!(asked, ["hyprctl version", "wlr-randr ", "niri msg outputs"]);
}

#[test]
fn each_marked_compositor_is_asked_once() {
    let every = Markers {
        hyprland_instance: true,
        sway_socket: true,
        niri_socket: true,
        ..markers("labwc")
    };
    let (found, asked) = detect(every, &[]);
    assert_eq!(found, Compositor::Unsupported);
    assert_eq!(
        asked,
        ["hyprctl version", "swaymsg -t get_version", "wlr-randr ", "niri msg outputs"]
    );
}

#[test]
fn nothing_is_known_while_an_answer_is_due() {
    let search = Compositor::detect(markers("sway"));
    assert!(search.compositor().is_none());
    assert_eq!(
        search.probe().unwrap().1.line(),
        "swaymsg -t get_version"
    );
}

#[test]
fn compositors_say_whether_they_are_supported() {
    for c in [Compositor::Hyprland, Compositor::Labwc, Compositor::Niri] {
        assert!(c.ensure_supported(None).is_ok());
    }
    assert!(matches!(
        Compositor::Sway.ensure_supported(None),
        Err(SupportError::Sway)
    ));
    let e = Compositor::Unsupported.ensure_supported(Some("KDE")).err().unwrap();
    assert!(e
        .to_string()
        .starts_with("unsupported compositor (XDG_CURRENT_DESKTOP=KDE).\nThis needs a compositor"));
    let e = Compositor::Unsupported.ensure_supported(None).err().unwrap();
    assert!(e.to_string().contains("XDG_CURRENT_DESKTOP=unset)"));
    assert!(SupportError::Sway.to_string().starts_with("Sway support is not implemented yet.\n`swaymsg"));
    assert_eq!(Compositor::Labwc.name(), "labwc");
    assert_eq!(Compositor::Unsupported.name(), "unsupported");
}

const LISTING: &str = "HEADLESS-10 \"x\"\n  Enabled: yes\n\nDVI-I-1\n";

#[test]
fn whole_names_are_compared() {
    assert!(labwc_output_exists(Some(LISTING), "HEADLESS-10"));
    assert!(!labwc_output_exists(Some(LISTING), "HEADLESS-1"));
    assert!(!labwc_output_exists(None, "HEADLESS-10"));
    assert_eq!(wlr_randr_output_names(LISTING), ["HEADLESS-10", "DVI-I-1"]);
}

#[test]
fn properties_are_no_outputs() {
    let listing = "HEADLESS-1 x\n  Enabled: yes\n";
    assert_eq!(wlr_randr_output_names(listing), ["HEADLESS-1"]);
    assert!(labwc_output_exists(Some(listing), "HEADLESS-1"));
    assert!(!labwc_output_exists(Some(listing), "Enabled:"));
    assert!(wlr_randr_output_names("\tModes:\n\u{a0}X\n \n\n").is_empty());
    let before = vec!["HEADLESS-1".to_string()];
    assert_eq!(find_new_output(listing, &before), None);
    assert_eq!(wlr_randr_output_names("A\r\n  B\r\nC"), ["A", "C"]);
}

#[test]
fn new_outputs_are_found() {
    let before = vec!["HEADLESS-10".to_string()];
    assert_eq!(find_new_output(LISTING, &before), Some("DVI-I-1".to_string()));
    let all = wlr_randr_output_names(LISTING);
    assert_eq!(find_new_output(LISTING, &all), None);
}

fn request() -> Request {
    Request {
        name: "PADPLAY".to_string(),
        width: 1920,
        height: 1200,
        refresh: 90,
        x: -1536,
        y: 0,
        scale: "1.250000".to_string(),
    }
}

fn monitors(names: &[&str]) -> String {
    let items: Vec<String> = names
        .iter()
        .map(|n| {
            format!(
                "{{\"name\":\"{}\",\"x\":0,\"y\":0,\"width\":1920,\"height\":1080,\
                 \"refreshRate\":60.0,\"scale\":1.5,\"transform\":0}}",
                n
            )
        })
        .collect();
    format!("[{}]", items.join(","))
}

/// Runs a creation with canned replies and returns what was done.
fn create(compositor: Compositor, replies: &[Result<&str, &str>]) -> (Vec<String>, Step) {
    let mut done = Vec::new();
    let mut replies = replies.iter();
    let mut step = VirtualOutput::create(compositor, request(), Some("test"));
    loop {
        step = match step {
            Step::Run(command, next) => {
                done.push(command.line());
                next.resume(match replies.next().unwrap() {
                    Ok(text) => Ok(text.to_string()),
                    Err(cause) => Err(cause.to_string()),
                })
            }
            Step::Connect { width, height, refresh, next } => {
                done.push(format!("connect {}x{}@{}", width, height, refresh));
                next.resume(match replies.next().unwrap() {
                    Ok(_) => None,
                    Err(cause) => Some(cause.to_string()),
                })
            }
            Step::List(command, next) => {
                done.push(command.line());
                match replies.next().unwrap() {
                    Ok(text) => next.resume(Some(text), false),
                    Err(_) => next.resume(None, true),
                }
            }
            Step::Sleep(ms, next) => {
                done.push(format!("sleep {}", ms));
                next.resume()
            }
            Step::Register(next) => {
                done.push("register".to_string());
                let mode = Mode { width: 1920, height: 1200 };
                let pending = PendingEvdiOutput::connected(Ok(mode)).ok().unwrap();
                next.resume(match replies.next().unwrap() {
                    Ok(_) => Ok(pending.finish(None)),
                    Err(cause) => Err(cause.to_string()),
                })
            }
            end => return (done, end),
        };
    }
}

fn failure(compositor: Compositor, replies: &[Result<&str, &str>]) -> String {
    match create(compositor, replies).1 {
        Step::Failed(e, _) => e.to_string(),
        _ => panic!("did not fail"),
    }
}

#[test]
fn hyprland_makes_configures_and_restores() {
    let json = monitors(&["DP-1"]);
    let (done, end) = create(
        Compositor::Hyprland,
        &[Ok(&json), Ok("ok"), Ok("ok"), Ok("ok")],
    );
    assert_eq!(
        done,
        [
            "hyprctl monitors -j",
            "hyprctl output create headless PADPLAY",
            "sleep 400",
            "hyprctl keyword monitor PADPLAY,1920x1200@90,-1536x0,1",
            "hyprctl eval hl.monitor({ output = \"DP-1\", mode = \"1920x1080@60\", \
             position = \"0x0\", scale = 1.5, transform = 0 })",
            "sleep 400",
        ]
    );
    match end {
        Step::Done(output) => {
            assert_eq!(output.name(), "PADPLAY");
            assert!(output.applied_mode());
            assert_eq!(
                output.removal_command().unwrap().line(),
                "hyprctl output remove PADPLAY"
            );
        }
        _ => panic!("not done"),
    }
}

#[test]
fn hyprland_reuses_an_output_and_falls_back_to_lua() {
    let json = monitors(&["PADPLAY"]);
    let (done, end) = create(
        Compositor::Hyprland,
        &[Ok(&json), Ok("keyword: use non-legacy parsers"), Ok("ok"), Ok("ok")],
    );
    assert_eq!(
        done,
        [
            "hyprctl monitors -j",
            "hyprctl keyword monitor PADPLAY,1920x1200@90,-1536x0,1",
            "hyprctl eval hl.monitor({ output = \"PADPLAY\", mode = \"1920x1200@90\", \
             position = \"-1536x0\", scale = 1 })",
            "hyprctl eval ",
            "sleep 400",
        ]
    );
    assert!(matches!(end, Step::Done(_)));
}

#[test]
fn hyprland_failures_say_what_was_being_done() {
    let json = monitors(&["DP-1"]);
    let there = monitors(&["PADPLAY"]);
    let fail = |replies: &[Result<&str, &str>]| failure(Compositor::Hyprland, replies);
    assert_eq!(
        fail(&[Err("E")]),
        "saving Hyprland monitor state: reading Hyprland monitor state: E"
    );
    assert_eq!(fail(&[Ok(&json), Err("E")]), "creating headless output: E");
    assert_eq!(
        fail(&[Ok(&there), Err("E")]),
        "configuring output as PADPLAY,1920x1200@90,-1536x0,1: E"
    );
    assert_eq!(
        fail(&[Ok(&there), Ok("non-legacy parsers"), Err("E")]),
        "configuring output as hl.monitor({ output = \"PADPLAY\", mode = \"1920x1200@90\", \
         position = \"-1536x0\", scale = 1 }): E"
    );
    assert_eq!(
        fail(&[Ok(&there), Ok(""), Err("E")]),
        "restoring Hyprland monitor state: restoring Hyprland monitor state: E"
    );
    assert_eq!(
        fail(&[Ok("{}")]),
        "saving Hyprland monitor state: Hyprland monitor JSON is not an array"
    );
    assert_eq!(
        fail(&[Ok("[")]),
        "saving Hyprland monitor state: parsing Hyprland monitor JSON"
    );
}

#[test]
fn labwc_attaches_to_an_output_that_is_there() {
    let (done, end) = create(Compositor::Labwc, &[Ok("PADPLAY x\n")]);
    assert_eq!(done, ["wlr-randr "]);
    match end {
        Step::Done(output) => {
            assert!(!output.applied_mode());
            assert!(output.removal_command().is_none());
        }
        _ => panic!("not done"),
    }
    for reply in [Ok("PADPLAY2\n"), Err("gone")] {
        let text = failure(Compositor::Labwc, &[reply]);
        assert!(text.starts_with(
            "labwc output \"PADPLAY\" does not exist.\nlabwc cannot create one at runtime"
        ));
        assert!(text.ends_with("See docs/COMPATIBILITY.md."));
    }
}

#[test]
fn odd_output_names_are_quoted() {
    let e = CreateError::NoSuchOutput("a\"b\n".to_string());
    assert!(e.to_string().starts_with("labwc output \"a\\\"b\\n\" does not exist."));
}

#[test]
fn niri_places_the_device_before_it_gets_its_buffer() {
    let (done, end) = create(
        Compositor::Niri,
        &[
            Ok("eDP-1 x\n"),
            Ok(""),
            Ok("eDP-1 x\n  Adaptive Sync: disabled\n"),
            Ok("eDP-1 x\n  Adaptive Sync: disabled\nDVI-I-1 y\n"),
            Ok(""),
            Ok(""),
        ],
    );
    assert_eq!(
        done,
        [
            "wlr-randr ",
            "connect 1920x1200@90",
            "wlr-randr ",
            "sleep 150",
            "wlr-randr ",
            "wlr-randr --output DVI-I-1 --on --mode 1920x1200 --pos -1536,0 --scale 1.250000",
            "register",
        ]
    );
    match end {
        Step::Done(mut output) => {
            assert_eq!(output.name(), "DVI-I-1");
            assert!(output.applied_mode());
            assert!(output.removal_command().is_none());
            let evdi = output.evdi_mut().unwrap();
            assert_eq!(evdi.width(), 1920);
            assert!(evdi.capture_frame(Update::TimedOut).is_ok());
        }
        _ => panic!("not done"),
    }
}

#[test]
fn niri_failures_say_what_was_being_done() {
    let fail = |replies: &[Result<&str, &str>]| failure(Compositor::Niri, replies);
    assert_eq!(
        fail(&[Err("no listing"), Err("E")]),
        "creating evdi virtual output: E"
    );
    assert!(fail(&[Ok(""), Ok(""), Err("late")]).starts_with(
        "finding the evdi output in wlr-randr's output list: evdi output never appeared"
    ));
    assert_eq!(
        fail(&[Ok(""), Ok(""), Ok("A\n"), Err("E")]),
        "positioning evdi output via wlr-randr: E"
    );
    assert_eq!(
        fail(&[Ok(""), Ok(""), Ok("A\n"), Ok(""), Err("E")]),
        "registering evdi frame buffer: E"
    );
}

/// What a creation that failed had made.
fn leftover(compositor: Compositor, replies: &[Result<&str, &str>]) -> Option<String> {
    match create(compositor, replies).1 {
        Step::Failed(_, made) => made.map(|removal| match removal {
            Removal::Run(command) => command.line(),
            Removal::CloseDevice => "close".to_string(),
        }),
        _ => panic!("did not fail"),
    }
}

#[test]
fn failed_creations_hand_out_what_they_made() {
    let json = monitors(&["DP-1"]);
    let there = monitors(&["PADPLAY"]);
    let made = Some("hyprctl output remove PADPLAY".to_string());
    let left = |replies: &[Result<&str, &str>]| leftover(Compositor::Hyprland, replies);
    assert_eq!(left(&[Err("E")]), None);
    assert_eq!(left(&[Ok(&json), Err("E")]), None);
    assert_eq!(left(&[Ok(&json), Ok(""), Err("E")]), made);
    assert_eq!(left(&[Ok(&json), Ok(""), Ok("non-legacy parsers"), Err("E")]), made);
    assert_eq!(left(&[Ok(&json), Ok(""), Ok(""), Err("E")]), made);
    assert_eq!(left(&[Ok(&there), Err("E")]), None);
    assert_eq!(left(&[Ok(&there), Ok(""), Err("E")]), None);

    let close = Some("close".to_string());
    let left = |replies: &[Result<&str, &str>]| leftover(Compositor::Niri, replies);
    assert_eq!(left(&[Ok(""), Err("E")]), None);
    assert_eq!(left(&[Ok(""), Ok(""), Err("late")]), close);
    assert_eq!(left(&[Ok(""), Ok(""), Ok("A\n"), Err("E")]), close);
    assert_eq!(left(&[Ok(""), Ok(""), Ok("A\n"), Ok(""), Err("E")]), close);
    assert_eq!(leftover(Compositor::Labwc, &[Ok("")]), None);
}

#[test]
fn other_compositors_are_refused() {
    assert!(failure(Compositor::Sway, &[]).starts_with("Sway support is not implemented yet."));
    assert!(failure(Compositor::Unsupported, &[])
        .starts_with("unsupported compositor (XDG_CURRENT_DESKTOP=test)."));
}

#[test]
fn managed_outputs_have_no_device() {
    let mut output = VirtualOutput::Managed {
        compositor: Compositor::Sway,
        name: "S".to_string(),
    };
    assert!(output.evdi_mut().is_none());
    assert_eq!(output.removal_command().unwrap().line(), "swaymsg output S unplug");
}

use padplay::audio::{
    audio_available, has_default_sink, pactl_info, AudioEncoder, AudioEncoderConfig, AudioError,
    PulledAudio,
};
use padplay::pipeline::{BusMessage, FieldValue, Setting};

#[test]
fn default_sink_parsing() {
    let info = "Server Name: PulseAudio (on PipeWire 1.6.8)\n\
                 Default Sink: alsa_output.pci-0000_00_1f.3.analog-stereo\n";
    assert!(has_default_sink(info));

    assert!(!has_default_sink("Default Sink: none\n"));
    assert!(!has_default_sink("Default Sink: @DEFAULT_SINK@\n"));
    assert!(!has_default_sink(
        "Server Name: PulseAudio (on PipeWire 1.6.8)\n"
    ));
}

#[test]
fn only_the_first_default_sink_counts() {
    assert!(!has_default_sink("Default Sink: none\nDefault Sink: x\n"));
    assert!(has_default_sink("Default Sink:x\r\nDefault Sink: none"));
    assert!(!has_default_sink("Default Sink:   \n"));
    assert!(!has_default_sink(" Default Sink: x\n"));
}

#[test]
fn audio_needs_everything() {
    let info = "Server Name: PulseAudio (on PipeWire 1.6.8)\nDefault Sink: x\n";
    assert!(audio_available(true, true, Some(info)));
    assert!(!audio_available(false, true, Some(info)));
    assert!(!audio_available(true, false, Some(info)));
    assert!(!audio_available(true, true, None));
    assert!(!audio_available(true, true, Some("Server Name: pulseaudio\nDefault Sink: x\n")));
    assert!(!audio_available(true, true, Some("PipeWire\nDefault Sink: none\n")));
}

#[test]
fn the_server_is_only_heard_where_it_answered() {
    assert_eq!(pactl_info(true, b"ok\xff"), Some("ok\u{fffd}".to_string()));
    assert_eq!(pactl_info(false, b"ok"), None);
}

#[test]
fn audio_defaults() {
    let c = AudioEncoderConfig::default();
    assert!(c.target_node.is_none());
    assert_eq!((c.sample_rate, c.channels), (48_000, 2));
    assert_eq!((c.bitrate_bps, c.frame_size_ms), (128_000, 20));
}

#[test]
fn the_audio_pipeline_is_complete() {
    let e = AudioEncoder::new(&AudioEncoderConfig {
        target_node: Some("speakers".to_string()),
        frame_size_ms: 10,
        ..Default::default()
    });
    let factories: Vec<&str> = e.elements().iter().map(|x| x.factory.as_str()).collect();
    assert_eq!(
        factories,
        [
            "pipewiresrc",
            "audioconvert",
            "audioresample",
            "capsfilter",
            "opusenc",
            "appsink",
        ]
    );
    let source = &e.elements()[0].settings;
    assert!(matches!(&source[0].1, Setting::Structured(s)
        if s.name == "props" && s.fields[0].0 == "stream.capture.sink"
            && matches!(s.fields[0].1, FieldValue::Flag(true))));
    assert!(matches!(&source[1], (n, Setting::Text(t)) if n == "target-object" && t == "speakers"));
    let opus = &e.elements()[4].settings;
    assert!(matches!(opus[0].1, Setting::Signed(128_000)));
    assert!(matches!(&opus[1].1, Setting::Parsed(t) if t == "10"));
    assert!(matches!(&e.elements()[3].settings[0].1, Setting::Caps(s)
        if matches!(s.fields[2].1, FieldValue::Signed(48_000))));
}

#[test]
fn the_default_sink_is_followed_without_a_target() {
    let e = AudioEncoder::new(&AudioEncoderConfig::default());
    assert_eq!(e.elements()[0].settings.len(), 1);
}

#[test]
fn audio_packets_are_stamped_with_the_session_time() {
    let e = AudioEncoder::new(&AudioEncoderConfig::default());
    let p = e
        .pull_packet(PulledAudio::Buffer(vec![9]), 20_000_000)
        .ok()
        .unwrap()
        .unwrap();
    assert_eq!((p.data, p.pts_ns), (vec![9], 20_000_000));
    let p = e
        .pull_packet(PulledAudio::Buffer(vec![]), (1u128 << 64) + 5)
        .ok()
        .unwrap()
        .unwrap();
    assert_eq!(p.pts_ns, 5);
    assert!(e.pull_packet(PulledAudio::Nothing(vec![]), 0).ok().unwrap().is_none());
    let fail = |p| e.pull_packet(p, 0).err().unwrap();
    assert!(matches!(fail(PulledAudio::NoBuffer), AudioError::NoBuffer));
    assert_eq!(fail(PulledAudio::Unmappable).to_string(), "mapping encoded buffer");
    assert_eq!(fail(PulledAudio::NoBuffer).to_string(), "sample carried no buffer");
    let broken = BusMessage::Error {
        source: Some("a".to_string()),
        error: "b".to_string(),
        debug: Some("c".to_string()),
    };
    assert_eq!(
        fail(PulledAudio::Nothing(vec![broken])).to_string(),
        "pipeline error from a: b (c)"
    );
}

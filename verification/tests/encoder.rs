use padplay::encoder::{frame_size_fits, Encoder, EncoderConfig, EncoderError, PixelFormat, Pulled, XR24};
use padplay::modifiers::{
    collect_modifiers, drm_format, fourcc_name, parse_drm_format, supported_modifiers, CapsValue,
    PadTemplate,
};
use padplay::pipeline::{check_bus, BusMessage, Element, FieldValue, Setting, Structure};

#[test]
fn fourcc_codes_have_names() {
    assert_eq!(XR24, u32::from_le_bytes(*b"XR24"));
    assert_eq!(fourcc_name(XR24), "XR24");
    // Bytes that are no text are replaced.
    assert_eq!(fourcc_name(0xff41_4243), "CBA\u{fffd}");
}

#[test]
fn drm_formats_are_written_and_read_back() {
    let text = drm_format(XR24, 0x0200_0000_0000_0901);
    assert_eq!(text, "XR24:0x0200000000000901");
    assert_eq!(parse_drm_format(&text, "XR24"), Some(0x0200_0000_0000_0901));
}

#[test]
fn drm_formats_are_read() {
    assert_eq!(parse_drm_format("XR24", "XR24"), Some(0));
    assert_eq!(parse_drm_format("  XR24 : 0x10 ", "XR24"), Some(16));
    assert_eq!(parse_drm_format("XR24:12", "XR24"), Some(12));
    assert_eq!(parse_drm_format("XR24:0xzz", "XR24"), None);
    assert_eq!(parse_drm_format("AR24:0x1", "XR24"), None);
    assert_eq!(parse_drm_format("XR24:", "XR24"), None);
    assert_eq!(parse_drm_format("XR24:1:2", "XR24"), None);
}

fn text(s: &str) -> CapsValue {
    CapsValue::Text(s.to_string())
}

#[test]
fn modifiers_are_collected_from_nested_lists() {
    let mut out = vec![7];
    let value = CapsValue::List(vec![
        text("XR24:0x7"),
        CapsValue::Other,
        CapsValue::List(vec![text("XR24:0x9"), text("NV12:0x5")]),
        text("XR24:0x9"),
        text("XR24:0x8"),
    ]);
    collect_modifiers(&value, "XR24", &mut out);
    assert_eq!(out, vec![7, 9, 8]);
}

#[test]
fn linear_is_always_supported() {
    assert_eq!(supported_modifiers(XR24, &Vec::new()), vec![0]);
    let templates = vec![
        PadTemplate {
            is_sink: false,
            drm_formats: vec![Some(text("XR24:0x1"))],
        },
        PadTemplate {
            is_sink: true,
            drm_formats: vec![None, Some(text("XR24:0x2")), Some(text("XR24:0x3"))],
        },
    ];
    assert_eq!(supported_modifiers(XR24, &templates), vec![2, 3, 0]);
    let linear_first = vec![PadTemplate {
        is_sink: true,
        drm_formats: vec![Some(text("XR24")), Some(text("XR24:0x2"))],
    }];
    assert_eq!(supported_modifiers(XR24, &linear_first), vec![0, 2]);
}

#[test]
fn encoder_defaults() {
    let c = EncoderConfig::default();
    assert_eq!((c.width, c.height, c.framerate), (1920, 1200, 60));
    assert_eq!((c.bitrate_kbps, c.keyframe_interval), (20_000, 600));
    assert_eq!((c.target_usage, c.num_slices, c.cabac), (3, 1, true));
    assert_eq!(c.rate_control, "cbr");
    assert_eq!(c.modifier, 0x0200_0000_0000_0901);
}

fn factories(e: &Encoder) -> Vec<&str> {
    e.elements().iter().map(|x| x.factory.as_str()).collect()
}

fn setting<'a>(e: &'a Element, name: &str) -> &'a Setting {
    &e.settings.iter().find(|p| p.0 == name).unwrap().1
}

fn caps(e: &Element) -> &Structure {
    match setting(e, "caps") {
        Setting::Caps(s) => s,
        _ => panic!("no caps"),
    }
}

fn field<'a>(s: &'a Structure, name: &str) -> &'a FieldValue {
    &s.fields.iter().find(|f| f.0 == name).unwrap().1
}

#[test]
fn dmabuf_encoders_carry_the_tiling() {
    let e = Encoder::new(&EncoderConfig::default());
    assert_eq!(
        factories(&e),
        [
            "appsrc",
            "vapostproc",
            "capsfilter",
            "vah264enc",
            "h264parse",
            "capsfilter",
            "appsink",
        ]
    );
    let source = caps(&e.elements()[0]);
    assert_eq!(source.name, "video/x-raw");
    assert_eq!(source.feature.as_deref(), Some("memory:DMABuf"));
    assert!(matches!(field(source, "drm-format"), FieldValue::Text(t) if t == "XR24:0x0200000000000901"));
    assert!(matches!(field(source, "width"), FieldValue::Signed(1920)));
    assert!(matches!(field(source, "framerate"), FieldValue::Fraction(60, 1)));
    let enc = &e.elements()[3];
    assert!(matches!(setting(enc, "bitrate"), Setting::Unsigned(20_000)));
    assert!(matches!(setting(enc, "cpb-size"), Setting::Unsigned(10_000)));
    assert!(matches!(setting(enc, "rate-control"), Setting::Parsed(t) if t == "cbr"));
    assert!(matches!(setting(&e.elements()[4], "config-interval"), Setting::Signed(-1)));
    assert_eq!(e.elements()[5].label, "h264 capsfilter");
    assert_eq!(e.frame_size(), 1920 * 1200 * 4);
}

#[test]
fn encoders_differ_in_their_source_alone() {
    let config = EncoderConfig::default();
    let (a, b) = (Encoder::new(&config), Encoder::new_cpu(&config));
    for i in 1..7 {
        assert_eq!(
            format!("{:?}", a.elements()[i]),
            format!("{:?}", b.elements()[i])
        );
    }
    let source = caps(&b.elements()[0]);
    assert!(source.feature.is_none());
    assert!(matches!(field(source, "format"), FieldValue::Text(t) if t == "BGRx"));
}

#[test]
fn frames_are_labelled() {
    let config = EncoderConfig::default();
    let layout = Encoder::new(&config).push_frame(64, 7680, 11).ok().unwrap();
    assert_eq!(layout.format, PixelFormat::DmaDrm);
    assert_eq!((layout.offset, layout.stride, layout.pts_ns), (64, 7680, 11));
    assert_eq!((layout.width, layout.height), (1920, 1200));
    let (data, layout) = Encoder::new_cpu(&config).push_frame_bytes(&[1, 2, 3], u32::MAX, 5);
    assert_eq!(data, vec![1, 2, 3]);
    assert_eq!(layout.format, PixelFormat::Bgrx);
    assert_eq!((layout.offset, layout.stride, layout.pts_ns), (0, -1, 5));
}

#[test]
fn plain_encoders_take_no_dmabuf() {
    let e = Encoder::new_cpu(&EncoderConfig::default())
        .push_frame(0, 0, 0)
        .err()
        .unwrap();
    assert!(matches!(e, EncoderError::NotDmabuf));
    assert_eq!(
        e.to_string(),
        "push_frame called on an encoder built with new_cpu"
    );
}

fn broken() -> BusMessage {
    BusMessage::Error {
        source: Some("/pipeline/enc".to_string()),
        error: "no".to_string(),
        debug: None,
    }
}

#[test]
fn packets_are_taken() {
    let e = Encoder::new(&EncoderConfig::default());
    let p = e
        .pull_packet(Pulled::Buffer {
            data: vec![1],
            pts_ns: Some(3),
            delta_unit: false,
        })
        .ok()
        .unwrap()
        .unwrap();
    assert_eq!((p.data, p.pts_ns, p.keyframe), (vec![1], 3, true));
    let p = e
        .pull_packet(Pulled::Buffer {
            data: vec![],
            pts_ns: None,
            delta_unit: true,
        })
        .ok()
        .unwrap()
        .unwrap();
    assert_eq!((p.pts_ns, p.keyframe), (0, false));
    assert!(e.pull_packet(Pulled::Nothing(vec![BusMessage::Other])).ok().unwrap().is_none());
    let fail = |p| e.pull_packet(p).err().unwrap().to_string();
    assert_eq!(fail(Pulled::NoBuffer), "sample carried no buffer");
    assert_eq!(fail(Pulled::Unmappable), "mapping encoded buffer");
    assert_eq!(
        fail(Pulled::Nothing(vec![BusMessage::Other, broken()])),
        "pipeline error from /pipeline/enc: no ()"
    );
}

#[test]
fn the_first_error_on_the_bus_counts() {
    let other = BusMessage::Error {
        source: None,
        error: "e".to_string(),
        debug: Some("d".to_string()),
    };
    assert!(check_bus(&vec![]).is_ok());
    assert_eq!(
        check_bus(&vec![other, broken()]).err().unwrap(),
        "pipeline error from : e (d)"
    );
}

#[test]
fn frame_sizes_have_a_limit() {
    assert!(frame_size_fits(1920, 1200));
    assert!(!frame_size_fits(u32::MAX, u32::MAX));
}

use padplay::hyprland::{
    hyprland_monitor_state, lua_string, monitor_exists, read_monitor, read_monitors,
    restore_hyprland_monitor_state, JsonField, MonitorDefect, MonitorError, MonitorState,
};

const TWO: &str = r#"[
  {"id":0,"name":"DP-1","width":2560,"height":1440,"refreshRate":143.91200,"x":0,"y":-10,
   "scale":1.25,"transform":0,"activeWorkspace":{"id":1,"name":"1"}},
  {"name":"PADPLAY","width":1920,"height":1200,"refreshRate":60,"x":-1536,"y":0,"scale":1,
   "transform":3}
]"#;

#[test]
fn monitors_are_read() {
    let states = hyprland_monitor_state(TWO).ok().unwrap();
    assert_eq!(states.len(), 2);
    let m = &states[0];
    assert_eq!(m.name, "DP-1");
    assert_eq!((m.x, m.y, m.width, m.height, m.transform), (0, -10, 2560, 1440, 0));
    assert_eq!(m.refresh_rate, "143.912000");
    assert_eq!(m.scale, "1.25");
    // Whole numbers are numbers too.
    assert_eq!(states[1].refresh_rate, "60.000000");
    assert_eq!(states[1].scale, "1");
    assert!(monitor_exists(&states, "PADPLAY"));
    assert!(!monitor_exists(&states, "PAD"));
}

#[test]
fn monitors_are_restored_but_for_one() {
    let states = hyprland_monitor_state(TWO).ok().unwrap();
    assert_eq!(
        restore_hyprland_monitor_state(&states, "PADPLAY"),
        "hl.monitor({ output = \"DP-1\", mode = \"2560x1440@143.912\", position = \"0x-10\", \
         scale = 1.25, transform = 0 })"
    );
    assert_eq!(
        restore_hyprland_monitor_state(&states, "other"),
        "hl.monitor({ output = \"DP-1\", mode = \"2560x1440@143.912\", position = \"0x-10\", \
         scale = 1.25, transform = 0 }); hl.monitor({ output = \"PADPLAY\", \
         mode = \"1920x1200@60\", position = \"-1536x0\", scale = 1, transform = 3 })"
    );
    assert_eq!(restore_hyprland_monitor_state(&Vec::new(), "x"), "");
}

#[test]
fn round_refresh_rates_lose_their_decimals_only() {
    let m = MonitorState {
        name: "A".to_string(),
        x: 0,
        y: 0,
        width: 1,
        height: 1,
        refresh_rate: "100.000000".to_string(),
        scale: "1".to_string(),
        transform: 0,
    };
    assert!(restore_hyprland_monitor_state(&vec![m], "").contains("\"1x1@100\""));
}

fn defect(json: &str) -> MonitorDefect {
    match hyprland_monitor_state(json).err().unwrap() {
        MonitorError::Defect(d) => d,
        MonitorError::NotJson(e) => panic!("{}", e),
    }
}

fn with(key: &str, value: &str) -> String {
    let mut fields = vec![
        ("name", "\"A\""),
        ("x", "0"),
        ("y", "0"),
        ("width", "1"),
        ("height", "1"),
        ("refreshRate", "60.0"),
        ("scale", "1.0"),
        ("transform", "0"),
    ];
    for f in fields.iter_mut() {
        if f.0 == key {
            f.1 = value;
        }
    }
    let text: Vec<String> = fields
        .iter()
        .filter(|f| !f.1.is_empty())
        .map(|f| format!("\"{}\":{}", f.0, f.1))
        .collect();
    format!("[{{{}}}]", text.join(","))
}

#[test]
fn each_defect_has_its_input() {
    assert!(hyprland_monitor_state(&with("", "")).is_ok());
    assert_eq!(defect("{}"), MonitorDefect::NotAnArray);
    assert_eq!(defect("[1]"), MonitorDefect::NoName);
    assert_eq!(defect(&with("name", "7")), MonitorDefect::NoName);
    assert_eq!(defect(&with("x", "")), MonitorDefect::NoX);
    assert_eq!(defect(&with("y", "1.5")), MonitorDefect::NoY);
    assert_eq!(defect(&with("width", "-1")), MonitorDefect::NoWidth);
    assert_eq!(defect(&with("height", "null")), MonitorDefect::NoHeight);
    assert_eq!(defect(&with("refreshRate", "\"60\"")), MonitorDefect::NoRefreshRate);
    assert_eq!(defect(&with("scale", "")), MonitorDefect::NoScale);
    assert_eq!(defect(&with("transform", "true")), MonitorDefect::NoTransform);
    assert_eq!(defect(&with("x", "2147483648")), MonitorDefect::XOutOfRange);
    assert_eq!(defect(&with("y", "-2147483649")), MonitorDefect::YOutOfRange);
    assert_eq!(defect(&with("width", "4294967296")), MonitorDefect::WidthOutOfRange);
    assert_eq!(defect(&with("height", "4294967296")), MonitorDefect::HeightOutOfRange);
    assert_eq!(defect(&with("transform", "2147483648")), MonitorDefect::TransformOutOfRange);
    assert_eq!(
        MonitorDefect::NoX.to_string(),
        "Hyprland monitor has no x position"
    );
    let cause = i32::try_from(2147483648i64).unwrap_err();
    for (defect, what) in [
        (MonitorDefect::XOutOfRange, "x position"),
        (MonitorDefect::YOutOfRange, "y position"),
        (MonitorDefect::WidthOutOfRange, "width"),
        (MonitorDefect::HeightOutOfRange, "height"),
        (MonitorDefect::TransformOutOfRange, "transform"),
    ] {
        assert_eq!(
            defect.to_string(),
            format!("Hyprland monitor {} is out of range: {}", what, cause)
        );
    }
}

#[test]
fn a_missing_field_is_reported_ahead_of_a_range() {
    let json = with("x", "99999999999").replace(",\"transform\":0", "");
    assert_eq!(defect(&json), MonitorDefect::NoTransform);
}

#[test]
fn what_is_no_json_is_told_apart() {
    assert!(matches!(
        hyprland_monitor_state("not json").err().unwrap(),
        MonitorError::NotJson(_)
    ));
}

fn field(key: &str) -> JsonField {
    JsonField {
        key: key.to_string(),
        text: Some("t".to_string()),
        signed: Some(-1),
        unsigned: Some(2),
        six_decimals: Some("3.000000".to_string()),
        shortest: Some("3".to_string()),
    }
}

#[test]
fn fields_are_found_by_their_keys() {
    let keys = [
        "transform", "scale", "refreshRate", "height", "width", "y", "x", "name",
    ];
    let fields: Vec<JsonField> = keys.iter().map(|k| field(k)).collect();
    let m = read_monitor(&fields).ok().unwrap();
    assert_eq!((m.name.as_str(), m.x, m.width), ("t", -1, 2));
    assert_eq!(read_monitors(&Some(vec![fields])).ok().unwrap().len(), 1);
    assert_eq!(read_monitors(&None).err().unwrap(), MonitorDefect::NotAnArray);
    assert_eq!(
        read_monitors(&Some(vec![Vec::new()])).err().unwrap(),
        MonitorDefect::NoName
    );
}

#[test]
fn lua_strings_are_escaped() {
    assert_eq!(lua_string("DP-1"), "\"DP-1\"");
    assert_eq!(lua_string("a\\b\"c\n\r\t"), "\"a\\\\b\\\"c\\n\\r\\t\"");
    assert_eq!(lua_string(""), "\"\"");
}

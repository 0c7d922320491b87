use padplay::edid::{build_edid, manufacturer_id, mode_has_timing, CvtTiming};
use padplay::evdi::{EvdiError, EvdiOutput, Mode, PendingEvdiOutput, Update};

#[test]
fn timing_of_a_16_to_10_mode() {
    assert!(mode_has_timing(1920, 1200, 60));
    assert_eq!(
        CvtTiming::reduced_blanking(1920, 1200, 60),
        CvtTiming {
            hactive: 1920,
            vactive: 1200,
            htotal: 2080,
            vtotal: 1235,
            hsync_start: 1968,
            hsync_end: 2000,
            vsync_start: 1203,
            vsync_end: 1209,
            pixel_clock_khz: 154_017,
        }
    );
}

#[test]
fn sync_width_follows_the_aspect_ratio() {
    let sync = |w, h, hz| {
        let t = CvtTiming::reduced_blanking(w, h, hz);
        (t.vsync_end - t.vsync_start, t.vtotal, t.pixel_clock_khz)
    };
    assert_eq!(sync(1024, 768, 60), (4, 790, 56_108));
    assert_eq!(sync(1920, 1080, 90), (5, 1127, 210_910));
    assert_eq!(sync(2560, 1600, 120), (6, 1694, 552_845));
    assert_eq!(sync(1280, 1024, 60), (7, 1054, 90_989));
    assert_eq!(sync(1280, 768, 60), (10, 790, 68_239));
    // The width is cut to a multiple of eight.
    assert_eq!(CvtTiming::reduced_blanking(1366, 768, 60).hactive, 1360);
}

#[test]
fn modes_without_a_timing_are_known() {
    assert!(!mode_has_timing(1920, 0, 60));
    assert!(!mode_has_timing(1920, 1200, 0));
    assert!(!mode_has_timing(1920, 1200, 2174));
    assert!(!mode_has_timing(u32::MAX, 1200, 60));
    assert!(mode_has_timing(0, 1, 1));
}

#[test]
fn edid_is_complete() {
    let edid = build_edid(1920, 1200, 60);
    assert_eq!(
        edid,
        vec![
            0, 255, 255, 255, 255, 255, 255, 0, 54, 69, 1, 0, 0, 0, 0, 0, 1, 34, 1, 4, 165, 0, 0,
            120, 2, 0, 0, 0, 0, 0, 0, 0, 0, 0, 0, 0, 0, 0, 1, 1, 1, 1, 1, 1, 1, 1, 1, 1, 1, 1, 1, 1,
            1, 1, 41, 60, 128, 160, 112, 176, 35, 64, 48, 32, 54, 0, 0, 0, 0, 0, 0, 26, 0, 0, 0,
            252, 0, 80, 97, 100, 80, 108, 97, 121, 10, 32, 32, 32, 32, 32, 0, 0, 0, 16, 0, 0, 0, 0,
            0, 0, 0, 0, 0, 0, 0, 0, 0, 0, 0, 0, 0, 16, 0, 0, 0, 0, 0, 0, 0, 0, 0, 0, 0, 0, 0, 0, 0,
            26,
        ]
    );
}

#[test]
fn edid_bytes_add_up_to_nothing() {
    for (w, h, hz) in [(1920, 1200, 60), (1366, 768, 144), (2880, 1800, 120), (640, 480, 75)] {
        let edid = build_edid(w, h, hz);
        assert_eq!(edid.len(), 128);
        assert_eq!(edid.iter().map(|&b| b as u32).sum::<u32>() % 256, 0);
    }
}

#[test]
fn edid_descriptor_reads_back() {
    let edid = build_edid(1366, 768, 144);
    let d = &edid[54..72];
    assert_eq!(
        d,
        &[83, 70, 80, 160, 80, 0, 55, 48, 48, 32, 58, 0, 0, 0, 0, 0, 0, 26]
    );
    let width = d[2] as u32 + (d[4] as u32 >> 4) * 256;
    let height = d[5] as u32 + (d[7] as u32 >> 4) * 256;
    assert_eq!((width, height), (1360, 768));
}

#[test]
fn blanking_is_at_least_as_long_as_it_must_be() {
    let t = CvtTiming::reduced_blanking(1920, 1200, 60);
    let line_ns = t.htotal as u64 * 1_000_000 / t.pixel_clock_khz as u64;
    assert!((t.vtotal - t.vactive) as u64 * line_ns >= 460_000);
}

#[test]
fn manufacturer_codes_are_packed() {
    assert_eq!(manufacturer_id([b'M', b'R', b'E']), 13_893);
    assert_eq!(manufacturer_id([b'A', b'A', b'A']), 0b0_00001_00001_00001);
}

#[test]
fn devices_are_connected_with_their_edid() {
    let connection = EvdiOutput::connect(1920, 1200, 60);
    assert_eq!(connection.edid, build_edid(1920, 1200, 60));
    assert_eq!((connection.width, connection.height), (1920, 1200));
}

fn device(awaited: Option<Mode>) -> EvdiOutput {
    PendingEvdiOutput::connected(Ok(Mode { width: 1920, height: 1200 }))
        .ok()
        .unwrap()
        .finish(awaited)
}

#[test]
fn the_mode_that_was_set_last_counts() {
    let kept = device(None);
    assert_eq!((kept.width(), kept.height()), (1920, 1200));
    let changed = device(Some(Mode { width: 1280, height: 800 }));
    assert_eq!((changed.width(), changed.height()), (1280, 800));
}

#[test]
fn a_device_that_is_never_mode_set_is_an_error() {
    let e = PendingEvdiOutput::connected(Err("Timeout".to_string())).err().unwrap();
    assert!(matches!(e, EvdiError::NeverModeSet(_)));
    assert_eq!(
        e.to_string(),
        "compositor never mode-set the evdi output — is wlr-randr enabling it after this call \
         returns?: Timeout"
    );
}

#[test]
fn an_idle_device_is_no_failure() {
    let mut d = device(None);
    assert_eq!(d.capture_frame(Update::TimedOut).ok().unwrap(), None);
    let fresh = d.capture_frame(Update::Fresh(9_700_000)).ok().unwrap();
    assert_eq!(fresh.unwrap().latency_ns, 9_700_000);
    let e = d
        .capture_frame(Update::Failed("BadAddress".to_string()))
        .err()
        .unwrap();
    assert_eq!(e.to_string(), "evdi frame update failed: BadAddress");
}

#[test]
fn buffers_can_be_missing() {
    let d = device(None);
    assert_eq!(d.bytes(Some(&[1, 2])).ok().unwrap(), &[1, 2]);
    assert_eq!(
        d.bytes(None).err().unwrap().to_string(),
        "evdi buffer missing — was it unregistered?"
    );
    assert_eq!(d.stride(Some(7680)).ok().unwrap(), 7680);
    assert!(matches!(d.stride(None).err().unwrap(), EvdiError::BufferMissing));
    let e = d.stride(Some(1 << 33)).err().unwrap();
    assert!(matches!(e, EvdiError::StrideTooLarge(_)));
    assert_eq!(
        e.to_string(),
        format!("buffer stride out of range: {}", u32::try_from(1u64 << 33).unwrap_err())
    );
    assert!(EvdiError::NoDevice.to_string().starts_with("no evdi device node available."));
}

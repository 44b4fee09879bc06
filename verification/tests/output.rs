use labwc::output::edid::EdidMode;

#[test]
fn test_edid_mode_display() {
    let m = EdidMode::new(3840, 2160, 144);
    assert_eq!(m.display_string(), "3840x2160 @ 144Hz");
}

#[test]
#[allow(clippy::useless_vec)]
fn test_edid_mode_sorting() {
    let mut modes = vec![
        EdidMode::new(1920, 1080, 60),
        EdidMode::new(3840, 2160, 60),
        EdidMode::new(1920, 1080, 144),
    ];
    modes.sort_by(|a, b| {
        b.width
            .cmp(&a.width)
            .then(b.height.cmp(&a.height))
            .then(b.refresh_hz.cmp(&a.refresh_hz))
    });
    assert_eq!(modes[0].width, 3840);
    assert_eq!(modes[1].refresh_hz, 144);
}

use labwc::output::edid::EdidInfo;
use labwc::output::Output;

#[test]
fn test_edid_magic_rejection() {
    assert!(EdidInfo::parse(&[0u8; 128]).is_none());
    assert!(EdidInfo::parse(&[]).is_none());
}

#[test]
fn test_manufacturer_decode() {
    // Dell = 0x10AC in PNP ID encoding
    let data = [0x10u8, 0xAC];
    let name = EdidInfo::decode_manufacturer(&data);
    assert_eq!(name.len(), 3);
}

#[test]
fn test_output_creation() {
    let out = Output::new("DP-1", 2560, 1440, 165);
    assert_eq!(out.refresh_rate, 165);
    assert_eq!(out.width, 2560);
}

#[test]
fn test_set_refresh_rate() {
    let mut out = Output::new("HDMI-1", 3840, 2160, 144);
    out.min_refresh_rate = 48;
    out.max_refresh_rate = 144;
    out.set_refresh_rate(60);
    assert_eq!(out.current_refresh_rate, 60);
    out.set_refresh_rate(240);
    assert_eq!(out.current_refresh_rate, 144);
}

#[test]
fn test_hdr_detection() {
    let mut out = Output::new("DP-1", 3840, 2160, 144);
    out.hdr10_supported = true;
    out.color_depth = 10;
    assert!(out.supports_hdr());
}

#[test]
fn manufacturer_decodes_dell() {
    assert_eq!(EdidInfo::decode_manufacturer(&[0x10u8, 0xAC]), "DEL");
}

#[test]
fn refresh_rate_below_minimum_is_raised() {
    let mut out = Output::new("HDMI-1", 1920, 1080, 60);
    out.min_refresh_rate = 48;
    out.max_refresh_rate = 144;
    out.set_refresh_rate(30);
    assert_eq!(out.current_refresh_rate, 48);
}

#[test]
fn hdr_needs_ten_bit_color() {
    let mut out = Output::new("DP-1", 3840, 2160, 144);
    out.hdr10_supported = true;
    out.color_depth = 8;
    assert!(!out.supports_hdr());
}

fn sample_edid() -> Vec<u8> {
    let mut d = vec![0u8; 128];
    d[..8].copy_from_slice(&[0x00, 0xFF, 0xFF, 0xFF, 0xFF, 0xFF, 0xFF, 0x00]);
    d[8] = 0x10;
    d[9] = 0xAC;
    d[10] = 0x34;
    d[11] = 0x12;
    d[12..16].copy_from_slice(&[0x78, 0x56, 0x34, 0x12]);
    d[21] = 60;
    d[22] = 34;
    d[23] = 120;
    for i in 0..8 {
        d[38 + 2 * i] = 1;
        d[39 + 2 * i] = 1;
    }
    // 1920x1080 at 148.5 MHz with 280 + 45 blanking: 60 Hz.
    d[54..62].copy_from_slice(&[0x02, 0x3A, 0x80, 0x18, 0x71, 0x38, 0x2D, 0x40]);
    d
}

#[test]
fn edid_parse_base_block() {
    let e = EdidInfo::parse(&sample_edid()).unwrap();
    assert_eq!(e.manufacturer, "DEL");
    assert_eq!(e.model, "DEL1234");
    assert_eq!(e.serial, "12345678");
    assert_eq!((e.physical_width_cm, e.physical_height_cm), (60, 34));
    assert_eq!(e.gamma_centi, 220);
    let p = e.preferred_mode.unwrap();
    assert_eq!((p.width, p.height, p.refresh_hz, p.is_preferred), (1920, 1080, 60, true));
    assert_eq!(e.modes.len(), 1);
    assert_eq!(e.best_mode().unwrap().width, 1920);
    assert_eq!(e.max_refresh(), 60);
    assert!(!e.hdr10_supported && !e.hdr_st2084);
    assert_eq!(e.color_depth, 8);
}

#[test]
fn edid_standard_timing_adds_modes() {
    let mut d = sample_edid();
    // 1280 wide (160 - 31 = 129 units of 8), 16:9, 60 + 15 = 75 Hz.
    d[38] = 129;
    d[39] = 0xC0 | 15;
    let e = EdidInfo::parse(&d).unwrap();
    assert_eq!(e.modes.len(), 2);
    assert_eq!((e.modes[0].width, e.modes[0].height), (1920, 1080));
    assert_eq!((e.modes[1].width, e.modes[1].height, e.modes[1].refresh_hz), (1280, 720, 75));
    assert_eq!(e.max_refresh(), 75);
}

use labwc::output::modes::{probe_all_connectors, ConnectorProbe, VrrHints};
use labwc::output::outputs_from_connectors;

fn probe(name: &str, status: &str, edid: Option<Vec<u8>>) -> ConnectorProbe {
    ConnectorProbe {
        name: name.into(),
        path: format!("/sys/class/drm/{name}"),
        status: status.into(),
        enabled: "enabled\n".into(),
        edid,
        modes: Some("1920x1080\n1280x720\n".into()),
        max_bpc: "8\n".into(),
        vrr: VrrHints {
            nvidia_modeset: false,
            vrr_capable: None,
            amd_freesync_video: false,
            i915_psr: false,
        },
    }
}

#[test]
fn connected_display_becomes_output() {
    let conns = probe_all_connectors(vec![
        probe("card0-HDMI-A-1", "disconnected\n", None),
        probe("card0-DP-1", "connected\n", Some(sample_edid())),
    ]);
    assert_eq!(conns.len(), 1);
    assert_eq!(conns[0].name, "card0-DP-1");
    let outs = outputs_from_connectors(&conns);
    assert_eq!(outs.len(), 1);
    let o = &outs[0];
    assert_eq!((o.width, o.height, o.refresh_rate), (1920, 1080, 60));
    assert_eq!(o.make, "DEL");
    assert_eq!(o.model, "DEL1234");
    assert_eq!(o.id_bit, 1);
}

#[test]
fn no_connected_display_falls_back() {
    let conns = probe_all_connectors(vec![probe("card0-HDMI-A-1", "disconnected", None)]);
    assert_eq!(conns.len(), 1);
    assert_eq!(conns[0].name, "FALLBACK-1");
    let outs = outputs_from_connectors(&Vec::new());
    assert_eq!(outs[0].name, "FALLBACK-1");
    assert_eq!((outs[0].width, outs[0].height, outs[0].refresh_rate), (1920, 1080, 60));
}

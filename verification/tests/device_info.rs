use adbtools::device::{
    compute_smallest_width_dp, device_info_from, effective_wm_value, parse_devices,
    parse_wm_two_values, prop_value, smallest_width_overflows,
};
use adbtools::model::Device;

#[test]
fn devices_listing_is_read() {
    let out = "List of devices attached\nemulator-5554          device product:sdk_gphone64_arm64 model:sdk_gphone64_arm64 device:emu64a transport_id:1\n192.168.1.5:5555       offline\n\n";
    let devices = parse_devices(out);
    assert_eq!(
        devices,
        vec![
            Device {
                serial: "emulator-5554".to_string(),
                status: "device".to_string(),
                model: Some("sdk_gphone64_arm64".to_string()),
                device_type: Some("emu64a".to_string()),
            },
            Device {
                serial: "192.168.1.5:5555".to_string(),
                status: "offline".to_string(),
                model: None,
                device_type: None,
            },
        ]
    );
}

#[test]
fn header_only_listing_has_no_devices() {
    assert!(parse_devices("List of devices attached\n").is_empty());
    assert!(parse_devices("").is_empty());
}

#[test]
fn wm_values_are_read() {
    let (p, o) = parse_wm_two_values("Physical size: 1080x2400\nOverride size: 720x1600\n");
    assert_eq!(p.as_deref(), Some("1080x2400"));
    assert_eq!(o.as_deref(), Some("720x1600"));
    let (p, o) = parse_wm_two_values("Physical density: 440");
    assert_eq!(p.as_deref(), Some("440"));
    assert_eq!(o, None);
}

#[test]
fn override_takes_effect() {
    assert_eq!(
        effective_wm_value("Physical size: 1080x2400\nOverride size: 720x1600").as_deref(),
        Some("720x1600")
    );
    assert_eq!(effective_wm_value("Physical density: 440").as_deref(), Some("440"));
    assert_eq!(effective_wm_value("error"), None);
}

#[test]
fn smallest_width_formula() {
    let size = Some("1080x2400".to_string());
    let dpi = Some("440".to_string());
    assert_eq!(compute_smallest_width_dp(&size, &dpi), Some(1080 * 160 / 440));
    let turned = Some("2400x1080".to_string());
    assert_eq!(compute_smallest_width_dp(&turned, &dpi), Some(392));
    assert_eq!(compute_smallest_width_dp(&size, &Some("0".to_string())), None);
    assert_eq!(compute_smallest_width_dp(&Some("1080".to_string()), &dpi), None);
    assert_eq!(compute_smallest_width_dp(&size, &None), None);
    assert_eq!(compute_smallest_width_dp(&Some(" 1080 x 2400 ".to_string()), &Some(" 480 ".to_string())), Some(360));
}

#[test]
fn smallest_width_overflow_is_detected() {
    let huge = Some("4294967295x4294967295".to_string());
    assert!(smallest_width_overflows(&huge, &Some("160".to_string())));
    assert!(!smallest_width_overflows(&huge, &Some("0".to_string())));
    assert!(!smallest_width_overflows(&Some("1080x2400".to_string()), &Some("440".to_string())));
}

#[test]
fn device_page_is_assembled() {
    let info = device_info_from(
        "emulator-5554",
        &Ok("Pixel 7\n".to_string()),
        &Ok("Google\n".to_string()),
        &Ok("14\n".to_string()),
        &Err("failed".to_string()),
        &Ok("Physical size: 1080x2400\nOverride size: 1080x2340\n".to_string()),
        &Ok("Physical density: 420\n".to_string()),
        "2.63",
    );
    assert_eq!(info.serial, "emulator-5554");
    assert_eq!(info.model, "Pixel 7");
    assert_eq!(info.manufacturer, "Google");
    assert_eq!(info.android_version, "14");
    assert_eq!(info.sdk_version, "");
    assert_eq!(info.screen_resolution, "1080x2340");
    assert_eq!(info.density_dpi, "420");
    assert_eq!(info.density, "2.63");
    assert_eq!(info.smallest_width, "411 dp");
}

#[test]
fn failed_property_reads_empty() {
    assert_eq!(prop_value(&Err("x".to_string())), "");
    assert_eq!(prop_value(&Ok("  34 \n".to_string())), "34");
}

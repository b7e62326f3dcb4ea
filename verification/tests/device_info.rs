//! Device names, the source-output parser, the update-info value and the
//! default control values.

use voidmic_core::default_agc_target;
use voidmic_core::default_dark_mode;
use voidmic_core::default_first_run;
use voidmic_core::default_gate_threshold;
use voidmic_core::default_preset;
use voidmic_core::default_suppression_strength;
use voidmic_core::default_toggle_hotkey;
use voidmic_core::default_vad_sensitivity;
use voidmic_core::get_monitor_source_name;
use voidmic_core::parse_source_outputs;
use voidmic_core::UpdateInfo;
use voidmic_core::VirtualDevice;
use voidmic_core::VIRTUAL_SINK_NAME;

#[test]
fn test_virtual_sink_name_constant() {
    assert_eq!(VIRTUAL_SINK_NAME, "VoidMic_Clean");
    assert!(!VIRTUAL_SINK_NAME.is_empty());
    assert!(!VIRTUAL_SINK_NAME.contains(' ')); // No spaces for pactl compatibility
}

#[test]
fn test_monitor_source_name_format() {
    let monitor = get_monitor_source_name();
    assert_eq!(monitor, "VoidMic_Clean.monitor");
    assert!(monitor.ends_with(".monitor"));
    assert!(monitor.starts_with(VIRTUAL_SINK_NAME));
}

#[test]
fn test_virtual_device_struct_construction() {
    let device = VirtualDevice {
        module_id: 42,
        sink_name: "test_sink".to_string(),
    };
    assert_eq!(device.module_id, 42);
    assert_eq!(device.sink_name, "test_sink");
}

#[test]
fn test_virtual_device_clone() {
    let device = VirtualDevice {
        module_id: 123,
        sink_name: VIRTUAL_SINK_NAME.to_string(),
    };
    let cloned = device.clone();
    assert_eq!(cloned.module_id, device.module_id);
    assert_eq!(cloned.sink_name, device.sink_name);
}

#[test]
fn test_virtual_device_debug() {
    let device = VirtualDevice {
        module_id: 1,
        sink_name: "test".to_string(),
    };
    let debug_str = format!("{:?}", device);
    assert!(debug_str.contains("VirtualDevice"));
    assert!(debug_str.contains("module_id"));
    assert!(debug_str.contains("sink_name"));
}

#[test]
fn test_parse_source_outputs() {
    let sample = r#"
Source Output #42
        Source: VoidMic_Clean.monitor
        application.name = "Discord"

Source Output #43
        Source: alsa_input.pci-0000
        application.name = "Firefox"
"#;
    let apps = parse_source_outputs(sample);
    assert_eq!(apps.len(), 1);
    assert_eq!(apps[0].name, "Discord");
}

#[test]
fn pulse_info_test_parse_source_outputs() {
    let sample = r#"
Source Output #42
        Source: VoidMic_Clean.monitor
        application.name = "Discord"

Source Output #43
        Source: alsa_input.pci-0000
        application.name = "Firefox"
"#;
    let apps = parse_source_outputs(sample);
    assert_eq!(apps.len(), 1);
    assert_eq!(apps[0].name, "Discord");
}

#[test]
fn parse_keeps_last_entry_without_trailing_newline() {
    let sample = "Source Output #7\n\tSource: VoidMic_Clean.monitor\n\tapplication.name = \"OBS\"";
    let apps = parse_source_outputs(sample);
    assert_eq!(apps.len(), 1);
    assert_eq!(apps[0].name, "OBS");
}

#[test]
fn parse_ignores_entries_on_other_sources() {
    let sample = "Source Output #1\n Source: other.monitor\n application.name = \"A\"\n";
    let apps = parse_source_outputs(sample);
    assert_eq!(apps.len(), 0);
}

#[test]
fn parse_collects_several_matching_entries() {
    let mut sample = String::new();
    sample.push_str("Source Output #1\n Source: VoidMic_Clean.monitor\n application.name = \"A\"\n");
    sample.push_str("Source Output #2\n Source: VoidMic_Clean.monitor\n application.name = \"B\"\n");
    let apps = parse_source_outputs(&sample);
    assert_eq!(apps.len(), 2);
    assert_eq!(apps[0].name, "A");
    assert_eq!(apps[1].name, "B");
}

#[test]
fn update_info_carries_its_fields() {
    let info = UpdateInfo {
        version: "v1.2.3".to_string(),
        download_url: "https://example.com".to_string(),
    };
    let copy = info.clone();
    assert_eq!(copy.version, "v1.2.3");
    assert_eq!(copy.download_url, "https://example.com");
}

#[test]
fn default_values_match_the_engine_defaults() {
    assert_eq!(default_vad_sensitivity(), 2);
    assert!(default_first_run());
    assert_eq!(default_toggle_hotkey(), "Control+Shift+M");
    assert_eq!(default_preset(), "Standard");
    assert!(default_dark_mode());
    assert_eq!(default_gate_threshold(), 15000);
    assert_eq!(default_suppression_strength(), 1000000);
    assert_eq!(default_agc_target(), 700000);
}

use klyppd::devices::{audio_input_devices, is_audio_input_value, parse_audio_input_line};

fn parsed(line: &str) -> Option<(String, String)> {
    parse_audio_input_line(line).map(|d| (d.value, d.label))
}

fn pair(v: &str, l: &str) -> Option<(String, String)> {
    Some((v.to_string(), l.to_string()))
}

#[test]
fn structured_lines() {
    assert_eq!(parsed("alsa_input.usb-mic|USB Mic"), pair("alsa_input.usb-mic", "USB Mic"));
    assert_eq!(parsed("  bluez_source.headset | (Headset)  "), pair("bluez_source.headset", "Headset"));
    assert_eq!(parsed("custom|"), pair("custom", "custom"));
    assert_eq!(parsed("alsa_output.pci|Speakers"), None);
    assert_eq!(parsed("default_output|Default output"), None);
    assert_eq!(parsed("x.monitor|Monitor"), None);
    assert_eq!(parsed("thing|Monitor of Speakers"), None);
    assert_eq!(parsed("|label"), None);
}

#[test]
fn plain_lines() {
    assert_eq!(parsed("mic_source (My Mic)"), pair("mic_source", "My Mic"));
    assert_eq!(parsed("bluez_input.xx"), pair("bluez_input.xx", "bluez_input.xx"));
    assert_eq!(parsed("default_input"), pair("default_input", "default_input"));
    assert_eq!(parsed("speaker thing"), None);
    assert_eq!(parsed("weird/input x"), None);
}

#[test]
fn noise_lines() {
    for l in ["", "   ", "gsr info", "usage: x", "Run this", "Audio devices:", "NOTES: y", "expected one of: z"] {
        assert_eq!(parsed(l), None, "line {l:?}");
    }
}

#[test]
fn input_values() {
    assert!(is_audio_input_value("default_input", "", false));
    assert!(is_audio_input_value("alsa_input.x", "Monitor of x", false));
    assert!(!is_audio_input_value("", "", true));
    assert!(is_audio_input_value("anything", "Nice", true));
    assert!(is_audio_input_value("USB-Mic", "", false));
    assert!(!is_audio_input_value("usb_speaker", "", false));
}

#[test]
fn device_listing_dedupes() {
    let out = b"default_input|Default\nalsa_input.a|Mic A\nalsa_input.a|Mic A again\nalsa_output.b|Out\n";
    let err = b"gsr warning\nalsa_input.c|Mic C\n";
    let d = audio_input_devices(out, err);
    let got: Vec<(String, String)> = d.into_iter().map(|d| (d.value, d.label)).collect();
    assert_eq!(
        got,
        vec![
            ("default_input".to_string(), "Default input".to_string()),
            ("alsa_input.a".to_string(), "Mic A".to_string()),
            ("alsa_input.c".to_string(), "Mic C".to_string()),
        ]
    );
    assert_eq!(audio_input_devices(b"", b"").len(), 1);
}

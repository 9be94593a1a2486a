use meeting_assistant::audio::host_thread::{debug_assert_on_audio_host_thread, on_audio_host_thread};
use meeting_assistant::audio::playback_monitor::{output_info, OutputPlatform};
use meeting_assistant::audio::system_audio::{SystemAudioStartedPayload, SystemAudioStoppedPayload};

#[test]
fn host_thread_runs_the_query_inline() {
    debug_assert_on_audio_host_thread();
    let value = on_audio_host_thread(|| 40 + 2);
    assert_eq!(value, 42);
    let name = on_audio_host_thread(|| "device".to_string());
    assert_eq!(name, "device");
}

#[test]
fn airpods_on_macos_are_bluetooth_headphones() {
    let info = output_info("AirPods Pro".to_string(), Some(48_000), OutputPlatform::MacOs);
    assert_eq!(info.device_name, "AirPods Pro");
    assert!(info.is_bluetooth);
    assert_eq!(info.device_type, "Headphones");
    assert_eq!(info.sample_rate, Some(48_000));
}

#[test]
fn macos_display_speakers_are_wired_speakers() {
    let info = output_info("LG UltraFine Display Audio".to_string(), None, OutputPlatform::MacOs);
    assert!(!info.is_bluetooth);
    assert_eq!(info.device_type, "Speaker");
    assert_eq!(info.sample_rate, None);
}

#[test]
fn windows_speakers_are_not_bluetooth() {
    let info = output_info("Speakers (Realtek High Definition Audio)".to_string(), Some(44_100), OutputPlatform::Windows);
    assert!(!info.is_bluetooth);
    assert_eq!(info.device_type, "Speaker");
}

#[test]
fn windows_headset_is_bluetooth_headphones() {
    let info = output_info("Headset (WH-1000XM4 Hands-Free)".to_string(), Some(16_000), OutputPlatform::Windows);
    assert!(info.is_bluetooth);
    assert_eq!(info.device_type, "Headphones");
}

#[test]
fn linux_bluez_sink_is_bluetooth_of_unknown_kind() {
    let info = output_info("bluez_output.00_1B_66.a2dp-sink".to_string(), Some(48_000), OutputPlatform::Linux);
    assert!(info.is_bluetooth);
    assert_eq!(info.device_type, "Unknown");
}

#[test]
fn marker_words_differ_by_platform() {
    // "beats" marks Bluetooth only on macOS.
    let mac = output_info("Beats Studio".to_string(), None, OutputPlatform::MacOs);
    let linux = output_info("Beats Studio".to_string(), None, OutputPlatform::Linux);
    assert!(mac.is_bluetooth);
    assert!(!linux.is_bluetooth);
}

#[test]
fn system_audio_payloads_carry_the_applications() {
    let started = SystemAudioStartedPayload { apps: vec!["Zoom".to_string()] };
    assert_eq!(started.clone(), started);
    assert_eq!(SystemAudioStoppedPayload, SystemAudioStoppedPayload);
}

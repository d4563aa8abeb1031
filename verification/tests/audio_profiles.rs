use kaiser::audio::{apply_audio_settings, AudioCommand, AudioDevice, AudioFlow, AudioSetting};
use kaiser::display::{DisplayId, Layout, OutputConfig, Profile};
use kaiser::profile::{kaiser_profile_for, profile_audio_to_apply, to_profile_dto, KaiserProfile};
use kaiser::text::{chars_of_str, text_contains};

fn device(id: &str, name: &str, flow: AudioFlow) -> AudioDevice {
    AudioDevice { id: id.to_string(), name: name.to_string(), flow }
}

fn setting(pattern: &str, flow: AudioFlow, volume: Option<f32>, muted: Option<bool>, default: Option<bool>) -> AudioSetting {
    AudioSetting { pattern: pattern.to_string(), flow, volume: volume.map(f32::to_bits), muted, set_default: default }
}

fn layout() -> Layout {
    Layout {
        outputs: vec![OutputConfig { display_id: DisplayId { adapter_luid: 1, target_id: 2 }, enabled: true }],
    }
}

#[test]
fn pattern_matches_ignoring_case() {
    let devices = vec![
        device("a", "Speakers (Realtek Audio)", AudioFlow::Render),
        device("b", "Headset Microphone", AudioFlow::Capture),
    ];
    let settings = vec![setting("REALTEK", AudioFlow::Render, None, Some(true), None)];
    assert_eq!(
        apply_audio_settings(&devices, &settings),
        vec![AudioCommand::SetMute { device: 0, muted: true }]
    );
    let settings = vec![setting("headset", AudioFlow::Capture, None, None, Some(true))];
    assert_eq!(apply_audio_settings(&devices, &settings), vec![AudioCommand::SetDefault { device: 1 }]);
}

#[test]
fn non_ascii_names_match_ignoring_case() {
    let devices = vec![device("a", "ÄUSSERE Lautsprecher", AudioFlow::Render)];
    let settings = vec![setting("äussere", AudioFlow::Render, None, None, Some(true))];
    assert_eq!(apply_audio_settings(&devices, &settings), vec![AudioCommand::SetDefault { device: 0 }]);
}

#[test]
fn flow_must_match() {
    let devices = vec![device("a", "Headset", AudioFlow::Render), device("b", "Headset", AudioFlow::Capture)];
    let settings = vec![setting("headset", AudioFlow::Capture, Some(0.5), None, None)];
    assert_eq!(
        apply_audio_settings(&devices, &settings),
        vec![AudioCommand::SetVolume { device: 1, volume: 0.5f32.to_bits() }]
    );
}

#[test]
fn commands_come_in_setting_then_device_order() {
    let devices = vec![
        device("a", "USB Speakers", AudioFlow::Render),
        device("b", "HDMI Output", AudioFlow::Render),
        device("c", "USB Speakers 2", AudioFlow::Render),
    ];
    let settings = vec![
        setting("usb", AudioFlow::Render, Some(0.5), Some(false), Some(true)),
        setting("hdmi", AudioFlow::Render, None, None, Some(false)),
        setting("nothing", AudioFlow::Render, Some(0.5), Some(true), Some(true)),
        setting("hdmi", AudioFlow::Render, Some(0.25), None, None),
    ];
    assert_eq!(
        apply_audio_settings(&devices, &settings),
        vec![
            AudioCommand::SetVolume { device: 0, volume: 0.5f32.to_bits() },
            AudioCommand::SetMute { device: 0, muted: false },
            AudioCommand::SetDefault { device: 0 },
            AudioCommand::SetVolume { device: 2, volume: 0.5f32.to_bits() },
            AudioCommand::SetMute { device: 2, muted: false },
            AudioCommand::SetDefault { device: 2 },
            AudioCommand::SetVolume { device: 1, volume: 0.25f32.to_bits() },
        ]
    );
}

#[test]
fn no_settings_no_commands() {
    let devices = vec![device("a", "Speakers", AudioFlow::Render)];
    assert_eq!(apply_audio_settings(&devices, &Vec::new()), Vec::new());
    assert_eq!(apply_audio_settings(&Vec::new(), &vec![setting("", AudioFlow::Render, Some(0.5), None, None)]), Vec::new());
}

#[test]
fn empty_pattern_matches_every_device_of_the_flow() {
    let devices = vec![device("a", "One", AudioFlow::Render), device("b", "Two", AudioFlow::Capture)];
    let settings = vec![setting("", AudioFlow::Render, None, Some(false), None)];
    assert_eq!(apply_audio_settings(&devices, &settings), vec![AudioCommand::SetMute { device: 0, muted: false }]);
}

#[test]
fn text_helpers() {
    assert!(text_contains("speakers (realtek)", "realtek"));
    assert!(text_contains("abc", ""));
    assert!(text_contains("abc", "abc"));
    assert!(!text_contains("abc", "abcd"));
    assert!(!text_contains("abc", "ac"));
    assert!(text_contains("aab", "ab"));
    assert_eq!(chars_of_str("hé!"), vec!['h', 'é', '!']);
}

#[test]
fn profile_dto_without_stored_audio() {
    let p = Profile { name: "Work".to_string(), layout: layout() };
    let dto = to_profile_dto(&p, None);
    assert_eq!(dto.name, "Work");
    assert_eq!(dto.layout, layout());
    assert!(dto.audio.is_empty());
}

#[test]
fn profile_dto_with_stored_audio() {
    let p = Profile { name: "Games".to_string(), layout: layout() };
    let audio = vec![setting("hdmi", AudioFlow::Render, Some(0.5), None, Some(true))];
    let stored = KaiserProfile { layout: Layout { outputs: Vec::new() }, audio: audio.clone() };
    let dto = to_profile_dto(&p, Some(stored));
    assert_eq!(dto.audio, audio);
    assert_eq!(dto.layout, layout());
}

#[test]
fn saved_profile_defaults_to_no_audio() {
    let kp = kaiser_profile_for(layout(), None);
    assert_eq!(kp.layout, layout());
    assert!(kp.audio.is_empty());
    let audio = vec![setting("x", AudioFlow::Capture, None, Some(true), None)];
    assert_eq!(kaiser_profile_for(layout(), Some(audio.clone())).audio, audio);
}

#[test]
fn only_non_empty_stored_audio_is_applied() {
    assert_eq!(profile_audio_to_apply(None), None);
    let empty = KaiserProfile { layout: layout(), audio: Vec::new() };
    assert_eq!(profile_audio_to_apply(Some(empty)), None);
    let audio = vec![setting("x", AudioFlow::Capture, None, Some(true), None)];
    let some = KaiserProfile { layout: layout(), audio: audio.clone() };
    assert_eq!(profile_audio_to_apply(Some(some)), Some(audio));
}

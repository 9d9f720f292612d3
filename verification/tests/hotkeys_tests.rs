use klyppd::hotkeys::{
    command_from_name, hotkey_action, hotkey_feedback, hotkey_for_key, hotkey_matches,
    pending_clip_name, pending_clip_name_on, update_modifiers, HotkeyAction, HotkeyCommand,
    MOD_ALT, MOD_CTRL, MOD_SHIFT, MOD_SUPER,
};
use klyppd::recorder::RecordingState;
use klyppd::settings::AppSettings;

#[test]
fn modifiers_follow_key_presses() {
    let m = update_modifiers(0, "KEY_LEFTALT", true);
    assert_eq!(m, MOD_ALT);
    let m = update_modifiers(m, "KEY_RIGHTSHIFT", true);
    assert_eq!(m, MOD_ALT | MOD_SHIFT);
    let m = update_modifiers(m, "KEY_A", true);
    assert_eq!(m, MOD_ALT | MOD_SHIFT);
    let m = update_modifiers(m, "KEY_RIGHTALT", false);
    assert_eq!(m, MOD_SHIFT);
    assert_eq!(update_modifiers(0, "KEY_LEFTCTRL", true), MOD_CTRL);
    assert_eq!(update_modifiers(MOD_SUPER, "KEY_RIGHTMETA", false), 0);
}

#[test]
fn hotkeys_match_exact_modifiers() {
    assert!(hotkey_matches("Alt+R", "KEY_R", MOD_ALT));
    assert!(!hotkey_matches("Alt+R", "KEY_R", MOD_ALT | MOD_SHIFT));
    assert!(!hotkey_matches("Alt+R", "KEY_T", MOD_ALT));
    assert!(hotkey_matches("Alt+Shift+R", "KEY_R", MOD_ALT | MOD_SHIFT));
    assert!(hotkey_matches(" alt + shift + r ", "KEY_R", MOD_ALT | MOD_SHIFT));
    assert!(hotkey_matches("Alt+F8", "KEY_F8", MOD_ALT));
    assert!(hotkey_matches("Super+x", "KEY_X", MOD_SUPER));
    assert!(hotkey_matches("META+x", "KEY_X", MOD_SUPER));
    assert!(hotkey_matches("ctrl+1", "KEY_1", MOD_CTRL));
    assert!(hotkey_matches("F9", "KEY_F9", 0));
    assert!(!hotkey_matches("F9", "KEY_F9", MOD_CTRL));
}

#[test]
fn hotkey_commands_and_debounce() {
    let s = AppSettings::with_clips_directory("/c".into());
    assert_eq!(hotkey_for_key(&s, "KEY_R", MOD_ALT, 2_000_000_000), Some(HotkeyCommand::SaveReplay));
    assert_eq!(hotkey_for_key(&s, "KEY_R", MOD_ALT, 1_500_000_000), None);
    assert_eq!(hotkey_for_key(&s, "KEY_R", MOD_ALT | MOD_SHIFT, 0), Some(HotkeyCommand::ToggleRecording));
    assert_eq!(hotkey_for_key(&s, "KEY_F8", MOD_ALT, 0), Some(HotkeyCommand::ToggleBuffer));
    assert_eq!(hotkey_for_key(&s, "KEY_Q", MOD_ALT, 0), None);
}

#[test]
fn socket_commands() {
    assert_eq!(command_from_name("save-replay"), Some(HotkeyCommand::SaveReplay));
    assert_eq!(command_from_name("toggle-buffer"), Some(HotkeyCommand::ToggleBuffer));
    assert_eq!(command_from_name("toggle-recording"), Some(HotkeyCommand::ToggleRecording));
    assert_eq!(command_from_name("reboot"), None);
}

#[test]
fn toggles_follow_the_state() {
    let idle = RecordingState { replay_buffer_active: false, recording_active: false };
    let busy = RecordingState { replay_buffer_active: true, recording_active: true };
    assert_eq!(hotkey_action(HotkeyCommand::ToggleBuffer, &idle), HotkeyAction::StartBuffer);
    assert_eq!(hotkey_action(HotkeyCommand::ToggleBuffer, &busy), HotkeyAction::StopBuffer);
    assert_eq!(hotkey_action(HotkeyCommand::ToggleRecording, &idle), HotkeyAction::StartRecording);
    assert_eq!(hotkey_action(HotkeyCommand::ToggleRecording, &busy), HotkeyAction::StopRecording);
    assert_eq!(hotkey_action(HotkeyCommand::SaveReplay, &idle), HotkeyAction::SaveReplay);
}

#[test]
fn feedback_messages() {
    let s = AppSettings::with_clips_directory("/c".into());
    let f = hotkey_feedback(HotkeyAction::SaveReplay, true, &s, "Sober");
    assert!(f.play_sound);
    assert_eq!(f.toast, "Klyppd the last 120s of Sober");
    assert_eq!(f.toast_kind, "ok");
    assert_eq!(f.notification, Some(("Klypp saved".to_string(), "Klyppd the last 120s of Sober".to_string())));
    let f = hotkey_feedback(HotkeyAction::SaveReplay, false, &s, "Sober");
    assert!(!f.play_sound);
    assert_eq!((f.toast.as_str(), f.toast_kind.as_str()), ("Buffer not running", "err"));
    let f = hotkey_feedback(HotkeyAction::StartBuffer, true, &s, "");
    assert_eq!(f.toast, "Buffering last 120s");
    assert_eq!(f.notification, Some(("Klyppd started".to_string(), "Buffering last 120s".to_string())));
    let f = hotkey_feedback(HotkeyAction::StartBuffer, false, &s, "");
    assert_eq!((f.toast.as_str(), f.toast_kind.as_str(), f.notification), ("Klyppd failed to start", "err", None));
    let f = hotkey_feedback(HotkeyAction::StopBuffer, true, &s, "");
    assert_eq!(f.notification, Some(("Klyppd stopped".to_string(), "Buffer is no longer recording".to_string())));
    let f = hotkey_feedback(HotkeyAction::StartRecording, true, &s, "");
    assert_eq!(f.toast, "Klypping\u{2026}");
    let f = hotkey_feedback(HotkeyAction::StopRecording, true, &s, "");
    assert_eq!(f.toast, "Klypp recording stopped");
    let f = hotkey_feedback(HotkeyAction::StartRecording, false, &s, "");
    assert_eq!((f.toast.as_str(), f.toast_kind.as_str()), ("Klypp failed", "err"));
}

#[test]
fn pending_names() {
    assert_eq!(pending_clip_name_on("Sober", "2024-01-02"), "Sober_2024-01-02");
    // 2015-05-15 00:00:00 UTC
    assert_eq!(pending_clip_name("Clip", 1431648000, 0, 0), Some("Clip_2015-05-15".to_string()));
    // an hour west of UTC it is still the day before
    assert_eq!(pending_clip_name("Clip", 1431648000, 0, -3600), Some("Clip_2015-05-14".to_string()));
    assert_eq!(pending_clip_name("Clip", 1431648000, 0, 86_400), None);
    assert_eq!(pending_clip_name("Clip", i64::MAX, 0, 0), None);
    // before 1970 is still a date
    assert_eq!(pending_clip_name("Clip", -86_400, 0, 0), Some("Clip_1969-12-31".to_string()));
}

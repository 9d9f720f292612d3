use klyppd::editor::AudioTrackMeta;
use klyppd::recorder::{
    active_monitor, application_audio_names, audio_tracks, capture_target, has_application_audio,
    is_hyprland_session, CaptureEnv, Recorder, RecordingState,
};
use klyppd::settings::AppSettings;

fn settings() -> AppSettings {
    AppSettings::with_clips_directory("~/Videos/Klyppd".to_string())
}

fn view(ts: &[AudioTrackMeta]) -> Vec<(String, String, String, bool)> {
    ts.iter().map(|t| (t.key.clone(), t.label.clone(), t.source.clone(), t.isolated)).collect()
}

fn t(k: &str, l: &str, s: &str, i: bool) -> (String, String, String, bool) {
    (k.into(), l.into(), s.into(), i)
}

fn env(apps: &[&str]) -> CaptureEnv {
    CaptureEnv {
        target: "portal".into(),
        application_audio: apps.iter().map(|s| s.to_string()).collect(),
        home: Some("/home/u".into()),
    }
}

#[test]
fn default_settings_record_the_desktop() {
    assert_eq!(view(&audio_tracks(&settings(), &vec![])), vec![t("desktop", "desktop", "default_output", true)]);
}

#[test]
fn application_tracks_when_present() {
    let mut s = settings();
    s.audio_discord = true;
    s.audio_spotify = true;
    let apps = vec!["discord".to_string(), "spotify".to_string()];
    assert_eq!(
        view(&audio_tracks(&s, &apps)),
        vec![
            t("desktop", "desktop_mix", "default_output", false),
            t("app_discord", "discord", "app:discord", true),
            t("spotify", "spotify", "app:spotify", true),
        ]
    );
    let none = vec!["firefox".to_string()];
    assert_eq!(view(&audio_tracks(&s, &none)), vec![t("desktop", "desktop_mix", "default_output", false)]);
}

#[test]
fn microphone_track() {
    let mut s = settings();
    s.audio_focused_window = false;
    s.audio_microphone = true;
    s.audio_microphone_source = "   ".into();
    assert_eq!(view(&audio_tracks(&s, &vec![])), vec![t("microphone", "microphone", "default_input", true)]);
    s.audio_microphone_source = " alsa_input.usb ".into();
    assert_eq!(view(&audio_tracks(&s, &vec![])), vec![t("microphone", "microphone", "alsa_input.usb", true)]);
}

#[test]
fn fallback_source_track() {
    let mut s = settings();
    s.audio_focused_window = false;
    s.audio_source = "a|b".into();
    assert_eq!(view(&audio_tracks(&s, &vec![])), vec![t("audio", "audio", "a|b", false)]);
    s.audio_source = "  ".into();
    assert!(audio_tracks(&s, &vec![]).is_empty());
}

#[test]
fn application_audio_listing() {
    let names = application_audio_names(b" Spotify \n\nFirefox\r\n   \n");
    assert_eq!(names, vec!["spotify".to_string(), "firefox".to_string()]);
    assert!(has_application_audio(&names, "SPOTIFY"));
    assert!(!has_application_audio(&names, "discord"));
}

#[test]
fn capture_targets() {
    assert!(is_hyprland_session("Hyprland"));
    assert!(!is_hyprland_session("GNOME"));
    assert_eq!(capture_target("Hyprland", Some("DP-1".into())), "DP-1");
    assert_eq!(capture_target("hyprland:wlroots", None), "portal");
    assert_eq!(capture_target("KDE", Some("DP-1".into())), "portal");
}

#[test]
fn active_monitor_from_hyprctl() {
    assert_eq!(active_monitor(true, br#"{"id":1,"monitor":"DP-1"}"#), Some("DP-1".to_string()));
    assert_eq!(active_monitor(false, br#"{"monitor":"DP-1"}"#), None);
    assert_eq!(active_monitor(true, br#"{"monitor":""}"#), None);
    assert_eq!(active_monitor(true, br#"{"monitor":3}"#), None);
    assert_eq!(active_monitor(true, b"not json"), None);
}

#[test]
fn replay_buffer_lifecycle() {
    let mut r = Recorder::new();
    assert_eq!(r.get_state(false, false), RecordingState { replay_buffer_active: false, recording_active: false });
    let s = settings();
    let launch = r.start_replay_buffer(&s, &env(&[])).unwrap();
    let args: Vec<&str> = launch.args.iter().map(|a| a.as_str()).collect();
    assert_eq!(
        args,
        vec![
            "-w", "portal", "-f", "60", "-k", "h264", "-ac", "aac", "-restore-portal-session", "yes", "-a",
            "default_output", "-r", "120", "-c", "mp4", "-o", "/home/u/Videos/Klyppd"
        ]
    );
    r.replay_buffer_started(launch.tracks);
    assert!(r.get_state(false, false).replay_buffer_active);
    assert_eq!(r.replay_tracks().len(), 1);
    assert_eq!(r.start_replay_buffer(&s, &env(&[])).err().unwrap(), "replay buffer already running");
    assert!(r.save_replay(false).is_ok());
    assert!(r.stop_replay_buffer().is_ok());
    assert!(!r.get_state(false, false).replay_buffer_active);
    r.replay_buffer_stopped();
    assert!(r.replay_tracks().is_empty());
    assert_eq!(r.stop_replay_buffer().err().unwrap(), "no replay buffer running");
}

#[test]
fn exited_replay_buffer_cannot_save() {
    let mut r = Recorder::new();
    r.replay_buffer_started(vec![]);
    assert_eq!(r.save_replay(true).err().unwrap(), "replay buffer is not running");
    assert!(!r.get_state(false, false).replay_buffer_active);
    assert_eq!(r.save_replay(false).err().unwrap(), "replay buffer is not running");
}

#[test]
fn recording_lifecycle() {
    let mut r = Recorder::new();
    let mut s = settings();
    s.container = "mkv".into();
    let mut e = env(&[]);
    e.target = "DP-1".into();
    let launch = r.start_recording_at(&s, &e, "20240102_030405").unwrap();
    assert_eq!(launch.output, "/home/u/Videos/Klyppd/20240102_030405.mkv");
    let args: Vec<&str> = launch.args.iter().map(|a| a.as_str()).collect();
    assert_eq!(
        args,
        vec!["-w", "DP-1", "-f", "60", "-k", "h264", "-ac", "aac", "-a", "default_output", "-o",
            "/home/u/Videos/Klyppd/20240102_030405.mkv"]
    );
    r.recording_began(launch.output, launch.tracks);
    assert_eq!(r.recording_output(), Some("/home/u/Videos/Klyppd/20240102_030405.mkv".to_string()));
    assert!(r.get_state(false, false).recording_active);
    assert_eq!(r.start_recording(&s, &e, 1431648000, 0).err().unwrap(), "already recording");
    assert!(r.stop_recording().is_ok());
    assert_eq!(r.recording_ended(), "recording saved");
    assert_eq!(r.recording_output(), None);
    assert_eq!(r.stop_recording().err().unwrap(), "not recording");
    let then = r.start_recording(&s, &e, 1431648000 + 3 * 3600 + 4 * 60 + 5, 0).unwrap();
    assert_eq!(then.output, "/home/u/Videos/Klyppd/20150515_030405.mkv");
    assert_eq!(then.args.last().unwrap(), "/home/u/Videos/Klyppd/20150515_030405.mkv");
    assert_eq!(r.start_recording(&s, &e, i64::MAX, 0).err().unwrap(), "clock out of range");
}

#[test]
fn recording_exit_is_noticed() {
    let mut r = Recorder::new();
    r.recording_began("x.mp4".into(), vec![]);
    r.replay_buffer_started(vec![]);
    let st = r.get_state(false, true);
    assert!(st.replay_buffer_active && !st.recording_active);
}

#[test]
fn empty_audio_source_adds_no_source() {
    let mut s = settings();
    s.audio_focused_window = false;
    s.audio_source = String::new();
    let r = Recorder::new();
    let launch = r.start_replay_buffer(&s, &env(&[])).unwrap();
    assert!(!launch.args.iter().any(|a| a == "-a"));
}

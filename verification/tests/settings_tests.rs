use klyppd::settings::{
    config_dir_in, default_clips_directory, fnv1a64, preview_cache_name, resolve_user_path,
    resolve_user_path_with, safe_stem, settings_path_in, theme_css_path_in, AppSettings, FileStamp,
};

#[test]
fn defaults() {
    let s = AppSettings::with_clips_directory("/clips".to_string());
    assert_eq!(s.clips_directory, "/clips");
    assert_eq!((s.buffer_seconds, s.fps, s.expiry_days), (120, 60, 14));
    assert_eq!((s.codec.as_str(), s.container.as_str(), s.audio_codec.as_str()), ("h264", "mp4", "aac"));
    assert_eq!((s.audio_source.as_str(), s.audio_microphone_source.as_str()), ("default_output", "default_input"));
    assert!(s.audio_focused_window && !s.audio_discord && !s.audio_spotify && !s.audio_microphone);
    assert!(s.clipping_sound_enabled && s.clipping_sound_path.is_empty());
    assert_eq!(s.hotkey_save_replay, "Alt+R");
    assert_eq!(s.hotkey_start_stop_recording, "Alt+Shift+R");
    assert_eq!(s.hotkey_start_stop_buffer, "Alt+F8");
    assert!(s.r2_endpoint.is_empty() && s.r2_bucket.is_empty() && s.r2_access_key.is_empty());
    assert!(s.r2_secret_key.is_empty() && s.r2_custom_domain.is_empty() && s.theme_path.is_empty());
    let d = AppSettings::default();
    assert!(d.clips_directory.ends_with("Klyppd"));
    assert_eq!(d.buffer_seconds, 120);
}

#[test]
fn default_clips_directory_falls_back() {
    assert_eq!(default_clips_directory(Some("/home/u/Vids"), Some("/home/u")), "/home/u/Vids/Klyppd");
    assert_eq!(default_clips_directory(None, Some("/home/u")), "/home/u/Videos/Klyppd");
    assert_eq!(default_clips_directory(None, None), "Klyppd");
}

#[test]
fn tilde_expansion() {
    assert_eq!(resolve_user_path_with("~/clips", Some("/home/u")), "/home/u/clips");
    assert_eq!(resolve_user_path_with("~", Some("/home/u")), "/home/u");
    assert_eq!(resolve_user_path_with("~", None), "~");
    assert_eq!(resolve_user_path_with("~/x", None), "~/x");
    assert_eq!(resolve_user_path_with("/abs/~/x", Some("/home/u")), "/abs/~/x");
    assert_eq!(resolve_user_path_with("~user/x", Some("/home/u")), "~user/x");
    let home = dirs::home_dir().map(|h| h.to_string_lossy().into_owned());
    match home {
        Some(h) => assert_eq!(resolve_user_path("~"), h),
        None => assert_eq!(resolve_user_path("~"), "~"),
    }
}

#[test]
fn config_paths() {
    assert_eq!(config_dir_in(Some("/home/u/.config")), "/home/u/.config/klyppd");
    assert_eq!(settings_path_in(Some("/home/u/.config")), "/home/u/.config/klyppd/settings.json");
    assert_eq!(settings_path_in(None), "klyppd/settings.json");
    assert_eq!(theme_css_path_in(Some("/c")), "/c/klyppd/theme.css");
}

#[test]
fn safe_stems() {
    assert_eq!(safe_stem("/a/My Clip (1).mp4"), "My_Clip__1_");
    assert_eq!(safe_stem("/a/b/clip-2_x.final.mkv"), "clip-2_x_final");
    assert_eq!(safe_stem("/"), "preview");
    assert_eq!(safe_stem("/a/.hidden"), "_hidden");
    assert_eq!(safe_stem("/a/é.mp4"), "_");
}

#[test]
fn fnv1a64_known_values() {
    assert_eq!(fnv1a64(b""), 0xcbf29ce484222325);
    assert_eq!(fnv1a64(b"a"), 0xaf63dc4c8601ec8c);
    assert_eq!(fnv1a64(b"foobar"), 0x85944171f73967e8);
}

#[test]
fn preview_cache_names() {
    assert_eq!(preview_cache_name("foobar", None), "foobar-85944171f73967e8");
    let with_len = preview_cache_name("foobar", Some(FileStamp { len: 7, modified: None }));
    let mut seed = b"foobar".to_vec();
    seed.extend_from_slice(&7u64.to_le_bytes());
    assert_eq!(with_len, format!("foobar-{:016x}", fnv1a64(&seed)));
    let stamped = preview_cache_name("/v/a b.mp4", Some(FileStamp { len: 1, modified: Some((2, 3)) }));
    let mut seed = b"/v/a b.mp4".to_vec();
    seed.extend_from_slice(&1u64.to_le_bytes());
    seed.extend_from_slice(&2u64.to_le_bytes());
    seed.extend_from_slice(&3u32.to_le_bytes());
    assert_eq!(stamped, format!("a_b-{:016x}", fnv1a64(&seed)));
    assert_ne!(stamped, preview_cache_name("/v/a b.mp4", Some(FileStamp { len: 1, modified: Some((2, 4)) })));
}

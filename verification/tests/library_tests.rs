use klyppd::library::{
    clipping_sound_file, has_column, is_clip_file, orphan_keep_keys, pending_name_from,
    pending_target, r2_key_from_url, rename_target, temp_key_stem, thumbnail_data_url, PurgeTally,
};
use klyppd::settings::AppSettings;

#[test]
fn clip_files() {
    assert!(is_clip_file("/v/a.mkv"));
    assert!(is_clip_file("/v/a.mp4"));
    assert!(is_clip_file("/v/a.webm"));
    assert!(!is_clip_file("/v/a.MP4"));
    assert!(!is_clip_file("/v/a"));
    assert!(!is_clip_file("/v/.mp4"));
}

#[test]
fn renaming() {
    assert_eq!(rename_target("/v/old.mkv", "new"), ("new.mkv".to_string(), "/v/new.mkv".to_string()));
    assert_eq!(rename_target("/v/old.mkv", "new.mkv"), ("new.mkv".to_string(), "/v/new.mkv".to_string()));
    assert_eq!(rename_target("/v/noext", "n"), ("n.mp4".to_string(), "/v/n.mp4".to_string()));
    assert_eq!(rename_target("old.mp4", "n.mkv"), ("n.mkv.mp4".to_string(), "n.mkv.mp4".to_string()));
}

#[test]
fn pending_names_and_targets() {
    assert_eq!(pending_name_from("  Sober_2024-01-02\n"), Some("Sober_2024-01-02".to_string()));
    assert_eq!(pending_name_from(" \n"), None);
    assert_eq!(pending_target("/v/x.mp4", "Sober", "mp4", 0), "/v/Sober.mp4");
    assert_eq!(pending_target("/v/x.mp4", "Sober", "mp4", 2), "/v/Sober_2.mp4");
    assert_eq!(pending_target("x.mkv", "S", "mkv", 1), "S_1.mkv");
}

#[test]
fn storage_keys() {
    assert_eq!(r2_key_from_url("https://clips.example.dev/t/abc.mp4"), "t/abc.mp4");
    assert_eq!(r2_key_from_url("https://clips.example.dev/p/x/y.html"), "p/x/y.html");
    assert_eq!(r2_key_from_url("https://cdn.example/clip.mp4"), "clip.mp4");
    assert_eq!(r2_key_from_url("https://a/p/q/t/z"), "t/z");
    assert_eq!(r2_key_from_url("plain"), "plain");
    assert_eq!(r2_key_from_url("ends/"), "");
}

#[test]
fn key_stems() {
    assert_eq!(temp_key_stem("t/abc.mp4"), "t/abc");
    assert_eq!(temp_key_stem("t/abc.html"), "t/abc");
    assert_eq!(temp_key_stem("a.jpg.mp4"), "a");
    assert_eq!(temp_key_stem("a.mp4.jpg"), "a.mp4");
    assert_eq!(temp_key_stem("plain"), "plain");
    let keep = orphan_keep_keys(&vec![Some("t/a.mp4".to_string()), None, Some("t/b".to_string())]);
    assert_eq!(keep, vec!["t/a".to_string(), "t/b".to_string()]);
}

#[test]
fn purge_tally() {
    let mut t = PurgeTally::new();
    t.record(true, true, true);
    t.record(false, false, false);
    t.record(true, true, false);
    t.record(true, false, true);
    assert_eq!((t.deleted, t.failed), (1, 3));
    t.add(2, 1);
    assert_eq!((t.deleted, t.failed), (3, 4));
}

#[test]
fn thumbnails_as_data_urls() {
    assert_eq!(thumbnail_data_url(b""), "data:image/jpeg;base64,");
    assert_eq!(thumbnail_data_url(b"abc"), "data:image/jpeg;base64,YWJj");
    assert_eq!(thumbnail_data_url(b"ab"), "data:image/jpeg;base64,YWI=");
    assert_eq!(thumbnail_data_url(&[0xff, 0xfe, 0xfd, 0x00]), "data:image/jpeg;base64,//79AA==");
}

#[test]
fn clipping_sound_choice() {
    let mut s = AppSettings::with_clips_directory("/c".into());
    assert_eq!(clipping_sound_file(&s, Some("/home/u")), None);
    s.clipping_sound_path = "  ~/sounds/ding.wav ".into();
    assert_eq!(clipping_sound_file(&s, Some("/home/u")), Some("/home/u/sounds/ding.wav".to_string()));
    s.clipping_sound_path = "/abs.wav".into();
    assert_eq!(clipping_sound_file(&s, None), Some("/abs.wav".to_string()));
}

#[test]
fn columns() {
    let names = vec!["id".to_string(), "window_name".to_string()];
    assert!(has_column(&names, "window_name"));
    assert!(!has_column(&names, "favorite"));
}

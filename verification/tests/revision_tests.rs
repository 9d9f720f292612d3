use klyppd::appname::sanitize;
use klyppd::editor::audio_tracks_sidecar_path;
use klyppd::hotkeys::pending_clip_name;
use klyppd::library::{new_clip_paths, scanned_clip};
use klyppd::settings::{default_clips_directory, safe_stem, AppSettings};
use klyppd::watch::RecentClips;

const SEC: u128 = 1_000_000_000;

fn v(items: &[&str]) -> Vec<String> {
    items.iter().map(|s| s.to_string()).collect()
}

#[test]
fn pending_name_carries_a_date() {
    let name = pending_clip_name("Firefox", 1_700_000_000, 123, 7200).unwrap();
    assert_eq!(name, "Firefox_2023-11-15");
}

#[test]
fn scanned_clips_are_local() {
    let r = scanned_clip("id1".into(), "/c/a.mkv".into(), "t".into(), None);
    assert_eq!((r.id.as_str(), r.filename.as_str(), r.path.as_str()), ("id1", "a.mkv", "/c/a.mkv"));
    assert_eq!(r.upload_status, "local");
    assert!(!r.favorite && !r.is_permanent && r.window_name.is_none() && r.r2_key.is_none());
    assert_eq!(scanned_clip("i".into(), "/".into(), "t".into(), Some("th".into())).filename, "");
}

#[test]
fn default_clips_directory_is_klyppd() {
    assert!(AppSettings::default().clips_directory.ends_with("Klyppd"));
    assert_eq!(default_clips_directory(None, None), "Klyppd");
    assert_eq!(default_clips_directory(None, Some("/home/u")), "/home/u/Videos/Klyppd");
}

#[test]
fn new_clips_skip_known_and_other_files() {
    let existing = v(&["/c/a.mp4"]);
    let found = v(&["/c/a.mp4", "/c/b.mkv", "/c/notes.txt", "/c/c.webm", "/c/.thumbs"]);
    assert_eq!(new_clip_paths(&existing, &found), v(&["/c/b.mkv", "/c/c.webm"]));
    assert_eq!(new_clip_paths(&v(&[]), &v(&[])), v(&[]));
}

#[test]
fn repeated_events_within_a_minute_are_skipped() {
    let mut seen = RecentClips::new();
    assert!(seen.observe("/c/a.mp4", 10 * SEC));
    assert!(!seen.observe("/c/a.mp4", 69 * SEC));
    assert!(seen.observe("/c/b.mp4", 69 * SEC));
    assert!(seen.observe("/c/a.mp4", 70 * SEC));
    assert!(!seen.observe("/c/a.mp4", 100 * SEC));
    // b was last handled more than a minute ago.
    assert!(seen.observe("/c/b.mp4", 400 * SEC));
    // a clock that went backwards counts as no time passed
    assert!(!seen.observe("/c/b.mp4", 390 * SEC));
}

#[test]
fn sanitized_names_are_stable() {
    for s in ["sober", "org.vinegarhq.Sober", "!!!", "", "a b c", &"z".repeat(50), "-x_y"] {
        let r = sanitize(s);
        assert_eq!(sanitize(&r), r);
        assert!(!r.is_empty() && r.len() <= 32);
        assert!(r.chars().all(|c| c.is_ascii_alphanumeric() || c == '_' || c == '-'));
        assert!(!r.starts_with(|c: char| c.is_ascii_lowercase()));
    }
    assert_eq!(sanitize("sober"), "Sober");
}

#[test]
fn safe_stems_are_stable() {
    for p in ["/v/my clip (1).mp4", "/v/.hidden", "", "/", "/v/a.b.c", "ü.mkv"] {
        let r = safe_stem(p);
        assert!(!r.is_empty());
        assert_eq!(safe_stem(&r), r);
    }
    assert_eq!(safe_stem("/v/my clip (1).mp4"), "my_clip__1_");
    assert_eq!(safe_stem(""), "preview");
}

#[test]
fn sidecars_are_distinct() {
    let a = audio_tracks_sidecar_path("/v/a.mp4");
    let b = audio_tracks_sidecar_path("/v/b.mp4");
    assert_ne!(a, b);
    assert_ne!(a, "/v/a.mp4");
    assert_eq!(a, "/v/.a.mp4.klyppd-audio.json");
}

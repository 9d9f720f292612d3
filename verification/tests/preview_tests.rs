use klyppd::preview::{
    cache_total, codec_probe_args, eviction_order, is_aac_output, is_cached_preview, is_stale,
    next_eviction, partition_stale, preview_output, preview_track_key, serves_original,
    total_after_removal, CacheEntry, PREVIEW_CACHE_MAX_AGE_NANOS, PREVIEW_CACHE_MAX_BYTES,
};

fn entry(path: &str, size: u64, modified: i128, protected: bool) -> CacheEntry {
    CacheEntry { path: path.to_string(), size, modified, protected }
}

#[test]
fn aac_detection() {
    assert!(is_aac_output(b"aac\n"));
    assert!(!is_aac_output(b"opus\n"));
    assert!(!is_aac_output(b""));
    assert_eq!(
        codec_probe_args("a.mp4"),
        vec!["-v", "quiet", "-select_streams", "a:0", "-show_entries", "stream=codec_name", "-of", "csv=p=0", "a.mp4"]
    );
}

#[test]
fn originals_served_as_they_are() {
    assert!(serves_original(true, "/v/a.mp4", true, 1));
    assert!(serves_original(true, "/v/a.mp4", true, 0));
    assert!(!serves_original(true, "/v/a.mp4", true, 2));
    assert!(!serves_original(true, "/v/a.mkv", true, 1));
    assert!(!serves_original(false, "/v/a.mp4", true, 1));
    assert!(!serves_original(true, "/v/a.mp4", false, 1));
}

#[test]
fn track_keys_and_outputs() {
    assert_eq!(preview_track_key(None), "all");
    assert_eq!(preview_track_key(Some(&[])), "muted");
    assert_eq!(preview_track_key(Some(&[0, 2, 10])), "0-2-10");
    assert_eq!(preview_output("/tmp/klyppd-preview", "clip-abc", Some(&[1])), "/tmp/klyppd-preview/clip-abc-1.mp4");
    assert_eq!(preview_output("/tmp/p", "c", None), "/tmp/p/c-all.mp4");
}

#[test]
fn staleness() {
    assert!(!is_stale(100, 200));
    assert!(!is_stale(PREVIEW_CACHE_MAX_AGE_NANOS, 0));
    assert!(is_stale(PREVIEW_CACHE_MAX_AGE_NANOS + 1, 0));
    assert!(is_stale(i128::MAX, i128::MIN));
    assert!(!is_stale(i128::MIN, i128::MAX));
    assert!(is_stale(0, -PREVIEW_CACHE_MAX_AGE_NANOS - 1));
}

#[test]
fn stale_previews_are_pruned_unless_protected() {
    let now = PREVIEW_CACHE_MAX_AGE_NANOS * 3;
    let es = vec![
        entry("a.mp4", 1, 0, false),
        entry("b.mp4", 2, now, false),
        entry("c.mp4", 3, 0, true),
        entry("d.mp4", 4, now + 5, false),
    ];
    let (gone, kept) = partition_stale(now, &es);
    assert_eq!(gone, vec!["a.mp4".to_string()]);
    let names: Vec<&str> = kept.iter().map(|e| e.path.as_str()).collect();
    assert_eq!(names, vec!["b.mp4", "c.mp4", "d.mp4"]);
    assert_eq!(cache_total(&kept), 9);
}

#[test]
fn eviction_is_oldest_first_and_stable() {
    let es = vec![
        entry("a", 1, 30, false),
        entry("b", 1, 10, false),
        entry("c", 1, 30, false),
        entry("d", 1, -5, false),
        entry("e", 1, 10, false),
    ];
    assert_eq!(eviction_order(&es), vec![3, 1, 4, 0, 2]);
    assert!(eviction_order(&vec![]).is_empty());
}

#[test]
fn eviction_skips_protected_and_stops_when_small() {
    let sorted = vec![entry("a", 5, 0, true), entry("b", 5, 1, false), entry("c", 5, 2, false)];
    let big = PREVIEW_CACHE_MAX_BYTES + 1;
    assert_eq!(next_eviction(big, &sorted, 0), Some(1));
    assert_eq!(next_eviction(big, &sorted, 2), Some(2));
    assert_eq!(next_eviction(big, &sorted, 3), None);
    assert_eq!(next_eviction(PREVIEW_CACHE_MAX_BYTES, &sorted, 0), None);
    assert_eq!(total_after_removal(10, 4, true), 6);
    assert_eq!(total_after_removal(10, 40, true), 0);
    assert_eq!(total_after_removal(10, 4, false), 10);
}

#[test]
fn cached_previews_are_mp4_files() {
    assert!(is_cached_preview("/tmp/klyppd-preview/a-all.mp4"));
    assert!(!is_cached_preview("/tmp/klyppd-preview/a-all.mp4.part"));
    assert!(!is_cached_preview("/tmp/klyppd-preview/mp4"));
}

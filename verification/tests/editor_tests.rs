use klyppd::editor::{
    audio_mix_args, audio_stream_count_from_output, audio_stream_probe_args,
    audio_tracks_sidecar_path, clip_audio_tracks, crop_args, duration_probe_args,
    render_browser_copy_args, thumbnail_args, trim_args, AudioTrackMeta,
};

fn v(items: &[&str]) -> Vec<String> {
    items.iter().map(|s| s.to_string()).collect()
}

fn meta(key: &str, label: &str, isolated: bool) -> AudioTrackMeta {
    AudioTrackMeta { key: key.into(), label: label.into(), source: "src".into(), isolated }
}

#[test]
fn no_audio_streams_means_no_audio() {
    assert_eq!(audio_mix_args(0, None), v(&["-an"]));
    assert_eq!(audio_mix_args(3, Some(&[])), v(&["-an"]));
    assert_eq!(audio_mix_args(2, Some(&[5, 7])), v(&["-an"]));
}

#[test]
fn one_stream_is_mapped_directly() {
    assert_eq!(audio_mix_args(1, None), v(&["-map", "0:a:0", "-c:a", "aac", "-b:a", "160k"]));
    assert_eq!(audio_mix_args(4, Some(&[9, 2])), v(&["-map", "0:a:2", "-c:a", "aac", "-b:a", "160k"]));
}

#[test]
fn several_streams_are_mixed() {
    assert_eq!(
        audio_mix_args(3, None),
        v(&[
            "-filter_complex",
            "[0:a:0][0:a:1][0:a:2]amix=inputs=3:normalize=0[aout]",
            "-map",
            "[aout]",
            "-c:a",
            "aac",
            "-b:a",
            "160k"
        ])
    );
    assert_eq!(
        audio_mix_args(12, Some(&[11, 0])),
        v(&[
            "-filter_complex",
            "[0:a:11][0:a:0]amix=inputs=2:normalize=0[aout]",
            "-map",
            "[aout]",
            "-c:a",
            "aac",
            "-b:a",
            "160k"
        ])
    );
}

#[test]
fn trim_command_line() {
    assert_eq!(
        trim_args("in.mkv", "out.mkv", "1.500", "9.250", 0, None),
        v(&["-y", "-ss", "1.500", "-to", "9.250", "-i", "in.mkv", "-map", "0:v:0", "-c:v", "copy", "-an", "out.mkv"])
    );
}

#[test]
fn browser_copy_command_line() {
    assert_eq!(
        render_browser_copy_args("in.mkv", "out.mp4", 1, None),
        v(&[
            "-y", "-i", "in.mkv", "-map", "0:v:0", "-c:v", "copy", "-map", "0:a:0", "-c:a", "aac", "-b:a",
            "160k", "-movflags", "+faststart", "out.mp4"
        ])
    );
}

#[test]
fn crop_command_line() {
    assert_eq!(
        crop_args("in.mp4", "out.mp4", 10, 20, 640, 480),
        v(&["-y", "-i", "in.mp4", "-vf", "crop=640:480:10:20", "-c:v", "libx264", "-c:a", "copy", "out.mp4"])
    );
}

#[test]
fn thumbnail_and_probe_command_lines() {
    assert_eq!(
        thumbnail_args("in.mp4", "t.jpg"),
        v(&["-y", "-ss", "1", "-i", "in.mp4", "-vframes", "1", "-vf", "scale=320:-1", "t.jpg"])
    );
    assert_eq!(
        audio_stream_probe_args("in.mp4"),
        v(&["-v", "quiet", "-select_streams", "a", "-show_entries", "stream=index", "-of", "csv=p=0", "in.mp4"])
    );
    assert_eq!(
        duration_probe_args("in.mp4"),
        v(&["-v", "quiet", "-show_entries", "format=duration", "-of", "csv=p=0", "in.mp4"])
    );
}

#[test]
fn counts_non_blank_probe_lines() {
    assert_eq!(audio_stream_count_from_output(b"1\n2\n\n  \n"), 2);
    assert_eq!(audio_stream_count_from_output(b""), 0);
    assert_eq!(audio_stream_count_from_output(b"1\r\n"), 1);
}

#[test]
fn sidecar_sits_beside_the_clip() {
    assert_eq!(audio_tracks_sidecar_path("/videos/clip.mp4"), "/videos/.clip.mp4.klyppd-audio.json");
    assert_eq!(audio_tracks_sidecar_path("clip.mp4"), ".clip.mp4.klyppd-audio.json");
    assert_eq!(audio_tracks_sidecar_path("/"), "./.clip.klyppd-audio.json");
}

#[test]
fn generic_tracks_without_a_sidecar() {
    let t = clip_audio_tracks(2, &vec![]);
    assert_eq!(t.len(), 2);
    assert_eq!((t[0].index, t[0].key.as_str(), t[0].label.as_str(), t[0].isolated), (0, "track_0", "track 1", false));
    assert_eq!((t[1].index, t[1].key.as_str(), t[1].label.as_str(), t[1].isolated), (1, "track_1", "track 2", false));
    let one = clip_audio_tracks(1, &vec![]);
    assert_eq!((one[0].key.as_str(), one[0].label.as_str(), one[0].isolated), ("track_0", "audio", true));
}

#[test]
fn described_tracks_are_cut_to_the_streams() {
    let m = vec![meta("desktop", "desktop_mix", false), meta("app_discord", "discord", true)];
    let t = clip_audio_tracks(1, &m);
    assert_eq!(t.len(), 1);
    assert_eq!((t[0].index, t[0].key.as_str(), t[0].label.as_str(), t[0].isolated), (0, "desktop", "desktop_mix", false));
    let all = clip_audio_tracks(5, &m);
    assert_eq!(all.len(), 2);
    assert_eq!((all[1].index, all[1].key.as_str()), (1, "app_discord"));
    assert!(clip_audio_tracks(0, &m).is_empty());
}

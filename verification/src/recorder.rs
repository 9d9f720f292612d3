//! The screen recorder: which audio tracks a capture records, the
//! `gpu-screen-recorder` command lines, and the state of the replay buffer and of a
//! recording. The recorder processes themselves are run by the caller, which reports
//! back what happened to them.
use vstd::prelude::*;

use crate::clock::{instant_in_range, stamp_shaped, utc_stamp_at, utc_stamp_text};
use crate::editor::{
    append_args, duplicate_tracks, meta_view, metas_view, push_arg, push_arg_chars, views,
    AudioTrackMeta,
};
use crate::encoding::{json_string_field, json_string_member};
use crate::paths::{join, joined, opt_as_str, opt_view};
use crate::settings::{resolve_user_path_with, resolved_path, AppSettings};
use crate::text::{
    chars_of, contains, contains_chars, contains_str, decimal, lines, lines_of_str, push_decimal,
    push_str, string_of, trim, trim_chars, trim_str,
};
use crate::unicode::{lossy_utf8, lowercase, to_lowercase, utf8_lossy};

verus! {

/// Whether the replay buffer and a recording are running.
#[derive(Clone, Copy, Debug, PartialEq, Eq, Structural)]
pub struct RecordingState {
    pub replay_buffer_active: bool,
    pub recording_active: bool,
}

/// An audio track description as a value: key, label, source, isolated.
pub type TrackView = (Seq<char>, Seq<char>, Seq<char>, bool);

// ---------------------------------------------------------------------------
// Audio tracks
// ---------------------------------------------------------------------------

/// Does the recorder list application audio for the application `name`?
pub open spec fn has_app(apps: Seq<Seq<char>>, name: Seq<char>) -> bool {
    apps.contains(lowercase(name))
}

/// The track recording the audio of application `app`, if it is present.
pub open spec fn app_track(apps: Seq<Seq<char>>, app: Seq<char>) -> Seq<TrackView> {
    if has_app(apps, app) {
        seq![("app_"@ + app, app, "app:"@ + app, true)]
    } else {
        Seq::empty()
    }
}

/// The tracks the settings ask for, given the applications that currently play audio:
/// the desktop (a mix when application tracks are wanted too), Vesktop and Discord,
/// Spotify, the microphone; when none of these, the configured audio source on its own.
pub open spec fn planned_tracks(s: AppSettings, apps: Seq<Seq<char>>) -> Seq<TrackView> {
    let wants_apps = s.audio_discord || s.audio_spotify;
    let desktop = if s.audio_focused_window {
        seq![
            (
                "desktop"@,
                if wants_apps {
                    "desktop_mix"@
                } else {
                    "desktop"@
                },
                "default_output"@,
                !wants_apps,
            ),
        ]
    } else {
        Seq::empty()
    };
    let discord = if s.audio_discord {
        app_track(apps, "vesktop"@) + app_track(apps, "discord"@)
    } else {
        Seq::empty()
    };
    let spotify = if s.audio_spotify && has_app(apps, "spotify"@) {
        seq![("spotify"@, "spotify"@, "app:spotify"@, true)]
    } else {
        Seq::empty()
    };
    let mic_source = trim(s.audio_microphone_source@);
    let mic = if s.audio_microphone {
        seq![
            (
                "microphone"@,
                "microphone"@,
                if mic_source.len() == 0 {
                    "default_input"@
                } else {
                    mic_source
                },
                true,
            ),
        ]
    } else {
        Seq::empty()
    };
    let chosen = desktop + discord + spotify + mic;
    if chosen.len() == 0 && trim(s.audio_source@).len() > 0 {
        seq![("audio"@, "audio"@, s.audio_source@, !contains(s.audio_source@, "|"@))]
    } else {
        chosen
    }
}

/// The source the microphone track records: the configured microphone source,
/// trimmed, or the default input when that is blank.
pub open spec fn microphone_source(s: AppSettings) -> Seq<char> {
    if trim(s.audio_microphone_source@).len() == 0 {
        "default_input"@
    } else {
        trim(s.audio_microphone_source@)
    }
}

/// How many of `tracks` carry the key `key`.
pub open spec fn count_key(tracks: Seq<TrackView>, key: Seq<char>) -> nat
    decreases tracks.len(),
{
    if tracks.len() == 0 {
        0
    } else {
        count_key(tracks.drop_last(), key) + if tracks.last().0 == key {
            1nat
        } else {
            0nat
        }
    }
}

proof fn lemma_count_key_concat(a: Seq<TrackView>, b: Seq<TrackView>, key: Seq<char>)
    ensures
        count_key(a + b, key) == count_key(a, key) + count_key(b, key),
    decreases b.len(),
{
    if b.len() == 0 {
        assert(a + b =~= a);
    } else {
        lemma_count_key_concat(a, b.drop_last(), key);
        assert((a + b).drop_last() =~= a + b.drop_last());
    }
}

/// With the microphone switched on, a capture records exactly one microphone track,
/// last, from the microphone source (the default input when none is set), whatever the
/// other switches; with it off there is none.
pub proof fn law_microphone_track(s: AppSettings, apps: Seq<Seq<char>>)
    ensures
        s.audio_microphone ==> {
            let t = planned_tracks(s, apps);
            &&& t.len() > 0
            &&& t.last() == ("microphone"@, "microphone"@, microphone_source(s), true)
            &&& count_key(t, "microphone"@) == 1
        },
        !s.audio_microphone ==> count_key(planned_tracks(s, apps), "microphone"@) == 0,
{
    reveal_strlit("microphone");
    reveal_strlit("desktop");
    reveal_strlit("spotify");
    reveal_strlit("audio");
    reveal_strlit("app_");
    reveal_strlit("vesktop");
    reveal_strlit("discord");
    let mic_key = "microphone"@;
    let wants_apps = s.audio_discord || s.audio_spotify;
    let desktop = if s.audio_focused_window {
        seq![
            (
                "desktop"@,
                if wants_apps {
                    "desktop_mix"@
                } else {
                    "desktop"@
                },
                "default_output"@,
                !wants_apps,
            ),
        ]
    } else {
        Seq::empty()
    };
    let v = app_track(apps, "vesktop"@);
    let d = app_track(apps, "discord"@);
    let discord = if s.audio_discord {
        v + d
    } else {
        Seq::empty()
    };
    let spotify = if s.audio_spotify && has_app(apps, "spotify"@) {
        seq![("spotify"@, "spotify"@, "app:spotify"@, true)]
    } else {
        Seq::empty()
    };
    let mic = if s.audio_microphone {
        seq![("microphone"@, "microphone"@, microphone_source(s), true)]
    } else {
        Seq::empty()
    };
    assert(("app_"@ + "vesktop"@).len() != mic_key.len());
    assert(("app_"@ + "discord"@).len() != mic_key.len());
    assert(count_key(desktop, mic_key) == 0) by {
        if s.audio_focused_window {
            assert(desktop.drop_last() =~= Seq::<TrackView>::empty());
            assert(desktop.last().0.len() == 7);
            assert(desktop.last().0 != mic_key);
        }
    }
    assert(count_key(v, mic_key) == 0) by {
        if v.len() > 0 {
            assert(v.drop_last() =~= Seq::<TrackView>::empty());
            assert(v.last().0 == "app_"@ + "vesktop"@);
            assert(v.last().0 != mic_key);
        }
    }
    assert(count_key(d, mic_key) == 0) by {
        if d.len() > 0 {
            assert(d.drop_last() =~= Seq::<TrackView>::empty());
            assert(d.last().0 == "app_"@ + "discord"@);
            assert(d.last().0 != mic_key);
        }
    }
    lemma_count_key_concat(v, d, mic_key);
    assert(count_key(spotify, mic_key) == 0) by {
        if spotify.len() > 0 {
            assert(spotify.drop_last() =~= Seq::<TrackView>::empty());
        }
    }
    assert(count_key(mic, mic_key) == if s.audio_microphone { 1nat } else { 0nat }) by {
        if s.audio_microphone {
            assert(mic.drop_last() =~= Seq::<TrackView>::empty());
        }
    }
    lemma_count_key_concat(desktop, discord, mic_key);
    lemma_count_key_concat(desktop + discord, spotify, mic_key);
    lemma_count_key_concat(desktop + discord + spotify, mic, mic_key);
    let chosen = desktop + discord + spotify + mic;
    assert(planned_tracks(s, apps) == if chosen.len() == 0 && trim(s.audio_source@).len() > 0 {
        seq![("audio"@, "audio"@, s.audio_source@, !contains(s.audio_source@, "|"@))]
    } else {
        chosen
    });
    if !s.audio_microphone && chosen.len() == 0 && trim(s.audio_source@).len() > 0 {
        let f = seq![("audio"@, "audio"@, s.audio_source@, !contains(s.audio_source@, "|"@))];
        assert(f.drop_last() =~= Seq::<TrackView>::empty());
    }
}

/// With the focused-window switch on, the first track records the desktop output,
/// isolated unless application tracks are wanted too (it is then a mix); with every
/// switch off, the configured audio source is recorded alone when set, and nothing is
/// recorded when it is blank.
pub proof fn law_desktop_and_fallback_tracks(s: AppSettings, apps: Seq<Seq<char>>)
    ensures
        s.audio_focused_window ==> planned_tracks(s, apps).len() > 0 && planned_tracks(s, apps)[0]
            == (
            "desktop"@,
            if s.audio_discord || s.audio_spotify {
                "desktop_mix"@
            } else {
                "desktop"@
            },
            "default_output"@,
            !(s.audio_discord || s.audio_spotify),
        ),
        !s.audio_focused_window && !s.audio_discord && !s.audio_spotify && !s.audio_microphone
            ==> planned_tracks(s, apps) == (if trim(s.audio_source@).len() > 0 {
            seq![("audio"@, "audio"@, s.audio_source@, !contains(s.audio_source@, "|"@))]
        } else {
            Seq::<TrackView>::empty()
        }),
{
    if !s.audio_focused_window && !s.audio_discord && !s.audio_spotify && !s.audio_microphone {
        assert(Seq::<TrackView>::empty() + Seq::<TrackView>::empty() + Seq::<TrackView>::empty()
            + Seq::<TrackView>::empty() =~= Seq::<TrackView>::empty());
    }
}

/// Whether application audio for `name` is listed in `apps` (lowercase names).
pub fn has_application_audio(apps: &Vec<String>, name: &str) -> (r: bool)
    ensures
        r == has_app(views(apps@), name@),
{
    let needle = to_lowercase(name);
    let mut i: usize = 0;
    while i < apps.len()
        invariant
            i <= apps.len(),
            needle@ == lowercase(name@),
            forall|k: int| 0 <= k < i ==> apps@[k]@ != needle@,
        decreases apps.len() - i,
    {
        if apps[i] == needle {
            assert(views(apps@)[i as int] == lowercase(name@));
            return true;
        }
        i = i + 1;
    }
    proof {
        if views(apps@).contains(lowercase(name@)) {
            let k = choose|k: int| 0 <= k < views(apps@).len() && views(apps@)[k] == lowercase(name@);
            assert(apps@[k]@ == needle@);
        }
    }
    false
}

fn track(key: &str, label: &str, source: &str, isolated: bool) -> (t: AudioTrackMeta)
    ensures
        meta_view(t) == (key@, label@, source@, isolated),
{
    AudioTrackMeta {
        key: key.to_owned(),
        label: label.to_owned(),
        source: source.to_owned(),
        isolated,
    }
}

fn push_track(ts: &mut Vec<AudioTrackMeta>, t: AudioTrackMeta)
    ensures
        metas_view(final(ts)@) == metas_view(old(ts)@).push(meta_view(t)),
{
    let ghost before = ts@;
    ts.push(t);
    assert(metas_view(ts@) =~= metas_view(before).push(meta_view(t)));
}

fn push_app_track(ts: &mut Vec<AudioTrackMeta>, apps: &Vec<String>, app: &str)
    ensures
        metas_view(final(ts)@) == metas_view(old(ts)@) + app_track(views(apps@), app@),
{
    let ghost before = metas_view(ts@);
    if has_application_audio(apps, app) {
        let mut key: Vec<char> = Vec::new();
        push_str(&mut key, "app_");
        push_str(&mut key, app);
        let mut source: Vec<char> = Vec::new();
        push_str(&mut source, "app:");
        push_str(&mut source, app);
        let k = string_of(&key);
        let s = string_of(&source);
        let t = track(k.as_str(), app, s.as_str(), true);
        push_track(ts, t);
        assert(metas_view(ts@) =~= before + app_track(views(apps@), app@));
    } else {
        assert(metas_view(ts@) =~= before + app_track(views(apps@), app@));
    }
}

/// The audio tracks to record with settings `s` while the applications `apps` play
/// audio.
pub fn audio_tracks(s: &AppSettings, apps: &Vec<String>) -> (r: Vec<AudioTrackMeta>)
    ensures
        metas_view(r@) == planned_tracks(*s, views(apps@)),
{
    let ghost a = views(apps@);
    let mut tracks: Vec<AudioTrackMeta> = Vec::new();
    let wants_apps = s.audio_discord || s.audio_spotify;
    if s.audio_focused_window {
        let label = if wants_apps {
            "desktop_mix"
        } else {
            "desktop"
        };
        push_track(&mut tracks, track("desktop", label, "default_output", !wants_apps));
    }
    let ghost after_desktop = metas_view(tracks@);
    if s.audio_discord {
        push_app_track(&mut tracks, apps, "vesktop");
        push_app_track(&mut tracks, apps, "discord");
    }
    let ghost after_discord = metas_view(tracks@);
    if s.audio_spotify && has_application_audio(apps, "spotify") {
        push_track(&mut tracks, track("spotify", "spotify", "app:spotify", true));
    }
    let ghost after_spotify = metas_view(tracks@);
    if s.audio_microphone {
        let mic = trim_str(s.audio_microphone_source.as_str());
        let source: String = if mic.len() == 0 {
            "default_input".to_owned()
        } else {
            string_of(&mic)
        };
        push_track(&mut tracks, track("microphone", "microphone", source.as_str(), true));
    }
    let ghost chosen = metas_view(tracks@);
    proof {
        let desktop = if s.audio_focused_window {
            seq![
                (
                    "desktop"@,
                    if wants_apps {
                        "desktop_mix"@
                    } else {
                        "desktop"@
                    },
                    "default_output"@,
                    !wants_apps,
                ),
            ]
        } else {
            Seq::empty()
        };
        assert(after_desktop =~= desktop);
        let discord = if s.audio_discord {
            app_track(a, "vesktop"@) + app_track(a, "discord"@)
        } else {
            Seq::empty()
        };
        assert(after_discord =~= desktop + discord);
        let spotify = if s.audio_spotify && has_app(a, "spotify"@) {
            seq![("spotify"@, "spotify"@, "app:spotify"@, true)]
        } else {
            Seq::empty()
        };
        assert(after_spotify =~= desktop + discord + spotify);
    }
    if tracks.len() == 0 {
        let src = trim_str(s.audio_source.as_str());
        if src.len() > 0 {
            let sv = chars_of(s.audio_source.as_str());
            let piped = contains_str(&sv, "|");
            push_track(&mut tracks, track("audio", "audio", s.audio_source.as_str(), !piped));
        }
    }
    tracks
}

/// The lowercase names of the applications in `gpu-screen-recorder
/// --list-application-audio` output lines: each line trimmed and lowercased, blank ones
/// skipped.
pub open spec fn app_names(ls: Seq<Seq<char>>) -> Seq<Seq<char>>
    decreases ls.len(),
{
    if ls.len() == 0 {
        Seq::empty()
    } else {
        let name = lowercase(trim(ls.last()));
        if name.len() > 0 {
            app_names(ls.drop_last()).push(name)
        } else {
            app_names(ls.drop_last())
        }
    }
}

/// The applications that play audio, from the recorder's listing on standard output.
pub fn application_audio_names(stdout: &[u8]) -> (r: Vec<String>)
    ensures
        views(r@) == app_names(lines(lossy_utf8(stdout@))),
{
    let text = utf8_lossy(stdout);
    let ls = lines_of_str(text.as_str());
    let ghost sl = lines(lossy_utf8(stdout@));
    let mut r: Vec<String> = Vec::new();
    let mut i: usize = 0;
    assert(sl.take(0) =~= Seq::<Seq<char>>::empty());
    while i < ls.len()
        invariant
            i <= ls.len(),
            ls@.len() == sl.len(),
            forall|k: int| 0 <= k < ls@.len() ==> #[trigger] ls@[k]@ == sl[k],
            views(r@) == app_names(sl.take(i as int)),
        decreases ls.len() - i,
    {
        assert(sl.take(i + 1).drop_last() =~= sl.take(i as int));
        assert(sl.take(i + 1).last() == ls@[i as int]@);
        let t = trim_chars(&ls[i]);
        let ts = string_of(&t);
        let name = to_lowercase(ts.as_str());
        if !name.as_str().is_empty() {
            let ghost before = r@;
            r.push(name);
            assert(views(r@) =~= views(before).push(name@));
        }
        i = i + 1;
    }
    assert(sl.take(ls.len() as int) =~= sl);
    r
}

// ---------------------------------------------------------------------------
// Capture command lines
// ---------------------------------------------------------------------------

/// `-a source` for each track.
pub open spec fn source_args(tracks: Seq<TrackView>) -> Seq<Seq<char>>
    decreases tracks.len(),
{
    if tracks.len() == 0 {
        Seq::empty()
    } else {
        source_args(tracks.drop_last()) + seq!["-a"@, tracks.last().2]
    }
}

/// The `gpu-screen-recorder` arguments shared by the replay buffer and recordings:
/// capture target, frame rate, codecs, portal session reuse, and one `-a` per track
/// (the configured source alone when there are no tracks and it is set).
pub open spec fn capture_args(s: AppSettings, tracks: Seq<TrackView>, target: Seq<char>) -> Seq<
    Seq<char>,
> {
    seq!["-w"@, target, "-f"@, decimal(s.fps as nat), "-k"@, s.codec@, "-ac"@, s.audio_codec@]
        + (if target == "portal"@ {
        seq!["-restore-portal-session"@, "yes"@]
    } else {
        Seq::empty()
    }) + (if tracks.len() == 0 {
        if s.audio_source@.len() > 0 {
            seq!["-a"@, s.audio_source@]
        } else {
            Seq::empty()
        }
    } else {
        source_args(tracks)
    })
}

/// `-a <source>` for each of `tracks`, in order, written out pair by pair.
pub open spec fn source_pairs(tracks: Seq<TrackView>) -> Seq<Seq<char>> {
    Seq::new(
        2 * tracks.len(),
        |j: int|
            if j % 2 == 0 {
                "-a"@
            } else {
                tracks[j / 2].2
            },
    )
}

proof fn lemma_source_args(tracks: Seq<TrackView>)
    ensures
        source_args(tracks) == source_pairs(tracks),
    decreases tracks.len(),
{
    if tracks.len() > 0 {
        let init = tracks.drop_last();
        lemma_source_args(init);
        let sa = source_args(tracks);
        let sp = source_pairs(tracks);
        let tail = seq!["-a"@, tracks.last().2];
        assert(sa == source_pairs(init) + tail);
        assert(sa.len() == sp.len());
        assert forall|j: int| 0 <= j < sa.len() implies #[trigger] sa[j] == sp[j] by {
            if j < 2 * init.len() {
                assert(sa[j] == source_pairs(init)[j]);
                if j % 2 == 1 {
                    assert(init[j / 2] == tracks[j / 2]);
                }
            } else {
                assert(sa[j] == tail[j - 2 * init.len()]);
            }
        }
        assert(sa =~= sp);
    } else {
        assert(source_args(tracks) =~= source_pairs(tracks));
    }
}

/// A capture records every planned track: its arguments end with one `-a <source>`
/// pair per track, in the order of the tracks.
pub proof fn law_capture_passes_every_track(s: AppSettings, tracks: Seq<TrackView>, target: Seq<char>)
    requires
        tracks.len() > 0,
    ensures
        capture_args(s, tracks, target).len() >= 2 * tracks.len(),
        capture_args(s, tracks, target).skip(
            capture_args(s, tracks, target).len() - 2 * tracks.len(),
        ) == source_pairs(tracks),
{
    lemma_source_args(tracks);
    let a = capture_args(s, tracks, target);
    let pre = a.len() - source_args(tracks).len();
    assert(a.skip(pre) =~= source_args(tracks));
}

/// A capture names its target, frame rate and codecs first; reuses the portal session
/// exactly when it captures through the portal; and, with no tracks, records the
/// configured audio source when one is set and no audio source otherwise.
pub proof fn law_capture_head(s: AppSettings, tracks: Seq<TrackView>, target: Seq<char>)
    ensures
        ({
            let a = capture_args(s, tracks, target);
            let head = seq![
                "-w"@,
                target,
                "-f"@,
                decimal(s.fps as nat),
                "-k"@,
                s.codec@,
                "-ac"@,
                s.audio_codec@,
            ];
            let portal = if target == "portal"@ {
                seq!["-restore-portal-session"@, "yes"@]
            } else {
                Seq::<Seq<char>>::empty()
            };
            &&& a.take(8) == head
            &&& a.subrange(8, 8 + portal.len() as int) == portal
            &&& tracks.len() == 0 ==> a.skip(8 + portal.len() as int) == (if s.audio_source@.len()
                > 0 {
                seq!["-a"@, s.audio_source@]
            } else {
                Seq::<Seq<char>>::empty()
            })
        }),
{
    let a = capture_args(s, tracks, target);
    let head = seq![
        "-w"@,
        target,
        "-f"@,
        decimal(s.fps as nat),
        "-k"@,
        s.codec@,
        "-ac"@,
        s.audio_codec@,
    ];
    let portal = if target == "portal"@ {
        seq!["-restore-portal-session"@, "yes"@]
    } else {
        Seq::<Seq<char>>::empty()
    };
    assert(a.take(8) =~= head);
    assert(a.subrange(8, 8 + portal.len() as int) =~= portal);
    if tracks.len() == 0 {
        assert(a.skip(8 + portal.len() as int) =~= (if s.audio_source@.len() > 0 {
            seq!["-a"@, s.audio_source@]
        } else {
            Seq::<Seq<char>>::empty()
        }));
    }
}

/// The arguments for the replay buffer: the capture, the buffer length, the container,
/// and the directory replays are saved to.
pub open spec fn replay_args(
    s: AppSettings,
    tracks: Seq<TrackView>,
    target: Seq<char>,
    output_dir: Seq<char>,
) -> Seq<Seq<char>> {
    capture_args(s, tracks, target) + seq![
        "-r"@,
        decimal(s.buffer_seconds as nat),
        "-c"@,
        s.container@,
        "-o"@,
        output_dir,
    ]
}

/// The file a recording started at `stamp` is written to.
pub open spec fn recording_file(s: AppSettings, output_dir: Seq<char>, stamp: Seq<char>) -> Seq<
    char,
> {
    joined(output_dir, stamp + "."@ + s.container@)
}

fn capture_args_exec(s: &AppSettings, tracks: &Vec<AudioTrackMeta>, target: &str) -> (r: Vec<
    String,
>)
    ensures
        views(r@) == capture_args(*s, metas_view(tracks@), target@),
{
    let mut args: Vec<String> = Vec::new();
    push_arg(&mut args, "-w");
    push_arg(&mut args, target);
    push_arg(&mut args, "-f");
    let mut fps: Vec<char> = Vec::new();
    push_decimal(&mut fps, s.fps as u64);
    assert(fps@ =~= decimal(s.fps as nat));
    push_arg_chars(&mut args, &fps);
    push_arg(&mut args, "-k");
    push_arg(&mut args, s.codec.as_str());
    push_arg(&mut args, "-ac");
    push_arg(&mut args, s.audio_codec.as_str());
    let ghost base = views(args@);
    let tv = chars_of(target);
    let portal = chars_of("portal");
    if crate::text::chars_equal(&tv, &portal) {
        push_arg(&mut args, "-restore-portal-session");
        push_arg(&mut args, "yes");
    }
    let ghost with_portal = views(args@);
    assert(with_portal =~= base + (if target@ == "portal"@ {
        seq!["-restore-portal-session"@, "yes"@]
    } else {
        Seq::<Seq<char>>::empty()
    }));
    if tracks.len() == 0 {
        if !s.audio_source.as_str().is_empty() {
            push_arg(&mut args, "-a");
            push_arg(&mut args, s.audio_source.as_str());
        }
        assert(views(args@) =~= capture_args(*s, metas_view(tracks@), target@));
    } else {
        let mut i: usize = 0;
        let ghost tv_all = metas_view(tracks@);
        assert(tv_all.take(0) =~= Seq::<TrackView>::empty());
        assert(views(args@) =~= with_portal + source_args(tv_all.take(0)));
        while i < tracks.len()
            invariant
                i <= tracks.len(),
                tv_all == metas_view(tracks@),
                views(args@) == with_portal + source_args(tv_all.take(i as int)),
            decreases tracks.len() - i,
        {
            assert(tv_all.take(i + 1).drop_last() =~= tv_all.take(i as int));
            assert(tv_all.take(i + 1).last() == meta_view(tracks@[i as int]));
            push_arg(&mut args, "-a");
            push_arg(&mut args, tracks[i].source.as_str());
            assert(views(args@) =~= with_portal + source_args(tv_all.take(i + 1)));
            i = i + 1;
        }
        assert(tv_all.take(tracks.len() as int) =~= tv_all);
    }
    args
}

/// What the environment tells the recorder: the capture target, the applications that
/// play audio, and the home directory.
pub struct CaptureEnv {
    pub target: String,
    pub application_audio: Vec<String>,
    pub home: Option<String>,
}

/// A replay buffer ready to be started.
pub struct ReplayLaunch {
    pub args: Vec<String>,
    pub tracks: Vec<AudioTrackMeta>,
}

/// A recording ready to be started.
pub struct RecordingLaunch {
    pub args: Vec<String>,
    pub tracks: Vec<AudioTrackMeta>,
    pub output: String,
}

/// The directory clips are written to under the settings and environment.
pub open spec fn output_dir_of(s: AppSettings, env: CaptureEnv) -> Seq<char> {
    resolved_path(s.clips_directory@, opt_view(env.home))
}

// ---------------------------------------------------------------------------
// Capture target
// ---------------------------------------------------------------------------

/// Is the desktop session (`XDG_CURRENT_DESKTOP`) Hyprland?
pub open spec fn is_hyprland(desktop: Seq<char>) -> bool {
    contains(lowercase(desktop), "hyprland"@)
}

/// Whether the desktop session named `desktop` is Hyprland.
pub fn is_hyprland_session(desktop: &str) -> (r: bool)
    ensures
        r == is_hyprland(desktop@),
{
    let l = to_lowercase(desktop);
    let lv = chars_of(l.as_str());
    contains_str(&lv, "hyprland")
}

/// What to capture: the active Hyprland monitor when the session is Hyprland and one is
/// known, the desktop portal otherwise.
pub fn capture_target(desktop: &str, monitor: Option<String>) -> (r: String)
    ensures
        r@ == (if is_hyprland(desktop@) && monitor is Some {
            monitor.unwrap()@
        } else {
            "portal"@
        }),
{
    if is_hyprland_session(desktop) {
        if let Some(m) = monitor {
            return m;
        }
    }
    "portal".to_owned()
}

/// The monitor named by `hyprctl activeworkspace -j`: the `monitor` member of its
/// output when the command succeeded and the member is a non-empty string.
pub open spec fn monitor_of(succeeded: bool, stdout: Seq<u8>) -> Option<Seq<char>> {
    if !succeeded {
        None
    } else {
        match json_string_member(stdout, "monitor"@) {
            Some(m) => if m.len() > 0 {
                Some(m)
            } else {
                None
            },
            None => None,
        }
    }
}

/// The active monitor, given whether `hyprctl activeworkspace -j` succeeded and its
/// standard output.
pub fn active_monitor(succeeded: bool, stdout: &[u8]) -> (r: Option<String>)
    ensures
        opt_view(r) == monitor_of(succeeded, stdout@),
{
    if !succeeded {
        return None;
    }
    match json_string_field(stdout, "monitor") {
        Some(m) => {
            if !m.as_str().is_empty() {
                Some(m)
            } else {
                None
            }
        },
        None => None,
    }
}

// ---------------------------------------------------------------------------
// The recorder's state
// ---------------------------------------------------------------------------

/// The abstract state of the recorder.
pub struct RecorderView {
    pub replay: bool,
    pub recording: bool,
    pub replay_tracks: Seq<TrackView>,
    pub recording_tracks: Seq<TrackView>,
    pub recording_output: Option<Seq<char>>,
}

/// Nothing running, nothing remembered.
pub open spec fn idle() -> RecorderView {
    RecorderView {
        replay: false,
        recording: false,
        replay_tracks: Seq::empty(),
        recording_tracks: Seq::empty(),
        recording_output: None,
    }
}

/// What the recorder knows after noticing which processes exited by themselves.
pub open spec fn observed(v: RecorderView, replay_exited: bool, recording_exited: bool) -> RecorderView {
    RecorderView { replay: v.replay && !replay_exited, recording: v.recording && !recording_exited, ..v }
}

pub open spec fn replay_started(v: RecorderView, tracks: Seq<TrackView>) -> RecorderView {
    RecorderView { replay: true, replay_tracks: tracks, ..v }
}

/// The replay buffer's process has been taken away to be stopped.
pub open spec fn replay_taken(v: RecorderView) -> RecorderView {
    RecorderView { replay: false, ..v }
}

/// The replay buffer's process was stopped and waited for.
pub open spec fn replay_stopped(v: RecorderView) -> RecorderView {
    RecorderView { replay_tracks: Seq::empty(), ..v }
}

pub open spec fn recording_started(
    v: RecorderView,
    output: Seq<char>,
    tracks: Seq<TrackView>,
) -> RecorderView {
    RecorderView { recording: true, recording_output: Some(output), recording_tracks: tracks, ..v }
}

/// The recording's process has been taken away to be stopped.
pub open spec fn recording_taken(v: RecorderView) -> RecorderView {
    RecorderView { recording: false, ..v }
}

/// The recording's process was stopped and waited for.
pub open spec fn recording_stopped(v: RecorderView) -> RecorderView {
    RecorderView { recording_output: None, recording_tracks: Seq::empty(), ..v }
}

/// The state of the replay buffer and of a recording. The processes are held by the
/// caller; this holds what the recorder decides by.
pub struct Recorder {
    replay: bool,
    recording: bool,
    replay_tracks: Vec<AudioTrackMeta>,
    recording_tracks: Vec<AudioTrackMeta>,
    recording_output: Option<String>,
}

impl View for Recorder {
    type V = RecorderView;

    closed spec fn view(&self) -> RecorderView {
        RecorderView {
            replay: self.replay,
            recording: self.recording,
            replay_tracks: metas_view(self.replay_tracks@),
            recording_tracks: metas_view(self.recording_tracks@),
            recording_output: opt_view(self.recording_output),
        }
    }
}

impl Recorder {
    /// A recorder with nothing running.
    pub fn new() -> (r: Recorder)
        ensures
            r@ == idle(),
    {
        let r = Recorder {
            replay: false,
            recording: false,
            replay_tracks: Vec::new(),
            recording_tracks: Vec::new(),
            recording_output: None,
        };
        assert(r@.replay_tracks =~= Seq::<TrackView>::empty());
        assert(r@.recording_tracks =~= Seq::<TrackView>::empty());
        r
    }

    /// Forgets the processes that exited by themselves and reports what is running.
    pub fn get_state(&mut self, replay_exited: bool, recording_exited: bool) -> (r: RecordingState)
        ensures
            final(self)@ == observed(old(self)@, replay_exited, recording_exited),
            r.replay_buffer_active == final(self)@.replay,
            r.recording_active == final(self)@.recording,
    {
        if replay_exited {
            self.replay = false;
        }
        if recording_exited {
            self.recording = false;
        }
        RecordingState { replay_buffer_active: self.replay, recording_active: self.recording }
    }

    /// The replay buffer to start with settings `s` in environment `env`; refused while
    /// one is running.
    pub fn start_replay_buffer(&self, s: &AppSettings, env: &CaptureEnv) -> (r: Result<
        ReplayLaunch,
        String,
    >)
        ensures
            self@.replay <==> r is Err,
            r matches Err(e) ==> e@ == "replay buffer already running"@,
            r matches Ok(l) ==> {
                &&& metas_view(l.tracks@) == planned_tracks(*s, views(env.application_audio@))
                &&& views(l.args@) == replay_args(
                    *s,
                    planned_tracks(*s, views(env.application_audio@)),
                    env.target@,
                    output_dir_of(*s, *env),
                )
            },
    {
        if self.replay {
            return Err("replay buffer already running".to_owned());
        }
        let tracks = audio_tracks(s, &env.application_audio);
        let mut args = capture_args_exec(s, &tracks, env.target.as_str());
        let output = resolve_user_path_with(s.clips_directory.as_str(), opt_as_str(&env.home));
        push_arg(&mut args, "-r");
        let mut secs: Vec<char> = Vec::new();
        push_decimal(&mut secs, s.buffer_seconds as u64);
        assert(secs@ =~= decimal(s.buffer_seconds as nat));
        push_arg_chars(&mut args, &secs);
        push_arg(&mut args, "-c");
        push_arg(&mut args, s.container.as_str());
        push_arg(&mut args, "-o");
        push_arg(&mut args, output.as_str());
        Ok(ReplayLaunch { args, tracks })
    }

    /// Records that the replay buffer started, recording `tracks`.
    pub fn replay_buffer_started(&mut self, tracks: Vec<AudioTrackMeta>)
        ensures
            final(self)@ == replay_started(old(self)@, metas_view(tracks@)),
    {
        self.replay = true;
        self.replay_tracks = tracks;
    }

    /// Takes the replay buffer away to stop it; refused when none is running.
    pub fn stop_replay_buffer(&mut self) -> (r: Result<(), String>)
        ensures
            old(self)@.replay <==> r is Ok,
            r matches Err(e) ==> e@ == "no replay buffer running"@ && final(self)@ == old(self)@,
            r is Ok ==> final(self)@ == replay_taken(old(self)@),
    {
        if !self.replay {
            return Err("no replay buffer running".to_owned());
        }
        self.replay = false;
        Ok(())
    }

    /// Records that the replay buffer was stopped and waited for.
    pub fn replay_buffer_stopped(&mut self)
        ensures
            final(self)@ == replay_stopped(old(self)@),
    {
        self.replay_tracks = Vec::new();
        assert(self@.replay_tracks =~= Seq::<TrackView>::empty());
    }

    /// Whether a replay may be saved now, after forgetting a buffer that exited.
    pub fn save_replay(&mut self, replay_exited: bool) -> (r: Result<(), String>)
        ensures
            final(self)@ == observed(old(self)@, replay_exited, false),
            final(self)@.replay <==> r is Ok,
            r matches Err(e) ==> e@ == "replay buffer is not running"@,
    {
        if replay_exited {
            self.replay = false;
        }
        if !self.replay {
            return Err("replay buffer is not running".to_owned());
        }
        Ok(())
    }

    /// The recording to start at `stamp` with settings `s` in environment `env`; refused
    /// while one is running.
    pub fn start_recording_at(&self, s: &AppSettings, env: &CaptureEnv, stamp: &str) -> (r: Result<
        RecordingLaunch,
        String,
    >)
        ensures
            self@.recording <==> r is Err,
            r matches Err(e) ==> e@ == "already recording"@,
            r matches Ok(l) ==> {
                let tracks = planned_tracks(*s, views(env.application_audio@));
                let file = recording_file(*s, output_dir_of(*s, *env), stamp@);
                &&& metas_view(l.tracks@) == tracks
                &&& l.output@ == file
                &&& views(l.args@) == capture_args(*s, tracks, env.target@) + seq!["-o"@, file]
            },
    {
        if self.recording {
            return Err("already recording".to_owned());
        }
        let dir = resolve_user_path_with(s.clips_directory.as_str(), opt_as_str(&env.home));
        let mut name: Vec<char> = chars_of(stamp);
        push_str(&mut name, ".");
        push_str(&mut name, s.container.as_str());
        let name_s = string_of(&name);
        let output = join(dir.as_str(), name_s.as_str());
        let tracks = audio_tracks(s, &env.application_audio);
        let mut args = capture_args_exec(s, &tracks, env.target.as_str());
        push_arg(&mut args, "-o");
        push_arg(&mut args, output.as_str());
        Ok(RecordingLaunch { args, tracks, output })
    }

    /// The recording to start at the instant `secs`, `nanos` (since the Unix epoch); its
    /// file is named after that instant in UTC. Refused when a recording is running, or
    /// when the instant cannot be written as a date (never for an instant in range).
    pub fn start_recording(&self, s: &AppSettings, env: &CaptureEnv, secs: i64, nanos: u32) -> (r:
        Result<RecordingLaunch, String>)
        ensures
            self@.recording ==> (r matches Err(e) && e@ == "already recording"@),
            !self@.recording && utc_stamp_text(secs, nanos) is None ==> (r matches Err(e) && e@
                == "clock out of range"@),
            !self@.recording && utc_stamp_text(secs, nanos) is Some ==> r is Ok,
            !self@.recording && instant_in_range(secs, nanos) ==> r is Ok,
            r matches Ok(l) ==> {
                let tracks = planned_tracks(*s, views(env.application_audio@));
                let stamp = utc_stamp_text(secs, nanos).unwrap();
                let file = recording_file(*s, output_dir_of(*s, *env), stamp);
                &&& utc_stamp_text(secs, nanos) is Some
                &&& stamp_shaped(stamp)
                &&& metas_view(l.tracks@) == tracks
                &&& l.output@ == file
                &&& views(l.args@) == capture_args(*s, tracks, env.target@) + seq!["-o"@, file]
            },
    {
        if self.recording {
            return Err("already recording".to_owned());
        }
        match utc_stamp_at(secs, nanos) {
            Some(stamp) => self.start_recording_at(s, env, stamp.as_str()),
            None => Err("clock out of range".to_owned()),
        }
    }

    /// Records that a recording to `output` started, recording `tracks`.
    pub fn recording_began(&mut self, output: String, tracks: Vec<AudioTrackMeta>)
        ensures
            final(self)@ == recording_started(old(self)@, output@, metas_view(tracks@)),
    {
        self.recording = true;
        self.recording_output = Some(output);
        self.recording_tracks = tracks;
    }

    /// Takes the recording away to stop it; refused when none is running.
    pub fn stop_recording(&mut self) -> (r: Result<(), String>)
        ensures
            old(self)@.recording <==> r is Ok,
            r matches Err(e) ==> e@ == "not recording"@ && final(self)@ == old(self)@,
            r is Ok ==> final(self)@ == recording_taken(old(self)@),
    {
        if !self.recording {
            return Err("not recording".to_owned());
        }
        self.recording = false;
        Ok(())
    }

    /// Records that the recording was stopped and waited for; the message to show.
    pub fn recording_ended(&mut self) -> (r: String)
        ensures
            final(self)@ == recording_stopped(old(self)@),
            r@ == "recording saved"@,
    {
        self.recording_output = None;
        self.recording_tracks = Vec::new();
        assert(self@.recording_tracks =~= Seq::<TrackView>::empty());
        "recording saved".to_owned()
    }

    /// The tracks the running replay buffer records.
    pub fn replay_tracks(&self) -> (r: Vec<AudioTrackMeta>)
        ensures
            metas_view(r@) == self@.replay_tracks,
    {
        duplicate_tracks(&self.replay_tracks)
    }

    /// The file the running recording writes to.
    pub fn recording_output(&self) -> (r: Option<String>)
        ensures
            opt_view(r) == self@.recording_output,
    {
        match &self.recording_output {
            Some(o) => Some(o.clone()),
            None => None,
        }
    }
}

// ---------------------------------------------------------------------------
// Laws of the recorder
// ---------------------------------------------------------------------------

/// Stopping a replay buffer that was started returns the recorder to the state it had
/// before the start, with no replay tracks remembered; the recording is untouched.
pub proof fn law_replay_stop_undoes_start(v: RecorderView, tracks: Seq<TrackView>)
    requires
        !v.replay,
    ensures
        replay_stopped(replay_taken(replay_started(v, tracks))) == (RecorderView {
            replay_tracks: Seq::empty(),
            ..v
        }),
{
}

/// Stopping a recording that was started returns the recorder to the state it had
/// before the start, forgetting the output file and tracks; the replay buffer is
/// untouched.
pub proof fn law_recording_stop_undoes_start(
    v: RecorderView,
    output: Seq<char>,
    tracks: Seq<TrackView>,
)
    requires
        !v.recording,
    ensures
        recording_stopped(recording_taken(recording_started(v, output, tracks))) == (RecorderView {
            recording_output: None,
            recording_tracks: Seq::empty(),
            ..v
        }),
{
}

/// The replay buffer and the recording are independent: every replay transition keeps
/// the recording's part of the state, and every recording transition keeps the
/// replay's part.
pub proof fn law_replay_and_recording_independent(
    v: RecorderView,
    output: Seq<char>,
    tracks: Seq<TrackView>,
)
    ensures
        replay_started(v, tracks).recording == v.recording,
        replay_started(v, tracks).recording_output == v.recording_output,
        replay_started(v, tracks).recording_tracks == v.recording_tracks,
        replay_taken(v).recording == v.recording,
        replay_stopped(v).recording_tracks == v.recording_tracks,
        replay_stopped(v).recording_output == v.recording_output,
        recording_started(v, output, tracks).replay == v.replay,
        recording_started(v, output, tracks).replay_tracks == v.replay_tracks,
        recording_taken(v).replay == v.replay,
        recording_stopped(v).replay == v.replay,
        recording_stopped(v).replay_tracks == v.replay_tracks,
{
}

/// Noticing exits twice is the same as noticing them once, and a process that has not
/// exited stays running.
pub proof fn law_observation_idempotent(v: RecorderView, replay_exited: bool, recording_exited: bool)
    ensures
        observed(observed(v, replay_exited, recording_exited), replay_exited, recording_exited)
            == observed(v, replay_exited, recording_exited),
        observed(v, false, false) == v,
        observed(replay_started(v, Seq::empty()), false, recording_exited).replay,
{
}

} // verus!

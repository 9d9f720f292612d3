//! Clip editing: the ffmpeg command lines for trimming, cropping, previews and
//! thumbnails, how enabled audio tracks are mixed, and the audio-track sidecar.
use vstd::prelude::*;

use crate::paths::{file_name, file_name_of, join, joined, parent, parent_of};
use crate::text::{
    chars_of, decimal, lines, lines_of_str, push_decimal, push_str, string_of, trim,
    trim_chars,
};
use crate::unicode::{lossy_utf8, utf8_lossy};

verus! {

/// One recorded audio track as the recorder describes it.
pub struct AudioTrackMeta {
    pub key: String,
    pub label: String,
    pub source: String,
    pub isolated: bool,
}

/// One audio track of a clip, as the editor lists it.
pub struct ClipAudioTrack {
    pub index: usize,
    pub key: String,
    pub label: String,
    pub isolated: bool,
}

impl AudioTrackMeta {
    /// A copy with the same contents.
    pub fn duplicate(&self) -> (r: AudioTrackMeta)
        ensures
            r.key@ == self.key@,
            r.label@ == self.label@,
            r.source@ == self.source@,
            r.isolated == self.isolated,
    {
        AudioTrackMeta {
            key: self.key.clone(),
            label: self.label.clone(),
            source: self.source.clone(),
            isolated: self.isolated,
        }
    }
}

/// The abstract value of a track description.
pub open spec fn meta_view(t: AudioTrackMeta) -> (Seq<char>, Seq<char>, Seq<char>, bool) {
    (t.key@, t.label@, t.source@, t.isolated)
}

pub open spec fn metas_view(ts: Seq<AudioTrackMeta>) -> Seq<(Seq<char>, Seq<char>, Seq<char>, bool)> {
    ts.map_values(|t: AudioTrackMeta| meta_view(t))
}

pub open spec fn clip_track_view(t: ClipAudioTrack) -> (usize, Seq<char>, Seq<char>, bool) {
    (t.index, t.key@, t.label@, t.isolated)
}

/// The contents of a list of strings.
pub open spec fn views(v: Seq<String>) -> Seq<Seq<char>> {
    v.map_values(|s: String| s@)
}

/// Copies a list of track descriptions.
pub fn duplicate_tracks(ts: &Vec<AudioTrackMeta>) -> (r: Vec<AudioTrackMeta>)
    ensures
        metas_view(r@) == metas_view(ts@),
{
    let mut r: Vec<AudioTrackMeta> = Vec::new();
    let mut i: usize = 0;
    while i < ts.len()
        invariant
            i <= ts.len(),
            r@.len() == i,
            forall|k: int| 0 <= k < i ==> meta_view(#[trigger] r@[k]) == meta_view(ts@[k]),
        decreases ts.len() - i,
    {
        r.push(ts[i].duplicate());
        i = i + 1;
    }
    assert(metas_view(r@) =~= metas_view(ts@));
    r
}

/// Appends one argument.
pub fn push_arg(args: &mut Vec<String>, s: &str)
    ensures
        views(final(args)@) == views(old(args)@).push(s@),
{
    args.push(s.to_owned());
    assert(views(args@) =~= views(old(args)@).push(s@));
}

/// Appends one argument held as characters.
pub fn push_arg_chars(args: &mut Vec<String>, v: &[char])
    ensures
        views(final(args)@) == views(old(args)@).push(v@),
{
    args.push(string_of(v));
    assert(views(args@) =~= views(old(args)@).push(v@));
}

/// Appends a list of arguments.
pub fn append_args(args: &mut Vec<String>, more: &Vec<String>)
    ensures
        views(final(args)@) == views(old(args)@) + views(more@),
{
    let ghost a0 = views(args@);
    let mut i: usize = 0;
    while i < more.len()
        invariant
            i <= more.len(),
            views(args@) == a0 + views(more@).take(i as int),
        decreases more.len() - i,
    {
        let ghost prev = args@;
        let a = more[i].clone();
        assert(a@ == more@[i as int]@);
        args.push(a);
        assert(views(args@) =~= views(prev).push(more@[i as int]@));
        assert(views(more@).take(i + 1) =~= views(more@).take(i as int).push(more@[i as int]@));
        assert(views(args@) =~= a0 + views(more@).take(i + 1));
        i = i + 1;
    }
    assert(views(more@).take(more.len() as int) =~= views(more@));
}

// ---------------------------------------------------------------------------
// Audio mixing
// ---------------------------------------------------------------------------

/// The entries of `e` below `n`, in order.
pub open spec fn below(e: Seq<usize>, n: usize) -> Seq<usize>
    decreases e.len(),
{
    if e.len() == 0 {
        e
    } else if e.last() < n {
        below(e.drop_last(), n).push(e.last())
    } else {
        below(e.drop_last(), n)
    }
}

/// The audio streams that end up in the output: the enabled ones that exist, or all
/// `streams` of them when no selection was made.
pub open spec fn selected_tracks(streams: usize, enabled: Option<Seq<usize>>) -> Seq<usize> {
    match enabled {
        Some(e) => below(e, streams),
        None => Seq::new(streams as nat, |i: int| i as usize),
    }
}

/// Only streams the clip has are mixed, in the order they were enabled; with no
/// selection every stream is mixed, in order.
pub proof fn law_selected_streams_exist(streams: usize, enabled: Option<Seq<usize>>)
    ensures
        forall|i: int|
            0 <= i < selected_tracks(streams, enabled).len() ==> #[trigger] selected_tracks(
                streams,
                enabled,
            )[i] < streams,
        enabled is None ==> selected_tracks(streams, enabled).len() == streams,
        enabled matches Some(e) ==> selected_tracks(streams, enabled).len() <= e.len(),
{
    if let Some(e) = enabled {
        lemma_below(e, streams);
    }
}

proof fn lemma_below(e: Seq<usize>, n: usize)
    ensures
        below(e, n).len() <= e.len(),
        forall|i: int| 0 <= i < below(e, n).len() ==> #[trigger] below(e, n)[i] < n,
    decreases e.len(),
{
    if e.len() > 0 {
        lemma_below(e.drop_last(), n);
    }
}

/// `[0:a:i]` for each selected stream, the inputs of the mixing filter.
pub open spec fn mix_inputs(tracks: Seq<usize>) -> Seq<char>
    decreases tracks.len(),
{
    if tracks.len() == 0 {
        Seq::empty()
    } else {
        mix_inputs(tracks.drop_last()) + "[0:a:"@ + decimal(tracks.last() as nat) + "]"@
    }
}

/// The ffmpeg arguments that put the selected streams into the output: none (`-an`),
/// one stream mapped directly, or several mixed with `amix`; audio is encoded as AAC
/// at 160k.
pub open spec fn mix_args(tracks: Seq<usize>) -> Seq<Seq<char>> {
    if tracks.len() == 0 {
        seq!["-an"@]
    } else if tracks.len() == 1 {
        seq!["-map"@, "0:a:"@ + decimal(tracks[0] as nat), "-c:a"@, "aac"@, "-b:a"@, "160k"@]
    } else {
        seq![
            "-filter_complex"@,
            mix_inputs(tracks) + "amix=inputs="@ + decimal(tracks.len()) + ":normalize=0[aout]"@,
            "-map"@,
            "[aout]"@,
            "-c:a"@,
            "aac"@,
            "-b:a"@,
            "160k"@,
        ]
    }
}

pub open spec fn opt_seq(o: Option<&[usize]>) -> Option<Seq<usize>> {
    match o {
        Some(s) => Some(s@),
        None => None,
    }
}

fn selected_tracks_exec(streams: usize, enabled: Option<&[usize]>) -> (r: Vec<usize>)
    ensures
        r@ == selected_tracks(streams, opt_seq(enabled)),
{
    let mut r: Vec<usize> = Vec::new();
    match enabled {
        Some(e) => {
            let mut i: usize = 0;
            assert(e@.take(0) =~= Seq::<usize>::empty());
            while i < e.len()
                invariant
                    i <= e.len(),
                    r@ == below(e@.take(i as int), streams),
                decreases e.len() - i,
            {
                assert(e@.take(i + 1).drop_last() =~= e@.take(i as int));
                assert(e@.take(i + 1).last() == e@[i as int]);
                if e[i] < streams {
                    r.push(e[i]);
                }
                i = i + 1;
            }
            assert(e@.take(e.len() as int) =~= e@);
        },
        None => {
            let mut i: usize = 0;
            while i < streams
                invariant
                    i <= streams,
                    r@ == Seq::new(i as nat, |k: int| k as usize),
                decreases streams - i,
            {
                r.push(i);
                assert(r@ =~= Seq::new((i + 1) as nat, |k: int| k as usize));
                i = i + 1;
            }
        },
    }
    r
}

/// The ffmpeg audio arguments for a clip with `audio_streams` audio streams when the
/// editor enabled `enabled` of them (all of them when `None`).
pub fn audio_mix_args(audio_streams: usize, enabled: Option<&[usize]>) -> (r: Vec<String>)
    ensures
        views(r@) == mix_args(selected_tracks(audio_streams, opt_seq(enabled))),
{
    let tracks = selected_tracks_exec(audio_streams, enabled);
    let mut args: Vec<String> = Vec::new();
    if tracks.len() == 0 {
        push_arg(&mut args, "-an");
    } else if tracks.len() == 1 {
        push_arg(&mut args, "-map");
        let mut m: Vec<char> = Vec::new();
        push_str(&mut m, "0:a:");
        push_decimal(&mut m, tracks[0] as u64);
        push_arg_chars(&mut args, &m);
        push_arg(&mut args, "-c:a");
        push_arg(&mut args, "aac");
        push_arg(&mut args, "-b:a");
        push_arg(&mut args, "160k");
    } else {
        push_arg(&mut args, "-filter_complex");
        let mut f: Vec<char> = Vec::new();
        let mut i: usize = 0;
        assert(tracks@.take(0) =~= Seq::<usize>::empty());
        while i < tracks.len()
            invariant
                i <= tracks.len(),
                f@ == mix_inputs(tracks@.take(i as int)),
            decreases tracks.len() - i,
        {
            assert(tracks@.take(i + 1).drop_last() =~= tracks@.take(i as int));
            assert(tracks@.take(i + 1).last() == tracks@[i as int]);
            push_str(&mut f, "[0:a:");
            push_decimal(&mut f, tracks[i] as u64);
            push_str(&mut f, "]");
            i = i + 1;
        }
        assert(tracks@.take(tracks.len() as int) =~= tracks@);
        push_str(&mut f, "amix=inputs=");
        push_decimal(&mut f, tracks.len() as u64);
        push_str(&mut f, ":normalize=0[aout]");
        push_arg_chars(&mut args, &f);
        push_arg(&mut args, "-map");
        push_arg(&mut args, "[aout]");
        push_arg(&mut args, "-c:a");
        push_arg(&mut args, "aac");
        push_arg(&mut args, "-b:a");
        push_arg(&mut args, "160k");
    }
    assert(views(args@) =~= mix_args(tracks@));
    args
}

/// The ffmpeg arguments that cut `input` from `start` to `end` (both already written
/// with three decimals) into `output`, copying the video stream.
pub fn trim_args(
    input: &str,
    output: &str,
    start: &str,
    end: &str,
    audio_streams: usize,
    enabled: Option<&[usize]>,
) -> (r: Vec<String>)
    ensures
        views(r@) == seq![
            "-y"@,
            "-ss"@,
            start@,
            "-to"@,
            end@,
            "-i"@,
            input@,
            "-map"@,
            "0:v:0"@,
            "-c:v"@,
            "copy"@,
        ] + mix_args(selected_tracks(audio_streams, opt_seq(enabled))) + seq![output@],
{
    let mut args: Vec<String> = Vec::new();
    push_arg(&mut args, "-y");
    push_arg(&mut args, "-ss");
    push_arg(&mut args, start);
    push_arg(&mut args, "-to");
    push_arg(&mut args, end);
    push_arg(&mut args, "-i");
    push_arg(&mut args, input);
    push_arg(&mut args, "-map");
    push_arg(&mut args, "0:v:0");
    push_arg(&mut args, "-c:v");
    push_arg(&mut args, "copy");
    let mix = audio_mix_args(audio_streams, enabled);
    append_args(&mut args, &mix);
    push_arg(&mut args, output);
    assert(views(args@) =~= seq![
        "-y"@,
        "-ss"@,
        start@,
        "-to"@,
        end@,
        "-i"@,
        input@,
        "-map"@,
        "0:v:0"@,
        "-c:v"@,
        "copy"@,
    ] + mix_args(selected_tracks(audio_streams, opt_seq(enabled))) + seq![output@]);
    args
}

/// The ffmpeg arguments that copy `input` to `output` in a form a browser can play
/// progressively.
pub fn render_browser_copy_args(
    input: &str,
    output: &str,
    audio_streams: usize,
    enabled: Option<&[usize]>,
) -> (r: Vec<String>)
    ensures
        views(r@) == seq!["-y"@, "-i"@, input@, "-map"@, "0:v:0"@, "-c:v"@, "copy"@] + mix_args(
            selected_tracks(audio_streams, opt_seq(enabled)),
        ) + seq!["-movflags"@, "+faststart"@, output@],
{
    let mut args: Vec<String> = Vec::new();
    push_arg(&mut args, "-y");
    push_arg(&mut args, "-i");
    push_arg(&mut args, input);
    push_arg(&mut args, "-map");
    push_arg(&mut args, "0:v:0");
    push_arg(&mut args, "-c:v");
    push_arg(&mut args, "copy");
    let mix = audio_mix_args(audio_streams, enabled);
    append_args(&mut args, &mix);
    push_arg(&mut args, "-movflags");
    push_arg(&mut args, "+faststart");
    push_arg(&mut args, output);
    assert(views(args@) =~= seq!["-y"@, "-i"@, input@, "-map"@, "0:v:0"@, "-c:v"@, "copy"@]
        + mix_args(selected_tracks(audio_streams, opt_seq(enabled))) + seq![
        "-movflags"@,
        "+faststart"@,
        output@,
    ]);
    args
}

/// The crop filter `crop=w:h:x:y`.
pub open spec fn crop_filter(x: u32, y: u32, w: u32, h: u32) -> Seq<char> {
    "crop="@ + decimal(w as nat) + ":"@ + decimal(h as nat) + ":"@ + decimal(x as nat) + ":"@
        + decimal(y as nat)
}

/// The ffmpeg arguments that crop `input` to the `w`x`h` rectangle at (`x`, `y`),
/// re-encoding the video with libx264 and copying the audio.
pub fn crop_args(input: &str, output: &str, x: u32, y: u32, w: u32, h: u32) -> (r: Vec<String>)
    ensures
        views(r@) == seq![
            "-y"@,
            "-i"@,
            input@,
            "-vf"@,
            crop_filter(x, y, w, h),
            "-c:v"@,
            "libx264"@,
            "-c:a"@,
            "copy"@,
            output@,
        ],
{
    let mut f: Vec<char> = Vec::new();
    push_str(&mut f, "crop=");
    push_decimal(&mut f, w as u64);
    push_str(&mut f, ":");
    push_decimal(&mut f, h as u64);
    push_str(&mut f, ":");
    push_decimal(&mut f, x as u64);
    push_str(&mut f, ":");
    push_decimal(&mut f, y as u64);
    let mut args: Vec<String> = Vec::new();
    push_arg(&mut args, "-y");
    push_arg(&mut args, "-i");
    push_arg(&mut args, input);
    push_arg(&mut args, "-vf");
    push_arg_chars(&mut args, &f);
    push_arg(&mut args, "-c:v");
    push_arg(&mut args, "libx264");
    push_arg(&mut args, "-c:a");
    push_arg(&mut args, "copy");
    push_arg(&mut args, output);
    assert(views(args@) =~= seq![
        "-y"@,
        "-i"@,
        input@,
        "-vf"@,
        crop_filter(x, y, w, h),
        "-c:v"@,
        "libx264"@,
        "-c:a"@,
        "copy"@,
        output@,
    ]);
    args
}

/// The ffmpeg arguments that grab one frame one second in, scaled to 320 pixels wide.
pub fn thumbnail_args(input: &str, output: &str) -> (r: Vec<String>)
    ensures
        views(r@) == seq![
            "-y"@,
            "-ss"@,
            "1"@,
            "-i"@,
            input@,
            "-vframes"@,
            "1"@,
            "-vf"@,
            "scale=320:-1"@,
            output@,
        ],
{
    let mut args: Vec<String> = Vec::new();
    push_arg(&mut args, "-y");
    push_arg(&mut args, "-ss");
    push_arg(&mut args, "1");
    push_arg(&mut args, "-i");
    push_arg(&mut args, input);
    push_arg(&mut args, "-vframes");
    push_arg(&mut args, "1");
    push_arg(&mut args, "-vf");
    push_arg(&mut args, "scale=320:-1");
    push_arg(&mut args, output);
    assert(views(args@) =~= seq![
        "-y"@,
        "-ss"@,
        "1"@,
        "-i"@,
        input@,
        "-vframes"@,
        "1"@,
        "-vf"@,
        "scale=320:-1"@,
        output@,
    ]);
    args
}

/// The ffprobe arguments that list the audio streams of `input`, one index per line.
pub fn audio_stream_probe_args(input: &str) -> (r: Vec<String>)
    ensures
        views(r@) == seq![
            "-v"@,
            "quiet"@,
            "-select_streams"@,
            "a"@,
            "-show_entries"@,
            "stream=index"@,
            "-of"@,
            "csv=p=0"@,
            input@,
        ],
{
    let mut args: Vec<String> = Vec::new();
    push_arg(&mut args, "-v");
    push_arg(&mut args, "quiet");
    push_arg(&mut args, "-select_streams");
    push_arg(&mut args, "a");
    push_arg(&mut args, "-show_entries");
    push_arg(&mut args, "stream=index");
    push_arg(&mut args, "-of");
    push_arg(&mut args, "csv=p=0");
    push_arg(&mut args, input);
    assert(views(args@) =~= seq![
        "-v"@,
        "quiet"@,
        "-select_streams"@,
        "a"@,
        "-show_entries"@,
        "stream=index"@,
        "-of"@,
        "csv=p=0"@,
        input@,
    ]);
    args
}

/// The ffprobe arguments that print the duration of `input` in seconds.
pub fn duration_probe_args(input: &str) -> (r: Vec<String>)
    ensures
        views(r@) == seq![
            "-v"@,
            "quiet"@,
            "-show_entries"@,
            "format=duration"@,
            "-of"@,
            "csv=p=0"@,
            input@,
        ],
{
    let mut args: Vec<String> = Vec::new();
    push_arg(&mut args, "-v");
    push_arg(&mut args, "quiet");
    push_arg(&mut args, "-show_entries");
    push_arg(&mut args, "format=duration");
    push_arg(&mut args, "-of");
    push_arg(&mut args, "csv=p=0");
    push_arg(&mut args, input);
    assert(views(args@) =~= seq![
        "-v"@,
        "quiet"@,
        "-show_entries"@,
        "format=duration"@,
        "-of"@,
        "csv=p=0"@,
        input@,
    ]);
    args
}

// ---------------------------------------------------------------------------
// Audio streams of a clip
// ---------------------------------------------------------------------------

/// How many lines of `ls` are not blank.
pub open spec fn count_nonblank(ls: Seq<Seq<char>>) -> nat
    decreases ls.len(),
{
    if ls.len() == 0 {
        0
    } else {
        count_nonblank(ls.drop_last()) + if trim(ls.last()).len() > 0 {
            1nat
        } else {
            0nat
        }
    }
}

/// The number of audio streams that `ffprobe -select_streams a -show_entries
/// stream=index -of csv=p=0` listed: its non-blank output lines.
pub fn audio_stream_count_from_output(stdout: &[u8]) -> (n: usize)
    ensures
        n == count_nonblank(lines(lossy_utf8(stdout@))),
{
    let text = utf8_lossy(stdout);
    let ls = lines_of_str(text.as_str());
    let ghost sl = lines(lossy_utf8(stdout@));
    let mut n: usize = 0;
    let mut i: usize = 0;
    while i < ls.len()
        invariant
            i <= ls.len(),
            ls@.len() == sl.len(),
            forall|k: int| 0 <= k < ls@.len() ==> #[trigger] ls@[k]@ == sl[k],
            n == count_nonblank(sl.take(i as int)),
            n <= i,
        decreases ls.len() - i,
    {
        assert(sl.take(i + 1).drop_last() =~= sl.take(i as int));
        assert(sl.take(i + 1).last() == ls@[i as int]@);
        let t = trim_chars(&ls[i]);
        if t.len() > 0 {
            n = n + 1;
        }
        i = i + 1;
    }
    assert(sl.take(ls.len() as int) =~= sl);
    n
}

/// Where the audio-track description of the clip at `path` is kept: a hidden
/// `.{name}.klyppd-audio.json` beside it.
pub open spec fn sidecar_path(path: Seq<char>) -> Seq<char> {
    let name = match file_name_of(path) {
        Some(n) => n,
        None => "clip"@,
    };
    let dir = match parent_of(path) {
        Some(d) => d,
        None => "."@,
    };
    joined(dir, "."@ + name + ".klyppd-audio.json"@)
}

/// The file name of the sidecar of the clip at `path`.
pub open spec fn sidecar_name(path: Seq<char>) -> Seq<char> {
    let name = match file_name_of(path) {
        Some(n) => n,
        None => "clip"@,
    };
    "."@ + name + ".klyppd-audio.json"@
}

/// The path of the audio-track sidecar of the clip at `path`. Its file name is
/// `.{name}.klyppd-audio.json`, so it is never the clip itself, and clips with
/// different file names have different sidecars.
pub fn audio_tracks_sidecar_path(path: &str) -> (r: String)
    ensures
        r@ == sidecar_path(path@),
        file_name_of(r@) == Some(sidecar_name(path@)),
        r@ != path@,
{
    proof {
        reveal_strlit(".");
        reveal_strlit("..");
        reveal_strlit("clip");
        reveal_strlit(".klyppd-audio.json");
    }
    let name = match file_name(path) {
        Some(n) => n,
        None => "clip".to_owned(),
    };
    let dir = match parent(path) {
        Some(d) => d,
        None => ".".to_owned(),
    };
    let mut f: Vec<char> = Vec::new();
    push_str(&mut f, ".");
    push_str(&mut f, name.as_str());
    push_str(&mut f, ".klyppd-audio.json");
    let fname = string_of(&f);
    proof {
        let n = name@;
        assert(!n.contains('/'));
        assert(fname@ == "."@ + n + ".klyppd-audio.json"@);
        assert(fname@ =~= sidecar_name(path@));
        assert forall|i: int| 0 <= i < fname@.len() implies fname@[i] != '/' by {
            if i == 0 {
            } else if i < 1 + n.len() {
                assert(fname@[i] == n[i - 1]);
            } else {
                assert(fname@[i] == ".klyppd-audio.json"@[i - 1 - n.len()]);
            }
        }
        assert(fname@.len() > 2);
    }
    let r = join(dir.as_str(), fname.as_str());
    proof {
        if r@ == path@ {
            assert(file_name_of(path@) == Some(fname@));
            assert(fname@.len() == name@.len() + 19);
        }
    }
    r
}

/// The label of stream `index` out of `count` when nothing describes the tracks.
pub open spec fn default_label(index: usize, count: usize) -> Seq<char> {
    if count == 1 {
        "audio"@
    } else {
        "track "@ + decimal((index + 1) as nat)
    }
}

/// The tracks of a clip with `count` audio streams whose sidecar described `meta`:
/// nothing without audio; generic `track_i` entries when there is no description; else
/// the first `count` descriptions, numbered.
pub open spec fn clip_tracks(count: usize, meta: Seq<(Seq<char>, Seq<char>, Seq<char>, bool)>) -> Seq<
    (usize, Seq<char>, Seq<char>, bool),
> {
    if count == 0 {
        Seq::empty()
    } else if meta.len() == 0 {
        Seq::new(
            count as nat,
            |i: int| (i as usize, "track_"@ + decimal(i as nat), default_label(i as usize, count), count == 1),
        )
    } else {
        Seq::new(
            if count < meta.len() {
                count as nat
            } else {
                meta.len()
            },
            |i: int| (i as usize, meta[i].0, meta[i].1, meta[i].3),
        )
    }
}

/// The editor offers at most one track per audio stream, numbered in order from zero.
pub proof fn law_clip_tracks_numbered(count: usize, meta: Seq<(Seq<char>, Seq<char>, Seq<char>, bool)>)
    ensures
        clip_tracks(count, meta).len() <= count,
        forall|i: int|
            0 <= i < clip_tracks(count, meta).len() ==> (#[trigger] clip_tracks(count, meta)[i]).0
                == i,
        count > 0 && meta.len() == 0 ==> clip_tracks(count, meta).len() == count,
{
}

/// The audio tracks the editor offers for a clip with `count` audio streams and the
/// track descriptions read from its sidecar (empty when there is none).
pub fn clip_audio_tracks(count: usize, meta: &Vec<AudioTrackMeta>) -> (r: Vec<ClipAudioTrack>)
    ensures
        r@.map_values(|t: ClipAudioTrack| clip_track_view(t)) == clip_tracks(count, metas_view(meta@)),
{
    let mut r: Vec<ClipAudioTrack> = Vec::new();
    let ghost want = clip_tracks(count, metas_view(meta@));
    if count == 0 {
        assert(r@.map_values(|t: ClipAudioTrack| clip_track_view(t)) =~= want);
        return r;
    }
    if meta.len() == 0 {
        let mut i: usize = 0;
        while i < count
            invariant
                i <= count,
                meta@.len() == 0,
                want == clip_tracks(count, metas_view(meta@)),
                want.len() == count,
                r@.len() == i,
                forall|k: int| 0 <= k < i ==> clip_track_view(#[trigger] r@[k]) == want[k],
            decreases count - i,
        {
            let mut key: Vec<char> = Vec::new();
            push_str(&mut key, "track_");
            push_decimal(&mut key, i as u64);
            let label: String = if count == 1 {
                "audio".to_owned()
            } else {
                let mut l: Vec<char> = Vec::new();
                push_str(&mut l, "track ");
                push_decimal(&mut l, (i + 1) as u64);
                string_of(&l)
            };
            r.push(ClipAudioTrack { index: i, key: string_of(&key), label, isolated: count == 1 });
            i = i + 1;
        }
        assert(r@.map_values(|t: ClipAudioTrack| clip_track_view(t)) =~= want);
        return r;
    }
    let n = if count < meta.len() {
        count
    } else {
        meta.len()
    };
    let mut i: usize = 0;
    while i < n
        invariant
            i <= n <= meta@.len(),
            n <= count,
            meta@.len() > 0,
            count > 0,
            want == clip_tracks(count, metas_view(meta@)),
            want.len() == n,
            r@.len() == i,
            forall|k: int| 0 <= k < i ==> clip_track_view(#[trigger] r@[k]) == want[k],
        decreases n - i,
    {
        let t = meta[i].duplicate();
        r.push(ClipAudioTrack { index: i, key: t.key, label: t.label, isolated: t.isolated });
        i = i + 1;
    }
    assert(r@.map_values(|t: ClipAudioTrack| clip_track_view(t)) =~= want);
    r
}

} // verus!

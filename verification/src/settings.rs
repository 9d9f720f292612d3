//! The application's settings, their defaults, and the names derived from paths.
use vstd::bytes::{spec_u32_to_le_bytes, spec_u64_to_le_bytes, u32_to_le_bytes, u64_to_le_bytes};
use vstd::prelude::*;
use vstd::utf8::encode_utf8;

use crate::paths::{file_name_of, is_plain_name, opt_as_str, opt_view, config_dir, file_stem, file_stem_of, home_dir, join, joined, video_dir};
use crate::text::{
    chars_of, hex_digits, is_ascii_alphanumeric, is_ascii_alphanumeric_char, push_hex_digits,
    push_str, string_of, strip_prefix, strip_prefix_str,
};

verus! {

/// Everything the user can configure.
pub struct AppSettings {
    pub clips_directory: String,
    pub buffer_seconds: u32,
    pub fps: u32,
    pub codec: String,
    pub container: String,
    pub audio_codec: String,
    pub audio_source: String,
    pub audio_microphone_source: String,
    pub audio_focused_window: bool,
    pub audio_discord: bool,
    pub audio_spotify: bool,
    pub audio_microphone: bool,
    pub clipping_sound_enabled: bool,
    pub clipping_sound_path: String,
    pub hotkey_save_replay: String,
    pub hotkey_start_stop_recording: String,
    pub hotkey_start_stop_buffer: String,
    pub r2_endpoint: String,
    pub r2_bucket: String,
    pub r2_access_key: String,
    pub r2_secret_key: String,
    pub r2_custom_domain: String,
    pub expiry_days: u32,
    pub theme_path: String,
}

/// The default value of every setting but the clips directory.
pub open spec fn has_default_values(s: AppSettings) -> bool {
    &&& s.buffer_seconds == 120
    &&& s.fps == 60
    &&& s.codec@ == "h264"@
    &&& s.container@ == "mp4"@
    &&& s.audio_codec@ == "aac"@
    &&& s.audio_source@ == "default_output"@
    &&& s.audio_microphone_source@ == "default_input"@
    &&& s.audio_focused_window
    &&& !s.audio_discord
    &&& !s.audio_spotify
    &&& !s.audio_microphone
    &&& s.clipping_sound_enabled
    &&& s.clipping_sound_path@ == Seq::<char>::empty()
    &&& s.hotkey_save_replay@ == "Alt+R"@
    &&& s.hotkey_start_stop_recording@ == "Alt+Shift+R"@
    &&& s.hotkey_start_stop_buffer@ == "Alt+F8"@
    &&& s.r2_endpoint@ == Seq::<char>::empty()
    &&& s.r2_bucket@ == Seq::<char>::empty()
    &&& s.r2_access_key@ == Seq::<char>::empty()
    &&& s.r2_secret_key@ == Seq::<char>::empty()
    &&& s.r2_custom_domain@ == Seq::<char>::empty()
    &&& s.expiry_days == 14
    &&& s.theme_path@ == Seq::<char>::empty()
}

/// Where clips go by default: `Klyppd` inside the video directory, else inside
/// `~/Videos`, else relative to the working directory.
pub open spec fn default_clips_dir(video: Option<Seq<char>>, home: Option<Seq<char>>) -> Seq<
    char,
> {
    let base = match video {
        Some(v) => v,
        None => match home {
            Some(h) => joined(h, "Videos"@),
            None => Seq::empty(),
        },
    };
    joined(base, "Klyppd"@)
}

pub open spec fn opt_str_view(o: Option<&str>) -> Option<Seq<char>> {
    match o {
        Some(s) => Some(s@),
        None => None,
    }
}

/// The default clips directory given the user's video and home directories.
pub fn default_clips_directory(video: Option<&str>, home: Option<&str>) -> (r: String)
    ensures
        r@ == default_clips_dir(opt_str_view(video), opt_str_view(home)),
        file_name_of(r@) == Some("Klyppd"@),
{
    proof {
        reveal_strlit("Klyppd");
        reveal_strlit(".");
        reveal_strlit("..");
        assert(!"Klyppd"@.contains('/'));
    }
    let base: String = match video {
        Some(v) => v.to_owned(),
        None => match home {
            Some(h) => join(h, "Videos"),
            None => String::new(),
        },
    };
    join(base.as_str(), "Klyppd")
}

impl AppSettings {
    /// The default settings, with clips kept in `clips_directory`.
    pub fn with_clips_directory(clips_directory: String) -> (s: AppSettings)
        ensures
            has_default_values(s),
            s.clips_directory@ == clips_directory@,
    {
        AppSettings {
            clips_directory,
            buffer_seconds: 120,
            fps: 60,
            codec: "h264".to_owned(),
            container: "mp4".to_owned(),
            audio_codec: "aac".to_owned(),
            audio_source: "default_output".to_owned(),
            audio_microphone_source: "default_input".to_owned(),
            audio_focused_window: true,
            audio_discord: false,
            audio_spotify: false,
            audio_microphone: false,
            clipping_sound_enabled: true,
            clipping_sound_path: String::new(),
            hotkey_save_replay: "Alt+R".to_owned(),
            hotkey_start_stop_recording: "Alt+Shift+R".to_owned(),
            hotkey_start_stop_buffer: "Alt+F8".to_owned(),
            r2_endpoint: String::new(),
            r2_bucket: String::new(),
            r2_access_key: String::new(),
            r2_secret_key: String::new(),
            r2_custom_domain: String::new(),
            expiry_days: 14,
            theme_path: String::new(),
        }
    }

    /// A copy with the same contents.
    pub fn duplicate(&self) -> (r: AppSettings)
        ensures
            r == *self,
    {
        AppSettings {
            clips_directory: self.clips_directory.clone(),
            buffer_seconds: self.buffer_seconds,
            fps: self.fps,
            codec: self.codec.clone(),
            container: self.container.clone(),
            audio_codec: self.audio_codec.clone(),
            audio_source: self.audio_source.clone(),
            audio_microphone_source: self.audio_microphone_source.clone(),
            audio_focused_window: self.audio_focused_window,
            audio_discord: self.audio_discord,
            audio_spotify: self.audio_spotify,
            audio_microphone: self.audio_microphone,
            clipping_sound_enabled: self.clipping_sound_enabled,
            clipping_sound_path: self.clipping_sound_path.clone(),
            hotkey_save_replay: self.hotkey_save_replay.clone(),
            hotkey_start_stop_recording: self.hotkey_start_stop_recording.clone(),
            hotkey_start_stop_buffer: self.hotkey_start_stop_buffer.clone(),
            r2_endpoint: self.r2_endpoint.clone(),
            r2_bucket: self.r2_bucket.clone(),
            r2_access_key: self.r2_access_key.clone(),
            r2_secret_key: self.r2_secret_key.clone(),
            r2_custom_domain: self.r2_custom_domain.clone(),
            expiry_days: self.expiry_days,
            theme_path: self.theme_path.clone(),
        }
    }
}

impl Default for AppSettings {
    /// The default settings; the clips directory is `Klyppd` under the user's video
    /// directory, which the environment decides.
    fn default() -> (s: AppSettings)
        ensures
            has_default_values(s),
            exists|video: Option<Seq<char>>, home: Option<Seq<char>>|
                s.clips_directory@ == default_clips_dir(video, home),
            file_name_of(s.clips_directory@) == Some("Klyppd"@),
    {
        let video = video_dir();
        let home = home_dir();
        let v = opt_as_str(&video);
        let h = opt_as_str(&home);
        let dir = default_clips_directory(v, h);
        assert(dir@ == default_clips_dir(opt_str_view(v), opt_str_view(h)));
        AppSettings::with_clips_directory(dir)
    }
}

// ---------------------------------------------------------------------------
// Paths typed by the user
// ---------------------------------------------------------------------------

/// A path typed by the user, with a leading `~` standing for the home directory when
/// it is known.
pub open spec fn resolved_path(path: Seq<char>, home: Option<Seq<char>>) -> Seq<char> {
    match strip_prefix(path, "~/"@) {
        Some(rest) => match home {
            Some(h) => joined(h, rest),
            None => path,
        },
        None => if path == "~"@ {
            match home {
                Some(h) => h,
                None => path,
            }
        } else {
            path
        },
    }
}

/// Expands a leading `~` of `path` with the home directory `home`.
pub fn resolve_user_path_with(path: &str, home: Option<&str>) -> (r: String)
    ensures
        r@ == resolved_path(path@, opt_str_view(home)),
{
    let pv = chars_of(path);
    match strip_prefix_str(&pv, "~/") {
        Some(rest) => match home {
            Some(h) => {
                let rs = string_of(&rest);
                join(h, rs.as_str())
            },
            None => path.to_owned(),
        },
        None => {
            let tilde = chars_of("~");
            if crate::text::chars_equal(&pv, &tilde) {
                match home {
                    Some(h) => h.to_owned(),
                    None => path.to_owned(),
                }
            } else {
                path.to_owned()
            }
        },
    }
}

/// Expands a leading `~` of `path` with the user's home directory, which the
/// environment decides.
pub fn resolve_user_path(path: &str) -> (r: String)
    ensures
        exists|home: Option<Seq<char>>| r@ == resolved_path(path@, home),
{
    let home = home_dir();
    let h = opt_as_str(&home);
    let r = resolve_user_path_with(path, h);
    assert(r@ == resolved_path(path@, opt_str_view(h)));
    r
}

/// The application's configuration directory: `klyppd` under the user's configuration
/// directory (relative to the working directory when that is unknown).
pub open spec fn app_config_dir(config: Option<Seq<char>>) -> Seq<char> {
    let base = match config {
        Some(c) => c,
        None => Seq::empty(),
    };
    joined(base, "klyppd"@)
}

/// The settings file: `settings.json` in the application's configuration directory.
pub open spec fn settings_file(config: Option<Seq<char>>) -> Seq<char> {
    joined(app_config_dir(config), "settings.json"@)
}

/// The application's configuration directory under the configuration directory
/// `config`.
pub fn config_dir_in(config: Option<&str>) -> (r: String)
    ensures
        r@ == app_config_dir(opt_str_view(config)),
{
    let base: String = match config {
        Some(c) => c.to_owned(),
        None => String::new(),
    };
    join(base.as_str(), "klyppd")
}

/// The settings file under the configuration directory `config`.
pub fn settings_path_in(config: Option<&str>) -> (r: String)
    ensures
        r@ == settings_file(opt_str_view(config)),
{
    let dir = config_dir_in(config);
    join(dir.as_str(), "settings.json")
}

/// The user's stylesheet: `theme.css` in the application's configuration directory
/// under `config`.
pub fn theme_css_path_in(config: Option<&str>) -> (r: String)
    ensures
        r@ == joined(app_config_dir(opt_str_view(config)), "theme.css"@),
{
    let dir = config_dir_in(config);
    join(dir.as_str(), "theme.css")
}

/// The settings file under the user's configuration directory, which the environment
/// decides.
pub fn settings_path() -> (r: String)
    ensures
        exists|config: Option<Seq<char>>| r@ == settings_file(config),
{
    let config = config_dir();
    let c = opt_as_str(&config);
    let r = settings_path_in(c);
    assert(r@ == settings_file(opt_str_view(c)));
    r
}

// ---------------------------------------------------------------------------
// Preview cache names
// ---------------------------------------------------------------------------

/// A character as it may stand in a file name: ASCII letters, digits, `-` and `_` stay,
/// anything else becomes `_`.
pub open spec fn safe_char(c: char) -> char {
    if is_ascii_alphanumeric(c) || c == '-' || c == '_' {
        c
    } else {
        '_'
    }
}

/// The file stem of `path` (`preview` when it has none) made safe for a file name.
pub open spec fn safe_stem_of(path: Seq<char>) -> Seq<char> {
    let stem = match file_stem_of(path) {
        Some(s) => s,
        None => "preview"@,
    };
    stem.map_values(|c: char| safe_char(c))
}

/// A preview's stem only has ASCII letters, digits, `-` and `_`.
pub proof fn law_safe_stem_is_safe(path: Seq<char>)
    ensures
        forall|i: int|
            0 <= i < safe_stem_of(path).len() ==> is_ascii_alphanumeric(
                #[trigger] safe_stem_of(path)[i],
            ) || safe_stem_of(path)[i] == '-' || safe_stem_of(path)[i] == '_',
{
}

/// The file stem of `path`, with every character that is not an ASCII letter, digit,
/// `-` or `_` replaced by `_`.
pub fn safe_stem(path: &str) -> (r: String)
    ensures
        r@ == safe_stem_of(path@),
        r@.len() > 0,
        r@.len() == match file_stem_of(path@) {
            Some(st) => st.len(),
            None => 7,
        },
        safe_stem_of(r@) == r@,
{
    proof {
        reveal_strlit("preview");
    }
    let stem: String = match file_stem(path) {
        Some(s) => s,
        None => "preview".to_owned(),
    };
    let v = chars_of(stem.as_str());
    let mut out: Vec<char> = Vec::new();
    let mut i: usize = 0;
    while i < v.len()
        invariant
            i <= v.len(),
            out@ == v@.take(i as int).map_values(|c: char| safe_char(c)),
        decreases v.len() - i,
    {
        let c = v[i];
        let d = if is_ascii_alphanumeric_char(c) || c == '-' || c == '_' {
            c
        } else {
            '_'
        };
        out.push(d);
        assert(v@.take(i + 1).map_values(|c: char| safe_char(c)) =~= v@.take(i as int).map_values(
            |c: char| safe_char(c),
        ).push(safe_char(c)));
        i = i + 1;
    }
    assert(v@.take(v.len() as int) =~= v@);
    proof {
        law_safe_stem_is_safe(path@);
        let r = safe_stem_of(path@);
        assert(is_plain_name(r));
        assert(safe_stem_of(r) =~= r);
    }
    string_of(&out)
}

pub const FNV_OFFSET: u64 = 0xcbf29ce484222325;

pub const FNV_PRIME: u64 = 0x100000001b3;

/// The 64-bit FNV-1a hash.
pub open spec fn fnv1a64_of(bytes: Seq<u8>) -> u64
    decreases bytes.len(),
{
    if bytes.len() == 0 {
        FNV_OFFSET
    } else {
        (fnv1a64_of(bytes.drop_last()) ^ (bytes.last() as u64)).wrapping_mul(FNV_PRIME)
    }
}

/// The 64-bit FNV-1a hash of `bytes`.
pub fn fnv1a64(bytes: &[u8]) -> (h: u64)
    ensures
        h == fnv1a64_of(bytes@),
{
    let mut hash: u64 = FNV_OFFSET;
    let mut i: usize = 0;
    while i < bytes.len()
        invariant
            i <= bytes.len(),
            hash == fnv1a64_of(bytes@.take(i as int)),
        decreases bytes.len() - i,
    {
        assert(bytes@.take(i + 1).drop_last() =~= bytes@.take(i as int));
        assert(bytes@.take(i + 1).last() == bytes@[i as int]);
        hash = (hash ^ (bytes[i] as u64)).wrapping_mul(FNV_PRIME);
        i = i + 1;
    }
    assert(bytes@.take(bytes.len() as int) =~= bytes@);
    hash
}

/// What identifies a version of a file: its length and, when known, its modification
/// time as whole seconds and nanoseconds since the Unix epoch.
pub struct FileStamp {
    pub len: u64,
    pub modified: Option<(u64, u32)>,
}

/// The bytes hashed to name a preview of `path`.
pub open spec fn preview_seed(path: Seq<char>, stamp: Option<FileStamp>) -> Seq<u8> {
    encode_utf8(path) + match stamp {
        None => Seq::empty(),
        Some(st) => spec_u64_to_le_bytes(st.len) + match st.modified {
            None => Seq::empty(),
            Some((secs, nanos)) => spec_u64_to_le_bytes(secs) + spec_u32_to_le_bytes(nanos),
        },
    }
}

/// The name of a preview of `path`: its safe stem, `-`, and sixteen hexadecimal digits
/// of the hash of the path and its stamp.
pub open spec fn preview_name(path: Seq<char>, stamp: Option<FileStamp>) -> Seq<char> {
    safe_stem_of(path) + "-"@ + hex_digits(fnv1a64_of(preview_seed(path, stamp)) as nat, 16)
}

fn append_bytes(v: &mut Vec<u8>, w: &Vec<u8>)
    ensures
        final(v)@ == old(v)@ + w@,
{
    let ghost v0 = v@;
    let mut i: usize = 0;
    while i < w.len()
        invariant
            i <= w.len(),
            v@ == v0 + w@.take(i as int),
        decreases w.len() - i,
    {
        v.push(w[i]);
        assert(w@.take(i + 1) =~= w@.take(i as int).push(w@[i as int]));
        i = i + 1;
    }
    assert(w@.take(w.len() as int) =~= w@);
}

/// The cache name of a preview of the clip at `path` whose file carries `stamp` (`None`
/// when its metadata could not be read).
pub fn preview_cache_name(path: &str, stamp: Option<FileStamp>) -> (r: String)
    ensures
        r@ == preview_name(path@, stamp),
{
    let mut seed: Vec<u8> = Vec::new();
    let pb = path.as_bytes();
    let mut i: usize = 0;
    while i < pb.len()
        invariant
            i <= pb.len(),
            pb@ == encode_utf8(path@),
            seed@ == pb@.take(i as int),
        decreases pb.len() - i,
    {
        seed.push(pb[i]);
        assert(pb@.take(i + 1) =~= pb@.take(i as int).push(pb@[i as int]));
        i = i + 1;
    }
    assert(pb@.take(pb.len() as int) =~= pb@);
    match &stamp {
        None => {},
        Some(st) => {
            let lb = u64_to_le_bytes(st.len);
            append_bytes(&mut seed, &lb);
            match st.modified {
                None => {},
                Some((secs, nanos)) => {
                    let sb = u64_to_le_bytes(secs);
                    append_bytes(&mut seed, &sb);
                    let nb = u32_to_le_bytes(nanos);
                    append_bytes(&mut seed, &nb);
                },
            }
        },
    }
    assert(seed@ =~= preview_seed(path@, stamp));
    let h = fnv1a64(&seed);
    let stem = safe_stem(path);
    let mut out = chars_of(stem.as_str());
    push_str(&mut out, "-");
    push_hex_digits(&mut out, h, 16);
    string_of(&out)
}

} // verus!

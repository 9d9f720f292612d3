//! Global hotkeys: tracking modifier keys, matching key presses against the configured
//! hotkeys, and deciding what a hotkey does and what the user is told.
use vstd::prelude::*;

use crate::clock::{
    date_shaped, instant_in_range, local_date_at, local_date_text, offset_in_range,
    opt_string_view,
};
use crate::recorder::RecordingState;
use crate::settings::AppSettings;
use crate::text::{
    chars_equal, chars_of, decimal, eq_ignore_ascii_case, eq_ignore_ascii_case_chars, push_decimal,
    push_str, split_char, split_chars, string_of, trim, trim_chars,
};
use crate::unicode::{to_uppercase, uppercase};

verus! {

pub const MOD_ALT: u8 = 1;

pub const MOD_CTRL: u8 = 2;

pub const MOD_SHIFT: u8 = 4;

pub const MOD_SUPER: u8 = 8;

/// The modifier bit of a key, by its evdev name; 0 for a key that is no modifier.
pub open spec fn modifier_bit(key: Seq<char>) -> u8 {
    if key == "KEY_LEFTALT"@ || key == "KEY_RIGHTALT"@ {
        MOD_ALT
    } else if key == "KEY_LEFTCTRL"@ || key == "KEY_RIGHTCTRL"@ {
        MOD_CTRL
    } else if key == "KEY_LEFTSHIFT"@ || key == "KEY_RIGHTSHIFT"@ {
        MOD_SHIFT
    } else if key == "KEY_LEFTMETA"@ || key == "KEY_RIGHTMETA"@ {
        MOD_SUPER
    } else {
        0
    }
}

/// The modifiers held after `key` went down (`down`) or up.
pub open spec fn after_key(mods: u8, key: Seq<char>, down: bool) -> u8 {
    let bit = modifier_bit(key);
    if bit == 0 {
        mods
    } else if down {
        mods | bit
    } else {
        mods & !bit
    }
}

/// Pressing a modifier holds it and releasing it lets it go, leaving the other
/// modifiers as they were; other keys change nothing.
pub proof fn law_modifier_press_release(mods: u8, key: Seq<char>, down: bool)
    ensures
        modifier_bit(key) == 0 ==> after_key(mods, key, down) == mods,
        modifier_bit(key) != 0 ==> after_key(mods, key, true) & modifier_bit(key) != 0,
        modifier_bit(key) != 0 ==> after_key(mods, key, false) & modifier_bit(key) == 0,
        modifier_bit(key) != 0 ==> after_key(after_key(mods, key, true), key, false) == after_key(
            mods,
            key,
            false,
        ),
        forall|other: u8|
            (other == MOD_ALT || other == MOD_CTRL || other == MOD_SHIFT || other == MOD_SUPER)
                && other != modifier_bit(key) ==> #[trigger] (after_key(mods, key, down) & other)
                == mods & other,
{
    let b = modifier_bit(key);
    if b != 0 {
        assert(b == 1 || b == 2 || b == 4 || b == 8);
        assert((mods | b) & b != 0) by (bit_vector)
            requires
                b == 1u8 || b == 2u8 || b == 4u8 || b == 8u8,
        ;
        assert((mods & !b) & b == 0) by (bit_vector);
        assert(((mods | b) & !b) == (mods & !b)) by (bit_vector);
        assert forall|other: u8|
            (other == MOD_ALT || other == MOD_CTRL || other == MOD_SHIFT || other == MOD_SUPER)
                && other != b implies #[trigger] (after_key(mods, key, down) & other) == mods
            & other by {
            assert(((mods | b) & other) == (mods & other) && ((mods & !b) & other) == (mods
                & other)) by (bit_vector)
                requires
                    b == 1u8 || b == 2u8 || b == 4u8 || b == 8u8,
                    other == 1u8 || other == 2u8 || other == 4u8 || other == 8u8,
                    other != b,
            ;
        }
    }
}

fn key_is(key: &[char], name: &str) -> (r: bool)
    ensures
        r == (key@ == name@),
{
    let n = chars_of(name);
    chars_equal(key, &n)
}

/// The modifiers held after `key` (named as evdev names it) went down or up: its bit
/// is set or cleared; any other key leaves them as they were.
pub fn update_modifiers(mods: u8, key: &str, down: bool) -> (r: u8)
    ensures
        r == after_key(mods, key@, down),
{
    let k = chars_of(key);
    let bit: u8 = if key_is(&k, "KEY_LEFTALT") || key_is(&k, "KEY_RIGHTALT") {
        MOD_ALT
    } else if key_is(&k, "KEY_LEFTCTRL") || key_is(&k, "KEY_RIGHTCTRL") {
        MOD_CTRL
    } else if key_is(&k, "KEY_LEFTSHIFT") || key_is(&k, "KEY_RIGHTSHIFT") {
        MOD_SHIFT
    } else if key_is(&k, "KEY_LEFTMETA") || key_is(&k, "KEY_RIGHTMETA") {
        MOD_SUPER
    } else {
        return mods;
    };
    if down {
        mods | bit
    } else {
        mods & !bit
    }
}

/// The `+`-separated parts of a hotkey such as `Alt+Shift+R`, each trimmed.
pub open spec fn hotkey_parts(hotkey: Seq<char>) -> Seq<Seq<char>> {
    split_char(hotkey, '+').map_values(|p: Seq<char>| trim(p))
}

/// Does some part name the modifier `name`, ignoring ASCII case?
pub open spec fn names_modifier(parts: Seq<Seq<char>>, name: Seq<char>) -> bool {
    exists|i: int| 0 <= i < parts.len() && eq_ignore_ascii_case(#[trigger] parts[i], name)
}

/// Does pressing `pressed` while holding `mods` trigger `hotkey`? The last part names
/// the key (`KEY_` and its uppercase form); the modifiers held must be exactly those
/// the other parts name.
pub open spec fn hotkey_fires(hotkey: Seq<char>, pressed: Seq<char>, mods: u8) -> bool {
    let parts = hotkey_parts(hotkey);
    &&& pressed == "KEY_"@ + uppercase(parts.last())
    &&& names_modifier(parts, "alt"@) == (mods & MOD_ALT != 0)
    &&& names_modifier(parts, "ctrl"@) == (mods & MOD_CTRL != 0)
    &&& names_modifier(parts, "shift"@) == (mods & MOD_SHIFT != 0)
    &&& (names_modifier(parts, "super"@) || names_modifier(parts, "meta"@)) == (mods & MOD_SUPER
        != 0)
}

/// A hotkey fires only for its own key, and only while exactly the modifiers it names
/// are held: a hotkey naming Alt never fires without Alt, and one not naming Alt never
/// fires with Alt held (likewise Ctrl, Shift, and Super or Meta).
pub proof fn law_hotkey_needs_exact_modifiers(hotkey: Seq<char>, pressed: Seq<char>, mods: u8)
    ensures
        hotkey_fires(hotkey, pressed, mods) ==> {
            let parts = hotkey_parts(hotkey);
            &&& pressed == "KEY_"@ + uppercase(parts.last())
            &&& (names_modifier(parts, "alt"@) <==> mods & MOD_ALT != 0)
            &&& (names_modifier(parts, "ctrl"@) <==> mods & MOD_CTRL != 0)
            &&& (names_modifier(parts, "shift"@) <==> mods & MOD_SHIFT != 0)
            &&& (names_modifier(parts, "super"@) || names_modifier(parts, "meta"@) <==> mods
                & MOD_SUPER != 0)
        },
{
}

fn names_modifier_exec(parts: &Vec<Vec<char>>, name: &str) -> (r: bool)
    ensures
        r == names_modifier(parts@.map_values(|p: Vec<char>| p@), name@),
{
    let ghost ps = parts@.map_values(|p: Vec<char>| p@);
    let n = chars_of(name);
    let mut i: usize = 0;
    while i < parts.len()
        invariant
            i <= parts.len(),
            ps == parts@.map_values(|p: Vec<char>| p@),
            n@ == name@,
            forall|k: int| 0 <= k < i ==> !eq_ignore_ascii_case(#[trigger] ps[k], name@),
        decreases parts.len() - i,
    {
        if eq_ignore_ascii_case_chars(&parts[i], &n) {
            assert(eq_ignore_ascii_case(ps[i as int], name@));
            return true;
        }
        i = i + 1;
    }
    false
}

/// Whether pressing the key named `pressed` while holding the modifiers `mods` triggers
/// `hotkey`.
pub fn hotkey_matches(hotkey: &str, pressed: &str, mods: u8) -> (r: bool)
    ensures
        r == hotkey_fires(hotkey@, pressed@, mods),
{
    let hv = chars_of(hotkey);
    let raw = split_chars(&hv, '+');
    proof {
        crate::text::lemma_split_char_len(hotkey@, '+');
    }
    let mut parts: Vec<Vec<char>> = Vec::new();
    let ghost want = hotkey_parts(hotkey@);
    let mut i: usize = 0;
    while i < raw.len()
        invariant
            i <= raw.len(),
            raw@.len() == split_char(hotkey@, '+').len(),
            forall|k: int| 0 <= k < raw@.len() ==> #[trigger] raw@[k]@ == split_char(hotkey@, '+')[k],
            want == hotkey_parts(hotkey@),
            parts@.len() == i,
            forall|k: int| 0 <= k < i ==> #[trigger] parts@[k]@ == want[k],
        decreases raw.len() - i,
    {
        parts.push(trim_chars(&raw[i]));
        i = i + 1;
    }
    assert(parts@.map_values(|p: Vec<char>| p@) =~= want);
    let last = string_of(&parts[parts.len() - 1]);
    let main = to_uppercase(last.as_str());
    let mut key_name: Vec<char> = Vec::new();
    push_str(&mut key_name, "KEY_");
    push_str(&mut key_name, main.as_str());
    let pv = chars_of(pressed);
    if !chars_equal(&pv, &key_name) {
        return false;
    }
    let need_alt = names_modifier_exec(&parts, "alt");
    let need_ctrl = names_modifier_exec(&parts, "ctrl");
    let need_shift = names_modifier_exec(&parts, "shift");
    let need_super = names_modifier_exec(&parts, "super") || names_modifier_exec(&parts, "meta");
    (need_alt == (mods & MOD_ALT != 0)) && (need_ctrl == (mods & MOD_CTRL != 0)) && (need_shift
        == (mods & MOD_SHIFT != 0)) && (need_super == (mods & MOD_SUPER != 0))
}

/// What a hotkey asks for.
#[derive(Clone, Copy, Debug, PartialEq, Eq, Structural)]
pub enum HotkeyCommand {
    SaveReplay,
    ToggleRecording,
    ToggleBuffer,
}

/// Saving replays closer together than this is ignored, in nanoseconds.
pub const REPLAY_DEBOUNCE_NANOS: u128 = 1_500_000_000;

/// The command a key press triggers under the settings `s`: saving a replay (unless the
/// last one was saved `since_last_save` nanoseconds ago, 1.5 s or less), toggling the
/// recording, or toggling the buffer; the first matching hotkey decides.
pub fn hotkey_for_key(s: &AppSettings, pressed: &str, mods: u8, since_last_save: u128) -> (r:
    Option<HotkeyCommand>)
    ensures
        r == (if hotkey_fires(s.hotkey_save_replay@, pressed@, mods) {
            if since_last_save > REPLAY_DEBOUNCE_NANOS {
                Some(HotkeyCommand::SaveReplay)
            } else {
                None
            }
        } else if hotkey_fires(s.hotkey_start_stop_recording@, pressed@, mods) {
            Some(HotkeyCommand::ToggleRecording)
        } else if hotkey_fires(s.hotkey_start_stop_buffer@, pressed@, mods) {
            Some(HotkeyCommand::ToggleBuffer)
        } else {
            None
        }),
{
    if hotkey_matches(s.hotkey_save_replay.as_str(), pressed, mods) {
        if since_last_save > REPLAY_DEBOUNCE_NANOS {
            Some(HotkeyCommand::SaveReplay)
        } else {
            None
        }
    } else if hotkey_matches(s.hotkey_start_stop_recording.as_str(), pressed, mods) {
        Some(HotkeyCommand::ToggleRecording)
    } else if hotkey_matches(s.hotkey_start_stop_buffer.as_str(), pressed, mods) {
        Some(HotkeyCommand::ToggleBuffer)
    } else {
        None
    }
}

/// The command sent by name over the control socket: `save-replay`, `toggle-buffer`
/// or `toggle-recording`; anything else is ignored.
pub fn command_from_name(name: &str) -> (r: Option<HotkeyCommand>)
    ensures
        r == (if name@ == "save-replay"@ {
            Some(HotkeyCommand::SaveReplay)
        } else if name@ == "toggle-buffer"@ {
            Some(HotkeyCommand::ToggleBuffer)
        } else if name@ == "toggle-recording"@ {
            Some(HotkeyCommand::ToggleRecording)
        } else {
            None
        }),
{
    let n = chars_of(name);
    if key_is(&n, "save-replay") {
        Some(HotkeyCommand::SaveReplay)
    } else if key_is(&n, "toggle-buffer") {
        Some(HotkeyCommand::ToggleBuffer)
    } else if key_is(&n, "toggle-recording") {
        Some(HotkeyCommand::ToggleRecording)
    } else {
        None
    }
}

/// What to do for a command in the current recording state.
#[derive(Clone, Copy, Debug, PartialEq, Eq, Structural)]
pub enum HotkeyAction {
    SaveReplay,
    StartBuffer,
    StopBuffer,
    StartRecording,
    StopRecording,
}

/// The action a command takes: toggles stop what runs and start what does not.
pub fn hotkey_action(cmd: HotkeyCommand, state: &RecordingState) -> (r: HotkeyAction)
    ensures
        r == (match cmd {
            HotkeyCommand::SaveReplay => HotkeyAction::SaveReplay,
            HotkeyCommand::ToggleBuffer => if state.replay_buffer_active {
                HotkeyAction::StopBuffer
            } else {
                HotkeyAction::StartBuffer
            },
            HotkeyCommand::ToggleRecording => if state.recording_active {
                HotkeyAction::StopRecording
            } else {
                HotkeyAction::StartRecording
            },
        }),
{
    match cmd {
        HotkeyCommand::SaveReplay => HotkeyAction::SaveReplay,
        HotkeyCommand::ToggleBuffer => if state.replay_buffer_active {
            HotkeyAction::StopBuffer
        } else {
            HotkeyAction::StartBuffer
        },
        HotkeyCommand::ToggleRecording => if state.recording_active {
            HotkeyAction::StopRecording
        } else {
            HotkeyAction::StartRecording
        },
    }
}

/// What the user is told after an action.
pub struct Feedback {
    /// Whether the clipping sound plays.
    pub play_sound: bool,
    /// The in-app toast.
    pub toast: String,
    /// `ok` or `err`.
    pub toast_kind: String,
    /// A desktop notification: title and body.
    pub notification: Option<(String, String)>,
}

pub open spec fn replay_saved_body(seconds: u32, window: Seq<char>) -> Seq<char> {
    "Klyppd the last "@ + decimal(seconds as nat) + "s of "@ + window
}

pub open spec fn buffering_body(seconds: u32) -> Seq<char> {
    "Buffering last "@ + decimal(seconds as nat) + "s"@
}

/// The feedback as values: sound, toast, kind, notification.
pub open spec fn feedback_view(f: Feedback) -> (bool, Seq<char>, Seq<char>, Option<(Seq<char>, Seq<char>)>) {
    (
        f.play_sound,
        f.toast@,
        f.toast_kind@,
        match f.notification {
            Some((t, b)) => Some((t@, b@)),
            None => None,
        },
    )
}

/// What the user is told after `action` succeeded (`ok`) or failed, with settings `s`,
/// about the window `window`.
pub open spec fn feedback_for(action: HotkeyAction, ok: bool, s: AppSettings, window: Seq<char>) -> (
    bool,
    Seq<char>,
    Seq<char>,
    Option<(Seq<char>, Seq<char>)>,
) {
    match action {
        HotkeyAction::SaveReplay => if ok {
            let body = replay_saved_body(s.buffer_seconds, window);
            (s.clipping_sound_enabled, body, "ok"@, Some(("Klypp saved"@, body)))
        } else {
            (false, "Buffer not running"@, "err"@, Some(("Klyppd"@, "Buffer not running"@)))
        },
        HotkeyAction::StopBuffer => (
            false,
            "Klyppd stopped"@,
            "ok"@,
            Some(("Klyppd stopped"@, "Buffer is no longer recording"@)),
        ),
        HotkeyAction::StartBuffer => if ok {
            let body = buffering_body(s.buffer_seconds);
            (false, body, "ok"@, Some(("Klyppd started"@, body)))
        } else {
            (false, "Klyppd failed to start"@, "err"@, None)
        },
        HotkeyAction::StopRecording => (
            false,
            "Klypp recording stopped"@,
            "ok"@,
            Some(("Klypp saved"@, "Recording stopped"@)),
        ),
        HotkeyAction::StartRecording => if ok {
            (false, "Klypping\u{2026}"@, "ok"@, Some(("Klypping\u{2026}"@, "Press again to stop"@)))
        } else {
            (false, "Klypp failed"@, "err"@, None)
        },
    }
}

fn feedback(play_sound: bool, toast: &str, kind: &str, note: Option<(&str, &str)>) -> (r: Feedback)
    ensures
        feedback_view(r) == (
            play_sound,
            toast@,
            kind@,
            match note {
                Some((t, b)) => Some((t@, b@)),
                None => None,
            },
        ),
{
    Feedback {
        play_sound,
        toast: toast.to_owned(),
        toast_kind: kind.to_owned(),
        notification: match note {
            Some((t, b)) => Some((t.to_owned(), b.to_owned())),
            None => None,
        },
    }
}

/// The feedback for `action`, which succeeded when `ok`.
pub fn hotkey_feedback(action: HotkeyAction, ok: bool, s: &AppSettings, window: &str) -> (r:
    Feedback)
    ensures
        feedback_view(r) == feedback_for(action, ok, *s, window@),
{
    match action {
        HotkeyAction::SaveReplay => if ok {
            let mut b: Vec<char> = Vec::new();
            push_str(&mut b, "Klyppd the last ");
            push_decimal(&mut b, s.buffer_seconds as u64);
            push_str(&mut b, "s of ");
            push_str(&mut b, window);
            let body = string_of(&b);
            feedback(s.clipping_sound_enabled, body.as_str(), "ok", Some(("Klypp saved", body.as_str())))
        } else {
            feedback(false, "Buffer not running", "err", Some(("Klyppd", "Buffer not running")))
        },
        HotkeyAction::StopBuffer => feedback(
            false,
            "Klyppd stopped",
            "ok",
            Some(("Klyppd stopped", "Buffer is no longer recording")),
        ),
        HotkeyAction::StartBuffer => if ok {
            let mut b: Vec<char> = Vec::new();
            push_str(&mut b, "Buffering last ");
            push_decimal(&mut b, s.buffer_seconds as u64);
            push_str(&mut b, "s");
            let body = string_of(&b);
            feedback(false, body.as_str(), "ok", Some(("Klyppd started", body.as_str())))
        } else {
            feedback(false, "Klyppd failed to start", "err", None)
        },
        HotkeyAction::StopRecording => feedback(
            false,
            "Klypp recording stopped",
            "ok",
            Some(("Klypp saved", "Recording stopped")),
        ),
        HotkeyAction::StartRecording => if ok {
            feedback(false, "Klypping\u{2026}", "ok", Some(("Klypping\u{2026}", "Press again to stop")))
        } else {
            feedback(false, "Klypp failed", "err", None)
        },
    }
}

/// The name a saved replay will be given: the window's name and the date.
pub fn pending_clip_name_on(window: &str, date: &str) -> (r: String)
    ensures
        r@ == window@ + "_"@ + date@,
{
    let mut v = chars_of(window);
    push_str(&mut v, "_");
    push_str(&mut v, date);
    string_of(&v)
}

/// The name a replay saved at the instant `secs`, `nanos` (since the Unix epoch) will be
/// given, in the time zone `offset` seconds east of UTC: the window's name and the local
/// date then; `None` when that date cannot be computed, which never happens for an
/// instant and offset in range.
pub fn pending_clip_name(window: &str, secs: i64, nanos: u32, offset: i32) -> (r: Option<String>)
    ensures
        opt_string_view(r) == match local_date_text(secs, nanos, offset) {
            Some(date) => Some(window@ + "_"@ + date),
            None => None,
        },
        instant_in_range(secs, nanos) && offset_in_range(offset) ==> r is Some,
        r matches Some(n) ==> exists|date: Seq<char>| date_shaped(date) && n@ == window@ + "_"@ + date,
{
    match local_date_at(secs, nanos, offset) {
        Some(date) => {
            let r = pending_clip_name_on(window, date.as_str());
            assert(date_shaped(date@) && r@ == window@ + "_"@ + date@);
            Some(r)
        },
        None => None,
    }
}

} // verus!

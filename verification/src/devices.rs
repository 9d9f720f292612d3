//! The microphone choices offered in the settings, read from the device listing of
//! `gpu-screen-recorder --list-audio-devices`.
use vstd::prelude::*;

use crate::http::{first_word, first_word_chars};
use crate::text::{
    chars_equal, chars_of, contains, contains_str, ends_with, ends_with_str, extend, is_ascii_alphanumeric,
    is_ascii_alphanumeric_char, lines, lines_of_str, push_str, slice_chars, split_once,
    split_once_chars, starts_with, starts_with_str, string_of, strip_prefix, strip_prefix_str,
    strip_suffix, strip_suffix_str, trim, trim_chars,
};
use crate::unicode::{lossy_utf8, lowercase, to_lowercase, utf8_lossy};

verus! {

/// One choice of audio input: the source name and what the user sees.
pub struct AudioDeviceOption {
    pub value: String,
    pub label: String,
}

pub open spec fn device_view(d: AudioDeviceOption) -> (Seq<char>, Seq<char>) {
    (d.value@, d.label@)
}

pub open spec fn devices_view(ds: Seq<AudioDeviceOption>) -> Seq<(Seq<char>, Seq<char>)> {
    ds.map_values(|d: AudioDeviceOption| device_view(d))
}

/// A character that may stand in a plain source name.
pub open spec fn source_char(c: char) -> bool {
    is_ascii_alphanumeric(c) || c == '_' || c == '-' || c == '.' || c == ':'
}

/// Is `value` (shown as `label`) an audio input? Inputs and the default input are;
/// outputs, monitors and empty names are not; a structured `value|label` line names an
/// input otherwise; a plain line does when its name looks like a source name and
/// mentions an input, a microphone or a source.
pub open spec fn is_input(value: Seq<char>, label: Seq<char>, structured: bool) -> bool {
    let label_l = lowercase(label);
    let value_l = lowercase(value);
    if value == "default_input"@ || starts_with(value, "alsa_input."@) {
        true
    } else if value.len() == 0 || value == "default_output"@ || starts_with(value, "alsa_output."@)
        || ends_with(value, ".monitor"@) || starts_with(label_l, "monitor of"@) {
        false
    } else if structured {
        true
    } else {
        (forall|i: int| 0 <= i < value_l.len() ==> source_char(#[trigger] value_l[i])) && (contains(
            value_l,
            "input"@,
        ) || contains(value_l, "mic"@) || contains(value_l, "source"@))
    }
}

fn eq_str(v: &[char], s: &str) -> (r: bool)
    ensures
        r == (v@ == s@),
{
    let sv = chars_of(s);
    chars_equal(v, &sv)
}

/// Whether `value`, shown as `label`, is an audio input.
#[verifier::loop_isolation(false)]
pub fn is_audio_input_value(value: &str, label: &str, structured: bool) -> (r: bool)
    ensures
        r == is_input(value@, label@, structured),
{
    let l = to_lowercase(label);
    let lv = chars_of(l.as_str());
    let v = chars_of(value);
    if eq_str(&v, "default_input") || starts_with_str(&v, "alsa_input.") {
        return true;
    }
    if v.len() == 0 || eq_str(&v, "default_output") || starts_with_str(&v, "alsa_output.")
        || ends_with_str(&v, ".monitor") || starts_with_str(&lv, "monitor of") {
        return false;
    }
    if structured {
        return true;
    }
    let vl = to_lowercase(value);
    let w = chars_of(vl.as_str());
    let mut i: usize = 0;
    while i < w.len()
        invariant
            i <= w.len(),
            forall|k: int| 0 <= k < i ==> source_char(#[trigger] w@[k]),
        decreases w.len() - i,
    {
        let c = w[i];
        if !(is_ascii_alphanumeric_char(c) || c == '_' || c == '-' || c == '.' || c == ':') {
            assert(!source_char(w@[i as int]));
            return false;
        }
        i = i + 1;
    }
    contains_str(&w, "input") || contains_str(&w, "mic") || contains_str(&w, "source")
}

/// Lines of the listing that are headers or help text.
pub open spec fn is_noise(line: Seq<char>) -> bool {
    ||| line.len() == 0
    ||| starts_with(line, "gsr "@)
    ||| starts_with(line, "usage:"@)
    ||| starts_with(line, "Run "@)
    ||| starts_with(line, "Audio "@)
    ||| starts_with(line, "NOTES:"@)
    ||| starts_with(line, "expected one of:"@)
}

/// `label` without one pair of surrounding parentheses, trimmed.
pub open spec fn unparenthesized(label: Seq<char>) -> Seq<char> {
    let inner = match strip_prefix(label, "("@) {
        Some(rest) => match strip_suffix(rest, ")"@) {
            Some(i) => i,
            None => label,
        },
        None => label,
    };
    trim(inner)
}

/// The name and raw label of a listing line: `value|label`, or a first word followed by
/// the label; and whether the line was of the first kind.
pub open spec fn line_parts(line: Seq<char>) -> Option<(Seq<char>, Seq<char>, bool)> {
    match split_once(line, '|') {
        Some((v, l)) => Some((trim(v), trim(l), true)),
        None => match first_word(line) {
            Some(w) => Some((trim(w), trim(line.skip(trim(w).len() as int)), false)),
            None => None,
        },
    }
}

/// The device a line of the listing names, if it names an audio input; its label
/// falls back to its name.
pub open spec fn device_of_line(raw: Seq<char>) -> Option<(Seq<char>, Seq<char>)> {
    let line = trim(raw);
    if is_noise(line) {
        None
    } else {
        match line_parts(line) {
            None => None,
            Some((value, raw_label, structured)) => {
                let label = unparenthesized(raw_label);
                if !is_input(value, label, structured) {
                    None
                } else {
                    Some(
                        (
                            value,
                            if label.len() == 0 {
                                value
                            } else {
                                label
                            },
                        ),
                    )
                }
            },
        }
    }
}

/// The audio input named by one line of the device listing, if any.
pub fn parse_audio_input_line(raw: &str) -> (r: Option<AudioDeviceOption>)
    ensures
        match r {
            Some(d) => device_of_line(raw@) == Some(device_view(d)),
            None => device_of_line(raw@) is None,
        },
{
    let rv = chars_of(raw);
    let line = trim_chars(&rv);
    if line.len() == 0 || starts_with_str(&line, "gsr ") || starts_with_str(&line, "usage:")
        || starts_with_str(&line, "Run ") || starts_with_str(&line, "Audio ") || starts_with_str(
        &line,
        "NOTES:",
    ) || starts_with_str(&line, "expected one of:") {
        return None;
    }
    let (value, raw_label, structured) = match split_once_chars(&line, '|') {
        Some((v, l)) => (trim_chars(&v), trim_chars(&l), true),
        None => match first_word_chars(&line) {
            Some(w) => {
                let value = trim_chars(&w);
                proof {
                    crate::text::lemma_trim_len(w@);
                    crate::text::lemma_trim_start_len(line@);
                }
                let rest = slice_chars(&line, value.len(), line.len());
                assert(rest@ =~= line@.skip(value@.len() as int));
                (value, trim_chars(&rest), false)
            },
            None => return None,
        },
    };
    let inner: Vec<char> = match strip_prefix_str(&raw_label, "(") {
        Some(rest) => match strip_suffix_str(&rest, ")") {
            Some(i) => i,
            None => slice_chars(&raw_label, 0, raw_label.len()),
        },
        None => slice_chars(&raw_label, 0, raw_label.len()),
    };
    assert(raw_label@.subrange(0, raw_label@.len() as int) =~= raw_label@);
    let label = trim_chars(&inner);
    let value_s = string_of(&value);
    let label_s = string_of(&label);
    if !is_audio_input_value(value_s.as_str(), label_s.as_str(), structured) {
        return None;
    }
    let shown = if label.len() == 0 {
        value_s.clone()
    } else {
        label_s
    };
    Some(AudioDeviceOption { value: value_s, label: shown })
}

/// The list after offering a device: it is added unless one with the same value is
/// already listed.
pub open spec fn with_device(ds: Seq<(Seq<char>, Seq<char>)>, d: (Seq<char>, Seq<char>)) -> Seq<
    (Seq<char>, Seq<char>),
> {
    if exists|i: int| 0 <= i < ds.len() && (#[trigger] ds[i]).0 == d.0 {
        ds
    } else {
        ds.push(d)
    }
}

/// No two devices of the list have the same value.
pub open spec fn values_distinct(ds: Seq<(Seq<char>, Seq<char>)>) -> bool {
    forall|i: int, j: int| 0 <= i < j < ds.len() ==> (#[trigger] ds[i]).0 != (#[trigger] ds[j]).0
}

/// Offers the device `value`/`label`: it is added unless a device with the same value is
/// already listed.
pub fn push_audio_device(devices: &mut Vec<AudioDeviceOption>, value: &str, label: &str)
    ensures
        devices_view(final(devices)@) == with_device(devices_view(old(devices)@), (value@, label@)),
        values_distinct(devices_view(old(devices)@)) ==> values_distinct(devices_view(final(devices)@)),
{
    let ghost ds = devices_view(devices@);
    let wanted = value.to_owned();
    let mut i: usize = 0;
    while i < devices.len()
        invariant
            i <= devices.len(),
            ds == devices_view(devices@),
            wanted@ == value@,
            forall|k: int| 0 <= k < i ==> (#[trigger] ds[k]).0 != value@,
        decreases devices.len() - i,
    {
        if devices[i].value == wanted {
            assert(ds[i as int].0 == value@);
            return;
        }
        i = i + 1;
    }
    devices.push(AudioDeviceOption { value: value.to_owned(), label: label.to_owned() });
    assert(devices_view(devices@) =~= ds.push((value@, label@)));
}

/// The devices offered for a listing: the default input first, then each input the
/// lines name, skipping values already offered.
pub open spec fn devices_of_lines(ls: Seq<Seq<char>>) -> Seq<(Seq<char>, Seq<char>)>
    decreases ls.len(),
{
    if ls.len() == 0 {
        seq![("default_input"@, "Default input"@)]
    } else {
        let before = devices_of_lines(ls.drop_last());
        match device_of_line(ls.last()) {
            Some(d) => with_device(before, d),
            None => before,
        }
    }
}

/// The listing as one text: standard output, a newline, standard error.
pub open spec fn listing_text(stdout: Seq<u8>, stderr: Seq<u8>) -> Seq<char> {
    lossy_utf8(stdout) + "\n"@ + lossy_utf8(stderr)
}

/// The audio inputs offered for a device listing, from its standard output and error.
pub fn audio_input_devices(stdout: &[u8], stderr: &[u8]) -> (r: Vec<AudioDeviceOption>)
    ensures
        devices_view(r@) == devices_of_lines(lines(listing_text(stdout@, stderr@))),
        values_distinct(devices_view(r@)),
        r@.len() >= 1,
        r@[0].value@ == "default_input"@,
{
    let out = utf8_lossy(stdout);
    let err = utf8_lossy(stderr);
    let mut text: Vec<char> = chars_of(out.as_str());
    push_str(&mut text, "\n");
    push_str(&mut text, err.as_str());
    let ts = string_of(&text);
    let ls = lines_of_str(ts.as_str());
    let ghost sl = lines(listing_text(stdout@, stderr@));
    let mut devices: Vec<AudioDeviceOption> = Vec::new();
    push_audio_device(&mut devices, "default_input", "Default input");
    assert(devices_view(devices@) =~= seq![("default_input"@, "Default input"@)]);
    assert(devices_view(devices@).len() == devices@.len());
    assert(devices_view(devices@)[0] == device_view(devices@[0]));
    assert(sl.take(0) =~= Seq::<Seq<char>>::empty());
    let mut i: usize = 0;
    while i < ls.len()
        invariant
            i <= ls.len(),
            ls@.len() == sl.len(),
            forall|k: int| 0 <= k < ls@.len() ==> #[trigger] ls@[k]@ == sl[k],
            devices_view(devices@) == devices_of_lines(sl.take(i as int)),
            values_distinct(devices_view(devices@)),
            devices@.len() >= 1,
            devices@[0].value@ == "default_input"@,
        decreases ls.len() - i,
    {
        assert(sl.take(i + 1).drop_last() =~= sl.take(i as int));
        assert(sl.take(i + 1).last() == ls@[i as int]@);
        let line = string_of(&ls[i]);
        match parse_audio_input_line(line.as_str()) {
            Some(d) => {
                let ghost before = devices@;
                push_audio_device(&mut devices, d.value.as_str(), d.label.as_str());
                proof {
                    assert(devices_view(devices@).len() == devices@.len());
                    assert(devices_view(before).len() == before.len());
                    assert(devices_view(devices@)[0] == devices_view(before)[0]);
                    assert(devices_view(devices@)[0] == device_view(devices@[0]));
                    assert(devices_view(before)[0] == device_view(before[0]));
                }
            },
            None => {},
        }
        i = i + 1;
    }
    assert(sl.take(ls.len() as int) =~= sl);
    devices
}

} // verus!

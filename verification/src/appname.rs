//! Naming saved clips after the focused application: reading the window class that
//! Hyprland reports and turning it into a short, readable name.
use vstd::prelude::*;

use crate::paths::{extension, extension_of, file_stem, file_stem_of, opt_view};
use crate::text::{
    ascii_upper, chars_equal, chars_of, is_ascii_alphanumeric, is_ascii_char, is_ascii_lower,
    is_ascii_text, find, find_chars, lemma_contains, lines, lines_of_str, occurs_at,
    push_str, slice_chars, split_char, split_chars, string_of, strip_prefix, strip_prefix_str,
    trim, trim_chars,
};
use crate::unicode::{
    alphanumeric, char_to_uppercase, char_uppercase, is_alphanumeric, lossy_utf8, lowercase,
    to_lowercase, utf8_lossy,
};

verus! {

/// The string value that follows `"key":` in `s`, found by plain text search: the text
/// between the next two double quotes.
pub open spec fn json_string_after(s: Seq<char>, key: Seq<char>) -> Option<Seq<char>> {
    let needle = "\""@ + key + "\":"@;
    match find(s, needle) {
        None => None,
        Some(i) => {
            let rest = s.skip(i + needle.len());
            match find(rest, "\""@) {
                None => None,
                Some(o) => match find(rest.skip(o + 1), "\""@) {
                    None => None,
                    Some(c) => Some(rest.subrange(o + 1, o + 1 + c)),
                },
            }
        },
    }
}

/// The text between the quotes after `"key":` in `s`, if there is such text.
pub fn extract_json_string(s: &str, key: &str) -> (r: Option<String>)
    ensures
        opt_view(r) == json_string_after(s@, key@),
{
    let sv = chars_of(s);
    let mut needle: Vec<char> = Vec::new();
    push_str(&mut needle, "\"");
    push_str(&mut needle, key);
    push_str(&mut needle, "\":");
    let i = match find_chars(&sv, &needle) {
        Some(i) => i,
        None => return None,
    };
    proof {
        lemma_contains(sv@, needle@);
        assert(occurs_at(sv@, needle@, i as int));
    }
    let n = sv.len();
    assert(i + needle.len() <= n);
    let rest = slice_chars(&sv, i + needle.len(), n);
    assert(rest@ =~= sv@.skip(i + needle@.len()));
    let quote = chars_of("\"");
    let o = match find_chars(&rest, &quote) {
        Some(o) => o,
        None => return None,
    };
    proof {
        lemma_contains(rest@, quote@);
        assert(occurs_at(rest@, quote@, o as int));
    }
    let rn = rest.len();
    proof {
        reveal_strlit("\"");
    }
    assert(o + 1 <= rn);
    let tail = slice_chars(&rest, o + 1, rn);
    assert(tail@ =~= rest@.skip(o + 1));
    let c = match find_chars(&tail, &quote) {
        Some(c) => c,
        None => return None,
    };
    proof {
        lemma_contains(tail@, quote@);
        assert(occurs_at(tail@, quote@, c as int));
    }
    let v = slice_chars(&rest, o + 1, o + 1 + c);
    Some(string_of(&v))
}

/// The class of the active window, from the output of `hyprctl activewindow -j`, when
/// it is not empty.
pub fn active_window_class(stdout: &[u8]) -> (r: Option<String>)
    ensures
        opt_view(r) == (match json_string_after(lossy_utf8(stdout@), "class"@) {
            Some(c) => if c.len() > 0 {
                Some(c)
            } else {
                None
            },
            None => None,
        }),
{
    let text = utf8_lossy(stdout);
    match extract_json_string(text.as_str(), "class") {
        Some(c) => if !c.as_str().is_empty() {
            Some(c)
        } else {
            None
        },
        None => None,
    }
}

/// Characters kept in an application name.
pub open spec fn name_char(c: char) -> bool {
    alphanumeric(c) || c == '_' || c == '-'
}

/// The characters of `s` kept in an application name.
pub open spec fn kept(s: Seq<char>) -> Seq<char>
    decreases s.len(),
{
    if s.len() == 0 {
        s
    } else if name_char(s.last()) {
        kept(s.drop_last()).push(s.last())
    } else {
        kept(s.drop_last())
    }
}

/// A name made of the first 32 kept characters of `s`, its first character in upper
/// case; `Clip` when nothing is kept.
pub open spec fn sanitized(s: Seq<char>) -> Seq<char> {
    let k = kept(s);
    let cleaned = if k.len() > 32 {
        k.take(32)
    } else {
        k
    };
    if cleaned.len() == 0 {
        "Clip"@
    } else {
        char_uppercase(cleaned[0]) + cleaned.skip(1)
    }
}

/// `s` reduced to at most 32 letters, digits, `_` and `-`, capitalised; `Clip` when
/// nothing is left.
pub fn sanitize(s: &str) -> (r: String)
    ensures
        r@ == sanitized(s@),
{
    let v = chars_of(s);
    let mut k: Vec<char> = Vec::new();
    let mut i: usize = 0;
    assert(v@.take(0) =~= Seq::<char>::empty());
    while i < v.len()
        invariant
            i <= v.len(),
            k@ == kept(v@.take(i as int)),
        decreases v.len() - i,
    {
        assert(v@.take(i + 1).drop_last() =~= v@.take(i as int));
        assert(v@.take(i + 1).last() == v@[i as int]);
        let c = v[i];
        if is_alphanumeric(c) || c == '_' || c == '-' {
            k.push(c);
        }
        i = i + 1;
    }
    assert(v@.take(v.len() as int) =~= v@);
    let cleaned = if k.len() > 32 {
        slice_chars(&k, 0, 32)
    } else {
        k
    };
    if cleaned.len() == 0 {
        return "Clip".to_owned();
    }
    let mut out = char_to_uppercase(cleaned[0]);
    let rest = slice_chars(&cleaned, 1, cleaned.len());
    crate::text::extend(&mut out, &rest);
    string_of(&out)
}

/// A character that may stand in a sanitized name of ASCII text.
pub open spec fn name_safe(c: char) -> bool {
    is_ascii_alphanumeric(c) || c == '_' || c == '-'
}

proof fn lemma_kept_ascii(s: Seq<char>)
    requires
        is_ascii_text(s),
    ensures
        kept(s).len() <= s.len(),
        forall|i: int| 0 <= i < kept(s).len() ==> name_safe(#[trigger] kept(s)[i]),
    decreases s.len(),
{
    if s.len() > 0 {
        assert(is_ascii_char(s[s.len() - 1]));
        lemma_kept_ascii(s.drop_last());
    }
}

proof fn lemma_kept_safe(t: Seq<char>)
    requires
        forall|i: int| 0 <= i < t.len() ==> name_safe(#[trigger] t[i]),
    ensures
        kept(t) == t,
    decreases t.len(),
{
    if t.len() > 0 {
        assert(name_safe(t[t.len() - 1]));
        lemma_kept_safe(t.drop_last());
        assert(t.drop_last().push(t.last()) =~= t);
    }
}

/// The name made of ASCII text has one to 32 characters, all ASCII letters, digits,
/// `_` or `-`, does not begin with a lowercase letter, and is its own name.
pub proof fn law_sanitize_ascii(s: Seq<char>)
    requires
        is_ascii_text(s),
    ensures
        1 <= sanitized(s).len() <= 32,
        forall|i: int| 0 <= i < sanitized(s).len() ==> name_safe(#[trigger] sanitized(s)[i]),
        !is_ascii_lower(sanitized(s)[0]),
        sanitized(sanitized(s)) == sanitized(s),
{
    reveal_strlit("Clip");
    let k = kept(s);
    lemma_kept_ascii(s);
    let cleaned = if k.len() > 32 {
        k.take(32)
    } else {
        k
    };
    assert(forall|i: int| 0 <= i < cleaned.len() ==> name_safe(#[trigger] cleaned[i])) by {
        assert forall|i: int| 0 <= i < cleaned.len() implies name_safe(#[trigger] cleaned[i]) by {
            assert(cleaned[i] == k[i]);
        }
    }
    let r = sanitized(s);
    if cleaned.len() == 0 {
        assert(r == "Clip"@);
        assert(forall|i: int| 0 <= i < r.len() ==> name_safe(#[trigger] r[i]));
        lemma_kept_safe(r);
        assert(char_uppercase('C') == seq!['C']);
        assert(sanitized(r) =~= r);
    } else {
        let c0 = cleaned[0];
        assert(is_ascii_char(c0));
        let u = ascii_upper(c0);
        assert(name_safe(u));
        assert(!is_ascii_lower(u));
        assert(r =~= seq![u] + cleaned.skip(1));
        assert forall|i: int| 0 <= i < r.len() implies name_safe(#[trigger] r[i]) by {
            if i > 0 {
                assert(r[i] == cleaned[i]);
            }
        }
        lemma_kept_safe(r);
        assert(is_ascii_char(u));
        assert(ascii_upper(u) == u);
        assert(sanitized(r) =~= r);
    }
}

/// Parts of a window class that say nothing about the application.
pub open spec fn is_generic_part(lower: Seq<char>) -> bool {
    lower == "client"@ || lower == "app"@ || lower == "desktop"@ || lower == "main"@
}

/// The last of `parts` that is not a generic part, if any.
pub open spec fn last_meaningful(parts: Seq<Seq<char>>) -> Option<Seq<char>>
    decreases parts.len(),
{
    if parts.len() == 0 {
        None
    } else if !is_generic_part(lowercase(parts.last())) {
        Some(parts.last())
    } else {
        last_meaningful(parts.drop_last())
    }
}

/// The readable name of an application with window class `class`: the name its desktop
/// entry gives, else the last dot-separated part of the class that is not generic
/// (`org.vinegarhq.Sober` gives `Sober`, `com.spotify.Client` gives `Spotify`), else the
/// whole class; sanitized.
pub open spec fn app_name(class: Seq<char>, desktop_name: Option<Seq<char>>) -> Seq<char> {
    match desktop_name {
        Some(n) => sanitized(n),
        None => match last_meaningful(split_char(class, '.')) {
            Some(p) => sanitized(p),
            None => sanitized(class),
        },
    }
}

/// The readable name of the application with window class `class`, whose desktop entry
/// names it `desktop_name` when one was found.
pub fn pretty_app_name(class: &str, desktop_name: Option<&str>) -> (r: String)
    ensures
        r@ == app_name(class@, crate::settings::opt_str_view(desktop_name)),
{
    if let Some(name) = desktop_name {
        return sanitize(name);
    }
    let cv = chars_of(class);
    let parts = split_chars(&cv, '.');
    let ghost sp = split_char(class@, '.');
    let mut i: usize = parts.len();
    assert(sp.take(sp.len() as int) =~= sp);
    while i > 0
        invariant
            i <= parts@.len(),
            desktop_name is None,
            sp == split_char(class@, '.'),
            parts@.len() == sp.len(),
            forall|k: int| 0 <= k < parts@.len() ==> #[trigger] parts@[k]@ == sp[k],
            last_meaningful(sp) == last_meaningful(sp.take(i as int)),
        decreases i,
    {
        assert(sp.take(i as int).last() == parts@[i - 1]@);
        assert(sp.take(i as int).drop_last() =~= sp.take(i - 1));
        let seg = string_of(&parts[i - 1]);
        let lower = to_lowercase(seg.as_str());
        let lv = chars_of(lower.as_str());
        let generic = crate::text::chars_equal(&lv, &chars_of("client")) || crate::text::chars_equal(
            &lv,
            &chars_of("app"),
        ) || crate::text::chars_equal(&lv, &chars_of("desktop")) || crate::text::chars_equal(
            &lv,
            &chars_of("main"),
        );
        assert(lv@ == lowercase(sp.take(i as int).last()));
        assert(generic == is_generic_part(lv@));
        if !generic {
            assert(last_meaningful(sp.take(i as int)) == Some(seg@));
            return sanitize(seg.as_str());
        }
        i = i - 1;
    }
    sanitize(class)
}

/// The name a desktop entry gives when it describes the window class `class`: the
/// entry matches when its file stem or a `StartupWMClass=` line equals the class (in
/// lower case); its name is the first `Name=` line, trimmed.
pub open spec fn entry_name(stem: Option<Seq<char>>, text: Seq<char>, class: Seq<char>) -> Option<
    Seq<char>,
> {
    let target = lowercase(class);
    let ls = lines(text);
    let stem_match = match stem {
        Some(s) => lowercase(s) == target,
        None => false,
    };
    let wm_match = exists|i: int| 0 <= i < ls.len() && #[trigger] names_class(ls[i], target);
    if !stem_match && !wm_match {
        None
    } else {
        match first_stripped(ls, "Name="@) {
            Some(n) => Some(trim(n)),
            None => None,
        }
    }
}

/// Is `line` a `StartupWMClass=` line naming `target` (in lower case)?
pub open spec fn names_class(line: Seq<char>, target: Seq<char>) -> bool {
    match strip_prefix(line, "StartupWMClass="@) {
        Some(v) => lowercase(trim(v)) == target,
        None => false,
    }
}

/// What follows `p` on the first of `ls` that starts with it.
pub open spec fn first_stripped(ls: Seq<Seq<char>>, p: Seq<char>) -> Option<Seq<char>>
    decreases ls.len(),
{
    if ls.len() == 0 {
        None
    } else {
        match strip_prefix(ls[0], p) {
            Some(rest) => Some(rest),
            None => first_stripped(ls.drop_first(), p),
        }
    }
}

/// Whether the file at `path` is a desktop entry (its extension is `desktop`).
pub fn is_desktop_file(path: &str) -> (r: bool)
    ensures
        r == (extension_of(path@) == Some("desktop"@)),
{
    match extension(path) {
        Some(e) => {
            let ev = chars_of(e.as_str());
            chars_equal(&ev, &chars_of("desktop"))
        },
        None => false,
    }
}

/// The application name in the desktop entry at `path` with contents `text`, when it
/// describes the window class `class`.
#[verifier::loop_isolation(false)]
pub fn desktop_entry_name(path: &str, text: &str, class: &str) -> (r: Option<String>)
    ensures
        opt_view(r) == entry_name(file_stem_of(path@), text@, class@),
{
    let target = to_lowercase(class);
    let tv = chars_of(target.as_str());
    let stem_match = match file_stem(path) {
        Some(s) => {
            let l = to_lowercase(s.as_str());
            let lv = chars_of(l.as_str());
            chars_equal(&lv, &tv)
        },
        None => false,
    };
    let ls = lines_of_str(text);
    let ghost sl = lines(text@);
    let mut wm_match = false;
    let mut i: usize = 0;
    while i < ls.len()
        invariant
            i <= ls.len(),
            ls@.len() == sl.len(),
            forall|k: int| 0 <= k < ls@.len() ==> #[trigger] ls@[k]@ == sl[k],
            tv@ == lowercase(class@),
            wm_match ==> exists|j: int| 0 <= j < sl.len() && #[trigger] names_class(sl[j], lowercase(class@)),
            !wm_match ==> forall|j: int| 0 <= j < i ==> !#[trigger] names_class(sl[j], lowercase(class@)),
        decreases ls.len() - i,
    {
        match strip_prefix_str(&ls[i], "StartupWMClass=") {
            Some(v) => {
                let t = trim_chars(&v);
                let ts = string_of(&t);
                let l = to_lowercase(ts.as_str());
                let lv = chars_of(l.as_str());
                assert(strip_prefix(sl[i as int], "StartupWMClass="@) == Some(v@));
                if chars_equal(&lv, &tv) {
                    assert(names_class(sl[i as int], lowercase(class@)));
                    wm_match = true;
                }
            },
            None => {
                assert(!names_class(sl[i as int], lowercase(class@)));
            },
        }
        i = i + 1;
    }
    if !stem_match && !wm_match {
        return None;
    }
    let mut j: usize = 0;
    assert(sl.skip(0) =~= sl);
    while j < ls.len()
        invariant
            j <= ls.len(),
            ls@.len() == sl.len(),
            forall|k: int| 0 <= k < ls@.len() ==> #[trigger] ls@[k]@ == sl[k],
            first_stripped(sl, "Name="@) == first_stripped(sl.skip(j as int), "Name="@),
        decreases ls.len() - j,
    {
        assert(sl.skip(j as int)[0] == ls@[j as int]@);
        match strip_prefix_str(&ls[j], "Name=") {
            Some(n) => {
                let t = trim_chars(&n);
                return Some(string_of(&t));
            },
            None => {},
        }
        assert(sl.skip(j as int).drop_first() =~= sl.skip(j + 1));
        j = j + 1;
    }
    None
}

} // verus!

//! The clip library's own rules: names of renamed and freshly saved clips, which files
//! are clips, cloud storage keys, the thumbnail data URL, the clipping sound's file,
//! and the tallies of a storage purge.
use vstd::prelude::*;

use crate::encoding::{base64_encode, base64_standard};
use crate::paths::{file_name, file_name_of, extension, extension_of, join, joined, parent, parent_of, opt_as_str, opt_view};
use crate::settings::{opt_str_view, resolve_user_path_with, resolved_path, AppSettings};
use crate::text::{
    chars_equal, chars_of, decimal, ends_with, ends_with_str, find, find_chars, lemma_contains,
    occurs_at, push_decimal, push_str, slice_chars, split_char, split_chars, string_of, trim,
    trim_str, without_suffix, without_suffix_str,
};

verus! {

// ---------------------------------------------------------------------------
// Clip files
// ---------------------------------------------------------------------------

/// Clips are `mkv`, `mp4` and `webm` files.
pub open spec fn is_clip_extension(ext: Seq<char>) -> bool {
    ext == "mkv"@ || ext == "mp4"@ || ext == "webm"@
}

/// Is the file at `path` a clip, judged by its extension?
pub open spec fn is_clip_path(path: Seq<char>) -> bool {
    match extension_of(path) {
        Some(e) => is_clip_extension(e),
        None => is_clip_extension(Seq::empty()),
    }
}

/// Whether the file at `path` is a clip, judged by its extension.
pub fn is_clip_file(path: &str) -> (r: bool)
    ensures
        r == is_clip_path(path@),
{
    let e: String = match extension(path) {
        Some(e) => e,
        None => String::new(),
    };
    let ev = chars_of(e.as_str());
    chars_equal(&ev, &chars_of("mkv")) || chars_equal(&ev, &chars_of("mp4")) || chars_equal(
        &ev,
        &chars_of("webm"),
    )
}

/// The clips among the files `found` in the clips directory that the library does not
/// hold yet (their paths are not among `existing`), in the order found.
pub open spec fn new_clips(existing: Seq<Seq<char>>, found: Seq<Seq<char>>) -> Seq<Seq<char>>
    decreases found.len(),
{
    if found.len() == 0 {
        Seq::empty()
    } else {
        let rest = new_clips(existing, found.drop_last());
        let p = found.last();
        if is_clip_path(p) && !existing.contains(p) {
            rest.push(p)
        } else {
            rest
        }
    }
}

fn holds_path(existing: &Vec<String>, p: &String) -> (r: bool)
    ensures
        r == existing@.map_values(|s: String| s@).contains(p@),
{
    let ghost ev = existing@.map_values(|s: String| s@);
    let mut i: usize = 0;
    while i < existing.len()
        invariant
            i <= existing.len(),
            ev == existing@.map_values(|s: String| s@),
            forall|k: int| 0 <= k < i ==> ev[k] != p@,
        decreases existing.len() - i,
    {
        if existing[i] == *p {
            assert(ev[i as int] == p@);
            return true;
        }
        i = i + 1;
    }
    false
}

/// The paths of the clip files in `found` that are not among the `existing` paths of
/// the library.
pub fn new_clip_paths(existing: &Vec<String>, found: &Vec<String>) -> (r: Vec<String>)
    ensures
        r@.map_values(|s: String| s@) == new_clips(
            existing@.map_values(|s: String| s@),
            found@.map_values(|s: String| s@),
        ),
{
    let ghost ev = existing@.map_values(|s: String| s@);
    let ghost fv = found@.map_values(|s: String| s@);
    let mut r: Vec<String> = Vec::new();
    let mut i: usize = 0;
    assert(fv.take(0) =~= Seq::<Seq<char>>::empty());
    while i < found.len()
        invariant
            i <= found.len(),
            ev == existing@.map_values(|s: String| s@),
            fv == found@.map_values(|s: String| s@),
            r@.map_values(|s: String| s@) == new_clips(ev, fv.take(i as int)),
        decreases found.len() - i,
    {
        assert(fv.take(i + 1).drop_last() =~= fv.take(i as int));
        assert(fv.take(i + 1).last() == found@[i as int]@);
        if is_clip_file(found[i].as_str()) && !holds_path(existing, &found[i]) {
            let ghost before = r@;
            r.push(found[i].clone());
            assert(r@.map_values(|s: String| s@) =~= before.map_values(|s: String| s@).push(
                found@[i as int]@,
            ));
        }
        i = i + 1;
    }
    assert(fv.take(found.len() as int) =~= fv);
    r
}

/// A clip as the library records it, all but its duration (a floating-point number of
/// seconds, which the application adds).
pub struct ClipRecord {
    pub id: String,
    pub filename: String,
    pub window_name: Option<String>,
    pub path: String,
    pub created_at: String,
    pub thumbnail_path: Option<String>,
    pub tags: Option<String>,
    pub folder: Option<String>,
    pub favorite: bool,
    pub upload_status: String,
    pub r2_key: Option<String>,
    pub r2_url: Option<String>,
    pub expiry_date: Option<String>,
    pub is_permanent: bool,
}

/// The record of a clip found by a scan of the clips directory: named after its file,
/// local, not a favourite, not uploaded, with no window name, tags or folder.
pub fn scanned_clip(id: String, path: String, created_at: String, thumbnail_path: Option<String>) -> (r:
    ClipRecord)
    ensures
        r.id@ == id@,
        r.filename@ == match file_name_of(path@) {
            Some(n) => n,
            None => Seq::<char>::empty(),
        },
        r.window_name is None,
        r.path@ == path@,
        r.created_at@ == created_at@,
        opt_view(r.thumbnail_path) == opt_view(thumbnail_path),
        r.tags is None,
        r.folder is None,
        !r.favorite,
        r.upload_status@ == "local"@,
        r.r2_key is None,
        r.r2_url is None,
        r.expiry_date is None,
        !r.is_permanent,
{
    let filename = match file_name(path.as_str()) {
        Some(n) => n,
        None => String::new(),
    };
    ClipRecord {
        id,
        filename,
        window_name: None,
        path,
        created_at,
        thumbnail_path,
        tags: None,
        folder: None,
        favorite: false,
        upload_status: "local".to_owned(),
        r2_key: None,
        r2_url: None,
        expiry_date: None,
        is_permanent: false,
    }
}

/// The file name and path a clip at `old_path` gets when renamed to `new_name`: the
/// clip's extension (`mp4` when it has none) is added unless the name already ends with
/// it, and the clip stays in its directory.
pub open spec fn renamed(old_path: Seq<char>, new_name: Seq<char>) -> (Seq<char>, Seq<char>) {
    let ext = match extension_of(old_path) {
        Some(e) => e,
        None => "mp4"@,
    };
    let file = if ends_with(new_name, "."@ + ext) {
        new_name
    } else {
        new_name + "."@ + ext
    };
    let dir = match parent_of(old_path) {
        Some(d) => d,
        None => "."@,
    };
    (file, joined(dir, file))
}

/// The new file name and path of the clip at `old_path` renamed to `new_name`.
pub fn rename_target(old_path: &str, new_name: &str) -> (r: (String, String))
    ensures
        (r.0@, r.1@) == renamed(old_path@, new_name@),
{
    let ext: String = match extension(old_path) {
        Some(e) => e,
        None => "mp4".to_owned(),
    };
    let mut dotted: Vec<char> = Vec::new();
    push_str(&mut dotted, ".");
    push_str(&mut dotted, ext.as_str());
    assert(dotted@ =~= "."@ + ext@);
    let nv = chars_of(new_name);
    let file: String = if crate::text::ends_with_chars(&nv, &dotted) {
        new_name.to_owned()
    } else {
        let mut f = chars_of(new_name);
        crate::text::extend(&mut f, &dotted);
        string_of(&f)
    };
    let dir: String = match parent(old_path) {
        Some(d) => d,
        None => ".".to_owned(),
    };
    let path = join(dir.as_str(), file.as_str());
    (file, path)
}

/// The name waiting in the pending-name file, trimmed, when there is one.
pub fn pending_name_from(contents: &str) -> (r: Option<String>)
    ensures
        opt_view(r) == (if trim(contents@).len() == 0 {
            None
        } else {
            Some(trim(contents@))
        }),
{
    let t = trim_str(contents);
    if t.len() == 0 {
        None
    } else {
        Some(string_of(&t))
    }
}

/// The `n`th candidate path for a clip at `path` renamed to the pending name: in the
/// clip's directory, `{pending}.{ext}` first, then `{pending}_{n}.{ext}`.
pub open spec fn pending_candidate(path: Seq<char>, pending: Seq<char>, ext: Seq<char>, n: u64) -> Seq<
    char,
> {
    let dir = match parent_of(path) {
        Some(d) => d,
        None => "."@,
    };
    let name = if n == 0 {
        pending + "."@ + ext
    } else {
        pending + "_"@ + decimal(n as nat) + "."@ + ext
    };
    joined(dir, name)
}

/// The `n`th path tried when the clip at `path` takes the pending name.
pub fn pending_target(path: &str, pending: &str, ext: &str, n: u64) -> (r: String)
    ensures
        r@ == pending_candidate(path@, pending@, ext@, n),
{
    let dir: String = match parent(path) {
        Some(d) => d,
        None => ".".to_owned(),
    };
    let mut name = chars_of(pending);
    if n != 0 {
        push_str(&mut name, "_");
        push_decimal(&mut name, n);
    }
    push_str(&mut name, ".");
    push_str(&mut name, ext);
    let ns = string_of(&name);
    join(dir.as_str(), ns.as_str())
}

/// Whether the table columns `names` include `column`.
pub fn has_column(names: &Vec<String>, column: &str) -> (r: bool)
    ensures
        r == exists|i: int| 0 <= i < names@.len() && (#[trigger] names@[i])@ == column@,
{
    let wanted = column.to_owned();
    let mut i: usize = 0;
    while i < names.len()
        invariant
            i <= names.len(),
            wanted@ == column@,
            forall|k: int| 0 <= k < i ==> (#[trigger] names@[k])@ != column@,
        decreases names.len() - i,
    {
        if names[i] == wanted {
            return true;
        }
        i = i + 1;
    }
    false
}

// ---------------------------------------------------------------------------
// Cloud storage keys
// ---------------------------------------------------------------------------

/// The storage key of an uploaded clip, taken from its URL: from the `t/` or `p/`
/// prefix on, else the URL's last `/`-separated part.
pub open spec fn key_of_url(url: Seq<char>) -> Seq<char> {
    match find(url, "/t/"@) {
        Some(i) => url.skip(i + 1),
        None => match find(url, "/p/"@) {
            Some(i) => url.skip(i + 1),
            None => split_char(url, '/').last(),
        },
    }
}

/// The key of a URL that holds `/t/` or `/p/` starts at that prefix's `t/` or `p/`.
pub proof fn law_key_keeps_prefix(url: Seq<char>)
    ensures
        find(url, "/t/"@) is Some ==> key_of_url(url).take(2) == "t/"@,
        find(url, "/t/"@) is None && find(url, "/p/"@) is Some ==> key_of_url(url).take(2) == "p/"@,
{
    reveal_strlit("/t/");
    reveal_strlit("/p/");
    reveal_strlit("t/");
    reveal_strlit("p/");
    lemma_contains(url, "/t/"@);
    lemma_contains(url, "/p/"@);
    if let Some(i) = find(url, "/t/"@) {
        assert(url.subrange(i, i + 3) == "/t/"@);
        assert(url.skip(i + 1).take(2) =~= url.subrange(i, i + 3).subrange(1, 3));
    } else if let Some(i) = find(url, "/p/"@) {
        assert(url.subrange(i, i + 3) == "/p/"@);
        assert(url.skip(i + 1).take(2) =~= url.subrange(i, i + 3).subrange(1, 3));
    }
}

/// The storage key of the clip uploaded to `url`.
pub fn r2_key_from_url(url: &str) -> (r: String)
    ensures
        r@ == key_of_url(url@),
{
    let uv = chars_of(url);
    let t = chars_of("/t/");
    match find_chars(&uv, &t) {
        Some(i) => {
            proof {
                lemma_contains(uv@, t@);
                assert(occurs_at(uv@, t@, i as int));
            }
            let n = uv.len();
            assert(i < n) by {
                reveal_strlit("/t/");
            }
            let k = slice_chars(&uv, i + 1, n);
            return string_of(&k);
        },
        None => {},
    }
    let p = chars_of("/p/");
    match find_chars(&uv, &p) {
        Some(i) => {
            proof {
                lemma_contains(uv@, p@);
                assert(occurs_at(uv@, p@, i as int));
            }
            let n = uv.len();
            assert(i < n) by {
                reveal_strlit("/p/");
            }
            let k = slice_chars(&uv, i + 1, n);
            string_of(&k)
        },
        None => {
            let parts = split_chars(&uv, '/');
            proof {
                crate::text::lemma_split_char_len(url@, '/');
            }
            string_of(&parts[parts.len() - 1])
        },
    }
}

/// A temporary object's key without its file extension (`.html`, `.mp4`, `.mkv`,
/// `.webm`, `.jpg`, removed in that order).
pub open spec fn key_stem(key: Seq<char>) -> Seq<char> {
    without_suffix(
        without_suffix(
            without_suffix(without_suffix(without_suffix(key, ".html"@), ".mp4"@), ".mkv"@),
            ".webm"@,
        ),
        ".jpg"@,
    )
}

/// The key `key` without its file extension.
pub fn temp_key_stem(key: &str) -> (r: String)
    ensures
        r@ == key_stem(key@),
{
    let k = chars_of(key);
    let k = without_suffix_str(&k, ".html");
    let k = without_suffix_str(&k, ".mp4");
    let k = without_suffix_str(&k, ".mkv");
    let k = without_suffix_str(&k, ".webm");
    let k = without_suffix_str(&k, ".jpg");
    string_of(&k)
}

/// The stems of the keys of the clips still uploaded temporarily, which a purge of
/// orphaned temporary objects keeps.
pub open spec fn kept_stems(keys: Seq<Option<Seq<char>>>) -> Seq<Seq<char>>
    decreases keys.len(),
{
    if keys.len() == 0 {
        Seq::empty()
    } else {
        match keys.last() {
            Some(k) => kept_stems(keys.drop_last()).push(key_stem(k)),
            None => kept_stems(keys.drop_last()),
        }
    }
}

/// The stems of the storage keys of the temporarily uploaded clips.
pub fn orphan_keep_keys(keys: &Vec<Option<String>>) -> (r: Vec<String>)
    ensures
        r@.map_values(|s: String| s@) == kept_stems(keys@.map_values(|k: Option<String>| opt_view(k))),
{
    let ghost ks = keys@.map_values(|k: Option<String>| opt_view(k));
    let mut r: Vec<String> = Vec::new();
    let mut i: usize = 0;
    assert(ks.take(0) =~= Seq::<Option<Seq<char>>>::empty());
    while i < keys.len()
        invariant
            i <= keys.len(),
            ks == keys@.map_values(|k: Option<String>| opt_view(k)),
            r@.map_values(|s: String| s@) == kept_stems(ks.take(i as int)),
        decreases keys.len() - i,
    {
        assert(ks.take(i + 1).drop_last() =~= ks.take(i as int));
        assert(ks.take(i + 1).last() == opt_view(keys@[i as int]));
        match &keys[i] {
            Some(k) => {
                let ghost before = r@;
                r.push(temp_key_stem(k.as_str()));
                assert(r@.map_values(|s: String| s@) =~= before.map_values(|s: String| s@).push(
                    key_stem(k@),
                ));
            },
            None => {},
        }
        i = i + 1;
    }
    assert(ks.take(keys.len() as int) =~= ks);
    r
}

/// How many stored objects a purge deleted and how many it failed to delete.
pub struct PurgeTally {
    pub deleted: usize,
    pub failed: usize,
}

impl PurgeTally {
    /// Nothing counted yet.
    pub fn new() -> (t: PurgeTally)
        ensures
            t.deleted == 0 && t.failed == 0,
    {
        PurgeTally { deleted: 0, failed: 0 }
    }

    /// Counts one clip: deleted when it had a key, its object was removed and the
    /// library marked it deleted; failed otherwise.
    pub fn record(&mut self, had_key: bool, removed: bool, marked: bool)
        requires
            old(self).deleted + old(self).failed < usize::MAX,
        ensures
            had_key && removed && marked ==> final(self).deleted == old(self).deleted + 1
                && final(self).failed == old(self).failed,
            !(had_key && removed && marked) ==> final(self).failed == old(self).failed + 1
                && final(self).deleted == old(self).deleted,
    {
        if had_key && removed && marked {
            self.deleted = self.deleted + 1;
        } else {
            self.failed = self.failed + 1;
        }
    }

    /// Adds the counts of another pass.
    pub fn add(&mut self, deleted: usize, failed: usize)
        requires
            old(self).deleted + old(self).failed + deleted + failed <= usize::MAX,
        ensures
            final(self).deleted == old(self).deleted + deleted,
            final(self).failed == old(self).failed + failed,
    {
        self.deleted = self.deleted + deleted;
        self.failed = self.failed + failed;
    }
}

// ---------------------------------------------------------------------------
// Thumbnails and sounds
// ---------------------------------------------------------------------------

/// A JPEG thumbnail as a `data:` URL.
pub fn thumbnail_data_url(jpeg: &[u8]) -> (r: String)
    requires
        jpeg@.len() / 3 * 4 + 4 <= usize::MAX,
    ensures
        r@ == "data:image/jpeg;base64,"@ + base64_standard(jpeg@),
{
    let b64 = base64_encode(jpeg);
    let mut v: Vec<char> = Vec::new();
    push_str(&mut v, "data:image/jpeg;base64,");
    push_str(&mut v, b64.as_str());
    string_of(&v)
}

/// The clipping sound to play: the user's file (a leading `~` expanded with `home`), or
/// `None` for the built-in chime when no file is set.
pub open spec fn sound_file(s: AppSettings, home: Option<Seq<char>>) -> Option<Seq<char>> {
    let p = trim(s.clipping_sound_path@);
    if p.len() == 0 {
        None
    } else {
        Some(resolved_path(p, home))
    }
}

/// The clipping sound file the settings name, with `home` as the home directory; `None`
/// means the built-in chime.
pub fn clipping_sound_file(s: &AppSettings, home: Option<&str>) -> (r: Option<String>)
    ensures
        opt_view(r) == sound_file(*s, opt_str_view(home)),
{
    let p = trim_str(s.clipping_sound_path.as_str());
    if p.len() == 0 {
        return None;
    }
    let ps = string_of(&p);
    Some(resolve_user_path_with(ps.as_str(), home))
}

} // verus!

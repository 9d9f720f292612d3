//! Browser previews of clips: when a clip can be played as it is, how a transcoded
//! preview is named, and which cached previews are deleted to keep the cache small.
use vstd::prelude::*;

use crate::editor::{opt_seq, push_arg, views};
use crate::paths::{extension, extension_of, join, joined};
use crate::text::{
    chars_equal, chars_of, decimal, ends_with, ends_with_str, push_decimal, push_str, string_of,
    trim, trim_str,
};
use crate::unicode::{lossy_utf8, utf8_lossy};

verus! {

// ---------------------------------------------------------------------------
// Transcoding
// ---------------------------------------------------------------------------

/// The ffprobe arguments that print the codec of the first audio stream of `input`.
pub fn codec_probe_args(input: &str) -> (r: Vec<String>)
    ensures
        views(r@) == seq![
            "-v"@,
            "quiet"@,
            "-select_streams"@,
            "a:0"@,
            "-show_entries"@,
            "stream=codec_name"@,
            "-of"@,
            "csv=p=0"@,
            input@,
        ],
{
    let mut args: Vec<String> = Vec::new();
    push_arg(&mut args, "-v");
    push_arg(&mut args, "quiet");
    push_arg(&mut args, "-select_streams");
    push_arg(&mut args, "a:0");
    push_arg(&mut args, "-show_entries");
    push_arg(&mut args, "stream=codec_name");
    push_arg(&mut args, "-of");
    push_arg(&mut args, "csv=p=0");
    push_arg(&mut args, input);
    assert(views(args@) =~= seq![
        "-v"@,
        "quiet"@,
        "-select_streams"@,
        "a:0"@,
        "-show_entries"@,
        "stream=codec_name"@,
        "-of"@,
        "csv=p=0"@,
        input@,
    ]);
    args
}

/// Whether `ffprobe -select_streams a:0 -show_entries stream=codec_name` reported AAC.
pub fn is_aac_output(stdout: &[u8]) -> (r: bool)
    ensures
        r == (trim(lossy_utf8(stdout@)) == "aac"@),
{
    let text = utf8_lossy(stdout);
    let t = trim_str(text.as_str());
    chars_equal(&t, &chars_of("aac"))
}

/// A clip is served as it is when all its audio is wanted, it is an MP4 file, its first
/// audio stream is AAC, and it has at most one audio stream.
pub open spec fn plays_as_is(all_tracks: bool, input: Seq<char>, aac: bool, streams: usize) -> bool {
    all_tracks && ends_with(input, ".mp4"@) && aac && streams <= 1
}

/// Whether the clip `input` can be played without transcoding, given whether every
/// audio track is wanted, whether its first audio stream is AAC, and how many audio
/// streams it has.
pub fn serves_original(all_tracks: bool, input: &str, aac: bool, streams: usize) -> (r: bool)
    ensures
        r == plays_as_is(all_tracks, input@, aac, streams),
{
    let iv = chars_of(input);
    all_tracks && ends_with_str(&iv, ".mp4") && aac && streams <= 1
}

/// The tracks joined by `-`.
pub open spec fn joined_tracks(ts: Seq<usize>) -> Seq<char>
    decreases ts.len(),
{
    if ts.len() == 0 {
        Seq::empty()
    } else if ts.len() == 1 {
        decimal(ts[0] as nat)
    } else {
        joined_tracks(ts.drop_last()) + "-"@ + decimal(ts.last() as nat)
    }
}

/// The part of a preview's name that says which audio tracks it has: `all`, `muted`, or
/// the track numbers joined by `-`.
pub open spec fn track_key(enabled: Option<Seq<usize>>) -> Seq<char> {
    match enabled {
        None => "all"@,
        Some(ts) => if ts.len() == 0 {
            "muted"@
        } else {
            joined_tracks(ts)
        },
    }
}

/// The track part of a preview's name for the enabled tracks (all when `None`).
pub fn preview_track_key(enabled: Option<&[usize]>) -> (r: String)
    ensures
        r@ == track_key(opt_seq(enabled)),
{
    match enabled {
        None => "all".to_owned(),
        Some(ts) => {
            if ts.len() == 0 {
                return "muted".to_owned();
            }
            let mut v: Vec<char> = Vec::new();
            push_decimal(&mut v, ts[0] as u64);
            assert(ts@.take(1) =~= seq![ts@[0]]);
            let mut i: usize = 1;
            while i < ts.len()
                invariant
                    1 <= i <= ts.len(),
                    v@ == joined_tracks(ts@.take(i as int)),
                decreases ts.len() - i,
            {
                assert(ts@.take(i + 1).drop_last() =~= ts@.take(i as int));
                assert(ts@.take(i + 1).last() == ts@[i as int]);
                push_str(&mut v, "-");
                push_decimal(&mut v, ts[i] as u64);
                i = i + 1;
            }
            assert(ts@.take(ts.len() as int) =~= ts@);
            string_of(&v)
        },
    }
}

/// Where the preview of a clip with cache name `cache_name` and the enabled tracks is
/// written in the cache directory `dir`: `{cache_name}-{tracks}.mp4`.
pub fn preview_output(dir: &str, cache_name: &str, enabled: Option<&[usize]>) -> (r: String)
    ensures
        r@ == joined(dir@, cache_name@ + "-"@ + track_key(opt_seq(enabled)) + ".mp4"@),
{
    let key = preview_track_key(enabled);
    let mut v = chars_of(cache_name);
    push_str(&mut v, "-");
    push_str(&mut v, key.as_str());
    push_str(&mut v, ".mp4");
    let name = string_of(&v);
    join(dir, name.as_str())
}

// ---------------------------------------------------------------------------
// Cache pruning
// ---------------------------------------------------------------------------

/// The cache holds at most 4 GiB of previews.
pub const PREVIEW_CACHE_MAX_BYTES: u64 = 4294967296;

/// Previews untouched for more than a week are stale, in nanoseconds.
pub const PREVIEW_CACHE_MAX_AGE_NANOS: i128 = 604800000000000;

/// A cached preview: its path, size, modification time (nanoseconds since the Unix
/// epoch, negative before it) and whether it must be kept (the preview just made).
pub struct CacheEntry {
    pub path: String,
    pub size: u64,
    pub modified: i128,
    pub protected: bool,
}

/// Whether the cache holds an MP4 file at `path`; other files are left alone.
pub fn is_cached_preview(path: &str) -> (r: bool)
    ensures
        r == (extension_of(path@) == Some("mp4"@)),
{
    match extension(path) {
        Some(e) => {
            let ev = chars_of(e.as_str());
            chars_equal(&ev, &chars_of("mp4"))
        },
        None => false,
    }
}

/// A file modified at `modified` is stale at `now` when it is more than a week old; a
/// modification time in the future is never stale.
pub open spec fn stale(now: i128, modified: i128) -> bool {
    modified <= now && now - modified > PREVIEW_CACHE_MAX_AGE_NANOS
}

pub fn is_stale(now: i128, modified: i128) -> (r: bool)
    ensures
        r == stale(now, modified),
{
    if modified > now {
        return false;
    }
    if modified < 0 {
        now > PREVIEW_CACHE_MAX_AGE_NANOS + modified
    } else {
        now - modified > PREVIEW_CACHE_MAX_AGE_NANOS
    }
}

/// Is the entry deleted for being stale at `now`?
pub open spec fn expired(now: i128, e: CacheEntry) -> bool {
    stale(now, e.modified) && !e.protected
}

/// The paths of the entries deleted for being stale.
pub open spec fn expired_paths(now: i128, es: Seq<CacheEntry>) -> Seq<Seq<char>>
    decreases es.len(),
{
    if es.len() == 0 {
        Seq::empty()
    } else if expired(now, es.last()) {
        expired_paths(now, es.drop_last()).push(es.last().path@)
    } else {
        expired_paths(now, es.drop_last())
    }
}

/// The entries kept after the stale ones are deleted.
pub open spec fn fresh(now: i128, es: Seq<CacheEntry>) -> Seq<CacheEntry>
    decreases es.len(),
{
    if es.len() == 0 {
        Seq::empty()
    } else if expired(now, es.last()) {
        fresh(now, es.drop_last())
    } else {
        fresh(now, es.drop_last()).push(es.last())
    }
}

/// The entries of the cache split into the paths to delete because they are stale and
/// unprotected, and the entries that stay.
pub fn partition_stale(now: i128, entries: &Vec<CacheEntry>) -> (r: (Vec<String>, Vec<CacheEntry>))
    ensures
        r.0@.map_values(|s: String| s@) == expired_paths(now, entries@),
        r.1@ == fresh(now, entries@),
{
    let ghost es = entries@;
    let mut stale_paths: Vec<String> = Vec::new();
    let mut kept: Vec<CacheEntry> = Vec::new();
    let mut i: usize = 0;
    assert(es.take(0) =~= Seq::<CacheEntry>::empty());
    while i < entries.len()
        invariant
            i <= entries.len(),
            es == entries@,
            stale_paths@.map_values(|s: String| s@) == expired_paths(now, es.take(i as int)),
            kept@ == fresh(now, es.take(i as int)),
        decreases entries.len() - i,
    {
        let e = &entries[i];
        assert(es.take(i + 1).drop_last() =~= es.take(i as int));
        assert(es.take(i + 1).last() == es[i as int]);
        let ghost before = stale_paths@;
        if is_stale(now, e.modified) && !e.protected {
            stale_paths.push(e.path.clone());
            assert(stale_paths@.map_values(|s: String| s@) =~= before.map_values(|s: String| s@).push(
                es[i as int].path@,
            ));
        } else {
            let copy = CacheEntry {
                path: e.path.clone(),
                size: e.size,
                modified: e.modified,
                protected: e.protected,
            };
            assert(copy == es[i as int]);
            kept.push(copy);
        }
        i = i + 1;
    }
    assert(es.take(entries.len() as int) =~= es);
    (stale_paths, kept)
}

/// The total size of the entries.
pub open spec fn total_size(es: Seq<CacheEntry>) -> nat
    decreases es.len(),
{
    if es.len() == 0 {
        0
    } else {
        total_size(es.drop_last()) + es.last().size as nat
    }
}

proof fn lemma_total_size_prefix(es: Seq<CacheEntry>, i: int)
    requires
        0 <= i <= es.len(),
    ensures
        total_size(es.take(i)) <= total_size(es),
    decreases es.len() - i,
{
    if i < es.len() {
        lemma_total_size_prefix(es, i + 1);
        assert(es.take(i + 1).drop_last() =~= es.take(i));
    } else {
        assert(es.take(i) =~= es);
    }
}

/// The total size of the cached previews. Summing sizes that exceed 64 bits is not
/// supported.
pub fn cache_total(entries: &Vec<CacheEntry>) -> (r: u64)
    requires
        total_size(entries@) <= u64::MAX,
    ensures
        r == total_size(entries@),
{
    let mut total: u64 = 0;
    let mut i: usize = 0;
    while i < entries.len()
        invariant
            i <= entries.len(),
            total_size(entries@) <= u64::MAX,
            total == total_size(entries@.take(i as int)),
        decreases entries.len() - i,
    {
        assert(entries@.take(i + 1).drop_last() =~= entries@.take(i as int));
        assert(entries@.take(i + 1).last() == entries@[i as int]);
        proof {
            lemma_total_size_prefix(entries@, i + 1);
        }
        total = total + entries[i].size;
        i = i + 1;
    }
    assert(entries@.take(entries.len() as int) =~= entries@);
    total
}

/// Entry `a` is evicted before entry `b`: it is older, or as old and listed earlier.
pub open spec fn evicted_before(es: Seq<CacheEntry>, a: usize, b: usize) -> bool {
    es[a as int].modified < es[b as int].modified || (es[a as int].modified == es[b as int].modified
        && a < b)
}

/// The order in which entries are considered for eviction: the positions of all
/// entries, oldest first, ties kept in their listed order (a stable sort by
/// modification time).
pub fn eviction_order(entries: &Vec<CacheEntry>) -> (o: Vec<usize>)
    ensures
        o@.len() == entries@.len(),
        forall|i: int| 0 <= i < o@.len() ==> #[trigger] o@[i] < entries@.len(),
        forall|i: int, j: int|
            0 <= i < j < o@.len() ==> evicted_before(entries@, #[trigger] o@[i], #[trigger] o@[j]),
{
    let ghost es = entries@;
    let mut o: Vec<usize> = Vec::new();
    let mut i: usize = 0;
    while i < entries.len()
        invariant
            i <= entries.len(),
            es == entries@,
            o@.len() == i,
            forall|k: int| 0 <= k < o@.len() ==> #[trigger] o@[k] < i,
            forall|a: int, b: int|
                0 <= a < b < o@.len() ==> evicted_before(es, #[trigger] o@[a], #[trigger] o@[b]),
        decreases entries.len() - i,
    {
        let m = entries[i].modified;
        let mut p: usize = 0;
        while p < o.len() && entries[o[p]].modified <= m
            invariant
                p <= o@.len(),
                o@.len() == i,
                i < entries@.len(),
                es == entries@,
                m == es[i as int].modified,
                forall|k: int| 0 <= k < o@.len() ==> #[trigger] o@[k] < i,
                forall|k: int| 0 <= k < p ==> es[#[trigger] o@[k] as int].modified <= m,
            decreases o@.len() - p,
        {
            p = p + 1;
        }
        let ghost old_o = o@;
        proof {
            if p < old_o.len() {
                assert(es[old_o[p as int] as int].modified > m);
                assert forall|k: int| p <= k < old_o.len() implies es[#[trigger] old_o[k] as int].modified > m by {
                    if k > p {
                        assert(evicted_before(es, old_o[p as int], old_o[k]));
                    }
                }
            }
        }
        o.insert(p, i);
        assert(o@ == old_o.insert(p as int, i));
        assert forall|a: int, b: int| 0 <= a < b < o@.len() implies evicted_before(
            es,
            #[trigger] o@[a],
            #[trigger] o@[b],
        ) by {
            if a < p && b < p {
                assert(o@[a] == old_o[a] && o@[b] == old_o[b]);
            } else if a < p && b == p {
                assert(o@[a] == old_o[a]);
            } else if a < p && b > p {
                assert(o@[a] == old_o[a] && o@[b] == old_o[b - 1]);
            } else if a == p {
                assert(o@[b] == old_o[b - 1]);
            } else {
                assert(o@[a] == old_o[a - 1] && o@[b] == old_o[b - 1]);
            }
        }
        assert forall|k: int| 0 <= k < o@.len() implies #[trigger] o@[k] < i + 1 by {
            if k < p {
                assert(o@[k] == old_o[k]);
            } else if k > p {
                assert(o@[k] == old_o[k - 1]);
            }
        }
        i = i + 1;
    }
    o
}

/// The position of the next entry to delete, looking from `from` on in eviction
/// order, while the cache holds `total` bytes: none once the cache fits, else the first
/// unprotected entry.
pub open spec fn next_victim(total: u64, sorted: Seq<CacheEntry>, from: int) -> Option<int>
    decreases sorted.len() - from,
{
    if total <= PREVIEW_CACHE_MAX_BYTES || from < 0 || from >= sorted.len() {
        None
    } else if !sorted[from].protected {
        Some(from)
    } else {
        next_victim(total, sorted, from + 1)
    }
}

/// The next preview to delete (its position in `sorted`, the entries in eviction
/// order), looking from position `from`, while the cache holds `total` bytes.
pub fn next_eviction(total: u64, sorted: &Vec<CacheEntry>, from: usize) -> (r: Option<usize>)
    ensures
        match r {
            Some(k) => next_victim(total, sorted@, from as int) == Some(k as int),
            None => next_victim(total, sorted@, from as int) is None,
        },
{
    if total <= PREVIEW_CACHE_MAX_BYTES {
        return None;
    }
    let mut k = from;
    while k < sorted.len()
        invariant
            from <= k,
            total > PREVIEW_CACHE_MAX_BYTES,
            next_victim(total, sorted@, from as int) == next_victim(total, sorted@, k as int),
        decreases sorted.len() - k,
    {
        if !sorted[k].protected {
            return Some(k);
        }
        k = k + 1;
    }
    None
}

/// The size of the cache after trying to delete an entry of `size` bytes: smaller by
/// that much (never below zero) when the deletion succeeded.
pub fn total_after_removal(total: u64, size: u64, removed: bool) -> (r: u64)
    ensures
        r == (if removed {
            if size >= total {
                0
            } else {
                (total - size) as u64
            }
        } else {
            total
        }),
{
    if removed {
        total.saturating_sub(size)
    } else {
        total
    }
}

/// What eviction picks is never a protected preview, and nothing is picked once the
/// cache fits; every entry passed over on the way is protected.
pub proof fn law_eviction_spares_protected(total: u64, sorted: Seq<CacheEntry>, from: int)
    requires
        0 <= from,
    ensures
        next_victim(total, sorted, from) matches Some(k) ==> from <= k < sorted.len()
            && !sorted[k].protected && forall|j: int| from <= j < k ==> #[trigger] sorted[j].protected,
        total <= PREVIEW_CACHE_MAX_BYTES ==> next_victim(total, sorted, from) is None,
    decreases sorted.len() - from,
{
    if total > PREVIEW_CACHE_MAX_BYTES && from < sorted.len() && sorted[from].protected {
        law_eviction_spares_protected(total, sorted, from + 1);
    }
}

/// Pruning for staleness never deletes a protected preview, and every preview is
/// either deleted or kept.
pub proof fn law_stale_pruning_spares_protected(now: i128, es: Seq<CacheEntry>)
    ensures
        forall|k: int| 0 <= k < fresh(now, es).len() ==> !expired(now, #[trigger] fresh(now, es)[k]),
        forall|k: int| 0 <= k < es.len() && es[k].protected ==> fresh(now, es).contains(#[trigger] es[k]),
        fresh(now, es).len() + expired_paths(now, es).len() == es.len(),
    decreases es.len(),
{
    if es.len() > 0 {
        law_stale_pruning_spares_protected(now, es.drop_last());
        let f0 = fresh(now, es.drop_last());
        assert forall|k: int| 0 <= k < es.len() && es[k].protected implies fresh(now, es).contains(
            #[trigger] es[k],
        ) by {
            if k < es.len() - 1 {
                assert(es.drop_last()[k] == es[k]);
                assert(f0.contains(es[k]));
                let j = choose|j: int| 0 <= j < f0.len() && f0[j] == es[k];
                if !expired(now, es.last()) {
                    assert(fresh(now, es)[j] == es[k]);
                }
            } else {
                assert(fresh(now, es).last() == es[k]);
            }
        }
    }
}

} // verus!

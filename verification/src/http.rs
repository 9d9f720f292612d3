//! Answering the editor's byte-range requests for a clip served on localhost.
use vstd::prelude::*;

use crate::text::{
    chars_equal, chars_of, decimal, is_white_space, is_white_space_char, lines, lines_of_str,
    parse_u64, parse_u64_chars, push_decimal, push_str, slice_chars, split_once,
    split_once_chars, starts_with, starts_with_chars, string_of, strip_prefix,
    strip_prefix_str, trim, trim_chars, trim_start, trim_start_index,
};

verus! {

/// `str::trim_start_matches` with a non-empty pattern: every leading repetition of `p`
/// is removed.
pub open spec fn trim_start_matches(s: Seq<char>, p: Seq<char>) -> Seq<char>
    decreases s.len(),
{
    if p.len() > 0 && starts_with(s, p) {
        trim_start_matches(s.skip(p.len() as int), p)
    } else {
        s
    }
}

/// The first of `ls` that starts with `p`.
pub open spec fn first_with_prefix(ls: Seq<Seq<char>>, p: Seq<char>) -> Option<Seq<char>>
    decreases ls.len(),
{
    if ls.len() == 0 {
        None
    } else if starts_with(ls[0], p) {
        Some(ls[0])
    } else {
        first_with_prefix(ls.drop_first(), p)
    }
}

/// The byte range `(start, end)`, both inclusive, that a request for a file of `total`
/// bytes asks for; `None` when its `Range:` header cannot be satisfied.
pub open spec fn requested_range(req: Seq<char>, total: u64) -> Option<(u64, u64)> {
    match first_with_prefix(lines(req), "Range:"@) {
        None => Some((0, (total - 1) as u64)),
        Some(line) => {
            let range = trim(trim_start_matches(line, "Range:"@));
            match strip_prefix(range, "bytes="@) {
                None => None,
                Some(spec_) => match split_once(spec_, '-') {
                    None => None,
                    Some((first, last)) => range_of_bounds(first, last, total),
                },
            }
        },
    }
}

/// The range named by the two sides of `first-last`.
pub open spec fn range_of_bounds(first: Seq<char>, last: Seq<char>, total: u64) -> Option<
    (u64, u64),
> {
    if first.len() == 0 {
        match parse_u64(last) {
            None => None,
            Some(suffix) => if suffix == 0 {
                None
            } else {
                Some((if suffix >= total { 0 } else { (total - suffix) as u64 }, (total - 1) as u64))
            },
        }
    } else {
        match parse_u64(first) {
            None => None,
            Some(start) => if start >= total {
                None
            } else {
                let end = if last.len() == 0 {
                    Some((total - 1) as u64)
                } else {
                    match parse_u64(last) {
                        None => None,
                        Some(e) => Some(if e < total - 1 { e } else { (total - 1) as u64 }),
                    }
                };
                match end {
                    None => None,
                    Some(e) => if e < start {
                        None
                    } else {
                        Some((start, e))
                    },
                }
            },
        }
    }
}

/// A suffix range `bytes=-n` asks for the last `n` bytes, or the whole file when it is
/// shorter; `bytes=-0` cannot be served.
pub proof fn law_suffix_range(last: Seq<char>, total: u64)
    requires
        total > 0,
    ensures
        match parse_u64(last) {
            Some(n) => if n > 0 {
                range_of_bounds(Seq::empty(), last, total) == Some(
                    (
                        (total - (if n < total {
                            n as int
                        } else {
                            total as int
                        })) as u64,
                        (total - 1) as u64,
                    ),
                )
            } else {
                range_of_bounds(Seq::empty(), last, total) is None
            },
            None => range_of_bounds(Seq::empty(), last, total) is None,
        },
{
}

/// An explicit range is served as asked when it lies within the file, cut at the end
/// of the file when it runs past it, and refused when it starts past the end or ends
/// before it starts.
pub proof fn law_explicit_range(first: Seq<char>, last: Seq<char>, total: u64)
    requires
        total > 0,
        first.len() > 0,
        last.len() > 0,
    ensures
        match (parse_u64(first), parse_u64(last)) {
            (Some(s), Some(e)) => range_of_bounds(first, last, total) == (if s < total && s <= e {
                Some((s, if e < total - 1 { e } else { (total - 1) as u64 }))
            } else {
                None
            }),
            _ => range_of_bounds(first, last, total) is None,
        },
{
}

/// An open-ended range `bytes=N-` asks for everything from byte `N` to the end of the
/// file, and can be served exactly when `N` lies within the file.
pub proof fn law_open_ended_range(first: Seq<char>, total: u64)
    requires
        total > 0,
    ensures
        parse_u64(first) matches Some(n) ==> range_of_bounds(first, Seq::empty(), total) == (if n
            < total {
            Some((n, (total - 1) as u64))
        } else {
            None
        }),
{
    if let Some(n) = parse_u64(first) {
        assert(first.len() > 0);
    }
}

/// Every range served lies within the file and runs forward.
pub proof fn law_served_range_within_file(first: Seq<char>, last: Seq<char>, total: u64)
    requires
        total > 0,
    ensures
        range_of_bounds(first, last, total) matches Some((a, b)) ==> a <= b < total,
{
}

/// A request without a `Range:` line asks for the whole file.
pub proof fn law_no_range_whole_file(req: Seq<char>, total: u64)
    requires
        total > 0,
        forall|i: int| 0 <= i < lines(req).len() ==> !starts_with(#[trigger] lines(req)[i], "Range:"@),
    ensures
        requested_range(req, total) == Some((0u64, (total - 1) as u64)),
{
    lemma_no_prefixed_line(lines(req), "Range:"@);
}

proof fn lemma_no_prefixed_line(ls: Seq<Seq<char>>, p: Seq<char>)
    requires
        forall|i: int| 0 <= i < ls.len() ==> !starts_with(#[trigger] ls[i], p),
    ensures
        first_with_prefix(ls, p) is None,
    decreases ls.len(),
{
    if ls.len() > 0 {
        assert(!starts_with(ls[0], p));
        assert forall|i: int| 0 <= i < ls.drop_first().len() implies !starts_with(
            #[trigger] ls.drop_first()[i],
            p,
        ) by {
            assert(ls.drop_first()[i] == ls[i + 1]);
        }
        lemma_no_prefixed_line(ls.drop_first(), p);
    }
}

fn trim_start_matches_chars(s: &[char], p: &[char]) -> (r: Vec<char>)
    ensures
        r@ == trim_start_matches(s@, p@),
{
    let mut cur: Vec<char> = slice_chars(s, 0, s.len());
    assert(s@.subrange(0, s@.len() as int) =~= s@);
    while p.len() > 0 && starts_with_chars(&cur, p)
        invariant
            trim_start_matches(s@, p@) == trim_start_matches(cur@, p@),
        decreases cur@.len(),
    {
        cur = slice_chars(&cur, p.len(), cur.len());
    }
    cur
}

fn first_line_with_prefix(ls: &Vec<Vec<char>>, p: &[char]) -> (r: Option<Vec<char>>)
    ensures
        r matches Some(l) ==> first_with_prefix(ls@.map_values(|l: Vec<char>| l@), p@) == Some(
            l@,
        ),
        r is None ==> first_with_prefix(ls@.map_values(|l: Vec<char>| l@), p@) is None,
{
    let ghost all = ls@.map_values(|l: Vec<char>| l@);
    let mut i: usize = 0;
    assert(all.skip(0) =~= all);
    while i < ls.len()
        invariant
            i <= ls.len(),
            all == ls@.map_values(|l: Vec<char>| l@),
            first_with_prefix(all, p@) == first_with_prefix(all.skip(i as int), p@),
        decreases ls.len() - i,
    {
        assert(all.skip(i as int)[0] == ls@[i as int]@);
        if starts_with_chars(&ls[i], p) {
            return Some(ls[i].clone());
        }
        assert(all.skip(i as int).drop_first() =~= all.skip(i + 1));
        i = i + 1;
    }
    None
}

fn range_of_bounds_exec(first: &[char], last: &[char], total: u64) -> (r: Option<(u64, u64)>)
    requires
        total > 0,
    ensures
        r == range_of_bounds(first@, last@, total),
{
    if first.len() == 0 {
        let suffix = match parse_u64_chars(last) {
            Some(n) => n,
            None => return None,
        };
        if suffix == 0 {
            return None;
        }
        let start = total.saturating_sub(suffix);
        return Some((start, total - 1));
    }
    let start = match parse_u64_chars(first) {
        Some(n) => n,
        None => return None,
    };
    if start >= total {
        return None;
    }
    let end = if last.len() == 0 {
        total - 1
    } else {
        match parse_u64_chars(last) {
            Some(e) => if e < total - 1 {
                e
            } else {
                total - 1
            },
            None => return None,
        }
    };
    if end < start {
        return None;
    }
    Some((start, end))
}

/// The byte range a request asks for, or `None` when it cannot be served. Without a
/// `Range:` line the whole file is asked for.
pub fn parse_range_header(req: &str, total: u64) -> (r: Option<(u64, u64)>)
    requires
        total > 0,
    ensures
        r == requested_range(req@, total),
        r matches Some((start, end)) ==> start <= end < total,
{
    let ls = lines_of_str(req);
    let prefix = chars_of("Range:");
    proof {
        assert(ls@.map_values(|l: Vec<char>| l@) =~= lines(req@));
    }
    let line = match first_line_with_prefix(&ls, &prefix) {
        Some(l) => l,
        None => return Some((0, total - 1)),
    };
    let stripped = trim_start_matches_chars(&line, &prefix);
    let range = trim_chars(&stripped);
    let spec_part = match strip_prefix_str(&range, "bytes=") {
        Some(v) => v,
        None => return None,
    };
    match split_once_chars(&spec_part, '-') {
        Some((first, last)) => range_of_bounds_exec(&first, &last, total),
        None => None,
    }
}

/// What the video server answers to one request.
pub struct VideoReply {
    /// The status line and headers, blank line included.
    pub header: String,
    /// The inclusive byte range of the file to send after the header, if any.
    pub body: Option<(u64, u64)>,
}

/// The first whitespace-separated word of `s`, as `split_whitespace().next()` gives it.
pub open spec fn first_word(s: Seq<char>) -> Option<Seq<char>> {
    let t = trim_start(s);
    if t.len() == 0 {
        None
    } else {
        Some(t.take(word_end(t, 0)))
    }
}

/// Index of the first whitespace character of `t` at or after `i`, or its length.
pub open spec fn word_end(t: Seq<char>, i: int) -> int
    decreases t.len() - i,
{
    if i >= t.len() || i < 0 {
        t.len() as int
    } else if is_white_space(t[i]) {
        i
    } else {
        word_end(t, i + 1)
    }
}

proof fn lemma_word_end(t: Seq<char>, i: int)
    requires
        0 <= i <= t.len(),
    ensures
        i <= word_end(t, i) <= t.len(),
    decreases t.len() - i,
{
    if i < t.len() && !is_white_space(t[i]) {
        lemma_word_end(t, i + 1);
    }
}

pub fn first_word_chars(s: &[char]) -> (r: Option<Vec<char>>)
    ensures
        r matches Some(w) ==> first_word(s@) == Some(w@) && w@.len() <= s@.len(),
        r is None ==> first_word(s@) is None,
{
    let i = trim_start_index(s);
    if i == s.len() {
        return None;
    }
    let t = slice_chars(s, i, s.len());
    let mut j: usize = 0;
    assert(word_end(t@, 0) == word_end(t@, j as int));
    while j < t.len() && !is_white_space_char(t[j])
        invariant
            j <= t.len(),
            word_end(t@, 0) == word_end(t@, j as int),
        decreases t.len() - j,
    {
        j = j + 1;
    }
    Some(slice_chars(&t, 0, j))
}

/// The request method: the first word of the request, `GET` when there is none.
pub open spec fn request_method(req: Seq<char>) -> Seq<char> {
    match first_word(req) {
        Some(w) => w,
        None => "GET"@,
    }
}

pub open spec fn header_not_allowed() -> Seq<char> {
    "HTTP/1.1 405 Method Not Allowed\r\nContent-Length: 0\r\n\r\n"@
}

pub open spec fn header_unsatisfiable(total: u64) -> Seq<char> {
    "HTTP/1.1 416 Range Not Satisfiable\r\nContent-Range: bytes */"@ + decimal(total as nat)
        + "\r\nContent-Length: 0\r\nAccept-Ranges: bytes\r\n\r\n"@
}

pub open spec fn header_partial(start: u64, end: u64, total: u64) -> Seq<char> {
    "HTTP/1.1 206 Partial Content\r\nContent-Type: video/mp4\r\nContent-Range: bytes "@
        + decimal(start as nat) + "-"@ + decimal(end as nat) + "/"@ + decimal(total as nat)
        + "\r\nContent-Length: "@ + decimal((end - start + 1) as nat)
        + "\r\nAccess-Control-Allow-Origin: *\r\nAccept-Ranges: bytes\r\n\r\n"@
}

pub open spec fn header_full(total: u64) -> Seq<char> {
    "HTTP/1.1 200 OK\r\nContent-Type: video/mp4\r\nContent-Length: "@ + decimal(total as nat)
        + "\r\nAccess-Control-Allow-Origin: *\r\nAccept-Ranges: bytes\r\n\r\n"@
}

/// The reply to `req` for a file of `total` bytes: 405 for a method other than `GET`
/// or `HEAD`, 416 for a range that cannot be served, 200 for the whole file and 206
/// for part of it; a `HEAD` request gets the header alone.
pub fn video_reply(req: &str, total: u64) -> (r: VideoReply)
    requires
        total > 0,
    ensures
        !(request_method(req@) == "GET"@ || request_method(req@) == "HEAD"@) ==> r.header@
            == header_not_allowed() && r.body is None,
        (request_method(req@) == "GET"@ || request_method(req@) == "HEAD"@) ==> match requested_range(
            req@,
            total,
        ) {
            None => r.header@ == header_unsatisfiable(total) && r.body is None,
            Some((start, end)) => {
                &&& r.header@ == (if start != 0 || end != total - 1 {
                    header_partial(start, end, total)
                } else {
                    header_full(total)
                })
                &&& r.body == (if request_method(req@) == "HEAD"@ {
                    None
                } else {
                    Some((start, end))
                })
            },
        },
{
    let rv = chars_of(req);
    let method: Vec<char> = match first_word_chars(&rv) {
        Some(w) => w,
        None => chars_of("GET"),
    };
    let get = chars_of("GET");
    let head = chars_of("HEAD");
    let is_get = chars_equal(&method, &get);
    let is_head = chars_equal(&method, &head);
    let mut h: Vec<char> = Vec::new();
    if !is_get && !is_head {
        push_str(&mut h, "HTTP/1.1 405 Method Not Allowed\r\nContent-Length: 0\r\n\r\n");
        return VideoReply { header: string_of(&h), body: None };
    }
    match parse_range_header(req, total) {
        None => {
            push_str(&mut h, "HTTP/1.1 416 Range Not Satisfiable\r\nContent-Range: bytes */");
            push_decimal(&mut h, total);
            push_str(&mut h, "\r\nContent-Length: 0\r\nAccept-Ranges: bytes\r\n\r\n");
            VideoReply { header: string_of(&h), body: None }
        },
        Some((start, end)) => {
            let length = end - start + 1;
            if start != 0 || end != total - 1 {
                push_str(
                    &mut h,
                    "HTTP/1.1 206 Partial Content\r\nContent-Type: video/mp4\r\nContent-Range: bytes ",
                );
                push_decimal(&mut h, start);
                push_str(&mut h, "-");
                push_decimal(&mut h, end);
                push_str(&mut h, "/");
                push_decimal(&mut h, total);
                push_str(&mut h, "\r\nContent-Length: ");
                push_decimal(&mut h, length);
                push_str(&mut h, "\r\nAccess-Control-Allow-Origin: *\r\nAccept-Ranges: bytes\r\n\r\n");
            } else {
                push_str(&mut h, "HTTP/1.1 200 OK\r\nContent-Type: video/mp4\r\nContent-Length: ");
                push_decimal(&mut h, total);
                push_str(&mut h, "\r\nAccess-Control-Allow-Origin: *\r\nAccept-Ranges: bytes\r\n\r\n");
            }
            let body = if is_head {
                None
            } else {
                Some((start, end))
            };
            VideoReply { header: string_of(&h), body }
        },
    }
}

} // verus!

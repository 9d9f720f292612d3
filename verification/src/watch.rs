//! Deciding which file events of the clips directory name a new clip: a file that was
//! handled in the last minute is skipped, and files not seen for five minutes are
//! forgotten.
use vstd::prelude::*;

verus! {

/// Events for a file handled less than this long ago (in nanoseconds) are skipped.
pub const REPEAT_WINDOW_NANOS: u128 = 60_000_000_000;

/// Files not seen for this long (in nanoseconds) are forgotten.
pub const FORGET_AFTER_NANOS: u128 = 300_000_000_000;

/// The time from `then` to `now`, zero when `then` is later (as `Instant::elapsed`).
pub open spec fn elapsed(now: u128, then: u128) -> u128 {
    if now >= then {
        (now - then) as u128
    } else {
        0
    }
}

/// When the file `key` was last handled, according to the remembered `(file, time)`
/// pairs.
pub open spec fn last_seen(s: Seq<(Seq<char>, u128)>, key: Seq<char>) -> Option<u128>
    decreases s.len(),
{
    if s.len() == 0 {
        None
    } else if s.last().0 == key {
        Some(s.last().1)
    } else {
        last_seen(s.drop_last(), key)
    }
}

/// Is an event for `key` at `now` handled? Yes unless the file was handled less than
/// a minute before.
pub open spec fn handles(s: Seq<(Seq<char>, u128)>, key: Seq<char>, now: u128) -> bool {
    match last_seen(s, key) {
        Some(t) => elapsed(now, t) >= REPEAT_WINDOW_NANOS,
        None => true,
    }
}

/// The remembered files other than `key` seen less than five minutes before `now`.
pub open spec fn kept_others(s: Seq<(Seq<char>, u128)>, key: Seq<char>, now: u128) -> Seq<
    (Seq<char>, u128),
>
    decreases s.len(),
{
    if s.len() == 0 {
        s
    } else {
        let rest = kept_others(s.drop_last(), key, now);
        if s.last().0 != key && elapsed(now, s.last().1) < FORGET_AFTER_NANOS {
            rest.push(s.last())
        } else {
            rest
        }
    }
}

/// What is remembered after an event for `key` at `now`: unchanged when it is skipped;
/// else `key` at `now`, with the files not seen for five minutes forgotten.
pub open spec fn after_event(s: Seq<(Seq<char>, u128)>, key: Seq<char>, now: u128) -> Seq<
    (Seq<char>, u128),
> {
    if handles(s, key, now) {
        kept_others(s, key, now).push((key, now))
    } else {
        s
    }
}

proof fn lemma_kept_others(s: Seq<(Seq<char>, u128)>, key: Seq<char>, now: u128)
    ensures
        forall|i: int|
            0 <= i < kept_others(s, key, now).len() ==> #[trigger] kept_others(s, key, now)[i].0
                != key && elapsed(now, kept_others(s, key, now)[i].1) < FORGET_AFTER_NANOS,
    decreases s.len(),
{
    if s.len() > 0 {
        lemma_kept_others(s.drop_last(), key, now);
        let rest = kept_others(s.drop_last(), key, now);
        let k = kept_others(s, key, now);
        assert forall|i: int| 0 <= i < k.len() implies #[trigger] k[i].0 != key && elapsed(
            now,
            k[i].1,
        ) < FORGET_AFTER_NANOS by {
            if i < rest.len() {
                assert(k[i] == rest[i]);
            }
        }
    }
}

/// A file handled at `now` is skipped when it shows up again within a minute, and is
/// handled again once a minute has passed; whatever else is remembered was seen less
/// than five minutes before `now`.
pub proof fn law_repeat_within_window_skipped(
    s: Seq<(Seq<char>, u128)>,
    key: Seq<char>,
    now: u128,
    later: u128,
)
    requires
        handles(s, key, now),
    ensures
        last_seen(after_event(s, key, now), key) == Some(now),
        handles(after_event(s, key, now), key, later) <==> elapsed(later, now)
            >= REPEAT_WINDOW_NANOS,
        forall|i: int|
            0 <= i < after_event(s, key, now).len() ==> elapsed(
                now,
                #[trigger] after_event(s, key, now)[i].1,
            ) < FORGET_AFTER_NANOS,
{
    lemma_kept_others(s, key, now);
    let a = after_event(s, key, now);
    assert(a.drop_last() == kept_others(s, key, now));
    assert forall|i: int| 0 <= i < a.len() implies elapsed(now, #[trigger] a[i].1)
        < FORGET_AFTER_NANOS by {
        if i < a.len() - 1 {
            assert(a[i] == kept_others(s, key, now)[i]);
            assert(kept_others(s, key, now)[i].0 != key);
        } else {
            assert(a[i] == (key, now));
        }
    }
}

proof fn lemma_kept_others_keeps_recent(
    s: Seq<(Seq<char>, u128)>,
    key: Seq<char>,
    now: u128,
    other: Seq<char>,
    t: u128,
)
    requires
        other != key,
        last_seen(s, other) == Some(t),
        elapsed(now, t) < FORGET_AFTER_NANOS,
    ensures
        last_seen(kept_others(s, key, now), other) == Some(t),
    decreases s.len(),
{
    let rest = kept_others(s.drop_last(), key, now);
    if s.last().0 == other {
        assert(kept_others(s, key, now) == rest.push(s.last()));
    } else {
        lemma_kept_others_keeps_recent(s.drop_last(), key, now, other, t);
        if s.last().0 != key && elapsed(now, s.last().1) < FORGET_AFTER_NANOS {
            assert(kept_others(s, key, now).drop_last() == rest);
        }
    }
}

/// Handling a file forgets no other file handled less than five minutes before: its
/// last time is still remembered, so a repeat event for it within a minute is still
/// skipped. A skipped event changes nothing.
pub proof fn law_handling_keeps_recent_files(
    s: Seq<(Seq<char>, u128)>,
    key: Seq<char>,
    now: u128,
    other: Seq<char>,
    t: u128,
)
    requires
        other != key,
        last_seen(s, other) == Some(t),
        elapsed(now, t) < FORGET_AFTER_NANOS,
    ensures
        last_seen(after_event(s, key, now), other) == Some(t),
        !handles(s, key, now) ==> after_event(s, key, now) == s,
{
    if handles(s, key, now) {
        lemma_kept_others_keeps_recent(s, key, now, other, t);
        let k = kept_others(s, key, now);
        assert(k.push((key, now)).drop_last() == k);
    }
}

/// The files of the clips directory handled recently.
pub struct RecentClips {
    seen: Vec<(String, u128)>,
}

impl View for RecentClips {
    type V = Seq<(Seq<char>, u128)>;

    closed spec fn view(&self) -> Seq<(Seq<char>, u128)> {
        self.seen@.map_values(|e: (String, u128)| (e.0@, e.1))
    }
}

impl RecentClips {
    /// Nothing seen yet.
    pub fn new() -> (r: RecentClips)
        ensures
            r@ == Seq::<(Seq<char>, u128)>::empty(),
    {
        let r = RecentClips { seen: Vec::new() };
        assert(r@ =~= Seq::<(Seq<char>, u128)>::empty());
        r
    }

    /// Records an event for the file `key` at time `now` (nanoseconds on a monotonic
    /// clock) and says whether it is handled.
    pub fn observe(&mut self, key: &str, now: u128) -> (handled: bool)
        ensures
            handled == handles(old(self)@, key@, now),
            final(self)@ == after_event(old(self)@, key@, now),
    {
        let ghost v = self@;
        let wanted = key.to_owned();
        let mut last: Option<u128> = None;
        let mut i: usize = 0;
        assert(v.take(0) =~= Seq::<(Seq<char>, u128)>::empty());
        while i < self.seen.len()
            invariant
                i <= self.seen.len(),
                v == self@,
                wanted@ == key@,
                last == last_seen(v.take(i as int), key@),
            decreases self.seen.len() - i,
        {
            assert(v.take(i + 1).drop_last() =~= v.take(i as int));
            assert(v.take(i + 1).last() == v[i as int]);
            if self.seen[i].0 == wanted {
                last = Some(self.seen[i].1);
            }
            i = i + 1;
        }
        assert(v.take(v.len() as int) =~= v);
        let handled = match last {
            Some(t) => {
                let e: u128 = if now >= t {
                    now - t
                } else {
                    0
                };
                e >= REPEAT_WINDOW_NANOS
            },
            None => true,
        };
        if !handled {
            return false;
        }
        let mut kept: Vec<(String, u128)> = Vec::new();
        let mut j: usize = 0;
        while j < self.seen.len()
            invariant
                j <= self.seen.len(),
                v == self@,
                wanted@ == key@,
                kept@.map_values(|e: (String, u128)| (e.0@, e.1)) == kept_others(
                    v.take(j as int),
                    key@,
                    now,
                ),
            decreases self.seen.len() - j,
        {
            assert(v.take(j + 1).drop_last() =~= v.take(j as int));
            assert(v.take(j + 1).last() == v[j as int]);
            let t = self.seen[j].1;
            let e: u128 = if now >= t {
                now - t
            } else {
                0
            };
            if !(self.seen[j].0 == wanted) && e < FORGET_AFTER_NANOS {
                let ghost before = kept@;
                kept.push((self.seen[j].0.clone(), t));
                assert(kept@.map_values(|e: (String, u128)| (e.0@, e.1)) =~= before.map_values(
                    |e: (String, u128)| (e.0@, e.1),
                ).push(v[j as int]));
            }
            j = j + 1;
        }
        let ghost before = kept@;
        kept.push((wanted, now));
        assert(kept@.map_values(|e: (String, u128)| (e.0@, e.1)) =~= before.map_values(
            |e: (String, u128)| (e.0@, e.1),
        ).push((key@, now)));
        self.seen = kept;
        true
    }
}

} // verus!

//! The retriggerable playback scheduler: a time-ordered queue of pending
//! note-on events plus a per-pitch "sounding until" table for the display.
//!
//! [`Scheduler::schedule_chord`] replaces the whole queue with the new
//! chord's entries, so an in-flight arpeggio is always superseded.
//! [`Scheduler::tick`] pops every entry already due and reports which pitches
//! to trigger; the host performs the actual audio side effects.

use vstd::arithmetic::mul::lemma_mul_inequality;
use vstd::prelude::*;

use crate::note::Key;

verus! {

/// A queued note-on event: `key` should be triggered once the clock has
/// passed `time`.
#[derive(Clone, Copy, Debug, PartialEq, Eq, Structural)]
pub struct PendingSound {
    pub key: Key,
    pub time: u32,
}

/// Hold time of a triggered pitch, in clock ticks: once triggered at `t`, a
/// pitch counts as sounding until `t + 3000`.
pub const SOUNDING_TICKS: u32 = 3000;

/// First-match lookup in an association list from pitch to expiry tick.
pub open spec fn spec_lookup(entries: Seq<(Key, u32)>, key: Key) -> Option<u32>
    decreases entries.len(),
{
    if entries.len() == 0 {
        None
    } else if entries[0].0 == key {
        Some(entries[0].1)
    } else {
        spec_lookup(entries.skip(1), key)
    }
}

/// Whether the scheduled times of a queue never decrease from front to back.
pub open spec fn times_sorted(s: Seq<PendingSound>) -> bool {
    forall|i: int, j: int|
        0 <= i <= j < s.len() ==> #[trigger] s[i].time <= #[trigger] s[j].time
}

/// The queue that scheduling a chord produces: one entry per pitch, in pitch
/// order, the i-th due at `now + i * delay`.
pub open spec fn chord_schedule(keys: Seq<Key>, delay: u32, now: u32) -> Seq<PendingSound>
    recommends
        keys.len() == 0 || now + (keys.len() - 1) * delay <= u32::MAX,
{
    Seq::new(keys.len(), |i: int| PendingSound { key: keys[i], time: (now + i * delay) as u32 })
}

/// How many entries at the front of the queue are strictly past due at `now`.
pub open spec fn due_count(s: Seq<PendingSound>, now: u32) -> nat
    decreases s.len(),
{
    if s.len() == 0 {
        0
    } else if s[0].time >= now {
        0
    } else {
        1 + due_count(s.skip(1), now)
    }
}

/// The due prefix never reaches past the end of the queue.
pub proof fn lemma_due_count_le_len(s: Seq<PendingSound>, now: u32)
    ensures
        due_count(s, now) <= s.len(),
    decreases s.len(),
{
    if s.len() > 0 && s[0].time < now {
        lemma_due_count_le_len(s.skip(1), now);
    }
}

/// The due prefix is exactly the run of entries with `time < now` at the
/// front of the queue.
pub proof fn lemma_due_count_prefix(s: Seq<PendingSound>, now: u32, k: int)
    requires
        0 <= k <= s.len(),
        forall|i: int| 0 <= i < k ==> #[trigger] s[i].time < now,
        k == s.len() || s[k].time >= now,
    ensures
        due_count(s, now) == k,
    decreases k,
{
    if k == 0 {
    } else {
        assert(s[0].time < now);
        assert forall|i: int| 0 <= i < k - 1 implies #[trigger] s.skip(1)[i].time < now by {
            assert(s.skip(1)[i] == s[i + 1]);
        }
        if k < s.len() {
            assert(s.skip(1)[k - 1] == s[k]);
        }
        lemma_due_count_prefix(s.skip(1), now, k - 1);
    }
}

/// First-match lookup returns the entry at the first matching index.
proof fn lemma_lookup_first_match(s: Seq<(Key, u32)>, key: Key, i: int)
    requires
        0 <= i < s.len(),
        s[i].0 == key,
        forall|j: int| 0 <= j < i ==> (#[trigger] s[j]).0 != key,
    ensures
        spec_lookup(s, key) == Some(s[i].1),
    decreases i,
{
    if i == 0 {
    } else {
        assert(s[0].0 != key);
        assert forall|j: int| 0 <= j < i - 1 implies (#[trigger] s.skip(1)[j]).0 != key by {
            assert(s.skip(1)[j] == s[j + 1]);
        }
        assert(s.skip(1)[i - 1] == s[i]);
        lemma_lookup_first_match(s.skip(1), key, i - 1);
    }
}

/// When no entry matches, first-match lookup finds nothing.
proof fn lemma_lookup_none(s: Seq<(Key, u32)>, key: Key)
    requires
        forall|j: int| 0 <= j < s.len() ==> (#[trigger] s[j]).0 != key,
    ensures
        spec_lookup(s, key) is None,
    decreases s.len(),
{
    if s.len() > 0 {
        assert forall|j: int| 0 <= j < s.len() - 1 implies (#[trigger] s.skip(1)[j]).0 != key by {
            assert(s.skip(1)[j] == s[j + 1]);
        }
        lemma_lookup_none(s.skip(1), key);
    }
}

/// Overwriting the first matching entry in place rebinds exactly that pitch.
proof fn lemma_lookup_update(s: Seq<(Key, u32)>, i: int, key: Key, until: u32)
    requires
        0 <= i < s.len(),
        s[i].0 == key,
        forall|j: int| 0 <= j < i ==> (#[trigger] s[j]).0 != key,
    ensures
        spec_lookup(s.update(i, (key, until)), key) == Some(until),
        forall|k: Key|
            k != key ==> spec_lookup(s.update(i, (key, until)), k) == spec_lookup(s, k),
    decreases i,
{
    let s2 = s.update(i, (key, until));
    if i == 0 {
        assert(s2[0] == (key, until));
        assert(s2.skip(1) =~= s.skip(1));
        assert forall|k: Key| k != key implies spec_lookup(s2, k) == spec_lookup(s, k) by {
            assert(spec_lookup(s2, k) == spec_lookup(s2.skip(1), k));
            assert(spec_lookup(s, k) == spec_lookup(s.skip(1), k));
        }
    } else {
        assert(s2[0] == s[0]);
        assert(s2.skip(1) =~= s.skip(1).update(i - 1, (key, until)));
        assert forall|j: int| 0 <= j < i - 1 implies (#[trigger] s.skip(1)[j]).0 != key by {
            assert(s.skip(1)[j] == s[j + 1]);
        }
        assert(s.skip(1)[i - 1] == s[i]);
        lemma_lookup_update(s.skip(1), i - 1, key, until);
        assert(spec_lookup(s2, key) == spec_lookup(s2.skip(1), key));
        assert forall|k: Key| k != key implies spec_lookup(s2, k) == spec_lookup(s, k) by {
            if s[0].0 == k {
                assert(spec_lookup(s2, k) == Some(s2[0].1));
                assert(spec_lookup(s, k) == Some(s[0].1));
            } else {
                assert(spec_lookup(s2, k) == spec_lookup(s2.skip(1), k));
                assert(spec_lookup(s, k) == spec_lookup(s.skip(1), k));
            }
        }
    }
}

/// Appending a binding for an absent pitch adds exactly that binding.
proof fn lemma_lookup_push(s: Seq<(Key, u32)>, key: Key, until: u32)
    requires
        forall|j: int| 0 <= j < s.len() ==> (#[trigger] s[j]).0 != key,
    ensures
        spec_lookup(s.push((key, until)), key) == Some(until),
        forall|k: Key| k != key ==> spec_lookup(s.push((key, until)), k) == spec_lookup(s, k),
    decreases s.len(),
{
    let s2 = s.push((key, until));
    if s.len() == 0 {
        assert(s2[0] == (key, until));
        assert(s2.skip(1) =~= Seq::<(Key, u32)>::empty());
        assert forall|k: Key| k != key implies spec_lookup(s2, k) == spec_lookup(s, k) by {
            assert(spec_lookup(s2, k) == spec_lookup(s2.skip(1), k));
        }
    } else {
        assert(s2[0] == s[0]);
        assert(s2.skip(1) =~= s.skip(1).push((key, until)));
        assert forall|j: int| 0 <= j < s.len() - 1 implies (#[trigger] s.skip(1)[j]).0 != key by {
            assert(s.skip(1)[j] == s[j + 1]);
        }
        lemma_lookup_push(s.skip(1), key, until);
        assert(s[0].0 != key);
        assert(spec_lookup(s2, key) == spec_lookup(s2.skip(1), key));
        assert forall|k: Key| k != key implies spec_lookup(s2, k) == spec_lookup(s, k) by {
            if s[0].0 == k {
                assert(spec_lookup(s2, k) == Some(s2[0].1));
                assert(spec_lookup(s, k) == Some(s[0].1));
            } else {
                assert(spec_lookup(s2, k) == spec_lookup(s2.skip(1), k));
                assert(spec_lookup(s, k) == spec_lookup(s.skip(1), k));
            }
        }
    }
}

/// Rebinds `key` to `until`, overwriting the first matching entry or
/// appending one, and leaves every other pitch's binding unchanged.
fn table_insert(entries: &mut Vec<(Key, u32)>, key: Key, until: u32)
    ensures
        spec_lookup(final(entries)@, key) == Some(until),
        forall|k: Key|
            k != key ==> spec_lookup(final(entries)@, k) == spec_lookup(old(entries)@, k),
{
    let mut i: usize = 0;
    while i < entries.len()
        invariant
            i <= entries@.len(),
            entries@ == old(entries)@,
            forall|j: int| 0 <= j < i ==> (#[trigger] entries@[j]).0 != key,
        decreases entries@.len() - i,
    {
        if entries[i].0 == key {
            proof {
                lemma_lookup_update(entries@, i as int, key, until);
            }
            entries.set(i, (key, until));
            return ;
        }
        i += 1;
    }
    proof {
        lemma_lookup_push(entries@, key, until);
    }
    entries.push((key, until));
}

/// The playback scheduler. It owns the pending-trigger queue and the
/// sounding-state table exclusively; the host only observes them through
/// [`Scheduler::tick`] and [`Scheduler::is_sounding`].
pub struct Scheduler {
    queue: Vec<PendingSound>,
    sounding: Vec<(Key, u32)>,
}

impl Scheduler {
    /// The queue of pending triggers, front first.
    pub closed spec fn pending(self) -> Seq<PendingSound> {
        self.queue@
    }

    /// The recorded expiry tick of a pitch, if it was ever triggered.
    pub closed spec fn sounding_until(self, key: Key) -> Option<u32> {
        spec_lookup(self.sounding@, key)
    }

    /// The scheduler invariant: the queue is ordered by scheduled time, so a
    /// single forward scan from the front finds every due entry.
    pub open spec fn wf(self) -> bool {
        times_sorted(self.pending())
    }

    /// Whether `key` counts as sounding at tick `now`: a pitch with no
    /// recorded expiry defaults to not sounding.
    pub open spec fn spec_is_sounding(self, key: Key, now: u32) -> bool {
        match self.sounding_until(key) {
            Some(t) => now < t,
            None => false,
        }
    }

    /// A scheduler with an empty queue and no pitch sounding.
    pub fn new() -> (s: Scheduler)
        ensures
            s.wf(),
            s.pending() == Seq::<PendingSound>::empty(),
            forall|k: Key| s.sounding_until(k) is None,
    {
        Scheduler { queue: Vec::new(), sounding: Vec::new() }
    }

    /// Cancels every queued-but-untriggered entry and enqueues one trigger
    /// per pitch of `keys`, the i-th due at `now + i * delay`; with a zero
    /// delay all entries share `now`. Already-triggered sounding state is
    /// kept; silencing the audio channels on a retrigger is the host's side
    /// of the contract.
    pub fn schedule_chord(&mut self, keys: &Vec<Key>, delay: u32, now: u32)
        requires
            keys@.len() == 0 || now + (keys@.len() - 1) * delay <= u32::MAX,
        ensures
            final(self).wf(),
            final(self).pending() == chord_schedule(keys@, delay, now),
            forall|k: Key| final(self).sounding_until(k) == old(self).sounding_until(k),
    {
        self.queue.clear();
        let mut t: u32 = now;
        let mut i: usize = 0;
        while i < keys.len()
            invariant
                i <= keys@.len(),
                keys@.len() == 0 || now + (keys@.len() - 1) * delay <= u32::MAX,
                i < keys@.len() ==> t as int == now + i * delay,
                self.queue@.len() == i as int,
                forall|j: int|
                    0 <= j < i ==> #[trigger] self.queue@[j] == chord_schedule(
                        keys@,
                        delay,
                        now,
                    )[j],
                self.sounding@ == old(self).sounding@,
            decreases keys@.len() - i,
        {
            self.queue.push(PendingSound { key: keys[i], time: t });
            proof {
                assert(self.queue@[i as int] == chord_schedule(keys@, delay, now)[i as int]);
            }
            i += 1;
            if i < keys.len() {
                proof {
                    lemma_mul_inequality(i as int, keys@.len() - 1, delay as int);
                    assert((i as int) * delay == (i as int - 1) * delay + delay)
                        by (nonlinear_arith);
                }
                t = t + delay;
            }
        }
        proof {
            assert(self.queue@ =~= chord_schedule(keys@, delay, now));
            assert forall|a: int, b: int|
                0 <= a <= b < self.queue@.len() implies #[trigger] self.queue@[a].time
                <= #[trigger] self.queue@[b].time by {
                lemma_mul_inequality(a, keys@.len() - 1, delay as int);
                lemma_mul_inequality(b, keys@.len() - 1, delay as int);
                lemma_mul_inequality(a, b, delay as int);
            }
        }
    }

    /// Pops every entry whose scheduled time is strictly past at `now`, in
    /// queue order, records each popped pitch as sounding until
    /// `now + SOUNDING_TICKS`, and returns the popped pitches so the host
    /// can trigger their samples. Entries not yet due stay queued.
    pub fn tick(&mut self, now: u32) -> (fired: Vec<Key>)
        requires
            old(self).wf(),
            now + SOUNDING_TICKS <= u32::MAX,
        ensures
            final(self).wf(),
            fired@.len() == due_count(old(self).pending(), now),
            forall|i: int|
                0 <= i < fired@.len() ==> #[trigger] fired@[i] == old(self).pending()[i].key,
            final(self).pending() == old(self).pending().skip(fired@.len() as int),
            forall|i: int|
                fired@.len() <= i < old(self).pending().len() ==> #[trigger] old(
                    self,
                ).pending()[i].time >= now,
            forall|k: Key|
                fired@.contains(k) ==> final(self).sounding_until(k) == Some(
                    (now + SOUNDING_TICKS) as u32,
                ),
            forall|k: Key|
                !fired@.contains(k) ==> final(self).sounding_until(k) == old(
                    self,
                ).sounding_until(k),
    {
        let mut fired: Vec<Key> = Vec::new();
        while self.queue.len() > 0 && self.queue[0].time < now
            invariant
                now + SOUNDING_TICKS <= u32::MAX,
                times_sorted(old(self).queue@),
                fired@.len() <= old(self).queue@.len(),
                self.queue@ == old(self).queue@.skip(fired@.len() as int),
                forall|i: int|
                    0 <= i < fired@.len() ==> #[trigger] fired@[i] == old(self).queue@[i].key,
                forall|i: int| 0 <= i < fired@.len() ==> #[trigger] old(self).queue@[i].time < now,
                forall|k: Key|
                    fired@.contains(k) ==> spec_lookup(self.sounding@, k) == Some(
                        (now + SOUNDING_TICKS) as u32,
                    ),
                forall|k: Key|
                    !fired@.contains(k) ==> spec_lookup(self.sounding@, k) == spec_lookup(
                        old(self).sounding@,
                        k,
                    ),
            decreases self.queue@.len(),
        {
            let ghost fired_before = fired@;
            let ghost n = fired@.len() as int;
            let p = self.queue.remove(0);
            fired.push(p.key);
            table_insert(&mut self.sounding, p.key, now + SOUNDING_TICKS);
            proof {
                assert(p == old(self).queue@[n]);
                assert(self.queue@ =~= old(self).queue@.skip(n + 1));
                assert(fired@ == fired_before.push(p.key));
                assert(fired@[n] == p.key);
                assert forall|k: Key| #[trigger]
                    fired@.contains(k) implies spec_lookup(self.sounding@, k) == Some(
                    (now + SOUNDING_TICKS) as u32,
                ) by {
                    let w = choose|w: int| 0 <= w < fired@.len() && fired@[w] == k;
                    if w < n {
                        assert(fired_before[w] == k);
                        assert(fired_before.contains(k));
                    }
                }
                assert forall|k: Key| !(#[trigger] fired@.contains(k)) implies spec_lookup(
                    self.sounding@,
                    k,
                ) == spec_lookup(old(self).sounding@, k) by {
                    assert(fired@[n] != k);
                    assert(forall|w: int| 0 <= w < n ==> fired_before[w] == fired@[w]);
                    assert(!fired_before.contains(k));
                }
            }
        }
        proof {
            let n = fired@.len() as int;
            if n < old(self).queue@.len() {
                assert(self.queue@[0] == old(self).queue@[n]);
            }
            lemma_due_count_prefix(old(self).queue@, now, n);
            assert forall|i: int, j: int|
                0 <= i <= j < self.queue@.len() implies #[trigger] self.queue@[i].time
                <= #[trigger] self.queue@[j].time by {
                assert(self.queue@[i] == old(self).queue@[i + n]);
                assert(self.queue@[j] == old(self).queue@[j + n]);
            }
            assert forall|i: int|
                n <= i < old(self).queue@.len() implies #[trigger] old(self).queue@[i].time
                >= now by {
                assert(old(self).queue@[n].time <= old(self).queue@[i].time);
            }
        }
        fired
    }

    /// Whether `key` counts as sounding at tick `now` for display purposes.
    pub fn is_sounding(&self, key: Key, now: u32) -> (r: bool)
        ensures
            r == self.spec_is_sounding(key, now),
    {
        let mut i: usize = 0;
        while i < self.sounding.len()
            invariant
                i <= self.sounding@.len(),
                forall|j: int| 0 <= j < i ==> (#[trigger] self.sounding@[j]).0 != key,
            decreases self.sounding@.len() - i,
        {
            if self.sounding[i].0 == key {
                proof {
                    lemma_lookup_first_match(self.sounding@, key, i as int);
                }
                return now < self.sounding[i].1;
            }
            i += 1;
        }
        proof {
            lemma_lookup_none(self.sounding@, key);
        }
        false
    }
}

/// Retriggering supersedes an in-flight arpeggio: after a chord is scheduled
/// the queue holds exactly the new chord's entries, and a tick only ever
/// fires a prefix of the queue, so an entry that is not part of the new
/// schedule (one left over from an earlier call) is never triggered again.
pub proof fn lemma_retrigger_discards_stale(
    keys: Seq<Key>,
    delay: u32,
    now: u32,
    stale: PendingSound,
    later: u32,
)
    requires
        !chord_schedule(keys, delay, now).contains(stale),
    ensures
        !chord_schedule(keys, delay, now).take(
            due_count(chord_schedule(keys, delay, now), later) as int,
        ).contains(stale),
{
    let s = chord_schedule(keys, delay, now);
    lemma_due_count_le_len(s, later);
    let t = s.take(due_count(s, later) as int);
    assert forall|i: int| 0 <= i < t.len() implies #[trigger] t[i] != stale by {
        assert(t[i] == s[i]);
        if s[i] == stale {
            assert(s.contains(stale));
        }
    }
    if t.contains(stale) {
        let i = choose|i: int| 0 <= i < t.len() && t[i] == stale;
        assert(t[i] != stale);
    }
}

} // verus!

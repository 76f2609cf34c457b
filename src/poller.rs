use vstd::prelude::*;

use crate::envelope::{encode_update, update_message, Reading};
use crate::resource::{kind_index, ResourceKind};
use crate::snapshot::Snapshot;

verus! {

/// Longest a standby-proof poller sleeps between two looks at the clock.
pub const WAKE_GRANULARITY_MS: u64 = 1000;

/// How a poller is scheduled.
#[derive(Clone, Copy, Debug, PartialEq, Eq, Structural)]
pub enum Regime {
    /// Sleep exactly the interval, then poll unconditionally.
    FixedRate,
    /// Wake at most every second, and poll only once the wall clock says the
    /// interval has passed since the last successful poll.
    StandbyProof,
}

/// Whether a new reading differs enough from the previous one to publish.
#[derive(Clone, Copy, Debug, PartialEq, Eq, Structural)]
pub enum Comparator {
    /// Every reading is worth publishing.
    Always,
    /// Publish when some level moved by at least this many points.
    Threshold(u64),
}

/// Distance between two levels.
pub open spec fn level_distance(a: u64, b: u64) -> nat {
    if a >= b {
        (a - b) as nat
    } else {
        (b - a) as nat
    }
}

/// Two level lists differ by at least `t` points: in their shape, or in one
/// level.
pub open spec fn levels_moved(a: Seq<u64>, b: Seq<u64>, t: u64) -> bool {
    a.len() != b.len() || exists|i: int| 0 <= i < a.len() && level_distance(a[i], b[i]) >= t
}

/// The comparator's verdict on a previous and a new reading.
pub open spec fn worth_publishing(c: Comparator, prev: Reading, next: Reading) -> bool {
    match c {
        Comparator::Always => true,
        Comparator::Threshold(t) => levels_moved(prev.levels@, next.levels@, t),
    }
}

/// Whether a poll that produced `next`, where `prev` was known before, is
/// published: never without a value, always for the first value, and
/// otherwise as the comparator says.
pub open spec fn publishes(c: Comparator, prev: Option<Reading>, next: Option<Reading>) -> bool {
    match next {
        None => false,
        Some(n) => match prev {
            None => true,
            Some(p) => worth_publishing(c, p, n),
        },
    }
}

/// The value known after a poll that produced `next`: a failed read keeps
/// the value known before.
pub open spec fn held(prev: Option<Reading>, next: Option<Reading>) -> Option<Reading> {
    match next {
        Some(n) => Some(n),
        None => prev,
    }
}

impl Comparator {
    /// Decides whether `next` is worth publishing after `prev`.
    pub fn judge(&self, prev: &Reading, next: &Reading) -> (r: bool)
        ensures
            r == worth_publishing(*self, *prev, *next),
    {
        match *self {
            Comparator::Always => true,
            Comparator::Threshold(t) => {
                let n = prev.levels.len();
                if n != next.levels.len() {
                    return true;
                }
                let mut i: usize = 0;
                while i < n
                    invariant
                        i <= n,
                        *self == Comparator::Threshold(t),
                        n == prev.levels.len(),
                        n == next.levels.len(),
                        forall|j: int|
                            0 <= j < i ==> level_distance(prev.levels@[j], next.levels@[j]) < t,
                    decreases n - i,
                {
                    let a = prev.levels[i];
                    let b = next.levels[i];
                    let d = if a >= b {
                        a - b
                    } else {
                        b - a
                    };
                    if d >= t {
                        assert(level_distance(prev.levels@[i as int], next.levels@[i as int]) >= t);
                        return true;
                    }
                    i = i + 1;
                }
                false
            },
        }
    }
}

/// The schedule and change gate of one resource.
#[derive(Debug)]
pub struct Poller {
    pub kind: ResourceKind,
    pub interval_ms: u64,
    pub regime: Regime,
    pub comparator: Comparator,
    /// Wall-clock time, in milliseconds, of the last successful poll.
    pub last_success: Option<i64>,
}

impl Poller {
    /// Whether a wake at wall-clock time `now` polls.
    pub open spec fn due_at(&self, now: i64) -> bool {
        match self.regime {
            Regime::FixedRate => true,
            Regime::StandbyProof => match self.last_success {
                None => true,
                Some(t) => now - t >= self.interval_ms,
            },
        }
    }

    /// Time slept between two wakes.
    pub open spec fn wake_spec(&self) -> u64 {
        match self.regime {
            Regime::FixedRate => self.interval_ms,
            Regime::StandbyProof => if self.interval_ms < WAKE_GRANULARITY_MS {
                self.interval_ms
            } else {
                WAKE_GRANULARITY_MS
            },
        }
    }

    /// A poller that has not polled yet.
    pub fn new(kind: ResourceKind, interval_ms: u64, regime: Regime, comparator: Comparator) -> (p:
        Poller)
        ensures
            p.kind == kind,
            p.interval_ms == interval_ms,
            p.regime == regime,
            p.comparator == comparator,
            p.last_success.is_none(),
    {
        Poller { kind, interval_ms, regime, comparator, last_success: None }
    }

    /// Milliseconds to sleep between two wakes: the interval, or under the
    /// standby-proof regime the smaller of the interval and one second.
    pub fn wake_interval_ms(&self) -> (r: u64)
        ensures
            r == self.wake_spec(),
    {
        match self.regime {
            Regime::FixedRate => self.interval_ms,
            Regime::StandbyProof => if self.interval_ms < WAKE_GRANULARITY_MS {
                self.interval_ms
            } else {
                WAKE_GRANULARITY_MS
            },
        }
    }

    /// Whether the wake at wall-clock time `now` (milliseconds) polls.
    pub fn is_due(&self, now: i64) -> (r: bool)
        ensures
            r == self.due_at(now),
    {
        match self.regime {
            Regime::FixedRate => true,
            Regime::StandbyProof => match self.last_success {
                None => true,
                Some(t) => (now as i128) - (t as i128) >= self.interval_ms as i128,
            },
        }
    }

    /// Completes a poll that produced `reading` at wall-clock time `now`:
    /// decides whether it is published, and returns the message to enqueue if
    /// so; stores a value that was read whether or not it is published, and
    /// keeps the known value when the read failed.
    pub fn complete(&mut self, snapshot: &mut Snapshot, now: i64, reading: Option<Reading>) -> (msg:
        Option<String>)
        requires
            old(snapshot).wf(),
        ensures
            final(snapshot).wf(),
            msg.is_some() == publishes(
                old(self).comparator,
                old(snapshot).value_of(old(self).kind),
                reading,
            ),
            msg matches Some(m) ==> m@ == update_message(old(self).kind, reading.unwrap()),
            final(snapshot)@.values == old(snapshot)@.values.update(
                kind_index(old(self).kind) as int,
                held(old(snapshot).value_of(old(self).kind), reading),
            ),
            final(snapshot)@.written_at == old(snapshot)@.written_at,
            final(snapshot)@.metronome == old(snapshot)@.metronome,
            final(self).kind == old(self).kind,
            final(self).interval_ms == old(self).interval_ms,
            final(self).regime == old(self).regime,
            final(self).comparator == old(self).comparator,
            final(self).last_success == if reading.is_some() {
                Some(now)
            } else {
                old(self).last_success
            },
    {
        match reading {
            None => {
                assert(old(snapshot)@.values.update(
                    kind_index(self.kind) as int,
                    snapshot.value_of(self.kind),
                ) =~= snapshot@.values);
                None
            },
            Some(r) => {
                let publish = match snapshot.get(self.kind) {
                    None => true,
                    Some(p) => self.comparator.judge(p, &r),
                };
                let msg = if publish {
                    Some(encode_update(self.kind, &r))
                } else {
                    None
                };
                snapshot.store(self.kind, r);
                self.last_success = Some(now);
                msg
            },
        }
    }
}

/// The value known after a series of polls, starting from `prev`.
pub open spec fn held_after(prev: Option<Reading>, reads: Seq<Option<Reading>>) -> Option<Reading>
    decreases reads.len(),
{
    if reads.len() == 0 {
        prev
    } else {
        held(held_after(prev, reads.drop_last()), reads.last())
    }
}

/// Whether poll `i` of a series that starts from `prev` is published.
pub open spec fn published_in(
    c: Comparator,
    prev: Option<Reading>,
    reads: Seq<Option<Reading>>,
    i: int,
) -> bool {
    publishes(c, held_after(prev, reads.take(i)), reads[i])
}

proof fn lemma_held_after_step(prev: Option<Reading>, reads: Seq<Option<Reading>>, k: int)
    requires
        0 <= k < reads.len(),
    ensures
        held_after(prev, reads.take(k + 1)) == held(held_after(prev, reads.take(k)), reads[k]),
{
    assert(reads.take(k + 1).drop_last() =~= reads.take(k));
}

proof fn lemma_held_none(reads: Seq<Option<Reading>>, k: int)
    requires
        0 <= k <= reads.len(),
        forall|m: int| 0 <= m < k ==> (#[trigger] reads[m]).is_none(),
    ensures
        held_after(None, reads.take(k)).is_none(),
    decreases k,
{
    if k == 0 {
        assert(reads.take(0) =~= Seq::<Option<Reading>>::empty());
    } else {
        lemma_held_none(reads, k - 1);
        lemma_held_after_step(None, reads, k - 1);
    }
}

proof fn lemma_held_stays(prev: Option<Reading>, reads: Seq<Option<Reading>>, i: int, k: int)
    requires
        0 <= i < k <= reads.len(),
        reads[i].is_some(),
        forall|m: int| i < m < k ==> (#[trigger] reads[m]).is_none(),
    ensures
        held_after(prev, reads.take(k)) == reads[i],
    decreases k,
{
    if k == i + 1 {
        lemma_held_after_step(prev, reads, i);
    } else {
        lemma_held_stays(prev, reads, i, k - 1);
        lemma_held_after_step(prev, reads, k - 1);
    }
}

/// The first successful read of a resource is published, whatever the
/// comparator.
pub proof fn lemma_first_read_publishes(c: Comparator, reads: Seq<Option<Reading>>, i: int)
    requires
        0 <= i < reads.len(),
        reads[i].is_some(),
        forall|k: int| 0 <= k < i ==> (#[trigger] reads[k]).is_none(),
    ensures
        published_in(c, None, reads, i),
{
    lemma_held_none(reads, i);
}

/// Between two consecutive successful reads `reads[i]` and `reads[j]` (only
/// failed reads in between) on which the comparator says no, no poll is
/// published, and the value of `reads[i]` stays known.
pub proof fn lemma_quiet_between(
    c: Comparator,
    prev: Option<Reading>,
    reads: Seq<Option<Reading>>,
    i: int,
    j: int,
)
    requires
        0 <= i < j < reads.len(),
        reads[i].is_some(),
        reads[j].is_some(),
        forall|k: int| i < k < j ==> (#[trigger] reads[k]).is_none(),
        !worth_publishing(c, reads[i].unwrap(), reads[j].unwrap()),
    ensures
        forall|k: int| i < k <= j ==> !#[trigger] published_in(c, prev, reads, k),
        forall|k: int| i < k <= j ==> #[trigger] held_after(prev, reads.take(k)) == reads[i],
{
    assert forall|k: int| i < k <= j implies #[trigger] held_after(prev, reads.take(k))
        == reads[i] by {
        lemma_held_stays(prev, reads, i, k);
    }
    assert forall|k: int| i < k <= j implies !#[trigger] published_in(c, prev, reads, k) by {
        lemma_held_stays(prev, reads, i, k);
    }
}

/// Under the standby-proof regime, the first wake after the wall clock jumped
/// by at least the interval since the last successful poll (a suspend) polls;
/// once that poll has succeeded nothing more is due at that instant, and the
/// next poll is due one interval later: one catch-up poll, not a backlog.
pub proof fn lemma_standby_catch_up(p: Poller, t: i64, now: i64, later: i64)
    requires
        p.regime == Regime::StandbyProof,
        p.interval_ms > 0,
        p.last_success == Some(t),
        now - t >= p.interval_ms,
    ensures
        p.due_at(now),
        !(Poller { last_success: Some(now), ..p }).due_at(now),
        (Poller { last_success: Some(now), ..p }).due_at(later) <==> later - now >= p.interval_ms,
{
}

} // verus!

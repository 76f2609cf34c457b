use vstd::prelude::*;

use crate::envelope::{encode_update, update_message, Reading};
use crate::resource::{kind_at, kind_index, lemma_kind_index_at, ResourceKind, RESOURCE_COUNT};

verus! {

/// Abstract state of a snapshot: the last known value of each resource, by
/// burst position, and the heartbeat fields.
pub ghost struct SnapshotView {
    pub values: Seq<Option<Reading>>,
    pub written_at: u64,
    pub metronome: bool,
}

/// The current known value of every resource plus the heartbeat.
pub struct Snapshot {
    slots: Vec<Option<Reading>>,
    written_at: u64,
    metronome: bool,
}

impl View for Snapshot {
    type V = SnapshotView;

    closed spec fn view(&self) -> SnapshotView {
        SnapshotView { values: self.slots@, written_at: self.written_at, metronome: self.metronome }
    }
}

/// The messages of a burst over the first `n` resources: one update message
/// per resource that holds a known value, in burst order.
pub open spec fn burst_of(values: Seq<Option<Reading>>, n: int) -> Seq<Seq<char>>
    decreases n,
{
    if n <= 0 {
        Seq::empty()
    } else {
        let before = burst_of(values, n - 1);
        match values[n - 1] {
            Some(r) => before.push(update_message(kind_at(n - 1), r)),
            None => before,
        }
    }
}

/// How many of the first `n` resources hold a known value.
pub open spec fn known_count(values: Seq<Option<Reading>>, n: int) -> nat
    decreases n,
{
    if n <= 0 {
        0
    } else {
        known_count(values, n - 1) + if values[n - 1].is_some() {
            1nat
        } else {
            0nat
        }
    }
}

/// Position, among the messages of a burst, of the message of the resource at
/// position `i`.
pub open spec fn burst_position(values: Seq<Option<Reading>>, i: int) -> nat {
    known_count(values, i)
}

impl Snapshot {
    pub open spec fn wf(&self) -> bool {
        self@.values.len() == RESOURCE_COUNT
    }

    /// The last known value of resource `k`.
    pub open spec fn value_of(&self, k: ResourceKind) -> Option<Reading> {
        self@.values[kind_index(k) as int]
    }

    /// A snapshot in which no resource is known yet.
    pub fn new() -> (s: Snapshot)
        ensures
            s.wf(),
            forall|i: int| 0 <= i < RESOURCE_COUNT ==> (#[trigger] s@.values[i]).is_none(),
            s@.written_at == 0,
            !s@.metronome,
    {
        let mut slots: Vec<Option<Reading>> = Vec::new();
        let mut i: usize = 0;
        while i < RESOURCE_COUNT
            invariant
                i <= RESOURCE_COUNT,
                slots.len() == i,
                forall|j: int| 0 <= j < i ==> (#[trigger] slots@[j]).is_none(),
            decreases RESOURCE_COUNT - i,
        {
            slots.push(None);
            i = i + 1;
        }
        Snapshot { slots, written_at: 0, metronome: false }
    }

    /// The last known value of resource `k`, if any.
    pub fn get(&self, k: ResourceKind) -> (r: Option<&Reading>)
        requires
            self.wf(),
        ensures
            r matches Some(v) ==> self.value_of(k) == Some(*v),
            r.is_none() == self.value_of(k).is_none(),
    {
        self.slots[k.index()].as_ref()
    }

    /// Records `r` as the last known value of resource `k`.
    pub fn store(&mut self, k: ResourceKind, r: Reading)
        requires
            old(self).wf(),
        ensures
            final(self).wf(),
            final(self)@.values == old(self)@.values.update(kind_index(k) as int, Some(r)),
            final(self)@.written_at == old(self)@.written_at,
            final(self)@.metronome == old(self)@.metronome,
    {
        let i = k.index();
        self.slots.set(i, Some(r));
    }

    /// Heartbeat: flips the metronome and stamps `now` as the last write time.
    pub fn beat(&mut self, now: u64)
        ensures
            final(self)@.values == old(self)@.values,
            final(self)@.written_at == now,
            final(self)@.metronome == !old(self)@.metronome,
    {
        self.written_at = now;
        self.metronome = !self.metronome;
    }

    /// Time of the last heartbeat.
    pub fn written_at(&self) -> (r: u64)
        ensures
            r == self@.written_at,
    {
        self.written_at
    }

    /// The heartbeat flag.
    pub fn metronome(&self) -> (r: bool)
        ensures
            r == self@.metronome,
    {
        self.metronome
    }

    /// The connect-time burst: one update message per resource that holds a
    /// known value, in burst order, each encoded as an incremental update of
    /// that value would be.
    pub fn burst(&self) -> (msgs: Vec<String>)
        requires
            self.wf(),
        ensures
            msgs@.map_values(|m: String| m@) == burst_of(self@.values, RESOURCE_COUNT as int),
    {
        let mut msgs: Vec<String> = Vec::new();
        let mut i: usize = 0;
        while i < RESOURCE_COUNT
            invariant
                i <= RESOURCE_COUNT,
                self.wf(),
                msgs@.map_values(|m: String| m@) == burst_of(self@.values, i as int),
            decreases RESOURCE_COUNT - i,
        {
            let k = ResourceKind::at(i);
            match &self.slots[i] {
                Some(r) => {
                    let m = encode_update(k, r);
                    msgs.push(m);
                    assert(msgs@.map_values(|m: String| m@) =~= burst_of(
                        self@.values,
                        i as int,
                    ).push(update_message(kind_at(i as int), *r)));
                },
                None => {},
            }
            i = i + 1;
        }
        msgs
    }
}

/// A burst holds exactly as many messages as there are known resources.
pub proof fn lemma_burst_len(values: Seq<Option<Reading>>, n: int)
    ensures
        burst_of(values, n).len() == known_count(values, n),
    decreases n,
{
    if n > 0 {
        lemma_burst_len(values, n - 1);
    }
}

/// Known counts grow with the prefix.
proof fn lemma_known_count_mono(values: Seq<Option<Reading>>, i: int, n: int)
    requires
        i <= n,
    ensures
        known_count(values, i) <= known_count(values, n),
    decreases n - i,
{
    if i < n {
        lemma_known_count_mono(values, i, n - 1);
    }
}

/// The message of each known resource stands in a burst at its position,
/// encoded as an incremental update of the same value.
proof fn lemma_burst_entry(values: Seq<Option<Reading>>, i: int, n: int)
    requires
        0 <= i < n,
        values[i].is_some(),
    ensures
        burst_position(values, i) < burst_of(values, n).len(),
        burst_of(values, n)[burst_position(values, i) as int] == update_message(
            kind_at(i),
            values[i].unwrap(),
        ),
    decreases n - i,
{
    lemma_burst_len(values, n);
    lemma_burst_len(values, n - 1);
    lemma_burst_len(values, i);
    if i < n - 1 {
        lemma_burst_entry(values, i, n - 1);
    } else {
        lemma_known_count_mono(values, i, n - 1);
    }
}

/// A client that connects while `k` of the resources hold known values
/// receives exactly `k` burst messages, and the message of each known
/// resource is encoded exactly as an incremental update of that value.
pub proof fn lemma_burst_matches_updates(s: Snapshot)
    requires
        s.wf(),
    ensures
        burst_of(s@.values, RESOURCE_COUNT as int).len() == known_count(
            s@.values,
            RESOURCE_COUNT as int,
        ),
        forall|k: ResourceKind| #[trigger]
            s.value_of(k).is_some() ==> burst_of(s@.values, RESOURCE_COUNT as int).contains(
                update_message(k, s.value_of(k).unwrap()),
            ),
{
    lemma_burst_len(s@.values, RESOURCE_COUNT as int);
    assert forall|k: ResourceKind| #[trigger]
        s.value_of(k).is_some() implies burst_of(s@.values, RESOURCE_COUNT as int).contains(
            update_message(k, s.value_of(k).unwrap()),
        ) by {
        let i = kind_index(k) as int;
        lemma_kind_index_at(k, i);
        lemma_burst_entry(s@.values, i, RESOURCE_COUNT as int);
    }
}

} // verus!

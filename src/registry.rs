use vstd::prelude::*;

verus! {

/// The elements of the first `n` of `s` whose delivery flag in `ok` is set,
/// in order.
pub open spec fn kept<A>(s: Seq<A>, ok: Seq<bool>, n: int) -> Seq<A>
    decreases n,
{
    if n <= 0 {
        Seq::empty()
    } else {
        let before = kept(s, ok, n - 1);
        if ok[n - 1] {
            before.push(s[n - 1])
        } else {
            before
        }
    }
}

proof fn lemma_kept_prefix<A>(s: Seq<A>, ok: Seq<bool>, b: bool, n: int)
    requires
        0 <= n <= ok.len(),
    ensures
        kept(s, ok.push(b), n) == kept(s, ok, n),
    decreases n,
{
    if n > 0 {
        lemma_kept_prefix(s, ok, b, n - 1);
    }
}

proof fn lemma_kept_len<A, B>(s: Seq<A>, t: Seq<B>, ok: Seq<bool>, n: int)
    ensures
        kept(s, ok, n).len() == kept(t, ok, n).len(),
    decreases n,
{
    if n > 0 {
        lemma_kept_len(s, t, ok, n - 1);
    }
}

/// What stays after a broadcast is exactly what was offered the line and
/// took it; without duplicates before, none after.
proof fn lemma_kept_members<A>(s: Seq<A>, ok: Seq<bool>, n: int)
    requires
        0 <= n <= s.len(),
        n <= ok.len(),
    ensures
        forall|x: A| #[trigger]
            kept(s, ok, n).contains(x) <==> exists|j: int| 0 <= j < n && s[j] == x && ok[j],
        s.no_duplicates() ==> kept(s, ok, n).no_duplicates(),
    decreases n,
{
    if n > 0 {
        lemma_kept_members(s, ok, n - 1);
        let before = kept(s, ok, n - 1);
        assert forall|x: A| #[trigger]
            kept(s, ok, n).contains(x) <==> exists|j: int| 0 <= j < n && s[j] == x && ok[j] by {
            if kept(s, ok, n).contains(x) {
                if ok[n - 1] {
                    let k = choose|k: int| 0 <= k < kept(s, ok, n).len() && kept(s, ok, n)[k] == x;
                    if k < before.len() {
                        assert(before[k] == x);
                        assert(before.contains(x));
                    } else {
                        assert(s[n - 1] == x);
                    }
                } else {
                    assert(before.contains(x));
                }
            }
            if exists|j: int| 0 <= j < n && s[j] == x && ok[j] {
                let j = choose|j: int| 0 <= j < n && s[j] == x && ok[j];
                if j < n - 1 {
                    assert(before.contains(x));
                    let k = choose|k: int| 0 <= k < before.len() && before[k] == x;
                    assert(kept(s, ok, n)[k] == x);
                } else {
                    assert(kept(s, ok, n)[before.len() as int] == x);
                }
            }
        }
        if s.no_duplicates() && ok[n - 1] {
            assert forall|a: int, b: int|
                0 <= a < b < kept(s, ok, n).len() implies kept(s, ok, n)[a] != kept(
                s,
                ok,
                n,
            )[b] by {
                if b == before.len() {
                    assert(before.contains(before[a]));
                    let j = choose|j: int| 0 <= j < n - 1 && s[j] == before[a] && ok[j];
                    assert(s[j] != s[n - 1]);
                }
            }
        }
    }
}

/// The set of currently connected subscribers, each under an identifier
/// that is never reused.
pub struct ClientRegistry<C> {
    ids: Vec<u64>,
    clients: Vec<C>,
    next_id: u64,
}

impl<C> View for ClientRegistry<C> {
    type V = Seq<u64>;

    closed spec fn view(&self) -> Seq<u64> {
        self.ids@
    }
}

impl<C> ClientRegistry<C> {
    pub closed spec fn wf(&self) -> bool {
        &&& self.ids@.len() == self.clients@.len()
        &&& self.ids@.no_duplicates()
        &&& forall|i: int| 0 <= i < self.ids@.len() ==> self.ids@[i] < self.next_id
    }

    /// The connections, in registration order.
    pub closed spec fn connections(&self) -> Seq<C> {
        self.clients@
    }

    /// Whether another client can still get a fresh identifier.
    pub closed spec fn has_room(&self) -> bool {
        self.next_id < u64::MAX
    }

    /// An empty registry.
    pub fn new() -> (r: Self)
        ensures
            r.wf(),
            r@ == Seq::<u64>::empty(),
            r.has_room(),
    {
        ClientRegistry { ids: Vec::new(), clients: Vec::new(), next_id: 0 }
    }

    /// Number of registered clients.
    pub fn len(&self) -> (n: usize)
        requires
            self.wf(),
        ensures
            n == self@.len(),
    {
        self.ids.len()
    }

    /// Whether another client can still be registered.
    pub fn can_register(&self) -> (r: bool)
        ensures
            r == self.has_room(),
    {
        self.next_id < u64::MAX
    }

    /// Whether the client registered under `id` is still registered.
    pub fn contains(&self, id: u64) -> (r: bool)
        ensures
            r == self@.contains(id),
    {
        let mut i: usize = 0;
        while i < self.ids.len()
            invariant
                i <= self.ids@.len(),
                forall|j: int| 0 <= j < i ==> self.ids@[j] != id,
            decreases self.ids@.len() - i,
        {
            if self.ids[i] == id {
                assert(self.ids@[i as int] == id);
                return true;
            }
            i = i + 1;
        }
        false
    }

    /// Registers a newly accepted connection; returns its identifier.
    pub fn register(&mut self, c: C) -> (id: u64)
        requires
            old(self).wf(),
            old(self).has_room(),
        ensures
            final(self).wf(),
            !old(self)@.contains(id),
            final(self)@ == old(self)@.push(id),
            final(self).connections() == old(self).connections().push(c),
    {
        let id = self.next_id;
        self.ids.push(id);
        self.clients.push(c);
        self.next_id = self.next_id + 1;
        id
    }

    /// Offers one message to every registered client, in registration order,
    /// through `deliver`, which reports whether the write succeeded. Every
    /// client whose write failed leaves the registry; the others stay, in
    /// order. Returns the outcome of each offer.
    pub fn broadcast<F: Fn(&C) -> bool>(&mut self, deliver: F) -> (delivered: Vec<bool>)
        requires
            old(self).wf(),
            forall|c: &C| deliver.requires((c,)),
        ensures
            final(self).wf(),
            final(self).has_room() == old(self).has_room(),
            delivered@.len() == old(self)@.len(),
            forall|i: int|
                0 <= i < delivered@.len() ==> deliver.ensures(
                    (&old(self).connections()[i],),
                    #[trigger] delivered@[i],
                ),
            final(self)@ == kept(old(self)@, delivered@, old(self)@.len() as int),
            final(self).connections() == kept(
                old(self).connections(),
                delivered@,
                old(self)@.len() as int,
            ),
    {
        let ghost old_ids = self.ids@;
        let ghost old_clients = self.clients@;
        let len = self.clients.len();
        let ghost n = len as int;
        let mut delivered: Vec<bool> = Vec::new();
        let mut ids: Vec<u64> = Vec::new();
        let mut clients: Vec<C> = Vec::new();
        let mut i: usize = 0;
        while self.clients.len() > 0
            invariant
                0 <= i <= n,
                n <= usize::MAX,
                n == old_ids.len(),
                n == old_clients.len(),
                self.next_id == old(self).next_id,
                forall|j: int| 0 <= j < n ==> old_ids[j] < self.next_id,
                self.clients@.len() == n - i,
                self.ids@ == old_ids.subrange(i as int, n),
                self.clients@ == old_clients.subrange(i as int, n),
                delivered@.len() == i,
                forall|j: int|
                    0 <= j < i ==> deliver.ensures((&old_clients[j],), #[trigger] delivered@[j]),
                forall|c: &C| deliver.requires((c,)),
                ids@ == kept(old_ids, delivered@, i as int),
                clients@ == kept(old_clients, delivered@, i as int),
            decreases self.clients@.len(),
        {
            let c = self.clients.remove(0);
            let id = self.ids.remove(0);
            assert(c == old_clients[i as int]);
            assert(id == old_ids[i as int]);
            let ok = deliver(&c);
            proof {
                lemma_kept_prefix(old_ids, delivered@, ok, i as int);
                lemma_kept_prefix(old_clients, delivered@, ok, i as int);
            }
            delivered.push(ok);
            if ok {
                ids.push(id);
                clients.push(c);
            }
            assert(self.ids@ =~= old_ids.subrange(i + 1, n));
            assert(self.clients@ =~= old_clients.subrange(i + 1, n));
            i = i + 1;
        }
        proof {
            lemma_kept_members(old_ids, delivered@, n);
            lemma_kept_len(old_ids, old_clients, delivered@, n);
            assert forall|j: int| 0 <= j < ids@.len() implies ids@[j] < self.next_id by {
                assert(ids@.contains(ids@[j]));
            }
        }
        self.ids = ids;
        self.clients = clients;
        delivered
    }
}

/// After a message is broadcast to the clients registered under `ids`, with
/// outcomes `delivered`, each of those clients is still registered exactly
/// when it took the message, and no client that had left before the
/// broadcast comes back.
pub proof fn lemma_broadcast_reach(ids: Seq<u64>, delivered: Seq<bool>, id: u64)
    requires
        ids.no_duplicates(),
        delivered.len() == ids.len(),
    ensures
        forall|i: int|
            0 <= i < ids.len() ==> (kept(ids, delivered, ids.len() as int).contains(ids[i])
                <==> #[trigger] delivered[i]),
        !ids.contains(id) ==> !kept(ids, delivered, ids.len() as int).contains(id),
        kept(ids, delivered, ids.len() as int).no_duplicates(),
{
    lemma_kept_members(ids, delivered, ids.len() as int);
    assert forall|i: int| 0 <= i < ids.len() implies (kept(
        ids,
        delivered,
        ids.len() as int,
    ).contains(ids[i]) <==> #[trigger] delivered[i]) by {
        if kept(ids, delivered, ids.len() as int).contains(ids[i]) {
            let j = choose|j: int| 0 <= j < ids.len() && ids[j] == ids[i] && delivered[j];
            assert(j == i);
        }
    }
    if kept(ids, delivered, ids.len() as int).contains(id) {
        let j = choose|j: int| 0 <= j < ids.len() && ids[j] == id && delivered[j];
        assert(ids.contains(id));
    }
}

/// A client whose connection was closed is gone from the registry after the
/// first broadcast that tries to write to it, and that failure costs no other
/// client its place: every client that took the message stays, in order.
pub proof fn lemma_dead_client_pruned(ids: Seq<u64>, delivered: Seq<bool>, i: int)
    requires
        ids.no_duplicates(),
        delivered.len() == ids.len(),
        0 <= i < ids.len(),
        !delivered[i],
    ensures
        !kept(ids, delivered, ids.len() as int).contains(ids[i]),
        forall|j: int|
            0 <= j < ids.len() && #[trigger] delivered[j] ==> kept(
                ids,
                delivered,
                ids.len() as int,
            ).contains(ids[j]),
{
    lemma_broadcast_reach(ids, delivered, ids[i]);
}

} // verus!

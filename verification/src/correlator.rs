//! Matching each response to the request that is waiting for it.
//!
//! The correlator hands out request identifiers and keeps, for every request that is
//! still unanswered, the waiter that its caller left. What a waiter is, and how a result
//! reaches it, is the caller's business: the correlator only says which waiter a response
//! belongs to.

use vstd::prelude::*;

verus! {

/// A pending request: its identifier and the waiter left for it.
#[derive(Debug)]
pub struct Slot<W> {
    pub id: u64,
    pub waiter: W,
}

/// The table of pending requests of one connection.
#[derive(Debug)]
pub struct Correlator<W> {
    next: u64,
    waiting: Vec<Slot<W>>,
}

/// No identifier occurs twice among the slots.
pub open spec fn distinct_ids<W>(s: Seq<Slot<W>>) -> bool {
    forall|i: int, j: int| 0 <= i < j < s.len() ==> s[i].id != s[j].id
}

/// Whether some slot carries `id`.
pub open spec fn has_id<W>(s: Seq<Slot<W>>, id: u64) -> bool {
    exists|i: int| 0 <= i < s.len() && #[trigger] s[i].id == id
}

/// The slots as a map from identifier to waiter.
pub open spec fn slots_map<W>(s: Seq<Slot<W>>) -> Map<u64, W> {
    Map::new(
        |id: u64| has_id(s, id),
        |id: u64| s[choose|i: int| 0 <= i < s.len() && #[trigger] s[i].id == id].waiter,
    )
}

/// What resolving `id` does to the pending requests: it leaves the table.
pub open spec fn after_resolve<W>(pending: Map<u64, W>, id: u64) -> Map<u64, W> {
    pending.remove(id)
}

/// Whom a response to `id` is for: the waiter left under that very identifier, and
/// nobody if there is none.
pub open spec fn addressee<W>(pending: Map<u64, W>, id: u64) -> Option<W> {
    if pending.dom().contains(id) {
        Some(pending[id])
    } else {
        None
    }
}

/// Whom each of a sequence of responses is delivered to, taken in the order of arrival.
pub open spec fn routed<W>(pending: Map<u64, W>, ids: Seq<u64>) -> Seq<Option<W>>
    decreases ids.len(),
{
    if ids.len() == 0 {
        Seq::empty()
    } else {
        seq![addressee(pending, ids[0])] + routed(after_resolve(pending, ids[0]), ids.drop_first())
    }
}

/// What is pending once a sequence of responses has been routed.
pub open spec fn after_routed<W>(pending: Map<u64, W>, ids: Seq<u64>) -> Map<u64, W>
    decreases ids.len(),
{
    if ids.len() == 0 {
        pending
    } else {
        after_routed(after_resolve(pending, ids[0]), ids.drop_first())
    }
}

/// In a table without repeated identifiers the slot at `i` is what the map holds under
/// its identifier.
pub proof fn lemma_slot_in_map<W>(s: Seq<Slot<W>>, i: int)
    requires
        distinct_ids(s),
        0 <= i < s.len(),
    ensures
        slots_map(s).dom().contains(s[i].id),
        slots_map(s)[s[i].id] == s[i].waiter,
{
    assert(has_id(s, s[i].id));
    let k = choose|k: int| 0 <= k < s.len() && #[trigger] s[k].id == s[i].id;
    assert(k == i) by {
        if k < i {
            assert(s[k].id != s[i].id);
        } else if i < k {
            assert(s[i].id != s[k].id);
        }
    }
}

/// Appending a slot with a fresh identifier adds one entry to the map.
pub proof fn lemma_push_slot<W>(s: Seq<Slot<W>>, slot: Slot<W>)
    requires
        distinct_ids(s),
        !has_id(s, slot.id),
    ensures
        distinct_ids(s.push(slot)),
        slots_map(s.push(slot)) == slots_map(s).insert(slot.id, slot.waiter),
{
    let t = s.push(slot);
    assert forall|i: int, j: int| 0 <= i < j < t.len() implies t[i].id != t[j].id by {
        if j == s.len() {
            assert(s[i].id == t[i].id);
        }
    }
    assert forall|id: u64| has_id(t, id) <==> (has_id(s, id) || id == slot.id) by {
        if has_id(t, id) {
            let k = choose|k: int| 0 <= k < t.len() && #[trigger] t[k].id == id;
            if k < s.len() {
                assert(s[k].id == id);
            }
        }
        if has_id(s, id) {
            let k = choose|k: int| 0 <= k < s.len() && #[trigger] s[k].id == id;
            assert(t[k].id == id);
        }
        if id == slot.id {
            assert(t[s.len() as int].id == id);
        }
    }
    assert forall|id: u64| has_id(t, id) implies #[trigger] slots_map(t)[id] == slots_map(
        s,
    ).insert(slot.id, slot.waiter)[id] by {
        let k = choose|k: int| 0 <= k < t.len() && #[trigger] t[k].id == id;
        lemma_slot_in_map(t, k);
        if k < s.len() {
            assert(s[k].id == id);
            lemma_slot_in_map(s, k);
        }
    }
    assert(slots_map(t) =~= slots_map(s).insert(slot.id, slot.waiter));
}

/// Taking the slot at `i` out removes its entry from the map and no other.
pub proof fn lemma_remove_slot<W>(s: Seq<Slot<W>>, i: int)
    requires
        distinct_ids(s),
        0 <= i < s.len(),
    ensures
        distinct_ids(s.remove(i)),
        slots_map(s.remove(i)) == slots_map(s).remove(s[i].id),
{
    let t = s.remove(i);
    assert forall|a: int, b: int| 0 <= a < b < t.len() implies t[a].id != t[b].id by {
        let sa = if a < i { a } else { a + 1 };
        let sb = if b < i { b } else { b + 1 };
        assert(t[a] == s[sa]);
        assert(t[b] == s[sb]);
    }
    assert forall|id: u64| has_id(t, id) <==> (has_id(s, id) && id != s[i].id) by {
        if has_id(t, id) {
            let k = choose|k: int| 0 <= k < t.len() && #[trigger] t[k].id == id;
            let sk = if k < i { k } else { k + 1 };
            assert(t[k] == s[sk]);
            assert(s[sk].id == id);
            if sk < i {
                assert(s[sk].id != s[i].id);
            } else {
                assert(s[i].id != s[sk].id);
            }
        }
        if has_id(s, id) && id != s[i].id {
            let k = choose|k: int| 0 <= k < s.len() && #[trigger] s[k].id == id;
            let tk = if k < i { k } else { k - 1 };
            assert(t[tk] == s[k]);
            assert(t[tk].id == id);
        }
    }
    assert forall|id: u64| has_id(t, id) implies #[trigger] slots_map(t)[id] == slots_map(s)[id] by {
        let k = choose|k: int| 0 <= k < t.len() && #[trigger] t[k].id == id;
        let sk = if k < i { k } else { k + 1 };
        assert(t[k] == s[sk]);
        lemma_slot_in_map(t, k);
        lemma_slot_in_map(s, sk);
    }
    assert(slots_map(t) =~= slots_map(s).remove(s[i].id));
}

/// A table without repeated identifiers holds as many requests as it has slots.
pub proof fn lemma_slots_count<W>(s: Seq<Slot<W>>)
    requires
        distinct_ids(s),
    ensures
        slots_map(s).dom().finite(),
        slots_map(s).dom().len() == s.len(),
    decreases s.len(),
{
    if s.len() == 0 {
        assert(slots_map(s).dom() =~= Set::<u64>::empty());
    } else {
        let t = s.drop_last();
        let last = s.last();
        assert(distinct_ids(t));
        assert(!has_id(t, last.id)) by {
            if has_id(t, last.id) {
                let k = choose|k: int| 0 <= k < t.len() && #[trigger] t[k].id == last.id;
                assert(s[k].id != s[s.len() - 1].id);
            }
        }
        lemma_slots_count(t);
        lemma_push_slot(t, last);
        assert(t.push(last) =~= s);
        assert(slots_map(s).dom() =~= slots_map(t).dom().insert(last.id));
        assert(!slots_map(t).dom().contains(last.id));
    }
}

/// Responses are routed by identifier alone. Whatever the order of arrival, the
/// response at position `k` reaches a waiter exactly when its identifier was pending at
/// the start and no earlier response carried it, and that waiter is the one that was
/// left under this identifier.
pub proof fn lemma_routing_by_id<W>(pending: Map<u64, W>, ids: Seq<u64>, k: int)
    requires
        0 <= k < ids.len(),
    ensures
        routed(pending, ids).len() == ids.len(),
        routed(pending, ids)[k] == if pending.dom().contains(ids[k]) && forall|j: int|
            0 <= j < k ==> #[trigger] ids[j] != ids[k] {
            Some(pending[ids[k]])
        } else {
            None
        },
    decreases ids.len(),
{
    lemma_routed_len(pending, ids);
    if k > 0 {
        let rest = ids.drop_first();
        let next = after_resolve(pending, ids[0]);
        lemma_routing_by_id(next, rest, k - 1);
        lemma_routed_len(next, rest);
        assert(rest[k - 1] == ids[k]);
        assert(routed(pending, ids)[k] == routed(next, rest)[k - 1]);
        if forall|j: int| 0 <= j < k - 1 ==> #[trigger] rest[j] != rest[k - 1] {
            if ids[0] != ids[k] {
                assert forall|j: int| 0 <= j < k implies ids[j] != ids[k] by {
                    if j > 0 {
                        assert(rest[j - 1] == ids[j]);
                    }
                }
            }
        } else {
            let j = choose|j: int| 0 <= j < k - 1 && #[trigger] rest[j] == rest[k - 1];
            assert(ids[j + 1] == ids[k]);
        }
    }
}

/// One delivery decision is made for each response.
pub proof fn lemma_routed_len<W>(pending: Map<u64, W>, ids: Seq<u64>)
    ensures
        routed(pending, ids).len() == ids.len(),
    decreases ids.len(),
{
    if ids.len() > 0 {
        lemma_routed_len(after_resolve(pending, ids[0]), ids.drop_first());
    }
}

/// A response whose identifier is not pending changes nothing: every request that was
/// pending stays so, with its waiter.
pub proof fn lemma_stray_response_changes_nothing<W>(pending: Map<u64, W>, id: u64)
    requires
        !pending.dom().contains(id),
    ensures
        addressee(pending, id) is None,
        after_resolve(pending, id) == pending,
{
    assert(pending.remove(id) =~= pending);
}

/// After all responses have been routed, exactly the requests that none of them named
/// are still pending, each with its own waiter.
pub proof fn lemma_after_routed<W>(pending: Map<u64, W>, ids: Seq<u64>)
    ensures
        after_routed(pending, ids) == pending.remove_keys(ids.to_set()),
    decreases ids.len(),
{
    if ids.len() == 0 {
        assert(ids.to_set() =~= Set::<u64>::empty());
        assert(pending.remove_keys(ids.to_set()) =~= pending);
    } else {
        let rest = ids.drop_first();
        lemma_after_routed(after_resolve(pending, ids[0]), rest);
        assert forall|id: u64| ids.to_set().contains(id) <==> (id == ids[0] || rest.to_set().contains(
            id,
        )) by {
            if ids.contains(id) {
                let j = choose|j: int| 0 <= j < ids.len() && #[trigger] ids[j] == id;
                if j > 0 {
                    assert(rest[j - 1] == id);
                }
            }
            if rest.contains(id) {
                let j = choose|j: int| 0 <= j < rest.len() && #[trigger] rest[j] == id;
                assert(ids[j + 1] == id);
            }
            if id == ids[0] {
                assert(ids[0] == id);
            }
        }
        assert(pending.remove(ids[0]).remove_keys(rest.to_set()) =~= pending.remove_keys(
            ids.to_set(),
        ));
    }
}

impl<W> Correlator<W> {
    /// The identifier that the next request gets. Every identifier handed out so far is
    /// smaller.
    pub closed spec fn next_free(&self) -> u64 {
        self.next
    }

    /// The pending requests: for each identifier the waiter left for it.
    pub closed spec fn pending(&self) -> Map<u64, W> {
        slots_map(self.waiting@)
    }

    /// The table is sound: no identifier is pending twice, and none that has not been
    /// handed out.
    pub closed spec fn wf(&self) -> bool {
        &&& self.next >= 1
        &&& distinct_ids(self.waiting@)
        &&& forall|i: int| 0 <= i < self.waiting@.len() ==> 1 <= #[trigger] self.waiting@[i].id < self.next
    }

    /// Every pending identifier has been handed out.
    pub proof fn lemma_pending_were_issued(&self)
        requires
            self.wf(),
        ensures
            forall|id: u64| #[trigger] self.pending().dom().contains(id) ==> 1 <= id < self.next_free(),
    {
        assert forall|id: u64| #[trigger] self.pending().dom().contains(id) implies 1 <= id
            < self.next_free() by {
            let k = choose|k: int| 0 <= k < self.waiting@.len() && #[trigger] self.waiting@[k].id == id;
            assert(1 <= self.waiting@[k].id < self.next);
        }
    }

    /// A correlator that has handed out nothing; the first identifier will be 1.
    pub fn new() -> (c: Self)
        ensures
            c.wf(),
            c.next_free() == 1,
            c.pending() == Map::<u64, W>::empty(),
    {
        let c = Correlator { next: 1, waiting: Vec::new() };
        assert(c.pending() =~= Map::<u64, W>::empty());
        c
    }

    /// Whether another identifier can be handed out.
    pub fn can_issue(&self) -> (r: bool)
        ensures
            r == (self.next_free() < u64::MAX),
    {
        self.next < u64::MAX
    }

    /// Whether `id` is the identifier that the next request gets.
    pub fn next_is(&self, id: u64) -> (r: bool)
        ensures
            r == (self.next_free() == id),
    {
        self.next == id
    }

    /// Hands out an identifier that was never handed out before: the next in line.
    pub fn next_id(&mut self) -> (id: u64)
        requires
            old(self).wf(),
            old(self).next_free() < u64::MAX,
        ensures
            final(self).wf(),
            id == old(self).next_free(),
            final(self).next_free() == id + 1,
            final(self).pending() == old(self).pending(),
    {
        let id = self.next;
        self.next = id + 1;
        id
    }

    fn position(&self, id: u64) -> (r: Option<usize>)
        requires
            self.wf(),
        ensures
            match r {
                Some(i) => i < self.waiting@.len() && self.waiting@[i as int].id == id,
                None => !has_id(self.waiting@, id),
            },
    {
        let mut i: usize = 0;
        while i < self.waiting.len()
            invariant
                i <= self.waiting@.len(),
                forall|k: int| 0 <= k < i ==> self.waiting@[k].id != id,
            decreases self.waiting@.len() - i,
        {
            if self.waiting[i].id == id {
                return Some(i);
            }
            i += 1;
        }
        None
    }

    /// Whether a request with this identifier is pending.
    pub fn is_pending(&self, id: u64) -> (r: bool)
        requires
            self.wf(),
        ensures
            r == self.pending().dom().contains(id),
    {
        self.position(id).is_some()
    }

    /// The number of pending requests.
    pub fn pending_count(&self) -> (n: usize)
        requires
            self.wf(),
        ensures
            self.pending().dom().finite(),
            n == self.pending().dom().len(),
    {
        proof {
            lemma_slots_count(self.waiting@);
        }
        self.waiting.len()
    }

    /// Records that `id` is pending and leaves `waiter` for it. An identifier that was
    /// not handed out, or that is pending already, is refused, and the waiter comes back.
    pub fn register(&mut self, id: u64, waiter: W) -> (r: Result<(), W>)
        requires
            old(self).wf(),
        ensures
            final(self).wf(),
            final(self).next_free() == old(self).next_free(),
            match r {
                Ok(()) => {
                    &&& 1 <= id < old(self).next_free()
                    &&& !old(self).pending().dom().contains(id)
                    &&& final(self).pending() == old(self).pending().insert(id, waiter)
                },
                Err(w) => {
                    &&& !(1 <= id < old(self).next_free()) || old(self).pending().dom().contains(id)
                    &&& w == waiter
                    &&& final(self).pending() == old(self).pending()
                },
            },
    {
        if id < 1 || id >= self.next {
            return Err(waiter);
        }
        match self.position(id) {
            Some(_) => Err(waiter),
            None => {
                let slot = Slot { id, waiter };
                proof {
                    lemma_push_slot(self.waiting@, slot);
                }
                self.waiting.push(slot);
                Ok(())
            },
        }
    }

    /// Hands out the next identifier and records it as pending in one step, with `waiter`
    /// left for it.
    pub fn enroll(&mut self, waiter: W) -> (id: u64)
        requires
            old(self).wf(),
            old(self).next_free() < u64::MAX,
        ensures
            final(self).wf(),
            id == old(self).next_free(),
            final(self).next_free() == id + 1,
            !old(self).pending().dom().contains(id),
            final(self).pending() == old(self).pending().insert(id, waiter),
    {
        let id = self.next;
        let slot = Slot { id, waiter };
        proof {
            assert(!has_id(self.waiting@, id)) by {
                if has_id(self.waiting@, id) {
                    let k = choose|k: int|
                        0 <= k < self.waiting@.len() && #[trigger] self.waiting@[k].id == id;
                    assert(self.waiting@[k].id < self.next);
                }
            }
            lemma_push_slot(self.waiting@, slot);
        }
        self.waiting.push(slot);
        self.next = id + 1;
        id
    }

    /// Takes the waiter of `id` out of the table, for the response to be handed to it.
    /// Where `id` is not pending there is nobody to hand it to, and nothing changes.
    pub fn resolve(&mut self, id: u64) -> (r: Option<W>)
        requires
            old(self).wf(),
        ensures
            final(self).wf(),
            final(self).next_free() == old(self).next_free(),
            r == addressee(old(self).pending(), id),
            r is Some ==> final(self).pending() == after_resolve(old(self).pending(), id),
            r is None ==> final(self).pending() == old(self).pending(),
    {
        match self.position(id) {
            Some(i) => {
                proof {
                    lemma_slot_in_map(self.waiting@, i as int);
                    lemma_remove_slot(self.waiting@, i as int);
                }
                let slot = self.waiting.remove(i);
                Some(slot.waiter)
            },
            None => None,
        }
    }

    /// Empties the table and hands every pending request over, so that each can be told
    /// that no response will come.
    pub fn fail_all(&mut self) -> (all: Vec<Slot<W>>)
        requires
            old(self).wf(),
        ensures
            final(self).wf(),
            final(self).next_free() == old(self).next_free(),
            final(self).pending() == Map::<u64, W>::empty(),
            distinct_ids(all@),
            slots_map(all@) == old(self).pending(),
    {
        let mut all: Vec<Slot<W>> = Vec::new();
        std::mem::swap(&mut all, &mut self.waiting);
        assert(self.pending() =~= Map::<u64, W>::empty());
        all
    }
}

} // verus!

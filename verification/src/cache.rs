use vstd::prelude::*;

use crate::advertisement::{duplicate_rows, rows_eq, PartialAdvertisement};
use crate::request::Params;

verus! {

/// What a cache slot holds for its key: a computation someone is running
/// right now, or a finished result with the moment it was stored.
pub enum SlotState {
    Pending,
    Ready { rows: Vec<PartialAdvertisement>, stored_at: u64 },
}

/// One key of the cache with its state.
pub struct Slot {
    pub key: Params,
    pub state: SlotState,
}

/// No two slots share a key.
pub open spec fn distinct_keys(slots: Seq<Slot>) -> bool {
    forall|i: int, j: int|
        0 <= i < j < slots.len() ==> (#[trigger] slots[i]).key != (#[trigger] slots[j]).key
}

/// Some slot carries this key.
pub open spec fn has_key(slots: Seq<Slot>, k: Params) -> bool {
    exists|i: int| 0 <= i < slots.len() && (#[trigger] slots[i]).key == k
}

/// The index of the slot carrying this key (unique under `distinct_keys`).
pub open spec fn key_index(slots: Seq<Slot>, k: Params) -> int {
    choose|i: int| 0 <= i < slots.len() && (#[trigger] slots[i]).key == k
}

/// A computation for this key is in flight.
pub open spec fn is_pending(slots: Seq<Slot>, k: Params) -> bool {
    has_key(slots, k) && slots[key_index(slots, k)].state is Pending
}

/// A finished result for this key is resident.
pub open spec fn is_ready(slots: Seq<Slot>, k: Params) -> bool {
    has_key(slots, k) && slots[key_index(slots, k)].state is Ready
}

/// The resident result for this key.
pub open spec fn ready_rows(slots: Seq<Slot>, k: Params) -> Seq<PartialAdvertisement> {
    match slots[key_index(slots, k)].state {
        SlotState::Ready { rows, stored_at } => rows@,
        SlotState::Pending => Seq::empty(),
    }
}

/// When the resident result for this key was stored.
pub open spec fn ready_time(slots: Seq<Slot>, k: Params) -> int {
    match slots[key_index(slots, k)].state {
        SlotState::Ready { rows, stored_at } => stored_at as int,
        SlotState::Pending => 0,
    }
}

/// The weight of a slot: the number of result rows it holds.
pub open spec fn weight_of(st: SlotState) -> int {
    match st {
        SlotState::Pending => 0,
        SlotState::Ready { rows, stored_at } => rows@.len() as int,
    }
}

/// The aggregate weight of the cache: the sum of all slot weights.
pub open spec fn total_weight(slots: Seq<Slot>) -> int
    decreases slots.len(),
{
    if slots.len() == 0 {
        0
    } else {
        weight_of(slots[0].state) + total_weight(slots.drop_first())
    }
}

/// Pins `key_index` to a known slot: under distinct keys, any slot
/// carrying the key is the slot of that key.
pub proof fn lemma_key_index(slots: Seq<Slot>, k: Params, i: int)
    requires
        distinct_keys(slots),
        0 <= i < slots.len(),
        slots[i].key == k,
    ensures
        has_key(slots, k),
        key_index(slots, k) == i,
{
    assert(has_key(slots, k));
    let j = key_index(slots, k);
    if i < j {
        assert(slots[i].key != slots[j].key);
    } else if j < i {
        assert(slots[j].key != slots[i].key);
    }
}

pub proof fn lemma_weight_append(a: Seq<Slot>, b: Seq<Slot>)
    ensures
        total_weight(a + b) == total_weight(a) + total_weight(b),
    decreases a.len(),
{
    if a.len() == 0 {
        assert(a + b =~= b);
    } else {
        assert((a + b).drop_first() =~= a.drop_first() + b);
        assert((a + b)[0] == a[0]);
        lemma_weight_append(a.drop_first(), b);
    }
}

pub proof fn lemma_weight_nonneg(s: Seq<Slot>)
    ensures
        total_weight(s) >= 0,
    decreases s.len(),
{
    if s.len() > 0 {
        lemma_weight_nonneg(s.drop_first());
    }
}

pub proof fn lemma_weight_single(x: Slot)
    ensures
        total_weight(seq![x]) == weight_of(x.state),
{
    assert(seq![x].drop_first() =~= Seq::<Slot>::empty());
    assert(total_weight(Seq::<Slot>::empty()) == 0);
}

pub proof fn lemma_weight_push(s: Seq<Slot>, x: Slot)
    ensures
        total_weight(s.push(x)) == total_weight(s) + weight_of(x.state),
{
    assert(s.push(x) =~= s + seq![x]);
    lemma_weight_append(s, seq![x]);
    lemma_weight_single(x);
}

pub proof fn lemma_weight_remove(s: Seq<Slot>, i: int)
    requires
        0 <= i < s.len(),
    ensures
        total_weight(s.remove(i)) == total_weight(s) - weight_of(s[i].state),
{
    let left = s.take(i);
    let mid = seq![s[i]];
    let right = s.skip(i + 1);
    assert(s =~= left + mid + right);
    assert(s.remove(i) =~= left + right);
    lemma_weight_append(left + mid, right);
    lemma_weight_append(left, mid);
    lemma_weight_append(left, right);
    lemma_weight_single(s[i]);
}

/// A positive aggregate weight means some slot is ready (pending slots
/// weigh nothing).
pub proof fn lemma_weight_pos_ready(s: Seq<Slot>)
    requires
        total_weight(s) > 0,
    ensures
        exists|i: int| 0 <= i < s.len() && (#[trigger] s[i]).state is Ready,
    decreases s.len(),
{
    if weight_of(s[0].state) > 0 {
        assert(s[0].state is Ready);
    } else {
        lemma_weight_pos_ready(s.drop_first());
        let j = choose|i: int|
            0 <= i < s.drop_first().len() && (#[trigger] s.drop_first()[i]).state is Ready;
        assert(s[j + 1] == s.drop_first()[j]);
    }
}

/// Entries under other keys are carried over unchanged from `a` to `b`:
/// pending stays pending (and only then), and a ready entry of `b` is the
/// ready entry of `a` with the same result and age.
pub open spec fn others_preserved(a: Seq<Slot>, b: Seq<Slot>, k: Params) -> bool {
    forall|k2: Params|
        #![trigger is_pending(b, k2)]
        #![trigger is_ready(b, k2)]
        k2 != k ==> {
            &&& is_pending(b, k2) == is_pending(a, k2)
            &&& is_ready(b, k2) == is_ready(a, k2)
            &&& (is_ready(a, k2) ==> ready_rows(b, k2) == ready_rows(a, k2) && ready_time(b, k2)
                == ready_time(a, k2))
        }
}

/// Entries under other keys survive at most: pending ones exactly, ready
/// ones either unchanged or evicted.
pub open spec fn others_at_most(a: Seq<Slot>, b: Seq<Slot>, k: Params) -> bool {
    forall|k2: Params|
        #![trigger is_pending(b, k2)]
        #![trigger is_ready(b, k2)]
        k2 != k ==> {
            &&& is_pending(b, k2) == is_pending(a, k2)
            &&& (is_ready(b, k2) ==> is_ready(a, k2) && ready_rows(b, k2) == ready_rows(a, k2)
                && ready_time(b, k2) == ready_time(a, k2))
        }
}

/// Removing one slot leaves every other key exactly as it was.
pub proof fn lemma_remove_preserves(slots: Seq<Slot>, idx: int, k2: Params)
    requires
        distinct_keys(slots),
        0 <= idx < slots.len(),
        slots[idx].key != k2,
    ensures
        distinct_keys(slots.remove(idx)),
        is_pending(slots.remove(idx), k2) == is_pending(slots, k2),
        is_ready(slots.remove(idx), k2) == is_ready(slots, k2),
        is_ready(slots, k2) ==> ready_rows(slots.remove(idx), k2) == ready_rows(slots, k2)
            && ready_time(slots.remove(idx), k2) == ready_time(slots, k2),
        !has_key(slots.remove(idx), slots[idx].key),
{
    let s2 = slots.remove(idx);
    assert forall|i: int, j: int| 0 <= i < j < s2.len() implies (#[trigger] s2[i]).key != (
    #[trigger] s2[j]).key by {
        let oi = if i < idx {
            i
        } else {
            i + 1
        };
        let oj = if j < idx {
            j
        } else {
            j + 1
        };
        assert(s2[i] == slots[oi]);
        assert(s2[j] == slots[oj]);
    }
    if has_key(slots, k2) {
        let oi = key_index(slots, k2);
        assert(oi != idx);
        let ni = if oi < idx {
            oi
        } else {
            oi - 1
        };
        assert(s2[ni] == slots[oi]);
        lemma_key_index(s2, k2, ni);
    }
    if has_key(s2, k2) {
        let ni = key_index(s2, k2);
        let oi = if ni < idx {
            ni
        } else {
            ni + 1
        };
        assert(s2[ni] == slots[oi]);
        lemma_key_index(slots, k2, oi);
    }
    if has_key(s2, slots[idx].key) {
        let ni = key_index(s2, slots[idx].key);
        let oi = if ni < idx {
            ni
        } else {
            ni + 1
        };
        assert(s2[ni] == slots[oi]);
        if oi < idx {
            assert(slots[oi].key != slots[idx].key);
        } else {
            assert(slots[idx].key != slots[oi].key);
        }
    }
}

/// Removing a key's slot removes the key: no second slot carries it.
pub proof fn lemma_remove_own_key(slots: Seq<Slot>, idx: int)
    requires
        distinct_keys(slots),
        0 <= idx < slots.len(),
    ensures
        !has_key(slots.remove(idx), slots[idx].key),
{
    let s2 = slots.remove(idx);
    if has_key(s2, slots[idx].key) {
        let ni = key_index(s2, slots[idx].key);
        let oi = if ni < idx {
            ni
        } else {
            ni + 1
        };
        assert(s2[ni] == slots[oi]);
        if oi < idx {
            assert(slots[oi].key != slots[idx].key);
        } else {
            assert(slots[idx].key != slots[oi].key);
        }
    }
}

/// Appending a slot under a fresh key keeps the keys distinct.
pub proof fn lemma_push_distinct(slots: Seq<Slot>, x: Slot)
    requires
        distinct_keys(slots),
        !has_key(slots, x.key),
    ensures
        distinct_keys(slots.push(x)),
{
    let s2 = slots.push(x);
    assert forall|i: int, j: int| 0 <= i < j < s2.len() implies (#[trigger] s2[i]).key != (
    #[trigger] s2[j]).key by {
        if j < s2.len() - 1 {
            assert(s2[i] == slots[i]);
            assert(s2[j] == slots[j]);
        } else {
            assert(s2[i] == slots[i]);
            assert(s2[j] == x);
            assert(!(0 <= i < slots.len() && slots[i].key == x.key));
        }
    }
}

/// Appending a slot under a fresh key leaves every other key as it was.
pub proof fn lemma_push_preserves(slots: Seq<Slot>, x: Slot, k2: Params)
    requires
        distinct_keys(slots),
        !has_key(slots, x.key),
        x.key != k2,
    ensures
        distinct_keys(slots.push(x)),
        is_pending(slots.push(x), k2) == is_pending(slots, k2),
        is_ready(slots.push(x), k2) == is_ready(slots, k2),
        is_ready(slots, k2) ==> ready_rows(slots.push(x), k2) == ready_rows(slots, k2)
            && ready_time(slots.push(x), k2) == ready_time(slots, k2),
{
    let s2 = slots.push(x);
    assert forall|i: int, j: int| 0 <= i < j < s2.len() implies (#[trigger] s2[i]).key != (
    #[trigger] s2[j]).key by {
        if j < s2.len() - 1 {
            assert(s2[i] == slots[i]);
            assert(s2[j] == slots[j]);
        } else {
            assert(s2[i] == slots[i]);
            assert(s2[j] == x);
            assert(!(0 <= i < slots.len() && slots[i].key == x.key));
        }
    }
    if has_key(slots, k2) {
        let oi = key_index(slots, k2);
        assert(s2[oi] == slots[oi]);
        lemma_key_index(s2, k2, oi);
    }
    if has_key(s2, k2) {
        let ni = key_index(s2, k2);
        if ni == slots.len() as int {
            assert(s2[ni] == x);
            assert(false);
        } else {
            assert(s2[ni] == slots[ni]);
            lemma_key_index(slots, k2, ni);
        }
    }
}

/// How a lookup at one instant classifies a key: an in-flight
/// computation wins, then a live entry, otherwise the caller must
/// compute.
pub enum LookupKind {
    Hit,
    Wait,
    Compute,
}

/// The lookup decision as a function of the cache contents, the key, the
/// instant, and the time-to-live.
pub open spec fn lookup_outcome(slots: Seq<Slot>, k: Params, now: int, ttl: int) -> LookupKind {
    if is_pending(slots, k) {
        LookupKind::Wait
    } else if is_ready(slots, k) && now < ready_time(slots, k) + ttl {
        LookupKind::Hit
    } else {
        LookupKind::Compute
    }
}

/// While a computation for a key is in flight, a lookup for that key at
/// any instant is told to wait, never to compute again: at most one
/// computation runs per key at any moment, and every concurrent caller
/// observes that one computation's outcome.
pub proof fn lemma_single_flight(slots: Seq<Slot>, k: Params, now: int, ttl: int)
    requires
        is_pending(slots, k),
    ensures
        lookup_outcome(slots, k, now, ttl) is Wait,
{
}

/// A resident entry still inside its time-to-live is served as a hit,
/// without invoking any computation.
pub proof fn lemma_fresh_entry_is_served(slots: Seq<Slot>, k: Params, now: int, ttl: int)
    requires
        is_ready(slots, k),
        now < ready_time(slots, k) + ttl,
    ensures
        lookup_outcome(slots, k, now, ttl) is Hit,
{
}

/// An entry whose time-to-live has elapsed is treated as absent, even if
/// it is still resident: the lookup never answers with it.
pub proof fn lemma_expired_never_hit(slots: Seq<Slot>, k: Params, now: int, ttl: int)
    requires
        is_ready(slots, k),
        now >= ready_time(slots, k) + ttl,
    ensures
        !(lookup_outcome(slots, k, now, ttl) is Hit),
{
}

/// What `lookup` answers a reader.
pub enum Lookup {
    /// A live entry: its rows, straight from the cache.
    Hit(Vec<PartialAdvertisement>),
    /// No live entry and nobody computing: the caller must run the query
    /// and hand the outcome back through `complete_ok` or
    /// `complete_err`.
    MustCompute,
    /// Someone else is already computing this key: await their outcome.
    Wait,
}

/// The kind of an answer.
pub open spec fn kind_of(r: Lookup) -> LookupKind {
    match r {
        Lookup::Hit(rows) => LookupKind::Hit,
        Lookup::MustCompute => LookupKind::Compute,
        Lookup::Wait => LookupKind::Wait,
    }
}

/// A read-through cache over query results, keyed by the full request.
/// Entries weigh their row count; the aggregate weight never exceeds
/// `capacity`. Entries expire `ttl` seconds after they were stored.
/// Eviction removes resident results oldest-first and never touches
/// in-flight markers.
pub struct ReadCache {
    pub slots: Vec<Slot>,
    pub capacity: u64,
    pub ttl: u64,
}

impl ReadCache {
    /// Keys are unique and the aggregate weight is within the budget.
    pub open spec fn wf(self) -> bool {
        &&& distinct_keys(self.slots@)
        &&& total_weight(self.slots@) <= self.capacity as int
    }

    /// An empty cache with the given weight budget and time-to-live.
    pub fn with_config(capacity: u64, ttl: u64) -> (c: Self)
        ensures
            c.wf(),
            c.slots@.len() == 0,
            c.capacity == capacity,
            c.ttl == ttl,
    {
        let c = ReadCache { slots: Vec::new(), capacity, ttl };
        proof {
            assert(total_weight(c.slots@) == 0);
        }
        c
    }

    /// An empty cache with the production budget: 131072 rows, entries
    /// living 60 seconds.
    pub fn new() -> (c: Self)
        ensures
            c.wf(),
            c.slots@.len() == 0,
            c.capacity == 131072,
            c.ttl == 60,
    {
        Self::with_config(131072, 60)
    }

    /// The slot of a key, if any.
    fn find_slot(&self, key: &Params) -> (r: Option<usize>)
        requires
            distinct_keys(self.slots@),
        ensures
            match r {
                Some(i) => i < self.slots@.len() && self.slots@[i as int].key == *key && has_key(
                    self.slots@,
                    *key,
                ) && key_index(self.slots@, *key) == i,
                None => !has_key(self.slots@, *key),
            },
    {
        let mut i: usize = 0;
        while i < self.slots.len()
            invariant
                i <= self.slots@.len(),
                distinct_keys(self.slots@),
                forall|j: int| 0 <= j < i ==> (#[trigger] self.slots@[j]).key != *key,
            decreases self.slots@.len() - i,
        {
            if self.slots[i].key.key_eq(key) {
                proof {
                    lemma_key_index(self.slots@, *key, i as int);
                }
                return Some(i);
            }
            i = i + 1;
        }
        None
    }

    /// The aggregate weight, computed.
    pub fn weight(&self) -> (r: u64)
        requires
            total_weight(self.slots@) <= u64::MAX,
        ensures
            r == total_weight(self.slots@),
    {
        let mut acc: u64 = 0;
        let mut i: usize = 0;
        while i < self.slots.len()
            invariant
                i <= self.slots@.len(),
                total_weight(self.slots@) <= u64::MAX,
                acc == total_weight(self.slots@.take(i as int)),
            decreases self.slots@.len() - i,
        {
            proof {
                assert(self.slots@.take(i as int + 1) =~= self.slots@.take(i as int) + seq![
                    self.slots@[i as int],
                ]);
                lemma_weight_append(self.slots@.take(i as int), seq![self.slots@[i as int]]);
                lemma_weight_single(self.slots@[i as int]);
                assert(self.slots@ =~= self.slots@.take(i as int + 1) + self.slots@.skip(
                    i as int + 1,
                ));
                lemma_weight_append(self.slots@.take(i as int + 1), self.slots@.skip(i as int + 1));
                lemma_weight_nonneg(self.slots@.skip(i as int + 1));
                lemma_weight_nonneg(self.slots@.take(i as int));
            }
            let w: u64 = match &self.slots[i].state {
                SlotState::Pending => 0,
                SlotState::Ready { rows, stored_at } => rows.len() as u64,
            };
            acc = acc + w;
            i = i + 1;
        }
        proof {
            assert(self.slots@.take(self.slots@.len() as int) =~= self.slots@);
        }
        acc
    }

    /// Removes the slot of a key, if any; every other key keeps its
    /// state.
    fn remove_slot(&mut self, key: &Params)
        requires
            distinct_keys(old(self).slots@),
        ensures
            distinct_keys(final(self).slots@),
            !has_key(final(self).slots@, *key),
            final(self).capacity == old(self).capacity,
            final(self).ttl == old(self).ttl,
            total_weight(final(self).slots@) <= total_weight(old(self).slots@),
            others_preserved(old(self).slots@, final(self).slots@, *key),
    {
        let ghost s0 = self.slots@;
        match self.find_slot(key) {
            Some(i) => {
                self.slots.remove(i);
                proof {
                    lemma_weight_remove(s0, i as int);
                    lemma_weight_nonneg(seq![s0[i as int]]);
                    lemma_weight_single(s0[i as int]);
                    assert(weight_of(s0[i as int].state) >= 0);
                    assert forall|k2: Params|
                        #![trigger is_pending(self.slots@, k2)]
                        #![trigger is_ready(self.slots@, k2)]
                    k2 != *key implies {
                        &&& is_pending(self.slots@, k2) == is_pending(s0, k2)
                        &&& is_ready(self.slots@, k2) == is_ready(s0, k2)
                        &&& (is_ready(s0, k2) ==> ready_rows(self.slots@, k2) == ready_rows(s0, k2)
                            && ready_time(self.slots@, k2) == ready_time(s0, k2))
                    } by {
                        lemma_remove_preserves(s0, i as int, k2);
                    }
                    assert(!has_key(self.slots@, *key)) by {
                        lemma_remove_own_key(s0, i as int);
                    }
                }
            },
            None => {},
        }
    }

    /// Looks a key up at instant `now` and claims the computation when
    /// nobody holds a live entry or an in-flight marker for it. The
    /// answer's kind is exactly `lookup_outcome` on the prior contents;
    /// a hit returns the resident rows; claiming marks the key pending
    /// and touches no other key.
    pub fn lookup(&mut self, key: &Params, now: u64) -> (r: Lookup)
        requires
            old(self).wf(),
        ensures
            final(self).wf(),
            final(self).capacity == old(self).capacity,
            final(self).ttl == old(self).ttl,
            kind_of(r) == lookup_outcome(old(self).slots@, *key, now as int, old(self).ttl as int),
            r matches Lookup::Hit(rows) ==> rows_eq(rows@, ready_rows(old(self).slots@, *key)),
            !(r is MustCompute) ==> final(self).slots@ == old(self).slots@,
            r is MustCompute ==> is_pending(final(self).slots@, *key) && others_preserved(
                old(self).slots@,
                final(self).slots@,
                *key,
            ),
    {
        let ghost s0 = self.slots@;
        match self.find_slot(key) {
            Some(i) => {
                match &self.slots[i].state {
                    SlotState::Pending => {
                        return Lookup::Wait;
                    },
                    SlotState::Ready { rows, stored_at } => {
                        if (now as u128) < (*stored_at as u128) + (self.ttl as u128) {
                            return Lookup::Hit(duplicate_rows(rows));
                        }
                    },
                }
                self.remove_slot(key);
                let ghost s1 = self.slots@;
                self.slots.push(Slot { key: *key, state: SlotState::Pending });
                proof {
                    lemma_weight_push(s1, Slot { key: *key, state: SlotState::Pending });
                    lemma_push_distinct(s1, Slot { key: *key, state: SlotState::Pending });
                    lemma_key_index(self.slots@, *key, s1.len() as int);
                    assert forall|k2: Params|
                        #![trigger is_pending(self.slots@, k2)]
                        #![trigger is_ready(self.slots@, k2)]
                    k2 != *key implies {
                        &&& is_pending(self.slots@, k2) == is_pending(s0, k2)
                        &&& is_ready(self.slots@, k2) == is_ready(s0, k2)
                        &&& (is_ready(s0, k2) ==> ready_rows(self.slots@, k2) == ready_rows(s0, k2)
                            && ready_time(self.slots@, k2) == ready_time(s0, k2))
                    } by {
                        lemma_push_preserves(s1, Slot { key: *key, state: SlotState::Pending }, k2);
                    }
                }
                Lookup::MustCompute
            },
            None => {
                let ghost s1 = self.slots@;
                self.slots.push(Slot { key: *key, state: SlotState::Pending });
                proof {
                    lemma_weight_push(s1, Slot { key: *key, state: SlotState::Pending });
                    lemma_push_distinct(s1, Slot { key: *key, state: SlotState::Pending });
                    lemma_key_index(self.slots@, *key, s1.len() as int);
                    assert forall|k2: Params|
                        #![trigger is_pending(self.slots@, k2)]
                        #![trigger is_ready(self.slots@, k2)]
                    k2 != *key implies {
                        &&& is_pending(self.slots@, k2) == is_pending(s0, k2)
                        &&& is_ready(self.slots@, k2) == is_ready(s0, k2)
                        &&& (is_ready(s0, k2) ==> ready_rows(self.slots@, k2) == ready_rows(s0, k2)
                            && ready_time(self.slots@, k2) == ready_time(s0, k2))
                    } by {
                        lemma_push_preserves(s1, Slot { key: *key, state: SlotState::Pending }, k2);
                    }
                }
                Lookup::MustCompute
            },
        }
    }

    /// The first resident result, for eviction.
    fn find_first_ready(&self) -> (r: usize)
        requires
            exists|i: int| 0 <= i < self.slots@.len() && (#[trigger] self.slots@[i]).state is Ready,
        ensures
            r < self.slots@.len(),
            self.slots@[r as int].state is Ready,
    {
        let mut i: usize = 0;
        while i < self.slots.len()
            invariant
                i <= self.slots@.len(),
                exists|j: int|
                    0 <= j < self.slots@.len() && (#[trigger] self.slots@[j]).state is Ready,
                forall|j: int| 0 <= j < i ==> !((#[trigger] self.slots@[j]).state is Ready),
            decreases self.slots@.len() - i,
        {
            let ready: bool = match &self.slots[i].state {
                SlotState::Ready { rows, stored_at } => true,
                SlotState::Pending => false,
            };
            if ready {
                return i;
            }
            i = i + 1;
        }
        proof {
            let j = choose|j: int|
                0 <= j < self.slots@.len() && (#[trigger] self.slots@[j]).state is Ready;
            assert(false);
        }
        0
    }

    /// Stores a finished computation for its key with the current
    /// instant, releasing the key's in-flight marker. A result heavier
    /// than the whole budget is not admitted. Otherwise resident results
    /// are evicted oldest-first until the new entry fits, so the
    /// aggregate weight stays within the budget; in-flight markers of
    /// other keys are never touched.
    pub fn complete_ok(&mut self, key: &Params, rows: Vec<PartialAdvertisement>, now: u64)
        requires
            old(self).wf(),
        ensures
            final(self).wf(),
            final(self).capacity == old(self).capacity,
            final(self).ttl == old(self).ttl,
            !is_pending(final(self).slots@, *key),
            rows@.len() <= old(self).capacity ==> is_ready(final(self).slots@, *key) && ready_rows(
                final(self).slots@,
                *key,
            ) == rows@ && ready_time(final(self).slots@, *key) == now,
            rows@.len() > old(self).capacity ==> !has_key(final(self).slots@, *key),
            others_at_most(old(self).slots@, final(self).slots@, *key),
    {
        let ghost s0 = self.slots@;
        self.remove_slot(key);
        let w: u64 = rows.len() as u64;
        if w > self.capacity {
            return ;
        }
        let ghost sbase = self.slots@;
        loop
            invariant
                distinct_keys(self.slots@),
                !has_key(self.slots@, *key),
                total_weight(self.slots@) <= self.capacity as int,
                self.capacity == old(self).capacity,
                self.ttl == old(self).ttl,
                w == rows@.len(),
                w <= self.capacity,
                others_at_most(sbase, self.slots@, *key),
            ensures
                distinct_keys(self.slots@),
                !has_key(self.slots@, *key),
                total_weight(self.slots@) + w <= self.capacity as int,
                self.capacity == old(self).capacity,
                self.ttl == old(self).ttl,
                others_at_most(sbase, self.slots@, *key),
            decreases self.slots@.len(),
        {
            proof {
                lemma_weight_nonneg(self.slots@);
            }
            let cur = self.weight();
            if (cur as u128) + (w as u128) <= (self.capacity as u128) {
                break ;
            }
            proof {
                lemma_weight_pos_ready(self.slots@);
            }
            let ghost sc = self.slots@;
            let idx = self.find_first_ready();
            let ghost evicted = self.slots@[idx as int];
            self.slots.remove(idx);
            proof {
                lemma_weight_remove(sc, idx as int);
                assert(weight_of(evicted.state) >= 0);
                lemma_key_index(sc, evicted.key, idx as int);
                assert(!has_key(self.slots@, evicted.key)) by {
                    lemma_remove_own_key(sc, idx as int);
                }
                assert forall|k2: Params|
                    #![trigger is_pending(self.slots@, k2)]
                    #![trigger is_ready(self.slots@, k2)]
                k2 != *key implies {
                    &&& is_pending(self.slots@, k2) == is_pending(sbase, k2)
                    &&& (is_ready(self.slots@, k2) ==> is_ready(sbase, k2) && ready_rows(
                        self.slots@,
                        k2,
                    ) == ready_rows(sbase, k2) && ready_time(self.slots@, k2) == ready_time(
                        sbase,
                        k2,
                    ))
                } by {
                    if k2 == evicted.key {
                        assert(is_ready(sc, k2));
                        assert(!is_pending(sc, k2));
                        assert(!has_key(self.slots@, k2)) by {
                            lemma_remove_own_key(sc, idx as int);
                        }
                        assert(!is_pending(self.slots@, k2));
                        assert(!is_ready(self.slots@, k2));
                    } else {
                        lemma_remove_preserves(sc, idx as int, k2);
                    }
                }
                assert(!has_key(self.slots@, *key)) by {
                    if has_key(self.slots@, *key) {
                        let ni = key_index(self.slots@, *key);
                        let oi = if ni < idx as int {
                            ni
                        } else {
                            ni + 1
                        };
                        assert(self.slots@[ni] == sc[oi]);
                        lemma_key_index(sc, *key, oi);
                    }
                }
            }
        }
        let ghost s1 = self.slots@;
        let new_slot = Slot { key: *key, state: SlotState::Ready { rows, stored_at: now } };
        self.slots.push(new_slot);
        proof {
            lemma_weight_push(s1, new_slot);
            lemma_push_distinct(s1, new_slot);
            lemma_key_index(self.slots@, *key, s1.len() as int);
            assert(weight_of(new_slot.state) == w);
            assert forall|k2: Params|
                #![trigger is_pending(self.slots@, k2)]
                #![trigger is_ready(self.slots@, k2)]
            k2 != *key implies {
                &&& is_pending(self.slots@, k2) == is_pending(s0, k2)
                &&& (is_ready(self.slots@, k2) ==> is_ready(s0, k2) && ready_rows(self.slots@, k2)
                    == ready_rows(s0, k2) && ready_time(self.slots@, k2) == ready_time(s0, k2))
            } by {
                lemma_push_preserves(s1, new_slot, k2);
            }
        }
    }

    /// Releases the key's in-flight marker after a failed computation.
    /// Nothing is cached, so the next lookup for the key computes
    /// afresh; every other key keeps its state.
    pub fn complete_err(&mut self, key: &Params)
        requires
            old(self).wf(),
        ensures
            final(self).wf(),
            final(self).capacity == old(self).capacity,
            final(self).ttl == old(self).ttl,
            !has_key(final(self).slots@, *key),
            others_preserved(old(self).slots@, final(self).slots@, *key),
    {
        self.remove_slot(key);
    }
}

} // verus!

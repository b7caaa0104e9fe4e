//! Slots of the pixel arena that encode workers read from.
//!
//! One arena of memory is divided into slots of equal size. Each lease writes
//! its payload into a free slot between two copies of a generation number, and
//! ships a descriptor that carries the same number, so that a reader can tell
//! when the slot was reused under it.

use crate::bytes::{
    byte_ranges, from_le_bytes, le_bytes, le_bytes_len, le_bytes_round_trip, push_le,
    twos_complement, twos_complement_bits,
};
use crate::dash::{
    leases_in, lease_map_entries, lease_map_insert, lease_map_new, lease_map_remove, LeaseMap,
};
use crate::grpc::multimodal::types::TransportMode;
use crate::text::{
    decimal_is_digits, decimal_round_trip, decimal_text, large_numbers_are_refused, parse_signed,
    parse_unsigned, same, signed_value, unsigned_value,
};
use vstd::prelude::*;
use vstd::utf8::encode_utf8;

verus! {

pub const DEFAULT_POOL_SLOTS: usize = 64;

pub const DEFAULT_SLOT_BYTES: usize = 33554432;

/// Bytes of one generation stamp.
pub const GEN_BYTES: usize = 8;

/// Header + trailer generation stamps bracketing the payload.
pub const FRAME_OVERHEAD: usize = 16;

pub const DEFAULT_LANDING_WAIT_S: u64 = 120;

pub const DEFAULT_READ_TIMEOUT_S: u64 = 60;

/// Fixed slack added to a worker's longest hold when deriving the slot TTL.
pub const SLOT_TTL_SLACK_S: u64 = 30;

pub const DEFAULT_LISTEN_PORT: u16 = 18515;

/// What a slot holds for a lease.
pub open spec fn frame(gen: u64, payload: Seq<u8>) -> Seq<u8> {
    le_bytes(gen as nat, 8) + payload + le_bytes(gen as nat, 8)
}

/// The lease was taken at least `ttl` before `now`.
pub open spec fn is_stale(lease: (u32, u128), now: u128, ttl: u128) -> bool {
    ttl == 0 || now - lease.1 >= ttl
}

/// `slot` is leased, and the lease was taken at least `ttl` before `now`.
pub open spec fn is_stale_slot(
    leases: Map<i64, (u32, u128)>,
    slot: u32,
    now: u128,
    ttl: u128,
) -> bool {
    exists|room: i64| #[trigger]
        leases.dom().contains(room) && is_stale(leases[room], now, ttl) && leases[room].0 == slot
}

/// One of `tags` spells `room`.
pub open spec fn names_room(tags: Seq<String>, room: i64) -> bool {
    exists|i: int|
        0 <= i < tags.len() && signed_value((#[trigger] tags[i])@) == Some(room as int)
}

/// The lease of `room` ends in a round of reaping: a worker reported its read, or
/// the lease has run out.
pub open spec fn is_reaped(
    leases: Map<i64, (u32, u128)>,
    tags: Seq<String>,
    now: u128,
    ttl: u128,
    room: i64,
) -> bool {
    leases.dom().contains(room) && (names_room(tags, room) || is_stale(leases[room], now, ttl))
}

/// Slot bookkeeping over the arena's memory. Times are nanoseconds on one
/// monotonic clock.
pub struct SlotPool {
    /// Address of the arena.
    base: usize,
    slot_bytes: usize,
    n_slots: usize,
    arena: Vec<u8>,
    /// Available slot indices; the last one is leased next.
    free: Vec<u32>,
    /// Leased slots by room.
    occupied: LeaseMap,
    /// Stamp of the next lease.
    gen: u64,
}

/// A tag more names one room more.
proof fn lemma_one_more_tag(tags: Seq<String>, k: int)
    requires
        0 <= k < tags.len(),
    ensures
        forall|room: i64| #[trigger]
            names_room(tags.take(k + 1), room) <==> names_room(tags.take(k), room) || signed_value(
                tags[k]@,
            ) == Some(room as int),
{
    assert forall|room: i64| #[trigger]
        names_room(tags.take(k + 1), room) <==> names_room(tags.take(k), room) || signed_value(
            tags[k]@,
        ) == Some(room as int) by {
        let t0 = tags.take(k);
        let t1 = tags.take(k + 1);
        assert(t1[k] == tags[k]);
        if names_room(t1, room) {
            let i = choose|i: int|
                0 <= i < t1.len() && signed_value((#[trigger] t1[i])@) == Some(room as int);
            if i < k {
                assert(t0[i] == t1[i]);
            }
        }
        if names_room(t0, room) {
            let i = choose|i: int|
                0 <= i < t0.len() && signed_value((#[trigger] t0[i])@) == Some(room as int);
            assert(t1[i] == t0[i]);
        }
    }
}

/// What a sequence holds once `x` was pushed.
proof fn lemma_pushed(s: Seq<u32>, x: u32, y: u32)
    ensures
        s.push(x).contains(y) <==> s.contains(y) || x == y,
{
    assert(s.push(x)[s.len() as int] == x);
    if s.contains(y) {
        let i = choose|i: int| 0 <= i < s.len() && s[i] == y;
        assert(s.push(x)[i] == y);
    }
    if s.push(x).contains(y) {
        let i = choose|i: int| 0 <= i < s.push(x).len() && s.push(x)[i] == y;
        if i < s.len() {
            assert(s[i] == y);
        }
    }
}

/// No slot is lost where what is no longer leased has become free.
proof fn lemma_stays_complete(before: SlotPool, after: SlotPool)
    requires
        before.is_complete(),
        after.n_slots() == before.n_slots(),
        forall|slot: u32| #[trigger]
            before.free_slots().contains(slot) ==> after.free_slots().contains(slot),
        forall|room: i64| #[trigger]
            before.leases().dom().contains(room) ==> after.free_slots().contains(
                before.leases()[room].0,
            ) || (after.leases().dom().contains(room) && after.leases()[room]
                == before.leases()[room]),
    ensures
        after.is_complete(),
{
    assert forall|slot: u32| slot < after.n_slots() implies #[trigger] after.free_slots().contains(
        slot,
    ) || after.is_leased(slot) by {
        if !before.free_slots().contains(slot) {
            assert(before.is_leased(slot));
            let room = choose|room: i64| #[trigger]
                before.leases().dom().contains(room) && before.leases()[room].0 == slot;
            if !after.free_slots().contains(slot) {
                assert(after.leases().dom().contains(room));
            }
        }
    }
}

impl SlotPool {
    pub closed spec fn base(&self) -> usize {
        self.base
    }

    pub closed spec fn slot_bytes(&self) -> usize {
        self.slot_bytes
    }

    pub closed spec fn n_slots(&self) -> usize {
        self.n_slots
    }

    /// The arena's contents.
    pub closed spec fn memory(&self) -> Seq<u8> {
        self.arena@
    }

    /// The free slots, in the order in which they were given back.
    pub closed spec fn free_slots(&self) -> Seq<u32> {
        self.free@
    }

    /// The leased slots, with the time of the lease.
    pub closed spec fn leases(&self) -> Map<i64, (u32, u128)> {
        leases_in(self.occupied)
    }

    pub closed spec fn next_gen(&self) -> u64 {
        self.gen
    }

    /// Where `slot` begins in the arena.
    pub open spec fn slot_start(&self, slot: u32) -> int {
        slot * self.slot_bytes()
    }

    /// The arena has room for every slot, and no slot is available twice: not
    /// on the free list, not in two leases, not both.
    pub open spec fn wf(&self) -> bool {
        &&& self.memory().len() == self.n_slots() * self.slot_bytes()
        &&& self.base() + self.n_slots() * self.slot_bytes() <= usize::MAX
        &&& self.n_slots() <= u32::MAX
        &&& self.free_slots().no_duplicates()
        &&& forall|i: int|
            0 <= i < self.free_slots().len() ==> (#[trigger] self.free_slots()[i]) < self.n_slots()
        &&& forall|room: i64| #[trigger]
            self.leases().dom().contains(room) ==> {
                &&& self.leases()[room].0 < self.n_slots()
                &&& !self.free_slots().contains(self.leases()[room].0)
            }
        &&& forall|a: i64, b: i64|
            #![trigger self.leases()[a], self.leases()[b]]
            self.leases().dom().contains(a) && self.leases().dom().contains(b) && a != b
                ==> self.leases()[a].0 != self.leases()[b].0
    }

    /// Everything but the contents of the free list and of the leases is the
    /// same.
    pub open spec fn same_arena(&self, other: &Self) -> bool {
        &&& self.base() == other.base()
        &&& self.slot_bytes() == other.slot_bytes()
        &&& self.n_slots() == other.n_slots()
        &&& self.memory() == other.memory()
        &&& self.next_gen() == other.next_gen()
    }

    pub open spec fn is_leased(&self, slot: u32) -> bool {
        exists|room: i64| #[trigger]
            self.leases().dom().contains(room) && self.leases()[room].0 == slot
    }

    /// No slot is lost: each is free or leased.
    pub open spec fn is_complete(&self) -> bool {
        forall|slot: u32|
            slot < self.n_slots() ==> #[trigger] self.free_slots().contains(slot)
                || self.is_leased(slot)
    }

    /// A pool over `arena`, which stands at address `base`. Stamps start at 1,
    /// so that a slot of zeros never carries one.
    pub fn new(base: usize, arena: Vec<u8>, slot_bytes: usize, n_slots: usize) -> (r: Self)
        requires
            arena@.len() == n_slots * slot_bytes,
            base + n_slots * slot_bytes <= usize::MAX,
            n_slots <= u32::MAX,
        ensures
            r.wf(),
            r.base() == base,
            r.slot_bytes() == slot_bytes,
            r.n_slots() == n_slots,
            r.memory() == arena@,
            r.free_slots() == Seq::new(n_slots as nat, |i: int| i as u32),
            r.leases() == Map::<i64, (u32, u128)>::empty(),
            r.next_gen() == 1,
            r.is_complete(),
    {
        let mut free: Vec<u32> = Vec::new();
        let mut i: u32 = 0;
        while (i as usize) < n_slots
            invariant
                i <= n_slots <= u32::MAX,
                free@ == Seq::new(i as nat, |j: int| j as u32),
            decreases n_slots - i,
        {
            free.push(i);
            assert(free@ =~= Seq::new((i + 1) as nat, |j: int| j as u32));
            i += 1;
        }
        let occupied: LeaseMap = lease_map_new();
        assert(leases_in(occupied) =~= Map::<i64, (u32, u128)>::empty());
        proof {
            assert forall|slot: u32| slot < n_slots implies #[trigger] free@.contains(slot) by {
                assert(free@[slot as int] == slot);
            }
        }
        SlotPool { base, slot_bytes, n_slots, arena, free, occupied, gen: 1 }
    }

    /// Writes `bytes` into the arena from `at` on.
    fn write(&mut self, at: usize, bytes: &Vec<u8>)
        requires
            at + bytes@.len() <= old(self).memory().len(),
        ensures
            final(self).memory() == old(self).memory().take(at as int) + bytes@ + old(
                self,
            ).memory().skip(at + bytes@.len()),
            final(self).free_slots() == old(self).free_slots(),
            final(self).leases() == old(self).leases(),
            final(self).base() == old(self).base(),
            final(self).slot_bytes() == old(self).slot_bytes(),
            final(self).n_slots() == old(self).n_slots(),
            final(self).next_gen() == old(self).next_gen(),
    {
        let mut i: usize = 0;
        assert(at + bytes@.len() <= self.arena.len());
        assert(self.arena@ =~= old(self).arena@.take(at as int) + bytes@.take(0) + old(
            self,
        ).arena@.skip(at as int));
        while i < bytes.len()
            invariant
                i <= bytes@.len(),
                at + bytes@.len() <= old(self).arena@.len(),
                at + bytes@.len() <= usize::MAX,
                self.arena@ == old(self).arena@.take(at as int) + bytes@.take(i as int) + old(
                    self,
                ).arena@.skip(at + i),
                self.free == old(self).free,
                self.occupied == old(self).occupied,
                self.base == old(self).base,
                self.slot_bytes == old(self).slot_bytes,
                self.n_slots == old(self).n_slots,
                self.gen == old(self).gen,
            decreases bytes@.len() - i,
        {
            self.arena.set(at + i, bytes[i]);
            assert(self.arena@ =~= old(self).arena@.take(at as int) + bytes@.take(i + 1) + old(
                self,
            ).arena@.skip(at + i + 1));
            i += 1;
        }
        assert(bytes@.take(bytes@.len() as int) =~= bytes@);
    }

    /// Lease a free slot for `room`, frame `bytes` as `[gen][payload][gen]` into
    /// it, and record the lease at `now`. Returns `(slot, slot_addr, gen)`, or
    /// `None` if the framed payload exceeds a slot or no slot is free.
    pub fn lease_and_write(&mut self, room: i64, bytes: &Vec<u8>, now: u128) -> (r: Option<
        (u32, u64, u64),
    >)
        requires
            old(self).wf(),
        ensures
            final(self).wf(),
            r is Some <==> bytes@.len() + FRAME_OVERHEAD <= old(self).slot_bytes() && old(
                self,
            ).free_slots().len() > 0,
            r is None ==> *final(self) == *old(self),
            old(self).is_complete() && !old(self).leases().dom().contains(room)
                ==> final(self).is_complete(),
            r matches Some((slot, addr, gen)) ==> {
                let start = old(self).slot_start(slot);
                let framed = frame(gen, bytes@);
                &&& slot == old(self).free_slots().last()
                &&& addr == old(self).base() + start
                &&& gen == old(self).next_gen()
                &&& final(self).base() == old(self).base()
                &&& final(self).slot_bytes() == old(self).slot_bytes()
                &&& final(self).n_slots() == old(self).n_slots()
                &&& final(self).free_slots() == old(self).free_slots().drop_last()
                &&& final(self).leases() == old(self).leases().insert(room, (slot, now))
                &&& final(self).next_gen() as int == if gen == u64::MAX {
                    0
                } else {
                    gen + 1
                }
                &&& final(self).memory() == old(self).memory().take(start) + framed + old(
                    self,
                ).memory().skip(start + framed.len())
            },
    {
        // Reserve room for the generation stamps bracketing the payload.
        if self.slot_bytes < FRAME_OVERHEAD || bytes.len() > self.slot_bytes - FRAME_OVERHEAD {
            return None;
        }
        if self.free.len() == 0 {
            return None;
        }
        let ghost before = *self;
        let slot: u32 = self.free[self.free.len() - 1];
        let ghost slots = self.n_slots as int;
        let ghost size = self.slot_bytes as int;
        assert(before.free_slots()[before.free_slots().len() - 1] == slot);
        assert(slot * size + size <= slots * size && 0 <= slot * size) by (nonlinear_arith)
            requires
                0 <= slot < slots,
                0 <= size,
        ;
        let start: usize = slot as usize * self.slot_bytes;
        let addr: usize = self.base + start;
        let gen: u64 = self.gen;
        let mut framed: Vec<u8> = Vec::new();
        push_le(&mut framed, gen, 8);
        framed.extend_from_slice(bytes.as_slice());
        push_le(&mut framed, gen, 8);
        proof {
            le_bytes_len(gen as nat, 8);
            assert(framed@ =~= frame(gen, bytes@));
        }
        self.write(start, &framed);
        let _ = self.free.pop();
        self.gen = gen.wrapping_add(1);
        lease_map_insert(&mut self.occupied, room, (slot, now));
        proof {
            let f0 = before.free_slots();
            let f1 = self.free_slots();
            assert(f1 =~= f0.drop_last());
            assert(f1.no_duplicates());
            assert forall|i: int| 0 <= i < f1.len() implies (#[trigger] f1[i]) < self.n_slots() by {
                assert(f1[i] == f0[i]);
            }
            assert(!f1.contains(slot)) by {
                assert forall|i: int| 0 <= i < f1.len() implies f1[i] != slot by {
                    assert(f0[i] != f0[f0.len() - 1]);
                }
            }
            assert(f0.contains(slot));
            assert forall|x: i64| #[trigger] self.leases().dom().contains(x) implies {
                &&& self.leases()[x].0 < self.n_slots()
                &&& !f1.contains(self.leases()[x].0)
            } by {
                if x != room {
                    assert(before.leases().dom().contains(x));
                    let s = before.leases()[x].0;
                    if f1.contains(s) {
                        let i = choose|i: int| 0 <= i < f1.len() && f1[i] == s;
                        assert(f0[i] == s);
                    }
                }
            }
            assert(self.memory().len() == before.memory().len());
            if before.is_complete() && !before.leases().dom().contains(room) {
                assert forall|s: u32| s < self.n_slots() implies #[trigger] f1.contains(s)
                    || self.is_leased(s) by {
                    assert(self.leases().dom().contains(room));
                    if f0.contains(s) {
                        let i = choose|i: int| 0 <= i < f0.len() && f0[i] == s;
                        if i < f1.len() {
                            assert(f1[i] == s);
                        }
                    } else {
                        assert(before.is_leased(s));
                        let x = choose|x: i64| #[trigger]
                            before.leases().dom().contains(x) && before.leases()[x].0 == s;
                        assert(self.leases().dom().contains(x));
                    }
                }
            }
        }
        Some((slot, addr as u64, gen))
    }

    /// Return the slot leased for `room` to the free list (idempotent).
    pub fn free_room(&mut self, room: i64)
        requires
            old(self).wf(),
        ensures
            final(self).wf(),
            final(self).same_arena(old(self)),
            old(self).is_complete() ==> final(self).is_complete(),
            final(self).leases() == old(self).leases().remove(room),
            final(self).free_slots() == if old(self).leases().dom().contains(room) {
                old(self).free_slots().push(old(self).leases()[room].0)
            } else {
                old(self).free_slots()
            },
    {
        let ghost before = *self;
        if let Some((_, lease)) = lease_map_remove(&mut self.occupied, room) {
            self.free.push(lease.0);
            proof {
                let f0 = before.free_slots();
                let f1 = self.free_slots();
                assert(f1 =~= f0.push(lease.0));
                assert(before.leases().dom().contains(room));
                assert forall|i: int| 0 <= i < f1.len() implies (#[trigger] f1[i])
                    < self.n_slots() by {
                    if i < f0.len() {
                        assert(f1[i] == f0[i]);
                    }
                }
                assert(f1.no_duplicates()) by {
                    assert forall|i: int, j: int|
                        0 <= i < f1.len() && 0 <= j < f1.len() && i != j implies f1[i]
                        != f1[j] by {
                        if i < f0.len() && j < f0.len() {
                            assert(f0[i] != f0[j]);
                        } else if i < f0.len() {
                            assert(f0.contains(f0[i]));
                        } else {
                            assert(f0.contains(f0[j]));
                        }
                    }
                }
                assert forall|x: i64| #[trigger] self.leases().dom().contains(x) implies {
                    &&& self.leases()[x].0 < self.n_slots()
                    &&& !f1.contains(self.leases()[x].0)
                } by {
                    assert(before.leases().dom().contains(x));
                    assert(before.leases()[x].0 != before.leases()[room].0);
                    let s = before.leases()[x].0;
                    if f1.contains(s) {
                        let i = choose|i: int| 0 <= i < f1.len() && f1[i] == s;
                        assert(i < f0.len());
                        assert(f0[i] == s);
                        assert(f0.contains(s));
                    }
                }
            }
        } else {
            assert(self.leases() =~= before.leases());
        }
        proof {
            if before.is_complete() {
                assert forall|slot: u32| #[trigger]
                    before.free_slots().contains(slot) implies self.free_slots().contains(slot) by {
                    lemma_pushed(before.free_slots(), before.leases()[room].0, slot);
                }
                lemma_pushed(
                    before.free_slots(),
                    before.leases()[room].0,
                    before.leases()[room].0,
                );
                lemma_stays_complete(before, *self);
            }
        }
    }

    /// Reclaim every slot whose lease is at least `ttl` old as of `now`.
    /// Returns how many were reclaimed.
    pub fn reap_stale(&mut self, now: u128, ttl: u128) -> (n: usize)
        requires
            old(self).wf(),
        ensures
            final(self).wf(),
            final(self).same_arena(old(self)),
            old(self).is_complete() ==> final(self).is_complete(),
            forall|room: i64| #[trigger]
                final(self).leases().dom().contains(room) <==> old(self).leases().dom().contains(
                    room,
                ) && !is_stale(old(self).leases()[room], now, ttl),
            forall|room: i64| #[trigger]
                final(self).leases().dom().contains(room) ==> final(self).leases()[room] == old(
                    self,
                ).leases()[room],
            final(self).free_slots().len() == old(self).free_slots().len() + n,
            final(self).free_slots().take(old(self).free_slots().len() as int) == old(
                self,
            ).free_slots(),
            forall|i: int|
                old(self).free_slots().len() <= i < final(self).free_slots().len()
                    ==> is_stale_slot(
                    old(self).leases(),
                    #[trigger] final(self).free_slots()[i],
                    now,
                    ttl,
                ),
            forall|room: i64| #[trigger]
                old(self).leases().dom().contains(room) && is_stale(
                    old(self).leases()[room],
                    now,
                    ttl,
                ) ==> final(self).free_slots().contains(old(self).leases()[room].0),
    {
        let entries: Vec<(i64, (u32, u128))> = lease_map_entries(&self.occupied);
        let ghost start = *self;
        let mut n: usize = 0;
        let mut k: usize = 0;
        assert(self.free_slots().take(start.free_slots().len() as int) =~= start.free_slots());
        while k < entries.len()
            invariant
                k <= entries@.len(),
                n <= k,
                start == *old(self),
                start.wf(),
                self.wf(),
                self.same_arena(&start),
                forall|i: int, j: int|
                    0 <= i < j < entries@.len() ==> (#[trigger] entries@[i]).0 != (
                    #[trigger] entries@[j]).0,
                forall|i: int|
                    0 <= i < entries@.len() ==> start.leases().dom().contains(
                        (#[trigger] entries@[i]).0,
                    ) && start.leases()[entries@[i].0] == entries@[i].1,
                forall|i: int|
                    0 <= i < k ==> (self.leases().dom().contains((#[trigger] entries@[i]).0)
                        <==> !is_stale(entries@[i].1, now, ttl)),
                forall|i: int|
                    k <= i < entries@.len() ==> self.leases().dom().contains(
                        (#[trigger] entries@[i]).0,
                    ),
                forall|room: i64| #[trigger]
                    self.leases().dom().contains(room) ==> start.leases().dom().contains(room)
                        && self.leases()[room] == start.leases()[room],
                self.free_slots().len() == start.free_slots().len() + n,
                self.free_slots().take(start.free_slots().len() as int) == start.free_slots(),
                forall|i: int|
                    start.free_slots().len() <= i < self.free_slots().len() ==> is_stale_slot(
                        start.leases(),
                        #[trigger] self.free_slots()[i],
                        now,
                        ttl,
                    ),
                forall|i: int|
                    0 <= i < k && is_stale((#[trigger] entries@[i]).1, now, ttl)
                        ==> self.free_slots().contains(entries@[i].1.0),
            decreases entries@.len() - k,
        {
            let room: i64 = entries[k].0;
            let at: u128 = entries[k].1.1;
            let ghost mid = *self;
            if (if now >= at { now - at } else { 0 }) >= ttl {
                self.free_room(room);
                n += 1;
                proof {
                    let f0 = mid.free_slots();
                    let f1 = self.free_slots();
                    assert(mid.leases().dom().contains(entries@[k as int].0));
                    assert(f1 == f0.push(start.leases()[room].0));
                    assert(f1.take(start.free_slots().len() as int) =~= f0.take(
                        start.free_slots().len() as int,
                    ));
                    assert forall|i: int|
                        start.free_slots().len() <= i < f1.len() implies is_stale_slot(
                        start.leases(),
                        #[trigger] f1[i],
                        now,
                        ttl,
                    ) by {
                        if i < f0.len() {
                            assert(f1[i] == f0[i]);
                        } else {
                            assert(start.leases().dom().contains(room));
                        }
                    }
                    assert forall|i: int|
                        0 <= i < k + 1 && is_stale(
                            (#[trigger] entries@[i]).1,
                            now,
                            ttl,
                        ) implies f1.contains(entries@[i].1.0) by {
                        if i < k {
                            let j = choose|j: int|
                                0 <= j < f0.len() && f0[j] == entries@[i].1.0;
                            assert(f1[j] == f0[j]);
                        } else {
                            assert(f1[f0.len() as int] == entries@[i].1.0);
                        }
                    }
                }
            }
            k += 1;
        }
        proof {
            assert forall|room: i64| #[trigger]
                self.leases().dom().contains(room) <==> start.leases().dom().contains(room)
                    && !is_stale(start.leases()[room], now, ttl) by {
                if start.leases().dom().contains(room) {
                    let i = choose|i: int|
                        0 <= i < entries@.len() && (#[trigger] entries@[i]).0 == room;
                    assert(entries@[i].0 == room);
                }
            }
            assert forall|room: i64| #[trigger]
                start.leases().dom().contains(room) && is_stale(
                    start.leases()[room],
                    now,
                    ttl,
                ) implies self.free_slots().contains(start.leases()[room].0) by {
                let i = choose|i: int|
                    0 <= i < entries@.len() && (#[trigger] entries@[i]).0 == room;
                assert(entries@[i].0 == room);
            }
        }
        proof {
            if start.is_complete() {
                let f0 = start.free_slots();
                assert forall|slot: u32| #[trigger] f0.contains(slot) implies self.free_slots().contains(
                    slot,
                ) by {
                    let i = choose|i: int| 0 <= i < f0.len() && f0[i] == slot;
                    assert(self.free_slots().take(f0.len() as int)[i] == slot);
                    assert(self.free_slots()[i] == slot);
                }
                lemma_stays_complete(start, *self);
            }
        }
        n
    }

    /// Returns the slots whose rooms `tags` name. A tag that spells no room, or a
    /// room without a lease, changes nothing.
    pub fn free_tagged(&mut self, tags: &Vec<String>)
        requires
            old(self).wf(),
        ensures
            final(self).wf(),
            final(self).same_arena(old(self)),
            old(self).is_complete() ==> final(self).is_complete(),
            forall|room: i64| #[trigger]
                final(self).leases().dom().contains(room) <==> old(self).leases().dom().contains(
                    room,
                ) && !names_room(tags@, room),
            forall|room: i64| #[trigger]
                final(self).leases().dom().contains(room) ==> final(self).leases()[room] == old(
                    self,
                ).leases()[room],
            forall|slot: u32| #[trigger]
                final(self).free_slots().contains(slot) <==> old(self).free_slots().contains(slot)
                    || exists|room: i64| #[trigger]
                    old(self).leases().dom().contains(room) && names_room(tags@, room) && old(
                        self,
                    ).leases()[room].0 == slot,
    {
        let ghost start = *self;
        let mut k: usize = 0;
        assert(tags@.take(0) =~= Seq::<String>::empty());
        while k < tags.len()
            invariant
                k <= tags@.len(),
                start == *old(self),
                self.wf(),
                self.same_arena(&start),
                forall|room: i64| #[trigger]
                    self.leases().dom().contains(room) <==> start.leases().dom().contains(room)
                        && !names_room(tags@.take(k as int), room),
                forall|room: i64| #[trigger]
                    self.leases().dom().contains(room) ==> self.leases()[room]
                        == start.leases()[room],
                forall|slot: u32| #[trigger]
                    self.free_slots().contains(slot) <==> start.free_slots().contains(slot)
                        || exists|room: i64| #[trigger]
                        start.leases().dom().contains(room) && names_room(
                            tags@.take(k as int),
                            room,
                        ) && start.leases()[room].0 == slot,
            decreases tags@.len() - k,
        {
            let ghost mid = *self;
            let named: Option<i64> = parse_signed(tags[k].as_str());
            proof {
                lemma_one_more_tag(tags@, k as int);
            }
            if let Some(room) = named {
                self.free_room(room);
                proof {
                    assert forall|slot: u32| #[trigger]
                        self.free_slots().contains(slot) <==> start.free_slots().contains(slot)
                            || exists|room: i64| #[trigger]
                            start.leases().dom().contains(room) && names_room(
                                tags@.take(k + 1),
                                room,
                            ) && start.leases()[room].0 == slot by {
                        if mid.leases().dom().contains(room) {
                            assert(start.leases().dom().contains(room));
                            lemma_pushed(mid.free_slots(), mid.leases()[room].0, slot);
                        }
                        assert(mid.free_slots().contains(slot) <==> start.free_slots().contains(slot)
                            || exists|room: i64| #[trigger]
                            start.leases().dom().contains(room) && names_room(
                                tags@.take(k as int),
                                room,
                            ) && start.leases()[room].0 == slot);
                    }
                }
            }
            k += 1;
        }
        assert(tags@.take(k as int) =~= tags@);
        proof {
            if start.is_complete() {
                lemma_stays_complete(start, *self);
            }
        }
    }

    /// One round of reaping: the slots come back whose read a worker reported,
    /// `tags` being the rooms it named, and those leased at least `ttl` before
    /// `now`.
    pub fn reap(&mut self, tags: &Vec<String>, now: u128, ttl: u128)
        requires
            old(self).wf(),
        ensures
            final(self).wf(),
            final(self).same_arena(old(self)),
            old(self).is_complete() ==> final(self).is_complete(),
            forall|room: i64| #[trigger]
                final(self).leases().dom().contains(room) <==> old(self).leases().dom().contains(
                    room,
                ) && !is_reaped(old(self).leases(), tags@, now, ttl, room),
            forall|room: i64| #[trigger]
                final(self).leases().dom().contains(room) ==> final(self).leases()[room] == old(
                    self,
                ).leases()[room],
            forall|slot: u32| #[trigger]
                final(self).free_slots().contains(slot) <==> old(self).free_slots().contains(slot)
                    || exists|room: i64| #[trigger]
                    is_reaped(old(self).leases(), tags@, now, ttl, room) && old(
                        self,
                    ).leases()[room].0 == slot,
    {
        let ghost start = *self;
        self.free_tagged(tags);
        let ghost mid = *self;
        let _ = self.reap_stale(now, ttl);
        proof {
            assert forall|slot: u32| #[trigger]
                self.free_slots().contains(slot) <==> start.free_slots().contains(slot)
                    || exists|room: i64| #[trigger]
                    is_reaped(start.leases(), tags@, now, ttl, room) && start.leases()[room].0
                        == slot by {
                let f0 = mid.free_slots();
                let f1 = self.free_slots();
                if f1.contains(slot) {
                    let i = choose|i: int| 0 <= i < f1.len() && f1[i] == slot;
                    if i < f0.len() {
                        assert(f1.take(f0.len() as int)[i] == slot);
                        assert(f0.contains(slot));
                        if !start.free_slots().contains(slot) {
                            let room = choose|room: i64| #[trigger]
                                start.leases().dom().contains(room) && names_room(tags@, room)
                                    && start.leases()[room].0 == slot;
                            assert(is_reaped(start.leases(), tags@, now, ttl, room));
                        }
                    } else {
                        assert(is_stale_slot(mid.leases(), f1[i], now, ttl));
                        let room = choose|room: i64| #[trigger]
                            mid.leases().dom().contains(room) && is_stale(
                                mid.leases()[room],
                                now,
                                ttl,
                            ) && mid.leases()[room].0 == slot;
                        assert(is_reaped(start.leases(), tags@, now, ttl, room));
                    }
                }
                if f0.contains(slot) {
                    let i = choose|i: int| 0 <= i < f0.len() && f0[i] == slot;
                    assert(f1.take(f0.len() as int)[i] == slot);
                    assert(f1[i] == slot);
                }
                if exists|room: i64| #[trigger]
                    is_reaped(start.leases(), tags@, now, ttl, room) && start.leases()[room].0
                        == slot {
                    let room = choose|room: i64| #[trigger]
                        is_reaped(start.leases(), tags@, now, ttl, room)
                            && start.leases()[room].0 == slot;
                    assert(start.leases().dom().contains(room));
                    if !names_room(tags@, room) {
                        assert(mid.leases().dom().contains(room));
                    }
                }
            }
        }
    }

    /// The `len` bytes that stand at address `addr`.
    pub fn bytes_at(&self, addr: u64, len: usize) -> (r: Option<Vec<u8>>)
        requires
            self.wf(),
        ensures
            r is Some <==> self.base() <= addr && addr - self.base() + len <= self.memory().len(),
            r matches Some(v) ==> v@ == self.memory().subrange(
                addr - self.base(),
                addr - self.base() + len,
            ),
    {
        let size: usize = self.arena.len();
        if addr < self.base as u64 {
            return None;
        }
        let at: u64 = addr - self.base as u64;
        if at > size as u64 || len > size - at as usize {
            return None;
        }
        let from: usize = at as usize;
        let mut out: Vec<u8> = Vec::new();
        let mut i: usize = 0;
        while i < len
            invariant
                i <= len,
                from + len <= self.arena@.len(),
                from + len <= usize::MAX,
                out@ =~= self.arena@.subrange(from as int, from + i),
            decreases len - i,
        {
            out.push(self.arena[from + i]);
            i += 1;
        }
        Some(out)
    }
}

/// The number in an environment value, or `default` where there is none.
pub open spec fn env_number(raw: Option<Seq<char>>, max: nat, default: nat) -> nat {
    match raw {
        Some(s) => match unsigned_value(s, max) {
            Some(v) => v,
            None => default,
        },
        None => default,
    }
}

/// The view of an optional text.
pub open spec fn opt_text(s: Option<&str>) -> Option<Seq<char>> {
    match s {
        Some(s) => Some(s@),
        None => None,
    }
}

/// Read a seconds-valued knob, falling back to `default`.
pub fn env_secs(raw: Option<&str>, default: u64) -> (secs: u64)
    ensures
        secs == env_number(opt_text(raw), u64::MAX as nat, default as nat),
{
    match raw {
        Some(s) => match parse_unsigned(s, u64::MAX) {
            Some(v) => v,
            None => default,
        },
        None => default,
    }
}

/// The longest that a worker may hold a shipped descriptor before and during
/// its read: it waits for a landing slot, then reads.
pub fn worker_max_hold(landing_wait_s: u64, read_timeout_s: u64) -> (secs: u64)
    requires
        landing_wait_s + read_timeout_s <= u64::MAX,
    ensures
        secs == landing_wait_s + read_timeout_s,
{
    landing_wait_s + read_timeout_s
}

/// The number of seconds that an environment value spells, if it spells one.
pub open spec fn spelled_secs(raw: Option<Seq<char>>) -> Option<nat> {
    match raw {
        Some(s) => unsigned_value(s, u64::MAX as nat),
        None => None,
    }
}

/// The explicit time to live, where one is given.
pub fn explicit_ttl(raw: Option<&str>) -> (r: Option<u64>)
    ensures
        match r {
            Some(secs) => spelled_secs(opt_text(raw)) == Some(secs as nat),
            None => spelled_secs(opt_text(raw)) is None,
        },
{
    match raw {
        Some(s) => parse_unsigned(s, u64::MAX),
        None => None,
    }
}

/// How long a leased slot may live without being freed before it is reclaimed:
/// an explicit number of seconds, or the longest hold and some slack.
pub fn slot_ttl(explicit: Option<&str>, max_hold_s: u64) -> (secs: u64)
    requires
        spelled_secs(opt_text(explicit)) is None ==> max_hold_s + SLOT_TTL_SLACK_S <= u64::MAX,
    ensures
        secs == env_number(
            opt_text(explicit),
            u64::MAX as nat,
            (max_hold_s + SLOT_TTL_SLACK_S) as nat,
        ),
{
    match explicit_ttl(explicit) {
        Some(secs) => secs,
        None => max_hold_s + SLOT_TTL_SLACK_S,
    }
}

/// The listener port (default 18515).
pub fn gw_listen_port(raw: Option<&str>) -> (port: u16)
    ensures
        port == env_number(opt_text(raw), u16::MAX as nat, DEFAULT_LISTEN_PORT as nat),
{
    match raw {
        Some(s) => match parse_unsigned(s, u16::MAX as u64) {
            Some(v) => v as u16,
            None => DEFAULT_LISTEN_PORT,
        },
        None => DEFAULT_LISTEN_PORT,
    }
}

/// The positive number in an environment value, or `default`.
pub open spec fn positive_env_number(raw: Option<Seq<char>>, default: nat) -> nat {
    if env_number(raw, usize::MAX as nat, 0) > 0 {
        env_number(raw, usize::MAX as nat, 0)
    } else {
        default
    }
}

fn positive_or(raw: Option<&str>, default: usize) -> (n: usize)
    ensures
        n == positive_env_number(opt_text(raw), default as nat),
{
    match raw {
        Some(s) => match parse_unsigned(s, usize::MAX as u64) {
            Some(v) => if v > 0 {
                v as usize
            } else {
                default
            },
            None => default,
        },
        None => default,
    }
}

/// Arena slot count (default 64).
pub fn pool_slots(raw: Option<&str>) -> (n: usize)
    ensures
        n == positive_env_number(opt_text(raw), DEFAULT_POOL_SLOTS as nat),
{
    positive_or(raw, DEFAULT_POOL_SLOTS)
}

/// Per-slot byte capacity (default 32 MiB).
pub fn slot_bytes(raw: Option<&str>) -> (n: usize)
    ensures
        n == positive_env_number(opt_text(raw), DEFAULT_SLOT_BYTES as nat),
{
    positive_or(raw, DEFAULT_SLOT_BYTES)
}

/// Whether the RDMA pixel lane is active: by the transport mode, or by the
/// older switch.
pub fn rdma_enabled(default_mode: TransportMode, pixel_rdma: Option<&str>) -> (r: bool)
    ensures
        r == (default_mode == TransportMode::Rdma || (pixel_rdma is Some && (pixel_rdma->0@
            == "1"@ || pixel_rdma->0@ == "true"@))),
{
    match default_mode {
        TransportMode::Rdma => true,
        _ => match pixel_rdma {
            Some(s) => same(s, "1") || same(s, "true"),
            None => false,
        },
    }
}

/// What a descriptor begins with.
pub open spec fn descriptor_magic() -> Seq<u8> {
    seq![83u8, 77, 71, 82, 68, 77, 65, 49]
}

/// The wire descriptor of a lease:
/// `[magic][slot_addr u64][gen u64][room i64][port u16][ip utf8]`.
pub open spec fn descriptor_bytes(
    addr: u64,
    gen: u64,
    room: i64,
    port: u16,
    ip: Seq<char>,
) -> Seq<u8> {
    descriptor_magic() + le_bytes(addr as nat, 8) + le_bytes(gen as nat, 8) + le_bytes(
        twos_complement_bits(room),
        8,
    ) + le_bytes(port as nat, 2) + encode_utf8(ip)
}

fn descriptor(addr: u64, gen: u64, room: i64, port: u16, ip: &str) -> (d: Vec<u8>)
    ensures
        d@ == descriptor_bytes(addr, gen, room, port, ip@),
{
    let mut d: Vec<u8> = vec![83u8, 77, 71, 82, 68, 77, 65, 49];
    assert(d@ =~= descriptor_magic());
    push_le(&mut d, addr, 8);
    push_le(&mut d, gen, 8);
    push_le(&mut d, twos_complement(room), 8);
    push_le(&mut d, port as u64, 2);
    d.extend_from_slice(ip.as_bytes());
    assert(d@ =~= descriptor_bytes(addr, gen, room, port, ip@));
    d
}

/// `after` is `before` once a lane handed `bytes` over under `room`: the last
/// free slot is leased, and holds them in a frame of the next generation.
pub open spec fn leased(
    before: SlotPool,
    after: SlotPool,
    room: i64,
    bytes: Seq<u8>,
    now: u128,
) -> bool {
    let slot = before.free_slots().last();
    let start = before.slot_start(slot);
    let framed = frame(before.next_gen(), bytes);
    &&& after.wf()
    &&& after.base() == before.base()
    &&& after.slot_bytes() == before.slot_bytes()
    &&& after.n_slots() == before.n_slots()
    &&& after.leases() == before.leases().insert(room, (slot, now))
    &&& after.free_slots() == before.free_slots().drop_last()
    &&& after.next_gen() as int == if before.next_gen() == u64::MAX {
        0
    } else {
        before.next_gen() + 1
    }
    &&& after.memory() == before.memory().take(start) + framed + before.memory().skip(
        start + framed.len(),
    )
}

/// The descriptor of the next lease.
pub open spec fn next_descriptor(
    pool: SlotPool,
    room: i64,
    listen_port: u16,
    listen_ip: Seq<char>,
) -> Seq<u8> {
    descriptor_bytes(
        (pool.base() + pool.slot_start(pool.free_slots().last())) as u64,
        pool.next_gen(),
        room,
        listen_port,
        listen_ip,
    )
}

/// Stage `bytes` into a slot of the arena, leased for `room`, and return the
/// wire descriptor of the lease. On any failure (no listener IP, no arena, an
/// oversized payload, or no free slot) the bytes come back untouched, for the
/// caller to send inline.
pub fn export_pixel_buffer(
    arena: &mut Option<SlotPool>,
    listen_ip: &str,
    listen_port: u16,
    room: i64,
    bytes: Vec<u8>,
    now: u128,
) -> (r: Result<Vec<u8>, Vec<u8>>)
    requires
        *old(arena) matches Some(p) ==> p.wf(),
    ensures
        *final(arena) is Some <==> *old(arena) is Some,
        *final(arena) matches Some(p) ==> p.wf(),
        r is Ok <==> listen_ip@.len() > 0 && *old(arena) is Some && bytes@.len() + FRAME_OVERHEAD
            <= (*old(arena))->0.slot_bytes() && (*old(arena))->0.free_slots().len() > 0,
        r matches Err(b) ==> b@ == bytes@ && *final(arena) == *old(arena),
        r matches Ok(d) ==> {
            &&& d@ == next_descriptor((*old(arena))->0, room, listen_port, listen_ip@)
            &&& leased((*old(arena))->0, (*final(arena))->0, room, bytes@, now)
        },
{
    if listen_ip.is_empty() {
        return Err(bytes);
    }
    match arena {
        None => Err(bytes),
        Some(pool) => match pool.lease_and_write(room, &bytes, now) {
            None => Err(bytes),
            Some((_, addr, gen)) => Ok(descriptor(addr, gen, room, listen_port, listen_ip)),
        },
    }
}

/// The stamps bracket the payload: both are the lease's generation, and what
/// stands between them is the payload.
pub proof fn frame_brackets_payload(gen: u64, payload: Seq<u8>)
    ensures
        frame(gen, payload).len() == payload.len() + FRAME_OVERHEAD,
        from_le_bytes(frame(gen, payload).take(8)) == gen,
        frame(gen, payload).subrange(8, 8int + payload.len()) == payload,
        from_le_bytes(frame(gen, payload).skip(8int + payload.len())) == gen,
{
    byte_ranges();
    le_bytes_round_trip(gen as nat, 8);
    let f = frame(gen, payload);
    assert(f.take(8) =~= le_bytes(gen as nat, 8));
    assert(f.subrange(8, 8int + payload.len()) =~= payload);
    assert(f.skip(8int + payload.len()) =~= le_bytes(gen as nat, 8));
}

/// A reader that holds the descriptor of an earlier lease sees that its slot
/// was reused: neither stamp of the later lease is the number it expects.
pub proof fn reused_slot_is_detected(expected: u64, gen: u64, payload: Seq<u8>)
    requires
        expected != gen,
    ensures
        frame(gen, payload).take(8) != le_bytes(expected as nat, 8),
        frame(gen, payload).skip(8int + payload.len()) != le_bytes(expected as nat, 8),
{
    frame_brackets_payload(gen, payload);
    byte_ranges();
    le_bytes_round_trip(expected as nat, 8);
}

/// Writing one slot leaves every other slot as it was.
pub proof fn other_slots_are_kept(
    memory: Seq<u8>,
    slot_bytes: int,
    slot: int,
    other: int,
    framed: Seq<u8>,
)
    requires
        0 <= slot,
        0 <= other,
        slot != other,
        framed.len() <= slot_bytes,
        (slot + 1) * slot_bytes <= memory.len(),
        (other + 1) * slot_bytes <= memory.len(),
    ensures
        (memory.take(slot * slot_bytes) + framed + memory.skip(
            slot * slot_bytes + framed.len(),
        )).subrange(other * slot_bytes, (other + 1) * slot_bytes) == memory.subrange(
            other * slot_bytes,
            (other + 1) * slot_bytes,
        ),
{
    let start = slot * slot_bytes;
    let at = other * slot_bytes;
    assert((slot + 1) * slot_bytes == start + slot_bytes && (other + 1) * slot_bytes == at
        + slot_bytes && 0 <= start && 0 <= at) by (nonlinear_arith)
        requires
            start == slot * slot_bytes,
            at == other * slot_bytes,
            0 <= slot,
            0 <= other,
            0 <= slot_bytes,
    ;
    if slot < other {
        assert(start + slot_bytes <= at) by (nonlinear_arith)
            requires
                start == slot * slot_bytes,
                at == other * slot_bytes,
                slot + 1 <= other,
                0 <= slot_bytes,
        ;
    } else {
        assert(at + slot_bytes <= start) by (nonlinear_arith)
            requires
                start == slot * slot_bytes,
                at == other * slot_bytes,
                other + 1 <= slot,
                0 <= slot_bytes,
        ;
    }
    let after = memory.take(start) + framed + memory.skip(start + framed.len());
    assert(after.subrange(at, at + slot_bytes) =~= memory.subrange(at, at + slot_bytes));
}

/// The derived TTL outlasts a worker's hold: no lease is reclaimed while its
/// worker may still be reading.
pub proof fn derived_ttl_outlasts_hold(lease: (u32, u128), now: u128, max_hold_s: u64, ttl_s: u64)
    requires
        ttl_s == env_number(None, u64::MAX as nat, (max_hold_s + SLOT_TTL_SLACK_S) as nat),
        now - lease.1 <= max_hold_s * 1_000_000_000,
    ensures
        ttl_s > max_hold_s,
        !is_stale(lease, now, (ttl_s * 1_000_000_000) as u128),
{
}

/// Each lease is newer than the one before: until the numbers run out, its
/// generation is greater, and no slot that is still leased is handed out again.
pub proof fn later_leases_are_newer(
    before: SlotPool,
    after: SlotPool,
    room: i64,
    bytes: Seq<u8>,
    now: u128,
    other: i64,
)
    requires
        before.wf(),
        before.free_slots().len() > 0,
        leased(before, after, room, bytes, now),
        before.next_gen() < u64::MAX,
        before.leases().dom().contains(other),
    ensures
        after.next_gen() > before.next_gen(),
        before.leases()[other].0 != before.free_slots().last(),
{
}

/// A reader that follows a descriptor finds the payload: the address leads to the
/// slot, where the payload stands between two stamps of the descriptor's
/// generation.
pub proof fn descriptors_lead_to_the_payload(
    before: SlotPool,
    after: SlotPool,
    room: i64,
    port: u16,
    ip: Seq<char>,
    bytes: Seq<u8>,
    now: u128,
)
    requires
        before.wf(),
        before.free_slots().len() > 0,
        bytes.len() + FRAME_OVERHEAD <= before.slot_bytes(),
        leased(before, after, room, bytes, now),
    ensures
        ({
            let d = next_descriptor(before, room, port, ip);
            let at = from_le_bytes(d.subrange(8, 16)) - after.base();
            let stamp = d.subrange(16, 24);
            &&& d.len() >= 34
            &&& 0 <= at <= at + bytes.len() + 16 <= after.memory().len()
            &&& after.memory().subrange(at, at + 8) == stamp
            &&& after.memory().subrange(at + 8, at + 8 + bytes.len()) == bytes
            &&& after.memory().subrange(at + 8 + bytes.len(), at + 16 + bytes.len()) == stamp
        }),
{
    byte_ranges();
    let slot = before.free_slots().last();
    let size = before.slot_bytes() as int;
    let start = before.slot_start(slot);
    let n = before.n_slots() as int;
    assert(slot < n) by {
        assert(before.free_slots()[before.free_slots().len() - 1] < n);
    }
    assert(0 <= slot * size && slot * size + size <= n * size) by (nonlinear_arith)
        requires
            0 <= slot < n,
            0 <= size,
    ;
    let addr = before.base() + start;
    let gen = before.next_gen();
    descriptors_say_what_is_leased(addr as u64, gen, room, port, ip);
    let d = next_descriptor(before, room, port, ip);
    le_bytes_round_trip(gen as nat, 8);
    let g = le_bytes(gen as nat, 8);
    let framed = frame(gen, bytes);
    let m = after.memory();
    assert(d.subrange(16, 24) =~= g);
    assert(m.subrange(start, start + 8) =~= g);
    assert(m.subrange(start + 8, start + 8 + bytes.len()) =~= bytes);
    assert(m.subrange(start + 8 + bytes.len(), start + 16 + bytes.len()) =~= g);
}

/// A descriptor begins with its magic text and holds the address, the generation,
/// the room and the port at fixed places, lowest byte first, and the address of
/// the listener behind them.
pub proof fn descriptors_say_what_is_leased(
    addr: u64,
    gen: u64,
    room: i64,
    port: u16,
    ip: Seq<char>,
)
    ensures
        ({
            let d = descriptor_bytes(addr, gen, room, port, ip);
            &&& d.len() == 34 + encode_utf8(ip).len()
            &&& d.take(8) == seq![
                'S' as u8,
                'M' as u8,
                'G' as u8,
                'R' as u8,
                'D' as u8,
                'M' as u8,
                'A' as u8,
                '1' as u8,
            ]
            &&& from_le_bytes(d.subrange(8, 16)) == addr
            &&& d.subrange(16, 24) == le_bytes(gen as nat, 8)
            &&& from_le_bytes(d.subrange(16, 24)) == gen
            &&& room >= 0 ==> from_le_bytes(d.subrange(24, 32)) == room
            &&& room < 0 ==> from_le_bytes(d.subrange(24, 32)) == room + 0x1_0000_0000_0000_0000
            &&& from_le_bytes(d.subrange(32, 34)) == port
            &&& d.skip(34) == encode_utf8(ip)
        }),
{
    byte_ranges();
    le_bytes_round_trip(addr as nat, 8);
    le_bytes_round_trip(gen as nat, 8);
    le_bytes_round_trip(twos_complement_bits(room), 8);
    le_bytes_round_trip(port as nat, 2);
    let d = descriptor_bytes(addr, gen, room, port, ip);
    assert(d.take(8) =~= descriptor_magic());
    assert(d.subrange(8, 16) =~= le_bytes(addr as nat, 8));
    assert(d.subrange(16, 24) =~= le_bytes(gen as nat, 8));
    assert(d.subrange(24, 32) =~= le_bytes(twos_complement_bits(room), 8));
    assert(d.subrange(32, 34) =~= le_bytes(port as nat, 2));
    assert(d.skip(34) =~= encode_utf8(ip));
}

/// A lease takes one slot that was free, under the room that was given, and leaves
/// every other lease as it was.
pub proof fn leases_take_a_free_slot(
    before: SlotPool,
    after: SlotPool,
    room: i64,
    bytes: Seq<u8>,
    now: u128,
)
    requires
        before.wf(),
        before.free_slots().len() > 0,
        leased(before, after, room, bytes, now),
    ensures
        after.leases().dom().contains(room),
        after.leases()[room].1 == now,
        before.free_slots().contains(after.leases()[room].0),
        !after.free_slots().contains(after.leases()[room].0),
        after.free_slots().len() == before.free_slots().len() - 1,
        forall|other: i64|
            other != room ==> (#[trigger] after.leases().dom().contains(other)
                == before.leases().dom().contains(other)) && (before.leases().dom().contains(other)
                ==> after.leases()[other] == before.leases()[other]),
{
    let slot = before.free_slots().last();
    assert(before.free_slots()[before.free_slots().len() - 1] == slot);
}

/// A lease ends when a worker reports its room in decimal, or when it has lasted as
/// long as it may; until then it stays.
pub proof fn leases_end_once_read_or_run_out(
    leases: Map<i64, (u32, u128)>,
    tags: Seq<String>,
    now: u128,
    ttl: u128,
    room: i64,
    k: int,
)
    requires
        leases.dom().contains(room),
    ensures
        room >= 0 && 0 <= k < tags.len() && tags[k]@ == decimal_text(room as nat) ==> is_reaped(
            leases,
            tags,
            now,
            ttl,
            room,
        ),
        now >= leases[room].1 + ttl ==> is_reaped(leases, tags, now, ttl, room),
        tags.len() == 0 && ttl > 0 && now < leases[room].1 + ttl ==> !is_reaped(
            leases,
            tags,
            now,
            ttl,
            room,
        ),
{
    if room >= 0 && 0 <= k < tags.len() && tags[k]@ == decimal_text(room as nat) {
        decimal_round_trip(room as nat, i64::MAX as nat);
        decimal_is_digits(room as nat);
        assert(signed_value(tags[k]@) == Some(room as int));
    }
}

/// A knob holds the number that is spelled in decimal, where it fits; the default
/// stands in where nothing is spelled, and where nought is spelled of a number that
/// has to be positive.
pub proof fn knobs_hold_what_is_spelled(n: nat, max: nat, default: nat)
    ensures
        n <= max ==> env_number(Some(decimal_text(n)), max, default) == n,
        n > max ==> env_number(Some(decimal_text(n)), max, default) == default,
        env_number(None, max, default) == default,
        env_number(Some(Seq::empty()), max, default) == default,
        0 < n <= usize::MAX ==> positive_env_number(Some(decimal_text(n)), default) == n,
        positive_env_number(Some(decimal_text(0)), default) == default,
        positive_env_number(None, default) == default,
        n <= u64::MAX ==> spelled_secs(Some(decimal_text(n))) == Some(n),
        spelled_secs(None) is None,
{
    if n <= max {
        decimal_round_trip(n, max);
    } else {
        large_numbers_are_refused(n, max);
    }
    if n <= usize::MAX {
        decimal_round_trip(n, usize::MAX as nat);
    }
    if n <= u64::MAX {
        decimal_round_trip(n, u64::MAX as nat);
    }
    decimal_round_trip(0, usize::MAX as nat);
}

/// A slot that is leased is found full by a reader and comes back when its room is
/// freed: the bytes are where the lease says, and then the pool is as it was, but for
/// what the slot holds and the next stamp.
pub proof fn freed_slots_come_back(
    pool: &mut SlotPool,
    full: SlotPool,
    later: &mut SlotPool,
    room: i64,
    bytes: Vec<u8>,
    now: u128,
    lease: (u32, u64, u64),
    read: Option<Vec<u8>>,
)
    requires
        old(pool).wf(),
        call_ensures(SlotPool::lease_and_write, (pool, room, &bytes, now), Some(lease)),
        full == *final(pool),
        full == *old(later),
        lease.1 + 8 <= u64::MAX,
        call_ensures(
            SlotPool::bytes_at,
            (&full, (lease.1 + 8) as u64, bytes@.len() as usize),
            read,
        ),
        call_ensures(SlotPool::free_room, (later, room), ()),
        !old(pool).leases().dom().contains(room),
        bytes@.len() <= usize::MAX,
    ensures
        read matches Some(found) && found@ == bytes@,
        final(later).free_slots() == old(pool).free_slots(),
        final(later).leases() == old(pool).leases(),
        !final(later).leases().dom().contains(room),
{
    let slot = lease.0;
    let size = old(pool).slot_bytes() as int;
    let n = old(pool).n_slots() as int;
    let start = old(pool).slot_start(slot);
    assert(slot < n) by {
        assert(old(pool).free_slots()[old(pool).free_slots().len() - 1] < n);
    }
    assert(0 <= slot * size && slot * size + size <= n * size) by (nonlinear_arith)
        requires
            0 <= slot < n,
            0 <= size,
    ;
    byte_ranges();
    le_bytes_round_trip(lease.2 as nat, 8);
    let framed = frame(lease.2, bytes@);
    let m = full.memory();
    assert(m.subrange(start + 8, start + 8 + bytes@.len()) =~= bytes@);
    let f = old(pool).free_slots();
    assert(f.drop_last().push(f.last()) =~= f);
    assert(final(later).leases() =~= old(pool).leases());
}

/// A slot lives at least as long as a worker may wait for it and read it, and half a
/// minute more, unless another time is asked for; knobs that nobody sets have their
/// documented values.
pub proof fn slots_outlive_their_readers(
    wait: u64,
    read: u64,
    hold: u64,
    ttl: u64,
    slots: usize,
    bytes: usize,
    port: u16,
)
    requires
        call_ensures(worker_max_hold, (wait, read), hold),
        call_ensures(slot_ttl, (None::<&str>, hold), ttl),
        hold + 30 <= u64::MAX,
        call_ensures(pool_slots, (None::<&str>,), slots),
        call_ensures(slot_bytes, (None::<&str>,), bytes),
        call_ensures(gw_listen_port, (None::<&str>,), port),
    ensures
        ttl == wait + read + 30,
        slots == 64,
        bytes == 32 * 1024 * 1024,
        port == 18515,
{
}

/// The lane is on where the transport is RDMA, whatever the older switch says, and
/// elsewhere only where that switch is on.
pub proof fn the_lane_is_switched_on(mode: TransportMode, switch: Option<&str>, r: bool)
    requires
        call_ensures(rdma_enabled, (mode, switch), r),
    ensures
        mode is Rdma ==> r,
        switch is None ==> (r <==> mode is Rdma),
        switch matches Some(s) ==> (s@ == "1"@ || s@ == "true"@ ==> r),
        switch matches Some(s) ==> (s@.len() == 0 ==> (r <==> mode is Rdma)),
{
    reveal_strlit("1");
    reveal_strlit("true");
}

} // verus!

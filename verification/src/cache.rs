//! A bounded cache of signed packets keyed by public key, enforcing the
//! monotonic overwrite guard: a stored entry is replaced only by a packet
//! with a strictly greater sequence number, and is replaced wholesale,
//! never mutated field by field.
//!
//! When the cache is full, inserting a packet for an unseen key evicts the
//! entry that was stored the longest ago.

use vstd::prelude::*;

use crate::bep44::{envelope_wf, EnvelopeModel};
use crate::byteseq::bytes_eq;
use crate::keys::PublicKey;
use crate::signed_packet::{effective_ttl, effective_ttl_of, expires_in_spec, record_ttls, SignedPacket};

verus! {

/// The model of one cache slot: the packet's envelope and the time at
/// which it was stored.
#[verifier::ext_equal]
pub struct EntryModel {
    pub packet: EnvelopeModel,
    pub stored_at: u64,
}

/// A stored packet together with the time it was stored at.
#[derive(Debug)]
pub struct CacheEntry {
    packet: SignedPacket,
    stored_at: u64,
}

impl View for CacheEntry {
    type V = EntryModel;

    closed spec fn view(&self) -> EntryModel {
        EntryModel { packet: self.packet@, stored_at: self.stored_at }
    }
}

impl CacheEntry {
    /// A well-formed entry holds a well-formed packet.
    pub open spec fn wf(&self) -> bool {
        envelope_wf(self@.packet)
    }

    /// The stored packet.
    pub fn packet(&self) -> (r: &SignedPacket)
        ensures
            r@ == self@.packet,
    {
        &self.packet
    }

    /// The time the entry was stored at, in seconds.
    pub fn stored_at(&self) -> (r: u64)
        ensures
            r == self@.stored_at,
    {
        self.stored_at
    }

    /// Seconds left before this entry expires at time `now` under the TTL
    /// bounds `[min_ttl, max_ttl]`; 0 means expired.
    pub fn expires_in(&self, now: u64, min_ttl: u32, max_ttl: u32) -> (r: u64)
        ensures
            r == expires_in_spec(
                self@.stored_at,
                now,
                effective_ttl(record_ttls(self@.packet.v), min_ttl, max_ttl),
            ),
    {
        let eff = effective_ttl_of(self.packet.v().as_slice(), min_ttl, max_ttl);
        let elapsed = if now >= self.stored_at {
            now - self.stored_at
        } else {
            0
        };
        if elapsed >= eff as u64 {
            0
        } else {
            eff as u64 - elapsed
        }
    }
}

// ---------------------------------------------------------------------------
// The map model of a sequence of entries
// ---------------------------------------------------------------------------

/// The models of a sequence of entries.
pub open spec fn entry_models(s: Seq<CacheEntry>) -> Seq<EntryModel> {
    s.map_values(|e: CacheEntry| e@)
}

/// No two entries share a public key.
pub open spec fn keys_unique(s: Seq<EntryModel>) -> bool {
    forall|i: int, j: int|
        0 <= i < j < s.len() ==> (#[trigger] s[i]).packet.k != (#[trigger] s[j]).packet.k
}

/// The key-to-entry map that a sequence of entries denotes.
pub open spec fn entries_map(s: Seq<EntryModel>) -> Map<Seq<u8>, EntryModel>
    decreases s.len(),
{
    if s.len() == 0 {
        Map::empty()
    } else {
        entries_map(s.drop_last()).insert(s.last().packet.k, s.last())
    }
}

/// A key is in the map exactly when some entry carries it.
pub proof fn lemma_entries_map_contains(s: Seq<EntryModel>, k: Seq<u8>)
    ensures
        entries_map(s).dom().contains(k) <==> (exists|i: int|
            0 <= i < s.len() && (#[trigger] s[i]).packet.k == k),
    decreases s.len(),
{
    if s.len() == 0 {
    } else {
        lemma_entries_map_contains(s.drop_last(), k);
        assert(forall|i: int| 0 <= i < s.len() - 1 ==> s.drop_last()[i] == s[i]);
        if s.last().packet.k == k {
            assert(s[s.len() - 1].packet.k == k);
        } else {
            if exists|i: int| 0 <= i < s.len() && (#[trigger] s[i]).packet.k == k {
                let i = choose|i: int| 0 <= i < s.len() && (#[trigger] s[i]).packet.k == k;
                assert(i < s.len() - 1);
                assert(s.drop_last()[i].packet.k == k);
            }
        }
    }
}

/// With unique keys, the map sends each entry's key to that entry.
pub proof fn lemma_entries_map_index(s: Seq<EntryModel>, i: int)
    requires
        keys_unique(s),
        0 <= i < s.len(),
    ensures
        entries_map(s).dom().contains(s[i].packet.k),
        entries_map(s)[s[i].packet.k] == s[i],
    decreases s.len(),
{
    assert(forall|j: int| 0 <= j < s.len() - 1 ==> s.drop_last()[j] == s[j]);
    if i == s.len() - 1 {
    } else {
        lemma_entries_map_index(s.drop_last(), i);
        assert(s[i].packet.k != s[s.len() - 1].packet.k);
    }
}

/// With unique keys, the map has exactly one slot per entry.
pub proof fn lemma_entries_map_len(s: Seq<EntryModel>)
    requires
        keys_unique(s),
    ensures
        entries_map(s).dom().finite(),
        entries_map(s).len() == s.len(),
    decreases s.len(),
{
    if s.len() == 0 {
    } else {
        assert(forall|j: int| 0 <= j < s.len() - 1 ==> s.drop_last()[j] == s[j]);
        lemma_entries_map_len(s.drop_last());
        lemma_entries_map_contains(s.drop_last(), s.last().packet.k);
        assert(forall|j: int| 0 <= j < s.len() - 1 ==> (#[trigger] s[j]).packet.k != s[s.len() - 1].packet.k);
        assert(!entries_map(s.drop_last()).dom().contains(s.last().packet.k));
    }
}

/// Replacing the entry at `i` by one with the same key updates just that
/// key's slot.
pub proof fn lemma_entries_map_update(s: Seq<EntryModel>, i: int, e: EntryModel)
    requires
        keys_unique(s),
        0 <= i < s.len(),
        e.packet.k == s[i].packet.k,
    ensures
        entries_map(s.update(i, e)) =~= entries_map(s).insert(e.packet.k, e),
    decreases s.len(),
{
    assert(forall|j: int| 0 <= j < s.len() - 1 ==> s.drop_last()[j] == s[j]);
    if i == s.len() - 1 {
        assert(s.update(i, e).drop_last() =~= s.drop_last());
        assert(s.update(i, e).last() == e);
    } else {
        lemma_entries_map_update(s.drop_last(), i, e);
        assert(s.update(i, e).drop_last() =~= s.drop_last().update(i, e));
        assert(s.update(i, e).last() == s.last());
        assert(e.packet.k != s.last().packet.k);
    }
}

/// Appending an entry inserts its key.
pub proof fn lemma_entries_map_push(s: Seq<EntryModel>, e: EntryModel)
    ensures
        entries_map(s.push(e)) =~= entries_map(s).insert(e.packet.k, e),
{
    assert(s.push(e).drop_last() =~= s);
    assert(s.push(e).last() == e);
}

/// With unique keys, removing the entry at `i` removes just that key's
/// slot.
pub proof fn lemma_entries_map_remove(s: Seq<EntryModel>, i: int)
    requires
        keys_unique(s),
        0 <= i < s.len(),
    ensures
        entries_map(s.remove(i)) =~= entries_map(s).remove(s[i].packet.k),
    decreases s.len(),
{
    assert(forall|j: int| 0 <= j < s.len() - 1 ==> s.drop_last()[j] == s[j]);
    if i == s.len() - 1 {
        assert(s.remove(i) =~= s.drop_last());
        lemma_entries_map_contains(s.drop_last(), s.last().packet.k);
        assert(forall|j: int| 0 <= j < s.len() - 1 ==> (#[trigger] s[j]).packet.k != s[s.len() - 1].packet.k);
        assert(!entries_map(s.drop_last()).dom().contains(s.last().packet.k));
    } else {
        lemma_entries_map_remove(s.drop_last(), i);
        assert(s.remove(i).drop_last() =~= s.drop_last().remove(i));
        assert(s.remove(i).last() == s.last());
        assert(s[i].packet.k != s.last().packet.k);
    }
}

// ---------------------------------------------------------------------------
// The cache
// ---------------------------------------------------------------------------

/// What one `put` of the envelope `p` at time `now` does to a cache map
/// with capacity `cap`: an unseen key is inserted (evicting the oldest
/// entry when the map is full); a known key is replaced only by a strictly
/// greater sequence number, and the stale or duplicate write is otherwise
/// dropped without a trace.
pub open spec fn put_spec(
    pre: Map<Seq<u8>, EntryModel>,
    post: Map<Seq<u8>, EntryModel>,
    p: EnvelopeModel,
    now: u64,
    cap: nat,
) -> bool {
    let fresh = EntryModel { packet: p, stored_at: now };
    if pre.dom().contains(p.k) {
        if p.seq > pre[p.k].packet.seq {
            post == pre.insert(p.k, fresh)
        } else {
            post == pre
        }
    } else if pre.len() < cap {
        post == pre.insert(p.k, fresh)
    } else {
        exists|victim: Seq<u8>|
            {
                &&& pre.dom().contains(victim)
                &&& (forall|k2: Seq<u8>|
                    pre.dom().contains(k2) ==> pre[victim].stored_at <= (
                    #[trigger] pre[k2]).stored_at)
                &&& post == pre.remove(victim).insert(p.k, fresh)
            }
    }
}

/// Monotonic write guard, spelled out: a `put` whose sequence number does
/// not exceed the stored one leaves the stored entry untouched, and a
/// strictly greater one replaces it, so a later `get` sees the
/// latest-sequence entry.
pub proof fn lemma_monotonic_write(
    pre: Map<Seq<u8>, EntryModel>,
    post: Map<Seq<u8>, EntryModel>,
    p: EnvelopeModel,
    now: u64,
    cap: nat,
)
    requires
        put_spec(pre, post, p, now, cap),
        pre.dom().contains(p.k),
    ensures
        p.seq <= pre[p.k].packet.seq ==> post == pre && post[p.k] == pre[p.k],
        p.seq > pre[p.k].packet.seq ==> post.dom().contains(p.k) && post[p.k] == (EntryModel {
            packet: p,
            stored_at: now,
        }),
{
}

/// A bounded key-value store from public keys to cache entries, with the
/// monotonic overwrite guard as its sole consistency rule.
#[derive(Debug)]
pub struct Cache {
    entries: Vec<CacheEntry>,
    capacity: usize,
}

impl View for Cache {
    type V = Map<Seq<u8>, EntryModel>;

    closed spec fn view(&self) -> Map<Seq<u8>, EntryModel> {
        entries_map(entry_models(self.entries@))
    }
}

impl Cache {
    /// The most entries the cache will hold.
    pub closed spec fn cap(&self) -> nat {
        self.capacity as nat
    }

    /// The cache's internal invariant: one entry per key, a bounded number
    /// of slots, and every stored packet well formed.
    pub closed spec fn inv(&self) -> bool {
        &&& keys_unique(entry_models(self.entries@))
        &&& self.entries@.len() <= self.capacity
        &&& self.capacity >= 1
        &&& forall|i: int|
            0 <= i < self.entries@.len() ==> envelope_wf(
                (#[trigger] entry_models(self.entries@)[i]).packet,
            )
    }

    /// An empty cache with room for `capacity` entries.
    pub fn new(capacity: usize) -> (r: Cache)
        requires
            capacity >= 1,
        ensures
            r.inv(),
            r@ == Map::<Seq<u8>, EntryModel>::empty(),
            r.cap() == capacity,
    {
        let c = Cache { entries: Vec::new(), capacity };
        proof {
            assert(entry_models(c.entries@) =~= Seq::<EntryModel>::empty());
        }
        c
    }

    /// The index of the entry for `k`, if one is stored.
    fn find_index(&self, k: &[u8]) -> (r: Option<usize>)
        ensures
            r matches Some(i) ==> i < self.entries@.len() && entry_models(self.entries@)[
                i as int
            ].packet.k == k@,
            r is None ==> forall|i: int|
                0 <= i < self.entries@.len() ==> (#[trigger] entry_models(self.entries@)[
                    i
                ]).packet.k != k@,
    {
        let mut i: usize = 0;
        while i < self.entries.len()
            invariant
                i <= self.entries@.len(),
                forall|j: int|
                    0 <= j < i ==> (#[trigger] entry_models(self.entries@)[j]).packet.k != k@,
            decreases self.entries@.len() - i,
        {
            if bytes_eq(self.entries[i].packet.public_key_bytes().as_slice(), k) {
                return Some(i);
            }
            i = i + 1;
        }
        None
    }

    /// Looks the entry for `public_key` up, irrespective of freshness:
    /// whether the entry is still current is the caller's concern, which is
    /// what lets a caller serve stale data while revalidating.
    pub fn get(&self, public_key: &PublicKey) -> (r: Option<&CacheEntry>)
        requires
            self.inv(),
        ensures
            (r is Some) == self@.dom().contains(public_key@),
            r matches Some(e) ==> e@ == self@[public_key@] && e.wf(),
    {
        proof {
            lemma_entries_map_contains(entry_models(self.entries@), public_key@);
        }
        match self.find_index(public_key.as_bytes().as_slice()) {
            Some(i) => {
                proof {
                    lemma_entries_map_index(entry_models(self.entries@), i as int);
                }
                Some(&self.entries[i])
            },
            None => None,
        }
    }

    /// Stores `packet` at time `now` under the monotonic write guard:
    /// inserts if the key is absent (evicting the oldest entry if the cache
    /// is full), replaces only a strictly smaller sequence number, and
    /// otherwise leaves the cache unchanged.
    pub fn put(&mut self, packet: SignedPacket, now: u64)
        requires
            old(self).inv(),
            packet.wf(),
        ensures
            final(self).inv(),
            final(self).cap() == old(self).cap(),
            put_spec(old(self)@, final(self)@, packet@, now, old(self).cap()),
    {
        let ghost old_models = entry_models(self.entries@);
        proof {
            lemma_entries_map_contains(old_models, packet@.k);
            lemma_entries_map_len(old_models);
        }
        let new_entry_ghost: Ghost<EntryModel> = Ghost(
            EntryModel { packet: packet@, stored_at: now },
        );
        match self.find_index(packet.public_key_bytes().as_slice()) {
            Some(i) => {
                proof {
                    lemma_entries_map_index(old_models, i as int);
                }
                if packet.seq() > self.entries[i].packet.seq() {
                    let entry = CacheEntry { packet, stored_at: now };
                    self.entries.set(i, entry);
                    proof {
                        assert(entry_models(self.entries@) =~= old_models.update(
                            i as int,
                            new_entry_ghost@,
                        ));
                        lemma_entries_map_update(old_models, i as int, new_entry_ghost@);
                        assert(keys_unique(entry_models(self.entries@)));
                    }
                }
            },
            None => {
                if self.entries.len() < self.capacity {
                    let entry = CacheEntry { packet, stored_at: now };
                    self.entries.push(entry);
                    proof {
                        assert(entry_models(self.entries@) =~= old_models.push(new_entry_ghost@));
                        lemma_entries_map_push(old_models, new_entry_ghost@);
                        assert(keys_unique(entry_models(self.entries@)));
                    }
                } else {
                    // Evict the entry stored the longest ago.
                    let mut best: usize = 0;
                    let mut j: usize = 1;
                    while j < self.entries.len()
                        invariant
                            best < j <= self.entries@.len(),
                            self.entries@.len() >= 1,
                            forall|j2: int|
                                0 <= j2 < j ==> entry_models(self.entries@)[
                                    best as int
                                ].stored_at <= (#[trigger] entry_models(self.entries@)[
                                    j2
                                ]).stored_at,
                        decreases self.entries@.len() - j,
                    {
                        if self.entries[j].stored_at < self.entries[best].stored_at {
                            best = j;
                        }
                        j = j + 1;
                    }
                    let ghost victim = old_models[best as int].packet.k;
                    proof {
                        lemma_entries_map_index(old_models, best as int);
                        lemma_entries_map_remove(old_models, best as int);
                    }
                    self.entries.remove(best);
                    let ghost mid_models = entry_models(self.entries@);
                    proof {
                        assert(mid_models =~= old_models.remove(best as int));
                        assert(forall|a: int|
                            0 <= a < mid_models.len() ==> #[trigger] mid_models[a] == if a < best
                                as int {
                                old_models[a]
                            } else {
                                old_models[a + 1]
                            });
                        assert(keys_unique(mid_models));
                        assert(forall|a: int|
                            0 <= a < mid_models.len() ==> (#[trigger] mid_models[a]).packet.k
                                != packet@.k);
                        lemma_entries_map_contains(mid_models, packet@.k);
                    }
                    let entry = CacheEntry { packet, stored_at: now };
                    self.entries.push(entry);
                    proof {
                        assert(entry_models(self.entries@) =~= mid_models.push(new_entry_ghost@));
                        lemma_entries_map_push(mid_models, new_entry_ghost@);
                        assert(keys_unique(entry_models(self.entries@)));
                        // The evicted key is a minimizer over the whole map.
                        assert forall|k2: Seq<u8>| old(self)@.dom().contains(k2) implies old(
                            self,
                        )@[victim].stored_at <= (#[trigger] old(self)@[k2]).stored_at by {
                            lemma_entries_map_contains(old_models, k2);
                            let a = choose|a: int|
                                0 <= a < old_models.len() && (#[trigger] old_models[a]).packet.k
                                    == k2;
                            lemma_entries_map_index(old_models, a);
                        };
                        assert(old(self)@.dom().contains(victim));
                        assert(final(self)@ =~= old(self)@.remove(victim).insert(
                            packet@.k,
                            new_entry_ghost@,
                        ));
                    }
                }
            },
        }
    }
}

} // verus!

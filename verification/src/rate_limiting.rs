//! Per-source-IP request accounting over a fixed time window, used to gate
//! network refreshes so that an adversary cannot force unbounded outbound
//! traffic.
//!
//! Each source IP gets a counter inside its current window. The first
//! `max_per_window` window-live calls are admitted; further calls inside
//! the same window are limited. A call after the window has passed starts a
//! fresh window. Idle entries are reclaimed by [`IpRateLimiter::sweep`].

use vstd::prelude::*;

verus! {

/// One source's accounting slot: the IP, the start of its current window,
/// and how many admitted requests the window has seen.
#[derive(Clone, Copy, Debug)]
#[verifier::ext_equal]
pub struct IpSlot {
    pub ip: u128,
    pub window_start: u64,
    pub count: u32,
}

/// Whether `e`'s window is still running at time `now`. A window that
/// started in the future (a clock regression) counts as live.
pub open spec fn window_live(e: IpSlot, now: u64, window: u64) -> bool {
    now < e.window_start + window
}

/// No two slots share an IP.
pub open spec fn ips_unique(s: Seq<IpSlot>) -> bool {
    forall|i: int, j: int| 0 <= i < j < s.len() ==> (#[trigger] s[i]).ip != (#[trigger] s[j]).ip
}

/// The IP-to-slot map that a sequence of slots denotes.
pub open spec fn ip_map(s: Seq<IpSlot>) -> Map<u128, IpSlot>
    decreases s.len(),
{
    if s.len() == 0 {
        Map::empty()
    } else {
        ip_map(s.drop_last()).insert(s.last().ip, s.last())
    }
}

/// An IP is in the map exactly when some slot carries it.
pub proof fn lemma_ip_map_contains(s: Seq<IpSlot>, k: u128)
    ensures
        ip_map(s).dom().contains(k) <==> (exists|i: int|
            0 <= i < s.len() && (#[trigger] s[i]).ip == k),
    decreases s.len(),
{
    if s.len() == 0 {
    } else {
        lemma_ip_map_contains(s.drop_last(), k);
        assert(forall|i: int| 0 <= i < s.len() - 1 ==> s.drop_last()[i] == s[i]);
        if s.last().ip == k {
            assert(s[s.len() - 1].ip == k);
        } else {
            if exists|i: int| 0 <= i < s.len() && (#[trigger] s[i]).ip == k {
                let i = choose|i: int| 0 <= i < s.len() && (#[trigger] s[i]).ip == k;
                assert(i < s.len() - 1);
                assert(s.drop_last()[i].ip == k);
            }
        }
    }
}

/// With unique IPs, the map sends each slot's IP to that slot.
pub proof fn lemma_ip_map_index(s: Seq<IpSlot>, i: int)
    requires
        ips_unique(s),
        0 <= i < s.len(),
    ensures
        ip_map(s).dom().contains(s[i].ip),
        ip_map(s)[s[i].ip] == s[i],
    decreases s.len(),
{
    assert(forall|j: int| 0 <= j < s.len() - 1 ==> s.drop_last()[j] == s[j]);
    if i == s.len() - 1 {
    } else {
        lemma_ip_map_index(s.drop_last(), i);
        assert(s[i].ip != s[s.len() - 1].ip);
    }
}

/// Replacing the slot at `i` by one with the same IP updates just that
/// IP's slot.
pub proof fn lemma_ip_map_update(s: Seq<IpSlot>, i: int, e: IpSlot)
    requires
        ips_unique(s),
        0 <= i < s.len(),
        e.ip == s[i].ip,
    ensures
        ip_map(s.update(i, e)) =~= ip_map(s).insert(e.ip, e),
    decreases s.len(),
{
    assert(forall|j: int| 0 <= j < s.len() - 1 ==> s.drop_last()[j] == s[j]);
    if i == s.len() - 1 {
        assert(s.update(i, e).drop_last() =~= s.drop_last());
        assert(s.update(i, e).last() == e);
    } else {
        lemma_ip_map_update(s.drop_last(), i, e);
        assert(s.update(i, e).drop_last() =~= s.drop_last().update(i, e));
        assert(s.update(i, e).last() == s.last());
        assert(e.ip != s.last().ip);
    }
}

/// Appending a slot inserts its IP.
pub proof fn lemma_ip_map_push(s: Seq<IpSlot>, e: IpSlot)
    ensures
        ip_map(s.push(e)) =~= ip_map(s).insert(e.ip, e),
{
    assert(s.push(e).drop_last() =~= s);
    assert(s.push(e).last() == e);
}

// ---------------------------------------------------------------------------
// The step relation
// ---------------------------------------------------------------------------

/// The accounting state after one call for `ip` at time `now`: a fresh
/// window of count 1 where the IP is unseen or its window has passed, an
/// incremented count while under the threshold, and no change once the
/// threshold is reached.
pub open spec fn rl_step_state(
    m: Map<u128, IpSlot>,
    ip: u128,
    now: u64,
    window: u64,
    max: u32,
) -> Map<u128, IpSlot> {
    if !m.dom().contains(ip) || !window_live(m[ip], now, window) {
        m.insert(ip, IpSlot { ip, window_start: now, count: 1 })
    } else if m[ip].count < max {
        m.insert(
            ip,
            IpSlot { ip, window_start: m[ip].window_start, count: (m[ip].count + 1) as u32 },
        )
    } else {
        m
    }
}

/// Whether one call for `ip` at time `now` is limited: only when the IP
/// already has a live window whose count has reached the threshold.
pub open spec fn rl_step_limited(
    m: Map<u128, IpSlot>,
    ip: u128,
    now: u64,
    window: u64,
    max: u32,
) -> bool {
    m.dom().contains(ip) && window_live(m[ip], now, window) && m[ip].count >= max
}

// ---------------------------------------------------------------------------
// The rate limiter
// ---------------------------------------------------------------------------

/// Per-source-IP request accounting with a fixed window and a threshold.
#[derive(Debug)]
pub struct IpRateLimiter {
    slots: Vec<IpSlot>,
    window: u64,
    max_per_window: u32,
}

impl View for IpRateLimiter {
    type V = Map<u128, IpSlot>;

    closed spec fn view(&self) -> Map<u128, IpSlot> {
        ip_map(self.slots@)
    }
}

impl IpRateLimiter {
    /// The length of the accounting window, in seconds.
    pub closed spec fn spec_window(&self) -> u64 {
        self.window
    }

    /// How many window-live calls are admitted before limiting sets in.
    pub closed spec fn spec_max(&self) -> u32 {
        self.max_per_window
    }

    /// One slot per IP.
    pub closed spec fn inv(&self) -> bool {
        ips_unique(self.slots@)
    }

    /// A fresh limiter admitting `max_per_window` requests per IP within
    /// each `window`-second window.
    pub fn new(window: u64, max_per_window: u32) -> (r: IpRateLimiter)
        requires
            window >= 1,
            max_per_window >= 1,
        ensures
            r.inv(),
            r@ == Map::<u128, IpSlot>::empty(),
            r.spec_window() == window,
            r.spec_max() == max_per_window,
    {
        IpRateLimiter { slots: Vec::new(), window, max_per_window }
    }

    /// The index of the slot for `ip`, if one exists.
    fn find_index(&self, ip: u128) -> (r: Option<usize>)
        ensures
            r matches Some(i) ==> i < self.slots@.len() && self.slots@[i as int].ip == ip,
            r is None ==> forall|i: int|
                0 <= i < self.slots@.len() ==> (#[trigger] self.slots@[i]).ip != ip,
    {
        let mut i: usize = 0;
        while i < self.slots.len()
            invariant
                i <= self.slots@.len(),
                forall|j: int| 0 <= j < i ==> (#[trigger] self.slots@[j]).ip != ip,
            decreases self.slots@.len() - i,
        {
            if self.slots[i].ip == ip {
                return Some(i);
            }
            i = i + 1;
        }
        None
    }

    /// Accounts one call from `ip` at time `now` and says whether it is
    /// rate limited, exactly as [`rl_step_state`] and [`rl_step_limited`]
    /// describe.
    pub fn is_limited(&mut self, ip: u128, now: u64) -> (r: bool)
        requires
            old(self).inv(),
        ensures
            final(self).inv(),
            final(self).spec_window() == old(self).spec_window(),
            final(self).spec_max() == old(self).spec_max(),
            final(self)@ == rl_step_state(
                old(self)@,
                ip,
                now,
                old(self).spec_window(),
                old(self).spec_max(),
            ),
            r == rl_step_limited(old(self)@, ip, now, old(self).spec_window(), old(self).spec_max()),
    {
        let ghost old_slots = self.slots@;
        match self.find_index(ip) {
            None => {
                proof {
                    lemma_ip_map_contains(old_slots, ip);
                }
                let fresh = IpSlot { ip, window_start: now, count: 1 };
                self.slots.push(fresh);
                proof {
                    lemma_ip_map_push(old_slots, fresh);
                    lemma_ip_map_contains(old_slots, ip);
                    assert(ips_unique(self.slots@));
                }
                false
            },
            Some(i) => {
                proof {
                    lemma_ip_map_index(old_slots, i as int);
                }
                let e = self.slots[i];
                if now >= e.window_start && now - e.window_start >= self.window {
                    // The window has passed: start a fresh one.
                    let fresh = IpSlot { ip, window_start: now, count: 1 };
                    self.slots.set(i, fresh);
                    proof {
                        lemma_ip_map_update(old_slots, i as int, fresh);
                        assert(ips_unique(self.slots@));
                    }
                    false
                } else if e.count < self.max_per_window {
                    let bumped = IpSlot { ip, window_start: e.window_start, count: e.count + 1 };
                    self.slots.set(i, bumped);
                    proof {
                        lemma_ip_map_update(old_slots, i as int, bumped);
                        assert(ips_unique(self.slots@));
                    }
                    false
                } else {
                    true
                }
            },
        }
    }

    /// Reclaims every slot whose window has passed at time `now`; live
    /// slots are kept unchanged.
    pub fn sweep(&mut self, now: u64)
        requires
            old(self).inv(),
        ensures
            final(self).inv(),
            final(self).spec_window() == old(self).spec_window(),
            final(self).spec_max() == old(self).spec_max(),
            forall|ip: u128|
                final(self)@.dom().contains(ip) <==> (old(self)@.dom().contains(ip)
                    && window_live(old(self)@[ip], now, old(self).spec_window())),
            forall|ip: u128|
                #[trigger] final(self)@.dom().contains(ip) ==> final(self)@[ip] == old(self)@[ip],
    {
        let ghost old_slots = self.slots@;
        let mut kept: Vec<IpSlot> = Vec::new();
        let mut i: usize = 0;
        while i < self.slots.len()
            invariant
                i <= self.slots@.len(),
                self.slots@ == old_slots,
                ips_unique(old_slots),
                ips_unique(kept@),
                self.window == old(self).spec_window(),
                forall|k: u128|
                    ip_map(kept@).dom().contains(k) <==> (exists|j: int|
                        0 <= j < i && (#[trigger] old_slots[j]).ip == k && window_live(
                            old_slots[j],
                            now,
                            self.window,
                        )),
                forall|k: u128|
                    #[trigger] ip_map(kept@).dom().contains(k) ==> ip_map(kept@)[k] == ip_map(
                        old_slots,
                    )[k],
            decreases self.slots@.len() - i,
        {
            let e = self.slots[i];
            let live = !(now >= e.window_start && now - e.window_start >= self.window);
            if live {
                let ghost kept_before = kept@;
                kept.push(e);
                proof {
                    lemma_ip_map_push(kept_before, e);
                    lemma_ip_map_contains(kept_before, e.ip);
                    // e.ip is new to kept: every kept IP stems from an
                    // earlier slot, and IPs are unique across slots.
                    assert(forall|j: int|
                        0 <= j < i ==> (#[trigger] old_slots[j]).ip != old_slots[i as int].ip);
                    assert(ips_unique(kept@));
                    lemma_ip_map_index(old_slots, i as int);
                    assert forall|k: u128| ip_map(kept@).dom().contains(k) implies ip_map(
                        kept@,
                    )[k] == ip_map(old_slots)[k] by {
                        if k != e.ip {
                            assert(ip_map(kept_before).dom().contains(k));
                        }
                    };
                }
            }
            i = i + 1;
        }
        self.slots = kept;
        proof {
            assert forall|ip: u128| final(self)@.dom().contains(ip) implies (old(
                self,
            )@.dom().contains(ip) && window_live(old(self)@[ip], now, old(self).spec_window())) by {
                let j = choose|j: int|
                    0 <= j < old_slots.len() && (#[trigger] old_slots[j]).ip == ip && window_live(
                        old_slots[j],
                        now,
                        old(self).spec_window(),
                    );
                lemma_ip_map_index(old_slots, j);
            };
            assert forall|ip: u128|
                (old(self)@.dom().contains(ip) && window_live(
                    old(self)@[ip],
                    now,
                    old(self).spec_window(),
                )) implies final(self)@.dom().contains(ip) by {
                lemma_ip_map_contains(old_slots, ip);
                let j = choose|j: int| 0 <= j < old_slots.len() && (#[trigger] old_slots[j]).ip == ip;
                lemma_ip_map_index(old_slots, j);
            };
        }
    }
}

// ---------------------------------------------------------------------------
// Laws
// ---------------------------------------------------------------------------

/// The accounting state after one call for `ip` at each time in `times`,
/// in order.
pub open spec fn rl_run(
    m: Map<u128, IpSlot>,
    ip: u128,
    times: Seq<u64>,
    window: u64,
    max: u32,
) -> Map<u128, IpSlot>
    decreases times.len(),
{
    if times.len() == 0 {
        m
    } else {
        rl_step_state(rl_run(m, ip, times.drop_last(), window, max), ip, times.last(), window, max)
    }
}

/// Threshold law: starting from a state that has not seen `ip`, a run of
/// calls whose times all fall inside the window opened by the first call
/// admits each of the first `max` calls, and limits any further call
/// inside that window.
pub proof fn lemma_rate_limit_threshold(
    m: Map<u128, IpSlot>,
    ip: u128,
    times: Seq<u64>,
    window: u64,
    max: u32,
)
    requires
        !m.dom().contains(ip),
        max >= 1,
        1 <= times.len() <= max,
        forall|i: int| 1 <= i < times.len() ==> (#[trigger] times[i]) < times[0] + window,
    ensures
        ({
            let after = rl_run(m, ip, times, window, max);
            &&& after.dom().contains(ip)
            &&& after[ip].count == times.len()
            &&& after[ip].window_start == times[0]
        }),
        !rl_step_limited(
            rl_run(m, ip, times.drop_last(), window, max),
            ip,
            times.last(),
            window,
            max,
        ),
        forall|t: u64|
            times.len() == max && t < times[0] + window ==> rl_step_limited(
                rl_run(m, ip, times, window, max),
                ip,
                t,
                window,
                max,
            ),
    decreases times.len(),
{
    if times.len() == 1 {
        assert(rl_run(m, ip, times.drop_last(), window, max) == m);
    } else {
        lemma_rate_limit_threshold(m, ip, times.drop_last(), window, max);
        assert(times.drop_last()[0] == times[0]);
        assert(times.last() < times[0] + window);
    }
}

/// Isolation law: a call from one IP never changes another IP's slot, so a
/// request from a distinct source in the same window is unaffected.
pub proof fn lemma_rate_limit_isolation(
    m: Map<u128, IpSlot>,
    ip: u128,
    other: u128,
    now: u64,
    window: u64,
    max: u32,
)
    requires
        ip != other,
    ensures
        rl_step_state(m, ip, now, window, max).dom().contains(other) == m.dom().contains(other),
        m.dom().contains(other) ==> rl_step_state(m, ip, now, window, max)[other] == m[other],
        rl_step_limited(rl_step_state(m, ip, now, window, max), other, now, window, max)
            == rl_step_limited(m, other, now, window, max),
{
}

} // verus!

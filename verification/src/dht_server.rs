//! The rate-limited caching responder.
//!
//! One inbound lookup is handled cache-first: a present entry is answered
//! immediately, stale or not — a response is self-verifying through its
//! embedded signature, so staleness is only a freshness tradeoff. A missing
//! or expired entry then asks for one network refresh, gated by the
//! per-source rate limiter; every other request kind is delegated to the
//! engine's default handling. The caller performs the network I/O and
//! feeds any packet that arrives back through
//! [`DhtServer::on_lookup_result`], where the monotonic write guard
//! decides.

use vstd::prelude::*;

use crate::bep44::parse_relay_spec;
use crate::byteseq::copy_bytes;
use crate::cache::{put_spec, Cache, EntryModel};
use crate::errors::Error;
use crate::keys::{Keypair, PublicKey};
use crate::rate_limiting::{rl_step_limited, rl_step_state, IpRateLimiter, IpSlot};
use crate::signed_packet::{effective_ttl, expires_in_spec, record_ttls, SignedPacket};

verus! {

/// An inbound DHT request, as the closed set of kinds this resolver tells
/// apart: the lookup it handles itself, and everything else.
pub enum InboundRequest {
    /// A lookup for the signed packet published under `target`.
    GetValue { target: PublicKey },
    /// Any other request kind (peer storage, routing, immutable items).
    Other,
}

/// The parts of a "get mutable" reply that let the requester re-verify
/// authenticity on its own: value, key, sequence and signature bytes, plus
/// an opaque continuation token.
pub struct GetMutableResponse {
    pub token: Vec<u8>,
    pub v: Vec<u8>,
    pub k: Vec<u8>,
    pub seq: u64,
    pub sig: Vec<u8>,
}

/// What the resolver decides for one inbound request. The caller emits
/// `response` (if any), issues one asynchronous network lookup for
/// `refresh` (if any), and always hands the request on to the engine's
/// default handling.
pub struct HandleOutcome {
    pub response: Option<GetMutableResponse>,
    pub refresh: Option<PublicKey>,
    pub delegate: bool,
}

/// Whether a cache entry counts as expired at `now` under the TTL bounds.
pub open spec fn entry_expired(e: EntryModel, now: u64, min_ttl: u32, max_ttl: u32) -> bool {
    expires_in_spec(e.stored_at, now, effective_ttl(record_ttls(e.packet.v), min_ttl, max_ttl))
        == 0
}

/// Whether a lookup for `target` should trigger a network refresh: the
/// cache has nothing for it, or only an expired entry.
pub open spec fn needs_refresh(
    m: Map<Seq<u8>, EntryModel>,
    target: Seq<u8>,
    now: u64,
    min_ttl: u32,
    max_ttl: u32,
) -> bool {
    !m.dom().contains(target) || entry_expired(m[target], now, min_ttl, max_ttl)
}

/// The caching responder: a cache and a rate limiter injected at
/// construction, the TTL bounds, and the optional explicit resolvers to
/// hand to outbound lookups.
#[derive(Debug)]
pub struct DhtServer {
    cache: Cache,
    resolvers: Option<Vec<String>>,
    minimum_ttl: u32,
    maximum_ttl: u32,
    rate_limiter: IpRateLimiter,
}

impl DhtServer {
    /// The cache's contents.
    pub closed spec fn cache_view(&self) -> Map<Seq<u8>, EntryModel> {
        self.cache@
    }

    /// The cache's capacity.
    pub closed spec fn cache_cap(&self) -> nat {
        self.cache.cap()
    }

    /// The rate limiter's accounting state.
    pub closed spec fn rl_view(&self) -> Map<u128, IpSlot> {
        self.rate_limiter@
    }

    /// The rate limiter's window, in seconds.
    pub closed spec fn rl_window(&self) -> u64 {
        self.rate_limiter.spec_window()
    }

    /// The rate limiter's admission threshold.
    pub closed spec fn rl_max(&self) -> u32 {
        self.rate_limiter.spec_max()
    }

    /// The lower TTL bound.
    pub closed spec fn spec_minimum_ttl(&self) -> u32 {
        self.minimum_ttl
    }

    /// The upper TTL bound.
    pub closed spec fn spec_maximum_ttl(&self) -> u32 {
        self.maximum_ttl
    }

    /// The configured explicit resolvers.
    pub closed spec fn spec_resolvers(&self) -> Option<Vec<String>> {
        self.resolvers
    }

    /// The responder's invariant: its cache's and rate limiter's own.
    pub closed spec fn inv(&self) -> bool {
        self.cache.inv() && self.rate_limiter.inv()
    }

    /// A responder over the injected cache and rate limiter.
    pub fn new(
        cache: Cache,
        resolvers: Option<Vec<String>>,
        minimum_ttl: u32,
        maximum_ttl: u32,
        rate_limiter: IpRateLimiter,
    ) -> (r: DhtServer)
        requires
            cache.inv(),
            rate_limiter.inv(),
        ensures
            r.inv(),
            r.cache_view() == cache@,
            r.cache_cap() == cache.cap(),
            r.rl_view() == rate_limiter@,
            r.rl_window() == rate_limiter.spec_window(),
            r.rl_max() == rate_limiter.spec_max(),
            r.spec_minimum_ttl() == minimum_ttl,
            r.spec_maximum_ttl() == maximum_ttl,
            r.spec_resolvers() == resolvers,
    {
        DhtServer { cache, resolvers, minimum_ttl, maximum_ttl, rate_limiter }
    }

    /// The explicit resolver addresses, if any were configured.
    pub fn resolvers(&self) -> (r: &Option<Vec<String>>)
        ensures
            *r == self.spec_resolvers(),
    {
        &self.resolvers
    }

    /// Handles one inbound request at time `now` from source `from_ip`:
    /// answers a lookup from the cache (stale or not), decides on at most
    /// one rate-limited refresh, and delegates everything to the engine's
    /// default handling. The cache is never touched on this path.
    pub fn handle_request(&mut self, from_ip: u128, now: u64, request: &InboundRequest) -> (r:
        HandleOutcome)
        requires
            old(self).inv(),
        ensures
            final(self).inv(),
            final(self).cache_view() == old(self).cache_view(),
            final(self).cache_cap() == old(self).cache_cap(),
            final(self).rl_window() == old(self).rl_window(),
            final(self).rl_max() == old(self).rl_max(),
            final(self).spec_minimum_ttl() == old(self).spec_minimum_ttl(),
            final(self).spec_maximum_ttl() == old(self).spec_maximum_ttl(),
            final(self).spec_resolvers() == old(self).spec_resolvers(),
            r.delegate,
            request is Other ==> r.response is None && r.refresh is None && final(self).rl_view()
                == old(self).rl_view(),
            request matches InboundRequest::GetValue { target } ==> {
                let m = old(self).cache_view();
                let hit = m.dom().contains(target@);
                let expired = needs_refresh(
                    m,
                    target@,
                    now,
                    old(self).spec_minimum_ttl(),
                    old(self).spec_maximum_ttl(),
                );
                &&& (r.response is Some) == hit
                &&& (r.response matches Some(resp) ==> {
                    let e = m[target@];
                    &&& resp.v@ == e.packet.v
                    &&& resp.k@ == e.packet.k
                    &&& resp.seq == e.packet.seq
                    &&& resp.sig@ == e.packet.sig
                    &&& resp.token@ == seq![0u8, 0u8, 0u8, 0u8]
                    // Self-verifying: even a stale answer carries a valid
                    // signature, so serving it is never a correctness
                    // problem.
                    &&& crate::bep44::envelope_wf(
                        crate::bep44::EnvelopeModel {
                            k: resp.k@,
                            seq: resp.seq,
                            v: resp.v@,
                            sig: resp.sig@,
                        },
                    )
                })
                &&& !expired ==> r.refresh is None && final(self).rl_view() == old(self).rl_view()
                &&& expired ==> {
                    let limited = rl_step_limited(
                        old(self).rl_view(),
                        from_ip,
                        now,
                        old(self).rl_window(),
                        old(self).rl_max(),
                    );
                    &&& final(self).rl_view() == rl_step_state(
                        old(self).rl_view(),
                        from_ip,
                        now,
                        old(self).rl_window(),
                        old(self).rl_max(),
                    )
                    &&& (r.refresh is Some) == !limited
                    &&& (r.refresh matches Some(t) ==> t@ == target@)
                }
            },
    {
        match request {
            InboundRequest::Other => HandleOutcome {
                response: None,
                refresh: None,
                delegate: true,
            },
            InboundRequest::GetValue { target } => {
                let mut response: Option<GetMutableResponse> = None;
                let mut expired: bool = true;
                match self.cache.get(target) {
                    Some(entry) => {
                        let packet = entry.packet();
                        let mut token: Vec<u8> = Vec::new();
                        token.push(0);
                        token.push(0);
                        token.push(0);
                        token.push(0);
                        proof {
                            assert(token@ =~= seq![0u8, 0u8, 0u8, 0u8]);
                        }
                        response = Some(
                            GetMutableResponse {
                                token,
                                v: copy_bytes(packet.v()),
                                k: copy_bytes(packet.public_key_bytes()),
                                seq: packet.seq(),
                                sig: copy_bytes(packet.sig()),
                            },
                        );
                        expired = entry.expires_in(now, self.minimum_ttl, self.maximum_ttl) == 0;
                    },
                    None => {},
                }
                let refresh = if expired {
                    if self.rate_limiter.is_limited(from_ip, now) {
                        None
                    } else {
                        Some(target.clone_key())
                    }
                } else {
                    None
                };
                HandleOutcome { response, refresh, delegate: true }
            },
        }
    }

    /// Feeds the outcome of a completed network lookup for `public_key`
    /// back into the cache: the relay bytes are parsed and verified, and
    /// only a packet that verifies reaches the monotonic write guard; a
    /// failed parse leaves the cache untouched.
    pub fn on_lookup_result(&mut self, public_key: &PublicKey, bytes: &[u8], now: u64) -> (r:
        Result<(), Error>)
        requires
            old(self).inv(),
            public_key.wf(),
        ensures
            final(self).inv(),
            final(self).rl_view() == old(self).rl_view(),
            final(self).cache_cap() == old(self).cache_cap(),
            final(self).rl_window() == old(self).rl_window(),
            final(self).rl_max() == old(self).rl_max(),
            final(self).spec_minimum_ttl() == old(self).spec_minimum_ttl(),
            final(self).spec_maximum_ttl() == old(self).spec_maximum_ttl(),
            final(self).spec_resolvers() == old(self).spec_resolvers(),
            parse_relay_spec(public_key@, bytes@) matches Ok(m) ==> r is Ok && put_spec(
                old(self).cache_view(),
                final(self).cache_view(),
                m,
                now,
                old(self).cache_cap(),
            ),
            parse_relay_spec(public_key@, bytes@) matches Err(e) ==> r == Err::<(), Error>(e)
                && final(self).cache_view() == old(self).cache_view(),
    {
        match SignedPacket::try_from_relay_response(public_key, bytes) {
            Ok(packet) => {
                self.cache.put(packet, now);
                Ok(())
            },
            Err(e) => Err(e),
        }
    }

    /// Publishes a record payload signed by `keypair` at an explicit
    /// sequence number, storing it under the monotonic write guard, and
    /// returns the signed packet.
    pub fn publish_record(&mut self, keypair: &Keypair, seq: u64, v: Vec<u8>, now: u64) -> (r:
        SignedPacket)
        requires
            old(self).inv(),
            keypair.wf(),
        ensures
            final(self).inv(),
            final(self).rl_view() == old(self).rl_view(),
            final(self).cache_cap() == old(self).cache_cap(),
            final(self).rl_window() == old(self).rl_window(),
            final(self).rl_max() == old(self).rl_max(),
            final(self).spec_minimum_ttl() == old(self).spec_minimum_ttl(),
            final(self).spec_maximum_ttl() == old(self).spec_maximum_ttl(),
            final(self).spec_resolvers() == old(self).spec_resolvers(),
            r@.k == keypair.pk(),
            r@.seq == seq,
            r@.v == v@,
            r.wf(),
            put_spec(
                old(self).cache_view(),
                final(self).cache_view(),
                r@,
                now,
                old(self).cache_cap(),
            ),
    {
        let packet = SignedPacket::new_with_sequence(keypair, seq, v);
        let stored = packet.clone_packet();
        self.cache.put(stored, now);
        packet
    }
}

} // verus!

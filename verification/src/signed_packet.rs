//! Signed packets: the envelope wrapped with record semantics, and the
//! TTL-based expiry model.
//!
//! A packet's record payload decodes to a set of DNS-style records, each
//! carrying its own time-to-live. The effective TTL clamps the smallest
//! record TTL into `[min_ttl, max_ttl]`; an entry whose effective TTL has
//! fully elapsed reports 0 and is eligible for refresh.

use vstd::prelude::*;

use crate::bep44::{envelope_wf, Bep44Args, EnvelopeModel};
use crate::errors::Error;
use crate::keys::{Keypair, PublicKey};

verus! {

// ---------------------------------------------------------------------------
// Record TTLs
// ---------------------------------------------------------------------------

/// The TTLs of the answer records that the payload bytes `v` decode to, in
/// order; `None` where `v` does not parse as a DNS packet. A pure function
/// of the bytes.
pub uninterp spec fn record_ttls(v: Seq<u8>) -> Option<Seq<u32>>;

/// Relies on `simple_dns::Packet::parse`: parsing is deterministic in the
/// input bytes; the answers' TTLs, in packet order, are named
/// `record_ttls`.
#[verifier::external_body]
fn decode_record_ttls(v: &[u8]) -> (r: Option<Vec<u32>>)
    ensures
        (r is Some) == (record_ttls(v@) is Some),
        r matches Some(t) ==> record_ttls(v@) == Some(t@),
{
    match simple_dns::Packet::parse(v) {
        Ok(p) => Some(p.answers.iter().map(|a| a.ttl).collect()),
        Err(_) => None,
    }
}

/// The smallest of the record TTLs; 0 for an empty record set.
pub open spec fn min_record_ttl(ttls: Seq<u32>) -> u32
    decreases ttls.len(),
{
    if ttls.len() == 0 {
        0u32
    } else if ttls.len() == 1 {
        ttls[0]
    } else {
        let rest = min_record_ttl(ttls.drop_first());
        if ttls[0] <= rest {
            ttls[0]
        } else {
            rest
        }
    }
}

/// `t` clamped into `[min_ttl, max_ttl]`:
/// `min(max_ttl, max(min_ttl, t))`.
pub open spec fn clamp_ttl(t: u32, min_ttl: u32, max_ttl: u32) -> u32 {
    let raised = if t < min_ttl {
        min_ttl
    } else {
        t
    };
    if raised > max_ttl {
        max_ttl
    } else {
        raised
    }
}

/// The effective TTL of a payload whose decoded record TTLs are `dec`: the
/// smallest record TTL (0 where the payload does not decode, or holds no
/// records) clamped into `[min_ttl, max_ttl]`.
pub open spec fn effective_ttl(dec: Option<Seq<u32>>, min_ttl: u32, max_ttl: u32) -> u32 {
    let t = match dec {
        Some(ttls) => min_record_ttl(ttls),
        None => 0u32,
    };
    clamp_ttl(t, min_ttl, max_ttl)
}

/// Seconds left before an entry stored at `stored_at` with effective TTL
/// `eff` expires at time `now`: `max(0, eff - elapsed)`, never negative; 0
/// means expired.
pub open spec fn expires_in_spec(stored_at: u64, now: u64, eff: u32) -> u64 {
    let elapsed = if now >= stored_at {
        now - stored_at
    } else {
        0
    };
    if elapsed >= eff {
        0u64
    } else {
        (eff - elapsed) as u64
    }
}

/// The smallest element of `t`, as [`min_record_ttl`] describes.
pub fn min_u32_vec(t: &Vec<u32>) -> (r: u32)
    ensures
        r == min_record_ttl(t@),
{
    if t.len() == 0 {
        return 0;
    }
    let mut i: usize = t.len() - 1;
    let mut acc: u32 = t[i];
    while i > 0
        invariant
            i < t@.len(),
            acc == min_record_ttl(t@.skip(i as int)),
        decreases i,
    {
        i = i - 1;
        let x = t[i];
        proof {
            assert(t@.skip(i as int).drop_first() =~= t@.skip(i as int + 1));
            assert(t@.skip(i as int)[0] == t@[i as int]);
        }
        if x <= acc {
            acc = x;
        }
    }
    proof {
        assert(t@.skip(0) =~= t@);
    }
    acc
}

/// The effective TTL of the payload bytes `v` under the bounds
/// `[min_ttl, max_ttl]`.
pub fn effective_ttl_of(v: &[u8], min_ttl: u32, max_ttl: u32) -> (r: u32)
    ensures
        r == effective_ttl(record_ttls(v@), min_ttl, max_ttl),
{
    let t = match decode_record_ttls(v) {
        Some(ttls) => min_u32_vec(&ttls),
        None => 0,
    };
    let raised = if t < min_ttl {
        min_ttl
    } else {
        t
    };
    if raised > max_ttl {
        max_ttl
    } else {
        raised
    }
}

// ---------------------------------------------------------------------------
// Signed packets
// ---------------------------------------------------------------------------

/// A versioned, signed record set: the envelope with packet semantics. It
/// is created once by its publisher and immutable thereafter.
#[derive(Debug)]
pub struct SignedPacket {
    args: Bep44Args,
}

impl View for SignedPacket {
    type V = EnvelopeModel;

    closed spec fn view(&self) -> EnvelopeModel {
        self.args@
    }
}

impl SignedPacket {
    /// A well-formed packet is a well-formed envelope.
    pub open spec fn wf(&self) -> bool {
        envelope_wf(self@)
    }

    /// Wraps an already-verified envelope.
    pub fn from_args(args: Bep44Args) -> (r: SignedPacket)
        ensures
            r@ == args@,
    {
        SignedPacket { args }
    }

    /// Signs `v` with `keypair` at an explicit sequence number.
    pub fn new_with_sequence(keypair: &Keypair, seq: u64, v: Vec<u8>) -> (r: SignedPacket)
        requires
            keypair.wf(),
        ensures
            r@.k == keypair.pk(),
            r@.seq == seq,
            r@.v == v@,
            r.wf(),
    {
        SignedPacket { args: Bep44Args::build_with_sequence(keypair, seq, v) }
    }

    /// Signs `v` with `keypair`, the sequence number drawn from the wall
    /// clock in microseconds.
    pub fn from_record_payload(keypair: &Keypair, v: Vec<u8>) -> (r: SignedPacket)
        requires
            keypair.wf(),
        ensures
            r@.k == keypair.pk(),
            r@.v == v@,
            r.wf(),
    {
        SignedPacket { args: Bep44Args::build_from_signing(keypair, v) }
    }

    /// An owned copy of this packet.
    pub fn clone_packet(&self) -> (r: SignedPacket)
        ensures
            r@ == self@,
    {
        SignedPacket { args: self.args.clone_args() }
    }

    /// The raw bytes of the packet's public key.
    pub fn public_key_bytes(&self) -> (r: &Vec<u8>)
        ensures
            r@ == self@.k,
    {
        self.args.public_key().as_bytes()
    }

    /// The packet's public key.
    pub fn public_key(&self) -> (r: PublicKey)
        requires
            self@.k.len() == 32,
        ensures
            r@ == self@.k,
    {
        self.args.public_key().clone_key()
    }

    /// The sequence number.
    pub fn seq(&self) -> (r: u64)
        ensures
            r == self@.seq,
    {
        self.args.seq()
    }

    /// The record payload bytes.
    pub fn v(&self) -> (r: &Vec<u8>)
        ensures
            r@ == self@.v,
    {
        self.args.v()
    }

    /// The signature bytes.
    pub fn sig(&self) -> (r: &Vec<u8>)
        ensures
            r@ == self@.sig,
    {
        self.args.sig()
    }

    /// The packet's relay wire bytes.
    pub fn to_relay_payload(&self) -> (r: Vec<u8>)
        ensures
            r@ == crate::bep44::relay_payload_bytes(self@),
    {
        self.args.relay_payload()
    }

    /// Parses and verifies a relay response for `public_key`.
    pub fn try_from_relay_response(public_key: &PublicKey, bytes: &[u8]) -> (r: Result<
        SignedPacket,
        Error,
    >)
        requires
            public_key.wf(),
        ensures
            (r is Ok) == (crate::bep44::parse_relay_spec(public_key@, bytes@) is Ok),
            r matches Ok(p) ==> p@ == crate::bep44::parse_relay_spec(public_key@, bytes@).unwrap()
                && p.wf(),
            r matches Err(e) ==> crate::bep44::parse_relay_spec(public_key@, bytes@) == Err::<
                EnvelopeModel,
                Error,
            >(e),
    {
        match Bep44Args::try_from_relay_response(public_key, bytes) {
            Ok(args) => Ok(SignedPacket { args }),
            Err(e) => Err(e),
        }
    }
}

} // verus!

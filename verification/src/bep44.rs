//! The BEP44 mutable-item envelope: canonical signable encoding, relay wire
//! format, and the parse/build operations.
//!
//! The wire unit is `signature (64 bytes) || sequence (8 bytes, big-endian)
//! || payload`. The canonical signable string is the ASCII framing
//! `"3:seqi<sequence>e1:v<len(payload)>:"` followed by the raw payload
//! bytes; it must be reproduced bit-for-bit for interoperability, so it is
//! specified here down to the decimal digits.

use vstd::prelude::*;

use crate::byteseq::push_all;
use crate::errors::Error;
use crate::keys::{ed25519_verifies, Keypair, PublicKey};

verus! {

// ---------------------------------------------------------------------------
// Decimal digits
// ---------------------------------------------------------------------------

/// The ASCII decimal digits of `n`, most significant first, no leading
/// zeros (a single `'0'` for zero).
pub open spec fn dec_digits(n: nat) -> Seq<u8>
    decreases n,
{
    if n < 10 {
        seq![(n + 48) as u8]
    } else {
        dec_digits(n / 10).push(((n % 10) + 48) as u8)
    }
}

/// Renders `n` in ASCII decimal.
pub fn u64_to_decimal(n: u64) -> (r: Vec<u8>)
    ensures
        r@ == dec_digits(n as nat),
    decreases n,
{
    if n < 10 {
        let mut out: Vec<u8> = Vec::new();
        out.push((n as u8) + 48);
        proof {
            assert(out@ =~= dec_digits(n as nat));
        }
        out
    } else {
        let mut out = u64_to_decimal(n / 10);
        out.push(((n % 10) as u8) + 48);
        out
    }
}

// ---------------------------------------------------------------------------
// Big-endian sequence numbers
// ---------------------------------------------------------------------------

/// The value of 8 bytes read as a big-endian integer.
pub open spec fn be_u64_of(s: Seq<u8>) -> int
    recommends
        s.len() == 8,
{
    s[0] * 0x100000000000000 + s[1] * 0x1000000000000 + s[2] * 0x10000000000 + s[3] * 0x100000000
        + s[4] * 0x1000000 + s[5] * 0x10000 + s[6] * 0x100 + s[7]
}

/// The 8 big-endian bytes of `x`.
pub open spec fn be_bytes_of(x: u64) -> Seq<u8> {
    seq![
        ((x / 0x100000000000000) % 256) as u8,
        ((x / 0x1000000000000) % 256) as u8,
        ((x / 0x10000000000) % 256) as u8,
        ((x / 0x100000000) % 256) as u8,
        ((x / 0x1000000) % 256) as u8,
        ((x / 0x10000) % 256) as u8,
        ((x / 0x100) % 256) as u8,
        (x % 256) as u8,
    ]
}

/// Reading back the big-endian bytes of `x` yields `x`.
pub proof fn lemma_be_round_trip(x: u64)
    ensures
        be_u64_of(be_bytes_of(x)) == x as int,
{
    assert(((x / 0x100000000000000) % 256) * 0x100000000000000 + ((x / 0x1000000000000) % 256)
        * 0x1000000000000 + ((x / 0x10000000000) % 256) * 0x10000000000 + ((x / 0x100000000) % 256)
        * 0x100000000 + ((x / 0x1000000) % 256) * 0x1000000 + ((x / 0x10000) % 256) * 0x10000 + ((x
        / 0x100) % 256) * 0x100 + (x % 256) == x) by (bit_vector);
}

/// Reads the 8 bytes at `off` as a big-endian integer.
pub fn be_u64_read(b: &[u8], off: usize) -> (r: u64)
    requires
        off + 8 <= b@.len(),
    ensures
        r as int == be_u64_of(b@.subrange(off as int, off as int + 8)),
{
    let b0 = b[off] as u64;
    let b1 = b[off + 1] as u64;
    let b2 = b[off + 2] as u64;
    let b3 = b[off + 3] as u64;
    let b4 = b[off + 4] as u64;
    let b5 = b[off + 5] as u64;
    let b6 = b[off + 6] as u64;
    let b7 = b[off + 7] as u64;
    b0 * 0x100000000000000 + b1 * 0x1000000000000 + b2 * 0x10000000000 + b3 * 0x100000000
        + b4 * 0x1000000 + b5 * 0x10000 + b6 * 0x100 + b7
}

/// Appends the 8 big-endian bytes of `x` to `out`.
pub fn be_u64_write(x: u64, out: &mut Vec<u8>)
    ensures
        final(out)@ == old(out)@ + be_bytes_of(x),
{
    out.push(((x / 0x100000000000000) % 256) as u8);
    out.push(((x / 0x1000000000000) % 256) as u8);
    out.push(((x / 0x10000000000) % 256) as u8);
    out.push(((x / 0x100000000) % 256) as u8);
    out.push(((x / 0x1000000) % 256) as u8);
    out.push(((x / 0x10000) % 256) as u8);
    out.push(((x / 0x100) % 256) as u8);
    out.push((x % 256) as u8);
    proof {
        assert(out@ =~= old(out)@ + be_bytes_of(x));
    }
}

// ---------------------------------------------------------------------------
// The canonical signable string
// ---------------------------------------------------------------------------

/// `"3:seqi"` in ASCII.
pub open spec fn signable_head() -> Seq<u8> {
    seq![51u8, 58u8, 115u8, 101u8, 113u8, 105u8]
}

/// `"e1:v"` in ASCII.
pub open spec fn signable_mid() -> Seq<u8> {
    seq![101u8, 49u8, 58u8, 118u8]
}

/// The canonical signable encoding of `(seq, v)`: the ASCII framing
/// `"3:seqi<seq>e1:v<len(v)>:"` immediately followed by the raw payload
/// bytes.
pub open spec fn signable_bytes(seq: u64, v: Seq<u8>) -> Seq<u8> {
    signable_head() + dec_digits(seq as nat) + signable_mid() + dec_digits(v.len()) + seq![58u8]
        + v
}

/// Builds the canonical signable string for `(seq, v)`.
pub fn signable(seq: &u64, v: &[u8]) -> (r: Vec<u8>)
    ensures
        r@ == signable_bytes(*seq, v@),
{
    let mut out: Vec<u8> = Vec::new();
    out.push(51);
    out.push(58);
    out.push(115);
    out.push(101);
    out.push(113);
    out.push(105);
    let seq_digits = u64_to_decimal(*seq);
    push_all(&mut out, seq_digits.as_slice());
    out.push(101);
    out.push(49);
    out.push(58);
    out.push(118);
    let len_digits = u64_to_decimal(v.len() as u64);
    push_all(&mut out, len_digits.as_slice());
    out.push(58);
    push_all(&mut out, v);
    proof {
        assert(out@ =~= signable_bytes(*seq, v@));
    }
    out
}

// ---------------------------------------------------------------------------
// The envelope
// ---------------------------------------------------------------------------

/// The mathematical model of an envelope: the claimed key, the sequence
/// number, the record payload and the signature, all as plain values.
#[verifier::ext_equal]
pub struct EnvelopeModel {
    pub k: Seq<u8>,
    pub seq: u64,
    pub v: Seq<u8>,
    pub sig: Seq<u8>,
}

/// A well-formed envelope: the signature is 64 bytes and verifies under the
/// claimed 32-byte public key over the canonical signable encoding of
/// `(seq, v)`.
pub open spec fn envelope_wf(m: EnvelopeModel) -> bool {
    &&& m.k.len() == 32
    &&& m.sig.len() == 64
    &&& ed25519_verifies(m.k, signable_bytes(m.seq, m.v), m.sig)
}

/// The relay wire bytes of an envelope:
/// `signature || sequence (big-endian) || payload`.
pub open spec fn relay_payload_bytes(m: EnvelopeModel) -> Seq<u8> {
    m.sig + be_bytes_of(m.seq) + m.v
}

/// What parsing relay wire bytes under `pk` yields: too few bytes for the
/// signature or the sequence are rejected with the respective error; then
/// the bytes split into signature, sequence and payload, and the signature
/// must verify over the canonical signable encoding rebuilt from the parsed
/// parts.
pub open spec fn parse_relay_spec(pk: Seq<u8>, bytes: Seq<u8>) -> Result<EnvelopeModel, Error> {
    if bytes.len() < 64 {
        Err(Error::PayloadTooShortForSignature(bytes.len() as usize))
    } else if bytes.len() < 72 {
        Err(Error::PayloadTooShortForSequence((bytes.len() - 64) as usize))
    } else {
        let seq = be_u64_of(bytes.subrange(64, 72)) as u64;
        let v = bytes.skip(72);
        let sig = bytes.subrange(0, 64);
        if ed25519_verifies(pk, signable_bytes(seq, v), sig) {
            Ok(EnvelopeModel { k: pk, seq, v, sig })
        } else {
            Err(Error::InvalidSignature)
        }
    }
}

/// Arguments of the BEP44 `put` and `get` operations for mutable items: a
/// signed `(sequence, payload)` pair under a public key.
#[derive(Debug)]
pub struct Bep44Args {
    /// The signer's public key.
    pub k: PublicKey,
    seq: u64,
    v: Vec<u8>,
    sig: Vec<u8>,
}

impl View for Bep44Args {
    type V = EnvelopeModel;

    closed spec fn view(&self) -> EnvelopeModel {
        EnvelopeModel { k: self.k@, seq: self.seq, v: self.v@, sig: self.sig@ }
    }
}

impl Bep44Args {
    /// A well-formed value models a well-formed envelope.
    pub open spec fn wf(&self) -> bool {
        envelope_wf(self@)
    }

    /// An owned copy of this envelope.
    pub fn clone_args(&self) -> (r: Bep44Args)
        ensures
            r@ == self@,
    {
        Bep44Args {
            k: self.k.clone_key(),
            seq: self.seq,
            v: crate::byteseq::copy_bytes(&self.v),
            sig: crate::byteseq::copy_bytes(&self.sig),
        }
    }

    /// The signer's public key.
    pub fn public_key(&self) -> (r: &PublicKey)
        ensures
            r@ == self@.k,
    {
        &self.k
    }

    /// The sequence number.
    pub fn seq(&self) -> (r: u64)
        ensures
            r == self@.seq,
    {
        self.seq
    }

    /// The record payload bytes.
    pub fn v(&self) -> (r: &Vec<u8>)
        ensures
            r@ == self@.v,
    {
        &self.v
    }

    /// The signature bytes.
    pub fn sig(&self) -> (r: &Vec<u8>)
        ensures
            r@ == self@.sig,
    {
        &self.sig
    }

    /// Parses a relay response body fetched for `public_key`, exactly as
    /// [`parse_relay_spec`] describes.
    pub fn try_from_relay_response(public_key: &PublicKey, bytes: &[u8]) -> (r: Result<
        Bep44Args,
        Error,
    >)
        requires
            public_key.wf(),
        ensures
            (r is Ok) == (parse_relay_spec(public_key@, bytes@) is Ok),
            r matches Ok(args) ==> args@ == parse_relay_spec(public_key@, bytes@).unwrap()
                && args.wf(),
            r matches Err(e) ==> parse_relay_spec(public_key@, bytes@) == Err::<
                EnvelopeModel,
                Error,
            >(e),
    {
        let n = bytes.len();
        if n < 64 {
            return Err(Error::PayloadTooShortForSignature(n));
        }
        if n < 72 {
            return Err(Error::PayloadTooShortForSequence(n - 64));
        }
        let seq = be_u64_read(bytes, 64);
        let mut sig: Vec<u8> = Vec::new();
        let mut i: usize = 0;
        while i < 64
            invariant
                i <= 64,
                64 <= bytes@.len(),
                sig@ == bytes@.subrange(0, i as int),
            decreases 64 - i,
        {
            sig.push(bytes[i]);
            i = i + 1;
            proof {
                assert(sig@ =~= bytes@.subrange(0, i as int));
            }
        }
        let mut v: Vec<u8> = Vec::new();
        let mut j: usize = 72;
        while j < n
            invariant
                72 <= j <= n,
                n == bytes@.len(),
                v@ == bytes@.subrange(72, j as int),
            decreases n - j,
        {
            v.push(bytes[j]);
            j = j + 1;
            proof {
                assert(v@ =~= bytes@.subrange(72, j as int));
            }
        }
        proof {
            assert(v@ =~= bytes@.skip(72));
            assert(bytes@.subrange(64int, 64int + 8) =~= bytes@.subrange(64, 72));
        }
        let signable_string = signable(&seq, v.as_slice());
        match public_key.verify(signable_string.as_slice(), sig.as_slice()) {
            Ok(()) => {
                let args = Bep44Args { k: public_key.clone_key(), seq, v, sig };
                Ok(args)
            },
            Err(_) => Err(Error::InvalidSignature),
        }
    }

    /// Signs `(seq, v)` with `keypair` and wraps the parts as an envelope.
    /// Publishers that prefer a strictly increasing local counter over the
    /// wall clock pick `seq` themselves here.
    pub fn build_with_sequence(keypair: &Keypair, seq: u64, v: Vec<u8>) -> (r: Bep44Args)
        requires
            keypair.wf(),
        ensures
            r@.k == keypair.pk(),
            r@.seq == seq,
            r@.v == v@,
            r.wf(),
    {
        let signable_string = signable(&seq, v.as_slice());
        let sig = keypair.sign(signable_string.as_slice());
        Bep44Args { k: keypair.public_key(), seq, v, sig }
    }

    /// Signs `v` with `keypair`, using the current wall-clock time in
    /// microseconds since the epoch as the sequence number.
    pub fn build_from_signing(keypair: &Keypair, v: Vec<u8>) -> (r: Bep44Args)
        requires
            keypair.wf(),
        ensures
            r@.k == keypair.pk(),
            r@.v == v@,
            r.wf(),
    {
        let seq = system_time_now();
        Self::build_with_sequence(keypair, seq, v)
    }

    /// Encodes the DNS record set of `packet` and signs it with `keypair`,
    /// using the current wall-clock time in microseconds as the sequence
    /// number. Succeeds exactly when the record set encodes, with the
    /// encoding as the payload.
    pub fn try_from_packet(keypair: &Keypair, packet: &simple_dns::Packet) -> (r: Result<
        Bep44Args,
        Error,
    >)
        requires
            keypair.wf(),
        ensures
            (r is Ok) == (packet_encoding(*packet) is Some),
            r matches Ok(args) ==> args@.k == keypair.pk() && args@.v == packet_encoding(
                *packet,
            ).unwrap() && args.wf(),
            r is Err ==> r == Err::<Bep44Args, Error>(Error::RecordsEncodingFailed),
    {
        match build_packet_bytes(packet) {
            Ok(v) => Ok(Self::build_from_signing(keypair, v)),
            Err(_) => Err(Error::RecordsEncodingFailed),
        }
    }

    /// Serializes the envelope to its relay wire bytes, the inverse of
    /// [`Bep44Args::try_from_relay_response`].
    pub fn relay_payload(&self) -> (r: Vec<u8>)
        ensures
            r@ == relay_payload_bytes(self@),
    {
        let mut out: Vec<u8> = Vec::new();
        push_all(&mut out, self.sig.as_slice());
        be_u64_write(self.seq, &mut out);
        push_all(&mut out, self.v.as_slice());
        proof {
            assert(out@ =~= relay_payload_bytes(self@));
        }
        out
    }
}

// ---------------------------------------------------------------------------
// Laws
// ---------------------------------------------------------------------------

/// Parsing any byte string shorter than a signature fails with
/// `PayloadTooShortForSignature` carrying the total length.
pub proof fn lemma_parse_rejects_short_signature(pk: Seq<u8>, bytes: Seq<u8>)
    requires
        bytes.len() < 64,
    ensures
        parse_relay_spec(pk, bytes) == Err::<EnvelopeModel, Error>(
            Error::PayloadTooShortForSignature(bytes.len() as usize),
        ),
{
}

/// Parsing any byte string long enough for a signature but too short for a
/// sequence number fails with `PayloadTooShortForSequence` carrying the
/// length left after the signature.
pub proof fn lemma_parse_rejects_short_sequence(pk: Seq<u8>, bytes: Seq<u8>)
    requires
        64 <= bytes.len() < 72,
    ensures
        parse_relay_spec(pk, bytes) == Err::<EnvelopeModel, Error>(
            Error::PayloadTooShortForSequence((bytes.len() - 64) as usize),
        ),
{
}

/// Round trip: the relay wire bytes of any well-formed envelope parse back,
/// under the same public key, to exactly that envelope — the sequence
/// number and payload come through unchanged.
pub proof fn lemma_build_then_parse(m: EnvelopeModel)
    requires
        envelope_wf(m),
    ensures
        parse_relay_spec(m.k, relay_payload_bytes(m)) == Ok::<EnvelopeModel, Error>(m),
{
    let w = relay_payload_bytes(m);
    assert(w.len() == 72 + m.v.len());
    assert(w.subrange(0, 64) =~= m.sig);
    assert(w.subrange(64, 72) =~= be_bytes_of(m.seq));
    assert(w.skip(72) =~= m.v);
    lemma_be_round_trip(m.seq);
    assert(parse_relay_spec(m.k, w).unwrap() =~= m);
}

// ---------------------------------------------------------------------------
// The DNS record codec
// ---------------------------------------------------------------------------

#[verifier::external_type_specification]
#[verifier::external_body]
pub struct ExPacket<'a>(simple_dns::Packet<'a>);

#[verifier::external_type_specification]
#[verifier::external_body]
pub struct ExSimpleDnsError(simple_dns::SimpleDnsError);

/// The compressed DNS wire bytes that a record set encodes to, `None`
/// where encoding fails. A pure function of the packet: the encoder's name
/// compression walks a `BTreeMap`, so the bytes are deterministic in the
/// packet alone.
pub uninterp spec fn packet_encoding(p: simple_dns::Packet) -> Option<Seq<u8>>;

/// Relies on `simple_dns::Packet::build_bytes_vec_compressed`: encodes the
/// record set to compressed DNS wire bytes, deterministically in the
/// packet; its outcome is named `packet_encoding`.
#[verifier::external_body]
fn build_packet_bytes(packet: &simple_dns::Packet) -> (r: Result<Vec<u8>, simple_dns::SimpleDnsError>)
    ensures
        (r is Ok) == (packet_encoding(*packet) is Some),
        r matches Ok(v) ==> packet_encoding(*packet) == Some(v@),
{
    packet.build_bytes_vec_compressed()
}

// ---------------------------------------------------------------------------
// Wall-clock sequence numbers
// ---------------------------------------------------------------------------

/// Relies on `std::time::SystemTime::now` and
/// `SystemTime::duration_since(UNIX_EPOCH)`: the current wall-clock time in
/// microseconds since the Unix epoch. Nothing can be promised of a clock
/// reading.
#[verifier::external_body]
pub fn system_time_now() -> u64 {
    std::time::SystemTime::now()
        .duration_since(std::time::SystemTime::UNIX_EPOCH)
        .expect("time drift")
        .as_micros() as u64
}

} // verus!

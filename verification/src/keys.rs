//! Ed25519 identities: public keys and key pairs.
//!
//! A [`PublicKey`] is held as its 32 raw bytes; a [`Keypair`] owns the
//! Ed25519 secret material. The outcome of strict signature verification is
//! a pure function of the key bytes, message and signature bytes, named by
//! [`ed25519_verifies`]; signing is promised to produce a signature that
//! verifies under the pair's own public key, which is all the rest of the
//! library needs.

use vstd::prelude::*;

use ed25519_dalek::Signer;

use crate::byteseq::copy_bytes;
use crate::errors::Error;

verus! {

/// Whether `sig` is a 64-byte string that `ed25519_dalek`'s strict
/// verification accepts as a signature over `msg` by the verification key
/// whose 32 raw bytes are `pk` (false as well when `pk` does not decode to
/// a valid curve point).
pub uninterp spec fn ed25519_verifies(pk: Seq<u8>, msg: Seq<u8>, sig: Seq<u8>) -> bool;

/// Relies on `ed25519_dalek::VerifyingKey::verify_strict`: verification is
/// deterministic in the raw key bytes (decoded with
/// `VerifyingKey::try_from`), the message, and the signature bytes (decoded
/// with `Signature::from_slice`); its outcome is named `ed25519_verifies`.
#[verifier::external_body]
fn ed25519_verify_raw(pk: &[u8], msg: &[u8], sig: &[u8]) -> (r: bool)
    requires
        pk@.len() == 32,
        sig@.len() == 64,
    ensures
        r == ed25519_verifies(pk@, msg@, sig@),
{
    let Ok(key) = ed25519_dalek::VerifyingKey::try_from(pk) else {
        return false;
    };
    let Ok(s) = ed25519_dalek::Signature::from_slice(sig) else {
        return false;
    };
    key.verify_strict(msg, &s).is_ok()
}

/// An Ed25519 verification key, held as its 32 raw bytes. It is both the
/// signer's identity and the DHT lookup target.
#[derive(Debug)]
pub struct PublicKey {
    bytes: Vec<u8>,
}

impl View for PublicKey {
    type V = Seq<u8>;

    closed spec fn view(&self) -> Seq<u8> {
        self.bytes@
    }
}

impl PublicKey {
    /// A well-formed key holds exactly 32 bytes.
    pub open spec fn wf(&self) -> bool {
        self@.len() == 32
    }

    /// Wraps 32 raw bytes as a public key; `None` on any other length.
    pub fn from_bytes(bytes: &[u8]) -> (r: Option<PublicKey>)
        ensures
            r is Some <==> bytes@.len() == 32,
            r is Some ==> r.unwrap()@ == bytes@ && r.unwrap().wf(),
    {
        if bytes.len() == 32 {
            let mut owned: Vec<u8> = Vec::new();
            crate::byteseq::push_all(&mut owned, bytes);
            Some(PublicKey { bytes: owned })
        } else {
            None
        }
    }

    /// The raw key bytes.
    pub fn as_bytes(&self) -> (r: &Vec<u8>)
        ensures
            r@ == self@,
    {
        &self.bytes
    }

    /// An owned copy of the raw key bytes.
    pub fn to_vec(&self) -> (r: Vec<u8>)
        ensures
            r@ == self@,
    {
        copy_bytes(&self.bytes)
    }

    /// An owned copy of this key.
    pub fn clone_key(&self) -> (r: PublicKey)
        ensures
            r@ == self@,
    {
        PublicKey { bytes: copy_bytes(&self.bytes) }
    }

    /// Verifies `sig` over `msg` under this key.
    pub fn verify(&self, msg: &[u8], sig: &[u8]) -> (r: Result<(), Error>)
        requires
            self.wf(),
        ensures
            r is Ok <==> (sig@.len() == 64 && ed25519_verifies(self@, msg@, sig@)),
            r is Err ==> r == Err::<(), Error>(Error::InvalidSignature),
    {
        if sig.len() != 64 {
            return Err(Error::InvalidSignature);
        }
        if ed25519_verify_raw(self.bytes.as_slice(), msg, sig) {
            Ok(())
        } else {
            Err(Error::InvalidSignature)
        }
    }
}

#[verifier::external_type_specification]
#[verifier::external_body]
pub struct ExSigningKey(ed25519_dalek::SigningKey);

/// An Ed25519 key pair: the secret signing key together with the 32 raw
/// bytes of the verification key it determines.
pub struct Keypair {
    signing: ed25519_dalek::SigningKey,
    public: Vec<u8>,
}

impl Keypair {
    /// The raw bytes of the pair's verification key.
    pub closed spec fn pk(&self) -> Seq<u8> {
        self.public@
    }

    /// A well-formed pair carries 32 public-key bytes.
    pub open spec fn wf(&self) -> bool {
        self.pk().len() == 32
    }

    /// Draws a fresh random key pair.
    pub fn random() -> (r: Keypair)
        ensures
            r.wf(),
    {
        let seed = random_seed();
        keypair_from_seed(&seed)
    }

    /// The pair's public key.
    pub fn public_key(&self) -> (r: PublicKey)
        requires
            self.wf(),
        ensures
            r@ == self.pk(),
            r.wf(),
    {
        PublicKey { bytes: copy_bytes(&self.public) }
    }

    /// Signs `msg` with the pair's secret key.
    pub fn sign(&self, msg: &[u8]) -> (sig: Vec<u8>)
        requires
            self.wf(),
        ensures
            sig@.len() == 64,
            ed25519_verifies(self.pk(), msg@, sig@),
    {
        sign_with(self, msg)
    }
}

/// Relies on `rand::random`: a fresh 32-byte seed from the thread-local
/// cryptographically secure generator. Nothing can be promised of a random
/// value.
#[verifier::external_body]
fn random_seed() -> (r: [u8; 32]) {
    rand::random()
}

/// Relies on `ed25519_dalek::SigningKey::from_bytes` (infallible for any
/// 32-byte seed) and `SigningKey::verifying_key`: builds the pair and
/// records the 32 raw bytes of the derived verification key, so that the
/// `public` field always matches the `signing` field. Every `Keypair`
/// constructor goes through here, which is what justifies the contract of
/// `sign_with`.
#[verifier::external_body]
fn keypair_from_seed(seed: &[u8; 32]) -> (r: Keypair)
    ensures
        r.wf(),
{
    let signing = ed25519_dalek::SigningKey::from_bytes(seed);
    let public = signing.verifying_key().to_bytes().to_vec();
    Keypair { signing, public }
}

/// Relies on `ed25519_dalek::SigningKey::sign` (through the `Signer`
/// trait): signing always yields a 64-byte signature that `verify_strict`
/// accepts over the same message under the pair's own verification key,
/// whose bytes `keypair_from_seed` stored in `kp.public`.
#[verifier::external_body]
fn sign_with(kp: &Keypair, msg: &[u8]) -> (sig: Vec<u8>)
    ensures
        sig@.len() == 64,
        ed25519_verifies(kp.pk(), msg@, sig@),
{
    kp.signing.sign(msg).to_bytes().to_vec()
}

} // verus!

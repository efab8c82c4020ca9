//! Error taxonomy for envelope parsing, verification and packet building.

use vstd::prelude::*;

verus! {

/// Everything that can go wrong while parsing or building an envelope.
///
/// The two `PayloadTooShort` variants carry the length that was actually
/// available for the missing part, mirroring what a relay client needs in
/// order to diagnose a truncated body.
#[derive(Clone, Copy, Debug, PartialEq, Eq, Structural)]
pub enum Error {
    /// The relay payload holds fewer than the 64 bytes of a signature;
    /// carries the payload's total length.
    PayloadTooShortForSignature(usize),
    /// The relay payload holds a signature but fewer than the 8 bytes of a
    /// sequence number; carries the length remaining after the signature.
    PayloadTooShortForSequence(usize),
    /// The signature does not verify under the claimed public key.
    InvalidSignature,
    /// The DNS record set could not be encoded to wire bytes.
    RecordsEncodingFailed,
}

impl Error {
    /// A short human-readable description.
    pub fn message(&self) -> (r: &'static str)
        ensures r@.len() > 0,
    {
        match self {
            Error::PayloadTooShortForSignature(_) => {
                proof {
                    reveal_strlit("relay payload too short for a signature");
                }
                "relay payload too short for a signature"
            },
            Error::PayloadTooShortForSequence(_) => {
                proof {
                    reveal_strlit("relay payload too short for a sequence number");
                }
                "relay payload too short for a sequence number"
            },
            Error::InvalidSignature => {
                proof {
                    reveal_strlit("invalid signature");
                }
                "invalid signature"
            },
            Error::RecordsEncodingFailed => {
                proof {
                    reveal_strlit("failed to encode the DNS record set");
                }
                "failed to encode the DNS record set"
            },
        }
    }
}

} // verus!

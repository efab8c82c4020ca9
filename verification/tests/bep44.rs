use pkarr::bep44::{signable, system_time_now, u64_to_decimal, Bep44Args};
use pkarr::errors::Error;
use pkarr::keys::{Keypair, PublicKey};

use simple_dns::rdata::{RData, A};
use simple_dns::{Name, Packet, ResourceRecord, CLASS};

fn sample_packet() -> Packet<'static> {
    let mut packet = Packet::new_reply(0);
    packet.answers.push(ResourceRecord::new(
        Name::new("_derp_region.iroh.").unwrap(),
        CLASS::IN,
        30,
        RData::A(A { address: 0x01010101 }),
    ));
    packet
}

#[test]
fn from_relay_payload() {
    let keypair = Keypair::random();

    let invalid_sig_len: &[u8] = b"";

    assert!(Bep44Args::try_from_relay_response(&keypair.public_key(), invalid_sig_len).is_err());
}

#[test]
fn try_from_packet() {
    let keypair = Keypair::random();

    let packet = sample_packet();

    let args = Bep44Args::try_from_packet(&keypair, &packet).unwrap();
    assert_eq!(args.public_key().as_bytes(), keypair.public_key().as_bytes());
}

#[test]
fn sign_verify() {
    let keypair = Keypair::random();

    let packet = sample_packet();

    let args = Bep44Args::try_from_packet(&keypair, &packet).unwrap();
    let payload = args.relay_payload();

    assert!(Bep44Args::try_from_relay_response(args.public_key(), &payload).is_ok());
}

#[test]
fn short_payload_rejected_for_signature() {
    let keypair = Keypair::random();
    for len in [0usize, 1, 10, 63] {
        let bytes = vec![7u8; len];
        let r = Bep44Args::try_from_relay_response(&keypair.public_key(), &bytes);
        assert_eq!(r.unwrap_err(), Error::PayloadTooShortForSignature(len));
    }
}

#[test]
fn short_payload_rejected_for_sequence() {
    let keypair = Keypair::random();
    for len in [64usize, 65, 70, 71] {
        let bytes = vec![7u8; len];
        let r = Bep44Args::try_from_relay_response(&keypair.public_key(), &bytes);
        assert_eq!(r.unwrap_err(), Error::PayloadTooShortForSequence(len - 64));
    }
}

#[test]
fn garbage_signature_rejected() {
    let keypair = Keypair::random();
    let bytes = vec![0u8; 80];
    let r = Bep44Args::try_from_relay_response(&keypair.public_key(), &bytes);
    assert_eq!(r.unwrap_err(), Error::InvalidSignature);
}

#[test]
fn round_trip_preserves_sequence_and_payload() {
    let keypair = Keypair::random();
    let args = Bep44Args::build_with_sequence(&keypair, 12345678, b"hello world".to_vec());
    let wire = args.relay_payload();

    let parsed = Bep44Args::try_from_relay_response(&keypair.public_key(), &wire).unwrap();
    assert_eq!(parsed.seq(), 12345678);
    assert_eq!(parsed.v().as_slice(), b"hello world");
    assert_eq!(parsed.sig(), args.sig());
}

#[test]
fn round_trip_with_empty_payload() {
    let keypair = Keypair::random();
    let args = Bep44Args::build_with_sequence(&keypair, 0, Vec::new());
    let wire = args.relay_payload();
    assert_eq!(wire.len(), 72);

    let parsed = Bep44Args::try_from_relay_response(&keypair.public_key(), &wire).unwrap();
    assert_eq!(parsed.seq(), 0);
    assert!(parsed.v().is_empty());
}

#[test]
fn parse_with_other_public_key_fails() {
    let keypair = Keypair::random();
    let other = Keypair::random();
    let args = Bep44Args::build_with_sequence(&keypair, 42, b"payload".to_vec());
    let wire = args.relay_payload();

    let r = Bep44Args::try_from_relay_response(&other.public_key(), &wire);
    assert_eq!(r.unwrap_err(), Error::InvalidSignature);
}

#[test]
fn signable_exact_bytes() {
    assert_eq!(signable(&30, b"abc"), b"3:seqi30e1:v3:abc".to_vec());
    assert_eq!(signable(&0, b""), b"3:seqi0e1:v0:".to_vec());
    assert_eq!(
        signable(&18446744073709551615, b"xy"),
        b"3:seqi18446744073709551615e1:v2:xy".to_vec()
    );
}

#[test]
fn decimal_digits_exact() {
    assert_eq!(u64_to_decimal(0), b"0".to_vec());
    assert_eq!(u64_to_decimal(9), b"9".to_vec());
    assert_eq!(u64_to_decimal(1234567890), b"1234567890".to_vec());
}

#[test]
fn relay_payload_layout() {
    let keypair = Keypair::random();
    let args = Bep44Args::build_with_sequence(&keypair, 0x0102030405060708, vec![0xAA, 0xBB]);
    let wire = args.relay_payload();

    assert_eq!(wire.len(), 64 + 8 + 2);
    assert_eq!(&wire[..64], args.sig().as_slice());
    assert_eq!(&wire[64..72], &[1, 2, 3, 4, 5, 6, 7, 8]);
    assert_eq!(&wire[72..], &[0xAA, 0xBB]);
}

#[test]
fn build_from_signing_uses_wall_clock() {
    let keypair = Keypair::random();
    let before = system_time_now();
    let args = Bep44Args::build_from_signing(&keypair, b"data".to_vec());
    let after = system_time_now();
    assert!(args.seq() >= before);
    assert!(args.seq() <= after);
}

#[test]
fn sign_and_verify_directly() {
    let keypair = Keypair::random();
    let pk = keypair.public_key();
    let sig = keypair.sign(b"message");
    assert!(pk.verify(b"message", &sig).is_ok());
    assert_eq!(pk.verify(b"other message", &sig), Err(Error::InvalidSignature));
}

#[test]
fn public_key_from_bytes_checks_length() {
    let keypair = Keypair::random();
    let bytes = keypair.public_key().to_vec();
    assert!(PublicKey::from_bytes(&bytes).is_some());
    assert!(PublicKey::from_bytes(&bytes[..31]).is_none());
    assert!(PublicKey::from_bytes(b"").is_none());
}

#[test]
fn error_messages_are_nonempty() {
    assert!(!Error::PayloadTooShortForSignature(3).message().is_empty());
    assert!(!Error::PayloadTooShortForSequence(3).message().is_empty());
    assert!(!Error::InvalidSignature.message().is_empty());
    assert!(!Error::RecordsEncodingFailed.message().is_empty());
}

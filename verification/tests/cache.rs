use pkarr::cache::Cache;
use pkarr::keys::Keypair;
use pkarr::signed_packet::{effective_ttl_of, min_u32_vec, SignedPacket};

use simple_dns::rdata::{RData, A};
use simple_dns::{Name, Packet, ResourceRecord, CLASS};

fn record_payload(ttl: u32) -> Vec<u8> {
    let mut packet = Packet::new_reply(0);
    packet.answers.push(ResourceRecord::new(
        Name::new("_derp_region.iroh.").unwrap(),
        CLASS::IN,
        ttl,
        RData::A(A { address: 0x01010101 }),
    ));
    packet.build_bytes_vec_compressed().unwrap()
}

#[test]
fn monotonic_write_guard() {
    let keypair = Keypair::random();
    let pk = keypair.public_key();
    let mut cache = Cache::new(16);

    let p100 = SignedPacket::new_with_sequence(&keypair, 100, b"first".to_vec());
    cache.put(p100, 1000);
    assert_eq!(cache.get(&pk).unwrap().packet().seq(), 100);

    // An equal sequence is a duplicate: no replacement.
    let p100b = SignedPacket::new_with_sequence(&keypair, 100, b"dup".to_vec());
    cache.put(p100b, 1001);
    assert_eq!(cache.get(&pk).unwrap().packet().v().as_slice(), b"first");

    // A smaller sequence is stale: dropped silently.
    let p99 = SignedPacket::new_with_sequence(&keypair, 99, b"stale".to_vec());
    cache.put(p99, 1002);
    assert_eq!(cache.get(&pk).unwrap().packet().seq(), 100);
    assert_eq!(cache.get(&pk).unwrap().packet().v().as_slice(), b"first");

    // A strictly greater sequence replaces the entry wholesale.
    let p150 = SignedPacket::new_with_sequence(&keypair, 150, b"newer".to_vec());
    cache.put(p150, 1003);
    let entry = cache.get(&pk).unwrap();
    assert_eq!(entry.packet().seq(), 150);
    assert_eq!(entry.packet().v().as_slice(), b"newer");
    assert_eq!(entry.stored_at(), 1003);
}

#[test]
fn ttl_clamp() {
    // A record TTL of 5 is raised to the minimum of 30.
    assert_eq!(effective_ttl_of(&record_payload(5), 30, 86400), 30);
    // A record TTL of 999999 is lowered to the maximum of 86400.
    assert_eq!(effective_ttl_of(&record_payload(999999), 30, 86400), 86400);
    // A TTL inside the bounds passes through.
    assert_eq!(effective_ttl_of(&record_payload(300), 30, 86400), 300);
    // An undecodable payload counts as TTL 0, raised to the minimum.
    assert_eq!(effective_ttl_of(b"not a dns packet", 30, 86400), 30);
}

#[test]
fn expiry_from_stored_entry() {
    let keypair = Keypair::random();
    let pk = keypair.public_key();
    let mut cache = Cache::new(4);

    let packet = SignedPacket::new_with_sequence(&keypair, 1, record_payload(5));
    cache.put(packet, 1000);
    let entry = cache.get(&pk).unwrap();

    // Effective TTL 30: fresh right after storing.
    assert_eq!(entry.expires_in(1000, 30, 86400), 30);
    assert_eq!(entry.expires_in(1029, 30, 86400), 1);
    // Stored 31 seconds ago with effective TTL 30: expired.
    assert_eq!(entry.expires_in(1031, 30, 86400), 0);
}

#[test]
fn min_record_ttl_of_payload() {
    assert_eq!(min_u32_vec(&vec![]), 0);
    assert_eq!(min_u32_vec(&vec![7]), 7);
    assert_eq!(min_u32_vec(&vec![30, 5, 600]), 5);
}

#[test]
fn full_cache_evicts_oldest() {
    let kp1 = Keypair::random();
    let kp2 = Keypair::random();
    let kp3 = Keypair::random();
    let mut cache = Cache::new(2);

    cache.put(SignedPacket::new_with_sequence(&kp1, 1, b"one".to_vec()), 10);
    cache.put(SignedPacket::new_with_sequence(&kp2, 1, b"two".to_vec()), 20);
    cache.put(SignedPacket::new_with_sequence(&kp3, 1, b"three".to_vec()), 30);

    // The entry stored the longest ago made room for the new key.
    assert!(cache.get(&kp1.public_key()).is_none());
    assert!(cache.get(&kp2.public_key()).is_some());
    assert!(cache.get(&kp3.public_key()).is_some());
}

#[test]
fn get_unseen_key_is_none() {
    let keypair = Keypair::random();
    let cache = Cache::new(4);
    assert!(cache.get(&keypair.public_key()).is_none());
}

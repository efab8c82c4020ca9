use pkarr::bep44::Bep44Args;
use pkarr::cache::Cache;
use pkarr::dht_server::{DhtServer, InboundRequest};
use pkarr::keys::Keypair;
use pkarr::rate_limiting::IpRateLimiter;

use simple_dns::rdata::{RData, A};
use simple_dns::{Name, Packet, ResourceRecord, CLASS};

fn record_payload(ttl: u32) -> Vec<u8> {
    let mut packet = Packet::new_reply(0);
    packet.answers.push(ResourceRecord::new(
        Name::new("_derp_region.iroh.").unwrap(),
        CLASS::IN,
        ttl,
        RData::A(A { address: 0x01010101 }),
    ));
    packet.build_bytes_vec_compressed().unwrap()
}

fn server() -> DhtServer {
    DhtServer::new(Cache::new(16), None, 30, 86400, IpRateLimiter::new(60, 3))
}

#[test]
fn rate_limiter_threshold_and_isolation() {
    let mut limiter = IpRateLimiter::new(60, 3);
    let ip_a: u128 = 0x0a000001;
    let ip_b: u128 = 0x0a000002;

    // The first 3 refresh-triggering requests from one IP are admitted.
    assert!(!limiter.is_limited(ip_a, 100));
    assert!(!limiter.is_limited(ip_a, 110));
    assert!(!limiter.is_limited(ip_a, 120));
    // The 4th within the window is limited.
    assert!(limiter.is_limited(ip_a, 130));
    // A distinct IP in the same window is unaffected.
    assert!(!limiter.is_limited(ip_b, 130));
    // Once the window has passed, the counter starts afresh.
    assert!(!limiter.is_limited(ip_a, 161));
}

#[test]
fn rate_limiter_sweep_reclaims_idle_entries() {
    let mut limiter = IpRateLimiter::new(60, 1);
    let ip: u128 = 9;
    assert!(!limiter.is_limited(ip, 100));
    assert!(limiter.is_limited(ip, 101));
    limiter.sweep(200);
    // The idle slot is gone: the next call opens a fresh window.
    assert!(!limiter.is_limited(ip, 200));
}

#[test]
fn lookup_hit_serves_from_cache() {
    let mut server = server();
    let keypair = Keypair::random();
    let target = keypair.public_key();

    server.publish_record(&keypair, 100, record_payload(300), 1000);

    let out = server.handle_request(1, 1000, &InboundRequest::GetValue { target });
    let resp = out.response.expect("cache hit must answer");
    assert_eq!(resp.seq, 100);
    assert_eq!(resp.k, keypair.public_key().to_vec());
    assert_eq!(resp.token, vec![0, 0, 0, 0]);
    assert!(out.delegate);
    // Fresh entry: no refresh.
    assert!(out.refresh.is_none());
}

#[test]
fn publish_scenario_monotonic() {
    let mut server = server();
    let keypair = Keypair::random();

    server.publish_record(&keypair, 100, b"v100".to_vec(), 1000);
    let out = server.handle_request(1, 1000, &InboundRequest::GetValue {
        target: keypair.public_key(),
    });
    assert_eq!(out.response.unwrap().seq, 100);

    // A second publish with a smaller sequence is dropped.
    server.publish_record(&keypair, 99, b"v99".to_vec(), 1001);
    let out = server.handle_request(1, 1001, &InboundRequest::GetValue {
        target: keypair.public_key(),
    });
    let resp = out.response.unwrap();
    assert_eq!(resp.seq, 100);
    assert_eq!(resp.v, b"v100".to_vec());

    // A third publish with a greater sequence replaces the entry.
    server.publish_record(&keypair, 150, b"v150".to_vec(), 1002);
    let out = server.handle_request(1, 1002, &InboundRequest::GetValue {
        target: keypair.public_key(),
    });
    let resp = out.response.unwrap();
    assert_eq!(resp.seq, 150);
    assert_eq!(resp.v, b"v150".to_vec());
}

#[test]
fn miss_triggers_one_refresh_then_serves() {
    let mut server = server();
    let publisher = Keypair::random();
    let target = publisher.public_key();

    // A lookup for an unseen key: no cached answer, exactly one outbound
    // lookup is requested.
    let out = server.handle_request(7, 1000, &InboundRequest::GetValue {
        target: publisher.public_key(),
    });
    assert!(out.response.is_none());
    assert_eq!(out.refresh.as_ref().map(|t| t.to_vec()), Some(target.to_vec()));

    // The network lookup completes: its relay bytes feed the cache.
    let args = Bep44Args::build_with_sequence(&publisher, 5, record_payload(300));
    let wire = args.relay_payload();
    server.on_lookup_result(&target, &wire, 1001).unwrap();

    // A repeated lookup now answers from cache, unexpired: no refresh.
    let out = server.handle_request(7, 1002, &InboundRequest::GetValue {
        target: publisher.public_key(),
    });
    let resp = out.response.expect("hydrated cache must answer");
    assert_eq!(resp.seq, 5);
    assert!(out.refresh.is_none());
}

#[test]
fn corrupted_lookup_result_never_cached() {
    let mut server = server();
    let publisher = Keypair::random();
    let target = publisher.public_key();

    let mut wire = Bep44Args::build_with_sequence(&publisher, 5, b"data".to_vec()).relay_payload();
    wire[0] ^= 0xFF;
    assert!(server.on_lookup_result(&target, &wire, 1000).is_err());

    let out = server.handle_request(7, 1001, &InboundRequest::GetValue {
        target: publisher.public_key(),
    });
    assert!(out.response.is_none());
}

#[test]
fn expired_miss_refresh_is_rate_limited() {
    let mut server = DhtServer::new(Cache::new(16), None, 30, 86400, IpRateLimiter::new(60, 2));
    let keypair = Keypair::random();
    let ip: u128 = 42;

    // Repeated lookups for a missing key from one source: the first two
    // trigger a refresh, the third is silently dropped.
    for expect_refresh in [true, true, false] {
        let out = server.handle_request(ip, 500, &InboundRequest::GetValue {
            target: keypair.public_key(),
        });
        assert!(out.response.is_none());
        assert_eq!(out.refresh.is_some(), expect_refresh);
    }
    // Another source is unaffected.
    let out = server.handle_request(43, 500, &InboundRequest::GetValue {
        target: keypair.public_key(),
    });
    assert!(out.refresh.is_some());
}

#[test]
fn other_requests_are_delegated_untouched() {
    let mut server = server();
    let out = server.handle_request(1, 1000, &InboundRequest::Other);
    assert!(out.response.is_none());
    assert!(out.refresh.is_none());
    assert!(out.delegate);
}

#[test]
fn stale_entry_served_while_refreshing() {
    let mut server = server();
    let keypair = Keypair::random();

    server.publish_record(&keypair, 10, record_payload(5), 1000);

    // 31 seconds later the entry (effective TTL 30) is expired: it is
    // still served, and a refresh is requested alongside.
    let out = server.handle_request(1, 1031, &InboundRequest::GetValue {
        target: keypair.public_key(),
    });
    let resp = out.response.expect("stale entries are still served");
    assert_eq!(resp.seq, 10);
    assert!(out.refresh.is_some());
}

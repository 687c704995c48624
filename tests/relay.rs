use moq_radio::relay::{
    join, stereo_payload, timestamp_from_reading, wall_clock_ms, ClientFeed, ClientRegistry, EnvelopeKind, SyncEnvelope,
    BUFFER_TARGET_MS,
};

fn envelopes_for(k: u64) -> u64 {
    let (mut feed, first) = ClientFeed::open(7);
    assert_eq!(first.sequence, 0);
    let mut sent = 1;
    for _ in 0..k {
        if feed.record_payload(7).is_some() {
            sent += 1;
        }
    }
    assert_eq!(feed.envelopes, sent);
    sent
}

#[test]
fn envelope_cadence() {
    assert_eq!(envelopes_for(0), 1);
    assert_eq!(envelopes_for(59), 1);
    assert_eq!(envelopes_for(60), 2);
    assert_eq!(envelopes_for(61), 2);
    assert_eq!(envelopes_for(120), 3);
}

#[test]
fn periodic_envelope_fields() {
    let (mut feed, opening) = ClientFeed::open(1_000);
    assert_eq!(
        opening,
        SyncEnvelope {
            timestamp_ms: 1_000,
            sequence: 0,
            buffer_target_ms: BUFFER_TARGET_MS,
            kind: EnvelopeKind::Start
        }
    );
    for _ in 0..59 {
        assert!(feed.record_payload(2_000).is_none());
    }
    let env = feed.record_payload(3_000).unwrap();
    assert_eq!(env.sequence, 60);
    assert_eq!(env.timestamp_ms, 3_000);
    assert_eq!(env.buffer_target_ms, 1000);
    assert_eq!(env.kind, EnvelopeKind::Periodic);
}

#[test]
fn registry_connect_and_disconnect() {
    let mut reg = ClientRegistry::new();
    assert_eq!(reg.count(), 0);
    let env = reg.connect(11, 500).unwrap();
    assert_eq!(env.timestamp_ms, 500);
    assert_eq!(env.kind, EnvelopeKind::Start);
    assert!(reg.connect(11, 600).is_none());
    assert!(reg.connect(12, 600).is_some());
    assert_eq!(reg.count(), 2);
    assert!(reg.contains(11));
    assert!(reg.disconnect(11));
    assert!(!reg.disconnect(11));
    assert!(!reg.contains(11));
    assert_eq!(reg.count(), 1);
    assert_eq!(reg.clients[0].id, 12);
    assert_eq!(reg.clients[0].joined_ms, 600);
}

#[test]
fn failed_send_evicts_only_that_listener() {
    let mut reg = ClientRegistry::new();
    for id in [1u128, 2, 3] {
        reg.connect(id, 0);
    }
    reg.deliver(&vec![true, true, true]);
    reg.deliver(&vec![true, false, true]);
    assert_eq!(reg.count(), 2);
    assert_eq!(reg.clients[0].id, 1);
    assert_eq!(reg.clients[1].id, 3);
    assert_eq!(reg.clients[0].feed.delivered, 2);
    assert_eq!(reg.clients[1].feed.delivered, 2);
    reg.deliver(&vec![false, true]);
    assert_eq!(reg.count(), 1);
    assert_eq!(reg.clients[0].id, 3);
    assert_eq!(reg.clients[0].feed.delivered, 3);
}

#[test]
fn hub_envelope_after_sixty_payloads() {
    let mut reg = ClientRegistry::new();
    reg.connect(5, 0);
    for _ in 0..59 {
        reg.deliver(&vec![true]);
        assert!(reg.envelope_due(0, 9).is_none());
    }
    reg.deliver(&vec![true]);
    let env = reg.envelope_due(0, 9).unwrap();
    assert_eq!(env.sequence, 60);
    assert_eq!(reg.clients[0].feed.envelopes, 2);
}

#[test]
fn empty_hub_discards() {
    let mut reg = ClientRegistry::new();
    reg.deliver(&vec![]);
    assert_eq!(reg.count(), 0);
}

#[test]
fn join_registers_new_listener() {
    let mut reg = ClientRegistry::new();
    let (a, env) = join(&mut reg).unwrap();
    let (b, _) = join(&mut reg).unwrap();
    assert_ne!(a, b);
    assert_eq!(reg.count(), 2);
    assert!(reg.contains(a));
    assert!(env.timestamp_ms > 1_500_000_000_000);
    assert!(wall_clock_ms() >= env.timestamp_ms);
}

#[test]
fn payload_holds_sample_bytes() {
    let pcm: Vec<i16> = vec![0x0102, -2, 300, 4, 5, 6];
    let bytes = stereo_payload(&pcm, 2).unwrap();
    assert_eq!(bytes.len(), 8);
    let mut expected = Vec::new();
    for s in &pcm[..4] {
        expected.extend_from_slice(&s.to_ne_bytes());
    }
    assert_eq!(bytes, expected);
    assert!(stereo_payload(&pcm, 4).is_none());
    assert_eq!(stereo_payload(&pcm, 0).unwrap().len(), 0);
}

#[test]
fn join_on_empty_registry_succeeds() {
    let mut reg = ClientRegistry::new();
    let (id, env) = join(&mut reg).unwrap();
    assert_eq!(reg.clients[0].id, id);
    assert_eq!(reg.clients[0].joined_ms, env.timestamp_ms);
    assert_eq!(env.sequence, 0);
}

#[test]
fn clock_reading_before_epoch_is_zero() {
    assert_eq!(timestamp_from_reading(-1), 0);
    assert_eq!(timestamp_from_reading(i64::MIN), 0);
    assert_eq!(timestamp_from_reading(0), 0);
    assert_eq!(timestamp_from_reading(1_700_000_000_123), 1_700_000_000_123);
}

use std::time::Duration;

use iroh_mainline_address_lookup_blinded::blinding::{blind_public_key, verify, InvalidKey};
use iroh_mainline_address_lookup_blinded::encryption::{open, seal, SealError, PAD_TO};
use iroh_mainline_address_lookup_blinded::endpoint::{EndpointData, SocketAddr, TransportAddr};
use iroh_mainline_address_lookup_blinded::keys::SecretKey;
use iroh_mainline_address_lookup_blinded::publisher::{
    PublishAction, PublishEvent, PublisherKeys, SignedRecord,
};
use iroh_mainline_address_lookup_blinded::resolve::{DhtReply, ResolveError, Resolved};
use iroh_mainline_address_lookup_blinded::signable::encode_signable;
use iroh_mainline_address_lookup_blinded::wire::WireData;
use iroh_mainline_address_lookup_blinded::{
    BlindedLookup, Builder, LookupError, DEFAULT_CONTEXT, PROVENANCE,
};

fn example_data() -> EndpointData {
    EndpointData::new(vec![
        TransportAddr::Relay("https://relay.example.com/".to_string()),
        TransportAddr::Ip(SocketAddr::V4 {
            ip: [127, 0, 0, 1],
            port: 4433,
        }),
    ])
}

fn found(record: SignedRecord) -> DhtReply {
    DhtReply::Found {
        value: record.value,
        seq: record.seq,
    }
}

fn is_wait(action: PublishAction) -> bool {
    matches!(action, PublishAction::Wait)
}

fn is_stop(action: PublishAction) -> bool {
    matches!(action, PublishAction::Stop)
}

#[test]
fn constants_have_known_values() {
    assert_eq!(PROVENANCE, "blinded-mainline");
    assert_eq!(DEFAULT_CONTEXT.as_bytes(), b"iroh-blinded-lookup/v1");
}

#[test]
fn builder_has_defaults() {
    for builder in [BlindedLookup::builder(), Builder::default()] {
        assert_eq!(builder.bootstrap_nodes(), &None);
        assert_eq!(builder.interval(), Duration::from_secs(60 * 60));
        let endpoint_id = SecretKey::from_bytes(&[42u8; 32]).public();
        assert_eq!(
            builder.build().target(&endpoint_id).unwrap(),
            blind_public_key(&endpoint_id, b"iroh-blinded-lookup/v1").unwrap()
        );
    }
}

#[test]
fn builder_overrides_one_thing_at_a_time() {
    let nodes = vec!["127.0.0.1:6881".to_string(), "127.0.0.1:6882".to_string()];
    let builder = BlindedLookup::builder().bootstrap(nodes.clone());
    assert_eq!(builder.bootstrap_nodes(), &Some(nodes.clone()));
    assert_eq!(builder.interval(), Duration::from_secs(3600));

    let builder = builder.republish_interval(Duration::from_millis(1500));
    assert_eq!(builder.bootstrap_nodes(), &Some(nodes.clone()));
    assert_eq!(builder.interval(), Duration::from_millis(1500));

    let builder = builder.context("other");
    let copied = builder.clone();
    let endpoint_id = SecretKey::from_bytes(&[42u8; 32]).public();
    for builder in [builder, copied] {
        assert_eq!(builder.bootstrap_nodes(), &Some(nodes.clone()));
        assert_eq!(builder.interval(), Duration::from_millis(1500));
        assert_eq!(
            builder.build().target(&endpoint_id).unwrap(),
            blind_public_key(&endpoint_id, b"other").unwrap()
        );
    }
}

#[test]
fn published_record_resolves() {
    let secret = SecretKey::from_bytes(&[42u8; 32]);
    let endpoint_id = secret.public();
    let publisher = BlindedLookup::builder().build_with_secret_key(&secret);
    let keys = publisher.publisher().as_ref().unwrap();
    let record = keys.record(&example_data(), 1_700_000_000).unwrap();

    // What a DHT node checks, and what a crawler sees.
    assert!(verify(
        &record.public,
        &encode_signable(record.seq, &record.value),
        &record.signature
    ));
    assert_eq!(record.value.len(), PAD_TO + 24 + 16);
    let needle = b"relay.example.com";
    assert!(!record
        .value
        .windows(needle.len())
        .any(|window| window == needle));

    let resolver = BlindedLookup::builder().build();
    assert!(resolver.publisher().is_none());
    assert_eq!(resolver.target(&endpoint_id), Ok(record.public));
    let resolved = resolver.resolve(&endpoint_id, found(record)).unwrap();
    assert_eq!(resolved.data, example_data());
    assert_eq!(resolved.seq, 1_700_000_000);
    assert_eq!(resolved.last_updated(), Some(1_700_000_000_000_000));
}

#[test]
fn relay_url_is_normalised_when_it_is_read() {
    let secret = SecretKey::from_bytes(&[42u8; 32]);
    let keys = PublisherKeys::new(&secret, DEFAULT_CONTEXT.as_bytes());
    let data = EndpointData::new(vec![TransportAddr::Relay(
        "https://relay.example.com".to_string(),
    )]);
    let record = keys.record(&data, 1).unwrap();
    let resolved = BlindedLookup::builder()
        .build()
        .resolve(&secret.public(), found(record))
        .unwrap();
    assert_eq!(
        resolved.data.addrs(),
        &vec![TransportAddr::Relay(
            "https://relay.example.com/".to_string()
        )]
    );
    assert_eq!(resolved.relay_texts, vec!["https://relay.example.com"]);
}

#[test]
fn republished_record_is_fresh() {
    let keys = PublisherKeys::new(&SecretKey::from_bytes(&[42u8; 32]), b"ctx");
    let first = keys.record(&example_data(), 5).unwrap();
    let second = keys.record(&example_data(), 5).unwrap();
    assert_eq!(first.public, second.public);
    assert_ne!(first.value, second.value);
}

#[test]
fn published_sizes_do_not_tell_the_contents() {
    let keys = PublisherKeys::new(&SecretKey::from_bytes(&[42u8; 32]), b"ctx");
    let small = keys.record(&EndpointData::new(vec![]), 5).unwrap();
    let large = example_data().with_user_data(Some("x".repeat(245)));
    let large = keys.record(&large, 5).unwrap();
    assert_eq!(small.value.len(), 488);
    assert_eq!(large.value.len(), 488);
}

#[test]
fn large_records_are_published_unpadded() {
    let secret = SecretKey::from_bytes(&[42u8; 32]);
    let keys = PublisherKeys::new(&secret, DEFAULT_CONTEXT.as_bytes());
    let addrs = |n: u16| -> Vec<TransportAddr> {
        (0..n)
            .map(|port| {
                TransportAddr::Ip(SocketAddr::V4 {
                    ip: [10, 0, 0, 1],
                    port,
                })
            })
            .collect()
    };
    let record = keys.record(&EndpointData::new(addrs(100)), 5).unwrap();
    // Three lengths or tags, and 100 addresses of six bytes with a small port.
    assert_eq!(record.value.len(), 3 + 600 + 24 + 16);
    let resolved = BlindedLookup::builder()
        .build()
        .resolve(&secret.public(), found(record))
        .unwrap();
    assert_eq!(resolved.data.addrs(), &addrs(100));
}

#[test]
fn wrong_endpoint_or_context_does_not_resolve() {
    let secret = SecretKey::from_bytes(&[42u8; 32]);
    let other = SecretKey::from_bytes(&[43u8; 32]);
    let keys = PublisherKeys::new(&secret, DEFAULT_CONTEXT.as_bytes());
    let resolver = BlindedLookup::builder().build();
    assert_ne!(
        resolver.target(&other.public()).unwrap(),
        keys.public_bytes()
    );
    assert_eq!(
        resolver.resolve(
            &other.public(),
            found(keys.record(&example_data(), 5).unwrap())
        ),
        Err(ResolveError::Seal(SealError::Failed))
    );
    let elsewhere = BlindedLookup::builder().context(vec![1, 2, 3]).build();
    assert_eq!(
        elsewhere.resolve(
            &secret.public(),
            found(keys.record(&example_data(), 5).unwrap())
        ),
        Err(ResolveError::Seal(SealError::Failed))
    );
}

#[test]
fn every_failure_has_its_error() {
    let endpoint_id = SecretKey::from_bytes(&[42u8; 32]).public();
    let lookup = BlindedLookup::builder().build();
    let context = DEFAULT_CONTEXT.as_bytes();

    let error = lookup.target(&[2u8; 32]).unwrap_err();
    assert_eq!(error, ResolveError::Key(InvalidKey));
    assert_eq!(error.message(), "invalid ed25519 public key");

    let resolve = |reply: DhtReply| lookup.resolve(&endpoint_id, reply).unwrap_err();
    let error = resolve(DhtReply::Shutdown);
    assert_eq!(error, ResolveError::Lookup(LookupError::Shutdown));
    assert_eq!(error.message(), "dht actor shut down");

    let error = resolve(DhtReply::Missing);
    assert_eq!(error, ResolveError::Lookup(LookupError::NotFound));
    assert_eq!(error.message(), "no record found");

    let value = |value: Vec<u8>| DhtReply::Found { value, seq: 1 };
    let error = resolve(value(vec![0; 39]));
    assert_eq!(error, ResolveError::Seal(SealError::TooShort));
    assert_eq!(error.message(), "sealed record too short");

    let error = resolve(value(vec![0; 488]));
    assert_eq!(error, ResolveError::Seal(SealError::Failed));

    // Opens, but is not a record: a text that is not UTF-8.
    let error = resolve(value(seal(&endpoint_id, context, &[1, 1, 0xff])));
    assert!(matches!(
        error,
        ResolveError::Lookup(LookupError::Decode(_))
    ));

    // A record with a relay URL that is none.
    let error = resolve(value(seal(&endpoint_id, context, &[1, 1, b'x'])));
    assert_eq!(
        error,
        ResolveError::Lookup(LookupError::BadRecord("invalid relay url"))
    );
}

#[test]
fn last_updated_counts_microseconds() {
    let at = |seq: i64| Resolved {
        data: EndpointData::new(vec![]),
        relay_texts: vec![],
        seq,
    };
    assert_eq!(at(0).last_updated(), Some(0));
    assert_eq!(at(1).last_updated(), Some(1_000_000));
    assert_eq!(
        at(18_446_744_073_709).last_updated(),
        Some(18_446_744_073_709_000_000)
    );
    assert_eq!(at(-1).last_updated(), None);
    assert_eq!(at(i64::MIN).last_updated(), None);
}

#[test]
fn sequence_number_counts_seconds() {
    let keys = PublisherKeys::new(&SecretKey::from_bytes(&[42u8; 32]), b"ctx");
    let seq = |unix_seconds: u64| keys.record(&example_data(), unix_seconds).unwrap().seq;
    assert_eq!(seq(0), 0);
    assert_eq!(seq(1_700_000_000), 1_700_000_000);
    assert!(seq(1_700_000_000) < seq(1_700_000_001));
    assert_eq!(seq(9_223_372_036_854_775_807), i64::MAX);
    assert_eq!(seq(9_223_372_036_854_775_808), i64::MIN);
    assert_eq!(seq(u64::MAX), -1);
}

#[test]
fn publishing_task_follows_its_events() {
    let keys = PublisherKeys::new(&SecretKey::from_bytes(&[42u8; 32]), b"ctx");
    assert!(is_wait(keys.step(PublishEvent::Bootstrapped(true))));
    assert!(is_stop(keys.step(PublishEvent::Bootstrapped(false))));
    assert!(is_stop(keys.step(PublishEvent::Closed)));
    assert!(is_wait(keys.step(PublishEvent::Changed(None))));
    assert!(is_wait(keys.step(PublishEvent::Elapsed(None))));
    assert!(is_wait(keys.step(PublishEvent::PutDone(true))));
    assert!(is_wait(keys.step(PublishEvent::PutDone(false))));

    for event in [
        PublishEvent::Changed(Some(example_data())),
        PublishEvent::Elapsed(Some(example_data())),
    ] {
        let PublishAction::ReadClock(data) = keys.step(event) else {
            panic!("the latest data is to be published");
        };
        assert_eq!(data, example_data());
        let PublishAction::Put(record) = keys.step(PublishEvent::Clock {
            data,
            unix_seconds: 9,
        }) else {
            panic!("the record is to be stored");
        };
        assert_eq!(record.seq, 9);
        assert_eq!(record.public, keys.public_bytes());
    }
}

#[test]
fn signed_value_is_an_item() {
    let keys = PublisherKeys::new(&SecretKey::from_bytes(&[42u8; 32]), b"ctx");
    let record = keys.sign_value(b"hello".to_vec(), 1);
    assert_eq!(record.value, b"hello");
    assert_eq!(record.seq, 1);
    assert_eq!(record.public, keys.public_bytes());
    assert!(verify(
        &record.public,
        b"3:seqi1e1:v5:hello",
        &record.signature
    ));
}

#[test]
fn published_record_opens_to_the_encoding_and_zeros() {
    let secret = SecretKey::from_bytes(&[42u8; 32]);
    let keys = PublisherKeys::new(&secret, b"ctx");
    let record = keys.record(&example_data(), 5).unwrap();
    assert_ne!(record.public, secret.public());
    let opened = open(&secret.public(), b"ctx", &record.value).unwrap();
    let encoded = WireData::from_endpoint_data(&example_data())
        .encode()
        .unwrap();
    assert_eq!(opened[..encoded.len()], encoded[..]);
    assert!(opened[encoded.len()..].iter().all(|&b| b == 0));
}

use iroh_mainline_address_lookup_blinded::endpoint::{EndpointData, SocketAddr, TransportAddr};
use iroh_mainline_address_lookup_blinded::wire::WireData;
use iroh_mainline_address_lookup_blinded::LookupError;

fn v4(last: u8, port: u16) -> SocketAddr {
    SocketAddr::V4 {
        ip: [127, 0, 0, last],
        port,
    }
}

fn v6(port: u16, flowinfo: u32, scope_id: u32) -> SocketAddr {
    SocketAddr::V6 {
        ip: [1, 2, 3, 4, 5, 6, 7, 8, 9, 10, 11, 12, 13, 14, 15, 16],
        port,
        flowinfo,
        scope_id,
    }
}

fn relay(url: &str) -> TransportAddr {
    TransportAddr::Relay(url.to_string())
}

fn wire(relay_urls: &[&str], ip_addrs: Vec<SocketAddr>, user_data: Option<&str>) -> WireData {
    WireData {
        relay_urls: relay_urls.iter().map(|url| url.to_string()).collect(),
        ip_addrs,
        user_data: user_data.map(|text| text.to_string()),
    }
}

#[test]
fn encoding_has_known_bytes() {
    let url = "https://relay.example.com/";
    let encoded = wire(&[url], vec![v4(1, 4433)], None).encode().unwrap();
    let mut expected = vec![1, 26];
    expected.extend(url.as_bytes());
    expected.extend([1, 0, 127, 0, 0, 1, 0xd1, 0x22, 0]);
    assert_eq!(encoded, expected);

    let encoded = wire(&[], vec![v6(80, 0, 0)], Some("me")).encode().unwrap();
    let mut expected = vec![0, 1, 1];
    expected.extend(1..=16u8);
    expected.extend([80, 1, 2, b'm', b'e']);
    assert_eq!(encoded, expected);

    assert_eq!(wire(&[], vec![], None).encode(), Some(vec![0, 0, 0]));
}

#[test]
fn encoding_is_that_of_standard_socket_addresses() {
    let mut data = iroh::address_lookup::EndpointData::new(vec![]);
    data.add_ip_addrs(vec![
        "127.0.0.1:4433".parse().unwrap(),
        "[102:304:506:708:90a:b0c:d0e:f10]:80".parse().unwrap(),
    ]);
    let standard: Vec<_> = data.ip_addrs().copied().collect();
    let urls = vec!["https://relay.example.com/".to_string()];
    let user_data = Some("me".to_string());
    assert_eq!(
        postcard::to_stdvec(&(&urls, &standard, &user_data)).ok(),
        wire(
            &["https://relay.example.com/"],
            vec![v4(1, 4433), v6(80, 0, 0)],
            Some("me")
        )
        .encode()
    );
}

#[test]
fn decoding_reads_the_encoding_back() {
    let record = || {
        wire(
            &["https://a.example/", "b"],
            vec![v6(1, 0, 0), v4(2, 65535)],
            Some("text"),
        )
    };
    let encoded = record().encode().unwrap();
    assert_eq!(WireData::decode(&encoded), Ok(record()));
    // Whatever follows is ignored.
    let mut padded = encoded.clone();
    padded.resize(448, 0);
    assert_eq!(WireData::decode(&padded), Ok(record()));
    padded.resize(500, 7);
    assert_eq!(WireData::decode(&padded), Ok(record()));
}

#[test]
fn flow_label_and_scope_are_not_transmitted() {
    let encoded = wire(&[], vec![v6(1, 2, 3)], None).encode().unwrap();
    assert_eq!(
        WireData::decode(&encoded),
        Ok(wire(&[], vec![v6(1, 0, 0)], None))
    );
}

#[test]
fn undecodable_records_are_rejected() {
    let error = WireData::decode(b"").unwrap_err();
    assert_eq!(
        error,
        LookupError::Decode(postcard::Error::DeserializeUnexpectedEnd.to_string())
    );
    assert_eq!(
        error.message(),
        "failed to decode record: Hit the end of buffer, expected more data"
    );
    // A text that is not UTF-8, and an address of neither family.
    assert!(matches!(
        WireData::decode(&[1, 1, 0xff, 0, 0]),
        Err(LookupError::Decode(_))
    ));
    assert!(matches!(
        WireData::decode(&[0, 1, 2, 0, 0, 0, 0, 0, 0]),
        Err(LookupError::Decode(_))
    ));
}

#[test]
fn record_lists_relays_and_ips_in_order() {
    let data = EndpointData::new(vec![
        TransportAddr::Ip(v4(2, 2)),
        relay("https://b.example/"),
        TransportAddr::Custom,
        TransportAddr::Ip(v4(1, 1)),
        relay("https://a.example/"),
    ])
    .with_user_data(Some("text".to_string()));
    assert_eq!(
        WireData::from_endpoint_data(&data),
        wire(
            &["https://b.example/", "https://a.example/"],
            vec![v4(2, 2), v4(1, 1)],
            Some("text")
        )
    );
}

#[test]
fn record_is_read_relays_first_and_without_repetitions() {
    let data = wire(
        &["https://a.example", "https://b.example/", "https://a.example/"],
        vec![v4(1, 1), v6(1, 0, 0), v4(1, 1)],
        Some("text"),
    )
    .into_endpoint_data()
    .unwrap();
    assert_eq!(
        data.addrs(),
        &vec![
            relay("https://a.example/"),
            relay("https://b.example/"),
            TransportAddr::Ip(v4(1, 1)),
            TransportAddr::Ip(v6(1, 0, 0)),
        ]
    );
    assert_eq!(data.user_data(), &Some("text".to_string()));

    let data = wire(&[], vec![], None).into_endpoint_data().unwrap();
    assert_eq!(data, EndpointData::new(vec![]));
}

#[test]
fn bad_fields_are_rejected() {
    let error = wire(&["https://a.example/", "not a url"], vec![], None)
        .into_endpoint_data()
        .unwrap_err();
    assert_eq!(error, LookupError::BadRecord("invalid relay url"));
    assert_eq!(error.message(), "bad record: invalid relay url");

    let long = "x".repeat(246);
    let error = wire(&[], vec![], Some(&long))
        .into_endpoint_data()
        .unwrap_err();
    assert_eq!(error, LookupError::BadRecord("invalid user data"));
    assert_eq!(error.message(), "bad record: invalid user data");

    // The relay URLs come first.
    assert_eq!(
        wire(&["not a url"], vec![], Some(&long)).into_endpoint_data(),
        Err(LookupError::BadRecord("invalid relay url"))
    );
}

#[test]
fn user_data_is_measured_in_bytes() {
    let fits = "x".repeat(245);
    let data = wire(&[], vec![], Some(&fits)).into_endpoint_data().unwrap();
    assert_eq!(data.user_data(), &Some(fits));
    // 123 characters of two bytes each.
    let too_long = "é".repeat(123);
    assert_eq!(
        wire(&[], vec![], Some(&too_long)).into_endpoint_data(),
        Err(LookupError::BadRecord("invalid user data"))
    );
}

#[test]
fn carried_data_reads_back_as_it_was() {
    let data = || {
        EndpointData::new(vec![
            relay("https://b.example/"),
            relay("https://a.example/"),
            TransportAddr::Ip(v6(7, 0, 0)),
            TransportAddr::Ip(v4(1, 1)),
        ])
        .with_user_data(Some("text".to_string()))
    };
    let encoded = WireData::from_endpoint_data(&data()).encode().unwrap();
    let read = WireData::decode(&encoded).unwrap().into_endpoint_data();
    assert_eq!(read, Ok(data()));
}

#[test]
fn addresses_are_listed_once() {
    let data = EndpointData::new(vec![
        relay("a"),
        TransportAddr::Ip(v6(1, 0, 0)),
        relay("a"),
        TransportAddr::Ip(v6(1, 0, 1)),
        TransportAddr::Custom,
        TransportAddr::Ip(v6(1, 0, 0)),
        TransportAddr::Custom,
    ]);
    assert_eq!(
        data.addrs(),
        &vec![
            relay("a"),
            TransportAddr::Ip(v6(1, 0, 0)),
            TransportAddr::Ip(v6(1, 0, 1)),
            TransportAddr::Custom,
        ]
    );
    assert_eq!(data.user_data(), &None);
}

#[test]
fn untransmitted_record_keeps_flow_label_and_scope() {
    let data = || {
        EndpointData::new(vec![
            relay("https://a.example/"),
            TransportAddr::Ip(v6(7, 8, 9)),
            TransportAddr::Ip(v6(7, 8, 10)),
        ])
    };
    let read = WireData::from_endpoint_data(&data()).into_endpoint_data();
    assert_eq!(read, Ok(data()));
    // Transmitted, the two addresses are one.
    let encoded = WireData::from_endpoint_data(&data()).encode().unwrap();
    let read = WireData::decode(&encoded).unwrap().into_endpoint_data();
    assert_eq!(
        read.unwrap().addrs(),
        &vec![relay("https://a.example/"), TransportAddr::Ip(v6(7, 0, 0))]
    );
}

#[test]
fn printed_relay_url_need_not_parse_to_itself() {
    let printed = |text: &str| wire(&[text], vec![], None).into_endpoint_data().unwrap();
    assert_eq!(
        printed("file:C:\t./").addrs(),
        &vec![relay("file:///C:/./")]
    );
    assert_eq!(
        printed("file:///C:/./").addrs(),
        &vec![relay("file:///C:/")]
    );
}

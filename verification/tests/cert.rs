use renet2::addr::{IpAddr, Ipv4Addr, SocketAddr};
use renet2::cert::{
    certificate_params, generate_self_signed_certificate,
    generate_self_signed_certificate_opinionated, params_at, rcgen_params, CertificateAndKey,
    CertificateError, CertificateTerms, SubjectAltName, HOUR, MINUTE, SECOND, TIME_MAX, TIME_MIN,
    TWO_WEEKS, YEAR_ZERO,
};
use renet2::destination::{get_server_cert_hash, WebServerDestination};
use renet2::web_transport::{
    config_of, transport_settings, WebTransportServerConfig, CERT_VALIDITY,
};
use renet2::web_url::Url;

fn addr() -> SocketAddr {
    SocketAddr::new(IpAddr::V4(Ipv4Addr { bits: 0x7f00_0001 }), 4433)
}

fn find(data: &[u8], pattern: &[u8]) -> bool {
    data.windows(pattern.len()).any(|w| w == pattern)
}

/// The date in a text like `700101000000Z`, in seconds since 1970.
fn seconds(date: &[u8]) -> i64 {
    let two = |i: usize| (date[i] - b'0') as i64 * 10 + (date[i + 1] - b'0') as i64;
    let year = if two(0) < 50 { 2000 + two(0) } else { 1900 + two(0) };
    let month = time::Month::try_from(two(2) as u8).unwrap();
    let date_only = time::Date::from_calendar_date(year as i32, month, two(4) as u8).unwrap();
    let days = (date_only.to_julian_day() - 2_440_588) as i64;
    ((days * 24 + two(6)) * 60 + two(8)) * 60 + two(10)
}

/// The dates between which a certificate is valid.
fn validity(cert: &[u8]) -> (i64, i64) {
    let dates: Vec<usize> =
        (0..cert.len() - 15).filter(|i| cert[*i..].starts_with(&[0x17, 13])).collect();
    (seconds(&cert[dates[0] + 2..]), seconds(&cert[dates[1] + 2..]))
}

fn now() -> i64 {
    time::OffsetDateTime::now_utc().unix_timestamp()
}

#[test]
fn parameters_are_dated() {
    let now = 1_700_000_000_000_000_000i128;
    let params = certificate_params(now, HOUR, TWO_WEEKS, &Vec::new()).unwrap();
    assert_eq!(params.not_before, now - 3_600_000_000_000);
    assert_eq!(params.not_after, now - 3_600_000_000_000 + 14 * 86_400_000_000_000);
    assert_eq!(params.common_name, "renet2 self signed cert");
    assert!(params.subject_alt_names.is_empty());
    let params = certificate_params(now, 0, TWO_WEEKS, &Vec::new()).unwrap();
    assert_eq!(params.not_before, now);
    assert_eq!(params.not_after, now + 14 * 86_400_000_000_000);
    assert_eq!(HOUR, 60 * MINUTE);
    assert_eq!(MINUTE, 60 * SECOND);
    assert_eq!(TWO_WEEKS, 14 * 24 * HOUR);
    assert_eq!(CERT_VALIDITY, 14 * 24 * HOUR - MINUTE);
}

#[test]
fn parameters_stop_at_the_ends_of_time() {
    let params = certificate_params(TIME_MIN, HOUR, TWO_WEEKS, &Vec::new()).unwrap();
    assert_eq!(params.not_before, TIME_MIN);
    assert_eq!(params.not_after, TIME_MIN + TWO_WEEKS);
    let params = certificate_params(TIME_MAX, HOUR, TWO_WEEKS, &Vec::new()).unwrap();
    assert_eq!(params.not_before, TIME_MAX - HOUR);
    assert_eq!(params.not_after, TIME_MAX);
}

#[test]
fn destinations_become_names() {
    let dests = vec![
        WebServerDestination::Addr(addr()),
        WebServerDestination::Url(Url::parse("https://a.example:4433").unwrap()),
        WebServerDestination::Url(Url::parse("https://10.0.0.1:4433").unwrap()),
    ];
    let params = certificate_params(0, HOUR, TWO_WEEKS, &dests).unwrap();
    assert_eq!(params.subject_alt_names.len(), 3);
    assert!(matches!(
        params.subject_alt_names[0],
        SubjectAltName::IpAddress(IpAddr::V4(Ipv4Addr { bits: 0x7f00_0001 }))
    ));
    assert!(matches!(&params.subject_alt_names[1], SubjectAltName::DnsName(n) if n == "a.example"));
    assert!(matches!(
        &params.subject_alt_names[2],
        SubjectAltName::Uri(n) if n == "https://10.0.0.1:4433/"
    ));
}

#[test]
fn certificate_says_what_it_should() {
    let params = CertificateTerms {
        not_before: SECOND - 1,
        not_after: TWO_WEEKS + 1,
        common_name: "somebody".to_owned(),
        subject_alt_names: vec![
            SubjectAltName::IpAddress(IpAddr::V4(Ipv4Addr { bits: 0x0102_0304 })),
            SubjectAltName::DnsName("a.example".to_owned()),
            SubjectAltName::Uri("https://b.example/".to_owned()),
        ],
    };
    let made = generate_self_signed_certificate(rcgen_params(params).unwrap()).ok().unwrap();
    assert!(find(&made.cert, b"somebody"));
    assert!(find(&made.cert, &[0x87, 4, 1, 2, 3, 4]));
    assert!(find(&made.cert, b"a.example"));
    assert!(find(&made.cert, b"https://b.example/"));
    assert!(find(&made.cert, b"700101000000Z"));
    assert!(find(&made.cert, b"700115000000Z"));
    // The certificate is for the key, which is one for ECDSA.
    let key_pair = rcgen::KeyPair::try_from(made.key.as_slice()).unwrap();
    assert!(key_pair.is_compatible(&rcgen::PKCS_ECDSA_P256_SHA256));
    assert!(find(&made.cert, key_pair.public_key_raw()));
}

#[test]
fn other_parameters_are_kept() {
    let mut params = rcgen::CertificateParams::new(vec!["a.example".to_owned()]).unwrap();
    params.serial_number = Some(rcgen::SerialNumber::from(vec![1, 2, 3, 4, 5, 6, 7, 8]));
    let made = generate_self_signed_certificate(params).ok().unwrap();
    assert!(find(&made.cert, &[2, 8, 1, 2, 3, 4, 5, 6, 7, 8]));
    assert!(find(&made.cert, b"a.example"));
}

#[test]
fn opinionated_certificate_is_valid_for_two_weeks_from_now() {
    let before = now();
    let made = generate_self_signed_certificate_opinionated(&Vec::new()).ok().unwrap();
    let after = now();
    let (not_before, not_after) = validity(&made.cert);
    assert!(before <= not_before && not_before <= after);
    assert_eq!(not_after, not_before + 14 * 86_400);
}

#[test]
fn certificate_of_a_config_is_valid_from_an_hour_ago() {
    let before = now();
    let (config, _) = WebTransportServerConfig::new_selfsigned(addr(), 10).unwrap();
    let after = now();
    let (not_before, not_after) = validity(&config.cert);
    assert!(before - 3_600 <= not_before && not_before <= after - 3_600);
    assert_eq!(not_after, not_before + 14 * 86_400 - 60);
}

#[test]
fn names_must_be_ascii() {
    let params = CertificateTerms {
        not_before: 0,
        not_after: TWO_WEEKS,
        common_name: "somebody".to_owned(),
        subject_alt_names: vec![SubjectAltName::DnsName("\u{e4}.example".to_owned())],
    };
    assert_eq!(rcgen_params(params).err(), Some(CertificateError::InvalidName));
}

#[test]
fn time_decides_whether_a_certificate_can_be_dated() {
    let dests = vec![WebServerDestination::Addr(addr())];
    let params = params_at(3 * HOUR + 1, HOUR, TWO_WEEKS, &dests).unwrap();
    assert_eq!(params.not_before.unix_timestamp(), 2 * 3_600);
    assert_eq!(params.not_after.unix_timestamp(), 2 * 3_600 + 14 * 86_400);
    assert_eq!(params.subject_alt_names.len(), 1);
    assert!(params_at(YEAR_ZERO + HOUR, HOUR, TWO_WEEKS, &dests).is_ok());
    assert_eq!(
        params_at(YEAR_ZERO + HOUR - 1, HOUR, TWO_WEEKS, &dests).err(),
        Some(CertificateError::InvalidTime)
    );
}

#[test]
fn config_is_made_of_a_certificate() {
    let made = CertificateAndKey { cert: b"abc".to_vec(), key: vec![7, 8] };
    let (config, hash) = config_of(Ok(made), addr(), 5).unwrap();
    assert_eq!(config.cert, b"abc");
    assert_eq!(config.key, [7, 8]);
    assert_eq!((config.listen, config.max_clients), (addr(), 5));
    assert_eq!(hash.hash[..4], [0xba, 0x78, 0x16, 0xbf]);
    assert_eq!(
        config_of(Err(CertificateError::Signing), addr(), 5).err(),
        Some(CertificateError::Signing)
    );
}

#[test]
fn certificates_differ_each_time() {
    let dests = vec![WebServerDestination::Addr(addr())];
    let first = generate_self_signed_certificate_opinionated(&dests).ok().unwrap();
    let second = generate_self_signed_certificate_opinionated(&dests).ok().unwrap();
    assert_ne!(first.cert, second.cert);
    assert_ne!(first.key, second.key);
    assert!(find(&first.cert, b"renet2 self signed cert"));
    assert!(find(&first.cert, &[0x87, 4, 127, 0, 0, 1]));
}

#[test]
fn config_comes_with_the_hash_of_its_certificate() {
    let (config, hash) = WebTransportServerConfig::new_selfsigned(addr(), 10).unwrap();
    assert_eq!(config.listen, addr());
    assert_eq!(config.max_clients, 10);
    assert_eq!(get_server_cert_hash(&config.cert).hash, hash.hash);
    assert!(find(&config.cert, &[0x87, 4, 127, 0, 0, 1]));
    let copy = config.clone();
    assert_eq!(copy.cert, config.cert);
    assert_eq!(copy.key, config.key);
    assert_eq!(copy.listen, config.listen);
    assert_eq!(copy.max_clients, config.max_clients);
}

#[test]
fn config_can_be_made_out_to_proxies() {
    let proxies = vec![WebServerDestination::Url(Url::parse("https://a.example:1").unwrap())];
    let (config, _) =
        WebTransportServerConfig::new_selfsigned_with_proxies(addr(), &proxies, 3).unwrap();
    assert!(find(&config.cert, b"a.example"));
    assert!(!find(&config.cert, &[0x87, 4, 127, 0, 0, 1]));
    assert_eq!(config.max_clients, 3);
}

#[test]
fn settings_of_connections() {
    let settings = transport_settings();
    assert_eq!(
        settings.alpn_protocols,
        vec![
            b"h3".to_vec(),
            b"h3-32".to_vec(),
            b"h3-31".to_vec(),
            b"h3-30".to_vec(),
            b"h3-29".to_vec(),
        ]
    );
    assert_eq!(settings.max_early_data_size, u32::MAX);
    assert_eq!(settings.keep_alive_secs, 2);
    assert_eq!(settings.idle_timeout_secs, 15);
}

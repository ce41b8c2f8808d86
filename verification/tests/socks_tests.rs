use tg_unblock::socks::{
    connect_refused, connect_succeeded, ipv4_to_string, method_reply, parse_connect, parse_dest,
    parse_greeting, parse_ipv4, target, DestError, SessionError,
};

#[test]
fn dest_ipv4() {
    let r = parse_dest(&[0x01, 149, 154, 167, 51, 0x01, 0xBB]);
    assert_eq!(r, Ok(("149.154.167.51".to_string(), 443)));
    let r = parse_dest(&[0x01, 0, 0, 0, 0, 0, 0]);
    assert_eq!(r, Ok(("0.0.0.0".to_string(), 0)));
    let r = parse_dest(&[0x01, 255, 10, 100, 7, 0xFF, 0xFF, 9, 9]);
    assert_eq!(r, Ok(("255.10.100.7".to_string(), 65535)));
}

#[test]
fn dest_ipv4_short() {
    assert_eq!(parse_dest(&[0x01, 1, 2, 3, 4, 0]), Err(DestError::Short));
    assert_eq!(parse_dest(&[0x01]), Err(DestError::Short));
}

#[test]
fn dest_domain() {
    let mut data = vec![0x03, 11];
    data.extend_from_slice(b"example.com");
    data.extend_from_slice(&[0x00, 0x50]);
    assert_eq!(parse_dest(&data), Ok(("example.com".to_string(), 80)));
}

#[test]
fn dest_domain_unicode() {
    let name = "пример.рф";
    let mut data = vec![0x03, name.len() as u8];
    data.extend_from_slice(name.as_bytes());
    data.extend_from_slice(&[0x1F, 0x90]);
    assert_eq!(parse_dest(&data), Ok((name.to_string(), 8080)));
}

#[test]
fn dest_domain_errors() {
    assert_eq!(parse_dest(&[0x03, 5, b'a', b'b', 0, 80]), Err(DestError::Short));
    assert_eq!(parse_dest(&[0x03, 1, 0xFF, 0, 80]), Err(DestError::InvalidUtf8));
    assert_eq!(parse_dest(&[0x04, 1, 2, 3]), Err(DestError::UnknownAddrType));
    assert_eq!(parse_dest(&[0x00]), Err(DestError::UnknownAddrType));
}

#[test]
fn greeting_methods() {
    assert_eq!(parse_greeting(&[5, 2, 0, 2]), Ok(vec![0, 2]));
    assert_eq!(parse_greeting(&[5, 0]), Ok(vec![]));
    assert_eq!(parse_greeting(&[5, 1, 0, 99]), Ok(vec![0]));
    assert_eq!(parse_greeting(&[4, 1, 0]), Err(SessionError::NotSocks5));
    assert_eq!(parse_greeting(&[5]), Err(SessionError::NotSocks5));
    assert_eq!(parse_greeting(&[]), Err(SessionError::NotSocks5));
    assert_eq!(parse_greeting(&[5, 3, 0, 2]), Err(SessionError::IncompleteMethods));
}

#[test]
fn connect_requests() {
    let ok = [5, 1, 0, 1, 149, 154, 167, 51, 0x01, 0xBB];
    assert_eq!(parse_connect(&ok), Ok(("149.154.167.51".to_string(), 443)));
    assert_eq!(parse_connect(&[5, 2, 0, 1, 1, 2, 3, 4, 0, 80]), Err(SessionError::BadConnect));
    assert_eq!(parse_connect(&[4, 1, 0, 1, 1, 2, 3, 4, 0, 80]), Err(SessionError::BadConnect));
    assert_eq!(parse_connect(&[5, 1, 0, 1, 1, 2]), Err(SessionError::BadConnect));
    assert_eq!(
        parse_connect(&[5, 1, 0, 9, 1, 2, 3, 4]),
        Err(SessionError::Dest(DestError::UnknownAddrType))
    );
    assert_eq!(
        parse_connect(&[5, 1, 0, 1, 1, 2, 3]),
        Err(SessionError::Dest(DestError::Short))
    );
}

#[test]
fn fixed_replies() {
    assert_eq!(method_reply(0x02), vec![5, 2]);
    assert_eq!(method_reply(0xFF), vec![5, 0xFF]);
    assert_eq!(connect_refused(), vec![5, 7, 0, 1, 0, 0, 0, 0, 0, 0]);
    assert_eq!(connect_succeeded(), vec![5, 0, 0, 1, 127, 0, 0, 1, 4, 0x38]);
}

#[test]
fn targets_and_addresses() {
    assert_eq!(target("example.com", 443), "example.com:443");
    assert_eq!(target("1.2.3.4", 0), "1.2.3.4:0");
    assert_eq!(ipv4_to_string(10, 0, 200, 9), "10.0.200.9");
}

#[test]
fn ipv4_reading() {
    assert_eq!(parse_ipv4("1.2.3.4"), Some([1, 2, 3, 4]));
    assert_eq!(parse_ipv4("0.0.0.0"), Some([0, 0, 0, 0]));
    assert_eq!(parse_ipv4("255.255.255.255"), Some([255, 255, 255, 255]));
    assert_eq!(parse_ipv4("149.154.167.51"), Some([149, 154, 167, 51]));
    assert_eq!(parse_ipv4("10.0.0.255"), Some([10, 0, 0, 255]));
    let rejected = [
        "256.1.1.1", "01.2.3.4", "1.2.3", "1.2.3.4.5", "1..3.4", "", ".", "1.2.3.4.", "a.b.c.d",
        "1.2.3.-4", "+1.2.3.4", " 1.2.3.4", "1.2.3.4 ", "0.00.0.0", "1234.1.1.1", "١.2.3.4",
        "example.com",
    ];
    for c in rejected {
        assert_eq!(parse_ipv4(c), None, "{}", c);
    }
}

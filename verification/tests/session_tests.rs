use tg_unblock::auth::AuthConfig;
use tg_unblock::session::{Next, Socks5Session};
use tg_unblock::socks::{DestError, SessionError};

fn open() -> AuthConfig {
    AuthConfig { enabled: false, username: None, password: None }
}

fn with_auth() -> AuthConfig {
    AuthConfig {
        enabled: true,
        username: Some("alice".to_string()),
        password: Some("secret".to_string()),
    }
}

fn credentials(user: &[u8], pass: &[u8]) -> Vec<u8> {
    let mut v = vec![0x01, user.len() as u8];
    v.extend_from_slice(user);
    v.push(pass.len() as u8);
    v.extend_from_slice(pass);
    v
}

#[test]
fn no_auth_direct_connection() {
    let mut s = Socks5Session::new(open(), false);
    let st = s.step(&[5, 1, 0]);
    assert_eq!(st.reply, vec![5, 0]);
    assert!(st.trust_client);
    assert!(matches!(st.next, Next::ReadAvailable));

    let mut req = vec![5, 1, 0, 3, 11];
    req.extend_from_slice(b"example.com");
    req.extend_from_slice(&[0x01, 0xBB]);
    let st = s.step(&req);
    assert_eq!(st.reply, vec![5, 0, 0, 1, 127, 0, 0, 1, 4, 0x38]);
    match st.next {
        Next::Direct { target } => assert_eq!(target, "example.com:443"),
        _ => panic!("expected a direct connection"),
    }
    assert!(s.is_done());
}

#[test]
fn telegram_address_is_tunnelled() {
    let mut s = Socks5Session::new(open(), false);
    s.step(&[5, 1, 0]);
    let st = s.step(&[5, 1, 0, 1, 149, 154, 167, 51, 0x01, 0xBB]);
    assert_eq!(st.reply, vec![5, 0, 0, 1, 127, 0, 0, 1, 4, 0x38]);
    assert!(matches!(st.next, Next::ReadExact(64)));
    // An init packet of zeros decrypts to keystream bytes; whatever DC it
    // names, the tunnel goes to a DC in 1..=5.
    let st = s.step(&[0u8; 64]);
    match st.next {
        Next::Tunnel { dc, init, dest_addr, dest_port } => {
            assert!((1..=5).contains(&dc));
            assert_eq!(init, vec![0u8; 64]);
            assert_eq!(dest_addr, "149.154.167.51");
            assert_eq!(dest_port, 443);
        }
        _ => panic!("expected a tunnel"),
    }
    assert!(s.is_done());
}

#[test]
fn user_pass_then_connect() {
    let mut s = Socks5Session::new(with_auth(), false);
    let st = s.step(&[5, 2, 0, 2]);
    assert_eq!(st.reply, vec![5, 2]);
    assert!(!st.trust_client);
    assert!(matches!(st.next, Next::ReadExact(1)));

    // Feed the request the way the caller reads it: exactly what is asked.
    let req = credentials(b"alice", b"secret");
    let mut pos = 0;
    let mut last = None;
    while pos < req.len() {
        let n = match last {
            None => 1,
            Some(n) => n,
        };
        let st = s.step(&req[pos..pos + n]);
        pos += n;
        match st.next {
            Next::ReadExact(m) => {
                assert!(st.reply.is_empty());
                last = Some(m);
            }
            Next::ReadAvailable => {
                assert_eq!(pos, req.len());
                assert_eq!(st.reply, vec![1, 0]);
                assert!(st.trust_client);
            }
            _ => panic!("unexpected step"),
        }
    }
    let st = s.step(&[5, 1, 0, 1, 8, 8, 8, 8, 0, 53]);
    match st.next {
        Next::Direct { target } => assert_eq!(target, "8.8.8.8:53"),
        _ => panic!("expected a direct connection"),
    }
}

#[test]
fn wrong_password_refused() {
    let mut s = Socks5Session::new(with_auth(), false);
    s.step(&[5, 1, 2]);
    let st = s.step(&credentials(b"alice", b"guess"));
    assert_eq!(st.reply, vec![1, 1]);
    assert!(!st.trust_client);
    assert!(matches!(st.next, Next::Fail(SessionError::AuthenticationFailed)));
    assert!(s.is_done());
}

#[test]
fn bad_subnegotiation_version_fails_silently() {
    let mut s = Socks5Session::new(with_auth(), false);
    s.step(&[5, 1, 2]);
    let st = s.step(&[5]);
    assert!(st.reply.is_empty());
    assert!(matches!(st.next, Next::Fail(SessionError::AuthenticationFailed)));
}

#[test]
fn trusted_client_skips_auth() {
    let mut s = Socks5Session::new(with_auth(), true);
    let st = s.step(&[5, 2, 0, 2]);
    assert_eq!(st.reply, vec![5, 0]);
    assert!(st.trust_client);
    assert!(matches!(st.next, Next::ReadAvailable));

    // A trusted client that offers only username/password authenticates.
    let mut s = Socks5Session::new(with_auth(), true);
    let st = s.step(&[5, 1, 2]);
    assert_eq!(st.reply, vec![5, 2]);
    assert!(!st.trust_client);
    assert!(matches!(st.next, Next::ReadExact(1)));
}

#[test]
fn greeting_failures() {
    let mut s = Socks5Session::new(open(), false);
    let st = s.step(&[4, 1, 0]);
    assert!(st.reply.is_empty());
    assert!(matches!(st.next, Next::Fail(SessionError::NotSocks5)));

    let mut s = Socks5Session::new(open(), false);
    let st = s.step(&[5, 2, 0]);
    assert!(matches!(st.next, Next::Fail(SessionError::IncompleteMethods)));

    let mut s = Socks5Session::new(open(), false);
    let st = s.step(&[5, 1, 2]);
    assert_eq!(st.reply, vec![5, 0xFF]);
    assert!(matches!(st.next, Next::Fail(SessionError::NoAcceptableMethod)));
    assert!(s.is_done());

    // With authentication on, an untrusted client offering only
    // "no authentication" is refused.
    let mut s = Socks5Session::new(with_auth(), false);
    let st = s.step(&[5, 1, 0]);
    assert_eq!(st.reply, vec![5, 0xFF]);
    assert!(!st.trust_client);
    assert!(matches!(st.next, Next::Fail(SessionError::NoAcceptableMethod)));
    assert!(s.is_done());
}

#[test]
fn bad_request_refused() {
    let mut s = Socks5Session::new(open(), false);
    s.step(&[5, 1, 0]);
    let st = s.step(&[5, 2, 0, 1, 1, 2, 3, 4, 0, 80]);
    assert_eq!(st.reply, vec![5, 7, 0, 1, 0, 0, 0, 0, 0, 0]);
    assert!(matches!(st.next, Next::Fail(SessionError::BadConnect)));

    let mut s = Socks5Session::new(open(), false);
    s.step(&[5, 1, 0]);
    let st = s.step(&[5, 1, 0, 7, 1, 2, 3, 4, 0, 80]);
    assert!(st.reply.is_empty());
    assert!(matches!(st.next, Next::Fail(SessionError::Dest(DestError::UnknownAddrType))));
}

#[test]
fn ended_session_refuses_events() {
    let mut s = Socks5Session::new(open(), false);
    s.step(&[4]);
    assert!(s.is_done());
    let st = s.step(&[5, 1, 0]);
    assert!(st.reply.is_empty());
    assert!(matches!(st.next, Next::Fail(SessionError::UnexpectedEvent)));
}

#[test]
fn telegram_address_given_as_domain_text() {
    // A dotted IPv4 address sent as a domain name is read as that address.
    let mut s = Socks5Session::new(open(), false);
    s.step(&[5, 1, 0]);
    let name = b"91.108.56.130";
    let mut req = vec![5, 1, 0, 3, name.len() as u8];
    req.extend_from_slice(name);
    req.extend_from_slice(&[0x01, 0xBB]);
    let st = s.step(&req);
    assert!(matches!(st.next, Next::ReadExact(64)));

    // With a leading zero it is not an IPv4 address, so it is passed through.
    let mut s = Socks5Session::new(open(), false);
    s.step(&[5, 1, 0]);
    let name = b"91.108.056.130";
    let mut req = vec![5, 1, 0, 3, name.len() as u8];
    req.extend_from_slice(name);
    req.extend_from_slice(&[0x01, 0xBB]);
    let st = s.step(&req);
    match st.next {
        Next::Direct { target } => assert_eq!(target, "91.108.056.130:443"),
        _ => panic!("expected a direct connection"),
    }
}

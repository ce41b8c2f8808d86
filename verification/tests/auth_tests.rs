use tg_unblock::auth::{
    auth_reply, credentials_progress, credentials_valid, flag_enables_auth, select_auth_method,
    AuthConfig, CredentialsProgress,
};

fn config(enabled: bool, user: Option<&str>, pass: Option<&str>) -> AuthConfig {
    AuthConfig {
        enabled,
        username: user.map(|s| s.to_string()),
        password: pass.map(|s| s.to_string()),
    }
}

#[test]
fn auth_disabled_accepts_no_auth_only() {
    let c = config(false, None, None);
    assert_eq!(select_auth_method(&[0x00], &c, false), Some(0x00));
    assert_eq!(select_auth_method(&[0x02, 0x00], &c, false), Some(0x00));
    assert_eq!(select_auth_method(&[0x02], &c, false), None);
    assert_eq!(select_auth_method(&[], &c, true), None);
}

#[test]
fn auth_enabled_prefers_user_pass() {
    let c = config(true, Some("u"), Some("p"));
    assert_eq!(select_auth_method(&[0x00, 0x02], &c, false), Some(0x02));
    assert_eq!(select_auth_method(&[0x02], &c, false), Some(0x02));
    // an untrusted client that offers only "no authentication" is refused
    assert_eq!(select_auth_method(&[0x00], &c, false), None);
    assert_eq!(select_auth_method(&[0x01, 0x03], &c, false), None);
}

#[test]
fn trusted_client_bypasses_auth() {
    let c = config(true, Some("u"), Some("p"));
    assert_eq!(select_auth_method(&[0x00, 0x02], &c, true), Some(0x00));
    assert_eq!(select_auth_method(&[0x00], &c, true), Some(0x00));
    // a trusted client is never given a method it did not offer
    assert_eq!(select_auth_method(&[0x02], &c, true), Some(0x02));
    assert_eq!(select_auth_method(&[], &c, true), None);
    let off = config(false, None, None);
    assert_eq!(select_auth_method(&[0x02], &off, true), None);
}

#[test]
fn env_values_switch() {
    let on = AuthConfig::from_env(Some("1".to_string()), Some("u".to_string()), Some("p".to_string()));
    assert!(on.enabled);
    assert_eq!(on.username.as_deref(), Some("u"));
    assert_eq!(on.password.as_deref(), Some("p"));

    let upper = AuthConfig::from_env(Some("TRUE".to_string()), Some("u".to_string()), None);
    assert!(upper.enabled);
    assert_eq!(upper.username.as_deref(), Some("u"));
    assert_eq!(upper.password, None);

    let mixed = AuthConfig::from_env(Some("tRuE".to_string()), None, None);
    assert!(mixed.enabled);

    let other = AuthConfig::from_env(Some("yes".to_string()), Some("u".to_string()), Some("p".to_string()));
    assert!(!other.enabled);
    assert_eq!(other.username, None);
    assert_eq!(other.password, None);

    let unset = AuthConfig::from_env(None, Some("u".to_string()), Some("p".to_string()));
    assert!(!unset.enabled);
    assert_eq!(unset.username, None);

    let zero = AuthConfig::from_env(Some("0".to_string()), None, None);
    assert!(!zero.enabled);
}

#[test]
fn flag_text_and_lowercase() {
    assert!(flag_enables_auth("1", "1"));
    assert!(flag_enables_auth("TRUE", "true"));
    assert!(!flag_enables_auth("TRUE", "TRUE"));
    assert!(!flag_enables_auth("on", "on"));
}

#[test]
fn credentials_request_progress() {
    // VER ULEN "alice" PLEN "secret"
    let mut req = vec![0x01, 5];
    req.extend_from_slice(b"alice");
    req.push(6);
    req.extend_from_slice(b"secret");

    let needs: Vec<usize> = (0..req.len())
        .filter_map(|k| match credentials_progress(&req[..k]) {
            CredentialsProgress::NeedMore(n) => Some(n),
            _ => None,
        })
        .collect();
    assert_eq!(needs.len(), req.len());
    assert!(matches!(credentials_progress(&req[..0]), CredentialsProgress::NeedMore(1)));
    assert!(matches!(credentials_progress(&req[..1]), CredentialsProgress::NeedMore(1)));
    assert!(matches!(credentials_progress(&req[..2]), CredentialsProgress::NeedMore(5)));
    assert!(matches!(credentials_progress(&req[..4]), CredentialsProgress::NeedMore(3)));
    assert!(matches!(credentials_progress(&req[..7]), CredentialsProgress::NeedMore(1)));
    assert!(matches!(credentials_progress(&req[..8]), CredentialsProgress::NeedMore(6)));
    match credentials_progress(&req) {
        CredentialsProgress::Complete { username, password } => {
            assert_eq!(username, b"alice".to_vec());
            assert_eq!(password, b"secret".to_vec());
        }
        _ => panic!("request should be complete"),
    }
}

#[test]
fn credentials_request_empty_fields_and_bad_version() {
    match credentials_progress(&[0x01, 0, 0]) {
        CredentialsProgress::Complete { username, password } => {
            assert!(username.is_empty());
            assert!(password.is_empty());
        }
        _ => panic!("request should be complete"),
    }
    assert!(matches!(credentials_progress(&[0x01, 0]), CredentialsProgress::NeedMore(1)));
    assert!(matches!(credentials_progress(&[0x05, 1]), CredentialsProgress::BadVersion));
}

#[test]
fn credentials_checked_exactly() {
    let c = config(true, Some("alice"), Some("secret"));
    assert!(credentials_valid(&c, b"alice", b"secret"));
    assert!(!credentials_valid(&c, b"alice", b"secreT"));
    assert!(!credentials_valid(&c, b"alic", b"secret"));
    assert!(!credentials_valid(&c, b"alice", b"secret!"));
    assert!(!credentials_valid(&c, b"", b""));
    let none = config(true, None, Some("secret"));
    assert!(!credentials_valid(&none, b"", b"secret"));
    let unicode = config(true, Some("пользователь"), Some("пароль"));
    assert!(credentials_valid(&unicode, "пользователь".as_bytes(), "пароль".as_bytes()));
}

#[test]
fn auth_replies() {
    assert_eq!(auth_reply(true), vec![0x01, 0x00]);
    assert_eq!(auth_reply(false), vec![0x01, 0x01]);
}

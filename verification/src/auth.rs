//! SOCKS5 authentication: the proxy's credentials, the choice of method
//! among those a client offers, and username/password sub-negotiation
//! (RFC 1929).

use vstd::prelude::*;
use vstd::string::*;
use vstd::utf8::encode_utf8;
use subtle::ConstantTimeEq;

verus! {

/// "No authentication required".
pub const METHOD_NO_AUTH: u8 = 0x00;

/// "Username/password".
pub const METHOD_USER_PASS: u8 = 0x02;

/// "No acceptable methods".
pub const METHOD_NONE_ACCEPTABLE: u8 = 0xFF;

/// Version byte of the username/password sub-negotiation.
pub const USER_PASS_VERSION: u8 = 0x01;

/// SOCKS5 authentication settings.
#[derive(Clone)]
pub struct AuthConfig {
    pub enabled: bool,
    pub username: Option<String>,
    pub password: Option<String>,
}

/// Names what `str::to_lowercase` returns: the Unicode lowercase mapping of
/// the text (context-dependent for final sigma).
pub uninterp spec fn unicode_lowercase(s: Seq<char>) -> Seq<char>;

/// Calls `str::to_lowercase`. Claimed: the result is the named lowercase
/// mapping of `s`.
#[verifier::external_body]
fn to_lowercase(s: &str) -> (r: String)
    ensures
        r@ == unicode_lowercase(s@),
{
    s.to_lowercase()
}

/// Whether an authentication switch turns authentication on, given the
/// switch's text and its lowercase form: `"1"`, or `"true"` in any case.
pub open spec fn spec_flag_enables_auth(flag: Seq<char>, lowercased: Seq<char>) -> bool {
    flag == "1"@ || lowercased == "true"@
}

/// Decides the authentication switch from its text and its lowercase form.
pub fn flag_enables_auth(flag: &str, lowercased: &str) -> (r: bool)
    ensures
        r == spec_flag_enables_auth(flag@, lowercased@),
{
    let f = String::from_str(flag);
    let l = String::from_str(lowercased);
    f == String::from_str("1") || l == String::from_str("true")
}

/// Whether the text of the authentication switch turns authentication on.
pub open spec fn spec_auth_flag(flag: Option<Seq<char>>) -> bool {
    match flag {
        Some(f) => spec_flag_enables_auth(f, unicode_lowercase(f)),
        None => false,
    }
}

pub open spec fn view_opt_string(s: Option<String>) -> Option<Seq<char>> {
    match s {
        Some(v) => Some(v@),
        None => None,
    }
}

impl AuthConfig {
    /// The configuration from the values of the `TG_UNBLOCK_AUTH`,
    /// `TG_UNBLOCK_USERNAME` and `TG_UNBLOCK_PASSWORD` settings (each `None`
    /// where unset). Username and password are kept only where the switch
    /// turns authentication on.
    pub fn from_env(
        auth_flag: Option<String>,
        username: Option<String>,
        password: Option<String>,
    ) -> (r: AuthConfig)
        ensures
            r.enabled == spec_auth_flag(view_opt_string(auth_flag)),
            view_opt_string(r.username) == (if r.enabled {
                view_opt_string(username)
            } else {
                None
            }),
            view_opt_string(r.password) == (if r.enabled {
                view_opt_string(password)
            } else {
                None
            }),
    {
        let enabled = match &auth_flag {
            Some(v) => {
                let lowered = to_lowercase(v.as_str());
                flag_enables_auth(v.as_str(), lowered.as_str())
            },
            None => false,
        };
        let username = if enabled {
            username
        } else {
            None
        };
        let password = if enabled {
            password
        } else {
            None
        };
        AuthConfig { enabled, username, password }
    }
}

/// The method the proxy picks from those a client offers: with
/// authentication on, a trusted client that offers "no authentication" gets
/// it; otherwise, with authentication on, a client gets username/password if
/// it offers it, else nothing; with authentication off, "no authentication"
/// if offered, else nothing.
pub open spec fn spec_select_auth_method(methods: Seq<u8>, enabled: bool, is_trusted: bool) -> Option<u8> {
    if enabled {
        if is_trusted && methods.contains(METHOD_NO_AUTH) {
            Some(METHOD_NO_AUTH)
        } else if methods.contains(METHOD_USER_PASS) {
            Some(METHOD_USER_PASS)
        } else {
            None
        }
    } else if methods.contains(METHOD_NO_AUTH) {
        Some(METHOD_NO_AUTH)
    } else {
        None
    }
}

fn offers(methods: &[u8], m: u8) -> (r: bool)
    ensures
        r == methods@.contains(m),
{
    let mut i: usize = 0;
    while i < methods.len()
        invariant
            i <= methods@.len(),
            forall|j: int| 0 <= j < i ==> methods@[j] != m,
        decreases methods@.len() - i,
    {
        if methods[i] == m {
            assert(methods@[i as int] == m);
            return true;
        }
        i = i + 1;
    }
    false
}

/// Chooses the authentication method from the client's offers.
pub fn select_auth_method(client_methods: &[u8], auth: &AuthConfig, is_trusted: bool) -> (r: Option<u8>)
    ensures
        r == spec_select_auth_method(client_methods@, auth.enabled, is_trusted),
        r matches Some(m) ==> client_methods@.contains(m),
{
    if auth.enabled {
        if is_trusted && offers(client_methods, METHOD_NO_AUTH) {
            return Some(METHOD_NO_AUTH);
        }
        if offers(client_methods, METHOD_USER_PASS) {
            return Some(METHOD_USER_PASS);
        }
        return None;
    }
    if offers(client_methods, METHOD_NO_AUTH) {
        return Some(METHOD_NO_AUTH);
    }
    None
}

/// How far a username/password request has been received.
pub enum CredentialsProgress {
    /// The next field needs this many more bytes.
    NeedMore(usize),
    /// The request does not start with version 1.
    BadVersion,
    /// The request is complete, with these username and password bytes.
    Complete { username: Vec<u8>, password: Vec<u8> },
}

/// What a prefix `buf` of a username/password request
/// (`VER ULEN UNAME PLEN PASSWD`) shows: the bytes still missing from the
/// next field, a wrong version, or the complete request's fields.
pub enum CredentialsState {
    NeedMore(nat),
    BadVersion,
    Complete(Seq<u8>, Seq<u8>),
}

pub open spec fn spec_credentials_progress(buf: Seq<u8>) -> CredentialsState {
    if buf.len() == 0 {
        CredentialsState::NeedMore(1)
    } else if buf[0] != USER_PASS_VERSION {
        CredentialsState::BadVersion
    } else if buf.len() == 1 {
        CredentialsState::NeedMore(1)
    } else {
        let ulen = buf[1] as int;
        if buf.len() < 2 + ulen {
            CredentialsState::NeedMore((2 + ulen - buf.len()) as nat)
        } else if buf.len() == 2 + ulen {
            CredentialsState::NeedMore(1)
        } else {
            let plen = buf[2 + ulen] as int;
            if buf.len() < 3 + ulen + plen {
                CredentialsState::NeedMore((3 + ulen + plen - buf.len()) as nat)
            } else {
                CredentialsState::Complete(
                    buf.subrange(2, 2 + ulen),
                    buf.subrange(3 + ulen, 3 + ulen + plen),
                )
            }
        }
    }
}

impl View for CredentialsProgress {
    type V = CredentialsState;

    open spec fn view(&self) -> CredentialsState {
        match self {
            CredentialsProgress::NeedMore(n) => CredentialsState::NeedMore(n as nat),
            CredentialsProgress::BadVersion => CredentialsState::BadVersion,
            CredentialsProgress::Complete { username, password } => CredentialsState::Complete(
                username@,
                password@,
            ),
        }
    }
}

/// Tells how far the bytes received so far of a username/password request
/// go: how many bytes to read next, or that the request is complete.
pub fn credentials_progress(buf: &[u8]) -> (r: CredentialsProgress)
    ensures
        r@ == spec_credentials_progress(buf@),
{
    let len = buf.len();
    if len == 0 {
        return CredentialsProgress::NeedMore(1);
    }
    if buf[0] != USER_PASS_VERSION {
        return CredentialsProgress::BadVersion;
    }
    if len == 1 {
        return CredentialsProgress::NeedMore(1);
    }
    let ulen = buf[1] as usize;
    if len < 2 + ulen {
        return CredentialsProgress::NeedMore(2 + ulen - len);
    }
    if len == 2 + ulen {
        return CredentialsProgress::NeedMore(1);
    }
    let plen = buf[2 + ulen] as usize;
    if len < 3 + ulen + plen {
        return CredentialsProgress::NeedMore(3 + ulen + plen - len);
    }
    let username = crate::text::copy_range(buf, 2, 2 + ulen);
    let password = crate::text::copy_range(buf, 3 + ulen, 3 + ulen + plen);
    CredentialsProgress::Complete { username, password }
}

/// Calls subtle's `ConstantTimeEq::ct_eq` on two byte slices and turns the
/// `Choice` into a `bool`. Claimed: true exactly when the slices are equal
/// (subtle compares lengths first, then every byte).
#[verifier::external_body]
fn ct_eq_bytes(a: &[u8], b: &[u8]) -> (r: bool)
    ensures
        r == (a@ == b@),
{
    a.ct_eq(b).into()
}

/// Whether a username and password match the configured ones, byte for byte
/// (UTF-8); false where either is not configured.
pub open spec fn spec_credentials_valid(
    username: Option<Seq<char>>,
    password: Option<Seq<char>>,
    given_user: Seq<u8>,
    given_pass: Seq<u8>,
) -> bool {
    match (username, password) {
        (Some(u), Some(p)) => encode_utf8(u) == given_user && encode_utf8(p) == given_pass,
        _ => false,
    }
}

/// Checks a username and password against the configured ones; both are
/// compared in full, each in constant time, whatever the other gives.
pub fn credentials_valid(auth: &AuthConfig, username: &[u8], password: &[u8]) -> (r: bool)
    ensures
        r == spec_credentials_valid(
            view_opt_string(auth.username),
            view_opt_string(auth.password),
            username@,
            password@,
        ),
{
    let user_ok = match &auth.username {
        Some(u) => ct_eq_bytes(u.as_str().as_bytes(), username),
        None => false,
    };
    let pass_ok = match &auth.password {
        Some(p) => ct_eq_bytes(p.as_str().as_bytes(), password),
        None => false,
    };
    if user_ok {
        pass_ok
    } else {
        false
    }
}

/// The reply to a username/password request: version 1, then 0 on success
/// and 1 on failure.
pub open spec fn spec_auth_reply(valid: bool) -> Seq<u8> {
    seq![USER_PASS_VERSION, if valid { 0u8 } else { 1u8 }]
}

/// Builds the reply to a username/password request.
pub fn auth_reply(valid: bool) -> (r: Vec<u8>)
    ensures
        r@ == spec_auth_reply(valid),
{
    let mut r: Vec<u8> = Vec::new();
    r.push(USER_PASS_VERSION);
    r.push(if valid { 0 } else { 1 });
    r
}

} // verus!

//! One client's SOCKS5 session, as a state machine: it is fed what the
//! client sent, and tells the caller what to reply and what to do next, up
//! to the point where the connection is tunnelled to a Telegram DC or passed
//! through directly.

use vstd::prelude::*;
use crate::auth::{
    AuthConfig,
    CredentialsProgress,
    CredentialsState,
    METHOD_NO_AUTH,
    METHOD_NONE_ACCEPTABLE,
    METHOD_USER_PASS,
    auth_reply,
    credentials_progress,
    credentials_valid,
    spec_auth_reply,
    spec_credentials_progress,
    spec_credentials_valid,
    spec_select_auth_method,
    select_auth_method,
    view_opt_string,
};
use crate::dc::{
    choose_dc,
    dc_from_ip,
    extract_dc_from_init,
    spec_choose_dc,
    spec_dc_from_ip,
    spec_extract_dc_from_init,
};
use crate::socks::{
    SessionError,
    connect_refused,
    connect_succeeded,
    method_reply,
    parse_connect,
    parse_greeting,
    parse_ipv4,
    spec_parse_ipv4,
    spec_connect_refused,
    spec_connect_succeeded,
    spec_method_reply,
    spec_parse_connect,
    spec_parse_greeting,
    spec_target,
    target,
};

verus! {

/// Length of the obfuscated2 init packet that opens a Telegram connection.
pub const INIT_PACKET_LEN: usize = 64;

/// Where a session stands.
pub enum Phase {
    /// Waiting for the client's greeting.
    Greeting,
    /// Receiving a username/password request; these bytes have come so far.
    Credentials { received: Vec<u8> },
    /// Waiting for the CONNECT request.
    Request,
    /// Waiting for the init packet of a connection to a Telegram address of DC `ip_dc`.
    TelegramInit { dest_addr: String, dest_port: u16, ip_dc: u8 },
    /// The session has handed the connection on, or failed.
    Done,
}

/// A SOCKS5 session with one client.
pub struct Socks5Session {
    phase: Phase,
    auth: AuthConfig,
    trusted: bool,
}

/// What the caller does after writing the step's reply.
pub enum Next {
    /// Read what the client sends, up to `REQUEST_BUFFER_LEN` bytes, and hand it over.
    ReadAvailable,
    /// Read exactly this many bytes from the client and hand them over.
    ReadExact(usize),
    /// Tunnel the connection to DC `dc` over WebSocket, sending `init` first.
    Tunnel { dc: u8, init: Vec<u8>, dest_addr: String, dest_port: u16 },
    /// Connect directly to `target` (`host:port`) and pass the bytes through.
    Direct { target: String },
    /// End the session with this error.
    Fail(SessionError),
}

/// One step of a session: bytes to write to the client, whether to record
/// the client's address as trusted, and what to do next.
pub struct Step {
    pub reply: Vec<u8>,
    pub trust_client: bool,
    pub next: Next,
}

/// The model of a session's phase.
pub enum PhaseModel {
    Greeting,
    Credentials(Seq<u8>),
    Request,
    TelegramInit(Seq<char>, u16, u8),
    Done,
}

/// The model of a session: its phase and the settings it decides by.
pub struct SessionModel {
    pub phase: PhaseModel,
    pub auth_enabled: bool,
    pub username: Option<Seq<char>>,
    pub password: Option<Seq<char>>,
    pub trusted: bool,
}

/// The model of what comes next.
pub enum NextModel {
    ReadAvailable,
    ReadExact(nat),
    Tunnel(u8, Seq<u8>, Seq<char>, u16),
    Direct(Seq<char>),
    Fail(SessionError),
}

/// The model of a step.
pub struct StepModel {
    pub reply: Seq<u8>,
    pub trust_client: bool,
    pub next: NextModel,
}

impl View for Phase {
    type V = PhaseModel;

    open spec fn view(&self) -> PhaseModel {
        match self {
            Phase::Greeting => PhaseModel::Greeting,
            Phase::Credentials { received } => PhaseModel::Credentials(received@),
            Phase::Request => PhaseModel::Request,
            Phase::TelegramInit { dest_addr, dest_port, ip_dc } => PhaseModel::TelegramInit(
                dest_addr@,
                *dest_port,
                *ip_dc,
            ),
            Phase::Done => PhaseModel::Done,
        }
    }
}

impl View for Socks5Session {
    type V = SessionModel;

    closed spec fn view(&self) -> SessionModel {
        SessionModel {
            phase: self.phase@,
            auth_enabled: self.auth.enabled,
            username: view_opt_string(self.auth.username),
            password: view_opt_string(self.auth.password),
            trusted: self.trusted,
        }
    }
}

impl View for Next {
    type V = NextModel;

    open spec fn view(&self) -> NextModel {
        match self {
            Next::ReadAvailable => NextModel::ReadAvailable,
            Next::ReadExact(n) => NextModel::ReadExact(*n as nat),
            Next::Tunnel { dc, init, dest_addr, dest_port } => NextModel::Tunnel(
                *dc,
                init@,
                dest_addr@,
                *dest_port,
            ),
            Next::Direct { target } => NextModel::Direct(target@),
            Next::Fail(e) => NextModel::Fail(*e),
        }
    }
}

impl View for Step {
    type V = StepModel;

    open spec fn view(&self) -> StepModel {
        StepModel { reply: self.reply@, trust_client: self.trust_client, next: self.next@ }
    }
}

/// A step that only says what comes next.
pub open spec fn quiet(next: NextModel) -> StepModel {
    StepModel { reply: Seq::empty(), trust_client: false, next }
}

/// The session after a step, in phase `phase`.
pub open spec fn with_phase(s: SessionModel, phase: PhaseModel) -> SessionModel {
    SessionModel { phase, ..s }
}

/// The DC of a destination that is a Telegram address: the destination
/// read as a dotted IPv4 address, mapped to its DC.
pub open spec fn spec_dest_dc(addr: Seq<char>) -> Option<u8> {
    match spec_parse_ipv4(addr) {
        Some(o) => spec_dc_from_ip(o),
        None => None,
    }
}

/// How a session in state `s` responds to the bytes `d` read from the client:
/// its next state and the step.
pub open spec fn spec_step(s: SessionModel, d: Seq<u8>) -> (SessionModel, StepModel) {
    match s.phase {
        PhaseModel::Greeting => match spec_parse_greeting(d) {
            Err(err) => (with_phase(s, PhaseModel::Done), quiet(NextModel::Fail(err))),
            Ok(methods) => match spec_select_auth_method(methods, s.auth_enabled, s.trusted) {
                None => (
                    with_phase(s, PhaseModel::Done),
                    StepModel {
                        reply: spec_method_reply(METHOD_NONE_ACCEPTABLE),
                        trust_client: false,
                        next: NextModel::Fail(SessionError::NoAcceptableMethod),
                    },
                ),
                Some(m) => if m == METHOD_USER_PASS {
                    (
                        with_phase(s, PhaseModel::Credentials(Seq::empty())),
                        StepModel {
                            reply: spec_method_reply(METHOD_USER_PASS),
                            trust_client: false,
                            next: NextModel::ReadExact(1),
                        },
                    )
                } else {
                    (
                        with_phase(s, PhaseModel::Request),
                        StepModel {
                            reply: spec_method_reply(METHOD_NO_AUTH),
                            trust_client: true,
                            next: NextModel::ReadAvailable,
                        },
                    )
                },
            },
        },
        PhaseModel::Credentials(buf) => {
            let b = buf + d;
            match spec_credentials_progress(b) {
                CredentialsState::NeedMore(n) => (
                    with_phase(s, PhaseModel::Credentials(b)),
                    quiet(NextModel::ReadExact(n)),
                ),
                CredentialsState::BadVersion => (
                    with_phase(s, PhaseModel::Done),
                    quiet(NextModel::Fail(SessionError::AuthenticationFailed)),
                ),
                CredentialsState::Complete(u, p) => if spec_credentials_valid(
                    s.username,
                    s.password,
                    u,
                    p,
                ) {
                    (
                        with_phase(s, PhaseModel::Request),
                        StepModel {
                            reply: spec_auth_reply(true),
                            trust_client: true,
                            next: NextModel::ReadAvailable,
                        },
                    )
                } else {
                    (
                        with_phase(s, PhaseModel::Done),
                        StepModel {
                            reply: spec_auth_reply(false),
                            trust_client: false,
                            next: NextModel::Fail(SessionError::AuthenticationFailed),
                        },
                    )
                },
            }
        },
        PhaseModel::Request => match spec_parse_connect(d) {
            Err(err) => (
                with_phase(s, PhaseModel::Done),
                StepModel {
                    reply: if err == SessionError::BadConnect {
                        spec_connect_refused()
                    } else {
                        Seq::empty()
                    },
                    trust_client: false,
                    next: NextModel::Fail(err),
                },
            ),
            Ok((addr, port)) => match spec_dest_dc(addr) {
                Some(dc) => (
                    with_phase(s, PhaseModel::TelegramInit(addr, port, dc)),
                    StepModel {
                        reply: spec_connect_succeeded(),
                        trust_client: false,
                        next: NextModel::ReadExact(INIT_PACKET_LEN as nat),
                    },
                ),
                None => (
                    with_phase(s, PhaseModel::Done),
                    StepModel {
                        reply: spec_connect_succeeded(),
                        trust_client: false,
                        next: NextModel::Direct(spec_target(addr, port)),
                    },
                ),
            },
        },
        PhaseModel::TelegramInit(addr, port, ip_dc) => if d.len() == INIT_PACKET_LEN {
            (
                with_phase(s, PhaseModel::Done),
                quiet(
                    NextModel::Tunnel(
                        spec_choose_dc(spec_extract_dc_from_init(d), Some(ip_dc)),
                        d,
                        addr,
                        port,
                    ),
                ),
            )
        } else {
            (with_phase(s, PhaseModel::Done), quiet(NextModel::Fail(SessionError::UnexpectedEvent)))
        },
        PhaseModel::Done => (
            with_phase(s, PhaseModel::Done),
            quiet(NextModel::Fail(SessionError::UnexpectedEvent)),
        ),
    }
}

fn append_bytes(v: &mut Vec<u8>, d: &[u8])
    ensures
        final(v)@ == old(v)@ + d@,
{
    let mut i: usize = 0;
    while i < d.len()
        invariant
            i <= d@.len(),
            v@ == old(v)@ + d@.subrange(0, i as int),
        decreases d@.len() - i,
    {
        v.push(d[i]);
        i = i + 1;
        assert(v@ =~= old(v)@ + d@.subrange(0, i as int));
    }
    assert(d@.subrange(0, d@.len() as int) =~= d@);
}

fn quiet_step(next: Next) -> (r: Step)
    ensures
        r@ == quiet(next@),
{
    Step { reply: Vec::new(), trust_client: false, next }
}

impl Socks5Session {
    /// A session waiting for the greeting of a client; `trusted` tells whether
    /// the client's address has a fresh trusted record.
    pub fn new(auth: AuthConfig, trusted: bool) -> (r: Socks5Session)
        ensures
            r@ == (SessionModel {
                phase: PhaseModel::Greeting,
                auth_enabled: auth.enabled,
                username: view_opt_string(auth.username),
                password: view_opt_string(auth.password),
                trusted,
            }),
    {
        Socks5Session { phase: Phase::Greeting, auth, trusted }
    }

    /// Whether the session has ended.
    pub fn is_done(&self) -> (r: bool)
        ensures
            r == (self@.phase is Done),
    {
        match self.phase {
            Phase::Done => true,
            _ => false,
        }
    }

    /// Feeds the session the bytes read from the client; returns what to
    /// reply and do next.
    pub fn step(&mut self, data: &[u8]) -> (r: Step)
        ensures
            (final(self)@, r@) == spec_step(old(self)@, data@),
    {
        let mut phase = Phase::Done;
        core::mem::swap(&mut phase, &mut self.phase);
        match phase {
            Phase::Greeting => match parse_greeting(data) {
                Err(err) => quiet_step(Next::Fail(err)),
                Ok(methods) => match select_auth_method(methods.as_slice(), &self.auth, self.trusted) {
                    None => Step {
                        reply: method_reply(METHOD_NONE_ACCEPTABLE),
                        trust_client: false,
                        next: Next::Fail(SessionError::NoAcceptableMethod),
                    },
                    Some(m) => if m == METHOD_USER_PASS {
                        self.phase = Phase::Credentials { received: Vec::new() };
                        Step {
                            reply: method_reply(METHOD_USER_PASS),
                            trust_client: false,
                            next: Next::ReadExact(1),
                        }
                    } else {
                        self.phase = Phase::Request;
                        Step {
                            reply: method_reply(METHOD_NO_AUTH),
                            trust_client: true,
                            next: Next::ReadAvailable,
                        }
                    },
                },
            },
            Phase::Credentials { received } => {
                let mut b = received;
                append_bytes(&mut b, data);
                match credentials_progress(b.as_slice()) {
                    CredentialsProgress::NeedMore(n) => {
                        self.phase = Phase::Credentials { received: b };
                        quiet_step(Next::ReadExact(n))
                    },
                    CredentialsProgress::BadVersion => quiet_step(
                        Next::Fail(SessionError::AuthenticationFailed),
                    ),
                    CredentialsProgress::Complete { username, password } => {
                        if credentials_valid(&self.auth, username.as_slice(), password.as_slice()) {
                            self.phase = Phase::Request;
                            Step {
                                reply: auth_reply(true),
                                trust_client: true,
                                next: Next::ReadAvailable,
                            }
                        } else {
                            Step {
                                reply: auth_reply(false),
                                trust_client: false,
                                next: Next::Fail(SessionError::AuthenticationFailed),
                            }
                        }
                    },
                }
            },
            Phase::Request => match parse_connect(data) {
                Err(err) => {
                    let reply = match err {
                        SessionError::BadConnect => connect_refused(),
                        _ => Vec::new(),
                    };
                    Step { reply, trust_client: false, next: Next::Fail(err) }
                },
                Ok((addr, port)) => {
                    let ip_dc = match parse_ipv4(addr.as_str()) {
                        Some(o) => dc_from_ip(o),
                        None => None,
                    };
                    match ip_dc {
                        Some(dc) => {
                            self.phase = Phase::TelegramInit { dest_addr: addr, dest_port: port, ip_dc: dc };
                            Step {
                                reply: connect_succeeded(),
                                trust_client: false,
                                next: Next::ReadExact(INIT_PACKET_LEN),
                            }
                        },
                        None => Step {
                            reply: connect_succeeded(),
                            trust_client: false,
                            next: Next::Direct { target: target(addr.as_str(), port) },
                        },
                    }
                },
            },
            Phase::TelegramInit { dest_addr, dest_port, ip_dc } => {
                if data.len() == INIT_PACKET_LEN {
                    let mut init = [0u8; 64];
                    let mut i: usize = 0;
                    while i < INIT_PACKET_LEN
                        invariant
                            data@.len() == INIT_PACKET_LEN,
                            i <= INIT_PACKET_LEN,
                            forall|j: int| 0 <= j < i ==> init@[j] == data@[j],
                        decreases INIT_PACKET_LEN - i,
                    {
                        init[i] = data[i];
                        i = i + 1;
                    }
                    assert(init@ =~= data@);
                    let dc = choose_dc(extract_dc_from_init(&init), Some(ip_dc));
                    let mut init_bytes: Vec<u8> = Vec::new();
                    append_bytes(&mut init_bytes, data);
                    quiet_step(Next::Tunnel { dc, init: init_bytes, dest_addr, dest_port })
                } else {
                    quiet_step(Next::Fail(SessionError::UnexpectedEvent))
                }
            },
            Phase::Done => quiet_step(Next::Fail(SessionError::UnexpectedEvent)),
        }
    }
}

} // verus!

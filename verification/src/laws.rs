//! Properties of the proxy as a whole, each proved from the functions'
//! own contracts.

use vstd::prelude::*;
use vstd::utf8::encode_utf8;
use crate::auth::{
    CredentialsState,
    METHOD_NO_AUTH,
    METHOD_NONE_ACCEPTABLE,
    METHOD_USER_PASS,
    USER_PASS_VERSION,
    spec_credentials_progress,
    spec_credentials_valid,
    spec_select_auth_method,
};
use crate::dc::{
    abs,
    le_i32,
    spec_decrypt_init,
    spec_dc_from_decrypted,
    spec_dc_from_ip,
    spec_extract_dc_from_init,
    spec_is_telegram_ip,
};
use crate::relay::{RelayActionModel, RelayEventModel, spec_relay_decide};
use crate::session::{
    INIT_PACKET_LEN,
    NextModel,
    PhaseModel,
    SessionModel,
    spec_step,
};
use crate::socks::{
    SOCKS_VERSION,
    SessionError,
    lemma_ipv4_text_roundtrip,
    spec_method_reply,
    spec_parse_connect,
    spec_parse_greeting,
    spec_parse_ipv4,
};
use crate::tracker::{ConnectionTracker, spec_acquired};
use crate::trusted::{TrustedIps, fresh, TRUSTED_EXPIRY_SECS, NANOS_PER_SEC};

verus! {

/// Every DC that an address maps to lies in 1..=5.
pub proof fn law_ip_dc_in_range(o: Seq<u8>)
    requires
        o.len() == 4,
    ensures
        spec_dc_from_ip(o) matches Some(dc) ==> 1 <= dc <= 5,
{
}

/// Every DC read from a decrypted init packet lies in 1..=5.
pub proof fn law_init_dc_in_range(dec: Seq<u8>)
    ensures
        spec_dc_from_decrypted(dec) matches Some(dc) ==> 1 <= dc <= 5,
{
}

/// The state invariant of a session: a remembered DC lies in 1..=5.
pub open spec fn session_inv(s: SessionModel) -> bool {
    s.phase matches PhaseModel::TelegramInit(_, _, dc) ==> 1 <= dc <= 5
}

/// Every step keeps the state invariant; a new session, in the greeting
/// phase, has it.
pub proof fn law_session_inv_kept(s: SessionModel, d: Seq<u8>)
    requires
        session_inv(s),
    ensures
        session_inv(spec_step(s, d).0),
{
}

/// A session only ever tunnels to DCs 1..=5, and only with an init packet
/// of 64 bytes.
pub proof fn law_tunnel_dc_in_range(s: SessionModel, d: Seq<u8>)
    requires
        session_inv(s),
    ensures
        spec_step(s, d).1.next matches NextModel::Tunnel(dc, init, _, _) ==> 1 <= dc <= 5
            && init.len() == INIT_PACKET_LEN,
{
    if let PhaseModel::TelegramInit(addr, port, ip_dc) = s.phase {
        if d.len() == INIT_PACKET_LEN {
            law_init_dc_in_range(crate::dc::spec_decrypt_init(d));
        }
    }
}

/// Telegram destinations are tunnelled, all others passed through: a
/// CONNECT request that the session accepts is answered with success, and
/// the session then reads the init packet exactly when the destination, read
/// as a dotted IPv4 address, is a Telegram DC address, and connects directly
/// otherwise.
pub proof fn law_telegram_or_direct(s: SessionModel, d: Seq<u8>, addr: Seq<char>, port: u16)
    requires
        s.phase == PhaseModel::Request,
        spec_parse_connect(d) == Ok::<(Seq<char>, u16), SessionError>((addr, port)),
    ensures
        ({
            let st = spec_step(s, d).1;
            &&& st.reply == crate::socks::spec_connect_succeeded()
            &&& spec_is_telegram_ip(spec_parse_ipv4(addr)) ==> st.next == NextModel::ReadExact(
                INIT_PACKET_LEN as nat,
            )
            &&& !spec_is_telegram_ip(spec_parse_ipv4(addr)) ==> st.next == NextModel::Direct(
                crate::socks::spec_target(addr, port),
            )
        }),
{
}

/// A CONNECT request to an IPv4 address is tunnelled exactly when its four
/// octets are a Telegram DC address: the address text the request is read
/// into reads back as the same octets.
pub proof fn law_ipv4_destination_by_octets(s: SessionModel, d: Seq<u8>)
    requires
        s.phase == PhaseModel::Request,
        d.len() >= 10,
        d[0] == SOCKS_VERSION,
        d[1] == 0x01u8,
        d[3] == 0x01u8,
    ensures
        (spec_step(s, d).1.next == NextModel::ReadExact(INIT_PACKET_LEN as nat)) == (spec_dc_from_ip(
            d.subrange(4, 8),
        ) is Some),
        spec_step(s, d).1.next is Direct == (spec_dc_from_ip(d.subrange(4, 8)) is None),
{
    let rest = d.subrange(3, d.len() as int);
    assert(rest.subrange(1, 5) =~= d.subrange(4, 8));
    assert(rest[0] == 0x01u8);
    lemma_ipv4_text_roundtrip(d.subrange(4, 8));
}

/// With authentication off, the proxy accepts "no authentication" when
/// offered and refuses the client otherwise.
pub proof fn law_no_auth_by_default(methods: Seq<u8>, is_trusted: bool)
    ensures
        spec_select_auth_method(methods, false, is_trusted) == (if methods.contains(METHOD_NO_AUTH) {
            Some(METHOD_NO_AUTH)
        } else {
            None
        }),
{
}

/// With authentication on, a client whose address is trusted is let in
/// without authentication when it offers that; a trusted client that does
/// not offer it is treated like any other.
pub proof fn law_trusted_bypass(methods: Seq<u8>)
    ensures
        methods.contains(METHOD_NO_AUTH) ==> spec_select_auth_method(methods, true, true) == Some(
            METHOD_NO_AUTH,
        ),
        !methods.contains(METHOD_NO_AUTH) ==> spec_select_auth_method(methods, true, true)
            == spec_select_auth_method(methods, true, false),
{
}

/// The method chosen is always one the client offered, and always "no
/// authentication" or username/password.
pub proof fn law_method_offered(methods: Seq<u8>, enabled: bool, is_trusted: bool)
    ensures
        spec_select_auth_method(methods, enabled, is_trusted) matches Some(m) ==> (m == METHOD_NO_AUTH
            || m == METHOD_USER_PASS) && methods.contains(m),
{
}

/// With authentication on, a client that is not trusted must authenticate:
/// its greeting never takes the session straight to the request phase; it
/// is asked for username/password when it offers it and refused otherwise.
pub proof fn law_auth_required(s: SessionModel, d: Seq<u8>)
    requires
        s.phase == PhaseModel::Greeting,
        s.auth_enabled,
        !s.trusted,
    ensures
        spec_step(s, d).0.phase != PhaseModel::Request,
        !spec_step(s, d).1.trust_client,
        spec_parse_greeting(d) matches Ok(m) ==> if m.contains(METHOD_USER_PASS) {
            &&& spec_step(s, d).0.phase == PhaseModel::Credentials(Seq::empty())
            &&& spec_step(s, d).1.reply == spec_method_reply(METHOD_USER_PASS)
        } else {
            &&& spec_step(s, d).0.phase == PhaseModel::Done
            &&& spec_step(s, d).1.reply == spec_method_reply(METHOD_NONE_ACCEPTABLE)
        },
{
}

/// The session was at the greeting, and the greeting chose "no authentication".
pub open spec fn greeting_chose_no_auth(s: SessionModel, d: Seq<u8>) -> bool {
    s.phase == PhaseModel::Greeting && match spec_parse_greeting(d) {
        Ok(m) => spec_select_auth_method(m, s.auth_enabled, s.trusted) == Some(METHOD_NO_AUTH),
        Err(_) => false,
    }
}

/// The session was receiving credentials, and the event completed a request
/// whose username and password match the configured ones.
pub open spec fn credentials_accepted(s: SessionModel, d: Seq<u8>) -> bool {
    match s.phase {
        PhaseModel::Credentials(buf) => match spec_credentials_progress(buf + d) {
            CredentialsState::Complete(u, p) => spec_credentials_valid(s.username, s.password, u, p),
            _ => false,
        },
        _ => false,
    }
}

/// The request phase is reached only through a successful negotiation: from
/// the greeting with "no authentication" chosen, or from username/password
/// sub-negotiation with credentials equal to the configured ones.
pub proof fn law_request_only_after_negotiation(s: SessionModel, d: Seq<u8>)
    requires
        s.phase != PhaseModel::Request,
        spec_step(s, d).0.phase == PhaseModel::Request,
    ensures
        greeting_chose_no_auth(s, d) || credentials_accepted(s, d),
{
}

/// The state a session reaches from `s` through the events `es`, in order.
pub open spec fn run(s: SessionModel, es: Seq<Seq<u8>>) -> SessionModel
    decreases es.len(),
{
    if es.len() == 0 {
        s
    } else {
        spec_step(run(s, es.drop_last()), es.last()).0
    }
}

/// The session has negotiated a method and waits for, or handles, a request.
pub open spec fn past_negotiation(p: PhaseModel) -> bool {
    p is Request || p is TelegramInit
}

/// Somewhere along `es` from `s`, the greeting chose "no authentication" or
/// a username/password request matched the configured credentials.
pub open spec fn negotiated_along(s: SessionModel, es: Seq<Seq<u8>>) -> bool {
    exists|i: int|
        0 <= i < es.len() && (greeting_chose_no_auth(run(s, es.take(i)), es[i])
            || credentials_accepted(run(s, es.take(i)), es[i]))
}

/// Over any sequence of events, a session that started at the greeting gets
/// past negotiation only if, on the way, "no authentication" was chosen or
/// the client sent the configured username and password.
pub proof fn law_no_request_without_negotiation(s: SessionModel, es: Seq<Seq<u8>>)
    requires
        s.phase == PhaseModel::Greeting,
    ensures
        past_negotiation(run(s, es).phase) ==> negotiated_along(s, es),
    decreases es.len(),
{
    if es.len() > 0 {
        let prev = es.drop_last();
        let last = es.last();
        let n = prev.len() as int;
        assert(es.take(n) =~= prev);
        law_no_request_without_negotiation(s, prev);
        let before = run(s, prev);
        if past_negotiation(run(s, es).phase) {
            if past_negotiation(before.phase) {
                let i = choose|i: int|
                    0 <= i < prev.len() && (greeting_chose_no_auth(run(s, prev.take(i)), prev[i])
                        || credentials_accepted(run(s, prev.take(i)), prev[i]));
                assert(es.take(i) =~= prev.take(i));
                assert(es[i] == prev[i]);
            } else {
                assert(run(s, es) == spec_step(before, last).0);
                assert(spec_step(before, last).0.phase == PhaseModel::Request);
                law_request_only_after_negotiation(before, last);
                assert(run(s, es.take(n)) == before);
                assert(es[n] == last);
            }
        }
    }
}

/// A run keeps the settings a session decides by.
pub proof fn lemma_run_keeps_settings(s: SessionModel, es: Seq<Seq<u8>>)
    ensures
        run(s, es).auth_enabled == s.auth_enabled,
        run(s, es).trusted == s.trusted,
        run(s, es).username == s.username,
        run(s, es).password == s.password,
    decreases es.len(),
{
    if es.len() > 0 {
        lemma_run_keeps_settings(s, es.drop_last());
    }
}

/// With authentication on, over any sequence of events from the greeting,
/// a client that was not trusted gets past negotiation only after sending
/// the configured username and password.
pub proof fn law_credentials_required(s: SessionModel, es: Seq<Seq<u8>>)
    requires
        s.phase == PhaseModel::Greeting,
        s.auth_enabled,
        !s.trusted,
    ensures
        past_negotiation(run(s, es).phase) ==> exists|i: int|
            0 <= i < es.len() && credentials_accepted(run(s, es.take(i)), es[i]),
{
    law_no_request_without_negotiation(s, es);
    if past_negotiation(run(s, es).phase) {
        let i = choose|i: int|
            0 <= i < es.len() && (greeting_chose_no_auth(run(s, es.take(i)), es[i])
                || credentials_accepted(run(s, es.take(i)), es[i]));
        lemma_run_keeps_settings(s, es.take(i));
        assert(credentials_accepted(run(s, es.take(i)), es[i]));
    }
}

/// A connection is handed on only from a session past negotiation: over any
/// sequence of events from the greeting, a step that tunnels or connects
/// directly comes after "no authentication" was chosen or the configured
/// credentials were sent.
pub proof fn law_connection_only_after_negotiation(s: SessionModel, es: Seq<Seq<u8>>, d: Seq<u8>)
    requires
        s.phase == PhaseModel::Greeting,
    ensures
        (spec_step(run(s, es), d).1.next is Tunnel || spec_step(run(s, es), d).1.next is Direct)
            ==> negotiated_along(s, es),
{
    law_no_request_without_negotiation(s, es);
}

/// A client that authenticates with valid credentials is told so and its
/// address is recorded as trusted.
pub proof fn law_valid_credentials_trusted(s: SessionModel, buf: Seq<u8>, d: Seq<u8>, u: Seq<u8>, p: Seq<u8>)
    requires
        s.phase == PhaseModel::Credentials(buf),
        spec_credentials_progress(buf + d) == CredentialsState::Complete(u, p),
        spec_credentials_valid(s.username, s.password, u, p),
    ensures
        spec_step(s, d).1.trust_client,
        spec_step(s, d).1.reply == seq![USER_PASS_VERSION, 0u8],
{
}

/// Invalid credentials are refused with status 1 and end the session.
pub proof fn law_invalid_credentials_refused(s: SessionModel, buf: Seq<u8>, d: Seq<u8>, u: Seq<u8>, p: Seq<u8>)
    requires
        s.phase == PhaseModel::Credentials(buf),
        spec_credentials_progress(buf + d) == CredentialsState::Complete(u, p),
        !spec_credentials_valid(s.username, s.password, u, p),
    ensures
        spec_step(s, d).0.phase == PhaseModel::Done,
        spec_step(s, d).1.reply == seq![USER_PASS_VERSION, 1u8],
        spec_step(s, d).1.next == NextModel::Fail(SessionError::AuthenticationFailed),
        !spec_step(s, d).1.trust_client,
{
}

/// Every reply to a greeting is version 5 with the chosen method, or
/// "no acceptable methods" when none is acceptable.
pub proof fn law_greeting_reply(s: SessionModel, d: Seq<u8>)
    requires
        s.phase == PhaseModel::Greeting,
    ensures
        ({
            let st = spec_step(s, d).1;
            ||| st.reply.len() == 0
            ||| st.reply == spec_method_reply(METHOD_NO_AUTH)
            ||| st.reply == spec_method_reply(METHOD_USER_PASS)
            ||| st.reply == spec_method_reply(METHOD_NONE_ACCEPTABLE)
        }),
        spec_step(s, d).1.reply.len() > 0 ==> spec_step(s, d).1.reply[0]
            == SOCKS_VERSION,
{
}

/// A session that has ended stays ended and refuses whatever comes.
pub proof fn law_done_is_final(s: SessionModel, d: Seq<u8>)
    requires
        s.phase == PhaseModel::Done,
    ensures
        spec_step(s, d).0.phase == PhaseModel::Done,
        spec_step(s, d).1.next == NextModel::Fail(SessionError::UnexpectedEvent),
        spec_step(s, d).1.reply.len() == 0,
{
}

/// Reading exactly what the sub-negotiation asks for never reads past a
/// complete username/password request, and a complete request yields its
/// username and password.
pub proof fn law_credentials_reads_exact(user: Seq<u8>, pass: Seq<u8>, k: int)
    requires
        user.len() <= 255,
        pass.len() <= 255,
        0 <= k <= 3 + user.len() + pass.len(),
    ensures
        ({
            let req = seq![USER_PASS_VERSION, user.len() as u8] + user + seq![pass.len() as u8] + pass;
            &&& spec_credentials_progress(req) == CredentialsState::Complete(user, pass)
            &&& k < req.len() ==> (spec_credentials_progress(req.take(k)) matches CredentialsState::NeedMore(
                n,
            ) && 0 < n && k + n <= req.len())
        }),
{
    let req = seq![USER_PASS_VERSION, user.len() as u8] + user + seq![pass.len() as u8] + pass;
    let ul = user.len() as int;
    let pl = pass.len() as int;
    assert(req.len() == 3 + ul + pl);
    assert(req[0] == USER_PASS_VERSION);
    assert(req[1] == user.len() as u8);
    assert(req[2 + ul] == pass.len() as u8);
    assert(req.subrange(2, 2 + ul) =~= user);
    assert(req.subrange(3 + ul, 3 + ul + pl) =~= pass);
    if k < req.len() {
        let pre = req.take(k);
        if k >= 1 {
            assert(pre[0] == req[0]);
        }
        if k >= 2 {
            assert(pre[1] == req[1]);
        }
        if k >= 3 + ul {
            assert(pre[2 + ul] == req[2 + ul]);
        }
    }
}

/// A connection recorded at `t` keeps its client trusted for exactly the
/// expiry that follows: at every `now` in `t .. t + expiry`, and at no other.
pub proof fn law_trust_window(tips: TrustedIps, ip: Seq<char>, t: i128, now: i128)
    ensures
        TrustedIps::spec_trusted(tips@.insert(ip, t), tips.expiry(), ip, now) == (t <= now && now - t
            < tips.expiry()),
{
}

/// A cleanup between a record and a later query does not change the answer:
/// a connection recorded at `t0`, a cleanup at `t1`, and a query at `now`
/// (in that order) give trust exactly while `now` is within the expiry of `t0`.
pub proof fn law_trust_across_cleanup(tips: TrustedIps, ip: Seq<char>, t0: i128, t1: i128, now: i128)
    requires
        t0 <= t1 <= now,
    ensures
        TrustedIps::spec_trusted(
            TrustedIps::spec_fresh_part(tips@.insert(ip, t0), tips.expiry(), t1),
            tips.expiry(),
            ip,
            now,
        ) == (now - t0 < tips.expiry()),
{
}

/// A record in a new table lasts exactly ten minutes: recorded at `t0` and
/// queried at `now`, with or without a cleanup at `t1` in between, the
/// address is trusted exactly when `now - t0` is under 600 seconds.
pub proof fn law_trusted_ten_minutes(tips: TrustedIps, ip: Seq<char>, t0: i128, t1: i128, now: i128)
    requires
        tips.expiry() == TRUSTED_EXPIRY_SECS as i128 * NANOS_PER_SEC,
        t0 <= t1 <= now,
    ensures
        TrustedIps::spec_trusted(tips@.insert(ip, t0), tips.expiry(), ip, now) == (now - t0 < 600
            * NANOS_PER_SEC),
        TrustedIps::spec_trusted(
            TrustedIps::spec_fresh_part(tips@.insert(ip, t0), tips.expiry(), t1),
            tips.expiry(),
            ip,
            now,
        ) == (now - t0 < 600 * NANOS_PER_SEC),
{
}

/// Recording one client leaves the trust of every other client unchanged.
pub proof fn law_record_isolated(tips: TrustedIps, ip: Seq<char>, other: Seq<char>, t: i128, now: i128)
    requires
        other != ip,
    ensures
        TrustedIps::spec_trusted(tips@.insert(ip, t), tips.expiry(), other, now)
            == TrustedIps::spec_trusted(tips@, tips.expiry(), other, now),
{
}

/// Cleaning up at `now` changes no client's trust at `now`, and keeps no
/// record that is stale at `now`.
pub proof fn law_cleanup_keeps_trust(tips: TrustedIps, ip: Seq<char>, now: i128)
    ensures
        TrustedIps::spec_trusted(
            TrustedIps::spec_fresh_part(tips@, tips.expiry(), now),
            tips.expiry(),
            ip,
            now,
        ) == TrustedIps::spec_trusted(tips@, tips.expiry(), ip, now),
        forall|k: Seq<char>| #[trigger]
            TrustedIps::spec_fresh_part(tips@, tips.expiry(), now).contains_key(k) ==> fresh(
                tips@[k],
                now,
                tips.expiry(),
            ),
{
}

/// No address ever holds more slots than the cap, and every tracked address
/// holds at least one.
pub proof fn law_tracker_capped(tr: ConnectionTracker, ip: Seq<char>)
    requires
        tr.wf(),
    ensures
        tr@.contains_key(ip) ==> 0 < tr@[ip].len() <= tr.max(),
{
    tr.lemma_wf_view();
}

/// One more connection at the cap gives up the oldest slot: the count stays
/// at the cap and the slots are the newest ones, ending with the new one.
pub proof fn law_tracker_fifo(tr: ConnectionTracker, ip: Seq<char>, now: i128)
    requires
        tr.wf(),
        tr@.contains_key(ip),
        tr@[ip].len() == tr.max(),
    ensures
        ({
            let after = ConnectionTracker::spec_after_acquire(tr@, tr.max(), ip, now)[ip];
            &&& after.len() == tr.max()
            &&& after == tr@[ip].drop_first().push(now)
        }),
{
    tr.lemma_wf_view();
}

/// Below the cap, taking a slot and then giving one up leaves the tracker as
/// it was.
pub proof fn law_acquire_release(tr: ConnectionTracker, ip: Seq<char>, now: i128)
    requires
        tr.wf(),
        !tr@.contains_key(ip) || tr@[ip].len() < tr.max(),
    ensures
        ConnectionTracker::spec_after_release(
            ConnectionTracker::spec_after_acquire(tr@, tr.max(), ip, now),
            ip,
        ) == tr@,
{
    tr.lemma_wf_view();
    let m = tr@;
    let a = ConnectionTracker::spec_after_acquire(m, tr.max(), ip, now);
    let r = ConnectionTracker::spec_after_release(a, ip);
    if m.contains_key(ip) {
        assert(spec_acquired(m[ip], tr.max(), now).drop_last() =~= m[ip]);
        assert(r =~= m);
    } else {
        assert(r =~= m);
    }
}

/// The tunnel passes data both ways unchanged, answers pings with the same
/// payload, and ends when either side closes or fails.
pub proof fn law_relay_passes_data(d: Seq<u8>)
    ensures
        spec_relay_decide(RelayEventModel::ServerBinary(d)) == RelayActionModel::ForwardToClient(d),
        d.len() > 0 ==> spec_relay_decide(RelayEventModel::ClientRead(d))
            == RelayActionModel::ForwardToServer(d),
        spec_relay_decide(RelayEventModel::ServerPing(d)) == RelayActionModel::SendPong(d),
        spec_relay_decide(RelayEventModel::ClientRead(Seq::empty())) == RelayActionModel::Stop,
        spec_relay_decide(RelayEventModel::ServerClose) == RelayActionModel::Stop,
        spec_relay_decide(RelayEventModel::ServerEnded) == RelayActionModel::Stop,
        spec_relay_decide(RelayEventModel::ServerError) == RelayActionModel::Stop,
        spec_relay_decide(RelayEventModel::ClientError) == RelayActionModel::Stop,
{
}

/// Whether an event ends the tunnel: either side closing, ending or failing.
pub open spec fn ends_tunnel(e: RelayEventModel) -> bool {
    match e {
        RelayEventModel::ClientRead(d) => d.len() == 0,
        RelayEventModel::ClientError => true,
        RelayEventModel::ServerClose => true,
        RelayEventModel::ServerEnded => true,
        RelayEventModel::ServerError => true,
        _ => false,
    }
}

/// The bytes the tunnel forwards to the server over a sequence of events,
/// in order, up to the action that ends it.
pub open spec fn forwarded_to_server(es: Seq<RelayEventModel>) -> Seq<u8>
    decreases es.len(),
{
    if es.len() == 0 {
        Seq::empty()
    } else {
        match spec_relay_decide(es[0]) {
            RelayActionModel::Stop => Seq::empty(),
            RelayActionModel::ForwardToServer(d) => d + forwarded_to_server(es.drop_first()),
            _ => forwarded_to_server(es.drop_first()),
        }
    }
}

/// The bytes the tunnel forwards to the client, likewise.
pub open spec fn forwarded_to_client(es: Seq<RelayEventModel>) -> Seq<u8>
    decreases es.len(),
{
    if es.len() == 0 {
        Seq::empty()
    } else {
        match spec_relay_decide(es[0]) {
            RelayActionModel::Stop => Seq::empty(),
            RelayActionModel::ForwardToClient(d) => d + forwarded_to_client(es.drop_first()),
            _ => forwarded_to_client(es.drop_first()),
        }
    }
}

/// What the client sent, in order, up to the first event that ends the tunnel.
pub open spec fn client_stream(es: Seq<RelayEventModel>) -> Seq<u8>
    decreases es.len(),
{
    if es.len() == 0 || ends_tunnel(es[0]) {
        Seq::empty()
    } else {
        match es[0] {
            RelayEventModel::ClientRead(d) => d + client_stream(es.drop_first()),
            _ => client_stream(es.drop_first()),
        }
    }
}

/// What the server sent in binary messages, in order, up to the first event
/// that ends the tunnel.
pub open spec fn server_stream(es: Seq<RelayEventModel>) -> Seq<u8>
    decreases es.len(),
{
    if es.len() == 0 || ends_tunnel(es[0]) {
        Seq::empty()
    } else {
        match es[0] {
            RelayEventModel::ServerBinary(d) => d + server_stream(es.drop_first()),
            _ => server_stream(es.drop_first()),
        }
    }
}

/// Over any sequence of events, the tunnel forwards to each side exactly
/// what the other side sent, in the order it was sent, up to the first
/// close, end of stream or error (where every forward succeeds).
pub proof fn law_relay_preserves_streams(es: Seq<RelayEventModel>)
    ensures
        forwarded_to_server(es) == client_stream(es),
        forwarded_to_client(es) == server_stream(es),
    decreases es.len(),
{
    if es.len() > 0 {
        law_relay_preserves_streams(es.drop_first());
    }
}

/// Only Telegram's networks map to a DC: an address with a DC starts with
/// 149.154, 91.108, 91.105 or 185.76.
pub proof fn law_dc_only_telegram_prefixes(o: Seq<u8>)
    requires
        o.len() == 4,
    ensures
        spec_dc_from_ip(o) is Some ==> (o[0] == 149 && o[1] == 154) || (o[0] == 91 && o[1] == 108)
            || (o[0] == 91 && o[1] == 105) || (o[0] == 185 && o[1] == 76),
{
}

/// The DC table: which third octets of which networks belong to which DC,
/// and that nothing else maps to a DC.
pub proof fn law_dc_table(o: Seq<u8>, k: u8)
    requires
        o.len() == 4,
    ensures
        (spec_dc_from_ip(o) == Some(k)) == ({
        ||| (k == 1 && o[0] == 149 && o[1] == 154 && 160 <= o[2]
            <= 163)
        ||| (k == 2 && o[0] == 149 && o[1] == 154 && 164 <= o[2] <= 167)
        ||| (k == 3 && o[0] == 149 && o[1] == 154 && 168 <= o[2] <= 171)
        ||| (k == 1 && o[0] == 149 && o[1] == 154 && 172 <= o[2] <= 175)
        ||| (k == 5 && o[0] == 91 && o[1] == 108 && 56 <= o[2] <= 59)
        ||| (k == 3 && o[0] == 91 && o[1] == 108 && 8 <= o[2] <= 11)
        ||| (k == 4 && o[0] == 91 && o[1] == 108 && 12 <= o[2] <= 15)
        ||| (k == 2 && o[0] == 91 && o[1] == 105)
        ||| (k == 2 && o[0] == 185 && o[1] == 76)
        }),
{
}

/// The init packet's DC wins: once a Telegram destination is accepted, a
/// 64-byte init packet whose decryption (key bytes 8..40, IV 40..56) holds,
/// as a little-endian `i32` in bytes 60..64, an id whose absolute value `k`
/// lies in 1..=5 is tunnelled to DC `k`, whatever DC the address belongs to;
/// any other id falls back to the address's DC.
pub proof fn law_init_packet_dc_wins(s: SessionModel, d: Seq<u8>, addr: Seq<char>, port: u16, ip_dc: u8)
    requires
        s.phase == PhaseModel::TelegramInit(addr, port, ip_dc),
        d.len() == INIT_PACKET_LEN,
    ensures
        ({
            let dec = spec_decrypt_init(d);
            let k = abs(le_i32(dec[60], dec[61], dec[62], dec[63]));
            &&& 1 <= k <= 5 ==> spec_step(s, d).1.next == NextModel::Tunnel(k as u8, d, addr, port)
            &&& !(1 <= k <= 5) ==> spec_step(s, d).1.next == NextModel::Tunnel(ip_dc, d, addr, port)
            &&& spec_extract_dc_from_init(d) matches Some(j) ==> spec_step(s, d).1.next
                == NextModel::Tunnel(j, d, addr, port)
        }),
{
}

/// Credentials are accepted exactly when both the username and the password
/// equal the configured ones byte for byte (UTF-8): no prefix, extension or
/// other text of either is accepted, and nothing is accepted where either is
/// not configured.
pub proof fn law_credentials_exact(
    username: Option<Seq<char>>,
    password: Option<Seq<char>>,
    given_user: Seq<u8>,
    given_pass: Seq<u8>,
)
    ensures
        spec_credentials_valid(username, password, given_user, given_pass) == (username is Some
            && password is Some && given_user == encode_utf8(username->0) && given_pass
            == encode_utf8(password->0)),
        password matches Some(p) ==> given_pass.len() != encode_utf8(p).len()
            ==> !spec_credentials_valid(username, password, given_user, given_pass),
{
}

/// In a session, a username/password request is accepted only when its
/// fields equal the configured username and password byte for byte.
pub proof fn law_session_credentials_exact(s: SessionModel, buf: Seq<u8>, d: Seq<u8>, u: Seq<u8>, p: Seq<u8>)
    requires
        s.phase == PhaseModel::Credentials(buf),
        spec_credentials_progress(buf + d) == CredentialsState::Complete(u, p),
    ensures
        (spec_step(s, d).0.phase == PhaseModel::Request) == (s.username is Some && s.password is Some
            && u == encode_utf8(s.username->0) && p == encode_utf8(s.password->0)),
{
}

} // verus!

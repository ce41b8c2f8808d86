//! SOCKS5 wire format: the greeting, the CONNECT request and its
//! destination address, and the proxy's fixed replies.

use vstd::prelude::*;
use vstd::string::*;
use vstd::utf8::{valid_utf8, decode_utf8};
use crate::text::{decimal, push_decimal, copy_range, digits_value, is_digit};


verus! {

/// The SOCKS protocol version this proxy speaks.
pub const SOCKS_VERSION: u8 = 0x05;

/// The CONNECT command.
pub const CMD_CONNECT: u8 = 0x01;

/// Address type: IPv4 address.
pub const ATYP_IPV4: u8 = 0x01;

/// Address type: domain name.
pub const ATYP_DOMAIN: u8 = 0x03;

/// How many bytes one read of a greeting or request takes at most.
pub const REQUEST_BUFFER_LEN: usize = 258;

/// Why a destination address could not be read.
#[derive(Clone, Copy, Debug, PartialEq, Eq, Structural)]
pub enum DestError {
    /// The address or port is cut short.
    Short,
    /// A domain name that is not valid UTF-8.
    InvalidUtf8,
    /// An address type other than IPv4 or domain name.
    UnknownAddrType,
}

/// Why a SOCKS5 session ended without a connection.
#[derive(Clone, Copy, Debug, PartialEq, Eq, Structural)]
pub enum SessionError {
    /// The greeting is too short or not version 5.
    NotSocks5,
    /// The greeting announces more methods than it carries.
    IncompleteMethods,
    /// None of the offered methods is acceptable.
    NoAcceptableMethod,
    /// Username/password sub-negotiation failed.
    AuthenticationFailed,
    /// The request is too short, not version 5 or not CONNECT.
    BadConnect,
    /// The destination address could not be read.
    Dest(DestError),
    /// An event that the session does not expect in its current phase.
    UnexpectedEvent,
}

/// A 16-bit big-endian value.
pub open spec fn be_u16(hi: u8, lo: u8) -> u16 {
    (hi * 256 + lo) as u16
}

/// Dotted decimal text of four octets, as `a.b.c.d`.
pub open spec fn ipv4_text(o: Seq<u8>) -> Seq<char>
    recommends
        o.len() == 4,
{
    decimal(o[0] as nat) + "."@ + decimal(o[1] as nat) + "."@ + decimal(o[2] as nat) + "."@
        + decimal(o[3] as nat)
}

/// The destination of a CONNECT request, from its address type onward
/// (`ATYP DST.ADDR DST.PORT`): an IPv4 address is rendered as dotted decimal
/// text, a domain name is decoded from UTF-8.
pub open spec fn spec_parse_dest(data: Seq<u8>) -> Result<(Seq<char>, u16), DestError>
    recommends
        data.len() >= 1,
{
    if data[0] == ATYP_IPV4 {
        if data.len() < 7 {
            Err(DestError::Short)
        } else {
            Ok((ipv4_text(data.subrange(1, 5)), be_u16(data[5], data[6])))
        }
    } else if data[0] == ATYP_DOMAIN {
        let len = data[1] as int;
        if data.len() < 2 + len + 2 {
            Err(DestError::Short)
        } else if !valid_utf8(data.subrange(2, 2 + len)) {
            Err(DestError::InvalidUtf8)
        } else {
            Ok((decode_utf8(data.subrange(2, 2 + len)), be_u16(data[2 + len], data[3 + len])))
        }
    } else {
        Err(DestError::UnknownAddrType)
    }
}

/// Calls `std::str::from_utf8` and copies the text into a `String`. Claimed:
/// a result exactly when the bytes are valid UTF-8, and then the decoded
/// characters.
#[verifier::external_body]
fn utf8_to_string(b: &[u8]) -> (r: Option<String>)
    ensures
        r is Some <==> valid_utf8(b@),
        r matches Some(s) ==> s@ == decode_utf8(b@),
{
    match std::str::from_utf8(b) {
        Ok(s) => Some(s.to_string()),
        Err(_) => None,
    }
}

/// Renders four octets as dotted decimal text.
pub fn ipv4_to_string(a: u8, b: u8, c: u8, d: u8) -> (s: String)
    ensures
        s@ == ipv4_text(seq![a, b, c, d]),
{
    let mut s = String::new();
    push_decimal(&mut s, a as u16);
    s.append(".");
    push_decimal(&mut s, b as u16);
    s.append(".");
    push_decimal(&mut s, c as u16);
    s.append(".");
    push_decimal(&mut s, d as u16);
    assert(seq![a, b, c, d][0] == a);
    assert(seq![a, b, c, d][3] == d);
    s
}

/// The pieces of a text between its dots, in order (one more than there
/// are dots; pieces may be empty).
pub open spec fn split_dots(s: Seq<char>) -> Seq<Seq<char>>
    decreases s.len(),
{
    if s.len() == 0 {
        seq![Seq::<char>::empty()]
    } else {
        let parts = split_dots(s.drop_last());
        if s.last() == '.' {
            parts.push(Seq::<char>::empty())
        } else {
            parts.update(parts.len() - 1, parts.last().push(s.last()))
        }
    }
}

/// A decimal octet as dotted IPv4 text writes it: one to three ASCII
/// digits, no leading zero, a value of at most 255.
pub open spec fn is_octet_text(p: Seq<char>) -> bool {
    &&& 1 <= p.len() <= 3
    &&& forall|k: int| 0 <= k < p.len() ==> is_digit(#[trigger] p[k])
    &&& (p.len() > 1 ==> p[0] != '0')
    &&& digits_value(p) <= 255
}

/// The octets of a dotted IPv4 address, as `std::net::Ipv4Addr` reads it
/// from text: exactly four dot-separated decimal octets.
pub open spec fn spec_parse_ipv4(s: Seq<char>) -> Option<Seq<u8>> {
    let parts = split_dots(s);
    if parts.len() == 4 && is_octet_text(parts[0]) && is_octet_text(parts[1]) && is_octet_text(
        parts[2],
    ) && is_octet_text(parts[3]) {
        Some(
            seq![
                digits_value(parts[0]) as u8,
                digits_value(parts[1]) as u8,
                digits_value(parts[2]) as u8,
                digits_value(parts[3]) as u8,
            ],
        )
    } else {
        None
    }
}

pub proof fn lemma_split_dots_nonempty(s: Seq<char>)
    ensures
        split_dots(s).len() >= 1,
    decreases s.len(),
{
    if s.len() > 0 {
        lemma_split_dots_nonempty(s.drop_last());
    }
}

/// Splitting `x` + `.` + `y` gives the pieces of `x` followed by those of `y`.
pub proof fn lemma_split_dots_concat(x: Seq<char>, y: Seq<char>)
    ensures
        split_dots(x + seq!['.'] + y) == split_dots(x) + split_dots(y),
    decreases y.len(),
{
    let xd = x + seq!['.'];
    if y.len() == 0 {
        assert(xd + y =~= xd);
        assert(xd.drop_last() =~= x);
        assert(split_dots(x) + split_dots(y) =~= split_dots(x).push(Seq::<char>::empty()));
    } else {
        let y1 = y.drop_last();
        lemma_split_dots_concat(x, y1);
        lemma_split_dots_nonempty(y1);
        lemma_split_dots_nonempty(x);
        assert((xd + y).drop_last() =~= xd + y1);
        assert((xd + y).last() == y.last());
        let a = split_dots(x);
        let b = split_dots(y1);
        if y.last() == '.' {
            assert((a + b).push(Seq::<char>::empty()) =~= a + b.push(Seq::<char>::empty()));
        } else {
            assert((a + b).update((a + b).len() - 1, (a + b).last().push(y.last())) =~= a + b.update(
                b.len() - 1,
                b.last().push(y.last()),
            ));
        }
    }
}

/// Text without dots is a single piece.
pub proof fn lemma_split_dots_single(y: Seq<char>)
    requires
        forall|k: int| 0 <= k < y.len() ==> y[k] != '.',
    ensures
        split_dots(y) == seq![y],
    decreases y.len(),
{
    if y.len() > 0 {
        let y1 = y.drop_last();
        assert forall|k: int| 0 <= k < y1.len() implies y1[k] != '.' by {
            assert(y1[k] == y[k]);
        }
        lemma_split_dots_single(y1);
        assert(y.last() != '.');
        assert(y1.push(y.last()) =~= y);
        assert(seq![y1].update(0, y1.push(y.last())) =~= seq![y]);
    } else {
        assert(y =~= Seq::<char>::empty());
    }
}

/// The rendering of an octet is one valid octet piece.
proof fn lemma_octet_piece(v: u8)
    ensures
        split_dots(decimal(v as nat)) == seq![decimal(v as nat)],
        is_octet_text(decimal(v as nat)),
        digits_value(decimal(v as nat)) == v,
{
    crate::text::lemma_decimal_shape(v as nat);
    let d = decimal(v as nat);
    assert forall|k: int| 0 <= k < d.len() implies d[k] != '.' by {
        assert(is_digit(d[k]));
    }
    lemma_split_dots_single(d);
    if d.len() > 1 {
        assert(v as nat >= 10);
    }
}

/// Dotted decimal text reads back as the octets it was made from.
pub proof fn lemma_ipv4_text_roundtrip(o: Seq<u8>)
    requires
        o.len() == 4,
    ensures
        spec_parse_ipv4(ipv4_text(o)) == Some(o),
{
    reveal_strlit(".");
    let d0 = decimal(o[0] as nat);
    let d1 = decimal(o[1] as nat);
    let d2 = decimal(o[2] as nat);
    let d3 = decimal(o[3] as nat);
    lemma_octet_piece(o[0]);
    lemma_octet_piece(o[1]);
    lemma_octet_piece(o[2]);
    lemma_octet_piece(o[3]);
    let dot = seq!['.'];
    assert("."@ =~= dot);
    let t01 = d0 + dot + d1;
    let t012 = t01 + dot + d2;
    let t = t012 + dot + d3;
    assert(ipv4_text(o) =~= t);
    lemma_split_dots_concat(d0, d1);
    lemma_split_dots_concat(t01, d2);
    lemma_split_dots_concat(t012, d3);
    let parts = split_dots(t);
    assert(parts =~= seq![d0, d1, d2, d3]);
    assert(seq![
        digits_value(parts[0]) as u8,
        digits_value(parts[1]) as u8,
        digits_value(parts[2]) as u8,
        digits_value(parts[3]) as u8,
    ] =~= o);
}

/// Reads a dotted IPv4 address.
pub fn parse_ipv4(s: &str) -> (r: Option<[u8; 4]>)
    ensures
        match r {
            Some(o) => spec_parse_ipv4(s@) == Some(o@),
            None => spec_parse_ipv4(s@) is None,
        },
{
    let n = s.unicode_len();
    let mut i: usize = 0;
    let mut n_done: usize = 0;
    let mut ok = true;
    let mut vals: Vec<u8> = Vec::new();
    let mut cur_len: usize = 0;
    let mut cur_digits = true;
    let mut cur_val: u64 = 0;
    let mut cur_first_zero = false;
    proof {
        assert(s@.take(0) =~= Seq::<char>::empty());
    }
    while i < n
        invariant
            n == s@.len(),
            i <= n,
            n_done <= i,
            cur_len <= i,
            split_dots(s@.take(i as int)).len() == n_done + 1,
            ok == (forall|j: int| 0 <= j < n_done ==> is_octet_text(#[trigger] split_dots(s@.take(i as int))[j])),
            ok ==> vals@.len() == n_done,
            ok ==> forall|j: int| 0 <= j < n_done ==> (#[trigger] vals@[j]) == digits_value(split_dots(s@.take(i as int))[j]),
            cur_len == split_dots(s@.take(i as int))[n_done as int].len(),
            cur_digits == (forall|k: int| 0 <= k < cur_len ==> is_digit(#[trigger] split_dots(s@.take(i as int))[n_done as int][k])),
            cur_digits && cur_len <= 3 ==> cur_val == digits_value(split_dots(s@.take(i as int))[n_done as int]),
            cur_val <= 999,
            cur_len == 0 ==> cur_val == 0,
            cur_len <= 1 ==> cur_val <= 9,
            cur_len <= 2 ==> cur_val <= 99,
            cur_first_zero == (cur_len > 0 && split_dots(s@.take(i as int))[n_done as int][0] == '0'),
        decreases n - i,
    {
        let c = s.get_char(i);
        let ghost prev = split_dots(s@.take(i as int));
        let ghost cur = prev[n_done as int];
        proof {
            assert(s@.take(i + 1).drop_last() =~= s@.take(i as int));
            assert(s@.take(i + 1).last() == c);
        }
        if c == '.' {
            let valid = cur_len >= 1 && cur_len <= 3 && cur_digits && !(cur_len > 1 && cur_first_zero)
                && cur_val <= 255;
            assert(valid == is_octet_text(cur));
            if ok && valid {
                vals.push(cur_val as u8);
            } else {
                ok = false;
            }
            n_done = n_done + 1;
            cur_len = 0;
            cur_digits = true;
            cur_val = 0;
            cur_first_zero = false;
            proof {
                let next = split_dots(s@.take(i + 1));
                assert(next == prev.push(Seq::<char>::empty()));
                assert(next[n_done as int].len() == 0);
                assert forall|j: int| 0 <= j < n_done - 1 implies next[j] == prev[j] by {}
                if ok {
                    assert forall|j: int| 0 <= j < n_done implies (#[trigger] vals@[j]) == digits_value(next[j]) by {
                        if j < n_done - 1 {
                            assert(next[j] == prev[j]);
                        }
                    }
                }
                assert(ok == (forall|j: int| 0 <= j < n_done ==> is_octet_text(#[trigger] next[j]))) by {
                    if !(forall|j: int| 0 <= j < n_done ==> is_octet_text(#[trigger] next[j])) {
                        let j = choose|j: int| 0 <= j < n_done && !is_octet_text(#[trigger] next[j]);
                        if j < n_done - 1 {
                            assert(next[j] == prev[j]);
                        }
                    }
                    if !ok {
                        if !is_octet_text(cur) {
                            assert(!is_octet_text(next[n_done - 1]));
                        } else {
                            let j = choose|j: int| 0 <= j < n_done - 1 && !is_octet_text(#[trigger] prev[j]);
                            assert(next[j] == prev[j]);
                        }
                    }
                }
            }
        } else {
            let d: bool = '0' <= c && c <= '9';
            if cur_len == 0 {
                cur_first_zero = c == '0';
            }
            let ghost old_digits = cur_digits;
            if !d {
                cur_digits = false;
            }
            if d && cur_digits && cur_len < 3 {
                let cu: u32 = c as u32;
                assert(48 <= cu <= 57);
                let dv: u64 = (cu - 48) as u64;
                assert(cur_val <= 99);
                cur_val = cur_val * 10 + dv;
            }
            cur_len = cur_len + 1;
            proof {
                let next = split_dots(s@.take(i + 1));
                lemma_split_dots_nonempty(s@.take(i as int));
                let npart = cur.push(c);
                assert(next == prev.update(n_done as int, npart));
                assert(npart.drop_last() =~= cur);
                assert(npart.last() == c);
                assert(digits_value(npart) == digits_value(cur) * 10 + ((c as int) - 48) as nat);
                assert forall|j: int| 0 <= j < n_done implies next[j] == prev[j] by {}
                assert(cur_digits == (forall|k: int| 0 <= k < cur_len ==> is_digit(#[trigger] npart[k]))) by {
                    if old_digits && d {
                        assert forall|k: int| 0 <= k < cur_len implies is_digit(#[trigger] npart[k]) by {
                            if k < cur_len - 1 {
                                assert(npart[k] == cur[k]);
                            }
                        }
                    }
                    if !old_digits {
                        let k = choose|k: int| 0 <= k < cur_len - 1 && !is_digit(#[trigger] cur[k]);
                        assert(npart[k] == cur[k]);
                    }
                    if !d {
                        assert(!is_digit(npart[cur_len - 1]));
                    }
                }
                if cur_len > 1 {
                    assert(npart[0] == cur[0]);
                }
                assert(next[n_done as int] == npart);
                assert(cur_digits == (forall|k: int| 0 <= k < cur_len ==> is_digit(#[trigger] next[n_done as int][k])));
            }
        }
        i = i + 1;
    }
    proof {
        assert(s@.take(n as int) =~= s@);
    }
    if !ok || n_done != 3 {
        return None;
    }
    let valid = cur_len >= 1 && cur_len <= 3 && cur_digits && !(cur_len > 1 && cur_first_zero)
        && cur_val <= 255;
    if !valid {
        return None;
    }
    let o: [u8; 4] = [vals[0], vals[1], vals[2], cur_val as u8];
    proof {
        let parts = split_dots(s@);
        assert(o@ =~= seq![
            digits_value(parts[0]) as u8,
            digits_value(parts[1]) as u8,
            digits_value(parts[2]) as u8,
            digits_value(parts[3]) as u8,
        ]);
    }
    Some(o)
}

/// Reads the destination address and port of a CONNECT request.
pub fn parse_dest(data: &[u8]) -> (r: Result<(String, u16), DestError>)
    requires
        data@.len() >= 1,
        data@[0] == ATYP_DOMAIN ==> data@.len() >= 2,
    ensures
        match r {
            Ok((addr, port)) => spec_parse_dest(data@) == Ok::<(Seq<char>, u16), DestError>(
                (addr@, port),
            ),
            Err(e) => spec_parse_dest(data@) == Err::<(Seq<char>, u16), DestError>(e),
        },
{
    if data[0] == ATYP_IPV4 {
        if data.len() < 7 {
            return Err(DestError::Short);
        }
        let ip = ipv4_to_string(data[1], data[2], data[3], data[4]);
        assert(seq![data@[1], data@[2], data@[3], data@[4]] =~= data@.subrange(1, 5));
        let port = (data[5] as u16) * 256 + data[6] as u16;
        Ok((ip, port))
    } else if data[0] == ATYP_DOMAIN {
        let len = data[1] as usize;
        if data.len() < 2 + len + 2 {
            return Err(DestError::Short);
        }
        let name_bytes = copy_range(data, 2, 2 + len);
        match utf8_to_string(name_bytes.as_slice()) {
            Some(domain) => {
                let port = (data[2 + len] as u16) * 256 + data[3 + len] as u16;
                Ok((domain, port))
            },
            None => Err(DestError::InvalidUtf8),
        }
    } else {
        Err(DestError::UnknownAddrType)
    }
}

/// The methods a greeting (`VER NMETHODS METHODS`) offers.
pub open spec fn spec_parse_greeting(data: Seq<u8>) -> Result<Seq<u8>, SessionError> {
    if data.len() < 2 || data[0] != SOCKS_VERSION {
        Err(SessionError::NotSocks5)
    } else if data.len() < 2 + data[1] {
        Err(SessionError::IncompleteMethods)
    } else {
        Ok(data.subrange(2, 2 + data[1]))
    }
}

/// Reads the methods that a client's greeting offers.
pub fn parse_greeting(data: &[u8]) -> (r: Result<Vec<u8>, SessionError>)
    ensures
        match r {
            Ok(m) => spec_parse_greeting(data@) == Ok::<Seq<u8>, SessionError>(m@),
            Err(e) => spec_parse_greeting(data@) == Err::<Seq<u8>, SessionError>(e),
        },
{
    if data.len() < 2 || data[0] != SOCKS_VERSION {
        return Err(SessionError::NotSocks5);
    }
    let nmethods = data[1] as usize;
    if data.len() < 2 + nmethods {
        return Err(SessionError::IncompleteMethods);
    }
    Ok(copy_range(data, 2, 2 + nmethods))
}

/// The destination of a CONNECT request (`VER CMD RSV ATYP DST.ADDR DST.PORT`).
pub open spec fn spec_parse_connect(data: Seq<u8>) -> Result<(Seq<char>, u16), SessionError> {
    if data.len() < 7 || data[0] != SOCKS_VERSION || data[1] != CMD_CONNECT {
        Err(SessionError::BadConnect)
    } else {
        match spec_parse_dest(data.subrange(3, data.len() as int)) {
            Ok(d) => Ok(d),
            Err(e) => Err(SessionError::Dest(e)),
        }
    }
}

/// Reads a CONNECT request.
pub fn parse_connect(data: &[u8]) -> (r: Result<(String, u16), SessionError>)
    ensures
        match r {
            Ok((addr, port)) => spec_parse_connect(data@) == Ok::<(Seq<char>, u16), SessionError>(
                (addr@, port),
            ),
            Err(e) => spec_parse_connect(data@) == Err::<(Seq<char>, u16), SessionError>(e),
        },
{
    if data.len() < 7 || data[0] != SOCKS_VERSION || data[1] != CMD_CONNECT {
        return Err(SessionError::BadConnect);
    }
    let rest = copy_range(data, 3, data.len());
    match parse_dest(rest.as_slice()) {
        Ok(d) => Ok(d),
        Err(e) => Err(SessionError::Dest(e)),
    }
}

/// The reply to a greeting: version 5 and the chosen method.
pub open spec fn spec_method_reply(method: u8) -> Seq<u8> {
    seq![SOCKS_VERSION, method]
}

/// The reply to a refused request: "command not supported", bound to 0.0.0.0:0.
pub open spec fn spec_connect_refused() -> Seq<u8> {
    seq![SOCKS_VERSION, 0x07u8, 0x00u8, ATYP_IPV4, 0u8, 0u8, 0u8, 0u8, 0u8, 0u8]
}

/// The reply to an accepted request: "succeeded", bound to 127.0.0.1:1080.
pub open spec fn spec_connect_succeeded() -> Seq<u8> {
    seq![SOCKS_VERSION, 0x00u8, 0x00u8, ATYP_IPV4, 127u8, 0u8, 0u8, 1u8, 0x04u8, 0x38u8]
}

/// Builds the reply to a greeting.
pub fn method_reply(method: u8) -> (r: Vec<u8>)
    ensures
        r@ == spec_method_reply(method),
{
    let mut r: Vec<u8> = Vec::new();
    r.push(SOCKS_VERSION);
    r.push(method);
    r
}

fn bytes_from(b0: u8, b1: u8, b2: u8, b3: u8, b4: u8, b5: u8, b6: u8, b7: u8, b8: u8, b9: u8) -> (r: Vec<u8>)
    ensures
        r@ == seq![b0, b1, b2, b3, b4, b5, b6, b7, b8, b9],
{
    let mut r: Vec<u8> = Vec::new();
    r.push(b0);
    r.push(b1);
    r.push(b2);
    r.push(b3);
    r.push(b4);
    r.push(b5);
    r.push(b6);
    r.push(b7);
    r.push(b8);
    r.push(b9);
    assert(r@ =~= seq![b0, b1, b2, b3, b4, b5, b6, b7, b8, b9]);
    r
}

/// Builds the reply to a refused request.
pub fn connect_refused() -> (r: Vec<u8>)
    ensures
        r@ == spec_connect_refused(),
{
    bytes_from(SOCKS_VERSION, 0x07, 0x00, ATYP_IPV4, 0, 0, 0, 0, 0, 0)
}

/// Builds the reply to an accepted request.
pub fn connect_succeeded() -> (r: Vec<u8>)
    ensures
        r@ == spec_connect_succeeded(),
{
    bytes_from(SOCKS_VERSION, 0x00, 0x00, ATYP_IPV4, 127, 0, 0, 1, 0x04, 0x38)
}

/// The `host:port` text a direct connection is opened to.
pub open spec fn spec_target(addr: Seq<char>, port: u16) -> Seq<char> {
    addr + ":"@ + decimal(port as nat)
}

/// Builds the `host:port` text of a destination.
pub fn target(addr: &str, port: u16) -> (r: String)
    ensures
        r@ == spec_target(addr@, port),
{
    let mut r = String::from_str(addr);
    r.append(":");
    push_decimal(&mut r, port);
    r
}

} // verus!

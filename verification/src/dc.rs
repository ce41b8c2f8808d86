//! Telegram data centres: which DC an address belongs to, which DC an
//! obfuscated2 init packet asks for, and the WebSocket endpoint of a DC.

use vstd::prelude::*;
use vstd::string::*;
use crate::text::{decimal, push_decimal, copy_range};
use cipher::{KeyIvInit, StreamCipher};
use crate::socks::{parse_ipv4, spec_parse_ipv4};

verus! {

/// The DC that a Telegram IPv4 address belongs to, by its octets.
pub open spec fn spec_dc_from_ip(o: Seq<u8>) -> Option<u8>
    recommends
        o.len() == 4,
{
    if o[0] == 149 && o[1] == 154 {
        if 160 <= o[2] <= 163 {
            Some(1u8)
        } else if 164 <= o[2] <= 167 {
            Some(2u8)
        } else if 168 <= o[2] <= 171 {
            Some(3u8)
        } else if 172 <= o[2] <= 175 {
            Some(1u8)
        } else {
            None
        }
    } else if o[0] == 91 && o[1] == 108 {
        if 56 <= o[2] <= 59 {
            Some(5u8)
        } else if 8 <= o[2] <= 11 {
            Some(3u8)
        } else if 12 <= o[2] <= 15 {
            Some(4u8)
        } else {
            None
        }
    } else if (o[0] == 91 && o[1] == 105) || (o[0] == 185 && o[1] == 76) {
        Some(2u8)
    } else {
        None
    }
}

/// Maps an IPv4 address, given by its octets, to the Telegram DC it belongs to.
pub fn dc_from_ip(octets: [u8; 4]) -> (r: Option<u8>)
    ensures
        r == spec_dc_from_ip(octets@),
{
    let a = octets[0];
    let b = octets[1];
    let c = octets[2];
    if a == 149 && b == 154 {
        if 160 <= c && c <= 163 {
            Some(1)
        } else if 164 <= c && c <= 167 {
            Some(2)
        } else if 168 <= c && c <= 171 {
            Some(3)
        } else if 172 <= c && c <= 175 {
            Some(1)
        } else {
            None
        }
    } else if a == 91 && b == 108 {
        if 56 <= c && c <= 59 {
            Some(5)
        } else if 8 <= c && c <= 11 {
            Some(3)
        } else if 12 <= c && c <= 15 {
            Some(4)
        } else {
            None
        }
    } else if (a == 91 && b == 105) || (a == 185 && b == 76) {
        Some(2)
    } else {
        None
    }
}

/// Whether an address, already read as IPv4 octets where it is one, is a
/// Telegram address.
pub open spec fn spec_is_telegram_ip(parsed: Option<Seq<u8>>) -> bool {
    match parsed {
        Some(o) => spec_dc_from_ip(o) is Some,
        None => false,
    }
}

/// Whether a destination is a Telegram DC address: it reads as a dotted
/// IPv4 address that belongs to a DC.
pub fn is_telegram_ip(addr: &str) -> (r: bool)
    ensures
        r == spec_is_telegram_ip(spec_parse_ipv4(addr@)),
{
    match parse_ipv4(addr) {
        Some(o) => dc_from_ip(o).is_some(),
        None => false,
    }
}

/// The WebSocket endpoint of DC `dc`: `wss://kws<dc>.web.telegram.org/apiws`.
pub open spec fn spec_ws_url(dc: u8) -> Seq<char> {
    "wss://kws"@ + decimal(dc as nat) + ".web.telegram.org/apiws"@
}

/// Builds the WebSocket endpoint URL of a DC.
pub fn ws_url(dc: u8) -> (url: String)
    ensures
        url@ == spec_ws_url(dc),
{
    let mut url = String::from_str("wss://kws");
    push_decimal(&mut url, dc as u16);
    url.append(".web.telegram.org/apiws");
    url
}

/// The value of four bytes read as a little-endian unsigned 32-bit integer.
pub open spec fn le_u32(b0: u8, b1: u8, b2: u8, b3: u8) -> int {
    b0 + 256 * b1 + 65536 * b2 + 16777216 * b3
}

/// The value of four bytes read as a little-endian two's complement 32-bit integer.
pub open spec fn le_i32(b0: u8, b1: u8, b2: u8, b3: u8) -> int {
    let u = le_u32(b0, b1, b2, b3);
    if u < 0x8000_0000 {
        u
    } else {
        u - 0x1_0000_0000
    }
}

pub open spec fn abs(x: int) -> int {
    if x < 0 {
        -x
    } else {
        x
    }
}

/// The DC that a decrypted obfuscated2 init packet names: bytes 60..64 as a
/// little-endian `i32`, its absolute value, accepted when it lies in `1..=5`.
pub open spec fn spec_dc_from_decrypted(dec: Seq<u8>) -> Option<u8>
    recommends
        dec.len() == 64,
{
    let d = abs(le_i32(dec[60], dec[61], dec[62], dec[63]));
    if 1 <= d <= 5 {
        Some(d as u8)
    } else {
        None
    }
}

/// Reads the DC id from a decrypted obfuscated2 init packet.
pub fn dc_from_decrypted(dec: &[u8]) -> (r: Option<u8>)
    requires
        dec@.len() == 64,
    ensures
        r == spec_dc_from_decrypted(dec@),
{
    let u: u64 = dec[60] as u64 + (dec[61] as u64) * 256 + (dec[62] as u64) * 65536 + (dec[63] as u64)
        * 16777216;
    let x: i64 = if u < 0x8000_0000 {
        u as i64
    } else {
        u as i64 - 0x1_0000_0000
    };
    let a: u64 = if x < 0 {
        (-x) as u64
    } else {
        x as u64
    };
    if 1 <= a && a <= 5 {
        Some(a as u8)
    } else {
        None
    }
}

/// Names what AES-256 in CTR mode with a 128-bit big-endian counter
/// (`ctr::Ctr128BE<aes::Aes256>`) gives when its keystream, from `key` and
/// `iv`, is XORed onto `data`.
pub uninterp spec fn aes256_ctr128be_xor(key: Seq<u8>, iv: Seq<u8>, data: Seq<u8>) -> Seq<u8>;

/// Calls `ctr::Ctr128BE::<aes::Aes256>::new` (cipher's `KeyIvInit`) and
/// `apply_keystream` (cipher's `StreamCipher`) on a copy of `data`. Claimed:
/// the result is the named keystream XOR of `data`, of the same length. The
/// counter starts at zero and is 128 bits wide, so the keystream does not run
/// out; the key and IV must have the cipher's sizes, as the conversion from a
/// slice panics otherwise.
#[verifier::external_body]
fn aes256_ctr_apply(key: &[u8], iv: &[u8], data: &[u8]) -> (out: Vec<u8>)
    requires
        key@.len() == 32,
        iv@.len() == 16,
    ensures
        out@ == aes256_ctr128be_xor(key@, iv@, data@),
        out@.len() == data@.len(),
{
    let mut out = data.to_vec();
    let mut c = ctr::Ctr128BE::<aes::Aes256>::new(key.into(), iv.into());
    c.apply_keystream(&mut out);
    out
}

/// The obfuscated2 init packet decrypted with the key (bytes 8..40) and IV
/// (bytes 40..56) that it carries.
pub open spec fn spec_decrypt_init(init: Seq<u8>) -> Seq<u8> {
    aes256_ctr128be_xor(init.subrange(8, 40), init.subrange(40, 56), init)
}

/// The DC that an obfuscated2 init packet asks for, if it names one in `1..=5`.
pub open spec fn spec_extract_dc_from_init(init: Seq<u8>) -> Option<u8> {
    spec_dc_from_decrypted(spec_decrypt_init(init))
}

/// Extracts the DC from the first 64 bytes of an obfuscated2 connection:
/// decrypts them with AES-256-CTR under the key and IV they carry, and reads
/// the DC id from the last four decrypted bytes.
pub fn extract_dc_from_init(init: &[u8; 64]) -> (r: Option<u8>)
    ensures
        r == spec_extract_dc_from_init(init@),
{
    let s = init.as_slice();
    let key = copy_range(s, 8, 40);
    let iv = copy_range(s, 40, 56);
    let dec = aes256_ctr_apply(key.as_slice(), iv.as_slice(), s);
    dc_from_decrypted(dec.as_slice())
}

/// The DC a Telegram connection is tunnelled to: the one the init packet
/// names, else the one the destination address belongs to, else DC 2.
pub open spec fn spec_choose_dc(from_init: Option<u8>, from_ip: Option<u8>) -> u8 {
    match from_init {
        Some(dc) => dc,
        None => match from_ip {
            Some(dc) => dc,
            None => 2,
        },
    }
}

/// Picks the DC for a tunnel from what the init packet and the address say.
pub fn choose_dc(from_init: Option<u8>, from_ip: Option<u8>) -> (dc: u8)
    ensures
        dc == spec_choose_dc(from_init, from_ip),
{
    match from_init {
        Some(dc) => dc,
        None => match from_ip {
            Some(dc) => dc,
            None => 2,
        },
    }
}

} // verus!

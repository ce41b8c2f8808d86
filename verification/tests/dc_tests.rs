use cipher::{KeyIvInit, StreamCipher};
use tg_unblock::dc::{choose_dc, dc_from_decrypted, dc_from_ip, extract_dc_from_init, is_telegram_ip, ws_url};

#[test]
fn dc_ranges_of_149_154() {
    assert_eq!(dc_from_ip([149, 154, 160, 1]), Some(1));
    assert_eq!(dc_from_ip([149, 154, 163, 255]), Some(1));
    assert_eq!(dc_from_ip([149, 154, 164, 0]), Some(2));
    assert_eq!(dc_from_ip([149, 154, 167, 51]), Some(2));
    assert_eq!(dc_from_ip([149, 154, 168, 10]), Some(3));
    assert_eq!(dc_from_ip([149, 154, 171, 10]), Some(3));
    assert_eq!(dc_from_ip([149, 154, 172, 10]), Some(1));
    assert_eq!(dc_from_ip([149, 154, 175, 10]), Some(1));
    assert_eq!(dc_from_ip([149, 154, 176, 10]), None);
    assert_eq!(dc_from_ip([149, 154, 159, 10]), None);
}

#[test]
fn dc_ranges_of_91_108() {
    assert_eq!(dc_from_ip([91, 108, 56, 1]), Some(5));
    assert_eq!(dc_from_ip([91, 108, 59, 1]), Some(5));
    assert_eq!(dc_from_ip([91, 108, 8, 1]), Some(3));
    assert_eq!(dc_from_ip([91, 108, 11, 1]), Some(3));
    assert_eq!(dc_from_ip([91, 108, 12, 1]), Some(4));
    assert_eq!(dc_from_ip([91, 108, 15, 1]), Some(4));
    assert_eq!(dc_from_ip([91, 108, 16, 1]), None);
    assert_eq!(dc_from_ip([91, 108, 60, 1]), None);
}

#[test]
fn dc2_ranges_and_others() {
    assert_eq!(dc_from_ip([91, 105, 192, 100]), Some(2));
    assert_eq!(dc_from_ip([185, 76, 151, 1]), Some(2));
    assert_eq!(dc_from_ip([8, 8, 8, 8]), None);
    assert_eq!(dc_from_ip([149, 155, 167, 51]), None);
    assert_eq!(dc_from_ip([91, 107, 56, 1]), None);
}

#[test]
fn telegram_ip_classification() {
    assert!(is_telegram_ip("149.154.167.51"));
    assert!(is_telegram_ip("91.108.56.130"));
    assert!(!is_telegram_ip("1.1.1.1"));
    assert!(!is_telegram_ip("149.154.167.051"));
    assert!(!is_telegram_ip("telegram.org"));
}

#[test]
fn ws_url_of_each_dc() {
    assert_eq!(ws_url(1), "wss://kws1.web.telegram.org/apiws");
    assert_eq!(ws_url(2), "wss://kws2.web.telegram.org/apiws");
    assert_eq!(ws_url(5), "wss://kws5.web.telegram.org/apiws");
    assert_eq!(ws_url(0), "wss://kws0.web.telegram.org/apiws");
    assert_eq!(ws_url(255), "wss://kws255.web.telegram.org/apiws");
}

fn packet_with_tail(tail: [u8; 4]) -> Vec<u8> {
    let mut v = vec![0u8; 64];
    v[60..64].copy_from_slice(&tail);
    v
}

#[test]
fn dc_id_read_little_endian() {
    assert_eq!(dc_from_decrypted(&packet_with_tail([2, 0, 0, 0])), Some(2));
    assert_eq!(dc_from_decrypted(&packet_with_tail([5, 0, 0, 0])), Some(5));
    assert_eq!(dc_from_decrypted(&packet_with_tail([1, 0, 0, 0])), Some(1));
}

#[test]
fn dc_id_negative_takes_absolute_value() {
    // -2 as little-endian i32
    assert_eq!(dc_from_decrypted(&packet_with_tail([0xFE, 0xFF, 0xFF, 0xFF])), Some(2));
    // -4
    assert_eq!(dc_from_decrypted(&packet_with_tail([0xFC, 0xFF, 0xFF, 0xFF])), Some(4));
}

#[test]
fn dc_id_out_of_range_rejected() {
    assert_eq!(dc_from_decrypted(&packet_with_tail([0, 0, 0, 0])), None);
    assert_eq!(dc_from_decrypted(&packet_with_tail([6, 0, 0, 0])), None);
    assert_eq!(dc_from_decrypted(&packet_with_tail([0, 0, 0, 0x80])), None);
    assert_eq!(dc_from_decrypted(&packet_with_tail([0xFF, 0xFF, 0xFF, 0x7F])), None);
}

#[test]
fn dc_id_validated_in_full() {
    // 257 = 0x101 is out of range, though its low byte is 1.
    assert_eq!(dc_from_decrypted(&packet_with_tail([1, 1, 0, 0])), None);
    // -259: absolute value 259, out of range.
    assert_eq!(dc_from_decrypted(&packet_with_tail([0xFD, 0xFE, 0xFF, 0xFF])), None);
    // 261 = 0x105 is out of range, though its low byte is 5.
    assert_eq!(dc_from_decrypted(&packet_with_tail([5, 1, 0, 0])), None);
}

/// Builds an init packet whose decryption names `dc_id` in its last four bytes.
fn init_packet_for(dc_id: i32) -> [u8; 64] {
    let mut packet = [0u8; 64];
    for (i, b) in packet.iter_mut().enumerate() {
        *b = (i as u8).wrapping_mul(37).wrapping_add(11);
    }
    let key = packet[8..40].to_vec();
    let iv = packet[40..56].to_vec();
    let mut keystream = [0u8; 64];
    let mut c = ctr::Ctr128BE::<aes::Aes256>::new(key.as_slice().into(), iv.as_slice().into());
    c.apply_keystream(&mut keystream);
    let id = dc_id.to_le_bytes();
    for i in 0..4 {
        packet[60 + i] = keystream[60 + i] ^ id[i];
    }
    packet
}

#[test]
fn extract_dc_decrypts_the_init_packet() {
    assert_eq!(extract_dc_from_init(&init_packet_for(2)), Some(2));
    assert_eq!(extract_dc_from_init(&init_packet_for(4)), Some(4));
    assert_eq!(extract_dc_from_init(&init_packet_for(-5)), Some(5));
    assert_eq!(extract_dc_from_init(&init_packet_for(9)), None);
}

#[test]
fn extract_dc_does_not_read_the_raw_bytes() {
    // The raw tail says DC 3, but the packet is decrypted before it is read.
    let mut packet = init_packet_for(1);
    let raw = [3u8, 0, 0, 0];
    packet[60..64].copy_from_slice(&raw);
    assert_ne!(extract_dc_from_init(&packet), Some(3));
}

#[test]
fn dc_choice_prefers_init_then_address_then_dc2() {
    assert_eq!(choose_dc(Some(4), Some(1)), 4);
    assert_eq!(choose_dc(None, Some(5)), 5);
    assert_eq!(choose_dc(None, None), 2);
}

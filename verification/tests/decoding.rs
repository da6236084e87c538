use teleport_indexer::decode::{decode_event, DecodeError, EventSigs, RawLog};
use teleport_indexer::engine::Event;

fn sig(tag: u8) -> Vec<u8> {
    vec![tag; 32]
}

fn sigs() -> EventSigs {
    EventSigs {
        mint_confirmed: sig(1),
        redemption_requested: sig(2),
        ownership_transferred: sig(3),
    }
}

fn u64_word(v: u64) -> Vec<u8> {
    let mut w = vec![0u8; 32];
    w[24..32].copy_from_slice(&v.to_be_bytes());
    w
}

fn addr_word(last: u8) -> Vec<u8> {
    let mut w = vec![0u8; 32];
    w[31] = last;
    w
}

fn addr(last: u8) -> Vec<u8> {
    let mut a = vec![0u8; 20];
    a[19] = last;
    a
}

/// The canonical payload of a redemption request: two offsets, then each
/// string as a length word, bytes, and zero padding to 32 bytes.
fn pad32(n: usize) -> usize {
    if n % 32 == 0 { n } else { n + (32 - n % 32) }
}

fn redeem_data(content: &[u8], policy: &[u8]) -> Vec<u8> {
    let off_p = 96 + pad32(content.len());
    let mut d = Vec::new();
    d.extend_from_slice(&u64_word(64));
    d.extend_from_slice(&u64_word(off_p as u64));
    d.extend_from_slice(&u64_word(content.len() as u64));
    d.extend_from_slice(content);
    d.resize(96 + pad32(content.len()), 0);
    d.extend_from_slice(&u64_word(policy.len() as u64));
    d.extend_from_slice(policy);
    d.resize(off_p + 32 + pad32(policy.len()), 0);
    d
}

#[test]
fn decodes_mint_confirmation() {
    let log = RawLog {
        topics: vec![sig(1), u64_word(42)],
        data: addr_word(0xDE),
        tx_hash: vec![0xab, 0xc0],
    };
    match decode_event(&sigs(), &log).unwrap() {
        Event::MintConfirmed { tx_hash, token_id, recipient } => {
            assert_eq!(tx_hash, vec![0xab, 0xc0]);
            assert_eq!(token_id, 42);
            assert_eq!(recipient, addr(0xDE));
        }
        _ => panic!("expected a mint confirmation"),
    }
}

#[test]
fn decodes_ownership_transfer() {
    let log = RawLog {
        topics: vec![sig(3), addr_word(0xDE), addr_word(0xBE), u64_word(42)],
        data: Vec::new(),
        tx_hash: vec![0x01],
    };
    match decode_event(&sigs(), &log).unwrap() {
        Event::OwnershipTransferred { token_id, from, to } => {
            assert_eq!(token_id, 42);
            assert_eq!(from, addr(0xDE));
            assert_eq!(to, addr(0xBE));
        }
        _ => panic!("expected an ownership transfer"),
    }
}

#[test]
fn decodes_redemption_request() {
    let log = RawLog {
        topics: vec![sig(2), u64_word(42), u64_word(7)],
        data: redeem_data(b"hello", b"p"),
        tx_hash: vec![0x01],
    };
    match decode_event(&sigs(), &log).unwrap() {
        Event::RedemptionRequested { token_id, creator_x_id, content, policy } => {
            assert_eq!(token_id, 42);
            assert_eq!(creator_x_id, 7);
            assert_eq!(content, b"hello".to_vec());
            assert_eq!(policy, b"p".to_vec());
        }
        _ => panic!("expected a redemption request"),
    }
}

#[test]
fn decodes_redemption_with_long_and_empty_strings() {
    // Content longer than one 32-byte slot, empty policy.
    let content: Vec<u8> = (0u8..=99).collect();
    let log = RawLog {
        topics: vec![sig(2), u64_word(1), u64_word(2)],
        data: redeem_data(&content, b""),
        tx_hash: vec![],
    };
    match decode_event(&sigs(), &log).unwrap() {
        Event::RedemptionRequested { content: c, policy, .. } => {
            assert_eq!(c, content);
            assert_eq!(policy, Vec::<u8>::new());
        }
        _ => panic!("expected a redemption request"),
    }
}

#[test]
fn unknown_signature_is_unrecognized() {
    let log = RawLog {
        topics: vec![sig(9), u64_word(42)],
        data: addr_word(0xDE),
        tx_hash: vec![0x01],
    };
    assert!(matches!(decode_event(&sigs(), &log).unwrap(), Event::Unrecognized));
    // No topics at all, or a short first topic: unrecognized too.
    let log = RawLog { topics: vec![], data: vec![], tx_hash: vec![] };
    assert!(matches!(decode_event(&sigs(), &log).unwrap(), Event::Unrecognized));
    let log = RawLog { topics: vec![vec![1u8; 4]], data: vec![], tx_hash: vec![] };
    assert!(matches!(decode_event(&sigs(), &log).unwrap(), Event::Unrecognized));
}

#[test]
fn wrong_topic_count_is_a_topic_layout_error() {
    let log = RawLog {
        topics: vec![sig(3), addr_word(0xDE), addr_word(0xBE)],
        data: Vec::new(),
        tx_hash: vec![0x01],
    };
    assert_eq!(decode_event(&sigs(), &log).unwrap_err(), DecodeError::TopicLayout);
}

#[test]
fn bad_word_padding_is_a_word_layout_error() {
    // An address topic with a nonzero byte in its 12-byte padding.
    let mut bad = addr_word(0xDE);
    bad[0] = 1;
    let log = RawLog {
        topics: vec![sig(3), bad, addr_word(0xBE), u64_word(42)],
        data: Vec::new(),
        tx_hash: vec![0x01],
    };
    assert_eq!(decode_event(&sigs(), &log).unwrap_err(), DecodeError::WordLayout);
    // A token id wider than 64 bits.
    let mut wide = u64_word(42);
    wide[23] = 1;
    let log = RawLog { topics: vec![sig(1), wide], data: addr_word(0xDE), tx_hash: vec![] };
    assert_eq!(decode_event(&sigs(), &log).unwrap_err(), DecodeError::WordLayout);
}

#[test]
fn bad_payload_is_a_data_layout_error() {
    // A transfer must carry no payload.
    let log = RawLog {
        topics: vec![sig(3), addr_word(0xDE), addr_word(0xBE), u64_word(42)],
        data: vec![0u8; 32],
        tx_hash: vec![0x01],
    };
    assert_eq!(decode_event(&sigs(), &log).unwrap_err(), DecodeError::DataLayout);
    // A redemption payload with a wrong first offset word.
    let mut d = redeem_data(b"hello", b"p");
    d[31] = 0x40 + 32;
    let log = RawLog { topics: vec![sig(2), u64_word(42), u64_word(7)], data: d, tx_hash: vec![] };
    assert_eq!(decode_event(&sigs(), &log).unwrap_err(), DecodeError::DataLayout);
    // A redemption payload with nonzero padding after the content bytes.
    let mut d = redeem_data(b"hello", b"p");
    d[96 + 5] = 1;
    let log = RawLog { topics: vec![sig(2), u64_word(42), u64_word(7)], data: d, tx_hash: vec![] };
    assert_eq!(decode_event(&sigs(), &log).unwrap_err(), DecodeError::DataLayout);
    // A truncated redemption payload.
    let mut d = redeem_data(b"hello", b"p");
    d.truncate(100);
    let log = RawLog { topics: vec![sig(2), u64_word(42), u64_word(7)], data: d, tx_hash: vec![] };
    assert_eq!(decode_event(&sigs(), &log).unwrap_err(), DecodeError::DataLayout);
}

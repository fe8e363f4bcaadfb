use runtimed::message::execute_request_content;
use runtimed::wire::{delimiter, sign, to_hex, MessageEnvelope, ProtocolError};

fn sample(identities: Vec<Vec<u8>>) -> MessageEnvelope {
    let mut e = MessageEnvelope::construct_with(
        "execute_request",
        execute_request_content("1+1"),
        None,
        "sess-1",
        "msg-1",
        "2024-01-01T00:00:00Z",
    );
    e.identities = identities;
    e.buffers = vec![vec![1, 2, 3]];
    e
}

fn same(a: &MessageEnvelope, b: &MessageEnvelope) -> bool {
    a.identities == b.identities
        && a.header == b.header
        && a.parent_header == b.parent_header
        && a.metadata == b.metadata
        && a.content == b.content
        && a.buffers == b.buffers
}

#[test]
fn hex_of_bytes() {
    assert_eq!(to_hex(&[0x00, 0x0f, 0xab, 0xff]), b"000fabff".to_vec());
    assert_eq!(to_hex(&[]), Vec::<u8>::new());
}

#[test]
fn hmac_sha256_known_vector() {
    let sig = sign(b"key", "hmac-sha256", b"The quick brown fox jumps over the lazy dog").unwrap();
    assert_eq!(
        String::from_utf8(sig).unwrap(),
        "f7bc83f430538424b13298e6aa6fb143ef4d59a14946175997479dbc2d1a3cd8"
    );
}

#[test]
fn sign_unknown_scheme_and_empty_key() {
    assert_eq!(sign(b"key", "hmac-md5", b"data"), None);
    assert_eq!(sign(b"", "anything", b"data"), Some(Vec::new()));
}

#[test]
fn round_trip_signed() {
    let e = sample(vec![b"route".to_vec()]);
    let frames = e.encode(b"abc", "hmac-sha256").unwrap();
    assert_eq!(frames.len(), 1 + 6 + 1);
    assert_eq!(frames[1], delimiter());
    assert_eq!(frames[2].len(), 64);
    let d = MessageEnvelope::decode(&frames, b"abc", "hmac-sha256").unwrap();
    assert!(same(&d, &e));
}

#[test]
fn wrong_key_or_scheme_is_rejected() {
    let e = sample(vec![]);
    let frames = e.encode(b"abc", "hmac-sha256").unwrap();
    assert_eq!(
        MessageEnvelope::decode(&frames, b"abd", "hmac-sha256").err(),
        Some(ProtocolError::SignatureMismatch)
    );
    assert_eq!(
        MessageEnvelope::decode(&frames, b"abc", "hmac-md5").err(),
        Some(ProtocolError::SignatureMismatch)
    );
}

#[test]
fn tampered_content_is_rejected() {
    let e = sample(vec![]);
    let mut frames = e.encode(b"abc", "hmac-sha256").unwrap();
    frames[5] = b"{\"code\":\"2+2\"}".to_vec();
    assert_eq!(
        MessageEnvelope::decode(&frames, b"abc", "hmac-sha256").err(),
        Some(ProtocolError::SignatureMismatch)
    );
}

#[test]
fn unsigned_mode() {
    let e = sample(vec![]);
    let mut frames = e.encode(b"", "hmac-sha256").unwrap();
    assert!(frames[1].is_empty());
    frames[1] = b"not a signature".to_vec();
    let d = MessageEnvelope::decode(&frames, b"", "whatever").unwrap();
    assert!(same(&d, &e));
}

#[test]
fn encode_unknown_scheme_fails() {
    let e = sample(vec![]);
    assert_eq!(e.encode(b"abc", "rot13").err(), Some(ProtocolError::UnsupportedScheme));
}

#[test]
fn missing_delimiter() {
    let frames = vec![b"a".to_vec(), b"b".to_vec()];
    assert_eq!(
        MessageEnvelope::decode(&frames, b"", "hmac-sha256").err(),
        Some(ProtocolError::MissingDelimiter)
    );
    assert_eq!(
        MessageEnvelope::decode(&Vec::new(), b"", "hmac-sha256").err(),
        Some(ProtocolError::MissingDelimiter)
    );
}

#[test]
fn malformed_frame_set() {
    let frames = vec![b"id".to_vec(), delimiter(), Vec::new(), b"{}".to_vec(), b"{}".to_vec()];
    assert_eq!(
        MessageEnvelope::decode(&frames, b"", "hmac-sha256").err(),
        Some(ProtocolError::MalformedFrame)
    );
}

#[test]
fn non_json_part_is_malformed() {
    let frames = vec![delimiter(), Vec::new(), b"x".to_vec(), b"{}".to_vec(), b"{}".to_vec(), b"{}".to_vec()];
    assert_eq!(
        MessageEnvelope::decode(&frames, b"", "hmac-sha256").err(),
        Some(ProtocolError::MalformedFrame)
    );
    let array = vec![delimiter(), Vec::new(), b"{}".to_vec(), b"{}".to_vec(), b"{}".to_vec(), b"[1]".to_vec()];
    assert_eq!(
        MessageEnvelope::decode(&array, b"", "hmac-sha256").err(),
        Some(ProtocolError::MalformedFrame)
    );
    let ok = vec![delimiter(), Vec::new(), b"{}".to_vec(), b"{}".to_vec(), b"{}".to_vec(), b"{}".to_vec()];
    assert!(MessageEnvelope::decode(&ok, b"", "hmac-sha256").is_ok());
}

#[test]
fn hmac_sha512_known_vector() {
    let sig = sign(b"key", "hmac-sha512", b"The quick brown fox jumps over the lazy dog").unwrap();
    assert_eq!(
        String::from_utf8(sig).unwrap(),
        "b42af09057bac1e2d41708e48a902e09b5ff7f12ab428a4fe86653c73dd248fb82f948a549f7b791a5b41915ee4d1ec3935357e4e2317250d0372afa2ebeeb3a"
    );
}

#[test]
fn round_trip_sha512() {
    let e = sample(vec![]);
    let frames = e.encode(b"secret", "hmac-sha512").unwrap();
    assert_eq!(frames[1].len(), 128);
    let d = MessageEnvelope::decode(&frames, b"secret", "hmac-sha512").unwrap();
    assert!(same(&d, &e));
    assert_eq!(
        MessageEnvelope::decode(&frames, b"secret", "hmac-sha256").err(),
        Some(ProtocolError::SignatureMismatch)
    );
}

#[test]
fn identities_are_retained() {
    let e = sample(vec![b"a".to_vec(), b"b".to_vec()]);
    let frames = e.encode(b"abc", "hmac-sha256").unwrap();
    let d = MessageEnvelope::decode(&frames, b"abc", "hmac-sha256").unwrap();
    assert_eq!(d.identities, vec![b"a".to_vec(), b"b".to_vec()]);
    assert_eq!(d.buffers, vec![vec![1u8, 2, 3]]);
}

use styx_core::b64::{b64url_decode, b64url_encode};
use styx_core::envelope::{
    algo_code, algo_from_code, decode, encode, kind_code, kind_from_code, uleb128_decode,
    uleb128_encode, var_bytes_decode, var_bytes_encode, Algo, Env, EnvError, Kind, STYX_V1,
};

fn plain_env(body: &[u8]) -> Env {
    Env {
        v: STYX_V1,
        kind: Kind::Message,
        algo: Algo::Pmf1,
        id: [0u8; 32],
        to_hash: None,
        from: None,
        nonce: None,
        body: body.to_vec(),
        aad: None,
        sig: None,
    }
}

#[test]
fn example_vector() {
    let env = plain_env(b"hi");
    let encoded = encode(&env).expect("encode");
    let mut expected = vec![0x53u8, 0x54, 0x59, 0x58, 0x01, 0x01, 0x00, 0x00, 0x01];
    expected.extend_from_slice(&[0u8; 32]);
    expected.extend_from_slice(&[0x02, 0x68, 0x69]);
    assert_eq!(encoded, expected);
}

#[test]
fn round_trip_minimal() {
    let env = plain_env(b"hello");
    let encoded = encode(&env).expect("encode");
    let decoded = decode(&encoded).expect("decode");
    assert_eq!(decoded, env);
}

#[test]
fn round_trip_all_fields() {
    let env = Env {
        v: 1,
        kind: Kind::Keybundle,
        algo: Algo::Pmf1,
        id: [7u8; 32],
        to_hash: Some([1u8; 32]),
        from: Some([2u8; 32]),
        nonce: Some(vec![9, 9, 9]),
        body: vec![4; 200],
        aad: Some(vec![]),
        sig: Some(vec![5; 70]),
    };
    let encoded = encode(&env).expect("encode");
    let decoded = decode(&encoded).expect("decode");
    assert_eq!(decoded, env);
}

#[test]
fn round_trip_reveal_kind() {
    let mut env = plain_env(b"");
    env.kind = Kind::Reveal;
    let encoded = encode(&env).expect("encode");
    let decoded = decode(&encoded).expect("decode");
    assert_eq!(decoded.kind, Kind::Reveal);
    assert_eq!(decoded.body, Vec::<u8>::new());
}

#[test]
fn encode_rejects_other_versions() {
    let mut env = plain_env(b"x");
    env.v = 2;
    assert_eq!(encode(&env), Err(EnvError::UnsupportedVersion));
}

#[test]
fn trailing_bytes_rejected() {
    let env = plain_env(b"payload");
    let mut encoded = encode(&env).expect("encode");
    encoded.push(0x00);
    assert_eq!(decode(&encoded), Err(EnvError::TrailingBytes));
}

#[test]
fn bad_magic_rejected() {
    let env = plain_env(b"x");
    let mut encoded = encode(&env).expect("encode");
    encoded[0] = 0x54;
    assert_eq!(decode(&encoded), Err(EnvError::BadMagic));
}

#[test]
fn bad_version_rejected() {
    let env = plain_env(b"x");
    let mut encoded = encode(&env).expect("encode");
    encoded[4] = 3;
    assert_eq!(decode(&encoded), Err(EnvError::UnsupportedVersion));
}

#[test]
fn unknown_kind_rejected() {
    let env = plain_env(b"x");
    let mut encoded = encode(&env).expect("encode");
    encoded[5] = 9;
    assert_eq!(decode(&encoded), Err(EnvError::UnknownKind));
}

#[test]
fn unknown_algo_rejected() {
    let env = plain_env(b"x");
    let mut encoded = encode(&env).expect("encode");
    encoded[8] = 0;
    assert_eq!(decode(&encoded), Err(EnvError::UnknownAlgo));
}

#[test]
fn short_buffer_rejected() {
    assert_eq!(decode(&[0x53, 0x54, 0x59, 0x58, 1]), Err(EnvError::TooShort));
    assert_eq!(decode(&[]), Err(EnvError::TooShort));
}

#[test]
fn flagged_field_past_end_rejected() {
    let mut env = plain_env(b"x");
    env.to_hash = Some([3u8; 32]);
    let encoded = encode(&env).expect("encode");
    // Drop the tail so that the flagged 32-byte field cannot be read whole.
    let truncated = &encoded[..44];
    assert_eq!(decode(truncated), Err(EnvError::TooShort));
}

#[test]
fn declared_length_past_end_rejected() {
    let env = plain_env(b"abc");
    let mut encoded = encode(&env).expect("encode");
    let body_len_at = 4 + 1 + 1 + 2 + 1 + 32;
    encoded[body_len_at] = 50;
    assert_eq!(decode(&encoded), Err(EnvError::VarBytesOutOfRange));
}

#[test]
fn uleb128_known_values() {
    assert_eq!(uleb128_encode(0), vec![0x00]);
    assert_eq!(uleb128_encode(127), vec![0x7f]);
    assert_eq!(uleb128_encode(128), vec![0x80, 0x01]);
    assert_eq!(uleb128_encode(300), vec![0xac, 0x02]);
    assert_eq!(uleb128_decode(&[0xac, 0x02], 0), Ok((300, 2)));
    assert_eq!(uleb128_decode(&[0x00], 0), Ok((0, 1)));
}

#[test]
fn uleb128_round_trip_sizes() {
    for &n in &[0usize, 1, 127, 128, 16383, 16384, 2097151, 2097152, 268435455, 268435456] {
        let enc = uleb128_encode(n);
        assert_eq!(uleb128_decode(&enc, 0), Ok((n, enc.len())));
    }
}

#[test]
fn uleb128_accepts_redundant_zero_digit() {
    // A non-minimal length prefix still reads back as its value.
    assert_eq!(uleb128_decode(&[0x80, 0x00], 0), Ok((0, 2)));
}

#[test]
fn uleb128_truncated_rejected() {
    assert_eq!(uleb128_decode(&[0x80], 0), Err(EnvError::VarintTruncated));
    assert_eq!(uleb128_decode(&[], 0), Err(EnvError::VarintTruncated));
}

#[test]
fn uleb128_too_wide_rejected() {
    assert_eq!(
        uleb128_decode(&[0x80, 0x80, 0x80, 0x80, 0x80, 0x01], 0),
        Err(EnvError::VarintTooLarge)
    );
}

#[test]
fn var_bytes_round_trip() {
    let enc = var_bytes_encode(b"abcde");
    assert_eq!(enc[0], 5);
    let (v, read) = var_bytes_decode(&enc, 0).expect("decode");
    assert_eq!(v, b"abcde".to_vec());
    assert_eq!(read, 6);
}

#[test]
fn var_bytes_out_of_range() {
    assert_eq!(var_bytes_decode(&[5, 1, 2], 0), Err(EnvError::VarBytesOutOfRange));
}

#[test]
fn kind_and_algo_codes() {
    assert_eq!(kind_code(&Kind::Message), 1);
    assert_eq!(kind_code(&Kind::Reveal), 2);
    assert_eq!(kind_code(&Kind::Keybundle), 3);
    assert_eq!(kind_from_code(1), Some(Kind::Message));
    assert_eq!(kind_from_code(2), Some(Kind::Reveal));
    assert_eq!(kind_from_code(3), Some(Kind::Keybundle));
    assert_eq!(kind_from_code(4), None);
    assert_eq!(algo_code(&Algo::Pmf1), 1);
    assert_eq!(algo_from_code(1), Some(Algo::Pmf1));
    assert_eq!(algo_from_code(2), None);
}

#[test]
fn b64url_token_form() {
    let env = plain_env(b"hi");
    let encoded = encode(&env).expect("encode");
    let text = b64url_encode(&encoded);
    assert!(!text.contains('='));
    let memo = format!("styx1:{}", text);
    assert!(memo.starts_with("styx1:"));
    let back = b64url_decode(&text).expect("b64 decode");
    assert_eq!(back, encoded);
    assert_eq!(decode(&back).expect("decode"), env);
}

#[test]
fn b64url_known_value() {
    assert_eq!(b64url_encode(&[0, 0, 0]), "AAAA");
    assert_eq!(b64url_encode(&[251, 255]), "-_8");
    assert_eq!(b64url_decode("AAAA").expect("decode"), vec![0, 0, 0]);
    assert!(b64url_decode("!!!").is_err());
}

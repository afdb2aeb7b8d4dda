use sodiumoxide::crypto::box_;
use sodiumoxide::crypto::hash::sha512 as sodium_sha512;
use sodiumoxide::crypto::secretbox as sodium_secretbox;
use tox_packet::binary_io::{DecodeError, EncodeError};
use tox_packet::cookie::{
    Cookie, EncryptedCookie, COOKIE_PAYLOAD_SIZE, COOKIE_SIZE, COOKIE_TIMEOUT,
    ENCRYPTED_COOKIE_SIZE,
};
use tox_packet::crypto_core::{DecryptError, PublicKey};
use tox_packet::secretbox;

fn cookie_gen_public_key() -> PublicKey {
    PublicKey(box_::gen_keypair().0 .0)
}

fn cookie_gen_key() -> secretbox::Key {
    secretbox::Key(sodium_secretbox::gen_key().0)
}

fn cookie_gen_nonce() -> secretbox::Nonce {
    secretbox::Nonce(sodium_secretbox::gen_nonce().0)
}

fn cookie_seal(message: &[u8], nonce: &secretbox::Nonce, key: &secretbox::Key) -> Vec<u8> {
    sodium_secretbox::seal(
        message,
        &sodium_secretbox::Nonce(nonce.0),
        &sodium_secretbox::Key(key.0),
    )
}

fn cookie_wire(cookie: &Cookie) -> Vec<u8> {
    let mut buf = [0; COOKIE_SIZE];
    let size = cookie.to_bytes(&mut buf, 0).unwrap();
    buf[..size].to_vec()
}

#[test]
fn cookie_encode_decode() {
    let value = Cookie {
        time: 12345,
        real_pk: cookie_gen_public_key(),
        dht_pk: cookie_gen_public_key(),
    };
    let mut buf = [0; 1024 * 1024];
    let size = value.to_bytes(&mut buf, 0).unwrap();
    assert!(size <= 1024 * 1024);
    let (rest, decoded_value) = Cookie::from_bytes(&buf[..size]).unwrap();
    assert!(rest.is_empty());
    assert_eq!(decoded_value, value);
}

#[test]
fn encrypted_cookie_encode_decode() {
    let value = EncryptedCookie {
        nonce: cookie_gen_nonce(),
        payload: vec![42; 88],
    };
    let mut buf = [0; 1024 * 1024];
    let size = value.to_bytes(&mut buf, 0).unwrap();
    assert!(size <= 1024 * 1024);
    let (rest, decoded_value) = EncryptedCookie::from_bytes(&buf[..size]).unwrap();
    assert!(rest.is_empty());
    assert_eq!(decoded_value, value);
}

#[test]
fn cookie_encrypt_decrypt() {
    let symmetric_key = cookie_gen_key();
    let payload = Cookie::new(cookie_gen_public_key(), cookie_gen_public_key());
    // encode payload with symmetric key
    let encrypted_cookie = EncryptedCookie::new(&symmetric_key, &payload);
    // decode payload with symmetric key
    let decoded_payload = encrypted_cookie.get_payload(&symmetric_key).unwrap();
    // payloads should be equal
    assert_eq!(decoded_payload, payload);
}

#[test]
fn cookie_encrypt_decrypt_invalid_key() {
    let symmetric_key = cookie_gen_key();
    let eve_symmetric_key = cookie_gen_key();
    let payload = Cookie::new(cookie_gen_public_key(), cookie_gen_public_key());
    // encode payload with symmetric key
    let encrypted_cookie = EncryptedCookie::new(&symmetric_key, &payload);
    // try to decode payload with eve's symmetric key
    let decoded_payload = encrypted_cookie.get_payload(&eve_symmetric_key);
    assert!(decoded_payload.is_err());
}

#[test]
fn cookie_encrypt_decrypt_invalid() {
    let symmetric_key = cookie_gen_key();
    let nonce = cookie_gen_nonce();
    // Try long invalid array
    let invalid_payload = [42; 123];
    let invalid_payload_encoded = cookie_seal(&invalid_payload, &nonce, &symmetric_key);
    let invalid_encrypted_cookie = EncryptedCookie {
        nonce,
        payload: invalid_payload_encoded,
    };
    let decoded_payload = invalid_encrypted_cookie.get_payload(&symmetric_key);
    assert!(decoded_payload.is_err());
    // Try short incomplete array
    let invalid_payload = [];
    let invalid_payload_encoded = cookie_seal(&invalid_payload, &nonce, &symmetric_key);
    let invalid_encrypted_cookie = EncryptedCookie {
        nonce,
        payload: invalid_payload_encoded,
    };
    let decoded_payload = invalid_encrypted_cookie.get_payload(&symmetric_key);
    assert!(decoded_payload.is_err());
}

#[test]
fn cookie_timed_out() {
    let mut cookie = Cookie::new(cookie_gen_public_key(), cookie_gen_public_key());
    assert!(!cookie.is_timed_out());
    cookie.time -= COOKIE_TIMEOUT + 1;
    assert!(cookie.is_timed_out());
}

#[test]
fn hash_depends_on_all_fields() {
    let nonce = cookie_gen_nonce();
    let payload = vec![42; 88];
    let cookie = EncryptedCookie {
        nonce,
        payload: payload.clone(),
    };

    let cookie_1 = EncryptedCookie {
        nonce,
        payload: vec![43; 88],
    };
    let cookie_2 = EncryptedCookie {
        nonce: cookie_gen_nonce(),
        payload,
    };

    assert!(cookie.hash() != cookie_1.hash());
    assert!(cookie.hash() != cookie_2.hash());
}

#[test]
fn cookie_new_keeps_keys_and_stamps_the_clock() {
    let real_pk = cookie_gen_public_key();
    let dht_pk = cookie_gen_public_key();
    let before = std::time::SystemTime::now()
        .duration_since(std::time::UNIX_EPOCH)
        .unwrap()
        .as_secs();
    let cookie = Cookie::new(real_pk, dht_pk);
    let after = std::time::SystemTime::now()
        .duration_since(std::time::UNIX_EPOCH)
        .unwrap()
        .as_secs();
    assert_eq!(cookie.real_pk, real_pk);
    assert_eq!(cookie.dht_pk, dht_pk);
    assert!(before <= cookie.time && cookie.time <= after);
}

#[test]
fn cookie_timeout_boundary() {
    let now = 1_000_000;
    let mut cookie = Cookie {
        time: now,
        real_pk: PublicKey([1; 32]),
        dht_pk: PublicKey([2; 32]),
    };
    assert!(!cookie.is_timed_out_at(now));
    cookie.time = now - COOKIE_TIMEOUT;
    assert!(!cookie.is_timed_out_at(now));
    cookie.time = now - (COOKIE_TIMEOUT + 1);
    assert!(cookie.is_timed_out_at(now));
    cookie.time = 0;
    assert!(!cookie.is_timed_out_at(15));
    assert!(cookie.is_timed_out_at(16));
}

#[test]
fn cookie_from_the_future_is_not_timed_out() {
    let mut cookie = Cookie {
        time: 2_000_000,
        real_pk: PublicKey([1; 32]),
        dht_pk: PublicKey([2; 32]),
    };
    assert!(!cookie.is_timed_out_at(1_000_000));
    cookie.time = u64::MAX;
    assert!(!cookie.is_timed_out_at(0));
    assert!(!cookie.is_timed_out_at(u64::MAX));
    cookie.time = u64::MAX - 15;
    assert!(!cookie.is_timed_out_at(u64::MAX));
    cookie.time = u64::MAX - 16;
    assert!(cookie.is_timed_out_at(u64::MAX));
}

#[test]
fn cookie_wire_form_is_exact() {
    let cookie = Cookie {
        time: 12345,
        real_pk: PublicKey([0xaa; 32]),
        dht_pk: PublicKey([0xbb; 32]),
    };
    let mut expected = vec![0, 0, 0, 0, 0, 0, 0x30, 0x39];
    expected.extend_from_slice(&[0xaa; 32]);
    expected.extend_from_slice(&[0xbb; 32]);
    assert_eq!(expected.len(), 72);
    assert_eq!(cookie_wire(&cookie), expected);

    let cookie = Cookie {
        time: 0x0102_0304_0506_0708,
        real_pk: PublicKey([0; 32]),
        dht_pk: PublicKey([0xff; 32]),
    };
    let wire = cookie_wire(&cookie);
    assert_eq!(&wire[..8], &[1, 2, 3, 4, 5, 6, 7, 8]);
    assert_eq!(&wire[8..40], &[0; 32]);
    assert_eq!(&wire[40..], &[0xff; 32]);
}

#[test]
fn cookie_to_bytes_at_an_offset_leaves_the_rest() {
    let cookie = Cookie {
        time: u64::MAX,
        real_pk: PublicKey([3; 32]),
        dht_pk: PublicKey([4; 32]),
    };
    let mut buf = [7; 80];
    assert_eq!(cookie.to_bytes(&mut buf, 5), Ok(77));
    assert_eq!(&buf[..5], &[7; 5]);
    assert_eq!(&buf[5..13], &[0xff; 8]);
    assert_eq!(&buf[13..45], &[3; 32]);
    assert_eq!(&buf[45..77], &[4; 32]);
    assert_eq!(&buf[77..], &[7; 3]);
}

#[test]
fn cookie_to_bytes_buffer_too_small() {
    let cookie = Cookie {
        time: 1,
        real_pk: PublicKey([3; 32]),
        dht_pk: PublicKey([4; 32]),
    };
    let mut buf = [7; 80];
    assert_eq!(cookie.to_bytes(&mut buf, 9), Err(EncodeError::BufferTooSmall));
    assert_eq!(buf, [7; 80]);
    assert_eq!(cookie.to_bytes(&mut buf, 81), Err(EncodeError::BufferTooSmall));
    assert_eq!(cookie.to_bytes(&mut buf, usize::MAX), Err(EncodeError::BufferTooSmall));
    assert_eq!(buf, [7; 80]);
    let mut exact = [0; 72];
    assert_eq!(cookie.to_bytes(&mut exact, 0), Ok(72));
    let mut short = [0; 71];
    assert_eq!(cookie.to_bytes(&mut short, 0), Err(EncodeError::BufferTooSmall));
    let mut none: [u8; 0] = [];
    assert_eq!(cookie.to_bytes(&mut none, 0), Err(EncodeError::BufferTooSmall));
}

#[test]
fn cookie_from_bytes_wants_exactly_its_bytes() {
    let bytes = [9; 73];
    assert_eq!(Cookie::from_bytes(&bytes), Err(DecodeError::TrailingBytes));
    assert_eq!(Cookie::from_bytes(&bytes[..71]), Err(DecodeError::Incomplete));
    assert_eq!(Cookie::from_bytes(&bytes[..40]), Err(DecodeError::Incomplete));
    assert_eq!(Cookie::from_bytes(&bytes[..7]), Err(DecodeError::Incomplete));
    assert_eq!(Cookie::from_bytes(&[]), Err(DecodeError::Incomplete));
    let (rest, cookie) = Cookie::from_bytes(&bytes[..72]).unwrap();
    assert!(rest.is_empty());
    assert_eq!(
        cookie,
        Cookie {
            time: 0x0909_0909_0909_0909,
            real_pk: PublicKey([9; 32]),
            dht_pk: PublicKey([9; 32]),
        }
    );
}

#[test]
fn cookie_wire_of_parsed_is_the_input() {
    let mut bytes = [0; 72];
    for (i, byte) in bytes.iter_mut().enumerate() {
        *byte = (i * 3 + 1) as u8;
    }
    let (_, cookie) = Cookie::from_bytes(&bytes).unwrap();
    assert_eq!(cookie_wire(&cookie), bytes.to_vec());
}

#[test]
fn encrypted_cookie_from_bytes_leaves_what_follows() {
    let mut bytes = vec![1; 24];
    bytes.extend_from_slice(&[2; 88]);
    bytes.extend_from_slice(&[3; 5]);
    let (rest, cookie) = EncryptedCookie::from_bytes(&bytes).unwrap();
    assert_eq!(rest, &[3; 5]);
    assert_eq!(cookie.nonce, secretbox::Nonce([1; 24]));
    assert_eq!(cookie.payload, vec![2; 88]);
    assert_eq!(
        EncryptedCookie::from_bytes(&bytes[..111]),
        Err(DecodeError::Incomplete)
    );
    assert_eq!(
        EncryptedCookie::from_bytes(&bytes[..23]),
        Err(DecodeError::Incomplete)
    );
    let (rest, _) = EncryptedCookie::from_bytes(&bytes[..112]).unwrap();
    assert!(rest.is_empty());
}

#[test]
fn encrypted_cookie_to_bytes_is_nonce_then_payload() {
    let cookie = EncryptedCookie {
        nonce: secretbox::Nonce([5; 24]),
        payload: vec![6; 88],
    };
    let mut buf = [0; ENCRYPTED_COOKIE_SIZE + 2];
    assert_eq!(cookie.to_bytes(&mut buf, 1), Ok(113));
    assert_eq!(buf[0], 0);
    assert_eq!(&buf[1..25], &[5; 24]);
    assert_eq!(&buf[25..113], &[6; 88]);
    assert_eq!(buf[113], 0);
    assert_eq!(cookie.to_bytes(&mut buf, 3), Err(EncodeError::BufferTooSmall));
}

#[test]
fn encrypted_cookie_new_seals_the_wire_form() {
    let symmetric_key = cookie_gen_key();
    let payload = Cookie {
        time: 12345,
        real_pk: cookie_gen_public_key(),
        dht_pk: cookie_gen_public_key(),
    };
    let encrypted_cookie = EncryptedCookie::new(&symmetric_key, &payload);
    let wire = cookie_wire(&payload);
    assert_eq!(encrypted_cookie.payload.len(), COOKIE_PAYLOAD_SIZE);
    assert_eq!(
        encrypted_cookie.payload,
        cookie_seal(&wire, &encrypted_cookie.nonce, &symmetric_key)
    );
    assert_ne!(&encrypted_cookie.payload[..72], &wire[..]);
    assert_ne!(&encrypted_cookie.payload[16..], &wire[..]);
}

#[test]
fn encrypted_cookie_new_draws_a_fresh_nonce() {
    let symmetric_key = cookie_gen_key();
    let payload = Cookie::new(cookie_gen_public_key(), cookie_gen_public_key());
    let first = EncryptedCookie::new(&symmetric_key, &payload);
    let second = EncryptedCookie::new(&symmetric_key, &payload);
    assert_ne!(first.nonce, second.nonce);
    assert_ne!(first.payload, second.payload);
}

#[test]
fn cookie_scenario_time_12345() {
    let real_pk = cookie_gen_public_key();
    let dht_pk = cookie_gen_public_key();
    let symmetric_key = cookie_gen_key();
    let cookie = Cookie {
        time: 12345,
        real_pk,
        dht_pk,
    };
    let encrypted_cookie = EncryptedCookie::new(&symmetric_key, &cookie);
    assert_eq!(
        encrypted_cookie.get_payload(&symmetric_key),
        Ok(Cookie {
            time: 12345,
            real_pk,
            dht_pk,
        })
    );
}

#[test]
fn cookie_get_payload_sealed_elsewhere() {
    let symmetric_key = cookie_gen_key();
    let nonce = cookie_gen_nonce();
    let cookie = Cookie {
        time: 77,
        real_pk: PublicKey([8; 32]),
        dht_pk: PublicKey([9; 32]),
    };
    let encrypted_cookie = EncryptedCookie {
        nonce,
        payload: cookie_seal(&cookie_wire(&cookie), &nonce, &symmetric_key),
    };
    assert_eq!(encrypted_cookie.get_payload(&symmetric_key), Ok(cookie));
}

#[test]
fn cookie_get_payload_names_the_failure() {
    let symmetric_key = cookie_gen_key();
    let eve_symmetric_key = cookie_gen_key();
    let nonce = cookie_gen_nonce();
    let payload = Cookie::new(cookie_gen_public_key(), cookie_gen_public_key());
    let encrypted_cookie = EncryptedCookie::new(&symmetric_key, &payload);
    assert_eq!(
        encrypted_cookie.get_payload(&eve_symmetric_key),
        Err(DecryptError::DecryptionFailed)
    );
    let long = EncryptedCookie {
        nonce,
        payload: cookie_seal(&[42; 123], &nonce, &symmetric_key),
    };
    assert_eq!(
        long.get_payload(&symmetric_key),
        Err(DecryptError::MalformedPayload(DecodeError::TrailingBytes))
    );
    let short = EncryptedCookie {
        nonce,
        payload: cookie_seal(&[], &nonce, &symmetric_key),
    };
    assert_eq!(
        short.get_payload(&symmetric_key),
        Err(DecryptError::MalformedPayload(DecodeError::Incomplete))
    );
    let empty = EncryptedCookie {
        nonce,
        payload: vec![],
    };
    assert_eq!(
        empty.get_payload(&symmetric_key),
        Err(DecryptError::DecryptionFailed)
    );
}

#[test]
fn cookie_from_opened_maps_each_answer() {
    assert_eq!(
        Cookie::from_opened(None),
        Err(DecryptError::DecryptionFailed)
    );
    assert_eq!(
        Cookie::from_opened(Some(vec![0; 71])),
        Err(DecryptError::MalformedPayload(DecodeError::Incomplete))
    );
    assert_eq!(
        Cookie::from_opened(Some(vec![0; 73])),
        Err(DecryptError::MalformedPayload(DecodeError::TrailingBytes))
    );
    assert_eq!(
        Cookie::from_opened(Some(vec![1; 72])),
        Ok(Cookie {
            time: 0x0101_0101_0101_0101,
            real_pk: PublicKey([1; 32]),
            dht_pk: PublicKey([1; 32]),
        })
    );
}

#[test]
fn cookie_tampered_payload_is_rejected() {
    let symmetric_key = cookie_gen_key();
    let payload = Cookie::new(cookie_gen_public_key(), cookie_gen_public_key());
    let encrypted_cookie = EncryptedCookie::new(&symmetric_key, &payload);
    for i in 0..encrypted_cookie.payload.len() {
        let mut tampered = encrypted_cookie.clone();
        tampered.payload[i] ^= 0x20;
        assert_eq!(
            tampered.get_payload(&symmetric_key),
            Err(DecryptError::DecryptionFailed)
        );
    }
    let mut other_nonce = encrypted_cookie.clone();
    other_nonce.nonce.0[0] ^= 1;
    assert!(other_nonce.get_payload(&symmetric_key).is_err());
    let mut truncated = encrypted_cookie.clone();
    truncated.payload.pop();
    assert!(truncated.get_payload(&symmetric_key).is_err());
    let mut extended = encrypted_cookie.clone();
    extended.payload.push(0);
    assert!(extended.get_payload(&symmetric_key).is_err());
    assert_eq!(encrypted_cookie.get_payload(&symmetric_key), Ok(payload));
}

#[test]
fn hash_is_sha512_of_the_wire_form() {
    let cookie = EncryptedCookie {
        nonce: secretbox::Nonce([1; 24]),
        payload: vec![42; 88],
    };
    let mut wire = vec![1; 24];
    wire.extend_from_slice(&[42; 88]);
    assert_eq!(cookie.hash().0, sodium_sha512::hash(&wire).0);
    assert_eq!(cookie.hash(), cookie.clone().hash());
    assert_ne!(&cookie.hash().0[..], &wire[..64]);
}

#[test]
fn hash_known_digests() {
    let cookie = EncryptedCookie {
        nonce: secretbox::Nonce([1; 24]),
        payload: vec![42; 88],
    };
    let expected: [u8; 64] = [
        0x8f, 0xf6, 0xb0, 0x0c, 0x9c, 0xf7, 0xb4, 0x5e, 0x69, 0xf1, 0x4c, 0x4b, 0xe1, 0x62, 0xa5,
        0x92, 0xe2, 0x1e, 0xa8, 0x93, 0x28, 0x02, 0xc1, 0x36, 0xf1, 0x02, 0xe6, 0x96, 0x97, 0x30,
        0x83, 0xaa, 0x44, 0x6f, 0x03, 0x93, 0x7a, 0x2d, 0xeb, 0x2d, 0x2c, 0x0b, 0xf1, 0xc5, 0x53,
        0x0b, 0x73, 0xdb, 0x69, 0xb2, 0x18, 0xcf, 0x95, 0x2d, 0x81, 0xaa, 0x69, 0x0a, 0x4e, 0x52,
        0x33, 0xd6, 0x0a, 0x4d,
    ];
    assert_eq!(cookie.hash().0, expected);
    // a shorter payload is hashed as it is: here, the nonce alone
    let bare = EncryptedCookie {
        nonce: secretbox::Nonce([0; 24]),
        payload: vec![],
    };
    let expected: [u8; 64] = [
        0x11, 0xbb, 0x99, 0x4b, 0x5d, 0x2e, 0xab, 0x48, 0xb1, 0x86, 0x67, 0xc7, 0xd8, 0x94, 0x3e,
        0x82, 0xc9, 0x01, 0x1c, 0xb1, 0xd9, 0x74, 0x30, 0x4b, 0x8f, 0x2b, 0x62, 0x47, 0xa7, 0xe6,
        0xb7, 0xf5, 0x5c, 0xa2, 0xf7, 0xc6, 0x28, 0x93, 0x64, 0x4c, 0x37, 0x28, 0xd1, 0x7d, 0xaf,
        0xd7, 0x4a, 0xe3, 0xba, 0x46, 0x27, 0x1c, 0xf6, 0x28, 0x7b, 0xb9, 0xe7, 0x51, 0xc7, 0x79,
        0xa2, 0x6f, 0xef, 0xc5,
    ];
    assert_eq!(bare.hash().0, expected);
}

#[test]
fn encrypted_cookie_with_nonce_is_determined() {
    let symmetric_key = secretbox::Key([7; 32]);
    let nonce = secretbox::Nonce([9; 24]);
    let payload = Cookie {
        time: 12345,
        real_pk: PublicKey([1; 32]),
        dht_pk: PublicKey([2; 32]),
    };
    let first = EncryptedCookie::with_nonce(&symmetric_key, &payload, nonce);
    let second = EncryptedCookie::with_nonce(&symmetric_key, &payload, nonce);
    assert_eq!(first, second);
    assert_eq!(first.nonce, nonce);
    assert_eq!(first.payload.len(), COOKIE_PAYLOAD_SIZE);
    assert_eq!(
        first.payload,
        cookie_seal(&cookie_wire(&payload), &nonce, &symmetric_key)
    );
    assert_eq!(first.get_payload(&symmetric_key), Ok(payload.clone()));
    assert_eq!(first.hash(), second.hash());
    let other = EncryptedCookie::with_nonce(&symmetric_key, &payload, secretbox::Nonce([8; 24]));
    assert_ne!(other.payload, first.payload);
    assert_eq!(other.get_payload(&symmetric_key), Ok(payload));
    let mut wire = [0; ENCRYPTED_COOKIE_SIZE];
    assert_eq!(first.to_bytes(&mut wire, 0), Ok(ENCRYPTED_COOKIE_SIZE));
    let (rest, read) = EncryptedCookie::from_bytes(&wire).unwrap();
    assert!(rest.is_empty());
    assert_eq!(read, first);
}

#[test]
fn secret_keys_can_be_wiped() {
    let mut key = secretbox::Key([7; 32]);
    key.wipe();
    assert_eq!(key.0, [0; 32]);
    let mut shared = tox_packet::crypto_core::PrecomputedKey([0xff; 32]);
    shared.wipe();
    assert_eq!(shared.0, [0; 32]);
}

#[test]
fn sizes_are_the_ciphers() {
    assert_eq!(secretbox::KEYBYTES, sodium_secretbox::KEYBYTES);
    assert_eq!(secretbox::NONCEBYTES, sodium_secretbox::NONCEBYTES);
    assert_eq!(secretbox::MACBYTES, sodium_secretbox::MACBYTES);
    assert_eq!(tox_packet::sha512::DIGESTBYTES, sodium_sha512::DIGESTBYTES);
    assert_eq!(tox_packet::crypto_core::PUBLICKEYBYTES, box_::PUBLICKEYBYTES);
    assert_eq!(
        tox_packet::crypto_core::PRECOMPUTEDKEYBYTES,
        box_::PRECOMPUTEDKEYBYTES
    );
    assert_eq!(COOKIE_SIZE, 8 + 2 * box_::PUBLICKEYBYTES);
    assert_eq!(COOKIE_PAYLOAD_SIZE, COOKIE_SIZE + sodium_secretbox::MACBYTES);
    assert_eq!(
        ENCRYPTED_COOKIE_SIZE,
        sodium_secretbox::NONCEBYTES + COOKIE_PAYLOAD_SIZE
    );
    assert_eq!(COOKIE_TIMEOUT, 15);
}

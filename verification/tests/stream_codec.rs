use chacha20poly1305::aead::stream::EncryptorBE32;
use chacha20poly1305::aead::Aead;
use chacha20poly1305::{Key, KeyInit, XChaCha20Poly1305, XNonce};
use envio::cipher::aead::{StreamOpener, StreamSealer};
use envio::cipher::stream::{open, seal, CHUNK_SIZE, SEALED_CHUNK_SIZE};
use envio::error::{CipherError, EnvioError, MetadataError};

fn key() -> Vec<u8> {
    (0u8..32).collect()
}

fn other_key() -> Vec<u8> {
    (1u8..33).collect()
}

fn prefix() -> Vec<u8> {
    (100u8..119).collect()
}

fn payload(len: usize) -> Vec<u8> {
    (0..len).map(|i| (i % 251) as u8).collect()
}

fn chunks_of(len: usize) -> usize {
    if len <= 1024 {
        1
    } else {
        (len - 1) / 1024 + 1
    }
}

fn auth_failure() -> Result<Vec<u8>, EnvioError> {
    Err(EnvioError::Cipher(CipherError::Authentication))
}

fn check_round_trip(len: usize) {
    let data = payload(len);
    let sealed = seal(&key(), &prefix(), &data).unwrap();
    assert_eq!(sealed.len(), len + 16 * chunks_of(len));
    assert_eq!(open(&key(), &prefix(), &sealed), Ok(data));
}

fn check_wrong_key(len: usize) {
    let sealed = seal(&key(), &prefix(), &payload(len)).unwrap();
    assert_eq!(open(&other_key(), &prefix(), &sealed), auth_failure());
}

#[test]
fn wire_constants() {
    assert_eq!(CHUNK_SIZE, 1024);
    assert_eq!(SEALED_CHUNK_SIZE, 1040);
    assert_eq!(envio::cipher::aead::NONCE_PREFIX_LEN, 19);
    assert_eq!(envio::cipher::aead::KEY_LEN, 32);
    assert_eq!(envio::cipher::aead::TAG_LEN, 16);
}

#[test]
fn round_trip_empty_payload() {
    check_round_trip(0);
}

#[test]
fn round_trip_one_byte() {
    check_round_trip(1);
}

#[test]
fn round_trip_one_below_chunk() {
    check_round_trip(1023);
}

#[test]
fn round_trip_exact_chunk() {
    check_round_trip(1024);
}

#[test]
fn round_trip_one_above_chunk() {
    check_round_trip(1025);
}

#[test]
fn round_trip_two_exact_chunks() {
    check_round_trip(2048);
}

#[test]
fn round_trip_ten_chunks_and_seven() {
    check_round_trip(10 * 1024 + 7);
}

#[test]
fn empty_payload_is_one_bare_tag() {
    let sealed = seal(&key(), &prefix(), &[]).unwrap();
    assert_eq!(sealed.len(), 16);
}

#[test]
fn exact_chunk_is_sealed_as_the_final_chunk() {
    // 1024 bytes are one final chunk, not an interior chunk and an empty one.
    let sealed = seal(&key(), &prefix(), &payload(1024)).unwrap();
    assert_eq!(sealed.len(), 1040);
    let sealed = seal(&key(), &prefix(), &payload(1025)).unwrap();
    assert_eq!(sealed.len(), 1040 + 1 + 16);
}

#[test]
fn wrong_key_fails_for_every_size() {
    for len in [0usize, 1, 1023, 1024, 1025, 10 * 1024 + 7] {
        check_wrong_key(len);
    }
}

#[test]
fn wrong_prefix_fails() {
    let sealed = seal(&key(), &prefix(), &payload(3000)).unwrap();
    let other: Vec<u8> = (101u8..120).collect();
    assert_eq!(open(&key(), &other, &sealed), auth_failure());
}

#[test]
fn sealing_is_a_function_of_key_prefix_and_data() {
    let a = seal(&key(), &prefix(), &payload(3000)).unwrap();
    let b = seal(&key(), &prefix(), &payload(3000)).unwrap();
    assert_eq!(a, b);
}

#[test]
fn sealing_changes_the_bytes() {
    let data = payload(2000);
    let sealed = seal(&key(), &prefix(), &data).unwrap();
    assert_ne!(&sealed[..1024], &data[..1024]);
    assert_ne!(&sealed[1040..1040 + 976], &data[1024..]);
    let opened = open(&key(), &prefix(), &sealed).unwrap();
    assert_ne!(opened, sealed);
}

#[test]
fn flipping_any_byte_of_a_short_ciphertext_fails() {
    let sealed = seal(&key(), &prefix(), &payload(40)).unwrap();
    for i in 0..sealed.len() {
        let mut bad = sealed.clone();
        bad[i] ^= 0x01;
        assert_eq!(open(&key(), &prefix(), &bad), auth_failure());
    }
}

#[test]
fn flipping_any_byte_of_a_chunked_ciphertext_fails() {
    let sealed = seal(&key(), &prefix(), &payload(2 * 1024 + 100)).unwrap();
    assert_eq!(sealed.len(), 2 * 1040 + 116);
    for i in 0..sealed.len() {
        let mut bad = sealed.clone();
        bad[i] ^= 0x80;
        assert_eq!(open(&key(), &prefix(), &bad), auth_failure());
    }
}

#[test]
fn flipping_an_interior_chunk_byte_fails() {
    let mut sealed = seal(&key(), &prefix(), &payload(2500)).unwrap();
    sealed[10] ^= 0xff;
    assert_eq!(open(&key(), &prefix(), &sealed), auth_failure());
}

#[test]
fn flipping_an_interior_tag_byte_fails() {
    let mut sealed = seal(&key(), &prefix(), &payload(2500)).unwrap();
    sealed[1030] ^= 0xff;
    assert_eq!(open(&key(), &prefix(), &sealed), auth_failure());
}

#[test]
fn flipping_a_final_chunk_byte_fails() {
    let mut sealed = seal(&key(), &prefix(), &payload(2500)).unwrap();
    sealed[2080 + 5] ^= 0xff;
    assert_eq!(open(&key(), &prefix(), &sealed), auth_failure());
}

#[test]
fn flipping_the_final_tag_fails() {
    let mut sealed = seal(&key(), &prefix(), &payload(2500)).unwrap();
    let last = sealed.len() - 1;
    sealed[last] ^= 0xff;
    assert_eq!(open(&key(), &prefix(), &sealed), auth_failure());
}

#[test]
fn dropping_the_final_chunk_fails() {
    let sealed = seal(&key(), &prefix(), &payload(2500)).unwrap();
    assert_eq!(open(&key(), &prefix(), &sealed[..2080]), auth_failure());
    assert_eq!(open(&key(), &prefix(), &sealed[..1040]), auth_failure());
}

#[test]
fn dropping_the_first_chunk_fails() {
    let sealed = seal(&key(), &prefix(), &payload(2500)).unwrap();
    assert_eq!(open(&key(), &prefix(), &sealed[1040..]), auth_failure());
}

#[test]
fn swapping_two_chunks_fails() {
    let sealed = seal(&key(), &prefix(), &payload(3000)).unwrap();
    let mut swapped = Vec::new();
    swapped.extend_from_slice(&sealed[1040..2080]);
    swapped.extend_from_slice(&sealed[..1040]);
    swapped.extend_from_slice(&sealed[2080..]);
    assert_eq!(open(&key(), &prefix(), &swapped), auth_failure());
}

#[test]
fn appending_bytes_fails() {
    let mut sealed = seal(&key(), &prefix(), &payload(100)).unwrap();
    sealed.push(0);
    assert_eq!(open(&key(), &prefix(), &sealed), auth_failure());
}

#[test]
fn a_ciphertext_shorter_than_a_tag_fails() {
    assert_eq!(open(&key(), &prefix(), &[]), auth_failure());
    assert_eq!(open(&key(), &prefix(), &[0u8; 15]), auth_failure());
}

#[test]
fn key_of_wrong_length_is_refused() {
    let expected = Err(EnvioError::Cipher(CipherError::InvalidKeyLength));
    assert_eq!(seal(&key()[..31], &prefix(), b"x"), expected);
    assert_eq!(open(&key()[..31], &prefix(), b"x"), expected);
    let mut long = key();
    long.push(0);
    assert_eq!(seal(&long, &prefix(), b"x"), expected);
    assert_eq!(open(&long, &prefix(), b"x"), expected);
}

#[test]
fn prefix_of_wrong_length_is_refused() {
    let expected = Err(EnvioError::Metadata(MetadataError::Malformed));
    assert_eq!(seal(&key(), &prefix()[..18], b"x"), expected);
    assert_eq!(open(&key(), &prefix()[..18], b"x"), expected);
    let mut long = prefix();
    long.extend_from_slice(&[1, 2, 3, 4, 5]);
    assert_eq!(seal(&key(), &long, b"x"), expected);
    assert_eq!(open(&key(), &long, b"x"), expected);
}

#[test]
fn key_is_looked_at_before_the_prefix() {
    let expected = Err(EnvioError::Cipher(CipherError::InvalidKeyLength));
    assert_eq!(seal(&[], &[], b"x"), expected);
    assert_eq!(open(&[], &[], b"x"), expected);
}

#[test]
fn sealer_and_opener_objects_agree_with_the_functions() {
    let data = payload(5000);
    let sealer = StreamSealer::new(&key(), &prefix()).unwrap();
    let sealed = sealer.seal(&data).unwrap();
    assert_eq!(sealed, seal(&key(), &prefix(), &data).unwrap());
    let opener = StreamOpener::new(&key(), &prefix()).unwrap();
    assert_eq!(opener.open(&sealed), Ok(data));
    assert!(StreamSealer::new(&key()[..5], &prefix()).is_err());
    assert!(StreamOpener::new(&key(), &prefix()[..5]).is_err());
}

#[test]
fn ciphertext_is_what_the_stream_encryptor_writes() {
    // The same loop written directly against the stream encryptor.
    let data = payload(10 * 1024 + 7);
    let mut encryptor = EncryptorBE32::<XChaCha20Poly1305>::from_aead(
        XChaCha20Poly1305::new(Key::from_slice(&key())),
        prefix().as_slice().into(),
    );
    let mut expected = Vec::new();
    let mut offset = 0;
    while offset + 1024 < data.len() {
        expected.extend(encryptor.encrypt_next(&data[offset..offset + 1024]).unwrap());
        offset += 1024;
    }
    expected.extend(encryptor.encrypt_last(&data[offset..]).unwrap());
    assert_eq!(seal(&key(), &prefix(), &data).unwrap(), expected);
}

#[test]
fn each_chunk_is_sealed_under_prefix_counter_and_flag() {
    let data = payload(2 * 1024 + 10);
    let sealed = seal(&key(), &prefix(), &data).unwrap();
    let aead = XChaCha20Poly1305::new(Key::from_slice(&key()));
    let nonce = |position: u32, last: u8| {
        let mut nonce = prefix();
        nonce.extend_from_slice(&position.to_be_bytes());
        nonce.push(last);
        nonce
    };
    let first = aead.encrypt(XNonce::from_slice(&nonce(0, 0)), &data[..1024]).unwrap();
    let second = aead.encrypt(XNonce::from_slice(&nonce(1, 0)), &data[1024..2048]).unwrap();
    let third = aead.encrypt(XNonce::from_slice(&nonce(2, 1)), &data[2048..]).unwrap();
    assert_eq!(&sealed[..1040], first.as_slice());
    assert_eq!(&sealed[1040..2080], second.as_slice());
    assert_eq!(&sealed[2080..], third.as_slice());
}

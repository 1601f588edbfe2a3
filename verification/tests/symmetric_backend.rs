use base64::engine::general_purpose::STANDARD;
use base64::Engine;
use envio::cipher::record::MetadataRecord;
use envio::cipher::secret::SecretString;
use envio::cipher::stream::open;
use envio::cipher::symmetric::metadata::VersionedMetadata;
use envio::cipher::symmetric::v1::{
    check_key_length, decode_key, decrypt, encrypt, encrypt_with, MetadataV1,
};
use envio::cipher::symmetric::SYMMETRIC;
use envio::cipher::{CipherKind, EncryptedContent};
use envio::env::{Env, EnvMap};
use envio::error::{CipherError, EnvioError, MetadataError, UsageError};

fn key_of(bytes: &[u8]) -> String {
    STANDARD.encode(bytes)
}

fn good_key() -> String {
    key_of(&[7u8; 32])
}

fn payload(len: usize) -> Vec<u8> {
    (0..len).map(|i| (i % 253) as u8).collect()
}

fn env(key: &str, value: &str) -> Env {
    Env::from_key_value(key.to_string(), value.to_string())
}

fn two_entries() -> EnvMap {
    let mut map = EnvMap::new();
    map.insert(env("A", "1"));
    map.insert(env("B", "2"));
    map
}

fn bad_length<T>() -> Result<T, EnvioError> {
    Err(EnvioError::Cipher(CipherError::InvalidKeyLength))
}

fn check_v1_round_trip(len: usize) {
    let data = payload(len);
    let (sealed, metadata) = encrypt(&good_key(), &data).unwrap();
    assert_eq!(decrypt(&good_key(), &metadata, &sealed), Ok(data));
}

#[test]
fn symmetric_round_trip_sizes() {
    for len in [0usize, 1, 1023, 1024, 1025, 10 * 1024 + 7] {
        check_v1_round_trip(len);
    }
}

#[test]
fn symmetric_wrong_key_fails_for_every_size() {
    let other = key_of(&[8u8; 32]);
    for len in [0usize, 1, 1023, 1024, 1025, 10 * 1024 + 7] {
        let (sealed, metadata) = encrypt(&good_key(), &payload(len)).unwrap();
        assert_eq!(
            decrypt(&other, &metadata, &sealed),
            Err(EnvioError::Cipher(CipherError::Authentication))
        );
    }
}

#[test]
fn symmetric_tampering_fails() {
    let (sealed, metadata) = encrypt(&good_key(), &payload(2500)).unwrap();
    for i in [0usize, 1030, 1040, 2080, 2085, sealed.len() - 1] {
        let mut bad = sealed.clone();
        bad[i] ^= 0x04;
        assert_eq!(
            decrypt(&good_key(), &metadata, &bad),
            Err(EnvioError::Cipher(CipherError::Authentication))
        );
    }
}

#[test]
fn symmetric_metadata_holds_a_19_byte_nonce() {
    let (_, metadata) = encrypt(&good_key(), b"data").unwrap();
    assert_eq!(STANDARD.decode(&metadata.nonce).unwrap().len(), 19);
}

#[test]
fn symmetric_ciphertext_opens_under_the_decoded_key_and_nonce() {
    let data = payload(3000);
    let (sealed, metadata) = encrypt(&good_key(), &data).unwrap();
    let nonce = STANDARD.decode(&metadata.nonce).unwrap();
    assert_eq!(open(&[7u8; 32], &nonce, &sealed), Ok(data));
}

#[test]
fn symmetric_nonces_are_fresh() {
    let data = payload(100);
    let (first, first_metadata) = encrypt(&good_key(), &data).unwrap();
    let (second, second_metadata) = encrypt(&good_key(), &data).unwrap();
    assert_ne!(first_metadata.nonce, second_metadata.nonce);
    assert_ne!(first, second);
}

#[test]
fn key_of_31_bytes_is_rejected() {
    let key = key_of(&[1u8; 31]);
    assert_eq!(encrypt(&key, b"data").map(|_| ()), bad_length());
    assert_eq!(decrypt(&key, &MetadataV1::default(), b"data"), bad_length());
    assert_eq!(decode_key(&key), bad_length());
}

#[test]
fn key_of_33_bytes_is_rejected() {
    let key = key_of(&[1u8; 33]);
    assert_eq!(encrypt(&key, b"data").map(|_| ()), bad_length());
    assert_eq!(decrypt(&key, &MetadataV1::default(), b"data"), bad_length());
    assert_eq!(decode_key(&key), bad_length());
}

#[test]
fn key_of_32_bytes_is_accepted() {
    assert_eq!(decode_key(&good_key()), Ok(vec![7u8; 32]));
    assert!(encrypt(&good_key(), b"data").is_ok());
}

#[test]
fn empty_key_is_rejected() {
    assert_eq!(decode_key(""), bad_length());
    assert_eq!(encrypt("", b"data").map(|_| ()), bad_length());
}

#[test]
fn key_that_is_not_base64_is_rejected() {
    assert_eq!(
        decode_key("not base64!"),
        Err(EnvioError::Cipher(CipherError::InvalidKeyEncoding))
    );
    assert_eq!(
        encrypt("not base64!", b"data").map(|_| ()),
        Err(EnvioError::Cipher(CipherError::InvalidKeyEncoding))
    );
    assert_eq!(
        decrypt("not base64!", &MetadataV1::default(), b"data"),
        Err(EnvioError::Cipher(CipherError::InvalidKeyEncoding))
    );
}

#[test]
fn check_key_length_wants_32() {
    assert_eq!(check_key_length(&[0u8; 32]), Ok(()));
    assert_eq!(check_key_length(&[0u8; 31]), bad_length());
    assert_eq!(check_key_length(&[0u8; 33]), bad_length());
    assert_eq!(check_key_length(&[]), bad_length());
}

#[test]
fn nonce_that_is_not_base64_is_malformed_metadata() {
    let (sealed, _) = encrypt(&good_key(), b"data").unwrap();
    let metadata = MetadataV1 { nonce: "***".to_string() };
    assert_eq!(
        decrypt(&good_key(), &metadata, &sealed),
        Err(EnvioError::Metadata(MetadataError::Malformed))
    );
}

#[test]
fn nonce_of_wrong_length_is_malformed_metadata() {
    let (sealed, _) = encrypt(&good_key(), b"data").unwrap();
    for len in [0usize, 18, 20, 24] {
        let metadata = MetadataV1 { nonce: STANDARD.encode(vec![3u8; len]) };
        assert_eq!(
            decrypt(&good_key(), &metadata, &sealed),
            Err(EnvioError::Metadata(MetadataError::Malformed))
        );
    }
}

#[test]
fn generated_key_is_32_random_bytes_in_base64() {
    let first = SYMMETRIC::generate_key();
    let second = SYMMETRIC::generate_key();
    assert_eq!(STANDARD.decode(first.as_str()).unwrap().len(), 32);
    assert_ne!(first.as_str(), second.as_str());
    assert!(decode_key(first.as_str()).is_ok());
}

#[test]
fn end_to_end_with_a_generated_key() {
    let key = SYMMETRIC::generate_key();
    let envs = two_entries();
    let mut cipher = SYMMETRIC::new(key.duplicate());
    let content = cipher.encrypt(&envs).unwrap();
    let metadata = cipher.export_metadata().unwrap();

    let mut fresh = SYMMETRIC::new(key);
    fresh.import_metadata(metadata).unwrap();
    assert_eq!(fresh.decrypt(&content), Ok(two_entries()));
}

#[test]
fn symmetric_cipher_decrypts_what_it_encrypted() {
    let mut cipher = SYMMETRIC::new(SecretString::new(good_key()));
    assert_eq!(cipher.kind(), CipherKind::SYMMETRIC);
    let content = cipher.encrypt(&two_entries()).unwrap();
    assert_eq!(cipher.decrypt(&content), Ok(two_entries()));
    assert_eq!(cipher.clone().decrypt(&content), Ok(two_entries()));
    assert_ne!(content.as_bytes().as_slice(), &b"A=1\nB=2\n"[..]);
    assert_eq!(content.as_bytes().len(), 8 + 16);
}

#[test]
fn symmetric_cipher_without_key_never_works() {
    let mut keyed = SYMMETRIC::new(SecretString::new(good_key()));
    let content = keyed.encrypt(&two_entries()).unwrap();
    let mut cipher = SYMMETRIC::unkeyed();
    cipher.import_metadata(keyed.export_metadata().unwrap()).unwrap();
    assert_eq!(cipher.decrypt(&content), Err(EnvioError::Usage(UsageError::MissingKey)));
    assert_eq!(
        cipher.encrypt(&two_entries()),
        Err(EnvioError::Usage(UsageError::MissingKey))
    );
    cipher.set_key(SecretString::new(good_key()));
    assert_eq!(cipher.decrypt(&content), Ok(two_entries()));
}

#[test]
fn symmetric_cipher_with_wrong_key_fails_to_authenticate() {
    let mut cipher = SYMMETRIC::new(SecretString::new(good_key()));
    let content = cipher.encrypt(&two_entries()).unwrap();
    cipher.set_key(SecretString::new(key_of(&[9u8; 32])));
    assert_eq!(
        cipher.decrypt(&content),
        Err(EnvioError::Cipher(CipherError::Authentication))
    );
}

#[test]
fn symmetric_cipher_with_bad_key_leaves_metadata_alone() {
    let mut cipher = SYMMETRIC::new(SecretString::new(key_of(&[1u8; 31])));
    let before = cipher.export_metadata();
    assert_eq!(cipher.encrypt(&two_entries()), bad_length());
    assert_eq!(cipher.export_metadata(), before);
}

#[test]
fn symmetric_metadata_record_round_trip() {
    let metadata = VersionedMetadata::V1(MetadataV1 { nonce: "bm9uY2U=".to_string() });
    let record = metadata.to_record();
    assert_eq!(record.get("version"), Some("1".to_string()));
    assert_eq!(record.get("nonce"), Some("bm9uY2U=".to_string()));
    assert_eq!(record.fields.len(), 2);
    match VersionedMetadata::from_record(&record) {
        Ok(VersionedMetadata::V1(v1)) => assert_eq!(v1.nonce, "bm9uY2U="),
        Err(e) => panic!("{:?}", e),
    }
}

#[test]
fn symmetric_metadata_default_is_version_1_with_empty_nonce() {
    match VersionedMetadata::default() {
        VersionedMetadata::V1(v1) => assert_eq!(v1.nonce, ""),
    }
    match VersionedMetadata::from(MetadataV1 { nonce: "x".to_string() }) {
        VersionedMetadata::V1(v1) => assert_eq!(v1.nonce, "x"),
    }
}

#[test]
fn symmetric_unknown_version_is_a_schema_error() {
    let mut record = MetadataRecord::new();
    record.push("version", "2");
    record.push("nonce", "bm9uY2U=");
    assert_eq!(
        VersionedMetadata::from_record(&record).map(|_| ()),
        Err(EnvioError::Metadata(MetadataError::UnsupportedVersion))
    );
    let mut cipher = SYMMETRIC::unkeyed();
    let before = cipher.export_metadata();
    assert_eq!(
        cipher.import_metadata(record),
        Err(EnvioError::Metadata(MetadataError::UnsupportedVersion))
    );
    assert_eq!(cipher.export_metadata(), before);
}

#[test]
fn symmetric_record_without_version_or_nonce_is_malformed() {
    let malformed = Err(EnvioError::Metadata(MetadataError::Malformed));
    let mut record = MetadataRecord::new();
    assert_eq!(VersionedMetadata::from_record(&record).map(|_| ()), malformed);
    record.push("nonce", "bm9uY2U=");
    assert_eq!(VersionedMetadata::from_record(&record).map(|_| ()), malformed);
    let mut record = MetadataRecord::new();
    record.push("version", "1");
    assert_eq!(VersionedMetadata::from_record(&record).map(|_| ()), malformed);
}

#[test]
fn record_lookup_takes_the_first_field_of_a_name() {
    let mut record = MetadataRecord::new();
    record.push("version", "1");
    record.push("nonce", "first");
    record.push("nonce", "second");
    record.push("extra", "ignored");
    assert_eq!(record.get("nonce"), Some("first".to_string()));
    assert_eq!(record.get("missing"), None);
    assert_eq!(record.clone(), record);
    match VersionedMetadata::from_record(&record) {
        Ok(VersionedMetadata::V1(v1)) => assert_eq!(v1.nonce, "first"),
        Err(e) => panic!("{:?}", e),
    }
}

#[test]
fn encrypted_content_gives_its_bytes() {
    let content = EncryptedContent::Bytes(vec![1, 2, 3]);
    assert_eq!(content.as_bytes(), &vec![1u8, 2, 3]);
    assert_eq!(content.clone(), content);
}

#[test]
fn authentic_payload_that_is_not_text_is_refused() {
    let nonce = [5u8; 19];
    let sealed = envio::cipher::stream::seal(&[7u8; 32], &nonce, &[b'A', b'=', 0xff]).unwrap();
    let mut record = MetadataRecord::new();
    record.push("version", "1");
    record.push("nonce", &STANDARD.encode(nonce));
    let mut cipher = SYMMETRIC::new(SecretString::new(good_key()));
    cipher.import_metadata(record).unwrap();
    assert_eq!(
        cipher.decrypt(&EncryptedContent::Bytes(sealed)),
        Err(EnvioError::Cipher(CipherError::InvalidPlaintext))
    );
}

#[test]
fn encrypt_with_is_fixed_by_key_data_and_nonce() {
    let nonce: Vec<u8> = (1u8..25).collect();
    let data = payload(3000);
    let (sealed, metadata) = encrypt_with(&good_key(), &data, &nonce).unwrap();
    assert_eq!(metadata.nonce, STANDARD.encode(&nonce[..19]));
    assert_eq!(sealed, envio::cipher::stream::seal(&[7u8; 32], &nonce[..19], &data).unwrap());
    assert_eq!(sealed.len(), 3000 + 3 * 16);
    let (again, again_metadata) = encrypt_with(&good_key(), &data, &nonce).unwrap();
    assert_eq!(again, sealed);
    assert_eq!(again_metadata.nonce, metadata.nonce);
    assert_eq!(decrypt(&good_key(), &metadata, &sealed), Ok(data));
}

#[test]
fn symmetric_metadata_is_made_of_the_nonce_alone() {
    let nonce = [9u8; 24];
    let (first, first_metadata) = encrypt_with(&good_key(), b"one", &nonce).unwrap();
    let (second, second_metadata) =
        encrypt_with(&key_of(&[200u8; 32]), b"another payload", &nonce).unwrap();
    assert_eq!(first_metadata.nonce, second_metadata.nonce);
    assert_ne!(first, second);
    // Only the first 19 bytes of the draw are used.
    let mut other = nonce;
    other[19] = 0;
    other[23] = 0;
    let (third, third_metadata) = encrypt_with(&good_key(), b"one", &other).unwrap();
    assert_eq!(third_metadata.nonce, first_metadata.nonce);
    assert_eq!(third, first);
    other[18] = 0;
    let (fourth, fourth_metadata) = encrypt_with(&good_key(), b"one", &other).unwrap();
    assert_ne!(fourth_metadata.nonce, first_metadata.nonce);
    assert_ne!(fourth, first);
    assert_eq!(fourth.len(), first.len());
}

#[test]
fn encrypt_with_refuses_a_short_nonce_after_judging_the_key() {
    assert_eq!(
        encrypt_with(&good_key(), b"data", &[1u8; 18]).map(|_| ()),
        Err(EnvioError::Metadata(MetadataError::Malformed))
    );
    assert!(encrypt_with(&good_key(), b"data", &[1u8; 19]).is_ok());
    assert_eq!(encrypt_with(&key_of(&[1u8; 31]), b"data", &[1u8; 18]).map(|_| ()), bad_length());
    assert_eq!(
        encrypt_with("not base64!", b"data", &[]).map(|_| ()),
        Err(EnvioError::Cipher(CipherError::InvalidKeyEncoding))
    );
}

#[test]
fn generated_key_is_the_standard_encoding_of_32_bytes() {
    let key = SYMMETRIC::generate_key();
    assert_eq!(key.as_str().len(), 44);
    let bytes = STANDARD.decode(key.as_str()).unwrap();
    assert_eq!(bytes.len(), 32);
    assert_eq!(STANDARD.encode(&bytes), key.as_str());
    assert!(encrypt(key.as_str(), b"any data").is_ok());
}

use argon2::{Algorithm, Argon2, Params, Version};
use base64::engine::general_purpose::STANDARD;
use base64::Engine;
use envio::cipher::kdf::{
    derive_key, ARGON2_ITERATIONS, ARGON2_KEY_SIZE, ARGON2_MEMORY, ARGON2_PARALLELISM,
};
use envio::cipher::passphrase::metadata::VersionedMetadata;
use envio::cipher::passphrase::v1::{decrypt, encrypt, encrypt_with, MetadataV1};
use envio::cipher::passphrase::PASSPHRASE;
use envio::cipher::record::MetadataRecord;
use envio::cipher::secret::SecretString;
use envio::cipher::stream::open;
use envio::cipher::CipherKind;
use envio::env::{Env, EnvMap};
use envio::error::{CipherError, EnvioError, MetadataError, UsageError};

fn payload(len: usize) -> Vec<u8> {
    (0..len).map(|i| (i % 249) as u8).collect()
}

fn env(key: &str, value: &str) -> Env {
    Env::from_key_value(key.to_string(), value.to_string())
}

fn two_entries() -> EnvMap {
    let mut map = EnvMap::new();
    map.insert(env("A", "1"));
    map.insert(env("B", "2"));
    map
}

fn auth_failure() -> Result<Vec<u8>, EnvioError> {
    Err(EnvioError::Cipher(CipherError::Authentication))
}

fn check_round_trip(len: usize) {
    let data = payload(len);
    let (sealed, metadata) = encrypt("correct horse", &data).unwrap();
    assert_eq!(decrypt("correct horse", &metadata, &sealed), Ok(data));
}

fn check_wrong_passphrase(len: usize) {
    let (sealed, metadata) = encrypt("correct horse", &payload(len)).unwrap();
    assert_eq!(decrypt("correct horsf", &metadata, &sealed), auth_failure());
}

#[test]
fn derivation_parameters() {
    assert_eq!(ARGON2_MEMORY, 65536);
    assert_eq!(ARGON2_ITERATIONS, 3);
    assert_eq!(ARGON2_PARALLELISM, 4);
    assert_eq!(ARGON2_KEY_SIZE, 32);
}

#[test]
fn passphrase_round_trip_empty() {
    check_round_trip(0);
}

#[test]
fn passphrase_round_trip_one_byte() {
    check_round_trip(1);
}

#[test]
fn passphrase_round_trip_1023() {
    check_round_trip(1023);
}

#[test]
fn passphrase_round_trip_1024() {
    check_round_trip(1024);
}

#[test]
fn passphrase_round_trip_1025() {
    check_round_trip(1025);
}

#[test]
fn passphrase_round_trip_ten_chunks_and_seven() {
    check_round_trip(10 * 1024 + 7);
}

#[test]
fn wrong_passphrase_fails_empty() {
    check_wrong_passphrase(0);
}

#[test]
fn wrong_passphrase_fails_one_byte() {
    check_wrong_passphrase(1);
}

#[test]
fn wrong_passphrase_fails_1023() {
    check_wrong_passphrase(1023);
}

#[test]
fn wrong_passphrase_fails_1024() {
    check_wrong_passphrase(1024);
}

#[test]
fn wrong_passphrase_fails_1025() {
    check_wrong_passphrase(1025);
}

#[test]
fn wrong_passphrase_fails_ten_chunks_and_seven() {
    check_wrong_passphrase(10 * 1024 + 7);
}

#[test]
fn passphrase_tampering_fails() {
    let (sealed, metadata) = encrypt("correct horse", &payload(1500)).unwrap();
    let mut bad = sealed.clone();
    bad[1200] ^= 0x01;
    assert_eq!(decrypt("correct horse", &metadata, &bad), auth_failure());
}

#[test]
fn salts_and_nonces_are_fresh() {
    let data = payload(64);
    let (first, first_metadata) = encrypt("correct horse", &data).unwrap();
    let (second, second_metadata) = encrypt("correct horse", &data).unwrap();
    assert_ne!(first_metadata.salt, second_metadata.salt);
    assert_ne!(first_metadata.nonce, second_metadata.nonce);
    assert_ne!(first, second);
}

#[test]
fn metadata_holds_a_22_character_salt_and_a_19_byte_nonce() {
    let (_, metadata) = encrypt("correct horse", b"data").unwrap();
    assert_eq!(metadata.salt.len(), 22);
    assert!(metadata.salt.is_ascii());
    assert_eq!(STANDARD.decode(&metadata.nonce).unwrap().len(), 19);
}

#[test]
fn ciphertext_opens_under_the_argon2id_key() {
    let data = payload(2000);
    let (sealed, metadata) = encrypt("correct horse", &data).unwrap();
    let mut key = [0u8; 32];
    Argon2::new(
        Algorithm::Argon2id,
        Version::V0x13,
        Params::new(65536, 3, 4, Some(32)).unwrap(),
    )
    .hash_password_into(b"correct horse", metadata.salt.as_bytes(), &mut key)
    .unwrap();
    let nonce = STANDARD.decode(&metadata.nonce).unwrap();
    assert_eq!(open(&key, &nonce, &sealed), Ok(data));
}

#[test]
fn derive_key_is_argon2id_with_the_fixed_costs() {
    let mut expected = [0u8; 32];
    Argon2::new(
        Algorithm::Argon2id,
        Version::V0x13,
        Params::new(65536, 3, 4, Some(32)).unwrap(),
    )
    .hash_password_into(b"secret", b"saltsalt", &mut expected)
    .unwrap();
    let mut key = [0u8; 32];
    assert_eq!(derive_key(b"secret", b"saltsalt", &mut key), Ok(()));
    assert_eq!(key, expected);
    assert_ne!(key, [0u8; 32]);
}

#[test]
fn derive_key_refuses_a_short_salt() {
    let mut key = [0u8; 32];
    assert_eq!(
        derive_key(b"secret", b"1234567", &mut key),
        Err(EnvioError::Cipher(CipherError::KeyDerivation))
    );
    assert_eq!(derive_key(b"", b"12345678", &mut key), Ok(()));
}

#[test]
fn short_salt_in_metadata_is_a_derivation_failure() {
    let metadata = MetadataV1 { salt: "short".to_string(), nonce: STANDARD.encode([0u8; 19]) };
    assert_eq!(
        decrypt("correct horse", &metadata, &[0u8; 16]),
        Err(EnvioError::Cipher(CipherError::KeyDerivation))
    );
}

#[test]
fn bad_nonce_in_metadata_is_malformed() {
    let (sealed, good) = encrypt("correct horse", b"data").unwrap();
    let metadata = MetadataV1 { salt: good.salt.clone(), nonce: "%%%".to_string() };
    assert_eq!(
        decrypt("correct horse", &metadata, &sealed),
        Err(EnvioError::Metadata(MetadataError::Malformed))
    );
    let metadata = MetadataV1 { salt: good.salt, nonce: STANDARD.encode([0u8; 24]) };
    assert_eq!(
        decrypt("correct horse", &metadata, &sealed),
        Err(EnvioError::Metadata(MetadataError::Malformed))
    );
}

#[test]
fn empty_passphrase_is_a_passphrase() {
    let (sealed, metadata) = encrypt("", b"data").unwrap();
    assert_eq!(decrypt("", &metadata, &sealed), Ok(b"data".to_vec()));
}

#[test]
fn passphrase_cipher_round_trip_through_exported_metadata() {
    let mut cipher = PASSPHRASE::new(SecretString::new("pässword".to_string()));
    assert_eq!(cipher.kind(), CipherKind::PASSPHRASE);
    let content = cipher.encrypt(&two_entries()).unwrap();
    let record = cipher.export_metadata().unwrap();
    assert_eq!(record.get("version"), Some("1".to_string()));
    assert_eq!(record.fields.len(), 3);

    let mut fresh = PASSPHRASE::new(SecretString::new("pässword".to_string()));
    fresh.import_metadata(record).unwrap();
    assert_eq!(fresh.decrypt(&content), Ok(two_entries()));
}

#[test]
fn passphrase_cipher_with_wrong_passphrase_fails_to_authenticate() {
    let mut cipher = PASSPHRASE::new(SecretString::new("right".to_string()));
    let content = cipher.encrypt(&two_entries()).unwrap();
    cipher.set_key(SecretString::new("wrong".to_string()));
    assert_eq!(
        cipher.decrypt(&content),
        Err(EnvioError::Cipher(CipherError::Authentication))
    );
}

#[test]
fn passphrase_cipher_without_passphrase_never_works() {
    let mut cipher = PASSPHRASE::unkeyed();
    assert_eq!(
        cipher.encrypt(&two_entries()),
        Err(EnvioError::Usage(UsageError::MissingKey))
    );
    let content = envio::cipher::EncryptedContent::Bytes(vec![0u8; 16]);
    assert_eq!(cipher.decrypt(&content), Err(EnvioError::Usage(UsageError::MissingKey)));
}

#[test]
fn passphrase_metadata_record_round_trip() {
    let metadata = VersionedMetadata::V1(MetadataV1 {
        salt: "c2FsdHNhbHQ".to_string(),
        nonce: "bm9uY2U=".to_string(),
    });
    let record = metadata.to_record();
    assert_eq!(record.get("version"), Some("1".to_string()));
    assert_eq!(record.get("salt"), Some("c2FsdHNhbHQ".to_string()));
    assert_eq!(record.get("nonce"), Some("bm9uY2U=".to_string()));
    match VersionedMetadata::from_record(&record) {
        Ok(VersionedMetadata::V1(v1)) => {
            assert_eq!(v1.salt, "c2FsdHNhbHQ");
            assert_eq!(v1.nonce, "bm9uY2U=");
        },
        Err(e) => panic!("{:?}", e),
    }
}

#[test]
fn passphrase_metadata_default_and_from() {
    match VersionedMetadata::default() {
        VersionedMetadata::V1(v1) => {
            assert_eq!(v1.salt, "");
            assert_eq!(v1.nonce, "");
        },
    }
    let v1 = MetadataV1 { salt: "s".to_string(), nonce: "n".to_string() };
    match VersionedMetadata::from(v1.clone()) {
        VersionedMetadata::V1(inner) => {
            assert_eq!(inner.salt, "s");
            assert_eq!(inner.nonce, "n");
        },
    }
}

#[test]
fn passphrase_unknown_version_is_a_schema_error() {
    let mut record = MetadataRecord::new();
    record.push("version", "3");
    record.push("salt", "c2FsdHNhbHQ");
    record.push("nonce", "bm9uY2U=");
    assert_eq!(
        VersionedMetadata::from_record(&record).map(|_| ()),
        Err(EnvioError::Metadata(MetadataError::UnsupportedVersion))
    );
}

#[test]
fn passphrase_record_with_missing_fields_is_malformed() {
    let malformed = Err(EnvioError::Metadata(MetadataError::Malformed));
    let mut record = MetadataRecord::new();
    record.push("version", "1");
    record.push("salt", "c2FsdHNhbHQ");
    assert_eq!(VersionedMetadata::from_record(&record).map(|_| ()), malformed);
    let mut record = MetadataRecord::new();
    record.push("version", "1");
    record.push("nonce", "bm9uY2U=");
    assert_eq!(VersionedMetadata::from_record(&record).map(|_| ()), malformed);
    let mut record = MetadataRecord::new();
    record.push("salt", "c2FsdHNhbHQ");
    record.push("nonce", "bm9uY2U=");
    assert_eq!(VersionedMetadata::from_record(&record).map(|_| ()), malformed);
}

#[test]
fn passphrase_encrypt_with_is_fixed_by_its_arguments() {
    let nonce: Vec<u8> = (1u8..25).collect();
    let data = payload(1500);
    let (sealed, metadata) = encrypt_with("correct horse", &data, "c2FsdHNhbHQ", &nonce).unwrap();
    assert_eq!(metadata.salt, "c2FsdHNhbHQ");
    assert_eq!(metadata.nonce, STANDARD.encode(&nonce[..19]));
    let mut key = [0u8; 32];
    derive_key(b"correct horse", b"c2FsdHNhbHQ", &mut key).unwrap();
    assert_eq!(sealed, envio::cipher::stream::seal(&key, &nonce[..19], &data).unwrap());
    assert_eq!(sealed.len(), 1500 + 2 * 16);
    assert_eq!(decrypt("correct horse", &metadata, &sealed), Ok(data));
}

#[test]
fn passphrase_metadata_is_made_of_the_draws_alone() {
    let nonce = [9u8; 24];
    let (first, first_metadata) = encrypt_with("one", b"data", "saltsalt", &nonce).unwrap();
    let (second, second_metadata) =
        encrypt_with("two", b"other data", "saltsalt", &nonce).unwrap();
    assert_eq!(first_metadata.salt, second_metadata.salt);
    assert_eq!(first_metadata.nonce, second_metadata.nonce);
    assert_ne!(first, second);
    let (third, third_metadata) = encrypt_with("one", b"data", "pepperpepper", &nonce).unwrap();
    assert_ne!(third_metadata.salt, first_metadata.salt);
    assert_eq!(third_metadata.nonce, first_metadata.nonce);
    assert_ne!(third, first);
    assert_eq!(third.len(), first.len());
}

#[test]
fn passphrase_encrypt_with_refuses_bad_draws() {
    assert_eq!(
        encrypt_with("pw", b"data", "1234567", &[1u8; 24]).map(|_| ()),
        Err(EnvioError::Cipher(CipherError::KeyDerivation))
    );
    assert_eq!(
        encrypt_with("pw", b"data", "12345678", &[1u8; 18]).map(|_| ()),
        Err(EnvioError::Metadata(MetadataError::Malformed))
    );
    assert_eq!(
        encrypt_with("pw", b"data", "short", &[]).map(|_| ()),
        Err(EnvioError::Cipher(CipherError::KeyDerivation))
    );
    assert!(encrypt_with("pw", b"data", "12345678", &[1u8; 19]).is_ok());
}

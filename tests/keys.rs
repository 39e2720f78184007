use snappy_agent::keys::{hash_serial, key_vector_from_config, DEFAULT_KEY_VECTOR};
use snappy_agent::models::{CargoToml, EncryptionConfig, Metadata, Package};

fn config_with_key(key: Vec<u32>) -> Option<CargoToml> {
    Some(CargoToml {
        package: Package { metadata: Some(Metadata { encryption: Some(EncryptionConfig { key }) }) },
    })
}

#[test]
fn empty_identity_permutes_the_key_vector() {
    let mut h = [0u8; 32];
    hash_serial(&DEFAULT_KEY_VECTOR, &[], &mut h);
    assert_eq!(
        h,
        [
            68, 109, 47, 156, 231, 146, 11, 79, 10, 190, 193, 242, 168, 47, 19, 230, 107, 141, 17,
            62, 121, 49, 139, 166, 92, 120, 172, 29, 241, 195, 84, 125
        ]
    );
}

#[test]
fn identity_bytes_are_mixed_in() {
    let mut h = [0u8; 32];
    hash_serial(&DEFAULT_KEY_VECTOR, b"ABC", &mut h);
    assert_eq!(
        h,
        [
            251, 253, 8, 81, 231, 146, 11, 79, 36, 201, 44, 179, 168, 47, 19, 230, 107, 141, 17,
            62, 63, 109, 202, 90, 92, 120, 172, 29, 241, 195, 84, 125
        ]
    );
}

#[test]
fn key_derivation_is_deterministic() {
    let mut a = [0u8; 32];
    let mut b = [0u8; 32];
    hash_serial(&DEFAULT_KEY_VECTOR, b"SN0001", &mut a);
    hash_serial(&DEFAULT_KEY_VECTOR, b"SN0001", &mut b);
    assert_eq!(a, b);
    assert_eq!(
        a,
        [
            95, 187, 167, 69, 181, 57, 66, 27, 116, 51, 11, 205, 168, 47, 19, 230, 94, 242, 29, 38,
            9, 7, 104, 92, 92, 120, 172, 29, 134, 251, 206, 21
        ]
    );
}

#[test]
fn different_identities_give_different_keys() {
    let mut a = [0u8; 32];
    let mut b = [0u8; 32];
    hash_serial(&DEFAULT_KEY_VECTOR, b"SN0001", &mut a);
    hash_serial(&DEFAULT_KEY_VECTOR, b"SN0002", &mut b);
    assert_ne!(a, b);
}

#[test]
fn missing_configuration_uses_default_vector() {
    assert_eq!(key_vector_from_config(&None), DEFAULT_KEY_VECTOR);
    let no_metadata = Some(CargoToml { package: Package { metadata: None } });
    assert_eq!(key_vector_from_config(&no_metadata), DEFAULT_KEY_VECTOR);
    let no_encryption = Some(CargoToml { package: Package { metadata: Some(Metadata { encryption: None }) } });
    assert_eq!(key_vector_from_config(&no_encryption), DEFAULT_KEY_VECTOR);
}

#[test]
fn configured_vector_of_eight_words_is_used() {
    let cfg = config_with_key(vec![1, 2, 3, 4, 5, 6, 7, 8]);
    assert_eq!(key_vector_from_config(&cfg), [1, 2, 3, 4, 5, 6, 7, 8]);
}

#[test]
fn configured_vector_of_wrong_length_is_ignored() {
    assert_eq!(key_vector_from_config(&config_with_key(vec![1, 2, 3, 4, 5, 6, 7])), DEFAULT_KEY_VECTOR);
    assert_eq!(key_vector_from_config(&config_with_key(vec![0; 9])), DEFAULT_KEY_VECTOR);
}

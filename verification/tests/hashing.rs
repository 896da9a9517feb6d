use estash::hasher::argon2id::{derive_key, Argon2id, HashError, KdfParams};

fn cheap() -> KdfParams {
    KdfParams { mem_cost: 64, time_cost: 1, lanes: 2, hash_length: 24 }
}

#[test]
fn password_is_verified_against_its_hash() {
    let mut hasher = Argon2id::new_custom(cheap()).unwrap();
    let hash = hasher.hash_bytes(b"password").unwrap();
    assert_eq!(hasher.verify_bytes(&hash, b"password"), Ok(true));
    assert_eq!(hasher.verify_bytes(&hash, b"Password"), Ok(false));
    assert_eq!(hasher.verify_str(&hash, "password"), Ok(true));
    assert_eq!(hasher.verify_str(&hash, ""), Ok(false));
    let text = String::from_utf8(hash).unwrap();
    assert!(text.starts_with("$argon2id$v=19$m=64,t=1,p=2$"));
}

#[test]
fn hash_of_text_is_hash_of_its_bytes() {
    let mut hasher = Argon2id::new_custom(cheap()).unwrap();
    let hash = hasher.hash_str("gr\u{fc}n").unwrap();
    assert_eq!(hasher.verify_bytes(&hash, &[0x67, 0x72, 0xc3, 0xbc, 0x6e]), Ok(true));
    assert_eq!(hasher.verify_str(&hash, "gr\u{fc}n"), Ok(true));
    assert_eq!(hasher.verify_str(&hash, "grun"), Ok(false));
}

#[test]
fn hashes_of_one_password_differ() {
    let mut hasher = Argon2id::new_custom(cheap()).unwrap();
    let first = hasher.hash_str("pw").unwrap();
    let second = hasher.hash_str("pw").unwrap();
    assert_ne!(first, second);
    assert_eq!(hasher.verify_str(&first, "pw"), Ok(true));
    assert_eq!(hasher.verify_str(&second, "pw"), Ok(true));
}

#[test]
fn hash_is_verified_by_any_hasher() {
    let hash = Argon2id::new_custom(cheap()).unwrap().hash_str("pw").unwrap();
    let mut other = Argon2id::new_custom(KdfParams {
        mem_cost: 128,
        time_cost: 2,
        lanes: 1,
        hash_length: 32,
    }).unwrap();
    assert_eq!(other.verify_str(&hash, "pw"), Ok(true));
}

#[test]
fn malformed_hashes_are_no_hashes() {
    let mut hasher = Argon2id::new_custom(cheap()).unwrap();
    assert_eq!(hasher.verify_str(&b"not a hash".to_vec(), "pw"), Err(HashError::DecodingFail));
    assert_eq!(hasher.verify_str(&Vec::new(), "pw"), Err(HashError::DecodingFail));
    assert_eq!(hasher.verify_str(&vec![0xff, 0xfe], "pw"), Err(HashError::DecodingFail));
    let known = b"$argon2i$v=19$m=4096,t=3,p=1$c29tZXNhbHQ$iWh06vD8Fy27wf9npn6FXWiCX4K6pW6Ue1Bnzz07Z8A";
    assert_eq!(hasher.verify_bytes(&known.to_vec(), b"password"), Ok(true));
    assert_eq!(hasher.verify_bytes(&known.to_vec(), b"passwore"), Ok(false));
    assert_eq!(
        hasher.verify_bytes(&known[..known.len() - 50].to_vec(), b"password"),
        Err(HashError::DecodingFail)
    );
}

#[test]
fn malformed_cost_is_refused() {
    for params in [
        KdfParams { mem_cost: 7, time_cost: 1, lanes: 1, hash_length: 32 },
        KdfParams { mem_cost: 15, time_cost: 1, lanes: 2, hash_length: 32 },
        KdfParams { mem_cost: 64, time_cost: 0, lanes: 2, hash_length: 32 },
        KdfParams { mem_cost: 64, time_cost: 1, lanes: 0, hash_length: 32 },
        KdfParams { mem_cost: 64, time_cost: 1, lanes: 2, hash_length: 3 },
        KdfParams { mem_cost: 0xFFFF_FFFF, time_cost: 1, lanes: 0x0100_0000, hash_length: 32 },
    ] {
        let mut hasher = Argon2id::new_custom(params).unwrap();
        assert_eq!(hasher.hash_str("pw"), Err(HashError::KdfFailure));
        assert_eq!(derive_key(b"pw", &[0u8; 16], &params), Err(HashError::KdfFailure));
    }
    for params in [
        KdfParams { mem_cost: 8, time_cost: 1, lanes: 1, hash_length: 4 },
        KdfParams { mem_cost: 16, time_cost: 1, lanes: 2, hash_length: 32 },
    ] {
        assert!(Argon2id::new_custom(params).unwrap().hash_str("pw").is_ok());
        assert!(derive_key(b"pw", &[0u8; 16], &params).is_ok());
    }
}

#[test]
fn derived_key_is_a_function_of_password_salt_and_cost() {
    let params = KdfParams { mem_cost: 64, time_cost: 1, lanes: 2, hash_length: 32 };
    let salt = [5u8; 1024];
    let key = derive_key(b"pw", &salt, &params).unwrap();
    assert_eq!(key.len(), 32);
    assert_eq!(derive_key(b"pw", &salt, &params), Ok(key.clone()));
    assert_ne!(derive_key(b"pW", &salt, &params), Ok(key.clone()));
    assert_ne!(derive_key(b"pw", &[6u8; 1024], &params), Ok(key.clone()));
    let dearer = KdfParams { mem_cost: 64, time_cost: 2, lanes: 2, hash_length: 32 };
    assert_ne!(derive_key(b"pw", &salt, &dearer), Ok(key.clone()));
    let longer = KdfParams { mem_cost: 64, time_cost: 1, lanes: 2, hash_length: 48 };
    assert_eq!(derive_key(b"pw", &salt, &longer).unwrap().len(), 48);
    assert_eq!(derive_key(b"pw", &[0u8; 7], &params), Err(HashError::KdfFailure));
    assert!(derive_key(b"pw", &[0u8; 8], &params).is_ok());
    assert!(derive_key(b"", &salt, &params).is_ok());
}

#[test]
fn derived_key_is_the_known_one() {
    let params = KdfParams { mem_cost: 32, time_cost: 2, lanes: 4, hash_length: 32 };
    let config = argon2::Config {
        variant: argon2::Variant::Argon2id,
        version: argon2::Version::Version13,
        mem_cost: 32,
        time_cost: 2,
        lanes: 4,
        thread_mode: argon2::ThreadMode::Sequential,
        secret: &[],
        ad: &[],
        hash_length: 32,
    };
    assert_eq!(
        derive_key(b"password", b"somesalt", &params).unwrap(),
        argon2::hash_raw(b"password", b"somesalt", &config).unwrap()
    );
}

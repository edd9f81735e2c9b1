use xxhash::{xxh3_64, xxh3_64_with_secret, xxh3_64_with_seed, ConfigError, SECRET_SIZE_MIN};

fn sample(len: usize, start: u32) -> Vec<u8> {
    let mut state: u32 = start;
    let mut out = Vec::with_capacity(len);
    for _ in 0..len {
        state = state.wrapping_mul(1_664_525).wrapping_add(1_013_904_223);
        out.push((state >> 24) as u8);
    }
    out
}

#[test]
fn xxh3_64_of_empty_input() {
    assert_eq!(xxh3_64(b""), 0x2D06_8005_38D3_94C2);
}

#[test]
fn xxh3_64_matches_independent_implementation() {
    let data = sample(2600, 1);
    for len in 0..=data.len() {
        assert_eq!(xxh3_64(&data[..len]), xxhash_rust::xxh3::xxh3_64(&data[..len]), "len {}", len);
    }
}

#[test]
fn xxh3_64_with_seed_matches_independent_implementation() {
    let data = sample(1300, 2);
    for seed in [0u64, 5, 0x9E37_79B1_85EB_CA87, u64::MAX] {
        for len in 0..=data.len() {
            assert_eq!(
                xxh3_64_with_seed(&data[..len], seed),
                xxhash_rust::xxh3::xxh3_64_with_seed(&data[..len], seed),
                "len {} seed {}",
                len,
                seed
            );
        }
    }
}

#[test]
fn xxh3_64_with_secret_matches_independent_implementation() {
    let data = sample(3000, 3);
    for secret_len in [192usize, 193, 200, 255, 256, 1000] {
        let secret = sample(secret_len, 4);
        for len in (0..=400).chain([1023, 1024, 1025, 2047, 2048, 2049, 3000]) {
            assert_eq!(
                xxh3_64_with_secret(&data[..len], &secret),
                Ok(xxhash_rust::xxh3::xxh3_64_with_secret(&data[..len], &secret)),
                "len {} secret {}",
                len,
                secret_len
            );
        }
    }
}

#[test]
fn xxh3_64_with_seed_zero_is_the_default() {
    let data = sample(700, 5);
    for len in [0usize, 1, 4, 9, 17, 129, 240, 241, 700] {
        assert_eq!(xxh3_64_with_seed(&data[..len], 0), xxh3_64(&data[..len]));
    }
}

#[test]
fn xxh3_64_refuses_a_short_secret() {
    assert_eq!(SECRET_SIZE_MIN, 192);
    let secret = sample(191, 6);
    assert_eq!(
        xxh3_64_with_secret(b"loli", &secret),
        Err(ConfigError::SecretTooShort { len: 191 })
    );
    assert_eq!(xxh3_64_with_secret(b"loli", &[]), Err(ConfigError::SecretTooShort { len: 0 }));
    assert!(xxh3_64_with_secret(b"loli", &sample(192, 6)).is_ok());
}

use xxhash::{xxh3_128, xxh3_128_with_secret, xxh3_128_with_seed, ConfigError, Hash128};

fn sample(len: usize, start: u32) -> Vec<u8> {
    let mut state: u32 = start;
    let mut out = Vec::with_capacity(len);
    for _ in 0..len {
        state = state.wrapping_mul(1_664_525).wrapping_add(1_013_904_223);
        out.push((state >> 24) as u8);
    }
    out
}

#[test]
fn xxh3_128_of_empty_input() {
    assert_eq!(xxh3_128(b""), 0x99AA_06D3_0147_98D8_6001_C324_468D_497F);
}

#[test]
fn xxh3_128_matches_independent_implementation() {
    let data = sample(2600, 31);
    for len in 0..=data.len() {
        assert_eq!(xxh3_128(&data[..len]), xxhash_rust::xxh3::xxh3_128(&data[..len]), "len {}", len);
    }
}

#[test]
fn xxh3_128_with_seed_matches_independent_implementation() {
    let data = sample(1300, 32);
    for seed in [0u64, 5, 0x9E37_79B1_85EB_CA87, u64::MAX] {
        for len in 0..=data.len() {
            assert_eq!(
                xxh3_128_with_seed(&data[..len], seed),
                xxhash_rust::xxh3::xxh3_128_with_seed(&data[..len], seed),
                "len {} seed {}",
                len,
                seed
            );
        }
    }
}

#[test]
fn xxh3_128_with_secret_matches_independent_implementation() {
    let data = sample(3000, 33);
    for secret_len in [192usize, 200, 256, 777] {
        let secret = sample(secret_len, 34);
        for len in (0..=400).chain([1023, 1024, 1025, 3000]) {
            assert_eq!(
                xxh3_128_with_secret(&data[..len], &secret),
                Ok(xxhash_rust::xxh3::xxh3_128_with_secret(&data[..len], &secret)),
                "len {} secret {}",
                len,
                secret_len
            );
        }
    }
}

#[test]
fn xxh3_128_refuses_a_short_secret() {
    assert_eq!(
        xxh3_128_with_secret(b"loli", &sample(100, 35)),
        Err(ConfigError::SecretTooShort { len: 100 })
    );
}

#[test]
fn hash128_halves_and_value() {
    let hash = Hash128 { low: 0x1122_3344_5566_7788, high: 0x99AA_BBCC_DDEE_FF00 };
    assert_eq!(hash.to_u128(), 0x99AA_BBCC_DDEE_FF00_1122_3344_5566_7788);
    assert_eq!(Hash128::from_u128(0x99AA_BBCC_DDEE_FF00_1122_3344_5566_7788), hash);
    let digest = xxh3_128(b"loli");
    assert_eq!(Hash128::from_u128(digest).to_u128(), digest);
    assert_ne!(digest, 0);
}

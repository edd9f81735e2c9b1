use xxhash::{
    xxh3_64, xxh3_64_with_secret, xxh3_64_with_seed, ConfigError, ResetPolicy, Xxh3DefaultReset,
    XXH3_64,
};

use core::mem;

fn sample(len: usize, start: u32) -> Vec<u8> {
    let mut state: u32 = start;
    let mut out = Vec::with_capacity(len);
    for _ in 0..len {
        state = state.wrapping_mul(1_664_525).wrapping_add(1_013_904_223);
        out.push((state >> 24) as u8);
    }
    out
}

#[test]
fn xxh3_should_work() {
    let data = b"loli";

    let result1 = xxh3_64(data);
    assert_ne!(result1, 0);

    //To know about size
    assert_eq!(mem::size_of::<XXH3_64>(), 576);

    let mut hasher = XXH3_64::new();
    hasher.write(&data[..2]);
    hasher.write(&data[2..]);
    let result2 = hasher.finish();
    assert_eq!(result1, result2);
}

#[test]
fn try_reset_policies() {
    let secret = sample(200, 0xC0FF_EE11);
    let secret: &[u8] = &secret;

    let data = b"loli";

    let mut hasher = XXH3_64::new();
    hasher.write(&data[..2]);
    hasher.write(&data[2..]);
    let result1 = hasher.finish();
    assert_ne!(result1, 0);

    assert_eq!(hasher.reset(5), Ok(()));
    hasher.write(&data[..2]);
    hasher.write(&data[2..]);
    let result2 = hasher.finish();
    assert_ne!(result1, result2);

    assert_eq!(hasher.reset(0), Ok(()));
    hasher.write(&data[..2]);
    hasher.write(&data[2..]);
    let result3 = hasher.finish();
    assert_eq!(result1, result3);

    assert_eq!(hasher.reset(secret), Ok(()));
    hasher.write(&data[..2]);
    hasher.write(&data[2..]);
    let result4 = hasher.finish();
    assert_ne!(result3, result4);
    assert_ne!(result2, result4);
    assert_ne!(result1, result4);
}

#[test]
fn xxh3_stream_of_nothing() {
    assert_eq!(XXH3_64::new().finish(), 0x2D06_8005_38D3_94C2);
    assert_eq!(XXH3_64::default().finish(), xxh3_64(b""));
    assert_eq!(XXH3_64::new_boxed().finish(), xxh3_64(b""));
    assert_eq!(XXH3_64::with_policy(7).unwrap().finish(), xxh3_64_with_seed(b"", 7));
    let secret = sample(192, 8);
    assert_eq!(
        XXH3_64::with_policy(&secret[..]).unwrap().finish(),
        xxh3_64_with_secret(b"", &secret).unwrap()
    );
}

#[test]
fn xxh3_stream_equals_one_shot_for_every_split() {
    let data = sample(1100, 11);
    for total in [0usize, 1, 3, 8, 16, 17, 128, 129, 240, 241, 255, 256, 257, 320, 512, 1100] {
        let whole = xxh3_64(&data[..total]);
        for first in 0..=total {
            let mut hasher = XXH3_64::new();
            hasher.write(&data[..first]);
            hasher.write(&data[first..total]);
            assert_eq!(hasher.finish(), whole, "total {} split at {}", total, first);
        }
    }
}

#[test]
fn xxh3_stream_in_chunks_of_every_size() {
    let data = sample(5000, 12);
    for step in (1usize..=70).chain([127, 128, 129, 191, 192, 193, 255, 256, 257, 1023, 1024, 1025, 4999]) {
        let mut hasher = XXH3_64::new();
        let mut written = 0;
        for chunk in data.chunks(step) {
            hasher.write(chunk);
            written += chunk.len();
            assert_eq!(hasher.finish(), xxh3_64(&data[..written]), "step {} at {}", step, written);
        }
    }
}

#[test]
fn xxh3_stream_in_uneven_chunks_under_each_policy() {
    let data = sample(9000, 13);
    let secret = sample(233, 14);
    let sizes = [1usize, 250, 6, 256, 257, 0, 63, 64, 65, 700, 1, 1, 2048, 300, 5];
    let mut seeded = XXH3_64::with_policy(ResetPolicy::Seeded(0xDEAD_BEEF)).unwrap();
    let mut keyed = XXH3_64::with_policy(ResetPolicy::SecretBytes(secret.clone())).unwrap();
    let mut plain = XXH3_64::with_policy(Xxh3DefaultReset).unwrap();
    let mut written = 0;
    for round in 0..2 {
        for size in sizes {
            let chunk = &data[written..written + size];
            seeded.write(chunk);
            keyed.write(chunk);
            plain.write(chunk);
            written += size;
            let so_far = &data[..written];
            assert_eq!(seeded.finish(), xxh3_64_with_seed(so_far, 0xDEAD_BEEF), "round {}", round);
            assert_eq!(keyed.finish(), xxh3_64_with_secret(so_far, &secret).unwrap());
            assert_eq!(plain.finish(), xxh3_64(so_far));
        }
    }
}

#[test]
fn xxh3_stream_matches_independent_streaming_implementation() {
    let data = sample(3000, 15);
    let mut ours = XXH3_64::with_policy(99u64).unwrap();
    let mut theirs = xxhash_rust::xxh3::Xxh3::with_seed(99);
    for chunk in data.chunks(37) {
        ours.write(chunk);
        theirs.update(chunk);
        assert_eq!(ours.finish(), theirs.digest());
    }
}

#[test]
fn xxh3_policies_give_different_digests() {
    let payload = sample(500, 16);
    let secret = sample(192, 17);
    for len in [0usize, 4, 100, 240, 241, 500] {
        let plain = xxh3_64(&payload[..len]);
        let seeded = xxh3_64_with_seed(&payload[..len], 5);
        let keyed = xxh3_64_with_secret(&payload[..len], &secret).unwrap();
        assert_ne!(plain, seeded);
        assert_ne!(plain, keyed);
        assert_ne!(seeded, keyed);
    }
}

#[test]
fn xxh3_reset_with_same_policy_reproduces_the_digest() {
    let data = sample(777, 18);
    let secret = sample(300, 19);
    let policies = [
        ResetPolicy::Default,
        ResetPolicy::Seeded(42),
        ResetPolicy::SecretBytes(secret),
    ];
    for policy in policies {
        let mut hasher = XXH3_64::with_policy(policy.clone()).unwrap();
        hasher.write(&data);
        let first = hasher.finish();
        assert_eq!(hasher.reset(policy), Ok(()));
        hasher.write(&data[..400]);
        hasher.write(&data[400..]);
        assert_eq!(hasher.finish(), first);
    }
}

#[test]
fn xxh3_finish_can_be_repeated() {
    let data = sample(600, 20);
    let mut hasher = XXH3_64::new();
    hasher.write(&data[..300]);
    let first = hasher.finish();
    assert_eq!(hasher.finish(), first);
    hasher.write(&data[300..]);
    assert_eq!(hasher.finish(), xxh3_64(&data));
    assert_eq!(hasher.finish(), xxh3_64(&data));
}

#[test]
fn xxh3_short_secret_is_refused_and_state_kept() {
    let short = sample(191, 21);
    assert!(matches!(
        XXH3_64::with_policy(&short[..]),
        Err(ConfigError::SecretTooShort { len: 191 })
    ));
    assert!(matches!(
        XXH3_64::with_policy(ResetPolicy::SecretBytes(Vec::new())),
        Err(ConfigError::SecretTooShort { len: 0 })
    ));
    let mut hasher = XXH3_64::with_policy(3u64).unwrap();
    hasher.write(b"kept");
    assert_eq!(hasher.reset(&short[..]), Err(ConfigError::SecretTooShort { len: 191 }));
    assert_eq!(hasher.finish(), xxh3_64_with_seed(b"kept", 3));
    hasher.write(b" and more");
    assert_eq!(hasher.finish(), xxh3_64_with_seed(b"kept and more", 3));
}

#[test]
fn xxh3_policy_validation() {
    assert_eq!(ResetPolicy::Default.validate(), Ok(()));
    assert_eq!(ResetPolicy::Seeded(1).validate(), Ok(()));
    assert_eq!(ResetPolicy::SecretBytes(vec![0; 192]).validate(), Ok(()));
    assert_eq!(
        ResetPolicy::SecretBytes(vec![0; 10]).validate(),
        Err(ConfigError::SecretTooShort { len: 10 })
    );
}

#[test]
fn config_error_tells_what_was_refused() {
    let error = ResetPolicy::SecretBytes(vec![1; 50]).validate().unwrap_err();
    assert_eq!(error, ConfigError::SecretTooShort { len: 50 });
    assert_eq!(error.secret_len(), 50);
    assert_eq!(error.message(), "the secret is shorter than the minimum length");
}

#[test]
fn cloned_policy_is_the_same_policy() {
    let secret = sample(192, 22);
    let policy = ResetPolicy::SecretBytes(secret.clone());
    let mut first = XXH3_64::with_policy(policy.clone()).unwrap();
    let mut second = XXH3_64::with_policy(policy).unwrap();
    first.write(b"loli");
    second.write(b"loli");
    assert_eq!(first.finish(), second.finish());
    assert_eq!(first.finish(), xxh3_64_with_secret(b"loli", &secret).unwrap());
}

#[test]
fn xxh3_counts_what_was_written() {
    let mut hasher = XXH3_64::new();
    assert_eq!(hasher.total_len(), 0);
    hasher.write(&sample(300, 23));
    hasher.write(b"");
    hasher.write(&sample(7, 24));
    assert_eq!(hasher.total_len(), 307);
    assert_eq!(hasher.reset(Xxh3DefaultReset), Ok(()));
    assert_eq!(hasher.total_len(), 0);
}

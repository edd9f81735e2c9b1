use xxhash::{xxh64, XXH64};

use core::mem;

fn sample(len: usize) -> Vec<u8> {
    let mut state: u32 = 0x85EB_CA77;
    let mut out = Vec::with_capacity(len);
    for _ in 0..len {
        state = state.wrapping_mul(1_664_525).wrapping_add(1_013_904_223);
        out.push((state >> 24) as u8);
    }
    out
}

#[test]
fn xxh64_should_work() {
    let data = b"loli";

    let result1 = xxh64(data, 0);
    assert_ne!(result1, 0);

    //To know about size
    assert_eq!(mem::size_of::<XXH64>(), 88);

    let mut hasher = XXH64::new(0);
    hasher.write(&data[..2]);
    hasher.write(&data[2..]);
    let result2 = hasher.finish();
    assert_eq!(result1, result2);
}

#[test]
fn xxh64_of_empty_input() {
    assert_eq!(xxh64(b"", 0), 0xEF46_DB37_51D8_E999);
    assert_eq!(XXH64::new(0).finish(), 0xEF46_DB37_51D8_E999);
    assert_eq!(XXH64::default().finish(), 0xEF46_DB37_51D8_E999);
}

#[test]
fn xxh64_depends_on_seed() {
    assert_ne!(xxh64(b"loli", 0), xxh64(b"loli", 5));
}

#[test]
fn xxh64_matches_independent_implementation() {
    let data = sample(300);
    for len in 0..=data.len() {
        for seed in [0u64, 5, 0x9E37_79B1_85EB_CA87, u64::MAX] {
            assert_eq!(
                xxh64(&data[..len], seed),
                xxhash_rust::xxh64::xxh64(&data[..len], seed),
                "len {} seed {}",
                len,
                seed
            );
        }
    }
}

#[test]
fn xxh64_stream_equals_one_shot_for_every_split() {
    let data = sample(150);
    for seed in [0u64, 77] {
        let whole = xxh64(&data, seed);
        for first in 0..=data.len() {
            let mut hasher = XXH64::new(seed);
            hasher.write(&data[..first]);
            hasher.write(&data[first..]);
            assert_eq!(hasher.finish(), whole, "split at {}", first);
        }
    }
}

#[test]
fn xxh64_stream_in_small_and_uneven_chunks() {
    let data = sample(1000);
    for step in [1usize, 3, 7, 31, 32, 33, 64, 100] {
        let mut hasher = XXH64::new(9);
        let mut written = 0;
        for chunk in data.chunks(step) {
            hasher.write(chunk);
            written += chunk.len();
            assert_eq!(hasher.finish(), xxh64(&data[..written], 9), "step {}", step);
        }
    }
}

#[test]
fn xxh64_finish_can_be_repeated() {
    let mut hasher = XXH64::new(3);
    hasher.write(b"abc");
    let first = hasher.finish();
    assert_eq!(hasher.finish(), first);
    hasher.write(b"");
    assert_eq!(hasher.finish(), first);
}

#[test]
fn xxh64_reset_starts_over() {
    let mut hasher = XXH64::new(1);
    hasher.write(b"some bytes that will be forgotten, more than one stripe long");
    hasher.reset(1);
    hasher.write(b"loli");
    assert_eq!(hasher.finish(), xxh64(b"loli", 1));
    hasher.reset(2);
    assert_eq!(hasher.finish(), xxh64(b"", 2));
}

#[test]
fn xxh64_counts_what_was_written() {
    let mut hasher = XXH64::new(0);
    assert_eq!(hasher.total_len(), 0);
    hasher.write(&sample(100));
    hasher.write(b"");
    hasher.write(&sample(31));
    assert_eq!(hasher.total_len(), 131);
    hasher.reset(4);
    assert_eq!(hasher.total_len(), 0);
}

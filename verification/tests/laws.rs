use xxhash::laws::{xxh3_64_chunks, xxh64_chunks};
use xxhash::{xxh3_64, xxh3_64_with_seed, xxh64, XXH3_64};

fn sample(len: usize, start: u32) -> Vec<u8> {
    let mut state: u32 = start;
    let mut out = Vec::with_capacity(len);
    for _ in 0..len {
        state = state.wrapping_mul(1_664_525).wrapping_add(1_013_904_223);
        out.push((state >> 24) as u8);
    }
    out
}

#[test]
fn chunks_hash_like_their_concatenation() {
    let data = sample(900, 41);
    let cuts: [&[usize]; 5] = [&[], &[0], &[1, 2, 3], &[32, 64, 300, 300, 899], &[256, 512, 768]];
    for cut in cuts {
        let mut chunks: Vec<&[u8]> = Vec::new();
        let mut from = 0;
        for &to in cut {
            chunks.push(&data[from..to]);
            from = to;
        }
        chunks.push(&data[from..]);
        assert_eq!(xxh64_chunks(&chunks, 17), xxh64(&data, 17));
        assert_eq!(xxh3_64_chunks(&chunks), xxh3_64(&data));
    }
}

#[test]
fn no_chunks_hash_like_the_empty_input() {
    assert_eq!(xxh64_chunks(&[], 0), xxh64(b"", 0));
    assert_eq!(xxh3_64_chunks(&[]), xxh3_64(b""));
    assert_eq!(xxh3_64_chunks(&[b"", b""]), xxh3_64(b""));
}

#[test]
fn seed_zero_is_the_default_policy() {
    let data = sample(600, 42);
    let mut seeded = XXH3_64::with_policy(0u64).unwrap();
    let mut plain = XXH3_64::new();
    for chunk in data.chunks(97) {
        seeded.write(chunk);
        plain.write(chunk);
        assert_eq!(seeded.finish(), plain.finish());
    }
    assert_eq!(xxh3_64_with_seed(&data, 0), xxh3_64(&data));
}

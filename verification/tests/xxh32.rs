use xxhash::xxh32::xxh32;

fn sample(len: usize) -> Vec<u8> {
    let mut state: u32 = 0x9E37_79B1;
    let mut out = Vec::with_capacity(len);
    for _ in 0..len {
        state = state.wrapping_mul(1_664_525).wrapping_add(1_013_904_223);
        out.push((state >> 24) as u8);
    }
    out
}

#[test]
fn xxh32_of_empty_input() {
    assert_eq!(xxh32(b"", 0), 0x02CC_5D05);
}

#[test]
fn xxh32_matches_independent_implementation() {
    let data = sample(300);
    for len in 0..=data.len() {
        for seed in [0u32, 1, 0x9E37_79B1, u32::MAX] {
            assert_eq!(
                xxh32(&data[..len], seed),
                xxhash_rust::xxh32::xxh32(&data[..len], seed),
                "len {} seed {}",
                len,
                seed
            );
        }
    }
}

#[test]
fn xxh32_depends_on_seed() {
    assert_ne!(xxh32(b"loli", 0), xxh32(b"loli", 5));
}

use core::hash::{Hash, Hasher};
use xxhash::{xxh3_64, xxh64, XXH3_64, XXH64};

fn feed<H: Hasher>(hasher: &mut H, parts: &[&[u8]]) -> u64 {
    for part in parts {
        hasher.write(part);
    }
    hasher.finish()
}

#[test]
fn states_work_through_the_hasher_trait() {
    let mut h64 = XXH64::new(11);
    assert_eq!(feed(&mut h64, &[b"lo", b"", b"li"]), xxh64(b"loli", 11));
    let mut h3 = XXH3_64::new();
    assert_eq!(feed(&mut h3, &[b"l", b"ol", b"i"]), xxh3_64(b"loli"));
}

#[test]
fn states_hash_values_of_std_types() {
    let mut hasher = XXH64::default();
    0x0102_0304u32.hash(&mut hasher);
    assert_eq!(hasher.finish(), xxh64(&0x0102_0304u32.to_ne_bytes(), 0));
}

use xxhash::{
    xxh32, xxh3_128, xxh3_128_with_seed, xxh3_64, xxh3_64_with_secret, xxh3_64_with_seed, xxh64,
    ResetPolicy, XXH3_64, XXH64,
};

fn sample(len: usize, start: u32) -> Vec<u8> {
    let mut state: u32 = start;
    let mut out = Vec::with_capacity(len);
    for _ in 0..len {
        state = state.wrapping_mul(1_664_525).wrapping_add(1_013_904_223);
        out.push((state >> 24) as u8);
    }
    out
}

#[test]
fn empty_input_has_fixed_digests() {
    assert_eq!(xxh32(b"", 0), 0x02CC_5D05);
    assert_eq!(xxh32(b"", 1), 0x0B2C_B792);
    assert_eq!(xxh32(b"", 5), 0x8093_8EDA);
    assert_eq!(xxh64(b"", 0), 0xEF46_DB37_51D8_E999);
    assert_eq!(xxh64(b"", 1), 0xD5AF_BA13_36A3_BE4B);
    assert_eq!(xxh64(b"", 5), 0x4BE1_D406_981C_FD3B);
    assert_eq!(xxh3_64(b""), 0x2D06_8005_38D3_94C2);
    assert_eq!(xxh3_64_with_seed(b"", 5), 0x388E_C5BD_0562_E095);
    assert_eq!(xxh3_128(b""), 0x99AA_06D3_0147_98D8_6001_C324_468D_497F);
    assert_eq!(xxh3_128_with_seed(b"", 5), 0xD037_D24A_0847_DC76_B206_8296_FAE7_9545);
    let secret = sample(200, 0xC0FF_EE11);
    assert_eq!(xxh3_64_with_secret(b"", &secret), Ok(0x27CE_2A48_F539_AF8E));
}

#[test]
fn empty_stream_has_fixed_digests() {
    assert_eq!(XXH64::new(0).finish(), 0xEF46_DB37_51D8_E999);
    assert_eq!(XXH64::new(5).finish(), 0x4BE1_D406_981C_FD3B);
    assert_eq!(XXH3_64::new().finish(), 0x2D06_8005_38D3_94C2);
    assert_eq!(XXH3_64::with_policy(5u64).unwrap().finish(), 0x388E_C5BD_0562_E095);
    let secret = sample(200, 0xC0FF_EE11);
    let keyed = XXH3_64::with_policy(ResetPolicy::SecretBytes(secret)).unwrap();
    assert_eq!(keyed.finish(), 0x27CE_2A48_F539_AF8E);
    let mut written_nothing = XXH3_64::new();
    written_nothing.write(b"");
    assert_eq!(written_nothing.finish(), 0x2D06_8005_38D3_94C2);
}

#[test]
fn loli_end_to_end() {
    let v = xxh64(b"loli", 0);
    assert_eq!(v, 0x53FC_7827_605C_A776);
    let mut hasher = XXH64::new(0);
    hasher.write(b"lo");
    hasher.write(b"li");
    assert_eq!(hasher.finish(), v);
}

#[test]
fn loli_digests() {
    assert_eq!(xxh32(b"loli", 0), 0x2E86_8497);
    assert_eq!(xxh64(b"loli", 5), 0xEDDE_92D5_469E_92BF);
    assert_eq!(xxh3_64(b"loli"), 0x637D_17AF_122D_38F2);
    assert_eq!(xxh3_64_with_seed(b"loli", 5), 0x37EA_720C_9894_15CB);
    assert_eq!(xxh3_128(b"loli"), 0x6AD7_A0CF_FBAD_7695_9DAF_61AF_17A0_2B87);
    let secret = sample(200, 0xC0FF_EE11);
    assert_eq!(xxh3_64_with_secret(b"loli", &secret), Ok(0x6649_69DB_2CEC_CF31));
}

#[test]
fn seed_changes_the_digest_of_loli() {
    assert_ne!(xxh64(b"loli", 0), xxh64(b"loli", 5));
    assert_ne!(xxh32(b"loli", 0), xxh32(b"loli", 5));
    assert_ne!(xxh3_64_with_seed(b"loli", 0), xxh3_64_with_seed(b"loli", 5));
}

#[test]
fn three_policies_three_digests() {
    let secret = sample(200, 0xC0FF_EE11);
    let plain = xxh3_64(b"loli");
    let seeded = xxh3_64_with_seed(b"loli", 5);
    let keyed = xxh3_64_with_secret(b"loli", &secret).unwrap();
    assert_ne!(plain, seeded);
    assert_ne!(plain, keyed);
    assert_ne!(seeded, keyed);
}

#[test]
fn thousand_bytes_have_fixed_digests() {
    let data = sample(1000, 7);
    assert_eq!(&data[..8], &[61, 233, 156, 237, 12, 219, 92, 13]);
    assert_eq!(xxh32(&data, 0), 0xDF5E_1DC4);
    assert_eq!(xxh64(&data, 0), 0x9BED_2474_BA5B_CAAA);
    assert_eq!(xxh3_64(&data), 0x69F0_89A7_20A1_7F11);
    assert_eq!(xxh3_128(&data), 0x551D_CA8D_9F18_13CD_69F0_89A7_20A1_7F11);
}

#[test]
fn repeated_calls_agree() {
    let data = sample(321, 8);
    assert_eq!(xxh32(&data, 3), xxh32(&data, 3));
    assert_eq!(xxh64(&data, 3), xxh64(&data, 3));
    assert_eq!(xxh3_64(&data), xxh3_64(&data));
    assert_eq!(xxh3_128(&data), xxh3_128(&data));
}

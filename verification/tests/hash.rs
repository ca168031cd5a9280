use core::hash::{BuildHasher, Hash, Hasher};

use edict::hash::{MulHasher, MulHasherBuilder, NoOpHasher, NoOpHasherBuilder, MUL_HASH_CONST_64};

#[test]
fn noop_hasher_keeps_last_value() {
    let mut h = NoOpHasher::new();
    assert_eq!(h.finish(), 0);
    h.write_u64(17);
    assert_eq!(h.finish(), 17);
    h.write_usize(5);
    assert_eq!(h.finish(), 5);
    h.write_u128((3u128 << 64) | 9);
    assert_eq!(h.finish(), 9);
    h.write(&[1, 2, 3]);
    assert_eq!(h.finish(), u64::from_ne_bytes([1, 2, 3, 0, 0, 0, 0, 0]));
    h.write(&[1, 2, 3, 4, 5, 6, 7, 8, 9, 10]);
    assert_eq!(h.finish(), u64::from_ne_bytes([1, 2, 3, 4, 5, 6, 7, 8]));
    let b = NoOpHasherBuilder;
    assert_eq!(b.build_hasher().finish(), 0);
}

#[test]
fn noop_hasher_hashes_u64_to_itself() {
    let mut h = NoOpHasherBuilder.build_hasher();
    12345u64.hash(&mut h);
    assert_eq!(h.finish(), 12345);
}

#[test]
fn mul_hasher_values() {
    let mut h = MulHasher::new();
    h.write_u64(5);
    // value = 0 * C + 5
    assert_eq!(h.finish(), 5u64.wrapping_mul(MUL_HASH_CONST_64).swap_bytes());
    h.write_u64(7);
    let v = 5u64.wrapping_mul(MUL_HASH_CONST_64).wrapping_add(7);
    assert_eq!(h.finish(), v.wrapping_mul(MUL_HASH_CONST_64).swap_bytes());

    let mut h = MulHasher::new();
    h.write_u128((2u128 << 64) | 3);
    let v = 3u64.wrapping_mul(MUL_HASH_CONST_64).wrapping_add(2);
    assert_eq!(h.finish(), v.wrapping_mul(MUL_HASH_CONST_64).swap_bytes());

    let mut h = MulHasher::new();
    h.write_usize(9);
    assert_eq!(h.finish(), 9u64.wrapping_mul(MUL_HASH_CONST_64).swap_bytes());

    assert_eq!(MulHasherBuilder.build_hasher().finish(), 0);
}

#[test]
fn mul_hasher_xors_byte_chunks() {
    let mut h = MulHasher::new();
    let bytes: Vec<u8> = (1..=11).collect();
    h.write(&bytes);
    let w0 = u64::from_ne_bytes([1, 2, 3, 4, 5, 6, 7, 8]);
    let w1 = u64::from_ne_bytes([9, 10, 11, 0, 0, 0, 0, 0]);
    assert_eq!(h.finish(), (w0 ^ w1).wrapping_mul(MUL_HASH_CONST_64).swap_bytes());
}

#[test]
fn swap_bytes_reverses() {
    assert_eq!(edict::hash::swap_bytes(0x0102_0304_0506_0708), 0x0807_0605_0403_0201);
    assert_eq!(edict::hash::swap_bytes(0xff), 0xff00_0000_0000_0000);
}

//! Hashers for keys that are already well distributed integers.

use vstd::prelude::*;

use core::hash::{BuildHasher, Hasher};

verus! {

/// Multiplier of the multiplicative hash: 2^64 divided by the golden ratio.
pub const MUL_HASH_CONST_64: u64 = 11400714819323198485;

/// Little-endian reading of eight bytes.
pub open spec fn word_le(b: Seq<u8>) -> u64 {
    (b[0] + b[1] * 0x100 + b[2] * 0x1_0000 + b[3] * 0x100_0000 + b[4] * 0x1_0000_0000 + b[5]
        * 0x100_0000_0000 + b[6] * 0x1_0000_0000_0000 + b[7] * 0x100_0000_0000_0000) as u64
}

/// Big-endian reading of eight bytes.
pub open spec fn word_be(b: Seq<u8>) -> u64 {
    word_le(b.reverse())
}

/// The eight bytes starting at `start`, with zeros past the end of `bytes`.
pub open spec fn padded_chunk(bytes: Seq<u8>, start: int) -> Seq<u8> {
    Seq::new(8, |j: int| if start + j < bytes.len() { bytes[start + j] } else { 0u8 })
}

/// Number of eight-byte chunks that cover `len` bytes.
pub open spec fn chunk_count(len: int) -> int {
    (len + 7) / 8
}

/// Xor of `value` with all `words`.
pub open spec fn xor_all(value: u64, words: Seq<u64>) -> u64
    decreases words.len(),
{
    if words.len() == 0 {
        value
    } else {
        xor_all(value, words.drop_last()) ^ words.last()
    }
}

/// `words` holds, for each eight-byte chunk of `bytes`, the chunk read in
/// the machine's byte order (little or big endian).
pub open spec fn native_words(bytes: Seq<u8>, words: Seq<u64>) -> bool {
    &&& words.len() == chunk_count(bytes.len() as int)
    &&& forall|k: int|
        0 <= k < words.len() ==> #[trigger] words[k] == word_le(padded_chunk(bytes, 8 * k))
            || words[k] == word_be(padded_chunk(bytes, 8 * k))
}

/// One step of the multiplicative hash.
pub open spec fn mul_step(value: u64, i: u64) -> u64 {
    vstd::wrapping::u64_specs::wrapping_add(vstd::wrapping::u64_specs::wrapping_mul(value, MUL_HASH_CONST_64), i)
}

/// Byte `k` (from the least significant) of `x`.
pub open spec fn byte_of(x: u64, k: u64) -> u64 {
    (x >> ((8 * k) as u64)) & 0xff
}

/// `u64::from_ne_bytes`: the eight bytes read in the machine's byte order,
/// which is little or big endian.
#[verifier::external_body]
fn from_ne_bytes(b: &[u8]) -> (r: u64)
    requires
        b@.len() == 8,
    ensures
        r == word_le(b@) || r == word_be(b@),
{
    u64::from_ne_bytes([b[0], b[1], b[2], b[3], b[4], b[5], b[6], b[7]])
}

/// Reverses the byte order of `x`.
pub fn swap_bytes(x: u64) -> (r: u64)
    ensures
        forall|k: u64| k < 8 ==> #[trigger] byte_of(r, k) == byte_of(x, (7 - k) as u64),
{
    let r = ((x >> 56u64) & 0xff) | ((x >> 40u64) & 0xff00) | ((x >> 24u64) & 0xff_0000) | ((x
        >> 8u64) & 0xff00_0000) | ((x << 8u64) & 0xff_0000_0000) | ((x << 24u64)
        & 0xff00_0000_0000) | ((x << 40u64) & 0xff_0000_0000_0000) | ((x << 56u64)
        & 0xff00_0000_0000_0000);
    assert(byte_of(r, 0) == byte_of(x, 7) && byte_of(r, 1) == byte_of(x, 6) && byte_of(r, 2)
        == byte_of(x, 5) && byte_of(r, 3) == byte_of(x, 4) && byte_of(r, 4) == byte_of(x, 3)
        && byte_of(r, 5) == byte_of(x, 2) && byte_of(r, 6) == byte_of(x, 1) && byte_of(r, 7)
        == byte_of(x, 0)) by (bit_vector)
        requires
            r == ((x >> 56u64) & 0xff) | ((x >> 40u64) & 0xff00) | ((x >> 24u64) & 0xff_0000) | ((x
                >> 8u64) & 0xff00_0000) | ((x << 8u64) & 0xff_0000_0000) | ((x << 24u64)
                & 0xff00_0000_0000) | ((x << 40u64) & 0xff_0000_0000_0000) | ((x << 56u64)
                & 0xff00_0000_0000_0000),
    ;
    assert forall|k: u64| k < 8 implies #[trigger] byte_of(r, k) == byte_of(x, (7 - k) as u64) by {
        if k == 0 {
        } else if k == 1 {
        } else if k == 2 {
        } else if k == 3 {
        } else if k == 4 {
        } else if k == 5 {
        } else if k == 6 {
        } else {
        }
    }
    r
}

/// Copies the eight bytes of `bytes` starting at `start`, with zeros past its end.
fn chunk_at(bytes: &[u8], start: usize) -> (b: Vec<u8>)
    requires
        start <= bytes@.len(),
    ensures
        b@ == padded_chunk(bytes@, start as int),
{
    let mut b: Vec<u8> = Vec::new();
    let mut j: usize = 0;
    while j < 8
        invariant
            j <= 8,
            start <= bytes@.len(),
            b@.len() == j,
            forall|t: int| 0 <= t < j ==> b@[t] == padded_chunk(bytes@, start as int)[t],
        decreases 8 - j,
    {
        if j < bytes.len() - start {
            b.push(bytes[start + j]);
        } else {
            b.push(0u8);
        }
        j = j + 1;
    }
    assert(b@ =~= padded_chunk(bytes@, start as int));
    b
}

/// Hasher that keeps the last value written.
/// Used for keys that are already hashes, such as type ids.
#[derive(Default)]
pub struct NoOpHasher {
    value: u64,
}

impl NoOpHasher {
    /// Value the hasher holds.
    pub closed spec fn state(&self) -> u64 {
        self.value
    }

    /// New hasher holding zero.
    pub fn new() -> (h: Self)
        ensures
            h.state() == 0,
    {
        NoOpHasher { value: 0 }
    }

    /// Keeps the first eight bytes (zero padded), read in the machine's byte order.
    pub fn write(&mut self, bytes: &[u8])
        ensures
            final(self).state() == word_le(padded_chunk(bytes@, 0)) || final(self).state()
                == word_be(padded_chunk(bytes@, 0)),
    {
        let b = chunk_at(bytes, 0);
        self.value = from_ne_bytes(b.as_slice());
    }

    /// Keeps `i`.
    pub fn write_u64(&mut self, i: u64)
        ensures
            final(self).state() == i,
    {
        self.value = i;
    }

    /// Keeps the low 64 bits of `i`.
    pub fn write_u128(&mut self, i: u128)
        ensures
            final(self).state() == i % 0x1_0000_0000_0000_0000,
    {
        self.value = (i & 0xffff_ffff_ffff_ffff) as u64;
        assert(i & 0xffff_ffff_ffff_ffff == i % 0x1_0000_0000_0000_0000) by (bit_vector);
    }

    /// Keeps `i`.
    pub fn write_usize(&mut self, i: usize)
        ensures
            final(self).state() == i,
    {
        self.value = i as u64;
    }

    /// The value held.
    pub fn finish(&self) -> (r: u64)
        ensures
            r == self.state(),
    {
        self.value
    }
}

impl Hasher for NoOpHasher {
    fn write(&mut self, bytes: &[u8])
        ensures
            final(self).state() == word_le(padded_chunk(bytes@, 0)) || final(self).state()
                == word_be(padded_chunk(bytes@, 0)),
    {
        NoOpHasher::write(self, bytes)
    }

    fn write_u64(&mut self, i: u64)
        ensures
            final(self).state() == i,
    {
        NoOpHasher::write_u64(self, i)
    }

    fn write_u128(&mut self, i: u128)
        ensures
            final(self).state() == i % 0x1_0000_0000_0000_0000,
    {
        NoOpHasher::write_u128(self, i)
    }

    fn write_usize(&mut self, i: usize)
        ensures
            final(self).state() == i,
    {
        NoOpHasher::write_usize(self, i)
    }

    fn finish(&self) -> (r: u64)
        ensures
            r == self.state(),
    {
        NoOpHasher::finish(self)
    }
}

/// Builds `NoOpHasher`s.
#[derive(Default)]
pub struct NoOpHasherBuilder;

impl NoOpHasherBuilder {
    /// A hasher holding zero.
    pub fn build(&self) -> (h: NoOpHasher)
        ensures
            h.state() == 0,
    {
        NoOpHasher::new()
    }
}

impl BuildHasher for NoOpHasherBuilder {
    type Hasher = NoOpHasher;

    fn build_hasher(&self) -> (h: NoOpHasher)
        ensures
            h.state() == 0,
    {
        self.build()
    }
}

/// Multiplicative hasher.
pub struct MulHasher {
    value: u64,
}

impl MulHasher {
    /// Value the hasher holds.
    pub closed spec fn state(&self) -> u64 {
        self.value
    }

    /// New hasher holding zero.
    pub fn new() -> (h: Self)
        ensures
            h.state() == 0,
    {
        MulHasher { value: 0 }
    }

    /// Xors each eight-byte chunk (the last one zero padded), read in the
    /// machine's byte order, into the value.
    pub fn write(&mut self, bytes: &[u8])
        ensures
            exists|words: Seq<u64>|
                native_words(bytes@, words) && final(self).state() == xor_all(old(self).state(), words),
    {
        let ghost mut words: Seq<u64> = Seq::empty();
        let mut start: usize = 0;
        while start < bytes.len()
            invariant
                start <= bytes@.len(),
                (start % 8 == 0 && words.len() == start / 8) || (start == bytes@.len()
                    && words.len() == chunk_count(bytes@.len() as int)),
                forall|k: int|
                    0 <= k < words.len() ==> #[trigger] words[k] == word_le(padded_chunk(bytes@, 8 * k))
                        || words[k] == word_be(padded_chunk(bytes@, 8 * k)),
                self.value == xor_all(old(self).value, words),
            decreases bytes@.len() - start,
        {
            let b = chunk_at(bytes, start);
            let w = from_ne_bytes(b.as_slice());
            proof {
                let old_words = words;
                words = words.push(w);
                assert(words.drop_last() =~= old_words);
            }
            self.value = self.value ^ w;
            if bytes.len() - start <= 8 {
                start = bytes.len();
            } else {
                start = start + 8;
            }
        }
        assert(native_words(bytes@, words));
    }

    /// Multiplies the value by the constant and adds `i`, wrapping.
    pub fn write_u64(&mut self, i: u64)
        ensures
            final(self).state() == mul_step(old(self).state(), i),
    {
        self.value = self.value.wrapping_mul(MUL_HASH_CONST_64).wrapping_add(i);
    }

    /// Writes the low and then the high 64 bits of `i`.
    pub fn write_u128(&mut self, i: u128)
        ensures
            final(self).state() == mul_step(
                mul_step(old(self).state(), (i % 0x1_0000_0000_0000_0000) as u64),
                (i / 0x1_0000_0000_0000_0000) as u64,
            ),
    {
        let lo = (i & 0xffff_ffff_ffff_ffff) as u64;
        let hi = (i >> 64u128) as u64;
        assert(i & 0xffff_ffff_ffff_ffff == i % 0x1_0000_0000_0000_0000) by (bit_vector);
        assert(i >> 64u128 == i / 0x1_0000_0000_0000_0000) by (bit_vector);
        self.write_u64(lo);
        self.write_u64(hi);
    }

    /// Writes `i` as a 64-bit value.
    pub fn write_usize(&mut self, i: usize)
        ensures
            final(self).state() == mul_step(old(self).state(), i as u64),
    {
        self.write_u64(i as u64);
    }

    /// The value multiplied by the constant (wrapping), with its bytes
    /// reversed so that the best mixed bits come first.
    pub fn finish(&self) -> (r: u64)
        ensures
            forall|k: u64|
                k < 8 ==> #[trigger] byte_of(r, k) == byte_of(
                    vstd::wrapping::u64_specs::wrapping_mul(self.state(), MUL_HASH_CONST_64),
                    (7 - k) as u64,
                ),
    {
        swap_bytes(self.value.wrapping_mul(MUL_HASH_CONST_64))
    }
}

impl Hasher for MulHasher {
    fn write(&mut self, bytes: &[u8])
        ensures
            exists|words: Seq<u64>|
                native_words(bytes@, words) && final(self).state() == xor_all(old(self).state(), words),
    {
        MulHasher::write(self, bytes)
    }

    fn write_u64(&mut self, i: u64)
        ensures
            final(self).state() == mul_step(old(self).state(), i),
    {
        MulHasher::write_u64(self, i)
    }

    fn write_u128(&mut self, i: u128)
        ensures
            final(self).state() == mul_step(
                mul_step(old(self).state(), (i % 0x1_0000_0000_0000_0000) as u64),
                (i / 0x1_0000_0000_0000_0000) as u64,
            ),
    {
        MulHasher::write_u128(self, i)
    }

    fn write_usize(&mut self, i: usize)
        ensures
            final(self).state() == mul_step(old(self).state(), i as u64),
    {
        MulHasher::write_usize(self, i)
    }

    fn finish(&self) -> (r: u64)
        ensures
            forall|k: u64|
                k < 8 ==> #[trigger] byte_of(r, k) == byte_of(
                    vstd::wrapping::u64_specs::wrapping_mul(self.state(), MUL_HASH_CONST_64),
                    (7 - k) as u64,
                ),
    {
        MulHasher::finish(self)
    }
}

/// Builds `MulHasher`s.
pub struct MulHasherBuilder;

impl MulHasherBuilder {
    /// A hasher holding zero.
    pub fn build(&self) -> (h: MulHasher)
        ensures
            h.state() == 0,
    {
        MulHasher::new()
    }
}

impl BuildHasher for MulHasherBuilder {
    type Hasher = MulHasher;

    fn build_hasher(&self) -> (h: MulHasher)
        ensures
            h.state() == 0,
    {
        self.build()
    }
}

} // verus!

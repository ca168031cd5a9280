//! Binary encoding of entity records with `nanoserde`: each record is
//! three 64-bit words, each written as eight little-endian bytes.

use vstd::prelude::*;

use nanoserde::{DeBin, DeBinErr, DeBinErrReason, SerBin};

use super::format::EntityDump;
use crate::hash::word_le;

verus! {

/// `nanoserde::DeBinErr`, the error of binary decoding.
#[verifier::external_type_specification]
#[verifier::external_body]
pub struct ExDeBinErr(nanoserde::DeBinErr);

/// Little-endian bytes of `x`.
pub open spec fn le_bytes(x: u64) -> Seq<u8> {
    seq![
        (x % 0x100) as u8,
        ((x / 0x100) % 0x100) as u8,
        ((x / 0x1_0000) % 0x100) as u8,
        ((x / 0x100_0000) % 0x100) as u8,
        ((x / 0x1_0000_0000) % 0x100) as u8,
        ((x / 0x100_0000_0000) % 0x100) as u8,
        ((x / 0x1_0000_0000_0000) % 0x100) as u8,
        ((x / 0x100_0000_0000_0000) % 0x100) as u8,
    ]
}

/// Bytes of a record: its three words, little endian, in order.
pub open spec fn record_bytes(r: [u64; 3]) -> Seq<u8> {
    le_bytes(r[0]) + le_bytes(r[1]) + le_bytes(r[2])
}

/// The three words read from the 24 bytes of `buf` at `offset`.
pub open spec fn read_record(buf: Seq<u8>, offset: int) -> Seq<u64> {
    seq![
        word_le(buf.subrange(offset, offset + 8)),
        word_le(buf.subrange(offset + 8, offset + 16)),
        word_le(buf.subrange(offset + 16, offset + 24)),
    ]
}

/// Why a word of a record did not fit: the bytes it needed and the length
/// of the buffer.
#[derive(Clone, Copy, Debug, PartialEq, Eq, Structural)]
pub struct LengthMismatch {
    /// Bytes the word needed.
    pub expected_length: usize,
    /// Length of the buffer.
    pub actual_length: usize,
}

/// Error of decoding a record: where it stopped and, when a word did not
/// fit, why.
#[derive(Clone, Copy, Debug, PartialEq, Eq, Structural)]
pub struct LoadError {
    /// Offset of the word that could not be read.
    pub offset: usize,
    /// The lengths involved, when the word did not fit.
    pub lengths: Option<LengthMismatch>,
}

/// `<[u64; 3] as nanoserde::SerBin>::ser_bin`: appends the three words,
/// each as eight little-endian bytes.
#[verifier::external_body]
fn ser_record(record: &[u64; 3], out: &mut Vec<u8>)
    ensures
        final(out)@ == old(out)@ + record_bytes(*record),
{
    record.ser_bin(out)
}

/// `<[u64; 3] as nanoserde::DeBin>::de_bin`: reads three words of eight
/// little-endian bytes at `offset`, advancing it by eight per word read.
/// When a word does not fit in the buffer it stops with an error that
/// records the offset of that word, the eight bytes wanted and the buffer
/// length.
#[verifier::external_body]
fn de_record(offset: &mut usize, buf: &[u8]) -> (r: Result<[u64; 3], LoadError>)
    requires
        *old(offset) <= buf@.len(),
    ensures
        *old(offset) + 24 <= buf@.len() ==> (r matches Ok(words) && words@ == read_record(
            buf@,
            *old(offset) as int,
        ) && *final(offset) == *old(offset) + 24),
        *old(offset) + 24 > buf@.len() ==> (r matches Err(e) && *final(offset) == *old(offset) + 8 * ((
        buf@.len() - *old(offset)) / 8) && e == (LoadError {
            offset: *final(offset),
            lengths: Some(LengthMismatch { expected_length: 8, actual_length: buf@.len() as usize }),
        })),
{
    match <[u64; 3]>::de_bin(offset, buf) {
        Ok(words) => Ok(words),
        Err(DeBinErr { o, msg: DeBinErrReason::Length { expected_length, actual_length } }) => Err(
            LoadError { offset: o, lengths: Some(LengthMismatch { expected_length, actual_length }) },
        ),
        Err(DeBinErr { o, .. }) => Err(LoadError { offset: o, lengths: None }),
    }
}

/// Writes entity records with `nanoserde`.
pub struct DumperBin<'a>(pub &'a mut Vec<u8>);

impl<'a> DumperBin<'a> {
    /// Appends the record of an entity.
    pub fn dump_record(&mut self, entity: &EntityDump)
        ensures
            final(self).0@ == old(self).0@ + record_bytes(entity.0),
    {
        ser_record(&entity.0, self.0)
    }
}

/// Loads entity records with `nanoserde`.
pub struct LoaderBin<'a> {
    offset: usize,
    buf: &'a [u8],
}

impl<'a> LoaderBin<'a> {
    /// Position of the next record.
    pub closed spec fn position(&self) -> usize {
        self.offset
    }

    /// Bytes being loaded.
    pub closed spec fn bytes(&self) -> Seq<u8> {
        self.buf@
    }

    /// Creates new loader from buffer.
    pub fn new(buf: &'a [u8]) -> (r: Self)
        ensures
            r.position() == 0,
            r.bytes() == buf@,
    {
        LoaderBin { offset: 0, buf }
    }

    /// Returns next entity record to load, or `None` at the end of the bytes.
    pub fn next(&mut self) -> (r: Result<Option<EntityDump>, LoadError>)
        requires
            old(self).position() <= old(self).bytes().len(),
        ensures
            final(self).bytes() == old(self).bytes(),
            final(self).position() <= final(self).bytes().len(),
            old(self).position() == old(self).bytes().len() ==> (r matches Ok(None)
                && final(self).position() == old(self).position()),
            old(self).position() < old(self).bytes().len() && old(self).position() + 24 <= old(
                self,
            ).bytes().len() ==> (r matches Ok(Some(d)) && d.0@ == read_record(
                old(self).bytes(),
                old(self).position() as int,
            ) && final(self).position() == old(self).position() + 24),
            old(self).position() < old(self).bytes().len() && old(self).position() + 24 > old(
                self,
            ).bytes().len() ==> final(self).position() == old(self).position() + 8 * ((old(self).bytes().len()
                - old(self).position()) / 8) && r == Err::<Option<EntityDump>, LoadError>(
                LoadError {
                    offset: final(self).position(),
                    lengths: Some(
                        LengthMismatch { expected_length: 8, actual_length: old(self).bytes().len() as usize },
                    ),
                },
            ),
    {
        if self.offset == self.buf.len() {
            return Ok(None);
        }
        match de_record(&mut self.offset, self.buf) {
            Ok(words) => Ok(Some(EntityDump(words))),
            Err(e) => Err(e),
        }
    }
}

proof fn lemma_le_word(x: u64)
    by (bit_vector)
    ensures
        ((x % 0x100) as u8 + ((x / 0x100) % 0x100) as u8 * 0x100 + ((x / 0x1_0000) % 0x100) as u8
            * 0x1_0000 + ((x / 0x100_0000) % 0x100) as u8 * 0x100_0000 + ((x / 0x1_0000_0000)
            % 0x100) as u8 * 0x1_0000_0000 + ((x / 0x100_0000_0000) % 0x100) as u8
            * 0x100_0000_0000 + ((x / 0x1_0000_0000_0000) % 0x100) as u8 * 0x1_0000_0000_0000
            + ((x / 0x100_0000_0000_0000) % 0x100) as u8 * 0x100_0000_0000_0000) as u64 == x,
{
}

/// Reading eight little-endian bytes written for `x` gives back `x`.
pub proof fn lemma_le_roundtrip(x: u64)
    ensures
        word_le(le_bytes(x)) == x,
{
    lemma_le_word(x);
}

/// A record written by `DumperBin` is read back by `LoaderBin` from the
/// position where it was written.
pub proof fn lemma_record_roundtrip(prefix: Seq<u8>, record: [u64; 3], rest: Seq<u8>)
    ensures
        read_record(prefix + record_bytes(record) + rest, prefix.len() as int) == record@,
{
    let buf = prefix + record_bytes(record) + rest;
    let p = prefix.len() as int;
    assert(buf.subrange(p, p + 8) =~= le_bytes(record[0]));
    assert(buf.subrange(p + 8, p + 16) =~= le_bytes(record[1]));
    assert(buf.subrange(p + 16, p + 24) =~= le_bytes(record[2]));
    lemma_le_roundtrip(record[0]);
    lemma_le_roundtrip(record[1]);
    lemma_le_roundtrip(record[2]);
    assert(read_record(buf, p) =~= record@);
}

} // verus!

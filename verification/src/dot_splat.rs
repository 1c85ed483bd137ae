//! The packed `.splat` scene format: a sequence of fixed 32-byte records.
//!
//! A record holds the position as three little-endian 32-bit words, the
//! scale as three more, RGB and opacity bytes, and the rotation as four
//! bytes.  This module parses and re-encodes records exactly, at the bit
//! level; turning the word bit patterns into fixed-point geometry happens
//! outside the crate.

use vstd::prelude::*;

use crate::splat::Rgb;

verus! {

/// Bytes per record.
pub const RECORD_SIZE: usize = 32;

/// One `.splat` record, fields still in their stored form: positions and
/// scales as little-endian word bit patterns, colors and rotation as bytes.
#[derive(Clone, Copy, PartialEq, Eq, Structural, Debug)]
pub struct SplatRecord {
    pub px_bits: u32,
    pub py_bits: u32,
    pub pz_bits: u32,
    pub sx_bits: u32,
    pub sy_bits: u32,
    pub sz_bits: u32,
    pub color: Rgb,
    pub opacity: u8,
    pub rot0: u8,
    pub rot1: u8,
    pub rot2: u8,
    pub rot3: u8,
}

/// Why a `.splat` file is rejected.
#[derive(Clone, Copy, PartialEq, Eq, Structural, Debug)]
pub enum SplatFileError {
    /// The file size is not a multiple of the record size.
    NotMultipleOfRecordSize,
    /// The file holds less than one record.
    FileTooSmall,
}

/// The little-endian 32-bit word at `off`.
pub open spec fn read_u32_le_spec(b: Seq<u8>, off: int) -> int {
    b[off] + 256 * b[off + 1] + 65536 * b[off + 2] + 0x100_0000 * b[off + 3]
}

/// Reads the little-endian 32-bit word at `off`.
pub fn read_u32_le(bytes: &Vec<u8>, off: usize) -> (r: u32)
    requires
        off + 4 <= bytes.len(),
    ensures
        r == read_u32_le_spec(bytes@, off as int),
{
    bytes[off] as u32 + 256 * (bytes[off + 1] as u32) + 65536 * (bytes[off + 2] as u32)
        + 0x100_0000 * (bytes[off + 3] as u32)
}

/// The record stored at `off`.
pub open spec fn parse_record_spec(b: Seq<u8>, off: int) -> SplatRecord {
    SplatRecord {
        px_bits: read_u32_le_spec(b, off) as u32,
        py_bits: read_u32_le_spec(b, off + 4) as u32,
        pz_bits: read_u32_le_spec(b, off + 8) as u32,
        sx_bits: read_u32_le_spec(b, off + 12) as u32,
        sy_bits: read_u32_le_spec(b, off + 16) as u32,
        sz_bits: read_u32_le_spec(b, off + 20) as u32,
        color: Rgb { r: b[off + 24], g: b[off + 25], b: b[off + 26] },
        opacity: b[off + 27],
        rot0: b[off + 28],
        rot1: b[off + 29],
        rot2: b[off + 30],
        rot3: b[off + 31],
    }
}

/// Parses the record stored at `off`.
pub fn parse_splat_record(bytes: &Vec<u8>, off: usize) -> (r: SplatRecord)
    requires
        off + RECORD_SIZE <= bytes.len(),
    ensures
        r == parse_record_spec(bytes@, off as int),
{
    SplatRecord {
        px_bits: read_u32_le(bytes, off),
        py_bits: read_u32_le(bytes, off + 4),
        pz_bits: read_u32_le(bytes, off + 8),
        sx_bits: read_u32_le(bytes, off + 12),
        sy_bits: read_u32_le(bytes, off + 16),
        sz_bits: read_u32_le(bytes, off + 20),
        color: Rgb { r: bytes[off + 24], g: bytes[off + 25], b: bytes[off + 26] },
        opacity: bytes[off + 27],
        rot0: bytes[off + 28],
        rot1: bytes[off + 29],
        rot2: bytes[off + 30],
        rot3: bytes[off + 31],
    }
}

/// The bytes of a little-endian 32-bit word.
pub open spec fn u32_bytes_spec(v: int) -> Seq<u8> {
    seq![
        (v % 256) as u8,
        ((v / 256) % 256) as u8,
        ((v / 65536) % 256) as u8,
        ((v / 0x100_0000) % 256) as u8,
    ]
}

/// The 32 bytes a record is stored as.
pub open spec fn encode_record_spec(rec: SplatRecord) -> Seq<u8> {
    u32_bytes_spec(rec.px_bits as int) + u32_bytes_spec(rec.py_bits as int) + u32_bytes_spec(
        rec.pz_bits as int,
    ) + u32_bytes_spec(rec.sx_bits as int) + u32_bytes_spec(rec.sy_bits as int) + u32_bytes_spec(
        rec.sz_bits as int,
    ) + seq![
        rec.color.r,
        rec.color.g,
        rec.color.b,
        rec.opacity,
        rec.rot0,
        rec.rot1,
        rec.rot2,
        rec.rot3,
    ]
}

/// Appends the little-endian bytes of one word.
fn push_u32_le(out: &mut Vec<u8>, v: u32) -> (nothing: ())
    ensures
        final(out)@ == old(out)@ + u32_bytes_spec(v as int),
{
    proof {
        assert(v % 256 < 256 && (v / 256) % 256 < 256 && (v / 65536) % 256 < 256 && (v
            / 0x100_0000) % 256 < 256) by (bit_vector);
    }
    out.push((v % 256) as u8);
    out.push(((v / 256) % 256) as u8);
    out.push(((v / 65536) % 256) as u8);
    out.push(((v / 0x100_0000) % 256) as u8);
    proof {
        assert(out@ =~= old(out)@ + u32_bytes_spec(v as int));
    }
}

/// Encodes a record back into its 32 stored bytes.
pub fn encode_splat_record(rec: &SplatRecord) -> (r: Vec<u8>)
    ensures
        r@ == encode_record_spec(*rec),
        r.len() == RECORD_SIZE,
{
    let mut out: Vec<u8> = Vec::new();
    push_u32_le(&mut out, rec.px_bits);
    push_u32_le(&mut out, rec.py_bits);
    push_u32_le(&mut out, rec.pz_bits);
    push_u32_le(&mut out, rec.sx_bits);
    push_u32_le(&mut out, rec.sy_bits);
    push_u32_le(&mut out, rec.sz_bits);
    out.push(rec.color.r);
    out.push(rec.color.g);
    out.push(rec.color.b);
    out.push(rec.opacity);
    out.push(rec.rot0);
    out.push(rec.rot1);
    out.push(rec.rot2);
    out.push(rec.rot3);
    proof {
        assert(out@ =~= encode_record_spec(*rec));
    }
    out
}

/// Round trip: re-encoding a parsed record reproduces its stored bytes.
pub proof fn lemma_record_round_trip(b: Seq<u8>, off: int)
    requires
        0 <= off,
        off + RECORD_SIZE <= b.len(),
    ensures
        encode_record_spec(parse_record_spec(b, off)) =~= b.subrange(off, off + RECORD_SIZE),
{
    assert forall|k: int| 0 <= k < 4 implies {
        &&& u32_bytes_spec(read_u32_le_spec(b, off) as int)[k] == b[off + k]
        &&& u32_bytes_spec(read_u32_le_spec(b, off + 4) as int)[k] == b[off + 4 + k]
        &&& u32_bytes_spec(read_u32_le_spec(b, off + 8) as int)[k] == b[off + 8 + k]
        &&& u32_bytes_spec(read_u32_le_spec(b, off + 12) as int)[k] == b[off + 12 + k]
        &&& u32_bytes_spec(read_u32_le_spec(b, off + 16) as int)[k] == b[off + 16 + k]
        &&& u32_bytes_spec(read_u32_le_spec(b, off + 20) as int)[k] == b[off + 20 + k]
    } by {
        lemma_word_bytes(b, off);
        lemma_word_bytes(b, off + 4);
        lemma_word_bytes(b, off + 8);
        lemma_word_bytes(b, off + 12);
        lemma_word_bytes(b, off + 16);
        lemma_word_bytes(b, off + 20);
    }
}

/// The bytes of a stored word are recovered by its byte decomposition.
proof fn lemma_word_bytes(b: Seq<u8>, off: int)
    requires
        0 <= off,
        off + 4 <= b.len(),
    ensures
        u32_bytes_spec(read_u32_le_spec(b, off) as int)[0] == b[off],
        u32_bytes_spec(read_u32_le_spec(b, off) as int)[1] == b[off + 1],
        u32_bytes_spec(read_u32_le_spec(b, off) as int)[2] == b[off + 2],
        u32_bytes_spec(read_u32_le_spec(b, off) as int)[3] == b[off + 3],
{
    let v = read_u32_le_spec(b, off);
    assert(v % 256 == b[off] && (v / 256) % 256 == b[off + 1] && (v / 65536) % 256 == b[off + 2]
        && (v / 0x100_0000) % 256 == b[off + 3]) by (nonlinear_arith)
        requires
            v == b[off] + 256 * b[off + 1] + 65536 * b[off + 2] + 0x100_0000 * b[off + 3],
            0 <= b[off] < 256,
            0 <= b[off + 1] < 256,
            0 <= b[off + 2] < 256,
            0 <= b[off + 3] < 256,
    ;
    assert(0 <= v < 0x1_0000_0000);
}

/// The records a valid `.splat` file holds, in order.
pub open spec fn parse_file_spec(b: Seq<u8>, n: int) -> Seq<SplatRecord>
    decreases n,
{
    if n <= 0 {
        Seq::empty()
    } else {
        parse_file_spec(b, n - 1).push(parse_record_spec(b, (n - 1) * 32))
    }
}

/// Parses a whole `.splat` file into its records.  The file must be a
/// non-empty sequence of complete records.
pub fn parse_splat_file(data: &Vec<u8>) -> (r: Result<Vec<SplatRecord>, SplatFileError>)
    requires
        data.len() <= 0x1000_0000,
    ensures
        r is Err ==> (r->Err_0 == SplatFileError::NotMultipleOfRecordSize <==> data.len() % 32
            != 0),
        r is Ok <==> data.len() % 32 == 0 && data.len() >= 32,
        r is Ok ==> {
            let recs = r->Ok_0;
            &&& recs.len() == data.len() / 32
            &&& recs@ == parse_file_spec(data@, (data.len() / 32) as int)
        },
{
    if data.len() % 32 != 0 {
        return Err(SplatFileError::NotMultipleOfRecordSize);
    }
    if data.len() < 32 {
        return Err(SplatFileError::FileTooSmall);
    }
    let n = data.len() / 32;
    let mut out: Vec<SplatRecord> = Vec::new();
    let mut i: usize = 0;
    while i < n
        invariant
            i <= n,
            n == data.len() / 32,
            data.len() % 32 == 0,
            data.len() <= 0x1000_0000,
            out.len() == i,
            out@ == parse_file_spec(data@, i as int),
        decreases n - i,
    {
        proof {
            assert((i + 1) * 32 <= (data.len() / 32) * 32 && (data.len() / 32) * 32 == data.len()
                && i * 32 >= 0) by (nonlinear_arith)
                requires
                    i < data.len() / 32,
                    data.len() % 32 == 0,
                    data.len() <= 0x1000_0000,
            ;
            assert((i + 1) * 32 == i * 32 + 32) by (nonlinear_arith);
        }
        let rec = parse_splat_record(data, i * 32);
        out.push(rec);
        i = i + 1;
    }
    Ok(out)
}

} // verus!

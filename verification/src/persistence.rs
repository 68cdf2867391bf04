//! Chunk persistence: the byte form of a voxel buffer and its compression.
//!
//! A saved chunk is the flat voxel array, length-prefixed, then compressed. The
//! shape is not stored: it is taken from configuration on loading, and a blob
//! whose length does not match it is rejected.

use vstd::prelude::*;
use crate::buffer::VoxelBuffer;
use crate::shape::BufferShape;
use crate::voxel::Voxel;

verus! {

/// Makes `std::io::Error` known to the verifier as an opaque type: the error
/// of the compression calls, which is mapped to `PersistError` at once.
#[verifier::external_type_specification]
#[verifier::external_body]
pub struct ExIoError(std::io::Error);

/// The compression level that chunks are saved with.
pub const COMPRESSION_LEVEL: i32 = 3;

/// Why a chunk could not be saved or loaded.
#[derive(Clone, Copy, Debug, PartialEq, Eq, Structural)]
pub enum PersistError {
    /// The bytes end before the data that the length prefix announces, or
    /// before the prefix itself.
    Truncated,
    /// The length prefix is not the cell count of the configured chunk shape.
    WrongLength,
    /// The compressor failed.
    Compression,
    /// The blob is not valid compressed data.
    Decompression,
}

/// Byte `k` of the little-endian form of `n`.
pub open spec fn le_byte(n: int, k: int) -> u8 {
    if k == 0 {
        (n % 256) as u8
    } else if k == 1 {
        ((n / 0x100) % 256) as u8
    } else if k == 2 {
        ((n / 0x1_0000) % 256) as u8
    } else if k == 3 {
        ((n / 0x100_0000) % 256) as u8
    } else if k == 4 {
        ((n / 0x1_0000_0000) % 256) as u8
    } else if k == 5 {
        ((n / 0x100_0000_0000) % 256) as u8
    } else if k == 6 {
        ((n / 0x1_0000_0000_0000) % 256) as u8
    } else {
        ((n / 0x100_0000_0000_0000) % 256) as u8
    }
}

/// The number whose little-endian form is the first eight bytes of `bytes`.
pub open spec fn le_value(bytes: Seq<u8>) -> int {
    bytes[0] + bytes[1] * 0x100 + bytes[2] * 0x1_0000 + bytes[3] * 0x100_0000 + bytes[4]
        * 0x1_0000_0000 + bytes[5] * 0x100_0000_0000 + bytes[6] * 0x1_0000_0000_0000 + bytes[7]
        * 0x100_0000_0000_0000
}

/// The voxel stored at position `i` of the data that follows the prefix.
pub open spec fn voxel_in(bytes: Seq<u8>, i: int) -> Voxel {
    Voxel((bytes[8 + 2 * i] + bytes[9 + 2 * i] * 256) as u16)
}

/// The byte form of a flat voxel array: its length as eight little-endian
/// bytes, then two little-endian bytes per voxel.
pub open spec fn encoded(cells: Seq<Voxel>) -> Seq<u8> {
    Seq::new(
        (8 + 2 * cells.len()) as nat,
        |i: int|
            if i < 8 {
                le_byte(cells.len() as int, i)
            } else if (i - 8) % 2 == 0 {
                (cells[(i - 8) / 2].0 % 256) as u8
            } else {
                (cells[(i - 8) / 2].0 / 256) as u8
            },
    )
}

/// What decoding `bytes` into `count` voxels gives: the voxels, or the reason
/// why there are none. Bytes after the announced data are ignored.
pub open spec fn decode_outcome(bytes: Seq<u8>, count: int) -> Result<Seq<Voxel>, PersistError> {
    if bytes.len() < 8 {
        Err(PersistError::Truncated)
    } else if le_value(bytes) != count {
        Err(PersistError::WrongLength)
    } else if bytes.len() < 8 + 2 * count {
        Err(PersistError::Truncated)
    } else {
        Ok(Seq::new(count as nat, |i: int| voxel_in(bytes, i)))
    }
}

/// The little-endian bytes of a 64-bit number add up to the number.
pub proof fn lemma_le_bytes_value(n: int)
    requires
        0 <= n <= u64::MAX,
    ensures
        le_byte(n, 0) + le_byte(n, 1) * 0x100 + le_byte(n, 2) * 0x1_0000 + le_byte(n, 3) * 0x100_0000
            + le_byte(n, 4) * 0x1_0000_0000 + le_byte(n, 5) * 0x100_0000_0000 + le_byte(n, 6)
            * 0x1_0000_0000_0000 + le_byte(n, 7) * 0x100_0000_0000_0000 == n,
{
    let q1 = n / 0x100;
    let q2 = n / 0x1_0000;
    let q3 = n / 0x100_0000;
    let q4 = n / 0x1_0000_0000;
    let q5 = n / 0x100_0000_0000;
    let q6 = n / 0x1_0000_0000_0000;
    let q7 = n / 0x100_0000_0000_0000;
    vstd::arithmetic::div_mod::lemma_div_denominator(n, 0x100, 0x100);
    vstd::arithmetic::div_mod::lemma_div_denominator(n, 0x1_0000, 0x100);
    vstd::arithmetic::div_mod::lemma_div_denominator(n, 0x100_0000, 0x100);
    vstd::arithmetic::div_mod::lemma_div_denominator(n, 0x1_0000_0000, 0x100);
    vstd::arithmetic::div_mod::lemma_div_denominator(n, 0x100_0000_0000, 0x100);
    vstd::arithmetic::div_mod::lemma_div_denominator(n, 0x1_0000_0000_0000, 0x100);
    assert(q2 == q1 / 0x100);
    assert(q3 == q2 / 0x100);
    assert(q4 == q3 / 0x100);
    assert(q5 == q4 / 0x100);
    assert(q6 == q5 / 0x100);
    assert(q7 == q6 / 0x100);
    assert(n == n % 256 + 256 * q1);
    assert(q1 == q1 % 256 + 256 * q2);
    assert(q2 == q2 % 256 + 256 * q3);
    assert(q3 == q3 % 256 + 256 * q4);
    assert(q4 == q4 % 256 + 256 * q5);
    assert(q5 == q5 % 256 + 256 * q6);
    assert(q6 == q6 % 256 + 256 * q7);
    assert(0 <= q7 < 256);
    assert(q7 % 256 == q7);
}

/// Decoding what was encoded gives the voxels back.
pub proof fn lemma_decode_encoded(cells: Seq<Voxel>)
    requires
        cells.len() <= u64::MAX,
    ensures
        decode_outcome(encoded(cells), cells.len() as int) == Ok::<Seq<Voxel>, PersistError>(cells),
{
    let bytes = encoded(cells);
    let n = cells.len() as int;
    assert(le_value(bytes) == n) by {
        lemma_le_bytes_value(n);
        assert(bytes[0] == le_byte(n, 0));
        assert(bytes[1] == le_byte(n, 1));
        assert(bytes[2] == le_byte(n, 2));
        assert(bytes[3] == le_byte(n, 3));
        assert(bytes[4] == le_byte(n, 4));
        assert(bytes[5] == le_byte(n, 5));
        assert(bytes[6] == le_byte(n, 6));
        assert(bytes[7] == le_byte(n, 7));
    }
    let out = Seq::new(n as nat, |i: int| voxel_in(bytes, i));
    assert forall|i: int| 0 <= i < n implies out[i] == cells[i] by {
        let v = cells[i].0;
        assert(bytes[8 + 2 * i] == (v % 256) as u8);
        assert(bytes[9 + 2 * i] == (v / 256) as u8);
    }
    assert(out =~= cells);
}

/// Serializes a buffer to exactly its flat voxel array, length-prefixed.
pub fn encode_chunk(buffer: &VoxelBuffer) -> (bytes: Vec<u8>)
    requires
        buffer.wf(),
    ensures
        bytes@ == encoded(buffer@),
{
    let cells = buffer.slice();
    let count = cells.len();
    let n: u64 = count as u64;
    let mut out: Vec<u8> = Vec::new();
    out.push((n % 256) as u8);
    out.push(((n / 0x100) % 256) as u8);
    out.push(((n / 0x1_0000) % 256) as u8);
    out.push(((n / 0x100_0000) % 256) as u8);
    out.push(((n / 0x1_0000_0000) % 256) as u8);
    out.push(((n / 0x100_0000_0000) % 256) as u8);
    out.push(((n / 0x1_0000_0000_0000) % 256) as u8);
    out.push(((n / 0x100_0000_0000_0000) % 256) as u8);
    let mut i: usize = 0;
    while i < count
        invariant
            i <= count,
            count == cells@.len(),
            cells@ == buffer@,
            out@.len() == 8 + 2 * i,
            forall|j: int| 0 <= j < 8 + 2 * i ==> out@[j] == #[trigger] encoded(buffer@)[j],
        decreases count - i,
    {
        let id: u16 = cells[i].0;
        out.push((id % 256) as u8);
        out.push((id / 256) as u8);
        i = i + 1;
    }
    assert(out@ =~= encoded(buffer@));
    out
}

/// Deserializes the flat voxel array of a buffer of the given shape.
pub fn decode_chunk(bytes: &[u8], shape: BufferShape) -> (r: Result<VoxelBuffer, PersistError>)
    requires
        shape.wf(),
    ensures
        match r {
            Ok(b) => b.wf() && b.shape_spec() == shape && decode_outcome(bytes@, shape.volume()) == Ok::<
                Seq<Voxel>,
                PersistError,
            >(b@),
            Err(e) => decode_outcome(bytes@, shape.volume()) == Err::<Seq<Voxel>, PersistError>(e),
        },
{
    if bytes.len() < 8 {
        return Err(PersistError::Truncated);
    }
    let announced: u64 = bytes[0] as u64 + bytes[1] as u64 * 0x100 + bytes[2] as u64 * 0x1_0000
        + bytes[3] as u64 * 0x100_0000 + bytes[4] as u64 * 0x1_0000_0000 + bytes[5] as u64
        * 0x100_0000_0000 + bytes[6] as u64 * 0x1_0000_0000_0000 + bytes[7] as u64
        * 0x100_0000_0000_0000;
    let count: u32 = shape.size();
    if announced != count as u64 {
        return Err(PersistError::WrongLength);
    }
    let room: u64 = ((bytes.len() - 8) / 2) as u64;
    if room < (count as u64) {
        return Err(PersistError::Truncated);
    }
    let mut data: Vec<Voxel> = Vec::new();
    let mut i: usize = 0;
    let len = bytes.len();
    while i < count as usize
        invariant
            i <= count,
            len == bytes@.len(),
            bytes@.len() >= 8 + 2 * count,
            data@.len() == i,
            forall|j: int| 0 <= j < i ==> data@[j] == voxel_in(bytes@, j),
        decreases count - i,
    {
        let lo: u16 = bytes[8 + 2 * i] as u16;
        let hi: u16 = bytes[9 + 2 * i] as u16;
        data.push(Voxel(lo + hi * 256));
        i = i + 1;
    }
    assert(data@ =~= Seq::new(count as nat, |i: int| voxel_in(bytes@, i)));
    match VoxelBuffer::from_voxels(shape, data) {
        Ok(b) => Ok(b),
        Err(_) => Err(PersistError::WrongLength),
    }
}

/// The bytes that compressing `data` at `level` gives, or `None` where the
/// compressor fails on them.
pub uninterp spec fn zstd_compressed(data: Seq<u8>, level: i32) -> Option<Seq<u8>>;

/// The bytes that decompressing `data` gives, or `None` where `data` is not
/// valid compressed data.
pub uninterp spec fn zstd_decompressed(data: Seq<u8>) -> Option<Seq<u8>>;

/// Compresses `data` into the zstd frame format.
///
/// Calls `zstd::encode_all` on the bytes. The result is named, not described:
/// the compressed bytes where the call succeeds, none where it fails. Beside
/// the name the contract claims the one thing that the format is for: what was
/// compressed decompresses to the same bytes.
#[verifier::external_body]
fn compress(data: &[u8], level: i32) -> (r: Result<Vec<u8>, std::io::Error>)
    ensures
        match r {
            Ok(c) => zstd_compressed(data@, level) == Some(c@) && zstd_decompressed(c@) == Some(data@),
            Err(_) => zstd_compressed(data@, level) is None,
        },
{
    zstd::encode_all(data, level)
}

/// Decompresses data in the zstd frame format.
///
/// Calls `zstd::decode_all` on the bytes. The result is named, not described:
/// the decompressed bytes where the call succeeds, none where it fails.
#[verifier::external_body]
fn decompress(data: &[u8]) -> (r: Result<Vec<u8>, std::io::Error>)
    ensures
        match r {
            Ok(d) => zstd_decompressed(data@) == Some(d@),
            Err(_) => zstd_decompressed(data@) is None,
        },
{
    zstd::decode_all(data)
}

/// What loading a saved blob into a buffer of `count` cells gives: the voxels,
/// or the reason why there are none.
pub open spec fn load_outcome(blob: Seq<u8>, count: int) -> Result<Seq<Voxel>, PersistError> {
    match zstd_decompressed(blob) {
        Some(raw) => decode_outcome(raw, count),
        None => Err(PersistError::Decompression),
    }
}

/// The blob to write to a chunk's file: the buffer's byte form, compressed.
/// There is a blob exactly where the compressor gives one for the byte form,
/// and whatever blob comes out loads back to the same voxels.
pub fn chunk_to_blob(buffer: &VoxelBuffer) -> (r: Result<Vec<u8>, PersistError>)
    requires
        buffer.wf(),
    ensures
        r is Ok <==> zstd_compressed(encoded(buffer@), COMPRESSION_LEVEL) is Some,
        match r {
            Ok(blob) => {
                &&& zstd_compressed(encoded(buffer@), COMPRESSION_LEVEL) == Some(blob@)
                &&& load_outcome(blob@, buffer.shape_spec().volume()) == Ok::<Seq<Voxel>, PersistError>(
                    buffer@,
                )
            },
            Err(e) => e == PersistError::Compression,
        },
{
    let bytes = encode_chunk(buffer);
    proof {
        lemma_decode_encoded(buffer@);
    }
    match compress(bytes.as_slice(), COMPRESSION_LEVEL) {
        Ok(blob) => Ok(blob),
        Err(_) => Err(PersistError::Compression),
    }
}

/// The buffer that a chunk's file holds: the blob decompressed, then decoded
/// into a buffer of the given shape.
pub fn chunk_from_blob(blob: &[u8], shape: BufferShape) -> (r: Result<VoxelBuffer, PersistError>)
    requires
        shape.wf(),
    ensures
        match r {
            Ok(b) => b.wf() && b.shape_spec() == shape && load_outcome(blob@, shape.volume()) == Ok::<
                Seq<Voxel>,
                PersistError,
            >(b@),
            Err(e) => load_outcome(blob@, shape.volume()) == Err::<Seq<Voxel>, PersistError>(e),
        },
{
    match decompress(blob) {
        Ok(raw) => decode_chunk(raw.as_slice(), shape),
        Err(_) => Err(PersistError::Decompression),
    }
}

/// The buffer that a chunk's file holds, if there is a file and it holds one.
/// A missing file and a file that does not load are the same: the chunk was
/// never saved, and is to be generated.
pub fn chunk_from_disk(file: Option<&[u8]>, shape: BufferShape) -> (r: Option<VoxelBuffer>)
    requires
        shape.wf(),
    ensures
        match r {
            Some(b) => file matches Some(blob) && b.wf() && b.shape_spec() == shape && load_outcome(
                blob@,
                shape.volume(),
            ) == Ok::<Seq<Voxel>, PersistError>(b@),
            None => file matches Some(blob) ==> load_outcome(blob@, shape.volume()) is Err,
        },
{
    match file {
        Some(blob) => match chunk_from_blob(blob, shape) {
            Ok(b) => Some(b),
            Err(_) => None,
        },
        None => None,
    }
}

/// Saving then loading reproduces the buffer voxel for voxel: whatever blob
/// saving produced, loading it into the same shape gives the same voxels.
pub proof fn lemma_save_load_round_trip(cells: Seq<Voxel>, blob: Seq<u8>)
    requires
        cells.len() <= u64::MAX,
        zstd_decompressed(blob) == Some(encoded(cells)),
    ensures
        load_outcome(blob, cells.len() as int) == Ok::<Seq<Voxel>, PersistError>(cells),
{
    lemma_decode_encoded(cells);
}

} // verus!

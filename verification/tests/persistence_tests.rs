use voxel_world::buffer::VoxelBuffer;
use voxel_world::keyed::ChunkKey;
use voxel_world::paths::{app_directory_name, chunk_file_name, saves_directory_name};
use voxel_world::persistence::{
    chunk_from_blob, chunk_from_disk, chunk_to_blob, decode_chunk, encode_chunk, PersistError,
};
use voxel_world::shape::BufferShape;
use voxel_world::voxel::Voxel;

fn sample(shape: BufferShape) -> VoxelBuffer {
    let mut buffer = VoxelBuffer::new_empty(shape);
    let mut n = 0u32;
    for z in 0..shape.z {
        for y in 0..shape.y {
            for x in 0..shape.x {
                buffer.set_voxel([x, y, z], Voxel((n * 257 % 65_536) as u16));
                n += 1;
            }
        }
    }
    buffer
}

#[test]
fn the_byte_form_is_length_then_little_endian_voxels() {
    let mut buffer = VoxelBuffer::new_empty(BufferShape { x: 3, y: 1, z: 1 });
    buffer.set_voxel([0, 0, 0], Voxel(1));
    buffer.set_voxel([1, 0, 0], Voxel(0x1234));
    buffer.set_voxel([2, 0, 0], Voxel(0xFFFE));
    assert_eq!(
        encode_chunk(&buffer),
        vec![3, 0, 0, 0, 0, 0, 0, 0, 0x01, 0x00, 0x34, 0x12, 0xFE, 0xFF]
    );
}

#[test]
fn the_byte_form_is_what_bincode_writes_for_the_array() {
    let buffer = sample(BufferShape { x: 5, y: 6, z: 7 });
    let raw: Vec<u16> = buffer.slice().iter().map(|v| v.0).collect();
    assert_eq!(encode_chunk(&buffer), bincode::serialize(&raw).unwrap());
    let chunk = sample(BufferShape::chunk());
    let raw: Vec<u16> = chunk.slice().iter().map(|v| v.0).collect();
    assert_eq!(encode_chunk(&chunk), bincode::serialize(&raw).unwrap());
}

#[test]
fn bincode_reads_the_byte_form_back() {
    let buffer = sample(BufferShape { x: 4, y: 4, z: 4 });
    let back: Vec<u16> = bincode::deserialize(&encode_chunk(&buffer)).unwrap();
    let raw: Vec<u16> = buffer.slice().iter().map(|v| v.0).collect();
    assert_eq!(back, raw);
}

#[test]
fn the_length_prefix_uses_all_its_bytes() {
    let buffer = VoxelBuffer::new(BufferShape { x: 256, y: 256, z: 2 }, Voxel(0));
    let bytes = encode_chunk(&buffer);
    assert_eq!(&bytes[0..8], &[0, 0, 2, 0, 0, 0, 0, 0]);
    assert_eq!(bytes.len(), 8 + 2 * 131_072);
}

#[test]
fn decoding_gives_the_voxels_back() {
    let shape = BufferShape { x: 5, y: 6, z: 7 };
    let buffer = sample(shape);
    let decoded = decode_chunk(&encode_chunk(&buffer), shape).unwrap();
    assert_eq!(decoded.slice(), buffer.slice());
    assert_eq!(*decoded.shape(), shape);
}

#[test]
fn decoding_ignores_bytes_after_the_data() {
    let shape = BufferShape { x: 2, y: 2, z: 2 };
    let buffer = sample(shape);
    let mut bytes = encode_chunk(&buffer);
    bytes.extend_from_slice(&[9, 9, 9]);
    assert_eq!(decode_chunk(&bytes, shape).unwrap().slice(), buffer.slice());
}

#[test]
fn decoding_rejects_a_missing_prefix() {
    let shape = BufferShape { x: 2, y: 2, z: 2 };
    assert_eq!(decode_chunk(&[], shape).unwrap_err(), PersistError::Truncated);
    assert_eq!(decode_chunk(&[8, 0, 0, 0, 0, 0, 0], shape).unwrap_err(), PersistError::Truncated);
}

#[test]
fn decoding_rejects_another_shape() {
    let bytes = encode_chunk(&sample(BufferShape { x: 2, y: 2, z: 2 }));
    let other = BufferShape { x: 2, y: 2, z: 3 };
    assert_eq!(decode_chunk(&bytes, other).unwrap_err(), PersistError::WrongLength);
    let mut high = bytes.clone();
    high[7] = 1;
    assert_eq!(
        decode_chunk(&high, BufferShape { x: 2, y: 2, z: 2 }).unwrap_err(),
        PersistError::WrongLength
    );
}

#[test]
fn decoding_rejects_missing_data() {
    let shape = BufferShape { x: 2, y: 2, z: 2 };
    let mut bytes = encode_chunk(&sample(shape));
    bytes.pop();
    assert_eq!(decode_chunk(&bytes, shape).unwrap_err(), PersistError::Truncated);
    bytes.truncate(8);
    assert_eq!(decode_chunk(&bytes, shape).unwrap_err(), PersistError::Truncated);
}

#[test]
fn a_blob_is_the_compressed_byte_form() {
    let buffer = sample(BufferShape { x: 8, y: 8, z: 8 });
    let blob = chunk_to_blob(&buffer).unwrap();
    assert_ne!(blob, encode_chunk(&buffer));
    assert_eq!(&blob[0..4], &[0x28, 0xB5, 0x2F, 0xFD]);
    assert_eq!(zstd::decode_all(&blob[..]).unwrap(), encode_chunk(&buffer));
    assert_eq!(blob, zstd::encode_all(&encode_chunk(&buffer)[..], 3).unwrap());
}

#[test]
fn a_uniform_chunk_compresses_well() {
    let buffer = VoxelBuffer::new(BufferShape::chunk(), Voxel(3));
    let blob = chunk_to_blob(&buffer).unwrap();
    assert!(blob.len() < 1024);
}

#[test]
fn saving_then_loading_reproduces_the_buffer() {
    for shape in [
        BufferShape { x: 1, y: 1, z: 1 },
        BufferShape { x: 5, y: 6, z: 7 },
        BufferShape { x: 0, y: 4, z: 4 },
        BufferShape::chunk(),
    ] {
        let buffer = sample(shape);
        let blob = chunk_to_blob(&buffer).unwrap();
        let loaded = chunk_from_blob(&blob, shape).unwrap();
        assert_eq!(loaded.slice(), buffer.slice());
        assert_eq!(*loaded.shape(), shape);
    }
}

#[test]
fn loading_rejects_what_is_not_compressed_data() {
    let shape = BufferShape { x: 2, y: 2, z: 2 };
    let raw = encode_chunk(&sample(shape));
    assert_eq!(chunk_from_blob(&raw, shape).unwrap_err(), PersistError::Decompression);
    assert_eq!(chunk_from_blob(&[1, 2, 3], shape).unwrap_err(), PersistError::Decompression);
}

#[test]
fn loading_rejects_a_blob_of_another_shape() {
    let blob = chunk_to_blob(&sample(BufferShape { x: 2, y: 2, z: 2 })).unwrap();
    assert_eq!(
        chunk_from_blob(&blob, BufferShape { x: 4, y: 2, z: 2 }).unwrap_err(),
        PersistError::WrongLength
    );
}

#[test]
fn loading_rejects_a_blob_that_was_cut_short_before_compression() {
    let shape = BufferShape { x: 2, y: 2, z: 2 };
    let mut raw = encode_chunk(&sample(shape));
    raw.truncate(12);
    let blob = zstd::encode_all(&raw[..], 3).unwrap();
    assert_eq!(chunk_from_blob(&blob, shape).unwrap_err(), PersistError::Truncated);
}

#[test]
fn a_missing_file_and_a_broken_file_both_mean_never_saved() {
    let shape = BufferShape { x: 2, y: 2, z: 2 };
    assert!(chunk_from_disk(None, shape).is_none());
    assert!(chunk_from_disk(Some(&[0u8, 1, 2][..]), shape).is_none());
    let buffer = sample(shape);
    let blob = chunk_to_blob(&buffer).unwrap();
    assert_eq!(chunk_from_disk(Some(&blob[..]), shape).unwrap().slice(), buffer.slice());
}

#[test]
fn chunk_files_are_named_by_x_and_z() {
    assert_eq!(chunk_file_name(ChunkKey { x: 0, y: 0, z: 0 }), "0.0.chunk");
    assert_eq!(chunk_file_name(ChunkKey { x: 32, y: 0, z: -64 }), "32.-64.chunk");
    assert_eq!(chunk_file_name(ChunkKey { x: -7, y: 5, z: 1005 }), "-7.1005.chunk");
    assert_eq!(
        chunk_file_name(ChunkKey { x: i32::MIN, y: 0, z: i32::MAX }),
        "-2147483648.2147483647.chunk"
    );
}

#[test]
fn chunk_file_names_agree_with_the_standard_formatting() {
    for (x, z) in [(0, 9), (10, -10), (99, 100), (-1, 1), (123_456_789, -987_654_321)] {
        assert_eq!(chunk_file_name(ChunkKey { x, y: 0, z }), format!("{}.{}.chunk", x, z));
    }
}

#[test]
fn saves_live_under_the_application_directory() {
    assert_eq!(app_directory_name(), ".yavafg");
    assert_eq!(saves_directory_name(), "saved_worlds");
}

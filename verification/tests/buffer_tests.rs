use ndshape::Shape;
use voxel_world::buffer::{Extent, VoxelBuffer};
use voxel_world::shape::BufferShape;
use voxel_world::voxel::Voxel;

fn numbered(shape: BufferShape) -> VoxelBuffer {
    let mut buffer = VoxelBuffer::new_empty(shape);
    let mut n = 1u16;
    for z in 0..shape.z {
        for y in 0..shape.y {
            for x in 0..shape.x {
                *buffer.voxel_at_mut([x, y, z]) = Voxel(n);
                n += 1;
            }
        }
    }
    buffer
}

#[test]
fn new_fills_every_cell() {
    let shape = BufferShape { x: 3, y: 4, z: 5 };
    let buffer = VoxelBuffer::new(shape, Voxel(7));
    assert_eq!(buffer.slice().len(), 60);
    for z in 0..5 {
        for y in 0..4 {
            for x in 0..3 {
                assert_eq!(buffer.voxel_at([x, y, z]), Voxel(7));
            }
        }
    }
}

#[test]
fn new_empty_holds_the_empty_voxel() {
    let buffer = VoxelBuffer::new_empty(BufferShape { x: 2, y: 2, z: 2 });
    assert_eq!(buffer.slice(), &[Voxel(0); 8][..]);
    assert_eq!(*buffer.shape(), BufferShape { x: 2, y: 2, z: 2 });
}

#[test]
fn chunk_shape_has_the_configured_size() {
    let shape = BufferShape::chunk();
    assert_eq!(shape.as_array(), [32, 256, 32]);
    assert_eq!(shape.size(), 262_144);
    assert_eq!(shape.checked_size(), Some(262_144));
}

#[test]
fn checked_size_rejects_shapes_beyond_the_index_type() {
    assert_eq!(BufferShape { x: 65_536, y: 65_536, z: 1 }.checked_size(), None);
    assert_eq!(BufferShape { x: 65_536, y: 65_535, z: 2 }.checked_size(), None);
    assert_eq!(BufferShape { x: 65_535, y: 65_537, z: 1 }.checked_size(), Some(4_294_967_295));
    assert_eq!(BufferShape { x: 0, y: 9, z: 9 }.checked_size(), Some(0));
}

#[test]
fn cells_are_stored_x_first_then_y_then_z() {
    let shape = BufferShape { x: 3, y: 4, z: 5 };
    let buffer = numbered(shape);
    let flat: Vec<u16> = buffer.slice().iter().map(|v| v.0).collect();
    let expected: Vec<u16> = (1..=60).collect();
    assert_eq!(flat, expected);
    assert_eq!(buffer.voxel_at([2, 3, 4]), Voxel(60));
    assert_eq!(buffer.voxel_at([1, 0, 0]), Voxel(2));
    assert_eq!(buffer.voxel_at([0, 1, 0]), Voxel(4));
    assert_eq!(buffer.voxel_at([0, 0, 1]), Voxel(13));
}

#[test]
fn linearization_agrees_with_ndshape() {
    let shape = BufferShape { x: 5, y: 7, z: 3 };
    let buffer = numbered(shape);
    let reference = ndshape::RuntimeShape::<u32, 3>::new([5, 7, 3]);
    for z in 0..3 {
        for y in 0..7 {
            for x in 0..5 {
                let i = reference.linearize([x, y, z]) as usize;
                assert_eq!(buffer.voxel_at([x, y, z]), buffer.slice()[i]);
            }
        }
    }
}

#[test]
fn voxel_at_mut_changes_one_cell() {
    let shape = BufferShape { x: 3, y: 3, z: 3 };
    let mut buffer = VoxelBuffer::new(shape, Voxel(1));
    *buffer.voxel_at_mut([1, 2, 0]) = Voxel(5);
    for z in 0..3 {
        for y in 0..3 {
            for x in 0..3 {
                let expected = if [x, y, z] == [1, 2, 0] { Voxel(5) } else { Voxel(1) };
                assert_eq!(buffer.voxel_at([x, y, z]), expected);
            }
        }
    }
}

#[test]
fn set_voxel_changes_one_cell() {
    let shape = BufferShape { x: 2, y: 3, z: 4 };
    let mut buffer = VoxelBuffer::new_empty(shape);
    buffer.set_voxel([1, 2, 3], Voxel(11));
    let written: Vec<usize> =
        buffer.slice().iter().enumerate().filter(|(_, v)| **v == Voxel(11)).map(|(i, _)| i).collect();
    assert_eq!(written, vec![1 + 2 * 2 + 2 * 3 * 3]);
    assert_eq!(buffer.slice().iter().filter(|v| **v == Voxel(0)).count(), 23);
}

#[test]
fn fill_extent_stamps_only_the_box() {
    let shape = BufferShape { x: 4, y: 4, z: 4 };
    let mut buffer = VoxelBuffer::new_empty(shape);
    buffer.fill_extent(Extent::from_min_and_shape([1, 0, 2], [2, 3, 1]), Voxel(9));
    for z in 0..4u32 {
        for y in 0..4u32 {
            for x in 0..4u32 {
                let inside = (1..3).contains(&x) && y < 3 && z == 2;
                let expected = if inside { Voxel(9) } else { Voxel(0) };
                assert_eq!(buffer.voxel_at([x, y, z]), expected);
            }
        }
    }
}

#[test]
fn fill_extent_with_an_empty_box_changes_nothing() {
    let shape = BufferShape { x: 3, y: 3, z: 3 };
    let mut buffer = numbered(shape);
    let before = buffer.slice().to_vec();
    buffer.fill_extent(Extent::from_min_and_shape([1, 1, 1], [2, 0, 2]), Voxel(99));
    assert_eq!(buffer.slice(), &before[..]);
}

#[test]
fn extent_fits_only_inside_the_shape() {
    let shape = BufferShape { x: 4, y: 5, z: 6 };
    assert!(Extent::from_min_and_shape([0, 0, 0], [4, 5, 6]).fits_in(&shape));
    assert!(Extent::from_min_and_shape([3, 4, 5], [1, 1, 1]).fits_in(&shape));
    assert!(!Extent::from_min_and_shape([3, 4, 5], [2, 1, 1]).fits_in(&shape));
    assert!(!Extent::from_min_and_shape([0, 0, 0], [4, 6, 6]).fits_in(&shape));
    assert!(!Extent::from_min_and_shape([u32::MAX, 0, 0], [1, 1, 1]).fits_in(&shape));
}

#[test]
fn copy_extent_moves_a_box_between_buffers() {
    let source = numbered(BufferShape { x: 2, y: 2, z: 2 });
    let mut target = VoxelBuffer::new(BufferShape { x: 4, y: 4, z: 4 }, Voxel(500));
    source.copy_extent_to([2, 2, 2], [0, 0, 0], &mut target, [1, 1, 1]);
    for z in 0..4u32 {
        for y in 0..4u32 {
            for x in 0..4u32 {
                let inside = (1..3).contains(&x) && (1..3).contains(&y) && (1..3).contains(&z);
                let expected =
                    if inside { source.voxel_at([x - 1, y - 1, z - 1]) } else { Voxel(500) };
                assert_eq!(target.voxel_at([x, y, z]), expected);
            }
        }
    }
}

#[test]
fn copy_extent_takes_the_box_from_where_it_is_told() {
    let source = numbered(BufferShape { x: 3, y: 3, z: 3 });
    let mut target = VoxelBuffer::new_empty(BufferShape { x: 3, y: 3, z: 3 });
    source.copy_extent_to([1, 2, 1], [2, 1, 0], &mut target, [0, 0, 2]);
    assert_eq!(target.voxel_at([0, 0, 2]), source.voxel_at([2, 1, 0]));
    assert_eq!(target.voxel_at([0, 1, 2]), source.voxel_at([2, 2, 0]));
    assert_eq!(target.slice().iter().filter(|v| **v != Voxel(0)).count(), 2);
}

#[test]
fn from_voxels_checks_the_length() {
    let shape = BufferShape { x: 2, y: 2, z: 2 };
    let good = VoxelBuffer::from_voxels(shape, vec![Voxel(3); 8]).unwrap();
    assert_eq!(good.voxel_at([1, 1, 1]), Voxel(3));
    let short = VoxelBuffer::from_voxels(shape, vec![Voxel(3); 7]);
    assert_eq!(short.unwrap_err(), vec![Voxel(3); 7]);
    let long = VoxelBuffer::from_voxels(shape, vec![Voxel(3); 9]);
    assert!(long.is_err());
}

#[test]
fn snapshot_shares_nothing_with_its_source() {
    let mut buffer = numbered(BufferShape { x: 2, y: 2, z: 2 });
    let snapshot = buffer.snapshot();
    buffer.set_voxel([0, 0, 0], Voxel(77));
    assert_eq!(snapshot.voxel_at([0, 0, 0]), Voxel(1));
    assert_eq!(buffer.voxel_at([0, 0, 0]), Voxel(77));
    assert_eq!(snapshot.slice()[1..], buffer.slice()[1..]);
}

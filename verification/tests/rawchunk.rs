use vtrace::voxel::common::{
    contains, FromVoxelIterator, IntoVoxelIterator, RawVoxelData, VoxelData, VoxelIterator,
};
use vtrace::voxel::rawchunk::{RawDynamicChunk, RawStaticChunk};

#[test]
fn rawchunk_test1() {
    let chunk1 = RawStaticChunk::<i32, 3, 8, 5>::new(42);

    let chunk2 = RawDynamicChunk::from_iter(chunk1);

    let mut walk = chunk2.into_iter();
    let mut seen = 0;
    while let Some(v2) = walk.next() {
        assert_eq!(42, v2);
        seen += 1;
    }
    assert_eq!(seen, 3 * 8 * 5);
}

#[test]
fn rawchunk_test2() {
    let chunk1 = RawDynamicChunk::<i32>::new(3, 8, 5, 42);
    let mut chunk1_iter = chunk1.into_iter();

    let mut seen = 0;
    while let Some(v) = chunk1_iter.next() {
        assert_eq!(v, 42);
        seen += 1;
    }
    assert_eq!(seen, 3 * 8 * 5);
}

#[test]
fn static_chunk_reports_its_extents() {
    let chunk = RawStaticChunk::<u8, 3, 8, 5>::new(7);
    assert_eq!(chunk.dim_x(), (0, 3));
    assert_eq!(chunk.dim_y(), (0, 8));
    assert_eq!(chunk.dim_z(), (0, 5));
}

#[test]
fn dynamic_chunk_reports_its_extents() {
    let chunk = RawDynamicChunk::<u8>::new(4, 2, 6, 1);
    assert_eq!(chunk.dim_x(), (0, 4));
    assert_eq!(chunk.dim_y(), (0, 2));
    assert_eq!(chunk.dim_z(), (0, 6));
}

#[test]
fn contains_is_half_open_on_every_axis() {
    let chunk = RawStaticChunk::<u8, 3, 8, 5>::new(0);
    assert!(contains(&chunk, 0, 0, 0));
    assert!(contains(&chunk, 2, 7, 4));
    assert!(!contains(&chunk, 3, 0, 0));
    assert!(!contains(&chunk, 0, 8, 0));
    assert!(!contains(&chunk, 0, 0, 5));
    assert!(!contains(&chunk, -1, 0, 0));
    assert!(!contains(&chunk, 0, -1, 0));
    assert!(!contains(&chunk, 0, 0, -1));
}

#[test]
fn at_is_none_outside_the_grid() {
    let mut fixed = RawStaticChunk::<i32, 2, 2, 2>::new(9);
    assert_eq!(fixed.at(1, 1, 1), Some(&9));
    assert_eq!(fixed.at(2, 0, 0), None);
    assert_eq!(fixed.at(0, 0, -1), None);
    assert!(fixed.at_mut(0, 2, 0).is_none());

    let mut sized = RawDynamicChunk::<i32>::new(2, 3, 4, 9);
    assert_eq!(sized.at(1, 2, 3), Some(&9));
    assert_eq!(sized.at(1, 3, 0), None);
    assert_eq!(sized.at(-1, 0, 0), None);
    assert!(sized.at_mut(0, 0, 4).is_none());
}

#[test]
fn at_mut_writes_one_voxel_of_a_static_chunk() {
    let mut chunk = RawStaticChunk::<i32, 2, 3, 4>::new(0);
    *chunk.at_mut(1, 2, 3).unwrap() = 5;
    for x in 0..2 {
        for y in 0..3 {
            for z in 0..4 {
                let expected = if (x, y, z) == (1, 2, 3) { 5 } else { 0 };
                assert_eq!(chunk.at(x, y, z), Some(&expected));
            }
        }
    }
}

#[test]
fn at_mut_writes_one_voxel_of_a_dynamic_chunk() {
    let mut chunk = RawDynamicChunk::<i32>::new(2, 3, 4, 0);
    *chunk.at_mut(1, 0, 2).unwrap() = 5;
    for x in 0..2 {
        for y in 0..3 {
            for z in 0..4 {
                let expected = if (x, y, z) == (1, 0, 2) { 5 } else { 0 };
                assert_eq!(chunk.at(x, y, z), Some(&expected));
            }
        }
    }
}

#[test]
fn raw_block_is_x_major() {
    let mut fixed = RawStaticChunk::<i32, 2, 3, 4>::new(0);
    let mut sized = RawDynamicChunk::<i32>::new(2, 3, 4, 0);
    for x in 0..2 {
        for y in 0..3 {
            for z in 0..4 {
                let value = 100 * x + 10 * y + z;
                *fixed.at_mut(x, y, z).unwrap() = value;
                *sized.at_mut(x, y, z).unwrap() = value;
            }
        }
    }
    let expected: Vec<i32> = vec![
        0, 1, 2, 3, 10, 11, 12, 13, 20, 21, 22, 23, 100, 101, 102, 103, 110, 111, 112, 113, 120,
        121, 122, 123,
    ];
    assert_eq!(fixed.get_raw(), expected);
    assert_eq!(sized.get_raw(), expected);
    // position of (1, 2, 3) is 3 + 4 * (2 + 3 * 1) = 23
    assert_eq!(sized.get_raw()[23], 123);
}

#[test]
fn walk_hands_out_voxels_in_x_major_order() {
    let mut chunk = RawStaticChunk::<i32, 2, 2, 2>::new(0);
    for x in 0..2 {
        for y in 0..2 {
            for z in 0..2 {
                *chunk.at_mut(x, y, z).unwrap() = 4 * x + 2 * y + z;
            }
        }
    }
    let mut walk = chunk.into_iter();
    assert_eq!(walk.len(), 8);
    assert_eq!(walk.dim_x(), (0, 2));
    let mut handed = Vec::new();
    while let Some(v) = walk.next() {
        handed.push(v);
    }
    assert_eq!(handed, vec![0, 1, 2, 3, 4, 5, 6, 7]);
    assert_eq!(walk.next(), None);
    assert_eq!(walk.len(), 8);
}

#[test]
fn from_iter_keeps_every_voxel_in_place() {
    let mut source = RawDynamicChunk::<i32>::new(3, 2, 4, 0);
    for x in 0..3 {
        for y in 0..2 {
            for z in 0..4 {
                *source.at_mut(x, y, z).unwrap() = 100 * x + 10 * y + z;
            }
        }
    }
    let fixed = RawStaticChunk::<i32, 3, 2, 4>::from_iter(source);
    for x in 0..3 {
        for y in 0..2 {
            for z in 0..4 {
                assert_eq!(fixed.at(x, y, z), Some(&(100 * x + 10 * y + z)));
            }
        }
    }
    let back = RawDynamicChunk::<i32>::from_iter(fixed);
    assert_eq!(back.dim_x(), (0, 3));
    assert_eq!(back.dim_y(), (0, 2));
    assert_eq!(back.dim_z(), (0, 4));
    for x in 0..3 {
        for y in 0..2 {
            for z in 0..4 {
                assert_eq!(back.at(x, y, z), Some(&(100 * x + 10 * y + z)));
            }
        }
    }
}

#[test]
fn static_from_iter_reshapes_by_position() {
    // A static chunk takes the voxels in order, whatever the ranges of the walk.
    let mut source = RawDynamicChunk::<i32>::new(1, 2, 3, 0);
    *source.at_mut(0, 1, 2).unwrap() = 7;
    let fixed = RawStaticChunk::<i32, 3, 2, 1>::from_iter(source);
    // position 5 is (2, 1, 0) in a 3 x 2 x 1 grid
    assert_eq!(fixed.at(2, 1, 0), Some(&7));
    assert_eq!(fixed.at(0, 0, 0), Some(&0));
}

#[test]
fn empty_grids_have_no_voxels() {
    let chunk = RawDynamicChunk::<i32>::new(0, 5, 5, 1);
    assert_eq!(chunk.at(0, 0, 0), None);
    assert_eq!(chunk.get_raw().len(), 0);
    let mut walk = chunk.into_iter();
    assert_eq!(walk.len(), 0);
    assert_eq!(walk.next(), None);
}

#[test]
fn static_chunk_copies_are_independent() {
    let first = RawStaticChunk::<i32, 2, 2, 2>::new(1);
    let mut second = first;
    *second.at_mut(0, 0, 0).unwrap() = 2;
    assert_eq!(first.at(0, 0, 0), Some(&1));
    assert_eq!(second.at(0, 0, 0), Some(&2));
    assert_eq!(first.clone(), first);
    assert_ne!(first, second);
}

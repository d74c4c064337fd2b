use raycaster_lib::volumetric::block_volume::{
    get_block, Block, BlockVolume, BuildMetadata, BLOCK_DATA_LEN, BLOCK_OVERLAP, BLOCK_SIDE,
};
use raycaster_lib::volumetric::dims::{get_3d_index, Dims};

/// All values of a block, read through `get_block_data_half`.
fn block_values(block: &Block) -> Vec<u8> {
    let mut values = vec![0u8; BLOCK_DATA_LEN];
    for start in 0..=22usize {
        let half = block.get_block_data_half(start);
        values[start] = half[0];
        values[start + 1] = half[1];
        values[start + 3] = half[2];
        values[start + 4] = half[3];
    }
    values
}

fn ramp(n: usize) -> Vec<u8> {
    (0..n).map(|i| i as u8).collect()
}

#[test]
fn block_constants() {
    assert_eq!(BLOCK_SIDE, 3);
    assert_eq!(BLOCK_OVERLAP, 1);
    assert_eq!(BLOCK_DATA_LEN, BLOCK_SIDE * BLOCK_SIDE * BLOCK_SIDE);
}

#[test]
fn get_3d_index_is_row_major_with_z_fastest() {
    let size = Dims::new(4, 3, 5);
    assert_eq!(get_3d_index(size, 0, 0, 0), 0);
    assert_eq!(get_3d_index(size, 0, 0, 4), 4);
    assert_eq!(get_3d_index(size, 0, 1, 0), 5);
    assert_eq!(get_3d_index(size, 1, 0, 0), 15);
    assert_eq!(get_3d_index(size, 3, 2, 4), 59);
}

#[test]
fn from_data_keeps_values() {
    let mut data = [0u8; BLOCK_DATA_LEN];
    for (i, v) in data.iter_mut().enumerate() {
        *v = (100 + i) as u8;
    }
    let block = Block::from_data(data);
    assert_eq!(block_values(&block), data.to_vec());
}

#[test]
fn get_block_data_half_reads_a_face() {
    let mut data = [0u8; BLOCK_DATA_LEN];
    for (i, v) in data.iter_mut().enumerate() {
        *v = i as u8;
    }
    let block = Block::from_data(data);
    assert_eq!(block.get_block_data_half(0), [0, 1, 3, 4]);
    assert_eq!(block.get_block_data_half(13), [13, 14, 16, 17]);
    assert_eq!(block.get_block_data_half(22), [22, 23, 25, 26]);
}

#[test]
fn get_block_inside_grid() {
    let size = Dims::new(3, 3, 3);
    let data = ramp(27);
    let block = get_block(&data, size, 0, 0, 0);
    assert_eq!(block_values(&block), data);
}

#[test]
fn get_block_pads_outside_with_zero() {
    let size = Dims::new(2, 2, 2);
    let data: Vec<u8> = (1..=8).collect();
    let block = get_block(&data, size, 0, 0, 0);
    let values = block_values(&block);
    for ox in 0..3usize {
        for oy in 0..3usize {
            for oz in 0..3usize {
                let expected = if ox < 2 && oy < 2 && oz < 2 {
                    data[oz + oy * 2 + ox * 4]
                } else {
                    0
                };
                assert_eq!(values[ox * 9 + oy * 3 + oz], expected);
            }
        }
    }
}

#[test]
fn get_block_at_far_corner() {
    let size = Dims::new(4, 4, 4);
    let data = ramp(64);
    let block = get_block(&data, size, 2, 2, 2);
    let values = block_values(&block);
    assert_eq!(values[0], data[get_3d_index(size, 2, 2, 2)]);
    assert_eq!(values[1 * 9 + 1 * 3 + 1], data[get_3d_index(size, 3, 3, 3)]);
    assert_eq!(values[2 * 9], 0);
    assert_eq!(values[2], 0);
}

#[test]
fn build_counts_blocks_and_sizes() {
    let size = Dims::new(5, 4, 3);
    let data = ramp(60);
    let volume = BlockVolume::build(&data, size);
    assert_eq!(volume.get_size(), size);
    // blocks along x: 3 (origins 0, 2, 4), y: 2, z: 2
    assert_eq!(volume.block_count(), 12);
    // voxel (4, 0, 0) is in the block with origin (4, 0, 0), list position 8
    assert_eq!(volume.get_indexes(4, 0, 0), (8, 0));
    assert_eq!(volume.get_data(4, 0, 0), Some(data[get_3d_index(size, 4, 0, 0)]));
}

#[test]
fn build_empty_grid() {
    let size = Dims::new(0, 7, 7);
    let volume = BlockVolume::build(&[], size);
    assert_eq!(volume.get_size(), size);
    assert_eq!(volume.block_count(), 0);
    assert_eq!(volume.get_data(0, 0, 0), None);
    assert!(volume.sample_corners(0, 0, 0).is_none());
}

#[test]
fn lookup_gives_source_voxel_for_even_sizes() {
    let size = Dims::new(5, 4, 6);
    let data: Vec<u8> = (0..120).map(|i| (i * 7 % 251) as u8).collect();
    let volume = BlockVolume::build(&data, size);
    for x in 0..5 {
        for y in 0..4 {
            for z in 0..6 {
                assert_eq!(
                    volume.get_data(x, y, z),
                    Some(data[get_3d_index(size, x, y, z)])
                );
            }
        }
    }
}

#[test]
fn lookup_gives_source_voxel_for_odd_sizes() {
    for size in [Dims::new(3, 3, 3), Dims::new(5, 3, 7), Dims::new(1, 2, 3)] {
        let n = size.x * size.y * size.z;
        let data: Vec<u8> = (0..n).map(|i| (i * 13 % 251) as u8).collect();
        let volume = BlockVolume::build(&data, size);
        for x in 0..size.x {
            for y in 0..size.y {
                for z in 0..size.z {
                    assert_eq!(
                        volume.get_data(x, y, z),
                        Some(data[get_3d_index(size, x, y, z)])
                    );
                }
            }
        }
    }
    // voxel (0, 2, 0) of a 3 x 3 x 3 grid is in the block with origin (0, 2, 0)
    let size = Dims::new(3, 3, 3);
    let volume = BlockVolume::build(&ramp(27), size);
    assert_eq!(volume.get_indexes(0, 2, 0), (2, 0));
    assert_eq!(volume.get_data(0, 2, 0), Some(6));
    assert_eq!(volume.get_data(2, 0, 0), Some(18));
}

#[test]
fn sample_corners_found_for_every_voxel() {
    let size = Dims::new(3, 5, 3);
    let data = ramp(45);
    let volume = BlockVolume::build(&data, size);
    let voxel = |x: usize, y: usize, z: usize| {
        if x < 3 && y < 5 && z < 3 {
            data[get_3d_index(size, x, y, z)]
        } else {
            0
        }
    };
    for x in 0..3 {
        for y in 0..5 {
            for z in 0..3 {
                let (first, second) = volume.sample_corners(x, y, z).unwrap();
                assert_eq!(
                    first,
                    [voxel(x, y, z), voxel(x, y, z + 1), voxel(x, y + 1, z), voxel(x, y + 1, z + 1)]
                );
                assert_eq!(
                    second,
                    [
                        voxel(x + 1, y, z),
                        voxel(x + 1, y, z + 1),
                        voxel(x + 1, y + 1, z),
                        voxel(x + 1, y + 1, z + 1)
                    ]
                );
            }
        }
    }
}

#[test]
fn distinct_voxels_get_distinct_indexes() {
    let size = Dims::new(3, 3, 5);
    let volume = BlockVolume::build(&ramp(45), size);
    let mut seen = std::collections::HashSet::new();
    for x in 0..4 {
        for y in 0..4 {
            for z in 0..6 {
                assert!(seen.insert(volume.get_indexes(x, y, z)));
            }
        }
    }
}

#[test]
fn from_metadata_missing_parts() {
    let full = || BuildMetadata {
        size: Some(Dims::new(2, 2, 2)),
        scale: Some(1u32),
        data: Some(ramp(10)),
        data_offset: Some(2),
        tf: Some(7u8),
    };
    let mut m = full();
    m.size = None;
    m.scale = None;
    assert_eq!(BlockVolume::from_metadata(m).err(), Some("No size"));
    let mut m = full();
    m.scale = None;
    m.data = None;
    assert_eq!(BlockVolume::from_metadata(m).err(), Some("No scale"));
    let mut m = full();
    m.data = None;
    m.tf = None;
    assert_eq!(BlockVolume::from_metadata(m).err(), Some("No data"));
    let mut m = full();
    m.tf = None;
    assert_eq!(BlockVolume::from_metadata(m).err(), Some("No transfer function"));
}

#[test]
fn from_metadata_builds_after_offset() {
    let data = ramp(10);
    let m = BuildMetadata {
        size: Some(Dims::new(2, 2, 2)),
        scale: Some(3u32),
        data: Some(data.clone()),
        data_offset: Some(2),
        tf: Some(9u8),
    };
    let (volume, scale, tf) = BlockVolume::from_metadata(m).ok().unwrap();
    assert_eq!(scale, 3);
    assert_eq!(tf, 9);
    assert_eq!(volume.get_size(), Dims::new(2, 2, 2));
    assert_eq!(volume.block_count(), 1);
    assert_eq!(volume.get_data(1, 1, 1), Some(data[2 + 7]));
    assert_eq!(volume.get_data(0, 0, 0), Some(data[2]));
    let m = BuildMetadata {
        size: Some(Dims::new(2, 2, 2)),
        scale: Some(3u32),
        data: Some(ramp(8)),
        data_offset: None,
        tf: Some(9u8),
    };
    let (volume, _, _) = BlockVolume::from_metadata(m).ok().unwrap();
    assert_eq!(volume.get_data(1, 0, 1), Some(5));
}

#[test]
fn get_indexes_values() {
    let size = Dims::new(6, 4, 4);
    let data = ramp(96);
    let volume = BlockVolume::build(&data, size);
    // block counts (3, 2, 2)
    assert_eq!(volume.get_indexes(0, 0, 0), (0, 0));
    assert_eq!(volume.get_indexes(1, 1, 1), (0, 13));
    assert_eq!(volume.get_indexes(0, 0, 3), (1, 1));
    assert_eq!(volume.get_indexes(0, 2, 0), (2, 0));
    assert_eq!(volume.get_indexes(5, 3, 2), (2 * 2 * 2 + 1 * 2 + 1, 9 + 3));
}

#[test]
fn sample_corners_are_the_cell_voxels() {
    let size = Dims::new(4, 2, 2);
    let data = ramp(16);
    let volume = BlockVolume::build(&data, size);
    let (first, second) = volume.sample_corners(1, 0, 0).unwrap();
    assert_eq!(first, [4, 5, 6, 7]);
    assert_eq!(second, [8, 9, 10, 11]);
    // at the last voxel the corners beyond the grid read 0
    let (first, second) = volume.sample_corners(3, 1, 1).unwrap();
    assert_eq!(first, [15, 0, 0, 0]);
    assert_eq!(second, [0, 0, 0, 0]);
}

#[test]
fn sample_corners_missing_block() {
    let size = Dims::new(2, 2, 2);
    let data = ramp(8);
    let volume = BlockVolume::build(&data, size);
    assert!(volume.sample_corners(2, 0, 0).is_none());
    assert_eq!(volume.get_data(2, 0, 0), None);
}

#[test]
fn sample_corners_index_overflow() {
    let size = Dims::new(2, 2, 2);
    let data = ramp(8);
    let volume = BlockVolume::build(&data, size);
    assert!(volume.sample_corners(usize::MAX, usize::MAX, usize::MAX).is_none());
    assert!(!volume.index_fits(usize::MAX, usize::MAX, usize::MAX));
    assert!(volume.index_fits(1, 1, 1));
}

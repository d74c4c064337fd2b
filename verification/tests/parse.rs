use raycaster_lib::volumetric::dims::Dims;
use raycaster_lib::volumetric::parse::{
    beetle_parser, skull_parser, ScaleBits, VolumeMetadata, BEETLE_HEADER_LEN, ONE_F32_BITS,
    SKULL_HEADER_LEN,
};

fn skull_header(size: [u32; 3], scale: [f32; 3]) -> Vec<u8> {
    let mut bytes = Vec::new();
    for s in size {
        bytes.extend_from_slice(&s.to_be_bytes());
    }
    bytes.extend_from_slice(&[0xAA, 0xBB, 0xCC, 0xDD]);
    for s in scale {
        bytes.extend_from_slice(&s.to_be_bytes());
    }
    bytes
}

#[test]
fn skull_parser_reads_header() {
    let bytes = skull_header([256, 256, 113], [1.0, 1.0, 2.0]);
    assert_eq!(bytes.len(), SKULL_HEADER_LEN);
    let meta = skull_parser(&bytes).unwrap();
    assert_eq!(
        meta,
        VolumeMetadata {
            size: Dims::new(256, 256, 113),
            border: 0,
            scale: ScaleBits {
                x: 1.0f32.to_bits(),
                y: 1.0f32.to_bits(),
                z: 2.0f32.to_bits()
            },
            data_offset: 28,
        }
    );
}

#[test]
fn skull_parser_big_endian_sizes() {
    let mut bytes = vec![0u8; 28];
    bytes[0..4].copy_from_slice(&[0x01, 0x02, 0x03, 0x04]);
    bytes[4..8].copy_from_slice(&[0xFF, 0xFF, 0xFF, 0xFF]);
    bytes[8..12].copy_from_slice(&[0x00, 0x00, 0x00, 0x01]);
    let meta = skull_parser(&bytes).unwrap();
    assert_eq!(meta.size, Dims::new(0x01020304, 0xFFFF_FFFF, 1));
    assert_eq!(meta.scale, ScaleBits { x: 0, y: 0, z: 0 });
}

#[test]
fn skull_parser_agrees_with_nom() {
    let bytes: Vec<u8> = (0..28u8).map(|b| b.wrapping_mul(37).wrapping_add(5)).collect();
    let meta = skull_parser(&bytes).unwrap();
    let read = |i: usize| {
        nom::number::complete::be_u32::<&[u8], nom::error::Error<&[u8]>>(&bytes[i..])
            .unwrap()
            .1
    };
    assert_eq!(meta.size, Dims::new(read(0) as usize, read(4) as usize, read(8) as usize));
    assert_eq!(
        meta.scale,
        ScaleBits {
            x: read(16),
            y: read(20),
            z: read(24)
        }
    );
    let f = nom::number::complete::be_f32::<&[u8], nom::error::Error<&[u8]>>(&bytes[16..])
        .unwrap()
        .1;
    assert_eq!(f.to_bits(), meta.scale.x);
}

#[test]
fn skull_parser_short_input() {
    let bytes = vec![0u8; 27];
    assert_eq!(skull_parser(&bytes), Err("Parse error"));
    assert_eq!(skull_parser(&[]), Err("Parse error"));
}

#[test]
fn skull_parser_ignores_voxel_data() {
    let header = skull_header([2, 3, 4], [0.5, 0.25, 0.125]);
    let mut file = header.clone();
    file.extend_from_slice(&[9, 8, 7, 6, 5]);
    assert_eq!(skull_parser(&file), skull_parser(&header));
}

#[test]
fn beetle_parser_reads_header() {
    let bytes = [0x10, 0x02, 0x00, 0x01, 0xF0, 0x00, 0xAB, 0xCD];
    let meta = beetle_parser(&bytes).unwrap();
    assert_eq!(
        meta,
        VolumeMetadata {
            size: Dims::new(0x0210, 0x0100, 0x00F0),
            border: 0,
            scale: ScaleBits {
                x: ONE_F32_BITS,
                y: ONE_F32_BITS,
                z: ONE_F32_BITS
            },
            data_offset: BEETLE_HEADER_LEN,
        }
    );
    assert_eq!(f32::from_bits(ONE_F32_BITS), 1.0);
}

#[test]
fn beetle_parser_agrees_with_nom() {
    let bytes = [0x34, 0x12, 0xFF, 0xFF, 0x00, 0x80];
    let meta = beetle_parser(&bytes).unwrap();
    let read = |i: usize| {
        nom::number::complete::le_u16::<&[u8], nom::error::Error<&[u8]>>(&bytes[i..])
            .unwrap()
            .1 as usize
    };
    assert_eq!(meta.size, Dims::new(read(0), read(2), read(4)));
}

#[test]
fn beetle_parser_short_input() {
    assert_eq!(beetle_parser(&[1, 2, 3, 4, 5]), Err("Parse error"));
}

#[test]
fn beetle_parser_ignores_voxel_data() {
    let header = [3, 0, 4, 0, 5, 0];
    let mut file = header.to_vec();
    file.extend_from_slice(&[0xFF; 10]);
    assert_eq!(beetle_parser(&file), beetle_parser(&header));
    assert_eq!(beetle_parser(&header).unwrap().size, Dims::new(3, 4, 5));
}

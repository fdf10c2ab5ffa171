use pngbmp::bmp::bmp_info_header::{BitmapInfoHeader, BmpInfoHeader, CompressionType};
use pngbmp::bmp::{Bmp, InfoHeader};
use pngbmp::png::chunk::Chunk;
use pngbmp::png::chunk_type::PngChunkType;
use pngbmp::png::Png;
use pngbmp::FormatError;

const MAGIC: [u8; 8] = [137, 80, 78, 71, 13, 10, 26, 10];

fn chunk_of(type_text: &str, data: &str) -> Chunk {
    let t = PngChunkType::from_text(type_text).unwrap();
    Chunk::new(t, data.as_bytes().to_vec())
}

fn sample_chunk_bytes(crc: u32) -> Vec<u8> {
    let data_length: u32 = 35;
    data_length
        .to_be_bytes()
        .iter()
        .chain("IHDR".as_bytes().iter())
        .chain("A string for some sample bytes here".as_bytes().iter())
        .chain(crc.to_be_bytes().iter())
        .copied()
        .collect()
}

/// A flat image: 24 bits per pixel, no palette, 3x2 pixels, 6 payload bytes.
fn flat_bytes_24() -> Vec<u8> {
    let mut v: Vec<u8> = Vec::new();
    v.extend_from_slice(b"BM");
    v.extend_from_slice(&60u32.to_le_bytes()); // total length
    v.extend_from_slice(&[1, 2, 3, 4]); // reserved
    v.extend_from_slice(&54u32.to_le_bytes()); // pixel offset
    v.extend_from_slice(&40u32.to_le_bytes()); // discriminant
    v.extend_from_slice(&3u32.to_le_bytes()); // width
    v.extend_from_slice(&2u32.to_le_bytes()); // height
    v.extend_from_slice(&[0, 0]); // planes bytes, ignored
    v.extend_from_slice(&24u16.to_le_bytes()); // bits per pixel
    v.extend_from_slice(&0u32.to_le_bytes()); // compression
    v.extend_from_slice(&18u32.to_le_bytes()); // image size
    v.extend_from_slice(&72u32.to_le_bytes()); // horizontal resolution
    v.extend_from_slice(&72u32.to_le_bytes()); // vertical resolution
    v.extend_from_slice(&0u32.to_le_bytes()); // palette bytes
    v.extend_from_slice(&0u32.to_le_bytes()); // important colors
    v.extend_from_slice(&[9, 8, 7, 6, 5, 4]); // pixels
    v
}

/// A flat image: 8 bits per pixel, a 4-byte palette, 3 payload bytes.
fn flat_bytes_8() -> Vec<u8> {
    let mut v: Vec<u8> = Vec::new();
    v.extend_from_slice(b"BM");
    v.extend_from_slice(&61u32.to_le_bytes());
    v.extend_from_slice(&[0, 0, 0, 0]);
    v.extend_from_slice(&58u32.to_le_bytes()); // pixels after the palette
    v.extend_from_slice(&40u32.to_le_bytes());
    v.extend_from_slice(&3u32.to_le_bytes());
    v.extend_from_slice(&1u32.to_le_bytes());
    v.extend_from_slice(&[0, 0]);
    v.extend_from_slice(&8u16.to_le_bytes());
    v.extend_from_slice(&1u32.to_le_bytes()); // run-length, 8-bit
    v.extend_from_slice(&3u32.to_le_bytes());
    v.extend_from_slice(&72u32.to_le_bytes());
    v.extend_from_slice(&72u32.to_le_bytes());
    v.extend_from_slice(&4u32.to_le_bytes()); // palette byte count
    v.extend_from_slice(&0u32.to_le_bytes());
    v.extend_from_slice(&[10, 20, 30, 40]); // palette
    v.extend_from_slice(&[99, 98, 97]); // pixels
    v
}

/// A container whose geometry record carries the given color type and depth.
fn png_with_geometry(color_type: u8, depth: u8) -> Png {
    let mut payload = vec![0u8; 13];
    payload[0..4].copy_from_slice(&3u32.to_be_bytes()); // width
    payload[4..8].copy_from_slice(&2u32.to_be_bytes()); // height
    payload[9] = depth;
    payload[10] = color_type;
    let ihdr = Chunk::new(PngChunkType::from_text("IHDR").unwrap(), payload);
    let idat = Chunk::new(
        PngChunkType::from_text("IDAT").unwrap(),
        vec![5, 6, 7, 8],
    );
    Png::from_chunks(vec![ihdr, idat])
}

#[test]
fn container_round_trip_end_to_end() {
    let chunks = vec![
        chunk_of("IHDR", "first payload"),
        chunk_of("IDAT", "second payload"),
        chunk_of("IEND", "third payload"),
    ];
    let png = Png::from_chunks(chunks);
    let bytes = png.to_bytes();
    let reparsed = Png::parse(&bytes).unwrap();

    assert_eq!(reparsed.chunks().len(), 3);
    let expected: [(&str, &str); 3] = [
        ("IHDR", "first payload"),
        ("IDAT", "second payload"),
        ("IEND", "third payload"),
    ];
    for (i, (ty, payload)) in expected.iter().enumerate() {
        let c = &reparsed.chunks()[i];
        assert_eq!(c.chunk_type().to_text(), ty.to_string());
        assert_eq!(c.data(), payload.as_bytes());
        assert_eq!(c.crc(), png.chunks()[i].crc());
        assert_eq!(c.length(), payload.len() as u32);
    }
    // serializing the reparsed container reproduces the bytes exactly
    assert_eq!(reparsed.to_bytes(), bytes);
}

#[test]
fn flat_round_trip_24() {
    let bytes = flat_bytes_24();
    let bmp = Bmp::parse(&bytes).unwrap();
    assert_eq!(bmp.file_header().length(), 60);
    assert_eq!(bmp.file_header().reserved_vals(), &[1, 2, 3, 4]);
    assert_eq!(bmp.file_header().img_offset(), 54);
    assert_eq!(bmp.info_header().px_width(), 3);
    assert_eq!(bmp.info_header().px_height(), 2);
    assert_eq!(bmp.info_header().bits_per_pixel(), 24);
    assert!(bmp.info_header().compression_type().is_none());
    assert!(bmp.color_table().is_none());
    assert_eq!(bmp.image_data(), &[9, 8, 7, 6, 5, 4]);
    assert_eq!(bmp.to_bytes(), bytes);
}

#[test]
fn flat_round_trip_8_with_palette() {
    let bytes = flat_bytes_8();
    let bmp = Bmp::parse(&bytes).unwrap();
    assert_eq!(bmp.info_header().bits_per_pixel(), 8);
    assert_eq!(
        bmp.info_header().compression_type(),
        Some(&CompressionType::Rle8)
    );
    assert_eq!(bmp.color_table(), Some(&vec![10, 20, 30, 40]));
    assert_eq!(bmp.image_data(), &[99, 98, 97]);
    assert_eq!(bmp.to_bytes(), bytes);
}

#[test]
fn container_magic_sensitivity() {
    let png = Png::from_chunks(vec![chunk_of("IHDR", "payload")]);
    let bytes = png.to_bytes();
    for j in 0..8 {
        let mut mutated = bytes.clone();
        mutated[j] ^= 0xff;
        match Png::parse(&mutated) {
            Err(FormatError::BadMagic) => (),
            other => panic!("expected BadMagic at byte {}, got {:?}", j, other),
        }
    }
}

#[test]
fn flat_magic_sensitivity() {
    let bytes = flat_bytes_24();
    for j in 0..2 {
        let mut mutated = bytes.clone();
        mutated[j] ^= 0xff;
        match Bmp::parse(&mutated) {
            Err(FormatError::BadMagic) => (),
            other => panic!("expected BadMagic at byte {}, got {:?}", j, other),
        }
    }
}

#[test]
fn checksum_sensitivity_data_bits() {
    let good = sample_chunk_bytes(1984488028);
    // a record starts at offset 0: length 0..4, type 4..8, data 8..43, crc 43..47
    for &offset in &[8usize, 20, 42] {
        for bit in 0..8 {
            let mut mutated = good.clone();
            mutated[offset] ^= 1 << bit;
            match Chunk::parse(&mutated) {
                Err(FormatError::ChecksumMismatch { .. }) => (),
                other => panic!(
                    "expected ChecksumMismatch at offset {} bit {}, got {:?}",
                    offset, bit, other
                ),
            }
        }
    }
}

#[test]
fn checksum_sensitivity_stored_bits() {
    let good = sample_chunk_bytes(1984488028);
    for offset in 43..47 {
        for bit in 0..8 {
            let mut mutated = good.clone();
            mutated[offset] ^= 1 << bit;
            match Chunk::parse(&mutated) {
                Err(FormatError::ChecksumMismatch { stored, computed }) => {
                    assert_ne!(stored, computed);
                    assert_eq!(computed, 1984488028);
                }
                other => panic!(
                    "expected ChecksumMismatch at offset {} bit {}, got {:?}",
                    offset, bit, other
                ),
            }
        }
    }
}

#[test]
fn type_bit_flip_rejected() {
    let good = sample_chunk_bytes(1984488028);
    // flipping bit 0 of the first type byte yields an unrecognized identifier
    let mut mutated = good.clone();
    mutated[4] ^= 0x01;
    assert!(matches!(
        Chunk::parse(&mutated),
        Err(FormatError::InvalidEncoding)
    ));
    // flipping bit 4 of the second type byte yields a non-alphabetic byte
    let mut mutated = good;
    mutated[5] = 0x19;
    assert!(matches!(
        Chunk::parse(&mutated),
        Err(FormatError::InvalidEncoding)
    ));
}

#[test]
fn checksum_values_are_reported() {
    let bad = sample_chunk_bytes(2882656334);
    match Chunk::parse(&bad) {
        Err(FormatError::ChecksumMismatch { stored, computed }) => {
            assert_eq!(stored, 2882656334);
            assert_eq!(computed, 1984488028);
        }
        other => panic!("expected ChecksumMismatch, got {:?}", other),
    }
}

#[test]
fn length_enforcement() {
    // a record claiming 35 payload bytes, followed by only 10
    let mut short: Vec<u8> = Vec::new();
    short.extend_from_slice(&35u32.to_be_bytes());
    short.extend_from_slice(b"IHDR");
    short.extend_from_slice(&[0; 10]);
    assert!(matches!(
        Chunk::parse(&short),
        Err(FormatError::Truncated)
    ));

    // a container cut off inside a record surfaces the record's error
    let png = Png::from_chunks(vec![chunk_of("IDAT", "some payload")]);
    let bytes = png.to_bytes();
    assert!(matches!(
        Png::parse(&bytes[0..bytes.len() - 3]),
        Err(FormatError::Truncated)
    ));

    // fewer than eight container bytes cannot hold the signature
    assert!(matches!(
        Png::parse(&[137, 80, 78]),
        Err(FormatError::Truncated)
    ));

    // fewer than fourteen bytes cannot hold the flat preamble
    let flat = flat_bytes_24();
    assert!(matches!(
        Bmp::parse(&flat[0..13]),
        Err(FormatError::Truncated)
    ));
}

#[test]
fn geometry_type_property_table() {
    // type "IHDR" is bytes 73, 72, 68, 82; bit 5 is clear in all four
    let t = PngChunkType::parse([73, 72, 68, 82]).unwrap();
    assert!(t.is_critical()); // byte 0: 73 & 0x20 == 0
    assert!(t.is_public()); // byte 1: 72 & 0x20 == 0
    assert!(t.is_reserved_bit_valid()); // byte 2: 68 & 0x20 == 0
    assert!(!t.is_safe_to_copy()); // byte 3: 82 & 0x20 == 0
    assert!(t.is_valid());
}

#[test]
fn conversion_no_palette_at_24_bits() {
    let png = png_with_geometry(2, 8); // truecolor, depth 8: 24 bits per pixel
    let bmp = Bmp::from_png(&png).unwrap();
    assert_eq!(bmp.info_header().bits_per_pixel(), 24);
    assert!(bmp.color_table().is_none());
    assert_eq!(bmp.file_header().img_offset(), 54);
    assert_eq!(bmp.info_header().px_width(), 3);
    assert_eq!(bmp.info_header().px_height(), 2);
    assert_eq!(bmp.info_header().img_size(), 18); // 3 * 2 * 24 / 8
    assert_eq!(bmp.info_header().num_colors(), 1 << 24); // 2^bits_per_pixel
    assert_eq!(bmp.image_data(), &[5, 6, 7, 8]);
}

#[test]
fn conversion_palette_at_8_bits() {
    let png = png_with_geometry(3, 8); // indexed: 8 bits per pixel
    let bmp = Bmp::from_png(&png).unwrap();
    assert_eq!(bmp.info_header().bits_per_pixel(), 8);
    assert_eq!(bmp.info_header().num_colors(), 256);
    assert_eq!(bmp.color_table().unwrap().len(), 256);
    assert_eq!(bmp.file_header().img_offset(), 54 + 256);
    assert_eq!(bmp.image_data(), &[5, 6, 7, 8]);
}

#[test]
fn unsupported_variant_discriminant() {
    let mut bytes = flat_bytes_24();
    bytes[14..18].copy_from_slice(&39u32.to_le_bytes());
    assert!(matches!(
        Bmp::parse(&bytes),
        Err(FormatError::UnsupportedVariant)
    ));

    let mut info = vec![0u8; 40];
    info[0..4].copy_from_slice(&41u32.to_le_bytes());
    assert!(matches!(
        InfoHeader::parse(&info),
        Err(FormatError::UnsupportedVariant)
    ));
}

#[test]
fn unsupported_color_type() {
    for ct in [1u8, 5, 7, 255] {
        let png = png_with_geometry(ct, 8);
        assert!(matches!(
            Bmp::from_png(&png),
            Err(FormatError::UnsupportedColorType)
        ));
    }
}

#[test]
fn conversion_requires_geometry_record() {
    let png = Png::from_chunks(vec![chunk_of("IDAT", "pixels only")]);
    assert!(matches!(
        Bmp::from_png(&png),
        Err(FormatError::InvalidEncoding)
    ));

    // a geometry record too short for its fields
    let ihdr = Chunk::new(PngChunkType::from_text("IHDR").unwrap(), vec![1, 2, 3]);
    let png = Png::from_chunks(vec![ihdr]);
    assert!(matches!(Bmp::from_png(&png), Err(FormatError::Truncated)));
}

#[test]
fn unknown_compression_code() {
    let mut bytes = flat_bytes_24();
    bytes[30..34].copy_from_slice(&3u32.to_le_bytes());
    assert!(matches!(
        Bmp::parse(&bytes),
        Err(FormatError::InvalidEncoding)
    ));
}

#[test]
fn info_header_exact_bytes() {
    let h = BitmapInfoHeader::new(3, -2, 24, Some(CompressionType::Rle4), 18, 72, -72, 7, 1);
    let mut expected: Vec<u8> = Vec::new();
    expected.extend_from_slice(&40u32.to_le_bytes());
    expected.extend_from_slice(&3i32.to_le_bytes());
    expected.extend_from_slice(&(-2i32).to_le_bytes());
    expected.extend_from_slice(&[0, 0]);
    expected.extend_from_slice(&24u16.to_le_bytes());
    expected.extend_from_slice(&2u32.to_le_bytes()); // run-length, 4-bit
    expected.extend_from_slice(&18u32.to_le_bytes());
    expected.extend_from_slice(&72i32.to_le_bytes());
    expected.extend_from_slice(&(-72i32).to_le_bytes());
    expected.extend_from_slice(&7u32.to_le_bytes());
    expected.extend_from_slice(&1u32.to_le_bytes());
    assert_eq!(h.as_bytes(), expected);

    let reparsed = BitmapInfoHeader::parse(&expected).unwrap();
    assert_eq!(reparsed.px_width(), 3);
    assert_eq!(reparsed.px_height(), -2);
    assert_eq!(reparsed.compression_type(), Some(&CompressionType::Rle4));
    assert_eq!(reparsed.res_vert(), -72);
    assert_eq!(reparsed.num_colors(), 7);
    assert_eq!(reparsed.num_important_colors(), 1);
}

#[test]
fn mirror_conversion() {
    let bmp = Bmp::parse(&flat_bytes_24()).unwrap();
    let png = bmp.to_png().unwrap();
    let chunks = png.chunks();
    assert_eq!(chunks.len(), 2);
    assert_eq!(chunks[0].chunk_type().to_text(), "IHDR".to_string());
    assert_eq!(chunks[1].chunk_type().to_text(), "IDAT".to_string());
    let geom = chunks[0].data();
    assert_eq!(geom.len(), 13);
    assert_eq!(&geom[0..4], &3u32.to_be_bytes());
    assert_eq!(&geom[4..8], &2u32.to_be_bytes());
    assert_eq!(geom[9], 8); // depth
    assert_eq!(geom[10], 2); // truecolor
    assert_eq!(chunks[1].data(), &[9, 8, 7, 6, 5, 4]);

    // running the forward mapping on the mirror's output recovers the geometry
    let back = Bmp::from_png(&png).unwrap();
    assert_eq!(back.info_header().bits_per_pixel(), 24);
    assert_eq!(back.info_header().px_width(), 3);
    assert_eq!(back.info_header().px_height(), 2);
    assert_eq!(back.image_data(), &[9, 8, 7, 6, 5, 4]);

    // a bits-per-pixel value no table row yields
    let bad = Bmp::parse(&{
        let mut v = flat_bytes_24();
        v[28..30].copy_from_slice(&7u16.to_le_bytes());
        v
    })
    .unwrap();
    assert!(matches!(
        bad.to_png(),
        Err(FormatError::UnsupportedColorType)
    ));
}

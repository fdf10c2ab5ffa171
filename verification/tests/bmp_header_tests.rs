use pngbmp::bmp::bmp_file_header::BmpFileHeader;
use pngbmp::bmp::bmp_header::BmpHeader;

#[test]
fn bmp_file_header_test_new_header() {
    let length = 25;
    let reserved_vals = [0; 4];
    let img_offset = 30;
    let header = BmpFileHeader::new(length, reserved_vals, img_offset);
    assert_eq!(header.length(), 25);
    assert_eq!(reserved_vals, [0; 4]);
    assert_eq!(header.img_offset(), 30);
}

#[test]
fn bmp_file_header_test_header_from_bytes() {
    let length: u32 = 25;
    let reserved_vals: [u8; 4] = [0; 4];
    let img_offset: u32 = 30;

    let header_data: Vec<u8> = "BM"
        .as_bytes()
        .iter()
        .chain(length.to_le_bytes().iter())
        .chain(reserved_vals.iter())
        .chain(img_offset.to_le_bytes().iter())
        .copied()
        .collect();

    let header = BmpFileHeader::parse(&header_data).unwrap();
    assert_eq!(header.length(), 25);
    assert_eq!(reserved_vals, [0; 4]);
    assert_eq!(header.img_offset(), 30);
}

#[test]
fn bmp_header_test_new_header() {
    let length = 25;
    let reserved_vals = [0; 4];
    let img_offset = 30;
    let header = BmpHeader::new(length, reserved_vals, img_offset);
    assert_eq!(header.length(), 25);
    assert_eq!(reserved_vals, [0; 4]);
    assert_eq!(header.img_offset(), 30);
}

#[test]
fn bmp_header_test_header_from_bytes() {
    let length: u32 = 25;
    let reserved_vals: [u8; 4] = [0; 4];
    let img_offset: u32 = 30;

    let header_data: Vec<u8> = "BM"
        .as_bytes()
        .iter()
        .chain(length.to_le_bytes().iter())
        .chain(reserved_vals.iter())
        .chain(img_offset.to_le_bytes().iter())
        .copied()
        .collect();

    let header = BmpHeader::parse(&header_data).unwrap();
    assert_eq!(header.length(), 25);
    assert_eq!(reserved_vals, [0; 4]);
    assert_eq!(header.img_offset(), 30);
}

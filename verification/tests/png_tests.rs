use pngbmp::png::chunk::Chunk;
use pngbmp::png::chunk_type::PngChunkType;
use pngbmp::png::Png;
use pngbmp::FormatError;

const STANDARD_HEADER: [u8; 8] = [137, 80, 78, 71, 13, 10, 26, 10];

fn chunk_from_strings(chunk_type: &str, data: &str) -> Result<Chunk, FormatError> {
    let chunk_type = PngChunkType::from_text(chunk_type)?;
    let data: Vec<u8> = data.bytes().collect();

    Ok(Chunk::new(chunk_type, data))
}

fn testing_chunks() -> Vec<Chunk> {
    let mut chunks = Vec::new();

    chunks.push(chunk_from_strings("IHDR", "I am the first chunk").unwrap());
    chunks.push(chunk_from_strings("IDAT", "I am another chunk").unwrap());
    chunks.push(chunk_from_strings("IEND", "I am the last chunk").unwrap());

    chunks
}

fn testing_png() -> Png {
    let chunks = testing_chunks();
    Png::from_chunks(chunks)
}

#[test]
fn test_from_chunks() {
    let chunks = testing_chunks();
    let png = Png::from_chunks(chunks);

    assert_eq!(png.chunks().len(), 3);
}

#[test]
fn test_valid_from_bytes() {
    let chunk_bytes: Vec<u8> = testing_chunks()
        .into_iter()
        .flat_map(|chunk| chunk.as_bytes())
        .collect();

    let bytes: Vec<u8> = STANDARD_HEADER
        .iter()
        .chain(chunk_bytes.iter())
        .copied()
        .collect();

    let png = Png::parse(&bytes);

    assert!(png.is_ok());
}

#[test]
fn test_invalid_header() {
    let chunk_bytes: Vec<u8> = testing_chunks()
        .into_iter()
        .flat_map(|chunk| chunk.as_bytes())
        .collect();

    let bytes: Vec<u8> = [13, 80, 78, 71, 13, 10, 26, 10]
        .iter()
        .chain(chunk_bytes.iter())
        .copied()
        .collect();

    let png = Png::parse(&bytes);

    assert!(png.is_err());
}

#[test]
fn test_list_chunks() {
    let png = testing_png();
    let chunks = png.chunks();
    assert_eq!(chunks.len(), 3);
}

#[test]
fn test_invalid_chunk() {
    let mut chunk_bytes: Vec<u8> = testing_chunks()
        .into_iter()
        .flat_map(|chunk| chunk.as_bytes())
        .collect();

    let mut bad_chunk = vec![
        0, 0, 0, 5, // length
        32, 117, 83, 116, // chunk type (bad)
        65, 64, 65, 66, 67, // data
        1, 2, 3, 4, 5, // checksum (bad)
    ];

    chunk_bytes.append(&mut bad_chunk);

    let png = Png::parse(&chunk_bytes);

    assert!(png.is_err());
}

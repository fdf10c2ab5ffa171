use pngbmp::png::chunk::Chunk;
use pngbmp::png::chunk_type::PngChunkType;

fn testing_chunk() -> Chunk {
    let data_length: u32 = 35;
    let chunk_type = "IHDR".as_bytes();
    let message_bytes = "A string for some sample bytes here".as_bytes();
    let crc: u32 = 1984488028;

    let chunk_data: Vec<u8> = data_length
        .to_be_bytes()
        .iter()
        .chain(chunk_type.iter())
        .chain(message_bytes.iter())
        .chain(crc.to_be_bytes().iter())
        .copied()
        .collect();

    let (chunk, _consumed) = Chunk::parse(&chunk_data).unwrap();
    chunk
}

#[test]
fn test_new_chunk() {
    let chunk_type = PngChunkType::from_text("IHDR").unwrap();
    let data = "A string for some sample bytes here".as_bytes().to_vec();
    let chunk = Chunk::new(chunk_type, data);
    assert_eq!(chunk.length(), 35);
    assert_eq!(chunk.crc(), 1984488028);
}

#[test]
fn test_chunk_length() {
    let chunk = testing_chunk();
    assert_eq!(chunk.length(), 35);
}

#[test]
fn test_chunk_type() {
    let chunk = testing_chunk();
    assert_eq!(chunk.chunk_type().to_text(), String::from("IHDR"));
}

#[test]
fn test_chunk_crc() {
    let chunk = testing_chunk();
    assert_eq!(chunk.crc(), 1984488028);
}

#[test]
fn test_valid_chunk_from_bytes() {
    let data_length: u32 = 35;
    let chunk_type = "IHDR".as_bytes();
    let message_bytes = "A string for some sample bytes here".as_bytes();
    let crc: u32 = 1984488028;

    let chunk_data: Vec<u8> = data_length
        .to_be_bytes()
        .iter()
        .chain(chunk_type.iter())
        .chain(message_bytes.iter())
        .chain(crc.to_be_bytes().iter())
        .copied()
        .collect();

    let (chunk, _consumed) = Chunk::parse(&chunk_data).unwrap();

    assert_eq!(chunk.length(), 35);
    assert_eq!(chunk.chunk_type().to_text(), String::from("IHDR"));
    assert_eq!(chunk.crc(), 1984488028);
}

#[test]
fn test_invalid_chunk_from_bytes() {
    let data_length: u32 = 35;
    let chunk_type = "IHDR".as_bytes();
    let message_bytes = "A string for some sample bytes here".as_bytes();
    let crc: u32 = 2882656334;

    let chunk_data: Vec<u8> = data_length
        .to_be_bytes()
        .iter()
        .chain(chunk_type.iter())
        .chain(message_bytes.iter())
        .chain(crc.to_be_bytes().iter())
        .copied()
        .collect();

    let chunk = Chunk::parse(&chunk_data);

    assert!(chunk.is_err());
}

use pngchunk::{Chunk, ChunkError, ChunkType};

const MESSAGE: &str = "This is where your secret message will be!";

fn frame(length: u32, chunk_type: &[u8], message: &[u8], crc: u32) -> Vec<u8> {
    length
        .to_be_bytes()
        .iter()
        .chain(chunk_type.iter())
        .chain(message.iter())
        .chain(crc.to_be_bytes().iter())
        .copied()
        .collect()
}

fn testing_chunk() -> Chunk {
    let data_length: u32 = 42;
    let chunk_type = "RuSt".as_bytes();
    let message_bytes = "This is where your secret message will be!".as_bytes();
    let crc: u32 = 2882656334;
    let chunk_data = frame(data_length, chunk_type, message_bytes, crc);
    Chunk::try_from(chunk_data.as_ref()).unwrap()
}

#[test]
fn test_new_chunk() {
    let chunk_type = ChunkType::from_str("RuSt").unwrap();
    let data = "This is where your secret message will be!".as_bytes().to_vec();
    let chunk = Chunk::new(chunk_type, data);
    assert_eq!(chunk.length(), 42);
    assert_eq!(chunk.crc(), 2882656334);
}

#[test]
fn test_chunk_length() {
    let chunk = testing_chunk();
    assert_eq!(chunk.length(), 42);
}

#[test]
fn test_chunk_type() {
    let chunk = testing_chunk();
    assert_eq!(chunk.chunk_type().to_string(), String::from("RuSt"));
}

#[test]
fn test_chunk_string() {
    let chunk = testing_chunk();
    let chunk_string = chunk.data_as_string().unwrap();
    let expected_chunk_string = String::from("This is where your secret message will be!");
    assert_eq!(chunk_string, expected_chunk_string);
}

#[test]
fn test_chunk_crc() {
    let chunk = testing_chunk();
    assert_eq!(chunk.crc(), 2882656334);
}

#[test]
fn test_valid_chunk_from_bytes() {
    let data_length: u32 = 42;
    let chunk_type = "RuSt".as_bytes();
    let message_bytes = "This is where your secret message will be!".as_bytes();
    let crc: u32 = 2882656334;
    let chunk_data = frame(data_length, chunk_type, message_bytes, crc);

    let chunk = Chunk::try_from(chunk_data.as_ref()).unwrap();

    let chunk_string = chunk.data_as_string().unwrap();
    let expected_chunk_string = String::from("This is where your secret message will be!");

    assert_eq!(chunk.length(), 42);
    assert_eq!(chunk.chunk_type().to_string(), String::from("RuSt"));
    assert_eq!(chunk_string, expected_chunk_string);
    assert_eq!(chunk.crc(), 2882656334);
}

#[test]
fn test_invalid_chunk_from_bytes() {
    let data_length: u32 = 42;
    let chunk_type = "RuSt".as_bytes();
    let message_bytes = "This is where your secret message will be!".as_bytes();
    let crc: u32 = 2882656333;
    let chunk_data = frame(data_length, chunk_type, message_bytes, crc);

    let chunk = Chunk::try_from(chunk_data.as_ref());

    assert!(chunk.is_err());
}

#[test]
pub fn test_chunk_trait_impls() {
    let data_length: u32 = 42;
    let chunk_type = "RuSt".as_bytes();
    let message_bytes = "This is where your secret message will be!".as_bytes();
    let crc: u32 = 2882656334;
    let chunk_data = frame(data_length, chunk_type, message_bytes, crc);

    let chunk: Chunk = Chunk::try_from(chunk_data.as_ref()).unwrap();

    let _chunk_string = chunk.data_as_string();
}

#[test]
fn wrong_stored_crc_is_a_mismatch() {
    let bytes = frame(42, b"RuSt", MESSAGE.as_bytes(), 2882656333);
    assert_eq!(Chunk::try_from(bytes.as_ref()).err(), Some(ChunkError::CrcMismatch));
}

#[test]
fn serialized_bytes_are_exact() {
    let chunk = Chunk::new(ChunkType::from_str("RuSt").unwrap(), MESSAGE.as_bytes().to_vec());
    assert_eq!(chunk.as_bytes(), frame(42, b"RuSt", MESSAGE.as_bytes(), 2882656334));
    assert_eq!(chunk.as_bytes().len(), 12 + 42);
}

#[test]
fn round_trip_of_message() {
    let chunk = Chunk::new(ChunkType::from_str("RuSt").unwrap(), MESSAGE.as_bytes().to_vec());
    let bytes = chunk.as_bytes();
    let back = Chunk::try_from(bytes.as_ref()).unwrap();
    assert_eq!(back.length(), chunk.length());
    assert_eq!(back.chunk_type(), chunk.chunk_type());
    assert_eq!(back.data(), chunk.data());
    assert_eq!(back.crc(), chunk.crc());
    assert_eq!(back.as_bytes(), bytes);
}

#[test]
fn round_trip_of_empty_and_binary_data() {
    for data in [vec![], vec![0u8, 255, 128, 1, 2, 3], (0..=255u8).collect::<Vec<u8>>()] {
        let chunk = Chunk::new(ChunkType::from_str("zzZz").unwrap(), data.clone());
        let bytes = chunk.as_bytes();
        assert_eq!(bytes.len(), 12 + data.len());
        let back = Chunk::try_from(bytes.as_ref()).unwrap();
        assert_eq!(back.length() as usize, data.len());
        assert_eq!(back.chunk_type().bytes(), *b"zzZz");
        assert_eq!(back.data(), &data[..]);
        assert_eq!(back.crc(), chunk.crc());
    }
}

#[test]
fn empty_chunk_crc() {
    let chunk = Chunk::new(ChunkType::from_str("IEND").unwrap(), vec![]);
    assert_eq!(chunk.length(), 0);
    assert_eq!(chunk.crc(), 0xAE42_6082);
    assert_eq!(chunk.as_bytes(), vec![0, 0, 0, 0, 73, 69, 78, 68, 0xAE, 0x42, 0x60, 0x82]);
}

#[test]
fn crc_covers_type_and_data() {
    let a = Chunk::new(ChunkType::from_str("RuSt").unwrap(), MESSAGE.as_bytes().to_vec());
    let b = Chunk::new(ChunkType::from_str("RuSt").unwrap(), MESSAGE.as_bytes().to_vec());
    assert_eq!(a.crc(), b.crc());
    let c = Chunk::new(ChunkType::from_str("RuST").unwrap(), MESSAGE.as_bytes().to_vec());
    assert_ne!(a.crc(), c.crc());
}

#[test]
fn declared_length_longer_than_data_is_rejected() {
    let bytes = frame(44, b"RuSt", MESSAGE.as_bytes(), 2882656334);
    assert_eq!(Chunk::try_from(bytes.as_ref()).err(), Some(ChunkError::InvalidArray));
}

#[test]
fn declared_length_shorter_than_data_is_rejected() {
    let bytes = frame(40, b"RuSt", MESSAGE.as_bytes(), 2882656334);
    assert!(Chunk::try_from(bytes.as_ref()).is_err());
}

#[test]
fn too_short_buffers_are_rejected() {
    let bytes = frame(0, b"IEND", &[], 0xAE42_6082);
    for n in 0..12 {
        assert_eq!(Chunk::try_from(&bytes[..n]).err(), Some(ChunkError::InvalidArray));
    }
    assert!(Chunk::try_from(bytes.as_ref()).is_ok());
}

#[test]
fn non_letter_type_is_rejected() {
    let bytes = frame(42, b"Ru1t", MESSAGE.as_bytes(), 2882656334);
    assert_eq!(Chunk::try_from(bytes.as_ref()).err(), Some(ChunkError::InvalidArray));
}

#[test]
fn trailing_bytes_are_not_read() {
    let mut bytes = frame(42, b"RuSt", MESSAGE.as_bytes(), 2882656334);
    bytes.extend_from_slice(&[1, 2, 3]);
    let chunk = Chunk::try_from(bytes.as_ref()).unwrap();
    assert_eq!(chunk.length(), 42);
    assert_eq!(chunk.data(), MESSAGE.as_bytes());
}

#[test]
fn any_single_byte_change_is_detected() {
    let chunk = Chunk::new(ChunkType::from_str("RuSt").unwrap(), MESSAGE.as_bytes().to_vec());
    let bytes = chunk.as_bytes();
    for i in 0..bytes.len() {
        for delta in [1u8, 0x20, 0x80] {
            let mut tampered = bytes.clone();
            tampered[i] ^= delta;
            match Chunk::try_from(tampered.as_ref()) {
                Err(_) => {}
                Ok(c) => {
                    assert!(c.as_bytes() != bytes);
                    assert_eq!(c.as_bytes(), tampered[..12 + c.length() as usize].to_vec());
                }
            }
            if i >= 8 + 42 {
                assert_eq!(Chunk::try_from(tampered.as_ref()).err(), Some(ChunkError::CrcMismatch));
            }
        }
    }
}

#[test]
fn binary_data_is_not_text() {
    let chunk = Chunk::new(ChunkType::from_str("RuSt").unwrap(), vec![0xff, 0xfe, 0x00]);
    assert_eq!(chunk.data_as_string().err(), Some(ChunkError::InvalidString));
}

#[test]
fn utf8_data_reads_back_as_the_same_text() {
    let text = "héllo, wörld ✓";
    let chunk = Chunk::new(ChunkType::from_str("tEXt").unwrap(), text.as_bytes().to_vec());
    assert_eq!(chunk.data_as_string().unwrap(), text);
    let empty = Chunk::new(ChunkType::from_str("tEXt").unwrap(), vec![]);
    assert_eq!(empty.data_as_string().unwrap(), "");
}

use pngchunk::chunk::Chunk;
use pngchunk::chunk_type::ChunkType;
use pngchunk::error::Error;
use std::convert::TryFrom;
use std::str::FromStr;

const MESSAGE: &str = "This is where your secret message will be!";

fn frame(length: u32, tag: &[u8], payload: &[u8], crc: u32) -> Vec<u8> {
    length
        .to_be_bytes()
        .iter()
        .chain(tag.iter())
        .chain(payload.iter())
        .chain(crc.to_be_bytes().iter())
        .copied()
        .collect()
}

fn testing_chunk() -> Chunk {
    let data_length: u32 = 42;
    let chunk_type = "RuSt".as_bytes();
    let message_bytes = "This is where your secret message will be!".as_bytes();
    let crc: u32 = 2882656334;

    let chunk_data: Vec<u8> = frame(data_length, chunk_type, message_bytes, crc);

    Chunk::try_from(chunk_data.as_ref()).unwrap()
}

#[test]
fn test_new_chunk() {
    let chunk_type = ChunkType::from_str("RuSt").unwrap();
    let data = "This is where your secret message will be!".as_bytes().to_vec();
    let chunk = Chunk::new(chunk_type, data);
    assert_eq!(chunk.length(), 42);
    assert_eq!(chunk.crc(), 2882656334);
}

#[test]
fn test_chunk_length() {
    let chunk = testing_chunk();
    assert_eq!(chunk.length(), 42);
}

#[test]
fn test_chunk_type() {
    let chunk = testing_chunk();
    assert_eq!(chunk.chunk_type().to_string(), String::from("RuSt"));
}

#[test]
fn test_chunk_string() {
    let chunk = testing_chunk();
    let chunk_string = chunk.data_as_string().unwrap();
    let expected_chunk_string = String::from("This is where your secret message will be!");
    assert_eq!(chunk_string, expected_chunk_string);
}

#[test]
fn test_chunk_crc() {
    let chunk = testing_chunk();
    assert_eq!(chunk.crc(), 2882656334);
}

#[test]
fn test_valid_chunk_from_bytes() {
    let data_length: u32 = 42;
    let chunk_type = "RuSt".as_bytes();
    let message_bytes = "This is where your secret message will be!".as_bytes();
    let crc: u32 = 2882656334;

    let chunk_data: Vec<u8> = frame(data_length, chunk_type, message_bytes, crc);

    let chunk = Chunk::try_from(chunk_data.as_ref()).unwrap();

    let chunk_string = chunk.data_as_string().unwrap();
    let expected_chunk_string = String::from("This is where your secret message will be!");

    assert_eq!(chunk.length(), 42);
    assert_eq!(chunk.chunk_type().to_string(), String::from("RuSt"));
    assert_eq!(chunk_string, expected_chunk_string);
    assert_eq!(chunk.crc(), 2882656334);
}

#[test]
fn test_invalid_chunk_from_bytes() {
    let data_length: u32 = 42;
    let chunk_type = "RuSt".as_bytes();
    let message_bytes = "This is where your secret message will be!".as_bytes();
    let crc: u32 = 2882656333;

    let chunk_data: Vec<u8> = frame(data_length, chunk_type, message_bytes, crc);

    let chunk = Chunk::try_from(chunk_data.as_ref());

    assert!(chunk.is_err());
}

#[test]
pub fn test_chunk_trait_impls() {
    let data_length: u32 = 42;
    let chunk_type = "RuSt".as_bytes();
    let message_bytes = "This is where your secret message will be!".as_bytes();
    let crc: u32 = 2882656334;

    let chunk_data: Vec<u8> = frame(data_length, chunk_type, message_bytes, crc);

    let chunk: Chunk = TryFrom::try_from(chunk_data.as_ref()).unwrap();

    let _chunk_string = chunk.to_string();
}

fn rust_chunk(payload: &[u8]) -> Chunk {
    Chunk::new(ChunkType::from_str("RuSt").unwrap(), payload.to_vec())
}

#[test]
fn end_to_end_layout() {
    let chunk = rust_chunk(MESSAGE.as_bytes());
    assert_eq!(MESSAGE.len(), 42);
    assert_eq!(chunk.length(), 42);
    assert_eq!(chunk.crc(), 2882656334);
    assert_eq!(chunk.data(), MESSAGE.as_bytes());
    assert_eq!(chunk.chunk_type().bytes(), *b"RuSt");
    let bytes = chunk.as_bytes();
    assert_eq!(bytes.len(), 54);
    assert_eq!(&bytes[0..4], &[0, 0, 0, 42]);
    assert_eq!(&bytes[4..8], b"RuSt");
    assert_eq!(&bytes[8..50], MESSAGE.as_bytes());
    assert_eq!(&bytes[50..54], &2882656334u32.to_be_bytes());
    assert_eq!(bytes, frame(42, b"RuSt", MESSAGE.as_bytes(), 2882656334));
}

#[test]
fn round_trip_keeps_every_field() {
    let payloads: [&[u8]; 4] = [b"", b"x", MESSAGE.as_bytes(), &[0, 255, 128, 7, 7]];
    for tag in ["RuSt", "IHDR", "abcd", "zZzZ"] {
        for payload in payloads {
            let original = Chunk::new(ChunkType::from_str(tag).unwrap(), payload.to_vec());
            let back = Chunk::try_from(original.as_bytes().as_slice()).unwrap();
            assert_eq!(back.length(), original.length());
            assert_eq!(back.chunk_type(), original.chunk_type());
            assert_eq!(back.data(), original.data());
            assert_eq!(back.crc(), original.crc());
        }
    }
}

#[test]
fn empty_payload_chunk() {
    let chunk = rust_chunk(b"");
    assert_eq!(chunk.length(), 0);
    let bytes = chunk.as_bytes();
    assert_eq!(bytes.len(), 12);
    assert_eq!(Chunk::try_from(bytes.as_slice()).unwrap().data(), b"");
}

#[test]
fn known_checksums() {
    // CRC-32/ISO-HDLC of "IEND" with no payload, as in every PNG file.
    let iend = Chunk::new(ChunkType::from_str("IEND").unwrap(), Vec::new());
    assert_eq!(iend.crc(), 0xAE426082);
    assert_eq!(iend.as_bytes(), vec![0, 0, 0, 0, 0x49, 0x45, 0x4E, 0x44, 0xAE, 0x42, 0x60, 0x82]);
}

#[test]
fn checksum_depends_on_type_and_payload() {
    let a = rust_chunk(MESSAGE.as_bytes());
    let b = rust_chunk(MESSAGE.as_bytes());
    assert_eq!(a.crc(), b.crc());

    let mut changed = MESSAGE.as_bytes().to_vec();
    changed[0] = b't';
    assert_ne!(rust_chunk(&changed).crc(), a.crc());

    let other_type = Chunk::new(ChunkType::from_str("Rust").unwrap(), MESSAGE.as_bytes().to_vec());
    assert_ne!(other_type.crc(), a.crc());
}

#[test]
fn every_single_bit_flip_is_rejected() {
    let good = rust_chunk(MESSAGE.as_bytes()).as_bytes();
    let n = good.len();
    for i in 0..n {
        for k in 0..8 {
            let mut bad = good.clone();
            bad[i] ^= 1 << k;
            let r = Chunk::try_from(bad.as_slice());
            if i < 4 {
                assert_eq!(r.err(), Some(Error::InvalidLength));
            } else if i >= n - 4 {
                assert_eq!(r.err(), Some(Error::ChecksumMismatch));
            } else if i < 8 && !ChunkType::is_valid_byte(bad[i]) {
                assert_eq!(r.err(), Some(Error::InvalidTypeBytes));
            } else {
                assert_eq!(r.err(), Some(Error::ChecksumMismatch));
            }
        }
    }
}

#[test]
fn declared_length_must_match_payload() {
    let crc = 2882656334;
    for declared in [0u32, 41, 43, 44, u32::MAX] {
        let bytes = frame(declared, b"RuSt", MESSAGE.as_bytes(), crc);
        assert_eq!(Chunk::try_from(bytes.as_slice()).err(), Some(Error::InvalidLength));
    }
    let bytes = frame(42, b"RuSt", MESSAGE.as_bytes(), crc);
    assert!(Chunk::try_from(bytes.as_slice()).is_ok());
}

#[test]
fn short_buffers_are_truncated() {
    let good = rust_chunk(b"").as_bytes();
    for len in 0..12 {
        assert_eq!(Chunk::try_from(&good[..len]).err(), Some(Error::Truncated));
        let zeros = vec![0u8; len];
        assert_eq!(Chunk::try_from(zeros.as_slice()).err(), Some(Error::Truncated));
    }
    assert!(Chunk::try_from(good.as_slice()).is_ok());
}

#[test]
fn bad_type_in_buffer_is_invalid_type_bytes() {
    let bytes = frame(42, b"Ru1t", MESSAGE.as_bytes(), 2882656334);
    assert_eq!(Chunk::try_from(bytes.as_slice()).err(), Some(Error::InvalidTypeBytes));
}

#[test]
fn wrong_checksum_is_checksum_mismatch() {
    let bytes = frame(42, b"RuSt", MESSAGE.as_bytes(), 2882656333);
    assert_eq!(Chunk::try_from(bytes.as_slice()).err(), Some(Error::ChecksumMismatch));
}

#[test]
fn payload_that_is_not_utf8() {
    let chunk = rust_chunk(&[0x66, 0xff, 0x6f]);
    assert_eq!(chunk.data_as_string(), Err(Error::NotUtf8));
    let chunk = rust_chunk(&[0xe2, 0x82]);
    assert_eq!(chunk.data_as_string(), Err(Error::NotUtf8));
}

#[test]
fn payload_that_is_utf8() {
    let chunk = rust_chunk("h\u{e9}!".as_bytes());
    assert_eq!(chunk.data_as_string(), Ok(String::from("h\u{e9}!")));
    assert_eq!(rust_chunk(b"").data_as_string(), Ok(String::new()));
}

#[test]
fn description_line() {
    let chunk = testing_chunk();
    assert_eq!(chunk.to_string(), "Length: 42 Type: RuSt Crc: 2882656334");
    let empty = Chunk::new(ChunkType::from_str("IEND").unwrap(), Vec::new());
    assert_eq!(empty.to_string(), "Length: 0 Type: IEND Crc: 2923585666");
}

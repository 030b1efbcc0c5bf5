use push_fanout::framing::{
    check_frame, EncryptedMessage, HEADER_LEN, MIN_RECORD_SIZE, PUBLIC_KEY_LEN, SALT_LEN, TAG_LEN,
    UNCOMPRESSED_POINT,
};

fn frame(record_size: u32, records: usize) -> Vec<u8> {
    let mut bytes: Vec<u8> = (0u8..16).collect();
    bytes.extend_from_slice(&record_size.to_be_bytes());
    bytes.push(65);
    bytes.push(4);
    bytes.extend((0..64).map(|i| 100 + i as u8));
    bytes.extend(std::iter::repeat(0xee).take(records));
    bytes
}

#[test]
fn layout_constants() {
    assert_eq!(SALT_LEN, 16);
    assert_eq!(PUBLIC_KEY_LEN, 65);
    assert_eq!(UNCOMPRESSED_POINT, 4);
    assert_eq!(HEADER_LEN, 16 + 4 + 1 + 65);
    assert_eq!(TAG_LEN, 16);
    assert_eq!(MIN_RECORD_SIZE, 18);
}

#[test]
fn frame_is_read_field_by_field() {
    let bytes = frame(4096, 17);
    assert!(check_frame(&bytes));
    let message = EncryptedMessage::from_bytes(bytes.clone()).expect("a frame");
    assert_eq!(message.len(), 103);
    assert_eq!(message.ciphertext(), &bytes);
    assert_eq!(message.salt(), (0u8..16).collect::<Vec<u8>>());
    assert_eq!(message.record_size(), 4096);
    let key = message.key_id();
    assert_eq!(key.len(), 65);
    assert_eq!(key[0], 4);
    assert_eq!(key[1], 100);
    assert_eq!(key[64], 163);
    assert_eq!(message.into_bytes(), bytes);
}

#[test]
fn record_size_is_big_endian() {
    assert_eq!(EncryptedMessage::from_bytes(frame(18, 17)).unwrap().record_size(), 18);
    assert_eq!(EncryptedMessage::from_bytes(frame(256, 17)).unwrap().record_size(), 256);
    assert_eq!(
        EncryptedMessage::from_bytes(frame(0x0102_0304, 17)).unwrap().record_size(),
        0x0102_0304
    );
    assert_eq!(EncryptedMessage::from_bytes(frame(u32::MAX, 17)).unwrap().record_size(), u32::MAX);
    let mut bytes = frame(0, 17);
    bytes[16] = 0;
    bytes[17] = 0;
    bytes[18] = 1;
    bytes[19] = 2;
    assert_eq!(EncryptedMessage::from_bytes(bytes).unwrap().record_size(), 258);
}

#[test]
fn short_or_misshapen_bytes_are_no_frame() {
    assert!(EncryptedMessage::from_bytes(Vec::new()).is_none());
    assert!(EncryptedMessage::from_bytes(vec![0u8; 20]).is_none());
    assert!(EncryptedMessage::from_bytes(frame(4096, 0)).is_none());
    assert!(EncryptedMessage::from_bytes(frame(4096, 16)).is_none());
    assert!(EncryptedMessage::from_bytes(frame(4096, 17)).is_some());
    assert!(EncryptedMessage::from_bytes(frame(17, 17)).is_none());
    assert!(EncryptedMessage::from_bytes(frame(18, 18)).is_some());
    assert!(EncryptedMessage::from_bytes(frame(18, 19)).is_none());
    assert!(EncryptedMessage::from_bytes(frame(4096, 4096)).is_some());
    assert!(EncryptedMessage::from_bytes(frame(4096, 4097)).is_none());
    assert!(EncryptedMessage::from_bytes(frame(0, 17)).is_none());
    let mut short_key = frame(4096, 17);
    short_key[20] = 64;
    assert!(!check_frame(&short_key));
    let mut compressed = frame(4096, 17);
    compressed[21] = 2;
    assert!(!check_frame(&compressed));
}

use krain_aivm::codec::{decode_f32_le, encode_f32_le};

#[test]
fn decode_reads_little_endian_words() {
    let bytes = vec![0x00, 0x00, 0x80, 0x3f, 0x01, 0x02, 0x03, 0x04, 0xaa];
    assert_eq!(decode_f32_le(&bytes), vec![0x3f80_0000, 0x0403_0201]);
    assert_eq!(f32::from_bits(decode_f32_le(&bytes)[0]), 1.0);
}

#[test]
fn encode_writes_little_endian_words() {
    assert_eq!(
        encode_f32_le(&[0x3f80_0000, 0x0403_0201]),
        vec![0x00, 0x00, 0x80, 0x3f, 0x01, 0x02, 0x03, 0x04]
    );
    assert_eq!(encode_f32_le(&[(-2.5f32).to_bits()]), (-2.5f32).to_le_bytes().to_vec());
    assert!(encode_f32_le(&[]).is_empty());
}

#[test]
fn encode_then_decode_round_trips() {
    let words = vec![0, 1, 0x7fc0_0001, 0xffff_ffff, 0x8000_0000, 12345678];
    assert_eq!(decode_f32_le(&encode_f32_le(&words)), words);
}

#[test]
fn decode_then_encode_round_trips() {
    let bytes: Vec<u8> = (0..64u32).map(|i| (i * 37 % 256) as u8).collect();
    assert_eq!(encode_f32_le(&decode_f32_le(&bytes)), bytes);
}

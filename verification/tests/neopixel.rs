use wyoming::neopixel::{build_spi_buffer, color_to_rgb, encode_byte, RESET_BYTES};

#[test]
fn color_to_rgb_extracts_channels() {
    assert_eq!(color_to_rgb(0xFF0000), (255, 0, 0));
    assert_eq!(color_to_rgb(0x00FF00), (0, 255, 0));
    assert_eq!(color_to_rgb(0x0000FF), (0, 0, 255));
    assert_eq!(color_to_rgb(0x123456), (0x12, 0x34, 0x56));
    assert_eq!(color_to_rgb(0x000000), (0, 0, 0));
    assert_eq!(color_to_rgb(0xFFFFFF), (255, 255, 255));
}

#[test]
fn encode_byte_zero() {
    assert_eq!(encode_byte(0x00), [0x88, 0x88, 0x88, 0x88]);
}

#[test]
fn encode_byte_ff() {
    assert_eq!(encode_byte(0xFF), [0xCC, 0xCC, 0xCC, 0xCC]);
}

#[test]
fn encode_byte_mixed() {
    // 0xA5 = 0b10100101 -> 1100_1000_1100_1000_1000_1100_1000_1100
    assert_eq!(encode_byte(0xA5), [0xC8, 0xC8, 0x8C, 0x8C]);
}

#[test]
fn build_spi_buffer_structure() {
    let colors = vec![(0xFF, 0x00, 0x80)];
    let buf = build_spi_buffer(&colors);

    assert_eq!(buf.len(), 12 + RESET_BYTES);

    let g_encoded = encode_byte(0x00);
    let r_encoded = encode_byte(0xFF);
    let b_encoded = encode_byte(0x80);

    assert_eq!(&buf[0..4], &g_encoded);
    assert_eq!(&buf[4..8], &r_encoded);
    assert_eq!(&buf[8..12], &b_encoded);

    assert!(buf[12..].iter().all(|&b| b == 0));
}

#[test]
fn build_spi_buffer_multiple_leds() {
    let colors = vec![(255, 0, 0), (0, 255, 0), (0, 0, 255)];
    let buf = build_spi_buffer(&colors);
    assert_eq!(buf.len(), 36 + RESET_BYTES);
}

#[test]
fn build_spi_buffer_empty() {
    let buf = build_spi_buffer(&[]);
    assert_eq!(buf.len(), RESET_BYTES);
    assert!(buf.iter().all(|&b| b == 0));
}

#[test]
fn encoded_bytes_decode_back() {
    for byte in 0..=255u8 {
        let spi = encode_byte(byte);
        let mut decoded = 0u8;
        for k in 0..4 {
            for nibble in [spi[k] >> 4, spi[k] & 0xF] {
                assert!(nibble == 0xC || nibble == 0x8);
                decoded = (decoded << 1) | ((nibble >> 2) & 1);
            }
        }
        assert_eq!(decoded, byte);
    }
}

#[test]
fn second_led_follows_first() {
    let buf = build_spi_buffer(&[(1, 2, 3), (4, 5, 6)]);
    assert_eq!(&buf[12..16], &encode_byte(5));
    assert_eq!(&buf[16..20], &encode_byte(4));
    assert_eq!(&buf[20..24], &encode_byte(6));
}

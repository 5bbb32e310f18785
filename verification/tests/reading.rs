use dht11::reading::Dht11Reading;

fn frame_from_bytes(bytes: [i32; 5]) -> Vec<i32> {
    let mut bits = Vec::new();
    for byte in bytes {
        for k in (0..8).rev() {
            bits.push((byte >> k) & 1);
        }
    }
    bits
}

#[test]
fn span_packs_low_bit() {
    // Span [0, 8) with bits 0000_0001 decodes to 1.
    let mut buffer = vec![0; 40];
    buffer[7] = 1;
    let reading = Dht11Reading::from_buffer(&buffer);
    assert_eq!(reading.humidity_integer, 1);
    assert_eq!(reading.humidity_decimal, 0);
    assert_eq!(reading.temperature_integer, 0);
    assert_eq!(reading.temperature_decimal, 0);
    assert_eq!(reading.checksum, 0);
}

#[test]
fn span_packs_high_bit() {
    // Span [0, 8) with bits 1000_0000 decodes to 128.
    let mut buffer = vec![0; 40];
    buffer[0] = 1;
    let reading = Dht11Reading::from_buffer(&buffer);
    assert_eq!(reading.humidity_integer, 128);
}

#[test]
fn bits_to_int_spans() {
    let mut buffer = vec![0; 40];
    // humidity_decimal span [8, 16) = 0000_0011 -> 3
    buffer[14] = 1;
    buffer[15] = 1;
    // checksum span [32, 40) = 1111_1111 -> 255
    for i in 32..40 {
        buffer[i] = 1;
    }
    assert_eq!(Dht11Reading::bits_to_int(&buffer, 8, 16), 3);
    assert_eq!(Dht11Reading::bits_to_int(&buffer, 32, 40), 255);
    assert_eq!(Dht11Reading::bits_to_int(&buffer, 0, 8), 0);
}

#[test]
fn from_buffer_decodes_all_fields() {
    let buffer = frame_from_bytes([25, 0, 22, 5, 52]);
    let reading = Dht11Reading::from_buffer(&buffer);
    assert_eq!(reading.humidity_integer, 25);
    assert_eq!(reading.humidity_decimal, 0);
    assert_eq!(reading.temperature_integer, 22);
    assert_eq!(reading.temperature_decimal, 5);
    assert_eq!(reading.checksum, 52);
}

#[test]
fn checksum_52_is_valid() {
    // (25 + 0 + 22 + 5) mod 256 == 52
    let reading = Dht11Reading::from_buffer(&frame_from_bytes([25, 0, 22, 5, 52]));
    assert!(reading.is_valid());
}

#[test]
fn checksum_53_is_invalid() {
    let reading = Dht11Reading::from_buffer(&frame_from_bytes([25, 0, 22, 5, 53]));
    assert!(!reading.is_valid());
}

#[test]
fn checksum_wraps_modulo_256() {
    // 200 + 200 + 100 + 20 = 520; 520 mod 256 = 8.
    let reading = Dht11Reading::from_buffer(&frame_from_bytes([200, 200, 100, 20, 8]));
    assert!(reading.is_valid());
    let off_by_one = Dht11Reading::from_buffer(&frame_from_bytes([200, 200, 100, 20, 9]));
    assert!(!off_by_one.is_valid());
}

#[test]
fn all_zero_frame_is_valid() {
    let reading = Dht11Reading::from_buffer(&vec![0; 40]);
    assert_eq!(reading.checksum, 0);
    assert!(reading.is_valid());
}

#[test]
fn extra_buffer_entries_are_ignored() {
    let mut buffer = frame_from_bytes([25, 0, 22, 5, 52]);
    buffer.push(1);
    buffer.push(1);
    let reading = Dht11Reading::from_buffer(&buffer);
    assert_eq!(reading.humidity_integer, 25);
    assert_eq!(reading.checksum, 52);
}

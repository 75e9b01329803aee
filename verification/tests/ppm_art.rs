use battletris::ppm::{decode_ppm, quantize_ppm_component, valid_hex_color, PpmError};

fn p6(header: &str, pixels: &[u8]) -> Vec<u8> {
    let mut bytes = header.as_bytes().to_vec();
    bytes.extend_from_slice(pixels);
    bytes
}

#[test]
fn decodes_a_small_p6_with_comments() {
    let bytes = p6("P6\n# legacy art\n2 1\n255\n", &[1, 2, 3, 4, 5, 6]);
    let image = decode_ppm(&bytes).expect("valid P6");
    assert_eq!((image.width, image.height), (2, 1));
    assert_eq!(image.pixels, vec![[1, 2, 3, 255], [4, 5, 6, 255]]);
}

#[test]
fn pixel_bytes_start_after_one_whitespace_byte() {
    let bytes = p6("P6 1 1 255 ", &[32, 9, 10]);
    let image = decode_ppm(&bytes).expect("pixels may look like whitespace");
    assert_eq!(image.pixels, vec![[32, 9, 10, 255]]);
}

#[test]
fn refuses_other_magic_and_bad_numbers() {
    assert_eq!(decode_ppm(b"P3\n1 1\n255\n\x00\x00\x00"), Err(PpmError::NotP6));
    assert_eq!(decode_ppm(b"P6\nx 1\n255\n\x00\x00\x00"), Err(PpmError::BadWidth));
    assert_eq!(decode_ppm(b"P6\n1 -1\n255\n\x00\x00\x00"), Err(PpmError::BadHeight));
    assert_eq!(decode_ppm(b"P6\n1 1\n99999999999\n\x00\x00\x00"), Err(PpmError::BadMaxValue));
    assert_eq!(decode_ppm(b"P6\n1 1\n65535\n\x00\x00\x00"), Err(PpmError::UnsupportedMaxValue));
    assert_eq!(decode_ppm(b"P6\n2 2\n255\n\x00\x00\x00"), Err(PpmError::TooFewPixelBytes));
    assert_eq!(decode_ppm(b"\xff\xfe 1 1 255 \x00\x00\x00"), Err(PpmError::TokenNotUtf8));
    assert_eq!(decode_ppm(b""), Err(PpmError::NotP6));
}

#[test]
fn plus_signed_dimensions_parse_like_str_parse() {
    let image = decode_ppm(b"P6 +1 +1 255\n\x07\x08\x09").expect("plus sign is accepted");
    assert_eq!(image.pixels, vec![[7, 8, 9, 255]]);
}

#[test]
fn quantized_components_fall_on_five_levels() {
    assert_eq!(quantize_ppm_component(0), 0);
    assert_eq!(quantize_ppm_component(63), 0);
    assert_eq!(quantize_ppm_component(64), 63);
    assert_eq!(quantize_ppm_component(128), 127);
    assert_eq!(quantize_ppm_component(255), 255);
}

#[test]
fn hex_colors_need_six_or_eight_digits() {
    assert!(valid_hex_color("#a0B1c2"));
    assert!(valid_hex_color("#a0B1c2ff"));
    assert!(!valid_hex_color("a0B1c2"));
    assert!(!valid_hex_color("#a0B1c"));
    assert!(!valid_hex_color("#a0B1cg"));
    assert!(!valid_hex_color("#ééé"));
}

use scene_viewer::base64::base64_encode;
use scene_viewer::image_loader::{jpeg_data_uri, png_data_uri};

#[test]
fn test_base64_encode() {
    let data = b"Hello, World!";
    let encoded = base64_encode(data);
    assert_eq!(encoded, "SGVsbG8sIFdvcmxkIQ==");
}

#[test]
fn test_base64_empty() {
    assert_eq!(base64_encode(b""), "");
}

#[test]
fn test_base64_padding_cases() {
    assert_eq!(base64_encode(b"f"), "Zg==");
    assert_eq!(base64_encode(b"fo"), "Zm8=");
    assert_eq!(base64_encode(b"foo"), "Zm9v");
    assert_eq!(base64_encode(b"foob"), "Zm9vYg==");
    assert_eq!(base64_encode(b"fooba"), "Zm9vYmE=");
    assert_eq!(base64_encode(b"foobar"), "Zm9vYmFy");
}

#[test]
fn test_base64_all_alphabet_ranges() {
    assert_eq!(base64_encode(&[0u8, 16, 131, 16, 81, 135, 32, 146, 139, 48, 211, 143, 65, 20, 147, 81, 85, 151, 97, 150, 155, 113, 215, 159, 130, 24, 163, 146, 89, 167, 162, 154, 171, 178, 219, 175, 195, 28, 179, 211, 93, 183, 227, 158, 187, 243, 223, 191]),
        "ABCDEFGHIJKLMNOPQRSTUVWXYZabcdefghijklmnopqrstuvwxyz0123456789+/");
}

#[test]
fn test_jpeg_data_uri_framing() {
    let bytes: Vec<u8> = b"Hello, World!".to_vec();
    let uri = jpeg_data_uri(&bytes);
    assert_eq!(uri, "data:image/jpeg;base64,SGVsbG8sIFdvcmxkIQ==");
}

#[test]
fn test_png_data_uri_framing() {
    let bytes: Vec<u8> = b"fo".to_vec();
    let uri = png_data_uri(&bytes);
    assert_eq!(uri, "data:image/png;base64,Zm8=");
}

use lanshare::error::ShareError;
use lanshare::qr::{generate_qr_n64, inline_image};

#[test]
fn base64_of_known_bytes() {
    let b64 = |bytes: &[u8]| inline_image(Some(bytes.to_vec()));
    assert_eq!(b64(b""), Ok("".to_string()));
    assert_eq!(b64(b"f"), Ok("Zg==".to_string()));
    assert_eq!(b64(b"fo"), Ok("Zm8=".to_string()));
    assert_eq!(b64(b"foo"), Ok("Zm9v".to_string()));
    assert_eq!(b64(b"foob"), Ok("Zm9vYg==".to_string()));
    assert_eq!(b64(b"fooba"), Ok("Zm9vYmE=".to_string()));
    assert_eq!(b64(b"foobar"), Ok("Zm9vYmFy".to_string()));
    assert_eq!(b64(b"hello"), Ok("aGVsbG8=".to_string()));
    assert_eq!(b64(&[0xfb, 0xff]), Ok("+/8=".to_string()));
    assert_eq!(b64(&[0x00, 0x10, 0x83]), Ok("ABCD".to_string()));
    assert_eq!(b64(&[0xff, 0xff, 0xff]), Ok("////".to_string()));
}

#[test]
fn no_image_is_an_encoding_error() {
    assert_eq!(inline_image(None), Err(ShareError::EncodingError));
}

#[test]
fn qr_image_is_a_png_in_base64() {
    let image = generate_qr_n64("http://127.0.0.1:8000".to_string()).unwrap();
    // The eight bytes of the PNG signature, in base64.
    assert!(image.starts_with("iVBORw0KGgo"));
    assert_eq!(image.len() % 4, 0);
    assert!(image
        .chars()
        .all(|c| c.is_ascii_alphanumeric() || c == '+' || c == '/' || c == '='));
    assert_ne!(image, "http://127.0.0.1:8000");
}

#[test]
fn qr_image_is_the_same_each_time() {
    let text = "http://192.168.1.20:8000";
    let first = generate_qr_n64(text.to_string());
    let second = generate_qr_n64(text.to_string());
    assert!(first.is_ok());
    assert_eq!(first, second);
}

#[test]
fn qr_images_of_different_texts_differ() {
    assert_ne!(
        generate_qr_n64("http://192.168.1.20:8000".to_string()),
        generate_qr_n64("http://192.168.1.21:8000".to_string())
    );
}

#[test]
fn qr_of_the_empty_text() {
    assert!(generate_qr_n64(String::new()).is_ok());
}

#[test]
fn qr_of_too_long_a_text_fails() {
    assert_eq!(generate_qr_n64("a".repeat(3000)), Err(ShareError::EncodingError));
    assert_eq!(generate_qr_n64("7".repeat(7090)), Err(ShareError::EncodingError));
}

#[test]
fn qr_of_a_text_at_capacity() {
    // 2953 bytes are the most that fit at the low level.
    assert!(generate_qr_n64("a".repeat(2953)).is_ok());
    assert_eq!(generate_qr_n64("a".repeat(2954)), Err(ShareError::EncodingError));
}

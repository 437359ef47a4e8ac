use base64::Engine;
use work_packager::jsonp::{classify_content_type, decode_jsonp_content, generate_jsonp_content, push_decimal, with_jsonp_suffix, MimeType};

#[test]
fn suffix_carries_the_index() {
    assert_eq!(with_jsonp_suffix("a.jpg", 12), "a.jpg.12.jsonp");
    assert_eq!(with_jsonp_suffix("", 0), ".0.jsonp");
}

#[test]
fn decimal_of_large_numbers() {
    let mut s = String::from("x");
    push_decimal(&mut s, 1234567890);
    assert_eq!(s, "x1234567890");
    let mut t = String::new();
    push_decimal(&mut t, usize::MAX);
    assert_eq!(t, usize::MAX.to_string());
}

#[test]
fn content_types_are_classified_exactly() {
    assert_eq!(classify_content_type("image/jpeg"), MimeType::Jpeg);
    assert_eq!(classify_content_type("image/jpg"), MimeType::Jpeg);
    assert_eq!(classify_content_type("image/png"), MimeType::Png);
    assert_eq!(classify_content_type(""), MimeType::OctetStream);
    assert_eq!(classify_content_type("text/html"), MimeType::OctetStream);
    assert_eq!(classify_content_type("IMAGE/PNG"), MimeType::OctetStream);
    assert_eq!(classify_content_type("image/png; charset=x"), MimeType::OctetStream);
    assert_eq!(MimeType::OctetStream.as_str(), "application/octet-stream");
}

#[test]
fn png_script() {
    assert_eq!(
        generate_jsonp_content("image/png", b"hi", 3),
        "window[\"jsonp_3\"] && window[\"jsonp_3\"](\"data:image/png;base64,aGk=\")"
    );
}

#[test]
fn jpeg_and_jpg_scripts_agree() {
    let a = generate_jsonp_content("image/jpeg", &[0, 1, 2, 255], 10);
    let b = generate_jsonp_content("image/jpg", &[0, 1, 2, 255], 10);
    assert_eq!(a, b);
    assert_eq!(a, "window[\"jsonp_10\"] && window[\"jsonp_10\"](\"data:image/jpeg;base64,AAEC/w==\")");
}

#[test]
fn other_types_are_octet_stream() {
    assert_eq!(
        generate_jsonp_content("", b"", 0),
        "window[\"jsonp_0\"] && window[\"jsonp_0\"](\"data:application/octet-stream;base64,\")"
    );
}

fn payload(script: &str) -> &str {
    let start = script.find(";base64,").unwrap() + ";base64,".len();
    &script[start..script.len() - 2]
}

#[test]
fn payload_decodes_to_the_input() {
    let inputs: Vec<Vec<u8>> = vec![vec![], vec![0], vec![1, 2], vec![255, 254, 253], (0..=255).collect()];
    for ct in ["image/jpeg", "image/png", "", "weird/type"] {
        for (i, bytes) in inputs.iter().enumerate() {
            let script = generate_jsonp_content(ct, bytes, i * 7);
            let decoded = base64::engine::general_purpose::STANDARD.decode(payload(&script)).unwrap();
            assert_eq!(&decoded, bytes);
        }
    }
}

#[test]
fn scripts_decode_back_to_their_bytes() {
    let bytes: Vec<u8> = (0..=255).rev().collect();
    for ct in ["image/jpeg", "image/jpg", "image/png", "", "text/html"] {
        for i in [0usize, 9, 10, 123456] {
            let script = generate_jsonp_content(ct, &bytes, i);
            assert_eq!(decode_jsonp_content(&script), Some(bytes.clone()));
        }
    }
    assert_eq!(decode_jsonp_content(&generate_jsonp_content("image/png", b"", 1)), Some(vec![]));
    assert_eq!(decode_jsonp_content("no comma here"), None);
}

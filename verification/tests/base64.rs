use watchlite::base64::base64_encode;

#[test]
fn base64_rfc4648_vectors() {
    assert_eq!(base64_encode(b""), "");
    assert_eq!(base64_encode(b"f"), "Zg==");
    assert_eq!(base64_encode(b"fo"), "Zm8=");
    assert_eq!(base64_encode(b"foo"), "Zm9v");
    assert_eq!(base64_encode(b"foobar"), "Zm9vYmFy");
    assert_eq!(base64_encode(b"admin:secret"), "YWRtaW46c2VjcmV0");
}

#[test]
fn base64_uses_the_whole_alphabet() {
    let mut bytes: Vec<u8> = Vec::new();
    for n in 0..16u32 {
        let v = (4 * n) << 18 | (4 * n + 1) << 12 | (4 * n + 2) << 6 | (4 * n + 3);
        bytes.extend_from_slice(&[(v >> 16) as u8, (v >> 8) as u8, v as u8]);
    }
    assert_eq!(
        base64_encode(&bytes),
        "ABCDEFGHIJKLMNOPQRSTUVWXYZabcdefghijklmnopqrstuvwxyz0123456789+/"
    );
}

#[test]
fn base64_length_is_four_for_every_three_begun() {
    for n in 0..40usize {
        let text = base64_encode(&vec![255u8; n]);
        assert_eq!(text.len(), (n + 2) / 3 * 4);
    }
    assert_eq!(base64_encode(&[255, 255]), "//8=");
}

use flash_campaign_manager::base64_url::encode;

fn encoded(src: &[u8]) -> String {
    let mut dst = vec![b'.'; src.len() / 3 * 4 + 4];
    encode(&mut dst, src);
    let s = String::from_utf8(dst).unwrap();
    s.trim_end_matches('.').to_string()
}

#[test]
fn encode_known_strings() {
    assert_eq!(encoded(b""), "");
    assert_eq!(encoded(b"f"), "Zg");
    assert_eq!(encoded(b"fo"), "Zm8");
    assert_eq!(encoded(b"foo"), "Zm9v");
    assert_eq!(encoded(b"foob"), "Zm9vYg");
    assert_eq!(encoded(b"fooba"), "Zm9vYmE");
    assert_eq!(encoded(b"foobar"), "Zm9vYmFy");
}

#[test]
fn encode_uses_url_safe_alphabet() {
    assert_eq!(encoded(&[0xfb, 0xff]), "-_8");
    assert_eq!(encoded(&[0xff, 0xff, 0xff]), "____");
    assert_eq!(encoded(&[0x00, 0x00, 0x00]), "AAAA");
}

#[test]
fn encode_leaves_rest_of_buffer() {
    let mut dst = [b'#'; 8];
    encode(&mut dst, b"ab");
    assert_eq!(&dst, b"YWI#####");
}

use bunkr_uploader::link::reveal_url;
use base64::Engine as _;
use bunkr_uploader::error::EngineError;
use bunkr_uploader::link::{decrypt_url, hour_bucket, key_bytes, resolve_link, with_file_name,
    xor_bytes, DownloadResponse};

fn obfuscate(plain: &str, timestamp: i64) -> String {
    let key = key_bytes(hour_bucket(timestamp));
    let bytes = xor_bytes(&plain.as_bytes().to_vec(), &key);
    base64::engine::general_purpose::STANDARD.encode(bytes)
}

#[test]
fn timestamp_7200_uses_bucket_two() {
    assert_eq!(hour_bucket(7200), 2);
    assert_eq!(key_bytes(2), b"SECRET_KEY_2".to_vec());
    // "https://cdn.example/video.mp4" XOR "SECRET_KEY_2", in standard Base64.
    let expected = "https://cdn.example/video.mp4";
    let key = b"SECRET_KEY_2";
    let cipher: Vec<u8> = expected.bytes().enumerate().map(|(i, b)| b ^ key[i % key.len()]).collect();
    let encoded = base64::engine::general_purpose::STANDARD.encode(&cipher);
    assert_eq!(decrypt_url(&encoded, 7200), Ok(expected.to_string()));
}

#[test]
fn buckets_round_down() {
    assert_eq!(hour_bucket(0), 0);
    assert_eq!(hour_bucket(3599), 0);
    assert_eq!(hour_bucket(3600), 1);
    assert_eq!(hour_bucket(-1), -1);
    assert_eq!(hour_bucket(-3600), -1);
    assert_eq!(hour_bucket(-3601), -2);
    assert_eq!(key_bytes(-1), b"SECRET_KEY_-1".to_vec());
    assert_eq!(hour_bucket(i64::MIN), -2562047788015216);
}

#[test]
fn cipher_is_self_inverse() {
    for ts in [0i64, 7200, 1_700_000_000, -5] {
        let key = key_bytes(hour_bucket(ts));
        let data: Vec<u8> = (0u8..=255).collect();
        let once = xor_bytes(&data, &key);
        assert_ne!(once, data);
        assert_eq!(xor_bytes(&once, &key), data);
        let url = "https://x.example/a?b=c";
        assert_eq!(decrypt_url(&obfuscate(url, ts), ts), Ok(url.to_string()));
    }
}

#[test]
fn decode_errors() {
    assert_eq!(decrypt_url("not base64!", 7200), Err(EngineError::Decode));
    // 0xFF XOR 'S' is not valid UTF-8 on its own.
    let bad = base64::engine::general_purpose::STANDARD.encode([0xFFu8 ^ b'S']);
    assert_eq!(decrypt_url(&bad, 7200), Err(EngineError::Decode));
}

#[test]
fn file_name_is_appended_encoded() {
    assert_eq!(with_file_name("https://h/x", "a b/é.mp4"), "https://h/x?n=a%20b%2F%C3%A9.mp4");
    assert_eq!(with_file_name("https://h/x?t=1", "v-1_~.txt"), "https://h/x?t=1&n=v-1_~.txt");
}

#[test]
fn resolving_links() {
    let url = "https://cdn.example/f";
    let answer = DownloadResponse { encrypted: true, timestamp: 7200, url: obfuscate(url, 7200) };
    let link = resolve_link(&answer, "my file.zip").unwrap();
    assert_eq!(link.url, "https://cdn.example/f?n=my%20file.zip");
    assert_eq!(link.bucket, 2);
    let plain = DownloadResponse { encrypted: false, timestamp: 7200, url: url.to_string() };
    assert_eq!(resolve_link(&plain, "x").err(), Some(EngineError::UnexpectedResponse));
    let broken = DownloadResponse { encrypted: true, timestamp: 7200, url: "%%%".to_string() };
    assert_eq!(resolve_link(&broken, "x").err(), Some(EngineError::Decode));
}

#[test]
fn revealing_decoded_bytes() {
    let key = b"SECRET_KEY_2";
    let cipher: Vec<u8> = b"https://a/bcdef".iter().enumerate().map(|(i, b)| b ^ key[i % key.len()]).collect();
    assert_eq!(reveal_url(&cipher, 7200), Ok("https://a/bcdef".to_string()));
    assert_eq!(reveal_url(&cipher, 7199).is_ok(), true);
    assert_ne!(reveal_url(&cipher, 7199), Ok("https://a/bcdef".to_string()));
    assert_eq!(reveal_url(&vec![], 7200), Ok(String::new()));
    assert_eq!(reveal_url(&vec![0xC0 ^ b'S'], 7200), Err(EngineError::Decode));
}

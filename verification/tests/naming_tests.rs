use base64::Engine;
use image_folder_viewer::digest::disk_cache_filename;
use image_folder_viewer::payload::to_data_url;
use image_folder_viewer::text::u32_to_string;
use sha2::Digest;

#[test]
fn decimal_rendering() {
    assert_eq!(u32_to_string(0), "0");
    assert_eq!(u32_to_string(7), "7");
    assert_eq!(u32_to_string(128), "128");
    assert_eq!(u32_to_string(4294967295), "4294967295");
}

#[test]
fn cache_filename_is_hex_sha256_of_path_and_size() {
    let digest = sha2::Sha256::digest("/photos/cat.png:128".as_bytes());
    let mut expected = String::new();
    for b in digest {
        expected.push_str(&format!("{:02x}", b));
    }
    expected.push_str(".jpg");
    assert_eq!(disk_cache_filename(&"/photos/cat.png".to_string(), 128), expected);
}

#[test]
fn cache_filename_known_digest() {
    // SHA-256 of the ASCII string "a:1".
    let name = disk_cache_filename(&"a".to_string(), 1);
    let digest = sha2::Sha256::digest(b"a:1");
    let hex: String = digest.iter().map(|b| format!("{:02x}", b)).collect();
    assert_eq!(name, format!("{}.jpg", hex));
    assert_eq!(name.len(), 64 + 4);
}

#[test]
fn distinct_requests_get_distinct_filenames() {
    let a = disk_cache_filename(&"/p/x.png".to_string(), 64);
    let b = disk_cache_filename(&"/p/x.png".to_string(), 128);
    let c = disk_cache_filename(&"/p/y.png".to_string(), 64);
    assert_ne!(a, b);
    assert_ne!(a, c);
    assert_ne!(b, c);
}

#[test]
fn data_url_wraps_base64() {
    let bytes: Vec<u8> = vec![0xff, 0xd8, 0xff, 0xe0, 0x00, 0x10];
    let expected = format!(
        "data:image/jpeg;base64,{}",
        base64::engine::general_purpose::STANDARD.encode(&bytes)
    );
    assert_eq!(to_data_url(&bytes), expected);
}

#[test]
fn data_url_of_empty_bytes() {
    assert_eq!(to_data_url(&[]), "data:image/jpeg;base64,");
}

use aes_gcm::aead::Aead;
use aes_gcm::KeyInit;
use armgddn_downloader::rclone::{ConfigError, RcloneManager};
use base64::Engine;
use sha2::Digest;
use std::path::PathBuf;

fn adapter() -> RcloneManager {
    RcloneManager::new(PathBuf::from("/nonexistent/rclone.conf"), PathBuf::from("rclone"))
}

fn seal(text: &str, password: &str, nonce: [u8; 12]) -> String {
    seal_bytes(text.as_bytes(), password, nonce)
}

fn seal_bytes(plain: &[u8], password: &str, nonce: [u8; 12]) -> String {
    let key = sha2::Sha256::digest(password.as_bytes());
    let cipher = aes_gcm::Aes256Gcm::new_from_slice(&key).unwrap();
    let sealed = cipher.encrypt(aes_gcm::Nonce::from_slice(&nonce), plain).unwrap();
    let mut data = nonce.to_vec();
    data.extend_from_slice(&sealed);
    base64::engine::general_purpose::STANDARD.encode(data)
}

#[test]
fn sizes_in_each_unit() {
    assert_eq!(RcloneManager::parse_size("512 B"), None);
    assert_eq!(RcloneManager::parse_size("512B"), Some(512));
    assert_eq!(RcloneManager::parse_size("1KiB"), Some(1024));
    assert_eq!(RcloneManager::parse_size("10.5MiB"), Some(11010048));
    assert_eq!(RcloneManager::parse_size("  2GiB \t"), Some(2 * 1024 * 1024 * 1024));
    assert_eq!(RcloneManager::parse_size("0.5KiB"), Some(512));
    assert_eq!(RcloneManager::parse_size("1.999B"), Some(1));
    assert_eq!(RcloneManager::parse_size(".5KiB"), Some(512));
    assert_eq!(RcloneManager::parse_size("3.KiB"), Some(3072));
}

#[test]
fn malformed_sizes_are_rejected() {
    assert_eq!(RcloneManager::parse_size("10"), None);
    assert_eq!(RcloneManager::parse_size("MiB"), None);
    assert_eq!(RcloneManager::parse_size("1.2.3MiB"), None);
    assert_eq!(RcloneManager::parse_size("abcB"), None);
    assert_eq!(RcloneManager::parse_size("10 TiB"), None);
    assert_eq!(RcloneManager::parse_size(".B"), None);
}

#[test]
fn huge_sizes_saturate() {
    assert_eq!(RcloneManager::parse_size("9999999999999999999GiB"), Some(u64::MAX));
}

#[test]
fn progress_line_is_read() {
    let line = "Transferred:   10.5 MiB / 100 MiB, 10%, 5 MiB/s, ETA 18s";
    assert_eq!(RcloneManager::parse_progress(line), None);
    let line = "Transferred:   10.5MiB / 100MiB, 10%, 5MiB/s, ETA 18s";
    assert_eq!(RcloneManager::parse_progress(line), Some((11010048, 104857600)));
}

#[test]
fn short_or_slashless_lines() {
    assert_eq!(RcloneManager::parse_progress("Transferred: 1B / 2B"), None);
    assert_eq!(RcloneManager::parse_progress("a b c d e f"), Some((0, 0)));
    assert_eq!(RcloneManager::parse_progress("/ a b c d"), Some((0, 0)));
    assert_eq!(RcloneManager::parse_progress("Transferred: 1KiB / 2KiB,, 50%"), Some((1024, 2048)));
}

#[test]
fn config_decrypts_with_the_right_key() {
    let encrypted = seal("[remote]\ntype = drive\n", "armgddn-secure-key-2025", [7u8; 12]);
    let text = adapter().decrypt_config(&encrypted, "armgddn-secure-key-2025").unwrap();
    assert_eq!(text, "[remote]\ntype = drive\n");
}

#[test]
fn config_errors() {
    let a = adapter();
    let encrypted = seal("secret", "right", [1u8; 12]);
    assert_eq!(a.decrypt_config(&encrypted, "wrong"), Err(ConfigError::Decrypt));
    assert_eq!(a.decrypt_config("not base64!", "k"), Err(ConfigError::Base64));
    assert_eq!(a.decrypt_config("AAAA", "k"), Err(ConfigError::TooShort));
    assert_eq!(ConfigError::TooShort.message(), "Invalid encrypted data: too short");
}

#[test]
fn config_that_is_not_text() {
    let encrypted = seal_bytes(&[0xff, 0xfe, 0x00], "k", [3u8; 12]);
    assert_eq!(adapter().decrypt_config(&encrypted, "k"), Err(ConfigError::Utf8));
    assert_eq!(ConfigError::Utf8.message(), "Decrypted data is not valid UTF-8");
}

#[test]
fn nonce_alone_is_not_a_config() {
    let encrypted = base64::engine::general_purpose::STANDARD.encode([9u8; 12]);
    assert_eq!(adapter().decrypt_config(&encrypted, "k"), Err(ConfigError::Decrypt));
}

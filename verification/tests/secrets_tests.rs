use migi::secrets::{generate_master_key, master_key_from_hex, Secrets};
use migi::MigiError;

fn key() -> Vec<u8> {
    hex::decode(generate_master_key()).unwrap()
}

fn message(e: MigiError) -> String {
    match e {
        MigiError::Config(m) => m,
        other => panic!("expected a configuration error, got {:?}", other),
    }
}

#[test]
fn test_secrets_roundtrip() {
    let key = key();
    let secrets = Secrets::from_pairs(vec![("llm_api_key", "sk-test-key-12345"), ("llm_org_id", "org-abc")]);
    let sealed = secrets.seal(&key).unwrap();
    let loaded = Secrets::open(&sealed, &key).unwrap();
    assert_eq!(loaded.get("llm_api_key"), Some("sk-test-key-12345"));
    assert_eq!(loaded.get("llm_org_id"), Some("org-abc"));
    assert_eq!(loaded.get("nonexistent"), None);
}

#[test]
fn test_secrets_wrong_key_fails() {
    let key1 = key();
    let key2 = key();
    let secrets = Secrets::from_pairs(vec![("test", "value")]);
    let sealed = secrets.seal(&key1).unwrap();
    let result = Secrets::open(&sealed, &key2);
    assert!(result.is_err());
}

#[test]
fn test_secrets_empty() {
    let secrets = Secrets::new();
    assert!(secrets.keys().is_empty());
}

#[test]
fn test_load_or_empty_missing_file() {
    let key = key();
    let secrets = Secrets::load_or_empty(None, &key);
    assert!(secrets.keys().is_empty());
}

#[test]
fn test_master_key_length_validation() {
    assert!(hex::decode("00").unwrap().len() != 32);
    let m = message(master_key_from_hex("00").unwrap_err());
    assert_eq!(m, "MIGI_MASTER_KEY must be exactly 32 bytes (64 hex chars), got 1 bytes");
}

#[test]
fn test_generate_key_format() {
    let key = generate_master_key();
    assert_eq!(key.len(), 64);
    assert!(hex::decode(&key).is_ok());
}

#[test]
fn sealed_text_has_nonce_and_tag() {
    let key = key();
    let secrets = Secrets::from_pairs(vec![("a", "b")]);
    let nonce = [7u8; 12];
    let sealed = secrets.seal_with_nonce(&key, &nonce).unwrap();
    let bytes = base64::Engine::decode(&base64::engine::general_purpose::STANDARD, &sealed).unwrap();
    assert_eq!(&bytes[..12], &nonce);
    // {"a":"b"} is nine bytes, plus the 16-byte tag.
    assert_eq!(bytes.len(), 12 + 9 + 16);
    // The same nonce and key seal the same text.
    assert_eq!(secrets.seal_with_nonce(&key, &nonce).unwrap(), sealed);
    let opened = Secrets::open(&format!("  {}\n", sealed), &key).unwrap();
    assert_eq!(opened.get("a"), Some("b"));
}

#[test]
fn open_reports_each_failure() {
    let key = key();
    assert!(message(Secrets::open("not base64!", &key).unwrap_err()).starts_with("failed to decode base64: "));
    let short = base64::Engine::encode(&base64::engine::general_purpose::STANDARD, [1u8; 5]);
    assert_eq!(message(Secrets::open(&short, &key).unwrap_err()), "encrypted data too short (missing nonce)");
    let sealed = Secrets::from_pairs(vec![("a", "b")]).seal(&key).unwrap();
    assert_eq!(message(Secrets::open(&sealed, &key[..16]).unwrap_err()), "failed to create cipher: Invalid Length");
    let mut other = key.clone();
    other[0] ^= 1;
    assert_eq!(
        message(Secrets::open(&sealed, &other).unwrap_err()),
        "decryption failed — wrong master key or corrupted data"
    );
}

#[test]
fn seal_refuses_a_short_key() {
    let secrets = Secrets::from_pairs(vec![("a", "b")]);
    let m = message(secrets.seal(&[0u8; 10]).unwrap_err());
    assert_eq!(m, "failed to create cipher: Invalid Length");
}

#[test]
fn load_or_empty_falls_back_on_bad_text() {
    let key = key();
    assert!(Secrets::load_or_empty(Some("garbage"), &key).keys().is_empty());
    let sealed = Secrets::from_pairs(vec![("x", "y")]).seal(&key).unwrap();
    let s = Secrets::load_or_empty(Some(&sealed), &key);
    assert_eq!(s.get("x"), Some("y"));
}

#[test]
fn master_key_from_hex_reads_trimmed_hex() {
    let text = generate_master_key();
    let key = master_key_from_hex(&format!(" {}\n", text)).unwrap();
    assert_eq!(hex::encode(&key), text);
    assert!(message(master_key_from_hex("zz").unwrap_err()).starts_with("MIGI_MASTER_KEY must be a valid hex string: "));
    let upper = text.to_uppercase();
    assert_eq!(master_key_from_hex(&upper).unwrap(), key);
}

#[test]
fn set_replaces_and_from_pairs_keeps_the_last() {
    let mut s = Secrets::from_pairs(vec![("k", "1"), ("k", "2")]);
    assert_eq!(s.get("k"), Some("2"));
    assert_eq!(s.keys(), vec!["k"]);
    s.set("k", "3");
    s.set("j", "4");
    assert_eq!(s.get("k"), Some("3"));
    let mut keys = s.keys();
    keys.sort();
    assert_eq!(keys, vec!["j", "k"]);
}

#[test]
fn get_after_set_reads_the_value_back() {
    let mut s = Secrets::from_pairs(vec![("a", "1"), ("b", "2")]);
    s.set("a", "3");
    assert_eq!(s.get("a"), Some("3"));
    assert_eq!(s.get("b"), Some("2"));
    assert_eq!(s.get("c"), None);
}

#[test]
fn sealing_with_a_full_key_succeeds() {
    let key = key();
    assert!(Secrets::new().seal(&key).is_ok());
    assert!(Secrets::from_pairs(vec![("a\n\"b", "c\u{1}d")]).seal(&key).is_ok());
}

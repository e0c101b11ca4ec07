use mongo_tunnel::error::Error;
use mongo_tunnel::secret::{decrypt, encrypt, seal_secret};

#[test]
fn sealed_value_opens_with_same_password() {
    let sealed = encrypt("id1", "{\"sshPassword\":\"pw\"}").unwrap();
    assert_eq!(decrypt("id1", &sealed), Ok("{\"sshPassword\":\"pw\"}".to_string()));
    assert_eq!(decrypt("id2", &sealed), Err(Error::Crypto));
}

#[test]
fn sealed_value_layout() {
    let salt = [1u8; 16];
    let nonce = [2u8; 12];
    let sealed = seal_secret("k", "hello", &salt, &nonce).unwrap();
    assert!(sealed.starts_with(&("01".repeat(16) + &"02".repeat(12))));
    // salt, nonce, five bytes of text and a sixteen-byte tag
    assert_eq!(sealed.len(), 2 * (16 + 12 + 5 + 16));
    assert_eq!(seal_secret("k", "hello", &salt, &nonce).unwrap(), sealed);
    assert_eq!(decrypt("k", &sealed), Ok("hello".to_string()));
}

#[test]
fn empty_stored_value_is_absent() {
    assert_eq!(decrypt("k", ""), Ok(String::new()));
}

#[test]
fn malformed_stored_values() {
    assert_eq!(decrypt("k", "zz"), Err(Error::Crypto));
    assert_eq!(decrypt("k", "abc"), Err(Error::Crypto));
    assert_eq!(decrypt("k", "00ff"), Err(Error::Crypto));
}

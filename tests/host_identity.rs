use mongo_tunnel::error::Error;
use mongo_tunnel::host_key::{key_body, record_after_confirmation, verify_host_key};

const KEY_A: &str = "ssh-ed25519 AAAAC3NzaC1lZDI1NTE5AAAAIA root@jump";
const KEY_B: &str = "ssh-ed25519 AAAAC3NzaC1lZDI1NTE5AAAAIB root@jump";

#[test]
fn key_body_is_second_field() {
    assert_eq!(key_body(KEY_A), Some("AAAAC3NzaC1lZDI1NTE5AAAAIA"));
    assert_eq!(key_body("  ssh-rsa\t\tAAAB  "), Some("AAAB"));
    assert_eq!(key_body("ssh-rsa"), None);
    assert_eq!(key_body(""), None);
}

#[test]
fn first_contact_is_pending() {
    assert_eq!(verify_host_key(true, "", KEY_A), Err(Error::HostKeyPending));
}

#[test]
fn refused_password_fails_first() {
    assert_eq!(verify_host_key(false, KEY_A, KEY_A), Err(Error::AuthenticationFailure));
    assert_eq!(verify_host_key(false, "", KEY_A), Err(Error::AuthenticationFailure));
}

#[test]
fn confirmed_identity_is_trusted_and_other_is_mismatch() {
    assert_eq!(verify_host_key(true, "", KEY_A), Err(Error::HostKeyPending));
    let pinned = record_after_confirmation("", "true", KEY_A);
    assert_eq!(pinned, KEY_A);
    assert_eq!(
        verify_host_key(true, &pinned, KEY_A),
        Ok("AAAAC3NzaC1lZDI1NTE5AAAAIA".to_string())
    );
    assert_eq!(verify_host_key(true, &pinned, KEY_B), Err(Error::HostKeyMismatch));
}

#[test]
fn declined_identity_is_not_pinned() {
    assert_eq!(record_after_confirmation("", "false", KEY_A), "");
    assert_eq!(verify_host_key(true, "", KEY_A), Err(Error::HostKeyPending));
}

#[test]
fn malformed_stored_identity() {
    assert_eq!(verify_host_key(true, "ssh-rsa", "ssh-rsa"), Err(Error::KeyFormat));
}

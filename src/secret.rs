//! Sealing of stored secrets: `hex(salt[16] ∥ nonce[12] ∥ ciphertext)`, with
//! an Argon2 key derived from the password and AES-256-GCM.
use vstd::prelude::*;
use vstd::utf8::{decode_utf8, encode_utf8, valid_utf8};
use aes_gcm::aead::Aead;
use aes_gcm::KeyInit;
use rand_core::TryRngCore;
use crate::error::Error;
use crate::query::{hex_value, is_hex_digit};

verus! {

/// The Argon2id key (default parameters, 32 bytes) of a password and a salt.
pub uninterp spec fn argon2_key_of(password: Seq<u8>, salt: Seq<u8>) -> Option<Seq<u8>>;

/// The AES-256-GCM ciphertext, tag included, of a plaintext.
pub uninterp spec fn aes_gcm_seal_of(key: Seq<u8>, nonce: Seq<u8>, plaintext: Seq<u8>) -> Option<Seq<u8>>;

/// The plaintext of an AES-256-GCM ciphertext whose tag checks.
pub uninterp spec fn aes_gcm_open_of(key: Seq<u8>, nonce: Seq<u8>, ciphertext: Seq<u8>) -> Option<Seq<u8>>;

pub open spec fn hex_digit_char(d: int) -> char {
    seq!['0', '1', '2', '3', '4', '5', '6', '7', '8', '9', 'a', 'b', 'c', 'd', 'e', 'f'][d]
}

/// Two lower-case hexadecimal digits for each byte.
pub open spec fn hex_text(b: Seq<u8>) -> Seq<char> {
    Seq::new(
        2 * b.len(),
        |i: int|
            if i % 2 == 0 {
                hex_digit_char(b[i / 2] as int / 16)
            } else {
                hex_digit_char(b[i / 2] as int % 16)
            },
    )
}

/// The bytes that a text of pairs of hexadecimal digits (either case) spells.
pub open spec fn hex_bytes(s: Seq<char>) -> Option<Seq<u8>> {
    if s.len() % 2 == 0 && forall|i: int| 0 <= i < s.len() ==> is_hex_digit(#[trigger] s[i]) {
        Some(Seq::new(s.len() / 2, |i: int| (hex_value(s[2 * i]) * 16 + hex_value(s[2 * i + 1])) as u8))
    } else {
        None
    }
}

/// The stored form of `plaintext` sealed under `password` with this salt and
/// nonce, where the key derivation and the cipher succeed.
pub open spec fn sealed_text(password: Seq<char>, plaintext: Seq<char>, salt: Seq<u8>, nonce: Seq<u8>) -> Option<Seq<char>> {
    match argon2_key_of(encode_utf8(password), salt) {
        Some(key) => match aes_gcm_seal_of(key, nonce, encode_utf8(plaintext)) {
            Some(ct) => Some(hex_text(salt + nonce + ct)),
            None => None,
        },
        None => None,
    }
}

/// The plaintext of a stored value: empty for an empty (absent) value, else
/// what the salt, nonce and ciphertext that it spells open to, where they do.
pub open spec fn opened_text(password: Seq<char>, stored: Seq<char>) -> Option<Seq<char>> {
    if stored.len() == 0 {
        Some(Seq::empty())
    } else {
        match hex_bytes(stored) {
            Some(data) => if data.len() < 28 {
                None
            } else {
                match argon2_key_of(encode_utf8(password), data.subrange(0, 16)) {
                    Some(key) => match aes_gcm_open_of(key, data.subrange(16, 28), data.subrange(28, data.len() as int)) {
                        Some(pt) => if valid_utf8(pt) {
                            Some(decode_utf8(pt))
                        } else {
                            None
                        },
                        None => None,
                    },
                    None => None,
                }
            },
            None => None,
        }
    }
}

/// Relies on `argon2::Argon2::default().hash_password_into`: a 32-byte key
/// that depends on the password and the salt alone.
#[verifier::external_body]
fn derive_key(password: &[u8], salt: &[u8]) -> (r: Option<[u8; 32]>)
    ensures
        match r {
            Some(k) => argon2_key_of(password@, salt@) == Some(k@),
            None => argon2_key_of(password@, salt@) is None,
        },
{
    let mut key = [0u8; 32];
    match argon2::Argon2::default().hash_password_into(password, salt, &mut key) {
        Ok(()) => Some(key),
        Err(_) => None,
    }
}

/// Relies on `aes_gcm::Aes256Gcm`'s `encrypt`: the ciphertext with its tag.
#[verifier::external_body]
fn aes_seal(key: &[u8; 32], nonce: &[u8; 12], plaintext: &[u8]) -> (r: Option<Vec<u8>>)
    ensures
        match r {
            Some(c) => aes_gcm_seal_of(key@, nonce@, plaintext@) == Some(c@),
            None => aes_gcm_seal_of(key@, nonce@, plaintext@) is None,
        },
{
    let cipher = aes_gcm::Aes256Gcm::new_from_slice(key).ok()?;
    cipher.encrypt(aes_gcm::Nonce::from_slice(nonce), plaintext).ok()
}

/// Relies on `aes_gcm::Aes256Gcm`'s `decrypt`: the plaintext, where the tag
/// checks.
#[verifier::external_body]
fn aes_open(key: &[u8; 32], nonce: &[u8], ciphertext: &[u8]) -> (r: Option<Vec<u8>>)
    requires
        nonce@.len() == 12,
    ensures
        match r {
            Some(p) => aes_gcm_open_of(key@, nonce@, ciphertext@) == Some(p@),
            None => aes_gcm_open_of(key@, nonce@, ciphertext@) is None,
        },
{
    let cipher = aes_gcm::Aes256Gcm::new_from_slice(key).ok()?;
    cipher.decrypt(aes_gcm::Nonce::from_slice(nonce), ciphertext).ok()
}

/// Relies on `hex::encode`: two lower-case digits for each byte.
#[verifier::external_body]
fn hex_encode(b: &[u8]) -> (r: String)
    ensures
        r@ == hex_text(b@),
{
    hex::encode(b)
}

/// Relies on `hex::decode`: the bytes of an even number of hexadecimal digits
/// of either case, an error otherwise.
#[verifier::external_body]
fn hex_decode(s: &str) -> (r: Option<Vec<u8>>)
    ensures
        match r {
            Some(b) => hex_bytes(s@) == Some(b@),
            None => hex_bytes(s@) is None,
        },
{
    hex::decode(s).ok()
}

/// Relies on `String::from_utf8`: the text of valid UTF-8 bytes.
#[verifier::external_body]
fn utf8_text(b: Vec<u8>) -> (r: Option<String>)
    ensures
        match r {
            Some(s) => valid_utf8(b@) && s@ == decode_utf8(b@),
            None => !valid_utf8(b@),
        },
{
    String::from_utf8(b).ok()
}

/// Relies on `rand_core::OsRng`'s `try_fill_bytes`: `n` bytes from the
/// operating system's generator (zeros where it fails).
#[verifier::external_body]
fn random_bytes(n: usize) -> (r: Vec<u8>)
    ensures
        r@.len() == n,
{
    let mut v = vec![0u8; n];
    let _ = rand_core::OsRng.try_fill_bytes(&mut v);
    v
}

fn append_bytes(out: &mut Vec<u8>, b: &[u8])
    ensures
        final(out)@ == old(out)@ + b@,
{
    let mut i: usize = 0;
    while i < b.len()
        invariant
            i <= b@.len(),
            out@ == old(out)@ + b@.subrange(0, i as int),
        decreases b@.len() - i,
    {
        out.push(b[i]);
        i = i + 1;
        assert(out@ =~= old(out)@ + b@.subrange(0, i as int));
    }
    assert(b@.subrange(0, b@.len() as int) =~= b@);
}

/// Seals `plaintext` under `password` with the given salt and nonce into its
/// stored form.
pub fn seal_secret(password: &str, plaintext: &str, salt: &[u8; 16], nonce: &[u8; 12]) -> (r: Result<String, Error>)
    ensures
        match sealed_text(password@, plaintext@, salt@, nonce@) {
            Some(t) => r is Ok && r->Ok_0@ == t,
            None => r is Err && r->Err_0 is Crypto,
        },
{
    let key = match derive_key(password.as_bytes(), salt.as_slice()) {
        Some(k) => k,
        None => return Err(Error::Crypto),
    };
    let ct = match aes_seal(&key, nonce, plaintext.as_bytes()) {
        Some(c) => c,
        None => return Err(Error::Crypto),
    };
    let mut combined: Vec<u8> = Vec::new();
    append_bytes(&mut combined, salt.as_slice());
    append_bytes(&mut combined, nonce.as_slice());
    append_bytes(&mut combined, ct.as_slice());
    Ok(hex_encode(combined.as_slice()))
}

/// Seals `plaintext` under `password` with a fresh random salt and nonce.
pub fn encrypt(password: &str, plaintext: &str) -> (r: Result<String, Error>)
    ensures
        r is Ok ==> exists|salt: Seq<u8>, nonce: Seq<u8>|
            salt.len() == 16 && nonce.len() == 12 && sealed_text(password@, plaintext@, salt, nonce)
                == Some(#[trigger] r->Ok_0@),
        r is Err ==> r->Err_0 is Crypto,
{
    let salt_bytes = random_bytes(16);
    let nonce_bytes = random_bytes(12);
    let mut salt = [0u8; 16];
    let mut nonce = [0u8; 12];
    let mut i: usize = 0;
    while i < 16
        invariant
            salt_bytes@.len() == 16,
            i <= 16,
            forall|j: int| 0 <= j < i ==> salt@[j] == salt_bytes@[j],
        decreases 16 - i,
    {
        salt.set(i, salt_bytes[i]);
        i = i + 1;
    }
    let mut i: usize = 0;
    while i < 12
        invariant
            nonce_bytes@.len() == 12,
            i <= 12,
            forall|j: int| 0 <= j < i ==> nonce@[j] == nonce_bytes@[j],
        decreases 12 - i,
    {
        nonce.set(i, nonce_bytes[i]);
        i = i + 1;
    }
    let r = seal_secret(password, plaintext, &salt, &nonce);
    proof {
        if r is Ok {
            assert(salt@.len() == 16 && nonce@.len() == 12);
            assert(sealed_text(password@, plaintext@, salt@, nonce@) == Some(r->Ok_0@));
        }
    }
    r
}

/// Opens a stored value sealed under `password`: an empty stored value means
/// absent and opens to the empty text; a malformed one, or one that does not
/// decrypt to UTF-8 text, is a `Crypto` error.
pub fn decrypt(password: &str, stored: &str) -> (r: Result<String, Error>)
    ensures
        match opened_text(password@, stored@) {
            Some(t) => r is Ok && r->Ok_0@ == t,
            None => r is Err && r->Err_0 is Crypto,
        },
{
    if stored.unicode_len() == 0 {
        return Ok(String::new());
    }
    let data = match hex_decode(stored) {
        Some(d) => d,
        None => return Err(Error::Crypto),
    };
    if data.len() < 28 {
        return Err(Error::Crypto);
    }
    let ghost d = data@;
    let mut salt: Vec<u8> = Vec::new();
    let mut nonce: Vec<u8> = Vec::new();
    let mut ct: Vec<u8> = Vec::new();
    let mut i: usize = 0;
    while i < data.len()
        invariant
            d == data@,
            28 <= d.len(),
            i <= d.len(),
            salt@ == d.subrange(0, if i < 16 { i as int } else { 16 }),
            nonce@ == d.subrange(16, if i < 16 { 16 } else if i < 28 { i as int } else { 28 }),
            ct@ == d.subrange(28, if i < 28 { 28 } else { i as int }),
        decreases d.len() - i,
    {
        if i < 16 {
            salt.push(data[i]);
        } else if i < 28 {
            nonce.push(data[i]);
        } else {
            ct.push(data[i]);
        }
        i = i + 1;
        assert(salt@ =~= d.subrange(0, if i < 16 { i as int } else { 16 }));
        assert(nonce@ =~= d.subrange(16, if i < 16 { 16 } else if i < 28 { i as int } else { 28 }));
        assert(ct@ =~= d.subrange(28, if i < 28 { 28 } else { i as int }));
    }
    let key = match derive_key(password.as_bytes(), salt.as_slice()) {
        Some(k) => k,
        None => return Err(Error::Crypto),
    };
    let pt = match aes_open(&key, nonce.as_slice(), ct.as_slice()) {
        Some(p) => p,
        None => return Err(Error::Crypto),
    };
    match utf8_text(pt) {
        Some(t) => Ok(t),
        None => Err(Error::Crypto),
    }
}

} // verus!

use vstd::prelude::*;
use aes_gcm::aead::{Aead, KeyInit};
use sha2::Sha384;
use crate::error::Error;

verus! {

/// The authenticated ciphers a session may use.
#[derive(PartialEq, Eq, Structural, Clone, Copy, Debug)]
pub enum SymmetricAlgorithm {
    Aes256Gcm,
    ChaCha20Poly1305,
}

/// The length of the nonce that prefixes every ciphertext.
pub const NONCE_LEN: usize = 12;
/// The length of the derived symmetric key.
pub const KEY_LEN: usize = 32;
/// The length of the authentication tag that follows every ciphertext.
pub const TAG_LEN: usize = 16;
/// The length of the key-derivation salt.
pub const SALT_LEN: usize = 48;

/// AES-256-GCM encryption of `pt` under `key` and `nonce` (ciphertext and
/// tag), or nothing when the plaintext is too long for the cipher.
pub uninterp spec fn aes256gcm_sealed(key: Seq<u8>, nonce: Seq<u8>, pt: Seq<u8>) -> Option<Seq<u8>>;

/// AES-256-GCM decryption of `ct`, or nothing when it does not authenticate.
pub uninterp spec fn aes256gcm_opened(key: Seq<u8>, nonce: Seq<u8>, ct: Seq<u8>) -> Option<Seq<u8>>;

/// ChaCha20-Poly1305 encryption of `pt`, or nothing when it is too long.
pub uninterp spec fn chacha20poly1305_sealed(key: Seq<u8>, nonce: Seq<u8>, pt: Seq<u8>) -> Option<Seq<u8>>;

/// ChaCha20-Poly1305 decryption of `ct`, or nothing when it does not authenticate.
pub uninterp spec fn chacha20poly1305_opened(key: Seq<u8>, nonce: Seq<u8>, ct: Seq<u8>) -> Option<Seq<u8>>;

/// Encryption under the chosen algorithm.
pub open spec fn sealed_by(alg: SymmetricAlgorithm, key: Seq<u8>, nonce: Seq<u8>, pt: Seq<u8>) -> Option<Seq<u8>> {
    match alg {
        SymmetricAlgorithm::Aes256Gcm => aes256gcm_sealed(key, nonce, pt),
        SymmetricAlgorithm::ChaCha20Poly1305 => chacha20poly1305_sealed(key, nonce, pt),
    }
}

/// Decryption under the chosen algorithm.
pub open spec fn opened_by(alg: SymmetricAlgorithm, key: Seq<u8>, nonce: Seq<u8>, ct: Seq<u8>) -> Option<Seq<u8>> {
    match alg {
        SymmetricAlgorithm::Aes256Gcm => aes256gcm_opened(key, nonce, ct),
        SymmetricAlgorithm::ChaCha20Poly1305 => chacha20poly1305_opened(key, nonce, ct),
    }
}

/// Relies on aes-gcm's `Aes256Gcm::encrypt`, which fails only on a
/// plaintext longer than the cipher allows and appends a 16-byte tag.
#[verifier::external_body]
fn aes256gcm_encrypt(key: &[u8], nonce: &[u8], pt: &[u8]) -> (r: Option<Vec<u8>>)
    requires
        key@.len() == KEY_LEN,
        nonce@.len() == NONCE_LEN,
    ensures
        match r {
            Some(c) => aes256gcm_sealed(key@, nonce@, pt@) == Some(c@) && c@.len() == pt@.len() + TAG_LEN,
            None => aes256gcm_sealed(key@, nonce@, pt@) is None,
        },
{
    let cipher = aes_gcm::Aes256Gcm::new(aes_gcm::Key::<aes_gcm::Aes256Gcm>::from_slice(key));
    cipher.encrypt(aes_gcm::Nonce::from_slice(nonce), pt).ok()
}

/// Relies on aes-gcm's `Aes256Gcm::decrypt`: it fails when the tag does not
/// authenticate, and gives back what `encrypt` sealed under the same key and
/// nonce.
#[verifier::external_body]
fn aes256gcm_decrypt(key: &[u8], nonce: &[u8], ct: &[u8]) -> (r: Option<Vec<u8>>)
    requires
        key@.len() == KEY_LEN,
        nonce@.len() == NONCE_LEN,
    ensures
        match r {
            Some(p) => aes256gcm_opened(key@, nonce@, ct@) == Some(p@),
            None => aes256gcm_opened(key@, nonce@, ct@) is None,
        },
        forall|p: Seq<u8>| #[trigger] aes256gcm_sealed(key@, nonce@, p) == Some(ct@)
            ==> r is Some && r->Some_0@ == p,
{
    let cipher = aes_gcm::Aes256Gcm::new(aes_gcm::Key::<aes_gcm::Aes256Gcm>::from_slice(key));
    cipher.decrypt(aes_gcm::Nonce::from_slice(nonce), ct).ok()
}

/// Relies on chacha20poly1305's `ChaCha20Poly1305::encrypt`, which fails
/// only on a plaintext longer than the cipher allows and appends a 16-byte
/// tag.
#[verifier::external_body]
fn chacha20poly1305_encrypt(key: &[u8], nonce: &[u8], pt: &[u8]) -> (r: Option<Vec<u8>>)
    requires
        key@.len() == KEY_LEN,
        nonce@.len() == NONCE_LEN,
    ensures
        match r {
            Some(c) => chacha20poly1305_sealed(key@, nonce@, pt@) == Some(c@) && c@.len() == pt@.len() + TAG_LEN,
            None => chacha20poly1305_sealed(key@, nonce@, pt@) is None,
        },
{
    let cipher = chacha20poly1305::ChaCha20Poly1305::new(chacha20poly1305::Key::from_slice(key));
    cipher.encrypt(chacha20poly1305::Nonce::from_slice(nonce), pt).ok()
}

/// Relies on chacha20poly1305's `ChaCha20Poly1305::decrypt`: it fails when
/// the tag does not authenticate, and gives back what `encrypt` sealed
/// under the same key and nonce.
#[verifier::external_body]
fn chacha20poly1305_decrypt(key: &[u8], nonce: &[u8], ct: &[u8]) -> (r: Option<Vec<u8>>)
    requires
        key@.len() == KEY_LEN,
        nonce@.len() == NONCE_LEN,
    ensures
        match r {
            Some(p) => chacha20poly1305_opened(key@, nonce@, ct@) == Some(p@),
            None => chacha20poly1305_opened(key@, nonce@, ct@) is None,
        },
        forall|p: Seq<u8>| #[trigger] chacha20poly1305_sealed(key@, nonce@, p) == Some(ct@)
            ==> r is Some && r->Some_0@ == p,
{
    let cipher = chacha20poly1305::ChaCha20Poly1305::new(chacha20poly1305::Key::from_slice(key));
    cipher.decrypt(chacha20poly1305::Nonce::from_slice(nonce), ct).ok()
}

/// The 32-byte key derived by P-384 key agreement between the secret scalar
/// `secret` and the SEC1 public key `server_key`, through HKDF-SHA-384 with
/// `salt` and `info`; nothing when either key does not parse.
pub uninterp spec fn p384_ecdh_hkdf_sha384(secret: Seq<u8>, server_key: Seq<u8>, salt: Seq<u8>, info: Seq<u8>) -> Option<Seq<u8>>;

/// The uncompressed SEC1 public key of the secret scalar `secret`, or
/// nothing when it is not a valid secret key.
pub uninterp spec fn p384_public_key_sec1(secret: Seq<u8>) -> Option<Seq<u8>>;

/// Relies on p384's `SecretKey::from_slice`, `PublicKey::from_sec1_bytes`,
/// `ecdh::diffie_hellman` and `SharedSecret::extract::<Sha384>` then
/// `expand`: key agreement followed by HKDF-SHA-384. Expanding 32 bytes
/// never fails, so only a key that does not parse gives nothing.
#[verifier::external_body]
fn ecdh_hkdf_sha384(secret: &[u8], server_key: &[u8], salt: &[u8], info: &[u8]) -> (r: Option<Vec<u8>>)
    ensures
        match r {
            Some(k) => p384_ecdh_hkdf_sha384(secret@, server_key@, salt@, info@) == Some(k@) && k@.len() == KEY_LEN,
            None => p384_ecdh_hkdf_sha384(secret@, server_key@, salt@, info@) is None,
        },
{
    let secret = p384::SecretKey::from_slice(secret).ok()?;
    let server = p384::PublicKey::from_sec1_bytes(server_key).ok()?;
    let shared = p384::ecdh::diffie_hellman(secret.to_nonzero_scalar(), server.as_affine());
    let mut key = vec![0u8; 32];
    shared.extract::<Sha384>(Some(salt)).expand(info, &mut key).ok()?;
    Some(key)
}

/// Relies on p384's `SecretKey::from_slice`, `public_key` and
/// `to_sec1_bytes`, which encodes P-384 points uncompressed (97 bytes).
#[verifier::external_body]
fn public_key_sec1(secret: &[u8]) -> (r: Option<Vec<u8>>)
    ensures
        match r {
            Some(k) => p384_public_key_sec1(secret@) == Some(k@) && k@.len() == 97,
            None => p384_public_key_sec1(secret@) is None,
        },
{
    let secret = p384::SecretKey::from_slice(secret).ok()?;
    Some(secret.public_key().to_sec1_bytes().to_vec())
}

/// Derives the session key shared with the holder of `server_key`, and the
/// client's public key to send along. A key that does not parse is a
/// `CryptoError`.
pub fn agree_session_key(secret: &[u8], server_key: &[u8], salt: &[u8], info: &[u8]) -> (r: Result<(Vec<u8>, Vec<u8>), Error>)
    ensures
        match (p384_ecdh_hkdf_sha384(secret@, server_key@, salt@, info@), p384_public_key_sec1(secret@)) {
            (Some(k), Some(p)) => r is Ok && r->Ok_0.0@ == k && r->Ok_0.1@ == p
                && k.len() == KEY_LEN && p.len() == 97,
            _ => r is Err && r->Err_0 is CryptoError,
        },
{
    let key = match ecdh_hkdf_sha384(secret, server_key, salt, info) {
        Some(k) => k,
        None => return Err(Error::CryptoError("The key agreement failed".to_owned())),
    };
    match public_key_sec1(secret) {
        Some(p) => Ok((key, p)),
        None => Err(Error::CryptoError("The ephemeral secret key is invalid".to_owned())),
    }
}

impl SymmetricAlgorithm {
    /// The hardware-accelerated cipher when the platform offers AES
    /// instructions, the portable one otherwise.
    pub fn for_platform(aes_accelerated: bool) -> (r: SymmetricAlgorithm)
        ensures
            aes_accelerated ==> r == SymmetricAlgorithm::Aes256Gcm,
            !aes_accelerated ==> r == SymmetricAlgorithm::ChaCha20Poly1305,
    {
        if aes_accelerated {
            SymmetricAlgorithm::Aes256Gcm
        } else {
            SymmetricAlgorithm::ChaCha20Poly1305
        }
    }

    /// The name the server knows the algorithm by.
    pub fn name(&self) -> (r: &'static str)
        ensures
            *self == SymmetricAlgorithm::Aes256Gcm ==> r@ == "aes-256-gcm"@,
            *self == SymmetricAlgorithm::ChaCha20Poly1305 ==> r@ == "chacha20-poly1305"@,
    {
        match self {
            SymmetricAlgorithm::Aes256Gcm => "aes-256-gcm",
            SymmetricAlgorithm::ChaCha20Poly1305 => "chacha20-poly1305",
        }
    }
}

/// Copies `b[start..end]` into a new vector.
pub fn copy_range(b: &[u8], start: usize, end: usize) -> (r: Vec<u8>)
    requires
        start <= end <= b@.len(),
    ensures
        r@ == b@.subrange(start as int, end as int),
{
    let mut r: Vec<u8> = Vec::new();
    let mut i: usize = start;
    while i < end
        invariant
            start <= i <= end,
            end <= b@.len(),
            r@ == b@.subrange(start as int, i as int),
        decreases end - i,
    {
        r.push(b[i]);
        i = i + 1;
        assert(r@ =~= b@.subrange(start as int, i as int));
    }
    r
}

/// Encrypts a payload and prefixes the nonce: `nonce ‖ ciphertext`.
pub fn seal_payload(alg: SymmetricAlgorithm, key: &[u8], nonce: &[u8], payload: &[u8]) -> (r: Result<Vec<u8>, Error>)
    requires
        key@.len() == KEY_LEN,
        nonce@.len() == NONCE_LEN,
    ensures
        match sealed_by(alg, key@, nonce@, payload@) {
            Some(c) => r is Ok && r->Ok_0@ == nonce@ + c && c.len() == payload@.len() + TAG_LEN,
            None => r is Err && r->Err_0 is CryptoError,
        },
{
    let sealed = match alg {
        SymmetricAlgorithm::Aes256Gcm => aes256gcm_encrypt(key, nonce, payload),
        SymmetricAlgorithm::ChaCha20Poly1305 => chacha20poly1305_encrypt(key, nonce, payload),
    };
    match sealed {
        Some(c) => {
            let mut out = copy_range(nonce, 0, NONCE_LEN);
            assert(nonce@.subrange(0, 12) =~= nonce@);
            let mut i: usize = 0;
            while i < c.len()
                invariant
                    i <= c@.len(),
                    out@ == nonce@ + c@.subrange(0, i as int),
                decreases c@.len() - i,
            {
                out.push(c[i]);
                i = i + 1;
                assert(out@ =~= nonce@ + c@.subrange(0, i as int));
            }
            assert(c@.subrange(0, c@.len() as int) =~= c@);
            Ok(out)
        },
        None => Err(Error::CryptoError("The payload could not be encrypted".to_owned())),
    }
}

/// Splits `nonce ‖ ciphertext` and decrypts it.
///
/// Data shorter than a nonce, or a ciphertext that does not authenticate,
/// is a `CryptoError`. Whatever was sealed under the same algorithm, key and
/// nonce comes back unchanged.
pub fn open_payload(alg: SymmetricAlgorithm, key: &[u8], data: &[u8]) -> (r: Result<Vec<u8>, Error>)
    requires
        key@.len() == KEY_LEN,
    ensures
        data@.len() < NONCE_LEN ==> r is Err && r->Err_0 is CryptoError,
        data@.len() >= NONCE_LEN ==> match opened_by(
            alg,
            key@,
            data@.subrange(0, NONCE_LEN as int),
            data@.subrange(NONCE_LEN as int, data@.len() as int),
        ) {
            Some(p) => r is Ok && r->Ok_0@ == p,
            None => r is Err && r->Err_0 is CryptoError,
        },
        forall|p: Seq<u8>|
            data@.len() >= NONCE_LEN && #[trigger] sealed_by(
                alg,
                key@,
                data@.subrange(0, NONCE_LEN as int),
                p,
            ) == Some(data@.subrange(NONCE_LEN as int, data@.len() as int))
                ==> r is Ok && r->Ok_0@ == p,
{
    if data.len() < NONCE_LEN {
        return Err(Error::CryptoError("The ciphertext is shorter than its nonce".to_owned()));
    }
    let nonce = copy_range(data, 0, NONCE_LEN);
    let ct = copy_range(data, NONCE_LEN, data.len());
    let opened = match alg {
        SymmetricAlgorithm::Aes256Gcm => aes256gcm_decrypt(key, nonce.as_slice(), ct.as_slice()),
        SymmetricAlgorithm::ChaCha20Poly1305 => chacha20poly1305_decrypt(key, nonce.as_slice(), ct.as_slice()),
    };
    match opened {
        Some(p) => Ok(p),
        None => Err(Error::CryptoError("The response could not be decrypted".to_owned())),
    }
}

} // verus!

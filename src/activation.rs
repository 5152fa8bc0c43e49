use vstd::prelude::*;
use vstd::utf8::encode_utf8;
use crate::codec::{agree_session_key, open_payload, opened_by, p384_ecdh_hkdf_sha384, p384_public_key_sec1, seal_payload, sealed_by, SymmetricAlgorithm, KEY_LEN, NONCE_LEN, SALT_LEN};
use crate::crypto::{base64_no_pad_decode, decode_base64_no_pad, p384_sha384_der_verifies, verify_sha384_der_signature};
use crate::error::{licensing_error_from, Error, LicensingError};
use crate::model::{has_key, is_listed, listed, ActivationResponse, EcdhKey, EcdsaKey, PersistedLicenseState};

verus! {

/// The context string of the key derivation.
pub const KDF_INFO: &'static str = "Software Licensor Authentication v2";

/// Whether an activation for `requested` covers `id`: asked for now, or
/// already known to the cache by a key file or a licensing error.
pub open spec fn covered(state: PersistedLicenseState, requested: Seq<String>, id: Seq<char>) -> bool {
    ||| listed(requested, id)
    ||| match state.license_activation_response {
        Some(resp) => has_key(resp.key_files@, id) || has_key(resp.licensing_errors@, id),
        None => false,
    }
}

/// Whether no id occurs twice.
pub open spec fn distinct_ids(ids: Seq<String>) -> bool {
    forall|i: int, j: int| 0 <= i < j < ids.len() ==> #[trigger] ids[i]@ != #[trigger] ids[j]@
}

proof fn lemma_listed_push(s: Seq<String>, e: String)
    ensures
        forall|x: Seq<char>| #[trigger] listed(s.push(e), x) <==> (listed(s, x) || x == e@),
{
    assert forall|x: Seq<char>| #[trigger] listed(s.push(e), x) <==> (listed(s, x) || x == e@) by {
        if listed(s.push(e), x) {
            let j = choose|j: int| 0 <= j < s.len() + 1 && #[trigger] s.push(e)[j]@ == x;
            if j < s.len() {
                assert(s[j]@ == x);
            }
        }
        if listed(s, x) {
            let j = choose|j: int| 0 <= j < s.len() && #[trigger] s[j]@ == x;
            assert(s.push(e)[j]@ == x);
        }
        if x == e@ {
            assert(s.push(e)[s.len() as int]@ == x);
        }
    }
}

fn push_new(ids: &mut Vec<String>, id: &String)
    requires
        distinct_ids(old(ids)@),
    ensures
        distinct_ids(final(ids)@),
        forall|x: Seq<char>| listed(final(ids)@, x) <==> (listed(old(ids)@, x) || x == id@),
{
    if !is_listed(ids, id) {
        ids.push(id.clone());
        proof {
            lemma_listed_push(old(ids)@, *id);
        }
    }
}

fn push_keys<V>(ids: &mut Vec<String>, entries: &Vec<(String, V)>)
    requires
        distinct_ids(old(ids)@),
    ensures
        distinct_ids(final(ids)@),
        forall|x: Seq<char>| listed(final(ids)@, x) <==> (listed(old(ids)@, x) || has_key(entries@, x)),
{
    let mut i: usize = 0;
    while i < entries.len()
        invariant
            i <= entries@.len(),
            distinct_ids(ids@),
            forall|x: Seq<char>| listed(ids@, x) <==> (listed(old(ids)@, x) || has_key(entries@.subrange(0, i as int), x)),
        decreases entries@.len() - i,
    {
        push_new(ids, &entries[i].0);
        proof {
            assert forall|x: Seq<char>| has_key(entries@.subrange(0, i + 1), x) <==> (has_key(entries@.subrange(0, i as int), x) || x == entries@[i as int].0@) by {
                if has_key(entries@.subrange(0, i + 1), x) {
                    let j = choose|j: int| 0 <= j < i + 1 && #[trigger] entries@.subrange(0, i + 1)[j].0@ == x;
                    if j < i {
                        assert(entries@.subrange(0, i as int)[j].0@ == x);
                    }
                }
                if has_key(entries@.subrange(0, i as int), x) {
                    let j = choose|j: int| 0 <= j < i && #[trigger] entries@.subrange(0, i as int)[j].0@ == x;
                    assert(entries@.subrange(0, i + 1)[j].0@ == x);
                }
                if x == entries@[i as int].0@ {
                    assert(entries@.subrange(0, i + 1)[i as int].0@ == x);
                }
            }
        }
        i = i + 1;
    }
    assert(entries@.subrange(0, entries@.len() as int) =~= entries@);
}

/// Every product id an activation must cover, each once: the requested
/// ones and those the cache already holds a key file or an error for.
pub fn all_product_ids(state: &PersistedLicenseState, requested: &Vec<String>) -> (r: Vec<String>)
    ensures
        distinct_ids(r@),
        forall|x: Seq<char>| listed(r@, x) <==> covered(*state, requested@, x),
{
    let mut ids: Vec<String> = Vec::new();
    let mut i: usize = 0;
    while i < requested.len()
        invariant
            i <= requested@.len(),
            distinct_ids(ids@),
            forall|x: Seq<char>| listed(ids@, x) <==> listed(requested@.subrange(0, i as int), x),
        decreases requested@.len() - i,
    {
        push_new(&mut ids, &requested[i]);
        proof {
            assert(requested@.subrange(0, i + 1) =~= requested@.subrange(0, i as int).push(requested@[i as int]));
            lemma_listed_push(requested@.subrange(0, i as int), requested@[i as int]);
        }
        i = i + 1;
    }
    assert(requested@.subrange(0, requested@.len() as int) =~= requested@);
    match &state.license_activation_response {
        Some(resp) => {
            push_keys(&mut ids, &resp.key_files);
            push_keys(&mut ids, &resp.licensing_errors);
        },
        None => {},
    }
    ids
}

/// The first step of an activation: records the license code and gathers
/// the product ids to ask about. With none, there is no license to check.
pub fn prepare_activation(state: &mut PersistedLicenseState, license_code: &str, requested: &Vec<String>) -> (r: Result<Vec<String>, Error>)
    ensures
        final(state).license_code@ == license_code@,
        final(state).next_server_ecdh_key == old(state).next_server_ecdh_key,
        final(state).server_ecdsa_key == old(state).server_ecdsa_key,
        final(state).license_activation_response == old(state).license_activation_response,
        final(state).machine_stats == old(state).machine_stats,
        match r {
            Ok(ids) => ids@.len() > 0 && distinct_ids(ids@)
                && forall|x: Seq<char>| listed(ids@, x) <==> covered(*old(state), requested@, x),
            Err(e) => (forall|x: Seq<char>| !covered(*old(state), requested@, x))
                && e is LicensingError && e->LicensingError_0 is NoLicenseFound
                && e->LicensingError_0->NoLicenseFound_0@.len() == 0,
        },
{
    let ids = all_product_ids(state, requested);
    state.license_code = license_code.to_owned();
    if ids.len() == 0 {
        proof {
            assert forall|x: Seq<char>| !covered(*old(state), requested@, x) by {
                assert(!listed(ids@, x));
            }
        }
        return Err(Error::LicensingError(LicensingError::NoLicenseFound(String::new())));
    }
    Ok(ids)
}

/// The decimal value of a string of digits.
pub open spec fn digits_value(s: Seq<char>) -> int
    decreases s.len(),
{
    if s.len() == 0 {
        0
    } else {
        digits_value(s.drop_last()) * 10 + (s.last() as int - '0' as int)
    }
}

/// What `str::parse::<u32>` gives: an optional `+`, then one or more ASCII
/// digits whose value fits in 32 bits.
pub open spec fn decimal_u32(s: Seq<char>) -> Option<u32> {
    let d = if s.len() > 0 && s[0] == '+' { s.drop_first() } else { s };
    if d.len() > 0 && (forall|i: int| 0 <= i < d.len() ==> '0' <= #[trigger] d[i] <= '9')
        && digits_value(d) <= u32::MAX {
        Some(digits_value(d) as u32)
    } else {
        None
    }
}

/// Relies on `str::parse::<u32>`, whose grammar is the one `decimal_u32` states.
#[verifier::external_body]
fn parse_decimal_u32(s: &str) -> (r: Option<u32>)
    ensures
        r == decimal_u32(s@),
{
    s.parse::<u32>().ok()
}

/// The error of a response whose status is not success: a bare decimal code
/// is a licensing condition for the license code, anything else is text
/// from the server.
pub fn failure_error(body: &str, license_code: &str) -> (r: Error)
    ensures
        match decimal_u32(body@) {
            Some(code) => r is LicensingError && r->LicensingError_0 == licensing_error_from(
                code,
                r->LicensingError_0.license(),
            ) && r->LicensingError_0.license()@ == license_code@,
            None => r is ApiError && r->ApiError_0@ == body@,
        },
{
    match parse_decimal_u32(body) {
        Some(code) => Error::LicensingError(LicensingError::from_code(code, license_code.to_owned())),
        None => Error::ApiError(body.to_owned()),
    }
}

/// Whether a signed response passes: the header is present, decodes from
/// unpadded base64, and verifies over the body under the server's key.
pub open spec fn response_signed(state: PersistedLicenseState, header: Option<Seq<u8>>, body: Seq<u8>) -> bool {
    &&& header is Some
    &&& base64_no_pad_decode(header->Some_0) is Some
    &&& state.server_ecdsa_key is Some
    &&& p384_sha384_der_verifies(
        state.server_ecdsa_key->Some_0.ecdsa_public_key@,
        body,
        base64_no_pad_decode(header->Some_0)->Some_0,
    )
}

/// Checks the detached signature of a successful response before anything
/// in it is read. Every failure is a protocol error.
pub fn verify_response(state: &PersistedLicenseState, signature_header: Option<&[u8]>, body: &[u8]) -> (r: Result<(), Error>)
    ensures
        r is Ok <==> response_signed(*state, match signature_header {
            Some(h) => Some(h@),
            None => None,
        }, body@),
        r is Err ==> r->Err_0 is ApiError,
{
    let header = match signature_header {
        Some(h) => h,
        None => return Err(Error::ApiError("The X-Signature header was missing".to_owned())),
    };
    let der = match decode_base64_no_pad(header) {
        Some(v) => v,
        None => return Err(Error::ApiError("The signature was not base64 decodable".to_owned())),
    };
    let key = match &state.server_ecdsa_key {
        Some(k) => k,
        None => return Err(Error::ApiError("The server's ECDSA key was missing".to_owned())),
    };
    if verify_sha384_der_signature(key.ecdsa_public_key.as_slice(), body, der.as_slice()) {
        Ok(())
    } else {
        Err(Error::ApiError("The signature did not match in the server's response".to_owned()))
    }
}

/// Stores the key the server designated for the next request.
pub fn rotate_ecdh_key(state: &mut PersistedLicenseState, next_key: Option<EcdhKey>) -> (r: Result<(), Error>)
    ensures
        match next_key {
            Some(k) => r is Ok && final(state).next_server_ecdh_key == Some(k),
            None => r is Err && r->Err_0 is OptionError && final(state).next_server_ecdh_key == old(state).next_server_ecdh_key,
        },
        final(state).license_code == old(state).license_code,
        final(state).server_ecdsa_key == old(state).server_ecdsa_key,
        final(state).license_activation_response == old(state).license_activation_response,
        final(state).machine_stats == old(state).machine_stats,
{
    match next_key {
        Some(k) => {
            state.next_server_ecdh_key = Some(k);
            Ok(())
        },
        None => Err(Error::OptionError("The response's ECDH key was None".to_owned())),
    }
}

/// Replaces the cached activation response wholesale.
pub fn store_response(state: &mut PersistedLicenseState, response: ActivationResponse)
    ensures
        final(state).license_activation_response == Some(response),
        final(state).license_code == old(state).license_code,
        final(state).next_server_ecdh_key == old(state).next_server_ecdh_key,
        final(state).server_ecdsa_key == old(state).server_ecdsa_key,
        final(state).machine_stats == old(state).machine_stats,
{
    state.license_activation_response = Some(response);
}

/// Whether the server's signing key must be fetched again before a request:
/// it has expired. Its absence is an error.
pub fn ecdsa_key_expired(state: &PersistedLicenseState, now: u64) -> (r: Result<bool, Error>)
    ensures
        match state.server_ecdsa_key {
            Some(k) => r == Ok::<bool, Error>(k.expiration < now),
            None => r is Err && r->Err_0 is OptionError,
        },
{
    match &state.server_ecdsa_key {
        Some(k) => Ok(k.expiration < now),
        None => Err(Error::OptionError("The server's ECDSA key was missing in the license file".to_owned())),
    }
}

/// The position of the key-agreement key taken from a repository of `len`
/// keys with the random value `random`: its low bits, which is uniform
/// when `len` is a power of two.
pub open spec fn ecdh_key_index(random: u32, len: usize) -> usize {
    (random as usize) & ((len - 1) as usize)
}

/// Applies a fetched public key repository: the signing key always, and a
/// key-agreement key picked at random when one is needed. A repository
/// without a signing key, or without key-agreement keys when one is needed,
/// is refused and nothing changes.
pub fn apply_pubkey_repo(
    state: &mut PersistedLicenseState,
    ecdsa_key: Option<EcdsaKey>,
    ecdh_keys: Vec<EcdhKey>,
    need_new_ecdh: bool,
    random: u32,
) -> (r: Result<(), Error>)
    ensures
        (ecdsa_key is None || (need_new_ecdh && ecdh_keys@.len() == 0)) ==> (r is Err
            && r->Err_0 is ApiError && *final(state) == *old(state)),
        !(ecdsa_key is None || (need_new_ecdh && ecdh_keys@.len() == 0)) ==> {
            &&& r is Ok
            &&& final(state).server_ecdsa_key == ecdsa_key
            &&& need_new_ecdh ==> ecdh_key_index(random, ecdh_keys@.len() as usize) < ecdh_keys@.len()
                && final(state).next_server_ecdh_key == Some(
                ecdh_keys@[ecdh_key_index(random, ecdh_keys@.len() as usize) as int],
            )
            &&& !need_new_ecdh ==> final(state).next_server_ecdh_key == old(state).next_server_ecdh_key
            &&& final(state).license_code == old(state).license_code
            &&& final(state).license_activation_response == old(state).license_activation_response
            &&& final(state).machine_stats == old(state).machine_stats
        },
{
    if ecdsa_key.is_none() || (need_new_ecdh && ecdh_keys.len() == 0) {
        return Err(Error::ApiError("Pubkey repo was not decodable".to_owned()));
    }
    if need_new_ecdh {
        let len = ecdh_keys.len();
        let idx = (random as usize) & (len - 1);
        assert((random as usize) & ((len - 1) as usize) <= ((len - 1) as usize)) by (bit_vector);
        let mut keys = ecdh_keys;
        let key = keys.swap_remove(idx);
        state.next_server_ecdh_key = Some(key);
    }
    state.server_ecdsa_key = ecdsa_key;
    Ok(())
}

/// How the server recovers the session key of a request.
#[derive(Clone, Debug)]
pub struct DecryptInfo {
    pub server_ecdh_key_id: String,
    pub ecdh_info: Vec<u8>,
    pub ecdh_salt: Vec<u8>,
    /// The client's ephemeral public key, uncompressed SEC1.
    pub client_ecdh_pubkey: Vec<u8>,
}

/// The outer record of an activation request.
#[derive(Clone, Debug)]
pub struct RequestEnvelope {
    pub symmetric_algorithm: String,
    pub client_id: String,
    /// `nonce ‖ ciphertext` of the encoded inner request.
    pub data: Vec<u8>,
    pub decryption_info: DecryptInfo,
    pub server_ecdsa_key_id: String,
    pub timestamp: u64,
}

/// The per-request secrets: the algorithm, the derived key, its salt, the
/// nonce, and the client's ephemeral public key.
#[derive(Clone, Debug)]
pub struct Session {
    pub algorithm: SymmetricAlgorithm,
    pub key: Vec<u8>,
    pub salt: Vec<u8>,
    pub nonce: Vec<u8>,
    pub client_public_key: Vec<u8>,
}

impl Session {
    pub open spec fn wf(&self) -> bool {
        &&& self.key@.len() == KEY_LEN
        &&& self.salt@.len() == SALT_LEN
        &&& self.nonce@.len() == NONCE_LEN
    }
}

/// Opens a session for one request: key agreement between the ephemeral
/// secret scalar `secret` and the server's designated key-agreement key,
/// with a fresh salt and nonce. The designated key must be known.
pub fn start_session(
    state: &PersistedLicenseState,
    algorithm: SymmetricAlgorithm,
    secret: &[u8],
    salt: &[u8],
    nonce: &[u8],
) -> (r: Result<Session, Error>)
    requires
        salt@.len() == SALT_LEN,
        nonce@.len() == NONCE_LEN,
    ensures
        match state.next_server_ecdh_key {
            None => r is Err && r->Err_0 is OptionError,
            Some(server) => match (
                p384_ecdh_hkdf_sha384(secret@, server.ecdh_public_key@, salt@, encode_utf8(KDF_INFO@)),
                p384_public_key_sec1(secret@),
            ) {
                (Some(k), Some(p)) => r is Ok && {
                    let s = r->Ok_0;
                    &&& s.wf()
                    &&& s.algorithm == algorithm
                    &&& s.key@ == k
                    &&& s.salt@ == salt@
                    &&& s.nonce@ == nonce@
                    &&& s.client_public_key@ == p
                },
                _ => r is Err && r->Err_0 is CryptoError,
            },
        },
{
    let server = match &state.next_server_ecdh_key {
        Some(k) => k,
        None => return Err(Error::OptionError("The next ECDH key was missing in the license file".to_owned())),
    };
    let (key, client_public_key) = agree_session_key(secret, server.ecdh_public_key.as_slice(), salt, KDF_INFO.as_bytes())?;
    let salt_len = salt.len();
    let nonce_len = nonce.len();
    let salt_copy = crate::codec::copy_range(salt, 0, salt_len);
    let nonce_copy = crate::codec::copy_range(nonce, 0, nonce_len);
    assert(salt@.subrange(0, salt_len as int) =~= salt@);
    assert(nonce@.subrange(0, nonce_len as int) =~= nonce@);
    Ok(Session { algorithm, key, salt: salt_copy, nonce: nonce_copy, client_public_key })
}

/// Encrypts the encoded inner request and packages it with what the server
/// needs to decrypt it. The key-agreement key must be known, and the
/// signing key too.
pub fn build_request(
    state: &PersistedLicenseState,
    session: &Session,
    store_id: &str,
    inner_payload: &[u8],
    now: u64,
) -> (r: Result<RequestEnvelope, Error>)
    requires
        session.wf(),
    ensures
        (state.next_server_ecdh_key is None || state.server_ecdsa_key is None) ==> r is Err && r->Err_0 is OptionError,
        state.next_server_ecdh_key is Some && state.server_ecdsa_key is Some ==> match sealed_by(
            session.algorithm,
            session.key@,
            session.nonce@,
            inner_payload@,
        ) {
            None => r is Err && r->Err_0 is CryptoError,
            Some(c) => r is Ok && {
                let env = r->Ok_0;
                &&& env.data@ == session.nonce@ + c
                &&& env.symmetric_algorithm@ == (if session.algorithm == SymmetricAlgorithm::Aes256Gcm {
                    "aes-256-gcm"@
                } else {
                    "chacha20-poly1305"@
                })
                &&& env.client_id@ == store_id@
                &&& env.decryption_info.server_ecdh_key_id == state.next_server_ecdh_key->Some_0.ecdh_key_id
                &&& env.decryption_info.ecdh_info@ == encode_utf8(KDF_INFO@)
                &&& env.decryption_info.ecdh_salt@ == session.salt@
                &&& env.decryption_info.client_ecdh_pubkey@ == session.client_public_key@
                &&& env.server_ecdsa_key_id == state.server_ecdsa_key->Some_0.ecdsa_key_id
                &&& env.timestamp == now
            },
        },
{
    let ecdh_key = match &state.next_server_ecdh_key {
        Some(k) => k,
        None => return Err(Error::OptionError("The next ECDH key was missing in the license file".to_owned())),
    };
    let ecdsa_key = match &state.server_ecdsa_key {
        Some(k) => k,
        None => return Err(Error::OptionError("The server's ECDSA key was missing in the license file".to_owned())),
    };
    let data = seal_payload(session.algorithm, session.key.as_slice(), session.nonce.as_slice(), inner_payload)?;
    let info = KDF_INFO.as_bytes();
    let info_len = info.len();
    let ecdh_info = crate::codec::copy_range(info, 0, info_len);
    let salt = crate::codec::copy_range(session.salt.as_slice(), 0, SALT_LEN);
    let client_key_len = session.client_public_key.len();
    let client_key = crate::codec::copy_range(session.client_public_key.as_slice(), 0, client_key_len);
    assert(info@.subrange(0, info_len as int) =~= info@);
    assert(session.salt@.subrange(0, SALT_LEN as int) =~= session.salt@);
    assert(session.client_public_key@.subrange(0, client_key_len as int) =~= session.client_public_key@);
    Ok(RequestEnvelope {
        symmetric_algorithm: session.algorithm.name().to_owned(),
        client_id: store_id.to_owned(),
        data,
        decryption_info: DecryptInfo {
            server_ecdh_key_id: ecdh_key.ecdh_key_id.clone(),
            ecdh_info,
            ecdh_salt: salt,
            client_ecdh_pubkey: client_key,
        },
        server_ecdsa_key_id: ecdsa_key.ecdsa_key_id.clone(),
        timestamp: now,
    })
}

/// Takes in the decoded envelope of a verified response: stores the key the
/// server designated for the next request, then decrypts the payload with
/// the session's key and algorithm. A missing next key is an error and
/// nothing is decrypted; the key stays rotated when decryption fails. What
/// was sealed under the session's key and the data's nonce comes back.
pub fn accept_envelope(
    state: &mut PersistedLicenseState,
    session: &Session,
    next_key: Option<EcdhKey>,
    data: &[u8],
) -> (r: Result<Vec<u8>, Error>)
    requires
        session.wf(),
    ensures
        final(state).license_code == old(state).license_code,
        final(state).server_ecdsa_key == old(state).server_ecdsa_key,
        final(state).license_activation_response == old(state).license_activation_response,
        final(state).machine_stats == old(state).machine_stats,
        match next_key {
            None => final(state).next_server_ecdh_key == old(state).next_server_ecdh_key
                && r is Err && r->Err_0 is OptionError,
            Some(k) => final(state).next_server_ecdh_key == Some(k) && {
                if data@.len() < NONCE_LEN {
                    r is Err && r->Err_0 is CryptoError
                } else {
                    match opened_by(
                        session.algorithm,
                        session.key@,
                        data@.subrange(0, NONCE_LEN as int),
                        data@.subrange(NONCE_LEN as int, data@.len() as int),
                    ) {
                        Some(p) => r is Ok && r->Ok_0@ == p,
                        None => r is Err && r->Err_0 is CryptoError,
                    }
                }
            },
        },
        forall|p: Seq<u8>|
            next_key is Some && data@.len() >= NONCE_LEN && #[trigger] sealed_by(
                session.algorithm,
                session.key@,
                data@.subrange(0, NONCE_LEN as int),
                p,
            ) == Some(data@.subrange(NONCE_LEN as int, data@.len() as int))
                ==> r is Ok && r->Ok_0@ == p,
{
    rotate_ecdh_key(state, next_key)?;
    open_payload(session.algorithm, session.key.as_slice(), data)
}

} // verus!

use vstd::prelude::*;
use crate::crypto::{base64_standard_decode, decode_base64_standard, p384_sha384_verifies, verify_sha384_signature};
use crate::error::{is_no_license_found, Error, LicensingError};
use crate::license_data::{reports, LicenseData};
use crate::model::{find_entry, has_key, listed, lookup, utf8_len, without_ids, KeyFile, PersistedLicenseState};
use crate::selection::{get_latest_key_file, purged, remove_key_files, selection_spec};
use crate::wire::{encode_key_file, key_file_wire};

verus! {

/// The shortest license code that the cache may hold, in bytes.
pub const MIN_LICENSE_CODE_LEN: usize = 16;

/// One license check: the products asked about, each with the base64
/// public key that signs its key files, the machine, and whether the
/// server may be contacted.
#[derive(Debug)]
pub struct CheckQuery {
    pub product_ids_and_pubkeys: Vec<(String, String)>,
    pub machine_id: String,
    pub allow_network: bool,
}

/// The product ids of the pairs, in order.
pub open spec fn keys_of(pairs: Seq<(String, String)>) -> Seq<String> {
    pairs.map_values(|p: (String, String)| p.0)
}

impl CheckQuery {
    pub open spec fn ids(&self) -> Seq<String> {
        keys_of(self.product_ids_and_pubkeys@)
    }

    /// The product ids asked about.
    pub fn product_ids(&self) -> (r: Vec<String>)
        ensures
            r@ == self.ids(),
    {
        let pairs = &self.product_ids_and_pubkeys;
        let mut r: Vec<String> = Vec::new();
        let mut i: usize = 0;
        while i < pairs.len()
            invariant
                i <= pairs@.len(),
                r@ == keys_of(pairs@.subrange(0, i as int)),
            decreases pairs@.len() - i,
        {
            r.push(pairs[i].0.clone());
            i = i + 1;
            assert(r@ =~= keys_of(pairs@.subrange(0, i as int)));
        }
        assert(pairs@.subrange(0, pairs@.len() as int) =~= pairs@);
        r
    }
}

/// Whether `entry` is `id;key` with no other semicolon.
pub open spec fn product_key_parts(entry: Seq<char>, id: Seq<char>, key: Seq<char>) -> bool {
    &&& entry == id + seq![';'] + key
    &&& !id.contains(';')
    &&& !key.contains(';')
}

/// Relies on `str::split_once(';')`: the text before and after the first
/// semicolon, or nothing when there is none.
#[verifier::external_body]
fn split_at_semicolon(s: &str) -> (r: Option<(String, String)>)
    ensures
        match r {
            Some((a, b)) => s@ == a@ + seq![';'] + b@ && !a@.contains(';'),
            None => !s@.contains(';'),
        },
{
    s.split_once(';').map(|(a, b)| (a.to_owned(), b.to_owned()))
}

/// Reads a `product_id;pubkey` entry as passed by the host application:
/// exactly one semicolon, or nothing.
pub fn parse_product_key(entry: &str) -> (r: Option<(String, String)>)
    ensures
        match r {
            Some((id, key)) => product_key_parts(entry@, id@, key@),
            None => forall|id: Seq<char>, key: Seq<char>| !product_key_parts(entry@, id, key),
        },
{
    let (id, key) = match split_at_semicolon(entry) {
        Some(parts) => parts,
        None => {
            proof {
                assert forall|i: Seq<char>, k: Seq<char>| !product_key_parts(entry@, i, k) by {
                    if entry@ == i + seq![';'] + k {
                        assert(entry@[i.len() as int] == ';');
                    }
                }
            }
            return None;
        },
    };
    match split_at_semicolon(key.as_str()) {
        None => Some((id, key)),
        Some((c, _)) => {
            proof {
                assert(key@[c@.len() as int] == ';');
                assert(key@.contains(';'));
                assert forall|i: Seq<char>, k: Seq<char>| !product_key_parts(entry@, i, k) by {
                    if product_key_parts(entry@, i, k) {
                        let s = entry@;
                        if i.len() < id@.len() {
                            assert(s[i.len() as int] == ';');
                            assert(s[i.len() as int] == id@[i.len() as int]);
                            assert(id@.contains(';'));
                        } else if i.len() > id@.len() {
                            assert(s[id@.len() as int] == ';');
                            assert(s[id@.len() as int] == i[id@.len() as int]);
                            assert(i.contains(';'));
                        } else {
                            assert(k =~= s.subrange(i.len() as int + 1, s.len() as int));
                            assert(key@ =~= s.subrange(id@.len() as int + 1, s.len() as int));
                            assert(k == key@);
                        }
                    }
                }
            }
            None
        },
    }
}

/// Why a check asks for an activation, with the key file selected before it.
#[derive(Debug)]
pub enum CheckPhase {
    /// The selected key file has expired; its signature bytes are kept.
    Expired(KeyFile, Vec<u8>),
    /// The check-back time of the selected key file has passed.
    CheckBack(KeyFile, Vec<u8>),
}

/// What the caller does next.
#[derive(Debug)]
pub enum CheckAction {
    /// Run one activation for the query's products, then hand the phase and
    /// whether the activation succeeded to `resume_check`.
    Activate(CheckPhase),
    /// The check is over. When the flag is set the state was purged and must
    /// be saved before the result is returned.
    Finish(Result<LicenseData, Error>, bool),
}

/// The check ends with `NoLicenseFound` for `lc`, persisting as told.
pub open spec fn ends_no_license(a: CheckAction, lc: Seq<char>, persist: bool) -> bool {
    &&& a is Finish
    &&& a->Finish_1 == persist
    &&& a->Finish_0 is Err
    &&& is_no_license_found(a->Finish_0->Err_0, lc)
}

/// The check ends successfully, reporting `kf` with `code`.
pub open spec fn ends_reporting(a: CheckAction, state: PersistedLicenseState, kf: KeyFile, code: i32) -> bool {
    &&& a is Finish
    &&& !a->Finish_1
    &&& a->Finish_0 is Ok
    &&& reports(a->Finish_0->Ok_0, state, kf, code)
}

/// The check ends with the given licensing error.
pub open spec fn ends_licensing(a: CheckAction, e: LicensingError, persist: bool) -> bool {
    a == CheckAction::Finish(Err(Error::LicensingError(e)), persist)
}

/// The last steps of a check: the machine must match and the key file's
/// signature must verify under the product's public key. A machine
/// mismatch, a public key that does not decode, or a signature that does
/// not verify purges the requested products. A product without a public
/// key in the query ends the check without a purge.
pub open spec fn validation(
    before: PersistedLicenseState,
    after: PersistedLicenseState,
    query: CheckQuery,
    kf: KeyFile,
    sig: Seq<u8>,
    a: CheckAction,
) -> bool {
    let lc = before.license_code@;
    if query.machine_id@ != kf.machine_id@ {
        purged(before, after, query.ids()) && ends_no_license(a, lc, true)
    } else {
        match lookup(query.product_ids_and_pubkeys@, kf.product_id@) {
            None => after == before && ends_no_license(a, lc, false),
            Some(pk) => match base64_standard_decode(pk@) {
                None => purged(before, after, query.ids()) && ends_no_license(a, lc, true),
                Some(key) => if p384_sha384_verifies(key, key_file_wire(kf), sig) {
                    after == before && ends_reporting(a, before, kf, kf.message_code as i32)
                } else {
                    purged(before, after, query.ids()) && ends_no_license(a, lc, true)
                },
            },
        }
    }
}

/// The steps after the expiry test: a best-effort refresh when the
/// check-back time has passed and the network is allowed, else validation.
pub open spec fn after_expiry(
    before: PersistedLicenseState,
    after: PersistedLicenseState,
    query: CheckQuery,
    now: u64,
    kf: KeyFile,
    sig: Vec<u8>,
    a: CheckAction,
) -> bool {
    if kf.check_back_timestamp < now && query.allow_network {
        &&& after == before
        &&& a is Activate
        &&& a->Activate_0 is CheckBack
        &&& a->Activate_0->CheckBack_0 == kf
        &&& a->Activate_0->CheckBack_1@ == sig@
    } else {
        validation(before, after, query, kf, sig@, a)
    }
}

/// The contract of the first step of a check, given the selection `sel`.
pub open spec fn begin_outcome(
    before: PersistedLicenseState,
    after: PersistedLicenseState,
    query: CheckQuery,
    now: u64,
    sel: Result<(KeyFile, Vec<u8>), LicensingError>,
    a: CheckAction,
) -> bool {
    match sel {
        Err(e) => after == before && ends_licensing(a, e, false),
        Ok((kf, sig)) => if kf.message_code != 1 {
            after == before && ends_reporting(a, before, kf, kf.message_code as i32)
        } else if kf.expiration_timestamp < now {
            if query.allow_network {
                &&& after == before
                &&& a is Activate
                &&& a->Activate_0 is Expired
                &&& a->Activate_0->Expired_0 == kf
                &&& a->Activate_0->Expired_1@ == sig@
            } else {
                after == before && ends_reporting(a, before, kf, kf.post_expiration_error_code as i32)
            }
        } else {
            after_expiry(before, after, query, now, kf, sig, a)
        },
    }
}

/// The contract of a step after an activation, given the reselection `sel`.
pub open spec fn resume_outcome(
    before: PersistedLicenseState,
    after: PersistedLicenseState,
    query: CheckQuery,
    now: u64,
    phase: CheckPhase,
    sel: Result<(KeyFile, Vec<u8>), LicensingError>,
    a: CheckAction,
) -> bool {
    match sel {
        Err(e) => purged(before, after, query.ids()) && ends_licensing(a, e, true),
        Ok((kf, sig)) => match phase {
            CheckPhase::Expired(_, _) => if kf.message_code != 1 {
                after == before && ends_reporting(a, before, kf, kf.message_code as i32)
            } else if kf.expiration_timestamp < now {
                after == before && ends_reporting(a, before, kf, kf.post_expiration_error_code as i32)
            } else {
                validation(before, after, query, kf, sig@, a)
            },
            CheckPhase::CheckBack(_, _) => validation(before, after, query, kf, sig@, a),
        },
    }
}

/// Purges the requested products and turns the condition into an error.
pub fn handle_licensing_error(state: &mut PersistedLicenseState, product_ids: &Vec<String>, licensing_error: LicensingError) -> (r: Error)
    ensures
        purged(*old(state), *final(state), product_ids@),
        r == Error::LicensingError(licensing_error),
{
    remove_key_files(state, product_ids);
    Error::LicensingError(licensing_error)
}

fn no_license(state: &PersistedLicenseState) -> (r: Error)
    ensures
        is_no_license_found(r, state.license_code@),
{
    Error::LicensingError(LicensingError::NoLicenseFound(state.license_code.clone()))
}

/// Checks the machine and the signature of the selected key file.
fn validate_key_file(state: &mut PersistedLicenseState, query: &CheckQuery, kf: &KeyFile, sig: &Vec<u8>) -> (a: CheckAction)
    ensures
        validation(*old(state), *final(state), *query, *kf, sig@, a),
{
    let product_ids = query.product_ids();
    if query.machine_id != kf.machine_id {
        let e = no_license(state);
        remove_key_files(state, &product_ids);
        return CheckAction::Finish(Err(e), true);
    }
    let pubkey_b64 = match find_entry(&query.product_ids_and_pubkeys, &kf.product_id) {
        Some(i) => &query.product_ids_and_pubkeys[i].1,
        None => return CheckAction::Finish(Err(no_license(state)), false),
    };
    let decoded_pubkey = match decode_base64_standard(pubkey_b64.as_str()) {
        Some(v) => v,
        None => {
            let e = no_license(state);
            remove_key_files(state, &product_ids);
            return CheckAction::Finish(Err(e), true);
        },
    };
    let bytes = encode_key_file(kf);
    if verify_sha384_signature(decoded_pubkey.as_slice(), bytes.as_slice(), sig.as_slice()) {
        CheckAction::Finish(Ok(LicenseData::for_key_file(state, kf, #[verifier::truncate] (kf.message_code as i32))), false)
    } else {
        let e = no_license(state);
        remove_key_files(state, &product_ids);
        CheckAction::Finish(Err(e), true)
    }
}

fn continue_after_expiry(state: &mut PersistedLicenseState, query: &CheckQuery, now: u64, kf: KeyFile, sig: Vec<u8>) -> (a: CheckAction)
    ensures
        after_expiry(*old(state), *final(state), *query, now, kf, sig, a),
{
    if kf.check_back_timestamp < now && query.allow_network {
        CheckAction::Activate(CheckPhase::CheckBack(kf, sig))
    } else {
        validate_key_file(state, query, &kf, &sig)
    }
}

/// The first step of a license check against the cached state at `now`.
///
/// A license code shorter than 16 bytes means no license. Otherwise the key
/// file that applies is selected; an inactive one is reported at once; an
/// expired one is reported with its post-expiration code when the network
/// is not allowed, and otherwise asks for an activation; a passed check-back
/// time asks for a best-effort activation when the network is allowed; and
/// finally the machine and the signature are checked.
pub fn begin_check(state: &mut PersistedLicenseState, query: &CheckQuery, now: u64) -> (a: CheckAction)
    ensures
        utf8_len(old(state).license_code@) < MIN_LICENSE_CODE_LEN ==> (*final(state) == *old(state)
            && ends_no_license(a, old(state).license_code@, false)),
        utf8_len(old(state).license_code@) >= MIN_LICENSE_CODE_LEN ==> (exists|sel| selection_spec(*old(state), query.ids(), sel)
            && begin_outcome(*old(state), *final(state), *query, now, sel, a)),
{
    if state.license_code.as_str().len() < MIN_LICENSE_CODE_LEN {
        return CheckAction::Finish(Err(no_license(state)), false);
    }
    let product_ids = query.product_ids();
    let sel = get_latest_key_file(state, &product_ids);
    match sel {
        Err(e) => CheckAction::Finish(Err(Error::LicensingError(e)), false),
        Ok((kf, sig)) => {
            if kf.message_code != 1 {
                CheckAction::Finish(Ok(LicenseData::for_key_file(state, &kf, #[verifier::truncate] (kf.message_code as i32))), false)
            } else if kf.expiration_timestamp < now {
                if query.allow_network {
                    CheckAction::Activate(CheckPhase::Expired(kf, sig))
                } else {
                    CheckAction::Finish(
                        Ok(LicenseData::for_key_file(state, &kf, #[verifier::truncate] (kf.post_expiration_error_code as i32))),
                        false,
                    )
                }
            } else {
                continue_after_expiry(state, query, now, kf, sig)
            }
        },
    }
}

/// The step after an activation asked for by `phase`.
///
/// After a failed activation an expired key file is reported with its
/// post-expiration code, and a check-back refresh goes on with the key file
/// selected before. After a successful one the key file is selected anew: a
/// selection failure purges the requested products; an expired refresh that
/// is still inactive or expired is reported as such, and otherwise the key
/// file is validated at once: one check asks for at most one activation.
pub fn resume_check(state: &mut PersistedLicenseState, query: &CheckQuery, now: u64, phase: CheckPhase, activated: bool) -> (a: CheckAction)
    ensures
        !activated ==> match phase {
            CheckPhase::Expired(kf, _) => *final(state) == *old(state)
                && ends_reporting(a, *old(state), kf, kf.post_expiration_error_code as i32),
            CheckPhase::CheckBack(kf, sig) => validation(*old(state), *final(state), *query, kf, sig@, a),
        },
        activated ==> (exists|sel| selection_spec(*old(state), query.ids(), sel)
            && resume_outcome(*old(state), *final(state), *query, now, phase, sel, a)),
        a is Finish,
{
    if !activated {
        return match phase {
            CheckPhase::Expired(kf, _) => CheckAction::Finish(
                Ok(LicenseData::for_key_file(state, &kf, #[verifier::truncate] (kf.post_expiration_error_code as i32))),
                false,
            ),
            CheckPhase::CheckBack(kf, sig) => validate_key_file(state, query, &kf, &sig),
        };
    }
    let product_ids = query.product_ids();
    let sel = get_latest_key_file(state, &product_ids);
    match sel {
        Err(e) => {
            let err = handle_licensing_error(state, &product_ids, e);
            CheckAction::Finish(Err(err), true)
        },
        Ok((kf, sig)) => match phase {
            CheckPhase::Expired(_, _) => {
                if kf.message_code != 1 {
                    CheckAction::Finish(Ok(LicenseData::for_key_file(state, &kf, #[verifier::truncate] (kf.message_code as i32))), false)
                } else if kf.expiration_timestamp < now {
                    CheckAction::Finish(
                        Ok(LicenseData::for_key_file(state, &kf, #[verifier::truncate] (kf.post_expiration_error_code as i32))),
                        false,
                    )
                } else {
                    validate_key_file(state, query, &kf, &sig)
                }
            },
            CheckPhase::CheckBack(_, _) => validate_key_file(state, query, &kf, &sig),
        },
    }
}

/// Nothing cached for the products `ids` is left: no key file, no
/// signature and no licensing error.
pub open spec fn holds_nothing_for(state: PersistedLicenseState, ids: Seq<String>) -> bool {
    match state.license_activation_response {
        None => true,
        Some(resp) => forall|id: Seq<char>| #[trigger] listed(ids, id) ==> {
            &&& !has_key(resp.key_files@, id)
            &&& !has_key(resp.key_file_signatures@, id)
            &&& !has_key(resp.licensing_errors@, id)
        },
    }
}

proof fn lemma_without_ids_drops<V>(entries: Seq<(String, V)>, ids: Seq<String>, id: Seq<char>)
    requires
        listed(ids, id),
    ensures
        !has_key(without_ids(entries, ids), id),
    decreases entries.len(),
{
    if entries.len() > 0 {
        lemma_without_ids_drops(entries.drop_last(), ids, id);
        let rest = without_ids(entries.drop_last(), ids);
        if !listed(ids, entries.last().0@) {
            assert forall|i: int| 0 <= i < rest.push(entries.last()).len() implies #[trigger] rest.push(entries.last())[i].0@ != id by {
                if i < rest.len() {
                    assert(rest.push(entries.last())[i] == rest[i]);
                }
            }
        }
    }
}

/// A purge leaves nothing cached for the purged products.
pub proof fn lemma_purge_clears(before: PersistedLicenseState, after: PersistedLicenseState, ids: Seq<String>)
    requires
        purged(before, after, ids),
    ensures
        holds_nothing_for(after, ids),
{
    if let Some(b) = before.license_activation_response {
        assert forall|id: Seq<char>| #[trigger] listed(ids, id) implies {
            let a = after.license_activation_response->Some_0;
            &&& !has_key(a.key_files@, id)
            &&& !has_key(a.key_file_signatures@, id)
            &&& !has_key(a.licensing_errors@, id)
        } by {
            lemma_without_ids_drops(b.key_files@, ids, id);
            lemma_without_ids_drops(b.key_file_signatures@, ids, id);
            lemma_without_ids_drops(b.licensing_errors@, ids, id);
        }
    }
}

/// An active key file that has expired, checked without the network, is
/// reported with exactly its post-expiration code, the cache untouched and
/// no activation asked for.
pub proof fn lemma_expired_offline(
    before: PersistedLicenseState,
    after: PersistedLicenseState,
    query: CheckQuery,
    now: u64,
    kf: KeyFile,
    sig: Vec<u8>,
    a: CheckAction,
)
    requires
        kf.message_code == 1,
        kf.expiration_timestamp < now,
        !query.allow_network,
        begin_outcome(before, after, query, now, Ok((kf, sig)), a),
    ensures
        !(a is Activate),
        after == before,
        ends_reporting(a, before, kf, kf.post_expiration_error_code as i32),
{
}

/// A key file issued for another machine ends the check with
/// `NoLicenseFound`, and nothing stays cached for the requested products.
pub proof fn lemma_machine_mismatch(
    before: PersistedLicenseState,
    after: PersistedLicenseState,
    query: CheckQuery,
    kf: KeyFile,
    sig: Seq<u8>,
    a: CheckAction,
)
    requires
        query.machine_id@ != kf.machine_id@,
        validation(before, after, query, kf, sig, a),
    ensures
        ends_no_license(a, before.license_code@, true),
        holds_nothing_for(after, query.ids()),
{
    lemma_purge_clears(before, after, query.ids());
}

/// A key file whose signature does not verify under the product's public
/// key (an altered key file, or a signature of other bytes) ends the check
/// with `NoLicenseFound`, and nothing stays cached for the requested
/// products.
pub proof fn lemma_bad_signature_purges(
    before: PersistedLicenseState,
    after: PersistedLicenseState,
    query: CheckQuery,
    kf: KeyFile,
    sig: Seq<u8>,
    pubkey: String,
    a: CheckAction,
)
    requires
        query.machine_id@ == kf.machine_id@,
        lookup(query.product_ids_and_pubkeys@, kf.product_id@) == Some(pubkey),
        base64_standard_decode(pubkey@) is Some,
        !p384_sha384_verifies(base64_standard_decode(pubkey@)->Some_0, key_file_wire(kf), sig),
        validation(before, after, query, kf, sig, a),
    ensures
        ends_no_license(a, before.license_code@, true),
        holds_nothing_for(after, query.ids()),
{
    lemma_purge_clears(before, after, query.ids());
}

} // verus!

use vstd::prelude::*;
use crate::crypto::{p384_signature_valid, signature_bytes_valid};
use crate::error::{
    licensing_error_from, LicensingError, LICENSE_NO_LONGER_ACTIVE, MACHINE_LIMIT_REACHED,
    TRIAL_ENDED,
};
use crate::model::{
    find_entry, is_listed, lemma_same_entries_lookup, lemma_without_ids_unique, listed, lookup,
    remove_listed, same_entries, unique_keys, without_ids, ActivationResponse, KeyFile,
    PersistedLicenseState,
};

verus! {

/// The key files cached for the requested product ids, in the order of the ids.
pub open spec fn found_key_files(key_files: Seq<(String, KeyFile)>, ids: Seq<String>) -> Seq<KeyFile>
    decreases ids.len(),
{
    if ids.len() == 0 {
        Seq::empty()
    } else {
        let rest = found_key_files(key_files, ids.drop_last());
        match lookup(key_files, ids.last()@) {
            Some(k) => rest.push(k),
            None => rest,
        }
    }
}

/// Whether key file `a` is preferred over `b`: an active one over an
/// inactive one, and otherwise the later check-back timestamp.
pub open spec fn preferred(a: KeyFile, b: KeyFile) -> bool {
    ||| (a.message_code == 1 && b.message_code != 1)
    ||| ((a.message_code == 1) == (b.message_code == 1)
        && a.check_back_timestamp > b.check_back_timestamp)
}

/// Whether `k` is the selected position of `s`: nothing in `s` is preferred
/// over it, and it is preferred over everything before it.
pub open spec fn is_selected(s: Seq<KeyFile>, k: int) -> bool {
    &&& 0 <= k < s.len()
    &&& forall|j: int| 0 <= j < s.len() ==> !#[trigger] preferred(s[j], s[k])
    &&& forall|j: int| 0 <= j < k ==> #[trigger] preferred(s[k], s[j])
}

/// The selected key file of a non-empty sequence.
pub open spec fn selected(s: Seq<KeyFile>) -> KeyFile {
    s[choose|k: int| is_selected(s, k)]
}

/// The licensing error codes cached for the requested product ids, in the
/// order of the cached entries.
pub open spec fn restricted_codes(errors: Seq<(String, u32)>, ids: Seq<String>) -> Seq<u32>
    decreases errors.len(),
{
    if errors.len() == 0 {
        Seq::empty()
    } else {
        let rest = restricted_codes(errors.drop_last(), ids);
        if listed(ids, errors.last().0@) {
            rest.push(errors.last().1)
        } else {
            rest
        }
    }
}

/// The error reported for a non-empty list of cached licensing error codes:
/// machine-limit-reached, then license-no-longer-active, then trial-ended,
/// then the first code.
pub open spec fn priority_error(codes: Seq<u32>, license_code: String) -> LicensingError {
    if codes.contains(MACHINE_LIMIT_REACHED) {
        LicensingError::MachineLimitReached(license_code)
    } else if codes.contains(LICENSE_NO_LONGER_ACTIVE) {
        LicensingError::LicenseNoLongerActive(license_code)
    } else if codes.contains(TRIAL_ENDED) {
        LicensingError::TrialEnded(license_code)
    } else {
        licensing_error_from(codes[0], license_code)
    }
}

/// What selection gives when no key file matches.
pub open spec fn no_match_error(resp: ActivationResponse, ids: Seq<String>, license_code: String) -> LicensingError {
    let codes = restricted_codes(resp.licensing_errors@, ids);
    if codes.len() == 0 {
        LicensingError::NoLicenseFound(license_code)
    } else {
        priority_error(codes, license_code)
    }
}

/// The outcome of selection given the key file chosen among several.
pub open spec fn selection_outcome(
    resp: ActivationResponse,
    kf: KeyFile,
    r: Result<(KeyFile, Vec<u8>), LicensingError>,
) -> bool {
    match lookup(resp.key_file_signatures@, kf.product_id@) {
        Some(sig) => if p384_signature_valid(sig@) {
            r is Ok && r->Ok_0.0 == kf && r->Ok_0.1@ == sig@
        } else {
            r == Err::<(KeyFile, Vec<u8>), LicensingError>(LicensingError::NoLicenseFound(kf.license_code))
        },
        None => r == Err::<(KeyFile, Vec<u8>), LicensingError>(LicensingError::NoLicenseFound(kf.license_code)),
    }
}

/// The full contract of selection over a cache snapshot.
pub open spec fn selection_spec(
    state: PersistedLicenseState,
    ids: Seq<String>,
    r: Result<(KeyFile, Vec<u8>), LicensingError>,
) -> bool {
    match state.license_activation_response {
        None => r is Err && r->Err_0 is NoLicenseFound && r->Err_0->NoLicenseFound_0@.len() == 0,
        Some(resp) => {
            let found = found_key_files(resp.key_files@, ids);
            if found.len() == 0 {
                r == Err::<(KeyFile, Vec<u8>), LicensingError>(no_match_error(resp, ids, state.license_code))
            } else {
                selection_outcome(resp, selected(found), r)
            }
        },
    }
}

/// Whether distinct key files of `s` have distinct check-back timestamps.
pub open spec fn distinct_check_backs(s: Seq<KeyFile>) -> bool {
    forall|i: int, j: int|
        0 <= i < s.len() && 0 <= j < s.len() && s[i] != s[j]
            ==> #[trigger] s[i].check_back_timestamp != #[trigger] s[j].check_back_timestamp
}

/// Two selected positions of one sequence are the same position.
pub proof fn lemma_selected_unique(s: Seq<KeyFile>, a: int, b: int)
    requires
        is_selected(s, a),
        is_selected(s, b),
    ensures
        a == b,
{
    if a < b {
        assert(preferred(s[b], s[a]));
    } else if b < a {
        assert(preferred(s[a], s[b]));
    }
}

/// Selection determinism: the selected key file is an active one whenever
/// one is present, it has the largest check-back timestamp among those of
/// its own status, and when distinct candidates have distinct check-back
/// timestamps it does not depend on the order of the candidates.
pub proof fn lemma_selection_determinism(s: Seq<KeyFile>, t: Seq<KeyFile>, a: int, b: int)
    requires
        is_selected(s, a),
        is_selected(t, b),
        distinct_check_backs(s),
        forall|x: KeyFile| s.contains(x) <==> t.contains(x),
    ensures
        (exists|j: int| 0 <= j < s.len() && #[trigger] s[j].message_code == 1) ==> s[a].message_code == 1,
        forall|j: int|
            0 <= j < s.len() && (s[j].message_code == 1) == (s[a].message_code == 1)
                ==> #[trigger] s[j].check_back_timestamp <= s[a].check_back_timestamp,
        s[a] == t[b],
{
    assert forall|j: int|
        0 <= j < s.len() && (s[j].message_code == 1) == (s[a].message_code == 1)
            implies #[trigger] s[j].check_back_timestamp <= s[a].check_back_timestamp by {
        assert(!preferred(s[j], s[a]));
    }
    if exists|j: int| 0 <= j < s.len() && #[trigger] s[j].message_code == 1 {
        let j = choose|j: int| 0 <= j < s.len() && #[trigger] s[j].message_code == 1;
        assert(!preferred(s[j], s[a]));
    }
    assert(t.contains(s[a]));
    let j = choose|j: int| 0 <= j < t.len() && t[j] == s[a];
    assert(!preferred(t[j], t[b]));
    assert(s.contains(t[b]));
    let i = choose|i: int| 0 <= i < s.len() && s[i] == t[b];
    assert(!preferred(s[i], s[a]));
    if s[i] != s[a] {
        assert(s[i].check_back_timestamp != s[a].check_back_timestamp);
    }
}

/// A non-empty sequence has a selected position.
pub proof fn lemma_selected_exists(s: Seq<KeyFile>)
    requires
        s.len() > 0,
    ensures
        exists|k: int| is_selected(s, k),
    decreases s.len(),
{
    if s.len() == 1 {
        assert(is_selected(s, 0));
    } else {
        let init = s.drop_last();
        lemma_selected_exists(init);
        let k = choose|k: int| is_selected(init, k);
        let n = s.len() - 1;
        assert forall|j: int| 0 <= j < n implies s[j] == init[j] by {}
        if preferred(s[n], s[k]) {
            assert forall|j: int| 0 <= j < n implies #[trigger] preferred(s[n], s[j]) by {
                assert(!preferred(init[j], init[k]));
            }
            assert forall|j: int| 0 <= j < s.len() implies !#[trigger] preferred(s[j], s[n]) by {
                if j < n {
                    assert(preferred(s[n], s[j]));
                }
            }
            assert(is_selected(s, n));
        } else {
            assert forall|j: int| 0 <= j < s.len() implies !#[trigger] preferred(s[j], s[k]) by {
                if j < n {
                    assert(!preferred(init[j], init[k]));
                }
            }
            assert forall|j: int| 0 <= j < k implies #[trigger] preferred(s[k], s[j]) by {
                assert(preferred(init[k], init[j]));
            }
            assert(is_selected(s, k));
        }
    }
}

/// The key files found for `ids` are those that some id looks up.
proof fn lemma_found_contains(key_files: Seq<(String, KeyFile)>, ids: Seq<String>, x: KeyFile)
    ensures
        found_key_files(key_files, ids).contains(x)
            <==> exists|j: int| 0 <= j < ids.len() && lookup(key_files, #[trigger] ids[j]@) == Some(x),
    decreases ids.len(),
{
    if ids.len() > 0 {
        let init = ids.drop_last();
        lemma_found_contains(key_files, init, x);
        let rest = found_key_files(key_files, init);
        let n = ids.len() - 1;
        if found_key_files(key_files, ids).contains(x) {
            if rest.contains(x) {
                let j = choose|j: int| 0 <= j < init.len() && lookup(key_files, #[trigger] init[j]@) == Some(x);
                assert(ids[j] == init[j]);
            } else {
                let k = choose|k: int| 0 <= k < found_key_files(key_files, ids).len()
                    && found_key_files(key_files, ids)[k] == x;
                if k < rest.len() {
                    assert(rest.contains(x));
                }
                assert(lookup(key_files, ids[n]@) == Some(x));
            }
        }
        if exists|j: int| 0 <= j < ids.len() && lookup(key_files, #[trigger] ids[j]@) == Some(x) {
            let j = choose|j: int| 0 <= j < ids.len() && lookup(key_files, #[trigger] ids[j]@) == Some(x);
            if j < n {
                assert(init[j] == ids[j]);
                assert(rest.contains(x));
                let k = choose|k: int| 0 <= k < rest.len() && rest[k] == x;
                assert(found_key_files(key_files, ids)[k] == x);
            } else {
                assert(found_key_files(key_files, ids) == rest.push(x));
                assert(found_key_files(key_files, ids)[rest.len() as int] == x);
            }
        }
    }
}

/// The key files found in two tables that look up alike are the same.
proof fn lemma_found_same_tables(a: Seq<(String, KeyFile)>, b: Seq<(String, KeyFile)>, ids: Seq<String>)
    requires
        forall|id: Seq<char>| #[trigger] lookup(a, id) == lookup(b, id),
    ensures
        found_key_files(a, ids) == found_key_files(b, ids),
    decreases ids.len(),
{
    if ids.len() > 0 {
        lemma_found_same_tables(a, b, ids.drop_last());
        assert(lookup(a, ids.last()@) == lookup(b, ids.last()@));
    }
}

/// Selection does not depend on the order of the tables or of the
/// requested ids: two caches whose tables (with unique product ids) hold
/// the same entries, asked about the same set of ids, select the same key
/// file with the same signature, provided some requested key file exists
/// and distinct matching key files have distinct check-back timestamps.
pub proof fn lemma_selection_order_independent(
    s1: PersistedLicenseState,
    s2: PersistedLicenseState,
    ids1: Seq<String>,
    ids2: Seq<String>,
    r1: Result<(KeyFile, Vec<u8>), LicensingError>,
    r2: Result<(KeyFile, Vec<u8>), LicensingError>,
)
    requires
        s1.license_activation_response is Some,
        s2.license_activation_response is Some,
        s1.license_activation_response->Some_0.wf(),
        s2.license_activation_response->Some_0.wf(),
        same_entries(
            s1.license_activation_response->Some_0.key_files@,
            s2.license_activation_response->Some_0.key_files@,
        ),
        same_entries(
            s1.license_activation_response->Some_0.key_file_signatures@,
            s2.license_activation_response->Some_0.key_file_signatures@,
        ),
        forall|id: Seq<char>| listed(ids1, id) <==> listed(ids2, id),
        found_key_files(s1.license_activation_response->Some_0.key_files@, ids1).len() > 0,
        distinct_check_backs(found_key_files(s1.license_activation_response->Some_0.key_files@, ids1)),
        selection_spec(s1, ids1, r1),
        selection_spec(s2, ids2, r2),
    ensures
        r1 is Ok <==> r2 is Ok,
        r1 is Ok ==> r1->Ok_0.0 == r2->Ok_0.0 && r1->Ok_0.1@ == r2->Ok_0.1@,
        r1 is Err ==> r1 == r2,
{
    let a = s1.license_activation_response->Some_0;
    let b = s2.license_activation_response->Some_0;
    assert forall|id: Seq<char>| #[trigger] lookup(a.key_files@, id) == lookup(b.key_files@, id) by {
        lemma_same_entries_lookup(a.key_files@, b.key_files@, id);
    }
    assert forall|id: Seq<char>| #[trigger] lookup(a.key_file_signatures@, id) == lookup(b.key_file_signatures@, id) by {
        lemma_same_entries_lookup(a.key_file_signatures@, b.key_file_signatures@, id);
    }
    lemma_found_same_tables(a.key_files@, b.key_files@, ids2);
    let f1 = found_key_files(a.key_files@, ids1);
    let f2 = found_key_files(a.key_files@, ids2);
    assert forall|x: KeyFile| f1.contains(x) <==> f2.contains(x) by {
        lemma_found_contains(a.key_files@, ids1, x);
        lemma_found_contains(a.key_files@, ids2, x);
        if f1.contains(x) {
            let j = choose|j: int| 0 <= j < ids1.len() && lookup(a.key_files@, #[trigger] ids1[j]@) == Some(x);
            assert(listed(ids1, ids1[j]@));
            assert(listed(ids2, ids1[j]@));
            let k = choose|k: int| 0 <= k < ids2.len() && #[trigger] ids2[k]@ == ids1[j]@;
            assert(lookup(a.key_files@, ids2[k]@) == Some(x));
        }
        if f2.contains(x) {
            let j = choose|j: int| 0 <= j < ids2.len() && lookup(a.key_files@, #[trigger] ids2[j]@) == Some(x);
            assert(listed(ids2, ids2[j]@));
            assert(listed(ids1, ids2[j]@));
            let k = choose|k: int| 0 <= k < ids1.len() && #[trigger] ids1[k]@ == ids2[j]@;
            assert(lookup(a.key_files@, ids1[k]@) == Some(x));
        }
    }
    assert(f1.contains(f1[0]));
    assert(f2.len() > 0);
    lemma_selected_exists(f1);
    lemma_selected_exists(f2);
    let k1 = choose|k: int| is_selected(f1, k);
    let k2 = choose|k: int| is_selected(f2, k);
    lemma_selection_determinism(f1, f2, k1, k2);
}

/// Error priority: whatever the order of the cached codes, a machine limit
/// is reported first, then an inactive license, then an ended trial.
pub proof fn lemma_error_priority(codes: Seq<u32>, license_code: String)
    requires
        codes.len() > 0,
    ensures
        codes.contains(MACHINE_LIMIT_REACHED)
            ==> priority_error(codes, license_code) == LicensingError::MachineLimitReached(license_code),
        !codes.contains(MACHINE_LIMIT_REACHED) && codes.contains(LICENSE_NO_LONGER_ACTIVE)
            ==> priority_error(codes, license_code) == LicensingError::LicenseNoLongerActive(license_code),
        !codes.contains(MACHINE_LIMIT_REACHED) && !codes.contains(LICENSE_NO_LONGER_ACTIVE)
            && codes.contains(TRIAL_ENDED)
            ==> priority_error(codes, license_code) == LicensingError::TrialEnded(license_code),
        forall|perm: Seq<u32>| #![trigger perm.to_multiset()]
            perm.to_multiset() == codes.to_multiset() && (codes.contains(MACHINE_LIMIT_REACHED)
                || codes.contains(LICENSE_NO_LONGER_ACTIVE) || codes.contains(TRIAL_ENDED))
                ==> priority_error(perm, license_code) == priority_error(codes, license_code),
{
    assert forall|perm: Seq<u32>| #![trigger perm.to_multiset()]
        perm.to_multiset() == codes.to_multiset() implies
            (forall|c: u32| perm.contains(c) <==> codes.contains(c)) by {
        perm.to_multiset_ensures();
        codes.to_multiset_ensures();
        assert forall|c: u32| perm.contains(c) <==> codes.contains(c) by {
            assert(perm.to_multiset().count(c) == codes.to_multiset().count(c));
        }
    }
}

/// Returns the position of the selected key file of a non-empty list.
fn select_position(found: &Vec<KeyFile>) -> (r: usize)
    requires
        found@.len() > 0,
    ensures
        is_selected(found@, r as int),
{
    let mut best: usize = 0;
    let mut i: usize = 1;
    while i < found.len()
        invariant
            0 <= best < i <= found@.len(),
            forall|j: int| 0 <= j < i ==> !#[trigger] preferred(found@[j], found@[best as int]),
            forall|j: int| 0 <= j < best ==> #[trigger] preferred(found@[best as int], found@[j]),
        decreases found@.len() - i,
    {
        let a = &found[i];
        let b = &found[best];
        let a_active = a.message_code == 1;
        let b_active = b.message_code == 1;
        let better = (a_active && !b_active)
            || (a_active == b_active && a.check_back_timestamp > b.check_back_timestamp);
        if better {
            proof {
                assert(preferred(found@[i as int], found@[best as int]));
                assert forall|j: int| 0 <= j < i implies #[trigger] preferred(found@[i as int], found@[j]) by {
                    assert(!preferred(found@[j], found@[best as int]));
                }
                assert forall|j: int| 0 <= j <= i implies !#[trigger] preferred(found@[j], found@[i as int]) by {
                    if j < i {
                        assert(preferred(found@[i as int], found@[j]));
                    }
                }
            }
            best = i;
        }
        i = i + 1;
    }
    best
}

/// Collects copies of the key files cached for the requested product ids.
fn collect_key_files(key_files: &Vec<(String, KeyFile)>, product_ids: &Vec<String>) -> (r: Vec<KeyFile>)
    ensures
        r@ == found_key_files(key_files@, product_ids@),
{
    let mut found: Vec<KeyFile> = Vec::new();
    let mut i: usize = 0;
    while i < product_ids.len()
        invariant
            i <= product_ids@.len(),
            found@ == found_key_files(key_files@, product_ids@.subrange(0, i as int)),
        decreases product_ids@.len() - i,
    {
        proof {
            assert(product_ids@.subrange(0, i + 1).drop_last() =~= product_ids@.subrange(0, i as int));
        }
        match find_entry(key_files, &product_ids[i]) {
            Some(k) => {
                found.push(key_files[k].1.duplicate());
            },
            None => {},
        }
        i = i + 1;
    }
    assert(product_ids@.subrange(0, product_ids@.len() as int) =~= product_ids@);
    found
}

/// Collects the cached licensing error codes of the requested product ids.
fn collect_error_codes(errors: &Vec<(String, u32)>, product_ids: &Vec<String>) -> (r: Vec<u32>)
    ensures
        r@ == restricted_codes(errors@, product_ids@),
{
    let mut codes: Vec<u32> = Vec::new();
    let mut i: usize = 0;
    while i < errors.len()
        invariant
            i <= errors@.len(),
            codes@ == restricted_codes(errors@.subrange(0, i as int), product_ids@),
        decreases errors@.len() - i,
    {
        proof {
            assert(errors@.subrange(0, i + 1).drop_last() =~= errors@.subrange(0, i as int));
        }
        if is_listed(product_ids, &errors[i].0) {
            codes.push(errors[i].1);
        }
        i = i + 1;
    }
    assert(errors@.subrange(0, errors@.len() as int) =~= errors@);
    codes
}

fn contains_code(codes: &Vec<u32>, code: u32) -> (r: bool)
    ensures
        r == codes@.contains(code),
{
    let mut i: usize = 0;
    while i < codes.len()
        invariant
            i <= codes@.len(),
            forall|j: int| 0 <= j < i ==> codes@[j] != code,
        decreases codes@.len() - i,
    {
        if codes[i] == code {
            return true;
        }
        i = i + 1;
    }
    false
}

/// Chooses the cached key file that applies to the requested product ids,
/// with its signature bytes.
///
/// Among the matching key files an active one (message code 1) wins, then
/// the later check-back timestamp, then the earlier product id. With no
/// match, the cached licensing errors of the requested products decide,
/// by priority.
pub fn get_latest_key_file(state: &PersistedLicenseState, product_ids: &Vec<String>) -> (r: Result<(KeyFile, Vec<u8>), LicensingError>)
    ensures
        selection_spec(*state, product_ids@, r),
{
    let resp = match &state.license_activation_response {
        Some(v) => v,
        None => return Err(LicensingError::NoLicenseFound(String::new())),
    };
    let found = collect_key_files(&resp.key_files, product_ids);
    if found.len() == 0 {
        let codes = collect_error_codes(&resp.licensing_errors, product_ids);
        if codes.len() == 0 {
            return Err(LicensingError::NoLicenseFound(state.license_code.clone()));
        }
        if contains_code(&codes, MACHINE_LIMIT_REACHED) {
            return Err(LicensingError::MachineLimitReached(state.license_code.clone()));
        }
        if contains_code(&codes, LICENSE_NO_LONGER_ACTIVE) {
            return Err(LicensingError::LicenseNoLongerActive(state.license_code.clone()));
        }
        if contains_code(&codes, TRIAL_ENDED) {
            return Err(LicensingError::TrialEnded(state.license_code.clone()));
        }
        return Err(LicensingError::from_code(codes[0], state.license_code.clone()));
    }
    let k = select_position(&found);
    proof {
        let c = choose|c: int| is_selected(found@, c);
        lemma_selected_unique(found@, c, k as int);
    }
    let key_file = &found[k];
    match find_entry(&resp.key_file_signatures, &key_file.product_id) {
        Some(s) => {
            let sig = &resp.key_file_signatures[s].1;
            if signature_bytes_valid(sig.as_slice()) {
                let copy = sig.clone();
                assert(copy@ =~= sig@);
                Ok((key_file.duplicate(), copy))
            } else {
                Err(LicensingError::NoLicenseFound(key_file.license_code.clone()))
            }
        },
        None => Err(LicensingError::NoLicenseFound(key_file.license_code.clone())),
    }
}

/// Removes the cached key files, signatures and licensing errors of the
/// given product ids.
pub fn remove_key_files(state: &mut PersistedLicenseState, product_ids: &Vec<String>)
    ensures
        purged(*old(state), *final(state), product_ids@),
        old(state).license_activation_response is Some && old(state).license_activation_response->Some_0.wf()
            ==> final(state).license_activation_response->Some_0.wf(),
{
    proof {
        if let Some(resp) = old(state).license_activation_response {
            if resp.wf() {
                lemma_without_ids_unique(resp.key_files@, product_ids@);
                lemma_without_ids_unique(resp.key_file_signatures@, product_ids@);
                lemma_without_ids_unique(resp.licensing_errors@, product_ids@);
            }
        }
    }
    match &mut state.license_activation_response {
        Some(resp) => {
            remove_listed(&mut resp.key_files, product_ids);
            remove_listed(&mut resp.key_file_signatures, product_ids);
            remove_listed(&mut resp.licensing_errors, product_ids);
        },
        None => {},
    }
}

/// `after` is `before` with the cached entries of `ids` removed.
pub open spec fn purged(before: PersistedLicenseState, after: PersistedLicenseState, ids: Seq<String>) -> bool {
    &&& after.license_code == before.license_code
    &&& after.next_server_ecdh_key == before.next_server_ecdh_key
    &&& after.server_ecdsa_key == before.server_ecdsa_key
    &&& after.machine_stats == before.machine_stats
    &&& match before.license_activation_response {
        None => after.license_activation_response is None,
        Some(b) => after.license_activation_response is Some && {
            let a = after.license_activation_response->Some_0;
            &&& a.customer_first_name == b.customer_first_name
            &&& a.customer_last_name == b.customer_last_name
            &&& a.customer_email == b.customer_email
            &&& a.key_files@ == without_ids(b.key_files@, ids)
            &&& a.key_file_signatures@ == without_ids(b.key_file_signatures@, ids)
            &&& a.licensing_errors@ == without_ids(b.licensing_errors@, ids)
        },
    }
}

} // verus!

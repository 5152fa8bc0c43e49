use vstd::prelude::*;
use vstd::utf8::encode_utf8;

verus! {

/// A server-issued, signed record describing one product's entitlement
/// state for one machine.
#[derive(Clone, Debug)]
pub struct KeyFile {
    pub product_id: String,
    pub product_version: String,
    pub license_code: String,
    pub license_type: String,
    pub machine_id: String,
    pub timestamp: u64,
    pub expiration_timestamp: u64,
    pub check_back_timestamp: u64,
    pub message: String,
    /// 1 for an active entitlement; otherwise a licensing error code.
    pub message_code: u32,
    pub post_expiration_error_code: u32,
}

impl KeyFile {
    pub fn duplicate(&self) -> (r: KeyFile)
        ensures
            r == *self,
    {
        KeyFile {
            product_id: self.product_id.clone(),
            product_version: self.product_version.clone(),
            license_code: self.license_code.clone(),
            license_type: self.license_type.clone(),
            machine_id: self.machine_id.clone(),
            timestamp: self.timestamp,
            expiration_timestamp: self.expiration_timestamp,
            check_back_timestamp: self.check_back_timestamp,
            message: self.message.clone(),
            message_code: self.message_code,
            post_expiration_error_code: self.post_expiration_error_code,
        }
    }
}

/// The server's answer to an activation: customer details and, per product
/// id, either a signed key file or a licensing error code.
///
/// Each table is a list of `(product_id, value)` entries; a lookup takes the
/// first entry with the product id.
#[derive(Clone, Debug)]
pub struct ActivationResponse {
    pub customer_first_name: String,
    pub customer_last_name: String,
    pub customer_email: String,
    pub key_files: Vec<(String, KeyFile)>,
    pub key_file_signatures: Vec<(String, Vec<u8>)>,
    pub licensing_errors: Vec<(String, u32)>,
}

impl ActivationResponse {
    /// Each table holds at most one entry per product id.
    pub open spec fn wf(&self) -> bool {
        &&& unique_keys(self.key_files@)
        &&& unique_keys(self.key_file_signatures@)
        &&& unique_keys(self.licensing_errors@)
    }
}

/// A server key-agreement public key.
#[derive(Clone, Debug)]
pub struct EcdhKey {
    pub ecdh_key_id: String,
    pub ecdh_public_key: Vec<u8>,
}

/// The server's signature verification key, with its expiration.
#[derive(Clone, Debug)]
pub struct EcdsaKey {
    pub ecdsa_key_id: String,
    pub ecdsa_public_key: Vec<u8>,
    pub expiration: u64,
}

/// Everything the library keeps between runs.
#[derive(Clone, Debug)]
pub struct PersistedLicenseState {
    pub license_code: String,
    pub next_server_ecdh_key: Option<EcdhKey>,
    pub server_ecdsa_key: Option<EcdsaKey>,
    pub license_activation_response: Option<ActivationResponse>,
    /// The encoded hardware statistics sent along with an activation.
    pub machine_stats: Option<Vec<u8>>,
}

impl PersistedLicenseState {
    /// The state of a first run: nothing known yet.
    pub fn empty() -> (r: PersistedLicenseState)
        ensures
            r.license_code@ == Seq::<char>::empty(),
            r.next_server_ecdh_key is None,
            r.server_ecdsa_key is None,
            r.license_activation_response is None,
            r.machine_stats is None,
    {
        PersistedLicenseState {
            license_code: String::new(),
            next_server_ecdh_key: None,
            server_ecdsa_key: None,
            license_activation_response: None,
            machine_stats: None,
        }
    }
}

/// The length in bytes of the UTF-8 encoding of `s`, as `str::len` reports it.
pub open spec fn utf8_len(s: Seq<char>) -> usize {
    encode_utf8(s).len() as usize
}

/// Whether `id` occurs among `ids`.
pub open spec fn listed(ids: Seq<String>, id: Seq<char>) -> bool {
    exists|i: int| 0 <= i < ids.len() && #[trigger] ids[i]@ == id
}

/// Whether some entry of `entries` is keyed by `id`.
pub open spec fn has_key<V>(entries: Seq<(String, V)>, id: Seq<char>) -> bool {
    exists|i: int| 0 <= i < entries.len() && #[trigger] entries[i].0@ == id
}

/// Whether no two entries of `entries` share a key.
pub open spec fn unique_keys<V>(entries: Seq<(String, V)>) -> bool {
    forall|i: int, j: int|
        0 <= i < entries.len() && 0 <= j < entries.len() && i != j
            ==> #[trigger] entries[i].0@ != #[trigger] entries[j].0@
}

/// Whether two tables hold the same entries, whatever their order.
pub open spec fn same_entries<V>(a: Seq<(String, V)>, b: Seq<(String, V)>) -> bool {
    forall|x: (String, V)| a.contains(x) <==> b.contains(x)
}

/// Whether `i` is the first entry of `entries` keyed by `id`.
pub open spec fn first_entry_at<V>(entries: Seq<(String, V)>, id: Seq<char>, i: int) -> bool {
    &&& 0 <= i < entries.len()
    &&& entries[i].0@ == id
    &&& forall|j: int| 0 <= j < i ==> #[trigger] entries[j].0@ != id
}

/// The value of the first entry keyed by `id`, if any.
pub open spec fn lookup<V>(entries: Seq<(String, V)>, id: Seq<char>) -> Option<V> {
    if exists|i: int| first_entry_at(entries, id, i) {
        Some(entries[choose|i: int| first_entry_at(entries, id, i)].1)
    } else {
        None
    }
}

/// The entries of `entries` whose key is not among `ids`, in order.
pub open spec fn without_ids<V>(entries: Seq<(String, V)>, ids: Seq<String>) -> Seq<(String, V)>
    decreases entries.len(),
{
    if entries.len() == 0 {
        Seq::empty()
    } else {
        let rest = without_ids(entries.drop_last(), ids);
        if listed(ids, entries.last().0@) {
            rest
        } else {
            rest.push(entries.last())
        }
    }
}

/// In a table with unique keys, the entry at `i` is what its key looks up.
pub proof fn lemma_lookup_unique<V>(entries: Seq<(String, V)>, i: int)
    requires
        unique_keys(entries),
        0 <= i < entries.len(),
    ensures
        lookup(entries, entries[i].0@) == Some(entries[i].1),
{
    let id = entries[i].0@;
    assert(first_entry_at(entries, id, i)) by {
        assert forall|j: int| 0 <= j < i implies #[trigger] entries[j].0@ != id by {
            assert(entries[j].0@ != entries[i].0@);
        }
    }
    let k = choose|k: int| first_entry_at(entries, id, k);
    if k != i {
        assert(entries[k].0@ != entries[i].0@);
    }
}

/// Two tables with unique keys and the same entries look up alike.
pub proof fn lemma_same_entries_lookup<V>(a: Seq<(String, V)>, b: Seq<(String, V)>, id: Seq<char>)
    requires
        unique_keys(a),
        unique_keys(b),
        same_entries(a, b),
    ensures
        lookup(a, id) == lookup(b, id),
{
    if exists|i: int| 0 <= i < a.len() && #[trigger] a[i].0@ == id {
        let i = choose|i: int| 0 <= i < a.len() && #[trigger] a[i].0@ == id;
        lemma_lookup_unique(a, i);
        assert(a.contains(a[i]));
        assert(b.contains(a[i]));
        let j = choose|j: int| 0 <= j < b.len() && b[j] == a[i];
        lemma_lookup_unique(b, j);
    } else if exists|j: int| 0 <= j < b.len() && #[trigger] b[j].0@ == id {
        let j = choose|j: int| 0 <= j < b.len() && #[trigger] b[j].0@ == id;
        assert(b.contains(b[j]));
        assert(a.contains(b[j]));
        let i = choose|i: int| 0 <= i < a.len() && a[i] == b[j];
        assert(a[i].0@ == id);
    } else {
        assert(!exists|k: int| first_entry_at(a, id, k)) by {
            assert forall|k: int| !first_entry_at(a, id, k) by {
                if 0 <= k < a.len() {
                    assert(a[k].0@ != id);
                }
            }
        }
        assert(!exists|k: int| first_entry_at(b, id, k)) by {
            assert forall|k: int| !first_entry_at(b, id, k) by {
                if 0 <= k < b.len() {
                    assert(b[k].0@ != id);
                }
            }
        }
    }
}

/// Dropping entries keeps the keys unique, and keeps only entries that
/// were there.
pub proof fn lemma_without_ids_unique<V>(entries: Seq<(String, V)>, ids: Seq<String>)
    requires
        unique_keys(entries),
    ensures
        unique_keys(without_ids(entries, ids)),
        forall|x: (String, V)| without_ids(entries, ids).contains(x) ==> entries.contains(x),
    decreases entries.len(),
{
    if entries.len() > 0 {
        let init = entries.drop_last();
        assert(unique_keys(init)) by {
            assert forall|i: int, j: int|
                0 <= i < init.len() && 0 <= j < init.len() && i != j
                    implies #[trigger] init[i].0@ != #[trigger] init[j].0@ by {
                assert(entries[i].0@ != entries[j].0@);
            }
        }
        lemma_without_ids_unique(init, ids);
        let rest = without_ids(init, ids);
        let last = entries.last();
        assert forall|x: (String, V)| rest.contains(x) implies entries.contains(x) by {
            assert(init.contains(x));
            let k = choose|k: int| 0 <= k < init.len() && init[k] == x;
            assert(entries[k] == x);
        }
        if !listed(ids, last.0@) {
            let r = rest.push(last);
            assert forall|i: int, j: int|
                0 <= i < r.len() && 0 <= j < r.len() && i != j implies #[trigger] r[i].0@ != #[trigger] r[j].0@ by {
                if i < rest.len() && j < rest.len() {
                    assert(rest[i].0@ != rest[j].0@);
                } else if i < rest.len() {
                    assert(rest.contains(rest[i]));
                    assert(init.contains(rest[i]));
                    let k = choose|k: int| 0 <= k < init.len() && init[k] == rest[i];
                    assert(entries[k].0@ != entries[entries.len() - 1].0@);
                } else if j < rest.len() {
                    assert(rest.contains(rest[j]));
                    assert(init.contains(rest[j]));
                    let k = choose|k: int| 0 <= k < init.len() && init[k] == rest[j];
                    assert(entries[k].0@ != entries[entries.len() - 1].0@);
                }
            }
            assert forall|x: (String, V)| r.contains(x) implies entries.contains(x) by {
                let k = choose|k: int| 0 <= k < r.len() && r[k] == x;
                if k < rest.len() {
                    assert(rest.contains(x));
                } else {
                    assert(entries[entries.len() - 1] == x);
                }
            }
        }
    }
}

/// Whether `id` occurs among `ids`.
pub fn is_listed(ids: &Vec<String>, id: &String) -> (r: bool)
    ensures
        r == listed(ids@, id@),
{
    let mut i: usize = 0;
    while i < ids.len()
        invariant
            i <= ids@.len(),
            forall|j: int| 0 <= j < i ==> #[trigger] ids@[j]@ != id@,
        decreases ids@.len() - i,
    {
        if ids[i] == *id {
            return true;
        }
        i = i + 1;
    }
    false
}

/// Finds the first entry keyed by `id`.
pub fn find_entry<V>(entries: &Vec<(String, V)>, id: &String) -> (r: Option<usize>)
    ensures
        match r {
            Some(i) => first_entry_at(entries@, id@, i as int),
            None => lookup(entries@, id@) is None,
        },
        match r {
            Some(i) => lookup(entries@, id@) == Some(entries@[i as int].1),
            None => true,
        },
{
    let mut i: usize = 0;
    while i < entries.len()
        invariant
            i <= entries@.len(),
            forall|j: int| 0 <= j < i ==> #[trigger] entries@[j].0@ != id@,
        decreases entries@.len() - i,
    {
        if entries[i].0 == *id {
            proof {
                assert(first_entry_at(entries@, id@, i as int));
                let k = choose|k: int| first_entry_at(entries@, id@, k);
                assert(k == i as int) by {
                    if k < i as int {
                        assert(entries@[k].0@ != id@);
                    } else if k > i as int {
                        assert(entries@[i as int].0@ != id@);
                    }
                }
            }
            return Some(i);
        }
        i = i + 1;
    }
    proof {
        assert forall|k: int| !first_entry_at(entries@, id@, k) by {
            if 0 <= k < entries@.len() {
                assert(entries@[k].0@ != id@);
            }
        }
    }
    None
}

/// Removes, in place, every entry whose key is among `ids`.
pub fn remove_listed<V>(entries: &mut Vec<(String, V)>, ids: &Vec<String>)
    ensures
        final(entries)@ == without_ids(old(entries)@, ids@),
{
    let ghost orig = entries@;
    let mut kept: Vec<(String, V)> = Vec::new();
    let mut rest: Vec<(String, V)> = Vec::new();
    std::mem::swap(&mut rest, entries);
    let ghost n = orig.len();
    let ghost mut done: int = 0;
    assert(orig.subrange(0, 0) =~= Seq::<(String, V)>::empty());
    while rest.len() > 0
        invariant
            0 <= done <= n,
            orig.len() == n,
            rest@ =~= orig.subrange(done, n as int),
            kept@ == without_ids(orig.subrange(0, done), ids@),
        decreases rest@.len(),
    {
        let e = rest.remove(0);
        proof {
            assert(e == orig[done]);
            assert(orig.subrange(0, done + 1).drop_last() =~= orig.subrange(0, done));
            done = done + 1;
        }
        if !is_listed(ids, &e.0) {
            kept.push(e);
        }
    }
    assert(orig.subrange(0, n as int) =~= orig);
    *entries = kept;
}

} // verus!

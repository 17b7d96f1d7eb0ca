//! The store: ciphertext and metadata keyed by secret reference.

use vstd::prelude::*;

use crate::common_types::{
    metadata_view, Secret, SecretMetadata, SecretMetadataView, SecretRefKey, SecretVaultRef,
};
use crate::encryption::{SecretVaultEncryption, SecretVaultEncryptionContext};
use crate::secure_value::secret_value_bytes;
use crate::errors::SecretVaultError;
use crate::SecretVaultResult;
use secret_vault_value::SecretValue;

verus! {

/// The answer to a lookup in a store whose contents are `m`: the plaintext
/// held for the identity, if any; a failure comes only where something is
/// held and opening it failed, and it is then an encryption error.
pub open spec fn lookup_answer(m: Map<SecretRefKey, Seq<u8>>, r: SecretVaultRef, answer:
    SecretVaultResult<Option<SecretValue>>) -> bool {
    match answer {
        Ok(Some(v)) => m.contains_key(r.key()) && secret_value_bytes(v) == m[r.key()],
        Ok(None) => !m.contains_key(r.key()),
        Err(e) => m.contains_key(r.key()) && e is EncryptionError,
    }
}

/// One stored secret: its reference, its sealed value and its metadata.
pub struct SecretVaultStoreEntry<T> {
    pub secret_ref: SecretVaultRef,
    pub encrypted: T,
    pub metadata: SecretMetadata,
}

/// The identity of an entry.
pub open spec fn entry_key<T>(e: SecretVaultStoreEntry<T>) -> SecretRefKey {
    e.secret_ref.key()
}

/// No two entries share an identity.
pub open spec fn keys_unique<T>(s: Seq<SecretVaultStoreEntry<T>>) -> bool {
    forall|i: int, j: int|
        0 <= i < s.len() && 0 <= j < s.len() && i != j ==> entry_key(#[trigger] s[i])
            != entry_key(#[trigger] s[j])
}

/// The plaintext an entry opens to under its own reference's context.
pub open spec fn entry_plain<E: SecretVaultEncryption>(
    enc: E,
    e: SecretVaultStoreEntry<E::Sealed>,
) -> Seq<u8> {
    enc.opens_to(entry_key(e), e.encrypted).unwrap()
}

/// What a sequence of entries holds: each identity mapped to the plaintext
/// of its sealed value.
pub open spec fn entries_map<E: SecretVaultEncryption>(
    enc: E,
    s: Seq<SecretVaultStoreEntry<E::Sealed>>,
) -> Map<SecretRefKey, Seq<u8>>
    decreases s.len(),
{
    if s.len() == 0 {
        Map::empty()
    } else {
        entries_map(enc, s.drop_last()).insert(entry_key(s.last()), entry_plain(enc, s.last()))
    }
}

/// An identity is held exactly when some entry carries it.
pub proof fn lemma_entries_map_contains<E: SecretVaultEncryption>(
    enc: E,
    s: Seq<SecretVaultStoreEntry<E::Sealed>>,
    k: SecretRefKey,
)
    ensures
        entries_map(enc, s).contains_key(k) <==> exists|i: int| 0 <= i < s.len() && entry_key(s[i]) == k,
    decreases s.len(),
{
    if s.len() > 0 {
        let p = s.drop_last();
        lemma_entries_map_contains(enc, p, k);
        if entries_map(enc, p).contains_key(k) {
            let i = choose|i: int| 0 <= i < p.len() && entry_key(p[i]) == k;
            assert(entry_key(s[i]) == k);
        }
        if exists|i: int| 0 <= i < s.len() && entry_key(s[i]) == k {
            let i = choose|i: int| 0 <= i < s.len() && entry_key(s[i]) == k;
            if i < s.len() - 1 {
                assert(entry_key(p[i]) == k);
            }
        }
    }
}

/// With unique identities, each entry's identity maps to its own plaintext.
pub proof fn lemma_entries_map_value<E: SecretVaultEncryption>(
    enc: E,
    s: Seq<SecretVaultStoreEntry<E::Sealed>>,
    i: int,
)
    requires
        keys_unique(s),
        0 <= i < s.len(),
    ensures
        entries_map(enc, s).contains_key(entry_key(s[i])),
        entries_map(enc, s)[entry_key(s[i])] == entry_plain(enc, s[i]),
    decreases s.len(),
{
    let p = s.drop_last();
    if i < s.len() - 1 {
        assert(keys_unique(p)) by {
            assert forall|a: int, b: int|
                0 <= a < p.len() && 0 <= b < p.len() && a != b implies entry_key(#[trigger] p[a])
                != entry_key(#[trigger] p[b]) by {
                assert(p[a] == s[a] && p[b] == s[b]);
            }
        }
        assert(p[i] == s[i]);
        lemma_entries_map_value(enc, p, i);
        assert(entry_key(s[i]) != entry_key(s[s.len() - 1]));
    }
}

/// With unique identities, the map has one key per entry.
pub proof fn lemma_entries_map_len<E: SecretVaultEncryption>(
    enc: E,
    s: Seq<SecretVaultStoreEntry<E::Sealed>>,
)
    requires
        keys_unique(s),
    ensures
        entries_map(enc, s).dom().finite(),
        entries_map(enc, s).dom().len() == s.len(),
    decreases s.len(),
{
    if s.len() > 0 {
        let p = s.drop_last();
        assert(keys_unique(p)) by {
            assert forall|a: int, b: int|
                0 <= a < p.len() && 0 <= b < p.len() && a != b implies entry_key(#[trigger] p[a])
                != entry_key(#[trigger] p[b]) by {
                assert(p[a] == s[a] && p[b] == s[b]);
            }
        }
        lemma_entries_map_len(enc, p);
        lemma_entries_map_contains(enc, p, entry_key(s.last()));
        if entries_map(enc, p).contains_key(entry_key(s.last())) {
            let i = choose|i: int| 0 <= i < p.len() && entry_key(p[i]) == entry_key(s.last());
            assert(s[i] == p[i]);
            assert(false);
        }
    }
}

/// Replacing an entry by one of the same identity replaces that key's value.
pub proof fn lemma_entries_map_update<E: SecretVaultEncryption>(
    enc: E,
    s: Seq<SecretVaultStoreEntry<E::Sealed>>,
    idx: int,
    e: SecretVaultStoreEntry<E::Sealed>,
)
    requires
        keys_unique(s),
        0 <= idx < s.len(),
        entry_key(e) == entry_key(s[idx]),
    ensures
        keys_unique(s.update(idx, e)),
        entries_map(enc, s.update(idx, e)) == entries_map(enc, s).insert(
            entry_key(e),
            entry_plain(enc, e),
        ),
{
    let t = s.update(idx, e);
    assert forall|a: int, b: int|
        0 <= a < t.len() && 0 <= b < t.len() && a != b implies entry_key(#[trigger] t[a])
        != entry_key(#[trigger] t[b]) by {
        assert(entry_key(t[a]) == entry_key(s[a]));
        assert(entry_key(t[b]) == entry_key(s[b]));
    }
    let m = entries_map(enc, s).insert(entry_key(e), entry_plain(enc, e));
    assert forall|k: SecretRefKey| #[trigger] entries_map(enc, t).contains_key(k) == m.contains_key(k) by {
        lemma_entries_map_contains(enc, s, k);
        lemma_entries_map_contains(enc, t, k);
        if exists|i: int| 0 <= i < s.len() && entry_key(s[i]) == k {
            let i = choose|i: int| 0 <= i < s.len() && entry_key(s[i]) == k;
            assert(entry_key(t[i]) == k);
        }
        if exists|i: int| 0 <= i < t.len() && entry_key(t[i]) == k {
            let i = choose|i: int| 0 <= i < t.len() && entry_key(t[i]) == k;
            assert(entry_key(s[i]) == k);
        }
    }
    assert forall|k: SecretRefKey| #[trigger] entries_map(enc, t).contains_key(k) implies entries_map(enc, t)[k] == m[k] by {
        lemma_entries_map_contains(enc, t, k);
        let i = choose|i: int| 0 <= i < t.len() && entry_key(t[i]) == k;
        lemma_entries_map_value(enc, t, i);
        if i != idx {
            lemma_entries_map_value(enc, s, i);
            assert(t[i] == s[i]);
        }
    }
    assert(entries_map(enc, t) =~= m);
}

/// The position of the entry with identity `k`.
pub open spec fn index_of<T>(s: Seq<SecretVaultStoreEntry<T>>, k: SecretRefKey) -> int {
    choose|i: int| 0 <= i < s.len() && entry_key(s[i]) == k
}

/// The metadata of the entry with identity `k`, as plain values, if any.
pub open spec fn metadata_of_seq<T>(s: Seq<SecretVaultStoreEntry<T>>, k: SecretRefKey) -> Option<
    SecretMetadataView,
> {
    if exists|i: int| 0 <= i < s.len() && entry_key(s[i]) == k {
        Some(metadata_view(s[index_of(s, k)].metadata))
    } else {
        None
    }
}

/// With unique identities, the entry with an identity is the one chosen.
proof fn lemma_index_of<T>(s: Seq<SecretVaultStoreEntry<T>>, i: int)
    requires
        keys_unique(s),
        0 <= i < s.len(),
    ensures
        index_of(s, entry_key(s[i])) == i,
{
    let j = index_of(s, entry_key(s[i]));
    assert(0 <= j < s.len() && entry_key(s[j]) == entry_key(s[i]));
}

/// The store of sealed secrets. Each value is sealed under the context of its
/// own reference, and each identity is held at most once.
pub struct SecretVaultStore<E: SecretVaultEncryption> {
    encryption: E,
    entries: Vec<SecretVaultStoreEntry<E::Sealed>>,
}

impl<E: SecretVaultEncryption> View for SecretVaultStore<E> {
    type V = Map<SecretRefKey, Seq<u8>>;

    closed spec fn view(&self) -> Map<SecretRefKey, Seq<u8>> {
        entries_map(self.encryption, self.entries@)
    }
}

impl<E: SecretVaultEncryption> SecretVaultStore<E> {
    /// Identities are unique and each value is sealed under its own
    /// reference's context.
    pub closed spec fn wf(&self) -> bool {
        &&& keys_unique(self.entries@)
        &&& forall|i: int|
            0 <= i < self.entries@.len() ==> self.encryption.opens_to(
                (#[trigger] self.entries@[i]).secret_ref.key(),
                self.entries@[i].encrypted,
            ) is Some
    }

    /// Storing and reading never fail: the backend is infallible.
    pub closed spec fn infallible(&self) -> bool {
        self.encryption.infallible()
    }

    /// The metadata held for identity `k`, as plain values.
    pub closed spec fn metadata_of(&self, k: SecretRefKey) -> Option<SecretMetadataView> {
        metadata_of_seq(self.entries@, k)
    }

    /// An empty store.
    pub fn new(encryption: E) -> (r: Self)
        ensures
            r.wf(),
            r.infallible() == encryption.infallible(),
            r@ == Map::<SecretRefKey, Seq<u8>>::empty(),
    {
        SecretVaultStore { encryption, entries: Vec::new() }
    }

    /// The position of the entry with the identity of `secret_ref`, if any.
    fn find(&self, secret_ref: &SecretVaultRef) -> (r: Option<usize>)
        requires
            self.wf(),
        ensures
            match r {
                Some(i) => i < self.entries@.len() && self.entries@[i as int].secret_ref.key()
                    == secret_ref.key(),
                None => !self@.contains_key(secret_ref.key()),
            },
    {
        let mut i: usize = 0;
        while i < self.entries.len()
            invariant
                i <= self.entries@.len(),
                forall|j: int| 0 <= j < i ==> entry_key(#[trigger] self.entries@[j]) != secret_ref.key(),
            decreases self.entries@.len() - i,
        {
            if self.entries[i].secret_ref.same_identity(secret_ref) {
                return Some(i);
            }
            i = i + 1;
        }
        proof {
            lemma_entries_map_contains(self.encryption, self.entries@, secret_ref.key());
        }
        None
    }

    /// Seals the value of `secret` under the context of `secret_ref` and
    /// stores it with the metadata, replacing what was held for that identity.
    pub fn insert(&mut self, secret_ref: SecretVaultRef, secret: &Secret) -> (r:
        SecretVaultResult<()>)
        requires
            old(self).wf(),
        ensures
            final(self).wf(),
            r is Ok ==> final(self)@ == old(self)@.insert(
                secret_ref.key(),
                secret_value_bytes(secret.value),
            ),
            r is Err ==> final(self)@ == old(self)@,
            old(self).infallible() ==> r is Ok,
            r is Err ==> (r matches Err(SecretVaultError::EncryptionError(_))),
            final(self).infallible() == old(self).infallible(),
            r is Ok ==> final(self).metadata_of(secret_ref.key()) == Some(
                metadata_view(secret.metadata),
            ),
            r is Ok ==> forall|k: SecretRefKey|
                k != secret_ref.key() ==> #[trigger] final(self).metadata_of(k) == old(
                    self,
                ).metadata_of(k),
            r is Err ==> forall|k: SecretRefKey| #[trigger] final(self).metadata_of(k) == old(
                self,
            ).metadata_of(k),
    {
        let context = SecretVaultEncryptionContext::from_ref(&secret_ref);
        let encrypted = match self.encryption.encrypt_value(&context, &secret.value) {
            Ok(e) => e,
            Err(e) => return Err(e),
        };
        let entry = SecretVaultStoreEntry {
            secret_ref,
            encrypted,
            metadata: secret.metadata.duplicate(),
        };
        proof {
            assert(entry_key(entry) == secret_ref.key());
            assert(entry_plain(self.encryption, entry) == secret_value_bytes(secret.value));
        }
        match self.find(&entry.secret_ref) {
            Some(idx) => {
                proof {
                    lemma_entries_map_update(self.encryption, self.entries@, idx as int, entry);
                }
                let ghost s = self.entries@;
                self.entries.set(idx, entry);
                proof {
                    let t = self.entries@;
                    assert(t == s.update(idx as int, entry));
                    lemma_index_of(t, idx as int);
                    assert forall|k: SecretRefKey| k != entry_key(entry) implies #[trigger] self.metadata_of(k)
                        == metadata_of_seq(s, k) by {
                        if exists|i: int| 0 <= i < s.len() && entry_key(s[i]) == k {
                            let i = choose|i: int| 0 <= i < s.len() && entry_key(s[i]) == k;
                            assert(t[i] == s[i]);
                            lemma_index_of(s, i);
                            lemma_index_of(t, i);
                        }
                        if exists|i: int| 0 <= i < t.len() && entry_key(t[i]) == k {
                            let i = choose|i: int| 0 <= i < t.len() && entry_key(t[i]) == k;
                            assert(t[i] == s[i]);
                        }
                    }
                }
            },
            None => {
                proof {
                    lemma_entries_map_contains(self.encryption, self.entries@, entry_key(entry));
                    assert(self.entries@.push(entry).drop_last() =~= self.entries@);
                }
                let ghost s = self.entries@;
                self.entries.push(entry);
                proof {
                    let t = self.entries@;
                    assert(t == s.push(entry));
                    assert(keys_unique(t)) by {
                        assert forall|a: int, b: int|
                            0 <= a < t.len() && 0 <= b < t.len() && a != b implies entry_key(
                            #[trigger] t[a],
                        ) != entry_key(#[trigger] t[b]) by {
                            if a < s.len() {
                                assert(t[a] == s[a]);
                            }
                            if b < s.len() {
                                assert(t[b] == s[b]);
                            }
                        }
                    }
                    lemma_index_of(t, s.len() as int);
                    assert forall|k: SecretRefKey| k != entry_key(entry) implies #[trigger] self.metadata_of(k)
                        == metadata_of_seq(s, k) by {
                        if exists|i: int| 0 <= i < s.len() && entry_key(s[i]) == k {
                            let i = choose|i: int| 0 <= i < s.len() && entry_key(s[i]) == k;
                            assert(t[i] == s[i]);
                            lemma_index_of(s, i);
                            lemma_index_of(t, i);
                        }
                        if exists|i: int| 0 <= i < t.len() && entry_key(t[i]) == k {
                            let i = choose|i: int| 0 <= i < t.len() && entry_key(t[i]) == k;
                            assert(i < s.len());
                            assert(t[i] == s[i]);
                        }
                    }
                }
            },
        }
        Ok(())
    }

    /// The plaintext held for the identity of `secret_ref`, or `None` when
    /// nothing is held for it.
    pub fn get_secret(&self, secret_ref: &SecretVaultRef) -> (r: SecretVaultResult<
        Option<SecretValue>,
    >)
        requires
            self.wf(),
        ensures
            lookup_answer(self@, *secret_ref, r),
            self.infallible() ==> r is Ok,
    {
        match self.find(secret_ref) {
            Some(idx) => {
                let entry = &self.entries[idx];
                proof {
                    lemma_entries_map_value(self.encryption, self.entries@, idx as int);
                }
                let context = SecretVaultEncryptionContext::from_ref(secret_ref);
                match self.encryption.decrypt_value(&context, &entry.encrypted) {
                    Ok(v) => Ok(Some(v)),
                    Err(e) => Err(e),
                }
            },
            None => Ok(None),
        }
    }

    /// The metadata held for the identity of `secret_ref`, if any.
    pub fn get_metadata(&self, secret_ref: &SecretVaultRef) -> (r: Option<&SecretMetadata>)
        requires
            self.wf(),
        ensures
            r is Some <==> self@.contains_key(secret_ref.key()),
            r matches Some(m) ==> self.metadata_of(secret_ref.key()) == Some(metadata_view(*m)),
            r is None ==> self.metadata_of(secret_ref.key()) is None,
    {
        match self.find(secret_ref) {
            Some(idx) => {
                proof {
                    lemma_entries_map_value(self.encryption, self.entries@, idx as int);
                }
                proof {
                    lemma_index_of(self.entries@, idx as int);
                }
                Some(&self.entries[idx].metadata)
            },
            None => {
                proof {
                    lemma_entries_map_contains(self.encryption, self.entries@, secret_ref.key());
                }
                None
            },
        }
    }

    /// The number of identities held.
    pub fn len(&self) -> (r: usize)
        requires
            self.wf(),
        ensures
            r as nat == self@.len(),
    {
        proof {
            lemma_entries_map_len(self.encryption, self.entries@);
        }
        self.entries.len()
    }
}

} // verus!

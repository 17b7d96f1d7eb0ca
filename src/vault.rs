//! The vault: a working set of references, a source to fetch them from, and
//! the store they are kept in; with its borrowed and owned read-only views.

use vstd::prelude::*;

use crate::common_types::{Secret, SecretMetadataView, SecretRefKey, SecretVaultRef};
use crate::errors::error_view;
use crate::multiple_sources::{
    all_required_resolved, failed_count, in_out, merge_source_results, merged_from, resolved,
    resolved_metadata,
    SourceSecrets,
};
use crate::secure_value::secret_value_bytes;
use crate::encryption::SecretVaultEncryption;
use crate::vault_store::{lookup_answer, SecretVaultStore};
use crate::SecretVaultResult;
use secret_vault_value::SecretValue;

verus! {

/// What a refresh fetches: every identity that some source returned, with
/// the value of the earliest source that returned it.
pub open spec fn fetched_map(answers: Seq<SourceSecrets>) -> Map<SecretRefKey, Seq<u8>> {
    Map::new(
        |k: SecretRefKey| resolved(answers, k) is Some,
        |k: SecretRefKey| resolved(answers, k).unwrap(),
    )
}

/// Some entry among the first `n` of `entries` has identity `k`.
pub open spec fn in_prefix(entries: Seq<(SecretVaultRef, Secret)>, n: int, k: SecretRefKey) -> bool {
    exists|a: int| 0 <= a < n && entries[a].0.key() == k
}

/// `name` is the name of the first required reference of `refs` that no
/// source resolved.
pub open spec fn first_missing_named(
    refs: Seq<SecretVaultRef>,
    answers: Seq<SourceSecrets>,
    name: Seq<char>,
) -> bool {
    exists|i: int|
        0 <= i < refs.len() && refs[i].required && resolved(answers, refs[i].key()) is None
            && name == refs[i].secret_name.0@ && forall|a: int|
            0 <= a < i && (#[trigger] refs[a]).required ==> resolved(answers, refs[a].key()) is Some
}

/// `after` is `before` with the fetched values stored for some of the
/// fetched identities: those stored before a failure, and no others.
pub open spec fn partially_refreshed(
    before: Map<SecretRefKey, Seq<u8>>,
    after: Map<SecretRefKey, Seq<u8>>,
    fetched: Map<SecretRefKey, Seq<u8>>,
) -> bool {
    exists|done: Set<SecretRefKey>|
        done.subset_of(fetched.dom()) && after == before.union_prefer_right(
            #[trigger] fetched.restrict(done),
        )
}

/// A store that took the first `j` merged entries over `before` is partially
/// refreshed.
proof fn lemma_prefix_partially_refreshed(
    before: Map<SecretRefKey, Seq<u8>>,
    after: Map<SecretRefKey, Seq<u8>>,
    merged: Seq<(SecretVaultRef, Secret)>,
    j: int,
    answers: Seq<SourceSecrets>,
)
    requires
        0 <= j <= merged.len(),
        merged_from(merged, answers),
        forall|k: SecretRefKey|
            #[trigger] after.contains_key(k) <==> before.contains_key(k) || in_prefix(merged, j, k),
        forall|k: SecretRefKey|
            #[trigger] after.contains_key(k) ==> after[k] == if in_prefix(merged, j, k) {
                resolved(answers, k).unwrap()
            } else {
                before[k]
            },
    ensures
        partially_refreshed(before, after, fetched_map(answers)),
{
    let fetched = fetched_map(answers);
    let done = Set::new(|k: SecretRefKey| in_prefix(merged, j, k));
    assert forall|k: SecretRefKey| done.contains(k) implies fetched.dom().contains(k) by {
        let a = choose|a: int| 0 <= a < j && merged[a].0.key() == k;
        assert(resolved(answers, merged[a].0.key()) is Some);
    }
    assert(after =~= before.union_prefer_right(fetched.restrict(done)));
}

/// What a refresh from `answers` promises, from contents `before` to
/// `after` with working set `refs`: success exactly with the outcome; with
/// no outcome, the store untouched and the sources' failure or the first
/// missing required reference; and, when an insert failed, a partial
/// refresh and that insert's encryption error.
pub open spec fn refresh_done(
    before: Map<SecretRefKey, Seq<u8>>,
    after: Map<SecretRefKey, Seq<u8>>,
    refs: Seq<SecretVaultRef>,
    answers: Seq<SourceSecrets>,
    infallible: bool,
    r: SecretVaultResult<()>,
) -> bool {
    &&& infallible && refresh_outcome(before, refs, answers) is Some ==> r is Ok
    &&& r is Ok ==> refresh_outcome(before, refs, answers) is Some && after == refresh_outcome(
        before,
        refs,
        answers,
    ).unwrap()
    &&& refresh_outcome(before, refs, answers) is None ==> (r is Err && after == before)
    &&& refresh_outcome(before, refs, answers) is None ==> (r matches Err(e) && {
        &&& failed_count(answers) == 0 ==> error_view(e).0 == 1 && first_missing_named(
            refs,
            answers,
            error_view(e).2,
        )
        &&& failed_count(answers) == 1 ==> exists|s: int|
            0 <= s < answers.len() && (#[trigger] answers[s] matches Err(x) && error_view(e)
                == error_view(x))
        &&& failed_count(answers) > 1 ==> error_view(e).0 == 0
    })
    &&& r is Err && refresh_outcome(before, refs, answers) is Some ==> partially_refreshed(
        before,
        after,
        fetched_map(answers),
    ) && (r matches Err(e) && e is EncryptionError)
}


/// What the store holds after a refresh from `before` with these answers,
/// or `None` when the refresh fails.
pub open spec fn refresh_outcome(
    before: Map<SecretRefKey, Seq<u8>>,
    refs: Seq<SecretVaultRef>,
    answers: Seq<SourceSecrets>,
) -> Option<Map<SecretRefKey, Seq<u8>>> {
    if all_required_resolved(refs, answers) {
        Some(before.union_prefer_right(fetched_map(answers)))
    } else {
        None
    }
}

/// A vault over a source of type `S`. Fetching from the source is the
/// caller's part; the vault reconciles the answers and keeps the values.
pub struct SecretVault<S, E: SecretVaultEncryption> {
    source: S,
    store: SecretVaultStore<E>,
    refs: Vec<SecretVaultRef>,
}

impl<S, E: SecretVaultEncryption> SecretVault<S, E> {
    pub closed spec fn wf(&self) -> bool {
        self.store.wf()
    }

    /// Storing and reading never fail in this vault's store.
    pub closed spec fn infallible(&self) -> bool {
        self.store.infallible()
    }

    /// The metadata the vault's store holds for identity `k`.
    pub closed spec fn metadata_of(&self, k: SecretRefKey) -> Option<SecretMetadataView> {
        self.store.metadata_of(k)
    }

    /// What the vault's store holds.
    pub closed spec fn contents(&self) -> Map<SecretRefKey, Seq<u8>> {
        self.store@
    }

    /// The source the vault was built with.
    pub closed spec fn source_view(&self) -> S {
        self.source
    }

    /// The working set of references.
    pub closed spec fn refs_view(&self) -> Seq<SecretVaultRef> {
        self.refs@
    }

    /// A vault with an empty working set.
    pub fn new(source: S, store: SecretVaultStore<E>) -> (r: SecretVaultResult<Self>)
        requires
            store.wf(),
        ensures
            r matches Ok(v) && v.wf() && v.contents() == store@ && v.refs_view().len() == 0
                && v.infallible() == store.infallible(),
    {
        Ok(SecretVault { source, store, refs: Vec::new() })
    }

    /// The source to fetch the working set from.
    pub fn source(&self) -> (r: &S)
        ensures
            *r == self.source_view(),
    {
        &self.source
    }

    /// The working set of references.
    pub fn refs(&self) -> (r: &Vec<SecretVaultRef>)
        ensures
            r@ == self.refs_view(),
    {
        &self.refs
    }

    /// Replaces the working set by copies of `secret_refs`.
    pub fn with_secrets_refs(&mut self, secret_refs: Vec<&SecretVaultRef>) -> (r: &mut Self)
        requires
            old(self).wf(),
        ensures
            r.wf(),
            r.contents() == old(self).contents(),
            r.infallible() == old(self).infallible(),
            r.refs_view().len() == secret_refs@.len(),
            forall|i: int|
                0 <= i < secret_refs@.len() ==> (#[trigger] r.refs_view()[i]).key()
                    == secret_refs@[i].key() && r.refs_view()[i].required
                    == secret_refs@[i].required,
            *final(self) == *final(r),
    {
        let mut refs: Vec<SecretVaultRef> = Vec::new();
        let mut i: usize = 0;
        while i < secret_refs.len()
            invariant
                i <= secret_refs@.len(),
                refs@.len() == i,
                forall|j: int|
                    0 <= j < i ==> (#[trigger] refs@[j]).key() == secret_refs@[j].key()
                        && refs@[j].required == secret_refs@[j].required,
            decreases secret_refs@.len() - i,
        {
            refs.push(secret_refs[i].duplicate());
            i = i + 1;
        }
        self.refs = refs;
        self
    }

    /// Stores what the vault's one source answered for the working set. When
    /// the source failed, its error comes back unchanged and the store is
    /// untouched; otherwise this is a refresh from that one answer.
    pub fn refresh(&mut self, answer: SourceSecrets) -> (r: SecretVaultResult<()>)
        requires
            old(self).wf(),
        ensures
            final(self).wf(),
            final(self).refs_view() == old(self).refs_view(),
            final(self).infallible() == old(self).infallible(),
            answer matches Err(x) ==> (r matches Err(y) && error_view(y) == error_view(x)),
            answer is Err ==> final(self).contents() == old(self).contents(),
            answer is Err ==> forall|k: SecretRefKey| #[trigger] final(self).metadata_of(k) == old(
                self,
            ).metadata_of(k),
            answer is Ok && r is Ok ==> forall|k: SecretRefKey| #[trigger] final(self).metadata_of(k)
                == if resolved(seq![answer], k) is Some {
                resolved_metadata(seq![answer], k)
            } else {
                old(self).metadata_of(k)
            },
            answer is Ok ==> refresh_done(
                old(self).contents(),
                final(self).contents(),
                old(self).refs_view(),
                seq![answer],
                old(self).infallible(),
                r,
            ),
    {
        match answer {
            Err(x) => Err(x),
            Ok(v) => {
                let answers = vec![Ok(v)];
                let r = self.refresh_from_sources(&answers);
                proof {
                    assert(answers@ =~= seq![answer]);
                    reveal_with_fuel(failed_count, 2);
                }
                r
            },
        }
    }

    /// Reconciles the answers of several sources, given in configuration
    /// order, and stores every pair they returned, the earliest source
    /// winning an identity that several return. Fails, leaving the store as
    /// it was, when a required reference of the working set is returned by
    /// none. A failed store insert ends it early: entries stored before stay,
    /// and each entry holds either its old value or its fetched one.
    pub fn refresh_from_sources(&mut self, answers: &Vec<SourceSecrets>) -> (r: SecretVaultResult<()>)
        requires
            old(self).wf(),
        ensures
            final(self).wf(),
            final(self).refs_view() == old(self).refs_view(),
            final(self).infallible() == old(self).infallible(),
            refresh_done(
                old(self).contents(),
                final(self).contents(),
                old(self).refs_view(),
                answers@,
                old(self).infallible(),
                r,
            ),
            r is Ok ==> forall|k: SecretRefKey| #[trigger] final(self).metadata_of(k) == if resolved(
                answers@,
                k,
            ) is Some {
                resolved_metadata(answers@, k)
            } else {
                old(self).metadata_of(k)
            },
    {
        let merged = match merge_source_results(&self.refs, answers) {
            Ok(m) => m,
            Err(e) => return Err(e),
        };
        let ghost before = self.store@;
        let ghost refs = self.refs@;
        let mut j: usize = 0;
        while j < merged.len()
            invariant
                self.store.wf(),
                self.refs@ == refs,
                refs == old(self).refs@,
                before == old(self).store@,
                all_required_resolved(refs, answers@),
                self.store.infallible() == old(self).store.infallible(),
                j <= merged@.len(),
                merged_from(merged@, answers@),
                forall|k: SecretRefKey|
                    #[trigger] self.store@.contains_key(k) <==> before.contains_key(k) || in_prefix(
                        merged@,
                        j as int,
                        k,
                    ),
                forall|k: SecretRefKey|
                    #[trigger] self.store.metadata_of(k) == if in_prefix(merged@, j as int, k) {
                        resolved_metadata(answers@, k)
                    } else {
                        old(self).store.metadata_of(k)
                    },
                forall|k: SecretRefKey|
                    #[trigger] self.store@.contains_key(k) ==> self.store@[k] == if in_prefix(
                        merged@,
                        j as int,
                        k,
                    ) {
                        resolved(answers@, k).unwrap()
                    } else {
                        before[k]
                    },
            decreases merged@.len() - j,
        {
            match self.store.insert(merged[j].0.duplicate(), &merged[j].1) {
                Ok(()) => {},
                Err(e) => {
                    proof {
                        lemma_prefix_partially_refreshed(
                            before,
                            self.store@,
                            merged@,
                            j as int,
                            answers@,
                        );
                    }
                    return Err(e);
                },
            }
            proof {
                let kj = merged@[j as int].0.key();
                assert(resolved(answers@, merged@[j as int].0.key()) == Some(
                    secret_value_bytes(merged@[j as int].1.value),
                ));
                assert forall|k: SecretRefKey|
                    #[trigger] in_prefix(merged@, j + 1, k) <==> (in_prefix(merged@, j as int, k)
                        || k == kj) by {
                    if in_prefix(merged@, j + 1, k) {
                        let a = choose|a: int| 0 <= a < j + 1 && merged@[a].0.key() == k;
                        if a < j {
                            assert(0 <= a < j && merged@[a].0.key() == k);
                        }
                    }
                    if k == kj {
                        assert(0 <= j < j + 1 && merged@[j as int].0.key() == k);
                    }
                }
            }
            j = j + 1;
        }
        proof {
            let target = before.union_prefer_right(fetched_map(answers@));
            assert forall|k: SecretRefKey|
                #[trigger] in_prefix(merged@, merged@.len() as int, k) <==> fetched_map(
                    answers@,
                ).contains_key(k) by {
                if in_prefix(merged@, merged@.len() as int, k) {
                    let a = choose|a: int| 0 <= a < merged@.len() && merged@[a].0.key() == k;
                    assert(resolved(answers@, merged@[a].0.key()) is Some);
                }
                if resolved(answers@, k) is Some {
                    assert(in_out(merged@, k));
                }
            }
            assert(self.store@ =~= target);
        }
        Ok(())
    }

    /// The plaintext held for the identity of `secret_ref`, if any.
    pub fn get_secret_by_ref(&self, secret_ref: &SecretVaultRef) -> (r: SecretVaultResult<
        Option<SecretValue>,
    >)
        requires
            self.wf(),
        ensures
            lookup_answer(self.contents(), *secret_ref, r),
            self.infallible() ==> r is Ok,
    {
        self.store.get_secret(secret_ref)
    }

    /// A read-only view that borrows the vault's store.
    pub fn viewer(&self) -> (r: SecretVaultViewer<'_, E>)
        requires
            self.wf(),
        ensures
            r.wf(),
            r.contents() == self.contents(),
            r.infallible() == self.infallible(),
    {
        SecretVaultViewer { store: &self.store }
    }

    /// Consumes the vault and hands its store to an owned read-only view.
    pub fn snapshot(self) -> (r: SecretVaultSnapshot<E>)
        requires
            self.wf(),
        ensures
            r.wf(),
            r.contents() == self.contents(),
            r.infallible() == self.infallible(),
    {
        SecretVaultSnapshot { store: self.store }
    }
}

/// A read-only view borrowing a vault's store; it cannot outlive the vault.
pub struct SecretVaultViewer<'a, E: SecretVaultEncryption> {
    store: &'a SecretVaultStore<E>,
}

impl<'a, E: SecretVaultEncryption> SecretVaultViewer<'a, E> {
    pub closed spec fn wf(&self) -> bool {
        self.store.wf()
    }

    /// Reading never fails.
    pub closed spec fn infallible(&self) -> bool {
        self.store.infallible()
    }

    pub closed spec fn contents(&self) -> Map<SecretRefKey, Seq<u8>> {
        self.store@
    }

    /// The plaintext held for the identity of `secret_ref`, if any.
    pub fn get_secret_by_ref(&self, secret_ref: &SecretVaultRef) -> (r: SecretVaultResult<
        Option<SecretValue>,
    >)
        requires
            self.wf(),
        ensures
            lookup_answer(self.contents(), *secret_ref, r),
            self.infallible() ==> r is Ok,
    {
        self.store.get_secret(secret_ref)
    }
}

/// A read-only view owning the store of a consumed vault.
pub struct SecretVaultSnapshot<E: SecretVaultEncryption> {
    store: SecretVaultStore<E>,
}

impl<E: SecretVaultEncryption> SecretVaultSnapshot<E> {
    pub closed spec fn wf(&self) -> bool {
        self.store.wf()
    }

    /// Reading never fails.
    pub closed spec fn infallible(&self) -> bool {
        self.store.infallible()
    }

    pub closed spec fn contents(&self) -> Map<SecretRefKey, Seq<u8>> {
        self.store@
    }

    /// The plaintext held for the identity of `secret_ref`, if any.
    pub fn get_secret_by_ref(&self, secret_ref: &SecretVaultRef) -> (r: SecretVaultResult<
        Option<SecretValue>,
    >)
        requires
            self.wf(),
        ensures
            lookup_answer(self.contents(), *secret_ref, r),
            self.infallible() ==> r is Ok,
    {
        self.store.get_secret(secret_ref)
    }
}

} // verus!

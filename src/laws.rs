//! Properties that relate several operations of the vault.

use vstd::prelude::*;

use crate::common_types::{SecretRefKey, SecretVaultRef};
use crate::multiple_sources::{all_required_resolved, found_in, resolved, SourceSecrets};
use crate::secure_value::secret_value_bytes;
use crate::vault::refresh_outcome;
use crate::vault_store::lookup_answer;
use crate::SecretVaultResult;
use secret_vault_value::SecretValue;

verus! {

/// A reference that no source returned, and that the store did not hold,
/// is absent after a refresh that succeeds because every required reference
/// was returned.
pub proof fn lemma_optional_missing_tolerated(
    before: Map<SecretRefKey, Seq<u8>>,
    refs: Seq<SecretVaultRef>,
    answers: Seq<SourceSecrets>,
    r: SecretVaultRef,
)
    requires
        !r.required,
        resolved(answers, r.key()) is None,
        !before.contains_key(r.key()),
        all_required_resolved(refs, answers),
    ensures
        refresh_outcome(before, refs, answers) is Some,
        !refresh_outcome(before, refs, answers).unwrap().contains_key(r.key()),
{
}

/// A required reference of the working set that no source returned fails
/// the refresh.
pub proof fn lemma_required_missing_fails(
    before: Map<SecretRefKey, Seq<u8>>,
    refs: Seq<SecretVaultRef>,
    answers: Seq<SourceSecrets>,
    i: int,
)
    requires
        0 <= i < refs.len(),
        refs[i].required,
        resolved(answers, refs[i].key()) is None,
    ensures
        refresh_outcome(before, refs, answers) is None,
{
    assert(!all_required_resolved(refs, answers));
}

/// A value stored for a reference is read back for it, byte for byte, by
/// a read that does not fail.
pub proof fn lemma_round_trip(
    before: Map<SecretRefKey, Seq<u8>>,
    r: SecretVaultRef,
    v: SecretValue,
    answer: SecretVaultResult<Option<SecretValue>>,
)
    requires
        lookup_answer(before.insert(r.key(), secret_value_bytes(v)), r, answer),
        answer is Ok,
    ensures
        answer.unwrap() is Some,
        secret_value_bytes(answer.unwrap().unwrap()) == secret_value_bytes(v),
{
}

/// Storing twice for one reference leaves the second value; the first is
/// no longer reachable by a read that does not fail.
pub proof fn lemma_overwrite(
    before: Map<SecretRefKey, Seq<u8>>,
    r: SecretVaultRef,
    v1: SecretValue,
    v2: SecretValue,
    answer: SecretVaultResult<Option<SecretValue>>,
)
    requires
        lookup_answer(
            before.insert(r.key(), secret_value_bytes(v1)).insert(r.key(), secret_value_bytes(v2)),
            r,
            answer,
        ),
        answer is Ok,
    ensures
        answer.unwrap() is Some,
        secret_value_bytes(answer.unwrap().unwrap()) == secret_value_bytes(v2),
{
}

/// When the first of two sources returns a value for an identity, that
/// value wins over the second source's.
pub proof fn lemma_first_source_wins(a: SourceSecrets, b: SourceSecrets, k: SecretRefKey)
    requires
        a is Ok,
        found_in(a.unwrap()@, k) is Some,
    ensures
        resolved(seq![a, b], k) == found_in(a.unwrap()@, k),
{
    reveal_with_fuel(resolved, 2);
}

/// After a refresh from two sources that both return a value for a
/// reference, the store holds the first source's value.
pub proof fn lemma_first_source_wins_stored(
    before: Map<SecretRefKey, Seq<u8>>,
    refs: Seq<SecretVaultRef>,
    a: SourceSecrets,
    b: SourceSecrets,
    r: SecretVaultRef,
)
    requires
        a is Ok,
        found_in(a.unwrap()@, r.key()) is Some,
        all_required_resolved(refs, seq![a, b]),
    ensures
        refresh_outcome(before, refs, seq![a, b]) is Some,
        refresh_outcome(before, refs, seq![a, b]).unwrap().contains_key(r.key()),
        refresh_outcome(before, refs, seq![a, b]).unwrap()[r.key()] == found_in(
            a.unwrap()@,
            r.key(),
        ).unwrap(),
{
    lemma_first_source_wins(a, b, r.key());
}

} // verus!

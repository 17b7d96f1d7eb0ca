//! Reconciling what several sources returned for one list of references:
//! the earliest source wins a tie, missing optional references are dropped,
//! and a missing required reference fails the whole.

use vstd::prelude::*;

use crate::common_types::{metadata_view, Secret, SecretMetadataView, SecretRefKey, SecretVaultRef};
use crate::errors::{error_view, SecretVaultDataNotFoundError, SecretVaultError, SecretVaultSystemError};
use crate::secure_value::secret_value_bytes;
use crate::SecretVaultResult;

verus! {

/// What one source answered: the values it found, or its failure.
pub type SourceSecrets = SecretVaultResult<Vec<(SecretVaultRef, Secret)>>;

/// The plaintext of the first entry with identity `k`, if any.
pub open spec fn found_in(entries: Seq<(SecretVaultRef, Secret)>, k: SecretRefKey) -> Option<
    Seq<u8>,
>
    decreases entries.len(),
{
    if entries.len() == 0 {
        None
    } else if entries[0].0.key() == k {
        Some(secret_value_bytes(entries[0].1.value))
    } else {
        found_in(entries.drop_first(), k)
    }
}

/// The metadata of the first entry with identity `k`, if any.
pub open spec fn found_metadata(entries: Seq<(SecretVaultRef, Secret)>, k: SecretRefKey) -> Option<
    SecretMetadataView,
>
    decreases entries.len(),
{
    if entries.len() == 0 {
        None
    } else if entries[0].0.key() == k {
        Some(metadata_view(entries[0].1.metadata))
    } else {
        found_metadata(entries.drop_first(), k)
    }
}

/// The metadata for identity `k` from the earliest source that answered
/// with a value for it, if any.
pub open spec fn resolved_metadata(results: Seq<SourceSecrets>, k: SecretRefKey) -> Option<
    SecretMetadataView,
>
    decreases results.len(),
{
    if results.len() == 0 {
        None
    } else {
        match results[0] {
            Ok(v) => match found_in(v@, k) {
                Some(_) => found_metadata(v@, k),
                None => resolved_metadata(results.drop_first(), k),
            },
            Err(_) => resolved_metadata(results.drop_first(), k),
        }
    }
}

/// The plaintext for identity `k` from the earliest source that answered
/// with a value for it, if any.
pub open spec fn resolved(results: Seq<SourceSecrets>, k: SecretRefKey) -> Option<Seq<u8>>
    decreases results.len(),
{
    if results.len() == 0 {
        None
    } else {
        match results[0] {
            Ok(v) => match found_in(v@, k) {
                Some(b) => Some(b),
                None => resolved(results.drop_first(), k),
            },
            Err(_) => resolved(results.drop_first(), k),
        }
    }
}

/// How many sources failed outright.
pub open spec fn failed_count(results: Seq<SourceSecrets>) -> nat
    decreases results.len(),
{
    if results.len() == 0 {
        0
    } else {
        (if results[0] is Err { 1nat } else { 0nat }) + failed_count(results.drop_first())
    }
}

/// Every required reference of `refs` is resolved by some source.
pub open spec fn all_required_resolved(refs: Seq<SecretVaultRef>, results: Seq<SourceSecrets>) -> bool {
    forall|i: int| 0 <= i < refs.len() && (#[trigger] refs[i]).required ==> resolved(results, refs[i].key()) is Some
}

/// The identity of entry `e` of the answer of source `s`.
pub open spec fn entry_key_at(results: Seq<SourceSecrets>, s: int, e: int) -> SecretRefKey {
    results[s].unwrap()@[e].0.key()
}

/// Some source answered with an entry of identity `k`.
pub open spec fn returned_by_some(results: Seq<SourceSecrets>, k: SecretRefKey) -> bool {
    exists|s: int, e: int|
        0 <= s < results.len() && results[s] is Ok && 0 <= e < results[s].unwrap()@.len()
            && #[trigger] entry_key_at(results, s, e) == k
}

/// Some entry of `out` has identity `k`.
pub open spec fn in_out(out: Seq<(SecretVaultRef, Secret)>, k: SecretRefKey) -> bool {
    exists|j: int| 0 <= j < out.len() && out[j].0.key() == k
}

/// `out` holds, for every identity that some source returned, an entry with
/// the value of the earliest source that returned it, and nothing else.
pub open spec fn merged_from(out: Seq<(SecretVaultRef, Secret)>, results: Seq<SourceSecrets>) -> bool {
    &&& forall|j: int|
        0 <= j < out.len() ==> resolved(results, (#[trigger] out[j]).0.key()) == Some(
            secret_value_bytes(out[j].1.value),
        )
    &&& forall|j: int|
        0 <= j < out.len() ==> resolved_metadata(results, (#[trigger] out[j]).0.key()) == Some(
            metadata_view(out[j].1.metadata),
        )
    &&& forall|k: SecretRefKey| #[trigger] resolved(results, k) is Some ==> in_out(out, k)
    &&& forall|i: int, j: int|
        0 <= i < out.len() && 0 <= j < out.len() && i != j ==> (#[trigger] out[i]).0.key() != (
        #[trigger] out[j]).0.key()
}

proof fn lemma_found_in_some(v: Seq<(SecretVaultRef, Secret)>, k: SecretRefKey)
    requires
        found_in(v, k) is Some,
    ensures
        exists|e: int| 0 <= e < v.len() && v[e].0.key() == k,
    decreases v.len(),
{
    if v[0].0.key() != k {
        lemma_found_in_some(v.drop_first(), k);
        let e = choose|e: int| 0 <= e < v.drop_first().len() && v.drop_first()[e].0.key() == k;
        assert(v[e + 1] == v.drop_first()[e]);
    } else {
        assert(v[0].0.key() == k);
    }
}

/// What a source resolved, some source returned.
proof fn lemma_resolved_returned(results: Seq<SourceSecrets>, k: SecretRefKey)
    requires
        resolved(results, k) is Some,
    ensures
        returned_by_some(results, k),
    decreases results.len(),
{
    let rest = results.drop_first();
    match results[0] {
        Ok(v) => {
            if found_in(v@, k) is Some {
                lemma_found_in_some(v@, k);
                let e = choose|e: int| 0 <= e < v@.len() && v@[e].0.key() == k;
                assert(entry_key_at(results, 0, e) == k);
                return;
            }
        },
        Err(_) => {},
    }
    lemma_resolved_returned(rest, k);
    let (s, e) = choose|s: int, e: int|
        0 <= s < rest.len() && rest[s] is Ok && 0 <= e < rest[s].unwrap()@.len()
            && #[trigger] entry_key_at(rest, s, e) == k;
    assert(results[s + 1] == rest[s]);
    assert(entry_key_at(results, s + 1, e) == k);
}

proof fn lemma_found_in_some_entry(v: Seq<(SecretVaultRef, Secret)>, e: int)
    requires
        0 <= e < v.len(),
    ensures
        found_in(v, v[e].0.key()) is Some,
    decreases v.len(),
{
    if e > 0 && v[0].0.key() != v[e].0.key() {
        assert(v.drop_first()[e - 1] == v[e]);
        lemma_found_in_some_entry(v.drop_first(), e - 1);
    }
}

/// What some source returned, some source resolved.
proof fn lemma_returned_resolved(results: Seq<SourceSecrets>, s: int, k: SecretRefKey)
    requires
        0 <= s < results.len(),
        results[s] is Ok,
        found_in(results[s].unwrap()@, k) is Some,
    ensures
        resolved(results, k) is Some,
    decreases results.len(),
{
    if s > 0 {
        assert(results.drop_first()[s - 1] == results[s]);
        lemma_returned_resolved(results.drop_first(), s - 1, k);
    }
}

proof fn lemma_in_out_push(out: Seq<(SecretVaultRef, Secret)>, x: (SecretVaultRef, Secret))
    ensures
        forall|k: SecretRefKey| #[trigger] in_out(out, k) ==> in_out(out.push(x), k),
        in_out(out.push(x), x.0.key()),
{
    assert forall|k: SecretRefKey| #[trigger] in_out(out, k) implies in_out(out.push(x), k) by {
        let j = choose|j: int| 0 <= j < out.len() && out[j].0.key() == k;
        assert(out.push(x)[j] == out[j]);
    }
    assert(out.push(x)[out.len() as int] == x);
}

proof fn lemma_found_in_step(s: Seq<(SecretVaultRef, Secret)>, i: int, k: SecretRefKey)
    requires
        0 <= i < s.len(),
    ensures
        found_in(s.subrange(i, s.len() as int), k) == if s[i].0.key() == k {
            Some(secret_value_bytes(s[i].1.value))
        } else {
            found_in(s.subrange(i + 1, s.len() as int), k)
        },
        found_metadata(s.subrange(i, s.len() as int), k) == if s[i].0.key() == k {
            Some(metadata_view(s[i].1.metadata))
        } else {
            found_metadata(s.subrange(i + 1, s.len() as int), k)
        },
{
    assert(s.subrange(i, s.len() as int).drop_first() =~= s.subrange(i + 1, s.len() as int));
}

proof fn lemma_resolved_step(s: Seq<SourceSecrets>, i: int, k: SecretRefKey)
    requires
        0 <= i < s.len(),
    ensures
        resolved(s.subrange(i, s.len() as int), k) == match s[i] {
            Ok(v) => match found_in(v@, k) {
                Some(b) => Some(b),
                None => resolved(s.subrange(i + 1, s.len() as int), k),
            },
            Err(_) => resolved(s.subrange(i + 1, s.len() as int), k),
        },
        resolved_metadata(s.subrange(i, s.len() as int), k) == match s[i] {
            Ok(v) => match found_in(v@, k) {
                Some(_) => found_metadata(v@, k),
                None => resolved_metadata(s.subrange(i + 1, s.len() as int), k),
            },
            Err(_) => resolved_metadata(s.subrange(i + 1, s.len() as int), k),
        },
{
    assert(s.subrange(i, s.len() as int).drop_first() =~= s.subrange(i + 1, s.len() as int));
}

proof fn lemma_failed_count_step(s: Seq<SourceSecrets>, i: int)
    requires
        0 <= i < s.len(),
    ensures
        failed_count(s.subrange(i, s.len() as int)) == (if s[i] is Err { 1nat } else { 0nat })
            + failed_count(s.subrange(i + 1, s.len() as int)),
{
    assert(s.subrange(i, s.len() as int).drop_first() =~= s.subrange(i + 1, s.len() as int));
}

/// The position of the first entry with the identity of `secret_ref`.
fn find_entry(entries: &Vec<(SecretVaultRef, Secret)>, secret_ref: &SecretVaultRef) -> (r: Option<
    usize,
>)
    ensures
        match r {
            Some(i) => i < entries@.len() && entries@[i as int].0.key() == secret_ref.key()
                && found_in(entries@, secret_ref.key()) == Some(
                secret_value_bytes(entries@[i as int].1.value),
            ) && found_metadata(entries@, secret_ref.key()) == Some(
                metadata_view(entries@[i as int].1.metadata),
            ),
            None => found_in(entries@, secret_ref.key()) is None,
        },
{
    let mut i: usize = 0;
    proof {
        assert(entries@.subrange(0, entries@.len() as int) =~= entries@);
    }
    while i < entries.len()
        invariant
            i <= entries@.len(),
            found_in(entries@, secret_ref.key()) == found_in(
                entries@.subrange(i as int, entries@.len() as int),
                secret_ref.key(),
            ),
            found_metadata(entries@, secret_ref.key()) == found_metadata(
                entries@.subrange(i as int, entries@.len() as int),
                secret_ref.key(),
            ),
        decreases entries@.len() - i,
    {
        proof {
            lemma_found_in_step(entries@, i as int, secret_ref.key());
        }
        if entries[i].0.same_identity(secret_ref) {
            return Some(i);
        }
        i = i + 1;
    }
    None
}

/// Whether some entry of `out` has the identity of `secret_ref`.
fn merged_contains(out: &Vec<(SecretVaultRef, Secret)>, secret_ref: &SecretVaultRef) -> (r: bool)
    ensures
        r == in_out(out@, secret_ref.key()),
{
    let mut j: usize = 0;
    while j < out.len()
        invariant
            j <= out@.len(),
            forall|a: int| 0 <= a < j ==> (#[trigger] out@[a]).0.key() != secret_ref.key(),
        decreases out@.len() - j,
    {
        if out[j].0.same_identity(secret_ref) {
            assert(out@[j as int].0.key() == secret_ref.key());
            return true;
        }
        j = j + 1;
    }
    false
}

/// The earliest source that resolves `secret_ref`, and the position of the
/// value in its answer.
fn resolve_ref(results: &Vec<SourceSecrets>, secret_ref: &SecretVaultRef) -> (r: Option<(usize, usize)>)
    ensures
        match r {
            Some((s, e)) => s < results@.len() && (results@[s as int] matches Ok(v) && e
                < v@.len() && resolved(results@, secret_ref.key()) == Some(
                secret_value_bytes(v@[e as int].1.value),
            ) && resolved_metadata(results@, secret_ref.key()) == Some(
                metadata_view(v@[e as int].1.metadata),
            )),
            None => resolved(results@, secret_ref.key()) is None,
        },
{
    let mut s: usize = 0;
    proof {
        assert(results@.subrange(0, results@.len() as int) =~= results@);
    }
    while s < results.len()
        invariant
            s <= results@.len(),
            resolved(results@, secret_ref.key()) == resolved(
                results@.subrange(s as int, results@.len() as int),
                secret_ref.key(),
            ),
            resolved_metadata(results@, secret_ref.key()) == resolved_metadata(
                results@.subrange(s as int, results@.len() as int),
                secret_ref.key(),
            ),
        decreases results@.len() - s,
    {
        proof {
            lemma_resolved_step(results@, s as int, secret_ref.key());
        }
        match &results[s] {
            Ok(v) => match find_entry(v, secret_ref) {
                Some(e) => {
                    return Some((s, e));
                },
                None => {},
            },
            Err(_) => {},
        }
        s = s + 1;
    }
    None
}

/// The error of a list of answers that left a required reference missing:
/// the one failure when exactly one source failed, a system error when
/// several did, and `None` when none did.
fn failure_of(results: &Vec<SourceSecrets>) -> (r: Option<SecretVaultError>)
    ensures
        failed_count(results@) == 0 <==> r is None,
        failed_count(results@) == 1 ==> exists|s: int|
            0 <= s < results@.len() && (#[trigger] results@[s] matches Err(e) && (r matches Some(x)
                && error_view(x) == error_view(e))),
        failed_count(results@) > 1 ==> (r matches Some(x) && error_view(x).0 == 0),
{
    let mut first: Option<usize> = None;
    let mut count: usize = 0;
    let mut s: usize = 0;
    proof {
        assert(results@.subrange(0, results@.len() as int) =~= results@);
    }
    while s < results.len()
        invariant
            s <= results@.len(),
            count <= s,
            failed_count(results@) == count + failed_count(
                results@.subrange(s as int, results@.len() as int),
            ),
            count == 0 <==> first is None,
            first matches Some(f) ==> f < s && results@[f as int] is Err,
        decreases results@.len() - s,
    {
        proof {
            lemma_failed_count_step(results@, s as int);
        }
        if results[s].is_err() {
            if count == 0 {
                first = Some(s);
            }
            count = count + 1;
        }
        s = s + 1;
    }
    proof {
        assert(results@.subrange(s as int, results@.len() as int).len() == 0);
    }
    if count == 0 {
        None
    } else if count == 1 {
        match first {
            Some(f) => match &results[f] {
                Err(e) => Some(e.duplicate()),
                Ok(_) => None,
            },
            None => None,
        }
    } else {
        Some(SecretVaultSystemError::create("MULTIPLE_SOURCES_FAILED", "Several sources failed"))
    }
}

/// Merges the answers of several sources, given in configuration order,
/// for the list of references `refs`. Every identity that some source
/// returned is kept once, with the value of the earliest source that
/// returned it. When a required reference of `refs` is returned by none, the
/// merge fails: with the failure of the sources that failed, or a
/// data-not-found error naming the first such reference when none failed.
pub fn merge_source_results(refs: &Vec<SecretVaultRef>, results: &Vec<SourceSecrets>) -> (r:
    SecretVaultResult<Vec<(SecretVaultRef, Secret)>>)
    ensures
        r is Ok <==> all_required_resolved(refs@, results@),
        r matches Ok(out) ==> merged_from(out@, results@),
        r matches Err(e) ==> {
            &&& failed_count(results@) == 0 ==> error_view(e).0 == 1 && exists|i: int|
                0 <= i < refs@.len() && refs@[i].required && resolved(results@, refs@[i].key())
                    is None && error_view(e).2 == refs@[i].secret_name.0@ && forall|a: int|
                    0 <= a < i && (#[trigger] refs@[a]).required ==> resolved(
                        results@,
                        refs@[a].key(),
                    ) is Some
            &&& failed_count(results@) == 1 ==> exists|s: int|
                0 <= s < results@.len() && (#[trigger] results@[s] matches Err(x) && error_view(e)
                    == error_view(x))
            &&& failed_count(results@) > 1 ==> error_view(e).0 == 0
        },
{
    let mut i: usize = 0;
    while i < refs.len()
        invariant
            i <= refs@.len(),
            forall|a: int| 0 <= a < i && (#[trigger] refs@[a]).required ==> resolved(results@, refs@[a].key()) is Some,
        decreases refs@.len() - i,
    {
        let secret_ref = &refs[i];
        if secret_ref.required {
            match resolve_ref(results, secret_ref) {
                Some(_) => {},
                None => {
                    return match failure_of(results) {
                        Some(err) => Err(err),
                        None => Err(
                            SecretVaultDataNotFoundError::create(
                                "SECRET_NOT_FOUND",
                                secret_ref.secret_name.0.clone(),
                            ),
                        ),
                    };
                },
            }
        }
        i = i + 1;
    }
    let mut out: Vec<(SecretVaultRef, Secret)> = Vec::new();
    let mut s: usize = 0;
    while s < results.len()
        invariant
            s <= results@.len(),
            forall|j: int|
                0 <= j < out@.len() ==> resolved(results@, (#[trigger] out@[j]).0.key()) == Some(
                    secret_value_bytes(out@[j].1.value),
                ),
            forall|j: int|
                0 <= j < out@.len() ==> resolved_metadata(results@, (#[trigger] out@[j]).0.key())
                    == Some(metadata_view(out@[j].1.metadata)),
            forall|i: int, j: int|
                0 <= i < out@.len() && 0 <= j < out@.len() && i != j ==> (#[trigger] out@[i]).0.key()
                    != (#[trigger] out@[j]).0.key(),
            forall|a: int, e: int|
                0 <= a < s && results@[a] is Ok && 0 <= e < results@[a].unwrap()@.len() ==> in_out(
                    out@,
                    #[trigger] entry_key_at(results@, a, e),
                ),
        decreases results@.len() - s,
    {
        match &results[s] {
            Ok(v) => {
                let mut e: usize = 0;
                while e < v.len()
                    invariant
                        s < results@.len(),
                        results@[s as int] == Ok::<Vec<(SecretVaultRef, Secret)>, SecretVaultError>(*v),
                        e <= v@.len(),
                        forall|j: int|
                            0 <= j < out@.len() ==> resolved(results@, (#[trigger] out@[j]).0.key())
                                == Some(secret_value_bytes(out@[j].1.value)),
                        forall|j: int|
                            0 <= j < out@.len() ==> resolved_metadata(
                                results@,
                                (#[trigger] out@[j]).0.key(),
                            ) == Some(metadata_view(out@[j].1.metadata)),
                        forall|a: int, f: int|
                            0 <= a < s && results@[a] is Ok && 0 <= f < results@[a].unwrap()@.len()
                                ==> in_out(out@, #[trigger] entry_key_at(results@, a, f)),
                        forall|f: int| 0 <= f < e ==> in_out(out@, #[trigger] v@[f].0.key()),
                        forall|i: int, j: int|
                            0 <= i < out@.len() && 0 <= j < out@.len() && i != j ==> (#[trigger] out@[i]).0.key()
                                != (#[trigger] out@[j]).0.key(),

                    decreases v@.len() - e,
                {
                    if merged_contains(&out, &v[e].0) {
                        e = e + 1;
                        continue;
                    }
                    match resolve_ref(results, &v[e].0) {
                        Some((s2, e2)) => {
                            match &results[s2] {
                                Ok(w) => {
                                    let secret = Secret {
                                        value: w[e2].1.value.clone(),
                                        metadata: w[e2].1.metadata.duplicate(),
                                    };
                                    let pair = (v[e].0.duplicate(), secret);
                                    let ghost prev = out@;
                                    out.push(pair);
                                    proof {
                                        lemma_in_out_push(prev, pair);
                                        assert(out@ == prev.push(pair));
                                        assert forall|i: int, j: int|
                                            0 <= i < out@.len() && 0 <= j < out@.len() && i != j
                                                implies (#[trigger] out@[i]).0.key() != (
                                            #[trigger] out@[j]).0.key() by {
                                            if i < prev.len() && j < prev.len() {
                                                assert(out@[i] == prev[i] && out@[j] == prev[j]);
                                            } else if i < prev.len() {
                                                assert(out@[i] == prev[i]);
                                                assert(!in_out(prev, pair.0.key()));
                                                assert(out@[j] == pair);
                                            } else {
                                                assert(out@[j] == prev[j]);
                                                assert(!in_out(prev, pair.0.key()));
                                                assert(out@[i] == pair);
                                            }
                                        }
                                        assert forall|j: int| 0 <= j < out@.len() implies resolved(
                                            results@,
                                            (#[trigger] out@[j]).0.key(),
                                        ) == Some(secret_value_bytes(out@[j].1.value)) by {
                                            if j < prev.len() {
                                                assert(out@[j] == prev[j]);
                                            }
                                        }
                                        assert forall|j: int| 0 <= j < out@.len() implies resolved_metadata(
                                            results@,
                                            (#[trigger] out@[j]).0.key(),
                                        ) == Some(metadata_view(out@[j].1.metadata)) by {
                                            if j < prev.len() {
                                                assert(out@[j] == prev[j]);
                                            }
                                        }
                                    }
                                },
                                Err(_) => {},
                            }
                        },
                        None => {
                            proof {
                                lemma_found_in_some_entry(v@, e as int);
                                lemma_returned_resolved(results@, s as int, v@[e as int].0.key());
                                assert(false);
                            }
                        },
                    }
                    e = e + 1;
                }
                proof {
                    assert forall|a: int, f: int|
                        0 <= a < s + 1 && results@[a] is Ok && 0 <= f < results@[a].unwrap()@.len()
                            implies in_out(out@, #[trigger] entry_key_at(results@, a, f)) by {
                        if a == s {
                            assert(entry_key_at(results@, a, f) == v@[f].0.key());
                        }
                    }
                }
            },
            Err(_) => {},
        }
        s = s + 1;
    }
    proof {
        assert forall|k: SecretRefKey| #[trigger] resolved(results@, k) is Some implies in_out(out@, k) by {
            lemma_resolved_returned(results@, k);
            let (a, e) = choose|a: int, e: int|
                0 <= a < results@.len() && results@[a] is Ok && 0 <= e < results@[a].unwrap()@.len()
                    && #[trigger] entry_key_at(results@, a, e) == k;
        }
    }
    Ok(out)
}

} // verus!

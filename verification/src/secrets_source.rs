//! The pull contract every secrets authority answers to.
//!
//! A source is asked for a batch of registrations and returns the secrets
//! it has for them.  Its observable behaviour is pinned by three spec
//! functions: which keys it is responsible for (`routed`), which of those
//! it has a value for (`covers`), and which values it may hand out for a
//! key (`value_model`).

use vstd::prelude::*;
use vstd::string::StringExecFns;

use crate::common_types::Secret;
use crate::common_types::SecretMetadata;
use crate::common_types::SecretVaultKeyView;
use crate::common_types::SecretVaultRef;
use crate::errors::SecretVaultDataNotFoundError;
use crate::errors::SecretVaultError;
use crate::errors::SecretVaultErrorPublicGenericDetails;
use crate::errors::SecretVaultResult;
use crate::value::SecretValue;

verus! {

/// A pull-model secrets authority.
///
/// An implementation outside the verifier must honour the `get_secrets`
/// contract itself; nothing checks it there.
pub trait SecretsSource: Sized {
    /// Whether the source is responsible for this key at all.  A plain
    /// source answers for every key; an aggregator only for the
    /// namespaces it routes.
    open spec fn routed(&self, key: SecretVaultKeyView) -> bool {
        false
    }

    /// Whether the source has a value filed under this key.
    open spec fn covers(&self, key: SecretVaultKeyView) -> bool {
        false
    }

    /// Whether `value` is a value this source may hand out for `key`.
    /// For a stored value this pins the bytes; for generated material it
    /// pins shape and length.
    open spec fn value_model(&self, key: SecretVaultKeyView, value: Seq<u8>) -> bool {
        true
    }

    /// Whether fetching is free of transient failure: a reliable source
    /// fails only by missing a required key, and succeeds where none is
    /// missing.
    open spec fn reliable(&self) -> bool {
        false
    }

    /// The source's name, for diagnostics.
    fn name(&self) -> String;

    /// Fetches the secrets for a batch of registrations.
    ///
    /// On success the result holds exactly the requested registrations the
    /// source covers, each with a value the source may hand out for its
    /// key, and every required registration the source is responsible for
    /// is covered.  A required registration the source is responsible for
    /// but does not cover fails the whole call.
    fn get_secrets(&self, references: &[SecretVaultRef]) -> (r: SecretVaultResult<
        Vec<(SecretVaultRef, Secret)>,
    >)
        ensures
            r matches Ok(pairs) ==> (forall|j: int|
                0 <= j < pairs@.len() ==> self.covers((#[trigger] pairs@[j]).0@.key)),
            r matches Ok(pairs) ==> (forall|j: int|
                0 <= j < pairs@.len() ==> self.value_model(
                    (#[trigger] pairs@[j]).0@.key,
                    pairs@[j].1@.value,
                )),
            r matches Ok(pairs) ==> (forall|j: int|
                0 <= j < pairs@.len() ==> (#[trigger] pairs@[j]).1@.metadata.key
                    == pairs@[j].0@.key),
            r matches Ok(pairs) ==> (forall|j: int|
                0 <= j < pairs@.len() ==> exists|i: int|
                    0 <= i < references@.len() && (#[trigger] references@[i])@ == (
                    #[trigger] pairs@[j]).0@),
            r matches Ok(pairs) ==> (forall|i: int|
                0 <= i < references@.len() && self.covers((#[trigger] references@[i])@.key)
                    ==> exists|j: int|
                    0 <= j < pairs@.len() && (#[trigger] pairs@[j]).0@ == references@[i]@),
            r matches Ok(pairs) ==> (forall|i: int|
                0 <= i < references@.len() && (#[trigger] references@[i])@.required
                    && self.routed(references@[i]@.key) ==> self.covers(references@[i]@.key)),
            self.reliable() && (forall|i: int|
                0 <= i < references@.len() && (#[trigger] references@[i])@.required
                    && self.routed(references@[i]@.key) ==> self.covers(references@[i]@.key))
                ==> r is Ok,
            self.reliable() && r is Err ==> r matches Err(
                SecretVaultError::DataNotFoundError(_),
            ),
    ;
}


/// The pairs a lookup-based source returns: for each registration, in
/// order, the value its authority found, where it found one.
pub open spec fn found_results(refs: Seq<SecretVaultRef>, found: Seq<Option<SecretValue>>) -> Seq<
    (crate::common_types::SecretVaultRefView, Seq<u8>),
>
    decreases refs.len(),
{
    if refs.len() == 0 || found.len() == 0 {
        Seq::empty()
    } else {
        let rest = found_results(refs.drop_last(), found.drop_last());
        match found.last() {
            Option::Some(v) => rest.push((refs.last()@, v@)),
            Option::None => rest,
        }
    }
}

/// Assembles a source result from per-registration lookups: a pair for
/// each value found, an error where a required registration found none.
/// This is the decision shared by the lookup-based sources; the lookups
/// themselves stay with the caller that owns the authority.
pub fn collect_source_results(
    references: &[SecretVaultRef],
    found: Vec<Option<SecretValue>>,
    not_found_code: &str,
) -> (r: SecretVaultResult<Vec<(SecretVaultRef, Secret)>>)
    requires
        found@.len() == references@.len(),
    ensures
        (r is Err) <==> (exists|i: int|
            0 <= i < references@.len() && (#[trigger] references@[i])@.required
                && found@[i] is None),
        r matches Err(e) ==> e matches SecretVaultError::DataNotFoundError(d)
            && d.public.code@ == not_found_code@,
        r matches Ok(pairs) ==> ({
            let model = found_results(references@, found@);
            &&& pairs@.len() == model.len()
            &&& forall|j: int|
                0 <= j < pairs@.len() ==> (#[trigger] pairs@[j]).0@ == model[j].0
            &&& forall|j: int|
                0 <= j < pairs@.len() ==> (#[trigger] pairs@[j]).1@.value == model[j].1
            &&& forall|j: int|
                0 <= j < pairs@.len() ==> (#[trigger] pairs@[j]).1@.metadata.key
                    == pairs@[j].0@.key
            &&& forall|j: int|
                0 <= j < pairs@.len() ==> (#[trigger] pairs@[j]).1@.metadata.labels == (
                if pairs@[j].0@.predefined_labels.len() > 0 {
                    Some(pairs@[j].0@.predefined_labels)
                } else {
                    Option::<Seq<crate::common_types::SecretMetadataPairView>>::None
                })
        }),
{
    let mut result: Vec<(SecretVaultRef, Secret)> = Vec::new();
    let mut i: usize = 0;
    proof {
        assert(references@.take(0) =~= Seq::<SecretVaultRef>::empty());
        assert(found@.take(0) =~= Seq::<Option<SecretValue>>::empty());
    }
    while i < references.len()
        invariant
            i <= references@.len(),
            found@.len() == references@.len(),
            result@.len() == found_results(references@.take(i as int), found@.take(i as int)).len(),
            forall|j: int|
                0 <= j < result@.len() ==> (#[trigger] result@[j]).0@ == found_results(
                    references@.take(i as int),
                    found@.take(i as int),
                )[j].0,
            forall|j: int|
                0 <= j < result@.len() ==> (#[trigger] result@[j]).1@.value == found_results(
                    references@.take(i as int),
                    found@.take(i as int),
                )[j].1,
            forall|j: int|
                0 <= j < result@.len() ==> (#[trigger] result@[j]).1@.metadata.key
                    == result@[j].0@.key,
            forall|j: int|
                0 <= j < result@.len() ==> (#[trigger] result@[j]).1@.metadata.labels == (
                if result@[j].0@.predefined_labels.len() > 0 {
                    Some(result@[j].0@.predefined_labels)
                } else {
                    Option::<Seq<crate::common_types::SecretMetadataPairView>>::None
                }),
            forall|n: int|
                0 <= n < i && (#[trigger] references@[n])@.required ==> found@[n] is Some,
        decreases references@.len() - i,
    {
        let secret_ref = &references[i];
        proof {
            assert(references@.take(i + 1).drop_last() =~= references@.take(i as int));
            assert(found@.take(i + 1).drop_last() =~= found@.take(i as int));
            assert(references@.take(i + 1).last() == references@[i as int]);
            assert(found@.take(i + 1).last() == found@[i as int]);
        }
        match &found[i] {
            Option::Some(secret_value) => {
                let metadata = SecretMetadata::create_from_ref(secret_ref);
                let value_copy = secret_value.clone();
                let ghost prev = result@;
                result.push((secret_ref.clone(), Secret::new(value_copy, metadata)));
                proof {
                    assert(forall|j: int| 0 <= j < prev.len() ==> result@[j] == prev[j]);
                    assert(result@[prev.len() as int].0@ == references@[i as int]@);
                }
            },
            Option::None => {
                if secret_ref.required {
                    return Err(
                        SecretVaultError::DataNotFoundError(
                            SecretVaultDataNotFoundError::new(
                                SecretVaultErrorPublicGenericDetails::new(
                                    not_found_code.to_owned(),
                                ),
                                String::concat(
                                    "Secret is required but was not found: ".to_owned(),
                                    secret_ref.key.secret_name.value().as_str(),
                                ),
                            ),
                        ),
                    );
                }
            },
        }
        i = i + 1;
    }
    proof {
        assert(references@.take(references@.len() as int) =~= references@);
        assert(found@.take(found@.len() as int) =~= found@);
    }
    Ok(result)
}

} // verus!

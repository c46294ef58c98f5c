//! An in-memory source for tests: a plain map from registration to value.

use vstd::prelude::*;
use vstd::string::StringExecFns;

use crate::common_types::Secret;
use crate::common_types::SecretMetadata;
use crate::common_types::SecretVaultKeyView;
use crate::common_types::SecretVaultRef;
use crate::errors::SecretVaultDataNotFoundError;
use crate::errors::SecretVaultError;
use crate::errors::SecretVaultErrorPublicGenericDetails;
use crate::errors::SecretVaultResult;
use crate::secrets_source::SecretsSource;
use crate::value::SecretValue;

verus! {

/// The newest value filed in `s` under `k`, where there is one.
pub open spec fn mock_lookup(s: Seq<(SecretVaultRef, SecretValue)>, k: SecretVaultKeyView) -> Option<
    Seq<u8>,
>
    decreases s.len(),
{
    if s.len() == 0 {
        None
    } else if s.last().0@.key == k {
        Some(s.last().1@)
    } else {
        mock_lookup(s.drop_last(), k)
    }
}

/// An in-memory secrets source, keyed by the registration's vault key.
/// The newest value filed under a key wins.
pub struct MockSecretsSource {
    secrets: Vec<(SecretVaultRef, SecretValue)>,
}

impl MockSecretsSource {
    /// The value this source has filed under `k`.
    pub closed spec fn spec_get(&self, k: SecretVaultKeyView) -> Option<Seq<u8>> {
        mock_lookup(self.secrets@, k)
    }

    /// A source holding the given pairs; on equal keys the later pair
    /// wins.
    pub fn new(secrets: Vec<(SecretVaultRef, SecretValue)>) -> (r: Self)
        ensures
            forall|k: SecretVaultKeyView| r.spec_get(k) == mock_lookup(secrets@, k),
            r.keys_model() == secrets@.map_values(|p: (SecretVaultRef, SecretValue)| p.0@),
    {
        Self { secrets }
    }

    /// The registrations this source holds, in filing order.
    pub closed spec fn keys_model(&self) -> Seq<crate::common_types::SecretVaultRefView> {
        self.secrets@.map_values(|p: (SecretVaultRef, SecretValue)| p.0@)
    }

    /// Files a value under a registration, replacing any older value with
    /// the same key.
    pub fn add(&mut self, secret_ref: SecretVaultRef, secret_value: SecretValue)
        ensures
            final(self).spec_get(secret_ref@.key) == Some(secret_value@),
            forall|k: SecretVaultKeyView|
                k != secret_ref@.key ==> final(self).spec_get(k) == old(self).spec_get(k),
    {
        let ghost prev = self.secrets@;
        let ghost key = secret_ref@.key;
        let ghost value = secret_value@;
        self.secrets.push((secret_ref, secret_value));
        proof {
            assert(self.secrets@.drop_last() =~= prev);
            assert(self.secrets@.last().0@.key == key);
            assert(self.secrets@.last().1@ == value);
        }
    }

    /// The value filed under the registration's key, copied out.
    pub fn get(&self, secret_ref: &SecretVaultRef) -> (r: Option<SecretValue>)
        ensures
            r matches Some(v) ==> self.spec_get(secret_ref@.key) == Some(v@),
            r is None ==> self.spec_get(secret_ref@.key) is None,
    {
        let mut i: usize = self.secrets.len();
        proof {
            assert(self.secrets@.take(self.secrets@.len() as int) =~= self.secrets@);
        }
        while i > 0
            invariant
                i <= self.secrets@.len(),
                mock_lookup(self.secrets@, secret_ref@.key) == mock_lookup(
                    self.secrets@.take(i as int),
                    secret_ref@.key,
                ),
            decreases i,
        {
            i = i - 1;
            if self.secrets[i].0.key == secret_ref.key {
                proof {
                    assert(self.secrets@.take(i + 1).last() == self.secrets@[i as int]);
                }
                return Some(self.secrets[i].1.clone());
            }
            proof {
                assert(self.secrets@.take(i + 1).last() == self.secrets@[i as int]);
                assert(self.secrets@.take(i + 1).drop_last() =~= self.secrets@.take(i as int));
            }
        }
        proof {
            assert(self.secrets@.take(0) =~= Seq::<(SecretVaultRef, SecretValue)>::empty());
        }
        None
    }

    /// The registrations this source holds, copied out.
    pub fn keys(&self) -> (r: Vec<SecretVaultRef>)
        ensures
            r@.len() == self.keys_model().len(),
            forall|j: int| 0 <= j < r@.len() ==> (#[trigger] r@[j])@ == self.keys_model()[j],
    {
        let mut r: Vec<SecretVaultRef> = Vec::new();
        let mut i: usize = 0;
        while i < self.secrets.len()
            invariant
                i <= self.secrets@.len(),
                r@.len() == i,
                forall|j: int| 0 <= j < i ==> (#[trigger] r@[j])@ == self.secrets@[j].0@,
            decreases self.secrets@.len() - i,
        {
            r.push(self.secrets[i].0.clone());
            i = i + 1;
        }
        r
    }
}

/// The pairs a fetch returns: for each registration, in order, the value
/// the source has for its key, where it has one.
pub open spec fn mock_results(src: MockSecretsSource, refs: Seq<SecretVaultRef>) -> Seq<
    (crate::common_types::SecretVaultRefView, Seq<u8>),
>
    decreases refs.len(),
{
    if refs.len() == 0 {
        Seq::empty()
    } else {
        let rest = mock_results(src, refs.drop_last());
        match src.spec_get(refs.last()@.key) {
            Option::Some(v) => rest.push((refs.last()@, v)),
            Option::None => rest,
        }
    }
}

/// Each fetched pair answers one requested registration, carries the value
/// the source has for it, and every covered registration is answered.
proof fn lemma_mock_results(src: MockSecretsSource, refs: Seq<SecretVaultRef>)
    ensures
        forall|j: int|
            0 <= j < mock_results(src, refs).len() ==> exists|n: int|
                0 <= n < refs.len() && (#[trigger] refs[n])@ == (#[trigger] mock_results(
                    src,
                    refs,
                )[j]).0,
        forall|j: int|
            0 <= j < mock_results(src, refs).len() ==> src.spec_get(
                (#[trigger] mock_results(src, refs)[j]).0.key,
            ) == Some(mock_results(src, refs)[j].1),
        forall|n: int|
            0 <= n < refs.len() && src.spec_get((#[trigger] refs[n])@.key) is Some
                ==> exists|j: int|
                0 <= j < mock_results(src, refs).len() && (#[trigger] mock_results(
                    src,
                    refs,
                )[j]).0 == refs[n]@,
    decreases refs.len(),
{
    if refs.len() > 0 {
        lemma_mock_results(src, refs.drop_last());
        let rest = mock_results(src, refs.drop_last());
        let whole = mock_results(src, refs);
        assert forall|j: int| 0 <= j < whole.len() implies exists|n: int|
            0 <= n < refs.len() && (#[trigger] refs[n])@ == (#[trigger] whole[j]).0 by {
            if j < rest.len() {
                let n = choose|n: int|
                    0 <= n < refs.drop_last().len() && (#[trigger] refs.drop_last()[n])@
                        == rest[j].0;
                assert(refs[n]@ == whole[j].0);
            } else {
                assert(whole[j].0 == refs[refs.len() - 1]@);
            }
        }
        assert forall|j: int| 0 <= j < whole.len() implies src.spec_get(
            (#[trigger] whole[j]).0.key,
        ) == Some(whole[j].1) by {
            if j < rest.len() {
                assert(whole[j] == rest[j]);
            }
        }
        assert forall|n: int|
            0 <= n < refs.len() && src.spec_get((#[trigger] refs[n])@.key) is Some
            implies exists|j: int|
            0 <= j < whole.len() && (#[trigger] whole[j]).0 == refs[n]@ by {
            if n < refs.len() - 1 {
                assert(refs.drop_last()[n] == refs[n]);
                let j = choose|j: int|
                    0 <= j < rest.len() && (#[trigger] rest[j]).0 == refs[n]@;
                assert(whole[j].0 == refs[n]@);
            } else {
                assert(whole[whole.len() - 1].0 == refs[n]@);
            }
        }
    }
}

/// Walks the registrations, collecting the mock's value for each; a
/// required registration without a value fails the whole call.
#[verifier::rlimit(100)]
fn collect_mock_secrets(source: &MockSecretsSource, references: &[SecretVaultRef]) -> (r:
    SecretVaultResult<Vec<(SecretVaultRef, Secret)>>)
    ensures
        (r is Err) <==> (exists|i: int|
            0 <= i < references@.len() && (#[trigger] references@[i])@.required && source.spec_get(
                references@[i]@.key,
            ) is None),
        r matches Err(e) ==> e matches SecretVaultError::DataNotFoundError(d)
            && d.public.code@ == "MOCK_SECRET_NOT_FOUND"@,
        r matches Ok(pairs) ==> ({
            let model = mock_results(*source, references@);
            &&& pairs@.len() == model.len()
            &&& forall|j: int|
                0 <= j < pairs@.len() ==> (#[trigger] pairs@[j]).0@ == model[j].0
            &&& forall|j: int|
                0 <= j < pairs@.len() ==> (#[trigger] pairs@[j]).1@.value == model[j].1
            &&& forall|j: int|
                0 <= j < pairs@.len() ==> (#[trigger] pairs@[j]).1@.metadata.key
                    == pairs@[j].0@.key
            &&& forall|j: int|
                0 <= j < pairs@.len() ==> (#[trigger] pairs@[j]).1@.metadata.labels == (
                if pairs@[j].0@.predefined_labels.len() > 0 {
                    Some(pairs@[j].0@.predefined_labels)
                } else {
                    Option::<Seq<crate::common_types::SecretMetadataPairView>>::None
                })
        }),
{
    let mut result: Vec<(SecretVaultRef, Secret)> = Vec::new();
    let mut i: usize = 0;
    proof {
        assert(references@.take(0) =~= Seq::<SecretVaultRef>::empty());
    }
    while i < references.len()
        invariant
            i <= references@.len(),
            result@.len() == mock_results(*source, references@.take(i as int)).len(),
            forall|j: int|
                0 <= j < result@.len() ==> (#[trigger] result@[j]).0@ == mock_results(
                    *source,
                    references@.take(i as int),
                )[j].0,
            forall|j: int|
                0 <= j < result@.len() ==> (#[trigger] result@[j]).1@.value == mock_results(
                    *source,
                    references@.take(i as int),
                )[j].1,
            forall|j: int|
                0 <= j < result@.len() ==> (#[trigger] result@[j]).1@.metadata.key
                    == result@[j].0@.key,
            forall|j: int|
                0 <= j < result@.len() ==> (#[trigger] result@[j]).1@.metadata.labels == (
                if result@[j].0@.predefined_labels.len() > 0 {
                    Some(result@[j].0@.predefined_labels)
                } else {
                    Option::<Seq<crate::common_types::SecretMetadataPairView>>::None
                }),
            forall|n: int|
                0 <= n < i && (#[trigger] references@[n])@.required ==> source.spec_get(
                    references@[n]@.key,
                ) is Some,
        decreases references@.len() - i,
    {
        let secret_ref = &references[i];
        proof {
            assert(references@.take(i + 1).drop_last() =~= references@.take(i as int));
            assert(references@.take(i + 1).last() == references@[i as int]);
        }
        match source.get(secret_ref) {
            Option::Some(secret_value) => {
                let metadata = SecretMetadata::create_from_ref(secret_ref);
                let ghost prev = result@;
                result.push((secret_ref.clone(), Secret::new(secret_value, metadata)));
                proof {
                    assert(forall|j: int| 0 <= j < prev.len() ==> result@[j] == prev[j]);
                    assert(result@[prev.len() as int].0@ == references@[i as int]@);
                }
            },
            Option::None => {
                if secret_ref.required {
                    return Err(
                        SecretVaultError::DataNotFoundError(
                            SecretVaultDataNotFoundError::new(
                                SecretVaultErrorPublicGenericDetails::new(
                                    "MOCK_SECRET_NOT_FOUND".to_owned(),
                                ),
                                String::concat(
                                    "Secret is required but not found in mock variables "
                                        .to_owned(),
                                    secret_ref.key.secret_name.value().as_str(),
                                ),
                            ),
                        ),
                    );
                }
            },
        }
        i = i + 1;
    }
    proof {
        assert(references@.take(references@.len() as int) =~= references@);
    }
    Ok(result)
}

impl SecretsSource for MockSecretsSource {
    open spec fn routed(&self, key: SecretVaultKeyView) -> bool {
        true
    }

    open spec fn reliable(&self) -> bool {
        true
    }

    open spec fn covers(&self, key: SecretVaultKeyView) -> bool {
        self.spec_get(key) is Some
    }

    open spec fn value_model(&self, key: SecretVaultKeyView, value: Seq<u8>) -> bool {
        self.spec_get(key) == Some(value)
    }

    fn name(&self) -> String {
        "MockSecretsSource".to_owned()
    }

    fn get_secrets(&self, references: &[SecretVaultRef]) -> (r: SecretVaultResult<
        Vec<(SecretVaultRef, Secret)>,
    >)
        ensures
            (r is Err) <==> (exists|i: int|
                0 <= i < references@.len() && (#[trigger] references@[i])@.required
                    && self.spec_get(references@[i]@.key) is None),
            r matches Err(e) ==> e matches SecretVaultError::DataNotFoundError(d)
                && d.public.code@ == "MOCK_SECRET_NOT_FOUND"@,
            r matches Ok(pairs) ==> (forall|j: int|
                0 <= j < pairs@.len() ==> (#[trigger] pairs@[j]).1@.metadata.labels == (
                if pairs@[j].0@.predefined_labels.len() > 0 {
                    Some(pairs@[j].0@.predefined_labels)
                } else {
                    Option::<Seq<crate::common_types::SecretMetadataPairView>>::None
                })),
    {
        let r = collect_mock_secrets(self, references);
        proof {
            lemma_mock_results(*self, references@);
            if r is Ok {
                let pairs = r->Ok_0;
                let model = mock_results(*self, references@);
                assert forall|j: int| 0 <= j < pairs@.len() implies exists|n: int|
                    0 <= n < references@.len() && (#[trigger] references@[n])@ == (
                    #[trigger] pairs@[j]).0@ by {
                    let n = choose|n: int|
                        0 <= n < references@.len() && (#[trigger] references@[n])@ == model[j].0;
                    assert(references@[n]@ == pairs@[j].0@);
                }
                assert forall|n: int|
                    0 <= n < references@.len() && self.covers((#[trigger] references@[n])@.key)
                    implies exists|j: int|
                    0 <= j < pairs@.len() && (#[trigger] pairs@[j]).0@ == references@[n]@ by {
                    let j = choose|j: int|
                        0 <= j < model.len() && (#[trigger] model[j]).0 == references@[n]@;
                    assert(pairs@[j].0@ == references@[n]@);
                }
            }
        }
        r
    }
}

} // verus!

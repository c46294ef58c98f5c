//! An aggregator: named sub-sources, routed by namespace.
//!
//! Every registration carries an optional namespace; the aggregator hands
//! it to the sub-source registered under that namespace.  Registrations
//! without a namespace, or with one no sub-source answers for, are not
//! fetched at all.

use vstd::prelude::*;
use vstd::string::StringExecFns;

use crate::common_types::Secret;
use crate::common_types::SecretNamespace;
use crate::common_types::SecretVaultKeyView;
use crate::common_types::SecretVaultRef;
use crate::errors::SecretVaultResult;
use crate::secrets_source::SecretsSource;

verus! {

/// The sub-source registered last under `ns`, where any is.
pub open spec fn namespace_lookup<S: SecretsSource>(
    s: Seq<(SecretNamespace, S)>,
    ns: Seq<char>,
) -> Option<S>
    decreases s.len(),
{
    if s.len() == 0 {
        None
    } else if s.last().0@ == ns {
        Some(s.last().1)
    } else {
        namespace_lookup(s.drop_last(), ns)
    }
}

/// Composes sub-sources, each answering for one namespace.
pub struct MultipleSecretsSources<S: SecretsSource> {
    sources: Vec<(SecretNamespace, S)>,
}

impl<S: SecretsSource> MultipleSecretsSources<S> {
    /// The sub-source answering for `ns`.
    pub closed spec fn spec_source_for(&self, ns: Seq<char>) -> Option<S> {
        namespace_lookup(self.sources@, ns)
    }

    /// An aggregator with no sub-sources yet.
    pub fn new() -> (r: Self)
        ensures
            forall|ns: Seq<char>| r.spec_source_for(ns) is None,
    {
        Self { sources: Vec::new() }
    }

    /// Registers a sub-source for a namespace, shadowing any earlier one.
    pub fn add_source(self, namespace: &SecretNamespace, source: S) -> (r: Self)
        ensures
            r.spec_source_for(namespace@) == Some(source),
            forall|ns: Seq<char>|
                ns != namespace@ ==> r.spec_source_for(ns) == self.spec_source_for(ns),
    {
        let mut sources = self.sources;
        let ghost prev = sources@;
        sources.push((namespace.clone(), source));
        proof {
            assert(sources@.drop_last() =~= prev);
        }
        Self { sources }
    }

    /// The position of the sub-source answering for a namespace.
    fn find_source(&self, namespace: &SecretNamespace) -> (r: Option<usize>)
        ensures
            r matches Some(idx) ==> idx < self.sources@.len() && self.sources@[
                idx as int
            ].0@ == namespace@ && self.spec_source_for(namespace@) == Some(
                self.sources@[idx as int].1,
            ),
            r is None ==> self.spec_source_for(namespace@) is None,
    {
        let mut i: usize = self.sources.len();
        proof {
            assert(self.sources@.take(self.sources@.len() as int) =~= self.sources@);
        }
        while i > 0
            invariant
                i <= self.sources@.len(),
                namespace_lookup(self.sources@, namespace@) == namespace_lookup(
                    self.sources@.take(i as int),
                    namespace@,
                ),
            decreases i,
        {
            i = i - 1;
            proof {
                assert(self.sources@.take(i + 1).last() == self.sources@[i as int]);
                assert(self.sources@.take(i + 1).drop_last() =~= self.sources@.take(i as int));
            }
            if self.sources[i].0 == *namespace {
                return Some(i);
            }
        }
        proof {
            assert(self.sources@.take(0) =~= Seq::<(SecretNamespace, S)>::empty());
        }
        None
    }
}

/// The registrations of `refs` the aggregator covers, in order.
pub open spec fn aggregated_refs<S: SecretsSource>(
    aggregate: MultipleSecretsSources<S>,
    refs: Seq<SecretVaultRef>,
) -> Seq<crate::common_types::SecretVaultRefView>
    decreases refs.len(),
{
    if refs.len() == 0 {
        Seq::empty()
    } else if aggregate.covers(refs.last()@.key) {
        aggregated_refs(aggregate, refs.drop_last()).push(refs.last()@)
    } else {
        aggregated_refs(aggregate, refs.drop_last())
    }
}

/// Every covered registration appears among the aggregated, and each
/// aggregated one is a requested one.
proof fn lemma_aggregated_refs<S: SecretsSource>(
    aggregate: MultipleSecretsSources<S>,
    refs: Seq<SecretVaultRef>,
)
    ensures
        forall|j: int|
            0 <= j < aggregated_refs(aggregate, refs).len() ==> exists|n: int|
                0 <= n < refs.len() && (#[trigger] refs[n])@ == (#[trigger] aggregated_refs(
                    aggregate,
                    refs,
                )[j]),
        forall|n: int|
            0 <= n < refs.len() && aggregate.covers((#[trigger] refs[n])@.key) ==> exists|j: int|
                0 <= j < aggregated_refs(aggregate, refs).len() && (#[trigger] aggregated_refs(
                    aggregate,
                    refs,
                )[j]) == refs[n]@,
    decreases refs.len(),
{
    if refs.len() > 0 {
        lemma_aggregated_refs(aggregate, refs.drop_last());
        let whole = aggregated_refs(aggregate, refs);
        let rest = aggregated_refs(aggregate, refs.drop_last());
        assert forall|j: int| 0 <= j < whole.len() implies exists|n: int|
            0 <= n < refs.len() && (#[trigger] refs[n])@ == (#[trigger] whole[j]) by {
            if j < rest.len() {
                let n = choose|n: int|
                    0 <= n < refs.drop_last().len() && (#[trigger] refs.drop_last()[n])@
                        == rest[j];
                assert(refs[n]@ == whole[j]);
            } else {
                assert(whole[j] == refs[refs.len() - 1]@);
            }
        }
        assert forall|n: int|
            0 <= n < refs.len() && aggregate.covers((#[trigger] refs[n])@.key)
            implies exists|j: int|
            0 <= j < whole.len() && (#[trigger] whole[j]) == refs[n]@ by {
            if n < refs.len() - 1 {
                assert(refs.drop_last()[n] == refs[n]);
                let j = choose|j: int|
                    0 <= j < rest.len() && (#[trigger] rest[j]) == refs[n]@;
                assert(whole[j] == refs[n]@);
            } else {
                assert(whole[whole.len() - 1] == refs[n]@);
            }
        }
    }
}

impl<S: SecretsSource> SecretsSource for MultipleSecretsSources<S> {
    /// The aggregator is reliable where every registered sub-source is.
    open spec fn reliable(&self) -> bool {
        forall|ns: Seq<char>|
            (#[trigger] self.spec_source_for(ns)) is Some ==> self.spec_source_for(
                ns,
            ).unwrap().reliable()
    }

    open spec fn routed(&self, key: SecretVaultKeyView) -> bool {
        match key.namespace {
            Option::Some(ns) => match self.spec_source_for(ns) {
                Option::Some(sub) => sub.routed(key),
                Option::None => false,
            },
            Option::None => false,
        }
    }

    open spec fn covers(&self, key: SecretVaultKeyView) -> bool {
        match key.namespace {
            Option::Some(ns) => match self.spec_source_for(ns) {
                Option::Some(sub) => sub.covers(key),
                Option::None => false,
            },
            Option::None => false,
        }
    }

    open spec fn value_model(&self, key: SecretVaultKeyView, value: Seq<u8>) -> bool {
        match key.namespace {
            Option::Some(ns) => match self.spec_source_for(ns) {
                Option::Some(sub) => sub.value_model(key, value),
                Option::None => false,
            },
            Option::None => false,
        }
    }

    fn name(&self) -> (r: String) {
        let mut joined = String::new();
        let mut i: usize = 0;
        while i < self.sources.len()
            decreases self.sources@.len() - i,
        {
            if i > 0 {
                joined.append(", ");
            }
            joined.append(self.sources[i].0.value().as_str());
            joined.append(":");
            let sub_name = self.sources[i].1.name();
            joined.append(sub_name.as_str());
            i = i + 1;
        }
        joined
    }

    #[verifier::rlimit(100)]
    fn get_secrets(&self, references: &[SecretVaultRef]) -> (r: SecretVaultResult<
        Vec<(SecretVaultRef, Secret)>,
    >)
        ensures
            (forall|n: int|
                0 <= n < references@.len() ==> ((#[trigger] references@[n])@.key.namespace
                    matches Some(ns) ==> self.spec_source_for(ns) is None)) ==> r is Ok,
    {
        let ghost model = aggregated_refs(*self, references@);
        let mut result: Vec<(SecretVaultRef, Secret)> = Vec::new();
        let mut i: usize = 0;
        proof {
            assert(references@.take(0) =~= Seq::<SecretVaultRef>::empty());
        }
        while i < references.len()
            invariant
                i <= references@.len(),
                result@.len() == aggregated_refs(*self, references@.take(i as int)).len(),
                forall|j: int|
                    0 <= j < result@.len() ==> (#[trigger] result@[j]).0@ == aggregated_refs(
                        *self,
                        references@.take(i as int),
                    )[j],
                forall|j: int|
                    0 <= j < result@.len() ==> self.covers((#[trigger] result@[j]).0@.key),
                forall|j: int|
                    0 <= j < result@.len() ==> self.value_model(
                        (#[trigger] result@[j]).0@.key,
                        result@[j].1@.value,
                    ),
                forall|j: int|
                    0 <= j < result@.len() ==> (#[trigger] result@[j]).1@.metadata.key
                        == result@[j].0@.key,
                forall|n: int|
                    0 <= n < i && (#[trigger] references@[n])@.required && self.routed(
                        references@[n]@.key,
                    ) ==> self.covers(references@[n]@.key),
            decreases references@.len() - i,
        {
            let secret_ref = &references[i];
            proof {
                assert(references@.take(i + 1).drop_last() =~= references@.take(i as int));
                assert(references@.take(i + 1).last() == references@[i as int]);
            }
            match &secret_ref.key.namespace {
                Option::Some(namespace) => {
                    match self.find_source(namespace) {
                        Option::Some(idx) => {
                            proof {
                                assert(references@[i as int]@.key.namespace == Some(namespace@));
                            }
                            let sub = &self.sources[idx].1;
                            let mut singleton: Vec<SecretVaultRef> = Vec::new();
                            singleton.push(secret_ref.clone());
                            let mut pairs = match sub.get_secrets(singleton.as_slice()) {
                                Ok(pairs) => pairs,
                                Err(e) => {
                                    proof {
                                        if forall|n: int|
                                            0 <= n < references@.len() ==> ((
                                            #[trigger] references@[n])@.key.namespace matches Some(
                                                ns,
                                            ) ==> self.spec_source_for(ns) is None) {
                                            assert(references@[i as int]@.key.namespace == Some(
                                                namespace@,
                                            ));
                                            assert(false);
                                        }
                                        if self.reliable() {
                                            assert(self.spec_source_for(namespace@) is Some);
                                            assert(sub.reliable());
                                        }
                                        if self.reliable() && (forall|n: int|
                                            0 <= n < references@.len() && (
                                            #[trigger] references@[n])@.required && self.routed(
                                                references@[n]@.key,
                                            ) ==> self.covers(references@[n]@.key)) {
                                            assert forall|m: int|
                                                0 <= m < singleton@.len() && (
                                                #[trigger] singleton@[m])@.required && sub.routed(
                                                    singleton@[m]@.key,
                                                ) implies sub.covers(singleton@[m]@.key) by {
                                                assert(singleton@[0]@ == references@[i as int]@);
                                                assert(self.routed(references@[i as int]@.key));
                                                assert(self.covers(references@[i as int]@.key));
                                            }
                                            assert(false);
                                        }
                                    }
                                    return Err(e);
                                },
                            };
                            let ghost sub_pairs = pairs@;
                            match pairs.pop() {
                                Option::Some(pair) => {
                                    let ghost prev = result@;
                                    result.push(pair);
                                    proof {
                                        let last = sub_pairs.len() - 1;
                                        assert(exists|n: int|
                                            0 <= n < singleton@.len() && (
                                            #[trigger] singleton@[n])@ == sub_pairs[last].0@);
                                        assert(singleton@[0]@ == secret_ref@);
                                        assert(sub_pairs[last].0@ == secret_ref@);
                                        assert(sub.covers(sub_pairs[last].0@.key));
                                        assert(self.covers(secret_ref@.key));
                                        assert(self.value_model(
                                            secret_ref@.key,
                                            sub_pairs[last].1@.value,
                                        ));
                                        assert(forall|j: int|
                                            0 <= j < prev.len() ==> result@[j] == prev[j]);
                                        assert(result@[prev.len() as int].0@
                                            == references@[i as int]@);
                                    }
                                },
                                Option::None => {
                                    proof {
                                        if sub.covers(secret_ref@.key) {
                                            assert(singleton@[0]@ == secret_ref@);
                                            assert(false);
                                        }
                                    }
                                },
                            }
                            proof {
                                if references@[i as int]@.required && self.routed(
                                    references@[i as int]@.key,
                                ) {
                                    assert(singleton@[0]@ == references@[i as int]@);
                                    assert(sub.routed(singleton@[0]@.key));
                                    assert(sub.covers(singleton@[0]@.key));
                                    assert(self.covers(references@[i as int]@.key));
                                }
                            }
                        },
                        Option::None => {},
                    }
                },
                Option::None => {},
            }
            i = i + 1;
        }
        proof {
            assert(references@.take(references@.len() as int) =~= references@);
            lemma_aggregated_refs(*self, references@);
            assert forall|j: int| 0 <= j < result@.len() implies exists|n: int|
                0 <= n < references@.len() && (#[trigger] references@[n])@ == (
                #[trigger] result@[j]).0@ by {
                let n = choose|n: int|
                    0 <= n < references@.len() && (#[trigger] references@[n])@ == model[j];
                assert(references@[n]@ == result@[j].0@);
            }
            assert forall|n: int|
                0 <= n < references@.len() && self.covers((#[trigger] references@[n])@.key)
                implies exists|j: int|
                0 <= j < result@.len() && (#[trigger] result@[j]).0@ == references@[n]@ by {
                let j = choose|j: int|
                    0 <= j < model.len() && (#[trigger] model[j]) == references@[n]@;
                assert(result@[j].0@ == references@[n]@);
            }
        }
        Ok(result)
    }
}

} // verus!

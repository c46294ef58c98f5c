//! The vault: a source, an encryption strategy, a store, and the set of
//! registered references.
//!
//! `refresh` pulls the registered secrets from the source, files each in
//! the store encrypted, then compacts the store down to the registration
//! set.  Refresh is at-least-once and not transactional: what was filed
//! before a failure stays filed.

use vstd::prelude::*;
use vstd::string::StringExecFns;

use crate::common_types::Secret;
use crate::common_types::SecretName;
use crate::common_types::SecretVaultKey;
use crate::common_types::SecretVaultKeyView;
use crate::common_types::SecretVaultRef;
use crate::common_types::SecretVersion;
use crate::common_types::SecretView;
use crate::common_types::registered_key;
use crate::encryption::SecretVaultEncryption;
use crate::encryption::MAX_AEAD_PLAINTEXT_LEN;
use crate::errors::SecretVaultDataNotFoundError;
use crate::errors::SecretVaultError;
use crate::errors::SecretVaultErrorPublicGenericDetails;
use crate::errors::SecretVaultResult;
use crate::secrets_source::SecretsSource;
use crate::vault_snapshot::SecretVaultSnapshot;
use crate::vault_snapshot::SecretVaultSnapshotBuilder;
use crate::vault_snapshot::secrets_lookup;
use crate::vault_store::SecretVaultStore;
use crate::vault_store::SecretVaultStoreValueView;
use crate::vault_store::refs_views;
use crate::vault_viewer::SecretVaultViewer;
use crate::vault_viewer::name_key;

verus! {

/// Whether some fetched pair files its secret under `k`.
pub open spec fn pairs_have_key(s: Seq<(SecretVaultRef, Secret)>, k: SecretVaultKeyView) -> bool {
    exists|j: int| 0 <= j < s.len() && (#[trigger] s[j]).0@.key == k
}

/// `s` without the registration views filed under `k`.
pub open spec fn ref_views_without(
    s: Seq<crate::common_types::SecretVaultRefView>,
    k: SecretVaultKeyView,
) -> Seq<crate::common_types::SecretVaultRefView>
    decreases s.len(),
{
    if s.len() == 0 {
        Seq::empty()
    } else if s.last().key == k {
        ref_views_without(s.drop_last(), k)
    } else {
        ref_views_without(s.drop_last(), k).push(s.last())
    }
}

/// The in-process orchestrator owning a source, an encryption strategy
/// (inside its store) and the registration set.
pub struct SecretVault<S: SecretsSource, E: SecretVaultEncryption> {
    source: S,
    store: SecretVaultStore<E>,
    refs: Vec<SecretVaultRef>,
}

impl<S: SecretsSource, E: SecretVaultEncryption> SecretVault<S, E> {
    /// The source this vault pulls from.
    pub closed spec fn spec_source(&self) -> S {
        self.source
    }

    /// The store this vault files into.
    pub closed spec fn spec_store(&self) -> SecretVaultStore<E> {
        self.store
    }

    /// The registered references, in registration order.
    pub closed spec fn spec_refs(&self) -> Seq<SecretVaultRef> {
        self.refs@
    }

    /// The vault is sound: its store is.
    pub open spec fn wf(&self) -> bool {
        self.spec_store().wf()
    }

    /// A vault over a source and an encryption strategy, with nothing
    /// registered yet.
    pub fn new(source: S, encrypter: E) -> (r: SecretVaultResult<Self>)
        ensures
            r is Ok,
            r matches Ok(v) ==> v.wf() && v.spec_source() == source && v.spec_refs().len() == 0
                && v.spec_store().spec_encrypter() == encrypter && v.spec_store().spec_len() == 0
                && (forall|k: SecretVaultKeyView| v.spec_store().spec_entry(k) is None),
    {
        Ok(Self { source, store: SecretVaultStore::new(encrypter), refs: Vec::new() })
    }

    /// Replaces the registration set, builder style.
    pub fn with_secret_refs(self, secret_refs: Vec<&SecretVaultRef>) -> (r: Self)
        ensures
            r.spec_source() == self.spec_source(),
            r.spec_store() == self.spec_store(),
            refs_views(r.spec_refs()) == secret_refs@.map_values(|x: &SecretVaultRef| x@),
    {
        let mut this = self;
        this.register_secret_refs(secret_refs);
        this
    }

    /// Replaces the registration set.  Registering is idempotent and does
    /// no fetching.
    pub fn register_secret_refs(&mut self, secret_refs: Vec<&SecretVaultRef>)
        ensures
            final(self).spec_source() == old(self).spec_source(),
            final(self).spec_store() == old(self).spec_store(),
            refs_views(final(self).spec_refs()) == secret_refs@.map_values(
                |x: &SecretVaultRef| x@,
            ),
    {
        let mut refs: Vec<SecretVaultRef> = Vec::new();
        let mut i: usize = 0;
        while i < secret_refs.len()
            invariant
                i <= secret_refs@.len(),
                refs@.len() == i,
                forall|j: int| 0 <= j < i ==> (#[trigger] refs@[j])@ == secret_refs@[j]@,
            decreases secret_refs@.len() - i,
        {
            refs.push(secret_refs[i].clone());
            i = i + 1;
        }
        self.refs = refs;
        proof {
            assert(refs_views(final(self).spec_refs()) =~= secret_refs@.map_values(
                |x: &SecretVaultRef| x@,
            ));
        }
    }

    /// Adds a batch of registrations, ahead of the existing ones.
    pub fn add_secret_refs(self, secret_refs: Vec<&SecretVaultRef>) -> (r: Self)
        ensures
            r.spec_source() == self.spec_source(),
            r.spec_store() == self.spec_store(),
            refs_views(r.spec_refs()) == secret_refs@.map_values(|x: &SecretVaultRef| x@)
                + refs_views(self.spec_refs()),
    {
        let mut this = self;
        let mut combined: Vec<SecretVaultRef> = Vec::new();
        let mut i: usize = 0;
        while i < secret_refs.len()
            invariant
                i <= secret_refs@.len(),
                combined@.len() == i,
                forall|j: int| 0 <= j < i ==> (#[trigger] combined@[j])@ == secret_refs@[j]@,
            decreases secret_refs@.len() - i,
        {
            combined.push(secret_refs[i].clone());
            i = i + 1;
        }
        let ghost fresh = combined@;
        let mut old_refs = this.refs;
        combined.append(&mut old_refs);
        proof {
            assert(refs_views(combined@) =~= secret_refs@.map_values(|x: &SecretVaultRef| x@)
                + refs_views(this.refs@));
        }
        this.refs = combined;
        this
    }

    /// Adds one registration.
    pub fn add_secret_ref(&mut self, secret_ref: &SecretVaultRef)
        ensures
            final(self).spec_source() == old(self).spec_source(),
            final(self).spec_store() == old(self).spec_store(),
            refs_views(final(self).spec_refs()) == refs_views(old(self).spec_refs()).push(
                secret_ref@,
            ),
    {
        self.refs.push(secret_ref.clone());
        proof {
            assert(refs_views(final(self).spec_refs()) =~= refs_views(
                old(self).spec_refs(),
            ).push(secret_ref@));
        }
    }

    /// Drops every registration filed under the given key.
    pub fn remove_secret_ref(&mut self, key: &SecretVaultKey)
        ensures
            final(self).spec_source() == old(self).spec_source(),
            final(self).spec_store() == old(self).spec_store(),
            refs_views(final(self).spec_refs()) == ref_views_without(
                refs_views(old(self).spec_refs()),
                key@,
            ),
    {
        let ghost prev = self.refs@;
        let mut kept: Vec<SecretVaultRef> = Vec::new();
        let mut i: usize = 0;
        proof {
            assert(prev.take(0) =~= Seq::<SecretVaultRef>::empty());
            assert(refs_views(kept@) =~= ref_views_without(refs_views(prev.take(0)), key@));
        }
        while i < self.refs.len()
            invariant
                i <= self.refs@.len(),
                self.refs@ == prev,
                refs_views(kept@) == ref_views_without(refs_views(prev.take(i as int)), key@),
            decreases self.refs@.len() - i,
        {
            proof {
                assert(refs_views(prev.take(i + 1)).drop_last() =~= refs_views(
                    prev.take(i as int),
                ));
                assert(refs_views(prev.take(i + 1)).last() == prev[i as int]@);
            }
            if !(self.refs[i].key == *key) {
                kept.push(self.refs[i].clone());
                proof {
                    assert(refs_views(kept@) =~= ref_views_without(
                        refs_views(prev.take(i + 1)),
                        key@,
                    ));
                }
            } else {
                proof {
                    assert(refs_views(kept@) =~= ref_views_without(
                        refs_views(prev.take(i + 1)),
                        key@,
                    ));
                }
            }
            i = i + 1;
        }
        proof {
            assert(prev.take(prev.len() as int) =~= prev);
        }
        self.refs = kept;
    }

    /// Mutable access to the source, for callers that feed it.
    pub fn source_mut(&mut self) -> (r: &mut S)
        ensures
            *r == old(self).spec_source(),
            final(self).spec_source() == *final(r),
            final(self).spec_store() == old(self).spec_store(),
            final(self).spec_refs() == old(self).spec_refs(),
    {
        &mut self.source
    }

    /// Pulls every registered secret from the source, files what came
    /// back, then compacts the store down to the registration set.
    ///
    /// On success every registered key the source covers holds a value
    /// the source vouches for, registered keys the source does not cover
    /// keep what they had, and unregistered keys are gone.  A required
    /// registration the source is responsible for but cannot provide
    /// fails the refresh with the store untouched.
    #[verifier::rlimit(100)]
    pub fn refresh(&mut self) -> (r: SecretVaultResult<()>)
        ensures
            final(self).spec_refs() == old(self).spec_refs(),
            final(self).spec_store().spec_encrypter() == old(self).spec_store().spec_encrypter(),
            old(self).wf() ==> final(self).wf(),
            forall|k: SecretVaultKeyView|
                final(self).spec_source().covers(k) == old(self).spec_source().covers(k),
            forall|k: SecretVaultKeyView|
                final(self).spec_source().routed(k) == old(self).spec_source().routed(k),
            forall|k: SecretVaultKeyView, v: Seq<u8>|
                final(self).spec_source().value_model(k, v) == old(self).spec_source().value_model(
                    k,
                    v,
                ),
            r is Ok ==> (forall|k: SecretVaultKeyView|
                registered_key(old(self).spec_refs(), k) && old(self).spec_source().covers(k)
                    ==> ((#[trigger] final(self).spec_store().spec_plain(k)) matches Some(v)
                    && old(self).spec_source().value_model(k, v))),
            r is Ok ==> (forall|k: SecretVaultKeyView|
                registered_key(old(self).spec_refs(), k) && !old(self).spec_source().covers(k)
                    ==> (#[trigger] final(self).spec_store().spec_entry(k)) == old(self).spec_store().spec_entry(k)),
            r is Ok ==> (forall|k: SecretVaultKeyView|
                !registered_key(old(self).spec_refs(), k) ==> (#[trigger] final(self).spec_store().spec_entry(k)) is None),
            r is Ok ==> (forall|i: int|
                0 <= i < old(self).spec_refs().len() && (#[trigger] old(self).spec_refs()[i])@.required && old(self).spec_source().routed(
                    old(self).spec_refs()[i]@.key,
                ) ==> old(self).spec_source().covers(old(self).spec_refs()[i]@.key)),
            (exists|i: int|
                0 <= i < old(self).spec_refs().len() && (#[trigger] old(self).spec_refs()[i])@.required && old(self).spec_source().routed(
                    old(self).spec_refs()[i]@.key,
                ) && !old(self).spec_source().covers(old(self).spec_refs()[i]@.key)) ==> r is Err
                && (old(self).spec_source().reliable() ==> r matches Err(
                SecretVaultError::DataNotFoundError(_),
            )) && (forall|k: SecretVaultKeyView|
                (#[trigger] final(self).spec_store().spec_entry(k)) == old(self).spec_store().spec_entry(k)),
            (old(self).spec_source().reliable() && old(
                self,
            ).spec_store().spec_encrypter().reliable() && (forall|i: int|
                0 <= i < old(self).spec_refs().len() && (#[trigger] old(
                    self,
                ).spec_refs()[i])@.required && old(self).spec_source().routed(
                    old(self).spec_refs()[i]@.key,
                ) ==> old(self).spec_source().covers(old(self).spec_refs()[i]@.key)) && (forall|
                k: SecretVaultKeyView,
                v: Seq<u8>,
            |
                old(self).spec_source().value_model(k, v) ==> v.len()
                    <= MAX_AEAD_PLAINTEXT_LEN)) ==> r is Ok,
            forall|k: SecretVaultKeyView|
                #![trigger final(self).spec_store().spec_entry(k)]
                final(self).spec_store().spec_entry(k) == old(self).spec_store().spec_entry(k)
                    || (registered_key(old(self).spec_refs(), k) && old(
                    self,
                ).spec_source().covers(k) && (final(self).spec_store().spec_plain(k) matches Some(
                    v,
                ) && old(self).spec_source().value_model(k, v))) || (!registered_key(
                    old(self).spec_refs(),
                    k,
                ) && final(self).spec_store().spec_entry(k) is None),
    {
        let ghost refs0 = self.refs@;
        let ghost src0 = self.source;
        let ghost store0 = self.store;
        let fetched = match self.source.get_secrets(self.refs.as_slice()) {
            Ok(pairs) => pairs,
            Err(e) => {
                proof {
                    if src0.reliable() && (forall|i: int|
                        0 <= i < refs0.len() && (#[trigger] refs0[i])@.required && src0.routed(
                            refs0[i]@.key,
                        ) ==> src0.covers(refs0[i]@.key)) {
                        assert(false);
                    }
                }
                return Err(e);
            },
        };
        let ghost gf = fetched@;
        match self.insert_fetched(fetched) {
            Ok(()) => {},
            Err(e) => {
                proof {
                    if exists|i: int|
                        0 <= i < refs0.len() && (#[trigger] refs0[i])@.required && src0.routed(
                            refs0[i]@.key,
                        ) && !src0.covers(refs0[i]@.key) {
                        let i = choose|i: int|
                            0 <= i < refs0.len() && (#[trigger] refs0[i])@.required && src0.routed(
                                refs0[i]@.key,
                            ) && !src0.covers(refs0[i]@.key);
                        assert(src0.covers(refs0[i]@.key));
                        assert(false);
                    }
                    assert forall|k: SecretVaultKeyView|
                        #![trigger self.store.spec_entry(k)]
                        true implies self.store.spec_entry(k) == store0.spec_entry(k) || (
                    registered_key(refs0, k) && src0.covers(k) && (self.store.spec_plain(
                        k,
                    ) matches Some(v) && src0.value_model(k, v))) || (!registered_key(refs0, k)
                        && self.store.spec_entry(k) is None) by {
                        if self.store.spec_entry(k) != store0.spec_entry(k) {
                            assert(pairs_have_key(gf, k));
                            let j = choose|j: int|
                                0 <= j < gf.len() && (#[trigger] gf[j]).0@.key == k;
                            assert(src0.covers(gf[j].0@.key));
                            let n = choose|n: int|
                                0 <= n < refs0.len() && (#[trigger] refs0[n])@ == gf[j].0@;
                            assert(registered_key(refs0, k));
                        }
                    }
                    if store0.spec_encrypter().reliable() && (forall|
                        k: SecretVaultKeyView,
                        v: Seq<u8>,
                    |
                        src0.value_model(k, v) ==> v.len() <= MAX_AEAD_PLAINTEXT_LEN) {
                        assert forall|j: int|
                            0 <= j < gf.len() implies (#[trigger] gf[j]).1@.value.len()
                            <= MAX_AEAD_PLAINTEXT_LEN by {
                            assert(src0.value_model(gf[j].0@.key, gf[j].1@.value));
                        }
                        assert(false);
                    }
                }
                return Err(e);
            },
        }
        let ghost store1 = self.store;
        match self.store.compact(self.refs.as_slice()) {
            Ok(()) => {},
            Err(e) => {
                return Err(e);
            },
        }
        proof {
            if exists|i: int|
                0 <= i < refs0.len() && (#[trigger] refs0[i])@.required && src0.routed(
                    refs0[i]@.key,
                ) && !src0.covers(refs0[i]@.key) {
                let i = choose|i: int|
                    0 <= i < refs0.len() && (#[trigger] refs0[i])@.required && src0.routed(
                        refs0[i]@.key,
                    ) && !src0.covers(refs0[i]@.key);
                assert(src0.covers(refs0[i]@.key));
                assert(false);
            }
            assert forall|k: SecretVaultKeyView|
                registered_key(refs0, k) && src0.covers(k) implies (#[trigger] self
                .store.spec_plain(k)) matches Some(v) && src0.value_model(k, v) by {
                let i = choose|i: int| 0 <= i < refs0.len() && (#[trigger] refs0[i])@.key == k;
                assert(src0.covers(refs0[i]@.key));
                let j = choose|j: int|
                    0 <= j < gf.len() && (#[trigger] gf[j]).0@ == refs0[i]@;
                assert(gf[j].0@.key == k);
                assert(pairs_have_key(gf, k));
                assert(store1.spec_plain(k) matches Some(v) && src0.value_model(k, v));
                assert(self.store.spec_entry(k) == store1.spec_entry(k));
            }
            assert forall|k: SecretVaultKeyView|
                registered_key(refs0, k) && !src0.covers(k) implies (#[trigger] self
                .store.spec_entry(k)) == store0.spec_entry(k) by {
                assert(!pairs_have_key(gf, k)) by {
                    if pairs_have_key(gf, k) {
                        let j = choose|j: int|
                            0 <= j < gf.len() && (#[trigger] gf[j]).0@.key == k;
                        assert(src0.covers(gf[j].0@.key));
                    }
                }
                assert(store1.spec_entry(k) == store0.spec_entry(k));
            }
        }
        Ok(())
    }

    /// Files a batch of fetched pairs into the store, in order.
    fn insert_fetched(&mut self, fetched: Vec<(SecretVaultRef, Secret)>) -> (r: SecretVaultResult<
        (),
    >)
        requires
            forall|j: int|
                0 <= j < fetched@.len() ==> old(self).spec_source().value_model(
                    (#[trigger] fetched@[j]).0@.key,
                    fetched@[j].1@.value,
                ),
            forall|j: int|
                0 <= j < fetched@.len() ==> (#[trigger] fetched@[j]).1@.metadata.key
                    == fetched@[j].0@.key,
        ensures
            final(self).spec_refs() == old(self).spec_refs(),
            final(self).spec_source() == old(self).spec_source(),
            final(self).spec_store().spec_encrypter() == old(self).spec_store().spec_encrypter(),
            old(self).wf() ==> final(self).wf(),
            old(self).spec_store().spec_encrypter().reliable() && (forall|j: int|
                0 <= j < fetched@.len() ==> (#[trigger] fetched@[j]).1@.value.len()
                    <= MAX_AEAD_PLAINTEXT_LEN) ==> r is Ok,
            forall|k: SecretVaultKeyView|
                !pairs_have_key(fetched@, k) ==> (#[trigger] final(self).spec_store().spec_entry(k)) == old(self).spec_store().spec_entry(k),
            r is Ok ==> (forall|k: SecretVaultKeyView|
                pairs_have_key(fetched@, k) ==> ((#[trigger] final(self).spec_store().spec_plain(k)) matches Some(v) && old(self).spec_source().value_model(k, v))),
            forall|k: SecretVaultKeyView|
                pairs_have_key(fetched@, k) ==> ((#[trigger] final(self).spec_store().spec_entry(k)) == old(self).spec_store().spec_entry(k) || (final(self).spec_store().spec_plain(k) matches Some(v) && old(self).spec_source().value_model(k, v))),
    {
        let mut i: usize = 0;
        while i < fetched.len()
            invariant
                i <= fetched@.len(),
                forall|j: int|
                    0 <= j < fetched@.len() ==> old(self).spec_source().value_model(
                        (#[trigger] fetched@[j]).0@.key,
                        fetched@[j].1@.value,
                    ),
                forall|j: int|
                    0 <= j < fetched@.len() ==> (#[trigger] fetched@[j]).1@.metadata.key
                        == fetched@[j].0@.key,
                self.refs@ == old(self).spec_refs(),
                self.source == old(self).spec_source(),
                self.store.spec_encrypter() == old(self).spec_store().spec_encrypter(),
                old(self).wf() ==> self.store.wf(),
                forall|k: SecretVaultKeyView|
                    !pairs_have_key(fetched@.take(i as int), k) ==> (
                    #[trigger] self.store.spec_entry(k)) == old(self).spec_store().spec_entry(k),
                forall|j: int|
                    0 <= j < i ==> ((#[trigger] self.store.spec_plain(
                        fetched@[j].0@.key,
                    )) matches Some(v) && old(self).spec_source().value_model(
                        fetched@[j].0@.key,
                        v,
                    )),
            decreases fetched@.len() - i,
        {
            let secret_ref = fetched[i].0.clone();
            let ghost key = secret_ref@.key;
            let ghost store_before = self.store;
            match self.store.insert(secret_ref, &fetched[i].1) {
                Ok(()) => {},
                Err(e) => {
                    proof {
                        assert forall|k: SecretVaultKeyView|
                            pairs_have_key(fetched@, k) implies ((#[trigger] self
                            .store.spec_entry(k)) == old(self).spec_store().spec_entry(k) || (
                        self.store.spec_plain(k) matches Some(v) && old(self).spec_source().value_model(k, v))) by {
                            if pairs_have_key(fetched@.take(i as int), k) {
                                let j = choose|j: int|
                                    0 <= j < i && (#[trigger] fetched@.take(i as int)[j]).0@.key
                                        == k;
                                assert(fetched@[j].0@.key == k);
                                assert(self.store.spec_plain(fetched@[j].0@.key) matches Some(v)
                                    && old(self).spec_source().value_model(
                                    fetched@[j].0@.key,
                                    v,
                                ));
                            }
                        }
                    }
                    return Err(e);
                },
            }
            i = i + 1;
            proof {
                assert forall|k: SecretVaultKeyView|
                    !pairs_have_key(fetched@.take(i as int), k) implies (#[trigger] self
                    .store.spec_entry(k)) == old(self).spec_store().spec_entry(k) by {
                    assert(!pairs_have_key(fetched@.take(i - 1), k)) by {
                        if pairs_have_key(fetched@.take(i - 1), k) {
                            let j = choose|j: int|
                                0 <= j < i - 1 && (#[trigger] fetched@.take(i - 1)[j]).0@.key
                                    == k;
                            assert(fetched@.take(i as int)[j].0@.key == k);
                        }
                    }
                    assert(k != key) by {
                        assert(fetched@.take(i as int)[i - 1].0@.key == key);
                    }
                }
                assert forall|j: int|
                    0 <= j < i implies ((#[trigger] self.store.spec_plain(
                        fetched@[j].0@.key,
                    )) matches Some(v) && old(self).spec_source().value_model(
                        fetched@[j].0@.key,
                        v,
                    )) by {
                    if fetched@[j].0@.key == key {
                        assert(self.store.spec_plain(key) == Some(fetched@[i - 1].1@.value));
                        assert(old(self).spec_source().value_model(
                            fetched@[i - 1].0@.key,
                            fetched@[i - 1].1@.value,
                        ));
                    } else {
                        assert(self.store.spec_entry(fetched@[j].0@.key)
                            == store_before.spec_entry(fetched@[j].0@.key));
                        assert(self.store.spec_encrypter() == store_before.spec_encrypter());
                        assert(self.store.spec_plain(fetched@[j].0@.key)
                            == store_before.spec_plain(fetched@[j].0@.key));
                    }
                }
            }
        }
        proof {
            assert(fetched@.take(fetched@.len() as int) =~= fetched@);
            assert forall|k: SecretVaultKeyView|
                pairs_have_key(fetched@, k) implies (#[trigger] self.store.spec_plain(
                k,
            )) matches Some(v) && old(self).spec_source().value_model(k, v) by {
                let j = choose|j: int|
                    0 <= j < fetched@.len() && (#[trigger] fetched@[j]).0@.key == k;
                assert(self.store.spec_plain(fetched@[j].0@.key) matches Some(v) && old(self).spec_source().value_model(fetched@[j].0@.key, v));
            }
        }
        Ok(())
    }

    /// Pulls only the registered secrets the predicate selects; no
    /// compaction.  The store can only gain values the source vouches
    /// for, under registered keys; everything else stays as it was.
    pub fn refresh_only<F: Fn(&SecretVaultRef) -> bool>(&mut self, predicate: F) -> (r:
        SecretVaultResult<()>)
        requires
            forall|x: &SecretVaultRef| predicate.requires((x,)),
        ensures
            final(self).spec_refs() == old(self).spec_refs(),
            final(self).spec_store().spec_encrypter() == old(self).spec_store().spec_encrypter(),
            old(self).wf() ==> final(self).wf(),
            forall|k: SecretVaultKeyView|
                final(self).spec_source().covers(k) == old(self).spec_source().covers(k),
            forall|k: SecretVaultKeyView|
                final(self).spec_source().routed(k) == old(self).spec_source().routed(k),
            forall|k: SecretVaultKeyView, v: Seq<u8>|
                final(self).spec_source().value_model(k, v) == old(self).spec_source().value_model(
                    k,
                    v,
                ),
            forall|k: SecretVaultKeyView|
                #![trigger final(self).spec_store().spec_entry(k)]
                final(self).spec_store().spec_entry(k) == old(self).spec_store().spec_entry(k) || ((
                exists|n: int|
                    0 <= n < old(self).spec_refs().len() && (#[trigger] old(
                        self,
                    ).spec_refs()[n])@.key == k && call_ensures(
                        predicate,
                        (&old(self).spec_refs()[n],),
                        true,
                    )) && (final(self).spec_store().spec_plain(k) matches Some(v) && old(
                    self,
                ).spec_source().value_model(k, v))),
    {
        let ghost refs0 = self.refs@;
        let ghost src0 = self.source;
        let ghost store0 = self.store;
        let mut selected: Vec<SecretVaultRef> = Vec::new();
        let mut i: usize = 0;
        while i < self.refs.len()
            invariant
                i <= self.refs@.len(),
                self.refs@ == refs0,
                self.source == src0,
                self.store == store0,
                forall|x: &SecretVaultRef| predicate.requires((x,)),
                forall|j: int|
                    0 <= j < selected@.len() ==> exists|n: int|
                        0 <= n < refs0.len() && (#[trigger] selected@[j])@ == refs0[n]@
                            && call_ensures(predicate, (&refs0[n],), true),
            decreases self.refs@.len() - i,
        {
            if predicate(&self.refs[i]) {
                selected.push(self.refs[i].clone());
                proof {
                    assert(selected@.last()@ == refs0[i as int]@);
                    assert(call_ensures(predicate, (&refs0[i as int],), true));
                }
            }
            i = i + 1;
        }
        let fetched = match self.source.get_secrets(selected.as_slice()) {
            Ok(pairs) => pairs,
            Err(e) => {
                return Err(e);
            },
        };
        let ghost gf = fetched@;
        let ghost store1 = self.store;
        let r = self.insert_fetched(fetched);
        proof {
            assert forall|k: SecretVaultKeyView|
                #![trigger self.store.spec_entry(k)]
                true implies self.store.spec_entry(k) == store0.spec_entry(k) || ((exists|n: int|
                0 <= n < refs0.len() && (#[trigger] refs0[n])@.key == k && call_ensures(
                    predicate,
                    (&refs0[n],),
                    true,
                )) && (self.store.spec_plain(k) matches Some(v) && src0.value_model(k, v))) by {
                if self.store.spec_entry(k) != store0.spec_entry(k) {
                    assert(pairs_have_key(gf, k)) by {
                        if !pairs_have_key(gf, k) {
                            assert(self.store.spec_entry(k) == store1.spec_entry(k));
                        }
                    }
                    let j = choose|j: int| 0 <= j < gf.len() && (#[trigger] gf[j]).0@.key == k;
                    let n = choose|n: int|
                        0 <= n < selected@.len() && (#[trigger] selected@[n])@ == gf[j].0@;
                    let m = choose|m: int|
                        0 <= m < refs0.len() && (#[trigger] selected@[n])@ == refs0[m]@
                            && call_ensures(predicate, (&refs0[m],), true);
                    assert(refs0[m]@.key == k);
                    assert(self.store.spec_plain(k) matches Some(v) && src0.value_model(k, v));
                }
            }
        }
        r
    }

    /// Fetches only the registered secrets the store does not hold yet,
    /// files them, then compacts.  When everything registered is already
    /// present the source is not consulted at all.
    #[verifier::rlimit(100)]
    pub fn refresh_only_not_present(&mut self) -> (r: SecretVaultResult<()>)
        ensures
            final(self).spec_refs() == old(self).spec_refs(),
            final(self).spec_store().spec_encrypter() == old(self).spec_store().spec_encrypter(),
            old(self).wf() ==> final(self).wf(),
            forall|k: SecretVaultKeyView|
                final(self).spec_source().covers(k) == old(self).spec_source().covers(k),
            forall|k: SecretVaultKeyView|
                final(self).spec_source().routed(k) == old(self).spec_source().routed(k),
            forall|k: SecretVaultKeyView, v: Seq<u8>|
                final(self).spec_source().value_model(k, v) == old(self).spec_source().value_model(
                    k,
                    v,
                ),
            (forall|n: int|
                0 <= n < old(self).spec_refs().len() ==> old(self).spec_store().spec_entry(
                    (#[trigger] old(self).spec_refs()[n])@.key,
                ) is Some) ==> final(self).spec_source() == old(self).spec_source() && r is Ok,
            r is Ok ==> (forall|k: SecretVaultKeyView|
                registered_key(old(self).spec_refs(), k) && old(self).spec_store().spec_entry(
                    k,
                ) is Some ==> (#[trigger] final(self).spec_store().spec_entry(k)) == old(self).spec_store().spec_entry(k)),
            r is Ok ==> (forall|k: SecretVaultKeyView|
                !registered_key(old(self).spec_refs(), k) ==> (#[trigger] final(self).spec_store().spec_entry(k)) is None),
            r is Ok ==> (forall|n: int|
                0 <= n < old(self).spec_refs().len() && old(self).spec_store().spec_entry(
                    (#[trigger] old(self).spec_refs()[n])@.key,
                ) is None && old(self).spec_source().covers(old(self).spec_refs()[n]@.key)
                    ==> ((#[trigger] final(self).spec_store().spec_plain(
                    old(self).spec_refs()[n]@.key,
                )) matches Some(v) && old(self).spec_source().value_model(
                    old(self).spec_refs()[n]@.key,
                    v,
                ))),
            r is Ok ==> (forall|n: int|
                0 <= n < old(self).spec_refs().len() && (#[trigger] old(self).spec_refs()[n])@.required && old(self).spec_source().routed(
                    old(self).spec_refs()[n]@.key,
                ) && old(self).spec_store().spec_entry(old(self).spec_refs()[n]@.key) is None
                    ==> old(self).spec_source().covers(old(self).spec_refs()[n]@.key)),
            (old(self).spec_source().reliable() && old(
                self,
            ).spec_store().spec_encrypter().reliable() && (forall|n: int|
                0 <= n < old(self).spec_refs().len() && (#[trigger] old(
                    self,
                ).spec_refs()[n])@.required && old(self).spec_source().routed(
                    old(self).spec_refs()[n]@.key,
                ) ==> old(self).spec_source().covers(old(self).spec_refs()[n]@.key)) && (forall|
                k: SecretVaultKeyView,
                v: Seq<u8>,
            |
                old(self).spec_source().value_model(k, v) ==> v.len()
                    <= MAX_AEAD_PLAINTEXT_LEN)) ==> r is Ok,
    {
        let ghost refs0 = self.refs@;
        let ghost src0 = self.source;
        let ghost store0 = self.store;
        let pair = self.store.partition_refs(&self.refs);
        let missing = pair.1;
        let ghost missing_views = store0.missing_refs(refs0);
        proof {
            store0.lemma_missing_refs_sound(refs0);
            store0.lemma_missing_refs_complete(refs0);
        }
        if missing.len() > 0 {
            proof {
                if forall|n: int|
                    0 <= n < refs0.len() ==> store0.spec_entry(
                        (#[trigger] refs0[n])@.key,
                    ) is Some {
                    assert(missing_views.len() == refs_views(missing@).len());
                    assert(store0.spec_entry(missing_views[0].key) is None);
                    let n = choose|n: int|
                        0 <= n < refs0.len() && (#[trigger] refs0[n])@ == missing_views[0];
                    assert(store0.spec_entry(refs0[n]@.key) is Some);
                    assert(false);
                }
            }
            let fetched = match self.source.get_secrets(missing.as_slice()) {
                Ok(pairs) => pairs,
                Err(e) => {
                    proof {
                        if src0.reliable() && (forall|n: int|
                            0 <= n < refs0.len() && (#[trigger] refs0[n])@.required && src0.routed(
                                refs0[n]@.key,
                            ) ==> src0.covers(refs0[n]@.key)) {
                            assert forall|m: int|
                                0 <= m < missing@.len() && (#[trigger] missing@[m])@.required
                                    && src0.routed(missing@[m]@.key) implies src0.covers(
                                missing@[m]@.key,
                            ) by {
                                assert(refs_views(missing@)[m] == missing_views[m]);
                                let n = choose|n: int|
                                    0 <= n < refs0.len() && (#[trigger] refs0[n])@
                                        == missing_views[m];
                                assert(refs0[n]@.required && src0.routed(refs0[n]@.key));
                            }
                            assert(false);
                        }
                    }
                    return Err(e);
                },
            };
            let ghost gf = fetched@;
            match self.insert_fetched(fetched) {
                Ok(()) => {},
                Err(e) => {
                    proof {
                        if store0.spec_encrypter().reliable() && (forall|
                            k: SecretVaultKeyView,
                            v: Seq<u8>,
                        |
                            src0.value_model(k, v) ==> v.len() <= MAX_AEAD_PLAINTEXT_LEN) {
                            assert forall|j: int|
                                0 <= j < gf.len() implies (#[trigger] gf[j]).1@.value.len()
                                <= MAX_AEAD_PLAINTEXT_LEN by {
                                assert(src0.value_model(gf[j].0@.key, gf[j].1@.value));
                            }
                            assert(false);
                        }
                    }
                    return Err(e);
                },
            }
            let ghost store1 = self.store;
            match self.store.compact(self.refs.as_slice()) {
                Ok(()) => {},
                Err(e) => {
                    return Err(e);
                },
            }
            proof {
                assert forall|k: SecretVaultKeyView|
                    registered_key(refs0, k) && store0.spec_entry(k) is Some implies (
                #[trigger] self.store.spec_entry(k)) == store0.spec_entry(k) by {
                    assert(!pairs_have_key(gf, k)) by {
                        if pairs_have_key(gf, k) {
                            let j = choose|j: int|
                                0 <= j < gf.len() && (#[trigger] gf[j]).0@.key == k;
                            let n = choose|n: int|
                                0 <= n < missing@.len() && (#[trigger] missing@[n])@ == gf[j].0@;
                            assert(refs_views(missing@)[n] == missing_views[n]);
                            assert(store0.spec_entry(missing_views[n].key) is None);
                        }
                    }
                    assert(store1.spec_entry(k) == store0.spec_entry(k));
                }
                assert forall|n: int|
                    0 <= n < refs0.len() && store0.spec_entry((#[trigger] refs0[n])@.key) is None
                        && src0.covers(refs0[n]@.key) implies ((#[trigger] self
                    .store.spec_plain(refs0[n]@.key)) matches Some(v) && src0.value_model(
                    refs0[n]@.key,
                    v,
                )) by {
                    let j = choose|j: int|
                        0 <= j < missing_views.len() && (#[trigger] missing_views[j]) == refs0[n]@;
                    assert(refs_views(missing@)[j] == missing_views[j]);
                    assert(missing@[j]@ == refs0[n]@);
                    assert(src0.covers(missing@[j]@.key));
                    let m = choose|m: int|
                        0 <= m < gf.len() && (#[trigger] gf[m]).0@ == missing@[j]@;
                    assert(pairs_have_key(gf, refs0[n]@.key));
                    assert(store1.spec_plain(refs0[n]@.key) matches Some(v) && src0.value_model(
                        refs0[n]@.key,
                        v,
                    ));
                    assert(registered_key(refs0, refs0[n]@.key));
                    assert(self.store.spec_entry(refs0[n]@.key) == store1.spec_entry(
                        refs0[n]@.key,
                    ));
                }
                assert forall|n: int|
                    0 <= n < refs0.len() && (#[trigger] refs0[n])@.required && src0.routed(
                        refs0[n]@.key,
                    ) && store0.spec_entry(refs0[n]@.key) is None implies src0.covers(
                    refs0[n]@.key,
                ) by {
                    let j = choose|j: int|
                        0 <= j < missing_views.len() && (#[trigger] missing_views[j]) == refs0[n]@;
                    assert(refs_views(missing@)[j] == missing_views[j]);
                    assert(missing@[j]@ == refs0[n]@);
                    assert(missing@[j]@.required && src0.routed(missing@[j]@.key));
                }
            }
            Ok(())
        } else {
            proof {
                assert(missing_views.len() == refs_views(missing@).len());
                assert forall|n: int|
                    0 <= n < refs0.len() implies store0.spec_entry(
                    (#[trigger] refs0[n])@.key,
                ) is Some by {
                    if store0.spec_entry(refs0[n]@.key) is None {
                        let j = choose|j: int|
                            0 <= j < missing_views.len() && (#[trigger] missing_views[j])
                                == refs0[n]@;
                    }
                }
            }
            match self.store.compact(self.refs.as_slice()) {
                Ok(()) => {},
                Err(e) => {
                    return Err(e);
                },
            }
            Ok(())
        }
    }

    /// Drops every stored entry that no current registration files.
    pub fn compact(&mut self) -> (r: SecretVaultResult<()>)
        ensures
            r is Ok,
            final(self).spec_refs() == old(self).spec_refs(),
            final(self).spec_source() == old(self).spec_source(),
            final(self).spec_store().spec_encrypter() == old(self).spec_store().spec_encrypter(),
            old(self).wf() ==> final(self).wf(),
            forall|k: SecretVaultKeyView|
                #![trigger final(self).spec_store().spec_entry(k)]
                final(self).spec_store().spec_entry(k) == (if registered_key(
                    old(self).spec_refs(),
                    k,
                ) {
                    old(self).spec_store().spec_entry(k)
                } else {
                    Option::<SecretVaultStoreValueView>::None
                }),
    {
        self.store.compact(self.refs.as_slice())
    }

    /// The count of entries the store holds.
    pub fn store_len(&self) -> (r: usize)
        ensures
            r == self.spec_store().spec_len(),
    {
        self.store.len()
    }

}

impl<S: SecretsSource, E: SecretVaultEncryption> SecretVault<S, E> {
    /// A read-only handle onto this vault's store.
    pub fn viewer(&self) -> (r: SecretVaultViewer<'_, E>)
        ensures
            r.spec_store() == self.spec_store(),
    {
        SecretVaultViewer::new(&self.store)
    }

    /// Builds a snapshot of every present secret whose registration
    /// allows snapshotting, decrypted once and moved into the builder's
    /// container.
    #[verifier::rlimit(100)]
    pub fn snapshot<SN: SecretVaultSnapshot, SNB: SecretVaultSnapshotBuilder<SN>>(
        &self,
        builder: SNB,
    ) -> (r: SecretVaultResult<SN>)
        ensures
            self.wf() && self.spec_store().spec_encrypter().reliable() ==> r is Ok,
            self.wf() ==> (r matches Ok(snap) ==> forall|k: SecretVaultKeyView|
                #![trigger snap.snap_entry(k)]
                snap.snap_entry(k) == snapshot_expected(
                    self.spec_store(),
                    self.spec_refs(),
                    k,
                )),
    {
        let mut secrets: Vec<Secret> = Vec::new();
        let mut i: usize = 0;
        proof {
            assert(self.refs@.take(0) =~= Seq::<SecretVaultRef>::empty());
            if self.wf() {
                assert forall|k: SecretVaultKeyView| true implies secrets_lookup(secrets@, k)
                    == snapshot_expected(self.spec_store(), self.refs@.take(0), k) by {
                    assert(!allowed_key(self.refs@.take(0), k));
                }
            }
        }
        while i < self.refs.len()
            invariant
                i <= self.refs@.len(),
                self.wf() ==> (forall|k: SecretVaultKeyView|
                    #![trigger secrets_lookup(secrets@, k)]
                    secrets_lookup(secrets@, k) == snapshot_expected(
                        self.spec_store(),
                        self.refs@.take(i as int),
                        k,
                    )),
            decreases self.refs@.len() - i,
        {
            let secret_ref = &self.refs[i];
            let ghost k0 = secret_ref@.key;
            let ghost prefix = self.refs@.take(i as int);
            let ghost prefix1 = self.refs@.take(i + 1);
            proof {
                assert(prefix1.drop_last() =~= prefix);
                assert(prefix1.last() == self.refs@[i as int]);
            }
            if secret_ref.allow_in_snapshots {
                match self.store.get_secret(&secret_ref.key) {
                    Ok(Option::Some(secret)) => {
                        let ghost prev = secrets@;
                        secrets.push(secret);
                        proof {
                            if self.wf() {
                                assert(secrets@.drop_last() =~= prev);
                                assert forall|k: SecretVaultKeyView| true implies #[trigger]
                                    secrets_lookup(secrets@, k) == snapshot_expected(
                                    self.spec_store(),
                                    prefix1,
                                    k,
                                ) by {
                                    lemma_allowed_key_step(self.refs@, i as int, k);
                                    self.store.lemma_wf_metadata_key(k0);
                                    if k == k0 {
                                        assert(secrets@.last()@.metadata.key == k0);
                                    } else {
                                        assert(secrets@.last()@.metadata.key == k0);
                                        assert(secrets_lookup(secrets@, k) == secrets_lookup(
                                            prev,
                                            k,
                                        ));
                                    }
                                }
                            }
                        }
                    },
                    Ok(Option::None) => {
                        proof {
                            if self.wf() {
                                assert forall|k: SecretVaultKeyView| true implies #[trigger]
                                    secrets_lookup(secrets@, k) == snapshot_expected(
                                    self.spec_store(),
                                    prefix1,
                                    k,
                                ) by {
                                    lemma_allowed_key_step(self.refs@, i as int, k);
                                }
                            }
                        }
                    },
                    Err(e) => {
                        return Err(e);
                    },
                }
            } else {
                proof {
                    if self.wf() {
                        assert forall|k: SecretVaultKeyView| true implies #[trigger]
                            secrets_lookup(secrets@, k) == snapshot_expected(
                            self.spec_store(),
                            prefix1,
                            k,
                        ) by {
                            lemma_allowed_key_step(self.refs@, i as int, k);
                        }
                    }
                }
            }
            i = i + 1;
        }
        proof {
            assert(self.refs@.take(self.refs@.len() as int) =~= self.refs@);
        }
        Ok(builder.build_snapshot(secrets))
    }
}


impl<S: SecretsSource, E: SecretVaultEncryption> SecretVault<S, E> {
    /// The decrypted secret this vault serves under `k`.
    pub open spec fn served_entry(&self, k: SecretVaultKeyView) -> Option<SecretView> {
        match (self.spec_store().spec_plain(k), self.spec_store().spec_metadata(k)) {
            (Option::Some(v), Option::Some(m)) => Some(SecretView { value: v, metadata: m }),
            _ => None,
        }
    }

    /// Whether reads from this vault are free of transient failure.
    pub open spec fn served_reliably(&self) -> bool {
        self.spec_store().spec_encrypter().reliable()
    }

    /// Reads one secret by its registration.
    pub fn get_secret_by_ref(&self, secret_ref: &SecretVaultRef) -> (r: SecretVaultResult<
        Option<Secret>,
    >)
        ensures
            self.wf() && self.served_reliably() ==> r is Ok,
            self.spec_store().spec_entry(secret_ref@.key) is None ==> (r matches Ok(opt)
                && opt is None),
            r matches Ok(opt) ==> ((opt is Some) <==> self.served_entry(secret_ref@.key) is Some),
            r matches Ok(Some(s)) ==> self.served_entry(secret_ref@.key) == Some(s@),
    {
        self.store.get_secret(&secret_ref.key)
    }

    /// Reads one secret by name, latest version, no namespace.
    pub fn get_secret(&self, secret_name: &SecretName) -> (r: SecretVaultResult<Option<Secret>>)
        ensures
            self.wf() && self.served_reliably() ==> r is Ok,
            r matches Ok(opt) ==> ((opt is Some) <==> self.served_entry(
                name_key(secret_name@, None),
            ) is Some),
            r matches Ok(Some(s)) ==> self.served_entry(name_key(secret_name@, None)) == Some(s@),
    {
        self.get_secret_with_version(secret_name, None)
    }

    /// Reads one secret by name and optional version, no namespace.
    pub fn get_secret_with_version(
        &self,
        secret_name: &SecretName,
        secret_version: Option<&SecretVersion>,
    ) -> (r: SecretVaultResult<Option<Secret>>)
        ensures
            self.wf() && self.served_reliably() ==> r is Ok,
            r matches Ok(opt) ==> ((opt is Some) <==> self.served_entry(
                name_key(
                    secret_name@,
                    match secret_version {
                        Option::Some(v) => Some(v@),
                        Option::None => None,
                    },
                ),
            ) is Some),
            r matches Ok(Some(s)) ==> self.served_entry(
                name_key(
                    secret_name@,
                    match secret_version {
                        Option::Some(v) => Some(v@),
                        Option::None => None,
                    },
                ),
            ) == Some(s@),
    {
        let secret_ref = SecretVaultRef::new(secret_name.clone());
        let secret_ref = match secret_version {
            Option::Some(v) => secret_ref.with_secret_version(v.clone()),
            Option::None => secret_ref,
        };
        self.get_secret_by_ref(&secret_ref)
    }

    /// Reads one secret by its registration; absence is an error.
    pub fn require_secret_by_ref(&self, secret_ref: &SecretVaultRef) -> (r: SecretVaultResult<
        Secret,
    >)
        ensures
            r matches Ok(s) ==> self.served_entry(secret_ref@.key) == Some(s@),
            self.wf() && self.served_reliably() ==> ((r is Ok) <==> self.served_entry(
                secret_ref@.key,
            ) is Some),
            self.wf() && self.served_reliably() && r is Err ==> (r matches Err(
                SecretVaultError::DataNotFoundError(d),
            ) && d.public.code@ == "SECRET_NOT_FOUND"@),
    {
        match self.get_secret_by_ref(secret_ref) {
            Ok(Option::Some(secret)) => Ok(secret),
            Ok(Option::None) => Err(
                SecretVaultError::DataNotFoundError(
                    SecretVaultDataNotFoundError::new(
                        SecretVaultErrorPublicGenericDetails::new("SECRET_NOT_FOUND".to_owned()),
                        String::concat(
                            "Secret doesn't exist in vault but was required: ".to_owned(),
                            secret_ref.key.secret_name.value().as_str(),
                        ),
                    ),
                ),
            ),
            Err(e) => Err(e),
        }
    }

    /// Reads one secret by name; absence is an error.
    pub fn require_secret(&self, secret_name: &SecretName) -> (r: SecretVaultResult<Secret>)
        ensures
            r matches Ok(s) ==> self.served_entry(name_key(secret_name@, None)) == Some(s@),
            self.wf() && self.served_reliably() ==> ((r is Ok) <==> self.served_entry(
                name_key(secret_name@, None),
            ) is Some),
    {
        self.require_secret_with_version(secret_name, None)
    }

    /// Reads one secret by name and optional version; absence is an
    /// error.
    pub fn require_secret_with_version(
        &self,
        secret_name: &SecretName,
        secret_version: Option<&SecretVersion>,
    ) -> (r: SecretVaultResult<Secret>)
        ensures
            r matches Ok(s) ==> self.served_entry(
                name_key(
                    secret_name@,
                    match secret_version {
                        Option::Some(v) => Some(v@),
                        Option::None => None,
                    },
                ),
            ) == Some(s@),
            self.wf() && self.served_reliably() ==> ((r is Ok) <==> self.served_entry(
                name_key(
                    secret_name@,
                    match secret_version {
                        Option::Some(v) => Some(v@),
                        Option::None => None,
                    },
                ),
            ) is Some),
    {
        let secret_ref = SecretVaultRef::new(secret_name.clone());
        let secret_ref = match secret_version {
            Option::Some(v) => secret_ref.with_secret_version(v.clone()),
            Option::None => secret_ref,
        };
        self.require_secret_by_ref(&secret_ref)
    }
}

/// Whether some registration with `allow_in_snapshots` files under `k`.
pub open spec fn allowed_key(refs: Seq<SecretVaultRef>, k: SecretVaultKeyView) -> bool {
    exists|n: int|
        0 <= n < refs.len() && (#[trigger] refs[n])@.key == k && refs[n]@.allow_in_snapshots
}

/// What a snapshot of `store` under the registrations `refs` holds at
/// `k`: the decrypted entry, where some registration allows `k` in
/// snapshots and the store holds it.
pub open spec fn snapshot_expected<E: SecretVaultEncryption>(
    store: SecretVaultStore<E>,
    refs: Seq<SecretVaultRef>,
    k: SecretVaultKeyView,
) -> Option<SecretView> {
    if allowed_key(refs, k) && store.spec_entry(k) is Some {
        Some(
            SecretView {
                value: store.spec_plain(k).unwrap(),
                metadata: store.spec_metadata(k).unwrap(),
            },
        )
    } else {
        None
    }
}

/// Extending the considered registrations by one changes which keys are
/// allowed only at that registration's key.
proof fn lemma_allowed_key_step(refs: Seq<SecretVaultRef>, i: int, k: SecretVaultKeyView)
    requires
        0 <= i < refs.len(),
    ensures
        k != refs[i]@.key ==> allowed_key(refs.take(i + 1), k) == allowed_key(refs.take(i), k),
        allowed_key(refs.take(i), k) ==> allowed_key(refs.take(i + 1), k),
        (k == refs[i]@.key && refs[i]@.allow_in_snapshots) ==> allowed_key(refs.take(i + 1), k),
        !allowed_key(refs.take(i + 1), k) || allowed_key(refs.take(i), k) || (k == refs[i]@.key
            && refs[i]@.allow_in_snapshots),
{
    if allowed_key(refs.take(i), k) {
        let n = choose|n: int|
            0 <= n < i && (#[trigger] refs.take(i)[n])@.key == k && refs.take(
                i,
            )[n]@.allow_in_snapshots;
        assert(refs.take(i + 1)[n]@.key == k && refs.take(i + 1)[n]@.allow_in_snapshots);
    }
    if k == refs[i]@.key && refs[i]@.allow_in_snapshots {
        assert(refs.take(i + 1)[i]@.key == k && refs.take(i + 1)[i]@.allow_in_snapshots);
    }
    if allowed_key(refs.take(i + 1), k) {
        let n = choose|n: int|
            0 <= n < i + 1 && (#[trigger] refs.take(i + 1)[n])@.key == k && refs.take(
                i + 1,
            )[n]@.allow_in_snapshots;
        if n < i {
            assert(refs.take(i)[n]@.key == k && refs.take(i)[n]@.allow_in_snapshots);
        }
    }
}

/// Registering a set of references is idempotent: the registration views
/// after a registration depend only on what was registered, and the store
/// and source are untouched, so registering the same set again leaves the
/// vault exactly where the first registration left it.
pub proof fn lemma_register_idempotent<S: SecretsSource, E: SecretVaultEncryption>(
    once: SecretVault<S, E>,
    twice: SecretVault<S, E>,
    registered: Seq<crate::common_types::SecretVaultRefView>,
)
    requires
        refs_views(once.spec_refs()) == registered,
        refs_views(twice.spec_refs()) == registered,
        twice.spec_store() == once.spec_store(),
        twice.spec_source() == once.spec_source(),
    ensures
        refs_views(twice.spec_refs()) == refs_views(once.spec_refs()),
        forall|k: SecretVaultKeyView|
            #![trigger twice.spec_store().spec_entry(k)]
            twice.spec_store().spec_entry(k) == once.spec_store().spec_entry(k),
        twice.spec_source() == once.spec_source(),
{
}

} // verus!

//! The vault's store: vault key to ciphertext and metadata.
//!
//! The store owns the encryption strategy: values are encrypted on insert
//! and decrypted on read, always under the AAD of the key they are filed
//! under.  Every ciphertext held decrypts under its own key — inserts only
//! file what they just sealed.

use vstd::prelude::*;

use crate::common_types::registered_key;
use crate::common_types::Secret;
use crate::common_types::SecretMetadataView;
use crate::common_types::SecretVaultKey;
use crate::common_types::SecretVaultKeyView;
use crate::common_types::SecretVaultRef;
use crate::common_types::SecretVaultRefView;
use crate::encryption::EncryptedSecretValue;
use crate::encryption::SecretVaultEncryption;
use crate::encryption::MAX_AEAD_PLAINTEXT_LEN;
use crate::errors::SecretVaultResult;

verus! {

/// One stored entry: the ciphertext and the metadata beside it.
pub struct SecretVaultStoreValue {
    pub data: EncryptedSecretValue,
    pub metadata: crate::common_types::SecretMetadata,
}

/// The mathematical shape of a stored entry.
#[verifier::ext_equal]
pub struct SecretVaultStoreValueView {
    pub data: Seq<u8>,
    pub metadata: SecretMetadataView,
}

impl View for SecretVaultStoreValue {
    type V = SecretVaultStoreValueView;

    open spec fn view(&self) -> SecretVaultStoreValueView {
        SecretVaultStoreValueView { data: self.data@, metadata: self.metadata@ }
    }
}

/// The views of a sequence of registrations.
pub open spec fn refs_views(s: Seq<SecretVaultRef>) -> Seq<SecretVaultRefView> {
    s.map_values(|r: SecretVaultRef| r@)
}

/// The newest entry filed in `s` under `k`, where there is one.
pub open spec fn entries_lookup(
    s: Seq<(SecretVaultKey, SecretVaultStoreValue)>,
    k: SecretVaultKeyView,
) -> Option<SecretVaultStoreValueView>
    decreases s.len(),
{
    if s.len() == 0 {
        None
    } else if s.last().0@ == k {
        Some(s.last().1@)
    } else {
        entries_lookup(s.drop_last(), k)
    }
}

/// `s` without the entries filed under `k`.
pub open spec fn entries_remove(
    s: Seq<(SecretVaultKey, SecretVaultStoreValue)>,
    k: SecretVaultKeyView,
) -> Seq<(SecretVaultKey, SecretVaultStoreValue)>
    decreases s.len(),
{
    if s.len() == 0 {
        Seq::empty()
    } else if s.last().0@ == k {
        entries_remove(s.drop_last(), k)
    } else {
        entries_remove(s.drop_last(), k).push(s.last())
    }
}

/// `s` kept to the entries filed under a registered key.
pub open spec fn entries_retain(
    s: Seq<(SecretVaultKey, SecretVaultStoreValue)>,
    refs: Seq<SecretVaultRef>,
) -> Seq<(SecretVaultKey, SecretVaultStoreValue)>
    decreases s.len(),
{
    if s.len() == 0 {
        Seq::empty()
    } else if registered_key(refs, s.last().0@) {
        entries_retain(s.drop_last(), refs).push(s.last())
    } else {
        entries_retain(s.drop_last(), refs)
    }
}

/// Removing one key leaves every other key's entry as it was.
proof fn lemma_entries_remove_lookup(
    s: Seq<(SecretVaultKey, SecretVaultStoreValue)>,
    k: SecretVaultKeyView,
    x: SecretVaultKeyView,
)
    ensures
        entries_lookup(entries_remove(s, k), x) == (if x == k {
            Option::<SecretVaultStoreValueView>::None
        } else {
            entries_lookup(s, x)
        }),
    decreases s.len(),
{
    if s.len() > 0 {
        lemma_entries_remove_lookup(s.drop_last(), k, x);
        if s.last().0@ != k {
            assert(entries_remove(s, k).last() == s.last());
            assert(entries_remove(s, k).drop_last() =~= entries_remove(s.drop_last(), k));
        }
    }
}

/// Compacting keeps registered keys' entries and drops all others.
proof fn lemma_entries_retain_lookup(
    s: Seq<(SecretVaultKey, SecretVaultStoreValue)>,
    refs: Seq<SecretVaultRef>,
    x: SecretVaultKeyView,
)
    ensures
        entries_lookup(entries_retain(s, refs), x) == (if registered_key(refs, x) {
            entries_lookup(s, x)
        } else {
            Option::<SecretVaultStoreValueView>::None
        }),
    decreases s.len(),
{
    if s.len() > 0 {
        lemma_entries_retain_lookup(s.drop_last(), refs, x);
        if registered_key(refs, s.last().0@) {
            assert(entries_retain(s, refs).last() == s.last());
            assert(entries_retain(s, refs).drop_last() =~= entries_retain(s.drop_last(), refs));
        }
    }
}

/// Whether some registration files its secret under `key`.
fn key_registered(secret_refs: &[SecretVaultRef], key: &SecretVaultKey) -> (r: bool)
    ensures
        r == registered_key(secret_refs@, key@),
{
    let mut i: usize = 0;
    while i < secret_refs.len()
        invariant
            i <= secret_refs@.len(),
            forall|n: int| 0 <= n < i ==> (#[trigger] secret_refs@[n])@.key != key@,
        decreases secret_refs@.len() - i,
    {
        if secret_refs[i].key == *key {
            return true;
        }
        i = i + 1;
    }
    false
}

/// Empties a vector of entries onto a stack, newest first.
fn drain_entries_reversed(v: &mut Vec<(SecretVaultKey, SecretVaultStoreValue)>) -> (r: Vec<
    (SecretVaultKey, SecretVaultStoreValue),
>)
    ensures
        final(v)@.len() == 0,
        r@.len() == old(v)@.len(),
        forall|j: int| 0 <= j < r@.len() ==> r@[j] == old(v)@[old(v)@.len() - 1 - j],
{
    let ghost prev = v@;
    let mut stack: Vec<(SecretVaultKey, SecretVaultStoreValue)> = Vec::new();
    proof {
        assert(v@ =~= prev.take(v@.len() as int));
    }
    while v.len() > 0
        invariant
            v@ == prev.take(v@.len() as int),
            stack@.len() + v@.len() == prev.len(),
            forall|j: int| 0 <= j < stack@.len() ==> stack@[j] == prev[prev.len() - 1 - j],
        decreases v@.len(),
    {
        proof {
            assert(v@.last() == prev[v@.len() - 1]);
        }
        let p = v.pop().unwrap();
        stack.push(p);
        proof {
            assert(v@ =~= prev.take(v@.len() as int));
        }
    }
    stack
}

/// The associative container of the vault: vault key to entry, with the
/// encryption strategy applied on the way in and out.
pub struct SecretVaultStore<E: SecretVaultEncryption> {
    secrets: Vec<(SecretVaultKey, SecretVaultStoreValue)>,
    encrypter: E,
}

impl<E: SecretVaultEncryption> SecretVaultStore<E> {
    /// The strategy this store encrypts and decrypts with.
    pub closed spec fn spec_encrypter(&self) -> E {
        self.encrypter
    }

    /// The entry filed under `k`.
    pub closed spec fn spec_entry(&self, k: SecretVaultKeyView) -> Option<
        SecretVaultStoreValueView,
    > {
        entries_lookup(self.secrets@, k)
    }

    /// The cleartext the entry under `k` decrypts to.
    pub open spec fn spec_plain(&self, k: SecretVaultKeyView) -> Option<Seq<u8>> {
        match self.spec_entry(k) {
            Option::Some(e) => self.spec_encrypter().decrypt_model(k, e.data),
            Option::None => None,
        }
    }

    /// The metadata filed under `k`.
    pub open spec fn spec_metadata(&self, k: SecretVaultKeyView) -> Option<SecretMetadataView> {
        match self.spec_entry(k) {
            Option::Some(e) => Some(e.metadata),
            Option::None => None,
        }
    }

    /// Every ciphertext held decrypts under the key it is filed under,
    /// and every entry's metadata names that key.  Constructors establish
    /// this and every method preserves it.
    pub closed spec fn wf(&self) -> bool {
        forall|k: SecretVaultKeyView|
            (#[trigger] self.spec_entry(k)) matches Some(e) ==> self.encrypter.decrypt_model(
                k,
                e.data,
            ) is Some && e.metadata.key == k
    }

    /// An empty store around an encryption strategy.
    pub fn new(encrypter: E) -> (r: Self)
        ensures
            r.wf(),
            r.spec_encrypter() == encrypter,
            r.spec_len() == 0,
            forall|k: SecretVaultKeyView| r.spec_entry(k) is None,
    {
        Self { secrets: Vec::new(), encrypter }
    }

    /// Rebuilds the entry list without the entries filed under `key`.
    fn remove_entries(&mut self, key: &SecretVaultKey)
        ensures
            old(self).wf() ==> final(self).wf(),
            final(self).secrets@ == entries_remove(old(self).secrets@, key@),
            final(self).encrypter == old(self).encrypter,
    {
        let ghost prev = self.secrets@;
        let mut stack = drain_entries_reversed(&mut self.secrets);
        proof {
            assert(prev.take(0) =~= Seq::<(SecretVaultKey, SecretVaultStoreValue)>::empty());
        }
        while stack.len() > 0
            invariant
                stack@.len() <= prev.len(),
                forall|j: int|
                    0 <= j < stack@.len() ==> stack@[j] == prev[prev.len() - 1 - j],
                self.secrets@ == entries_remove(
                    prev.take((prev.len() - stack@.len()) as int),
                    key@,
                ),
                self.encrypter == old(self).encrypter,
            decreases stack@.len(),
        {
            let ghost m = prev.len() - stack@.len();
            let p = stack.pop().unwrap();
            proof {
                assert(p == prev[m as int]);
                assert(prev.take(m + 1).drop_last() =~= prev.take(m as int));
                assert(prev.take(m + 1).last() == prev[m as int]);
            }
            if p.0 == *key {
            } else {
                self.secrets.push(p);
            }
        }
        proof {
            assert(prev.take(prev.len() as int) =~= prev);
            if old(self).wf() {
                assert forall|k: SecretVaultKeyView| true implies ((#[trigger] entries_lookup(
                    self.secrets@,
                    k,
                )) matches Some(e) ==> self.encrypter.decrypt_model(k, e.data) is Some
                    && e.metadata.key == k) by {
                    lemma_entries_remove_lookup(prev, key@, k);
                    assert(old(self).spec_entry(k) == entries_lookup(prev, k));
                }
            }
        }
    }

    /// Encrypts a secret under its registration's key and files it,
    /// replacing any earlier entry under the same key.  A failure of the
    /// strategy leaves the store untouched.
    pub fn insert(&mut self, secret_ref: SecretVaultRef, secret: &Secret) -> (r: SecretVaultResult<
        (),
    >)
        ensures
            old(self).wf() && secret@.metadata.key == secret_ref@.key ==> final(self).wf(),
            final(self).spec_encrypter() == old(self).spec_encrypter(),
            old(self).spec_encrypter().reliable() && secret@.value.len()
                <= MAX_AEAD_PLAINTEXT_LEN ==> r is Ok,
            r is Ok ==> final(self).spec_plain(secret_ref@.key) == Some(secret@.value),
            r is Ok ==> final(self).spec_metadata(secret_ref@.key) == Some(secret@.metadata),
            r is Ok ==> forall|k: SecretVaultKeyView|
                k != secret_ref@.key ==> final(self).spec_entry(k) == old(self).spec_entry(k),
            r is Err ==> *final(self) == *old(self),
    {
        let encrypted = match self.encrypter.encrypt_value(&secret_ref.key, &secret.value) {
            Ok(ct) => ct,
            Err(e) => {
                return Err(e);
            },
        };
        let ghost prev = self.secrets@;
        let ghost key = secret_ref@.key;
        self.remove_entries(&secret_ref.key);
        self.secrets.push(
            (
                secret_ref.key,
                SecretVaultStoreValue { data: encrypted, metadata: secret.metadata.clone() },
            ),
        );
        proof {
            assert(self.secrets@.drop_last() =~= entries_remove(prev, key));
            assert(self.secrets@.last().0@ == key);
            assert forall|k: SecretVaultKeyView| k != key implies entries_lookup(
                self.secrets@,
                k,
            ) == entries_lookup(prev, k) by {
                lemma_entries_remove_lookup(prev, key, k);
            }
            if old(self).wf() && secret@.metadata.key == secret_ref@.key {
                assert forall|k: SecretVaultKeyView| true implies ((#[trigger] entries_lookup(
                    self.secrets@,
                    k,
                )) matches Some(e) ==> self.encrypter.decrypt_model(k, e.data) is Some
                    && e.metadata.key == k) by {
                    if k != key {
                        lemma_entries_remove_lookup(prev, key, k);
                        assert(old(self).spec_entry(k) == entries_lookup(prev, k));
                    }
                }
            }
        }
        Ok(())
    }

    /// Reads and decrypts the entry under a key.  With a reliable
    /// strategy the read itself cannot fail; an absent key is `None`.
    pub fn get_secret(&self, secret_vault_key: &SecretVaultKey) -> (r: SecretVaultResult<
        Option<Secret>,
    >)
        ensures
            self.wf() && self.spec_encrypter().reliable() ==> r is Ok,
            self.spec_entry(secret_vault_key@) is None ==> (r matches Ok(opt) && opt is None),
            r matches Ok(opt) ==> ((opt is Some) <==> self.spec_entry(secret_vault_key@) is Some),
            r matches Ok(Some(s)) ==> self.spec_plain(secret_vault_key@) == Some(s@.value)
                && self.spec_metadata(secret_vault_key@) == Some(s@.metadata),
    {
        match self.get_entry_index(secret_vault_key) {
            Option::Some(j) => {
                let stored_value = &self.secrets[j].1;
                match self.encrypter.decrypt_value(secret_vault_key, &stored_value.data) {
                    Ok(secret_value) => Ok(
                        Some(Secret::new(secret_value, stored_value.metadata.clone())),
                    ),
                    Err(e) => Err(e),
                }
            },
            Option::None => Ok(None),
        }
    }

    /// Drops the entry under a key.
    pub fn remove(&mut self, secret_vault_key: &SecretVaultKey) -> (r: SecretVaultResult<()>)
        ensures
            old(self).wf() ==> final(self).wf(),
            r is Ok,
            final(self).spec_encrypter() == old(self).spec_encrypter(),
            final(self).spec_entry(secret_vault_key@) is None,
            forall|k: SecretVaultKeyView|
                k != secret_vault_key@ ==> final(self).spec_entry(k) == old(self).spec_entry(k),
    {
        let ghost prev = self.secrets@;
        self.remove_entries(secret_vault_key);
        proof {
            assert forall|k: SecretVaultKeyView| true implies entries_lookup(self.secrets@, k) == (
            if k == secret_vault_key@ {
                Option::<SecretVaultStoreValueView>::None
            } else {
                entries_lookup(prev, k)
            }) by {
                lemma_entries_remove_lookup(prev, secret_vault_key@, k);
            }
        }
        Ok(())
    }

    /// Whether every one of the registrations is present.
    pub fn contains(&self, secret_refs: &[SecretVaultRef]) -> (r: bool)
        ensures
            r == (forall|n: int|
                0 <= n < secret_refs@.len() ==> self.spec_entry(
                    (#[trigger] secret_refs@[n])@.key,
                ) is Some),
    {
        let mut i: usize = 0;
        while i < secret_refs.len()
            invariant
                i <= secret_refs@.len(),
                forall|n: int|
                    0 <= n < i ==> self.spec_entry((#[trigger] secret_refs@[n])@.key) is Some,
            decreases secret_refs@.len() - i,
        {
            match self.get_entry_index(&secret_refs[i].key) {
                Option::Some(_) => {},
                Option::None => {
                    return false;
                },
            }
            i = i + 1;
        }
        true
    }

    /// The registrations of `refs` whose key is present, in order.
    pub open spec fn present_refs(&self, refs: Seq<SecretVaultRef>) -> Seq<SecretVaultRefView>
        decreases refs.len(),
    {
        if refs.len() == 0 {
            Seq::empty()
        } else if self.spec_entry(refs.last()@.key) is Some {
            self.present_refs(refs.drop_last()).push(refs.last()@)
        } else {
            self.present_refs(refs.drop_last())
        }
    }

    /// The registrations of `refs` whose key is absent, in order.
    pub open spec fn missing_refs(&self, refs: Seq<SecretVaultRef>) -> Seq<SecretVaultRefView>
        decreases refs.len(),
    {
        if refs.len() == 0 {
            Seq::empty()
        } else if self.spec_entry(refs.last()@.key) is None {
            self.missing_refs(refs.drop_last()).push(refs.last()@)
        } else {
            self.missing_refs(refs.drop_last())
        }
    }

    /// Partitions registrations into those present and those missing;
    /// each side carries copies.
    pub fn partition_refs(&self, secret_refs: &Vec<SecretVaultRef>) -> (r: (
        Vec<SecretVaultRef>,
        Vec<SecretVaultRef>,
    ))
        ensures
            refs_views(r.0@) == self.present_refs(secret_refs@),
            refs_views(r.1@) == self.missing_refs(secret_refs@),
    {
        let mut existing: Vec<SecretVaultRef> = Vec::new();
        let mut missing: Vec<SecretVaultRef> = Vec::new();
        let mut i: usize = 0;
        proof {
            assert(secret_refs@.take(0) =~= Seq::<SecretVaultRef>::empty());
            assert(refs_views(existing@) =~= self.present_refs(secret_refs@.take(0)));
            assert(refs_views(missing@) =~= self.missing_refs(secret_refs@.take(0)));
        }
        while i < secret_refs.len()
            invariant
                i <= secret_refs@.len(),
                refs_views(existing@) == self.present_refs(secret_refs@.take(i as int)),
                refs_views(missing@) == self.missing_refs(secret_refs@.take(i as int)),
            decreases secret_refs@.len() - i,
        {
            proof {
                assert(secret_refs@.take(i + 1).drop_last() =~= secret_refs@.take(i as int));
                assert(secret_refs@.take(i + 1).last() == secret_refs@[i as int]);
            }
            match self.get_entry_index(&secret_refs[i].key) {
                Option::Some(_) => {
                    existing.push(secret_refs[i].clone());
                    proof {
                        assert(refs_views(existing@) =~= self.present_refs(
                            secret_refs@.take(i + 1),
                        ));
                    }
                },
                Option::None => {
                    missing.push(secret_refs[i].clone());
                    proof {
                        assert(refs_views(missing@) =~= self.missing_refs(
                            secret_refs@.take(i + 1),
                        ));
                    }
                },
            }
            i = i + 1;
        }
        proof {
            assert(secret_refs@.take(secret_refs@.len() as int) =~= secret_refs@);
        }
        (existing, missing)
    }

    /// A sound store's metadata always names the key it is filed under.
    pub proof fn lemma_wf_metadata_key(&self, k: SecretVaultKeyView)
        requires
            self.wf(),
            self.spec_entry(k) is Some,
        ensures
            self.spec_metadata(k) matches Some(m) && m.key == k,
    {
    }

    /// Every missing registration's key is absent, and it is one of the
    /// given registrations.
    pub proof fn lemma_missing_refs_sound(&self, refs: Seq<SecretVaultRef>)
        ensures
            forall|j: int|
                0 <= j < self.missing_refs(refs).len() ==> self.spec_entry(
                    (#[trigger] self.missing_refs(refs)[j]).key,
                ) is None,
            forall|j: int|
                0 <= j < self.missing_refs(refs).len() ==> exists|n: int|
                    0 <= n < refs.len() && (#[trigger] refs[n])@ == (#[trigger] self.missing_refs(
                        refs,
                    )[j]),
        decreases refs.len(),
    {
        if refs.len() > 0 {
            self.lemma_missing_refs_sound(refs.drop_last());
            let whole = self.missing_refs(refs);
            let rest = self.missing_refs(refs.drop_last());
            assert forall|j: int| 0 <= j < whole.len() implies exists|n: int|
                0 <= n < refs.len() && (#[trigger] refs[n])@ == (#[trigger] whole[j]) by {
                if j < rest.len() {
                    let n = choose|n: int|
                        0 <= n < refs.drop_last().len() && (#[trigger] refs.drop_last()[n])@
                            == rest[j];
                    assert(refs[n]@ == whole[j]);
                } else {
                    assert(whole[j] == refs[refs.len() - 1]@);
                }
            }
        }
    }

    /// Every registration whose key is absent appears among the missing.
    pub proof fn lemma_missing_refs_complete(&self, refs: Seq<SecretVaultRef>)
        ensures
            forall|n: int|
                0 <= n < refs.len() && self.spec_entry((#[trigger] refs[n])@.key) is None
                    ==> exists|j: int|
                    0 <= j < self.missing_refs(refs).len() && (#[trigger] self.missing_refs(
                        refs,
                    )[j]) == refs[n]@,
        decreases refs.len(),
    {
        if refs.len() > 0 {
            self.lemma_missing_refs_complete(refs.drop_last());
            let whole = self.missing_refs(refs);
            let rest = self.missing_refs(refs.drop_last());
            assert forall|n: int|
                0 <= n < refs.len() && self.spec_entry((#[trigger] refs[n])@.key) is None
                implies exists|j: int|
                0 <= j < whole.len() && (#[trigger] whole[j]) == refs[n]@ by {
                if n < refs.len() - 1 {
                    assert(refs.drop_last()[n] == refs[n]);
                    let j = choose|j: int|
                        0 <= j < rest.len() && (#[trigger] rest[j]) == refs[n]@;
                    assert(whole[j] == refs[n]@);
                } else {
                    assert(whole[whole.len() - 1] == refs[n]@);
                }
            }
        }
    }

    /// Drops every entry whose key no registration in `secret_refs`
    /// files under.
    pub fn compact(&mut self, secret_refs: &[SecretVaultRef]) -> (r: SecretVaultResult<()>)
        ensures
            old(self).wf() ==> final(self).wf(),
            r is Ok,
            final(self).spec_encrypter() == old(self).spec_encrypter(),
            forall|k: SecretVaultKeyView|
                #![trigger final(self).spec_entry(k)]
                final(self).spec_entry(k) == (if registered_key(secret_refs@, k) {
                    old(self).spec_entry(k)
                } else {
                    Option::<SecretVaultStoreValueView>::None
                }),
    {
        let ghost prev = self.secrets@;
        let mut stack = drain_entries_reversed(&mut self.secrets);
        proof {
            assert(prev.take(0) =~= Seq::<(SecretVaultKey, SecretVaultStoreValue)>::empty());
        }
        while stack.len() > 0
            invariant
                stack@.len() <= prev.len(),
                forall|j: int|
                    0 <= j < stack@.len() ==> stack@[j] == prev[prev.len() - 1 - j],
                self.secrets@ == entries_retain(
                    prev.take((prev.len() - stack@.len()) as int),
                    secret_refs@,
                ),
                self.encrypter == old(self).encrypter,
            decreases stack@.len(),
        {
            let ghost m = prev.len() - stack@.len();
            let p = stack.pop().unwrap();
            proof {
                assert(p == prev[m as int]);
                assert(prev.take(m + 1).drop_last() =~= prev.take(m as int));
                assert(prev.take(m + 1).last() == prev[m as int]);
            }
            if key_registered(secret_refs, &p.0) {
                self.secrets.push(p);
            }
        }
        proof {
            assert(prev.take(prev.len() as int) =~= prev);
            assert forall|k: SecretVaultKeyView| true implies #[trigger] entries_lookup(
                self.secrets@,
                k,
            ) == (if registered_key(secret_refs@, k) {
                entries_lookup(prev, k)
            } else {
                Option::<SecretVaultStoreValueView>::None
            }) by {
                lemma_entries_retain_lookup(prev, secret_refs@, k);
            }
            if old(self).wf() {
                assert forall|k: SecretVaultKeyView| true implies ((#[trigger] entries_lookup(
                    self.secrets@,
                    k,
                )) matches Some(e) ==> self.encrypter.decrypt_model(k, e.data) is Some
                    && e.metadata.key == k) by {
                    lemma_entries_retain_lookup(prev, secret_refs@, k);
                    assert(old(self).spec_entry(k) == entries_lookup(prev, k));
                }
            }
        }
        Ok(())
    }

    /// The count of entries held.
    pub fn len(&self) -> (r: usize)
        ensures
            r == self.spec_len(),
    {
        self.secrets.len()
    }

    /// How many entries the store holds.
    pub closed spec fn spec_len(&self) -> nat {
        self.secrets@.len()
    }

    /// The position of the entry filed under a key, scanning the newest
    /// first.
    fn get_entry_index(&self, key: &SecretVaultKey) -> (r: Option<usize>)
        ensures
            r matches Some(j) ==> j < self.secrets@.len() && self.secrets@[j as int].0@ == key@
                && self.spec_entry(key@) == Some(self.secrets@[j as int].1@),
            r is None ==> self.spec_entry(key@) is None,
    {
        let mut i: usize = self.secrets.len();
        proof {
            assert(self.secrets@.take(self.secrets@.len() as int) =~= self.secrets@);
        }
        while i > 0
            invariant
                i <= self.secrets@.len(),
                entries_lookup(self.secrets@, key@) == entries_lookup(
                    self.secrets@.take(i as int),
                    key@,
                ),
            decreases i,
        {
            i = i - 1;
            proof {
                assert(self.secrets@.take(i + 1).last() == self.secrets@[i as int]);
                assert(self.secrets@.take(i + 1).drop_last() =~= self.secrets@.take(i as int));
            }
            if self.secrets[i].0 == *key {
                return Some(i);
            }
        }
        proof {
            assert(self.secrets@.take(0) =~= Seq::<
                (SecretVaultKey, SecretVaultStoreValue),
            >::empty());
        }
        None
    }
}

} // verus!

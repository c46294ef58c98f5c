//! A source of generated ephemera: random secrets of configured length.
//!
//! Each registered key gets options: the length, whether the value is
//! hex-printable, and whether it is fixed at construction or freshly
//! generated at every refresh.

use vstd::prelude::*;

use crate::common_types::Secret;
use crate::common_types::SecretMetadata;
use crate::common_types::SecretVaultKey;
use crate::common_types::SecretVaultKeyView;
use crate::common_types::SecretVaultRef;
use crate::errors::SecretVaultDataNotFoundError;
use crate::errors::SecretVaultError;
use crate::errors::SecretVaultErrorPublicGenericDetails;
use crate::errors::SecretVaultResult;
use crate::errors::SecretsSourceError;
use crate::hex_support::is_hex_digit_byte;
use crate::hex_support::lemma_hex_encode_digits;
use crate::hex_support::lemma_hex_encode_len;
use crate::secrets_source::SecretsSource;
use crate::value::SecretValue;

verus! {

/// How one ephemeral secret is generated.
#[derive(Clone, Copy, Debug, PartialEq, Eq, Structural)]
pub struct TempSecretOptions {
    /// The requested length, in bytes of output.
    pub key_len: usize,
    /// Whether a fresh value is generated at every refresh, instead of
    /// once at construction.
    pub regenerate_on_refresh: bool,
    /// Whether the value is hex text; the raw length is halved to keep
    /// the output length.
    pub printable: bool,
}

impl TempSecretOptions {
    /// Options with the defaults: fixed at construction, printable.
    pub fn new(key_len: usize) -> (r: Self)
        ensures
            r == (TempSecretOptions { key_len, regenerate_on_refresh: false, printable: true }),
    {
        Self { key_len, regenerate_on_refresh: false, printable: true }
    }

    pub fn with_regenerate_on_refresh(self, value: bool) -> (r: Self)
        ensures
            r == (TempSecretOptions { regenerate_on_refresh: value, ..self }),
    {
        Self { regenerate_on_refresh: value, ..self }
    }

    pub fn with_printable(self, value: bool) -> (r: Self)
        ensures
            r == (TempSecretOptions { printable: value, ..self }),
    {
        Self { printable: value, ..self }
    }
}

/// The shape of a generated value: hex text of the requested length, or
/// raw bytes of the requested length.
pub open spec fn generated_shape(options: TempSecretOptions, v: Seq<u8>) -> bool {
    if options.printable {
        v.len() == 2 * ((options.key_len / 2) as int) && (forall|i: int|
            0 <= i < v.len() ==> is_hex_digit_byte(#[trigger] v[i]))
    } else {
        v.len() == options.key_len
    }
}

/// The options registered last for `k`, where any are.
pub open spec fn options_lookup(s: Seq<(SecretVaultKey, TempSecretOptions)>, k: SecretVaultKeyView) -> Option<
    TempSecretOptions,
>
    decreases s.len(),
{
    if s.len() == 0 {
        None
    } else if s.last().0@ == k {
        Some(s.last().1)
    } else {
        options_lookup(s.drop_last(), k)
    }
}

/// Which keys get generated secrets, and how.
pub struct TempSecretGenSourceOptions {
    registered_secrets: Vec<(SecretVaultKey, TempSecretOptions)>,
}

impl TempSecretGenSourceOptions {
    /// The options registered for `k`.
    pub closed spec fn spec_options(&self, k: SecretVaultKeyView) -> Option<TempSecretOptions> {
        options_lookup(self.registered_secrets@, k)
    }

    /// No generators registered yet.
    pub fn new() -> (r: Self)
        ensures
            forall|k: SecretVaultKeyView| r.spec_options(k) is None,
    {
        Self { registered_secrets: Vec::new() }
    }

    /// Registers a generator for a key, replacing any earlier one.
    pub fn add_secret_generator(self, key: &SecretVaultKey, options: TempSecretOptions) -> (r:
        Self)
        ensures
            r.spec_options(key@) == Some(options),
            forall|k: SecretVaultKeyView|
                k != key@ ==> r.spec_options(k) == self.spec_options(k),
    {
        let mut registered_secrets = self.registered_secrets;
        let ghost prev = registered_secrets@;
        registered_secrets.push((key.clone(), options));
        proof {
            assert(registered_secrets@.drop_last() =~= prev);
        }
        Self { registered_secrets }
    }

    /// The registered pairs, scanned in order.
    fn entry(&self, i: usize) -> (r: (&SecretVaultKey, &TempSecretOptions))
        requires
            i < self.registered_secrets@.len(),
        ensures
            r.0@ == self.registered_secrets@[i as int].0@,
            *r.1 == self.registered_secrets@[i as int].1,
    {
        (&self.registered_secrets[i].0, &self.registered_secrets[i].1)
    }

    /// How many generators are registered.
    fn len(&self) -> (r: usize)
        ensures
            r == self.registered_secrets@.len(),
    {
        self.registered_secrets.len()
    }

    /// The registered pairs.
    pub(crate) closed spec fn spec_entries(&self) -> Seq<(SecretVaultKey, TempSecretOptions)> {
        self.registered_secrets@
    }

    /// Looks the options for a key up.
    fn get_options(&self, key: &SecretVaultKey) -> (r: Option<TempSecretOptions>)
        ensures
            r == self.spec_options(key@),
    {
        let mut i: usize = self.registered_secrets.len();
        proof {
            assert(self.registered_secrets@.take(self.registered_secrets@.len() as int)
                =~= self.registered_secrets@);
        }
        while i > 0
            invariant
                i <= self.registered_secrets@.len(),
                options_lookup(self.registered_secrets@, key@) == options_lookup(
                    self.registered_secrets@.take(i as int),
                    key@,
                ),
            decreases i,
        {
            i = i - 1;
            proof {
                assert(self.registered_secrets@.take(i + 1).last()
                    == self.registered_secrets@[i as int]);
                assert(self.registered_secrets@.take(i + 1).drop_last()
                    =~= self.registered_secrets@.take(i as int));
            }
            if self.registered_secrets[i].0 == *key {
                return Some(self.registered_secrets[i].1);
            }
        }
        proof {
            assert(self.registered_secrets@.take(0) =~= Seq::<
                (SecretVaultKey, TempSecretOptions),
            >::empty());
        }
        None
    }
}

/// Draws a fresh secret of the configured shape from the entropy source.
pub fn generate_secret_value(
    secure_rand: &ring::rand::SystemRandom,
    key_len: usize,
    printable: bool,
) -> (r: SecretVaultResult<SecretValue>)
    ensures
        r matches Ok(v) ==> generated_shape(
            TempSecretOptions { key_len, regenerate_on_refresh: false, printable },
            v@,
        ),
        r matches Ok(v) ==> generated_shape(
            TempSecretOptions { key_len, regenerate_on_refresh: true, printable },
            v@,
        ),
        r matches Err(e) ==> e matches SecretVaultError::SecretsSourceError(_),
{
    let effective_key_len: usize = if printable {
        key_len / 2
    } else {
        key_len
    };
    let mut rand_key_data: Vec<u8> = vec![0; effective_key_len];
    match crate::ring_encryption_support::fill_random(secure_rand, &mut rand_key_data) {
        Ok(()) => {},
        Err(()) => {
            return Err(
                SecretVaultError::SecretsSourceError(
                    SecretsSourceError::new(
                        SecretVaultErrorPublicGenericDetails::new(
                            "SECRETS_SOURCE_GENERATE".to_owned(),
                        ),
                        "Unable to initialise random key".to_owned(),
                    ),
                ),
            );
        },
    }
    if printable {
        let encoded = crate::hex_support::hex_encode_vec(&rand_key_data);
        proof {
            lemma_hex_encode_len(rand_key_data@);
            lemma_hex_encode_digits(rand_key_data@);
        }
        Ok(SecretValue::new(encoded))
    } else {
        Ok(SecretValue::new(rand_key_data))
    }
}

/// An in-process source of generated ephemera.
pub struct TempSecretGenSource {
    options: TempSecretGenSourceOptions,
    secure_rand: ring::rand::SystemRandom,
    generated_secrets: Vec<(SecretVaultKey, SecretValue)>,
}

/// The newest pre-generated value for `k`, where there is one.
pub open spec fn generated_lookup(s: Seq<(SecretVaultKey, SecretValue)>, k: SecretVaultKeyView) -> Option<
    Seq<u8>,
>
    decreases s.len(),
{
    if s.len() == 0 {
        None
    } else if s.last().0@ == k {
        Some(s.last().1@)
    } else {
        generated_lookup(s.drop_last(), k)
    }
}

/// A value filed in `s` means some entry carries its key.
proof fn lemma_generated_lookup_entry(s: Seq<(SecretVaultKey, SecretValue)>, k: SecretVaultKeyView)
    ensures
        generated_lookup(s, k) is Some ==> exists|j: int|
            0 <= j < s.len() && (#[trigger] s[j]).0@ == k,
    decreases s.len(),
{
    if s.len() > 0 {
        lemma_generated_lookup_entry(s.drop_last(), k);
        if generated_lookup(s, k) is Some {
            if s.last().0@ == k {
                assert(s[s.len() - 1].0@ == k);
            } else {
                let j = choose|j: int|
                    0 <= j < s.drop_last().len() && (#[trigger] s.drop_last()[j]).0@ == k;
                assert(s[j].0@ == k);
            }
        }
    }
}

/// Registered options mean some entry carries the key.
proof fn lemma_options_lookup_entry(
    s: Seq<(SecretVaultKey, TempSecretOptions)>,
    k: SecretVaultKeyView,
)
    ensures
        options_lookup(s, k) is Some ==> exists|j: int|
            0 <= j < s.len() && (#[trigger] s[j]).0@ == k,
    decreases s.len(),
{
    if s.len() > 0 {
        lemma_options_lookup_entry(s.drop_last(), k);
        if options_lookup(s, k) is Some {
            if s.last().0@ == k {
                assert(s[s.len() - 1].0@ == k);
            } else {
                let j = choose|j: int|
                    0 <= j < s.drop_last().len() && (#[trigger] s.drop_last()[j]).0@ == k;
                assert(s[j].0@ == k);
            }
        }
    }
}

impl TempSecretGenSource {
    /// Every pre-generated value belongs to a key whose options in force
    /// are fixed at construction and has the shape they ask for — and
    /// every such key has its value pre-generated.
    #[verifier::type_invariant]
    spec fn wf(&self) -> bool {
        &&& forall|j: int|
            0 <= j < self.generated_secrets@.len()
                ==> ((#[trigger] self.options.spec_options(
                self.generated_secrets@[j].0@,
            )) matches Some(o) && !o.regenerate_on_refresh && generated_shape(
                o,
                self.generated_secrets@[j].1@,
            ))
        &&& forall|k: SecretVaultKeyView|
            ((#[trigger] self.options.spec_options(k)) is Some && !self.options.spec_options(
                k,
            ).unwrap().regenerate_on_refresh) ==> (generated_lookup(self.generated_secrets@, k)
                is Some && generated_shape(
                self.options.spec_options(k).unwrap(),
                generated_lookup(self.generated_secrets@, k).unwrap(),
            ))
    }

    /// The value generated once at construction for `k`, where the
    /// options in force are fixed.
    pub closed spec fn spec_generated(&self, k: SecretVaultKeyView) -> Option<Seq<u8>> {
        generated_lookup(self.generated_secrets@, k)
    }

    /// The generation options in force for `k`.
    pub closed spec fn spec_options(&self, k: SecretVaultKeyView) -> Option<TempSecretOptions> {
        self.options.spec_options(k)
    }

    /// What this source covers and vouches for, spelled out: a key is
    /// covered exactly when a generator is registered for it, and every
    /// served value has the shape those options ask for.
    pub proof fn lemma_model(&self)
        ensures
            forall|k: SecretVaultKeyView|
                #[trigger] self.covers(k) == (self.spec_options(k) is Some),
            forall|k: SecretVaultKeyView, v: Seq<u8>|
                #[trigger] self.value_model(k, v) == (match self.spec_options(k) {
                    Option::Some(o) => generated_shape(o, v),
                    Option::None => false,
                }),
    {
    }

    /// Builds the source, pre-generating every secret whose options in
    /// force are fixed at construction.  Where every registered generator
    /// regenerates on refresh, nothing is drawn and building cannot fail.
    pub fn with_options(options: TempSecretGenSourceOptions) -> (r: SecretVaultResult<Self>)
        ensures
            r matches Ok(s) ==> forall|k: SecretVaultKeyView|
                (#[trigger] s.covers(k)) == (options.spec_options(k) is Some),
            r matches Ok(s) ==> forall|k: SecretVaultKeyView|
                #[trigger] s.spec_options(k) == options.spec_options(k),
            r matches Ok(s) ==> forall|k: SecretVaultKeyView|
                ((#[trigger] s.spec_options(k)) is Some && !s.spec_options(
                    k,
                ).unwrap().regenerate_on_refresh) ==> (s.spec_generated(k) is Some
                    && generated_shape(s.spec_options(k).unwrap(), s.spec_generated(k).unwrap())),
            r matches Ok(s) ==> forall|k: SecretVaultKeyView|
                ((#[trigger] s.spec_options(k)) is None || s.spec_options(
                    k,
                ).unwrap().regenerate_on_refresh) ==> s.spec_generated(k) is None,
            (forall|k: SecretVaultKeyView|
                (#[trigger] options.spec_options(k)) matches Some(o)
                    ==> o.regenerate_on_refresh) ==> r is Ok,
            r matches Err(e) ==> e matches SecretVaultError::SecretsSourceError(_),
    {
        let secure_rand = ring::rand::SystemRandom::new();
        let mut generated_secrets: Vec<(SecretVaultKey, SecretValue)> = Vec::new();
        let mut i: usize = 0;
        while i < options.len()
            invariant
                i <= options.spec_entries().len(),
                forall|j: int|
                    0 <= j < generated_secrets@.len()
                        ==> ((#[trigger] options.spec_options(
                        generated_secrets@[j].0@,
                    )) matches Some(o) && !o.regenerate_on_refresh && generated_shape(
                        o,
                        generated_secrets@[j].1@,
                    )),
                forall|j: int|
                    0 <= j < i ==> (((#[trigger] options.spec_options(
                        options.spec_entries()[j].0@,
                    )) is Some && !options.spec_options(
                        options.spec_entries()[j].0@,
                    ).unwrap().regenerate_on_refresh) ==> (generated_lookup(
                        generated_secrets@,
                        options.spec_entries()[j].0@,
                    ) is Some && generated_shape(
                        options.spec_options(options.spec_entries()[j].0@).unwrap(),
                        generated_lookup(
                            generated_secrets@,
                            options.spec_entries()[j].0@,
                        ).unwrap(),
                    ))),
            decreases options.spec_entries().len() - i,
        {
            let (key, _) = options.entry(i);
            match options.get_options(key) {
                Option::Some(effective) => {
                    if !effective.regenerate_on_refresh {
                        let value = match generate_secret_value(
                            &secure_rand,
                            effective.key_len,
                            effective.printable,
                        ) {
                            Ok(v) => v,
                            Err(e) => {
                                return Err(e);
                            },
                        };
                        let ghost prev = generated_secrets@;
                        generated_secrets.push((key.clone(), value));
                        proof {
                            assert(generated_secrets@.drop_last() =~= prev);
                            assert(generated_secrets@.last().0@
                                == options.spec_entries()[i as int].0@);
                            assert forall|j: int|
                                0 <= j < i + 1 implies (((#[trigger] options.spec_options(
                                options.spec_entries()[j].0@,
                            )) is Some && !options.spec_options(
                                options.spec_entries()[j].0@,
                            ).unwrap().regenerate_on_refresh) ==> (generated_lookup(
                                generated_secrets@,
                                options.spec_entries()[j].0@,
                            ) is Some && generated_shape(
                                options.spec_options(options.spec_entries()[j].0@).unwrap(),
                                generated_lookup(
                                    generated_secrets@,
                                    options.spec_entries()[j].0@,
                                ).unwrap(),
                            ))) by {
                                if options.spec_entries()[j].0@
                                    != options.spec_entries()[i as int].0@ {
                                    assert(generated_lookup(
                                        generated_secrets@,
                                        options.spec_entries()[j].0@,
                                    ) == generated_lookup(prev, options.spec_entries()[j].0@));
                                }
                            }
                        }
                    }
                },
                Option::None => {},
            }
            i = i + 1;
        }
        proof {
            assert forall|k: SecretVaultKeyView|
                ((#[trigger] options.spec_options(k)) is Some && !options.spec_options(
                    k,
                ).unwrap().regenerate_on_refresh) implies (generated_lookup(
                generated_secrets@,
                k,
            ) is Some && generated_shape(
                options.spec_options(k).unwrap(),
                generated_lookup(generated_secrets@, k).unwrap(),
            )) by {
                lemma_options_lookup_entry(options.spec_entries(), k);
                let j = choose|j: int|
                    0 <= j < options.spec_entries().len() && (#[trigger] options.spec_entries()[
                        j
                    ]).0@ == k;
            }
            assert forall|k: SecretVaultKeyView|
                ((#[trigger] options.spec_options(k)) is None || options.spec_options(
                    k,
                ).unwrap().regenerate_on_refresh) implies generated_lookup(
                generated_secrets@,
                k,
            ) is None by {
                if generated_lookup(generated_secrets@, k) is Some {
                    lemma_generated_lookup_entry(generated_secrets@, k);
                    let j = choose|j: int|
                        0 <= j < generated_secrets@.len() && (#[trigger] generated_secrets@[
                            j
                        ]).0@ == k;
                }
            }
        }
        Ok(Self { options, secure_rand, generated_secrets })
    }

    /// The newest pre-generated value for a key, copied out.
    fn get_generated(&self, key: &SecretVaultKey) -> (r: Option<SecretValue>)
        ensures
            r matches Some(v) ==> generated_lookup(self.generated_secrets@, key@) == Some(v@),
            r is None ==> generated_lookup(self.generated_secrets@, key@) is None,
            r matches Some(v) ==> ((#[trigger] self.options.spec_options(key@))
                matches Some(o) && generated_shape(o, v@)),
            (self.options.spec_options(key@) is Some && !self.options.spec_options(
                key@,
            ).unwrap().regenerate_on_refresh) ==> r is Some,
    {
        proof {
            use_type_invariant(self);
        }
        let mut i: usize = self.generated_secrets.len();
        proof {
            assert(self.generated_secrets@.take(self.generated_secrets@.len() as int)
                =~= self.generated_secrets@);
        }
        while i > 0
            invariant
                self.wf(),
                i <= self.generated_secrets@.len(),
                generated_lookup(self.generated_secrets@, key@) == generated_lookup(
                    self.generated_secrets@.take(i as int),
                    key@,
                ),
            decreases i,
        {
            i = i - 1;
            proof {
                assert(self.generated_secrets@.take(i + 1).last()
                    == self.generated_secrets@[i as int]);
                assert(self.generated_secrets@.take(i + 1).drop_last()
                    =~= self.generated_secrets@.take(i as int));
            }
            if self.generated_secrets[i].0 == *key {
                proof {
                    assert(self.options.spec_options(
                        self.generated_secrets@[i as int].0@,
                    ) is Some);
                }
                return Some(self.generated_secrets[i].1.clone());
            }
        }
        proof {
            assert(self.generated_secrets@.take(0) =~= Seq::<
                (SecretVaultKey, SecretValue),
            >::empty());
        }
        None
    }
}

/// The registrations of `refs` whose key has a generator, in order.
pub open spec fn generatable_refs(
    options: TempSecretGenSourceOptions,
    refs: Seq<SecretVaultRef>,
) -> Seq<crate::common_types::SecretVaultRefView>
    decreases refs.len(),
{
    if refs.len() == 0 {
        Seq::empty()
    } else if options.spec_options(refs.last()@.key) is Some {
        generatable_refs(options, refs.drop_last()).push(refs.last()@)
    } else {
        generatable_refs(options, refs.drop_last())
    }
}

/// Every generatable registration is one of the requested ones, and every
/// requested registration with a generator appears among them.
proof fn lemma_generatable_refs(options: TempSecretGenSourceOptions, refs: Seq<SecretVaultRef>)
    ensures
        forall|j: int|
            0 <= j < generatable_refs(options, refs).len() ==> exists|n: int|
                0 <= n < refs.len() && (#[trigger] refs[n])@ == (#[trigger] generatable_refs(
                    options,
                    refs,
                )[j]),
        forall|n: int|
            0 <= n < refs.len() && options.spec_options((#[trigger] refs[n])@.key) is Some
                ==> exists|j: int|
                0 <= j < generatable_refs(options, refs).len() && (#[trigger] generatable_refs(
                    options,
                    refs,
                )[j]) == refs[n]@,
    decreases refs.len(),
{
    if refs.len() > 0 {
        lemma_generatable_refs(options, refs.drop_last());
        let whole = generatable_refs(options, refs);
        let rest = generatable_refs(options, refs.drop_last());
        assert forall|j: int| 0 <= j < whole.len() implies exists|n: int|
            0 <= n < refs.len() && (#[trigger] refs[n])@ == (#[trigger] whole[j]) by {
            if j < rest.len() {
                let n = choose|n: int|
                    0 <= n < refs.drop_last().len() && (#[trigger] refs.drop_last()[n])@
                        == rest[j];
                assert(refs[n]@ == whole[j]);
            } else {
                assert(whole[j] == refs[refs.len() - 1]@);
            }
        }
        assert forall|n: int|
            0 <= n < refs.len() && options.spec_options((#[trigger] refs[n])@.key) is Some
            implies exists|j: int|
            0 <= j < whole.len() && (#[trigger] whole[j]) == refs[n]@ by {
            if n < refs.len() - 1 {
                assert(refs.drop_last()[n] == refs[n]);
                let j = choose|j: int|
                    0 <= j < rest.len() && (#[trigger] rest[j]) == refs[n]@;
                assert(whole[j] == refs[n]@);
            } else {
                assert(whole[whole.len() - 1] == refs[n]@);
            }
        }
    }
}

impl SecretsSource for TempSecretGenSource {
    open spec fn routed(&self, key: SecretVaultKeyView) -> bool {
        true
    }

    /// Fetching cannot fail transiently when no registered generator
    /// draws fresh randomness per refresh.
    open spec fn reliable(&self) -> bool {
        forall|k: SecretVaultKeyView|
            (#[trigger] self.spec_options(k)) is Some ==> !self.spec_options(
                k,
            ).unwrap().regenerate_on_refresh
    }

    closed spec fn covers(&self, key: SecretVaultKeyView) -> bool {
        self.options.spec_options(key) is Some
    }

    closed spec fn value_model(&self, key: SecretVaultKeyView, value: Seq<u8>) -> bool {
        match self.options.spec_options(key) {
            Option::Some(o) => generated_shape(o, value),
            Option::None => false,
        }
    }

    fn name(&self) -> String {
        "TempSecretGenSource".to_owned()
    }

    #[verifier::rlimit(100)]
    fn get_secrets(&self, references: &[SecretVaultRef]) -> (r: SecretVaultResult<
        Vec<(SecretVaultRef, Secret)>,
    >)
        ensures
            r matches Err(SecretVaultError::DataNotFoundError(d)) ==> d.public.code@
                == "SECRET_NOT_FOUND"@ && (exists|i: int|
                0 <= i < references@.len() && (#[trigger] references@[i])@.required
                    && !self.covers(references@[i]@.key)),
            r matches Ok(pairs) ==> (forall|j: int|
                0 <= j < pairs@.len() ==> ((self.spec_options((#[trigger] pairs@[j]).0@.key)
                    is Some && !self.spec_options(
                    pairs@[j].0@.key,
                ).unwrap().regenerate_on_refresh) ==> Some(pairs@[j].1@.value)
                    == self.spec_generated(pairs@[j].0@.key))),
            ((forall|i: int|
                0 <= i < references@.len() && (#[trigger] references@[i])@.required
                    ==> self.covers(references@[i]@.key)) && (forall|k: SecretVaultKeyView|
                (#[trigger] self.spec_options(k)) is Some ==> !self.spec_options(
                    k,
                ).unwrap().regenerate_on_refresh)) ==> r is Ok,
            ((exists|i: int|
                0 <= i < references@.len() && (#[trigger] references@[i])@.required
                    && !self.covers(references@[i]@.key)) && (forall|k: SecretVaultKeyView|
                (#[trigger] self.spec_options(k)) is Some ==> !self.spec_options(
                    k,
                ).unwrap().regenerate_on_refresh)) ==> (r matches Err(
                SecretVaultError::DataNotFoundError(d),
            ) && d.public.code@ == "SECRET_NOT_FOUND"@),
    {
        proof {
            use_type_invariant(self);
        }
        let ghost model = generatable_refs(self.options, references@);
        let mut result: Vec<(SecretVaultRef, Secret)> = Vec::new();
        let mut i: usize = 0;
        proof {
            assert(references@.take(0) =~= Seq::<SecretVaultRef>::empty());
        }
        while i < references.len()
            invariant
                i <= references@.len(),
                self.wf(),
                result@.len() == generatable_refs(self.options, references@.take(i as int)).len(),
                forall|j: int|
                    0 <= j < result@.len() ==> (#[trigger] result@[j]).0@ == generatable_refs(
                        self.options,
                        references@.take(i as int),
                    )[j],
                forall|j: int|
                    0 <= j < result@.len() ==> self.value_model(
                        (#[trigger] result@[j]).0@.key,
                        result@[j].1@.value,
                    ),
                forall|j: int|
                    0 <= j < result@.len() ==> (#[trigger] result@[j]).1@.metadata.key
                        == result@[j].0@.key,
                forall|j: int|
                    0 <= j < result@.len() ==> ((self.spec_options(
                        (#[trigger] result@[j]).0@.key,
                    ) is Some && !self.spec_options(
                        result@[j].0@.key,
                    ).unwrap().regenerate_on_refresh) ==> Some(result@[j].1@.value)
                        == self.spec_generated(result@[j].0@.key)),
                forall|n: int|
                    0 <= n < i && (#[trigger] references@[n])@.required ==> self.options
                        .spec_options(references@[n]@.key) is Some,
            decreases references@.len() - i,
        {
            let secret_ref = &references[i];
            proof {
                assert(references@.take(i + 1).drop_last() =~= references@.take(i as int));
                assert(references@.take(i + 1).last() == references@[i as int]);
            }
            match self.options.get_options(&secret_ref.key) {
                Option::Some(secret_options) => {
                    let secret_value = match self.get_generated(&secret_ref.key) {
                        Option::Some(value) => value,
                        Option::None => {
                            proof {
                                if forall|k: SecretVaultKeyView|
                                    (#[trigger] self.spec_options(k)) is Some
                                        ==> !self.spec_options(
                                        k,
                                    ).unwrap().regenerate_on_refresh {
                                    assert(self.spec_options(secret_ref@.key) == Some(
                                        secret_options,
                                    ));
                                    assert(false);
                                }
                            }
                            match generate_secret_value(
                                &self.secure_rand,
                                secret_options.key_len,
                                secret_options.printable,
                            ) {
                                Ok(v) => v,
                                Err(e) => {
                                    return Err(e);
                                },
                            }
                        },
                    };
                    proof {
                        if !secret_options.regenerate_on_refresh {
                            assert(self.options.spec_options(secret_ref@.key) == Some(
                                secret_options,
                            ));
                            assert(Some(secret_value@) == self.spec_generated(secret_ref@.key));
                        }
                    }
                    let metadata = SecretMetadata::new(secret_ref.key.clone());
                    let ghost prev = result@;
                    result.push((secret_ref.clone(), Secret::new(secret_value, metadata)));
                    proof {
                        assert(forall|j: int| 0 <= j < prev.len() ==> result@[j] == prev[j]);
                        assert(result@[prev.len() as int].0@ == references@[i as int]@);
                    }
                },
                Option::None => {
                    if secret_ref.required {
                        return Err(
                            SecretVaultError::DataNotFoundError(
                                SecretVaultDataNotFoundError::new(
                                    SecretVaultErrorPublicGenericDetails::new(
                                        "SECRET_NOT_FOUND".to_owned(),
                                    ),
                                    "Secret is required but not found in registered secrets"
                                        .to_owned(),
                                ),
                            ),
                        );
                    }
                },
            }
            i = i + 1;
        }
        proof {
            assert(references@.take(references@.len() as int) =~= references@);
            if exists|n: int|
                0 <= n < references@.len() && (#[trigger] references@[n])@.required
                    && !self.covers(references@[n]@.key) {
                let n = choose|n: int|
                    0 <= n < references@.len() && (#[trigger] references@[n])@.required
                        && !self.covers(references@[n]@.key);
                assert(self.options.spec_options(references@[n]@.key) is Some);
                assert(false);
            }
            lemma_generatable_refs(self.options, references@);
            assert forall|j: int| 0 <= j < result@.len() implies exists|n: int|
                0 <= n < references@.len() && (#[trigger] references@[n])@ == (
                #[trigger] result@[j]).0@ by {
                let n = choose|n: int|
                    0 <= n < references@.len() && (#[trigger] references@[n])@ == model[j];
                assert(references@[n]@ == result@[j].0@);
            }
            assert forall|n: int|
                0 <= n < references@.len() && self.covers((#[trigger] references@[n])@.key)
                implies exists|j: int|
                0 <= j < result@.len() && (#[trigger] result@[j]).0@ == references@[n]@ by {
                let j = choose|j: int|
                    0 <= j < model.len() && (#[trigger] model[j]) == references@[n]@;
                assert(result@[j].0@ == references@[n]@);
            }
        }
        Ok(result)
    }
}

} // verus!

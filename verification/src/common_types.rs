//! Names, keys, references, metadata: the data model of the vault.
//!
//! A secret is addressed by a `SecretVaultKey` (name, optional version,
//! optional namespace).  A `SecretVaultRef` is a user-supplied registration:
//! the key plus the flags that drive refresh and snapshot behaviour.

use vstd::prelude::*;

use crate::value::SecretValue;

verus! {

/// A secret's name.
pub struct SecretName(String);

impl View for SecretName {
    type V = Seq<char>;

    closed spec fn view(&self) -> Seq<char> {
        self.0@
    }
}

impl SecretName {
    pub fn new(value: String) -> (r: Self)
        requires
            value@.len() > 0,
        ensures
            r@ == value@,
    {
        Self(value)
    }

    pub fn value(&self) -> (r: &String)
        ensures
            r@ == self@,
    {
        &self.0
    }
}

impl Clone for SecretName {
    fn clone(&self) -> (r: Self)
        ensures
            r@ == self@,
    {
        Self(self.0.clone())
    }
}

impl PartialEq for SecretName {
    fn eq(&self, other: &Self) -> bool {
        self.0 == other.0
    }
}

impl Eq for SecretName {

}

impl vstd::std_specs::cmp::PartialEqSpecImpl for SecretName {
    open spec fn obeys_eq_spec() -> bool {
        true
    }

    open spec fn eq_spec(&self, other: &Self) -> bool {
        self@ == other@
    }
}

/// A namespace that routes a secret to one source.
pub struct SecretNamespace(String);

impl View for SecretNamespace {
    type V = Seq<char>;

    closed spec fn view(&self) -> Seq<char> {
        self.0@
    }
}

impl SecretNamespace {
    pub fn new(value: String) -> (r: Self)
        requires
            value@.len() > 0,
        ensures
            r@ == value@,
    {
        Self(value)
    }

    pub fn value(&self) -> (r: &String)
        ensures
            r@ == self@,
    {
        &self.0
    }
}

impl Clone for SecretNamespace {
    fn clone(&self) -> (r: Self)
        ensures
            r@ == self@,
    {
        Self(self.0.clone())
    }
}

impl PartialEq for SecretNamespace {
    fn eq(&self, other: &Self) -> (r: bool) {
        let r = self.0 == other.0;
        proof {
            assert(self@ == self.0@ && other@ == other.0@);
        }
        r
    }
}

impl Eq for SecretNamespace {

}

impl vstd::std_specs::cmp::PartialEqSpecImpl for SecretNamespace {
    open spec fn obeys_eq_spec() -> bool {
        true
    }

    open spec fn eq_spec(&self, other: &Self) -> bool {
        self@ == other@
    }
}

/// A secret's version label.
pub struct SecretVersion(String);

impl View for SecretVersion {
    type V = Seq<char>;

    closed spec fn view(&self) -> Seq<char> {
        self.0@
    }
}

impl SecretVersion {
    pub fn new(value: String) -> (r: Self)
        requires
            value@.len() > 0,
        ensures
            r@ == value@,
    {
        Self(value)
    }

    pub fn value(&self) -> (r: &String)
        ensures
            r@ == self@,
    {
        &self.0
    }
}

impl Clone for SecretVersion {
    fn clone(&self) -> (r: Self)
        ensures
            r@ == self@,
    {
        Self(self.0.clone())
    }
}

impl PartialEq for SecretVersion {
    fn eq(&self, other: &Self) -> bool {
        self.0 == other.0
    }
}

impl Eq for SecretVersion {

}

impl vstd::std_specs::cmp::PartialEqSpecImpl for SecretVersion {
    open spec fn obeys_eq_spec() -> bool {
        true
    }

    open spec fn eq_spec(&self, other: &Self) -> bool {
        self@ == other@
    }
}

/// The mathematical shape of a vault key.
#[verifier::ext_equal]
pub struct SecretVaultKeyView {
    pub secret_name: Seq<char>,
    pub secret_version: Option<Seq<char>>,
    pub namespace: Option<Seq<char>>,
}

/// What a secret is filed under: name, optional version, optional namespace.
/// Two keys are equal exactly when all three components are equal.
pub struct SecretVaultKey {
    pub secret_name: SecretName,
    pub secret_version: Option<SecretVersion>,
    pub namespace: Option<SecretNamespace>,
}

impl View for SecretVaultKey {
    type V = SecretVaultKeyView;

    open spec fn view(&self) -> SecretVaultKeyView {
        SecretVaultKeyView {
            secret_name: self.secret_name@,
            secret_version: match self.secret_version {
                Option::Some(v) => Some(v@),
                Option::None => None,
            },
            namespace: match self.namespace {
                Option::Some(n) => Some(n@),
                Option::None => None,
            },
        }
    }
}

impl SecretVaultKey {
    pub fn new(secret_name: SecretName) -> (r: Self)
        ensures
            r@ == (SecretVaultKeyView {
                secret_name: secret_name@,
                secret_version: None,
                namespace: None,
            }),
    {
        Self { secret_name, secret_version: None, namespace: None }
    }

    pub fn with_secret_version(self, value: SecretVersion) -> (r: Self)
        ensures
            r@ == (SecretVaultKeyView { secret_version: Some(value@), ..self@ }),
    {
        Self { secret_version: Some(value), ..self }
    }

    pub fn opt_secret_version(self, value: Option<SecretVersion>) -> (r: Self)
        ensures
            r@ == (SecretVaultKeyView {
                secret_version: match value {
                    Option::Some(v) => Some(v@),
                    Option::None => None,
                },
                ..self@
            }),
    {
        Self { secret_version: value, ..self }
    }

    pub fn with_namespace(self, value: SecretNamespace) -> (r: Self)
        ensures
            r@ == (SecretVaultKeyView { namespace: Some(value@), ..self@ }),
    {
        Self { namespace: Some(value), ..self }
    }

    pub fn opt_namespace(self, value: Option<SecretNamespace>) -> (r: Self)
        ensures
            r@ == (SecretVaultKeyView {
                namespace: match value {
                    Option::Some(n) => Some(n@),
                    Option::None => None,
                },
                ..self@
            }),
    {
        Self { namespace: value, ..self }
    }
}

impl Clone for SecretVaultKey {
    fn clone(&self) -> (r: Self)
        ensures
            r@ == self@,
    {
        Self {
            secret_name: self.secret_name.clone(),
            secret_version: match &self.secret_version {
                Option::Some(v) => Some(v.clone()),
                Option::None => None,
            },
            namespace: match &self.namespace {
                Option::Some(n) => Some(n.clone()),
                Option::None => None,
            },
        }
    }
}

impl PartialEq for SecretVaultKey {
    fn eq(&self, other: &Self) -> bool {
        let name_eq = self.secret_name == other.secret_name;
        let version_eq = match (&self.secret_version, &other.secret_version) {
            (Option::Some(a), Option::Some(b)) => a == b,
            (Option::None, Option::None) => true,
            _ => false,
        };
        let namespace_eq = match (&self.namespace, &other.namespace) {
            (Option::Some(a), Option::Some(b)) => a == b,
            (Option::None, Option::None) => true,
            _ => false,
        };
        name_eq && version_eq && namespace_eq
    }
}

impl Eq for SecretVaultKey {

}

impl vstd::std_specs::cmp::PartialEqSpecImpl for SecretVaultKey {
    open spec fn obeys_eq_spec() -> bool {
        true
    }

    open spec fn eq_spec(&self, other: &Self) -> bool {
        self@ == other@
    }
}

/// A label attached to a secret's metadata.
pub struct SecretMetadataLabel {
    pub name: String,
    pub value: Option<String>,
}

/// The mathematical shape of a metadata label or annotation.
#[verifier::ext_equal]
pub struct SecretMetadataPairView {
    pub name: Seq<char>,
    pub value: Option<Seq<char>>,
}

impl View for SecretMetadataLabel {
    type V = SecretMetadataPairView;

    open spec fn view(&self) -> SecretMetadataPairView {
        SecretMetadataPairView {
            name: self.name@,
            value: match self.value {
                Option::Some(v) => Some(v@),
                Option::None => None,
            },
        }
    }
}

impl SecretMetadataLabel {
    pub fn new(name: String) -> (r: Self)
        ensures
            r@ == (SecretMetadataPairView { name: name@, value: None }),
    {
        Self { name, value: None }
    }

    pub fn with_value(self, value: String) -> (r: Self)
        ensures
            r@ == (SecretMetadataPairView { value: Some(value@), ..self@ }),
    {
        Self { value: Some(value), ..self }
    }

    pub fn opt_value(self, value: Option<String>) -> (r: Self)
        ensures
            r@ == (SecretMetadataPairView {
                value: match value {
                    Option::Some(v) => Some(v@),
                    Option::None => None,
                },
                ..self@
            }),
    {
        Self { value, ..self }
    }
}

impl Clone for SecretMetadataLabel {
    fn clone(&self) -> (r: Self)
        ensures
            r@ == self@,
    {
        Self {
            name: self.name.clone(),
            value: match &self.value {
                Option::Some(v) => Some(v.clone()),
                Option::None => None,
            },
        }
    }
}

/// An annotation attached to a secret's metadata.
pub struct SecretMetadataAnnotation {
    pub name: String,
    pub value: Option<String>,
}

impl View for SecretMetadataAnnotation {
    type V = SecretMetadataPairView;

    open spec fn view(&self) -> SecretMetadataPairView {
        SecretMetadataPairView {
            name: self.name@,
            value: match self.value {
                Option::Some(v) => Some(v@),
                Option::None => None,
            },
        }
    }
}

impl SecretMetadataAnnotation {
    pub fn new(name: String) -> (r: Self)
        ensures
            r@ == (SecretMetadataPairView { name: name@, value: None }),
    {
        Self { name, value: None }
    }

    pub fn with_value(self, value: String) -> (r: Self)
        ensures
            r@ == (SecretMetadataPairView { value: Some(value@), ..self@ }),
    {
        Self { value: Some(value), ..self }
    }
}

impl Clone for SecretMetadataAnnotation {
    fn clone(&self) -> (r: Self)
        ensures
            r@ == self@,
    {
        Self {
            name: self.name.clone(),
            value: match &self.value {
                Option::Some(v) => Some(v.clone()),
                Option::None => None,
            },
        }
    }
}

/// When a secret stops being valid.
#[derive(Clone, Copy, Debug, PartialEq, Eq, Structural)]
pub enum SecretExpiration {
    /// An absolute expiry instant, in milliseconds since the Unix epoch.
    ExpireTime(i64),
    /// A time to live, in milliseconds.
    Ttl(i64),
}

/// A user-supplied registration: the key under which a secret is filed,
/// plus the flags that drive refresh and snapshot behaviour.
pub struct SecretVaultRef {
    pub key: SecretVaultKey,
    pub required: bool,
    pub auto_refresh: bool,
    pub allow_in_snapshots: bool,
    pub predefined_labels: Vec<SecretMetadataLabel>,
}

/// The mathematical shape of a registration.
#[verifier::ext_equal]
pub struct SecretVaultRefView {
    pub key: SecretVaultKeyView,
    pub required: bool,
    pub auto_refresh: bool,
    pub allow_in_snapshots: bool,
    pub predefined_labels: Seq<SecretMetadataPairView>,
}

/// The views of a sequence of labels.
pub open spec fn labels_view(labels: Seq<SecretMetadataLabel>) -> Seq<SecretMetadataPairView> {
    Seq::new(labels.len(), |i: int| labels[i]@)
}

/// The views of a sequence of annotations.
pub open spec fn annotations_view(annotations: Seq<SecretMetadataAnnotation>) -> Seq<
    SecretMetadataPairView,
> {
    Seq::new(annotations.len(), |i: int| annotations[i]@)
}

impl View for SecretVaultRef {
    type V = SecretVaultRefView;

    open spec fn view(&self) -> SecretVaultRefView {
        SecretVaultRefView {
            key: self.key@,
            required: self.required,
            auto_refresh: self.auto_refresh,
            allow_in_snapshots: self.allow_in_snapshots,
            predefined_labels: labels_view(self.predefined_labels@),
        }
    }
}

impl SecretVaultRef {
    /// A new registration: required, not auto-refreshed, not allowed in
    /// snapshots, no predefined labels.
    pub fn new(secret_name: SecretName) -> (r: Self)
        ensures
            r@.key == (SecretVaultKeyView {
                secret_name: secret_name@,
                secret_version: None,
                namespace: None,
            }),
            r@.required == true,
            r@.auto_refresh == false,
            r@.allow_in_snapshots == false,
            r@.predefined_labels.len() == 0,
    {
        Self {
            key: SecretVaultKey::new(secret_name),
            required: true,
            auto_refresh: false,
            allow_in_snapshots: false,
            predefined_labels: Vec::new(),
        }
    }

    pub fn with_secret_version(self, value: SecretVersion) -> (r: Self)
        ensures
            r@ == (SecretVaultRefView {
                key: SecretVaultKeyView { secret_version: Some(value@), ..self@.key },
                ..self@
            }),
    {
        Self { key: self.key.with_secret_version(value), ..self }
    }

    pub fn opt_secret_version(self, value: Option<SecretVersion>) -> (r: Self)
        ensures
            r@ == (SecretVaultRefView {
                key: SecretVaultKeyView {
                    secret_version: match value {
                        Option::Some(v) => Some(v@),
                        Option::None => None,
                    },
                    ..self@.key
                },
                ..self@
            }),
    {
        Self { key: self.key.opt_secret_version(value), ..self }
    }

    pub fn with_namespace(self, value: SecretNamespace) -> (r: Self)
        ensures
            r@ == (SecretVaultRefView {
                key: SecretVaultKeyView { namespace: Some(value@), ..self@.key },
                ..self@
            }),
    {
        Self { key: self.key.with_namespace(value), ..self }
    }

    pub fn opt_namespace(self, value: Option<SecretNamespace>) -> (r: Self)
        ensures
            r@ == (SecretVaultRefView {
                key: SecretVaultKeyView {
                    namespace: match value {
                        Option::Some(n) => Some(n@),
                        Option::None => None,
                    },
                    ..self@.key
                },
                ..self@
            }),
    {
        Self { key: self.key.opt_namespace(value), ..self }
    }

    pub fn with_required(self, value: bool) -> (r: Self)
        ensures
            r@ == (SecretVaultRefView { required: value, ..self@ }),
    {
        Self { required: value, ..self }
    }

    pub fn with_auto_refresh(self, value: bool) -> (r: Self)
        ensures
            r@ == (SecretVaultRefView { auto_refresh: value, ..self@ }),
    {
        Self { auto_refresh: value, ..self }
    }

    pub fn with_allow_in_snapshots(self, value: bool) -> (r: Self)
        ensures
            r@ == (SecretVaultRefView { allow_in_snapshots: value, ..self@ }),
    {
        Self { allow_in_snapshots: value, ..self }
    }

    pub fn add_predefined_label(self, label: SecretMetadataLabel) -> (r: Self)
        ensures
            r@ == (SecretVaultRefView {
                predefined_labels: self@.predefined_labels.push(label@),
                ..self@
            }),
    {
        let mut predefined_labels = self.predefined_labels;
        let ghost old_labels = predefined_labels@;
        predefined_labels.push(label);
        proof {
            assert(labels_view(predefined_labels@) =~= labels_view(old_labels).push(label@));
        }
        Self { predefined_labels, ..self }
    }
}

/// Copies a list of labels.
pub(crate) fn clone_labels(labels: &Vec<SecretMetadataLabel>) -> (r: Vec<SecretMetadataLabel>)
    ensures
        labels_view(r@) == labels_view(labels@),
{
    let mut r: Vec<SecretMetadataLabel> = Vec::new();
    let mut i: usize = 0;
    while i < labels.len()
        invariant
            i <= labels.len(),
            labels_view(r@) =~= labels_view(labels@.subrange(0, i as int)),
        decreases labels.len() - i,
    {
        let cl = labels[i].clone();
        let ghost prev = r@;
        r.push(cl);
        proof {
            assert(r@ == prev.push(cl));
            assert(labels_view(r@).len() == r@.len());
            assert(prev.len() == labels_view(prev).len());
            assert(labels_view(prev) == labels_view(labels@.subrange(0, i as int)));
            assert(labels_view(labels@.subrange(0, i as int)).len() == i);
            assert(r@.len() == prev.len() + 1);
            assert(labels_view(r@).len() == i + 1);
            assert forall|j: int| 0 <= j <= i implies labels_view(r@)[j] == labels_view(
                labels@.subrange(0, i + 1),
            )[j] by {
                assert(labels@.subrange(0, i + 1)[j] == labels@[j]);
                if j < i {
                    assert(labels_view(prev)[j] == labels_view(
                        labels@.subrange(0, i as int),
                    )[j]);
                    assert(labels@.subrange(0, i as int)[j] == labels@[j]);
                    assert(r@[j] == prev[j]);
                } else {
                    assert(r@[j] == cl);
                }
            }
            assert(labels_view(r@) =~= labels_view(labels@.subrange(0, i + 1)));
        }
        i = i + 1;
    }
    proof {
        assert(labels@.subrange(0, labels@.len() as int) =~= labels@);
        assert(labels_view(r@) =~= labels_view(labels@));
    }
    r
}

/// Copies a list of annotations.
pub(crate) fn clone_annotations(annotations: &Vec<SecretMetadataAnnotation>) -> (r: Vec<
    SecretMetadataAnnotation,
>)
    ensures
        annotations_view(r@) == annotations_view(annotations@),
{
    let mut r: Vec<SecretMetadataAnnotation> = Vec::new();
    let mut i: usize = 0;
    while i < annotations.len()
        invariant
            i <= annotations.len(),
            annotations_view(r@) =~= annotations_view(annotations@.subrange(0, i as int)),
        decreases annotations.len() - i,
    {
        let cl = annotations[i].clone();
        let ghost prev = r@;
        r.push(cl);
        proof {
            assert(r@ == prev.push(cl));
            assert(annotations_view(prev) == annotations_view(annotations@.subrange(0, i as int)));
            assert(prev.len() == annotations_view(prev).len());
            assert(annotations_view(annotations@.subrange(0, i as int)).len() == i);
            assert forall|j: int| 0 <= j <= i implies annotations_view(r@)[j] == annotations_view(
                annotations@.subrange(0, i + 1),
            )[j] by {
                assert(annotations@.subrange(0, i + 1)[j] == annotations@[j]);
                if j < i {
                    assert(annotations_view(prev)[j] == annotations_view(
                        annotations@.subrange(0, i as int),
                    )[j]);
                    assert(annotations@.subrange(0, i as int)[j] == annotations@[j]);
                    assert(r@[j] == prev[j]);
                } else {
                    assert(r@[j] == cl);
                }
            }
            assert(annotations_view(r@) =~= annotations_view(
                annotations@.subrange(0, i + 1),
            ));
        }
        i = i + 1;
    }
    proof {
        assert(annotations@.subrange(0, annotations@.len() as int) =~= annotations@);
        assert(annotations_view(r@) =~= annotations_view(annotations@));
    }
    r
}

impl Clone for SecretVaultRef {
    fn clone(&self) -> (r: Self)
        ensures
            r@ == self@,
    {
        Self {
            key: self.key.clone(),
            required: self.required,
            auto_refresh: self.auto_refresh,
            allow_in_snapshots: self.allow_in_snapshots,
            predefined_labels: clone_labels(&self.predefined_labels),
        }
    }
}

/// Whether some registration in `refs` files its secret under `key`.
pub open spec fn registered_key(refs: Seq<SecretVaultRef>, key: SecretVaultKeyView) -> bool {
    exists|i: int| 0 <= i < refs.len() && (#[trigger] refs[i])@.key == key
}

/// Reads the current wall clock, in milliseconds since the Unix epoch.
///
/// Relies on `std::time::SystemTime::now` and `duration_since`; the result
/// depends on the clock, so nothing is promised of it.
#[verifier::external_body]
pub(crate) fn now_timestamp_millis() -> i64 {
    match std::time::SystemTime::now().duration_since(std::time::SystemTime::UNIX_EPOCH) {
        Ok(d) => d.as_millis() as i64,
        Err(_) => 0,
    }
}

/// The mathematical shape of a secret's metadata.
#[verifier::ext_equal]
pub struct SecretMetadataView {
    pub cached_at: i64,
    pub key: SecretVaultKeyView,
    pub labels: Option<Seq<SecretMetadataPairView>>,
    pub annotations: Option<Seq<SecretMetadataPairView>>,
    pub description: Option<Seq<char>>,
    pub expiration: Option<SecretExpiration>,
    pub version: Option<Seq<char>>,
    pub created_at: Option<i64>,
    pub updated_at: Option<i64>,
}

/// What is known about a stored secret besides its bytes.  `cached_at` is
/// the vault's local timestamp at insertion; everything else comes from the
/// upstream authority when available.
pub struct SecretMetadata {
    pub cached_at: i64,
    pub key: SecretVaultKey,
    pub labels: Option<Vec<SecretMetadataLabel>>,
    pub annotations: Option<Vec<SecretMetadataAnnotation>>,
    pub description: Option<String>,
    pub expiration: Option<SecretExpiration>,
    pub version: Option<SecretVersion>,
    pub created_at: Option<i64>,
    pub updated_at: Option<i64>,
}

impl View for SecretMetadata {
    type V = SecretMetadataView;

    open spec fn view(&self) -> SecretMetadataView {
        SecretMetadataView {
            cached_at: self.cached_at,
            key: self.key@,
            labels: match self.labels {
                Option::Some(l) => Some(labels_view(l@)),
                Option::None => None,
            },
            annotations: match self.annotations {
                Option::Some(a) => Some(annotations_view(a@)),
                Option::None => None,
            },
            description: match self.description {
                Option::Some(d) => Some(d@),
                Option::None => None,
            },
            expiration: self.expiration,
            version: match self.version {
                Option::Some(v) => Some(v@),
                Option::None => None,
            },
            created_at: self.created_at,
            updated_at: self.updated_at,
        }
    }
}

impl SecretMetadata {
    /// Fresh metadata for a key, stamped with the local clock.
    pub fn new(key: SecretVaultKey) -> (r: Self)
        ensures
            r@.key == key@,
            r@.labels is None,
            r@.annotations is None,
            r@.description is None,
            r@.expiration is None,
            r@.version is None,
            r@.created_at is None,
            r@.updated_at is None,
    {
        Self {
            cached_at: now_timestamp_millis(),
            key,
            labels: None,
            annotations: None,
            description: None,
            expiration: None,
            version: None,
            created_at: None,
            updated_at: None,
        }
    }

    /// Metadata for a registration, carrying its predefined labels.
    pub fn create_from_ref(secret_ref: &SecretVaultRef) -> (r: Self)
        ensures
            r@.key == secret_ref@.key,
            secret_ref@.predefined_labels.len() > 0 ==> r@.labels == Some(
                secret_ref@.predefined_labels,
            ),
            secret_ref@.predefined_labels.len() == 0 ==> r@.labels is None,
            r@.annotations is None,
            r@.description is None,
            r@.expiration is None,
            r@.version is None,
            r@.created_at is None,
            r@.updated_at is None,
    {
        let mut result = SecretMetadata::new(secret_ref.key.clone());
        if secret_ref.predefined_labels.len() > 0 {
            result.labels = Some(clone_labels(&secret_ref.predefined_labels));
        }
        result
    }

    pub fn with_version(self, value: SecretVersion) -> (r: Self)
        ensures
            r@ == (SecretMetadataView { version: Some(value@), ..self@ }),
    {
        Self { version: Some(value), ..self }
    }

    /// Appends a label, starting the list where there is none yet.
    pub fn add_label(&mut self, label: SecretMetadataLabel)
        ensures
            final(self)@ == (SecretMetadataView {
                labels: Some(
                    match old(self)@.labels {
                        Option::Some(l) => l.push(label@),
                        Option::None => seq![label@],
                    },
                ),
                ..old(self)@
            }),
    {
        match &mut self.labels {
            Option::Some(labels) => {
                let ghost old_labels = labels@;
                labels.push(label);
                proof {
                    assert(labels_view(labels@) =~= labels_view(old_labels).push(label@));
                }
            },
            Option::None => {
                let mut labels: Vec<SecretMetadataLabel> = Vec::new();
                labels.push(label);
                proof {
                    assert(labels_view(labels@) =~= seq![label@]);
                }
                self.labels = Some(labels);
            },
        }
    }

    /// Appends an annotation, starting the list where there is none yet.
    pub fn add_annotation(&mut self, annotation: SecretMetadataAnnotation)
        ensures
            final(self)@ == (SecretMetadataView {
                annotations: Some(
                    match old(self)@.annotations {
                        Option::Some(a) => a.push(annotation@),
                        Option::None => seq![annotation@],
                    },
                ),
                ..old(self)@
            }),
    {
        match &mut self.annotations {
            Option::Some(annotations) => {
                let ghost old_annotations = annotations@;
                annotations.push(annotation);
                proof {
                    assert(annotations_view(annotations@) =~= annotations_view(
                        old_annotations,
                    ).push(annotation@));
                }
            },
            Option::None => {
                let mut annotations: Vec<SecretMetadataAnnotation> = Vec::new();
                annotations.push(annotation);
                proof {
                    assert(annotations_view(annotations@) =~= seq![annotation@]);
                }
                self.annotations = Some(annotations);
            },
        }
    }
}

impl Clone for SecretMetadata {
    fn clone(&self) -> (r: Self)
        ensures
            r@ == self@,
    {
        Self {
            cached_at: self.cached_at,
            key: self.key.clone(),
            labels: match &self.labels {
                Option::Some(l) => Some(clone_labels(l)),
                Option::None => None,
            },
            annotations: match &self.annotations {
                Option::Some(a) => Some(clone_annotations(a)),
                Option::None => None,
            },
            description: match &self.description {
                Option::Some(d) => Some(d.clone()),
                Option::None => None,
            },
            expiration: self.expiration,
            version: match &self.version {
                Option::Some(v) => Some(v.clone()),
                Option::None => None,
            },
            created_at: self.created_at,
            updated_at: self.updated_at,
        }
    }
}

/// The mathematical shape of a served secret.
#[verifier::ext_equal]
pub struct SecretView {
    pub value: Seq<u8>,
    pub metadata: SecretMetadataView,
}

/// A secret as served to callers: cleartext bytes plus metadata.
pub struct Secret {
    pub value: SecretValue,
    pub metadata: SecretMetadata,
}

impl View for Secret {
    type V = SecretView;

    open spec fn view(&self) -> SecretView {
        SecretView { value: self.value@, metadata: self.metadata@ }
    }
}

impl Secret {
    pub fn new(value: SecretValue, metadata: SecretMetadata) -> (r: Self)
        ensures
            r@.value == value@,
            r@.metadata == metadata@,
    {
        Self { value, metadata }
    }
}

impl Clone for Secret {
    fn clone(&self) -> (r: Self)
        ensures
            r@ == self@,
    {
        Self { value: self.value.clone(), metadata: self.metadata.clone() }
    }
}

} // verus!

use secret_vault::MockSecretsSource;
use secret_vault::MultipleSecretsSources;
use secret_vault::SecretNamespace;
use secret_vault::TempSecretGenSource;
use secret_vault::TempSecretGenSourceOptions;
use secret_vault::TempSecretOptions;
use secret_vault::SecretName;
use secret_vault::SecretValue;
use secret_vault::SecretVaultBuilder;
use secret_vault::SecretVaultError;
use secret_vault::SecretVaultHashMapSnapshotBuilder;
use secret_vault::SecretVaultRef;
use secret_vault::SecretVaultRingAeadEncryption;
use secret_vault::SecretVaultSnapshot;

fn name(text: &str) -> SecretName {
    SecretName::new(text.to_string())
}

fn sv(text: &str) -> SecretValue {
    SecretValue::from_str_slice(text)
}

fn mock_pairs(pairs: &[(&str, &str)]) -> Vec<(SecretVaultRef, SecretValue)> {
    pairs
        .iter()
        .map(|(n, v)| (SecretVaultRef::new(name(n)), sv(v)))
        .collect()
}

#[test]
fn refresh_vault_test() {
    let source = MockSecretsSource::new(mock_pairs(&[
        ("user", "alice"),
        ("token", "t0ps3cret"),
        ("key", "k-42"),
    ]));
    let refs = source.keys();
    let mut vault = SecretVaultBuilder::with_source(source)
        .with_encryption(SecretVaultRingAeadEncryption::new().unwrap())
        .build()
        .unwrap();
    vault.register_secret_refs(refs.iter().collect());
    vault.refresh().unwrap();

    assert_eq!(vault.store_len(), 3);
    for (n, v) in [("user", "alice"), ("token", "t0ps3cret"), ("key", "k-42")] {
        let secret = vault
            .get_secret_by_ref(&SecretVaultRef::new(name(n)))
            .unwrap()
            .unwrap();
        assert_eq!(secret.value.as_sensitive_str(), v);
    }
}

#[test]
fn refresh_only_non_present() {
    let source = MockSecretsSource::new(mock_pairs(&[("user", "alice")]));
    let refs = source.keys();
    let mut vault = SecretVaultBuilder::with_source(source)
        .build()
        .unwrap()
        .with_secret_refs(refs.iter().collect());
    vault.refresh().unwrap();

    let new_secret_ref = SecretVaultRef::new(name("new_secret"));
    vault.add_secret_ref(&new_secret_ref);
    vault
        .source_mut()
        .add(new_secret_ref.clone(), sv("new_secret_value"));

    vault.refresh_only_not_present().unwrap();

    let fetched = vault.get_secret_by_ref(&new_secret_ref).unwrap().unwrap();
    assert_eq!(fetched.value.as_sensitive_str(), "new_secret_value");
    let kept = vault
        .get_secret_by_ref(&SecretVaultRef::new(name("user")))
        .unwrap()
        .unwrap();
    assert_eq!(kept.value.as_sensitive_str(), "alice");
}

#[test]
fn refresh_only_not_present_skips_the_source_when_all_cached() {
    let source = MockSecretsSource::new(mock_pairs(&[("user", "alice")]));
    let refs = source.keys();
    let mut vault = SecretVaultBuilder::with_source(source)
        .build()
        .unwrap()
        .with_secret_refs(refs.iter().collect());
    let user_ref = SecretVaultRef::new(name("user"));

    // First call fetches; the source is not consulted again afterwards,
    // so a change in the source stays invisible until a real refresh.
    vault.refresh_only_not_present().unwrap();
    vault.source_mut().add(user_ref.clone(), sv("bob"));

    vault.refresh_only_not_present().unwrap();
    let cached = vault.get_secret_by_ref(&user_ref).unwrap().unwrap();
    assert_eq!(cached.value.as_sensitive_str(), "alice");

    vault.refresh().unwrap();
    let refreshed = vault.get_secret_by_ref(&user_ref).unwrap().unwrap();
    assert_eq!(refreshed.value.as_sensitive_str(), "bob");
}

#[test]
fn missing_required_secret_fails_refresh() {
    let source = MockSecretsSource::new(mock_pairs(&[("present", "yes")]));
    let mut vault = SecretVaultBuilder::with_source(source).build().unwrap();
    let present = SecretVaultRef::new(name("present"));
    let absent = SecretVaultRef::new(name("absent"));
    vault.register_secret_refs(vec![&present, &absent]);

    let err = vault.refresh().expect_err("required secret is absent");
    assert!(matches!(err, SecretVaultError::DataNotFoundError(_)));
    // The store is untouched for that key, and for every other.
    assert_eq!(vault.store_len(), 0);
    assert!(vault.get_secret_by_ref(&absent).unwrap().is_none());
    assert!(vault.get_secret_by_ref(&present).unwrap().is_none());
}

#[test]
fn missing_non_required_secret_is_skipped() {
    let source = MockSecretsSource::new(mock_pairs(&[("present", "yes")]));
    let mut vault = SecretVaultBuilder::with_source(source).build().unwrap();
    let present = SecretVaultRef::new(name("present"));
    let absent = SecretVaultRef::new(name("absent")).with_required(false);
    vault.register_secret_refs(vec![&present, &absent]);

    vault.refresh().unwrap();
    assert!(vault.get_secret_by_ref(&absent).unwrap().is_none());
    assert_eq!(
        vault
            .get_secret_by_ref(&present)
            .unwrap()
            .unwrap()
            .value
            .as_sensitive_str(),
        "yes"
    );
}

#[test]
fn compaction_evicts_unregistered_keys() {
    let source = MockSecretsSource::new(mock_pairs(&[("a", "1"), ("b", "2")]));
    let refs = source.keys();
    let mut vault = SecretVaultBuilder::with_source(source).build().unwrap();
    vault.register_secret_refs(refs.iter().collect());
    vault.refresh().unwrap();
    assert_eq!(vault.store_len(), 2);

    let a = SecretVaultRef::new(name("a"));
    vault.register_secret_refs(vec![&a]);
    vault.refresh().unwrap();
    assert_eq!(vault.store_len(), 1);
    assert!(vault
        .get_secret_by_ref(&SecretVaultRef::new(name("b")))
        .unwrap()
        .is_none());
    assert!(vault.get_secret_by_ref(&a).unwrap().is_some());
}

#[test]
fn register_is_idempotent() {
    let source = MockSecretsSource::new(mock_pairs(&[("a", "1")]));
    let a = SecretVaultRef::new(name("a"));
    let mut vault = SecretVaultBuilder::with_source(source).build().unwrap();
    vault.register_secret_refs(vec![&a]);
    vault.register_secret_refs(vec![&a]);
    vault.refresh().unwrap();
    assert_eq!(vault.store_len(), 1);
    assert_eq!(
        vault
            .get_secret_by_ref(&a)
            .unwrap()
            .unwrap()
            .value
            .as_sensitive_str(),
        "1"
    );
}

#[test]
fn remove_secret_ref_then_compact_evicts() {
    let source = MockSecretsSource::new(mock_pairs(&[("a", "1"), ("b", "2")]));
    let refs = source.keys();
    let mut vault = SecretVaultBuilder::with_source(source).build().unwrap();
    vault.register_secret_refs(refs.iter().collect());
    vault.refresh().unwrap();

    let b = SecretVaultRef::new(name("b"));
    vault.remove_secret_ref(&b.key);
    vault.compact().unwrap();
    assert!(vault.get_secret_by_ref(&b).unwrap().is_none());
    assert_eq!(vault.store_len(), 1);
}

#[test]
fn snapshot_holds_only_the_allowed_and_present() {
    let source = MockSecretsSource::new(mock_pairs(&[("open", "o"), ("hidden", "h")]));
    let open_ref = SecretVaultRef::new(name("open")).with_allow_in_snapshots(true);
    let hidden_ref = SecretVaultRef::new(name("hidden"));
    let absent_ref = SecretVaultRef::new(name("absent"))
        .with_required(false)
        .with_allow_in_snapshots(true);
    let mut vault = SecretVaultBuilder::with_source(source).build().unwrap();
    vault.register_secret_refs(vec![&open_ref, &hidden_ref, &absent_ref]);
    vault.refresh().unwrap();

    let snapshot = vault
        .snapshot(SecretVaultHashMapSnapshotBuilder::new())
        .unwrap();
    let held = snapshot.get_secret_by_ref(&open_ref).unwrap().unwrap();
    assert_eq!(held.value.as_sensitive_str(), "o");
    assert!(snapshot.get_secret_by_ref(&hidden_ref).unwrap().is_none());
    assert!(snapshot.get_secret_by_ref(&absent_ref).unwrap().is_none());

    // Snapshots live on after the vault.
    drop(vault);
    assert!(snapshot.get_secret_by_ref(&open_ref).unwrap().is_some());
}

#[test]
fn viewer_reads_the_live_store() {
    let source = MockSecretsSource::new(mock_pairs(&[("user", "alice")]));
    let refs = source.keys();
    let mut vault = SecretVaultBuilder::with_source(source).build().unwrap();
    vault.register_secret_refs(refs.iter().collect());
    vault.refresh().unwrap();

    let viewer = vault.viewer();
    let secret = viewer.get_secret(&name("user")).unwrap().unwrap();
    assert_eq!(secret.value.as_sensitive_str(), "alice");
    let required = viewer
        .require_secret_by_ref(&SecretVaultRef::new(name("user")))
        .unwrap();
    assert_eq!(required.value.as_sensitive_str(), "alice");
    let missing = viewer.require_secret_by_ref(&SecretVaultRef::new(name("nope")));
    assert!(matches!(
        missing,
        Err(SecretVaultError::DataNotFoundError(_))
    ));
}

#[test]
fn auto_refresh_vault_test() {
    // The auto-refresh cycle's work: refresh only the registrations
    // marked for it.  A changed source value reaches the vault on the
    // next cycle; unmarked registrations keep their cached value.
    let source = MockSecretsSource::new(Vec::new());
    let auto_ref = SecretVaultRef::new(name("rotating")).with_auto_refresh(true);
    let fixed_ref = SecretVaultRef::new(name("pinned"));
    let mut vault = SecretVaultBuilder::with_source(source).build().unwrap();
    vault.register_secret_refs(vec![&auto_ref, &fixed_ref]);
    vault.source_mut().add(auto_ref.clone(), sv("v1"));
    vault.source_mut().add(fixed_ref.clone(), sv("p1"));
    vault.refresh().unwrap();

    vault.source_mut().add(auto_ref.clone(), sv("v2"));
    vault.source_mut().add(fixed_ref.clone(), sv("p2"));
    vault.refresh_only(|r: &SecretVaultRef| r.auto_refresh).unwrap();

    assert_eq!(
        vault
            .get_secret_by_ref(&auto_ref)
            .unwrap()
            .unwrap()
            .value
            .as_sensitive_str(),
        "v2"
    );
    assert_eq!(
        vault
            .get_secret_by_ref(&fixed_ref)
            .unwrap()
            .unwrap()
            .value
            .as_sensitive_str(),
        "p1"
    );
}

#[test]
fn get_secret_with_version_distinguishes_versions() {
    let v1 = SecretVaultRef::new(name("db"))
        .with_secret_version(secret_vault::SecretVersion::new("1".to_string()));
    let source = MockSecretsSource::new(vec![(v1.clone(), sv("one"))]);
    let mut vault = SecretVaultBuilder::with_source(source).build().unwrap();
    vault.register_secret_refs(vec![&v1]);
    vault.refresh().unwrap();

    let version = secret_vault::SecretVersion::new("1".to_string());
    let found = vault
        .get_secret_with_version(&name("db"), Some(&version))
        .unwrap();
    assert!(found.is_some());
    let unversioned = vault.get_secret(&name("db")).unwrap();
    assert!(unversioned.is_none());
}

#[test]
fn multiple_sources_test() {
    let ns1 = SecretNamespace::new("mock1".to_string());
    let ns2 = SecretNamespace::new("mock2".to_string());
    let ref1 = SecretVaultRef::new(name("user")).with_namespace(ns1.clone());
    let ref2 = SecretVaultRef::new(name("user")).with_namespace(ns2.clone());

    let source1 = MockSecretsSource::new(vec![(ref1.clone(), sv("from-mock1"))]);
    let source2 = MockSecretsSource::new(vec![(ref2.clone(), sv("from-mock2"))]);
    let aggregate = MultipleSecretsSources::new()
        .add_source(&ns1, source1)
        .add_source(&ns2, source2);

    let mut vault = SecretVaultBuilder::with_source(aggregate).build().unwrap();
    vault.register_secret_refs(vec![&ref1, &ref2]);
    vault.refresh().unwrap();

    // The same name resolves independently in each namespace.
    assert_eq!(
        vault
            .get_secret_by_ref(&ref1)
            .unwrap()
            .unwrap()
            .value
            .as_sensitive_str(),
        "from-mock1"
    );
    assert_eq!(
        vault
            .get_secret_by_ref(&ref2)
            .unwrap()
            .unwrap()
            .value
            .as_sensitive_str(),
        "from-mock2"
    );
}

#[test]
fn tempgen_source_generates_the_configured_shapes() {
    let fixed_ref = SecretVaultRef::new(name("fixed"));
    let rotating_ref = SecretVaultRef::new(name("rotating"));
    let raw_ref = SecretVaultRef::new(name("raw"));
    let options = TempSecretGenSourceOptions::new()
        .add_secret_generator(&fixed_ref.key, TempSecretOptions::new(16))
        .add_secret_generator(
            &rotating_ref.key,
            TempSecretOptions::new(32).with_regenerate_on_refresh(true),
        )
        .add_secret_generator(
            &raw_ref.key,
            TempSecretOptions::new(8).with_printable(false),
        );
    let source = TempSecretGenSource::with_options(options).unwrap();
    let mut vault = SecretVaultBuilder::with_source(source).build().unwrap();
    vault.register_secret_refs(vec![&fixed_ref, &rotating_ref, &raw_ref]);
    vault.refresh().unwrap();

    let fixed1 = vault.get_secret_by_ref(&fixed_ref).unwrap().unwrap();
    assert_eq!(fixed1.value.as_sensitive_bytes().len(), 16);
    assert!(fixed1
        .value
        .as_sensitive_str()
        .chars()
        .all(|c| c.is_ascii_hexdigit()));
    let rotating1 = vault.get_secret_by_ref(&rotating_ref).unwrap().unwrap();
    assert_eq!(rotating1.value.as_sensitive_bytes().len(), 32);
    let raw = vault.get_secret_by_ref(&raw_ref).unwrap().unwrap();
    assert_eq!(raw.value.as_sensitive_bytes().len(), 8);

    // A fixed secret keeps its value across refreshes; a rotating one
    // gets a fresh value.
    vault.refresh().unwrap();
    let fixed2 = vault.get_secret_by_ref(&fixed_ref).unwrap().unwrap();
    assert!(fixed2.value == fixed1.value);
    let rotating2 = vault.get_secret_by_ref(&rotating_ref).unwrap().unwrap();
    assert!(rotating2.value != rotating1.value);
}

#[test]
fn add_secret_refs_prepends_a_batch() {
    let source = MockSecretsSource::new(mock_pairs(&[("a", "1"), ("b", "2")]));
    let a = SecretVaultRef::new(name("a"));
    let b = SecretVaultRef::new(name("b"));
    let mut vault = SecretVaultBuilder::with_source(source)
        .build()
        .unwrap()
        .with_secret_refs(vec![&a])
        .add_secret_refs(vec![&b]);
    vault.refresh().unwrap();
    assert_eq!(vault.store_len(), 2);
    assert!(vault.get_secret_by_ref(&a).unwrap().is_some());
    assert!(vault.get_secret_by_ref(&b).unwrap().is_some());
}

use secret_vault::errors::{SecretVaultEncryptionError, SecretVaultError, SecretVaultMemoryError, SecretVaultSystemError};
use secret_vault::{
    merge_source_results, AutoRefresherAction, AutoRefresherEvent, AutoRefresherState, Secret,
    SecretMetadata, SecretName, SecretValue, SecretVault, SecretVaultAutoRefresher,
    SecretVaultContextEncryption, SecretVaultEncryption, SecretVaultEncryptionContext, SecretVaultRef, SecretVaultStore,
    SecretVersion, SourceSecrets,
};

fn vault_ref(name: &str) -> SecretVaultRef {
    SecretVaultRef::new(SecretName::new(name.to_string()))
}

fn secret(v: &str) -> Secret {
    Secret::new(SecretValue::from(v), SecretMetadata::new())
}

fn new_store() -> SecretVaultStore<SecretVaultContextEncryption> {
    SecretVaultStore::new(SecretVaultContextEncryption::new())
}

fn new_vault(refs: &[&SecretVaultRef]) -> SecretVault<(), SecretVaultContextEncryption> {
    let mut vault = SecretVault::new((), new_store()).unwrap();
    vault.with_secrets_refs(refs.to_vec());
    vault
}

fn network_error(msg: &str) -> SecretVaultError {
    SecretVaultError::NetworkError(secret_vault::errors::SecretVaultNetworkError::new(
        secret_vault::errors::SecretVaultErrorPublicGenericDetails::new("NET".to_string()),
        msg.to_string(),
    ))
}

#[test]
fn required_and_optional_scenario() {
    let a = vault_ref("A");
    let b = vault_ref("B").with_required(false);
    let mut vault = new_vault(&[&a, &b]);
    assert!(vault.refresh(Ok(vec![(a.clone(), secret("x"))])).is_ok());
    let got = vault.get_secret_by_ref(&a).unwrap().unwrap();
    assert_eq!(got.as_sensitive_str(), "x");
    assert!(vault.get_secret_by_ref(&b).unwrap().is_none());
}

#[test]
fn required_missing_fails_with_data_not_found() {
    let a = vault_ref("A");
    let mut vault = new_vault(&[&a]);
    match vault.refresh(Ok(vec![])) {
        Err(SecretVaultError::DataNotFoundError(e)) => assert_eq!(e.data_detail_message, "A"),
        other => panic!("unexpected: {:?}", other),
    }
    assert!(vault.get_secret_by_ref(&a).unwrap().is_none());
}

#[test]
fn optional_missing_is_tolerated() {
    let b = vault_ref("B").with_required(false);
    let mut vault = new_vault(&[&b]);
    let answers: Vec<SourceSecrets> = vec![Ok(vec![]), Ok(vec![])];
    assert!(vault.refresh_from_sources(&answers).is_ok());
    assert!(vault.get_secret_by_ref(&b).unwrap().is_none());
}

#[test]
fn store_round_trip() {
    let mut store = new_store();
    let r = vault_ref("db-password").with_secret_version(SecretVersion::new("3".to_string()));
    store.insert(r.clone(), &Secret::new(SecretValue::new(vec![0, 1, 255]), SecretMetadata::new())).unwrap();
    let got = store.get_secret(&r).unwrap().unwrap();
    assert_eq!(got.ref_sensitive_value(), &vec![0u8, 1, 255]);
    assert_eq!(store.len(), 1);
    // Another version of the same name is another identity.
    assert!(store.get_secret(&vault_ref("db-password")).unwrap().is_none());
}

#[test]
fn store_overwrite_keeps_last_value() {
    let mut store = new_store();
    let r = vault_ref("k");
    store.insert(r.clone(), &secret("v1")).unwrap();
    store.insert(r.clone(), &secret("v2")).unwrap();
    assert_eq!(store.get_secret(&r).unwrap().unwrap().as_sensitive_str(), "v2");
    assert_eq!(store.len(), 1);
    store.insert(vault_ref("other"), &secret("v3")).unwrap();
    assert_eq!(store.len(), 2);
    assert!(store.get_metadata(&r).is_some());
}

#[test]
fn decrypt_under_other_context_fails() {
    let enc = SecretVaultContextEncryption::new();
    let r1 = vault_ref("one");
    let r2 = vault_ref("two");
    let ctx1 = SecretVaultEncryptionContext::from_ref(&r1);
    let ctx2 = SecretVaultEncryptionContext::from_ref(&r2);
    let sealed = enc.encrypt_value(&ctx1, &SecretValue::from("plain")).unwrap();
    assert!(matches!(enc.decrypt_value(&ctx2, &sealed), Err(SecretVaultError::EncryptionError(_))));
    assert_eq!(enc.decrypt_value(&ctx1, &sealed).unwrap().as_sensitive_str(), "plain");
}

#[test]
fn first_source_wins() {
    let r = vault_ref("r");
    let refs = vec![r.clone()];
    let answers: Vec<SourceSecrets> =
        vec![Ok(vec![(r.clone(), secret("from-a"))]), Ok(vec![(r.clone(), secret("from-b"))])];
    let merged = merge_source_results(&refs, &answers).unwrap();
    assert_eq!(merged.len(), 1);
    assert_eq!(merged[0].1.value.as_sensitive_str(), "from-a");
}

#[test]
fn later_source_fills_what_earlier_lacks() {
    let r = vault_ref("r");
    let refs = vec![r.clone()];
    let answers: Vec<SourceSecrets> = vec![Ok(vec![]), Ok(vec![(r.clone(), secret("from-b"))])];
    let merged = merge_source_results(&refs, &answers).unwrap();
    assert_eq!(merged[0].1.value.as_sensitive_str(), "from-b");
}

#[test]
fn failed_source_tolerated_when_required_resolved() {
    let r = vault_ref("r");
    let refs = vec![r.clone()];
    let answers: Vec<SourceSecrets> = vec![Err(network_error("down")), Ok(vec![(r.clone(), secret("ok"))])];
    let merged = merge_source_results(&refs, &answers).unwrap();
    assert_eq!(merged[0].1.value.as_sensitive_str(), "ok");
}

#[test]
fn single_failed_source_error_surfaces() {
    let refs = vec![vault_ref("r")];
    let answers: Vec<SourceSecrets> = vec![Err(network_error("down")), Ok(vec![])];
    match merge_source_results(&refs, &answers) {
        Err(SecretVaultError::NetworkError(e)) => assert_eq!(e.message, "down"),
        other => panic!("unexpected: {:?}", other),
    }
}

#[test]
fn several_failed_sources_give_system_error() {
    let refs = vec![vault_ref("r")];
    let answers: Vec<SourceSecrets> = vec![Err(network_error("a")), Err(network_error("b"))];
    assert!(matches!(merge_source_results(&refs, &answers), Err(SecretVaultError::SystemError(_))));
}

#[test]
fn snapshot_outlives_vault() {
    let a = vault_ref("A");
    let mut vault = new_vault(&[&a]);
    vault.refresh(Ok(vec![(a.clone(), secret("x"))])).unwrap();
    {
        let viewer = vault.viewer();
        assert_eq!(viewer.get_secret_by_ref(&a).unwrap().unwrap().as_sensitive_str(), "x");
    }
    let snapshot = vault.snapshot();
    assert_eq!(snapshot.get_secret_by_ref(&a).unwrap().unwrap().as_sensitive_str(), "x");
}

#[test]
fn failed_refresh_leaves_store_unchanged() {
    let a = vault_ref("A");
    let b = vault_ref("B");
    let mut vault = new_vault(&[&a]);
    vault.refresh(Ok(vec![(a.clone(), secret("x"))])).unwrap();
    vault.with_secrets_refs(vec![&a, &b]);
    assert!(vault.refresh(Ok(vec![(a.clone(), secret("y"))])).is_err());
    assert_eq!(vault.get_secret_by_ref(&a).unwrap().unwrap().as_sensitive_str(), "x");
    assert_eq!(vault.refs().len(), 2);
}

#[test]
fn single_flight_skips_ticks_while_running() {
    let mut r = SecretVaultAutoRefresher::new(1000);
    assert_eq!(r.step(AutoRefresherEvent::Start), AutoRefresherAction::ScheduleTick);
    assert_eq!(r.step(AutoRefresherEvent::Tick), AutoRefresherAction::StartRefresh);
    assert_eq!(r.step(AutoRefresherEvent::Tick), AutoRefresherAction::SkipTick);
    assert_eq!(r.step(AutoRefresherEvent::Tick), AutoRefresherAction::SkipTick);
    assert_eq!(r.state(), AutoRefresherState::Running);
    assert_eq!(
        r.step(AutoRefresherEvent::RefreshFinished { succeeded: true }),
        AutoRefresherAction::ScheduleTick
    );
    assert_eq!(r.refresh_interval_ms(), 1000);
}

#[test]
fn failure_does_not_stop_refresher() {
    let mut r = SecretVaultAutoRefresher::new(10);
    r.step(AutoRefresherEvent::Start);
    r.step(AutoRefresherEvent::Tick);
    assert_eq!(
        r.step(AutoRefresherEvent::RefreshFinished { succeeded: false }),
        AutoRefresherAction::ReportErrorAndScheduleTick
    );
    assert_eq!(r.state(), AutoRefresherState::Scheduled);
    assert_eq!(r.step(AutoRefresherEvent::Tick), AutoRefresherAction::StartRefresh);
}

#[test]
fn stop_lets_running_refresh_finish() {
    let mut r = SecretVaultAutoRefresher::new(10);
    r.step(AutoRefresherEvent::Start);
    r.step(AutoRefresherEvent::Tick);
    assert_eq!(r.step(AutoRefresherEvent::Stop), AutoRefresherAction::CancelTick);
    assert_eq!(r.state(), AutoRefresherState::Stopping);
    assert_eq!(r.step(AutoRefresherEvent::Tick), AutoRefresherAction::SkipTick);
    assert_eq!(r.step(AutoRefresherEvent::RefreshFinished { succeeded: true }), AutoRefresherAction::Nothing);
    assert_eq!(r.state(), AutoRefresherState::Stopped);
    assert_eq!(r.step(AutoRefresherEvent::Tick), AutoRefresherAction::Nothing);
}

#[test]
fn error_constructors() {
    match SecretVaultEncryptionError::create("E1", "bad key") {
        SecretVaultError::EncryptionError(e) => {
            assert_eq!(e.public.code, "E1");
            assert_eq!(e.message, "bad key");
        }
        other => panic!("unexpected: {:?}", other),
    }
    match SecretVaultMemoryError::create("M1", "no memory") {
        SecretVaultError::MemoryError(e) => {
            assert_eq!(e.public.code, "M1");
            assert_eq!(e.message, "no memory");
        }
        other => panic!("unexpected: {:?}", other),
    }
    assert!(matches!(SecretVaultSystemError::create("S", "m"), SecretVaultError::SystemError(_)));
}

#[test]
fn single_source_failure_surfaces_unchanged() {
    let b = vault_ref("B").with_required(false);
    let mut vault = new_vault(&[&b]);
    match vault.refresh(Err(network_error("outage"))) {
        Err(SecretVaultError::NetworkError(e)) => assert_eq!(e.message, "outage"),
        other => panic!("unexpected: {:?}", other),
    }
    assert!(vault.get_secret_by_ref(&b).unwrap().is_none());
}

#[test]
fn first_missing_required_is_named() {
    let a = vault_ref("A");
    let b = vault_ref("B");
    let mut vault = new_vault(&[&a, &b]);
    match vault.refresh(Ok(vec![])) {
        Err(SecretVaultError::DataNotFoundError(e)) => assert_eq!(e.data_detail_message, "A"),
        other => panic!("unexpected: {:?}", other),
    }
}

#[test]
fn multi_source_refresh_stores_first_value() {
    let r = vault_ref("r");
    let mut vault = new_vault(&[&r]);
    let answers: Vec<SourceSecrets> =
        vec![Ok(vec![(r.clone(), secret("a"))]), Ok(vec![(r.clone(), secret("b"))])];
    vault.refresh_from_sources(&answers).unwrap();
    assert_eq!(vault.get_secret_by_ref(&r).unwrap().unwrap().as_sensitive_str(), "a");
}

#[test]
fn metadata_setters() {
    let m = SecretMetadata::new()
        .with_description("d".to_string())
        .with_expire_at(1_700_000_000)
        .with_version(SecretVersion::new("2".to_string()));
    assert_eq!(m.description.as_deref(), Some("d"));
    assert_eq!(m.expire_at, Some(1_700_000_000));
    assert!(m.labels.is_none());
}

#[test]
fn stored_metadata_is_returned() {
    let mut store = new_store();
    let r = vault_ref("m");
    let metadata = SecretMetadata::new()
        .with_description("desc".to_string())
        .with_labels(vec![secret_vault::SecretMetadataLabel::new("env".to_string())
            .with_value("prod".to_string())]);
    store.insert(r.clone(), &Secret::new(SecretValue::from("v"), metadata)).unwrap();
    let got = store.get_metadata(&r).unwrap();
    assert_eq!(got.description.as_deref(), Some("desc"));
    let labels = got.labels.as_ref().unwrap();
    assert_eq!(labels[0].name, "env");
    assert_eq!(labels[0].value.as_deref(), Some("prod"));
    assert!(store.get_metadata(&vault_ref("absent")).is_none());
}

#[test]
fn pairs_outside_working_set_are_stored() {
    let a = vault_ref("A").with_required(false);
    let extra = vault_ref("extra");
    let mut vault = new_vault(&[&a]);
    vault.refresh(Ok(vec![(extra.clone(), secret("e"))])).unwrap();
    assert_eq!(vault.get_secret_by_ref(&extra).unwrap().unwrap().as_sensitive_str(), "e");
    assert!(vault.get_secret_by_ref(&a).unwrap().is_none());
}

#[test]
fn working_set_and_refresh_chain() {
    let a = vault_ref("A");
    let mut vault: SecretVault<(), SecretVaultContextEncryption> =
        SecretVault::new((), new_store()).unwrap();
    vault.with_secrets_refs(vec![&a]).refresh(Ok(vec![(a.clone(), secret("x"))])).unwrap();
    assert_eq!(vault.get_secret_by_ref(&a).unwrap().unwrap().as_sensitive_str(), "x");
}

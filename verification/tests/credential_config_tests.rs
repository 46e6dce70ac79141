use agentusage::config::{effective_plugins_dir, plugins_to_install, BundledEntry};
use agentusage::credential::{
    credential_exists, delete_result, keyring_service, read_result, store_result, CredentialOp,
    KeyringOutcome,
};

#[test]
fn keyring_service_name() {
    assert_eq!(keyring_service(), "agentusage");
}

#[test]
fn reading_credentials() {
    let found = read_result("kimi", KeyringOutcome::Done("sk-1".to_string()));
    assert_eq!(found.as_ref().unwrap().as_deref(), Some("sk-1"));
    assert!(credential_exists(&found));
    let missing = read_result("kimi", KeyringOutcome::NoEntry);
    assert!(matches!(missing, Ok(None)));
    assert!(!credential_exists(&missing));
    let failed = read_result("kimi", KeyringOutcome::Failed("locked".to_string()));
    let e = failed.as_ref().unwrap_err();
    assert_eq!(e.op, CredentialOp::Read);
    assert_eq!(e.provider_id, "kimi");
    assert_eq!(e.detail, "locked");
    assert!(!credential_exists(&failed));
}

#[test]
fn deleting_a_missing_credential_succeeds() {
    assert!(delete_result("kimi", KeyringOutcome::Done(())).is_ok());
    assert!(delete_result("kimi", KeyringOutcome::NoEntry).is_ok());
    let e = delete_result("kimi", KeyringOutcome::Failed("denied".to_string())).unwrap_err();
    assert_eq!(e.op, CredentialOp::Delete);
}

#[test]
fn storing_reports_any_failure() {
    assert!(store_result("kimi", KeyringOutcome::Done(())).is_ok());
    assert_eq!(store_result("kimi", KeyringOutcome::NoEntry).unwrap_err().op, CredentialOp::Store);
    let e = store_result("kimi", KeyringOutcome::Failed("denied".to_string())).unwrap_err();
    assert_eq!(e.detail, "denied");
}

#[test]
fn plugins_directory_choice() {
    let user = || "/data/plugins".to_string();
    assert_eq!(effective_plugins_dir(user(), true, Some("/opt/bundled".to_string())), "/data/plugins");
    assert_eq!(effective_plugins_dir(user(), false, Some("/opt/bundled".to_string())), "/opt/bundled");
    assert_eq!(effective_plugins_dir(user(), false, None), "/data/plugins");
}

#[test]
fn first_run_installs_only_new_plugin_directories() {
    let e = |name: &str, is_dir, installed| BundledEntry { name: name.to_string(), is_dir, installed };
    let entries = vec![
        e("kimi", true, false),
        e("NOTICE", false, false),
        e("codex", true, true),
        e("zai", true, false),
    ];
    assert_eq!(plugins_to_install(&entries), vec!["kimi".to_string(), "zai".to_string()]);
    assert!(plugins_to_install(&vec![]).is_empty());
}

use pve_rs::model::{Recovery, TfaConfig, TfaEntry, TfaInfo, TfaUserData, Totp, U2fRegistration};
use pve_rs::project::{generate_legacy_config, generate_legacy_user, LegacyUserConfig};
use pve_rs::tfa::{
    authentication_verify, authentication_verify2, get_yubico_keys, has_type, recovery_state,
    tfa_lock_status, LockStatusReport, RecoveryState, TfaError, TfaLockStatus, TfaResult,
    TfaReturnValue,
};

fn info(id: &str, enable: bool) -> TfaInfo {
    TfaInfo { id: id.into(), description: String::new(), created: 0, enable }
}

fn totp(id: &str, enable: bool, secret: &[u8]) -> TfaEntry<Totp> {
    TfaEntry { info: info(id, enable), entry: Totp { secret: secret.to_vec(), period: 30, digits: 6, account_name: None } }
}

fn yubico(id: &str, enable: bool, key: &str) -> TfaEntry<String> {
    TfaEntry { info: info(id, enable), entry: key.to_string() }
}

fn config_with(user: &str, data: TfaUserData) -> TfaConfig {
    let mut config = TfaConfig::new();
    config.insert_user(user.to_string(), data);
    config
}

#[test]
fn has_type_counts_enabled_entries_only() {
    let mut data = TfaUserData::new();
    data.totp.push(totp("a", false, b"x"));
    data.yubico.push(yubico("b", true, "cccc"));
    let config = config_with("alice@pve", data);
    assert_eq!(has_type(&config, "alice@pve", "totp"), Ok(false));
    assert_eq!(has_type(&config, "alice@pve", "oath"), Ok(false));
    assert_eq!(has_type(&config, "alice@pve", "yubico"), Ok(true));
    assert_eq!(has_type(&config, "alice@pve", "u2f"), Ok(false));
    assert_eq!(has_type(&config, "alice@pve", "webauthn"), Ok(false));
    assert_eq!(has_type(&config, "alice@pve", "recovery"), Ok(false));
    assert_eq!(has_type(&config, "alice@pve", "sms"), Err(TfaError::UnrecognizedType));
    assert_eq!(has_type(&config, "bob@pve", "sms"), Ok(false));
}

#[test]
fn recovery_counts_unused_codes() {
    let mut data = TfaUserData::new();
    data.recovery = Some(Recovery { used: vec![true, false, true, false], created: 0 });
    let config = config_with("u", data);
    assert_eq!(has_type(&config, "u", "recovery"), Ok(true));
    assert_eq!(recovery_state(&config, "u"), Some(RecoveryState { available: true, remaining: 2 }));
    let mut spent = TfaUserData::new();
    spent.recovery = Some(Recovery { used: vec![true, true], created: 0 });
    let config = config_with("v", spent);
    assert_eq!(has_type(&config, "v", "recovery"), Ok(false));
    assert_eq!(recovery_state(&config, "v"), Some(RecoveryState { available: false, remaining: 0 }));
    assert_eq!(recovery_state(&config, "w"), None);
}

#[test]
fn yubico_keys_join_enabled_ids() {
    let mut data = TfaUserData::new();
    data.yubico.push(yubico("a", true, "k1"));
    data.yubico.push(yubico("b", false, "k2"));
    data.yubico.push(yubico("c", true, "k3"));
    let config = config_with("u", data);
    assert_eq!(get_yubico_keys(&config, "u"), Some("k1 k3".to_string()));
    assert_eq!(get_yubico_keys(&config, "nobody"), None);
    let config = config_with("e", TfaUserData::new());
    assert_eq!(get_yubico_keys(&config, "e"), Some(String::new()));
}

#[test]
fn lock_status_hides_expired_lockouts() {
    let mut data = TfaUserData::new();
    data.totp_locked = true;
    data.tfa_locked_until = Some(1000);
    assert_eq!(
        TfaLockStatus::from_user(&data, 999),
        TfaLockStatus { totp_locked: true, tfa_locked_until: Some(1000) }
    );
    assert_eq!(
        TfaLockStatus::from_user(&data, 1000),
        TfaLockStatus { totp_locked: true, tfa_locked_until: None }
    );
    let mut config = config_with("a", data);
    config.insert_user("b".to_string(), TfaUserData::new());
    match tfa_lock_status(&config, Some("a"), 10) {
        Some(LockStatusReport::User(st)) => assert_eq!(st.tfa_locked_until, Some(1000)),
        _ => panic!("expected the status of one user"),
    }
    assert!(tfa_lock_status(&config, Some("c"), 10).is_none());
    match tfa_lock_status(&config, None, 2000) {
        Some(LockStatusReport::All(all)) => {
            assert_eq!(all.len(), 2);
            for (user, st) in all {
                assert_eq!(st.tfa_locked_until, None);
                assert_eq!(st.totp_locked, user == "a");
            }
        }
        _ => panic!("expected the status of all users"),
    }
}

#[test]
fn verify_outcomes_map_to_return_values() {
    assert_eq!(
        authentication_verify2(TfaResult::Success { needs_saving: true }),
        TfaReturnValue { result: true, needs_saving: true, totp_limit_reached: false, tfa_limit_reached: false }
    );
    assert_eq!(
        authentication_verify2(TfaResult::Locked),
        TfaReturnValue { result: false, needs_saving: false, totp_limit_reached: false, tfa_limit_reached: false }
    );
    assert_eq!(
        authentication_verify2(TfaResult::Failure {
            needs_saving: true,
            totp_limit_reached: true,
            tfa_limit_reached: false
        }),
        TfaReturnValue { result: false, needs_saving: true, totp_limit_reached: true, tfa_limit_reached: false }
    );
    assert_eq!(authentication_verify(TfaResult::Success { needs_saving: false }), Ok(false));
    assert_eq!(
        authentication_verify(TfaResult::Locked),
        Err(TfaError::AuthenticationFailed { needs_saving: false })
    );
    assert_eq!(
        authentication_verify(TfaResult::Failure {
            needs_saving: true,
            totp_limit_reached: false,
            tfa_limit_reached: true
        }),
        Err(TfaError::AuthenticationFailed { needs_saving: true })
    );
}

#[test]
fn users_and_removal() {
    let mut config = config_with("a", TfaUserData::new());
    config.insert_user("b".to_string(), TfaUserData::new());
    config.insert_user("a".to_string(), TfaUserData::new());
    let mut users = config.users();
    users.sort();
    assert_eq!(users, vec!["a", "b"]);
    assert!(config.remove_user("a"));
    assert!(!config.remove_user("a"));
    assert_eq!(config.users(), vec!["b"]);
}

#[test]
fn legacy_projection_prefers_u2f_then_totp_then_yubico() {
    let mut data = TfaUserData::new();
    data.yubico.push(yubico("y1", true, "k1"));
    data.yubico.push(yubico("y2", false, "k2"));
    match generate_legacy_user(&data) {
        Some(LegacyUserConfig::Yubico { keys }) => assert_eq!(keys, "k1 k2"),
        _ => panic!("expected yubico"),
    }
    data.totp.push(totp("t1", true, &[0x01, 0xab]));
    data.totp.push(TfaEntry { info: info("t2", true), entry: Totp { secret: vec![0xff], period: 60, digits: 8, account_name: None } });
    match generate_legacy_user(&data) {
        Some(LegacyUserConfig::Oath { digits, step, keys }) => {
            assert_eq!((digits, step), (6, 30));
            assert_eq!(keys, "v2-0x01ab v2-0xff");
        }
        _ => panic!("expected oath"),
    }
    data.u2f.push(TfaEntry {
        info: info("u1", true),
        entry: U2fRegistration {
            key_handle: vec![0xfb, 0xff],
            version: "U2F_V2".into(),
            public_key: vec![1, 2, 3, 4],
            certificate: Vec::new(),
        },
    });
    match generate_legacy_user(&data) {
        Some(LegacyUserConfig::U2f { public_key, key_handle }) => {
            assert_eq!(public_key, "AQIDBA==");
            assert_eq!(key_handle, "-_8");
        }
        _ => panic!("expected u2f"),
    }
}

#[test]
fn legacy_projection_marks_unsupported_users() {
    let mut only_webauthn = TfaUserData::new();
    only_webauthn.webauthn.push(info("w", true));
    assert!(matches!(generate_legacy_user(&only_webauthn), Some(LegacyUserConfig::Incompatible)));
    let mut only_recovery = TfaUserData::new();
    only_recovery.recovery = Some(Recovery { used: vec![false], created: 0 });
    assert!(matches!(generate_legacy_user(&only_recovery), Some(LegacyUserConfig::Incompatible)));
    assert!(generate_legacy_user(&TfaUserData::new()).is_none());
    let mut config = config_with("empty", TfaUserData::new());
    config.insert_user("w".to_string(), only_webauthn);
    let shown = generate_legacy_config(&config);
    assert_eq!(shown.len(), 1);
    assert_eq!(shown[0].0, "w");
}

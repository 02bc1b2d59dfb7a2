use base64::Engine;

use pve_rs::json::Json;
use pve_rs::legacy::{
    decode_key, decode_old_oath_entry, decode_old_u2f_entry, decode_old_yubico_entry,
    parse_old_config, take_json_string, trim_ascii_whitespace, trim_ascii_whitespace_end,
    trim_ascii_whitespace_start, usize_from_perl, EntryKind, LegacyError, Member,
};
use pve_rs::model::{TfaEntry, TfaInfo, TfaUserData, Totp};
use pve_rs::project::{generate_legacy_user, LegacyUserConfig};

fn b64(s: &str) -> String {
    base64::engine::general_purpose::STANDARD.encode(s)
}

fn obj(members: Vec<(&str, Json)>) -> Json {
    Json::Object(members.into_iter().map(|(k, v)| (k.to_string(), v)).collect())
}

#[test]
fn trims_ascii_white_space() {
    assert_eq!(trim_ascii_whitespace(b"  a b\t\r\n"), b"a b");
    assert_eq!(trim_ascii_whitespace_start(b" \ta "), b"a ");
    assert_eq!(trim_ascii_whitespace_end(b" a \n"), b" a");
    assert_eq!(trim_ascii_whitespace(b" \t "), b"");
    assert_eq!(trim_ascii_whitespace(b""), b"");
}

#[test]
fn reads_oath_line_with_v2_hex_key() {
    let data = "eyJrZXlzIjoidjItMHgzMTMyMzMzNDM1MzYzNzM4MzkzMDMxMzIzMzM0MzUzNjM3MzgzOTMwIiwiY29uZmlnIjp7InN0ZXAiOjMwLCJkaWdpdHMiOjZ9fQ==";
    let text = format!("# comment\n\n  alice@pve:oath:{}  \n", data);
    let config = parse_old_config(text.as_bytes()).unwrap();
    let user = config.get_user("alice@pve").unwrap();
    assert_eq!(user.totp.len(), 1);
    assert_eq!(user.totp[0].entry.secret, b"12345678901234567890".to_vec());
    assert_eq!(user.totp[0].entry.period, 30);
    assert_eq!(user.totp[0].entry.digits, 6);
    assert_eq!(user.totp[0].info.id, "v1-entry");
    assert_eq!(user.totp[0].entry.account_name.as_deref(), Some("alice@pve"));
    assert_eq!(user.totp[0].info.description, "<old version 1 entry>");
    assert_eq!(user.totp[0].info.created, 0);
    assert!(user.totp[0].info.enable);
    assert!(user.u2f.is_empty() && user.yubico.is_empty());
}

#[test]
fn reads_oath_keys_in_base32_with_string_numbers() {
    let data = "eyJrZXlzIjoiSkJTV1kzRFBFSFBLM1BYUCwgdjItTVpYVzY9PT0iLCJjb25maWciOnsic3RlcCI6IjYwIiwiZGlnaXRzIjoiOCJ9fQ==";
    let text = format!("bob@pam:oath:{}", data);
    let config = parse_old_config(text.as_bytes()).unwrap();
    let user = config.get_user("bob@pam").unwrap();
    assert_eq!(user.totp.len(), 2);
    assert_eq!(user.totp[0].entry.secret, b"Hello!\xde\xad\xbe\xef".to_vec());
    assert_eq!(user.totp[1].entry.secret, b"foo".to_vec());
    assert_eq!(user.totp[1].entry.period, 60);
    assert_eq!(user.totp[1].entry.digits, 8);
    assert_eq!(user.totp[0].info.id, "v1-entry");
    assert_eq!(user.totp[1].info.id, "v1-entry-1");
    assert_eq!(user.totp[1].entry.account_name.as_deref(), Some("bob@pam"));
}

#[test]
fn reads_yubico_and_u2f_lines() {
    let text = "carol@pve:yubico:eyJrZXlzIjoiY2NjY2NjYmNkZWZnIGNjY2NjY2doaWprbCJ9\n\
                dave@pve:u2f:eyJrZXlIYW5kbGUiOiJBUUlEIiwicHVibGljS2V5IjoiQkFVRyJ9\n\
                erin@pve:u2f:eyJjaGFsbGVuZ2UiOiJ4eXoiLCJrZXlIYW5kbGUiOiJBUUlEIn0=\n";
    let config = parse_old_config(text.as_bytes()).unwrap();
    let carol = config.get_user("carol@pve").unwrap();
    let ids: Vec<&str> = carol.yubico.iter().map(|e| e.entry.as_str()).collect();
    assert_eq!(ids, vec!["ccccccbcdefg", "ccccccghijkl"]);
    assert_eq!(carol.yubico[0].info.id, "v1-entry");
    assert_eq!(carol.yubico[1].info.id, "v1-entry-1");
    let dave = config.get_user("dave@pve").unwrap();
    assert_eq!(dave.u2f.len(), 1);
    assert_eq!(dave.u2f[0].entry.key_handle, vec![1, 2, 3]);
    assert_eq!(dave.u2f[0].entry.public_key, vec![4, 5, 6]);
    assert_eq!(dave.u2f[0].entry.version, "U2F_V2");
    let erin = config.get_user("erin@pve").unwrap();
    assert!(erin.is_empty());
    assert_eq!(config.users().len(), 3);
}

#[test]
fn later_line_of_a_user_replaces_earlier() {
    let text = "u@pve:yubico:eyJrZXlzIjoiYWJjIn0=\nu@pve:yubico:eyJrZXlzIjoiY2NjY2NjYmNkZWZnIGNjY2NjY2doaWprbCJ9";
    let config = parse_old_config(text.as_bytes()).unwrap();
    assert_eq!(config.users().len(), 1);
    assert_eq!(config.get_user("u@pve").unwrap().yubico.len(), 2);
}

#[test]
fn rejects_bad_lines() {
    assert_eq!(parse_old_config(b"alice@pve").err(), Some(LegacyError::BadLine));
    assert_eq!(parse_old_config(b"alice@pve:oath").err(), Some(LegacyError::BadLine));
    assert_eq!(parse_old_config(b"\xff:oath:e30=").err(), Some(LegacyError::NonUtf8User));
    assert_eq!(parse_old_config(b"a:oath:%%%").err(), Some(LegacyError::BadData));
    assert_eq!(parse_old_config(b"a:oath:bm90IGpzb24=").err(), Some(LegacyError::BadJson));
    assert_eq!(parse_old_config(b"a:totp:eyJrZXlzIjoiYWJjIn0=").err(), Some(LegacyError::UnknownType));
    let extra = "a:oath:eyJrZXlzIjoidjItMHgzMSIsImNvbmZpZyI6eyJzdGVwIjozMCwiZXh0cmEiOjF9fQ==";
    assert_eq!(parse_old_config(extra.as_bytes()).err(), Some(LegacyError::ExtraConfigKeys));
    let bad_key = "a:oath:eyJrZXlzIjoieHl6IiwiY29uZmlnIjp7InN0ZXAiOjMwLCJkaWdpdHMiOjZ9fQ==";
    assert_eq!(parse_old_config(bad_key.as_bytes()).err(), Some(LegacyError::UnrecognizedKeyFormat));
}

#[test]
fn blank_input_is_an_empty_config() {
    let config = parse_old_config(b"\n   \n# nothing\n").unwrap();
    assert!(config.users().is_empty());
}

#[test]
fn decodes_keys_in_all_formats() {
    assert_eq!(decode_key("v2-0x3132").unwrap(), b"12".to_vec());
    assert_eq!(decode_key("v2-MZXW6===").unwrap(), b"foo".to_vec());
    assert_eq!(decode_key("JBSWY3DPEHPK3PXP").unwrap(), b"Hello!\xde\xad\xbe\xef".to_vec());
    assert_eq!(
        decode_key("3132333435363738393031323334353637383930").unwrap(),
        b"12345678901234567890".to_vec()
    );
    assert_eq!(decode_key("v2-0x313"), Err(LegacyError::BadV2HexKey));
    assert_eq!(decode_key("v2-0xzz"), Err(LegacyError::BadV2HexKey));
    assert_eq!(decode_key("v2-1"), Err(LegacyError::BadV2Base32Key));
    assert_eq!(decode_key("JBSWY3DPEHPK3PX!"), Err(LegacyError::BadV1Base32Key));
    assert_eq!(
        decode_key("313233343536373839303132333435363738393g"),
        Err(LegacyError::BadV1HexKey)
    );
    assert_eq!(decode_key("abc"), Err(LegacyError::UnrecognizedKeyFormat));
}

#[test]
fn oath_entry_errors() {
    assert_eq!(decode_old_oath_entry(Json::Null, "u").err(), Some(LegacyError::BadJsonType(EntryKind::Oath)));
    assert_eq!(
        decode_old_oath_entry(obj(vec![("keys", Json::String("v2-0x31".into()))]), "u").err(),
        Some(LegacyError::MissingConfig)
    );
    assert_eq!(
        decode_old_oath_entry(obj(vec![("config", Json::Bool(true))]), "u").err(),
        Some(LegacyError::BadConfig)
    );
    assert_eq!(
        decode_old_oath_entry(obj(vec![("config", obj(vec![("step", Json::String("x".into()))]))]), "u").err(),
        Some(LegacyError::BadStep)
    );
    assert_eq!(
        decode_old_oath_entry(obj(vec![("config", obj(vec![("digits", Json::Number(Some(256)))]))]), "u").err(),
        Some(LegacyError::BadDigits)
    );
    assert_eq!(
        decode_old_oath_entry(obj(vec![("config", obj(vec![]))]), "u").err(),
        Some(LegacyError::MissingValue(Member::Keys, EntryKind::Oath))
    );
    assert_eq!(
        decode_old_oath_entry(obj(vec![("config", obj(vec![])), ("keys", Json::Number(Some(1)))]), "u").err(),
        Some(LegacyError::BadValue(Member::Keys))
    );
    let keys = decode_old_oath_entry(obj(vec![
        ("config", obj(vec![])),
        ("keys", Json::String(" ;, ".into())),
    ]), "u")
    .unwrap();
    assert!(keys.is_empty());
}

#[test]
fn u2f_entry_errors() {
    assert_eq!(decode_old_u2f_entry(Json::Array(vec![])).err(), Some(LegacyError::BadJsonType(EntryKind::U2f)));
    assert_eq!(
        decode_old_u2f_entry(obj(vec![("publicKey", Json::String("BAUG".into()))])).err(),
        Some(LegacyError::MissingValue(Member::KeyHandle, EntryKind::U2f))
    );
    assert_eq!(
        decode_old_u2f_entry(obj(vec![("keyHandle", Json::String("A*".into()))])).err(),
        Some(LegacyError::BadKeyHandle)
    );
    assert_eq!(
        decode_old_u2f_entry(obj(vec![
            ("keyHandle", Json::String("AQID".into())),
            ("publicKey", Json::String("B".into())),
        ]))
        .err(),
        Some(LegacyError::BadPublicKey)
    );
    assert_eq!(
        decode_old_u2f_entry(obj(vec![
            ("keyHandle", Json::String("AQID".into())),
            ("publicKey", Json::String("BAUG".into())),
            ("other", Json::Null),
        ]))
        .err(),
        Some(LegacyError::ExtraU2fData)
    );
}

#[test]
fn yubico_entry_splits_keys() {
    let keys = decode_old_yubico_entry(obj(vec![("keys", Json::String(" a,b;c  d ".into()))])).unwrap();
    assert_eq!(keys, vec!["a", "b", "c", "d"]);
    assert_eq!(
        decode_old_yubico_entry(Json::Bool(false)).err(),
        Some(LegacyError::BadJsonType(EntryKind::Yubico))
    );
}

#[test]
fn reads_perl_numbers() {
    assert_eq!(usize_from_perl(Json::Number(Some(30))), Some(30));
    assert_eq!(usize_from_perl(Json::String("+42".into())), Some(42));
    assert_eq!(usize_from_perl(Json::String("-1".into())), None);
    assert_eq!(usize_from_perl(Json::String("".into())), None);
    assert_eq!(usize_from_perl(Json::String("99999999999999999999999".into())), None);
    assert_eq!(usize_from_perl(Json::Number(None)), None);
    assert_eq!(usize_from_perl(Json::Bool(true)), None);
}

#[test]
fn takes_string_members() {
    let mut members = vec![("keys".to_string(), Json::String("k".into())), ("x".to_string(), Json::Null)];
    assert_eq!(take_json_string(&mut members, Member::Keys, EntryKind::Yubico), Ok("k".to_string()));
    assert_eq!(members.len(), 1);
    assert_eq!(
        take_json_string(&mut members, Member::Keys, EntryKind::Yubico),
        Err(LegacyError::MissingValue(Member::Keys, EntryKind::Yubico))
    );
}

fn info() -> TfaInfo {
    TfaInfo { id: "t1".into(), description: "phone".into(), created: 1700000000, enable: true }
}

#[test]
fn single_totp_user_survives_the_version_1_format() {
    let secret = b"12345678901234567890".to_vec();
    let mut user = TfaUserData::new();
    user.totp.push(TfaEntry { info: info(), entry: Totp { secret: secret.clone(), period: 30, digits: 6, account_name: None } });
    let shown = generate_legacy_user(&user).unwrap();
    let (digits, step, keys) = match shown {
        LegacyUserConfig::Oath { digits, step, keys } => (digits, step, keys),
        _ => panic!("expected an oath entry"),
    };
    assert_eq!(keys, format!("v2-0x{}", hex::encode(&secret)));
    let json = format!("{{\"config\":{{\"step\":{},\"digits\":{}}},\"keys\":\"{}\"}}", step, digits, keys);
    let line = format!("alice:oath:{}", b64(&json));
    let config = parse_old_config(line.as_bytes()).unwrap();
    let back = &config.get_user("alice").unwrap().totp;
    assert_eq!(back.len(), 1);
    assert_eq!(back[0].entry.secret, secret);
    assert_eq!(back[0].entry.period, 30);
    assert_eq!(back[0].entry.digits, 6);
    assert_eq!(back[0].entry.account_name.as_deref(), Some("alice"));
}

#[test]
fn migrated_entries_get_distinct_ids() {
    let keys: Vec<String> = (0..12).map(|i| format!("id{}", i)).collect();
    let json = format!("{{\"keys\":\"{}\"}}", keys.join(" "));
    let line = format!("u:yubico:{}", b64(&json));
    let config = parse_old_config(line.as_bytes()).unwrap();
    let ids: Vec<&str> = config.get_user("u").unwrap().yubico.iter().map(|e| e.info.id.as_str()).collect();
    assert_eq!(ids[0], "v1-entry");
    assert_eq!(ids[1], "v1-entry-1");
    assert_eq!(ids[10], "v1-entry-10");
    assert_eq!(ids[11], "v1-entry-11");
}

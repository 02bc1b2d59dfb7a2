use pve_rs::notify::{lookup_datacenter_config_key, lookup_mail_address, normalize_for_return};

const USER_CONFIG: &str = "
user:root@pam:1:0:::root@example.com:::
user:test@pve:1:0:::test@example.com:::
user:no-mail@pve:1:0::::::
    ";

#[test]
fn test_parse_mail() {
    assert_eq!(
        lookup_mail_address(USER_CONFIG, "root@pam"),
        Some("root@example.com".to_string())
    );
    assert_eq!(
        lookup_mail_address(USER_CONFIG, "test@pve"),
        Some("test@example.com".to_string())
    );
    assert_eq!(lookup_mail_address(USER_CONFIG, "no-mail@pve"), None);
}

const DC_CONFIG: &str = "
email_from: user@example.com
keyboard: en-us
";

#[test]
fn test_parse_dc_config() {
    assert_eq!(
        lookup_datacenter_config_key(DC_CONFIG, "email_from"),
        Some("user@example.com".to_string())
    );
}

#[test]
fn mail_lookup_misses_unknown_user_and_short_lines() {
    assert_eq!(lookup_mail_address(USER_CONFIG, "nobody@pam"), None);
    assert_eq!(lookup_mail_address("user:a@pam:1:0\n", "a@pam"), None);
    assert_eq!(lookup_mail_address("", "a@pam"), None);
}

#[test]
fn mail_lookup_trims_fields_and_crlf() {
    let cfg = "group:admins:a@pam::\r\n user : a@pam :1:0:::  a@example.com \r\n";
    assert_eq!(lookup_mail_address(cfg, "a@pam"), Some("a@example.com".to_string()));
}

#[test]
fn mail_lookup_takes_first_line_with_a_seventh_field() {
    let cfg = "user:a@pam:1\nuser:a@pam:1:0:::first@x:::\nuser:a@pam:1:0:::second@x:::\n";
    assert_eq!(lookup_mail_address(cfg, "a@pam"), Some("first@x".to_string()));
}

#[test]
fn dc_lookup_needs_the_colon_right_after_the_key() {
    assert_eq!(lookup_datacenter_config_key("keyboard: de\n", "keyboard"), Some("de".to_string()));
    assert_eq!(lookup_datacenter_config_key("keyboard : de\n", "keyboard"), None);
    assert_eq!(lookup_datacenter_config_key("email_from:   \n", "email_from"), None);
    assert_eq!(lookup_datacenter_config_key("x: 1\nx: 2", "x"), Some("1".to_string()));
}

#[test]
fn normalize_drops_blank_values() {
    assert_eq!(normalize_for_return(None), None);
    assert_eq!(normalize_for_return(Some(" \t\u{A0} ")), None);
    assert_eq!(normalize_for_return(Some("  a b \n")), Some("a b".to_string()));
}

use moonbridge::plugin::bridge::{default_callback_path, default_method, CallbackSpec};
use moonbridge::plugin::host::{
    callback_wait_ms, check_external_url, check_random_len, hex, normalize_home_relative,
    path_eq, resolve_fs_whitelist, secret_scope, validate_callback_spec,
};

#[test]
fn home_relative_normalization() {
    assert_eq!(
        normalize_home_relative("~/.commandcode/auth.json"),
        Some(vec![".commandcode".to_string(), "auth.json".to_string()])
    );
    assert_eq!(
        normalize_home_relative("~\\.commandcode/./auth.json"),
        Some(vec![".commandcode".to_string(), "auth.json".to_string()])
    );
    assert!(normalize_home_relative("~/../etc/passwd").is_none());
    assert!(normalize_home_relative("~/.commandcode/../../x").is_none());
    assert!(normalize_home_relative("/etc/passwd").is_none());
    assert!(normalize_home_relative(".commandcode/auth.json").is_none());
    assert!(normalize_home_relative("~").is_none());
    assert!(normalize_home_relative("~/").is_none());
}

#[test]
fn callback_spec_validation() {
    let mut spec = CallbackSpec {
        path: "/callback".to_string(),
        origins: vec!["https://commandcode.ai".to_string()],
        preferred_port: Some(5959),
    };
    assert!(validate_callback_spec(&spec).is_ok());
    spec.path = "callback".to_string();
    assert!(validate_callback_spec(&spec).is_err());
    spec.path = "/call back?x=1".to_string();
    assert!(validate_callback_spec(&spec).is_err());
    spec.path = "/callback".to_string();
    spec.origins = vec!["javascript:alert(1)".to_string()];
    assert!(validate_callback_spec(&spec).is_err());
    spec.origins = (0..9).map(|i| format!("https://o{i}.example.com")).collect();
    assert!(validate_callback_spec(&spec).is_err());
}

#[test]
fn callback_spec_error_messages_name_the_fault() {
    let spec = CallbackSpec {
        path: "  /x y ".to_string(),
        origins: vec![],
        preferred_port: None,
    };
    assert_eq!(validate_callback_spec(&spec).unwrap_err(), "回调路径形态非法: /x y");
    let spec = CallbackSpec {
        path: "/cb".to_string(),
        origins: (0..9).map(|i| format!("https://o{i}.example.com")).collect(),
        preferred_port: None,
    };
    assert_eq!(validate_callback_spec(&spec).unwrap_err(), "CORS 允许源过多（上限 8）");
    let spec = CallbackSpec {
        path: "/cb".to_string(),
        origins: vec!["HTTP://ok.example".to_string(), "ftp://bad".to_string()],
        preferred_port: None,
    };
    assert_eq!(validate_callback_spec(&spec).unwrap_err(), "CORS 允许源形态非法: ftp://bad");
    let long = format!("/{}", "a".repeat(64));
    let spec = CallbackSpec { path: long, origins: vec![], preferred_port: None };
    assert!(validate_callback_spec(&spec).is_err(), "65 bytes is over the limit");
    let ok = format!("/{}", "a".repeat(63));
    let spec = CallbackSpec { path: ok, origins: vec![], preferred_port: None };
    assert!(validate_callback_spec(&spec).is_ok());
}

#[test]
fn defaults_of_bridge_values() {
    assert_eq!(default_method(), "GET");
    assert_eq!(default_callback_path(), "/callback");
}

#[test]
fn hex_is_lower_case_two_digits_per_byte() {
    assert_eq!(hex(&[0x00, 0x0f, 0xa5, 0xff]), "000fa5ff");
    assert_eq!(hex(&[]), "");
}

#[test]
fn whitelist_matches_exactly() {
    let allow = vec!["~/.commandcode/auth.json".to_string(), "~/../etc".to_string()];
    assert_eq!(
        resolve_fs_whitelist("~/.commandcode//./auth.json", &allow),
        Ok(vec![".commandcode".to_string(), "auth.json".to_string()])
    );
    assert_eq!(
        resolve_fs_whitelist("~/.commandcode", &allow),
        Err("路径不在 fs_read_allow 白名单内: ~/.commandcode".to_string())
    );
    assert_eq!(
        resolve_fs_whitelist("/etc/passwd", &allow),
        Err("路径必须是 home 相对（~/...）且无 ..: /etc/passwd".to_string())
    );
    assert!(path_eq(&["a".to_string()], &["a".to_string()]));
    assert!(!path_eq(&["a".to_string()], &["A".to_string()]));
    assert!(!path_eq(&["a".to_string()], &[]));
}

#[test]
fn small_host_policies() {
    assert_eq!(secret_scope("plug", "oauth"), "plug/oauth");
    assert_eq!(callback_wait_ms(None), 1000);
    assert_eq!(callback_wait_ms(Some(5)), 5);
    assert_eq!(callback_wait_ms(Some(60_000)), 30_000);
    assert!(check_random_len(0).is_err());
    assert!(check_random_len(1).is_ok());
    assert!(check_random_len(4096).is_ok());
    assert_eq!(check_random_len(4097).unwrap_err(), "mb.random.bytes 长度须在 1..=4096");
    assert!(check_external_url("  HTTPS://example.com").is_ok());
    assert!(check_external_url("http://x").is_ok());
    assert_eq!(
        check_external_url("file:///etc/passwd").unwrap_err(),
        "mb.open_external 仅允许 http/https URL"
    );
}

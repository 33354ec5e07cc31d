use baidupan_cli::config::{
    configured_crypto_passphrase, current_unix_timestamp, mask_secret, normalize_env_value,
    read_config_value, timestamp_of, AppCredentials, ConfigValue, StoredToken, TokenStore,
    APP_KEY_ENV, APP_NAME_ENV, APP_SECRET_ENV,
};
use baidupan_cli::error::Error;
use baidupan_cli::files::FileStep;
use baidupan_cli::path::LocalPath;
use baidupan_cli::transfer::UploadStateStore;
use serde_json::Value;

fn setting(runtime: Option<&str>, builtin: Option<&str>) -> ConfigValue {
    ConfigValue {
        runtime: runtime.map(str::to_string),
        builtin: builtin.map(str::to_string),
    }
}

fn token_to_json(token: &StoredToken) -> Vec<u8> {
    let mut members = serde_json::Map::new();
    members.insert("access_token".to_string(), token.access_token.clone().into());
    members.insert("refresh_token".to_string(), token.refresh_token.clone().into());
    members.insert("expires_at".to_string(), token.expires_at.into());
    members.insert("scope".to_string(), token.scope.clone().into());
    serde_json::to_vec_pretty(&Value::Object(members)).expect("json")
}

fn token_from_json(json: &[u8]) -> StoredToken {
    let value: Value = serde_json::from_slice(json).expect("json");
    StoredToken {
        access_token: value["access_token"].as_str().expect("access token").to_string(),
        refresh_token: value["refresh_token"].as_str().expect("refresh token").to_string(),
        expires_at: value["expires_at"].as_i64().expect("expiry"),
        scope: value["scope"].as_str().map(str::to_string),
    }
}

fn credentials(app_key: &str) -> AppCredentials {
    AppCredentials {
        app_key: app_key.to_string(),
        app_secret: "secret".to_string(),
        app_name: "demo-app".to_string(),
    }
}

#[test]
fn masks_short_values() {
    assert_eq!(mask_secret("abc"), "****");
}

#[test]
fn masks_long_values() {
    assert_eq!(mask_secret("abcdefghijkl"), "abcd...ijkl");
}

#[test]
fn masks_by_characters() {
    assert_eq!(mask_secret("abcdefgh"), "****");
    assert_eq!(mask_secret("密码密码xyz密码密码"), "密码密码...密码密码");
    assert_eq!(mask_secret("abcd1ijkl"), mask_secret("abcd-something-else-ijkl"));
}

#[test]
fn stores_and_loads_token() {
    let store = TokenStore::new(LocalPath::from_text("/tmp/x/tokens.json"));
    let token = StoredToken {
        access_token: "access".to_string(),
        refresh_token: "refresh".to_string(),
        expires_at: 42,
        scope: Some("basic netdisk".to_string()),
    };

    let mut file = None;
    for step in store.save(token_to_json(&token)) {
        match step {
            FileStep::Write { content, .. } => file = Some(content),
            FileStep::Rename { to, .. } => assert_eq!(&to, store.path()),
            _ => {}
        }
    }
    let read = token_from_json(&file.expect("written"));
    assert_eq!(store.load(Some(read)).expect("load token"), token);

    assert_eq!(
        store.save(b"{}".to_vec()),
        vec![
            FileStep::CreateDir(LocalPath::from_text("/tmp/x")),
            FileStep::Write {
                path: LocalPath::from_text("/tmp/x/tokens.json.tmp"),
                content: b"{}".to_vec(),
            },
            FileStep::Protect(LocalPath::from_text("/tmp/x/tokens.json.tmp")),
            FileStep::Rename {
                from: LocalPath::from_text("/tmp/x/tokens.json.tmp"),
                to: LocalPath::from_text("/tmp/x/tokens.json"),
            },
        ]
    );
    assert_eq!(store.load(Some(token.clone())).expect("load token"), token);
    assert_eq!(store.load(None), Err(Error::NotLoggedIn));
    assert_eq!(
        store.remove(),
        vec![FileStep::RemoveIfPresent(LocalPath::from_text("/tmp/x/tokens.json"))]
    );
    assert_eq!(store.path(), &LocalPath::from_text("/tmp/x/tokens.json"));
}

#[test]
fn detects_expiry_with_buffer() {
    let token = StoredToken {
        access_token: "access".to_string(),
        refresh_token: "refresh".to_string(),
        expires_at: 100,
        scope: None,
    };

    assert!(token.is_expired(45));
    assert!(!token.is_expired(1));
}

#[test]
fn computes_app_root() {
    assert_eq!(credentials("key").app_root(), "/apps/demo-app");
}

#[test]
fn runtime_value_overrides_builtin_default() {
    let configured = read_config_value(setting(Some("runtime-app"), Some("built-in-app")));

    assert_eq!(configured.as_deref(), Some("runtime-app"));
}

#[test]
fn builtin_default_is_used_when_runtime_is_missing() {
    let configured = read_config_value(setting(None, Some("built-in-app")));

    assert_eq!(configured.as_deref(), Some("built-in-app"));
}

#[test]
fn blank_values_count_as_missing() {
    assert_eq!(
        read_config_value(setting(Some(" \t"), Some(" built-in "))).as_deref(),
        Some("built-in")
    );
    assert_eq!(read_config_value(setting(Some(""), Some("\u{3000}"))), None);
    assert_eq!(normalize_env_value("\u{a0} x y \u{2003}".to_string()).as_deref(), Some("x y"));
    assert_eq!(
        configured_crypto_passphrase(setting(Some("pass "), None)).as_deref(),
        Some("pass")
    );
}

#[test]
fn masks_app_key() {
    assert_eq!(credentials("abcdefghijkl").masked_app_key(), "abcd...ijkl");
}

#[test]
fn hands_out_oauth_credentials() {
    assert_eq!(credentials("key").oauth_client_id(), "key");
    assert_eq!(credentials("key").oauth_client_secret(), "secret");
}

#[test]
fn from_env_requires_app_key() {
    let error = AppCredentials::from_env(
        setting(None, None),
        setting(Some("secret"), None),
        setting(Some("demo-app"), None),
    )
    .expect_err("missing app key");
    assert_eq!(error.to_string(), format!("missing environment variable {APP_KEY_ENV}"));
}

#[test]
fn from_env_requires_app_secret() {
    let error = AppCredentials::from_env(
        setting(Some("key"), None),
        setting(None, None),
        setting(Some("demo-app"), None),
    )
    .expect_err("missing app secret");
    assert_eq!(error.to_string(), format!("missing environment variable {APP_SECRET_ENV}"));
}

#[test]
fn login_requires_app_key() {
    let error = AppCredentials::from_env(setting(None, None), setting(None, None), setting(None, None))
        .expect_err("missing app key");
    assert!(error.to_string().contains("missing environment variable BAIDUPAN_APP_KEY"));
}

#[test]
fn login_requires_app_name() {
    let error = AppCredentials::from_env(
        setting(Some("key"), None),
        setting(Some("secret"), None),
        setting(None, None),
    )
    .expect_err("missing app name");
    assert!(error.to_string().contains("missing environment variable BAIDUPAN_APP_NAME"));
}

#[test]
fn whoami_requires_login() {
    let store = TokenStore::new(LocalPath::from_text("/tmp/tokens.json"));
    let error = store.load(None).expect_err("no token");
    assert!(error.to_string().contains("token file does not exist"));
}

#[test]
fn from_env_reads_and_checks_the_name() {
    let credentials = AppCredentials::from_env(
        setting(Some(" key "), None),
        setting(None, Some("secret")),
        setting(Some(" demo "), Some("other")),
    )
    .expect("credentials");
    assert_eq!(credentials.app_key, "key");
    assert_eq!(credentials.app_secret, "secret");
    assert_eq!(credentials.app_name, "demo");
    assert_eq!(
        AppCredentials::from_env(
            setting(Some("key"), None),
            setting(Some("secret"), None),
            setting(Some("/apps/demo"), None),
        ),
        Err(Error::InvalidConfig(format!(
            "{APP_NAME_ENV} must be the application name only, without path separators"
        )))
    );
}

#[test]
fn reads_the_clock() {
    let now = current_unix_timestamp().expect("clock");
    assert!(now > 1_600_000_000);
    assert_eq!(timestamp_of(Ok(17)), Ok(17));
    assert_eq!(
        timestamp_of(Err("early".to_string())),
        Err(Error::Time("early".to_string()))
    );
}

#[test]
fn user_files_are_in_the_configuration_directory() {
    let dir = LocalPath::from_text("/home/user/.config/baidupan-cli");
    let store = TokenStore::for_current_user(Some(dir.clone())).expect("store");
    assert_eq!(
        store.path(),
        &LocalPath::from_text("/home/user/.config/baidupan-cli/tokens.json")
    );
    assert_eq!(TokenStore::for_current_user(None), Err(Error::ConfigDirUnavailable));
    let store = UploadStateStore::for_current_user(Some(dir)).expect("store");
    assert_eq!(
        store.state_path("k"),
        LocalPath::from_text("/home/user/.config/baidupan-cli/uploads/sessions/k.json")
    );
    assert_eq!(UploadStateStore::for_current_user(None), Err(Error::ConfigDirUnavailable));
}

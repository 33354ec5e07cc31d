//! Credentials, the stored token, and where both come from.
use vstd::prelude::*;
use vstd::utf8::encode_utf8;

use crate::error::{concat, outcome, Error, ErrorView};
use crate::files::{step_views, FileStep, FileStepView};
use crate::path::{joined, parent_of, with_extension, LocalPath};
use crate::text::{chars_of, has_char, text_of, trim, trimmed};

verus! {

pub const APP_KEY_ENV: &'static str = "BAIDUPAN_APP_KEY";

pub const APP_SECRET_ENV: &'static str = "BAIDUPAN_APP_SECRET";

pub const APP_NAME_ENV: &'static str = "BAIDUPAN_APP_NAME";

pub const CRYPTO_PASSPHRASE_ENV: &'static str = "BAIDUPAN_CRYPTO_PASSPHRASE";

pub const USER_AGENT: &'static str = "pan.baidu.com";

/// The view of an optional text.
pub open spec fn text_view(text: Option<String>) -> Option<Seq<char>> {
    match text {
        Some(text) => Some(text@),
        None => None,
    }
}

/// A setting: the value that the environment gives at run time, and the one that was built in.
#[derive(Debug, Clone, PartialEq, Eq)]
pub struct ConfigValue {
    pub runtime: Option<String>,
    pub builtin: Option<String>,
}

/// A value without the white space around it, if anything is left.
pub open spec fn normalized(value: Seq<char>) -> Option<Seq<char>> {
    if trimmed(value).len() == 0 {
        None
    } else {
        Some(trimmed(value))
    }
}

/// The value of a setting: the one at run time, unless it is missing or blank.
pub open spec fn configured(runtime: Option<Seq<char>>, builtin: Option<Seq<char>>) -> Option<
    Seq<char>,
> {
    let at_run_time = match runtime {
        Some(value) => normalized(value),
        None => None,
    };
    match (at_run_time, builtin) {
        (Some(value), _) => Some(value),
        (None, Some(value)) => normalized(value),
        (None, None) => None,
    }
}

impl ConfigValue {
    /// What the setting comes to.
    pub open spec fn value(&self) -> Option<Seq<char>> {
        configured(text_view(self.runtime), text_view(self.builtin))
    }
}

/// A value without the white space around it, if anything is left.
pub fn normalize_env_value(value: String) -> (result: Option<String>)
    ensures
        text_view(result) == normalized(value@),
{
    let value = trim(value.as_str());
    if value.as_str().is_empty() {
        None
    } else {
        Some(value)
    }
}

/// The value of a setting. What is set at run time wins over what was built in.
pub fn read_config_value(setting: ConfigValue) -> (result: Option<String>)
    ensures
        text_view(result) == setting.value(),
{
    if let Some(value) = setting.runtime {
        if let Some(value) = normalize_env_value(value) {
            return Some(value);
        }
    }
    match setting.builtin {
        Some(value) => normalize_env_value(value),
        None => None,
    }
}

/// The passphrase for encrypted files, if one is set.
pub fn configured_crypto_passphrase(setting: ConfigValue) -> (result: Option<String>)
    ensures
        text_view(result) == setting.value(),
{
    read_config_value(setting)
}

/// The name under which the application is registered, and its key and secret.
#[derive(Debug, Clone, PartialEq, Eq)]
pub struct AppCredentials {
    pub app_key: String,
    pub app_secret: String,
    pub app_name: String,
}

/// Credentials as texts.
#[verifier::ext_equal]
pub struct AppCredentialsView {
    pub app_key: Seq<char>,
    pub app_secret: Seq<char>,
    pub app_name: Seq<char>,
}

impl View for AppCredentials {
    type V = AppCredentialsView;

    open spec fn view(&self) -> AppCredentialsView {
        AppCredentialsView {
            app_key: self.app_key@,
            app_secret: self.app_secret@,
            app_name: self.app_name@,
        }
    }
}

/// What the three settings make of the credentials.
pub open spec fn credentials_from(
    app_key: Option<Seq<char>>,
    app_secret: Option<Seq<char>>,
    app_name: Option<Seq<char>>,
) -> Result<AppCredentialsView, ErrorView> {
    match (app_key, app_secret, app_name) {
        (None, _, _) => Err(ErrorView::MissingEnv(APP_KEY_ENV@)),
        (_, None, _) => Err(ErrorView::MissingEnv(APP_SECRET_ENV@)),
        (_, _, None) => Err(ErrorView::MissingEnv(APP_NAME_ENV@)),
        (Some(app_key), Some(app_secret), Some(app_name)) => if app_name.contains('/') {
            Err(
                ErrorView::InvalidConfig(
                    APP_NAME_ENV@
                        + " must be the application name only, without path separators"@,
                ),
            )
        } else {
            Ok(AppCredentialsView { app_key, app_secret, app_name })
        },
    }
}

/// The directory that the application owns on the remote side.
pub open spec fn app_root_of(app_name: Seq<char>) -> Seq<char> {
    "/apps/"@ + app_name
}

/// A secret that may be shown: its first and last four characters, if there are more than eight.
pub open spec fn masked(value: Seq<char>) -> Seq<char> {
    if value.len() <= 8 {
        "****"@
    } else {
        value.subrange(0, 4) + "..."@ + value.subrange(value.len() - 4, value.len() as int)
    }
}

/// A secret that may be shown.
pub fn mask_secret(value: &str) -> (result: String)
    ensures
        result@ == masked(value@),
{
    let chars = chars_of(value);
    if chars.len() <= 8 {
        return "****".to_owned();
    }
    let mut result = text_of(&chars, 0, 4);
    result.append("...");
    result.append(text_of(&chars, chars.len() - 4, chars.len()).as_str());
    result
}

impl AppCredentials {
    /// Reads the credentials from their settings.
    pub fn from_env(app_key: ConfigValue, app_secret: ConfigValue, app_name: ConfigValue) -> (result:
        Result<AppCredentials, Error>)
        ensures
            outcome(result) == credentials_from(
                app_key.value(),
                app_secret.value(),
                app_name.value(),
            ),
    {
        let app_key = match read_config_value(app_key) {
            Some(value) => value,
            None => return Err(Error::MissingEnv(APP_KEY_ENV)),
        };
        let app_secret = match read_config_value(app_secret) {
            Some(value) => value,
            None => return Err(Error::MissingEnv(APP_SECRET_ENV)),
        };
        let app_name = match read_config_value(app_name) {
            Some(value) => value,
            None => return Err(Error::MissingEnv(APP_NAME_ENV)),
        };
        if has_char(app_name.as_str(), '/') {
            return Err(
                Error::InvalidConfig(
                    concat(
                        APP_NAME_ENV,
                        " must be the application name only, without path separators",
                    ),
                ),
            );
        }
        Ok(AppCredentials { app_key, app_secret, app_name })
    }

    /// The application key, masked.
    pub fn masked_app_key(&self) -> (result: String)
        ensures
            result@ == masked(self@.app_key),
    {
        mask_secret(self.app_key.as_str())
    }

    /// The directory that the application owns on the remote side.
    pub fn app_root(&self) -> (result: String)
        ensures
            result@ == app_root_of(self@.app_name),
    {
        concat("/apps/", self.app_name.as_str())
    }

    pub fn oauth_client_id(&self) -> (result: &str)
        ensures
            result@ == self@.app_key,
    {
        self.app_key.as_str()
    }

    pub fn oauth_client_secret(&self) -> (result: &str)
        ensures
            result@ == self@.app_secret,
    {
        self.app_secret.as_str()
    }
}

/// The token of the user, as it is kept between runs.
#[derive(Debug, Clone, PartialEq, Eq)]
pub struct StoredToken {
    pub access_token: String,
    pub refresh_token: String,
    pub expires_at: i64,
    pub scope: Option<String>,
}

impl StoredToken {
    /// Whether the token is no longer of use at `now`. It counts as expired a minute early.
    pub fn is_expired(&self, now: i64) -> (result: bool)
        requires
            now <= i64::MAX - 60,
        ensures
            result == (self.expires_at <= now + 60),
    {
        self.expires_at <= now + 60
    }
}

/// What is loaded where the file holds `stored`, or where there is no file.
pub open spec fn token_loaded(stored: Option<StoredToken>) -> Result<StoredToken, ErrorView> {
    match stored {
        Some(token) => Ok(token),
        None => Err(ErrorView::NotLoggedIn),
    }
}

/// The file that holds the token.
#[derive(Debug, Clone, PartialEq, Eq)]
pub struct TokenStore {
    path: LocalPath,
}

impl View for TokenStore {
    type V = Seq<u8>;

    closed spec fn view(&self) -> Seq<u8> {
        self.path@
    }
}

/// The steps that put `content` at `path`: it is written beside it and moved there when complete.
pub open spec fn replace_steps(path: Seq<u8>, content: Seq<u8>, private: bool) -> Seq<FileStepView> {
    let temp = with_extension(path, encode_utf8("json.tmp"@));
    let directory = match parent_of(path) {
        Some(parent) => seq![FileStepView::CreateDir(parent)],
        None => Seq::empty(),
    };
    let protect = if private {
        seq![FileStepView::Protect(temp)]
    } else {
        Seq::empty()
    };
    directory + seq![FileStepView::Write { path: temp, content }] + protect + seq![
        FileStepView::Rename { from: temp, to: path },
    ]
}

/// The steps that put `content` at `path`.
pub fn replace_file(path: &LocalPath, content: Vec<u8>, private: bool) -> (result: Vec<FileStep>)
    ensures
        step_views(result@) == replace_steps(path@, content@, private),
{
    let ghost written = content@;
    let temp = path.with_extension("json.tmp");
    let mut steps: Vec<FileStep> = Vec::new();
    if let Some(parent) = path.parent() {
        steps.push(FileStep::CreateDir(parent));
    }
    steps.push(FileStep::Write { path: temp.clone(), content });
    if private {
        steps.push(FileStep::Protect(temp.clone()));
    }
    steps.push(FileStep::Rename { from: temp, to: path.clone() });
    assert(step_views(steps@) =~= replace_steps(path@, written, private));
    steps
}

impl TokenStore {
    /// The store of the user whose configuration is in `config_dir`, if there is such a directory.
    pub fn for_current_user(config_dir: Option<LocalPath>) -> (result: Result<TokenStore, Error>)
        ensures
            match config_dir {
                Some(dir) => result matches Ok(store) && store@ == joined(
                    dir@,
                    encode_utf8("tokens.json"@),
                ),
                None => result matches Err(error) && error@ == ErrorView::ConfigDirUnavailable,
            },
    {
        match config_dir {
            Some(dir) => Ok(TokenStore::new(dir.join("tokens.json"))),
            None => Err(Error::ConfigDirUnavailable),
        }
    }

    pub fn new(path: LocalPath) -> (result: TokenStore)
        ensures
            result@ == path@,
    {
        TokenStore { path }
    }

    pub fn path(&self) -> (result: &LocalPath)
        ensures
            result@ == self@,
    {
        &self.path
    }

    /// The token that the file holds, or that nobody has logged in where there is no file.
    pub fn load(&self, stored: Option<StoredToken>) -> (result: Result<StoredToken, Error>)
        ensures
            match token_loaded(stored) {
                Ok(token) => result == Ok::<StoredToken, Error>(token),
                Err(reported) => result matches Err(error) && error@ == reported,
            },
    {
        match stored {
            Some(token) => Ok(token),
            None => Err(Error::NotLoggedIn),
        }
    }

    /// The steps that store a token, given its JSON.
    pub fn save(&self, json: Vec<u8>) -> (result: Vec<FileStep>)
        ensures
            step_views(result@) == replace_steps(self@, json@, true),
    {
        replace_file(&self.path, json, true)
    }

    /// The steps that forget the token.
    pub fn remove(&self) -> (result: Vec<FileStep>)
        ensures
            step_views(result@) == seq![FileStepView::RemoveIfPresent(self@)],
    {
        let mut steps: Vec<FileStep> = Vec::new();
        steps.push(FileStep::RemoveIfPresent(self.path.clone()));
        assert(step_views(steps@) =~= seq![FileStepView::RemoveIfPresent(self@)]);
        steps
    }
}

/// `SystemTime::elapsed` on the Unix epoch: whole seconds since then, or the text of the error where
/// the clock stands before it. Which of them the clock gives is not known.
#[verifier::external_body]
fn clock() -> (result: Result<u64, String>) {
    std::time::UNIX_EPOCH.elapsed().map(|d| d.as_secs()).map_err(|e| e.to_string())
}

/// A reading of the clock as a timestamp.
pub fn timestamp_of(reading: Result<u64, String>) -> (result: Result<i64, Error>)
    ensures
        match reading {
            Ok(seconds) => result == Ok::<i64, Error>(seconds as i64),
            Err(text) => result matches Err(error) && error@ == ErrorView::Time(text@),
        },
{
    match reading {
        Ok(seconds) => Ok(seconds as i64),
        Err(text) => Err(Error::Time(text)),
    }
}

/// The current time in seconds since the Unix epoch.
pub fn current_unix_timestamp() -> (result: Result<i64, Error>)
    ensures
        result matches Err(error) ==> error@ is Time,
{
    timestamp_of(clock())
}

} // verus!

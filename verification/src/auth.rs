//! Authorization by device code, and the tokens that come of it.
use vstd::prelude::*;

use crate::config::{AppCredentials, StoredToken};
use crate::error::{concat, error_message, outcome, Error, ErrorView};
use crate::http::{bare, HttpRequest, HttpRequestView, Method};
use crate::json::{json_document, JsonDocument, JsonDocumentView};
use crate::text::same_text;

verus! {

pub const DEVICE_CODE_URL: &'static str = "https://openapi.baidu.com/oauth/2.0/device/code";

pub const TOKEN_URL: &'static str = "https://openapi.baidu.com/oauth/2.0/token";

pub const OAUTH_SCOPE: &'static str = "basic,netdisk";

/// A device code, and how the user authorizes it.
#[derive(Debug, Clone, PartialEq, Eq)]
pub struct DeviceCodeResponse {
    pub device_code: String,
    pub user_code: String,
    pub verification_url: String,
    pub qrcode_url: String,
    pub expires_in: u64,
    pub interval: u64,
}

/// A token as the platform gives it out.
#[derive(Debug, Clone, PartialEq, Eq)]
pub struct TokenResponse {
    pub access_token: String,
    pub expires_in: i64,
    pub refresh_token: String,
    pub scope: Option<String>,
}

impl TokenResponse {
    /// The token as it is stored, where it was given out at `now`.
    pub fn into_stored_token(self, now: i64) -> (result: StoredToken)
        requires
            i64::MIN <= now + self.expires_in <= i64::MAX,
        ensures
            result == (StoredToken {
                access_token: self.access_token,
                refresh_token: self.refresh_token,
                expires_at: (now + self.expires_in) as i64,
                scope: self.scope,
            }),
    {
        StoredToken {
            access_token: self.access_token,
            refresh_token: self.refresh_token,
            expires_at: now + self.expires_in,
            scope: self.scope,
        }
    }
}

/// The OAuth endpoints of the open platform.
#[derive(Debug, Clone, Copy, PartialEq, Eq, Structural)]
pub struct OAuthClient;

impl OAuthClient {
    pub fn new() -> (result: Result<OAuthClient, Error>)
        ensures
            result == Ok::<OAuthClient, Error>(OAuthClient),
    {
        Ok(OAuthClient)
    }

    /// The request for a device code.
    pub fn request_device_code(&self, credentials: &AppCredentials) -> (result: HttpRequest)
        ensures
            result@ == (HttpRequestView {
                query: seq![
                    ("response_type"@, "device_code"@),
                    ("client_id"@, credentials@.app_key),
                    ("scope"@, OAUTH_SCOPE@),
                ],
                ..bare(Method::Get, DEVICE_CODE_URL@)
            }),
    {
        HttpRequest::new(Method::Get, DEVICE_CODE_URL).query("response_type", "device_code").query(
            "client_id",
            credentials.app_key.as_str(),
        ).query("scope", OAUTH_SCOPE)
    }

    /// The question whether the user has authorized a device code.
    pub fn poll_for_token(&self, credentials: &AppCredentials, device_code: &DeviceCodeResponse) -> (result:
        HttpRequest)
        ensures
            result@ == (HttpRequestView {
                query: seq![
                    ("grant_type"@, "device_token"@),
                    ("code"@, device_code.device_code@),
                    ("client_id"@, credentials@.app_key),
                    ("client_secret"@, credentials@.app_secret),
                ],
                ..bare(Method::Get, TOKEN_URL@)
            }),
    {
        HttpRequest::new(Method::Get, TOKEN_URL).query("grant_type", "device_token").query(
            "code",
            device_code.device_code.as_str(),
        ).query("client_id", credentials.app_key.as_str()).query(
            "client_secret",
            credentials.app_secret.as_str(),
        )
    }

    /// The request for a new token in place of an old one.
    pub fn refresh_token(&self, credentials: &AppCredentials, refresh_token: &str) -> (result:
        HttpRequest)
        ensures
            result@ == refresh_request(
                credentials@.app_key,
                credentials@.app_secret,
                refresh_token@,
            ),
    {
        HttpRequest::new(Method::Get, TOKEN_URL).query("grant_type", "refresh_token").query(
            "refresh_token",
            refresh_token,
        ).query("client_id", credentials.app_key.as_str()).query(
            "client_secret",
            credentials.app_secret.as_str(),
        )
    }
}

/// The request for a new token in place of an old one.
pub open spec fn refresh_request(
    app_key: Seq<char>,
    app_secret: Seq<char>,
    refresh_token: Seq<char>,
) -> HttpRequestView {
    HttpRequestView {
        query: seq![
            ("grant_type"@, "refresh_token"@),
            ("refresh_token"@, refresh_token),
            ("client_id"@, app_key),
            ("client_secret"@, app_secret),
        ],
        ..bare(Method::Get, TOKEN_URL@)
    }
}

/// What an answer with an error is reported as.
pub open spec fn oauth_error(payload: JsonDocumentView) -> ErrorView {
    let code = match payload.get_text("error"@) {
        Some(code) => code,
        None => "unknown_oauth_error"@,
    };
    let description = match payload.get_text("error_description"@) {
        Some(description) => description,
        None => "no description provided"@,
    };
    ErrorView::Api(code + ": "@ + description)
}

/// What an answer with an error is reported as.
pub fn oauth_value_error(payload: &JsonDocument) -> (result: Error)
    ensures
        result@ == oauth_error(payload@),
{
    let code = match payload.get_text("error") {
        Some(code) => code,
        None => "unknown_oauth_error",
    };
    let description = match payload.get_text("error_description") {
        Some(description) => description,
        None => "no description provided",
    };
    let mut text = concat(code, ": ");
    text.append(description);
    Error::Api(text)
}

/// What an answer comes to: success unless it has a member that says otherwise.
pub open spec fn oauth_payload_outcome(payload: JsonDocumentView) -> Result<(), ErrorView> {
    if payload.get("error"@) is Some {
        Err(oauth_error(payload))
    } else {
        Ok(())
    }
}

/// Whether an answer reports success.
pub fn check_oauth_payload(payload: &JsonDocument) -> (result: Result<(), Error>)
    ensures
        outcome(result) == oauth_payload_outcome(payload@),
{
    match payload.get("error") {
        Some(_) => Err(oauth_value_error(payload)),
        None => Ok(()),
    }
}

/// Whether the body of an answer reports success. One that is not JSON is a failure of the transport.
pub fn ensure_oauth_ok(body: &[u8]) -> (result: Result<(), Error>)
    ensures
        outcome(result) == (match json_document(body@) {
            Some(payload) => oauth_payload_outcome(payload),
            None => Err(ErrorView::Http("error decoding response body"@)),
        }),
{
    match JsonDocument::parse(body) {
        Some(payload) => check_oauth_payload(&payload),
        None => Err(Error::Http("error decoding response body".to_owned())),
    }
}

/// What to do after an answer to the question for a token.
#[derive(Debug, Clone, Copy, PartialEq, Eq, Structural)]
pub enum PollStep {
    /// Ask again after so many seconds.
    Wait(u64),
    /// The answer is the token.
    Granted,
}

/// The wait for an authorization: until when, and how long between two questions.
#[derive(Debug, Clone, Copy, PartialEq, Eq, Structural)]
pub struct DevicePoll {
    pub deadline: i64,
    pub interval: u64,
}

/// What an answer to the question for a token means, and how long to wait between two from then on.
pub open spec fn poll_outcome(interval: int, payload: JsonDocumentView) -> (
    Result<PollStep, ErrorView>,
    int,
) {
    match payload.get_text("error"@) {
        None => (Ok(PollStep::Granted), interval),
        Some(code) => if code == "authorization_pending"@ {
            (Ok(PollStep::Wait(interval as u64)), interval)
        } else if code == "slow_down"@ {
            (Ok(PollStep::Wait((interval + 5) as u64)), interval + 5)
        } else if code == "expired_token"@ || code == "code_expired"@ {
            (Err(ErrorView::Api("device code expired; run login again"@)), interval)
        } else if code == "authorization_declined"@ || code == "access_denied"@ {
            (Err(ErrorView::Api("authorization was denied by the user"@)), interval)
        } else {
            (Err(oauth_error(payload)), interval)
        },
    }
}

/// What a step or an error is, with the view of the error.
pub open spec fn poll_view(result: Result<PollStep, Error>) -> Result<PollStep, ErrorView> {
    match result {
        Ok(step) => Ok(step),
        Err(error) => Err(error@),
    }
}

impl DevicePoll {
    /// Starts to wait at `now`. Five seconds at least pass between two questions.
    pub fn new(now: i64, device_code: &DeviceCodeResponse) -> (result: DevicePoll)
        requires
            i64::MIN <= now + (device_code.expires_in as i64) <= i64::MAX,
        ensures
            result.deadline == now + (device_code.expires_in as i64),
            result.interval == poll_interval_of(device_code.interval),
    {
        DevicePoll {
            deadline: now + device_code.expires_in as i64,
            interval: poll_interval(device_code.interval),
        }
    }

    /// Whether there is still time to ask at `now`.
    pub fn check(&self, now: i64) -> (result: Result<(), Error>)
        ensures
            outcome(result) == (if now >= self.deadline {
                Err(
                    ErrorView::Api("device code expired before authorization completed"@),
                )
            } else {
                Ok(())
            }),
    {
        if now >= self.deadline {
            return Err(
                Error::Api("device code expired before authorization completed".to_owned()),
            );
        }
        Ok(())
    }

    /// Takes an answer to the question for a token.
    pub fn answer(&mut self, payload: &JsonDocument) -> (result: Result<PollStep, Error>)
        requires
            old(self).interval + 5 <= u64::MAX,
        ensures
            (poll_view(result), final(self).interval as int) == poll_outcome(
                old(self).interval as int,
                payload@,
            ),
            final(self).deadline == old(self).deadline,
    {
        let code = match payload.get_text("error") {
            Some(code) => code,
            None => return Ok(PollStep::Granted),
        };
        if same_text(code, "authorization_pending") {
            Ok(PollStep::Wait(self.interval))
        } else if same_text(code, "slow_down") {
            self.interval = self.interval + 5;
            Ok(PollStep::Wait(self.interval))
        } else if same_text(code, "expired_token") || same_text(code, "code_expired") {
            Err(Error::Api("device code expired; run login again".to_owned()))
        } else if same_text(code, "authorization_declined") || same_text(code, "access_denied") {
            Err(Error::Api("authorization was denied by the user".to_owned()))
        } else {
            Err(oauth_value_error(payload))
        }
    }

    /// Takes the body of an answer to the question for a token.
    pub fn answer_body(&mut self, body: &[u8]) -> (result: Result<PollStep, Error>)
        requires
            old(self).interval + 5 <= u64::MAX,
        ensures
            (poll_view(result), final(self).interval as int) == (match json_document(body@) {
                Some(payload) => poll_outcome(old(self).interval as int, payload),
                None => (
                    Err(ErrorView::Http("error decoding response body"@)),
                    old(self).interval as int,
                ),
            }),
            final(self).deadline == old(self).deadline,
    {
        match JsonDocument::parse(body) {
            Some(payload) => self.answer(&payload),
            None => Err(Error::Http("error decoding response body".to_owned())),
        }
    }
}

/// How many seconds pass between two questions.
pub open spec fn poll_interval_of(interval: u64) -> u64 {
    if interval < 5 {
        5
    } else {
        interval
    }
}

/// How many seconds pass between two questions, where the platform proposes `interval`.
pub fn poll_interval(interval: u64) -> (result: u64)
    ensures
        result == poll_interval_of(interval),
{
    if interval < 5 {
        5
    } else {
        interval
    }
}

/// A user is never asked for more often than every five seconds, and what the platform answers never
/// makes the questions come faster: the wait between two is at least what it was, and a wait that is
/// called for is that long.
pub proof fn law_poll_backs_off(proposed: u64, interval: int, payload: JsonDocumentView)
    requires
        0 <= interval <= u64::MAX - 5,
    ensures
        poll_interval_of(proposed) >= 5,
        poll_interval_of(proposed) >= proposed,
        poll_outcome(interval, payload).1 >= interval,
        poll_outcome(interval, payload).0 matches Ok(PollStep::Wait(seconds)) ==> seconds
            == poll_outcome(interval, payload).1,
{
}

/// The HTTP status that an error is answered with.
pub open spec fn status_of(error: ErrorView) -> u16 {
    match error {
        ErrorView::MissingEnv(_) => 400,
        ErrorView::InvalidConfig(_) => 400,
        ErrorView::InvalidRemotePath(_) => 400,
        ErrorView::NotLoggedIn => 401,
        ErrorView::Api(_) => 502,
        _ => 500,
    }
}

/// The HTTP status and text that an error is answered with.
pub fn map_handler_error(error: &Error) -> (result: (u16, String))
    ensures
        result.0 == status_of(error@),
        result.1@ == error_message(error@),
{
    let status: u16 = match error {
        Error::MissingEnv(_) => 400,
        Error::InvalidConfig(_) => 400,
        Error::InvalidRemotePath(_) => 400,
        Error::NotLoggedIn => 401,
        Error::Api(_) => 502,
        _ => 500,
    };
    (status, error.to_string())
}

} // verus!

//! What holds of credentials, of the authorization by a user, and of the token that comes of it.
use vstd::prelude::*;

use crate::api::{AccessPlan, PanClient};
use crate::auth::{
    check_oauth_payload, ensure_oauth_ok, oauth_value_error, poll_interval, DeviceCodeResponse,
    DevicePoll, OAuthClient, PollStep, TokenResponse,
};
use crate::config::{
    mask_secret, timestamp_of, AppCredentials, ConfigValue, StoredToken, TokenStore,
};
use crate::error::{Error, ErrorView};
use crate::files::{step_views, FileStep};
use crate::http::{HttpRequest, Method};
use crate::json::{json_document, JsonDocument, JsonScalarView};

verus! {

/// The credentials are the three settings, each in its role. The first that is missing is reported by
/// its name, and a name with a slash is refused.
pub proof fn law_credentials_are_the_settings(
    app_key: ConfigValue,
    app_secret: ConfigValue,
    app_name: ConfigValue,
    result: Result<AppCredentials, Error>,
)
    requires
        call_ensures(AppCredentials::from_env, (app_key, app_secret, app_name), result),
    ensures
        app_key.value() is None ==> result is Err && result->Err_0@ == ErrorView::MissingEnv(
            "BAIDUPAN_APP_KEY"@,
        ),
        app_key.value() is Some && app_secret.value() is None ==> result is Err && result->Err_0@
            == ErrorView::MissingEnv("BAIDUPAN_APP_SECRET"@),
        app_key.value() is Some && app_secret.value() is Some && app_name.value() is None
            ==> result is Err && result->Err_0@ == ErrorView::MissingEnv("BAIDUPAN_APP_NAME"@),
        app_key.value() is Some && app_secret.value() is Some && app_name.value() is Some ==> (
        if app_name.value()->0.contains('/') {
            result is Err && result->Err_0@ == ErrorView::InvalidConfig(
                "BAIDUPAN_APP_NAME"@
                    + " must be the application name only, without path separators"@,
            )
        } else {
            &&& result is Ok
            &&& result->Ok_0.app_key@ == app_key.value()->0
            &&& result->Ok_0.app_secret@ == app_secret.value()->0
            &&& result->Ok_0.app_name@ == app_name.value()->0
        }),
{
    if result is Ok {
        let view = result->Ok_0@;
        assert(view.app_key == app_key.value()->0);
    }
}

/// What is made of credentials: the directory of the application, and who the client is.
pub proof fn law_credentials_in_use(
    credentials: AppCredentials,
    root: String,
    id: &str,
    secret: &str,
    key: &str,
    masked: String,
    shown: String,
)
    requires
        key@ == credentials.app_key@,
        call_ensures(mask_secret, (key,), masked),
        call_ensures(AppCredentials::masked_app_key, (&credentials,), shown),
        call_ensures(AppCredentials::app_root, (&credentials,), root),
        call_ensures(AppCredentials::oauth_client_id, (&credentials,), id),
        call_ensures(AppCredentials::oauth_client_secret, (&credentials,), secret),
    ensures
        root@ == "/apps/"@ + credentials.app_name@,
        id@ == credentials.app_key@,
        secret@ == credentials.app_secret@,
        shown@ == masked@,
{
}

/// A device code is asked for in the name of the application, for its scope; whether the user has
/// authorized it is asked with the code and both parts of the credentials; and a token is renewed with
/// the token for that and both parts of the credentials.
pub proof fn law_requests_for_tokens(
    client: OAuthClient,
    credentials: AppCredentials,
    device_code: DeviceCodeResponse,
    refresh_token: &str,
    code: HttpRequest,
    poll: HttpRequest,
    refresh: HttpRequest,
)
    requires
        call_ensures(OAuthClient::request_device_code, (&client, &credentials), code),
        call_ensures(OAuthClient::poll_for_token, (&client, &credentials, &device_code), poll),
        call_ensures(OAuthClient::refresh_token, (&client, &credentials, refresh_token), refresh),
    ensures
        code@.method == Method::Get && poll@.method == Method::Get && refresh@.method == Method::Get,
        code@.url == "https://openapi.baidu.com/oauth/2.0/device/code"@,
        poll@.url == "https://openapi.baidu.com/oauth/2.0/token"@,
        refresh@.url == "https://openapi.baidu.com/oauth/2.0/token"@,
        code@.query == seq![
            ("response_type"@, "device_code"@),
            ("client_id"@, credentials.app_key@),
            ("scope"@, "basic,netdisk"@),
        ],
        poll@.query == seq![
            ("grant_type"@, "device_token"@),
            ("code"@, device_code.device_code@),
            ("client_id"@, credentials.app_key@),
            ("client_secret"@, credentials.app_secret@),
        ],
        refresh@.query == seq![
            ("grant_type"@, "refresh_token"@),
            ("refresh_token"@, refresh_token@),
            ("client_id"@, credentials.app_key@),
            ("client_secret"@, credentials.app_secret@),
        ],
        code@.form.len() == 0 && poll@.form.len() == 0 && refresh@.form.len() == 0,
        code@.range is None && poll@.range is None && refresh@.range is None,
{
}

/// A token is stored as it was given out, with the moment at which it expires.
pub proof fn law_token_is_stored_as_given(response: TokenResponse, now: i64, token: StoredToken)
    requires
        call_ensures(TokenResponse::into_stored_token, (response, now), token),
        i64::MIN <= now + response.expires_in <= i64::MAX,
    ensures
        token.access_token == response.access_token,
        token.refresh_token == response.refresh_token,
        token.expires_at - now == response.expires_in,
        token.scope == response.scope,
{
}

/// A token is used as long as it is good for more than another minute; after that a new one is asked
/// for, with the token for that and in the name of the application.
pub proof fn law_token_is_renewed_in_time(
    client: PanClient,
    token: StoredToken,
    now: i64,
    expired: bool,
    plan: AccessPlan,
)
    requires
        now <= i64::MAX - 60,
        call_ensures(StoredToken::is_expired, (&token, now), expired),
        call_ensures(PanClient::ensure_access_token, (&client, &token, now), plan),
    ensures
        expired <==> token.expires_at - now <= 60,
        !expired ==> (plan matches AccessPlan::Use(access_token) && access_token@
            == token.access_token@),
        expired ==> (plan matches AccessPlan::Refresh(request) && request@.query == seq![
            ("grant_type"@, "refresh_token"@),
            ("refresh_token"@, token.refresh_token@),
            ("client_id"@, client.credentials.app_key@),
            ("client_secret"@, client.credentials.app_secret@),
        ] && request@.url == "https://openapi.baidu.com/oauth/2.0/token"@),
{
}

/// A token that a refresh brings is used at once and stored as `save` stores it; a refresh that fails
/// is reported, and nothing is done to the stored token.
pub proof fn law_refreshed_token_is_used_and_stored(
    client: PanClient,
    refresh: Result<(StoredToken, Vec<u8>), Error>,
    saved: Vec<FileStep>,
    result: (Result<String, Error>, Vec<FileStep>),
)
    requires
        call_ensures(PanClient::refreshed, (&client, refresh), result),
        refresh matches Ok((_, json)) ==> call_ensures(
            TokenStore::save,
            (&client.token_store, json),
            saved,
        ),
    ensures
        match refresh {
            Ok((token, _)) => {
                &&& result.0 is Ok
                &&& result.0->Ok_0@ == token.access_token@
                &&& step_views(result.1@) == step_views(saved@)
            },
            Err(error) => {
                &&& result.0 is Err
                &&& result.0->Err_0@ == error@
                &&& result.1@.len() == 0
            },
        },
{
    assert(step_views(result.1@).len() == result.1@.len());
}

/// A stored token is loaded as it is; without one nobody is logged in.
pub proof fn law_stored_token_is_loaded(
    store: TokenStore,
    token: StoredToken,
    loaded: Result<StoredToken, Error>,
    missing: Result<StoredToken, Error>,
)
    requires
        call_ensures(TokenStore::load, (&store, Some(token)), loaded),
        call_ensures(TokenStore::load, (&store, None), missing),
    ensures
        loaded is Ok && loaded->Ok_0 == token,
        missing is Err && missing->Err_0@ == ErrorView::NotLoggedIn,
{
}

/// The user has as long as the code is valid, and is asked for every five seconds at most.
pub proof fn law_wait_for_the_user(
    now: i64,
    later: i64,
    device_code: DeviceCodeResponse,
    poll: DevicePoll,
    interval: u64,
    check: Result<(), Error>,
)
    requires
        call_ensures(DevicePoll::new, (now, &device_code), poll),
        call_ensures(DevicePoll::check, (&poll, later), check),
        call_ensures(poll_interval, (device_code.interval,), interval),
        device_code.expires_in <= i64::MAX,
        now + device_code.expires_in <= i64::MAX,
    ensures
        check is Ok <==> later - now < device_code.expires_in,
        check matches Err(error) ==> error@ == ErrorView::Api(
            "device code expired before authorization completed"@,
        ),
        poll.interval == interval,
        device_code.interval >= 5 ==> interval == device_code.interval,
        device_code.interval < 5 ==> interval == 5,
{
}

/// What an answer says about the authorization: without an error it is granted; while it is pending
/// the question is repeated, more slowly where the platform asks for that; any other error ends the
/// wait.
pub proof fn law_answers_on_the_authorization(
    poll: &mut DevicePoll,
    payload: JsonDocument,
    reported: Error,
    result: Result<PollStep, Error>,
)
    requires
        call_ensures(DevicePoll::answer, (poll, &payload), result),
        call_ensures(oauth_value_error, (&payload,), reported),
        old(poll).interval + 5 <= u64::MAX,
    ensures
        final(poll).deadline == old(poll).deadline,
        match payload@.get("error"@) {
            Some(JsonScalarView::Text(code)) => {
                &&& code == "authorization_pending"@ ==> result is Ok && result->Ok_0
                    == PollStep::Wait(old(poll).interval) && final(poll).interval == old(
                    poll,
                ).interval
                &&& code == "slow_down"@ ==> result is Ok && result->Ok_0 == PollStep::Wait(
                    (old(poll).interval + 5) as u64,
                ) && final(poll).interval == old(poll).interval + 5
                &&& code == "expired_token"@ || code == "code_expired"@ ==> result is Err
                    && result->Err_0@ == ErrorView::Api("device code expired; run login again"@)
                &&& code == "authorization_declined"@ || code == "access_denied"@ ==> result is Err
                    && result->Err_0@ == ErrorView::Api("authorization was denied by the user"@)
                &&& ![
                    "authorization_pending"@,
                    "slow_down"@,
                    "expired_token"@,
                    "code_expired"@,
                    "authorization_declined"@,
                    "access_denied"@,
                ]@.contains(code) ==> result is Err && result->Err_0@ == reported@
            },
            _ => result is Ok && result->Ok_0 == PollStep::Granted,
        },
{
    let codes = [
        "authorization_pending"@,
        "slow_down"@,
        "expired_token"@,
        "code_expired"@,
        "authorization_declined"@,
        "access_denied"@,
    ]@;
    assert(codes[0] == "authorization_pending"@);
    assert(codes[1] == "slow_down"@);
    assert(codes[2] == "expired_token"@);
    assert(codes[3] == "code_expired"@);
    assert(codes[4] == "authorization_declined"@);
    assert(codes[5] == "access_denied"@);
    reveal_strlit("authorization_pending");
    reveal_strlit("slow_down");
    reveal_strlit("expired_token");
    reveal_strlit("code_expired");
    reveal_strlit("authorization_declined");
    reveal_strlit("access_denied");
    assert("expired_token"@[0] == 'e' && "slow_down"@[0] == 's' && "code_expired"@[0] == 'c');
    assert("authorization_pending"@[14] == 'p' && "authorization_declined"@[14] == 'd');
    assert("access_denied"@.len() == 13);
    assert("authorization_pending"@.len() == 21);
    assert("authorization_declined"@.len() == 22);
}

/// The body of an answer says what the document in it says; one that is not JSON ends the wait.
pub proof fn law_answers_on_the_wire(
    read: &mut DevicePoll,
    payload: JsonDocument,
    step: Result<PollStep, Error>,
    poll: &mut DevicePoll,
    body: &[u8],
    result: Result<PollStep, Error>,
)
    requires
        call_ensures(DevicePoll::answer, (read, &payload), step),
        call_ensures(DevicePoll::answer_body, (poll, body), result),
        *old(read) == *old(poll),
        old(poll).interval + 5 <= u64::MAX,
    ensures
        json_document(body@) == Some(payload@) ==> final(poll).interval == final(read).interval
            && final(poll).deadline == final(read).deadline && (match (result, step) {
            (Ok(ours), Ok(theirs)) => ours == theirs,
            (Err(ours), Err(theirs)) => ours@ == theirs@,
            _ => false,
        }),
        json_document(body@) is None ==> result is Err && result->Err_0@ == ErrorView::Http(
            "error decoding response body"@,
        ) && final(poll).interval == old(poll).interval && final(poll).deadline
            == old(poll).deadline,
{
}

/// An answer with a member `error` is a failure, reported as its code and description; any other is a
/// success. One that is not JSON is a failure of the transport.
pub proof fn law_oauth_failures(
    payload: JsonDocument,
    reported: Error,
    result: Result<(), Error>,
    body: &[u8],
    answer: Result<(), Error>,
)
    requires
        call_ensures(check_oauth_payload, (&payload,), result),
        call_ensures(oauth_value_error, (&payload,), reported),
        call_ensures(ensure_oauth_ok, (body,), answer),
    ensures
        result is Err <==> payload@.get("error"@) is Some,
        result matches Err(error) ==> error@ == reported@,
        reported@ == ErrorView::Api(
            (match payload@.get("error"@) {
                Some(JsonScalarView::Text(code)) => code,
                _ => "unknown_oauth_error"@,
            }) + ": "@ + (match payload@.get("error_description"@) {
                Some(JsonScalarView::Text(description)) => description,
                _ => "no description provided"@,
            }),
        ),
        json_document(body@) is None ==> answer is Err && answer->Err_0@ == ErrorView::Http(
            "error decoding response body"@,
        ),
        json_document(body@) == Some(payload@) ==> (answer is Ok <==> result is Ok) && (
        answer is Err ==> answer->Err_0@ == reported@),
{
}

/// A timestamp is the reading of the clock, and a clock that cannot be read is reported.
pub proof fn law_timestamp_is_the_reading(reading: Result<u64, String>, result: Result<i64, Error>)
    requires
        call_ensures(timestamp_of, (reading,), result),
    ensures
        match reading {
            Ok(seconds) => result is Ok && (seconds <= i64::MAX ==> result->Ok_0 == seconds),
            Err(text) => result is Err && result->Err_0@ == ErrorView::Time(text@),
        },
{
}

} // verus!

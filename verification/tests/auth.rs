use baidupan_cli::auth::{
    check_oauth_payload, ensure_oauth_ok, map_handler_error, oauth_value_error, poll_interval,
    DeviceCodeResponse, DevicePoll, OAuthClient, PollStep, TokenResponse,
};
use baidupan_cli::config::AppCredentials;
use baidupan_cli::error::Error;
use baidupan_cli::json::JsonDocument;

fn credentials() -> AppCredentials {
    AppCredentials {
        app_key: "key".to_string(),
        app_secret: "secret".to_string(),
        app_name: "demo-app".to_string(),
    }
}

fn device_code(expires_in: u64, interval: u64) -> DeviceCodeResponse {
    DeviceCodeResponse {
        device_code: "device".to_string(),
        user_code: "user".to_string(),
        verification_url: "https://example.com/verify".to_string(),
        qrcode_url: "https://example.com/qr".to_string(),
        expires_in,
        interval,
    }
}

#[test]
fn asks_for_device_codes_and_tokens() {
    let oauth = OAuthClient::new().expect("client");
    let request = oauth.request_device_code(&credentials());
    assert_eq!(request.url, "https://openapi.baidu.com/oauth/2.0/device/code");
    assert_eq!(request.query[2], ("scope".to_string(), "basic,netdisk".to_string()));
    assert_eq!(request.query[1], ("client_id".to_string(), "key".to_string()));
    let request = oauth.poll_for_token(&credentials(), &device_code(300, 5));
    assert_eq!(request.query[0], ("grant_type".to_string(), "device_token".to_string()));
    assert_eq!(request.query[1], ("code".to_string(), "device".to_string()));
    assert_eq!(request.query[3], ("client_secret".to_string(), "secret".to_string()));
    let request = oauth.refresh_token(&credentials(), "old");
    assert_eq!(request.query[1], ("refresh_token".to_string(), "old".to_string()));
}

#[test]
fn waits_between_questions() {
    let mut poll = DevicePoll::new(1000, &device_code(300, 2));
    assert_eq!(poll.interval, 5);
    assert_eq!(poll.deadline, 1300);
    assert_eq!(
        poll.answer_body(br#"{"error":"authorization_pending"}"#),
        Ok(PollStep::Wait(5))
    );
    assert_eq!(poll.answer_body(br#"{"error":"slow_down"}"#), Ok(PollStep::Wait(10)));
    assert_eq!(
        poll.answer_body(br#"{"error":"authorization_pending"}"#),
        Ok(PollStep::Wait(10))
    );
    assert_eq!(poll.answer_body(br#"{"access_token":"a"}"#), Ok(PollStep::Granted));
    assert_eq!(poll_interval(9), 9);
}

#[test]
fn stops_at_the_deadline() {
    let poll = DevicePoll::new(1000, &device_code(300, 5));
    assert_eq!(poll.check(1299), Ok(()));
    assert_eq!(
        poll.check(1300),
        Err(Error::Api("device code expired before authorization completed".to_string()))
    );
}

#[test]
fn reports_refused_authorization() {
    let mut poll = DevicePoll::new(0, &device_code(300, 5));
    for body in [r#"{"error":"expired_token"}"#, r#"{"error":"code_expired"}"#] {
        assert_eq!(
            poll.answer_body(body.as_bytes()),
            Err(Error::Api("device code expired; run login again".to_string()))
        );
    }
    for body in [r#"{"error":"authorization_declined"}"#, r#"{"error":"access_denied"}"#] {
        assert_eq!(
            poll.answer_body(body.as_bytes()),
            Err(Error::Api("authorization was denied by the user".to_string()))
        );
    }
    assert_eq!(
        poll.answer_body(br#"{"error":"odd","error_description":"why"}"#),
        Err(Error::Api("odd: why".to_string()))
    );
    assert_eq!(
        poll.answer_body(b"?"),
        Err(Error::Http("error decoding response body".to_string()))
    );
    assert_eq!(poll.interval, 5);
}

#[test]
fn reports_oauth_errors() {
    let payload = JsonDocument::parse(br#"{"error":null}"#).expect("json");
    assert_eq!(
        check_oauth_payload(&payload),
        Err(Error::Api("unknown_oauth_error: no description provided".to_string()))
    );
    assert_eq!(
        oauth_value_error(&JsonDocument::parse(b"{}").expect("json")),
        Error::Api("unknown_oauth_error: no description provided".to_string())
    );
    assert_eq!(ensure_oauth_ok(br#"{"access_token":"a"}"#), Ok(()));
    assert_eq!(
        ensure_oauth_ok(br#"{"error":"invalid_grant","error_description":"used"}"#),
        Err(Error::Api("invalid_grant: used".to_string()))
    );
    assert_eq!(
        ensure_oauth_ok(b""),
        Err(Error::Http("error decoding response body".to_string()))
    );
}

#[test]
fn stores_when_a_token_runs_out() {
    let token = TokenResponse {
        access_token: "a".to_string(),
        expires_in: 2592000,
        refresh_token: "r".to_string(),
        scope: Some("basic netdisk".to_string()),
    }
    .into_stored_token(1000);
    assert_eq!(token.expires_at, 2593000);
    assert_eq!(token.scope.as_deref(), Some("basic netdisk"));
    assert!(!token.is_expired(1000));
}

#[test]
fn maps_errors_to_statuses() {
    assert_eq!(
        map_handler_error(&Error::MissingEnv("BAIDUPAN_APP_KEY")),
        (400, "missing environment variable BAIDUPAN_APP_KEY".to_string())
    );
    assert_eq!(map_handler_error(&Error::InvalidConfig("x".to_string())).0, 400);
    assert_eq!(map_handler_error(&Error::InvalidRemotePath("x".to_string())).0, 400);
    assert_eq!(map_handler_error(&Error::NotLoggedIn).0, 401);
    assert_eq!(
        map_handler_error(&Error::Api("x".to_string())),
        (502, "API error: x".to_string())
    );
    assert_eq!(map_handler_error(&Error::Time("x".to_string())).0, 500);
}

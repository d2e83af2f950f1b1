use evilcorp_secondpilot::http::{Method, TOKEN_URL, TOKEN_USER_AGENT};
use evilcorp_secondpilot::json::parse_json;
use evilcorp_secondpilot::{
    ClientError, EvilcorpSecondPilotClient, SessionToken, TokenResponse, TokenStep,
};

fn token_body(token: &str, expires_at: i64) -> String {
    format!("{{\"token\":\"{}\",\"expires_at\":{}}}", token, expires_at)
}

fn bare_response(token: &str, expires_at: i64) -> TokenResponse {
    TokenResponse {
        chat_enabled: None,
        code_quote_enabled: None,
        copilotignore_enabled: None,
        expires_at,
        public_suggestions: None,
        refresh_in: None,
        sku: None,
        telemetry: None,
        token: token.to_string(),
        tracking_id: None,
    }
}

#[test]
fn new_client_holds_the_credential_and_no_token() {
    let client = EvilcorpSecondPilotClient::new("secret".to_string());
    assert_eq!(client.credential, "secret");
    assert_eq!(client.session, None);
}

#[test]
fn new_client_asks_for_a_fetch_at_any_time() {
    let client = EvilcorpSecondPilotClient::new("secret".to_string());
    assert_eq!(client.token_step(0), TokenStep::Fetch);
    assert_eq!(client.token_step(i64::MIN), TokenStep::Fetch);
    assert_eq!(client.token_step(i64::MAX), TokenStep::Fetch);
    assert_eq!(client.token_step(1_700_000_000), TokenStep::Fetch);
}

#[test]
fn fetched_token_is_returned_and_then_reused() {
    let mut client = EvilcorpSecondPilotClient::new("secret".to_string());
    let now = 1_700_000_000;
    assert_eq!(client.token_step(now), TokenStep::Fetch);
    let response = client.get_token(200, &token_body("T", now + 1500)).unwrap();
    assert_eq!(client.store_token(response), "T");
    assert_eq!(client.token_step(now), TokenStep::Ready("T".to_string()));
    assert_eq!(client.token_step(now), TokenStep::Ready("T".to_string()));
    assert_eq!(client.credential, "secret");
}

#[test]
fn token_is_valid_up_to_and_at_its_expiry() {
    let mut client = EvilcorpSecondPilotClient::new("secret".to_string());
    client.store_token(bare_response("T", 1000));
    assert_eq!(client.token_step(999), TokenStep::Ready("T".to_string()));
    assert_eq!(client.token_step(1000), TokenStep::Ready("T".to_string()));
    assert_eq!(client.token_step(1001), TokenStep::Fetch);
    assert_eq!(client.token_step(i64::MIN), TokenStep::Ready("T".to_string()));
}

#[test]
fn expired_token_is_fetched_again_and_replaced_whole() {
    let mut client = EvilcorpSecondPilotClient::new("secret".to_string());
    client.store_token(bare_response("old", 1000));
    assert_eq!(client.token_step(2000), TokenStep::Fetch);
    let fetched = client.get_token(200, &token_body("new", 3000)).unwrap();
    assert_eq!(
        client.session,
        Some(SessionToken { token: "old".to_string(), expires_at: 1000 })
    );
    assert_eq!(client.store_token(fetched), "new");
    assert_eq!(
        client.session,
        Some(SessionToken { token: "new".to_string(), expires_at: 3000 })
    );
    assert_eq!(client.credential, "secret");
    assert_eq!(client.token_step(2000), TokenStep::Ready("new".to_string()));
    assert_eq!(client.token_step(3001), TokenStep::Fetch);
}

#[test]
fn stored_token_that_is_already_expired_is_still_handed_out_by_the_store() {
    let mut client = EvilcorpSecondPilotClient::new("secret".to_string());
    assert_eq!(client.store_token(bare_response("stale", -5)), "stale");
    assert_eq!(client.token_step(0), TokenStep::Fetch);
    assert_eq!(client.token_step(-5), TokenStep::Ready("stale".to_string()));
}

#[test]
fn clock_decides_between_fetch_and_reuse() {
    let mut client = EvilcorpSecondPilotClient::new("secret".to_string());
    assert_eq!(client.get_or_refresh_token(), TokenStep::Fetch);
    client.store_token(bare_response("long", i64::MAX));
    assert_eq!(client.get_or_refresh_token(), TokenStep::Ready("long".to_string()));
    client.store_token(bare_response("past", 1));
    assert_eq!(client.get_or_refresh_token(), TokenStep::Fetch);
}

#[test]
fn token_request_carries_the_credential() {
    let client = EvilcorpSecondPilotClient::new("secret".to_string());
    let head = client.token_request();
    assert_eq!(head.method, Method::Get);
    assert_eq!(head.url, "https://api.github.com/copilot_internal/v2/token");
    assert_eq!(head.url, TOKEN_URL);
    assert_eq!(head.user_agent, "GithubCopilot/3.99.99");
    assert_eq!(head.user_agent, TOKEN_USER_AGENT);
    assert_eq!(head.authorization, "Bearer secret");
}

#[test]
fn token_request_keeps_the_credential_after_a_refresh() {
    let mut client = EvilcorpSecondPilotClient::new("secret".to_string());
    client.store_token(bare_response("session", 10));
    assert_eq!(client.token_request().authorization, "Bearer secret");
}

#[test]
fn full_token_reply_is_decoded() {
    let body = "{\"chat_enabled\":true,\"code_quote_enabled\":false,\
        \"copilotignore_enabled\":false,\"expires_at\":1700001500,\
        \"public_suggestions\":\"disabled\",\"refresh_in\":1500,\"sku\":\"monthly\",\
        \"telemetry\":\"enabled\",\"token\":\"tid=1;exp=1700001500\",\"tracking_id\":\"abc\"}";
    let client = EvilcorpSecondPilotClient::new("secret".to_string());
    let expected = TokenResponse {
        chat_enabled: Some(true),
        code_quote_enabled: Some(false),
        copilotignore_enabled: Some(false),
        expires_at: 1_700_001_500,
        public_suggestions: Some("disabled".to_string()),
        refresh_in: Some(1500),
        sku: Some("monthly".to_string()),
        telemetry: Some("enabled".to_string()),
        token: "tid=1;exp=1700001500".to_string(),
        tracking_id: Some("abc".to_string()),
    };
    assert_eq!(client.get_token(200, body), Ok(expected));
}

#[test]
fn token_and_expiry_are_enough() {
    let client = EvilcorpSecondPilotClient::new("secret".to_string());
    assert_eq!(client.get_token(200, &token_body("T", 42)), Ok(bare_response("T", 42)));
    assert_eq!(client.get_token(201, &token_body("T", -42)), Ok(bare_response("T", -42)));
}

#[test]
fn fields_of_another_type_are_left_out() {
    let client = EvilcorpSecondPilotClient::new("secret".to_string());
    let body = "{\"token\":\"T\",\"expires_at\":7,\"sku\":3,\"chat_enabled\":\"yes\",\
        \"refresh_in\":1.5,\"tracking_id\":null,\"unknown\":[1,2]}";
    assert_eq!(client.get_token(200, body), Ok(bare_response("T", 7)));
}

#[test]
fn refused_token_reply_is_an_auth_error() {
    let client = EvilcorpSecondPilotClient::new("secret".to_string());
    let body = token_body("T", 42);
    assert_eq!(client.get_token(401, &body), Err(ClientError::Auth));
    assert_eq!(client.get_token(403, &body), Err(ClientError::Auth));
    assert_eq!(client.get_token(500, &body), Err(ClientError::Auth));
    assert_eq!(client.get_token(199, &body), Err(ClientError::Auth));
    assert_eq!(client.get_token(300, &body), Err(ClientError::Auth));
}

#[test]
fn undecodable_token_reply_is_an_auth_error() {
    let client = EvilcorpSecondPilotClient::new("secret".to_string());
    assert_eq!(client.get_token(200, ""), Err(ClientError::Auth));
    assert_eq!(client.get_token(200, "not json"), Err(ClientError::Auth));
    assert_eq!(client.get_token(200, "[]"), Err(ClientError::Auth));
    assert_eq!(client.get_token(200, "{}"), Err(ClientError::Auth));
    assert_eq!(client.get_token(200, "{\"token\":\"T\"}"), Err(ClientError::Auth));
    assert_eq!(client.get_token(200, "{\"expires_at\":1}"), Err(ClientError::Auth));
    assert_eq!(client.get_token(200, "{\"token\":1,\"expires_at\":1}"), Err(ClientError::Auth));
    assert_eq!(
        client.get_token(200, "{\"token\":\"T\",\"expires_at\":\"1\"}"),
        Err(ClientError::Auth)
    );
    assert_eq!(
        client.get_token(200, "{\"token\":\"T\",\"expires_at\":1.5}"),
        Err(ClientError::Auth)
    );
    assert_eq!(
        client.get_token(200, "{\"token\":\"T\",\"expires_at\":9223372036854775808}"),
        Err(ClientError::Auth)
    );
    assert_eq!(
        client.get_token(200, "{\"token\":\"T\",\"expires_at\":1} {}"),
        Err(ClientError::Auth)
    );
}

#[test]
fn largest_expiry_is_decoded() {
    let client = EvilcorpSecondPilotClient::new("secret".to_string());
    assert_eq!(
        client.get_token(200, "{\"token\":\"T\",\"expires_at\":9223372036854775807}"),
        Ok(bare_response("T", i64::MAX))
    );
    assert_eq!(
        client.get_token(200, "{\"token\":\"T\",\"expires_at\":-9223372036854775808}"),
        Ok(bare_response("T", i64::MIN))
    );
}

#[test]
fn reply_is_decided_from_status_and_document() {
    let doc = parse_json(&token_body("T", 5));
    assert_eq!(TokenResponse::from_reply(200, doc), Ok(bare_response("T", 5)));
    assert_eq!(
        TokenResponse::from_reply(404, parse_json(&token_body("T", 5))),
        Err(ClientError::Auth)
    );
    assert_eq!(TokenResponse::from_reply(200, None), Err(ClientError::Auth));
    assert_eq!(TokenResponse::from_reply(200, parse_json("{}")), Err(ClientError::Auth));
}

use evilcorp_secondpilot::http::{
    bearer, completion_request, status_is_success, token_request, Method, COMPLETION_URL,
    COMPLETION_USER_AGENT,
};
use evilcorp_secondpilot::request::DEFAULT_TEMPERATURE;
use evilcorp_secondpilot::{
    CompletionRequest, CompletionRequestBuilder, EvilcorpSecondPilotClient, Message,
};

fn message(role: &str, content: &str) -> Message {
    Message { content: content.to_string(), role: role.to_string() }
}

#[test]
fn default_request_has_the_documented_defaults() {
    let request = CompletionRequest::default();
    assert!(!request.stream);
    assert!(!request.intent);
    assert!(request.messages.is_empty());
    assert_eq!(request.model, "idk");
    assert_eq!(request.temperature, DEFAULT_TEMPERATURE);
    assert_eq!(f32::from_bits(request.temperature), 0.1f32);
    assert_eq!(request.top_p, 1);
    assert_eq!(request.n, 1);
}

#[test]
fn new_builder_builds_the_default_request() {
    assert_eq!(CompletionRequestBuilder::new().build(), CompletionRequest::default());
}

#[test]
fn builder_sets_each_field_and_keeps_the_others() {
    let built = CompletionRequestBuilder::new().with_stream(true).build();
    assert_eq!(built, CompletionRequest { stream: true, ..CompletionRequest::default() });
    let built = CompletionRequestBuilder::new().with_intent(true).build();
    assert_eq!(built, CompletionRequest { intent: true, ..CompletionRequest::default() });
    let built = CompletionRequestBuilder::new().with_model("gpt".to_string()).build();
    assert_eq!(built, CompletionRequest { model: "gpt".to_string(), ..CompletionRequest::default() });
    let built = CompletionRequestBuilder::new().with_temperature(0.7f32.to_bits()).build();
    assert_eq!(
        built,
        CompletionRequest { temperature: 0.7f32.to_bits(), ..CompletionRequest::default() }
    );
    assert_eq!(f32::from_bits(built.temperature), 0.7f32);
    let built = CompletionRequestBuilder::new().with_top_p(3).build();
    assert_eq!(built, CompletionRequest { top_p: 3, ..CompletionRequest::default() });
    let built = CompletionRequestBuilder::new().with_n(-2).build();
    assert_eq!(built, CompletionRequest { n: -2, ..CompletionRequest::default() });
}

#[test]
fn builder_adds_messages_in_order() {
    let built = CompletionRequestBuilder::new()
        .add_message(message("system", "be brief"))
        .add_message(message("user", "hi"))
        .build();
    assert_eq!(built.messages, vec![message("system", "be brief"), message("user", "hi")]);
    assert_eq!(built.model, "idk");
}

#[test]
fn builder_replaces_messages() {
    let built = CompletionRequestBuilder::new()
        .add_message(message("user", "dropped"))
        .with_messages(vec![message("assistant", "kept")])
        .with_stream(true)
        .add_message(message("user", "added"))
        .build();
    assert_eq!(built.messages, vec![message("assistant", "kept"), message("user", "added")]);
    assert!(built.stream);
}

#[test]
fn later_setting_wins() {
    let built = CompletionRequestBuilder::new().with_n(2).with_n(5).with_top_p(9).build();
    assert_eq!(built.n, 5);
    assert_eq!(built.top_p, 9);
}

#[test]
fn simple_query_holds_one_user_message() {
    let client = EvilcorpSecondPilotClient::new("secret".to_string());
    let request = client.query_simple("What is Rust?");
    assert_eq!(
        request,
        CompletionRequest {
            messages: vec![message("user", "What is Rust?")],
            ..CompletionRequest::default()
        }
    );
    assert_eq!(client.query_simple("").messages, vec![message("user", "")]);
    assert_eq!(CompletionRequest::from_user_message("x"), client.query_simple("x"));
}

#[test]
fn completion_request_carries_the_session_token() {
    let head = completion_request("session");
    assert_eq!(head.method, Method::Post);
    assert_eq!(head.url, "https://copilot-proxy.githubusercontent.com/v1/chat/completions");
    assert_eq!(head.url, COMPLETION_URL);
    assert_eq!(head.user_agent, "GithubCopilot/1.86.92");
    assert_eq!(head.user_agent, COMPLETION_USER_AGENT);
    assert_eq!(head.authorization, "Bearer session");
}

#[test]
fn token_request_is_a_get() {
    let head = token_request("c");
    assert_eq!(head.method, Method::Get);
    assert_eq!(head.authorization, "Bearer c");
}

#[test]
fn bearer_value_is_the_secret_after_the_scheme() {
    assert_eq!(bearer("abc"), "Bearer abc");
    assert_eq!(bearer(""), "Bearer ");
    assert_eq!(bearer("a b"), "Bearer a b");
}

#[test]
fn success_statuses_are_200_to_299() {
    assert!(status_is_success(200));
    assert!(status_is_success(250));
    assert!(status_is_success(299));
    assert!(!status_is_success(199));
    assert!(!status_is_success(300));
    assert!(!status_is_success(0));
    assert!(!status_is_success(404));
    assert!(!status_is_success(u16::MAX));
}

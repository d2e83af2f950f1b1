//! The HTTP side of the two exchanges, as plain values: which request to
//! send, and which status counts as a success.

use vstd::prelude::*;

verus! {

/// Where a credential is exchanged for a session token.
pub const TOKEN_URL: &'static str = "https://api.github.com/copilot_internal/v2/token";

/// Where completions are requested.
pub const COMPLETION_URL: &'static str =
    "https://copilot-proxy.githubusercontent.com/v1/chat/completions";

/// How the client names itself to the token endpoint.
pub const TOKEN_USER_AGENT: &'static str = "GithubCopilot/3.99.99";

/// How the client names itself to the completion endpoint.
pub const COMPLETION_USER_AGENT: &'static str = "GithubCopilot/1.86.92";

/// The request method.
#[derive(Clone, Copy, Debug, PartialEq, Eq, Structural)]
pub enum Method {
    Get,
    Post,
}

/// The head of a request: everything but the body.
#[derive(Debug, PartialEq, Eq)]
pub struct RequestHead {
    pub method: Method,
    pub url: String,
    pub user_agent: String,
    pub authorization: String,
}

/// The mathematical value of a [`RequestHead`].
pub struct RequestHeadModel {
    pub method: Method,
    pub url: Seq<char>,
    pub user_agent: Seq<char>,
    pub authorization: Seq<char>,
}

impl View for RequestHead {
    type V = RequestHeadModel;

    open spec fn view(&self) -> RequestHeadModel {
        RequestHeadModel {
            method: self.method,
            url: self.url@,
            user_agent: self.user_agent@,
            authorization: self.authorization@,
        }
    }
}

/// Whether a status code reports success: the codes from 200 to 299.
pub open spec fn is_success(status: u16) -> bool {
    200 <= status <= 299
}

/// Whether a status code reports success.
pub fn status_is_success(status: u16) -> (r: bool)
    ensures
        r == is_success(status),
{
    200 <= status && status <= 299
}

/// The value of an authorization header that carries a bearer secret.
pub open spec fn bearer_of(secret: Seq<char>) -> Seq<char> {
    "Bearer "@ + secret
}

/// The value of an authorization header that carries a bearer secret.
pub fn bearer(secret: &str) -> (r: String)
    ensures
        r@ == bearer_of(secret@),
{
    let mut value = "Bearer ".to_owned();
    value.append(secret);
    value
}

/// The request that exchanges a credential for a session token: a `GET`
/// that carries the credential as a bearer secret.
pub open spec fn token_request_of(credential: Seq<char>) -> RequestHeadModel {
    RequestHeadModel {
        method: Method::Get,
        url: TOKEN_URL@,
        user_agent: TOKEN_USER_AGENT@,
        authorization: bearer_of(credential),
    }
}

/// The request that asks for a completion: a `POST` that carries the
/// session token as a bearer secret.
pub open spec fn completion_request_of(token: Seq<char>) -> RequestHeadModel {
    RequestHeadModel {
        method: Method::Post,
        url: COMPLETION_URL@,
        user_agent: COMPLETION_USER_AGENT@,
        authorization: bearer_of(token),
    }
}

/// The request that exchanges a credential for a session token.
pub fn token_request(credential: &str) -> (r: RequestHead)
    ensures
        r@ == token_request_of(credential@),
{
    RequestHead {
        method: Method::Get,
        url: TOKEN_URL.to_owned(),
        user_agent: TOKEN_USER_AGENT.to_owned(),
        authorization: bearer(credential),
    }
}

/// The request that asks for a completion under a session token.
pub fn completion_request(token: &str) -> (r: RequestHead)
    ensures
        r@ == completion_request_of(token@),
{
    RequestHead {
        method: Method::Post,
        url: COMPLETION_URL.to_owned(),
        user_agent: COMPLETION_USER_AGENT.to_owned(),
        authorization: bearer(token),
    }
}

} // verus!

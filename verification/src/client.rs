//! The client: a credential, the session token that was last exchanged for
//! it, and the decisions of the two exchanges.
//!
//! A session token is handed out as long as it has not expired. Its expiry
//! is compared with strict less-than: a token that expires at the very
//! second of the call is still handed out.

use crate::error::ClientError;
use crate::http::{status_is_success, token_request, token_request_of, RequestHead};
use crate::json::{json_of_text, parse_json};
use crate::request::CompletionRequest;
use crate::response::{reply_view, token_reply, TokenResponse};
use crate::stream::{answer_view, assemble, chunks_view, response_answer};
use vstd::prelude::*;

verus! {

/// A session token with its expiry.
#[derive(Debug, PartialEq, Eq)]
pub struct SessionToken {
    pub token: String,
    /// When the token expires, in seconds since the Unix epoch.
    pub expires_at: i64,
}

/// The client. It owns its token cache; nothing else holds a part of it.
#[derive(Debug, PartialEq, Eq)]
pub struct EvilcorpSecondPilotClient {
    /// The long-lived credential. It never changes.
    pub credential: String,
    /// The session token that was last stored, with its expiry. Both are
    /// replaced together.
    pub session: Option<SessionToken>,
}

/// The state of a client, as a mathematical value.
pub struct ClientModel {
    pub credential: Seq<char>,
    /// The cached session token and its expiry.
    pub session: Option<(Seq<char>, i64)>,
}

/// What a client does when a session token is asked for.
#[derive(Debug, PartialEq, Eq)]
pub enum TokenStep {
    /// The cached token is valid: use it, no request is made.
    Ready(String),
    /// There is no valid token: one has to be fetched and stored.
    Fetch,
}

/// The mathematical value of a [`TokenStep`].
pub enum TokenStepModel {
    Ready(Seq<char>),
    Fetch,
}

impl View for TokenStep {
    type V = TokenStepModel;

    open spec fn view(&self) -> TokenStepModel {
        match self {
            TokenStep::Ready(token) => TokenStepModel::Ready(token@),
            TokenStep::Fetch => TokenStepModel::Fetch,
        }
    }
}

impl View for EvilcorpSecondPilotClient {
    type V = ClientModel;

    open spec fn view(&self) -> ClientModel {
        ClientModel {
            credential: self.credential@,
            session: match self.session {
                Some(session) => Some((session.token@, session.expires_at)),
                None => None,
            },
        }
    }
}

impl ClientModel {
    /// A client that has not fetched a token yet.
    pub open spec fn fresh(credential: Seq<char>) -> ClientModel {
        ClientModel { credential, session: None }
    }

    /// Whether there is no token to hand out at time `now`: none was ever
    /// stored, or the stored one expired before `now`.
    pub open spec fn is_expired(self, now: i64) -> bool {
        match self.session {
            Some((_, expires_at)) => expires_at < now,
            None => true,
        }
    }

    /// What the client does at time `now`: it asks for a fetch where
    /// there is no token to hand out, and hands out the cached token
    /// where there is.
    pub open spec fn step(self, now: i64) -> TokenStepModel {
        match self.session {
            Some((token, _)) => if self.is_expired(now) {
                TokenStepModel::Fetch
            } else {
                TokenStepModel::Ready(token)
            },
            None => TokenStepModel::Fetch,
        }
    }

    /// The client after a fetched token was stored: token and expiry are
    /// replaced together, the credential stays.
    pub open spec fn store(self, token: Seq<char>, expires_at: i64) -> ClientModel {
        ClientModel { credential: self.credential, session: Some((token, expires_at)) }
    }
}

/// A client that has stored a token hands it out, without a fetch, at
/// every time up to and including the token's expiry. A client that never
/// stored one asks for a fetch.
pub proof fn law_stored_token_is_reused(
    client: ClientModel,
    token: Seq<char>,
    expires_at: i64,
    now: i64,
)
    requires
        now <= expires_at,
    ensures
        ClientModel::fresh(client.credential).step(now) == TokenStepModel::Fetch,
        client.store(token, expires_at).step(now) == TokenStepModel::Ready(token),
{
}

/// Once the stored token has expired, the client asks for one fetch, and
/// the token that is then stored replaces token and expiry together.
pub proof fn law_expired_token_is_replaced(
    client: ClientModel,
    token: Seq<char>,
    expires_at: i64,
    now: i64,
    fetched: Seq<char>,
    fetched_expires_at: i64,
)
    requires
        expires_at < now,
    ensures
        client.store(token, expires_at).step(now) == TokenStepModel::Fetch,
        client.store(token, expires_at).store(fetched, fetched_expires_at) == (ClientModel {
            credential: client.credential,
            session: Some((fetched, fetched_expires_at)),
        }),
{
}

/// `chrono::Utc::now` and `chrono::DateTime::timestamp`: the time of the
/// system clock, in whole seconds since the Unix epoch. Nothing is promised
/// of the value. The call panics where the clock stands before the epoch.
#[verifier::external_body]
fn unix_time_now() -> i64 {
    chrono::Utc::now().timestamp()
}

impl EvilcorpSecondPilotClient {
    /// A client for a credential, with no session token yet.
    pub fn new(token: String) -> (r: EvilcorpSecondPilotClient)
        ensures
            r@ == ClientModel::fresh(token@),
    {
        EvilcorpSecondPilotClient { credential: token, session: None }
    }

    /// What the client does at time `now`, in seconds since the Unix epoch:
    /// it hands out the cached token, or asks for a fetch.
    pub fn token_step(&self, now: i64) -> (r: TokenStep)
        ensures
            r@ == self@.step(now),
    {
        match &self.session {
            Some(session) => if session.expires_at < now {
                TokenStep::Fetch
            } else {
                TokenStep::Ready(session.token.clone())
            },
            None => TokenStep::Fetch,
        }
    }

    /// What the client does now, by the system clock. The caller performs a
    /// [`TokenStep::Fetch`]: it sends [`Self::token_request`], hands the
    /// reply to [`Self::get_token`] and the result to [`Self::store_token`].
    pub fn get_or_refresh_token(&self) -> (r: TokenStep)
        ensures
            exists|now: i64| r@ == self@.step(now),
    {
        let now = unix_time_now();
        let step = self.token_step(now);
        assert(step@ == self@.step(now));
        step
    }

    /// The request that fetches a session token for the credential.
    pub fn token_request(&self) -> (r: RequestHead)
        ensures
            r@ == token_request_of(self@.credential),
    {
        token_request(self.credential.as_str())
    }

    /// Decides what the reply to [`Self::token_request`] means, from its
    /// status and body. The client is left as it is.
    pub fn get_token(&self, status: u16, body: &str) -> (r: Result<TokenResponse, ClientError>)
        ensures
            reply_view(r) == token_reply(status, json_of_text(body@)),
    {
        if !status_is_success(status) {
            return Err(ClientError::Auth);
        }
        TokenResponse::from_reply(status, parse_json(body))
    }

    /// Stores a fetched token, in place of the one that was cached, and
    /// hands it out.
    pub fn store_token(&mut self, response: TokenResponse) -> (token: String)
        ensures
            final(self)@ == old(self)@.store(response@.token, response@.expires_at),
            token@ == response@.token,
    {
        let token = response.token.clone();
        self.session = Some(SessionToken { token: response.token, expires_at: response.expires_at });
        token
    }

    /// The request that holds one message of the user, with default
    /// parameters.
    pub fn query_simple(&self, message: &str) -> (r: CompletionRequest)
        ensures
            r.has_default_parameters(),
            r.messages@.len() == 1,
            r.messages@[0].content@ == message@,
            r.messages@[0].role@ == "user"@,
    {
        CompletionRequest::from_user_message(message)
    }

    /// The answer that the reply to a completion request holds, from its
    /// status and the chunks of its body in the order of their arrival.
    pub fn query(&self, status: u16, chunks: &Vec<Vec<u8>>) -> (r: Result<String, ClientError>)
        ensures
            answer_view(r) == response_answer(status, chunks_view(chunks@)),
    {
        assemble(status, chunks)
    }
}

} // verus!

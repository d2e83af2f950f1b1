//! What the service answers: the token description and the streamed
//! completion envelope, each read from a JSON document.

use crate::error::ClientError;
use crate::http::{is_success, status_is_success};
use crate::json::{document_view, text_view, Json, JsonModel};
use vstd::prelude::*;

verus! {

/// What the token endpoint answers. The session token and its expiry are
/// always there; the rest is handed on as far as the reply holds it.
#[derive(Debug, PartialEq, Eq)]
pub struct TokenResponse {
    pub chat_enabled: Option<bool>,
    pub code_quote_enabled: Option<bool>,
    pub copilotignore_enabled: Option<bool>,
    /// When the token expires, in seconds since the Unix epoch.
    pub expires_at: i64,
    pub public_suggestions: Option<String>,
    pub refresh_in: Option<i64>,
    pub sku: Option<String>,
    pub telemetry: Option<String>,
    /// The session token.
    pub token: String,
    pub tracking_id: Option<String>,
}

/// The mathematical value of a [`TokenResponse`].
pub struct TokenResponseModel {
    pub chat_enabled: Option<bool>,
    pub code_quote_enabled: Option<bool>,
    pub copilotignore_enabled: Option<bool>,
    pub expires_at: i64,
    pub public_suggestions: Option<Seq<char>>,
    pub refresh_in: Option<i64>,
    pub sku: Option<Seq<char>>,
    pub telemetry: Option<Seq<char>>,
    pub token: Seq<char>,
    pub tracking_id: Option<Seq<char>>,
}

impl View for TokenResponse {
    type V = TokenResponseModel;

    open spec fn view(&self) -> TokenResponseModel {
        TokenResponseModel {
            chat_enabled: self.chat_enabled,
            code_quote_enabled: self.code_quote_enabled,
            copilotignore_enabled: self.copilotignore_enabled,
            expires_at: self.expires_at,
            public_suggestions: text_view(self.public_suggestions),
            refresh_in: self.refresh_in,
            sku: text_view(self.sku),
            telemetry: text_view(self.telemetry),
            token: self.token@,
            tracking_id: text_view(self.tracking_id),
        }
    }
}

/// The token description that a document holds. There is one exactly when
/// the document is an object with a string `token` and an integer
/// `expires_at`; every other field is taken where it is there with its type.
pub open spec fn token_of_json(doc: JsonModel) -> Option<TokenResponseModel> {
    match (doc.text_at("token"@), doc.integer_at("expires_at"@)) {
        (Some(token), Some(expires_at)) => Some(
            TokenResponseModel {
                chat_enabled: doc.flag_at("chat_enabled"@),
                code_quote_enabled: doc.flag_at("code_quote_enabled"@),
                copilotignore_enabled: doc.flag_at("copilotignore_enabled"@),
                expires_at,
                public_suggestions: doc.text_at("public_suggestions"@),
                refresh_in: doc.integer_at("refresh_in"@),
                sku: doc.text_at("sku"@),
                telemetry: doc.text_at("telemetry"@),
                token,
                tracking_id: doc.text_at("tracking_id"@),
            },
        ),
        _ => None,
    }
}

impl TokenResponse {
    /// Reads a token description from a document.
    pub fn from_json(doc: &Json) -> (r: Option<TokenResponse>)
        ensures
            match r {
                Some(t) => token_of_json(doc@) == Some(t@),
                None => token_of_json(doc@) is None,
            },
    {
        let token = match doc.text_at("token") {
            Some(token) => token,
            None => {
                return None;
            },
        };
        let expires_at = match doc.integer_at("expires_at") {
            Some(expires_at) => expires_at,
            None => {
                return None;
            },
        };
        Some(
            TokenResponse {
                chat_enabled: doc.flag_at("chat_enabled"),
                code_quote_enabled: doc.flag_at("code_quote_enabled"),
                copilotignore_enabled: doc.flag_at("copilotignore_enabled"),
                expires_at,
                public_suggestions: doc.text_at("public_suggestions"),
                refresh_in: doc.integer_at("refresh_in"),
                sku: doc.text_at("sku"),
                telemetry: doc.text_at("telemetry"),
                token,
                tracking_id: doc.text_at("tracking_id"),
            },
        )
    }
}

/// What the reply of the token endpoint means, given the document that its
/// body was parsed to: a token description, where the status is a success
/// and the document holds one. Everything else is an authentication error.
pub open spec fn token_reply(status: u16, parsed: Option<JsonModel>) -> Result<
    TokenResponseModel,
    ClientError,
> {
    if is_success(status) {
        match parsed {
            Some(doc) => match token_of_json(doc) {
                Some(token) => Ok(token),
                None => Err(ClientError::Auth),
            },
            None => Err(ClientError::Auth),
        }
    } else {
        Err(ClientError::Auth)
    }
}

/// The value of a decoded reply.
pub open spec fn reply_view(reply: Result<TokenResponse, ClientError>) -> Result<
    TokenResponseModel,
    ClientError,
> {
    match reply {
        Ok(token) => Ok(token@),
        Err(error) => Err(error),
    }
}

impl TokenResponse {
    /// Decides what the reply of the token endpoint means, from its status
    /// and the document that its body was parsed to.
    pub fn from_reply(status: u16, parsed: Option<Json>) -> (r: Result<TokenResponse, ClientError>)
        ensures
            reply_view(r) == token_reply(status, document_view(parsed)),
    {
        if !status_is_success(status) {
            return Err(ClientError::Auth);
        }
        match parsed {
            Some(doc) => match TokenResponse::from_json(&doc) {
                Some(token) => Ok(token),
                None => Err(ClientError::Auth),
            },
            None => Err(ClientError::Auth),
        }
    }
}

/// The content carried by one streamed choice.
#[derive(Debug, PartialEq, Eq)]
pub struct Delta {
    pub content: String,
}

/// One choice of a streamed record.
#[derive(Debug, PartialEq, Eq)]
pub struct Choice {
    pub delta: Delta,
}

/// The envelope of one streamed record: its choices, in order.
#[derive(Debug, PartialEq, Eq)]
pub struct CompletionResponse {
    pub choices: Vec<Choice>,
}

impl View for Delta {
    type V = Seq<char>;

    open spec fn view(&self) -> Seq<char> {
        self.content@
    }
}

impl View for Choice {
    type V = Seq<char>;

    open spec fn view(&self) -> Seq<char> {
        self.delta@
    }
}

impl View for CompletionResponse {
    /// The content of each choice, in order.
    type V = Seq<Seq<char>>;

    open spec fn view(&self) -> Seq<Seq<char>> {
        Seq::new(self.choices@.len(), |i: int| self.choices@[i]@)
    }
}

/// The content of a choice: the string `content` of its object `delta`.
pub open spec fn choice_content(choice: JsonModel) -> Option<Seq<char>> {
    match choice.member("delta"@) {
        Some(delta) => delta.text_at("content"@),
        None => None,
    }
}

/// The envelope that a document holds: the contents of the elements of its
/// array `choices`. There is none unless every element is a choice.
pub open spec fn completion_of_json(doc: JsonModel) -> Option<Seq<Seq<char>>> {
    match doc.member("choices"@) {
        Some(list) => match list.items() {
            Some(items) => if forall|i: int|
                0 <= i < items.len() ==> (#[trigger] choice_content(items[i])) is Some {
                Some(Seq::new(items.len(), |i: int| choice_content(items[i])->0))
            } else {
                None
            },
            None => None,
        },
        None => None,
    }
}

/// What an envelope adds to the answer: the content of its first choice,
/// and nothing when it has no choice.
pub open spec fn envelope_fragment(contents: Seq<Seq<char>>) -> Seq<char> {
    if contents.len() == 0 {
        Seq::empty()
    } else {
        contents[0]
    }
}

impl Choice {
    /// Reads a choice from a document.
    pub fn from_json(doc: &Json) -> (r: Option<Choice>)
        ensures
            match r {
                Some(c) => choice_content(doc@) == Some(c@),
                None => choice_content(doc@) is None,
            },
    {
        match doc.member("delta") {
            Some(delta) => match delta.member("content") {
                Some(content) => match content.as_text() {
                    Some(text) => Some(Choice { delta: Delta { content: text.clone() } }),
                    None => None,
                },
                None => None,
            },
            None => None,
        }
    }
}

impl CompletionResponse {
    /// Reads an envelope from a document.
    pub fn from_json(doc: &Json) -> (r: Option<CompletionResponse>)
        ensures
            match r {
                Some(c) => completion_of_json(doc@) == Some(c@),
                None => completion_of_json(doc@) is None,
            },
    {
        let list = match doc.member("choices") {
            Some(list) => list,
            None => {
                return None;
            },
        };
        let items = match list.as_items() {
            Some(items) => items,
            None => {
                return None;
            },
        };
        let ghost models = list@->Array_0;
        let mut choices: Vec<Choice> = Vec::new();
        let mut i: usize = 0;
        while i < items.len()
            invariant
                i <= items@.len(),
                doc@.member("choices"@) == Some(JsonModel::Array(models)),
                models.len() == items@.len(),
                forall|k: int| 0 <= k < items@.len() ==> models[k] == items@[k]@,
                choices@.len() == i,
                forall|k: int| 0 <= k < i ==> choice_content(models[k]) == Some(choices@[k]@),
            decreases items@.len() - i,
        {
            match Choice::from_json(&items[i]) {
                Some(choice) => {
                    choices.push(choice);
                },
                None => {
                    assert(choice_content(models[i as int]) is None);
                    return None;
                },
            }
            i += 1;
        }
        let response = CompletionResponse { choices };
        assert(response@ =~= Seq::new(models.len(), |k: int| choice_content(models[k])->0));
        Some(response)
    }

    /// What this envelope adds to the answer.
    pub fn fragment(&self) -> (text: &str)
        ensures
            text@ == envelope_fragment(self@),
    {
        if self.choices.len() == 0 {
            proof {
                reveal_strlit("");
            }
            ""
        } else {
            self.choices[0].delta.content.as_str()
        }
    }
}

} // verus!

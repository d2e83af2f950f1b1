//! What the client sends: the completion request, its builder, and the
//! head of each HTTP request.

use vstd::prelude::*;

verus! {

/// The sampling temperature of a request that names none: the bits of the
/// single-precision number nearest to 0.1.
pub const DEFAULT_TEMPERATURE: u32 = 0x3DCC_CCCD;

/// One message of a conversation.
#[derive(Debug, PartialEq, Eq)]
pub struct Message {
    pub content: String,
    /// Who speaks: `user`, `system`, `assistant`, or what the service takes.
    pub role: String,
}

/// The payload of a completion request.
#[derive(Debug, PartialEq, Eq)]
pub struct CompletionRequest {
    pub stream: bool,
    pub intent: bool,
    pub messages: Vec<Message>,
    pub model: String,
    /// The sampling temperature, as the bits of a single-precision number.
    pub temperature: u32,
    pub top_p: i32,
    pub n: i32,
}

impl CompletionRequest {
    /// Whether every parameter but the messages has its default: no
    /// streaming, no intent, model `idk`, temperature 0.1, `top_p` 1, `n` 1.
    pub open spec fn has_default_parameters(&self) -> bool {
        &&& !self.stream
        &&& !self.intent
        &&& self.model@ == "idk"@
        &&& self.temperature == DEFAULT_TEMPERATURE
        &&& self.top_p == 1
        &&& self.n == 1
    }

    /// The request with default parameters that holds one message of the
    /// user.
    pub fn from_user_message(message: &str) -> (r: CompletionRequest)
        ensures
            r.has_default_parameters(),
            r.messages@.len() == 1,
            r.messages@[0].content@ == message@,
            r.messages@[0].role@ == "user"@,
    {
        let mut request = CompletionRequest::default();
        request.messages.push(Message { content: message.to_owned(), role: "user".to_owned() });
        request
    }
}

impl Default for CompletionRequest {
    fn default() -> (r: CompletionRequest)
        ensures
            r.has_default_parameters(),
            r.messages@.len() == 0,
    {
        CompletionRequest {
            stream: false,
            intent: false,
            messages: Vec::new(),
            model: "idk".to_owned(),
            temperature: DEFAULT_TEMPERATURE,
            top_p: 1,
            n: 1,
        }
    }
}

/// Builds a [`CompletionRequest`] field by field, starting from the
/// defaults.
pub struct CompletionRequestBuilder {
    request: CompletionRequest,
}

impl View for CompletionRequestBuilder {
    /// The request as built so far.
    type V = CompletionRequest;

    closed spec fn view(&self) -> CompletionRequest {
        self.request
    }
}

impl CompletionRequestBuilder {
    pub fn new() -> (r: CompletionRequestBuilder)
        ensures
            r@.has_default_parameters(),
            r@.messages@.len() == 0,
    {
        CompletionRequestBuilder { request: CompletionRequest::default() }
    }

    pub fn with_stream(self, stream: bool) -> (r: CompletionRequestBuilder)
        ensures
            r@ == (CompletionRequest { stream, ..self@ }),
    {
        let mut builder = self;
        builder.request.stream = stream;
        builder
    }

    pub fn with_intent(self, intent: bool) -> (r: CompletionRequestBuilder)
        ensures
            r@ == (CompletionRequest { intent, ..self@ }),
    {
        let mut builder = self;
        builder.request.intent = intent;
        builder
    }

    pub fn with_model(self, model: String) -> (r: CompletionRequestBuilder)
        ensures
            r@ == (CompletionRequest { model, ..self@ }),
    {
        let mut builder = self;
        builder.request.model = model;
        builder
    }

    /// Sets the sampling temperature, given as the bits of a
    /// single-precision number.
    pub fn with_temperature(self, temperature: u32) -> (r: CompletionRequestBuilder)
        ensures
            r@ == (CompletionRequest { temperature, ..self@ }),
    {
        let mut builder = self;
        builder.request.temperature = temperature;
        builder
    }

    pub fn with_top_p(self, top_p: i32) -> (r: CompletionRequestBuilder)
        ensures
            r@ == (CompletionRequest { top_p, ..self@ }),
    {
        let mut builder = self;
        builder.request.top_p = top_p;
        builder
    }

    pub fn with_n(self, n: i32) -> (r: CompletionRequestBuilder)
        ensures
            r@ == (CompletionRequest { n, ..self@ }),
    {
        let mut builder = self;
        builder.request.n = n;
        builder
    }

    /// Adds a message after those that are there.
    pub fn add_message(self, message: Message) -> (r: CompletionRequestBuilder)
        ensures
            r@ == (CompletionRequest { messages: r@.messages, ..self@ }),
            r@.messages@ == self@.messages@.push(message),
    {
        let mut builder = self;
        builder.request.messages.push(message);
        builder
    }

    /// Replaces the messages.
    pub fn with_messages(self, messages: Vec<Message>) -> (r: CompletionRequestBuilder)
        ensures
            r@ == (CompletionRequest { messages, ..self@ }),
    {
        let mut builder = self;
        builder.request.messages = messages;
        builder
    }

    /// The request as built.
    pub fn build(self) -> (r: CompletionRequest)
        ensures
            r == self@,
    {
        self.request
    }
}

} // verus!

//! The chat-completion data that the tool exchanges with OpenAI.

use vstd::prelude::*;
use crate::err::{Error, Oops};

verus! {

/// The credentials and model used for every request.
pub struct OpenAI {
    pub auth_header: String,
    pub model: Model,
}

/// The models a request can name.
#[derive(Debug, Clone, Copy, PartialEq, Eq, Structural)]
pub enum Model {
    Gpt4oMini,
    Gpt4o,
}

impl Default for Model {
    fn default() -> (r: Self)
        ensures
            r == Model::Gpt4oMini,
    {
        Model::Gpt4oMini
    }
}

/// The name a model goes by on the wire.
pub open spec fn model_name(m: Model) -> Seq<char> {
    match m {
        Model::Gpt4oMini => "gpt-4o-mini"@,
        Model::Gpt4o => "gpt-4o"@,
    }
}

impl Model {
    /// The name this model goes by on the wire.
    pub fn as_str(&self) -> (r: &'static str)
        ensures
            r@ == model_name(*self),
    {
        match self {
            Model::Gpt4oMini => "gpt-4o-mini",
            Model::Gpt4o => "gpt-4o",
        }
    }
}

/// Who wrote a message.
#[derive(Debug, Clone, Copy, PartialEq, Eq, Structural)]
pub enum Role {
    System,
    User,
    Assistant,
}

impl Default for Role {
    fn default() -> (r: Self)
        ensures
            r == Role::User,
    {
        Role::User
    }
}

/// How a role is shown to the user.
pub open spec fn role_label(r: Role) -> Seq<char> {
    match r {
        Role::User => "user"@,
        Role::System => "system"@,
        Role::Assistant => "llm"@,
    }
}

/// The name a role goes by on the wire.
pub open spec fn role_name(r: Role) -> Seq<char> {
    match r {
        Role::User => "user"@,
        Role::System => "system"@,
        Role::Assistant => "assistant"@,
    }
}

impl Role {
    /// How this role is shown to the user.
    pub fn label(&self) -> (r: &'static str)
        ensures
            r@ == role_label(*self),
    {
        match self {
            Role::User => "user",
            Role::System => "system",
            Role::Assistant => "llm",
        }
    }

    /// The name this role goes by on the wire.
    pub fn as_str(&self) -> (r: &'static str)
        ensures
            r@ == role_name(*self),
    {
        match self {
            Role::User => "user",
            Role::System => "system",
            Role::Assistant => "assistant",
        }
    }
}

/// One message of a conversation: a well-formed one holds either content
/// or a refusal.
pub struct Message {
    pub role: Role,
    pub content: Option<String>,
    pub refusal: Option<String>,
}

/// What a message says: an answer, or the refusal to give one.
pub enum Content<'a> {
    Normal(&'a str),
    Refusal(&'a str),
}

impl Message {
    /// A message from `role` with `content`.
    pub fn new(role: Role, content: String) -> (r: Self)
        ensures
            r.role == role,
            r.content == Some(content),
            r.refusal is None,
    {
        Message { role, content: Some(content), refusal: None }
    }

    /// What the message says; a message with both content and a refusal, or
    /// with neither, breaks the protocol.
    pub fn parse(&self) -> (r: Result<Content<'_>, Error>)
        ensures
            (self.content, self.refusal) matches (Some(c), None) ==> (r matches Ok(
                Content::Normal(s),
            ) && s@ == c@),
            (self.content, self.refusal) matches (None, Some(f)) ==> (r matches Ok(
                Content::Refusal(s),
            ) && s@ == f@),
            (self.content is Some && self.refusal is Some) ==> (r matches Err(e) && e@ == seq![
                (Oops::OpenAIContentAndRefusal, None::<Seq<char>>),
            ]),
            (self.content is None && self.refusal is None) ==> (r matches Err(e) && e@ == seq![
                (Oops::OpenAIEmptyContent, None::<Seq<char>>),
            ]),
    {
        match (&self.content, &self.refusal) {
            (Some(_), Some(_)) => Err(Error::new().wrap(Oops::OpenAIContentAndRefusal)),
            (Some(content), None) => Ok(Content::Normal(content.as_str())),
            (None, Some(refusal)) => Ok(Content::Refusal(refusal.as_str())),
            (None, None) => Err(Error::new().wrap(Oops::OpenAIEmptyContent)),
        }
    }
}

/// Why the engine stopped writing.
#[derive(Debug, Clone, Copy, PartialEq, Eq, Structural)]
pub enum FinishReason {
    Length,
    Stop,
}

/// One of the answers in a response.
pub struct Choice {
    pub message: Message,
    pub finish_reason: FinishReason,
}

/// The engine's response to a request.
pub struct CompletionResponse {
    pub choices: Vec<Choice>,
}

impl CompletionResponse {
    /// Accepts a response that has a choice, at least one of which stopped of
    /// its own accord.
    pub fn validate(self) -> (r: Result<Self, Error>)
        ensures
            self.choices@.len() == 0 ==> (r matches Err(e) && e@ == seq![
                (Oops::OpenAIEmptyChoices, None::<Seq<char>>),
            ]),
            (self.choices@.len() > 0 && forall|i: int|
                0 <= i < self.choices@.len() ==> #[trigger] self.choices@[i].finish_reason
                    != FinishReason::Stop) ==> (r matches Err(e) && e@.len() == 1 && e@[0].0
                == Oops::OpenAIBadFinishReason && e@[0].1 is Some),
            (exists|i: int|
                0 <= i < self.choices@.len() && #[trigger] self.choices@[i].finish_reason
                    == FinishReason::Stop) ==> r == Ok::<Self, Error>(self),
    {
        if self.choices.len() == 0 {
            return Err(Error::new().wrap(Oops::OpenAIEmptyChoices));
        }
        let mut i: usize = 0;
        while i < self.choices.len()
            invariant
                i <= self.choices@.len(),
                forall|k: int| 0 <= k < i ==> #[trigger] self.choices@[k].finish_reason != FinishReason::Stop,
            decreases self.choices@.len() - i,
        {
            if self.choices[i].finish_reason == FinishReason::Stop {
                return Ok(self);
            }
            i = i + 1;
        }
        Err(
            Error::new().wrap(Oops::OpenAIBadFinishReason).because(
                "Finish reason was \"Length\" instead of \"stop\"".to_owned(),
            ),
        )
    }
}

/// How the engine is asked to shape its answer.
pub enum ResponseFormat {
    Text,
    JsonSchema { json_schema: serde_json::Value },
}

impl Default for ResponseFormat {
    fn default() -> (r: Self)
        ensures
            r is Text,
    {
        ResponseFormat::Text
    }
}

/// The options of a request beyond its messages.
pub struct PayloadOpts {
    pub response_format: ResponseFormat,
}

impl Default for PayloadOpts {
    fn default() -> (r: Self)
        ensures
            r.response_format is Text,
    {
        PayloadOpts { response_format: ResponseFormat::Text }
    }
}

/// A chat-completion request.
pub struct CompletionPayload {
    pub messages: Vec<Message>,
    pub response_format: ResponseFormat,
    pub model: Model,
}

impl CompletionPayload {
    /// A request for the client's model with the given messages and options.
    pub fn new(open_ai: &OpenAI, messages: Vec<Message>, opts: PayloadOpts) -> (r: Self)
        ensures
            r.messages == messages,
            r.model == open_ai.model,
            r.response_format == opts.response_format,
    {
        CompletionPayload { messages, model: open_ai.model, response_format: opts.response_format }
    }
}

impl OpenAI {
    /// The client for an API key, as the environment gave it: without a key
    /// there is no client.
    pub fn from_env(api_key: Option<String>, preferred_model: Option<Model>) -> (r: Result<Self, Error>)
        ensures
            api_key is None ==> (r matches Err(e) && e@ == seq![
                (Oops::OpenAIKeyMissing, None::<Seq<char>>),
            ]),
            api_key matches Some(k) ==> (r matches Ok(c) && c.auth_header@ == "Bearer "@ + k@
                && c.model == (match preferred_model {
                Some(m) => m,
                None => Model::Gpt4oMini,
            })),
    {
        match api_key {
            None => Err(Error::new().wrap(Oops::OpenAIKeyMissing)),
            Some(key) => {
                let mut auth_header = "Bearer ".to_owned();
                auth_header.append(key.as_str());
                let model = match preferred_model {
                    Some(m) => m,
                    None => Model::default(),
                };
                Ok(OpenAI { auth_header, model })
            },
        }
    }

    /// The value of the `Authorization` header.
    pub fn auth_header(&self) -> (r: &str)
        ensures
            r@ == self.auth_header@,
    {
        self.auth_header.as_str()
    }
}

} // verus!

//! The Gemini provider: the request that carries a conversation to Gemini's
//! `generateContent` endpoint, and the reading of its answer.
use vstd::prelude::*;

use crate::agents::{messages_view, AgentError, HttpCall, Llm, Message, MessageView, ProviderRequest, Role};

verus! {

/// Who wrote a turn, in Gemini's terms.
#[derive(Clone, Copy, Debug, PartialEq, Eq, Structural)]
pub enum GeminiRole {
    System,
    User,
    Model,
}

/// A piece of text of a turn.
#[derive(Debug)]
pub struct Part {
    pub text: String,
}

/// One turn of the conversation sent to, or received from, Gemini.
#[derive(Debug)]
pub struct Content {
    pub role: GeminiRole,
    pub parts: Vec<Part>,
}

/// The body of a `generateContent` request.
#[derive(Debug)]
pub struct GeminiRequest {
    pub contents: Vec<Content>,
}

/// One candidate answer.
#[derive(Debug)]
pub struct Candidate {
    pub content: Content,
}

/// The body of a `generateContent` answer.
#[derive(Debug)]
pub struct GeminiResponse {
    pub candidates: Vec<Candidate>,
}

/// A model served by Gemini, reached with an API key.
#[derive(Debug)]
pub struct GeminiLlm {
    pub api_key: String,
    pub model: String,
}

/// The Gemini role of a conversation role: the assistant is the model.
pub open spec fn gemini_role_of(role: Role) -> GeminiRole {
    match role {
        Role::System => GeminiRole::System,
        Role::User => GeminiRole::User,
        Role::Assistant => GeminiRole::Model,
    }
}

/// `c` is the turn that carries message `m`: same role, one part, same text.
pub open spec fn content_carries(c: Content, m: MessageView) -> bool {
    &&& c.role == gemini_role_of(m.role)
    &&& c.parts@.len() == 1
    &&& c.parts@[0].text@ == m.text
}

/// `req` carries the conversation `ms`, turn for message.
pub open spec fn gemini_request_carries(req: GeminiRequest, ms: Seq<MessageView>) -> bool {
    &&& req.contents@.len() == ms.len()
    &&& forall|i: int| 0 <= i < ms.len() ==> content_carries(#[trigger] req.contents@[i], ms[i])
}

/// Address of the `generateContent` endpoint of `model`.
pub open spec fn gemini_endpoint(model: Seq<char>) -> Seq<char> {
    "https://generativelanguage.googleapis.com/v1beta/models/"@ + model
        + ":generateContent"@
}

/// `call` asks `g` for the next message of `ms`: a `POST` to the model's
/// endpoint, the API key in the `x-goog-api-key` header.
pub open spec fn gemini_call_carries(g: GeminiLlm, call: HttpCall, ms: Seq<MessageView>) -> bool {
    &&& call.url@ == gemini_endpoint(g.model@)
    &&& call.header matches Some(h) && h.0@ == "x-goog-api-key"@ && h.1@ == g.api_key@
    &&& call.body matches ProviderRequest::Gemini(req) && gemini_request_carries(req, ms)
}

/// What an answer gives: the text of the first part of the first
/// candidate, as the assistant's message; no candidate, or a first
/// candidate without parts, is an error.
pub open spec fn gemini_reply(resp: GeminiResponse) -> Result<MessageView, AgentError> {
    if resp.candidates@.len() == 0 {
        Err(AgentError::NoCandidates)
    } else if resp.candidates@[0].content.parts@.len() == 0 {
        Err(AgentError::EmptyContent)
    } else {
        Ok(
            MessageView {
                role: Role::Assistant,
                text: resp.candidates@[0].content.parts@[0].text@,
            },
        )
    }
}

impl<'a> From<&'a Role> for GeminiRole {
    /// The Gemini role of a conversation role.
    fn from(role: &'a Role) -> (r: GeminiRole) {
        match role {
            Role::System => GeminiRole::System,
            Role::User => GeminiRole::User,
            Role::Assistant => GeminiRole::Model,
        }
    }
}

impl<'a> vstd::std_specs::convert::FromSpecImpl<&'a Role> for GeminiRole {
    open spec fn obeys_from_spec() -> bool {
        true
    }

    open spec fn from_spec(v: &'a Role) -> GeminiRole {
        gemini_role_of(*v)
    }
}

impl Content {
    /// The turn that carries a message.
    pub fn of_message(m: &Message) -> (c: Content)
        ensures
            content_carries(c, m@),
    {
        let mut parts = Vec::new();
        parts.push(Part { text: m.text.clone() });
        Content { role: GeminiRole::from(&m.role), parts }
    }
}

impl GeminiLlm {
    /// A client of `model`, authenticated by `api_key`.
    pub fn new(api_key: String, model: String) -> (llm: GeminiLlm)
        ensures
            llm.api_key == api_key,
            llm.model == model,
    {
        GeminiLlm { api_key, model }
    }

    /// Address that generation requests go to.
    pub fn endpoint(&self) -> (url: String)
        ensures
            url@ == gemini_endpoint(self.model@),
    {
        let mut url = "https://generativelanguage.googleapis.com/v1beta/models/".to_owned();
        url.append(self.model.as_str());
        url.append(":generateContent");
        url
    }

    /// The request body that carries the conversation `messages`.
    pub fn request(&self, messages: &Vec<Message>) -> (req: GeminiRequest)
        ensures
            gemini_request_carries(req, messages_view(messages@)),
    {
        let mut contents: Vec<Content> = Vec::new();
        let mut i: usize = 0;
        while i < messages.len()
            invariant
                i <= messages@.len(),
                contents@.len() == i,
                forall|j: int| 0 <= j < i ==> content_carries(#[trigger] contents@[j], messages@[j]@),
            decreases messages@.len() - i,
        {
            contents.push(Content::of_message(&messages[i]));
            i += 1;
        }
        GeminiRequest { contents }
    }

    /// Reads an answer of Gemini.
    pub fn reply_message(resp: GeminiResponse) -> (r: Result<Message, AgentError>)
        ensures
            match (r, gemini_reply(resp)) {
                (Ok(m), Ok(v)) => m@ == v,
                (Err(e), Err(f)) => e == f,
                _ => false,
            },
    {
        let mut resp = resp;
        if resp.candidates.len() == 0 {
            return Err(AgentError::NoCandidates);
        }
        let first = resp.candidates.remove(0);
        let mut content = first.content;
        if content.parts.len() == 0 {
            return Err(AgentError::EmptyContent);
        }
        let part = content.parts.remove(0);
        Ok(Message { role: Role::Assistant, text: part.text })
    }
}

/// A Gemini request carries the whole conversation, from its first message:
/// one turn per message, in order, each with the message's text as its only
/// part and its writer's role (the assistant being the model).
pub proof fn law_gemini_request_whole_conversation(req: GeminiRequest, ms: Seq<MessageView>)
    requires
        gemini_request_carries(req, ms),
    ensures
        req.contents@.len() == ms.len(),
        forall|i: int|
            0 <= i < ms.len() ==> #[trigger] req.contents@[i].parts@.len() == 1
                && req.contents@[i].parts@[0].text@ == ms[i].text,
        forall|i: int|
            0 <= i < ms.len() ==> (ms[i].role == Role::User ==> #[trigger] req.contents@[i].role
                == GeminiRole::User) && (ms[i].role == Role::Assistant ==> req.contents@[i].role
                == GeminiRole::Model) && (ms[i].role == Role::System ==> req.contents@[i].role
                == GeminiRole::System),
{
    assert forall|i: int| 0 <= i < ms.len() implies #[trigger] req.contents@[i].parts@.len() == 1
        && req.contents@[i].parts@[0].text@ == ms[i].text by {
        assert(content_carries(req.contents@[i], ms[i]));
    }
    assert forall|i: int| 0 <= i < ms.len() implies (ms[i].role == Role::User
        ==> #[trigger] req.contents@[i].role == GeminiRole::User) && (ms[i].role == Role::Assistant
        ==> req.contents@[i].role == GeminiRole::Model) && (ms[i].role == Role::System
        ==> req.contents@[i].role == GeminiRole::System) by {
        assert(content_carries(req.contents@[i], ms[i]));
    }
}

impl Llm for GeminiLlm {
    open spec fn carries(&self, call: HttpCall, ms: Seq<MessageView>) -> bool {
        gemini_call_carries(*self, call, ms)
    }

    fn call_for(&self, messages: &Vec<Message>) -> (call: HttpCall) {
        HttpCall {
            url: self.endpoint(),
            header: Some(("x-goog-api-key".to_owned(), self.api_key.clone())),
            body: ProviderRequest::Gemini(self.request(messages)),
        }
    }
}

} // verus!

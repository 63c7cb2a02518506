//! The Ollama provider: the request that carries a conversation to Ollama's
//! chat endpoint, and the reading of its answer.
use vstd::prelude::*;

use crate::agents::{messages_view, AgentError, HttpCall, Llm, Message, MessageView, ProviderRequest, Role};

verus! {

/// Who wrote a message, in Ollama's terms.
#[derive(Clone, Copy, Debug, PartialEq, Eq, Structural)]
pub enum OllamaRole {
    System,
    User,
    Assistant,
    Tool,
}

/// A message as Ollama sends and receives it.
#[derive(Debug)]
pub struct OllamaMessage {
    pub role: OllamaRole,
    pub content: String,
}

/// The body of a chat request; `stream` asks for the answer in pieces.
#[derive(Debug)]
pub struct OllamaRequest {
    pub model: String,
    pub messages: Vec<OllamaMessage>,
    pub stream: bool,
}

/// The body of a chat answer.
#[derive(Debug)]
pub struct OllamaResponse {
    pub message: OllamaMessage,
}

/// A model served by an Ollama host (`host:port`).
#[derive(Debug)]
pub struct OllamaLlm {
    pub host: String,
    pub model: String,
}

/// The Ollama role of a conversation role.
pub open spec fn ollama_role_of(role: Role) -> OllamaRole {
    match role {
        Role::System => OllamaRole::System,
        Role::User => OllamaRole::User,
        Role::Assistant => OllamaRole::Assistant,
    }
}

/// The conversation role of an Ollama role; tool messages have none.
pub open spec fn role_of_ollama(role: OllamaRole) -> Result<Role, AgentError> {
    match role {
        OllamaRole::System => Ok(Role::System),
        OllamaRole::User => Ok(Role::User),
        OllamaRole::Assistant => Ok(Role::Assistant),
        OllamaRole::Tool => Err(AgentError::UnsupportedRole(OllamaRole::Tool)),
    }
}

/// `o` is the Ollama message that carries `m`.
pub open spec fn ollama_message_carries(o: OllamaMessage, m: MessageView) -> bool {
    &&& o.role == ollama_role_of(m.role)
    &&& o.content@ == m.text
}

/// `req` asks `model`, in one piece, about the conversation `ms`.
pub open spec fn ollama_request_carries(
    req: OllamaRequest,
    model: Seq<char>,
    ms: Seq<MessageView>,
) -> bool {
    &&& req.model@ == model
    &&& !req.stream
    &&& req.messages@.len() == ms.len()
    &&& forall|i: int|
        0 <= i < ms.len() ==> ollama_message_carries(#[trigger] req.messages@[i], ms[i])
}

/// The conversation message an Ollama message stands for.
pub open spec fn message_of_ollama(o: OllamaMessage) -> Result<MessageView, AgentError> {
    match role_of_ollama(o.role) {
        Ok(r) => Ok(MessageView { role: r, text: o.content@ }),
        Err(e) => Err(e),
    }
}

/// Address of the chat endpoint of `host`.
pub open spec fn ollama_endpoint(host: Seq<char>) -> Seq<char> {
    "http://"@ + host + "/api/chat"@
}

/// `call` asks `o` for the next message of `ms`: a `POST` to the host's chat
/// endpoint, with no header.
pub open spec fn ollama_call_carries(o: OllamaLlm, call: HttpCall, ms: Seq<MessageView>) -> bool {
    &&& call.url@ == ollama_endpoint(o.host@)
    &&& call.header is None
    &&& call.body matches ProviderRequest::Ollama(req) && ollama_request_carries(req, o.model@, ms)
}

impl<'a> From<&'a Role> for OllamaRole {
    /// The Ollama role of a conversation role.
    fn from(role: &'a Role) -> (r: OllamaRole) {
        match role {
            Role::System => OllamaRole::System,
            Role::User => OllamaRole::User,
            Role::Assistant => OllamaRole::Assistant,
        }
    }
}

impl<'a> vstd::std_specs::convert::FromSpecImpl<&'a Role> for OllamaRole {
    open spec fn obeys_from_spec() -> bool {
        true
    }

    open spec fn from_spec(v: &'a Role) -> OllamaRole {
        ollama_role_of(*v)
    }
}

impl TryFrom<OllamaRole> for Role {
    type Error = AgentError;

    /// The conversation role of an Ollama role; a tool role is refused.
    fn try_from(value: OllamaRole) -> (r: Result<Role, AgentError>) {
        match value {
            OllamaRole::Assistant => Ok(Role::Assistant),
            OllamaRole::System => Ok(Role::System),
            OllamaRole::User => Ok(Role::User),
            OllamaRole::Tool => Err(AgentError::UnsupportedRole(OllamaRole::Tool)),
        }
    }
}

impl vstd::std_specs::convert::TryFromSpecImpl<OllamaRole> for Role {
    open spec fn obeys_try_from_spec() -> bool {
        true
    }

    open spec fn try_from_spec(v: OllamaRole) -> Result<Role, AgentError> {
        role_of_ollama(v)
    }
}

impl<'a> From<&'a Message> for OllamaMessage {
    /// The Ollama message that carries a conversation message.
    fn from(m: &'a Message) -> (o: OllamaMessage) {
        OllamaMessage { role: OllamaRole::from(&m.role), content: m.text.clone() }
    }
}

impl<'a> vstd::std_specs::convert::FromSpecImpl<&'a Message> for OllamaMessage {
    open spec fn obeys_from_spec() -> bool {
        true
    }

    open spec fn from_spec(v: &'a Message) -> OllamaMessage {
        OllamaMessage { role: ollama_role_of(v.role), content: v.text }
    }
}

impl TryFrom<OllamaMessage> for Message {
    type Error = AgentError;

    /// The conversation message an Ollama message stands for.
    fn try_from(value: OllamaMessage) -> (r: Result<Message, AgentError>) {
        match Role::try_from(value.role) {
            Ok(role) => Ok(Message { role, text: value.content }),
            Err(e) => Err(e),
        }
    }
}

impl vstd::std_specs::convert::TryFromSpecImpl<OllamaMessage> for Message {
    open spec fn obeys_try_from_spec() -> bool {
        true
    }

    open spec fn try_from_spec(v: OllamaMessage) -> Result<Message, AgentError> {
        match role_of_ollama(v.role) {
            Ok(r) => Ok(Message { role: r, text: v.content }),
            Err(e) => Err(e),
        }
    }
}

impl OllamaLlm {
    /// A client of `model` on `host`.
    pub fn new(host: String, model: String) -> (llm: OllamaLlm)
        ensures
            llm.host == host,
            llm.model == model,
    {
        OllamaLlm { host, model }
    }

    /// Address that chat requests go to.
    pub fn endpoint(&self) -> (url: String)
        ensures
            url@ == ollama_endpoint(self.host@),
    {
        let mut url = "http://".to_owned();
        url.append(self.host.as_str());
        url.append("/api/chat");
        url
    }

    /// The request body that asks the model about the conversation `messages`.
    pub fn request(&self, messages: &Vec<Message>) -> (req: OllamaRequest)
        ensures
            ollama_request_carries(req, self.model@, messages_view(messages@)),
    {
        let mut out: Vec<OllamaMessage> = Vec::new();
        let mut i: usize = 0;
        while i < messages.len()
            invariant
                i <= messages@.len(),
                out@.len() == i,
                forall|j: int|
                    0 <= j < i ==> ollama_message_carries(#[trigger] out@[j], messages@[j]@),
            decreases messages@.len() - i,
        {
            out.push(OllamaMessage::from(&messages[i]));
            i += 1;
        }
        OllamaRequest { model: self.model.clone(), messages: out, stream: false }
    }

    /// Reads an answer of Ollama.
    pub fn reply_message(resp: OllamaResponse) -> (r: Result<Message, AgentError>)
        ensures
            match (r, message_of_ollama(resp.message)) {
                (Ok(m), Ok(v)) => m@ == v,
                (Err(e), Err(f)) => e == f,
                _ => false,
            },
    {
        Message::try_from(resp.message)
    }
}


/// An Ollama request asks the chosen model, in one piece, about the whole
/// conversation, from its first message: one message per message, in order,
/// each with the same text and the same writer.
pub proof fn law_ollama_request_whole_conversation(
    req: OllamaRequest,
    model: Seq<char>,
    ms: Seq<MessageView>,
)
    requires
        ollama_request_carries(req, model, ms),
    ensures
        req.model@ == model,
        !req.stream,
        req.messages@.len() == ms.len(),
        forall|i: int|
            0 <= i < ms.len() ==> #[trigger] req.messages@[i].content@ == ms[i].text && (ms[i].role
                == Role::User ==> req.messages@[i].role == OllamaRole::User) && (ms[i].role
                == Role::Assistant ==> req.messages@[i].role == OllamaRole::Assistant) && (
            ms[i].role == Role::System ==> req.messages@[i].role == OllamaRole::System),
{
    assert forall|i: int| 0 <= i < ms.len() implies #[trigger] req.messages@[i].content@
        == ms[i].text && (ms[i].role == Role::User ==> req.messages@[i].role == OllamaRole::User)
        && (ms[i].role == Role::Assistant ==> req.messages@[i].role == OllamaRole::Assistant) && (
    ms[i].role == Role::System ==> req.messages@[i].role == OllamaRole::System) by {
        assert(ollama_message_carries(req.messages@[i], ms[i]));
    }
}

impl Llm for OllamaLlm {
    open spec fn carries(&self, call: HttpCall, ms: Seq<MessageView>) -> bool {
        ollama_call_carries(*self, call, ms)
    }

    fn call_for(&self, messages: &Vec<Message>) -> (call: HttpCall) {
        HttpCall {
            url: self.endpoint(),
            header: None,
            body: ProviderRequest::Ollama(self.request(messages)),
        }
    }
}

/// A message converted for Ollama converts back to itself: every role the
/// conversation sends has its Ollama counterpart and back.
pub proof fn law_ollama_message_roundtrip(o: OllamaMessage, m: MessageView)
    requires
        ollama_message_carries(o, m),
    ensures
        message_of_ollama(o) == Ok::<MessageView, AgentError>(m),
{
}

} // verus!

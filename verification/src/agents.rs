//! Conversation data shared by the chat and the model providers.
use vstd::prelude::*;

use crate::gemini::{gemini_call_carries, gemini_reply, GeminiLlm, GeminiRequest, GeminiResponse};
use crate::ollama::{
    message_of_ollama, ollama_call_carries, OllamaLlm, OllamaRequest, OllamaResponse, OllamaRole,
};

verus! {

/// Who wrote a message of the conversation.
#[derive(Clone, Copy, Debug, PartialEq, Eq, Structural)]
pub enum Role {
    System,
    User,
    Assistant,
}

/// One message of the conversation.
#[derive(Clone, Debug)]
pub struct Message {
    pub role: Role,
    pub text: String,
}

/// A message as the contracts see it: its role and its characters.
pub struct MessageView {
    pub role: Role,
    pub text: Seq<char>,
}

impl View for Message {
    type V = MessageView;

    open spec fn view(&self) -> MessageView {
        MessageView { role: self.role, text: self.text@ }
    }
}

/// The views of a list of messages.
pub open spec fn messages_view(ms: Seq<Message>) -> Seq<MessageView> {
    ms.map_values(|m: Message| m@)
}


pub proof fn lemma_messages_view_push(ms: Seq<Message>, m: Message)
    ensures
        messages_view(ms.push(m)) == messages_view(ms).push(m@),
{
    assert(messages_view(ms.push(m)) =~= messages_view(ms).push(m@));
}

/// Why a model gave no reply.
#[derive(Debug)]
pub enum AgentError {
    /// The request did not go through, or its answer could not be read; the
    /// text says why.
    Transport(String),
    /// Gemini answered without any candidate.
    NoCandidates,
    /// Gemini's first candidate had no text.
    EmptyContent,
    /// Ollama answered with a message of a role the conversation has no place for.
    UnsupportedRole(OllamaRole),
}

/// The name of an Ollama role, as debugging output spells it.
pub open spec fn ollama_role_name(r: OllamaRole) -> Seq<char> {
    match r {
        OllamaRole::System => "System"@,
        OllamaRole::User => "User"@,
        OllamaRole::Assistant => "Assistant"@,
        OllamaRole::Tool => "Tool"@,
    }
}

/// The text an error is reported with.
pub open spec fn error_text(e: AgentError) -> Seq<char> {
    match e {
        AgentError::Transport(t) => t@,
        AgentError::NoCandidates => "Gemini returned no candidates"@,
        AgentError::EmptyContent => "Gemini returned empty content"@,
        AgentError::UnsupportedRole(r) => "unsupported Ollama role: "@ + ollama_role_name(r),
    }
}

impl AgentError {
    /// The text the error is reported with.
    pub fn message(&self) -> (t: String)
        ensures
            t@ == error_text(*self),
    {
        match self {
            AgentError::Transport(t) => t.clone(),
            AgentError::NoCandidates => "Gemini returned no candidates".to_owned(),
            AgentError::EmptyContent => "Gemini returned empty content".to_owned(),
            AgentError::UnsupportedRole(r) => {
                let mut t = "unsupported Ollama role: ".to_owned();
                match r {
                    OllamaRole::System => t.append("System"),
                    OllamaRole::User => t.append("User"),
                    OllamaRole::Assistant => t.append("Assistant"),
                    OllamaRole::Tool => t.append("Tool"),
                }
                t
            },
        }
    }
}

/// The model a chat talks to.
#[derive(Debug)]
pub enum Agent {
    Gemini(GeminiLlm),
    Ollama(OllamaLlm),
}

/// The body of a request to a model.
#[derive(Debug)]
pub enum ProviderRequest {
    Gemini(GeminiRequest),
    Ollama(OllamaRequest),
}

/// The body of a model's answer, of the kind the request asked for.
#[derive(Debug)]
pub enum ProviderReply {
    Gemini(GeminiResponse),
    Ollama(OllamaResponse),
}

/// An HTTP `POST` with a JSON body, and an optional header (name, value).
#[derive(Debug)]
pub struct HttpCall {
    pub url: String,
    pub header: Option<(String, String)>,
    pub body: ProviderRequest,
}

/// `call` asks `agent` for the next message of the conversation `ms`.
pub open spec fn call_carries(agent: Agent, call: HttpCall, ms: Seq<MessageView>) -> bool {
    match agent {
        Agent::Gemini(g) => gemini_call_carries(g, call, ms),
        Agent::Ollama(o) => ollama_call_carries(o, call, ms),
    }
}

/// A model a conversation can be sent to: it says which HTTP request asks
/// it for the next message of a conversation.
pub trait Llm {
    /// `call` asks this model for the next message of `ms`.
    spec fn carries(&self, call: HttpCall, ms: Seq<MessageView>) -> bool;

    /// The request that asks this model for the next message of `messages`.
    fn call_for(&self, messages: &Vec<Message>) -> (call: HttpCall)
        ensures
            self.carries(call, messages_view(messages@)),
    ;
}

/// The message an answer stands for, or why it stands for none.
pub open spec fn reply_outcome(reply: ProviderReply) -> Result<MessageView, AgentError> {
    match reply {
        ProviderReply::Gemini(r) => gemini_reply(r),
        ProviderReply::Ollama(r) => message_of_ollama(r.message),
    }
}

impl Llm for Agent {
    open spec fn carries(&self, call: HttpCall, ms: Seq<MessageView>) -> bool {
        call_carries(*self, call, ms)
    }

    fn call_for(&self, messages: &Vec<Message>) -> (call: HttpCall) {
        match self {
            Agent::Gemini(g) => g.call_for(messages),
            Agent::Ollama(o) => o.call_for(messages),
        }
    }
}

/// Reads a model's answer.
pub fn reply_message(reply: ProviderReply) -> (r: Result<Message, AgentError>)
    ensures
        match (r, reply_outcome(reply)) {
            (Ok(m), Ok(v)) => m@ == v,
            (Err(e), Err(f)) => e == f,
            _ => false,
        },
{
    match reply {
        ProviderReply::Gemini(r) => GeminiLlm::reply_message(r),
        ProviderReply::Ollama(r) => OllamaLlm::reply_message(r),
    }
}

/// A conversation with a model: the messages so far and the model.
pub struct Chat {
    history: Vec<Message>,
    agent: Agent,
}

impl View for Chat {
    type V = Seq<MessageView>;

    closed spec fn view(&self) -> Seq<MessageView> {
        messages_view(self.history@)
    }
}

/// `c1` is `c0` after the user sent `text`, and `call` asks the model for
/// the reply to the whole conversation.
pub open spec fn began_send(c0: Chat, c1: Chat, text: Seq<char>, call: HttpCall) -> bool {
    &&& c1@ == c0@.push(MessageView { role: Role::User, text })
    &&& c1.agent_spec() == c0.agent_spec()
    &&& call_carries(c0.agent_spec(), call, c1@)
}

/// `c1` is `c0` after the model's `outcome`: a reply joins the conversation
/// and its text is returned; an error leaves the conversation as it is and
/// is returned.
pub open spec fn finished_send(
    c0: Chat,
    c1: Chat,
    outcome: Result<Message, AgentError>,
    r: Result<String, AgentError>,
) -> bool {
    &&& c1.agent_spec() == c0.agent_spec()
    &&& match outcome {
        Ok(m) => c1@ == c0@.push(m@) && (r matches Ok(t) && t@ == m.text@),
        Err(e) => c1@ == c0@ && r == Err::<String, AgentError>(e),
    }
}

impl Chat {
    /// The model of the chat.
    pub closed spec fn agent_spec(self) -> Agent {
        self.agent
    }

    /// A conversation with `agent` that has no message yet.
    pub fn new(agent: Agent) -> (c: Chat)
        ensures
            c@.len() == 0,
            c.agent_spec() == agent,
    {
        let c = Chat { history: Vec::new(), agent };
        proof {
            assert(c@ =~= Seq::<MessageView>::empty());
        }
        c
    }

    /// The messages so far.
    pub fn history(&self) -> (h: &Vec<Message>)
        ensures
            messages_view(h@) == self@,
    {
        &self.history
    }

    /// The model of the chat.
    pub fn agent(&self) -> (a: &Agent)
        ensures
            *a == self.agent_spec(),
    {
        &self.agent
    }

    /// First half of sending `text`: the user's message joins the
    /// conversation; the result is the request to make to the model.
    pub fn begin_send(&mut self, text: &str) -> (call: HttpCall)
        ensures
            began_send(*old(self), *final(self), text@, call),
    {
        let m = Message { role: Role::User, text: text.to_owned() };
        proof {
            lemma_messages_view_push(self.history@, m);
        }
        self.history.push(m);
        self.agent.call_for(&self.history)
    }

    /// Second half of sending: what the model answered, or why it did not.
    pub fn finish_send(&mut self, outcome: Result<Message, AgentError>) -> (r: Result<
        String,
        AgentError,
    >)
        ensures
            finished_send(*old(self), *final(self), outcome, r),
    {
        match outcome {
            Ok(m) => {
                let text = m.text.clone();
                proof {
                    lemma_messages_view_push(self.history@, m);
                }
                self.history.push(m);
                Ok(text)
            },
            Err(e) => Err(e),
        }
    }
}

/// Sending a message asks the model about the whole conversation: the
/// request holds every earlier message, from the first, in order, and then
/// the message just sent.
pub proof fn law_send_carries_whole_history(c0: Chat, c1: Chat, text: Seq<char>, call: HttpCall)
    requires
        began_send(c0, c1, text, call),
    ensures
        call.body matches ProviderRequest::Gemini(req) ==> req.contents@.len() == c0@.len() + 1
            && (forall|i: int|
            0 <= i < c0@.len() ==> #[trigger] req.contents@[i].parts@[0].text@ == c0@[i].text)
            && req.contents@[c0@.len() as int].parts@[0].text@ == text,
        call.body matches ProviderRequest::Ollama(req) ==> req.messages@.len() == c0@.len() + 1
            && (forall|i: int|
            0 <= i < c0@.len() ==> #[trigger] req.messages@[i].content@ == c0@[i].text)
            && req.messages@[c0@.len() as int].content@ == text,
{
    match c0.agent_spec() {
        Agent::Gemini(g) => {
            if let ProviderRequest::Gemini(req) = call.body {
                crate::gemini::law_gemini_request_whole_conversation(req, c1@);
                assert forall|i: int| 0 <= i < c0@.len() implies #[trigger] req.contents@[i].parts@[
                    0].text@ == c0@[i].text by {
                    assert(c1@[i] == c0@[i]);
                }
            }
        },
        Agent::Ollama(o) => {
            if let ProviderRequest::Ollama(req) = call.body {
                crate::ollama::law_ollama_request_whole_conversation(req, o.model@, c1@);
                assert forall|i: int| 0 <= i < c0@.len() implies #[trigger] req.messages@[
                    i].content@ == c0@[i].text by {
                    assert(c1@[i] == c0@[i]);
                }
            }
        },
    }
}

/// Sending a message appends to the conversation exactly the user's message
/// followed by the model's reply, and returns the reply's text; when the
/// model fails, only the user's message is appended and the error returned.
pub proof fn law_send_appends_exchange(
    c0: Chat,
    c1: Chat,
    c2: Chat,
    text: Seq<char>,
    call: HttpCall,
    outcome: Result<Message, AgentError>,
    r: Result<String, AgentError>,
)
    requires
        began_send(c0, c1, text, call),
        finished_send(c1, c2, outcome, r),
    ensures
        c2.agent_spec() == c0.agent_spec(),
        match outcome {
            Ok(m) => c2@ == c0@ + seq![MessageView { role: Role::User, text }, m@] && (
            r matches Ok(t) && t@ == m.text@),
            Err(e) => c2@ == c0@ + seq![MessageView { role: Role::User, text }] && r == Err::<
                String,
                AgentError,
            >(e),
        },
{
    match outcome {
        Ok(m) => {
            assert(c2@ =~= c0@ + seq![MessageView { role: Role::User, text }, m@]);
        },
        Err(e) => {
            assert(c2@ =~= c0@ + seq![MessageView { role: Role::User, text }]);
        },
    }
}

} // verus!

use tonalli::agents::{
    reply_message, Agent, AgentError, Chat, HttpCall, Llm, Message, ProviderReply, ProviderRequest,
    Role,
};
use tonalli::gemini::{Candidate, Content, GeminiLlm, GeminiResponse, GeminiRole, Part};
use tonalli::ollama::{OllamaLlm, OllamaMessage, OllamaResponse, OllamaRole};

fn msg(role: Role, text: &str) -> Message {
    Message { role, text: text.to_string() }
}

fn gemini_answer(parts: &[&str]) -> GeminiResponse {
    GeminiResponse {
        candidates: vec![Candidate {
            content: Content {
                role: GeminiRole::Model,
                parts: parts.iter().map(|t| Part { text: t.to_string() }).collect(),
            },
        }],
    }
}

#[test]
fn gemini_call_carries_conversation() {
    let llm = GeminiLlm::new("SECRET-REDACTED".to_string(), "gemini-2.0-flash".to_string());
    let history = vec![msg(Role::System, "be brief"), msg(Role::User, "hi"), msg(Role::Assistant, "yo")];
    let call: HttpCall = llm.call_for(&history);
    assert_eq!(
        call.url,
        "https://generativelanguage.googleapis.com/v1beta/models/gemini-2.0-flash:generateContent"
    );
    assert_eq!(call.header, Some(("x-goog-api-key".to_string(), "SECRET-REDACTED".to_string())));
    match call.body {
        ProviderRequest::Gemini(req) => {
            let roles: Vec<GeminiRole> = req.contents.iter().map(|c| c.role).collect();
            assert_eq!(roles, vec![GeminiRole::System, GeminiRole::User, GeminiRole::Model]);
            let texts: Vec<&str> = req.contents.iter().map(|c| c.parts[0].text.as_str()).collect();
            assert_eq!(texts, vec!["be brief", "hi", "yo"]);
            assert!(req.contents.iter().all(|c| c.parts.len() == 1));
        }
        _ => panic!("expected a Gemini request"),
    }
}

#[test]
fn gemini_reply_takes_first_part_of_first_candidate() {
    let m = GeminiLlm::reply_message(gemini_answer(&["first", "second"])).unwrap();
    assert_eq!(m.role, Role::Assistant);
    assert_eq!(m.text, "first");
}

#[test]
fn gemini_reply_errors() {
    let none = GeminiResponse { candidates: vec![] };
    let e = GeminiLlm::reply_message(none).unwrap_err();
    assert_eq!(e.message(), "Gemini returned no candidates");
    let e = GeminiLlm::reply_message(gemini_answer(&[])).unwrap_err();
    assert_eq!(e.message(), "Gemini returned empty content");
}

#[test]
fn ollama_call_carries_conversation() {
    let llm = OllamaLlm::new("localhost:11434".to_string(), "llama3.2".to_string());
    let history = vec![msg(Role::User, "hi"), msg(Role::Assistant, "hello")];
    let call = llm.call_for(&history);
    assert_eq!(call.url, "http://localhost:11434/api/chat");
    assert_eq!(call.header, None);
    match call.body {
        ProviderRequest::Ollama(req) => {
            assert_eq!(req.model, "llama3.2");
            assert!(!req.stream);
            assert_eq!(req.messages.len(), 2);
            assert_eq!(req.messages[0].role, OllamaRole::User);
            assert_eq!(req.messages[0].content, "hi");
            assert_eq!(req.messages[1].role, OllamaRole::Assistant);
            assert_eq!(req.messages[1].content, "hello");
        }
        _ => panic!("expected an Ollama request"),
    }
}

#[test]
fn ollama_reply_and_tool_role() {
    let ok = OllamaLlm::reply_message(OllamaResponse {
        message: OllamaMessage { role: OllamaRole::Assistant, content: "sure".to_string() },
    })
    .unwrap();
    assert_eq!(ok.role, Role::Assistant);
    assert_eq!(ok.text, "sure");
    let err = OllamaLlm::reply_message(OllamaResponse {
        message: OllamaMessage { role: OllamaRole::Tool, content: "x".to_string() },
    })
    .unwrap_err();
    assert_eq!(err.message(), "unsupported Ollama role: Tool");
}

#[test]
fn ollama_message_roundtrip() {
    for role in [Role::System, Role::User, Role::Assistant] {
        let m = msg(role, "text");
        let back = Message::try_from(OllamaMessage::from(&m)).unwrap();
        assert_eq!(back.role, role);
        assert_eq!(back.text, "text");
    }
}

#[test]
fn reply_message_dispatches_on_kind() {
    let m = reply_message(ProviderReply::Gemini(gemini_answer(&["g"]))).unwrap();
    assert_eq!(m.text, "g");
    let m = reply_message(ProviderReply::Ollama(OllamaResponse {
        message: OllamaMessage { role: OllamaRole::User, content: "o".to_string() },
    }))
    .unwrap();
    assert_eq!(m.role, Role::User);
}

#[test]
fn role_conversions() {
    assert_eq!(GeminiRole::from(&Role::Assistant), GeminiRole::Model);
    assert_eq!(GeminiRole::from(&Role::System), GeminiRole::System);
    assert_eq!(OllamaRole::from(&Role::User), OllamaRole::User);
    assert_eq!(Role::try_from(OllamaRole::System).unwrap(), Role::System);
    assert!(matches!(
        Role::try_from(OllamaRole::Tool),
        Err(AgentError::UnsupportedRole(OllamaRole::Tool))
    ));
}

#[test]
fn transport_error_keeps_its_text() {
    let e = AgentError::Transport("connection refused".to_string());
    assert_eq!(e.message(), "connection refused");
}

#[test]
fn chat_exchange_appends_user_and_reply() {
    let agent = Agent::Ollama(OllamaLlm::new("h:1".to_string(), "m".to_string()));
    let mut chat = Chat::new(agent);
    assert!(chat.history().is_empty());
    let call = chat.begin_send("question");
    assert_eq!(call.url, "http://h:1/api/chat");
    match &call.body {
        ProviderRequest::Ollama(req) => {
            assert_eq!(req.messages.len(), 1);
            assert_eq!(req.messages[0].content, "question");
        }
        _ => panic!("expected an Ollama request"),
    }
    let r = chat.finish_send(Ok(msg(Role::Assistant, "answer")));
    assert_eq!(r.unwrap(), "answer");
    let h = chat.history();
    assert_eq!(h.len(), 2);
    assert_eq!((h[0].role, h[0].text.as_str()), (Role::User, "question"));
    assert_eq!((h[1].role, h[1].text.as_str()), (Role::Assistant, "answer"));
}

#[test]
fn failed_exchange_keeps_only_the_user_message() {
    let agent = Agent::Gemini(GeminiLlm::new("k".to_string(), "m".to_string()));
    let mut chat = Chat::new(agent);
    chat.begin_send("first");
    let r = chat.finish_send(Err(AgentError::NoCandidates));
    assert_eq!(r.unwrap_err().message(), "Gemini returned no candidates");
    assert_eq!(chat.history().len(), 1);
    let call = chat.begin_send("second");
    match call.body {
        ProviderRequest::Gemini(req) => assert_eq!(req.contents.len(), 2),
        _ => panic!("expected a Gemini request"),
    }
    assert!(matches!(chat.agent(), Agent::Gemini(_)));
}


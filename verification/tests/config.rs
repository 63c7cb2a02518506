use tonalli::agents::Agent;
use tonalli::config::{select_agent, ConfigError};

fn s(t: &str) -> Option<String> {
    Some(t.to_string())
}

#[test]
fn ollama_with_default_host() {
    match select_agent(s("llama3.2"), s("ollama"), None, None) {
        Ok(Agent::Ollama(o)) => {
            assert_eq!(o.host, "localhost:11434");
            assert_eq!(o.model, "llama3.2");
        }
        _ => panic!("expected Ollama"),
    }
}

#[test]
fn ollama_with_given_host() {
    match select_agent(s("m"), s("ollama"), s("example:1"), None) {
        Ok(Agent::Ollama(o)) => assert_eq!(o.host, "example:1"),
        _ => panic!("expected Ollama"),
    }
}

#[test]
fn gemini_needs_api_key() {
    match select_agent(s("gemini-2.0-flash"), s("gemini"), None, s("key")) {
        Ok(Agent::Gemini(g)) => {
            assert_eq!(g.api_key, "key");
            assert_eq!(g.model, "gemini-2.0-flash");
        }
        _ => panic!("expected Gemini"),
    }
    let e = select_agent(s("m"), s("gemini"), None, None).unwrap_err();
    assert!(matches!(e, ConfigError::ApiKeyNotSet));
    assert_eq!(e.message(), "AGENT_API_KEY not set");
}

#[test]
fn missing_settings_in_order() {
    let e = select_agent(None, None, None, None).unwrap_err();
    assert_eq!(e.message(), "AGENT_MODEL not set");
    let e = select_agent(s("m"), None, None, s("k")).unwrap_err();
    assert_eq!(e.message(), "AGENT_PROVIDER not set");
}

#[test]
fn unknown_provider() {
    let e = select_agent(s("m"), s("openai"), None, s("k")).unwrap_err();
    assert_eq!(e.message(), "Unknown provider: openai");
    let e = select_agent(s("m"), s("Ollama"), None, None).unwrap_err();
    assert!(matches!(e, ConfigError::UnknownProvider(_)));
}

//! Choosing the model from the settings (`AGENT_MODEL`, `AGENT_PROVIDER`,
//! `AGENT_OLLAMA_HOST`, `AGENT_API_KEY`); reading them is left to the caller.
use vstd::prelude::*;

use crate::agents::Agent;
use crate::gemini::GeminiLlm;
use crate::ollama::OllamaLlm;

verus! {

/// Why no model could be chosen.
#[derive(Debug)]
pub enum ConfigError {
    ModelNotSet,
    ProviderNotSet,
    ApiKeyNotSet,
    UnknownProvider(String),
}

/// The Ollama host used when none is set.
pub open spec fn default_ollama_host() -> Seq<char> {
    "localhost:11434"@
}

/// The text an error is reported with.
pub open spec fn config_error_text(e: ConfigError) -> Seq<char> {
    match e {
        ConfigError::ModelNotSet => "AGENT_MODEL not set"@,
        ConfigError::ProviderNotSet => "AGENT_PROVIDER not set"@,
        ConfigError::ApiKeyNotSet => "AGENT_API_KEY not set"@,
        ConfigError::UnknownProvider(p) => "Unknown provider: "@ + p@,
    }
}

impl ConfigError {
    /// The text the error is reported with.
    pub fn message(&self) -> (t: String)
        ensures
            t@ == config_error_text(*self),
    {
        match self {
            ConfigError::ModelNotSet => "AGENT_MODEL not set".to_owned(),
            ConfigError::ProviderNotSet => "AGENT_PROVIDER not set".to_owned(),
            ConfigError::ApiKeyNotSet => "AGENT_API_KEY not set".to_owned(),
            ConfigError::UnknownProvider(p) => {
                let mut t = "Unknown provider: ".to_owned();
                t.append(p.as_str());
                t
            },
        }
    }
}

/// The model the settings choose: the model name and the provider must be
/// set, in that order of checking; `ollama` runs at the given host or at
/// `localhost:11434`; `gemini` needs an API key; any other provider is
/// refused.
pub open spec fn chosen_agent(
    model: Option<String>,
    provider: Option<String>,
    ollama_host: Option<String>,
    api_key: Option<String>,
    r: Result<Agent, ConfigError>,
) -> bool {
    match model {
        None => r matches Err(ConfigError::ModelNotSet),
        Some(m) => match provider {
            None => r matches Err(ConfigError::ProviderNotSet),
            Some(p) => if p@ == "ollama"@ {
                r matches Ok(Agent::Ollama(o)) && o.model@ == m@ && o.host@ == match ollama_host {
                    Some(h) => h@,
                    None => default_ollama_host(),
                }
            } else if p@ == "gemini"@ {
                match api_key {
                    None => r matches Err(ConfigError::ApiKeyNotSet),
                    Some(k) => r matches Ok(Agent::Gemini(g)) && g.model@ == m@ && g.api_key@
                        == k@,
                }
            } else {
                r matches Err(ConfigError::UnknownProvider(q)) && q@ == p@
            },
        },
    }
}

/// With the provider `ollama`, the settings choose an Ollama model with the
/// given name, at the given host or at `localhost:11434`, whatever the API
/// key holds.
pub proof fn law_ollama_ignores_api_key(
    model: Option<String>,
    provider: Option<String>,
    ollama_host: Option<String>,
    api_key: Option<String>,
    r: Result<Agent, ConfigError>,
)
    requires
        chosen_agent(model, provider, ollama_host, api_key, r),
        model is Some,
        provider is Some,
        provider->0@ == "ollama"@,
    ensures
        r matches Ok(Agent::Ollama(o)) && o.model@ == model->0@ && o.host@ == match ollama_host {
            Some(h) => h@,
            None => "localhost:11434"@,
        },
{
}

/// Only the provider `gemini` reads the API key: for any other provider two
/// choices that differ only in the key give the same outcome.
pub proof fn law_only_gemini_reads_api_key(
    model: Option<String>,
    provider: Option<String>,
    ollama_host: Option<String>,
    k1: Option<String>,
    k2: Option<String>,
    r1: Result<Agent, ConfigError>,
    r2: Result<Agent, ConfigError>,
)
    requires
        chosen_agent(model, provider, ollama_host, k1, r1),
        chosen_agent(model, provider, ollama_host, k2, r2),
        !(provider matches Some(p) && p@ == "gemini"@),
    ensures
        r1 is Ok <==> r2 is Ok,
        r1 matches Ok(Agent::Ollama(_)) <==> r2 matches Ok(Agent::Ollama(_)),
        r1 matches Ok(Agent::Gemini(_)) <==> r2 matches Ok(Agent::Gemini(_)),
        r1 matches Ok(Agent::Ollama(o1)) ==> (r2 matches Ok(Agent::Ollama(o2)) && o1.model@
            == o2.model@ && o1.host@ == o2.host@),
        r1 matches Err(ConfigError::ModelNotSet) <==> r2 matches Err(ConfigError::ModelNotSet),
        r1 matches Err(ConfigError::ProviderNotSet) <==> r2 matches Err(
            ConfigError::ProviderNotSet,
        ),
        r1 matches Err(ConfigError::ApiKeyNotSet) <==> r2 matches Err(ConfigError::ApiKeyNotSet),
        r1 matches Err(ConfigError::UnknownProvider(q1)) ==> (r2 matches Err(
            ConfigError::UnknownProvider(q2),
        ) && q1@ == q2@),
{
}

/// Chooses the model from the settings.
pub fn select_agent(
    model: Option<String>,
    provider: Option<String>,
    ollama_host: Option<String>,
    api_key: Option<String>,
) -> (r: Result<Agent, ConfigError>)
    ensures
        chosen_agent(model, provider, ollama_host, api_key, r),
{
    let model = match model {
        Some(m) => m,
        None => return Err(ConfigError::ModelNotSet),
    };
    let provider = match provider {
        Some(p) => p,
        None => return Err(ConfigError::ProviderNotSet),
    };
    let host = match ollama_host {
        Some(h) => h,
        None => "localhost:11434".to_owned(),
    };
    if provider == "ollama".to_owned() {
        Ok(Agent::Ollama(OllamaLlm::new(host, model)))
    } else if provider == "gemini".to_owned() {
        match api_key {
            Some(k) => Ok(Agent::Gemini(GeminiLlm::new(k, model))),
            None => Err(ConfigError::ApiKeyNotSet),
        }
    } else {
        Err(ConfigError::UnknownProvider(provider))
    }
}

} // verus!

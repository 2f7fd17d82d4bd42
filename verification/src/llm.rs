//! The unified provider abstraction: failure taxonomy and the startup-time
//! selection of one backend from configuration.

use vstd::prelude::*;
use crate::config::{AnthropicConfig, AppConfig, OllamaConfig, OpenAiConfig};
use crate::text::push_str;

verus! {

/// How a provider call fails. Rate limiting stays distinct from other
/// non-success statuses so a later backoff policy has a seam to hook into.
#[derive(Debug)]
pub enum LlmError {
    /// Transport failure reaching the vendor.
    Network(String),
    /// Non-success, non-rate-limit status; carries status and body text.
    Api(String),
    /// The response shape could not be read.
    InvalidRequest,
    /// A 429-equivalent status.
    RateLimited,
}

/// Mathematical image of an [`LlmError`].
pub enum LlmErrorView {
    Network(Seq<char>),
    Api(Seq<char>),
    InvalidRequest,
    RateLimited,
}

impl View for LlmError {
    type V = LlmErrorView;

    open spec fn view(&self) -> LlmErrorView {
        match self {
            LlmError::Network(s) => LlmErrorView::Network(s@),
            LlmError::Api(s) => LlmErrorView::Api(s@),
            LlmError::InvalidRequest => LlmErrorView::InvalidRequest,
            LlmError::RateLimited => LlmErrorView::RateLimited,
        }
    }
}

/// The one-line description of a failure.
pub open spec fn error_message_of(e: LlmErrorView) -> Seq<char> {
    match e {
        LlmErrorView::Network(s) => "Network Error: "@ + s,
        LlmErrorView::Api(s) => "API Error: "@ + s,
        LlmErrorView::InvalidRequest => "Invalid Request"@,
        LlmErrorView::RateLimited => "Rate Limited"@,
    }
}

impl LlmError {
    /// Renders the failure for logs and error payloads.
    pub fn message(&self) -> (r: String)
        ensures
            r@ == error_message_of(self@),
    {
        match self {
            LlmError::Network(s) => {
                let mut out = String::from_str("Network Error: ");
                push_str(&mut out, s.as_str());
                out
            },
            LlmError::Api(s) => {
                let mut out = String::from_str("API Error: ");
                push_str(&mut out, s.as_str());
                out
            },
            LlmError::InvalidRequest => String::from_str("Invalid Request"),
            LlmError::RateLimited => String::from_str("Rate Limited"),
        }
    }

}

/// The backend selected at startup, with the settings its adapter needs.
pub enum ProviderChoice {
    OpenAi(OpenAiConfig),
    Anthropic(AnthropicConfig),
    Ollama(OllamaConfig),
}

/// Selects and configures the one backend all request handlers share.
pub struct ProviderFactory;

impl ProviderFactory {
    /// Picks the backend that `config.llm.provider` names, when its
    /// per-vendor settings are present; any other name selects nothing.
    pub fn create_default(config: &AppConfig) -> (r: Option<ProviderChoice>)
        ensures
            config.llm.provider@ == "openai"@ ==> (match config.llm.openai {
                Some(c) => r == Some(ProviderChoice::OpenAi(c)),
                None => r is None,
            }),
            config.llm.provider@ == "anthropic"@ ==> (match config.llm.anthropic {
                Some(c) => r == Some(ProviderChoice::Anthropic(c)),
                None => r is None,
            }),
            config.llm.provider@ == "ollama"@ ==> (match config.llm.ollama {
                Some(c) => r == Some(ProviderChoice::Ollama(c)),
                None => r is None,
            }),
            config.llm.provider@ != "openai"@ && config.llm.provider@ != "anthropic"@
                && config.llm.provider@ != "ollama"@ ==> r is None,
    {
        proof {
            reveal_strlit("openai");
            reveal_strlit("anthropic");
            reveal_strlit("ollama");
            assert("openai"@[1] == 'p' && "ollama"@[1] == 'l');
            assert("anthropic"@.len() == 9);
            assert("openai"@ != "ollama"@);
            assert("openai"@ != "anthropic"@);
            assert("anthropic"@ != "ollama"@);
        }
        let provider = config.llm.provider.as_str();
        if crate::text::str_eq(provider, "openai") {
            match &config.llm.openai {
                Some(c) => Some(ProviderChoice::OpenAi(OpenAiConfig {
                    api_base: c.api_base.clone(),
                    api_key: c.api_key.clone(),
                    default_model: c.default_model.clone(),
                })),
                None => None,
            }
        } else if crate::text::str_eq(provider, "anthropic") {
            match &config.llm.anthropic {
                Some(c) => Some(ProviderChoice::Anthropic(AnthropicConfig {
                    api_base: c.api_base.clone(),
                    api_key: c.api_key.clone(),
                    default_model: c.default_model.clone(),
                })),
                None => None,
            }
        } else if crate::text::str_eq(provider, "ollama") {
            match &config.llm.ollama {
                Some(c) => {
                    let built = OllamaConfig {
                        base_url: c.base_url.clone(),
                        default_model: c.default_model.clone(),
                    };
                    assert(built == *c);
                    Some(ProviderChoice::Ollama(built))
                },
                None => None,
            }
        } else {
            None
        }
    }
}

} // verus!

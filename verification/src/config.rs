//! Configuration data: plain values handed in by whatever loads settings.

use vstd::prelude::*;

verus! {

/// Listen address for the HTTP surface.
pub struct ServerConfig {
    pub host: String,
    pub port: u16,
}

/// Where the message store keeps its data.
pub struct DatabaseConfig {
    pub path: String,
}

/// Accepted API keys for the HTTP surface.
pub struct AuthConfig {
    pub api_keys: Vec<String>,
    pub token_expiry_hours: u32,
}

/// Settings for the hosted-API vendor speaking the completions protocol.
pub struct OpenAiConfig {
    pub api_base: String,
    pub api_key: String,
    pub default_model: String,
}

/// Settings for the hosted-API vendor with the side-channel system field.
pub struct AnthropicConfig {
    pub api_base: String,
    pub api_key: String,
    pub default_model: String,
}

/// Settings for the local-inference vendor.
pub struct OllamaConfig {
    pub base_url: String,
    pub default_model: String,
}

/// Which backend to speak to, and the per-vendor settings.
pub struct LlmConfig {
    pub provider: String,
    pub model: String,
    pub openai: Option<OpenAiConfig>,
    pub anthropic: Option<AnthropicConfig>,
    pub ollama: Option<OllamaConfig>,
}

/// Conversation-level settings.
pub struct ChatConfig {
    pub max_history_messages: u32,
    pub system_prompt: String,
}

/// Everything the gateway is configured with.
pub struct AppConfig {
    pub server: ServerConfig,
    pub database: DatabaseConfig,
    pub auth: AuthConfig,
    pub llm: LlmConfig,
    pub chat: ChatConfig,
}

/// True iff `val` is an environment-variable reference `${NAME}`.
pub open spec fn is_env_reference(val: Seq<char>) -> bool {
    val.len() >= 2 && val.subrange(0, 2) == "${"@ && val[val.len() - 1] == '}'
}

/// The variable name inside a `${NAME}` reference, when `val` is one.
/// The caller looks the name up in the environment and substitutes the
/// value; any other `val` stands as it is.
pub fn env_var_name(val: &str) -> (r: Option<String>)
    ensures
        match r {
            Some(name) => is_env_reference(val@) && name@ == val@.subrange(
                2,
                val@.len() - 1,
            ),
            None => !is_env_reference(val@),
        },
{
    proof {
        reveal_strlit("${");
    }
    let n: usize = val.unicode_len();
    if n < 2 {
        return None;
    }
    if val.get_char(0) == '$' && val.get_char(1) == '{' && val.get_char(n - 1) == '}' {
        proof {
            assert(val@.subrange(0, 2) =~= "${"@);
        }
        if n == 2 {
            // `${` alone: opens but never closes with a distinct brace.
            proof {
                assert(val@[val@.len() - 1] == '{');
            }
            return None;
        }
        Some(val.substring_char(2, n - 1).to_owned())
    } else {
        proof {
            if val@.subrange(0, 2) == "${"@ {
                assert(val@.subrange(0, 2)[0] == val@[0]);
                assert(val@.subrange(0, 2)[1] == val@[1]);
                assert(val@[0] == '$' && val@[1] == '{');
            }
        }
        None
    }
}

} // verus!

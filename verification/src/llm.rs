//! Model providers: their names, what configuring one needs, and the status
//! reported for one.

use vstd::prelude::*;
use crate::text::{append_str, chars_of, eq_str};

verus! {

broadcast use vstd::string::group_string_axioms;

/// A model provider.
#[derive(Debug, Clone, Copy, PartialEq, Eq, Structural)]
pub enum Provider {
    OpenAI,
    Anthropic,
    Google,
    Ollama,
    XAI,
    DeepSeek,
    Qwen,
    Mistral,
}

/// A model that can be chosen.
#[derive(Debug)]
pub struct ModelInfo {
    pub id: String,
    pub name: String,
    pub provider: String,
    pub available: bool,
}

/// The status of a provider.
#[derive(Debug)]
pub struct ProviderStatus {
    pub provider: String,
    pub available: bool,
    pub configured: bool,
    pub error: Option<String>,
    pub rate_limit_remaining: Option<u32>,
    pub rate_limit_reset: Option<String>,
    pub ollama_running: Option<bool>,
}

/// The provider a name stands for: its own lower-case name, or `"grok"`
/// for xAI, `"alibaba"` for Qwen and `"mistralai"` for Mistral.
pub open spec fn provider_named(name: Seq<char>) -> Option<Provider> {
    if name == "openai"@ {
        Some(Provider::OpenAI)
    } else if name == "anthropic"@ {
        Some(Provider::Anthropic)
    } else if name == "google"@ {
        Some(Provider::Google)
    } else if name == "ollama"@ {
        Some(Provider::Ollama)
    } else if name == "xai"@ || name == "grok"@ {
        Some(Provider::XAI)
    } else if name == "deepseek"@ {
        Some(Provider::DeepSeek)
    } else if name == "qwen"@ || name == "alibaba"@ {
        Some(Provider::Qwen)
    } else if name == "mistral"@ || name == "mistralai"@ {
        Some(Provider::Mistral)
    } else {
        None
    }
}

/// The name a provider is shown by in messages.
pub open spec fn display_name(p: Provider) -> Seq<char> {
    match p {
        Provider::OpenAI => "OpenAI"@,
        Provider::Anthropic => "Anthropic"@,
        Provider::Google => "Google"@,
        Provider::Ollama => "Ollama"@,
        Provider::XAI => "XAI"@,
        Provider::DeepSeek => "DeepSeek"@,
        Provider::Qwen => "Qwen"@,
        Provider::Mistral => "Mistral"@,
    }
}

/// The provider a name stands for, where it stands for one.
pub fn parse_provider(name: &str) -> (r: Option<Provider>)
    ensures
        r == provider_named(name@),
{
    let v = chars_of(name);
    if eq_str(&v, "openai") {
        Some(Provider::OpenAI)
    } else if eq_str(&v, "anthropic") {
        Some(Provider::Anthropic)
    } else if eq_str(&v, "google") {
        Some(Provider::Google)
    } else if eq_str(&v, "ollama") {
        Some(Provider::Ollama)
    } else if eq_str(&v, "xai") || eq_str(&v, "grok") {
        Some(Provider::XAI)
    } else if eq_str(&v, "deepseek") {
        Some(Provider::DeepSeek)
    } else if eq_str(&v, "qwen") || eq_str(&v, "alibaba") {
        Some(Provider::Qwen)
    } else if eq_str(&v, "mistral") || eq_str(&v, "mistralai") {
        Some(Provider::Mistral)
    } else {
        None
    }
}

/// The provider a message request names, where it names a known one.
pub fn requested_provider(name: Option<&str>) -> (r: Option<Provider>)
    ensures
        r == match name {
            Some(n) => provider_named(n@),
            None => None,
        },
{
    match name {
        Some(n) => parse_provider(n),
        None => None,
    }
}

/// `"Unknown provider: <name>"`.
fn unknown_provider(name: &str) -> (r: String)
    ensures
        r@ == "Unknown provider: "@ + name@,
{
    let mut e = String::new();
    append_str(&mut e, "Unknown provider: ");
    append_str(&mut e, name);
    e
}

/// The provider a name stands for, or `"Unknown provider: <name>"`.
pub fn known_provider(name: &str) -> (r: Result<Provider, String>)
    ensures
        match provider_named(name@) {
            Some(p) => r == Ok::<Provider, String>(p),
            None => r matches Err(e) && e@ == "Unknown provider: "@ + name@,
        },
{
    match parse_provider(name) {
        Some(p) => Ok(p),
        None => Err(unknown_provider(name)),
    }
}

/// The provider configured by a name and a key: a known provider, with a
/// key except for Ollama, which needs none. An unknown name is refused
/// first; a missing key with `"<Provider> requires an API key"`.
pub fn provider_setup(name: &str, api_key: &Option<String>) -> (r: Result<Provider, String>)
    ensures
        match provider_named(name@) {
            None => r matches Err(e) && e@ == "Unknown provider: "@ + name@,
            Some(p) => if p == Provider::Ollama || api_key is Some {
                r == Ok::<Provider, String>(p)
            } else {
                r matches Err(e) && e@ == display_name(p) + " requires an API key"@
            },
        },
{
    let p = match parse_provider(name) {
        Some(p) => p,
        None => return Err(unknown_provider(name)),
    };
    if p == Provider::Ollama || api_key.is_some() {
        return Ok(p);
    }
    let mut e = String::new();
    match p {
        Provider::OpenAI => append_str(&mut e, "OpenAI"),
        Provider::Anthropic => append_str(&mut e, "Anthropic"),
        Provider::Google => append_str(&mut e, "Google"),
        Provider::Ollama => append_str(&mut e, "Ollama"),
        Provider::XAI => append_str(&mut e, "XAI"),
        Provider::DeepSeek => append_str(&mut e, "DeepSeek"),
        Provider::Qwen => append_str(&mut e, "Qwen"),
        Provider::Mistral => append_str(&mut e, "Mistral"),
    }
    append_str(&mut e, " requires an API key");
    Err(e)
}

/// The message for a provider that is not configured.
pub open spec fn not_configured_message() -> Seq<char> {
    "Provider not configured. Please add API key in settings."@
}

/// The message for an Ollama server that does not answer.
pub open spec fn ollama_down_message() -> Seq<char> {
    "Ollama server is not running. Start with 'ollama serve'"@
}

/// The status of the provider `provider`, given whether it is configured
/// and, for Ollama, whether its server answered: a provider is available
/// where it is configured, and Ollama only where its server runs too. The
/// error says what is missing: the configuration (but for Ollama), or the
/// Ollama server.
pub fn provider_status(provider: &str, configured: bool, ollama_running: Option<bool>) -> (r:
    ProviderStatus)
    ensures
        r.provider@ == provider@,
        r.configured == configured,
        r.ollama_running == ollama_running,
        r.available == if provider@ == "ollama"@ {
            configured && ollama_running == Some(true)
        } else {
            configured
        },
        r.error.deep_view() == if !configured && provider@ != "ollama"@ {
            Some(not_configured_message())
        } else if provider@ == "ollama"@ && ollama_running != Some(true) {
            Some(ollama_down_message())
        } else {
            None
        },
        r.rate_limit_remaining is None,
        r.rate_limit_reset is None,
{
    let v = chars_of(provider);
    let is_ollama = eq_str(&v, "ollama");
    let running = match ollama_running {
        Some(b) => b,
        None => false,
    };
    let available = if is_ollama {
        configured && running
    } else {
        configured
    };
    let error = if !configured && !is_ollama {
        let mut e = String::new();
        append_str(&mut e, "Provider not configured. Please add API key in settings.");
        Some(e)
    } else if is_ollama && !running {
        let mut e = String::new();
        append_str(&mut e, "Ollama server is not running. Start with 'ollama serve'");
        Some(e)
    } else {
        None
    };
    let mut name = String::new();
    append_str(&mut name, provider);
    ProviderStatus {
        provider: name,
        available,
        configured,
        error,
        rate_limit_remaining: None,
        rate_limit_reset: None,
        ollama_running,
    }
}

} // verus!

//! Application settings: the default model of each provider, window
//! preferences, the keyring names of API keys, and which model a chat
//! request is sent to.

use vstd::prelude::*;

use crate::text::{append_str, chars_of, eq_str, trim, trimmed_string};

verus! {

broadcast use vstd::string::group_string_axioms;

/// The model used for each provider where a request names none.
#[derive(Debug, Clone)]
pub struct DefaultModels {
    pub openai: String,
    pub anthropic: String,
    pub google: String,
    pub ollama: String,
    pub xai: String,
    pub deepseek: String,
    pub qwen: String,
    pub mistral: String,
    pub moonshot: String,
}

/// How the main window looks and where it opens.
#[derive(Debug, Clone)]
pub struct WindowPreferences {
    pub theme: String,
    pub startup_position: String,
    pub dock_on_startup: Option<String>,
}

/// The keyring service that holds the API keys.
pub const SERVICE_NAME: &'static str = "AGIWorkforce";

/// The provider whose models are used where none is configured.
pub const DEFAULT_PROVIDER: &'static str = "openai";

/// The window preferences the application starts with: the system theme,
/// centred, not docked.
pub fn default_window_preferences() -> (r: WindowPreferences)
    ensures
        r.theme@ == "system"@,
        r.startup_position@ == "center"@,
        r.dock_on_startup is None,
{
    WindowPreferences {
        theme: "system".to_owned(),
        startup_position: "center".to_owned(),
        dock_on_startup: None,
    }
}

/// The name under which the API key of `provider` is kept in the keyring.
pub fn api_key_entry_name(provider: &str) -> (r: String)
    ensures
        r@ == "api_key_"@ + provider@,
{
    let mut r = "api_key_".to_owned();
    append_str(&mut r, provider);
    r
}

/// An API key as stored: without surrounding whitespace; an error where
/// nothing else is left.
pub fn prepare_api_key(key: &str) -> (r: Result<String, String>)
    ensures
        trim(key@).len() == 0 ==> (r matches Err(e) && e@ == "API key cannot be empty"@),
        trim(key@).len() > 0 ==> (r matches Ok(k) && k@ == trim(key@)),
{
    let v = chars_of(key);
    let k = trimmed_string(&v, 0, v.len());
    assert(v@.subrange(0, v@.len() as int) =~= v@);
    if k.as_str().is_empty() {
        Err("API key cannot be empty".to_owned())
    } else {
        Ok(k)
    }
}

/// The model configured for the provider named `provider`; the OpenAI one
/// for any name it does not know.
pub open spec fn model_for(provider: Seq<char>, m: DefaultModels) -> Seq<char> {
    if provider == "anthropic"@ {
        m.anthropic@
    } else if provider == "google"@ {
        m.google@
    } else if provider == "ollama"@ {
        m.ollama@
    } else if provider == "xai"@ {
        m.xai@
    } else if provider == "deepseek"@ {
        m.deepseek@
    } else if provider == "qwen"@ {
        m.qwen@
    } else if provider == "mistral"@ {
        m.mistral@
    } else if provider == "moonshot"@ {
        m.moonshot@
    } else {
        m.openai@
    }
}

/// The model configured for the provider named `provider`.
pub fn model_for_provider(provider: &str, models: &DefaultModels) -> (r: String)
    ensures
        r@ == model_for(provider@, *models),
{
    let p = chars_of(provider);
    if eq_str(&p, "anthropic") {
        models.anthropic.clone()
    } else if eq_str(&p, "google") {
        models.google.clone()
    } else if eq_str(&p, "ollama") {
        models.ollama.clone()
    } else if eq_str(&p, "xai") {
        models.xai.clone()
    } else if eq_str(&p, "deepseek") {
        models.deepseek.clone()
    } else if eq_str(&p, "qwen") {
        models.qwen.clone()
    } else if eq_str(&p, "mistral") {
        models.mistral.clone()
    } else if eq_str(&p, "moonshot") {
        models.moonshot.clone()
    } else {
        models.openai.clone()
    }
}

/// The first of two optional values that is given.
pub open spec fn first_given(a: Option<Seq<char>>, b: Option<Seq<char>>) -> Option<Seq<char>> {
    match a {
        Some(x) => Some(x),
        None => b,
    }
}

/// The model a chat request goes to: the one it overrides with, else the
/// one it names, else the configured model of the provider it overrides
/// with or names, or of the default provider.
pub open spec fn chosen_model(
    model_override: Option<Seq<char>>,
    model: Option<Seq<char>>,
    provider_override: Option<Seq<char>>,
    provider: Option<Seq<char>>,
    default_provider: Seq<char>,
    m: DefaultModels,
) -> Seq<char> {
    match first_given(model_override, model) {
        Some(x) => x,
        None => model_for(
            match first_given(provider_override, provider) {
                Some(p) => p,
                None => default_provider,
            },
            m,
        ),
    }
}

/// The model a chat request goes to.
pub fn choose_model(
    model_override: Option<&str>,
    model: Option<&str>,
    provider_override: Option<&str>,
    provider: Option<&str>,
    default_provider: &str,
    models: &DefaultModels,
) -> (r: String)
    ensures
        r@ == chosen_model(
            match model_override {
                Some(s) => Some(s@),
                None => None,
            },
            match model {
                Some(s) => Some(s@),
                None => None,
            },
            match provider_override {
                Some(s) => Some(s@),
                None => None,
            },
            match provider {
                Some(s) => Some(s@),
                None => None,
            },
            default_provider@,
            *models,
        ),
{
    match model_override {
        Some(m) => {
            return m.to_owned();
        },
        None => {},
    }
    match model {
        Some(m) => {
            return m.to_owned();
        },
        None => {},
    }
    let name = match provider_override {
        Some(p) => p,
        None => match provider {
            Some(p) => p,
            None => default_provider,
        },
    };
    model_for_provider(name, models)
}

} // verus!

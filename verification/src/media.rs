//! Media generation: which image provider a request names, how providers
//! are labelled, where their API keys are looked for, and which plans may
//! generate video.

use vstd::prelude::*;

use crate::text::{chars_of, contains, contains_str, eq_str, lowercase, to_lowercase, to_uppercase, uppercase};

verus! {

broadcast use vstd::string::group_string_axioms;

/// The service under which API keys are kept in the system keyring.
pub const KEYRING_SERVICE: &'static str = "AGIWorkforce";

/// An image generation service.
#[derive(Debug, Clone, Copy, PartialEq, Eq, Structural)]
pub enum ImageProvider {
    GoogleImagen,
    GoogleImagenLite,
    DALLE,
    StableDiffusion,
    Midjourney,
}

/// A request for images.
#[derive(Debug)]
pub struct MediaImageRequest {
    pub prompt: String,
    pub negative_prompt: Option<String>,
    pub provider: Option<String>,
    pub model: Option<String>,
    pub size: Option<String>,
    pub quality: Option<String>,
    pub style: Option<String>,
    pub n: Option<u32>,
}

/// A request for a video.
#[derive(Debug)]
pub struct MediaVideoRequest {
    pub prompt: String,
    pub negative_prompt: Option<String>,
    pub duration_secs: Option<u32>,
    pub resolution: Option<String>,
    pub style: Option<String>,
    pub model: Option<String>,
    pub plan: Option<String>,
}

/// The provider a source names (Google Imagen by default).
pub open spec fn image_provider_of(source: Seq<char>) -> ImageProvider {
    if source == "google_imagen_lite"@ || source == "nano_banana"@ || source == "imagen_nano"@ {
        ImageProvider::GoogleImagenLite
    } else if source == "dalle"@ || source == "openai"@ || source == "openai_dalle"@ {
        ImageProvider::DALLE
    } else if source == "stable_diffusion"@ || source == "sdxl"@ || source == "stability"@ {
        ImageProvider::StableDiffusion
    } else if source == "midjourney"@ {
        ImageProvider::Midjourney
    } else {
        ImageProvider::GoogleImagen
    }
}

/// The image provider a request names, Google Imagen where it names none
/// or one that is not known.
pub fn map_image_provider(source: Option<&str>) -> (r: ImageProvider)
    ensures
        r == (match source {
            Some(s) => image_provider_of(s@),
            None => ImageProvider::GoogleImagen,
        }),
{
    let s = match source {
        Some(s) => chars_of(s),
        None => return ImageProvider::GoogleImagen,
    };
    if eq_str(&s, "google_imagen_lite") || eq_str(&s, "nano_banana") || eq_str(&s, "imagen_nano") {
        ImageProvider::GoogleImagenLite
    } else if eq_str(&s, "dalle") || eq_str(&s, "openai") || eq_str(&s, "openai_dalle") {
        ImageProvider::DALLE
    } else if eq_str(&s, "stable_diffusion") || eq_str(&s, "sdxl") || eq_str(&s, "stability") {
        ImageProvider::StableDiffusion
    } else if eq_str(&s, "midjourney") {
        ImageProvider::Midjourney
    } else {
        ImageProvider::GoogleImagen
    }
}

/// The key under which a provider's API key is looked for.
pub open spec fn hint_of(p: ImageProvider) -> Seq<char> {
    match p {
        ImageProvider::DALLE => "openai"@,
        ImageProvider::StableDiffusion => "stability"@,
        ImageProvider::Midjourney => "midjourney"@,
        ImageProvider::GoogleImagen | ImageProvider::GoogleImagenLite => "google"@,
    }
}

/// The key under which a provider's API key is looked for.
pub fn provider_hint(provider: &ImageProvider) -> (r: &'static str)
    ensures
        r@ == hint_of(*provider),
{
    match provider {
        ImageProvider::DALLE => "openai",
        ImageProvider::StableDiffusion => "stability",
        ImageProvider::Midjourney => "midjourney",
        ImageProvider::GoogleImagen | ImageProvider::GoogleImagenLite => "google",
    }
}

/// The model label reported for a provider.
pub open spec fn label_of(p: ImageProvider) -> Seq<char> {
    match p {
        ImageProvider::DALLE => "dall-e-3"@,
        ImageProvider::StableDiffusion => "stability-sdxl"@,
        ImageProvider::Midjourney => "midjourney"@,
        ImageProvider::GoogleImagen => "google-imagen-3.1-pro"@,
        ImageProvider::GoogleImagenLite => "google-imagen-3.1-nano"@,
    }
}

/// The model label reported for a provider.
pub fn provider_to_label(provider: &ImageProvider) -> (r: &'static str)
    ensures
        r@ == label_of(*provider),
{
    match provider {
        ImageProvider::DALLE => "dall-e-3",
        ImageProvider::StableDiffusion => "stability-sdxl",
        ImageProvider::Midjourney => "midjourney",
        ImageProvider::GoogleImagen => "google-imagen-3.1-pro",
        ImageProvider::GoogleImagenLite => "google-imagen-3.1-nano",
    }
}

/// The environment variables that may hold a provider's API key, in the
/// order they are tried; the provider's name in upper case for an unknown
/// one.
pub open spec fn api_key_names(provider: Seq<char>) -> Seq<Seq<char>> {
    if provider == "openai"@ {
        seq!["OPENAI_API_KEY"@]
    } else if provider == "stability"@ {
        seq!["STABILITY_API_KEY"@, "STABILITY_KEY"@]
    } else if provider == "midjourney"@ {
        seq!["MIDJOURNEY_API_KEY"@]
    } else if provider == "google"@ {
        seq!["GOOGLE_API_KEY"@, "VERTEX_API_KEY"@, "GENAI_API_KEY"@]
    } else {
        seq![uppercase(provider)]
    }
}

/// The environment variables that may hold a provider's API key.
pub fn api_key_env_names(provider: &str) -> (r: Vec<String>)
    ensures
        r.deep_view() == api_key_names(provider@),
{
    let p = chars_of(provider);
    let r: Vec<String> = if eq_str(&p, "openai") {
        vec!["OPENAI_API_KEY".to_owned()]
    } else if eq_str(&p, "stability") {
        vec!["STABILITY_API_KEY".to_owned(), "STABILITY_KEY".to_owned()]
    } else if eq_str(&p, "midjourney") {
        vec!["MIDJOURNEY_API_KEY".to_owned()]
    } else if eq_str(&p, "google") {
        vec!["GOOGLE_API_KEY".to_owned(), "VERTEX_API_KEY".to_owned(), "GENAI_API_KEY".to_owned()]
    } else {
        vec![to_uppercase(provider)]
    };
    assert(r.deep_view() =~= api_key_names(provider@));
    r
}

/// The name under which a provider's API key is kept in the keyring.
pub open spec fn keyring_entry_name(provider: Seq<char>) -> Seq<char> {
    "api_key_"@ + provider
}

/// The name under which a provider's API key is kept in the keyring.
pub fn keyring_entry(provider: &str) -> (r: String)
    ensures
        r@ == keyring_entry_name(provider@),
{
    let mut r = "api_key_".to_owned();
    crate::text::append_str(&mut r, provider);
    r
}

/// The plans that may generate video, matched within the plan's name.
pub open spec fn video_plans() -> Seq<Seq<char>> {
    seq!["pro"@, "proplus"@, "max"@, "team"@, "enterprise"@, "pro+"@, "premium"@]
}

/// A plan may generate video where its lower-cased name holds one of the
/// video plans.
pub open spec fn allows_video(plan: Seq<char>) -> bool {
    exists|i: int| 0 <= i < video_plans().len() && contains(lowercase(plan), #[trigger] video_plans()[i])
}

/// Video generation is refused, with `"Video generation requires Pro or
/// Max subscription"`, where a plan is named that does not allow it.
pub fn video_plan_check(plan: Option<&str>) -> (r: Result<(), String>)
    ensures
        r is Ok <==> (match plan {
            Some(p) => allows_video(p@),
            None => true,
        }),
        r matches Err(e) ==> e@ == "Video generation requires Pro or Max subscription"@,
{
    match plan {
        Some(p) => if plan_allows_video(p) {
            Ok(())
        } else {
            Err("Video generation requires Pro or Max subscription".to_owned())
        },
        None => Ok(()),
    }
}

/// Whether a plan may generate video.
pub fn plan_allows_video(plan: &str) -> (r: bool)
    ensures
        r == allows_video(plan@),
{
    let plan_lc = chars_of(to_lowercase(plan).as_str());
    let allowed: Vec<&str> = vec!["pro", "proplus", "max", "team", "enterprise", "pro+", "premium"];
    assert(allowed@.map_values(|e: &str| e@) =~= video_plans());
    let mut i: usize = 0;
    while i < allowed.len()
        invariant
            i <= allowed.len(),
            allowed@.map_values(|e: &str| e@) == video_plans(),
            plan_lc@ == lowercase(plan@),
            forall|j: int| 0 <= j < i ==> !contains(lowercase(plan@), #[trigger] video_plans()[j]),
        decreases allowed.len() - i,
    {
        assert(video_plans()[i as int] == allowed@[i as int]@);
        if contains_str(&plan_lc, allowed[i]) {
            return true;
        }
        i += 1;
    }
    false
}

} // verus!

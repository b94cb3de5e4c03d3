//! Provider routing: which backend, endpoint, key, model and images a chat
//! turn uses; which models take images; how stream lines of each provider
//! read; and how a transcription request is set up.

use crate::config::AppConfig;
use crate::text::{chars_of, concat, contains_str, owned, starts_with, str_eq, trim, trimmed};
use vstd::prelude::*;

verus! {

/// Names the result of `str::to_lowercase` (full Unicode lowercase mapping).
pub uninterp spec fn lowercase_of(s: Seq<char>) -> Seq<char>;

/// Calls `str::to_lowercase`. The contract claims only that the result is
/// the named lowercase form of the argument.
#[verifier::external_body]
fn lowercase(s: &str) -> (r: String)
    ensures
        r@ == lowercase_of(s@),
{
    s.to_lowercase()
}

/// Names the string found by parsing `text` as JSON (`serde_json::from_str`
/// into a `Value`), following the JSON Pointer `pointer` (`Value::pointer`)
/// and reading a string there (`Value::as_str`); `None` when any step fails.
pub uninterp spec fn json_str_at(text: Seq<char>, pointer: Seq<char>) -> Option<Seq<char>>;

/// Names the text that the OpenAI streaming format puts at
/// `choices[0].delta.content` of the JSON in `text`, read by indexing a
/// parsed `Value` (`None` when `text` is not JSON or there is no string
/// there).
pub uninterp spec fn json_choice_content(text: Seq<char>) -> Option<Seq<char>>;

/// Parses `text` with `serde_json::from_str` and reads
/// `v["choices"][0]["delta"]["content"]` with `Value`'s indexing and
/// `Value::as_str`. The contract claims only that the result is the named
/// lookup.
#[verifier::external_body]
fn first_choice_content(text: &str) -> (r: Option<String>)
    ensures
        match r {
            Some(s) => json_choice_content(text@) == Some(s@),
            None => json_choice_content(text@) is None,
        },
{
    match serde_json::from_str::<serde_json::Value>(text) {
        Ok(v) => match v["choices"][0]["delta"]["content"].as_str() {
            Some(c) => Some(c.to_string()),
            None => None,
        },
        Err(_) => None,
    }
}

/// Names the value that `serde_json::from_str` parses `text` into (`None`
/// when `text` is not JSON).
pub uninterp spec fn json_value_of(text: Seq<char>) -> Option<serde_json::Value>;

/// Parses `text` with `serde_json::from_str`, looks up `pointer` with
/// `Value::pointer` and reads the string there with `Value::as_str`. The
/// contract claims only that the result is the named lookup.
#[verifier::external_body]
fn json_string_at(text: &str, pointer: &str) -> (r: Option<String>)
    ensures
        match r {
            Some(s) => json_str_at(text@, pointer@) == Some(s@),
            None => json_str_at(text@, pointer@) is None,
        },
{
    match serde_json::from_str::<serde_json::Value>(text) {
        Ok(v) => match v.pointer(pointer) {
            Some(found) => match found.as_str() {
                Some(s) => Some(s.to_string()),
                None => None,
            },
            None => None,
        },
        Err(_) => None,
    }
}

/// Parses `text` with `serde_json::from_str` into a `Value`. The contract
/// claims that the result is the named parse of `text`.
#[verifier::external_body]
fn parse_json(text: &str) -> (r: Option<serde_json::Value>)
    ensures
        r == json_value_of(text@),
{
    match serde_json::from_str::<serde_json::Value>(text) {
        Ok(v) => Some(v),
        Err(_) => None,
    }
}

/// Names what `base64`'s standard engine decodes from `text`: the bytes,
/// or the rendered message of the error it rejects the text with.
pub uninterp spec fn base64_decoded(text: Seq<char>) -> Result<Seq<u8>, Seq<char>>;

/// Decodes `text` with `base64::engine::general_purpose::STANDARD.decode`;
/// the error is rendered with `to_string`. The contract claims that the
/// bytes, or the error's message, are the named decoding of `text`.
#[verifier::external_body]
fn base64_decode(text: &str) -> (r: Result<Vec<u8>, String>)
    ensures
        match r {
            Ok(v) => base64_decoded(text@) == Ok::<Seq<u8>, Seq<char>>(v@),
            Err(e) => base64_decoded(text@) == Err::<Seq<u8>, Seq<char>>(e@),
        },
{
    match base64::Engine::decode(&base64::engine::general_purpose::STANDARD, text) {
        Ok(v) => Ok(v),
        Err(e) => Err(e.to_string()),
    }
}

// ── Vision-capable model names ───────────────────────────────────────────────

pub open spec fn prefix(s: Seq<char>, p: Seq<char>) -> bool {
    p.is_prefix_of(s)
}

pub open spec fn has(s: Seq<char>, p: Seq<char>) -> bool {
    crate::text::has_substring(s, p)
}

/// OpenAI model ids (already lowercase) that accept images.
pub open spec fn openai_vision_name(id: Seq<char>) -> bool {
    ||| prefix(id, "gpt-4o"@)
    ||| prefix(id, "chatgpt-4o"@)
    ||| prefix(id, "gpt-4-turbo"@)
    ||| has(id, "gpt-4-vision"@)
    ||| id == "o1"@
    ||| prefix(id, "o1-preview"@)
    ||| prefix(id, "o1-202"@)
    ||| prefix(id, "o3"@)
    ||| prefix(id, "o4"@)
}

/// Groq model ids (already lowercase) that accept images: the Llama 4
/// family, `llama3.2` (the vision variant there), any id naming `vision`
/// (such as `llama-3.2-11b-vision`) and the LLaVA family.
pub open spec fn groq_vision_name(id: Seq<char>) -> bool {
    ||| has(id, "llama-4"@)
    ||| has(id, "llama3.2"@)
    ||| has(id, "vision"@)
    ||| has(id, "llava"@)
}

/// Ollama model names (already lowercase) of vision families.
pub open spec fn ollama_vision_name(id: Seq<char>) -> bool {
    ||| has(id, "llava"@)
    ||| has(id, "vision"@)
    ||| has(id, "minicpm-v"@)
    ||| has(id, "moondream"@)
    ||| has(id, "bakllava"@)
    ||| has(id, "cogvlm"@)
    ||| has(id, "llama3.2"@)
    ||| has(id, "llama-3.2"@)
    ||| has(id, "llama4"@)
    ||| has(id, "llama-4"@)
    ||| has(id, "gemma3"@)
    ||| has(id, "qwen2-vl"@)
    ||| has(id, "qwen2.5vl"@)
    ||| has(id, "internvl"@)
    ||| has(id, "phi3-vision"@)
    ||| has(id, "phi-3-vision"@)
}

/// The OpenAI vision families: an id (in lowercase) accepts images exactly
/// when it starts with `gpt-4o`, `chatgpt-4o`, `gpt-4-turbo`, `o1-preview`,
/// `o1-202` (dated o1 releases), `o3` or `o4`, names `gpt-4-vision`, or is
/// `o1` itself; so `o4-mini` does, `o1-mini` and `gpt-3.5-turbo` do not.
pub proof fn lemma_openai_vision_families(id: Seq<char>)
    ensures
        openai_vision_name(id) <==> ("gpt-4o"@.is_prefix_of(id) || "chatgpt-4o"@.is_prefix_of(id)
            || "gpt-4-turbo"@.is_prefix_of(id) || "o1-preview"@.is_prefix_of(id)
            || "o1-202"@.is_prefix_of(id) || "o3"@.is_prefix_of(id) || "o4"@.is_prefix_of(id)
            || has(id, "gpt-4-vision"@) || id == "o1"@),
{
}

/// The Groq vision families: an id (in lowercase) accepts images exactly
/// when it names `llama-4`, `llama3.2`, `vision` or `llava`.
pub proof fn lemma_groq_vision_families(id: Seq<char>)
    ensures
        groq_vision_name(id) <==> (has(id, "llama-4"@) || has(id, "llama3.2"@) || has(id, "vision"@)
            || has(id, "llava"@)),
{
}

/// The Ollama vision families, by a name fragment each.
pub proof fn lemma_ollama_vision_families(id: Seq<char>)
    ensures
        ollama_vision_name(id) <==> (has(id, "llava"@) || has(id, "vision"@) || has(
            id,
            "minicpm-v"@,
        ) || has(id, "moondream"@) || has(id, "bakllava"@) || has(id, "cogvlm"@) || has(
            id,
            "llama3.2"@,
        ) || has(id, "llama-3.2"@) || has(id, "llama4"@) || has(id, "llama-4"@) || has(
            id,
            "gemma3"@,
        ) || has(id, "qwen2-vl"@) || has(id, "qwen2.5vl"@) || has(id, "internvl"@) || has(
            id,
            "phi3-vision"@,
        ) || has(id, "phi-3-vision"@)),
{
}

/// Whether a lowercase OpenAI model id accepts images.
pub fn openai_vision_lowercase(id: &str) -> (b: bool)
    ensures
        b == openai_vision_name(id@),
{
    starts_with(id, "gpt-4o") || starts_with(id, "chatgpt-4o") || starts_with(id, "gpt-4-turbo")
        || contains_str(id, "gpt-4-vision") || str_eq(id, "o1") || starts_with(id, "o1-preview")
        || starts_with(id, "o1-202") || starts_with(id, "o3") || starts_with(id, "o4")
}

/// Whether a lowercase Groq model id accepts images.
pub fn groq_vision_lowercase(id: &str) -> (b: bool)
    ensures
        b == groq_vision_name(id@),
{
    contains_str(id, "llama-4") || contains_str(id, "llama3.2") || contains_str(id, "vision")
        || contains_str(id, "llava")
}

/// Whether a lowercase Ollama model name is of a vision family.
pub fn ollama_vision_lowercase(id: &str) -> (b: bool)
    ensures
        b == ollama_vision_name(id@),
{
    contains_str(id, "llava") || contains_str(id, "vision") || contains_str(id, "minicpm-v")
        || contains_str(id, "moondream") || contains_str(id, "bakllava") || contains_str(
        id,
        "cogvlm",
    ) || contains_str(id, "llama3.2") || contains_str(id, "llama-3.2") || contains_str(
        id,
        "llama4",
    ) || contains_str(id, "llama-4") || contains_str(id, "gemma3") || contains_str(
        id,
        "qwen2-vl",
    ) || contains_str(id, "qwen2.5vl") || contains_str(id, "internvl") || contains_str(
        id,
        "phi3-vision",
    ) || contains_str(id, "phi-3-vision")
}

/// Whether an OpenAI model accepts images (compared in lowercase).
pub fn is_openai_vision(id: &str) -> (b: bool)
    ensures
        b == openai_vision_name(lowercase_of(id@)),
{
    let l = lowercase(id);
    openai_vision_lowercase(l.as_str())
}

/// Whether a Groq model accepts images (compared in lowercase).
pub fn is_groq_vision(id: &str) -> (b: bool)
    ensures
        b == groq_vision_name(lowercase_of(id@)),
{
    let l = lowercase(id);
    groq_vision_lowercase(l.as_str())
}

/// Whether an Ollama model is of a vision family (compared in lowercase).
pub fn is_ollama_vision(id: &str) -> (b: bool)
    ensures
        b == ollama_vision_name(lowercase_of(id@)),
{
    let l = lowercase(id);
    ollama_vision_lowercase(l.as_str())
}

/// Whether model `id` of `provider` is listed as vision-capable: every
/// Anthropic model is; unknown providers are treated as Ollama.
pub open spec fn is_vision_model(provider: Seq<char>, id: Seq<char>) -> bool {
    if provider == "openai"@ {
        openai_vision_name(lowercase_of(id))
    } else if provider == "groq"@ {
        groq_vision_name(lowercase_of(id))
    } else if provider == "anthropic"@ {
        true
    } else {
        ollama_vision_name(lowercase_of(id))
    }
}

/// The models of `all` that `keep` accepts, in order.
pub open spec fn filter_models(all: Seq<Seq<char>>, provider: Seq<char>) -> Seq<Seq<char>>
    decreases all.len(),
{
    if all.len() == 0 {
        all
    } else {
        let rest = filter_models(all.drop_last(), provider);
        if is_vision_model(provider, all.last()) {
            rest.push(all.last())
        } else {
            rest
        }
    }
}

pub open spec fn strings_view(v: Seq<String>) -> Seq<Seq<char>> {
    v.map_values(|s: String| s@)
}

fn is_vision_model_exec(provider: &str, id: &str) -> (b: bool)
    ensures
        b == is_vision_model(provider@, id@),
{
    if str_eq(provider, "openai") {
        is_openai_vision(id)
    } else if str_eq(provider, "groq") {
        is_groq_vision(id)
    } else if str_eq(provider, "anthropic") {
        true
    } else {
        is_ollama_vision(id)
    }
}

/// The vision-capable models among `all` for `provider`, in order.
pub fn vision_models(provider: &str, all: Vec<String>) -> (v: Vec<String>)
    ensures
        strings_view(v@) == filter_models(strings_view(all@), provider@),
{
    let mut out: Vec<String> = Vec::new();
    let mut rest = all;
    let ghost orig = strings_view(rest@);
    let ghost mut k: int = 0;
    while rest.len() > 0
        invariant
            0 <= k <= orig.len(),
            strings_view(rest@) == orig.subrange(k, orig.len() as int),
            strings_view(out@) == filter_models(orig.subrange(0, k), provider@),
        decreases rest@.len(),
    {
        let ghost before = rest@;
        proof {
            assert(strings_view(rest@).len() == rest@.len());
            assert(k < orig.len());
        }
        let m = rest.remove(0);
        proof {
            assert(strings_view(before)[0] == m@);
            assert(orig[k] == strings_view(before)[0]);
            assert(orig.subrange(0, k + 1).drop_last() =~= orig.subrange(0, k));
            assert(orig.subrange(0, k + 1).last() == m@);
        }
        let keep = is_vision_model_exec(provider, m.as_str());
        let ghost out_before = out@;
        if keep {
            out.push(m);
            proof {
                assert(strings_view(out@) =~= strings_view(out_before).push(m@));
            }
        }
        proof {
            assert(rest@ =~= before.remove(0));
            assert forall|i: int| 0 <= i < strings_view(rest@).len() implies strings_view(rest@)[i]
                == orig.subrange(k + 1, orig.len() as int)[i] by {
                assert(rest@[i] == before[i + 1]);
                assert(strings_view(before)[i + 1] == orig[k + i + 1]);
            }
            assert(strings_view(rest@) =~= orig.subrange(k + 1, orig.len() as int));
            k = k + 1;
        }
    }
    assert(orig.subrange(0, k) =~= orig);
    out
}

/// The vision models of a provider from the result of listing all its
/// models: a listing error is passed on as it is, a list is filtered.
pub fn vision_models_of_listing(provider: &str, listed: Result<Vec<String>, String>) -> (r: Result<
    Vec<String>,
    String,
>)
    ensures
        match listed {
            Err(e) => r == Err::<Vec<String>, String>(e),
            Ok(all) => r matches Ok(v) && strings_view(v@) == filter_models(
                strings_view(all@),
                provider@,
            ),
        },
{
    match listed {
        Err(e) => Err(e),
        Ok(all) => Ok(vision_models(provider, all)),
    }
}

// ── Model and image choice for a chat turn ───────────────────────────────────

/// Whether an image list is present and non-empty.
pub open spec fn has_images(images: Option<Vec<String>>) -> bool {
    match images {
        Some(v) => v@.len() > 0,
        None => false,
    }
}

/// Model and images actually sent: Ollama routes by itself; with images,
/// cloud providers use the vision model when one is set and drop the images
/// otherwise.
pub open spec fn resolved_vision(
    model: String,
    images: Option<Vec<String>>,
    vision_model: Seq<char>,
    provider: Seq<char>,
) -> (Seq<char>, Option<Vec<String>>) {
    if provider == "ollama"@ || !has_images(images) {
        (model@, images)
    } else if vision_model.len() > 0 {
        (vision_model, images)
    } else {
        (model@, None)
    }
}

/// Chooses the model and images to send for a cloud query.
pub fn resolve_vision(model: String, images: Option<Vec<String>>, vision_model: &str, provider: &str) -> (r: (
    String,
    Option<Vec<String>>,
))
    ensures
        (r.0@, r.1) == resolved_vision(model, images, vision_model@, provider@),
{
    if str_eq(provider, "ollama") {
        return (model, images);
    }
    let present = match &images {
        Some(v) => v.len() > 0,
        None => false,
    };
    if !present {
        return (model, images);
    }
    if !vision_model.is_empty() {
        (owned(vision_model), images)
    } else {
        (model, None)
    }
}

/// The note put before the first prompt of a conversation that carries a
/// screenshot.
pub open spec fn screen_context_note() -> Seq<char> {
    "[SCREEN CONTEXT: A screenshot of the user's screen is attached for background context only. Respond directly to the user's message below. Only reference the screen if the user's message is specifically about what is shown on screen.]\n\n"@
}

/// The backends a chat turn can go to.
#[derive(Clone, Copy, Debug, PartialEq, Eq, Structural)]
pub enum Backend {
    OpenAi,
    Groq,
    Anthropic,
    Ollama,
}

/// The backend for a provider name; anything unknown goes to Ollama.
pub open spec fn backend_of(provider: Seq<char>) -> Backend {
    if provider == "openai"@ {
        Backend::OpenAi
    } else if provider == "groq"@ {
        Backend::Groq
    } else if provider == "anthropic"@ {
        Backend::Anthropic
    } else {
        Backend::Ollama
    }
}

pub fn backend_for(provider: &str) -> (b: Backend)
    ensures
        b == backend_of(provider@),
{
    if str_eq(provider, "openai") {
        Backend::OpenAi
    } else if str_eq(provider, "groq") {
        Backend::Groq
    } else if str_eq(provider, "anthropic") {
        Backend::Anthropic
    } else {
        Backend::Ollama
    }
}

/// The provider name of each backend.
pub open spec fn backend_name(b: Backend) -> Seq<char> {
    match b {
        Backend::OpenAi => "openai"@,
        Backend::Groq => "groq"@,
        Backend::Anthropic => "anthropic"@,
        Backend::Ollama => "ollama"@,
    }
}

/// The provider name a backend goes by; it leads back to the backend.
pub fn provider_name(b: Backend) -> (name: &'static str)
    ensures
        name@ == backend_name(b),
        backend_of(name@) == b,
{
    proof {
        reveal_strlit("openai");
        reveal_strlit("groq");
        reveal_strlit("anthropic");
        reveal_strlit("ollama");
        assert("openai"@.len() == 6 && "groq"@.len() == 4 && "anthropic"@.len() == 9
            && "ollama"@.len() == 6);
        assert("ollama"@[1] != "openai"@[1]);
    }
    match b {
        Backend::OpenAi => "openai",
        Backend::Groq => "groq",
        Backend::Anthropic => "anthropic",
        Backend::Ollama => "ollama",
    }
}

/// Everything a chat turn sends, before it is put into the backend's wire
/// format.
pub struct ChatPlan {
    pub backend: Backend,
    pub url: String,
    pub api_key: String,
    pub model: String,
    /// System prompt; never empty.
    pub system: Option<String>,
    /// Images attached to the user message; only on the first turn.
    pub images: Option<Vec<String>>,
    pub prompt: String,
}

/// The endpoint each backend streams a chat from.
pub open spec fn chat_url(b: Backend) -> Seq<char> {
    match b {
        Backend::OpenAi => "https://api.openai.com/v1/chat/completions"@,
        Backend::Groq => "https://api.groq.com/openai/v1/chat/completions"@,
        Backend::Anthropic => "https://api.anthropic.com/v1/messages"@,
        Backend::Ollama => "http://localhost:11434/api/chat"@,
    }
}

/// The key each backend is called with.
pub open spec fn chat_key(b: Backend, config: AppConfig) -> Seq<char> {
    match b {
        Backend::OpenAi => config.openai_api_key@,
        Backend::Groq => config.groq_api_key@,
        Backend::Anthropic => config.anthropic_api_key@,
        Backend::Ollama => Seq::empty(),
    }
}

/// The system prompt in effect: the caller's, else the configured one when
/// it is set; an empty one is not sent.
pub open spec fn effective_system(system: Option<String>, configured: Seq<char>) -> Option<Seq<char>> {
    match system {
        Some(s) => if s@.len() > 0 {
            Some(s@)
        } else {
            None
        },
        None => if configured.len() > 0 {
            Some(configured)
        } else {
            None
        },
    }
}

/// `plan` is what a chat turn sends for these arguments and settings.
pub open spec fn is_chat_plan(
    plan: ChatPlan,
    prompt: Seq<char>,
    model: String,
    system: Option<String>,
    images: Option<Vec<String>>,
    follow_up: bool,
    config: AppConfig,
) -> bool {
    let b = backend_of(config.provider@);
    let (m, imgs) = resolved_vision(model, images, config.vision_model@, config.provider@);
    &&& plan.backend == b
    &&& plan.url@ == request_url(b, config)
    &&& plan.api_key@ == chat_key(b, config)
    &&& plan.model@ == m
    &&& match plan.system {
        Some(s) => effective_system(system, config.system_prompt@) == Some(s@),
        None => effective_system(system, config.system_prompt@) is None,
    }
    &&& plan.images == if follow_up {
        None
    } else {
        imgs
    }
    &&& plan.prompt@ == if follow_up || imgs is None {
        prompt
    } else {
        screen_context_note() + prompt
    }
}

/// Decides what a chat turn sends: backend and endpoint from the provider
/// (Ollama at the configured base URL),
/// the key of that provider, the model and images after vision routing, the
/// system prompt in effect, and the prompt, prefixed with a note when a
/// screenshot goes with the first turn. `follow_up` tells whether earlier
/// turns of the conversation are sent along.
pub fn plan_chat(
    prompt: String,
    model: String,
    system: Option<String>,
    images: Option<Vec<String>>,
    follow_up: bool,
    config: &AppConfig,
) -> (plan: ChatPlan)
    ensures
        is_chat_plan(plan, prompt@, model, system, images, follow_up, *config),
{
    let backend = backend_for(config.provider.as_str());
    let (m, imgs) = resolve_vision(
        model,
        images,
        config.vision_model.as_str(),
        config.provider.as_str(),
    );
    let sys = match system {
        Some(s) => if !s.as_str().is_empty() {
            Some(s)
        } else {
            None
        },
        None => if !config.system_prompt.as_str().is_empty() {
            Some(config.system_prompt.clone())
        } else {
            None
        },
    };
    let full_prompt = if follow_up || imgs.is_none() {
        prompt
    } else {
        concat(
            "[SCREEN CONTEXT: A screenshot of the user's screen is attached for background context only. Respond directly to the user's message below. Only reference the screen if the user's message is specifically about what is shown on screen.]\n\n",
            prompt.as_str(),
        )
    };
    let (url, key) = match backend {
        Backend::OpenAi => (
            owned("https://api.openai.com/v1/chat/completions"),
            config.openai_api_key.clone(),
        ),
        Backend::Groq => (
            owned("https://api.groq.com/openai/v1/chat/completions"),
            config.groq_api_key.clone(),
        ),
        Backend::Anthropic => (
            owned("https://api.anthropic.com/v1/messages"),
            config.anthropic_api_key.clone(),
        ),
        Backend::Ollama => (
            ollama_endpoint(config.ollama_base_url.as_str(), "/api/chat"),
            String::new(),
        ),
    };
    proof {
        reveal_strlit("/api/chat");
    }
    ChatPlan {
        backend,
        url,
        api_key: key,
        model: m,
        system: sys,
        images: if follow_up {
            None
        } else {
            imgs
        },
        prompt: full_prompt,
    }
}

// ── The user message ────────────────────────────────────────────────────────

/// How the user message of a chat turn is laid out.
pub enum UserContent {
    /// The prompt as a plain string.
    Plain(String),
    /// Content blocks: one per image (its base64 data), then the prompt.
    Blocks(Vec<String>, String),
}

/// The images a plan attaches, none when it has none.
pub open spec fn plan_images(plan: ChatPlan) -> Seq<String> {
    match plan.images {
        Some(v) => v@,
        None => Seq::empty(),
    }
}

/// Lays out the user message of a chat turn. Anthropic always takes content
/// blocks, the images first and then the prompt; the OpenAI-compatible
/// APIs take blocks only when there is an image, else the plain prompt.
pub fn user_content(plan: &ChatPlan) -> (c: UserContent)
    ensures
        (plan.backend == Backend::Anthropic || plan_images(*plan).len() > 0) ==> (c matches UserContent::Blocks(
            imgs,
            text,
        ) && imgs@ == plan_images(*plan) && text@ == plan.prompt@),
        !(plan.backend == Backend::Anthropic || plan_images(*plan).len() > 0) ==> (c matches UserContent::Plain(
            text,
        ) && text@ == plan.prompt@),
{
    let imgs: Vec<String> = match &plan.images {
        Some(v) => v.clone(),
        None => Vec::new(),
    };
    proof {
        assert(imgs@ == plan_images(*plan));
    }
    if plan.backend == Backend::Anthropic || imgs.len() > 0 {
        UserContent::Blocks(imgs, plan.prompt.clone())
    } else {
        UserContent::Plain(plan.prompt.clone())
    }
}

/// The data URL of a base64-encoded PNG, as OpenAI image parts carry it.
pub fn image_data_url(b64: &str) -> (url: String)
    ensures
        url@ == "data:image/png;base64,"@ + b64@,
{
    concat("data:image/png;base64,", b64)
}

// ── Endpoints ───────────────────────────────────────────────────────────────

/// `s` without trailing slashes, as `trim_end_matches('/')` gives.
pub open spec fn without_trailing_slashes(s: Seq<char>) -> Seq<char>
    decreases s.len(),
{
    if s.len() > 0 && s.last() == '/' {
        without_trailing_slashes(s.drop_last())
    } else {
        s
    }
}

/// An Ollama API endpoint: the base URL without trailing slashes, then `path`.
pub fn ollama_endpoint(base_url: &str, path: &str) -> (url: String)
    ensures
        url@ == without_trailing_slashes(base_url@) + path@,
{
    let v = chars_of(base_url);
    let mut n: usize = v.len();
    assert(v@.subrange(0, n as int) =~= base_url@);
    while n > 0 && v[n - 1] == '/'
        invariant
            n <= v@.len(),
            v@ == base_url@,
            without_trailing_slashes(v@.subrange(0, n as int)) == without_trailing_slashes(
                base_url@,
            ),
        decreases n,
    {
        proof {
            assert(v@.subrange(0, n as int).drop_last() =~= v@.subrange(0, n - 1));
        }
        n -= 1;
    }
    proof {
        if n > 0 {
            assert(v@.subrange(0, n as int).last() == v@[n - 1]);
        }
    }
    let head = base_url.substring_char(0, n);
    concat(head, path)
}

/// Where a request of the tool-using loop goes and how it is shaped.
pub struct RequestPlan {
    pub backend: Backend,
    pub url: String,
    pub api_key: String,
    /// Whether image fields are removed from the messages because the model
    /// is text-only.
    pub strip_images: bool,
}

/// The endpoint of the tool-using loop for each backend.
pub open spec fn request_url(b: Backend, config: AppConfig) -> Seq<char> {
    match b {
        Backend::Ollama => without_trailing_slashes(config.ollama_base_url@) + "/api/chat"@,
        _ => chat_url(b),
    }
}

/// Decides where a request of the tool-using loop goes: the provider's
/// endpoint (Ollama at the configured base URL) with that provider's key,
/// and for OpenAI and Groq whether the default model is text-only so that
/// images must be removed.
pub fn plan_request(config: &AppConfig) -> (p: RequestPlan)
    ensures
        p.backend == backend_of(config.provider@),
        p.url@ == request_url(p.backend, *config),
        p.api_key@ == chat_key(p.backend, *config),
        p.strip_images == match p.backend {
            Backend::OpenAi => !openai_vision_name(lowercase_of(config.default_model@)),
            Backend::Groq => !groq_vision_name(lowercase_of(config.default_model@)),
            _ => false,
        },
{
    let backend = backend_for(config.provider.as_str());
    match backend {
        Backend::OpenAi => RequestPlan {
            backend,
            url: owned("https://api.openai.com/v1/chat/completions"),
            api_key: config.openai_api_key.clone(),
            strip_images: !is_openai_vision(config.default_model.as_str()),
        },
        Backend::Groq => RequestPlan {
            backend,
            url: owned("https://api.groq.com/openai/v1/chat/completions"),
            api_key: config.groq_api_key.clone(),
            strip_images: !is_groq_vision(config.default_model.as_str()),
        },
        Backend::Anthropic => RequestPlan {
            backend,
            url: owned("https://api.anthropic.com/v1/messages"),
            api_key: config.anthropic_api_key.clone(),
            strip_images: false,
        },
        Backend::Ollama => RequestPlan {
            backend,
            url: ollama_endpoint(config.ollama_base_url.as_str(), "/api/chat"),
            api_key: String::new(),
            strip_images: false,
        },
    }
}

/// How the model list of a provider is fetched.
pub enum ModelSource {
    /// An OpenAI-compatible `/models` endpoint.
    Compatible { url: String },
    /// The fixed Anthropic list.
    AnthropicList,
    /// Ollama's `/api/tags` at the given URL.
    OllamaTags { url: String },
}

/// Decides where the model list of `provider` comes from.
pub fn model_source(provider: &str, base_url: &str) -> (s: ModelSource)
    ensures
        match s {
            ModelSource::Compatible { url } => (provider@ == "openai"@ && url@
                == "https://api.openai.com/v1/models"@) || (provider@ == "groq"@ && url@
                == "https://api.groq.com/openai/v1/models"@),
            ModelSource::AnthropicList => provider@ == "anthropic"@,
            ModelSource::OllamaTags { url } => backend_of(provider@) == Backend::Ollama && url@
                == without_trailing_slashes(base_url@) + "/api/tags"@,
        },
{
    if str_eq(provider, "openai") {
        ModelSource::Compatible { url: owned("https://api.openai.com/v1/models") }
    } else if str_eq(provider, "groq") {
        ModelSource::Compatible { url: owned("https://api.groq.com/openai/v1/models") }
    } else if str_eq(provider, "anthropic") {
        ModelSource::AnthropicList
    } else {
        ModelSource::OllamaTags { url: ollama_endpoint(base_url, "/api/tags") }
    }
}

// ── Error messages ───────────────────────────────────────────────────────────

/// The message a provider put in an error body at `pointer`, else `fallback`.
pub fn error_message(body: &str, pointer: &str, fallback: String) -> (m: String)
    ensures
        m@ == match json_str_at(body@, pointer@) {
            Some(s) => s,
            None => fallback@,
        },
{
    match json_string_at(body, pointer) {
        Some(s) => s,
        None => fallback,
    }
}

// ── Stream lines ─────────────────────────────────────────────────────────────

/// What one line of a response stream means.
pub enum StreamEvent {
    /// A piece of the answer.
    Token(String),
    /// The answer is complete.
    Done,
    /// An Ollama line, passed through as parsed JSON.
    Json(serde_json::Value),
}

/// What `normalise_line` gives for a trimmed, non-empty line, as
/// `Some(Some(token))` for a token, `Some(None)` for the end of the answer,
/// and `None` for a line to skip; Ollama lines are not covered here.
pub open spec fn sse_line_meaning(line: Seq<char>, provider: Seq<char>) -> Option<Option<Seq<char>>> {
    if !prefix(line, "data: "@) {
        None
    } else {
        let data = line.skip(6);
        if provider == "anthropic"@ {
            match json_str_at(data, "/type"@) {
                Some(t) => if t == "content_block_delta"@ {
                    match json_str_at(data, "/delta/text"@) {
                        Some(tok) => if tok.len() > 0 {
                            Some(Some(tok))
                        } else {
                            None
                        },
                        None => None,
                    }
                } else if t == "message_stop"@ {
                    Some(None)
                } else {
                    None
                },
                None => None,
            }
        } else if data == "[DONE]"@ {
            Some(None)
        } else {
            match json_choice_content(data) {
                Some(tok) => if tok.len() > 0 {
                    Some(Some(tok))
                } else {
                    None
                },
                None => None,
            }
        }
    }
}

/// Reads one raw line of a provider's stream. OpenAI and Groq send
/// `data: {json}` lines with the token at `choices[0].delta.content` and
/// `data: [DONE]` at the end; Anthropic sends `content_block_delta` events
/// with the token at `delta.text` and `message_stop` at the end; any other
/// provider is Ollama, whose lines are JSON passed through. Blank lines,
/// empty tokens and anything else are skipped.
pub fn normalise_line(line: &str, provider: &str) -> (r: Option<StreamEvent>)
    ensures
        trimmed(line@).len() == 0 ==> r is None,
        trimmed(line@).len() > 0 && (provider@ == "openai"@ || provider@ == "groq"@ || provider@
            == "anthropic"@) ==> match sse_line_meaning(trimmed(line@), provider@) {
            Some(Some(tok)) => r matches Some(StreamEvent::Token(t)) && t@ == tok,
            Some(None) => r matches Some(StreamEvent::Done),
            None => r is None,
        },
        trimmed(line@).len() > 0 && !(provider@ == "openai"@ || provider@ == "groq"@ || provider@
            == "anthropic"@) ==> match json_value_of(trimmed(line@)) {
            Some(v) => r == Some(StreamEvent::Json(v)),
            None => r is None,
        },
{
    let l = trim(line);
    if l.as_str().is_empty() {
        return None;
    }
    let l = l.as_str();
    let anthropic = str_eq(provider, "anthropic");
    if str_eq(provider, "openai") || str_eq(provider, "groq") || anthropic {
        if !starts_with(l, "data: ") {
            return None;
        }
        proof {
            reveal_strlit("data: ");
            assert(l@.len() >= 6);
        }
        let data = l.substring_char(6, l.unicode_len());
        proof {
            assert(data@ =~= l@.skip(6));
        }
        if anthropic {
            match json_string_at(data, "/type") {
                Some(t) => {
                    if str_eq(t.as_str(), "content_block_delta") {
                        match json_string_at(data, "/delta/text") {
                            Some(tok) => if !tok.as_str().is_empty() {
                                Some(StreamEvent::Token(tok))
                            } else {
                                None
                            },
                            None => None,
                        }
                    } else if str_eq(t.as_str(), "message_stop") {
                        Some(StreamEvent::Done)
                    } else {
                        None
                    }
                },
                None => None,
            }
        } else if str_eq(data, "[DONE]") {
            Some(StreamEvent::Done)
        } else {
            match first_choice_content(data) {
                Some(tok) => if !tok.as_str().is_empty() {
                    Some(StreamEvent::Token(tok))
                } else {
                    None
                },
                None => None,
            }
        }
    } else {
        match parse_json(l) {
            Some(v) => Some(StreamEvent::Json(v)),
            None => None,
        }
    }
}

// ── The answer of a streamed turn ───────────────────────────────────────────

/// What the streaming loop does after one event.
pub enum StreamAction {
    /// Show this piece of the answer.
    Emit(String),
    /// The answer is complete: show its end and record this full text.
    Finish(String),
    /// Nothing to do.
    Skip,
}

/// A `StreamAction` with its text as a sequence.
pub enum StreamActionView {
    Emit(Seq<char>),
    Finish(Seq<char>),
    Skip,
}

impl View for StreamAction {
    type V = StreamActionView;

    open spec fn view(&self) -> StreamActionView {
        match self {
            StreamAction::Emit(t) => StreamActionView::Emit(t@),
            StreamAction::Finish(t) => StreamActionView::Finish(t@),
            StreamAction::Skip => StreamActionView::Skip,
        }
    }
}

/// What an event means for the answer: `Some(Some(token))` for a token,
/// `Some(None)` for the end, `None` for anything else.
pub open spec fn answer_input(e: Option<StreamEvent>) -> Option<Option<Seq<char>>> {
    match e {
        Some(StreamEvent::Token(t)) => Some(Some(t@)),
        Some(StreamEvent::Done) => Some(None),
        _ => None,
    }
}

/// The answer state (text so far, whether the end was seen) after an input.
/// A non-empty token is added; the end closes the answer; a closed answer
/// takes nothing more.
pub open spec fn answer_step(s: (Seq<char>, bool), i: Option<Option<Seq<char>>>) -> (Seq<char>, bool) {
    if s.1 {
        s
    } else {
        match i {
            Some(Some(t)) => if t.len() > 0 {
                (s.0 + t, false)
            } else {
                s
            },
            Some(None) => (s.0, true),
            None => s,
        }
    }
}

/// The action for an input in answer state `s`.
pub open spec fn answer_action(s: (Seq<char>, bool), i: Option<Option<Seq<char>>>) -> StreamActionView {
    if s.1 {
        StreamActionView::Skip
    } else {
        match i {
            Some(Some(t)) => if t.len() > 0 {
                StreamActionView::Emit(t)
            } else {
                StreamActionView::Skip
            },
            Some(None) => StreamActionView::Finish(s.0),
            None => StreamActionView::Skip,
        }
    }
}

/// The answer state after a run of inputs.
pub open spec fn answer_run(s: (Seq<char>, bool), inputs: Seq<Option<Option<Seq<char>>>>) -> (
    Seq<char>,
    bool,
)
    decreases inputs.len(),
{
    if inputs.len() == 0 {
        s
    } else {
        answer_step(answer_run(s, inputs.drop_last()), inputs.last())
    }
}

/// Everything shown while a run of inputs is taken, in order.
pub open spec fn shown_text(s: (Seq<char>, bool), inputs: Seq<Option<Option<Seq<char>>>>) -> Seq<
    char,
>
    decreases inputs.len(),
{
    if inputs.len() == 0 {
        Seq::empty()
    } else {
        shown_text(s, inputs.drop_last()) + match answer_action(
            answer_run(s, inputs.drop_last()),
            inputs.last(),
        ) {
            StreamActionView::Emit(t) => t,
            _ => Seq::empty(),
        }
    }
}

/// The answer of a streamed turn, built from the events of its lines.
pub struct AnswerStream {
    text: String,
    finished: bool,
}

impl View for AnswerStream {
    type V = (Seq<char>, bool);

    closed spec fn view(&self) -> (Seq<char>, bool) {
        (self.text@, self.finished)
    }
}

impl AnswerStream {
    /// An answer with nothing received yet.
    pub fn new() -> (a: Self)
        ensures
            a@ == (Seq::<char>::empty(), false),
    {
        AnswerStream { text: String::new(), finished: false }
    }

    /// Takes the event of one line: a token is shown and added to the
    /// answer, the end finishes the answer and hands it over to be recorded.
    pub fn step(&mut self, event: Option<StreamEvent>) -> (a: StreamAction)
        ensures
            final(self)@ == answer_step(old(self)@, answer_input(event)),
            a@ == answer_action(old(self)@, answer_input(event)),
    {
        if self.finished {
            return StreamAction::Skip;
        }
        match event {
            Some(StreamEvent::Token(t)) => {
                if t.as_str().is_empty() {
                    StreamAction::Skip
                } else {
                    self.text.append(t.as_str());
                    StreamAction::Emit(t)
                }
            },
            Some(StreamEvent::Done) => {
                self.finished = true;
                StreamAction::Finish(self.text.clone())
            },
            _ => StreamAction::Skip,
        }
    }

    /// The stream has closed: the answer to record, unless the end was
    /// already seen and it was handed over then.
    pub fn close(self) -> (r: Option<String>)
        ensures
            match r {
                Some(t) => !self@.1 && t@ == self@.0,
                None => self@.1,
            },
    {
        if self.finished {
            None
        } else {
            Some(self.text)
        }
    }
}

/// The answer that is recorded is exactly what was shown, piece by piece,
/// in order: starting from an empty answer, the text after any run of
/// events is the concatenation of the emitted tokens, and the end hands
/// over that text.
pub proof fn lemma_recorded_answer_is_shown_text(
    inputs: Seq<Option<Option<Seq<char>>>>,
    next: Option<Option<Seq<char>>>,
)
    ensures
        answer_run((Seq::<char>::empty(), false), inputs).0 == shown_text(
            (Seq::<char>::empty(), false),
            inputs,
        ),
        answer_action(answer_run((Seq::<char>::empty(), false), inputs), next) matches StreamActionView::Finish(
            r,
        ) ==> r == shown_text((Seq::<char>::empty(), false), inputs),
    decreases inputs.len(),
{
    if inputs.len() > 0 {
        lemma_recorded_answer_is_shown_text(inputs.drop_last(), next);
    }
}

// ── Messages for Anthropic ────────────────────────────────────────────────────

/// A chat message as the tool-using loop holds it: the fields that are read
/// (role, text content, attached images) and the content as sent.
pub struct WireMessage {
    pub role: Option<String>,
    /// The content, passed on as it is.
    pub content: serde_json::Value,
    /// The content when it is a string.
    pub content_text: Option<String>,
    pub images: Option<Vec<serde_json::Value>>,
}

/// A non-system message with its role settled.
pub struct ChatTurn {
    pub role: String,
    pub content: serde_json::Value,
    pub images: Option<Vec<serde_json::Value>>,
}

pub open spec fn is_system_message(m: WireMessage) -> bool {
    m.role matches Some(r) && r@ == "system"@
}

/// The string contents of the system messages, in order.
pub open spec fn system_texts(ms: Seq<WireMessage>) -> Seq<Seq<char>>
    decreases ms.len(),
{
    if ms.len() == 0 {
        Seq::empty()
    } else {
        let rest = system_texts(ms.drop_last());
        if is_system_message(ms.last()) && ms.last().content_text is Some {
            rest.push(ms.last().content_text.unwrap()@)
        } else {
            rest
        }
    }
}

/// The messages that are not system messages, in order.
pub open spec fn non_system(ms: Seq<WireMessage>) -> Seq<WireMessage>
    decreases ms.len(),
{
    if ms.len() == 0 {
        Seq::empty()
    } else if is_system_message(ms.last()) {
        non_system(ms.drop_last())
    } else {
        non_system(ms.drop_last()).push(ms.last())
    }
}

/// The parts joined with a blank line between each two.
pub open spec fn join_paragraphs(parts: Seq<Seq<char>>) -> Seq<char>
    decreases parts.len(),
{
    if parts.len() == 0 {
        Seq::empty()
    } else if parts.len() == 1 {
        parts[0]
    } else {
        join_paragraphs(parts.drop_last()) + "\n\n"@ + parts.last()
    }
}

/// The role a message is sent with: its own, else `user`.
pub open spec fn role_or_user(m: WireMessage) -> Seq<char> {
    match m.role {
        Some(r) => r@,
        None => "user"@,
    }
}

/// Splits messages for Anthropic, whose API takes the system prompt apart:
/// the string contents of the system messages joined with blank lines
/// (`None` when there are none), and the other messages in order, with
/// `user` as the role where none is given.
pub fn split_system_messages(messages: Vec<WireMessage>) -> (r: (Option<String>, Vec<ChatTurn>))
    ensures
        system_texts(messages@).len() == 0 ==> r.0 is None,
        system_texts(messages@).len() > 0 ==> (r.0 matches Some(sys) && sys@ == join_paragraphs(
            system_texts(messages@),
        )),
        r.1@.len() == non_system(messages@).len(),
        forall|i: int|
            0 <= i < r.1@.len() ==> {
                &&& (#[trigger] r.1@[i]).role@ == role_or_user(non_system(messages@)[i])
                &&& r.1@[i].content == non_system(messages@)[i].content
                &&& r.1@[i].images == non_system(messages@)[i].images
            },
{
    let ghost orig = messages@;
    let mut rest = messages;
    let mut parts: Vec<String> = Vec::new();
    let mut turns: Vec<ChatTurn> = Vec::new();
    let ghost mut k: int = 0;
    while rest.len() > 0
        invariant
            0 <= k <= orig.len(),
            rest@ == orig.subrange(k, orig.len() as int),
            parts@.map_values(|p: String| p@) == system_texts(orig.subrange(0, k)),
            turns@.len() == non_system(orig.subrange(0, k)).len(),
            forall|i: int|
                0 <= i < turns@.len() ==> {
                    &&& (#[trigger] turns@[i]).role@ == role_or_user(
                        non_system(orig.subrange(0, k))[i],
                    )
                    &&& turns@[i].content == non_system(orig.subrange(0, k))[i].content
                    &&& turns@[i].images == non_system(orig.subrange(0, k))[i].images
                },
        decreases rest@.len(),
    {
        let ghost before = rest@;
        let m = rest.remove(0);
        proof {
            assert(orig.subrange(0, k + 1).drop_last() =~= orig.subrange(0, k));
            assert(orig.subrange(0, k + 1).last() == m);
        }
        let system = match &m.role {
            Some(r) => str_eq(r.as_str(), "system"),
            None => false,
        };
        if system {
            let ghost old_parts = parts@;
            match m.content_text {
                Some(t) => {
                    parts.push(t);
                    proof {
                        assert(parts@.map_values(|p: String| p@) =~= old_parts.map_values(
                            |p: String| p@,
                        ).push(m.content_text.unwrap()@));
                    }
                },
                None => {},
            }
        } else {
            let role = match m.role {
                Some(r) => r,
                None => owned("user"),
            };
            turns.push(ChatTurn { role, content: m.content, images: m.images });
        }
        proof {
            assert(rest@ =~= orig.subrange(k + 1, orig.len() as int));
            k = k + 1;
        }
    }
    proof {
        assert(orig.subrange(0, k) =~= orig);
    }
    if parts.len() == 0 {
        return (None, turns);
    }
    let mut joined = parts[0].clone();
    let mut i: usize = 1;
    let ghost pv = parts@.map_values(|p: String| p@);
    while i < parts.len()
        invariant
            1 <= i <= parts@.len(),
            pv == parts@.map_values(|p: String| p@),
            joined@ == join_paragraphs(pv.subrange(0, i as int)),
        decreases parts@.len() - i,
    {
        proof {
            assert(pv.subrange(0, i + 1).drop_last() =~= pv.subrange(0, i as int));
            assert(pv.subrange(0, i + 1).last() == parts@[i as int]@);
        }
        joined.append("\n\n");
        joined.append(parts[i].as_str());
        i += 1;
    }
    proof {
        assert(pv.subrange(0, i as int) =~= pv);
        assert(pv.subrange(0, 1) =~= seq![pv[0]]);
    }
    (Some(joined), turns)
}

// ── Speech to text ───────────────────────────────────────────────────────────

/// A transcription request, before it is put into a multipart form.
pub struct TranscriptionRequest {
    pub url: String,
    pub api_key: String,
    pub model: String,
    pub file_name: String,
}

/// The file extension sent for an audio MIME type.
pub open spec fn audio_extension_of(mime: Seq<char>) -> Seq<char> {
    if has(mime, "webm"@) {
        "webm"@
    } else if has(mime, "mp4"@) || has(mime, "m4a"@) {
        "m4a"@
    } else {
        "wav"@
    }
}

/// The file extension for an audio MIME type.
pub fn audio_extension(mime_type: &str) -> (ext: &'static str)
    ensures
        ext@ == audio_extension_of(mime_type@),
{
    if contains_str(mime_type, "webm") {
        "webm"
    } else if contains_str(mime_type, "mp4") || contains_str(mime_type, "m4a") {
        "m4a"
    } else {
        "wav"
    }
}

/// `r` is the transcription request for these settings and MIME type; only
/// OpenAI and Groq transcribe.
pub open spec fn is_transcription_request(r: TranscriptionRequest, config: AppConfig, mime: Seq<char>) -> bool {
    let b = backend_of(config.provider@);
    &&& (b == Backend::OpenAi || b == Backend::Groq)
    &&& r.url@ == if b == Backend::OpenAi {
        "https://api.openai.com/v1/audio/transcriptions"@
    } else {
        "https://api.groq.com/openai/v1/audio/transcriptions"@
    }
    &&& r.api_key@ == chat_key(b, config)
    &&& r.model@ == if config.stt_model@.len() > 0 {
        config.stt_model@
    } else if b == Backend::OpenAi {
        "whisper-1"@
    } else {
        "whisper-large-v3-turbo"@
    }
    &&& r.file_name@ == "audio."@ + audio_extension_of(mime)
}

/// Sets up a transcription: decodes the base64 audio, then picks the
/// provider's transcription endpoint, key and model. Fails with the
/// decoder's message on bad base64, and with `no-stt-provider` when the
/// provider has no transcription endpoint.
pub fn plan_transcription(audio_base64: &str, mime_type: &str, config: &AppConfig) -> (r: Result<
    (Vec<u8>, TranscriptionRequest),
    String,
>)
    ensures
        match base64_decoded(audio_base64@) {
            Ok(bytes) => {
                let b = backend_of(config.provider@);
                if b == Backend::OpenAi || b == Backend::Groq {
                    r matches Ok(ok) && ok.0@ == bytes && is_transcription_request(
                        ok.1,
                        *config,
                        mime_type@,
                    )
                } else {
                    r matches Err(e) && e@ == "no-stt-provider"@
                }
            },
            Err(msg) => r matches Err(e) && e@ == msg,
        },
{
    let bytes = match base64_decode(audio_base64) {
        Ok(b) => b,
        Err(e) => {
            return Err(e);
        },
    };
    let backend = backend_for(config.provider.as_str());
    let (url, key, default_model) = match backend {
        Backend::OpenAi => (
            owned("https://api.openai.com/v1/audio/transcriptions"),
            config.openai_api_key.clone(),
            "whisper-1",
        ),
        Backend::Groq => (
            owned("https://api.groq.com/openai/v1/audio/transcriptions"),
            config.groq_api_key.clone(),
            "whisper-large-v3-turbo",
        ),
        _ => {
            return Err(owned("no-stt-provider"));
        },
    };
    let model = if !config.stt_model.as_str().is_empty() {
        config.stt_model.clone()
    } else {
        owned(default_model)
    };
    let file_name = concat("audio.", audio_extension(mime_type));
    Ok((bytes, TranscriptionRequest { url, api_key: key, model, file_name }))
}

/// Vision routing only ever swaps in the configured vision model or drops
/// the images: Ollama and text-only turns go through unchanged; a cloud turn
/// with images uses the vision model when one is set, and otherwise keeps
/// its model and sends no images.
pub proof fn lemma_vision_routing(
    model: String,
    images: Option<Vec<String>>,
    vision_model: Seq<char>,
    provider: Seq<char>,
)
    ensures
        ({
            let r = resolved_vision(model, images, vision_model, provider);
            &&& provider == "ollama"@ ==> r == (model@, images)
            &&& (images is None || images.unwrap()@.len() == 0) ==> r == (model@, images)
            &&& provider != "ollama"@ && images is Some && images.unwrap()@.len() > 0 ==> if vision_model.len()
                > 0 {
                r == (vision_model, images)
            } else {
                r == (model@, None::<Vec<String>>)
            }
        }),
{
}

/// The provider names: `openai`, `groq` and `anthropic` name their cloud
/// backends, and every other name means a local Ollama.
pub proof fn lemma_backend_names(provider: Seq<char>)
    ensures
        provider == "openai"@ ==> backend_of(provider) == Backend::OpenAi,
        provider == "groq"@ ==> backend_of(provider) == Backend::Groq,
        provider == "anthropic"@ ==> backend_of(provider) == Backend::Anthropic,
        provider != "openai"@ && provider != "groq"@ && provider != "anthropic"@ ==> backend_of(
            provider,
        ) == Backend::Ollama,
{
    reveal_strlit("openai");
    reveal_strlit("groq");
    reveal_strlit("anthropic");
    assert("openai"@.len() == 6 && "groq"@.len() == 4 && "anthropic"@.len() == 9);
}

/// Stream lines of the cloud providers: only `data: ` lines carry anything;
/// for OpenAI and Groq `data: [DONE]` ends the answer; for Anthropic a
/// `message_stop` event ends it and a non-empty `content_block_delta` text is
/// a token.
pub proof fn lemma_stream_line_rules(line: Seq<char>, provider: Seq<char>)
    ensures
        !"data: "@.is_prefix_of(line) ==> sse_line_meaning(line, provider) is None,
        provider != "anthropic"@ && line == "data: [DONE]"@ ==> sse_line_meaning(line, provider)
            == Some(None::<Seq<char>>),
        provider == "anthropic"@ && "data: "@.is_prefix_of(line) && json_str_at(line.skip(6), "/type"@)
            == Some("message_stop"@) ==> sse_line_meaning(line, provider) == Some(None::<Seq<char>>),
        provider == "anthropic"@ && "data: "@.is_prefix_of(line) && json_str_at(line.skip(6), "/type"@)
            == Some("content_block_delta"@) ==> match json_str_at(line.skip(6), "/delta/text"@) {
            Some(t) => t.len() > 0 ==> sse_line_meaning(line, provider) == Some(Some(t)),
            None => sse_line_meaning(line, provider) is None,
        },
{
    reveal_strlit("data: ");
    reveal_strlit("data: [DONE]");
    reveal_strlit("[DONE]");
    reveal_strlit("message_stop");
    reveal_strlit("content_block_delta");
    reveal_strlit("anthropic");
    assert("message_stop"@.len() != "content_block_delta"@.len());
    if line == "data: [DONE]"@ {
        assert(line.skip(6) =~= "[DONE]"@);
    }
}

} // verus!

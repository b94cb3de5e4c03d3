//! User settings and their defaults.

use crate::shake_detector::ShakeConfig;
use crate::text::{owned, str_eq};
use vstd::prelude::*;

verus! {

/// All user settings.
pub struct AppConfig {
    /// "ollama", "openai", "groq" or "anthropic".
    pub provider: String,
    pub ollama_base_url: String,
    pub openai_api_key: String,
    pub groq_api_key: String,
    pub anthropic_api_key: String,
    pub default_model: String,
    pub vision_model: String,
    /// Speech-to-text model; empty means the provider's default.
    pub stt_model: String,
    pub system_prompt: String,
    pub reversal_threshold: usize,
    pub window_ms: u64,
    pub min_displacement: i32,
    pub cooldown_ms: u64,
    pub capture_radius: u32,
    pub overlay_width: u32,
    pub overlay_height: u32,
    pub enable_tools: bool,
    pub allowed_tool_categories: Vec<String>,
    pub always_ask_before_ui_control: bool,
    pub max_tool_iterations: usize,
    pub auto_dismiss_short_responses: bool,
    pub auto_dismiss_word_threshold: usize,
    pub auto_dismiss_delay_ms: u64,
    pub quick_actions_enabled: bool,
    pub history_max_entries: usize,
    pub read_allowed_roots: Vec<String>,
    /// When true, the UI strips explanatory preamble from responses before
    /// displaying them, and always strips it when inserting text.
    pub clean_responses: bool,
}

pub fn default_provider() -> (s: String)
    ensures
        s@ == "ollama"@,
{
    owned("ollama")
}

pub fn default_ollama_url() -> (s: String)
    ensures
        s@ == "http://localhost:11434"@,
{
    owned("http://localhost:11434")
}

pub fn default_true() -> (b: bool)
    ensures
        b,
{
    true
}

pub fn default_false() -> (b: bool)
    ensures
        !b,
{
    false
}

/// The tool categories allowed by default.
pub open spec fn default_tool_category_names() -> Seq<Seq<char>> {
    seq!["Screen"@, "Clipboard"@, "FileRead"@, "FileWrite"@, "Browser"@, "Shell"@, "UIControl"@]
}

/// Views of a list of strings.
pub open spec fn strings_view(v: Seq<String>) -> Seq<Seq<char>> {
    v.map_values(|s: String| s@)
}

pub fn default_tool_categories() -> (v: Vec<String>)
    ensures
        strings_view(v@) == default_tool_category_names(),
{
    let mut v: Vec<String> = Vec::new();
    v.push(owned("Screen"));
    v.push(owned("Clipboard"));
    v.push(owned("FileRead"));
    v.push(owned("FileWrite"));
    v.push(owned("Browser"));
    v.push(owned("Shell"));
    v.push(owned("UIControl"));
    assert(strings_view(v@) =~= default_tool_category_names());
    v
}

pub fn default_max_tool_iterations() -> (n: usize)
    ensures
        n == 10,
{
    10
}

pub fn default_word_threshold() -> (n: usize)
    ensures
        n == 40,
{
    40
}

pub fn default_dismiss_delay() -> (n: u64)
    ensures
        n == 5000,
{
    5000
}

pub fn default_history_max() -> (n: usize)
    ensures
        n == 50,
{
    50
}

/// Calls `dirs::home_dir` and renders the path with `to_string_lossy`.
/// Nothing is stated of the result: it depends on the environment.
#[verifier::external_body]
fn home_dir_string() -> Option<String> {
    match dirs::home_dir() {
        Some(p) => Some(p.to_string_lossy().to_string()),
        None => None,
    }
}

/// The roots that file reads may touch, given the user's home directory:
/// just the home directory, or none when it is unknown.
pub fn read_roots_from_home(home: Option<String>) -> (v: Vec<String>)
    ensures
        match home {
            Some(h) => v@.len() == 1 && strings_view(v@) == seq![h@],
            None => v@.len() == 0,
        },
{
    let mut v: Vec<String> = Vec::new();
    match home {
        Some(h) => {
            v.push(h);
            assert(strings_view(v@) =~= seq![v@[0]@]);
        },
        None => {},
    }
    v
}

/// The default read roots: the user's home directory, when it is known.
pub fn default_read_roots() -> (v: Vec<String>)
    ensures
        v@.len() <= 1,
{
    read_roots_from_home(home_dir_string())
}

/// `c` holds the default settings, with `roots` as the read roots.
pub open spec fn is_default_config(c: AppConfig) -> bool {
    &&& c.provider@ == "ollama"@
    &&& c.ollama_base_url@ == "http://localhost:11434"@
    &&& c.openai_api_key@.len() == 0
    &&& c.groq_api_key@.len() == 0
    &&& c.anthropic_api_key@.len() == 0
    &&& c.default_model@ == "llama3.2"@
    &&& c.vision_model@.len() == 0
    &&& c.stt_model@.len() == 0
    &&& c.system_prompt@ == "You are a helpful AI assistant. Be concise and direct."@
    &&& c.reversal_threshold == 3
    &&& c.window_ms == 600
    &&& c.min_displacement == 30
    &&& c.cooldown_ms == 2000
    &&& c.capture_radius == 350
    &&& c.overlay_width == 440
    &&& c.overlay_height == 520
    &&& c.enable_tools
    &&& strings_view(c.allowed_tool_categories@) == default_tool_category_names()
    &&& !c.always_ask_before_ui_control
    &&& c.max_tool_iterations == 10
    &&& c.auto_dismiss_short_responses
    &&& c.auto_dismiss_word_threshold == 40
    &&& c.auto_dismiss_delay_ms == 5000
    &&& c.quick_actions_enabled
    &&& c.history_max_entries == 50
    &&& !c.clean_responses
}

impl AppConfig {
    /// The default settings with the given read roots.
    pub fn default_with_read_roots(read_allowed_roots: Vec<String>) -> (c: Self)
        ensures
            is_default_config(c),
            c.read_allowed_roots@ == read_allowed_roots@,
    {
        AppConfig {
            provider: default_provider(),
            ollama_base_url: default_ollama_url(),
            openai_api_key: String::new(),
            groq_api_key: String::new(),
            anthropic_api_key: String::new(),
            default_model: owned("llama3.2"),
            vision_model: String::new(),
            stt_model: String::new(),
            system_prompt: owned("You are a helpful AI assistant. Be concise and direct."),
            reversal_threshold: 3,
            window_ms: 600,
            min_displacement: 30,
            cooldown_ms: 2000,
            capture_radius: 350,
            overlay_width: 440,
            overlay_height: 520,
            enable_tools: true,
            allowed_tool_categories: default_tool_categories(),
            always_ask_before_ui_control: false,
            max_tool_iterations: 10,
            auto_dismiss_short_responses: true,
            auto_dismiss_word_threshold: 40,
            auto_dismiss_delay_ms: 5000,
            quick_actions_enabled: true,
            history_max_entries: 50,
            read_allowed_roots,
            clean_responses: false,
        }
    }
}

impl Default for AppConfig {
    fn default() -> (c: Self)
        ensures
            is_default_config(c),
            c.read_allowed_roots@.len() <= 1,
    {
        AppConfig::default_with_read_roots(default_read_roots())
    }
}

/// The directory settings live under: the platform's configuration
/// directory, else its data directory, else the current directory.
pub fn config_base(config_dir: Option<String>, data_dir: Option<String>) -> (base: String)
    ensures
        base@ == match (config_dir, data_dir) {
            (Some(c), _) => c@,
            (None, Some(d)) => d@,
            (None, None) => "."@,
        },
{
    match config_dir {
        Some(c) => c,
        None => match data_dir {
            Some(d) => d,
            None => owned("."),
        },
    }
}

/// The shake-gesture tuning taken from the settings.
pub fn shake_config_from(config: &AppConfig) -> (s: ShakeConfig)
    ensures
        s.reversal_threshold == config.reversal_threshold,
        s.window_ms == config.window_ms,
        s.min_displacement == config.min_displacement,
        s.cooldown_ms == config.cooldown_ms,
{
    ShakeConfig {
        reversal_threshold: config.reversal_threshold,
        window_ms: config.window_ms,
        min_displacement: config.min_displacement,
        cooldown_ms: config.cooldown_ms,
    }
}

/// The API key of the selected provider; empty for Ollama and unknown
/// providers.
pub open spec fn active_api_key_of(config: AppConfig) -> Seq<char> {
    if config.provider@ == "openai"@ {
        config.openai_api_key@
    } else if config.provider@ == "groq"@ {
        config.groq_api_key@
    } else if config.provider@ == "anthropic"@ {
        config.anthropic_api_key@
    } else {
        Seq::empty()
    }
}

/// The API key of the selected provider.
pub fn active_api_key(config: &AppConfig) -> (k: String)
    ensures
        k@ == active_api_key_of(*config),
{
    let p = config.provider.as_str();
    if str_eq(p, "openai") {
        config.openai_api_key.clone()
    } else if str_eq(p, "groq") {
        config.groq_api_key.clone()
    } else if str_eq(p, "anthropic") {
        config.anthropic_api_key.clone()
    } else {
        String::new()
    }
}

} // verus!

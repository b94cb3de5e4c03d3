use magic_cursor::config::{
    active_api_key, config_base, default_dismiss_delay, default_false, default_history_max,
    default_max_tool_iterations, default_ollama_url, default_provider, default_tool_categories,
    default_true, default_word_threshold, read_roots_from_home, shake_config_from, AppConfig,
};

#[test]
fn config_defaults() {
    let c = AppConfig::default();
    assert_eq!(c.provider, "ollama");
    assert_eq!(c.ollama_base_url, "http://localhost:11434");
    assert_eq!(c.default_model, "llama3.2");
    assert_eq!(c.vision_model, "");
    assert_eq!(c.system_prompt, "You are a helpful AI assistant. Be concise and direct.");
    assert_eq!(c.reversal_threshold, 3);
    assert_eq!(c.window_ms, 600);
    assert_eq!(c.min_displacement, 30);
    assert_eq!(c.cooldown_ms, 2000);
    assert_eq!(c.capture_radius, 350);
    assert_eq!(c.overlay_width, 440);
    assert_eq!(c.overlay_height, 520);
    assert!(c.enable_tools);
    assert_eq!(
        c.allowed_tool_categories,
        vec!["Screen", "Clipboard", "FileRead", "FileWrite", "Browser", "Shell", "UIControl"]
    );
    assert!(!c.always_ask_before_ui_control);
    assert_eq!(c.max_tool_iterations, 10);
    assert!(c.auto_dismiss_short_responses);
    assert_eq!(c.auto_dismiss_word_threshold, 40);
    assert_eq!(c.auto_dismiss_delay_ms, 5000);
    assert!(c.quick_actions_enabled);
    assert_eq!(c.history_max_entries, 50);
    assert!(c.read_allowed_roots.len() <= 1);
    assert!(!c.clean_responses);
}

#[test]
fn config_default_helpers() {
    assert_eq!(default_provider(), "ollama");
    assert_eq!(default_ollama_url(), "http://localhost:11434");
    assert!(default_true());
    assert!(!default_false());
    assert_eq!(default_tool_categories().len(), 7);
    assert_eq!(default_max_tool_iterations(), 10);
    assert_eq!(default_word_threshold(), 40);
    assert_eq!(default_dismiss_delay(), 5000);
    assert_eq!(default_history_max(), 50);
}

#[test]
fn config_read_roots() {
    assert_eq!(read_roots_from_home(Some("/home/a".to_string())), vec!["/home/a".to_string()]);
    assert!(read_roots_from_home(None).is_empty());
    let c = AppConfig::default_with_read_roots(vec!["/x".to_string(), "/y".to_string()]);
    assert_eq!(c.read_allowed_roots, vec!["/x", "/y"]);
}

#[test]
fn config_base_fallbacks() {
    assert_eq!(config_base(Some("/c".into()), Some("/d".into())), "/c");
    assert_eq!(config_base(None, Some("/d".into())), "/d");
    assert_eq!(config_base(None, None), ".");
}

#[test]
fn config_active_key() {
    let mut c = AppConfig::default_with_read_roots(vec![]);
    c.openai_api_key = "sk-o".into();
    c.groq_api_key = "gq".into();
    c.anthropic_api_key = "an".into();
    assert_eq!(active_api_key(&c), "");
    c.provider = "openai".into();
    assert_eq!(active_api_key(&c), "sk-o");
    c.provider = "groq".into();
    assert_eq!(active_api_key(&c), "gq");
    c.provider = "anthropic".into();
    assert_eq!(active_api_key(&c), "an");
    c.provider = "mystery".into();
    assert_eq!(active_api_key(&c), "");
}

#[test]
fn config_to_shake_config() {
    let mut c = AppConfig::default_with_read_roots(vec![]);
    c.reversal_threshold = 5;
    c.window_ms = 900;
    c.min_displacement = 12;
    c.cooldown_ms = 3000;
    let s = shake_config_from(&c);
    assert_eq!(s.reversal_threshold, 5);
    assert_eq!(s.window_ms, 900);
    assert_eq!(s.min_displacement, 12);
    assert_eq!(s.cooldown_ms, 3000);
}

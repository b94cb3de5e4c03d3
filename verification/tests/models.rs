use magic_cursor::models::{chat_model_ids, str_less};

fn s(v: &[&str]) -> Vec<String> {
    v.iter().map(|x| x.to_string()).collect()
}

#[test]
fn openai_models_filtered_newest_first() {
    let ids = s(&["whisper-1", "gpt-4o", "o1-mini", "gpt-3.5-turbo", "dall-e-3", "chatgpt-4o-latest", "o3"]);
    assert_eq!(
        chat_model_ids(ids, "https://api.openai.com/v1/models"),
        s(&["o3", "o1-mini", "gpt-4o", "gpt-3.5-turbo", "chatgpt-4o-latest"])
    );
}

#[test]
fn other_models_sorted_ascending() {
    let ids = s(&["mixtral", "llama-3.3-70b", "gemma2-9b", "llama-3.1-8b", "gemma2-9b"]);
    assert_eq!(
        chat_model_ids(ids, "https://api.groq.com/openai/v1/models"),
        s(&["gemma2-9b", "gemma2-9b", "llama-3.1-8b", "llama-3.3-70b", "mixtral"])
    );
    assert!(chat_model_ids(vec![], "x").is_empty());
}

#[test]
fn string_order() {
    assert!(str_less("a", "b"));
    assert!(str_less("ab", "abc"));
    assert!(!str_less("abc", "ab"));
    assert!(!str_less("x", "x"));
    assert!(str_less("Z", "a"));
    assert!(str_less("é", "😀"));
    let mut v = s(&["b", "é", "a", "ab", "Z"]);
    v.sort();
    let sorted = chat_model_ids(s(&["b", "é", "a", "ab", "Z"]), "local");
    assert_eq!(sorted, v);
}

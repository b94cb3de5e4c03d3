use magic_cursor::providers::{vision_models_of_listing, image_data_url, provider_name, user_content, AnswerStream, StreamAction, UserContent};
use magic_cursor::config::AppConfig;
use magic_cursor::providers::{split_system_messages, WireMessage};
use serde_json::Value;
use magic_cursor::providers::{
    audio_extension, backend_for, error_message, is_groq_vision,
    is_ollama_vision, is_openai_vision, model_source, normalise_line, ollama_endpoint, plan_chat,
    plan_request, plan_transcription, resolve_vision, vision_models, Backend, ModelSource,
    StreamEvent,
};

fn cfg(provider: &str) -> AppConfig {
    let mut c = AppConfig::default_with_read_roots(vec![]);
    c.provider = provider.to_string();
    c.openai_api_key = "ko".to_string();
    c.groq_api_key = "kg".to_string();
    c.anthropic_api_key = "ka".to_string();
    c
}

fn s(v: &[&str]) -> Vec<String> {
    v.iter().map(|x| x.to_string()).collect()
}

#[test]
fn vision_names() {
    assert!(is_openai_vision("GPT-4o-mini"));
    assert!(is_openai_vision("o1"));
    assert!(is_openai_vision("o1-2024-12-17"));
    assert!(!is_openai_vision("o1-mini"));
    assert!(!is_openai_vision("gpt-3.5-turbo"));
    assert!(is_openai_vision("my-gpt-4-vision-x"));
    assert!(is_groq_vision("meta-llama/Llama-4-Scout"));
    assert!(!is_groq_vision("mixtral-8x7b"));
    assert!(!is_groq_vision("llama-3.2-3b-preview"));
    assert!(is_groq_vision("llama-3.2-11b-vision-preview"));
    assert!(is_groq_vision("llava-v1.5-7b"));
    assert!(is_ollama_vision("LLaVA:13b"));
    assert!(is_ollama_vision("gemma3:4b"));
    assert!(!is_ollama_vision("mistral:7b"));
}

#[test]
fn vision_model_filter() {
    let all = s(&["gpt-4o", "gpt-3.5-turbo", "o3-mini", "davinci"]);
    assert_eq!(vision_models("openai", all.clone()), s(&["gpt-4o", "o3-mini"]));
    assert_eq!(vision_models("anthropic", all.clone()), all);
    assert_eq!(vision_models("ollama", s(&["llava", "qwen2"])), s(&["llava"]));
    assert_eq!(vision_models("other", s(&["moondream", "phi"])), s(&["moondream"]));
}

#[test]
fn vision_routing() {
    let imgs = Some(vec!["aW1n".to_string()]);
    assert_eq!(resolve_vision("m".into(), imgs.clone(), "v", "ollama"), ("m".to_string(), imgs.clone()));
    assert_eq!(resolve_vision("m".into(), None, "v", "openai"), ("m".to_string(), None));
    assert_eq!(resolve_vision("m".into(), Some(vec![]), "v", "openai"), ("m".to_string(), Some(vec![])));
    assert_eq!(resolve_vision("m".into(), imgs.clone(), "v", "openai"), ("v".to_string(), imgs.clone()));
    assert_eq!(resolve_vision("m".into(), imgs.clone(), "", "groq"), ("m".to_string(), None));
}

#[test]
fn chat_plan_first_turn_with_screenshot() {
    let mut c = cfg("openai");
    c.vision_model = "gpt-4o".into();
    let p = plan_chat("hi".into(), "gpt-3.5".into(), None, Some(vec!["img".into()]), false, &c);
    assert_eq!(p.backend, Backend::OpenAi);
    assert_eq!(p.url, "https://api.openai.com/v1/chat/completions");
    assert_eq!(p.api_key, "ko");
    assert_eq!(p.model, "gpt-4o");
    assert_eq!(p.system.as_deref(), Some("You are a helpful AI assistant. Be concise and direct."));
    assert_eq!(p.images, Some(vec!["img".to_string()]));
    assert!(p.prompt.starts_with("[SCREEN CONTEXT: "));
    assert!(p.prompt.ends_with("]\n\nhi"));
}

#[test]
fn chat_plan_follow_up_and_system() {
    let mut c = cfg("anthropic");
    c.system_prompt = String::new();
    let p = plan_chat("more".into(), "m2".into(), None, Some(vec!["img".into()]), true, &c);
    assert_eq!(p.backend, Backend::Anthropic);
    assert_eq!(p.api_key, "ka");
    assert_eq!(p.system, None);
    assert_eq!(p.images, None);
    assert_eq!(p.prompt, "more");
    let p = plan_chat("x".into(), "llama".into(), Some("be brief".into()), None, false, &cfg("ollama"));
    assert_eq!(p.backend, Backend::Ollama);
    assert_eq!(p.url, "http://localhost:11434/api/chat");
    let mut c = cfg("ollama");
    c.ollama_base_url = "http://gpu-box:11434//".into();
    let q = plan_chat("x".into(), "llama".into(), None, None, false, &c);
    assert_eq!(q.url, "http://gpu-box:11434/api/chat");
    assert_eq!(p.system.as_deref(), Some("be brief"));
    assert_eq!(p.prompt, "x");
    let p = plan_chat("x".into(), "m".into(), Some(String::new()), None, false, &cfg("groq"));
    assert_eq!(p.backend, Backend::Groq);
    assert_eq!(p.system, None);
}

#[test]
fn request_plans() {
    let mut c = cfg("openai");
    c.default_model = "gpt-3.5-turbo".into();
    let p = plan_request(&c);
    assert_eq!(p.url, "https://api.openai.com/v1/chat/completions");
    assert!(p.strip_images);
    c.default_model = "gpt-4o".into();
    assert!(!plan_request(&c).strip_images);
    let mut c = cfg("ollama");
    c.ollama_base_url = "http://box:11434/".into();
    let p = plan_request(&c);
    assert_eq!(p.url, "http://box:11434/api/chat");
    assert_eq!(p.api_key, "");
    assert_eq!(plan_request(&cfg("groq")).api_key, "kg");
    assert_eq!(backend_for("whatever"), Backend::Ollama);
    for b in [Backend::OpenAi, Backend::Groq, Backend::Anthropic, Backend::Ollama] {
        assert_eq!(backend_for(provider_name(b)), b);
    }
    assert_eq!(provider_name(Backend::Anthropic), "anthropic");
}

#[test]
fn endpoints_and_sources() {
    assert_eq!(ollama_endpoint("http://h:1//", "/api/tags"), "http://h:1/api/tags");
    assert_eq!(ollama_endpoint("", "/x"), "/x");
    match model_source("openai", "") {
        ModelSource::Compatible { url } => assert_eq!(url, "https://api.openai.com/v1/models"),
        _ => panic!("expected compatible"),
    }
    match model_source("groq", "") {
        ModelSource::Compatible { url } => assert_eq!(url, "https://api.groq.com/openai/v1/models"),
        _ => panic!("expected compatible"),
    }
    assert!(matches!(model_source("anthropic", ""), ModelSource::AnthropicList));
    match model_source("ollama", "http://localhost:11434/") {
        ModelSource::OllamaTags { url } => assert_eq!(url, "http://localhost:11434/api/tags"),
        _ => panic!("expected tags"),
    }
}

#[test]
fn stream_lines_openai() {
    let tok = normalise_line(r#"  data: {"choices":[{"delta":{"content":"Hel"}}]}  "#, "openai");
    assert!(matches!(tok, Some(StreamEvent::Token(ref t)) if t == "Hel"));
    assert!(matches!(normalise_line("data: [DONE]", "groq"), Some(StreamEvent::Done)));
    assert!(normalise_line(r#"data: {"choices":[{"delta":{"content":""}}]}"#, "openai").is_none());
    assert!(normalise_line(r#"{"choices":[]}"#, "openai").is_none());
    assert!(normalise_line("   ", "openai").is_none());
    assert!(normalise_line("data: not json", "openai").is_none());
    // The first choice is an array element; an object with a key "0" is not.
    assert!(normalise_line(r#"data: {"choices":{"0":{"delta":{"content":"x"}}}}"#, "openai").is_none());
}

#[test]
fn stream_lines_anthropic_and_ollama() {
    let tok = normalise_line(r#"data: {"type":"content_block_delta","delta":{"text":"yo"}}"#, "anthropic");
    assert!(matches!(tok, Some(StreamEvent::Token(ref t)) if t == "yo"));
    assert!(matches!(normalise_line(r#"data: {"type":"message_stop"}"#, "anthropic"), Some(StreamEvent::Done)));
    assert!(normalise_line(r#"data: {"type":"ping"}"#, "anthropic").is_none());
    match normalise_line(r#"{"message":{"content":"a"},"done":false}"#, "ollama") {
        Some(StreamEvent::Json(v)) => assert_eq!(v["message"]["content"], "a"),
        _ => panic!("expected json"),
    }
    assert!(normalise_line("garbage", "ollama").is_none());
    match normalise_line("  {\"done\":true}\n", "ollama") {
        Some(StreamEvent::Json(v)) => assert_eq!(v, serde_json::from_str::<Value>("{\"done\":true}").unwrap()),
        _ => panic!("expected json"),
    }
}

#[test]
fn error_messages() {
    assert_eq!(error_message(r#"{"error":{"message":"bad key"}}"#, "/error/message", "HTTP 401".into()), "bad key");
    assert_eq!(error_message("oops", "/error/message", "HTTP 500: oops".into()), "HTTP 500: oops");
    assert_eq!(error_message(r#"{"error":"model not found"}"#, "/error", "x".into()), "model not found");
}

#[test]
fn transcription_plans() {
    let (bytes, req) = plan_transcription("aGVsbG8=", "audio/webm;codecs=opus", &cfg("openai")).unwrap();
    assert_eq!(bytes, b"hello".to_vec());
    assert_eq!(req.url, "https://api.openai.com/v1/audio/transcriptions");
    assert_eq!(req.api_key, "ko");
    assert_eq!(req.model, "whisper-1");
    assert_eq!(req.file_name, "audio.webm");
    let mut g = cfg("groq");
    let (_, req) = plan_transcription("", "audio/mp4", &g).unwrap();
    assert_eq!(req.model, "whisper-large-v3-turbo");
    assert_eq!(req.file_name, "audio.m4a");
    g.stt_model = "distil".into();
    let (_, req) = plan_transcription("", "audio/ogg", &g).unwrap();
    assert_eq!(req.model, "distil");
    assert_eq!(req.file_name, "audio.wav");
    assert_eq!(plan_transcription("aGk=", "audio/wav", &cfg("anthropic")).err().unwrap(), "no-stt-provider");
    assert_eq!(plan_transcription("aGk=", "audio/wav", &cfg("ollama")).err().unwrap(), "no-stt-provider");
    assert_eq!(plan_transcription("!!!!", "audio/wav", &cfg("openai")).err().unwrap(), "Invalid symbol 33, offset 0.");
    assert_eq!(audio_extension("audio/x-m4a"), "m4a");
}

#[test]
fn anthropic_message_split() {
    let msg = |role: Option<&str>, content: Value, images: Option<Vec<Value>>| WireMessage {
        role: role.map(|r| r.to_string()),
        content_text: content.as_str().map(|t| t.to_string()),
        content,
        images,
    };
    let (sys, turns) = split_system_messages(vec![
        msg(Some("system"), Value::from("be brief"), None),
        msg(Some("user"), Value::from("hi"), Some(vec![Value::from("aW1n")])),
        msg(Some("system"), Value::from("and kind"), None),
        msg(Some("system"), Value::from(42), None),
        msg(None, Value::from("no role"), None),
        msg(Some("assistant"), Value::from("ok"), None),
    ]);
    assert_eq!(sys.as_deref(), Some("be brief\n\nand kind"));
    let roles: Vec<&str> = turns.iter().map(|t| t.role.as_str()).collect();
    assert_eq!(roles, vec!["user", "user", "assistant"]);
    assert_eq!(turns[0].content, Value::from("hi"));
    assert_eq!(turns[0].images, Some(vec![Value::from("aW1n")]));
    assert_eq!(turns[1].content, Value::from("no role"));
    let (sys, turns) = split_system_messages(vec![msg(Some("user"), Value::from("x"), None)]);
    assert!(sys.is_none());
    assert_eq!(turns.len(), 1);
}

#[test]
fn answer_stream_records_what_was_shown() {
    let mut answer = AnswerStream::new();
    let mut shown = String::new();
    let lines = [
        "data: {\"choices\":[{\"delta\":{\"content\":\"Hel\"}}]}",
        "",
        "data: {\"choices\":[{\"delta\":{\"content\":\"\"}}]}",
        "data: {\"choices\":[{\"delta\":{\"content\":\"lo\"}}]}",
    ];
    for line in lines {
        match answer.step(normalise_line(line, "openai")) {
            StreamAction::Emit(t) => shown.push_str(&t),
            StreamAction::Finish(_) => panic!("not finished yet"),
            StreamAction::Skip => {}
        }
    }
    assert_eq!(shown, "Hello");
    match answer.step(normalise_line("data: [DONE]", "openai")) {
        StreamAction::Finish(full) => assert_eq!(full, "Hello"),
        _ => panic!("expected the end of the answer"),
    }
    // After the end nothing more is taken, and nothing is left to record.
    assert!(matches!(answer.step(Some(StreamEvent::Token("x".to_string()))), StreamAction::Skip));
    assert_eq!(answer.close(), None);
}

#[test]
fn answer_stream_closed_without_end() {
    let mut answer = AnswerStream::new();
    assert!(matches!(answer.step(Some(StreamEvent::Token("partial".to_string()))), StreamAction::Emit(ref t) if t == "partial"));
    assert!(matches!(answer.step(None), StreamAction::Skip));
    assert_eq!(answer.close(), Some("partial".to_string()));
}

#[test]
fn user_message_layout() {
    let mut c = cfg("openai");
    c.vision_model = "gpt-4o".into();
    let p = plan_chat("hi".into(), "m".into(), None, Some(vec!["img".into()]), false, &c);
    match user_content(&p) {
        UserContent::Blocks(images, text) => {
            assert_eq!(images, vec!["img".to_string()]);
            assert!(text.ends_with("hi"));
        }
        UserContent::Plain(_) => panic!("an image needs content blocks"),
    }
    let p = plan_chat("hi".into(), "m".into(), None, None, false, &cfg("groq"));
    assert!(matches!(user_content(&p), UserContent::Plain(ref t) if t == "hi"));
    let p = plan_chat("more".into(), "m".into(), None, None, true, &cfg("anthropic"));
    match user_content(&p) {
        UserContent::Blocks(images, text) => {
            assert!(images.is_empty());
            assert_eq!(text, "more");
        }
        UserContent::Plain(_) => panic!("Anthropic always takes blocks"),
    }
    assert_eq!(image_data_url("QUJD"), "data:image/png;base64,QUJD");
}

#[test]
fn vision_models_from_a_listing() {
    assert_eq!(vision_models_of_listing("openai", Err("HTTP 401".to_string())), Err("HTTP 401".to_string()));
    assert_eq!(
        vision_models_of_listing("openai", Ok(s(&["gpt-4o", "gpt-3.5-turbo", "o1"]))),
        Ok(s(&["gpt-4o", "o1"]))
    );
    assert_eq!(vision_models_of_listing("anthropic", Ok(s(&["a", "b"]))), Ok(s(&["a", "b"])));
}

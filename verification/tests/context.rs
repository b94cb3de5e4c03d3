use magic_cursor::context::{
    encode_png_base64, trimmed_output,
    browser_url_from, browser_url_script, capture_region, checked_capture_region, detect_macos_app, detect_windows_app,
    fresh_selection, last_title_part, title_only_context, usable_title, AppContext, CapturedContext,
    MacOSAppKind, WindowsAppKind,
};

#[test]
fn clipboard_unchanged_is_ignored() {
    let mut last = "hello world".to_string();
    assert_eq!(fresh_selection("  hello world \n", &mut last), None);
    assert_eq!(last, "hello world");
}

#[test]
fn clipboard_changed_is_taken() {
    let mut last = String::new();
    assert_eq!(fresh_selection("  some selected text ", &mut last), Some("some selected text".to_string()));
    assert_eq!(last, "some selected text");
    // The same text again is stale.
    assert_eq!(fresh_selection("some selected text", &mut last), None);
}

#[test]
fn clipboard_filters() {
    let mut last = String::new();
    assert_eq!(fresh_selection("abc", &mut last), None);
    assert_eq!(last, "abc");
    assert_eq!(fresh_selection("{\"a\": 1}", &mut last), None);
    assert_eq!(fresh_selection("[1, 2]", &mut last), None);
    assert_eq!(fresh_selection("https://example.com/x", &mut last), None);
    assert_eq!(fresh_selection(&"k".repeat(61), &mut last), None);
    assert_eq!(fresh_selection(&"k".repeat(60), &mut last), Some("k".repeat(60)));
    assert_eq!(fresh_selection("/usr/local/bin/some-very-long-path-name-that-exceeds-sixty-bytes", &mut last),
        Some("/usr/local/bin/some-very-long-path-name-that-exceeds-sixty-bytes".to_string()));
    assert_eq!(fresh_selection("see https://example.com", &mut last), Some("see https://example.com".to_string()));
    // Byte length, not characters: two 2-byte characters make four bytes.
    assert_eq!(fresh_selection("éé", &mut last), Some("éé".to_string()));
    assert_eq!(fresh_selection("éa", &mut last), None);
    assert_eq!(fresh_selection("word", &mut last), Some("word".to_string()));
}

#[test]
fn titles() {
    assert_eq!(usable_title(Some("  Doc - Word  ")), Some("Doc - Word".to_string()));
    assert_eq!(usable_title(Some("   ")), None);
    assert_eq!(usable_title(None), None);
    let c = title_only_context(Some(" Editor ")).unwrap();
    assert_eq!(c.app_name.as_deref(), Some("Editor"));
    assert!(c.browser_url.is_none() && c.file_path.is_none());
    assert!(title_only_context(Some("")).is_none());
    assert_eq!(last_title_part("a - b - c"), "c");
    assert_eq!(last_title_part("no separator"), "no separator");
    assert_eq!(last_title_part(" - - x"), "- x");
    assert_eq!(last_title_part("Doc -  Notepad "), "Notepad");
}

#[test]
fn windows_apps() {
    assert_eq!(detect_windows_app("Downloads - File Explorer"), ("File Explorer".to_string(), WindowsAppKind::FileExplorer));
    assert_eq!(detect_windows_app("Rust - Google Chrome"), ("Google Chrome".to_string(), WindowsAppKind::Browser));
    assert_eq!(detect_windows_app("Page — Mozilla Firefox — Private"), ("Mozilla Firefox".to_string(), WindowsAppKind::Browser));
    assert_eq!(detect_windows_app("notes.txt - Notepad"), ("Notepad".to_string(), WindowsAppKind::Other));
}

#[test]
fn macos_apps() {
    let (n, k) = detect_macos_app("Docs - Safari");
    assert_eq!(n, "Safari");
    assert!(matches!(k, MacOSAppKind::Browser(ref b) if b == "Safari"));
    let (n, k) = detect_macos_app("Finder");
    assert_eq!(n, "Finder");
    assert!(matches!(k, MacOSAppKind::Finder));
    let (n, k) = detect_macos_app("main.rs - Zed");
    assert_eq!(n, "Zed");
    assert!(matches!(k, MacOSAppKind::Other));
}

#[test]
fn browser_urls() {
    assert_eq!(browser_url_from(Some("https://a.b".into())), Some("https://a.b".to_string()));
    assert_eq!(browser_url_from(Some("file:///x".into())), None);
    assert_eq!(browser_url_from(Some(String::new())), None);
    assert_eq!(browser_url_from(None), None);
    assert!(browser_url_script("Safari").contains("current tab"));
    assert!(browser_url_script("Google Chrome").starts_with("tell application \"Google Chrome\"\n"));
    assert!(browser_url_script("Firefox").contains("active tab"));
}

#[test]
fn screenshot_region() {
    assert_eq!(capture_region(500, 400, 350, 0, 0), (150, 50, 700, 700));
    assert_eq!(capture_region(2000, 100, 10, 1920, 0), (70, 90, 20, 20));
    assert_eq!(checked_capture_region(500, 400, 350, 0, 0), Some((150, 50, 700, 700)));
    assert_eq!(checked_capture_region(i32::MIN, 0, 1, 0, 0), None);
    assert_eq!(checked_capture_region(0, 0, u32::MAX, 0, 0), None);
    assert_eq!(checked_capture_region(0, 0, 10, i32::MAX, 0), None);
}

#[test]
fn context_defaults() {
    let a = AppContext::default();
    assert!(a.app_name.is_none() && a.browser_url.is_none() && a.file_path.is_none());
    let c = CapturedContext::default();
    assert!(c.selected_text.is_none() && c.screenshot_b64.is_none());
    assert!(c.window_title.is_none() && c.app_context.is_none());
}

#[test]
fn helper_output_and_screenshot_encoding() {
    assert_eq!(trimmed_output("  /Users/me/Docs \n"), Some("/Users/me/Docs".to_string()));
    assert_eq!(trimmed_output(" \n "), None);
    assert_eq!(encode_png_base64(&b"hello".to_vec()), "aGVsbG8=");
    assert_eq!(encode_png_base64(&vec![]), "");
    assert_eq!(encode_png_base64(&b"Man".to_vec()), "TWFu");
    assert_eq!(encode_png_base64(&b"Ma".to_vec()), "TWE=");
    assert_eq!(encode_png_base64(&b"M".to_vec()), "TQ==");
    assert_eq!(encode_png_base64(&vec![0xfb, 0xff]), "+/8=");
}

use magic_cursor::entity::{
    analyze_selection,
    count_bar_lines, detect_content_type, detect_entity, entity_from_match, suggested_actions,
    ContentType, EntityKind,
};

fn args_of(e: &magic_cursor::entity::EntityAction) -> Vec<(String, String)> {
    e.args.clone()
}

#[test]
fn entity_url_first() {
    let e = detect_entity("see https://example.com/a?b=1 or mail me@x.org").unwrap();
    assert_eq!(e.entity_type, "url");
    assert_eq!(e.value, "https://example.com/a?b=1");
    assert_eq!(e.actions.len(), 2);
    assert_eq!(e.actions[0].label, "Open");
    assert_eq!(e.actions[0].tool, "open_url");
    assert_eq!(args_of(&e.actions[0]), vec![("url".to_string(), "https://example.com/a?b=1".to_string())]);
    assert_eq!(e.actions[1].label, "Copy");
    assert_eq!(e.actions[1].tool, "copy_to_clipboard");
    assert_eq!(args_of(&e.actions[1]), vec![("text".to_string(), "https://example.com/a?b=1".to_string())]);
}

#[test]
fn entity_url_case_insensitive() {
    let e = detect_entity("HTTP://EXAMPLE.COM").unwrap();
    assert_eq!(e.entity_type, "url");
    assert_eq!(e.value, "HTTP://EXAMPLE.COM");
}

#[test]
fn entity_email() {
    let e = detect_entity("write to jane.doe@example.co.uk today").unwrap();
    assert_eq!(e.entity_type, "email");
    assert_eq!(e.value, "jane.doe@example.co.uk");
    assert_eq!(e.actions.len(), 1);
    assert_eq!(e.actions[0].label, "Copy");
}

#[test]
fn entity_date() {
    let e = detect_entity("due 2024-03-15 at noon").unwrap();
    assert_eq!(e.entity_type, "date");
    assert_eq!(e.value, "2024-03-15");
    let e = detect_entity("on March 5, 2024 we met").unwrap();
    assert_eq!(e.value, "March 5, 2024");
}

#[test]
fn entity_file_path() {
    let e = detect_entity("open /usr/local/bin/tool please").unwrap();
    assert_eq!(e.entity_type, "file_path");
    assert_eq!(e.value, "/usr/local/bin/tool");
    assert_eq!(e.actions[0].label, "Read");
    assert_eq!(e.actions[0].tool, "read_file");
    assert_eq!(args_of(&e.actions[0]), vec![("path".to_string(), "/usr/local/bin/tool".to_string())]);
    assert_eq!(e.actions[1].label, "Copy path");
}

#[test]
fn entity_price() {
    let e = detect_entity("it costs $ 19.99 now").unwrap();
    assert_eq!(e.entity_type, "price");
    assert_eq!(e.value, "$ 19.99");
    let e = detect_entity("about 250 EUR total").unwrap();
    assert_eq!(e.value, "250 EUR");
}

#[test]
fn entity_none() {
    assert!(detect_entity("").is_none());
    assert!(detect_entity("   \n\t ").is_none());
    assert!(detect_entity("just some words").is_none());
}

#[test]
fn entity_from_match_builds_actions() {
    let e = entity_from_match(EntityKind::Price, "5 USD".to_string());
    assert_eq!(e.entity_type, "price");
    assert_eq!(e.value, "5 USD");
    assert_eq!(e.actions.len(), 1);
    assert_eq!(e.actions[0].tool, "copy_to_clipboard");
}

#[test]
fn content_type_examples() {
    assert_eq!(detect_content_type(""), ContentType::Unknown);
    assert_eq!(detect_content_type("  \n "), ContentType::Unknown);
    assert_eq!(detect_content_type("go to https://rust-lang.org"), ContentType::Url);
    assert_eq!(detect_content_type("fn main() {}"), ContentType::Code);
    assert_eq!(detect_content_type("if (x > 1) y"), ContentType::Code);
    assert_eq!(detect_content_type("a | b\nc | d"), ContentType::Table);
    assert_eq!(detect_content_type("a | b only one line"), ContentType::Text);
    assert_eq!(detect_content_type("plain words"), ContentType::Text);
}

#[test]
fn bar_lines_counted() {
    assert_eq!(count_bar_lines(""), 0);
    assert_eq!(count_bar_lines("|"), 1);
    assert_eq!(count_bar_lines("a|b|c\nd\ne|f\n"), 2);
    assert_eq!(count_bar_lines("||\n||\n||"), 3);
}

#[test]
fn content_type_names() {
    assert_eq!(ContentType::Text.as_str(), "text");
    assert_eq!(ContentType::Code.as_str(), "code");
    assert_eq!(ContentType::Image.as_str(), "image");
    assert_eq!(ContentType::Chart.as_str(), "chart");
    assert_eq!(ContentType::Table.as_str(), "table");
    assert_eq!(ContentType::Ui.as_str(), "ui");
    assert_eq!(ContentType::Url.as_str(), "url");
    assert_eq!(ContentType::Mixed.as_str(), "mixed");
    assert_eq!(ContentType::Unknown.as_str(), "unknown");
}

#[test]
fn quick_actions_per_type() {
    let labels = |ct: ContentType| -> Vec<String> {
        suggested_actions(&ct).into_iter().map(|q| q.label).collect()
    };
    assert_eq!(labels(ContentType::Text), vec!["Summarize", "Explain", "Translate", "Simplify"]);
    assert_eq!(labels(ContentType::Code), vec!["Explain", "Fix bugs", "Add comments", "Convert"]);
    assert_eq!(labels(ContentType::Url), vec!["Open", "Summarize page", "Copy"]);
    assert_eq!(labels(ContentType::Table), vec!["Summarize", "Export as list", "Find patterns"]);
    assert_eq!(labels(ContentType::Image), vec!["Describe", "Extract text"]);
    assert_eq!(labels(ContentType::Chart), vec!["Describe", "Extract text"]);
    assert_eq!(labels(ContentType::Unknown), vec!["Explain", "Summarize", "Ask anything"]);
    assert_eq!(labels(ContentType::Mixed), vec!["Explain", "Summarize", "Ask anything"]);
    let code = suggested_actions(&ContentType::Code);
    assert_eq!(code[3].prompt, "Convert this code to Python.");
}

#[test]
fn selection_analysis() {
    let a = analyze_selection(Some("read https://docs.rs today"));
    assert_eq!(a.content_type, ContentType::Url);
    assert_eq!(a.quick_actions.len(), 3);
    assert_eq!(a.entity.unwrap().value, "https://docs.rs");
    let a = analyze_selection(None);
    assert_eq!(a.content_type, ContentType::Unknown);
    assert_eq!(a.quick_actions[2].label, "Ask anything");
    assert!(a.entity.is_none());
}

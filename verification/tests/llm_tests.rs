use dictator::llm::{corrected_text, OllamaClient, CORRECTION_PROMPT_HEAD};

#[test]
fn llm_test_client_creation() {
    let client = OllamaClient::new("http://localhost:11434", "qwen3:30b");
    assert_eq!(client.base_url, "http://localhost:11434");
    assert_eq!(client.model, "qwen3:30b");
}

#[test]
fn llm_urls() {
    let client = OllamaClient::new("http://localhost:11434", "m");
    assert_eq!(client.generate_url(), "http://localhost:11434/api/generate");
    assert_eq!(client.tags_url(), "http://localhost:11434/api/tags");
}

#[test]
fn llm_blank_text_is_not_sent() {
    let client = OllamaClient::new("http://localhost:11434", "m");
    assert!(client.correction_request("").is_none());
    assert!(client.correction_request("  \n\t ").is_none());
}

#[test]
fn llm_request_carries_prompt_and_model() {
    let client = OllamaClient::new("http://localhost:11434", "glm");
    let req = client.correction_request("привет мир").unwrap();
    assert_eq!(req.model, "glm");
    assert!(!req.stream);
    assert!(req.prompt.starts_with("Исправь ошибки"));
    assert!(req.prompt.ends_with("\n\nТекст: привет мир"));
    assert_eq!(req.prompt, format!("{}{}", CORRECTION_PROMPT_HEAD, "привет мир"));
}

#[test]
fn llm_reply_is_trimmed() {
    assert_eq!(corrected_text("  Привет, мир!\n"), "Привет, мир!");
    assert_eq!(corrected_text(""), "");
}

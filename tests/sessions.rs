use gpt_auto_test::chat::{ChatGPT, Role, CHAT_URL};
use gpt_auto_test::completion::TextCompletion;
use gpt_auto_test::error::GenerateError;
use gpt_auto_test::extract::ExtractError;

fn entries(c: &ChatGPT) -> Vec<(Role, String)> {
    c.transcript()
}

#[test]
fn chat_conversation_keeps_order() {
    let mut c = ChatGPT::new();
    assert!(entries(&c).is_empty());
    c.init("S".to_string());
    c.add_context("U1".to_string());
    c.add_context("U2".to_string());
    assert_eq!(
        entries(&c),
        vec![
            (Role::System, "S".to_string()),
            (Role::User, "U1".to_string()),
            (Role::User, "U2".to_string()),
        ]
    );
    let r = c.accept_reply(Ok("R ```rust\ncode\n```".to_string()));
    assert!(matches!(r, Ok(ref s) if s == "code"));
    let e = entries(&c);
    assert_eq!(e.len(), 4);
    assert_eq!(e[3], (Role::Assistant, "R ```rust\ncode\n```".to_string()));
}

#[test]
fn chat_reply_without_code_is_still_recorded() {
    let mut c = ChatGPT::new();
    c.init("S".to_string());
    let r = c.accept_reply(Ok("no code here".to_string()));
    assert!(matches!(r, Err(GenerateError::Extraction(ExtractError::NoStart(_)))));
    assert_eq!(entries(&c)[1], (Role::Assistant, "no code here".to_string()));
}

#[test]
fn chat_failed_round_trip_leaves_session() {
    let mut c = ChatGPT::new();
    c.init("S".to_string());
    let r = c.accept_reply(Err(GenerateError::Transport("refused".to_string())));
    assert!(matches!(r, Err(GenerateError::Transport(ref m)) if m == "refused"));
    assert_eq!(entries(&c), vec![(Role::System, "S".to_string())]);
}

#[test]
fn chat_extract_without_messages_is_no_response() {
    let c = ChatGPT::new();
    assert!(matches!(c.extract_code(), Err(ExtractError::NoResponse)));
}

#[test]
fn chat_extract_reads_last_message() {
    let mut c = ChatGPT::new();
    c.add_message(Role::Assistant, "```rust\nfirst\n```".to_string());
    c.add_message(Role::User, "```rust\nsecond\n```".to_string());
    assert_eq!(c.extract_code().ok(), Some("second".to_string()));
}

#[test]
fn chat_body_holds_whole_conversation() {
    let mut c = ChatGPT::new();
    c.init("Be \"brief\".".to_string());
    c.add_context("fn f()\n".to_string());
    let body = c.request_body();
    assert_eq!(
        body,
        "{\"model\":\"gpt-3.5-turbo\",\"messages\":[{\"role\":\"system\",\"content\":\"Be \\\"brief\\\".\"},{\"role\":\"user\",\"content\":\"fn f()\\n\"}]}"
    );
}

#[test]
fn chat_body_of_empty_conversation() {
    let c = ChatGPT::new();
    assert_eq!(
        c.request_body(),
        "{\"model\":\"gpt-3.5-turbo\",\"messages\":[]}"
    );
}

#[test]
fn role_names_are_lowercase() {
    assert_eq!(Role::User.name(), "user");
    assert_eq!(Role::System.name(), "system");
    assert_eq!(Role::Assistant.name(), "assistant");
}

#[test]
fn chat_missing_credential_is_configuration_error() {
    let mut c = ChatGPT::new();
    c.init("S".to_string());
    let r = c.prepare_request(None, Some("http://127.0.0.1:3128".to_string()));
    assert!(matches!(r, Err(GenerateError::Configuration(_))));
}

#[test]
fn chat_request_is_authenticated_json() {
    let mut c = ChatGPT::new();
    c.init("S".to_string());
    let q = match c.prepare_request(Some("k-123".to_string()), None) {
        Ok(q) => q,
        Err(e) => panic!("{}", e.message()),
    };
    assert_eq!(q.url, CHAT_URL);
    assert_eq!(q.uri.host(), Some("api.openai.com"));
    assert_eq!(q.authorization, "Bearer k-123");
    assert_eq!(q.content_type, "application/json");
    assert_eq!(q.body, c.request_body());
}

#[test]
fn completion_prompt_accumulates() {
    let mut t = TextCompletion::new();
    assert_eq!(t.prompt(), "");
    t.init("S".to_string());
    t.add_context("U1".to_string());
    assert_eq!(t.prompt(), "\nS\nU1");
}

#[test]
fn completion_body_has_fixed_parameters() {
    let mut t = TextCompletion::new();
    t.init("S".to_string());
    assert_eq!(
        t.request_body(),
        "{\"model\":\"text-davinci-003\",\"prompt\":\"\\nS\",\"max_tokens\":1024,\"temperature\":0}"
    );
}

#[test]
fn completion_missing_credential_is_configuration_error() {
    let t = TextCompletion::new();
    assert!(matches!(t.prepare_request(None, None), Err(GenerateError::Configuration(_))));
}

#[test]
fn completion_extract_without_reply_is_no_response() {
    let t = TextCompletion::new();
    assert!(matches!(t.extract_code(), Err(ExtractError::NoResponse)));
}

#[test]
fn completion_end_to_end() {
    let mut t = TextCompletion::new();
    t.init("Write tests.".to_string());
    t.add_context("fn add(a,b)".to_string());
    let q = t.prepare_request(Some("key".to_string()), None);
    assert!(q.is_ok());
    let reply = "Explanation...\n```rust\nfn test_add() { assert_eq!(add(1,2), 3); }\n```\nDone.";
    let r = t.accept_reply(Ok(reply.to_string()));
    assert!(matches!(r, Ok(ref s) if s == "fn test_add() { assert_eq!(add(1,2), 3); }"));
    assert_eq!(t.extract_code().ok(), Some("fn test_add() { assert_eq!(add(1,2), 3); }".to_string()));
    assert_eq!(t.prompt(), "\nWrite tests.\nfn add(a,b)");
}

#[test]
fn completion_failed_round_trip_is_handed_on() {
    let mut t = TextCompletion::new();
    let r = t.accept_reply(Err(GenerateError::Protocol("bad body".to_string())));
    assert!(matches!(r, Err(GenerateError::Protocol(_))));
    assert!(matches!(t.extract_code(), Err(ExtractError::NoResponse)));
}

#[test]
fn body_escapes_control_characters() {
    let mut t = TextCompletion::new();
    t.add_context("a\u{1}\u{1f}\t\\\r\u{8}\u{c}é".to_string());
    assert_eq!(
        t.request_body(),
        "{\"model\":\"text-davinci-003\",\"prompt\":\"\\na\\u0001\\u001f\\t\\\\\\r\\b\\fé\",\"max_tokens\":1024,\"temperature\":0}"
    );
}

#[test]
fn chat_request_with_credential_is_built() {
    let c = ChatGPT::new();
    let q = c.prepare_request(Some("k".to_string()), Some("http://127.0.0.1:3128".to_string()));
    assert!(q.is_ok());
}

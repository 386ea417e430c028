use gpt_auto_test::extract::{extract_fenced, is_white_space_char, ExtractError, CODE_LANGUAGE};

fn code(r: Result<String, ExtractError>) -> String {
    match r {
        Ok(c) => c,
        Err(e) => panic!("{}", e.message()),
    }
}

#[test]
fn wrapped_text_comes_back_trimmed() {
    let t = "  fn t() {\n    assert!(true);\n}  ";
    let wrapped = format!("```rust\n{}\n```", t);
    assert_eq!(code(extract_fenced(&wrapped, "rust")), t.trim());
}

#[test]
fn wrapped_text_with_padding_comes_back_the_same() {
    let plain = format!("```rust\n{}\n```", "let x = 1;");
    let padded = format!("```rust\n{}\n```", " \t\n let x = 1; \n\n");
    assert_eq!(code(extract_fenced(&plain, "rust")), "let x = 1;");
    assert_eq!(code(extract_fenced(&padded, "rust")), "let x = 1;");
}

#[test]
fn no_opening_fence_is_no_start() {
    let t = "Here is some prose with ```python\nx = 1\n``` only.";
    match extract_fenced(t, "rust") {
        Err(ExtractError::NoStart(s)) => assert_eq!(s, t),
        _ => panic!("expected a missing start"),
    }
}

#[test]
fn opening_fence_without_close_is_no_end() {
    let t = "Look:\n```rust\nfn unfinished() {";
    match extract_fenced(t, "rust") {
        Err(ExtractError::NoEnd(s)) => assert_eq!(s, t),
        _ => panic!("expected a missing end"),
    }
}

#[test]
fn first_block_is_taken() {
    let t = "prose ```rust A``` more prose ```rust B``` ";
    assert_eq!(code(extract_fenced(t, "rust")), "A");
}

#[test]
fn empty_text_has_no_start() {
    assert!(matches!(extract_fenced("", "rust"), Err(ExtractError::NoStart(_))));
}

#[test]
fn empty_block_gives_empty_code() {
    assert_eq!(code(extract_fenced("```rust```", "rust")), "");
    assert_eq!(code(extract_fenced("```rust\n   \n```", "rust")), "");
}

#[test]
fn text_around_the_block_may_be_non_ascii() {
    let t = "Voilà — le test : ```rust\n\u{3000}assert_eq!(ä(), \"é\");\u{a0}\n``` Fin ✓";
    assert_eq!(code(extract_fenced(t, "rust")), "assert_eq!(ä(), \"é\");");
}

#[test]
fn tag_must_follow_the_fence() {
    let t = "```\nplain\n```\n```rust\ntagged\n```";
    assert_eq!(code(extract_fenced(t, CODE_LANGUAGE)), "tagged");
}

#[test]
fn white_space_matches_std() {
    for c in ['\t', '\n', '\u{b}', '\u{c}', '\r', ' ', '\u{85}', '\u{a0}', '\u{1680}', '\u{2000}',
        '\u{200a}', '\u{2028}', '\u{2029}', '\u{202f}', '\u{205f}', '\u{3000}', 'a', '\u{200b}',
        '`', '\u{feff}', '\u{1f}']
    {
        assert_eq!(is_white_space_char(c), c.is_whitespace());
    }
}

#[test]
fn error_messages_carry_the_text() {
    let e = ExtractError::NoStart("abc".to_string());
    assert_eq!(e.message(), "no code block start found: abc");
    assert_eq!(ExtractError::NoEnd("x".to_string()).message(), "no code block end found: x");
}

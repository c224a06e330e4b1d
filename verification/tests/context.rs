use lala::api::ChatMessage;
use lala::context::{inject_context, limit_chunks_by_tokens, token_estimate};

#[test]
fn tokens_are_estimated_at_three_bytes_each_rounded_up() {
    assert_eq!(token_estimate(""), 0);
    assert_eq!(token_estimate("abc"), 1);
    assert_eq!(token_estimate("abcd"), 2);
    assert_eq!(token_estimate("é"), 1);
    assert_eq!(token_estimate("ééé"), 2);
}

#[test]
fn limit_keeps_the_longest_prefix_that_fits() {
    let chunks = vec!["abc".to_string(), "abcdef".to_string(), "a".to_string(), "b".to_string()];
    assert_eq!(limit_chunks_by_tokens(&chunks, 3), vec!["abc".to_string(), "abcdef".to_string()]);
    assert_eq!(limit_chunks_by_tokens(&chunks, 5), chunks);
    assert_eq!(limit_chunks_by_tokens(&chunks, 0), Vec::<String>::new());
}

#[test]
fn context_goes_into_the_opening_system_prompt() {
    let history = vec![
        ChatMessage { role: "system".to_string(), content: "S".to_string() },
        ChatMessage { role: "user".to_string(), content: "u".to_string() },
    ];
    let out = inject_context(&history, &Some("C".to_string()));
    assert_eq!(out[0].content, "S\n\n--- Retrieved Context ---\nC\n--- End Context ---");
    assert_eq!(out[1..], history[1..]);
    assert_eq!(inject_context(&history, &None), history);
}

use lala::api::{
    build_prompt, completion_id, finish_completion, new_completion_id, prepare_completion,
    ChatMessage, ChatUsage,
};

fn msg(role: &str, content: &str) -> ChatMessage {
    ChatMessage { role: role.to_string(), content: content.to_string() }
}

#[test]
fn prompt_merges_system_into_first_user_turn() {
    let messages = vec![
        msg("system", "You are a helpful assistant."),
        msg("user", "What is Rust?"),
        msg("assistant", "Rust is a systems programming language..."),
        msg("user", "Give me an example."),
    ];
    assert_eq!(
        build_prompt(&messages),
        "<s>[INST] You are a helpful assistant.\n\nWhat is Rust? [/INST] Rust is a systems programming language... </s>[INST] Give me an example. [/INST]"
    );
}

#[test]
fn prompt_without_system_message() {
    let messages = vec![msg("user", "hi"), msg("assistant", "hello"), msg("user", "bye")];
    assert_eq!(build_prompt(&messages), "<s>[INST] hi [/INST] hello </s>[INST] bye [/INST]");
}

#[test]
fn prompt_ignores_unknown_roles() {
    let with_tool = vec![msg("user", "hi"), msg("tool", "ignored"), msg("assistant", "ok")];
    let without = vec![msg("user", "hi"), msg("assistant", "ok")];
    assert_eq!(build_prompt(&with_tool), build_prompt(&without));
    assert_eq!(build_prompt(&with_tool), "<s>[INST] hi [/INST] ok </s>");
}

#[test]
fn prompt_of_system_only_or_nothing_is_empty() {
    assert_eq!(build_prompt(&[]), "");
    assert_eq!(build_prompt(&[msg("system", "sys")]), "");
}

#[test]
fn later_system_message_is_not_merged() {
    let messages = vec![msg("user", "a"), msg("system", "late"), msg("user", "b")];
    assert_eq!(build_prompt(&messages), "<s>[INST] a [/INST][INST] b [/INST]");
}

#[test]
fn system_waits_for_first_user_after_assistant() {
    let messages = vec![msg("system", "S"), msg("assistant", "x"), msg("user", "u")];
    assert_eq!(build_prompt(&messages), " x </s><s>[INST] S\n\nu [/INST]");
}

#[test]
fn empty_request_is_refused_with_400() {
    let err = prepare_completion(Some("m".to_string()), &[]).unwrap_err();
    assert_eq!(err.status, 400);
    assert_eq!(err.message, "messages must not be empty");
}

#[test]
fn model_name_defaults_to_llml() {
    let p = prepare_completion(None, &[msg("user", "hi")]).unwrap();
    assert_eq!(p.model_name, "LLML");
    assert_eq!(p.prompt, "<s>[INST] hi [/INST]");
    let q = prepare_completion(Some("mistral".to_string()), &[msg("user", "hi")]).unwrap();
    assert_eq!(q.model_name, "mistral");
}

#[test]
fn failed_inference_is_answered_with_500() {
    let err = finish_completion("LLML".to_string(), Err("boom".to_string()), "id".to_string(), 7)
        .unwrap_err();
    assert_eq!(err.status, 500);
    assert_eq!(err.message, "boom");
}

#[test]
fn successful_inference_gives_one_assistant_choice() {
    let r = finish_completion("LLML".to_string(), Ok("out".to_string()), "chatcmpl-x".to_string(), 1711000000)
        .unwrap();
    assert_eq!(r.id, "chatcmpl-x");
    assert_eq!(r.object, "chat.completion");
    assert_eq!(r.created, 1711000000);
    assert_eq!(r.model, "LLML");
    assert_eq!(r.choices.len(), 1);
    assert_eq!(r.choices[0].index, 0);
    assert_eq!(r.choices[0].message, msg("assistant", "out"));
    assert_eq!(r.choices[0].finish_reason, "stop");
    assert_eq!(r.usage, ChatUsage { prompt_tokens: 0, completion_tokens: 0, total_tokens: 0 });
}

#[test]
fn completion_id_prefixes_the_uuid() {
    assert_eq!(completion_id("abc"), "chatcmpl-abc");
}

#[test]
fn fresh_completion_ids_are_random_v4_uuids() {
    let a = new_completion_id();
    let b = new_completion_id();
    assert_ne!(a, b);
    assert!(a.starts_with("chatcmpl-"));
    assert_eq!(a.len(), 45);
    let uuid: Vec<char> = a["chatcmpl-".len()..].chars().collect();
    for (i, c) in uuid.iter().enumerate() {
        if [8, 13, 18, 23].contains(&i) {
            assert_eq!(*c, '-');
        } else {
            assert!(c.is_ascii_hexdigit() && !c.is_ascii_uppercase());
        }
    }
    assert_eq!(uuid[14], '4');
    assert!(['8', '9', 'a', 'b'].contains(&uuid[19]));
}

#[test]
fn removing_other_roles_after_the_first_message_keeps_the_prompt() {
    let full = vec![
        msg("system", "S"),
        msg("tool", "t"),
        msg("user", "u"),
        msg("system", "late"),
        msg("assistant", "a"),
        msg("function", "f"),
        msg("user", "v"),
    ];
    let trimmed = vec![msg("system", "S"), msg("user", "u"), msg("assistant", "a"), msg("user", "v")];
    assert_eq!(build_prompt(&full), build_prompt(&trimmed));
}

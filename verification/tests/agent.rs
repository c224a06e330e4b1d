use lala::api::ChatMessage;
use lala::planner::{
    Agent, AgentEvent, AgentStep, DECISION_SYSTEM, REASONING_SYSTEM,
};

fn msg(role: &str, content: &str) -> ChatMessage {
    ChatMessage { role: role.to_string(), content: content.to_string() }
}

#[test]
fn replace_system_swaps_the_first_system_message() {
    let history = vec![msg("system", "old"), msg("user", "q"), msg("system", "later")];
    let out = Agent::replace_system(&history, "new");
    assert_eq!(out, vec![msg("system", "new"), msg("user", "q"), msg("system", "later")]);
}

#[test]
fn replace_system_prepends_when_missing() {
    let history = vec![msg("user", "q"), msg("assistant", "a")];
    let out = Agent::replace_system(&history, "new");
    assert_eq!(out, vec![msg("system", "new"), msg("user", "q"), msg("assistant", "a")]);
    assert_eq!(Agent::replace_system(&[], "new"), vec![msg("system", "new")]);
}

#[test]
fn replace_system_finds_the_first_system_message_anywhere() {
    let history = vec![msg("user", "u"), msg("system", "s"), msg("system", "t")];
    let out = Agent::replace_system(&history, "N");
    assert_eq!(out, vec![msg("user", "u"), msg("system", "N"), msg("system", "t")]);
}

#[test]
fn replacing_twice_keeps_only_the_last_prompt() {
    let history = vec![msg("user", "q")];
    let once = Agent::replace_system(&history, "first");
    let twice = Agent::replace_system(&once, "second");
    assert_eq!(twice, Agent::replace_system(&history, "second"));
}

#[test]
fn last_user_message_is_found_from_the_end() {
    let history = vec![msg("user", "one"), msg("assistant", "a"), msg("user", "two"), msg("assistant", "b")];
    assert_eq!(Agent::last_user_message(&history), "two");
    assert_eq!(Agent::last_user_message(&[msg("system", "s")]), "");
}

#[test]
fn a_turn_reasons_then_decides() {
    let agent = Agent::new();
    let history = vec![msg("system", "P"), msg("user", "u1"), msg("assistant", "a1"), msg("user", "u2")];
    match agent.run(&history, AgentEvent::<String>::Start) {
        AgentStep::Reason { messages, max_tokens } => {
            assert_eq!(max_tokens, 512);
            assert_eq!(messages[0], msg("system", REASONING_SYSTEM));
            assert_eq!(messages[1..], history[1..]);
        }
        _ => panic!("expected a reasoning step"),
    }
    match agent.run(&history, AgentEvent::<String>::Analysed("an".to_string())) {
        AgentStep::Decide { messages, max_tokens } => {
            assert_eq!(max_tokens, 256);
            assert_eq!(
                messages,
                vec![
                    msg("system", DECISION_SYSTEM),
                    msg("user", "u1"),
                    msg("assistant", "a1"),
                    msg("system", "[Internal analysis — do not quote this]\nan"),
                    msg("user", "u2"),
                ]
            );
        }
        _ => panic!("expected a decision step"),
    }
    match agent.run(&history, AgentEvent::<String>::Answered("because".to_string())) {
        AgentStep::Finished(Ok(a)) => assert_eq!(a, "because"),
        _ => panic!("expected the end of the turn"),
    }
}

#[test]
fn a_failed_model_call_ends_the_turn_with_its_error() {
    let agent = Agent::new();
    let history = vec![msg("user", "q")];
    match agent.run(&history, AgentEvent::Failed(42u32)) {
        AgentStep::Finished(Err(e)) => assert_eq!(e, 42),
        _ => panic!("expected the turn to end with the error"),
    }
}

#[test]
fn decision_request_without_user_message_puts_analysis_last() {
    let history = vec![msg("assistant", "a")];
    assert_eq!(
        Agent::decision_messages(&history, "x"),
        vec![
            msg("system", DECISION_SYSTEM),
            msg("assistant", "a"),
            msg("system", "[Internal analysis — do not quote this]\nx"),
        ]
    );
}

#[test]
fn last_user_position_is_found_from_the_end() {
    let history = vec![msg("user", "one"), msg("assistant", "a"), msg("user", "two"), msg("system", "s")];
    assert_eq!(Agent::last_user_position(&history), Some(2));
    assert_eq!(Agent::last_user_position(&[msg("system", "s")]), None);
}

#[test]
fn system_prompts_read_as_written() {
    assert!(REASONING_SYSTEM.starts_with("You are an internal reasoning engine. Analyse"));
    assert!(REASONING_SYSTEM.ends_with("not shown to the user."));
    assert!(DECISION_SYSTEM.starts_with("You are lala, a friendly and concise AI assistant."));
}

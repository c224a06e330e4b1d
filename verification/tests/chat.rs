use lala::api::ChatMessage;
use lala::chat::{
    Chat, DirectEvent, DirectStep, Notice, ReasoningEvent, ReasoningStep, RouteDecision,
    RouteSignal, SYSTEM_PROMPT,
};
use lala::repl::CommandResult;

fn msg(role: &str, content: &str) -> ChatMessage {
    ChatMessage { role: role.to_string(), content: content.to_string() }
}

fn with_context(context: &str) -> String {
    format!("{}\n\n--- Retrieved Context ---\n{}\n--- End Context ---", SYSTEM_PROMPT, context)
}

fn is_dialogue(h: &[ChatMessage]) -> bool {
    h[0] == msg("system", SYSTEM_PROMPT)
        && h.iter().enumerate().skip(1).all(|(i, m)| {
            m.role == if i % 2 == 1 { "user" } else { "assistant" }
        })
}

#[test]
fn new_chat_holds_only_the_system_prompt() {
    let chat = Chat::new(false);
    assert_eq!(chat.history(), &[msg("system", SYSTEM_PROMPT)]);
    assert!(!chat.awaiting_reply());
}

#[test]
fn handle_appends_the_user_message() {
    let mut chat = Chat::new(true);
    assert!(chat.handle("hello"));
    assert_eq!(chat.history().last(), Some(&msg("user", "hello")));
    assert!(chat.awaiting_reply());
    let mut plain = Chat::new(false);
    assert!(!plain.handle("hello"));
}

#[test]
fn classify_follows_the_signal() {
    let chat = Chat::new(false);
    assert_eq!(chat.classify(RouteSignal::Heuristic(true)), RouteDecision::Reasoning);
    assert_eq!(chat.classify(RouteSignal::Heuristic(false)), RouteDecision::Direct);
    assert_eq!(chat.classify(RouteSignal::Classifier(RouteDecision::Direct)), RouteDecision::Direct);
}

#[test]
fn direct_turn_retrieves_then_answers() {
    let mut chat = Chat::new(false);
    chat.handle("hi");
    let (step, notices) = chat.run_direct(DirectEvent::Start);
    assert_eq!(step, DirectStep::Retrieve { query: "hi".to_string() });
    assert!(notices.is_empty());
    let chunks = vec!["greeting".to_string()];
    let (step, notices) = chat.run_direct(DirectEvent::Retrieved(Ok(chunks.clone())));
    assert_eq!(
        step,
        DirectStep::Answer { messages: vec![msg("system", &with_context("greeting")), msg("user", "hi")] }
    );
    assert_eq!(notices, vec![Notice::Sources(chunks)]);
    let (step, notices) = chat.run_direct(DirectEvent::Replied(Ok("hello!".to_string())));
    assert_eq!(step, DirectStep::Done);
    assert_eq!(notices, vec![Notice::Answer("hello!".to_string())]);
    assert_eq!(
        chat.history(),
        &[msg("system", SYSTEM_PROMPT), msg("user", "hi"), msg("assistant", "hello!")]
    );
}

#[test]
fn failed_direct_turn_restores_history() {
    let mut chat = Chat::new(false);
    chat.handle("hi");
    chat.run_direct(DirectEvent::Replied(Ok("hello".to_string())));
    let before: Vec<ChatMessage> = chat.history().to_vec();
    chat.handle("again");
    let (step, notices) = chat.run_direct(DirectEvent::Replied(Err("offline".to_string())));
    assert_eq!(step, DirectStep::Done);
    assert_eq!(notices, vec![Notice::Error("Error: offline".to_string())]);
    assert_eq!(chat.history(), &before[..]);
}

#[test]
fn reasoning_turn_runs_retrieval_reasoning_and_decision() {
    let mut chat = Chat::new(false);
    chat.handle("what is rust?");
    let (step, notices) = chat.run_reasoning(ReasoningEvent::Start);
    assert_eq!(step, ReasoningStep::Retrieve { query: "what is rust?".to_string() });
    assert!(notices.is_empty());
    let chunks = vec!["rust is".to_string(), "a language".to_string()];
    let (step, notices) = chat.run_reasoning(ReasoningEvent::Retrieved(Ok(chunks.clone())));
    let expected = vec![
        msg("system", &with_context("rust is\n---\na language")),
        msg("user", "what is rust?"),
    ];
    assert_eq!(step, ReasoningStep::Reason { messages: expected.clone() });
    assert_eq!(notices, vec![Notice::Sources(chunks)]);
    let (step, notices) = chat.run_reasoning(ReasoningEvent::Reasoned(Ok("analysis".to_string())));
    assert_eq!(step, ReasoningStep::Decide { messages: expected, analysis: "analysis".to_string() });
    assert_eq!(notices, vec![Notice::Reasoning("analysis".to_string())]);
    let (step, notices) = chat.run_reasoning(ReasoningEvent::Decided(Ok("answer".to_string())));
    assert_eq!(step, ReasoningStep::Done);
    assert_eq!(notices, vec![Notice::Answer("answer".to_string())]);
    assert_eq!(chat.history().len(), 3);
    assert_eq!(chat.history()[2], msg("assistant", "answer"));
}

#[test]
fn context_keeps_the_chunks_that_fit_in_800_tokens() {
    let mut chat = Chat::new(false);
    chat.handle("q");
    // 1200 bytes = 400 tokens each: the first two fit, the third does not.
    let a = "a".repeat(1200);
    let b = "b".repeat(1200);
    let c = "c".repeat(3);
    let chunks = vec![a.clone(), b.clone(), c];
    let (step, notices) = chat.run_reasoning(ReasoningEvent::Retrieved(Ok(chunks.clone())));
    let context = format!("{}\n---\n{}", a, b);
    assert_eq!(
        step,
        ReasoningStep::Reason { messages: vec![msg("system", &with_context(&context)), msg("user", "q")] }
    );
    assert_eq!(notices, vec![Notice::Sources(chunks)]);
    // A first chunk over the budget leaves no context.
    let (step, _) = chat.run_reasoning(ReasoningEvent::Retrieved(Ok(vec!["x".repeat(2401)])));
    assert_eq!(step, ReasoningStep::Reason { messages: chat.history().to_vec() });
}

#[test]
fn retrieval_failure_goes_on_without_context() {
    let mut chat = Chat::new(false);
    chat.handle("q");
    let (step, notices) = chat.run_reasoning(ReasoningEvent::Retrieved(Err("db locked".to_string())));
    assert_eq!(step, ReasoningStep::Reason { messages: chat.history().to_vec() });
    assert_eq!(
        notices,
        vec![Notice::Warn("Retrieval error: db locked — proceeding without context.".to_string())]
    );
    let (step, notices) = chat.run_reasoning(ReasoningEvent::Retrieved(Ok(vec![])));
    assert_eq!(step, ReasoningStep::Reason { messages: chat.history().to_vec() });
    assert!(notices.is_empty());
}

#[test]
fn a_turn_without_user_message_ends_with_an_error() {
    let mut chat = Chat::new(false);
    let (step, notices) = chat.run_reasoning(ReasoningEvent::Start);
    assert_eq!(step, ReasoningStep::Done);
    assert_eq!(notices, vec![Notice::Error("No user message found.".to_string())]);
    assert_eq!(chat.history(), &[msg("system", SYSTEM_PROMPT)]);
    let (step, _) = chat.run_direct(DirectEvent::Start);
    assert_eq!(step, DirectStep::Done);
}

#[test]
fn reasoning_failures_drop_the_pending_message() {
    let mut chat = Chat::new(false);
    chat.handle("q");
    let (step, notices) = chat.run_reasoning(ReasoningEvent::Reasoned(Err("timeout".to_string())));
    assert_eq!(step, ReasoningStep::Done);
    assert_eq!(notices, vec![Notice::Error("Reasoning failed: timeout".to_string())]);
    assert_eq!(chat.history(), &[msg("system", SYSTEM_PROMPT)]);

    chat.handle("q2");
    let (_, notices) = chat.run_reasoning(ReasoningEvent::Decided(Err("500".to_string())));
    assert_eq!(notices, vec![Notice::Error("Decision failed: 500".to_string())]);
    assert_eq!(chat.history(), &[msg("system", SYSTEM_PROMPT)]);
}

#[test]
fn turns_keep_user_and_assistant_in_alternation() {
    let mut chat = Chat::new(false);
    for (i, q) in ["a", "b", "c", "d"].iter().enumerate() {
        let before = chat.history().len();
        chat.handle(q);
        if i % 2 == 0 {
            chat.run_direct(DirectEvent::Replied(Ok(format!("re {}", q))));
            assert_eq!(chat.history().len(), before + 2);
        } else {
            chat.run_reasoning(ReasoningEvent::Decided(Err("x".to_string())));
            assert_eq!(chat.history().len(), before);
        }
        assert!(is_dialogue(chat.history()));
        assert!(!chat.awaiting_reply());
    }
}

#[test]
fn clear_keeps_only_the_system_prompt() {
    let mut chat = Chat::new(false);
    chat.handle("a");
    chat.run_direct(DirectEvent::Replied(Ok("b".to_string())));
    chat.clear();
    assert_eq!(chat.history(), &[msg("system", SYSTEM_PROMPT)]);
}

#[test]
fn commands_are_carried_out() {
    let mut chat = Chat::new(false);
    chat.handle("a");
    let (go_on, notices) = chat.apply_command(CommandResult::Handled, "/help");
    assert!(go_on && notices.is_empty());
    assert_eq!(chat.history().len(), 2);
    let (go_on, notices) = chat.apply_command(CommandResult::NotACommand, "/frobnicate");
    assert!(go_on);
    assert_eq!(
        notices,
        vec![
            Notice::Warn("Unknown command: /frobnicate".to_string()),
            Notice::Info("Type /help for available commands.".to_string()),
        ]
    );
    let (go_on, notices) = chat.apply_command(CommandResult::Clear, "/clear");
    assert!(go_on);
    assert_eq!(notices, vec![Notice::Success("Conversation cleared.".to_string())]);
    assert_eq!(chat.history(), &[msg("system", SYSTEM_PROMPT)]);
    let (go_on, _) = chat.apply_command(CommandResult::Exit, "/exit");
    assert!(!go_on);
}

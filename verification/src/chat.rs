//! The conversation of the command-line assistant: its history and the turn pipeline.
//!
//! The calls to the models and to the retrieval store are made by the caller; the
//! functions here decide what to ask for, what to show and how the history changes.
use vstd::prelude::*;
use vstd::string::*;

use crate::api::ChatMessage;
use crate::context::{
    chunks_within_budget, lemma_budget_prefix_is_unique, total_tokens, inject_context, is_context_injected, limit_chunks_by_tokens,
    CONTEXT_TOKEN_BUDGET,
};
use crate::planner::{is_final_user_position, last_user_content, Agent};
use crate::repl::CommandResult;
use crate::text::{join, joined};

verus! {

/// The system prompt that always opens the conversation.
pub const SYSTEM_PROMPT: &'static str = "You are a friendly AI assistant named lala. Explain things clearly and naturally. Respond in full sentences.";

/// The separator put between retrieved chunks in the context handed to the models.
pub const CONTEXT_SEPARATOR: &'static str = "\n---\n";

/// Which pipeline answers a query.
#[derive(Clone, Copy, Debug, PartialEq, Eq, Structural)]
pub enum RouteDecision {
    /// The model answers at once.
    Direct,
    /// The query goes through reasoning, then decision.
    Reasoning,
}

/// What the routing is based on: the verdict of the classifier model, or whether the local
/// heuristic finds that the query needs reasoning.
#[derive(Clone, Copy, Debug, PartialEq, Eq, Structural)]
pub enum RouteSignal {
    Classifier(RouteDecision),
    Heuristic(bool),
}

/// Something to show to the user.
#[derive(Debug, PartialEq, Eq)]
pub enum Notice {
    /// An error line.
    Error(String),
    /// A warning line.
    Warn(String),
    /// The texts of the chunks that retrieval found.
    Sources(Vec<String>),
    /// The reasoning section.
    Reasoning(String),
    /// The answer section.
    Answer(String),
    /// A success line.
    Success(String),
    /// An information line.
    Info(String),
}

/// What happened since the last step of the direct pipeline.
pub enum DirectEvent {
    /// The pipeline starts.
    Start,
    /// Retrieval returned the texts of the chunks found, or failed with a message.
    Retrieved(Result<Vec<String>, String>),
    /// The model returned its reply, or failed with a message.
    Replied(Result<String, String>),
}

/// What the caller does next in the direct pipeline.
#[derive(Debug, PartialEq, Eq)]
pub enum DirectStep {
    /// Retrieve context for this query.
    Retrieve { query: String },
    /// Ask the model to answer these messages.
    Answer { messages: Vec<ChatMessage> },
    /// The turn is over.
    Done,
}

/// What happened since the last step of the reasoning pipeline.
pub enum ReasoningEvent {
    /// The pipeline starts.
    Start,
    /// Retrieval returned the texts of the chunks found, or failed with a message.
    Retrieved(Result<Vec<String>, String>),
    /// The reasoning model returned its analysis, or failed with a message.
    Reasoned(Result<String, String>),
    /// The decision model returned its reply, or failed with a message.
    Decided(Result<String, String>),
}

/// What the caller does next in the reasoning pipeline.
#[derive(Debug, PartialEq, Eq)]
pub enum ReasoningStep {
    /// Retrieve context for this query.
    Retrieve { query: String },
    /// Ask the reasoning model about these messages.
    Reason { messages: Vec<ChatMessage> },
    /// Ask the decision model about these messages with this analysis.
    Decide { messages: Vec<ChatMessage>, analysis: String },
    /// The turn is over.
    Done,
}

/// Whether `h` holds only the system prompt.
pub open spec fn is_fresh(h: Seq<ChatMessage>) -> bool {
    &&& h.len() == 1
    &&& h[0].role@ == "system"@
    &&& h[0].content@ == SYSTEM_PROMPT@
}

/// Whether `h` opens with the system prompt.
pub open spec fn opens_with_prompt(h: Seq<ChatMessage>) -> bool {
    &&& h.len() >= 1
    &&& h[0].role@ == "system"@
    &&& h[0].content@ == SYSTEM_PROMPT@
}

/// Whether `h` is the system prompt followed by user and assistant messages in turn,
/// starting with a user message: `[system, user, assistant, user, assistant, ...]`.
pub open spec fn is_dialogue(h: Seq<ChatMessage>) -> bool {
    &&& opens_with_prompt(h)
    &&& forall|i: int|
        1 <= i < h.len() ==> (#[trigger] h[i]).role@ == (if i % 2 == 1 {
            "user"@
        } else {
            "assistant"@
        })
}

/// Whether the conversation waits for a reply to its last message, a user message.
pub open spec fn awaits_reply(h: Seq<ChatMessage>) -> bool {
    h.len() >= 2 && h.last().role@ == "user"@
}

/// Whether some message of `h` is a user message.
pub open spec fn has_user_message(h: Seq<ChatMessage>) -> bool {
    exists|j: int| 0 <= j < h.len() && h[j].role@ == "user"@
}

/// Whether `after` is `before` with a user message holding `input` appended.
pub open spec fn user_added(after: Seq<ChatMessage>, before: Seq<ChatMessage>, input: Seq<char>) -> bool {
    &&& after.len() == before.len() + 1
    &&& after.drop_last() == before
    &&& after.last().role@ == "user"@
    &&& after.last().content@ == input
}

/// Whether `after` is `before` with an assistant message holding `reply` appended.
pub open spec fn reply_added(after: Seq<ChatMessage>, before: Seq<ChatMessage>, reply: Seq<char>) -> bool {
    &&& after.len() == before.len() + 1
    &&& after.drop_last() == before
    &&& after.last().role@ == "assistant"@
    &&& after.last().content@ == reply
}

/// The context handed to the models: the retrieved chunks that fit in the token budget,
/// joined by `CONTEXT_SEPARATOR`, or none when no chunk fits.
pub open spec fn context_of(chunks: Seq<Seq<char>>) -> Option<Seq<char>> {
    let kept = chunks_within_budget(chunks, CONTEXT_TOKEN_BUDGET as nat);
    if kept.len() == 0 {
        None
    } else {
        Some(joined(kept, CONTEXT_SEPARATOR@))
    }
}

/// The context handed to the models is the first `k` retrieved chunks joined by
/// `CONTEXT_SEPARATOR`, where `k` is the largest count whose estimated tokens fit in
/// `CONTEXT_TOKEN_BUDGET`; there is no context when not even the first chunk fits.
pub proof fn lemma_context_is_longest_fitting_prefix(chunks: Seq<Seq<char>>, k: int)
    requires
        0 <= k <= chunks.len(),
        total_tokens(chunks.take(k)) <= CONTEXT_TOKEN_BUDGET,
        k < chunks.len() ==> total_tokens(chunks.take(k + 1)) > CONTEXT_TOKEN_BUDGET,
    ensures
        context_of(chunks) == (if k == 0 {
            None
        } else {
            Some(joined(chunks.take(k), CONTEXT_SEPARATOR@))
        }),
{
    lemma_budget_prefix_is_unique(chunks, CONTEXT_TOKEN_BUDGET as nat, k);
}

/// When the retrieved chunks fit in the token budget together, every one of them is in the
/// context, in the order retrieved.
pub proof fn lemma_context_holds_all_chunks_that_fit(chunks: Seq<Seq<char>>)
    requires
        chunks.len() > 0,
        total_tokens(chunks) <= CONTEXT_TOKEN_BUDGET,
    ensures
        context_of(chunks) == Some(joined(chunks, CONTEXT_SEPARATOR@)),
{
    assert(chunks.take(chunks.len() as int) =~= chunks);
    lemma_context_is_longest_fitting_prefix(chunks, chunks.len() as int);
}

/// The characters of an optional string.
pub open spec fn opt_view(o: Option<String>) -> Option<Seq<char>> {
    match o {
        Some(s) => Some(s@),
        None => None,
    }
}

/// The context that a retrieval leaves: the budgeted join of the chunks found, or none when
/// retrieval failed.
pub open spec fn retrieval_context(retrieved: Result<Vec<String>, String>) -> Option<Seq<char>> {
    match retrieved {
        Ok(chunks) => context_of(chunks@.map_values(|c: String| c@)),
        Err(_) => None,
    }
}

/// Whether `notices` is what is shown about a retrieval: the chunks found, if any, as
/// sources; or a warning that the turn goes on without context.
pub open spec fn is_retrieval_notice(notices: Seq<Notice>, retrieved: Result<Vec<String>, String>) -> bool {
    match retrieved {
        Ok(chunks) => notices == (if chunks@.len() == 0 {
            Seq::<Notice>::empty()
        } else {
            seq![Notice::Sources(chunks)]
        }),
        Err(e) => {
            &&& notices.len() == 1
            &&& notices[0] matches Notice::Warn(m)
            &&& m@ == "Retrieval error: "@ + e@ + " — proceeding without context."@
        },
    }
}

proof fn lemma_dialogue_push(h: Seq<ChatMessage>, m: ChatMessage)
    requires
        is_dialogue(h),
        m.role@ == (if h.len() % 2 == 1 {
            "user"@
        } else {
            "assistant"@
        }),
    ensures
        is_dialogue(h.push(m)),
{
    assert forall|i: int| 1 <= i < h.push(m).len() implies (#[trigger] h.push(m)[i]).role@ == (
    if i % 2 == 1 {
        "user"@
    } else {
        "assistant"@
    }) by {
        if i < h.len() {
            assert(h.push(m)[i] == h[i]);
        }
    }
}

proof fn lemma_dialogue_pop(h: Seq<ChatMessage>)
    requires
        is_dialogue(h),
        h.len() >= 2,
    ensures
        is_dialogue(h.drop_last()),
{
    assert forall|i: int| 1 <= i < h.drop_last().len() implies (#[trigger] h.drop_last()[i]).role@
        == (if i % 2 == 1 {
        "user"@
    } else {
        "assistant"@
    }) by {
        assert(h.drop_last()[i] == h[i]);
    }
}

proof fn lemma_dialogue_parity(h: Seq<ChatMessage>)
    requires
        is_dialogue(h),
    ensures
        awaits_reply(h) <==> h.len() % 2 == 0,
{
    if h.len() >= 2 {
        assert(h.last() == h[h.len() - 1]);
        assert("user"@ != "assistant"@) by {
            reveal_strlit("user");
            reveal_strlit("assistant");
            assert("user"@.len() == 4 && "assistant"@.len() == 9);
        }
    }
}

/// A turn that fails leaves the history as it was before the user message was taken in.
pub proof fn lemma_failed_turn_restores_history(
    before: Seq<ChatMessage>,
    during: Seq<ChatMessage>,
    after: Seq<ChatMessage>,
    input: Seq<char>,
)
    requires
        user_added(during, before, input),
        after == during.drop_last(),
    ensures
        after == before,
{
}

/// A turn that succeeds appends exactly two messages: the user message and the reply.
pub proof fn lemma_turn_appends_exchange(
    before: Seq<ChatMessage>,
    during: Seq<ChatMessage>,
    after: Seq<ChatMessage>,
    input: Seq<char>,
    reply: Seq<char>,
)
    requires
        user_added(during, before, input),
        reply_added(after, during, reply),
    ensures
        after.len() == before.len() + 2,
        after.take(before.len() as int) == before,
        after[before.len() as int].role@ == "user"@,
        after[before.len() as int].content@ == input,
        after[before.len() + 1int].role@ == "assistant"@,
        after[before.len() + 1int].content@ == reply,
{
    assert(after.take(before.len() as int) =~= before);
    assert(after[before.len() as int] == during.last());
}

/// A whole turn, taken in between turns, adds no message (it failed) or two messages (a
/// user message and its reply), keeps what came before, and leaves the history the system
/// prompt followed by user and assistant messages in turn, again between turns.
pub proof fn lemma_turn_keeps_dialogue(
    before: Seq<ChatMessage>,
    during: Seq<ChatMessage>,
    after: Seq<ChatMessage>,
    input: Seq<char>,
    reply: Seq<char>,
)
    requires
        is_dialogue(before),
        !awaits_reply(before),
        user_added(during, before, input),
        after == during.drop_last() || reply_added(after, during, reply),
    ensures
        after.len() == before.len() || after.len() == before.len() + 2,
        after.take(before.len() as int) == before,
        is_dialogue(after),
        !awaits_reply(after),
{
    lemma_dialogue_parity(before);
    assert(during.drop_last() == before);
    lemma_dialogue_push(before, during.last());
    assert(before.push(during.last()) =~= during);
    if after == during.drop_last() {
        assert(after.take(before.len() as int) =~= before);
    } else {
        assert(during.push(after.last()) =~= after);
        lemma_dialogue_push(during, after.last());
        assert(after.take(before.len() as int) =~= before);
        lemma_dialogue_parity(after);
    }
}

/// The query that retrieval is asked about is the message the user has just typed.
pub proof fn lemma_query_is_latest_input(
    before: Seq<ChatMessage>,
    during: Seq<ChatMessage>,
    input: Seq<char>,
)
    requires
        user_added(during, before, input),
    ensures
        last_user_content(during) == input,
{
}

/// Owns the conversation history and drives the chat pipeline.
pub struct Chat {
    smart_router: bool,
    history: Vec<ChatMessage>,
    context: Option<String>,
}

impl View for Chat {
    type V = Seq<ChatMessage>;

    /// The conversation history.
    closed spec fn view(&self) -> Seq<ChatMessage> {
        self.history@
    }
}

impl Chat {
    /// Whether routing asks the classifier model rather than the local heuristic.
    pub closed spec fn uses_classifier(&self) -> bool {
        self.smart_router
    }

    /// The context retrieved for the current turn.
    pub closed spec fn current_context(&self) -> Option<String> {
        self.context
    }

    /// The conversation always opens with the system prompt.
    pub open spec fn wf(&self) -> bool {
        opens_with_prompt(self@)
    }

    /// A conversation that holds only the system prompt.
    pub fn new(smart_router: bool) -> (chat: Chat)
        ensures
            chat.wf(),
            is_fresh(chat@),
            is_dialogue(chat@),
            chat.uses_classifier() == smart_router,
            chat.current_context() is None,
    {
        let mut history: Vec<ChatMessage> = Vec::new();
        history.push(ChatMessage::new("system", SYSTEM_PROMPT));
        Chat { smart_router, history, context: None }
    }

    /// The conversation history.
    pub fn history(&self) -> (h: &[ChatMessage])
        ensures
            h@ == self@,
    {
        self.history.as_slice()
    }

    /// Whether the last message is a user message that waits for its reply.
    pub fn awaiting_reply(&self) -> (r: bool)
        requires
            self.wf(),
        ensures
            r == awaits_reply(self@),
    {
        let n = self.history.len();
        n >= 2 && crate::text::str_eq(self.history[n - 1].role.as_str(), "user")
    }

    /// Clears the conversation, keeping only the system prompt.
    pub fn clear(&mut self)
        requires
            old(self).wf(),
        ensures
            final(self).wf(),
            is_fresh(final(self)@),
            is_dialogue(final(self)@),
            final(self)@ == old(self)@.take(1),
            final(self).uses_classifier() == old(self).uses_classifier(),
    {
        self.history.truncate(1);
    }

    /// Takes a user message into the history.  The result says where the route comes from:
    /// `true` for the classifier model, `false` for the local heuristic.
    pub fn handle(&mut self, input: &str) -> (use_classifier: bool)
        requires
            old(self).wf(),
        ensures
            final(self).wf(),
            user_added(final(self)@, old(self)@, input@),
            awaits_reply(final(self)@),
            is_dialogue(old(self)@) && !awaits_reply(old(self)@) ==> is_dialogue(final(self)@),
            use_classifier == old(self).uses_classifier(),
            final(self).uses_classifier() == old(self).uses_classifier(),
    {
        let ghost before = self.history@;
        let m = ChatMessage::new("user", input);
        proof {
            if is_dialogue(before) && !awaits_reply(before) {
                lemma_dialogue_parity(before);
                lemma_dialogue_push(before, m);
            }
        }
        self.history.push(m);
        assert(self.history@.drop_last() =~= before);
        self.smart_router
    }

    /// The route of the query: the classifier's verdict, or `Reasoning` exactly when the
    /// heuristic finds that the query needs reasoning.
    pub fn classify(&self, signal: RouteSignal) -> (route: RouteDecision)
        ensures
            route == (match signal {
                RouteSignal::Classifier(r) => r,
                RouteSignal::Heuristic(true) => RouteDecision::Reasoning,
                RouteSignal::Heuristic(false) => RouteDecision::Direct,
            }),
    {
        match signal {
            RouteSignal::Classifier(r) => r,
            RouteSignal::Heuristic(needs_reasoning) => if needs_reasoning {
                RouteDecision::Reasoning
            } else {
                RouteDecision::Direct
            },
        }
    }

    /// The query of the turn: the last user message, if there is one.
    fn turn_query(&self) -> (q: Option<String>)
        requires
            self.wf(),
        ensures
            q matches Some(s) ==> has_user_message(self@) && s@ == last_user_content(self@),
            q is None ==> !has_user_message(self@),
    {
        match Agent::last_user_position(self.history.as_slice()) {
            Some(k) => {
                assert(self.history@[k as int].role@ == "user"@);
                Some(Agent::last_user_message(self.history.as_slice()).to_owned())
            },
            None => {
                assert(is_final_user_position(self.history@, self.history@.len() as int));
                None
            },
        }
    }

    /// Keeps the context of a retrieval and says what to show about it.
    fn take_retrieval(&mut self, retrieved: Result<Vec<String>, String>) -> (notices: Vec<Notice>)
        ensures
            final(self).history == old(self).history,
            final(self).smart_router == old(self).smart_router,
            opt_view(final(self).context) == retrieval_context(retrieved),
            is_retrieval_notice(notices@, retrieved),
    {
        let mut notices: Vec<Notice> = Vec::new();
        match retrieved {
            Ok(chunks) => {
                let kept = limit_chunks_by_tokens(&chunks, CONTEXT_TOKEN_BUDGET);
                self.context = if kept.len() == 0 {
                    None
                } else {
                    Some(join(&kept, CONTEXT_SEPARATOR))
                };
                if chunks.len() != 0 {
                    notices.push(Notice::Sources(chunks));
                }
            },
            Err(e) => {
                let mut m = String::from_str("Retrieval error: ");
                m.append(e.as_str());
                m.append(" — proceeding without context.");
                notices.push(Notice::Warn(m));
                self.context = None;
            },
        }
        notices
    }

    /// The history with the kept context added to its system prompt.
    fn messages_with_context(&self) -> (msgs: Vec<ChatMessage>)
        requires
            self.wf(),
        ensures
            is_context_injected(msgs@, self@, opt_view(self.context)),
    {
        inject_context(self.history.as_slice(), &self.context)
    }

    /// Shows a failure and removes the pending user message.
    fn fail_turn(&mut self, prefix: &str, e: &str) -> (notices: Vec<Notice>)
        requires
            old(self).wf(),
            awaits_reply(old(self)@),
        ensures
            final(self).wf(),
            final(self).smart_router == old(self).smart_router,
            final(self)@ == old(self)@.drop_last(),
            is_dialogue(old(self)@) ==> is_dialogue(final(self)@) && !awaits_reply(final(self)@),
            notices@.len() == 1,
            notices@[0] matches Notice::Error(m) && m@ == prefix@ + e@,
    {
        proof {
            if is_dialogue(self@) {
                lemma_dialogue_parity(self@);
                lemma_dialogue_pop(self@);
                lemma_dialogue_parity(self@.drop_last());
            }
        }
        self.history.pop();
        let mut m = String::from_str(prefix);
        m.append(e);
        let mut notices: Vec<Notice> = Vec::new();
        notices.push(Notice::Error(m));
        notices
    }

    /// Keeps the reply of the turn in the history and shows it.
    fn finish_turn(&mut self, reply: String) -> (notices: Vec<Notice>)
        requires
            old(self).wf(),
            awaits_reply(old(self)@),
        ensures
            final(self).wf(),
            final(self).smart_router == old(self).smart_router,
            reply_added(final(self)@, old(self)@, reply@),
            is_dialogue(old(self)@) ==> is_dialogue(final(self)@) && !awaits_reply(final(self)@),
            notices@ == seq![Notice::Answer(reply)],
    {
        let ghost before = self.history@;
        let m = ChatMessage { role: String::from_str("assistant"), content: reply.clone() };
        proof {
            if is_dialogue(before) {
                lemma_dialogue_parity(before);
                lemma_dialogue_push(before, m);
                lemma_dialogue_parity(before.push(m));
            }
        }
        self.history.push(m);
        assert(self.history@.drop_last() =~= before);
        let mut notices: Vec<Notice> = Vec::new();
        notices.push(Notice::Answer(reply));
        notices
    }

    /// One step of the direct pipeline: retrieval, then the model's answer.
    ///
    /// `Start` asks for retrieval with the last user message ("No user message found." ends
    /// the turn when there is none).  `Retrieved` keeps the context that fits in the token
    /// budget (a failed retrieval is warned about and the turn goes on without context;
    /// found chunks are shown as sources) and asks the model about the history with that
    /// context in its system prompt.  `Replied` shows the reply and keeps it in the
    /// history; a failure is shown and removes the pending user message.
    pub fn run_direct(&mut self, event: DirectEvent) -> (out: (DirectStep, Vec<Notice>))
        requires
            old(self).wf(),
            event is Start || awaits_reply(old(self)@),
        ensures
            final(self).wf(),
            final(self).uses_classifier() == old(self).uses_classifier(),
            is_dialogue(old(self)@) ==> is_dialogue(final(self)@),
            is_dialogue(old(self)@) && awaits_reply(old(self)@) && out.0 is Done
                ==> !awaits_reply(final(self)@),
            event is Start ==> final(self)@ == old(self)@ && if has_user_message(old(self)@) {
                &&& out.0 matches DirectStep::Retrieve { query }
                &&& query@ == last_user_content(old(self)@)
                &&& out.1@.len() == 0
            } else {
                &&& out.0 == DirectStep::Done
                &&& out.1@.len() == 1
                &&& out.1@[0] matches Notice::Error(m)
                &&& m@ == "No user message found."@
            },
            event matches DirectEvent::Retrieved(r) ==> {
                &&& final(self)@ == old(self)@
                &&& opt_view(final(self).current_context()) == retrieval_context(r)
                &&& is_retrieval_notice(out.1@, r)
                &&& out.0 matches DirectStep::Answer { messages }
                &&& is_context_injected(messages@, old(self)@, retrieval_context(r))
            },
            event matches DirectEvent::Replied(Ok(r)) ==> {
                &&& reply_added(final(self)@, old(self)@, r@)
                &&& out.0 == DirectStep::Done
                &&& out.1@ == seq![Notice::Answer(r)]
            },
            event matches DirectEvent::Replied(Err(e)) ==> {
                &&& final(self)@ == old(self)@.drop_last()
                &&& out.0 == DirectStep::Done
                &&& out.1@.len() == 1
                &&& out.1@[0] matches Notice::Error(m)
                &&& m@ == "Error: "@ + e@
            },
    {
        match event {
            DirectEvent::Start => match self.turn_query() {
                Some(query) => (DirectStep::Retrieve { query }, Vec::new()),
                None => {
                    let mut notices: Vec<Notice> = Vec::new();
                    notices.push(Notice::Error(String::from_str("No user message found.")));
                    (DirectStep::Done, notices)
                },
            },
            DirectEvent::Retrieved(r) => {
                let notices = self.take_retrieval(r);
                let messages = self.messages_with_context();
                (DirectStep::Answer { messages }, notices)
            },
            DirectEvent::Replied(Ok(reply)) => (DirectStep::Done, self.finish_turn(reply)),
            DirectEvent::Replied(Err(e)) => (DirectStep::Done, self.fail_turn("Error: ", e.as_str())),
        }
    }

    /// One step of the reasoning pipeline: retrieval, then reasoning, then decision.
    ///
    /// `Start` asks for retrieval with the last user message ("No user message found." ends
    /// the turn when there is none, and the history stays as it is).  `Retrieved` keeps the
    /// context that fits in the token budget (a failed retrieval is warned about and the
    /// turn goes on without context; found chunks are shown as sources) and asks the
    /// reasoning model about the history with that context in its system prompt.
    /// `Reasoned` shows the analysis and asks the decision model; `Decided` shows the reply
    /// and keeps it in the history.  A failure of either model is shown and removes the
    /// pending user message.
    pub fn run_reasoning(&mut self, event: ReasoningEvent) -> (out: (ReasoningStep, Vec<Notice>))
        requires
            old(self).wf(),
            event is Start || awaits_reply(old(self)@),
        ensures
            final(self).wf(),
            final(self).uses_classifier() == old(self).uses_classifier(),
            is_dialogue(old(self)@) ==> is_dialogue(final(self)@),
            is_dialogue(old(self)@) && awaits_reply(old(self)@) && out.0 is Done
                ==> !awaits_reply(final(self)@),
            event is Start ==> final(self)@ == old(self)@ && if has_user_message(old(self)@) {
                &&& out.0 matches ReasoningStep::Retrieve { query }
                &&& query@ == last_user_content(old(self)@)
                &&& out.1@.len() == 0
            } else {
                &&& out.0 == ReasoningStep::Done
                &&& out.1@.len() == 1
                &&& out.1@[0] matches Notice::Error(m)
                &&& m@ == "No user message found."@
            },
            event matches ReasoningEvent::Retrieved(r) ==> {
                &&& final(self)@ == old(self)@
                &&& opt_view(final(self).current_context()) == retrieval_context(r)
                &&& is_retrieval_notice(out.1@, r)
                &&& out.0 matches ReasoningStep::Reason { messages }
                &&& is_context_injected(messages@, old(self)@, retrieval_context(r))
            },
            event matches ReasoningEvent::Reasoned(Ok(a)) ==> {
                &&& final(self)@ == old(self)@
                &&& final(self).current_context() == old(self).current_context()
                &&& out.0 matches ReasoningStep::Decide { messages, analysis }
                &&& analysis == a
                &&& is_context_injected(messages@, old(self)@, opt_view(old(self).current_context()))
                &&& out.1@ == seq![Notice::Reasoning(a)]
            },
            event matches ReasoningEvent::Reasoned(Err(e)) ==> {
                &&& final(self)@ == old(self)@.drop_last()
                &&& out.0 == ReasoningStep::Done
                &&& out.1@.len() == 1
                &&& out.1@[0] matches Notice::Error(m)
                &&& m@ == "Reasoning failed: "@ + e@
            },
            event matches ReasoningEvent::Decided(Ok(r)) ==> {
                &&& reply_added(final(self)@, old(self)@, r@)
                &&& out.0 == ReasoningStep::Done
                &&& out.1@ == seq![Notice::Answer(r)]
            },
            event matches ReasoningEvent::Decided(Err(e)) ==> {
                &&& final(self)@ == old(self)@.drop_last()
                &&& out.0 == ReasoningStep::Done
                &&& out.1@.len() == 1
                &&& out.1@[0] matches Notice::Error(m)
                &&& m@ == "Decision failed: "@ + e@
            },
    {
        match event {
            ReasoningEvent::Start => match self.turn_query() {
                Some(query) => (ReasoningStep::Retrieve { query }, Vec::new()),
                None => {
                    let mut notices: Vec<Notice> = Vec::new();
                    notices.push(Notice::Error(String::from_str("No user message found.")));
                    (ReasoningStep::Done, notices)
                },
            },
            ReasoningEvent::Retrieved(r) => {
                let notices = self.take_retrieval(r);
                let messages = self.messages_with_context();
                (ReasoningStep::Reason { messages }, notices)
            },
            ReasoningEvent::Reasoned(Ok(analysis)) => {
                let mut notices: Vec<Notice> = Vec::new();
                notices.push(Notice::Reasoning(analysis.clone()));
                let messages = self.messages_with_context();
                (ReasoningStep::Decide { messages, analysis }, notices)
            },
            ReasoningEvent::Reasoned(Err(e)) => (
                ReasoningStep::Done,
                self.fail_turn("Reasoning failed: ", e.as_str()),
            ),
            ReasoningEvent::Decided(Ok(reply)) => (ReasoningStep::Done, self.finish_turn(reply)),
            ReasoningEvent::Decided(Err(e)) => (
                ReasoningStep::Done,
                self.fail_turn("Decision failed: ", e.as_str()),
            ),
        }
    }

    /// Carries out the outcome of a command typed as `input`.  The boolean says whether the
    /// session goes on; `Clear` clears the conversation; an unknown command is reported.
    pub fn apply_command(&mut self, result: CommandResult, input: &str) -> (out: (bool, Vec<Notice>))
        requires
            old(self).wf(),
        ensures
            final(self).wf(),
            final(self).uses_classifier() == old(self).uses_classifier(),
            is_dialogue(old(self)@) ==> is_dialogue(final(self)@),
            out.0 == (result != CommandResult::Exit),
            result == CommandResult::Clear ==> is_fresh(final(self)@),
            result != CommandResult::Clear ==> final(self)@ == old(self)@,
            result == CommandResult::Clear ==> {
                &&& out.1@.len() == 1
                &&& out.1@[0] matches Notice::Success(m)
                &&& m@ == "Conversation cleared."@
            },
            (result == CommandResult::Exit || result == CommandResult::Handled) ==> out.1@.len() == 0,
            result == CommandResult::NotACommand ==> {
                &&& out.1@.len() == 2
                &&& out.1@[0] matches Notice::Warn(w)
                &&& w@ == "Unknown command: "@ + input@
                &&& out.1@[1] matches Notice::Info(i)
                &&& i@ == "Type /help for available commands."@
            },
    {
        let mut notices: Vec<Notice> = Vec::new();
        match result {
            CommandResult::Exit => (false, notices),
            CommandResult::Clear => {
                self.clear();
                notices.push(Notice::Success(String::from_str("Conversation cleared.")));
                (true, notices)
            },
            CommandResult::Handled => (true, notices),
            CommandResult::NotACommand => {
                let mut w = String::from_str("Unknown command: ");
                w.append(input);
                notices.push(Notice::Warn(w));
                notices.push(Notice::Info(String::from_str("Type /help for available commands.")));
                (true, notices)
            },
        }
    }
}

} // verus!

//! The two-step reasoning → decision pipeline of the assistant.
use vstd::prelude::*;
use vstd::string::*;

use crate::api::ChatMessage;
use crate::text::str_eq;

verus! {

/// System prompt of the reasoning step: the model thinks silently about the query.
pub const REASONING_SYSTEM: &'static str = "You are an internal reasoning engine. Analyse the user's query carefully. Think step by step: what is the user asking, what context matters, and what would make the best answer. Output your analysis concisely — this will be used to guide the final response, not shown to the user.";

/// System prompt of the decision step: the model answers the user, guided by the analysis.
pub const DECISION_SYSTEM: &'static str = "You are lala, a friendly and concise AI assistant. You have been given an internal analysis to guide you. Use it to inform your answer but do NOT repeat or quote it. Respond directly to the user in clear, natural language.";

/// The header put before the reasoning output when it is handed to the decision model.
pub const ANALYSIS_HEADER: &'static str = "[Internal analysis — do not quote this]\n";

/// Token budget of the reasoning step.
pub const REASONING_MAX_TOKENS: usize = 512;

/// Token budget of the decision step.
pub const DECISION_MAX_TOKENS: usize = 256;

/// Whether `h[i]` is the first system message of `h`.
pub open spec fn is_first_system(h: Seq<ChatMessage>, i: int) -> bool {
    &&& 0 <= i < h.len()
    &&& h[i].role@ == "system"@
    &&& forall|j: int| 0 <= j < i ==> h[j].role@ != "system"@
}

/// Whether some message of `h` is a system message.
pub open spec fn has_system(h: Seq<ChatMessage>) -> bool {
    exists|j: int| 0 <= j < h.len() && h[j].role@ == "system"@
}

/// Whether `out` is `history` with its first system message, wherever it stands, replaced
/// by a system message holding `system`; when `history` holds no system message, `out` is
/// `history` with such a message put in front.
pub open spec fn is_system_replaced(out: Seq<ChatMessage>, history: Seq<ChatMessage>, system: Seq<
    char,
>) -> bool {
    if has_system(history) {
        exists|i: int|
            #![trigger is_first_system(history, i)]
            is_first_system(history, i) && out.len() == history.len() && out[i].role@ == "system"@
                && out[i].content@ == system && forall|j: int|
                0 <= j < history.len() && j != i ==> out[j] == history[j]
    } else {
        &&& out.len() == history.len() + 1
        &&& out[0].role@ == "system"@
        &&& out[0].content@ == system
        &&& out.drop_first() == history
    }
}

/// Whether `k` is where the final user turn of `h` stands: the index of its last user
/// message, or the length of `h` when it has none.
pub open spec fn is_final_user_position(h: Seq<ChatMessage>, k: int) -> bool {
    &&& 0 <= k <= h.len()
    &&& forall|j: int| k < j < h.len() ==> h[j].role@ != "user"@
    &&& (k < h.len() ==> h[k].role@ == "user"@)
    &&& (k == h.len() ==> forall|j: int| 0 <= j < h.len() ==> h[j].role@ != "user"@)
}

/// The content of the last user message of `history`, or nothing when there is none.
pub open spec fn last_user_content(history: Seq<ChatMessage>) -> Seq<char>
    decreases history.len(),
{
    if history.len() == 0 {
        Seq::empty()
    } else if history.last().role@ == "user"@ {
        history.last().content@
    } else {
        last_user_content(history.drop_last())
    }
}

/// Whether `m` is the hidden system message that carries the reasoning output.
pub open spec fn is_hidden_analysis(m: ChatMessage, analysis: Seq<char>) -> bool {
    m.role@ == "system"@ && m.content@ == ANALYSIS_HEADER@ + analysis
}

/// Whether `msgs` is the request of the decision step: the conversation history with its
/// system prompt replaced by `DECISION_SYSTEM`, and the analysis as a hidden system message
/// put just before the final user turn.
pub open spec fn is_decision_request(msgs: Seq<ChatMessage>, history: Seq<ChatMessage>, analysis: Seq<
    char,
>) -> bool {
    exists|k: int|
        #![trigger msgs.remove(k)]
        0 <= k < msgs.len() && is_hidden_analysis(msgs[k], analysis) && is_system_replaced(
            msgs.remove(k),
            history,
            DECISION_SYSTEM@,
        ) && is_final_user_position(msgs.remove(k), k)
}

/// Replacing the system prompt twice is the same as replacing it once with the second
/// prompt: the rest of the history is kept as it was.
pub proof fn lemma_replace_system_twice(
    history: Seq<ChatMessage>,
    once: Seq<ChatMessage>,
    twice: Seq<ChatMessage>,
    first: Seq<char>,
    second: Seq<char>,
)
    requires
        is_system_replaced(once, history, first),
        is_system_replaced(twice, once, second),
    ensures
        is_system_replaced(twice, history, second),
{
    if has_system(history) {
        let i = choose|i: int| #![trigger is_first_system(history, i)]
            is_first_system(history, i) && once.len() == history.len() && once[i].role@
                == "system"@ && once[i].content@ == first && forall|j: int|
                0 <= j < history.len() && j != i ==> once[j] == history[j];
        assert(is_first_system(once, i)) by {
            assert forall|j: int| 0 <= j < i implies once[j].role@ != "system"@ by {
                assert(once[j] == history[j]);
            }
        }
        assert(has_system(once));
        let i2 = choose|i2: int| #![trigger is_first_system(once, i2)]
            is_first_system(once, i2) && twice.len() == once.len() && twice[i2].role@
                == "system"@ && twice[i2].content@ == second && forall|j: int|
                0 <= j < once.len() && j != i2 ==> twice[j] == once[j];
        assert(i2 == i) by {
            if i2 < i {
                assert(once[i2] == history[i2]);
            }
        }
        assert(is_first_system(history, i));
    } else {
        assert(is_first_system(once, 0));
        assert(has_system(once));
        let i2 = choose|i2: int| #![trigger is_first_system(once, i2)]
            is_first_system(once, i2) && twice.len() == once.len() && twice[i2].role@
                == "system"@ && twice[i2].content@ == second && forall|j: int|
                0 <= j < once.len() && j != i2 ==> twice[j] == once[j];
        assert(i2 == 0);
        assert(twice.drop_first() =~= history) by {
            assert forall|j: int| 0 <= j < history.len() implies twice.drop_first()[j]
                == history[j] by {
                assert(twice[j + 1] == once[j + 1]);
                assert(once.drop_first()[j] == once[j + 1]);
            }
        }
    }
}

/// What happened since the last step of a turn; `E` is the error type of the model calls.
pub enum AgentEvent<E> {
    /// A new turn starts.
    Start,
    /// The reasoning model returned its analysis.
    Analysed(String),
    /// The decision model returned its answer.
    Answered(String),
    /// A model call failed with this error.
    Failed(E),
}

/// What the caller does next: ask a model, or end the turn.
pub enum AgentStep<E> {
    /// Ask the reasoning model with these messages and this token budget.
    Reason { messages: Vec<ChatMessage>, max_tokens: usize },
    /// Ask the decision model with these messages and this token budget.
    Decide { messages: Vec<ChatMessage>, max_tokens: usize },
    /// The turn is over: the reply for the user, or the error that stopped the turn.
    Finished(Result<String, E>),
}

/// Drives a single user turn through the two-step reasoning → decision pipeline.
///
/// 1. Reason: the full history goes to the reasoning model under the reasoning system
///    prompt; its output is an internal analysis that is never shown to the user.
/// 2. Decide: the decision model gets the history with its system prompt replaced by
///    `DECISION_SYSTEM` and the analysis injected as a hidden system message before the
///    final user turn; it produces the reply shown to the user.
///
/// A failed model call ends the turn with its error; nothing is asked after it.
pub struct Agent {}

impl Agent {
    /// A new agent.
    pub fn new() -> (agent: Agent) {
        Agent {  }
    }

    /// One step of a turn over `history`.
    ///
    /// `Start` asks the reasoning model (history with the reasoning system prompt, 512
    /// tokens); `Analysed(a)` asks the decision model (history with the decision system
    /// prompt and the hidden analysis, 256 tokens); `Answered(x)` ends the turn with `x`;
    /// `Failed(e)` ends it with the error `e`.
    pub fn run<E>(&self, history: &[ChatMessage], event: AgentEvent<E>) -> (step: AgentStep<E>)
        ensures
            event is Start ==> (step matches AgentStep::Reason { messages, max_tokens }
                && max_tokens == REASONING_MAX_TOKENS
                && is_system_replaced(messages@, history@, REASONING_SYSTEM@)),
            event matches AgentEvent::Analysed(a) ==> (step matches AgentStep::Decide {
                messages,
                max_tokens,
            } && max_tokens == DECISION_MAX_TOKENS && is_decision_request(
                messages@,
                history@,
                a@,
            )),
            event matches AgentEvent::Answered(x) ==> step == AgentStep::<E>::Finished(Ok(x)),
            event matches AgentEvent::Failed(e) ==> step == AgentStep::<E>::Finished(Err(e)),
    {
        match event {
            AgentEvent::Start => AgentStep::Reason {
                messages: Self::replace_system(history, REASONING_SYSTEM),
                max_tokens: REASONING_MAX_TOKENS,
            },
            AgentEvent::Analysed(analysis) => AgentStep::Decide {
                messages: Self::decision_messages(history, analysis.as_str()),
                max_tokens: DECISION_MAX_TOKENS,
            },
            AgentEvent::Answered(answer) => AgentStep::Finished(Ok(answer)),
            AgentEvent::Failed(e) => AgentStep::Finished(Err(e)),
        }
    }

    /// The request of the decision step: `history` with its system prompt replaced by
    /// `DECISION_SYSTEM`, and the analysis as a hidden system message just before the final
    /// user turn (at the end when there is no user message).
    pub fn decision_messages(history: &[ChatMessage], analysis: &str) -> (msgs: Vec<ChatMessage>)
        ensures
            is_decision_request(msgs@, history@, analysis@),
    {
        let mut hidden = String::from_str(ANALYSIS_HEADER);
        hidden.append(analysis);
        let mut msgs = Self::replace_system(history, DECISION_SYSTEM);
        let ghost base = msgs@;
        let k: usize = match Self::last_user_position(msgs.as_slice()) {
            Some(k) => k,
            None => msgs.len(),
        };
        msgs.insert(k, ChatMessage { role: String::from_str("system"), content: hidden });
        assert(msgs@.remove(k as int) =~= base);
        msgs
    }

    /// Where the last user message of `history` stands, if there is one.
    pub fn last_user_position(history: &[ChatMessage]) -> (pos: Option<usize>)
        ensures
            pos matches Some(k) ==> k < history@.len() && is_final_user_position(history@, k as int),
            pos is None ==> is_final_user_position(history@, history@.len() as int),
    {
        let mut i: usize = history.len();
        while i > 0
            invariant
                0 <= i <= history@.len(),
                forall|j: int| i <= j < history@.len() ==> history@[j].role@ != "user"@,
            decreases i,
        {
            if crate::text::str_eq(history[i - 1].role.as_str(), "user") {
                return Some(i - 1);
            }
            i = i - 1;
        }
        None
    }

    /// The content of the last user message of `history`, or "" when there is none.
    pub fn last_user_message(history: &[ChatMessage]) -> (content: &str)
        ensures
            content@ == last_user_content(history@),
    {
        let mut i: usize = history.len();
        assert(history@.take(i as int) =~= history@);
        while i > 0
            invariant
                0 <= i <= history@.len(),
                last_user_content(history@) == last_user_content(history@.take(i as int)),
            decreases i,
        {
            let ghost prefix = history@.take(i as int);
            assert(prefix.drop_last() =~= history@.take(i - 1));
            if str_eq(history[i - 1].role.as_str(), "user") {
                return history[i - 1].content.as_str();
            }
            i = i - 1;
        }
        proof {
            reveal_strlit("");
        }
        ""
    }

    /// A copy of `history` whose first system message, wherever it stands, is replaced by a
    /// system message holding `new_system`; without any system message, that message is
    /// put in front.
    pub fn replace_system(history: &[ChatMessage], new_system: &str) -> (out: Vec<ChatMessage>)
        ensures
            is_system_replaced(out@, history@, new_system@),
    {
        let n: usize = history.len();
        let mut first: usize = 0;
        while first < n && !str_eq(history[first].role.as_str(), "system")
            invariant
                n == history@.len(),
                0 <= first <= n,
                forall|j: int| 0 <= j < first ==> history@[j].role@ != "system"@,
            decreases n - first,
        {
            first = first + 1;
        }
        let mut out: Vec<ChatMessage> = Vec::new();
        if first == n {
            out.push(ChatMessage::new("system", new_system));
        }
        let mut i: usize = 0;
        while i < n
            invariant
                n == history@.len(),
                0 <= first <= n,
                forall|j: int| 0 <= j < first ==> history@[j].role@ != "system"@,
                first < n ==> history@[first as int].role@ == "system"@,
                0 <= i <= n,
                first == n ==> out@.len() == i + 1 && out@[0].role@ == "system"@
                    && out@[0].content@ == new_system@ && out@.drop_first() == history@.take(
                    i as int,
                ),
                first < n ==> out@.len() == i && (i > first ==> (out@[first as int].role@
                    == "system"@ && out@[first as int].content@ == new_system@)) && forall|j: int|
                    0 <= j < i && j != first ==> out@[j] == history@[j],
            decreases n - i,
        {
            let ghost before = out@;
            if i == first {
                out.push(ChatMessage::new("system", new_system));
            } else {
                out.push(history[i].clone());
            }
            assert(first == n ==> out@.drop_first() =~= history@.take(i + 1)) by {
                if first == n {
                    assert(out@.drop_first() =~= before.drop_first().push(history@[i as int]));
                    assert(history@.take(i + 1) =~= history@.take(i as int).push(
                        history@[i as int],
                    ));
                }
            }
            i = i + 1;
        }
        proof {
            if first < n {
                assert(is_first_system(history@, first as int));
            } else {
                assert(history@.take(n as int) =~= history@);
                assert(!has_system(history@));
            }
        }
        out
    }
}

} // verus!

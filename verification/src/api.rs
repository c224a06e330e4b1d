//! OpenAI-compatible chat types and the Mistral `[INST]` prompt builder of the inference server.
use vstd::prelude::*;
use vstd::string::*;

use crate::text::str_eq;

verus! {

/// One message of a conversation; `role` is "system", "user" or "assistant".
#[derive(Debug, PartialEq, Eq)]
pub struct ChatMessage {
    pub role: String,
    pub content: String,
}

impl Clone for ChatMessage {
    fn clone(&self) -> (r: Self)
        ensures
            r == *self,
    {
        ChatMessage { role: self.role.clone(), content: self.content.clone() }
    }
}

impl ChatMessage {
    /// A message with the given role and content.
    pub fn new(role: &str, content: &str) -> (m: ChatMessage)
        ensures
            m.role@ == role@,
            m.content@ == content@,
    {
        ChatMessage { role: role.to_owned(), content: content.to_owned() }
    }
}

/// One generated answer of a completion.
#[derive(Debug, PartialEq, Eq)]
pub struct ChatChoice {
    pub index: u32,
    pub message: ChatMessage,
    pub finish_reason: String,
}

/// Token accounting of a completion.
#[derive(Debug, PartialEq, Eq)]
pub struct ChatUsage {
    pub prompt_tokens: u32,
    pub completion_tokens: u32,
    pub total_tokens: u32,
}

/// The body of a chat completion reply.
#[derive(Debug, PartialEq, Eq)]
pub struct ChatResponse {
    pub id: String,
    pub object: String,
    pub created: u64,
    pub model: String,
    pub choices: Vec<ChatChoice>,
    pub usage: ChatUsage,
}

/// A rejected request: the HTTP status code and the message sent back.
#[derive(Debug, PartialEq, Eq)]
pub struct ApiError {
    pub status: u16,
    pub message: String,
}

/// What a valid request hands to the model: the model name to report and the prompt.
#[derive(Debug, PartialEq, Eq)]
pub struct PreparedCompletion {
    pub model_name: String,
    pub prompt: String,
}

/// The model name reported back: the requested one, else "LLML".
pub open spec fn reported_model(model: Option<String>) -> Seq<char> {
    match model {
        Some(m) => m@,
        None => "LLML"@,
    }
}

/// Checks a chat completion request and builds its prompt.
///
/// A request without messages is refused with status 400; otherwise the prompt is
/// `build_prompt(messages)` and the model name is the requested one or "LLML".
pub fn prepare_completion(model: Option<String>, messages: &[ChatMessage]) -> (r: Result<
    PreparedCompletion,
    ApiError,
>)
    ensures
        r is Err <==> messages@.len() == 0,
        r matches Err(e) ==> e.status == 400 && e.message@ == "messages must not be empty"@,
        r matches Ok(p) ==> p.prompt@ == prompt_of(messages@) && p.model_name@ == reported_model(
            model,
        ),
{
    if messages.len() == 0 {
        return Err(ApiError { status: 400, message: String::from_str("messages must not be empty") });
    }
    let model_name = match model {
        Some(m) => m,
        None => String::from_str("LLML"),
    };
    let prompt = build_prompt(messages);
    Ok(PreparedCompletion { model_name, prompt })
}

/// Builds the reply to a completion once the model has run.
///
/// A failed inference (`Err` with its message) is answered with status 500 and that message;
/// a successful one with a single assistant choice, finish reason "stop" and zero usage.
pub fn finish_completion(model_name: String, outcome: Result<String, String>, id: String, created: u64)
    -> (r: Result<ChatResponse, ApiError>)
    ensures
        r is Err <==> outcome is Err,
        outcome matches Err(e) ==> r matches Err(err) && err.status == 500 && err.message == e,
        outcome matches Ok(output) ==> r matches Ok(resp) && {
            &&& resp.id == id
            &&& resp.object@ == "chat.completion"@
            &&& resp.created == created
            &&& resp.model == model_name
            &&& resp.choices@.len() == 1
            &&& resp.choices@[0].index == 0
            &&& resp.choices@[0].message.role@ == "assistant"@
            &&& resp.choices@[0].message.content == output
            &&& resp.choices@[0].finish_reason@ == "stop"@
            &&& resp.usage == (ChatUsage { prompt_tokens: 0, completion_tokens: 0, total_tokens: 0 })
        },
{
    match outcome {
        Err(e) => Err(ApiError { status: 500, message: e }),
        Ok(output) => {
            let mut choices: Vec<ChatChoice> = Vec::new();
            choices.push(
                ChatChoice {
                    index: 0,
                    message: ChatMessage { role: String::from_str("assistant"), content: output },
                    finish_reason: String::from_str("stop"),
                },
            );
            Ok(
                ChatResponse {
                    id,
                    object: String::from_str("chat.completion"),
                    created,
                    model: model_name,
                    choices,
                    usage: ChatUsage { prompt_tokens: 0, completion_tokens: 0, total_tokens: 0 },
                },
            )
        },
    }
}

/// A lowercase hexadecimal digit.
pub open spec fn is_lower_hex(c: char) -> bool {
    ('0' <= c <= '9') || ('a' <= c <= 'f')
}

/// The hyphenated lowercase text of a random (version 4, RFC 9562 variant) UUID:
/// 36 characters, hyphens at 8, 13, 18 and 23, hex digits elsewhere, `4` at 14 and
/// one of `8`, `9`, `a`, `b` at 19.
pub open spec fn is_uuid_v4_text(s: Seq<char>) -> bool {
    &&& s.len() == 36
    &&& forall|i: int|
        0 <= i < 36 ==> if i == 8 || i == 13 || i == 18 || i == 23 {
            s[i] == '-'
        } else {
            is_lower_hex(#[trigger] s[i])
        }
    &&& s[14] == '4'
    &&& (s[19] == '8' || s[19] == '9' || s[19] == 'a' || s[19] == 'b')
}

/// Calls `uuid::Uuid::new_v4` and formats the result with its `Display` impl.
///
/// The crate's source (`v4.rs`, `fmt.rs`) sets the version nibble to 4 and the variant bits
/// to `10`, and formats as lowercase hyphenated hex of 36 characters; which random value comes
/// out is not stated.
#[verifier::external_body]
fn random_uuid_text() -> (s: String)
    ensures
        is_uuid_v4_text(s@),
{
    uuid::Uuid::new_v4().to_string()
}

/// The id of a completion: `chatcmpl-` followed by a fresh random UUID.
pub fn new_completion_id() -> (id: String)
    ensures
        id@.len() == 45,
        id@.take(9) == "chatcmpl-"@,
        is_uuid_v4_text(id@.skip(9)),
{
    let uuid = random_uuid_text();
    let id = completion_id(uuid.as_str());
    proof {
        reveal_strlit("chatcmpl-");
        assert(id@.take(9) =~= "chatcmpl-"@);
        assert(id@.skip(9) =~= uuid@);
    }
    id
}

/// The completion id made of a given UUID text: `chatcmpl-<uuid>`.
pub fn completion_id(uuid: &str) -> (id: String)
    ensures
        id@ == "chatcmpl-"@ + uuid@,
{
    let mut id = String::from_str("chatcmpl-");
    id.append(uuid);
    id
}

/// The prompt block of a user turn; the first one carries the system message, if any.
pub open spec fn user_block(content: Seq<char>, system: Option<Seq<char>>, first: bool) -> Seq<
    char,
> {
    if first {
        match system {
            Some(sys) => "<s>[INST] "@ + sys + "\n\n"@ + content + " [/INST]"@,
            None => "<s>[INST] "@ + content + " [/INST]"@,
        }
    } else {
        "[INST] "@ + content + " [/INST]"@
    }
}

/// The prompt block of a closed assistant turn.
pub open spec fn assistant_block(content: Seq<char>) -> Seq<char> {
    " "@ + content + " </s>"@
}

/// Whether some message of `turns` is a user message.
pub open spec fn has_user_turn(turns: Seq<ChatMessage>) -> bool
    decreases turns.len(),
{
    turns.len() > 0 && (has_user_turn(turns.drop_last()) || turns.last().role@ == "user"@)
}

/// The block that message `m` adds after the turns `prev`.
pub open spec fn turn_block(prev: Seq<ChatMessage>, m: ChatMessage, system: Option<Seq<char>>) -> Seq<
    char,
> {
    if m.role@ == "user"@ {
        user_block(m.content@, system, !has_user_turn(prev))
    } else if m.role@ == "assistant"@ {
        assistant_block(m.content@)
    } else {
        Seq::empty()
    }
}

/// The prompt text of the conversation turns, given the leading system message if any.
pub open spec fn render_turns(turns: Seq<ChatMessage>, system: Option<Seq<char>>) -> Seq<char>
    decreases turns.len(),
{
    if turns.len() == 0 {
        Seq::empty()
    } else {
        render_turns(turns.drop_last(), system) + turn_block(
            turns.drop_last(),
            turns.last(),
            system,
        )
    }
}

/// Whether the conversation opens with a system message.
pub open spec fn opens_with_system(messages: Seq<ChatMessage>) -> bool {
    messages.len() > 0 && messages[0].role@ == "system"@
}

/// The content of the opening system message, if there is one.
pub open spec fn leading_system(messages: Seq<ChatMessage>) -> Option<Seq<char>> {
    if opens_with_system(messages) {
        Some(messages[0].content@)
    } else {
        None
    }
}

/// The messages after the opening system message.
pub open spec fn conversation_turns(messages: Seq<ChatMessage>) -> Seq<ChatMessage> {
    if opens_with_system(messages) {
        messages.drop_first()
    } else {
        messages
    }
}

/// The `[INST]` prompt of a conversation.
pub open spec fn prompt_of(messages: Seq<ChatMessage>) -> Seq<char> {
    render_turns(conversation_turns(messages), leading_system(messages))
}

/// Converts an OpenAI `messages` array into a Mistral/Llama `[INST]` prompt.
///
/// A leading system message is prepended to the first user turn; user and assistant
/// messages build the multi-turn history; other roles are ignored; the last user turn
/// is left open so that the model continues from there.
pub fn build_prompt(messages: &[ChatMessage]) -> (prompt: String)
    ensures
        prompt@ == prompt_of(messages@),
{
    let mut result = String::new();
    let n: usize = messages.len();
    let has_system: bool = n > 0 && str_eq(messages[0].role.as_str(), "system");
    let offset: usize = if has_system {
        1
    } else {
        0
    };
    let ghost system = leading_system(messages@);
    let ghost turns = conversation_turns(messages@);
    assert(turns =~= messages@.subrange(offset as int, n as int));
    let mut i: usize = offset;
    let mut first_user: bool = true;
    assert(turns.take(0) =~= Seq::<ChatMessage>::empty());
    while i < n
        invariant
            n == messages@.len(),
            offset <= i <= n,
            turns == messages@.subrange(offset as int, n as int),
            system == leading_system(messages@),
            has_system == opens_with_system(messages@),
            offset == (if has_system { 1usize } else { 0usize }),
            result@ == render_turns(turns.take(i - offset), system),
            first_user == !has_user_turn(turns.take(i - offset)),
        decreases n - i,
    {
        let msg = &messages[i];
        let ghost k = i - offset;
        let ghost prev = turns.take(k);
        assert(turns.take(k + 1).drop_last() =~= prev);
        assert(turns.take(k + 1).last() == *msg);
        if str_eq(msg.role.as_str(), "user") {
            if first_user {
                if has_system {
                    result.append("<s>[INST] ");
                    result.append(messages[0].content.as_str());
                    result.append("\n\n");
                    result.append(msg.content.as_str());
                    result.append(" [/INST]");
                } else {
                    result.append("<s>[INST] ");
                    result.append(msg.content.as_str());
                    result.append(" [/INST]");
                }
                first_user = false;
            } else {
                result.append("[INST] ");
                result.append(msg.content.as_str());
                result.append(" [/INST]");
            }
        } else if str_eq(msg.role.as_str(), "assistant") {
            result.append(" ");
            result.append(msg.content.as_str());
            result.append(" </s>");
        }
        assert(result@ =~= render_turns(prev, system) + turn_block(prev, *msg, system));
        i = i + 1;
    }
    assert(turns.take(n - offset) =~= turns);
    result
}

proof fn lemma_push_turn(messages: Seq<ChatMessage>, m: ChatMessage)
    requires
        messages.len() > 0 || m.role@ != "system"@,
    ensures
        leading_system(messages.push(m)) == leading_system(messages),
        conversation_turns(messages.push(m)) == conversation_turns(messages).push(m),
        prompt_of(messages.push(m)) == prompt_of(messages) + turn_block(
            conversation_turns(messages),
            m,
            leading_system(messages),
        ),
{
    let pushed = messages.push(m);
    if messages.len() > 0 {
        assert(pushed[0] == messages[0]);
    }
    if opens_with_system(messages) {
        assert(pushed.drop_first() =~= messages.drop_first().push(m));
    }
    let turns = conversation_turns(messages);
    assert(turns.push(m).drop_last() =~= turns);
}

/// Appending a user message appends exactly its `[INST]` block to the prompt: the block that
/// carries the leading system message when it is the first user turn, a plain
/// `[INST] .. [/INST]` block otherwise.  The new block is left open for the model.
pub proof fn lemma_prompt_user_turn(messages: Seq<ChatMessage>, m: ChatMessage)
    requires
        m.role@ == "user"@,
    ensures
        prompt_of(messages.push(m)) == prompt_of(messages) + user_block(
            m.content@,
            leading_system(messages),
            !has_user_turn(conversation_turns(messages)),
        ),
{
    assert("user"@ != "system"@) by {
        reveal_strlit("user");
        reveal_strlit("system");
        assert("user"@.len() == 4 && "system"@.len() == 6);
    }
    lemma_push_turn(messages, m);
}

/// Appending an assistant message appends ` <content> </s>`, a closed turn of the history.
pub proof fn lemma_prompt_assistant_turn(messages: Seq<ChatMessage>, m: ChatMessage)
    requires
        m.role@ == "assistant"@,
    ensures
        prompt_of(messages.push(m)) == prompt_of(messages) + assistant_block(m.content@),
{
    assert("user"@ != "assistant"@ && "assistant"@ != "system"@) by {
        reveal_strlit("user");
        reveal_strlit("system");
        reveal_strlit("assistant");
        assert("user"@.len() == 4 && "system"@.len() == 6 && "assistant"@.len() == 9);
    }
    lemma_push_turn(messages, m);
}

/// A message whose role is neither "user" nor "assistant" adds nothing to the prompt.
pub proof fn lemma_prompt_ignores_other_roles(messages: Seq<ChatMessage>, m: ChatMessage)
    requires
        m.role@ != "user"@,
        m.role@ != "assistant"@,
    ensures
        prompt_of(messages.push(m)) == prompt_of(messages),
{
    if messages.len() > 0 || m.role@ != "system"@ {
        lemma_push_turn(messages, m);
        assert(prompt_of(messages.push(m)) =~= prompt_of(messages));
    } else {
        let pushed = messages.push(m);
        assert(pushed.drop_first() =~= Seq::<ChatMessage>::empty());
    }
}

/// When the conversation ends with a user message, the prompt ends with that message followed
/// by ` [/INST]`: the last turn stays open for the model to answer.
pub proof fn lemma_prompt_ends_open(messages: Seq<ChatMessage>)
    requires
        messages.len() > 1 || (messages.len() == 1 && !opens_with_system(messages)),
        messages.last().role@ == "user"@,
    ensures
        prompt_of(messages).len() >= messages.last().content@.len() + " [/INST]"@.len(),
        prompt_of(messages).subrange(
            prompt_of(messages).len() - messages.last().content@.len() - " [/INST]"@.len(),
            prompt_of(messages).len() as int,
        ) == messages.last().content@ + " [/INST]"@,
{
    let prev = messages.drop_last();
    let m = messages.last();
    assert(prev.push(m) =~= messages);
    if prev.len() == 0 {
        assert(!opens_with_system(messages));
        assert(m.role@ != "system"@);
    }
    lemma_prompt_user_turn(prev, m);
    let block = user_block(m.content@, leading_system(prev), !has_user_turn(conversation_turns(prev)));
    let p = prompt_of(messages);
    let tail = m.content@ + " [/INST]"@;
    assert(p == prompt_of(prev) + block);
    assert(block.subrange(block.len() - tail.len(), block.len() as int) =~= tail);
    assert(p.subrange(p.len() - tail.len(), p.len() as int) =~= tail);
}

/// Whether a message has a role that the prompt ignores: neither "user" nor "assistant".
pub open spec fn is_other_role(m: ChatMessage) -> bool {
    m.role@ != "user"@ && m.role@ != "assistant"@
}

/// The messages of `s` whose flag in `keep` is set, in order.
pub open spec fn keep_where(s: Seq<ChatMessage>, keep: Seq<bool>) -> Seq<ChatMessage>
    decreases s.len(),
{
    if s.len() == 0 {
        s
    } else {
        let rest = keep_where(s.drop_last(), keep.drop_last());
        if keep.last() {
            rest.push(s.last())
        } else {
            rest
        }
    }
}

proof fn lemma_keep_where_turns(t: Seq<ChatMessage>, keep: Seq<bool>, system: Option<Seq<char>>)
    requires
        keep.len() == t.len(),
        forall|i: int| 0 <= i < t.len() && !keep[i] ==> is_other_role(#[trigger] t[i]),
    ensures
        render_turns(keep_where(t, keep), system) == render_turns(t, system),
        has_user_turn(keep_where(t, keep)) == has_user_turn(t),
    decreases t.len(),
{
    if t.len() > 0 {
        let tp = t.drop_last();
        let kp = keep.drop_last();
        let x = t.last();
        assert forall|i: int| 0 <= i < tp.len() && !kp[i] implies is_other_role(#[trigger] tp[i]) by {
            assert(tp[i] == t[i]);
        }
        lemma_keep_where_turns(tp, kp, system);
        let kw = keep_where(tp, kp);
        if keep.last() {
            assert(kw.push(x).drop_last() =~= kw);
        } else {
            assert(is_other_role(t[t.len() - 1]));
        }
    }
}

proof fn lemma_keep_where_head(s: Seq<ChatMessage>, keep: Seq<bool>)
    requires
        keep.len() == s.len(),
        s.len() > 0,
        keep[0],
    ensures
        keep_where(s, keep).len() >= 1,
        keep_where(s, keep)[0] == s[0],
        keep_where(s, keep).drop_first() == keep_where(s.drop_first(), keep.drop_first()),
    decreases s.len(),
{
    if s.len() == 1 {
        assert(s.drop_last() =~= Seq::<ChatMessage>::empty());
        assert(s.drop_first() =~= Seq::<ChatMessage>::empty());
        let kw = keep_where(s, keep);
        assert(keep_where(s.drop_last(), keep.drop_last()) == s.drop_last());
        assert(keep.last() == keep[0]);
        assert(kw =~= seq![s[0]]);
        assert(kw.drop_first() =~= Seq::<ChatMessage>::empty());
    } else {
        let sp = s.drop_last();
        let kp = keep.drop_last();
        lemma_keep_where_head(sp, kp);
        assert(s.drop_first().drop_last() =~= sp.drop_first());
        assert(keep.drop_first().drop_last() =~= kp.drop_first());
        let kwp = keep_where(sp, kp);
        if keep.last() {
            assert(kwp.push(s.last()).drop_first() =~= kwp.drop_first().push(s.last()));
        }
    }
}

/// Removing any messages whose role is neither "user" nor "assistant", except a message at
/// index 0, leaves the prompt as it was: other roles, and system messages that do not open
/// the conversation, do not reach the prompt.
pub proof fn lemma_prompt_ignores_removed_other_roles(messages: Seq<ChatMessage>, keep: Seq<bool>)
    requires
        keep.len() == messages.len(),
        messages.len() > 0 ==> keep[0],
        forall|i: int| 1 <= i < messages.len() && !keep[i] ==> is_other_role(#[trigger] messages[i]),
    ensures
        prompt_of(keep_where(messages, keep)) == prompt_of(messages),
{
    if messages.len() > 0 {
        lemma_keep_where_head(messages, keep);
        let kept = keep_where(messages, keep);
        if opens_with_system(messages) {
            let t = messages.drop_first();
            let k = keep.drop_first();
            assert forall|i: int| 0 <= i < t.len() && !k[i] implies is_other_role(#[trigger] t[i]) by {
                assert(t[i] == messages[i + 1]);
            }
            lemma_keep_where_turns(t, k, leading_system(messages));
        } else {
            lemma_keep_where_turns(messages, keep, None);
        }
    } else {
        assert(keep_where(messages, keep) == messages);
    }
}

} // verus!

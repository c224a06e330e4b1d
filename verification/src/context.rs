//! The retrieved context handed to the models: token budget and injection into the
//! system prompt.
use vstd::prelude::*;
use vstd::string::*;
use vstd::utf8::encode_utf8;

use crate::api::ChatMessage;

verus! {

/// The number of estimated tokens that the retrieved context may take.
pub const CONTEXT_TOKEN_BUDGET: usize = 800;

/// The line that opens the context block in the system prompt.
pub const CONTEXT_OPEN: &'static str = "--- Retrieved Context ---\n";

/// The line that closes the context block in the system prompt.
pub const CONTEXT_CLOSE: &'static str = "\n--- End Context ---";

/// What separates the system prompt from the context block.
pub const PROMPT_CONTEXT_GAP: &'static str = "\n\n";

/// The length in bytes of the UTF-8 encoding of a text, as `str::len` gives it.
pub open spec fn byte_len(text: Seq<char>) -> nat {
    (encode_utf8(text).len() as usize) as nat
}

/// The estimated token count of a text: one token per 3 bytes of UTF-8, rounded up.
pub open spec fn estimated_tokens(text: Seq<char>) -> nat {
    let b = byte_len(text);
    b / 3 + if b % 3 == 0 {
        0nat
    } else {
        1nat
    }
}

/// The estimated token count of several texts together.
pub open spec fn total_tokens(texts: Seq<Seq<char>>) -> nat
    decreases texts.len(),
{
    if texts.len() == 0 {
        0
    } else {
        estimated_tokens(texts[0]) + total_tokens(texts.drop_first())
    }
}

/// The chunks kept within `budget`: chunks are taken in order while their estimated tokens
/// still fit, and the first one that does not fit ends the selection.
pub open spec fn chunks_within_budget(chunks: Seq<Seq<char>>, budget: nat) -> Seq<Seq<char>>
    decreases chunks.len(),
{
    if chunks.len() == 0 || estimated_tokens(chunks[0]) > budget {
        Seq::empty()
    } else {
        seq![chunks[0]] + chunks_within_budget(
            chunks.drop_first(),
            (budget - estimated_tokens(chunks[0])) as nat,
        )
    }
}

/// The estimated token count of a text.
pub fn token_estimate(text: &str) -> (n: usize)
    ensures
        n == estimated_tokens(text@),
{
    let b: usize = text.len();
    b / 3 + if b % 3 == 0 {
        0
    } else {
        1
    }
}

/// The longest prefix of `chunks` whose estimated tokens fit in `max_tokens`.
pub fn limit_chunks_by_tokens(chunks: &Vec<String>, max_tokens: usize) -> (kept: Vec<String>)
    ensures
        kept@.map_values(|c: String| c@) == chunks_within_budget(
            chunks@.map_values(|c: String| c@),
            max_tokens as nat,
        ),
{
    let ghost views = chunks@.map_values(|c: String| c@);
    let mut kept: Vec<String> = Vec::new();
    let mut remaining: usize = max_tokens;
    let mut i: usize = 0;
    assert(views.skip(0) =~= views);
    while i < chunks.len()
        invariant_except_break
            kept@.map_values(|c: String| c@) + chunks_within_budget(views.skip(i as int), remaining as nat)
                == chunks_within_budget(views, max_tokens as nat),
        invariant
            views == chunks@.map_values(|c: String| c@),
            0 <= i <= chunks.len(),
        ensures
            kept@.map_values(|c: String| c@) == chunks_within_budget(views, max_tokens as nat),
        decreases chunks.len() - i,
    {
        let ghost before = kept@;
        let ghost rest = views.skip(i as int);
        assert(rest[0] == chunks@[i as int]@);
        assert(rest.drop_first() =~= views.skip(i + 1));
        let t: usize = token_estimate(chunks[i].as_str());
        if t > remaining {
            assert(chunks_within_budget(rest, remaining as nat) =~= Seq::<Seq<char>>::empty());
            assert(kept@.map_values(|c: String| c@) =~= before.map_values(|c: String| c@)
                + chunks_within_budget(rest, remaining as nat));
            break;
        }
        kept.push(chunks[i].clone());
        assert(kept@.map_values(|c: String| c@) =~= before.map_values(|c: String| c@).push(
            rest[0],
        ));
        remaining = remaining - t;
        i = i + 1;
    }
    proof {
        if i == chunks.len() {
            assert(views.skip(i as int) =~= Seq::<Seq<char>>::empty());
            assert(kept@.map_values(|c: String| c@) =~= kept@.map_values(|c: String| c@)
                + chunks_within_budget(views.skip(i as int), remaining as nat));
        }
    }
    kept
}

/// The chunks kept within a budget are the longest prefix of the retrieved chunks whose
/// estimated tokens together fit in the budget.
pub proof fn lemma_budget_keeps_longest_fitting_prefix(chunks: Seq<Seq<char>>, budget: nat)
    ensures
        chunks_within_budget(chunks, budget).len() <= chunks.len(),
        chunks_within_budget(chunks, budget) == chunks.take(
            chunks_within_budget(chunks, budget).len() as int,
        ),
        total_tokens(chunks_within_budget(chunks, budget)) <= budget,
        chunks_within_budget(chunks, budget).len() < chunks.len() ==> total_tokens(
            chunks.take(chunks_within_budget(chunks, budget).len() + 1int),
        ) > budget,
    decreases chunks.len(),
{
    if chunks.len() == 0 {
        assert(chunks.take(0) =~= chunks);
    } else if estimated_tokens(chunks[0]) > budget {
        assert(chunks.take(0) =~= Seq::<Seq<char>>::empty());
        let one = chunks.take(1);
        assert(one.drop_first() =~= Seq::<Seq<char>>::empty());
        assert(total_tokens(one) == estimated_tokens(chunks[0]) + total_tokens(one.drop_first()));
    } else {
        let t = estimated_tokens(chunks[0]);
        let rest = chunks.drop_first();
        let rb = (budget - t) as nat;
        lemma_budget_keeps_longest_fitting_prefix(rest, rb);
        let kr = chunks_within_budget(rest, rb);
        let k = chunks_within_budget(chunks, budget);
        assert(k == seq![chunks[0]] + kr);
        assert(k.drop_first() =~= kr);
        assert(k =~= chunks.take(k.len() as int));
        if k.len() < chunks.len() {
            let p = chunks.take(k.len() + 1int);
            assert(p.drop_first() =~= rest.take(kr.len() + 1int));
        }
    }
}

/// Taking more chunks never lowers their estimated token total.
pub proof fn lemma_total_tokens_grow_with_prefix(chunks: Seq<Seq<char>>, j1: int, j2: int)
    requires
        0 <= j1 <= j2 <= chunks.len(),
    ensures
        total_tokens(chunks.take(j1)) <= total_tokens(chunks.take(j2)),
    decreases chunks.len(),
{
    if j1 == 0 {
        assert(chunks.take(0) =~= Seq::<Seq<char>>::empty());
    } else {
        let rest = chunks.drop_first();
        lemma_total_tokens_grow_with_prefix(rest, j1 - 1, j2 - 1);
        assert(chunks.take(j1).drop_first() =~= rest.take(j1 - 1));
        assert(chunks.take(j2).drop_first() =~= rest.take(j2 - 1));
        assert(chunks.take(j1)[0] == chunks[0]);
        assert(chunks.take(j2)[0] == chunks[0]);
    }
}

/// The chunks kept within a budget are exactly the prefix of `k` chunks when those fit in
/// the budget and one more would not.
pub proof fn lemma_budget_prefix_is_unique(chunks: Seq<Seq<char>>, budget: nat, k: int)
    requires
        0 <= k <= chunks.len(),
        total_tokens(chunks.take(k)) <= budget,
        k < chunks.len() ==> total_tokens(chunks.take(k + 1)) > budget,
    ensures
        chunks_within_budget(chunks, budget) == chunks.take(k),
{
    lemma_budget_keeps_longest_fitting_prefix(chunks, budget);
    let m = chunks_within_budget(chunks, budget).len() as int;
    if m < k {
        lemma_total_tokens_grow_with_prefix(chunks, m + 1, k);
    } else if m > k {
        lemma_total_tokens_grow_with_prefix(chunks, k + 1, m);
    }
}

/// Whether `out` is `history` with the context block, when there is a context, added to
/// the system prompt that opens it.
pub open spec fn is_context_injected(
    out: Seq<ChatMessage>,
    history: Seq<ChatMessage>,
    context: Option<Seq<char>>,
) -> bool {
    match context {
        None => out == history,
        Some(c) => {
            &&& out.len() == history.len()
            &&& out[0].role == history[0].role
            &&& out[0].content@ == history[0].content@ + PROMPT_CONTEXT_GAP@ + CONTEXT_OPEN@ + c
                + CONTEXT_CLOSE@
            &&& out.drop_first() == history.drop_first()
        },
    }
}

/// `history` with the context block, when there is a context, added to the system prompt
/// that opens it.
pub fn inject_context(history: &[ChatMessage], context: &Option<String>) -> (out: Vec<
    ChatMessage,
>)
    requires
        history@.len() > 0,
    ensures
        is_context_injected(
            out@,
            history@,
            match context {
                Some(c) => Some(c@),
                None => None,
            },
        ),
{
    let mut out: Vec<ChatMessage> = Vec::new();
    let mut i: usize = 0;
    while i < history.len()
        invariant
            0 <= i <= history@.len(),
            out@ == history@.take(i as int),
        decreases history@.len() - i,
    {
        out.push(history[i].clone());
        assert(out@ =~= history@.take(i + 1));
        i = i + 1;
    }
    assert(history@.take(history@.len() as int) =~= history@);
    match context {
        None => out,
        Some(c) => {
            let mut content = history[0].content.clone();
            content.append(PROMPT_CONTEXT_GAP);
            content.append(CONTEXT_OPEN);
            content.append(c.as_str());
            content.append(CONTEXT_CLOSE);
            let ghost before = out@;
            out.set(0, ChatMessage { role: history[0].role.clone(), content });
            assert(out@.drop_first() =~= before.drop_first());
            out
        },
    }
}

} // verus!

//! Aggregation of streamed chat completions and selection of the best choice.
use vstd::prelude::*;
use vstd::string::StringExecFns;
use crate::llm::chat::response::{
    calls_view, choices_view, opt_text, ChatResponse, ChatStreamChunk, StreamDelta, ChatChoice, ChatChoiceStream, ChatChoiceV, ChatRole, CompletionTokensDetails,
    CompletionUsage, FinishReason, FunctionCall, FunctionCallStream, FunctionCallV, MessageToolCall,
    MessageToolCallV, PromptTokensDetails, ResponseMessage, ResponseMessageV, ToolCallChunk, ToolType,
};
use crate::llm::error::LLMError;
use crate::schemas::{ToolCall, ToolError, ToolOutput};

verus! {

// ---------------------------------------------------------------------------
// Token usage
// ---------------------------------------------------------------------------

/// The count `a`, 0 when absent.
pub open spec fn count_or_zero(a: Option<u32>) -> int {
    match a {
        Some(x) => x as int,
        None => 0,
    }
}

/// Whether adding the optional counts `a` and `b` stays within `u32`.
pub open spec fn counts_fit(a: Option<u32>, b: Option<u32>) -> bool {
    count_or_zero(a) + count_or_zero(b) <= u32::MAX
}

/// The sum of two optional counts: absent when both are, else the sum of the
/// present ones.
pub open spec fn added_counts(a: Option<u32>, b: Option<u32>) -> Option<u32> {
    if a is None && b is None {
        None
    } else {
        Some((count_or_zero(a) + count_or_zero(b)) as u32)
    }
}

/// Adds two optional counts: absent when both are, else the sum of the present
/// ones.
pub fn add_option_numbers(a: Option<u32>, b: Option<u32>) -> (r: Option<u32>)
    requires
        counts_fit(a, b),
    ensures
        r == added_counts(a, b),
{
    match (a, b) {
        (None, None) => None,
        _ => Some(a.unwrap_or(0) + b.unwrap_or(0)),
    }
}

/// Whether merging two prompt details stays within `u32`.
pub open spec fn prompt_details_fit(a: Option<PromptTokensDetails>, b: Option<PromptTokensDetails>) -> bool {
    match (a, b) {
        (Some(x), Some(y)) => counts_fit(x.audio_tokens, y.audio_tokens) && counts_fit(
            x.cached_tokens,
            y.cached_tokens,
        ),
        _ => true,
    }
}

/// Two prompt details merged: the present one, or the sums of their fields.
pub open spec fn merged_prompt_details(
    a: Option<PromptTokensDetails>,
    b: Option<PromptTokensDetails>,
) -> Option<PromptTokensDetails> {
    match (a, b) {
        (None, None) => None,
        (Some(x), None) => Some(x),
        (None, Some(y)) => Some(y),
        (Some(x), Some(y)) => Some(
            PromptTokensDetails {
                audio_tokens: added_counts(x.audio_tokens, y.audio_tokens),
                cached_tokens: added_counts(x.cached_tokens, y.cached_tokens),
            },
        ),
    }
}

/// Merges two [`PromptTokensDetails`], summing their fields where both are
/// present.
pub fn merge_prompt_tokens_details(
    details: Option<PromptTokensDetails>,
    chunk_details: Option<PromptTokensDetails>,
) -> (r: Option<PromptTokensDetails>)
    requires
        prompt_details_fit(details, chunk_details),
    ensures
        r == merged_prompt_details(details, chunk_details),
{
    match (details, chunk_details) {
        (None, None) => None,
        (Some(details), None) => Some(details),
        (None, Some(details)) => Some(details),
        (Some(details), Some(chunk_details)) => Some(
            PromptTokensDetails {
                audio_tokens: add_option_numbers(details.audio_tokens, chunk_details.audio_tokens),
                cached_tokens: add_option_numbers(
                    details.cached_tokens,
                    chunk_details.cached_tokens,
                ),
            },
        ),
    }
}

/// Whether merging two completion details stays within `u32`.
pub open spec fn completion_details_fit(
    a: Option<CompletionTokensDetails>,
    b: Option<CompletionTokensDetails>,
) -> bool {
    match (a, b) {
        (Some(x), Some(y)) => {
            &&& counts_fit(x.accepted_prediction_tokens, y.accepted_prediction_tokens)
            &&& counts_fit(x.audio_tokens, y.audio_tokens)
            &&& counts_fit(x.reasoning_tokens, y.reasoning_tokens)
            &&& counts_fit(x.rejected_prediction_tokens, y.rejected_prediction_tokens)
        },
        _ => true,
    }
}

/// Two completion details merged: the present one, or the sums of their
/// fields.
pub open spec fn merged_completion_details(
    a: Option<CompletionTokensDetails>,
    b: Option<CompletionTokensDetails>,
) -> Option<CompletionTokensDetails> {
    match (a, b) {
        (None, None) => None,
        (Some(x), None) => Some(x),
        (None, Some(y)) => Some(y),
        (Some(x), Some(y)) => Some(
            CompletionTokensDetails {
                accepted_prediction_tokens: added_counts(
                    x.accepted_prediction_tokens,
                    y.accepted_prediction_tokens,
                ),
                audio_tokens: added_counts(x.audio_tokens, y.audio_tokens),
                reasoning_tokens: added_counts(x.reasoning_tokens, y.reasoning_tokens),
                rejected_prediction_tokens: added_counts(
                    x.rejected_prediction_tokens,
                    y.rejected_prediction_tokens,
                ),
            },
        ),
    }
}

/// Merges two [`CompletionTokensDetails`], summing their fields where both are
/// present.
pub fn merge_completion_tokens_details(
    details: Option<CompletionTokensDetails>,
    chunk_details: Option<CompletionTokensDetails>,
) -> (r: Option<CompletionTokensDetails>)
    requires
        completion_details_fit(details, chunk_details),
    ensures
        r == merged_completion_details(details, chunk_details),
{
    match (details, chunk_details) {
        (None, None) => None,
        (Some(details), None) => Some(details),
        (None, Some(details)) => Some(details),
        (Some(details), Some(chunk_details)) => Some(
            CompletionTokensDetails {
                accepted_prediction_tokens: add_option_numbers(
                    details.accepted_prediction_tokens,
                    chunk_details.accepted_prediction_tokens,
                ),
                audio_tokens: add_option_numbers(details.audio_tokens, chunk_details.audio_tokens),
                reasoning_tokens: add_option_numbers(
                    details.reasoning_tokens,
                    chunk_details.reasoning_tokens,
                ),
                rejected_prediction_tokens: add_option_numbers(
                    details.rejected_prediction_tokens,
                    chunk_details.rejected_prediction_tokens,
                ),
            },
        ),
    }
}

/// Whether merging two usages stays within `u32`.
pub open spec fn usage_fits(a: Option<CompletionUsage>, b: Option<CompletionUsage>) -> bool {
    match (a, b) {
        (Some(x), Some(y)) => {
            &&& x.prompt_tokens + y.prompt_tokens <= u32::MAX
            &&& x.completion_tokens + y.completion_tokens <= u32::MAX
            &&& x.total_tokens + y.total_tokens <= u32::MAX
            &&& prompt_details_fit(x.prompt_tokens_details, y.prompt_tokens_details)
            &&& completion_details_fit(x.completion_tokens_details, y.completion_tokens_details)
        },
        _ => true,
    }
}

/// Two usages merged: the present one, or the sums of their counts.
pub open spec fn merged_usage(a: Option<CompletionUsage>, b: Option<CompletionUsage>) -> Option<
    CompletionUsage,
> {
    match (a, b) {
        (None, None) => None,
        (Some(x), None) => Some(x),
        (None, Some(y)) => Some(y),
        (Some(x), Some(y)) => Some(
            CompletionUsage {
                prompt_tokens: (x.prompt_tokens + y.prompt_tokens) as u32,
                completion_tokens: (x.completion_tokens + y.completion_tokens) as u32,
                total_tokens: (x.total_tokens + y.total_tokens) as u32,
                prompt_tokens_details: merged_prompt_details(
                    x.prompt_tokens_details,
                    y.prompt_tokens_details,
                ),
                completion_tokens_details: merged_completion_details(
                    x.completion_tokens_details,
                    y.completion_tokens_details,
                ),
            },
        ),
    }
}

/// Merges two [`CompletionUsage`], summing their fields where both are present.
pub fn merge_usage(usage: Option<CompletionUsage>, chunk_usage: Option<CompletionUsage>) -> (r:
    Option<CompletionUsage>)
    requires
        usage_fits(usage, chunk_usage),
    ensures
        r == merged_usage(usage, chunk_usage),
{
    match (usage, chunk_usage) {
        (None, None) => None,
        (Some(usage), None) => Some(usage),
        (None, Some(usage)) => Some(usage),
        (Some(usage), Some(chunk_usage)) => Some(
            CompletionUsage {
                prompt_tokens: usage.prompt_tokens + chunk_usage.prompt_tokens,
                completion_tokens: usage.completion_tokens + chunk_usage.completion_tokens,
                total_tokens: usage.total_tokens + chunk_usage.total_tokens,
                prompt_tokens_details: merge_prompt_tokens_details(
                    usage.prompt_tokens_details,
                    chunk_usage.prompt_tokens_details,
                ),
                completion_tokens_details: merge_completion_tokens_details(
                    usage.completion_tokens_details,
                    chunk_usage.completion_tokens_details,
                ),
            },
        ),
    }
}

/// Count number `k` of a usage, zero when absent: the prompt, completion and
/// total tokens (0 to 2), the audio and cached prompt tokens (3, 4), and the
/// accepted-prediction, audio, reasoning and rejected-prediction completion
/// tokens (5 to 8).
pub open spec fn usage_count(u: Option<CompletionUsage>, k: int) -> int {
    match u {
        None => 0,
        Some(x) => {
            let p = x.prompt_tokens_details;
            let c = x.completion_tokens_details;
            if k == 0 {
                x.prompt_tokens as int
            } else if k == 1 {
                x.completion_tokens as int
            } else if k == 2 {
                x.total_tokens as int
            } else if k == 3 {
                match p { Some(d) => count_or_zero(d.audio_tokens), None => 0 }
            } else if k == 4 {
                match p { Some(d) => count_or_zero(d.cached_tokens), None => 0 }
            } else if k == 5 {
                match c { Some(d) => count_or_zero(d.accepted_prediction_tokens), None => 0 }
            } else if k == 6 {
                match c { Some(d) => count_or_zero(d.audio_tokens), None => 0 }
            } else if k == 7 {
                match c { Some(d) => count_or_zero(d.reasoning_tokens), None => 0 }
            } else {
                match c { Some(d) => count_or_zero(d.rejected_prediction_tokens), None => 0 }
            }
        },
    }
}

/// Merging usages adds them up: every count of the merged usage is the sum of
/// the two usages' counts, and a usage is reported when either one is.
pub proof fn lemma_merge_usage_adds_counts(a: Option<CompletionUsage>, b: Option<CompletionUsage>)
    requires
        usage_fits(a, b),
    ensures
        merged_usage(a, b) is None <==> (a is None && b is None),
        forall|k: int|
            0 <= k < 9 ==> #[trigger] usage_count(merged_usage(a, b), k) == usage_count(a, k)
                + usage_count(b, k),
{
}

/// Merging usages is commutative, and an absent usage changes nothing.
pub proof fn lemma_merge_usage_commutative(a: Option<CompletionUsage>, b: Option<CompletionUsage>)
    ensures
        merged_usage(a, b) == merged_usage(b, a),
        usage_fits(a, b) == usage_fits(b, a),
        merged_usage(a, None) == a,
        merged_usage(None, a) == a,
{
}

proof fn lemma_counts_associative(a: Option<u32>, b: Option<u32>, c: Option<u32>)
    requires
        counts_fit(a, b),
        counts_fit(added_counts(a, b), c),
    ensures
        counts_fit(b, c),
        counts_fit(a, added_counts(b, c)),
        added_counts(added_counts(a, b), c) == added_counts(a, added_counts(b, c)),
{
}

proof fn lemma_prompt_details_associative(
    a: Option<PromptTokensDetails>,
    b: Option<PromptTokensDetails>,
    c: Option<PromptTokensDetails>,
)
    requires
        prompt_details_fit(a, b),
        prompt_details_fit(merged_prompt_details(a, b), c),
    ensures
        prompt_details_fit(b, c),
        prompt_details_fit(a, merged_prompt_details(b, c)),
        merged_prompt_details(merged_prompt_details(a, b), c) == merged_prompt_details(
            a,
            merged_prompt_details(b, c),
        ),
{
    if let (Some(x), Some(y), Some(z)) = (a, b, c) {
        lemma_counts_associative(x.audio_tokens, y.audio_tokens, z.audio_tokens);
        lemma_counts_associative(x.cached_tokens, y.cached_tokens, z.cached_tokens);
    }
}

proof fn lemma_completion_details_associative(
    a: Option<CompletionTokensDetails>,
    b: Option<CompletionTokensDetails>,
    c: Option<CompletionTokensDetails>,
)
    requires
        completion_details_fit(a, b),
        completion_details_fit(merged_completion_details(a, b), c),
    ensures
        completion_details_fit(b, c),
        completion_details_fit(a, merged_completion_details(b, c)),
        merged_completion_details(merged_completion_details(a, b), c)
            == merged_completion_details(a, merged_completion_details(b, c)),
{
    if let (Some(x), Some(y), Some(z)) = (a, b, c) {
        lemma_counts_associative(
            x.accepted_prediction_tokens,
            y.accepted_prediction_tokens,
            z.accepted_prediction_tokens,
        );
        lemma_counts_associative(x.audio_tokens, y.audio_tokens, z.audio_tokens);
        lemma_counts_associative(x.reasoning_tokens, y.reasoning_tokens, z.reasoning_tokens);
        lemma_counts_associative(
            x.rejected_prediction_tokens,
            y.rejected_prediction_tokens,
            z.rejected_prediction_tokens,
        );
    }
}

/// Merging usages is associative where the sums fit, so the usage of a stream
/// does not depend on how its chunks are grouped.
pub proof fn lemma_merge_usage_associative(
    a: Option<CompletionUsage>,
    b: Option<CompletionUsage>,
    c: Option<CompletionUsage>,
)
    requires
        usage_fits(a, b),
        usage_fits(merged_usage(a, b), c),
    ensures
        usage_fits(b, c),
        usage_fits(a, merged_usage(b, c)),
        merged_usage(merged_usage(a, b), c) == merged_usage(a, merged_usage(b, c)),
{
    if let (Some(x), Some(y), Some(z)) = (a, b, c) {
        lemma_prompt_details_associative(
            x.prompt_tokens_details,
            y.prompt_tokens_details,
            z.prompt_tokens_details,
        );
        lemma_completion_details_associative(
            x.completion_tokens_details,
            y.completion_tokens_details,
            z.completion_tokens_details,
        );
    }
}


// ---------------------------------------------------------------------------
// Streamed choices
// ---------------------------------------------------------------------------

/// A tool call with no field set yet.
pub open spec fn blank_call() -> MessageToolCallV {
    MessageToolCallV {
        id: Seq::empty(),
        kind: ToolType::Function,
        function: FunctionCallV { name: Seq::empty(), arguments: Seq::empty() },
    }
}

/// `calls` extended with blank calls so that position `idx` exists.
pub open spec fn padded_calls(calls: Seq<MessageToolCallV>, idx: int) -> Seq<MessageToolCallV> {
    if calls.len() <= idx {
        calls + Seq::new((idx + 1 - calls.len()) as nat, |i: int| blank_call())
    } else {
        calls
    }
}

/// A function call once the streamed piece `d` is applied: the name is
/// replaced, the arguments extended.
pub open spec fn function_applied(f: FunctionCallV, d: FunctionCallStream) -> FunctionCallV {
    FunctionCallV {
        name: match d.name {
            Some(n) => n@,
            None => f.name,
        },
        arguments: match d.arguments {
            Some(a) => f.arguments + a@,
            None => f.arguments,
        },
    }
}

/// The tool calls once the streamed piece `ch` is applied to the call at its
/// index (created blank if missing): id and kind are replaced, the function
/// updated.
pub open spec fn chunk_applied(calls: Seq<MessageToolCallV>, ch: ToolCallChunk) -> Seq<MessageToolCallV> {
    let idx = ch.index as int;
    let p = padded_calls(calls, idx);
    let c = p[idx];
    p.update(
        idx,
        MessageToolCallV {
            id: match ch.id {
                Some(s) => s@,
                None => c.id,
            },
            kind: match ch.kind {
                Some(k) => k,
                None => c.kind,
            },
            function: match ch.function {
                Some(f) => function_applied(c.function, f),
                None => c.function,
            },
        },
    )
}

/// The tool calls once the streamed pieces `chunks` are applied in order.
pub open spec fn chunks_applied(calls: Seq<MessageToolCallV>, chunks: Seq<ToolCallChunk>) -> Seq<
    MessageToolCallV,
>
    decreases chunks.len(),
{
    if chunks.len() == 0 {
        calls
    } else {
        chunk_applied(chunks_applied(calls, chunks.drop_last()), chunks.last())
    }
}

/// A choice once the streamed piece `s` is applied: role, refusal, log
/// probabilities and finish reason are replaced when given; content is
/// extended; tool calls and the function call are updated.
pub open spec fn aggregated<L, A>(c: ChatChoiceV<L, A>, s: ChatChoiceStream<L>) -> ChatChoiceV<L, A> {
    let d = s.delta;
    let m = c.message;
    ChatChoiceV {
        index: c.index,
        message: ResponseMessageV {
            role: match d.role {
                Some(r) => r,
                None => m.role,
            },
            content: match d.content {
                Some(t) => Some(
                    match m.content {
                        Some(o) => o,
                        None => Seq::empty(),
                    } + t@,
                ),
                None => m.content,
            },
            refusal: match d.refusal {
                Some(r) => Some(r@),
                None => m.refusal,
            },
            tool_calls: match d.tool_calls {
                Some(chunks) => Some(
                    chunks_applied(
                        match m.tool_calls {
                            Some(cs) => cs,
                            None => Seq::empty(),
                        },
                        chunks@,
                    ),
                ),
                None => m.tool_calls,
            },
            function_call: match d.function_call {
                Some(f) => Some(
                    function_applied(
                        match m.function_call {
                            Some(o) => o,
                            None => FunctionCallV { name: Seq::empty(), arguments: Seq::empty() },
                        },
                        f,
                    ),
                ),
                None => m.function_call,
            },
            audio: m.audio,
        },
        finish_reason: match s.finish_reason {
            Some(f) => Some(f),
            None => c.finish_reason,
        },
        logprobs: match s.logprobs {
            Some(l) => Some(l),
            None => c.logprobs,
        },
    }
}

/// The text a choice holds so far (empty when it holds none).
pub open spec fn choice_text<L, A>(c: ChatChoiceV<L, A>) -> Seq<char> {
    match c.message.content {
        Some(t) => t,
        None => Seq::empty(),
    }
}

/// The choice once the streamed pieces `ss` are applied in order.
pub open spec fn aggregated_all<L, A>(c: ChatChoiceV<L, A>, ss: Seq<ChatChoiceStream<L>>) -> ChatChoiceV<L, A>
    decreases ss.len(),
{
    if ss.len() == 0 {
        c
    } else {
        aggregated(aggregated_all(c, ss.drop_last()), ss.last())
    }
}

/// The text carried by the streamed pieces `ss`, in order.
pub open spec fn streamed_text<L>(ss: Seq<ChatChoiceStream<L>>) -> Seq<char>
    decreases ss.len(),
{
    if ss.len() == 0 {
        Seq::empty()
    } else {
        streamed_text(ss.drop_last()) + match ss.last().delta.content {
            Some(t) => t@,
            None => Seq::empty(),
        }
    }
}

/// Streaming builds a choice's text piece by piece: once pieces are applied,
/// the choice holds its earlier text followed by the text of every piece, in
/// order; it holds text as soon as it or some piece does; its index never
/// changes; and its finish reason is the last one a piece gave (else the one
/// it had).
pub proof fn lemma_streamed_choice_text<L, A>(c: ChatChoiceV<L, A>, ss: Seq<ChatChoiceStream<L>>)
    ensures
        choice_text(aggregated_all(c, ss)) == choice_text(c) + streamed_text(ss),
        aggregated_all(c, ss).message.content is Some <==> (c.message.content is Some || exists|
            i: int,
        | 0 <= i < ss.len() && (#[trigger] ss[i]).delta.content is Some),
        aggregated_all(c, ss).index == c.index,
        (forall|i: int| 0 <= i < ss.len() ==> (#[trigger] ss[i]).finish_reason is None)
            ==> aggregated_all(c, ss).finish_reason == c.finish_reason,
        ss.len() > 0 && ss.last().finish_reason is Some ==> aggregated_all(c, ss).finish_reason
            == ss.last().finish_reason,
    decreases ss.len(),
{
    if ss.len() == 0 {
        assert(choice_text(c) + Seq::<char>::empty() =~= choice_text(c));
    } else {
        let init = ss.drop_last();
        lemma_streamed_choice_text(c, init);
        assert forall|i: int| 0 <= i < init.len() implies init[i] == ss[i] by {}
        let prev = aggregated_all(c, init);
        let piece = match ss.last().delta.content {
            Some(t) => t@,
            None => Seq::<char>::empty(),
        };
        assert(choice_text(c) + streamed_text(init) + piece =~= choice_text(c) + (streamed_text(
            init,
        ) + piece));
        if ss.last().delta.content is None {
            assert(streamed_text(init) + piece =~= streamed_text(init));
        }
        if exists|i: int| 0 <= i < ss.len() && (#[trigger] ss[i]).delta.content is Some {
            let i = choose|i: int| 0 <= i < ss.len() && (#[trigger] ss[i]).delta.content is Some;
            if i < init.len() {
                assert(init[i] == ss[i]);
            }
        }
        if forall|i: int| 0 <= i < ss.len() ==> (#[trigger] ss[i]).finish_reason is None {
            assert forall|i: int| 0 <= i < init.len() implies (#[trigger] init[i]).finish_reason is None by {
                assert(ss[i].finish_reason is None);
            }
            assert(ss[ss.len() - 1].finish_reason is None);
        }
    }
}

fn blank_tool_call() -> (r: MessageToolCall)
    ensures
        r@ == blank_call(),
{
    MessageToolCall {
        id: String::new(),
        kind: ToolType::Function,
        function: FunctionCall { name: String::new(), arguments: String::new() },
    }
}

fn apply_function_delta(f: &mut FunctionCall, d: FunctionCallStream)
    ensures
        final(f)@ == function_applied(old(f)@, d),
{
    let FunctionCallStream { name, arguments } = d;
    if let Some(name) = name {
        f.name = name;
    }
    if let Some(args) = arguments {
        f.arguments.append(args.as_str());
    }
}

/// Applies the streamed piece `chunk` to the tool calls.
fn apply_tool_call_chunk(calls: &mut Vec<MessageToolCall>, chunk: ToolCallChunk)
    ensures
        calls_view(final(calls)@) == chunk_applied(calls_view(old(calls)@), chunk),
{
    let ghost ch = chunk;
    let idx = chunk.index as usize;
    let ghost start = calls_view(calls@);
    while calls.len() <= idx
        invariant
            idx == ch.index,
            start.len() <= calls@.len(),
            calls@.len() <= start.len() || calls@.len() <= idx + 1,
            forall|i: int| 0 <= i < start.len() ==> #[trigger] calls@[i]@ == start[i],
            forall|i: int| start.len() <= i < calls@.len() ==> #[trigger] calls@[i]@ == blank_call(),
        decreases idx + 1 - calls@.len(),
    {
        calls.push(blank_tool_call());
    }
    assert(calls_view(calls@) =~= padded_calls(start, idx as int));
    let ghost padded = calls_view(calls@);
    let mut call = calls.remove(idx);
    assert(call@ == padded[idx as int]);
    let ToolCallChunk { index: _, id, kind, function } = chunk;
    if let Some(id) = id {
        call.id = id;
    }
    if let Some(kind) = kind {
        call.kind = kind;
    }
    if let Some(f) = function {
        apply_function_delta(&mut call.function, f);
    }
    let ghost updated = call@;
    calls.insert(idx, call);
    assert(calls_view(calls@) =~= padded.update(idx as int, updated));
}

/// Aggregates the streamed piece `choice_stream` into `choice`.
pub fn aggregate_choice<L, A>(choice: &mut ChatChoice<L, A>, choice_stream: ChatChoiceStream<L>)
    ensures
        final(choice)@ == aggregated(old(choice)@, choice_stream),
{
    let ghost s = choice_stream;
    let ChatChoiceStream { index: _, delta, finish_reason, logprobs } = choice_stream;
    let StreamDelta {
        content,
        function_call,
        tool_calls,
        role,
        refusal,
    } = delta;
    if let Some(role) = role {
        choice.message.role = role;
    }
    if let Some(content) = content {
        let current = match choice.message.content.take() {
            Some(mut c) => {
                c.append(content.as_str());
                c
            },
            None => {
                assert(Seq::<char>::empty() + content@ =~= content@);
                content
            },
        };
        choice.message.content = Some(current);
    }
    if let Some(tool_call_chunks) = tool_calls {
        let mut calls = match choice.message.tool_calls.take() {
            Some(c) => c,
            None => {
                let v: Vec<MessageToolCall> = Vec::new();
                assert(calls_view(v@) =~= Seq::<MessageToolCallV>::empty());
                v
            },
        };
        let ghost base = calls_view(calls@);
        let ghost all = tool_call_chunks@;
        for chunk in it: tool_call_chunks
            invariant
                it.seq() == all,
                calls_view(calls@) == chunks_applied(base, all.take(it.index() as int)),
        {
            proof {
                assert(all.take(it.index() + 1).drop_last() =~= all.take(it.index() as int));
                assert(all.take(it.index() + 1).last() == chunk);
            }
            apply_tool_call_chunk(&mut calls, chunk);
        }
        proof {
            assert(all.take(all.len() as int) =~= all);
        }
        choice.message.tool_calls = Some(calls);
    }
    if let Some(fc) = function_call {
        let mut f = match choice.message.function_call.take() {
            Some(f) => f,
            None => FunctionCall { name: String::new(), arguments: String::new() },
        };
        apply_function_delta(&mut f, fc);
        choice.message.function_call = Some(f);
    }
    if let Some(refusal) = refusal {
        choice.message.refusal = Some(refusal);
    }
    if let Some(logprobs) = logprobs {
        choice.logprobs = Some(logprobs);
    }
    if let Some(finish_reason) = finish_reason {
        choice.finish_reason = Some(finish_reason);
    }
}


// ---------------------------------------------------------------------------
// Choice selection
// ---------------------------------------------------------------------------

/// How choices are ranked.
#[derive(PartialEq, Eq, Structural, Clone, Copy, Debug)]
pub enum ChoiceRanking {
    /// Stop first, then tool calls (with calls), then truncated or filtered
    /// choices, then the rest.
    PreferComplete,
    /// Truncated or filtered choices last, the rest first.
    AvoidTruncated,
}

/// The rank of a choice (lower is preferred).
pub open spec fn choice_rank<L, A>(ranking: ChoiceRanking, c: ChatChoiceV<L, A>) -> int {
    let truncated = c.finish_reason == Some(FinishReason::ContentFilter) || c.finish_reason == Some(
        FinishReason::Length,
    );
    match ranking {
        ChoiceRanking::PreferComplete => {
            if c.finish_reason == Some(FinishReason::Stop) {
                0
            } else if c.finish_reason == Some(FinishReason::ToolCalls) && (
            c.message.tool_calls matches Some(calls) && calls.len() > 0) {
                1
            } else if truncated {
                2
            } else {
                3
            }
        },
        ChoiceRanking::AvoidTruncated => if truncated {
            1
        } else {
            0
        },
    }
}

/// Whether `a` comes before `b`: by rank, then by index.
pub open spec fn choice_before<L, A>(
    ranking: ChoiceRanking,
    a: ChatChoiceV<L, A>,
    b: ChatChoiceV<L, A>,
) -> bool {
    choice_rank(ranking, a) < choice_rank(ranking, b) || (choice_rank(ranking, a) == choice_rank(
        ranking,
        b,
    ) && a.index < b.index)
}

/// Whether position `k` holds the choice a stable sort by rank then index
/// puts first: no choice comes before it, and every earlier one comes after.
pub open spec fn is_best_choice<L, A>(ranking: ChoiceRanking, cs: Seq<ChatChoiceV<L, A>>, k: int) -> bool {
    &&& 0 <= k < cs.len()
    &&& forall|j: int| 0 <= j < cs.len() ==> !choice_before(ranking, #[trigger] cs[j], cs[k])
    &&& forall|j: int| 0 <= j < k ==> choice_before(ranking, cs[k], #[trigger] cs[j])
}

/// The position of the preferred choice (meaningful when there is a choice).
pub open spec fn best_choice<L, A>(ranking: ChoiceRanking, cs: Seq<ChatChoiceV<L, A>>) -> int {
    choose|k: int| is_best_choice(ranking, cs, k)
}

/// There is exactly one preferred choice.
pub proof fn lemma_best_choice_unique<L, A>(ranking: ChoiceRanking, cs: Seq<ChatChoiceV<L, A>>, k: int)
    requires
        is_best_choice(ranking, cs, k),
    ensures
        best_choice(ranking, cs) == k,
{
    let b = best_choice(ranking, cs);
    assert(is_best_choice(ranking, cs, b));
    if b < k {
        assert(choice_before(ranking, cs[k], cs[b]));
    } else if k < b {
        assert(choice_before(ranking, cs[b], cs[k]));
    }
}

/// Some list has a preferred choice as soon as it has a choice.
proof fn lemma_best_choice_exists<L, A>(ranking: ChoiceRanking, cs: Seq<ChatChoiceV<L, A>>)
    requires
        cs.len() > 0,
    ensures
        exists|k: int| is_best_choice(ranking, cs, k),
    decreases cs.len(),
{
    let n = cs.len() - 1;
    if n == 0 {
        assert(is_best_choice(ranking, cs, 0));
    } else {
        let init = cs.drop_last();
        lemma_best_choice_exists(ranking, init);
        let k = choose|k: int| is_best_choice(ranking, init, k);
        assert(forall|j: int| 0 <= j < n ==> cs[j] == init[j]);
        if choice_before(ranking, cs[n], cs[k]) {
            assert forall|j: int| 0 <= j < cs.len() implies !choice_before(
                ranking,
                #[trigger] cs[j],
                cs[n],
            ) by {
                if j < n {
                    assert(!choice_before(ranking, init[j], init[k]));
                }
            }
            assert forall|j: int| 0 <= j < n implies choice_before(
                ranking,
                cs[n],
                #[trigger] cs[j],
            ) by {
                assert(!choice_before(ranking, init[j], init[k]));
            }
            assert(is_best_choice(ranking, cs, n));
        } else {
            assert forall|j: int| 0 <= j < cs.len() implies !choice_before(
                ranking,
                #[trigger] cs[j],
                cs[k],
            ) by {
                if j < n {
                    assert(!choice_before(ranking, init[j], init[k]));
                }
            }
            assert forall|j: int| 0 <= j < k implies choice_before(
                ranking,
                cs[k],
                #[trigger] cs[j],
            ) by {
                assert(choice_before(ranking, init[k], init[j]));
            }
            assert(is_best_choice(ranking, cs, k));
        }
    }
}

/// Whether `c` stopped normally.
pub open spec fn stopped<L, A>(c: ChatChoiceV<L, A>) -> bool {
    c.finish_reason == Some(FinishReason::Stop)
}

/// Whether `c` stopped to call tools and holds calls.
pub open spec fn made_calls<L, A>(c: ChatChoiceV<L, A>) -> bool {
    &&& c.finish_reason == Some(FinishReason::ToolCalls)
    &&& c.message.tool_calls matches Some(calls) && calls.len() > 0
}

/// Whether `c` was cut short, by its length or by the content filter.
pub open spec fn cut_short<L, A>(c: ChatChoiceV<L, A>) -> bool {
    c.finish_reason == Some(FinishReason::Length) || c.finish_reason == Some(
        FinishReason::ContentFilter,
    )
}

/// Whether `a` and `b` finished the same way, as far as selection goes.
pub open spec fn finished_alike<L, A>(a: ChatChoiceV<L, A>, b: ChatChoiceV<L, A>) -> bool {
    &&& stopped(a) == stopped(b)
    &&& made_calls(a) == made_calls(b)
    &&& cut_short(a) == cut_short(b)
}

/// The choice [`select_choice`] takes: a choice that stopped normally whenever
/// there is one; else one that made tool calls whenever there is one; else a
/// truncated or filtered one whenever there is one; and among the choices
/// that finished alike, the one with the lowest index.
pub proof fn lemma_selected_choice_preference<L, A>(cs: Seq<ChatChoiceV<L, A>>)
    requires
        cs.len() > 0,
    ensures
        ({
            let b = best_choice(ChoiceRanking::PreferComplete, cs);
            &&& 0 <= b < cs.len()
            &&& (exists|j: int| 0 <= j < cs.len() && stopped(#[trigger] cs[j])) ==> stopped(cs[b])
            &&& (forall|j: int| 0 <= j < cs.len() ==> !stopped(#[trigger] cs[j])) && (exists|j: int|
                0 <= j < cs.len() && made_calls(#[trigger] cs[j])) ==> made_calls(cs[b])
            &&& (forall|j: int| 0 <= j < cs.len() ==> !stopped(#[trigger] cs[j]) && !made_calls(
                cs[j],
            )) && (exists|j: int| 0 <= j < cs.len() && cut_short(#[trigger] cs[j])) ==> cut_short(
                cs[b],
            )
            &&& forall|j: int|
                0 <= j < cs.len() && finished_alike(#[trigger] cs[j], cs[b]) ==> cs[b].index
                    <= cs[j].index
        }),
{
    let r = ChoiceRanking::PreferComplete;
    lemma_best_choice_exists(r, cs);
    let b = best_choice(r, cs);
    assert(is_best_choice(r, cs, b));
    assert forall|j: int| 0 <= j < cs.len() implies !choice_before(r, #[trigger] cs[j], cs[b]) by {}
    if exists|j: int| 0 <= j < cs.len() && stopped(#[trigger] cs[j]) {
        let j = choose|j: int| 0 <= j < cs.len() && stopped(#[trigger] cs[j]);
        assert(!choice_before(r, cs[j], cs[b]));
    }
    if (forall|j: int| 0 <= j < cs.len() ==> !stopped(#[trigger] cs[j])) && (exists|j: int|
        0 <= j < cs.len() && made_calls(#[trigger] cs[j])) {
        let j = choose|j: int| 0 <= j < cs.len() && made_calls(#[trigger] cs[j]);
        assert(!choice_before(r, cs[j], cs[b]));
        assert(!stopped(cs[b]));
    }
    if (forall|j: int| 0 <= j < cs.len() ==> !stopped(#[trigger] cs[j]) && !made_calls(cs[j]))
        && (exists|j: int| 0 <= j < cs.len() && cut_short(#[trigger] cs[j])) {
        let j = choose|j: int| 0 <= j < cs.len() && cut_short(#[trigger] cs[j]);
        assert(!choice_before(r, cs[j], cs[b]));
        assert(!stopped(cs[b]) && !made_calls(cs[b]));
    }
    assert forall|j: int|
        0 <= j < cs.len() && finished_alike(#[trigger] cs[j], cs[b]) implies cs[b].index
        <= cs[j].index by {
        assert(!choice_before(r, cs[j], cs[b]));
        assert(choice_rank(r, cs[j]) == choice_rank(r, cs[b]));
    }
}

/// The choice taken when truncated choices are avoided: one that was not cut
/// short whenever there is one, and among the choices cut short alike, the one
/// with the lowest index.
pub proof fn lemma_untruncated_choice_preference<L, A>(cs: Seq<ChatChoiceV<L, A>>)
    requires
        cs.len() > 0,
    ensures
        ({
            let b = best_choice(ChoiceRanking::AvoidTruncated, cs);
            &&& 0 <= b < cs.len()
            &&& (exists|j: int| 0 <= j < cs.len() && !cut_short(#[trigger] cs[j])) ==> !cut_short(
                cs[b],
            )
            &&& forall|j: int|
                0 <= j < cs.len() && cut_short(#[trigger] cs[j]) == cut_short(cs[b]) ==> cs[b].index
                    <= cs[j].index
        }),
{
    let r = ChoiceRanking::AvoidTruncated;
    lemma_best_choice_exists(r, cs);
    let b = best_choice(r, cs);
    assert(is_best_choice(r, cs, b));
    if exists|j: int| 0 <= j < cs.len() && !cut_short(#[trigger] cs[j]) {
        let j = choose|j: int| 0 <= j < cs.len() && !cut_short(#[trigger] cs[j]);
        assert(!choice_before(r, cs[j], cs[b]));
    }
    assert forall|j: int|
        0 <= j < cs.len() && cut_short(#[trigger] cs[j]) == cut_short(cs[b]) implies cs[b].index
        <= cs[j].index by {
        assert(!choice_before(r, cs[j], cs[b]));
    }
}

fn rank_of<L, A>(ranking: ChoiceRanking, c: &ChatChoice<L, A>) -> (r: u8)
    ensures
        r == choice_rank(ranking, c@),
{
    let truncated = match c.finish_reason {
        Some(FinishReason::ContentFilter) | Some(FinishReason::Length) => true,
        _ => false,
    };
    match ranking {
        ChoiceRanking::PreferComplete => match c.finish_reason {
            Some(FinishReason::Stop) => 0,
            Some(FinishReason::ToolCalls) if (match &c.message.tool_calls {
                Some(calls) => calls.len() > 0,
                None => false,
            }) => 1,
            _ => if truncated {
                2
            } else {
                3
            },
        },
        ChoiceRanking::AvoidTruncated => if truncated {
            1
        } else {
            0
        },
    }
}

/// The position of the preferred choice of a non-empty list.
pub fn best_choice_position<L, A>(ranking: ChoiceRanking, choices: &Vec<ChatChoice<L, A>>) -> (k: usize)
    requires
        choices@.len() > 0,
    ensures
        is_best_choice(ranking, choices_view(choices@), k as int),
        k == best_choice(ranking, choices_view(choices@)),
{
    let ghost cs = choices_view(choices@);
    let mut best: usize = 0;
    let mut best_rank = rank_of(ranking, &choices[0]);
    let mut i: usize = 1;
    while i < choices.len()
        invariant
            cs == choices_view(choices@),
            1 <= i <= choices@.len(),
            best < i,
            best_rank == choice_rank(ranking, cs[best as int]),
            forall|j: int| 0 <= j < i ==> !choice_before(ranking, #[trigger] cs[j], cs[best as int]),
            forall|j: int| 0 <= j < best ==> choice_before(ranking, cs[best as int], #[trigger] cs[j]),
        decreases choices@.len() - i,
    {
        let r = rank_of(ranking, &choices[i]);
        if r < best_rank || (r == best_rank && choices[i].index < choices[best].index) {
            assert forall|j: int| 0 <= j < i implies choice_before(
                ranking,
                cs[i as int],
                #[trigger] cs[j],
            ) by {
                assert(!choice_before(ranking, cs[j], cs[best as int]));
            }
            best = i;
            best_rank = r;
        }
        i = i + 1;
    }
    proof {
        lemma_best_choice_unique(ranking, cs, best as int);
    }
    best
}

/// The message of the error raised when a response has no choice.
pub open spec fn no_choices_message() -> Seq<char> {
    seq!['N', 'o', ' ', 'c', 'h', 'o', 'i', 'c', 'e', 's', '.']
}

/// Selects the preferred choice: the one with the best finish reason (stop,
/// then tool calls that hold calls, then truncated or filtered ones, then the
/// rest), the lowest index among those, the earliest among equals. A response
/// without choices is an error.
pub fn select_choice<L, A>(choices: Vec<ChatChoice<L, A>>) -> (r: Result<ChatChoice<L, A>, LLMError>)
    ensures
        choices@.len() == 0 ==> (r matches Err(LLMError::ContentNotFound(m)) && m@
            == no_choices_message()),
        choices@.len() > 0 ==> (r matches Ok(c) && c == choices@[best_choice(
            ChoiceRanking::PreferComplete,
            choices_view(choices@),
        )]),
{
    if choices.len() == 0 {
        let mut m: Vec<char> = Vec::new();
        m.push('N');
        m.push('o');
        m.push(' ');
        m.push('c');
        m.push('h');
        m.push('o');
        m.push('i');
        m.push('c');
        m.push('e');
        m.push('s');
        m.push('.');
        assert(m@ =~= no_choices_message());
        return Err(LLMError::ContentNotFound(crate::text::string_of(m.as_slice())));
    }
    let k = best_choice_position(ChoiceRanking::PreferComplete, &choices);
    let mut choices = choices;
    Ok(choices.remove(k))
}

// ---------------------------------------------------------------------------
// Streamed response
// ---------------------------------------------------------------------------

/// A choice of index `index` with no content yet.
pub open spec fn fresh_choice<L, A>(index: u32) -> ChatChoiceV<L, A> {
    ChatChoiceV {
        index,
        message: ResponseMessageV {
            role: ChatRole::Assistant,
            content: None,
            refusal: None,
            tool_calls: None,
            function_call: None,
            audio: None,
        },
        finish_reason: None,
        logprobs: None,
    }
}

/// Whether some choice of `cs` has index `index`.
pub open spec fn has_choice<L, A>(cs: Seq<ChatChoiceV<L, A>>, index: u32) -> bool {
    exists|k: int| 0 <= k < cs.len() && cs[k].index == index
}

/// The position of the choice of index `index` (meaningful when there is one).
pub open spec fn choice_position<L, A>(cs: Seq<ChatChoiceV<L, A>>, index: u32) -> int {
    choose|k: int| 0 <= k < cs.len() && cs[k].index == index
}

/// Whether no two choices share an index.
pub open spec fn distinct_indices<L, A>(cs: Seq<ChatChoiceV<L, A>>) -> bool {
    forall|i: int, j: int| 0 <= i < cs.len() && 0 <= j < cs.len() && i != j ==> cs[i].index != cs[j].index
}

/// The choices once the streamed piece `s` is aggregated into the choice of
/// its index, which is added (empty) at the end when missing.
pub open spec fn choices_streamed<L, A>(cs: Seq<ChatChoiceV<L, A>>, s: ChatChoiceStream<L>) -> Seq<
    ChatChoiceV<L, A>,
> {
    if has_choice(cs, s.index) {
        let k = choice_position(cs, s.index);
        cs.update(k, aggregated(cs[k], s))
    } else {
        cs.push(aggregated(fresh_choice(s.index), s))
    }
}

/// The choices once the streamed pieces `ss` are aggregated in order.
pub open spec fn choices_all_streamed<L, A>(cs: Seq<ChatChoiceV<L, A>>, ss: Seq<ChatChoiceStream<L>>) -> Seq<
    ChatChoiceV<L, A>,
>
    decreases ss.len(),
{
    if ss.len() == 0 {
        cs
    } else {
        choices_streamed(choices_all_streamed(cs, ss.drop_last()), ss.last())
    }
}

/// Aggregating a streamed piece keeps the indices of the choices distinct.
pub proof fn lemma_choices_streamed_distinct<L, A>(cs: Seq<ChatChoiceV<L, A>>, s: ChatChoiceStream<L>)
    requires
        distinct_indices(cs),
    ensures
        distinct_indices(choices_streamed(cs, s)),
        has_choice(choices_streamed(cs, s), s.index),
{
    let r = choices_streamed(cs, s);
    if has_choice(cs, s.index) {
        let k = choice_position(cs, s.index);
        assert(r[k].index == s.index);
    } else {
        assert(r[cs.len() as int].index == s.index);
    }
}

/// Whether adding the optional counts `a` and `b` stays within `u32`.
fn counts_fit_with(a: Option<u32>, b: Option<u32>) -> (r: bool)
    ensures
        r == counts_fit(a, b),
{
    let x: u64 = match a {
        Some(v) => v as u64,
        None => 0,
    };
    let y: u64 = match b {
        Some(v) => v as u64,
        None => 0,
    };
    x + y <= u32::MAX as u64
}

/// Builds a full response out of the pieces of a streamed response.
///
/// The metadata comes from the first piece with an identifier, the usages are
/// merged, and each choice piece is aggregated into the choice of its index.
pub struct ResponseAccumulator<L, A, S> {
    id: String,
    created: u32,
    model: String,
    service_tier: Option<S>,
    system_fingerprint: Option<String>,
    object: String,
    usage: Option<CompletionUsage>,
    choices: Vec<ChatChoice<L, A>>,
}

/// The metadata of a response: id, creation time, model, service tier, system
/// fingerprint and object type.
pub struct ResponseMeta<S> {
    pub id: Seq<char>,
    pub created: u32,
    pub model: Seq<char>,
    pub service_tier: Option<S>,
    pub system_fingerprint: Option<Seq<char>>,
    pub object: Seq<char>,
}

impl<L, A, S> ResponseAccumulator<L, A, S> {
    /// The metadata gathered so far.
    pub closed spec fn meta(&self) -> ResponseMeta<S> {
        ResponseMeta {
            id: self.id@,
            created: self.created,
            model: self.model@,
            service_tier: self.service_tier,
            system_fingerprint: opt_text(self.system_fingerprint),
            object: self.object@,
        }
    }

    /// The usage gathered so far.
    pub closed spec fn usage(&self) -> Option<CompletionUsage> {
        self.usage
    }

    /// The choices gathered so far, in the order their indices first appeared.
    pub closed spec fn choices(&self) -> Seq<ChatChoiceV<L, A>> {
        choices_view(self.choices@)
    }

    /// No two gathered choices share an index.
    #[verifier::type_invariant]
    closed spec fn choices_distinct(&self) -> bool {
        distinct_indices(choices_view(self.choices@))
    }

    /// Whether the usage of a piece can be merged into the usage gathered so
    /// far without overflowing a count.
    pub fn usage_fits_with(&self, chunk_usage: &Option<CompletionUsage>) -> (b: bool)
        ensures
            b == usage_fits(self.usage(), *chunk_usage),
    {
        match (&self.usage, chunk_usage) {
            (Some(x), Some(y)) => {
                let tokens_fit = (x.prompt_tokens as u64) + (y.prompt_tokens as u64) <= u32::MAX as u64
                    && (x.completion_tokens as u64) + (y.completion_tokens as u64) <= u32::MAX as u64
                    && (x.total_tokens as u64) + (y.total_tokens as u64) <= u32::MAX as u64;
                let prompt_fit = match (&x.prompt_tokens_details, &y.prompt_tokens_details) {
                    (Some(p), Some(q)) => counts_fit_with(p.audio_tokens, q.audio_tokens)
                        && counts_fit_with(p.cached_tokens, q.cached_tokens),
                    _ => true,
                };
                let completion_fit = match (
                    &x.completion_tokens_details,
                    &y.completion_tokens_details,
                ) {
                    (Some(p), Some(q)) => counts_fit_with(
                        p.accepted_prediction_tokens,
                        q.accepted_prediction_tokens,
                    ) && counts_fit_with(p.audio_tokens, q.audio_tokens) && counts_fit_with(
                        p.reasoning_tokens,
                        q.reasoning_tokens,
                    ) && counts_fit_with(p.rejected_prediction_tokens, q.rejected_prediction_tokens),
                    _ => true,
                };
                tokens_fit && prompt_fit && completion_fit
            },
            _ => true,
        }
    }

    /// Starts an empty response.
    pub fn new() -> (r: Self)
        ensures
            r.meta() == (ResponseMeta::<S> {
                id: Seq::empty(),
                created: 0,
                model: Seq::empty(),
                service_tier: None,
                system_fingerprint: None,
                object: Seq::empty(),
            }),
            r.usage() is None,
            r.choices() == Seq::<ChatChoiceV<L, A>>::empty(),
    {
        let r = ResponseAccumulator {
            id: String::new(),
            created: 0,
            model: String::new(),
            service_tier: None,
            system_fingerprint: None,
            object: String::new(),
            usage: None,
            choices: Vec::new(),
        };
        assert(choices_view(r.choices@) =~= Seq::<ChatChoiceV<L, A>>::empty());
        r
    }

    /// Adds a piece of the stream.
    pub fn add_chunk(&mut self, chunk: ChatStreamChunk<L, S>)
        requires
            usage_fits(old(self).usage(), chunk.usage),
        ensures
            final(self).meta() == (if old(self).meta().id.len() == 0 {
                ResponseMeta {
                    id: chunk.id@,
                    created: chunk.created,
                    model: chunk.model@,
                    service_tier: chunk.service_tier,
                    system_fingerprint: opt_text(chunk.system_fingerprint),
                    object: chunk.object@,
                }
            } else {
                old(self).meta()
            }),
            final(self).usage() == merged_usage(old(self).usage(), chunk.usage),
            final(self).choices() == choices_all_streamed(old(self).choices(), chunk.choices@),
    {
        proof {
            use_type_invariant(&*self);
        }
        let ChatStreamChunk {
            id,
            choices,
            created,
            model,
            service_tier,
            system_fingerprint,
            object,
            usage,
        } = chunk;
        if self.id.as_str().is_empty() {
            self.id = id;
            self.created = created;
            self.model = model;
            self.service_tier = service_tier;
            self.system_fingerprint = system_fingerprint;
            self.object = object;
        }
        self.usage = merge_usage(self.usage, usage);
        let mut gathered: Vec<ChatChoice<L, A>> = Vec::new();
        proof {
            assert(choices_view(gathered@) =~= Seq::<ChatChoiceV<L, A>>::empty());
        }
        std::mem::swap(&mut gathered, &mut self.choices);
        let ghost base = choices_view(gathered@);
        let ghost all = choices@;
        for choice_stream in it: choices
            invariant
                it.seq() == all,
                distinct_indices(choices_view(gathered@)),
                choices_view(gathered@) == choices_all_streamed(base, all.take(it.index() as int)),
        {
            proof {
                assert(all.take(it.index() + 1).drop_last() =~= all.take(it.index() as int));
                assert(all.take(it.index() + 1).last() == choice_stream);
                lemma_choices_streamed_distinct(choices_view(gathered@), choice_stream);
            }
            stream_into(&mut gathered, choice_stream);
        }
        proof {
            assert(all.take(all.len() as int) =~= all);
        }
        self.choices = gathered;
    }

    /// The response gathered from the pieces.
    pub fn finish(self) -> (r: ChatResponse<L, A, S>)
        ensures
            r.id@ == self.meta().id,
            r.created == self.meta().created,
            r.model@ == self.meta().model,
            r.service_tier == self.meta().service_tier,
            opt_text(r.system_fingerprint) == self.meta().system_fingerprint,
            r.object@ == self.meta().object,
            choices_view(r.choices@) == self.choices(),
            r.usage == self.usage(),
    {
        ChatResponse {
            id: self.id,
            created: self.created,
            model: self.model,
            service_tier: self.service_tier,
            system_fingerprint: self.system_fingerprint,
            object: self.object,
            choices: self.choices,
            usage: self.usage,
        }
    }
}

/// Aggregates `s` into the choice of its index, added when missing.
fn stream_into<L, A>(choices: &mut Vec<ChatChoice<L, A>>, s: ChatChoiceStream<L>)
    requires
        distinct_indices(choices_view(old(choices)@)),
    ensures
        choices_view(final(choices)@) == choices_streamed(choices_view(old(choices)@), s),
{
    let ghost cs = choices_view(choices@);
    let mut k: usize = 0;
    while k < choices.len()
        invariant
            k <= choices@.len(),
            choices@ == old(choices)@,
            cs == choices_view(choices@),
            distinct_indices(cs),
            forall|j: int| 0 <= j < k ==> cs[j].index != s.index,
        decreases choices@.len() - k,
    {
        if choices[k].index == s.index {
            assert(cs[k as int].index == s.index);
            let ghost pos = choice_position(cs, s.index);
            assert(pos == k) by {
                assert(0 <= pos < cs.len() && cs[pos].index == s.index);
            }
            let mut c = choices.remove(k);
            aggregate_choice(&mut c, s);
            let ghost cv = c@;
            choices.insert(k, c);
            assert(choices_view(choices@) =~= cs.update(k as int, cv));
            return;
        }
        k = k + 1;
    }
    let index = s.index;
    let mut c: ChatChoice<L, A> = ChatChoice {
        index,
        message: ResponseMessage {
            role: ChatRole::Assistant,
            content: None,
            refusal: None,
            tool_calls: None,
            function_call: None,
            audio: None,
        },
        finish_reason: None,
        logprobs: None,
    };
    assert(c@ == fresh_choice::<L, A>(index));
    aggregate_choice(&mut c, s);
    let ghost cv = c@;
    choices.push(c);
    assert(choices_view(choices@) =~= cs.push(cv));
}

// ---------------------------------------------------------------------------
// Calls to tools served by MCP servers
// ---------------------------------------------------------------------------

/// The result of handling the calls to tools served by MCP servers.
#[derive(Debug)]
pub struct McpHandleResult {
    /// The results of the MCP tool calls: the call id, the tool's name and
    /// what the call gave.
    pub results: Vec<(String, String, Result<ToolOutput, ToolError>)>,
    /// The tool calls not handled.
    pub remaining_calls: Vec<ToolCall>,
}

/// Whether `name` is one of `names`.
pub open spec fn named_in(names: Seq<String>, name: Seq<char>) -> bool {
    exists|k: int| 0 <= k < names.len() && names[k]@ == name
}

/// Whether `name` is one of `names`.
pub(crate) fn is_named_in(names: &Vec<String>, name: &str) -> (b: bool)
    ensures
        b == named_in(names@, name@),
{
    let key = name.to_owned();
    let mut k: usize = 0;
    while k < names.len()
        invariant
            k <= names@.len(),
            key@ == name@,
            forall|j: int| 0 <= j < k ==> names@[j]@ != name@,
        decreases names@.len() - k,
    {
        if names[k] == key {
            assert(names@[k as int]@ == name@);
            return true;
        }
        k = k + 1;
    }
    false
}

/// Splits `calls` into the calls of tools named in `mcp_names` (served by MCP
/// servers) and the others, each in their order.
pub fn partition_mcp_calls(calls: Vec<ToolCall>, mcp_names: &Vec<String>) -> (r: (
    Vec<ToolCall>,
    Vec<ToolCall>,
))
    ensures
        r.0@ == calls@.filter(|c: ToolCall| named_in(mcp_names@, c.name@)),
        r.1@ == calls@.filter(|c: ToolCall| !named_in(mcp_names@, c.name@)),
{
    let ghost all = calls@;
    let ghost is_mcp = |c: ToolCall| named_in(mcp_names@, c.name@);
    let ghost not_mcp = |c: ToolCall| !named_in(mcp_names@, c.name@);
    let mut mcp: Vec<ToolCall> = Vec::new();
    let mut rest: Vec<ToolCall> = Vec::new();
    proof {
        reveal_with_fuel(Seq::filter, 1);
        assert(all.take(0) =~= Seq::<ToolCall>::empty());
    }
    for call in it: calls
        invariant
            it.seq() == all,
            is_mcp == (|c: ToolCall| named_in(mcp_names@, c.name@)),
            not_mcp == (|c: ToolCall| !named_in(mcp_names@, c.name@)),
            mcp@ == all.take(it.index() as int).filter(is_mcp),
            rest@ == all.take(it.index() as int).filter(not_mcp),
    {
        let ghost k = it.index() as int;
        proof {
            reveal_with_fuel(Seq::filter, 1);
            assert(all.take(k + 1).drop_last() =~= all.take(k));
            assert(all.take(k + 1).last() == call);
        }
        let found = is_named_in(mcp_names, call.name.as_str());
        let ghost c = call;
        if found {
            mcp.push(call);
        } else {
            rest.push(call);
        }
        proof {
            assert(is_mcp(c) == found);
            assert(mcp@ =~= all.take(k + 1).filter(is_mcp));
            assert(rest@ =~= all.take(k + 1).filter(not_mcp));
        }
    }
    proof {
        assert(all.take(all.len() as int) =~= all);
    }
    (mcp, rest)
}

/// Splitting calls between MCP tools and local tools loses and repeats none:
/// together the two parts hold each call exactly as often as `calls` does.
pub proof fn lemma_mcp_split_keeps_every_call(calls: Seq<ToolCall>, mcp_names: Seq<String>)
    ensures
        calls.filter(|c: ToolCall| named_in(mcp_names, c.name@)).to_multiset().add(
            calls.filter(|c: ToolCall| !named_in(mcp_names, c.name@)).to_multiset(),
        ) == calls.to_multiset(),
    decreases calls.len(),
{
    broadcast use vstd::multiset::group_multiset_axioms, vstd::seq_lib::to_multiset_build, vstd::seq_lib::group_to_multiset_ensures;

    reveal_with_fuel(Seq::filter, 1);

    let is_mcp = |c: ToolCall| named_in(mcp_names, c.name@);
    let not_mcp = |c: ToolCall| !named_in(mcp_names, c.name@);
    if calls.len() == 0 {
        assert(calls.filter(is_mcp) =~= Seq::<ToolCall>::empty());
        assert(calls.filter(not_mcp) =~= Seq::<ToolCall>::empty());
        assert(calls.to_multiset() =~= vstd::multiset::Multiset::<ToolCall>::empty());
        assert(calls.filter(is_mcp).to_multiset() =~= vstd::multiset::Multiset::<ToolCall>::empty());
        assert(calls.filter(not_mcp).to_multiset() =~= vstd::multiset::Multiset::<ToolCall>::empty());
        let e = vstd::multiset::Multiset::<ToolCall>::empty();
        assert(e.add(e) =~= e);
    } else {
        let rest = calls.drop_last();
        let c = calls.last();
        lemma_mcp_split_keeps_every_call(rest, mcp_names);
        assert(rest.push(c) =~= calls);
        let a = rest.filter(is_mcp).to_multiset();
        let b = rest.filter(not_mcp).to_multiset();
        if is_mcp(c) {
            assert(calls.filter(is_mcp) == rest.filter(is_mcp).push(c));
            assert(calls.filter(not_mcp) == rest.filter(not_mcp));
            assert(a.insert(c).add(b) =~= a.add(b).insert(c));
        } else {
            assert(calls.filter(is_mcp) == rest.filter(is_mcp));
            assert(calls.filter(not_mcp) == rest.filter(not_mcp).push(c));
            assert(a.add(b.insert(c)) =~= a.add(b).insert(c));
        }
    }
}

} // verus!

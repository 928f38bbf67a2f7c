//! Laws of turns: what waits for an answer, what is cut off, what is counted, and what an
//! interruption leaves.

use vstd::prelude::*;

#[allow(unused_imports)]
use crate::agent::{
    abort_event, abort_messages, answer_text, args_len, call_ids, calls_of, estimated, is_cut,
    is_paired, lemma_first_user_at, model_silence, pending_after, pending_step, reply_events,
    tool_silence, trimmed, was_interrupted, Agent, EventView,
};
#[allow(unused_imports)]
use crate::laws::texts::lemma_holds_in_between;
#[allow(unused_imports)]
use crate::llm::{tool_message, MessageView, ToolCallView, Usage};
#[allow(unused_imports)]
use crate::number::dec;
#[allow(unused_imports)]
use crate::text::{byte_len, lemma_byte_len_grows};

verus! {

/// A conversation in which a message asks for tools is complete once each call has its answer, in
/// the order of the calls, and not before.
pub proof fn lemma_calls_wait_for_answers(s: Seq<MessageView>, m: MessageView, i: int)
    requires
        is_paired(s),
        m.tool_call_id is None,
    ensures
        pending_after(s.push(m)) matches Some(p) && p.len() == calls_of(m).len() && (0 <= i
            < calls_of(m).len() ==> p[i] == calls_of(m)[i].id),
        calls_of(m).len() > 0 ==> !is_paired(s.push(m)),
        calls_of(m).len() == 0 ==> is_paired(s.push(m)),
        m.tool_calls is None ==> calls_of(m).len() == 0,
        m.tool_calls matches Some(c) ==> calls_of(m) == c,
{
    assert(s.push(m).drop_last() =~= s);
    assert(pending_after(s.push(m)) == pending_step(Seq::empty(), m));
    if calls_of(m).len() == 0 {
        assert(call_ids(calls_of(m)) =~= Seq::<Seq<char>>::empty());
    }
}

/// While calls wait, the next message must be the answer to the one that waits first: any other
/// message does not belong there.
pub proof fn lemma_first_call_is_answered_first(
    s: Seq<MessageView>,
    ids: Seq<Seq<char>>,
    text: Seq<char>,
    id: Seq<char>,
    m: MessageView,
)
    requires
        pending_after(s) == Some(ids),
        ids.len() > 0,
    ensures
        pending_after(s.push(tool_message(ids[0], text))) == Some(ids.skip(1)),
        id != ids[0] ==> pending_after(s.push(tool_message(id, text))) is None,
        m.tool_call_id is None ==> pending_after(s.push(m)) is None,
{
    let a = tool_message(ids[0], text);
    assert(s.push(a).drop_last() =~= s);
    assert(ids.drop_first() =~= ids.skip(1));
    let b = tool_message(id, text);
    assert(s.push(b).drop_last() =~= s);
    assert(s.push(m).drop_last() =~= s);
}

/// An answer to a call that nobody made does not belong into a conversation.
pub proof fn lemma_no_answer_without_a_call(s: Seq<MessageView>, m: MessageView)
    requires
        is_paired(s),
        m.tool_call_id is Some,
    ensures
        pending_after(s.push(m)) is None,
{
    assert(s.push(m).drop_last() =~= s);
}

/// An interruption answers each call that waits, in order, and ends with a note of the model.
pub proof fn lemma_interruption_answers_all(ids: Seq<Seq<char>>, i: int)
    ensures
        abort_messages(ids).len() == ids.len() + 1,
        0 <= i < ids.len() ==> abort_messages(ids)[i].tool_call_id == Some(ids[i])
            && abort_messages(ids)[i].role == "tool"@ && abort_messages(ids)[i].content == Some(
            "（用户已打断）"@,
        ) && abort_messages(ids)[i].tool_calls is None,
        abort_messages(ids).last().role == "assistant"@,
        abort_messages(ids).last().content == Some("（已打断当前任务）"@),
        abort_messages(ids).last().tool_calls is None,
        abort_messages(ids).last().tool_call_id is None,
        abort_event() == (EventView::Reply { text: "⏸ 已打断当前任务"@ }),
{
}

/// The outcome of a tool counts as interrupted where its error says so, wherever in the text; a
/// result never does.
pub proof fn lemma_interrupted_tools(a: Seq<char>, b: Seq<char>, t: Seq<char>)
    ensures
        was_interrupted(Err(a + "用户已打断"@ + b)),
        !was_interrupted(Ok(t)),
        was_interrupted(Err(t)) ==> exists|x: Seq<char>, y: Seq<char>| #[trigger] (x
            + "用户已打断"@ + y) == t,
        answer_text(Ok(t)) == t,
{
    lemma_holds_in_between(a + "用户已打断"@ + b, a, "用户已打断"@, b);
    lemma_holds_in_between(t, a, "用户已打断"@, b);
}

/// The size of a conversation is that of its messages: the bytes of the text and of the arguments
/// of all calls, and 24 for each message.
pub proof fn lemma_sizes_of_messages(a: Seq<MessageView>, m: MessageView, b: Seq<MessageView>)
    ensures
        estimated(a + b) == estimated(a) + estimated(b),
        estimated(seq![m]) == 24 + args_len(calls_of(m)) + (match m.content {
            Some(t) => byte_len(t),
            None => 0,
        }),
        estimated(Seq::empty()) == 0,
    decreases b.len(),
{
    if b.len() == 0 {
        assert(a + b =~= a);
    } else {
        lemma_sizes_of_messages(a, m, b.drop_last());
        assert((a + b).drop_last() =~= a + b.drop_last());
    }
    assert(seq![m].drop_last() =~= Seq::<MessageView>::empty());
    assert(estimated(seq![m].drop_last()) == 0);
}

/// The arguments of every call count.
pub proof fn lemma_sizes_of_arguments(a: Seq<ToolCallView>, c: ToolCallView, b: Seq<ToolCallView>)
    ensures
        args_len(a + b) == args_len(a) + args_len(b),
        args_len(seq![c]) == byte_len(c.arguments),
        args_len(Seq::empty()) == 0,
    decreases b.len(),
{
    if b.len() == 0 {
        assert(a + b =~= a);
    } else {
        lemma_sizes_of_arguments(a, c, b.drop_last());
        assert((a + b).drop_last() =~= a + b.drop_last());
    }
    assert(seq![c].drop_last() =~= Seq::<ToolCallView>::empty());
    assert(args_len(seq![c].drop_last()) == 0);
}

/// A conversation that is too large loses what stands behind its first message, up to and with
/// the next message of the user, and is looked at again. One that fits, has four messages or
/// fewer, or in which there is no later message of the user, is left as it is.
pub proof fn lemma_what_is_cut_off(s: Seq<MessageView>, budget: nat, i: int)
    ensures
        estimated(s) > budget && s.len() > 4 && 0 < i < s.len() && s[i].role == "user"@ && (forall|
            j: int,
        | 0 <= j < i ==> (#[trigger] s[j]).role != "user"@) ==> trimmed(s, budget) == trimmed(
            s.take(1) + s.skip(i + 1),
            budget,
        ),
        estimated(s) <= budget ==> trimmed(s, budget) == s,
        s.len() <= 4 ==> trimmed(s, budget) == s,
        (forall|j: int| 0 <= j < s.len() ==> (#[trigger] s[j]).role != "user"@) ==> trimmed(
            s,
            budget,
        ) == s,
        s.len() > 0 && s[0].role == "user"@ ==> trimmed(s, budget) == s,
{
    if 0 < i < s.len() && s[i].role == "user"@ && (forall|j: int|
        0 <= j < i ==> (#[trigger] s[j]).role != "user"@) {
        lemma_first_user_at(s, i);
    }
    if forall|j: int| 0 <= j < s.len() ==> (#[trigger] s[j]).role != "user"@ {
        lemma_first_user_at(s, s.len() as int);
    }
}

/// The window is three bytes for each token of the context.
pub proof fn lemma_window(a: Agent)
    requires
        a.llm_cfg.context_length * 3 <= usize::MAX,
    ensures
        a.window() == 3 * a.llm_cfg.context_length,
{
    assert(a.llm_cfg.context_length as usize == a.llm_cfg.context_length);
}

/// The budget is used up once as many tokens were counted as it allows; without a budget it never
/// is.
pub proof fn lemma_budget(a: Agent)
    ensures
        a.llm_cfg.token_budget == 0 ==> !a.budget_spent(),
        a.llm_cfg.token_budget > 0 ==> (a.budget_spent() <==> a.usage.total_tokens
            >= a.llm_cfg.token_budget),
{
}

/// Every call of the model counts, with all its tokens: what two calls used is the sum.
pub proof fn lemma_tokens_add_up(a: Agent, b: Agent, c: Agent, u: Usage, v: Usage)
    requires
        b.counted(a, u),
        c.counted(b, v),
    ensures
        c.usage.prompt_tokens == a.usage.prompt_tokens + u.prompt_tokens + v.prompt_tokens,
        c.usage.completion_tokens == a.usage.completion_tokens + u.completion_tokens
            + v.completion_tokens,
        c.usage.total_tokens == a.usage.total_tokens + u.total_tokens + v.total_tokens,
        c.calls == a.calls + 2,
{
}

/// A reply shows what it used, and its text where it ends the turn.
pub proof fn lemma_what_is_shown_of_a_reply(m: MessageView, u: Usage)
    ensures
        reply_events(m, u)[0] == (EventView::LlmUsage {
            prompt_tokens: u.prompt_tokens,
            completion_tokens: u.completion_tokens,
            total_tokens: u.total_tokens,
        }),
        calls_of(m).len() > 0 ==> reply_events(m, u).len() == 1,
        calls_of(m).len() == 0 ==> reply_events(m, u).len() == 2,
        calls_of(m).len() == 0 && m.content is Some ==> reply_events(m, u)[1]
            == (EventView::Reply { text: m.content->0 }),
        calls_of(m).len() == 0 && m.content is None ==> reply_events(m, u)[1]
            == (EventView::Reply { text: Seq::empty() }),
{
}

/// Who waits for more than three seconds is told for how many; before that nothing is said, nor
/// while a tool reports by itself.
pub proof fn lemma_who_waits_is_told(name: Seq<char>, ms: u64, silent: i64)
    ensures
        ms <= 3000 ==> model_silence(ms) is None && tool_silence(name, ms, silent) is None,
        silent <= 3000 ==> tool_silence(name, ms, silent) is None,
        ms > 3000 ==> model_silence(ms) == Some(
            EventView::Progress {
                text: "模型思考中… ("@ + dec((ms / 1000) as nat) + "s)"@,
                current: None,
                total: None,
            },
        ),
        ms > 3000 && silent > 3000 ==> tool_silence(name, ms, silent) == Some(
            EventView::Progress {
                text: name + " 仍在执行… ("@ + dec((ms / 1000) as nat) + "s)"@,
                current: None,
                total: None,
            },
        ),
{
}

/// What is left of a text that is cut is its longest beginning that takes no more bytes than are
/// allowed, and all of it where it takes no more.
pub proof fn lemma_longest_beginning(r: Seq<char>, s: Seq<char>, max: nat, n: int)
    requires
        is_cut(r, s, max),
    ensures
        r.len() <= s.len() && r == s.take(r.len() as int),
        byte_len(r) <= max,
        0 <= n <= s.len() && byte_len(s.take(n)) <= max ==> n <= r.len(),
        byte_len(s) <= max ==> r == s,
{
    if 0 <= n <= s.len() && n > r.len() {
        lemma_byte_len_grows(s, r.len() as int + 1, n);
    }
    if r.len() < s.len() {
        lemma_byte_len_grows(s, r.len() as int + 1, s.len() as int);
        assert(s.take(s.len() as int) =~= s);
    } else {
        assert(s.take(s.len() as int) =~= s);
    }
}

/// A text that fits is left whole, and one that does not is cut where the next character would not
/// fit.
pub proof fn lemma_where_a_text_is_cut(s: Seq<char>, max: nat, n: int)
    ensures
        byte_len(s) <= max ==> is_cut(s, s, max),
        0 <= n < s.len() && byte_len(s.take(n)) <= max && byte_len(s.take(n + 1)) > max ==> is_cut(
            s.take(n),
            s,
            max,
        ),
{
    assert(s.take(s.len() as int) =~= s);
}

} // verus!

//! The conversation with the model: turns, tool calls, interruption and the context window.

use vstd::prelude::*;
use vstd::string::StringExecFns;

use crate::config::LlmConfig;
#[allow(unused_imports)]
use crate::json::{json_compact, lemma_plain_object, object, reads_as, JsonView};
use crate::json::{render_json, Obj};
use crate::llm::{clone_calls, ChatResult, Message, ToolCall, Usage};
#[allow(unused_imports)]
use crate::llm::{
    call_views, lemma_message_views_push, message_views, no_usage, text_message, tool_message,
    MessageView, ToolCallView,
};
#[allow(unused_imports)]
use crate::number::dec;
use crate::number::u64_to_string;
#[allow(unused_imports)]
use crate::text::{byte_len, contains_spec, lemma_byte_len_push};
use crate::text::{byte_len_of, char_width, chars_of, contains, str_eq, string_of};
use crate::tools::TOOL_INTERRUPTED;

verus! {

/// The instructions that every conversation starts with.
pub const SYSTEM_PROMPT: &'static str = "你是 Minecraft 模组管理助手 RustAgent。核心原则: 你负责理解与沟通, 正确性由工具保证 —— 绝不凭记忆推荐 mod, 一切 mod 数据必须来自工具返回的真实 API 数据。

工作流程:
1. 理解需求: 确认 Minecraft 版本、加载器(fabric/forge/neoforge/quilt)和游玩偏好。用户没说清楚的先问。用户用中文描述主题没关系, 搜索工具会自动转换关键词。特别注意: 若用户消息开头带 [界面预设: ...], 说明版本/加载器/候选数量已在界面选好, 视为用户确认, 直接采用, 绝不要再追问这些信息; 预设中的候选数量应作为 search_mods 的 limit 参数 (单次对话上限 20)。
2. 推荐前先调用 get_user_profile 了解用户口味, 再调用 search_mods 搜索(必须传 game_version 和 loader)。
3. 把候选 mod 以列表呈现: 名称、一句话推荐理由(结合用户口味)、下载量。先不下载, 请用户挑选, 不要替用户做决定。
4. 用户确认后调用 build_modpack 生成整合包(自动补全前置依赖并检测冲突), 报告输出路径与冲突详情。生成的 .mrpack 可拖入 PCL2 等启动器直接安装。限制说明(用户触及时主动解释): 单次对话找包/挑选上限 20 个; 单包用户所选 mod 上限 100 个(前置依赖自动补全与报错修复补入不计入) —— 为考虑轻量化, 敬请谅解, 可建议用户分多轮组包。
5. 用户表达喜欢/不喜欢时调用 record_feedback 记录; 用户想看点新的时调用 recommend_new_mods。
6. 搜索无结果时换个关键词重试, 而不是放弃。
7. 用户贴出启动器报错(如缺少某依赖、mod 不兼容)时: 从报错中提取缺失 mod 的名称, 用 search_mods 找到 slug, 调用 repair_pack 把它补进原整合包, 并告知用户重新拖入启动器安装。
8. CurseForge 独占 mod: Modrinth 搜索无结果时 search_mods 会自动尝试 CurseForge 点名查询(需服务器开启 curseforge 支持), CF 候选带 source 为 curseforge 的标记, 组包时放入 build_modpack 的 cf_mods 参数(不是 mod_slugs)。未开启时告知用户可在 config.toml 的 [curseforge] 打开。OptiFine 等不提供任何接口的 mod 只能引导用户去官网手动下载。
始终用中文回复。同一轮内工具调用失败要向用户说明原因并给出替代方案。";

/// What happens during a turn, for whoever shows it.
pub enum AgentEvent {
    /// A tool is about to run, with its arguments as JSON text.
    ToolCall { name: String, args: String },
    /// A tool has run.
    ToolResult { name: String, ok: bool },
    /// A tool reports how far it is.
    Progress { text: String, current: Option<u64>, total: Option<u64> },
    /// A piece of the reply.
    ReplyDelta { text: String },
    /// The whole reply.
    Reply { text: String },
    /// The token counts of one call of the model.
    LlmUsage { prompt_tokens: u64, completion_tokens: u64, total_tokens: u64 },
}

/// The mathematical value of an [`AgentEvent`].
#[verifier::ext_equal]
pub enum EventView {
    ToolCall { name: Seq<char>, args: Seq<char> },
    ToolResult { name: Seq<char>, ok: bool },
    Progress { text: Seq<char>, current: Option<u64>, total: Option<u64> },
    ReplyDelta { text: Seq<char> },
    Reply { text: Seq<char> },
    LlmUsage { prompt_tokens: u64, completion_tokens: u64, total_tokens: u64 },
}

impl View for AgentEvent {
    type V = EventView;

    open spec fn view(&self) -> EventView {
        match *self {
            AgentEvent::ToolCall { name, args } => EventView::ToolCall { name: name@, args: args@ },
            AgentEvent::ToolResult { name, ok } => EventView::ToolResult { name: name@, ok },
            AgentEvent::Progress { text, current, total } => EventView::Progress {
                text: text@,
                current,
                total,
            },
            AgentEvent::ReplyDelta { text } => EventView::ReplyDelta { text: text@ },
            AgentEvent::Reply { text } => EventView::Reply { text: text@ },
            AgentEvent::LlmUsage { prompt_tokens, completion_tokens, total_tokens } =>
                EventView::LlmUsage { prompt_tokens, completion_tokens, total_tokens },
        }
    }
}

/// The views of a list of events.
pub open spec fn event_views(s: Seq<AgentEvent>) -> Seq<EventView> {
    s.map_values(|e: AgentEvent| e@)
}

// ---------------------------------------------------------------------------
// Well-formed conversations
// ---------------------------------------------------------------------------

/// The ids of tool calls.
pub open spec fn call_ids(calls: Seq<ToolCallView>) -> Seq<Seq<char>> {
    calls.map_values(|c: ToolCallView| c.id)
}

/// The tool calls of a message; none where it has no such part.
pub open spec fn calls_of(m: MessageView) -> Seq<ToolCallView> {
    match m.tool_calls {
        Some(s) => s,
        None => Seq::empty(),
    }
}

/// The ids of the tool calls that still wait for an answer after `m`, where those in `pending`
/// waited before it. Nothing where `m` may not stand there: an answer must be to the call that
/// waits first, and while calls wait nothing but answers may follow.
pub open spec fn pending_step(pending: Seq<Seq<char>>, m: MessageView) -> Option<Seq<Seq<char>>> {
    match m.tool_call_id {
        Some(id) => if pending.len() > 0 && pending[0] == id && calls_of(m).len() == 0 {
            Some(pending.drop_first())
        } else {
            None
        },
        None => if pending.len() == 0 {
            Some(call_ids(calls_of(m)))
        } else {
            None
        },
    }
}

/// The ids of the tool calls that wait for an answer after the messages; nothing where the
/// messages are no well-formed conversation.
pub open spec fn pending_after(s: Seq<MessageView>) -> Option<Seq<Seq<char>>>
    decreases s.len(),
{
    if s.len() == 0 {
        Some(Seq::empty())
    } else {
        match pending_after(s.drop_last()) {
            Some(p) => pending_step(p, s.last()),
            None => None,
        }
    }
}

/// Whether every tool call has its answer, in order, directly behind the message that made it.
pub open spec fn is_paired(s: Seq<MessageView>) -> bool {
    pending_after(s) == Some(Seq::<Seq<char>>::empty())
}

/// Whether a message neither makes tool calls nor answers one.
pub open spec fn is_plain_text(m: MessageView) -> bool {
    m.tool_call_id is None && calls_of(m).len() == 0
}

/// Whether the first message and those of the user are plain text.
pub open spec fn is_sound(s: Seq<MessageView>) -> bool {
    forall|i: int|
        0 <= i < s.len() && ((#[trigger] s[i]).role == "user"@ || i == 0) ==> is_plain_text(s[i])
}

// ---------------------------------------------------------------------------
// The context window
// ---------------------------------------------------------------------------

/// The bytes of the arguments of tool calls.
pub open spec fn args_len(calls: Seq<ToolCallView>) -> nat
    decreases calls.len(),
{
    if calls.len() == 0 {
        0
    } else {
        args_len(calls.drop_last()) + byte_len(calls.last().arguments)
    }
}

/// The estimated size of a message: the bytes of its text and of the arguments of its tool
/// calls, and 24 for what surrounds them.
pub open spec fn message_size(m: MessageView) -> nat {
    (match m.content {
        Some(t) => byte_len(t),
        None => 0,
    }) + args_len(calls_of(m)) + 24
}

/// The estimated size of a conversation.
pub open spec fn estimated(s: Seq<MessageView>) -> nat
    decreases s.len(),
{
    if s.len() == 0 {
        0
    } else {
        estimated(s.drop_last()) + message_size(s.last())
    }
}

/// The position of the first message of the user, or the length.
pub open spec fn first_user(s: Seq<MessageView>) -> int
    decreases s.len(),
{
    if s.len() == 0 || s[0].role == "user"@ {
        0
    } else {
        1 + first_user(s.drop_first())
    }
}

/// The conversation cut down to a size: while it is too large and has more than four messages,
/// what stands behind the first message goes, up to and with the next message of the user.
pub open spec fn trimmed(s: Seq<MessageView>, budget: nat) -> Seq<MessageView>
    decreases s.len(),
{
    let i = first_user(s);
    if estimated(s) > budget && 0 < i < s.len() && s.len() > 4 {
        trimmed(s.take(1) + s.skip(i + 1), budget)
    } else {
        s
    }
}

// ---------------------------------------------------------------------------
// Turns
// ---------------------------------------------------------------------------

/// A conversation with its settings and its token counts.
pub struct Agent {
    pub llm_cfg: LlmConfig,
    pub messages: Vec<Message>,
    pub usage: Usage,
    pub calls: u64,
    /// The file that the conversation is saved to, once it has been saved.
    pub session_file: Option<String>,
}

/// A turn in progress: how often the model may still be called, and the tool calls of its last
/// reply, of which the first `next` have been answered.
pub struct Turn {
    pub limit: u32,
    pub left: u32,
    pub pending: Vec<ToolCall>,
    pub next: usize,
    pub done: bool,
}

/// What is to be done next in a turn.
pub enum TurnStep {
    CallModel,
    RunTool { name: String, args: String },
    Finished,
}

impl Turn {
    /// The ids of the tool calls that have not been answered.
    pub open spec fn waiting(self) -> Seq<Seq<char>> {
        call_ids(call_views(self.pending@)).skip(self.next as int)
    }

    /// The tool call that is to be run next, where one waits.
    pub open spec fn call_to_run(self) -> Option<ToolCallView> {
        if self.next < self.pending@.len() {
            Some(self.pending@[self.next as int]@)
        } else {
            None
        }
    }

    /// Whether the tool calls of a message are to be run, and none of them was yet.
    pub open spec fn takes_up(self, m: MessageView) -> bool {
        call_views(self.pending@) == calls_of(m) && self.next == 0
    }

    /// Whether one call more has been answered than in `before`, and the calls are the same.
    pub open spec fn goes_on_from(self, before: Turn) -> bool {
        self.pending == before.pending && self.next == before.next + 1
    }

    /// Whether the count of answered calls is in range.
    pub open spec fn wf(self) -> bool {
        &&& self.next <= self.pending@.len()
        &&& self.left <= self.limit
        &&& self.done ==> self.next == self.pending@.len()
    }
}

/// The answers to tool calls that were not run.
pub open spec fn placeholders(ids: Seq<Seq<char>>) -> Seq<MessageView> {
    ids.map_values(|id: Seq<char>| tool_message(id, "（用户已打断）"@))
}

/// What an interruption adds to the conversation: an answer to each call that waits, and a note.
pub open spec fn abort_messages(waiting: Seq<Seq<char>>) -> Seq<MessageView> {
    placeholders(waiting).push(text_message("assistant"@, "（已打断当前任务）"@))
}

/// What is shown of an interruption.
pub open spec fn abort_event() -> EventView {
    EventView::Reply { text: "⏸ 已打断当前任务"@ }
}

/// Whether a reply asks for tools.
pub open spec fn asks_for_tools(m: MessageView) -> bool {
    calls_of(m).len() > 0
}

/// The text of a tool's answer: its result, or an object that holds the error.
pub open spec fn answer_text(outcome: Result<Seq<char>, Seq<char>>) -> Seq<char> {
    match outcome {
        Ok(t) => t,
        Err(e) => json_compact(object(seq![("error"@, JsonView::Str(e))])),
    }
}

/// The view of the outcome of a tool.
pub open spec fn outcome_view(r: Result<String, String>) -> Result<Seq<char>, Seq<char>> {
    match r {
        Ok(s) => Ok(s@),
        Err(s) => Err(s@),
    }
}

/// Whether the outcome of a tool is that it was interrupted.
pub open spec fn was_interrupted(outcome: Result<Seq<char>, Seq<char>>) -> bool {
    outcome matches Err(e) && contains_spec(e, TOOL_INTERRUPTED@)
}

/// The text with which a turn ends that has called the model too often.
pub open spec fn limit_text(limit: u32) -> Seq<char> {
    "工具调用次数超过上限 "@ + dec(limit as nat)
        + " (可在 config.toml 的 [llm] max_tool_iterations 调整), 本轮中止"@
}

/// The text with which a turn ends once the tokens are used up.
pub open spec fn budget_text(budget: u64) -> Seq<char> {
    "已达到 token 预算 ("@ + dec(budget as nat)
        + "), 为避免超支本轮中止。可在 config.toml 调整 token_budget"@
}

impl Agent {
    /// The messages of the conversation.
    pub open spec fn conv(self) -> Seq<MessageView> {
        message_views(self.messages@)
    }

    /// Whether the conversation is well formed and waits for what the turn has not answered.
    pub open spec fn follows(self, turn: Turn) -> bool {
        &&& self.conv().len() > 0
        &&& pending_after(self.conv()) == Some(turn.waiting())
        &&& is_sound(self.conv())
    }

    /// Whether the conversation is well formed and waits for nothing.
    pub open spec fn at_rest(self) -> bool {
        is_paired(self.conv()) && is_sound(self.conv())
    }

    /// Whether the token budget is used up.
    pub open spec fn budget_spent(self) -> bool {
        self.llm_cfg.token_budget > 0 && self.usage.total_tokens >= self.llm_cfg.token_budget
    }

    /// The size that the conversation is cut down to: three bytes a token.
    pub open spec fn window(self) -> nat {
        if self.llm_cfg.context_length as usize * 3 <= usize::MAX {
            (self.llm_cfg.context_length as usize * 3) as nat
        } else {
            usize::MAX as nat
        }
    }

    /// Whether everything but the conversation is as in `other`.
    pub open spec fn same_but_messages(self, other: Agent) -> bool {
        &&& self.llm_cfg == other.llm_cfg
        &&& self.usage == other.usage
        &&& self.calls == other.calls
        &&& self.session_file == other.session_file
    }

    /// A new conversation, which holds the instructions only.
    pub fn new(llm_cfg: LlmConfig) -> (r: Agent)
        ensures
            r.llm_cfg == llm_cfg,
            r.conv() == seq![text_message("system"@, SYSTEM_PROMPT@)],
            r.usage == no_usage(),
            r.calls == 0,
            r.session_file is None,
            r.at_rest(),
    {
        let mut messages: Vec<Message> = Vec::new();
        messages.push(Message::system(SYSTEM_PROMPT));
        let r = Agent {
            llm_cfg,
            messages,
            usage: Usage { prompt_tokens: 0, completion_tokens: 0, total_tokens: 0 },
            calls: 0,
            session_file: None,
        };
        proof {
            assert(r.conv() =~= seq![text_message("system"@, SYSTEM_PROMPT@)]);
            lemma_push_text(Seq::empty(), text_message("system"@, SYSTEM_PROMPT@));
            assert(Seq::<MessageView>::empty().push(r.conv()[0]) =~= r.conv());
        }
        r
    }

    /// Replaces the settings of the service; conversation and counts stay.
    pub fn update_llm(&mut self, cfg: LlmConfig)
        ensures
            final(self).llm_cfg == cfg,
            final(self).messages == old(self).messages,
            final(self).usage == old(self).usage,
            final(self).calls == old(self).calls,
            final(self).session_file == old(self).session_file,
    {
        self.llm_cfg = cfg;
    }

    fn push(&mut self, m: Message)
        ensures
            final(self).conv() == old(self).conv().push(m@),
            final(self).same_but_messages(*old(self)),
    {
        proof {
            lemma_message_views_push(self.messages@, m);
        }
        self.messages.push(m);
    }

    /// Starts a turn with what the user says.
    pub fn start_turn(&mut self, input: &str) -> (turn: Turn)
        ensures
            final(self).conv() == old(self).conv().push(text_message("user"@, input@)),
            final(self).same_but_messages(*old(self)),
            turn.wf(),
            turn.limit == (if old(self).llm_cfg.max_tool_iterations == 0 {
                1
            } else {
                old(self).llm_cfg.max_tool_iterations
            }),
            turn.left == turn.limit,
            !turn.done,
            turn.waiting().len() == 0,
            old(self).at_rest() ==> final(self).follows(turn),
    {
        proof {
            lemma_push_text(self.conv(), text_message("user"@, input@));
        }
        self.push(Message::user(input));
        let limit: u32 = if self.llm_cfg.max_tool_iterations == 0 {
            1
        } else {
            self.llm_cfg.max_tool_iterations
        };
        let turn = Turn { limit, left: limit, pending: Vec::new(), next: 0, done: false };
        assert(turn.waiting() =~= Seq::<Seq<char>>::empty());
        turn
    }

    /// Refuses to go on once the token budget is used up.
    pub fn check_budget(&self) -> (r: Result<(), String>)
        ensures
            match r {
                Ok(_) => !self.budget_spent(),
                Err(e) => self.budget_spent() && e@ == budget_text(self.llm_cfg.token_budget),
            },
    {
        if self.llm_cfg.token_budget > 0 && self.usage.total_tokens >= self.llm_cfg.token_budget {
            let n = u64_to_string(self.llm_cfg.token_budget);
            return Err(
                "已达到 token 预算 (".to_string().concat(n.as_str()).concat(
                    "), 为避免超支本轮中止。可在 config.toml 调整 token_budget",
                ),
            );
        }
        Ok(())
    }

    /// Cuts the conversation down to the context window.
    pub fn trim_context(&mut self)
        ensures
            final(self).conv() == trimmed(old(self).conv(), old(self).window()),
            final(self).same_but_messages(*old(self)),
            old(self).at_rest() ==> final(self).at_rest() && (old(self).conv().len() > 0
                ==> final(self).conv().len() > 0),
    {
        let budget: usize = match (self.llm_cfg.context_length as usize).checked_mul(3) {
            Some(b) => b,
            None => usize::MAX,
        };
        let ghost start = *self;
        proof {
            if start.at_rest() {
                lemma_trim_keeps_pairs(start.conv(), start.window());
            }
        }
        loop
            invariant
                budget == start.window(),
                self.same_but_messages(start),
                trimmed(self.conv(), budget as nat) == trimmed(start.conv(), budget as nat),
            ensures
                self.same_but_messages(start),
                self.conv() == trimmed(start.conv(), budget as nat),
            decreases self.messages@.len(),
        {
            if !exceeds(&self.messages, budget) {
                break;
            }
            let i = first_user_of(&self.messages);
            if i == 0 || i >= self.messages.len() || self.messages.len() <= 4 {
                break;
            }
            let ghost before = self.messages@;
            let mut rest = self.messages.split_off(i + 1);
            self.messages.truncate(1);
            self.messages.append(&mut rest);
            proof {
                assert(self.messages@ =~= before.take(1) + before.skip(i + 1));
                assert(self.conv() =~= message_views(before).take(1) + message_views(before).skip(
                    i + 1,
                ));
            }
        }
    }

    /// Makes ready for a call of the model: refuses it where the turn has called it too often
    /// or the budget is used up, else cuts the conversation down to the context window.
    pub fn prepare_call(&mut self, turn: &mut Turn) -> (r: Result<(), String>)
        requires
            old(turn).wf(),
            !old(turn).done,
            old(turn).waiting().len() == 0,
        ensures
            final(turn).wf(),
            final(turn).limit == old(turn).limit,
            final(turn).waiting() == old(turn).waiting(),
            !final(turn).done,
            final(self).same_but_messages(*old(self)),
            match r {
                Ok(_) => {
                    &&& old(turn).left > 0
                    &&& !old(self).budget_spent()
                    &&& final(turn).left == old(turn).left - 1
                    &&& final(self).conv() == trimmed(old(self).conv(), old(self).window())
                },
                Err(e) => {
                    &&& final(self).conv() == old(self).conv()
                    &&& final(turn).left == old(turn).left
                    &&& if old(turn).left == 0 {
                        e@ == limit_text(old(turn).limit)
                    } else {
                        old(self).budget_spent() && e@ == budget_text(
                            old(self).llm_cfg.token_budget,
                        )
                    }
                },
            },
            old(self).follows(*old(turn)) ==> final(self).follows(*final(turn)),
    {
        assert(turn.waiting() =~= Seq::<Seq<char>>::empty());
        if turn.left == 0 {
            let n = u64_to_string(turn.limit as u64);
            return Err(
                "工具调用次数超过上限 ".to_string().concat(n.as_str()).concat(
                    " (可在 config.toml 的 [llm] max_tool_iterations 调整), 本轮中止",
                ),
            );
        }
        match self.check_budget() {
            Ok(_) => {},
            Err(e) => {
                return Err(e);
            },
        }
        self.trim_context();
        turn.left = turn.left - 1;
        Ok(())
    }

    fn accumulate(&mut self, usage: &Usage)
        requires
            old(self).can_count(*usage),
        ensures
            final(self).llm_cfg == old(self).llm_cfg,
            final(self).messages == old(self).messages,
            final(self).session_file == old(self).session_file,
            final(self).counted(*old(self), *usage),
    {
        self.usage.prompt_tokens = self.usage.prompt_tokens + usage.prompt_tokens;
        self.usage.completion_tokens = self.usage.completion_tokens + usage.completion_tokens;
        self.usage.total_tokens = self.usage.total_tokens + usage.total_tokens;
        self.calls = self.calls + 1;
    }

    /// Whether the counts have room for one more call with the given tokens.
    pub open spec fn can_count(self, u: Usage) -> bool {
        &&& self.usage.prompt_tokens + u.prompt_tokens <= u64::MAX
        &&& self.usage.completion_tokens + u.completion_tokens <= u64::MAX
        &&& self.usage.total_tokens + u.total_tokens <= u64::MAX
        &&& self.calls < u64::MAX
    }

    /// Whether the counts are those of `before` and one more call with the given tokens.
    pub open spec fn counted(self, before: Agent, u: Usage) -> bool {
        &&& self.usage.prompt_tokens == before.usage.prompt_tokens + u.prompt_tokens
        &&& self.usage.completion_tokens == before.usage.completion_tokens + u.completion_tokens
        &&& self.usage.total_tokens == before.usage.total_tokens + u.total_tokens
        &&& self.calls == before.calls + 1
    }

    /// Takes in a reply of the model. A reply that asks for tools leaves its calls to be
    /// answered; any other reply ends the turn. Returns what is to be shown.
    pub fn on_reply(&mut self, turn: &mut Turn, result: ChatResult) -> (events: Vec<AgentEvent>)
        requires
            old(turn).wf(),
            !old(turn).done,
            old(turn).waiting().len() == 0,
            old(self).can_count(result.usage),
        ensures
            final(self).llm_cfg == old(self).llm_cfg,
            final(self).session_file == old(self).session_file,
            final(self).counted(*old(self), result.usage),
            final(self).conv() == old(self).conv().push(result.message@),
            final(turn).wf(),
            final(turn).limit == old(turn).limit,
            final(turn).left == old(turn).left,
            final(turn).done == !asks_for_tools(result.message@),
            final(turn).waiting() == call_ids(calls_of(result.message@)),
            final(turn).takes_up(result.message@),
            event_views(events@) == reply_events(result.message@, result.usage),
            old(self).follows(*old(turn)) && is_reply(result.message@)
                ==> final(self).follows(*final(turn)),
    {
        assert(turn.waiting() =~= Seq::<Seq<char>>::empty());
        let ghost before = self.conv();
        self.accumulate(&result.usage);
        let mut events: Vec<AgentEvent> = Vec::new();
        events.push(
            AgentEvent::LlmUsage {
                prompt_tokens: result.usage.prompt_tokens,
                completion_tokens: result.usage.completion_tokens,
                total_tokens: result.usage.total_tokens,
            },
        );
        let msg = result.message;
        let calls = match &msg.tool_calls {
            Some(v) => clone_calls(v),
            None => Vec::new(),
        };
        assert(call_views(calls@) =~= calls_of(msg@));
        if calls.len() == 0 {
            let text = match &msg.content {
                Some(t) => t.clone(),
                None => String::new(),
            };
            events.push(AgentEvent::Reply { text });
            turn.done = true;
        }
        turn.pending = calls;
        turn.next = 0;
        proof {
            assert(turn.waiting() =~= call_ids(calls_of(msg@)));
            assert(before.push(msg@).drop_last() =~= before);
            if old(self).follows(*old(turn)) && is_reply(msg@) {
                lemma_sound_push(before, msg@);
            }
            assert(event_views(events@) =~= reply_events(msg@, result.usage));
        }
        self.push(msg);
        events
    }

    /// What is to be done next. Where the user has asked to stop and a tool would run next, the
    /// turn ends instead.
    pub fn next_step(&mut self, turn: &mut Turn, interrupted: bool) -> (r: (
        TurnStep,
        Vec<AgentEvent>,
    ))
        requires
            old(turn).wf(),
        ensures
            final(turn).wf(),
            final(turn).limit == old(turn).limit,
            final(turn).left == old(turn).left,
            final(self).same_but_messages(*old(self)),
            if old(turn).done {
                &&& r.0 is Finished
                &&& r.1@.len() == 0
                &&& *final(turn) == *old(turn)
                &&& final(self).conv() == old(self).conv()
            } else if old(turn).waiting().len() == 0 {
                &&& r.0 is CallModel
                &&& r.1@.len() == 0
                &&& *final(turn) == *old(turn)
                &&& final(self).conv() == old(self).conv()
            } else if interrupted {
                &&& r.0 is Finished
                &&& event_views(r.1@) == seq![abort_event()]
                &&& final(turn).done
                &&& final(self).conv() == old(self).conv() + abort_messages(old(turn).waiting())
            } else {
                let c = old(turn).call_to_run()->0;
                &&& old(turn).call_to_run() is Some
                &&& r.0 matches TurnStep::RunTool { name, args } && name@ == c.name && args@
                    == c.arguments
                &&& event_views(r.1@) == seq![
                    EventView::ToolCall { name: c.name, args: c.arguments },
                ]
                &&& *final(turn) == *old(turn)
                &&& final(self).conv() == old(self).conv()
            },
            old(self).follows(*old(turn)) ==> final(self).follows(*final(turn)),
    {
        let mut events: Vec<AgentEvent> = Vec::new();
        if turn.done {
            return (TurnStep::Finished, events);
        }
        if turn.next == turn.pending.len() {
            return (TurnStep::CallModel, events);
        }
        if interrupted {
            let events = self.abort_turn(turn);
            return (TurnStep::Finished, events);
        }
        let name = turn.pending[turn.next].function.name.clone();
        let args = turn.pending[turn.next].function.arguments.clone();
        events.push(AgentEvent::ToolCall { name: name.clone(), args: args.clone() });
        assert(event_views(events@) =~= seq![
            EventView::ToolCall {
                name: turn.pending@[turn.next as int]@.name,
                args: turn.pending@[turn.next as int]@.arguments,
            },
        ]);
        (TurnStep::RunTool { name, args }, events)
    }

    /// Takes in the outcome of the tool that was to be run. An interrupted tool ends the turn.
    pub fn on_tool(&mut self, turn: &mut Turn, outcome: Result<String, String>) -> (events: Vec<
        AgentEvent,
    >)
        requires
            old(turn).wf(),
            old(turn).waiting().len() > 0,
        ensures
            final(turn).wf(),
            final(turn).limit == old(turn).limit,
            final(turn).left == old(turn).left,
            final(self).same_but_messages(*old(self)),
            ({
                let c = old(turn).call_to_run()->0;
                let o = outcome_view(outcome);
                let answered = old(self).conv().push(tool_message(c.id, answer_text(o)));
                let shown = EventView::ToolResult { name: c.name, ok: o is Ok };
                if was_interrupted(o) {
                    &&& final(turn).done
                    &&& final(self).conv() == answered + abort_messages(
                        old(turn).waiting().drop_first(),
                    )
                    &&& event_views(events@) == seq![shown, abort_event()]
                } else {
                    &&& !final(turn).done
                    &&& final(turn).waiting() == old(turn).waiting().drop_first()
                    &&& final(turn).goes_on_from(*old(turn))
                    &&& final(self).conv() == answered
                    &&& event_views(events@) == seq![shown]
                }
            }),
            outcome matches Err(e) ==> reads_as(
                answer_text(outcome_view(outcome)),
                object(seq![("error"@, JsonView::Str(e@))]),
            ),
            old(self).follows(*old(turn)) ==> final(self).follows(*final(turn)),
    {
        let ghost before = self.conv();
        let ghost waiting = turn.waiting();
        let ghost c = turn.pending@[turn.next as int]@;
        assert(waiting[0] == c.id);
        let id = turn.pending[turn.next].id.clone();
        let name = turn.pending[turn.next].function.name.clone();
        let (text, ok, stop): (String, bool, bool) = match &outcome {
            Ok(t) => (t.clone(), true, false),
            Err(e) => {
                let o = Obj::new().with_str("error", e.as_str());
                proof {
                    reveal_with_fuel(crate::json::object_map, 2);
                    assert(o.map() =~= object(seq![("error"@, JsonView::Str(e@))])->Object_0);
                    lemma_plain_object(seq![("error"@, JsonView::Str(e@))], 99);
                }
                (render_json(&o.json()), false, contains(e.as_str(), TOOL_INTERRUPTED))
            },
        };
        let mut events: Vec<AgentEvent> = Vec::new();
        events.push(AgentEvent::ToolResult { name, ok });
        self.push(Message::tool(id.as_str(), text));
        assert(turn.next < turn.pending.len());
        turn.next = turn.next + 1;
        proof {
            assert(before.push(self.conv().last()).drop_last() =~= before);
            assert(turn.waiting() =~= waiting.drop_first());
            lemma_roles_differ();
            if old(self).follows(*old(turn)) {
                lemma_sound_push(before, self.conv().last());
            }
        }
        if stop {
            let mut more = self.abort_turn(turn);
            assert(event_views(more@) == seq![abort_event()]);
            assert(more@.len() == event_views(more@).len());
            assert(event_views(more@)[0] == more@[0]@);
            events.append(&mut more);
            assert(event_views(events@) =~= seq![
                EventView::ToolResult { name: c.name, ok },
                abort_event(),
            ]);
        } else {
            assert(event_views(events@) =~= seq![EventView::ToolResult { name: c.name, ok }]);
        }
        events
    }

    /// Ends the turn at the wish of the user. Tool calls that were not run get an answer that
    /// says so, so that the conversation stays well formed.
    pub fn abort_turn(&mut self, turn: &mut Turn) -> (events: Vec<AgentEvent>)
        requires
            old(turn).wf(),
        ensures
            final(turn).wf(),
            final(turn).limit == old(turn).limit,
            final(turn).left == old(turn).left,
            final(turn).done,
            final(turn).waiting().len() == 0,
            final(self).same_but_messages(*old(self)),
            final(self).conv() == old(self).conv() + abort_messages(old(turn).waiting()),
            event_views(events@) == seq![abort_event()],
            old(self).follows(*old(turn)) ==> final(self).follows(*final(turn)),
    {
        let ghost start = *self;
        let ghost first = turn.next;
        let ghost ids = call_ids(call_views(turn.pending@));
        let ghost waiting = turn.waiting();
        proof {
            lemma_answers(start.conv(), waiting);
            assert(start.conv() + Seq::<MessageView>::empty() =~= start.conv());
            assert(placeholders(waiting.take(0)) =~= Seq::<MessageView>::empty());
        }
        while turn.next < turn.pending.len()
            invariant
                first <= turn.next <= turn.pending@.len(),
                turn.limit == old(turn).limit,
                turn.left == old(turn).left,
                turn.left <= turn.limit,
                ids == call_ids(call_views(turn.pending@)),
                waiting == ids.skip(first as int),
                self.same_but_messages(start),
                self.conv() == start.conv() + placeholders(waiting.take(turn.next - first)),
                start.conv().len() > 0 && is_sound(start.conv()) ==> is_sound(self.conv()),
            decreases turn.pending@.len() - turn.next,
        {
            let ghost k = turn.next - first;
            let ghost so_far = self.conv();
            self.push(
                Message::tool(turn.pending[turn.next].id.as_str(), "（用户已打断）".to_string()),
            );
            turn.next = turn.next + 1;
            proof {
                assert(waiting[k] == ids[first + k]);
                assert(placeholders(waiting.take(k + 1)) =~= placeholders(waiting.take(k)).push(
                    tool_message(waiting[k], "（用户已打断）"@),
                ));
                assert(self.conv() =~= start.conv() + placeholders(waiting.take(k + 1)));
                lemma_roles_differ();
                if start.conv().len() > 0 && is_sound(start.conv()) {
                    lemma_sound_push(so_far, self.conv().last());
                }
            }
        }
        proof {
            assert(waiting.take(waiting.len() as int) =~= waiting);
            lemma_push_text(self.conv(), text_message("assistant"@, "（已打断当前任务）"@));
            if start.conv().len() > 0 && is_sound(start.conv()) {
                lemma_sound_push(self.conv(), text_message("assistant"@, "（已打断当前任务）"@));
            }
        }
        self.push(Message::assistant("（已打断当前任务）"));
        turn.done = true;
        let mut events: Vec<AgentEvent> = Vec::new();
        events.push(AgentEvent::Reply { text: "⏸ 已打断当前任务".to_string() });
        proof {
            assert(turn.waiting() =~= Seq::<Seq<char>>::empty());
            assert(self.conv() =~= start.conv() + abort_messages(waiting));
            assert(event_views(events@) =~= seq![abort_event()]);
        }
        events
    }

    /// A line on the calls so far, with the cost as a decimal text.
    pub fn usage_summary(&self, cost: &str) -> (r: String)
        ensures
            r@ == "调用 "@ + dec(self.calls as nat) + " 次 | 输入 "@ + dec(
                self.usage.prompt_tokens as nat,
            ) + " tok | 输出 "@ + dec(self.usage.completion_tokens as nat) + " tok | 合计 "@ + dec(
                self.usage.total_tokens as nat,
            ) + " tok | 费用 $"@ + cost@ + " (预算 "@ + (if self.llm_cfg.token_budget == 0 {
                "不限"@
            } else {
                dec(self.llm_cfg.token_budget as nat)
            }) + " tok)"@,
    {
        let budget = if self.llm_cfg.token_budget == 0 {
            "不限".to_string()
        } else {
            u64_to_string(self.llm_cfg.token_budget)
        };
        "调用 ".to_string().concat(u64_to_string(self.calls).as_str()).concat(
            " 次 | 输入 ",
        ).concat(u64_to_string(self.usage.prompt_tokens).as_str()).concat(" tok | 输出 ").concat(
            u64_to_string(self.usage.completion_tokens).as_str(),
        ).concat(" tok | 合计 ").concat(u64_to_string(self.usage.total_tokens).as_str()).concat(
            " tok | 费用 $",
        ).concat(cost).concat(" (预算 ").concat(budget.as_str()).concat(" tok)")
    }
}

/// Each call of a reply is run under its own name and with its own arguments, in the order of the
/// reply: where `turns` are the states of a turn after the reply `m` and after each answer that
/// followed, the call to be run next in the state at `i` is the call at `i`, and none once all of
/// them have been answered.
pub proof fn lemma_calls_are_run_as_asked(m: MessageView, turns: Seq<Turn>, i: int)
    requires
        0 <= i < turns.len(),
        turns[0].takes_up(m),
        forall|k: int| 0 < k < turns.len() ==> (#[trigger] turns[k]).goes_on_from(turns[k - 1]),
    ensures
        turns[i].call_to_run() == (if i < calls_of(m).len() {
            Some(calls_of(m)[i])
        } else {
            None
        }),
        call_views(turns[i].pending@) == calls_of(m),
        turns[i].next == i,
    decreases i,
{
    if i > 0 {
        lemma_calls_are_run_as_asked(m, turns, i - 1);
    }
    assert(call_views(turns[i].pending@).len() == turns[i].pending@.len());
    if i < calls_of(m).len() {
        assert(call_views(turns[i].pending@)[i] == turns[i].pending@[i]@);
    }
}

/// Whether a message can come from the model: it is not one of the user and answers no call.
pub open spec fn is_reply(m: MessageView) -> bool {
    m.role != "user"@ && m.tool_call_id is None
}

/// What is shown of a reply: its token counts, and its text where it ends the turn.
pub open spec fn reply_events(m: MessageView, u: Usage) -> Seq<EventView> {
    let counts = EventView::LlmUsage {
        prompt_tokens: u.prompt_tokens,
        completion_tokens: u.completion_tokens,
        total_tokens: u.total_tokens,
    };
    if asks_for_tools(m) {
        seq![counts]
    } else {
        seq![
            counts,
            EventView::Reply {
                text: match m.content {
                    Some(t) => t,
                    None => Seq::empty(),
                },
            },
        ]
    }
}

proof fn lemma_args_prefix(calls: Seq<ToolCallView>, i: int)
    requires
        0 <= i <= calls.len(),
    ensures
        args_len(calls.take(i)) <= args_len(calls),
    decreases calls.len() - i,
{
    if i == calls.len() {
        assert(calls.take(i) =~= calls);
    } else {
        lemma_args_prefix(calls, i + 1);
        assert(calls.take(i + 1).drop_last() =~= calls.take(i));
    }
}

proof fn lemma_estimated_prefix(s: Seq<MessageView>, i: int)
    requires
        0 <= i <= s.len(),
    ensures
        estimated(s.take(i)) <= estimated(s),
    decreases s.len() - i,
{
    if i == s.len() {
        assert(s.take(i) =~= s);
    } else {
        lemma_estimated_prefix(s, i + 1);
        assert(s.take(i + 1).drop_last() =~= s.take(i));
    }
}

/// Whether the estimated size of the messages is over the budget.
fn exceeds(messages: &Vec<Message>, budget: usize) -> (r: bool)
    ensures
        r == (estimated(message_views(messages@)) > budget),
{
    let ghost all = message_views(messages@);
    let mut total: u128 = 0;
    assert(all.take(0) =~= Seq::<MessageView>::empty());
    for i in 0..messages.len()
        invariant
            all == message_views(messages@),
            total == estimated(all.take(i as int)),
            total <= budget,
    {
        assert(all.take(i + 1).drop_last() =~= all.take(i as int));
        proof {
            lemma_estimated_prefix(all, i + 1);
        }
        let ghost m = all[i as int];
        let m_exec = &messages[i];
        let ghost before = total;
        total = total + 24;
        match &m_exec.content {
            Some(t) => {
                total = total + byte_len_of(t.as_str()) as u128;
            },
            None => {},
        }
        let ghost with_text = total;
        if total > budget as u128 {
            return true;
        }
        match &m_exec.tool_calls {
            Some(calls) => {
                let ghost cv = call_views(calls@);
                assert(cv.take(0) =~= Seq::<ToolCallView>::empty());
                for j in 0..calls.len()
                    invariant
                        cv == call_views(calls@),
                        cv == calls_of(m),
                        total == with_text + args_len(cv.take(j as int)),
                        total <= budget,
                        with_text + args_len(calls_of(m)) == before + message_size(m),
                        before + message_size(m) <= estimated(all),
                        all == message_views(messages@),
                {
                    assert(cv.take(j + 1).drop_last() =~= cv.take(j as int));
                    total = total + byte_len_of(calls[j].function.arguments.as_str()) as u128;
                    if total > budget as u128 {
                        proof {
                            lemma_args_prefix(cv, j + 1);
                        }
                        return true;
                    }
                }
                assert(cv.take(calls@.len() as int) =~= cv);
            },
            None => {},
        }
    }
    assert(all.take(messages@.len() as int) =~= all);
    false
}

/// What is shown while the model is silent: nothing during the first three seconds.
pub open spec fn model_silence(elapsed_ms: u64) -> Option<EventView> {
    if elapsed_ms > 3000 {
        Some(
            EventView::Progress {
                text: "模型思考中… ("@ + dec((elapsed_ms / 1000) as nat) + "s)"@,
                current: None,
                total: None,
            },
        )
    } else {
        None
    }
}

/// What is shown while a tool is silent: nothing before it has run for three seconds and has
/// reported nothing for as long.
pub open spec fn tool_silence(name: Seq<char>, elapsed_ms: u64, silent_ms: i64) -> Option<
    EventView,
> {
    if elapsed_ms > 3000 && silent_ms > 3000 {
        Some(
            EventView::Progress {
                text: name + " 仍在执行… ("@ + dec((elapsed_ms / 1000) as nat) + "s)"@,
                current: None,
                total: None,
            },
        )
    } else {
        None
    }
}

/// The view of an optional event.
pub open spec fn opt_event(e: Option<AgentEvent>) -> Option<EventView> {
    match e {
        Some(x) => Some(x@),
        None => None,
    }
}

/// Says how long the model has been silent.
pub fn model_watchdog(elapsed_ms: u64) -> (r: Option<AgentEvent>)
    ensures
        opt_event(r) == model_silence(elapsed_ms),
{
    if elapsed_ms > 3000 {
        let secs = u64_to_string(elapsed_ms / 1000);
        Some(
            AgentEvent::Progress {
                text: "模型思考中… (".to_string().concat(secs.as_str()).concat("s)"),
                current: None,
                total: None,
            },
        )
    } else {
        None
    }
}

/// Says how long a tool has been running without a report.
pub fn tool_watchdog(name: &str, elapsed_ms: u64, silent_ms: i64) -> (r: Option<AgentEvent>)
    ensures
        opt_event(r) == tool_silence(name@, elapsed_ms, silent_ms),
{
    if elapsed_ms > 3000 && silent_ms > 3000 {
        let secs = u64_to_string(elapsed_ms / 1000);
        Some(
            AgentEvent::Progress {
                text: name.to_string().concat(" 仍在执行… (").concat(secs.as_str()).concat("s)"),
                current: None,
                total: None,
            },
        )
    } else {
        None
    }
}

/// The longest beginning of `s` that takes at most `max` bytes.
pub open spec fn is_cut(r: Seq<char>, s: Seq<char>, max: nat) -> bool {
    &&& r.len() <= s.len()
    &&& r == s.take(r.len() as int)
    &&& byte_len(r) <= max
    &&& r.len() < s.len() ==> byte_len(s.take(r.len() as int + 1)) > max
}

/// Cuts a text to at most `max` bytes, between characters.
pub fn truncate(s: &str, max: usize) -> (r: String)
    ensures
        is_cut(r@, s@, max as nat),
{
    let v = chars_of(s);
    let mut n: usize = 0;
    let mut size: u128 = 0;
    assert(v@.take(0) =~= Seq::<char>::empty());
    while n < v.len() && size + char_width(v[n]) as u128 <= max as u128
        invariant
            n <= v@.len(),
            size == byte_len(v@.take(n as int)),
            size <= max,
        decreases v@.len() - n,
    {
        proof {
            lemma_byte_len_push(v@.take(n as int), v@[n as int]);
            assert(v@.take(n + 1) =~= v@.take(n as int).push(v@[n as int]));
        }
        size = size + char_width(v[n]) as u128;
        n += 1;
    }
    proof {
        if n < v@.len() {
            lemma_byte_len_push(v@.take(n as int), v@[n as int]);
            assert(v@.take(n + 1) =~= v@.take(n as int).push(v@[n as int]));
        }
        assert(v@.subrange(0, n as int) =~= v@.take(n as int));
    }
    string_of(&v, 0, n)
}

/// The position of the first message of the user.
fn first_user_of(messages: &Vec<Message>) -> (r: usize)
    ensures
        r == first_user(message_views(messages@)),
{
    let ghost all = message_views(messages@);
    for i in 0..messages.len()
        invariant
            all == message_views(messages@),
            forall|j: int| 0 <= j < i ==> (#[trigger] all[j]).role != "user"@,
    {
        assert(all[i as int].role == messages@[i as int].role@);
        if str_eq(messages[i].role.as_str(), "user") {
            proof {
                lemma_first_user_at(all, i as int);
            }
            return i;
        }
    }
    proof {
        lemma_first_user_at(all, messages@.len() as int);
    }
    messages.len()
}

pub(crate) proof fn lemma_first_user_at(s: Seq<MessageView>, i: int)
    requires
        0 <= i <= s.len(),
        forall|j: int| 0 <= j < i ==> (#[trigger] s[j]).role != "user"@,
        i < s.len() ==> s[i].role == "user"@,
    ensures
        first_user(s) == i,
    decreases i,
{
    if i > 0 {
        assert(s[0].role != "user"@);
        assert forall|j: int| 0 <= j < i - 1 implies (#[trigger] s.drop_first()[j]).role
            != "user"@ by {
            assert(s.drop_first()[j] == s[j + 1]);
        }
        lemma_first_user_at(s.drop_first(), i - 1);
    }
}

// ---------------------------------------------------------------------------
// Laws of conversations
// ---------------------------------------------------------------------------

/// A message without tool calls may follow a conversation in which nothing waits.
pub proof fn lemma_push_text(s: Seq<MessageView>, m: MessageView)
    requires
        m.tool_call_id is None,
        calls_of(m).len() == 0,
    ensures
        is_paired(s) ==> is_paired(s.push(m)),
{
    assert(s.push(m).drop_last() =~= s);
    if is_paired(s) {
        assert(call_ids(calls_of(m)) =~= Seq::<Seq<char>>::empty());
    }
}

/// Answering the calls that wait, in order, leaves none waiting.
pub proof fn lemma_answers(s: Seq<MessageView>, ids: Seq<Seq<char>>)
    ensures
        pending_after(s) == Some(ids) ==> is_paired(s + placeholders(ids)),
{
    if pending_after(s) == Some(ids) {
        lemma_answers_from(s, ids, ids.len());
        assert(ids.take(ids.len() as int) =~= ids);
        assert(ids.skip(ids.len() as int) =~= Seq::<Seq<char>>::empty());
    }
}

proof fn lemma_answers_from(s: Seq<MessageView>, ids: Seq<Seq<char>>, n: nat)
    requires
        pending_after(s) == Some(ids),
        n <= ids.len(),
    ensures
        pending_after(s + placeholders(ids.take(n as int))) == Some(ids.skip(n as int)),
    decreases n,
{
    if n == 0 {
        assert(s + placeholders(ids.take(0)) =~= s);
        assert(ids.skip(0) =~= ids);
    } else {
        let k = (n - 1) as nat;
        lemma_answers_from(s, ids, k);
        let t = s + placeholders(ids.take(n as int));
        assert(t.drop_last() =~= s + placeholders(ids.take(k as int)));
        assert(t.last() == tool_message(ids[k as int], "（用户已打断）"@));
        assert(ids.skip(k as int)[0] == ids[k as int]);
        assert(ids.skip(k as int).drop_first() =~= ids.skip(n as int));
    }
}

proof fn lemma_prefix_is_conversation(s: Seq<MessageView>, i: int)
    requires
        0 <= i <= s.len(),
        pending_after(s) is Some,
    ensures
        pending_after(s.take(i)) is Some,
    decreases s.len() - i,
{
    if i == s.len() {
        assert(s.take(i) =~= s);
    } else {
        lemma_prefix_is_conversation(s, i + 1);
        assert(s.take(i + 1).drop_last() =~= s.take(i));
    }
}

/// Where nothing waits after the first `i` messages, the rest stands on its own.
proof fn lemma_suffix_stands_alone(s: Seq<MessageView>, front: Seq<MessageView>, i: int)
    requires
        0 <= i <= s.len(),
        is_paired(s.take(i)),
        is_paired(front),
    ensures
        pending_after(front + s.skip(i)) == pending_after(s),
    decreases s.len() - i,
{
    if s.len() == i {
        assert(s.take(i) =~= s);
        assert(front + s.skip(i) =~= front);
    } else {
        let t = s.drop_last();
        assert(t.take(i) =~= s.take(i));
        lemma_suffix_stands_alone(t, front, i);
        assert((front + s.skip(i)).drop_last() =~= front + t.skip(i));
    }
}

proof fn lemma_first_user(s: Seq<MessageView>)
    ensures
        0 <= first_user(s) <= s.len(),
        first_user(s) < s.len() ==> s[first_user(s)].role == "user"@,
    decreases s.len(),
{
    if s.len() > 0 && s[0].role != "user"@ {
        lemma_first_user(s.drop_first());
        let k = first_user(s.drop_first());
        if k < s.drop_first().len() {
            assert(s.drop_first()[k] == s[k + 1]);
        }
    }
}

proof fn lemma_roles_differ()
    ensures
        "tool"@ != "user"@,
{
    reveal_strlit("tool");
    reveal_strlit("user");
    assert("tool"@[0] != "user"@[0]);
}

proof fn lemma_sound_push(s: Seq<MessageView>, m: MessageView)
    requires
        is_sound(s),
        m.role == "user"@ || s.len() == 0 ==> is_plain_text(m),
    ensures
        is_sound(s.push(m)),
{
    let t = s.push(m);
    assert forall|i: int| 0 <= i < t.len() && ((#[trigger] t[i]).role == "user"@ || i == 0) implies
        is_plain_text(t[i]) by {
        if i < s.len() {
            assert(t[i] == s[i]);
        }
    }
}

/// However a turn ends, by a reply or by an interruption, the conversation is well formed and
/// the next turn can follow.
pub proof fn lemma_finished_turn_is_at_rest(agent: Agent, turn: Turn)
    requires
        agent.follows(turn),
        turn.wf(),
        turn.done,
    ensures
        agent.at_rest(),
{
    assert(turn.waiting() =~= Seq::<Seq<char>>::empty());
}

/// Cutting a conversation down keeps its first message and a run of its last ones.
pub proof fn lemma_trim_keeps_a_suffix(s: Seq<MessageView>, budget: nat) -> (k: int)
    ensures
        trimmed(s, budget) == s || (1 <= k <= s.len() && trimmed(s, budget) == s.take(1) + s.skip(
            k,
        )),
    decreases s.len(),
{
    let i = first_user(s);
    if estimated(s) > budget && 0 < i < s.len() && s.len() > 4 {
        let t = s.take(1) + s.skip(i + 1);
        let k = lemma_trim_keeps_a_suffix(t, budget);
        if trimmed(t, budget) == t {
            i + 1
        } else {
            assert(t.take(1) =~= s.take(1));
            assert(t.skip(k) =~= s.skip(i + k));
            i + k
        }
    } else {
        0
    }
}

/// A conversation that is cut down fits the window, or cannot be cut further: it has at most
/// four messages, starts with the user, or holds no message of the user.
pub proof fn lemma_trim_goes_far_enough(s: Seq<MessageView>, budget: nat)
    ensures
        ({
            let t = trimmed(s, budget);
            estimated(t) <= budget || t.len() <= 4 || first_user(t) == 0 || first_user(t)
                >= t.len()
        }),
    decreases s.len(),
{
    let i = first_user(s);
    lemma_first_user(s);
    if estimated(s) > budget && 0 < i < s.len() && s.len() > 4 {
        lemma_trim_goes_far_enough(s.take(1) + s.skip(i + 1), budget);
    }
}

/// A conversation that fits the window is left as it is.
pub proof fn lemma_trim_leaves_what_fits(s: Seq<MessageView>, budget: nat)
    requires
        estimated(s) <= budget,
    ensures
        trimmed(s, budget) == s,
{
}

/// Cutting a conversation down keeps every tool call together with its answer.
pub proof fn lemma_trim_keeps_pairs(s: Seq<MessageView>, budget: nat)
    requires
        is_paired(s),
        is_sound(s),
    ensures
        is_paired(trimmed(s, budget)),
        is_sound(trimmed(s, budget)),
        s.len() > 0 ==> trimmed(s, budget).len() > 0,
    decreases s.len(),
{
    let i = first_user(s);
    if estimated(s) > budget && 0 < i < s.len() && s.len() > 4 {
        lemma_first_user(s);
        let front = s.take(1);
        let t = front + s.skip(i + 1);
        // Nothing waits after the first message.
        assert(front.drop_last() =~= Seq::<MessageView>::empty());
        assert(pending_after(front.drop_last()) == Some(Seq::<Seq<char>>::empty()));
        assert(is_plain_text(s[0]));
        assert(call_ids(calls_of(s[0])) =~= Seq::<Seq<char>>::empty());
        assert(is_paired(front));
        // Nothing waits after the message of the user.
        assert(is_plain_text(s[i]));
        lemma_prefix_is_conversation(s, i + 1);
        assert(s.take(i + 1).drop_last() =~= s.take(i));
        assert(s.take(i + 1).last() == s[i]);
        assert(call_ids(calls_of(s[i])) =~= Seq::<Seq<char>>::empty());
        assert(is_paired(s.take(i + 1)));
        lemma_suffix_stands_alone(s, front, i + 1);
        assert forall|j: int| 0 <= j < t.len() && ((#[trigger] t[j]).role == "user"@ || j == 0)
            implies is_plain_text(t[j]) by {
            if j > 0 {
                assert(t[j] == s[j + i]);
            }
        }
        lemma_trim_keeps_pairs(t, budget);
    }
}

} // verus!

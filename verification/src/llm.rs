//! The chat protocol: messages, requests, and the replies of a streaming server.

use vstd::prelude::*;
use vstd::string::StringExecFns;

#[allow(unused_imports)]
use crate::json::{
    json_compact, json_parsed, lemma_trees_push, object, opt_view, trees, JsonView,
};
use crate::json::{parse_json, render_json, Json, Obj};
use crate::text::{
    chars_of, eq_ignore_ascii_case, from_utf8_lossy, split, split_once, str_eq, string_of,
    strip_prefix, trim, trim_end_matches,
};
#[allow(unused_imports)]
use crate::text::{
    ascii_lower, extend_last, join_spec, lemma_views_push, split_once_spec, split_spec,
    starts_with_spec, trim_end_char, trim_spec, utf8_lossy, views,
};

verus! {

// ---------------------------------------------------------------------------
// Messages
// ---------------------------------------------------------------------------

/// The function that a tool call names, with its arguments as JSON text.
#[derive(Debug)]
pub struct FunctionCall {
    pub name: String,
    pub arguments: String,
}

/// A request of the model to run a tool.
#[derive(Debug)]
pub struct ToolCall {
    pub id: String,
    pub call_type: String,
    pub function: FunctionCall,
}

/// A message of a conversation.
#[derive(Debug)]
pub struct Message {
    pub role: String,
    pub content: Option<String>,
    pub tool_calls: Option<Vec<ToolCall>>,
    pub tool_call_id: Option<String>,
}

/// The mathematical value of a [`ToolCall`].
#[verifier::ext_equal]
pub struct ToolCallView {
    pub id: Seq<char>,
    pub call_type: Seq<char>,
    pub name: Seq<char>,
    pub arguments: Seq<char>,
}

/// The mathematical value of a [`Message`].
#[verifier::ext_equal]
pub struct MessageView {
    pub role: Seq<char>,
    pub content: Option<Seq<char>>,
    pub tool_calls: Option<Seq<ToolCallView>>,
    pub tool_call_id: Option<Seq<char>>,
}

impl View for ToolCall {
    type V = ToolCallView;

    open spec fn view(&self) -> ToolCallView {
        ToolCallView {
            id: self.id@,
            call_type: self.call_type@,
            name: self.function.name@,
            arguments: self.function.arguments@,
        }
    }
}

/// The views of a list of tool calls.
pub open spec fn call_views(s: Seq<ToolCall>) -> Seq<ToolCallView> {
    s.map_values(|c: ToolCall| c@)
}

impl View for Message {
    type V = MessageView;

    open spec fn view(&self) -> MessageView {
        MessageView {
            role: self.role@,
            content: opt_view(self.content),
            tool_calls: match self.tool_calls {
                Some(v) => Some(call_views(v@)),
                None => None,
            },
            tool_call_id: opt_view(self.tool_call_id),
        }
    }
}

/// The views of a list of messages.
pub open spec fn message_views(s: Seq<Message>) -> Seq<MessageView> {
    s.map_values(|m: Message| m@)
}

/// Appending a message appends its view.
pub proof fn lemma_message_views_push(s: Seq<Message>, m: Message)
    ensures
        message_views(s.push(m)) == message_views(s).push(m@),
{
    assert(message_views(s.push(m)) =~= message_views(s).push(m@));
}

/// A copy of an optional string.
pub fn clone_opt(o: &Option<String>) -> (r: Option<String>)
    ensures
        opt_view(r) == opt_view(*o),
{
    match o {
        Some(s) => Some(s.clone()),
        None => None,
    }
}

impl Clone for ToolCall {
    fn clone(&self) -> (r: ToolCall)
        ensures
            r@ == self@,
    {
        ToolCall {
            id: self.id.clone(),
            call_type: self.call_type.clone(),
            function: FunctionCall {
                name: self.function.name.clone(),
                arguments: self.function.arguments.clone(),
            },
        }
    }
}

/// A copy of a list of tool calls.
pub fn clone_calls(v: &Vec<ToolCall>) -> (r: Vec<ToolCall>)
    ensures
        call_views(r@) == call_views(v@),
{
    let mut r: Vec<ToolCall> = Vec::new();
    for i in 0..v.len()
        invariant
            call_views(r@) == call_views(v@).take(i as int),
            r@.len() == i,
    {
        r.push(v[i].clone());
        assert(call_views(r@) =~= call_views(v@).take(i + 1));
    }
    assert(call_views(v@).take(v@.len() as int) =~= call_views(v@));
    r
}

impl Clone for Message {
    fn clone(&self) -> (r: Message)
        ensures
            r@ == self@,
    {
        Message {
            role: self.role.clone(),
            content: clone_opt(&self.content),
            tool_calls: match &self.tool_calls {
                Some(v) => Some(clone_calls(v)),
                None => None,
            },
            tool_call_id: clone_opt(&self.tool_call_id),
        }
    }
}

/// A message that holds a text only.
pub open spec fn text_message(role: Seq<char>, content: Seq<char>) -> MessageView {
    MessageView { role, content: Some(content), tool_calls: None, tool_call_id: None }
}

/// The answer to a tool call.
pub open spec fn tool_message(call_id: Seq<char>, content: Seq<char>) -> MessageView {
    MessageView {
        role: "tool"@,
        content: Some(content),
        tool_calls: None,
        tool_call_id: Some(call_id),
    }
}

impl Message {
    /// The instructions that a conversation starts with.
    pub fn system(content: &str) -> (r: Message)
        ensures
            r@ == text_message("system"@, content@),
    {
        Message {
            role: "system".to_string(),
            content: Some(content.to_string()),
            tool_calls: None,
            tool_call_id: None,
        }
    }

    /// What the user says.
    pub fn user(content: &str) -> (r: Message)
        ensures
            r@ == text_message("user"@, content@),
    {
        Message {
            role: "user".to_string(),
            content: Some(content.to_string()),
            tool_calls: None,
            tool_call_id: None,
        }
    }

    /// What the model says.
    pub fn assistant(content: &str) -> (r: Message)
        ensures
            r@ == text_message("assistant"@, content@),
    {
        Message {
            role: "assistant".to_string(),
            content: Some(content.to_string()),
            tool_calls: None,
            tool_call_id: None,
        }
    }

    /// The result of the tool call `call_id`.
    pub fn tool(call_id: &str, content: String) -> (r: Message)
        ensures
            r@ == tool_message(call_id@, content@),
    {
        Message {
            role: "tool".to_string(),
            content: Some(content),
            tool_calls: None,
            tool_call_id: Some(call_id.to_string()),
        }
    }
}

/// Token counts of one or more calls of the model.
#[derive(Clone, Copy, Debug, PartialEq, Eq, Structural)]
pub struct Usage {
    pub prompt_tokens: u64,
    pub completion_tokens: u64,
    pub total_tokens: u64,
}

/// No tokens at all.
pub open spec fn no_usage() -> Usage {
    Usage { prompt_tokens: 0, completion_tokens: 0, total_tokens: 0 }
}

impl Default for Usage {
    fn default() -> (r: Usage)
        ensures
            r == no_usage(),
    {
        Usage { prompt_tokens: 0, completion_tokens: 0, total_tokens: 0 }
    }
}

/// A complete reply of the model.
pub struct ChatResult {
    pub message: Message,
    pub usage: Usage,
}

// ---------------------------------------------------------------------------
// Extra request fields
// ---------------------------------------------------------------------------

/// Where the scan of a `thinking` setting stands: how many brackets are open, whether it is
/// inside quotes, and whether the next character is escaped.
pub struct Scan {
    pub depth: nat,
    pub in_str: bool,
    pub esc: bool,
}

/// The state after the characters of `s`.
pub open spec fn scan(s: Seq<char>) -> Scan
    decreases s.len(),
{
    if s.len() == 0 {
        Scan { depth: 0, in_str: false, esc: false }
    } else {
        let st = scan(s.drop_last());
        let c = s.last();
        if st.esc {
            Scan { esc: false, ..st }
        } else if c == '\\' && st.in_str {
            Scan { esc: true, ..st }
        } else if c == '"' {
            Scan { in_str: !st.in_str, ..st }
        } else if (c == '{' || c == '[') && !st.in_str {
            Scan { depth: st.depth + 1, ..st }
        } else if (c == '}' || c == ']') && !st.in_str {
            Scan { depth: if st.depth > 0 { (st.depth - 1) as nat } else { 0 }, ..st }
        } else {
            st
        }
    }
}

/// Whether a comma after `s` separates two entries: it is neither quoted nor in brackets.
pub open spec fn at_top_level(s: Seq<char>) -> bool {
    let st = scan(s);
    !st.esc && !st.in_str && st.depth == 0
}

/// The entries of a `thinking` setting: its pieces between the commas at top level.
pub open spec fn thinking_entries(s: Seq<char>) -> Seq<Seq<char>>
    decreases s.len(),
{
    if s.len() == 0 {
        seq![Seq::<char>::empty()]
    } else if s.last() == ',' && at_top_level(s.drop_last()) {
        thinking_entries(s.drop_last()).push(Seq::empty())
    } else {
        extend_last(thinking_entries(s.drop_last()), s.last())
    }
}

/// Splits a `thinking` setting at its top-level commas.
pub fn split_thinking_entries(spec: &str) -> (r: Vec<String>)
    ensures
        views(r@) == thinking_entries(spec@),
{
    let mut out: Vec<String> = Vec::new();
    let mut cur = String::new();
    let mut depth: usize = 0;
    let mut in_str: bool = false;
    let mut esc: bool = false;
    let v = crate::text::chars_of(spec);
    assert(v@.take(0) =~= Seq::<char>::empty());
    assert(views(out@).push(cur@) =~= thinking_entries(v@.take(0)));
    for i in 0..v.len()
        invariant
            views(out@).push(cur@) == thinking_entries(v@.take(i as int)),
            scan(v@.take(i as int)) == (Scan { depth: depth as nat, in_str, esc }),
            depth <= i,
    {
        let ghost before = views(out@).push(cur@);
        let ghost last = cur@;
        assert(v@.take(i + 1).drop_last() =~= v@.take(i as int));
        assert(v@.take(i + 1).last() == v@[i as int]);
        let ch = v[i];
        let mut cut: bool = false;
        if esc {
            esc = false;
        } else if ch == '\\' && in_str {
            esc = true;
        } else if ch == '"' {
            in_str = !in_str;
        } else if (ch == '{' || ch == '[') && !in_str {
            depth += 1;
        } else if (ch == '}' || ch == ']') && !in_str {
            depth = depth.saturating_sub(1);
        } else if ch == ',' && !in_str && depth == 0 {
            cut = true;
        }
        if cut {
            proof {
                lemma_views_push(out@, cur);
            }
            out.push(cur);
            cur = String::new();
            assert(views(out@).push(cur@) =~= before.push(Seq::empty()));
        } else {
            cur.push(ch);
            assert(before.drop_last() =~= views(out@));
            assert(views(out@).push(cur@) =~= extend_last(before, ch));
        }
    }
    assert(v@.take(v@.len() as int) =~= v@);
    proof {
        lemma_views_push(out@, cur);
    }
    out.push(cur);
    out
}

/// Nothing of a `thinking` setting is lost: its entries, joined by commas, are the setting.
pub proof fn lemma_thinking_entries_join(s: Seq<char>)
    ensures
        thinking_entries(s).len() >= 1,
        join_spec(thinking_entries(s), seq![',']) == s,
    decreases s.len(),
{
    if s.len() == 0 {
        assert(join_spec(thinking_entries(s), seq![',']) =~= s);
    } else {
        lemma_thinking_entries_join(s.drop_last());
        let p = thinking_entries(s.drop_last());
        if s.last() == ',' && at_top_level(s.drop_last()) {
            assert(p.push(Seq::empty()).drop_last() =~= p);
            assert(join_spec(p.push(Seq::empty()), seq![',']) =~= s);
        } else {
            let q = extend_last(p, s.last());
            assert(q.drop_last() =~= p.drop_last());
            assert(join_spec(q, seq![',']) =~= join_spec(p, seq![',']).push(s.last()));
            assert(s =~= s.drop_last().push(s.last()));
        }
    }
}

/// The value of a setting: what its text denotes as JSON, else the text itself.
pub open spec fn setting_value(v: Seq<char>) -> JsonView {
    match json_parsed(v) {
        Ok(t) => t,
        Err(_) => JsonView::Str(v),
    }
}

/// The name and the value text of an entry `name=value`. Blank entries, `auto`, entries without
/// `=` and entries without a name give nothing.
pub open spec fn thinking_entry(seg: Seq<char>) -> Option<(Seq<char>, Seq<char>)> {
    let t = trim_spec(seg);
    if t.len() == 0 || ascii_lower(t) == ascii_lower("auto"@) {
        None
    } else {
        match split_once_spec(t, '=') {
            Some(p) => if trim_spec(p.0).len() == 0 {
                None
            } else {
                Some((trim_spec(p.0), trim_spec(p.1)))
            },
            None => None,
        }
    }
}

/// The fields that the entries set, later ones over earlier ones.
pub open spec fn thinking_fields(entries: Seq<Seq<char>>) -> Map<Seq<char>, JsonView>
    decreases entries.len(),
{
    if entries.len() == 0 {
        Map::empty()
    } else {
        let m = thinking_fields(entries.drop_last());
        match thinking_entry(entries.last()) {
            Some(p) => m.insert(p.0, setting_value(p.1)),
            None => m,
        }
    }
}

/// Reads an entry of a `thinking` setting.
fn parse_thinking_entry(seg: &str) -> (r: Option<(String, String)>)
    ensures
        match r {
            Some(p) => thinking_entry(seg@) == Some((p.0@, p.1@)),
            None => thinking_entry(seg@) is None,
        },
{
    let seg = trim(seg);
    if crate::text::is_empty(seg.as_str()) || eq_ignore_ascii_case(seg.as_str(), "auto") {
        return None;
    }
    match split_once(seg.as_str(), '=') {
        Some(p) => {
            let k = trim(p.0.as_str());
            let v = trim(p.1.as_str());
            if crate::text::is_empty(k.as_str()) {
                None
            } else {
                Some((k, v))
            }
        },
        None => None,
    }
}

/// The extra request fields of a `thinking` setting.
pub fn parse_thinking(spec: &str) -> (r: Obj)
    ensures
        r.map() == thinking_fields(thinking_entries(spec@)),
{
    let entries = split_thinking_entries(spec);
    let mut o = Obj::new();
    assert(views(entries@).take(0) =~= Seq::<Seq<char>>::empty());
    for i in 0..entries.len()
        invariant
            o.map() == thinking_fields(views(entries@).take(i as int)),
    {
        assert(views(entries@).take(i + 1).drop_last() =~= views(entries@).take(i as int));
        assert(views(entries@).take(i + 1).last() == entries@[i as int]@);
        match parse_thinking_entry(entries[i].as_str()) {
            Some(p) => {
                let val = match parse_json(p.1.as_str()) {
                    Ok(j) => j,
                    Err(_) => Json::string(p.1.as_str()),
                };
                o = o.with(p.0.as_str(), val);
            },
            None => {},
        }
    }
    assert(views(entries@).take(entries@.len() as int) =~= views(entries@));
    o
}

// ---------------------------------------------------------------------------
// Streamed replies
// ---------------------------------------------------------------------------

/// Fragments of tool calls by the index of the call.
pub open spec fn part_views(s: Seq<(usize, String)>) -> Seq<(usize, Seq<char>)> {
    s.map_values(|p: (usize, String)| (p.0, p.1@))
}

/// The position of the first fragment with the index `idx`, or the length.
pub open spec fn find_part(s: Seq<(usize, Seq<char>)>, idx: usize) -> int
    decreases s.len(),
{
    if s.len() == 0 || s[0].0 == idx {
        0
    } else {
        1 + find_part(s.drop_first(), idx)
    }
}

/// [`find_part`] is the least position at which `idx` stands.
pub proof fn lemma_find_part(s: Seq<(usize, Seq<char>)>, idx: usize)
    ensures
        0 <= find_part(s, idx) <= s.len(),
        forall|j: int| 0 <= j < find_part(s, idx) ==> (#[trigger] s[j]).0 != idx,
        find_part(s, idx) < s.len() ==> s[find_part(s, idx)].0 == idx,
    decreases s.len(),
{
    if s.len() > 0 && s[0].0 != idx {
        lemma_find_part(s.drop_first(), idx);
        let k = find_part(s.drop_first(), idx);
        assert forall|j: int| 0 <= j < find_part(s, idx) implies (#[trigger] s[j]).0 != idx by {
            if j > 0 {
                assert(s.drop_first()[j - 1] == s[j]);
            }
        }
        if k < s.drop_first().len() {
            assert(s.drop_first()[k] == s[k + 1]);
        }
    }
}

/// The text at the index `idx`.
pub open spec fn part_at(s: Seq<(usize, Seq<char>)>, idx: usize) -> Option<Seq<char>> {
    if find_part(s, idx) < s.len() {
        Some(s[find_part(s, idx)].1)
    } else {
        None
    }
}

/// The fragments with the text at `idx` set: in its place where it is there, else at the end.
pub open spec fn upserted(
    s: Seq<(usize, Seq<char>)>,
    idx: usize,
    val: Seq<char>,
) -> Seq<(usize, Seq<char>)> {
    if find_part(s, idx) < s.len() {
        s.update(find_part(s, idx), (idx, val))
    } else {
        s.push((idx, val))
    }
}

/// The fragments with `val` appended to the text at `idx`, which is empty where it is not there.
pub open spec fn extended(
    s: Seq<(usize, Seq<char>)>,
    idx: usize,
    val: Seq<char>,
) -> Seq<(usize, Seq<char>)> {
    match part_at(s, idx) {
        Some(t) => upserted(s, idx, t + val),
        None => s.push((idx, val)),
    }
}

fn position(list: &Vec<(usize, String)>, idx: usize) -> (r: usize)
    ensures
        r == find_part(part_views(list@), idx),
        r <= list@.len(),
{
    let ghost s = part_views(list@);
    for i in 0..list.len()
        invariant
            s == part_views(list@),
            forall|j: int| 0 <= j < i ==> (#[trigger] s[j]).0 != idx,
    {
        assert(s[i as int].0 == list@[i as int].0);
        if list[i].0 == idx {
            proof {
                lemma_find_part(s, idx);
            }
            return i;
        }
    }
    proof {
        lemma_find_part(s, idx);
    }
    list.len()
}

/// Sets the text at the index `idx`.
pub fn upsert(list: &mut Vec<(usize, String)>, idx: usize, val: String)
    ensures
        part_views(final(list)@) == upserted(part_views(old(list)@), idx, val@),
{
    let i = position(list, idx);
    let ghost s = part_views(list@);
    let ghost v = val@;
    proof {
        lemma_find_part(s, idx);
    }
    if i < list.len() {
        list[i] = (idx, val);
        assert(part_views(list@) =~= s.update(i as int, (idx, v)));
    } else {
        list.push((idx, val));
        assert(part_views(list@) =~= s.push((idx, v)));
    }
}

/// Appends to the text at the index `idx`.
pub fn extend(list: &mut Vec<(usize, String)>, idx: usize, val: &str)
    ensures
        part_views(final(list)@) == extended(part_views(old(list)@), idx, val@),
{
    let i = position(list, idx);
    let ghost s = part_views(list@);
    proof {
        lemma_find_part(s, idx);
    }
    if i < list.len() {
        let mut t = list[i].1.clone();
        t.append(val);
        let ghost tv = t@;
        list[i] = (idx, t);
        assert(part_views(list@) =~= s.update(i as int, (idx, tv)));
    } else {
        list.push((idx, val.to_string()));
        assert(part_views(list@) =~= s.push((idx, val@)));
    }
}

/// What was read of a reply: its text, the token counts, the ids, names and arguments of its
/// tool calls, and the pieces of text in the order in which they were handed on.
#[verifier::ext_equal]
pub struct Progress {
    pub content: Seq<char>,
    pub usage: Usage,
    pub ids: Seq<(usize, Seq<char>)>,
    pub names: Seq<(usize, Seq<char>)>,
    pub args: Seq<(usize, Seq<char>)>,
    pub deltas: Seq<Seq<char>>,
}

/// The count at the member `k`: 0 where it is missing, nothing where it is no count.
pub open spec fn count_at(u: JsonView, k: Seq<char>) -> Option<u64> {
    match u.get(k) {
        Some(v) => v.as_u64(),
        None => Some(0),
    }
}

/// The token counts of a `usage` object; none where one of them is malformed.
pub open spec fn usage_of(u: JsonView) -> Usage {
    match (count_at(u, "prompt_tokens"@), count_at(u, "completion_tokens"@), count_at(
        u,
        "total_tokens"@,
    )) {
        (Some(p), Some(c), Some(t)) => Usage {
            prompt_tokens: p,
            completion_tokens: c,
            total_tokens: t,
        },
        _ => no_usage(),
    }
}

/// The value at `/choices/0/delta`.
pub open spec fn delta_of(v: JsonView) -> Option<JsonView> {
    match v.get("choices"@) {
        Some(JsonView::Array(s)) => if s.len() > 0 {
            s[0].get("delta"@)
        } else {
            None
        },
        Some(c) => match c.get("0"@) {
            Some(first) => first.get("delta"@),
            None => None,
        },
        None => None,
    }
}

/// The text at `/function/k`.
pub open spec fn function_str(tc: JsonView, k: Seq<char>) -> Option<Seq<char>> {
    match tc.get("function"@) {
        Some(f) => f.str_at(k),
        None => None,
    }
}

/// The effect of one fragment of a tool call: id and name are set, arguments are appended.
pub open spec fn with_fragment(p: Progress, tc: JsonView) -> Progress {
    let idx = match tc.u64_at("index"@) {
        Some(n) => n as usize,
        None => 0usize,
    };
    Progress {
        ids: match tc.str_at("id"@) {
            Some(s) => upserted(p.ids, idx, s),
            None => p.ids,
        },
        names: match function_str(tc, "name"@) {
            Some(s) => upserted(p.names, idx, s),
            None => p.names,
        },
        args: match function_str(tc, "arguments"@) {
            Some(s) => extended(p.args, idx, s),
            None => p.args,
        },
        ..p
    }
}

/// The effect of the fragments of tool calls, one after the other.
pub open spec fn with_fragments(p: Progress, tcs: Seq<JsonView>) -> Progress
    decreases tcs.len(),
{
    if tcs.len() == 0 {
        p
    } else {
        with_fragment(with_fragments(p, tcs.drop_last()), tcs.last())
    }
}

/// The effect of the `usage` member of an event.
pub open spec fn with_usage(p: Progress, v: JsonView) -> Progress {
    match v.get("usage"@) {
        Some(JsonView::Object(m)) => Progress { usage: usage_of(JsonView::Object(m)), ..p },
        _ => p,
    }
}

/// The effect of a piece of text: an empty one has none.
pub open spec fn with_text(p: Progress, c: Option<Seq<char>>) -> Progress {
    match c {
        Some(t) => if t.len() > 0 {
            Progress { content: p.content + t, deltas: p.deltas.push(t), ..p }
        } else {
            p
        },
        None => p,
    }
}

/// The effect of one event of the stream.
pub open spec fn with_event(p: Progress, v: JsonView) -> Progress {
    let p1 = with_usage(p, v);
    match delta_of(v) {
        Some(d) => {
            let p2 = with_text(p1, d.str_at("content"@));
            match d.array_at("tool_calls"@) {
                Some(tcs) => with_fragments(p2, tcs),
                None => p2,
            }
        },
        None => p1,
    }
}

/// The event that a line of the stream carries: what follows `data:`, unless it is empty, the
/// end mark, or no JSON.
pub open spec fn event_of_line(line: Seq<char>) -> Option<JsonView> {
    let t = trim_spec(line);
    if starts_with_spec(t, "data:"@) {
        let data = trim_spec(t.skip("data:"@.len() as int));
        if data.len() == 0 || data == "[DONE]"@ {
            None
        } else {
            match json_parsed(data) {
                Ok(v) => Some(v),
                Err(_) => None,
            }
        }
    } else {
        None
    }
}

/// The effect of one line of the stream.
pub open spec fn with_line(p: Progress, line: Seq<char>) -> Progress {
    match event_of_line(line) {
        Some(v) => with_event(p, v),
        None => p,
    }
}

/// The effect of lines, one after the other.
pub open spec fn with_lines(p: Progress, lines: Seq<Seq<char>>) -> Progress
    decreases lines.len(),
{
    if lines.len() == 0 {
        p
    } else {
        with_line(with_lines(p, lines.drop_last()), lines.last())
    }
}

/// The reader of a streamed reply.
pub struct StreamState {
    pub buf: String,
    pub content: String,
    pub usage: Usage,
    pub tc_ids: Vec<(usize, String)>,
    pub tc_names: Vec<(usize, String)>,
    pub tc_args: Vec<(usize, String)>,
}

impl StreamState {
    /// What was read, where `deltas` were the pieces of text handed on.
    pub open spec fn progress(self, deltas: Seq<Seq<char>>) -> Progress {
        Progress {
            content: self.content@,
            usage: self.usage,
            ids: part_views(self.tc_ids@),
            names: part_views(self.tc_names@),
            args: part_views(self.tc_args@),
            deltas,
        }
    }

    /// A reader that has read nothing.
    pub fn new() -> (r: StreamState)
        ensures
            r.buf@.len() == 0,
            r.progress(Seq::empty()) == no_progress(),
    {
        let r = StreamState {
            buf: String::new(),
            content: String::new(),
            usage: Usage { prompt_tokens: 0, completion_tokens: 0, total_tokens: 0 },
            tc_ids: Vec::new(),
            tc_names: Vec::new(),
            tc_args: Vec::new(),
        };
        assert(r.progress(Seq::empty()) =~= no_progress());
        r
    }
}

/// Nothing read yet.
pub open spec fn no_progress() -> Progress {
    Progress {
        content: Seq::empty(),
        usage: no_usage(),
        ids: Seq::empty(),
        names: Seq::empty(),
        args: Seq::empty(),
        deltas: Seq::empty(),
    }
}

fn count_at_exec(u: &Json, k: &str) -> (r: Option<u64>)
    ensures
        r == count_at(u.tree(), k@),
{
    match u.get(k) {
        Some(v) => v.as_u64(),
        None => Some(0),
    }
}

/// Reads the token counts of a `usage` object.
pub fn read_usage(u: &Json) -> (r: Usage)
    ensures
        r == usage_of(u.tree()),
{
    match (count_at_exec(u, "prompt_tokens"), count_at_exec(u, "completion_tokens"), count_at_exec(
        u,
        "total_tokens",
    )) {
        (Some(p), Some(c), Some(t)) => Usage {
            prompt_tokens: p,
            completion_tokens: c,
            total_tokens: t,
        },
        _ => Usage { prompt_tokens: 0, completion_tokens: 0, total_tokens: 0 },
    }
}

fn find_delta(v: &Json) -> (r: Option<&Json>)
    ensures
        match r {
            Some(d) => delta_of(v.tree()) == Some(d.tree()),
            None => delta_of(v.tree()) is None,
        },
{
    match v.get("choices") {
        Some(Json::Array(s)) => if s.len() > 0 {
            assert(trees(s@)[0] == s@[0].tree());
            s[0].get("delta")
        } else {
            None
        },
        Some(c) => match c.get("0") {
            Some(first) => first.get("delta"),
            None => None,
        },
        None => None,
    }
}

fn function_str_exec<'a>(tc: &'a Json, k: &str) -> (r: Option<&'a String>)
    ensures
        crate::json::opt_str_view(r) == function_str(tc.tree(), k@),
{
    match tc.get("function") {
        Some(f) => f.str_at(k),
        None => None,
    }
}

/// The event that a line of the stream carries.
pub fn read_line(line: &str) -> (r: Option<Json>)
    ensures
        match r {
            Some(v) => event_of_line(line@) == Some(v.tree()),
            None => event_of_line(line@) is None,
        },
{
    let t = trim(line);
    match strip_prefix(t.as_str(), "data:") {
        Some(rest) => {
            let data = trim(rest.as_str());
            if crate::text::is_empty(data.as_str()) || str_eq(data.as_str(), "[DONE]") {
                None
            } else {
                match parse_json(data.as_str()) {
                    Ok(v) => Some(v),
                    Err(_) => None,
                }
            }
        },
        None => None,
    }
}

impl StreamState {
    fn apply_fragment(&mut self, tc: &Json)
        ensures
            final(self).buf == old(self).buf,
            forall|d: Seq<Seq<char>>| #[trigger]
                final(self).progress(d) == with_fragment(old(self).progress(d), tc.tree()),
    {
        let idx: usize = match tc.u64_at("index") {
            Some(n) => n as usize,
            None => 0,
        };
        match tc.str_at("id") {
            Some(s) => {
                upsert(&mut self.tc_ids, idx, s.clone());
            },
            None => {},
        }
        match function_str_exec(tc, "name") {
            Some(s) => {
                upsert(&mut self.tc_names, idx, s.clone());
            },
            None => {},
        }
        match function_str_exec(tc, "arguments") {
            Some(s) => {
                extend(&mut self.tc_args, idx, s.as_str());
            },
            None => {},
        }
    }

    fn apply_fragments(&mut self, tcs: &Vec<Json>)
        ensures
            final(self).buf == old(self).buf,
            forall|d: Seq<Seq<char>>| #[trigger]
                final(self).progress(d) == with_fragments(old(self).progress(d), trees(tcs@)),
    {
        let ghost start = *self;
        assert(trees(tcs@).take(0) =~= Seq::<JsonView>::empty());
        for i in 0..tcs.len()
            invariant
                self.buf == start.buf,
                forall|d: Seq<Seq<char>>| #[trigger]
                    self.progress(d) == with_fragments(
                        start.progress(d),
                        trees(tcs@).take(i as int),
                    ),
        {
            assert(trees(tcs@).take(i + 1).drop_last() =~= trees(tcs@).take(i as int));
            assert(trees(tcs@).take(i + 1).last() == tcs@[i as int].tree());
            self.apply_fragment(&tcs[i]);
        }
        assert(trees(tcs@).take(tcs@.len() as int) =~= trees(tcs@));
    }

    /// Takes in one event and returns the piece of text that it adds, if any.
    pub fn apply_event(&mut self, v: &Json) -> (r: Option<String>)
        ensures
            final(self).buf == old(self).buf,
            forall|d: Seq<Seq<char>>|
                final(self).progress(
                    match r {
                        Some(t) => d.push(t@),
                        None => d,
                    },
                ) == with_event(#[trigger] old(self).progress(d), v.tree()),
    {
        match v.get("usage") {
            Some(u) => match u {
                Json::Object(_) => {
                    self.usage = read_usage(u);
                },
                _ => {},
            },
            None => {},
        }
        let mut out: Option<String> = None;
        match find_delta(v) {
            Some(d) => {
                match d.str_at("content") {
                    Some(c) => if !crate::text::is_empty(c.as_str()) {
                        self.content.append(c.as_str());
                        out = Some(c.clone());
                    },
                    None => {},
                }
                match d.array_at("tool_calls") {
                    Some(tcs) => {
                        self.apply_fragments(tcs);
                    },
                    None => {},
                }
            },
            None => {},
        }
        out
    }
}

/// The lines that are complete once `text` has followed `buf`.
pub open spec fn complete_lines(buf: Seq<char>, text: Seq<char>) -> Seq<Seq<char>> {
    split_spec(buf + text, '\n').drop_last()
}

/// What is left of an incomplete line once `text` has followed `buf`.
pub open spec fn incomplete_line(buf: Seq<char>, text: Seq<char>) -> Seq<char> {
    split_spec(buf + text, '\n').last()
}

impl StreamState {
    /// Takes in text of the stream and returns the pieces of reply text that it completes.
    pub fn push_text(&mut self, text: &str) -> (r: Vec<String>)
        ensures
            final(self).buf@ == incomplete_line(old(self).buf@, text@),
            final(self).progress(views(r@)) == with_lines(
                old(self).progress(Seq::empty()),
                complete_lines(old(self).buf@, text@),
            ),
    {
        let mut all = self.buf.clone();
        all.append(text);
        let pieces = split(all.as_str(), '\n');
        let n: usize = pieces.len() - 1;
        let mut out: Vec<String> = Vec::new();
        let ghost lines = views(pieces@).drop_last();
        let ghost start = self.progress(Seq::empty());
        assert(lines.take(0) =~= Seq::<Seq<char>>::empty());
        assert(views(out@) =~= Seq::<Seq<char>>::empty());
        for i in 0..n
            invariant
                n == pieces@.len() - 1,
                lines == views(pieces@).drop_last(),
                self.progress(views(out@)) == with_lines(start, lines.take(i as int)),
        {
            assert(lines.take(i + 1).drop_last() =~= lines.take(i as int));
            assert(lines.take(i + 1).last() == pieces@[i as int]@);
            let ghost before = *self;
            let ghost so_far = views(out@);
            match read_line(pieces[i].as_str()) {
                Some(v) => {
                    let got = self.apply_event(&v);
                    assert(before.progress(so_far) == with_lines(start, lines.take(i as int)));
                    match got {
                        Some(t) => {
                            proof {
                                lemma_views_push(out@, t);
                            }
                            out.push(t);
                        },
                        None => {},
                    }
                },
                None => {},
            }
        }
        assert(lines.take(lines.len() as int) =~= lines);
        self.buf = pieces[n].clone();
        assert(views(pieces@).last() == pieces@[n as int]@);
        out
    }

    /// Takes in bytes of the stream and returns the pieces of reply text that they complete.
    pub fn feed(&mut self, chunk: &[u8]) -> (r: Vec<String>)
        ensures
            final(self).buf@ == incomplete_line(old(self).buf@, utf8_lossy(chunk@)),
            final(self).progress(views(r@)) == with_lines(
                old(self).progress(Seq::empty()),
                complete_lines(old(self).buf@, utf8_lossy(chunk@)),
            ),
    {
        let text = from_utf8_lossy(chunk);
        self.push_text(text.as_str())
    }

    /// The reply that was read.
    pub fn finish(&self) -> (r: ChatResult)
        ensures
            r.usage == self.usage,
            forall|d: Seq<Seq<char>>| r.message@ == finished_message(#[trigger] self.progress(d)),
    {
        let mut calls: Vec<ToolCall> = Vec::new();
        let ghost p = self.progress(Seq::empty());
        for i in 0..self.tc_names.len()
            invariant
                p == self.progress(Seq::empty()),
                calls@.len() == i,
                call_views(calls@) == finished_calls(p).take(i as int),
        {
            let idx = self.tc_names[i].0;
            assert(p.names[i as int] == (idx, self.tc_names@[i as int].1@));
            let c = ToolCall {
                id: text_at(&self.tc_ids, idx),
                call_type: "function".to_string(),
                function: FunctionCall {
                    name: self.tc_names[i].1.clone(),
                    arguments: text_at(&self.tc_args, idx),
                },
            };
            calls.push(c);
            assert(call_views(calls@) =~= finished_calls(p).take(i + 1));
        }
        assert(finished_calls(p).take(self.tc_names@.len() as int) =~= finished_calls(p));
        let tool_calls = if self.tc_names.len() == 0 {
            None
        } else {
            Some(calls)
        };
        let content = if crate::text::is_empty(self.content.as_str()) && self.tc_names.len() > 0 {
            None
        } else {
            Some(self.content.clone())
        };
        let message = Message {
            role: "assistant".to_string(),
            content,
            tool_calls,
            tool_call_id: None,
        };
        assert(message@ =~= finished_message(p));
        ChatResult { message, usage: self.usage }
    }
}

fn text_at(list: &Vec<(usize, String)>, idx: usize) -> (r: String)
    ensures
        r@ == part_or_empty(part_views(list@), idx),
{
    let i = position(list, idx);
    if i < list.len() {
        list[i].1.clone()
    } else {
        String::new()
    }
}

/// The text at the index `idx`, empty where there is none.
pub open spec fn part_or_empty(s: Seq<(usize, Seq<char>)>, idx: usize) -> Seq<char> {
    match part_at(s, idx) {
        Some(t) => t,
        None => Seq::empty(),
    }
}

/// The tool calls of a reply: one for each name, in the order in which the names appeared, with
/// the id and the arguments that came with the same index.
pub open spec fn finished_calls(p: Progress) -> Seq<ToolCallView> {
    p.names.map_values(
        |n: (usize, Seq<char>)|
            ToolCallView {
                id: part_or_empty(p.ids, n.0),
                call_type: "function"@,
                name: n.1,
                arguments: part_or_empty(p.args, n.0),
            },
    )
}

/// The message of a reply. Without text, a reply that calls tools has no content.
pub open spec fn finished_message(p: Progress) -> MessageView {
    MessageView {
        role: "assistant"@,
        content: if p.content.len() == 0 && p.names.len() > 0 {
            None
        } else {
            Some(p.content)
        },
        tool_calls: if p.names.len() == 0 {
            None
        } else {
            Some(finished_calls(p))
        },
        tool_call_id: None,
    }
}

/// What a server that does not stream answers: the first of its choices, whose text is handed
/// on in one piece unless it is empty.
pub open spec fn single_deltas(m: MessageView) -> Seq<Seq<char>> {
    match m.content {
        Some(t) => if t.len() > 0 {
            seq![t]
        } else {
            Seq::empty()
        },
        None => Seq::empty(),
    }
}

/// The reply of a server that does not stream, with the pieces of text to hand on.
pub fn single_reply(choices: Vec<Message>, usage: Option<Usage>) -> (r: Result<
    (ChatResult, Vec<String>),
    String,
>)
    ensures
        match r {
            Ok(p) => {
                &&& choices@.len() > 0
                &&& p.0.message@ == choices@[0]@
                &&& p.0.usage == (match usage {
                    Some(u) => u,
                    None => no_usage(),
                })
                &&& views(p.1@) == single_deltas(choices@[0]@)
            },
            Err(e) => choices@.len() == 0 && e@ == "LLM 返回为空"@,
        },
{
    if choices.len() == 0 {
        return Err("LLM 返回为空".to_string());
    }
    let message = choices[0].clone();
    let mut deltas: Vec<String> = Vec::new();
    match &message.content {
        Some(t) => if !crate::text::is_empty(t.as_str()) {
            deltas.push(t.clone());
        },
        None => {},
    }
    assert(views(deltas@) =~= single_deltas(choices@[0]@));
    let usage = match usage {
        Some(u) => u,
        None => Usage { prompt_tokens: 0, completion_tokens: 0, total_tokens: 0 },
    };
    Ok((ChatResult { message, usage }, deltas))
}

// ---------------------------------------------------------------------------
// Laws of the stream
// ---------------------------------------------------------------------------

/// Splitting a text that comes in two parts: the last piece of the first part is continued.
pub proof fn lemma_split_continues(a: Seq<char>, b: Seq<char>, sep: char)
    ensures
        split_spec(a, sep).len() >= 1,
        split_spec(a + b, sep) == split_spec(a, sep).drop_last() + split_spec(
            split_spec(a, sep).last() + b,
            sep,
        ),
    decreases b.len(),
{
    crate::text::lemma_split_pieces(a, sep);
    let p = split_spec(a, sep);
    if b.len() == 0 {
        assert(a + b =~= a);
        assert(p.last() + b =~= p.last());
        lemma_split_without(p.last(), sep);
        assert(p =~= p.drop_last() + seq![p.last()]);
    } else {
        let b1 = b.drop_last();
        lemma_split_continues(a, b1, sep);
        let q = split_spec(p.last() + b1, sep);
        crate::text::lemma_split_pieces(p.last() + b1, sep);
        assert((a + b).drop_last() =~= a + b1);
        assert((p.last() + b).drop_last() =~= p.last() + b1);
        if b.last() == sep {
            assert((p.drop_last() + q).push(Seq::empty()) =~= p.drop_last() + q.push(Seq::empty()));
        } else {
            assert((p.drop_last() + q).last() == q.last());
            assert((p.drop_last() + q).drop_last() =~= p.drop_last() + q.drop_last());
            assert(extend_last(p.drop_last() + q, b.last()) =~= p.drop_last() + extend_last(
                q,
                b.last(),
            ));
        }
    }
}

pub(crate) proof fn lemma_split_without(s: Seq<char>, sep: char)
    requires
        !s.contains(sep),
    ensures
        split_spec(s, sep) == seq![s],
    decreases s.len(),
{
    if s.len() == 0 {
        assert(s =~= Seq::empty());
    } else {
        let t = s.drop_last();
        assert forall|c: char| t.contains(c) implies s.contains(c) by {
            let i = choose|i: int| 0 <= i < t.len() && t[i] == c;
            assert(s[i] == c);
        }
        lemma_split_without(t, sep);
        assert(s.contains(s.last()));
        assert(t.push(s.last()) =~= s);
        assert(split_spec(s, sep) =~= seq![s]);
    }
}

proof fn lemma_lines_append(p: Progress, a: Seq<Seq<char>>, b: Seq<Seq<char>>)
    ensures
        with_lines(p, a + b) == with_lines(with_lines(p, a), b),
    decreases b.len(),
{
    if b.len() == 0 {
        assert(a + b =~= a);
    } else {
        lemma_lines_append(p, a, b.drop_last());
        assert((a + b).drop_last() =~= a + b.drop_last());
    }
}

/// How the stream is cut into chunks does not matter: reading `a` and then `b` leaves the same
/// incomplete line and the same progress as reading both at once.
pub proof fn lemma_chunking_independent(p: Progress, buf: Seq<char>, a: Seq<char>, b: Seq<char>)
    ensures
        incomplete_line(incomplete_line(buf, a), b) == incomplete_line(buf, a + b),
        with_lines(
            with_lines(p, complete_lines(buf, a)),
            complete_lines(incomplete_line(buf, a), b),
        ) == with_lines(p, complete_lines(buf, a + b)),
{
    let x = split_spec(buf + a, '\n');
    lemma_split_continues(buf + a, b, '\n');
    let y = split_spec(x.last() + b, '\n');
    crate::text::lemma_split_pieces(x.last() + b, '\n');
    assert(buf + (a + b) =~= (buf + a) + b);
    assert((x.drop_last() + y).last() == y.last());
    assert((x.drop_last() + y).drop_last() =~= x.drop_last() + y.drop_last());
    lemma_lines_append(p, x.drop_last(), y.drop_last());
}

/// The texts one after the other.
pub open spec fn concat_all(s: Seq<Seq<char>>) -> Seq<char>
    decreases s.len(),
{
    if s.len() == 0 {
        Seq::empty()
    } else {
        concat_all(s.drop_last()) + s.last()
    }
}

proof fn lemma_fragments_keep_text(p: Progress, tcs: Seq<JsonView>)
    ensures
        with_fragments(p, tcs).content == p.content,
        with_fragments(p, tcs).deltas == p.deltas,
    decreases tcs.len(),
{
    if tcs.len() > 0 {
        lemma_fragments_keep_text(p, tcs.drop_last());
    }
}

/// The text of the reply is what was handed on, piece by piece: reading lines adds to both alike.
pub proof fn lemma_text_is_the_deltas(p: Progress, lines: Seq<Seq<char>>)
    requires
        p.content == concat_all(p.deltas),
    ensures
        with_lines(p, lines).content == concat_all(with_lines(p, lines).deltas),
    decreases lines.len(),
{
    if lines.len() > 0 {
        lemma_text_is_the_deltas(p, lines.drop_last());
        let q = with_lines(p, lines.drop_last());
        match event_of_line(lines.last()) {
            Some(v) => {
                let q1 = with_usage(q, v);
                match delta_of(v) {
                    Some(d) => {
                        let q2 = with_text(q1, d.str_at("content"@));
                        match d.str_at("content"@) {
                            Some(t) => {
                                assert(q1.deltas.push(t).drop_last() =~= q1.deltas);
                            },
                            None => {},
                        }
                        match d.array_at("tool_calls"@) {
                            Some(tcs) => {
                                lemma_fragments_keep_text(q2, tcs);
                            },
                            None => {},
                        }
                    },
                    None => {},
                }
            },
            None => {},
        }
    }
}

/// Setting a fragment makes it the one that is found, and leaves the others as they were.
pub proof fn lemma_upsert_then_find(
    s: Seq<(usize, Seq<char>)>,
    idx: usize,
    val: Seq<char>,
    other: usize,
)
    ensures
        part_at(upserted(s, idx, val), idx) == Some(val),
        other != idx ==> part_at(upserted(s, idx, val), other) == part_at(s, other),
{
    let r = upserted(s, idx, val);
    lemma_find_part(s, idx);
    lemma_find_part(r, idx);
    lemma_find_part(s, other);
    lemma_find_part(r, other);
    let k = find_part(s, idx);
    let kr = find_part(r, idx);
    assert(r[k] == (idx, val));
    if kr < k {
        assert(r[kr] == s[kr]);
    }
    if other != idx {
        let a = find_part(s, other);
        let b = find_part(r, other);
        if a < s.len() {
            assert(r[a] == s[a]);
        }
        if b < r.len() && b < s.len() {
            assert(r[b] == s[b]);
        }
    }
}

/// Arguments are joined: appending `a` and then `b` at an index appends `a + b`.
pub proof fn lemma_extend_twice(
    s: Seq<(usize, Seq<char>)>,
    idx: usize,
    a: Seq<char>,
    b: Seq<char>,
)
    ensures
        part_at(extended(extended(s, idx, a), idx, b), idx) == Some(
            part_or_empty(s, idx) + a + b,
        ),
{
    lemma_find_part(s, idx);
    match part_at(s, idx) {
        Some(t) => {
            lemma_upsert_then_find(s, idx, t + a, idx);
            lemma_upsert_then_find(extended(s, idx, a), idx, t + a + b, idx);
        },
        None => {
            assert(part_or_empty(s, idx) + a =~= a);
            assert(extended(s, idx, a) == upserted(s, idx, a));
            lemma_upsert_then_find(s, idx, a, idx);
            lemma_upsert_then_find(extended(s, idx, a), idx, a + b, idx);
        },
    }
}

// ---------------------------------------------------------------------------
// Requests
// ---------------------------------------------------------------------------

/// A function that the model may call, with the JSON schema of its parameters.
pub struct FunctionDef {
    pub name: String,
    pub description: String,
    pub parameters: Json,
}

/// A tool that is offered to the model.
pub struct ToolDef {
    pub def_type: String,
    pub function: FunctionDef,
}

impl ToolDef {
    /// The tool that is the given function.
    pub fn function(name: &str, description: &str, parameters: Json) -> (r: ToolDef)
        ensures
            r.def_type@ == "function"@,
            r.function.name@ == name@,
            r.function.description@ == description@,
            r.function.parameters == parameters,
    {
        ToolDef {
            def_type: "function".to_string(),
            function: FunctionDef {
                name: name.to_string(),
                description: description.to_string(),
                parameters,
            },
        }
    }

    /// The tool as the service reads it.
    pub open spec fn tree(self) -> JsonView {
        object(
            seq![
                ("type"@, JsonView::Str(self.def_type@)),
                (
                    "function"@,
                    object(
                        seq![
                            ("name"@, JsonView::Str(self.function.name@)),
                            ("description"@, JsonView::Str(self.function.description@)),
                            ("parameters"@, self.function.parameters.tree()),
                        ],
                    ),
                ),
            ],
        )
    }
}

/// The tools as the service reads them.
pub open spec fn tool_trees(s: Seq<ToolDef>) -> Seq<JsonView> {
    s.map_values(|d: ToolDef| d.tree())
}

/// A tool call as the service reads it.
pub open spec fn call_tree(c: ToolCallView) -> JsonView {
    object(
        seq![
            ("id"@, JsonView::Str(c.id)),
            ("type"@, JsonView::Str(c.call_type)),
            (
                "function"@,
                object(
                    seq![
                        ("name"@, JsonView::Str(c.name)),
                        ("arguments"@, JsonView::Str(c.arguments)),
                    ],
                ),
            ),
        ],
    )
}

/// `m` with the member `k` set to a text, where there is one.
pub open spec fn with_opt(
    m: Map<Seq<char>, JsonView>,
    k: Seq<char>,
    v: Option<JsonView>,
) -> Map<Seq<char>, JsonView> {
    match v {
        Some(x) => m.insert(k, x),
        None => m,
    }
}

/// An optional text as JSON.
pub open spec fn opt_str(o: Option<Seq<char>>) -> Option<JsonView> {
    match o {
        Some(s) => Some(JsonView::Str(s)),
        None => None,
    }
}

/// A message as the service reads it: parts that it does not have are left out.
pub open spec fn message_tree(m: MessageView) -> JsonView {
    let calls = match m.tool_calls {
        Some(s) => Some(JsonView::Array(s.map_values(|c: ToolCallView| call_tree(c)))),
        None => None,
    };
    let m0 = Map::<Seq<char>, JsonView>::empty().insert("role"@, JsonView::Str(m.role));
    let m1 = with_opt(m0, "content"@, opt_str(m.content));
    let m2 = with_opt(m1, "tool_calls"@, calls);
    JsonView::Object(with_opt(m2, "tool_call_id"@, opt_str(m.tool_call_id)))
}

/// The fields of a streaming request that the settings do not name.
pub open spec fn request_fields(
    model: Seq<char>,
    messages: Seq<MessageView>,
    tools: Option<Seq<JsonView>>,
) -> Map<Seq<char>, JsonView> {
    let m0 = Map::<Seq<char>, JsonView>::empty().insert("model"@, JsonView::Str(model)).insert(
        "messages"@,
        JsonView::Array(messages.map_values(|m: MessageView| message_tree(m))),
    );
    let m1 = match tools {
        Some(t) => m0.insert("tools"@, JsonView::Array(t)).insert(
            "tool_choice"@,
            JsonView::Str("auto"@),
        ),
        None => m0,
    };
    m1.insert("stream"@, JsonView::Bool(true)).insert(
        "stream_options"@,
        object(seq![("include_usage"@, JsonView::Bool(true))]),
    )
}

/// Two objects written as one, with the members of the second behind those of the first.
pub open spec fn written_as_one(a: Seq<char>, b: Seq<char>) -> Seq<char> {
    a.drop_last() + ","@ + b.skip(1)
}

/// Whether two objects have a member of the same name.
pub open spec fn share_a_name(
    a: Map<Seq<char>, JsonView>,
    b: Map<Seq<char>, JsonView>,
) -> bool {
    exists|k: Seq<char>| #[trigger] a.dom().contains(k) && b.dom().contains(k)
}

/// The body of a streaming request: one object with the request's own fields and the extra ones.
/// A name that both have is written twice, with the extra field last.
pub open spec fn request_text(
    own: Map<Seq<char>, JsonView>,
    extra: Map<Seq<char>, JsonView>,
) -> Seq<char> {
    if share_a_name(own, extra) {
        written_as_one(json_compact(JsonView::Object(own)), json_compact(JsonView::Object(extra)))
    } else {
        json_compact(JsonView::Object(own.union_prefer_right(extra)))
    }
}

fn call_json(c: &ToolCall) -> (r: Json)
    ensures
        r.tree() == call_tree(c@),
{
    proof {
        reveal_with_fuel(crate::json::object_map, 4);
    }
    let f = Obj::new().with_str("name", c.function.name.as_str()).with_str(
        "arguments",
        c.function.arguments.as_str(),
    );
    let r = Obj::new().with_str("id", c.id.as_str()).with_str("type", c.call_type.as_str()).with(
        "function",
        f.json(),
    );
    assert(r.map() =~= call_tree(c@)->Object_0);
    r.json()
}

fn message_json(m: &Message) -> (r: Json)
    ensures
        r.tree() == message_tree(m@),
{
    let mut o = Obj::new().with_str("role", m.role.as_str());
    match &m.content {
        Some(t) => {
            o = o.with_str("content", t.as_str());
        },
        None => {},
    }
    match &m.tool_calls {
        Some(v) => {
            let mut items: Vec<Json> = Vec::new();
            let ghost all = call_views(v@).map_values(|c: ToolCallView| call_tree(c));
            for i in 0..v.len()
                invariant
                    all == call_views(v@).map_values(|c: ToolCallView| call_tree(c)),
                    trees(items@) == all.take(i as int),
            {
                let j = call_json(&v[i]);
                proof {
                    lemma_trees_push(items@, j);
                }
                items.push(j);
                assert(all.take(i + 1) =~= all.take(i as int).push(all[i as int]));
            }
            assert(all.take(v@.len() as int) =~= all);
            o = o.with("tool_calls", Json::Array(items));
        },
        None => {},
    }
    match &m.tool_call_id {
        Some(t) => {
            o = o.with_str("tool_call_id", t.as_str());
        },
        None => {},
    }
    o.json()
}

fn tool_json(d: ToolDef) -> (r: Json)
    ensures
        r.tree() == d.tree(),
{
    proof {
        reveal_with_fuel(crate::json::object_map, 4);
    }
    let f = Obj::new().with_str("name", d.function.name.as_str()).with_str(
        "description",
        d.function.description.as_str(),
    ).with("parameters", d.function.parameters);
    let r = Obj::new().with_str("type", d.def_type.as_str()).with("function", f.json());
    assert(r.map() =~= d.tree()->Object_0);
    r.json()
}

/// Builds the body of a streaming request. With tools, the model chooses whether to call them.
pub fn request_body(
    model: &str,
    messages: &Vec<Message>,
    tools: Option<Vec<ToolDef>>,
    thinking: Option<&String>,
) -> (r: String)
    ensures
        r@ == request_text(
            request_fields(
                model@,
                message_views(messages@),
                match tools {
                    Some(t) => Some(tool_trees(t@)),
                    None => None,
                },
            ),
            match thinking {
                Some(t) => thinking_fields(thinking_entries(t@)),
                None => Map::empty(),
            },
        ),
{
    let own = own_fields(model, messages, tools);
    let extra = match thinking {
        Some(t) => parse_thinking(t.as_str()),
        None => Obj::new(),
    };
    if have_common_name(&own, &extra) {
        let a = chars_of(render_json(&own.json()).as_str());
        let b = chars_of(render_json(&extra.json()).as_str());
        let r = string_of(&a, 0, a.len() - 1).concat(",").concat(
            string_of(&b, 1, b.len()).as_str(),
        );
        assert(r@ =~= written_as_one(a@, b@));
        r
    } else {
        render_json(&own.merge(extra).json())
    }
}

fn have_common_name(a: &Obj, b: &Obj) -> (r: bool)
    ensures
        r == share_a_name(a.map(), b.map()),
{
    let names = b.names();
    for i in 0..names.len()
        invariant
            forall|k: Seq<char>| #[trigger]
                views(names@).contains(k) <==> b.map().dom().contains(k),
            forall|j: int| 0 <= j < i ==> !a.map().dom().contains(#[trigger] views(names@)[j]),
    {
        assert(views(names@)[i as int] == names@[i as int]@);
        if a.get(names[i].as_str()).is_some() {
            assert(views(names@).contains(names@[i as int]@));
            assert(a.map().dom().contains(names@[i as int]@));
            return true;
        }
    }
    assert forall|k: Seq<char>| #[trigger] a.map().dom().contains(k) implies !b.map().dom().contains(
        k,
    ) by {
        if b.map().dom().contains(k) {
            assert(views(names@).contains(k));
            let j = choose|j: int| 0 <= j < views(names@).len() && views(names@)[j] == k;
            assert(!a.map().dom().contains(views(names@)[j]));
        }
    }
    false
}

fn own_fields(model: &str, messages: &Vec<Message>, tools: Option<Vec<ToolDef>>) -> (r: Obj)
    ensures
        r.map() == request_fields(
            model@,
            message_views(messages@),
            match tools {
                Some(t) => Some(tool_trees(t@)),
                None => None,
            },
        ),
{
    proof {
        reveal_with_fuel(crate::json::object_map, 2);
    }
    let mut items: Vec<Json> = Vec::new();
    let ghost all = message_views(messages@).map_values(|m: MessageView| message_tree(m));
    for i in 0..messages.len()
        invariant
            all == message_views(messages@).map_values(|m: MessageView| message_tree(m)),
            trees(items@) == all.take(i as int),
    {
        let j = message_json(&messages[i]);
        proof {
            lemma_trees_push(items@, j);
        }
        items.push(j);
        assert(all.take(i + 1) =~= all.take(i as int).push(all[i as int]));
    }
    assert(all.take(messages@.len() as int) =~= all);
    let mut o = Obj::new().with_str("model", model).with("messages", Json::Array(items));
    match tools {
        Some(defs) => {
            let mut offered: Vec<Json> = Vec::new();
            let ghost list = defs@;
            let mut rest = defs;
            while rest.len() > 0
                invariant
                    rest@.len() <= list.len(),
                    rest@ == list.skip(list.len() - rest@.len()),
                    trees(offered@) == tool_trees(list).take(list.len() - rest@.len()),
                decreases rest@.len(),
            {
                let ghost k = list.len() - rest@.len();
                let d = rest.remove(0);
                assert(d == list[k]);
                assert(rest@ =~= list.skip(k + 1));
                let j = tool_json(d);
                proof {
                    lemma_trees_push(offered@, j);
                }
                offered.push(j);
                assert(tool_trees(list).take(k + 1) =~= tool_trees(list).take(k).push(
                    tool_trees(list)[k],
                ));
            }
            assert(tool_trees(list).take(list.len() as int) =~= tool_trees(list));
            o = o.with("tools", Json::Array(offered)).with_str("tool_choice", "auto");
        },
        None => {},
    }
    let options = Obj::new().with("include_usage", Json::Bool(true));
    assert(options.map() =~= object(seq![("include_usage"@, JsonView::Bool(true))])->Object_0);
    o.with("stream", Json::Bool(true)).with("stream_options", options.json())
}

/// The address of the chat service below the configured base address.
pub fn endpoint(base_url: &str) -> (r: String)
    ensures
        r@ == trim_end_char(base_url@, '/') + "/chat/completions"@,
{
    trim_end_matches(base_url, '/').concat("/chat/completions")
}

/// Whether a reply is an event stream, by its content type.
pub fn is_event_stream(content_type: Option<&String>) -> (r: bool)
    ensures
        r == (content_type matches Some(t) && crate::text::contains_spec(
            t@,
            "text/event-stream"@,
        )),
{
    match content_type {
        Some(t) => crate::text::contains(t.as_str(), "text/event-stream"),
        None => false,
    }
}

/// What is said of a request that the service refused.
pub fn service_error(status: &str, body: &str) -> (r: String)
    ensures
        r@ == "LLM API 错误 "@ + status@ + ": "@ + body@,
{
    "LLM API 错误 ".to_string().concat(status).concat(": ").concat(body)
}

} // verus!

//! Saved conversations.

use vstd::prelude::*;
use vstd::string::StringExecFns;

use crate::agent::Agent;
#[allow(unused_imports)]
use crate::json::{lemma_trees_push, object, opt_view, pair_views, trees, JsonView};
use crate::json::{object_of, Json};
use crate::llm::{Message, ToolCall, Usage};
#[allow(unused_imports)]
use crate::llm::{call_views, message_views, MessageView, ToolCallView};
#[allow(unused_imports)]
use crate::order::{ascending, lex_lt};
use crate::order::{insert_sorted, str_lt};
#[allow(unused_imports)]
use crate::text::{has_extension, lemma_views_push, views};
use crate::text::{extension_is, is_empty, str_eq};

verus! {

/// A conversation as it is saved.
pub struct Session {
    pub messages: Vec<Message>,
    pub prompt_tokens: u64,
    pub completion_tokens: u64,
    pub total_tokens: u64,
    pub calls: u64,
    pub saved_at: String,
}

/// A saved conversation in a list. Only one that is valid can be loaded.
pub struct SessionInfo {
    pub name: String,
    pub size_kb: u64,
    pub modified: String,
    pub valid: bool,
}

/// The directory of saved conversations.
pub fn sessions_dir(data_dir: &str) -> (r: String)
    ensures
        r@ == data_dir@ + "/sessions"@,
{
    data_dir.to_string().concat("/sessions")
}

fn clone_messages(v: &Vec<Message>) -> (r: Vec<Message>)
    ensures
        message_views(r@) == message_views(v@),
{
    let mut r: Vec<Message> = Vec::new();
    for i in 0..v.len()
        invariant
            r@.len() == i,
            message_views(r@) == message_views(v@).take(i as int),
    {
        r.push(v[i].clone());
        assert(message_views(r@) =~= message_views(v@).take(i + 1));
    }
    assert(message_views(v@).take(v@.len() as int) =~= message_views(v@));
    r
}

/// Whether a session holds the conversation of an agent and its counts.
pub open spec fn holds(s: Session, a: Agent) -> bool {
    &&& message_views(s.messages@) == a.conv()
    &&& s.prompt_tokens == a.usage.prompt_tokens
    &&& s.completion_tokens == a.usage.completion_tokens
    &&& s.total_tokens == a.usage.total_tokens
    &&& s.calls == a.calls
}

/// The conversation of an agent as it is saved.
pub fn session_of(agent: &Agent, saved_at: &str) -> (r: Session)
    ensures
        holds(r, *agent),
        r.saved_at@ == saved_at@,
{
    Session {
        messages: clone_messages(&agent.messages),
        prompt_tokens: agent.usage.prompt_tokens,
        completion_tokens: agent.usage.completion_tokens,
        total_tokens: agent.usage.total_tokens,
        calls: agent.calls,
        saved_at: saved_at.to_string(),
    }
}

/// Goes on with a saved conversation. It will be saved to a new file, so that the one that was
/// loaded stays.
pub fn restore(agent: &mut Agent, session: Session)
    ensures
        holds(session, *final(agent)),
        final(agent).session_file is None,
        final(agent).llm_cfg == old(agent).llm_cfg,
{
    agent.messages = session.messages;
    agent.usage = Usage {
        prompt_tokens: session.prompt_tokens,
        completion_tokens: session.completion_tokens,
        total_tokens: session.total_tokens,
    };
    agent.calls = session.calls;
    agent.session_file = None;
}

/// What was saved is loaded: an agent that goes on with the saved conversation of another has
/// its messages, its token counts and its number of calls.
pub proof fn lemma_saved_session_is_loaded(s: Session, saved: Agent, loaded: Agent)
    requires
        holds(s, saved),
        holds(s, loaded),
    ensures
        loaded.conv() == saved.conv(),
        loaded.usage == saved.usage,
        loaded.calls == saved.calls,
{
}

/// The file of a snapshot that was asked for.
pub fn snapshot_path(data_dir: &str, timestamp: &str) -> (r: String)
    ensures
        r@ == data_dir@ + "/sessions"@ + "/session-"@ + timestamp@ + ".json"@,
{
    sessions_dir(data_dir).concat("/session-").concat(timestamp).concat(".json")
}

/// Whether the user has said anything.
pub open spec fn has_user_message(s: Seq<MessageView>) -> bool {
    exists|i: int| 0 <= i < s.len() && (#[trigger] s[i]).role == "user"@
}

/// Whether an agent is to save its conversation to `r` after a turn, and goes on as `after`: to
/// the file that it was saved to before, else to a new one that is named after the time. Nothing
/// is saved where the user has not said anything yet.
pub open spec fn auto_saved(
    before: Agent,
    data_dir: Seq<char>,
    timestamp: Seq<char>,
    after: Agent,
    r: Option<Seq<char>>,
) -> bool {
    &&& after.messages == before.messages
    &&& after.usage == before.usage
    &&& after.calls == before.calls
    &&& after.llm_cfg == before.llm_cfg
    &&& if has_user_message(before.conv()) {
        &&& r == Some(
            match before.session_file {
                Some(f) => f@,
                None => data_dir + "/sessions"@ + "/auto-"@ + timestamp + ".json"@,
            },
        )
        &&& opt_view(after.session_file) == r
    } else {
        &&& r is None
        &&& after.session_file == before.session_file
    }
}

/// A conversation is always saved to the same file, whenever that is and however it went on:
/// the file of the first save is that of every later one.
pub proof fn lemma_auto_save_keeps_its_file(
    a: Agent,
    b: Agent,
    later: Agent,
    c: Agent,
    data_dir: Seq<char>,
    first: Seq<char>,
    second: Seq<char>,
    path: Seq<char>,
    r: Option<Seq<char>>,
)
    requires
        auto_saved(a, data_dir, first, b, Some(path)),
        later.session_file == b.session_file,
        auto_saved(later, data_dir, second, c, r),
    ensures
        has_user_message(later.conv()) ==> r == Some(path),
        opt_view(c.session_file) == Some(path),
{
}

/// A conversation that was loaded is saved to a new file, which is named after the time of that
/// save: the file that it was loaded from is not the target, unless that is its name.
pub proof fn lemma_loaded_conversation_gets_a_new_file(
    loaded: Agent,
    after: Agent,
    data_dir: Seq<char>,
    timestamp: Seq<char>,
    r: Option<Seq<char>>,
)
    requires
        loaded.session_file is None,
        has_user_message(loaded.conv()),
        auto_saved(loaded, data_dir, timestamp, after, r),
    ensures
        r == Some(data_dir + "/sessions"@ + "/auto-"@ + timestamp + ".json"@),
{
}

/// The file that a conversation is saved to after each turn: always the same, named after the
/// time of the first save. Nothing where the user has not said anything yet.
pub fn auto_save_target(agent: &mut Agent, data_dir: &str, timestamp: &str) -> (r: Option<String>)
    ensures
        auto_saved(*old(agent), data_dir@, timestamp@, *final(agent), opt_view(r)),
{
    let ghost conv = agent.conv();
    let mut found = false;
    for i in 0..agent.messages.len()
        invariant
            conv == message_views(agent.messages@),
            *agent == *old(agent),
            found <==> exists|j: int| 0 <= j < i && (#[trigger] conv[j]).role == "user"@,
    {
        assert(conv[i as int].role == agent.messages@[i as int].role@);
        if str_eq(agent.messages[i].role.as_str(), "user") {
            found = true;
        }
    }
    if !found {
        return None;
    }
    match &agent.session_file {
        Some(f) => Some(f.clone()),
        None => {
            let p = sessions_dir(data_dir).concat("/auto-").concat(timestamp).concat(".json");
            agent.session_file = Some(p.clone());
            Some(p)
        },
    }
}

/// Whether a file can be a saved conversation.
pub open spec fn is_session_file(name: Seq<char>) -> bool {
    has_extension(name, "json"@)
}

/// A file in the directory of saved conversations.
pub struct SavedFile {
    pub name: String,
    /// When it was written last, on a clock that all files share.
    pub saved: u64,
}

/// The mathematical value of a [`SavedFile`]: its name, and when it was written last.
pub type SavedView = (Seq<char>, u64);

impl View for SavedFile {
    type V = SavedView;

    open spec fn view(&self) -> SavedView {
        (self.name@, self.saved)
    }
}

/// The views of a list of files.
pub open spec fn saved_views(s: Seq<SavedFile>) -> Seq<SavedView> {
    s.map_values(|f: SavedFile| f@)
}

/// Whether `a` was saved before `b`. Of two files with the same time the one whose name is
/// greater counts as the later.
pub open spec fn saved_before(a: SavedView, b: SavedView) -> bool {
    a.1 < b.1 || (a.1 == b.1 && lex_lt(a.0, b.0))
}

/// Whether the file at `i` can be a saved conversation, and no other such file was saved after
/// it.
pub open spec fn is_latest(files: Seq<SavedView>, i: int) -> bool {
    &&& 0 <= i < files.len()
    &&& is_session_file(files[i].0)
    &&& forall|j: int|
        0 <= j < files.len() && is_session_file((#[trigger] files[j]).0) ==> !saved_before(
            files[i],
            files[j],
        )
}

/// The conversation that was saved last.
pub fn latest(files: &Vec<SavedFile>) -> (r: Result<String, String>)
    ensures
        match r {
            Ok(n) => exists|i: int| #[trigger]
                is_latest(saved_views(files@), i) && n@ == saved_views(files@)[i].0,
            Err(e) => e@ == "没有可加载的历史会话"@ && forall|i: int|
                0 <= i < files@.len() ==> !is_session_file((#[trigger] saved_views(files@)[i]).0),
        },
{
    let ghost all = saved_views(files@);
    let mut best: Option<usize> = None;
    for i in 0..files.len()
        invariant
            all == saved_views(files@),
            match best {
                Some(b) => {
                    &&& b < i
                    &&& is_session_file(all[b as int].0)
                    &&& forall|j: int|
                        0 <= j < i && is_session_file((#[trigger] all[j]).0) ==> !saved_before(
                            all[b as int],
                            all[j],
                        )
                },
                None => forall|j: int| 0 <= j < i ==> !is_session_file((#[trigger] all[j]).0),
            },
    {
        assert(all[i as int] == files@[i as int]@);
        if extension_is(files[i].name.as_str(), "json") {
            let take: bool = match best {
                Some(b) => {
                    assert(all[b as int] == files@[b as int]@);
                    files[b].saved < files[i].saved || (files[b].saved == files[i].saved && str_lt(
                        files[b].name.as_str(),
                        files[i].name.as_str(),
                    ))
                },
                None => true,
            };
            if take {
                proof {
                    crate::order::lemma_lex_irreflexive(all[i as int].0);
                    if best is Some {
                        let b = best->0 as int;
                        assert forall|j: int|
                            0 <= j < i && is_session_file((#[trigger] all[j]).0) implies
                            !saved_before(all[i as int], all[j]) by {
                            if saved_before(all[i as int], all[j]) {
                                if lex_lt(all[b].0, all[i as int].0) && lex_lt(
                                    all[i as int].0,
                                    all[j].0,
                                ) {
                                    crate::order::lemma_lex_transitive(
                                        all[b].0,
                                        all[i as int].0,
                                        all[j].0,
                                    );
                                }
                            }
                        }
                    }
                }
                best = Some(i);
            }
        }
    }
    match best {
        Some(b) => {
            assert(all[b as int] == files@[b as int]@);
            assert(is_latest(all, b as int));
            Ok(files[b].name.clone())
        },
        None => Err("没有可加载的历史会话".to_string()),
    }
}

/// The conversation that is found as the latest was not saved before any other, whatever the
/// names are.
pub proof fn lemma_latest_is_saved_last(files: Seq<SavedView>, i: int, j: int)
    requires
        is_latest(files, i),
        0 <= j < files.len(),
        is_session_file(files[j].0),
    ensures
        files[j].1 <= files[i].1,
{
}

/// Whether the strings stand in strictly descending order.
pub open spec fn descending_names(s: Seq<Seq<char>>) -> bool {
    forall|i: int, j: int| 0 <= i < j < s.len() ==> lex_lt(#[trigger] s[j], #[trigger] s[i])
}

/// The files that can be saved conversations, latest first.
pub fn list(names: &Vec<String>) -> (r: Vec<String>)
    ensures
        descending_names(views(r@)),
        forall|x: Seq<char>| #[trigger]
            views(r@).contains(x) <==> views(names@).contains(x) && is_session_file(x),
{
    let ghost all = views(names@);
    let mut up: Vec<String> = Vec::new();
    for i in 0..names.len()
        invariant
            all == views(names@),
            ascending(views(up@)),
            forall|x: Seq<char>| #[trigger]
                views(up@).contains(x) <==> all.take(i as int).contains(x) && is_session_file(x),
    {
        assert(all[i as int] == names@[i as int]@);
        let ghost was = views(up@);
        let ghost t = all.take(i as int);
        let ghost u = all.take(i + 1);
        if extension_is(names[i].as_str(), "json") {
            insert_sorted(&mut up, names[i].clone());
        }
        assert forall|x: Seq<char>| #[trigger] views(up@).contains(x) <==> u.contains(x)
            && is_session_file(x) by {
            assert(was.contains(x) <==> t.contains(x) && is_session_file(x));
            if t.contains(x) {
                let j = choose|j: int| 0 <= j < t.len() && t[j] == x;
                assert(u[j] == x);
            }
            if x == all[i as int] {
                assert(u[i as int] == x);
            }
            if u.contains(x) && x != all[i as int] {
                let j = choose|j: int| 0 <= j < u.len() && u[j] == x;
                assert(t[j] == x);
            }
        }
    }
    assert(all.take(names@.len() as int) =~= all);
    let ghost up_views = views(up@);
    let mut r: Vec<String> = Vec::new();
    let n: usize = up.len();
    for i in 0..n
        invariant
            n == up@.len(),
            up_views == views(up@),
            r@.len() == i,
            forall|k: int| 0 <= k < i ==> (#[trigger] views(r@)[k]) == up_views[n - 1 - k],
    {
        let s = up[n - 1 - i].clone();
        proof {
            lemma_views_push(r@, s);
        }
        r.push(s);
    }
    proof {
        let rv = views(r@);
        assert forall|x: Seq<char>| #[trigger] rv.contains(x) <==> up_views.contains(x) by {
            if rv.contains(x) {
                let k = choose|k: int| 0 <= k < rv.len() && rv[k] == x;
                assert(up_views[n - 1 - k] == x);
            }
            if up_views.contains(x) {
                let k = choose|k: int| 0 <= k < up_views.len() && up_views[k] == x;
                assert(rv[n - 1 - k] == x);
            }
        }
        assert forall|i: int, j: int| 0 <= i < j < rv.len() implies lex_lt(
            #[trigger] rv[j],
            #[trigger] rv[i],
        ) by {
            assert(lex_lt(up_views[n - 1 - j], up_views[n - 1 - i]));
        }
    }
    r
}

// ---------------------------------------------------------------------------
// Showing a conversation
// ---------------------------------------------------------------------------

/// A line of a conversation.
pub open spec fn shown(kind: Seq<char>, text: Seq<char>) -> JsonView {
    object(seq![("kind"@, JsonView::Str(kind)), ("text"@, JsonView::Str(text))])
}

/// The text of a message, unless it is empty.
pub open spec fn shown_text(kind: Seq<char>, content: Option<Seq<char>>) -> Seq<JsonView> {
    match content {
        Some(t) => if t.len() > 0 {
            seq![shown(kind, t)]
        } else {
            Seq::empty()
        },
        None => Seq::empty(),
    }
}

/// Tool calls as they are shown.
pub open spec fn shown_calls(calls: Seq<ToolCallView>) -> Seq<JsonView> {
    calls.map_values(|c: ToolCallView| shown("tool"@, c.name + "("@ + c.arguments + ")"@))
}

/// What is shown of a message: the texts of the user and the model, and tool calls. Instructions
/// and the results of tools are not shown.
pub open spec fn shown_message(m: MessageView) -> Seq<JsonView> {
    if m.role == "user"@ {
        shown_text("user"@, m.content)
    } else if m.role == "assistant"@ {
        shown_text("assistant"@, m.content) + shown_calls(crate::agent::calls_of(m))
    } else {
        Seq::empty()
    }
}

/// What is shown of a conversation.
pub open spec fn shown_conversation(s: Seq<MessageView>) -> Seq<JsonView>
    decreases s.len(),
{
    if s.len() == 0 {
        Seq::empty()
    } else {
        shown_conversation(s.drop_last()) + shown_message(s.last())
    }
}

fn shown_json(kind: &str, text: &str) -> (r: Json)
    ensures
        r.tree() == shown(kind@, text@),
{
    let list = vec![("kind", Json::string(kind)), ("text", Json::string(text))];
    assert(pair_views(list@) =~= seq![
        ("kind"@, JsonView::Str(kind@)),
        ("text"@, JsonView::Str(text@)),
    ]);
    object_of(list)
}

fn push_text(out: &mut Vec<Json>, kind: &str, content: &Option<String>)
    ensures
        trees(final(out)@) == trees(old(out)@) + shown_text(kind@, opt_view(*content)),
{
    let ghost was = trees(out@);
    match content {
        Some(t) => if !is_empty(t.as_str()) {
            let j = shown_json(kind, t.as_str());
            proof {
                lemma_trees_push(out@, j);
            }
            out.push(j);
        },
        None => {},
    }
    assert(trees(out@) =~= was + shown_text(kind@, opt_view(*content)));
}

fn push_calls(out: &mut Vec<Json>, calls: &Vec<ToolCall>)
    ensures
        trees(final(out)@) == trees(old(out)@) + shown_calls(call_views(calls@)),
{
    let ghost was = trees(out@);
    let ghost all = shown_calls(call_views(calls@));
    assert(was + all.take(0) =~= was);
    for i in 0..calls.len()
        invariant
            all == shown_calls(call_views(calls@)),
            trees(out@) == was + all.take(i as int),
    {
        let text = calls[i].function.name.clone().concat("(").concat(
            calls[i].function.arguments.as_str(),
        ).concat(")");
        let j = shown_json("tool", text.as_str());
        proof {
            lemma_trees_push(out@, j);
            assert(all[i as int] == j.tree());
        }
        out.push(j);
        assert(was + all.take(i + 1) =~= (was + all.take(i as int)).push(all[i as int]));
    }
    assert(all.take(calls@.len() as int) =~= all);
}

/// What is shown of the conversation of an agent.
pub fn renderable_messages(agent: &Agent) -> (r: Vec<Json>)
    ensures
        trees(r@) == shown_conversation(agent.conv()),
{
    let ghost conv = agent.conv();
    let mut out: Vec<Json> = Vec::new();
    assert(conv.take(0) =~= Seq::<MessageView>::empty());
    assert(trees(out@) =~= Seq::<JsonView>::empty());
    for i in 0..agent.messages.len()
        invariant
            conv == agent.conv(),
            trees(out@) == shown_conversation(conv.take(i as int)),
    {
        let m = &agent.messages[i];
        let ghost was = trees(out@);
        assert(conv.take(i + 1).drop_last() =~= conv.take(i as int));
        assert(conv.take(i + 1).last() == m@);
        if str_eq(m.role.as_str(), "user") {
            push_text(&mut out, "user", &m.content);
        } else if str_eq(m.role.as_str(), "assistant") {
            push_text(&mut out, "assistant", &m.content);
            match &m.tool_calls {
                Some(calls) => {
                    push_calls(&mut out, calls);
                },
                None => {},
            }
        }
        assert(trees(out@) =~= was + shown_message(m@));
    }
    assert(conv.take(agent.messages@.len() as int) =~= conv);
    out
}

} // verus!

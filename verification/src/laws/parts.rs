//! Laws of parts: the mathematical value of a record holds each of its fields, and that of a list
//! holds each of its entries, in order.

use vstd::prelude::*;

#[allow(unused_imports)]
use crate::agent::{budget_text, event_views, limit_text, AgentEvent, EventView};
#[allow(unused_imports)]
use crate::cli::{notice_views, subtitle_text, title_text, usage_notices, Notice, Preset};
#[allow(unused_imports)]
use crate::closure::{deps_of, project_answer, versions_answer, Closure};
#[allow(unused_imports)]
use crate::curseforge::CfFileMeta;
#[allow(unused_imports)]
use crate::database::{feedback_views, pack_views, weight_views, FeedbackRecord, PackRecord};
#[allow(unused_imports)]
use crate::history::{saved_views, SavedFile};
#[allow(unused_imports)]
use crate::json::{object_map, opt_view, str_array, trees, Json, JsonView};
#[allow(unused_imports)]
use crate::llm::{
    call_tree, call_views, concat_all, message_views, no_usage, tool_trees, usage_of, Message,
    ToolCall, ToolCallView, ToolDef,
};
#[allow(unused_imports)]
use crate::modrinth::{
    hit_views, nested_views, param_views, Dependency, Hit, ModVersion, Project,
};
#[allow(unused_imports)]
use crate::number::dec;
#[allow(unused_imports)]
use crate::pipeline::{scored_views, ScoredHit};
#[allow(unused_imports)]
use crate::text::views;
#[allow(unused_imports)]
use crate::tools::build_pack::{file_views, BuildView, IndexFile, PackBuild};
#[allow(unused_imports)]
use crate::tools::repair::PackRepair;
#[allow(unused_imports)]
use crate::tools::{
    build_modpack_schema, recommend_new_mods_schema, record_feedback_schema, repair_pack_schema,
    search_mods_schema, update_views, ProgressUpdate,
};

verus! {

/// A list of texts holds the value of each of them, in order; and so do lists of lists and of
/// pairs.
pub proof fn lemma_lists_of_texts(
    v: Seq<String>,
    n: Seq<Vec<String>>,
    p: Seq<(String, String)>,
    w: Seq<(String, i64)>,
    i: int,
)
    ensures
        views(v).len() == v.len(),
        0 <= i < v.len() ==> views(v)[i] == v[i]@,
        nested_views(n).len() == n.len(),
        0 <= i < n.len() ==> nested_views(n)[i] == views(n[i]@),
        param_views(p).len() == p.len(),
        0 <= i < p.len() ==> param_views(p)[i] == (p[i].0@, p[i].1@),
        weight_views(w).len() == w.len(),
        0 <= i < w.len() ==> weight_views(w)[i].0 == w[i].0@ && weight_views(w)[i].1 == w[i].1,
{
}

/// A conversation holds each of its messages in order, with what was said, by whom, and the calls
/// of tools in order.
pub proof fn lemma_messages_of_a_conversation(s: Seq<Message>, m: Message, c: Seq<ToolCall>, i: int)
    ensures
        message_views(s).len() == s.len(),
        0 <= i < s.len() ==> message_views(s)[i] == s[i]@,
        m@.role == m.role@,
        m.content matches Some(t) ==> m@.content == Some(t@),
        m.content is None ==> m@.content is None,
        m.tool_calls matches Some(v) ==> m@.tool_calls == Some(call_views(v@)),
        m.tool_calls is None ==> m@.tool_calls is None,
        m.tool_call_id matches Some(t) ==> m@.tool_call_id == Some(t@),
        m.tool_call_id is None ==> m@.tool_call_id is None,
        call_views(c).len() == c.len(),
        0 <= i < c.len() ==> call_views(c)[i].id == c[i].id@ && call_views(c)[i].call_type
            == c[i].call_type@ && call_views(c)[i].name == c[i].function.name@ && call_views(
            c,
        )[i].arguments == c[i].function.arguments@,
{
}

/// A call of a tool is sent with its id, the name of the tool and the arguments, and the tools are
/// offered in order.
pub proof fn lemma_call_as_sent(c: ToolCallView, s: Seq<ToolDef>, i: int)
    ensures
        call_tree(c).str_at("id"@) == Some(c.id),
        call_tree(c).str_at("type"@) == Some(c.call_type),
        call_tree(c).get("function"@) matches Some(f) && f.str_at("name"@) == Some(c.name)
            && f.str_at("arguments"@) == Some(c.arguments),
        tool_trees(s).len() == s.len(),
        0 <= i < s.len() ==> tool_trees(s)[i] == s[i].tree(),
{
    reveal_with_fuel(object_map, 4);
    reveal_strlit("id");
    reveal_strlit("type");
    reveal_strlit("function");
    reveal_strlit("name");
    reveal_strlit("arguments");
    assert("id"@.len() == 2 && "type"@.len() == 4 && "function"@.len() == 8 && "name"@.len() == 4
        && "arguments"@.len() == 9);
}

/// Pieces of text are put together in order.
pub proof fn lemma_pieces_are_put_together(a: Seq<Seq<char>>, b: Seq<Seq<char>>, t: Seq<char>)
    ensures
        concat_all(a + b) == concat_all(a) + concat_all(b),
        concat_all(seq![t]) == t,
    decreases b.len(),
{
    reveal_with_fuel(concat_all, 2);
    assert(seq![t].drop_last() =~= Seq::<Seq<char>>::empty());
    assert(concat_all(seq![t]) =~= t);
    if b.len() == 0 {
        assert(a + b =~= a);
        assert(concat_all(a) + concat_all(b) =~= concat_all(a));
    } else {
        lemma_pieces_are_put_together(a, b.drop_last(), t);
        assert((a + b).drop_last() =~= a + b.drop_last());
        assert((a + b).last() == b.last());
        assert(concat_all(a) + concat_all(b.drop_last()) + b.last() =~= concat_all(a) + (concat_all(
            b.drop_last(),
        ) + b.last()));
    }
}

/// Counts of tokens that are not numbers count for nothing, all three of them.
pub proof fn lemma_counts_that_cannot_be_read(u: JsonView)
    ensures
        u.get("prompt_tokens"@) matches Some(v) && u.u64_at("prompt_tokens"@) is None ==> usage_of(
            u,
        ) == no_usage(),
        u.get("completion_tokens"@) matches Some(v) && u.u64_at("completion_tokens"@) is None
            ==> usage_of(u) == no_usage(),
        u.get("total_tokens"@) matches Some(v) && u.u64_at("total_tokens"@) is None ==> usage_of(u)
            == no_usage(),
        no_usage().prompt_tokens == 0 && no_usage().completion_tokens == 0
            && no_usage().total_tokens == 0,
{
}

/// What is said where the tools were called too often, or the budget is used up.
pub proof fn lemma_why_a_turn_stops(limit: u32, budget: u64)
    ensures
        limit_text(limit) == "工具调用次数超过上限 "@ + dec(limit as nat)
            + " (可在 config.toml 的 [llm] max_tool_iterations 调整), 本轮中止"@,
        budget_text(budget) == "已达到 token 预算 ("@ + dec(budget as nat)
            + "), 为避免超支本轮中止。可在 config.toml 调整 token_budget"@,
{
}

/// An event holds what it tells, and the events come in order.
pub proof fn lemma_events_in_order(s: Seq<AgentEvent>, e: AgentEvent, i: int)
    ensures
        event_views(s).len() == s.len(),
        0 <= i < s.len() ==> event_views(s)[i] == s[i]@,
        e matches AgentEvent::ToolCall { name, args } ==> e@ == (EventView::ToolCall {
            name: name@,
            args: args@,
        }),
        e matches AgentEvent::ToolResult { name, ok } ==> e@ == (EventView::ToolResult {
            name: name@,
            ok,
        }),
        e matches AgentEvent::Progress { text, current, total } ==> e@ == (EventView::Progress {
            text: text@,
            current,
            total,
        }),
        e matches AgentEvent::ReplyDelta { text } ==> e@ == (EventView::ReplyDelta { text: text@ }),
        e matches AgentEvent::Reply { text } ==> e@ == (EventView::Reply { text: text@ }),
        e matches AgentEvent::LlmUsage { prompt_tokens, completion_tokens, total_tokens } ==> e@ == (
        EventView::LlmUsage { prompt_tokens, completion_tokens, total_tokens }),
{
}

/// Reports, notices and saved files come in order, each with all that it holds.
pub proof fn lemma_reports_in_order(
    u: Seq<ProgressUpdate>,
    n: Seq<Notice>,
    f: Seq<SavedFile>,
    i: int,
)
    ensures
        update_views(u).len() == u.len(),
        0 <= i < u.len() ==> update_views(u)[i] == (u[i].text@, u[i].current, u[i].total),
        notice_views(n).len() == n.len(),
        0 <= i < n.len() ==> notice_views(n)[i] == (n[i].error, n[i].text@),
        saved_views(f).len() == f.len(),
        0 <= i < f.len() ==> saved_views(f)[i] == (f[i].name@, f[i].saved),
{
}

/// A mod that was found holds all that the service says of it, and mods come in order, with their
/// scores where they have them.
pub proof fn lemma_mods_in_order(s: Seq<Hit>, r: Seq<ScoredHit>, h: Hit, i: int)
    ensures
        hit_views(s).len() == s.len(),
        0 <= i < s.len() ==> hit_views(s)[i] == s[i]@,
        scored_views(r).len() == r.len(),
        0 <= i < r.len() ==> scored_views(r)[i].0 == r[i].hit@ && scored_views(r)[i].1
            == r[i].score,
        h@.slug == h.slug@ && h@.title == h.title@ && h@.description == h.description@,
        h@.author == h.author@ && h@.downloads == h.downloads,
        h@.display_categories == views(h.display_categories@),
        h@.versions == views(h.versions@),
{
}

/// Ratings and packs hold all that is kept of them, and come in order.
pub proof fn lemma_records_in_order(
    s: Seq<FeedbackRecord>,
    q: Seq<PackRecord>,
    f: FeedbackRecord,
    p: PackRecord,
    i: int,
)
    ensures
        feedback_views(s).len() == s.len(),
        0 <= i < s.len() ==> feedback_views(s)[i] == s[i]@,
        pack_views(q).len() == q.len(),
        0 <= i < q.len() ==> pack_views(q)[i] == q[i]@,
        f@.slug == f.slug@ && f@.verdict == f.verdict@ && f@.tags == views(f.tags@),
        f@.game_version == f.game_version@ && f@.loader == f.loader@,
        f@.source == f.source@ && f@.timestamp == f.timestamp@,
        p@.name == p.name@ && p@.mod_slugs == views(p.mod_slugs@) && p@.created_at == p.created_at@,
{
}

/// The files of a pack hold all that is kept of them, and come in order; and so do those of
/// CurseForge.
pub proof fn lemma_files_in_order(s: Seq<IndexFile>, f: IndexFile, m: CfFileMeta, i: int)
    ensures
        file_views(s).len() == s.len(),
        0 <= i < s.len() ==> file_views(s)[i] == s[i]@,
        f@.path == f.path@ && f@.sha1 == f.sha1@ && f@.sha512 == f.sha512@,
        f@.client == f.client@ && f@.server == f.server@ && f@.url == f.url@ && f@.size == f.size,
        m@.mod_id == m.mod_id && m@.file_id == m.file_id && m@.filename == m.filename@,
        m@.url == m.url@ && m@.sha1 == m.sha1@ && m@.sha512 == m.sha512@ && m@.size == m.size,
        m@.depends == views(m.depends@),
{
}

/// What a release declares to depend on is taken over as it stands, and so are the answers of the
/// catalogue.
pub proof fn lemma_declared_dependencies(
    s: Seq<Dependency>,
    v: Vec<ModVersion>,
    p: Project,
    e: String,
    i: int,
)
    ensures
        deps_of(s).len() == s.len(),
        0 <= i < s.len() ==> deps_of(s)[i] == (s[i].dependency_type@, opt_view(s[i].project_id)),
        versions_answer(Ok(v)) matches Ok(r) && r.len() == v@.len() && (0 <= i < v@.len() ==> r[i]
            == deps_of(v@[i].dependencies@)),
        versions_answer(Err(e)) == Err::<Seq<Seq<crate::closure::Dep>>, Seq<char>>(e@),
        project_answer(Ok(p)) == Some(p.slug@),
        project_answer(Err(e)) is None,
{
}

/// The state of the work on a pack, of a repair and of a search for dependencies is all that was
/// collected in it.
pub proof fn lemma_state_of_the_work(b: PackBuild, r: PackRepair, c: Closure, s: Seq<Json>, i: int)
    ensures
        trees(s).len() == s.len(),
        0 <= i < s.len() ==> trees(s)[i] == s[i].tree(),
        b@.seen == views(b.seen@) && b@.files == file_views(b.files@),
        b@.summaries == trees(b.summaries@) && b@.conflicts == trees(b.conflicts@),
        b@.total_size == b.total_size && b@.deps_done == b.deps_done,
        b@.final_slugs == views(b.final_slugs@) && b@.auto_added == views(b.auto_added@),
        b@.cf_deps == views(b.cf_deps@),
        r@.items == trees(r.items@) && r@.existing == views(r.existing@),
        r@.added == trees(r.added@) && r@.auto_added == views(r.auto_added@),
        r@.conflicts == views(r.conflicts@),
        c@.all == views(c.all@) && c@.auto_added == views(c.auto_added@),
        c@.conflicts == views(c.conflicts@) && c@.ids == views(c.ids@),
        c@.frontier == views(c.frontier@) && c@.added == views(c.added@),
        c@.ids_done == c.ids_done && c@.slugs_done == c.slugs_done && c@.pass == c.pass,
        c@.game_version == c.game_version@ && c@.loader == c.loader@,
{
}

/// The mods that a pack is to have are taken over, and each problem in finding them is recorded,
/// in order, behind what was recorded before.
pub proof fn lemma_mods_of_a_pack(
    b: BuildView,
    all: Seq<Seq<char>>,
    auto_added: Seq<Seq<char>>,
    problems: Seq<Seq<char>>,
    i: int,
)
    ensures
        ({
            let r = b.with_closure(all, auto_added, problems);
            &&& r.final_slugs == all && r.auto_added == auto_added
            &&& r.files == b.files && r.summaries == b.summaries && r.seen == b.seen
            &&& r.total_size == b.total_size && r.cf_deps == b.cf_deps && r.deps_done == b.deps_done
            &&& r.conflicts.len() == b.conflicts.len() + problems.len()
            &&& 0 <= i < b.conflicts.len() ==> r.conflicts[i] == b.conflicts[i]
            &&& 0 <= i < problems.len() ==> r.conflicts[b.conflicts.len() + i].str_at("issue"@)
                == Some(problems[i])
        }),
{
    reveal_with_fuel(object_map, 2);
}

/// The preset holds what was set, and the head of the terminal names version and model.
pub proof fn lemma_head_and_preset(p: Preset, t: Seq<char>)
    ensures
        p.game_version matches Some(s) ==> p@.game_version == Some(s@),
        p.game_version is None ==> p@.game_version is None,
        p.loader matches Some(s) ==> p@.loader == Some(s@),
        p.loader is None ==> p@.loader is None,
        p@.limit == p.limit,
        title_text(t) == "RustAgent v"@ + t + " · 测试版"@,
        subtitle_text(t) == "模型 "@ + t + " · mod 数据来自 Modrinth"@,
        usage_notices(Seq::empty()) == seq![
            (
                false,
                crate::cli::painted(
                    crate::cli::DIM@,
                    "用法: /set 版本=1.21.1 加载器=fabric 数量=10 (键: 版本/加载器/数量)"@,
                ),
            ),
        ],
        usage_notices(seq![t]).len() == 0,
{
}

/// What a search and a recommendation take: texts and a number.
pub proof fn lemma_arguments_of_a_search()
    ensures
        search_mods_schema().get("properties"@) matches Some(p) && (p.get("query"@) matches Some(q)
            && q.str_at("type"@) == Some("string"@)) && (p.get("game_version"@) matches Some(g)
            && g.str_at("type"@) == Some("string"@)) && (p.get("loader"@) matches Some(l)
            && l.str_at("type"@) == Some("string"@)) && (p.get("limit"@) matches Some(n)
            && n.str_at("type"@) == Some("integer"@)),
        recommend_new_mods_schema().get("properties"@) matches Some(p) && (p.get(
            "game_version"@,
        ) matches Some(g) && g.str_at("type"@) == Some("string"@)) && (p.get(
            "loader"@,
        ) matches Some(l) && l.str_at("type"@) == Some("string"@)) && (p.get(
            "count"@,
        ) matches Some(n) && n.str_at("type"@) == Some("integer"@)),
{
    reveal_with_fuel(object_map, 5);
    reveal_strlit("type");
    reveal_strlit("description");
    reveal_strlit("properties");
    reveal_strlit("required");
    reveal_strlit("query");
    reveal_strlit("game_version");
    reveal_strlit("loader");
    reveal_strlit("limit");
    reveal_strlit("count");
    assert("type"@.len() == 4 && "description"@.len() == 11 && "properties"@.len() == 10
        && "required"@.len() == 8);
    assert("query"@.len() == 5 && "game_version"@.len() == 12 && "loader"@.len() == 6);
    assert("limit"@.len() == 5 && "limit"@[0] == 'l' && "query"@[0] == 'q');
    assert("count"@.len() == 5);
}

/// What a build, a repair and a rating take: texts, lists of texts and a verdict.
pub proof fn lemma_arguments_of_a_build()
    ensures
        build_modpack_schema().get("properties"@) matches Some(p) && (p.get("name"@) matches Some(q)
            && q.str_at("type"@) == Some("string"@)) && (p.get("game_version"@) matches Some(g)
            && g.str_at("type"@) == Some("string"@)) && (p.get("loader"@) matches Some(l)
            && l.str_at("type"@) == Some("string"@)) && (p.get("mod_slugs"@) matches Some(m)
            && m.str_at("type"@) == Some("array"@)) && (p.get("cf_mods"@) matches Some(c)
            && c.str_at("type"@) == Some("array"@)),
        repair_pack_schema().get("properties"@) matches Some(p) && (p.get(
            "pack_name"@,
        ) matches Some(n) && n.str_at("type"@) == Some("string"@)) && (p.get(
            "add_slugs"@,
        ) matches Some(a) && a.str_at("type"@) == Some("array"@)),
        record_feedback_schema().get("properties"@) matches Some(p) && (p.get(
            "slug"@,
        ) matches Some(s) && s.str_at("type"@) == Some("string"@)) && (p.get(
            "verdict"@,
        ) matches Some(v) && v.get("enum"@) == Some(str_array(seq!["like"@, "dislike"@]))),
{
    reveal_with_fuel(object_map, 6);
    reveal_strlit("type");
    reveal_strlit("description");
    reveal_strlit("items");
    reveal_strlit("enum");
    reveal_strlit("properties");
    reveal_strlit("required");
    reveal_strlit("name");
    reveal_strlit("game_version");
    reveal_strlit("loader");
    reveal_strlit("mod_slugs");
    reveal_strlit("cf_mods");
    reveal_strlit("pack_name");
    reveal_strlit("add_slugs");
    reveal_strlit("slug");
    reveal_strlit("verdict");
    assert("type"@.len() == 4 && "type"@[0] == 't' && "enum"@[0] == 'e' && "description"@.len()
        == 11 && "items"@.len() == 5 && "properties"@.len() == 10 && "required"@.len() == 8);
    assert("name"@.len() == 4 && "game_version"@.len() == 12 && "loader"@.len() == 6);
    assert("mod_slugs"@.len() == 9 && "cf_mods"@.len() == 7);
    assert("pack_name"@[0] == 'p' && "add_slugs"@[0] == 'a');
    assert("slug"@.len() == 4 && "verdict"@.len() == 7);
}

} // verus!

//! Laws of single steps: what one of them leaves behind, and what is said of it.

use vstd::prelude::*;

#[allow(unused_imports)]
use crate::agent::{answer_text, EventView, Turn};
#[allow(unused_imports)]
use crate::cli::{active_after, box_line, mode_of, ModeView, ACCENT};
#[allow(unused_imports)]
use crate::config::{dir_or_here, flaw, found, url_scheme, Config};
#[allow(unused_imports)]
use crate::curseforge::{
    cdn_address, is_meta, lists_or_fails, none_fits, CfFile, CfFileMeta, CfProject,
};
#[allow(unused_imports)]
use crate::database::{is_first, FeedbackRow, Weight};
#[allow(unused_imports)]
use crate::history::{descending_names, shown, shown_text, SessionInfo};
#[allow(unused_imports)]
use crate::json::{
    json_compact, json_parsed, object, object_map, str_array, whole_float, JsonNumber, JsonView,
};
#[allow(unused_imports)]
use crate::laws::loaders::lemma_order_of_versions;
#[allow(unused_imports)]
use crate::laws::texts::{lemma_holds_in_between, lemma_split_at_separator};
#[allow(unused_imports)]
use crate::llm::{call_views, complete_lines, delta_of, incomplete_line, MessageView, ToolDef};
#[allow(unused_imports)]
use crate::manifest::{toml_entries, toml_items, Toml};
#[allow(unused_imports)]
use crate::modrinth::ModVersion;
#[allow(unused_imports)]
use crate::number::dec;
#[allow(unused_imports)]
use crate::order::lex_lt;
#[allow(unused_imports)]
use crate::sample::sample_index;
#[allow(unused_imports)]
use crate::selftest::is_checked;
#[allow(unused_imports)]
use crate::sidecar::{meta_tree, MetaView};
#[allow(unused_imports)]
use crate::text::{
    byte_len, contains_spec, has_extension, lemma_split_pieces, repeat_spec, split_spec, trim_spec,
    unicode_lower, views,
};
#[allow(unused_imports)]
use crate::tools::build_pack::{
    build_report, conflict, empty_build, index_tree, marked, pack_read, refusal, BuildArgs,
    BuildView, FileView,
};
#[allow(unused_imports)]
use crate::tools::build_run::{
    after_lookup, next_step, no_files, BuildStepView, RunView, StageView,
};
#[allow(unused_imports)]
use crate::tools::feedback::weights_map;
#[allow(unused_imports)]
use crate::tools::loader_meta::{
    dep_key, fabric_choice, forge_choice, is_loader_choice, is_newest, lemma_loaders_differ,
    version_numbers, LoaderAnswer, LoaderEntry,
};
#[allow(unused_imports)]
use crate::tools::repair::{
    after_outcome, after_outcomes, conflict_line, is_exact, is_fuzzy, repair_choice, resolved, stem,
    write_update, RepairOutcome, RepairView,
};
#[allow(unused_imports)]
use crate::tools::{cache_dir, choice_prop, describes, list_prop, prop, TOOL_INTERRUPTED};
#[allow(unused_imports)]
use crate::ui::{
    is_changed, is_line, is_mask, is_updated, kilobytes, line_of, missing, number_or_null,
    session_entry, text_or_null, SettingsRequest,
};

verus! {

/// A tool is described by its name, what it is for and what it takes, as a function.
pub proof fn lemma_description_of_a_tool(
    d: ToolDef,
    name: Seq<char>,
    description: Seq<char>,
    parameters: JsonView,
)
    requires
        describes(d, name, description, parameters),
    ensures
        d.def_type@ == "function"@ && d.function.name@ == name,
        d.function.description@ == description && d.function.parameters.tree() == parameters,
{
}

/// What is kept of a file says which it is, where it comes from, its digests, its size and what it
/// requires.
pub proof fn lemma_what_is_kept_of_a_file(m: MetaView)
    ensures
        meta_tree(m).u64_at("mod_id"@) == Some(m.mod_id),
        meta_tree(m).u64_at("file_id"@) == Some(m.file_id),
        meta_tree(m).str_at("filename"@) == Some(m.filename),
        meta_tree(m).str_at("url"@) == Some(m.url),
        meta_tree(m).str_at("sha1"@) == Some(m.sha1),
        meta_tree(m).str_at("sha512"@) == Some(m.sha512),
        meta_tree(m).u64_at("size"@) == Some(m.size),
        meta_tree(m).get("depends"@) == Some(str_array(m.depends)),
{
    reveal_with_fuel(object_map, 9);
    reveal_strlit("mod_id");
    reveal_strlit("file_id");
    reveal_strlit("filename");
    reveal_strlit("url");
    reveal_strlit("sha1");
    reveal_strlit("sha512");
    reveal_strlit("size");
    reveal_strlit("depends");
    assert("mod_id"@.len() == 6 && "file_id"@.len() == 7 && "filename"@.len() == 8 && "url"@.len()
        == 3 && "sha1"@.len() == 4 && "sha512"@.len() == 6 && "size"@.len() == 4
        && "depends"@.len() == 7);
    assert("mod_id"@[0] == 'm' && "sha512"@[0] == 's' && "sha1"@[1] == 'h' && "size"@[1] == 'i'
        && "file_id"@[0] == 'f' && "depends"@[0] == 'd');
}

/// The mods that a file requires are listed each once in the order of their names, or the error is
/// handed on.
pub proof fn lemma_list_of_what_is_required(
    r: Result<Vec<String>, String>,
    s: Result<Set<Seq<char>>, Seq<char>>,
)
    requires
        lists_or_fails(r, s),
    ensures
        s matches Ok(ids) ==> r is Ok && forall|x: Seq<char>| #[trigger]
            views(r->Ok_0@).contains(x) <==> ids.contains(x),
        s matches Ok(ids) ==> forall|i: int, j: int|
            0 <= i < j < r->Ok_0@.len() ==> lex_lt(
                #[trigger] views(r->Ok_0@)[i],
                #[trigger] views(r->Ok_0@)[j],
            ),
        s matches Err(e) ==> r is Err && r->Err_0@ == e,
{
}

/// A saved conversation is listed with its name, size and time, and with whether it can be read.
pub proof fn lemma_saved_conversation_as_listed(s: SessionInfo)
    ensures
        session_entry(s).str_at("name"@) == Some(s.name@),
        session_entry(s).u64_at("size_kb"@) == Some(s.size_kb),
        session_entry(s).str_at("modified"@) == Some(s.modified@),
        session_entry(s).get("valid"@) == Some(JsonView::Bool(s.valid)),
{
    reveal_with_fuel(object_map, 5);
    reveal_strlit("name");
    reveal_strlit("size_kb");
    reveal_strlit("modified");
    reveal_strlit("valid");
    assert("name"@.len() == 4 && "size_kb"@.len() == 7 && "modified"@.len() == 8 && "valid"@.len()
        == 5);
}

/// The names of saved conversations stand with the greatest first, none of them twice.
pub proof fn lemma_greatest_name_first(s: Seq<Seq<char>>, i: int, j: int)
    requires
        descending_names(s),
        0 <= i < j < s.len(),
    ensures
        lex_lt(s[j], s[i]),
{
}

/// An event is sent as the text of its value and the end of the line.
pub proof fn lemma_line_of_a_value(t: JsonView, s: Seq<char>)
    ensures
        line_of(t) == json_compact(t) + "\n"@,
        is_line(s, t) ==> s.len() > 0 && s.last() == '\n' && json_parsed(s.drop_last()) == Ok::<
            JsonView,
            Seq<char>,
        >(t),
        is_line(s, t) ==> forall|i: int| 0 <= i < s.len() - 1 ==> #[trigger] s[i] != '\n',
{
    if is_line(s, t) {
        assert forall|i: int| 0 <= i < s.len() - 1 implies #[trigger] s[i] != '\n' by {
            assert(s.drop_last()[i] == s[i]);
        }
    }
}

/// The mods of CurseForge are marked as such, in order.
pub proof fn lemma_mods_are_marked(s: Seq<Seq<char>>, i: int)
    ensures
        marked(s).len() == s.len(),
        0 <= i < s.len() ==> marked(s)[i] == "cf:"@ + s[i],
{
}

/// A pack begins with nothing in it.
pub proof fn lemma_pack_begins_empty()
    ensures
        empty_build().seen.len() == 0 && empty_build().files.len() == 0,
        empty_build().summaries.len() == 0 && empty_build().conflicts.len() == 0,
        empty_build().total_size == 0 && empty_build().deps_done == 0,
        empty_build().final_slugs.len() == 0 && empty_build().auto_added.len() == 0,
        empty_build().cf_deps.len() == 0,
{
}

/// What is not there is told as nothing, and what is there as it is.
pub proof fn lemma_what_may_be_absent(s: Seq<char>, n: u64)
    ensures
        text_or_null(Some(s)) == JsonView::Str(s),
        text_or_null(None) == JsonView::Null,
        number_or_null(Some(n)) == JsonView::Number(JsonNumber::Unsigned(n)),
        number_or_null(None) == JsonView::Null,
        kilobytes(Some(n)) == n / 1024,
        kilobytes(None) == 0,
{
}

/// Of the calls of a reply, the first that has no answer yet is run next; none is run where all
/// have one.
pub proof fn lemma_next_call(t: Turn, before: Turn, m: MessageView, i: int)
    ensures
        t.next < t.pending@.len() ==> t.call_to_run() == Some(t.pending@[t.next as int]@),
        t.next >= t.pending@.len() ==> t.call_to_run() is None,
        t.takes_up(m) ==> t.next == 0,
        t.takes_up(m) ==> (m.tool_calls matches Some(c) ==> call_views(t.pending@) == c),
        t.takes_up(m) && m.tool_calls is None ==> t.pending@.len() == 0,
        t.goes_on_from(before) ==> t.pending == before.pending && t.next == before.next + 1,
        t.next <= i < t.pending@.len() ==> t.waiting()[i - t.next] == t.pending@[i].id@,
        t.next <= t.pending@.len() ==> t.waiting().len() == t.pending@.len() - t.next,
{
    if t.takes_up(m) && m.tool_calls is None {
        assert(call_views(t.pending@).len() == t.pending@.len());
    }
}

/// A line that has come whole is taken, with what had come of it before; what comes behind the
/// last end of a line is kept.
pub proof fn lemma_lines_that_have_come(buf: Seq<char>, a: Seq<char>, b: Seq<char>)
    requires
        !buf.contains('\n'),
        !a.contains('\n'),
    ensures
        complete_lines(buf, a).len() == 0,
        incomplete_line(buf, a) == buf + a,
        complete_lines(buf, a + seq!['\n'] + b) == seq![buf + a] + complete_lines(Seq::empty(), b),
        incomplete_line(buf, a + seq!['\n'] + b) == incomplete_line(Seq::empty(), b),
{
    let t = buf + a;
    assert(!t.contains('\n')) by {
        if t.contains('\n') {
            let i = choose|i: int| 0 <= i < t.len() && t[i] == '\n';
            if i < buf.len() {
                assert(buf[i] == '\n');
            } else {
                assert(a[i - buf.len()] == '\n');
            }
        }
    }
    lemma_split_at_separator(t, b, '\n');
    lemma_split_pieces(b, '\n');
    assert(buf + (a + seq!['\n'] + b) =~= t + seq!['\n'] + b);
    assert(Seq::<char>::empty() + b =~= b);
    let whole = seq![t] + split_spec(b, '\n');
    assert(split_spec(b, '\n').len() > 0);
    assert(whole.drop_last() =~= seq![t] + split_spec(b, '\n').drop_last());
    assert(whole.last() == split_spec(b, '\n').last());
    assert(seq![t].drop_last() =~= Seq::<Seq<char>>::empty());
}

/// What was found for a repair is taken in one by one, in order; why there is nothing to add is
/// told with the name of the mod.
pub proof fn lemma_outcomes_in_order(
    r: RepairView,
    a: Seq<RepairOutcome>,
    o: RepairOutcome,
    slug: String,
    issue: String,
)
    ensures
        after_outcomes(r, Seq::empty()) == r,
        after_outcomes(r, a.push(o)) == after_outcome(after_outcomes(r, a), o),
        conflict_line(RepairOutcome::Conflict { slug, issue }) == Some(slug@ + ": "@ + issue@),
        o is Mod ==> conflict_line(o) is None,
{
    assert(a.push(o).drop_last() =~= a);
    assert(a.push(o).last() == o);
}

/// Checked settings are refused with what is wrong with them, and taken where nothing is.
pub proof fn lemma_flaw_is_told(r: Result<(), String>, f: Option<Seq<char>>)
    requires
        found(r, f),
    ensures
        f is None ==> r is Ok,
        f matches Some(t) ==> r is Err && r->Err_0@ == t,
{
}

/// A file that came in whole is fetched again from its place at CurseForge.
pub proof fn lemma_where_a_file_came_from(
    r: CfFileMeta,
    mod_id: u64,
    file: CfFile,
    jar: Seq<u8>,
)
    requires
        is_meta(r, mod_id, file, jar),
    ensures
        r.url@ == cdn_address(file.id, file.name@),
{
}

/// A line of the box has its text between two bars, filled up with blanks.
pub proof fn lemma_line_of_a_box(color: Seq<char>, s: Seq<char>, width: nat, inner: nat)
    requires
        width <= inner,
    ensures
        box_line(color, s, width, inner) == ACCENT@ + "│"@ + "\x1b[0m"@ + " "@ + (color + s
            + "\x1b[0m"@) + repeat_spec(' ', (inner - width) as nat) + " "@ + (ACCENT@ + "│"@
            + "\x1b[0m"@),
{
}

/// The line on progress stays while the reply streams in, and is gone once anything else is
/// written.
pub proof fn lemma_line_on_progress_stays(active: bool, streaming: bool, t: Seq<char>)
    ensures
        active_after(active, true, EventView::Reply { text: t }) == active,
        !active_after(active, false, EventView::Reply { text: t }),
        !active_after(active, streaming, EventView::ReplyDelta { text: t }),
        active_after(active, streaming, EventView::Progress { text: t, current: None, total: None }),
{
}

/// A key that is empty is shown as empty, and a short one not at all.
pub proof fn lemma_short_keys(r: Seq<char>, key: Seq<char>)
    requires
        is_mask(r, key),
    ensures
        key.len() == 0 ==> r.len() == 0,
        0 < key.len() && byte_len(key) <= 4 ==> r == "***"@,
{
    reveal_with_fuel(byte_len, 1);
}

/// What is said of settings that are refused.
pub proof fn lemma_why_settings_are_refused(
    r: Result<Config, String>,
    cfg: Config,
    req: SettingsRequest,
)
    requires
        is_updated(r, cfg, req),
    ensures
        req.model matches Some(s) && trim_spec(s@).len() == 0 ==> r is Err && r->Err_0@
            == "模型"@ + "不能为空"@,
        (req.model matches Some(m) ==> trim_spec(m@).len() > 0) && (req.base_url matches Some(s)
            && trim_spec(s@).len() == 0) ==> r is Err && r->Err_0@ == "API 地址"@ + "不能为空"@,
        missing(req) is None && r is Err ==> exists|new: Config, f: Seq<char>| #[trigger]
            is_changed(new, cfg, req) && flaw(new, url_scheme(new.llm.base_url@)) == Some(f)
                && r->Err_0@ == #[trigger] ("设置未保存: "@ + f),
{
    if missing(req) is None && r is Err {
        let new = choose|new: Config| #[trigger]
            is_changed(new, cfg, req) && (match flaw(new, url_scheme(new.llm.base_url@)) {
                Some(f) => r matches Err(e) && e@ == "设置未保存: "@ + f,
                None => r == Ok::<Config, String>(new),
            });
        let f = flaw(new, url_scheme(new.llm.base_url@))->0;
        assert(is_changed(new, cfg, req) && r->Err_0@ == "设置未保存: "@ + f);
    }
}

/// What the self test says of a pack that it refuses.
pub proof fn lemma_why_a_pack_is_refused(r: Result<(), String>, bytes: Seq<u8>, index: JsonView)
    requires
        is_checked(r, bytes),
    ensures
        pack_read(bytes) matches Err(e) ==> r is Err && r->Err_0@ == e,
        pack_read(bytes) == Ok::<JsonView, Seq<char>>(index) && !(index.get(
            "dependencies"@,
        ) matches Some(d) && d is Object) ==> r is Err && r->Err_0@
            == "schema 校验失败: dependencies 必须是对象"@,
        pack_read(bytes) == Ok::<JsonView, Seq<char>>(index) && (index.get(
            "dependencies"@,
        ) matches Some(d) && d is Object) && index.array_at("files"@) is None ==> r is Err
            && r->Err_0@ == "schema 校验失败: files 必须是数组"@,
{
}

/// A tool that failed is answered with its error, one that did not with what it gave.
pub proof fn lemma_answer_of_a_tool(t: Seq<char>)
    ensures
        answer_text(Ok(t)) == t,
        exists|v: JsonView|
            answer_text(Err(t)) == #[trigger] json_compact(v) && v.str_at("error"@) == Some(t),
{
    reveal_with_fuel(object_map, 2);
    let v = object(seq![("error"@, JsonView::Str(t))]);
    assert(v.str_at("error"@) == Some(t));
    assert(answer_text(Err(t)) == json_compact(v));
}

/// What is said of a mod of CurseForge that has no file that fits.
pub proof fn lemma_no_file_of_a_mod(a: BuildArgs, run: RunView, p: CfProject, after: RunView, i: nat)
    requires
        run.stage == StageView::LookUp(i),
        after_lookup(a, run, Ok(p), after),
        none_fits(p.files@, a.game_version@, a.loader@),
    ensures
        after.pack.conflicts == run.pack.conflicts.push(
            conflict(
                views(a.cf_mods@)[i as int],
                "CF 上没有 "@ + a.game_version@ + " / "@ + a.loader@ + " 的兼容文件"@,
            ),
        ),
{
}

/// Each tag is told with its weight.
pub proof fn lemma_weights_as_told(s: Seq<Weight>, tag: Seq<char>, n: int)
    ensures
        weights_map(Seq::empty()) == Map::<Seq<char>, JsonView>::empty(),
        weights_map(s.push((tag, n))) == weights_map(s).insert(tag, whole_float(n)),
{
    assert(s.push((tag, n)).drop_last() =~= s);
    assert(s.push((tag, n)).last() == (tag, n));
}

/// What is said where a loader has no version, or a pack no file, or a mod no release.
pub proof fn lemma_what_is_said_of_nothing(
    gv: Seq<char>,
    loader: Seq<char>,
    promos: Seq<(Seq<char>, Seq<char>)>,
    entries: Seq<LoaderEntry>,
    b: BuildView,
    v: Vec<ModVersion>,
)
    ensures
        forge_choice(gv, promos) matches Err(e) ==> e == "forge 无 "@ + gv + " 的可用版本"@,
        fabric_choice(entries) matches Err(e) ==> e == "fabric meta 无稳定版本"@,
        no_files(b) == "没有任何 mod 能解析出兼容版本, 组包中止. 详情: "@ + json_compact(
            JsonView::Array(b.conflicts),
        ),
        v@.len() == 0 ==> repair_choice(gv, loader, Ok(v)) == Err::<int, Seq<char>>(
            "无 "@ + gv + "/"@ + loader + " 兼容版本"@,
        ),
        dir_or_here(None) == "."@,
{
}

/// What is told where a repaired pack is written.
pub proof fn lemma_pack_is_written(n: nat)
    ensures
        write_update(n).0 == "写入整合包文件 (共 "@ + dec(n) + " 个 mod)"@,
{
}

/// The pack that is meant is one of those there, a pack file, and its name holds what was asked
/// for.
pub proof fn lemma_pack_that_is_meant(
    dir: Seq<char>,
    names: Seq<Seq<char>>,
    name: Seq<char>,
    lower: Seq<char>,
)
    ensures
        resolved(dir, names, name, lower) matches Ok(f) ==> names.contains(f) && has_extension(
            f,
            "mrpack"@,
        ) && contains_spec(unicode_lower(stem(f)), lower),
{
    let is_it = |n: Seq<char>| is_exact(n, lower);
    let is_like_it = |n: Seq<char>| is_fuzzy(n, lower);
    let exact = names.filter(is_it);
    let fuzzy = names.filter(is_like_it);
    if exact.len() > 0 {
        assert(exact.contains(exact[0]));
        names.lemma_filter_contains_rev(is_it, exact[0]);
        names.lemma_filter_pred(is_it, 0);
        assert(is_exact(exact[0], lower));
        assert(Seq::<char>::empty() + lower + Seq::<char>::empty() =~= lower);
        lemma_holds_in_between(lower, Seq::empty(), lower, Seq::empty());
    } else if fuzzy.len() == 1 {
        assert(fuzzy.contains(fuzzy[0]));
        names.lemma_filter_contains_rev(is_like_it, fuzzy[0]);
        names.lemma_filter_pred(is_like_it, 0);
        assert(is_fuzzy(fuzzy[0], lower));
    }
}

/// Where there is one version that fits, it is the newest.
pub proof fn lemma_only_version_is_newest(v: Seq<char>, ok: spec_fn(Seq<char>) -> bool)
    requires
        ok(v),
    ensures
        is_newest(seq![v], ok, 0),
{
    lemma_order_of_versions(version_numbers(v), 0, Seq::empty(), 0, Seq::empty());
}

/// The entries of a list or a table in a manifest are taken over in order.
pub proof fn lemma_entries_of_a_manifest(
    s: Seq<Toml>,
    e: Seq<(String, Toml)>,
    k: String,
    t: Toml,
    i: int,
)
    ensures
        toml_items(s).len() == s.len(),
        0 <= i < s.len() ==> toml_items(s)[i] == s[i].tree(),
        toml_entries(e.push((k, t))) == toml_entries(e).insert(k@, t.tree()),
{
    assert(e.push((k, t)).drop_last() =~= e);
    assert(e.push((k, t)).last() == (k, t));
}

/// Of the rows with one id the first counts, and only that.
pub proof fn lemma_first_row_of_an_id(rows: Seq<FeedbackRow>, i: int, j: int)
    requires
        0 <= j < i < rows.len(),
    ensures
        rows[j].id == rows[i].id ==> !is_first(rows, i),
        (forall|k: int| 0 <= k < i ==> (#[trigger] rows[k]).id != rows[i].id) ==> is_first(rows, i),
        is_first(rows, 0),
{
}

/// What is new in a reply stands in the first of its choices, whether they are a list or an object
/// with numbers for names.
pub proof fn lemma_what_is_new_in_a_reply(v: JsonView, s: Seq<JsonView>, c: JsonView)
    ensures
        v.get("choices"@) == Some(JsonView::Array(s)) && s.len() > 0 ==> delta_of(v) == s[0].get(
            "delta"@,
        ),
        v.get("choices"@) == Some(JsonView::Array(s)) && s.len() == 0 ==> delta_of(v) is None,
        v.get("choices"@) == Some(c) && !(c is Array) ==> match c.get("0"@) {
            Some(first) => delta_of(v) == first.get("delta"@),
            None => delta_of(v) is None,
        },
        v.get("choices"@) is None ==> delta_of(v) is None,
{
}

/// Why a pack is not begun: there is nothing to put in it, too much, or the loader is not known.
pub proof fn lemma_why_a_pack_is_not_begun(a: BuildArgs)
    ensures
        a.mod_slugs@.len() + a.cf_mods@.len() == 0 ==> refusal(a) == Some("mod 列表为空"@),
        a.mod_slugs@.len() + a.cf_mods@.len() > 100 ==> refusal(a) == Some(
            "所选 mod "@ + dec((a.mod_slugs@.len() + a.cf_mods@.len()) as nat)
                + " 个, 超出单包上限 "@ + dec(100)
                + " (依赖自动补全与报错修复补入不计入) —— 为考虑轻量化, 敬请谅解"@,
        ),
        0 < a.mod_slugs@.len() + a.cf_mods@.len() <= 100 && dep_key(a.loader@) is None ==> refusal(a)
            == Some("不支持的加载器: "@ + a.loader@ + " (可选: fabric / forge / neoforge / quilt)"@),
{
}

/// The description of a pack says by whom it was made and what it is for, and the report on it
/// whether there are conflicts.
pub proof fn lemma_words_on_a_pack(
    a: BuildArgs,
    key: Seq<char>,
    version: Seq<char>,
    files: Seq<FileView>,
    b: BuildView,
    path: Seq<char>,
    db: Seq<char>,
)
    ensures
        index_tree(a, key, version, files).str_at("versionId"@) == Some("rustagent-"@ + a.name@),
        index_tree(a, key, version, files).str_at("summary"@) == Some(
            "由 RustAgent 生成的整合包 (MC "@ + a.game_version@ + " / "@ + a.loader@ + ")"@,
        ),
        sample_index(files, version).str_at("versionId"@) == Some("rustagent-test-"@ + "1.21.1"@),
        sample_index(files, version).str_at("name"@) == Some("RustAgent 测试整合包"@),
        sample_index(files, version).str_at("summary"@) == Some(
            "RustAgent 生成的最小验证整合包"@,
        ),
        b.conflicts.len() == 0 ==> build_report(b, path, db).str_at("note"@) == Some("无冲突"@),
        b.conflicts.len() > 0 ==> build_report(b, path, db).str_at("note"@) == Some(
            "存在冲突条目, 请向用户说明"@,
        ),
{
    reveal_with_fuel(object_map, 9);
    reveal_strlit("versionId");
    reveal_strlit("name");
    reveal_strlit("summary");
    reveal_strlit("files");
    reveal_strlit("dependencies");
    assert("versionId"@.len() == 9 && "name"@.len() == 4 && "summary"@.len() == 7 && "files"@.len()
        == 5 && "dependencies"@.len() == 12);
}

/// What is fetched from CurseForge is kept in a directory beside the packs.
pub proof fn lemma_where_files_are_kept(p: Seq<char>)
    ensures
        cache_dir(None) == "cf-cache"@,
        cache_dir(Some(Seq::empty())) == "cf-cache"@,
        p.len() > 0 && p.last() == '/' ==> cache_dir(Some(p)) == p + "cf-cache"@,
        p.len() > 0 && p.last() != '/' ==> cache_dir(Some(p)) == p + "/"@ + "cf-cache"@,
{
}

/// What is said where no version of a loader can be taken.
pub proof fn lemma_no_version_of_a_loader(
    r: Result<Seq<char>, Seq<char>>,
    loader: Seq<char>,
    gv: Seq<char>,
    a: LoaderAnswer,
)
    requires
        is_loader_choice(r, loader, gv, a),
        r is Err,
    ensures
        loader == "fabric"@ ==> r->Err_0 == "fabric meta 无稳定版本"@,
        loader == "quilt"@ ==> r->Err_0 == "quilt meta 无稳定版本"@,
        loader == "forge"@ ==> r->Err_0 == "forge 无 "@ + gv + " 的可用版本"@,
        loader == "neoforge"@ ==> r->Err_0 == "neoforge 无 "@ + gv + " 的可用版本"@,
        loader != "fabric"@ && loader != "quilt"@ && loader != "forge"@ && loader != "neoforge"@
            ==> r->Err_0 == "不支持的加载器: "@ + loader,
{
    lemma_loaders_differ();
}

/// Mods of CurseForge are not looked up where that is switched off, nor once the user has asked to
/// stop; else the next of them is.
pub proof fn lemma_lookups(a: BuildArgs, run: RunView, interrupted: bool, i: nat)
    requires
        run.stage == StageView::LookUp(i),
        i < a.cf_mods@.len(),
    ensures
        next_step(a, run, interrupted, false).1 == Err::<BuildStepView, Seq<char>>(
            "cf_mods 需要在 config.toml 的 [curseforge] 打开 enabled 后使用"@,
        ),
        next_step(a, run, true, true).1 == Err::<BuildStepView, Seq<char>>(TOOL_INTERRUPTED@),
        next_step(a, run, false, true).1 == Ok::<BuildStepView, Seq<char>>(
            BuildStepView::LookUp { slug: views(a.cf_mods@)[i as int] },
        ),
        next_step(a, run, interrupted, false).0 == run && next_step(a, run, interrupted, true).0
            == run,
{
}

/// What is said shows up in a restored conversation, unless it is empty.
pub proof fn lemma_text_as_restored(kind: Seq<char>, t: Seq<char>)
    ensures
        t.len() > 0 ==> shown_text(kind, Some(t)) == seq![shown(kind, t)],
        t.len() == 0 ==> shown_text(kind, Some(t)).len() == 0,
        shown_text(kind, None).len() == 0,
{
}

/// What is said where the newest release of a mod has no file.
pub proof fn lemma_release_without_files(gv: Seq<char>, loader: Seq<char>, v: Vec<ModVersion>)
    requires
        v@.len() > 0,
        v@[0].files@.len() == 0,
    ensures
        repair_choice(gv, loader, Ok(v)) == Err::<int, Seq<char>>("兼容版本没有可下载文件"@),
{
}

/// An argument of a tool is described by its type and by what it is for.
pub proof fn lemma_description_of_an_argument(
    kind: Seq<char>,
    d: Seq<char>,
    choices: Seq<Seq<char>>,
)
    ensures
        prop(kind, d).str_at("type"@) == Some(kind) && prop(kind, d).str_at("description"@) == Some(
            d,
        ),
        list_prop(d).str_at("type"@) == Some("array"@) && list_prop(d).str_at("description"@)
            == Some(d),
        list_prop(d).get("items"@) matches Some(t) && t.str_at("type"@) == Some("string"@),
        choice_prop(choices, d).str_at("type"@) == Some("string"@),
        choice_prop(choices, d).str_at("description"@) == Some(d),
        choice_prop(choices, d).get("enum"@) == Some(str_array(choices)),
{
    reveal_with_fuel(object_map, 4);
    reveal_strlit("type");
    reveal_strlit("description");
    reveal_strlit("items");
    reveal_strlit("enum");
    assert("type"@.len() == 4 && "type"@[0] == 't' && "enum"@[0] == 'e' && "description"@.len()
        == 11 && "items"@.len() == 5);
}

/// Arguments of the program that mean nothing are named.
pub proof fn lemma_unknown_argument(args: Seq<Seq<char>>)
    requires
        args.len() == 2,
        args[1] != "selftest"@,
        args[1] != "ui"@,
    ensures
        mode_of(args) == Err::<ModeView, Seq<char>>(
            "未知子命令 '"@ + args[1]
                + "' (可用: selftest / ui / repair; 不带参数进入交互对话)"@,
        ),
{
}

} // verus!

//! Laws of reports: what the user and the model are told of the whole.

use vstd::prelude::*;

#[allow(unused_imports)]
use crate::agent::{is_cut, EventView};
#[allow(unused_imports)]
use crate::archive::{archive_entry, EntryView};
#[allow(unused_imports)]
use crate::cli::{
    banner_text, bar, box_line, cleared, file_notice, is_shown, is_weight_line, painted,
    preset_parts, preset_status, weight_items, with_sign, PresetView,
};
#[allow(unused_imports)]
use crate::config::{flaw, url_scheme, Config};
#[allow(unused_imports)]
use crate::curseforge::{is_choice, none_fits, CfProject};
#[allow(unused_imports)]
use crate::database::{is_top, is_weights, weight_keys, weight_tags, FeedbackView, PackView, Weight};
#[allow(unused_imports)]
use crate::json::{json_parsed, object_map, str_array, JsonView};
#[allow(unused_imports)]
use crate::llm::{single_deltas, MessageView, ToolDef};
#[allow(unused_imports)]
use crate::manifest::TomlView;
#[allow(unused_imports)]
use crate::modrinth::{HitView, VersionFile};
#[allow(unused_imports)]
use crate::number::dec;
#[allow(unused_imports)]
use crate::order::{is_descending, lemma_sorted_set_unique};
#[allow(unused_imports)]
use crate::pipeline::{is_by_taste, is_ranking, score_of};
#[allow(unused_imports)]
use crate::sample::{hit_text, sample_file, sample_index};
#[allow(unused_imports)]
use crate::selftest::is_checked;
#[allow(unused_imports)]
use crate::text::{join_spec, views};
#[allow(unused_imports)]
use crate::tools::build_pack::{conflict, file_tree, pack_read, BuildArgs, FileView};
#[allow(unused_imports)]
use crate::tools::build_run::{after_lookup, RunView, StageView};
#[allow(unused_imports)]
use crate::tools::feedback::{is_profile, profile_tree};
#[allow(unused_imports)]
use crate::tools::search::recent;
#[allow(unused_imports)]
use crate::tools::{
    build_modpack_schema, empty_schema, recommend_new_mods_schema, record_feedback_schema,
    repair_pack_schema, search_mods_schema,
};
#[allow(unused_imports)]
use crate::ui::{is_changed, is_shown_profile, is_updated, missing, shown_profile, SettingsRequest};

verus! {

proof fn lemma_weights_unique(a: Seq<Weight>, b: Seq<Weight>, ratings: Seq<FeedbackView>)
    requires
        is_weights(a, ratings),
        is_weights(b, ratings),
    ensures
        a == b,
{
    assert forall|t: Seq<char>| #[trigger]
        weight_tags(a).contains(t) <==> weight_tags(b).contains(t) by {}
    lemma_sorted_set_unique(weight_tags(a), weight_tags(b));
    assert(weight_tags(a).len() == a.len() && weight_tags(b).len() == b.len());
    assert forall|i: int| 0 <= i < a.len() implies a[i] == b[i] by {
        assert(weight_tags(a)[i] == a[i].0 && weight_tags(b)[i] == b[i].0);
    }
    assert(a =~= b);
}

/// The score of a mod that is recommended is what the ratings of the user say of its categories,
/// and no better one stands behind it.
pub proof fn lemma_ranked_by_the_ratings(
    r: Seq<(HitView, int)>,
    hits: Seq<HitView>,
    ratings: Seq<FeedbackView>,
    w: Seq<Weight>,
    i: int,
    j: int,
)
    requires
        is_by_taste(r, hits, ratings),
        is_weights(w, ratings),
        forall|k: int|
            0 <= k < hits.len() ==> i128::MIN <= score_of(
                (#[trigger] hits[k]).display_categories,
                w,
            ) <= i128::MAX,
    ensures
        r.len() == hits.len(),
        0 <= i < r.len() ==> r[i].1 == score_of(r[i].0.display_categories, w),
        0 <= i < j < r.len() ==> r[i].1 >= r[j].1,
{
    let (v, draws) = choose|v: Seq<Weight>, draws: Seq<u64>| #[trigger]
        is_ranking(r, hits, v, draws) && is_weights(v, ratings) && draws.len() == hits.len();
    lemma_weights_unique(v, w, ratings);
    crate::pipeline::lemma_ranking_is_a_permutation(r, hits, w, draws);
    if 0 <= i < j < r.len() {
        crate::laws::taste::lemma_ties_in_a_ranking(r, hits, w, draws, i, j);
    }
}

/// The profile that the model is told is that of the ratings and packs of the user.
pub proof fn lemma_profile_is_of_the_user(
    t: JsonView,
    ratings: Seq<FeedbackView>,
    packs: Seq<PackView>,
    w: Seq<Weight>,
)
    requires
        is_profile(t, ratings, packs),
        is_weights(w, ratings),
    ensures
        exists|top: Seq<Seq<char>>| #[trigger]
            is_top(top, w, 5) && t == profile_tree(ratings, packs, w, top),
{
    let (u, top, v) = choose|u: Seq<Weight>, top: Seq<Seq<char>>, v: Seq<Weight>|
        #![trigger profile_tree(ratings, packs, u, top), is_top(top, v, 5)]
        is_weights(u, ratings) && is_weights(v, ratings) && is_top(top, v, 5) && t == profile_tree(
            ratings,
            packs,
            u,
            top,
        );
    lemma_weights_unique(u, w, ratings);
    lemma_weights_unique(v, w, ratings);
    assert(is_top(top, w, 5));
}

/// The page shows the profile of the user: the tags in the order of the distance of their weights
/// from zero, and every pack.
pub proof fn lemma_page_shows_the_user(
    t: JsonView,
    ratings: Seq<FeedbackView>,
    packs: Seq<PackView>,
    w: Seq<Weight>,
    i: int,
)
    requires
        is_shown_profile(t, ratings, packs),
        is_weights(w, ratings),
    ensures
        exists|order: Seq<usize>| #[trigger]
            is_descending(crate::ui::strength_keys(w), order) && t.array_at("tag_weights"@) == Some(
                crate::ui::strongest(w, order),
            ),
        t.str_at("summary"@) == Some(crate::database::summary_text(ratings, packs.len())),
        t.array_at("packs"@) matches Some(p) && p.len() == packs.len() && (0 <= i < packs.len()
            ==> p[i] == crate::tools::feedback::pack_tree(packs[i])),
{
    reveal_with_fuel(object_map, 4);
    reveal_strlit("summary");
    reveal_strlit("tag_weights");
    reveal_strlit("packs");
    assert("summary"@.len() == 7 && "tag_weights"@.len() == 11 && "packs"@.len() == 5);
    let (v, order) = choose|v: Seq<Weight>, order: Seq<usize>| #[trigger]
        shown_profile(ratings, packs, v, order) == t && is_weights(v, ratings) && is_descending(
            crate::ui::strength_keys(v),
            order,
        );
    lemma_weights_unique(v, w, ratings);
    assert(is_descending(crate::ui::strength_keys(w), order));
}

/// The line on the taste of the user names the eight tags with the greatest weights, the greatest
/// first, each with its weight.
pub proof fn lemma_line_on_the_taste(r: Seq<char>, s: Seq<Weight>)
    requires
        is_weight_line(r, s),
    ensures
        exists|order: Seq<usize>, items: Seq<Seq<char>>|
            #![trigger is_descending(weight_keys(s), order), join_spec(items, "  "@)]
            is_descending(weight_keys(s), order) && r == "口味权重: "@ + join_spec(items, "  "@)
                && items.len() == (if s.len() < 8 {
                s.len()
            } else {
                8
            }) && forall|i: int|
                0 <= i < items.len() ==> #[trigger] items[i] == s[order[i] as int].0 + "="@
                    + with_sign(s[order[i] as int].1),
{
    let order = choose|order: Seq<usize>| #[trigger]
        is_descending(weight_keys(s), order) && r == "口味权重: "@ + join_spec(
            weight_items(s, order, 8),
            "  "@,
        );
    let items = weight_items(s, order, 8);
    assert(r == "口味权重: "@ + join_spec(items, "  "@));
}

/// What is written for a call of a tool, for its end and for progress.
pub proof fn lemma_lines_of_a_turn(
    r: Seq<char>,
    active: bool,
    streaming: bool,
    filled: nat,
    name: Seq<char>,
    args: Seq<char>,
    text: Seq<char>,
    current: Option<u64>,
    total: Option<u64>,
)
    ensures
        is_shown(r, active, streaming, EventView::ToolCall { name, args }, filled) ==> exists|
            cut: Seq<char>,
        | #[trigger]
            is_cut(cut, args, 70) && r == cleared(active) + ("  "@ + painted(
                crate::cli::DIM@,
                "⚙"@,
            ) + " "@ + painted(crate::cli::ACCENT@, name) + "("@ + cut + ")"@) + "\n"@,
        is_shown(r, active, streaming, EventView::ToolResult { name, ok: true }, filled) ==> r
            == cleared(active) + ("  "@ + painted(crate::cli::GREEN@, "✓"@) + " "@ + painted(
            crate::cli::DIM@,
            name,
        )) + "\n"@,
        is_shown(r, active, streaming, EventView::ToolResult { name, ok: false }, filled) ==> r
            == cleared(active) + ("  "@ + painted(crate::cli::RED@, "✗"@) + " "@ + name) + "\n"@,
        is_shown(r, active, streaming, EventView::Progress { text, current, total }, filled) ==> r
            == cleared(active) + "  "@ + painted(crate::cli::YELLOW@, "⏳"@) + " "@ + bar(
            current,
            total,
            filled,
        ) + text,
        painted(name, text) == name + text + "\x1b[0m"@,
{
}

/// A file that was written or read is named, and so is the error where it was not.
pub proof fn lemma_notices_on_files(done: Seq<char>, path: String, e: String)
    ensures
        file_notice(done, Ok(path)) == (
            false,
            painted(crate::cli::GREEN@, done) + " "@ + painted(crate::cli::DIM@, path@),
        ),
        file_notice(done, Err(e)) == (true, painted(crate::cli::RED@, "✗ "@ + e@)),
{
}

/// The preset is shown by its parts, or it is said that there is none.
pub proof fn lemma_status_of_the_preset(p: PresetView)
    ensures
        p.game_version is None && p.loader is None && p.limit is None ==> preset_status(p)
            == "当前预设: 无 (消息将原样发送)"@,
        p.game_version is Some || p.loader is Some || p.limit is Some ==> preset_status(p)
            == painted(crate::cli::GREEN@, "✓ 当前预设:"@) + " "@ + painted(
            crate::cli::ACCENT@,
            join_spec(preset_parts(p), " "@),
        ),
{
}

/// The banner is a box of four lines around title and subtitle, wide enough for both, and help
/// below it.
pub proof fn lemma_banner(title: Seq<char>, sub: Seq<char>, wt: nat, ws: nat)
    ensures
        ({
            let b = banner_text(title, sub, wt, ws);
            let inner = if wt >= ws {
                wt
            } else {
                ws
            };
            &&& b.len() >= 4
            &&& b[1] == box_line(crate::cli::BOLD@, title, wt, inner)
            &&& b[2] == box_line(crate::cli::DIM@, sub, ws, inner)
            &&& b[0] == painted(
                crate::cli::ACCENT@,
                "╭"@ + crate::text::repeat_spec('─', inner + 2) + "╮"@,
            )
            &&& b[3] == painted(
                crate::cli::ACCENT@,
                "╰"@ + crate::text::repeat_spec('─', inner + 2) + "╯"@,
            )
        }),
{
}

/// Changed settings are taken where nothing is missing and nothing is wrong with them, and not
/// otherwise.
pub proof fn lemma_changed_settings_are_checked(
    r: Result<Config, String>,
    cfg: Config,
    req: SettingsRequest,
)
    requires
        is_updated(r, cfg, req),
    ensures
        missing(req) is Some ==> r is Err,
        r matches Ok(new) ==> missing(req) is None && is_changed(new, cfg, req) && flaw(
            new,
            url_scheme(new.llm.base_url@),
        ) is None,
        r is Err && missing(req) is None ==> exists|new: Config| #[trigger]
            is_changed(new, cfg, req) && flaw(new, url_scheme(new.llm.base_url@)) is Some,
{
}

/// A mod of CurseForge that was looked up: where it has a file that fits, the one that is chosen is
/// fetched next; where it has none, or could not be looked up, that is told and the next is looked
/// up.
pub proof fn lemma_looked_up_mod(
    a: BuildArgs,
    run: RunView,
    p: CfProject,
    e: String,
    after: RunView,
    i: nat,
)
    requires
        run.stage == StageView::LookUp(i),
        i < a.cf_mods@.len(),
    ensures
        after_lookup(a, run, Err(e), after) ==> after.stage == StageView::LookUp(i + 1)
            && after.pack.conflicts == run.pack.conflicts.push(
            conflict(views(a.cf_mods@)[i as int], "cfwidget 查询失败: "@ + e@),
        ) && after.pack.files == run.pack.files,
        after_lookup(a, run, Ok(p), after) && none_fits(p.files@, a.game_version@, a.loader@)
            ==> after.stage == StageView::LookUp(i + 1) && after.pack.conflicts.len()
            == run.pack.conflicts.len() + 1 && after.pack.files == run.pack.files,
        after_lookup(a, run, Ok(p), after) && !none_fits(p.files@, a.game_version@, a.loader@)
            ==> after.pack == run.pack && (after.stage matches StageView::Fetch(j, q, k) && j == i
            && q == p && is_choice(p.files@, a.game_version@, a.loader@, k as int)),
{
}

/// A pack is read from the one entry of its archive that holds its description.
pub proof fn lemma_pack_is_read(bytes: Seq<u8>, s: Seq<char>)
    ensures
        archive_entry(bytes, "modrinth.index.json"@) == EntryView::Text(s) ==> pack_read(bytes)
            == json_parsed(s),
        !(archive_entry(bytes, "modrinth.index.json"@) is Text) ==> pack_read(bytes) is Err,
{
}

/// The self test accepts a pack whose description has dependencies and files, and refuses any
/// other.
pub proof fn lemma_self_test(r: Result<(), String>, bytes: Seq<u8>, index: JsonView)
    requires
        is_checked(r, bytes),
    ensures
        pack_read(bytes) is Err ==> r is Err,
        pack_read(bytes) == Ok::<JsonView, Seq<char>>(index) ==> (r is Ok <==> (index.get(
            "dependencies"@,
        ) matches Some(d) && d is Object) && (index.get("files"@) matches Some(f) && f is Array)),
{
}

/// What a search in the terminal shows of a mod.
pub proof fn lemma_hit_in_the_terminal(h: HitView)
    ensures
        hit_text(h).len() == 6,
        hit_text(h)[0] == "["@ + h.title + "] "@ + h.slug,
        hit_text(h)[1] == "  作者: "@ + h.author + " | 下载量: "@ + dec(h.downloads as nat),
        hit_text(h)[2] == "  简介: "@ + h.description,
        hit_text(h)[3] == "  分类: "@ + join_spec(h.display_categories, ", "@),
        hit_text(h)[4] == "  支持版本: 共"@ + dec(h.versions.len()) + "个, 最近: "@ + join_spec(
            recent(h.versions),
            ", "@,
        ),
{
}

/// The small pack holds the files of its mods, for the game version and the loader that it is for.
pub proof fn lemma_small_pack(f: VersionFile, files: Seq<FileView>, v: Seq<char>, i: int)
    ensures
        sample_file(f).path == "mods/"@ + f.filename@,
        sample_file(f).url == f.url@ && sample_file(f).size == f.size,
        sample_file(f).sha1 == f.hashes.sha1@ && sample_file(f).sha512 == f.hashes.sha512@,
        sample_file(f).client == "required"@ && sample_file(f).server == "required"@,
        sample_index(files, v).get("dependencies"@) matches Some(d) && d.str_at("minecraft"@)
            == Some("1.21.1"@) && d.str_at("fabric-loader"@) == Some(v),
        sample_index(files, v).array_at("files"@) matches Some(s) && s.len() == files.len() && (0
            <= i < files.len() ==> s[i] == file_tree(files[i])),
{
    reveal_with_fuel(object_map, 8);
    reveal_strlit("formatVersion");
    reveal_strlit("game");
    reveal_strlit("versionId");
    reveal_strlit("name");
    reveal_strlit("summary");
    reveal_strlit("files");
    reveal_strlit("dependencies");
    reveal_strlit("minecraft");
    reveal_strlit("fabric-loader");
    assert("formatVersion"@.len() == 13 && "game"@.len() == 4 && "versionId"@.len() == 9
        && "name"@.len() == 4 && "summary"@.len() == 7 && "files"@.len() == 5
        && "dependencies"@.len() == 12);
    assert("minecraft"@.len() == 9 && "fabric-loader"@.len() == 13);
}

/// A reply that does not come as a stream is handed on in one piece, unless it is empty.
pub proof fn lemma_reply_in_one_piece(m: MessageView, t: Seq<char>)
    ensures
        m.content == Some(t) && t.len() > 0 ==> single_deltas(m) == seq![t],
        m.content == Some(t) && t.len() == 0 ==> single_deltas(m).len() == 0,
        m.content is None ==> single_deltas(m).len() == 0,
{
}

/// A tool is offered to the model with its name, its description and what it takes.
pub proof fn lemma_tool_as_offered(d: ToolDef)
    ensures
        d.tree().str_at("type"@) == Some(d.def_type@),
        d.tree().get("function"@) matches Some(f) && f.str_at("name"@) == Some(d.function.name@)
            && f.str_at("description"@) == Some(d.function.description@) && f.get("parameters"@)
            == Some(d.function.parameters.tree()),
{
    reveal_with_fuel(object_map, 4);
    reveal_strlit("type");
    reveal_strlit("function");
    reveal_strlit("name");
    reveal_strlit("description");
    reveal_strlit("parameters");
    assert("type"@.len() == 4 && "function"@.len() == 8 && "name"@.len() == 4
        && "description"@.len() == 11 && "parameters"@.len() == 10);
}

/// The entries of a table are read by their keys, and texts from the entries that are texts.
pub proof fn lemma_entries_of_a_table(m: Map<Seq<char>, TomlView>, k: Seq<char>)
    ensures
        m.dom().contains(k) ==> TomlView::Table(m).get(k) == Some(m[k]),
        !m.dom().contains(k) ==> TomlView::Table(m).get(k) is None,
        m.dom().contains(k) ==> (match m[k] {
            TomlView::Str(s) => TomlView::Table(m).str_at(k) == Some(s),
            _ => TomlView::Table(m).str_at(k) is None,
        }),
{
}

/// What the arguments of a tool are described by: their names, and which of them must be given.
pub proof fn lemma_arguments_of_tools()
    ensures
        search_mods_schema().get("required"@) == Some(str_array(seq!["query"@])),
        build_modpack_schema().get("required"@) == Some(
            str_array(seq!["name"@, "game_version"@, "loader"@]),
        ),
        record_feedback_schema().get("required"@) == Some(str_array(seq!["slug"@, "verdict"@])),
        recommend_new_mods_schema().get("required"@) == Some(
            str_array(seq!["game_version"@, "loader"@]),
        ),
        repair_pack_schema().get("required"@) == Some(
            str_array(seq!["pack_name"@, "add_slugs"@]),
        ),
        search_mods_schema().str_at("type"@) == Some("object"@),
        build_modpack_schema().str_at("type"@) == Some("object"@),
        record_feedback_schema().str_at("type"@) == Some("object"@),
        recommend_new_mods_schema().str_at("type"@) == Some("object"@),
        repair_pack_schema().str_at("type"@) == Some("object"@),
        empty_schema().str_at("type"@) == Some("object"@),
{
    reveal_with_fuel(object_map, 4);
    reveal_strlit("type");
    reveal_strlit("properties");
    reveal_strlit("required");
    assert("type"@.len() == 4 && "properties"@.len() == 10 && "required"@.len() == 8);
}

} // verus!

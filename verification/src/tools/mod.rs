//! The tools that the model can call.

pub mod build_pack;
pub mod build_run;
pub mod feedback;
pub mod loader_meta;
pub mod repair;
pub mod search;

use vstd::prelude::*;
use vstd::string::StringExecFns;

use crate::config::{check_portable, parent_dir};
#[allow(unused_imports)]
use crate::config::{is_portable, lemma_parent_is_prefix, parent_of};
#[allow(unused_imports)]
use crate::json::{object, pair_views, str_array, JsonView};
use crate::json::{object_of, Json};
use crate::llm::ToolDef;
use crate::text::{chars_of, str_eq};
#[allow(unused_imports)]
use crate::text::views;

verus! {

/// What the error of an interrupted tool says.
pub const TOOL_INTERRUPTED: &'static str = "用户已打断";

/// How many mods the user may pick for one pack. Dependencies that are added do not count.
pub const MAX_USER_MODS_PER_PACK: usize = 100;

/// How far a tool is: a text, and where it can count, how many steps of how many.
pub struct ProgressUpdate {
    pub text: String,
    pub current: Option<u64>,
    pub total: Option<u64>,
}

/// The mathematical value of a [`ProgressUpdate`]: text, steps done, steps in all.
pub type UpdateView = (Seq<char>, Option<u64>, Option<u64>);

impl View for ProgressUpdate {
    type V = UpdateView;

    open spec fn view(&self) -> UpdateView {
        (self.text@, self.current, self.total)
    }
}

/// The views of a list of reports.
pub open spec fn update_views(s: Seq<ProgressUpdate>) -> Seq<UpdateView> {
    s.map_values(|u: ProgressUpdate| u@)
}

/// Stops a tool where the user has asked for it.
pub fn check_interrupt(interrupted: bool) -> (r: Result<(), String>)
    ensures
        match r {
            Ok(_) => !interrupted,
            Err(e) => interrupted && e@ == TOOL_INTERRUPTED@,
        },
{
    if interrupted {
        return Err(TOOL_INTERRUPTED.to_string());
    }
    Ok(())
}

/// The tools.
#[derive(Clone, Copy, Debug, PartialEq, Eq, Structural)]
pub enum Tool {
    SearchMods,
    BuildModpack,
    RecordFeedback,
    GetUserProfile,
    RecommendNewMods,
    RepairPack,
}

/// The tool with a name.
pub open spec fn tool_named(name: Seq<char>) -> Option<Tool> {
    if name == "search_mods"@ {
        Some(Tool::SearchMods)
    } else if name == "build_modpack"@ {
        Some(Tool::BuildModpack)
    } else if name == "record_feedback"@ {
        Some(Tool::RecordFeedback)
    } else if name == "get_user_profile"@ {
        Some(Tool::GetUserProfile)
    } else if name == "recommend_new_mods"@ {
        Some(Tool::RecommendNewMods)
    } else if name == "repair_pack"@ {
        Some(Tool::RepairPack)
    } else {
        None
    }
}

/// The tool with a name.
pub fn find_tool(name: &str) -> (r: Result<Tool, String>)
    ensures
        match r {
            Ok(t) => tool_named(name@) == Some(t),
            Err(e) => tool_named(name@) is None && e@ == "未知工具: "@ + name@,
        },
{
    if str_eq(name, "search_mods") {
        Ok(Tool::SearchMods)
    } else if str_eq(name, "build_modpack") {
        Ok(Tool::BuildModpack)
    } else if str_eq(name, "record_feedback") {
        Ok(Tool::RecordFeedback)
    } else if str_eq(name, "get_user_profile") {
        Ok(Tool::GetUserProfile)
    } else if str_eq(name, "recommend_new_mods") {
        Ok(Tool::RecommendNewMods)
    } else if str_eq(name, "repair_pack") {
        Ok(Tool::RepairPack)
    } else {
        Err("未知工具: ".to_string().concat(name))
    }
}

// ---------------------------------------------------------------------------
// The place of the tools
// ---------------------------------------------------------------------------

/// What the tools work with: whether CurseForge may be asked, where packs are written to, and
/// where the database is.
pub struct ToolRegistry {
    pub cf: bool,
    pub download_dir: String,
    pub db_path: String,
}

/// The directory for files of CurseForge, where `parent` is the directory part of the path of the
/// database.
pub open spec fn cache_dir(parent: Option<Seq<char>>) -> Seq<char> {
    match parent {
        Some(p) => if p.len() == 0 {
            "cf-cache"@
        } else if p.last() == '/' {
            p + "cf-cache"@
        } else {
            p + "/"@ + "cf-cache"@
        },
        None => "cf-cache"@,
    }
}

/// Whether a path names what is called `name` in a directory, with the separator that the system
/// wants between them.
pub open spec fn is_adjoined(r: Seq<char>, dir: Seq<char>, name: Seq<char>) -> bool {
    r == dir + name || r == dir + "/"@ + name || r == dir + "\\"@ + name
}

/// Whether a path begins with two backslashes.
pub open spec fn is_verbatim(s: Seq<char>) -> bool {
    s.len() >= 2 && s[0] == '\\' && s[1] == '\\'
}

/// `std::path::Path::join`: the directory with a name adjoined to it. Which separator is put
/// between them, if any, rests on the system. Of a directory that begins with two backslashes,
/// which some systems rewrite, nothing is said.
#[verifier::external_body]
fn join_dir(dir: &str, name: &str) -> (r: String)
    ensures
        !is_verbatim(dir@) && !name@.contains('/') && !name@.contains('\\') && !name@.contains(':')
            ==> is_adjoined(r@, dir@, name@),
{
    std::path::Path::new(dir).join(name).display().to_string()
}

/// The directory for files of CurseForge, where `parent` is the directory part of the path of the
/// database.
pub fn cache_dir_of(parent: Option<String>) -> (r: String)
    ensures
        match parent {
            Some(p) => if is_portable(p@) {
                r@ == cache_dir(Some(p@))
            } else {
                !is_verbatim(p@) ==> is_adjoined(r@, p@, "cf-cache"@)
            },
            None => r@ == cache_dir(None),
        },
{
    match parent {
        Some(p) => {
            let v = chars_of(p.as_str());
            if v.len() == 0 {
                "cf-cache".to_string()
            } else if !check_portable(p.as_str()) {
                proof {
                    reveal_strlit("cf-cache");
                }
                join_dir(p.as_str(), "cf-cache")
            } else if v[v.len() - 1] == '/' {
                p.concat("cf-cache")
            } else {
                p.concat("/").concat("cf-cache")
            }
        },
        None => "cf-cache".to_string(),
    }
}

impl ToolRegistry {
    /// Tools that work with the given directory and database.
    pub fn new(cf: bool, download_dir: &str, db_path: &str) -> (r: ToolRegistry)
        ensures
            r.cf == cf,
            r.download_dir@ == download_dir@,
            r.db_path@ == db_path@,
    {
        ToolRegistry { cf, download_dir: download_dir.to_string(), db_path: db_path.to_string() }
    }

    /// Turns CurseForge on or off.
    pub fn set_cf(&mut self, cf: bool)
        ensures
            final(self).cf == cf,
            final(self).download_dir == old(self).download_dir,
            final(self).db_path == old(self).db_path,
    {
        self.cf = cf;
    }

    /// The directory for files of CurseForge: beside the database.
    pub fn cf_cache_dir(&self) -> (r: String)
        ensures
            is_portable(self.db_path@) ==> r@ == cache_dir(parent_of(self.db_path@)),
    {
        let parent = parent_dir(self.db_path.as_str());
        proof {
            lemma_parent_is_prefix(self.db_path@);
        }
        cache_dir_of(parent)
    }
}

// ---------------------------------------------------------------------------
// Descriptions for the model
// ---------------------------------------------------------------------------

/// The schema of a value of the given type.
pub open spec fn prop(kind: Seq<char>, description: Seq<char>) -> JsonView {
    object(seq![("type"@, JsonView::Str(kind)), ("description"@, JsonView::Str(description))])
}

/// The schema of a list of strings.
pub open spec fn list_prop(description: Seq<char>) -> JsonView {
    object(
        seq![
            ("type"@, JsonView::Str("array"@)),
            ("items"@, object(seq![("type"@, JsonView::Str("string"@))])),
            ("description"@, JsonView::Str(description)),
        ],
    )
}

/// The schema of one of the given strings.
pub open spec fn choice_prop(choices: Seq<Seq<char>>, description: Seq<char>) -> JsonView {
    object(
        seq![
            ("type"@, JsonView::Str("string"@)),
            ("enum"@, str_array(choices)),
            ("description"@, JsonView::Str(description)),
        ],
    )
}

/// The schema of the arguments of a tool; `required` names those that must be given.
pub open spec fn schema(props: Seq<(Seq<char>, JsonView)>, required: Seq<Seq<char>>) -> JsonView {
    object(
        seq![
            ("type"@, JsonView::Str("object"@)),
            ("properties"@, object(props)),
            ("required"@, str_array(required)),
        ],
    )
}

fn make_prop(kind: &str, description: &str) -> (r: Json)
    ensures
        r.tree() == prop(kind@, description@),
{
    let list = vec![("type", Json::string(kind)), ("description", Json::string(description))];
    assert(pair_views(list@) =~= seq![
        ("type"@, JsonView::Str(kind@)),
        ("description"@, JsonView::Str(description@)),
    ]);
    object_of(list)
}

fn make_list_prop(description: &str) -> (r: Json)
    ensures
        r.tree() == list_prop(description@),
{
    let inner = vec![("type", Json::string("string"))];
    assert(pair_views(inner@) =~= seq![("type"@, JsonView::Str("string"@))]);
    let list = vec![
        ("type", Json::string("array")),
        ("items", object_of(inner)),
        ("description", Json::string(description)),
    ];
    assert(pair_views(list@) =~= seq![
        ("type"@, JsonView::Str("array"@)),
        ("items"@, object(seq![("type"@, JsonView::Str("string"@))])),
        ("description"@, JsonView::Str(description@)),
    ]);
    object_of(list)
}

fn make_schema(props: Vec<(&'static str, Json)>, required: Vec<String>) -> (r: Json)
    ensures
        r.tree() == schema(pair_views(props@), views(required@)),
{
    let ghost pv = pair_views(props@);
    let list = vec![
        ("type", Json::string("object")),
        ("properties", object_of(props)),
        ("required", Json::strings(&required)),
    ];
    assert(pair_views(list@) =~= seq![
        ("type"@, JsonView::Str("object"@)),
        ("properties"@, object(pv)),
        ("required"@, str_array(views(required@))),
    ]);
    object_of(list)
}

/// Whether a description of a tool is the given one.
pub open spec fn describes(
    d: ToolDef,
    name: Seq<char>,
    description: Seq<char>,
    parameters: JsonView,
) -> bool {
    &&& d.def_type@ == "function"@
    &&& d.function.name@ == name
    &&& d.function.description@ == description
    &&& d.function.parameters.tree() == parameters
}

/// The schema of the arguments of `search_mods`.
pub open spec fn search_mods_schema() -> JsonView {
    schema(
        seq![
            ("query"@, prop("string"@, "搜索关键词, 如 '装饰' 'explore' '性能优化'"@)),
            ("game_version"@, prop("string"@, "Minecraft 版本, 如 1.21.1"@)),
            ("loader"@, prop("string"@, "mod 加载器: fabric / forge / neoforge / quilt"@)),
            ("limit"@, prop("integer"@, "返回数量, 默认 8"@)),
        ],
        seq!["query"@],
    )
}

/// The schema of the arguments of `build_modpack`.
pub open spec fn build_modpack_schema() -> JsonView {
    schema(
        seq![
            ("name"@, prop("string"@, "整合包名称, 将作为输出文件名"@)),
            ("game_version"@, prop("string"@, "Minecraft 版本"@)),
            ("loader"@, prop("string"@, "mod 加载器: fabric / forge / neoforge / quilt"@)),
            ("mod_slugs"@, list_prop("用户确认要加入的 Modrinth mod 的 slug 列表"@)),
            ("cf_mods"@, list_prop("CurseForge 独占 mod 的 slug 列表 (search_mods 返回的 source:curseforge 候选放这里, 需服务器已开启 curseforge 支持)"@)),
        ],
        seq!["name"@, "game_version"@, "loader"@],
    )
}

/// The schema of the arguments of `record_feedback`.
pub open spec fn record_feedback_schema() -> JsonView {
    schema(
        seq![
            ("slug"@, prop("string"@, "mod 的 slug"@)),
            ("verdict"@, choice_prop(seq!["like"@, "dislike"@], "用户的态度"@)),
        ],
        seq!["slug"@, "verdict"@],
    )
}

/// The schema of the arguments of `recommend_new_mods`.
pub open spec fn recommend_new_mods_schema() -> JsonView {
    schema(
        seq![
            ("game_version"@, prop("string"@, "Minecraft 版本"@)),
            ("loader"@, prop("string"@, "mod 加载器"@)),
            ("count"@, prop("integer"@, "推荐数量, 默认 5"@)),
        ],
        seq!["game_version"@, "loader"@],
    )
}

/// The schema of the arguments of `repair_pack`.
pub open spec fn repair_pack_schema() -> JsonView {
    schema(
        seq![
            ("pack_name"@, prop("string"@, "要修复的整合包名称(生成时的 name)"@)),
            ("add_slugs"@, list_prop("要补入的 mod slug 列表"@)),
        ],
        seq!["pack_name"@, "add_slugs"@],
    )
}

/// The schema of the arguments of a tool that takes none.
pub open spec fn empty_schema() -> JsonView {
    object(seq![("type"@, JsonView::Str("object"@)), ("properties"@, object(Seq::empty()))])
}

fn search_mods_parameters() -> (r: Json)
    ensures
        r.tree() == search_mods_schema(),
{
    let props = vec![
        ("query", make_prop("string", "搜索关键词, 如 '装饰' 'explore' '性能优化'")),
        ("game_version", make_prop("string", "Minecraft 版本, 如 1.21.1")),
        ("loader", make_prop("string", "mod 加载器: fabric / forge / neoforge / quilt")),
        ("limit", make_prop("integer", "返回数量, 默认 8")),
    ];
    assert(pair_views(props@) =~= seq![
        ("query"@, prop("string"@, "搜索关键词, 如 '装饰' 'explore' '性能优化'"@)),
        ("game_version"@, prop("string"@, "Minecraft 版本, 如 1.21.1"@)),
        ("loader"@, prop("string"@, "mod 加载器: fabric / forge / neoforge / quilt"@)),
        ("limit"@, prop("integer"@, "返回数量, 默认 8"@)),
    ]);
    let required = vec!["query".to_string()];
    assert(views(required@) =~= seq!["query"@]);
    make_schema(props, required)
}

fn build_modpack_parameters() -> (r: Json)
    ensures
        r.tree() == build_modpack_schema(),
{
    let props = vec![
        ("name", make_prop("string", "整合包名称, 将作为输出文件名")),
        ("game_version", make_prop("string", "Minecraft 版本")),
        ("loader", make_prop("string", "mod 加载器: fabric / forge / neoforge / quilt")),
        ("mod_slugs", make_list_prop("用户确认要加入的 Modrinth mod 的 slug 列表")),
        ("cf_mods", make_list_prop("CurseForge 独占 mod 的 slug 列表 (search_mods 返回的 source:curseforge 候选放这里, 需服务器已开启 curseforge 支持)")),
    ];
    assert(pair_views(props@) =~= seq![
        ("name"@, prop("string"@, "整合包名称, 将作为输出文件名"@)),
        ("game_version"@, prop("string"@, "Minecraft 版本"@)),
        ("loader"@, prop("string"@, "mod 加载器: fabric / forge / neoforge / quilt"@)),
        ("mod_slugs"@, list_prop("用户确认要加入的 Modrinth mod 的 slug 列表"@)),
        ("cf_mods"@, list_prop("CurseForge 独占 mod 的 slug 列表 (search_mods 返回的 source:curseforge 候选放这里, 需服务器已开启 curseforge 支持)"@)),
    ]);
    let required = vec!["name".to_string(), "game_version".to_string(), "loader".to_string()];
    assert(views(required@) =~= seq!["name"@, "game_version"@, "loader"@]);
    make_schema(props, required)
}

fn record_feedback_parameters() -> (r: Json)
    ensures
        r.tree() == record_feedback_schema(),
{
    let props = vec![
        ("slug", make_prop("string", "mod 的 slug")),
        ("verdict", make_choice_prop("用户的态度")),
    ];
    assert(pair_views(props@) =~= seq![
        ("slug"@, prop("string"@, "mod 的 slug"@)),
        ("verdict"@, choice_prop(seq!["like"@, "dislike"@], "用户的态度"@)),
    ]);
    let required = vec!["slug".to_string(), "verdict".to_string()];
    assert(views(required@) =~= seq!["slug"@, "verdict"@]);
    make_schema(props, required)
}

fn recommend_new_mods_parameters() -> (r: Json)
    ensures
        r.tree() == recommend_new_mods_schema(),
{
    let props = vec![
        ("game_version", make_prop("string", "Minecraft 版本")),
        ("loader", make_prop("string", "mod 加载器")),
        ("count", make_prop("integer", "推荐数量, 默认 5")),
    ];
    assert(pair_views(props@) =~= seq![
        ("game_version"@, prop("string"@, "Minecraft 版本"@)),
        ("loader"@, prop("string"@, "mod 加载器"@)),
        ("count"@, prop("integer"@, "推荐数量, 默认 5"@)),
    ]);
    let required = vec!["game_version".to_string(), "loader".to_string()];
    assert(views(required@) =~= seq!["game_version"@, "loader"@]);
    make_schema(props, required)
}

fn repair_pack_parameters() -> (r: Json)
    ensures
        r.tree() == repair_pack_schema(),
{
    let props = vec![
        ("pack_name", make_prop("string", "要修复的整合包名称(生成时的 name)")),
        ("add_slugs", make_list_prop("要补入的 mod slug 列表")),
    ];
    assert(pair_views(props@) =~= seq![
        ("pack_name"@, prop("string"@, "要修复的整合包名称(生成时的 name)"@)),
        ("add_slugs"@, list_prop("要补入的 mod slug 列表"@)),
    ]);
    let required = vec!["pack_name".to_string(), "add_slugs".to_string()];
    assert(views(required@) =~= seq!["pack_name"@, "add_slugs"@]);
    make_schema(props, required)
}

fn make_choice_prop(description: &str) -> (r: Json)
    ensures
        r.tree() == choice_prop(seq!["like"@, "dislike"@], description@),
{
    let choices = vec!["like".to_string(), "dislike".to_string()];
    assert(views(choices@) =~= seq!["like"@, "dislike"@]);
    let list = vec![
        ("type", Json::string("string")),
        ("enum", Json::strings(&choices)),
        ("description", Json::string(description)),
    ];
    assert(pair_views(list@) =~= seq![
        ("type"@, JsonView::Str("string"@)),
        ("enum"@, str_array(seq!["like"@, "dislike"@])),
        ("description"@, JsonView::Str(description@)),
    ]);
    object_of(list)
}

fn empty_parameters() -> (r: Json)
    ensures
        r.tree() == empty_schema(),
{
    let none: Vec<(&'static str, Json)> = Vec::new();
    assert(pair_views(none@) =~= Seq::<(Seq<char>, JsonView)>::empty());
    let list = vec![("type", Json::string("object")), ("properties", object_of(none))];
    assert(pair_views(list@) =~= seq![
        ("type"@, JsonView::Str("object"@)),
        ("properties"@, object(Seq::empty())),
    ]);
    object_of(list)
}

impl ToolRegistry {
    /// The tools as they are offered to the model.
    pub fn defs() -> (r: Vec<ToolDef>)
        ensures
            r@.len() == 6,
            describes(
                r@[0],
                "search_mods"@,
                "在 Modrinth 上搜索 Minecraft mod。返回真实存在的 mod 列表及描述, 供用户筛选。Modrinth 无结果且服务器开启 CurseForge 支持时, 会自动用查询词点名尝试 CurseForge (返回的 CF 候选带 source:curseforge 标记)。永远不要凭记忆推荐 mod, 必须调用本工具。"@,
                search_mods_schema(),
            ),
            describes(
                r@[1],
                "build_modpack"@,
                "根据用户确认的 mod 列表生成 .mrpack 整合包文件(可拖入 PCL2 等启动器直接安装)。自动解析每个 mod 的具体版本与前置依赖声明, 并做冲突元检测。支持 fabric / forge / neoforge / quilt 加载器。"@,
                build_modpack_schema(),
            ),
            describes(
                r@[2],
                "record_feedback"@,
                "记录用户对某个 mod 的喜欢/不喜欢反馈, 存入用户数据库, 让未来的推荐更符合口味。只在用户明确表达喜欢或不喜欢后调用。"@,
                record_feedback_schema(),
            ),
            describes(
                r@[3],
                "get_user_profile"@,
                "查看用户口味画像: 历史反馈统计与标签偏好权重。在挑选和排序候选前调用, 以便个性化推荐。"@,
                empty_schema(),
            ),
            describes(
                r@[4],
                "recommend_new_mods"@,
                "\"试试这个\": 根据用户口味从 Modrinth 最新/热门 mod 中推荐用户未评价过的新 mod。"@,
                recommend_new_mods_schema(),
            ),
            describes(
                r@[5],
                "repair_pack"@,
                "向已生成的整合包补充缺失的 mod。当用户贴出启动器报错(如'缺少 xxx 依赖')时: 先用 search_mods 找到缺失 mod 的 slug, 再调用本工具把它补进原包。"@,
                repair_pack_schema(),
            ),
    {
        vec![
            ToolDef::function(
                "search_mods",
                "在 Modrinth 上搜索 Minecraft mod。返回真实存在的 mod 列表及描述, 供用户筛选。Modrinth 无结果且服务器开启 CurseForge 支持时, 会自动用查询词点名尝试 CurseForge (返回的 CF 候选带 source:curseforge 标记)。永远不要凭记忆推荐 mod, 必须调用本工具。",
                search_mods_parameters(),
            ),
            ToolDef::function(
                "build_modpack",
                "根据用户确认的 mod 列表生成 .mrpack 整合包文件(可拖入 PCL2 等启动器直接安装)。自动解析每个 mod 的具体版本与前置依赖声明, 并做冲突元检测。支持 fabric / forge / neoforge / quilt 加载器。",
                build_modpack_parameters(),
            ),
            ToolDef::function(
                "record_feedback",
                "记录用户对某个 mod 的喜欢/不喜欢反馈, 存入用户数据库, 让未来的推荐更符合口味。只在用户明确表达喜欢或不喜欢后调用。",
                record_feedback_parameters(),
            ),
            ToolDef::function(
                "get_user_profile",
                "查看用户口味画像: 历史反馈统计与标签偏好权重。在挑选和排序候选前调用, 以便个性化推荐。",
                empty_parameters(),
            ),
            ToolDef::function(
                "recommend_new_mods",
                "\"试试这个\": 根据用户口味从 Modrinth 最新/热门 mod 中推荐用户未评价过的新 mod。",
                recommend_new_mods_parameters(),
            ),
            ToolDef::function(
                "repair_pack",
                "向已生成的整合包补充缺失的 mod。当用户贴出启动器报错(如'缺少 xxx 依赖')时: 先用 search_mods 找到缺失 mod 的 slug, 再调用本工具把它补进原包。",
                repair_pack_parameters(),
            ),
        ]
    }
}

} // verus!

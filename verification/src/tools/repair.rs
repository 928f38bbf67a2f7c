//! `repair_pack`: missing mods are added to a pack that exists.

use vstd::prelude::*;
use vstd::string::StringExecFns;

#[allow(unused_imports)]
use crate::archive::{archive_entry, archive_failure, failure_of, EntryView, INDEX_NAME};
use crate::archive::pack_bytes;
#[allow(unused_imports)]
use crate::json::{
    lemma_trees_push, members, object, pair_views, str_array, trees,
    JsonNumber, JsonView,
};
#[allow(unused_imports)]
use crate::json::{is_plain, json_pretty};
use crate::json::{array_of, object_of, render_pretty, Json, Obj};
use crate::modrinth::{ModVersion, VersionFile};
#[allow(unused_imports)]
use crate::number::dec;
use crate::number::usize_to_string;
#[allow(unused_imports)]
use crate::text::{
    contains_spec, has_extension, join_spec, lemma_rfind_char, lemma_views_push, rfind_char, unicode_lower, views,
};
use crate::text::{
    chars_of, contains, extension_is, join, list_contains, rfind, str_eq, string_of, to_lowercase,
};
use crate::tools::build_pack::{collect_report, file_json, pick_file, safe_name_of, IndexFile};
#[allow(unused_imports)]
use crate::tools::build_pack::{
    deps_tree, file_tree, file_trees, holds_index, index_tree, lemma_safe_name, pack_read,
    primary_file, release_file, safe_name, BuildArgs, FileView,
};
#[allow(unused_imports)]
use crate::tools::loader_meta::dep_key;
use crate::tools::ProgressUpdate;
#[allow(unused_imports)]
use crate::tools::UpdateView;

verus! {

/// What the model asks for.
pub struct RepairArgs {
    pub pack_name: String,
    pub add_slugs: Vec<String>,
}

/// Refuses a request that names no mod.
pub fn check_args(a: &RepairArgs) -> (r: Result<(), String>)
    ensures
        match r {
            Ok(_) => a.add_slugs@.len() > 0,
            Err(e) => a.add_slugs@.len() == 0 && e@ == "add_slugs 为空"@,
        },
{
    if a.add_slugs.len() == 0 {
        return Err("add_slugs 为空".to_string());
    }
    Ok(())
}

// ---------------------------------------------------------------------------
// Finding the pack
// ---------------------------------------------------------------------------

/// The name of a file without its extension: what stands before the last dot, unless that is
/// the first character.
pub open spec fn stem(name: Seq<char>) -> Seq<char> {
    let k = rfind_char(name, '.');
    if k > 0 {
        name.take(k)
    } else {
        name
    }
}

/// Whether a file has the extension of packs.
pub open spec fn is_pack_file(name: Seq<char>) -> bool {
    has_extension(name, "mrpack"@)
}

fn stem_of(name: &str) -> (r: String)
    ensures
        r@ == stem(name@),
{
    let v = chars_of(name);
    let k = rfind(&v, '.');
    proof {
        lemma_rfind_char(name@, '.');
    }
    if k > 1 {
        assert(name@.take(k - 1) =~= v@.subrange(0, k - 1));
        string_of(&v, 0, k - 1)
    } else {
        name.to_string()
    }
}

/// Whether a file is the pack with the name, up to case.
pub open spec fn is_exact(name: Seq<char>, lower: Seq<char>) -> bool {
    is_pack_file(name) && unicode_lower(stem(name)) == lower
}

/// Whether the name occurs in that of a pack, up to case.
pub open spec fn is_fuzzy(name: Seq<char>, lower: Seq<char>) -> bool {
    is_pack_file(name) && contains_spec(unicode_lower(stem(name)), lower)
}

/// The pack that is meant: the first whose name is the given one up to case; else the only one
/// in whose name it occurs. An error where there is none or more than one.
pub open spec fn resolved(
    dir: Seq<char>,
    names: Seq<Seq<char>>,
    pack_name: Seq<char>,
    lower: Seq<char>,
) -> Result<Seq<char>, Seq<char>> {
    let exact = names.filter(|n: Seq<char>| is_exact(n, lower));
    let fuzzy = names.filter(|n: Seq<char>| is_fuzzy(n, lower));
    if exact.len() > 0 {
        Ok(exact[0])
    } else if fuzzy.len() == 1 {
        Ok(fuzzy[0])
    } else if fuzzy.len() == 0 {
        Err("在 "@ + dir + " 中找不到整合包 '"@ + pack_name + "'"@)
    } else {
        Err(
            "整合包 '"@ + pack_name + "' 模糊匹配到多个, 请指定完整名称: "@ + join_spec(
                fuzzy.map_values(|n: Seq<char>| stem(n)),
                ", "@,
            ),
        )
    }
}

/// The view of a name or of the error.
pub open spec fn named(r: Result<String, String>) -> Result<Seq<char>, Seq<char>> {
    match r {
        Ok(s) => Ok(s@),
        Err(e) => Err(e@),
    }
}

/// Finds the pack that is meant among the files of a directory. `safe_lower` is the name of the
/// pack in lower case.
pub fn resolve_pack_path(dir: &str, names: &Vec<String>, pack_name: &str, safe_lower: &str) -> (r:
    Result<String, String>)
    ensures
        named(r) == resolved(dir@, views(names@), pack_name@, safe_lower@),
{
    let ghost all = views(names@);
    let ghost lower = safe_lower@;
    let ghost pe = |n: Seq<char>| is_exact(n, lower);
    let ghost pf = |n: Seq<char>| is_fuzzy(n, lower);
    let mut exact: Vec<String> = Vec::new();
    let mut fuzzy: Vec<String> = Vec::new();
    let mut stems: Vec<String> = Vec::new();
    proof {
        reveal(Seq::filter);
    }
    assert(views(exact@) =~= all.take(0).filter(pe));
    assert(views(fuzzy@) =~= all.take(0).filter(pf));
    assert(views(stems@) =~= views(fuzzy@).map_values(|n: Seq<char>| stem(n)));
    for i in 0..names.len()
        invariant
            all == views(names@),
            lower == safe_lower@,
            pe == (|n: Seq<char>| is_exact(n, lower)),
            pf == (|n: Seq<char>| is_fuzzy(n, lower)),
            views(exact@) == all.take(i as int).filter(pe),
            views(fuzzy@) == all.take(i as int).filter(pf),
            views(stems@) == views(fuzzy@).map_values(|n: Seq<char>| stem(n)),
    {
        broadcast use Seq::lemma_filter_push;

        assert(all.take(i + 1) =~= all.take(i as int).push(all[i as int]));
        assert(all[i as int] == names@[i as int]@);
        if extension_is(names[i].as_str(), "mrpack") {
            let st = stem_of(names[i].as_str());
            let low = to_lowercase(st.as_str());
            if str_eq(low.as_str(), safe_lower) {
                let n = names[i].clone();
                proof {
                    lemma_views_push(exact@, n);
                }
                exact.push(n);
            }
            if contains(low.as_str(), safe_lower) {
                let n = names[i].clone();
                let ghost before = views(fuzzy@);
                proof {
                    lemma_views_push(fuzzy@, n);
                    lemma_views_push(stems@, st);
                }
                fuzzy.push(n);
                stems.push(st);
                assert(before.push(n@).map_values(|n: Seq<char>| stem(n)) =~= before.map_values(
                    |n: Seq<char>| stem(n),
                ).push(stem(n@)));
            }
        }
    }
    assert(all.take(names@.len() as int) =~= all);
    assert(views(exact@).len() == exact@.len());
    assert(views(fuzzy@).len() == fuzzy@.len());
    if exact.len() > 0 {
        assert(views(exact@)[0] == exact@[0]@);
        Ok(exact[0].clone())
    } else if fuzzy.len() == 1 {
        assert(views(fuzzy@)[0] == fuzzy@[0]@);
        Ok(fuzzy[0].clone())
    } else if fuzzy.len() == 0 {
        Err(
            "在 ".to_string().concat(dir).concat(" 中找不到整合包 '").concat(pack_name).concat("'"),
        )
    } else {
        Err(
            "整合包 '".to_string().concat(pack_name).concat(
                "' 模糊匹配到多个, 请指定完整名称: ",
            ).concat(join(&stems, ", ").as_str()),
        )
    }
}

/// Finds the pack that is meant by the name that it was built with, whatever the case.
pub fn find_pack(dir: &str, names: &Vec<String>, pack_name: &str) -> (r: Result<String, String>)
    ensures
        named(r) == resolved(
            dir@,
            views(names@),
            pack_name@,
            unicode_lower(safe_name(pack_name@)),
        ),
{
    let lower = to_lowercase(safe_name_of(pack_name).as_str());
    resolve_pack_path(dir, names, pack_name, lower.as_str())
}

/// A pack is found by the name that it was built with, whatever characters that name holds: among
/// the files of the directory the one that was written counts as an exact match.
pub proof fn lemma_built_pack_is_found(dir: Seq<char>, names: Seq<Seq<char>>, name: Seq<char>)
    requires
        name.len() > 0,
        names.contains(safe_name(name) + ".mrpack"@),
    ensures
        resolved(dir, names, name, unicode_lower(safe_name(name))) matches Ok(file) && is_exact(
            file,
            unicode_lower(safe_name(name)),
        ),
{
    reveal_strlit(".mrpack");
    reveal_strlit("mrpack");
    let safe = safe_name(name);
    let file = safe + ".mrpack"@;
    let lower = unicode_lower(safe);
    lemma_safe_name(name);
    lemma_rfind_char(file, '.');
    assert(file[safe.len() as int] == '.');
    assert forall|j: int| safe.len() < j < file.len() implies file[j] != '.' by {
        assert(file[j] == ".mrpack"@[j - safe.len()]);
    }
    assert(rfind_char(file, '.') == safe.len());
    assert(file.take(safe.len() as int) =~= safe);
    assert(file.skip((safe.len() + 1) as int) =~= "mrpack"@);
    let keep = |n: Seq<char>| is_exact(n, lower);
    names.lemma_filter_contains_rev(keep, file);
    broadcast use vstd::seq_lib::group_filter_ensures;
    let exact = names.filter(keep);
    assert(exact.contains(file));
    assert(keep(exact[0]));
}

// ---------------------------------------------------------------------------
// Reading the pack
// ---------------------------------------------------------------------------

/// The loader that the dependencies of a pack name.
pub open spec fn loader_of(deps: JsonView) -> Option<Seq<char>> {
    if deps.get("fabric-loader"@) is Some {
        Some("fabric"@)
    } else if deps.get("quilt-loader"@) is Some {
        Some("quilt"@)
    } else if deps.get("forge"@) is Some {
        Some("forge"@)
    } else if deps.get("neoforge"@) is Some {
        Some("neoforge"@)
    } else {
        None
    }
}

/// The game version and the loader of a pack, as its description says.
pub open spec fn pack_target(index: JsonView) -> Result<(Seq<char>, Seq<char>), Seq<char>> {
    match index.get("dependencies"@) {
        Some(JsonView::Object(m)) => {
            let deps = JsonView::Object(m);
            match deps.str_at("minecraft"@) {
                Some(gv) => match loader_of(deps) {
                    Some(l) => Ok((gv, l)),
                    None => Err("索引未声明加载器, 请重新组包"@),
                },
                None => Err("索引缺少 minecraft 版本声明"@),
            }
        },
        _ => Err("索引缺少 dependencies 对象, 请重新组包"@),
    }
}

/// Reads the description of a pack from its file: the tree, or the error as text.
pub fn read_pack(bytes: &[u8]) -> (r: Result<Json, String>)
    ensures
        match r {
            Ok(j) => pack_read(bytes@) == Ok::<JsonView, Seq<char>>(j.tree()),
            Err(e) => pack_read(bytes@) == Err::<JsonView, Seq<char>>(e@),
        },
{
    match crate::archive::pack_index(bytes) {
        Ok(text) => crate::json::parse_json(text.as_str()),
        Err(e) => Err(e),
    }
}

/// What is reported before a repaired pack is written.
pub fn write_report(count: usize) -> (r: String)
    ensures
        r@ == "写入整合包文件 (共 "@ + dec(count as nat) + " 个 mod)"@,
{
    "写入整合包文件 (共 ".to_string().concat(usize_to_string(count).as_str()).concat(" 个 mod)")
}

/// The view of a target or of the error.
pub open spec fn target_view(r: Result<(String, &'static str), String>) -> Result<
    (Seq<char>, Seq<char>),
    Seq<char>,
> {
    match r {
        Ok(p) => Ok((p.0@, p.1@)),
        Err(e) => Err(e@),
    }
}

/// The game version and the loader of a pack.
pub fn read_target(index: &Json) -> (r: Result<(String, &'static str), String>)
    ensures
        target_view(r) == pack_target(index.tree()),
{
    match index.get("dependencies") {
        Some(deps) => match deps {
            Json::Object(_) => {
                let gv = match deps.str_at("minecraft") {
                    Some(s) => s.clone(),
                    None => {
                        return Err("索引缺少 minecraft 版本声明".to_string());
                    },
                };
                if deps.get("fabric-loader").is_some() {
                    Ok((gv, "fabric"))
                } else if deps.get("quilt-loader").is_some() {
                    Ok((gv, "quilt"))
                } else if deps.get("forge").is_some() {
                    Ok((gv, "forge"))
                } else if deps.get("neoforge").is_some() {
                    Ok((gv, "neoforge"))
                } else {
                    Err("索引未声明加载器, 请重新组包".to_string())
                }
            },
            _ => Err("索引缺少 dependencies 对象, 请重新组包".to_string()),
        },
        None => Err("索引缺少 dependencies 对象, 请重新组包".to_string()),
    }
}

/// The paths of the files of a pack.
pub open spec fn paths(items: Seq<JsonView>) -> Seq<Seq<char>>
    decreases items.len(),
{
    if items.len() == 0 {
        Seq::empty()
    } else {
        match items.last().str_at("path"@) {
            Some(p) => paths(items.drop_last()).push(p),
            None => paths(items.drop_last()),
        }
    }
}

fn read_paths(items: &Vec<Json>) -> (r: Vec<String>)
    ensures
        views(r@) == paths(trees(items@)),
{
    let ghost all = trees(items@);
    let mut r: Vec<String> = Vec::new();
    assert(all.take(0) =~= Seq::<JsonView>::empty());
    assert(views(r@) =~= Seq::<Seq<char>>::empty());
    for i in 0..items.len()
        invariant
            all == trees(items@),
            views(r@) == paths(all.take(i as int)),
    {
        assert(all.take(i + 1).drop_last() =~= all.take(i as int));
        assert(all[i as int] == items@[i as int].tree());
        match items[i].str_at("path") {
            Some(p) => {
                let p = p.clone();
                proof {
                    lemma_views_push(r@, p);
                }
                r.push(p);
            },
            None => {},
        }
    }
    assert(all.take(items@.len() as int) =~= all);
    r
}

// ---------------------------------------------------------------------------
// Adding mods
// ---------------------------------------------------------------------------

/// A pack that is being repaired.
pub struct PackRepair {
    /// The description of the pack, without its files.
    pub rest: Obj,
    /// The files of the pack.
    pub items: Vec<Json>,
    pub existing: Vec<String>,
    pub added: Vec<Json>,
    pub auto_added: Vec<String>,
    pub conflicts: Vec<String>,
}

/// The mathematical value of a [`PackRepair`].
#[verifier::ext_equal]
pub struct RepairView {
    pub rest: Map<Seq<char>, JsonView>,
    pub items: Seq<JsonView>,
    pub existing: Seq<Seq<char>>,
    pub added: Seq<JsonView>,
    pub auto_added: Seq<Seq<char>>,
    pub conflicts: Seq<Seq<char>>,
}

impl View for PackRepair {
    type V = RepairView;

    open spec fn view(&self) -> RepairView {
        RepairView {
            rest: self.rest.map(),
            items: trees(self.items@),
            existing: views(self.existing@),
            added: trees(self.added@),
            auto_added: views(self.auto_added@),
            conflicts: views(self.conflicts@),
        }
    }
}

/// What is said of a mod that was added.
pub open spec fn added_tree(slug: Seq<char>, version: Seq<char>, path: Seq<char>) -> JsonView {
    object(
        seq![
            ("slug"@, JsonView::Str(slug)),
            ("version"@, JsonView::Str(version)),
            ("path"@, JsonView::Str(path)),
        ],
    )
}

impl RepairView {
    /// The description of the pack with its files.
    pub open spec fn index(self) -> JsonView {
        JsonView::Object(self.rest.insert("files"@, JsonView::Array(self.items)))
    }

    /// With a file, unless the pack has one at its path.
    pub open spec fn with_mod(self, slug: Seq<char>, version: Seq<char>, f: FileView) -> RepairView {
        if self.existing.contains(f.path) {
            self
        } else {
            RepairView {
                existing: self.existing.push(f.path),
                added: self.added.push(added_tree(slug, version, f.path)),
                items: self.items.push(file_tree(f)),
                ..self
            }
        }
    }

    /// What holds of a repair: the paths of the files are known.
    pub open spec fn inv(self) -> bool {
        self.existing == paths(self.items)
    }
}

/// Why no file of a mod is added, as far as its releases tell; else the file to add.
pub open spec fn repair_choice(
    game_version: Seq<char>,
    loader: Seq<char>,
    answer: Result<Vec<ModVersion>, String>,
) -> Result<int, Seq<char>> {
    match answer {
        Err(e) => Err(e@),
        Ok(v) => if v@.len() == 0 {
            Err("无 "@ + game_version + "/"@ + loader + " 兼容版本"@)
        } else {
            match primary_file(v@[0].files@) {
                Some(i) => Ok(i),
                None => Err("兼容版本没有可下载文件"@),
            }
        },
    }
}

/// Chooses the file of a mod from its releases.
pub fn choose_repair_file(
    game_version: &str,
    loader: &str,
    answer: &Result<Vec<ModVersion>, String>,
) -> (r: Result<usize, String>)
    ensures
        match (r, repair_choice(game_version@, loader@, *answer)) {
            (Ok(i), Ok(k)) => i == k && answer is Ok && answer->Ok_0@.len() > 0 && i
                < answer->Ok_0@[0].files@.len(),
            (Err(e), Err(x)) => e@ == x,
            _ => false,
        },
{
    match answer {
        Err(e) => Err(e.clone()),
        Ok(v) => if v.len() == 0 {
            Err(
                "无 ".to_string().concat(game_version).concat("/").concat(loader).concat(
                    " 兼容版本",
                ),
            )
        } else {
            match pick_file(&v[0].files) {
                Some(i) => Ok(i),
                None => Err("兼容版本没有可下载文件".to_string()),
            }
        },
    }
}

/// The members of a description without its files, and the files.
fn take_files(index: Json) -> (r: Option<(Obj, Vec<Json>)>)
    ensures
        match r {
            Some(p) => {
                &&& index.tree().array_at("files"@) == Some(trees(p.1@))
                &&& index.tree() is Object
                &&& p.0.map() == index.tree()->Object_0.remove("files"@)
            },
            None => index.tree().array_at("files"@) is None,
        },
{
    let ghost whole = index;
    match index {
        Json::Object(fields) => {
            let ghost all = fields@;
            let mut todo = fields;
            let mut rest = Obj::new();
            let mut files: Option<Json> = None;
            assert(all.take(0) =~= Seq::<(String, Json)>::empty());
            assert(rest.map() =~= members(all.take(0)).remove("files"@));
            while todo.len() > 0
                invariant
                    todo@.len() <= all.len(),
                    todo@ == all.skip(all.len() - todo@.len()),
                    ({
                        let m = members(all.take(all.len() - todo@.len()));
                        &&& rest.map() == m.remove("files"@)
                        &&& match files {
                            Some(j) => m.dom().contains("files"@) && m["files"@] == j.tree(),
                            None => !m.dom().contains("files"@),
                        }
                    }),
                decreases todo@.len(),
            {
                let ghost k = all.len() - todo@.len();
                let ghost m = members(all.take(k));
                let p = todo.remove(0);
                assert(p == all[k]);
                assert(todo@ =~= all.skip(k + 1));
                assert(all.take(k + 1).drop_last() =~= all.take(k));
                assert(all.take(k + 1).last() == all[k]);
                if str_eq(p.0.as_str(), "files") {
                    files = Some(p.1);
                    assert(rest.map() =~= members(all.take(k + 1)).remove("files"@));
                } else {
                    rest = rest.with(p.0.as_str(), p.1);
                    assert(rest.map() =~= members(all.take(k + 1)).remove("files"@));
                }
            }
            assert(all.take(all.len() as int) =~= all);
            match files {
                Some(Json::Array(items)) => Some((rest, items)),
                _ => None,
            }
        },
        _ => None,
    }
}

impl PackRepair {
    /// Begins the repair of a pack with the given description, where `auto_added` are the mods
    /// that were found to be needed too and `conflicts` is what went wrong in finding them.
    pub fn start(index: Json, auto_added: Vec<String>, conflicts: Vec<String>) -> (r: Result<
        PackRepair,
        String,
    >)
        ensures
            match r {
                Ok(p) => {
                    &&& index.tree().array_at("files"@) == Some(p@.items)
                    &&& p@.index() == index.tree()
                    &&& p@.existing == paths(p@.items)
                    &&& p@.added.len() == 0
                    &&& p@.auto_added == views(auto_added@)
                    &&& p@.conflicts == views(conflicts@)
                },
                Err(e) => index.tree().array_at("files"@) is None && e@ == "索引 files 异常"@,
            },
    {
        let ghost t = index.tree();
        match take_files(index) {
            Some(p) => {
                let (rest, items) = p;
                let existing = read_paths(&items);
                let r = PackRepair {
                    rest,
                    items,
                    existing,
                    added: Vec::new(),
                    auto_added,
                    conflicts,
                };
                assert(r@.rest.insert("files"@, JsonView::Array(r@.items)) =~= t->Object_0);
                Ok(r)
            },
            None => Err("索引 files 异常".to_string()),
        }
    }

    /// Adds a file of a mod, unless the pack has one at its path. Where the sides that it runs
    /// on are not known, it is required on both.
    pub fn add(&mut self, slug: &str, version: &str, file: &VersionFile, env: Option<
        (String, String),
    >)
        ensures
            final(self)@ == old(self)@.with_mod(
                slug@,
                version@,
                release_file(*file, env),
            ),
            old(self)@.inv() ==> final(self)@.inv(),
    {
        let ghost start = self@;
        let path = "mods/".to_string().concat(file.filename.as_str());
        if list_contains(&self.existing, path.as_str()) {
            return;
        }
        let (client, server) = match env {
            Some(e) => e,
            None => ("required".to_string(), "required".to_string()),
        };
        let list = vec![
            ("slug", Json::string(slug)),
            ("version", Json::string(version)),
            ("path", Json::string(path.as_str())),
        ];
        assert(pair_views(list@) =~= seq![
            ("slug"@, JsonView::Str(slug@)),
            ("version"@, JsonView::Str(version@)),
            ("path"@, JsonView::Str(path@)),
        ]);
        let note = object_of(list);
        let f = IndexFile {
            path: path.clone(),
            sha1: file.hashes.sha1.clone(),
            sha512: file.hashes.sha512.clone(),
            client,
            server,
            url: file.url.clone(),
            size: file.size,
        };
        let item = file_json(&f);
        proof {
            lemma_views_push(self.existing@, path);
            lemma_trees_push(self.added@, note);
            lemma_trees_push(self.items@, item);
            lemma_file_path(f@);
            assert(start.items.push(file_tree(f@)).drop_last() =~= start.items);
        }
        self.existing.push(path);
        self.added.push(note);
        self.items.push(item);
    }

    /// Records why a mod could not be added.
    pub fn add_conflict(&mut self, slug: &str, issue: &str)
        ensures
            final(self)@ == (RepairView {
                conflicts: old(self)@.conflicts.push(slug@ + ": "@ + issue@),
                ..old(self)@
            }),
            old(self)@.inv() ==> final(self)@.inv(),
    {
        let line = slug.to_string().concat(": ").concat(issue);
        proof {
            lemma_views_push(self.conflicts@, line);
        }
        self.conflicts.push(line);
    }

    /// The description of the repaired pack.
    pub fn index(&self) -> (r: Json)
        ensures
            r.tree() == self@.index(),
    {
        let rest = crate::json::copy_obj(&self.rest);
        rest.with("files", array_of(&self.items)).json()
    }

    /// The repaired pack as a file.
    pub fn pack_file(&self) -> (r: Result<Vec<u8>, String>)
        ensures
            failure_of(r) == archive_failure(json_pretty(self@.index())),
            r matches Ok(b) ==> archive_entry(b@, INDEX_NAME@) == EntryView::Text(
                json_pretty(self@.index()),
            ),
            is_plain(self@.index(), 100) ==> (r matches Ok(b) ==> holds_index(
                b@,
                self@.index(),
            )),
    {
        let text = render_pretty(&self.index());
        pack_bytes(text.as_str())
    }

    /// What the model is told of the repaired pack.
    pub fn report(&self, pack_path: &str) -> (r: Json)
        ensures
            r.tree() == object(
                seq![
                    ("pack"@, JsonView::Str(pack_path@)),
                    ("added"@, JsonView::Array(self@.added)),
                    ("auto_added_by_closure"@, str_array(self@.auto_added)),
                    ("conflicts"@, str_array(self@.conflicts)),
                    (
                        "total_mods"@,
                        JsonView::Number(JsonNumber::Unsigned(self@.items.len() as u64)),
                    ),
                    (
                        "note"@,
                        JsonView::Str(
                            if self@.added.len() == 0 {
                                "无新增, 所需 mod 已在包中"@
                            } else {
                                "已补入, 请用户重新拖入启动器安装"@
                            },
                        ),
                    ),
                ],
            ),
    {
        let note = if self.added.len() == 0 {
            "无新增, 所需 mod 已在包中"
        } else {
            "已补入, 请用户重新拖入启动器安装"
        };
        let list = vec![
            ("pack", Json::string(pack_path)),
            ("added", array_of(&self.added)),
            ("auto_added_by_closure", Json::strings(&self.auto_added)),
            ("conflicts", Json::strings(&self.conflicts)),
            ("total_mods", Json::number(self.items.len() as u64)),
            ("note", Json::string(note)),
        ];
        assert(self@.added.len() == self.added@.len());
        assert(self@.items.len() == self.items@.len());
        assert(pair_views(list@) =~= seq![
            ("pack"@, JsonView::Str(pack_path@)),
            ("added"@, JsonView::Array(self@.added)),
            ("auto_added_by_closure"@, str_array(self@.auto_added)),
            ("conflicts"@, str_array(self@.conflicts)),
            ("total_mods"@, JsonView::Number(JsonNumber::Unsigned(self@.items.len() as u64))),
            (
                "note"@,
                JsonView::Str(
                    if self@.added.len() == 0 {
                        "无新增, 所需 mod 已在包中"@
                    } else {
                        "已补入, 请用户重新拖入启动器安装"@
                    },
                ),
            ),
        ]);
        object_of(list)
    }
}

// ---------------------------------------------------------------------------
// Laws of packs
// ---------------------------------------------------------------------------

pub(crate) proof fn lemma_file_path(f: FileView)
    ensures
        file_tree(f).str_at("path"@) == Some(f.path),
{
    reveal_with_fuel(crate::json::object_map, 6);
    reveal_strlit("path");
    reveal_strlit("hashes");
    reveal_strlit("env");
    reveal_strlit("downloads");
    reveal_strlit("fileSize");
    assert("hashes"@.len() == 6 && "env"@.len() == 3 && "downloads"@.len() == 9
        && "fileSize"@.len() == 8 && "path"@.len() == 4);
}

// ---------------------------------------------------------------------------
// Answers, in the order in which they come in
// ---------------------------------------------------------------------------

/// What came of looking for a mod.
pub enum RepairOutcome {
    /// The release to take, the position of the file to take of it, and the sides that the mod
    /// runs on, as far as they are known.
    Mod { slug: String, version: ModVersion, file: usize, env: Option<(String, String)> },
    /// Why there is nothing to add.
    Conflict { slug: String, issue: String },
}

impl RepairOutcome {
    /// The mod that was looked for.
    pub open spec fn slug(self) -> Seq<char> {
        match self {
            RepairOutcome::Mod { slug, .. } => slug@,
            RepairOutcome::Conflict { slug, .. } => slug@,
        }
    }

    /// Whether there is a file at the position.
    pub open spec fn wf(self) -> bool {
        self matches RepairOutcome::Mod { slug, version, file, env } ==> file
            < version.files@.len()
    }

    /// The path of the file to add, where there is one.
    pub open spec fn path(self) -> Option<Seq<char>> {
        match self {
            RepairOutcome::Mod { slug, version, file, env } => Some(
                release_file(version.files@[file as int], env).path,
            ),
            RepairOutcome::Conflict { slug, issue } => None,
        }
    }
}

/// The release of a mod to take and the position of its file; or, where there is none, the
/// outcome that says so.
pub fn choose_release(
    slug: &str,
    game_version: &str,
    loader: &str,
    answer: Result<Vec<ModVersion>, String>,
) -> (r: Result<(ModVersion, usize), RepairOutcome>)
    ensures
        match (r, repair_choice(game_version@, loader@, answer)) {
            (Ok((version, k)), Ok(i)) => answer is Ok && version == answer->Ok_0@[0] && k == i && k
                < version.files@.len(),
            (Err(RepairOutcome::Conflict { slug: s, issue }), Err(e)) => s@ == slug@ && issue@ == e,
            _ => false,
        },
{
    match choose_repair_file(game_version, loader, &answer) {
        Ok(k) => match answer {
            Ok(mut v) => Ok((v.remove(0), k)),
            Err(e) => Err(RepairOutcome::Conflict { slug: slug.to_string(), issue: e }),
        },
        Err(issue) => Err(RepairOutcome::Conflict { slug: slug.to_string(), issue }),
    }
}

/// A pack after one outcome.
pub open spec fn after_outcome(r: RepairView, o: RepairOutcome) -> RepairView {
    match o {
        RepairOutcome::Mod { slug, version, file, env } => r.with_mod(
            slug@,
            version.version_number@,
            release_file(version.files@[file as int], env),
        ),
        RepairOutcome::Conflict { slug, issue } => RepairView {
            conflicts: r.conflicts.push(slug@ + ": "@ + issue@),
            ..r
        },
    }
}

/// A pack after all outcomes, one by one.
pub open spec fn after_outcomes(r: RepairView, outs: Seq<RepairOutcome>) -> RepairView
    decreases outs.len(),
{
    if outs.len() == 0 {
        r
    } else {
        after_outcome(after_outcomes(r, outs.drop_last()), outs.last())
    }
}

/// What is reported of the outcome that came in as the `n`th, where `total` mods were looked for.
pub open spec fn outcome_update(o: RepairOutcome, n: nat, total: nat) -> UpdateView {
    (
        "正在收集 mod "@ + o.slug() + " ("@ + dec(n) + "/"@ + dec(total) + ")"@,
        Some(n as u64),
        Some(total as u64),
    )
}

/// What is reported before a pack with `count` files is written.
pub open spec fn write_update(count: nat) -> UpdateView {
    ("写入整合包文件 (共 "@ + dec(count) + " 个 mod)"@, Some(count as u64), Some(count as u64))
}

impl PackRepair {
    /// Takes in the outcome that came in as the `n`th, where `total` mods were looked for. Gives
    /// what to report of it.
    pub fn take_one(&mut self, o: &RepairOutcome, n: usize, total: usize) -> (r: ProgressUpdate)
        requires
            o.wf(),
        ensures
            final(self)@ == after_outcome(old(self)@, *o),
            r@ == outcome_update(*o, n as nat, total as nat),
            old(self)@.inv() ==> final(self)@.inv(),
    {
        let slug = match o {
            RepairOutcome::Mod { slug, version, file, env } => {
                let sides = match env {
                    Some(e) => Some((e.0.clone(), e.1.clone())),
                    None => None,
                };
                self.add(
                    slug.as_str(),
                    version.version_number.as_str(),
                    &version.files[*file],
                    sides,
                );
                slug
            },
            RepairOutcome::Conflict { slug, issue } => {
                self.add_conflict(slug.as_str(), issue.as_str());
                slug
            },
        };
        ProgressUpdate {
            text: collect_report(slug.as_str(), n, total),
            current: Some(n as u64),
            total: Some(total as u64),
        }
    }

    /// What to report before the pack is written.
    pub fn ready(&self) -> (r: ProgressUpdate)
        ensures
            r@ == write_update(self@.items.len()),
    {
        let n: usize = self.items.len();
        assert(self@.items.len() == n);
        ProgressUpdate { text: write_report(n), current: Some(n as u64), total: Some(n as u64) }
    }
}

/// One more outcome has the effect that it has by itself, whatever came before.
pub proof fn lemma_next_outcome(r: RepairView, outs: Seq<RepairOutcome>, o: RepairOutcome)
    ensures
        after_outcomes(r, outs.push(o)) == after_outcome(after_outcomes(r, outs), o),
{
    assert(outs.push(o).drop_last() =~= outs);
}

/// Whether an outcome brings a file at a path.
pub open spec fn brings(outs: Seq<RepairOutcome>, path: Seq<char>) -> bool {
    exists|i: int| 0 <= i < outs.len() && (#[trigger] outs[i]).path() == Some(path)
}

/// The order in which the answers come in does not matter for what the pack has: at the end it
/// has a file at those paths at which it had one, and at those that an answer brought.
pub proof fn lemma_paths_after_outcomes(r: RepairView, outs: Seq<RepairOutcome>, path: Seq<char>)
    ensures
        after_outcomes(r, outs).existing.contains(path) <==> r.existing.contains(path) || brings(
            outs,
            path,
        ),
    decreases outs.len(),
{
    if outs.len() > 0 {
        let before = outs.drop_last();
        lemma_paths_after_outcomes(r, before, path);
        let mid = after_outcomes(r, before);
        let last = outs.last();
        assert(outs[outs.len() - 1] == last);
        if brings(before, path) {
            let i = choose|i: int| 0 <= i < before.len() && (#[trigger] before[i]).path() == Some(path);
            assert(outs[i] == before[i]);
        }
        if brings(outs, path) && last.path() != Some(path) {
            let i = choose|i: int| 0 <= i < outs.len() && (#[trigger] outs[i]).path() == Some(path);
            assert(before[i] == outs[i]);
        }
        match last.path() {
            Some(p) => {
                if !mid.existing.contains(p) {
                    let e = mid.existing.push(p);
                    assert(e[e.len() - 1] == p);
                    if mid.existing.contains(path) {
                        let k = choose|k: int|
                            0 <= k < mid.existing.len() && mid.existing[k] == path;
                        assert(e[k] == path);
                    }
                    if e.contains(path) && path != p {
                        let k = choose|k: int| 0 <= k < e.len() && e[k] == path;
                        assert(mid.existing[k] == path);
                    }
                }
            },
            None => {},
        }
    }
}

/// Outcomes only add to a pack: the files that were there stay, at their places, and so does
/// all else that its description says; no path is taken twice by what they add.
pub proof fn lemma_outcomes_only_add(r: RepairView, outs: Seq<RepairOutcome>)
    ensures
        after_outcomes(r, outs).rest == r.rest,
        after_outcomes(r, outs).items.len() >= r.items.len(),
        after_outcomes(r, outs).items.take(r.items.len() as int) == r.items,
        r.existing.no_duplicates() ==> after_outcomes(r, outs).existing.no_duplicates(),
        r.inv() ==> after_outcomes(r, outs).inv(),
    decreases outs.len(),
{
    if outs.len() > 0 {
        let before = outs.drop_last();
        lemma_outcomes_only_add(r, before);
        let mid = after_outcomes(r, before);
        match outs.last() {
            RepairOutcome::Mod { slug, version, file, env } => {
                let f = release_file(version.files@[file as int], env);
                lemma_repair_only_adds(mid, slug@, version.version_number@, f);
                assert(after_outcomes(r, outs).items.take(r.items.len() as int)
                    =~= mid.items.take(r.items.len() as int));
                lemma_file_path(f);
                assert(mid.items.push(file_tree(f)).drop_last() =~= mid.items);
            },
            RepairOutcome::Conflict { slug, issue } => {},
        }
    } else {
        assert(r.items.take(r.items.len() as int) =~= r.items);
    }
}

/// What is said where there is nothing to add for a mod.
pub open spec fn conflict_line(o: RepairOutcome) -> Option<Seq<char>> {
    match o {
        RepairOutcome::Mod { .. } => None,
        RepairOutcome::Conflict { slug, issue } => Some(slug@ + ": "@ + issue@),
    }
}

/// No answer is lost: of each, the pack has a file at its path in the end, or the report says
/// why there was nothing to add.
pub proof fn lemma_no_outcome_is_lost(r: RepairView, outs: Seq<RepairOutcome>, i: int)
    requires
        0 <= i < outs.len(),
    ensures
        outs[i].path() matches Some(p) ==> after_outcomes(r, outs).existing.contains(p),
        conflict_line(outs[i]) matches Some(c) ==> after_outcomes(r, outs).conflicts.contains(c),
        outs[i].path() is Some || conflict_line(outs[i]) is Some,
    decreases outs.len(),
{
    if outs[i].path() is Some {
        let p = outs[i].path()->Some_0;
        assert(brings(outs, p));
        lemma_paths_after_outcomes(r, outs, p);
    } else {
        let c = conflict_line(outs[i])->Some_0;
        let before = outs.drop_last();
        let mid = after_outcomes(r, before);
        let end = after_outcomes(r, outs);
        if i == outs.len() - 1 {
            assert(end.conflicts[end.conflicts.len() - 1] == c);
        } else {
            lemma_no_outcome_is_lost(r, before, i);
            assert(before[i] == outs[i]);
            let k = choose|k: int| 0 <= k < mid.conflicts.len() && mid.conflicts[k] == c;
            assert(end.conflicts[k] == c);
        }
    }
}

/// A mod whose file is in the pack is not added again.
pub proof fn lemma_repair_twice(r: RepairView, slug: Seq<char>, version: Seq<char>, f: FileView)
    ensures
        r.with_mod(slug, version, f).with_mod(slug, version, f) == r.with_mod(slug, version, f),
{
    if !r.existing.contains(f.path) {
        let e = r.existing.push(f.path);
        assert(e[e.len() - 1] == f.path);
    }
}

/// A repair keeps the files that were there, and all else that the description says.
pub proof fn lemma_repair_only_adds(r: RepairView, slug: Seq<char>, version: Seq<char>, f: FileView)
    ensures
        r.with_mod(slug, version, f).rest == r.rest,
        r.with_mod(slug, version, f).items.len() >= r.items.len(),
        r.with_mod(slug, version, f).items.take(r.items.len() as int) == r.items,
        r.with_mod(slug, version, f).existing.contains(f.path),
{
    if !r.existing.contains(f.path) {
        let e = r.existing.push(f.path);
        assert(e[e.len() - 1] == f.path);
    }
    assert(r.with_mod(slug, version, f).items.take(r.items.len() as int) =~= r.items);
}

/// A pack that was built can be repaired: its description tells the game version and the loader
/// that it was built for, and holds its files.
pub proof fn lemma_built_pack_can_be_repaired(
    a: BuildArgs,
    key: Seq<char>,
    loader_version: Seq<char>,
    files: Seq<FileView>,
)
    requires
        dep_key(a.loader@) == Some(key),
    ensures
        pack_target(index_tree(a, key, loader_version, files)) == Ok::<
            (Seq<char>, Seq<char>),
            Seq<char>,
        >((a.game_version@, a.loader@)),
        index_tree(a, key, loader_version, files).array_at("files"@) == Some(file_trees(files)),
{
    let t = index_tree(a, key, loader_version, files);
    reveal_with_fuel(crate::json::object_map, 8);
    reveal_strlit("files");
    reveal_strlit("dependencies");
    assert("files"@.len() == 5 && "dependencies"@.len() == 12);
    assert(t.get("dependencies"@) == Some(deps_tree(a.game_version@, key, loader_version)));
    reveal_strlit("minecraft");
    reveal_strlit("fabric-loader");
    reveal_strlit("quilt-loader");
    reveal_strlit("forge");
    reveal_strlit("neoforge");
    assert("minecraft"@.len() == 9 && "fabric-loader"@.len() == 13 && "quilt-loader"@.len() == 12
        && "forge"@.len() == 5 && "neoforge"@.len() == 8);
}

} // verus!

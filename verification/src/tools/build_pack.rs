//! `build_modpack`: mods and what they need become a pack.
//!
//! The catalogues are asked from outside; their answers are handed in one by one.

use vstd::prelude::*;
use vstd::string::StringExecFns;

use crate::archive::pack_bytes;
#[allow(unused_imports)]
use crate::archive::{archive_entry, archive_failure, failure_of, EntryView, INDEX_NAME};
use crate::curseforge::{env_from_file, CfFile, CfFileMeta};
#[allow(unused_imports)]
use crate::curseforge::env_of;
#[allow(unused_imports)]
use crate::json::{
    is_plain, json_compact, json_parsed, json_pretty, lemma_plain_array, lemma_plain_deeper,
    lemma_plain_object, lemma_trees_push, object, object_map, pair_views, str_array, trees,
    JsonNumber, JsonView,
};
use crate::json::{object_of, render_pretty, Json};
use crate::modrinth::{ModVersion, VersionFile};
#[allow(unused_imports)]
use crate::number::{dec, mebibytes_1, mebibytes_2};
use crate::number::{format_mb1, format_mb2, usize_to_string};
#[allow(unused_imports)]
use crate::text::{lemma_views_push, views};
use crate::text::{clone_list, list_contains, replace_char};
#[allow(unused_imports)]
use crate::text::replace_char_spec;
use crate::tools::loader_meta::loader_dep_key;
#[allow(unused_imports)]
use crate::tools::loader_meta::dep_key;
use crate::tools::MAX_USER_MODS_PER_PACK;

verus! {

/// What the model asks for.
pub struct BuildArgs {
    pub name: String,
    pub game_version: String,
    pub loader: String,
    pub mod_slugs: Vec<String>,
    pub cf_mods: Vec<String>,
}

/// A file of a pack.
pub struct IndexFile {
    pub path: String,
    pub sha1: String,
    pub sha512: String,
    pub client: String,
    pub server: String,
    pub url: String,
    pub size: u64,
}

/// The mathematical value of an [`IndexFile`].
#[verifier::ext_equal]
pub struct FileView {
    pub path: Seq<char>,
    pub sha1: Seq<char>,
    pub sha512: Seq<char>,
    pub client: Seq<char>,
    pub server: Seq<char>,
    pub url: Seq<char>,
    pub size: u64,
}

impl View for IndexFile {
    type V = FileView;

    open spec fn view(&self) -> FileView {
        FileView {
            path: self.path@,
            sha1: self.sha1@,
            sha512: self.sha512@,
            client: self.client@,
            server: self.server@,
            url: self.url@,
            size: self.size,
        }
    }
}

/// The views of a list of files.
pub open spec fn file_views(s: Seq<IndexFile>) -> Seq<FileView> {
    s.map_values(|f: IndexFile| f@)
}

/// A file as the description of a pack holds it.
pub open spec fn file_tree(f: FileView) -> JsonView {
    object(
        seq![
            ("path"@, JsonView::Str(f.path)),
            (
                "hashes"@,
                object(
                    seq![("sha1"@, JsonView::Str(f.sha1)), ("sha512"@, JsonView::Str(f.sha512))],
                ),
            ),
            (
                "env"@,
                object(
                    seq![
                        ("client"@, JsonView::Str(f.client)),
                        ("server"@, JsonView::Str(f.server)),
                    ],
                ),
            ),
            ("downloads"@, str_array(seq![f.url])),
            ("fileSize"@, JsonView::Number(JsonNumber::Unsigned(f.size))),
        ],
    )
}

/// The file as the description of a pack holds it.
pub fn file_json(f: &IndexFile) -> (r: Json)
    ensures
        r.tree() == file_tree(f@),
{
    let hashes = vec![
        ("sha1", Json::string(f.sha1.as_str())),
        ("sha512", Json::string(f.sha512.as_str())),
    ];
    assert(pair_views(hashes@) =~= seq![
        ("sha1"@, JsonView::Str(f.sha1@)),
        ("sha512"@, JsonView::Str(f.sha512@)),
    ]);
    let env = vec![
        ("client", Json::string(f.client.as_str())),
        ("server", Json::string(f.server.as_str())),
    ];
    assert(pair_views(env@) =~= seq![
        ("client"@, JsonView::Str(f.client@)),
        ("server"@, JsonView::Str(f.server@)),
    ]);
    let urls = vec![f.url.clone()];
    assert(views(urls@) =~= seq![f.url@]);
    let list = vec![
        ("path", Json::string(f.path.as_str())),
        ("hashes", object_of(hashes)),
        ("env", object_of(env)),
        ("downloads", Json::strings(&urls)),
        ("fileSize", Json::number(f.size)),
    ];
    let ghost fv = f@;
    assert(pair_views(list@) =~= seq![
        ("path"@, JsonView::Str(fv.path)),
        (
            "hashes"@,
            object(seq![("sha1"@, JsonView::Str(fv.sha1)), ("sha512"@, JsonView::Str(fv.sha512))]),
        ),
        (
            "env"@,
            object(
                seq![("client"@, JsonView::Str(fv.client)), ("server"@, JsonView::Str(fv.server))],
            ),
        ),
        ("downloads"@, str_array(seq![fv.url])),
        ("fileSize"@, JsonView::Number(JsonNumber::Unsigned(fv.size))),
    ]);
    object_of(list)
}

/// The files of a pack as its description holds them.
pub open spec fn file_trees(s: Seq<FileView>) -> Seq<JsonView> {
    s.map_values(|f: FileView| file_tree(f))
}

/// The index of the file of a release to take: the first that is marked as primary, else the
/// first.
pub open spec fn primary_file(s: Seq<VersionFile>) -> Option<int> {
    if exists|i: int| 0 <= i < s.len() && (#[trigger] s[i]).primary {
        Some(first_primary(s))
    } else if s.len() > 0 {
        Some(0)
    } else {
        None
    }
}

/// The position of the first file that is marked as primary, or the length.
pub open spec fn first_primary(s: Seq<VersionFile>) -> int
    decreases s.len(),
{
    if s.len() == 0 || s[0].primary {
        0
    } else {
        1 + first_primary(s.drop_first())
    }
}

pub(crate) proof fn lemma_first_primary(s: Seq<VersionFile>, i: int)
    requires
        0 <= i <= s.len(),
        forall|j: int| 0 <= j < i ==> !(#[trigger] s[j]).primary,
        i < s.len() ==> s[i].primary,
    ensures
        first_primary(s) == i,
    decreases i,
{
    if i > 0 {
        assert(!s[0].primary);
        assert forall|j: int| 0 <= j < i - 1 implies !(#[trigger] s.drop_first()[j]).primary by {
            assert(s.drop_first()[j] == s[j + 1]);
        }
        lemma_first_primary(s.drop_first(), i - 1);
    }
}

/// The file of a release to take.
pub fn pick_file(files: &Vec<VersionFile>) -> (r: Option<usize>)
    ensures
        match r {
            Some(i) => i < files@.len() && primary_file(files@) == Some(i as int),
            None => primary_file(files@) is None && files@.len() == 0,
        },
{
    for i in 0..files.len()
        invariant
            forall|j: int| 0 <= j < i ==> !(#[trigger] files@[j]).primary,
    {
        if files[i].primary {
            proof {
                lemma_first_primary(files@, i as int);
                assert(files@[i as int].primary);
            }
            return Some(i);
        }
    }
    if files.len() > 0 {
        Some(0)
    } else {
        None
    }
}

// ---------------------------------------------------------------------------
// A pack in the making
// ---------------------------------------------------------------------------

/// A pack in the making.
pub struct PackBuild {
    pub args: BuildArgs,
    /// The name of the loader among the dependencies of the pack.
    pub dep_key: &'static str,
    /// The slugs that have been dealt with; those of CurseForge begin with `cf:`.
    pub seen: Vec<String>,
    pub files: Vec<IndexFile>,
    pub summaries: Vec<Json>,
    pub conflicts: Vec<Json>,
    pub total_size: u64,
    /// The mods to collect.
    pub final_slugs: Vec<String>,
    pub auto_added: Vec<String>,
    /// The mods that collected CurseForge files require.
    pub cf_deps: Vec<String>,
    /// How many of `cf_deps` have been looked at.
    pub deps_done: usize,
}

/// The mathematical value of a [`PackBuild`], without what it was made with.
#[verifier::ext_equal]
pub struct BuildView {
    pub seen: Seq<Seq<char>>,
    pub files: Seq<FileView>,
    pub summaries: Seq<JsonView>,
    pub conflicts: Seq<JsonView>,
    pub total_size: nat,
    pub final_slugs: Seq<Seq<char>>,
    pub auto_added: Seq<Seq<char>>,
    pub cf_deps: Seq<Seq<char>>,
    pub deps_done: nat,
}

impl View for PackBuild {
    type V = BuildView;

    open spec fn view(&self) -> BuildView {
        BuildView {
            seen: views(self.seen@),
            files: file_views(self.files@),
            summaries: trees(self.summaries@),
            conflicts: trees(self.conflicts@),
            total_size: self.total_size as nat,
            final_slugs: views(self.final_slugs@),
            auto_added: views(self.auto_added@),
            cf_deps: views(self.cf_deps@),
            deps_done: self.deps_done as nat,
        }
    }
}

/// Nothing collected yet.
pub open spec fn empty_build() -> BuildView {
    BuildView {
        seen: Seq::empty(),
        files: Seq::empty(),
        summaries: Seq::empty(),
        conflicts: Seq::empty(),
        total_size: 0,
        final_slugs: Seq::empty(),
        auto_added: Seq::empty(),
        cf_deps: Seq::empty(),
        deps_done: 0,
    }
}

/// A conflict that concerns a mod.
pub open spec fn conflict(slug: Seq<char>, issue: Seq<char>) -> JsonView {
    object(seq![("slug"@, JsonView::Str(slug)), ("issue"@, JsonView::Str(issue))])
}

/// A conflict on its own.
pub open spec fn bare_conflict(issue: Seq<char>) -> JsonView {
    object(seq![("issue"@, JsonView::Str(issue))])
}

/// The summary of a mod from Modrinth.
pub open spec fn mod_summary(
    slug: Seq<char>,
    version: Seq<char>,
    filename: Seq<char>,
    size: u64,
) -> JsonView {
    object(
        seq![
            ("slug"@, JsonView::Str(slug)),
            ("version"@, JsonView::Str(version)),
            ("filename"@, JsonView::Str(filename)),
            ("size_mb"@, JsonView::Str(mebibytes_2(size as nat))),
        ],
    )
}

/// The summary of a mod from CurseForge.
pub open spec fn cf_summary(slug: Seq<char>, filename: Seq<char>, size: u64) -> JsonView {
    object(
        seq![
            ("slug"@, JsonView::Str(slug)),
            ("source"@, JsonView::Str("curseforge"@)),
            ("filename"@, JsonView::Str(filename)),
            ("size_mb"@, JsonView::Str(mebibytes_2(size as nat))),
        ],
    )
}

/// The sizes of files, added up.
pub open spec fn sum_sizes(s: Seq<FileView>) -> nat
    decreases s.len(),
{
    if s.len() == 0 {
        0
    } else {
        sum_sizes(s.drop_last()) + s.last().size as nat
    }
}

/// The file of a release as a pack has it. Where the sides that it runs on are not known, it is
/// required on both.
pub open spec fn release_file(file: VersionFile, env: Option<(String, String)>) -> FileView {
    FileView {
        path: "mods/"@ + file.filename@,
        sha1: file.hashes.sha1@,
        sha512: file.hashes.sha512@,
        client: (match env {
            Some(e) => e.0@,
            None => "required"@,
        }),
        server: (match env {
            Some(e) => e.1@,
            None => "required"@,
        }),
        url: file.url@,
        size: file.size,
    }
}

impl BuildView {
    /// What holds of a pack in the making: each file has its summary, and the total size is
    /// that of the files.
    pub open spec fn inv(self) -> bool {
        &&& self.files.len() == self.summaries.len()
        &&& self.total_size == sum_sizes(self.files)
        &&& self.deps_done <= self.cf_deps.len()
    }

    /// With the mods that are to be collected, and what went wrong in finding them.
    pub open spec fn with_closure(
        self,
        all: Seq<Seq<char>>,
        auto_added: Seq<Seq<char>>,
        problems: Seq<Seq<char>>,
    ) -> BuildView {
        BuildView {
            final_slugs: all,
            auto_added,
            conflicts: self.conflicts + problems.map_values(|c: Seq<char>| bare_conflict(c)),
            ..self
        }
    }

    /// With one more conflict.
    pub open spec fn with_conflict(self, c: JsonView) -> BuildView {
        BuildView { conflicts: self.conflicts.push(c), ..self }
    }

    /// With one more file.
    pub open spec fn with_file(self, f: FileView, summary: JsonView) -> BuildView {
        BuildView {
            files: self.files.push(f),
            summaries: self.summaries.push(summary),
            total_size: self.total_size + f.size as nat,
            ..self
        }
    }

    /// With a file from CurseForge, and the mods that it requires to be looked at.
    pub open spec fn with_cf_file(self, slug: Seq<char>, meta: CfFileMeta, file: CfFile) -> BuildView {
        let env = env_of(views(file.versions@));
        let f = FileView {
            path: "mods/"@ + meta.filename@,
            sha1: meta.sha1@,
            sha512: meta.sha512@,
            client: env.0,
            server: env.1,
            url: meta.url@,
            size: meta.size,
        };
        let b = self.with_file(f, cf_summary(slug, meta.filename@, meta.size));
        BuildView {
            seen: b.seen.push("cf:"@ + slug),
            cf_deps: b.cf_deps + views(meta.depends@),
            ..b
        }
    }

    /// With a file of a release. Where the sides that it runs on are not known, it is required
    /// on both.
    pub open spec fn with_mod(
        self,
        slug: Seq<char>,
        version: ModVersion,
        i: int,
        env: Option<(String, String)>,
    ) -> BuildView {
        let file = version.files@[i];
        self.with_file(
            release_file(file, env),
            mod_summary(slug, version.version_number@, file.filename@, file.size),
        )
    }
}

/// A file adds its size.
pub proof fn lemma_file_keeps_inv(b: BuildView, f: FileView, summary: JsonView)
    requires
        b.inv(),
    ensures
        b.with_file(f, summary).inv(),
{
    assert(b.files.push(f).drop_last() =~= b.files);
}

fn make_conflict(slug: &str, issue: &str) -> (r: Json)
    ensures
        r.tree() == conflict(slug@, issue@),
{
    let list = vec![("slug", Json::string(slug)), ("issue", Json::string(issue))];
    assert(pair_views(list@) =~= seq![
        ("slug"@, JsonView::Str(slug@)),
        ("issue"@, JsonView::Str(issue@)),
    ]);
    object_of(list)
}

/// Why a pack is not begun: no mod is named, too many are, or the loader is not supported.
pub open spec fn refusal(a: BuildArgs) -> Option<Seq<char>> {
    let n = (a.mod_slugs@.len() + a.cf_mods@.len()) as nat;
    if n == 0 {
        Some("mod 列表为空"@)
    } else if n > MAX_USER_MODS_PER_PACK {
        Some(
            "所选 mod "@ + dec(n) + " 个, 超出单包上限 "@ + dec(MAX_USER_MODS_PER_PACK as nat)
                + " (依赖自动补全与报错修复补入不计入) —— 为考虑轻量化, 敬请谅解"@,
        )
    } else if dep_key(a.loader@) is None {
        Some(
            "不支持的加载器: "@ + a.loader@ + " (可选: fabric / forge / neoforge / quilt)"@,
        )
    } else {
        None
    }
}

impl PackBuild {
    /// Whether this is the same pack: what it was made with has not changed.
    pub open spec fn same_pack(self, other: PackBuild) -> bool {
        self.args == other.args && self.dep_key == other.dep_key
    }

    /// Begins a pack.
    pub fn start(args: BuildArgs) -> (r: Result<PackBuild, String>)
        requires
            args.mod_slugs@.len() + args.cf_mods@.len() <= usize::MAX,
        ensures
            match r {
                Ok(b) => {
                    &&& refusal(args) is None
                    &&& b.args == args
                    &&& dep_key(args.loader@) == Some(b.dep_key@)
                    &&& b@ == empty_build()
                    &&& b@.inv()
                },
                Err(e) => refusal(args) == Some(e@),
            },
    {
        if args.mod_slugs.len() == 0 && args.cf_mods.len() == 0 {
            return Err("mod 列表为空".to_string());
        }
        let n: usize = args.mod_slugs.len() + args.cf_mods.len();
        if n > MAX_USER_MODS_PER_PACK {
            return Err(
                "所选 mod ".to_string().concat(usize_to_string(n).as_str()).concat(
                    " 个, 超出单包上限 ",
                ).concat(usize_to_string(MAX_USER_MODS_PER_PACK).as_str()).concat(
                    " (依赖自动补全与报错修复补入不计入) —— 为考虑轻量化, 敬请谅解",
                ),
            );
        }
        let dep_key = match loader_dep_key(args.loader.as_str()) {
            Ok(k) => k,
            Err(e) => {
                return Err(e);
            },
        };
        let b = PackBuild {
            args,
            dep_key,
            seen: Vec::new(),
            files: Vec::new(),
            summaries: Vec::new(),
            conflicts: Vec::new(),
            total_size: 0,
            final_slugs: Vec::new(),
            auto_added: Vec::new(),
            cf_deps: Vec::new(),
            deps_done: 0,
        };
        assert(b@ =~= empty_build());
        Ok(b)
    }

    fn push_conflict(&mut self, c: Json)
        ensures
            final(self)@ == old(self)@.with_conflict(c.tree()),
            final(self).same_pack(*old(self)),
            old(self)@.inv() ==> final(self)@.inv(),
    {
        proof {
            lemma_trees_push(self.conflicts@, c);
        }
        self.conflicts.push(c);
    }

    fn push_file(&mut self, f: IndexFile, summary: Json)
        requires
            old(self).total_size + f.size <= u64::MAX,
        ensures
            final(self)@ == old(self)@.with_file(f@, summary.tree()),
            final(self).same_pack(*old(self)),
            old(self)@.inv() ==> final(self)@.inv(),
    {
        let ghost start = self@;
        let ghost fv = f@;
        proof {
            lemma_trees_push(self.summaries@, summary);
            if start.inv() {
                lemma_file_keeps_inv(start, fv, summary.tree());
            }
        }
        self.total_size = self.total_size + f.size;
        self.files.push(f);
        assert(file_views(self.files@) =~= start.files.push(fv));
        self.summaries.push(summary);
    }

    /// Takes in the mods that are to be collected, and what went wrong in finding them.
    pub fn on_closure(&mut self, all: Vec<String>, auto_added: Vec<String>, problems: &Vec<String>)
        ensures
            final(self)@ == old(self)@.with_closure(
                views(all@),
                views(auto_added@),
                views(problems@),
            ),
            final(self).same_pack(*old(self)),
            old(self)@.inv() ==> final(self)@.inv(),
    {
        let ghost start = self@;
        let ghost added = views(problems@).map_values(|c: Seq<char>| bare_conflict(c));
        self.final_slugs = all;
        self.auto_added = auto_added;
        let ghost mid = self@;
        assert(start.conflicts + added.take(0) =~= start.conflicts);
        for i in 0..problems.len()
            invariant
                added == views(problems@).map_values(|c: Seq<char>| bare_conflict(c)),
                self@ == (BuildView {
                    conflicts: start.conflicts + added.take(i as int),
                    ..mid
                }),
                self.same_pack(*old(self)),
        {
            let list = vec![("issue", Json::string(problems[i].as_str()))];
            assert(pair_views(list@) =~= seq![("issue"@, JsonView::Str(problems@[i as int]@))]);
            self.push_conflict(object_of(list));
            assert(added[i as int] == bare_conflict(problems@[i as int]@));
            assert(start.conflicts + added.take(i + 1) =~= (start.conflicts + added.take(
                i as int,
            )).push(added[i as int]));
        }
        assert(added.take(problems@.len() as int) =~= added);
    }

    /// Whether mods of CurseForge can be collected; an error where they are wanted and the
    /// support for it is switched off.
    pub fn cf_gate(&self, enabled: bool) -> (r: Result<(), String>)
        ensures
            match r {
                Ok(_) => self.args.cf_mods@.len() == 0 || enabled,
                Err(e) => self.args.cf_mods@.len() > 0 && !enabled && e@
                    == "cf_mods 需要在 config.toml 的 [curseforge] 打开 enabled 后使用"@,
            },
    {
        if self.args.cf_mods.len() > 0 && !enabled {
            return Err(
                "cf_mods 需要在 config.toml 的 [curseforge] 打开 enabled 后使用".to_string(),
            );
        }
        Ok(())
    }

    /// Records that a mod could not be looked up at CurseForge.
    pub fn cf_lookup_failed(&mut self, slug: &str, error: &str)
        ensures
            final(self)@ == old(self)@.with_conflict(
                conflict(slug@, "cfwidget 查询失败: "@ + error@),
            ),
            final(self).same_pack(*old(self)),
            old(self)@.inv() ==> final(self)@.inv(),
    {
        let issue = "cfwidget 查询失败: ".to_string().concat(error);
        self.push_conflict(make_conflict(slug, issue.as_str()));
    }

    /// Records that a mod has no file at CurseForge that fits.
    pub fn cf_no_file(&mut self, slug: &str)
        ensures
            final(self)@ == old(self)@.with_conflict(
                conflict(
                    slug@,
                    "CF 上没有 "@ + old(self).args.game_version@ + " / "@ + old(self).args.loader@
                        + " 的兼容文件"@,
                ),
            ),
            final(self).same_pack(*old(self)),
            old(self)@.inv() ==> final(self)@.inv(),
    {
        let issue = "CF 上没有 ".to_string().concat(self.args.game_version.as_str()).concat(
            " / ",
        ).concat(self.args.loader.as_str()).concat(" 的兼容文件");
        self.push_conflict(make_conflict(slug, issue.as_str()));
    }

    /// Records that a file could not be fetched from CurseForge.
    pub fn cf_fetch_failed(&mut self, slug: &str, error: &str)
        ensures
            final(self)@ == old(self)@.with_conflict(
                conflict(slug@, "CF 文件获取失败: "@ + error@),
            ),
            final(self).same_pack(*old(self)),
            old(self)@.inv() ==> final(self)@.inv(),
    {
        let issue = "CF 文件获取失败: ".to_string().concat(error);
        self.push_conflict(make_conflict(slug, issue.as_str()));
    }

    /// Adds a file from CurseForge, and the mods that it requires to those to look at.
    pub fn cf_add(&mut self, slug: &str, meta: &CfFileMeta, file: &CfFile)
        requires
            old(self).total_size + meta.size <= u64::MAX,
        ensures
            final(self)@ == old(self)@.with_cf_file(slug@, *meta, *file),
            final(self).same_pack(*old(self)),
            old(self)@.inv() ==> final(self)@.inv(),
    {
        let ghost start = self@;
        let (client, server) = env_from_file(file);
        let mb = format_mb2(meta.size);
        let list = vec![
            ("slug", Json::string(slug)),
            ("source", Json::string("curseforge")),
            ("filename", Json::string(meta.filename.as_str())),
            ("size_mb", Json::string(mb.as_str())),
        ];
        assert(pair_views(list@) =~= seq![
            ("slug"@, JsonView::Str(slug@)),
            ("source"@, JsonView::Str("curseforge"@)),
            ("filename"@, JsonView::Str(meta.filename@)),
            ("size_mb"@, JsonView::Str(mebibytes_2(meta.size as nat))),
        ]);
        let f = IndexFile {
            path: "mods/".to_string().concat(meta.filename.as_str()),
            sha1: meta.sha1.clone(),
            sha512: meta.sha512.clone(),
            client,
            server,
            url: meta.url.clone(),
            size: meta.size,
        };
        self.push_file(f, object_of(list));
        let key = "cf:".to_string().concat(slug);
        proof {
            lemma_views_push(self.seen@, key);
        }
        self.seen.push(key);
        let ghost deps = self.cf_deps@;
        let mut more = clone_list(&meta.depends);
        let ghost mv = views(more@);
        self.cf_deps.append(&mut more);
        assert(views(self.cf_deps@) =~= views(deps) + mv);
    }
}

/// Whether a mod that a CurseForge file requires is not known yet.
pub open spec fn is_new_dep(b: BuildView, dep: Seq<char>) -> bool {
    !b.seen.contains("cf:"@ + dep) && !b.final_slugs.contains(dep)
}

/// The position of the first mod from `k` on that is required and not known yet, or the number
/// of required mods.
pub open spec fn first_new_dep(b: BuildView, k: nat) -> nat
    decreases b.cf_deps.len() - k,
{
    if k >= b.cf_deps.len() || is_new_dep(b, b.cf_deps[k as int]) {
        k
    } else {
        first_new_dep(b, k + 1)
    }
}

/// The next mod to look for at Modrinth because a CurseForge file requires it, and the pack
/// after it was taken up.
pub open spec fn next_dep(b: BuildView) -> (Option<Seq<char>>, BuildView) {
    let k = first_new_dep(b, b.deps_done);
    if k >= b.cf_deps.len() {
        (None, BuildView { deps_done: k, ..b })
    } else {
        let dep = b.cf_deps[k as int];
        (Some(dep), BuildView { deps_done: k + 1, seen: b.seen.push("cf:"@ + dep), ..b })
    }
}

/// Why no file of a mod is taken, as far as its releases tell: they could not be read, there is
/// none, or the newest has no file. Else the file of the newest release to take.
pub open spec fn choose_file(
    a: BuildArgs,
    answer: Result<Vec<ModVersion>, String>,
) -> Result<int, Seq<char>> {
    match answer {
        Err(e) => Err("无法获取版本信息: "@ + e@),
        Ok(v) => if v@.len() == 0 {
            Err("没有 "@ + a.game_version@ + " / "@ + a.loader@ + " 的兼容版本"@)
        } else {
            match primary_file(v@[0].files@) {
                Some(i) => Ok(i),
                None => Err("兼容版本没有可下载文件"@),
            }
        },
    }
}

/// The description of a pack.
pub open spec fn description(
    version_id: Seq<char>,
    name: Seq<char>,
    summary: Seq<char>,
    files: Seq<FileView>,
    deps: JsonView,
) -> JsonView {
    object(
        seq![
            ("formatVersion"@, JsonView::Number(JsonNumber::Unsigned(1))),
            ("game"@, JsonView::Str("minecraft"@)),
            ("versionId"@, JsonView::Str(version_id)),
            ("name"@, JsonView::Str(name)),
            ("summary"@, JsonView::Str(summary)),
            ("files"@, JsonView::Array(file_trees(files))),
            ("dependencies"@, deps),
        ],
    )
}

/// The description of a pack.
pub fn describe(
    version_id: &str,
    name: &str,
    summary: &str,
    files: &Vec<IndexFile>,
    deps: Json,
) -> (r: Json)
    ensures
        r.tree() == description(version_id@, name@, summary@, file_views(files@), deps.tree()),
{
    let ghost fv = file_views(files@);
    let ghost dt = deps.tree();
    let mut items: Vec<Json> = Vec::new();
    for i in 0..files.len()
        invariant
            fv == file_views(files@),
            trees(items@) == file_trees(fv).take(i as int),
    {
        let j = file_json(&files[i]);
        proof {
            lemma_trees_push(items@, j);
        }
        items.push(j);
        assert(file_trees(fv).take(i + 1) =~= file_trees(fv).take(i as int).push(
            file_trees(fv)[i as int],
        ));
    }
    assert(file_trees(fv).take(files@.len() as int) =~= file_trees(fv));
    let list = vec![
        ("formatVersion", Json::number(1)),
        ("game", Json::string("minecraft")),
        ("versionId", Json::string(version_id)),
        ("name", Json::string(name)),
        ("summary", Json::string(summary)),
        ("files", Json::Array(items)),
        ("dependencies", deps),
    ];
    assert(pair_views(list@) =~= seq![
        ("formatVersion"@, JsonView::Number(JsonNumber::Unsigned(1))),
        ("game"@, JsonView::Str("minecraft"@)),
        ("versionId"@, JsonView::Str(version_id@)),
        ("name"@, JsonView::Str(name@)),
        ("summary"@, JsonView::Str(summary@)),
        ("files"@, JsonView::Array(file_trees(fv))),
        ("dependencies"@, dt),
    ]);
    object_of(list)
}

/// The dependencies of a pack: the game and the loader.
pub fn dependencies(game_version: &str, key: &str, loader_version: &str) -> (r: Json)
    ensures
        r.tree() == deps_tree(game_version@, key@, loader_version@),
{
    crate::json::Obj::new().with_str("minecraft", game_version).with_str(key, loader_version).json()
}

/// The description of a finished pack.
pub open spec fn index_tree(
    a: BuildArgs,
    key: Seq<char>,
    loader_version: Seq<char>,
    files: Seq<FileView>,
) -> JsonView {
    description(
        "rustagent-"@ + a.name@,
        a.name@,
        "由 RustAgent 生成的整合包 (MC "@ + a.game_version@ + " / "@ + a.loader@ + ")"@,
        files,
        deps_tree(a.game_version@, key, loader_version),
    )
}

/// The dependencies of a pack: the game and the loader.
pub open spec fn deps_tree(
    game_version: Seq<char>,
    key: Seq<char>,
    loader_version: Seq<char>,
) -> JsonView {
    JsonView::Object(
        Map::<Seq<char>, JsonView>::empty().insert(
            "minecraft"@,
            JsonView::Str(game_version),
        ).insert(key, JsonView::Str(loader_version)),
    )
}

/// What the model is told of a finished pack.
pub open spec fn build_report(
    b: BuildView,
    output_path: Seq<char>,
    db_summary: Seq<char>,
) -> JsonView {
    object(
        seq![
            ("output_path"@, JsonView::Str(output_path)),
            ("mod_count"@, JsonView::Number(JsonNumber::Unsigned(b.summaries.len() as u64))),
            ("total_size_mb"@, JsonView::Str(mebibytes_1(b.total_size))),
            ("auto_added"@, str_array(b.auto_added)),
            ("mods"@, JsonView::Array(b.summaries)),
            ("conflicts"@, JsonView::Array(b.conflicts)),
            ("db_summary"@, JsonView::Str(db_summary)),
            (
                "note"@,
                JsonView::Str(
                    if b.conflicts.len() == 0 {
                        "无冲突"@
                    } else {
                        "存在冲突条目, 请向用户说明"@
                    },
                ),
            ),
        ],
    )
}

/// The slugs of mods from CurseForge, marked as such.
pub open spec fn marked(s: Seq<Seq<char>>) -> Seq<Seq<char>> {
    s.map_values(|x: Seq<char>| "cf:"@ + x)
}

/// A name without the characters that file names may not hold.
pub open spec fn safe_name(name: Seq<char>) -> Seq<char> {
    replace_char_spec(
        replace_char_spec(
            replace_char_spec(replace_char_spec(name, '/', '-'), '\\', '-'),
            ':',
            '-',
        ),
        '*',
        '-',
    )
}

/// Replaces the characters that file names may not hold.
pub(crate) fn safe_name_of(name: &str) -> (r: String)
    ensures
        r@ == safe_name(name@),
{
    let a = replace_char(name, '/', '-');
    let b = replace_char(a.as_str(), '\\', '-');
    let c = replace_char(b.as_str(), ':', '-');
    replace_char(c.as_str(), '*', '-')
}

/// The file name of a pack.
pub fn pack_file_name(name: &str) -> (r: String)
    ensures
        r@ == safe_name(name@) + ".mrpack"@,
{
    safe_name_of(name).concat(".mrpack")
}

/// The file name of a pack never leads into another directory.
pub proof fn lemma_safe_name(name: Seq<char>)
    ensures
        !safe_name(name).contains('/'),
        !safe_name(name).contains('\\'),
        safe_name(name).len() == name.len(),
{
    assert forall|i: int| 0 <= i < safe_name(name).len() implies safe_name(name)[i] != '/'
        && safe_name(name)[i] != '\\' by {}
}

impl PackBuild {
    /// The next mod to look for at Modrinth because a CurseForge file requires it.
    pub fn next_cf_dep(&mut self) -> (r: Option<String>)
        requires
            old(self)@.inv(),
        ensures
            crate::json::opt_view(r) == next_dep(old(self)@).0,
            final(self)@ == next_dep(old(self)@).1,
            final(self).same_pack(*old(self)),
            final(self)@.inv(),
    {
        let ghost start = self@;
        while self.deps_done < self.cf_deps.len()
            invariant
                self.same_pack(*old(self)),
                start == old(self)@,
                start.inv(),
                self@ == (BuildView { deps_done: self.deps_done as nat, ..start }),
                self.deps_done <= self.cf_deps@.len(),
                first_new_dep(start, start.deps_done) == first_new_dep(
                    start,
                    self.deps_done as nat,
                ),
            decreases self.cf_deps@.len() - self.deps_done,
        {
            let dep = self.cf_deps[self.deps_done].clone();
            assert(start.cf_deps[self.deps_done as int] == dep@);
            let key = "cf:".to_string().concat(dep.as_str());
            if !list_contains(&self.seen, key.as_str()) && !list_contains(
                &self.final_slugs,
                dep.as_str(),
            ) {
                proof {
                    lemma_views_push(self.seen@, key);
                }
                self.seen.push(key);
                self.deps_done = self.deps_done + 1;
                assert(self@ =~= next_dep(start).1);
                return Some(dep);
            }
            self.deps_done = self.deps_done + 1;
            assert(self@ =~= BuildView { deps_done: self.deps_done as nat, ..start });
        }
        assert(self@ =~= next_dep(start).1);
        None
    }

    /// Takes in whether Modrinth has a mod that a CurseForge file requires: it is collected
    /// too, or the user is to be told.
    pub fn on_cf_dep(&mut self, dep: &str, found: bool)
        ensures
            final(self)@ == (if found {
                BuildView {
                    final_slugs: old(self)@.final_slugs.push(dep@),
                    auto_added: old(self)@.auto_added.push(dep@),
                    ..old(self)@
                }
            } else {
                old(self)@.with_conflict(
                    conflict(
                        dep@,
                        "CF mod 声明的前置在 Modrinth 无同名项目, 请提醒用户手动确认"@,
                    ),
                )
            }),
            final(self).same_pack(*old(self)),
            old(self)@.inv() ==> final(self)@.inv(),
    {
        if found {
            let a = dep.to_string();
            let b = dep.to_string();
            proof {
                lemma_views_push(self.final_slugs@, a);
                lemma_views_push(self.auto_added@, b);
            }
            self.final_slugs.push(a);
            self.auto_added.push(b);
        } else {
            self.push_conflict(
                make_conflict(
                    dep,
                    "CF mod 声明的前置在 Modrinth 无同名项目, 请提醒用户手动确认",
                ),
            );
        }
    }

    /// Takes up a mod to collect. Says whether it is the first time; a repetition is recorded.
    pub fn claim(&mut self, slug: &str) -> (r: bool)
        ensures
            r == !old(self)@.seen.contains(slug@),
            final(self)@ == (if r {
                BuildView { seen: old(self)@.seen.push(slug@), ..old(self)@ }
            } else {
                old(self)@.with_conflict(conflict(slug@, "重复添加"@))
            }),
            final(self).same_pack(*old(self)),
            old(self)@.inv() ==> final(self)@.inv(),
    {
        if list_contains(&self.seen, slug) {
            self.push_conflict(make_conflict(slug, "重复添加"));
            return false;
        }
        let s = slug.to_string();
        proof {
            lemma_views_push(self.seen@, s);
        }
        self.seen.push(s);
        true
    }

    /// Chooses the file of a mod from its releases. Where there is none, that is recorded.
    pub fn select(&mut self, slug: &str, answer: &Result<Vec<ModVersion>, String>) -> (r: Option<
        usize,
    >)
        ensures
            match (r, choose_file(old(self).args, *answer)) {
                (Some(i), Ok(k)) => i == k && final(self)@ == old(self)@ && answer is Ok
                    && answer->Ok_0@.len() > 0 && i < answer->Ok_0@[0].files@.len(),
                (None, Err(issue)) => final(self)@ == old(self)@.with_conflict(
                    conflict(slug@, issue),
                ),
                _ => false,
            },
            final(self).same_pack(*old(self)),
            old(self)@.inv() ==> final(self)@.inv(),
    {
        let issue = match answer {
            Err(e) => "无法获取版本信息: ".to_string().concat(e.as_str()),
            Ok(v) => if v.len() == 0 {
                "没有 ".to_string().concat(self.args.game_version.as_str()).concat(" / ").concat(
                    self.args.loader.as_str(),
                ).concat(" 的兼容版本")
            } else {
                match pick_file(&v[0].files) {
                    Some(i) => {
                        return Some(i);
                    },
                    None => "兼容版本没有可下载文件".to_string(),
                }
            },
        };
        self.push_conflict(make_conflict(slug, issue.as_str()));
        None
    }

    /// Adds the chosen file of a mod. Where the sides that it runs on are not known, it is
    /// required on both.
    pub fn add(
        &mut self,
        slug: &str,
        version: &ModVersion,
        i: usize,
        env: Option<(String, String)>,
    )
        requires
            i < version.files@.len(),
            old(self).total_size + version.files@[i as int].size <= u64::MAX,
        ensures
            final(self)@ == old(self)@.with_mod(slug@, *version, i as int, env),
            final(self).same_pack(*old(self)),
            old(self)@.inv() ==> final(self)@.inv(),
    {
        let file = &version.files[i];
        let (client, server) = match env {
            Some(e) => e,
            None => ("required".to_string(), "required".to_string()),
        };
        let mb = format_mb2(file.size);
        let list = vec![
            ("slug", Json::string(slug)),
            ("version", Json::string(version.version_number.as_str())),
            ("filename", Json::string(file.filename.as_str())),
            ("size_mb", Json::string(mb.as_str())),
        ];
        assert(pair_views(list@) =~= seq![
            ("slug"@, JsonView::Str(slug@)),
            ("version"@, JsonView::Str(version.version_number@)),
            ("filename"@, JsonView::Str(file.filename@)),
            ("size_mb"@, JsonView::Str(mebibytes_2(file.size as nat))),
        ]);
        let f = IndexFile {
            path: "mods/".to_string().concat(file.filename.as_str()),
            sha1: file.hashes.sha1.clone(),
            sha512: file.hashes.sha512.clone(),
            client,
            server,
            url: file.url.clone(),
            size: file.size,
        };
        self.push_file(f, object_of(list));
    }

    /// Refuses a pack without files, with all that went wrong.
    pub fn check_files(&self) -> (r: Result<(), String>)
        ensures
            match r {
                Ok(_) => self@.files.len() > 0,
                Err(e) => self@.files.len() == 0 && e@
                    == "没有任何 mod 能解析出兼容版本, 组包中止. 详情: "@ + json_compact(
                    JsonView::Array(self@.conflicts),
                ),
            },
    {
        assert(self@.files.len() == self.files@.len());
        if self.files.len() == 0 {
            let detail = crate::json::render_items(&self.conflicts);
            return Err(
                "没有任何 mod 能解析出兼容版本, 组包中止. 详情: ".to_string().concat(
                    detail.as_str(),
                ),
            );
        }
        Ok(())
    }

    /// The description of the pack.
    pub fn index(&self, loader_version: &str) -> (r: Json)
        ensures
            r.tree() == index_tree(self.args, self.dep_key@, loader_version@, self@.files),
    {
        let version_id = "rustagent-".to_string().concat(self.args.name.as_str());
        let summary = "由 RustAgent 生成的整合包 (MC ".to_string().concat(
            self.args.game_version.as_str(),
        ).concat(" / ").concat(self.args.loader.as_str()).concat(")");
        let deps = dependencies(self.args.game_version.as_str(), self.dep_key, loader_version);
        describe(
            version_id.as_str(),
            self.args.name.as_str(),
            summary.as_str(),
            &self.files,
            deps,
        )
    }

    /// What the model is told of the finished pack.
    pub fn report(&self, output_path: &str, db_summary: &str) -> (r: Json)
        ensures
            r.tree() == build_report(self@, output_path@, db_summary@),
    {
        let mb = format_mb1(self.total_size);
        let note = if self.conflicts.len() == 0 {
            "无冲突"
        } else {
            "存在冲突条目, 请向用户说明"
        };
        let list = vec![
            ("output_path", Json::string(output_path)),
            ("mod_count", Json::number(self.summaries.len() as u64)),
            ("total_size_mb", Json::string(mb.as_str())),
            ("auto_added", Json::strings(&self.auto_added)),
            ("mods", crate::json::array_of(&self.summaries)),
            ("conflicts", crate::json::array_of(&self.conflicts)),
            ("db_summary", Json::string(db_summary)),
            ("note", Json::string(note)),
        ];
        let ghost b = self@;
        assert(b.conflicts.len() == self.conflicts@.len());
        assert(b.summaries.len() == self.summaries@.len());
        assert(pair_views(list@) =~= seq![
            ("output_path"@, JsonView::Str(output_path@)),
            ("mod_count"@, JsonView::Number(JsonNumber::Unsigned(b.summaries.len() as u64))),
            ("total_size_mb"@, JsonView::Str(mebibytes_1(b.total_size))),
            ("auto_added"@, str_array(b.auto_added)),
            ("mods"@, JsonView::Array(b.summaries)),
            ("conflicts"@, JsonView::Array(b.conflicts)),
            ("db_summary"@, JsonView::Str(db_summary@)),
            (
                "note"@,
                JsonView::Str(
                    if b.conflicts.len() == 0 {
                        "无冲突"@
                    } else {
                        "存在冲突条目, 请向用户说明"@
                    },
                ),
            ),
        ]);
        object_of(list)
    }

    /// The mods of the pack as the user's records hold them: those from Modrinth, then those
    /// from CurseForge, marked as such.
    pub fn record_slugs(&self) -> (r: Vec<String>)
        ensures
            views(r@) == self@.final_slugs + marked(views(self.args.cf_mods@)),
    {
        let mut r = clone_list(&self.final_slugs);
        let ghost start = self@.final_slugs;
        let ghost m = marked(views(self.args.cf_mods@));
        assert(start + m.take(0) =~= start);
        for i in 0..self.args.cf_mods.len()
            invariant
                m == marked(views(self.args.cf_mods@)),
                views(r@) == start + m.take(i as int),
        {
            let s = "cf:".to_string().concat(self.args.cf_mods[i].as_str());
            proof {
                lemma_views_push(r@, s);
            }
            r.push(s);
            assert(m[i as int] == s@);
            assert(start + m.take(i + 1) =~= (start + m.take(i as int)).push(m[i as int]));
        }
        assert(m.take(self.args.cf_mods@.len() as int) =~= m);
        r
    }
}

proof fn lemma_file_is_plain(f: FileView)
    ensures
        is_plain(file_tree(f), 3),
{
    let hashes = seq![("sha1"@, JsonView::Str(f.sha1)), ("sha512"@, JsonView::Str(f.sha512))];
    let env = seq![("client"@, JsonView::Str(f.client)), ("server"@, JsonView::Str(f.server))];
    lemma_plain_object(hashes, 0);
    lemma_plain_object(env, 0);
    let urls = crate::json::str_items(seq![f.url]);
    lemma_plain_array(urls, 0);
    let all = seq![
        ("path"@, JsonView::Str(f.path)),
        ("hashes"@, object(hashes)),
        ("env"@, object(env)),
        ("downloads"@, str_array(seq![f.url])),
        ("fileSize"@, JsonView::Number(JsonNumber::Unsigned(f.size))),
    ];
    lemma_plain_object(all, 1);
    lemma_plain_deeper(file_tree(f), 2, 3);
}

/// The description of a pack can be read back from its text.
pub proof fn lemma_description_is_plain(
    version_id: Seq<char>,
    name: Seq<char>,
    summary: Seq<char>,
    files: Seq<FileView>,
    game_version: Seq<char>,
    key: Seq<char>,
    loader_version: Seq<char>,
)
    ensures
        is_plain(
            description(
                version_id,
                name,
                summary,
                files,
                deps_tree(game_version, key, loader_version),
            ),
            100,
        ),
{
    let ft = file_trees(files);
    assert forall|i: int| 0 <= i < ft.len() implies is_plain(#[trigger] ft[i], 3) by {
        lemma_file_is_plain(files[i]);
    }
    lemma_plain_array(ft, 3);
    let deps = seq![
        ("minecraft"@, JsonView::Str(game_version)),
        (key, JsonView::Str(loader_version)),
    ];
    lemma_plain_object(deps, 0);
    reveal_with_fuel(object_map, 3);
    assert(deps.drop_last().drop_last() =~= Seq::<(Seq<char>, JsonView)>::empty());
    assert(object_map(deps) =~= deps_tree(game_version, key, loader_version)->Object_0);
    lemma_plain_deeper(object(deps), 1, 4);
    let all = seq![
        ("formatVersion"@, JsonView::Number(JsonNumber::Unsigned(1))),
        ("game"@, JsonView::Str("minecraft"@)),
        ("versionId"@, JsonView::Str(version_id)),
        ("name"@, JsonView::Str(name)),
        ("summary"@, JsonView::Str(summary)),
        ("files"@, JsonView::Array(ft)),
        ("dependencies"@, deps_tree(game_version, key, loader_version)),
    ];
    lemma_plain_object(all, 4);
    lemma_plain_deeper(object(all), 5, 100);
}

/// What is read from the file of a pack: its description, or the text of an error.
pub open spec fn pack_read(bytes: Seq<u8>) -> Result<JsonView, Seq<char>> {
    match archive_entry(bytes, INDEX_NAME@) {
        EntryView::BadArchive(e) => Err(e),
        EntryView::Absent(e) => Err(e),
        EntryView::Unreadable(e) => Err(e),
        EntryView::Text(t) => json_parsed(t),
    }
}

/// Whether the bytes are a pack with the given description.
pub open spec fn holds_index(bytes: Seq<u8>, index: JsonView) -> bool {
    pack_read(bytes) == Ok::<JsonView, Seq<char>>(index)
}

impl PackBuild {
    /// The pack as a file. What is read from it is the description that was written.
    pub fn pack_file(&self, loader_version: &str) -> (r: Result<Vec<u8>, String>)
        ensures
            failure_of(r) == archive_failure(
                json_pretty(index_tree(self.args, self.dep_key@, loader_version@, self@.files)),
            ),
            r matches Ok(b) ==> holds_index(
                b@,
                index_tree(self.args, self.dep_key@, loader_version@, self@.files),
            ),
    {
        let index = self.index(loader_version);
        proof {
            let a = self.args;
            lemma_description_is_plain(
                "rustagent-"@ + a.name@,
                a.name@,
                "由 RustAgent 生成的整合包 (MC "@ + a.game_version@ + " / "@ + a.loader@ + ")"@,
                self@.files,
                a.game_version@,
                self.dep_key@,
                loader_version@,
            );
        }
        let text = render_pretty(&index);
        pack_bytes(text.as_str())
    }
}

/// What is reported before the dependencies are looked for.
pub fn closure_report(count: usize) -> (r: String)
    ensures
        r@ == "解析依赖闭包 ("@ + dec(count as nat) + " 个 mod)"@,
{
    "解析依赖闭包 (".to_string().concat(usize_to_string(count).as_str()).concat(" 个 mod)")
}

/// What is reported once the dependencies are known.
pub fn closure_done_report(all: usize, added: usize) -> (r: String)
    ensures
        r@ == "依赖闭包解析完成: 共 "@ + dec(all as nat) + " 个 mod (自动补充前置 "@ + dec(
            added as nat,
        ) + " 个)"@,
{
    "依赖闭包解析完成: 共 ".to_string().concat(usize_to_string(all).as_str()).concat(
        " 个 mod (自动补充前置 ",
    ).concat(usize_to_string(added).as_str()).concat(" 个)")
}

/// What is reported when a mod is taken up; `n` counts from 1.
pub fn collect_report(slug: &str, n: usize, total: usize) -> (r: String)
    ensures
        r@ == "正在收集 mod "@ + slug@ + " ("@ + dec(n as nat) + "/"@ + dec(total as nat) + ")"@,
{
    "正在收集 mod ".to_string().concat(slug).concat(" (").concat(usize_to_string(n).as_str()).concat(
        "/",
    ).concat(usize_to_string(total).as_str()).concat(")")
}

/// What is reported when a mod of CurseForge is taken up; `n` counts from 1.
pub fn cf_report(slug: &str, n: usize, total: usize) -> (r: String)
    ensures
        r@ == "解析 CF mod "@ + slug@ + " ("@ + dec(n as nat) + "/"@ + dec(total as nat) + ")"@,
{
    "解析 CF mod ".to_string().concat(slug).concat(" (").concat(usize_to_string(n).as_str()).concat(
        "/",
    ).concat(usize_to_string(total).as_str()).concat(")")
}

/// What is reported before the version of a loader is looked for.
pub fn loader_report(loader: &str) -> (r: String)
    ensures
        r@ == "获取 "@ + loader@ + " loader 版本"@,
{
    "获取 ".to_string().concat(loader).concat(" loader 版本")
}

/// What is reported before a pack is written.
pub fn write_report(count: usize) -> (r: String)
    ensures
        r@ == "写入整合包文件 "@ + dec(count as nat) + " 个 mod"@,
{
    "写入整合包文件 ".to_string().concat(usize_to_string(count).as_str()).concat(" 个 mod")
}

} // verus!

//! A small pack to try out the services and the launcher: two mods for Fabric.

use vstd::prelude::*;
use vstd::string::StringExecFns;

use crate::archive::pack_bytes;
#[allow(unused_imports)]
use crate::archive::{archive_failure, failure_of};
#[allow(unused_imports)]
use crate::json::{json_pretty, JsonView};
use crate::json::{render_pretty, Json};
use crate::modrinth::{Hit, ModVersion};
#[allow(unused_imports)]
use crate::modrinth::VersionFile;
#[allow(unused_imports)]
use crate::number::dec;
use crate::number::{u64_to_string, usize_to_string};
use crate::text::{is_empty, join, str_eq};
#[allow(unused_imports)]
use crate::text::{join_spec, views};
#[allow(unused_imports)]
use crate::tools::build_pack::{
    deps_tree, description, file_views, holds_index, lemma_description_is_plain, primary_file,
    FileView,
};
use crate::tools::build_pack::{dependencies, describe, pick_file, IndexFile};
use crate::tools::loader_meta::{pick_fabric_version, LoaderEntry};
#[allow(unused_imports)]
use crate::tools::loader_meta::first_stable;
#[allow(unused_imports)]
use crate::tools::search::recent;
use crate::tools::search::recent_versions;

verus! {

pub const GAME_VERSION: &'static str = "1.21.1";

pub const LOADER: &'static str = "fabric";

/// The mods of the small pack.
pub fn sample_mods() -> (r: Vec<String>)
    ensures
        views(r@) == seq!["sodium"@, "fabric-api"@],
{
    let r = vec!["sodium".to_string(), "fabric-api".to_string()];
    assert(views(r@) =~= seq!["sodium"@, "fabric-api"@]);
    r
}

/// The loader version that is taken where the service does not tell one.
pub const FALLBACK_LOADER: &'static str = "0.16.14";

/// The file that the pack is written to.
pub const OUTPUT: &'static str = "RustAgent-test.mrpack";

/// What is to be done.
pub enum Task {
    Pack,
    Search(String),
}

/// What an argument asks for: the pack, or a search, for `create` where nothing is said.
pub fn read_task(arg: Option<&String>) -> (r: Task)
    ensures
        match arg {
            None => r matches Task::Search(q) && q@ == "create"@,
            Some(a) => if a@ == "pack"@ {
                r is Pack
            } else if a@.len() == 0 {
                r matches Task::Search(q) && q@ == "create"@
            } else {
                r matches Task::Search(q) && q@ == a@
            },
        },
{
    match arg {
        None => Task::Search("create".to_string()),
        Some(a) => if str_eq(a.as_str(), "pack") {
            Task::Pack
        } else if is_empty(a.as_str()) {
            Task::Search("create".to_string())
        } else {
            Task::Search(a.clone())
        },
    }
}

/// What is shown of a found mod.
pub open spec fn hit_text(h: crate::modrinth::HitView) -> Seq<Seq<char>> {
    seq![
        "["@ + h.title + "] "@ + h.slug,
        "  作者: "@ + h.author + " | 下载量: "@ + dec(h.downloads as nat),
        "  简介: "@ + h.description,
        "  分类: "@ + join_spec(h.display_categories, ", "@),
        "  支持版本: 共"@ + dec(h.versions.len()) + "个, 最近: "@ + join_spec(
            recent(h.versions),
            ", "@,
        ),
        "---"@,
    ]
}

/// What is shown of a found mod.
pub fn hit_lines(h: &Hit) -> (r: Vec<String>)
    ensures
        views(r@) == hit_text(h@),
{
    let latest = recent_versions(&h.versions);
    let r = vec![
        "[".to_string().concat(h.title.as_str()).concat("] ").concat(h.slug.as_str()),
        "  作者: ".to_string().concat(h.author.as_str()).concat(" | 下载量: ").concat(
            u64_to_string(h.downloads).as_str(),
        ),
        "  简介: ".to_string().concat(h.description.as_str()),
        "  分类: ".to_string().concat(join(&h.display_categories, ", ").as_str()),
        "  支持版本: 共".to_string().concat(usize_to_string(h.versions.len()).as_str()).concat(
            "个, 最近: ",
        ).concat(join(&latest, ", ").as_str()),
        "---".to_string(),
    ];
    assert(views(r@) =~= hit_text(h@));
    r
}

/// The loader version to take: the first stable one that the service lists, else a known one.
pub fn loader_version(entries: Option<&Vec<LoaderEntry>>) -> (r: String)
    ensures
        r@ == (match entries {
            Some(v) => match first_stable(v@) {
                Some(s) => s,
                None => FALLBACK_LOADER@,
            },
            None => FALLBACK_LOADER@,
        }),
{
    match entries {
        Some(v) => match pick_fabric_version(v) {
            Ok(s) => s,
            Err(_) => FALLBACK_LOADER.to_string(),
        },
        None => FALLBACK_LOADER.to_string(),
    }
}

/// The pack in the making.
pub struct SamplePack {
    pub files: Vec<IndexFile>,
}

/// A file of a release as the pack holds it; it is needed by the game and by the server.
pub open spec fn sample_file(f: VersionFile) -> FileView {
    FileView {
        path: "mods/"@ + f.filename@,
        sha1: f.hashes.sha1@,
        sha512: f.hashes.sha512@,
        client: "required"@,
        server: "required"@,
        url: f.url@,
        size: f.size,
    }
}

/// The description of the pack.
pub open spec fn sample_index(files: Seq<FileView>, loader_version: Seq<char>) -> JsonView {
    description(
        "rustagent-test-"@ + GAME_VERSION@,
        "RustAgent 测试整合包"@,
        "RustAgent 生成的最小验证整合包"@,
        files,
        deps_tree(GAME_VERSION@, "fabric-loader"@, loader_version),
    )
}

impl SamplePack {
    /// A pack without files.
    pub fn new() -> (r: SamplePack)
        ensures
            r.files@.len() == 0,
    {
        SamplePack { files: Vec::new() }
    }

    /// Takes up the first of the releases of a mod, with its main file. Returns what is shown of
    /// it, or that there is no release.
    pub fn add(&mut self, slug: &str, versions: &Vec<ModVersion>) -> (r: Result<String, String>)
        requires
            versions@.len() > 0 ==> versions@[0].files@.len() > 0,
        ensures
            match r {
                Ok(line) => {
                    &&& versions@.len() > 0
                    &&& primary_file(versions@[0].files@) matches Some(i)
                    &&& line@ == slug@ + " -> "@ + versions@[0].version_number@ + " ("@
                        + versions@[0].files@[i].filename@ + ")"@
                    &&& file_views(final(self).files@) == file_views(old(self).files@).push(
                        sample_file(versions@[0].files@[i]),
                    )
                },
                Err(e) => {
                    &&& versions@.len() == 0
                    &&& e@ == slug@ + " 没有 "@ + GAME_VERSION@ + "/"@ + LOADER@ + " 的版本"@
                    &&& final(self).files == old(self).files
                },
            },
    {
        if versions.len() == 0 {
            return Err(
                slug.to_string().concat(" 没有 ").concat(GAME_VERSION).concat("/").concat(
                    LOADER,
                ).concat(" 的版本"),
            );
        }
        let v = &versions[0];
        match pick_file(&v.files) {
            Some(i) => {
                let f = &v.files[i];
                let line = slug.to_string().concat(" -> ").concat(
                    v.version_number.as_str(),
                ).concat(" (").concat(f.filename.as_str()).concat(")");
                let item = IndexFile {
                    path: "mods/".to_string().concat(f.filename.as_str()),
                    sha1: f.hashes.sha1.clone(),
                    sha512: f.hashes.sha512.clone(),
                    client: "required".to_string(),
                    server: "required".to_string(),
                    url: f.url.clone(),
                    size: f.size,
                };
                let ghost fv = item@;
                let ghost before = file_views(self.files@);
                self.files.push(item);
                assert(file_views(self.files@) =~= before.push(fv));
                Ok(line)
            },
            None => {
                assert(false);
                Ok(String::new())
            },
        }
    }

    /// The description of the pack.
    pub fn index(&self, loader_version: &str) -> (r: Json)
        ensures
            r.tree() == sample_index(file_views(self.files@), loader_version@),
    {
        let version_id = "rustagent-test-".to_string().concat(GAME_VERSION);
        let deps = dependencies(GAME_VERSION, "fabric-loader", loader_version);
        describe(
            version_id.as_str(),
            "RustAgent 测试整合包",
            "RustAgent 生成的最小验证整合包",
            &self.files,
            deps,
        )
    }

    /// The pack as a file. What is read from it is the description that was written.
    pub fn pack_file(&self, loader_version: &str) -> (r: Result<Vec<u8>, String>)
        ensures
            failure_of(r) == archive_failure(
                json_pretty(sample_index(file_views(self.files@), loader_version@)),
            ),
            r matches Ok(b) ==> holds_index(
                b@,
                sample_index(file_views(self.files@), loader_version@),
            ),
    {
        let index = self.index(loader_version);
        proof {
            lemma_description_is_plain(
                "rustagent-test-"@ + GAME_VERSION@,
                "RustAgent 测试整合包"@,
                "RustAgent 生成的最小验证整合包"@,
                file_views(self.files@),
                GAME_VERSION@,
                "fabric-loader"@,
                loader_version@,
            );
        }
        let text = render_pretty(&index);
        pack_bytes(text.as_str())
    }

    /// What is shown at the end.
    pub fn report(&self) -> (r: String)
        ensures
            r@ == "已生成 "@ + OUTPUT@ + " ("@ + dec(self.files@.len()) + " 个 mod)"@,
    {
        "已生成 ".to_string().concat(OUTPUT).concat(" (").concat(
            usize_to_string(self.files.len()).as_str(),
        ).concat(" 个 mod)")
    }
}

} // verus!

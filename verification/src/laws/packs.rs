//! Laws of building packs: which files are chosen, and what a pack and its report hold.

use vstd::prelude::*;

#[allow(unused_imports)]
use crate::archive::{archive_entry, EntryView};
#[allow(unused_imports)]
use crate::curseforge::{
    at_least_as_good, cdn_address, env_of, fabric_requires, fits, forge_requires, is_choice,
    is_found, asks_to_wait, is_meta, jar_requires, none_fits, CfFile, CfFileMeta,
};
#[allow(unused_imports)]
use crate::json::{json_parsed, object_map, str_array, JsonView};
#[allow(unused_imports)]
use crate::manifest::{toml_parsed, TomlView};
#[allow(unused_imports)]
use crate::modrinth::{ModVersion, VersionFile};
#[allow(unused_imports)]
use crate::number::{dec, mebibytes_1, mebibytes_2};
#[allow(unused_imports)]
use crate::text::views;
#[allow(unused_imports)]
use crate::tools::build_pack::{
    build_report, choose_file, conflict, file_tree, first_new_dep, index_tree, is_new_dep,
    lemma_first_primary, next_dep, primary_file, refusal, release_file, safe_name, sum_sizes,
    BuildArgs, BuildView, FileView,
};
#[allow(unused_imports)]
use crate::tools::build_run::{
    from_collect, from_deps, next_step, with_dep, with_fetched, BuildStepView, RunView, StageView,
};
#[allow(unused_imports)]
use crate::tools::loader_meta::dep_key;

verus! {

// ---------------------------------------------------------------------------
// Choosing files
// ---------------------------------------------------------------------------

/// The tag that stands for a loader among the tags of a file.
pub open spec fn tag_for(loader: Seq<char>, tag: Seq<char>) -> bool {
    ||| loader == "fabric"@ && tag == "Fabric"@
    ||| loader == "quilt"@ && tag == "Quilt"@
    ||| loader == "neoforge"@ && tag == "NeoForge"@
    ||| loader == "forge"@ && tag == "Forge"@
}

/// A file of CurseForge is for a game version and a loader where its tags name both.
pub proof fn lemma_what_a_file_is_for(
    f: CfFile,
    game_version: Seq<char>,
    loader: Seq<char>,
    tag: Seq<char>,
)
    requires
        tag_for(loader, tag),
    ensures
        fits(f, game_version, loader) <==> views(f.versions@).contains(game_version) && views(
            f.versions@,
        ).contains(tag),
{
    crate::tools::loader_meta::lemma_loaders_differ();
}

/// The file that is chosen of CurseForge is for the game version and the loader. It is a release
/// where there is one that fits, and of those that fit and are of the same sort none has a greater
/// id, wherever they stand in the list.
pub proof fn lemma_newest_file_is_chosen(
    files: Seq<CfFile>,
    game_version: Seq<char>,
    loader: Seq<char>,
    i: int,
    j: int,
)
    requires
        is_choice(files, game_version, loader, i),
        0 <= j < files.len(),
        fits(files[j], game_version, loader),
    ensures
        0 <= i < files.len(),
        fits(files[i], game_version, loader),
        files[j].kind@ == "release"@ ==> files[i].kind@ == "release"@,
        (files[j].kind@ == "release"@ <==> files[i].kind@ == "release"@) ==> files[j].id
            <= files[i].id,
{
}

/// There is nothing to choose only where no file fits; and where one fits, one is chosen.
pub proof fn lemma_something_is_chosen(
    files: Seq<CfFile>,
    game_version: Seq<char>,
    loader: Seq<char>,
    j: int,
) -> (i: int)
    requires
        0 <= j < files.len(),
        fits(files[j], game_version, loader),
    ensures
        !none_fits(files, game_version, loader),
        is_choice(files, game_version, loader, i),
{
    lemma_best_among(files, game_version, loader, files.len() as int, j)
}

proof fn lemma_best_among(
    files: Seq<CfFile>,
    game_version: Seq<char>,
    loader: Seq<char>,
    n: int,
    j: int,
) -> (i: int)
    requires
        0 <= j < n <= files.len(),
        fits(files[j], game_version, loader),
    ensures
        is_choice(files.take(n), game_version, loader, i),
        n == files.len() ==> is_choice(files, game_version, loader, i),
    decreases n,
{
    let s = files.take(n);
    let last = n - 1;
    assert(s.len() == n);
    if exists|k: int| 0 <= k < last && fits(#[trigger] files[k], game_version, loader) {
        let k = choose|k: int| 0 <= k < last && fits(#[trigger] files[k], game_version, loader);
        let b = lemma_best_among(files, game_version, loader, last, k);
        let t = files.take(last);
        assert(forall|x: int| 0 <= x < last ==> t[x] == s[x]);
        let r = if fits(files[last], game_version, loader) && at_least_as_good(
            files[last],
            files[b],
        ) {
            last
        } else {
            b
        };
        assert forall|x: int|
            0 <= x < s.len() && fits(#[trigger] s[x], game_version, loader) implies at_least_as_good(
            s[r],
            s[x],
        ) by {
            if x < last {
                assert(fits(t[x], game_version, loader));
                assert(at_least_as_good(t[b], t[x]));
            }
        }
        assert forall|x: int|
            r < x < s.len() && fits(#[trigger] s[x], game_version, loader) implies !at_least_as_good(
            s[x],
            s[r],
        ) by {
            if x < last {
                assert(fits(t[x], game_version, loader));
            }
        }
        assert(s[r] == files[r]);
        assert(is_choice(s, game_version, loader, r));
        if n == files.len() {
            assert(s =~= files);
        }
        r
    } else {
        assert(j == last);
        assert(s[last] == files[last]);
        assert forall|x: int| 0 <= x < s.len() && fits(#[trigger] s[x], game_version, loader) implies x
            == last by {
            assert(s[x] == files[x]);
        }
        if n == files.len() {
            assert(s =~= files);
        }
        last
    }
}

/// The file of a release is the first that is marked as primary, and the first of all where none
/// is; there is none only where the release has no file.
pub proof fn lemma_file_of_a_release(s: Seq<VersionFile>)
    ensures
        s.len() == 0 ==> primary_file(s) is None,
        s.len() > 0 ==> (primary_file(s) matches Some(i) && 0 <= i < s.len() && (s[i].primary || i
            == 0) && (forall|j: int| 0 <= j < i ==> !(#[trigger] s[j]).primary) && (!s[i].primary
            ==> forall|j: int| 0 <= j < s.len() ==> !(#[trigger] s[j]).primary)),
{
    if exists|i: int| 0 <= i < s.len() && (#[trigger] s[i]).primary {
        let i = choose|i: int| 0 <= i < s.len() && (#[trigger] s[i]).primary;
        let f = lemma_first_at(s, i);
        lemma_first_primary(s, f);
    }
}

proof fn lemma_first_at(s: Seq<VersionFile>, i: int) -> (f: int)
    requires
        0 <= i < s.len(),
        s[i].primary,
    ensures
        0 <= f <= i,
        s[f].primary,
        forall|j: int| 0 <= j < f ==> !(#[trigger] s[j]).primary,
    decreases i,
{
    if exists|j: int| 0 <= j < i && (#[trigger] s[j]).primary {
        let j = choose|j: int| 0 <= j < i && (#[trigger] s[j]).primary;
        lemma_first_at(s, j)
    } else {
        i
    }
}

/// Of a mod the file of its newest release is taken, which the catalogue lists first; where there
/// is none the reason is recorded.
pub proof fn lemma_newest_release_is_taken(a: BuildArgs, answer: Result<Vec<ModVersion>, String>)
    ensures
        answer matches Err(e) ==> choose_file(a, answer) == Err::<int, Seq<char>>(
            "无法获取版本信息: "@ + e@,
        ),
        answer matches Ok(v) ==> (v@.len() == 0 ==> choose_file(a, answer) == Err::<int, Seq<char>>(
            "没有 "@ + a.game_version@ + " / "@ + a.loader@ + " 的兼容版本"@,
        )),
        answer matches Ok(v) ==> (v@.len() > 0 && v@[0].files@.len() == 0 ==> choose_file(a, answer)
            == Err::<int, Seq<char>>("兼容版本没有可下载文件"@)),
        answer matches Ok(v) ==> (v@.len() > 0 && v@[0].files@.len() > 0 ==> (choose_file(
            a,
            answer,
        ) matches Ok(i) && primary_file(v@[0].files@) == Some(i) && 0 <= i < v@[0].files@.len())),
{
    match answer {
        Ok(v) => if v@.len() > 0 {
            lemma_file_of_a_release(v@[0].files@);
        },
        Err(_) => {},
    }
}

/// A file that is marked for one side alone is not wanted on the other; all others are required
/// on both.
pub proof fn lemma_sides_of_a_file(v: Seq<Seq<char>>)
    ensures
        v.contains("Client"@) && !v.contains("Server"@) ==> env_of(v) == (
            "required"@,
            "unsupported"@,
        ),
        v.contains("Server"@) && !v.contains("Client"@) ==> env_of(v) == (
            "unsupported"@,
            "required"@,
        ),
        v.contains("Client"@) == v.contains("Server"@) ==> env_of(v) == ("required"@, "required"@),
{
}

/// Where a file of CurseForge is: its number without the last three digits, those three, and its
/// name.
pub proof fn lemma_address_of_a_file(a: u64, b: u64, name: Seq<char>)
    requires
        b < 1000,
        a * 1000 + b <= u64::MAX,
    ensures
        a > 0 ==> cdn_address((a * 1000 + b) as u64, name)
            == "https://mediafilez.forgecdn.net/files/"@ + dec(a as nat) + "/"@ + dec(b as nat)
            + "/"@ + name,
        cdn_address(b, name) == "https://mediafilez.forgecdn.net/files/"@ + "/"@ + dec(b as nat)
            + "/"@ + name,
{
    assert((a * 1000 + b) / 1000 == a && (a * 1000 + b) % 1000 == b);
    assert("https://mediafilez.forgecdn.net/files/"@ + Seq::<char>::empty()
        =~= "https://mediafilez.forgecdn.net/files/"@);
}

/// An answer with a status of success describes the mod, unless it says that the mod is queued;
/// then, and where the service is busy, it is worth asking again.
pub proof fn lemma_answers_of_the_mirror(status: u16)
    ensures
        is_found(status) <==> 200 <= status < 300 && status != 202,
        asks_to_wait(status) <==> status == 202 || status == 429,
        !(is_found(status) && asks_to_wait(status)),
{
}

// ---------------------------------------------------------------------------
// What jars require
// ---------------------------------------------------------------------------

/// A Fabric mod requires what its manifest names, but for the game, Java and the loaders.
pub proof fn lemma_requirements_of_fabric(t: JsonView, m: Map<Seq<char>, JsonView>, id: Seq<char>)
    requires
        t.get("depends"@) == Some(JsonView::Object(m)),
    ensures
        fabric_requires(t) matches Some(s) && (s.contains(id) <==> m.dom().contains(id) && id
            != "minecraft"@ && id != "java"@ && id != "fabricloader"@ && id != "fabric"@ && id
            != "quilt_loader"@ && id != "quilt_base"@),
{
}

/// A Forge mod requires every mod that an entry of one of its lists names, but for the game, Java
/// and the loaders.
pub proof fn lemma_requirements_of_forge(
    t: TomlView,
    m: Map<Seq<char>, TomlView>,
    k: Seq<char>,
    list: Seq<TomlView>,
    i: int,
    e: Map<Seq<char>, TomlView>,
    id: Seq<char>,
)
    requires
        t.get("dependencies"@) == Some(TomlView::Table(m)),
        m.dom().contains(k),
        m[k] == TomlView::Array(list),
        0 <= i < list.len(),
        list[i] == TomlView::Table(e),
        e.dom().contains("modId"@),
        e["modId"@] == TomlView::Str(id),
    ensures
        forge_requires(t) matches Some(s) && (s.contains(id) <==> id != "minecraft"@ && id
            != "java"@ && id != "forge"@ && id != "neoforge"@),
{
    assert(list[i].str_at("modId"@) == Some(id));
    assert(crate::curseforge::list_names(m[k], id));
}

/// What a Forge mod requires, an entry of one of its lists names.
pub proof fn lemma_forge_names_what_it_requires(
    t: TomlView,
    m: Map<Seq<char>, TomlView>,
    id: Seq<char>,
)
    requires
        t.get("dependencies"@) == Some(TomlView::Table(m)),
        forge_requires(t) matches Some(s) && s.contains(id),
    ensures
        exists|k: Seq<char>, i: int|
            #![trigger m.dom().contains(k), m[k]->Array_0[i]]
            m.dom().contains(k) && m[k] is Array && 0 <= i < m[k]->Array_0.len()
                && m[k]->Array_0[i].get("modId"@) == Some(TomlView::Str(id)),
{
    let k = choose|k: Seq<char>| #[trigger]
        m.dom().contains(k) && crate::curseforge::list_names(m[k], id);
    let s = m[k]->Array_0;
    let i = choose|i: int| 0 <= i < s.len() && (#[trigger] s[i]).str_at("modId"@) == Some(id);
    assert(m.dom().contains(k) && m[k]->Array_0[i].get("modId"@) == Some(TomlView::Str(id)));
}

/// The Fabric manifest of a jar counts where it says what is required; else the Forge manifest
/// does. A jar without manifests requires nothing.
pub proof fn lemma_manifests_of_a_jar(jar: Seq<u8>, s: Seq<char>, t: JsonView, u: TomlView)
    ensures
        archive_entry(jar, "fabric.mod.json"@) == EntryView::Text(s) && json_parsed(s) == Ok::<
            JsonView,
            Seq<char>,
        >(t) && fabric_requires(t) is Some ==> jar_requires(jar) == Ok::<
            Set<Seq<char>>,
            Seq<char>,
        >(fabric_requires(t)->0),
        archive_entry(jar, "fabric.mod.json"@) is Absent && archive_entry(
            jar,
            "META-INF/mods.toml"@,
        ) == EntryView::Text(s) && toml_parsed(s) == Some(u) && forge_requires(u) is Some
            ==> jar_requires(jar) == Ok::<Set<Seq<char>>, Seq<char>>(forge_requires(u)->0),
        archive_entry(jar, "fabric.mod.json"@) is Absent && archive_entry(
            jar,
            "META-INF/mods.toml"@,
        ) is Absent ==> jar_requires(jar) == Ok::<Set<Seq<char>>, Seq<char>>(Set::empty()),
        archive_entry(jar, "fabric.mod.json"@) is BadArchive ==> jar_requires(jar) is Err,
        archive_entry(jar, "fabric.mod.json"@) is Unreadable ==> jar_requires(jar) is Err,
        archive_entry(jar, "fabric.mod.json"@) == EntryView::Text(s) && json_parsed(s) is Err
            ==> jar_requires(jar) is Err,
{
}

/// What is known of a file that came in whole: the size is the number of its bytes, and the mods
/// that it requires are those that its manifests name.
pub proof fn lemma_what_is_known_of_a_file(
    r: CfFileMeta,
    mod_id: u64,
    file: CfFile,
    jar: Seq<u8>,
    id: Seq<char>,
)
    requires
        is_meta(r, mod_id, file, jar),
    ensures
        r.mod_id == mod_id && r.file_id == file.id && r.filename@ == file.name@,
        r.size == jar.len(),
        r.sha1@ == crate::digest::hex(crate::digest::sha1_sum(jar)),
        r.sha512@ == crate::digest::hex(crate::digest::sha512_sum(jar)),
        jar_requires(jar) matches Ok(ids) ==> (views(r.depends@).contains(id) <==> ids.contains(
            id,
        )),
        jar_requires(jar) is Err ==> r.depends@.len() == 0,
{
    if jar_requires(jar) is Err && r.depends@.len() > 0 {
        assert(views(r.depends@).contains(views(r.depends@)[0]));
    }
}

// ---------------------------------------------------------------------------
// What a pack holds
// ---------------------------------------------------------------------------

/// A file stands in the description of a pack with its path, its address, its checksums, its size
/// and the sides that it runs on.
pub proof fn lemma_file_as_described(f: FileView)
    ensures
        ({
            let t = file_tree(f);
            &&& t.str_at("path"@) == Some(f.path)
            &&& (t.get("hashes"@) matches Some(h) && h.str_at("sha1"@) == Some(f.sha1) && h.str_at(
                "sha512"@,
            ) == Some(f.sha512))
            &&& (t.get("env"@) matches Some(e) && e.str_at("client"@) == Some(f.client) && e.str_at(
                "server"@,
            ) == Some(f.server))
            &&& t.get("downloads"@) == Some(JsonView::Array(seq![JsonView::Str(f.url)]))
            &&& t.u64_at("fileSize"@) == Some(f.size)
        }),
{
    reveal_with_fuel(object_map, 6);
    reveal_strlit("path");
    reveal_strlit("hashes");
    reveal_strlit("env");
    reveal_strlit("downloads");
    reveal_strlit("fileSize");
    reveal_strlit("sha1");
    reveal_strlit("sha512");
    reveal_strlit("client");
    reveal_strlit("server");
    assert("path"@.len() == 4 && "hashes"@.len() == 6 && "env"@.len() == 3 && "downloads"@.len()
        == 9 && "fileSize"@.len() == 8);
    assert("sha1"@.len() == 4 && "sha512"@.len() == 6);
    assert("client"@[0] == 'c' && "server"@[0] == 's');
    assert(str_array(seq![f.url])->Array_0 =~= seq![JsonView::Str(f.url)]);
}

/// The description of a pack names the pack, the game version, the loader with its version, and
/// every file in its place.
pub proof fn lemma_description_of_a_pack(
    a: BuildArgs,
    key: Seq<char>,
    loader_version: Seq<char>,
    files: Seq<FileView>,
    i: int,
)
    requires
        key != "minecraft"@,
    ensures
        ({
            let t = index_tree(a, key, loader_version, files);
            &&& t.u64_at("formatVersion"@) == Some(1u64)
            &&& t.str_at("game"@) == Some("minecraft"@)
            &&& t.str_at("name"@) == Some(a.name@)
            &&& t.str_at("versionId"@) == Some("rustagent-"@ + a.name@)
            &&& (t.get("dependencies"@) matches Some(d) && d.str_at("minecraft"@) == Some(
                a.game_version@,
            ) && d.str_at(key) == Some(loader_version))
            &&& (t.array_at("files"@) matches Some(f) && f.len() == files.len() && (0 <= i
                < files.len() ==> f[i] == file_tree(files[i])))
        }),
{
    reveal_with_fuel(object_map, 8);
    reveal_strlit("formatVersion");
    reveal_strlit("game");
    reveal_strlit("versionId");
    reveal_strlit("name");
    reveal_strlit("summary");
    reveal_strlit("files");
    reveal_strlit("dependencies");
    assert("formatVersion"@.len() == 13 && "game"@.len() == 4 && "versionId"@.len() == 9
        && "name"@.len() == 4 && "summary"@.len() == 7 && "files"@.len() == 5
        && "dependencies"@.len() == 12);
    assert("game"@[0] == 'g' && "name"@[0] == 'n');
}

/// The names of the loaders among the dependencies of a pack.
pub proof fn lemma_loaders_in_a_pack(loader: Seq<char>)
    ensures
        dep_key("fabric"@) == Some("fabric-loader"@),
        dep_key("quilt"@) == Some("quilt-loader"@),
        dep_key("forge"@) == Some("forge"@),
        dep_key("neoforge"@) == Some("neoforge"@),
        loader != "fabric"@ && loader != "quilt"@ && loader != "forge"@ && loader != "neoforge"@
            ==> dep_key(loader) is None,
{
    crate::tools::loader_meta::lemma_loaders_differ();
}

/// A pack is begun with one to a hundred mods, of both catalogues together, for one of the four
/// loaders, and not otherwise.
pub proof fn lemma_when_a_pack_is_begun(a: BuildArgs)
    ensures
        refusal(a) is None <==> 1 <= a.mod_slugs@.len() + a.cf_mods@.len() <= 100 && (a.loader@
            == "fabric"@ || a.loader@ == "quilt"@ || a.loader@ == "forge"@ || a.loader@
            == "neoforge"@),
{
}

/// A file of a release comes to `mods/` under its own name, with the address, the checksums and
/// the size that the catalogue names, and for the sides that the mod runs on; on both, where they
/// are not known.
pub proof fn lemma_file_of_a_mod(f: VersionFile, env: Option<(String, String)>)
    ensures
        ({
            let r = release_file(f, env);
            &&& r.path == "mods/"@ + f.filename@
            &&& r.url == f.url@
            &&& r.sha1 == f.hashes.sha1@ && r.sha512 == f.hashes.sha512@
            &&& r.size == f.size
            &&& (env matches Some(e) ==> r.client == e.0@ && r.server == e.1@)
            &&& (env is None ==> r.client == "required"@ && r.server == "required"@)
        }),
{
}

/// A mod of Modrinth adds its file and a summary that names it, and changes nothing else.
pub proof fn lemma_mod_is_added(
    b: BuildView,
    slug: Seq<char>,
    version: ModVersion,
    i: int,
    env: Option<(String, String)>,
)
    requires
        0 <= i < version.files@.len(),
    ensures
        ({
            let f = version.files@[i];
            let c = b.with_mod(slug, version, i, env);
            &&& c.files == b.files.push(release_file(f, env))
            &&& c.total_size == b.total_size + f.size
            &&& c.summaries.len() == b.summaries.len() + 1
            &&& c.summaries.take(b.summaries.len() as int) == b.summaries
            &&& c.summaries.last().str_at("slug"@) == Some(slug)
            &&& c.summaries.last().str_at("version"@) == Some(version.version_number@)
            &&& c.summaries.last().str_at("filename"@) == Some(f.filename@)
            &&& c.summaries.last().str_at("size_mb"@) == Some(mebibytes_2(f.size as nat))
            &&& c.conflicts == b.conflicts && c.seen == b.seen && c.final_slugs == b.final_slugs
            &&& c.auto_added == b.auto_added && c.cf_deps == b.cf_deps && c.deps_done
                == b.deps_done
        }),
{
    reveal_with_fuel(object_map, 5);
    reveal_strlit("slug");
    reveal_strlit("version");
    reveal_strlit("filename");
    reveal_strlit("size_mb");
    assert("slug"@.len() == 4 && "version"@.len() == 7 && "filename"@.len() == 8
        && "size_mb"@.len() == 7);
    assert("version"@[0] == 'v' && "size_mb"@[0] == 's');
    let c = b.with_mod(slug, version, i, env);
    assert(c.summaries.take(b.summaries.len() as int) =~= b.summaries);
}

/// A mod of CurseForge adds its file and a summary that names it and its source; it counts as
/// known, and the mods that it requires are to be looked for. Nothing else changes.
pub proof fn lemma_curseforge_mod_is_added(
    b: BuildView,
    slug: Seq<char>,
    meta: CfFileMeta,
    file: CfFile,
)
    ensures
        ({
            let c = b.with_cf_file(slug, meta, file);
            let f = c.files.last();
            &&& c.files.len() == b.files.len() + 1
            &&& c.files.take(b.files.len() as int) == b.files
            &&& f.path == "mods/"@ + meta.filename@
            &&& f.url == meta.url@
            &&& f.sha1 == meta.sha1@ && f.sha512 == meta.sha512@
            &&& f.size == meta.size
            &&& (f.client, f.server) == env_of(views(file.versions@))
            &&& c.total_size == b.total_size + meta.size
            &&& c.summaries.len() == b.summaries.len() + 1
            &&& c.summaries.take(b.summaries.len() as int) == b.summaries
            &&& c.summaries.last().str_at("slug"@) == Some(slug)
            &&& c.summaries.last().str_at("source"@) == Some("curseforge"@)
            &&& c.summaries.last().str_at("filename"@) == Some(meta.filename@)
            &&& c.summaries.last().str_at("size_mb"@) == Some(mebibytes_2(meta.size as nat))
            &&& c.seen == b.seen.push("cf:"@ + slug)
            &&& c.cf_deps == b.cf_deps + views(meta.depends@)
            &&& c.conflicts == b.conflicts && c.final_slugs == b.final_slugs
            &&& c.auto_added == b.auto_added && c.deps_done == b.deps_done
        }),
{
    reveal_with_fuel(object_map, 5);
    reveal_strlit("slug");
    reveal_strlit("source");
    reveal_strlit("filename");
    reveal_strlit("size_mb");
    assert("slug"@.len() == 4 && "source"@.len() == 6 && "filename"@.len() == 8
        && "size_mb"@.len() == 7);
    let c = b.with_cf_file(slug, meta, file);
    assert(c.summaries.take(b.summaries.len() as int) =~= b.summaries);
    assert(c.files.take(b.files.len() as int) =~= b.files);
}

/// A conflict names the mod and the reason, and is added to those that are there.
pub proof fn lemma_conflict_is_recorded(b: BuildView, slug: Seq<char>, issue: Seq<char>)
    ensures
        conflict(slug, issue).str_at("slug"@) == Some(slug),
        conflict(slug, issue).str_at("issue"@) == Some(issue),
        ({
            let c = b.with_conflict(conflict(slug, issue));
            &&& c.conflicts == b.conflicts.push(conflict(slug, issue))
            &&& c.files == b.files && c.summaries == b.summaries && c.total_size == b.total_size
            &&& c.seen == b.seen && c.final_slugs == b.final_slugs && c.auto_added == b.auto_added
            &&& c.cf_deps == b.cf_deps && c.deps_done == b.deps_done
        }),
{
    reveal_with_fuel(object_map, 3);
    reveal_strlit("slug");
    reveal_strlit("issue");
    assert("slug"@.len() == 4 && "issue"@.len() == 5);
}

/// The total size is the sum of the sizes of all files.
pub proof fn lemma_sizes_add_up(a: Seq<FileView>, f: FileView, b: Seq<FileView>)
    ensures
        sum_sizes(a + b) == sum_sizes(a) + sum_sizes(b),
        sum_sizes(seq![f]) == f.size,
        sum_sizes(Seq::empty()) == 0,
    decreases b.len(),
{
    if b.len() == 0 {
        assert(a + b =~= a);
    } else {
        lemma_sizes_add_up(a, f, b.drop_last());
        assert((a + b).drop_last() =~= a + b.drop_last());
    }
    assert(seq![f].drop_last() =~= Seq::<FileView>::empty());
    assert(sum_sizes(seq![f].drop_last()) == 0);
}

/// The report on a pack tells where it is, how many mods it has and which, its size, the mods that
/// were added on their own, and every conflict.
pub proof fn lemma_report_on_a_pack(b: BuildView, path: Seq<char>, summary: Seq<char>)
    requires
        b.summaries.len() <= u64::MAX,
    ensures
        ({
            let t = build_report(b, path, summary);
            &&& t.str_at("output_path"@) == Some(path)
            &&& (t.u64_at("mod_count"@) matches Some(n) && n == b.summaries.len())
            &&& t.str_at("total_size_mb"@) == Some(mebibytes_1(b.total_size))
            &&& t.get("auto_added"@) == Some(str_array(b.auto_added))
            &&& t.array_at("mods"@) == Some(b.summaries)
            &&& t.array_at("conflicts"@) == Some(b.conflicts)
            &&& t.str_at("db_summary"@) == Some(summary)
        }),
{
    reveal_with_fuel(object_map, 9);
    reveal_strlit("output_path");
    reveal_strlit("mod_count");
    reveal_strlit("total_size_mb");
    reveal_strlit("auto_added");
    reveal_strlit("mods");
    reveal_strlit("conflicts");
    reveal_strlit("db_summary");
    reveal_strlit("note");
    assert("output_path"@.len() == 11 && "mod_count"@.len() == 9 && "total_size_mb"@.len() == 13
        && "auto_added"@.len() == 10 && "mods"@.len() == 4 && "conflicts"@.len() == 9
        && "db_summary"@.len() == 10 && "note"@.len() == 4);
    assert("mod_count"@[0] == 'm' && "conflicts"@[0] == 'c' && "auto_added"@[0] == 'a'
        && "db_summary"@[0] == 'd' && "mods"@[0] == 'm' && "note"@[0] == 'n');
}

/// A name of a pack becomes a file name: each character that may not stand in one becomes a
/// hyphen, and all others stay.
pub proof fn lemma_file_name_of_a_pack(name: Seq<char>, i: int)
    requires
        0 <= i < name.len(),
    ensures
        safe_name(name).len() == name.len(),
        name[i] == '/' || name[i] == '\\' || name[i] == ':' || name[i] == '*' ==> safe_name(name)[i]
            == '-',
        !(name[i] == '/' || name[i] == '\\' || name[i] == ':' || name[i] == '*') ==> safe_name(
            name,
        )[i] == name[i],
{
}

// ---------------------------------------------------------------------------
// The steps of building
// ---------------------------------------------------------------------------

/// Of the mods that files of CurseForge require, the next to look for is the first from where the
/// work stands that is not known yet; none is left only where all of them are known.
pub proof fn lemma_next_required_mod(b: BuildView, j: int)
    requires
        b.deps_done <= b.cf_deps.len(),
    ensures
        ({
            let (dep, c) = next_dep(b);
            &&& (dep is None && b.deps_done <= j < b.cf_deps.len() ==> b.seen.contains(
                "cf:"@ + b.cf_deps[j],
            ) || b.final_slugs.contains(b.cf_deps[j]))
            &&& (dep matches Some(d) ==> {
                let k = c.deps_done - 1;
                &&& b.deps_done <= k < b.cf_deps.len() && b.cf_deps[k] == d
                &&& !b.seen.contains("cf:"@ + d) && !b.final_slugs.contains(d)
                &&& (b.deps_done <= j < k ==> b.seen.contains("cf:"@ + b.cf_deps[j])
                    || b.final_slugs.contains(b.cf_deps[j]))
                &&& c.seen == b.seen.push("cf:"@ + d)
            })
            &&& c.files == b.files && c.summaries == b.summaries && c.conflicts == b.conflicts
            &&& c.final_slugs == b.final_slugs && c.auto_added == b.auto_added
        }),
{
    lemma_first_new(b, b.deps_done, j);
}

proof fn lemma_first_new(b: BuildView, k: nat, j: int)
    requires
        k <= b.cf_deps.len(),
    ensures
        k <= first_new_dep(b, k) <= b.cf_deps.len(),
        first_new_dep(b, k) < b.cf_deps.len() ==> is_new_dep(
            b,
            b.cf_deps[first_new_dep(b, k) as int],
        ),
        k <= j < first_new_dep(b, k) ==> !is_new_dep(b, b.cf_deps[j]),
    decreases b.cf_deps.len() - k,
{
    if k < b.cf_deps.len() && !is_new_dep(b, b.cf_deps[k as int]) {
        lemma_first_new(b, k + 1, j);
    }
}

/// A mod that is required and that Modrinth has is collected too, and told as added on its own;
/// one that it does not have is told as a conflict.
pub proof fn lemma_required_mod_is_collected(b: BuildView, dep: Seq<char>)
    ensures
        with_dep(b, dep, true).final_slugs == b.final_slugs.push(dep),
        with_dep(b, dep, true).auto_added == b.auto_added.push(dep),
        with_dep(b, dep, true).conflicts == b.conflicts,
        with_dep(b, dep, false).final_slugs == b.final_slugs,
        with_dep(b, dep, false).auto_added == b.auto_added,
        with_dep(b, dep, false).conflicts.len() == b.conflicts.len() + 1,
        with_dep(b, dep, false).conflicts.last().str_at("slug"@) == Some(dep),
{
    lemma_conflict_is_recorded(
        b,
        dep,
        "CF mod 声明的前置在 Modrinth 无同名项目, 请提醒用户手动确认"@,
    );
}

/// A mod that is taken up for the first time is asked for and counts as seen; where the user has
/// asked to stop, the work stops; once all are dealt with, a pack with files goes on to the loader
/// and one without is given up.
pub proof fn lemma_mods_are_taken_up(a: BuildArgs, b: BuildView, i: nat, interrupted: bool)
    ensures
        ({
            let (after, step, _) = from_collect(a, b, i, interrupted);
            &&& (i < b.final_slugs.len() && !interrupted && !b.seen.contains(
                b.final_slugs[i as int],
            ) ==> {
                &&& step == Ok::<BuildStepView, Seq<char>>(
                    BuildStepView::Versions { slug: b.final_slugs[i as int] },
                )
                &&& after.stage == StageView::Asked(i)
                &&& after.pack.seen == b.seen.push(b.final_slugs[i as int])
                &&& after.pack.files == b.files && after.pack.conflicts == b.conflicts
                &&& after.pack.final_slugs == b.final_slugs
            })
            &&& (i < b.final_slugs.len() && interrupted ==> step == Err::<
                BuildStepView,
                Seq<char>,
            >("用户已打断"@) && after.pack == b)
            &&& (i >= b.final_slugs.len() && b.files.len() > 0 ==> step == Ok::<
                BuildStepView,
                Seq<char>,
            >(BuildStepView::LoaderVersion) && after.pack == b)
            &&& (i >= b.final_slugs.len() && b.files.len() == 0 ==> step is Err)
        }),
{
}

/// A mod that comes a second time is not asked for again: it is told as a conflict, and the work
/// goes on behind it.
pub proof fn lemma_mod_comes_twice(a: BuildArgs, b: BuildView, i: nat)
    requires
        i < b.final_slugs.len(),
        b.seen.contains(b.final_slugs[i as int]),
    ensures
        ({
            let c = b.with_conflict(conflict(b.final_slugs[i as int], "重复添加"@));
            &&& from_collect(a, b, i, false).0 == from_collect(a, c, i + 1, false).0
            &&& from_collect(a, b, i, false).1 == from_collect(a, c, i + 1, false).1
        }),
{
}

/// The order of the work: each mod of CurseForge is looked up, where CurseForge may be asked; then
/// the mods that their files require are looked for; then all mods are collected.
pub proof fn lemma_order_of_the_work(a: BuildArgs, run: RunView, interrupted: bool, enabled: bool)
    ensures
        ({
            let (after, step, _) = next_step(a, run, interrupted, enabled);
            &&& (run.stage matches StageView::LookUp(i) ==> {
                &&& (i < a.cf_mods@.len() && enabled && !interrupted ==> step == Ok::<
                    BuildStepView,
                    Seq<char>,
                >(BuildStepView::LookUp { slug: views(a.cf_mods@)[i as int] }) && after == run)
                &&& (i < a.cf_mods@.len() && !enabled ==> step is Err && after == run)
                &&& (i < a.cf_mods@.len() && interrupted ==> step is Err && after == run)
                &&& (i >= a.cf_mods@.len() ==> (after, step) == (
                    from_deps(a, run.pack, interrupted).0,
                    from_deps(a, run.pack, interrupted).1,
                ))
            })
            &&& (run.stage matches StageView::Fetch(_, _, _) ==> step == Ok::<
                BuildStepView,
                Seq<char>,
            >(BuildStepView::Fetch) && after == run)
            &&& (run.stage matches StageView::Dep(d) ==> step == Ok::<BuildStepView, Seq<char>>(
                BuildStepView::FindMod { slug: d },
            ) && after == run)
            &&& (run.stage matches StageView::Asked(i) ==> step == Ok::<BuildStepView, Seq<char>>(
                BuildStepView::Versions { slug: run.pack.final_slugs[i as int] },
            ) && after == run)
            &&& (run.stage matches StageView::Sides(i, _, _) ==> step == Ok::<
                BuildStepView,
                Seq<char>,
            >(BuildStepView::Sides { slug: run.pack.final_slugs[i as int] }) && after == run)
            &&& (run.stage is Loader ==> step == Ok::<BuildStepView, Seq<char>>(
                BuildStepView::LoaderVersion,
            ) && after == run)
            &&& (run.stage matches StageView::Collect(i) ==> (after, step) == (
                from_collect(a, run.pack, i, interrupted).0,
                from_collect(a, run.pack, i, interrupted).1,
            ))
        }),
        next_dep(run.pack).0 matches Some(d) ==> from_deps(a, run.pack, interrupted).1 == Ok::<
            BuildStepView,
            Seq<char>,
        >(BuildStepView::FindMod { slug: d }) && from_deps(a, run.pack, interrupted).0.stage
            == StageView::Dep(d),
        next_dep(run.pack).0 is None ==> from_deps(a, run.pack, interrupted).1 == from_collect(
            a,
            next_dep(run.pack).1,
            0,
            interrupted,
        ).1,
{
}

/// A file of CurseForge that was fetched is added; where it could not be fetched, that is told.
pub proof fn lemma_fetched_file(
    b: BuildView,
    slug: Seq<char>,
    file: CfFile,
    meta: CfFileMeta,
    e: String,
)
    ensures
        with_fetched(b, slug, file, Ok(meta)) == b.with_cf_file(slug, meta, file),
        with_fetched(b, slug, file, Err(e)).conflicts == b.conflicts.push(
            conflict(slug, "CF 文件获取失败: "@ + e@),
        ),
        with_fetched(b, slug, file, Err(e)).files == b.files,
{
}

} // verus!

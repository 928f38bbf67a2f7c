//! CurseForge: which file of a mod to take, where it is, and what it depends on.

use vstd::prelude::*;
use vstd::string::StringExecFns;

use crate::agent::truncate;
#[allow(unused_imports)]
use crate::agent::is_cut;
#[allow(unused_imports)]
use crate::archive::{archive_entry, EntryView};
use crate::archive::{read_entry, Entry};
use crate::digest::Download;
#[allow(unused_imports)]
use crate::digest::{hex, sha1_sum, sha512_sum};
#[allow(unused_imports)]
use crate::json::{json_parsed, members, JsonView};
use crate::json::{parse_json, Json};
#[allow(unused_imports)]
use crate::manifest::{toml_entries, toml_items, toml_parsed, TomlView};
use crate::manifest::{parse_toml, Toml};
#[allow(unused_imports)]
use crate::number::dec;
use crate::number::u64_to_string;
#[allow(unused_imports)]
use crate::order::ascending;
use crate::order::insert_sorted;
#[allow(unused_imports)]
use crate::text::{
    byte_len, is_ascii_alphanumeric, join_spec, trim_spec, unicode_lower, views, words_spec,
};
use crate::text::{
    byte_len_of, char_is_alphanumeric, chars_of, join, list_contains, str_eq, to_lowercase, trim,
    words,
};
use crate::tools::check_interrupt;
#[allow(unused_imports)]
use crate::tools::TOOL_INTERRUPTED;

verus! {

/// What a browser calls itself, which the file servers ask for.
pub const BROWSER_UA: &'static str =
    "Mozilla/5.0 (Windows NT 10.0; Win64; x64) AppleWebKit/537.36 (KHTML, like Gecko) Chrome/128.0.0.0 Safari/537.36";

/// A mod on CurseForge.
pub struct CfProject {
    pub id: u64,
    pub title: String,
    pub summary: String,
    pub categories: Vec<String>,
    pub files: Vec<CfFile>,
}

/// A file of a mod. Its tags name game versions, loaders, and the sides that it runs on.
pub struct CfFile {
    pub id: u64,
    pub name: String,
    pub kind: String,
    pub filesize: u64,
    pub versions: Vec<String>,
}

/// What is known of a file once it was downloaded.
pub struct CfFileMeta {
    pub mod_id: u64,
    pub file_id: u64,
    pub filename: String,
    pub url: String,
    pub sha1: String,
    pub sha512: String,
    pub size: u64,
    pub depends: Vec<String>,
}

/// The tag of a loader.
pub open spec fn tag_of(loader: Seq<char>) -> Seq<char> {
    if loader == "fabric"@ {
        "Fabric"@
    } else if loader == "quilt"@ {
        "Quilt"@
    } else if loader == "neoforge"@ {
        "NeoForge"@
    } else {
        "Forge"@
    }
}

/// The tag of a loader.
pub fn loader_tag(loader: &str) -> (r: &'static str)
    ensures
        r@ == tag_of(loader@),
{
    if str_eq(loader, "fabric") {
        "Fabric"
    } else if str_eq(loader, "quilt") {
        "Quilt"
    } else if str_eq(loader, "neoforge") {
        "NeoForge"
    } else {
        "Forge"
    }
}

/// Whether a file is for the game version and the loader.
pub open spec fn fits(f: CfFile, game_version: Seq<char>, loader: Seq<char>) -> bool {
    views(f.versions@).contains(game_version) && views(f.versions@).contains(tag_of(loader))
}

/// Whether a file is to be preferred over another or equal to it: releases first, then the
/// greater id.
pub open spec fn at_least_as_good(a: CfFile, b: CfFile) -> bool {
    let ra = a.kind@ == "release"@;
    let rb = b.kind@ == "release"@;
    (ra && !rb) || (ra == rb && a.id >= b.id)
}

/// Whether the file at `i` is the one to take: it fits, no other that fits is better, and of
/// equally good ones it is the last.
pub open spec fn is_choice(
    files: Seq<CfFile>,
    game_version: Seq<char>,
    loader: Seq<char>,
    i: int,
) -> bool {
    &&& 0 <= i < files.len()
    &&& fits(files[i], game_version, loader)
    &&& forall|j: int|
        0 <= j < files.len() && fits(#[trigger] files[j], game_version, loader)
            ==> at_least_as_good(files[i], files[j])
    &&& forall|j: int|
        i < j < files.len() && fits(#[trigger] files[j], game_version, loader)
            ==> !at_least_as_good(files[j], files[i])
}

/// The file to take for a game version and a loader.
pub fn select_file<'a>(files: &'a [CfFile], game_version: &str, loader: &str) -> (r: Option<
    &'a CfFile,
>)
    ensures
        match r {
            Some(f) => exists|i: int|
                #[trigger] is_choice(files@, game_version@, loader@, i) && *f == files@[i],
            None => none_fits(files@, game_version@, loader@),
        },
{
    match find_file(files, game_version, loader) {
        Some(i) => Some(&files[i]),
        None => None,
    }
}

/// Whether no file is for the game version and the loader.
pub open spec fn none_fits(files: Seq<CfFile>, game_version: Seq<char>, loader: Seq<char>) -> bool {
    forall|i: int| 0 <= i < files.len() ==> !fits(#[trigger] files[i], game_version, loader)
}

/// The position of the file to take for a game version and a loader.
pub fn find_file(files: &[CfFile], game_version: &str, loader: &str) -> (r: Option<usize>)
    ensures
        match r {
            Some(i) => is_choice(files@, game_version@, loader@, i as int),
            None => none_fits(files@, game_version@, loader@),
        },
{
    let tag = loader_tag(loader);
    let mut best: Option<usize> = None;
    for i in 0..files.len()
        invariant
            tag@ == tag_of(loader@),
            match best {
                Some(b) => b < i && is_choice(files@.take(i as int), game_version@, loader@, b as int),
                None => forall|j: int|
                    0 <= j < i ==> !fits(#[trigger] files@[j], game_version@, loader@),
            },
    {
        let ghost before = files@.take(i as int);
        let ghost after = files@.take(i + 1);
        assert(forall|j: int| 0 <= j < i ==> before[j] == #[trigger] after[j]);
        assert(after[i as int] == files@[i as int]);
        if list_contains(&files[i].versions, game_version) && list_contains(
            &files[i].versions,
            tag,
        ) {
            let release = str_eq(files[i].kind.as_str(), "release");
            let take: bool = match best {
                Some(b) => {
                    let was = str_eq(files[b].kind.as_str(), "release");
                    assert(before[b as int] == files@[b as int]);
                    (release && !was) || (release == was && files[i].id >= files[b].id)
                },
                None => true,
            };
            if take {
                proof {
                    assert forall|j: int|
                        0 <= j < after.len() && fits(
                            #[trigger] after[j],
                            game_version@,
                            loader@,
                        ) implies at_least_as_good(after[i as int], after[j]) by {
                        if j < i {
                            assert(before[j] == after[j]);
                            assert(before[j] == files@[j]);
                        }
                    }
                }
                best = Some(i);
                assert(is_choice(after, game_version@, loader@, i as int));
            } else {
                proof {
                    let b = best->0 as int;
                    assert forall|j: int|
                        0 <= j < after.len() && fits(
                            #[trigger] after[j],
                            game_version@,
                            loader@,
                        ) implies at_least_as_good(after[b], after[j]) by {
                        if j < i {
                            assert(before[j] == after[j]);
                        }
                    }
                    assert forall|j: int|
                        b < j < after.len() && fits(
                            #[trigger] after[j],
                            game_version@,
                            loader@,
                        ) implies !at_least_as_good(after[j], after[b]) by {
                        if j < i {
                            assert(before[j] == after[j]);
                        }
                    }
                    assert(is_choice(after, game_version@, loader@, b));
                }
            }
        } else {
            proof {
                assert(!fits(files@[i as int], game_version@, loader@));
                if best is Some {
                    let b = best->0 as int;
                    assert forall|j: int|
                        0 <= j < after.len() && fits(
                            #[trigger] after[j],
                            game_version@,
                            loader@,
                        ) implies at_least_as_good(after[b], after[j]) by {
                        assert(before[j] == after[j]);
                    }
                    assert forall|j: int|
                        b < j < after.len() && fits(
                            #[trigger] after[j],
                            game_version@,
                            loader@,
                        ) implies !at_least_as_good(after[j], after[b]) by {
                        assert(before[j] == after[j]);
                    }
                    assert(before[b] == after[b]);
                    assert(is_choice(after, game_version@, loader@, b));
                }
            }
        }
    }
    assert(files@.take(files@.len() as int) =~= files@);
    best
}

/// There is at most one file to take.
pub proof fn lemma_choice_is_unique(
    files: Seq<CfFile>,
    game_version: Seq<char>,
    loader: Seq<char>,
    i: int,
    j: int,
)
    requires
        is_choice(files, game_version, loader, i),
        is_choice(files, game_version, loader, j),
    ensures
        i == j,
{
    if i < j {
        assert(fits(files[j], game_version, loader));
    } else if j < i {
        assert(fits(files[i], game_version, loader));
    }
}

/// On which sides a file runs, by its tags: client and server. Both where it names both or none.
pub open spec fn env_of(versions: Seq<Seq<char>>) -> (Seq<char>, Seq<char>) {
    let c = versions.contains("Client"@);
    let s = versions.contains("Server"@);
    if c && !s {
        ("required"@, "unsupported"@)
    } else if s && !c {
        ("unsupported"@, "required"@)
    } else {
        ("required"@, "required"@)
    }
}

/// On which sides a file runs.
pub fn env_from_file(f: &CfFile) -> (r: (String, String))
    ensures
        (r.0@, r.1@) == env_of(views(f.versions@)),
{
    let c = list_contains(&f.versions, "Client");
    let s = list_contains(&f.versions, "Server");
    if c && !s {
        ("required".to_string(), "unsupported".to_string())
    } else if s && !c {
        ("unsupported".to_string(), "required".to_string())
    } else {
        ("required".to_string(), "required".to_string())
    }
}

/// Whether a character may stand in a slug.
pub open spec fn is_slug_char(c: char) -> bool {
    is_ascii_alphanumeric(c) || c == '-'
}

/// A query in lower case as a slug: hyphens between its words, and nothing but ASCII letters,
/// digits and hyphens.
pub open spec fn slug_of_lower(lower: Seq<char>) -> Seq<char> {
    join_spec(words_spec(lower), "-"@).filter(|c: char| is_slug_char(c))
}

/// A query as a slug: the one of its lower case.
pub open spec fn slug_of(query: Seq<char>) -> Seq<char> {
    slug_of_lower(unicode_lower(trim_spec(query)))
}

/// Makes a slug of a query.
pub fn slugify(query: &str) -> (r: String)
    ensures
        r@ == slug_of(query@),
{
    let trimmed = trim(query);
    slugify_lower(to_lowercase(trimmed.as_str()).as_str())
}

/// Makes a slug of a query in lower case.
pub fn slugify_lower(lower: &str) -> (r: String)
    ensures
        r@ == slug_of_lower(lower@),
{
    let list = words(lower);
    let joined = join(&list, "-");
    let v = chars_of(joined.as_str());
    let mut r = String::new();
    let ghost keep = |c: char| is_slug_char(c);
    proof {
        reveal(Seq::filter);
    }
    assert(r@ =~= v@.take(0).filter(keep));
    for i in 0..v.len()
        invariant
            keep == (|c: char| is_slug_char(c)),
            r@ == v@.take(i as int).filter(keep),
    {
        broadcast use Seq::lemma_filter_push;

        assert(v@.take(i + 1) =~= v@.take(i as int).push(v@[i as int]));
        if char_is_alphanumeric(v[i]) || v[i] == '-' {
            r.push(v[i]);
        }
    }
    assert(v@.take(v@.len() as int) =~= v@);
    r
}

/// A slug holds nothing but letters, digits and hyphens.
pub proof fn lemma_slug_chars(query: Seq<char>)
    ensures
        forall|i: int| 0 <= i < slug_of(query).len() ==> is_slug_char(#[trigger] slug_of(query)[i]),
{
    let s = join_spec(words_spec(unicode_lower(trim_spec(query))), "-"@);
    let keep = |c: char| is_slug_char(c);
    broadcast use vstd::seq_lib::group_filter_ensures;

    assert forall|i: int| 0 <= i < slug_of(query).len() implies is_slug_char(
        #[trigger] slug_of(query)[i],
    ) by {
        assert(keep(s.filter(keep)[i]));
    }
}

/// Where a file is: the number of the file is cut before its last three digits.
pub open spec fn cdn_address(file_id: u64, filename: Seq<char>) -> Seq<char> {
    "https://mediafilez.forgecdn.net/files/"@ + (if file_id >= 1000 {
        dec((file_id / 1000) as nat)
    } else {
        Seq::empty()
    }) + "/"@ + dec((file_id % 1000) as nat) + "/"@ + filename
}

/// The address of a file: its id without the last three digits, those three without leading
/// zeros, and its name.
pub fn cdn_url(file_id: u64, filename: &str) -> (r: String)
    ensures
        r@ == cdn_address(file_id, filename@),
{
    let front = if file_id >= 1000 {
        u64_to_string(file_id / 1000)
    } else {
        String::new()
    };
    let back = u64_to_string(file_id % 1000);
    "https://mediafilez.forgecdn.net/files/".to_string().concat(front.as_str()).concat("/").concat(
        back.as_str(),
    ).concat("/").concat(filename)
}

// ---------------------------------------------------------------------------
// Declared dependencies
// ---------------------------------------------------------------------------

/// What a Fabric mod may require that is no mod: the game, Java, and the loaders themselves.
pub open spec fn fabric_builtin(id: Seq<char>) -> bool {
    ||| id == "minecraft"@
    ||| id == "java"@
    ||| id == "fabricloader"@
    ||| id == "fabric"@
    ||| id == "quilt_loader"@
    ||| id == "quilt_base"@
}

/// What a Forge mod may require that is no mod.
pub open spec fn forge_builtin(id: Seq<char>) -> bool {
    ||| id == "minecraft"@
    ||| id == "java"@
    ||| id == "forge"@
    ||| id == "neoforge"@
}

/// The mods that the manifest of a Fabric mod requires; nothing where it does not say.
pub open spec fn fabric_requires(t: JsonView) -> Option<Set<Seq<char>>> {
    match t.get("depends"@) {
        Some(JsonView::Object(m)) => Some(
            m.dom().filter(|id: Seq<char>| !fabric_builtin(id)),
        ),
        _ => None,
    }
}

/// Whether an entry of a list of dependencies names the mod `id`.
pub open spec fn list_names(list: TomlView, id: Seq<char>) -> bool {
    list matches TomlView::Array(s) && exists|i: int|
        0 <= i < s.len() && (#[trigger] s[i]).str_at("modId"@) == Some(id)
}

/// The mods that the manifest of a Forge mod requires: those that its lists of dependencies
/// name. Nothing where it does not say.
pub open spec fn forge_requires(t: TomlView) -> Option<Set<Seq<char>>> {
    match t.get("dependencies"@) {
        Some(TomlView::Table(m)) => Some(
            Set::new(
                |id: Seq<char>|
                    !forge_builtin(id) && exists|k: Seq<char>| #[trigger]
                        m.dom().contains(k) && list_names(m[k], id),
            ),
        ),
        _ => None,
    }
}

/// Whether the strings are the members of the set, in ascending order.
pub open spec fn lists(v: Seq<Seq<char>>, s: Set<Seq<char>>) -> bool {
    ascending(v) && forall|x: Seq<char>| #[trigger] v.contains(x) <==> s.contains(x)
}

fn is_fabric_builtin(id: &str) -> (r: bool)
    ensures
        r == fabric_builtin(id@),
{
    str_eq(id, "minecraft") || str_eq(id, "java") || str_eq(id, "fabricloader") || str_eq(
        id,
        "fabric",
    ) || str_eq(id, "quilt_loader") || str_eq(id, "quilt_base")
}

fn is_forge_builtin(id: &str) -> (r: bool)
    ensures
        r == forge_builtin(id@),
{
    str_eq(id, "minecraft") || str_eq(id, "java") || str_eq(id, "forge") || str_eq(id, "neoforge")
}

/// The mods that the manifest of a Fabric mod requires.
pub fn depends_in_json(t: &Json) -> (r: Option<Vec<String>>)
    ensures
        match r {
            Some(v) => fabric_requires(t.tree()) matches Some(s) && lists(views(v@), s),
            None => fabric_requires(t.tree()) is None,
        },
{
    match t.get("depends") {
        Some(Json::Object(fields)) => {
            let names = crate::json::member_names(fields);
            let mut r: Vec<String> = Vec::new();
            let ghost all = views(names@);
            for i in 0..names.len()
                invariant
                    all == views(names@),
                    ascending(views(r@)),
                    forall|x: Seq<char>| #[trigger]
                        views(r@).contains(x) <==> all.take(i as int).contains(x)
                            && !fabric_builtin(x),
            {
                let ghost was = views(r@);
                proof {
                    lemma_take_contains(all, i as int);
                }
                if !is_fabric_builtin(names[i].as_str()) {
                    insert_sorted(&mut r, names[i].clone());
                }
            }
            assert(all.take(names@.len() as int) =~= all);
            assert forall|x: Seq<char>| #[trigger] views(r@).contains(x) <==> fabric_requires(
                t.tree(),
            )->0.contains(x) by {
                assert(all.contains(x) <==> members(fields@).dom().contains(x));
            }
            Some(r)
        },
        _ => None,
    }
}

proof fn lemma_take_contains(s: Seq<Seq<char>>, i: int)
    requires
        0 <= i < s.len(),
    ensures
        forall|x: Seq<char>| #[trigger]
            s.take(i + 1).contains(x) <==> s.take(i).contains(x) || x == s[i],
{
    assert forall|x: Seq<char>| #[trigger] s.take(i + 1).contains(x) <==> s.take(i).contains(x) || x
        == s[i] by {
        if s.take(i).contains(x) {
            let k = choose|k: int| 0 <= k < i && s.take(i)[k] == x;
            assert(s.take(i + 1)[k] == x);
        }
        if x == s[i] {
            assert(s.take(i + 1)[i] == x);
        }
        if s.take(i + 1).contains(x) && x != s[i] {
            let t = s.take(i + 1);
            let k = choose|k: int| 0 <= k < t.len() && t[k] == x;
            assert(s.take(i)[k] == x);
        }
    }
}

/// The ids that one list of dependencies names are added to a sorted set.
fn add_list(ids: &mut Vec<String>, list: &Toml)
    requires
        ascending(views(old(ids)@)),
    ensures
        ascending(views(final(ids)@)),
        forall|x: Seq<char>| #[trigger]
            views(final(ids)@).contains(x) <==> views(old(ids)@).contains(x) || (list_names(
                list.tree(),
                x,
            ) && !forge_builtin(x)),
{
    let ghost start = views(ids@);
    match list {
        Toml::Array(items) => {
            let ghost s = toml_items(items@);
            for i in 0..items.len()
                invariant
                    s == toml_items(items@),
                    ascending(views(ids@)),
                    forall|x: Seq<char>| #[trigger]
                        views(ids@).contains(x) <==> start.contains(x) || (names_before(
                            s,
                            i as int,
                            x,
                        ) && !forge_builtin(x)),
            {
                assert(s[i as int] == items@[i as int].tree());
                let ghost was = views(ids@);
                match items[i].get("modId") {
                    Some(Toml::Str(id)) => if !is_forge_builtin(id.as_str()) {
                        insert_sorted(ids, id.clone());
                    },
                    _ => {},
                }
                assert forall|x: Seq<char>| #[trigger] views(ids@).contains(x) <==> start.contains(
                    x,
                ) || (names_before(s, i + 1, x) && !forge_builtin(x)) by {
                    assert(was.contains(x) <==> start.contains(x) || (names_before(s, i as int, x)
                        && !forge_builtin(x)));
                    assert(names_before(s, i + 1, x) <==> names_before(s, i as int, x)
                        || s[i as int].str_at("modId"@) == Some(x)) by {
                        if names_before(s, i as int, x) {
                            let k = choose|k: int|
                                0 <= k < i && (#[trigger] s[k]).str_at("modId"@) == Some(x);
                            assert(0 <= k < i + 1);
                        }
                    }
                }
            }
            assert forall|x: Seq<char>| names_before(s, items@.len() as int, x) == list_names(
                list.tree(),
                x,
            ) by {}
        },
        _ => {},
    }
}

spec fn names_before(s: Seq<TomlView>, n: int, id: Seq<char>) -> bool {
    exists|i: int| 0 <= i < n && (#[trigger] s[i]).str_at("modId"@) == Some(id)
}

/// The mods that the manifest of a Forge mod requires.
pub fn depends_in_toml(t: &Toml) -> (r: Option<Vec<String>>)
    ensures
        match r {
            Some(v) => forge_requires(t.tree()) matches Some(s) && lists(views(v@), s),
            None => forge_requires(t.tree()) is None,
        },
{
    match t.get("dependencies") {
        Some(deps) => match deps {
            Toml::Table(fields) => {
                let names = crate::manifest::entry_names(fields);
                let mut r: Vec<String> = Vec::new();
                let ghost all = views(names@);
                let ghost m = toml_entries(fields@);
                for i in 0..names.len()
                    invariant
                        all == views(names@),
                        m == toml_entries(fields@),
                        deps.tree() == TomlView::Table(m),
                        forall|k: Seq<char>| #[trigger] all.contains(k) <==> m.dom().contains(k),
                        ascending(views(r@)),
                        forall|x: Seq<char>| #[trigger]
                            views(r@).contains(x) <==> named_under(all.take(i as int), m, x)
                                && !forge_builtin(x),
                {
                    let ghost was = views(r@);
                    let ghost key = names@[i as int]@;
                    assert(all[i as int] == key);
                    assert(all.contains(key));
                    proof {
                        lemma_take_contains(all, i as int);
                    }
                    match deps.get(names[i].as_str()) {
                        Some(list) => {
                            add_list(&mut r, list);
                        },
                        None => {},
                    }
                    assert forall|x: Seq<char>| #[trigger] views(r@).contains(x) <==> named_under(
                        all.take(i + 1),
                        m,
                        x,
                    ) && !forge_builtin(x) by {
                        assert(was.contains(x) <==> named_under(all.take(i as int), m, x)
                            && !forge_builtin(x));
                        assert(named_under(all.take(i + 1), m, x) <==> named_under(
                            all.take(i as int),
                            m,
                            x,
                        ) || list_names(m[key], x)) by {
                            if named_under(all.take(i as int), m, x) {
                                let k = choose|k: Seq<char>| #[trigger]
                                    all.take(i as int).contains(k) && list_names(m[k], x);
                                assert(all.take(i + 1).contains(k));
                            }
                            if list_names(m[key], x) {
                                assert(all.take(i + 1).contains(key));
                            }
                            if named_under(all.take(i + 1), m, x) {
                                let k = choose|k: Seq<char>| #[trigger]
                                    all.take(i + 1).contains(k) && list_names(m[k], x);
                                assert(all.take(i as int).contains(k) || k == key);
                            }
                        }
                    }
                }
                assert(all.take(names@.len() as int) =~= all);
                assert forall|x: Seq<char>| #[trigger] views(r@).contains(x) <==> forge_requires(
                    t.tree(),
                )->0.contains(x) by {
                    if named_under(all, m, x) {
                        let k = choose|k: Seq<char>| #[trigger]
                            all.contains(k) && list_names(m[k], x);
                        assert(m.dom().contains(k));
                    }
                    if exists|k: Seq<char>| #[trigger] m.dom().contains(k) && list_names(m[k], x) {
                        let k = choose|k: Seq<char>| #[trigger]
                            m.dom().contains(k) && list_names(m[k], x);
                        assert(all.contains(k));
                    }
                }
                Some(r)
            },
            _ => None,
        },
        None => None,
    }
}

spec fn named_under(keys: Seq<Seq<char>>, m: Map<Seq<char>, TomlView>, id: Seq<char>) -> bool {
    exists|k: Seq<char>| #[trigger] keys.contains(k) && list_names(m[k], id)
}

/// The mods that a jar requires, as its manifests say: the one of Fabric where it says, else
/// the one of Forge, else none. An error where the jar or a manifest in it cannot be read.
pub open spec fn jar_requires(jar: Seq<u8>) -> Result<Set<Seq<char>>, Seq<char>> {
    match archive_entry(jar, "fabric.mod.json"@) {
        EntryView::BadArchive(e) => Err(e),
        EntryView::Unreadable(e) => Err(e),
        EntryView::Text(s) => match json_parsed(s) {
            Err(e) => Err(e),
            Ok(t) => match fabric_requires(t) {
                Some(ids) => Ok(ids),
                None => jar_requires_forge(jar),
            },
        },
        EntryView::Absent(_) => jar_requires_forge(jar),
    }
}

/// The mods that a jar requires, as its Forge manifest says.
pub open spec fn jar_requires_forge(jar: Seq<u8>) -> Result<Set<Seq<char>>, Seq<char>> {
    match archive_entry(jar, "META-INF/mods.toml"@) {
        EntryView::BadArchive(e) => Err(e),
        EntryView::Unreadable(e) => Err(e),
        EntryView::Text(s) => match toml_parsed(s) {
            Some(t) => match forge_requires(t) {
                Some(ids) => Ok(ids),
                None => Ok(Set::empty()),
            },
            None => Ok(Set::empty()),
        },
        EntryView::Absent(_) => Ok(Set::empty()),
    }
}

/// Whether a result lists the set, or holds the error.
pub open spec fn lists_or_fails(
    r: Result<Vec<String>, String>,
    s: Result<Set<Seq<char>>, Seq<char>>,
) -> bool {
    match (r, s) {
        (Ok(v), Ok(ids)) => lists(views(v@), ids),
        (Err(e), Err(x)) => e@ == x,
        _ => false,
    }
}

fn read_forge_depends(jar: &[u8]) -> (r: Result<Vec<String>, String>)
    ensures
        lists_or_fails(r, jar_requires_forge(jar@)),
{
    match read_entry(jar, "META-INF/mods.toml") {
        Entry::BadArchive(e) => Err(e),
        Entry::Unreadable(e) => Err(e),
        Entry::Text(s) => match parse_toml(s.as_str()) {
            Some(t) => match depends_in_toml(&t) {
                Some(v) => Ok(v),
                None => Ok(Vec::new()),
            },
            None => Ok(Vec::new()),
        },
        Entry::Absent(_) => Ok(Vec::new()),
    }
}

/// The mods that a jar requires, in ascending order.
pub fn read_depends(jar: &[u8]) -> (r: Result<Vec<String>, String>)
    ensures
        lists_or_fails(r, jar_requires(jar@)),
{
    match read_entry(jar, "fabric.mod.json") {
        Entry::BadArchive(e) => Err(e),
        Entry::Unreadable(e) => Err(e),
        Entry::Text(s) => match parse_json(s.as_str()) {
            Err(e) => Err(e),
            Ok(t) => match depends_in_json(&t) {
                Some(v) => Ok(v),
                None => read_forge_depends(jar),
            },
        },
        Entry::Absent(_) => read_forge_depends(jar),
    }
}

/// The game and Java are never among the mods that a jar requires.
pub proof fn lemma_builtins_are_left_out(jar: Seq<u8>)
    ensures
        jar_requires(jar) matches Ok(ids) ==> !ids.contains("minecraft"@) && !ids.contains(
            "java"@,
        ),
{
}

// ---------------------------------------------------------------------------
// Looking a mod up
// ---------------------------------------------------------------------------

/// How often a mod is asked for.
pub const LOOKUP_ATTEMPTS: u32 = 3;

/// The address of a mod.
pub fn lookup_url(slug: &str) -> (r: String)
    ensures
        r@ == "https://api.cfwidget.com/minecraft/mc-mods/"@ + slug@,
{
    "https://api.cfwidget.com/minecraft/mc-mods/".to_string().concat(slug)
}

/// What to do after an answer.
pub enum LookupStep {
    /// The body describes the mod.
    Parse,
    /// The mod is queued or the service is busy: ask again after a pause.
    Retry,
    Fail(String),
}

/// Whether an answer is that the mod is queued, or that the service is busy.
pub open spec fn asks_to_wait(status: u16) -> bool {
    status == 202 || status == 429
}

/// Whether an answer describes the mod.
pub open spec fn is_found(status: u16) -> bool {
    200 <= status <= 299 && status != 202
}

/// Whether the beginning of a body can be quoted: it does not end within a character.
pub open spec fn is_quotable(body: Seq<char>) -> bool {
    byte_len(body) <= 120 || exists|n: int|
        0 <= n <= body.len() && byte_len(#[trigger] body.take(n)) == 120
}

/// Decides what to do after the answer to attempt number `attempt`, counted from 0. The last
/// attempt is not repeated.
pub fn on_lookup(slug: &str, attempt: u32, status: u16, status_text: &str, body: &str) -> (r:
    LookupStep)
    requires
        attempt < LOOKUP_ATTEMPTS,
        !is_found(status) ==> is_quotable(body@),
    ensures
        match r {
            LookupStep::Parse => is_found(status),
            LookupStep::Retry => asks_to_wait(status) && attempt + 1 < LOOKUP_ATTEMPTS,
            LookupStep::Fail(e) => {
                &&& !is_found(status)
                &&& !asks_to_wait(status) || attempt + 1 == LOOKUP_ATTEMPTS
                &&& exists|q: Seq<char>| #[trigger]
                    is_cut(q, body@, 120) && e@ == "cfwidget 查询 "@ + slug@ + " 失败 ("@
                        + status_text@ + ": "@ + q + ")"@
            },
        },
{
    if status >= 200 && status <= 299 && status != 202 {
        return LookupStep::Parse;
    }
    if (status == 202 || status == 429) && attempt + 1 < LOOKUP_ATTEMPTS {
        return LookupStep::Retry;
    }
    let quote = truncate(body, 120);
    LookupStep::Fail(
        "cfwidget 查询 ".to_string().concat(slug).concat(" 失败 (").concat(status_text).concat(
            ": ",
        ).concat(quote.as_str()).concat(")"),
    )
}

/// Whether the beginning of a body can be quoted.
pub fn can_quote(body: &str) -> (r: bool)
    ensures
        r == is_quotable(body@),
{
    if byte_len_of(body) <= 120 {
        return true;
    }
    let v = chars_of(body);
    let mut n: usize = 0;
    let mut size: usize = 0;
    assert(v@.take(0) =~= Seq::<char>::empty());
    while n < v.len() && size < 120
        invariant
            v@ == body@,
            n <= v@.len(),
            size == byte_len(v@.take(n as int)),
            size <= 123,
            forall|k: int| 0 <= k < n ==> byte_len(#[trigger] v@.take(k)) < 120,
        decreases v@.len() - n,
    {
        proof {
            crate::text::lemma_byte_len_push(v@.take(n as int), v@[n as int]);
            assert(v@.take(n + 1) =~= v@.take(n as int).push(v@[n as int]));
        }
        size = size + crate::text::char_width(v[n]);
        n += 1;
    }
    proof {
        assert(v@.take(v@.len() as int) =~= v@);
        assert forall|k: int| n < k <= v@.len() implies byte_len(#[trigger] v@.take(k)) > 120 by {
            crate::text::lemma_byte_len_grows(v@, n as int, k);
        }
    }
    size == 120
}

// ---------------------------------------------------------------------------
// Fetching a file
// ---------------------------------------------------------------------------

/// The file name under which what is known of a download is kept.
pub fn sidecar_name(mod_id: u64, file_id: u64) -> (r: String)
    ensures
        r@ == dec(mod_id as nat) + "-"@ + dec(file_id as nat) + ".json"@,
{
    u64_to_string(mod_id).concat("-").concat(u64_to_string(file_id).as_str()).concat(".json")
}

/// The file name under which a download is kept.
pub fn jar_name(mod_id: u64, file_id: u64) -> (r: String)
    ensures
        r@ == dec(mod_id as nat) + "-"@ + dec(file_id as nat) + ".jar"@,
{
    u64_to_string(mod_id).concat("-").concat(u64_to_string(file_id).as_str()).concat(".jar")
}

/// The file name of a download in progress.
pub fn temp_name(file_id: u64) -> (r: String)
    ensures
        r@ == ".tmp-"@ + dec(file_id as nat),
{
    ".tmp-".to_string().concat(u64_to_string(file_id).as_str())
}

/// What is reported when a download begins.
pub fn download_report(name: &str) -> (r: String)
    ensures
        r@ == "正在下载 "@ + name@ + " (CurseForge 直链)"@,
{
    "正在下载 ".to_string().concat(name).concat(" (CurseForge 直链)")
}

/// Refuses a download whose announced length is not the one that the catalogue gives.
pub fn check_length(filesize: u64, announced: Option<u64>) -> (r: Result<(), String>)
    ensures
        match r {
            Ok(_) => filesize == 0 || announced is None || announced == Some(filesize),
            Err(e) => filesize > 0 && announced is Some && announced != Some(filesize) && e@
                == "CDN 文件大小 Some("@ + dec(announced->0 as nat) + ") 与元数据 "@ + dec(
                filesize as nat,
            ) + " 不符, 放弃下载"@,
        },
{
    match announced {
        Some(n) => if filesize > 0 && n != filesize {
            return Err(
                "CDN 文件大小 Some(".to_string().concat(u64_to_string(n).as_str()).concat(
                    ") 与元数据 ",
                ).concat(u64_to_string(filesize).as_str()).concat(" 不符, 放弃下载"),
            );
        },
        None => {},
    }
    Ok(())
}

/// The mods that a jar requires; none where that cannot be read.
pub open spec fn requires_or_none(jar: Seq<u8>) -> Set<Seq<char>> {
    match jar_requires(jar) {
        Ok(ids) => ids,
        Err(_) => Set::empty(),
    }
}

/// Whether `r` says of the file with these bytes what is to be known: checksums and size of
/// exactly the bytes, where it is, and the mods that it requires.
pub open spec fn is_meta(r: CfFileMeta, mod_id: u64, file: CfFile, jar: Seq<u8>) -> bool {
    &&& r.mod_id == mod_id
    &&& r.file_id == file.id
    &&& r.filename@ == file.name@
    &&& r.sha1@ == hex(sha1_sum(jar))
    &&& r.sha512@ == hex(sha512_sum(jar))
    &&& r.size == jar.len()
    &&& lists(views(r.depends@), requires_or_none(jar))
    &&& r.url@ == cdn_address(file.id, file.name@)
}

/// What is known of a finished download: checksums and size of exactly the bytes that came in,
/// and the mods that the jar requires.
pub fn file_meta(mod_id: u64, file: &CfFile, download: Download, jar: &[u8]) -> (r: CfFileMeta)
    requires
        download.wf(),
        download.bytes() == jar@,
    ensures
        is_meta(r, mod_id, *file, jar@),
{
    let size = download.size;
    let (sha1, sha512) = download.finish();
    let depends = match read_depends(jar) {
        Ok(v) => v,
        Err(_) => Vec::new(),
    };
    CfFileMeta {
        mod_id,
        file_id: file.id,
        filename: file.name.clone(),
        url: cdn_url(file.id, file.name.as_str()),
        sha1,
        sha512,
        size,
        depends,
    }
}

/// A file that is being fetched: what came in so far.
pub struct FileFetch {
    download: Download,
    jar: Vec<u8>,
}

impl FileFetch {
    /// The bytes that came in.
    pub closed spec fn bytes(self) -> Seq<u8> {
        self.jar@
    }

    /// Whether the checksums are of the bytes that came in.
    pub closed spec fn wf(self) -> bool {
        self.download.wf() && self.download.bytes() == self.jar@
    }

    /// Nothing came in yet.
    pub fn new() -> (r: FileFetch)
        ensures
            r.wf(),
            r.bytes() == Seq::<u8>::empty(),
    {
        let r = FileFetch { download: Download::new(), jar: Vec::new() };
        assert(r.jar@ =~= Seq::<u8>::empty());
        r
    }

    /// How many bytes came in.
    pub fn size(&self) -> (r: u64)
        requires
            self.wf(),
        ensures
            r == self.bytes().len(),
    {
        self.download.size
    }

    /// Takes in the next bytes; an error where the user has asked to stop.
    pub fn on_chunk(&mut self, chunk: &[u8], interrupted: bool) -> (r: Result<(), String>)
        requires
            old(self).wf(),
            old(self).bytes().len() + chunk@.len() <= u64::MAX,
        ensures
            final(self).wf(),
            final(self).bytes() == old(self).bytes() + chunk@,
            match r {
                Ok(_) => !interrupted,
                Err(e) => interrupted && e@ == TOOL_INTERRUPTED@,
            },
    {
        self.download.absorb(chunk);
        self.jar.extend_from_slice(chunk);
        assert(self.jar@ =~= old(self).jar@ + chunk@);
        check_interrupt(interrupted)
    }

    /// What is known of the file, once all of it came in.
    pub fn finish(self, mod_id: u64, file: &CfFile) -> (r: CfFileMeta)
        requires
            self.wf(),
        ensures
            is_meta(r, mod_id, *file, self.bytes()),
    {
        file_meta(mod_id, file, self.download, self.jar.as_slice())
    }
}

/// Whatever parts a file came in, the same is known of it in the end.
pub proof fn lemma_parts_do_not_matter(
    a: CfFileMeta,
    b: CfFileMeta,
    mod_id: u64,
    file: CfFile,
    bytes: Seq<u8>,
)
    requires
        is_meta(a, mod_id, file, bytes),
        is_meta(b, mod_id, file, bytes),
    ensures
        a.mod_id == b.mod_id && a.file_id == b.file_id && a.size == b.size,
        a.filename@ == b.filename@ && a.url@ == b.url@,
        a.sha1@ == b.sha1@ && a.sha512@ == b.sha512@,
        views(a.depends@) == views(b.depends@),
{
    crate::order::lemma_sorted_set_unique(views(a.depends@), views(b.depends@));
}

} // verus!

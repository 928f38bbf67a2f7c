//! Mod loaders: their names in modpacks, and which of their versions to take.

use vstd::prelude::*;
use vstd::string::StringExecFns;

use crate::number::parse_u64;
#[allow(unused_imports)]
use crate::number::parse_unsigned;
#[allow(unused_imports)]
use crate::json::opt_view;
#[allow(unused_imports)]
use crate::modrinth::param_views;
use crate::text::{contains_char, split, starts_with, str_eq};
#[allow(unused_imports)]
use crate::text::{lemma_views_push, split_spec, starts_with_spec, views};

verus! {

/// The name of a loader among the dependencies of a modpack.
pub open spec fn dep_key(loader: Seq<char>) -> Option<Seq<char>> {
    if loader == "fabric"@ {
        Some("fabric-loader"@)
    } else if loader == "quilt"@ {
        Some("quilt-loader"@)
    } else if loader == "forge"@ {
        Some("forge"@)
    } else if loader == "neoforge"@ {
        Some("neoforge"@)
    } else {
        None
    }
}

/// The name of a loader among the dependencies of a modpack.
pub fn loader_dep_key(loader: &str) -> (r: Result<&'static str, String>)
    ensures
        match r {
            Ok(k) => dep_key(loader@) == Some(k@),
            Err(e) => dep_key(loader@) is None && e@ == "不支持的加载器: "@ + loader@
                + " (可选: fabric / forge / neoforge / quilt)"@,
        },
{
    if str_eq(loader, "fabric") {
        Ok("fabric-loader")
    } else if str_eq(loader, "quilt") {
        Ok("quilt-loader")
    } else if str_eq(loader, "forge") {
        Ok("forge")
    } else if str_eq(loader, "neoforge") {
        Ok("neoforge")
    } else {
        Err(
            "不支持的加载器: ".to_string().concat(loader).concat(
                " (可选: fabric / forge / neoforge / quilt)",
            ),
        )
    }
}

/// The value of one part of a version; 0 where it is no number.
pub open spec fn part_value(s: Seq<char>) -> u64 {
    match parse_unsigned(s, u64::MAX as nat) {
        Some(n) => n as u64,
        None => 0,
    }
}

/// The parts of a version as numbers.
pub open spec fn version_numbers(v: Seq<char>) -> Seq<u64> {
    split_spec(v, '.').map_values(|s: Seq<char>| part_value(s))
}

/// The parts of a version as numbers, by which versions are ordered.
pub fn version_key(v: &str) -> (r: Vec<u64>)
    ensures
        r@ == version_numbers(v@),
{
    let parts = split(v, '.');
    let mut r: Vec<u64> = Vec::new();
    for i in 0..parts.len()
        invariant
            r@ == views(parts@).take(i as int).map_values(|s: Seq<char>| part_value(s)),
    {
        let n: u64 = match parse_u64(parts[i].as_str()) {
            Some(n) => n,
            None => 0,
        };
        r.push(n);
        assert(r@ =~= views(parts@).take(i + 1).map_values(|s: Seq<char>| part_value(s)));
    }
    assert(views(parts@).take(parts@.len() as int) =~= views(parts@));
    r
}

/// Whether a version is before another: by the first part in which they differ, fewer parts
/// before more.
pub open spec fn numbers_lt(a: Seq<u64>, b: Seq<u64>) -> bool
    decreases a.len(),
{
    if b.len() == 0 {
        false
    } else if a.len() == 0 {
        true
    } else if a[0] != b[0] {
        a[0] < b[0]
    } else {
        numbers_lt(a.drop_first(), b.drop_first())
    }
}

fn is_numbers_lt(a: &Vec<u64>, b: &Vec<u64>) -> (r: bool)
    ensures
        r == numbers_lt(a@, b@),
{
    let mut i: usize = 0;
    assert(a@.skip(0) =~= a@ && b@.skip(0) =~= b@);
    while i < a.len() && i < b.len() && a[i] == b[i]
        invariant
            i <= a@.len(),
            i <= b@.len(),
            numbers_lt(a@, b@) == numbers_lt(a@.skip(i as int), b@.skip(i as int)),
        decreases a@.len() - i,
    {
        assert(a@.skip(i as int).drop_first() =~= a@.skip(i + 1));
        assert(b@.skip(i as int).drop_first() =~= b@.skip(i + 1));
        i += 1;
    }
    if i == b.len() {
        false
    } else if i == a.len() {
        true
    } else {
        assert(a@.skip(i as int)[0] == a@[i as int]);
        assert(b@.skip(i as int)[0] == b@[i as int]);
        a[i] < b[i]
    }
}

proof fn lemma_numbers_transitive(a: Seq<u64>, b: Seq<u64>, c: Seq<u64>)
    requires
        !numbers_lt(a, b),
        !numbers_lt(b, c),
    ensures
        !numbers_lt(a, c),
    decreases a.len(),
{
    if a.len() > 0 && b.len() > 0 && c.len() > 0 && a[0] == b[0] && b[0] == c[0] {
        lemma_numbers_transitive(a.drop_first(), b.drop_first(), c.drop_first());
    }
}

proof fn lemma_numbers_irreflexive(a: Seq<u64>)
    ensures
        !numbers_lt(a, a),
    decreases a.len(),
{
    if a.len() > 0 {
        lemma_numbers_irreflexive(a.drop_first());
    }
}

/// Whether the version at `i` is the newest of those for which `ok` holds; of equal ones the
/// last.
pub open spec fn is_newest(versions: Seq<Seq<char>>, ok: spec_fn(Seq<char>) -> bool, i: int) -> bool {
    &&& 0 <= i < versions.len()
    &&& ok(versions[i])
    &&& forall|j: int|
        0 <= j < versions.len() && ok(#[trigger] versions[j]) ==> !numbers_lt(
            version_numbers(versions[i]),
            version_numbers(versions[j]),
        )
    &&& forall|j: int|
        i < j < versions.len() && ok(#[trigger] versions[j]) ==> numbers_lt(
            version_numbers(versions[j]),
            version_numbers(versions[i]),
        )
}

/// Whether `r` is the newest of the versions for which `ok` holds; nothing where there is none.
pub open spec fn newest(
    versions: Seq<Seq<char>>,
    ok: spec_fn(Seq<char>) -> bool,
    r: Option<Seq<char>>,
) -> bool {
    match r {
        Some(v) => exists|i: int| #[trigger] is_newest(versions, ok, i) && versions[i] == v,
        None => forall|i: int| 0 <= i < versions.len() ==> !ok(#[trigger] versions[i]),
    }
}

/// Whether a version is a release: it has no suffix.
pub open spec fn is_release(v: Seq<char>) -> bool {
    !v.contains('-')
}

/// Whether a NeoForge version is a release for the game version that `prefix` stands for; the
/// first ones for 1.20.1 are numbered otherwise.
pub open spec fn neoforge_ok(v: Seq<char>, prefix: Seq<char>, legacy: bool) -> bool {
    is_release(v) && (starts_with_spec(v, prefix) || (legacy && starts_with_spec(v, "47.1."@)))
}

/// What the NeoForge versions for a game version begin with: its second and third part. Nothing
/// where it has no second part.
pub open spec fn neoforge_prefix(game_version: Seq<char>) -> Option<Seq<char>> {
    let p = split_spec(game_version, '.');
    if p.len() < 2 {
        None
    } else {
        Some(
            p[1] + "."@ + (if p.len() > 2 {
                p[2]
            } else {
                "0"@
            }) + "."@,
        )
    }
}

/// Whether `r` is the NeoForge version to take for a game version: the newest release for it.
pub open spec fn is_neoforge_choice(
    r: Option<Seq<char>>,
    game_version: Seq<char>,
    versions: Seq<Seq<char>>,
) -> bool {
    match neoforge_prefix(game_version) {
        Some(p) => newest(
            versions,
            |v: Seq<char>| neoforge_ok(v, p, game_version == "1.20.1"@),
            r,
        ),
        None => r is None,
    }
}

/// Whether `r` is the Quilt version to take: the newest release.
pub open spec fn is_quilt_choice(
    r: Result<Seq<char>, Seq<char>>,
    versions: Seq<Seq<char>>,
) -> bool {
    match r {
        Ok(v) => newest(versions, |v: Seq<char>| is_release(v), Some(v)),
        Err(e) => newest(versions, |v: Seq<char>| is_release(v), None) && e
            == "quilt meta 无稳定版本"@,
    }
}

/// The Fabric version to take: the first that is stable.
pub open spec fn fabric_choice(entries: Seq<LoaderEntry>) -> Result<Seq<char>, Seq<char>> {
    match first_stable(entries) {
        Some(v) => Ok(v),
        None => Err("fabric meta 无稳定版本"@),
    }
}

/// The Forge version to take for a game version: the recommended one, else the latest.
pub open spec fn forge_choice(
    game_version: Seq<char>,
    promos: Seq<(Seq<char>, Seq<char>)>,
) -> Result<Seq<char>, Seq<char>> {
    match lookup(promos, game_version + "-recommended"@) {
        Some(v) => Ok(v),
        None => match lookup(promos, game_version + "-latest"@) {
            Some(v) => Ok(v),
            None => Err("forge 无 "@ + game_version + " 的可用版本"@),
        },
    }
}

/// Picks the newest of the versions that are marked.
fn pick_newest(versions: &[String], marked: &Vec<bool>, Ghost(ok): Ghost<
    spec_fn(Seq<char>) -> bool,
>) -> (r: Option<String>)
    requires
        marked@.len() == versions@.len(),
        forall|i: int| 0 <= i < marked@.len() ==> #[trigger] marked@[i] == ok(versions@[i]@),
    ensures
        newest(views(versions@), ok, opt_view(r)),
{
    let ghost all = views(versions@);
    let mut best: Option<(usize, Vec<u64>)> = None;
    for i in 0..versions.len()
        invariant
            all == views(versions@),
            marked@.len() == versions@.len(),
            forall|i: int| 0 <= i < marked@.len() ==> #[trigger] marked@[i] == ok(versions@[i]@),
            match best {
                Some(b) => b.0 < i && b.1@ == version_numbers(all[b.0 as int]) && is_newest(
                    all.take(i as int),
                    ok,
                    b.0 as int,
                ),
                None => forall|j: int| 0 <= j < i ==> !ok(#[trigger] all[j]),
            },
    {
        let ghost before = all.take(i as int);
        let ghost after = all.take(i + 1);
        assert(forall|j: int| 0 <= j < i ==> before[j] == #[trigger] after[j]);
        assert(after[i as int] == all[i as int]);
        assert(all[i as int] == versions@[i as int]@);
        if marked[i] {
            let key = version_key(versions[i].as_str());
            let ghost vi = version_numbers(all[i as int]);
            let take: bool = match &best {
                Some(b) => !is_numbers_lt(&key, &b.1),
                None => true,
            };
            proof {
                lemma_numbers_irreflexive(vi);
                if best is Some {
                    let found = best->0;
                    let b = found.0 as int;
                    let vb = version_numbers(all[b]);
                    assert(before[b] == all[b]);
                    assert forall|j: int| 0 <= j < i && ok(#[trigger] after[j]) implies !numbers_lt(
                        vb,
                        version_numbers(after[j]),
                    ) && (take ==> !numbers_lt(vi, version_numbers(after[j]))) by {
                        assert(before[j] == after[j]);
                        if take {
                            lemma_numbers_transitive(vi, vb, version_numbers(after[j]));
                        }
                    }
                    assert forall|j: int| b < j < i && ok(#[trigger] after[j]) implies numbers_lt(
                        version_numbers(after[j]),
                        vb,
                    ) by {
                        assert(before[j] == after[j]);
                    }
                    if !take {
                        lemma_numbers_asymmetric(vi, vb);
                        assert(is_newest(after, ok, b));
                    } else {
                        assert(is_newest(after, ok, i as int));
                    }
                } else {
                    assert forall|j: int| 0 <= j < i implies !ok(#[trigger] after[j]) by {
                        assert(after[j] == all[j]);
                    }
                    assert(is_newest(after, ok, i as int));
                }
            }
            if take {
                best = Some((i, key));
            }
        } else {
            proof {
                if best is Some {
                    let found = best->0;
                    let b = found.0 as int;
                    assert(before[b] == all[b]);
                    assert forall|j: int| 0 <= j < after.len() && ok(#[trigger] after[j]) implies
                        !numbers_lt(
                        version_numbers(after[b]),
                        version_numbers(after[j]),
                    ) by {
                        assert(before[j] == after[j]);
                    }
                    assert forall|j: int| b < j < after.len() && ok(#[trigger] after[j]) implies
                        numbers_lt(
                        version_numbers(after[j]),
                        version_numbers(after[b]),
                    ) by {
                        assert(before[j] == after[j]);
                    }
                    assert(is_newest(after, ok, b));
                }
            }
        }
    }
    assert(all.take(versions@.len() as int) =~= all);
    match best {
        Some(b) => {
            assert(is_newest(all, ok, b.0 as int));
            Some(versions[b.0].clone())
        },
        None => None,
    }
}

proof fn lemma_numbers_asymmetric(a: Seq<u64>, b: Seq<u64>)
    requires
        numbers_lt(a, b),
    ensures
        !numbers_lt(b, a),
    decreases a.len(),
{
    if a.len() > 0 && b.len() > 0 && a[0] == b[0] {
        lemma_numbers_asymmetric(a.drop_first(), b.drop_first());
    }
}

/// The newest NeoForge release for a game version.
pub fn pick_neoforge_version(game_version: &str, versions: &[String]) -> (r: Option<String>)
    ensures
        is_neoforge_choice(opt_view(r), game_version@, views(versions@)),
{
    let parts = split(game_version, '.');
    if parts.len() < 2 {
        return None;
    }
    let minor = if parts.len() > 2 {
        parts[2].clone()
    } else {
        "0".to_string()
    };
    let prefix = parts[1].clone().concat(".").concat(minor.as_str()).concat(".");
    let legacy = str_eq(game_version, "1.20.1");
    let ghost p = neoforge_prefix(game_version@)->0;
    assert(views(parts@)[1] == parts@[1]@);
    assert(parts@.len() > 2 ==> views(parts@)[2] == parts@[2]@);
    assert(prefix@ == p);
    let ghost ok = |v: Seq<char>| neoforge_ok(v, p, game_version@ == "1.20.1"@);
    let mut marked: Vec<bool> = Vec::new();
    for i in 0..versions.len()
        invariant
            marked@.len() == i,
            prefix@ == p,
            legacy == (game_version@ == "1.20.1"@),
            ok == (|v: Seq<char>| neoforge_ok(v, p, game_version@ == "1.20.1"@)),
            forall|j: int| 0 <= j < i ==> #[trigger] marked@[j] == ok(versions@[j]@),
    {
        let v = versions[i].as_str();
        marked.push(
            !contains_char(v, '-') && (starts_with(v, prefix.as_str()) || (legacy && starts_with(
                v,
                "47.1.",
            ))),
        );
    }
    pick_newest(versions, &marked, Ghost(ok))
}

/// A loader version as the Fabric and Quilt services list it.
pub struct LoaderEntry {
    pub version: String,
    pub stable: bool,
}

/// The first version that is marked as stable.
pub open spec fn first_stable(entries: Seq<LoaderEntry>) -> Option<Seq<char>>
    decreases entries.len(),
{
    if entries.len() == 0 {
        None
    } else if entries[0].stable {
        Some(entries[0].version@)
    } else {
        first_stable(entries.drop_first())
    }
}

/// The view of a version or of the error.
pub open spec fn result_view(r: Result<String, String>) -> Result<Seq<char>, Seq<char>> {
    match r {
        Ok(s) => Ok(s@),
        Err(e) => Err(e@),
    }
}

/// The Fabric loader to take: the first that is marked as stable.
pub fn pick_fabric_version(entries: &Vec<LoaderEntry>) -> (r: Result<String, String>)
    ensures
        result_view(r) == fabric_choice(entries@),
{
    let ghost all = entries@;
    assert(all.skip(0) =~= all);
    for i in 0..entries.len()
        invariant
            all == entries@,
            first_stable(all) == first_stable(all.skip(i as int)),
    {
        assert(all.skip(i as int)[0] == all[i as int]);
        assert(all.skip(i as int).drop_first() =~= all.skip(i + 1));
        if entries[i].stable {
            return Ok(entries[i].version.clone());
        }
    }
    Err("fabric meta 无稳定版本".to_string())
}

/// The Quilt loader to take: the newest release.
pub fn pick_quilt_version(versions: &Vec<String>) -> (r: Result<String, String>)
    ensures
        is_quilt_choice(result_view(r), views(versions@)),
{
    let ghost ok = |v: Seq<char>| is_release(v);
    let mut marked: Vec<bool> = Vec::new();
    for i in 0..versions.len()
        invariant
            marked@.len() == i,
            ok == (|v: Seq<char>| is_release(v)),
            forall|j: int| 0 <= j < i ==> #[trigger] marked@[j] == ok(versions@[j]@),
    {
        marked.push(!contains_char(versions[i].as_str(), '-'));
    }
    match pick_newest(versions.as_slice(), &marked, Ghost(ok)) {
        Some(v) => Ok(v),
        None => Err("quilt meta 无稳定版本".to_string()),
    }
}

/// The value under a name; of several the first.
pub open spec fn lookup(s: Seq<(Seq<char>, Seq<char>)>, k: Seq<char>) -> Option<Seq<char>>
    decreases s.len(),
{
    if s.len() == 0 {
        None
    } else if s[0].0 == k {
        Some(s[0].1)
    } else {
        lookup(s.drop_first(), k)
    }
}

fn find_value(list: &Vec<(String, String)>, k: &str) -> (r: Option<String>)
    ensures
        opt_view(r) == lookup(param_views(list@), k@),
{
    let ghost all = param_views(list@);
    assert(all.skip(0) =~= all);
    for i in 0..list.len()
        invariant
            all == param_views(list@),
            lookup(all, k@) == lookup(all.skip(i as int), k@),
    {
        assert(all.skip(i as int)[0] == all[i as int]);
        assert(all.skip(i as int).drop_first() =~= all.skip(i + 1));
        if str_eq(list[i].0.as_str(), k) {
            return Some(list[i].1.clone());
        }
    }
    None
}

/// The Forge version to take: the recommended one for the game version, else the latest.
pub fn pick_forge_version(game_version: &str, promos: &Vec<(String, String)>) -> (r: Result<
    String,
    String,
>)
    ensures
        result_view(r) == forge_choice(game_version@, param_views(promos@)),
{
    match find_value(promos, game_version.to_string().concat("-recommended").as_str()) {
        Some(v) => Ok(v),
        None => match find_value(promos, game_version.to_string().concat("-latest").as_str()) {
            Some(v) => Ok(v),
            None => Err(
                "forge 无 ".to_string().concat(game_version).concat(" 的可用版本"),
            ),
        },
    }
}

/// What is said where there is no NeoForge version for a game version.
pub fn no_neoforge(game_version: &str) -> (r: String)
    ensures
        r@ == "neoforge 无 "@ + game_version@ + " 的可用版本"@,
{
    "neoforge 无 ".to_string().concat(game_version).concat(" 的可用版本")
}

/// Where the versions of a loader are listed.
pub open spec fn source_of(loader: Seq<char>) -> Option<Seq<char>> {
    if loader == "fabric"@ {
        Some("https://meta.fabricmc.net/v2/versions/loader"@)
    } else if loader == "quilt"@ {
        Some("https://meta.quiltmc.org/v3/versions/loader"@)
    } else if loader == "forge"@ {
        Some(
            "https://files.minecraftforge.net/maven/net/minecraftforge/forge/promotions_slim.json"@,
        )
    } else if loader == "neoforge"@ {
        Some("https://maven.neoforged.net/api/maven/versions/releases/net/neoforged/neoforge"@)
    } else {
        None
    }
}

/// Where the versions of a loader are listed.
pub fn loader_source(loader: &str) -> (r: Result<&'static str, String>)
    ensures
        match r {
            Ok(u) => source_of(loader@) == Some(u@),
            Err(e) => source_of(loader@) is None && e@ == "不支持的加载器: "@ + loader@,
        },
{
    if str_eq(loader, "fabric") {
        Ok("https://meta.fabricmc.net/v2/versions/loader")
    } else if str_eq(loader, "quilt") {
        Ok("https://meta.quiltmc.org/v3/versions/loader")
    } else if str_eq(loader, "forge") {
        Ok("https://files.minecraftforge.net/maven/net/minecraftforge/forge/promotions_slim.json")
    } else if str_eq(loader, "neoforge") {
        Ok("https://maven.neoforged.net/api/maven/versions/releases/net/neoforged/neoforge")
    } else {
        Err("不支持的加载器: ".to_string().concat(loader))
    }
}

/// What the source of a loader's versions answers.
pub enum LoaderAnswer {
    /// Versions, each with whether it is stable.
    Entries(Vec<LoaderEntry>),
    /// Versions by the name of a promotion.
    Promos(Vec<(String, String)>),
    /// Versions.
    Versions(Vec<String>),
}

/// In which form the source of a loader's versions answers.
pub enum AnswerForm {
    Entries,
    Promos,
    Versions,
}

/// In which form the source of a loader's versions answers.
pub open spec fn form_of(loader: Seq<char>) -> Option<AnswerForm> {
    if loader == "fabric"@ || loader == "quilt"@ {
        Some(AnswerForm::Entries)
    } else if loader == "forge"@ {
        Some(AnswerForm::Promos)
    } else if loader == "neoforge"@ {
        Some(AnswerForm::Versions)
    } else {
        None
    }
}

/// In which form the source of a loader's versions answers.
pub fn answer_form(loader: &str) -> (r: Result<AnswerForm, String>)
    ensures
        match r {
            Ok(f) => form_of(loader@) == Some(f),
            Err(e) => form_of(loader@) is None && e@ == "不支持的加载器: "@ + loader@,
        },
{
    if str_eq(loader, "fabric") || str_eq(loader, "quilt") {
        Ok(AnswerForm::Entries)
    } else if str_eq(loader, "forge") {
        Ok(AnswerForm::Promos)
    } else if str_eq(loader, "neoforge") {
        Ok(AnswerForm::Versions)
    } else {
        Err("不支持的加载器: ".to_string().concat(loader))
    }
}

/// Whether an answer has the form that the source of a loader's versions gives.
pub open spec fn answers(loader: Seq<char>, a: LoaderAnswer) -> bool {
    match form_of(loader) {
        Some(AnswerForm::Entries) => a is Entries,
        Some(AnswerForm::Promos) => a is Promos,
        Some(AnswerForm::Versions) => a is Versions,
        None => true,
    }
}

/// The versions of a list of entries.
pub open spec fn entry_versions(s: Seq<LoaderEntry>) -> Seq<Seq<char>> {
    s.map_values(|e: LoaderEntry| e.version@)
}

/// Whether `r` is the version of a loader to take: of Fabric the first stable one, of Quilt the
/// newest release, of Forge the recommended one before the latest, of NeoForge the newest release
/// for the game version, and of any other loader an error.
pub open spec fn is_loader_choice(
    r: Result<Seq<char>, Seq<char>>,
    loader: Seq<char>,
    game_version: Seq<char>,
    a: LoaderAnswer,
) -> bool {
    if loader == "fabric"@ {
        r == fabric_choice(a->Entries_0@)
    } else if loader == "quilt"@ {
        is_quilt_choice(r, entry_versions(a->Entries_0@))
    } else if loader == "forge"@ {
        r == forge_choice(game_version, param_views(a->Promos_0@))
    } else if loader == "neoforge"@ {
        match r {
            Ok(v) => is_neoforge_choice(Some(v), game_version, views(a->Versions_0@)),
            Err(e) => is_neoforge_choice(None, game_version, views(a->Versions_0@)) && e
                == "neoforge 无 "@ + game_version + " 的可用版本"@,
        }
    } else {
        r == Err::<Seq<char>, Seq<char>>("不支持的加载器: "@ + loader)
    }
}

fn versions_of(entries: &Vec<LoaderEntry>) -> (r: Vec<String>)
    ensures
        views(r@) == entry_versions(entries@),
{
    let ghost all = entry_versions(entries@);
    let mut r: Vec<String> = Vec::new();
    assert(views(r@) =~= all.take(0));
    for i in 0..entries.len()
        invariant
            all == entry_versions(entries@),
            views(r@) == all.take(i as int),
    {
        let v = entries[i].version.clone();
        proof {
            lemma_views_push(r@, v);
        }
        r.push(v);
        assert(all.take(i + 1) =~= all.take(i as int).push(all[i as int]));
    }
    assert(all.take(entries@.len() as int) =~= all);
    r
}

/// The version of a loader to take, from what its source answered.
pub fn pick_loader_version(loader: &str, game_version: &str, answer: &LoaderAnswer) -> (r: Result<
    String,
    String,
>)
    requires
        answers(loader@, *answer),
    ensures
        is_loader_choice(result_view(r), loader@, game_version@, *answer),
{
    proof {
        lemma_loaders_differ();
    }
    match answer {
        LoaderAnswer::Entries(entries) => {
            if str_eq(loader, "fabric") {
                return pick_fabric_version(entries);
            }
            if str_eq(loader, "quilt") {
                return pick_quilt_version(&versions_of(entries));
            }
        },
        LoaderAnswer::Promos(promos) => {
            if str_eq(loader, "forge") {
                return pick_forge_version(game_version, promos);
            }
        },
        LoaderAnswer::Versions(versions) => {
            if str_eq(loader, "neoforge") {
                return match pick_neoforge_version(game_version, versions.as_slice()) {
                    Some(v) => Ok(v),
                    None => Err(no_neoforge(game_version)),
                };
            }
        },
    }
    Err("不支持的加载器: ".to_string().concat(loader))
}

/// The names of the loaders are different.
pub(crate) proof fn lemma_loaders_differ()
    ensures
        "fabric"@ != "quilt"@,
        "fabric"@ != "forge"@,
        "fabric"@ != "neoforge"@,
        "quilt"@ != "forge"@,
        "quilt"@ != "neoforge"@,
        "forge"@ != "neoforge"@,
{
    reveal_strlit("fabric");
    reveal_strlit("quilt");
    reveal_strlit("forge");
    reveal_strlit("neoforge");
    assert("quilt"@[0] == 'q' && "forge"@[0] == 'f');
    assert("fabric"@.len() == 6 && "quilt"@.len() == 5 && "forge"@.len() == 5
        && "neoforge"@.len() == 8);
}

} // verus!

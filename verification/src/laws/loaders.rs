//! Laws of loader versions: which version of a loader a pack gets.

use vstd::prelude::*;

#[allow(unused_imports)]
use crate::laws::texts::lemma_split_at_separator;
#[allow(unused_imports)]
use crate::modrinth::param_views;
#[allow(unused_imports)]
use crate::number::parse_unsigned;
#[allow(unused_imports)]
use crate::text::{split_spec, starts_with_spec, views};
#[allow(unused_imports)]
use crate::tools::loader_meta::{
    dep_key, entry_versions, fabric_choice, forge_choice, form_of, is_loader_choice,
    is_neoforge_choice, is_newest, is_quilt_choice, is_release, lemma_loaders_differ, lookup,
    neoforge_ok, neoforge_prefix, numbers_lt, source_of, version_numbers, AnswerForm, LoaderAnswer,
    LoaderEntry,
};

verus! {

/// Of Fabric the first version that is marked as stable is taken.
pub proof fn lemma_fabric_version(entries: Seq<LoaderEntry>, i: int)
    ensures
        0 <= i < entries.len() && entries[i].stable && (forall|j: int|
            0 <= j < i ==> !(#[trigger] entries[j]).stable) ==> fabric_choice(entries) == Ok::<
            Seq<char>,
            Seq<char>,
        >(entries[i].version@),
        (forall|j: int| 0 <= j < entries.len() ==> !(#[trigger] entries[j]).stable)
            ==> fabric_choice(entries) is Err,
    decreases entries.len(),
{
    if entries.len() > 0 {
        let d = entries.drop_first();
        assert(forall|j: int| 0 <= j < d.len() ==> d[j] == entries[j + 1]);
        lemma_fabric_version(d, i - 1);
        if 0 <= i < entries.len() && entries[i].stable && (forall|j: int|
            0 <= j < i ==> !(#[trigger] entries[j]).stable) {
            if i > 0 {
                assert(!entries[0].stable);
                assert(d[i - 1] == entries[i]);
                assert forall|j: int| 0 <= j < i - 1 implies !(#[trigger] d[j]).stable by {
                    assert(d[j] == entries[j + 1]);
                }
            }
        }
        if forall|j: int| 0 <= j < entries.len() ==> !(#[trigger] entries[j]).stable {
            assert(!entries[0].stable);
            assert forall|j: int| 0 <= j < d.len() implies !(#[trigger] d[j]).stable by {
                assert(d[j] == entries[j + 1]);
            }
        }
    }
}

/// What is looked up under a name is the first value that stands under it.
pub proof fn lemma_looked_up(s: Seq<(Seq<char>, Seq<char>)>, k: Seq<char>, i: int)
    ensures
        0 <= i < s.len() && s[i].0 == k && (forall|j: int| 0 <= j < i ==> (#[trigger] s[j]).0 != k)
            ==> lookup(s, k) == Some(s[i].1),
        (forall|j: int| 0 <= j < s.len() ==> (#[trigger] s[j]).0 != k) ==> lookup(s, k) is None,
        lookup(s, k) is Some ==> exists|j: int| 0 <= j < s.len() && (#[trigger] s[j]).0 == k,
    decreases s.len(),
{
    if s.len() > 0 {
        let d = s.drop_first();
        assert(forall|j: int| 0 <= j < d.len() ==> d[j] == s[j + 1]);
        lemma_looked_up(d, k, i - 1);
        if 0 <= i < s.len() && s[i].0 == k && (forall|j: int|
            0 <= j < i ==> (#[trigger] s[j]).0 != k) {
            if i > 0 {
                assert(s[0].0 != k);
                assert(d[i - 1] == s[i]);
                assert forall|j: int| 0 <= j < i - 1 implies (#[trigger] d[j]).0 != k by {
                    assert(d[j] == s[j + 1]);
                }
            }
        }
        if forall|j: int| 0 <= j < s.len() ==> (#[trigger] s[j]).0 != k {
            assert(s[0].0 != k);
            assert forall|j: int| 0 <= j < d.len() implies (#[trigger] d[j]).0 != k by {
                assert(d[j] == s[j + 1]);
            }
        }
        if lookup(s, k) is Some && s[0].0 != k {
            let j = choose|j: int| 0 <= j < d.len() && (#[trigger] d[j]).0 == k;
            assert(s[j + 1].0 == k);
        }
    }
}

/// Of Forge the version that is recommended for the game version is taken, the latest where none
/// is, and none where there is neither.
pub proof fn lemma_forge_version(gv: Seq<char>, promos: Seq<(Seq<char>, Seq<char>)>, i: int)
    requires
        0 <= i < promos.len(),
        forall|j: int| 0 <= j < promos.len() && j != i ==> (#[trigger] promos[j]).0 != promos[i].0,
    ensures
        promos[i].0 == gv + "-recommended"@ ==> forge_choice(gv, promos) == Ok::<
            Seq<char>,
            Seq<char>,
        >(promos[i].1),
        promos[i].0 == gv + "-latest"@ && (forall|j: int|
            0 <= j < promos.len() ==> (#[trigger] promos[j]).0 != gv + "-recommended"@)
            ==> forge_choice(gv, promos) == Ok::<Seq<char>, Seq<char>>(promos[i].1),
        (forall|j: int|
            0 <= j < promos.len() ==> (#[trigger] promos[j]).0 != gv + "-recommended"@
                && promos[j].0 != gv + "-latest"@) ==> forge_choice(gv, promos) is Err,
{
    lemma_looked_up(promos, gv + "-recommended"@, i);
    lemma_looked_up(promos, gv + "-latest"@, i);
}

/// Versions are compared part by part as numbers, not as texts: by the first part in which they
/// differ, and fewer parts come before more.
pub proof fn lemma_order_of_versions(p: Seq<u64>, x: u64, a: Seq<u64>, y: u64, b: Seq<u64>)
    ensures
        x < y ==> numbers_lt(p + seq![x] + a, p + seq![y] + b),
        x < y ==> !numbers_lt(p + seq![y] + b, p + seq![x] + a),
        numbers_lt(p, p + seq![x] + a),
        !numbers_lt(p + seq![x] + a, p),
        !numbers_lt(p, p),
    decreases p.len(),
{
    let s = p + seq![x] + a;
    let t = p + seq![y] + b;
    if p.len() == 0 {
        assert(s[0] == x && t[0] == y);
    } else {
        let q = p.drop_first();
        lemma_order_of_versions(q, x, a, y, b);
        assert(s.drop_first() =~= q + seq![x] + a);
        assert(t.drop_first() =~= q + seq![y] + b);
        assert(s[0] == p[0] && t[0] == p[0]);
    }
}

/// The parts of a version stand between its dots. A part that is a number counts as that number,
/// and any other as zero.
pub proof fn lemma_parts_of_a_version(a: Seq<char>, b: Seq<char>, n: nat)
    requires
        !a.contains('.'),
    ensures
        version_numbers(a).len() == 1,
        version_numbers(a + seq!['.'] + b) == version_numbers(a) + version_numbers(b),
        n <= u64::MAX && parse_unsigned(a, u64::MAX as nat) == Some(n) ==> version_numbers(a)[0]
            == n,
        parse_unsigned(a, u64::MAX as nat) is None ==> version_numbers(a)[0] == 0,
{
    lemma_split_at_separator(a, b, '.');
    assert(version_numbers(a + seq!['.'] + b) =~= version_numbers(a) + version_numbers(b));
}

/// Of Quilt the newest version is taken that has no suffix: none of them is newer.
pub proof fn lemma_quilt_version(
    r: Result<Seq<char>, Seq<char>>,
    versions: Seq<Seq<char>>,
    j: int,
)
    requires
        is_quilt_choice(r, versions),
        0 <= j < versions.len(),
        !versions[j].contains('-'),
    ensures
        r matches Ok(v) && versions.contains(v) && !v.contains('-') && !numbers_lt(
            version_numbers(v),
            version_numbers(versions[j]),
        ),
{
    let ok = |x: Seq<char>| is_release(x);
    match r {
        Ok(x) => {
            let i = choose|i: int| #[trigger] is_newest(versions, ok, i) && versions[i] == x;
            assert(ok(versions[j]));
            assert(versions.contains(versions[i]));
        },
        Err(_) => {
            assert(ok(versions[j]));
        },
    }
}

/// The versions of NeoForge are numbered by the second and the third part of the game version; a
/// third part that is missing counts as zero.
pub proof fn lemma_neoforge_numbers(a: Seq<char>, b: Seq<char>, c: Seq<char>)
    requires
        !a.contains('.'),
        !b.contains('.'),
        !c.contains('.'),
    ensures
        neoforge_prefix(a + seq!['.'] + b) == Some(b + ".0."@),
        neoforge_prefix(a + seq!['.'] + (b + seq!['.'] + c)) == Some(b + "."@ + c + "."@),
        neoforge_prefix(a) is None,
{
    reveal_strlit(".");
    reveal_strlit("0");
    reveal_strlit(".0.");
    lemma_split_at_separator(a, b, '.');
    lemma_split_at_separator(b, c, '.');
    lemma_split_at_separator(c, c, '.');
    lemma_split_at_separator(a, b + seq!['.'] + c, '.');
    assert(split_spec(a + seq!['.'] + b, '.') =~= seq![a, b]);
    assert(split_spec(a + seq!['.'] + (b + seq!['.'] + c), '.') =~= seq![a, b, c]);
    assert(b + "."@ + "0"@ + "."@ =~= b + ".0."@);
}

/// Of NeoForge the newest version without a suffix is taken whose number begins with that of the
/// game version: none of them is newer. For 1.20.1 the first ones, from 47.1 on, count too.
pub proof fn lemma_neoforge_version(
    r: Option<Seq<char>>,
    gv: Seq<char>,
    prefix: Seq<char>,
    versions: Seq<Seq<char>>,
    j: int,
)
    requires
        is_neoforge_choice(r, gv, versions),
        neoforge_prefix(gv) == Some(prefix),
        0 <= j < versions.len(),
        !versions[j].contains('-'),
        starts_with_spec(versions[j], prefix) || (gv == "1.20.1"@ && starts_with_spec(
            versions[j],
            "47.1."@,
        )),
    ensures
        r matches Some(v) && versions.contains(v) && !v.contains('-') && !numbers_lt(
            version_numbers(v),
            version_numbers(versions[j]),
        ) && (starts_with_spec(v, prefix) || (gv == "1.20.1"@ && starts_with_spec(v, "47.1."@))),
{
    let ok = |v: Seq<char>| neoforge_ok(v, prefix, gv == "1.20.1"@);
    match r {
        Some(x) => {
            let i = choose|i: int| #[trigger] is_newest(versions, ok, i) && versions[i] == x;
            assert(ok(versions[j]));
            assert(ok(versions[i]));
            assert(versions.contains(versions[i]));
        },
        None => {
            assert(ok(versions[j]));
        },
    }
}

/// No version of NeoForge is taken that is not for the game version.
pub proof fn lemma_neoforge_takes_no_other(
    gv: Seq<char>,
    versions: Seq<Seq<char>>,
    v: Seq<char>,
)
    requires
        is_neoforge_choice(Some(v), gv, versions),
    ensures
        neoforge_prefix(gv) matches Some(p) && (starts_with_spec(v, p) || (gv == "1.20.1"@
            && starts_with_spec(v, "47.1."@))),
        !v.contains('-'),
        versions.contains(v),
{
    let p = neoforge_prefix(gv)->0;
    let ok = |x: Seq<char>| neoforge_ok(x, p, gv == "1.20.1"@);
    let i = choose|i: int| #[trigger] is_newest(versions, ok, i) && versions[i] == v;
    assert(ok(versions[i]));
    assert(versions.contains(versions[i]));
}

/// Each loader has its own rule, and its own place where its versions are listed; other loaders
/// are refused.
pub proof fn lemma_rule_of_each_loader(
    r: Result<Seq<char>, Seq<char>>,
    gv: Seq<char>,
    loader: Seq<char>,
    a: LoaderAnswer,
)
    ensures
        is_loader_choice(r, "fabric"@, gv, a) && a is Entries ==> r == fabric_choice(
            a->Entries_0@,
        ),
        is_loader_choice(r, "quilt"@, gv, a) && a is Entries ==> is_quilt_choice(
            r,
            a->Entries_0@.map_values(|e: LoaderEntry| e.version@),
        ),
        is_loader_choice(r, "forge"@, gv, a) && a is Promos ==> r == forge_choice(
            gv,
            param_views(a->Promos_0@),
        ),
        is_loader_choice(r, "neoforge"@, gv, a) && a is Versions ==> (match r {
            Ok(v) => is_neoforge_choice(Some(v), gv, views(a->Versions_0@)),
            Err(_) => is_neoforge_choice(None, gv, views(a->Versions_0@)),
        }),
        dep_key(loader) is None && is_loader_choice(r, loader, gv, a) ==> r is Err,
        source_of(loader) is Some <==> dep_key(loader) is Some,
        form_of(loader) is Some <==> dep_key(loader) is Some,
        form_of("fabric"@) == Some(AnswerForm::Entries),
        form_of("quilt"@) == Some(AnswerForm::Entries),
        form_of("forge"@) == Some(AnswerForm::Promos),
        form_of("neoforge"@) == Some(AnswerForm::Versions),
        source_of("fabric"@) == Some("https://meta.fabricmc.net/v2/versions/loader"@),
        source_of("quilt"@) == Some("https://meta.quiltmc.org/v3/versions/loader"@),
        source_of("forge"@) == Some(
            "https://files.minecraftforge.net/maven/net/minecraftforge/forge/promotions_slim.json"@,
        ),
        source_of("neoforge"@) == Some(
            "https://maven.neoforged.net/api/maven/versions/releases/net/neoforged/neoforge"@,
        ),
{
    lemma_loaders_differ();
    if a is Entries {
        assert(entry_versions(a->Entries_0@) =~= a->Entries_0@.map_values(
            |e: LoaderEntry| e.version@,
        ));
    }
}

} // verus!

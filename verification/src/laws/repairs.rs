//! Laws of repairing: which pack is meant, what it is for, and what is added to it.

use vstd::prelude::*;

#[allow(unused_imports)]
use crate::json::{object_map, JsonView};
#[allow(unused_imports)]
use crate::laws::texts::{lemma_holds_in_between, lemma_name_and_extension};
#[allow(unused_imports)]
use crate::modrinth::ModVersion;
#[allow(unused_imports)]
use crate::text::{has_extension, lemma_rfind_char, rfind_char, unicode_lower};
#[allow(unused_imports)]
use crate::tools::build_pack::{file_tree, FileView};
#[allow(unused_imports)]
use crate::tools::repair::{
    added_tree, after_outcome, is_exact, is_fuzzy, pack_target, paths, repair_choice, resolved,
    stem, RepairOutcome, RepairView,
};

verus! {

proof fn lemma_first_kept(s: Seq<Seq<char>>, keep: spec_fn(Seq<char>) -> bool, i: int)
    requires
        0 <= i < s.len(),
        keep(s[i]),
        forall|j: int| 0 <= j < i ==> !keep(#[trigger] s[j]),
    ensures
        s.filter(keep).len() > 0,
        s.filter(keep)[0] == s[i],
        (forall|j: int| i < j < s.len() ==> !keep(#[trigger] s[j])) ==> s.filter(keep).len() == 1,
        (exists|j: int| i < j < s.len() && keep(#[trigger] s[j])) ==> s.filter(keep).len() > 1,
    decreases s.len(),
{
    reveal(Seq::filter);
    let d = s.drop_last();
    assert(forall|j: int| 0 <= j < d.len() ==> d[j] == s[j]);
    if i < d.len() {
        lemma_first_kept(d, keep, i);
        if exists|j: int| i < j < s.len() && keep(#[trigger] s[j]) {
            let j = choose|j: int| i < j < s.len() && keep(#[trigger] s[j]);
            if j < d.len() {
                assert(keep(d[j]));
            }
        }
    } else {
        lemma_none_kept(d, keep);
    }
}

proof fn lemma_none_kept(s: Seq<Seq<char>>, keep: spec_fn(Seq<char>) -> bool)
    requires
        forall|j: int| 0 <= j < s.len() ==> !keep(#[trigger] s[j]),
    ensures
        s.filter(keep).len() == 0,
    decreases s.len(),
{
    reveal(Seq::filter);
    if s.len() > 0 {
        let d = s.drop_last();
        assert(forall|j: int| 0 <= j < d.len() ==> d[j] == s[j]);
        lemma_none_kept(d, keep);
        assert(!keep(s[s.len() - 1]));
    }
}

/// A file is a pack where its name is something and `.mrpack` behind it; the something is the
/// name of the pack.
proof fn lemma_pack_names(file: Seq<char>, st: Seq<char>)
    ensures
        st.len() > 0 && file == st + ".mrpack"@ ==> has_extension(file, "mrpack"@) && stem(file)
            == st,
        has_extension(file, "mrpack"@) ==> stem(file).len() > 0 && file == stem(file) + ".mrpack"@,
{
    reveal_strlit(".mrpack");
    reveal_strlit("mrpack");
    assert(".mrpack"@ =~= seq!['.'] + "mrpack"@);
    assert(!"mrpack"@.contains('.')) by {
        assert forall|i: int| 0 <= i < "mrpack"@.len() implies "mrpack"@[i] != '.' by {}
    }
    lemma_name_and_extension(st, "mrpack"@, "mrpack"@);
    assert(st + ".mrpack"@ =~= st + seq!['.'] + "mrpack"@);
    if has_extension(file, "mrpack"@) {
        lemma_rfind_char(file, '.');
        let k = rfind_char(file, '.');
        assert(file =~= file.take(k) + seq!['.'] + file.skip(k + 1));
        assert(file =~= stem(file) + ".mrpack"@);
    }
}

/// Whether a file is a pack whose name, in lower case, is the given text.
pub open spec fn is_named(file: Seq<char>, lower: Seq<char>) -> bool {
    exists|st: Seq<char>|
        st.len() > 0 && file == #[trigger] (st + ".mrpack"@) && unicode_lower(st) == lower
}

/// Whether a file is a pack whose name, in lower case, holds the given text, wherever it stands.
pub open spec fn is_named_like(file: Seq<char>, lower: Seq<char>) -> bool {
    exists|st: Seq<char>, a: Seq<char>, b: Seq<char>|
        st.len() > 0 && file == #[trigger] (st + ".mrpack"@) && unicode_lower(st) == #[trigger] (a
            + lower + b)
}

proof fn lemma_exact(file: Seq<char>, lower: Seq<char>)
    ensures
        is_exact(file, lower) <==> is_named(file, lower),
{
    if is_named(file, lower) {
        let st = choose|st: Seq<char>|
            st.len() > 0 && file == #[trigger] (st + ".mrpack"@) && unicode_lower(st) == lower;
        lemma_pack_names(file, st);
    }
    if is_exact(file, lower) {
        lemma_pack_names(file, stem(file));
        assert(file == stem(file) + ".mrpack"@);
    }
}

proof fn lemma_fuzzy(file: Seq<char>, lower: Seq<char>)
    ensures
        is_fuzzy(file, lower) <==> is_named_like(file, lower),
{
    if is_named_like(file, lower) {
        let (st, a, b) = choose|st: Seq<char>, a: Seq<char>, b: Seq<char>|
            st.len() > 0 && file == #[trigger] (st + ".mrpack"@) && unicode_lower(st)
                == #[trigger] (a + lower + b);
        lemma_pack_names(file, st);
        lemma_holds_in_between(unicode_lower(st), a, lower, b);
    }
    if is_fuzzy(file, lower) {
        let st = stem(file);
        lemma_pack_names(file, st);
        lemma_holds_in_between(unicode_lower(st), Seq::empty(), lower, Seq::empty());
        let (a, b) = choose|a: Seq<char>, b: Seq<char>| #[trigger] (a + lower + b) == unicode_lower(st);
        assert(file == st + ".mrpack"@ && unicode_lower(st) == a + lower + b);
    }
}

/// The pack that is meant is the first that has the given name, whatever others hold it.
pub proof fn lemma_named_pack_is_meant(
    dir: Seq<char>,
    names: Seq<Seq<char>>,
    pack_name: Seq<char>,
    lower: Seq<char>,
    i: int,
)
    requires
        0 <= i < names.len(),
        is_named(names[i], lower),
        forall|j: int| 0 <= j < i ==> !is_named(#[trigger] names[j], lower),
    ensures
        resolved(dir, names, pack_name, lower) == Ok::<Seq<char>, Seq<char>>(names[i]),
{
    let keep = |n: Seq<char>| is_exact(n, lower);
    lemma_exact(names[i], lower);
    assert forall|j: int| 0 <= j < i implies !keep(#[trigger] names[j]) by {
        lemma_exact(names[j], lower);
    }
    lemma_first_kept(names, keep, i);
}

/// Where no pack has the given name, the only one whose name holds it, at the beginning, at the
/// end or within, is the one that is meant.
pub proof fn lemma_only_pack_like_it_is_meant(
    dir: Seq<char>,
    names: Seq<Seq<char>>,
    pack_name: Seq<char>,
    lower: Seq<char>,
    i: int,
)
    requires
        0 <= i < names.len(),
        is_named_like(names[i], lower),
        forall|j: int| 0 <= j < names.len() ==> !is_named(#[trigger] names[j], lower),
        forall|j: int|
            0 <= j < names.len() && j != i ==> !is_named_like(#[trigger] names[j], lower),
    ensures
        resolved(dir, names, pack_name, lower) == Ok::<Seq<char>, Seq<char>>(names[i]),
{
    let exact = |n: Seq<char>| is_exact(n, lower);
    let fuzzy = |n: Seq<char>| is_fuzzy(n, lower);
    assert forall|j: int| 0 <= j < names.len() implies !exact(#[trigger] names[j]) by {
        lemma_exact(names[j], lower);
    }
    lemma_none_kept(names, exact);
    lemma_fuzzy(names[i], lower);
    assert forall|j: int| 0 <= j < names.len() && j != i implies !fuzzy(#[trigger] names[j]) by {
        lemma_fuzzy(names[j], lower);
    }
    lemma_first_kept(names, fuzzy, i);
}

/// Where no name holds the given one, or more than one does and none is it, no pack is taken.
pub proof fn lemma_no_pack_is_guessed(
    dir: Seq<char>,
    names: Seq<Seq<char>>,
    pack_name: Seq<char>,
    lower: Seq<char>,
    i: int,
    k: int,
)
    requires
        forall|j: int| 0 <= j < names.len() ==> !is_named(#[trigger] names[j], lower),
    ensures
        (forall|j: int| 0 <= j < names.len() ==> !is_named_like(#[trigger] names[j], lower))
            ==> resolved(dir, names, pack_name, lower) == Err::<Seq<char>, Seq<char>>(
            "在 "@ + dir + " 中找不到整合包 '"@ + pack_name + "'"@,
        ),
        0 <= i < k < names.len() && is_named_like(names[i], lower) && is_named_like(names[k], lower)
            ==> resolved(dir, names, pack_name, lower) is Err,
{
    let exact = |n: Seq<char>| is_exact(n, lower);
    let fuzzy = |n: Seq<char>| is_fuzzy(n, lower);
    assert forall|j: int| 0 <= j < names.len() implies !exact(#[trigger] names[j]) by {
        lemma_exact(names[j], lower);
    }
    lemma_none_kept(names, exact);
    if forall|j: int| 0 <= j < names.len() ==> !is_named_like(#[trigger] names[j], lower) {
        assert forall|j: int| 0 <= j < names.len() implies !fuzzy(#[trigger] names[j]) by {
            lemma_fuzzy(names[j], lower);
        }
        lemma_none_kept(names, fuzzy);
    }
    if 0 <= i < k < names.len() && is_named_like(names[i], lower) && is_named_like(
        names[k],
        lower,
    ) {
        lemma_fuzzy(names[i], lower);
        lemma_fuzzy(names[k], lower);
        assert(fuzzy(names[i]) && fuzzy(names[k]));
        let f = lemma_first_of(names, fuzzy, i);
        assert(f <= i && i < k);
        lemma_first_kept(names, fuzzy, f);
        assert(f < k && keep_at(names, fuzzy, k));
    }
}

spec fn keep_at(s: Seq<Seq<char>>, keep: spec_fn(Seq<char>) -> bool, k: int) -> bool {
    keep(s[k])
}

proof fn lemma_first_of(s: Seq<Seq<char>>, keep: spec_fn(Seq<char>) -> bool, i: int) -> (f: int)
    requires
        0 <= i < s.len(),
        keep(s[i]),
    ensures
        0 <= f <= i,
        keep(s[f]),
        forall|j: int| 0 <= j < f ==> !keep(#[trigger] s[j]),
    decreases i,
{
    if exists|j: int| 0 <= j < i && keep(#[trigger] s[j]) {
        let j = choose|j: int| 0 <= j < i && keep(#[trigger] s[j]);
        lemma_first_of(s, keep, j)
    } else {
        i
    }
}

/// A pack says in its dependencies which game version it is for and, under the name of the loader,
/// which loader.
pub proof fn lemma_what_a_pack_is_for(
    index: JsonView,
    m: Map<Seq<char>, JsonView>,
    gv: Seq<char>,
)
    requires
        index.get("dependencies"@) == Some(JsonView::Object(m)),
        m.dom().contains("minecraft"@),
        m["minecraft"@] == JsonView::Str(gv),
    ensures
        m.dom().contains("fabric-loader"@) ==> pack_target(index) == Ok::<
            (Seq<char>, Seq<char>),
            Seq<char>,
        >((gv, "fabric"@)),
        m.dom().contains("quilt-loader"@) && !m.dom().contains("fabric-loader"@) ==> pack_target(
            index,
        ) == Ok::<(Seq<char>, Seq<char>), Seq<char>>((gv, "quilt"@)),
        m.dom().contains("forge"@) && !m.dom().contains("fabric-loader"@) && !m.dom().contains(
            "quilt-loader"@,
        ) ==> pack_target(index) == Ok::<(Seq<char>, Seq<char>), Seq<char>>((gv, "forge"@)),
        m.dom().contains("neoforge"@) && !m.dom().contains("fabric-loader"@) && !m.dom().contains(
            "quilt-loader"@,
        ) && !m.dom().contains("forge"@) ==> pack_target(index) == Ok::<
            (Seq<char>, Seq<char>),
            Seq<char>,
        >((gv, "neoforge"@)),
        !m.dom().contains("fabric-loader"@) && !m.dom().contains("quilt-loader"@)
            && !m.dom().contains("forge"@) && !m.dom().contains("neoforge"@) ==> pack_target(
            index,
        ) is Err,
{
}

/// A pack that does not say which game version it is for cannot be repaired.
pub proof fn lemma_pack_without_a_version(index: JsonView)
    ensures
        !(index.get("dependencies"@) matches Some(JsonView::Object(_))) ==> pack_target(index)
            is Err,
        index.get("dependencies"@) matches Some(JsonView::Object(m)) ==> (!(m.dom().contains(
            "minecraft"@,
        ) && m["minecraft"@] is Str) ==> pack_target(index) is Err),
{
}

/// A file is added at the end, with its path, where it is, its checksums, its size and the sides
/// that it runs on; the report names the mod, its version and the path. A file whose path is
/// taken changes nothing.
pub proof fn lemma_file_is_added(r: RepairView, slug: Seq<char>, version: Seq<char>, f: FileView)
    ensures
        ({
            let q = r.with_mod(slug, version, f);
            &&& (r.existing.contains(f.path) ==> q == r)
            &&& (!r.existing.contains(f.path) ==> {
                &&& q.items == r.items.push(file_tree(f))
                &&& q.existing == r.existing.push(f.path)
                &&& q.added.len() == r.added.len() + 1
                &&& q.added.take(r.added.len() as int) == r.added
                &&& q.added.last().str_at("slug"@) == Some(slug)
                &&& q.added.last().str_at("version"@) == Some(version)
                &&& q.added.last().str_at("path"@) == Some(f.path)
                &&& q.rest == r.rest && q.auto_added == r.auto_added && q.conflicts == r.conflicts
            })
        }),
{
    reveal_with_fuel(object_map, 4);
    reveal_strlit("slug");
    reveal_strlit("version");
    reveal_strlit("path");
    assert("slug"@.len() == 4 && "version"@.len() == 7 && "path"@.len() == 4);
    assert("slug"@[0] == 's' && "path"@[0] == 'p');
    let q = r.with_mod(slug, version, f);
    if !r.existing.contains(f.path) {
        assert(q.added.take(r.added.len() as int) =~= r.added);
        assert(q.added.last() == added_tree(slug, version, f.path));
    }
}

/// The description of a repaired pack has the files of the repair, and all else as it was.
pub proof fn lemma_description_of_repaired_pack(r: RepairView, k: Seq<char>)
    ensures
        r.index().get("files"@) == Some(JsonView::Array(r.items)),
        k != "files"@ && r.rest.dom().contains(k) ==> r.index().get(k) == Some(r.rest[k]),
        k != "files"@ && !r.rest.dom().contains(k) ==> r.index().get(k) is None,
{
}

/// The paths of a pack are those that its files name, one by one and in their order.
pub proof fn lemma_paths_of_files(a: Seq<JsonView>, f: JsonView, b: Seq<JsonView>)
    ensures
        paths(a + b) == paths(a) + paths(b),
        paths(seq![f]) == (match f.get("path"@) {
            Some(JsonView::Str(p)) => seq![p],
            _ => Seq::<Seq<char>>::empty(),
        }),
    decreases b.len(),
{
    if b.len() == 0 {
        assert(a + b =~= a);
        assert(paths(a) + paths(b) =~= paths(a));
    } else {
        lemma_paths_of_files(a, f, b.drop_last());
        assert((a + b).drop_last() =~= a + b.drop_last());
        assert((a + b).last() == b.last());
        assert(paths(a + b) =~= paths(a) + paths(b));
    }
    assert(seq![f].drop_last() =~= Seq::<JsonView>::empty());
    assert(paths(seq![f].drop_last()) =~= Seq::<Seq<char>>::empty());
    assert(paths(seq![f]) =~= match f.get("path"@) {
        Some(JsonView::Str(p)) => seq![p],
        _ => Seq::<Seq<char>>::empty(),
    });
}

/// The file that is added of a mod is one of its newest release; where its releases cannot be
/// read, where there is none or where the newest has no file, the reason is given.
pub proof fn lemma_file_of_newest_release(
    gv: Seq<char>,
    loader: Seq<char>,
    answer: Result<Vec<ModVersion>, String>,
)
    ensures
        answer matches Err(e) ==> repair_choice(gv, loader, answer) == Err::<int, Seq<char>>(e@),
        answer matches Ok(v) ==> (v@.len() == 0 ==> repair_choice(gv, loader, answer) is Err),
        answer matches Ok(v) ==> (v@.len() > 0 && v@[0].files@.len() == 0 ==> repair_choice(
            gv,
            loader,
            answer,
        ) is Err),
        answer matches Ok(v) ==> (v@.len() > 0 && v@[0].files@.len() > 0 ==> (repair_choice(
            gv,
            loader,
            answer,
        ) matches Ok(i) && 0 <= i < v@[0].files@.len())),
{
    match answer {
        Ok(v) => if v@.len() > 0 {
            crate::laws::packs::lemma_file_of_a_release(v@[0].files@);
        },
        Err(_) => {},
    }
}

/// A mod that cannot be added is reported with the reason, and the pack stays as it was.
pub proof fn lemma_what_is_missing_is_reported(r: RepairView, slug: String, issue: String)
    ensures
        ({
            let q = after_outcome(r, RepairOutcome::Conflict { slug, issue });
            &&& q.conflicts == r.conflicts.push(slug@ + ": "@ + issue@)
            &&& q.items == r.items && q.existing == r.existing && q.added == r.added
            &&& q.rest == r.rest && q.auto_added == r.auto_added
        }),
{
}

/// A mod that was found is added with the file that was chosen of its release, at `mods/` and the
/// name of the file.
pub proof fn lemma_what_was_found_is_added(
    r: RepairView,
    slug: String,
    version: ModVersion,
    file: usize,
    env: Option<(String, String)>,
)
    requires
        file < version.files@.len(),
        !r.existing.contains("mods/"@ + version.files@[file as int].filename@),
    ensures
        ({
            let f = version.files@[file as int];
            let q = after_outcome(r, RepairOutcome::Mod { slug, version, file, env });
            &&& q.items.len() == r.items.len() + 1
            &&& q.items.last().str_at("path"@) == Some("mods/"@ + f.filename@)
            &&& q.items.last().u64_at("fileSize"@) == Some(f.size)
            &&& q.added.last().str_at("slug"@) == Some(slug@)
            &&& q.added.last().str_at("version"@) == Some(version.version_number@)
            &&& q.conflicts == r.conflicts
        }),
{
    let f = version.files@[file as int];
    let fv = crate::tools::build_pack::release_file(f, env);
    lemma_file_is_added(r, slug@, version.version_number@, fv);
    crate::laws::packs::lemma_file_as_described(fv);
}

} // verus!

//! `build_modpack`, step by step: which catalogue is asked next, and what its answer means.

use vstd::prelude::*;

use crate::closure::Closure;
use crate::curseforge::{find_file, CfFile, CfFileMeta, CfProject};
#[allow(unused_imports)]
use crate::curseforge::{is_choice, none_fits};
#[allow(unused_imports)]
use crate::json::{json_compact, JsonView};
use crate::modrinth::ModVersion;
#[allow(unused_imports)]
use crate::number::dec;
#[allow(unused_imports)]
use crate::text::views;
use crate::tools::build_pack::{cf_report, collect_report, loader_report, PackBuild};
#[allow(unused_imports)]
use crate::tools::build_pack::{
    cf_summary, choose_file, conflict, mod_summary, next_dep, BuildArgs, BuildView,
};
use crate::tools::{ProgressUpdate, TOOL_INTERRUPTED};
#[allow(unused_imports)]
use crate::tools::{update_views, UpdateView};

verus! {

/// Where the work on a pack stands.
pub enum Stage {
    /// The mod of CurseForge with this index is to be looked up.
    LookUp(usize),
    /// Of the mod of CurseForge with this index, which was found, the file with the second index
    /// is to be fetched.
    Fetch(usize, CfProject, usize),
    /// The mods that files of CurseForge require are to be gone through.
    Deps,
    /// This mod is required by a file of CurseForge, and is to be found at Modrinth.
    Dep(String),
    /// The mod with this index is to be taken up.
    Collect(usize),
    /// The releases of the mod with this index are to be read.
    Asked(usize),
    /// Of the mod with this index, whose releases are known, the file with the second index is
    /// taken; on which sides the mod runs is to be read.
    Sides(usize, Vec<ModVersion>, usize),
    /// All mods are collected; the version of the loader is to be read.
    Loader,
}

/// The mathematical value of a [`Stage`].
#[verifier::ext_equal]
pub enum StageView {
    LookUp(nat),
    Fetch(nat, CfProject, nat),
    Deps,
    Dep(Seq<char>),
    Collect(nat),
    Asked(nat),
    Sides(nat, Seq<ModVersion>, nat),
    Loader,
}

impl View for Stage {
    type V = StageView;

    open spec fn view(&self) -> StageView {
        match *self {
            Stage::LookUp(i) => StageView::LookUp(i as nat),
            Stage::Fetch(i, p, k) => StageView::Fetch(i as nat, p, k as nat),
            Stage::Deps => StageView::Deps,
            Stage::Dep(s) => StageView::Dep(s@),
            Stage::Collect(i) => StageView::Collect(i as nat),
            Stage::Asked(i) => StageView::Asked(i as nat),
            Stage::Sides(i, v, k) => StageView::Sides(i as nat, v@, k as nat),
            Stage::Loader => StageView::Loader,
        }
    }
}

/// What is to be done next.
pub enum BuildStep {
    /// Look a mod up at CurseForge.
    LookUp { slug: String },
    /// Fetch the file that was chosen.
    Fetch,
    /// Find out whether Modrinth has a mod.
    FindMod { slug: String },
    /// Read the releases of a mod.
    Versions { slug: String },
    /// Read on which sides a mod runs.
    Sides { slug: String },
    /// Read the version of the loader; then the pack can be written.
    LoaderVersion,
}

/// The mathematical value of a [`BuildStep`].
#[verifier::ext_equal]
pub enum BuildStepView {
    LookUp { slug: Seq<char> },
    Fetch,
    FindMod { slug: Seq<char> },
    Versions { slug: Seq<char> },
    Sides { slug: Seq<char> },
    LoaderVersion,
}

impl View for BuildStep {
    type V = BuildStepView;

    open spec fn view(&self) -> BuildStepView {
        match *self {
            BuildStep::LookUp { slug } => BuildStepView::LookUp { slug: slug@ },
            BuildStep::Fetch => BuildStepView::Fetch,
            BuildStep::FindMod { slug } => BuildStepView::FindMod { slug: slug@ },
            BuildStep::Versions { slug } => BuildStepView::Versions { slug: slug@ },
            BuildStep::Sides { slug } => BuildStepView::Sides { slug: slug@ },
            BuildStep::LoaderVersion => BuildStepView::LoaderVersion,
        }
    }
}

/// The view of a step or of the reason to stop.
pub open spec fn step_view(r: Result<BuildStep, String>) -> Result<BuildStepView, Seq<char>> {
    match r {
        Ok(s) => Ok(s@),
        Err(e) => Err(e@),
    }
}

/// The work on a pack.
pub struct BuildRun {
    pub pack: PackBuild,
    pub stage: Stage,
}

/// The mathematical value of a [`BuildRun`], without what the pack was made with.
#[verifier::ext_equal]
pub struct RunView {
    pub pack: BuildView,
    pub stage: StageView,
}

impl View for BuildRun {
    type V = RunView;

    open spec fn view(&self) -> RunView {
        RunView { pack: self.pack@, stage: self.stage@ }
    }
}

/// How far the work is: the work after a step, what to do, and what to report before it.
pub type Outcome = (RunView, Result<BuildStepView, Seq<char>>, Seq<UpdateView>);

/// What is reported when the mod with index `i` is taken up.
pub open spec fn collect_update(slugs: Seq<Seq<char>>, i: nat) -> UpdateView {
    (
        "正在收集 mod "@ + slugs[i as int] + " ("@ + dec(i + 1) + "/"@ + dec(slugs.len()) + ")"@,
        Some((i + 1) as u64),
        Some(slugs.len() as u64),
    )
}

/// What is reported when the mod of CurseForge with index `i` is taken up.
pub open spec fn cf_update(slugs: Seq<Seq<char>>, i: nat) -> UpdateView {
    (
        "解析 CF mod "@ + slugs[i as int] + " ("@ + dec(i + 1) + "/"@ + dec(slugs.len()) + ")"@,
        Some((i + 1) as u64),
        Some(slugs.len() as u64),
    )
}

/// Why a pack without files is given up.
pub open spec fn no_files(b: BuildView) -> Seq<char> {
    "没有任何 mod 能解析出兼容版本, 组包中止. 详情: "@ + json_compact(JsonView::Array(b.conflicts))
}

/// The next step where the mod with index `i` is to be taken up: one that was taken up before is
/// passed over with a note.
pub open spec fn from_collect(a: BuildArgs, b: BuildView, i: nat, interrupted: bool) -> Outcome
    decreases b.final_slugs.len() - i,
{
    if i >= b.final_slugs.len() {
        if b.files.len() == 0 {
            (RunView { pack: b, stage: StageView::Collect(i) }, Err(no_files(b)), Seq::empty())
        } else {
            (
                RunView { pack: b, stage: StageView::Loader },
                Ok(BuildStepView::LoaderVersion),
                seq![("获取 "@ + a.loader@ + " loader 版本"@, None, None)],
            )
        }
    } else if interrupted {
        (RunView { pack: b, stage: StageView::Collect(i) }, Err(TOOL_INTERRUPTED@), Seq::empty())
    } else if b.seen.contains(b.final_slugs[i as int]) {
        let after = b.with_conflict(conflict(b.final_slugs[i as int], "重复添加"@));
        let rest = from_collect(a, after, i + 1, interrupted);
        (rest.0, rest.1, seq![collect_update(b.final_slugs, i)] + rest.2)
    } else {
        (
            RunView {
                pack: BuildView { seen: b.seen.push(b.final_slugs[i as int]), ..b },
                stage: StageView::Asked(i),
            },
            Ok(BuildStepView::Versions { slug: b.final_slugs[i as int] }),
            seq![collect_update(b.final_slugs, i)],
        )
    }
}

/// The next step where the mods that files of CurseForge require are to be gone through.
pub open spec fn from_deps(a: BuildArgs, b: BuildView, interrupted: bool) -> Outcome {
    let n = next_dep(b);
    match n.0 {
        Some(dep) => (
            RunView { pack: n.1, stage: StageView::Dep(dep) },
            Ok(BuildStepView::FindMod { slug: dep }),
            Seq::empty(),
        ),
        None => from_collect(a, n.1, 0, interrupted),
    }
}

/// The next step.
pub open spec fn next_step(
    a: BuildArgs,
    run: RunView,
    interrupted: bool,
    cf_enabled: bool,
) -> Outcome {
    let b = run.pack;
    match run.stage {
        StageView::LookUp(i) => if i >= a.cf_mods@.len() {
            from_deps(a, b, interrupted)
        } else if !cf_enabled {
            (
                run,
                Err("cf_mods 需要在 config.toml 的 [curseforge] 打开 enabled 后使用"@),
                Seq::empty(),
            )
        } else if interrupted {
            (run, Err(TOOL_INTERRUPTED@), Seq::empty())
        } else {
            (
                run,
                Ok(BuildStepView::LookUp { slug: views(a.cf_mods@)[i as int] }),
                seq![cf_update(views(a.cf_mods@), i)],
            )
        },
        StageView::Fetch(_, _, _) => (run, Ok(BuildStepView::Fetch), Seq::empty()),
        StageView::Deps => from_deps(a, b, interrupted),
        StageView::Dep(dep) => (run, Ok(BuildStepView::FindMod { slug: dep }), Seq::empty()),
        StageView::Collect(i) => from_collect(a, b, i, interrupted),
        StageView::Asked(i) => (
            run,
            Ok(BuildStepView::Versions { slug: b.final_slugs[i as int] }),
            Seq::empty(),
        ),
        StageView::Sides(i, _, _) => (
            run,
            Ok(BuildStepView::Sides { slug: b.final_slugs[i as int] }),
            Seq::empty(),
        ),
        StageView::Loader => (run, Ok(BuildStepView::LoaderVersion), Seq::empty()),
    }
}

/// Whether the work goes on from `run` to `after` where CurseForge answers a look-up: a failure
/// and a mod without a file that fits are recorded, else the file that was chosen is next.
pub open spec fn after_lookup(
    a: BuildArgs,
    run: RunView,
    answer: Result<CfProject, String>,
    after: RunView,
) -> bool {
    let b = run.pack;
    match run.stage {
        StageView::LookUp(i) => {
            let slug = views(a.cf_mods@)[i as int];
            match answer {
                Err(e) => after == RunView {
                    pack: b.with_conflict(conflict(slug, "cfwidget 查询失败: "@ + e@)),
                    stage: StageView::LookUp(i + 1),
                },
                Ok(p) => if none_fits(p.files@, a.game_version@, a.loader@) {
                    after == RunView {
                        pack: b.with_conflict(
                            conflict(
                                slug,
                                "CF 上没有 "@ + a.game_version@ + " / "@ + a.loader@
                                    + " 的兼容文件"@,
                            ),
                        ),
                        stage: StageView::LookUp(i + 1),
                    }
                } else {
                    &&& after.pack == b
                    &&& after.stage matches StageView::Fetch(j, q, k)
                    &&& j == i
                    &&& q == p
                    &&& is_choice(p.files@, a.game_version@, a.loader@, k as int)
                },
            }
        },
        _ => true,
    }
}

/// The pack after a file of CurseForge was fetched, or was not.
pub open spec fn with_fetched(
    b: BuildView,
    slug: Seq<char>,
    file: CfFile,
    answer: Result<CfFileMeta, String>,
) -> BuildView {
    match answer {
        Ok(meta) => b.with_cf_file(slug, meta, file),
        Err(e) => b.with_conflict(conflict(slug, "CF 文件获取失败: "@ + e@)),
    }
}

/// The pack where a mod that a file of CurseForge requires was looked for at Modrinth: it is
/// collected too, or the user is to be told.
pub open spec fn with_dep(b: BuildView, dep: Seq<char>, found: bool) -> BuildView {
    if found {
        BuildView {
            final_slugs: b.final_slugs.push(dep),
            auto_added: b.auto_added.push(dep),
            ..b
        }
    } else {
        b.with_conflict(
            conflict(dep, "CF mod 声明的前置在 Modrinth 无同名项目, 请提醒用户手动确认"@),
        )
    }
}

/// Whether an entry of the report on a pack is about a mod.
pub open spec fn tells_of(entry: JsonView, slug: Seq<char>) -> bool {
    entry.str_at("slug"@) == Some(slug)
}

/// Whether the report on a pack tells of a mod: as one that is in it, or as a conflict.
pub open spec fn is_told(b: BuildView, slug: Seq<char>) -> bool {
    ||| exists|i: int| 0 <= i < b.summaries.len() && tells_of(#[trigger] b.summaries[i], slug)
    ||| exists|i: int| 0 <= i < b.conflicts.len() && tells_of(#[trigger] b.conflicts[i], slug)
}

/// Whether the report on a pack tells of the first `n` mods of a list.
pub open spec fn are_told(b: BuildView, slugs: Seq<Seq<char>>, n: nat) -> bool {
    forall|j: int| 0 <= j < n && j < slugs.len() ==> is_told(b, #[trigger] slugs[j])
}

/// How many mods of CurseForge have been dealt with.
pub open spec fn cf_done(a: BuildArgs, stage: StageView) -> nat {
    match stage {
        StageView::LookUp(i) => i,
        StageView::Fetch(i, _, _) => i,
        _ => a.cf_mods@.len(),
    }
}

/// How many of the mods to collect have been dealt with.
pub open spec fn collected_of(b: BuildView, stage: StageView) -> nat {
    match stage {
        StageView::Collect(i) => i,
        StageView::Asked(i) => i,
        StageView::Sides(i, _, _) => i,
        StageView::Loader => b.final_slugs.len(),
        _ => 0,
    }
}

/// Whether the mods to collect begin with those that the user chose.
pub open spec fn holds_chosen(a: BuildArgs, b: BuildView) -> bool {
    &&& a.mod_slugs@.len() <= b.final_slugs.len()
    &&& b.final_slugs.take(a.mod_slugs@.len() as int) == views(a.mod_slugs@)
}

/// What holds of the work between two steps: the mods that the user chose and those that were
/// added on their own are to be collected, and the report tells of every mod that was dealt with.
pub open spec fn is_sound(a: BuildArgs, run: RunView) -> bool {
    &&& run.pack.inv()
    &&& holds_chosen(a, run.pack)
    &&& forall|j: int|
        0 <= j < run.pack.auto_added.len() ==> run.pack.final_slugs.contains(
            #[trigger] run.pack.auto_added[j],
        )
    &&& are_told(run.pack, views(a.cf_mods@), cf_done(a, run.stage))
    &&& are_told(run.pack, run.pack.final_slugs, collected_of(run.pack, run.stage))
    &&& match run.stage {
        StageView::LookUp(i) => i <= a.cf_mods@.len(),
        StageView::Fetch(i, p, k) => i < a.cf_mods@.len() && k < p.files@.len(),
        StageView::Collect(i) => i <= run.pack.final_slugs.len(),
        StageView::Asked(i) => i < run.pack.final_slugs.len(),
        StageView::Sides(i, v, k) => i < run.pack.final_slugs.len() && v.len() > 0 && k
            < v[0].files@.len(),
        StageView::Loader => run.pack.files.len() > 0,
        _ => true,
    }
}

/// No mod is lost without a word: once a pack is ready, its report tells of each mod that the user
/// chose, be it from Modrinth or from CurseForge, of each mod that was added on its own, and of
/// all that was to be collected, as one that is in the pack or as a conflict.
pub proof fn lemma_no_mod_is_lost(a: BuildArgs, run: RunView)
    requires
        is_sound(a, run),
        run.stage is Loader,
    ensures
        run.pack.files.len() > 0,
        forall|j: int|
            0 <= j < a.mod_slugs@.len() ==> is_told(run.pack, #[trigger] views(a.mod_slugs@)[j]),
        forall|j: int|
            0 <= j < a.cf_mods@.len() ==> is_told(run.pack, #[trigger] views(a.cf_mods@)[j]),
        forall|j: int|
            0 <= j < run.pack.auto_added.len() ==> is_told(
                run.pack,
                #[trigger] run.pack.auto_added[j],
            ),
        forall|j: int|
            0 <= j < run.pack.final_slugs.len() ==> is_told(
                run.pack,
                #[trigger] run.pack.final_slugs[j],
            ),
{
    assert forall|j: int| 0 <= j < run.pack.auto_added.len() implies is_told(
        run.pack,
        #[trigger] run.pack.auto_added[j],
    ) by {
        let slug = run.pack.auto_added[j];
        assert(run.pack.final_slugs.contains(slug));
        let k = choose|k: int|
            0 <= k < run.pack.final_slugs.len() && run.pack.final_slugs[k] == slug;
        assert(is_told(run.pack, run.pack.final_slugs[k]));
    }
    assert(views(a.cf_mods@).len() == a.cf_mods@.len());
    let n = a.mod_slugs@.len() as int;
    assert forall|j: int| 0 <= j < n implies is_told(
        run.pack,
        #[trigger] views(a.mod_slugs@)[j],
    ) by {
        assert(run.pack.final_slugs.take(n)[j] == run.pack.final_slugs[j]);
    }
}

/// Each entry names its mod.
proof fn lemma_entries_tell(slug: Seq<char>)
    ensures
        forall|issue: Seq<char>| tells_of(#[trigger] conflict(slug, issue), slug),
        forall|filename: Seq<char>, size: u64|
            tells_of(#[trigger] cf_summary(slug, filename, size), slug),
        forall|version: Seq<char>, filename: Seq<char>, size: u64|
            tells_of(#[trigger] mod_summary(slug, version, filename, size), slug),
{
    reveal_with_fuel(crate::json::object_map, 5);
    reveal_strlit("slug");
    reveal_strlit("issue");
    reveal_strlit("version");
    reveal_strlit("filename");
    reveal_strlit("size_mb");
    reveal_strlit("source");
    assert("slug"@.len() == 4 && "issue"@.len() == 5 && "version"@.len() == 7
        && "filename"@.len() == 8 && "size_mb"@.len() == 7 && "source"@.len() == 6);
}

/// What the report tells, it goes on telling when it grows, and it tells of a mod once an entry
/// on it was added.
proof fn lemma_report_grows(b: BuildView, c: BuildView, slugs: Seq<Seq<char>>, n: nat)
    requires
        are_told(b, slugs, n),
        b.summaries.len() <= c.summaries.len(),
        c.summaries.take(b.summaries.len() as int) == b.summaries,
        b.conflicts.len() <= c.conflicts.len(),
        c.conflicts.take(b.conflicts.len() as int) == b.conflicts,
    ensures
        are_told(c, slugs, n),
        n < slugs.len() && c.summaries.len() > 0 && tells_of(c.summaries.last(), slugs[n as int])
            ==> are_told(c, slugs, n + 1),
        n < slugs.len() && c.conflicts.len() > 0 && tells_of(c.conflicts.last(), slugs[n as int])
            ==> are_told(c, slugs, n + 1),
{
    assert forall|j: int| 0 <= j < n && j < slugs.len() implies is_told(c, #[trigger] slugs[j]) by {
        assert(is_told(b, slugs[j]));
        if exists|i: int|
            0 <= i < b.summaries.len() && tells_of(#[trigger] b.summaries[i], slugs[j]) {
            let i = choose|i: int|
                0 <= i < b.summaries.len() && tells_of(#[trigger] b.summaries[i], slugs[j]);
            assert(c.summaries.take(b.summaries.len() as int)[i] == c.summaries[i]);
        } else {
            let i = choose|i: int|
                0 <= i < b.conflicts.len() && tells_of(#[trigger] b.conflicts[i], slugs[j]);
            assert(c.conflicts.take(b.conflicts.len() as int)[i] == c.conflicts[i]);
        }
    }
    if n < slugs.len() {
        if c.summaries.len() > 0 && tells_of(c.summaries.last(), slugs[n as int]) {
            assert(tells_of(c.summaries[c.summaries.len() - 1], slugs[n as int]));
            assert(is_told(c, slugs[n as int]));
        }
        if c.conflicts.len() > 0 && tells_of(c.conflicts.last(), slugs[n as int]) {
            assert(tells_of(c.conflicts[c.conflicts.len() - 1], slugs[n as int]));
            assert(is_told(c, slugs[n as int]));
        }
    }
}

/// An entry that is added keeps what is told of both lists.
proof fn lemma_entry_is_added(a: BuildArgs, run: RunView, c: BuildView)
    requires
        is_sound(a, run),
        c.final_slugs == run.pack.final_slugs,
        c.summaries == run.pack.summaries || (c.summaries.len() == run.pack.summaries.len() + 1
            && c.summaries.drop_last() == run.pack.summaries),
        c.conflicts == run.pack.conflicts || (c.conflicts.len() == run.pack.conflicts.len() + 1
            && c.conflicts.drop_last() == run.pack.conflicts),
    ensures
        ({
            let cf = views(a.cf_mods@);
            let n = cf_done(a, run.stage);
            let k = collected_of(run.pack, run.stage);
            &&& are_told(c, cf, n)
            &&& are_told(c, c.final_slugs, k)
            &&& n < cf.len() && c.summaries.len() > 0 && tells_of(c.summaries.last(), cf[n as int])
                ==> are_told(c, cf, n + 1)
            &&& n < cf.len() && c.conflicts.len() > 0 && tells_of(c.conflicts.last(), cf[n as int])
                ==> are_told(c, cf, n + 1)
            &&& k < c.final_slugs.len() && c.summaries.len() > 0 && tells_of(
                c.summaries.last(),
                c.final_slugs[k as int],
            ) ==> are_told(c, c.final_slugs, k + 1)
            &&& k < c.final_slugs.len() && c.conflicts.len() > 0 && tells_of(
                c.conflicts.last(),
                c.final_slugs[k as int],
            ) ==> are_told(c, c.final_slugs, k + 1)
        }),
{
    let b = run.pack;
    assert(c.summaries.take(b.summaries.len() as int) =~= b.summaries);
    assert(c.conflicts.take(b.conflicts.len() as int) =~= b.conflicts);
    lemma_report_grows(b, c, views(a.cf_mods@), cf_done(a, run.stage));
    lemma_report_grows(b, c, c.final_slugs, collected_of(b, run.stage));
}

/// Taking up mods keeps the work sound.
proof fn lemma_collect_is_sound(a: BuildArgs, b: BuildView, i: nat, interrupted: bool)
    requires
        is_sound(a, RunView { pack: b, stage: StageView::Collect(i) }),
    ensures
        is_sound(a, from_collect(a, b, i, interrupted).0),
    decreases b.final_slugs.len() - i,
{
    if i < b.final_slugs.len() && !interrupted && b.seen.contains(b.final_slugs[i as int]) {
        let slug = b.final_slugs[i as int];
        let after = b.with_conflict(conflict(slug, "重复添加"@));
        lemma_entries_tell(slug);
        assert(after.conflicts.drop_last() =~= b.conflicts);
        lemma_entry_is_added(a, RunView { pack: b, stage: StageView::Collect(i) }, after);
        lemma_collect_is_sound(a, after, i + 1, interrupted);
    } else if i < b.final_slugs.len() && !interrupted {
        lemma_entry_is_added(
            a,
            RunView { pack: b, stage: StageView::Collect(i) },
            BuildView { seen: b.seen.push(b.final_slugs[i as int]), ..b },
        );
    }
}

/// Each step keeps the work sound.
pub proof fn lemma_step_is_sound(a: BuildArgs, run: RunView, interrupted: bool, cf_enabled: bool)
    requires
        is_sound(a, run),
    ensures
        is_sound(a, next_step(a, run, interrupted, cf_enabled).0),
{
    let b = run.pack;
    match run.stage {
        StageView::LookUp(i) => {
            if i >= a.cf_mods@.len() {
                lemma_deps_are_sound(a, b, interrupted);
            }
        },
        StageView::Deps => {
            lemma_deps_are_sound(a, b, interrupted);
        },
        StageView::Collect(i) => {
            lemma_collect_is_sound(a, b, i, interrupted);
        },
        _ => {},
    }
}

proof fn lemma_deps_are_sound(a: BuildArgs, b: BuildView, interrupted: bool)
    requires
        is_sound(a, RunView { pack: b, stage: StageView::Deps }),
    ensures
        is_sound(a, from_deps(a, b, interrupted).0),
{
    lemma_next_dep(b, b.deps_done);
    let n = next_dep(b);
    lemma_entry_is_added(a, RunView { pack: b, stage: StageView::Deps }, n.1);
    if n.0 is None {
        lemma_collect_is_sound(a, n.1, 0, interrupted);
    }
}

proof fn lemma_next_dep(b: BuildView, k: nat)
    requires
        k <= b.cf_deps.len(),
    ensures
        k <= crate::tools::build_pack::first_new_dep(b, k) <= b.cf_deps.len(),
    decreases b.cf_deps.len() - k,
{
    if k < b.cf_deps.len() {
        lemma_next_dep(b, k + 1);
    }
}

fn collected(slug: &str, i: usize, total: usize) -> (r: ProgressUpdate)
    requires
        i < total,
    ensures
        r@ == (
            "正在收集 mod "@ + slug@ + " ("@ + dec((i + 1) as nat) + "/"@ + dec(total as nat) + ")"@,
            Some((i + 1) as u64),
            Some(total as u64),
        ),
{
    ProgressUpdate {
        text: collect_report(slug, i + 1, total),
        current: Some((i + 1) as u64),
        total: Some(total as u64),
    }
}

impl BuildRun {
    /// Whether the work is sound.
    pub open spec fn wf(self) -> bool {
        is_sound(self.pack.args, self@)
    }

    /// Begins to collect what a finished search for dependencies has found, where the search
    /// began with the mods that the user chose.
    pub fn new(pack: PackBuild, found: Closure) -> (r: BuildRun)
        requires
            pack@.inv(),
            found@.is_done(),
            found@.inv(views(pack.args.mod_slugs@)),
        ensures
            r.pack@ == pack@.with_closure(found@.all, found@.auto_added, found@.conflicts),
            r.pack.same_pack(pack),
            r.stage@ == StageView::LookUp(0),
            r.wf(),
    {
        let mut pack = pack;
        let ghost seeds = views(pack.args.mod_slugs@);
        pack.on_closure(found.all, found.auto_added, &found.conflicts);
        assert(pack@.final_slugs.take(seeds.len() as int) =~= seeds);
        assert forall|j: int| 0 <= j < pack@.auto_added.len() implies pack@.final_slugs.contains(
            #[trigger] pack@.auto_added[j],
        ) by {
            assert(pack@.final_slugs[seeds.len() + j] == pack@.auto_added[j]);
        }
        BuildRun { pack, stage: Stage::LookUp(0) }
    }

    fn take_up(&mut self, interrupted: bool, out: &mut Vec<ProgressUpdate>) -> (r: Result<
        BuildStep,
        String,
    >)
        requires
            old(self).wf(),
            old(self).stage is Collect,
            old(out)@.len() == 0,
        ensures
            final(self).pack.same_pack(old(self).pack),
            (final(self)@, step_view(r), update_views(final(out)@)) == from_collect(
                old(self).pack.args,
                old(self)@.pack,
                old(self).stage@->Collect_0,
                interrupted,
            ),
    {
        let ghost a = self.pack.args;
        let ghost start = from_collect(a, self@.pack, self.stage@->Collect_0, interrupted);
        let mut i: usize = match &self.stage {
            Stage::Collect(i) => *i,
            _ => 0,
        };
        let n: usize = self.pack.final_slugs.len();
        assert(self.pack@.final_slugs.len() == n);
        proof {
            assert(update_views(out@) =~= Seq::<UpdateView>::empty());
            let rest = from_collect(a, self@.pack, i as nat, interrupted);
            assert(update_views(out@) + rest.2 =~= start.2);
        }
        while i < n && !interrupted
            invariant
                i <= n,
                n == self.pack@.final_slugs.len(),
                n == self.pack.final_slugs@.len(),
                self.pack.same_pack(old(self).pack),
                a == self.pack.args,
                start == from_collect(
                    a,
                    old(self)@.pack,
                    old(self).stage@->Collect_0,
                    interrupted,
                ),
                ({
                    let rest = from_collect(a, self@.pack, i as nat, interrupted);
                    start == (rest.0, rest.1, update_views(out@) + rest.2)
                }),
            decreases n - i,
        {
            let slug = self.pack.final_slugs[i].clone();
            let ghost before = self.pack@;
            let ghost sent = update_views(out@);
            assert(before.final_slugs[i as int] == slug@);
            let u = collected(slug.as_str(), i, n);
            let ghost uv = u@;
            out.push(u);
            assert(update_views(out@) =~= sent.push(uv));
            assert(uv == collect_update(before.final_slugs, i as nat));
            let ghost rest = from_collect(a, before, i as nat, interrupted);
            if self.pack.claim(slug.as_str()) {
                self.stage = Stage::Asked(i);
                assert(sent + rest.2 =~= update_views(out@));
                return Ok(BuildStep::Versions { slug });
            }
            assert(sent + rest.2 =~= update_views(out@) + from_collect(
                a,
                self.pack@,
                (i + 1) as nat,
                interrupted,
            ).2);
            i += 1;
        }
        self.stage = Stage::Collect(i);
        if i < n {
            assert(update_views(out@) + Seq::<UpdateView>::empty() =~= update_views(out@));
            return Err(TOOL_INTERRUPTED.to_string());
        }
        assert(update_views(out@) + Seq::<UpdateView>::empty() =~= update_views(out@));
        match self.pack.check_files() {
            Err(e) => Err(e),
            Ok(_) => {
                let ghost sent = update_views(out@);
                let u = ProgressUpdate {
                    text: loader_report(self.pack.args.loader.as_str()),
                    current: None,
                    total: None,
                };
                let ghost uv = u@;
                out.push(u);
                assert(update_views(out@) =~= sent + seq![uv]);
                self.stage = Stage::Loader;
                Ok(BuildStep::LoaderVersion)
            },
        }
    }

    fn go_through_deps(&mut self, interrupted: bool, out: &mut Vec<ProgressUpdate>) -> (r: Result<
        BuildStep,
        String,
    >)
        requires
            is_sound(old(self).pack.args, RunView { pack: old(self)@.pack, stage: StageView::Deps }),
            old(out)@.len() == 0,
        ensures
            final(self).pack.same_pack(old(self).pack),
            (final(self)@, step_view(r), update_views(final(out)@)) == from_deps(
                old(self).pack.args,
                old(self)@.pack,
                interrupted,
            ),
    {
        proof {
            lemma_next_dep(self.pack@, self.pack@.deps_done);
            lemma_entry_is_added(
                self.pack.args,
                RunView { pack: self.pack@, stage: StageView::Deps },
                next_dep(self.pack@).1,
            );
        }
        match self.pack.next_cf_dep() {
            Some(dep) => {
                self.stage = Stage::Dep(dep.clone());
                assert(update_views(out@) =~= Seq::<UpdateView>::empty());
                Ok(BuildStep::FindMod { slug: dep })
            },
            None => {
                self.stage = Stage::Collect(0);
                self.take_up(interrupted, out)
            },
        }
    }

    /// What to do next, or why to stop, with what to report before.
    pub fn step(&mut self, interrupted: bool, cf_enabled: bool) -> (r: (
        Vec<ProgressUpdate>,
        Result<BuildStep, String>,
    ))
        requires
            old(self).wf(),
        ensures
            final(self).wf(),
            final(self).pack.same_pack(old(self).pack),
            (final(self)@, step_view(r.1), update_views(r.0@)) == next_step(
                old(self).pack.args,
                old(self)@,
                interrupted,
                cf_enabled,
            ),
    {
        proof {
            lemma_step_is_sound(self.pack.args, self@, interrupted, cf_enabled);
        }
        let mut out: Vec<ProgressUpdate> = Vec::new();
        assert(update_views(out@) =~= Seq::<UpdateView>::empty());
        match &self.stage {
            Stage::LookUp(k) => {
                let i: usize = *k;
                if i >= self.pack.args.cf_mods.len() {
                    let r = self.go_through_deps(interrupted, &mut out);
                    return (out, r);
                }
                match self.pack.cf_gate(cf_enabled) {
                    Err(e) => {
                        return (out, Err(e));
                    },
                    Ok(_) => {},
                }
                if interrupted {
                    return (out, Err(TOOL_INTERRUPTED.to_string()));
                }
                let n: usize = self.pack.args.cf_mods.len();
                let slug = self.pack.args.cf_mods[i].clone();
                assert(views(self.pack.args.cf_mods@)[i as int] == slug@);
                let u = ProgressUpdate {
                    text: cf_report(slug.as_str(), i + 1, n),
                    current: Some((i + 1) as u64),
                    total: Some(n as u64),
                };
                let ghost uv = u@;
                out.push(u);
                assert(update_views(out@) =~= seq![uv]);
                (out, Ok(BuildStep::LookUp { slug }))
            },
            Stage::Fetch(_, _, _) => (out, Ok(BuildStep::Fetch)),
            Stage::Deps => {
                let r = self.go_through_deps(interrupted, &mut out);
                (out, r)
            },
            Stage::Dep(dep) => (out, Ok(BuildStep::FindMod { slug: dep.clone() })),
            Stage::Collect(_) => {
                let r = self.take_up(interrupted, &mut out);
                (out, r)
            },
            Stage::Asked(i) => {
                let slug = self.pack.final_slugs[*i].clone();
                assert(self.pack@.final_slugs[*i as int] == slug@);
                (out, Ok(BuildStep::Versions { slug }))
            },
            Stage::Sides(i, _, _) => {
                let slug = self.pack.final_slugs[*i].clone();
                assert(self.pack@.final_slugs[*i as int] == slug@);
                (out, Ok(BuildStep::Sides { slug }))
            },
            Stage::Loader => (out, Ok(BuildStep::LoaderVersion)),
        }
    }

    /// The file to fetch.
    pub fn to_fetch(&self) -> (r: Option<(&CfProject, &CfFile)>)
        requires
            self.wf(),
        ensures
            match (r, self.stage@) {
                (Some((p, f)), StageView::Fetch(_, project, k)) => *p == project && *f
                    == project.files@[k as int],
                (None, StageView::Fetch(_, _, _)) => false,
                (r, _) => r is None,
            },
    {
        match &self.stage {
            Stage::Fetch(_, project, k) => Some((project, &project.files[*k])),
            _ => None,
        }
    }

    /// Takes in what CurseForge says of a mod: the file to fetch is chosen, or it is recorded
    /// that there is none.
    pub fn on_lookup(&mut self, answer: Result<CfProject, String>)
        requires
            old(self).wf(),
            old(self).stage is LookUp,
            old(self).stage->LookUp_0 < old(self).pack.args.cf_mods@.len(),
        ensures
            final(self).wf(),
            final(self).pack.same_pack(old(self).pack),
            after_lookup(old(self).pack.args, old(self)@, answer, final(self)@),
    {
        let i: usize = match &self.stage {
            Stage::LookUp(i) => *i,
            _ => 0,
        };
        let slug = self.pack.args.cf_mods[i].clone();
        assert(i < self.pack.args.cf_mods.len());
        assert(views(self.pack.args.cf_mods@)[i as int] == slug@);
        let ghost run = self@;
        proof {
            lemma_entries_tell(slug@);
        }
        match answer {
            Err(e) => {
                self.pack.cf_lookup_failed(slug.as_str(), e.as_str());
                proof {
                    assert(self.pack@.conflicts.drop_last() =~= run.pack.conflicts);
                    lemma_entry_is_added(self.pack.args, run, self.pack@);
                }
                self.stage = Stage::LookUp(i + 1);
            },
            Ok(project) => {
                let found = find_file(
                    project.files.as_slice(),
                    self.pack.args.game_version.as_str(),
                    self.pack.args.loader.as_str(),
                );
                match found {
                    Some(k) => {
                        self.stage = Stage::Fetch(i, project, k);
                    },
                    None => {
                        self.pack.cf_no_file(slug.as_str());
                        proof {
                            assert(self.pack@.conflicts.drop_last() =~= run.pack.conflicts);
                            lemma_entry_is_added(self.pack.args, run, self.pack@);
                        }
                        self.stage = Stage::LookUp(i + 1);
                    },
                }
            },
        }
    }

    /// Takes in a file that was fetched from CurseForge, or why it was not.
    pub fn on_fetch(&mut self, answer: &Result<CfFileMeta, String>)
        requires
            old(self).wf(),
            old(self).stage is Fetch,
            answer matches Ok(meta) ==> old(self).pack.total_size + meta.size <= u64::MAX,
        ensures
            final(self).wf(),
            final(self).pack.same_pack(old(self).pack),
            match old(self).stage@ {
                StageView::Fetch(i, project, k) => final(self)@ == (RunView {
                    pack: with_fetched(
                        old(self)@.pack,
                        views(old(self).pack.args.cf_mods@)[i as int],
                        project.files@[k as int],
                        *answer,
                    ),
                    stage: StageView::LookUp(i + 1),
                }),
                _ => true,
            },
    {
        let ghost run = self@;
        let mut i: usize = 0;
        match &self.stage {
            Stage::Fetch(at, project, k) => {
                i = *at;
                let slug = self.pack.args.cf_mods[i].clone();
                assert(i < self.pack.args.cf_mods.len());
                assert(views(self.pack.args.cf_mods@)[i as int] == slug@);
                match answer {
                    Ok(meta) => {
                        self.pack.cf_add(slug.as_str(), meta, &project.files[*k]);
                    },
                    Err(e) => {
                        self.pack.cf_fetch_failed(slug.as_str(), e.as_str());
                    },
                }
                proof {
                    lemma_entries_tell(slug@);
                    if answer is Ok {
                        assert(self.pack@.summaries.drop_last() =~= run.pack.summaries);
                    } else {
                        assert(self.pack@.conflicts.drop_last() =~= run.pack.conflicts);
                    }
                    lemma_entry_is_added(self.pack.args, run, self.pack@);
                }
            },
            _ => {},
        }
        self.stage = Stage::LookUp(i + 1);
    }

    /// Takes in whether Modrinth has a mod that a file of CurseForge requires.
    pub fn on_mod(&mut self, found: bool)
        requires
            old(self).wf(),
            old(self).stage is Dep,
        ensures
            final(self).wf(),
            final(self).pack.same_pack(old(self).pack),
            final(self)@ == (RunView {
                pack: with_dep(old(self)@.pack, old(self).stage@->Dep_0, found),
                stage: StageView::Deps,
            }),
    {
        let ghost b = self.pack@;
        match &self.stage {
            Stage::Dep(dep) => {
                let dep = dep.clone();
                self.pack.on_cf_dep(dep.as_str(), found);
                proof {
                    let c = self.pack@;
                    assert(c.summaries.take(b.summaries.len() as int) =~= b.summaries);
                    assert(c.conflicts.take(b.conflicts.len() as int) =~= b.conflicts);
                    let n = self.pack.args.mod_slugs@.len() as int;
                    assert(c.final_slugs.take(n) =~= b.final_slugs.take(n));
                    assert forall|j: int|
                        0 <= j < c.auto_added.len() implies c.final_slugs.contains(
                        #[trigger] c.auto_added[j],
                    ) by {
                        if j < b.auto_added.len() {
                            assert(b.final_slugs.contains(b.auto_added[j]));
                            let k = choose|k: int|
                                0 <= k < b.final_slugs.len() && b.final_slugs[k]
                                    == b.auto_added[j];
                            assert(c.final_slugs[k] == c.auto_added[j]);
                        } else {
                            assert(c.final_slugs[b.final_slugs.len() as int] == c.auto_added[j]);
                        }
                    }
                    let cf = self.pack.args.cf_mods@;
                    lemma_report_grows(b, c, views(cf), cf.len());
                }
            },
            _ => {},
        }
        self.stage = Stage::Deps;
    }

    /// Takes in the releases of a mod: its file is chosen, or it is recorded that there is none.
    pub fn on_versions(&mut self, answer: Result<Vec<ModVersion>, String>)
        requires
            old(self).wf(),
            old(self).stage is Asked,
        ensures
            final(self).wf(),
            final(self).pack.same_pack(old(self).pack),
            final(self)@ == ({
                let b = old(self)@.pack;
                let i = old(self).stage@->Asked_0;
                match (choose_file(old(self).pack.args, answer), answer) {
                    (Ok(k), Ok(v)) => RunView {
                        pack: b,
                        stage: StageView::Sides(i, v@, k as nat),
                    },
                    (Err(issue), _) => RunView {
                        pack: b.with_conflict(conflict(b.final_slugs[i as int], issue)),
                        stage: StageView::Collect(i + 1),
                    },
                    _ => RunView { pack: b, stage: StageView::Collect(i + 1) },
                }
            }),
    {
        let i: usize = match &self.stage {
            Stage::Asked(i) => *i,
            _ => 0,
        };
        let slug = self.pack.final_slugs[i].clone();
        assert(i < self.pack.final_slugs.len());
        assert(self.pack@.final_slugs[i as int] == slug@);
        let ghost run = self@;
        match self.pack.select(slug.as_str(), &answer) {
            Some(k) => {
                match answer {
                    Ok(v) => {
                        self.stage = Stage::Sides(i, v, k);
                    },
                    Err(_) => {},
                }
            },
            None => {
                proof {
                    lemma_entries_tell(slug@);
                    assert(self.pack@.conflicts.drop_last() =~= run.pack.conflicts);
                    lemma_entry_is_added(self.pack.args, run, self.pack@);
                }
                self.stage = Stage::Collect(i + 1);
            },
        }
    }

    /// The size of the file that is about to be added.
    pub fn next_size(&self) -> (r: u64)
        requires
            self.wf(),
        ensures
            r == (match self.stage@ {
                StageView::Sides(_, v, k) => v[0].files@[k as int].size,
                _ => 0,
            }),
    {
        match &self.stage {
            Stage::Sides(_, v, k) => v[0].files[*k].size,
            _ => 0,
        }
    }

    /// Takes in on which sides a mod runs, as far as that is known; the mod is added.
    pub fn on_sides(&mut self, env: Option<(String, String)>)
        requires
            old(self).wf(),
            old(self).stage is Sides,
            match old(self).stage@ {
                StageView::Sides(_, v, k) => old(self).pack.total_size + v[0].files@[k as int].size
                    <= u64::MAX,
                _ => true,
            },
        ensures
            final(self).wf(),
            final(self).pack.same_pack(old(self).pack),
            match old(self).stage@ {
                StageView::Sides(i, v, k) => final(self)@ == (RunView {
                    pack: old(self)@.pack.with_mod(
                        old(self)@.pack.final_slugs[i as int],
                        v[0],
                        k as int,
                        env,
                    ),
                    stage: StageView::Collect(i + 1),
                }),
                _ => true,
            },
    {
        let ghost run = self@;
        let mut i: usize = 0;
        match &self.stage {
            Stage::Sides(at, v, k) => {
                i = *at;
                let slug = self.pack.final_slugs[i].clone();
                assert(i < self.pack.final_slugs.len());
                assert(self.pack@.final_slugs[i as int] == slug@);
                self.pack.add(slug.as_str(), &v[0], *k, env);
                proof {
                    lemma_entries_tell(slug@);
                    assert(self.pack@.summaries.drop_last() =~= run.pack.summaries);
                    lemma_entry_is_added(self.pack.args, run, self.pack@);
                }
            },
            _ => {},
        }
        self.stage = Stage::Collect(i + 1);
    }
}

} // verus!

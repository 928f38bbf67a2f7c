//! The mods that a set of mods needs: dependencies are followed from release to release.
//!
//! The catalogue is asked from outside. [`Closure::step`] says what to ask next; the answers are
//! handed in with [`Closure::on_versions`] and [`Closure::on_project`].

use vstd::prelude::*;
use vstd::string::StringExecFns;

use crate::modrinth::{Dependency, ModVersion, Project};
#[allow(unused_imports)]
use crate::json::opt_view;
#[allow(unused_imports)]
use crate::number::dec;
use crate::number::usize_to_string;
use crate::text::{clone_list, list_contains, str_eq};
#[allow(unused_imports)]
use crate::text::{lemma_views_push, views};

verus! {

/// The search for dependencies, between two questions to the catalogue.
pub struct Closure {
    pub game_version: String,
    pub loader: String,
    /// The mods to begin with, then those that were added.
    pub all: Vec<String>,
    pub auto_added: Vec<String>,
    /// What went wrong, one line each.
    pub conflicts: Vec<String>,
    /// The ids of required mods, in the order in which they were met.
    pub ids: Vec<String>,
    /// How many of `ids` have been looked up.
    pub ids_done: usize,
    /// The mods whose dependencies are read in this round.
    pub frontier: Vec<String>,
    /// How many of `frontier` have been read.
    pub slugs_done: usize,
    /// The mods that this round has added.
    pub added: Vec<String>,
    pub pass: usize,
}

/// The mathematical value of a [`Closure`].
#[verifier::ext_equal]
pub struct ClosureView {
    pub game_version: Seq<char>,
    pub loader: Seq<char>,
    pub all: Seq<Seq<char>>,
    pub auto_added: Seq<Seq<char>>,
    pub conflicts: Seq<Seq<char>>,
    pub ids: Seq<Seq<char>>,
    pub ids_done: nat,
    pub frontier: Seq<Seq<char>>,
    pub slugs_done: nat,
    pub added: Seq<Seq<char>>,
    pub pass: nat,
}

impl View for Closure {
    type V = ClosureView;

    open spec fn view(&self) -> ClosureView {
        ClosureView {
            game_version: self.game_version@,
            loader: self.loader@,
            all: views(self.all@),
            auto_added: views(self.auto_added@),
            conflicts: views(self.conflicts@),
            ids: views(self.ids@),
            ids_done: self.ids_done as nat,
            frontier: views(self.frontier@),
            slugs_done: self.slugs_done as nat,
            added: views(self.added@),
            pass: self.pass as nat,
        }
    }
}

/// What the catalogue is to be asked next.
pub enum ClosureStep {
    /// The releases of a mod.
    Versions { slug: String },
    /// The mod with an id.
    Project { id: String },
    Done,
}

/// The mathematical value of a [`ClosureStep`].
pub enum StepView {
    Versions { slug: Seq<char> },
    Project { id: Seq<char> },
    Done,
}

impl View for ClosureStep {
    type V = StepView;

    open spec fn view(&self) -> StepView {
        match *self {
            ClosureStep::Versions { slug } => StepView::Versions { slug: slug@ },
            ClosureStep::Project { id } => StepView::Project { id: id@ },
            ClosureStep::Done => StepView::Done,
        }
    }
}

/// A declared dependency: its kind, and the id of the mod.
pub type Dep = (Seq<char>, Option<Seq<char>>);

/// The dependencies that a release declares.
pub open spec fn deps_of(s: Seq<Dependency>) -> Seq<Dep> {
    s.map_values(|d: Dependency| (d.dependency_type@, opt_view(d.project_id)))
}

/// The ids met so far, with those that `deps` require and that were not met before.
pub open spec fn with_required(ids: Seq<Seq<char>>, deps: Seq<Dep>) -> Seq<Seq<char>>
    decreases deps.len(),
{
    if deps.len() == 0 {
        ids
    } else {
        let before = with_required(ids, deps.drop_last());
        match deps.last().1 {
            Some(id) => if deps.last().0 == "required"@ && !before.contains(id) {
                before.push(id)
            } else {
                before
            },
            None => before,
        }
    }
}

/// What the catalogue said of the releases of a mod: those for the wanted game version and
/// loader, newest first, or the text of an error. Of a release its dependencies count.
pub type VersionsAnswer = Result<Seq<Seq<Dep>>, Seq<char>>;

/// The value of an answer on releases.
pub open spec fn versions_answer(r: Result<Vec<ModVersion>, String>) -> VersionsAnswer {
    match r {
        Ok(v) => Ok(v@.map_values(|m: ModVersion| deps_of(m.dependencies@))),
        Err(e) => Err(e@),
    }
}

/// The value of an answer on an id: the slug of the mod, if it was found.
pub open spec fn project_answer(r: Result<Project, String>) -> Option<Seq<char>> {
    match r {
        Ok(p) => Some(p.slug@),
        Err(_) => None,
    }
}

impl ClosureView {
    /// The search for the dependencies of `seeds`.
    pub open spec fn start(
        game_version: Seq<char>,
        loader: Seq<char>,
        seeds: Seq<Seq<char>>,
    ) -> ClosureView {
        ClosureView {
            game_version,
            loader,
            all: seeds,
            auto_added: Seq::empty(),
            conflicts: Seq::empty(),
            ids: Seq::empty(),
            ids_done: 0,
            frontier: seeds,
            slugs_done: 0,
            added: Seq::empty(),
            pass: 0,
        }
    }

    /// Whether nothing is left to ask: there is no mod left to read.
    pub open spec fn is_done(self) -> bool {
        self.frontier.len() == 0
    }

    /// What to ask next: first the releases of each mod of the round, then the mods with the
    /// new ids.
    pub open spec fn step(self) -> StepView {
        if self.is_done() {
            StepView::Done
        } else if self.slugs_done < self.frontier.len() {
            StepView::Versions { slug: self.frontier[self.slugs_done as int] }
        } else {
            StepView::Project { id: self.ids[self.ids_done as int] }
        }
    }

    /// The next round begins once every question of this one has been answered.
    pub open spec fn next_round(self) -> ClosureView {
        if self.slugs_done == self.frontier.len() && self.ids_done == self.ids.len() {
            ClosureView {
                frontier: self.added,
                slugs_done: 0,
                added: Seq::empty(),
                pass: self.pass + 1,
                ..self
            }
        } else {
            self
        }
    }

    /// The effect of an answer on releases: the first of them counts.
    pub open spec fn after_versions(self, a: VersionsAnswer) -> ClosureView {
        let slug = self.frontier[self.slugs_done as int];
        let read = match a {
            Err(e) => ClosureView {
                conflicts: self.conflicts.push(slug + ": 获取版本失败 ("@ + e + ")"@),
                ..self
            },
            Ok(v) => if v.len() == 0 {
                ClosureView {
                    conflicts: self.conflicts.push(
                        slug + ": 没有 "@ + self.game_version + "/"@ + self.loader + " 兼容版本"@,
                    ),
                    ..self
                }
            } else {
                ClosureView { ids: with_required(self.ids, v[0]), ..self }
            },
        };
        ClosureView { slugs_done: self.slugs_done + 1, ..read }.next_round()
    }

    /// The effect of an answer on an id: the mod is added unless it is there already.
    pub open spec fn after_project(self, a: Option<Seq<char>>) -> ClosureView {
        let read = match a {
            None => ClosureView {
                conflicts: self.conflicts.push(
                    "依赖 "@ + self.ids[self.ids_done as int] + ": 无法解析"@,
                ),
                ..self
            },
            Some(slug) => if self.all.contains(slug) {
                self
            } else {
                ClosureView {
                    all: self.all.push(slug),
                    auto_added: self.auto_added.push(slug),
                    added: self.added.push(slug),
                    ..self
                }
            },
        };
        ClosureView { ids_done: self.ids_done + 1, ..read }.next_round()
    }

    /// What holds between two questions, where the search began with `seeds`.
    pub open spec fn inv(self, seeds: Seq<Seq<char>>) -> bool {
        &&& self.all == seeds + self.auto_added
        &&& self.auto_added.no_duplicates()
        &&& forall|x: Seq<char>| #[trigger] self.auto_added.contains(x) ==> !seeds.contains(x)
        &&& self.ids.no_duplicates()
        &&& self.wf()
    }

    /// How many mods are in no round that is over.
    pub open spec fn open_mods(self) -> nat {
        self.frontier.len() + self.added.len()
    }

    /// Whether the counts are in range, the mods of this round and those that it has added are
    /// the last ones, and a question is left unless the search is done.
    pub open spec fn wf(self) -> bool {
        &&& self.slugs_done <= self.frontier.len()
        &&& self.ids_done <= self.ids.len()
        &&& self.auto_added.len() <= self.all.len()
        &&& self.open_mods() <= self.all.len()
        &&& self.all.skip(self.all.len() - self.open_mods()) == self.frontier + self.added
        &&& self.pass <= self.all.len()
        &&& if self.is_done() {
            self.ids_done == self.ids.len() && self.added.len() == 0
        } else {
            &&& self.slugs_done < self.frontier.len() || self.ids_done < self.ids.len()
            &&& self.pass + self.added.len() < self.all.len()
        }
    }
}

impl Closure {
    /// Begins with the given mods.
    pub fn new(game_version: &str, loader: &str, seeds: &Vec<String>) -> (r: Closure)
        ensures
            r@ == ClosureView::start(game_version@, loader@, views(seeds@)),
            r@.inv(views(seeds@)),
    {
        let r = Closure {
            game_version: game_version.to_string(),
            loader: loader.to_string(),
            all: clone_list(seeds),
            auto_added: Vec::new(),
            conflicts: Vec::new(),
            ids: Vec::new(),
            ids_done: 0,
            frontier: clone_list(seeds),
            slugs_done: 0,
            added: Vec::new(),
            pass: 0,
        };
        assert(r@ =~= ClosureView::start(game_version@, loader@, views(seeds@)));
        assert(r@.all =~= views(seeds@) + r@.auto_added);
        assert(r@.all.skip(0) =~= r@.frontier + r@.added);
        r
    }

    /// What to ask next.
    pub fn step(&self) -> (r: ClosureStep)
        requires
            self@.wf(),
        ensures
            r@ == self@.step(),
    {
        if self.frontier.len() == 0 {
            ClosureStep::Done
        } else if self.slugs_done < self.frontier.len() {
            assert(self@.frontier[self.slugs_done as int]
                == self.frontier@[self.slugs_done as int]@);
            ClosureStep::Versions { slug: self.frontier[self.slugs_done].clone() }
        } else {
            assert(self@.ids[self.ids_done as int] == self.ids@[self.ids_done as int]@);
            ClosureStep::Project { id: self.ids[self.ids_done].clone() }
        }
    }

    /// What is reported at the beginning of a round.
    pub fn report(&self) -> (r: Option<String>)
        requires
            self@.wf(),
        ensures
            opt_view(r) == (if !self@.is_done() && self@.slugs_done == 0 {
                Some(
                    "依赖闭包第 "@ + dec(self@.pass + 1) + " 轮: 检查 "@ + dec(
                        self@.frontier.len(),
                    ) + " 个 mod 的依赖"@,
                )
            } else {
                None
            }),
    {
        if self.frontier.len() == 0 || self.slugs_done != 0 {
            return None;
        }
        assert(self@.all.len() == self.all.len());
        let round = usize_to_string(self.pass + 1);
        let count = usize_to_string(self.frontier.len());
        Some(
            "依赖闭包第 ".to_string().concat(round.as_str()).concat(" 轮: 检查 ").concat(
                count.as_str(),
            ).concat(" 个 mod 的依赖"),
        )
    }

    fn add_required(&mut self, deps: &Vec<Dependency>)
        ensures
            final(self)@ == (ClosureView {
                ids: with_required(old(self)@.ids, deps_of(deps@)),
                ..old(self)@
            }),
    {
        let ghost start = self@;
        let ghost all = deps_of(deps@);
        assert(all.take(0) =~= Seq::<Dep>::empty());
        assert(self@ =~= ClosureView { ids: with_required(start.ids, all.take(0)), ..start });
        for i in 0..deps.len()
            invariant
                all == deps_of(deps@),
                self@ == (ClosureView {
                    ids: with_required(start.ids, all.take(i as int)),
                    ..start
                }),
        {
            assert(all.take(i + 1).drop_last() =~= all.take(i as int));
            assert(all.take(i + 1).last() == all[i as int]);
            match &deps[i].project_id {
                Some(id) => if str_eq(deps[i].dependency_type.as_str(), "required")
                    && !list_contains(&self.ids, id.as_str()) {
                    let id = id.clone();
                    proof {
                        lemma_views_push(self.ids@, id);
                    }
                    self.ids.push(id);
                },
                None => {},
            }
            assert(self@ =~= ClosureView {
                ids: with_required(start.ids, all.take(i + 1)),
                ..start
            });
        }
        assert(all.take(deps@.len() as int) =~= all);
    }

    fn next_round(&mut self)
        requires
            old(self)@.pass < old(self)@.all.len(),
        ensures
            final(self)@ == old(self)@.next_round(),
    {
        let ghost start = self@;
        if self.slugs_done == self.frontier.len() && self.ids_done == self.ids.len() {
            let mut next: Vec<String> = Vec::new();
            next.append(&mut self.added);
            self.frontier = next;
            self.slugs_done = 0;
            assert(self@.all.len() == self.all.len());
            self.pass = self.pass + 1;
            assert(self@ =~= start.next_round());
        }
    }

    /// Takes in what the catalogue said of the releases of the mod that was asked for.
    pub fn on_versions(&mut self, answer: Result<Vec<ModVersion>, String>)
        requires
            old(self)@.wf(),
            old(self)@.step() is Versions,
        ensures
            final(self)@ == old(self)@.after_versions(versions_answer(answer)),
            final(self)@.wf(),
            forall|seeds: Seq<Seq<char>>| #[trigger]
                old(self)@.inv(seeds) ==> final(self)@.inv(seeds),
    {
        let ghost start = self@;
        let ghost a = versions_answer(answer);
        let slug = self.frontier[self.slugs_done].clone();
        assert(start.frontier[start.slugs_done as int] == slug@);
        match &answer {
            Err(e) => {
                let line = slug.concat(": 获取版本失败 (").concat(e.as_str()).concat(")");
                proof {
                    lemma_views_push(self.conflicts@, line);
                }
                self.conflicts.push(line);
            },
            Ok(v) => if v.len() == 0 {
                let line = slug.concat(": 没有 ").concat(self.game_version.as_str()).concat(
                    "/",
                ).concat(self.loader.as_str()).concat(" 兼容版本");
                proof {
                    lemma_views_push(self.conflicts@, line);
                }
                self.conflicts.push(line);
            } else {
                assert(a->Ok_0[0] == deps_of(v@[0].dependencies@));
                self.add_required(&v[0].dependencies);
            },
        }
        assert(self.slugs_done < self.frontier.len());
        self.slugs_done = self.slugs_done + 1;
        self.next_round();
        proof {
            assert(self@ =~= start.after_versions(a));
            lemma_versions_keep(start, a);
        }
    }

    /// Takes in what the catalogue said of the id that was asked for.
    pub fn on_project(&mut self, answer: Result<Project, String>)
        requires
            old(self)@.wf(),
            old(self)@.step() is Project,
        ensures
            final(self)@ == old(self)@.after_project(project_answer(answer)),
            final(self)@.wf(),
            forall|seeds: Seq<Seq<char>>| #[trigger]
                old(self)@.inv(seeds) ==> final(self)@.inv(seeds),
    {
        let ghost start = self@;
        let ghost a = project_answer(answer);
        assert(self.ids_done < self.ids.len());
        assert(start.ids[start.ids_done as int] == self.ids@[self.ids_done as int]@);
        match &answer {
            Err(_) => {
                let line = "依赖 ".to_string().concat(self.ids[self.ids_done].as_str()).concat(
                    ": 无法解析",
                );
                proof {
                    lemma_views_push(self.conflicts@, line);
                }
                self.conflicts.push(line);
            },
            Ok(p) => if !list_contains(&self.all, p.slug.as_str()) {
                proof {
                    lemma_views_push(self.all@, p.slug);
                    lemma_views_push(self.auto_added@, p.slug);
                    lemma_views_push(self.added@, p.slug);
                }
                self.all.push(p.slug.clone());
                self.auto_added.push(p.slug.clone());
                self.added.push(p.slug.clone());
                assert(views(self.all@) =~= start.all.push(p.slug@));
                assert(views(self.auto_added@) =~= start.auto_added.push(p.slug@));
                assert(views(self.added@) =~= start.added.push(p.slug@));
            },
        }
        self.ids_done = self.ids_done + 1;
        self.next_round();
        proof {
            assert(self@ =~= start.after_project(a));
            lemma_project_keeps(start, a);
        }
    }
}

// ---------------------------------------------------------------------------
// Laws of the search
// ---------------------------------------------------------------------------

/// Whether dependencies require the mod with an id.
pub open spec fn lists_required(deps: Seq<Dep>, id: Seq<char>) -> bool {
    exists|i: int|
        0 <= i < deps.len() && (#[trigger] deps[i]).0 == "required"@ && deps[i].1 == Some(id)
}

proof fn lemma_with_required(ids: Seq<Seq<char>>, deps: Seq<Dep>)
    ensures
        ids.no_duplicates() ==> with_required(ids, deps).no_duplicates(),
        with_required(ids, deps).len() >= ids.len(),
        with_required(ids, deps).take(ids.len() as int) == ids,
        forall|i: int|
            0 <= i < deps.len() && (#[trigger] deps[i]).0 == "required"@ && deps[i].1 is Some
                ==> with_required(ids, deps).contains(deps[i].1->0),
        forall|k: int|
            ids.len() <= k < with_required(ids, deps).len() ==> lists_required(
                deps,
                #[trigger] with_required(ids, deps)[k],
            ),
    decreases deps.len(),
{
    if deps.len() == 0 {
        assert(ids.take(ids.len() as int) =~= ids);
    } else {
        let d = deps.drop_last();
        lemma_with_required(ids, d);
        let before = with_required(ids, d);
        let after = with_required(ids, deps);
        assert(after.take(ids.len() as int) =~= before.take(ids.len() as int));
        assert forall|i: int|
            0 <= i < deps.len() && (#[trigger] deps[i]).0 == "required"@ && deps[i].1 is Some
            implies after.contains(deps[i].1->0) by {
            if i < d.len() {
                assert(d[i] == deps[i]);
                let k = choose|k: int| 0 <= k < before.len() && before[k] == deps[i].1->0;
                assert(after[k] == deps[i].1->0);
            } else if !before.contains(deps[i].1->0) {
                assert(after[before.len() as int] == deps[i].1->0);
            }
        }
        assert forall|k: int| ids.len() <= k < after.len() implies lists_required(
            deps,
            #[trigger] after[k],
        ) by {
            if k < before.len() {
                assert(lists_required(d, before[k]));
                let i = choose|i: int|
                    0 <= i < d.len() && (#[trigger] d[i]).0 == "required"@ && d[i].1 == Some(
                        before[k],
                    );
                assert(deps[i] == d[i]);
            } else {
                assert(deps[deps.len() - 1].1 == Some(after[k]));
            }
        }
    }
}

/// After a release was read, every mod that it requires has been met, and what was met before
/// stays met, in the same order.
pub proof fn lemma_required_are_met(s: ClosureView, a: Seq<Seq<Dep>>, i: int)
    requires
        s.wf(),
        s.step() is Versions,
        a.len() > 0,
        0 <= i < a[0].len(),
        a[0][i].0 == "required"@,
        a[0][i].1 is Some,
    ensures
        s.after_versions(Ok(a)).ids.contains(a[0][i].1->0),
        s.after_versions(Ok(a)).ids.take(s.ids.len() as int) == s.ids,
{
    lemma_with_required(s.ids, a[0]);
}

/// An answer on releases keeps what holds of the search.
pub proof fn lemma_versions_keep(s: ClosureView, a: VersionsAnswer)
    requires
        s.wf(),
        s.step() is Versions,
    ensures
        s.after_versions(a).wf(),
        forall|seeds: Seq<Seq<char>>| #[trigger] s.inv(seeds) ==> s.after_versions(a).inv(seeds),
{
    match a {
        Ok(v) => if v.len() > 0 {
            lemma_with_required(s.ids, v[0]);
        },
        Err(_) => {},
    }
    lemma_next_round_keeps(s, s.after_versions(a));
}

/// The mods of the next round are the last ones.
proof fn lemma_next_round_keeps(s: ClosureView, t: ClosureView)
    requires
        s.wf(),
        t.all == s.all,
        t.frontier == s.frontier && t.added == s.added || t.frontier == s.added && t.added.len()
            == 0,
    ensures
        t.all.skip(t.all.len() - t.open_mods()) == t.frontier + t.added,
{
    if !(t.frontier == s.frontier && t.added == s.added) {
        let u = s.all.skip(s.all.len() - s.open_mods());
        assert(t.all.skip(t.all.len() - t.open_mods()) =~= u.skip(s.frontier.len() as int));
        assert((s.frontier + s.added).skip(s.frontier.len() as int) =~= s.added);
        assert(t.frontier + t.added =~= s.added);
    }
}

/// An answer on an id keeps what holds of the search: every mod that is added is new, and it is
/// added once.
pub proof fn lemma_project_keeps(s: ClosureView, a: Option<Seq<char>>)
    requires
        s.wf(),
        s.step() is Project,
    ensures
        s.after_project(a).wf(),
        forall|seeds: Seq<Seq<char>>| #[trigger] s.inv(seeds) ==> s.after_project(a).inv(seeds),
{
    let more = match a {
        Some(slug) => if s.all.contains(slug) {
            s
        } else {
            ClosureView {
                all: s.all.push(slug),
                auto_added: s.auto_added.push(slug),
                added: s.added.push(slug),
                ..s
            }
        },
        None => s,
    };
    let k = s.all.len() - s.open_mods();
    assert(more.all.skip(k) == more.frontier + more.added) by {
        if more != s {
            assert(more.all.skip(k) =~= s.all.skip(k).push(more.all.last()));
            assert(more.frontier + more.added =~= (s.frontier + s.added).push(more.all.last()));
        }
    }
    lemma_next_round_keeps(more, s.after_project(a));
    assert forall|seeds: Seq<Seq<char>>| #[trigger] s.inv(seeds) implies s.after_project(a).inv(
        seeds,
    ) by {
        match a {
            Some(slug) => if !s.all.contains(slug) {
                let t = s.auto_added.push(slug);
                assert(s.all.push(slug) =~= seeds + t);
                assert forall|x: Seq<char>| t.contains(x) implies !seeds.contains(x) by {
                    let k = choose|k: int| 0 <= k < t.len() && t[k] == x;
                    if k < s.auto_added.len() {
                        assert(s.auto_added[k] == x);
                        assert(s.auto_added.contains(x));
                    } else if seeds.contains(x) {
                        let j = choose|j: int| 0 <= j < seeds.len() && seeds[j] == x;
                        assert(s.all[j] == x);
                    }
                }
                assert forall|i: int, j: int| 0 <= i < t.len() && 0 <= j < t.len() && i != j implies
                    t[i] != t[j] by {
                    if i < s.auto_added.len() {
                        assert(s.all[seeds.len() + i] == s.auto_added[i]);
                    }
                    if j < s.auto_added.len() {
                        assert(s.all[seeds.len() + j] == s.auto_added[j]);
                    }
                }
            },
            None => {},
        }
    }
}

/// What a catalogue says: of each mod its releases, and of each id the mod that has it.
pub struct Catalogue {
    pub releases: spec_fn(Seq<char>) -> VersionsAnswer,
    pub mods: spec_fn(Seq<char>) -> Option<Seq<char>>,
}

/// Whether what a mod requires has been met, or it is reported that its releases are not known.
pub open spec fn mod_is_followed(s: ClosureView, c: Catalogue, slug: Seq<char>) -> bool {
    match (c.releases)(slug) {
        Err(e) => s.conflicts.contains(slug + ": 获取版本失败 ("@ + e + ")"@),
        Ok(v) => if v.len() == 0 {
            s.conflicts.contains(
                slug + ": 没有 "@ + s.game_version + "/"@ + s.loader + " 兼容版本"@,
            )
        } else {
            forall|i: int|
                0 <= i < v[0].len() && (#[trigger] v[0][i]).0 == "required"@ && v[0][i].1 is Some
                    ==> s.ids.contains(v[0][i].1->0)
        },
    }
}

/// Whether the mod with an id is among those that were found, or it is reported that there is
/// none.
pub open spec fn id_is_followed(s: ClosureView, c: Catalogue, id: Seq<char>) -> bool {
    match (c.mods)(id) {
        Some(slug) => s.all.contains(slug),
        None => s.conflicts.contains("依赖 "@ + id + ": 无法解析"@),
    }
}

/// How many of the mods have been read.
pub open spec fn mods_read(s: ClosureView) -> int {
    s.all.len() - s.open_mods() + s.slugs_done
}

/// Whether the first release of a mod requires the mod with an id.
pub open spec fn needs(c: Catalogue, slug: Seq<char>, id: Seq<char>) -> bool {
    (c.releases)(slug) matches Ok(v) && v.len() > 0 && lists_required(v[0], id)
}

/// Whether one of some mods requires the mod with an id.
pub open spec fn one_needs(c: Catalogue, slugs: Seq<Seq<char>>, id: Seq<char>) -> bool {
    exists|j: int| 0 <= j < slugs.len() && needs(c, #[trigger] slugs[j], id)
}

/// Whether a mod is the one with an id that one of some mods requires.
pub open spec fn is_needed(c: Catalogue, slugs: Seq<Seq<char>>, slug: Seq<char>) -> bool {
    exists|id: Seq<char>| #[trigger] one_needs(c, slugs, id) && (c.mods)(id) == Some(slug)
}

/// The mods that the search knew when it added the one at `x`: those that it began with, and
/// those that it had added before.
pub open spec fn known_before(s: ClosureView, x: int) -> Seq<Seq<char>> {
    s.all.take(s.all.len() - s.auto_added.len() + x)
}

/// Whether all that was asked so far has been followed as the catalogue says, and nothing else
/// was: each id that was met is required by a mod that was read, and each mod that was added is
/// required by one that was known before.
pub open spec fn follows(s: ClosureView, c: Catalogue) -> bool {
    &&& forall|j: int| 0 <= j < mods_read(s) ==> mod_is_followed(s, c, #[trigger] s.all[j])
    &&& forall|k: int| 0 <= k < s.ids_done ==> id_is_followed(s, c, #[trigger] s.ids[k])
    &&& forall|k: int|
        0 <= k < s.ids.len() ==> one_needs(c, s.all.take(mods_read(s)), #[trigger] s.ids[k])
    &&& forall|x: int|
        0 <= x < s.auto_added.len() ==> is_needed(c, known_before(s, x), #[trigger] s.auto_added[x])
}

/// What one of the first mods of a list requires, one of the first `n` does.
proof fn lemma_one_needs(c: Catalogue, slugs: Seq<Seq<char>>, m: int, n: int, id: Seq<char>)
    requires
        0 <= m <= n <= slugs.len(),
        one_needs(c, slugs.take(m), id),
    ensures
        one_needs(c, slugs.take(n), id),
{
    let j = choose|j: int| 0 <= j < m && needs(c, #[trigger] slugs.take(m)[j], id);
    assert(slugs.take(n)[j] == slugs.take(m)[j]);
}

/// What has been followed stays followed when more is found.
proof fn lemma_followed_stays(s: ClosureView, t: ClosureView, c: Catalogue)
    requires
        t.game_version == s.game_version && t.loader == s.loader,
        s.all.len() <= t.all.len() && t.all.take(s.all.len() as int) == s.all,
        s.ids.len() <= t.ids.len() && t.ids.take(s.ids.len() as int) == s.ids,
        s.conflicts.len() <= t.conflicts.len() && t.conflicts.take(s.conflicts.len() as int)
            == s.conflicts,
    ensures
        forall|x: Seq<char>| s.all.contains(x) ==> #[trigger] t.all.contains(x),
        forall|x: Seq<char>| #[trigger] mod_is_followed(s, c, x) ==> mod_is_followed(t, c, x),
        forall|x: Seq<char>| #[trigger] id_is_followed(s, c, x) ==> id_is_followed(t, c, x),
{
    assert forall|x: Seq<char>| s.all.contains(x) implies #[trigger] t.all.contains(x) by {
        let k = choose|k: int| 0 <= k < s.all.len() && s.all[k] == x;
        assert(t.all.take(s.all.len() as int)[k] == t.all[k]);
    }
    assert forall|x: Seq<char>| s.ids.contains(x) implies #[trigger] t.ids.contains(x) by {
        let k = choose|k: int| 0 <= k < s.ids.len() && s.ids[k] == x;
        assert(t.ids.take(s.ids.len() as int)[k] == t.ids[k]);
    }
    assert forall|x: Seq<char>| s.conflicts.contains(x) implies #[trigger] t.conflicts.contains(
        x,
    ) by {
        let k = choose|k: int| 0 <= k < s.conflicts.len() && s.conflicts[k] == x;
        assert(t.conflicts.take(s.conflicts.len() as int)[k] == t.conflicts[k]);
    }
}

/// A search that has asked nothing has followed all that it was told.
pub proof fn lemma_start_follows(
    game_version: Seq<char>,
    loader: Seq<char>,
    seeds: Seq<Seq<char>>,
    c: Catalogue,
)
    ensures
        follows(ClosureView::start(game_version, loader, seeds), c),
{
}

/// Taking in what the catalogue says of the releases of a mod follows them.
pub proof fn lemma_versions_follow(s: ClosureView, c: Catalogue)
    requires
        s.wf(),
        s.step() is Versions,
        follows(s, c),
    ensures
        follows(s.after_versions((c.releases)(s.frontier[s.slugs_done as int])), c),
{
    let slug = s.frontier[s.slugs_done as int];
    let a = (c.releases)(slug);
    let t = s.after_versions(a);
    match a {
        Ok(v) => if v.len() > 0 {
            lemma_with_required(s.ids, v[0]);
        },
        Err(_) => {},
    }
    assert(t.all.take(s.all.len() as int) =~= s.all);
    assert(t.ids.take(s.ids.len() as int) =~= s.ids);
    assert(t.conflicts.take(s.conflicts.len() as int) =~= s.conflicts);
    lemma_followed_stays(s, t, c);
    let n = mods_read(s);
    assert(s.all.skip(s.all.len() - s.open_mods())[s.slugs_done as int] == s.all[n]);
    assert((s.frontier + s.added)[s.slugs_done as int] == slug);
    assert(mod_is_followed(t, c, slug)) by {
        if t.conflicts.len() > s.conflicts.len() {
            assert(t.conflicts[s.conflicts.len() as int] == t.conflicts.last());
        }
    }
    assert forall|j: int| 0 <= j < mods_read(t) implies mod_is_followed(
        t,
        c,
        #[trigger] t.all[j],
    ) by {
        if j < n {
            assert(mod_is_followed(s, c, s.all[j]));
        }
    }
    assert forall|k: int| 0 <= k < t.ids_done implies id_is_followed(t, c, #[trigger] t.ids[k]) by {
        assert(t.ids.take(s.ids.len() as int)[k] == s.ids[k]);
        assert(id_is_followed(s, c, s.ids[k]));
    }
    assert(mods_read(t) == n + 1);
    assert forall|k: int| 0 <= k < t.ids.len() implies one_needs(
        c,
        t.all.take(n + 1),
        #[trigger] t.ids[k],
    ) by {
        if k < s.ids.len() {
            assert(t.ids.take(s.ids.len() as int)[k] == s.ids[k]);
            lemma_one_needs(c, s.all, n, n + 1, s.ids[k]);
        } else {
            assert(t.all.take(n + 1)[n] == slug);
            assert(needs(c, t.all.take(n + 1)[n], t.ids[k]));
        }
    }
    assert forall|x: int| 0 <= x < t.auto_added.len() implies is_needed(
        c,
        known_before(t, x),
        #[trigger] t.auto_added[x],
    ) by {
        assert(is_needed(c, known_before(s, x), s.auto_added[x]));
    }
}

/// Taking in what the catalogue says of an id follows it.
pub proof fn lemma_project_follows(s: ClosureView, c: Catalogue)
    requires
        s.wf(),
        s.step() is Project,
        follows(s, c),
    ensures
        follows(s.after_project((c.mods)(s.ids[s.ids_done as int])), c),
{
    let id = s.ids[s.ids_done as int];
    let t = s.after_project((c.mods)(id));
    assert(t.all.take(s.all.len() as int) =~= s.all);
    assert(t.ids.take(s.ids.len() as int) =~= s.ids);
    assert(t.conflicts.take(s.conflicts.len() as int) =~= s.conflicts);
    lemma_followed_stays(s, t, c);
    assert(id_is_followed(t, c, id)) by {
        if t.conflicts.len() > s.conflicts.len() {
            assert(t.conflicts[s.conflicts.len() as int] == t.conflicts.last());
        }
        if t.all.len() > s.all.len() {
            assert(t.all[s.all.len() as int] == t.all.last());
        }
    }
    assert forall|j: int| 0 <= j < mods_read(t) implies mod_is_followed(
        t,
        c,
        #[trigger] t.all[j],
    ) by {
        assert(t.all.take(s.all.len() as int)[j] == s.all[j]);
        assert(mod_is_followed(s, c, s.all[j]));
    }
    assert forall|k: int| 0 <= k < t.ids_done implies id_is_followed(t, c, #[trigger] t.ids[k]) by {
        if k < s.ids_done {
            assert(id_is_followed(s, c, s.ids[k]));
        }
    }
    let n = mods_read(s);
    assert(mods_read(t) == n);
    assert(t.all.take(n) =~= s.all.take(n));
    assert forall|k: int| 0 <= k < t.ids.len() implies one_needs(
        c,
        t.all.take(n),
        #[trigger] t.ids[k],
    ) by {
        assert(one_needs(c, s.all.take(n), s.ids[k]));
    }
    assert forall|x: int| 0 <= x < t.auto_added.len() implies is_needed(
        c,
        known_before(t, x),
        #[trigger] t.auto_added[x],
    ) by {
        if x < s.auto_added.len() {
            assert(is_needed(c, known_before(s, x), s.auto_added[x]));
            assert(known_before(t, x) =~= known_before(s, x));
        } else {
            assert(one_needs(c, s.all.take(n), id));
            lemma_one_needs(c, s.all, n, s.all.len() as int, id);
            assert(known_before(t, x) =~= s.all.take(s.all.len() as int));
        }
    }
}

/// The closure is closed: once the search is done, each mod that a found mod requires has been
/// found too, however long the chain of requirements is, or it is reported why not.
pub proof fn lemma_closure_is_closed(s: ClosureView, c: Catalogue, j: int)
    requires
        s.wf(),
        s.is_done(),
        follows(s, c),
        0 <= j < s.all.len(),
    ensures
        mod_is_followed(s, c, s.all[j]),
        (c.releases)(s.all[j]) matches Ok(v) ==> v.len() > 0 ==> forall|i: int|
            0 <= i < v[0].len() && (#[trigger] v[0][i]).0 == "required"@ && v[0][i].1 is Some
                ==> id_is_followed(s, c, v[0][i].1->0),
{
    match (c.releases)(s.all[j]) {
        Ok(v) => if v.len() > 0 {
            assert forall|i: int|
                0 <= i < v[0].len() && (#[trigger] v[0][i]).0 == "required"@ && v[0][i].1 is Some
                implies id_is_followed(s, c, v[0][i].1->0) by {
                let id = v[0][i].1->0;
                assert(s.ids.contains(id));
                let k = choose|k: int| 0 <= k < s.ids.len() && s.ids[k] == id;
                assert(id_is_followed(s, c, s.ids[k]));
            }
        },
        Err(_) => {},
    }
}

/// Nothing is added without need: each mod that the search added is the one with an id that the
/// first release of a mod requires that was there before it, be it one that the search began with
/// or one that it had added earlier.
pub proof fn lemma_nothing_else_is_added(
    s: ClosureView,
    c: Catalogue,
    seeds: Seq<Seq<char>>,
    x: int,
)
    requires
        s.inv(seeds),
        follows(s, c),
        0 <= x < s.auto_added.len(),
    ensures
        exists|j: int, id: Seq<char>|
            0 <= j < seeds.len() + x && #[trigger] needs(c, s.all[j], id) && (c.mods)(id) == Some(
                s.auto_added[x],
            ),
{
    assert(is_needed(c, known_before(s, x), s.auto_added[x]));
    let known = known_before(s, x);
    let id = choose|id: Seq<char>| #[trigger]
        one_needs(c, known, id) && (c.mods)(id) == Some(s.auto_added[x]);
    let j = choose|j: int| 0 <= j < known.len() && needs(c, #[trigger] known[j], id);
    assert(needs(c, s.all[j], id));
}

/// How much is left to do where a catalogue has `n` ids: ids to look up, each of which may bring
/// a mod, and mods to read.
pub open spec fn work_left(s: ClosureView, n: nat) -> int {
    2 * (n - s.ids_done) + (s.frontier.len() - s.slugs_done) + s.added.len()
}

/// The search ends: where the catalogue has finitely many ids, every answer leaves less to do,
/// and never less than nothing.
pub proof fn lemma_search_ends(
    s: ClosureView,
    ids: Set<Seq<char>>,
    v: VersionsAnswer,
    p: Option<Seq<char>>,
)
    requires
        s.wf(),
        !s.is_done(),
        s.ids.no_duplicates(),
        ids.finite(),
        forall|x: Seq<char>| #[trigger] s.ids.contains(x) ==> ids.contains(x),
    ensures
        work_left(s, ids.len()) >= 0,
        s.step() is Versions ==> work_left(s.after_versions(v), ids.len()) < work_left(
            s,
            ids.len(),
        ),
        s.step() is Project ==> work_left(s.after_project(p), ids.len()) < work_left(s, ids.len()),
{
    s.ids.unique_seq_to_set();
    assert(s.ids.to_set().subset_of(ids));
    vstd::set_lib::lemma_len_subset(s.ids.to_set(), ids);
}

} // verus!

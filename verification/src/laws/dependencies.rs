//! Laws of the search for dependencies: what is asked, and in which order mods are met.

use vstd::prelude::*;

#[allow(unused_imports)]
use crate::closure::{with_required, ClosureView, Dep, StepView};
#[allow(unused_imports)]
use crate::number::dec;
#[allow(unused_imports)]
use crate::tools::build_run::{cf_update, collect_update};
#[allow(unused_imports)]
use crate::tools::repair::{outcome_update, write_update, RepairOutcome};

verus! {

/// Required mods are met in the order in which they are declared, each once; what is not required,
/// or names no mod, is passed over.
pub proof fn lemma_required_in_order(ids: Seq<Seq<char>>, a: Seq<Dep>, d: Dep, b: Seq<Dep>)
    ensures
        with_required(ids, a + b) == with_required(with_required(ids, a), b),
        with_required(ids, seq![d]) == (match d.1 {
            Some(id) => if d.0 == "required"@ && !ids.contains(id) {
                ids.push(id)
            } else {
                ids
            },
            None => ids,
        }),
        with_required(ids, Seq::empty()) == ids,
    decreases b.len(),
{
    if b.len() == 0 {
        assert(a + b =~= a);
    } else {
        lemma_required_in_order(ids, a, d, b.drop_last());
        assert((a + b).drop_last() =~= a + b.drop_last());
        assert((a + b).last() == b.last());
    }
    assert(seq![d].drop_last() =~= Seq::<Dep>::empty());
    assert(with_required(ids, seq![d].drop_last()) == ids);
    assert(seq![d].last() == d);
}

/// What is asked: first the releases of each mod of the round, one after the other, then the mod
/// with each id that was met; nothing once no mod is left.
pub proof fn lemma_questions_in_order(s: ClosureView)
    ensures
        s.frontier.len() == 0 ==> s.step() == StepView::Done,
        s.slugs_done < s.frontier.len() ==> s.step() == (StepView::Versions {
            slug: s.frontier[s.slugs_done as int],
        }),
        s.frontier.len() > 0 && s.slugs_done >= s.frontier.len() ==> s.step() == (
        StepView::Project { id: s.ids[s.ids_done as int] }),
{
}

/// A search begins with the mods that it was given and reads each of them.
pub proof fn lemma_search_begins(gv: Seq<char>, loader: Seq<char>, seeds: Seq<Seq<char>>)
    ensures
        ({
            let s = ClosureView::start(gv, loader, seeds);
            &&& s.all == seeds && s.frontier == seeds
            &&& s.auto_added.len() == 0 && s.conflicts.len() == 0 && s.ids.len() == 0
            &&& s.slugs_done == 0 && s.ids_done == 0 && s.added.len() == 0
            &&& s.game_version == gv && s.loader == loader
        }),
{
}

/// A mod that is found is added at the end, unless it is there already; an id that leads to no mod
/// is reported.
pub proof fn lemma_found_mod_is_added(s: ClosureView, slug: Seq<char>)
    requires
        s.wf(),
        s.step() is Project,
    ensures
        s.all.contains(slug) ==> s.after_project(Some(slug)).all == s.all && s.after_project(
            Some(slug),
        ).auto_added == s.auto_added,
        !s.all.contains(slug) ==> s.after_project(Some(slug)).all == s.all.push(slug)
            && s.after_project(Some(slug)).auto_added == s.auto_added.push(slug),
        s.after_project(Some(slug)).conflicts == s.conflicts,
        s.after_project(None).all == s.all,
        s.after_project(None).conflicts == s.conflicts.push(
            "依赖 "@ + s.ids[s.ids_done as int] + ": 无法解析"@,
        ),
        s.after_project(Some(slug)).ids_done == s.ids_done + 1,
        s.after_project(None).ids_done == s.ids_done + 1,
        !s.all.contains(slug) ==> {
            let t = s.after_project(Some(slug));
            if t.pass == s.pass {
                t.added == s.added.push(slug)
            } else {
                t.frontier == s.added.push(slug)
            }
        },
{
}

/// Of the releases of a mod the first counts; where there is none, or they cannot be read, that is
/// reported.
pub proof fn lemma_first_release_counts(s: ClosureView, v: Seq<Seq<Dep>>, e: Seq<char>)
    requires
        s.wf(),
        s.step() is Versions,
    ensures
        v.len() > 0 ==> s.after_versions(Ok(v)).ids == with_required(s.ids, v[0])
            && s.after_versions(Ok(v)).conflicts == s.conflicts,
        v.len() == 0 ==> s.after_versions(Ok(v)).ids == s.ids && s.after_versions(Ok(v)).conflicts
            == s.conflicts.push(
            s.frontier[s.slugs_done as int] + ": 没有 "@ + s.game_version + "/"@ + s.loader
                + " 兼容版本"@,
        ),
        s.after_versions(Err(e)).ids == s.ids,
        s.after_versions(Err(e)).conflicts == s.conflicts.push(
            s.frontier[s.slugs_done as int] + ": 获取版本失败 ("@ + e + ")"@,
        ),
        s.after_versions(Ok(v)).all == s.all,
        s.after_versions(Err(e)).all == s.all,
        s.after_versions(Ok(v)).pass == s.pass ==> s.after_versions(Ok(v)).slugs_done
            == s.slugs_done + 1,
        s.after_versions(Err(e)).pass == s.pass ==> s.after_versions(Err(e)).slugs_done
            == s.slugs_done + 1,
        s.slugs_done + 1 < s.frontier.len() ==> s.after_versions(Ok(v)).pass == s.pass
            && s.after_versions(Err(e)).pass == s.pass,
{
}

/// Once a round is over, the mods that it added are read in the next; until then it goes on.
pub proof fn lemma_rounds(s: ClosureView)
    ensures
        s.slugs_done == s.frontier.len() && s.ids_done == s.ids.len() ==> {
            let t = s.next_round();
            t.frontier == s.added && t.slugs_done == 0 && t.added.len() == 0 && t.pass == s.pass + 1
                && t.all == s.all && t.ids == s.ids && t.conflicts == s.conflicts
        },
        !(s.slugs_done == s.frontier.len() && s.ids_done == s.ids.len()) ==> s.next_round() == s,
{
}

/// Who waits sees how far the work is: the mod that is taken up, its number and how many there
/// are.
pub proof fn lemma_progress_is_told(slugs: Seq<Seq<char>>, i: nat, o: RepairOutcome, total: nat)
    requires
        i < slugs.len() <= u64::MAX,
        total <= u64::MAX,
        i <= u64::MAX,
    ensures
        collect_update(slugs, i).0 == "正在收集 mod "@ + slugs[i as int] + " ("@ + dec(i + 1) + "/"@
            + dec(slugs.len()) + ")"@,
        collect_update(slugs, i).1 matches Some(n) && n == i + 1,
        collect_update(slugs, i).2 matches Some(n) && n == slugs.len(),
        cf_update(slugs, i).0 == "解析 CF mod "@ + slugs[i as int] + " ("@ + dec(i + 1) + "/"@ + dec(
            slugs.len(),
        ) + ")"@,
        cf_update(slugs, i).1 matches Some(n) && n == i + 1,
        cf_update(slugs, i).2 matches Some(n) && n == slugs.len(),
        outcome_update(o, i, total).0 == "正在收集 mod "@ + (match o {
            RepairOutcome::Mod { slug, .. } => slug@,
            RepairOutcome::Conflict { slug, .. } => slug@,
        }) + " ("@ + dec(i) + "/"@ + dec(total) + ")"@,
        outcome_update(o, i, total).1 matches Some(n) && n == i,
        outcome_update(o, i, total).2 matches Some(n) && n == total,
        write_update(total).1 matches Some(n) && n == total,
        write_update(total).2 matches Some(n) && n == total,
{
}

} // verus!

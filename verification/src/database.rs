//! What is known of the user: rated mods, built packs, and the taste that follows from them.

use vstd::prelude::*;
use vstd::string::StringExecFns;

#[allow(unused_imports)]
use crate::number::dec;
use crate::number::usize_to_string;
#[allow(unused_imports)]
use crate::order::{ascending, is_descending, is_sorted_set, lex_lt, Key};
use crate::order::{descending, insert_sorted, str_lt};
use crate::text::str_eq;
#[allow(unused_imports)]
use crate::text::{lemma_views_push, views};

verus! {

/// What the user said of a mod.
pub struct FeedbackRecord {
    pub slug: String,
    pub verdict: String,
    pub tags: Vec<String>,
    pub game_version: String,
    pub loader: String,
    pub source: String,
    pub timestamp: String,
}

/// A pack that was built.
pub struct PackRecord {
    pub name: String,
    pub mod_slugs: Vec<String>,
    pub created_at: String,
}

/// All that is known of the user.
pub struct UserDatabase {
    pub feedback: Vec<FeedbackRecord>,
    pub packs: Vec<PackRecord>,
    pub storage_path: String,
}

/// The mathematical value of a [`FeedbackRecord`].
#[verifier::ext_equal]
pub struct FeedbackView {
    pub slug: Seq<char>,
    pub verdict: Seq<char>,
    pub tags: Seq<Seq<char>>,
    pub game_version: Seq<char>,
    pub loader: Seq<char>,
    pub source: Seq<char>,
    pub timestamp: Seq<char>,
}

/// The mathematical value of a [`PackRecord`].
#[verifier::ext_equal]
pub struct PackView {
    pub name: Seq<char>,
    pub mod_slugs: Seq<Seq<char>>,
    pub created_at: Seq<char>,
}

impl View for FeedbackRecord {
    type V = FeedbackView;

    open spec fn view(&self) -> FeedbackView {
        FeedbackView {
            slug: self.slug@,
            verdict: self.verdict@,
            tags: views(self.tags@),
            game_version: self.game_version@,
            loader: self.loader@,
            source: self.source@,
            timestamp: self.timestamp@,
        }
    }
}

impl View for PackRecord {
    type V = PackView;

    open spec fn view(&self) -> PackView {
        PackView {
            name: self.name@,
            mod_slugs: views(self.mod_slugs@),
            created_at: self.created_at@,
        }
    }
}

/// The views of a list of ratings.
pub open spec fn feedback_views(s: Seq<FeedbackRecord>) -> Seq<FeedbackView> {
    s.map_values(|f: FeedbackRecord| f@)
}

/// The views of a list of packs.
pub open spec fn pack_views(s: Seq<PackRecord>) -> Seq<PackView> {
    s.map_values(|p: PackRecord| p@)
}

// ---------------------------------------------------------------------------
// Taste
// ---------------------------------------------------------------------------

/// What a rating adds to the weight of each of its tags.
pub open spec fn delta(verdict: Seq<char>) -> int {
    if verdict == "like"@ {
        1
    } else {
        -1
    }
}

/// How often a tag occurs.
pub open spec fn occurrences(tags: Seq<Seq<char>>, tag: Seq<char>) -> nat
    decreases tags.len(),
{
    if tags.len() == 0 {
        0
    } else {
        occurrences(tags.drop_last(), tag) + (if tags.last() == tag {
            1nat
        } else {
            0nat
        })
    }
}

/// The weight of a tag: how often mods that have it were liked, less how often not.
pub open spec fn weight_of(feedback: Seq<FeedbackView>, tag: Seq<char>) -> int
    decreases feedback.len(),
{
    if feedback.len() == 0 {
        0
    } else {
        weight_of(feedback.drop_last(), tag) + delta(feedback.last().verdict) * occurrences(
            feedback.last().tags,
            tag,
        )
    }
}

/// Whether a tag occurs in a rating.
pub open spec fn has_tag(feedback: Seq<FeedbackView>, tag: Seq<char>) -> bool {
    exists|i: int| 0 <= i < feedback.len() && (#[trigger] feedback[i]).tags.contains(tag)
}

/// The number of tags of all ratings.
pub open spec fn tag_count(feedback: Seq<FeedbackView>) -> nat
    decreases feedback.len(),
{
    if feedback.len() == 0 {
        0
    } else {
        tag_count(feedback.drop_last()) + feedback.last().tags.len()
    }
}

/// A tag with its weight.
pub type Weight = (Seq<char>, int);

/// The views of tags with weights.
pub open spec fn weight_views(s: Seq<(String, i64)>) -> Seq<Weight> {
    s.map_values(|p: (String, i64)| (p.0@, p.1 as int))
}

/// The tags of a list of weights.
pub open spec fn weight_tags(s: Seq<Weight>) -> Seq<Seq<char>> {
    s.map_values(|p: Weight| p.0)
}

/// Whether the list holds every tag that occurs, once and in ascending order, with its weight.
pub open spec fn is_weights(s: Seq<Weight>, feedback: Seq<FeedbackView>) -> bool {
    &&& ascending(weight_tags(s))
    &&& forall|t: Seq<char>| #[trigger] weight_tags(s).contains(t) <==> has_tag(feedback, t)
    &&& forall|i: int| 0 <= i < s.len() ==> (#[trigger] s[i]).1 == weight_of(feedback, s[i].0)
}

/// The weights above zero.
pub open spec fn positive(s: Seq<Weight>) -> Seq<Weight> {
    s.filter(|p: Weight| p.1 > 0)
}

/// Sort keys of weights.
pub open spec fn weight_keys(s: Seq<Weight>) -> Seq<Key> {
    s.map_values(|p: Weight| (p.1 as i128, 0i128))
}

/// Whether `r` are the `n` tags with the greatest weights above zero, greatest first, tags of
/// equal weight in ascending order.
pub open spec fn is_top(r: Seq<Seq<char>>, s: Seq<Weight>, n: nat) -> bool {
    let p = positive(s);
    exists|order: Seq<usize>| #[trigger]
        is_descending(weight_keys(p), order) && r == Seq::new(
            if n <= p.len() {
                n
            } else {
                p.len()
            },
            |i: int| p[order[i] as int].0,
        )
}

/// The number of ratings that are likes.
pub open spec fn likes(feedback: Seq<FeedbackView>) -> nat
    decreases feedback.len(),
{
    if feedback.len() == 0 {
        0
    } else {
        likes(feedback.drop_last()) + (if feedback.last().verdict == "like"@ {
            1nat
        } else {
            0nat
        })
    }
}

/// The slugs of ratings.
pub open spec fn slugs(feedback: Seq<FeedbackView>) -> Seq<Seq<char>> {
    feedback.map_values(|f: FeedbackView| f.slug)
}

/// The line that sums up what is known.
pub open spec fn summary_text(feedback: Seq<FeedbackView>, packs: nat) -> Seq<char> {
    "反馈 "@ + dec(feedback.len()) + " 条（喜欢 "@ + dec(likes(feedback)) + " / 不喜欢 "@ + dec(
        (feedback.len() - likes(feedback)) as nat,
    ) + "）| 组包 "@ + dec(packs) + " 次"@
}

proof fn lemma_likes(feedback: Seq<FeedbackView>)
    ensures
        likes(feedback) <= feedback.len(),
    decreases feedback.len(),
{
    if feedback.len() > 0 {
        lemma_likes(feedback.drop_last());
    }
}

/// Adds `d` to the weight of a tag in a sorted list.
fn add_weight(list: &mut Vec<(String, i64)>, tag: &str, d: i64)
    requires
        ascending(weight_tags(weight_views(old(list)@))),
        d == 1 || d == -1,
        forall|i: int| 0 <= i < old(list)@.len() ==> i64::MIN < (#[trigger] old(list)@[i]).1 < i64::MAX,
    ensures
        ascending(weight_tags(weight_views(final(list)@))),
        forall|t: Seq<char>| #[trigger]
            weight_tags(weight_views(final(list)@)).contains(t) <==> weight_tags(
                weight_views(old(list)@),
            ).contains(t) || t == tag@,
        forall|t: Seq<char>| #[trigger]
            listed_weight(weight_views(final(list)@), t) == listed_weight(
                weight_views(old(list)@),
                t,
            ) + (if t == tag@ {
                d as int
            } else {
                0
            }),
{
    let ghost was = weight_views(list@);
    let ghost tags = weight_tags(was);
    let mut k: usize = 0;
    while k < list.len() && str_lt(list[k].0.as_str(), tag)
        invariant
            k <= list@.len(),
            was == weight_views(list@),
            tags == weight_tags(was),
            forall|a: int| 0 <= a < k ==> lex_lt(#[trigger] tags[a], tag@),
        decreases list@.len() - k,
    {
        assert(tags[k as int] == list@[k as int].0@);
        k += 1;
    }
    proof {
        lemma_listed(was);
        crate::order::lemma_lex_irreflexive(tag@);
    }
    if k < list.len() && str_eq(list[k].0.as_str(), tag) {
        assert(tags[k as int] == tag@);
        assert(was[k as int] == (tag@, list@[k as int].1 as int));
        let w: i64 = list[k].1 + d;
        let t = list[k].0.clone();
        list[k] = (t, w);
        let ghost now = weight_views(list@);
        proof {
            assert(now =~= was.update(k as int, (tag@, w as int)));
            assert(weight_tags(now) =~= tags);
            assert forall|i: int| 0 <= i < now.len() implies (#[trigger] now[i]).1
                == listed_weight(was, now[i].0) + (if now[i].0 == tag@ {
                d as int
            } else {
                0
            }) by {
                assert(was[i].0 == now[i].0);
                if i != k {
                    assert(tags[i] == now[i].0);
                    if now[i].0 == tag@ {
                        if i < k {
                            assert(lex_lt(tags[i], tags[k as int]));
                        } else {
                            assert(lex_lt(tags[k as int], tags[i]));
                        }
                    }
                }
            }
            lemma_weights_added(was, now, tag@, d as int);
        }
        return;
    }
    let t = tag.to_string();
    proof {
        if k < list@.len() {
            assert(tags[k as int] == list@[k as int].0@);
            crate::order::lemma_lex_total(tags[k as int], tag@);
        }
    }
    list.insert(k, (t, d));
    proof {
        let now = weight_views(list@);
        let nt = weight_tags(now);
        assert(now =~= was.insert(k as int, (tag@, d as int)));
        assert(nt =~= tags.insert(k as int, tag@));
        assert forall|i: int, j: int| 0 <= i < j < nt.len() implies lex_lt(
            #[trigger] nt[i],
            #[trigger] nt[j],
        ) by {
            if i == k && j > k + 1 {
                assert(lex_lt(tags[k as int], tags[j - 1]));
                crate::order::lemma_lex_transitive(tag@, tags[k as int], tags[j - 1]);
            }
        }
        assert forall|y: Seq<char>| #[trigger] nt.contains(y) <==> tags.contains(y) || y == tag@ by {
            if tags.contains(y) {
                let i = choose|i: int| 0 <= i < tags.len() && tags[i] == y;
                assert(nt[if i < k { i } else { i + 1 }] == y);
            }
            if y == tag@ {
                assert(nt[k as int] == tag@);
            }
            if nt.contains(y) && y != tag@ {
                let i = choose|i: int| 0 <= i < nt.len() && nt[i] == y;
                assert(tags[if i < k { i } else { i - 1 }] == y);
            }
        }
        assert forall|i: int| 0 <= i < now.len() implies (#[trigger] now[i]).1 == listed_weight(
            was,
            now[i].0,
        ) + (if now[i].0 == tag@ {
            d as int
        } else {
            0
        }) by {
            if i == k {
                if tags.contains(tag@) {
                    let a = choose|a: int| 0 <= a < tags.len() && tags[a] == tag@;
                    if a > k {
                        assert(lex_lt(tags[k as int], tags[a]));
                        crate::order::lemma_lex_transitive(tag@, tags[k as int], tag@);
                    }
                }
                lemma_unlisted(was, tag@);
            } else {
                let a = if i < k {
                    i
                } else {
                    i - 1
                };
                assert(now[i] == was[a]);
                assert(nt[i] == now[i].0);
                if now[i].0 == tag@ {
                    if i < k {
                        assert(lex_lt(nt[i], nt[k as int]));
                    } else {
                        assert(lex_lt(nt[k as int], nt[i]));
                    }
                }
            }
        }
        lemma_weights_added(was, now, tag@, d as int);
    }
}

proof fn lemma_weights_added(was: Seq<Weight>, now: Seq<Weight>, tag: Seq<char>, d: int)
    requires
        ascending(weight_tags(now)),
        forall|t: Seq<char>| #[trigger]
            weight_tags(now).contains(t) <==> weight_tags(was).contains(t) || t == tag,
        forall|i: int|
            0 <= i < now.len() ==> (#[trigger] now[i]).1 == listed_weight(was, now[i].0) + (if now[i].0
                == tag {
                d
            } else {
                0
            }),
    ensures
        forall|t: Seq<char>| #[trigger]
            listed_weight(now, t) == listed_weight(was, t) + (if t == tag {
                d
            } else {
                0
            }),
{
    assert forall|t: Seq<char>| #[trigger] listed_weight(now, t) == listed_weight(was, t) + (if t
        == tag {
        d
    } else {
        0
    }) by {
        if weight_tags(now).contains(t) {
            let i = choose|i: int| 0 <= i < weight_tags(now).len() && weight_tags(now)[i] == t;
            assert(now[i].0 == t);
            lemma_listed(now);
        } else {
            lemma_unlisted(now, t);
            lemma_unlisted(was, t);
        }
    }
}

/// The weight that a list gives for a tag; 0 where it does not hold it.
pub open spec fn listed_weight(s: Seq<Weight>, tag: Seq<char>) -> int
    decreases s.len(),
{
    if s.len() == 0 {
        0
    } else if s.last().0 == tag {
        s.last().1
    } else {
        listed_weight(s.drop_last(), tag)
    }
}

pub(crate) proof fn lemma_listed(s: Seq<Weight>)
    requires
        ascending(weight_tags(s)),
    ensures
        forall|i: int| 0 <= i < s.len() ==> listed_weight(s, (#[trigger] s[i]).0) == s[i].1,
    decreases s.len(),
{
    if s.len() > 0 {
        let t = s.drop_last();
        assert(weight_tags(t) =~= weight_tags(s).drop_last());
        lemma_listed(t);
        assert forall|i: int| 0 <= i < s.len() implies listed_weight(s, (#[trigger] s[i]).0)
            == s[i].1 by {
            if i < t.len() {
                assert(t[i] == s[i]);
                assert(lex_lt(weight_tags(s)[i], weight_tags(s)[s.len() - 1]));
                crate::order::lemma_lex_irreflexive(s[i].0);
            }
        }
    }
}

pub(crate) proof fn lemma_unlisted(s: Seq<Weight>, tag: Seq<char>)
    requires
        !weight_tags(s).contains(tag),
    ensures
        listed_weight(s, tag) == 0,
    decreases s.len(),
{
    if s.len() > 0 {
        assert(weight_tags(s)[s.len() - 1] == s.last().0);
        let t = s.drop_last();
        assert forall|i: int| 0 <= i < weight_tags(t).len() implies weight_tags(t)[i] != tag by {
            assert(weight_tags(t)[i] == weight_tags(s)[i]);
        }
        lemma_unlisted(t, tag);
    }
}

pub(crate) proof fn lemma_occurrences(tags: Seq<Seq<char>>, tag: Seq<char>)
    ensures
        occurrences(tags, tag) <= tags.len(),
        occurrences(tags, tag) > 0 <==> tags.contains(tag),
    decreases tags.len(),
{
    if tags.len() > 0 {
        let t = tags.drop_last();
        lemma_occurrences(t, tag);
        if t.contains(tag) {
            let i = choose|i: int| 0 <= i < t.len() && t[i] == tag;
            assert(tags[i] == tag);
        }
        if tags.last() == tag {
            assert(tags[tags.len() - 1] == tag);
        }
        if tags.contains(tag) && tags.last() != tag {
            let i = choose|i: int| 0 <= i < tags.len() && tags[i] == tag;
            assert(t[i] == tag);
        }
    }
}

proof fn lemma_tag_count_prefix(feedback: Seq<FeedbackView>, i: int)
    requires
        0 <= i <= feedback.len(),
    ensures
        tag_count(feedback.take(i)) <= tag_count(feedback),
    decreases feedback.len() - i,
{
    if i == feedback.len() {
        assert(feedback.take(i) =~= feedback);
    } else {
        lemma_tag_count_prefix(feedback, i + 1);
        assert(feedback.take(i + 1).drop_last() =~= feedback.take(i));
    }
}

impl UserDatabase {
    /// The ratings.
    pub open spec fn ratings(self) -> Seq<FeedbackView> {
        feedback_views(self.feedback@)
    }

    /// Whether the tags of all ratings can be counted.
    pub open spec fn is_countable(self) -> bool {
        tag_count(self.ratings()) <= i64::MAX
    }

    /// Adds a rating.
    pub fn rate(&mut self, record: FeedbackRecord)
        ensures
            final(self).ratings() == old(self).ratings().push(record@),
            final(self).packs == old(self).packs,
            final(self).storage_path == old(self).storage_path,
    {
        let ghost was = self.ratings();
        let ghost r = record@;
        self.feedback.push(record);
        assert(self.ratings() =~= was.push(r));
    }

    /// The slugs that have been rated, each once, in ascending order.
    pub fn rated_slugs(&self) -> (r: Vec<String>)
        ensures
            is_sorted_set(views(r@), slugs(self.ratings())),
    {
        let mut r: Vec<String> = Vec::new();
        let ghost all = slugs(self.ratings());
        for i in 0..self.feedback.len()
            invariant
                all == slugs(self.ratings()),
                is_sorted_set(views(r@), all.take(i as int)),
        {
            let ghost was = views(r@);
            assert(all[i as int] == self.feedback@[i as int].slug@);
            insert_sorted(&mut r, self.feedback[i].slug.clone());
            proof {
                let x = all[i as int];
                assert forall|y: Seq<char>| #[trigger] views(r@).contains(y) <==> all.take(
                    i + 1,
                ).contains(y) by {
                    assert(views(r@).contains(y) <==> was.contains(y) || y == x);
                    assert(was.contains(y) <==> all.take(i as int).contains(y));
                    let t = all.take(i as int);
                    let u = all.take(i + 1);
                    if t.contains(y) {
                        let j = choose|j: int| 0 <= j < t.len() && t[j] == y;
                        assert(u[j] == y);
                    }
                    if y == x {
                        assert(u[i as int] == y);
                    }
                    if u.contains(y) && y != x {
                        let j = choose|j: int| 0 <= j < u.len() && u[j] == y;
                        assert(t[j] == y);
                    }
                }
            }
        }
        assert(all.take(self.feedback@.len() as int) =~= all);
        r
    }

    /// The weight of every tag that occurs, in ascending order of the tags.
    pub fn tag_weights(&self) -> (r: Vec<(String, i64)>)
        requires
            self.is_countable(),
        ensures
            is_weights(weight_views(r@), self.ratings()),
    {
        let mut list: Vec<(String, i64)> = Vec::new();
        let ghost fb = self.ratings();
        let ghost mut done: nat = 0;
        assert(fb.take(0) =~= Seq::<FeedbackView>::empty());
        for i in 0..self.feedback.len()
            invariant
                fb == self.ratings(),
                tag_count(fb) <= i64::MAX,
                done == tag_count(fb.take(i as int)),
                ascending(weight_tags(weight_views(list@))),
                forall|t: Seq<char>| #[trigger]
                    weight_tags(weight_views(list@)).contains(t) <==> has_tag(fb.take(i as int), t),
                forall|t: Seq<char>| #[trigger]
                    listed_weight(weight_views(list@), t) == weight_of(fb.take(i as int), t),
                forall|k: int|
                    0 <= k < list@.len() ==> -done <= (#[trigger] list@[k]).1 <= done,
        {
            let d: i64 = if str_eq(self.feedback[i].verdict.as_str(), "like") {
                1
            } else {
                -1
            };
            let tags = &self.feedback[i].tags;
            let ghost tv = views(tags@);
            let ghost before = weight_views(list@);
            let ghost base = done;
            assert(fb[i as int] == self.feedback@[i as int]@);
            assert(fb.take(i + 1).drop_last() =~= fb.take(i as int));
            proof {
                lemma_tag_count_prefix(fb, i + 1);
            }
            assert(tv.take(0) =~= Seq::<Seq<char>>::empty());
            for j in 0..tags.len()
                invariant
                    tv == views(tags@),
                    d == delta(fb[i as int].verdict),
                    fb[i as int].tags == tv,
                    base + tv.len() <= i64::MAX,
                    done == base + j,
                    ascending(weight_tags(weight_views(list@))),
                    forall|t: Seq<char>| #[trigger]
                        weight_tags(weight_views(list@)).contains(t) <==> weight_tags(
                            before,
                        ).contains(t) || tv.take(j as int).contains(t),
                    forall|t: Seq<char>| #[trigger]
                        listed_weight(weight_views(list@), t) == listed_weight(before, t) + d
                            * occurrences(tv.take(j as int), t),
                    forall|k: int|
                        0 <= k < list@.len() ==> -done <= (#[trigger] list@[k]).1 <= done,
            {
                let ghost mid = weight_views(list@);
                let ghost a = tv.take(j as int);
                let ghost b = tv.take(j + 1);
                let ghost tag = tags@[j as int]@;
                assert(b.drop_last() =~= a);
                assert(b.last() == tag);
                add_weight(&mut list, tags[j].as_str(), d);
                proof {
                    let now = weight_views(list@);
                    done = done + 1;
                    assert forall|t: Seq<char>| #[trigger] weight_tags(now).contains(t)
                        <==> weight_tags(before).contains(t) || b.contains(t) by {
                        assert(weight_tags(now).contains(t) <==> weight_tags(mid).contains(t) || t
                            == tag);
                        assert(weight_tags(mid).contains(t) <==> weight_tags(before).contains(t)
                            || a.contains(t));
                        lemma_occurrences(a, t);
                        lemma_occurrences(b, t);
                    }
                    assert forall|t: Seq<char>| #[trigger] listed_weight(now, t) == listed_weight(
                        before,
                        t,
                    ) + d * occurrences(b, t) by {
                        assert(listed_weight(mid, t) == listed_weight(before, t) + d * occurrences(
                            a,
                            t,
                        ));
                        assert(d * (occurrences(a, t) + 1) == d * occurrences(a, t) + d)
                            by (nonlinear_arith);
                    }
                    assert forall|k: int| 0 <= k < list@.len() implies -done <= (
                    #[trigger] list@[k]).1 <= done by {
                        assert(now[k] == (list@[k].0@, list@[k].1 as int));
                        lemma_listed(now);
                        lemma_bounded(mid, now[k].0, (done - 1) as int);
                        assert(listed_weight(now, now[k].0) == now[k].1);
                    }
                }
            }
            assert(tv.take(tags@.len() as int) =~= tv);
            proof {
                let now = weight_views(list@);
                assert forall|t: Seq<char>| #[trigger] weight_tags(now).contains(t) <==> has_tag(
                    fb.take(i + 1),
                    t,
                ) by {
                    assert(weight_tags(now).contains(t) <==> weight_tags(before).contains(t)
                        || tv.contains(t));
                    let p = fb.take(i as int);
                    let q = fb.take(i + 1);
                    if has_tag(p, t) {
                        let k = choose|k: int|
                            0 <= k < p.len() && (#[trigger] p[k]).tags.contains(t);
                        assert(q[k].tags.contains(t));
                    }
                    if tv.contains(t) {
                        assert(q[i as int].tags.contains(t));
                    }
                    if has_tag(q, t) && !tv.contains(t) {
                        let k = choose|k: int|
                            0 <= k < q.len() && (#[trigger] q[k]).tags.contains(t);
                        assert(p[k].tags.contains(t));
                    }
                }
                assert forall|t: Seq<char>| #[trigger] listed_weight(now, t) == weight_of(
                    fb.take(i + 1),
                    t,
                ) by {
                    assert(listed_weight(before, t) == weight_of(fb.take(i as int), t));
                }
            }
        }
        proof {
            assert(fb.take(self.feedback@.len() as int) =~= fb);
            lemma_listed(weight_views(list@));
        }
        list
    }

    /// The `n` tags that the user likes best.
    pub fn top_tags(&self, n: usize) -> (r: Vec<String>)
        requires
            self.is_countable(),
        ensures
            exists|s: Seq<Weight>| #[trigger]
                is_weights(s, self.ratings()) && is_top(views(r@), s, n as nat),
    {
        let all = self.tag_weights();
        let ghost s = weight_views(all@);
        let ghost keep = |p: Weight| p.1 > 0;
        let mut liked: Vec<(String, i64)> = Vec::new();
        let mut keys: Vec<Key> = Vec::new();
        proof {
            reveal(Seq::filter);
        }
        assert(weight_views(liked@) =~= s.take(0).filter(keep));
        for i in 0..all.len()
            invariant
                s == weight_views(all@),
                keep == (|p: Weight| p.1 > 0),
                weight_views(liked@) == s.take(i as int).filter(keep),
                keys@ == weight_keys(weight_views(liked@)),
        {
            broadcast use Seq::lemma_filter_push;

            assert(s.take(i + 1) =~= s.take(i as int).push(s[i as int]));
            assert(s[i as int] == (all@[i as int].0@, all@[i as int].1 as int));
            if all[i].1 > 0 {
                let ghost was = weight_views(liked@);
                liked.push((all[i].0.clone(), all[i].1));
                keys.push((all[i].1 as i128, 0i128));
                assert(weight_views(liked@) =~= was.push(s[i as int]));
                assert(keys@ =~= weight_keys(weight_views(liked@)));
            }
        }
        assert(s.take(all@.len() as int) =~= s);
        let order = descending(&keys);
        let ghost p = positive(s);
        let count: usize = if n <= liked.len() {
            n
        } else {
            liked.len()
        };
        let mut r: Vec<String> = Vec::new();
        for i in 0..count
            invariant
                p == weight_views(liked@),
                count <= liked@.len(),
                order@.len() == liked@.len(),
                forall|k: int| 0 <= k < order@.len() ==> #[trigger] order@[k] < liked@.len(),
                r@.len() == i,
                forall|k: int|
                    0 <= k < i ==> (#[trigger] r@[k])@ == p[order@[k] as int].0,
        {
            assert(order@[i as int] < liked@.len());
            r.push(liked[order[i]].0.clone());
        }
        assert(views(r@) =~= Seq::new(count as nat, |i: int| p[order@[i] as int].0));
        assert(is_top(views(r@), s, n as nat));
        r
    }

    /// A line that sums up what is known.
    pub fn summary(&self) -> (r: String)
        ensures
            r@ == summary_text(self.ratings(), self.packs@.len()),
    {
        let ghost fb = self.ratings();
        let mut count: usize = 0;
        assert(fb.take(0) =~= Seq::<FeedbackView>::empty());
        for i in 0..self.feedback.len()
            invariant
                fb == self.ratings(),
                count == likes(fb.take(i as int)),
                count <= i,
        {
            assert(fb.take(i + 1).drop_last() =~= fb.take(i as int));
            assert(fb[i as int] == self.feedback@[i as int]@);
            if str_eq(self.feedback[i].verdict.as_str(), "like") {
                count += 1;
            }
        }
        assert(fb.take(self.feedback@.len() as int) =~= fb);
        let n: usize = self.feedback.len();
        "反馈 ".to_string().concat(usize_to_string(n).as_str()).concat(" 条（喜欢 ").concat(
            usize_to_string(count).as_str(),
        ).concat(" / 不喜欢 ").concat(usize_to_string(n - count).as_str()).concat(
            "）| 组包 ",
        ).concat(usize_to_string(self.packs.len()).as_str()).concat(" 次")
    }
}

proof fn lemma_bounded(s: Seq<Weight>, tag: Seq<char>, bound: int)
    requires
        bound >= 0,
        forall|k: int| 0 <= k < s.len() ==> -bound <= (#[trigger] s[k]).1 <= bound,
    ensures
        -bound <= listed_weight(s, tag) <= bound,
    decreases s.len(),
{
    if s.len() > 0 {
        let t = s.drop_last();
        assert forall|k: int| 0 <= k < t.len() implies -bound <= (#[trigger] t[k]).1 <= bound by {
            assert(t[k] == s[k]);
        }
        assert(s.last() == s[s.len() - 1]);
        lemma_bounded(t, tag, bound);
    }
}

// ---------------------------------------------------------------------------
// Tables
// ---------------------------------------------------------------------------

/// A row of the table of ratings.
pub struct FeedbackRow {
    pub id: i64,
    pub slug: String,
    pub verdict: String,
    pub game_version: String,
    pub loader: String,
    pub source: String,
    pub timestamp: String,
}

/// A row of the table of packs.
pub struct PackRow {
    pub id: i64,
    pub name: String,
    pub created_at: String,
}

/// A row of the table of the mods of packs.
pub struct ModRow {
    pub pack_id: i64,
    pub position: i64,
    pub slug: String,
}

/// The rows of all tables: ratings and packs by ascending id, the mods of a pack by ascending
/// position, tags in any order.
pub struct TableRows {
    pub feedback: Vec<FeedbackRow>,
    pub tags: Vec<(i64, String)>,
    pub packs: Vec<PackRow>,
    pub mods: Vec<ModRow>,
}

/// A tag with the id of its rating, or a mod with the id of its pack.
pub type Link = (i64, Seq<char>);

/// The views of the rows of tags.
pub open spec fn tag_rows(s: Seq<(i64, String)>) -> Seq<Link> {
    s.map_values(|p: (i64, String)| (p.0, p.1@))
}

/// The views of the rows of mods.
pub open spec fn mod_rows(s: Seq<ModRow>) -> Seq<Link> {
    s.map_values(|m: ModRow| (m.pack_id, m.slug@))
}

/// The texts that are linked to an id, in their order.
pub open spec fn linked(s: Seq<Link>, id: i64) -> Seq<Seq<char>>
    decreases s.len(),
{
    if s.len() == 0 {
        Seq::empty()
    } else if s.last().0 == id {
        linked(s.drop_last(), id).push(s.last().1)
    } else {
        linked(s.drop_last(), id)
    }
}

/// Whether no row before the one at `i` has its id.
pub open spec fn is_first(rows: Seq<FeedbackRow>, i: int) -> bool {
    forall|j: int| 0 <= j < i ==> (#[trigger] rows[j]).id != rows[i].id
}

/// The rating of a row, with the tags that are linked to it.
pub open spec fn row_rating(rows: Seq<FeedbackRow>, tags: Seq<Link>, i: int) -> FeedbackView {
    FeedbackView {
        slug: rows[i].slug@,
        verdict: rows[i].verdict@,
        tags: if is_first(rows, i) {
            linked(tags, rows[i].id)
        } else {
            Seq::empty()
        },
        game_version: rows[i].game_version@,
        loader: rows[i].loader@,
        source: rows[i].source@,
        timestamp: rows[i].timestamp@,
    }
}

impl TableRows {
    /// The ratings that the rows hold.
    pub open spec fn ratings(self) -> Seq<FeedbackView> {
        Seq::new(
            self.feedback@.len(),
            |i: int| row_rating(self.feedback@, tag_rows(self.tags@), i),
        )
    }

    /// The packs that the rows hold.
    pub open spec fn packs(self) -> Seq<PackView> {
        self.packs@.map_values(
            |p: PackRow|
                PackView {
                    name: p.name@,
                    mod_slugs: linked(mod_rows(self.mods@), p.id),
                    created_at: p.created_at@,
                },
        )
    }
}

fn linked_tags(rows: &Vec<(i64, String)>, id: i64) -> (r: Vec<String>)
    ensures
        views(r@) == linked(tag_rows(rows@), id),
{
    let ghost all = tag_rows(rows@);
    let mut r: Vec<String> = Vec::new();
    assert(all.take(0) =~= Seq::<Link>::empty());
    assert(views(r@) =~= Seq::<Seq<char>>::empty());
    for i in 0..rows.len()
        invariant
            all == tag_rows(rows@),
            views(r@) == linked(all.take(i as int), id),
    {
        assert(all.take(i + 1).drop_last() =~= all.take(i as int));
        assert(all[i as int] == (rows@[i as int].0, rows@[i as int].1@));
        if rows[i].0 == id {
            proof {
                lemma_views_push(r@, rows@[i as int].1);
            }
            let ghost was = r@;
            r.push(rows[i].1.clone());
            assert(views(r@) =~= views(was).push(rows@[i as int].1@));
        }
    }
    assert(all.take(rows@.len() as int) =~= all);
    r
}

fn linked_mods(rows: &Vec<ModRow>, id: i64) -> (r: Vec<String>)
    ensures
        views(r@) == linked(mod_rows(rows@), id),
{
    let ghost all = mod_rows(rows@);
    let mut r: Vec<String> = Vec::new();
    assert(all.take(0) =~= Seq::<Link>::empty());
    assert(views(r@) =~= Seq::<Seq<char>>::empty());
    for i in 0..rows.len()
        invariant
            all == mod_rows(rows@),
            views(r@) == linked(all.take(i as int), id),
    {
        assert(all.take(i + 1).drop_last() =~= all.take(i as int));
        assert(all[i as int] == (rows@[i as int].pack_id, rows@[i as int].slug@));
        if rows[i].pack_id == id {
            let ghost was = r@;
            r.push(rows[i].slug.clone());
            assert(views(r@) =~= views(was).push(rows@[i as int].slug@));
        }
    }
    assert(all.take(rows@.len() as int) =~= all);
    r
}

fn first_with_id(rows: &Vec<FeedbackRow>, i: usize) -> (r: bool)
    requires
        i < rows@.len(),
    ensures
        r == is_first(rows@, i as int),
{
    for j in 0..i
        invariant
            i < rows@.len(),
            forall|k: int| 0 <= k < j ==> (#[trigger] rows@[k]).id != rows@[i as int].id,
    {
        if rows[j].id == rows[i].id {
            return false;
        }
    }
    true
}

/// The rows of tags of ratings that are numbered from 1.
pub open spec fn saved_tags(feedback: Seq<FeedbackView>) -> Seq<Link>
    decreases feedback.len(),
{
    if feedback.len() == 0 {
        Seq::empty()
    } else {
        saved_tags(feedback.drop_last()) + feedback.last().tags.map_values(
            |t: Seq<char>| (feedback.len() as i64, t),
        )
    }
}

/// The rows of mods of packs that are numbered from 1.
pub open spec fn saved_mods(packs: Seq<PackView>) -> Seq<Link>
    decreases packs.len(),
{
    if packs.len() == 0 {
        Seq::empty()
    } else {
        saved_mods(packs.drop_last()) + packs.last().mod_slugs.map_values(
            |t: Seq<char>| (packs.len() as i64, t),
        )
    }
}

/// The positions of mods in their packs, counted from 0.
pub open spec fn saved_positions(packs: Seq<PackView>) -> Seq<i64>
    decreases packs.len(),
{
    if packs.len() == 0 {
        Seq::empty()
    } else {
        saved_positions(packs.drop_last()) + Seq::new(
            packs.last().mod_slugs.len(),
            |j: int| j as i64,
        )
    }
}

/// The positions of rows of mods.
pub open spec fn row_positions(s: Seq<ModRow>) -> Seq<i64> {
    s.map_values(|m: ModRow| m.position)
}

impl UserDatabase {
    /// The database with what the rows hold. Where there are none, because they could not be
    /// read, it is empty.
    pub fn load(path: &str, rows: Option<&TableRows>) -> (r: UserDatabase)
        ensures
            r.storage_path@ == path@,
            r.ratings() == (match rows {
                Some(t) => t.ratings(),
                None => Seq::empty(),
            }),
            pack_views(r.packs@) == (match rows {
                Some(t) => t.packs(),
                None => Seq::empty(),
            }),
    {
        let mut feedback: Vec<FeedbackRecord> = Vec::new();
        let mut packs: Vec<PackRecord> = Vec::new();
        match rows {
            Some(t) => {
                for i in 0..t.feedback.len()
                    invariant
                        feedback_views(feedback@) == t.ratings().take(i as int),
                {
                    let row = &t.feedback[i];
                    let tags = if first_with_id(&t.feedback, i) {
                        linked_tags(&t.tags, row.id)
                    } else {
                        Vec::new()
                    };
                    let ghost was = feedback_views(feedback@);
                    let f = FeedbackRecord {
                        slug: row.slug.clone(),
                        verdict: row.verdict.clone(),
                        tags,
                        game_version: row.game_version.clone(),
                        loader: row.loader.clone(),
                        source: row.source.clone(),
                        timestamp: row.timestamp.clone(),
                    };
                    assert(f@ =~= row_rating(t.feedback@, tag_rows(t.tags@), i as int));
                    let ghost fv = f@;
                    feedback.push(f);
                    assert(feedback_views(feedback@) =~= was.push(fv));
                    assert(t.ratings().take(i + 1) =~= t.ratings().take(i as int).push(
                        t.ratings()[i as int],
                    ));
                }
                assert(t.ratings().take(t.feedback@.len() as int) =~= t.ratings());
                for i in 0..t.packs.len()
                    invariant
                        pack_views(packs@) == t.packs().take(i as int),
                {
                    let ghost was = pack_views(packs@);
                    let p = PackRecord {
                        name: t.packs[i].name.clone(),
                        mod_slugs: linked_mods(&t.mods, t.packs[i].id),
                        created_at: t.packs[i].created_at.clone(),
                    };
                    assert(p@ =~= t.packs()[i as int]);
                    let ghost pv = p@;
                    packs.push(p);
                    assert(pack_views(packs@) =~= was.push(pv));
                    assert(t.packs().take(i + 1) =~= t.packs().take(i as int).push(
                        t.packs()[i as int],
                    ));
                }
                assert(t.packs().take(t.packs@.len() as int) =~= t.packs());
            },
            None => {
                assert(feedback_views(feedback@) =~= Seq::<FeedbackView>::empty());
                assert(pack_views(packs@) =~= Seq::<PackView>::empty());
            },
        }
        UserDatabase { feedback, packs, storage_path: path.to_string() }
    }

    /// Whether the rows can be numbered.
    pub open spec fn is_storable(self) -> bool {
        &&& self.feedback@.len() < i64::MAX
        &&& self.packs@.len() < i64::MAX
        &&& forall|i: int|
            0 <= i < self.packs@.len() ==> (#[trigger] self.packs@[i]).mod_slugs@.len() < i64::MAX
    }

    /// The rows to store: ratings and packs numbered from 1, mods by their position from 0.
    pub fn save(&self) -> (r: TableRows)
        requires
            self.is_storable(),
        ensures
            is_saved(r, self.ratings(), pack_views(self.packs@)),
    {
        let ghost fb = self.ratings();
        let ghost pk = pack_views(self.packs@);
        let mut feedback: Vec<FeedbackRow> = Vec::new();
        let mut tags: Vec<(i64, String)> = Vec::new();
        assert(fb.take(0) =~= Seq::<FeedbackView>::empty());
        assert(tag_rows(tags@) =~= Seq::<Link>::empty());
        for i in 0..self.feedback.len()
            invariant
                self.is_storable(),
                fb == self.ratings(),
                feedback@.len() == i,
                forall|k: int|
                    0 <= k < i ==> {
                        let row = #[trigger] feedback@[k];
                        let f = fb[k];
                        &&& row.id == k + 1
                        &&& row.slug@ == f.slug
                        &&& row.verdict@ == f.verdict
                        &&& row.game_version@ == f.game_version
                        &&& row.loader@ == f.loader
                        &&& row.source@ == f.source
                        &&& row.timestamp@ == f.timestamp
                    },
                tag_rows(tags@) == saved_tags(fb.take(i as int)),
        {
            let f = &self.feedback[i];
            let id: i64 = i as i64 + 1;
            assert(fb[i as int] == f@);
            feedback.push(
                FeedbackRow {
                    id,
                    slug: f.slug.clone(),
                    verdict: f.verdict.clone(),
                    game_version: f.game_version.clone(),
                    loader: f.loader.clone(),
                    source: f.source.clone(),
                    timestamp: f.timestamp.clone(),
                },
            );
            let ghost was = tag_rows(tags@);
            let ghost tv = views(f.tags@);
            assert(was + tv.take(0).map_values(|t: Seq<char>| (id, t)) =~= was);
            for j in 0..f.tags.len()
                invariant
                    tv == views(f.tags@),
                    tag_rows(tags@) == was + tv.take(j as int).map_values(
                        |t: Seq<char>| (id, t),
                    ),
            {
                let ghost before = tag_rows(tags@);
                tags.push((id, f.tags[j].clone()));
                assert(tag_rows(tags@) =~= before.push((id, tv[j as int])));
                assert(tv.take(j + 1).map_values(|t: Seq<char>| (id, t)) =~= tv.take(
                    j as int,
                ).map_values(|t: Seq<char>| (id, t)).push((id, tv[j as int])));
                assert(tag_rows(tags@) =~= was + tv.take(j + 1).map_values(
                    |t: Seq<char>| (id, t),
                ));
            }
            assert(tv.take(f.tags@.len() as int) =~= tv);
            assert(fb.take(i + 1).drop_last() =~= fb.take(i as int));
        }
        assert(fb.take(self.feedback@.len() as int) =~= fb);
        let mut packs: Vec<PackRow> = Vec::new();
        let mut mods: Vec<ModRow> = Vec::new();
        assert(pk.take(0) =~= Seq::<PackView>::empty());
        assert(mod_rows(mods@) =~= Seq::<Link>::empty());
        assert(row_positions(mods@) =~= Seq::<i64>::empty());
        for i in 0..self.packs.len()
            invariant
                self.is_storable(),
                pk == pack_views(self.packs@),
                packs@.len() == i,
                forall|k: int|
                    0 <= k < i ==> {
                        let row = #[trigger] packs@[k];
                        let p = pk[k];
                        &&& row.id == k + 1
                        &&& row.name@ == p.name
                        &&& row.created_at@ == p.created_at
                    },
                mod_rows(mods@) == saved_mods(pk.take(i as int)),
                row_positions(mods@) == saved_positions(pk.take(i as int)),
        {
            let p = &self.packs[i];
            let id: i64 = i as i64 + 1;
            assert(pk[i as int] == p@);
            packs.push(PackRow { id, name: p.name.clone(), created_at: p.created_at.clone() });
            let ghost was = mod_rows(mods@);
            let ghost were = row_positions(mods@);
            assert(were + Seq::new(0, |k: int| k as i64) =~= were);
            let ghost sv = views(p.mod_slugs@);
            assert(was + sv.take(0).map_values(|t: Seq<char>| (id, t)) =~= was);
            for j in 0..p.mod_slugs.len()
                invariant
                    p.mod_slugs@.len() < i64::MAX,
                    sv == views(p.mod_slugs@),
                    mod_rows(mods@) == was + sv.take(j as int).map_values(
                        |t: Seq<char>| (id, t),
                    ),
                    row_positions(mods@) == were + Seq::new(j as nat, |k: int| k as i64),
            {
                let ghost before = mod_rows(mods@);
                let ghost positions = row_positions(mods@);
                mods.push(
                    ModRow { pack_id: id, position: j as i64, slug: p.mod_slugs[j].clone() },
                );
                assert(mod_rows(mods@) =~= before.push((id, sv[j as int])));
                assert(row_positions(mods@) =~= positions.push(j as i64));
                assert(Seq::new((j + 1) as nat, |k: int| k as i64) =~= Seq::new(
                    j as nat,
                    |k: int| k as i64,
                ).push(j as i64));
                assert(row_positions(mods@) =~= were + Seq::new(
                    (j + 1) as nat,
                    |k: int| k as i64,
                ));
                assert(sv.take(j + 1).map_values(|t: Seq<char>| (id, t)) =~= sv.take(
                    j as int,
                ).map_values(|t: Seq<char>| (id, t)).push((id, sv[j as int])));
                assert(mod_rows(mods@) =~= was + sv.take(j + 1).map_values(
                    |t: Seq<char>| (id, t),
                ));
            }
            assert(sv.take(p.mod_slugs@.len() as int) =~= sv);
            assert(pk.take(i + 1).drop_last() =~= pk.take(i as int));
        }
        assert(pk.take(self.packs@.len() as int) =~= pk);
        TableRows { feedback, tags, packs, mods }
    }
}

// ---------------------------------------------------------------------------
// Laws of storing
// ---------------------------------------------------------------------------

proof fn lemma_linked_append(s: Seq<Link>, id: i64, texts: Seq<Seq<char>>, other: i64)
    ensures
        linked(s + texts.map_values(|t: Seq<char>| (id, t)), other) == (if other == id {
            linked(s, other) + texts
        } else {
            linked(s, other)
        }),
    decreases texts.len(),
{
    let m = texts.map_values(|t: Seq<char>| (id, t));
    if texts.len() == 0 {
        assert(s + m =~= s);
        assert(linked(s, other) + texts =~= linked(s, other));
    } else {
        let t1 = texts.drop_last();
        lemma_linked_append(s, id, t1, other);
        assert((s + m).drop_last() =~= s + t1.map_values(|t: Seq<char>| (id, t)));
        assert(linked(s, other) + texts =~= (linked(s, other) + t1).push(texts.last()));
    }
}

proof fn lemma_saved_tags(feedback: Seq<FeedbackView>, id: i64)
    requires
        feedback.len() < i64::MAX,
    ensures
        linked(saved_tags(feedback), id) == (if 1 <= id <= feedback.len() {
            feedback[id - 1].tags
        } else {
            Seq::empty()
        }),
    decreases feedback.len(),
{
    if feedback.len() > 0 {
        let f = feedback.drop_last();
        lemma_saved_tags(f, id);
        lemma_linked_append(saved_tags(f), feedback.len() as i64, feedback.last().tags, id);
        assert(Seq::<Seq<char>>::empty() + feedback.last().tags =~= feedback.last().tags);
    }
}

proof fn lemma_saved_mods(packs: Seq<PackView>, id: i64)
    requires
        packs.len() < i64::MAX,
    ensures
        linked(saved_mods(packs), id) == (if 1 <= id <= packs.len() {
            packs[id - 1].mod_slugs
        } else {
            Seq::empty()
        }),
    decreases packs.len(),
{
    if packs.len() > 0 {
        let p = packs.drop_last();
        lemma_saved_mods(p, id);
        lemma_linked_append(saved_mods(p), packs.len() as i64, packs.last().mod_slugs, id);
        assert(Seq::<Seq<char>>::empty() + packs.last().mod_slugs =~= packs.last().mod_slugs);
    }
}

/// Whether rows are those that a database with the given ratings and packs stores.
pub open spec fn is_saved(rows: TableRows, ratings: Seq<FeedbackView>, packs: Seq<PackView>) -> bool {
    &&& rows.feedback@.len() == ratings.len()
    &&& forall|i: int|
        0 <= i < ratings.len() ==> {
            let row = #[trigger] rows.feedback@[i];
            let f = ratings[i];
            &&& row.id == i + 1
            &&& row.slug@ == f.slug
            &&& row.verdict@ == f.verdict
            &&& row.game_version@ == f.game_version
            &&& row.loader@ == f.loader
            &&& row.source@ == f.source
            &&& row.timestamp@ == f.timestamp
        }
    &&& tag_rows(rows.tags@) == saved_tags(ratings)
    &&& rows.packs@.len() == packs.len()
    &&& forall|i: int|
        0 <= i < packs.len() ==> {
            let row = #[trigger] rows.packs@[i];
            &&& row.id == i + 1
            &&& row.name@ == packs[i].name
            &&& row.created_at@ == packs[i].created_at
        }
    &&& mod_rows(rows.mods@) == saved_mods(packs)
    &&& row_positions(rows.mods@) == saved_positions(packs)
}

/// What was stored is read back: the same ratings with the same tags, and the same packs with
/// the same mods in the same order.
pub proof fn lemma_saved_reads_back(
    rows: TableRows,
    ratings: Seq<FeedbackView>,
    packs: Seq<PackView>,
)
    requires
        ratings.len() < i64::MAX,
        packs.len() < i64::MAX,
        is_saved(rows, ratings, packs),
    ensures
        rows.ratings() == ratings,
        rows.packs() == packs,
{
    assert forall|i: int| 0 <= i < ratings.len() implies #[trigger] rows.ratings()[i]
        == ratings[i] by {
        assert(rows.feedback@[i].id == i + 1);
        assert(is_first(rows.feedback@, i));
        lemma_saved_tags(ratings, (i + 1) as i64);
        assert(rows.ratings()[i] =~= ratings[i]);
    }
    assert(rows.ratings() =~= ratings);
    assert forall|i: int| 0 <= i < packs.len() implies #[trigger] rows.packs()[i] == packs[i] by {
        assert(rows.packs@[i].id == i + 1);
        lemma_saved_mods(packs, (i + 1) as i64);
        assert(rows.packs()[i] =~= packs[i]);
    }
    assert(rows.packs() =~= packs);
}

proof fn lemma_linked_multiset(s: Seq<Link>, id: i64, t: Seq<char>)
    ensures
        linked(s, id).to_multiset().count(t) == s.to_multiset().count((id, t)),
    decreases s.len(),
{
    broadcast use vstd::seq_lib::group_to_multiset_ensures;

    if s.len() > 0 {
        let r = s.drop_last();
        lemma_linked_multiset(r, id, t);
        assert(s =~= r.push(s.last()));
    } else {
        assert(linked(s, id) =~= Seq::<Seq<char>>::empty());
    }
}

/// The order in which rows of tags come does not matter: a rating has the same tags, each as
/// often.
pub proof fn lemma_tag_order_is_free(a: Seq<Link>, b: Seq<Link>, id: i64)
    requires
        a.to_multiset() == b.to_multiset(),
    ensures
        linked(a, id).to_multiset() == linked(b, id).to_multiset(),
{
    assert forall|t: Seq<char>| linked(a, id).to_multiset().count(t) == linked(
        b,
        id,
    ).to_multiset().count(t) by {
        lemma_linked_multiset(a, id, t);
        lemma_linked_multiset(b, id, t);
    }
    assert(linked(a, id).to_multiset() =~= linked(b, id).to_multiset());
}

/// A new rating moves the weight of each of its tags by one, up for a like and down otherwise,
/// and leaves all other weights as they were.
pub proof fn lemma_rating_moves_weights(
    feedback: Seq<FeedbackView>,
    f: FeedbackView,
    tag: Seq<char>,
)
    requires
        f.tags.no_duplicates(),
    ensures
        weight_of(feedback.push(f), tag) == weight_of(feedback, tag) + (if f.tags.contains(tag) {
            delta(f.verdict)
        } else {
            0
        }),
{
    assert(feedback.push(f).drop_last() =~= feedback);
    lemma_occurrences(f.tags, tag);
    lemma_occurs_once(f.tags, tag);
}

pub(crate) proof fn lemma_occurs_once(tags: Seq<Seq<char>>, tag: Seq<char>)
    requires
        tags.no_duplicates(),
    ensures
        occurrences(tags, tag) <= 1,
    decreases tags.len(),
{
    if tags.len() > 0 {
        let t = tags.drop_last();
        lemma_occurs_once(t, tag);
        lemma_occurrences(t, tag);
        if tags.last() == tag && t.contains(tag) {
            let i = choose|i: int| 0 <= i < t.len() && t[i] == tag;
            assert(tags[i] == tags[tags.len() - 1]);
        }
    }
}

} // verus!

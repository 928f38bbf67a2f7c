//! Laws of the conversation: how streamed replies are put together, and what is sent.

use vstd::prelude::*;

#[allow(unused_imports)]
use crate::json::{json_parsed, JsonNumber, JsonView};
#[allow(unused_imports)]
use crate::laws::texts::{lemma_begins_with, lemma_trim_takes_the_ends};
#[allow(unused_imports)]
use crate::llm::{
    event_of_line, extended, find_part, finished_message, function_str, lemma_find_part,
    lemma_upsert_then_find, no_progress, part_at, part_or_empty, upserted, with_event,
    with_fragment, with_fragments, with_lines, Progress,
};
#[allow(unused_imports)]
use crate::text::{is_whitespace, starts_with_spec};

verus! {

/// The text that is found at an index is the first that stands there; nothing is found where none
/// does.
pub proof fn lemma_text_at_index(s: Seq<(usize, Seq<char>)>, idx: usize, i: int)
    ensures
        0 <= i < s.len() && s[i].0 == idx && (forall|j: int|
            0 <= j < i ==> (#[trigger] s[j]).0 != idx) ==> part_at(s, idx) == Some(s[i].1),
        (forall|j: int| 0 <= j < s.len() ==> (#[trigger] s[j]).0 != idx) ==> part_at(s, idx) is None,
{
    lemma_find_part(s, idx);
    let k = find_part(s, idx);
    if 0 <= i < s.len() && s[i].0 == idx && (forall|j: int|
        0 <= j < i ==> (#[trigger] s[j]).0 != idx) {
        if k < i {
            assert(s[k].0 != idx);
        }
        assert(s[i].0 == idx);
    }
}

proof fn lemma_extended_at(s: Seq<(usize, Seq<char>)>, n: usize, v: Seq<char>, m: usize)
    ensures
        part_at(extended(s, n, v), n) == Some(part_or_empty(s, n) + v),
        m != n ==> part_at(extended(s, n, v), m) == part_at(s, m),
{
    lemma_find_part(s, n);
    match part_at(s, n) {
        Some(t) => {
            lemma_upsert_then_find(s, n, t + v, m);
        },
        None => {
            lemma_upsert_then_find(s, n, v, m);
            assert(extended(s, n, v) == upserted(s, n, v));
            assert(part_or_empty(s, n) + v =~= v);
        },
    }
}

/// A fragment of a tool call changes the call with its index: the id and the name become those of
/// the fragment, where it has them, and its arguments are appended. The calls with other indices
/// stay as they were, and so does all else.
pub proof fn lemma_fragment_changes_its_call(p: Progress, tc: JsonView, n: usize, m: usize)
    requires
        tc.get("index"@) == Some(JsonView::Number(JsonNumber::Unsigned(n as u64))) || (
        tc.get("index"@) is None && n == 0),
        m != n,
    ensures
        ({
            let q = with_fragment(p, tc);
            &&& part_at(q.ids, n) == (match tc.get("id"@) {
                Some(JsonView::Str(id)) => Some(id),
                _ => part_at(p.ids, n),
            })
            &&& (tc.get("function"@) matches Some(f) ==> part_at(q.names, n) == (match f.get(
                "name"@,
            ) {
                Some(JsonView::Str(name)) => Some(name),
                _ => part_at(p.names, n),
            }))
            &&& (tc.get("function"@) matches Some(f) ==> part_at(q.args, n) == (match f.get(
                "arguments"@,
            ) {
                Some(JsonView::Str(a)) => Some(
                    (match part_at(p.args, n) {
                        Some(before) => before,
                        None => Seq::empty(),
                    }) + a,
                ),
                _ => part_at(p.args, n),
            }))
            &&& (tc.get("function"@) is None ==> q.names == p.names && q.args == p.args)
            &&& part_at(q.ids, m) == part_at(p.ids, m)
            &&& part_at(q.names, m) == part_at(p.names, m)
            &&& part_at(q.args, m) == part_at(p.args, m)
            &&& q.content == p.content
            &&& q.usage == p.usage
            &&& q.deltas == p.deltas
        }),
{
    match tc.str_at("id"@) {
        Some(s) => lemma_upsert_then_find(p.ids, n, s, m),
        None => {},
    }
    match function_str(tc, "name"@) {
        Some(s) => lemma_upsert_then_find(p.names, n, s, m),
        None => {},
    }
    match function_str(tc, "arguments"@) {
        Some(s) => lemma_extended_at(p.args, n, s, m),
        None => {},
    }
}

/// Whether a fragment belongs to the call with an index.
pub open spec fn is_of(tc: JsonView, n: usize) -> bool {
    match tc.get("index"@) {
        Some(JsonView::Number(JsonNumber::Unsigned(k))) => k as usize == n,
        _ => n == 0,
    }
}

/// The text that a fragment gives for a part of its function.
pub open spec fn given(tc: JsonView, k: Seq<char>) -> Option<Seq<char>> {
    match tc.get("function"@) {
        Some(f) => match f.get(k) {
            Some(JsonView::Str(s)) => Some(s),
            _ => None,
        },
        None => None,
    }
}

/// Whether the fragment at `j` is the last of the call `n` that gives a part.
pub open spec fn is_last_to_give(tcs: Seq<JsonView>, n: usize, k: Seq<char>, j: int) -> bool {
    &&& 0 <= j < tcs.len() && is_of(tcs[j], n) && given(tcs[j], k) is Some
    &&& forall|i: int|
        j < i < tcs.len() && is_of(#[trigger] tcs[i], n) ==> given(tcs[i], k) is None
}

/// The arguments of a call are those of its own fragments, joined in their order, however the
/// fragments of other calls stand between them.
pub proof fn lemma_arguments_are_joined(p: Progress, tcs: Seq<JsonView>, n: usize)
    ensures
        part_or_empty(with_fragments(p, tcs).args, n) == part_or_empty(p.args, n) + tcs.filter(
            |tc: JsonView| is_of(tc, n),
        ).map_values(
            |tc: JsonView|
                match given(tc, "arguments"@) {
                    Some(a) => a,
                    None => Seq::empty(),
                },
        ).flatten(),
    decreases tcs.len(),
{
    let mine = |tc: JsonView| is_of(tc, n);
    let args = |tc: JsonView|
        match given(tc, "arguments"@) {
            Some(a) => a,
            None => Seq::<char>::empty(),
        };
    if tcs.len() == 0 {
        reveal(Seq::filter);
        assert(tcs.filter(mine).map_values(args) =~= Seq::<Seq<char>>::empty());
        assert(tcs.filter(mine).map_values(args).flatten() =~= Seq::<char>::empty());
        assert(part_or_empty(p.args, n) + Seq::<char>::empty() =~= part_or_empty(p.args, n));
    } else {
        let d = tcs.drop_last();
        let tc = tcs.last();
        lemma_arguments_are_joined(p, d, n);
        let q = with_fragments(p, d);
        broadcast use Seq::lemma_filter_push;

        assert(tcs =~= d.push(tc));
        let own = d.filter(mine);
        let k: usize = match tc.u64_at("index"@) {
            Some(x) => x as usize,
            None => 0,
        };
        match function_str(tc, "arguments"@) {
            Some(s) => {
                lemma_extended_at(q.args, k, s, n);
                lemma_extended_at(q.args, k, s, k);
            },
            None => {},
        }
        if mine(tc) {
            let before = own.map_values(args);
            assert(own.push(tc).map_values(args) =~= before.push(args(tc)));
            before.lemma_flatten_push(args(tc));
            assert(part_or_empty(p.args, n) + (before.flatten() + args(tc)) =~= (part_or_empty(
                p.args,
                n,
            ) + before.flatten()) + args(tc));
            if given(tc, "arguments"@) is None {
                assert(before.flatten() + args(tc) =~= before.flatten());
            }
        }
    }
}

/// The name of a call is the one that its own fragments give, the last where several do; a call
/// whose fragments give no name has none.
pub proof fn lemma_name_is_of_its_fragments(tcs: Seq<JsonView>, n: usize, j: int)
    ensures
        is_last_to_give(tcs, n, "name"@, j) ==> part_at(
            with_fragments(no_progress(), tcs).names,
            n,
        ) == given(tcs[j], "name"@),
        (forall|i: int|
            0 <= i < tcs.len() && is_of(#[trigger] tcs[i], n) ==> given(tcs[i], "name"@) is None)
            ==> part_at(with_fragments(no_progress(), tcs).names, n) is None,
    decreases tcs.len(),
{
    if tcs.len() > 0 {
        let d = tcs.drop_last();
        let tc = tcs.last();
        lemma_name_is_of_its_fragments(d, n, j);
        let q = with_fragments(no_progress(), d);
        let k: usize = match tc.u64_at("index"@) {
            Some(x) => x as usize,
            None => 0,
        };
        match function_str(tc, "name"@) {
            Some(s) => {
                lemma_upsert_then_find(q.names, k, s, n);
            },
            None => {},
        }
        assert(forall|i: int| 0 <= i < d.len() ==> d[i] == tcs[i]);
    } else {
        lemma_text_at_index(no_progress().names, n, 0);
    }
}

/// The id of a call is the one that its own fragments give, the last where several do.
pub proof fn lemma_id_is_of_its_fragments(tcs: Seq<JsonView>, n: usize, j: int)
    requires
        0 <= j < tcs.len(),
        is_of(tcs[j], n),
        tcs[j].get("id"@) matches Some(JsonView::Str(_)),
        forall|i: int|
            j < i < tcs.len() && is_of(#[trigger] tcs[i], n) ==> !(tcs[i].get("id"@) matches Some(
                JsonView::Str(_),
            )),
    ensures
        tcs[j].get("id"@) == Some(
            JsonView::Str(part_or_empty(with_fragments(no_progress(), tcs).ids, n)),
        ),
    decreases tcs.len(),
{
    let d = tcs.drop_last();
    let tc = tcs.last();
    let q = with_fragments(no_progress(), d);
    let k: usize = match tc.u64_at("index"@) {
        Some(x) => x as usize,
        None => 0,
    };
    if j < d.len() {
        assert(forall|i: int| 0 <= i < d.len() ==> d[i] == tcs[i]);
        lemma_id_is_of_its_fragments(d, n, j);
    }
    match tc.str_at("id"@) {
        Some(s) => {
            lemma_upsert_then_find(q.ids, k, s, n);
        },
        None => {},
    }
}

proof fn lemma_upserted_indices(s: Seq<(usize, Seq<char>)>, n: usize, v: Seq<char>)
    requires
        forall|i: int, j: int| 0 <= i < j < s.len() ==> (#[trigger] s[i]).0 != (#[trigger] s[j]).0,
    ensures
        ({
            let r = upserted(s, n, v);
            &&& forall|i: int, j: int|
                0 <= i < j < r.len() ==> (#[trigger] r[i]).0 != (#[trigger] r[j]).0
            &&& exists|i: int| 0 <= i < r.len() && (#[trigger] r[i]).0 == n
            &&& forall|i: int| 0 <= i < s.len() ==> (#[trigger] r[i]).0 == s[i].0
            &&& s.len() <= r.len() <= s.len() + 1
            &&& forall|i: int| s.len() <= i < r.len() ==> (#[trigger] r[i]).0 == n
        }),
{
    lemma_find_part(s, n);
    let r = upserted(s, n, v);
    assert(r[find_part(s, n)].0 == n);
}

/// There is one call for each index at which a fragment gives a name, and no other: no index
/// comes twice among the names, each comes from a fragment, and that of each fragment with a name
/// is there.
pub proof fn lemma_one_call_for_each_index(tcs: Seq<JsonView>)
    ensures
        ({
            let names = with_fragments(no_progress(), tcs).names;
            &&& forall|i: int, j: int|
                0 <= i < j < names.len() ==> (#[trigger] names[i]).0 != (#[trigger] names[j]).0
            &&& forall|i: int|
                0 <= i < names.len() ==> exists|j: int|
                    0 <= j < tcs.len() && is_of(#[trigger] tcs[j], (#[trigger] names[i]).0)
                        && given(tcs[j], "name"@) is Some
            &&& forall|j: int, n: usize|
                0 <= j < tcs.len() && #[trigger] is_of(tcs[j], n) && given(tcs[j], "name"@) is Some
                    ==> exists|i: int| 0 <= i < names.len() && (#[trigger] names[i]).0 == n
        }),
    decreases tcs.len(),
{
    let names = with_fragments(no_progress(), tcs).names;
    if tcs.len() > 0 {
        let d = tcs.drop_last();
        let tc = tcs.last();
        lemma_one_call_for_each_index(d);
        let before = with_fragments(no_progress(), d).names;
        let k: usize = match tc.u64_at("index"@) {
            Some(x) => x as usize,
            None => 0,
        };
        assert(is_of(tcs[tcs.len() - 1], k));
        match function_str(tc, "name"@) {
            Some(s) => {
                lemma_upserted_indices(before, k, s);
            },
            None => {},
        }
        assert(forall|i: int| 0 <= i < d.len() ==> d[i] == tcs[i]);
        assert forall|i: int| 0 <= i < names.len() implies exists|j: int|
            0 <= j < tcs.len() && is_of(#[trigger] tcs[j], (#[trigger] names[i]).0) && given(
                tcs[j],
                "name"@,
            ) is Some by {
            if i < before.len() {
                assert(names[i].0 == before[i].0);
                let j = choose|j: int|
                    0 <= j < d.len() && is_of(#[trigger] d[j], before[i].0) && given(d[j], "name"@)
                        is Some;
                assert(is_of(tcs[j], names[i].0));
            } else {
                assert(is_of(tcs[tcs.len() - 1], names[i].0));
            }
        }
        assert forall|j: int, n: usize|
            0 <= j < tcs.len() && #[trigger] is_of(tcs[j], n) && given(tcs[j], "name"@)
                is Some implies exists|i: int|
            0 <= i < names.len() && (#[trigger] names[i]).0 == n by {
            if j < d.len() {
                assert(is_of(d[j], n));
                let i = choose|i: int| 0 <= i < before.len() && (#[trigger] before[i]).0 == n;
                assert(names[i].0 == before[i].0);
            } else {
                assert(n == k);
            }
        }
    }
}

/// A finished reply has one call for each name that was read, with the id and the arguments that
/// were read at the same index, and a call without them has empty ones. Its text is the text that
/// was read; without text, a reply that calls tools has none.
pub proof fn lemma_finished_reply(p: Progress, i: int)
    requires
        0 <= i < p.names.len(),
    ensures
        finished_message(p).tool_calls matches Some(calls) && {
            &&& calls.len() == p.names.len()
            &&& calls[i].name == p.names[i].1
            &&& calls[i].call_type == "function"@
            &&& (part_at(p.ids, p.names[i].0) matches Some(id) ==> calls[i].id == id)
            &&& (part_at(p.ids, p.names[i].0) is None ==> calls[i].id.len() == 0)
            &&& (part_at(p.args, p.names[i].0) matches Some(a) ==> calls[i].arguments == a)
            &&& (part_at(p.args, p.names[i].0) is None ==> calls[i].arguments.len() == 0)
        },
        finished_message(p).content == (if p.content.len() == 0 {
            None
        } else {
            Some(p.content)
        }),
        finished_message(p).role == "assistant"@,
        finished_message(p).tool_call_id is None,
{
}

/// A finished reply without names calls no tool and has the text that was read.
pub proof fn lemma_finished_text(p: Progress)
    requires
        p.names.len() == 0,
    ensures
        finished_message(p).tool_calls is None,
        finished_message(p).content == Some(p.content),
        finished_message(p).role == "assistant"@,
        finished_message(p).tool_call_id is None,
{
}

/// The effect of an event: its text is appended and handed on, unless it is empty; the fragments
/// of tool calls are taken in; the token counts are those that it names.
pub proof fn lemma_event_is_taken_in(p: Progress, v: JsonView, choices: Seq<JsonView>, d: JsonView)
    requires
        v.get("choices"@) == Some(JsonView::Array(choices)),
        choices.len() > 0,
        choices[0].get("delta"@) == Some(d),
    ensures
        ({
            let q = with_event(p, v);
            &&& (match d.get("content"@) {
                Some(JsonView::Str(t)) => q.content == p.content + t && q.deltas == (if t.len()
                    == 0 {
                    p.deltas
                } else {
                    p.deltas.push(t)
                }),
                _ => q.content == p.content && q.deltas == p.deltas,
            })
            &&& (match d.get("tool_calls"@) {
                Some(JsonView::Array(tcs)) => q.ids == with_fragments(p, tcs).ids && q.names
                    == with_fragments(p, tcs).names && q.args == with_fragments(p, tcs).args,
                _ => q.ids == p.ids && q.names == p.names && q.args == p.args,
            })
            &&& (v.get("usage"@) is None ==> q.usage == p.usage)
        }),
{
    let p1 = crate::llm::with_usage(p, v);
    let p2 = crate::llm::with_text(p1, d.str_at("content"@));
    match d.array_at("tool_calls"@) {
        Some(tcs) => {
            lemma_fragments_ignore_text(p, p2, tcs);
        },
        None => {},
    }
    match d.get("content"@) {
        Some(JsonView::Str(t)) => {
            if t.len() == 0 {
                assert(p.content + t =~= p.content);
            }
        },
        _ => {},
    }
}

proof fn lemma_fragments_ignore_text(p: Progress, q: Progress, tcs: Seq<JsonView>)
    requires
        p.ids == q.ids && p.names == q.names && p.args == q.args,
    ensures
        ({
            let a = with_fragments(p, tcs);
            let b = with_fragments(q, tcs);
            &&& a.ids == b.ids && a.names == b.names && a.args == b.args
            &&& b.content == q.content && b.usage == q.usage && b.deltas == q.deltas
        }),
    decreases tcs.len(),
{
    if tcs.len() > 0 {
        lemma_fragments_ignore_text(p, q, tcs.drop_last());
    }
}

/// The token counts of a reply are those that an event names last, and a count that it does not
/// name is zero.
pub proof fn lemma_counts_are_taken_over(
    p: Progress,
    v: JsonView,
    u: JsonView,
    a: u64,
    b: u64,
    c: u64,
)
    requires
        v.get("usage"@) == Some(u),
        u is Object,
        match u.get("prompt_tokens"@) {
            Some(x) => x == JsonView::Number(JsonNumber::Unsigned(a)),
            None => a == 0,
        },
        match u.get("completion_tokens"@) {
            Some(x) => x == JsonView::Number(JsonNumber::Unsigned(b)),
            None => b == 0,
        },
        match u.get("total_tokens"@) {
            Some(x) => x == JsonView::Number(JsonNumber::Unsigned(c)),
            None => c == 0,
        },
    ensures
        with_event(p, v).usage.prompt_tokens == a,
        with_event(p, v).usage.completion_tokens == b,
        with_event(p, v).usage.total_tokens == c,
{
    let p1 = crate::llm::with_usage(p, v);
    match crate::llm::delta_of(v) {
        Some(d) => {
            let p2 = crate::llm::with_text(p1, d.str_at("content"@));
            match d.array_at("tool_calls"@) {
                Some(tcs) => {
                    lemma_fragments_ignore_text(p2, p2, tcs);
                },
                None => {},
            }
        },
        None => {},
    }
}

/// A line `data:` with a JSON text behind it carries the event that the text denotes, whatever
/// blanks stand around it. The end mark carries none, and neither does a line without `data:`.
pub proof fn lemma_data_line(
    a: Seq<char>,
    b: Seq<char>,
    data: Seq<char>,
    c: Seq<char>,
    v: JsonView,
)
    requires
        forall|i: int| 0 <= i < a.len() ==> is_whitespace(#[trigger] a[i]),
        forall|i: int| 0 <= i < b.len() ==> is_whitespace(#[trigger] b[i]),
        forall|i: int| 0 <= i < c.len() ==> is_whitespace(#[trigger] c[i]),
        data.len() > 0,
        !is_whitespace(data[0]),
        !is_whitespace(data[data.len() - 1]),
    ensures
        data != "[DONE]"@ && json_parsed(data) == Ok::<JsonView, Seq<char>>(v) ==> event_of_line(
            a + "data:"@ + b + data + c,
        ) == Some(v),
        data == "[DONE]"@ ==> event_of_line(a + "data:"@ + b + data + c) is None,
        !starts_with_spec(data, "data:"@) ==> event_of_line(a + data + c) is None,
{
    reveal_strlit("data:");
    let t = "data:"@ + b + data;
    assert(t[0] == 'd');
    assert(t[t.len() - 1] == data[data.len() - 1]);
    lemma_trim_takes_the_ends(a, t, c);
    assert(a + "data:"@ + b + data + c =~= a + t + c);
    lemma_begins_with(t, "data:"@, b + data);
    assert(t =~= "data:"@ + (b + data));
    assert(t.skip(5) =~= b + data + Seq::empty());
    lemma_trim_takes_the_ends(b, data, Seq::empty());
    lemma_trim_takes_the_ends(a, data, c);
}

/// Lines are taken in one after the other.
pub proof fn lemma_lines_in_order(p: Progress, lines: Seq<Seq<char>>, line: Seq<char>)
    ensures
        with_lines(p, Seq::empty()) == p,
        with_lines(p, lines.push(line)) == (match event_of_line(line) {
            Some(v) => with_event(with_lines(p, lines), v),
            None => with_lines(p, lines),
        }),
{
    assert(lines.push(line).drop_last() =~= lines);
}

} // verus!

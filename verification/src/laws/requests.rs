//! Laws of requests: what the service is sent.

use vstd::prelude::*;

#[allow(unused_imports)]
use crate::config::{flaw, is_negative, thinking_entry_ok, thinking_ok, Config};
#[allow(unused_imports)]
use crate::json::{json_compact, json_parsed, object_map, JsonView};
#[allow(unused_imports)]
use crate::laws::texts::{lemma_cut_at_first, lemma_trim_takes_the_ends};
#[allow(unused_imports)]
use crate::llm::{
    at_top_level, message_tree, request_fields, request_text, scan, thinking_entries,
    thinking_fields, MessageView, Scan,
};
#[allow(unused_imports)]
use crate::text::{ascii_lower, is_whitespace, trim_spec};

verus! {

/// A request names the model, holds every message in its order, offers the tools where there are
/// some and leaves the choice to the model, and asks for a stream that ends with the token counts.
pub proof fn lemma_fields_of_a_request(
    model: Seq<char>,
    messages: Seq<MessageView>,
    tools: Option<Seq<JsonView>>,
    i: int,
)
    ensures
        ({
            let t = JsonView::Object(request_fields(model, messages, tools));
            &&& t.str_at("model"@) == Some(model)
            &&& (t.array_at("messages"@) matches Some(s) && s.len() == messages.len() && (0 <= i
                < messages.len() ==> s[i] == message_tree(messages[i])))
            &&& t.get("stream"@) == Some(JsonView::Bool(true))
            &&& (t.get("stream_options"@) matches Some(o) && o.get("include_usage"@) == Some(
                JsonView::Bool(true),
            ))
            &&& (tools matches Some(list) ==> t.array_at("tools"@) == Some(list) && t.str_at(
                "tool_choice"@,
            ) == Some("auto"@))
            &&& (tools is None ==> t.get("tools"@) is None && t.get("tool_choice"@) is None)
        }),
{
    reveal_with_fuel(object_map, 2);
    reveal_strlit("model");
    reveal_strlit("messages");
    reveal_strlit("stream");
    reveal_strlit("stream_options");
    reveal_strlit("tools");
    reveal_strlit("tool_choice");
    assert("model"@.len() == 5 && "messages"@.len() == 8 && "stream"@.len() == 6
        && "stream_options"@.len() == 14 && "tools"@.len() == 5 && "tool_choice"@.len() == 11);
    assert("model"@[0] == 'm' && "tools"@[0] == 't');
}

/// A message is sent with its role, and with its text, its calls and the call that it answers
/// where it has them.
pub proof fn lemma_message_as_sent(m: MessageView, i: int)
    ensures
        ({
            let t = message_tree(m);
            &&& t.str_at("role"@) == Some(m.role)
            &&& (m.content matches Some(c) ==> t.str_at("content"@) == Some(c))
            &&& (m.content is None ==> t.get("content"@) is None)
            &&& (m.tool_call_id matches Some(id) ==> t.str_at("tool_call_id"@) == Some(id))
            &&& (m.tool_call_id is None ==> t.get("tool_call_id"@) is None)
            &&& (m.tool_calls is None ==> t.get("tool_calls"@) is None)
            &&& (m.tool_calls matches Some(calls) ==> (t.array_at("tool_calls"@) matches Some(s)
                && s.len() == calls.len() && (0 <= i < calls.len() ==> s[i].str_at("id"@) == Some(
                calls[i].id,
            ) && s[i].str_at("type"@) == Some(calls[i].call_type) && (s[i].get(
                "function"@,
            ) matches Some(f) && f.str_at("name"@) == Some(calls[i].name) && f.str_at("arguments"@)
                == Some(calls[i].arguments)))))
        }),
{
    reveal_with_fuel(object_map, 4);
    reveal_strlit("role");
    reveal_strlit("content");
    reveal_strlit("tool_call_id");
    reveal_strlit("tool_calls");
    reveal_strlit("id");
    reveal_strlit("type");
    reveal_strlit("function");
    reveal_strlit("name");
    reveal_strlit("arguments");
    assert("role"@.len() == 4 && "content"@.len() == 7 && "tool_call_id"@.len() == 12
        && "tool_calls"@.len() == 10 && "id"@.len() == 2 && "type"@.len() == 4
        && "function"@.len() == 8 && "name"@.len() == 4 && "arguments"@.len() == 9);
}

/// A request that shares no name with the extra fields is one object with all of them; a name
/// that both have is written twice, first as the request has it.
pub proof fn lemma_extra_fields(
    own: Map<Seq<char>, JsonView>,
    extra: Map<Seq<char>, JsonView>,
    k: Seq<char>,
)
    ensures
        (forall|x: Seq<char>| own.dom().contains(x) ==> !(#[trigger] extra.dom().contains(x)))
            ==> request_text(own, extra) == json_compact(
            JsonView::Object(own.union_prefer_right(extra)),
        ),
        own.dom().contains(k) && extra.dom().contains(k) ==> request_text(own, extra)
            == json_compact(JsonView::Object(own)).drop_last() + ","@ + json_compact(
            JsonView::Object(extra),
        ).skip(1),
{
    if forall|x: Seq<char>| own.dom().contains(x) ==> !(#[trigger] extra.dom().contains(x)) {
        assert(!crate::llm::share_a_name(own, extra)) by {
            if crate::llm::share_a_name(own, extra) {
                let x = choose|x: Seq<char>| #[trigger]
                    own.dom().contains(x) && extra.dom().contains(x);
                assert(!extra.dom().contains(x));
            }
        }
    }
}

/// An entry `name=value` of the `thinking` setting sets that field: to the value that the text
/// denotes as JSON, and to the text where it denotes none. Of two entries with the same name the
/// later counts.
pub proof fn lemma_entry_sets_a_field(
    entries: Seq<Seq<char>>,
    k: Seq<char>,
    v: Seq<char>,
    other: Seq<char>,
)
    requires
        k.len() > 0,
        !is_whitespace(k[0]),
        !is_whitespace(k[k.len() - 1]),
        !k.contains('='),
        v.len() > 0 ==> !is_whitespace(v[0]) && !is_whitespace(v[v.len() - 1]),
    ensures
        ({
            let m = thinking_fields(entries.push(k + seq!['='] + v));
            &&& m.dom().contains(k)
            &&& (json_parsed(v) matches Ok(t) ==> m[k] == t)
            &&& (json_parsed(v) is Err ==> m[k] == JsonView::Str(v))
            &&& (other != k ==> (m.dom().contains(other) <==> thinking_fields(
                entries,
            ).dom().contains(other)))
            &&& (other != k && m.dom().contains(other) ==> m[other] == thinking_fields(
                entries,
            )[other])
        }),
        thinking_fields(Seq::empty()) == Map::<Seq<char>, JsonView>::empty(),
{
    reveal_strlit("auto");
    let e = k + seq!['='] + v;
    assert(entries.push(e).drop_last() =~= entries);
    assert(e[0] == k[0]);
    assert(e[k.len() as int] == '=');
    if v.len() > 0 {
        assert(e[e.len() - 1] == v[v.len() - 1]);
    }
    lemma_trim_takes_the_ends(Seq::empty(), e, Seq::empty());
    assert(Seq::<char>::empty() + e + Seq::empty() =~= e);
    lemma_trim_takes_the_ends(Seq::empty(), k, Seq::empty());
    assert(Seq::<char>::empty() + k + Seq::empty() =~= k);
    lemma_trim_takes_the_ends(Seq::empty(), v, Seq::empty());
    assert(Seq::<char>::empty() + v + Seq::empty() =~= v);
    lemma_cut_at_first(k, v, '=');
    assert(ascii_lower(e)[k.len() as int] == '=');
    assert(ascii_lower("auto"@).len() == 4);
    assert forall|x: int| 0 <= x < 4 implies ascii_lower("auto"@)[x] != '=' by {}
    assert(ascii_lower(e) != ascii_lower("auto"@));
}

/// `auto`, in whatever case, and blank entries set nothing, and neither does an entry without `=`.
pub proof fn lemma_entry_sets_nothing(entries: Seq<Seq<char>>, e: Seq<char>)
    requires
        trim_spec(e).len() == 0 || ascii_lower(trim_spec(e)) == ascii_lower("auto"@) || !trim_spec(
            e,
        ).contains('='),
    ensures
        thinking_fields(entries.push(e)) == thinking_fields(entries),
{
    assert(entries.push(e).drop_last() =~= entries);
    if !trim_spec(e).contains('=') {
        lemma_cut_at_first(trim_spec(e), Seq::empty(), '=');
    }
}

proof fn lemma_scan_after(a: Seq<char>, b: Seq<char>)
    requires
        at_top_level(a),
    ensures
        scan(a + b) == scan(b),
    decreases b.len(),
{
    if b.len() == 0 {
        assert(a + b =~= a);
    } else {
        lemma_scan_after(a, b.drop_last());
        assert((a + b).drop_last() =~= a + b.drop_last());
        assert((a + b).last() == b.last());
    }
}

/// A comma outside quotes and brackets parts two entries: those before it and those behind it.
pub proof fn lemma_comma_parts_entries(a: Seq<char>, b: Seq<char>)
    requires
        at_top_level(a),
    ensures
        thinking_entries(a + seq![','] + b) == thinking_entries(a) + thinking_entries(b),
        thinking_entries(b).len() > 0,
    decreases b.len(),
{
    let s = a + seq![','] + b;
    let c = a + seq![','];
    assert(c.drop_last() =~= a);
    if b.len() == 0 {
        assert(s =~= c);
        assert(thinking_entries(s) =~= thinking_entries(a) + thinking_entries(b));
    } else {
        let d = b.drop_last();
        lemma_comma_parts_entries(a, d);
        assert(s.drop_last() =~= a + seq![','] + d);
        assert(s.last() == b.last());
        assert(at_top_level(c));
        lemma_scan_after(c, d);
        assert(c + d =~= a + seq![','] + d);
        let p = thinking_entries(a) + thinking_entries(d);
        if b.last() == ',' && at_top_level(d) {
            assert(thinking_entries(s) =~= thinking_entries(a) + thinking_entries(b));
        } else {
            assert(p.last() == thinking_entries(d).last());
            assert(p.drop_last() =~= thinking_entries(a) + thinking_entries(d).drop_last());
            assert(thinking_entries(s) =~= thinking_entries(a) + thinking_entries(b));
        }
    }
}

/// What holds neither quotes nor brackets is outside of them.
pub proof fn lemma_plain_text_is_outside(s: Seq<char>)
    requires
        forall|i: int|
            0 <= i < s.len() ==> {
                let c = #[trigger] s[i];
                c != '"' && c != '{' && c != '[' && c != '}' && c != ']'
            },
    ensures
        at_top_level(s),
        scan(s) == (Scan { depth: 0, in_str: false, esc: false }),
    decreases s.len(),
{
    if s.len() > 0 {
        let d = s.drop_last();
        assert forall|i: int| 0 <= i < d.len() implies {
            let c = #[trigger] d[i];
            c != '"' && c != '{' && c != '[' && c != '}' && c != ']'
        } by {
            assert(d[i] == s[i]);
        }
        lemma_plain_text_is_outside(d);
        assert(s[s.len() - 1] == s.last());
    }
}

/// A comma within quotes does not part entries, and what stands behind the quotes is outside.
pub proof fn lemma_quotes_hold_together(a: Seq<char>, s: Seq<char>)
    requires
        at_top_level(a),
        !a.contains(','),
        forall|i: int| 0 <= i < s.len() ==> (#[trigger] s[i]) != '"' && s[i] != '\\',
    ensures
        thinking_entries(a + seq!['"'] + s + seq!['"']) == seq![a + seq!['"'] + s + seq!['"']],
        at_top_level(a + seq!['"'] + s + seq!['"']),
{
    lemma_no_comma(a);
    lemma_in_quotes(a, s);
    let t = a + seq!['"'] + s + seq!['"'];
    assert(t.drop_last() =~= a + seq!['"'] + s);
    assert(t.last() == '"');
    assert((a + seq!['"'] + s).push('"') =~= t);
    assert(thinking_entries(t) =~= seq![t]);
}

proof fn lemma_no_comma(a: Seq<char>)
    requires
        !a.contains(','),
    ensures
        thinking_entries(a) == seq![a],
    decreases a.len(),
{
    if a.len() == 0 {
        assert(a =~= Seq::<char>::empty());
    } else {
        let d = a.drop_last();
        assert(!d.contains(',')) by {
            if d.contains(',') {
                let i = choose|i: int| 0 <= i < d.len() && d[i] == ',';
                assert(a[i] == ',');
            }
        }
        lemma_no_comma(d);
        assert(a.contains(a[a.len() - 1]));
        assert(d.push(a.last()) =~= a);
        assert(thinking_entries(a) =~= seq![a]);
    }
}

proof fn lemma_in_quotes(a: Seq<char>, s: Seq<char>)
    requires
        at_top_level(a),
        thinking_entries(a) == seq![a],
        forall|i: int| 0 <= i < s.len() ==> (#[trigger] s[i]) != '"' && s[i] != '\\',
    ensures
        thinking_entries(a + seq!['"'] + s) == seq![a + seq!['"'] + s],
        scan(a + seq!['"'] + s) == (Scan { depth: 0, in_str: true, esc: false }),
    decreases s.len(),
{
    let t = a + seq!['"'] + s;
    if s.len() == 0 {
        assert(t.drop_last() =~= a);
        assert(t.last() == '"');
        assert(a.push('"') =~= t);
        assert(thinking_entries(t) =~= seq![t]);
    } else {
        let d = s.drop_last();
        assert forall|i: int| 0 <= i < d.len() implies (#[trigger] d[i]) != '"' && d[i]
            != '\\' by {
            assert(d[i] == s[i]);
        }
        lemma_in_quotes(a, d);
        assert(t.drop_last() =~= a + seq!['"'] + d);
        assert(t.last() == s[s.len() - 1]);
        assert((a + seq!['"'] + d).push(t.last()) =~= t);
        assert(thinking_entries(t) =~= seq![t]);
    }
}

/// A comma within brackets does not part entries, and what stands behind the brackets is outside.
pub proof fn lemma_brackets_hold_together(a: Seq<char>, s: Seq<char>, open: char, close: char)
    requires
        at_top_level(a),
        !a.contains(','),
        open == '{' && close == '}' || open == '[' && close == ']',
        forall|i: int|
            0 <= i < s.len() ==> {
                let c = #[trigger] s[i];
                c != '"' && c != '{' && c != '[' && c != '}' && c != ']'
            },
    ensures
        thinking_entries(a + seq![open] + s + seq![close]) == seq![
            a + seq![open] + s + seq![close],
        ],
        at_top_level(a + seq![open] + s + seq![close]),
{
    lemma_no_comma(a);
    lemma_in_brackets(a, s, open);
    let t = a + seq![open] + s + seq![close];
    assert(t.drop_last() =~= a + seq![open] + s);
    assert(t.last() == close);
    assert((a + seq![open] + s).push(close) =~= t);
    assert(thinking_entries(t) =~= seq![t]);
}

proof fn lemma_in_brackets(a: Seq<char>, s: Seq<char>, open: char)
    requires
        at_top_level(a),
        thinking_entries(a) == seq![a],
        open == '{' || open == '[',
        forall|i: int|
            0 <= i < s.len() ==> {
                let c = #[trigger] s[i];
                c != '"' && c != '{' && c != '[' && c != '}' && c != ']'
            },
    ensures
        thinking_entries(a + seq![open] + s) == seq![a + seq![open] + s],
        scan(a + seq![open] + s) == (Scan { depth: 1, in_str: false, esc: false }),
    decreases s.len(),
{
    let t = a + seq![open] + s;
    if s.len() == 0 {
        assert(t.drop_last() =~= a);
        assert(t.last() == open);
        assert(a.push(open) =~= t);
        assert(thinking_entries(t) =~= seq![t]);
    } else {
        let d = s.drop_last();
        assert forall|i: int| 0 <= i < d.len() implies {
            let c = #[trigger] d[i];
            c != '"' && c != '{' && c != '[' && c != '}' && c != ']'
        } by {
            assert(d[i] == s[i]);
        }
        lemma_in_brackets(a, d, open);
        assert(t.drop_last() =~= a + seq![open] + d);
        assert(t.last() == s[s.len() - 1]);
        assert((a + seq![open] + d).push(t.last()) =~= t);
        assert(thinking_entries(t) =~= seq![t]);
    }
}

/// Which settings are refused: a service that is not asked by `http` or `https`, a context below
/// 256 tokens, a price below zero, no round for tools, a `thinking` setting with an entry that says
/// nothing, and a blank directory.
pub proof fn lemma_settings_that_are_refused(c: Config, scheme: Result<Seq<char>, Seq<char>>)
    ensures
        flaw(c, scheme) is None <==> (scheme == Ok::<Seq<char>, Seq<char>>("http"@) || scheme
            == Ok::<Seq<char>, Seq<char>>("https"@)) && c.llm.context_length >= 256 && !is_negative(
            c.llm.price_input_per_m@,
        ) && !is_negative(c.llm.price_output_per_m@) && c.llm.max_tool_iterations >= 1 && (
        c.llm.thinking matches Some(t) ==> thinking_ok(t@)) && trim_spec(
            c.output.download_dir@,
        ).len() > 0,
{
}

/// A `thinking` setting is accepted where each of its entries is blank, is `auto`, or has a `=`.
pub proof fn lemma_thinking_that_is_refused(t: Seq<char>, i: int)
    ensures
        thinking_ok(t) && 0 <= i < thinking_entries(t).len() ==> {
            let e = trim_spec(thinking_entries(t)[i]);
            e.len() == 0 || ascii_lower(e) == ascii_lower("auto"@) || e.contains('=')
        },
        (forall|j: int|
            0 <= j < thinking_entries(t).len() ==> trim_spec(
                #[trigger] thinking_entries(t)[j],
            ).contains('=')) ==> thinking_ok(t),
{
    if thinking_ok(t) && 0 <= i < thinking_entries(t).len() {
        assert(thinking_entry_ok(thinking_entries(t)[i]));
    }
}

/// A price with a minus sign is below zero where a digit other than zero stands before any
/// exponent; one without a minus sign never is.
pub proof fn lemma_prices_below_zero(p: Seq<char>, a: Seq<char>, c: char, b: Seq<char>)
    ensures
        p.len() == 0 || p[0] != '-' ==> !is_negative(p),
        '1' <= c <= '9' && !a.contains('e') ==> is_negative(seq!['-'] + a + seq![c] + b),
        (forall|i: int| 0 <= i < a.len() ==> (#[trigger] a[i] == '0' || a[i] == '.'))
            ==> !is_negative(seq!['-'] + a),
        is_negative("-inf"@),
        !is_negative("-nan"@),
{
    reveal_strlit("-inf");
    reveal_strlit("-nan");
    let s = seq!['-'] + a + seq![c] + b;
    if '1' <= c <= '9' && !a.contains('e') {
        assert(s[0] == '-');
        assert(s[a.len() as int + 1] == c);
        assert(!s.take(a.len() as int + 1).contains('e')) by {
            let t = s.take(a.len() as int + 1);
            if t.contains('e') {
                let i = choose|i: int| 0 <= i < t.len() && t[i] == 'e';
                if i > 0 {
                    assert(a[i - 1] == 'e');
                }
            }
        }
    }
    let z = seq!['-'] + a;
    if forall|i: int| 0 <= i < a.len() ==> (#[trigger] a[i] == '0' || a[i] == '.') {
        assert forall|i: int| 1 <= i < z.len() implies !('1' <= #[trigger] z[i] <= '9') by {
            assert(z[i] == a[i - 1]);
        }
        if z == "-inf"@ {
            assert(z[1] == a[0]);
        }
    }
    assert("-nan"@[1] == 'n' && "-inf"@[1] == 'i');
}

} // verus!

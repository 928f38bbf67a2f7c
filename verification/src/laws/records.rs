//! Laws of what is kept: the database, saved conversations and settings files.

use vstd::prelude::*;

#[allow(unused_imports)]
use crate::agent::{calls_of, Agent};
#[allow(unused_imports)]
use crate::config::{
    curseforge_section, dir_or_here, is_llm_key, llm_section, parent_of, without_tail, LlmConfig,
};
#[allow(unused_imports)]
use crate::database::{
    linked, mod_rows, saved_mods, saved_positions, saved_tags, tag_rows, FeedbackView, Link,
    PackView, TableRows,
};
#[allow(unused_imports)]
use crate::history::{
    auto_saved, has_user_message, holds, is_latest, is_session_file, shown, shown_conversation,
    shown_message, SavedView, Session,
};
#[allow(unused_imports)]
use crate::json::{object_map, opt_view, JsonView};
#[allow(unused_imports)]
use crate::laws::texts::lemma_name_and_extension;
#[allow(unused_imports)]
use crate::llm::MessageView;
#[allow(unused_imports)]
use crate::order::lex_lt;
#[allow(unused_imports)]
use crate::settings_file::{kept, Around, Entry, Scalar, Section};
#[allow(unused_imports)]
use crate::text::{lemma_rfind_char, rfind_char};
#[allow(unused_imports)]
use crate::tools::cache_dir;

verus! {

// ---------------------------------------------------------------------------
// The database
// ---------------------------------------------------------------------------

/// The texts that belong to an id are those of its own rows, in their order.
pub proof fn lemma_rows_of_an_id(a: Seq<Link>, l: Link, b: Seq<Link>, id: i64)
    ensures
        linked(a + b, id) == linked(a, id) + linked(b, id),
        l.0 == id ==> linked(seq![l], id) == seq![l.1],
        l.0 != id ==> linked(seq![l], id) == Seq::<Seq<char>>::empty(),
        linked(Seq::empty(), id) == Seq::<Seq<char>>::empty(),
    decreases b.len(),
{
    if b.len() == 0 {
        assert(a + b =~= a);
        assert(linked(a, id) + linked(b, id) =~= linked(a, id));
    } else {
        lemma_rows_of_an_id(a, l, b.drop_last(), id);
        assert((a + b).drop_last() =~= a + b.drop_last());
        assert((a + b).last() == b.last());
        assert(linked(a + b, id) =~= linked(a, id) + linked(b, id));
    }
    assert(seq![l].drop_last() =~= Seq::<Link>::empty());
    assert(linked(seq![l].drop_last(), id) =~= Seq::<Seq<char>>::empty());
    assert(seq![l].last() == l);
    if l.0 == id {
        assert(linked(seq![l], id) =~= seq![l.1]);
    }
}

/// A rating is read from its row, with the tags that have its id; a pack from its row, with the
/// mods that have its id.
pub proof fn lemma_rows_are_read(t: TableRows, i: int, k: int)
    requires
        forall|x: int, y: int|
            0 <= x < y < t.feedback@.len() ==> (#[trigger] t.feedback@[x]).id
                != (#[trigger] t.feedback@[y]).id,
    ensures
        t.ratings().len() == t.feedback@.len(),
        0 <= i < t.feedback@.len() ==> {
            let f = t.ratings()[i];
            let row = t.feedback@[i];
            &&& f.slug == row.slug@ && f.verdict == row.verdict@
            &&& f.game_version == row.game_version@ && f.loader == row.loader@
            &&& f.source == row.source@ && f.timestamp == row.timestamp@
            &&& f.tags == linked(
                t.tags@.map_values(|p: (i64, String)| (p.0, p.1@)),
                row.id,
            )
        },
        t.packs().len() == t.packs@.len(),
        0 <= k < t.packs@.len() ==> {
            let p = t.packs()[k];
            let row = t.packs@[k];
            &&& p.name == row.name@ && p.created_at == row.created_at@
            &&& p.mod_slugs == linked(
                t.mods@.map_values(|m: crate::database::ModRow| (m.pack_id, m.slug@)),
                row.id,
            )
        },
{
    assert(tag_rows(t.tags@) =~= t.tags@.map_values(|p: (i64, String)| (p.0, p.1@)));
    assert(mod_rows(t.mods@) =~= t.mods@.map_values(
        |m: crate::database::ModRow| (m.pack_id, m.slug@),
    ));
}

/// The mods of a pack are stored with their places, counted from zero, behind those of the packs
/// before it.
pub proof fn lemma_places_of_mods(packs: Seq<PackView>, p: PackView, j: int)
    requires
        p.mod_slugs.len() < i64::MAX,
        packs.len() + 1 < i64::MAX,
    ensures
        saved_positions(packs.push(p)).len() == saved_positions(packs).len() + p.mod_slugs.len(),
        saved_mods(packs.push(p)).len() == saved_mods(packs).len() + p.mod_slugs.len(),
        0 <= j < p.mod_slugs.len() ==> saved_positions(packs.push(p))[saved_positions(packs).len()
            + j] == j,
        0 <= j < p.mod_slugs.len() ==> saved_mods(packs.push(p))[saved_mods(packs).len() + j] == (
            (packs.len() + 1) as i64,
            p.mod_slugs[j],
        ),
        saved_mods(packs.push(p)).take(saved_mods(packs).len() as int) == saved_mods(packs),
{
    assert(packs.push(p).drop_last() =~= packs);
    assert(saved_mods(packs.push(p)).take(saved_mods(packs).len() as int) =~= saved_mods(packs));
}

/// The tags of a rating are stored with its number, behind those of the ratings before it.
pub proof fn lemma_stored_tags(feedback: Seq<FeedbackView>, f: FeedbackView, j: int)
    requires
        feedback.len() + 1 < i64::MAX,
    ensures
        saved_tags(feedback.push(f)).len() == saved_tags(feedback).len() + f.tags.len(),
        0 <= j < f.tags.len() ==> saved_tags(feedback.push(f))[saved_tags(feedback).len() + j] == (
            (feedback.len() + 1) as i64,
            f.tags[j],
        ),
        saved_tags(feedback.push(f)).take(saved_tags(feedback).len() as int) == saved_tags(
            feedback,
        ),
{
    assert(feedback.push(f).drop_last() =~= feedback);
    assert(saved_tags(feedback.push(f)).take(saved_tags(feedback).len() as int) =~= saved_tags(
        feedback,
    ));
}

// ---------------------------------------------------------------------------
// Saved conversations
// ---------------------------------------------------------------------------

/// A conversation is saved on its own once the user has said something, to the file that it was
/// saved to before, else to a new one that is named after the time; it stays as it is.
pub proof fn lemma_saved_on_its_own(
    before: Agent,
    dir: Seq<char>,
    time: Seq<char>,
    after: Agent,
    r: Option<Seq<char>>,
    i: int,
)
    requires
        auto_saved(before, dir, time, after, r),
    ensures
        0 <= i < before.conv().len() && before.conv()[i].role == "user"@ ==> r is Some && opt_view(
            after.session_file,
        ) == r,
        0 <= i < before.conv().len() && before.conv()[i].role == "user"@
            && before.session_file is Some ==> r == opt_view(before.session_file),
        0 <= i < before.conv().len() && before.conv()[i].role == "user"@
            && before.session_file is None ==> r == Some(
            dir + "/sessions/auto-"@ + time + ".json"@,
        ),
        (forall|j: int| 0 <= j < before.conv().len() ==> (#[trigger] before.conv()[j]).role
            != "user"@) ==> r is None && after.session_file == before.session_file,
        after.messages == before.messages && after.usage == before.usage && after.calls
            == before.calls && after.llm_cfg == before.llm_cfg,
{
    reveal_strlit("/sessions");
    reveal_strlit("/auto-");
    reveal_strlit("/sessions/auto-");
    assert(dir + "/sessions"@ + "/auto-"@ + time + ".json"@ =~= dir + "/sessions/auto-"@ + time
        + ".json"@);
    if 0 <= i < before.conv().len() && before.conv()[i].role == "user"@ {
        assert(has_user_message(before.conv()));
    }
}

/// What is saved of a conversation is all that it is made of.
pub proof fn lemma_what_is_saved(s: Session, a: Agent, i: int)
    requires
        holds(s, a),
    ensures
        s.messages@.len() == a.messages@.len(),
        0 <= i < a.messages@.len() ==> s.messages@[i]@ == a.messages@[i]@,
        s.prompt_tokens == a.usage.prompt_tokens,
        s.completion_tokens == a.usage.completion_tokens,
        s.total_tokens == a.usage.total_tokens,
        s.calls == a.calls,
{
    let x = crate::llm::message_views(s.messages@);
    let y = a.conv();
    assert(x.len() == y.len());
    if 0 <= i < a.messages@.len() {
        assert(x[i] == s.messages@[i]@ && y[i] == a.messages@[i]@);
    }
}

/// A file can be a saved conversation where its name is something and `.json` behind it.
pub proof fn lemma_names_of_saved_conversations(n: Seq<char>)
    ensures
        n.len() > 0 ==> is_session_file(n + ".json"@),
        !n.contains('.') ==> !is_session_file(n),
{
    reveal_strlit(".json");
    reveal_strlit("json");
    assert(".json"@ =~= seq!['.'] + "json"@);
    assert(!"json"@.contains('.')) by {
        assert forall|i: int| 0 <= i < "json"@.len() implies "json"@[i] != '.' by {}
    }
    lemma_name_and_extension(n, "json"@, "json"@);
    assert(n + ".json"@ =~= n + seq!['.'] + "json"@);
    if !n.contains('.') {
        lemma_name_and_extension(n, n, "json"@);
    }
}

/// The latest conversation is the one that was saved last; of two that were saved at the same time
/// the one with the greater name.
pub proof fn lemma_latest_conversation(files: Seq<SavedView>, i: int, j: int)
    requires
        is_latest(files, i),
        0 <= j < files.len(),
        is_session_file(files[j].0),
    ensures
        0 <= i < files.len() && is_session_file(files[i].0),
        files[j].1 <= files[i].1,
        files[j].1 == files[i].1 ==> !lex_lt(files[i].0, files[j].0),
{
}

/// A conversation is shown message by message: what the user said, what the model said, and the
/// tools that it called; instructions and results of tools are not shown.
pub proof fn lemma_conversation_as_shown(a: Seq<MessageView>, m: MessageView, b: Seq<MessageView>)
    ensures
        shown_conversation(a + b) == shown_conversation(a) + shown_conversation(b),
        shown_conversation(seq![m]) == shown_message(m),
        m.role != "user"@ && m.role != "assistant"@ ==> shown_message(m).len() == 0,
    decreases b.len(),
{
    if b.len() == 0 {
        assert(a + b =~= a);
        assert(shown_conversation(a) + shown_conversation(b) =~= shown_conversation(a));
    } else {
        lemma_conversation_as_shown(a, m, b.drop_last());
        assert((a + b).drop_last() =~= a + b.drop_last());
        assert((a + b).last() == b.last());
        assert(shown_conversation(a + b) =~= shown_conversation(a) + shown_conversation(b));
    }
    assert(seq![m].drop_last() =~= Seq::<MessageView>::empty());
    assert(shown_conversation(seq![m].drop_last()) =~= Seq::<JsonView>::empty());
    assert(shown_conversation(seq![m]) =~= shown_message(m));
}

/// A message of the user or of the model is shown by its text, unless it is empty; behind it each
/// call of a tool, by its name and its arguments.
pub proof fn lemma_message_as_shown(m: MessageView, t: Seq<char>, i: int)
    requires
        m.content == Some(t),
        t.len() > 0,
        m.role == "user"@ || m.role == "assistant"@,
    ensures
        shown_message(m).len() == 1 + (if m.role == "assistant"@ {
            calls_of(m).len()
        } else {
            0
        }),
        shown_message(m)[0].str_at("kind"@) == Some(m.role),
        shown_message(m)[0].str_at("text"@) == Some(t),
        m.role == "assistant"@ && 0 <= i < calls_of(m).len() ==> shown_message(m)[i + 1].str_at(
            "kind"@,
        ) == Some("tool"@) && shown_message(m)[i + 1].str_at("text"@) == Some(
            calls_of(m)[i].name + "("@ + calls_of(m)[i].arguments + ")"@,
        ),
{
    reveal_with_fuel(object_map, 3);
    reveal_strlit("kind");
    reveal_strlit("text");
    reveal_strlit("user");
    reveal_strlit("assistant");
    assert("kind"@[0] == 'k' && "text"@[0] == 't');
    assert("user"@.len() == 4 && "assistant"@.len() == 9);
    assert(shown_message(m)[0] == shown(m.role, t));
    if m.role == "assistant"@ && 0 <= i < calls_of(m).len() {
        let c = calls_of(m)[i];
        assert(shown_message(m)[i + 1] == shown("tool"@, c.name + "("@ + c.arguments + ")"@));
    }
}

// ---------------------------------------------------------------------------
// Settings files
// ---------------------------------------------------------------------------

/// Setting a value replaces the value at its key and keeps what surrounds it and its key; all
/// other entries stay as they were.
pub proof fn lemma_comments_stay(
    m: Map<Seq<char>, Entry>,
    key: Seq<char>,
    v: Scalar,
    old_value: Scalar,
    around: Around,
    key_is_in: Around,
    other: Seq<char>,
)
    ensures
        ({
            let n = kept(m, key, v);
            &&& (m.dom().contains(key) && m[key] == Entry::Value(old_value, around, key_is_in)
                ==> n[key] == Entry::Value(v, around, key_is_in))
            &&& (!m.dom().contains(key) ==> n[key] == Entry::Value(
                v,
                Around { before: None, after: None },
                Around { before: None, after: None },
            ))
            &&& n.dom().contains(key)
            &&& (other != key ==> (n.dom().contains(other) <==> m.dom().contains(other)) && (
            m.dom().contains(other) ==> n[other] == m[other]))
        }),
{
}

/// What surrounds the header of a section stays, and so does every entry that is not written.
pub proof fn lemma_header_stays(
    h: Around,
    m: Map<Seq<char>, Entry>,
    llm: LlmConfig,
    enabled: bool,
    other: Seq<char>,
)
    ensures
        llm_section(Section::Table(h, m), llm) matches Section::Table(g, n) && g == h && (
        !is_llm_key(other) && m.dom().contains(other) ==> n.dom().contains(other) && n[other]
            == m[other]),
        curseforge_section(Section::Table(h, m), enabled) matches Section::Table(g, n) && g == h && (
        other != "enabled"@ && m.dom().contains(other) ==> n.dom().contains(other) && n[other]
            == m[other]),
{
}

/// The directory of a file is what stands before its name; a name alone has the current one.
pub proof fn lemma_directory_of_a_file(d: Seq<char>, name: Seq<char>)
    requires
        d.len() > 0,
        d[d.len() - 1] != '/',
        !(d.len() > 1 && d[d.len() - 1] == '.' && d[d.len() - 2] == '/'),
        name.len() > 0,
        !name.contains('/'),
        name != seq!['.'],
    ensures
        parent_of(d + seq!['/'] + name) == Some(d),
        parent_of(seq!['/'] + name) == Some(seq!['/']),
        parent_of(name) == Some(Seq::<char>::empty()),
        dir_or_here(parent_of(d + seq!['/'] + name)) == d,
        dir_or_here(parent_of(name)) == seq!['.'],
        cache_dir(parent_of(d + seq!['/'] + name)) == d + "/cf-cache"@,
        cache_dir(parent_of(name)) == "cf-cache"@,
{
    reveal_strlit(".");
    reveal_strlit("/");
    reveal_strlit("cf-cache");
    reveal_strlit("/cf-cache");
    reveal_with_fuel(without_tail, 2);
    assert("."@ =~= seq!['.']);
    let s = d + seq!['/'] + name;
    let n = s.len() as int;
    assert(name.contains(name[name.len() - 1]));
    assert(s[n - 1] == name[name.len() - 1]);
    if name.len() == 1 {
        assert(name[0] != '.') by {
            if name[0] == '.' {
                assert(name =~= seq!['.']);
            }
        }
    } else {
        assert(s[n - 2] == name[name.len() - 2]);
        assert(name.contains(name[name.len() - 2]));
    }
    assert(without_tail(s) == s);
    lemma_rfind_char(s, '/');
    assert(s[d.len() as int] == '/');
    assert forall|j: int| d.len() < j < n implies s[j] != '/' by {
        assert(s[j] == name[j - d.len() - 1]);
        assert(name.contains(name[j - d.len() - 1]));
    }
    assert(rfind_char(s, '/') == d.len());
    let t = s.take(d.len() as int + 1);
    assert(t.drop_last() =~= d);
    assert(t[t.len() - 1] == '/');
    assert(without_tail(t) == without_tail(d));
    assert(s[0] == d[0]);
    let r = seq!['/'] + name;
    assert(r[r.len() - 1] == name[name.len() - 1]);
    if name.len() > 1 {
        assert(r[r.len() - 2] == name[name.len() - 2]);
    }
    assert(without_tail(r) == r);
    lemma_rfind_char(r, '/');
    assert forall|j: int| 0 < j < r.len() implies r[j] != '/' by {
        assert(r[j] == name[j - 1]);
        assert(name.contains(name[j - 1]));
    }
    assert(r[0] == '/');
    assert(rfind_char(r, '/') == 0);
    assert(r.take(1) =~= seq!['/']);
    assert(without_tail(name) == name);
    lemma_rfind_char(name, '/');
    if rfind_char(name, '/') >= 0 {
        assert(name.contains(name[rfind_char(name, '/')]));
    }
    assert(name != seq!['/']) by {
        assert(name[0] != '/') by {
            assert(name.contains(name[0]));
        }
    }
    assert(d + "/"@ + "cf-cache"@ =~= d + "/cf-cache"@);
}

} // verus!

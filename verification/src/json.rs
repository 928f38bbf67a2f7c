//! JSON values as trees of plain data, and their text form.

use vstd::prelude::*;
use vstd::string::StringExecFns;

use crate::number::i128_to_string;
#[allow(unused_imports)]
use crate::number::signed_dec;
#[allow(unused_imports)]
use crate::order::ascending;
use crate::order::insert_sorted;
#[allow(unused_imports)]
use crate::text::views;
use crate::text::str_eq;

verus! {

/// A number that is no 64-bit integer.
pub struct Fraction {
    n: serde_json::Number,
}

/// A JSON number. Integers are held as such; what is no 64-bit integer is carried along.
pub enum JsonNumber {
    Unsigned(u64),
    Negative(i64),
    Float(Fraction),
}

/// The one form of a number: an integer that is not negative is an unsigned one.
pub open spec fn normal(n: JsonNumber) -> JsonNumber {
    match n {
        JsonNumber::Negative(i) => if i >= 0 {
            JsonNumber::Unsigned(i as u64)
        } else {
            n
        },
        _ => n,
    }
}

/// A JSON value.
pub enum Json {
    Null,
    Bool(bool),
    Number(JsonNumber),
    Str(String),
    Array(Vec<Json>),
    /// The members in the order in which they were set. Of members with one name the last counts.
    Object(Vec<(String, Json)>),
}

/// The mathematical value of a [`Json`].
#[verifier::ext_equal]
pub enum JsonView {
    Null,
    Bool(bool),
    Number(JsonNumber),
    Str(Seq<char>),
    Array(Seq<JsonView>),
    Object(Map<Seq<char>, JsonView>),
}

/// The values of the items of an array.
pub open spec fn trees(s: Seq<Json>) -> Seq<JsonView>
    decreases s,
{
    Seq::new(
        s.len(),
        |i: int|
            if 0 <= i < s.len() {
                s[i].tree()
            } else {
                JsonView::Null
            },
    )
}

/// The members of an object by name.
pub open spec fn members(s: Seq<(String, Json)>) -> Map<Seq<char>, JsonView>
    decreases s,
{
    if s.len() == 0 {
        Map::empty()
    } else {
        members(s.drop_last()).insert(s.last().0@, s.last().1.tree())
    }
}

impl Json {
    /// The value that this tree stands for.
    pub open spec fn tree(self) -> JsonView
        decreases self,
    {
        match self {
            Json::Null => JsonView::Null,
            Json::Bool(b) => JsonView::Bool(b),
            Json::Number(n) => JsonView::Number(normal(n)),
            Json::Str(s) => JsonView::Str(s@),
            Json::Array(v) => JsonView::Array(trees(v@)),
            Json::Object(v) => JsonView::Object(members(v@)),
        }
    }
}

impl JsonView {
    /// The member of an object with the name `k`.
    pub open spec fn get(self, k: Seq<char>) -> Option<JsonView> {
        match self {
            JsonView::Object(m) => if m.dom().contains(k) {
                Some(m[k])
            } else {
                None
            },
            _ => None,
        }
    }

    /// The text of a string.
    pub open spec fn as_str(self) -> Option<Seq<char>> {
        match self {
            JsonView::Str(s) => Some(s),
            _ => None,
        }
    }

    /// The value of a number that is a 64-bit unsigned integer.
    pub open spec fn as_u64(self) -> Option<u64> {
        match self {
            JsonView::Number(JsonNumber::Unsigned(n)) => Some(n),
            _ => None,
        }
    }

    /// The items of an array.
    pub open spec fn as_array(self) -> Option<Seq<JsonView>> {
        match self {
            JsonView::Array(s) => Some(s),
            _ => None,
        }
    }

    /// The text of the member `k`, where it is a string.
    pub open spec fn str_at(self, k: Seq<char>) -> Option<Seq<char>> {
        match self.get(k) {
            Some(v) => v.as_str(),
            None => None,
        }
    }

    /// The number at the member `k`, where it is a 64-bit unsigned integer.
    pub open spec fn u64_at(self, k: Seq<char>) -> Option<u64> {
        match self.get(k) {
            Some(v) => v.as_u64(),
            None => None,
        }
    }

    /// The items of the member `k`, where it is an array.
    pub open spec fn array_at(self, k: Seq<char>) -> Option<Seq<JsonView>> {
        match self.get(k) {
            Some(v) => v.as_array(),
            None => None,
        }
    }
}

/// The view of an optional string.
pub open spec fn opt_view(o: Option<String>) -> Option<Seq<char>> {
    match o {
        Some(s) => Some(s@),
        None => None,
    }
}

/// The view of an optional string reference.
pub open spec fn opt_str_view(o: Option<&String>) -> Option<Seq<char>> {
    match o {
        Some(s) => Some(s@),
        None => None,
    }
}

impl Json {
    /// The member with the name `k`.
    pub fn get(&self, k: &str) -> (r: Option<&Json>)
        ensures
            match r {
                Some(v) => self.tree().get(k@) == Some(v.tree()),
                None => self.tree().get(k@) is None,
            },
    {
        match self {
            Json::Object(v) => {
                let mut n: usize = v.len();
                assert(v@.take(n as int) =~= v@);
                while n > 0
                    invariant
                        n <= v@.len(),
                        self.tree() == JsonView::Object(members(v@)),
                        members(v@).dom().contains(k@) == members(v@.take(n as int)).dom().contains(
                            k@,
                        ),
                        members(v@).dom().contains(k@) ==> members(v@)[k@] == members(
                            v@.take(n as int),
                        )[k@],
                    decreases n,
                {
                    assert(v@.take(n as int).drop_last() =~= v@.take(n - 1));
                    assert(v@.take(n as int).last() == v@[n - 1]);
                    if str_eq(v[n - 1].0.as_str(), k) {
                        return Some(&v[n - 1].1);
                    }
                    n -= 1;
                }
                None
            },
            _ => None,
        }
    }

    /// The text of a string.
    pub fn as_str(&self) -> (r: Option<&String>)
        ensures
            opt_str_view(r) == self.tree().as_str(),
    {
        match self {
            Json::Str(s) => Some(s),
            _ => None,
        }
    }

    /// The value of a number that is a 64-bit unsigned integer.
    pub fn as_u64(&self) -> (r: Option<u64>)
        ensures
            r == self.tree().as_u64(),
    {
        match self {
            Json::Number(JsonNumber::Unsigned(n)) => Some(*n),
            Json::Number(JsonNumber::Negative(n)) => if *n >= 0 {
                Some(*n as u64)
            } else {
                None
            },
            _ => None,
        }
    }

    /// The items of an array.
    pub fn as_array(&self) -> (r: Option<&Vec<Json>>)
        ensures
            match r {
                Some(v) => self.tree().as_array() == Some(trees(v@)),
                None => self.tree().as_array() is None,
            },
    {
        match self {
            Json::Array(v) => Some(v),
            _ => None,
        }
    }

    /// The text of the member `k`, where it is a string.
    pub fn str_at(&self, k: &str) -> (r: Option<&String>)
        ensures
            opt_str_view(r) == self.tree().str_at(k@),
    {
        match self.get(k) {
            Some(v) => v.as_str(),
            None => None,
        }
    }

    /// The number at the member `k`, where it is a 64-bit unsigned integer.
    pub fn u64_at(&self, k: &str) -> (r: Option<u64>)
        ensures
            r == self.tree().u64_at(k@),
    {
        match self.get(k) {
            Some(v) => v.as_u64(),
            None => None,
        }
    }

    /// The items of the member `k`, where it is an array.
    pub fn array_at(&self, k: &str) -> (r: Option<&Vec<Json>>)
        ensures
            match r {
                Some(v) => self.tree().array_at(k@) == Some(trees(v@)),
                None => self.tree().array_at(k@) is None,
            },
    {
        match self.get(k) {
            Some(v) => v.as_array(),
            None => None,
        }
    }

    /// The string with the given text.
    pub fn string(s: &str) -> (r: Json)
        ensures
            r.tree() == JsonView::Str(s@),
    {
        Json::Str(s.to_string())
    }

    /// The given unsigned integer.
    pub fn number(n: u64) -> (r: Json)
        ensures
            r.tree() == JsonView::Number(JsonNumber::Unsigned(n)),
    {
        Json::Number(JsonNumber::Unsigned(n))
    }

    /// The array with the given strings as its items.
    pub fn strings(list: &Vec<String>) -> (r: Json)
        ensures
            r.tree() == str_array(views(list@)),
    {
        let mut v: Vec<Json> = Vec::new();
        for i in 0..list.len()
            invariant
                trees(v@) == str_items(views(list@).take(i as int)),
                v@.len() == i,
        {
            let ghost was = v@;
            v.push(Json::Str(list[i].clone()));
            proof {
                lemma_trees_push(was, v@.last());
                assert(str_items(views(list@).take(i + 1)) =~= str_items(
                    views(list@).take(i as int),
                ).push(JsonView::Str(list@[i as int]@)));
            }
        }
        assert(views(list@).take(list@.len() as int) =~= views(list@));
        Json::Array(v)
    }
}

/// Strings as JSON values.
pub open spec fn str_items(s: Seq<Seq<char>>) -> Seq<JsonView> {
    s.map_values(|x: Seq<char>| JsonView::Str(x))
}

/// An array of strings.
pub open spec fn str_array(s: Seq<Seq<char>>) -> JsonView {
    JsonView::Array(str_items(s))
}

/// An object with the given members, later ones replacing earlier ones of the same name.
pub open spec fn object(s: Seq<(Seq<char>, JsonView)>) -> JsonView {
    JsonView::Object(object_map(s))
}

/// The members of [`object`].
pub open spec fn object_map(s: Seq<(Seq<char>, JsonView)>) -> Map<Seq<char>, JsonView>
    decreases s.len(),
{
    if s.len() == 0 {
        Map::empty()
    } else {
        object_map(s.drop_last()).insert(s.last().0, s.last().1)
    }
}

/// Appending an item to an array appends its value.
pub proof fn lemma_trees_push(s: Seq<Json>, j: Json)
    ensures
        trees(s.push(j)) == trees(s).push(j.tree()),
{
    assert(trees(s.push(j)) =~= trees(s).push(j.tree()));
}

/// Setting a member of an object sets it in the map of its members.
pub proof fn lemma_members_push(s: Seq<(String, Json)>, k: String, j: Json)
    ensures
        members(s.push((k, j))) == members(s).insert(k@, j.tree()),
{
    assert(s.push((k, j)).drop_last() =~= s);
}

/// The members of two lists of members, those of the second over those of the first.
pub proof fn lemma_members_append(a: Seq<(String, Json)>, b: Seq<(String, Json)>)
    ensures
        members(a + b) == members(a).union_prefer_right(members(b)),
    decreases b.len(),
{
    if b.len() == 0 {
        assert(a + b =~= a);
        assert(members(a).union_prefer_right(members(b)) =~= members(a));
    } else {
        lemma_members_append(a, b.drop_last());
        assert((a + b).drop_last() =~= a + b.drop_last());
        assert(members(a + b) =~= members(a).union_prefer_right(members(b)));
    }
}

/// The names of members, in ascending order.
pub fn member_names(fields: &Vec<(String, Json)>) -> (r: Vec<String>)
    ensures
        ascending(views(r@)),
        forall|k: Seq<char>| #[trigger]
            views(r@).contains(k) <==> members(fields@).dom().contains(k),
{
    let mut r: Vec<String> = Vec::new();
    for i in 0..fields.len()
        invariant
            ascending(views(r@)),
            forall|k: Seq<char>| #[trigger]
                views(r@).contains(k) <==> members(fields@.take(i as int)).dom().contains(k),
    {
        assert(fields@.take(i + 1).drop_last() =~= fields@.take(i as int));
        assert(fields@.take(i + 1).last() == fields@[i as int]);
        insert_sorted(&mut r, fields[i].0.clone());
    }
    assert(fields@.take(fields@.len() as int) =~= fields@);
    r
}

/// A builder of objects: members are set one after the other.
pub struct Obj {
    pub fields: Vec<(String, Json)>,
}

impl Obj {
    /// The members that were set so far.
    pub open spec fn map(self) -> Map<Seq<char>, JsonView> {
        members(self.fields@)
    }

    /// An object without members.
    pub fn new() -> (r: Obj)
        ensures
            r.map() == Map::<Seq<char>, JsonView>::empty(),
    {
        Obj { fields: Vec::new() }
    }

    /// Sets the member `k` to `v`.
    pub fn with(self, k: &str, v: Json) -> (r: Obj)
        ensures
            r.map() == self.map().insert(k@, v.tree()),
    {
        let mut o = self;
        let key = k.to_string();
        proof {
            lemma_members_push(o.fields@, key, v);
        }
        o.fields.push((key, v));
        o
    }

    /// Sets the member `k` to a string.
    pub fn with_str(self, k: &str, v: &str) -> (r: Obj)
        ensures
            r.map() == self.map().insert(k@, JsonView::Str(v@)),
    {
        self.with(k, Json::string(v))
    }

    /// The member with the name `k`.
    pub fn get(&self, k: &str) -> (r: Option<&Json>)
        ensures
            match r {
                Some(v) => self.map().dom().contains(k@) && self.map()[k@] == v.tree(),
                None => !self.map().dom().contains(k@),
            },
    {
        let mut n: usize = self.fields.len();
        assert(self.fields@.take(n as int) =~= self.fields@);
        while n > 0
            invariant
                n <= self.fields@.len(),
                self.map().dom().contains(k@) == members(
                    self.fields@.take(n as int),
                ).dom().contains(k@),
                self.map().dom().contains(k@) ==> self.map()[k@] == members(
                    self.fields@.take(n as int),
                )[k@],
            decreases n,
        {
            assert(self.fields@.take(n as int).drop_last() =~= self.fields@.take(n - 1));
            assert(self.fields@.take(n as int).last() == self.fields@[n - 1]);
            if str_eq(self.fields[n - 1].0.as_str(), k) {
                return Some(&self.fields[n - 1].1);
            }
            n -= 1;
        }
        None
    }

    /// The names of the members, in ascending order.
    pub fn names(&self) -> (r: Vec<String>)
        ensures
            ascending(views(r@)),
            forall|k: Seq<char>| #[trigger] views(r@).contains(k) <==> self.map().dom().contains(k),
    {
        member_names(&self.fields)
    }

    /// Sets the members of `other`, over those of the same name.
    pub fn merge(self, other: Obj) -> (r: Obj)
        ensures
            r.map() == self.map().union_prefer_right(other.map()),
    {
        let mut o = self;
        let mut more = other;
        proof {
            lemma_members_append(o.fields@, more.fields@);
        }
        o.fields.append(&mut more.fields);
        o
    }

    /// The finished object.
    pub fn json(self) -> (r: Json)
        ensures
            r.tree() == JsonView::Object(self.map()),
    {
        Json::Object(self.fields)
    }
}

/// A copy of a number.
fn copy_number(n: &JsonNumber) -> (r: JsonNumber)
    ensures
        r == *n,
{
    match n {
        JsonNumber::Unsigned(u) => JsonNumber::Unsigned(*u),
        JsonNumber::Negative(i) => JsonNumber::Negative(*i),
        JsonNumber::Float(f) => JsonNumber::Float(Fraction { n: copy_float(&f.n) }),
    }
}

/// `serde_json::Number::clone`: an equal number.
#[verifier::external_body]
fn copy_float(n: &serde_json::Number) -> (r: serde_json::Number)
    ensures
        r == *n,
{
    n.clone()
}

/// A copy of a value.
pub fn copy_json(j: &Json) -> (r: Json)
    ensures
        r.tree() == j.tree(),
    decreases j,
{
    match j {
        Json::Null => Json::Null,
        Json::Bool(b) => Json::Bool(*b),
        Json::Number(n) => Json::Number(copy_number(n)),
        Json::Str(s) => Json::Str(s.clone()),
        Json::Array(v) => {
            let mut r: Vec<Json> = Vec::new();
            for i in 0..v.len()
                invariant
                    *j == Json::Array(*v),
                    trees(r@) == trees(v@).take(i as int),
            {
                assert(decreases_to!(*j => j->Array_0));
                assert(decreases_to!(*v => v@));
                assert(decreases_to!(v@ => v@[i as int]));
                let c = copy_json(&v[i]);
                proof {
                    lemma_trees_push(r@, c);
                }
                r.push(c);
                assert(trees(v@).take(i + 1) =~= trees(v@).take(i as int).push(trees(v@)[i as int]));
            }
            assert(trees(v@).take(v@.len() as int) =~= trees(v@));
            Json::Array(r)
        },
        Json::Object(v) => {
            let mut r: Vec<(String, Json)> = Vec::new();
            for i in 0..v.len()
                invariant
                    *j == Json::Object(*v),
                    members(r@) == members(v@.take(i as int)),
            {
                assert(decreases_to!(*j => j->Object_0));
                assert(decreases_to!(*v => v@));
                assert(decreases_to!(v@ => v@[i as int]));
                assert(decreases_to!(v@[i as int] => v@[i as int].1));
                let c = copy_json(&v[i].1);
                let k = v[i].0.clone();
                proof {
                    lemma_members_push(r@, k, c);
                    assert(v@.take(i + 1).drop_last() =~= v@.take(i as int));
                }
                r.push((k, c));
            }
            assert(v@.take(v@.len() as int) =~= v@);
            Json::Object(r)
        },
    }
}

/// The number with the given whole value and a fractional part of zero.
pub open spec fn whole_float(n: int) -> JsonView {
    match json_parsed(signed_dec(n) + ".0"@) {
        Ok(t) => t,
        Err(_) => JsonView::Null,
    }
}

/// The number with the given whole value and a fractional part of zero.
pub fn float_json(n: i128) -> (r: Json)
    ensures
        r.tree() == whole_float(n as int),
{
    match parse_json(i128_to_string(n).concat(".0").as_str()) {
        Ok(j) => j,
        Err(_) => Json::Null,
    }
}

/// A copy of an object.
pub fn copy_obj(o: &Obj) -> (r: Obj)
    ensures
        r.map() == o.map(),
{
    let mut r = Obj::new();
    assert(o.fields@.take(0) =~= Seq::<(String, Json)>::empty());
    for i in 0..o.fields.len()
        invariant
            r.map() == members(o.fields@.take(i as int)),
    {
        assert(o.fields@.take(i + 1).drop_last() =~= o.fields@.take(i as int));
        assert(o.fields@.take(i + 1).last() == o.fields@[i as int]);
        r = r.with(o.fields[i].0.as_str(), copy_json(&o.fields[i].1));
    }
    assert(o.fields@.take(o.fields@.len() as int) =~= o.fields@);
    r
}

/// The array of copies of the given values.
pub fn array_of(v: &Vec<Json>) -> (r: Json)
    ensures
        r.tree() == JsonView::Array(trees(v@)),
{
    let mut r: Vec<Json> = Vec::new();
    for i in 0..v.len()
        invariant
            trees(r@) == trees(v@).take(i as int),
    {
        let c = copy_json(&v[i]);
        proof {
            lemma_trees_push(r@, c);
        }
        r.push(c);
        assert(trees(v@).take(i + 1) =~= trees(v@).take(i as int).push(trees(v@)[i as int]));
    }
    assert(trees(v@).take(v@.len() as int) =~= trees(v@));
    Json::Array(r)
}

/// The compact text of an array of the given values.
pub fn render_items(v: &Vec<Json>) -> (r: String)
    ensures
        r@ == json_compact(JsonView::Array(trees(v@))),
{
    render_json(&array_of(v))
}

/// The views of a list of members.
pub open spec fn pair_views(s: Seq<(&'static str, Json)>) -> Seq<(Seq<char>, JsonView)> {
    s.map_values(|p: (&'static str, Json)| (p.0@, p.1.tree()))
}

/// The object with the given members.
pub fn object_of(list: Vec<(&'static str, Json)>) -> (r: Json)
    ensures
        r.tree() == object(pair_views(list@)),
{
    let ghost all = pair_views(list@);
    let ghost items = list@;
    let mut o = Obj::new();
    let mut rest = list;
    assert(all.take(0) =~= Seq::<(Seq<char>, JsonView)>::empty());
    while rest.len() > 0
        invariant
            rest@.len() <= items.len(),
            rest@ == items.skip(items.len() - rest@.len()),
            all == pair_views(items),
            o.map() == object_map(all.take(items.len() - rest@.len())),
        decreases rest@.len(),
    {
        let ghost k = items.len() - rest@.len();
        let p = rest.remove(0);
        assert(p == items[k]);
        assert(rest@ =~= items.skip(k + 1));
        assert(all.take(k + 1).drop_last() =~= all.take(k));
        assert(all.take(k + 1).last() == all[k]);
        o = o.with(p.0, p.1);
    }
    assert(all.take(items.len() as int) =~= all);
    o.json()
}

// ---------------------------------------------------------------------------
// The text form
// ---------------------------------------------------------------------------

/// A number of `serde_json`. Floating-point numbers are carried in it unread.
#[verifier::external_type_specification]
#[verifier::external_body]
pub struct ExNumber(serde_json::Number);

/// A value of `serde_json`.
#[verifier::external_type_specification]
#[verifier::external_body]
pub struct ExValue(serde_json::Value);

/// What a `serde_json::Value` holds.
pub uninterp spec fn value_tree(v: serde_json::Value) -> JsonView;

/// What `serde_json::from_str` makes of a text: the value, or the text of the error.
pub uninterp spec fn json_parsed(s: Seq<char>) -> Result<JsonView, Seq<char>>;

/// Whether the text denotes the value.
pub open spec fn reads_as(s: Seq<char>, t: JsonView) -> bool {
    json_parsed(s) == Ok::<JsonView, Seq<char>>(t)
}

/// Whether the text is no JSON, with the given error text.
pub open spec fn fails_as(s: Seq<char>, e: Seq<char>) -> bool {
    json_parsed(s) == Err::<JsonView, Seq<char>>(e)
}

/// The compact text of a value, as `serde_json::Value` displays itself.
pub uninterp spec fn json_compact(t: JsonView) -> Seq<char>;

/// The indented text of a value, as `serde_json::to_string_pretty` writes it.
pub uninterp spec fn json_pretty(t: JsonView) -> Seq<char>;

/// Whether a value holds integers only, negative ones as such, and is nested at most `depth`
/// deep. The text of such a value can be read back as it was.
pub open spec fn is_plain(t: JsonView, depth: nat) -> bool
    decreases depth,
{
    match t {
        JsonView::Number(JsonNumber::Float(_)) => false,
        JsonView::Number(JsonNumber::Negative(n)) => n < 0,
        JsonView::Array(s) => depth > 0 && forall|i: int|
            0 <= i < s.len() ==> is_plain(#[trigger] s[i], (depth - 1) as nat),
        JsonView::Object(m) => depth > 0 && m.dom().finite() && forall|k: Seq<char>|
            m.dom().contains(k) ==> is_plain(#[trigger] m[k], (depth - 1) as nat),
        _ => true,
    }
}

/// The contents of the result of parsing.
pub open spec fn parse_view(r: Result<serde_json::Value, String>) -> Result<JsonView, Seq<char>> {
    match r {
        Ok(v) => Ok(value_tree(v)),
        Err(e) => Err(e@),
    }
}

/// `serde_json::from_str::<Value>`: the value that the text denotes, or the error as text.
#[verifier::external_body]
fn value_from_str(s: &str) -> (r: Result<serde_json::Value, String>)
    ensures
        json_parsed(s@) == parse_view(r),
{
    serde_json::from_str(s).map_err(|e| e.to_string())
}

/// Moves a `serde_json::Value` into a tree, variant by variant. `Number::as_u64` and
/// `Number::as_i64` tell integers from other numbers.
#[verifier::external_body]
fn tree_of_value(v: serde_json::Value) -> (r: Json)
    ensures
        r.tree() == value_tree(v),
{
    match v {
        serde_json::Value::Null => Json::Null,
        serde_json::Value::Bool(b) => Json::Bool(b),
        serde_json::Value::Number(n) => Json::Number(match (n.as_u64(), n.as_i64()) {
            (Some(u), _) => JsonNumber::Unsigned(u),
            (None, Some(i)) => JsonNumber::Negative(i),
            (None, None) => JsonNumber::Float(Fraction { n }),
        }),
        serde_json::Value::String(s) => Json::Str(s),
        serde_json::Value::Array(a) => Json::Array(a.into_iter().map(tree_of_value).collect()),
        serde_json::Value::Object(m) => {
            Json::Object(m.into_iter().map(|p| (p.0, tree_of_value(p.1))).collect())
        },
    }
}

/// Moves a tree into a `serde_json::Value`, variant by variant; members are set in their order,
/// so that of one name the last counts.
#[verifier::external_body]
fn value_of_tree(j: &Json) -> (r: serde_json::Value)
    ensures
        value_tree(r) == j.tree(),
{
    match j {
        Json::Null => serde_json::Value::Null,
        Json::Bool(b) => serde_json::Value::Bool(*b),
        Json::Number(JsonNumber::Unsigned(u)) => serde_json::Value::from(*u),
        Json::Number(JsonNumber::Negative(i)) => serde_json::Value::from(*i),
        Json::Number(JsonNumber::Float(f)) => serde_json::Value::Number(f.n.clone()),
        Json::Str(s) => serde_json::Value::String(s.clone()),
        Json::Array(a) => serde_json::Value::Array(a.iter().map(value_of_tree).collect()),
        Json::Object(m) => serde_json::Value::Object(
            m.iter().map(|p| (p.0.clone(), value_of_tree(&p.1))).collect(),
        ),
    }
}

/// Whether a text begins and ends with braces.
pub open spec fn in_braces(s: Seq<char>) -> bool {
    s.len() >= 2 && s[0] == '{' && s.last() == '}'
}

/// `serde_json::Value`'s own text form, without white space between its parts; control characters
/// in strings are escaped, so that it is a single line. That of an object stands in braces. Read
/// back, the text of a plain value that is not too deep for the parser gives that value.
#[verifier::external_body]
fn value_text(v: &serde_json::Value) -> (r: String)
    ensures
        r@ == json_compact(value_tree(*v)),
        !r@.contains('\n'),
        value_tree(*v) is Object ==> in_braces(r@),
        is_plain(value_tree(*v), 100) ==> reads_as(r@, value_tree(*v)),
{
    v.to_string()
}

/// `<serde_json::Value as Display>::fmt` in its alternate form, which writes what
/// `serde_json::to_string_pretty` writes: the text with a line per item. Read back, the text of a
/// plain value that is not too deep for the parser gives that value.
#[verifier::external_body]
fn value_text_pretty(v: &serde_json::Value) -> (r: String)
    ensures
        r@ == json_pretty(value_tree(*v)),
        is_plain(value_tree(*v), 100) ==> reads_as(r@, value_tree(*v)),
{
    format!("{:#}", v)
}

/// Reads a JSON text.
pub fn parse_json(s: &str) -> (r: Result<Json, String>)
    ensures
        match r {
            Ok(j) => reads_as(s@, j.tree()),
            Err(e) => fails_as(s@, e@),
        },
{
    match value_from_str(s) {
        Ok(v) => Ok(tree_of_value(v)),
        Err(e) => Err(e),
    }
}

/// The compact text of a value, on a single line.
pub fn render_json(j: &Json) -> (r: String)
    ensures
        r@ == json_compact(j.tree()),
        !r@.contains('\n'),
        j.tree() is Object ==> in_braces(r@),
        is_plain(j.tree(), 100) ==> reads_as(r@, j.tree()),
{
    value_text(&value_of_tree(j))
}

/// The indented text of a value.
pub fn render_pretty(j: &Json) -> (r: String)
    ensures
        r@ == json_pretty(j.tree()),
        is_plain(j.tree(), 100) ==> reads_as(r@, j.tree()),
{
    value_text_pretty(&value_of_tree(j))
}

/// An object whose members are plain is plain, one level deeper.
pub proof fn lemma_plain_object(s: Seq<(Seq<char>, JsonView)>, depth: nat)
    requires
        forall|i: int| 0 <= i < s.len() ==> is_plain((#[trigger] s[i]).1, depth),
    ensures
        is_plain(object(s), depth + 1),
    decreases s.len(),
{
    let m = object_map(s);
    if s.len() > 0 {
        let t = s.drop_last();
        assert forall|i: int| 0 <= i < t.len() implies is_plain((#[trigger] t[i]).1, depth) by {
            assert(t[i] == s[i]);
        }
        lemma_plain_object(t, depth);
        assert(is_plain(s[s.len() - 1].1, depth));
        assert forall|k: Seq<char>| m.dom().contains(k) implies is_plain(
            #[trigger] m[k],
            depth,
        ) by {
            if k != s.last().0 {
                assert(object_map(t).dom().contains(k));
                assert(m[k] == object_map(t)[k]);
            }
        }
    }
}

/// An array whose items are plain is plain, one level deeper.
pub proof fn lemma_plain_array(s: Seq<JsonView>, depth: nat)
    requires
        forall|i: int| 0 <= i < s.len() ==> is_plain(#[trigger] s[i], depth),
    ensures
        is_plain(JsonView::Array(s), depth + 1),
{
}

/// Plain values stay plain when more depth is allowed.
pub proof fn lemma_plain_deeper(t: JsonView, a: nat, b: nat)
    requires
        is_plain(t, a),
        a <= b,
    ensures
        is_plain(t, b),
    decreases a,
{
    match t {
        JsonView::Array(s) => {
            assert forall|i: int| 0 <= i < s.len() implies is_plain(
                #[trigger] s[i],
                (b - 1) as nat,
            ) by {
                lemma_plain_deeper(s[i], (a - 1) as nat, (b - 1) as nat);
            }
        },
        JsonView::Object(m) => {
            assert forall|k: Seq<char>| m.dom().contains(k) implies is_plain(
                #[trigger] m[k],
                (b - 1) as nat,
            ) by {
                lemma_plain_deeper(m[k], (a - 1) as nat, (b - 1) as nat);
            }
        },
        _ => {},
    }
}

} // verus!

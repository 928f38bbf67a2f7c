//! TOML documents as trees of plain data.

use vstd::prelude::*;

#[allow(unused_imports)]
use crate::order::ascending;
use crate::order::insert_sorted;
use crate::text::str_eq;
#[allow(unused_imports)]
use crate::text::views;

verus! {

/// A TOML value. Strings, arrays and tables are held as such; other scalars are not told apart.
pub enum Toml {
    Str(String),
    Array(Vec<Toml>),
    Table(Vec<(String, Toml)>),
    Scalar,
}

/// The mathematical value of a [`Toml`].
#[verifier::ext_equal]
pub enum TomlView {
    Str(Seq<char>),
    Array(Seq<TomlView>),
    Table(Map<Seq<char>, TomlView>),
    Scalar,
}

/// The values of the items of an array.
pub open spec fn toml_items(s: Seq<Toml>) -> Seq<TomlView>
    decreases s,
{
    Seq::new(
        s.len(),
        |i: int|
            if 0 <= i < s.len() {
                s[i].tree()
            } else {
                TomlView::Scalar
            },
    )
}

/// The entries of a table by key.
pub open spec fn toml_entries(s: Seq<(String, Toml)>) -> Map<Seq<char>, TomlView>
    decreases s,
{
    if s.len() == 0 {
        Map::empty()
    } else {
        toml_entries(s.drop_last()).insert(s.last().0@, s.last().1.tree())
    }
}

impl Toml {
    /// The value that this tree stands for.
    pub open spec fn tree(self) -> TomlView
        decreases self,
    {
        match self {
            Toml::Str(s) => TomlView::Str(s@),
            Toml::Array(v) => TomlView::Array(toml_items(v@)),
            Toml::Table(v) => TomlView::Table(toml_entries(v@)),
            Toml::Scalar => TomlView::Scalar,
        }
    }

    /// The entry of a table with the key `k`.
    pub fn get(&self, k: &str) -> (r: Option<&Toml>)
        ensures
            match r {
                Some(v) => self.tree().get(k@) == Some(v.tree()),
                None => self.tree().get(k@) is None,
            },
    {
        match self {
            Toml::Table(v) => {
                let mut n: usize = v.len();
                assert(v@.take(n as int) =~= v@);
                while n > 0
                    invariant
                        n <= v@.len(),
                        self.tree() == TomlView::Table(toml_entries(v@)),
                        toml_entries(v@).dom().contains(k@) == toml_entries(
                            v@.take(n as int),
                        ).dom().contains(k@),
                        toml_entries(v@).dom().contains(k@) ==> toml_entries(v@)[k@]
                            == toml_entries(v@.take(n as int))[k@],
                    decreases n,
                {
                    assert(v@.take(n as int).drop_last() =~= v@.take(n - 1));
                    assert(v@.take(n as int).last() == v@[n - 1]);
                    if str_eq(v[n - 1].0.as_str(), k) {
                        return Some(&v[n - 1].1);
                    }
                    n -= 1;
                }
                None
            },
            _ => None,
        }
    }
}

impl TomlView {
    /// The entry of a table with the key `k`.
    pub open spec fn get(self, k: Seq<char>) -> Option<TomlView> {
        match self {
            TomlView::Table(m) => if m.dom().contains(k) {
                Some(m[k])
            } else {
                None
            },
            _ => None,
        }
    }

    /// The text at the key `k`, where it is a string.
    pub open spec fn str_at(self, k: Seq<char>) -> Option<Seq<char>> {
        match self.get(k) {
            Some(TomlView::Str(s)) => Some(s),
            _ => None,
        }
    }
}

/// The keys of the entries of a table, in ascending order.
pub fn entry_names(fields: &Vec<(String, Toml)>) -> (r: Vec<String>)
    ensures
        ascending(views(r@)),
        forall|k: Seq<char>| #[trigger]
            views(r@).contains(k) <==> toml_entries(fields@).dom().contains(k),
{
    let mut r: Vec<String> = Vec::new();
    for i in 0..fields.len()
        invariant
            ascending(views(r@)),
            forall|k: Seq<char>| #[trigger]
                views(r@).contains(k) <==> toml_entries(fields@.take(i as int)).dom().contains(k),
    {
        assert(fields@.take(i + 1).drop_last() =~= fields@.take(i as int));
        assert(fields@.take(i + 1).last() == fields@[i as int]);
        insert_sorted(&mut r, fields[i].0.clone());
    }
    assert(fields@.take(fields@.len() as int) =~= fields@);
    r
}

/// A value of `toml`.
#[verifier::external_type_specification]
#[verifier::external_body]
pub struct ExTomlValue(toml::Value);

/// What a `toml::Value` holds.
pub uninterp spec fn toml_value(v: toml::Value) -> TomlView;

/// What `toml` makes of a document; nothing where it is malformed.
pub uninterp spec fn toml_parsed(s: Seq<char>) -> Option<TomlView>;

/// The contents of an optional value.
pub open spec fn opt_toml(v: Option<toml::Value>) -> Option<TomlView> {
    match v {
        Some(x) => Some(toml_value(x)),
        None => None,
    }
}

/// `str::parse::<toml::Table>`: the table that the document denotes, if it is one.
#[verifier::external_body]
fn table_from_str(s: &str) -> (r: Option<toml::Value>)
    ensures
        opt_toml(r) == toml_parsed(s@),
        r matches Some(v) ==> toml_value(v) is Table,
{
    s.parse::<toml::Table>().ok().map(toml::Value::Table)
}

/// Moves a `toml::Value` into a tree, variant by variant. The keys of a table come once each.
#[verifier::external_body]
fn tree_of_toml(v: toml::Value) -> (r: Toml)
    ensures
        r.tree() == toml_value(v),
{
    match v {
        toml::Value::String(s) => Toml::Str(s),
        toml::Value::Array(a) => Toml::Array(a.into_iter().map(tree_of_toml).collect()),
        toml::Value::Table(t) => {
            Toml::Table(t.into_iter().map(|p| (p.0, tree_of_toml(p.1))).collect())
        },
        _ => Toml::Scalar,
    }
}

/// Reads a TOML document.
pub fn parse_toml(s: &str) -> (r: Option<Toml>)
    ensures
        match r {
            Some(t) => toml_parsed(s@) == Some(t.tree()),
            None => toml_parsed(s@) is None,
        },
{
    match table_from_str(s) {
        Some(v) => Some(tree_of_toml(v)),
        None => None,
    }
}

} // verus!

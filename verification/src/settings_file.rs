//! Settings files: TOML documents that are edited in place, so that comments and layout stay.

use vstd::prelude::*;

verus! {

/// A TOML document of `toml_edit`.
#[verifier::external_type_specification]
#[verifier::external_body]
pub struct ExDocument(toml_edit::DocumentMut);

/// A value of `toml_edit`, with what surrounds it.
#[verifier::external_type_specification]
#[verifier::external_body]
pub struct ExEditValue(toml_edit::Value);

/// What surrounds a value: blanks before it, blanks and a comment after it.
#[verifier::external_type_specification]
#[verifier::external_body]
pub struct ExDecor(toml_edit::Decor);

/// A simple value. Floating-point numbers are given by their bits.
pub enum Scalar {
    Text(Seq<char>),
    Integer(i64),
    Float(u64),
    Bool(bool),
    /// A date, an array or a table.
    Other,
}

/// What surrounds a value, a key or a header: the text before it and the text after it, where
/// they are set.
pub struct Around {
    pub before: Option<Seq<char>>,
    pub after: Option<Seq<char>>,
}

/// Nothing set around a value.
pub open spec fn bare() -> Around {
    Around { before: None, after: None }
}

/// An entry of a section, with what surrounds its key as the last field.
pub enum Entry {
    /// A value with what surrounds it.
    Value(Scalar, Around, Around),
    /// A table of its own.
    Nested(Around),
}

/// A section of a document.
pub enum Section {
    Absent,
    NotATable,
    /// What surrounds the header (the comments above it, the comment behind it) and the entries.
    Table(Around, Map<Seq<char>, Entry>),
}

/// The section of a document with a name.
pub uninterp spec fn doc_section(d: toml_edit::DocumentMut, name: Seq<char>) -> Section;

/// What a document writes itself as when the section with a name is taken out: all other
/// sections and their comments, and what stands at the end.
pub uninterp spec fn doc_outside(d: toml_edit::DocumentMut, name: Seq<char>) -> Seq<char>;

/// What a document writes itself as.
pub uninterp spec fn document_text(d: toml_edit::DocumentMut) -> Seq<char>;

/// The section with a name of the document that a text denotes, or the text of the error.
pub uninterp spec fn text_section(s: Seq<char>, name: Seq<char>) -> Result<Section, Seq<char>>;

/// What the document that a text denotes writes itself as when the section with a name is taken
/// out.
pub uninterp spec fn text_outside(s: Seq<char>, name: Seq<char>) -> Seq<char>;

/// What a value holds.
pub uninterp spec fn value_scalar(v: toml_edit::Value) -> Scalar;

/// What surrounds a value.
pub uninterp spec fn value_around(v: toml_edit::Value) -> Around;

/// What a decoration holds.
pub uninterp spec fn decor_around(d: toml_edit::Decor) -> Around;

/// The bits of the floating-point number that a text denotes; those of zero where it is none.
pub uninterp spec fn float_bits(s: Seq<char>) -> u64;

/// The section with a name of the document that was read, or the error.
pub open spec fn read_section(
    r: Result<toml_edit::DocumentMut, String>,
    name: Seq<char>,
) -> Result<Section, Seq<char>> {
    match r {
        Ok(d) => Ok(doc_section(d, name)),
        Err(e) => Err(e@),
    }
}

/// The value at a key of a section, where there is one.
pub open spec fn scalar_at(s: Section, key: Seq<char>) -> Option<Scalar> {
    match s {
        Section::Table(_, m) => if m.dom().contains(key) {
            match m[key] {
                Entry::Value(v, _, _) => Some(v),
                Entry::Nested(_) => None,
            }
        } else {
            None
        },
        _ => None,
    }
}

/// What surrounds the value of an entry, where it is one.
pub open spec fn entry_around(s: Section, key: Seq<char>) -> Option<Around> {
    match s {
        Section::Table(_, m) => if m.dom().contains(key) {
            match m[key] {
                Entry::Value(_, a, _) => Some(a),
                Entry::Nested(_) => None,
            }
        } else {
            None
        },
        _ => None,
    }
}

/// What surrounds a key of a section; nothing where there is no entry.
pub open spec fn key_around(s: Section, key: Seq<char>) -> Around {
    match s {
        Section::Table(_, m) => if m.dom().contains(key) {
            match m[key] {
                Entry::Value(_, _, a) => a,
                Entry::Nested(a) => a,
            }
        } else {
            bare()
        },
        _ => bare(),
    }
}

/// Whether a text holds blanks and tabs alone.
pub open spec fn is_blank(s: Seq<char>) -> bool {
    forall|i: int| 0 <= i < s.len() ==> #[trigger] s[i] == ' ' || s[i] == '\t'
}

/// Whether a text is a comment up to the end of its line.
pub open spec fn is_comment(s: Seq<char>) -> bool {
    s.len() > 0 && s[0] == '#' && forall|i: int|
        0 <= i < s.len() ==> #[trigger] s[i] == '\t' || (s[i] >= ' ' && s[i] != '\u{7f}')
}

/// Whether blanks stand before something, and blanks and perhaps a comment behind it.
pub open spec fn is_quiet(a: Around) -> bool {
    &&& a.before matches Some(b) ==> is_blank(b)
    &&& a.after matches Some(s) ==> is_blank(s) || exists|n: int|
        0 <= n < s.len() && is_blank(s.take(n)) && #[trigger] is_comment(s.skip(n))
}

/// Whether nothing but blanks stands between a key and its value, and what stands around the
/// value ends with its line.
pub open spec fn is_tidy_entry(e: Entry) -> bool {
    match e {
        Entry::Value(_, value, key) => is_quiet(value) && (key.after matches Some(s) ==> is_blank(
            s,
        )),
        Entry::Nested(key) => (key.before matches Some(s) ==> is_blank(s)) && (
        key.after matches Some(s) ==> is_blank(s)),
    }
}

/// Whether the entries of a section are laid out so that each stands on a line of its own.
pub open spec fn is_tidy(s: Section) -> bool {
    s matches Section::Table(_, m) ==> forall|key: Seq<char>|
        m.dom().contains(key) ==> is_tidy_entry(#[trigger] m[key])
}

/// Whether these are the bits of a floating-point value that is not a number.
pub open spec fn is_nan(bits: u64) -> bool {
    let magnitude: int = if bits >= 0x8000_0000_0000_0000 {
        bits - 0x8000_0000_0000_0000
    } else {
        bits as int
    };
    magnitude > 0x7ff0_0000_0000_0000
}

/// Whether two values are the same; all that are not a number count as one.
pub open spec fn same_scalar(a: Option<Scalar>, b: Option<Scalar>) -> bool {
    match (a, b) {
        (Some(Scalar::Float(x)), Some(Scalar::Float(y))) => x == y || (is_nan(x) && is_nan(y)),
        _ => a == b,
    }
}

/// Whether a text denotes a document whose section `name` holds, key by key, the values of the
/// given section.
pub open spec fn text_holds(text: Seq<char>, name: Seq<char>, s: Section) -> bool {
    text_section(text, name) matches Ok(t) && forall|key: Seq<char>|
        same_scalar(#[trigger] scalar_at(t, key), scalar_at(s, key))
}

/// Whether reading the text of a document gives back the values of all its sections.
pub open spec fn reads_back(d: toml_edit::DocumentMut) -> bool {
    forall|name: Seq<char>| #[trigger] text_holds(document_text(d), name, doc_section(d, name))
}

/// Whether two documents have the same sections but for one.
pub open spec fn same_but(
    d: toml_edit::DocumentMut,
    e: toml_edit::DocumentMut,
    name: Seq<char>,
) -> bool {
    &&& doc_outside(d, name) == doc_outside(e, name)
    &&& forall|other: Seq<char>|
        other != name ==> #[trigger] doc_section(d, other) == doc_section(e, other)
}

/// `str::parse::<toml_edit::DocumentMut>`: the document that a text denotes, or the error as
/// text. What was read is laid out line by line, and the text that it writes itself as reads as
/// the same values.
#[verifier::external_body]
pub(crate) fn parse_document(s: &str) -> (r: Result<toml_edit::DocumentMut, String>)
    ensures
        forall|name: Seq<char>| read_section(r, name) == #[trigger] text_section(s@, name),
        r matches Ok(d) ==> forall|name: Seq<char>|
            doc_outside(d, name) == #[trigger] text_outside(s@, name),
        r matches Ok(d) ==> forall|name: Seq<char>| is_tidy(#[trigger] doc_section(d, name)),
        r matches Ok(d) ==> reads_back(d),
{
    s.parse::<toml_edit::DocumentMut>().map_err(|e| e.to_string())
}

/// `DocumentMut::to_string`: the text of a document.
#[verifier::external_body]
pub(crate) fn document_text_of(d: &toml_edit::DocumentMut) -> (r: String)
    ensures
        r@ == document_text(*d),
{
    d.to_string()
}

/// `Item::or_insert` on a top-level key, and `Item::as_table_mut`: a section that is absent is
/// made, as an empty table. Says whether the section is a table. A header more or less keeps a
/// text readable.
#[verifier::external_body]
pub(crate) fn open_section(d: &mut toml_edit::DocumentMut, name: &str) -> (r: bool)
    ensures
        r == !(doc_section(*old(d), name@) is NotATable),
        r ==> doc_section(*final(d), name@) == (match doc_section(*old(d), name@) {
            Section::Table(h, m) => Section::Table(h, m),
            _ => Section::Table(bare(), Map::empty()),
        }),
        same_but(*final(d), *old(d), name@),
        reads_back(*old(d)) ==> reads_back(*final(d)),
{
    d[name].or_insert(toml_edit::Item::Table(toml_edit::Table::new())).as_table_mut().is_some()
}

/// What an optional decoration holds.
pub open spec fn opt_around(d: Option<toml_edit::Decor>) -> Option<Around> {
    match d {
        Some(x) => Some(decor_around(x)),
        None => None,
    }
}

/// `Table::get`, `Item::as_value` and `Value::decor`: what surrounds the value at a key.
#[verifier::external_body]
fn decor_at(d: &toml_edit::DocumentMut, name: &str, key: &str) -> (r: Option<toml_edit::Decor>)
    ensures
        opt_around(r) == entry_around(doc_section(*d, name@), key@),
{
    let item = d.get(name)?.as_table()?.get(key)?;
    Some(item.as_value()?.decor().clone())
}

/// `Value::decor_mut`: the value with something else around it.
#[verifier::external_body]
fn with_decor(v: toml_edit::Value, decor: toml_edit::Decor) -> (r: toml_edit::Value)
    ensures
        value_scalar(r) == value_scalar(v),
        value_around(r) == decor_around(decor),
{
    let mut v = v;
    *v.decor_mut() = decor;
    v
}

/// An assignment to a `Table` indexed by a key (`IndexMut`): the value takes the place of what
/// stood at the key of the section, and what surrounds the key stays. A simple value is written
/// so that it reads as itself, where what surrounds it ends with its line.
#[verifier::external_body]
fn insert_value(d: &mut toml_edit::DocumentMut, name: &str, key: &str, v: toml_edit::Value)
    requires
        doc_section(*old(d), name@) is Table,
    ensures
        doc_section(*final(d), name@) == Section::Table(
            doc_section(*old(d), name@)->Table_0,
            doc_section(*old(d), name@)->Table_1.insert(
                key@,
                Entry::Value(
                    value_scalar(v),
                    value_around(v),
                    key_around(doc_section(*old(d), name@), key@),
                ),
            ),
        ),
        same_but(*final(d), *old(d), name@),
        reads_back(*old(d)) && is_tidy(doc_section(*old(d), name@)) && is_quiet(value_around(v))
            && !(value_scalar(v) is Other) ==> reads_back(*final(d)),
{
    if let Some(t) = d[name].as_table_mut() {
        t[key] = toml_edit::Item::Value(v);
    }
}

/// `Table::remove`: the entry of the section with the key goes, with its line.
#[verifier::external_body]
pub(crate) fn remove_key(d: &mut toml_edit::DocumentMut, name: &str, key: &str)
    requires
        doc_section(*old(d), name@) is Table,
    ensures
        doc_section(*final(d), name@) == Section::Table(
            doc_section(*old(d), name@)->Table_0,
            doc_section(*old(d), name@)->Table_1.remove(key@),
        ),
        same_but(*final(d), *old(d), name@),
        reads_back(*old(d)) && is_tidy(doc_section(*old(d), name@)) ==> reads_back(*final(d)),
{
    if let Some(t) = d[name].as_table_mut() {
        t.remove(key);
    }
}

/// `toml_edit::Value::from` a string.
#[verifier::external_body]
pub(crate) fn text_value(s: &str) -> (r: toml_edit::Value)
    ensures
        value_scalar(r) == Scalar::Text(s@),
        value_around(r) == bare(),
{
    toml_edit::Value::from(s)
}

/// `toml_edit::Value::from` an integer.
#[verifier::external_body]
pub(crate) fn integer_value(n: i64) -> (r: toml_edit::Value)
    ensures
        value_scalar(r) == Scalar::Integer(n),
        value_around(r) == bare(),
{
    toml_edit::Value::from(n)
}

/// `toml_edit::Value::from` a truth value.
#[verifier::external_body]
pub(crate) fn bool_value(b: bool) -> (r: toml_edit::Value)
    ensures
        value_scalar(r) == Scalar::Bool(b),
        value_around(r) == bare(),
{
    toml_edit::Value::from(b)
}

/// `str::parse` and `toml_edit::Formatted::new`: the floating-point number that a text denotes.
#[verifier::external_body]
pub(crate) fn float_value(s: &str) -> (r: toml_edit::Value)
    ensures
        value_scalar(r) == Scalar::Float(float_bits(s@)),
        value_around(r) == bare(),
{
    toml_edit::Value::Float(toml_edit::Formatted::new(s.parse().unwrap_or_default()))
}

/// The entries with the value at `key` set. Where there was a value, what surrounds it stays,
/// and so does what surrounds the key.
pub open spec fn kept(m: Map<Seq<char>, Entry>, key: Seq<char>, v: Scalar) -> Map<Seq<char>, Entry> {
    let s = Section::Table(bare(), m);
    m.insert(
        key,
        Entry::Value(
            v,
            match entry_around(s, key) {
                Some(a) => a,
                None => bare(),
            },
            key_around(s, key),
        ),
    )
}

/// Sets a value of a section and keeps the comments around the old one.
pub(crate) fn set_keep_decor(d: &mut toml_edit::DocumentMut, name: &str, key: &str, v: toml_edit::Value)
    requires
        doc_section(*old(d), name@) is Table,
        is_tidy(doc_section(*old(d), name@)),
        value_around(v) == bare(),
        !(value_scalar(v) is Other),
    ensures
        doc_section(*final(d), name@) == Section::Table(
            doc_section(*old(d), name@)->Table_0,
            kept(doc_section(*old(d), name@)->Table_1, key@, value_scalar(v)),
        ),
        is_tidy(doc_section(*final(d), name@)),
        same_but(*final(d), *old(d), name@),
        reads_back(*old(d)) ==> reads_back(*final(d)),
{
    let item = match decor_at(d, name, key) {
        Some(decor) => with_decor(v, decor),
        None => v,
    };
    insert_value(d, name, key, item);
}

} // verus!

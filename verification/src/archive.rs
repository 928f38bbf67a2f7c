//! Zip archives in memory.

use vstd::prelude::*;

verus! {

/// What an archive holds under a name.
pub enum Entry {
    /// The bytes are no archive.
    BadArchive(String),
    /// There is no such entry, or it cannot be opened.
    Absent(String),
    /// The entry cannot be read as text.
    Unreadable(String),
    Text(String),
}

/// The mathematical value of an [`Entry`].
#[verifier::ext_equal]
pub enum EntryView {
    BadArchive(Seq<char>),
    Absent(Seq<char>),
    Unreadable(Seq<char>),
    Text(Seq<char>),
}

impl View for Entry {
    type V = EntryView;

    open spec fn view(&self) -> EntryView {
        match *self {
            Entry::BadArchive(e) => EntryView::BadArchive(e@),
            Entry::Absent(e) => EntryView::Absent(e@),
            Entry::Unreadable(e) => EntryView::Unreadable(e@),
            Entry::Text(t) => EntryView::Text(t@),
        }
    }
}

/// What `zip` reads from an archive under a name.
pub uninterp spec fn archive_entry(bytes: Seq<u8>, name: Seq<char>) -> EntryView;

/// The name of the entry that describes a modpack.
pub const INDEX_NAME: &'static str = "modrinth.index.json";

/// `zip::ZipArchive::new`, `by_name` and `read_to_string`: the text of the entry, or which of
/// the three failed and with what error text.
#[verifier::external_body]
pub(crate) fn read_entry(bytes: &[u8], name: &str) -> (r: Entry)
    ensures
        r@ == archive_entry(bytes@, name@),
{
    let mut archive = match zip::ZipArchive::new(std::io::Cursor::new(bytes)) {
        Ok(a) => a,
        Err(e) => return Entry::BadArchive(e.to_string()),
    };
    let mut file = match archive.by_name(name) {
        Ok(f) => f,
        Err(e) => return Entry::Absent(e.to_string()),
    };
    let mut text = String::new();
    match std::io::Read::read_to_string(&mut file, &mut text) {
        Ok(_) => Entry::Text(text),
        Err(e) => Entry::Unreadable(e.to_string()),
    }
}

/// Why `zip` cannot write an archive with the one entry [`INDEX_NAME`] in memory, as the text of
/// the error; nothing where it can.
pub uninterp spec fn archive_failure(text: Seq<char>) -> Option<Seq<char>>;

/// The text of the error of a result.
pub open spec fn failure_of(r: Result<Vec<u8>, String>) -> Option<Seq<char>> {
    match r {
        Ok(_) => None,
        Err(e) => Some(e@),
    }
}

/// `zip::ZipWriter`: an archive with the one entry [`INDEX_NAME`], which reads back as the text
/// that was written. Whether the writer fails in memory, and with what error, depends on the text
/// alone, for it has a limit on the size of an entry. The bytes also tell the system that they
/// were written on, so nothing else is said of them.
#[verifier::external_body]
pub(crate) fn write_index(text: &str) -> (r: Result<Vec<u8>, String>)
    ensures
        failure_of(r) == archive_failure(text@),
        r matches Ok(b) ==> archive_entry(b@, INDEX_NAME@) == EntryView::Text(text@),
{
    let mut w = zip::ZipWriter::new(std::io::Cursor::new(Vec::new()));
    w.start_file(INDEX_NAME, zip::write::SimpleFileOptions::default()).map_err(|e| e.to_string())?;
    std::io::Write::write_all(&mut w, text.as_bytes()).map_err(|e| e.to_string())?;
    Ok(w.finish().map_err(|e| e.to_string())?.into_inner())
}

/// The archive of a modpack with the given description.
pub fn pack_bytes(index: &str) -> (r: Result<Vec<u8>, String>)
    ensures
        failure_of(r) == archive_failure(index@),
        r matches Ok(b) ==> archive_entry(b@, INDEX_NAME@) == EntryView::Text(index@),
{
    write_index(index)
}

/// The description of a modpack, or the error as text.
pub fn pack_index(bytes: &[u8]) -> (r: Result<String, String>)
    ensures
        match (r, archive_entry(bytes@, INDEX_NAME@)) {
            (Ok(t), EntryView::Text(u)) => t@ == u,
            (Err(e), EntryView::BadArchive(u)) => e@ == u,
            (Err(e), EntryView::Absent(u)) => e@ == u,
            (Err(e), EntryView::Unreadable(u)) => e@ == u,
            _ => false,
        },
{
    match read_entry(bytes, INDEX_NAME) {
        Entry::Text(t) => Ok(t),
        Entry::BadArchive(e) => Err(e),
        Entry::Absent(e) => Err(e),
        Entry::Unreadable(e) => Err(e),
    }
}

} // verus!

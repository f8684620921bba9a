//! The zip reader under the inspection: what is taken on trust of it.
//!
//! Nothing in this module is proved. Each item names the function of the
//! `zip` crate that it stands for and says what is claimed of it.

use std::io::Cursor;
use std::io::Read;
use vstd::prelude::*;
use zip::read::ZipArchive;
use zip::read::ZipFile;

verus! {

/// `std::io::Cursor`, the in-memory reader that the archive is opened on.
#[verifier::external_type_specification]
#[verifier::external_body]
#[verifier::reject_recursive_types(T)]
pub struct ExCursor<T>(Cursor<T>);

/// `zip::read::ZipArchive`, an opened archive with its parsed directory.
#[verifier::external_type_specification]
#[verifier::external_body]
#[verifier::reject_recursive_types(R)]
pub struct ExZipArchive<R>(ZipArchive<R>);

/// An archive opened on bytes held in memory.
pub type Archive = ZipArchive<Cursor<Vec<u8>>>;

/// One opened record of an [`Archive`]: a `zip::read::ZipFile`, which borrows
/// the archive for as long as it lives.
///
/// The record is held in a struct of this crate whose inside Verus does not
/// read, because `ZipFile` itself cannot be declared to Verus: its type is
/// bound by `std::io::Read`, a trait that Verus does not know.
#[verifier::external_body]
pub struct EntryReader<'a> {
    file: ZipFile<'a, Cursor<Vec<u8>>>,
}

/// What the reader reports of one record that it could open.
pub struct RecordModel {
    /// The record's name, or the message with which decoding the name failed.
    pub name: Result<Seq<char>, Seq<char>>,
    /// Whether the reader takes the record for a directory.
    pub is_dir: bool,
    /// The decompressed bytes, or the message with which reading them failed.
    pub payload: Result<Seq<u8>, Seq<char>>,
}

/// One record of a directory as the reader sees it: what it reports of the
/// record, or the message with which opening the record failed.
pub type RecordOutcome = Result<RecordModel, Seq<char>>;

/// What `ZipArchive::new` finds in `bytes`: the records of the directory in
/// the order in which indices reach them, or the message with which the
/// bytes were rejected.
pub uninterp spec fn zip_directory(bytes: Seq<u8>) -> Result<Seq<RecordOutcome>, Seq<char>>;

/// The records that `archive` holds, index by index.
pub uninterp spec fn archive_records(archive: Archive) -> Seq<RecordOutcome>;

/// What `ZipFile::name` returns for `entry`.
pub uninterp spec fn reader_name(entry: EntryReader) -> Result<Seq<char>, Seq<char>>;

/// What `ZipFile::is_dir` returns for `entry`.
pub uninterp spec fn reader_is_dir(entry: EntryReader) -> bool;

/// What reading `entry` to its end yields.
pub uninterp spec fn reader_payload(entry: EntryReader) -> Result<Seq<u8>, Seq<char>>;

/// Everything the reader reports of the opened record `entry`.
pub open spec fn record_of(entry: EntryReader) -> RecordModel {
    RecordModel {
        name: reader_name(entry),
        is_dir: reader_is_dir(entry),
        payload: reader_payload(entry),
    }
}

/// An opened archive by its records, or a failure by its message.
pub open spec fn archive_outcome(opened: Result<Archive, String>) -> Result<
    Seq<RecordOutcome>,
    Seq<char>,
> {
    match opened {
        Ok(archive) => Ok(archive_records(archive)),
        Err(message) => Err(message@),
    }
}

/// An opened record by what the reader reports of it, or a failure by its
/// message.
pub open spec fn record_outcome(opened: Result<EntryReader, String>) -> RecordOutcome {
    match opened {
        Ok(entry) => Ok(record_of(entry)),
        Err(message) => Err(message@),
    }
}

/// A text or a failure message, by its characters.
pub open spec fn text_outcome(outcome: Result<String, String>) -> Result<Seq<char>, Seq<char>> {
    match outcome {
        Ok(text) => Ok(text@),
        Err(message) => Err(message@),
    }
}

/// A payload or a failure message, by its bytes or characters.
pub open spec fn bytes_outcome(outcome: Result<Vec<u8>, String>) -> Result<Seq<u8>, Seq<char>> {
    match outcome {
        Ok(bytes) => Ok(bytes@),
        Err(message) => Err(message@),
    }
}

/// Opens `bytes` as a zip archive.
///
/// Trusted: the body calls `ZipArchive::new` on a cursor over a copy of
/// `bytes` and turns the crate's error into its message. The contract claims
/// that the outcome depends on the bytes alone: whether they are accepted,
/// the message if they are not, and the records of the archive if they are.
#[verifier::external_body]
pub(crate) fn open_archive(bytes: &[u8]) -> (opened: Result<Archive, String>)
    ensures
        archive_outcome(opened) == zip_directory(bytes@),
{
    match ZipArchive::new(Cursor::new(bytes.to_vec())) {
        Ok(archive) => Ok(archive),
        Err(error) => Err(error.to_string()),
    }
}

/// The number of records in the directory of `archive`.
///
/// Trusted: the body calls `ZipArchive::len`. The contract claims that it
/// counts the records that indices reach.
#[verifier::external_body]
pub(crate) fn record_count(archive: &Archive) -> (count: usize)
    ensures
        count == archive_records(*archive).len(),
{
    archive.len()
}

/// Opens the record at `index` for reading.
///
/// Trusted: the body calls `ZipArchive::by_index` and turns the crate's error
/// into its message. The contract claims that an index within the directory
/// gives the record that stands there, or the message of its failure, and
/// that opening a record leaves the records of the archive as they were.
#[verifier::external_body]
pub(crate) fn open_record<'a>(archive: &'a mut Archive, index: usize) -> (opened: Result<
    EntryReader<'a>,
    String,
>)
    ensures
        archive_records(*final(archive)) == archive_records(*old(archive)),
        index < archive_records(*old(archive)).len() ==> record_outcome(opened)
            == archive_records(*old(archive))[index as int],
{
    match archive.by_index(index) {
        Ok(file) => Ok(EntryReader { file }),
        Err(error) => Err(error.to_string()),
    }
}

/// The name under which `entry` is stored.
///
/// Trusted: the body calls `ZipFile::name`, copies the name out and turns the
/// crate's error into its message.
#[verifier::external_body]
pub(crate) fn record_name(entry: &EntryReader) -> (name: Result<String, String>)
    ensures
        text_outcome(name) == reader_name(*entry),
{
    match entry.file.name() {
        Ok(name) => Ok(name.into_owned()),
        Err(error) => Err(error.to_string()),
    }
}

/// Whether `entry` is a directory.
///
/// Trusted: the body calls `ZipFile::is_dir`.
#[verifier::external_body]
pub(crate) fn record_is_dir(entry: &EntryReader) -> (is_dir: bool)
    ensures
        is_dir == reader_is_dir(*entry),
{
    entry.file.is_dir()
}

/// Decompresses the whole payload of `entry` into memory.
///
/// Trusted: the body calls `read_to_end`, which `ZipFile` implements for
/// `std::io::Read`, on an empty buffer, and turns the error into its message.
/// The contract claims that the bytes, or the message, depend on the opened
/// record alone.
#[verifier::external_body]
pub(crate) fn read_payload(entry: EntryReader) -> (payload: Result<Vec<u8>, String>)
    ensures
        bytes_outcome(payload) == reader_payload(entry),
{
    let mut entry = entry;
    let mut buffer = Vec::new();
    match entry.file.read_to_end(&mut buffer) {
        Ok(_) => Ok(buffer),
        Err(error) => Err(error.to_string()),
    }
}

} // verus!

//! Walking an archive: from its bytes to its summary.

use crate::container::archive_records;
use crate::container::open_archive;
use crate::container::open_record;
use crate::container::read_payload;
use crate::container::record_count;
use crate::container::record_is_dir;
use crate::container::record_name;
use crate::container::record_of;
use crate::container::record_outcome;
use crate::container::zip_directory;
use crate::container::EntryReader;
use crate::container::RecordOutcome;
use crate::container::RecordModel;
use crate::decode::lossy_text;
use crate::summary::directory_entry;
use crate::summary::file_entry;
use crate::summary::ArchiveEntry;
use crate::summary::ArchiveSummary;
use crate::summary::strip_separator;
use crate::summary::EntryView;
use crate::textual::ends_in_extension;
use crate::textual::lemma_extension_is_suffix;
use vstd::prelude::*;
use vstd::utf8::*;

verus! {

/// The entry that one record gives, or the message of the first thing that
/// fails: opening the record, decoding its name, or, for a file, reading its
/// payload. The payload of a directory is never read.
pub open spec fn record_entry(record: RecordOutcome) -> Result<EntryView, Seq<char>> {
    match record {
        Err(message) => Err(message),
        Ok(found) => match found.name {
            Err(message) => Err(message),
            Ok(name) => if found.is_dir {
                Ok(directory_entry(name))
            } else {
                match found.payload {
                    Err(message) => Err(message),
                    Ok(payload) => Ok(file_entry(name, payload)),
                }
            },
        },
    }
}

/// Whether the record at `index` is the first of `records` that gives no
/// entry.
pub open spec fn is_first_failure(records: Seq<RecordOutcome>, index: int) -> bool {
    &&& 0 <= index < records.len()
    &&& record_entry(records[index]) is Err
    &&& forall|earlier: int|
        0 <= earlier < index ==> record_entry(#[trigger] records[earlier]) is Ok
}

/// The summary of a directory: one entry for each record, in order, or, where
/// some record fails, the message of the first that does.
pub open spec fn summarize(records: Seq<RecordOutcome>) -> Result<Seq<EntryView>, Seq<char>> {
    if exists|index: int| is_first_failure(records, index) {
        let first = choose|index: int| is_first_failure(records, index);
        Err(record_entry(records[first])->Err_0)
    } else {
        Ok(records.map_values(|record: RecordOutcome| record_entry(record)->Ok_0))
    }
}

/// What inspecting `bytes` yields: the reader's message where it rejects the
/// bytes, else the summary of the directory it finds.
pub open spec fn inspection(bytes: Seq<u8>) -> Result<Seq<EntryView>, Seq<char>> {
    match zip_directory(bytes) {
        Err(message) => Err(message),
        Ok(records) => summarize(records),
    }
}

/// An entry by its view, or a failure by its message.
pub open spec fn entry_outcome(outcome: Result<ArchiveEntry, String>) -> Result<
    EntryView,
    Seq<char>,
> {
    match outcome {
        Ok(entry) => Ok(entry@),
        Err(message) => Err(message@),
    }
}

/// A summary by its view, or a failure by its message.
pub open spec fn summary_outcome(result: Result<ArchiveSummary, String>) -> Result<
    Seq<EntryView>,
    Seq<char>,
> {
    match result {
        Ok(summary) => Ok(summary@),
        Err(message) => Err(message@),
    }
}

/// Whether `entry` keeps the text of `record` as it is: where the record is
/// a file with content and its payload is valid UTF-8, the content is the
/// very characters that the payload encodes.
pub open spec fn keeps_valid_text(record: RecordOutcome, entry: EntryView) -> bool {
    record is Ok && !record->Ok_0.is_dir && record->Ok_0.payload is Ok && valid_utf8(
        record->Ok_0.payload->Ok_0,
    ) && entry.content is Some ==> entry.content == Some(
        decode_utf8(record->Ok_0.payload->Ok_0),
    )
}

/// Whether `record` gives an entry, and `entry` is the one it gives.
pub open spec fn yields(record: RecordOutcome, entry: ArchiveEntry) -> bool {
    entry_outcome(Ok(entry)) == record_entry(record)
}

/// A directory has at most one first failure.
proof fn lemma_first_failure_is_unique(records: Seq<RecordOutcome>, first: int, second: int)
    requires
        is_first_failure(records, first),
        is_first_failure(records, second),
    ensures
        first == second,
{
    if first < second {
        assert(record_entry(records[first]) is Ok);
    } else if second < first {
        assert(record_entry(records[second]) is Ok);
    }
}

/// Where a directory gives a summary, every one of its records gives
/// exactly one entry, at the record's own place: none is dropped, none is
/// added, and the order is that of the directory.
pub proof fn lemma_one_entry_per_record(records: Seq<RecordOutcome>)
    requires
        summarize(records) is Ok,
    ensures
        summarize(records)->Ok_0.len() == records.len(),
        forall|i: int|
            0 <= i < records.len() ==> record_entry(#[trigger] records[i]) is Ok && record_entry(
                records[i],
            )->Ok_0 == summarize(records)->Ok_0[i],
{
    assert forall|i: int| 0 <= i < records.len() implies record_entry(
        #[trigger] records[i],
    ) is Ok by {
        if record_entry(records[i]) is Err {
            lemma_some_failure_is_first(records, i);
        }
    }
}

/// Where some record of a directory gives no entry, one record is the first
/// to do so.
proof fn lemma_some_failure_is_first(records: Seq<RecordOutcome>, failing: int)
    requires
        0 <= failing < records.len(),
        record_entry(records[failing]) is Err,
    ensures
        exists|first: int| is_first_failure(records, first),
    decreases failing,
{
    if exists|earlier: int| 0 <= earlier < failing && record_entry(records[earlier]) is Err {
        let earlier = choose|earlier: int|
            0 <= earlier < failing && record_entry(records[earlier]) is Err;
        lemma_some_failure_is_first(records, earlier);
    } else {
        assert(is_first_failure(records, failing));
    }
}

/// An inspection fails exactly when the reader rejects the bytes or some
/// record of the directory gives no entry; it then returns a message and no
/// part of a summary. Where it succeeds, the summary has as many entries as
/// the directory has records.
pub proof fn lemma_failure_is_total(bytes: Seq<u8>)
    ensures
        inspection(bytes) is Err <==> zip_directory(bytes) is Err || exists|i: int|
            0 <= i < zip_directory(bytes)->Ok_0.len() && record_entry(
                #[trigger] zip_directory(bytes)->Ok_0[i],
            ) is Err,
        inspection(bytes) is Ok ==> zip_directory(bytes) is Ok && inspection(bytes)->Ok_0.len()
            == zip_directory(bytes)->Ok_0.len(),
{
    if zip_directory(bytes) is Ok {
        let records = zip_directory(bytes)->Ok_0;
        if summarize(records) is Ok {
            lemma_one_entry_per_record(records);
        } else {
            let first = choose|first: int| is_first_failure(records, first);
            assert(record_entry(records[first]) is Err);
        }
    }
}

/// A record that the reader takes for a directory gives an entry that is a
/// directory, of size 0, without content, whatever its payload holds. Its
/// path is the name without one trailing `/`, so the path ends in `/` only
/// where the name ended in two of them.
pub proof fn lemma_directory_record(found: RecordModel)
    requires
        found.is_dir,
        found.name is Ok,
    ensures
        record_entry(Ok(found)) is Ok,
        record_entry(Ok(found))->Ok_0 == directory_entry(found.name->Ok_0),
        record_entry(Ok(found))->Ok_0.is_dir,
        record_entry(Ok(found))->Ok_0.size == 0,
        record_entry(Ok(found))->Ok_0.content is None,
        record_entry(Ok(found))->Ok_0.path == strip_separator(found.name->Ok_0),
        ({
            let name = found.name->Ok_0;
            let path = record_entry(Ok(found))->Ok_0.path;
            path.len() > 0 && path.last() == '/' ==> name.len() >= 2 && name[name.len() - 1] == '/'
                && name[name.len() - 2] == '/'
        }),
{
}

/// A file whose payload can be read gives an entry whose size is the number
/// of bytes of the payload, whether or not text was made of them, and whose
/// content is the lossy decoding of the payload where the name ends in
/// `.xml`, `.rels` or `.txt`, in any case of the letters, and is absent for
/// every other name.
pub proof fn lemma_file_record(found: RecordModel)
    requires
        !found.is_dir,
        found.name is Ok,
        found.payload is Ok,
    ensures
        record_entry(Ok(found)) is Ok,
        record_entry(Ok(found))->Ok_0 == file_entry(found.name->Ok_0, found.payload->Ok_0),
        !record_entry(Ok(found))->Ok_0.is_dir,
        record_entry(Ok(found))->Ok_0.path == found.name->Ok_0,
        record_entry(Ok(found))->Ok_0.size == found.payload->Ok_0.len(),
        ({
            let name = found.name->Ok_0;
            let textual = ends_in_extension(name, seq!['x', 'm', 'l']) || ends_in_extension(
                name,
                seq!['r', 'e', 'l', 's'],
            ) || ends_in_extension(name, seq!['t', 'x', 't']);
            record_entry(Ok(found))->Ok_0.content == if textual {
                Some(lossy_text(found.payload->Ok_0))
            } else {
                None
            }
        }),
{
    let name = found.name->Ok_0;
    lemma_extension_is_suffix(name, seq!['x', 'm', 'l']);
    lemma_extension_is_suffix(name, seq!['r', 'e', 'l', 's']);
    lemma_extension_is_suffix(name, seq!['t', 'x', 't']);
}

/// Every entry of a summary obeys the rules of [`EntryView::wf`].
pub proof fn lemma_entries_are_well_formed(records: Seq<RecordOutcome>)
    requires
        summarize(records) is Ok,
    ensures
        forall|i: int|
            0 <= i < summarize(records)->Ok_0.len() ==> (#[trigger] summarize(
                records,
            )->Ok_0[i]).wf(),
{
    lemma_one_entry_per_record(records);
    assert forall|i: int| 0 <= i < summarize(records)->Ok_0.len() implies (#[trigger] summarize(
        records,
    )->Ok_0[i]).wf() by {
        assert(record_entry(records[i]) is Ok);
    }
}

/// Two inspections of the same bytes end alike: both fail with the same
/// message, or both give summaries with the same entries in the same order.
pub proof fn lemma_inspection_is_repeatable(
    bytes: Seq<u8>,
    first: Result<ArchiveSummary, String>,
    second: Result<ArchiveSummary, String>,
)
    requires
        summary_outcome(first) == inspection(bytes),
        summary_outcome(second) == inspection(bytes),
    ensures
        summary_outcome(first) == summary_outcome(second),
        first is Ok <==> second is Ok,
        first is Ok ==> first->Ok_0@ == second->Ok_0@,
        first is Err ==> first->Err_0@ == second->Err_0@,
{
}

/// Makes the entry of one opened record.
fn inspect_record(reader: EntryReader) -> (outcome: Result<ArchiveEntry, String>)
    ensures
        entry_outcome(outcome) == record_entry(Ok(record_of(reader))),
        outcome matches Ok(entry) ==> entry.wf() && keeps_valid_text(
            Ok(record_of(reader)),
            entry@,
        ),
{
    let name = match record_name(&reader) {
        Ok(name) => name,
        Err(message) => {
            return Err(message);
        },
    };
    if record_is_dir(&reader) {
        return Ok(ArchiveEntry::directory(name.as_str()));
    }
    match read_payload(reader) {
        Ok(payload) => Ok(ArchiveEntry::file(name, payload.as_slice())),
        Err(message) => Err(message),
    }
}

/// Inspects the zip container held in `bytes` and lists its entries in the
/// order of its directory.
///
/// Any byte sequence is taken. Where the reader rejects the container, or any
/// one record cannot be opened, named or decompressed, the whole inspection
/// fails with the reader's message for the first such failure; nothing is
/// returned of the records before it.
pub fn inspect_archive(bytes: &[u8]) -> (result: Result<ArchiveSummary, String>)
    ensures
        summary_outcome(result) == inspection(bytes@),
        result matches Ok(summary) ==> summary.wf(),
        result matches Ok(summary) ==> forall|i: int|
            0 <= i < summary@.len() ==> #[trigger] keeps_valid_text(
                zip_directory(bytes@)->Ok_0[i],
                summary@[i],
            ),
{
    let mut archive = match open_archive(bytes) {
        Ok(archive) => archive,
        Err(message) => {
            return Err(message);
        },
    };
    let count = record_count(&archive);
    let ghost records = archive_records(archive);
    let mut entries: Vec<ArchiveEntry> = Vec::new();
    let mut index: usize = 0;
    while index < count
        invariant
            index <= count,
            count == records.len(),
            archive_records(archive) == records,
            zip_directory(bytes@) is Ok,
            zip_directory(bytes@)->Ok_0 == records,
            entries@.len() == index,
            forall|k: int| 0 <= k < index ==> #[trigger] yields(records[k], entries@[k]),
            forall|k: int| 0 <= k < index ==> (#[trigger] entries@[k]).wf(),
            forall|k: int|
                0 <= k < index ==> #[trigger] keeps_valid_text(records[k], entries@[k]@),
        decreases count - index,
    {
        let opened = open_record(&mut archive, index);
        assert(record_outcome(opened) == records[index as int]);
        let outcome = match opened {
            Ok(reader) => inspect_record(reader),
            Err(message) => Err(message),
        };
        assert(entry_outcome(outcome) == record_entry(records[index as int]));
        match outcome {
            Ok(entry) => {
                entries.push(entry);
            },
            Err(message) => {
                proof {
                    assert forall|earlier: int| 0 <= earlier < index implies record_entry(
                        #[trigger] records[earlier],
                    ) is Ok by {
                        assert(yields(records[earlier], entries@[earlier]));
                    }
                    assert(is_first_failure(records, index as int));
                    let first = choose|first: int| is_first_failure(records, first);
                    lemma_first_failure_is_unique(records, first, index as int);
                }
                return Err(message);
            },
        }
        index = index + 1;
    }
    let summary = ArchiveSummary { entries };
    proof {
        assert forall|any: int| !is_first_failure(records, any) by {
            if 0 <= any < records.len() {
                assert(yields(records[any], entries@[any]));
            }
        }
        assert forall|k: int| 0 <= k < records.len() implies summary@[k] == record_entry(
            records[k],
        )->Ok_0 by {
            assert(yields(records[k], entries@[k]));
        }
        assert(summary@ =~= records.map_values(
            |record: RecordOutcome| record_entry(record)->Ok_0,
        ));
        assert forall|k: int| 0 <= k < summary@.len() implies #[trigger] keeps_valid_text(
            records[k],
            summary@[k],
        ) by {
            assert(keeps_valid_text(records[k], entries@[k]@));
        }
    }
    Ok(summary)
}

} // verus!

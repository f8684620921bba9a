//! The summary of an archive: one entry per directory record.

use crate::decode::decode_lossy;
use crate::decode::lossy_text;
use crate::textual::is_textual_entry;
use crate::textual::is_textual_name;
use vstd::prelude::*;
use vstd::utf8::*;

verus! {

/// What one entry of a summary says, as plain mathematical values.
pub struct EntryView {
    pub path: Seq<char>,
    pub is_dir: bool,
    pub size: nat,
    pub content: Option<Seq<char>>,
}

impl EntryView {
    /// The rules every entry obeys: a directory has no size and no content,
    /// and a file has content exactly when its name is textual.
    pub open spec fn wf(self) -> bool {
        &&& self.is_dir ==> self.size == 0 && self.content is None
        &&& !self.is_dir ==> (self.content is Some <==> is_textual_name(self.path))
    }
}

/// `name` without its last character where that is a `/`. Only one `/` is
/// taken off: a name that ends in several keeps the others.
pub open spec fn strip_separator(name: Seq<char>) -> Seq<char> {
    if name.len() > 0 && name.last() == '/' {
        name.drop_last()
    } else {
        name
    }
}

/// The entry that stands for a directory stored under `name`.
pub open spec fn directory_entry(name: Seq<char>) -> EntryView {
    EntryView { path: strip_separator(name), is_dir: true, size: 0, content: None }
}

/// The entry that stands for a file stored under `name` whose decompressed
/// bytes are `payload`.
pub open spec fn file_entry(name: Seq<char>, payload: Seq<u8>) -> EntryView {
    EntryView {
        path: name,
        is_dir: false,
        size: payload.len(),
        content: if is_textual_name(name) {
            Some(lossy_text(payload))
        } else {
            None
        },
    }
}

/// One record of an archive's directory.
#[derive(Debug, Clone, PartialEq, Eq)]
pub struct ArchiveEntry {
    /// The name as stored; for a directory, without one trailing `/`.
    pub path: String,
    /// Whether the record is a directory.
    pub is_dir: bool,
    /// The number of bytes of the decompressed payload; 0 for a directory.
    pub size: u64,
    /// The payload as text, for a file with a textual name.
    pub content: Option<String>,
}

impl View for ArchiveEntry {
    type V = EntryView;

    open spec fn view(&self) -> EntryView {
        EntryView {
            path: self.path@,
            is_dir: self.is_dir,
            size: self.size as nat,
            content: match self.content {
                Some(text) => Some(text@),
                None => None,
            },
        }
    }
}

impl ArchiveEntry {
    /// See [`EntryView::wf`].
    pub open spec fn wf(&self) -> bool {
        self@.wf()
    }

    /// The entry for a directory stored under `name`.
    pub fn directory(name: &str) -> (entry: ArchiveEntry)
        ensures
            entry@ == directory_entry(name@),
            entry.wf(),
    {
        let len = name.unicode_len();
        let path = if len > 0 && name.get_char(len - 1) == '/' {
            assert(name@.subrange(0, len - 1) =~= name@.drop_last());
            name.substring_char(0, len - 1).to_owned()
        } else {
            name.to_owned()
        };
        ArchiveEntry { path, is_dir: true, size: 0, content: None }
    }

    /// The entry for a file stored under `name` whose decompressed bytes are
    /// `payload`. The size counts the bytes of `payload`, never those of the
    /// text made of them.
    pub fn file(name: String, payload: &[u8]) -> (entry: ArchiveEntry)
        ensures
            entry@ == file_entry(name@, payload@),
            entry.wf(),
            entry@.content is Some && valid_utf8(payload@) ==> entry@.content == Some(
                decode_utf8(payload@),
            ),
    {
        let content = if is_textual_entry(name.as_str()) {
            Some(decode_lossy(payload))
        } else {
            None
        };
        ArchiveEntry { path: name, is_dir: false, size: payload.len() as u64, content }
    }
}

/// The ordered list of an archive's entries, in the order of its directory.
#[derive(Debug, Clone, PartialEq, Eq)]
pub struct ArchiveSummary {
    pub entries: Vec<ArchiveEntry>,
}

impl View for ArchiveSummary {
    type V = Seq<EntryView>;

    open spec fn view(&self) -> Seq<EntryView> {
        self.entries@.map_values(|entry: ArchiveEntry| entry@)
    }
}

impl ArchiveSummary {
    /// Every entry obeys the rules of [`EntryView::wf`].
    pub open spec fn wf(&self) -> bool {
        forall|i: int| 0 <= i < self@.len() ==> (#[trigger] self@[i]).wf()
    }
}

} // verus!

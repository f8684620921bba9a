//! Inspection of OOXML-style containers held in memory.
//!
//! [`inspect_archive`] opens a byte buffer as a zip archive and lists every
//! record of its directory: the path, whether it is a directory, the size of
//! the decompressed payload and, for names that end in `.xml`, `.rels` or
//! `.txt`, the payload as text.

pub mod container;
pub mod decode;
pub mod inspect;
pub mod summary;
pub mod textual;

pub use inspect::inspect_archive;
pub use summary::ArchiveEntry;
pub use summary::ArchiveSummary;
pub use textual::is_textual_entry;

//! What the file system records of an entry, and how it is written in the
//! entry's record.

use crate::error::IndexError;
use crate::text::decimal;
use crate::text::push_decimal;
use crate::time::Timestamp;
use vstd::prelude::*;
use vstd::string::*;

verus! {

/// What the file system records of a regular file besides its inode.
#[derive(Clone, Copy, Debug, PartialEq, Eq)]
pub struct FileInfo {
    pub created: Timestamp,
    pub modified: Timestamp,
    pub size: u64,
}

/// What the file system records of an entry.
#[derive(Clone, Copy, Debug, PartialEq, Eq)]
pub enum Metadata {
    File { inode: u64, info: FileInfo },
    Directory { inode: u64 },
    Other { inode: u64 },
}

impl Metadata {
    /// The inode number.
    pub open spec fn spec_inode(&self) -> u64 {
        match *self {
            Metadata::File { inode, .. } => inode,
            Metadata::Directory { inode } => inode,
            Metadata::Other { inode } => inode,
        }
    }

    /// The inode number.
    #[verifier::when_used_as_spec(spec_inode)]
    pub fn inode(&self) -> (inode: u64)
        ensures
            inode == self.spec_inode(),
    {
        match self {
            Metadata::File { inode, .. } => *inode,
            Metadata::Directory { inode } => *inode,
            Metadata::Other { inode } => *inode,
        }
    }
}

/// The block of a file's record that follows the inode: an empty line, then
/// the two times and the size, one line each.
pub open spec fn file_data_text(created: Seq<char>, modified: Seq<char>, size: nat) -> Seq<char> {
    "\n"@ + "CREATION TIME : "@ + created + "\nLAST MODIFICATION TIME : "@ + modified
        + "\nSIZE IN BYTES : "@ + decimal(size) + "\n"@
}

/// The block that follows the inode in the record of an entry with this
/// metadata: for a file its times and size, where both times have a date;
/// for anything else a line break.
pub open spec fn metadata_text(metadata: Metadata) -> Result<Seq<char>, IndexError> {
    match metadata {
        Metadata::File { info, .. } => match (info.created.text(), info.modified.text()) {
            (Some(created), Some(modified)) => Ok(
                file_data_text(created, modified, info.size as nat),
            ),
            _ => Err(IndexError::Timestamp),
        },
        _ => Ok("\n"@),
    }
}

/// Writes the block of a file's record from the two times as they are
/// written and the size.
pub fn file_data(created: &str, modified: &str, size: u64) -> (data: String)
    ensures
        data@ == file_data_text(created@, modified@, size as nat),
{
    let mut data = String::from_str("\n");
    data.append("CREATION TIME : ");
    data.append(created);
    data.append("\nLAST MODIFICATION TIME : ");
    data.append(modified);
    data.append("\nSIZE IN BYTES : ");
    push_decimal(&mut data, size);
    data.append("\n");
    data
}

/// Writes what follows the inode in the record of an entry with this
/// metadata. For a file these are its creation time, modification time and
/// size; a time without a date is refused with [`IndexError::Timestamp`].
/// For anything else it is a line break.
pub fn get_index_file_data(metadata: &Metadata) -> (data: Result<String, IndexError>)
    ensures
        match data {
            Ok(text) => metadata_text(*metadata) == Ok::<Seq<char>, IndexError>(text@),
            Err(e) => metadata_text(*metadata) == Err::<Seq<char>, IndexError>(e),
        },
{
    match metadata {
        Metadata::File { info, .. } => {
            let created = info.created.render();
            let modified = info.modified.render();
            match (created, modified) {
                (Some(created), Some(modified)) => Ok(
                    file_data(created.as_str(), modified.as_str(), info.size),
                ),
                _ => Err(IndexError::Timestamp),
            }
        },
        _ => Ok(String::from_str("\n")),
    }
}

} // verus!

//! A content-addressable index of a directory tree.
//!
//! Every file is identified by the SHA-1 digest of its content and every
//! directory by the digest of its children's names and digests, taken in
//! listing order. For each visited entry the library produces the text of a
//! small record, together with the shard directory and the file name under
//! which the record is to be stored.
//!
//! The library works on values: [`tree::Node`] holds a tree as it was read,
//! [`index::index_command`] turns it into the [`record::Record`]s to write.
//! Reading the tree and writing the records is left to the caller.
//!
//! - [`digest`]: SHA-1 digests in hexadecimal, the digest of a file
//! - [`tree`]: the tree, the digest and the listing of a directory
//! - [`metadata`]: what the file system records of an entry
//! - [`record`]: the text and the name of a record
//! - [`index`]: the records of a whole tree
//! - [`showdir`]: the lines that show a tree
//! - [`time`], [`text`], [`error`]: times, numbers, failures

pub mod digest;
pub mod error;
pub mod index;
pub mod metadata;
pub mod record;
pub mod showdir;
pub mod text;
pub mod time;
pub mod tree;

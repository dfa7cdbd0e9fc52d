//! Object records: what is stored for one entry, and under which name.
//!
//! A record is a small text. It starts with the entry's digest and inode
//! number; for a file the creation time, the modification time and the size
//! follow, for a directory the list of its children. It is stored in the
//! shard directory named by the first two characters of the digest, in a
//! file named by the remaining characters and `.txt`.

use crate::digest::is_digest;
use crate::digest::is_lower_hex;
use crate::metadata::Metadata;
use crate::text::decimal;
use crate::text::option_text;
use crate::text::push_decimal;
use vstd::prelude::*;
use vstd::string::*;

verus! {

/// One record to store: the shard directory, the file name in it, and the
/// text to write.
#[derive(Debug, PartialEq, Eq)]
pub struct Record {
    pub shard: String,
    pub file_name: String,
    pub contents: String,
}

/// The mathematical value of a [`Record`].
pub ghost struct RecordView {
    pub shard: Seq<char>,
    pub file_name: Seq<char>,
    pub contents: Seq<char>,
}

impl View for Record {
    type V = RecordView;

    open spec fn view(&self) -> RecordView {
        RecordView { shard: self.shard@, file_name: self.file_name@, contents: self.contents@ }
    }
}

/// The shard of a digest: its first two characters.
pub open spec fn shard_of(digest: Seq<char>) -> Seq<char> {
    if digest.len() >= 2 {
        digest.take(2)
    } else {
        digest
    }
}

/// The name of the record file of a digest: what follows the shard, and
/// `.txt`.
pub open spec fn file_name_of(digest: Seq<char>) -> Seq<char> {
    if digest.len() >= 2 {
        digest.skip(2) + ".txt"@
    } else {
        ".txt"@
    }
}

/// The first two lines of a record.
pub open spec fn header_text(digest: Seq<char>, inode: u64) -> Seq<char> {
    "HASH : "@ + digest + "\n"@ + "INODE : "@ + decimal(inode as nat) + "\n"@
}

/// The record of an entry with the given digest and inode, closed by `data`
/// and a line break.
pub open spec fn record_of(digest: Seq<char>, inode: u64, data: Seq<char>) -> RecordView {
    RecordView {
        shard: shard_of(digest),
        file_name: file_name_of(digest),
        contents: header_text(digest, inode) + data + "\n"@,
    }
}

/// Starts the record of an entry: names the shard and the file from the
/// digest, and writes the digest and the inode number.
pub fn create_index_file(hash_index: &str, metadata: &Metadata) -> (record: Record)
    ensures
        record@.shard == shard_of(hash_index@),
        record@.file_name == file_name_of(hash_index@),
        record@.contents == header_text(hash_index@, metadata.inode()),
{
    let len = hash_index.unicode_len();
    let cut: usize = if len >= 2 { 2 } else { len };
    let shard = String::from_str(hash_index.substring_char(0, cut));
    let mut file_name = String::from_str(hash_index.substring_char(cut, len));
    file_name.append(".txt");
    let mut contents = String::from_str("HASH : ");
    contents.append(hash_index);
    contents.append("\n");
    contents.append("INODE : ");
    push_decimal(&mut contents, metadata.inode());
    contents.append("\n");
    proof {
        if len >= 2 {
            assert(hash_index@.subrange(0, 2) =~= hash_index@.take(2));
            assert(hash_index@.subrange(2, len as int) =~= hash_index@.skip(2));
        } else {
            assert(hash_index@.subrange(0, len as int) =~= hash_index@);
            assert(hash_index@.subrange(len as int, len as int) =~= Seq::<char>::empty());
            assert(Seq::<char>::empty() + ".txt"@ =~= ".txt"@);
        }
    }
    Record { shard, file_name, contents }
}

/// Where the line that starts at `from` ends: the place of the first line
/// break at or after `from`, or the length of the text where none follows.
pub open spec fn line_end(text: Seq<char>, from: int) -> int
    decreases text.len() - from,
{
    if 0 <= from < text.len() && text[from] != '\n' {
        line_end(text, from + 1)
    } else {
        from
    }
}

/// The digest that a record's text holds: what stands between `HASH : ` at
/// its start and the end of the first line. A text that does not start so,
/// or has no line break, holds none.
pub open spec fn hash_field(text: Seq<char>) -> Option<Seq<char>> {
    let prefix = "HASH : "@;
    let end = line_end(text, prefix.len() as int);
    if prefix.is_prefix_of(text) && end < text.len() {
        Some(text.subrange(prefix.len() as int, end))
    } else {
        None
    }
}

/// A line without a break in it ends where the first break stands.
pub proof fn lemma_line_end(text: Seq<char>, from: int, end: int)
    requires
        0 <= from <= end < text.len(),
        forall|i: int| from <= i < end ==> text[i] != '\n',
        text[end] == '\n',
    ensures
        line_end(text, from) == end,
    decreases end - from,
{
    if from < end {
        lemma_line_end(text, from + 1, end);
    }
}

/// Reads the digest that a record's text holds.
pub fn read_hash_field(text: &str) -> (field: Option<String>)
    ensures
        option_text(field) == hash_field(text@),
{
    proof {
        reveal_strlit("HASH : ");
    }
    let len = text.unicode_len();
    if len < 7 {
        return None;
    }
    let head = String::from_str(text.substring_char(0, 7));
    let prefix = String::from_str("HASH : ");
    if !(head == prefix) {
        return None;
    }
    assert("HASH : "@.is_prefix_of(text@));
    let mut end: usize = 7;
    while end < len
        invariant
            7 <= end <= len,
            len == text@.len(),
            "HASH : "@.len() == 7,
            "HASH : "@.is_prefix_of(text@),
            line_end(text@, 7) == line_end(text@, end as int),
        decreases len - end,
    {
        if text.get_char(end) == '\n' {
            return Some(String::from_str(text.substring_char(7, end)));
        }
        end = end + 1;
    }
    None
}

/// A record holds the digest it was written for: reading the digest back
/// from the text of a record gives the digest again. This holds for every
/// digest without a line break in it, whatever the inode and whatever
/// closes the record.
pub proof fn lemma_hash_round_trip(digest: Seq<char>, inode: u64, data: Seq<char>)
    requires
        forall|i: int| 0 <= i < digest.len() ==> digest[i] != '\n',
    ensures
        hash_field(record_of(digest, inode, data).contents) == Some(digest),
{
    reveal_strlit("HASH : ");
    reveal_strlit("\n");
    let text = record_of(digest, inode, data).contents;
    let end = 7 + digest.len() as int;
    assert(text.len() > end);
    assert(text[end] == '\n');
    assert forall|i: int| 7 <= i < end implies text[i] != '\n' by {
        assert(text[i] == digest[i - 7]);
    }
    lemma_line_end(text, 7, end);
    assert("HASH : "@ =~= text.subrange(0, 7));
    assert(text.subrange(7, end) =~= digest);
}

/// Whether a record is stored under the name of the digest that it holds,
/// and that digest is one of forty characters, or the empty one of an entry
/// that is neither a file nor a directory.
pub open spec fn well_keyed(record: RecordView) -> bool {
    match hash_field(record.contents) {
        Some(digest) => {
            &&& is_digest(digest) || digest.len() == 0
            &&& record.shard == shard_of(digest)
            &&& record.file_name == file_name_of(digest)
        },
        None => false,
    }
}

/// The record written for a digest is stored under the name of the digest
/// that it holds.
pub proof fn lemma_record_well_keyed(digest: Seq<char>, inode: u64, data: Seq<char>)
    requires
        is_digest(digest) || digest.len() == 0,
    ensures
        well_keyed(record_of(digest, inode, data)),
{
    assert forall|i: int| 0 <= i < digest.len() implies digest[i] != '\n' by {
        assert(is_lower_hex(digest[i]));
    }
    lemma_hash_round_trip(digest, inode, data);
}

/// The record of a digest lies in the shard named by the digest's first two
/// characters, in the file named by its other thirty-eight and `.txt`.
pub proof fn lemma_record_name(digest: Seq<char>, inode: u64, data: Seq<char>)
    requires
        is_digest(digest),
    ensures
        record_of(digest, inode, data).shard == digest.subrange(0, 2),
        record_of(digest, inode, data).file_name == digest.subrange(2, 40) + ".txt"@,
        record_of(digest, inode, data).file_name.len() == 42,
{
    reveal_strlit(".txt");
    assert(digest.take(2) =~= digest.subrange(0, 2));
    assert(digest.skip(2) =~= digest.subrange(2, 40));
}

impl Record {
    /// Closes the record with `data` and a line break.
    pub fn finish(&mut self, data: &str)
        ensures
            final(self)@.shard == old(self)@.shard,
            final(self)@.file_name == old(self)@.file_name,
            final(self)@.contents == old(self)@.contents + data@ + "\n"@,
    {
        self.contents.append(data);
        self.contents.append("\n");
    }
}

} // verus!

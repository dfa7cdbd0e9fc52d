//! Indexing a tree: one record for every entry, children before parents.

use crate::digest::file_hash;
use crate::digest::hash_file;
use crate::error::IndexError;
use crate::metadata::get_index_file_data;
use crate::metadata::metadata_text;
use crate::record::Record;
use crate::record::RecordView;
use crate::record::create_index_file;
use crate::record::lemma_record_well_keyed;
use crate::record::record_of;
use crate::record::well_keyed;
use crate::tree::Node;
use crate::tree::NodeView;
use crate::tree::folder_hash;
use crate::tree::hash_folder;
use crate::tree::lemma_directory_view;
use crate::tree::lemma_node_views;
use vstd::prelude::*;

verus! {

/// The values of a list of records.
pub open spec fn record_views(records: Seq<Record>) -> Seq<RecordView> {
    Seq::new(records.len(), |i: int| records[i]@)
}

/// The digest of an entry and what closes its record.
///
/// A file has the digest of its content, and its record closes with its
/// times and size. A directory has the digest of its children, and its
/// record closes with their listing. For anything else both are empty.
pub open spec fn entry_hash(node: NodeView) -> Result<(Seq<char>, Seq<char>), IndexError> {
    match node {
        NodeView::File { contents, .. } => match file_hash(contents) {
            Err(e) => Err(e),
            Ok(hash) => match metadata_text(node.metadata()) {
                Err(e) => Err(e),
                Ok(data) => Ok((hash, data)),
            },
        },
        NodeView::Directory { children, .. } => folder_hash(children),
        NodeView::Other { .. } => Ok((Seq::empty(), Seq::empty())),
    }
}

/// The records of a tree, in the order in which they are stored: those of
/// the root's children, each with everything below it, and then the root's
/// own. The first entry in that order that cannot be indexed leaves the tree
/// without records.
pub open spec fn index_records(node: NodeView) -> Result<Seq<RecordView>, IndexError>
    decreases node, 0nat,
{
    let below = match node {
        NodeView::Directory { children, .. } => index_all(children),
        _ => Ok(Seq::empty()),
    };
    match below {
        Err(e) => Err(e),
        Ok(before) => match entry_hash(node) {
            Err(e) => Err(e),
            Ok(pair) => Ok(before.push(record_of(pair.0, node.metadata().inode(), pair.1))),
        },
    }
}

/// The records of a list of trees, one tree after the other.
pub open spec fn index_all(nodes: Seq<NodeView>) -> Result<Seq<RecordView>, IndexError>
    decreases nodes, 1nat,
{
    if nodes.len() == 0 {
        Ok(Seq::empty())
    } else {
        match index_all(nodes.drop_last()) {
            Err(e) => Err(e),
            Ok(before) => match index_records(nodes.last()) {
                Err(e) => Err(e),
                Ok(records) => Ok(before + records),
            },
        }
    }
}

/// An error among the first trees is the error of the whole list.
pub proof fn lemma_index_all_error(nodes: Seq<NodeView>, count: int)
    requires
        0 <= count <= nodes.len(),
        index_all(nodes.take(count)) is Err,
    ensures
        index_all(nodes) == index_all(nodes.take(count)),
    decreases nodes.len() - count,
{
    if count < nodes.len() {
        let longer = nodes.take(count + 1);
        assert(longer.drop_last() =~= nodes.take(count));
        assert(index_all(longer) == index_all(nodes.take(count)));
        lemma_index_all_error(nodes, count + 1);
    } else {
        assert(nodes.take(count) =~= nodes);
    }
}

/// Indexing the same tree again gives the same records, character for
/// character: the records depend on nothing but the tree's value, which
/// includes the order of each directory's children.
pub proof fn lemma_index_again(first: Node, second: Node)
    requires
        first@ == second@,
    ensures
        index_records(first@) == index_records(second@),
{
}

/// The record of a file does not depend on the file's path: a file that is
/// moved or renamed keeps its record.
pub proof fn lemma_file_record_ignores_path(first: NodeView, second: NodeView)
    requires
        first is File,
        second is File,
        first->File_contents == second->File_contents,
        first->File_inode == second->File_inode,
        first->File_info == second->File_info,
    ensures
        index_records(first) == index_records(second),
{
    assert(first.metadata() == second.metadata());
    assert(entry_hash(first) == entry_hash(second));
}

/// Indexes a tree: gives the records to store for the entry and for
/// everything below it, in the order in which they are to be stored.
///
/// A directory's children are indexed first, in listing order, then the
/// directory itself. An entry that is neither a file nor a directory gets a
/// record with an empty digest. Indexing stops at the first file whose
/// content is not text ([`IndexError::Encoding`]) or whose times have no
/// date ([`IndexError::Timestamp`]), and then gives no records.
pub fn index_command(node: &Node) -> (result: Result<Vec<Record>, IndexError>)
    ensures
        match result {
            Ok(records) => {
                &&& index_records(node@) == Ok::<Seq<RecordView>, IndexError>(
                    record_views(records@),
                )
                &&& forall|i: int| 0 <= i < records.len() ==> well_keyed(#[trigger] records[i]@)
            },
            Err(e) => index_records(node@) == Err::<Seq<RecordView>, IndexError>(e),
        },
    decreases node,
{
    let metadata = node.metadata();
    let mut records: Vec<Record> = Vec::new();
    let hash_index: String;
    let data: String;
    assert(record_views(records@) =~= Seq::<RecordView>::empty());
    match node {
        Node::File { contents, .. } => {
            match hash_file(contents.as_slice()) {
                Ok(hash) => {
                    hash_index = hash;
                },
                Err(e) => {
                    return Err(e);
                },
            }
            match get_index_file_data(&metadata) {
                Ok(text) => {
                    data = text;
                },
                Err(e) => {
                    return Err(e);
                },
            }
        },
        Node::Directory { children, .. } => {
            let ghost views = node@->Directory_children;
            proof {
                lemma_directory_view(*node);
                lemma_node_views(children@);
                assert(views.take(0) =~= Seq::<NodeView>::empty());
            }
            let mut i: usize = 0;
            while i < children.len()
                invariant
                    i <= children.len(),
                    node is Directory,
                    node->Directory_children == *children,
                    node@ is Directory,
                    node@->Directory_children == views,
                    views.len() == children.len(),
                    forall|k: int| 0 <= k < children.len() ==> (#[trigger] views[k]) == children@[k]@,
                    index_all(views.take(i as int)) == Ok::<Seq<RecordView>, IndexError>(
                        record_views(records@),
                    ),
                    forall|k: int| 0 <= k < records.len() ==> well_keyed(#[trigger] records[k]@),
                decreases children.len() - i,
            {
                let ghost before = record_views(records@);
                proof {
                    assert(views.take(i + 1).drop_last() =~= views.take(i as int));
                    assert(views.take(i + 1).last() == children@[i as int]@);
                }
                match index_command(&children[i]) {
                    Ok(mut below) => {
                        let ghost added = record_views(below@);
                        records.append(&mut below);
                        assert(record_views(records@) =~= before + added);
                    },
                    Err(e) => {
                        proof {
                            lemma_index_all_error(views, i + 1);
                        }
                        return Err(e);
                    },
                }
                i = i + 1;
            }
            assert(views.take(children.len() as int) =~= views);
            match hash_folder(children) {
                Ok(pair) => {
                    hash_index = pair.0;
                    data = pair.1;
                },
                Err(e) => {
                    return Err(e);
                },
            }
        },
        Node::Other { .. } => {
            hash_index = String::new();
            data = String::new();
        },
    }
    let ghost before = record_views(records@);
    let mut record = create_index_file(hash_index.as_str(), &metadata);
    record.finish(data.as_str());
    proof {
        assert(record@ == record_of(hash_index@, metadata.inode(), data@));
        lemma_record_well_keyed(hash_index@, metadata.inode(), data@);
    }
    records.push(record);
    assert(record_views(records@) =~= before.push(record@));
    Ok(records)
}

} // verus!

//! The directory tree and the digest of a directory.
//!
//! A directory's digest is the digest of the names and digests of its
//! children, one after the other in listing order. Children that are
//! neither files nor directories do not count.

use crate::digest::digest_of;
use crate::digest::file_hash;
use crate::digest::hash_bytes;
use crate::digest::hash_file;
use crate::digest::is_digest;
use crate::digest::lemma_digest_of_equal;
use crate::digest::sha1_digest;
use crate::error::IndexError;
use crate::metadata::FileInfo;
use crate::metadata::Metadata;
use vstd::prelude::*;
use vstd::string::*;
use vstd::utf8::encode_utf8;

verus! {

/// One entry of the tree, with everything below it. `path` is the entry's
/// path as it is listed; the children of a directory stand in listing order.
#[derive(Debug, PartialEq, Eq)]
pub enum Node {
    File { path: String, inode: u64, info: FileInfo, contents: Vec<u8> },
    Directory { path: String, inode: u64, children: Vec<Node> },
    Other { path: String, inode: u64 },
}

/// The mathematical value of a [`Node`].
pub ghost enum NodeView {
    File { path: Seq<char>, inode: u64, info: FileInfo, contents: Seq<u8> },
    Directory { path: Seq<char>, inode: u64, children: Seq<NodeView> },
    Other { path: Seq<char>, inode: u64 },
}

impl View for Node {
    type V = NodeView;

    open spec fn view(&self) -> NodeView
        decreases self,
    {
        match self {
            Node::File { path, inode, info, contents } => NodeView::File {
                path: path@,
                inode: *inode,
                info: *info,
                contents: contents@,
            },
            Node::Directory { path, inode, children } => NodeView::Directory {
                path: path@,
                inode: *inode,
                children: node_views(children@),
            },
            Node::Other { path, inode } => NodeView::Other { path: path@, inode: *inode },
        }
    }
}

/// The values of a list of nodes.
pub open spec fn node_views(nodes: Seq<Node>) -> Seq<NodeView>
    decreases nodes,
{
    if nodes.len() == 0 {
        Seq::empty()
    } else {
        node_views(nodes.drop_last()).push(nodes.last()@)
    }
}

/// The values of a list of nodes are the values of its nodes, in order.
pub proof fn lemma_node_views(nodes: Seq<Node>)
    ensures
        node_views(nodes).len() == nodes.len(),
        forall|i: int| 0 <= i < nodes.len() ==> (#[trigger] node_views(nodes)[i]) == nodes[i]@,
    decreases nodes.len(),
{
    if nodes.len() > 0 {
        lemma_node_views(nodes.drop_last());
        assert(node_views(nodes) == node_views(nodes.drop_last()).push(nodes.last()@));
    } else {
        assert(node_views(nodes) == Seq::<NodeView>::empty());
    }
}

/// The children of a directory's value are the values of its children.
pub proof fn lemma_directory_view(node: Node)
    requires
        node is Directory,
    ensures
        node@ is Directory,
        node@->Directory_path == node->Directory_path@,
        node@->Directory_inode == node->Directory_inode,
        node@->Directory_children == node_views(node->Directory_children@),
{
}

impl NodeView {
    /// What the file system records of the entry.
    pub open spec fn metadata(self) -> Metadata {
        match self {
            NodeView::File { inode, info, .. } => Metadata::File { inode, info },
            NodeView::Directory { inode, .. } => Metadata::Directory { inode },
            NodeView::Other { inode, .. } => Metadata::Other { inode },
        }
    }
}

impl Node {
    /// What the file system records of the entry.
    pub fn metadata(&self) -> (metadata: Metadata)
        ensures
            metadata == self@.metadata(),
    {
        match self {
            Node::File { inode, info, .. } => Metadata::File { inode: *inode, info: *info },
            Node::Directory { inode, .. } => Metadata::Directory { inode: *inode },
            Node::Other { inode, .. } => Metadata::Other { inode: *inode },
        }
    }
}

/// Whether a child is a file or a directory.
#[derive(Clone, Copy, Debug, PartialEq, Eq, Structural)]
pub enum Kind {
    File,
    Directory,
}

impl Kind {
    /// The word that stands for the kind in a listing.
    pub open spec fn tag(self) -> Seq<char> {
        match self {
            Kind::File => "FILE"@,
            Kind::Directory => "DIRECTORY"@,
        }
    }

    /// The word that stands for the kind in a listing.
    pub fn as_str(&self) -> (tag: &'static str)
        ensures
            tag@ == self.tag(),
    {
        match self {
            Kind::File => "FILE",
            Kind::Directory => "DIRECTORY",
        }
    }
}

/// A child of a directory as it enters the directory's digest and listing.
#[derive(Debug, PartialEq, Eq)]
pub struct Entry {
    pub name: String,
    pub hash: String,
    pub kind: Kind,
}

/// The mathematical value of an [`Entry`].
pub ghost struct EntryView {
    pub name: Seq<char>,
    pub hash: Seq<char>,
    pub kind: Kind,
}

impl View for Entry {
    type V = EntryView;

    open spec fn view(&self) -> EntryView {
        EntryView { name: self.name@, hash: self.hash@, kind: self.kind }
    }
}

/// The values of a list of entries.
pub open spec fn entry_views(entries: Seq<Entry>) -> Seq<EntryView> {
    Seq::new(entries.len(), |i: int| entries[i]@)
}

/// The bytes that one entry adds to what is hashed: its name, then its digest.
pub open spec fn entry_bytes(entry: EntryView) -> Seq<u8> {
    encode_utf8(entry.name) + encode_utf8(entry.hash)
}

/// The lines that one entry adds to the listing.
pub open spec fn entry_lines(entry: EntryView) -> Seq<char> {
    "NAME : "@ + entry.name + "\nKIND : "@ + entry.kind.tag() + "\nHASH : "@ + entry.hash + "\n"@
}

/// What is hashed for a directory: the bytes of its entries, in order.
pub open spec fn preimage(entries: Seq<EntryView>) -> Seq<u8>
    decreases entries.len(),
{
    if entries.len() == 0 {
        Seq::empty()
    } else {
        preimage(entries.drop_last()) + entry_bytes(entries.last())
    }
}

/// The listing of a directory: the lines of its entries, in order.
pub open spec fn listing(entries: Seq<EntryView>) -> Seq<char>
    decreases entries.len(),
{
    if entries.len() == 0 {
        Seq::empty()
    } else {
        listing(entries.drop_last()) + entry_lines(entries.last())
    }
}

/// The digest of a directory with the given entries.
pub open spec fn tree_digest(entries: Seq<EntryView>) -> Seq<char> {
    digest_of(preimage(entries))
}

/// The entries of a directory with the given children: one for each file and
/// each directory among them, in order, with the child's path as its name
/// and the child's digest. A file that has no digest, here or further down,
/// leaves the directory without entries.
pub open spec fn folder_entries(children: Seq<NodeView>) -> Result<Seq<EntryView>, IndexError>
    decreases children,
{
    if children.len() == 0 {
        Ok(Seq::empty())
    } else {
        match folder_entries(children.drop_last()) {
            Err(e) => Err(e),
            Ok(before) => match children.last() {
                NodeView::File { path, contents, .. } => match file_hash(contents) {
                    Ok(hash) => Ok(before.push(EntryView { name: path, hash, kind: Kind::File })),
                    Err(e) => Err(e),
                },
                NodeView::Directory { path, children: below, .. } => match folder_entries(below) {
                    Ok(entries) => Ok(
                        before.push(
                            EntryView {
                                name: path,
                                hash: tree_digest(entries),
                                kind: Kind::Directory,
                            },
                        ),
                    ),
                    Err(e) => Err(e),
                },
                NodeView::Other { .. } => Ok(before),
            },
        }
    }
}

/// The digest and the listing of a directory with the given children.
pub open spec fn folder_hash(children: Seq<NodeView>) -> Result<(Seq<char>, Seq<char>), IndexError> {
    match folder_entries(children) {
        Ok(entries) => Ok((tree_digest(entries), listing(entries))),
        Err(e) => Err(e),
    }
}

/// The names and digests of a list of entries, without their kinds.
pub open spec fn names_and_hashes(entries: Seq<EntryView>) -> Seq<(Seq<char>, Seq<char>)> {
    Seq::new(entries.len(), |i: int| (entries[i].name, entries[i].hash))
}

/// What is hashed for a directory depends on the names and digests of its
/// entries and on their order, and on nothing else.
pub proof fn lemma_preimage_of_names_and_hashes(first: Seq<EntryView>, second: Seq<EntryView>)
    requires
        names_and_hashes(first) == names_and_hashes(second),
    ensures
        preimage(first) == preimage(second),
    decreases first.len(),
{
    assert(first.len() == names_and_hashes(first).len());
    assert(second.len() == names_and_hashes(second).len());
    if first.len() > 0 {
        let last = first.len() - 1;
        assert(names_and_hashes(first)[last] == names_and_hashes(second)[last]);
        assert(names_and_hashes(first.drop_last()) =~= names_and_hashes(first).drop_last());
        assert(names_and_hashes(second.drop_last()) =~= names_and_hashes(second).drop_last());
        lemma_preimage_of_names_and_hashes(first.drop_last(), second.drop_last());
    }
}

/// Directories whose children have the same names and the same digests in
/// the same order have the same digest.
pub proof fn lemma_same_entries_same_digest(first: Seq<EntryView>, second: Seq<EntryView>)
    requires
        names_and_hashes(first) == names_and_hashes(second),
    ensures
        tree_digest(first) == tree_digest(second),
{
    lemma_preimage_of_names_and_hashes(first, second);
}

/// Directories whose children have the same paths and the same digests in
/// the same order have the same digest, whatever else differs below them.
pub proof fn lemma_same_children_same_digest(first: Seq<NodeView>, second: Seq<NodeView>)
    requires
        folder_entries(first) is Ok,
        folder_entries(second) is Ok,
        names_and_hashes(folder_entries(first)->Ok_0) == names_and_hashes(
            folder_entries(second)->Ok_0,
        ),
    ensures
        folder_hash(first) is Ok,
        folder_hash(second) is Ok,
        folder_hash(first)->Ok_0.0 == folder_hash(second)->Ok_0.0,
{
    lemma_same_entries_same_digest(folder_entries(first)->Ok_0, folder_entries(second)->Ok_0);
}

/// What is hashed for a directory is what is hashed for its first entries
/// followed by what is hashed for the others: the order of the entries is
/// the order of their bytes.
pub proof fn lemma_preimage_concat(first: Seq<EntryView>, second: Seq<EntryView>)
    ensures
        preimage(first + second) == preimage(first) + preimage(second),
    decreases second.len(),
{
    if second.len() == 0 {
        assert(first + second =~= first);
        assert(preimage(first) + preimage(second) =~= preimage(first));
    } else {
        assert((first + second).drop_last() =~= first + second.drop_last());
        assert((first + second).last() == second.last());
        lemma_preimage_concat(first, second.drop_last());
        assert(preimage(first + second) =~= preimage(first) + preimage(second));
    }
}

/// Two directories have the same digest exactly when SHA-1 gives the same
/// value for what is hashed for each. So a change of a child's name, of its
/// digest or of the order changes the directory's digest unless the two
/// byte strings collide under SHA-1.
pub proof fn lemma_tree_digest_equal(first: Seq<EntryView>, second: Seq<EntryView>)
    ensures
        tree_digest(first) == tree_digest(second) <==> sha1_digest(preimage(first)) == sha1_digest(
            preimage(second),
        ),
{
    lemma_digest_of_equal(preimage(first), preimage(second));
}

/// A directory without children has the digest of the empty byte string and
/// an empty listing.
pub proof fn lemma_empty_folder()
    ensures
        folder_hash(Seq::empty()) == Ok::<(Seq<char>, Seq<char>), IndexError>(
            (digest_of(Seq::empty()), Seq::empty()),
        ),
{
}

/// An error among the first children is the error of the whole list.
pub proof fn lemma_folder_entries_error(children: Seq<NodeView>, count: int)
    requires
        0 <= count <= children.len(),
        folder_entries(children.take(count)) is Err,
    ensures
        folder_entries(children) == folder_entries(children.take(count)),
    decreases children.len() - count,
{
    if count < children.len() {
        let longer = children.take(count + 1);
        assert(longer.drop_last() =~= children.take(count));
        lemma_folder_entries_error(children, count + 1);
    } else {
        assert(children.take(count) =~= children);
    }
}

/// The digest and the listing of a directory, from its entries.
pub fn hash_entries(entries: &Vec<Entry>) -> (result: (String, String))
    ensures
        result.0@ == tree_digest(entry_views(entries@)),
        result.1@ == listing(entry_views(entries@)),
        is_digest(result.0@),
{
    let ghost views = entry_views(entries@);
    let mut hashed: Vec<u8> = Vec::new();
    let mut data = String::new();
    let mut i: usize = 0;
    assert(views.take(0) =~= Seq::<EntryView>::empty());
    while i < entries.len()
        invariant
            i <= entries.len(),
            views == entry_views(entries@),
            hashed@ == preimage(views.take(i as int)),
            data@ == listing(views.take(i as int)),
        decreases entries.len() - i,
    {
        let entry = &entries[i];
        proof {
            assert(views.take(i + 1).drop_last() =~= views.take(i as int));
            assert(views.take(i + 1).last() == entry@);
        }
        let ghost hashed_before = hashed@;
        let ghost data_before = data@;
        data.append("NAME : ");
        data.append(entry.name.as_str());
        hashed.extend_from_slice(entry.name.as_str().as_bytes());
        data.append("\nKIND : ");
        data.append(entry.kind.as_str());
        data.append("\nHASH : ");
        data.append(entry.hash.as_str());
        data.append("\n");
        hashed.extend_from_slice(entry.hash.as_str().as_bytes());
        proof {
            assert(hashed@ =~= hashed_before + entry_bytes(entry@));
            assert(data@ =~= data_before + entry_lines(entry@));
        }
        i = i + 1;
    }
    assert(views.take(entries.len() as int) =~= views);
    (hash_bytes(hashed.as_slice()), data)
}

/// The digest and the listing of a directory, from its children.
///
/// The digest of each file among the children is that of its content, the
/// digest of each directory that of its own children. The directory's digest
/// is taken over the children's paths and digests in the order given; its
/// listing names each child with its kind and digest. A file below whose
/// content is not text makes the whole fail with [`IndexError::Encoding`].
pub fn hash_folder(children: &Vec<Node>) -> (result: Result<(String, String), IndexError>)
    ensures
        match result {
            Ok(pair) => folder_hash(node_views(children@)) == Ok::<
                (Seq<char>, Seq<char>),
                IndexError,
            >((pair.0@, pair.1@)) && is_digest(pair.0@),
            Err(e) => folder_hash(node_views(children@)) == Err::<
                (Seq<char>, Seq<char>),
                IndexError,
            >(e),
        },
    decreases children,
{
    let ghost views = node_views(children@);
    let mut entries: Vec<Entry> = Vec::new();
    let mut i: usize = 0;
    proof {
        lemma_node_views(children@);
    }
    assert(views.take(0) =~= Seq::<NodeView>::empty());
    assert(entry_views(entries@) =~= Seq::<EntryView>::empty());
    while i < children.len()
        invariant
            i <= children.len(),
            views == node_views(children@),
            views.len() == children.len(),
            forall|k: int| 0 <= k < children.len() ==> (#[trigger] views[k]) == children@[k]@,
            folder_entries(views.take(i as int)) == Ok::<Seq<EntryView>, IndexError>(
                entry_views(entries@),
            ),
        decreases children.len() - i,
    {
        let child = &children[i];
        let ghost before = entry_views(entries@);
        proof {
            assert(views.take(i + 1).drop_last() =~= views.take(i as int));
            assert(views.take(i + 1).last() == child@);
        }
        match child {
            Node::File { path, contents, .. } => {
                match hash_file(contents.as_slice()) {
                    Ok(hash) => {
                        entries.push(Entry { name: path.clone(), hash, kind: Kind::File });
                    },
                    Err(e) => {
                        proof {
                            lemma_folder_entries_error(views, i + 1);
                        }
                        return Err(e);
                    },
                }
            },
            Node::Directory { path, children: below, .. } => {
                proof {
                    lemma_directory_view(*child);
                }
                match hash_folder(below) {
                    Ok(pair) => {
                        entries.push(Entry { name: path.clone(), hash: pair.0, kind: Kind::Directory });
                    },
                    Err(e) => {
                        proof {
                            lemma_folder_entries_error(views, i + 1);
                        }
                        return Err(e);
                    },
                }
            },
            Node::Other { .. } => {},
        }
        proof {
            if !(child is Other) {
                assert(entry_views(entries@) =~= before.push(entries@.last()@));
            }
        }
        i = i + 1;
    }
    assert(views.take(children.len() as int) =~= views);
    Ok(hash_entries(&entries))
}

} // verus!

//! The snapshot model of a directory tree and the result type of a walk.

use vstd::prelude::*;
use vstd::string::StringExecFns;

verus! {

/// One entry of a directory listing, as the filesystem reported it:
/// a regular file with its byte length, a subdirectory with its own listing,
/// some other entry kind (symlink, device, socket, ...), or one of the two
/// per-entry failures that a walk contains rather than propagates.
pub enum FsTree {
    /// A regular file of the given byte length.
    File { size: u64 },
    /// A directory whose entries were listed successfully.
    Dir { entries: Vec<Entry> },
    /// An entry that is neither a regular file nor a directory; it is never
    /// followed and contributes no size.
    Other,
    /// An entry whose metadata could not be retrieved.
    MetaError,
    /// A directory whose entries could not be listed.
    DirUnreadable,
}

/// A named directory entry.
pub struct Entry {
    pub name: String,
    pub node: FsTree,
}

/// The result record for one directory: its path, the total byte size of all
/// regular files transitively contained in it, and one child node per direct
/// subdirectory that could be listed.
pub struct DirNode {
    pub path: String,
    pub size: u64,
    pub children: Vec<DirNode>,
}

/// The kind of a contained, non-fatal failure met during a walk.
#[derive(Debug, Clone, Copy, PartialEq, Eq, Structural)]
pub enum ErrKind {
    /// A directory's entries could not be listed; its subtree contributes
    /// zero size and is omitted from its parent's children.
    ListingFailed,
    /// An entry's metadata could not be retrieved; the entry contributes
    /// zero size.
    MetadataFailed,
}

/// One contained failure, recorded with the path of the entry it concerns.
#[derive(Debug)]
pub struct WalkError {
    pub kind: ErrKind,
    pub path: String,
}

/// The mathematical value of a `DirNode`.
#[verifier::ext_equal]
pub ghost struct NodeV {
    pub path: Seq<char>,
    pub size: u64,
    pub children: Seq<NodeV>,
}

/// The mathematical value of a `WalkError`.
#[verifier::ext_equal]
pub ghost struct ErrV {
    pub kind: ErrKind,
    pub path: Seq<char>,
}

/// The mathematical value of a `DirNode`: its path and size, and the values
/// of its children, in order.
pub open spec fn node_view(n: DirNode) -> NodeV
    decreases n, 0int,
{
    NodeV { path: n.path@, size: n.size, children: nodes_view(n.children@) }
}

/// The mathematical values of a sequence of nodes, in order.
pub open spec fn nodes_view(s: Seq<DirNode>) -> Seq<NodeV>
    decreases s, 1int,
{
    if s.len() == 0 {
        Seq::empty()
    } else {
        seq![node_view(s[0])] + nodes_view(s.drop_first())
    }
}

impl View for DirNode {
    type V = NodeV;

    open spec fn view(&self) -> NodeV {
        node_view(*self)
    }
}

impl View for WalkError {
    type V = ErrV;

    open spec fn view(&self) -> ErrV {
        ErrV { kind: self.kind, path: self.path@ }
    }
}

/// The mathematical values of a sequence of recorded errors, in order.
pub open spec fn errs_view(s: Seq<WalkError>) -> Seq<ErrV>
    decreases s,
{
    if s.len() == 0 {
        Seq::empty()
    } else {
        seq![s[0]@] + errs_view(s.drop_first())
    }
}

/// The exact (unbounded) total of the regular-file byte lengths transitively
/// contained in a subtree. Entries that are not regular files or directories,
/// and entries whose metadata or listing failed, contribute zero.
pub open spec fn size_of(t: FsTree) -> nat
    decreases t, 0int,
{
    match t {
        FsTree::File { size } => size as nat,
        FsTree::Dir { entries } => size_of_entries(entries@),
        _ => 0,
    }
}

/// The exact total over a sequence of directory entries.
pub open spec fn size_of_entries(es: Seq<Entry>) -> nat
    decreases es, 1int,
{
    if es.len() == 0 {
        0
    } else {
        size_of(es[0].node) + size_of_entries(es.drop_first())
    }
}

/// An unbounded total clamped to what a `u64` size field can carry.
pub open spec fn clamp_u64(n: nat) -> u64 {
    if n > u64::MAX {
        u64::MAX
    } else {
        n as u64
    }
}

/// The path of a directory entry: its parent's path, a separator, its name.
pub open spec fn joined_path(base: Seq<char>, name: Seq<char>) -> Seq<char> {
    base + seq!['/'] + name
}

/// Builds the path of a directory entry from its parent's path and its name.
pub fn join_path(base: &String, name: &String) -> (r: String)
    ensures
        r@ == joined_path(base@, name@),
{
    let mut s = base.clone();
    s.append("/");
    s.append(name.as_str());
    proof {
        reveal_strlit("/");
        assert(s@ =~= joined_path(base@, name@));
    }
    s
}

/// Appending a node appends its value to the sequence of node values.
pub proof fn lemma_nodes_view_push(s: Seq<DirNode>, n: DirNode)
    ensures
        nodes_view(s.push(n)) =~= nodes_view(s) + seq![node_view(n)],
    decreases s.len(),
{
    if s.len() == 0 {
        assert(s.push(n).drop_first() =~= s);
    } else {
        assert(s.push(n).drop_first() =~= s.drop_first().push(n));
        lemma_nodes_view_push(s.drop_first(), n);
    }
}

/// The value of a concatenation of recorded errors is the concatenation of
/// the values.
pub proof fn lemma_errs_view_append(s: Seq<WalkError>, t: Seq<WalkError>)
    ensures
        errs_view(s + t) =~= errs_view(s) + errs_view(t),
    decreases s.len(),
{
    if s.len() == 0 {
        assert(s + t =~= t);
    } else {
        assert((s + t).drop_first() =~= s.drop_first() + t);
        assert((s + t)[0] == s[0]);
        lemma_errs_view_append(s.drop_first(), t);
    }
}

/// Appending an entry adds its subtree's total to the sum over the sequence.
pub proof fn lemma_size_of_entries_push(es: Seq<Entry>, e: Entry)
    ensures
        size_of_entries(es.push(e)) == size_of_entries(es) + size_of(e.node),
    decreases es.len(),
{
    if es.len() == 0 {
        assert(es.push(e).drop_first() =~= es);
        assert(es.push(e)[0] == e);
    } else {
        assert(es.push(e).drop_first() =~= es.drop_first().push(e));
        assert(es.push(e)[0] == es[0]);
        lemma_size_of_entries_push(es.drop_first(), e);
    }
}

} // verus!

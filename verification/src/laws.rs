//! The walker's guarantees, stated once, in one place.

use vstd::prelude::*;

use crate::tree::joined_path;
use crate::tree::size_of;
use crate::tree::size_of_entries;
use crate::tree::Entry;
use crate::tree::ErrKind;
use crate::tree::ErrV;
use crate::tree::FsTree;
use crate::tree::NodeV;
use crate::walk::entry_outcome;
use crate::walk::errs_of;
use crate::walk::walk_children;
use crate::walk::walk_node;

verus! {

/// Sum invariant: whenever the exact total fits in a `u64`, the size a walk
/// computes for a subtree is exactly the sum of the byte lengths of all
/// regular files transitively contained in it; ignored entry kinds and failed
/// entries contribute nothing. (Past `u64::MAX` the walker clamps instead of
/// overflowing.)
pub proof fn lemma_sum_invariant(path: Seq<char>, t: FsTree)
    requires
        size_of(t) <= u64::MAX,
    ensures
        walk_node(path, t).size == size_of(t),
{
}

/// The byte lengths of the regular files directly present in a sequence of
/// directory entries, summed.
pub open spec fn direct_file_size(es: Seq<Entry>) -> nat
    decreases es,
{
    if es.len() == 0 {
        0
    } else {
        (match es[0].node {
            FsTree::File { size } => size as nat,
            _ => 0,
        }) + direct_file_size(es.drop_first())
    }
}

/// The exact totals of the readable subdirectories among a sequence of
/// directory entries, summed.
pub open spec fn subdir_sizes(es: Seq<Entry>) -> nat
    decreases es,
{
    if es.len() == 0 {
        0
    } else {
        (if es[0].node is Dir {
            size_of(es[0].node)
        } else {
            0
        }) + subdir_sizes(es.drop_first())
    }
}

/// The sizes of a sequence of result nodes, summed.
pub open spec fn children_total(cs: Seq<NodeV>) -> nat
    decreases cs,
{
    if cs.len() == 0 {
        0
    } else {
        cs[0].size as nat + children_total(cs.drop_first())
    }
}

/// The exact total over a sequence of entries splits into the files directly
/// present and the totals of the readable subdirectories.
pub proof fn lemma_size_of_entries_split(es: Seq<Entry>)
    ensures
        size_of_entries(es) == direct_file_size(es) + subdir_sizes(es),
    decreases es.len(),
{
    if es.len() > 0 {
        lemma_size_of_entries_split(es.drop_first());
        assert(size_of_entries(es) == size_of(es[0].node) + size_of_entries(es.drop_first()));
        match es[0].node {
            FsTree::File { size } => {
                assert(size_of(es[0].node) == size as nat);
            },
            FsTree::Dir { .. } => {
                assert(subdir_sizes(es) == size_of(es[0].node) + subdir_sizes(es.drop_first()));
            },
            _ => {
                assert(size_of(es[0].node) == 0);
            },
        }
    }
}

/// As long as no subdirectory's total overflows, the sizes of the child nodes
/// a walk produces sum to the subdirectories' exact totals.
pub proof fn lemma_children_total(base: Seq<char>, es: Seq<Entry>)
    requires
        subdir_sizes(es) <= u64::MAX,
    ensures
        children_total(walk_children(base, es)) == subdir_sizes(es),
    decreases es.len(),
{
    if es.len() > 0 {
        lemma_children_total(base, es.drop_first());
        if es[0].node is Dir {
            let x = walk_node(joined_path(base, es[0].name@), es[0].node);
            let rest = walk_children(base, es.drop_first());
            assert((seq![x] + rest).drop_first() =~= rest);
            assert((seq![x] + rest)[0] == x);
        }
    }
}

/// Per-node decomposition: a directory node's size is the sum of the file
/// lengths directly present in the directory and of its children's sizes,
/// whenever the directory's exact total fits in a `u64`.
pub proof fn lemma_node_size_decomposition(path: Seq<char>, t: FsTree)
    requires
        t is Dir,
        size_of(t) <= u64::MAX,
    ensures
        walk_node(path, t).size == direct_file_size(t->entries@) + children_total(
            walk_node(path, t).children,
        ),
{
    let es = t->entries@;
    lemma_size_of_entries_split(es);
    lemma_children_total(path, es);
}

/// The number of readable subdirectories among a sequence of entries.
pub open spec fn dir_count(es: Seq<Entry>) -> nat
    decreases es,
{
    if es.len() == 0 {
        0
    } else {
        (if es[0].node is Dir {
            1nat
        } else {
            0
        }) + dir_count(es.drop_first())
    }
}

/// One child per readable subdirectory: a walk of a directory produces
/// exactly one child node per `Dir` entry, and none for any other entry kind.
pub proof fn lemma_one_child_per_subdirectory(base: Seq<char>, es: Seq<Entry>)
    ensures
        walk_children(base, es).len() == dir_count(es),
    decreases es.len(),
{
    if es.len() > 0 {
        lemma_one_child_per_subdirectory(base, es.drop_first());
    }
}

/// Idempotence and determinism across execution modes: the result of a walk
/// is a function of the root path and the tree alone. Any two walks of the
/// same unchanged tree — a repeated run, or one sequential and one parallel
/// run — produce identical result trees and identical error records.
pub proof fn lemma_walk_deterministic(
    path: Seq<char>,
    t: FsTree,
    n1: NodeV,
    n2: NodeV,
    e1: Seq<ErrV>,
    e2: Seq<ErrV>,
)
    requires
        n1 == walk_node(path, t),
        n2 == walk_node(path, t),
        e1 == errs_of(path, t),
        e2 == errs_of(path, t),
    ensures
        n1 == n2,
        n1.size == n2.size,
        e1 == e2,
{
}

/// Empty directory: walking a directory with zero entries yields size zero,
/// no children, and no recorded errors.
pub proof fn lemma_empty_dir(path: Seq<char>, t: FsTree)
    requires
        t matches FsTree::Dir { entries } && entries@.len() == 0,
    ensures
        walk_node(path, t).size == 0,
        walk_node(path, t).children =~= Seq::<NodeV>::empty(),
        errs_of(path, t) =~= Seq::<ErrV>::empty(),
{
}

/// Entry kinds that are neither regular files nor directories — symlinks
/// among them — are never followed: such an entry contributes zero size,
/// yields no child node, records no error, and adding one to a directory
/// changes neither the directory's total nor its children.
pub proof fn lemma_other_entry_ignored(base: Seq<char>, es: Seq<Entry>, e: Entry)
    requires
        e.node is Other,
    ensures
        entry_outcome(base, e).size == 0,
        entry_outcome(base, e).child is None,
        entry_outcome(base, e).errs =~= Seq::<ErrV>::empty(),
        size_of_entries(es.push(e)) == size_of_entries(es),
        walk_children(base, es.push(e)) =~= walk_children(base, es),
{
    crate::tree::lemma_size_of_entries_push(es, e);
    crate::walk::lemma_walk_children_push(base, es, e);
    assert(walk_children(base, es) + Seq::<NodeV>::empty() =~= walk_children(base, es));
}

/// Error containment: an entry whose subtree failed — its metadata could not
/// be retrieved, or it is a directory whose entries could not be listed —
/// contributes zero size, yields no child node, and records exactly one
/// error, of the matching kind, naming the entry's path. Siblings are not
/// affected: the walk completes and their contributions stand.
pub proof fn lemma_failed_entry_contained(base: Seq<char>, e: Entry)
    requires
        e.node is MetaError || e.node is DirUnreadable,
    ensures
        entry_outcome(base, e).size == 0,
        entry_outcome(base, e).child is None,
        entry_outcome(base, e).errs.len() == 1,
        entry_outcome(base, e).errs =~= seq![
            ErrV {
                kind: if e.node is MetaError {
                    ErrKind::MetadataFailed
                } else {
                    ErrKind::ListingFailed
                },
                path: joined_path(base, e.name@),
            },
        ],
{
}

} // verus!

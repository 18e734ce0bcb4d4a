//! The tree-size walker: one aggregation algorithm, runnable sequentially or
//! with per-entry work dispatched across rayon's worker pool.

use vstd::prelude::*;

use crate::tree::clamp_u64;
use crate::tree::errs_view;
use crate::tree::join_path;
use crate::tree::joined_path;
use crate::tree::lemma_errs_view_append;
use crate::tree::lemma_nodes_view_push;
use crate::tree::lemma_size_of_entries_push;
use crate::tree::node_view;
use crate::tree::nodes_view;
use crate::tree::size_of;
use crate::tree::size_of_entries;
use crate::tree::DirNode;
use crate::tree::Entry;
use crate::tree::ErrKind;
use crate::tree::ErrV;
use crate::tree::FsTree;
use crate::tree::NodeV;
use crate::tree::WalkError;

use rayon::iter::IntoParallelRefIterator;
use rayon::iter::ParallelIterator;

verus! {

/// How the walker processes the entries of a directory: one at a time, or
/// with each entry as an independently scheduled unit of work on a bounded
/// worker pool. Both modes compute the same result.
#[derive(Debug, Clone, Copy, PartialEq, Eq, Structural)]
pub enum Mode {
    Sequential,
    Parallel,
}

/// Why a walk could not start at all: the supplied root is invalid.
#[derive(Debug, Clone, Copy, PartialEq, Eq, Structural)]
pub enum RootError {
    /// The root's metadata could not be retrieved.
    PathNotFound,
    /// The root exists but is not a directory.
    NotADirectory,
    /// The root is a directory but its entries could not be listed.
    ListingFailed,
}

/// What processing one directory entry yields: a size contribution, a child
/// node if the entry was a readable subdirectory, and the errors contained
/// below the entry.
pub struct EntryOutcome {
    pub size: u64,
    pub child: Option<DirNode>,
    pub errs: Vec<WalkError>,
}

/// The mathematical value of an `EntryOutcome`.
#[verifier::ext_equal]
pub ghost struct OutcomeV {
    pub size: u64,
    pub child: Option<NodeV>,
    pub errs: Seq<ErrV>,
}

impl View for EntryOutcome {
    type V = OutcomeV;

    open spec fn view(&self) -> OutcomeV {
        OutcomeV {
            size: self.size,
            child: match self.child {
                Some(n) => Some(node_view(n)),
                None => None,
            },
            errs: errs_view(self.errs@),
        }
    }
}

/// The node a walk produces for a subtree rooted at `path`: the path itself,
/// the subtree's file-size total clamped to `u64`, and one child node per
/// direct subdirectory whose entries could be listed, in entry order.
pub open spec fn walk_node(path: Seq<char>, t: FsTree) -> NodeV
    decreases t, 0int,
{
    NodeV {
        path: path,
        size: clamp_u64(size_of(t)),
        children: match t {
            FsTree::Dir { entries } => walk_children(path, entries@),
            _ => Seq::empty(),
        },
    }
}

/// The child nodes a walk produces for a sequence of directory entries:
/// one per `Dir` entry, in order; other entry kinds yield none.
pub open spec fn walk_children(base: Seq<char>, es: Seq<Entry>) -> Seq<NodeV>
    decreases es, 1int,
{
    if es.len() == 0 {
        Seq::empty()
    } else {
        let rest = walk_children(base, es.drop_first());
        match es[0].node {
            FsTree::Dir { .. } => seq![
                walk_node(joined_path(base, es[0].name@), es[0].node),
            ] + rest,
            _ => rest,
        }
    }
}

/// The errors a walk of the subtree rooted at `path` contains and records:
/// one per entry whose metadata could not be retrieved and one per directory
/// whose entries could not be listed, in entry order, nested ones included.
pub open spec fn errs_of(path: Seq<char>, t: FsTree) -> Seq<ErrV>
    decreases t, 0int,
{
    match t {
        FsTree::File { .. } => Seq::empty(),
        FsTree::Other => Seq::empty(),
        FsTree::MetaError => seq![ErrV { kind: ErrKind::MetadataFailed, path: path }],
        FsTree::DirUnreadable => seq![ErrV { kind: ErrKind::ListingFailed, path: path }],
        FsTree::Dir { entries } => errs_of_entries(path, entries@),
    }
}

/// The recorded errors over a sequence of directory entries, in order.
pub open spec fn errs_of_entries(base: Seq<char>, es: Seq<Entry>) -> Seq<ErrV>
    decreases es, 1int,
{
    if es.len() == 0 {
        Seq::empty()
    } else {
        errs_of(joined_path(base, es[0].name@), es[0].node)
            + errs_of_entries(base, es.drop_first())
    }
}

/// What processing one entry under the directory at `base` must yield: the
/// entry's clamped size contribution, its child node if it is a readable
/// subdirectory, and the errors contained below it.
pub open spec fn entry_outcome(base: Seq<char>, e: Entry) -> OutcomeV {
    OutcomeV {
        size: clamp_u64(size_of(e.node)),
        child: match e.node {
            FsTree::Dir { .. } => Some(walk_node(joined_path(base, e.name@), e.node)),
            _ => None,
        },
        errs: errs_of(joined_path(base, e.name@), e.node),
    }
}

/// Appending an entry appends its child node, if any, to the children the
/// walk produces for the sequence.
pub proof fn lemma_walk_children_push(base: Seq<char>, es: Seq<Entry>, e: Entry)
    ensures
        walk_children(base, es.push(e)) =~= walk_children(base, es) + (match e.node {
            FsTree::Dir { .. } => seq![walk_node(joined_path(base, e.name@), e.node)],
            _ => Seq::empty(),
        }),
    decreases es.len(),
{
    if es.len() == 0 {
        assert(es.push(e).drop_first() =~= es);
        assert(es.push(e)[0] == e);
    } else {
        assert(es.push(e).drop_first() =~= es.drop_first().push(e));
        assert(es.push(e)[0] == es[0]);
        lemma_walk_children_push(base, es.drop_first(), e);
    }
}

/// Appending an entry appends its contained errors to those the walk records
/// for the sequence.
pub proof fn lemma_errs_of_entries_push(base: Seq<char>, es: Seq<Entry>, e: Entry)
    ensures
        errs_of_entries(base, es.push(e)) =~= errs_of_entries(base, es)
            + errs_of(joined_path(base, e.name@), e.node),
    decreases es.len(),
{
    if es.len() == 0 {
        assert(es.push(e).drop_first() =~= es);
        assert(es.push(e)[0] == e);
    } else {
        assert(es.push(e).drop_first() =~= es.drop_first().push(e));
        assert(es.push(e)[0] == es[0]);
        lemma_errs_of_entries_push(base, es.drop_first(), e);
    }
}

/// Adds two size contributions, clamping at the largest representable total
/// instead of overflowing.
pub fn sat_add(a: u64, b: u64) -> (r: u64)
    ensures
        r == clamp_u64(a as nat + b as nat),
{
    if a <= u64::MAX - b {
        a + b
    } else {
        u64::MAX
    }
}

/// Processes one directory entry under the directory at `base`: a file
/// contributes its length, a readable subdirectory is walked recursively,
/// anything else contributes zero, and failed entries record one error each.
pub fn walk_entry(mode: Mode, base: &String, e: &Entry) -> (r: EntryOutcome)
    ensures
        r@ == entry_outcome(base@, *e),
    decreases e.node, 1int,
{
    match &e.node {
        FsTree::File { size } => {
            let r = EntryOutcome { size: *size, child: None, errs: Vec::new() };
            proof {
                assert(r@ =~= entry_outcome(base@, *e));
            }
            r
        },
        FsTree::Other => {
            let r = EntryOutcome { size: 0, child: None, errs: Vec::new() };
            proof {
                assert(r@ =~= entry_outcome(base@, *e));
            }
            r
        },
        FsTree::MetaError => {
            let p = join_path(base, &e.name);
            let mut errs: Vec<WalkError> = Vec::new();
            errs.push(WalkError { kind: ErrKind::MetadataFailed, path: p });
            let r = EntryOutcome { size: 0, child: None, errs };
            proof {
                reveal_with_fuel(errs_view, 2);
                assert(r@.errs =~= entry_outcome(base@, *e).errs);
                assert(r@ =~= entry_outcome(base@, *e));
            }
            r
        },
        FsTree::DirUnreadable => {
            let p = join_path(base, &e.name);
            let mut errs: Vec<WalkError> = Vec::new();
            errs.push(WalkError { kind: ErrKind::ListingFailed, path: p });
            let r = EntryOutcome { size: 0, child: None, errs };
            proof {
                reveal_with_fuel(errs_view, 2);
                assert(r@.errs =~= entry_outcome(base@, *e).errs);
                assert(r@ =~= entry_outcome(base@, *e));
            }
            r
        },
        FsTree::Dir { .. } => {
            let p = join_path(base, &e.name);
            let (child, errs) = walk(mode, p, &e.node);
            let size = child.size;
            let r = EntryOutcome { size, child: Some(child), errs };
            proof {
                assert(r@ =~= entry_outcome(base@, *e));
            }
            r
        },
    }
}

/// Dispatches one unit of work per entry across rayon's worker pool and
/// collects the per-entry outcomes.
///
/// Relies on rayon's `par_iter().map(..).collect::<Vec<_>>()`: a parallel map
/// over a slice is indexed, and collecting an indexed parallel iterator into
/// a `Vec` places exactly one result per input at the input's position, each
/// produced by applying the given closure to that input.
#[verifier::external_body]
fn par_outcomes(base: &String, entries: &Vec<Entry>) -> (r: Vec<EntryOutcome>)
    ensures
        r@.len() == entries@.len(),
        forall|i: int|
            0 <= i < entries@.len() ==> (#[trigger] r@[i])@ == entry_outcome(
                base@,
                entries@[i],
            ),
{
    entries.par_iter().map(|e| walk_entry(Mode::Parallel, base, e)).collect()
}

/// Folds per-entry outcomes into a finished node: sizes are summed (clamped),
/// child nodes are collected in order, and contained errors are concatenated
/// in order. This is the single aggregation point of a directory visit.
fn fold_outcomes(
    path: String,
    outcomes: Vec<EntryOutcome>,
    Ghost(es): Ghost<Seq<Entry>>,
) -> (r: (DirNode, Vec<WalkError>))
    requires
        outcomes@.len() == es.len(),
        forall|j: int|
            0 <= j < es.len() ==> (#[trigger] outcomes@[j])@ == entry_outcome(path@, es[j]),
    ensures
        r.0@.path == path@,
        r.0@.size == clamp_u64(size_of_entries(es)),
        r.0@.children == walk_children(path@, es),
        errs_view(r.1@) == errs_of_entries(path@, es),
{
    let ghost base = path@;
    let ghost orig = outcomes@;
    let n = outcomes.len();
    let mut rest = outcomes;
    let mut size: u64 = 0;
    let mut children: Vec<DirNode> = Vec::new();
    let mut errs: Vec<WalkError> = Vec::new();
    let mut i: usize = 0;
    while i < n
        invariant
            i <= n,
            n == es.len(),
            orig.len() == n,
            rest@.len() == n - i,
            rest@ =~= orig.skip(i as int),
            forall|j: int| 0 <= j < es.len() ==> (#[trigger] orig[j])@ == entry_outcome(base, es[j]),
            base == path@,
            size == clamp_u64(size_of_entries(es.take(i as int))),
            nodes_view(children@) =~= walk_children(base, es.take(i as int)),
            errs_view(errs@) =~= errs_of_entries(base, es.take(i as int)),
        decreases n - i,
    {
        let o = rest.remove(0);
        proof {
            assert(o == orig[i as int]);
            assert(o@ == entry_outcome(base, es[i as int]));
        }
        let ghost old_size = size;
        let ghost old_children = children@;
        let ghost old_errs = errs@;
        size = sat_add(size, o.size);
        let mut oerrs = o.errs;
        let ghost oerrs_view = oerrs@;
        match o.child {
            Some(c) => children.push(c),
            None => (),
        }
        errs.append(&mut oerrs);
        proof {
            let ghost k = i as int;
            assert(es.take(k + 1) =~= es.take(k).push(es[k]));
            lemma_size_of_entries_push(es.take(k), es[k]);
            lemma_walk_children_push(base, es.take(k), es[k]);
            lemma_errs_of_entries_push(base, es.take(k), es[k]);
            lemma_errs_view_append(old_errs, oerrs_view);
            if es[k].node is Dir {
                lemma_nodes_view_push(old_children, children@[children@.len() - 1]);
            }
        }
        i = i + 1;
    }
    proof {
        assert(es.take(n as int) =~= es);
    }
    let node = DirNode { path, size, children };
    (node, errs)
}

/// Walks the subtree rooted at `path`, whose listing is `t`, and returns its
/// finished node together with every error contained below it, in entry
/// order. The two execution modes return the same value.
pub fn walk(mode: Mode, path: String, t: &FsTree) -> (r: (DirNode, Vec<WalkError>))
    ensures
        r.0@ == walk_node(path@, *t),
        errs_view(r.1@) == errs_of(path@, *t),
    decreases *t, 0int,
{
    match t {
        FsTree::Dir { entries } => {
            let outcomes: Vec<EntryOutcome> = match mode {
                Mode::Sequential => {
                    let mut acc: Vec<EntryOutcome> = Vec::new();
                    let mut i: usize = 0;
                    while i < entries.len()
                        invariant
                            i <= entries@.len(),
                            acc@.len() == i,
                            forall|j: int|
                                0 <= j < i ==> (#[trigger] acc@[j])@ == entry_outcome(
                                    path@,
                                    entries@[j],
                                ),
                            t is Dir,
                            entries == t->entries,
                        decreases entries@.len() - i,
                    {
                        let o = walk_entry(mode, &path, &entries[i]);
                        acc.push(o);
                        i = i + 1;
                    }
                    acc
                },
                Mode::Parallel => par_outcomes(&path, entries),
            };
            let ghost ges = entries@;
            let r = fold_outcomes(path, outcomes, Ghost(ges));
            proof {
                assert(r.0@ =~= walk_node(r.0@.path, *t));
            }
            r
        },
        FsTree::File { size } => {
            let node = DirNode { path, size: *size, children: Vec::new() };
            proof {
                assert(node@ =~= walk_node(node@.path, *t));
            }
            (node, Vec::new())
        },
        FsTree::Other => {
            let node = DirNode { path, size: 0, children: Vec::new() };
            proof {
                assert(node@ =~= walk_node(node@.path, *t));
            }
            (node, Vec::new())
        },
        FsTree::MetaError => {
            let mut errs: Vec<WalkError> = Vec::new();
            errs.push(WalkError { kind: ErrKind::MetadataFailed, path: path.clone() });
            let node = DirNode { path, size: 0, children: Vec::new() };
            proof {
                reveal_with_fuel(errs_view, 2);
                assert(node@ =~= walk_node(node@.path, *t));
                assert(errs_view(errs@) =~= errs_of(node@.path, *t));
            }
            (node, errs)
        },
        FsTree::DirUnreadable => {
            let mut errs: Vec<WalkError> = Vec::new();
            errs.push(WalkError { kind: ErrKind::ListingFailed, path: path.clone() });
            let node = DirNode { path, size: 0, children: Vec::new() };
            proof {
                reveal_with_fuel(errs_view, 2);
                assert(node@ =~= walk_node(node@.path, *t));
                assert(errs_view(errs@) =~= errs_of(node@.path, *t));
            }
            (node, errs)
        },
    }
}

/// Walks a tree from its root. The root must be a directory whose entries
/// were listed; any other root is fatal and yields no partial result: a root
/// whose metadata could not be read is `PathNotFound`, a root that is not a
/// directory is `NotADirectory`, and a root directory whose entries could not
/// be listed is `ListingFailed`.
pub fn walk_root(mode: Mode, path: String, t: &FsTree) -> (r: Result<
    (DirNode, Vec<WalkError>),
    RootError,
>)
    ensures
        match r {
            Ok(pair) => t is Dir && pair.0@ == walk_node(path@, *t) && errs_view(pair.1@)
                == errs_of(path@, *t),
            Err(e) => match e {
                RootError::PathNotFound => t is MetaError,
                RootError::NotADirectory => t is File || t is Other,
                RootError::ListingFailed => t is DirUnreadable,
            },
        },
{
    match t {
        FsTree::Dir { .. } => Ok(walk(mode, path, t)),
        FsTree::MetaError => Err(RootError::PathNotFound),
        FsTree::DirUnreadable => Err(RootError::ListingFailed),
        FsTree::File { .. } => Err(RootError::NotADirectory),
        FsTree::Other => Err(RootError::NotADirectory),
    }
}

} // verus!


use dirsize::walk::walk;
use dirsize::walk::walk_root;
use dirsize::walk::sat_add;
use dirsize::tree::join_path;
use dirsize::DirNode;
use dirsize::Entry;
use dirsize::ErrKind;
use dirsize::FsTree;
use dirsize::Mode;
use dirsize::RootError;
use dirsize::WalkError;

fn file(name: &str, size: u64) -> Entry {
    Entry { name: name.to_string(), node: FsTree::File { size } }
}

fn dir(name: &str, entries: Vec<Entry>) -> Entry {
    Entry { name: name.to_string(), node: FsTree::Dir { entries } }
}

fn other(name: &str) -> Entry {
    Entry { name: name.to_string(), node: FsTree::Other }
}

fn meta_error(name: &str) -> Entry {
    Entry { name: name.to_string(), node: FsTree::MetaError }
}

fn unreadable_dir(name: &str) -> Entry {
    Entry { name: name.to_string(), node: FsTree::DirUnreadable }
}

fn sample_tree() -> FsTree {
    // a (10), b (20), c/ { d (5) }
    FsTree::Dir {
        entries: vec![
            file("a", 10),
            file("b", 20),
            dir("c", vec![file("d", 5)]),
        ],
    }
}

fn assert_same_tree(a: &DirNode, b: &DirNode) {
    assert_eq!(a.path, b.path);
    assert_eq!(a.size, b.size);
    assert_eq!(a.children.len(), b.children.len());
    for (ca, cb) in a.children.iter().zip(b.children.iter()) {
        assert_same_tree(ca, cb);
    }
}

#[test]
fn empty_dir() {
    for mode in [Mode::Sequential, Mode::Parallel] {
        let t = FsTree::Dir { entries: vec![] };
        let (node, errs) = walk(mode, "root".to_string(), &t);
        assert_eq!(node.path, "root");
        assert_eq!(node.size, 0);
        assert!(node.children.is_empty());
        assert!(errs.is_empty());
    }
}

#[test]
fn concrete_scenario_sequential() {
    let t = sample_tree();
    let (node, errs) = walk(Mode::Sequential, "root".to_string(), &t);
    assert_eq!(node.size, 35);
    assert!(errs.is_empty());
    assert_eq!(node.children.len(), 1);
    let c = &node.children[0];
    assert_eq!(c.path, "root/c");
    assert_eq!(c.size, 5);
    assert!(c.children.is_empty());
}

#[test]
fn concrete_scenario_parallel() {
    let t = sample_tree();
    let (node, errs) = walk(Mode::Parallel, "root".to_string(), &t);
    assert_eq!(node.size, 35);
    assert!(errs.is_empty());
    assert_eq!(node.children.len(), 1);
    let c = &node.children[0];
    assert_eq!(c.path, "root/c");
    assert_eq!(c.size, 5);
    assert!(c.children.is_empty());
}

#[test]
fn idempotent_on_unchanged_tree() {
    let t = sample_tree();
    let (n1, e1) = walk(Mode::Sequential, "root".to_string(), &t);
    let (n2, e2) = walk(Mode::Sequential, "root".to_string(), &t);
    assert_same_tree(&n1, &n2);
    assert_eq!(e1.len(), e2.len());
}

#[test]
fn sequential_and_parallel_agree() {
    // A broader and deeper tree, so that the parallel mode really fans out.
    let mut wide: Vec<Entry> = Vec::new();
    for i in 0..50u64 {
        wide.push(file(&format!("f{i}"), i));
        wide.push(dir(
            &format!("d{i}"),
            vec![file("x", i * 3), dir("e", vec![file("y", 1)])],
        ));
    }
    wide.push(other("link"));
    wide.push(meta_error("gone"));
    wide.push(unreadable_dir("locked"));
    let t = FsTree::Dir { entries: wide };
    let (n1, e1) = walk(Mode::Sequential, "root".to_string(), &t);
    let (n2, e2) = walk(Mode::Parallel, "root".to_string(), &t);
    assert_same_tree(&n1, &n2);
    assert_eq!(e1.len(), e2.len());
    for (a, b) in e1.iter().zip(e2.iter()) {
        assert_eq!(a.kind, b.kind);
        assert_eq!(a.path, b.path);
    }
    // 0+..+49 files, each dir with x (3i) and e/y (1)
    let expected: u64 = (0..50).map(|i| i + 3 * i + 1).sum();
    assert_eq!(n1.size, expected);
    assert_eq!(n1.children.len(), 50);
}

#[test]
fn symlinked_directory_not_followed() {
    // "link" stands for a symlink to a directory (possibly an ancestor):
    // the walk terminates, counts nothing behind it, and adds no child.
    for mode in [Mode::Sequential, Mode::Parallel] {
        let t = FsTree::Dir { entries: vec![file("a", 7), other("link")] };
        let (node, errs) = walk(mode, "root".to_string(), &t);
        assert_eq!(node.size, 7);
        assert!(node.children.is_empty());
        assert!(errs.is_empty());
    }
}

#[test]
fn unreadable_subtree_contained() {
    // One nested directory is unreadable: the walk completes, its size
    // excludes that subtree, and exactly one error is recorded for it.
    for mode in [Mode::Sequential, Mode::Parallel] {
        let t = FsTree::Dir {
            entries: vec![
                file("a", 10),
                dir("sub", vec![file("b", 4), unreadable_dir("secret")]),
            ],
        };
        let (node, errs) = walk(mode, "root".to_string(), &t);
        assert_eq!(node.size, 14);
        assert_eq!(node.children.len(), 1);
        assert_eq!(node.children[0].path, "root/sub");
        assert_eq!(node.children[0].size, 4);
        assert_eq!(errs.len(), 1);
        assert_eq!(errs[0].kind, ErrKind::ListingFailed);
        assert_eq!(errs[0].path, "root/sub/secret");
    }
}

#[test]
fn metadata_failure_contained() {
    let t = FsTree::Dir { entries: vec![meta_error("ghost"), file("a", 3)] };
    let (node, errs) = walk(Mode::Sequential, "root".to_string(), &t);
    assert_eq!(node.size, 3);
    assert!(node.children.is_empty());
    assert_eq!(errs.len(), 1);
    assert_eq!(errs[0].kind, ErrKind::MetadataFailed);
    assert_eq!(errs[0].path, "root/ghost");
}

#[test]
fn errors_reported_in_entry_order() {
    let t = FsTree::Dir {
        entries: vec![meta_error("m1"), unreadable_dir("u1"), meta_error("m2")],
    };
    let (node, errs) = walk(Mode::Sequential, "root".to_string(), &t);
    assert_eq!(node.size, 0);
    let got: Vec<(ErrKind, &str)> = errs.iter().map(|e: &WalkError| (e.kind, e.path.as_str())).collect();
    assert_eq!(
        got,
        vec![
            (ErrKind::MetadataFailed, "root/m1"),
            (ErrKind::ListingFailed, "root/u1"),
            (ErrKind::MetadataFailed, "root/m2"),
        ]
    );
}

#[test]
fn root_must_be_a_directory() {
    let ok = walk_root(Mode::Sequential, "r".to_string(), &FsTree::Dir { entries: vec![] });
    assert!(ok.is_ok());
    let e = walk_root(Mode::Sequential, "r".to_string(), &FsTree::File { size: 1 });
    assert_eq!(e.err(), Some(RootError::NotADirectory));
    let e = walk_root(Mode::Sequential, "r".to_string(), &FsTree::Other);
    assert_eq!(e.err(), Some(RootError::NotADirectory));
    let e = walk_root(Mode::Sequential, "r".to_string(), &FsTree::MetaError);
    assert_eq!(e.err(), Some(RootError::PathNotFound));
    let e = walk_root(Mode::Sequential, "r".to_string(), &FsTree::DirUnreadable);
    assert_eq!(e.err(), Some(RootError::ListingFailed));
}

#[test]
fn totals_clamp_instead_of_overflowing() {
    assert_eq!(sat_add(u64::MAX, 5), u64::MAX);
    assert_eq!(sat_add(3, 4), 7);
    let t = FsTree::Dir {
        entries: vec![file("a", u64::MAX), file("b", u64::MAX), file("c", 1)],
    };
    let (node, _) = walk(Mode::Sequential, "root".to_string(), &t);
    assert_eq!(node.size, u64::MAX);
}

#[test]
fn child_paths_join_parent_and_name() {
    assert_eq!(join_path(&"root".to_string(), &"c".to_string()), "root/c");
    assert_eq!(join_path(&"".to_string(), &"c".to_string()), "/c");
}

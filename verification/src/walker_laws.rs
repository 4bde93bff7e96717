//! What a walk finds, told of a directory tree.
//!
//! The tree stands for what the file system holds while the walk goes on.
//! A walk that is given the listings of the tree accounts for every file of
//! the tree at every step: each is either found already or lies below a
//! directory that is still to be listed. When no directory is left, the
//! files found are the files of the tree, each as often as the tree has it:
//! no directory is among them, and nothing that is neither file nor
//! directory.

use vstd::prelude::*;
use vstd::multiset::Multiset;
use vstd::seq_lib::lemma_multiset_commutative;
use crate::walker::{
    listed_directories, listed_files, listed_spec, start_spec, DirEntryModel, PathKind, WalkModel,
};

verus! {

/// A directory tree: a file with its path, a directory with its path and
/// what it holds, or something with a path that is neither.
pub enum Tree {
    File(Seq<char>),
    Directory(Seq<char>, Seq<Tree>),
    Other(Seq<char>),
}

/// The path of the root of a tree.
pub open spec fn path_of(tree: Tree) -> Seq<char> {
    match tree {
        Tree::File(path) => path,
        Tree::Directory(path, _) => path,
        Tree::Other(path) => path,
    }
}

/// What the path of the root of a tree leads to.
pub open spec fn kind_of(tree: Tree) -> PathKind {
    match tree {
        Tree::File(_) => PathKind::File,
        Tree::Directory(_, _) => PathKind::Directory,
        Tree::Other(_) => PathKind::Other,
    }
}

/// The paths of the roots of the trees.
pub open spec fn paths_of(trees: Seq<Tree>) -> Seq<Seq<char>> {
    Seq::new(trees.len(), |i: int| path_of(trees[i]))
}

/// The entry that a listing has for a tree.
pub open spec fn entry_of(tree: Tree) -> DirEntryModel {
    DirEntryModel { path: path_of(tree), kind: kind_of(tree) }
}

/// The listing of a directory that holds the given trees.
pub open spec fn listing_of(children: Seq<Tree>) -> Seq<DirEntryModel> {
    Seq::new(children.len(), |i: int| entry_of(children[i]))
}

/// The paths of the files of a tree, each as often as the tree has it.
pub open spec fn files_of(tree: Tree) -> Multiset<Seq<char>>
    decreases tree,
{
    match tree {
        Tree::File(path) => Multiset::singleton(path),
        Tree::Directory(_, children) => files_of_all(children),
        Tree::Other(_) => Multiset::empty(),
    }
}

/// The paths of the files of the trees, each as often as the trees have it.
pub open spec fn files_of_all(trees: Seq<Tree>) -> Multiset<Seq<char>>
    decreases trees,
{
    if trees.len() == 0 {
        Multiset::empty()
    } else {
        files_of_all(trees.drop_last()).add(files_of(trees.last()))
    }
}

/// The first `n` of the trees that are directories, in their order.
pub open spec fn directories_among(trees: Seq<Tree>, n: int) -> Seq<Tree>
    decreases n,
{
    if n <= 0 {
        Seq::<Tree>::empty()
    } else if trees[n - 1] is Directory {
        directories_among(trees, n - 1).push(trees[n - 1])
    } else {
        directories_among(trees, n - 1)
    }
}

/// Whether a walk accounts for the files of a tree: the files found and the
/// files of the trees whose roots are pending are together the files of the
/// tree, and the trees whose roots are pending are directories.
pub open spec fn accounts_for(walk: WalkModel, pending: Seq<Tree>, root: Tree) -> bool {
    &&& walk.pending == paths_of(pending)
    &&& forall|i: int| 0 <= i < pending.len() ==> #[trigger] pending[i] is Directory
    &&& walk.files.to_multiset().add(files_of_all(pending)) == files_of(root)
}

/// The files of two lists of trees are the files of the one list and the
/// files of the other.
pub proof fn lemma_files_of_all_add(a: Seq<Tree>, b: Seq<Tree>)
    ensures
        files_of_all(a + b) == files_of_all(a).add(files_of_all(b)),
    decreases b.len(),
{
    broadcast use vstd::multiset::group_multiset_axioms;

    if b.len() == 0 {
        assert(a + b =~= a);
        assert(files_of_all(a).add(files_of_all(b)) =~= files_of_all(a));
    } else {
        lemma_files_of_all_add(a, b.drop_last());
        assert((a + b).drop_last() =~= a + b.drop_last());
        assert((a + b).last() == b.last());
        assert(files_of_all(a + b) =~= files_of_all(a).add(files_of_all(b)));
    }
}

/// The listing of a directory gives its files and its directories: the
/// files listed and the files below the directories listed are the files of
/// what the directory holds.
pub proof fn lemma_listing(children: Seq<Tree>, n: int)
    requires
        0 <= n <= children.len(),
    ensures
        listed_directories(listing_of(children), n) == paths_of(directories_among(children, n)),
        forall|i: int|
            0 <= i < directories_among(children, n).len() ==> #[trigger] directories_among(
                children,
                n,
            )[i] is Directory,
        listed_files(listing_of(children), n).to_multiset().add(
            files_of_all(directories_among(children, n)),
        ) == files_of_all(children.take(n)),
    decreases n,
{
    broadcast use {vstd::seq_lib::group_to_multiset_ensures, vstd::multiset::group_multiset_axioms};

    let listing = listing_of(children);
    if n <= 0 {
        assert(listed_directories(listing, n) =~= paths_of(directories_among(children, n)));
        assert(children.take(n) =~= Seq::<Tree>::empty());
        assert(listed_files(listing, n).to_multiset().add(
            files_of_all(directories_among(children, n)),
        ) =~= files_of_all(children.take(n)));
    } else {
        lemma_listing(children, n - 1);
        let child = children[n - 1];
        let files = listed_files(listing, n - 1);
        let directories = directories_among(children, n - 1);
        assert(children.take(n).drop_last() =~= children.take(n - 1));
        assert(children.take(n).last() == child);
        assert(listing[n - 1] == entry_of(child));
        match child {
            Tree::File(path) => {
                assert(listed_files(listing, n) == files.push(path));
                assert(directories_among(children, n) == directories);
                assert(files.push(path).to_multiset() =~= files.to_multiset().insert(path));
                assert(files_of(child) =~= Multiset::singleton(path));
                assert(files_of_all(children.take(n)) == files_of_all(children.take(n - 1)).add(
                    files_of(child),
                ));
                assert(listed_files(listing, n).to_multiset().add(
                    files_of_all(directories_among(children, n)),
                ) =~= files_of_all(children.take(n)));
            },
            Tree::Other(path) => {
                assert(listed_files(listing, n) == files);
                assert(directories_among(children, n) == directories);
                assert(files_of(child) =~= Multiset::empty());
                assert(files_of_all(children.take(n)) == files_of_all(children.take(n - 1)).add(
                    files_of(child),
                ));
                assert(listed_files(listing, n).to_multiset().add(
                    files_of_all(directories_among(children, n)),
                ) =~= files_of_all(children.take(n)));
            },
            Tree::Directory(path, below) => {
                let grown = directories.push(child);
                assert(grown.drop_last() =~= directories);
                assert(grown.last() == child);
                assert(listed_directories(listing, n) =~= paths_of(grown));
                assert(files_of_all(grown) == files_of_all(directories).add(files_of(child)));
                assert(files_of_all(children.take(n)) == files_of_all(children.take(n - 1)).add(
                    files_of(child),
                ));
                assert(listed_files(listing, n).to_multiset().add(files_of_all(grown))
                    =~= files_of_all(children.take(n)));
            },
        }
    }
}

/// A walk that starts at a tree accounts for its files: at a directory
/// nothing is found and the directory is pending; at a file the file is
/// found and nothing is pending; at anything else nothing is found and
/// nothing is pending.
pub proof fn lemma_walk_start(root: Tree)
    ensures
        root is Directory ==> accounts_for(
            start_spec(path_of(root), PathKind::Directory),
            seq![root],
            root,
        ),
        root is File ==> accounts_for(
            start_spec(path_of(root), PathKind::File),
            Seq::<Tree>::empty(),
            root,
        ),
        root is Other ==> accounts_for(
            start_spec(path_of(root), PathKind::Other),
            Seq::<Tree>::empty(),
            root,
        ),
{
    broadcast use {vstd::seq_lib::group_to_multiset_ensures, vstd::multiset::group_multiset_axioms};

    match root {
        Tree::Directory(path, children) => {
            let walk = start_spec(path, PathKind::Directory);
            let pending = seq![root];
            assert(walk.pending =~= paths_of(pending));
            assert(pending.drop_last() =~= Seq::<Tree>::empty());
            assert(pending.last() == root);
            assert(files_of_all(pending.drop_last()) =~= Multiset::empty());
            assert(files_of_all(pending) =~= files_of(root));
            assert(walk.files.to_multiset() =~= Multiset::empty());
            assert(walk.files.to_multiset().add(files_of_all(pending)) =~= files_of(root));
        },
        Tree::File(path) => {
            let walk = start_spec(path, PathKind::File);
            let pending = Seq::<Tree>::empty();
            assert(walk.pending =~= paths_of(pending));
            assert(walk.files =~= Seq::<Seq<char>>::empty().push(path));
            assert(walk.files.to_multiset() =~= Multiset::singleton(path));
            assert(walk.files.to_multiset().add(files_of_all(pending)) =~= files_of(root));
        },
        Tree::Other(path) => {
            let walk = start_spec(path, PathKind::Other);
            let pending = Seq::<Tree>::empty();
            assert(walk.pending =~= paths_of(pending));
            assert(walk.files.to_multiset() =~= Multiset::empty());
            assert(walk.files.to_multiset().add(files_of_all(pending)) =~= files_of(root));
        },
    }
}

/// A walk that accounts for the files of a tree still does so after its next
/// step: the directory found last is taken from the pending ones and its
/// listing is recorded.
pub proof fn lemma_walk_step(walk: WalkModel, pending: Seq<Tree>, root: Tree)
    requires
        accounts_for(walk, pending, root),
        pending.len() > 0,
    ensures
        pending.last() matches Tree::Directory(path, children) && path == walk.pending.last()
            && accounts_for(
            listed_spec(
                WalkModel { pending: walk.pending.drop_last(), files: walk.files },
                listing_of(children),
            ),
            pending.drop_last() + directories_among(children, children.len() as int),
            root,
        ),
{
    broadcast use vstd::multiset::group_multiset_axioms;

    let last = pending.last();
    assert(pending[pending.len() - 1] is Directory);
    match last {
        Tree::Directory(path, children) => {
            let n = children.len() as int;
            let popped = WalkModel { pending: walk.pending.drop_last(), files: walk.files };
            let after = listed_spec(popped, listing_of(children));
            let rest = pending.drop_last();
            let found = listed_files(listing_of(children), n);
            let below = directories_among(children, n);
            let next = rest + below;
            lemma_listing(children, n);
            assert(children.take(n) =~= children);
            assert(after.pending =~= paths_of(next));
            assert forall|i: int| 0 <= i < next.len() implies #[trigger] next[i] is Directory by {
                if i < rest.len() {
                    assert(next[i] == pending[i]);
                } else {
                    assert(next[i] == below[i - rest.len()]);
                }
            }
            lemma_files_of_all_add(rest, below);
            lemma_multiset_commutative(walk.files, found);
            assert(files_of_all(pending) == files_of_all(rest).add(files_of(last)));
            assert(after.files.to_multiset().add(files_of_all(next))
                =~= walk.files.to_multiset().add(files_of_all(pending)));
        },
        _ => {},
    }
}

/// When no directory is left to list, a walk that accounts for the files of
/// a tree has found exactly the files of the tree: each as often as the tree
/// has it, and nothing else. Where no two files of the tree have the same
/// path, no path is found twice.
pub proof fn lemma_walk_end(walk: WalkModel, pending: Seq<Tree>, root: Tree)
    requires
        accounts_for(walk, pending, root),
        walk.pending.len() == 0,
    ensures
        walk.files.to_multiset() == files_of(root),
        (forall|path: Seq<char>| files_of(root).count(path) <= 1) ==> walk.files.no_duplicates(),
{
    broadcast use vstd::multiset::group_multiset_axioms;

    assert(pending.len() == 0);
    assert(walk.files.to_multiset().add(files_of_all(pending)) =~= walk.files.to_multiset());
    if forall|path: Seq<char>| files_of(root).count(path) <= 1 {
        walk.files.lemma_multiset_has_no_duplicates_conv();
    }
}

} // verus!

//! Walking a directory tree for its files.
//!
//! Listing a directory is the caller's. The walk says which directory to
//! list next and takes the listing: the files in it are collected, the
//! directories in it are listed later, until none is left. An entry that is
//! neither a file nor a directory is passed over.

use vstd::prelude::*;

verus! {

/// What a path leads to.
#[derive(Clone, Copy, Debug, PartialEq, Eq, Structural)]
pub enum PathKind {
    /// Nothing: the path does not exist.
    Missing,
    /// A file.
    File,
    /// A directory.
    Directory,
    /// Something that is neither a file nor a directory.
    Other,
}

/// Why a walk did not start.
#[derive(Clone, Copy, Debug, PartialEq, Eq, Structural)]
pub enum WalkError {
    /// The path to start from does not exist.
    NotFound,
}

/// One entry of a directory.
#[derive(Debug)]
pub struct DirEntry {
    /// The path of the entry.
    pub path: String,
    /// What the path leads to.
    pub kind: PathKind,
}

/// The mathematical value of a [`DirEntry`].
pub struct DirEntryModel {
    pub path: Seq<char>,
    pub kind: PathKind,
}

impl View for DirEntry {
    type V = DirEntryModel;

    open spec fn view(&self) -> DirEntryModel {
        DirEntryModel { path: self.path@, kind: self.kind }
    }
}

impl DeepView for DirEntry {
    type V = DirEntryModel;

    open spec fn deep_view(&self) -> DirEntryModel {
        self@
    }
}

/// A walk: the directories that are still to be listed, and the files found
/// so far.
#[derive(Debug)]
pub struct Walk {
    pub pending: Vec<String>,
    pub files: Vec<String>,
}

/// The mathematical value of a [`Walk`].
pub struct WalkModel {
    pub pending: Seq<Seq<char>>,
    pub files: Seq<Seq<char>>,
}

impl View for Walk {
    type V = WalkModel;

    open spec fn view(&self) -> WalkModel {
        WalkModel { pending: self.pending.deep_view(), files: self.files.deep_view() }
    }
}

/// The paths of the first `n` entries that are files, in their order.
pub open spec fn listed_files(entries: Seq<DirEntryModel>, n: int) -> Seq<Seq<char>>
    decreases n,
{
    if n <= 0 {
        Seq::<Seq<char>>::empty()
    } else if entries[n - 1].kind == PathKind::File {
        listed_files(entries, n - 1).push(entries[n - 1].path)
    } else {
        listed_files(entries, n - 1)
    }
}

/// The paths of the first `n` entries that are directories, in their order.
pub open spec fn listed_directories(entries: Seq<DirEntryModel>, n: int) -> Seq<Seq<char>>
    decreases n,
{
    if n <= 0 {
        Seq::<Seq<char>>::empty()
    } else if entries[n - 1].kind == PathKind::Directory {
        listed_directories(entries, n - 1).push(entries[n - 1].path)
    } else {
        listed_directories(entries, n - 1)
    }
}

/// Whether one of the first `n` entries has the given path and kind.
pub open spec fn has_entry(
    entries: Seq<DirEntryModel>,
    n: int,
    path: Seq<char>,
    kind: PathKind,
) -> bool {
    exists|i: int| 0 <= i < n && #[trigger] entries[i] == (DirEntryModel { path, kind })
}

/// Every path listed as a file is the path of an entry that is a file, and
/// every path listed as a directory is the path of an entry that is a
/// directory.
pub proof fn lemma_listed_kinds(entries: Seq<DirEntryModel>, n: int)
    requires
        0 <= n <= entries.len(),
    ensures
        forall|k: int|
            0 <= k < listed_files(entries, n).len() ==> has_entry(
                entries,
                n,
                #[trigger] listed_files(entries, n)[k],
                PathKind::File,
            ),
        forall|k: int|
            0 <= k < listed_directories(entries, n).len() ==> has_entry(
                entries,
                n,
                #[trigger] listed_directories(entries, n)[k],
                PathKind::Directory,
            ),
    decreases n,
{
    if n > 0 {
        lemma_listed_kinds(entries, n - 1);
        let files = listed_files(entries, n);
        let directories = listed_directories(entries, n);
        let fewer_files = listed_files(entries, n - 1);
        let fewer_directories = listed_directories(entries, n - 1);
        assert forall|k: int| 0 <= k < files.len() implies has_entry(
            entries,
            n,
            #[trigger] files[k],
            PathKind::File,
        ) by {
            if k < fewer_files.len() {
                assert(has_entry(entries, n - 1, fewer_files[k], PathKind::File));
                let i = choose|i: int|
                    0 <= i < n - 1 && #[trigger] entries[i] == (DirEntryModel {
                        path: fewer_files[k],
                        kind: PathKind::File,
                    });
                assert(entries[i] == (DirEntryModel { path: files[k], kind: PathKind::File }));
            } else {
                assert(entries[n - 1] == (DirEntryModel { path: files[k], kind: PathKind::File }));
            }
        }
        assert forall|k: int| 0 <= k < directories.len() implies has_entry(
            entries,
            n,
            #[trigger] directories[k],
            PathKind::Directory,
        ) by {
            if k < fewer_directories.len() {
                assert(has_entry(entries, n - 1, fewer_directories[k], PathKind::Directory));
                let i = choose|i: int|
                    0 <= i < n - 1 && #[trigger] entries[i] == (DirEntryModel {
                        path: fewer_directories[k],
                        kind: PathKind::Directory,
                    });
                assert(entries[i] == (DirEntryModel {
                    path: directories[k],
                    kind: PathKind::Directory,
                }));
            } else {
                assert(entries[n - 1] == (DirEntryModel {
                    path: directories[k],
                    kind: PathKind::Directory,
                }));
            }
        }
    }
}

/// The walk that starts at a path of the given kind: a directory is to be
/// listed, a file is found, anything else gives nothing.
pub open spec fn start_spec(path: Seq<char>, kind: PathKind) -> WalkModel {
    match kind {
        PathKind::Directory => WalkModel { pending: seq![path], files: Seq::<Seq<char>>::empty() },
        PathKind::File => WalkModel { pending: Seq::<Seq<char>>::empty(), files: seq![path] },
        _ => WalkModel {
            pending: Seq::<Seq<char>>::empty(),
            files: Seq::<Seq<char>>::empty(),
        },
    }
}

/// The walk after the listing of a directory: the files of the listing are
/// found, its directories are to be listed, and its other entries are left
/// out.
pub open spec fn listed_spec(walk: WalkModel, entries: Seq<DirEntryModel>) -> WalkModel {
    WalkModel {
        pending: walk.pending + listed_directories(entries, entries.len() as int),
        files: walk.files + listed_files(entries, entries.len() as int),
    }
}

impl Walk {
    /// Starts a walk at a path of the given kind. A path that does not exist
    /// is refused.
    pub fn start(path: String, kind: PathKind) -> (result: Result<Walk, WalkError>)
        ensures
            match kind {
                PathKind::Missing => result == Err::<Walk, WalkError>(WalkError::NotFound),
                _ => result matches Ok(walk) && walk@ == start_spec(path@, kind),
            },
    {
        let mut walk = Walk { pending: Vec::new(), files: Vec::new() };
        match kind {
            PathKind::Missing => {
                return Err(WalkError::NotFound);
            },
            PathKind::Directory => {
                walk.pending.push(path);
            },
            PathKind::File => {
                walk.files.push(path);
            },
            PathKind::Other => {},
        }
        assert(walk@.pending =~= start_spec(path@, kind).pending);
        assert(walk@.files =~= start_spec(path@, kind).files);
        Ok(walk)
    }

    /// Whether no directory is left to list.
    pub fn is_done(&self) -> (done: bool)
        ensures
            done == (self@.pending.len() == 0),
    {
        self.pending.len() == 0
    }

    /// The directory to list next, which is the one that was found last; it
    /// is no longer pending. `None` where none is left.
    pub fn next_directory(&mut self) -> (next: Option<String>)
        ensures
            match next {
                Some(path) => old(self)@.pending.len() > 0 && path@ == old(self)@.pending.last()
                    && final(self)@.pending == old(self)@.pending.drop_last(),
                None => old(self)@.pending.len() == 0 && final(self)@.pending == old(
                    self,
                )@.pending,
            },
            final(self)@.files == old(self)@.files,
    {
        let ghost before = self@;
        let next = self.pending.pop();
        proof {
            if before.pending.len() > 0 {
                assert(self@.pending =~= before.pending.drop_last());
            } else {
                assert(self@.pending =~= before.pending);
            }
        }
        next
    }

    /// Takes the listing of a directory: its files are found, its
    /// directories are to be listed. An entry that is neither is left out.
    pub fn record_listing(&mut self, entries: Vec<DirEntry>)
        ensures
            final(self)@ == listed_spec(old(self)@, entries.deep_view()),
    {
        let ghost before = self@;
        let ghost model = entries.deep_view();
        let mut i: usize = 0;
        assert(self@.pending =~= before.pending + listed_directories(model, 0));
        assert(self@.files =~= before.files + listed_files(model, 0));
        while i < entries.len()
            invariant
                i <= entries.len(),
                model == entries.deep_view(),
                self@.pending == before.pending + listed_directories(model, i as int),
                self@.files == before.files + listed_files(model, i as int),
            decreases entries.len() - i,
        {
            let entry = &entries[i];
            let ghost so_far = self@;
            assert(model[i as int] == entry@);
            match entry.kind {
                PathKind::Directory => {
                    self.pending.push(entry.path.clone());
                    assert(self@.pending =~= so_far.pending.push(entry.path@));
                    assert(self@.pending =~= before.pending + listed_directories(model, i + 1));
                },
                PathKind::File => {
                    self.files.push(entry.path.clone());
                    assert(self@.files =~= so_far.files.push(entry.path@));
                    assert(self@.files =~= before.files + listed_files(model, i + 1));
                },
                _ => {},
            }
            i = i + 1;
        }
    }

    /// The files found.
    pub fn into_files(self) -> (files: Vec<String>)
        ensures
            files.deep_view() == self@.files,
    {
        self.files
    }
}

} // verus!

//! A small file system in the style of FAT: files and directories live in
//! clusters, and a table records which clusters are taken.

use crate::queue::{lemma_without_contains, remove_all, without};
use std::collections::BTreeMap;
use vstd::prelude::*;
use vstd::string::StringExecFns;

verus! {

/// Cluster of the root directory.
pub const ROOT_CLUSTER: u64 = 0;

/// First cluster that is handed out to a file or a directory.
pub const FIRST_CLUSTER: u64 = 2;

/// Entry of the allocation table for a cluster that ends its chain.
pub const END_OF_CHAIN: u64 = 0xFFFFFFFF;

/// What may be done with a file.
#[derive(Debug, Clone, Copy, PartialEq, Eq, Structural)]
pub enum FilePermissions {
    ReadOnly,
    WriteOnly,
    ReadWrite,
    Execute,
}

/// Attribute of a file or directory.
#[derive(Debug, Clone, Copy, PartialEq, Eq, Structural)]
pub enum FileAttributes {
    Archive,
    Directory,
    VolumeLabel,
    System,
    Hidden,
    ReadOnly,
}

impl FileAttributes {
    /// The bit that stands for an attribute in a directory entry.
    pub open spec fn flag(self) -> u8 {
        match self {
            FileAttributes::Archive => 0x20,
            FileAttributes::Directory => 0x10,
            FileAttributes::VolumeLabel => 0x08,
            FileAttributes::System => 0x04,
            FileAttributes::Hidden => 0x02,
            FileAttributes::ReadOnly => 0x01,
        }
    }

    /// The bit that stands for an attribute in a directory entry.
    pub fn bits(self) -> (bits: u8)
        ensures
            bits == self.flag(),
    {
        match self {
            FileAttributes::Archive => 0x20,
            FileAttributes::Directory => 0x10,
            FileAttributes::VolumeLabel => 0x08,
            FileAttributes::System => 0x04,
            FileAttributes::Hidden => 0x02,
            FileAttributes::ReadOnly => 0x01,
        }
    }
}

/// Errors of the file system.
#[derive(Debug, Clone, Copy, PartialEq, Eq, Structural)]
pub enum FileSystemError {
    FileNotFound,
    DirectoryNotFound,
    PermissionDenied,
    FileExists,
    DirectoryNotEmpty,
    InvalidPath,
    OutOfSpace,
    InvalidCluster,
    ClusterChainError,
}

/// A file.
#[derive(Debug, Clone)]
pub struct FileEntry {
    /// First cluster of the file.
    pub cluster: u64,
    pub name: String,
    pub size: usize,
    pub data: Vec<u8>,
    pub permissions: FilePermissions,
    pub created_at: u64,
    pub modified_at: u64,
    pub attributes: FileAttributes,
}

/// A directory.
#[derive(Debug, Clone)]
pub struct DirectoryEntry {
    pub cluster: u64,
    pub name: String,
    pub parent: Option<u64>,
    /// Clusters of the files and directories that were created here.
    pub children: Vec<u64>,
    pub created_at: u64,
    pub attributes: FileAttributes,
}

/// What a file system stands for.
pub struct FileSystemState {
    /// The files, by cluster.
    pub files: Map<u64, FileEntry>,
    /// The directories, by cluster.
    pub directories: Map<u64, DirectoryEntry>,
    /// Cluster of the current directory.
    pub current_directory: u64,
    /// The cluster that the next file or directory will get.
    pub next_cluster: u64,
    /// The allocation table: the clusters that are taken, with what follows
    /// each in its chain.
    pub fat_table: Map<u64, u64>,
}

/// A name for a file or directory: not empty, and without a slash.
pub open spec fn valid_name(name: Seq<char>) -> bool {
    name.len() > 0 && !name.contains('/')
}

/// The name of the root directory.
pub open spec fn root_name() -> Seq<char> {
    seq!['/']
}

impl FileSystemState {
    /// What the invariant says of the file in `cluster`: it is filed under
    /// its own cluster, which was handed out, and its size is the length of
    /// its data.
    pub open spec fn file_wf(self, cluster: u64) -> bool {
        &&& FIRST_CLUSTER <= cluster < self.next_cluster
        &&& !self.directories.contains_key(cluster)
        &&& self.files[cluster].cluster == cluster
        &&& self.files[cluster].size == self.files[cluster].data@.len()
    }

    /// What the invariant says of the directory in `cluster`: it is filed
    /// under its own cluster, which is the root's or was handed out; it
    /// lists only clusters that were handed out; and unless it is the root
    /// it has a valid name and a parent directory with a smaller cluster.
    pub open spec fn directory_wf(self, cluster: u64) -> bool {
        &&& cluster == ROOT_CLUSTER || FIRST_CLUSTER <= cluster < self.next_cluster
        &&& self.directories[cluster].cluster == cluster
        &&& forall|i: int|
            0 <= i < self.directories[cluster].children@.len() ==> FIRST_CLUSTER
                <= #[trigger] self.directories[cluster].children@[i] < self.next_cluster
        &&& cluster != ROOT_CLUSTER ==> {
            &&& valid_name(self.directories[cluster].name@)
            &&& self.directories[cluster].parent matches Some(parent)
            &&& parent < cluster
            &&& self.directories.contains_key(parent)
        }
    }

    /// A cluster is taken when it holds a file or a directory other than
    /// the root.
    pub open spec fn is_taken(self, cluster: u64) -> bool {
        self.files.contains_key(cluster) || (self.directories.contains_key(cluster) && cluster
            != ROOT_CLUSTER)
    }

    /// The invariant of a file system.
    ///
    /// There are finitely many files and directories.  Every file and
    /// directory is as `file_wf` and `directory_wf` say; no cluster holds
    /// both.  The allocation table holds exactly the clusters that are
    /// taken, each as the end of its chain.  The root directory exists, is
    /// called "/" and has no parent.  The current directory exists.
    pub open spec fn wf(self) -> bool {
        &&& self.next_cluster >= FIRST_CLUSTER
        &&& self.files.dom().finite()
        &&& self.directories.dom().finite()
        &&& self.fat_table.dom().finite()
        &&& forall|cluster: u64| #[trigger] self.files.contains_key(cluster) ==> self.file_wf(cluster)
        &&& forall|cluster: u64| #[trigger]
            self.directories.contains_key(cluster) ==> self.directory_wf(cluster)
        &&& forall|cluster: u64| #[trigger]
            self.fat_table.contains_key(cluster) <==> self.is_taken(cluster)
        &&& forall|cluster: u64| #[trigger]
            self.fat_table.contains_key(cluster) ==> self.fat_table[cluster] == END_OF_CHAIN
        &&& self.directories.contains_key(ROOT_CLUSTER)
        &&& self.directories[ROOT_CLUSTER].name@ == root_name()
        &&& self.directories[ROOT_CLUSTER].parent is None
        &&& self.directories.contains_key(self.current_directory)
    }
}

/// The allocation table has one entry for each file and each directory but
/// the root.
pub proof fn lemma_fat_table_size(state: FileSystemState)
    requires
        state.wf(),
    ensures
        state.fat_table.dom().len() + 1 == state.files.dom().len() + state.directories.dom().len(),
{
    let files = state.files.dom();
    let others = state.directories.dom().remove(ROOT_CLUSTER);
    assert(state.fat_table.dom() =~= files + others) by {
        assert forall|cluster: u64| state.fat_table.dom().contains(cluster) <==> (files
            + others).contains(cluster) by {
            assert(state.fat_table.contains_key(cluster) <==> state.is_taken(cluster));
        }
    }
    assert(files.disjoint(others)) by {
        assert forall|cluster: u64| !(files.contains(cluster) && others.contains(cluster)) by {
            if state.files.contains_key(cluster) {
                assert(state.file_wf(cluster));
            }
        }
    }
    vstd::set_lib::lemma_set_disjoint_lens(files, others);
}

/// `file` is a file that was just created: empty, an archive.
pub open spec fn is_new_file(
    file: FileEntry,
    cluster: u64,
    name: Seq<char>,
    permissions: FilePermissions,
) -> bool {
    &&& file.cluster == cluster
    &&& file.name@ == name
    &&& file.size == 0
    &&& file.data@.len() == 0
    &&& file.permissions == permissions
    &&& file.created_at == 0
    &&& file.modified_at == 0
    &&& file.attributes == FileAttributes::Archive
}

/// `directory` is a directory that was just created: empty, in `parent`.
pub open spec fn is_new_directory(
    directory: DirectoryEntry,
    cluster: u64,
    name: Seq<char>,
    parent: Option<u64>,
) -> bool {
    &&& directory.cluster == cluster
    &&& directory.name@ == name
    &&& directory.parent == parent
    &&& directory.children@.len() == 0
    &&& directory.created_at == 0
    &&& directory.attributes == FileAttributes::Directory
}

/// `after` is the directory `before` with `children` as its children.
pub open spec fn with_children(
    before: DirectoryEntry,
    after: DirectoryEntry,
    children: Seq<u64>,
) -> bool {
    &&& after.cluster == before.cluster
    &&& after.name@ == before.name@
    &&& after.parent == before.parent
    &&& after.children@ == children
    &&& after.created_at == before.created_at
    &&& after.attributes == before.attributes
}

/// The directories after the current directory got `children` for its
/// children; no other directory changes.
pub open spec fn current_directory_lists(
    before: FileSystemState,
    after: Map<u64, DirectoryEntry>,
    children: Seq<u64>,
) -> bool {
    &&& after == before.directories.insert(
        before.current_directory,
        after[before.current_directory],
    )
    &&& with_children(
        before.directories[before.current_directory],
        after[before.current_directory],
        children,
    )
}

/// The current directory lists a file called `name`.
pub open spec fn has_file_named(state: FileSystemState, name: Seq<char>) -> bool {
    exists|i: int|
        0 <= i < state.directories[state.current_directory].children@.len()
            && is_file_named(state, name, #[trigger] state.directories[state.current_directory].children@[i])
}

/// `cluster` holds a file called `name`.
pub open spec fn is_file_named(state: FileSystemState, name: Seq<char>, cluster: u64) -> bool {
    state.files.contains_key(cluster) && state.files[cluster].name@ == name
}

/// The current directory lists a directory called `name`.
pub open spec fn has_directory_named(state: FileSystemState, name: Seq<char>) -> bool {
    exists|i: int|
        0 <= i < state.directories[state.current_directory].children@.len()
            && is_directory_named(
            state,
            name,
            #[trigger] state.directories[state.current_directory].children@[i],
        )
}

/// `cluster` holds a directory called `name`.
pub open spec fn is_directory_named(state: FileSystemState, name: Seq<char>, cluster: u64) -> bool {
    state.directories.contains_key(cluster) && state.directories[cluster].name@ == name
}

/// What a call of `create_file` returns: the cluster that was next, or
/// `InvalidPath` for a name that is empty or holds a slash, else
/// `FileExists` when the current directory lists a file of that name, else
/// `OutOfSpace` when no cluster is left.
pub open spec fn create_file_result(before: FileSystemState, name: Seq<char>) -> Result<
    u64,
    FileSystemError,
> {
    if !valid_name(name) {
        Err(FileSystemError::InvalidPath)
    } else if has_file_named(before, name) {
        Err(FileSystemError::FileExists)
    } else if before.next_cluster == u64::MAX {
        Err(FileSystemError::OutOfSpace)
    } else {
        Ok(before.next_cluster)
    }
}

/// What `create_file` does to a file system: on success there is a new,
/// empty file in the cluster that was next, the cluster is marked in the
/// allocation table, and the current directory lists it last.  A failed
/// call changes nothing.
pub open spec fn create_file_outcome(
    before: FileSystemState,
    after: FileSystemState,
    name: Seq<char>,
    permissions: FilePermissions,
) -> bool {
    match create_file_result(before, name) {
        Ok(cluster) => {
            &&& after.files == before.files.insert(cluster, after.files[cluster])
            &&& is_new_file(after.files[cluster], cluster, name, permissions)
            &&& after.fat_table == before.fat_table.insert(cluster, END_OF_CHAIN)
            &&& after.next_cluster == cluster + 1
            &&& after.current_directory == before.current_directory
            &&& current_directory_lists(
                before,
                after.directories,
                before.directories[before.current_directory].children@.push(cluster),
            )
        },
        Err(_) => after == before,
    }
}

/// What a call of `create_directory` returns: the cluster that was next,
/// or `InvalidPath` for a name that is empty or holds a slash, else
/// `FileExists` when the current directory lists a directory of that name,
/// else `OutOfSpace` when no cluster is left.
pub open spec fn create_directory_result(before: FileSystemState, name: Seq<char>) -> Result<
    u64,
    FileSystemError,
> {
    if !valid_name(name) {
        Err(FileSystemError::InvalidPath)
    } else if has_directory_named(before, name) {
        Err(FileSystemError::FileExists)
    } else if before.next_cluster == u64::MAX {
        Err(FileSystemError::OutOfSpace)
    } else {
        Ok(before.next_cluster)
    }
}

/// What `create_directory` does to a file system: on success there is a
/// new, empty directory in the cluster that was next, with the current
/// directory as parent; the cluster is marked in the allocation table, and
/// the current directory lists it last.  A failed call changes nothing.
pub open spec fn create_directory_outcome(
    before: FileSystemState,
    after: FileSystemState,
    name: Seq<char>,
) -> bool {
    match create_directory_result(before, name) {
        Ok(cluster) => {
            let current = before.current_directory;
            &&& after.files == before.files
            &&& after.fat_table == before.fat_table.insert(cluster, END_OF_CHAIN)
            &&& after.next_cluster == cluster + 1
            &&& after.current_directory == current
            &&& after.directories == before.directories.insert(
                cluster,
                after.directories[cluster],
            ).insert(current, after.directories[current])
            &&& is_new_directory(after.directories[cluster], cluster, name, Some(current))
            &&& with_children(
                before.directories[current],
                after.directories[current],
                before.directories[current].children@.push(cluster),
            )
        },
        Err(_) => after == before,
    }
}

/// `after` is the file `before` with `data` written to it.
pub open spec fn is_written(before: FileEntry, after: FileEntry, data: Seq<u8>) -> bool {
    &&& after.cluster == before.cluster
    &&& after.name@ == before.name@
    &&& after.size == data.len()
    &&& after.data@ == data
    &&& after.permissions == before.permissions
    &&& after.created_at == before.created_at
    &&& after.modified_at == 0
    &&& after.attributes == before.attributes
}

/// What a call of `write_file` returns: the number of bytes written, or
/// `FileNotFound` when the cluster holds no file, or `PermissionDenied`
/// when the file is read-only.
pub open spec fn write_file_result(before: FileSystemState, cluster: u64, data: Seq<u8>) -> Result<
    usize,
    FileSystemError,
> {
    if !before.files.contains_key(cluster) {
        Err(FileSystemError::FileNotFound)
    } else if before.files[cluster].permissions == FilePermissions::ReadOnly {
        Err(FileSystemError::PermissionDenied)
    } else {
        Ok(data.len() as usize)
    }
}

/// What `write_file` does to a file system: on success the data of the
/// file are replaced.  A failed call changes nothing.
pub open spec fn write_file_outcome(
    before: FileSystemState,
    after: FileSystemState,
    cluster: u64,
    data: Seq<u8>,
) -> bool {
    match write_file_result(before, cluster, data) {
        Ok(_) => {
            &&& after == (FileSystemState { files: after.files, ..before })
            &&& after.files == before.files.insert(cluster, after.files[cluster])
            &&& is_written(before.files[cluster], after.files[cluster], data)
        },
        Err(_) => after == before,
    }
}

/// What a call of `read_file` returns: the data of the file, or
/// `FileNotFound` when the cluster holds no file, or `PermissionDenied`
/// when the file is write-only.
pub open spec fn read_file_result(state: FileSystemState, cluster: u64) -> Result<
    Seq<u8>,
    FileSystemError,
> {
    if !state.files.contains_key(cluster) {
        Err(FileSystemError::FileNotFound)
    } else if state.files[cluster].permissions == FilePermissions::WriteOnly {
        Err(FileSystemError::PermissionDenied)
    } else {
        Ok(state.files[cluster].data@)
    }
}

/// What `delete_file` does to a file system: when the cluster holds a
/// file, the file is gone, the cluster is free again and the current
/// directory does not list it any more.  Otherwise nothing changes.
pub open spec fn delete_file_outcome(
    before: FileSystemState,
    after: FileSystemState,
    cluster: u64,
) -> bool {
    if before.files.contains_key(cluster) {
        &&& after.files == before.files.remove(cluster)
        &&& after.fat_table == before.fat_table.remove(cluster)
        &&& after.next_cluster == before.next_cluster
        &&& after.current_directory == before.current_directory
        &&& current_directory_lists(
            before,
            after.directories,
            without(before.directories[before.current_directory].children@, cluster),
        )
    } else {
        after == before
    }
}

/// The entries that the first `n` children stand for: a file by its name
/// and `false`, a directory by its name and `true`; a cluster that holds
/// neither stands for nothing.
pub open spec fn entries_of(state: FileSystemState, children: Seq<u64>, n: int) -> Seq<
    (Seq<char>, bool),
>
    decreases n,
{
    if n <= 0 {
        Seq::empty()
    } else if state.files.contains_key(children[n - 1]) {
        entries_of(state, children, n - 1).push((state.files[children[n - 1]].name@, false))
    } else if state.directories.contains_key(children[n - 1]) {
        entries_of(state, children, n - 1).push(
            (state.directories[children[n - 1]].name@, true),
        )
    } else {
        entries_of(state, children, n - 1)
    }
}

/// The entries of the current directory, in the order in which they were
/// created.
pub open spec fn current_entries(state: FileSystemState) -> Seq<(Seq<char>, bool)> {
    let children = state.directories[state.current_directory].children@;
    entries_of(state, children, children.len() as int)
}

/// The name and the kind of a listed entry.
pub open spec fn entry_view(entry: (String, bool)) -> (Seq<char>, bool) {
    (entry.0@, entry.1)
}

/// The name that stands for the parent directory.
pub open spec fn parent_name() -> Seq<char> {
    seq!['.', '.']
}

/// `index` is the first place at which the current directory lists a
/// directory called `name`.
pub open spec fn first_directory_named(state: FileSystemState, name: Seq<char>, index: int) -> bool {
    let children = state.directories[state.current_directory].children@;
    &&& 0 <= index < children.len()
    &&& is_directory_named(state, name, children[index])
    &&& forall|k: int| 0 <= k < index ==> !is_directory_named(state, name, #[trigger] children[k])
}

/// What `change_directory` does: ".." leads to the parent of the current
/// directory, any other name to the first directory of that name that the
/// current directory lists.  Without such a directory the call fails with
/// `DirectoryNotFound` and nothing changes.
pub open spec fn change_directory_outcome(
    before: FileSystemState,
    after: FileSystemState,
    name: Seq<char>,
    result: Result<(), FileSystemError>,
) -> bool {
    let children = before.directories[before.current_directory].children@;
    if name == parent_name() {
        match before.directories[before.current_directory].parent {
            Some(parent) => result is Ok && after == (FileSystemState {
                current_directory: parent,
                ..before
            }),
            None => result == Err::<(), FileSystemError>(FileSystemError::DirectoryNotFound)
                && after == before,
        }
    } else if has_directory_named(before, name) {
        &&& result is Ok
        &&& exists|index: int|
            first_directory_named(before, name, index) && after == (FileSystemState {
                current_directory: #[trigger] children[index],
                ..before
            })
    } else {
        result == Err::<(), FileSystemError>(FileSystemError::DirectoryNotFound) && after
            == before
    }
}

/// The parent of a directory, the root for a directory without one.
pub open spec fn parent_or_root(directory: DirectoryEntry) -> u64 {
    match directory.parent {
        Some(parent) => parent,
        None => ROOT_CLUSTER,
    }
}

/// The path of a directory: the names from the root down, each followed by
/// a slash; the root itself is "/".
pub open spec fn path_to(directories: Map<u64, DirectoryEntry>, cluster: u64) -> Seq<char>
    decreases cluster,
{
    if !directories.contains_key(cluster) {
        Seq::empty()
    } else if directories[cluster].name@ == root_name() {
        root_name()
    } else if parent_or_root(directories[cluster]) < cluster {
        path_to(directories, parent_or_root(directories[cluster])) + directories[cluster].name@
            + seq!['/']
    } else {
        directories[cluster].name@ + seq!['/']
    }
}

/// File system service: handles file operations.
pub struct FileSystemService {
    next_cluster: u64,
    files: BTreeMap<u64, FileEntry>,
    directories: BTreeMap<u64, DirectoryEntry>,
    current_directory: u64,
    fat_table: BTreeMap<u64, u64>,
}

impl View for FileSystemService {
    type V = FileSystemState;

    closed spec fn view(&self) -> FileSystemState {
        FileSystemState {
            files: self.files@,
            directories: self.directories@,
            current_directory: self.current_directory,
            next_cluster: self.next_cluster,
            fat_table: self.fat_table@,
        }
    }
}

/// Whether `name@` holds a slash.
fn has_slash(name: &str) -> (found: bool)
    ensures
        found <==> name@.contains('/'),
{
    let mut found = false;
    for c in it: name.chars()
        invariant
            it.seq() == name@,
            found <==> exists|i: int| 0 <= i < it.index() && name@[i] == '/',
    {
        if c == '/' {
            found = true;
        }
    }
    found
}

impl FileSystemService {
    /// The invariant of the service; see `FileSystemState::wf`.
    pub open spec fn wf(&self) -> bool {
        self@.wf()
    }

    /// A file system with an empty root directory, which is current.
    pub fn new() -> (service: Self)
        ensures
            service.wf(),
            service@.files == Map::<u64, FileEntry>::empty(),
            service@.fat_table == Map::<u64, u64>::empty(),
            service@.next_cluster == FIRST_CLUSTER,
            service@.current_directory == ROOT_CLUSTER,
            service@.directories.dom() == set![ROOT_CLUSTER],
            is_new_directory(service@.directories[ROOT_CLUSTER], ROOT_CLUSTER, root_name(), None),
    {
        let mut service = FileSystemService {
            next_cluster: FIRST_CLUSTER,
            files: BTreeMap::new(),
            directories: BTreeMap::new(),
            current_directory: ROOT_CLUSTER,
            fat_table: BTreeMap::new(),
        };
        service.create_root_directory();
        service
    }

    /// Creates the root directory and makes it current.
    fn create_root_directory(&mut self)
        ensures
            final(self)@.directories == old(self)@.directories.insert(
                ROOT_CLUSTER,
                final(self)@.directories[ROOT_CLUSTER],
            ),
            is_new_directory(final(self)@.directories[ROOT_CLUSTER], ROOT_CLUSTER, root_name(), None),
            final(self)@ == (FileSystemState {
                directories: final(self)@.directories,
                current_directory: ROOT_CLUSTER,
                ..old(self)@
            }),
    {
        let name = "/".to_owned();
        proof {
            reveal_strlit("/");
            assert(name@ =~= root_name());
        }
        let root_dir = DirectoryEntry {
            cluster: ROOT_CLUSTER,
            name,
            parent: None,
            children: Vec::new(),
            created_at: 0,
            attributes: FileAttributes::Directory,
        };
        self.directories.insert(ROOT_CLUSTER, root_dir);
        self.current_directory = ROOT_CLUSTER;
    }

    /// Takes the next cluster and marks it in the allocation table as the
    /// end of its chain.
    fn allocate_cluster(&mut self) -> (cluster: u64)
        requires
            old(self)@.next_cluster < u64::MAX,
        ensures
            cluster == old(self)@.next_cluster,
            final(self)@ == (FileSystemState {
                next_cluster: (cluster + 1) as u64,
                fat_table: old(self)@.fat_table.insert(cluster, END_OF_CHAIN),
                ..old(self)@
            }),
    {
        let cluster = self.next_cluster;
        self.next_cluster = cluster + 1;
        self.fat_table.insert(cluster, END_OF_CHAIN);
        cluster
    }

    /// Whether the current directory lists a file called `name`.
    fn lists_file_named(&self, name: &String) -> (found: bool)
        requires
            self.wf(),
        ensures
            found <==> has_file_named(self@, name@),
    {
        match self.directories.get(&self.current_directory) {
            Some(directory) => {
                let mut i: usize = 0;
                while i < directory.children.len()
                    invariant
                        0 <= i <= directory.children@.len(),
                        *directory == self@.directories[self@.current_directory],
                        self@.files == self.files@,
                        forall|k: int|
                            0 <= k < i ==> !is_file_named(
                                self@,
                                name@,
                                #[trigger] directory.children@[k],
                            ),
                    decreases directory.children.len() - i,
                {
                    let child = directory.children[i];
                    match self.files.get(&child) {
                        Some(file) => {
                            if file.name == *name {
                                return true;
                            }
                        },
                        None => {},
                    }
                    i = i + 1;
                }
                false
            },
            None => false,
        }
    }

    /// Whether the current directory lists a directory called `name`.
    fn lists_directory_named(&self, name: &String) -> (found: bool)
        requires
            self.wf(),
        ensures
            found <==> has_directory_named(self@, name@),
    {
        match self.directories.get(&self.current_directory) {
            Some(directory) => {
                let mut i: usize = 0;
                while i < directory.children.len()
                    invariant
                        0 <= i <= directory.children@.len(),
                        *directory == self@.directories[self@.current_directory],
                        self@.directories == self.directories@,
                        forall|k: int|
                            0 <= k < i ==> !is_directory_named(
                                self@,
                                name@,
                                #[trigger] directory.children@[k],
                            ),
                    decreases directory.children.len() - i,
                {
                    let child = directory.children[i];
                    match self.directories.get(&child) {
                        Some(other) => {
                            if other.name == *name {
                                return true;
                            }
                        },
                        None => {},
                    }
                    i = i + 1;
                }
                false
            },
            None => false,
        }
    }

    /// Adds `cluster` to the children of the current directory.
    fn list_in_current_directory(&mut self, cluster: u64)
        requires
            old(self)@.directories.contains_key(old(self)@.current_directory),
        ensures
            final(self)@ == (FileSystemState {
                directories: final(self)@.directories,
                ..old(self)@
            }),
            current_directory_lists(
                old(self)@,
                final(self)@.directories,
                old(self)@.directories[old(self)@.current_directory].children@.push(cluster),
            ),
    {
        let current = self.current_directory;
        match self.directories.remove(&current) {
            Some(mut directory) => {
                directory.children.push(cluster);
                self.directories.insert(current, directory);
                assert(self@.directories == old(self)@.directories.insert(current, directory));
            },
            None => {},
        }
    }

    /// Creates a new, empty file in the current directory.
    pub fn create_file(&mut self, name: &str, permissions: FilePermissions) -> (result: Result<
        u64,
        FileSystemError,
    >)
        requires
            old(self).wf(),
        ensures
            final(self).wf(),
            result == create_file_result(old(self)@, name@),
            create_file_outcome(old(self)@, final(self)@, name@, permissions),
    {
        if name.is_empty() || has_slash(name) {
            return Err(FileSystemError::InvalidPath);
        }
        let owned = name.to_owned();
        if self.lists_file_named(&owned) {
            return Err(FileSystemError::FileExists);
        }
        if self.next_cluster == u64::MAX {
            return Err(FileSystemError::OutOfSpace);
        }
        let cluster = self.allocate_cluster();
        let file = FileEntry {
            cluster,
            name: owned,
            size: 0,
            data: Vec::new(),
            permissions,
            created_at: 0,
            modified_at: 0,
            attributes: FileAttributes::Archive,
        };
        self.files.insert(cluster, file);
        assert(self@.files == old(self)@.files.insert(cluster, file));
        self.list_in_current_directory(cluster);
        Ok(cluster)
    }

    /// Creates a new, empty directory in the current directory.
    pub fn create_directory(&mut self, name: &str) -> (result: Result<u64, FileSystemError>)
        requires
            old(self).wf(),
        ensures
            final(self).wf(),
            result == create_directory_result(old(self)@, name@),
            create_directory_outcome(old(self)@, final(self)@, name@),
    {
        if name.is_empty() || has_slash(name) {
            return Err(FileSystemError::InvalidPath);
        }
        let owned = name.to_owned();
        if self.lists_directory_named(&owned) {
            return Err(FileSystemError::FileExists);
        }
        if self.next_cluster == u64::MAX {
            return Err(FileSystemError::OutOfSpace);
        }
        let cluster = self.allocate_cluster();
        let directory = DirectoryEntry {
            cluster,
            name: owned,
            parent: Some(self.current_directory),
            children: Vec::new(),
            created_at: 0,
            attributes: FileAttributes::Directory,
        };
        self.directories.insert(cluster, directory);
        assert(self@.directories == old(self)@.directories.insert(cluster, directory));
        self.list_in_current_directory(cluster);
        Ok(cluster)
    }

    /// Writes data to a file: they replace what the file held.
    pub fn write_file(&mut self, cluster: u64, data: &[u8]) -> (result: Result<
        usize,
        FileSystemError,
    >)
        requires
            old(self).wf(),
        ensures
            final(self).wf(),
            result == write_file_result(old(self)@, cluster, data@),
            write_file_outcome(old(self)@, final(self)@, cluster, data@),
    {
        match self.files.remove(&cluster) {
            Some(mut file) => {
                if file.permissions == FilePermissions::ReadOnly {
                    self.files.insert(cluster, file);
                    assert(self@.files =~= old(self)@.files);
                    assert(self@ == old(self)@);
                    return Err(FileSystemError::PermissionDenied);
                }
                file.data.clear();
                file.data.extend_from_slice(data);
                file.size = data.len();
                file.modified_at = 0;
                assert(file.data@ =~= data@);
                self.files.insert(cluster, file);
                proof {
                    assert(old(self)@.files.contains_key(cluster));
                    assert(self@.files == old(self)@.files.insert(cluster, file));
                    assert(self@.directories == old(self)@.directories);
                    assert(self@.fat_table == old(self)@.fat_table);
                    assert forall|other: u64| #[trigger]
                        self@.files.contains_key(other) implies other < self@.next_cluster
                        && self@.files[other].cluster == other && self@.files[other].size
                        == self@.files[other].data@.len() by {
                        if other != cluster {
                            assert(old(self)@.files.contains_key(other));
                        }
                    }
                }
                Ok(data.len())
            },
            None => {
                assert(self@.files == old(self)@.files);
                assert(self@ == old(self)@);
                Err(FileSystemError::FileNotFound)
            },
        }
    }

    /// Reads the data of a file.
    pub fn read_file(&self, cluster: u64) -> (result: Result<Vec<u8>, FileSystemError>)
        ensures
            match result {
                Ok(data) => read_file_result(self@, cluster) == Ok::<Seq<u8>, FileSystemError>(
                    data@,
                ),
                Err(e) => read_file_result(self@, cluster) == Err::<Seq<u8>, FileSystemError>(e),
            },
    {
        match self.files.get(&cluster) {
            Some(file) => {
                if file.permissions == FilePermissions::WriteOnly {
                    return Err(FileSystemError::PermissionDenied);
                }
                let data = file.data.clone();
                assert(data@ =~= file.data@);
                Ok(data)
            },
            None => Err(FileSystemError::FileNotFound),
        }
    }

    /// Deletes a file, frees its cluster and takes it off the list of the
    /// current directory.
    pub fn delete_file(&mut self, cluster: u64) -> (result: Result<(), FileSystemError>)
        requires
            old(self).wf(),
        ensures
            final(self).wf(),
            delete_file_outcome(old(self)@, final(self)@, cluster),
            result is Ok <==> old(self)@.files.contains_key(cluster),
            result is Err ==> result == Err::<(), FileSystemError>(FileSystemError::FileNotFound),
    {
        match self.files.remove(&cluster) {
            Some(_) => {
                let current = self.current_directory;
                match self.directories.remove(&current) {
                    Some(mut directory) => {
                        remove_all(&mut directory.children, cluster);
                        self.directories.insert(current, directory);
                        assert(self@.directories == old(self)@.directories.insert(
                            current,
                            directory,
                        ));
                    },
                    None => {},
                }
                self.fat_table.remove(&cluster);
                proof {
                    let before = old(self)@;
                    let after = self@;
                    assert(before.directories.contains_key(current));
                    assert(before.file_wf(cluster));
                    assert(after.files == before.files.remove(cluster));
                    assert(after.fat_table == before.fat_table.remove(cluster));
                    assert forall|other: u64| #[trigger]
                        after.files.contains_key(other) implies after.file_wf(other) by {
                        assert(before.file_wf(other));
                    }
                    assert forall|other: u64| #[trigger]
                        after.directories.contains_key(other) implies after.directory_wf(
                        other,
                    ) by {
                        assert(before.directory_wf(other));
                        if other == current {
                            let kept = after.directories[other].children@;
                            assert forall|i: int| 0 <= i < kept.len() implies FIRST_CLUSTER
                                <= #[trigger] kept[i] < after.next_cluster by {
                                assert(kept.contains(kept[i]));
                                lemma_without_contains(
                                    before.directories[other].children@,
                                    cluster,
                                    kept[i],
                                );
                            }
                        }
                    }
                    assert forall|other: u64| #[trigger]
                        after.fat_table.contains_key(other) <==> after.is_taken(other) by {
                        assert(before.fat_table.contains_key(other) <==> before.is_taken(other));
                    }
                    assert forall|other: u64| #[trigger]
                        after.fat_table.contains_key(other) implies after.fat_table[other]
                        == END_OF_CHAIN by {
                        assert(before.fat_table.contains_key(other));
                    }
                }
                Ok(())
            },
            None => {
                assert(self@.files == old(self)@.files);
                Err(FileSystemError::FileNotFound)
            },
        }
    }

    /// Lists the current directory: the name of each entry, with `true` for
    /// a directory and `false` for a file.
    pub fn list_files(&self) -> (listing: Vec<(String, bool)>)
        requires
            self.wf(),
        ensures
            listing@.map_values(|entry: (String, bool)| entry_view(entry)) == current_entries(
                self@,
            ),
    {
        let mut result: Vec<(String, bool)> = Vec::new();
        match self.directories.get(&self.current_directory) {
            Some(directory) => {
                let mut i: usize = 0;
                assert(result@.map_values(|entry: (String, bool)| entry_view(entry))
                    =~= entries_of(self@, directory.children@, 0));
                while i < directory.children.len()
                    invariant
                        0 <= i <= directory.children@.len(),
                        *directory == self@.directories[self@.current_directory],
                        self@.directories == self.directories@,
                        self@.files == self.files@,
                        result@.map_values(|entry: (String, bool)| entry_view(entry))
                            == entries_of(self@, directory.children@, i as int),
                    decreases directory.children.len() - i,
                {
                    let child = directory.children[i];
                    let ghost before = result@;
                    match self.files.get(&child) {
                        Some(file) => {
                            let entry = (file.name.clone(), false);
                            result.push(entry);
                            assert(result@.map_values(|entry: (String, bool)| entry_view(entry))
                                =~= before.map_values(
                                |entry: (String, bool)| entry_view(entry),
                            ).push(entry_view(entry)));
                        },
                        None => {
                            match self.directories.get(&child) {
                                Some(other) => {
                                    let entry = (other.name.clone(), true);
                                    result.push(entry);
                                    assert(result@.map_values(
                                        |entry: (String, bool)| entry_view(entry),
                                    ) =~= before.map_values(
                                        |entry: (String, bool)| entry_view(entry),
                                    ).push(entry_view(entry)));
                                },
                                None => {},
                            }
                        },
                    }
                    i = i + 1;
                }
            },
            None => {},
        }
        result
    }

    /// Changes the current directory: to the parent for "..", else to the
    /// directory of that name in the current directory.
    pub fn change_directory(&mut self, name: &str) -> (result: Result<(), FileSystemError>)
        requires
            old(self).wf(),
        ensures
            final(self).wf(),
            change_directory_outcome(old(self)@, final(self)@, name@, result),
    {
        let owned = name.to_owned();
        let up = "..".to_owned();
        proof {
            reveal_strlit("..");
            assert(up@ =~= parent_name());
        }
        let current = self.current_directory;
        assert(self@.directories.contains_key(current));
        if owned == up {
            return match self.directories.get(&current) {
                Some(directory) => match directory.parent {
                    Some(parent) => {
                        assert(current != ROOT_CLUSTER);
                        assert(self@.directories.contains_key(parent));
                        self.current_directory = parent;
                        assert(self@ == (FileSystemState {
                            current_directory: parent,
                            ..old(self)@
                        }));
                        Ok(())
                    },
                    None => Err(FileSystemError::DirectoryNotFound),
                },
                None => Err(FileSystemError::DirectoryNotFound),
            };
        }
        let mut target: Option<u64> = None;
        match self.directories.get(&current) {
            Some(directory) => {
                let mut i: usize = 0;
                while i < directory.children.len()
                    invariant_except_break
                        target is None,
                        forall|k: int|
                            0 <= k < i ==> !is_directory_named(
                                self@,
                                name@,
                                #[trigger] directory.children@[k],
                            ),
                    invariant
                        0 <= i <= directory.children@.len(),
                        *directory == self@.directories[self@.current_directory],
                        self@.directories == self.directories@,
                        self@ == old(self)@,
                        owned@ == name@,
                    ensures
                        target is None ==> !has_directory_named(self@, name@),
                        target matches Some(child) ==> exists|index: int|
                            first_directory_named(self@, name@, index)
                                && #[trigger] directory.children@[index] == child,
                    decreases directory.children.len() - i,
                {
                    let child = directory.children[i];
                    match self.directories.get(&child) {
                        Some(other) => {
                            if other.name == owned {
                                target = Some(child);
                                assert(first_directory_named(self@, name@, i as int));
                                break;
                            }
                        },
                        None => {},
                    }
                    i = i + 1;
                }
            },
            None => {},
        }
        match target {
            Some(child) => {
                assert(self@.directories.contains_key(child));
                self.current_directory = child;
                assert(self@ == (FileSystemState { current_directory: child, ..old(self)@ }));
                Ok(())
            },
            None => Err(FileSystemError::DirectoryNotFound),
        }
    }

    /// The path of the current directory: the names from the root down,
    /// each followed by a slash.
    pub fn get_current_path(&self) -> (path: String)
        requires
            self.wf(),
        ensures
            path@ == path_to(self@.directories, self@.current_directory),
    {
        let slash = "/".to_owned();
        proof {
            reveal_strlit("/");
            assert(slash@ =~= root_name());
        }
        let mut suffix = String::new();
        let mut current = self.current_directory;
        assert(path_to(self@.directories, current) + suffix@ =~= path_to(
            self@.directories,
            current,
        ));
        loop
            invariant
                self.wf(),
                self@.directories == self.directories@,
                self@.directories.contains_key(current),
                slash@ == root_name(),
                path_to(self@.directories, self@.current_directory) == path_to(
                    self@.directories,
                    current,
                ) + suffix@,
            decreases current,
        {
            proof {
                reveal_strlit("/");
            }
            match self.directories.get(&current) {
                Some(directory) => {
                    if directory.name == slash {
                        let mut path = "/".to_owned();
                        path.append(suffix.as_str());
                        return path;
                    }
                    let parent = match directory.parent {
                        Some(parent) => parent,
                        None => ROOT_CLUSTER,
                    };
                    let mut piece = directory.name.clone();
                    piece.append("/");
                    piece.append(suffix.as_str());
                    proof {
                        assert(current != ROOT_CLUSTER);
                        assert(parent == parent_or_root(*directory));
                        assert(parent < current);
                        assert("/"@ =~= seq!['/']);
                        assert(path_to(self@.directories, current) + suffix@ =~= path_to(
                            self@.directories,
                            parent,
                        ) + piece@);
                    }
                    suffix = piece;
                    current = parent;
                },
                None => {
                    return suffix;
                },
            }
        }
    }

    /// What the allocation table holds: the number of clusters that are
    /// taken, and the number of files and directories.
    pub fn get_fat_info(&self) -> (info: (usize, usize))
        requires
            self@.files.dom().len() + self@.directories.dom().len() <= usize::MAX,
        ensures
            info.0 == self@.fat_table.dom().len(),
            info.1 == self@.files.dom().len() + self@.directories.dom().len(),
            self.wf() ==> info.1 == info.0 + 1,
    {
        proof {
            if self.wf() {
                lemma_fat_table_size(self@);
            }
        }
        (self.fat_table.len(), self.files.len() + self.directories.len())
    }

    /// Whether a cluster is taken.  The cluster of the root always is.
    pub fn is_cluster_allocated(&self, cluster: u64) -> (allocated: bool)
        ensures
            allocated <==> self@.fat_table.contains_key(cluster) || cluster == ROOT_CLUSTER,
            self.wf() ==> (allocated <==> self@.files.contains_key(cluster)
                || self@.directories.contains_key(cluster)),
    {
        assert(self.wf() ==> (self@.fat_table.contains_key(cluster) <==> self@.is_taken(cluster)));
        self.fat_table.contains_key(&cluster) || cluster == ROOT_CLUSTER
    }
}

/// Entries depend only on what the listed clusters hold: two file systems
/// in which the first `n` children are the same clusters, holding files and
/// directories of the same names, have the same first entries.
pub proof fn lemma_entries_agree(
    a: FileSystemState,
    a_children: Seq<u64>,
    b: FileSystemState,
    b_children: Seq<u64>,
    n: int,
)
    requires
        0 <= n <= a_children.len(),
        n <= b_children.len(),
        forall|i: int| 0 <= i < n ==> a_children[i] == b_children[i],
        forall|i: int|
            0 <= i < n ==> {
                let cluster = #[trigger] a_children[i];
                &&& a.files.contains_key(cluster) == b.files.contains_key(cluster)
                &&& a.files.contains_key(cluster) ==> a.files[cluster].name@
                    == b.files[cluster].name@
                &&& a.directories.contains_key(cluster) == b.directories.contains_key(cluster)
                &&& a.directories.contains_key(cluster) ==> a.directories[cluster].name@
                    == b.directories[cluster].name@
            },
    ensures
        entries_of(a, a_children, n) == entries_of(b, b_children, n),
    decreases n,
{
    if n > 0 {
        lemma_entries_agree(a, a_children, b, b_children, n - 1);
        let cluster = a_children[n - 1];
        assert(b_children[n - 1] == cluster);
    }
}

/// A new file shows at the end of the listing, and the listing is
/// otherwise what it was.
pub proof fn lemma_created_file_is_listed(
    before: FileSystemState,
    after: FileSystemState,
    name: Seq<char>,
    permissions: FilePermissions,
)
    requires
        before.wf(),
        create_file_result(before, name) is Ok,
        create_file_outcome(before, after, name, permissions),
    ensures
        current_entries(after) == current_entries(before).push((name, false)),
{
    let cluster = before.next_cluster;
    let current = before.current_directory;
    let old_children = before.directories[current].children@;
    let new_children = after.directories[current].children@;
    assert(before.directory_wf(current));
    assert(new_children == old_children.push(cluster));
    assert forall|i: int| 0 <= i < old_children.len() implies {
        let child = #[trigger] old_children[i];
        &&& before.files.contains_key(child) == after.files.contains_key(child)
        &&& before.files.contains_key(child) ==> before.files[child].name@
            == after.files[child].name@
        &&& before.directories.contains_key(child) == after.directories.contains_key(child)
        &&& before.directories.contains_key(child) ==> before.directories[child].name@
            == after.directories[child].name@
    } by {
        assert(old_children[i] < cluster);
    }
    lemma_entries_agree(before, old_children, after, new_children, old_children.len() as int);
}

/// A new directory shows at the end of the listing, and the listing is
/// otherwise what it was.
pub proof fn lemma_created_directory_is_listed(
    before: FileSystemState,
    after: FileSystemState,
    name: Seq<char>,
)
    requires
        before.wf(),
        create_directory_result(before, name) is Ok,
        create_directory_outcome(before, after, name),
    ensures
        current_entries(after) == current_entries(before).push((name, true)),
{
    let cluster = before.next_cluster;
    let current = before.current_directory;
    let old_children = before.directories[current].children@;
    let new_children = after.directories[current].children@;
    assert(before.directory_wf(current));
    assert(new_children == old_children.push(cluster));
    assert(!before.files.contains_key(cluster)) by {
        if before.files.contains_key(cluster) {
            assert(before.file_wf(cluster));
        }
    }
    assert forall|i: int| 0 <= i < old_children.len() implies {
        let child = #[trigger] old_children[i];
        &&& before.files.contains_key(child) == after.files.contains_key(child)
        &&& before.files.contains_key(child) ==> before.files[child].name@
            == after.files[child].name@
        &&& before.directories.contains_key(child) == after.directories.contains_key(child)
        &&& before.directories.contains_key(child) ==> before.directories[child].name@
            == after.directories[child].name@
    } by {
        assert(old_children[i] < cluster);
    }
    lemma_entries_agree(before, old_children, after, new_children, old_children.len() as int);
}

/// A new directory can be entered by its name, unless that name is "..",
/// which always leads to the parent.
pub proof fn lemma_created_directory_can_be_entered(
    before: FileSystemState,
    created: FileSystemState,
    name: Seq<char>,
    entered: FileSystemState,
    result: Result<(), FileSystemError>,
)
    requires
        before.wf(),
        name != parent_name(),
        create_directory_result(before, name) is Ok,
        create_directory_outcome(before, created, name),
        change_directory_outcome(created, entered, name, result),
    ensures
        result is Ok,
        entered == (FileSystemState { current_directory: before.next_cluster, ..created }),
{
    let cluster = before.next_cluster;
    let current = before.current_directory;
    let old_children = before.directories[current].children@;
    let children = created.directories[current].children@;
    assert(before.directory_wf(current));
    assert(children == old_children.push(cluster));
    assert(children[old_children.len() as int] == cluster);
    assert(is_directory_named(created, name, cluster));
    assert forall|k: int| 0 <= k < old_children.len() implies !is_directory_named(
        created,
        name,
        #[trigger] children[k],
    ) by {
        assert(children[k] == old_children[k]);
        assert(old_children[k] < cluster);
        assert(!is_directory_named(before, name, old_children[k]));
    }
    assert(first_directory_named(created, name, old_children.len() as int));
    assert(has_directory_named(created, name));
    let index = choose|index: int|
        first_directory_named(created, name, index) && entered == (FileSystemState {
            current_directory: #[trigger] children[index],
            ..created
        });
    if index < old_children.len() {
        assert(!is_directory_named(created, name, children[index]));
    } else if index > old_children.len() {
        assert(!is_directory_named(created, name, children[old_children.len() as int]));
    }
}

/// Creates a file in `service`; see `FileSystemService::create_file`.
pub fn create_file(service: &mut FileSystemService, name: &str, permissions: FilePermissions) -> (result:
    Result<u64, FileSystemError>)
    requires
        old(service).wf(),
    ensures
        final(service).wf(),
        result == create_file_result(old(service)@, name@),
        create_file_outcome(old(service)@, final(service)@, name@, permissions),
{
    service.create_file(name, permissions)
}

/// Writes to a file of `service`; see `FileSystemService::write_file`.
pub fn write_file(service: &mut FileSystemService, cluster: u64, data: &[u8]) -> (result: Result<
    usize,
    FileSystemError,
>)
    requires
        old(service).wf(),
    ensures
        final(service).wf(),
        result == write_file_result(old(service)@, cluster, data@),
        write_file_outcome(old(service)@, final(service)@, cluster, data@),
{
    service.write_file(cluster, data)
}

/// Reads a file of `service`; see `FileSystemService::read_file`.
pub fn read_file(service: &FileSystemService, cluster: u64) -> (result: Result<
    Vec<u8>,
    FileSystemError,
>)
    ensures
        match result {
            Ok(data) => read_file_result(service@, cluster) == Ok::<Seq<u8>, FileSystemError>(
                data@,
            ),
            Err(e) => read_file_result(service@, cluster) == Err::<Seq<u8>, FileSystemError>(e),
        },
{
    service.read_file(cluster)
}

/// Lists the current directory of `service`; see
/// `FileSystemService::list_files`.
pub fn list_files(service: &FileSystemService) -> (listing: Vec<(String, bool)>)
    requires
        service.wf(),
    ensures
        listing@.map_values(|entry: (String, bool)| entry_view(entry)) == current_entries(
            service@,
        ),
{
    service.list_files()
}

/// Changes the current directory of `service`; see
/// `FileSystemService::change_directory`.
pub fn change_directory(service: &mut FileSystemService, name: &str) -> (result: Result<
    (),
    FileSystemError,
>)
    requires
        old(service).wf(),
    ensures
        final(service).wf(),
        change_directory_outcome(old(service)@, final(service)@, name@, result),
{
    service.change_directory(name)
}

/// The path of the current directory of `service`.
pub fn get_current_path(service: &FileSystemService) -> (path: String)
    requires
        service.wf(),
    ensures
        path@ == path_to(service@.directories, service@.current_directory),
{
    service.get_current_path()
}

/// Sets up the file system: a new one, with an empty root directory.
pub fn init_fat_filesystem() -> (result: Result<FileSystemService, FileSystemError>)
    ensures
        result matches Ok(service) && service.wf() && service@.files == Map::<
            u64,
            FileEntry,
        >::empty() && service@.directories.dom() == set![ROOT_CLUSTER]
            && service@.current_directory == ROOT_CLUSTER && service@.next_cluster
            == FIRST_CLUSTER,
{
    Ok(FileSystemService::new())
}

} // verus!

//! The filesystem proper: the configured tree shape, the attributes of
//! every node, and the four read-only operation handlers.
//!
//! The tree holds a mount root (directory number `1`) and `num_dirs`
//! subdirectories (directory numbers `2 ..= num_dirs + 1`), each of which
//! exposes one fixed file. Everything is computed from the identifier and
//! the configuration; nothing is stored per node.

use crate::inode::{
    file_ino_val, ino_dir_num, ino_file_num, DirInode, FileInode, Inode, MAX_DIRS, MAX_FILES,
};
use crate::names::{digits_value, dir_name, dir_name_spec, name_to_dir_num, parsed_dir_num};
use vstd::prelude::*;
use vstd::string::StringExecFns;

verus! {

/// How long a returned attribute or entry stays valid on the caller's side,
/// in seconds.
pub const TTL_SECS: u64 = 1;

/// The one instant every timestamp of the tree is pinned to, as seconds
/// since the Unix epoch. The tree is immutable, so no node ever carries a
/// different time.
pub const EPOCH_SECS: u64 = 1751364000;

/// The file number under which the one exposed file of each directory is
/// addressed.
pub const HELLO_FILE_NUM: u64 = 2;

/// The kind of a node, as reported in attributes and directory entries.
#[derive(Clone, Copy, Debug, PartialEq, Eq, Structural)]
pub enum FileKind {
    Directory,
    RegularFile,
}

/// The errors a request can end in.
#[derive(Clone, Copy, Debug, PartialEq, Eq, Structural)]
pub enum FsError {
    /// The name or identifier does not resolve under the current
    /// configuration.
    NotFound,
    /// A file read was requested against a directory identifier.
    IsADirectory,
    /// A directory listing was requested against a file identifier.
    NotADirectory,
}

/// The metadata of one node. All timestamps of a node are the same pinned
/// instant, kept once in `epoch_secs`.
#[derive(Clone, Copy, Debug, PartialEq, Eq, Structural)]
pub struct NodeAttr {
    pub ino: u64,
    pub size: u64,
    pub blocks: u64,
    pub epoch_secs: u64,
    pub kind: FileKind,
    pub perm: u16,
    pub nlink: u32,
    pub uid: u32,
    pub gid: u32,
    pub rdev: u32,
    pub flags: u32,
    pub blksize: u32,
}

/// One directory entry as a listing hands it out: the entry's identifier,
/// the offset at which a later call resumes after this entry, its kind and
/// its name.
#[derive(Debug)]
pub struct DirEntry {
    pub ino: u64,
    pub next_offset: u64,
    pub kind: FileKind,
    pub name: String,
}

/// The attributes of the directory with identifier `ino`.
pub open spec fn dir_attr_spec(ino: u64) -> NodeAttr {
    NodeAttr {
        ino: ino,
        size: 0,
        blocks: 0,
        epoch_secs: EPOCH_SECS,
        kind: FileKind::Directory,
        perm: 0o755,
        nlink: 2,
        uid: 501,
        gid: 20,
        rdev: 0,
        flags: 0,
        blksize: 512,
    }
}

/// The attributes of the file with identifier `ino`; the size is the length
/// of the fixed content.
pub open spec fn file_attr_spec(ino: u64) -> NodeAttr {
    NodeAttr {
        ino: ino,
        size: 13,
        blocks: 1,
        epoch_secs: EPOCH_SECS,
        kind: FileKind::RegularFile,
        perm: 0o644,
        nlink: 1,
        uid: 501,
        gid: 20,
        rdev: 0,
        flags: 0,
        blksize: 512,
    }
}

/// The attributes of a directory inode.
pub fn dir_attr(inode: DirInode) -> (r: NodeAttr)
    ensures
        r == dir_attr_spec(inode@),
{
    NodeAttr {
        ino: inode.ino(),
        size: 0,
        blocks: 0,
        epoch_secs: EPOCH_SECS,
        kind: FileKind::Directory,
        perm: 0o755,
        nlink: 2,
        uid: 501,
        gid: 20,
        rdev: 0,
        flags: 0,
        blksize: 512,
    }
}

/// The attributes of a file inode.
pub fn file_attr(inode: FileInode) -> (r: NodeAttr)
    ensures
        r == file_attr_spec(file_ino_val(inode@.0 as int, inode@.1 as int) as u64),
        0 <= file_ino_val(inode@.0 as int, inode@.1 as int) <= u64::MAX,
{
    proof {
        crate::inode::lemma_file_inode_bounds(inode);
        crate::inode::lemma_file_round_trip(inode@.0, inode@.1);
    }
    NodeAttr {
        ino: inode.ino(),
        size: 13,
        blocks: 1,
        epoch_secs: EPOCH_SECS,
        kind: FileKind::RegularFile,
        perm: 0o644,
        nlink: 1,
        uid: 501,
        gid: 20,
        rdev: 0,
        flags: 0,
        blksize: 512,
    }
}

/// The fixed content of every exposed file: the bytes of `"Hello World!\n"`.
pub open spec fn hello_content() -> Seq<u8> {
    seq![72u8, 101u8, 108u8, 108u8, 111u8, 32u8, 87u8, 111u8, 114u8, 108u8, 100u8, 33u8, 10u8]
}

/// The fixed content of every exposed file, as bytes.
pub fn hello_content_bytes() -> (r: Vec<u8>)
    ensures
        r@ == hello_content(),
{
    let mut v: Vec<u8> = Vec::new();
    v.push(72);
    v.push(101);
    v.push(108);
    v.push(108);
    v.push(111);
    v.push(32);
    v.push(87);
    v.push(111);
    v.push(114);
    v.push(108);
    v.push(100);
    v.push(33);
    v.push(10);
    proof {
        assert(v@ =~= hello_content());
    }
    v
}

/// Collects the tree shape and the listing delay before the filesystem is
/// built. Out-of-range counts are rejected here, so a built filesystem is
/// always well formed.
pub struct TarpitBuilder {
    num_dirs: u64,
    num_files: u64,
    slowdown_ms: u64,
}

impl TarpitBuilder {
    /// The configured number of subdirectories.
    pub closed spec fn spec_dirs(&self) -> u64 {
        self.num_dirs
    }

    /// The configured number of files per directory.
    pub closed spec fn spec_files(&self) -> u64 {
        self.num_files
    }

    /// The configured listing delay in milliseconds.
    pub closed spec fn spec_slowdown(&self) -> u64 {
        self.slowdown_ms
    }

    /// The builder's counts stay within the identifier space: the root and
    /// every subdirectory number fit the directory half, and the file count
    /// fits the file half.
    pub open spec fn wf(&self) -> bool {
        &&& self.spec_dirs() + 1 <= MAX_DIRS
        &&& self.spec_files() <= MAX_FILES
    }

    /// Set the number of subdirectories. The root and every subdirectory
    /// number must fit the directory half of an identifier.
    pub fn dirs(self, num_dirs: u64) -> (r: Self)
        requires
            num_dirs + 1 <= MAX_DIRS,
        ensures
            r.spec_dirs() == num_dirs,
            r.spec_files() == self.spec_files(),
            r.spec_slowdown() == self.spec_slowdown(),
    {
        TarpitBuilder { num_dirs, ..self }
    }

    /// Set the number of files per directory.
    pub fn files(self, num_files: u64) -> (r: Self)
        requires
            num_files <= MAX_FILES,
        ensures
            r.spec_files() == num_files,
            r.spec_dirs() == self.spec_dirs(),
            r.spec_slowdown() == self.spec_slowdown(),
    {
        TarpitBuilder { num_files, ..self }
    }

    /// Set the listing delay in milliseconds.
    pub fn slowdown_ms(self, slowdown_ms: u64) -> (r: Self)
        ensures
            r.spec_slowdown() == slowdown_ms,
            r.spec_dirs() == self.spec_dirs(),
            r.spec_files() == self.spec_files(),
    {
        TarpitBuilder { slowdown_ms, ..self }
    }

    /// Finish construction.
    pub fn build(self) -> (r: TarpitFs)
        requires
            self.wf(),
        ensures
            r.wf(),
            r.spec_dirs() == self.spec_dirs(),
            r.spec_files() == self.spec_files(),
            r.spec_slowdown() == self.spec_slowdown(),
    {
        TarpitFs {
            num_dirs: self.num_dirs,
            num_files: self.num_files,
            slowdown_ms: self.slowdown_ms,
        }
    }
}

impl Default for TarpitBuilder {
    /// Ten directories of ten files each, with no listing delay.
    fn default() -> (r: Self)
        ensures
            r.spec_dirs() == 10,
            r.spec_files() == 10,
            r.spec_slowdown() == 0,
            r.wf(),
    {
        TarpitBuilder { num_dirs: 10, num_files: 10, slowdown_ms: 0 }
    }
}

/// The filesystem: three configuration scalars fixed at construction, and
/// nothing else. Every operation is a pure function of them and of the
/// request.
pub struct TarpitFs {
    num_dirs: u64,
    num_files: u64,
    slowdown_ms: u64,
}

impl TarpitFs {
    /// The configured number of subdirectories.
    pub closed spec fn spec_dirs(&self) -> u64 {
        self.num_dirs
    }

    /// The configured number of files per directory.
    pub closed spec fn spec_files(&self) -> u64 {
        self.num_files
    }

    /// The configured listing delay in milliseconds.
    pub closed spec fn spec_slowdown(&self) -> u64 {
        self.slowdown_ms
    }

    /// The tree shape stays within the identifier space; `build` establishes
    /// this and nothing ever changes the configuration.
    pub open spec fn wf(&self) -> bool {
        &&& self.spec_dirs() + 1 <= MAX_DIRS
        &&& self.spec_files() <= MAX_FILES
    }

    /// Whether `d` is the number of an addressable directory: the root is
    /// `1` and the subdirectories are `2 ..= num_dirs + 1`.
    pub open spec fn valid_dir_num(&self, d: int) -> bool {
        1 <= d <= self.spec_dirs() + 1
    }

    /// Start building a filesystem with the default configuration.
    pub fn builder() -> (r: TarpitBuilder)
        ensures
            r.spec_dirs() == 10,
            r.spec_files() == 10,
            r.spec_slowdown() == 0,
            r.wf(),
    {
        TarpitBuilder::default()
    }

    /// The configured number of subdirectories.
    pub fn num_dirs(&self) -> (r: u64)
        ensures
            r == self.spec_dirs(),
    {
        self.num_dirs
    }

    /// The configured number of files per directory.
    pub fn num_files(&self) -> (r: u64)
        ensures
            r == self.spec_files(),
    {
        self.num_files
    }

    /// The configured listing delay in milliseconds.
    pub fn slowdown_ms(&self) -> (r: u64)
        ensures
            r == self.spec_slowdown(),
    {
        self.slowdown_ms
    }

    /// Map a subdirectory's position `num` (`1 ..= num_dirs`, with `0`
    /// standing for the root) to its inode: the root takes directory number
    /// `1`, so position `num` lives at directory number `num + 1`.
    pub fn dir_num_to_inode(&self, num: u64) -> (r: Option<DirInode>)
        requires
            self.wf(),
        ensures
            num <= self.spec_dirs() ==> (r matches Some(d) && d@ == num + 1),
            num > self.spec_dirs() ==> r is None,
    {
        if num <= self.num_dirs {
            DirInode::from_number(num + 1)
        } else {
            None
        }
    }

    /// Resolve a subdirectory name to its inode: the name must parse to a
    /// value in `1 ..= num_dirs` — directory number `0` is never valid, so
    /// the value `0` resolves nowhere.
    pub fn dir_name_to_inode(&self, name: &str) -> (r: Option<DirInode>)
        requires
            self.wf(),
        ensures
            match r {
                Some(d) => parsed_dir_num(name@) matches Some(v) && 1 <= v <= self.spec_dirs()
                    && d@ == v + 1,
                None => !(parsed_dir_num(name@) matches Some(v) && 1 <= v <= self.spec_dirs()),
            },
    {
        match name_to_dir_num(name) {
            Some(num) => if num >= 1 {
                self.dir_num_to_inode(num)
            } else {
                None
            },
            None => None,
        }
    }

    /// Decode an identifier to a directory inode: `Some` exactly for the
    /// identifiers whose file half is zero and whose directory number is
    /// addressable.
    pub fn inode_to_dir(&self, ino: u64) -> (r: Option<DirInode>)
        requires
            self.wf(),
        ensures
            match r {
                Some(d) => ino != 0 && ino_file_num(ino as int) == 0 && self.valid_dir_num(
                    ino_dir_num(ino as int),
                ) && d@ == ino,
                None => ino == 0 || ino_file_num(ino as int) != 0 || !self.valid_dir_num(
                    ino_dir_num(ino as int),
                ),
            },
    {
        if ino == 0 {
            return None;
        }
        match Inode::from_ino_u64(ino) {
            Inode::File(_) => None,
            Inode::Dir(dir_inode) => {
                proof {
                    crate::inode::lemma_ino_dir_eq(ino);
                }
                if dir_inode.num() > self.num_dirs + 1 {
                    None
                } else {
                    Some(dir_inode)
                }
            },
        }
    }

    /// The attributes of a decoded inode: `Some` exactly for an addressable
    /// directory number, or for a file whose parent is addressable and
    /// whose file number does not exceed the file count.
    pub fn inode_attr(&self, inode: Inode) -> (r: Option<NodeAttr>)
        requires
            self.wf(),
        ensures
            match inode {
                Inode::Dir(d) => if self.valid_dir_num(d@ as int) {
                    r == Some(dir_attr_spec(d@))
                } else {
                    r is None
                },
                Inode::File(f) => if self.valid_dir_num(f@.0 as int) && 1 <= f@.1
                    <= self.spec_files() {
                    r == Some(file_attr_spec(file_ino_val(f@.0 as int, f@.1 as int) as u64))
                } else {
                    r is None
                },
            },
    {
        match inode {
            Inode::Dir(dir_inode) => {
                let n = dir_inode.num();
                if 1 <= n && n <= self.num_dirs + 1 {
                    Some(dir_attr(dir_inode))
                } else {
                    None
                }
            },
            Inode::File(file_inode) => {
                let p = file_inode.parent_num();
                let n = file_inode.num();
                if 1 <= p && p <= self.num_dirs + 1 && 1 <= n && n <= self.num_files {
                    Some(file_attr(file_inode))
                } else {
                    None
                }
            },
        }
    }

    /// What an attribute query returns: the directory's attributes for an
    /// addressable directory identifier, the file's attributes for a file
    /// identifier whose parent is addressable and whose file number does
    /// not exceed the file count, and nothing for every other identifier.
    pub open spec fn getattr_spec(&self, ino: u64) -> Option<NodeAttr> {
        if ino == 0 {
            None
        } else if ino_file_num(ino as int) == 0 {
            if self.valid_dir_num(ino_dir_num(ino as int)) {
                Some(dir_attr_spec(ino))
            } else {
                None
            }
        } else {
            if self.valid_dir_num(ino_dir_num(ino as int)) && 1 <= ino_file_num(ino as int)
                <= self.spec_files() {
                Some(file_attr_spec(ino))
            } else {
                None
            }
        }
    }

    /// Answer an attribute query; `None` stands for Not-Found.
    pub fn getattr(&self, ino: u64) -> (r: Option<NodeAttr>)
        requires
            self.wf(),
        ensures
            r == self.getattr_spec(ino),
    {
        if ino == 0 {
            return None;
        }
        let inode = Inode::from_ino_u64(ino);
        proof {
            if ino_file_num(ino as int) == 0 {
                crate::inode::lemma_ino_dir_eq(ino);
            } else {
                crate::inode::lemma_file_round_trip(
                    ino_dir_num(ino as int) as u64,
                    ino_file_num(ino as int) as u64,
                );
                vstd::arithmetic::div_mod::lemma_fundamental_div_mod(ino as int, 0x1_0000_0000);
            }
        }
        self.inode_attr(inode)
    }

    /// What a name resolution returns. Under the root, a name resolves to
    /// the directory whose number it parses to, provided that number lies
    /// in `1 ..= num_dirs`. Under an addressable non-root directory,
    /// exactly the fixed file name resolves, to that directory's file.
    /// Everything else is Not-Found.
    pub open spec fn lookup_spec(&self, parent: u64, name: Seq<char>) -> Option<NodeAttr> {
        if parent == 1 {
            match parsed_dir_num(name) {
                Some(v) => if 1 <= v <= self.spec_dirs() {
                    Some(dir_attr_spec((v + 1) as u64))
                } else {
                    None
                },
                None => None,
            }
        } else if parent != 0 && ino_file_num(parent as int) == 0 && self.valid_dir_num(
            ino_dir_num(parent as int),
        ) {
            if name == "hello.txt"@ {
                Some(file_attr_spec(file_ino_val(parent as int, HELLO_FILE_NUM as int) as u64))
            } else {
                None
            }
        } else {
            None
        }
    }

    /// Resolve `name` under the directory identifier `parent`; `None`
    /// stands for Not-Found.
    pub fn lookup(&self, parent: u64, name: &str) -> (r: Option<NodeAttr>)
        requires
            self.wf(),
        ensures
            r == self.lookup_spec(parent, name@),
    {
        if parent == 1 {
            return match self.dir_name_to_inode(name) {
                Some(inode) => Some(dir_attr(inode)),
                None => None,
            };
        }
        if parent == 0 {
            return None;
        }
        let parent_inode = match Inode::from_ino_u64(parent) {
            Inode::File(_) => {
                return None;
            },
            Inode::Dir(dir_inode) => dir_inode,
        };
        proof {
            crate::inode::lemma_ino_dir_eq(parent);
        }
        if parent_inode.num() > self.num_dirs + 1 {
            return None;
        }
        if str_eq(name, "hello.txt") {
            let file = match FileInode::from_number(parent_inode, HELLO_FILE_NUM) {
                Some(f) => f,
                None => {
                    return None;
                },
            };
            Some(file_attr(file))
        } else {
            None
        }
    }

    /// What a file read returns: Is-A-Directory against a directory
    /// identifier, the fixed content from `offset` on (empty past its end)
    /// against the exposed file number, and Not-Found against every other
    /// identifier.
    pub open spec fn read_spec(&self, ino: u64, offset: u64) -> Result<Seq<u8>, FsError> {
        if ino == 0 {
            Err(FsError::NotFound)
        } else if ino_file_num(ino as int) == 0 {
            Err(FsError::IsADirectory)
        } else if ino_file_num(ino as int) == HELLO_FILE_NUM {
            if offset < hello_content().len() {
                Ok(hello_content().skip(offset as int))
            } else {
                Ok(Seq::empty())
            }
        } else {
            Err(FsError::NotFound)
        }
    }

    /// Read the exposed file from `offset` to its end. An offset at or past
    /// the end yields an empty result, never an error.
    pub fn read(&self, ino: u64, offset: u64) -> (r: Result<Vec<u8>, FsError>)
        requires
            self.wf(),
        ensures
            match r {
                Ok(v) => self.read_spec(ino, offset) == Ok::<Seq<u8>, FsError>(v@),
                Err(e) => self.read_spec(ino, offset) == Err::<Seq<u8>, FsError>(e),
            },
    {
        if ino == 0 {
            return Err(FsError::NotFound);
        }
        let file_inode = match Inode::from_ino_u64(ino) {
            Inode::Dir(_) => {
                return Err(FsError::IsADirectory);
            },
            Inode::File(f) => f,
        };
        if file_inode.num() != HELLO_FILE_NUM {
            return Err(FsError::NotFound);
        }
        let content = hello_content_bytes();
        let start: usize = if offset >= 13 {
            13
        } else {
            offset as usize
        };
        let tail = vstd::slice::slice_subrange(content.as_slice(), start, 13);
        let out = vstd::slice::slice_to_vec(tail);
        proof {
            if offset < 13 {
                assert(hello_content().subrange(start as int, 13) =~= hello_content().skip(
                    offset as int,
                ));
            } else {
                assert(hello_content().subrange(13, 13) =~= Seq::<u8>::empty());
            }
        }
        Ok(out)
    }
}

/// Whether the executable entry `e` carries exactly the data of the
/// specification entry `t`: identifier, resumption offset, kind and name.
pub open spec fn entry_matches(e: DirEntry, t: (u64, int, FileKind, Seq<char>)) -> bool {
    &&& e.ino == t.0
    &&& e.next_offset as int == t.1
    &&& e.kind == t.2
    &&& e.name@ == t.3
}

impl TarpitFs {
    /// The full entry list of the root: itself, its parent (itself again),
    /// then every subdirectory in ascending numeric order.
    pub open spec fn root_listing(&self) -> Seq<(u64, FileKind, Seq<char>)> {
        seq![(1u64, FileKind::Directory, "."@), (1u64, FileKind::Directory, ".."@)] + Seq::new(
            self.spec_dirs() as nat,
            |i: int| (((i + 2) as u64, FileKind::Directory, dir_name_spec(i + 1))),
        )
    }

    /// The full entry list of the subdirectory with number `d`: itself, the
    /// root, and the one exposed file.
    pub open spec fn subdir_listing(&self, d: u64) -> Seq<(u64, FileKind, Seq<char>)> {
        seq![
            (d, FileKind::Directory, "."@),
            (1u64, FileKind::Directory, ".."@),
            (
                file_ino_val(d as int, HELLO_FILE_NUM as int) as u64,
                FileKind::RegularFile,
                "hello.txt"@,
            ),
        ]
    }

    /// The full entry list of the directory with number `d`.
    pub open spec fn full_listing(&self, d: u64) -> Seq<(u64, FileKind, Seq<char>)> {
        if d == 1 {
            self.root_listing()
        } else {
            self.subdir_listing(d)
        }
    }

    /// The error a listing request against `ino` ends in, if any.
    pub open spec fn readdir_err(&self, ino: u64) -> Option<FsError> {
        if ino == 0 {
            Some(FsError::NotFound)
        } else if ino_file_num(ino as int) != 0 {
            Some(FsError::NotADirectory)
        } else if !self.valid_dir_num(ino_dir_num(ino as int)) {
            Some(FsError::NotFound)
        } else {
            None
        }
    }

    /// What a listing returns: every entry of the full list from `offset`
    /// on, each paired with the offset at which a later call resumes after
    /// it. A directory identifier is its own directory number, so the full
    /// list is indexed by `ino` directly.
    pub open spec fn readdir_spec(&self, ino: u64, offset: int) -> Result<
        Seq<(u64, int, FileKind, Seq<char>)>,
        FsError,
    > {
        match self.readdir_err(ino) {
            Some(e) => Err(e),
            None => {
                let full = self.full_listing(ino);
                let start = if offset <= full.len() {
                    offset
                } else {
                    full.len() as int
                };
                Ok(
                    Seq::new(
                        (full.len() - start) as nat,
                        |j: int|
                            (full[start + j].0, start + j + 1, full[start + j].1, full[start + j].2),
                    ),
                )
            },
        }
    }

    /// The entry at index `j` of the full list of the directory `dir`,
    /// paired with the offset `j + 1` at which a later call resumes.
    fn listing_entry(&self, dir: DirInode, j: u64) -> (e: DirEntry)
        requires
            self.wf(),
            1 <= dir@ <= self.spec_dirs() + 1,
            j < self.full_listing(dir@).len(),
        ensures
            e.ino == self.full_listing(dir@)[j as int].0,
            e.kind == self.full_listing(dir@)[j as int].1,
            e.name@ == self.full_listing(dir@)[j as int].2,
            e.next_offset == j + 1,
    {
        let dnum = dir.num();
        if j == 0 {
            DirEntry {
                ino: dnum,
                next_offset: 1,
                kind: FileKind::Directory,
                name: String::from_str("."),
            }
        } else if j == 1 {
            DirEntry {
                ino: 1,
                next_offset: 2,
                kind: FileKind::Directory,
                name: String::from_str(".."),
            }
        } else if dnum == 1 {
            DirEntry {
                ino: j,
                next_offset: j + 1,
                kind: FileKind::Directory,
                name: dir_name(j - 1),
            }
        } else {
            let file = FileInode::from_number(dir, HELLO_FILE_NUM).unwrap();
            proof {
                crate::inode::lemma_file_round_trip(dir@, HELLO_FILE_NUM);
            }
            DirEntry {
                ino: file.ino(),
                next_offset: 3,
                kind: FileKind::RegularFile,
                name: String::from_str("hello.txt"),
            }
        }
    }

    /// List the directory `ino` from `offset` on. Every returned entry
    /// carries the offset at which a later call resumes after it, so a
    /// caller can page through the listing across calls.
    pub fn readdir(&self, ino: u64, offset: u64) -> (r: Result<Vec<DirEntry>, FsError>)
        requires
            self.wf(),
        ensures
            match r {
                Ok(v) => ({
                    &&& self.readdir_spec(ino, offset as int) matches Ok(w)
                    &&& v@.len() == w.len()
                    &&& forall|j: int| 0 <= j < w.len() ==> entry_matches(#[trigger] v@[j], w[j])
                }),
                Err(e) => self.readdir_spec(ino, offset as int) == Err::<
                    Seq<(u64, int, FileKind, Seq<char>)>,
                    FsError,
                >(e),
            },
    {
        if ino == 0 {
            return Err(FsError::NotFound);
        }
        let dir_inode = match Inode::from_ino_u64(ino) {
            Inode::File(_) => {
                return Err(FsError::NotADirectory);
            },
            Inode::Dir(d) => d,
        };
        proof {
            crate::inode::lemma_ino_dir_eq(ino);
        }
        let dnum = dir_inode.num();
        if dnum > self.num_dirs + 1 {
            return Err(FsError::NotFound);
        }
        let total: u64 = if dnum == 1 {
            2 + self.num_dirs
        } else {
            3
        };
        proof {
            assert(total as int == self.full_listing(ino).len());
        }
        let ghost w = self.readdir_spec(ino, offset as int)->Ok_0;
        let ghost start: int = if offset as int <= total as int {
            offset as int
        } else {
            total as int
        };
        let mut entries: Vec<DirEntry> = Vec::new();
        let mut j: u64 = if offset > total {
            total
        } else {
            offset
        };
        while j < total
            invariant
                self.wf(),
                1 <= dnum <= self.spec_dirs() + 1,
                dnum == ino,
                dnum == dir_inode@,
                total as int == self.full_listing(ino).len(),
                start <= j <= total,
                w == self.readdir_spec(ino, start)->Ok_0,
                self.readdir_err(ino) is None,
                w.len() == total - start,
                forall|i: int|
                    0 <= i < w.len() ==> w[i] == (
                        self.full_listing(ino)[start + i].0,
                        start + i + 1,
                        self.full_listing(ino)[start + i].1,
                        self.full_listing(ino)[start + i].2,
                    ),
                entries@.len() == j - start,
                forall|t: int|
                    0 <= t < entries@.len() ==> entry_matches(#[trigger] entries@[t], w[t]),
            decreases total - j,
        {
            let e = self.listing_entry(dir_inode, j);
            entries.push(e);
            j = j + 1;
        }
        proof {
            assert(self.readdir_spec(ino, offset as int) == self.readdir_spec(ino, start));
        }
        Ok(entries)
    }
}

/// An identifier whose directory number lies past the last addressable
/// directory (`num_dirs + 1`) resolves nowhere: attribute queries fail as
/// Not-Found, so do listings, and no name resolves under it.
pub proof fn lemma_dir_boundary(fs: TarpitFs, ino: u64)
    requires
        fs.wf(),
        ino_file_num(ino as int) == 0,
        ino_dir_num(ino as int) >= fs.spec_dirs() + 2,
    ensures
        fs.getattr_spec(ino) is None,
        fs.readdir_err(ino) == Some(FsError::NotFound),
        forall|name: Seq<char>| fs.lookup_spec(ino, name) is None,
{
    crate::inode::lemma_ino_dir_eq(ino);
}

/// The directory at the boundary, number `num_dirs + 1`, is served
/// consistently across the operations: its attributes exist, it can be
/// listed, and the name of the last subdirectory resolves to it.
pub proof fn lemma_boundary_consistent(fs: TarpitFs)
    requires
        fs.wf(),
        fs.spec_dirs() >= 1,
    ensures
        fs.getattr_spec((fs.spec_dirs() + 1) as u64) == Some(
            dir_attr_spec((fs.spec_dirs() + 1) as u64),
        ),
        fs.readdir_err((fs.spec_dirs() + 1) as u64) is None,
        fs.lookup_spec(1, dir_name_spec(fs.spec_dirs() as int)) == Some(
            dir_attr_spec((fs.spec_dirs() + 1) as u64),
        ),
{
    let d = (fs.spec_dirs() + 1) as u64;
    crate::inode::lemma_dir_round_trip(d);
    crate::names::lemma_name_round_trip(fs.spec_dirs());
}

/// Reading under a file identifier that carries the exposed file number is
/// deterministic: an offset within the fixed content yields its suffix
/// from that offset, and an offset past its end yields an empty result —
/// never an error.
pub proof fn lemma_read_content(fs: TarpitFs, ino: u64, offset: u64)
    requires
        ino_file_num(ino as int) == HELLO_FILE_NUM,
    ensures
        fs.read_spec(ino, offset) is Ok,
        offset <= hello_content().len() ==> fs.read_spec(ino, offset)->Ok_0 == hello_content().skip(
            offset as int,
        ),
        offset > hello_content().len() ==> fs.read_spec(ino, offset)->Ok_0 == Seq::<u8>::empty(),
{
    assert(ino != 0);
    if offset == 13 {
        assert(hello_content().skip(13) =~= Seq::<u8>::empty());
    }
}

/// Paging reproduces a listing exactly once: the call at offset `0`
/// returns the full list; every entry's resumption offset is its index
/// plus one; and for each index `k` the call resumed at `k` returns the
/// remaining entries, starting with exactly the entry the call at `0` put
/// at position `k`.
pub proof fn lemma_pagination(fs: TarpitFs, ino: u64)
    requires
        fs.wf(),
        fs.readdir_err(ino) is None,
    ensures
        fs.readdir_spec(ino, 0) is Ok,
        fs.readdir_spec(ino, 0)->Ok_0.len() == fs.full_listing(ino).len(),
        forall|k: int|
            0 <= k < fs.full_listing(ino).len() ==> {
                &&& (#[trigger] fs.readdir_spec(ino, k)) matches Ok(wk)
                &&& wk.len() == fs.full_listing(ino).len() - k
                &&& wk[0] == fs.readdir_spec(ino, 0)->Ok_0[k]
                &&& wk[0].1 == k + 1
            },
        Seq::new(
            fs.full_listing(ino).len(),
            |k: int| fs.readdir_spec(ino, k)->Ok_0[0],
        ) =~= fs.readdir_spec(ino, 0)->Ok_0,
{
}

/// Name resolution and attribute queries agree. Whatever the root resolves
/// a name to, an attribute query on the returned identifier serves the same
/// attributes; and the file a subdirectory resolves is served likewise
/// whenever its file number lies within the configured file count.
pub proof fn lemma_lookup_getattr_agree(fs: TarpitFs, parent: u64, name: Seq<char>)
    requires
        fs.wf(),
    ensures
        parent == 1 ==> (fs.lookup_spec(1, name) matches Some(a) ==> fs.getattr_spec(a.ino)
            == Some(a)),
        parent != 1 && HELLO_FILE_NUM <= fs.spec_files() ==> (fs.lookup_spec(parent, name) matches
            Some(a) ==> fs.getattr_spec(a.ino) == Some(a)),
{
    if parent == 1 && fs.lookup_spec(1, name) is Some {
        let v = digits_value(name.skip(3));
        crate::inode::lemma_dir_round_trip((v + 1) as u64);
    }
    if parent != 1 && fs.lookup_spec(parent, name) is Some {
        crate::inode::lemma_ino_dir_eq(parent);
        crate::inode::lemma_file_round_trip(parent, HELLO_FILE_NUM);
    }
}

/// Listing and name resolution agree: every subdirectory entry the root
/// listing hands out carries a name that resolves, under the root, to the
/// entry's own identifier.
pub proof fn lemma_listing_names_resolve(fs: TarpitFs, k: int)
    requires
        fs.wf(),
        2 <= k < fs.root_listing().len(),
    ensures
        fs.lookup_spec(1, fs.root_listing()[k].2) matches Some(a) && a.ino == fs.root_listing()[
            k].0,
{
    crate::names::lemma_name_round_trip((k - 1) as u64);
}

/// Whether two strings hold the same characters.
fn str_eq(a: &str, b: &str) -> (r: bool)
    ensures
        r == (a@ == b@),
{
    let sa = String::from_str(a);
    let sb = String::from_str(b);
    sa == sb
}

} // verus!

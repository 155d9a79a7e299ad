//! The inode codec: packing a directory number and a file number into one
//! 64-bit identifier and splitting such an identifier back apart.
//!
//! The low 32 bits of an identifier carry a directory number; the high 32
//! bits carry a file number, where zero means "this identifier denotes the
//! directory itself". No table is ever stored: the codec is a bijection
//! between the two halves and the packed value.

use vstd::arithmetic::div_mod::{lemma_fundamental_div_mod, lemma_fundamental_div_mod_converse};
use vstd::prelude::*;

verus! {

/// Largest directory number that fits in the low 32 bits of an identifier.
pub const MAX_DIRS: u64 = 0xFFFF_FFFF;

/// Largest file number that fits in the high 32 bits of an identifier.
pub const MAX_FILES: u64 = 0xFFFF_FFFF;

/// The directory number carried by a packed identifier: its low 32 bits.
pub open spec fn ino_dir_num(ino: int) -> int {
    ino % 0x1_0000_0000
}

/// The file number carried by a packed identifier: its high 32 bits.
pub open spec fn ino_file_num(ino: int) -> int {
    ino / 0x1_0000_0000
}

/// The identifier that packs `dir_num` into the low 32 bits and `file_num`
/// into the high 32 bits.
pub open spec fn file_ino_val(dir_num: int, file_num: int) -> int {
    file_num * 0x1_0000_0000 + dir_num
}

/// A directory inode number.
///
/// When packed into a `u64`, the directory number occupies the low 32 bits.
/// The number `0` is reserved; the number `1` is used for the mount point.
#[derive(Clone, Copy, Debug)]
pub struct DirInode(u32);

/// A file inode number.
///
/// When packed into a `u64`, the parent directory number occupies the low
/// 32 bits and the file number the high 32 bits. The file number `0` is
/// reserved for the parent directory itself.
#[derive(Clone, Copy, Debug)]
pub struct FileInode(DirInode, u32);

/// The two disjoint kinds of node an identifier can denote.
#[derive(Clone, Copy, Debug)]
pub enum Inode {
    Dir(DirInode),
    File(FileInode),
}

impl View for DirInode {
    type V = u64;

    closed spec fn view(&self) -> u64 {
        self.0 as u64
    }
}

impl View for FileInode {
    /// A file inode is modelled as the pair (parent directory number, file number).
    type V = (u64, u64);

    closed spec fn view(&self) -> (u64, u64) {
        (self.0.0 as u64, self.1 as u64)
    }
}

impl DirInode {
    /// Construct a directory inode from a directory number; `None` exactly
    /// when the number does not fit the low 32 bits.
    pub fn from_number(num: u64) -> (r: Option<DirInode>)
        ensures
            num <= MAX_DIRS ==> (r matches Some(d) && d@ == num),
            num > MAX_DIRS ==> r is None,
    {
        if num > MAX_DIRS {
            None
        } else {
            Some(DirInode(num as u32))
        }
    }

    /// The directory number.
    pub fn num(&self) -> (r: u64)
        ensures
            r == self@,
    {
        self.0 as u64
    }

    /// The packed 64-bit identifier: for a directory it is the directory
    /// number itself, so the file half is zero.
    pub fn ino(&self) -> (r: u64)
        ensures
            r == self@,
            self@ <= MAX_DIRS,
    {
        self.0 as u64
    }
}

impl FileInode {
    /// Construct a file inode under `parent` from a file number; `None`
    /// exactly when the number does not fit the high 32 bits.
    pub fn from_number(parent: DirInode, num: u64) -> (r: Option<FileInode>)
        ensures
            num <= MAX_FILES ==> (r matches Some(f) && f@ == (parent@, num)),
            num > MAX_FILES ==> r is None,
    {
        if num > MAX_FILES {
            None
        } else {
            Some(FileInode(parent, num as u32))
        }
    }

    /// The file number within the parent directory.
    pub fn num(&self) -> (r: u64)
        ensures
            r == self@.1,
    {
        self.1 as u64
    }

    /// The number of the parent directory.
    pub fn parent_num(&self) -> (r: u64)
        ensures
            r == self@.0,
    {
        self.0.0 as u64
    }

    /// The packed 64-bit identifier, with the parent directory number in the
    /// low half and the file number in the high half.
    pub fn ino(&self) -> (r: u64)
        ensures
            r == file_ino_val(self@.0 as int, self@.1 as int),
    {
        let dir_num = self.0.0;
        let file_num = self.1;
        let r = ((file_num as u64) << 32) | (dir_num as u64);
        proof {
            let f = file_num as u64;
            let d = dir_num as u64;
            assert(f < 0x1_0000_0000 && d < 0x1_0000_0000 ==> ((f << 32) | d) == f
                * 0x1_0000_0000 + d) by (bit_vector);
        }
        r
    }
}

impl Inode {
    /// Split a packed identifier into its variant. The identifier `0`
    /// (both halves zero) is structurally invalid and is excluded.
    pub fn from_ino_u64(ino: u64) -> (r: Inode)
        requires
            ino != 0,
        ensures
            ino_file_num(ino as int) == 0 ==> (r matches Inode::Dir(d) && d@ == ino_dir_num(
                ino as int,
            ) && d@ != 0),
            ino_file_num(ino as int) != 0 ==> (r matches Inode::File(f) && f@.0 == ino_dir_num(
                ino as int,
            ) && f@.1 == ino_file_num(ino as int)),
    {
        let dir_number = (ino & 0xFFFF_FFFF) as u32;
        let file_number = (ino >> 32) as u32;
        proof {
            assert((ino & 0xFFFF_FFFF) == ino % 0x1_0000_0000) by (bit_vector);
            assert((ino >> 32) == ino / 0x1_0000_0000) by (bit_vector);
            assert(ino & 0xFFFF_FFFF <= 0xFFFF_FFFF) by (bit_vector);
            assert(ino >> 32 <= 0xFFFF_FFFF) by (bit_vector);
            assert(ino != 0 && ino >> 32 == 0 ==> ino & 0xFFFF_FFFF != 0) by (bit_vector);
        }
        if file_number == 0 {
            Inode::Dir(DirInode(dir_number))
        } else {
            Inode::File(FileInode(DirInode(dir_number), file_number))
        }
    }
}

/// Every file inode's two numbers fit their 32-bit halves.
pub broadcast proof fn lemma_file_inode_bounds(f: FileInode)
    ensures
        #[trigger] f@.0 <= MAX_DIRS,
        f@.1 <= MAX_FILES,
{
}

/// An identifier whose file half is zero is its own directory number.
pub proof fn lemma_ino_dir_eq(ino: u64)
    requires
        ino_file_num(ino as int) == 0,
    ensures
        ino_dir_num(ino as int) == ino,
        ino <= MAX_DIRS,
{
    lemma_fundamental_div_mod(ino as int, 0x1_0000_0000);
}

/// Packing a directory number and splitting the result gives the number
/// back: the file half of a bare directory number is zero and its directory
/// half is the number itself.
pub proof fn lemma_dir_round_trip(n: u64)
    requires
        n <= MAX_DIRS,
    ensures
        ino_file_num(n as int) == 0,
        ino_dir_num(n as int) == n as int,
{
    lemma_fundamental_div_mod_converse(n as int, 0x1_0000_0000, 0, n as int);
}

/// Packing a parent directory number and a file number and splitting the
/// result gives both numbers back, and the packed value fits in 64 bits.
pub proof fn lemma_file_round_trip(d: u64, f: u64)
    requires
        d <= MAX_DIRS,
        f <= MAX_FILES,
    ensures
        0 <= file_ino_val(d as int, f as int) <= u64::MAX,
        ino_dir_num(file_ino_val(d as int, f as int)) == d as int,
        ino_file_num(file_ino_val(d as int, f as int)) == f as int,
{
    assert((f as int) * 0x1_0000_0000 <= 0xFFFF_FFFF * 0x1_0000_0000) by (nonlinear_arith)
        requires
            f <= 0xFFFF_FFFF,
    ;
    lemma_fundamental_div_mod_converse(
        file_ino_val(d as int, f as int),
        0x1_0000_0000,
        f as int,
        d as int,
    );
}

} // verus!

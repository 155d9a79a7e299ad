use tarpit::fs::{hello_content_bytes, FileKind, FsError, TarpitFs, EPOCH_SECS};
use tarpit::inode::Inode;

fn small_fs() -> TarpitFs {
    // Scenario configuration: three subdirectories, one file each.
    TarpitFs::builder().dirs(3).files(1).build()
}

#[test]
fn builder_defaults() {
    let fs = TarpitFs::builder().build();
    assert_eq!(fs.num_dirs(), 10);
    assert_eq!(fs.num_files(), 10);
    assert_eq!(fs.slowdown_ms(), 0);
}

#[test]
fn builder_setters() {
    let fs = TarpitFs::builder().dirs(3).files(2).slowdown_ms(50).build();
    assert_eq!(fs.num_dirs(), 3);
    assert_eq!(fs.num_files(), 2);
    assert_eq!(fs.slowdown_ms(), 50);
}

#[test]
fn content_is_hello_world() {
    assert_eq!(hello_content_bytes(), b"Hello World!\n".to_vec());
}

#[test]
fn lookup_resolves_subdirectories_under_the_root() {
    // Scenario: a known name resolves, one past the last does not.
    let fs = small_fs();
    let attr = fs.lookup(1, "pit001").expect("pit001 must resolve");
    assert_eq!(attr.kind, FileKind::Directory);
    assert_eq!(attr.ino, 2);
    assert_eq!(attr.size, 0);
    assert_eq!(attr.perm, 0o755);
    assert_eq!(attr.nlink, 2);
    assert_eq!(attr.epoch_secs, EPOCH_SECS);
    assert!(fs.lookup(1, "pit004").is_none());
}

#[test]
fn lookup_resolves_the_file_under_a_subdirectory() {
    // Scenario: the fixed file resolves under a resolved subdirectory.
    let fs = small_fs();
    let dir = fs.lookup(1, "pit001").unwrap();
    let file = fs.lookup(dir.ino, "hello.txt").expect("hello.txt must resolve");
    assert_eq!(file.kind, FileKind::RegularFile);
    assert_eq!(file.size, 13);
    assert_eq!(file.perm, 0o644);
    assert_eq!(file.nlink, 1);
    assert_eq!(file.ino, (2u64 << 32) | 2);
    // No other name resolves there, and nothing resolves under a file.
    assert!(fs.lookup(dir.ino, "other.txt").is_none());
    assert!(fs.lookup(file.ino, "hello.txt").is_none());
    // The root exposes no file entry of its own.
    assert!(fs.lookup(1, "hello.txt").is_none());
}

#[test]
fn getattr_serves_every_addressable_directory() {
    let fs = small_fs();
    for ino in 1..=4u64 {
        let attr = fs.getattr(ino).expect("addressable directory");
        assert_eq!(attr.kind, FileKind::Directory);
        assert_eq!(attr.ino, ino);
    }
}

#[test]
fn getattr_boundary_fails_not_found() {
    // Directory numbers past num_dirs + 1 are not addressable.
    let fs = small_fs();
    assert!(fs.getattr(5).is_none());
    assert!(fs.getattr(6).is_none());
    assert!(fs.getattr(1000).is_none());
    assert!(fs.getattr(0).is_none());
}

#[test]
fn getattr_on_files_respects_the_file_count() {
    let fs = TarpitFs::builder().dirs(3).files(2).build();
    let file_ino = (2u64 << 32) | 2;
    let attr = fs.getattr(file_ino).expect("file within the file count");
    assert_eq!(attr.kind, FileKind::RegularFile);
    assert_eq!(attr.size, 13);
    // A file number past the count is not served.
    assert!(fs.getattr((3u64 << 32) | 2).is_none());
    // A file under an unaddressable parent is not served.
    assert!(fs.getattr((2u64 << 32) | 5).is_none());
    assert!(fs.getattr(2u64 << 32).is_none());
}

#[test]
fn read_returns_the_suffix_from_the_offset() {
    // Scenario: reading from offset 6 yields the tail of the content.
    let fs = small_fs();
    let file = fs.lookup(2, "hello.txt").unwrap();
    let data = fs.read(file.ino, 6).expect("read must succeed");
    assert_eq!(data, b"World!\n".to_vec());
}

#[test]
fn read_is_deterministic_over_every_offset() {
    let content = b"Hello World!\n";
    let fs = small_fs();
    let file_ino = (2u64 << 32) | 2;
    for offset in 0..=13u64 {
        let data = fs.read(file_ino, offset).expect("offset within content");
        assert_eq!(data, content[offset as usize..].to_vec());
    }
    // Past the end: empty, never an error.
    assert_eq!(fs.read(file_ino, 14), Ok(Vec::new()));
    assert_eq!(fs.read(file_ino, 1_000_000), Ok(Vec::new()));
}

#[test]
fn read_errors() {
    let fs = small_fs();
    // Reading a directory fails as Is-A-Directory.
    assert_eq!(fs.read(2, 0).unwrap_err(), FsError::IsADirectory);
    // Reading a file number other than the exposed one fails as Not-Found.
    assert_eq!(fs.read((3u64 << 32) | 2, 0).unwrap_err(), FsError::NotFound);
    // The structurally invalid identifier is reported, not served.
    assert_eq!(fs.read(0, 0).unwrap_err(), FsError::NotFound);
}

#[test]
fn readdir_lists_the_root_in_order() {
    // Scenario: the root lists itself, its parent and every subdirectory.
    let fs = small_fs();
    let entries = fs.readdir(1, 0).expect("root must list");
    let names: Vec<&str> = entries.iter().map(|e| e.name.as_str()).collect();
    assert_eq!(names, vec![".", "..", "pit001", "pit002", "pit003"]);
    let inos: Vec<u64> = entries.iter().map(|e| e.ino).collect();
    assert_eq!(inos, vec![1, 1, 2, 3, 4]);
    for (i, e) in entries.iter().enumerate() {
        assert_eq!(e.next_offset, i as u64 + 1);
    }
    assert_eq!(entries[0].kind, FileKind::Directory);
}

#[test]
fn readdir_lists_a_subdirectory() {
    let fs = small_fs();
    let entries = fs.readdir(2, 0).expect("subdirectory must list");
    let names: Vec<&str> = entries.iter().map(|e| e.name.as_str()).collect();
    assert_eq!(names, vec![".", "..", "hello.txt"]);
    let inos: Vec<u64> = entries.iter().map(|e| e.ino).collect();
    assert_eq!(inos, vec![2, 1, (2u64 << 32) | 2]);
    assert_eq!(entries[2].kind, FileKind::RegularFile);
}

#[test]
fn readdir_pagination_reproduces_the_listing() {
    // Resuming at each entry's handed-back offset walks the full list
    // exactly once, in the same order as one call at offset zero.
    let fs = small_fs();
    for dir_ino in [1u64, 2] {
        let full = fs.readdir(dir_ino, 0).unwrap();
        let mut paged = Vec::new();
        let mut offset = 0u64;
        loop {
            let batch = fs.readdir(dir_ino, offset).unwrap();
            match batch.into_iter().next() {
                Some(first) => {
                    offset = first.next_offset;
                    paged.push(first);
                }
                None => break,
            }
        }
        assert_eq!(paged.len(), full.len());
        for (a, b) in paged.iter().zip(full.iter()) {
            assert_eq!(a.ino, b.ino);
            assert_eq!(a.next_offset, b.next_offset);
            assert_eq!(a.kind, b.kind);
            assert_eq!(a.name, b.name);
        }
        // Every suffix call returns exactly the remaining entries.
        for k in 0..full.len() {
            let tail = fs.readdir(dir_ino, k as u64).unwrap();
            assert_eq!(tail.len(), full.len() - k);
            assert_eq!(tail[0].name, full[k].name);
        }
    }
}

#[test]
fn readdir_past_the_end_is_empty() {
    let fs = small_fs();
    assert!(fs.readdir(1, 5).unwrap().is_empty());
    assert!(fs.readdir(1, 100).unwrap().is_empty());
    assert!(fs.readdir(2, 3).unwrap().is_empty());
}

#[test]
fn readdir_errors() {
    // Scenario: listing a file fails as Not-A-Directory; reading a
    // directory was covered above; unaddressable directories are Not-Found.
    let fs = small_fs();
    let file_ino = (2u64 << 32) | 2;
    assert_eq!(fs.readdir(file_ino, 0).unwrap_err(), FsError::NotADirectory);
    assert_eq!(fs.readdir(5, 0).unwrap_err(), FsError::NotFound);
    assert_eq!(fs.readdir(0, 0).unwrap_err(), FsError::NotFound);
}

#[test]
fn helper_mappings() {
    let fs = small_fs();
    // Subdirectory positions are shifted past the root's directory number.
    assert_eq!(fs.dir_num_to_inode(0).unwrap().num(), 1);
    assert_eq!(fs.dir_num_to_inode(3).unwrap().num(), 4);
    assert!(fs.dir_num_to_inode(4).is_none());
    assert_eq!(fs.dir_name_to_inode("pit002").unwrap().num(), 3);
    assert!(fs.dir_name_to_inode("pit004").is_none());
    assert!(fs.dir_name_to_inode("hello.txt").is_none());
    assert_eq!(fs.inode_to_dir(4).unwrap().num(), 4);
    assert!(fs.inode_to_dir(5).is_none());
    assert!(fs.inode_to_dir(0).is_none());
    assert!(fs.inode_to_dir((2u64 << 32) | 2).is_none());
}

#[test]
fn inode_attr_dispatches_on_the_variant() {
    let fs = TarpitFs::builder().dirs(3).files(2).build();
    let dir = fs.inode_attr(Inode::from_ino_u64(4)).unwrap();
    assert_eq!(dir.kind, FileKind::Directory);
    assert_eq!(dir.ino, 4);
    let file = fs.inode_attr(Inode::from_ino_u64((2u64 << 32) | 4)).unwrap();
    assert_eq!(file.kind, FileKind::RegularFile);
    assert_eq!(file.ino, (2u64 << 32) | 4);
    assert!(fs.inode_attr(Inode::from_ino_u64(5)).is_none());
    assert!(fs.inode_attr(Inode::from_ino_u64((3u64 << 32) | 4)).is_none());
}

#[test]
fn name_of_number_zero_does_not_resolve() {
    // The name pattern admits the value zero, but directory number zero is
    // never valid: names resolve only to the values one through num_dirs.
    let fs = small_fs();
    assert!(fs.lookup(1, "pit000").is_none());
    assert!(fs.dir_name_to_inode("pit000").is_none());
}

#[test]
fn large_tree_is_computed_on_demand() {
    // A tree of a million directories costs nothing to mount; entries far
    // into the listing are computed directly from their offset.
    let fs = TarpitFs::builder().dirs(1_000_000).files(1).build();
    let attr = fs.lookup(1, "pit999999").unwrap();
    assert_eq!(attr.ino, 1_000_000);
    assert!(fs.lookup(1, "pit1000001").is_none());
    let entries = fs.readdir(1, 1_000_000).unwrap();
    assert_eq!(entries.len(), 2);
    assert_eq!(entries[0].name, "pit999999");
    assert_eq!(entries[1].name, "pit1000000");
}

use tarpit::inode::{DirInode, FileInode, Inode, MAX_DIRS, MAX_FILES};
use tarpit::names::{dir_name, name_to_dir_num};

#[test]
fn dir_inode_round_trip() {
    let d = DirInode::from_number(7).unwrap();
    assert_eq!(d.num(), 7);
    assert_eq!(d.ino(), 7);
    match Inode::from_ino_u64(d.ino()) {
        Inode::Dir(back) => assert_eq!(back.num(), 7),
        Inode::File(_) => panic!("directory identifier decoded as a file"),
    }
}

#[test]
fn file_inode_round_trip() {
    let parent = DirInode::from_number(7).unwrap();
    let f = FileInode::from_number(parent, 2).unwrap();
    assert_eq!(f.num(), 2);
    assert_eq!(f.parent_num(), 7);
    assert_eq!(f.ino(), (2u64 << 32) | 7);
    match Inode::from_ino_u64(f.ino()) {
        Inode::Dir(_) => panic!("file identifier decoded as a directory"),
        Inode::File(back) => {
            assert_eq!(back.parent_num(), 7);
            assert_eq!(back.num(), 2);
        }
    }
}

#[test]
fn inode_constructors_reject_out_of_range_numbers() {
    assert!(DirInode::from_number(MAX_DIRS).is_some());
    assert!(DirInode::from_number(MAX_DIRS + 1).is_none());
    let parent = DirInode::from_number(1).unwrap();
    assert!(FileInode::from_number(parent, MAX_FILES).is_some());
    assert!(FileInode::from_number(parent, MAX_FILES + 1).is_none());
}

#[test]
fn dir_names_are_zero_padded() {
    assert_eq!(dir_name(0), "pit000");
    assert_eq!(dir_name(1), "pit001");
    assert_eq!(dir_name(7), "pit007");
    assert_eq!(dir_name(42), "pit042");
    assert_eq!(dir_name(999), "pit999");
    assert_eq!(dir_name(1000), "pit1000");
    assert_eq!(dir_name(4294967295), "pit4294967295");
}

#[test]
fn names_parse_back() {
    assert_eq!(name_to_dir_num("pit000"), Some(0));
    assert_eq!(name_to_dir_num("pit001"), Some(1));
    assert_eq!(name_to_dir_num("pit999"), Some(999));
    assert_eq!(name_to_dir_num("pit1000"), Some(1000));
    assert_eq!(name_to_dir_num("pit0007"), Some(7));
    assert_eq!(name_to_dir_num("pit18446744073709551615"), Some(u64::MAX));
}

#[test]
fn bad_names_do_not_parse() {
    assert_eq!(name_to_dir_num(""), None);
    assert_eq!(name_to_dir_num("pit"), None);
    assert_eq!(name_to_dir_num("pi"), None);
    assert_eq!(name_to_dir_num("hello.txt"), None);
    assert_eq!(name_to_dir_num("pit12x"), None);
    assert_eq!(name_to_dir_num("pit 12"), None);
    assert_eq!(name_to_dir_num("pit+12"), None);
    assert_eq!(name_to_dir_num("pit-12"), None);
    assert_eq!(name_to_dir_num("Pit001"), None);
    // One digit more than the largest 64-bit value: out of range.
    assert_eq!(name_to_dir_num("pit18446744073709551616"), None);
}

#[test]
fn name_bijection_samples() {
    for n in [0u64, 1, 9, 10, 99, 100, 999, 1000, 123456, 4294967295] {
        assert_eq!(name_to_dir_num(&dir_name(n)), Some(n));
    }
}

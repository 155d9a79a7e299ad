//! A read-only synthetic filesystem that computes its whole tree on demand:
//! a flat 64-bit identifier space is split into a directory half and a file
//! half, and every name, attribute and file content is a pure function of the
//! identifier and the configured tree shape.

pub mod fs;
pub mod inode;
pub mod names;

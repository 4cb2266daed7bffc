//! Disc patching toolkit: the partition cipher and hash tree, the virtual
//! file system's path operations, the patch-instruction assembler, symbol
//! tables and symbol maps, and the order of a build transaction.

pub mod assembler;
pub mod builder;
pub mod crypto;
pub mod encoding;
pub mod hash_tree;
pub mod map_layout;
pub mod symbol_map;
pub mod symbols;
pub mod text;
pub mod vfs;

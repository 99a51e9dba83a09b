//! The virtual file system.
pub mod attr;
pub mod data;
pub mod how_to_gen;
pub mod inode;
pub mod invocation;
pub mod laws;
pub mod lookup;
pub mod path_table;
pub mod root_doc;
pub mod schema_gen;
pub mod sid;
pub mod slot_table;
pub mod tree;
pub mod vfs;

pub use vfs::LiveFolders;

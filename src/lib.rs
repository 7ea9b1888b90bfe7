//! A filesystem adapter that exposes a key/value store through FUSE-style
//! callbacks: inode allocation, a bounded inode-to-key resolver, a static
//! control tree and the dispatch of each callback by inode range.

pub mod config;
pub mod driver;
pub mod fs;
pub mod inode;
pub mod resolver;

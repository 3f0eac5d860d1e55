//! Virtual file system: names, paths and the in-memory filesystem.

pub mod name;
pub mod dirent;
pub mod entries;
pub mod ramfs;
pub mod file;
pub mod path;
pub mod wait_queue;
pub mod pipe;
pub mod epoll;
pub mod tar;
pub mod procfs;
pub mod devfs;

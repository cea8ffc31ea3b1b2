//! A concurrent cache of reloadable values: reader-writer locked slots, the
//! handles and read guards that look into them, and directory snapshots that
//! list the ids of one kind of asset.

pub mod dirs;
pub mod lock;

//! Torrent client backends.
pub mod qb;

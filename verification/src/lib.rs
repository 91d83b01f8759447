//! Peer banning logic for BitTorrent clients: rules that recognise leeching
//! clients, the ban list kept by the daemon and the qBittorrent session state.
pub mod ratio;
pub mod text;
pub mod torrent;
pub mod peer;
pub mod rules;
pub mod utils;
pub mod backend;
pub mod conf;
pub mod daemon;

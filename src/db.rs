use vstd::prelude::*;

verus! {

/// One row of the store: an item that the daemon accepted.
#[derive(Debug, Clone, PartialEq, Eq)]
pub struct Torrent {
    pub guid: String,
    pub title: String,
    pub link: String,
    pub torrent_url: String,
    pub torrent_size: i64,
}

} // verus!

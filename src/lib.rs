//! The data pipeline of a torrent list page: the reply of a torrent daemon is
//! normalized to view models, held in a single-shot fetch state, and turned into a
//! sorted list filtered by the text the user typed.
pub mod fetch;
pub mod filter;
pub mod gateway;
pub mod order;
pub mod torrent;
pub mod view;

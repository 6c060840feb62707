//! Transport coordination core of a Matter endpoint: replay filtering,
//! sessions and exchange multiplexing.

pub mod dedup;
pub mod error;
pub mod exchange;
pub mod mdns;
pub mod mgr;
pub mod mrp;
pub mod packet;
pub mod secure_channel;
pub mod session;
pub mod table;

//! Client side of a debugging bulletin board: sampling of call sites,
//! accumulation of snapshots, the wire framing of posts and reads, and the
//! decisions of the background worker that batches posts.
pub mod accumulate;
pub mod codec;
pub mod config;
pub mod index;
pub mod sampling;
pub mod rename;
pub mod sender;
pub mod wire;
pub mod worker;

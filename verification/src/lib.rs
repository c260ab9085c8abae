//! Counter synchronization engine: a monotonically increasing in-memory
//! counter together with the logic that keeps it durable — a little-endian
//! file encoding for the local backend, a monotonic merge algorithm that
//! reconciles local progress with a shared remote value, reconnect policy
//! for transient remote failures, and the sync-interval configuration
//! grammar. All I/O (files, network, HTTP) lives outside this crate; the
//! functions here compute on plain values and are verified.

pub mod counter;
pub mod duration;
pub mod file;
pub mod remote;

pub use counter::Count;
pub use duration::SyncDuration;
pub use duration::parse_duration;
pub use duration::parse_sync_frequency;
pub use file::FileSyncState;
pub use file::decode_counter;
pub use file::encode_counter;
pub use remote::CountTracker;
pub use remote::ReconnectPolicy;
pub use remote::RedisStorage;

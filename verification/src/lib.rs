//! Verified core of a platform-SDK binding layer: the registry that
//! correlates outstanding asynchronous call handles with their typed
//! completions, the dispatch step that drains completed-callback records and
//! resolves each pending entry exactly once — by payload decode, by
//! platform-reported I/O failure, or by timeout — and the marshaling of
//! fixed-layout result payloads and parallel enumeration buffers.
//!
//! The native SDK itself (session pointers, the actual asynchronous calls,
//! the per-tick poll) lives in the embedding layer, which feeds this crate
//! plain values: call handles, raw callback records and tick timestamps, and
//! delivers each returned resolution to the completion callback it keeps for
//! that handle.

pub mod context;
pub mod dispatch;
pub mod error;
pub mod inventory;
pub mod items;
pub mod registry;
pub mod wire;

pub use context::SteamContext;
pub use dispatch::CallbackRecord;
pub use error::SteamError;
pub use inventory::Inventory;
pub use inventory::PurchaseRequest;
pub use items::SteamItem;
pub use items::SteamItemInstance;
pub use items::SteamItemPrice;
pub use items::SteamPurchase;
pub use registry::CallRegistry;
pub use registry::PendingEntry;
pub use registry::Resolution;
pub use registry::ResultTag;
